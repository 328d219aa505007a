use std::io::{Cursor, Write};

use adona::addon::GitHubRelease;
use adona::archive::{InstallPlan, InstallStep};
use adona::error::{Error, ResponseDefect};
use adona::pipeline::{Action, Event, InstallResult, Pipeline, Progress, Stage};
use zip::write::SimpleFileOptions;
use zip::ZipWriter;

const BODY: &str = r#"{
    "tag_name": "v1",
    "published_at": "2019-10-12T07:20:50Z",
    "assets": [
        { "browser_download_url": "https://example.org/widget-v1.zip.sha256", "download_count": 3 },
        { "browser_download_url": "https://example.org/widget-v1.zip", "download_count": 12 }
    ]
}"#;

fn new_run(pattern: &str) -> Pipeline {
    Pipeline::new(
        GitHubRelease::new("acme".to_string(), "widget".to_string(), pattern.to_string()),
        "https://api.example.org".to_string(),
        "/games/addons".to_string(),
    )
}

fn widget_archive() -> Vec<u8> {
    let mut writer = ZipWriter::new(Cursor::new(Vec::new()));
    writer.start_file("widget/widget.toc", SimpleFileOptions::default()).unwrap();
    writer.write_all(b"## Title: Widget").unwrap();
    writer.finish().unwrap().into_inner()
}

fn failed(version: Option<&str>, reason: Error) -> Action {
    Action::Finish {
        result: InstallResult {
            version: version.map(|v| v.to_string()),
            path: "/games/addons".to_string(),
            outcome: Err(reason),
        },
    }
}

/// Runs the events one after the other and gives the last state and action.
fn run(pipeline: Pipeline, events: Vec<Event>) -> (Pipeline, Action) {
    let mut state = (pipeline, Action::Ignore);
    for event in events {
        state = state.0.step(event);
    }
    state
}

fn fetched() -> Event {
    Event::ReleaseFetched { body: BODY.to_string() }
}

#[test]
fn a_run_goes_through_every_stage_in_order() {
    let pipeline = new_run("\\.zip$");
    assert_eq!(pipeline.stage(), Stage::Idle);

    let (pipeline, action) = pipeline.step(Event::Start);
    assert_eq!(pipeline.stage(), Stage::Resolving);
    assert_eq!(
        action,
        Action::FetchRelease {
            address: "https://api.example.org/repos/acme/widget/releases/latest".to_string()
        }
    );

    let (pipeline, action) = pipeline.step(fetched());
    assert_eq!(pipeline.stage(), Stage::Matching);
    assert_eq!(action, Action::SelectAsset);

    let (pipeline, action) = pipeline.step(Event::Proceed);
    assert_eq!(pipeline.stage(), Stage::Retrieving);
    assert_eq!(
        action,
        Action::Retrieve { address: "https://example.org/widget-v1.zip".to_string() }
    );

    let (pipeline, action) = pipeline.step(Event::AssetRetrieved { bytes: widget_archive() });
    assert_eq!(pipeline.stage(), Stage::Installing);
    assert_eq!(
        action,
        Action::CarryOut {
            plan: InstallPlan {
                destination: "/games/addons".to_string(),
                steps: vec![
                    InstallStep::CreateDir { path: vec!["widget".to_string()] },
                    InstallStep::WriteFile {
                        path: vec!["widget".to_string(), "widget.toc".to_string()],
                        content: b"## Title: Widget".to_vec(),
                    },
                ],
            }
        }
    );

    let (pipeline, action) = pipeline.step(Event::PlanCarriedOut);
    assert_eq!(pipeline.stage(), Stage::Succeeded);
    assert_eq!(
        action,
        Action::Finish {
            result: InstallResult {
                version: Some("v1".to_string()),
                path: "/games/addons".to_string(),
                outcome: Ok(()),
            }
        }
    );
    assert_eq!(pipeline.progress, Progress::Succeeded { version: "v1".to_string() });
}

#[test]
fn a_transport_failure_while_resolving_ends_the_run() {
    let (pipeline, action) = run(new_run(".*"), vec![Event::Start, Event::TransportFailed]);
    assert_eq!(pipeline.stage(), Stage::Failed(Error::NetworkError));
    assert_eq!(action, failed(None, Error::NetworkError));
}

#[test]
fn a_malformed_response_ends_the_run() {
    let body = r#"{"published_at": "2019-10-12T07:20:50Z"}"#.to_string();
    let (pipeline, action) =
        run(new_run(".*"), vec![Event::Start, Event::ReleaseFetched { body }]);
    let reason = Error::MalformedResponse(ResponseDefect::MissingVersion);
    assert_eq!(pipeline.stage(), Stage::Failed(reason));
    assert_eq!(action, failed(None, reason));
}

#[test]
fn an_invalid_pattern_ends_the_run_at_matching() {
    let (pipeline, action) = run(new_run("("), vec![Event::Start, fetched(), Event::Proceed]);
    assert_eq!(pipeline.stage(), Stage::Failed(Error::InvalidPattern));
    assert_eq!(action, failed(Some("v1"), Error::InvalidPattern));
}

#[test]
fn no_matching_asset_ends_the_run_at_matching() {
    let (pipeline, action) =
        run(new_run("\\.tar$"), vec![Event::Start, fetched(), Event::Proceed]);
    assert_eq!(pipeline.stage(), Stage::Failed(Error::NoMatchingAsset));
    assert_eq!(action, failed(Some("v1"), Error::NoMatchingAsset));
}

#[test]
fn a_transport_failure_while_retrieving_ends_the_run() {
    let (pipeline, action) = run(
        new_run("zip$"),
        vec![Event::Start, fetched(), Event::Proceed, Event::TransportFailed],
    );
    assert_eq!(pipeline.stage(), Stage::Failed(Error::NetworkError));
    assert_eq!(action, failed(Some("v1"), Error::NetworkError));
}

#[test]
fn a_corrupt_archive_ends_the_run_without_a_plan() {
    let (pipeline, action) = run(
        new_run("zip$"),
        vec![
            Event::Start,
            fetched(),
            Event::Proceed,
            Event::AssetRetrieved { bytes: b"not an archive".to_vec() },
        ],
    );
    assert_eq!(pipeline.stage(), Stage::Failed(Error::ArchiveCorrupt));
    assert_eq!(action, failed(Some("v1"), Error::ArchiveCorrupt));
}

#[test]
fn a_filesystem_failure_ends_the_run() {
    let (pipeline, action) = run(
        new_run("zip$"),
        vec![
            Event::Start,
            fetched(),
            Event::Proceed,
            Event::AssetRetrieved { bytes: widget_archive() },
            Event::FilesystemFailed,
        ],
    );
    assert_eq!(pipeline.stage(), Stage::Failed(Error::IoError));
    assert_eq!(action, failed(Some("v1"), Error::IoError));
}

#[test]
fn cancelling_ends_a_run_at_any_stage() {
    let (pipeline, action) = run(new_run("zip$"), vec![Event::Cancelled]);
    assert_eq!(pipeline.stage(), Stage::Failed(Error::Cancelled));
    assert_eq!(action, failed(None, Error::Cancelled));

    let (pipeline, action) =
        run(new_run("zip$"), vec![Event::Start, fetched(), Event::Proceed, Event::Cancelled]);
    assert_eq!(pipeline.stage(), Stage::Failed(Error::Cancelled));
    assert_eq!(action, failed(Some("v1"), Error::Cancelled));
}

#[test]
fn a_run_that_is_over_stays_over() {
    let (pipeline, _) = run(new_run("zip$"), vec![Event::Start, Event::TransportFailed]);
    for event in [
        Event::Start,
        fetched(),
        Event::Proceed,
        Event::AssetRetrieved { bytes: widget_archive() },
        Event::PlanCarriedOut,
        Event::TransportFailed,
        Event::FilesystemFailed,
        Event::Cancelled,
    ] {
        let before = run(pipeline_failed(), vec![]).0;
        let (after, action) = before.step(event);
        assert_eq!(after.stage(), Stage::Failed(Error::NetworkError));
        assert_eq!(action, Action::Ignore);
    }
    assert_eq!(pipeline.stage(), Stage::Failed(Error::NetworkError));

    let (pipeline, _) = run(
        pipeline_done(),
        vec![Event::Cancelled, Event::Start, Event::FilesystemFailed],
    );
    assert_eq!(pipeline.stage(), Stage::Succeeded);
}

fn pipeline_failed() -> Pipeline {
    run(new_run("zip$"), vec![Event::Start, Event::TransportFailed]).0
}

fn pipeline_done() -> Pipeline {
    run(
        new_run("zip$"),
        vec![
            Event::Start,
            fetched(),
            Event::Proceed,
            Event::AssetRetrieved { bytes: widget_archive() },
            Event::PlanCarriedOut,
        ],
    )
    .0
}

#[test]
fn an_event_out_of_turn_changes_nothing() {
    let (pipeline, action) = run(new_run("zip$"), vec![Event::Proceed]);
    assert_eq!(pipeline.stage(), Stage::Idle);
    assert_eq!(action, Action::Ignore);

    let (pipeline, action) = run(new_run("zip$"), vec![Event::Start, Event::PlanCarriedOut]);
    assert_eq!(pipeline.stage(), Stage::Resolving);
    assert_eq!(action, Action::Ignore);

    let (pipeline, action) = run(new_run("zip$"), vec![Event::Start, Event::Start]);
    assert_eq!(pipeline.stage(), Stage::Resolving);
    assert_eq!(action, Action::Ignore);

    let (pipeline, action) =
        run(new_run("zip$"), vec![Event::Start, fetched(), Event::TransportFailed]);
    assert_eq!(pipeline.stage(), Stage::Matching);
    assert_eq!(action, Action::Ignore);

    let (pipeline, action) = run(new_run("zip$"), vec![Event::FilesystemFailed]);
    assert_eq!(pipeline.stage(), Stage::Idle);
    assert_eq!(action, Action::Ignore);
}

#[test]
fn two_runs_do_not_touch_each_other() {
    let first = new_run("zip$");
    let second = new_run("sha256$");
    let (first, _) = run(first, vec![Event::Start, fetched()]);
    let (second, _) = run(second, vec![Event::Start, fetched()]);
    let (_, one) = first.step(Event::Proceed);
    let (_, other) = second.step(Event::Proceed);
    assert_eq!(
        one,
        Action::Retrieve { address: "https://example.org/widget-v1.zip".to_string() }
    );
    assert_eq!(
        other,
        Action::Retrieve { address: "https://example.org/widget-v1.zip.sha256".to_string() }
    );
}
