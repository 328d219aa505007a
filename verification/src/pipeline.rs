//! The order of one run: resolve, match, retrieve, install.
//!
//! The pipeline itself does no outside work. Each step takes what the
//! outside work gave, as an event, and answers with the next piece of outside
//! work to do, as an action. Whoever drives it performs the action and hands
//! back the event. A run holds nothing beyond its own state, so runs for
//! different add-ons do not touch each other.

use vstd::prelude::*;

use crate::addon::{release_address_of, GitHubRelease, GitHubReleaseView};
use crate::archive::{extract, extraction, InstallPlan, PlanView};
use crate::error::Error;
use crate::matcher::{select_asset, selection};
use crate::release::{copy_text, text_view, ReleaseMetadata, ReleaseView};
use crate::resolver::{parse_release, release_outcome};

verus! {

/// Where a run stands.
#[derive(Clone, Copy, Debug, PartialEq, Eq, Structural)]
pub enum Stage {
    /// Nothing was asked for yet.
    Idle,
    /// The description of the latest release was asked for.
    Resolving,
    /// The release is known; its asset is to be selected.
    Matching,
    /// The asset was asked for.
    Retrieving,
    /// The plan was handed out to be carried out.
    Installing,
    /// The add-on is installed.
    Succeeded,
    /// The run stopped at the first failure, which it carries.
    Failed(Error),
}

/// How a run ended.
#[derive(Debug, PartialEq, Eq)]
pub struct InstallResult {
    /// The version that was resolved, where the run came that far.
    pub version: Option<String>,
    /// The directory that the add-on was to be installed into.
    pub path: String,
    /// Success, or the failure of the stage that failed.
    pub outcome: Result<(), Error>,
}

/// The mathematical value of an [`InstallResult`].
pub ghost struct InstallResultView {
    pub version: Option<Seq<char>>,
    pub path: Seq<char>,
    pub outcome: Result<(), Error>,
}

impl View for InstallResult {
    type V = InstallResultView;

    open spec fn view(&self) -> InstallResultView {
        InstallResultView {
            version: text_view(self.version),
            path: self.path@,
            outcome: self.outcome,
        }
    }
}

/// What the outside work gave.
#[derive(Debug, PartialEq, Eq)]
pub enum Event {
    /// The caller asks for the run to begin.
    Start,
    /// The hosting API answered with this body.
    ReleaseFetched { body: String },
    /// Nothing was to be done outside; go on.
    Proceed,
    /// The asset was retrieved, with these bytes.
    AssetRetrieved { bytes: Vec<u8> },
    /// Every step of the plan was carried out.
    PlanCarriedOut,
    /// The transport failed, or the server answered without success.
    TransportFailed,
    /// The filesystem refused a step of the plan.
    FilesystemFailed,
    /// The caller cancels the run.
    Cancelled,
}

/// The mathematical value of an [`Event`].
pub ghost enum EventView {
    Start,
    ReleaseFetched { body: Seq<char> },
    Proceed,
    AssetRetrieved { bytes: Seq<u8> },
    PlanCarriedOut,
    TransportFailed,
    FilesystemFailed,
    Cancelled,
}

impl View for Event {
    type V = EventView;

    open spec fn view(&self) -> EventView {
        match self {
            Event::Start => EventView::Start,
            Event::ReleaseFetched { body } => EventView::ReleaseFetched { body: body@ },
            Event::Proceed => EventView::Proceed,
            Event::AssetRetrieved { bytes } => EventView::AssetRetrieved { bytes: bytes@ },
            Event::PlanCarriedOut => EventView::PlanCarriedOut,
            Event::TransportFailed => EventView::TransportFailed,
            Event::FilesystemFailed => EventView::FilesystemFailed,
            Event::Cancelled => EventView::Cancelled,
        }
    }
}

/// The outside work to do next.
#[derive(Debug, PartialEq, Eq)]
pub enum Action {
    /// Ask the hosting API at `address`; answer with `ReleaseFetched` or
    /// `TransportFailed`.
    FetchRelease { address: String },
    /// Nothing to do outside; answer with `Proceed`.
    SelectAsset,
    /// Retrieve what is at `address`; answer with `AssetRetrieved` or
    /// `TransportFailed`.
    Retrieve { address: String },
    /// Carry out the plan; answer with `PlanCarriedOut` or `FilesystemFailed`.
    CarryOut { plan: InstallPlan },
    /// The run is over; hand the result to the caller.
    Finish { result: InstallResult },
    /// The event does not belong to the stage; nothing changed.
    Ignore,
}

/// The mathematical value of an [`Action`].
pub ghost enum ActionView {
    FetchRelease { address: Seq<char> },
    SelectAsset,
    Retrieve { address: Seq<char> },
    CarryOut { plan: PlanView },
    Finish { result: InstallResultView },
    Ignore,
}

impl View for Action {
    type V = ActionView;

    open spec fn view(&self) -> ActionView {
        match self {
            Action::FetchRelease { address } => ActionView::FetchRelease { address: address@ },
            Action::SelectAsset => ActionView::SelectAsset,
            Action::Retrieve { address } => ActionView::Retrieve { address: address@ },
            Action::CarryOut { plan } => ActionView::CarryOut { plan: plan@ },
            Action::Finish { result } => ActionView::Finish { result: result@ },
            Action::Ignore => ActionView::Ignore,
        }
    }
}

/// Where a run stands, with what it has learnt so far.
#[derive(Debug, PartialEq, Eq)]
pub enum Progress {
    Idle,
    Resolving,
    Matching { release: ReleaseMetadata },
    Retrieving { version: String },
    Installing { version: String },
    Succeeded { version: String },
    Failed { resolved: Option<String>, reason: Error },
}

/// The mathematical value of a [`Progress`].
pub ghost enum ProgressView {
    Idle,
    Resolving,
    Matching { release: ReleaseView },
    Retrieving { version: Seq<char> },
    Installing { version: Seq<char> },
    Succeeded { version: Seq<char> },
    Failed { resolved: Option<Seq<char>>, reason: Error },
}

impl View for Progress {
    type V = ProgressView;

    open spec fn view(&self) -> ProgressView {
        match self {
            Progress::Idle => ProgressView::Idle,
            Progress::Resolving => ProgressView::Resolving,
            Progress::Matching { release } => ProgressView::Matching { release: release@ },
            Progress::Retrieving { version } => ProgressView::Retrieving { version: version@ },
            Progress::Installing { version } => ProgressView::Installing { version: version@ },
            Progress::Succeeded { version } => ProgressView::Succeeded { version: version@ },
            Progress::Failed { resolved, reason } => ProgressView::Failed {
                resolved: text_view(*resolved),
                reason: *reason,
            },
        }
    }
}

/// One run of the pipeline for one add-on and one destination.
#[derive(Debug, PartialEq, Eq)]
pub struct Pipeline {
    /// Where the add-on's releases are found.
    pub source: GitHubRelease,
    /// The root of the hosting API.
    pub api_base: String,
    /// The directory to install into.
    pub destination: String,
    /// Where the run stands.
    pub progress: Progress,
}

/// The mathematical value of a [`Pipeline`].
pub ghost struct PipelineView {
    pub source: GitHubReleaseView,
    pub api_base: Seq<char>,
    pub destination: Seq<char>,
    pub progress: ProgressView,
}

impl View for Pipeline {
    type V = PipelineView;

    open spec fn view(&self) -> PipelineView {
        PipelineView {
            source: self.source@,
            api_base: self.api_base@,
            destination: self.destination@,
            progress: self.progress@,
        }
    }
}

/// The stage that a progress stands for.
pub open spec fn stage_of(progress: ProgressView) -> Stage {
    match progress {
        ProgressView::Idle => Stage::Idle,
        ProgressView::Resolving => Stage::Resolving,
        ProgressView::Matching { release } => Stage::Matching,
        ProgressView::Retrieving { version } => Stage::Retrieving,
        ProgressView::Installing { version } => Stage::Installing,
        ProgressView::Succeeded { version } => Stage::Succeeded,
        ProgressView::Failed { resolved, reason } => Stage::Failed(reason),
    }
}

/// The version that a run has resolved, where it came that far.
pub open spec fn known_version(progress: ProgressView) -> Option<Seq<char>> {
    match progress {
        ProgressView::Idle => None,
        ProgressView::Resolving => None,
        ProgressView::Matching { release } => Some(release.version),
        ProgressView::Retrieving { version } => Some(version),
        ProgressView::Installing { version } => Some(version),
        ProgressView::Succeeded { version } => Some(version),
        ProgressView::Failed { resolved, reason } => resolved,
    }
}

/// The run is over.
pub open spec fn is_terminal(progress: ProgressView) -> bool {
    progress is Succeeded || progress is Failed
}

/// Stopping with a failure: the run fails with `reason` and reports it.
pub open spec fn failing(state: PipelineView, reason: Error) -> (ProgressView, ActionView) {
    (
        ProgressView::Failed { resolved: known_version(state.progress), reason },
        ActionView::Finish {
            result: InstallResultView {
                version: known_version(state.progress),
                path: state.destination,
                outcome: Err(reason),
            },
        },
    )
}

/// Passing over an event that does not belong to the stage.
pub open spec fn ignoring(state: PipelineView) -> (ProgressView, ActionView) {
    (state.progress, ActionView::Ignore)
}

/// What a step does: the progress after the event, and the action asked for.
///
/// A run that is over ignores every event. A run that is not over fails
/// with `Cancelled` when it is cancelled. Otherwise each stage answers the
/// events that belong to it, going on to the next stage or failing with the
/// failure of the work done, and ignores the others.
pub open spec fn stepped(state: PipelineView, event: EventView) -> (ProgressView, ActionView) {
    if is_terminal(state.progress) {
        ignoring(state)
    } else {
        match event {
            EventView::Cancelled => failing(state, Error::Cancelled),
            EventView::Start => match state.progress {
                ProgressView::Idle => (
                    ProgressView::Resolving,
                    ActionView::FetchRelease {
                        address: release_address_of(
                            state.api_base,
                            state.source.owner,
                            state.source.repo,
                        ),
                    },
                ),
                _ => ignoring(state),
            },
            EventView::ReleaseFetched { body } => match state.progress {
                ProgressView::Resolving => match release_outcome(body) {
                    Ok(release) => (ProgressView::Matching { release }, ActionView::SelectAsset),
                    Err(e) => failing(state, e),
                },
                _ => ignoring(state),
            },
            EventView::Proceed => match state.progress {
                ProgressView::Matching { release } => match selection(
                    release.assets,
                    state.source.regex,
                ) {
                    Ok(asset) => (
                        ProgressView::Retrieving { version: release.version },
                        ActionView::Retrieve { address: asset.url },
                    ),
                    Err(e) => failing(state, e),
                },
                _ => ignoring(state),
            },
            EventView::AssetRetrieved { bytes } => match state.progress {
                ProgressView::Retrieving { version } => match extraction(bytes, state.destination) {
                    Ok(plan) => (ProgressView::Installing { version }, ActionView::CarryOut { plan }),
                    Err(e) => failing(state, e),
                },
                _ => ignoring(state),
            },
            EventView::PlanCarriedOut => match state.progress {
                ProgressView::Installing { version } => (
                    ProgressView::Succeeded { version },
                    ActionView::Finish {
                        result: InstallResultView {
                            version: Some(version),
                            path: state.destination,
                            outcome: Ok(()),
                        },
                    },
                ),
                _ => ignoring(state),
            },
            EventView::TransportFailed => match state.progress {
                ProgressView::Resolving => failing(state, Error::NetworkError),
                ProgressView::Retrieving { version } => failing(state, Error::NetworkError),
                _ => ignoring(state),
            },
            EventView::FilesystemFailed => match state.progress {
                ProgressView::Installing { version } => failing(state, Error::IoError),
                _ => ignoring(state),
            },
        }
    }
}

/// The place of a stage in the order of a run.
pub open spec fn rank(stage: Stage) -> int {
    match stage {
        Stage::Idle => 0,
        Stage::Resolving => 1,
        Stage::Matching => 2,
        Stage::Retrieving => 3,
        Stage::Installing => 4,
        Stage::Succeeded => 5,
        Stage::Failed(_) => 6,
    }
}

impl Progress {
    /// The stage that the progress stands for.
    pub fn stage(&self) -> (stage: Stage)
        ensures
            stage == stage_of(self@),
    {
        match self {
            Progress::Idle => Stage::Idle,
            Progress::Resolving => Stage::Resolving,
            Progress::Matching { release } => Stage::Matching,
            Progress::Retrieving { version } => Stage::Retrieving,
            Progress::Installing { version } => Stage::Installing,
            Progress::Succeeded { version } => Stage::Succeeded,
            Progress::Failed { resolved, reason } => Stage::Failed(*reason),
        }
    }

    /// The version that the run has resolved, where it came that far.
    pub fn version(&self) -> (version: Option<String>)
        ensures
            text_view(version) == known_version(self@),
    {
        match self {
            Progress::Idle => None,
            Progress::Resolving => None,
            Progress::Matching { release } => Some(release.version.clone()),
            Progress::Retrieving { version } => Some(version.clone()),
            Progress::Installing { version } => Some(version.clone()),
            Progress::Succeeded { version } => Some(version.clone()),
            Progress::Failed { resolved, reason } => copy_text(resolved),
        }
    }
}

impl Pipeline {
    /// A run that has not begun, for the add-on found at `source`, to be
    /// installed into `destination`.
    pub fn new(source: GitHubRelease, api_base: String, destination: String) -> (pipeline: Pipeline)
        ensures
            pipeline@ == (PipelineView {
                source: source@,
                api_base: api_base@,
                destination: destination@,
                progress: ProgressView::Idle,
            }),
    {
        Pipeline { source, api_base, destination, progress: Progress::Idle }
    }

    /// Where the run stands.
    pub fn stage(&self) -> (stage: Stage)
        ensures
            stage == stage_of(self@.progress),
    {
        self.progress.stage()
    }

    /// Stops the run with a failure.
    fn fail(self, reason: Error) -> (next: (Pipeline, Action))
        ensures
            next.0@ == (PipelineView { progress: failing(self@, reason).0, ..self@ }),
            next.1@ == failing(self@, reason).1,
    {
        let version = self.progress.version();
        let reported = copy_text(&version);
        let path = self.destination.clone();
        (
            Pipeline {
                source: self.source,
                api_base: self.api_base,
                destination: self.destination,
                progress: Progress::Failed { resolved: version, reason },
            },
            Action::Finish { result: InstallResult { version: reported, path, outcome: Err(reason) } },
        )
    }

    /// Takes one event and answers with the state after it and the outside
    /// work to do next.
    ///
    /// The stages follow each other in the one order resolve, match,
    /// retrieve, install. The first failure ends the run and is reported as
    /// it is; no later stage runs, and nothing is tried again.
    pub fn step(self, event: Event) -> (next: (Pipeline, Action))
        ensures
            next.0@ == (PipelineView { progress: stepped(self@, event@).0, ..self@ }),
            next.1@ == stepped(self@, event@).1,
    {
        match self.progress.stage() {
            Stage::Succeeded => {
                return (self, Action::Ignore);
            },
            Stage::Failed(_) => {
                return (self, Action::Ignore);
            },
            _ => {},
        }
        match event {
            Event::Cancelled => self.fail(Error::Cancelled),
            Event::Start => match self.progress {
                Progress::Idle => {
                    let address = self.source.release_address(self.api_base.as_str());
                    (
                        Pipeline {
                            source: self.source,
                            api_base: self.api_base,
                            destination: self.destination,
                            progress: Progress::Resolving,
                        },
                        Action::FetchRelease { address },
                    )
                },
                _ => (self, Action::Ignore),
            },
            Event::ReleaseFetched { body } => match self.progress {
                Progress::Resolving => match parse_release(body.as_str()) {
                    Ok(release) => (
                        Pipeline {
                            source: self.source,
                            api_base: self.api_base,
                            destination: self.destination,
                            progress: Progress::Matching { release },
                        },
                        Action::SelectAsset,
                    ),
                    Err(e) => self.fail(e),
                },
                _ => (self, Action::Ignore),
            },
            Event::Proceed => match &self.progress {
                Progress::Matching { release } => {
                    let selected = match select_asset(release, self.source.regex()) {
                        Ok(asset) => Ok((asset.url.clone(), release.version.clone())),
                        Err(e) => Err(e),
                    };
                    match selected {
                        Ok((address, version)) => (
                            Pipeline {
                                source: self.source,
                                api_base: self.api_base,
                                destination: self.destination,
                                progress: Progress::Retrieving { version },
                            },
                            Action::Retrieve { address },
                        ),
                        Err(e) => self.fail(e),
                    }
                },
                _ => (self, Action::Ignore),
            },
            Event::AssetRetrieved { bytes } => match self.progress {
                Progress::Retrieving { version } => match extract(
                    bytes.as_slice(),
                    self.destination.as_str(),
                ) {
                    Ok(plan) => (
                        Pipeline {
                            source: self.source,
                            api_base: self.api_base,
                            destination: self.destination,
                            progress: Progress::Installing { version },
                        },
                        Action::CarryOut { plan },
                    ),
                    Err(e) => Pipeline {
                        source: self.source,
                        api_base: self.api_base,
                        destination: self.destination,
                        progress: Progress::Retrieving { version },
                    }.fail(e),
                },
                _ => (self, Action::Ignore),
            },
            Event::PlanCarriedOut => match self.progress {
                Progress::Installing { version } => {
                    let reported = version.clone();
                    let path = self.destination.clone();
                    (
                        Pipeline {
                            source: self.source,
                            api_base: self.api_base,
                            destination: self.destination,
                            progress: Progress::Succeeded { version },
                        },
                        Action::Finish {
                            result: InstallResult { version: Some(reported), path, outcome: Ok(()) },
                        },
                    )
                },
                _ => (self, Action::Ignore),
            },
            Event::TransportFailed => match self.progress.stage() {
                Stage::Resolving => self.fail(Error::NetworkError),
                Stage::Retrieving => self.fail(Error::NetworkError),
                _ => (self, Action::Ignore),
            },
            Event::FilesystemFailed => match self.progress.stage() {
                Stage::Installing => self.fail(Error::IoError),
                _ => (self, Action::Ignore),
            },
        }
    }
}

/// A run that is over stays as it is, whatever comes: after a failure no
/// later stage runs, and nothing is tried again.
pub proof fn law_terminal_stays(state: PipelineView, event: EventView)
    requires
        is_terminal(state.progress),
    ensures
        stepped(state, event) == (state.progress, ActionView::Ignore),
{
}

/// The stages follow each other strictly: a step stays at its stage, goes on
/// to the very next one, or fails. None is skipped and none is gone back to.
pub proof fn law_stages_in_order(state: PipelineView, event: EventView)
    ensures
        ({
            let before = stage_of(state.progress);
            let after = stage_of(stepped(state, event).0);
            after == before || rank(after) == rank(before) + 1 || (after is Failed && !(
            before is Succeeded))
        }),
{
}

/// A step that fails reports the failure it fails with, unchanged, together
/// with the destination and the version as far as it was resolved.
pub proof fn law_failure_reported(state: PipelineView, event: EventView)
    requires
        !is_terminal(state.progress),
        stepped(state, event).0 is Failed,
    ensures
        stepped(state, event).1 == (ActionView::Finish {
            result: InstallResultView {
                version: known_version(state.progress),
                path: state.destination,
                outcome: Err(stepped(state, event).0->reason),
            },
        }),
        stepped(state, event).0->resolved == known_version(state.progress),
{
}

/// A run succeeds only by the plan having been carried out, and then it
/// reports success with the version that was resolved.
pub proof fn law_success_after_install(state: PipelineView, event: EventView)
    requires
        !is_terminal(state.progress),
        stepped(state, event).0 is Succeeded,
    ensures
        state.progress is Installing,
        event is PlanCarriedOut,
        stepped(state, event).1 == (ActionView::Finish {
            result: InstallResultView {
                version: known_version(state.progress),
                path: state.destination,
                outcome: Ok(()),
            },
        }),
{
}

/// Cancelling a run that is not over fails it with `Cancelled`.
pub proof fn law_cancel_fails(state: PipelineView)
    requires
        !is_terminal(state.progress),
    ensures
        stage_of(stepped(state, EventView::Cancelled).0) == Stage::Failed(Error::Cancelled),
{
}

/// Resolving fails with what resolving the body gives, unchanged.
pub proof fn law_resolving_failure_kept(state: PipelineView, body: Seq<char>)
    requires
        state.progress is Resolving,
        release_outcome(body) is Err,
    ensures
        stage_of(stepped(state, EventView::ReleaseFetched { body }).0) == Stage::Failed(
            release_outcome(body)->Err_0,
        ),
{
}

/// Matching fails with what selecting the asset gives, unchanged.
pub proof fn law_matching_failure_kept(state: PipelineView, release: ReleaseView)
    requires
        state.progress == (ProgressView::Matching { release }),
        selection(release.assets, state.source.regex) is Err,
    ensures
        stage_of(stepped(state, EventView::Proceed).0) == Stage::Failed(
            selection(release.assets, state.source.regex)->Err_0,
        ),
{
}

/// Installing fails with what planning the archive gives, unchanged, and
/// then hands out no plan.
pub proof fn law_planning_failure_kept(state: PipelineView, bytes: Seq<u8>)
    requires
        state.progress is Retrieving,
        extraction(bytes, state.destination) is Err,
    ensures
        stage_of(stepped(state, EventView::AssetRetrieved { bytes }).0) == Stage::Failed(
            extraction(bytes, state.destination)->Err_0,
        ),
        stepped(state, EventView::AssetRetrieved { bytes }).1 is Finish,
{
}

} // verus!
