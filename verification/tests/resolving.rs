use adona::error::{Error, ResponseDefect};
use adona::release::{
    check_release, AssetDescriptor, RawAsset, RawRelease, ReleaseMetadata, Timestamp,
};
use adona::resolver::{parse_release, read_published, read_release};

fn text(s: &str) -> Option<String> {
    Some(s.to_string())
}

fn instant() -> Timestamp {
    Timestamp { seconds: 1570864850, nanos: 0, offset: 0 }
}

fn raw_asset(url: &str, downloads: u32) -> RawAsset {
    RawAsset { url: text(url), name: None, downloads: Some(downloads) }
}

const WIDGET: &str = r#"{
    "tag_name": "v1",
    "published_at": "2019-10-12T07:20:50Z",
    "assets": [
        { "name": "archive", "browser_download_url": "https://example.org/widget-v1.zip", "download_count": 12 },
        { "browser_download_url": "https://example.org/widget-v1.zip.sha256", "download_count": 3 }
    ]
}"#;

#[test]
fn resolves_a_complete_description() {
    let release = parse_release(WIDGET).unwrap();
    assert_eq!(
        release,
        ReleaseMetadata {
            version: "v1".to_string(),
            published: instant(),
            assets: vec![
                AssetDescriptor {
                    url: "https://example.org/widget-v1.zip".to_string(),
                    name: text("archive"),
                    downloads: 12,
                },
                AssetDescriptor {
                    url: "https://example.org/widget-v1.zip.sha256".to_string(),
                    name: None,
                    downloads: 3,
                },
            ],
        }
    );
}

#[test]
fn resolving_twice_gives_the_same_release() {
    assert_eq!(parse_release(WIDGET), parse_release(WIDGET));
}

#[test]
fn keeps_the_offset_the_date_was_written_in() {
    let body = r#"{"tag_name": "v2", "published_at": "2019-10-12T07:20:50.5+02:00", "assets": []}"#;
    let release = parse_release(body).unwrap();
    assert_eq!(
        release.published,
        Timestamp { seconds: 1570857650, nanos: 500_000_000, offset: 7200 }
    );
    assert_eq!(release.assets, vec![]);
}

#[test]
fn accepts_a_space_between_date_and_time() {
    let body = r#"{"tag_name": "v2", "published_at": "2019-10-12 07:20:50Z", "assets": []}"#;
    assert_eq!(parse_release(body).unwrap().published, instant());
}

#[test]
fn a_release_without_assets_key_has_no_assets() {
    let body = r#"{"tag_name": "v3", "published_at": "2019-10-12T07:20:50Z"}"#;
    let release = parse_release(body).unwrap();
    assert_eq!(release.version, "v3");
    assert!(release.assets.is_empty());
}

#[test]
fn rejects_what_is_no_json() {
    assert_eq!(
        parse_release("<html>busy</html>"),
        Err(Error::MalformedResponse(ResponseDefect::InvalidJson))
    );
    assert_eq!(parse_release(""), Err(Error::MalformedResponse(ResponseDefect::InvalidJson)));
}

#[test]
fn rejects_a_missing_tag_name() {
    let body = r#"{"published_at": "2019-10-12T07:20:50Z", "assets": []}"#;
    assert_eq!(
        parse_release(body),
        Err(Error::MalformedResponse(ResponseDefect::MissingVersion))
    );
}

#[test]
fn rejects_a_tag_name_that_is_no_string() {
    let body = r#"{"tag_name": 7, "published_at": "2019-10-12T07:20:50Z", "assets": []}"#;
    assert_eq!(
        parse_release(body),
        Err(Error::MalformedResponse(ResponseDefect::MissingVersion))
    );
}

#[test]
fn rejects_a_missing_published_at() {
    let body = r#"{"tag_name": "v1", "assets": []}"#;
    assert_eq!(
        parse_release(body),
        Err(Error::MalformedResponse(ResponseDefect::MissingReleaseDate))
    );
}

#[test]
fn rejects_an_unparsable_published_at() {
    let body = r#"{"tag_name": "v1", "published_at": "last tuesday", "assets": []}"#;
    assert_eq!(
        parse_release(body),
        Err(Error::MalformedResponse(ResponseDefect::InvalidReleaseDate))
    );
    let body = r#"{"tag_name": "v1", "published_at": "2019-10-12T07:20:50", "assets": []}"#;
    assert_eq!(
        parse_release(body),
        Err(Error::MalformedResponse(ResponseDefect::InvalidReleaseDate))
    );
}

#[test]
fn rejects_an_asset_without_address() {
    let body = r#"{"tag_name": "v1", "published_at": "2019-10-12T07:20:50Z",
        "assets": [{"browser_download_url": "a.zip", "download_count": 1}, {"download_count": 2}]}"#;
    assert_eq!(
        parse_release(body),
        Err(Error::MalformedResponse(ResponseDefect::MissingDownloadAddress))
    );
}

#[test]
fn rejects_an_asset_without_count() {
    let body = r#"{"tag_name": "v1", "published_at": "2019-10-12T07:20:50Z",
        "assets": [{"browser_download_url": "a.zip"}]}"#;
    assert_eq!(
        parse_release(body),
        Err(Error::MalformedResponse(ResponseDefect::MissingDownloadCount))
    );
}

#[test]
fn rejects_a_count_that_is_no_count() {
    for count in ["-1", "1.5", "4294967296", "\"12\"", "null"] {
        let body = format!(
            r#"{{"tag_name": "v1", "published_at": "2019-10-12T07:20:50Z",
            "assets": [{{"browser_download_url": "a.zip", "download_count": {}}}]}}"#,
            count
        );
        assert_eq!(
            parse_release(&body),
            Err(Error::MalformedResponse(ResponseDefect::MissingDownloadCount)),
            "{}",
            count
        );
    }
}

#[test]
fn accepts_the_largest_count() {
    let body = r#"{"tag_name": "v1", "published_at": "2019-10-12T07:20:50Z",
        "assets": [{"browser_download_url": "a.zip", "download_count": 4294967295}]}"#;
    assert_eq!(parse_release(body).unwrap().assets[0].downloads, u32::MAX);
}

#[test]
fn the_first_defect_is_reported() {
    // The version is looked at before the date, the date before the assets,
    // and of an asset the address before the count.
    let body = r#"{"assets": [{}]}"#;
    assert_eq!(
        parse_release(body),
        Err(Error::MalformedResponse(ResponseDefect::MissingVersion))
    );
    let body = r#"{"tag_name": "v1", "published_at": "2019-10-12T07:20:50Z",
        "assets": [{"browser_download_url": "a.zip"}, {}]}"#;
    assert_eq!(
        parse_release(body),
        Err(Error::MalformedResponse(ResponseDefect::MissingDownloadCount))
    );
    let body = r#"{"tag_name": "v1", "published_at": "2019-10-12T07:20:50Z", "assets": [{}]}"#;
    assert_eq!(
        parse_release(body),
        Err(Error::MalformedResponse(ResponseDefect::MissingDownloadAddress))
    );
}

#[test]
fn reads_the_fields_as_the_document_states_them() {
    let document = json::parse(WIDGET).unwrap();
    let raw = read_release(&document);
    assert_eq!(raw.tag_name, text("v1"));
    assert_eq!(raw.published_at, text("2019-10-12T07:20:50Z"));
    assert_eq!(
        raw.assets,
        vec![
            RawAsset {
                url: text("https://example.org/widget-v1.zip"),
                name: text("archive"),
                downloads: Some(12),
            },
            RawAsset {
                url: text("https://example.org/widget-v1.zip.sha256"),
                name: None,
                downloads: Some(3),
            },
        ]
    );
    assert_eq!(read_published(&raw), Some(instant()));
}

#[test]
fn reads_nothing_out_of_what_is_no_object() {
    let document = json::parse("[1, 2]").unwrap();
    let raw = read_release(&document);
    assert_eq!(raw, RawRelease { tag_name: None, published_at: None, assets: vec![] });
    assert_eq!(read_published(&raw), None);
}

#[test]
fn an_object_under_assets_has_no_members() {
    let document = json::parse(r#"{"assets": {"a": {"download_count": 1}}}"#).unwrap();
    assert!(read_release(&document).assets.is_empty());
}

#[test]
fn checks_a_description_given_as_values() {
    let raw = RawRelease {
        tag_name: text("v9"),
        published_at: text("whenever"),
        assets: vec![raw_asset("a.zip", 1), raw_asset("b.zip", 2)],
    };
    let release = check_release(&raw, Some(instant())).unwrap();
    assert_eq!(release.version, "v9");
    assert_eq!(release.published, instant());
    assert_eq!(
        release.assets,
        vec![
            AssetDescriptor { url: "a.zip".to_string(), name: None, downloads: 1 },
            AssetDescriptor { url: "b.zip".to_string(), name: None, downloads: 2 },
        ]
    );
}

#[test]
fn checking_names_what_is_missing() {
    let complete = || RawRelease {
        tag_name: text("v9"),
        published_at: text("2019-10-12T07:20:50Z"),
        assets: vec![raw_asset("a.zip", 1)],
    };
    let mut raw = complete();
    raw.tag_name = None;
    assert_eq!(
        check_release(&raw, Some(instant())),
        Err(Error::MalformedResponse(ResponseDefect::MissingVersion))
    );
    let mut raw = complete();
    raw.published_at = None;
    assert_eq!(
        check_release(&raw, Some(instant())),
        Err(Error::MalformedResponse(ResponseDefect::MissingReleaseDate))
    );
    assert_eq!(
        check_release(&complete(), None),
        Err(Error::MalformedResponse(ResponseDefect::InvalidReleaseDate))
    );
    let mut raw = complete();
    raw.assets.push(RawAsset { url: None, name: None, downloads: None });
    assert_eq!(
        check_release(&raw, Some(instant())),
        Err(Error::MalformedResponse(ResponseDefect::MissingDownloadAddress))
    );
    let mut raw = complete();
    raw.assets[0].downloads = None;
    assert_eq!(
        check_release(&raw, Some(instant())),
        Err(Error::MalformedResponse(ResponseDefect::MissingDownloadCount))
    );
}

#[test]
fn only_a_traversal_is_beyond_recovery() {
    assert!(!Error::PathTraversalAttempt.recoverable());
    for error in [
        Error::NetworkError,
        Error::MalformedResponse(ResponseDefect::InvalidJson),
        Error::InvalidPattern,
        Error::NoMatchingAsset,
        Error::ArchiveCorrupt,
        Error::IoError,
        Error::Cancelled,
    ] {
        assert!(error.recoverable());
    }
}
