//! Reads a release description, a JSON document, into release metadata.

use json::Error as JsonFault;
use vstd::prelude::*;

use crate::error::{Error, ResponseDefect};
use crate::release::{
    check_release, checked_release, release_result_view, RawAsset, RawAssetView, RawRelease,
    RawReleaseView, ReleaseMetadata, ReleaseView, Timestamp,
};

verus! {

/// A parsed JSON value of the `json` crate. Nothing of its inside is known here.
#[verifier::external_type_specification]
#[verifier::external_body]
pub struct ExJsonValue(json::JsonValue);

/// The `json` crate's error.
#[verifier::external_type_specification]
#[verifier::external_body]
pub struct ExJsonFault(JsonFault);

/// The `chrono` crate's parse error.
#[verifier::external_type_specification]
#[verifier::external_body]
pub struct ExChronoParseError(chrono::ParseError);

/// The value that `json::parse` reads out of `text`, `None` where it reports an error.
pub uninterp spec fn json_document(text: Seq<char>) -> Option<json::JsonValue>;

/// The string held under `key` in `value`: what `value[key].as_str()` gives.
pub uninterp spec fn json_text(value: json::JsonValue, key: Seq<char>) -> Option<Seq<char>>;

/// The count held under `key` in `value`: what `value[key].as_u32()` gives.
pub uninterp spec fn json_count(value: json::JsonValue, key: Seq<char>) -> Option<u32>;

/// The members of the array held under `key` in `value`, in order: what
/// `value[key].members()` yields.
pub uninterp spec fn json_members(value: json::JsonValue, key: Seq<char>) -> Seq<json::JsonValue>;

/// The instant that `chrono` reads out of `text` as a date and time with an
/// offset, `None` where it reports an error.
pub uninterp spec fn parsed_timestamp(text: Seq<char>) -> Option<Timestamp>;

/// Calls `json::parse`. The contract only names the result: the value is
/// `json_document` of the text, and an error comes exactly where that is `None`.
#[verifier::external_body]
fn parse_document(text: &str) -> (result: Result<json::JsonValue, JsonFault>)
    ensures
        match result {
            Ok(value) => json_document(text@) == Some(value),
            Err(_) => json_document(text@) is None,
        },
{
    json::parse(text)
}

/// Indexes a `JsonValue` by `key` and calls `JsonValue::as_str` on what is
/// there. Per the crate's source the index gives `Null` unless `value` is an
/// object that holds `key`, and `as_str` gives the text of a string and `None`
/// for any other value. The contract names that result.
#[verifier::external_body]
fn text_member(value: &json::JsonValue, key: &str) -> (text: Option<String>)
    ensures
        crate::release::text_view(text) == json_text(*value, key@),
{
    value[key].as_str().map(String::from)
}

/// Indexes a `JsonValue` by `key` and calls `JsonValue::as_u32` on what is
/// there. Per the crate's source `as_u32` gives `None` unless the value is a
/// number of positive sign whose decimal exponent is zero and whose mantissa
/// is no larger than `u32::MAX`, and then gives the mantissa. The contract
/// names that result.
#[verifier::external_body]
fn count_member(value: &json::JsonValue, key: &str) -> (count: Option<u32>)
    ensures
        count == json_count(*value, key@),
{
    value[key].as_u32()
}

/// Indexes a `JsonValue` by `key` and collects what `JsonValue::members`
/// yields there: the items of an array in order, nothing for any other value.
/// The contract names that sequence.
#[verifier::external_body]
fn array_member<'a>(value: &'a json::JsonValue, key: &str) -> (members: Vec<&'a json::JsonValue>)
    ensures
        members@.map_values(|member: &json::JsonValue| *member) == json_members(*value, key@),
{
    value[key].members().collect()
}

/// Parses `text` with `chrono`'s `FromStr` for `DateTime<FixedOffset>`, which
/// accepts RFC 3339 with a space or `T` between date and time, and hands out
/// the instant as integers. The contract only names the result.
#[verifier::external_body]
fn parse_timestamp(text: &str) -> (result: Result<Timestamp, chrono::ParseError>)
    ensures
        match result {
            Ok(instant) => parsed_timestamp(text@) == Some(instant),
            Err(_) => parsed_timestamp(text@) is None,
        },
{
    let parsed = text.parse::<chrono::DateTime<chrono::FixedOffset>>()?;
    Ok(
        Timestamp {
            seconds: parsed.timestamp(),
            nanos: parsed.timestamp_subsec_nanos(),
            offset: parsed.offset().local_minus_utc(),
        },
    )
}

/// What a JSON value states of one asset.
pub open spec fn raw_asset_of(value: json::JsonValue) -> RawAssetView {
    RawAssetView {
        url: json_text(value, "browser_download_url"@),
        name: json_text(value, "name"@),
        downloads: json_count(value, "download_count"@),
    }
}

/// What a JSON value states of a release.
pub open spec fn raw_release_of(value: json::JsonValue) -> RawReleaseView {
    RawReleaseView {
        tag_name: json_text(value, "tag_name"@),
        published_at: json_text(value, "published_at"@),
        assets: json_members(value, "assets"@).map_values(|member: json::JsonValue| raw_asset_of(member)),
    }
}

/// The date parser's reading of an optional text.
pub open spec fn published_instant(text: Option<Seq<char>>) -> Option<Timestamp> {
    match text {
        Some(t) => parsed_timestamp(t),
        None => None,
    }
}

/// What resolving gives for a response body: `InvalidJson` where the body is
/// no JSON document, else what checking the fields it states gives.
pub open spec fn release_outcome(body: Seq<char>) -> Result<ReleaseView, Error> {
    match json_document(body) {
        None => Err(Error::MalformedResponse(ResponseDefect::InvalidJson)),
        Some(value) => checked_release(
            raw_release_of(value),
            published_instant(raw_release_of(value).published_at),
        ),
    }
}

/// Reads out of a JSON value the fields that describe a release.
pub fn read_release(value: &json::JsonValue) -> (raw: RawRelease)
    ensures
        raw@ == raw_release_of(*value),
{
    let tag_name = text_member(value, "tag_name");
    let published_at = text_member(value, "published_at");
    let members = array_member(value, "assets");
    let mut assets: Vec<RawAsset> = Vec::new();
    let mut index: usize = 0;
    while index < members.len()
        invariant
            0 <= index <= members.len(),
            assets@.len() == index,
            forall|j: int| 0 <= j < index ==> (#[trigger] assets@[j])@ == raw_asset_of(*members@[j]),
        decreases members.len() - index,
    {
        let member = members[index];
        let url = text_member(member, "browser_download_url");
        let name = text_member(member, "name");
        let downloads = count_member(member, "download_count");
        assets.push(RawAsset { url, name, downloads });
        index += 1;
    }
    let raw = RawRelease { tag_name, published_at, assets };
    proof {
        let stated = json_members(*value, "assets"@);
        assert(stated.len() == members@.len());
        assert forall|j: int| 0 <= j < stated.len() implies stated[j] == *members@[j] by {
            assert(members@.map_values(|member: &json::JsonValue| *member)[j] == *members@[j]);
        }
        assert(raw@.assets =~= raw_release_of(*value).assets);
    }
    raw
}

/// Reads the publication date of a release description, where it states one.
pub fn read_published(raw: &RawRelease) -> (published: Option<Timestamp>)
    ensures
        published == published_instant(raw@.published_at),
{
    match &raw.published_at {
        Some(text) => match parse_timestamp(text.as_str()) {
            Ok(instant) => Some(instant),
            Err(_) => None,
        },
        None => None,
    }
}

/// Resolves the body of a "latest release" response into release metadata.
///
/// Fails with `MalformedResponse` where the body is no JSON document, where
/// the version tag or the publication date is absent or no string, where the
/// date does not parse, or where an asset lacks its download address or its
/// download count; the defect names the first of these that holds.
pub fn parse_release(body: &str) -> (result: Result<ReleaseMetadata, Error>)
    ensures
        release_result_view(result) == release_outcome(body@),
{
    match parse_document(body) {
        Err(_) => Err(Error::MalformedResponse(ResponseDefect::InvalidJson)),
        Ok(value) => {
            let raw = read_release(&value);
            let published = read_published(&raw);
            check_release(&raw, published)
        },
    }
}

/// Resolving fails only with `MalformedResponse`: a body that is no JSON
/// document, or that lacks the version tag or a publication date that
/// parses, gives that error and never a release.
pub proof fn law_resolver_fails_malformed(body: Seq<char>)
    ensures
        release_outcome(body) matches Err(e) ==> e matches Error::MalformedResponse(_),
        json_document(body) is None ==> release_outcome(body) is Err,
        json_document(body) matches Some(value) ==> (json_text(value, "tag_name"@) is None
            || json_text(value, "published_at"@) is None || published_instant(
            json_text(value, "published_at"@),
        ) is None ==> release_outcome(body) is Err),
{
    match json_document(body) {
        None => {},
        Some(value) => {
            let raw = raw_release_of(value);
            crate::release::law_checked_release(raw, published_instant(raw.published_at));
            crate::release::law_missing_fields_malformed(raw, published_instant(raw.published_at));
        },
    }
}

/// Resolving and then matching: where the body resolves to a release, and
/// the pattern is a regular expression that matches the download address of
/// exactly one of its assets, matching selects that asset.
pub proof fn law_resolve_then_match(body: Seq<char>, pattern: Seq<char>, index: int)
    requires
        release_outcome(body) is Ok,
        crate::matcher::pattern_compiles(pattern),
        0 <= index < release_outcome(body)->Ok_0.assets.len(),
        crate::matcher::pattern_matches(pattern, release_outcome(body)->Ok_0.assets[index].url),
        forall|j: int|
            0 <= j < release_outcome(body)->Ok_0.assets.len() && j != index
                ==> !crate::matcher::pattern_matches(
                pattern,
                (#[trigger] release_outcome(body)->Ok_0.assets[j]).url,
            ),
    ensures
        crate::matcher::selection(release_outcome(body)->Ok_0.assets, pattern) == Ok::<
            crate::release::AssetView,
            Error,
        >(release_outcome(body)->Ok_0.assets[index]),
{
    crate::matcher::law_single_match_selected(release_outcome(body)->Ok_0.assets, pattern, index);
}

} // verus!
