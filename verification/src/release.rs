//! Release metadata, and how a release description is checked.

use vstd::prelude::*;

use crate::error::{Error, ResponseDefect};

verus! {

/// An instant with the offset it was written in.
#[derive(Clone, Copy, Debug, PartialEq, Eq, Structural)]
pub struct Timestamp {
    /// Whole seconds since 1970-01-01T00:00:00Z.
    pub seconds: i64,
    /// Nanoseconds past `seconds`.
    pub nanos: u32,
    /// Seconds that the written local time is ahead of UTC.
    pub offset: i32,
}

/// One downloadable file of a release.
#[derive(Debug, PartialEq, Eq)]
pub struct AssetDescriptor {
    /// Where the file is downloaded from.
    pub url: String,
    /// The name shown to people, where the release gives one.
    pub name: Option<String>,
    /// How often the file was downloaded before.
    pub downloads: u32,
}

/// The mathematical value of an [`AssetDescriptor`].
pub ghost struct AssetView {
    pub url: Seq<char>,
    pub name: Option<Seq<char>>,
    pub downloads: u32,
}

/// A published version of an add-on.
#[derive(Debug, PartialEq, Eq)]
pub struct ReleaseMetadata {
    /// The version tag.
    pub version: String,
    /// When the release was published.
    pub published: Timestamp,
    /// The assets, in the order the release lists them.
    pub assets: Vec<AssetDescriptor>,
}

/// The mathematical value of a [`ReleaseMetadata`].
pub ghost struct ReleaseView {
    pub version: Seq<char>,
    pub published: Timestamp,
    pub assets: Seq<AssetView>,
}

/// An asset as a release description states it, every field possibly absent.
#[derive(Debug, PartialEq, Eq)]
pub struct RawAsset {
    /// `browser_download_url`, where it is a string.
    pub url: Option<String>,
    /// `name`, where it is a string.
    pub name: Option<String>,
    /// `download_count`, where it is an integer that fits 32 bits.
    pub downloads: Option<u32>,
}

/// The mathematical value of a [`RawAsset`].
pub ghost struct RawAssetView {
    pub url: Option<Seq<char>>,
    pub name: Option<Seq<char>>,
    pub downloads: Option<u32>,
}

/// A release as its description states it, before anything is checked.
#[derive(Debug, PartialEq, Eq)]
pub struct RawRelease {
    /// `tag_name`, where it is a string.
    pub tag_name: Option<String>,
    /// `published_at`, where it is a string.
    pub published_at: Option<String>,
    /// The members of `assets`, in order.
    pub assets: Vec<RawAsset>,
}

/// The mathematical value of a [`RawRelease`].
pub ghost struct RawReleaseView {
    pub tag_name: Option<Seq<char>>,
    pub published_at: Option<Seq<char>>,
    pub assets: Seq<RawAssetView>,
}

/// The characters of an optional string.
pub open spec fn text_view(text: Option<String>) -> Option<Seq<char>> {
    match text {
        Some(s) => Some(s@),
        None => None,
    }
}

impl View for AssetDescriptor {
    type V = AssetView;

    open spec fn view(&self) -> AssetView {
        AssetView { url: self.url@, name: text_view(self.name), downloads: self.downloads }
    }
}

impl View for ReleaseMetadata {
    type V = ReleaseView;

    open spec fn view(&self) -> ReleaseView {
        ReleaseView {
            version: self.version@,
            published: self.published,
            assets: self.assets@.map_values(|a: AssetDescriptor| a@),
        }
    }
}

impl View for RawAsset {
    type V = RawAssetView;

    open spec fn view(&self) -> RawAssetView {
        RawAssetView {
            url: text_view(self.url),
            name: text_view(self.name),
            downloads: self.downloads,
        }
    }
}

impl View for RawRelease {
    type V = RawReleaseView;

    open spec fn view(&self) -> RawReleaseView {
        RawReleaseView {
            tag_name: text_view(self.tag_name),
            published_at: text_view(self.published_at),
            assets: self.assets@.map_values(|a: RawAsset| a@),
        }
    }
}

/// What a release description's asset lacks, if anything. The address is
/// looked at before the count.
pub open spec fn asset_defect(asset: RawAssetView) -> Option<ResponseDefect> {
    if asset.url is None {
        Some(ResponseDefect::MissingDownloadAddress)
    } else if asset.downloads is None {
        Some(ResponseDefect::MissingDownloadCount)
    } else {
        None
    }
}

/// The asset that a complete description states.
pub open spec fn complete_asset(asset: RawAssetView) -> AssetView {
    AssetView { url: asset.url->Some_0, name: asset.name, downloads: asset.downloads->Some_0 }
}

/// `index` is the first asset that lacks something.
pub open spec fn is_first_defect(assets: Seq<RawAssetView>, index: int) -> bool {
    &&& 0 <= index < assets.len()
    &&& asset_defect(assets[index]) is Some
    &&& forall|j: int| 0 <= j < index ==> asset_defect(#[trigger] assets[j]) is None
}

/// Some asset lacks something.
pub open spec fn has_defect(assets: Seq<RawAssetView>) -> bool {
    exists|i: int| is_first_defect(assets, i)
}

/// The first asset that lacks something, where one does.
pub open spec fn first_defect(assets: Seq<RawAssetView>) -> int {
    choose|i: int| is_first_defect(assets, i)
}

/// What checking a release description gives: the first thing found wrong, in
/// the order version tag, publication date, then each asset in turn, or the
/// release. `published` is what the date parser made of `published_at`.
pub open spec fn checked_release(raw: RawReleaseView, published: Option<Timestamp>) -> Result<
    ReleaseView,
    Error,
> {
    if raw.tag_name is None {
        Err(Error::MalformedResponse(ResponseDefect::MissingVersion))
    } else if raw.published_at is None {
        Err(Error::MalformedResponse(ResponseDefect::MissingReleaseDate))
    } else if published is None {
        Err(Error::MalformedResponse(ResponseDefect::InvalidReleaseDate))
    } else if has_defect(raw.assets) {
        Err(Error::MalformedResponse(asset_defect(raw.assets[first_defect(raw.assets)])->Some_0))
    } else {
        Ok(
            ReleaseView {
                version: raw.tag_name->Some_0,
                published: published->Some_0,
                assets: raw.assets.map_values(|a: RawAssetView| complete_asset(a)),
            },
        )
    }
}

/// The mathematical value of a resolver's result.
pub open spec fn release_result_view(result: Result<ReleaseMetadata, Error>) -> Result<
    ReleaseView,
    Error,
> {
    match result {
        Ok(release) => Ok(release@),
        Err(e) => Err(e),
    }
}

/// Any two first defects are the same asset.
pub proof fn lemma_first_defect_unique(assets: Seq<RawAssetView>, i: int, j: int)
    requires
        is_first_defect(assets, i),
        is_first_defect(assets, j),
    ensures
        i == j,
{
    if i < j {
        assert(asset_defect(assets[i]) is None);
    } else if j < i {
        assert(asset_defect(assets[j]) is None);
    }
}

/// A copy of an optional text.
pub fn copy_text(text: &Option<String>) -> (copy: Option<String>)
    ensures
        text_view(copy) == text_view(*text),
{
    match text {
        Some(s) => Some(s.clone()),
        None => None,
    }
}

/// Checks a release description and builds the release from it.
///
/// `published` is the date parser's reading of `raw.published_at`; it is not
/// looked at where that field is absent.
pub fn check_release(raw: &RawRelease, published: Option<Timestamp>) -> (result: Result<
    ReleaseMetadata,
    Error,
>)
    ensures
        release_result_view(result) == checked_release(raw@, published),
{
    let version = match &raw.tag_name {
        Some(tag) => tag.clone(),
        None => {
            return Err(Error::MalformedResponse(ResponseDefect::MissingVersion));
        },
    };
    if raw.published_at.is_none() {
        return Err(Error::MalformedResponse(ResponseDefect::MissingReleaseDate));
    }
    let instant = match published {
        Some(instant) => instant,
        None => {
            return Err(Error::MalformedResponse(ResponseDefect::InvalidReleaseDate));
        },
    };
    let mut assets: Vec<AssetDescriptor> = Vec::new();
    let mut index: usize = 0;
    while index < raw.assets.len()
        invariant
            0 <= index <= raw.assets.len(),
            raw.tag_name is Some,
            raw.published_at is Some,
            published is Some,
            assets@.len() == index,
            forall|j: int| 0 <= j < index ==> asset_defect(#[trigger] raw@.assets[j]) is None,
            forall|j: int|
                0 <= j < index ==> (#[trigger] assets@[j])@ == complete_asset(raw@.assets[j]),
        decreases raw.assets.len() - index,
    {
        let asset = &raw.assets[index];
        assert(raw@.assets[index as int] == asset@);
        let url = match &asset.url {
            Some(url) => url.clone(),
            None => {
                proof {
                    assert(is_first_defect(raw@.assets, index as int));
                    lemma_first_defect_unique(
                        raw@.assets,
                        index as int,
                        first_defect(raw@.assets),
                    );
                }
                return Err(Error::MalformedResponse(ResponseDefect::MissingDownloadAddress));
            },
        };
        let downloads = match asset.downloads {
            Some(count) => count,
            None => {
                proof {
                    assert(is_first_defect(raw@.assets, index as int));
                    lemma_first_defect_unique(
                        raw@.assets,
                        index as int,
                        first_defect(raw@.assets),
                    );
                }
                return Err(Error::MalformedResponse(ResponseDefect::MissingDownloadCount));
            },
        };
        let name = copy_text(&asset.name);
        assets.push(AssetDescriptor { url, name, downloads });
        index += 1;
    }
    proof {
        assert(!has_defect(raw@.assets));
        assert(assets@.map_values(|a: AssetDescriptor| a@) =~= raw@.assets.map_values(
            |a: RawAssetView| complete_asset(a),
        ));
    }
    Ok(ReleaseMetadata { version, published: instant, assets })
}

/// A description without version tag, without publication date, or with a
/// date that does not parse is malformed: checking gives no release and no
/// default, and names what is missing.
pub proof fn law_missing_fields_malformed(raw: RawReleaseView, published: Option<Timestamp>)
    ensures
        raw.tag_name is None ==> checked_release(raw, published) == Err::<ReleaseView, Error>(
            Error::MalformedResponse(ResponseDefect::MissingVersion),
        ),
        raw.tag_name is Some && raw.published_at is None ==> checked_release(raw, published)
            == Err::<ReleaseView, Error>(
            Error::MalformedResponse(ResponseDefect::MissingReleaseDate),
        ),
        raw.tag_name is Some && raw.published_at is Some && published is None ==> checked_release(
            raw,
            published,
        ) == Err::<ReleaseView, Error>(
            Error::MalformedResponse(ResponseDefect::InvalidReleaseDate),
        ),
        (raw.tag_name is None || raw.published_at is None || published is None)
            ==> checked_release(raw, published) matches Err(Error::MalformedResponse(_)),
{
}

/// Checking fails only with `MalformedResponse`, and it succeeds exactly
/// where the version tag and the date are there, the date parses, and every
/// asset has its address and its count. The release then has the assets of
/// the description, in its order.
pub proof fn law_checked_release(raw: RawReleaseView, published: Option<Timestamp>)
    ensures
        checked_release(raw, published) matches Err(e) ==> e matches Error::MalformedResponse(_),
        checked_release(raw, published) is Ok <==> raw.tag_name is Some && raw.published_at is Some
            && published is Some && forall|j: int|
            0 <= j < raw.assets.len() ==> asset_defect(#[trigger] raw.assets[j]) is None,
        checked_release(raw, published) matches Ok(release) ==> release.assets.len()
            == raw.assets.len() && forall|j: int|
            0 <= j < raw.assets.len() ==> #[trigger] release.assets[j] == complete_asset(
                raw.assets[j],
            ),
{
    if has_defect(raw.assets) {
        let first = first_defect(raw.assets);
        assert(is_first_defect(raw.assets, first));
    } else {
        assert forall|j: int| 0 <= j < raw.assets.len() implies asset_defect(
            #[trigger] raw.assets[j],
        ) is None by {
            if asset_defect(raw.assets[j]) is Some {
                lemma_some_first_defect(raw.assets, j);
            }
        }
    }
}

/// Where some asset lacks something, one does so first.
proof fn lemma_some_first_defect(assets: Seq<RawAssetView>, index: int)
    requires
        0 <= index < assets.len(),
        asset_defect(assets[index]) is Some,
    ensures
        has_defect(assets),
    decreases index,
{
    if exists|j: int| 0 <= j < index && asset_defect(#[trigger] assets[j]) is Some {
        let j = choose|j: int| 0 <= j < index && asset_defect(#[trigger] assets[j]) is Some;
        lemma_some_first_defect(assets, j);
    } else {
        assert(is_first_defect(assets, index));
    }
}

} // verus!
