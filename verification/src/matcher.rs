//! Picks the asset of a release whose download address satisfies a pattern.
//!
//! The first asset that matches, in the order the release lists them, wins.

use regex::Error as PatternFault;
use vstd::prelude::*;

use crate::error::Error;
use crate::release::{AssetDescriptor, AssetView, ReleaseMetadata};

verus! {

/// A compiled regular expression of the `regex` crate.
#[verifier::external_type_specification]
#[verifier::external_body]
pub struct ExRegex(regex::Regex);

/// The `regex` crate's error.
#[verifier::external_type_specification]
#[verifier::external_body]
pub struct ExPatternFault(PatternFault);

/// Whether `Regex::new` accepts `pattern`, under the limits it has by default.
pub uninterp spec fn pattern_compiles(pattern: Seq<char>) -> bool;

/// Whether the regular expression written as `pattern` matches somewhere in
/// `text`: what `Regex::is_match` answers.
pub uninterp spec fn pattern_matches(pattern: Seq<char>, text: Seq<char>) -> bool;

/// The text that a compiled expression was made from: what `Regex::as_str` gives.
pub uninterp spec fn regex_pattern(regex: regex::Regex) -> Seq<char>;

/// Calls `Regex::new`. It returns an error for a pattern that is no regular
/// expression or that compiles to more than the default size limit; the
/// contract names that test, and says that the compiled expression keeps its
/// pattern, as `Regex::as_str` documents.
#[verifier::external_body]
fn compile(pattern: &str) -> (result: Result<regex::Regex, PatternFault>)
    ensures
        result is Ok <==> pattern_compiles(pattern@),
        result matches Ok(regex) ==> regex_pattern(regex) == pattern@,
{
    regex::Regex::new(pattern)
}

/// Calls `Regex::is_match`, which says whether the expression matches anywhere
/// in the text. The contract names the answer by the expression's pattern.
#[verifier::external_body]
fn is_match(regex: &regex::Regex, text: &str) -> (hit: bool)
    ensures
        hit == pattern_matches(regex_pattern(*regex), text@),
{
    regex.is_match(text)
}

/// `index` is the first position at which `verdicts` holds `true`, and an
/// asset stands there.
pub open spec fn is_choice(assets: Seq<AssetView>, verdicts: Seq<bool>, index: int) -> bool {
    &&& 0 <= index < verdicts.len()
    &&& index < assets.len()
    &&& verdicts[index]
    &&& forall|j: int| 0 <= j < index ==> !verdicts[j]
}

/// The asset chosen when `verdicts[i]` says whether asset `i` matches: the
/// first asset whose verdict is `true`. A verdict without an asset, or an
/// asset without a verdict, counts for nothing.
pub open spec fn chosen(assets: Seq<AssetView>, verdicts: Seq<bool>) -> Option<AssetView> {
    if exists|i: int| is_choice(assets, verdicts, i) {
        Some(assets[choose|i: int| is_choice(assets, verdicts, i)])
    } else {
        None
    }
}

/// The verdict of `pattern` on each asset's download address.
pub open spec fn verdicts_of(assets: Seq<AssetView>, pattern: Seq<char>) -> Seq<bool> {
    Seq::new(assets.len(), |i: int| pattern_matches(pattern, assets[i].url))
}

/// What matching gives: `InvalidPattern` where the pattern does not compile,
/// else the first asset whose download address the pattern matches, else
/// `NoMatchingAsset`.
pub open spec fn selection(assets: Seq<AssetView>, pattern: Seq<char>) -> Result<AssetView, Error> {
    if !pattern_compiles(pattern) {
        Err(Error::InvalidPattern)
    } else {
        match chosen(assets, verdicts_of(assets, pattern)) {
            Some(asset) => Ok(asset),
            None => Err(Error::NoMatchingAsset),
        }
    }
}

/// The mathematical value of a matcher's result.
pub open spec fn selection_view(result: Result<&AssetDescriptor, Error>) -> Result<
    AssetView,
    Error,
> {
    match result {
        Ok(asset) => Ok(asset@),
        Err(e) => Err(e),
    }
}

/// Any two choices are the same position.
pub proof fn lemma_choice_unique(assets: Seq<AssetView>, verdicts: Seq<bool>, i: int, j: int)
    requires
        is_choice(assets, verdicts, i),
        is_choice(assets, verdicts, j),
    ensures
        i == j,
{
}

/// Picks the first asset whose verdict is `true`.
pub fn choose_asset<'a>(assets: &'a Vec<AssetDescriptor>, verdicts: &Vec<bool>) -> (result: Option<
    &'a AssetDescriptor,
>)
    ensures
        match result {
            Some(asset) => chosen(assets@.map_values(|a: AssetDescriptor| a@), verdicts@) == Some(
                asset@,
            ),
            None => chosen(assets@.map_values(|a: AssetDescriptor| a@), verdicts@) is None,
        },
{
    let ghost views = assets@.map_values(|a: AssetDescriptor| a@);
    let mut index: usize = 0;
    while index < assets.len() && index < verdicts.len()
        invariant
            0 <= index <= assets.len(),
            index <= verdicts.len(),
            views == assets@.map_values(|a: AssetDescriptor| a@),
            forall|j: int| 0 <= j < index ==> !verdicts@[j],
        decreases assets.len() - index,
    {
        if verdicts[index] {
            proof {
                assert(views[index as int] == assets@[index as int]@);
                assert(is_choice(views, verdicts@, index as int));
                lemma_choice_unique(
                    views,
                    verdicts@,
                    index as int,
                    choose|i: int| is_choice(views, verdicts@, i),
                );
            }
            return Some(&assets[index]);
        }
        index += 1;
    }
    proof {
        assert(views.len() == assets@.len());
        assert(forall|i: int| !is_choice(views, verdicts@, i));
    }
    None
}

/// Selects the asset of `release` to download: the first one, in the order
/// the release lists them, whose download address `pattern` matches.
///
/// Fails with `InvalidPattern` where `pattern` is no regular expression, and
/// with `NoMatchingAsset` where it matches no asset's download address.
pub fn select_asset<'a>(release: &'a ReleaseMetadata, pattern: &str) -> (result: Result<
    &'a AssetDescriptor,
    Error,
>)
    ensures
        selection_view(result) == selection(release@.assets, pattern@),
{
    let regex = match compile(pattern) {
        Ok(regex) => regex,
        Err(_) => {
            return Err(Error::InvalidPattern);
        },
    };
    let mut verdicts: Vec<bool> = Vec::new();
    let mut index: usize = 0;
    while index < release.assets.len()
        invariant
            0 <= index <= release.assets.len(),
            regex_pattern(regex) == pattern@,
            verdicts@.len() == index,
            forall|j: int|
                0 <= j < index ==> verdicts@[j] == pattern_matches(
                    pattern@,
                    (#[trigger] release.assets@[j]).url@,
                ),
        decreases release.assets.len() - index,
    {
        let hit = is_match(&regex, release.assets[index].url.as_str());
        verdicts.push(hit);
        index += 1;
    }
    proof {
        assert(verdicts@ =~= verdicts_of(release@.assets, pattern@));
    }
    match choose_asset(&release.assets, &verdicts) {
        Some(asset) => Ok(asset),
        None => Err(Error::NoMatchingAsset),
    }
}

/// Where the pattern is a regular expression that matches the download
/// address of exactly one asset, that asset is selected.
pub proof fn law_single_match_selected(assets: Seq<AssetView>, pattern: Seq<char>, index: int)
    requires
        pattern_compiles(pattern),
        0 <= index < assets.len(),
        pattern_matches(pattern, assets[index].url),
        forall|j: int|
            0 <= j < assets.len() && j != index ==> !pattern_matches(
                pattern,
                (#[trigger] assets[j]).url,
            ),
    ensures
        selection(assets, pattern) == Ok::<AssetView, Error>(assets[index]),
{
    let verdicts = verdicts_of(assets, pattern);
    assert(is_choice(assets, verdicts, index));
    lemma_choice_unique(assets, verdicts, index, choose|i: int| is_choice(assets, verdicts, i));
}

/// Where the pattern is a regular expression, the first asset whose download
/// address it matches is selected, whatever follows it.
pub proof fn law_first_match_wins(assets: Seq<AssetView>, pattern: Seq<char>, index: int)
    requires
        pattern_compiles(pattern),
        0 <= index < assets.len(),
        pattern_matches(pattern, assets[index].url),
        forall|j: int| 0 <= j < index ==> !pattern_matches(pattern, (#[trigger] assets[j]).url),
    ensures
        selection(assets, pattern) == Ok::<AssetView, Error>(assets[index]),
{
    let verdicts = verdicts_of(assets, pattern);
    assert(is_choice(assets, verdicts, index));
    lemma_choice_unique(assets, verdicts, index, choose|i: int| is_choice(assets, verdicts, i));
}

/// Where the pattern is a regular expression that matches no asset's
/// download address, matching fails with `NoMatchingAsset`.
pub proof fn law_no_match_fails(assets: Seq<AssetView>, pattern: Seq<char>)
    requires
        pattern_compiles(pattern),
        forall|j: int| 0 <= j < assets.len() ==> !pattern_matches(pattern, (#[trigger] assets[j]).url),
    ensures
        selection(assets, pattern) == Err::<AssetView, Error>(Error::NoMatchingAsset),
{
    let verdicts = verdicts_of(assets, pattern);
    assert forall|i: int| !is_choice(assets, verdicts, i) by {
        if 0 <= i < assets.len() {
            assert(!pattern_matches(pattern, assets[i].url));
        }
    }
}

/// A pattern that is no regular expression fails with `InvalidPattern`,
/// whatever the assets are.
pub proof fn law_invalid_pattern_fails(assets: Seq<AssetView>, pattern: Seq<char>)
    requires
        !pattern_compiles(pattern),
    ensures
        selection(assets, pattern) == Err::<AssetView, Error>(Error::InvalidPattern),
{
}

} // verus!
