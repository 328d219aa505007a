//! Add-ons and where their releases are found.

use vstd::prelude::*;
use vstd::std_specs::cmp::PartialEqSpec;

use crate::archive::{extract, extraction, plan_result_view, InstallPlan};
use crate::error::Error;
use crate::matcher::{select_asset, selection};
use crate::release::{text_view, Timestamp};
use crate::resolver::{parse_release, release_outcome};

verus! {

/// What the pipeline is set up with, in place of process-wide constants.
#[derive(Clone, Debug, PartialEq, Eq)]
pub struct Config {
    /// The root of the hosting API, without a trailing slash.
    pub api_base: String,
    /// Where people submit an add-on to the catalog.
    pub submission_link: String,
    /// Where the catalog of known add-ons is kept.
    pub database_path: String,
}

impl Default for Config {
    fn default() -> (config: Config)
        ensures
            config.api_base@ == "https://api.github.com"@,
            config.submission_link@
                == "https://github.com/steven-joruk/adona/issues/new?assignees=&labels=addon+submission&template=addon-submission.md&title=Addon+submission"@,
            config.database_path@ == "res/wow-classic.json"@,
    {
        Config {
            api_base: "https://api.github.com".to_owned(),
            submission_link: "https://github.com/steven-joruk/adona/issues/new?assignees=&labels=addon+submission&template=addon-submission.md&title=Addon+submission".to_owned(),
            database_path: "res/wow-classic.json".to_owned(),
        }
    }
}

/// A repository on the hosting service whose releases carry an add-on, with
/// the pattern that picks the add-on's archive among a release's assets.
#[derive(Clone, Debug, PartialEq, Eq)]
pub struct GitHubRelease {
    owner: String,
    repo: String,
    regex: String,
}

/// The mathematical value of a [`GitHubRelease`].
pub ghost struct GitHubReleaseView {
    pub owner: Seq<char>,
    pub repo: Seq<char>,
    pub regex: Seq<char>,
}

impl View for GitHubRelease {
    type V = GitHubReleaseView;

    closed spec fn view(&self) -> GitHubReleaseView {
        GitHubReleaseView { owner: self.owner@, repo: self.repo@, regex: self.regex@ }
    }
}

/// The address of the "latest release" resource of a repository.
pub open spec fn release_address_of(api_base: Seq<char>, owner: Seq<char>, repo: Seq<char>) -> Seq<
    char,
> {
    api_base + "/repos/"@ + owner + "/"@ + repo + "/releases/latest"@
}

impl GitHubRelease {
    /// A source is made once and not changed afterwards.
    pub fn new(owner: String, repo: String, regex: String) -> (source: GitHubRelease)
        ensures
            source@ == (GitHubReleaseView { owner: owner@, repo: repo@, regex: regex@ }),
    {
        GitHubRelease { owner, repo, regex }
    }

    /// The account that owns the repository.
    pub fn owner(&self) -> (owner: &str)
        ensures
            owner@ == self@.owner,
    {
        self.owner.as_str()
    }

    /// The repository's name.
    pub fn repo(&self) -> (repo: &str)
        ensures
            repo@ == self@.repo,
    {
        self.repo.as_str()
    }

    /// The pattern that the download address of the add-on's archive satisfies.
    pub fn regex(&self) -> (regex: &str)
        ensures
            regex@ == self@.regex,
    {
        self.regex.as_str()
    }

    /// The address of the repository's "latest release" resource below `api_base`.
    pub fn release_address(&self, api_base: &str) -> (address: String)
        ensures
            address@ == release_address_of(api_base@, self@.owner, self@.repo),
    {
        let mut address = api_base.to_owned();
        address.append("/repos/");
        address.append(self.owner.as_str());
        address.append("/");
        address.append(self.repo.as_str());
        address.append("/releases/latest");
        address
    }
}

/// What is known of an add-on's latest release once it was resolved and its
/// asset selected.
#[derive(Clone, Debug, PartialEq, Eq)]
pub struct FetchedDetails {
    /// Where the add-on's archive is downloaded from.
    pub address: String,
    /// When the release was published.
    pub released: Timestamp,
    /// How often the archive was downloaded before.
    pub downloads: u32,
    /// The version tag of the release.
    pub version: String,
}

/// The mathematical value of a [`FetchedDetails`].
pub ghost struct DetailsView {
    pub address: Seq<char>,
    pub released: Timestamp,
    pub downloads: u32,
    pub version: Seq<char>,
}

impl View for FetchedDetails {
    type V = DetailsView;

    open spec fn view(&self) -> DetailsView {
        DetailsView {
            address: self.address@,
            released: self.released,
            downloads: self.downloads,
            version: self.version@,
        }
    }
}

/// What fetching the details gives for a response body and a pattern: the
/// failure of resolving, else the failure of matching, else the selected
/// asset with the release's version and date.
pub open spec fn fetched(body: Seq<char>, pattern: Seq<char>) -> Result<DetailsView, Error> {
    match release_outcome(body) {
        Err(e) => Err(e),
        Ok(release) => match selection(release.assets, pattern) {
            Err(e) => Err(e),
            Ok(asset) => Ok(
                DetailsView {
                    address: asset.url,
                    released: release.published,
                    downloads: asset.downloads,
                    version: release.version,
                },
            ),
        },
    }
}

/// The mathematical value of a result of fetching details.
pub open spec fn details_result_view(result: Result<FetchedDetails, Error>) -> Result<
    DetailsView,
    Error,
> {
    match result {
        Ok(details) => Ok(details@),
        Err(e) => Err(e),
    }
}

/// A place that add-ons come from.
pub trait AddonSource {
    /// The address to ask for the description of the latest release.
    fn release_address(&self, api_base: &str) -> String;

    /// Reads what was answered there and selects the asset to download.
    fn fetch_details(&self, response: &str) -> Result<FetchedDetails, Error>;

    /// Plans how the downloaded archive is unpacked into `to`.
    fn install(from: &[u8], to: &str) -> Result<InstallPlan, Error>;
}

/// An add-on of the catalog.
#[derive(Clone, Debug)]
pub struct Addon {
    /// The name, by which add-ons are told apart.
    pub name: String,
    /// What the add-on does.
    pub description: Option<String>,
    /// How its author asks to be supported.
    pub support_text: Option<String>,
    /// Where its author can be supported.
    pub support_link: Option<String>,
    source: GitHubRelease,
}

/// The mathematical value of an [`Addon`].
pub ghost struct AddonView {
    pub name: Seq<char>,
    pub description: Option<Seq<char>>,
    pub support_text: Option<Seq<char>>,
    pub support_link: Option<Seq<char>>,
    pub source: GitHubReleaseView,
}

impl View for Addon {
    type V = AddonView;

    closed spec fn view(&self) -> AddonView {
        AddonView {
            name: self.name@,
            description: text_view(self.description),
            support_text: text_view(self.support_text),
            support_link: text_view(self.support_link),
            source: self.source@,
        }
    }
}

impl Addon {
    /// An add-on with the place that its releases come from.
    pub fn new(
        name: String,
        description: Option<String>,
        support_text: Option<String>,
        support_link: Option<String>,
        source: GitHubRelease,
    ) -> (addon: Addon)
        ensures
            addon@ == (AddonView {
                name: name@,
                description: text_view(description),
                support_text: text_view(support_text),
                support_link: text_view(support_link),
                source: source@,
            }),
    {
        Addon { name, description, support_text, support_link, source }
    }

    /// The name, by which add-ons are told apart.
    pub fn name(&self) -> (name: &str)
        ensures
            name@ == self@.name,
    {
        self.name.as_str()
    }

    /// The place that the add-on's releases come from.
    pub fn source(&self) -> (source: &GitHubRelease)
        ensures
            source@ == self@.source,
    {
        &self.source
    }
}

impl PartialEq for Addon {
    /// Two add-ons are the same add-on exactly when they have the same name.
    fn eq(&self, other: &Self) -> (equal: bool) {
        self.name == other.name
    }
}

impl vstd::std_specs::cmp::PartialEqSpecImpl for Addon {
    open spec fn obeys_eq_spec() -> bool {
        true
    }

    closed spec fn eq_spec(&self, other: &Self) -> bool {
        self.name@ == other.name@
    }
}

impl Eq for Addon {

}

/// Two add-ons compare equal exactly when they have the same name.
pub proof fn law_addons_equal_by_name(one: Addon, other: Addon)
    ensures
        one.eq_spec(&other) <==> one@.name == other@.name,
{
}

impl AddonSource for Addon {
    fn release_address(&self, api_base: &str) -> (address: String)
        ensures
            address@ == release_address_of(api_base@, self@.source.owner, self@.source.repo),
    {
        self.source.release_address(api_base)
    }

    /// Fails as resolving the response fails, else as matching the add-on's
    /// pattern against the release fails.
    fn fetch_details(&self, response: &str) -> (result: Result<FetchedDetails, Error>)
        ensures
            details_result_view(result) == fetched(response@, self@.source.regex),
    {
        let release = match parse_release(response) {
            Ok(release) => release,
            Err(e) => {
                return Err(e);
            },
        };
        let asset = match select_asset(&release, self.source.regex()) {
            Ok(asset) => asset,
            Err(e) => {
                return Err(e);
            },
        };
        Ok(
            FetchedDetails {
                address: asset.url.clone(),
                released: release.published,
                downloads: asset.downloads,
                version: release.version.clone(),
            },
        )
    }

    fn install(from: &[u8], to: &str) -> (result: Result<InstallPlan, Error>)
        ensures
            plan_result_view(result) == extraction(from@, to@),
    {
        extract(from, to)
    }
}

} // verus!
