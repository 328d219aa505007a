use adona::addon::{Addon, AddonSource, Config, FetchedDetails, GitHubRelease};
use adona::archive::{InstallPlan, InstallStep};
use adona::database::Database;
use adona::error::{Error, ResponseDefect};
use adona::release::Timestamp;
use adona::settings::{Game, Settings};
use adona::util::{reversed, same_text};

fn source(pattern: &str) -> GitHubRelease {
    GitHubRelease::new("acme".to_string(), "widget".to_string(), pattern.to_string())
}

fn addon(name: &str, description: Option<&str>, pattern: &str) -> Addon {
    Addon::new(name.to_string(), description.map(|d| d.to_string()), None, None, source(pattern))
}

fn game(name: &str, path: &str) -> Game {
    Game::new(name.to_string(), path.to_string())
}

const BODY: &str = r#"{
    "tag_name": "v1",
    "published_at": "2019-10-12T07:20:50Z",
    "assets": [
        { "browser_download_url": "widget-v1.zip", "download_count": 12 },
        { "browser_download_url": "widget-v1.zip.sha256", "download_count": 3 }
    ]
}"#;

#[test]
fn a_source_keeps_what_it_was_made_with() {
    let source = source("\\.zip$");
    assert_eq!(source.owner(), "acme");
    assert_eq!(source.repo(), "widget");
    assert_eq!(source.regex(), "\\.zip$");
}

#[test]
fn the_release_address_names_owner_and_repository() {
    assert_eq!(
        source("").release_address("https://api.github.com"),
        "https://api.github.com/repos/acme/widget/releases/latest"
    );
    assert_eq!(
        addon("Widget", None, "").release_address("http://localhost:8080"),
        "http://localhost:8080/repos/acme/widget/releases/latest"
    );
    assert_eq!(GitHubRelease::new(String::new(), String::new(), String::new()).release_address(""), "/repos///releases/latest");
}

#[test]
fn the_default_configuration() {
    let config = Config::default();
    assert_eq!(config.api_base, "https://api.github.com");
    assert_eq!(config.database_path, "res/wow-classic.json");
    assert_eq!(
        config.submission_link,
        "https://github.com/steven-joruk/adona/issues/new?assignees=&labels=addon+submission&template=addon-submission.md&title=Addon+submission"
    );
}

#[test]
fn fetches_the_details_of_the_latest_release() {
    let details = addon("Widget", None, "\\.zip$").fetch_details(BODY);
    assert_eq!(
        details,
        Ok(FetchedDetails {
            address: "widget-v1.zip".to_string(),
            released: Timestamp { seconds: 1570864850, nanos: 0, offset: 0 },
            downloads: 12,
            version: "v1".to_string(),
        })
    );
}

#[test]
fn fetching_fails_as_its_parts_fail() {
    assert_eq!(
        addon("Widget", None, "(").fetch_details("{"),
        Err(Error::MalformedResponse(ResponseDefect::InvalidJson))
    );
    assert_eq!(addon("Widget", None, "(").fetch_details(BODY), Err(Error::InvalidPattern));
    assert_eq!(addon("Widget", None, "\\.rar$").fetch_details(BODY), Err(Error::NoMatchingAsset));
}

#[test]
fn a_source_plans_the_install() {
    assert_eq!(Addon::install(b"junk", "out"), Err(Error::ArchiveCorrupt));
    let empty = [80u8, 75, 5, 6, 0, 0, 0, 0, 0, 0, 0, 0, 0, 0, 0, 0, 0, 0, 0, 0, 0, 0];
    assert_eq!(
        Addon::install(&empty, "out"),
        Ok(InstallPlan { destination: "out".to_string(), steps: Vec::<InstallStep>::new() })
    );
}

#[test]
fn addons_are_told_apart_by_name() {
    assert!(addon("Widget", Some("one"), "a") == addon("Widget", Some("another"), "b"));
    assert!(addon("Widget", None, "a") != addon("Gadget", None, "a"));
    assert_eq!(addon("Widget", None, "a").name(), "Widget");
    assert_eq!(addon("Widget", None, "a").source(), &source("a"));
}

#[test]
fn the_catalog_holds_each_addon_once() {
    let database = Database::load(vec![
        addon("Widget", Some("first"), "a"),
        addon("Gadget", None, "b"),
        addon("Widget", Some("second"), "c"),
    ]);
    assert_eq!(database.addons.len(), 2);
    assert_eq!(database.addons[0].name, "Widget");
    assert_eq!(database.addons[0].description, Some("first".to_string()));
    assert_eq!(database.addons[1].name, "Gadget");
}

#[test]
fn finds_an_addon_by_its_name() {
    let database = Database::load(vec![addon("Widget", None, "a"), addon("Gadget", Some("g"), "b")]);
    assert_eq!(database.find("Gadget").unwrap().description, Some("g".to_string()));
    assert_eq!(database.find("Widget").unwrap().source().regex(), "a");
    assert!(database.find("widget").is_none());
    assert!(Database::load(vec![]).find("Widget").is_none());
}

#[test]
fn games_are_told_apart_by_path() {
    assert!(game("Classic", "/games/wow") == game("Retail", "/games/wow"));
    assert!(game("Classic", "/games/wow") != game("Classic", "/games/wow2"));
}

#[test]
fn a_game_holds_each_addon_once() {
    let mut game = game("Classic", "/games/wow");
    assert!(!game.has_addon("Widget"));
    assert!(game.add_addon("Widget".to_string()));
    assert!(game.add_addon("Gadget".to_string()));
    assert!(!game.add_addon("Widget".to_string()));
    assert_eq!(game.addons, vec!["Widget".to_string(), "Gadget".to_string()]);
    assert!(game.has_addon("Gadget"));
    assert!(!game.has_addon("gadget"));
}

#[test]
fn settings_without_a_store_are_the_defaults() {
    assert!(Settings::load(None).games.is_empty());
    assert!(Settings::default().games.is_empty());
    assert!(Settings::load(Some(vec![])).games.is_empty());
}

#[test]
fn settings_hold_each_game_once() {
    let settings = Settings::load(Some(vec![
        game("Classic", "/games/wow"),
        game("Other", "/games/other"),
        game("Again", "/games/wow"),
        game("Third", "/games/third"),
    ]));
    let names: Vec<&str> = settings.games.iter().map(|game| game.name.as_str()).collect();
    assert_eq!(names, vec!["Classic", "Other", "Third"]);
    assert!(settings.has_game("/games/other"));
    assert!(!settings.has_game("/games/none"));
}

#[test]
fn turns_a_vector_round() {
    assert_eq!(reversed(vec![1, 2, 3]), vec![3, 2, 1]);
    assert_eq!(reversed(Vec::<u8>::new()), Vec::<u8>::new());
}

#[test]
fn compares_texts() {
    assert!(same_text("abc", "abc"));
    assert!(!same_text("abc", "abd"));
    assert!(!same_text("", "a"));
}
