use pobsd_server::fetcher::{FetcherLanes, FetcherMessage};
use pobsd_server::filter::GameFilterWrapper;
use pobsd_server::game::Status;
use pobsd_server::igdb::IgdbMetaData;
use pobsd_server::metacritic::MetacriticClient;
use pobsd_server::steam::{Screenshot, SteamClient, SteamMetaData};
use pobsd_server::text::u64_to_string;
use pobsd_server::token::{IgdbToken, TokenRequestResponse};

fn job(name: &str) -> FetcherMessage {
    FetcherMessage { igdb_id: None, steam_id: None, game_name: name.to_string() }
}

// Jobs on the high-priority lane are serviced before low-priority jobs
// whenever both lanes have pending work.
#[test]
fn high_priority_lane_is_served_first() {
    let mut lanes = FetcherLanes::new();
    assert!(lanes.submit_low(job("background")));
    assert!(lanes.submit_high(job("interactive")));
    assert!(lanes.submit_low(job("more background")));
    let first = lanes.next_job().unwrap();
    assert_eq!(first.game_name, "interactive".to_string());
    let second = lanes.next_job().unwrap();
    assert_eq!(second.game_name, "background".to_string());
    let third = lanes.next_job().unwrap();
    assert_eq!(third.game_name, "more background".to_string());
    assert!(lanes.next_job().is_none());
}

#[test]
fn lanes_refuse_beyond_capacity() {
    let mut lanes = FetcherLanes::new();
    for i in 0..300 {
        assert!(lanes.submit_high(job(&format!("job {}", i))));
    }
    assert!(!lanes.submit_high(job("one too many")));
    assert!(lanes.submit_low(job("other lane unaffected")));
}

// The name-keyed lookup address drops apostrophes and slugifies the name.
#[test]
fn metacritic_lookup_url_is_slugified() {
    let client = MetacriticClient::new();
    assert_eq!(
        client.lookup_url("Baldur's Gate"),
        "https://www.metacritic.com/game/baldurs-gate".to_string()
    );
    assert_eq!(
        client.lookup_url("Quake III: Arena"),
        "https://www.metacritic.com/game/quake-iii-arena".to_string()
    );
}

// The storefront's request and cover addresses are synthesized from the
// storefront identifier.
#[test]
fn steam_addresses_carry_the_identifier() {
    let client = SteamClient::new();
    assert_eq!(
        client.request_url(440),
        "https://store.steampowered.com/api/appdetails?appids=440".to_string()
    );
    let data = SteamMetaData {
        about_the_game: "plain".to_string(),
        short_description: "short".to_string(),
        screenshots: vec![],
        metacritic: None,
        cover: String::new(),
    };
    let finalized = data.finalize(440);
    assert_eq!(
        finalized.cover,
        "https://shared.steamstatic.com/store_item_assets/steam/apps/440/hero_capsule.jpg"
            .to_string()
    );
}

// The storefront's long description is sanitized against injected markup.
#[test]
fn steam_finalize_sanitizes_markup() {
    let data = SteamMetaData {
        about_the_game: "<script>alert(1)</script>About the game".to_string(),
        short_description: "short".to_string(),
        screenshots: vec![],
        metacritic: None,
        cover: String::new(),
    };
    let finalized = data.finalize(10);
    assert!(!finalized.about_the_game.contains("script"));
    assert!(finalized.about_the_game.contains("About the game"));
}

// The storefront's screenshot list is capped at four entries.
#[test]
fn steam_finalize_caps_screenshots() {
    let shots = (0..6)
        .map(|i| Screenshot { path_thumbnail: format!("s{}.jpg", i) })
        .collect::<Vec<_>>();
    let data = SteamMetaData {
        about_the_game: String::new(),
        short_description: String::new(),
        screenshots: shots,
        metacritic: None,
        cover: String::new(),
    };
    let finalized = data.finalize(10);
    assert_eq!(finalized.screenshots.len(), 4);
    assert_eq!(finalized.screenshots[3].path_thumbnail, "s3.jpg".to_string());
}

// The primary provider's image identifiers become full image addresses.
#[test]
fn igdb_from_parts_builds_image_addresses() {
    let data = IgdbMetaData::from_parts(
        "summary".to_string(),
        "story".to_string(),
        vec!["abc1".to_string(), "abc2".to_string()],
        Some("cov9".to_string()),
    );
    assert_eq!(
        data.screenshots,
        vec![
            "https://images.igdb.com/igdb/image/upload/t_original/abc1.jpg".to_string(),
            "https://images.igdb.com/igdb/image/upload/t_original/abc2.jpg".to_string(),
        ]
    );
    assert_eq!(
        data.cover,
        "https://images.igdb.com/igdb/image/upload/t_cover_big/cov9.png".to_string()
    );
    let bare = IgdbMetaData::from_parts("s".to_string(), "t".to_string(), vec![], None);
    assert_eq!(bare.cover, String::new());
}

#[test]
fn decimal_formatting_is_exact() {
    assert_eq!(u64_to_string(0), "0".to_string());
    assert_eq!(u64_to_string(42), "42".to_string());
    assert_eq!(u64_to_string(1000100), "1000100".to_string());
}

// The token expires strictly after its declared lifetime has passed.
#[test]
fn token_expiry_compares_whole_seconds() {
    let token = IgdbToken::from_token_response(
        TokenRequestResponse {
            access_token: "SECRET-REDACTED".to_string(),
            expires_in: 60,
            token_type: "bearer".to_string(),
        },
        1000,
    );
    assert_eq!(token.value, "SECRET-REDACTED".to_string());
    assert!(!token.has_expired(1000));
    assert!(!token.has_expired(1060));
    assert!(token.has_expired(1061));
    assert!(!token.has_expired(999));
}

// The query string lists the set fields in order, separated by ampersands.
#[test]
fn filter_query_string_lists_set_fields() {
    let filter = GameFilterWrapper::from_pattern("quake");
    assert_eq!(
        filter.query_string(),
        "name=quake&engine=quake&runtime=quake&genre=quake&tag=quake&year=quake&dev=quake&publi=quake"
            .to_string()
    );
    let mut filter = GameFilterWrapper::default();
    assert_eq!(filter.query_string(), String::new());
    filter.status = Some(Status::Completable);
    filter.engine = Some("godot".to_string());
    assert_eq!(filter.query_string(), "engine=godot&status=completable".to_string());
}

#[test]
fn filter_is_empty_only_without_fields() {
    let empty = GameFilterWrapper::default();
    assert!(empty.is_empty());
    let filter = GameFilterWrapper::from_pattern("x");
    assert!(!filter.is_empty());
}
