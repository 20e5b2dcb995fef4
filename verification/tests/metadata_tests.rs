use pobsd_server::igdb::IgdbMetaData;
use pobsd_server::fetcher::merge_provider_results;
use pobsd_server::metacritic::{MetacriticMetaData, Rating};
use pobsd_server::metadata::{GameMetaData, Metacritic};
use pobsd_server::steam::{Screenshot, SteamMetaData, SteamMetacritic};

fn partial_a() -> GameMetaData {
    GameMetaData {
        summary: Some("a summary".to_string()),
        story_line: None,
        screenshots: vec!["a1.jpg".to_string()],
        cover: None,
        metacritic: None,
    }
}

fn partial_b() -> GameMetaData {
    GameMetaData {
        summary: None,
        story_line: Some("a story".to_string()),
        screenshots: vec![],
        cover: Some("cover.png".to_string()),
        metacritic: Some(Metacritic { score: 87, url: "https://example.org/review".to_string() }),
    }
}

// Merging a record with itself yields the same record.
#[test]
fn merge_is_idempotent() {
    let merged = partial_a().merge(partial_a());
    let original = partial_a();
    assert_eq!(merged.summary, original.summary);
    assert_eq!(merged.story_line, original.story_line);
    assert_eq!(merged.screenshots, original.screenshots);
    assert_eq!(merged.cover, original.cover);
    assert!(merged.metacritic.is_none());
}

// Merging records with disjoint fields yields their union, whichever way
// round the merge is taken.
#[test]
fn merge_of_disjoint_fields_is_union_both_ways() {
    let ab = partial_a().merge(partial_b());
    let ba = partial_b().merge(partial_a());
    for merged in [ab, ba] {
        assert_eq!(merged.summary, Some("a summary".to_string()));
        assert_eq!(merged.story_line, Some("a story".to_string()));
        assert_eq!(merged.screenshots, vec!["a1.jpg".to_string()]);
        assert_eq!(merged.cover, Some("cover.png".to_string()));
        let metacritic = merged.metacritic.unwrap();
        assert_eq!(metacritic.score, 87);
        assert_eq!(metacritic.url, "https://example.org/review".to_string());
    }
}

// Merging never erases a previously present field.
#[test]
fn merge_never_erases() {
    let other = GameMetaData {
        summary: Some("other summary".to_string()),
        story_line: Some("other story".to_string()),
        screenshots: vec![],
        cover: Some("other.png".to_string()),
        metacritic: None,
    };
    let merged = partial_a().merge(other);
    assert_eq!(merged.summary, Some("a summary".to_string()));
    assert_eq!(merged.screenshots, vec!["a1.jpg".to_string()]);
    assert_eq!(merged.story_line, Some("other story".to_string()));
    assert_eq!(merged.cover, Some("other.png".to_string()));
}

// A strictly longer screenshot list replaces a shorter one; an equal or
// shorter one does not.
#[test]
fn merge_takes_strictly_longer_screenshot_list() {
    let two = GameMetaData {
        summary: None,
        story_line: None,
        screenshots: vec!["b1.jpg".to_string(), "b2.jpg".to_string()],
        cover: None,
        metacritic: None,
    };
    let merged = partial_a().merge(two);
    assert_eq!(merged.screenshots, vec!["b1.jpg".to_string(), "b2.jpg".to_string()]);
    let one = GameMetaData {
        summary: None,
        story_line: None,
        screenshots: vec!["c1.jpg".to_string()],
        cover: None,
        metacritic: None,
    };
    let merged = partial_a().merge(one);
    assert_eq!(merged.screenshots, vec!["a1.jpg".to_string()]);
}

// The pipeline's merge starts from the primary provider, then fills from
// the name-keyed provider, then from the storefront.
#[test]
fn provider_merge_prefers_primary_then_name_keyed() {
    let igdb = IgdbMetaData {
        summary: "igdb summary".to_string(),
        story_line: "igdb story".to_string(),
        screenshots: vec![],
        cover: "igdb-cover.png".to_string(),
    };
    let metacritic = MetacriticMetaData {
        name: "game".to_string(),
        description: "metacritic description".to_string(),
        aggregate_rating: Some(Rating { rating_value: 77 }),
        url: "https://example.org/game".to_string(),
    };
    let steam = SteamMetaData {
        about_the_game: "about".to_string(),
        short_description: "steam description".to_string(),
        screenshots: vec![Screenshot { path_thumbnail: "s1.jpg".to_string() }],
        metacritic: Some(SteamMetacritic { score: 55, url: "https://example.org/steam".to_string() }),
        cover: "steam-cover.jpg".to_string(),
    };
    let merged = merge_provider_results(Some(igdb), Some(metacritic), Some(steam));
    // The primary provider's text fields win outright.
    assert_eq!(merged.summary, Some("igdb summary".to_string()));
    assert_eq!(merged.story_line, Some("igdb story".to_string()));
    assert_eq!(merged.cover, Some("igdb-cover.png".to_string()));
    // The name-keyed provider merges first, so its score wins over the
    // storefront's.
    assert_eq!(merged.metacritic.unwrap().score, 77);
    // The storefront's strictly longer screenshot list replaces the empty one.
    assert_eq!(merged.screenshots, vec!["s1.jpg".to_string()]);
}

// A failed provider counts as an empty contribution: the others still land.
#[test]
fn provider_merge_tolerates_missing_providers() {
    let metacritic = MetacriticMetaData {
        name: "game".to_string(),
        description: "only description".to_string(),
        aggregate_rating: None,
        url: "https://example.org/game".to_string(),
    };
    let merged = merge_provider_results(None, Some(metacritic), None);
    // The missing primary provider contributes empty (but present) texts.
    assert_eq!(merged.summary, Some(String::new()));
    assert!(merged.metacritic.is_none());
    let merged = merge_provider_results(None, None, None);
    assert_eq!(merged.summary, Some(String::new()));
    assert_eq!(merged.screenshots, Vec::<String>::new());
}
