use pobsd_server::filter::GameFilterWrapper;
use pobsd_server::game::{Game, Status};
use pobsd_server::metadata::GameMetaData;
use pobsd_server::store::{AppDb, AppDbRequest, AppDbResponse, Catalog};

fn game(uid: u32, name: &str, added: u32) -> Game {
    Game {
        uid,
        name: name.to_string(),
        cover: None,
        engine: None,
        setup: None,
        runtime: None,
        hints: None,
        genres: None,
        tags: None,
        year: None,
        devs: None,
        publis: None,
        version: None,
        status: Status::Unknown,
        status_message: None,
        added,
        updated: added,
        igdb_id: None,
        steam_id: None,
    }
}

fn enrichable_game(uid: u32, name: &str, added: u32) -> Game {
    let mut g = game(uid, name, added);
    g.igdb_id = Some(4242);
    g.steam_id = Some(440);
    g
}

fn store_of(games: Vec<Game>) -> AppDb {
    let catalog = Catalog::new(games).unwrap();
    AppDb::new(catalog, "start".to_string())
}

fn metadata_with_summary(text: &str) -> GameMetaData {
    GameMetaData {
        summary: Some(text.to_string()),
        story_line: None,
        screenshots: vec![],
        cover: None,
        metacritic: None,
    }
}

#[test]
fn get_game_by_id_finds_known_and_rejects_unknown() {
    let mut db = store_of(vec![game(1, "one", 10), game(2, "two", 20)]);
    match db.handle_request(AppDbRequest::GetGame { game_id: 2 }) {
        AppDbResponse::Game(g) => assert_eq!(g.name, "two".to_string()),
        _ => panic!("expected a record"),
    }
    assert!(matches!(
        db.handle_request(AppDbRequest::GetGame { game_id: 99 }),
        AppDbResponse::NoGame
    ));
}

// A record with no third-party id and no storefront id never produces an
// enrichment job: the representation comes back at once, with no metadata.
#[test]
fn representation_without_provider_ids_is_immediate() {
    let mut db = store_of(vec![game(7, "plain", 10)]);
    match db.handle_request(AppDbRequest::GetGameRepresentation { game_id: 7 }) {
        AppDbResponse::GameRepresentation(gr) => {
            assert_eq!(gr.game.uid, 7);
            assert!(gr.metadata.is_none());
        },
        _ => panic!("expected an immediate representation"),
    }
}

// An enrichable record without cached metadata yields the enrichment job.
#[test]
fn representation_without_cache_yields_job() {
    let mut db = store_of(vec![enrichable_game(7, "rich", 10)]);
    match db.handle_request(AppDbRequest::GetGameRepresentation { game_id: 7 }) {
        AppDbResponse::Pending(job) => {
            assert_eq!(job.igdb_id, Some(4242));
            assert_eq!(job.steam_id, Some(440));
            assert_eq!(job.game_name, "rich".to_string());
        },
        _ => panic!("expected a pending enrichment job"),
    }
}

// Inserting metadata and then reading the representation for the same
// identifier sees exactly the inserted record: the store serializes the
// two operations, so the read is never torn.
#[test]
fn insert_then_read_sees_inserted_metadata() {
    let mut db = store_of(vec![enrichable_game(7, "rich", 10)]);
    let done = db.handle_request(AppDbRequest::InsertMetadata {
        game_id: 7,
        metadata: metadata_with_summary("fetched"),
    });
    assert!(matches!(done, AppDbResponse::Done));
    match db.handle_request(AppDbRequest::GetGameRepresentation { game_id: 7 }) {
        AppDbResponse::GameRepresentation(gr) => {
            assert_eq!(gr.metadata.unwrap().summary, Some("fetched".to_string()));
        },
        _ => panic!("expected a representation with metadata"),
    }
}

// A later insert for the same identifier overwrites the cache entry.
#[test]
fn insert_metadata_overwrites() {
    let mut db = store_of(vec![enrichable_game(7, "rich", 10)]);
    db.handle_request(AppDbRequest::InsertMetadata {
        game_id: 7,
        metadata: metadata_with_summary("first"),
    });
    db.handle_request(AppDbRequest::InsertMetadata {
        game_id: 7,
        metadata: metadata_with_summary("second"),
    });
    match db.handle_request(AppDbRequest::GetGameRepresentation { game_id: 7 }) {
        AppDbResponse::GameRepresentation(gr) => {
            assert_eq!(gr.metadata.unwrap().summary, Some("second".to_string()));
        },
        _ => panic!("expected a representation with metadata"),
    }
}

// A catalog replacement swaps the records and the identifier set together:
// right after the swap, lookups and the identifier set agree on the new
// catalog, and nothing of the old one shows through.
#[test]
fn catalog_replacement_is_atomic() {
    let mut db = store_of(vec![game(1, "one", 10), game(2, "two", 20)]);
    let fresh = Catalog::new(vec![game(2, "two", 20), game(3, "three", 30)]).unwrap();
    let done = db.handle_request(AppDbRequest::UpdateDb {
        game_db: fresh,
        refreshed_at: "later".to_string(),
    });
    assert!(matches!(done, AppDbResponse::Done));
    match db.handle_request(AppDbRequest::GetGameIds {}) {
        AppDbResponse::GameIds(ids) => assert_eq!(ids, vec![2, 3]),
        _ => panic!("expected the identifier list"),
    }
    assert!(matches!(
        db.handle_request(AppDbRequest::GetGame { game_id: 1 }),
        AppDbResponse::NoGame
    ));
    assert!(matches!(
        db.handle_request(AppDbRequest::GetGame { game_id: 3 }),
        AppDbResponse::Game(_)
    ));
}

#[test]
fn get_game_list_skips_missing_ids() {
    let mut db = store_of(vec![game(1, "one", 10), game(2, "two", 20)]);
    match db.handle_request(AppDbRequest::GetGameList { game_ids: vec![2, 99, 1] }) {
        AppDbResponse::GameList(games) => {
            let names: Vec<String> = games.into_iter().map(|g| g.name).collect();
            assert_eq!(names, vec!["two".to_string(), "one".to_string()]);
        },
        _ => panic!("expected a game list"),
    }
}

#[test]
fn paginated_filter_matches_case_insensitively() {
    let mut matching = game(1, "Quake III Arena", 10);
    matching.engine = Some("ioquake3".to_string());
    let other = game(2, "Solitaire", 20);
    let mut db = store_of(vec![matching, other]);
    let mut filter = GameFilterWrapper::default();
    filter.name = Some("QUAKE".to_string());
    match db.handle_request(AppDbRequest::GetGameListPaginatedFiltered { page: 1, filter }) {
        AppDbResponse::GameListPaginated(games, page) => {
            assert_eq!(games.len(), 1);
            assert_eq!(games[0].uid, 1);
            assert_eq!(page.current_page, 1);
            assert_eq!(page.last_page, 1);
        },
        _ => panic!("expected a paginated list"),
    }
}

#[test]
fn paginated_filter_with_no_match_is_no_game() {
    let mut db = store_of(vec![game(1, "one", 10)]);
    let mut filter = GameFilterWrapper::default();
    filter.name = Some("absent".to_string());
    assert!(matches!(
        db.handle_request(AppDbRequest::GetGameListPaginatedFiltered { page: 1, filter }),
        AppDbResponse::NoGame
    ));
}

#[test]
fn paginated_page_out_of_range_is_error() {
    let mut db = store_of(vec![game(1, "one", 10)]);
    assert!(matches!(
        db.handle_request(AppDbRequest::GetGameListPaginatedFiltered {
            page: 5,
            filter: GameFilterWrapper::default(),
        }),
        AppDbResponse::Error
    ));
}

#[test]
fn recent_games_are_sorted_most_recent_first() {
    let mut db = store_of(vec![
        game(1, "old", 100),
        game(2, "newer", 995),
        game(3, "newest", 1000),
        game(4, "recent", 980),
    ]);
    match db.handle_request(AppDbRequest::GetRecentGames { today: 1000 }) {
        AppDbResponse::RecentGames(reps) => {
            let uids: Vec<u32> = reps.iter().map(|r| r.game.uid).collect();
            assert_eq!(uids, vec![3, 2, 4]);
            assert!(reps.iter().all(|r| r.metadata.is_none()));
        },
        _ => panic!("expected recent games"),
    }
}

#[test]
fn random_uid_comes_from_the_catalog() {
    let mut db = store_of(vec![game(17, "only", 10)]);
    match db.handle_request(AppDbRequest::GetRandomUid {}) {
        AppDbResponse::RandomUid(uid) => assert_eq!(uid, 17),
        _ => panic!("expected a random identifier"),
    }
}

#[test]
fn random_uid_of_empty_catalog_is_error() {
    let mut db = store_of(vec![]);
    assert!(matches!(
        db.handle_request(AppDbRequest::GetRandomUid {}),
        AppDbResponse::Error
    ));
}

#[test]
fn stats_count_engines_and_statuses() {
    let mut a = game(1, "a", 10);
    a.engine = Some("godot".to_string());
    a.status = Status::Perfect;
    let mut b = game(2, "b", 20);
    b.engine = Some("godot".to_string());
    b.status = Status::Launches;
    let mut c = game(3, "c", 30);
    c.engine = Some("love2d".to_string());
    c.status = Status::Perfect;
    let mut db = store_of(vec![a, b, c]);
    db.update_stats();
    match db.handle_request(AppDbRequest::GetGameStats {}) {
        AppDbResponse::GameStats(stats) => {
            assert_eq!(stats.total_games, 3);
            assert_eq!(stats.engine_stats.len(), 2);
            assert_eq!(stats.engine_stats[0].name, "godot".to_string());
            assert_eq!(stats.engine_stats[0].count, 2);
            assert_eq!(stats.engine_stats[1].name, "love2d".to_string());
            assert_eq!(stats.engine_stats[1].count, 1);
            assert_eq!(stats.status_stats.len(), 8);
            assert_eq!(stats.status_stats[0].name, "Unknown".to_string());
            assert_eq!(stats.status_stats[0].count, 0);
            assert_eq!(stats.status_stats[2].name, "Launches".to_string());
            assert_eq!(stats.status_stats[2].count, 1);
            assert_eq!(stats.status_stats[7].name, "Perfect".to_string());
            assert_eq!(stats.status_stats[7].count, 2);
            assert_eq!(stats.status_stats[7].query_value, "perfect".to_string());
        },
        _ => panic!("expected statistics"),
    }
}

#[test]
fn stats_year_table_is_sorted_by_year_descending() {
    let mut a = game(1, "a", 10);
    a.year = Some("2019".to_string());
    let mut b = game(2, "b", 20);
    b.year = Some("2021".to_string());
    let mut c = game(3, "c", 30);
    c.year = Some("2021".to_string());
    let mut db = store_of(vec![a, b, c]);
    db.update_stats();
    match db.handle_request(AppDbRequest::GetGameStats {}) {
        AppDbResponse::GameStats(stats) => {
            assert_eq!(stats.year_stats.len(), 2);
            assert_eq!(stats.year_stats[0].name, "2021".to_string());
            assert_eq!(stats.year_stats[0].count, 2);
            assert_eq!(stats.year_stats[1].name, "2019".to_string());
            assert_eq!(stats.year_stats[1].count, 1);
        },
        _ => panic!("expected statistics"),
    }
}

// Tag counts group the entries of every record's tag list.
#[test]
fn stats_count_tags_across_lists() {
    let mut a = game(1, "a", 10);
    a.tags = Some(vec!["indie".to_string(), "retro".to_string()]);
    let mut b = game(2, "b", 20);
    b.tags = Some(vec!["indie".to_string()]);
    let mut db = store_of(vec![a, b]);
    db.update_stats();
    match db.handle_request(AppDbRequest::GetGameStats {}) {
        AppDbResponse::GameStats(stats) => {
            assert_eq!(stats.tag_stats.len(), 2);
            assert_eq!(stats.tag_stats[0].name, "indie".to_string());
            assert_eq!(stats.tag_stats[0].count, 2);
            assert_eq!(stats.tag_stats[1].name, "retro".to_string());
            assert_eq!(stats.tag_stats[1].count, 1);
        },
        _ => panic!("expected statistics"),
    }
}
