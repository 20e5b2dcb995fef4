use pobsd_server::config::{ConfigError, IgdbConfig, ServerConfigBuilder};
use pobsd_server::game::{Game, Status};
use pobsd_server::scheduler::{get_game_ids, refresh_diff};

fn game(uid: u32, added: u32) -> Game {
    Game {
        uid,
        name: format!("game {}", uid),
        cover: None,
        engine: None,
        setup: None,
        runtime: None,
        hints: None,
        genres: None,
        tags: None,
        year: None,
        devs: None,
        publis: None,
        version: None,
        status: Status::Unknown,
        status_message: None,
        added,
        updated: added,
        igdb_id: None,
        steam_id: None,
    }
}

// The catalog holds identifiers {1, 2, 3}; the refresh returns {2, 3, 4}:
// exactly one enrichment job is dispatched, for identifier 4.
#[test]
fn refresh_dispatches_only_the_new_identifier() {
    let previous = vec![1, 2, 3];
    let current = vec![2, 3, 4];
    assert_eq!(refresh_diff(&previous, &current), vec![4]);
}

#[test]
fn refresh_diff_deduplicates_and_keeps_order() {
    let previous = vec![5];
    let current = vec![9, 5, 7, 9, 8];
    assert_eq!(refresh_diff(&previous, &current), vec![9, 7, 8]);
}

#[test]
fn refresh_diff_of_identical_sets_is_empty() {
    let ids = vec![1, 2, 3];
    assert_eq!(refresh_diff(&ids, &ids), Vec::<u32>::new());
}

// The initial sweep visits every record once, most recently added first.
#[test]
fn initial_sweep_is_most_recently_added_first() {
    let games = vec![game(1, 50), game(2, 300), game(3, 120)];
    assert_eq!(get_game_ids(games), vec![2, 3, 1]);
}

#[test]
fn port_parsing_accepts_valid_ports() {
    let builder = ServerConfigBuilder::new();
    let builder = builder.set_port(Some("5000".to_string())).unwrap();
    assert_eq!(builder.port, Some(5000));
    let config = builder.build();
    assert_eq!(config.port, 5000);
}

#[test]
fn port_parsing_rejects_text_and_overflow() {
    assert!(matches!(
        ServerConfigBuilder::new().set_port(Some("not a port".to_string())),
        Err(ConfigError::InvalidPort)
    ));
    assert!(matches!(
        ServerConfigBuilder::new().set_port(Some("70000".to_string())),
        Err(ConfigError::InvalidPort)
    ));
    assert!(matches!(
        ServerConfigBuilder::new().set_port(Some(String::new())),
        Err(ConfigError::InvalidPort)
    ));
}

#[test]
fn unset_port_and_address_fall_back_to_defaults() {
    let config = ServerConfigBuilder::new().set_port(None).unwrap().build();
    assert_eq!(config.port, 8080);
    assert_eq!(config.address, "127.0.0.1".to_string());
}

#[test]
fn igdb_credentials_are_both_required() {
    assert!(matches!(
        IgdbConfig::from_values(None, Some("SECRET-REDACTED".to_string())),
        Err(ConfigError::MissingClientId)
    ));
    assert!(matches!(
        IgdbConfig::from_values(Some("id".to_string()), None),
        Err(ConfigError::MissingClientSecret)
    ));
    let config =
        IgdbConfig::from_values(Some("id".to_string()), Some("SECRET-REDACTED".to_string()))
            .unwrap();
    assert_eq!(config.client_id, "id".to_string());
}
