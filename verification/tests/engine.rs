use backlog::catalog::{upsert_game, GameCatalog};
use backlog::errors::{ErrorKind, FetchError, Stage, SyncError};
use backlog::ledger::UserGameLedger;
use backlog::log::user_game_names;
use backlog::model::{Game, GameEntry, GameKey, PlayState, UserGameRecord};
use backlog::sync::{sync, sync_at, SyncConfig};
use backlog::User;

fn user(id: i64, external_id: Option<&str>) -> User {
    User { id, external_id: external_id.map(|s| s.to_string()) }
}

fn entry(external_id: u64, name: &str, playtime_minutes: u64) -> GameEntry {
    GameEntry { external_id, name: name.to_string(), playtime_minutes }
}

fn transport_error(detail: &str) -> FetchError {
    FetchError { kind: ErrorKind::Transport, detail: detail.to_string() }
}

fn reference_config() -> SyncConfig {
    SyncConfig { abort_on_first_failure: true, restamp_dates: true }
}

fn hardened_config() -> SyncConfig {
    SyncConfig { abort_on_first_failure: false, restamp_dates: false }
}

#[test]
fn scenario_one_remote_game_creates_catalog_and_record() {
    let mut catalog = GameCatalog::new();
    let mut ledger = UserGameLedger::new();
    let users = vec![user(1, Some("76500000000000000"))];
    let responses = vec![Ok(vec![entry(10, "Title-X", 120)])];
    let result = sync_at(&mut catalog, &mut ledger, &users, &responses, &reference_config(), 1000);

    let report = result.expect("pass should succeed");
    assert_eq!(report.outcomes.len(), 1);
    assert_eq!(report.outcomes[0].user_id, 1);
    assert!(report.outcomes[0].error.is_none());

    assert_eq!(catalog.len(), 1);
    let game = catalog.get(0);
    assert_eq!(game.name, "Title-X");
    assert_eq!(game.external_id, Some(10));

    assert_eq!(ledger.len(), 1);
    let idx = ledger.find(1, game.id).expect("record exists");
    let record = ledger.get(idx);
    assert_eq!(record.play_state, PlayState::Unfinished);
    assert_eq!(record.start_date, Some(1000));
    assert_eq!(record.acquisition_date, 1000);
    assert_eq!(record.platform, "win");
    assert_eq!(record.beat_date, None);
}

#[test]
fn scenario_rerun_with_zero_playtime_restamp_policy_clears_start_date() {
    let mut catalog = GameCatalog::new();
    let mut ledger = UserGameLedger::new();
    let users = vec![user(1, Some("76500000000000000"))];
    let first = vec![Ok(vec![entry(10, "Title-X", 120)])];
    sync_at(&mut catalog, &mut ledger, &users, &first, &reference_config(), 1000).unwrap();

    let second = vec![Ok(vec![entry(10, "Title-X", 0)])];
    sync_at(&mut catalog, &mut ledger, &users, &second, &reference_config(), 2000).unwrap();

    assert_eq!(catalog.len(), 1);
    assert_eq!(ledger.len(), 1);
    let record = ledger.get(0);
    assert_eq!(record.play_state, PlayState::Unplayed);
    // The re-stamping policy rewrites the engine-owned dates each pass:
    // zero playtime clears the start date and acquisition moves forward.
    assert_eq!(record.start_date, None);
    assert_eq!(record.acquisition_date, 2000);
}

#[test]
fn rerun_with_zero_playtime_preserving_policy_keeps_dates() {
    let mut catalog = GameCatalog::new();
    let mut ledger = UserGameLedger::new();
    let users = vec![user(1, Some("76500000000000000"))];
    let first = vec![Ok(vec![entry(10, "Title-X", 120)])];
    sync_at(&mut catalog, &mut ledger, &users, &first, &hardened_config(), 1000).unwrap();

    let second = vec![Ok(vec![entry(10, "Title-X", 0)])];
    sync_at(&mut catalog, &mut ledger, &users, &second, &hardened_config(), 2000).unwrap();

    let record = ledger.get(0);
    assert_eq!(record.play_state, PlayState::Unplayed);
    // The preserving policy keeps dates once set.
    assert_eq!(record.start_date, Some(1000));
    assert_eq!(record.acquisition_date, 1000);
}

#[test]
fn abort_mode_stops_at_first_failed_user_and_keeps_earlier_writes() {
    let mut catalog = GameCatalog::new();
    let mut ledger = UserGameLedger::new();
    let users = vec![
        user(1, Some("sid-1")),
        user(2, Some("sid-2")),
        user(3, Some("sid-3")),
    ];
    let responses = vec![
        Ok(vec![entry(10, "Alpha", 30)]),
        Err(transport_error("connection refused")),
        Ok(vec![entry(20, "Beta", 45)]),
    ];
    let result = sync_at(&mut catalog, &mut ledger, &users, &responses, &reference_config(), 500);

    let err = result.expect_err("pass must abort");
    assert_eq!(err.kind, ErrorKind::Transport);
    assert_eq!(err.stage, Stage::Fetch);
    assert_eq!(err.user_id, Some(2));
    assert_eq!(err.detail, "connection refused");

    // User 1's writes remain; user 3 was never attempted.
    assert_eq!(catalog.len(), 1);
    assert_eq!(catalog.get(0).name, "Alpha");
    assert_eq!(ledger.len(), 1);
    assert!(ledger.find(1, 0).is_some());
    assert!(ledger.find(3, 0).is_none());
}

#[test]
fn isolate_mode_reports_per_user_outcomes_and_continues() {
    let mut catalog = GameCatalog::new();
    let mut ledger = UserGameLedger::new();
    let users = vec![
        user(1, Some("sid-1")),
        user(2, Some("sid-2")),
        user(3, Some("sid-3")),
    ];
    let responses = vec![
        Ok(vec![entry(10, "Alpha", 30)]),
        Err(transport_error("connection refused")),
        Ok(vec![entry(20, "Beta", 45)]),
    ];
    let config = SyncConfig { abort_on_first_failure: false, restamp_dates: true };
    let result = sync_at(&mut catalog, &mut ledger, &users, &responses, &config, 500);

    let report = result.expect("isolate mode always returns a report");
    assert_eq!(report.outcomes.len(), 3);
    assert_eq!(report.outcomes[0].user_id, 1);
    assert!(report.outcomes[0].error.is_none());
    assert_eq!(report.outcomes[1].user_id, 2);
    let err = report.outcomes[1].error.as_ref().expect("user 2 failed");
    assert_eq!(err.kind, ErrorKind::Transport);
    assert_eq!(err.stage, Stage::Fetch);
    assert_eq!(err.user_id, Some(2));
    assert_eq!(report.outcomes[2].user_id, 3);
    assert!(report.outcomes[2].error.is_none());

    // Users 1 and 3 both synced.
    assert_eq!(catalog.len(), 2);
    assert!(ledger.find(1, 0).is_some());
    assert!(ledger.find(3, 1).is_some());
}

#[test]
fn users_without_external_id_are_skipped_entirely() {
    let mut catalog = GameCatalog::new();
    let mut ledger = UserGameLedger::new();
    let users = vec![user(1, None), user(2, Some(""))];
    // Even if outcomes were handed in for them, nothing may be consulted
    // or written: skipped users trigger no fetch and no writes.
    let responses = vec![
        Ok(vec![entry(10, "Alpha", 30)]),
        Ok(vec![entry(20, "Beta", 45)]),
    ];
    let result = sync_at(&mut catalog, &mut ledger, &users, &responses, &reference_config(), 500);

    let report = result.expect("nothing attempted, nothing failed");
    assert_eq!(report.outcomes.len(), 0);
    assert_eq!(catalog.len(), 0);
    assert_eq!(ledger.len(), 0);

    assert!(!users[0].eligible());
    assert!(!users[1].eligible());
    assert!(user(3, Some("sid")).eligible());
}

#[test]
fn beat_date_survives_sync_passes() {
    let mut catalog = GameCatalog::new();
    let mut ledger = UserGameLedger::new();
    let users = vec![user(1, Some("sid-1"))];
    let first = vec![Ok(vec![entry(10, "Alpha", 30)])];
    sync_at(&mut catalog, &mut ledger, &users, &first, &reference_config(), 500).unwrap();

    // The outside collaborator marks the game beaten.
    assert!(ledger.set_beat_date(1, 0, Some(777)));
    assert_eq!(ledger.get(0).beat_date, Some(777));

    // A later pass with any playtime value leaves the beat date alone.
    let second = vec![Ok(vec![entry(10, "Alpha", 0)])];
    sync_at(&mut catalog, &mut ledger, &users, &second, &reference_config(), 900).unwrap();
    assert_eq!(ledger.get(0).beat_date, Some(777));

    let third = vec![Ok(vec![entry(10, "Alpha", 1200)])];
    sync_at(&mut catalog, &mut ledger, &users, &third, &hardened_config(), 950).unwrap();
    assert_eq!(ledger.get(0).beat_date, Some(777));
}

#[test]
fn second_identical_pass_changes_nothing() {
    let mut catalog = GameCatalog::new();
    let mut ledger = UserGameLedger::new();
    let users = vec![user(1, Some("sid-1")), user(2, Some("sid-2"))];
    let responses = vec![
        Ok(vec![entry(10, "Alpha", 30), entry(11, "Gamma", 0)]),
        Ok(vec![entry(10, "Alpha", 500)]),
    ];
    sync_at(&mut catalog, &mut ledger, &users, &responses, &hardened_config(), 500).unwrap();

    let games_before: Vec<_> = (0..catalog.len()).map(|i| catalog.get(i).clone()).collect();
    let records_before: Vec<_> = (0..ledger.len()).map(|i| ledger.get(i).clone()).collect();

    // Byte-identical responses, later pass time, preserving policy.
    sync_at(&mut catalog, &mut ledger, &users, &responses, &hardened_config(), 999).unwrap();

    let games_after: Vec<_> = (0..catalog.len()).map(|i| catalog.get(i).clone()).collect();
    let records_after: Vec<_> = (0..ledger.len()).map(|i| ledger.get(i).clone()).collect();
    assert_eq!(games_before, games_after);
    assert_eq!(records_before, records_after);
}

#[test]
fn same_external_id_resolves_to_one_game_keeping_first_name() {
    let mut catalog = GameCatalog::new();
    let first = entry(10, "Original Name", 30);
    let renamed = entry(10, "Renamed Later", 60);
    let id1 = upsert_game(&mut catalog, &first);
    let id2 = upsert_game(&mut catalog, &renamed);
    assert_eq!(id1, id2);
    assert_eq!(catalog.len(), 1);
    // The stored name is kept as first observed.
    assert_eq!(catalog.get(0).name, "Original Name");
    assert_eq!(catalog.get(0).external_id, Some(10));
}

#[test]
fn name_fallback_is_exact_no_normalization() {
    let mut catalog = GameCatalog::new();
    let a = catalog.resolve_or_create(GameKey::ByName("Chess".to_string()), "Chess".to_string());
    let b = catalog.resolve_or_create(GameKey::ByName("chess".to_string()), "chess".to_string());
    let c = catalog.resolve_or_create(GameKey::ByName("Chess ".to_string()), "Chess ".to_string());
    let again = catalog.resolve_or_create(GameKey::ByName("Chess".to_string()), "Chess".to_string());
    assert_ne!(a, b);
    assert_ne!(a, c);
    assert_ne!(b, c);
    assert_eq!(a, again);
    assert_eq!(catalog.len(), 3);
    assert_eq!(catalog.get(0).external_id, None);
}

#[test]
fn name_key_and_external_key_never_collide() {
    let mut catalog = GameCatalog::new();
    let by_ext = upsert_game(&mut catalog, &entry(10, "Chess", 5));
    let by_name =
        catalog.resolve_or_create(GameKey::ByName("Chess".to_string()), "Chess".to_string());
    assert_ne!(by_ext, by_name);
    assert_eq!(catalog.len(), 2);
}

#[test]
fn play_state_derivation_from_playtime() {
    let mut ledger = UserGameLedger::new();
    ledger.upsert_play_state(1, 0, 0, "win".to_string(), 1000, true);
    let unplayed = ledger.get(0);
    assert_eq!(unplayed.play_state, PlayState::Unplayed);
    assert_eq!(unplayed.start_date, None);

    ledger.upsert_play_state(1, 1, 120, "win".to_string(), 1000, true);
    let unfinished = ledger.get(1);
    assert_eq!(unfinished.play_state, PlayState::Unfinished);
    assert_eq!(unfinished.start_date, Some(1000));
    // The engine never derives a beaten state.
    assert_ne!(unfinished.play_state, PlayState::Beaten);
}

#[test]
fn start_date_set_only_on_transition_under_preserving_policy() {
    let mut ledger = UserGameLedger::new();
    ledger.upsert_play_state(1, 0, 0, "win".to_string(), 100, false);
    assert_eq!(ledger.get(0).start_date, None);
    ledger.upsert_play_state(1, 0, 0, "win".to_string(), 200, false);
    assert_eq!(ledger.get(0).start_date, None);
    // First positive playtime stamps the start date...
    ledger.upsert_play_state(1, 0, 50, "win".to_string(), 300, false);
    assert_eq!(ledger.get(0).start_date, Some(300));
    // ...and later passes keep it.
    ledger.upsert_play_state(1, 0, 90, "win".to_string(), 400, false);
    assert_eq!(ledger.get(0).start_date, Some(300));
    assert_eq!(ledger.get(0).acquisition_date, 100);
}

#[test]
fn upsert_is_keyed_by_user_and_game() {
    let mut ledger = UserGameLedger::new();
    ledger.upsert_play_state(1, 7, 10, "win".to_string(), 100, true);
    ledger.upsert_play_state(2, 7, 20, "win".to_string(), 100, true);
    ledger.upsert_play_state(1, 8, 30, "win".to_string(), 100, true);
    ledger.upsert_play_state(1, 7, 40, "win".to_string(), 200, true);
    assert_eq!(ledger.len(), 3);
    let idx = ledger.find(1, 7).unwrap();
    assert_eq!(ledger.get(idx).start_date, Some(200));
}

#[test]
fn error_context_carries_stage_and_user() {
    for kind in [
        ErrorKind::Config,
        ErrorKind::Transport,
        ErrorKind::Parse,
        ErrorKind::Storage,
    ] {
        let wrapped = SyncError::from_fetch(
            FetchError { kind, detail: "boom".to_string() },
            42,
        );
        assert_eq!(wrapped.kind, kind);
        assert_eq!(wrapped.stage, Stage::Fetch);
        assert_eq!(wrapped.user_id, Some(42));
        assert_eq!(wrapped.detail, "boom");
    }
}

#[test]
fn parse_failure_is_isolated_like_any_other() {
    let mut catalog = GameCatalog::new();
    let mut ledger = UserGameLedger::new();
    let users = vec![user(1, Some("sid-1"))];
    let responses = vec![Err(FetchError {
        kind: ErrorKind::Parse,
        detail: "unexpected shape".to_string(),
    })];
    let config = SyncConfig { abort_on_first_failure: false, restamp_dates: true };
    let report = sync_at(&mut catalog, &mut ledger, &users, &responses, &config, 500).unwrap();
    let err = report.outcomes[0].error.as_ref().unwrap();
    assert_eq!(err.kind, ErrorKind::Parse);
    assert_eq!(ledger.len(), 0);
}

#[test]
fn log_lists_the_users_game_names_in_ledger_order() {
    let mut catalog = GameCatalog::new();
    let mut ledger = UserGameLedger::new();
    let users = vec![user(1, Some("sid-1")), user(2, Some("sid-2"))];
    let responses = vec![
        Ok(vec![entry(10, "Alpha", 30), entry(11, "Beta", 0)]),
        Ok(vec![entry(12, "Gamma", 5)]),
    ];
    sync_at(&mut catalog, &mut ledger, &users, &responses, &reference_config(), 500).unwrap();

    let names = user_game_names(&catalog, &ledger, 1);
    assert_eq!(names, vec!["Alpha".to_string(), "Beta".to_string()]);
    let names2 = user_game_names(&catalog, &ledger, 2);
    assert_eq!(names2, vec!["Gamma".to_string()]);
    let none = user_game_names(&catalog, &ledger, 9);
    assert!(none.is_empty());
}

#[test]
fn default_config_is_the_reference_behavior() {
    let config = SyncConfig::default();
    assert!(config.abort_on_first_failure);
    assert!(config.restamp_dates);
}

#[test]
fn wall_clock_pass_stamps_a_real_timestamp() {
    let mut catalog = GameCatalog::new();
    let mut ledger = UserGameLedger::new();
    let users = vec![user(1, Some("sid-1"))];
    let responses = vec![Ok(vec![entry(10, "Alpha", 30)])];
    let report = sync(&mut catalog, &mut ledger, &users, &responses, &reference_config())
        .expect("pass succeeds");
    assert_eq!(report.outcomes.len(), 1);
    let record = ledger.get(0);
    // A date written by the wall-clock pass is the time now, well after
    // the start of 2020.
    assert!(record.acquisition_date > 1_577_836_800);
    assert_eq!(record.start_date, Some(record.acquisition_date));
}

#[test]
fn play_state_labels_match_the_persisted_schema() {
    assert_eq!(PlayState::Unplayed.label(), "unplayed");
    assert_eq!(PlayState::Unfinished.label(), "unfinished");
    assert_eq!(PlayState::Beaten.label(), "beaten");
}

#[test]
fn stored_games_are_validated_on_load() {
    let good = vec![
        Game { id: 0, name: "Alpha".to_string(), external_id: Some(10) },
        Game { id: 1, name: "Beta".to_string(), external_id: None },
        Game { id: 2, name: "Gamma".to_string(), external_id: Some(11) },
    ];
    let catalog = GameCatalog::from_games(good).expect("well-formed table loads");
    assert_eq!(catalog.len(), 3);
    assert_eq!(catalog.get(1).name, "Beta");

    let duplicate_external_id = vec![
        Game { id: 0, name: "Alpha".to_string(), external_id: Some(10) },
        Game { id: 1, name: "Beta".to_string(), external_id: Some(10) },
    ];
    assert!(GameCatalog::from_games(duplicate_external_id).is_none());

    let non_dense_ids = vec![Game { id: 5, name: "Alpha".to_string(), external_id: None }];
    assert!(GameCatalog::from_games(non_dense_ids).is_none());
}

#[test]
fn stored_records_are_validated_on_load() {
    let record = |user_id: i64, game_id: i64| UserGameRecord {
        user_id,
        game_id,
        play_state: PlayState::Unplayed,
        platform: "win".to_string(),
        acquisition_date: 1,
        start_date: None,
        beat_date: None,
    };
    let good = vec![record(1, 0), record(1, 1), record(2, 0)];
    let ledger = UserGameLedger::from_records(good).expect("well-formed table loads");
    assert_eq!(ledger.len(), 3);

    let duplicate_pair = vec![record(1, 0), record(1, 0)];
    assert!(UserGameLedger::from_records(duplicate_pair).is_none());
}
