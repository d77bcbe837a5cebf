use postgres_thread_store::append::plan_append;
use postgres_thread_store::cursor::decode_offset_cursor;
use postgres_thread_store::cursor::encode_offset_cursor;
use postgres_thread_store::cursor::OffsetCursor;
use postgres_thread_store::enrollment::PersistedRemoteControlEnrollment;
use postgres_thread_store::error::ThreadId;
use postgres_thread_store::error::ThreadStoreError;
use postgres_thread_store::store::check_thread_readable;
use postgres_thread_store::store::delete_outcome;
use postgres_thread_store::store::graph_status;
use postgres_thread_store::store::plan_store;
use postgres_thread_store::store::PostgresThreadStoreConfig;
use postgres_thread_store::store::StoreBackend;
use postgres_thread_store::store::StorePlan;
use postgres_thread_store::store::ThreadSpawnEdgeStatus;

fn id(text: &str) -> ThreadId {
    ThreadId::new(text.to_string())
}

#[test]
fn default_config_names_the_standard_variables() {
    let config = PostgresThreadStoreConfig::default();
    assert_eq!(config.database_url_env, "CODEX_REMOTE_SQL_URL");
    assert_eq!(config.default_workspace_id, "default");
    assert_eq!(config.redis_url_env, Some("CODEX_REDIS_URL".to_string()));
}

#[test]
fn missing_or_blank_database_url_leaves_store_unconfigured() {
    for url in [None, Some("".to_string()), Some(" \t\n".to_string())] {
        match plan_store(PostgresThreadStoreConfig::default(), url) {
            StorePlan::Unconfigured { message } => {
                assert_eq!(message, "remote SQL thread store requires $CODEX_REMOTE_SQL_URL")
            }
            StorePlan::Connect { .. } => panic!("expected an unconfigured store"),
        }
    }
}

#[test]
fn unparseable_database_url_is_reported_with_its_variable() {
    match plan_store(PostgresThreadStoreConfig::default(), Some("not a url".to_string())) {
        StorePlan::Unconfigured { message } => {
            assert!(message.starts_with("invalid $CODEX_REMOTE_SQL_URL: "), "{message}")
        }
        StorePlan::Connect { .. } => panic!("expected an unconfigured store"),
    }
}

#[test]
fn valid_database_url_connects_to_the_configured_workspace() {
    match plan_store(
        PostgresThreadStoreConfig::default(),
        Some("postgres://user:pw@localhost:5432/codex".to_string()),
    ) {
        StorePlan::Connect { workspace_id, redis_url_env, .. } => {
            assert_eq!(workspace_id, "default");
            assert_eq!(redis_url_env, Some("CODEX_REDIS_URL".to_string()));
        }
        StorePlan::Unconfigured { message } => panic!("unexpected: {message}"),
    }
}

#[test]
fn unconfigured_backend_refuses_with_its_message() {
    let backend = StoreBackend::Unconfigured { message: "no db".to_string() };
    match backend.workspace_id() {
        Err(ThreadStoreError::InvalidRequest { message }) => assert_eq!(message, "no db"),
        other => panic!("unexpected: {other:?}"),
    }
    assert!(matches!(backend.check_configured(), Err(ThreadStoreError::InvalidRequest { .. })));
    let pool = StoreBackend::Pool { workspace_id: "w".to_string(), redis_url_env: None };
    assert_eq!(pool.workspace_id().unwrap(), "w");
    assert!(pool.check_configured().is_ok());
}

#[test]
fn archived_threads_are_hidden_unless_asked_for() {
    let t = id("0194");
    match check_thread_readable(&t, Some(true), false) {
        Err(ThreadStoreError::InvalidRequest { message }) => {
            assert_eq!(message, "thread 0194 is archived")
        }
        other => panic!("unexpected: {other:?}"),
    }
    assert!(check_thread_readable(&t, Some(true), true).is_ok());
    assert!(check_thread_readable(&t, Some(false), false).is_ok());
    match check_thread_readable(&t, None, true) {
        Err(ThreadStoreError::ThreadNotFound { thread_id }) => assert_eq!(thread_id.text, "0194"),
        other => panic!("unexpected: {other:?}"),
    }
}

#[test]
fn deleting_nothing_reports_a_missing_thread() {
    assert!(matches!(
        delete_outcome(&id("x"), 0),
        Err(ThreadStoreError::ThreadNotFound { .. })
    ));
    assert!(delete_outcome(&id("x"), 1).is_ok());
}

#[test]
fn spawn_edge_statuses_are_stored_in_lower_case() {
    assert_eq!(graph_status(ThreadSpawnEdgeStatus::Open), "open");
    assert_eq!(graph_status(ThreadSpawnEdgeStatus::Closed), "closed");
}

#[test]
fn cursor_encodes_its_offset_as_json() {
    assert_eq!(encode_offset_cursor(0).unwrap(), r#"{"offset":0}"#);
    assert_eq!(encode_offset_cursor(1234).unwrap(), r#"{"offset":1234}"#);
    let parsed: serde_json::Value = serde_json::from_str(&encode_offset_cursor(987).unwrap()).unwrap();
    assert_eq!(parsed["offset"], 987);
}

#[test]
fn cursor_decoding_starts_at_zero_and_reports_bad_cursors() {
    assert_eq!(decode_offset_cursor(None).unwrap(), 0);
    assert_eq!(decode_offset_cursor(Some(Ok(OffsetCursor { offset: 7 }))).unwrap(), 7);
    match decode_offset_cursor(Some(Err("expected value".to_string()))) {
        Err(ThreadStoreError::InvalidRequest { message }) => {
            assert_eq!(message, "invalid cursor: expected value")
        }
        other => panic!("unexpected: {other:?}"),
    }
}

#[test]
fn appended_items_get_consecutive_sequence_numbers() {
    assert!(plan_append(5, 0).is_none());
    let plan = plan_append(5, 3).unwrap();
    assert_eq!(plan.seqs, vec![6, 7, 8]);
    assert_eq!(plan.from_seq, 6);
    assert_eq!(plan.to_seq, 8);
}

#[test]
fn enrollment_is_selected_by_url_account_and_client_name() {
    let enrollment = PersistedRemoteControlEnrollment {
        websocket_url: "wss://example".to_string(),
        account_id: "acct".to_string(),
        app_server_client_name: Some("desktop".to_string()),
        server_id: "srv".to_string(),
        environment_id: "env".to_string(),
        server_name: "name".to_string(),
        remote_control_enabled: Some(true),
    };
    assert!(enrollment.is_selected_by("wss://example", "acct", Some("desktop")));
    assert!(!enrollment.is_selected_by("wss://example", "acct", None));
    assert!(!enrollment.is_selected_by("wss://other", "acct", Some("desktop")));
    assert!(!enrollment.is_selected_by("wss://example", "other", Some("desktop")));
}

#[test]
fn configurations_and_enrollments_compare_by_value() {
    let config = PostgresThreadStoreConfig::default();
    let mut other = config.clone();
    assert_eq!(config, other);
    other.redis_url_env = None;
    assert_ne!(config, other);

    let enrollment = PersistedRemoteControlEnrollment {
        websocket_url: "wss://example".to_string(),
        account_id: "acct".to_string(),
        app_server_client_name: None,
        server_id: "srv".to_string(),
        environment_id: "env".to_string(),
        server_name: "name".to_string(),
        remote_control_enabled: None,
    };
    let mut changed = enrollment.clone();
    assert_eq!(enrollment, changed);
    changed.remote_control_enabled = Some(false);
    assert_ne!(enrollment, changed);
}

#[test]
fn blank_text_is_unicode_white_space_only() {
    assert!(postgres_thread_store::text::text_is_blank(""));
    assert!(postgres_thread_store::text::text_is_blank(" \t\r\n\u{85}\u{a0}\u{2009}\u{3000}"));
    assert!(!postgres_thread_store::text::text_is_blank(" x "));
    assert!(!postgres_thread_store::text::text_is_blank("\u{180e}"));
    assert!(!postgres_thread_store::text::text_is_blank("\u{200b}"));
    for c in ['\u{1680}', '\u{2028}', '\u{2029}', '\u{202f}', '\u{205f}', '\u{0b}', '\u{0c}'] {
        assert!(postgres_thread_store::text::text_is_blank(&c.to_string()));
        assert_eq!(c.is_whitespace(), true);
    }
}

#[test]
fn blank_text_agrees_with_std_on_every_character() {
    for c in (0u32..=0x10FFFF).filter_map(char::from_u32) {
        let mut buf = [0u8; 4];
        let text: &str = c.encode_utf8(&mut buf);
        assert_eq!(postgres_thread_store::text::text_is_blank(text), c.is_whitespace(), "{:?}", c);
    }
}
