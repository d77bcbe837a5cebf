use postgres_thread_store::keys::canonical_session_source_key;
use postgres_thread_store::keys::push_unique_key;
use postgres_thread_store::keys::session_source_filter_keys;
use postgres_thread_store::session_source::SessionSource;
use postgres_thread_store::session_source::SubAgentSource;

#[test]
fn canonical_session_source_key_uses_serde_values() {
    assert_eq!(
        canonical_session_source_key(&SessionSource::VSCode).expect("vscode key"),
        "vscode"
    );
    assert_eq!(
        canonical_session_source_key(&SessionSource::Cli).expect("cli key"),
        "cli"
    );
    assert_eq!(
        canonical_session_source_key(&SessionSource::Exec).expect("exec key"),
        "exec"
    );
}

#[test]
fn canonical_session_source_key_serializes_structured_sources_as_json() {
    let source = SessionSource::SubAgent(SubAgentSource::Other("guardian".to_string()));

    assert_eq!(
        canonical_session_source_key(&source).expect("subagent key"),
        r#"{"subagent":{"other":"guardian"}}"#
    );
}

#[test]
fn session_source_filter_keys_include_legacy_debug_values() {
    assert_eq!(
        session_source_filter_keys(&SessionSource::VSCode).expect("vscode filter keys"),
        vec!["vscode".to_string(), "VSCode".to_string()]
    );
}

#[test]
fn session_source_filter_keys_include_custom_display_fallback() {
    assert_eq!(
        session_source_filter_keys(&SessionSource::Custom("atlas".to_string()))
            .expect("custom filter keys"),
        vec![
            r#"{"custom":"atlas"}"#.to_string(),
            r#"Custom("atlas")"#.to_string(),
            "atlas".to_string(),
            r#"{"custom": "atlas"}"#.to_string(),
        ]
    );
}

#[test]
fn canonical_key_of_every_unit_source_is_its_name() {
    let cases = vec![
        (SessionSource::Mcp, "mcp"),
        (SessionSource::Unknown, "unknown"),
    ];
    for (source, expected) in cases {
        assert_eq!(canonical_session_source_key(&source).unwrap(), expected);
    }
}

#[test]
fn canonical_key_of_unit_sub_agent_wraps_its_name() {
    let source = SessionSource::SubAgent(SubAgentSource::MemoryConsolidation);
    assert_eq!(
        canonical_session_source_key(&source).unwrap(),
        r#"{"subagent":"memory_consolidation"}"#
    );
}

#[test]
fn canonical_key_escapes_quotes_in_custom_sources() {
    let source = SessionSource::Custom("a\"b".to_string());
    assert_eq!(
        canonical_session_source_key(&source).unwrap(),
        r#"{"custom":"a\"b"}"#
    );
}

#[test]
fn filter_keys_of_structured_sub_agent_list_all_legacy_forms() {
    let source = SessionSource::SubAgent(SubAgentSource::Other("guardian".to_string()));
    assert_eq!(
        session_source_filter_keys(&source).unwrap(),
        vec![
            r#"{"subagent":{"other":"guardian"}}"#.to_string(),
            r#"SubAgent(Other("guardian"))"#.to_string(),
            "subagent_guardian".to_string(),
            r#"{"subagent": {"other": "guardian"}}"#.to_string(),
        ]
    );
}

#[test]
fn filter_keys_start_with_the_canonical_key_and_hold_no_duplicates() {
    let sources = vec![
        SessionSource::Cli,
        SessionSource::Exec,
        SessionSource::Custom("x".to_string()),
        SessionSource::SubAgent(SubAgentSource::Review),
    ];
    for source in sources {
        let canonical = canonical_session_source_key(&source).unwrap();
        let keys = session_source_filter_keys(&source).unwrap();
        assert_eq!(keys[0], canonical);
        for i in 0..keys.len() {
            for j in (i + 1)..keys.len() {
                assert_ne!(keys[i], keys[j]);
            }
        }
    }
}

#[test]
fn push_unique_key_skips_present_keys() {
    let mut keys = vec!["a".to_string()];
    push_unique_key(&mut keys, "b".to_string());
    push_unique_key(&mut keys, "a".to_string());
    push_unique_key(&mut keys, "b".to_string());
    assert_eq!(keys, vec!["a".to_string(), "b".to_string()]);
}
