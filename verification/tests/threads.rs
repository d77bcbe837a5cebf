use postgres_thread_store::error::ThreadId;
use postgres_thread_store::error::ThreadStoreError;
use postgres_thread_store::listing::page_from_rows;
use postgres_thread_store::listing::plan_thread_list;
use postgres_thread_store::listing::search_list_params;
use postgres_thread_store::listing::select_search_results;
use postgres_thread_store::listing::ListThreadsParams;
use postgres_thread_store::listing::SearchThreadsParams;
use postgres_thread_store::listing::SortDirection;
use postgres_thread_store::listing::ThreadListPlan;
use postgres_thread_store::listing::ThreadSortKey;
use postgres_thread_store::session_source::SessionSource;
use postgres_thread_store::thread::apply_metadata_patch;
use postgres_thread_store::thread::mark_appended;
use postgres_thread_store::thread::mark_archived;
use postgres_thread_store::thread::mark_unarchived;
use postgres_thread_store::thread::new_stored_thread;
use postgres_thread_store::thread::prepare_metadata_update;
use postgres_thread_store::thread::thread_row_keys;
use postgres_thread_store::thread::AskForApproval;
use postgres_thread_store::thread::CreateThreadParams;
use postgres_thread_store::thread::GitInfoPatch;
use postgres_thread_store::thread::PermissionProfile;
use postgres_thread_store::thread::StoredThread;
use postgres_thread_store::thread::ThreadMetadataParams;
use postgres_thread_store::thread::ThreadMetadataPatch;
use postgres_thread_store::thread::ThreadSource;
use postgres_thread_store::thread::Timestamp;

fn at(seconds: i64) -> Timestamp {
    Timestamp { seconds, nanos: 0 }
}

fn thread(id: &str, preview: &str, name: Option<&str>) -> StoredThread {
    let mut t = new_stored_thread(
        CreateThreadParams {
            thread_id: ThreadId::new(id.to_string()),
            extra_config: None,
            session_id: "session".to_string(),
            forked_from_id: None,
            parent_thread_id: None,
            source: SessionSource::Cli,
            history_mode: "Full".to_string(),
            thread_source: Some(ThreadSource { name: "user".to_string() }),
            metadata: ThreadMetadataParams { model_provider: "openai".to_string(), cwd: None },
        },
        at(100),
    );
    t.preview = preview.to_string();
    t.name = name.map(|n| n.to_string());
    t
}

fn list_params() -> ListThreadsParams {
    ListThreadsParams {
        page_size: 0,
        cursor: None,
        sort_key: ThreadSortKey::UpdatedAt,
        sort_direction: SortDirection::Desc,
        allowed_sources: vec![],
        model_providers: Some(vec![]),
        cwd_filters: None,
        archived: false,
        search_term: Some(String::new()),
        relation_filter: None,
        use_state_db_only: false,
    }
}

#[test]
fn new_threads_start_empty_at_creation_time() {
    let t = thread("t1", "", None);
    assert_eq!(t.created_at, at(100));
    assert_eq!(t.updated_at, at(100));
    assert_eq!(t.recency_at, at(100));
    assert_eq!(t.cwd, "");
    assert_eq!(t.cli_version, "");
    assert_eq!(t.approval_mode, AskForApproval::OnRequest);
    assert_eq!(t.permission_profile, PermissionProfile::ReadOnly);
    assert!(t.archived_at.is_none());
}

#[test]
fn metadata_patch_sets_clears_and_keeps_fields() {
    let mut t = thread("t1", "hello", Some("old name"));
    let mut patch = ThreadMetadataPatch::empty();
    patch.name = Some(None);
    patch.model = Some("gpt".to_string());
    patch.advance_recency_at = Some(at(50));
    patch.git_info = Some(GitInfoPatch { sha: Some(Some("abc".to_string())), branch: None, origin_url: Some(None) });
    apply_metadata_patch(&mut t, patch);
    assert_eq!(t.name, None);
    assert_eq!(t.model, Some("gpt".to_string()));
    assert_eq!(t.preview, "hello");
    assert_eq!(t.recency_at, at(100));
    let git = t.git_info.as_ref().unwrap();
    assert_eq!(git.commit_hash, Some("abc".to_string()));
    assert_eq!(git.branch, None);
    assert_eq!(git.repository_url, None);

    let mut later = ThreadMetadataPatch::empty();
    later.advance_recency_at = Some(at(200));
    apply_metadata_patch(&mut t, later);
    assert_eq!(t.recency_at, at(200));
}

#[test]
fn empty_patch_changes_nothing() {
    let mut t = thread("t1", "hello", Some("n"));
    apply_metadata_patch(&mut t, ThreadMetadataPatch::empty());
    assert_eq!(t.preview, "hello");
    assert_eq!(t.name, Some("n".to_string()));
    assert_eq!(t.recency_at, at(100));
}

#[test]
fn metadata_update_of_archived_thread_needs_include_archived() {
    let id = ThreadId::new("t9".to_string());
    let mut t = thread("t9", "p", None);
    mark_archived(&mut t, at(300));
    match prepare_metadata_update(&id, t, ThreadMetadataPatch::empty(), false) {
        Err(ThreadStoreError::InvalidRequest { message }) => {
            assert_eq!(message, "thread t9 is archived")
        }
        other => panic!("unexpected: {other:?}"),
    }
    let mut t = thread("t9", "p", None);
    mark_archived(&mut t, at(300));
    let (updated, keys) = prepare_metadata_update(&id, t, ThreadMetadataPatch::empty(), true).unwrap();
    assert_eq!(updated.archived_at, Some(at(300)));
    assert_eq!(keys.source_key, "cli");
    assert_eq!(keys.thread_source_key, Some("user".to_string()));
}

#[test]
fn archive_unarchive_and_append_move_timestamps() {
    let mut t = thread("t1", "", None);
    mark_archived(&mut t, at(300));
    assert_eq!(t.archived_at, Some(at(300)));
    mark_unarchived(&mut t, at(400));
    assert_eq!(t.archived_at, None);
    assert_eq!(t.updated_at, at(400));
    mark_appended(&mut t, at(500));
    assert_eq!(t.updated_at, at(500));
    assert_eq!(t.recency_at, at(500));
    let keys = thread_row_keys(&t).unwrap();
    assert_eq!(keys.source_key, "cli");
}

#[test]
fn listing_with_empty_cwd_filter_is_empty() {
    let mut params = list_params();
    params.cwd_filters = Some(vec![]);
    assert!(matches!(plan_thread_list(params, "w".to_string(), 0).unwrap(), ThreadListPlan::Empty));
}

#[test]
fn listing_plan_drops_empty_filters_and_clamps_the_page() {
    let plan = plan_thread_list(list_params(), "w".to_string(), 40).unwrap();
    match plan {
        ThreadListPlan::Query(q) => {
            assert_eq!(q.workspace_id, "w");
            assert!(q.source_keys.is_none());
            assert!(q.model_providers.is_none());
            assert!(q.search_pattern.is_none());
            assert_eq!(q.sort_column, "updated_at");
            assert_eq!(q.sort_direction, "DESC");
            assert_eq!(q.page_size, 1);
            assert_eq!(q.sql_limit, 2);
            assert_eq!(q.sql_offset, 40);
        }
        ThreadListPlan::Empty => panic!("expected a query"),
    }
}

#[test]
fn listing_plan_filters_by_every_legacy_source_key_and_search_pattern() {
    let mut params = list_params();
    params.page_size = 25;
    params.allowed_sources = vec![SessionSource::VSCode, SessionSource::Custom("atlas".to_string())];
    params.model_providers = Some(vec!["openai".to_string()]);
    params.search_term = Some("needle".to_string());
    params.sort_key = ThreadSortKey::RecencyAt;
    params.sort_direction = SortDirection::Asc;
    match plan_thread_list(params, "w".to_string(), 0).unwrap() {
        ThreadListPlan::Query(q) => {
            assert_eq!(
                q.source_keys.unwrap(),
                vec![
                    "vscode".to_string(),
                    "VSCode".to_string(),
                    r#"{"custom":"atlas"}"#.to_string(),
                    r#"Custom("atlas")"#.to_string(),
                    "atlas".to_string(),
                    r#"{"custom": "atlas"}"#.to_string(),
                ]
            );
            assert_eq!(q.model_providers, Some(vec!["openai".to_string()]));
            assert_eq!(q.search_pattern, Some("%needle%".to_string()));
            assert_eq!(q.sort_column, "recency_at");
            assert_eq!(q.sort_direction, "ASC");
            assert_eq!(q.sql_limit, 26);
        }
        ThreadListPlan::Empty => panic!("expected a query"),
    }
}

#[test]
fn a_page_takes_at_most_page_size_rows_and_points_past_them() {
    let page = page_from_rows(vec![1, 2, 3], 10, 2).unwrap();
    assert_eq!(page.items, vec![1, 2]);
    assert_eq!(page.next_cursor, Some(r#"{"offset":12}"#.to_string()));
    let last = page_from_rows(vec![1, 2], 10, 2).unwrap();
    assert_eq!(last.items, vec![1, 2]);
    assert_eq!(last.next_cursor, None);
}

#[test]
fn following_cursors_hands_out_each_matching_thread_once() {
    let matching: Vec<u32> = (1..=7).collect();
    let page_size: usize = 3;
    let mut offset: usize = 0;
    let mut seen: Vec<u32> = Vec::new();
    let mut pages = 0;
    loop {
        let end = (offset + page_size + 1).min(matching.len());
        let rows = matching[offset.min(matching.len())..end].to_vec();
        let page = page_from_rows(rows, offset, page_size).unwrap();
        pages += 1;
        match page.next_cursor {
            Some(cursor) => {
                assert_eq!(page.items.len(), page_size);
                seen.extend(page.items);
                offset = cursor
                    .trim_start_matches("{\"offset\":")
                    .trim_end_matches('}')
                    .parse()
                    .unwrap();
            }
            None => {
                seen.extend(page.items);
                break;
            }
        }
    }
    assert_eq!(pages, 3);
    assert_eq!(seen, matching);
}

#[test]
fn search_requires_a_term() {
    let params = SearchThreadsParams {
        page_size: 10,
        cursor: None,
        sort_key: ThreadSortKey::CreatedAt,
        sort_direction: SortDirection::Desc,
        allowed_sources: vec![],
        archived: false,
        search_term: String::new(),
    };
    match search_list_params(params) {
        Err(ThreadStoreError::InvalidRequest { message }) => {
            assert_eq!(message, "thread/search requires search_term")
        }
        other => panic!("unexpected: {other:?}"),
    }
}

#[test]
fn search_lists_with_the_term_only() {
    let params = SearchThreadsParams {
        page_size: 10,
        cursor: Some("c".to_string()),
        sort_key: ThreadSortKey::CreatedAt,
        sort_direction: SortDirection::Desc,
        allowed_sources: vec![SessionSource::Cli],
        archived: true,
        search_term: "Fix".to_string(),
    };
    let list = search_list_params(params).unwrap();
    assert_eq!(list.search_term, Some("Fix".to_string()));
    assert_eq!(list.cursor, Some("c".to_string()));
    assert!(list.archived);
    assert!(list.model_providers.is_none());
    assert!(list.cwd_filters.is_none());
    assert!(list.use_state_db_only);
}

#[test]
fn search_keeps_threads_whose_preview_or_name_contains_the_term() {
    let threads = vec![
        thread("a", "Fix the Parser", None),
        thread("b", "unrelated", Some("PARSER work")),
        thread("c", "nothing", Some("else")),
        thread("d", "nothing", None),
    ];
    let results = select_search_results("parser", threads);
    let ids: Vec<&str> = results.iter().map(|r| r.thread.thread_id.text.as_str()).collect();
    assert_eq!(ids, vec!["a", "b"]);
    assert_eq!(results[0].snippet, "Fix the Parser");
    assert_eq!(results[1].snippet, "unrelated");
}

#[test]
fn listing_with_empty_cwd_filter_is_empty_for_any_page_size() {
    let mut params = list_params();
    params.cwd_filters = Some(vec![]);
    params.page_size = usize::MAX;
    assert!(matches!(plan_thread_list(params, "w".to_string(), 0).unwrap(), ThreadListPlan::Empty));
}
