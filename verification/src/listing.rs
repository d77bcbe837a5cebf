use vstd::prelude::*;

use crate::cursor::cursor_text;
use crate::cursor::encode_offset_cursor;
use crate::error::ThreadId;
use crate::error::ThreadStoreError;
use crate::keys::filter_keys;
use crate::keys::lemma_filter_keys_cover_canonical_key;
use crate::keys::session_source_filter_keys;
use crate::keys::texts;
use crate::session_source::source_key;
use crate::session_source::SessionSource;
use crate::text::lowercase;
use crate::text::occurs_in;
use crate::text::text_contains;
use crate::text::unicode_lowercase;
use crate::thread::StoredThread;

verus! {

/// The time a listing orders threads by.
#[derive(Debug, Clone, Copy, PartialEq, Eq, Structural)]
pub enum ThreadSortKey {
    CreatedAt,
    UpdatedAt,
    RecencyAt,
}

/// The direction a listing orders threads in.
#[derive(Debug, Clone, Copy, PartialEq, Eq, Structural)]
pub enum SortDirection {
    Asc,
    Desc,
}

/// Restricts a listing to threads spawned from another thread.
#[derive(Debug)]
pub enum ThreadRelationFilter {
    /// Threads whose parent is this thread.
    DirectChildrenOf(ThreadId),
    /// Threads reached from this thread through spawn edges.
    DescendantsOf(ThreadId),
}

/// A request for one page of a workspace's threads.
#[derive(Debug)]
pub struct ListThreadsParams {
    pub page_size: usize,
    pub cursor: Option<String>,
    pub sort_key: ThreadSortKey,
    pub sort_direction: SortDirection,
    pub allowed_sources: Vec<SessionSource>,
    pub model_providers: Option<Vec<String>>,
    pub cwd_filters: Option<Vec<String>>,
    pub archived: bool,
    pub search_term: Option<String>,
    pub relation_filter: Option<ThreadRelationFilter>,
    pub use_state_db_only: bool,
}

/// The query that serves one page of a listing.
#[derive(Debug)]
pub struct ThreadListQuery {
    pub workspace_id: String,
    /// Archived threads are listed instead of live ones.
    pub archived: bool,
    /// The stored source keys a thread must have, when sources are filtered.
    pub source_keys: Option<Vec<String>>,
    /// The model providers a thread must use, when providers are filtered.
    pub model_providers: Option<Vec<String>>,
    /// The working directories a thread must have, when they are filtered.
    pub cwd_filters: Option<Vec<String>>,
    /// The case-insensitive `LIKE` pattern the preview, the title or an
    /// item must match, when a search term is given.
    pub search_pattern: Option<String>,
    pub relation_filter: Option<ThreadRelationFilter>,
    pub sort_column: &'static str,
    pub sort_direction: &'static str,
    /// How many threads the listing skips.
    pub offset: usize,
    /// How many threads the page holds at most.
    pub page_size: usize,
    /// The `OFFSET` of the query.
    pub sql_offset: i64,
    /// The `LIMIT` of the query: one more than the page, to tell whether
    /// another page follows.
    pub sql_limit: i64,
}

/// How a listing is served.
#[derive(Debug)]
pub enum ThreadListPlan {
    /// No thread can match: the empty page, without a cursor.
    Empty,
    /// Run this query.
    Query(ThreadListQuery),
}

/// The filter keys of each source in turn.
pub open spec fn flat_filter_keys(sources: Seq<SessionSource>) -> Seq<Seq<char>>
    decreases sources.len(),
{
    if sources.len() == 0 {
        Seq::empty()
    } else {
        flat_filter_keys(sources.subrange(0, sources.len() - 1)) + filter_keys(
            sources[sources.len() - 1],
        )
    }
}

/// The column a listing orders by.
pub open spec fn sort_column_text(key: ThreadSortKey) -> Seq<char> {
    match key {
        ThreadSortKey::CreatedAt => "created_at"@,
        ThreadSortKey::UpdatedAt => "updated_at"@,
        ThreadSortKey::RecencyAt => "recency_at"@,
    }
}

/// The SQL keyword of a sort direction.
pub open spec fn sort_direction_text(direction: SortDirection) -> Seq<char> {
    match direction {
        SortDirection::Asc => "ASC"@,
        SortDirection::Desc => "DESC"@,
    }
}

/// The pattern that matches any text containing the term.
pub open spec fn search_pattern(term: Seq<char>) -> Seq<char> {
    "%"@ + term + "%"@
}

/// The page size a listing uses: at least one.
pub open spec fn effective_page_size(requested: usize) -> usize {
    if requested == 0 {
        1
    } else {
        requested
    }
}

/// A list is given and holds an entry.
pub open spec fn has_entries(v: Option<Vec<String>>) -> bool {
    v matches Some(m) && m@.len() > 0
}

/// A text is given and is not empty.
pub open spec fn has_text(v: Option<String>) -> bool {
    v matches Some(t) && t@.len() > 0
}

/// The listing asks for a set of working directories that is empty.
pub open spec fn matches_nothing(params: ListThreadsParams) -> bool {
    params.cwd_filters matches Some(f) && f@.len() == 0
}

fn sort_column(key: ThreadSortKey) -> (r: &'static str)
    ensures
        r@ == sort_column_text(key),
{
    match key {
        ThreadSortKey::CreatedAt => "created_at",
        ThreadSortKey::UpdatedAt => "updated_at",
        ThreadSortKey::RecencyAt => "recency_at",
    }
}

fn sort_direction(direction: SortDirection) -> (r: &'static str)
    ensures
        r@ == sort_direction_text(direction),
{
    match direction {
        SortDirection::Asc => "ASC",
        SortDirection::Desc => "DESC",
    }
}

/// Every stored key that one of the allowed sources may have been recorded
/// under.
pub fn allowed_source_keys(sources: &Vec<SessionSource>) -> (r: Result<
    Vec<String>,
    ThreadStoreError,
>)
    ensures
        r matches Ok(keys) && texts(keys@) == flat_filter_keys(sources@),
{
    let mut all: Vec<String> = Vec::new();
    let n = sources.len();
    let mut i: usize = 0;
    assert(texts(all@) =~= flat_filter_keys(sources@.subrange(0, 0)));
    while i < n
        invariant
            n == sources@.len(),
            i <= n,
            texts(all@) == flat_filter_keys(sources@.subrange(0, i as int)),
        decreases n - i,
    {
        let mut keys = session_source_filter_keys(&sources[i])?;
        let ghost before = all@;
        let ghost added = keys@;
        all.append(&mut keys);
        proof {
            let cur = sources@.subrange(0, i + 1);
            assert(cur.subrange(0, cur.len() - 1) =~= sources@.subrange(0, i as int));
            assert(cur[cur.len() - 1] == sources@[i as int]);
            assert(texts(all@) =~= texts(before) + texts(added));
        }
        i = i + 1;
    }
    assert(sources@.subrange(0, n as int) =~= sources@);
    Ok(all)
}

/// How to serve a listing of `workspace_id`'s threads that starts after
/// `offset` threads.
pub fn plan_thread_list(params: ListThreadsParams, workspace_id: String, offset: usize) -> (r:
    Result<ThreadListPlan, ThreadStoreError>)
    requires
        !matches_nothing(params) ==> params.page_size < usize::MAX,
    ensures
        matches_nothing(params) ==> r matches Ok(ThreadListPlan::Empty),
        !matches_nothing(params) ==> r matches Ok(ThreadListPlan::Query(_)),
        r matches Ok(ThreadListPlan::Query(q)) ==> {
            &&& !matches_nothing(params)
            &&& q.workspace_id == workspace_id
            &&& q.archived == params.archived
            &&& (params.allowed_sources@.len() == 0 ==> q.source_keys is None)
            &&& (params.allowed_sources@.len() > 0 ==> (q.source_keys matches Some(keys)
                && texts(keys@) == flat_filter_keys(params.allowed_sources@)))
            &&& (has_entries(params.model_providers) ==> q.model_providers
                == params.model_providers)
            &&& (!has_entries(params.model_providers) ==> q.model_providers is None)
            &&& q.cwd_filters == params.cwd_filters
            &&& (has_text(params.search_term) ==> (q.search_pattern matches Some(p) && p@
                == search_pattern(params.search_term->Some_0@)))
            &&& (!has_text(params.search_term) ==> q.search_pattern is None)
            &&& q.relation_filter == params.relation_filter
            &&& q.sort_column@ == sort_column_text(params.sort_key)
            &&& q.sort_direction@ == sort_direction_text(params.sort_direction)
            &&& q.offset == offset
            &&& q.page_size == effective_page_size(params.page_size)
            &&& q.sql_offset == offset as i64
            &&& q.sql_limit == (effective_page_size(params.page_size) + 1) as i64
        },
{
    let empty_cwd_filter = match &params.cwd_filters {
        Some(filters) => filters.len() == 0,
        None => false,
    };
    if empty_cwd_filter {
        return Ok(ThreadListPlan::Empty);
    }
    let page_size = if params.page_size == 0 {
        1
    } else {
        params.page_size
    };
    let source_keys = if params.allowed_sources.len() == 0 {
        None
    } else {
        Some(allowed_source_keys(&params.allowed_sources)?)
    };
    let model_providers = match params.model_providers {
        Some(providers) => {
            if providers.len() == 0 {
                None
            } else {
                Some(providers)
            }
        },
        None => None,
    };
    let search_pattern = match params.search_term {
        Some(term) => {
            if term.unicode_len() == 0 {
                None
            } else {
                let mut pattern = String::from_str("%");
                pattern.append(term.as_str());
                pattern.append("%");
                Some(pattern)
            }
        },
        None => None,
    };
    Ok(
        ThreadListPlan::Query(
            ThreadListQuery {
                workspace_id,
                archived: params.archived,
                source_keys,
                model_providers,
                cwd_filters: params.cwd_filters,
                search_pattern,
                relation_filter: params.relation_filter,
                sort_column: sort_column(params.sort_key),
                sort_direction: sort_direction(params.sort_direction),
                offset,
                page_size,
                sql_offset: offset as i64,
                sql_limit: (page_size + 1) as i64,
            },
        ),
    )
}

/// The threads of a page made of `rows`: all of them, or the first
/// `page_size` when the query found more.
pub open spec fn page_items<T>(rows: Seq<T>, page_size: nat) -> Seq<T> {
    if rows.len() <= page_size {
        rows
    } else {
        rows.subrange(0, page_size as int)
    }
}

/// The rows a listing query (`OFFSET offset LIMIT page_size + 1`) returns
/// from the matching threads in their sort order.
pub open spec fn query_rows<T>(matching: Seq<T>, offset: nat, page_size: nat) -> Seq<T> {
    let start = if offset < matching.len() {
        offset
    } else {
        matching.len()
    };
    let end = if offset + page_size + 1 < matching.len() {
        offset + page_size + 1
    } else {
        matching.len()
    };
    matching.subrange(start as int, end as int)
}

/// The threads handed out by listing from `offset` and following each
/// page's cursor, which resumes `page_size` threads further on, until a page
/// comes without one.
pub open spec fn chained_items<T>(matching: Seq<T>, offset: nat, page_size: nat) -> Seq<T>
    decreases matching.len() - offset,
    when page_size > 0
{
    let rows = query_rows(matching, offset, page_size);
    if rows.len() > page_size {
        page_items(rows, page_size) + chained_items(matching, offset + page_size, page_size)
    } else {
        page_items(rows, page_size)
    }
}

/// Following cursors from the first page hands out every matching thread
/// exactly once and in order; every page but the last is full.
pub proof fn lemma_chained_pages_cover_matching<T>(matching: Seq<T>, offset: nat, page_size: nat)
    requires
        page_size > 0,
        offset <= matching.len(),
    ensures
        chained_items(matching, offset, page_size) == matching.subrange(
            offset as int,
            matching.len() as int,
        ),
        query_rows(matching, offset, page_size).len() > page_size ==> page_items(
            query_rows(matching, offset, page_size),
            page_size,
        ).len() == page_size,
    decreases matching.len() - offset,
{
    let rows = query_rows(matching, offset, page_size);
    if rows.len() > page_size {
        lemma_chained_pages_cover_matching(matching, offset + page_size, page_size);
        assert(page_items(rows, page_size) =~= matching.subrange(
            offset as int,
            (offset + page_size) as int,
        ));
        assert(chained_items(matching, offset, page_size) =~= matching.subrange(
            offset as int,
            matching.len() as int,
        ));
    } else {
        assert(chained_items(matching, offset, page_size) =~= matching.subrange(
            offset as int,
            matching.len() as int,
        ));
    }
}

/// One page of a listing.
#[derive(Debug)]
pub struct ThreadPage<T> {
    pub items: Vec<T>,
    pub next_cursor: Option<String>,
}

/// The page made of the rows a listing query returned: at most
/// `page_size` of them, with a cursor past them when the query found more.
pub fn page_from_rows<T>(rows: Vec<T>, offset: usize, page_size: usize) -> (r: Result<
    ThreadPage<T>,
    ThreadStoreError,
>)
    requires
        rows@.len() > page_size ==> offset + page_size <= usize::MAX,
    ensures
        r matches Ok(page) && {
            &&& page.items@ == page_items(rows@, page_size as nat)
            &&& (page.next_cursor is Some <==> rows@.len() > page_size)
            &&& rows@.len() <= page_size ==> page.items@ == rows@ && page.next_cursor is None
            &&& rows@.len() > page_size ==> page.items@ == rows@.subrange(0, page_size as int)
                && (page.next_cursor matches Some(c) && c@ == cursor_text(
                (offset + page_size) as nat,
            ))
        },
{
    let has_next_page = rows.len() > page_size;
    let mut items = rows;
    if has_next_page {
        items.truncate(page_size);
        let cursor = encode_offset_cursor(offset + page_size)?;
        Ok(ThreadPage { items, next_cursor: Some(cursor) })
    } else {
        Ok(ThreadPage { items, next_cursor: None })
    }
}

/// A request to search a workspace's threads.
#[derive(Debug)]
pub struct SearchThreadsParams {
    pub page_size: usize,
    pub cursor: Option<String>,
    pub sort_key: ThreadSortKey,
    pub sort_direction: SortDirection,
    pub allowed_sources: Vec<SessionSource>,
    pub archived: bool,
    pub search_term: String,
}

/// The message refusing a search without a term.
pub open spec fn missing_search_term_message() -> Seq<char> {
    "thread/search requires search_term"@
}

/// The listing a search runs: its page, order, sources and archive state,
/// with the search term and no other filter; refused when the term is empty.
pub fn search_list_params(params: SearchThreadsParams) -> (r: Result<
    ListThreadsParams,
    ThreadStoreError,
>)
    ensures
        params.search_term@.len() == 0 ==> (r matches Err(
            ThreadStoreError::InvalidRequest { message },
        ) && message@ == missing_search_term_message()),
        params.search_term@.len() > 0 ==> (r matches Ok(l) && {
            &&& l.page_size == params.page_size
            &&& l.cursor == params.cursor
            &&& l.sort_key == params.sort_key
            &&& l.sort_direction == params.sort_direction
            &&& l.allowed_sources == params.allowed_sources
            &&& l.model_providers is None
            &&& l.cwd_filters is None
            &&& l.archived == params.archived
            &&& l.search_term == Some(params.search_term)
            &&& l.relation_filter is None
            &&& l.use_state_db_only
        }),
{
    if params.search_term.unicode_len() == 0 {
        return Err(
            ThreadStoreError::InvalidRequest {
                message: String::from_str("thread/search requires search_term"),
            },
        );
    }
    Ok(
        ListThreadsParams {
            page_size: params.page_size,
            cursor: params.cursor,
            sort_key: params.sort_key,
            sort_direction: params.sort_direction,
            allowed_sources: params.allowed_sources,
            model_providers: None,
            cwd_filters: None,
            archived: params.archived,
            search_term: Some(params.search_term),
            relation_filter: None,
            use_state_db_only: true,
        },
    )
}

/// A thread found by a search, with the text shown for it.
#[derive(Debug)]
pub struct StoredThreadSearchResult {
    pub thread: StoredThread,
    pub snippet: String,
}

/// The thread's preview or name holds the needle, ignoring case.
pub open spec fn search_hit(needle: Seq<char>, t: StoredThread) -> bool {
    ||| occurs_in(unicode_lowercase(t.preview@), needle)
    ||| (t.name matches Some(n) && occurs_in(unicode_lowercase(n@), needle))
}

/// The threads that the search keeps, in order.
pub open spec fn search_hits(needle: Seq<char>, threads: Seq<StoredThread>) -> Seq<StoredThread>
    decreases threads.len(),
{
    if threads.len() == 0 {
        Seq::empty()
    } else {
        let rest = search_hits(needle, threads.subrange(0, threads.len() - 1));
        if search_hit(needle, threads[threads.len() - 1]) {
            rest.push(threads[threads.len() - 1])
        } else {
            rest
        }
    }
}

fn is_search_hit(needle: &str, t: &StoredThread) -> (r: bool)
    ensures
        r == search_hit(needle@, *t),
        occurs_in(unicode_lowercase(t.preview@), needle@) ==> r,
        (t.name is Some && occurs_in(unicode_lowercase(t.name->0@), needle@)) ==> r,
        r ==> (occurs_in(unicode_lowercase(t.preview@), needle@) || (t.name is Some && occurs_in(
            unicode_lowercase(t.name->0@),
            needle@,
        ))),
{
    let preview = lowercase(t.preview.as_str());
    if text_contains(preview.as_str(), needle) {
        return true;
    }
    match &t.name {
        Some(name) => {
            let name = lowercase(name.as_str());
            text_contains(name.as_str(), needle)
        },
        None => false,
    }
}

/// The threads of a page whose preview or name contains the search term,
/// ignoring case, each with its preview as the snippet.
pub fn select_search_results(term: &str, threads: Vec<StoredThread>) -> (r: Vec<
    StoredThreadSearchResult,
>)
    ensures
        r@.len() == search_hits(unicode_lowercase(term@), threads@).len(),
        forall|i: int|
            0 <= i < r@.len() ==> #[trigger] r@[i].thread == search_hits(
                unicode_lowercase(term@),
                threads@,
            )[i] && r@[i].snippet@ == r@[i].thread.preview@,
        forall|i: int|
            0 <= i < r@.len() ==> occurs_in(
                unicode_lowercase(#[trigger] r@[i].thread.preview@),
                unicode_lowercase(term@),
            ) || (r@[i].thread.name is Some && occurs_in(
                unicode_lowercase(r@[i].thread.name->0@),
                unicode_lowercase(term@),
            )),
        forall|k: int|
            0 <= k < threads@.len() && (occurs_in(
                unicode_lowercase(#[trigger] threads@[k].preview@),
                unicode_lowercase(term@),
            ) || (threads@[k].name is Some && occurs_in(
                unicode_lowercase(threads@[k].name->0@),
                unicode_lowercase(term@),
            ))) ==> exists|i: int| 0 <= i < r@.len() && #[trigger] r@[i].thread == threads@[k],
{
    let needle = lowercase(term);
    let ghost all = threads@;
    let total = threads.len();
    let ghost n = threads@.len();
    let mut rest = threads;
    let mut results: Vec<StoredThreadSearchResult> = Vec::new();
    let mut taken: usize = 0;
    assert(all.subrange(0, 0) =~= Seq::<StoredThread>::empty());
    while rest.len() > 0
        invariant
            n == all.len(),
            n == total,
            taken + rest@.len() == n,
            rest@ == all.subrange(taken as int, n as int),
            results@.len() == search_hits(needle@, all.subrange(0, taken as int)).len(),
            forall|i: int|
                0 <= i < results@.len() ==> #[trigger] results@[i].thread == search_hits(
                    needle@,
                    all.subrange(0, taken as int),
                )[i] && results@[i].snippet@ == results@[i].thread.preview@,
        decreases rest@.len(),
    {
        let t = rest.remove(0);
        let ghost prefix = all.subrange(0, taken as int);
        let ghost cur = all.subrange(0, taken + 1);
        proof {
            assert(t == all[taken as int]);
            assert(cur.subrange(0, cur.len() - 1) =~= prefix);
            assert(cur[cur.len() - 1] == t);
        }
        if is_search_hit(needle.as_str(), &t) {
            let snippet = t.preview.clone();
            results.push(StoredThreadSearchResult { thread: t, snippet });
        }
        taken = taken + 1;
        assert(rest@ =~= all.subrange(taken as int, n as int));
    }
    assert(all.subrange(0, n as int) =~= all);
    proof {
        lemma_search_hits_are_the_matching_threads(needle@, all);
        let hits = search_hits(needle@, all);
        assert forall|i: int| 0 <= i < results@.len() implies occurs_in(
            unicode_lowercase(#[trigger] results@[i].thread.preview@),
            needle@,
        ) || (results@[i].thread.name is Some && occurs_in(
            unicode_lowercase(results@[i].thread.name->0@),
            needle@,
        )) by {
            assert(search_hit(needle@, hits[i]));
        }
        assert forall|k: int|
            0 <= k < all.len() && (occurs_in(
                unicode_lowercase(#[trigger] all[k].preview@),
                needle@,
            ) || (all[k].name is Some && occurs_in(
                unicode_lowercase(all[k].name->0@),
                needle@,
            ))) implies exists|i: int| 0 <= i < results@.len() && #[trigger] results@[i].thread
            == all[k] by {
            lemma_hit_is_kept(needle@, all, k);
            let i = choose|i: int| 0 <= i < hits.len() && hits[i] == all[k];
            assert(results@[i].thread == all[k]);
        }
    }
    results
}


/// A listing that allows a set of sources matches every thread recorded
/// under the canonical key of one of them: the keys it filters by hold each
/// allowed source's canonical key.
pub proof fn lemma_allowed_keys_cover_sources(sources: Seq<SessionSource>)
    ensures
        forall|i: int|
            0 <= i < sources.len() ==> flat_filter_keys(sources).contains(
                source_key(#[trigger] sources[i]),
            ),
    decreases sources.len(),
{
    if sources.len() > 0 {
        let init = sources.subrange(0, sources.len() - 1);
        let last = sources[sources.len() - 1];
        lemma_allowed_keys_cover_sources(init);
        lemma_filter_keys_cover_canonical_key(last);
        let flat = flat_filter_keys(sources);
        let head = flat_filter_keys(init);
        assert(flat == head + filter_keys(last));
        assert forall|i: int| 0 <= i < sources.len() implies flat.contains(
            source_key(#[trigger] sources[i]),
        ) by {
            if i < sources.len() - 1 {
                assert(init[i] == sources[i]);
                let k = choose|k: int| 0 <= k < head.len() && head[k] == source_key(init[i]);
                assert(flat[k] == head[k]);
            } else {
                let k = choose|k: int|
                    0 <= k < filter_keys(last).len() && filter_keys(last)[k] == source_key(last);
                assert(flat[head.len() + k] == filter_keys(last)[k]);
            }
        }
    }
}


/// A thread is a search hit exactly when its lower-cased preview holds the
/// needle or it has a name whose lower-cased text holds it: a preview match
/// counts whatever the thread is named.
pub proof fn lemma_search_hit_is_preview_or_name_match(needle: Seq<char>, t: StoredThread)
    ensures
        occurs_in(unicode_lowercase(t.preview@), needle) ==> search_hit(needle, t),
        (t.name is Some && occurs_in(unicode_lowercase(t.name->0@), needle)) ==> search_hit(
            needle,
            t,
        ),
        search_hit(needle, t) ==> (occurs_in(unicode_lowercase(t.preview@), needle) || (
        t.name is Some && occurs_in(unicode_lowercase(t.name->0@), needle))),
{
}

/// Every thread that is a hit is among the search's results.
pub proof fn lemma_hit_is_kept(needle: Seq<char>, threads: Seq<StoredThread>, k: int)
    requires
        0 <= k < threads.len(),
        search_hit(needle, threads[k]),
    ensures
        exists|i: int|
            0 <= i < search_hits(needle, threads).len() && #[trigger] search_hits(
                needle,
                threads,
            )[i] == threads[k],
    decreases threads.len(),
{
    let init = threads.subrange(0, threads.len() - 1);
    let rest = search_hits(needle, init);
    let hits = search_hits(needle, threads);
    if k == threads.len() - 1 {
        assert(hits[rest.len() as int] == threads[k]);
    } else {
        assert(init[k] == threads[k]);
        lemma_hit_is_kept(needle, init, k);
        let i = choose|i: int| 0 <= i < rest.len() && rest[i] == init[k];
        assert(hits[i] == rest[i]);
    }
}

/// A search keeps only threads that hold the term, keeps every such thread,
/// and keeps their order: its results are the matching threads of the page.
pub proof fn lemma_search_hits_are_the_matching_threads(needle: Seq<char>, threads: Seq<StoredThread>)
    ensures
        search_hits(needle, threads).len() <= threads.len(),
        forall|i: int|
            0 <= i < search_hits(needle, threads).len() ==> search_hit(
                needle,
                #[trigger] search_hits(needle, threads)[i],
            ),
        (forall|i: int| 0 <= i < threads.len() ==> search_hit(needle, #[trigger] threads[i]))
            ==> search_hits(needle, threads) == threads,
        (forall|i: int| 0 <= i < threads.len() ==> !search_hit(needle, #[trigger] threads[i]))
            ==> search_hits(needle, threads).len() == 0,
    decreases threads.len(),
{
    if threads.len() > 0 {
        let init = threads.subrange(0, threads.len() - 1);
        lemma_search_hits_are_the_matching_threads(needle, init);
        let rest = search_hits(needle, init);
        let hits = search_hits(needle, threads);
        assert forall|i: int| 0 <= i < hits.len() implies search_hit(
            needle,
            #[trigger] hits[i],
        ) by {
            if i < rest.len() {
                assert(hits[i] == rest[i]);
            }
        }
        if forall|i: int| 0 <= i < threads.len() ==> search_hit(needle, #[trigger] threads[i]) {
            assert forall|i: int| 0 <= i < init.len() implies search_hit(
                needle,
                #[trigger] init[i],
            ) by {
                assert(init[i] == threads[i]);
            }
            assert(search_hit(needle, threads[threads.len() - 1]));
            assert(hits =~= threads);
        }
        if forall|i: int| 0 <= i < threads.len() ==> !search_hit(needle, #[trigger] threads[i]) {
            assert forall|i: int| 0 <= i < init.len() implies !search_hit(
                needle,
                #[trigger] init[i],
            ) by {
                assert(init[i] == threads[i]);
            }
            assert(!search_hit(needle, threads[threads.len() - 1]));
        }
    }
}

} // verus!
