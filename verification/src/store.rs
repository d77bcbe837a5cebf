use vstd::prelude::*;

use crate::error::ThreadId;
use crate::error::ThreadStoreError;
use crate::text::is_blank;
use crate::text::text_is_blank;

verus! {

/// The environment variable that holds the database URL by default.
pub const DEFAULT_DATABASE_URL_ENV: &'static str = "CODEX_REMOTE_SQL_URL";

/// The workspace that threads are stored under by default.
pub const DEFAULT_WORKSPACE_ID: &'static str = "default";

/// The environment variable that holds the Redis URL by default.
pub const DEFAULT_REDIS_URL_ENV: &'static str = "CODEX_REDIS_URL";

/// How a store finds its database and which workspace it serves.
#[derive(Debug, Clone)]
pub struct PostgresThreadStoreConfig {
    pub database_url_env: String,
    pub default_workspace_id: String,
    pub redis_url_env: Option<String>,
}

impl Default for PostgresThreadStoreConfig {
    fn default() -> (c: Self)
        ensures
            c.database_url_env@ == DEFAULT_DATABASE_URL_ENV@,
            c.default_workspace_id@ == DEFAULT_WORKSPACE_ID@,
            c.redis_url_env matches Some(r) && r@ == DEFAULT_REDIS_URL_ENV@,
    {
        PostgresThreadStoreConfig {
            database_url_env: String::from_str(DEFAULT_DATABASE_URL_ENV),
            default_workspace_id: String::from_str(DEFAULT_WORKSPACE_ID),
            redis_url_env: Some(String::from_str(DEFAULT_REDIS_URL_ENV)),
        }
    }
}

/// Two configurations hold the same values.
pub open spec fn same_config(a: PostgresThreadStoreConfig, b: PostgresThreadStoreConfig) -> bool {
    &&& a.database_url_env@ == b.database_url_env@
    &&& a.default_workspace_id@ == b.default_workspace_id@
    &&& match (a.redis_url_env, b.redis_url_env) {
        (Some(x), Some(y)) => x@ == y@,
        (None, None) => true,
        _ => false,
    }
}

impl PartialEq for PostgresThreadStoreConfig {
    fn eq(&self, other: &Self) -> (r: bool) {
        let same_redis = match (&self.redis_url_env, &other.redis_url_env) {
            (Some(x), Some(y)) => *x == *y,
            (None, None) => true,
            _ => false,
        };
        self.database_url_env == other.database_url_env && self.default_workspace_id
            == other.default_workspace_id && same_redis
    }
}

impl Eq for PostgresThreadStoreConfig {

}

impl vstd::std_specs::cmp::PartialEqSpecImpl for PostgresThreadStoreConfig {
    open spec fn obeys_eq_spec() -> bool {
        true
    }

    open spec fn eq_spec(&self, other: &Self) -> bool {
        same_config(*self, *other)
    }
}

#[verifier::external_type_specification]
#[verifier::external_body]
pub struct ExPgConnectOptions(sqlx::postgres::PgConnectOptions);

#[verifier::external_type_specification]
#[verifier::external_body]
pub struct ExSqlxError(sqlx::Error);

/// Whether `PgConnectOptions::from_str` accepts a database URL.
pub uninterp spec fn pg_url_accepted(url: Seq<char>) -> bool;

/// The `Display` text of the error with which `PgConnectOptions::from_str`
/// refuses a database URL.
pub uninterp spec fn pg_url_error(url: Seq<char>) -> Seq<char>;

/// Parses a database URL with `PgConnectOptions::from_str`. Claimed:
/// whether the parse succeeds, and the text of its error, depend on the URL
/// alone (the `PG*` environment variables and the password file it also
/// reads only shape the options it returns). Nothing is claimed of the
/// options themselves.
#[verifier::external_body]
fn parse_connect_options(url: &str) -> (r: Result<sqlx::postgres::PgConnectOptions, sqlx::Error>)
    ensures
        r is Ok <==> pg_url_accepted(url@),
        r matches Err(e) ==> forall|m: String|
            #[trigger] vstd::string::to_string_from_display_ensures::<sqlx::Error>(&e, m) ==> m@
                == pg_url_error(url@),
{
    <sqlx::postgres::PgConnectOptions as std::str::FromStr>::from_str(url)
}

/// What a store is set up to do once its configuration has been read.
pub enum StorePlan {
    /// Connect with these options and serve this workspace.
    Connect {
        options: sqlx::postgres::PgConnectOptions,
        workspace_id: String,
        redis_url_env: Option<String>,
    },
    /// Refuse every request with this message.
    Unconfigured { message: String },
}

/// The message of a store whose database URL is not set.
pub open spec fn missing_url_message(env: Seq<char>) -> Seq<char> {
    "remote SQL thread store requires $"@ + env
}

/// The message of a store whose database URL does not parse.
pub open spec fn invalid_url_message(env: Seq<char>, reason: Seq<char>) -> Seq<char> {
    "invalid $"@ + env + ": "@ + reason
}

/// The store's setup once the database URL has been parsed, with the
/// parser's error message in place of its error.
pub fn plan_from_parsed_url(
    config: PostgresThreadStoreConfig,
    parsed: Result<sqlx::postgres::PgConnectOptions, String>,
) -> (plan: StorePlan)
    ensures
        parsed is Ok ==> (plan matches StorePlan::Connect { options, workspace_id, redis_url_env }
            && options == parsed->Ok_0 && workspace_id@ == config.default_workspace_id@
            && redis_url_env == config.redis_url_env),
        parsed matches Err(reason) ==> (plan matches StorePlan::Unconfigured { message }
            && message@ == invalid_url_message(config.database_url_env@, reason@)),
{
    match parsed {
        Ok(options) => StorePlan::Connect {
            options,
            workspace_id: config.default_workspace_id,
            redis_url_env: config.redis_url_env,
        },
        Err(reason) => {
            let mut message = String::from_str("invalid $");
            message.append(config.database_url_env.as_str());
            message.append(": ");
            message.append(reason.as_str());
            StorePlan::Unconfigured { message }
        },
    }
}

/// The store's setup from its configuration and the value of the database
/// URL variable (`None` when it is not set): unconfigured when the URL is
/// missing or blank, else whatever parsing the URL allows.
pub fn plan_store(config: PostgresThreadStoreConfig, database_url: Option<String>) -> (plan:
    StorePlan)
    ensures
        (database_url is None || is_blank(database_url->Some_0@)) ==> (
        plan matches StorePlan::Unconfigured { message } && message@ == missing_url_message(
            config.database_url_env@,
        )),
        plan matches StorePlan::Connect { workspace_id, redis_url_env, .. } ==> workspace_id@
            == config.default_workspace_id@ && redis_url_env == config.redis_url_env,
        (database_url is Some && !is_blank(database_url->Some_0@)) ==> (plan is Connect
            <==> pg_url_accepted(database_url->Some_0@)),
        (database_url is Some && !is_blank(database_url->Some_0@) && !pg_url_accepted(
            database_url->Some_0@,
        )) ==> (plan matches StorePlan::Unconfigured { message } && message@
            == invalid_url_message(config.database_url_env@, pg_url_error(database_url->Some_0@))),
{
    let url = match database_url {
        Some(value) => {
            if text_is_blank(value.as_str()) {
                None
            } else {
                Some(value)
            }
        },
        None => None,
    };
    match url {
        None => {
            let mut message = String::from_str("remote SQL thread store requires $");
            message.append(config.database_url_env.as_str());
            StorePlan::Unconfigured { message }
        },
        Some(value) => {
            let parsed = match parse_connect_options(value.as_str()) {
                Ok(options) => Ok(options),
                Err(e) => Err(e.to_string()),
            };
            let plan = plan_from_parsed_url(config, parsed);
            plan
        },
    }
}

/// What a store serves once set up, the connection pool aside.
pub enum StoreBackend {
    Pool { workspace_id: String, redis_url_env: Option<String> },
    Unconfigured { message: String },
}

impl StoreBackend {
    /// The workspace the store serves, or the refusal of an unconfigured
    /// store.
    pub fn workspace_id(&self) -> (r: Result<&String, ThreadStoreError>)
        ensures
            self matches StoreBackend::Pool { workspace_id, .. } ==> r matches Ok(w) && w
                == workspace_id,
            self matches StoreBackend::Unconfigured { message } ==> r matches Err(
                ThreadStoreError::InvalidRequest { message: m },
            ) && m@ == message@,
    {
        match self {
            StoreBackend::Pool { workspace_id, .. } => Ok(workspace_id),
            StoreBackend::Unconfigured { message } => Err(
                ThreadStoreError::InvalidRequest { message: message.clone() },
            ),
        }
    }

    /// Whether migrations may run: an unconfigured store refuses with its
    /// message.
    pub fn check_configured(&self) -> (r: Result<(), ThreadStoreError>)
        ensures
            self is Pool ==> r is Ok,
            self matches StoreBackend::Unconfigured { message } ==> r matches Err(
                ThreadStoreError::InvalidRequest { message: m },
            ) && m@ == message@,
    {
        match self {
            StoreBackend::Pool { .. } => Ok(()),
            StoreBackend::Unconfigured { message } => Err(
                ThreadStoreError::InvalidRequest { message: message.clone() },
            ),
        }
    }
}

/// The message refusing access to an archived thread.
pub open spec fn archived_message(thread_id: Seq<char>) -> Seq<char> {
    "thread "@ + thread_id + " is archived"@
}

/// The refusal for an archived thread that was asked for without archived
/// threads.
pub fn archived_thread_error(thread_id: &ThreadId) -> (e: ThreadStoreError)
    ensures
        e matches ThreadStoreError::InvalidRequest { message } && message@ == archived_message(
            thread_id.text@,
        ),
{
    let mut message = String::from_str("thread ");
    message.append(thread_id.text.as_str());
    message.append(" is archived");
    ThreadStoreError::InvalidRequest { message }
}

/// Whether a thread may be read: `row` is `None` when no row was found,
/// else whether the row is archived.
pub fn check_thread_readable(thread_id: &ThreadId, row: Option<bool>, include_archived: bool) -> (r:
    Result<(), ThreadStoreError>)
    ensures
        row is None ==> (r matches Err(ThreadStoreError::ThreadNotFound { thread_id: t })
            && t.text@ == thread_id.text@),
        row == Some(true) && !include_archived ==> (r matches Err(
            ThreadStoreError::InvalidRequest { message },
        ) && message@ == archived_message(thread_id.text@)),
        (row == Some(false) || (row is Some && include_archived)) ==> r is Ok,
{
    match row {
        None => Err(ThreadStoreError::ThreadNotFound { thread_id: thread_id.duplicate() }),
        Some(archived) => {
            if archived && !include_archived {
                Err(archived_thread_error(thread_id))
            } else {
                Ok(())
            }
        },
    }
}

/// The outcome of deleting a thread, from the number of rows removed.
pub fn delete_outcome(thread_id: &ThreadId, rows_affected: u64) -> (r: Result<
    (),
    ThreadStoreError,
>)
    ensures
        rows_affected == 0 ==> (r matches Err(ThreadStoreError::ThreadNotFound { thread_id: t })
            && t.text@ == thread_id.text@),
        rows_affected > 0 ==> r is Ok,
{
    if rows_affected == 0 {
        Err(ThreadStoreError::ThreadNotFound { thread_id: thread_id.duplicate() })
    } else {
        Ok(())
    }
}

/// Whether a spawn edge between threads is still open.
#[derive(Debug, Clone, Copy, PartialEq, Eq, Structural)]
pub enum ThreadSpawnEdgeStatus {
    Open,
    Closed,
}

/// The text under which a spawn edge's status is stored.
pub open spec fn status_text(status: ThreadSpawnEdgeStatus) -> Seq<char> {
    match status {
        ThreadSpawnEdgeStatus::Open => "open"@,
        ThreadSpawnEdgeStatus::Closed => "closed"@,
    }
}

/// The text under which a spawn edge's status is stored.
pub fn graph_status(status: ThreadSpawnEdgeStatus) -> (r: &'static str)
    ensures
        r@ == status_text(status),
{
    match status {
        ThreadSpawnEdgeStatus::Open => "open",
        ThreadSpawnEdgeStatus::Closed => "closed",
    }
}

} // verus!
