use vstd::prelude::*;

use crate::error::ThreadId;
use crate::error::ThreadStoreError;
use crate::json::JsonValue;
use crate::keys::canonical_session_source_key;
use crate::session_source::source_key;
use crate::session_source::SessionSource;
use crate::store::archived_message;
use crate::store::archived_thread_error;

verus! {

/// An instant in UTC: whole seconds since the Unix epoch and the
/// nanoseconds past them.
#[derive(Debug, Clone, Copy, PartialEq, Eq, Structural)]
pub struct Timestamp {
    pub seconds: i64,
    pub nanos: u32,
}

/// `a` is a strictly later instant than `b`.
pub open spec fn is_later(a: Timestamp, b: Timestamp) -> bool {
    a.seconds > b.seconds || (a.seconds == b.seconds && a.nanos > b.nanos)
}

impl Timestamp {
    /// Whether this instant is strictly later than `other`.
    pub fn later_than(&self, other: &Timestamp) -> (r: bool)
        ensures
            r == is_later(*self, *other),
    {
        self.seconds > other.seconds || (self.seconds == other.seconds && self.nanos
            > other.nanos)
    }
}

/// How hard the model reasons.
#[derive(Debug, Clone, Copy, PartialEq, Eq, Structural)]
pub enum ReasoningEffort {
    Minimal,
    Low,
    Medium,
    High,
    XHigh,
}

/// The name under which a reasoning effort is displayed and stored.
pub open spec fn effort_name(e: ReasoningEffort) -> Seq<char> {
    match e {
        ReasoningEffort::Minimal => "minimal"@,
        ReasoningEffort::Low => "low"@,
        ReasoningEffort::Medium => "medium"@,
        ReasoningEffort::High => "high"@,
        ReasoningEffort::XHigh => "xhigh"@,
    }
}

impl ReasoningEffort {
    /// The name under which the effort is displayed and stored.
    pub fn display_text(&self) -> (r: &'static str)
        ensures
            r@ == effort_name(*self),
    {
        match self {
            ReasoningEffort::Minimal => "minimal",
            ReasoningEffort::Low => "low",
            ReasoningEffort::Medium => "medium",
            ReasoningEffort::High => "high",
            ReasoningEffort::XHigh => "xhigh",
        }
    }
}

/// When the user is asked to approve a command.
#[derive(Debug, Clone, Copy, PartialEq, Eq, Structural)]
pub enum AskForApproval {
    UnlessTrusted,
    OnFailure,
    OnRequest,
    Never,
}

/// What the agent may touch.
#[derive(Debug, Clone, Copy, PartialEq, Eq, Structural)]
pub enum PermissionProfile {
    ReadOnly,
    WorkspaceWrite,
    DangerFullAccess,
}

/// Token counts of a thread.
#[derive(Debug, Clone, Copy, PartialEq, Eq, Structural)]
pub struct TokenUsage {
    pub input_tokens: i64,
    pub cached_input_tokens: i64,
    pub output_tokens: i64,
    pub reasoning_output_tokens: i64,
    pub total_tokens: i64,
}

/// The component that created a thread, by its display name.
#[derive(Debug)]
pub struct ThreadSource {
    pub name: String,
}

/// The repository a thread works in.
#[derive(Debug)]
pub struct GitInfo {
    pub commit_hash: Option<String>,
    pub branch: Option<String>,
    pub repository_url: Option<String>,
}

/// Changes to a thread's repository information; `Some(None)` clears a
/// field.
#[derive(Debug)]
pub struct GitInfoPatch {
    pub sha: Option<Option<String>>,
    pub branch: Option<Option<String>>,
    pub origin_url: Option<Option<String>>,
}

/// The recorded items of a thread, oldest first.
#[derive(Debug)]
pub struct StoredThreadHistory {
    pub thread_id: ThreadId,
    pub items: Vec<JsonValue>,
}

/// A thread as the store records it.
#[derive(Debug)]
pub struct StoredThread {
    pub thread_id: ThreadId,
    /// Configuration the thread was created with, as JSON.
    pub extra_config: Option<JsonValue>,
    pub rollout_path: Option<String>,
    pub forked_from_id: Option<ThreadId>,
    pub parent_thread_id: Option<ThreadId>,
    pub preview: String,
    pub name: Option<String>,
    pub model_provider: String,
    pub model: Option<String>,
    pub reasoning_effort: Option<ReasoningEffort>,
    pub created_at: Timestamp,
    pub updated_at: Timestamp,
    pub recency_at: Timestamp,
    pub archived_at: Option<Timestamp>,
    pub cwd: String,
    pub cli_version: String,
    pub source: SessionSource,
    pub history_mode: String,
    pub thread_source: Option<ThreadSource>,
    pub agent_nickname: Option<String>,
    pub agent_role: Option<String>,
    pub agent_path: Option<String>,
    pub git_info: Option<GitInfo>,
    pub approval_mode: AskForApproval,
    pub permission_profile: PermissionProfile,
    pub token_usage: Option<TokenUsage>,
    pub first_user_message: Option<String>,
    pub history: Option<StoredThreadHistory>,
}

/// Changes to a stored thread's metadata; a field left `None` keeps the
/// stored value, and for optional fields `Some(None)` clears it.
#[derive(Debug)]
pub struct ThreadMetadataPatch {
    pub name: Option<Option<String>>,
    pub preview: Option<String>,
    pub model_provider: Option<String>,
    pub model: Option<String>,
    pub reasoning_effort: Option<ReasoningEffort>,
    pub created_at: Option<Timestamp>,
    pub updated_at: Option<Timestamp>,
    pub advance_recency_at: Option<Timestamp>,
    pub source: Option<SessionSource>,
    pub thread_source: Option<Option<ThreadSource>>,
    pub agent_nickname: Option<Option<String>>,
    pub agent_role: Option<Option<String>>,
    pub agent_path: Option<Option<String>>,
    pub cwd: Option<String>,
    pub cli_version: Option<String>,
    pub approval_mode: Option<AskForApproval>,
    pub permission_profile: Option<PermissionProfile>,
    pub token_usage: Option<TokenUsage>,
    pub first_user_message: Option<String>,
    pub git_info: Option<GitInfoPatch>,
}

impl ThreadMetadataPatch {
    /// A patch that changes nothing.
    pub fn empty() -> (p: ThreadMetadataPatch)
        ensures
            is_empty_patch(p),
    {
        ThreadMetadataPatch {
            name: None,
            preview: None,
            model_provider: None,
            model: None,
            reasoning_effort: None,
            created_at: None,
            updated_at: None,
            advance_recency_at: None,
            source: None,
            thread_source: None,
            agent_nickname: None,
            agent_role: None,
            agent_path: None,
            cwd: None,
            cli_version: None,
            approval_mode: None,
            permission_profile: None,
            token_usage: None,
            first_user_message: None,
            git_info: None,
        }
    }
}

/// The patch changes no field.
pub open spec fn is_empty_patch(p: ThreadMetadataPatch) -> bool {
    &&& p.name is None
    &&& p.preview is None
    &&& p.model_provider is None
    &&& p.model is None
    &&& p.reasoning_effort is None
    &&& p.created_at is None
    &&& p.updated_at is None
    &&& p.advance_recency_at is None
    &&& p.source is None
    &&& p.thread_source is None
    &&& p.agent_nickname is None
    &&& p.agent_role is None
    &&& p.agent_path is None
    &&& p.cwd is None
    &&& p.cli_version is None
    &&& p.approval_mode is None
    &&& p.permission_profile is None
    &&& p.token_usage is None
    &&& p.first_user_message is None
    &&& p.git_info is None
}

/// `new` if the patch sets the field, else the stored value.
pub open spec fn or_keep<T>(new: Option<T>, old: T) -> T {
    match new {
        Some(v) => v,
        None => old,
    }
}

/// `Some(new)` if the patch sets the field, else the stored value.
pub open spec fn or_keep_some<T>(new: Option<T>, old: Option<T>) -> Option<T> {
    match new {
        Some(v) => Some(v),
        None => old,
    }
}

/// The repository information after a patch: the stored fields, or empty
/// ones when none are stored, with each field the patch sets replaced.
pub open spec fn patched_git_info(old: Option<GitInfo>, patch: Option<GitInfoPatch>) -> Option<
    GitInfo,
> {
    match patch {
        None => old,
        Some(g) => {
            let base = match old {
                Some(info) => info,
                None => GitInfo { commit_hash: None, branch: None, repository_url: None },
            };
            Some(
                GitInfo {
                    commit_hash: or_keep(g.sha, base.commit_hash),
                    branch: or_keep(g.branch, base.branch),
                    repository_url: or_keep(g.origin_url, base.repository_url),
                },
            )
        },
    }
}

/// The recency after a patch: it only moves forward.
pub open spec fn patched_recency(old: Timestamp, advance: Option<Timestamp>) -> Timestamp {
    match advance {
        Some(t) => if is_later(t, old) {
            t
        } else {
            old
        },
        None => old,
    }
}

/// The stored thread after a metadata patch.
pub open spec fn patched(s: StoredThread, p: ThreadMetadataPatch) -> StoredThread {
    StoredThread {
        thread_id: s.thread_id,
        extra_config: s.extra_config,
        rollout_path: s.rollout_path,
        forked_from_id: s.forked_from_id,
        parent_thread_id: s.parent_thread_id,
        preview: or_keep(p.preview, s.preview),
        name: or_keep(p.name, s.name),
        model_provider: or_keep(p.model_provider, s.model_provider),
        model: or_keep_some(p.model, s.model),
        reasoning_effort: or_keep_some(p.reasoning_effort, s.reasoning_effort),
        created_at: or_keep(p.created_at, s.created_at),
        updated_at: or_keep(p.updated_at, s.updated_at),
        recency_at: patched_recency(s.recency_at, p.advance_recency_at),
        archived_at: s.archived_at,
        cwd: or_keep(p.cwd, s.cwd),
        cli_version: or_keep(p.cli_version, s.cli_version),
        source: or_keep(p.source, s.source),
        history_mode: s.history_mode,
        thread_source: or_keep(p.thread_source, s.thread_source),
        agent_nickname: or_keep(p.agent_nickname, s.agent_nickname),
        agent_role: or_keep(p.agent_role, s.agent_role),
        agent_path: or_keep(p.agent_path, s.agent_path),
        git_info: patched_git_info(s.git_info, p.git_info),
        approval_mode: or_keep(p.approval_mode, s.approval_mode),
        permission_profile: or_keep(p.permission_profile, s.permission_profile),
        token_usage: or_keep_some(p.token_usage, s.token_usage),
        first_user_message: or_keep_some(p.first_user_message, s.first_user_message),
        history: s.history,
    }
}

fn patch_git_info(stored: Option<GitInfo>, patch: GitInfoPatch) -> (r: GitInfo)
    ensures
        Some(r) == patched_git_info(stored, Some(patch)),
{
    let mut info = match stored {
        Some(info) => info,
        None => GitInfo { commit_hash: None, branch: None, repository_url: None },
    };
    if let Some(sha) = patch.sha {
        info.commit_hash = sha;
    }
    if let Some(branch) = patch.branch {
        info.branch = branch;
    }
    if let Some(origin_url) = patch.origin_url {
        info.repository_url = origin_url;
    }
    info
}

fn keep_or_set<T>(field: &mut T, new: Option<T>)
    ensures
        *final(field) == or_keep(new, *old(field)),
{
    if let Some(v) = new {
        *field = v;
    }
}

fn keep_or_set_some<T>(field: &mut Option<T>, new: Option<T>)
    ensures
        *final(field) == or_keep_some(new, *old(field)),
{
    if let Some(v) = new {
        *field = Some(v);
    }
}

fn advance_recency(recency_at: &mut Timestamp, advance: Option<Timestamp>)
    ensures
        *final(recency_at) == patched_recency(*old(recency_at), advance),
{
    if let Some(t) = advance {
        if t.later_than(recency_at) {
            *recency_at = t;
        }
    }
}

fn apply_git_patch(git_info: &mut Option<GitInfo>, patch: Option<GitInfoPatch>)
    ensures
        *final(git_info) == patched_git_info(*old(git_info), patch),
{
    if let Some(g) = patch {
        let current = git_info.take();
        *git_info = Some(patch_git_info(current, g));
    }
}

/// Applies a metadata patch to a stored thread.
pub fn apply_metadata_patch(stored: &mut StoredThread, patch: ThreadMetadataPatch)
    ensures
        *final(stored) == patched(*old(stored), patch),
        patch.preview matches Some(v) ==> final(stored).preview == v,
        patch.preview is None ==> final(stored).preview == old(stored).preview,
        patch.model_provider matches Some(v) ==> final(stored).model_provider == v,
        patch.model_provider is None ==> final(stored).model_provider == old(stored).model_provider,
        patch.created_at matches Some(v) ==> final(stored).created_at == v,
        patch.created_at is None ==> final(stored).created_at == old(stored).created_at,
        patch.updated_at matches Some(v) ==> final(stored).updated_at == v,
        patch.updated_at is None ==> final(stored).updated_at == old(stored).updated_at,
        patch.cwd matches Some(v) ==> final(stored).cwd == v,
        patch.cwd is None ==> final(stored).cwd == old(stored).cwd,
        patch.cli_version matches Some(v) ==> final(stored).cli_version == v,
        patch.cli_version is None ==> final(stored).cli_version == old(stored).cli_version,
        patch.source matches Some(v) ==> final(stored).source == v,
        patch.source is None ==> final(stored).source == old(stored).source,
        patch.approval_mode matches Some(v) ==> final(stored).approval_mode == v,
        patch.approval_mode is None ==> final(stored).approval_mode == old(stored).approval_mode,
        patch.permission_profile matches Some(v) ==> final(stored).permission_profile == v,
        patch.permission_profile is None ==> final(stored).permission_profile == old(stored).permission_profile,
        patch.name matches Some(v) ==> final(stored).name == v,
        patch.name is None ==> final(stored).name == old(stored).name,
        patch.thread_source matches Some(v) ==> final(stored).thread_source == v,
        patch.thread_source is None ==> final(stored).thread_source == old(stored).thread_source,
        patch.agent_nickname matches Some(v) ==> final(stored).agent_nickname == v,
        patch.agent_nickname is None ==> final(stored).agent_nickname == old(stored).agent_nickname,
        patch.agent_role matches Some(v) ==> final(stored).agent_role == v,
        patch.agent_role is None ==> final(stored).agent_role == old(stored).agent_role,
        patch.agent_path matches Some(v) ==> final(stored).agent_path == v,
        patch.agent_path is None ==> final(stored).agent_path == old(stored).agent_path,
        patch.model matches Some(v) ==> final(stored).model == Some(v),
        patch.model is None ==> final(stored).model == old(stored).model,
        patch.reasoning_effort matches Some(v) ==> final(stored).reasoning_effort == Some(v),
        patch.reasoning_effort is None ==> final(stored).reasoning_effort == old(stored).reasoning_effort,
        patch.token_usage matches Some(v) ==> final(stored).token_usage == Some(v),
        patch.token_usage is None ==> final(stored).token_usage == old(stored).token_usage,
        patch.first_user_message matches Some(v) ==> final(stored).first_user_message == Some(v),
        patch.first_user_message is None ==> final(stored).first_user_message == old(stored).first_user_message,
        (patch.advance_recency_at is Some && is_later(patch.advance_recency_at->0, old(stored).recency_at)) ==> final(stored).recency_at == patch.advance_recency_at->0,
        !(patch.advance_recency_at is Some && is_later(patch.advance_recency_at->0, old(stored).recency_at)) ==> final(stored).recency_at == old(stored).recency_at,
        patch.git_info is None ==> final(stored).git_info == old(stored).git_info,
        patch.git_info is Some && patch.git_info->0.sha is Some ==> (final(stored).git_info is Some && final(stored).git_info->0.commit_hash == patch.git_info->0.sha->0),
        patch.git_info is Some && patch.git_info->0.sha is None && old(stored).git_info is Some ==> (final(stored).git_info is Some && final(stored).git_info->0.commit_hash == old(stored).git_info->0.commit_hash),
        patch.git_info is Some && patch.git_info->0.sha is None && old(stored).git_info is None ==> (final(stored).git_info is Some && final(stored).git_info->0.commit_hash is None),
        patch.git_info is Some && patch.git_info->0.branch is Some ==> (final(stored).git_info is Some && final(stored).git_info->0.branch == patch.git_info->0.branch->0),
        patch.git_info is Some && patch.git_info->0.branch is None && old(stored).git_info is Some ==> (final(stored).git_info is Some && final(stored).git_info->0.branch == old(stored).git_info->0.branch),
        patch.git_info is Some && patch.git_info->0.branch is None && old(stored).git_info is None ==> (final(stored).git_info is Some && final(stored).git_info->0.branch is None),
        patch.git_info is Some && patch.git_info->0.origin_url is Some ==> (final(stored).git_info is Some && final(stored).git_info->0.repository_url == patch.git_info->0.origin_url->0),
        patch.git_info is Some && patch.git_info->0.origin_url is None && old(stored).git_info is Some ==> (final(stored).git_info is Some && final(stored).git_info->0.repository_url == old(stored).git_info->0.repository_url),
        patch.git_info is Some && patch.git_info->0.origin_url is None && old(stored).git_info is None ==> (final(stored).git_info is Some && final(stored).git_info->0.repository_url is None),
        final(stored).thread_id == old(stored).thread_id,
        final(stored).extra_config == old(stored).extra_config,
        final(stored).rollout_path == old(stored).rollout_path,
        final(stored).forked_from_id == old(stored).forked_from_id,
        final(stored).parent_thread_id == old(stored).parent_thread_id,
        final(stored).archived_at == old(stored).archived_at,
        final(stored).history_mode == old(stored).history_mode,
        final(stored).history == old(stored).history,
{
    keep_or_set(&mut stored.name, patch.name);
    keep_or_set(&mut stored.preview, patch.preview);
    keep_or_set(&mut stored.model_provider, patch.model_provider);
    keep_or_set_some(&mut stored.model, patch.model);
    keep_or_set_some(&mut stored.reasoning_effort, patch.reasoning_effort);
    keep_or_set(&mut stored.created_at, patch.created_at);
    keep_or_set(&mut stored.updated_at, patch.updated_at);
    advance_recency(&mut stored.recency_at, patch.advance_recency_at);
    keep_or_set(&mut stored.source, patch.source);
    keep_or_set(&mut stored.thread_source, patch.thread_source);
    keep_or_set(&mut stored.agent_nickname, patch.agent_nickname);
    keep_or_set(&mut stored.agent_role, patch.agent_role);
    keep_or_set(&mut stored.agent_path, patch.agent_path);
    keep_or_set(&mut stored.cwd, patch.cwd);
    keep_or_set(&mut stored.cli_version, patch.cli_version);
    keep_or_set(&mut stored.approval_mode, patch.approval_mode);
    keep_or_set(&mut stored.permission_profile, patch.permission_profile);
    keep_or_set_some(&mut stored.token_usage, patch.token_usage);
    keep_or_set_some(&mut stored.first_user_message, patch.first_user_message);
    apply_git_patch(&mut stored.git_info, patch.git_info);
}

/// A patch sets every field it names to the value it gives (clearing an
/// optional field given as `Some(None)`), leaves every field it does not name
/// as stored, moves recency only to a strictly later instant, and replaces
/// only the repository fields it names.
pub proof fn lemma_patch_sets_the_fields_it_names(s: StoredThread, p: ThreadMetadataPatch)
    ensures
        p.preview matches Some(v) ==> patched(s, p).preview == v,
        p.preview is None ==> patched(s, p).preview == s.preview,
        p.model_provider matches Some(v) ==> patched(s, p).model_provider == v,
        p.model_provider is None ==> patched(s, p).model_provider == s.model_provider,
        p.created_at matches Some(v) ==> patched(s, p).created_at == v,
        p.created_at is None ==> patched(s, p).created_at == s.created_at,
        p.updated_at matches Some(v) ==> patched(s, p).updated_at == v,
        p.updated_at is None ==> patched(s, p).updated_at == s.updated_at,
        p.cwd matches Some(v) ==> patched(s, p).cwd == v,
        p.cwd is None ==> patched(s, p).cwd == s.cwd,
        p.cli_version matches Some(v) ==> patched(s, p).cli_version == v,
        p.cli_version is None ==> patched(s, p).cli_version == s.cli_version,
        p.source matches Some(v) ==> patched(s, p).source == v,
        p.source is None ==> patched(s, p).source == s.source,
        p.approval_mode matches Some(v) ==> patched(s, p).approval_mode == v,
        p.approval_mode is None ==> patched(s, p).approval_mode == s.approval_mode,
        p.permission_profile matches Some(v) ==> patched(s, p).permission_profile == v,
        p.permission_profile is None ==> patched(s, p).permission_profile == s.permission_profile,
        p.name matches Some(v) ==> patched(s, p).name == v,
        p.name is None ==> patched(s, p).name == s.name,
        p.thread_source matches Some(v) ==> patched(s, p).thread_source == v,
        p.thread_source is None ==> patched(s, p).thread_source == s.thread_source,
        p.agent_nickname matches Some(v) ==> patched(s, p).agent_nickname == v,
        p.agent_nickname is None ==> patched(s, p).agent_nickname == s.agent_nickname,
        p.agent_role matches Some(v) ==> patched(s, p).agent_role == v,
        p.agent_role is None ==> patched(s, p).agent_role == s.agent_role,
        p.agent_path matches Some(v) ==> patched(s, p).agent_path == v,
        p.agent_path is None ==> patched(s, p).agent_path == s.agent_path,
        p.model matches Some(v) ==> patched(s, p).model == Some(v),
        p.model is None ==> patched(s, p).model == s.model,
        p.reasoning_effort matches Some(v) ==> patched(s, p).reasoning_effort == Some(v),
        p.reasoning_effort is None ==> patched(s, p).reasoning_effort == s.reasoning_effort,
        p.token_usage matches Some(v) ==> patched(s, p).token_usage == Some(v),
        p.token_usage is None ==> patched(s, p).token_usage == s.token_usage,
        p.first_user_message matches Some(v) ==> patched(s, p).first_user_message == Some(v),
        p.first_user_message is None ==> patched(s, p).first_user_message == s.first_user_message,
        (p.advance_recency_at is Some && is_later(p.advance_recency_at->0, s.recency_at)) ==> patched(s, p).recency_at == p.advance_recency_at->0,
        !(p.advance_recency_at is Some && is_later(p.advance_recency_at->0, s.recency_at)) ==> patched(s, p).recency_at == s.recency_at,
        p.git_info is None ==> patched(s, p).git_info == s.git_info,
        p.git_info is Some && p.git_info->0.sha is Some ==> (patched(s, p).git_info is Some && patched(s, p).git_info->0.commit_hash == p.git_info->0.sha->0),
        p.git_info is Some && p.git_info->0.sha is None && s.git_info is Some ==> (patched(s, p).git_info is Some && patched(s, p).git_info->0.commit_hash == s.git_info->0.commit_hash),
        p.git_info is Some && p.git_info->0.sha is None && s.git_info is None ==> (patched(s, p).git_info is Some && patched(s, p).git_info->0.commit_hash is None),
        p.git_info is Some && p.git_info->0.branch is Some ==> (patched(s, p).git_info is Some && patched(s, p).git_info->0.branch == p.git_info->0.branch->0),
        p.git_info is Some && p.git_info->0.branch is None && s.git_info is Some ==> (patched(s, p).git_info is Some && patched(s, p).git_info->0.branch == s.git_info->0.branch),
        p.git_info is Some && p.git_info->0.branch is None && s.git_info is None ==> (patched(s, p).git_info is Some && patched(s, p).git_info->0.branch is None),
        p.git_info is Some && p.git_info->0.origin_url is Some ==> (patched(s, p).git_info is Some && patched(s, p).git_info->0.repository_url == p.git_info->0.origin_url->0),
        p.git_info is Some && p.git_info->0.origin_url is None && s.git_info is Some ==> (patched(s, p).git_info is Some && patched(s, p).git_info->0.repository_url == s.git_info->0.repository_url),
        p.git_info is Some && p.git_info->0.origin_url is None && s.git_info is None ==> (patched(s, p).git_info is Some && patched(s, p).git_info->0.repository_url is None),
        patched(s, p).thread_id == s.thread_id,
        patched(s, p).extra_config == s.extra_config,
        patched(s, p).rollout_path == s.rollout_path,
        patched(s, p).forked_from_id == s.forked_from_id,
        patched(s, p).parent_thread_id == s.parent_thread_id,
        patched(s, p).archived_at == s.archived_at,
        patched(s, p).history_mode == s.history_mode,
        patched(s, p).history == s.history,
{
}

/// A patch without fields leaves a stored thread as it is.
pub proof fn lemma_empty_patch_changes_nothing(s: StoredThread, p: ThreadMetadataPatch)
    requires
        is_empty_patch(p),
    ensures
        patched(s, p) == s,
{
}

/// Applying the same patch twice gives what applying it once gives.
pub proof fn lemma_patch_is_idempotent(s: StoredThread, p: ThreadMetadataPatch)
    ensures
        patched(patched(s, p), p) == patched(s, p),
{
}

/// A patch never moves a thread's recency back, and never touches its
/// identity, its lineage, its archive state or its history.
pub proof fn lemma_patch_keeps_identity_and_recency(s: StoredThread, p: ThreadMetadataPatch)
    ensures
        !is_later(s.recency_at, patched(s, p).recency_at),
        patched(s, p).thread_id == s.thread_id,
        patched(s, p).extra_config == s.extra_config,
        patched(s, p).rollout_path == s.rollout_path,
        patched(s, p).forked_from_id == s.forked_from_id,
        patched(s, p).parent_thread_id == s.parent_thread_id,
        patched(s, p).archived_at == s.archived_at,
        patched(s, p).history_mode == s.history_mode,
        patched(s, p).history == s.history,
{
}

/// What a new thread is created with.
#[derive(Debug)]
pub struct ThreadMetadataParams {
    pub model_provider: String,
    pub cwd: Option<String>,
}

/// A request to create a thread.
#[derive(Debug)]
pub struct CreateThreadParams {
    pub thread_id: ThreadId,
    pub extra_config: Option<JsonValue>,
    pub session_id: String,
    pub forked_from_id: Option<ThreadId>,
    pub parent_thread_id: Option<ThreadId>,
    pub source: SessionSource,
    pub history_mode: String,
    pub thread_source: Option<ThreadSource>,
    pub metadata: ThreadMetadataParams,
}

/// The stored form of a newly created thread, all three times set to `now`.
pub fn new_stored_thread(params: CreateThreadParams, now: Timestamp) -> (t: StoredThread)
    ensures
        t.thread_id == params.thread_id,
        t.extra_config == params.extra_config,
        t.rollout_path is None,
        t.forked_from_id == params.forked_from_id,
        t.parent_thread_id == params.parent_thread_id,
        t.preview@ == Seq::<char>::empty(),
        t.name is None,
        t.model_provider == params.metadata.model_provider,
        t.model is None,
        t.reasoning_effort is None,
        t.created_at == now,
        t.updated_at == now,
        t.recency_at == now,
        t.archived_at is None,
        params.metadata.cwd matches Some(c) ==> t.cwd == c,
        params.metadata.cwd is None ==> t.cwd@ == Seq::<char>::empty(),
        t.cli_version@ == Seq::<char>::empty(),
        t.source == params.source,
        t.history_mode == params.history_mode,
        t.thread_source == params.thread_source,
        t.agent_nickname is None,
        t.agent_role is None,
        t.agent_path is None,
        t.git_info is None,
        t.approval_mode == AskForApproval::OnRequest,
        t.permission_profile == PermissionProfile::ReadOnly,
        t.token_usage is None,
        t.first_user_message is None,
        t.history is None,
{
    let cwd = match params.metadata.cwd {
        Some(c) => c,
        None => String::new(),
    };
    StoredThread {
        thread_id: params.thread_id,
        extra_config: params.extra_config,
        rollout_path: None,
        forked_from_id: params.forked_from_id,
        parent_thread_id: params.parent_thread_id,
        preview: String::new(),
        name: None,
        model_provider: params.metadata.model_provider,
        model: None,
        reasoning_effort: None,
        created_at: now,
        updated_at: now,
        recency_at: now,
        archived_at: None,
        cwd,
        cli_version: String::new(),
        source: params.source,
        history_mode: params.history_mode,
        thread_source: params.thread_source,
        agent_nickname: None,
        agent_role: None,
        agent_path: None,
        git_info: None,
        approval_mode: AskForApproval::OnRequest,
        permission_profile: PermissionProfile::ReadOnly,
        token_usage: None,
        first_user_message: None,
        history: None,
    }
}

/// The keys a thread's row is indexed by: its session source's canonical
/// key and the display name of the component that created it.
#[derive(Debug)]
pub struct ThreadRowKeys {
    pub source_key: String,
    pub thread_source_key: Option<String>,
}

/// The keys a thread's row is indexed by.
pub fn thread_row_keys(stored: &StoredThread) -> (r: Result<ThreadRowKeys, ThreadStoreError>)
    ensures
        r matches Ok(k) && k.source_key@ == source_key(stored.source) && (match stored.thread_source {
            Some(ts) => k.thread_source_key matches Some(t) && t@ == ts.name@,
            None => k.thread_source_key is None,
        }),
{
    let source_key = canonical_session_source_key(&stored.source)?;
    let thread_source_key = match &stored.thread_source {
        Some(ts) => Some(ts.name.clone()),
        None => None,
    };
    Ok(ThreadRowKeys { source_key, thread_source_key })
}

/// A metadata update of a stored thread: the patched thread and the keys
/// to index it by, unless the patched thread is archived and archived
/// threads were not asked for.
pub fn prepare_metadata_update(
    thread_id: &ThreadId,
    stored: StoredThread,
    patch: ThreadMetadataPatch,
    include_archived: bool,
) -> (r: Result<(StoredThread, ThreadRowKeys), ThreadStoreError>)
    ensures
        r matches Ok((t, k)) ==> t == patched(stored, patch) && k.source_key@ == source_key(
            t.source,
        ),
        r is Ok ==> (patched(stored, patch).archived_at is None || include_archived),
        (patched(stored, patch).archived_at is Some && !include_archived) ==> (r matches Err(
            ThreadStoreError::InvalidRequest { message },
        ) && message@ == archived_message(thread_id.text@)),
        (patched(stored, patch).archived_at is None || include_archived) ==> (r matches Ok((t, k))
            && t == patched(stored, patch) && k.source_key@ == source_key(t.source)),
{
    let mut stored = stored;
    apply_metadata_patch(&mut stored, patch);
    if stored.archived_at.is_some() && !include_archived {
        return Err(archived_thread_error(thread_id));
    }
    let keys = thread_row_keys(&stored)?;
    Ok((stored, keys))
}

/// Marks a stored thread archived at `now`.
pub fn mark_archived(stored: &mut StoredThread, now: Timestamp)
    ensures
        *final(stored) == (StoredThread { archived_at: Some(now), ..*old(stored) }),
{
    stored.archived_at = Some(now);
}

/// Marks a stored thread no longer archived, updated at `now`.
pub fn mark_unarchived(stored: &mut StoredThread, now: Timestamp)
    ensures
        *final(stored) == (StoredThread { archived_at: None, updated_at: now, ..*old(stored) }),
{
    stored.archived_at = None;
    stored.updated_at = now;
}

/// Records that items were appended to a thread at `now`.
pub fn mark_appended(stored: &mut StoredThread, now: Timestamp)
    ensures
        *final(stored) == (StoredThread { updated_at: now, recency_at: now, ..*old(stored) }),
{
    stored.updated_at = now;
    stored.recency_at = now;
}

} // verus!
