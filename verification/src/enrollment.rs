use vstd::prelude::*;

use crate::text::text_eq;

verus! {

/// Persisted remote-control server enrollment, including the lookup key.
#[derive(Debug, Clone)]
pub struct PersistedRemoteControlEnrollment {
    pub websocket_url: String,
    pub account_id: String,
    pub app_server_client_name: Option<String>,
    pub server_id: String,
    pub environment_id: String,
    pub server_name: String,
    pub remote_control_enabled: Option<bool>,
}

/// The text of an optional client name, compared as a value.
pub open spec fn optional_text(name: Option<String>) -> Option<Seq<char>> {
    match name {
        Some(n) => Some(n@),
        None => None,
    }
}

/// An enrollment is selected by its websocket URL, its account and its
/// optional app-server client name; a missing client name selects only
/// enrollments without one.
pub open spec fn selects(
    e: PersistedRemoteControlEnrollment,
    websocket_url: Seq<char>,
    account_id: Seq<char>,
    app_server_client_name: Option<Seq<char>>,
) -> bool {
    &&& e.websocket_url@ == websocket_url
    &&& e.account_id@ == account_id
    &&& optional_text(e.app_server_client_name) == app_server_client_name
}

fn same_optional_name(a: &Option<String>, b: Option<&str>) -> (r: bool)
    ensures
        r == (optional_text(*a) == match b {
            Some(t) => Some(t@),
            None => None::<Seq<char>>,
        }),
{
    match (a, b) {
        (Some(x), Some(y)) => text_eq(x.as_str(), y),
        (None, None) => true,
        _ => false,
    }
}

impl PersistedRemoteControlEnrollment {
    /// Whether this enrollment is the one selected by the lookup key.
    pub fn is_selected_by(
        &self,
        websocket_url: &str,
        account_id: &str,
        app_server_client_name: Option<&str>,
    ) -> (r: bool)
        ensures
            r == selects(
                *self,
                websocket_url@,
                account_id@,
                match app_server_client_name {
                    Some(t) => Some(t@),
                    None => None,
                },
            ),
            r ==> (self.app_server_client_name is None <==> app_server_client_name is None),
            (r && self.app_server_client_name is Some) ==> (app_server_client_name is Some
                && self.app_server_client_name->0@ == app_server_client_name->0@),
            r <==> (self.websocket_url@ == websocket_url@ && self.account_id@ == account_id@ && (
            match (&self.app_server_client_name, app_server_client_name) {
                (Some(stored), Some(asked)) => stored@ == asked@,
                (None, None) => true,
                _ => false,
            })),
    {
        text_eq(self.websocket_url.as_str(), websocket_url) && text_eq(
            self.account_id.as_str(),
            account_id,
        )
            && same_optional_name(&self.app_server_client_name, app_server_client_name)
    }
}


/// An enrollment is selected by its own lookup key and by no other: the
/// websocket URL, the account and the client name must all be the ones it
/// was stored with, and a stored enrollment without a client name answers
/// only a lookup without one.
pub proof fn lemma_enrollment_selected_only_by_its_own_key(
    e: PersistedRemoteControlEnrollment,
    websocket_url: Seq<char>,
    account_id: Seq<char>,
    app_server_client_name: Option<Seq<char>>,
)
    ensures
        selects(e, e.websocket_url@, e.account_id@, optional_text(e.app_server_client_name)),
        selects(e, websocket_url, account_id, app_server_client_name) ==> (websocket_url
            == e.websocket_url@ && account_id == e.account_id@ && (e.app_server_client_name is None
            <==> app_server_client_name is None) && (e.app_server_client_name is Some
            ==> app_server_client_name == Some(e.app_server_client_name->0@))),
{
}

/// Two enrollments hold the same values.
pub open spec fn same_enrollment(
    a: PersistedRemoteControlEnrollment,
    b: PersistedRemoteControlEnrollment,
) -> bool {
    &&& a.websocket_url@ == b.websocket_url@
    &&& a.account_id@ == b.account_id@
    &&& optional_text(a.app_server_client_name) == optional_text(b.app_server_client_name)
    &&& a.server_id@ == b.server_id@
    &&& a.environment_id@ == b.environment_id@
    &&& a.server_name@ == b.server_name@
    &&& a.remote_control_enabled == b.remote_control_enabled
}

fn same_optional_text(a: &Option<String>, b: &Option<String>) -> (r: bool)
    ensures
        r == (optional_text(*a) == optional_text(*b)),
{
    match (a, b) {
        (Some(x), Some(y)) => *x == *y,
        (None, None) => true,
        _ => false,
    }
}

fn same_flag(a: Option<bool>, b: Option<bool>) -> (r: bool)
    ensures
        r == (a == b),
{
    match (a, b) {
        (Some(x), Some(y)) => x == y,
        (None, None) => true,
        _ => false,
    }
}

impl PartialEq for PersistedRemoteControlEnrollment {
    fn eq(&self, other: &Self) -> (r: bool) {
        self.websocket_url == other.websocket_url && self.account_id == other.account_id
            && same_optional_text(&self.app_server_client_name, &other.app_server_client_name)
            && self.server_id == other.server_id && self.environment_id == other.environment_id
            && self.server_name == other.server_name && same_flag(
            self.remote_control_enabled,
            other.remote_control_enabled,
        )
    }
}

impl Eq for PersistedRemoteControlEnrollment {

}

impl vstd::std_specs::cmp::PartialEqSpecImpl for PersistedRemoteControlEnrollment {
    open spec fn obeys_eq_spec() -> bool {
        true
    }

    open spec fn eq_spec(&self, other: &Self) -> bool {
        same_enrollment(*self, *other)
    }
}

} // verus!
