//! Thread persistence logic for remote workspaces backed by PostgreSQL.
//!
//! The library holds the decisions the store makes: how a session source is
//! keyed, which keys a listing filter accepts, how listing pages and cursors
//! are computed, how metadata patches apply to a stored thread, and which
//! error every refused request gets. Talking to the database is left to the
//! caller, which hands the library plain values and receives plain values.

pub mod text;

pub mod error;
pub mod json;
pub mod session_source;
pub mod keys;
pub mod store;
pub mod enrollment;
pub mod thread;
pub mod cursor;
pub mod listing;
pub mod append;
