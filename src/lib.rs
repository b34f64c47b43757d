//! A small epic/story tracker: a snapshot of epics and stories that share one
//! identifier counter, the pure transitions on it, and a domain store that
//! loads a snapshot from a storage backend, applies one command, and persists
//! the result.

pub mod db;
pub mod models;
pub mod state;

pub use db::{Database, JiraDatabase, MockDB};
pub use models::{DBState, DbError, Epic, Status, Story};
