//! Task lifecycle and assignment engine of a workplace collaboration backend.
//!
//! The engine owns three collections (the task store, the assignee registry and
//! the audit trail) and reads a snapshot of the user directory and of project
//! membership. Every public operation states, over the mathematical view of
//! those collections, what it returns and how the collections change.
//!
//! - `engine` holds the operations, `model` the state machine that they are
//!   held to, and `laws` what is proved of that state machine.
//! - `store`, `assignees`, `audit` and `directory` are the four collections.
//! - `status`, `date`, `order` and `text` hold the rules on statuses and
//!   urgencies, calendar dates, ordered listings and owned text.
//! - `ids` and `clock` draw identifiers and read the time.
//! - `session` reads the session token of a request.
//! - `models` holds the records of the backend.

pub mod assignees;
pub mod audit;
pub mod clock;
pub mod date;
pub mod directory;
pub mod engine;
pub mod error;
pub mod ids;
pub mod laws;
pub mod model;
pub mod models;
pub mod order;
pub mod session;
pub mod status;
pub mod store;
pub mod text;
