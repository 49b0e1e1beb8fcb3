//! Verified core of an IMAP tool server: message identities, input
//! validation, the search-cursor store and the per-tool orchestration
//! state machines.

pub mod accounts;
pub mod config;
pub mod copy;
pub mod dates;
pub mod delete;
pub mod detail;
pub mod engine;
pub mod errors;
pub mod flags;
pub mod help;
pub mod message_id;
pub mod mime;
pub mod models;
pub mod moving;
pub mod pagination;
pub mod paging;
pub mod query;
pub mod raw;
pub mod report;
pub mod search;
pub mod server;
pub mod session;
pub mod sorted;
pub mod text;
pub mod uri;
pub mod validate;
