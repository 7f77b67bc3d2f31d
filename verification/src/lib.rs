//! A verified core for a discussion-forum backend: session tokens, bearer-header
//! extraction, and an in-memory model of the threaded content graph (threads,
//! nested comments, votes, follow edges) with its invariants.

pub mod auth;
pub mod base36;
pub mod comments;
pub mod error;
pub mod model;
pub mod password;
pub mod profiles;
pub mod slug;
pub mod threads;
pub mod users;
pub mod votes;
