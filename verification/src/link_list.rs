//! The public `/link-list` search over accepted files of both databases.

pub mod handlers;
pub mod models;
pub mod search;
