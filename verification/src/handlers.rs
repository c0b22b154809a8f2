//! The decisions behind each page: what to query, how to paginate and what to show.

pub mod common;
pub mod done;
pub mod pages;
pub mod review;
pub mod stats;
pub mod tgfs_done;
pub mod tgfs_review;
pub mod tgfs_stats;
