//! Verified core of the link-review tool: search-form parsing, link and token
//! construction, formatting helpers and the decisions its pages are built from.

use vstd::prelude::*;

pub mod auth;
pub mod crypto;
pub mod dates;
pub mod file_search;
pub mod handlers;
pub mod link_list;
pub mod models;
pub mod object_id;
pub mod query_filters;
pub mod text;
pub mod tgfs_join;
pub mod tgfs_models;
pub mod tgfs_query_filters;
pub mod tgfs_token;
pub mod util;

verus! {

/// URL prefix the review tool is served under, e.g. `https://host/link-review/review`.
pub const BASE_PATH: &'static str = "/link-review";

/// URL of the public search page.
pub const BASE_PATH_LIST: &'static str = "/link-list";

} // verus!
