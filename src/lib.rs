//! Client logic for a television-metadata service: session tokens, request
//! construction, response classification, page-by-page episode collection and
//! the sorted, filename-safe episode listing.

pub mod model;
pub mod order;
pub mod text;
pub mod client;
pub mod pager;
