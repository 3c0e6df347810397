//! Verified core of a gallery mirroring tool.
//!
//! The library covers the logic of crawling a paginated photo-gallery site:
//! classifying an entry URL, resolving pagination, collecting links across
//! pages in order, rewriting thumbnail URLs into full-image URLs, and
//! deriving destination paths. HTML selection is done by the `scraper`
//! crate behind a small trusted boundary; all network and file I/O lives
//! outside the library.

pub mod classify;
pub mod collector;
pub mod errors;
pub mod extract;
pub mod normalize;
pub mod pagination;
pub mod paths;
pub mod text;
