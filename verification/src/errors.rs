//! The crawl's error taxonomy. Every error is fatal to the crawl that
//! raised it: there is no retry and no partial-result salvage.

use vstd::prelude::*;

verus! {

/// A failure while fetching one page or image over HTTP.
#[derive(Clone, Copy, Debug, PartialEq, Eq)]
pub enum FetchError {
    /// The request could not be sent or the connection failed.
    Connect,
    /// The server answered with a non-success status code.
    Status(u16),
    /// The response body could not be read.
    Body,
}

/// A fatal condition met while crawling a listing.
#[derive(Clone, Copy, Debug, PartialEq, Eq)]
pub enum CrawlError {
    /// A page fetch failed; the whole collection is abandoned.
    Fetch(FetchError),
    /// A structural selector pattern failed to compile.
    SelectorInvalid,
    /// A pagination link's page value did not parse as an unsigned integer.
    PageNumberInvalid,
    /// The breadcrumb selection yielded no usable path segment.
    NoPathSegments,
}

} // verus!
