//! The paginated collector: walks all pages of a listing and flattens
//! their extracted links into one page-ordered sequence.
//!
//! The collector is a state machine over fetched page bodies. The caller
//! fetches whatever `pending_url` names and hands the outcome to `feed`;
//! the collector extracts the page's links, appends them in document
//! order behind the earlier pages' links, and resolves the next page. A
//! fetch failure, a selector that does not compile, or a pagination link
//! that does not parse is fatal: the collector fails and never yields a
//! partial list.

use vstd::prelude::*;
use crate::errors::{CrawlError, FetchError};
use crate::extract::{
    album_links,
    album_selector,
    nav_links,
    nav_selector,
    selected_attr_values,
    selector_parses,
    thumbnail_links,
    thumbnail_selector,
};
use crate::pagination::{resolve_next, scan_next, NextPage};
use crate::text::{contains_char, dec_str, usize_to_string};

verus! {

/// Which structural pattern a listing's links are extracted with.
#[derive(Clone, Copy, Debug, PartialEq, Eq)]
pub enum LinkPattern {
    /// Album anchors on a category page; their `href` is collected.
    AlbumAnchor,
    /// Thumbnail images on an album page; their `src` is collected.
    ThumbnailImage,
}

/// Where a collection stands.
#[derive(Clone, Copy, Debug, PartialEq, Eq)]
pub enum CollectState {
    /// A page is pending; its URL is the collector's current URL.
    Running,
    /// Every page was walked; the collected links are complete.
    Complete,
    /// A fatal condition was met; no links are handed out.
    Failed,
}

/// The selector a pattern matches with.
pub open spec fn pattern_selector(p: LinkPattern) -> Seq<char> {
    match p {
        LinkPattern::AlbumAnchor => album_selector(),
        LinkPattern::ThumbnailImage => thumbnail_selector(),
    }
}

/// The attribute a pattern collects.
pub open spec fn pattern_attr(p: LinkPattern) -> Seq<char> {
    match p {
        LinkPattern::AlbumAnchor => "href"@,
        LinkPattern::ThumbnailImage => "src"@,
    }
}

/// The raw links one page contributes, in document order.
pub open spec fn page_links_of(p: LinkPattern, body: Seq<char>) -> Seq<Seq<char>> {
    selected_attr_values(body, pattern_selector(p), pattern_attr(p))
}

/// The pagination links of one page.
pub open spec fn nav_values_of(body: Seq<char>) -> Seq<Seq<char>> {
    selected_attr_values(body, nav_selector(), "href"@)
}

/// The URL of page `n`, chained off the current page's URL: a `page`
/// query parameter is appended, with `&` when the URL already carries a
/// query string and `?` when it does not.
pub open spec fn next_url_of(url: Seq<char>, n: nat) -> Seq<char> {
    if url.contains('?') {
        url + "&page="@ + dec_str(n)
    } else {
        url + "?page="@ + dec_str(n)
    }
}

fn extend_page_url(url: &String, n: usize) -> (r: String)
    ensures
        r@ == next_url_of(url@, n as nat),
{
    let has_query = contains_char(url.as_str(), '?');
    let mut r = url.clone();
    if has_query {
        r.append("&page=");
        proof {
            assert(url@ + "&page="@ + dec_str(n as nat) =~= (url@ + "&page="@) + dec_str(
                n as nat,
            ));
        }
    } else {
        r.append("?page=");
        proof {
            assert(url@ + "?page="@ + dec_str(n as nat) =~= (url@ + "?page="@) + dec_str(
                n as nat,
            ));
        }
    }
    let num = usize_to_string(n);
    r.append(num.as_str());
    r
}

/// A paginated walk over one listing.
pub struct Collector {
    /// The URL of the page to fetch next, while running.
    pub url: String,
    /// The 1-based index of the page `url` names.
    pub page_idx: usize,
    /// The structural pattern links are extracted with.
    pub pattern: LinkPattern,
    /// The links of the pages walked so far, page-ascending, document
    /// order within each page.
    pub links: Vec<String>,
    /// Where the walk stands.
    pub state: CollectState,
}

impl Collector {
    /// Starts a walk at page 1 of `start_url`.
    pub fn new(start_url: String, pattern: LinkPattern) -> (c: Collector)
        ensures
            c.url == start_url,
            c.page_idx == 1,
            c.pattern == pattern,
            c.state is Running,
            c.links.deep_view() == Seq::<Seq<char>>::empty(),
    {
        let c = Collector {
            url: start_url,
            page_idx: 1,
            pattern,
            links: Vec::new(),
            state: CollectState::Running,
        };
        proof {
            assert(c.links.deep_view() =~= Seq::<Seq<char>>::empty());
        }
        c
    }

    /// The URL the caller should fetch next; nothing once the walk has
    /// completed or failed.
    pub fn pending_url(&self) -> (r: Option<String>)
        ensures
            match r {
                Some(u) => self.state is Running && u@ == self.url@,
                None => !(self.state is Running),
            },
    {
        match self.state {
            CollectState::Running => Some(self.url.clone()),
            _ => None,
        }
    }

    /// Whether every page was walked and the links are complete.
    pub fn is_complete(&self) -> (r: bool)
        ensures
            r == (self.state is Complete),
    {
        match self.state {
            CollectState::Complete => true,
            _ => false,
        }
    }

    /// Consumes one fetch outcome for the pending page. On success the
    /// page's links are appended behind the earlier pages' links and the
    /// walk advances to the successor page, or completes when the
    /// pagination menu names none. A fetch failure, a selector that does
    /// not compile, or an unparsable page value fails the whole walk and
    /// leaves the collected links untouched.
    pub fn feed(&mut self, fetched: Result<String, FetchError>) -> (r: Result<(), CrawlError>)
        requires
            old(self).state is Running,
        ensures
            final(self).pattern == old(self).pattern,
            fetched matches Err(e) ==> final(self).state is Failed && r == Err::<(), CrawlError>(
                CrawlError::Fetch(e),
            ) && final(self).links == old(self).links,
            fetched matches Ok(body) ==> ({
                let p = old(self).pattern;
                let sels_ok = selector_parses(pattern_selector(p)) && selector_parses(
                    nav_selector(),
                );
                &&& !sels_ok ==> final(self).state is Failed && r == Err::<(), CrawlError>(
                    CrawlError::SelectorInvalid,
                ) && final(self).links == old(self).links
                &&& sels_ok ==> ({
                    let nxt = scan_next(nav_values_of(body@), old(self).page_idx as nat + 1);
                    &&& nxt is Malformed ==> final(self).state is Failed && r == Err::<
                        (),
                        CrawlError,
                    >(CrawlError::PageNumberInvalid) && final(self).links == old(self).links
                    &&& nxt matches NextPage::Found(n) ==> final(self).links.deep_view() == old(
                        self,
                    ).links.deep_view() + page_links_of(p, body@) && final(self).state is Running
                        && final(self).page_idx as nat == n && n == old(self).page_idx as nat + 1
                        && final(self).url@ == next_url_of(old(self).url@, n) && r is Ok
                    &&& nxt is Exhausted ==> final(self).links.deep_view() == old(
                        self,
                    ).links.deep_view() + page_links_of(p, body@) && final(self).state is Complete
                        && r is Ok
                })
            }),
    {
        let body = match fetched {
            Ok(body) => body,
            Err(e) => {
                self.state = CollectState::Failed;
                return Err(CrawlError::Fetch(e));
            },
        };
        let extracted = match self.pattern {
            LinkPattern::AlbumAnchor => album_links(body.as_str()),
            LinkPattern::ThumbnailImage => thumbnail_links(body.as_str()),
        };
        let mut page_links = match extracted {
            Ok(v) => v,
            Err(e) => {
                self.state = CollectState::Failed;
                return Err(e);
            },
        };
        let nav = match nav_links(body.as_str()) {
            Ok(v) => v,
            Err(e) => {
                self.state = CollectState::Failed;
                return Err(e);
            },
        };
        let next = match resolve_next(&nav, self.page_idx) {
            Ok(o) => o,
            Err(e) => {
                self.state = CollectState::Failed;
                return Err(e);
            },
        };
        let ghost links_before = self.links.deep_view();
        let ghost page = page_links.deep_view();
        self.links.append(&mut page_links);
        proof {
            assert(self.links.deep_view() =~= links_before + page);
        }
        match next {
            Some(n) => {
                let next_url = extend_page_url(&self.url, n);
                self.url = next_url;
                self.page_idx = n;
            },
            None => {
                self.state = CollectState::Complete;
            },
        }
        Ok(())
    }

    /// Hands out the complete collected link list, page-ascending and in
    /// document order within each page. Only a completed walk has one: a
    /// failed walk never yields a partial list.
    pub fn into_links(self) -> (r: Vec<String>)
        requires
            self.state is Complete,
        ensures
            r == self.links,
    {
        self.links
    }
}

} // verus!
