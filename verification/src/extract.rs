//! Selection of link attributes and breadcrumb texts out of a fetched
//! HTML page.
//!
//! The HTML tree itself is the `scraper` crate's business and stays
//! behind two trusted wrappers. For a fixed document text, selector and
//! attribute name, what `scraper` selects is a function of those inputs
//! alone, so the wrappers' results are given names that the rest of the
//! library's contracts speak of.

use vstd::prelude::*;
use crate::errors::CrawlError;

verus! {

/// The attribute values of the elements of `body` matched by `selector`,
/// in document order; matched elements without the attribute contribute
/// nothing.
pub uninterp spec fn selected_attr_values(
    body: Seq<char>,
    selector: Seq<char>,
    attr: Seq<char>,
) -> Seq<Seq<char>>;

/// The inner HTML of the elements of `body` matched by `selector`, in
/// document order.
pub uninterp spec fn selected_inner_htmls(body: Seq<char>, selector: Seq<char>) -> Seq<
    Seq<char>,
>;

/// Whether `selector` compiles as a CSS selector group.
pub uninterp spec fn selector_parses(selector: Seq<char>) -> bool;

/// Relies on `scraper::Selector::parse`, `scraper::Html::parse_document`,
/// `Html::select` and `ElementRef::attr`: parsing and selection are pure,
/// selection walks the tree in document order, and `attr` returns the
/// attribute's value only where the element carries it.
#[verifier::external_body]
fn select_attr_values(body: &str, selector: &str, attr: &str) -> (r: Option<Vec<String>>)
    ensures
        r matches Some(v) ==> v.deep_view() == selected_attr_values(body@, selector@, attr@),
        r is Some <==> selector_parses(selector@),
{
    let sel = match scraper::Selector::parse(selector) {
        Ok(sel) => sel,
        Err(_) => return None,
    };
    let doc = scraper::Html::parse_document(body);
    Some(doc.select(&sel).filter_map(|el| el.attr(attr)).map(|a| a.to_string()).collect())
}

/// Relies on `scraper::Selector::parse`, `scraper::Html::parse_document`,
/// `Html::select` and `ElementRef::inner_html`: parsing, selection and
/// serialization are pure, and selection walks the tree in document
/// order.
#[verifier::external_body]
fn select_inner_htmls(body: &str, selector: &str) -> (r: Option<Vec<String>>)
    ensures
        r matches Some(v) ==> v.deep_view() == selected_inner_htmls(body@, selector@),
        r is Some <==> selector_parses(selector@),
{
    let sel = match scraper::Selector::parse(selector) {
        Ok(sel) => sel,
        Err(_) => return None,
    };
    let doc = scraper::Html::parse_document(body);
    Some(doc.select(&sel).map(|el| el.inner_html()).collect())
}

/// The selector for album links on a category page.
pub open spec fn album_selector() -> Seq<char> {
    ".alblink > a"@
}

/// The selector for thumbnail images on an album page.
pub open spec fn thumbnail_selector() -> Seq<char> {
    ".thumbnails > table > tbody > tr > td > a > img"@
}

/// The selector for the pagination menu's links.
pub open spec fn nav_selector() -> Seq<char> {
    ".navmenu > a"@
}

/// The selector for the breadcrumb anchors on an album page.
pub open spec fn breadcrumb_selector() -> Seq<char> {
    ".tableh1-statlink > .statlink > a"@
}

/// The `href` values of a category page's album links, in document order.
pub fn album_links(body: &str) -> (r: Result<Vec<String>, CrawlError>)
    ensures
        selector_parses(album_selector()) ==> (r matches Ok(v) && v.deep_view()
            == selected_attr_values(body@, album_selector(), "href"@)),
        !selector_parses(album_selector()) ==> r == Err::<Vec<String>, CrawlError>(
            CrawlError::SelectorInvalid,
        ),
{
    match select_attr_values(body, ".alblink > a", "href") {
        Some(v) => Ok(v),
        None => Err(CrawlError::SelectorInvalid),
    }
}

/// The `src` values of an album page's thumbnail images, in document
/// order.
pub fn thumbnail_links(body: &str) -> (r: Result<Vec<String>, CrawlError>)
    ensures
        selector_parses(thumbnail_selector()) ==> (r matches Ok(v) && v.deep_view()
            == selected_attr_values(body@, thumbnail_selector(), "src"@)),
        !selector_parses(thumbnail_selector()) ==> r == Err::<Vec<String>, CrawlError>(
            CrawlError::SelectorInvalid,
        ),
{
    match select_attr_values(body, ".thumbnails > table > tbody > tr > td > a > img", "src") {
        Some(v) => Ok(v),
        None => Err(CrawlError::SelectorInvalid),
    }
}

/// The `href` values of a page's pagination-menu links, in document
/// order. A menu anchor without an `href` contributes nothing: it is
/// skipped by the selection like any other missing attribute, rather
/// than treated as a fatal structural fault.
pub fn nav_links(body: &str) -> (r: Result<Vec<String>, CrawlError>)
    ensures
        selector_parses(nav_selector()) ==> (r matches Ok(v) && v.deep_view()
            == selected_attr_values(body@, nav_selector(), "href"@)),
        !selector_parses(nav_selector()) ==> r == Err::<Vec<String>, CrawlError>(
            CrawlError::SelectorInvalid,
        ),
{
    match select_attr_values(body, ".navmenu > a", "href") {
        Some(v) => Ok(v),
        None => Err(CrawlError::SelectorInvalid),
    }
}

/// The inner HTML of an album page's breadcrumb anchors, in document
/// order; the first is the self-referential home link.
pub fn breadcrumb_texts(body: &str) -> (r: Result<Vec<String>, CrawlError>)
    ensures
        selector_parses(breadcrumb_selector()) ==> (r matches Ok(v) && v.deep_view()
            == selected_inner_htmls(body@, breadcrumb_selector())),
        !selector_parses(breadcrumb_selector()) ==> r == Err::<Vec<String>, CrawlError>(
            CrawlError::SelectorInvalid,
        ),
{
    match select_inner_htmls(body, ".tableh1-statlink > .statlink > a") {
        Some(v) => Ok(v),
        None => Err(CrawlError::SelectorInvalid),
    }
}

} // verus!
