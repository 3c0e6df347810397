//! Resolving whether a listing page has a next page.
//!
//! The site renders its pager as absolute page-number links, so the
//! resolver looks for the one exact successor of the current page index,
//! never merely the largest page number. Candidates are scanned in
//! document order and the first hit wins; a candidate whose page value
//! does not parse is fatal. A gap in the page numbers means the crawl
//! stops at the current page.

use vstd::prelude::*;
use crate::errors::CrawlError;
use crate::text::{
    after_last,
    dec_val,
    page_num_ok,
    parse_usize,
    suffix_after_last_eq,
};

verus! {

/// What scanning the pagination links for a successor page yields.
pub enum NextPage {
    /// The successor page index was found.
    Found(nat),
    /// No link carries the successor index: the listing ends here.
    Exhausted,
    /// A link's page value does not parse as an unsigned integer.
    Malformed,
}

/// Scans the pagination links' `href` values in order for the first one
/// whose value after the last `=` equals `target`.
pub open spec fn scan_next(nav: Seq<Seq<char>>, target: nat) -> NextPage
    decreases nav.len(),
{
    if nav.len() == 0 {
        NextPage::Exhausted
    } else {
        let tail = after_last(nav[0], '=');
        if !page_num_ok(tail) {
            NextPage::Malformed
        } else if dec_val(tail) == target {
            NextPage::Found(target)
        } else {
            scan_next(nav.drop_first(), target)
        }
    }
}

/// A found next page is always exactly the requested successor: the
/// resolver can neither skip ahead nor fall back, so each step of a
/// paginated walk advances the page index by exactly one.
pub proof fn lemma_next_page_is_successor(nav: Seq<Seq<char>>, target: nat)
    ensures
        scan_next(nav, target) matches NextPage::Found(n) ==> n == target,
    decreases nav.len(),
{
    if nav.len() > 0 {
        lemma_next_page_is_successor(nav.drop_first(), target);
    }
}

/// A walk only ends while the successor is genuinely absent: when the
/// scan reports exhaustion, every pagination link parsed and none
/// carries the target value, so an index that does appear is never
/// skipped.
pub proof fn lemma_exhausted_means_absent(nav: Seq<Seq<char>>, target: nat)
    requires
        scan_next(nav, target) is Exhausted,
    ensures
        forall|i: int|
            0 <= i < nav.len() ==> page_num_ok(#[trigger] after_last(nav[i], '=')) && dec_val(
                after_last(nav[i], '='),
            ) != target,
    decreases nav.len(),
{
    if nav.len() > 0 {
        lemma_exhausted_means_absent(nav.drop_first(), target);
        assert forall|i: int|
            0 <= i < nav.len() implies page_num_ok(#[trigger] after_last(nav[i], '='))
            && dec_val(after_last(nav[i], '=')) != target by {
            if i > 0 {
                assert(after_last(nav.drop_first()[i - 1], '=') == after_last(nav[i], '='));
            }
        }
    }
}

/// Looks for the page after `page_idx` among the pagination links'
/// `href` values. Returns the successor index, `None` when the listing
/// has no further page, or an error when a page value does not parse.
pub fn resolve_next(nav: &Vec<String>, page_idx: usize) -> (r: Result<Option<usize>, CrawlError>)
    ensures
        match scan_next(nav.deep_view(), page_idx as nat + 1) {
            NextPage::Found(n) => r matches Ok(Some(v)) && v as nat == n && v == page_idx + 1,
            NextPage::Exhausted => r == Ok::<Option<usize>, CrawlError>(None),
            NextPage::Malformed => r == Err::<Option<usize>, CrawlError>(
                CrawlError::PageNumberInvalid,
            ),
        },
{
    let ghost target = page_idx as nat + 1;
    let n = nav.len();
    let mut i: usize = 0;
    proof {
        assert(nav.deep_view().skip(0) =~= nav.deep_view());
    }
    while i < n
        invariant
            n == nav.len(),
            i <= n,
            target == page_idx as nat + 1,
            scan_next(nav.deep_view(), target) == scan_next(
                nav.deep_view().skip(i as int),
                target,
            ),
        decreases n - i,
    {
        proof {
            assert(nav.deep_view().skip(i as int)[0] == nav@[i as int]@);
            assert(nav.deep_view().skip(i as int).drop_first() =~= nav.deep_view().skip(i + 1));
        }
        let tail = suffix_after_last_eq(nav[i].as_str());
        match parse_usize(tail.as_str()) {
            None => {
                return Err(CrawlError::PageNumberInvalid);
            },
            Some(v) => {
                if page_idx < usize::MAX && v == page_idx + 1 {
                    return Ok(Some(v));
                }
                proof {
                    assert(v as nat != target);
                }
            },
        }
        i += 1;
    }
    proof {
        assert(nav.deep_view().skip(n as int) =~= Seq::<Seq<char>>::empty());
    }
    Ok(None)
}

} // verus!
