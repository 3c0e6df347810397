//! Classification of an entry URL and extraction of the site's base URL.

use vstd::prelude::*;
use crate::text::{match_at, has_match, find_first};

verus! {

/// What an entry-point URL refers to.
#[derive(Clone, Copy, Debug, PartialEq, Eq)]
pub enum GalleryKind {
    /// A listing of albums.
    Category,
    /// A paginated grid of thumbnails.
    Album,
    /// Neither; the crawl reports it and does nothing else.
    Unsupported,
}

/// The classification of `url`: an album when it contains
/// `/thumbnails.php`, else a category when it contains `/index.php?cat=`,
/// else unsupported.
pub open spec fn classified(url: Seq<char>) -> GalleryKind {
    if has_match(url, "/thumbnails.php"@) {
        GalleryKind::Album
    } else if has_match(url, "/index.php?cat="@) {
        GalleryKind::Category
    } else {
        GalleryKind::Unsupported
    }
}

/// Classifies an entry URL by the markers it contains.
pub fn classify(url: &str) -> (k: GalleryKind)
    ensures
        k == classified(url@),
{
    if find_first(url, "/thumbnails.php").is_some() {
        GalleryKind::Album
    } else if find_first(url, "/index.php?cat=").is_some() {
        GalleryKind::Category
    } else {
        GalleryKind::Unsupported
    }
}

/// `b` is the prefix of `url` before the first occurrence of `marker`.
pub open spec fn is_base_before(url: Seq<char>, marker: Seq<char>, b: Seq<char>) -> bool {
    exists|i: int|
        match_at(url, marker, i) && (forall|j: int| 0 <= j < i ==> !match_at(url, marker, j))
            && b == url.take(i)
}

proof fn lemma_match_prefix(s: Seq<char>, p: Seq<char>, q: Seq<char>, i: int)
    requires
        match_at(s, p, i),
        q.len() <= p.len(),
        q == p.subrange(0, q.len() as int),
    ensures
        match_at(s, q, i),
{
    assert(s.subrange(i, i + q.len()) =~= s.subrange(i, i + p.len()).subrange(0, q.len() as int));
}

/// The base URL of a classified entry URL: the part before the first
/// `/thumbnails` for an album, before the first `/index.php` for a
/// category, and nothing for an unsupported URL.
pub fn entry_base(url: &str) -> (r: Option<String>)
    ensures
        ({
            let k = classified(url@);
            &&& k is Unsupported ==> r is None
            &&& k is Album ==> (r matches Some(b) && is_base_before(url@, "/thumbnails"@, b@))
            &&& k is Category ==> (r matches Some(b) && is_base_before(url@, "/index.php"@, b@))
        }),
{
    let marker: &str = match classify(url) {
        GalleryKind::Album => "/thumbnails",
        GalleryKind::Category => "/index.php",
        GalleryKind::Unsupported => {
            return None;
        },
    };
    proof {
        reveal_strlit("/thumbnails.php");
        reveal_strlit("/index.php?cat=");
        reveal_strlit("/thumbnails");
        reveal_strlit("/index.php");
        if classified(url@) is Album {
            let i = choose|i: int| match_at(url@, "/thumbnails.php"@, i);
            assert("/thumbnails"@ =~= "/thumbnails.php"@.subrange(0, 11));
            lemma_match_prefix(url@, "/thumbnails.php"@, "/thumbnails"@, i);
        } else {
            let i = choose|i: int| match_at(url@, "/index.php?cat="@, i);
            assert("/index.php"@ =~= "/index.php?cat="@.subrange(0, 10));
            lemma_match_prefix(url@, "/index.php?cat="@, "/index.php"@, i);
        }
    }
    match find_first(url, marker) {
        Some(i) => {
            let b = url.substring_char(0, i);
            proof {
                assert(url@.subrange(0, i as int) =~= url@.take(i as int));
            }
            Some(b.to_owned())
        },
        None => {
            proof {
                assert(false);
            }
            None
        },
    }
}

/// The URL of an album reached from a category listing: the base URL, a
/// path separator, then the collected href.
pub fn child_album_url(base: &str, href: &str) -> (r: String)
    ensures
        r@ == base@ + "/"@ + href@,
{
    let mut r = base.to_owned();
    r.append("/");
    r.append(href);
    proof {
        assert(base@ + "/"@ + href@ =~= (base@ + "/"@) + href@);
    }
    r
}

} // verus!
