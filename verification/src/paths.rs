//! Deriving the destination folder path and file names for an album.
//!
//! The canonical path strategy is the breadcrumb one: the album's
//! breadcrumb anchors, minus the leading self-referential home link, give
//! the folder hierarchy, and the final segment (the album title) is
//! sanitized. A flat title-only strategy exists on some sites; this
//! library implements only the breadcrumb strategy, so that one album
//! always maps to one folder layout.

use vstd::prelude::*;
use crate::errors::CrawlError;
use crate::text::{sanitized, sanitize, dec_str, usize_to_string};

verus! {

/// The segments joined with a path separator, with no trailing separator.
pub open spec fn joined(segs: Seq<Seq<char>>) -> Seq<char>
    decreases segs.len(),
{
    if segs.len() == 0 {
        Seq::empty()
    } else if segs.len() == 1 {
        segs[0]
    } else {
        joined(segs.drop_last()) + seq!['/'] + segs.last()
    }
}

/// The destination folder for an album with breadcrumb texts `crumbs`:
/// the first (home) crumb is dropped, the last remaining one is
/// sanitized as the album title, and the rest join them with separators.
pub open spec fn album_dir_of(crumbs: Seq<Seq<char>>) -> Seq<char> {
    let raw = crumbs.skip(1);
    joined(raw.update(raw.len() - 1, sanitized(raw.last())))
}

/// Derives the destination folder from the breadcrumb texts of an
/// album's first page. Fails when no path segment is left after the home
/// crumb is dropped.
pub fn album_dir(crumbs: &Vec<String>) -> (r: Result<String, CrawlError>)
    ensures
        crumbs.len() <= 1 ==> r == Err::<String, CrawlError>(CrawlError::NoPathSegments),
        crumbs.len() >= 2 ==> (r matches Ok(d) && d@ == album_dir_of(crumbs.deep_view())),
{
    let n = crumbs.len();
    if n <= 1 {
        return Err(CrawlError::NoPathSegments);
    }
    let ghost raw = crumbs.deep_view().skip(1);
    let ghost segs = raw.update(raw.len() - 1, sanitized(raw.last()));
    let mut r = String::new();
    let mut i: usize = 1;
    proof {
        assert(segs.len() == n - 1);
    }
    while i < n
        invariant
            n == crumbs.len(),
            2 <= n,
            1 <= i <= n,
            raw == crumbs.deep_view().skip(1),
            segs == raw.update(raw.len() - 1, sanitized(raw.last())),
            segs.len() == n - 1,
            r@ == joined(segs.take(i - 1)),
        decreases n - i,
    {
        if i > 1 {
            r.append("/");
        }
        if i == n - 1 {
            let t = sanitize(crumbs[i].as_str());
            r.append(t.as_str());
        } else {
            r.append(crumbs[i].as_str());
        }
        proof {
            reveal_strlit("/");
            assert(segs[i - 1] == (if i == n - 1 {
                sanitized(crumbs.deep_view()[i as int])
            } else {
                crumbs.deep_view()[i as int]
            }));
            assert(crumbs.deep_view()[i as int] == crumbs@[i as int]@);
            assert(segs.take(i as int).drop_last() =~= segs.take(i - 1));
            if i == 1 {
                assert(joined(segs.take(1)) == segs[0]);
            } else {
                assert(joined(segs.take(i as int)) == joined(segs.take(i - 1)) + seq!['/']
                    + segs[i - 1]);
            }
        }
        i += 1;
    }
    proof {
        assert(segs.take(n - 1) =~= segs);
    }
    Ok(r)
}

/// The destination file for the image at 0-based position `index` in the
/// final deduplicated image list, inside `dir`: files are named `1.jpg`,
/// `2.jpg`, ... in that list's order.
pub fn dest_file_name(dir: &str, index: usize) -> (r: String)
    requires
        index < usize::MAX,
    ensures
        r@ == dir@ + "/"@ + dec_str(index as nat + 1) + ".jpg"@,
{
    let mut r = dir.to_owned();
    r.append("/");
    let num = usize_to_string(index + 1);
    r.append(num.as_str());
    r.append(".jpg");
    proof {
        assert(dir@ + "/"@ + dec_str(index as nat + 1) + ".jpg"@ =~= ((dir@ + "/"@) + dec_str(
            index as nat + 1,
        )) + ".jpg"@);
    }
    r
}

/// One progress report line, `Downloading [current] of [total]`.
pub fn progress_line(current: usize, total: usize) -> (r: String)
    ensures
        r@ == "Downloading ["@ + dec_str(current as nat) + "] of ["@ + dec_str(total as nat)
            + "]"@,
{
    let mut r = String::new();
    r.append("Downloading [");
    r.append(usize_to_string(current).as_str());
    r.append("] of [");
    r.append(usize_to_string(total).as_str());
    r.append("]");
    proof {
        assert("Downloading ["@ + dec_str(current as nat) + "] of ["@ + dec_str(total as nat)
            + "]"@ =~= ((((Seq::<char>::empty() + "Downloading ["@) + dec_str(current as nat))
            + "] of ["@) + dec_str(total as nat)) + "]"@);
    }
    r
}

} // verus!
