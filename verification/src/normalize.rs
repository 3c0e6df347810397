//! Rewriting a collected thumbnail URL into a full-image URL.

use vstd::prelude::*;
use crate::text::{match_at, strip_all, remove_occurrences, eq_at};

verus! {

/// The string starts with an HTTP scheme and so is already absolute.
pub open spec fn has_scheme(s: Seq<char>) -> bool {
    match_at(s, "http://"@, 0) || match_at(s, "https://"@, 0)
}

/// The full-image URL for a raw link: every occurrence of `thumb_` is
/// removed; the result is then resolved against `base` unless it already
/// carries a scheme, with exactly one path separator between the two.
pub open spec fn normalized(link: Seq<char>, base: Seq<char>) -> Seq<char> {
    let stripped = strip_all(link, "thumb_"@);
    if has_scheme(stripped) {
        stripped
    } else if stripped.len() > 0 && stripped[0] == '/' {
        base + stripped
    } else {
        base + seq!['/'] + stripped
    }
}

/// Rewrites one raw link into an absolute full-image URL.
pub fn normalize(link: &str, base: &str) -> (r: String)
    ensures
        r@ == normalized(link@, base@),
{
    proof {
        reveal_strlit("thumb_");
        reveal_strlit("http://");
        reveal_strlit("https://");
        reveal_strlit("/");
    }
    let stripped = remove_occurrences(link, "thumb_");
    let s = stripped.as_str();
    let sl = s.unicode_len();
    let scheme = (sl >= 7 && eq_at(s, 0, "http://")) || (sl >= 8 && eq_at(s, 0, "https://"));
    if scheme {
        stripped
    } else {
        let rooted = sl > 0 && s.get_char(0) == '/';
        let mut r = base.to_owned();
        if !rooted {
            r.append("/");
            proof {
                assert(base@ + "/"@ =~= base@ + seq!['/']);
            }
        }
        r.append(stripped.as_str());
        r
    }
}

/// Rewrites every collected raw link into its full-image URL, keeping
/// the collection order.
pub fn normalize_all(links: &Vec<String>, base: &str) -> (r: Vec<String>)
    ensures
        r.deep_view() == links.deep_view().map_values(|link: Seq<char>| normalized(link, base@)),
{
    let ghost goal = links.deep_view().map_values(
        |link: Seq<char>| normalized(link, base@),
    );
    let mut r: Vec<String> = Vec::new();
    let mut i: usize = 0;
    while i < links.len()
        invariant
            i <= links.len(),
            goal == links.deep_view().map_values(|link: Seq<char>| normalized(link, base@)),
            r@.len() == i,
            forall|j: int| 0 <= j < i ==> #[trigger] r@[j]@ == goal[j],
        decreases links.len() - i,
    {
        let image = normalize(links[i].as_str(), base);
        r.push(image);
        proof {
            assert(links.deep_view()[i as int] == links@[i as int]@);
            assert(goal[i as int] == normalized(links@[i as int]@, base@));
        }
        i += 1;
    }
    proof {
        assert(r.deep_view() =~= goal);
    }
    r
}

/// The sequence with every repeated URL removed: a position is kept
/// exactly when no earlier position holds the same URL, so the first
/// occurrence of each URL survives and the relative order is unchanged.
pub open spec fn dedup_in_order(s: Seq<Seq<char>>) -> Seq<Seq<char>>
    decreases s.len(),
{
    if s.len() == 0 {
        s
    } else if s.drop_last().contains(s.last()) {
        dedup_in_order(s.drop_last())
    } else {
        dedup_in_order(s.drop_last()).push(s.last())
    }
}

proof fn lemma_dedup_membership(s: Seq<Seq<char>>, x: Seq<char>)
    ensures
        dedup_in_order(s).contains(x) == s.contains(x),
    decreases s.len(),
{
    if s.len() > 0 {
        lemma_dedup_membership(s.drop_last(), x);
        let rest = dedup_in_order(s.drop_last());
        if s.contains(x) {
            let k = choose|k: int| 0 <= k < s.len() && s[k] == x;
            if k < s.len() - 1 {
                assert(s.drop_last()[k] == x);
                assert(s.drop_last().contains(x));
            } else if s.drop_last().contains(s.last()) {
                assert(s.drop_last().contains(x));
            } else {
                assert(rest.push(s.last())[rest.len() as int] == x);
            }
            if s.drop_last().contains(x) {
                let m = choose|m: int| 0 <= m < rest.len() && rest[m] == x;
                if !s.drop_last().contains(s.last()) {
                    assert(rest.push(s.last())[m] == x);
                }
            }
        }
        if dedup_in_order(s).contains(x) {
            let k = choose|k: int|
                0 <= k < dedup_in_order(s).len() && dedup_in_order(s)[k] == x;
            if !s.drop_last().contains(s.last()) && k == rest.len() {
                assert(s[s.len() - 1] == x);
            } else {
                assert(rest[k] == x);
                assert(rest.contains(x));
                let m = choose|m: int|
                    0 <= m < s.drop_last().len() && s.drop_last()[m] == x;
                assert(s[m] == x);
            }
        }
    }
}

/// Deduplication keeps exactly the URLs of its input and leaves no
/// duplicate behind: the result holds a URL if and only if the input
/// does, and no two of its positions are equal.
pub proof fn lemma_dedup_in_order_sound(s: Seq<Seq<char>>)
    ensures
        forall|x: Seq<char>| #[trigger] dedup_in_order(s).contains(x) == s.contains(x),
        forall|i: int, j: int|
            0 <= i < j < dedup_in_order(s).len() ==> dedup_in_order(s)[i] != dedup_in_order(
                s,
            )[j],
    decreases s.len(),
{
    assert forall|x: Seq<char>| #[trigger] dedup_in_order(s).contains(x) == s.contains(x) by {
        lemma_dedup_membership(s, x);
    }
    if s.len() > 0 {
        lemma_dedup_in_order_sound(s.drop_last());
        let rest = dedup_in_order(s.drop_last());
        let d = dedup_in_order(s);
        assert forall|i: int, j: int| 0 <= i < j < d.len() implies d[i] != d[j] by {
            if !s.drop_last().contains(s.last()) {
                lemma_dedup_membership(s.drop_last(), s.last());
                if j == rest.len() {
                    assert(d[i] == rest[i]);
                    assert(rest.contains(rest[i]) || d[i] != d[j]) by {
                        if 0 <= i < rest.len() {
                            assert(rest.contains(rest[i]));
                        }
                    }
                } else {
                    assert(d[i] == rest[i] && d[j] == rest[j]);
                }
            }
        }
    }
}

/// Removes every repeated URL from the collected image list, keeping
/// the first occurrence of each and the order of what stays.
pub fn dedup_urls(links: &Vec<String>) -> (r: Vec<String>)
    ensures
        r.deep_view() == dedup_in_order(links.deep_view()),
{
    let ghost dv = links.deep_view();
    let mut r: Vec<String> = Vec::new();
    let mut i: usize = 0;
    proof {
        assert(r.deep_view() =~= dedup_in_order(dv.take(0)));
    }
    while i < links.len()
        invariant
            i <= links.len(),
            dv == links.deep_view(),
            r.deep_view() == dedup_in_order(dv.take(i as int)),
        decreases links.len() - i,
    {
        let mut seen = false;
        let mut j: usize = 0;
        while j < i
            invariant
                j <= i,
                i < links.len(),
                dv == links.deep_view(),
                seen == exists|k: int| 0 <= k < j && dv[k] == dv[i as int],
            decreases i - j,
        {
            if links[j] == links[i] {
                proof {
                    assert(dv[j as int] == dv[i as int]);
                }
                seen = true;
            }
            j += 1;
        }
        proof {
            assert(dv.take(i + 1).drop_last() =~= dv.take(i as int));
            assert(dv.take(i + 1).last() == dv[i as int]);
            assert(seen == dv.take(i as int).contains(dv[i as int])) by {
                if seen {
                    let k = choose|k: int| 0 <= k < i && dv[k] == dv[i as int];
                    assert(dv.take(i as int)[k] == dv[i as int]);
                }
                if dv.take(i as int).contains(dv[i as int]) {
                    let k = choose|k: int|
                        0 <= k < i && dv.take(i as int)[k] == dv[i as int];
                    assert(dv[k] == dv[i as int]);
                }
            }
        }
        if !seen {
            r.push(links[i].clone());
            proof {
                assert(r.deep_view() =~= dedup_in_order(dv.take(i + 1)));
            }
        }
        i += 1;
    }
    proof {
        assert(dv.take(links.len() as int) =~= dv);
    }
    r
}

} // verus!
