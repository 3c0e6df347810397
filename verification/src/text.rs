//! Character-level string helpers: substring matching, removal of a pattern's
//! occurrences, decimal parsing and printing, and suffix extraction.

use vstd::prelude::*;

verus! {

/// The pattern `pat` occurs in `s` starting at position `i`.
pub open spec fn match_at(s: Seq<char>, pat: Seq<char>, i: int) -> bool {
    &&& 0 <= i
    &&& i + pat.len() <= s.len()
    &&& s.subrange(i, i + pat.len() as int) == pat
}

/// The pattern `pat` occurs somewhere in `s`.
pub open spec fn has_match(s: Seq<char>, pat: Seq<char>) -> bool {
    exists|i: int| match_at(s, pat, i)
}

/// Compares `pat` against the characters of `s` starting at `i`.
pub fn eq_at(s: &str, i: usize, pat: &str) -> (r: bool)
    requires
        i + pat@.len() <= s@.len(),
    ensures
        r == match_at(s@, pat@, i as int),
{
    let sl = s.unicode_len();
    let n = pat.unicode_len();
    let mut j: usize = 0;
    while j < n
        invariant
            sl == s@.len(),
            n == pat@.len(),
            i + n <= sl,
            j <= n,
            forall|k: int| 0 <= k < j ==> s@[i + k] == pat@[k],
        decreases n - j,
    {
        if s.get_char(i + j) != pat.get_char(j) {
            proof {
                assert(s@.subrange(i as int, i + pat@.len() as int)[j as int] != pat@[j as int]);
            }
            return false;
        }
        j += 1;
    }
    proof {
        assert(s@.subrange(i as int, i + pat@.len() as int) =~= pat@);
    }
    true
}

/// Finds the first occurrence of `pat` in `s`, if any.
pub fn find_first(s: &str, pat: &str) -> (r: Option<usize>)
    ensures
        match r {
            Some(i) => match_at(s@, pat@, i as int) && (forall|j: int|
                0 <= j < i ==> !match_at(s@, pat@, j)),
            None => !has_match(s@, pat@),
        },
{
    let sl = s.unicode_len();
    let n = pat.unicode_len();
    if n > sl {
        return None;
    }
    if n == 0 {
        proof {
            assert(s@.subrange(0, 0) =~= pat@);
        }
        return Some(0);
    }
    let mut i: usize = 0;
    while i <= sl - n
        invariant
            sl == s@.len(),
            n == pat@.len(),
            0 < n <= sl,
            i <= sl - n + 1,
            forall|j: int| 0 <= j < i ==> !match_at(s@, pat@, j),
        decreases sl - i,
    {
        if eq_at(s, i, pat) {
            return Some(i);
        }
        i += 1;
    }
    None
}

/// One left-to-right pass over `s` that removes each non-overlapping
/// occurrence of `pat`; text inside an already removed occurrence is not
/// rescanned.
pub open spec fn strip_all(s: Seq<char>, pat: Seq<char>) -> Seq<char>
    decreases s.len(),
{
    if pat.len() == 0 || s.len() < pat.len() {
        s
    } else if s.subrange(0, pat.len() as int) == pat {
        strip_all(s.skip(pat.len() as int), pat)
    } else {
        seq![s[0]] + strip_all(s.skip(1), pat)
    }
}

/// Removes every occurrence of `pat` from `s` in one left-to-right pass.
pub fn remove_occurrences(s: &str, pat: &str) -> (r: String)
    requires
        pat@.len() > 0,
    ensures
        r@ == strip_all(s@, pat@),
{
    let sl = s.unicode_len();
    let n = pat.unicode_len();
    let mut r = String::new();
    let mut i: usize = 0;
    proof {
        assert(s@.skip(0) =~= s@);
        assert(Seq::<char>::empty() + strip_all(s@, pat@) =~= strip_all(s@, pat@));
    }
    while i < sl
        invariant
            sl == s@.len(),
            n == pat@.len(),
            n > 0,
            i <= sl,
            strip_all(s@, pat@) == r@ + strip_all(s@.skip(i as int), pat@),
        decreases sl - i,
    {
        if n <= sl - i && eq_at(s, i, pat) {
            proof {
                assert(s@.skip(i as int).subrange(0, pat@.len() as int) =~= s@.subrange(
                    i as int,
                    i + pat@.len() as int,
                ));
                assert(s@.skip(i as int).skip(pat@.len() as int) =~= s@.skip(i + pat@.len()));
            }
            i += n;
        } else {
            proof {
                if n <= sl - i {
                    assert(s@.skip(i as int).subrange(0, pat@.len() as int) =~= s@.subrange(
                        i as int,
                        i + pat@.len() as int,
                    ));
                }
                assert(s@.skip(i as int).skip(1) =~= s@.skip(i + 1));
                assert(seq![s@.skip(i as int)[0]] =~= s@.subrange(i as int, i + 1));
                assert(strip_all(s@.skip(i as int), pat@) == s@.subrange(i as int, i + 1)
                    + strip_all(s@.skip(i + 1), pat@));
            }
            let piece = s.substring_char(i, i + 1);
            r.append(piece);
            i += 1;
        }
    }
    proof {
        assert(s@.skip(sl as int) =~= Seq::<char>::empty());
        assert(r@ + Seq::<char>::empty() =~= r@);
    }
    r
}

/// The characters of `s` with every `"` removed and every `/` replaced by `_`.
pub open spec fn sanitized(s: Seq<char>) -> Seq<char>
    decreases s.len(),
{
    if s.len() == 0 {
        Seq::empty()
    } else {
        let rest = sanitized(s.drop_last());
        if s.last() == '"' {
            rest
        } else if s.last() == '/' {
            rest + seq!['_']
        } else {
            rest + seq![s.last()]
        }
    }
}

/// Rewrites `s` with every `"` removed and every `/` replaced by `_`.
pub fn sanitize(s: &str) -> (r: String)
    ensures
        r@ == sanitized(s@),
{
    let sl = s.unicode_len();
    let mut r = String::new();
    let mut i: usize = 0;
    while i < sl
        invariant
            sl == s@.len(),
            i <= sl,
            r@ == sanitized(s@.take(i as int)),
        decreases sl - i,
    {
        proof {
            assert(s@.take(i + 1).drop_last() =~= s@.take(i as int));
            assert(s@.take(i + 1).last() == s@[i as int]);
        }
        let c = s.get_char(i);
        if c == '"' {
        } else if c == '/' {
            r.append("_");
            proof {
                reveal_strlit("_");
                assert(sanitized(s@.take(i as int)) + "_"@ =~= sanitized(s@.take(i + 1)));
            }
        } else {
            proof {
                assert(s@.subrange(i as int, i + 1) =~= seq![s@[i as int]]);
            }
            let piece = s.substring_char(i, i + 1);
            r.append(piece);
        }
        i += 1;
    }
    proof {
        assert(s@.take(sl as int) =~= s@);
    }
    r
}

/// The suffix of `s` after the last occurrence of `c`; all of `s` when `c`
/// does not occur.
pub open spec fn after_last(s: Seq<char>, c: char) -> Seq<char>
    decreases s.len(),
{
    if s.len() == 0 {
        s
    } else if s.last() == c {
        Seq::empty()
    } else {
        after_last(s.drop_last(), c) + seq![s.last()]
    }
}

proof fn lemma_after_last_is_clean_suffix(s: Seq<char>, c: char, i: int)
    requires
        0 <= i <= s.len(),
        i == 0 || s[i - 1] == c,
        forall|k: int| i <= k < s.len() ==> s[k] != c,
    ensures
        after_last(s, c) == s.skip(i),
    decreases s.len(),
{
    if s.len() == i {
        if i == 0 {
            assert(after_last(s, c) =~= s.skip(0));
        } else {
            assert(s.last() == c);
            assert(after_last(s, c) =~= s.skip(i));
        }
    } else {
        assert(s.last() != c);
        lemma_after_last_is_clean_suffix(s.drop_last(), c, i);
        assert(s.drop_last().skip(i) + seq![s.last()] =~= s.skip(i));
    }
}

/// The part of `s` after its last `=`; all of `s` when it has no `=`.
pub fn suffix_after_last_eq(s: &str) -> (r: String)
    ensures
        r@ == after_last(s@, '='),
{
    let sl = s.unicode_len();
    let mut i: usize = sl;
    while i > 0 && s.get_char(i - 1) != '='
        invariant
            sl == s@.len(),
            i <= sl,
            forall|k: int| i <= k < sl ==> s@[k] != '=',
        decreases i,
    {
        i -= 1;
    }
    proof {
        lemma_after_last_is_clean_suffix(s@, '=', i as int);
    }
    let tail = s.substring_char(i, sl);
    proof {
        assert(s@.subrange(i as int, sl as int) =~= s@.skip(i as int));
    }
    tail.to_owned()
}

/// Whether `s` contains the character `c`.
pub fn contains_char(s: &str, c: char) -> (r: bool)
    ensures
        r == s@.contains(c),
{
    let sl = s.unicode_len();
    let mut i: usize = 0;
    while i < sl
        invariant
            sl == s@.len(),
            i <= sl,
            forall|k: int| 0 <= k < i ==> s@[k] != c,
        decreases sl - i,
    {
        if s.get_char(i) == c {
            return true;
        }
        i += 1;
    }
    false
}

/// The character `c` is a decimal digit.
pub open spec fn is_dec_digit(c: char) -> bool {
    '0' <= c && c <= '9'
}

/// Every character of `s` is a decimal digit.
pub open spec fn all_dec_digits(s: Seq<char>) -> bool {
    forall|i: int| 0 <= i < s.len() ==> is_dec_digit(s[i])
}

/// The value of the digit character `c`.
pub open spec fn digit_val(c: char) -> nat {
    (c as nat - '0' as nat) as nat
}

/// The number denoted by the digit string `s`, read left to right.
pub open spec fn dec_val(s: Seq<char>) -> nat
    decreases s.len(),
{
    if s.len() == 0 {
        0
    } else {
        dec_val(s.drop_last()) * 10 + digit_val(s.last())
    }
}

/// A digit string denotes a usize page number: non-empty, all digits, and
/// within range.
pub open spec fn page_num_ok(s: Seq<char>) -> bool {
    &&& s.len() > 0
    &&& all_dec_digits(s)
    &&& dec_val(s) <= usize::MAX as nat
}

proof fn lemma_dec_val_prefix_le(s: Seq<char>, j: int)
    requires
        0 <= j <= s.len(),
    ensures
        dec_val(s.take(j)) <= dec_val(s),
    decreases s.len() - j,
{
    if j < s.len() {
        lemma_dec_val_prefix_le(s, j + 1);
        assert(s.take(j + 1).drop_last() =~= s.take(j));
        assert(dec_val(s.take(j)) <= dec_val(s.take(j + 1)));
    } else {
        assert(s.take(j) =~= s);
    }
}

/// Parses `s` as a decimal `usize`. Returns `None` when `s` is empty,
/// holds a non-digit, or denotes a value above `usize::MAX`.
pub fn parse_usize(s: &str) -> (r: Option<usize>)
    ensures
        match r {
            Some(v) => page_num_ok(s@) && v as nat == dec_val(s@),
            None => !page_num_ok(s@),
        },
{
    let sl = s.unicode_len();
    if sl == 0 {
        return None;
    }
    let mut acc: usize = 0;
    let mut i: usize = 0;
    proof {
        assert(s@.take(0) =~= Seq::<char>::empty());
    }
    while i < sl
        invariant
            sl == s@.len(),
            i <= sl,
            all_dec_digits(s@.take(i as int)),
            acc as nat == dec_val(s@.take(i as int)),
        decreases sl - i,
    {
        let c = s.get_char(i);
        if !(c >= '0' && c <= '9') {
            return None;
        }
        let d: usize = (c as u32 - '0' as u32) as usize;
        proof {
            assert(s@.take(i + 1).drop_last() =~= s@.take(i as int));
            assert(s@.take(i + 1).last() == s@[i as int]);
        }
        let step = match acc.checked_mul(10) {
            Some(m) => m.checked_add(d),
            None => None,
        };
        match step {
            Some(v) => {
                acc = v;
            },
            None => {
                proof {
                    lemma_dec_val_prefix_le(s@, i + 1);
                }
                return None;
            },
        }
        i += 1;
    }
    proof {
        assert(s@.take(sl as int) =~= s@);
    }
    Some(acc)
}

/// The character for the digit `d`.
pub open spec fn digit_char(d: nat) -> char {
    if d == 0 {
        '0'
    } else if d == 1 {
        '1'
    } else if d == 2 {
        '2'
    } else if d == 3 {
        '3'
    } else if d == 4 {
        '4'
    } else if d == 5 {
        '5'
    } else if d == 6 {
        '6'
    } else if d == 7 {
        '7'
    } else if d == 8 {
        '8'
    } else {
        '9'
    }
}

/// The decimal digit string of `n`, without leading zeros (`"0"` for zero).
pub open spec fn dec_str(n: nat) -> Seq<char>
    decreases n,
{
    if n < 10 {
        seq![digit_char(n)]
    } else {
        dec_str(n / 10) + seq![digit_char(n % 10)]
    }
}

fn digit_str(d: usize) -> (r: &'static str)
    requires
        d < 10,
    ensures
        r@ == seq![digit_char(d as nat)],
{
    proof {
        reveal_strlit("0");
        reveal_strlit("1");
        reveal_strlit("2");
        reveal_strlit("3");
        reveal_strlit("4");
        reveal_strlit("5");
        reveal_strlit("6");
        reveal_strlit("7");
        reveal_strlit("8");
        reveal_strlit("9");
    }
    let r: &'static str = if d == 0 {
        "0"
    } else if d == 1 {
        "1"
    } else if d == 2 {
        "2"
    } else if d == 3 {
        "3"
    } else if d == 4 {
        "4"
    } else if d == 5 {
        "5"
    } else if d == 6 {
        "6"
    } else if d == 7 {
        "7"
    } else if d == 8 {
        "8"
    } else {
        "9"
    };
    proof {
        assert(r@ =~= seq![digit_char(d as nat)]);
    }
    r
}

/// Writes `n` in decimal.
pub fn usize_to_string(n: usize) -> (r: String)
    ensures
        r@ == dec_str(n as nat),
    decreases n,
{
    if n < 10 {
        digit_str(n).to_owned()
    } else {
        let mut r = usize_to_string(n / 10);
        r.append(digit_str(n % 10));
        r
    }
}

} // verus!
