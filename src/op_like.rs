//! Wildcard matching: the `LIKE` operator and, negated, `NLIKE`.

use crate::doc::Field;
use vstd::prelude::*;
use vstd::string::StrSliceExecFns;

verus! {

/// `p` is a prefix of `s`.
pub open spec fn is_prefix(p: Seq<char>, s: Seq<char>) -> bool {
    p.len() <= s.len() && s.subrange(0, p.len() as int) == p
}

/// `p` is a suffix of `s`.
pub open spec fn is_suffix(p: Seq<char>, s: Seq<char>) -> bool {
    p.len() <= s.len() && s.subrange(s.len() - p.len(), s.len() as int) == p
}

/// `p` occurs somewhere in `s`.
pub open spec fn is_infix(p: Seq<char>, s: Seq<char>) -> bool {
    exists|k: int| 0 <= k && k + p.len() <= s.len() && #[trigger] s.subrange(k, k + p.len()) == p
}

/// `p` holds exactly one `%`, at position `k`.
pub open spec fn sole_wildcard_at(p: Seq<char>, k: int) -> bool {
    &&& 0 <= k < p.len()
    &&& p[k] == '%'
    &&& forall|j: int| 0 <= j < p.len() && j != k ==> p[j] != '%'
}

/// `pattern` after a leading `%` is removed, if there is one.
pub open spec fn without_leading(pattern: Seq<char>) -> Seq<char> {
    if pattern.len() > 0 && pattern[0] == '%' {
        pattern.drop_first()
    } else {
        pattern
    }
}

/// The text between the wildcards that open or close `pattern`.
pub open spec fn pattern_core(pattern: Seq<char>) -> Seq<char> {
    let rest = without_leading(pattern);
    if rest.len() > 0 && rest.last() == '%' {
        rest.drop_last()
    } else {
        rest
    }
}

/// Case-sensitive wildcard match of `data` against `pattern`.
///
/// A `%` that opens the pattern admits any text before the rest, and one that
/// closes it (after the opening one is taken off) any text after: both make
/// the rest a substring, the opening one alone a suffix, the closing one alone
/// a prefix. Without either, a single `%` inside splits the pattern into a
/// prefix and a suffix that `data` must both have; otherwise `data` must equal
/// the pattern.
pub open spec fn like_match(pattern: Seq<char>, data: Seq<char>) -> bool {
    let leading = pattern.len() > 0 && pattern[0] == '%';
    let rest = without_leading(pattern);
    let trailing = rest.len() > 0 && rest.last() == '%';
    let core = pattern_core(pattern);
    if leading && trailing {
        is_infix(core, data)
    } else if leading {
        is_suffix(core, data)
    } else if trailing {
        is_prefix(core, data)
    } else if exists|k: int| sole_wildcard_at(core, k) {
        let k = choose|k: int| sole_wildcard_at(core, k);
        is_prefix(core.subrange(0, k), data) && is_suffix(core.subrange(k + 1, core.len() as int), data)
    } else {
        data == core
    }
}

/// The literal `lit` and the value under test `v` are both strings and `v`
/// matches the pattern `lit`.
pub open spec fn field_like(lit: Field, v: Field) -> bool {
    match (lit, v) {
        (Field::String(c), Field::String(x)) => like_match(c@, x@),
        _ => false,
    }
}

/// The characters of `s`, in order.
pub fn chars_of(s: &str) -> (r: Vec<char>)
    ensures
        r@ == s@,
{
    let n = s.unicode_len();
    let mut r: Vec<char> = Vec::new();
    let mut i: usize = 0;
    while i < n
        invariant
            n == s@.len(),
            i <= n,
            r@ == s@.subrange(0, i as int),
        decreases n - i,
    {
        r.push(s.get_char(i));
        i = i + 1;
        proof {
            assert(r@ =~= s@.subrange(0, i as int));
        }
    }
    proof {
        assert(r@ =~= s@);
    }
    r
}

/// Whether `s` holds `p[lo..hi]` starting at position `k`.
fn holds_at(s: &Vec<char>, k: usize, p: &Vec<char>, lo: usize, hi: usize) -> (r: bool)
    requires
        lo <= hi <= p.len(),
    ensures
        r == (k + (hi - lo) <= s.len() && s@.subrange(k as int, k + (hi - lo)) == p@.subrange(
            lo as int,
            hi as int,
        )),
{
    let m = hi - lo;
    if k > s.len() || m > s.len() - k {
        return false;
    }
    let mut i: usize = 0;
    while i < m
        invariant
            m == hi - lo,
            lo <= hi <= p.len(),
            k + m <= s.len(),
            i <= m,
            forall|j: int| 0 <= j < i ==> #[trigger] s@[k + j] == p@[lo + j],
        decreases m - i,
    {
        if s[k + i] != p[lo + i] {
            proof {
                assert(s@.subrange(k as int, k + m)[i as int] != p@.subrange(lo as int, hi as int)[i as int]);
            }
            return false;
        }
        i = i + 1;
    }
    proof {
        assert forall|j: int| 0 <= j < m implies s@.subrange(k as int, k + m)[j] == p@.subrange(
            lo as int,
            hi as int,
        )[j] by {
            assert(s@[k + j] == p@[lo + j]);
        }
        assert(s@.subrange(k as int, k + m) =~= p@.subrange(lo as int, hi as int));
    }
    true
}

/// Whether `p[lo..hi]` occurs somewhere in `s`.
fn occurs_in(s: &Vec<char>, p: &Vec<char>, lo: usize, hi: usize) -> (r: bool)
    requires
        lo <= hi <= p.len(),
    ensures
        r == is_infix(p@.subrange(lo as int, hi as int), s@),
{
    let m = hi - lo;
    if m > s.len() {
        return false;
    }
    let limit = s.len() - m;
    let ghost q = p@.subrange(lo as int, hi as int);
    let mut k: usize = 0;
    loop
        invariant
            m == hi - lo,
            lo <= hi <= p.len(),
            limit == s.len() - m,
            q == p@.subrange(lo as int, hi as int),
            k <= limit,
            forall|j: int| 0 <= j < k ==> #[trigger] s@.subrange(j, j + m) != q,
        decreases limit - k,
    {
        if holds_at(s, k, p, lo, hi) {
            proof {
                assert(s@.subrange(k as int, k + q.len()) == q);
            }
            return true;
        }
        if k == limit {
            return false;
        }
        k = k + 1;
    }
}

/// The position of the only `%` of `p`, if it holds exactly one.
fn sole_wildcard(p: &Vec<char>) -> (r: Option<usize>)
    ensures
        match r {
            Some(k) => sole_wildcard_at(p@, k as int),
            None => forall|k: int| !sole_wildcard_at(p@, k),
        },
{
    let mut found: Option<usize> = None;
    let mut i: usize = 0;
    while i < p.len()
        invariant
            i <= p.len(),
            match found {
                Some(k) => k < i && p@[k as int] == '%' && forall|j: int|
                    0 <= j < i && j != k ==> p@[j] != '%',
                None => forall|j: int| 0 <= j < i ==> p@[j] != '%',
            },
        decreases p.len() - i,
    {
        if p[i] == '%' {
            match found {
                Some(k) => {
                    proof {
                        assert forall|q: int| !sole_wildcard_at(p@, q) by {
                            if sole_wildcard_at(p@, q) {
                                assert(q == k || q == i);
                            }
                        }
                    }
                    return None;
                },
                None => {
                    found = Some(i);
                },
            }
        }
        i = i + 1;
    }
    found
}

/// Case-sensitive wildcard match of `data` against `condition`.
pub fn like(condition: &str, data: &str) -> (r: bool)
    ensures
        r == like_match(condition@, data@),
{
    let p = chars_of(condition);
    let s = chars_of(data);
    like_chars(&p, &s)
}

/// Wildcard match on characters already taken out of their strings.
pub fn like_chars(p: &Vec<char>, s: &Vec<char>) -> (r: bool)
    ensures
        r == like_match(p@, s@),
{
    let leading = p.len() > 0 && p[0] == '%';
    let lo: usize = if leading { 1 } else { 0 };
    let trailing = p.len() > lo && p[p.len() - 1] == '%';
    let hi: usize = if trailing { p.len() - 1 } else { p.len() };
    proof {
        let rest = without_leading(p@);
        assert(rest =~= p@.subrange(lo as int, p.len() as int));
        if trailing {
            assert(rest.last() == p@[p.len() - 1]);
        }
        assert(pattern_core(p@) =~= p@.subrange(lo as int, hi as int));
    }
    let m = hi - lo;
    if leading && trailing {
        occurs_in(s, p, lo, hi)
    } else if leading {
        m <= s.len() && holds_at(s, s.len() - m, p, lo, hi)
    } else if trailing {
        holds_at(s, 0, p, lo, hi)
    } else {
        match sole_wildcard(p) {
            Some(k) => {
                let tail = p.len() - (k + 1);
                proof {
                    assert(pattern_core(p@) =~= p@);
                    let c = choose|q: int| sole_wildcard_at(p@, q);
                    assert(c == k);
                    assert(p@.subrange(0, k as int) =~= p@.subrange(0, k as int));
                }
                holds_at(s, 0, p, 0, k) && tail <= s.len() && holds_at(s, s.len() - tail, p, k + 1, p.len())
            },
            None => {
                proof {
                    assert(pattern_core(p@) =~= p@);
                }
                let r = s.len() == p.len() && holds_at(s, 0, p, 0, p.len());
                proof {
                    assert(p@.subrange(0, p.len() as int) =~= p@);
                    assert(s@.subrange(0, s.len() as int) =~= s@);
                }
                r
            },
        }
    }
}

/// Whether `condition` and `doc_field` are strings and `doc_field` matches
/// the pattern `condition`.
pub fn handle(condition: &Field, doc_field: &Field) -> (r: bool)
    ensures
        r == field_like(*condition, *doc_field),
{
    match (condition, doc_field) {
        (Field::String(c), Field::String(x)) => like(c.as_str(), x.as_str()),
        _ => false,
    }
}

} // verus!
