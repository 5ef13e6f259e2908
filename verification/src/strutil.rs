//! Verified helpers for working with `String` / `&str` values,
//! built on the character-level view (`Seq<char>`) that vstd provides.

use vstd::prelude::*;

verus! {

/// Character-by-character equality of two string slices.
pub fn str_eq(a: &str, b: &str) -> (r: bool)
    ensures
        r == (a@ == b@),
{
    let alen = a.unicode_len();
    let blen = b.unicode_len();
    if alen != blen {
        proof {
            assert(a@.len() != b@.len());
        }
        return false;
    }
    let mut i: usize = 0;
    while i < alen
        invariant
            i <= alen,
            alen == a@.len(),
            blen == b@.len(),
            alen == blen,
            forall|j: int| 0 <= j < i ==> a@[j] == b@[j],
        decreases alen - i,
    {
        if a.get_char(i) != b.get_char(i) {
            return false;
        }
        i += 1;
    }
    proof {
        assert(a@ =~= b@);
    }
    true
}

/// `p` is a prefix of `s`.
pub open spec fn starts_with(s: Seq<char>, p: Seq<char>) -> bool {
    p.len() <= s.len() && s.subrange(0, p.len() as int) == p
}

/// `p` is a suffix of `s`.
pub open spec fn ends_with(s: Seq<char>, p: Seq<char>) -> bool {
    p.len() <= s.len() && s.subrange(s.len() - p.len(), s.len() as int) == p
}

/// `p` occurs contiguously somewhere inside `s`.
pub open spec fn contains_sub(s: Seq<char>, p: Seq<char>) -> bool {
    exists|i: int| 0 <= i && i + p.len() <= s.len() && #[trigger] s.subrange(i, i + p.len()) == p
}

pub fn str_starts_with(s: &str, p: &str) -> (r: bool)
    ensures
        r == starts_with(s@, p@),
{
    let slen = s.unicode_len();
    let plen = p.unicode_len();
    if plen > slen {
        return false;
    }
    let mut i: usize = 0;
    while i < plen
        invariant
            i <= plen,
            plen <= slen,
            slen == s@.len(),
            plen == p@.len(),
            forall|j: int| 0 <= j < i ==> s@[j] == p@[j],
        decreases plen - i,
    {
        if s.get_char(i) != p.get_char(i) {
            proof {
                assert(s@.subrange(0, p@.len() as int)[i as int] != p@[i as int]);
            }
            return false;
        }
        i += 1;
    }
    proof {
        assert(s@.subrange(0, p@.len() as int) =~= p@);
    }
    true
}

pub fn str_ends_with(s: &str, p: &str) -> (r: bool)
    ensures
        r == ends_with(s@, p@),
{
    let slen = s.unicode_len();
    let plen = p.unicode_len();
    if plen > slen {
        return false;
    }
    let off = slen - plen;
    let mut i: usize = 0;
    while i < plen
        invariant
            i <= plen,
            plen <= slen,
            off == slen - plen,
            slen == s@.len(),
            plen == p@.len(),
            forall|j: int| 0 <= j < i ==> s@[off + j] == p@[j],
        decreases plen - i,
    {
        if s.get_char(off + i) != p.get_char(i) {
            proof {
                assert(s@.subrange(s@.len() - p@.len(), s@.len() as int)[i as int] != p@[
                    i as int
                ]);
            }
            return false;
        }
        i += 1;
    }
    proof {
        assert(s@.subrange(s@.len() - p@.len(), s@.len() as int) =~= p@);
    }
    true
}

pub fn str_contains(s: &str, p: &str) -> (r: bool)
    ensures
        r == contains_sub(s@, p@),
{
    let slen = s.unicode_len();
    let plen = p.unicode_len();
    if plen > slen {
        return false;
    }
    if plen == 0 {
        proof {
            let zero: int = 0;
            assert(s@.subrange(zero, zero + p@.len()) =~= p@);
        }
        return true;
    }
    let last = slen - plen;
    let mut i: usize = 0;
    loop
        invariant
            i <= last + 1,
            last == slen - plen,
            plen >= 1,
            plen <= slen,
            slen == s@.len(),
            plen == p@.len(),
            forall|ii: int| 0 <= ii < i ==> #[trigger] s@.subrange(ii, ii + p@.len()) != p@,
        decreases last + 1 - i,
    {
        if i > last {
            proof {
                assert(forall|ii: int|
                    0 <= ii && ii + p@.len() <= s@.len() ==> #[trigger] s@.subrange(
                        ii,
                        ii + p@.len(),
                    ) != p@);
            }
            return false;
        }
        let mut j: usize = 0;
        let mut hit = true;
        while j < plen
            invariant
                j <= plen,
                i <= last,
                last == slen - plen,
                plen <= slen,
                slen == s@.len(),
                plen == p@.len(),
                hit ==> forall|jj: int| 0 <= jj < j ==> s@[i + jj] == p@[jj],
                !hit ==> s@.subrange(i as int, i + p@.len()) != p@,
            decreases plen - j,
        {
            if s.get_char(i + j) != p.get_char(j) {
                proof {
                    assert(s@.subrange(i as int, i + p@.len())[j as int] != p@[j as int]);
                }
                hit = false;
                j = plen;
            } else {
                j += 1;
            }
        }
        if hit {
            proof {
                assert(s@.subrange(i as int, i + p@.len()) =~= p@);
            }
            return true;
        }
        i += 1;
    }
}

/// The whitespace characters that the trimming rules recognise.
pub open spec fn is_space(c: char) -> bool {
    c == ' ' || c == '\t' || c == '\n' || c == '\r'
}

/// First index at or after `i` holding a non-whitespace character (or the length).
pub open spec fn ws_from(s: Seq<char>, i: int) -> int
    decreases s.len() - i,
    when 0 <= i <= s.len()
{
    if i == s.len() {
        i
    } else if is_space(s[i]) {
        ws_from(s, i + 1)
    } else {
        i
    }
}

/// One past the last non-whitespace character strictly before `i` (or zero).
pub open spec fn ws_until(s: Seq<char>, i: int) -> int
    decreases i,
    when 0 <= i <= s.len()
{
    if i == 0 {
        i
    } else if is_space(s[i - 1]) {
        ws_until(s, i - 1)
    } else {
        i
    }
}

/// `s` with leading and trailing whitespace removed.
pub open spec fn spec_trim(s: Seq<char>) -> Seq<char> {
    let a = ws_from(s, 0);
    let b = ws_until(s, s.len() as int);
    if a <= b {
        s.subrange(a, b)
    } else {
        Seq::empty()
    }
}

fn is_space_exec(c: char) -> (r: bool)
    ensures
        r == is_space(c),
{
    c == ' ' || c == '\t' || c == '\n' || c == '\r'
}

/// Copy of `s` with surrounding whitespace removed.
pub fn trim_of(s: &str) -> (r: String)
    ensures
        r@ == spec_trim(s@),
{
    let len = s.unicode_len();
    let mut a: usize = 0;
    while a < len && is_space_exec(s.get_char(a))
        invariant
            0 <= a <= len,
            len == s@.len(),
            ws_from(s@, 0) == ws_from(s@, a as int),
        decreases len - a,
    {
        a += 1;
    }
    proof {
        assert(ws_from(s@, a as int) == a as int);
    }
    let mut b: usize = len;
    while b > 0 && is_space_exec(s.get_char(b - 1))
        invariant
            0 <= b <= len,
            len == s@.len(),
            ws_until(s@, s@.len() as int) == ws_until(s@, b as int),
        decreases b,
    {
        b -= 1;
    }
    proof {
        assert(ws_until(s@, b as int) == b as int);
    }
    if a <= b {
        let sub = s.substring_char(a, b);
        String::from_str(sub)
    } else {
        String::new()
    }
}

/// Copy of `s` without its first `k` characters, then trimmed.
pub fn skip_trim_of(s: &str, k: usize) -> (r: String)
    requires
        k <= s@.len(),
    ensures
        r@ == spec_trim(s@.subrange(k as int, s@.len() as int)),
{
    let len = s.unicode_len();
    let rest = s.substring_char(k, len);
    trim_of(rest)
}

/// `true` when `s` trims to the empty string.
pub fn is_blank(s: &str) -> (r: bool)
    ensures
        r == (spec_trim(s@).len() == 0),
{
    let t = trim_of(s);
    t.as_str().unicode_len() == 0
}

/// Strict lexicographic order on character sequences, compared by code point,
/// starting at position `i`.
pub open spec fn str_lt_from(a: Seq<char>, b: Seq<char>, i: int) -> bool
    decreases a.len() - i,
    when 0 <= i
{
    if i >= b.len() {
        false
    } else if i >= a.len() {
        true
    } else if (a[i] as u32) < (b[i] as u32) {
        true
    } else if (a[i] as u32) > (b[i] as u32) {
        false
    } else {
        str_lt_from(a, b, i + 1)
    }
}

/// Strict lexicographic order on character sequences, by code point.
pub open spec fn str_lt(a: Seq<char>, b: Seq<char>) -> bool {
    str_lt_from(a, b, 0)
}

pub fn str_lt_exec(a: &str, b: &str) -> (r: bool)
    ensures
        r == str_lt(a@, b@),
{
    let alen = a.unicode_len();
    let blen = b.unicode_len();
    let mut i: usize = 0;
    loop
        invariant
            0 <= i,
            i <= alen,
            i <= blen,
            alen == a@.len(),
            blen == b@.len(),
            str_lt(a@, b@) == str_lt_from(a@, b@, i as int),
        decreases alen - i,
    {
        if i >= alen || i >= blen {
            return alen < blen;
        }
        let ca = a.get_char(i) as u32;
        let cb = b.get_char(i) as u32;
        if ca < cb {
            return true;
        }
        if ca > cb {
            return false;
        }
        i += 1;
    }
}

/// The views of a sequence of strings.
pub open spec fn views_of(s: Seq<String>) -> Seq<Seq<char>> {
    s.map_values(|x: String| x@)
}

/// Insert `x` into the (sorted, duplicate-free) sequence `s`, keeping it
/// sorted; an `x` that is already present is not inserted again.
pub open spec fn sorted_insert_unique(s: Seq<Seq<char>>, x: Seq<char>) -> Seq<Seq<char>>
    decreases s.len(),
{
    if s.len() == 0 {
        seq![x]
    } else if x == s[0] {
        s
    } else if str_lt(x, s[0]) {
        seq![x] + s
    } else {
        seq![s[0]] + sorted_insert_unique(s.drop_first(), x)
    }
}

/// Insert a copy of `x` into the sorted string vector `v`.
pub fn insert_sorted_unique(v: &mut Vec<String>, x: &str)
    ensures
        views_of(final(v)@) == sorted_insert_unique(views_of(old(v)@), x@),
{
    let ghost orig = views_of(v@);
    proof {
        assert(orig.subrange(0, orig.len() as int) =~= orig);
        assert(orig.subrange(0, 0) + sorted_insert_unique(orig, x@) =~= sorted_insert_unique(
            orig,
            x@,
        ));
    }
    let mut i: usize = 0;
    loop
        invariant
            i <= v@.len(),
            orig == views_of(old(v)@),
            views_of(v@) == orig,
            forall|j: int| 0 <= j < i ==> orig[j] != x@ && !str_lt(x@, orig[j]),
            sorted_insert_unique(orig, x@) == orig.subrange(0, i as int)
                + sorted_insert_unique(orig.subrange(i as int, orig.len() as int), x@),
        decreases v@.len() - i,
    {
        if i >= v.len() {
            v.push(String::from_str(x));
            proof {
                assert(orig.subrange(i as int, orig.len() as int) =~= Seq::<Seq<char>>::empty());
                assert(sorted_insert_unique(Seq::<Seq<char>>::empty(), x@) =~= seq![x@]);
                assert(views_of(v@) =~= orig.subrange(0, i as int) + seq![x@]);
                assert(views_of(v@) == sorted_insert_unique(orig, x@));
            }
            return ;
        }
        let ghost rest = orig.subrange(i as int, orig.len() as int);
        proof {
            assert(rest[0] == orig[i as int]);
        }
        if str_eq(v[i].as_str(), x) {
            proof {
                assert(sorted_insert_unique(rest, x@) == rest);
                assert(orig.subrange(0, i as int) + rest =~= orig);
                assert(views_of(v@) == sorted_insert_unique(orig, x@));
            }
            return ;
        }
        if str_lt_exec(x, v[i].as_str()) {
            v.insert(i, String::from_str(x));
            proof {
                assert(sorted_insert_unique(rest, x@) == seq![x@] + rest);
                assert(views_of(v@) =~= orig.subrange(0, i as int) + (seq![x@] + rest));
                assert(views_of(v@) == sorted_insert_unique(orig, x@));
            }
            return ;
        }
        proof {
            assert(sorted_insert_unique(rest, x@) == seq![rest[0]] + sorted_insert_unique(
                rest.drop_first(),
                x@,
            ));
            assert(rest.drop_first() =~= orig.subrange(i + 1, orig.len() as int));
            assert(orig.subrange(0, i as int) + (seq![rest[0]] + sorted_insert_unique(
                rest.drop_first(),
                x@,
            )) =~= orig.subrange(0, i + 1) + sorted_insert_unique(
                orig.subrange(i + 1, orig.len() as int),
                x@,
            ));
        }
        i += 1;
    }
}

} // verus!
