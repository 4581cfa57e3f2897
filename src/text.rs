//! Character-level helpers over the views of `str` and `String`.
//!
//! The executable functions work on a `Vec<char>` and a half-open range
//! `[a, b)` of it, so that a long request body is decoded once and never
//! copied while it is searched.

use vstd::prelude::*;

verus! {

/// `s` begins with `p`.
pub open spec fn starts_with(s: Seq<char>, p: Seq<char>) -> bool {
    p.len() <= s.len() && s.subrange(0, p.len() as int) == p
}

/// `p` occurs in `s` at position `k`.
pub open spec fn occurs_at(s: Seq<char>, p: Seq<char>, k: int) -> bool {
    0 <= k && k + p.len() <= s.len() && s.subrange(k, k + p.len()) == p
}

/// `p` occurs somewhere in `s`.
pub open spec fn contains(s: Seq<char>, p: Seq<char>) -> bool {
    exists|k: int| #[trigger] occurs_at(s, p, k)
}

/// Unicode `White_Space`, the set that `char::is_whitespace` documents.
pub open spec fn is_white(c: char) -> bool {
    let n = c as u32;
    n == 0x20 || (0x09 <= n && n <= 0x0d) || n == 0x85 || n == 0xa0 || n == 0x1680 || (0x2000
        <= n && n <= 0x200a) || n == 0x2028 || n == 0x2029 || n == 0x202f || n == 0x205f || n
        == 0x3000
}

pub open spec fn trim_start(s: Seq<char>) -> Seq<char>
    decreases s.len(),
{
    if s.len() > 0 && is_white(s[0]) {
        trim_start(s.skip(1))
    } else {
        s
    }
}

pub open spec fn trim_end(s: Seq<char>) -> Seq<char>
    decreases s.len(),
{
    if s.len() > 0 && is_white(s.last()) {
        trim_end(s.drop_last())
    } else {
        s
    }
}

/// `s` without leading and trailing white space.
pub open spec fn trim(s: Seq<char>) -> Seq<char> {
    trim_end(trim_start(s))
}

pub open spec fn strip_leading(s: Seq<char>, c: char) -> Seq<char>
    decreases s.len(),
{
    if s.len() > 0 && s[0] == c {
        strip_leading(s.skip(1), c)
    } else {
        s
    }
}

pub open spec fn strip_trailing(s: Seq<char>, c: char) -> Seq<char>
    decreases s.len(),
{
    if s.len() > 0 && s.last() == c {
        strip_trailing(s.drop_last(), c)
    } else {
        s
    }
}

/// `s` without any run of `c` at either end.
pub open spec fn trim_char(s: Seq<char>, c: char) -> Seq<char> {
    strip_trailing(strip_leading(s, c), c)
}

/// `s` with every leading repetition of a non-empty `p` removed.
pub open spec fn strip_prefix_repeated(s: Seq<char>, p: Seq<char>) -> Seq<char>
    decreases s.len(),
{
    if p.len() > 0 && starts_with(s, p) {
        strip_prefix_repeated(s.skip(p.len() as int), p)
    } else {
        s
    }
}

/// Collects the characters of `s` in order.
pub fn chars_of(s: &str) -> (r: Vec<char>)
    ensures
        r@ == s@,
{
    let mut out: Vec<char> = Vec::new();
    for c in it: s.chars()
        invariant
            out@ == it.seq().take(it.index() as int),
    {
        out.push(c);
    }
    out
}

pub fn is_white_char(c: char) -> (r: bool)
    ensures
        r == is_white(c),
{
    let n = c as u32;
    n == 0x20 || (0x09 <= n && n <= 0x0d) || n == 0x85 || n == 0xa0 || n == 0x1680 || (0x2000
        <= n && n <= 0x200a) || n == 0x2028 || n == 0x2029 || n == 0x202f || n == 0x205f || n
        == 0x3000
}

/// Whether `s[i..b]` begins with `p`.
pub fn starts_with_at(s: &Vec<char>, i: usize, b: usize, p: &Vec<char>) -> (r: bool)
    requires
        i <= b <= s.len(),
    ensures
        r == starts_with(s@.subrange(i as int, b as int), p@),
{
    let ghost t = s@.subrange(i as int, b as int);
    if p.len() > b - i {
        return false;
    }
    let mut j: usize = 0;
    while j < p.len()
        invariant
            j <= p.len(),
            i + p.len() <= b <= s.len(),
            t == s@.subrange(i as int, b as int),
            forall|m: int| 0 <= m < j ==> s@[i + m] == p@[m],
        decreases p.len() - j,
    {
        if s[i + j] != p[j] {
            assert(t.subrange(0, p.len() as int)[j as int] != p@[j as int]);
            return false;
        }
        j += 1;
    }
    assert(t.subrange(0, p.len() as int) =~= p@);
    true
}

/// Whether `p` occurs in `s[a..b]`.
pub fn contains_in(s: &Vec<char>, a: usize, b: usize, p: &Vec<char>) -> (r: bool)
    requires
        a <= b <= s.len(),
    ensures
        r == contains(s@.subrange(a as int, b as int), p@),
{
    let ghost t = s@.subrange(a as int, b as int);
    if p.len() > b - a {
        assert forall|k: int| !occurs_at(t, p@, k) by {}
        return false;
    }
    if p.len() == 0 {
        assert(t.subrange(0, 0) =~= p@);
        assert(occurs_at(t, p@, 0));
        return true;
    }
    let mut k: usize = a;
    while k <= b - p.len()
        invariant
            a <= k <= b - p.len() + 1,
            0 < p.len() <= b - a,
            b <= s.len(),
            t == s@.subrange(a as int, b as int),
            forall|j: int| 0 <= j < k - a ==> !occurs_at(t, p@, j),
        decreases b + 1 - k,
    {
        if starts_with_at(s, k, b, p) {
            assert(s@.subrange(k as int, b as int).subrange(0, p.len() as int) =~= t.subrange(
                k - a,
                k - a + p.len(),
            ));
            assert(occurs_at(t, p@, k - a));
            return true;
        }
        assert(s@.subrange(k as int, b as int).subrange(0, p.len() as int) =~= t.subrange(
            k - a,
            k - a + p.len(),
        ));
        k += 1;
    }
    assert forall|j: int| !occurs_at(t, p@, j) by {}
    false
}

/// The range of `s[a..b]` that remains after `trim`.
pub fn trim_range(s: &Vec<char>, a: usize, b: usize) -> (r: (usize, usize))
    requires
        a <= b <= s.len(),
    ensures
        a <= r.0 <= r.1 <= b,
        s@.subrange(r.0 as int, r.1 as int) == trim(s@.subrange(a as int, b as int)),
{
    let mut i = a;
    while i < b && is_white_char(s[i])
        invariant
            a <= i <= b <= s.len(),
            trim_start(s@.subrange(a as int, b as int)) == trim_start(
                s@.subrange(i as int, b as int),
            ),
        decreases b - i,
    {
        assert(s@.subrange(i as int, b as int).skip(1) =~= s@.subrange(i + 1, b as int));
        i += 1;
    }
    let mut j = b;
    while j > i && is_white_char(s[j - 1])
        invariant
            a <= i <= j <= b <= s.len(),
            trim(s@.subrange(a as int, b as int)) == trim_end(s@.subrange(i as int, j as int)),
        decreases j - i,
    {
        assert(s@.subrange(i as int, j as int).drop_last() =~= s@.subrange(i as int, j - 1));
        j -= 1;
    }
    (i, j)
}

/// The range of `s[a..b]` that remains after `trim_char` with `c`.
pub fn trim_char_range(s: &Vec<char>, a: usize, b: usize, c: char) -> (r: (usize, usize))
    requires
        a <= b <= s.len(),
    ensures
        a <= r.0 <= r.1 <= b,
        s@.subrange(r.0 as int, r.1 as int) == trim_char(s@.subrange(a as int, b as int), c),
{
    let mut i = a;
    while i < b && s[i] == c
        invariant
            a <= i <= b <= s.len(),
            strip_leading(s@.subrange(a as int, b as int), c) == strip_leading(
                s@.subrange(i as int, b as int),
                c,
            ),
        decreases b - i,
    {
        assert(s@.subrange(i as int, b as int).skip(1) =~= s@.subrange(i + 1, b as int));
        i += 1;
    }
    let mut j = b;
    while j > i && s[j - 1] == c
        invariant
            a <= i <= j <= b <= s.len(),
            trim_char(s@.subrange(a as int, b as int), c) == strip_trailing(
                s@.subrange(i as int, j as int),
                c,
            ),
        decreases j - i,
    {
        assert(s@.subrange(i as int, j as int).drop_last() =~= s@.subrange(i as int, j - 1));
        j -= 1;
    }
    (i, j)
}

/// The start of what remains of `s[a..b]` after `strip_prefix_repeated` with `p`.
pub fn strip_prefix_repeated_at(s: &Vec<char>, a: usize, b: usize, p: &Vec<char>) -> (r: usize)
    requires
        a <= b <= s.len(),
        p.len() > 0,
    ensures
        a <= r <= b,
        s@.subrange(r as int, b as int) == strip_prefix_repeated(
            s@.subrange(a as int, b as int),
            p@,
        ),
{
    let mut i = a;
    loop
        invariant
            a <= i <= b <= s.len(),
            p.len() > 0,
            strip_prefix_repeated(s@.subrange(a as int, b as int), p@) == strip_prefix_repeated(
                s@.subrange(i as int, b as int),
                p@,
            ),
        decreases b - i,
    {
        if !starts_with_at(s, i, b, p) {
            return i;
        }
        assert(s@.subrange(i as int, b as int).skip(p.len() as int) =~= s@.subrange(
            i + p.len(),
            b as int,
        ));
        i += p.len();
    }
}

} // verus!

verus! {

/// Whether `a` and `b` hold the same characters.
pub fn str_eq(a: &str, b: &str) -> (r: bool)
    ensures
        r == (a@ == b@),
{
    let x = chars_of(a);
    let y = chars_of(b);
    if x.len() != y.len() {
        return false;
    }
    let mut i: usize = 0;
    while i < x.len()
        invariant
            x.len() == y.len(),
            x@ == a@,
            y@ == b@,
            i <= x.len(),
            forall|k: int| 0 <= k < i ==> x@[k] == y@[k],
        decreases x.len() - i,
    {
        if x[i] != y[i] {
            return false;
        }
        i += 1;
    }
    assert(x@ =~= y@);
    true
}

} // verus!

verus! {

/// Whether `s` begins with `p`.
pub fn has_prefix(s: &str, p: &str) -> (r: bool)
    ensures
        r == starts_with(s@, p@),
{
    let x = chars_of(s);
    let y = chars_of(p);
    assert(x@.subrange(0, x.len() as int) =~= x@);
    starts_with_at(&x, 0, x.len(), &y)
}

} // verus!
