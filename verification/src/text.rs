//! Character-level helpers on string slices.
use vstd::prelude::*;

verus! {

broadcast use vstd::string::axiom_spec_iter;

/// The characters of `s`, in order.
pub fn chars_of(s: &str) -> (r: Vec<char>)
    ensures
        r@ == s@,
{
    let mut r: Vec<char> = Vec::new();
    for c in it: s.chars()
        invariant
            r@ == it.seq().take(it.index() as int),
    {
        r.push(c);
    }
    r
}

/// Whether `a` and `b` hold the same characters.
pub fn str_eq(a: &str, b: &str) -> (r: bool)
    ensures
        r == (a@ == b@),
{
    let x = chars_of(a);
    let y = chars_of(b);
    if x.len() != y.len() {
        return false;
    }
    let mut i: usize = 0;
    while i < x.len()
        invariant
            x@ == a@,
            y@ == b@,
            x@.len() == y@.len(),
            i <= x@.len(),
            forall|j: int| 0 <= j < i ==> x@[j] == y@[j],
        decreases x@.len() - i,
    {
        if x[i] != y[i] {
            return false;
        }
        i = i + 1;
    }
    assert(x@ =~= y@);
    true
}

/// Whether `s` starts with `p`.
pub open spec fn starts_with(s: Seq<char>, p: Seq<char>) -> bool {
    s.len() >= p.len() && s.take(p.len() as int) == p
}

/// Whether `s` starts with `p`, as `str::starts_with` with a string pattern.
pub fn str_starts_with(s: &str, p: &str) -> (r: bool)
    ensures
        r == starts_with(s@, p@),
{
    let x = chars_of(s);
    let y = chars_of(p);
    if x.len() < y.len() {
        return false;
    }
    let mut i: usize = 0;
    while i < y.len()
        invariant
            x@ == s@,
            y@ == p@,
            y@.len() <= x@.len(),
            i <= y@.len(),
            forall|j: int| 0 <= j < i ==> x@[j] == y@[j],
        decreases y@.len() - i,
    {
        if x[i] != y[i] {
            assert(x@.take(y@.len() as int)[i as int] != y@[i as int]);
            return false;
        }
        i = i + 1;
    }
    assert(x@.take(y@.len() as int) =~= y@);
    true
}

/// A copy of the strings of `v`.
pub fn clone_strings(v: &Vec<String>) -> (r: Vec<String>)
    ensures
        r.deep_view() == v.deep_view(),
{
    let mut r: Vec<String> = Vec::new();
    let mut i: usize = 0;
    while i < v.len()
        invariant
            i <= v@.len(),
            r@.len() == i,
            forall|j: int| 0 <= j < i ==> r@[j]@ == v@[j]@,
        decreases v@.len() - i,
    {
        r.push(v[i].clone());
        i = i + 1;
    }
    assert(r.deep_view() =~= v.deep_view());
    r
}

/// The characters that `char::is_whitespace` accepts, those with the Unicode
/// `White_Space` property; `str::trim` removes exactly these.
pub open spec fn is_white_space(c: char) -> bool {
    ||| '\u{9}' <= c <= '\u{D}'
    ||| c == ' '
    ||| c == '\u{85}'
    ||| c == '\u{A0}'
    ||| c == '\u{1680}'
    ||| '\u{2000}' <= c <= '\u{200A}'
    ||| c == '\u{2028}'
    ||| c == '\u{2029}'
    ||| c == '\u{202F}'
    ||| c == '\u{205F}'
    ||| c == '\u{3000}'
}

/// Whether `c` is white space in the sense of [`is_white_space`].
pub fn is_white_space_char(c: char) -> (r: bool)
    ensures
        r == is_white_space(c),
{
    ('\u{9}' <= c && c <= '\u{D}') || c == ' ' || c == '\u{85}' || c == '\u{A0}' || c
        == '\u{1680}' || ('\u{2000}' <= c && c <= '\u{200A}') || c == '\u{2028}' || c
        == '\u{2029}' || c == '\u{202F}' || c == '\u{205F}' || c == '\u{3000}'
}

/// `s` without its leading white space.
pub open spec fn trim_start(s: Seq<char>) -> Seq<char>
    decreases s.len(),
{
    if s.len() > 0 && is_white_space(s[0]) {
        trim_start(s.drop_first())
    } else {
        s
    }
}

/// `s` without its trailing white space.
pub open spec fn trim_end(s: Seq<char>) -> Seq<char>
    decreases s.len(),
{
    if s.len() > 0 && is_white_space(s.last()) {
        trim_end(s.drop_last())
    } else {
        s
    }
}

/// `s` without leading and trailing white space, as `str::trim` gives it.
pub open spec fn trim(s: Seq<char>) -> Seq<char> {
    trim_end(trim_start(s))
}

/// `s` without the copies of `c` that end it, as `str::trim_end_matches(c)` gives it.
pub open spec fn trim_end_char(s: Seq<char>, c: char) -> Seq<char>
    decreases s.len(),
{
    if s.len() > 0 && s.last() == c {
        trim_end_char(s.drop_last(), c)
    } else {
        s
    }
}

/// The length of the first field of `s` when it is split at `sep`: the index of
/// the first `sep`, or the whole length when `s` holds none.
pub open spec fn field_len(s: Seq<char>, sep: char) -> nat
    decreases s.len(),
{
    if s.len() == 0 || s[0] == sep {
        0
    } else {
        1 + field_len(s.drop_first(), sep)
    }
}

/// The first index at or after `lo` of `c[lo..hi]` that is not white space, or `hi`.
pub fn skip_white_space(c: &Vec<char>, lo: usize, hi: usize) -> (r: usize)
    requires
        lo <= hi <= c@.len(),
    ensures
        lo <= r <= hi,
        trim_start(c@.subrange(lo as int, hi as int)) == c@.subrange(r as int, hi as int),
{
    let mut a = lo;
    while a < hi && is_white_space_char(c[a])
        invariant
            lo <= a <= hi,
            hi <= c@.len(),
            trim_start(c@.subrange(lo as int, hi as int)) == trim_start(
                c@.subrange(a as int, hi as int),
            ),
        decreases hi - a,
    {
        assert(c@.subrange(a as int, hi as int).drop_first() =~= c@.subrange(
            a + 1,
            hi as int,
        ));
        a = a + 1;
    }
    a
}

/// The end of `c[lo..hi]` once its trailing white space is dropped.
pub fn drop_trailing_white_space(c: &Vec<char>, lo: usize, hi: usize) -> (r: usize)
    requires
        lo <= hi <= c@.len(),
    ensures
        lo <= r <= hi,
        trim_end(c@.subrange(lo as int, hi as int)) == c@.subrange(lo as int, r as int),
{
    let mut b = hi;
    while b > lo && is_white_space_char(c[b - 1])
        invariant
            lo <= b <= hi,
            hi <= c@.len(),
            trim_end(c@.subrange(lo as int, hi as int)) == trim_end(
                c@.subrange(lo as int, b as int),
            ),
        decreases b - lo,
    {
        assert(c@.subrange(lo as int, b as int).drop_last() =~= c@.subrange(
            lo as int,
            b - 1,
        ));
        b = b - 1;
    }
    b
}

/// The end of `c[lo..hi]` once the copies of `ch` that end it are dropped.
pub fn drop_trailing_char(c: &Vec<char>, lo: usize, hi: usize, ch: char) -> (r: usize)
    requires
        lo <= hi <= c@.len(),
    ensures
        lo <= r <= hi,
        trim_end_char(c@.subrange(lo as int, hi as int), ch) == c@.subrange(lo as int, r as int),
{
    let mut b = hi;
    while b > lo && c[b - 1] == ch
        invariant
            lo <= b <= hi,
            hi <= c@.len(),
            trim_end_char(c@.subrange(lo as int, hi as int), ch) == trim_end_char(
                c@.subrange(lo as int, b as int),
                ch,
            ),
        decreases b - lo,
    {
        assert(c@.subrange(lo as int, b as int).drop_last() =~= c@.subrange(
            lo as int,
            b - 1,
        ));
        b = b - 1;
    }
    b
}

/// The index of the first `sep` in `c[lo..hi]`, or `hi` when it holds none.
pub fn find_separator(c: &Vec<char>, lo: usize, hi: usize, sep: char) -> (r: usize)
    requires
        lo <= hi <= c@.len(),
    ensures
        lo <= r <= hi,
        r == lo + field_len(c@.subrange(lo as int, hi as int), sep),
{
    let mut d = lo;
    while d < hi && c[d] != sep
        invariant
            lo <= d <= hi,
            hi <= c@.len(),
            field_len(c@.subrange(lo as int, hi as int), sep) == (d - lo) + field_len(
                c@.subrange(d as int, hi as int),
                sep,
            ),
        decreases hi - d,
    {
        assert(c@.subrange(d as int, hi as int).drop_first() =~= c@.subrange(
            d + 1,
            hi as int,
        ));
        d = d + 1;
    }
    d
}

} // verus!
