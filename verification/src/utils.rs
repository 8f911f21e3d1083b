//! Truncation of text at a UTF-8 character boundary.
use vstd::prelude::*;
use vstd::string::StrSliceExecFns;
use vstd::utf8::{char_is_scalar, encode_scalar, encode_utf8};

use crate::text::to_chars;

verus! {

/// The number of bytes of the UTF-8 encoding of `s`.
pub open spec fn utf8_len(s: Seq<char>) -> nat {
    encode_utf8(s).len()
}

/// The number of bytes of the UTF-8 encoding of `c`.
pub open spec fn char_width(c: char) -> nat {
    let u = c as u32;
    if u <= 0x7f {
        1
    } else if u <= 0x7ff {
        2
    } else if u <= 0xffff {
        3
    } else {
        4
    }
}

proof fn lemma_scalar_width(c: char)
    ensures
        encode_scalar(c as u32).len() == char_width(c),
{
    char_is_scalar(c);
}

/// Appending a character adds its width to the encoded length.
pub proof fn lemma_utf8_len_push(s: Seq<char>, c: char)
    ensures
        utf8_len(s.push(c)) == utf8_len(s) + char_width(c),
    decreases s.len(),
{
    lemma_scalar_width(c);
    if s.len() == 0 {
        assert(s.push(c).drop_first() =~= Seq::<char>::empty());
        assert(encode_utf8(Seq::<char>::empty()) =~= Seq::<u8>::empty());
    } else {
        assert(s.push(c).drop_first() =~= s.drop_first().push(c));
        lemma_utf8_len_push(s.drop_first(), c);
        lemma_scalar_width(s[0]);
    }
}

/// The encoded length of a prefix grows with the prefix.
pub proof fn lemma_utf8_len_prefix_mono(s: Seq<char>, a: int, b: int)
    requires
        0 <= a <= b <= s.len(),
    ensures
        utf8_len(s.take(a)) <= utf8_len(s.take(b)),
    decreases b - a,
{
    if a < b {
        lemma_utf8_len_prefix_mono(s, a, b - 1);
        assert(s.take(b) =~= s.take(b - 1).push(s[b - 1]));
        lemma_utf8_len_push(s.take(b - 1), s[b - 1]);
    }
}

pub fn width_of(c: char) -> (w: usize)
    ensures
        w == char_width(c),
{
    let u = c as u32;
    if u <= 0x7f {
        1
    } else if u <= 0x7ff {
        2
    } else if u <= 0xffff {
        3
    } else {
        4
    }
}

/// Truncate a string to at most `max_bytes` bytes at a safe UTF-8 char boundary.
///
/// Returns the full string if it fits; otherwise the longest prefix of whole characters
/// whose encoding fits in `max_bytes` bytes.
pub fn safe_truncate<'a>(s: &'a str, max_bytes: usize) -> (r: &'a str)
    ensures
        utf8_len(s@) <= max_bytes ==> r@ == s@,
        utf8_len(s@) > max_bytes ==> {
            &&& r@.len() < s@.len()
            &&& r@ == s@.take(r@.len() as int)
            &&& utf8_len(r@) <= max_bytes
            &&& utf8_len(s@.take(r@.len() as int + 1)) > max_bytes
        },
{
    let chars = to_chars(s);
    let mut i: usize = 0;
    let mut bytes: usize = 0;
    proof {
        assert(s@.take(0) =~= Seq::<char>::empty());
        assert(encode_utf8(Seq::<char>::empty()) =~= Seq::<u8>::empty());
    }
    while i < chars.len() && width_of(chars[i]) <= max_bytes - bytes
        invariant
            chars@ == s@,
            i <= chars.len(),
            bytes <= max_bytes,
            bytes == utf8_len(s@.take(i as int)),
        decreases chars.len() - i,
    {
        proof {
            assert(s@.take(i + 1) =~= s@.take(i as int).push(s@[i as int]));
            lemma_utf8_len_push(s@.take(i as int), s@[i as int]);
        }
        bytes = bytes + width_of(chars[i]);
        i += 1;
    }
    if i == chars.len() {
        assert(s@.take(i as int) =~= s@);
        return s;
    }
    proof {
        assert(s@.take(i + 1) =~= s@.take(i as int).push(s@[i as int]));
        lemma_utf8_len_push(s@.take(i as int), s@[i as int]);
        assert(s@.take(s@.len() as int) =~= s@);
        lemma_utf8_len_prefix_mono(s@, i + 1, s@.len() as int);
    }
    s.substring_char(0, i)
}

/// Scanning from `k` characters on, the number of leading characters of `s` whose
/// encoding fits in `max` bytes.
pub open spec fn fit_from(s: Seq<char>, max: nat, k: int) -> int
    decreases s.len() - k,
{
    if 0 <= k < s.len() && utf8_len(s.take(k + 1)) <= max {
        fit_from(s, max, k + 1)
    } else {
        k
    }
}

/// The number of leading characters of `s` whose encoding fits in `max` bytes.
pub open spec fn fit(s: Seq<char>, max: nat) -> int {
    fit_from(s, max, 0)
}

proof fn lemma_fit_from_bounds(s: Seq<char>, max: nat, k: int)
    requires
        0 <= k <= s.len(),
    ensures
        k <= fit_from(s, max, k) <= s.len(),
    decreases s.len() - k,
{
    if k < s.len() && utf8_len(s.take(k + 1)) <= max {
        lemma_fit_from_bounds(s, max, k + 1);
    }
}

/// The number of leading characters of `v` whose encoding fits in `max` bytes, and whether
/// all of `v` fits.
pub fn fit_count(v: &Vec<char>, max: usize) -> (r: (usize, bool))
    ensures
        r.0 == fit(v@, max as nat),
        r.0 <= v.len(),
        utf8_len(v@.take(r.0 as int)) <= max,
        r.1 == (utf8_len(v@) <= max),
        r.1 == (r.0 == v.len()),
{
    let mut i: usize = 0;
    let mut bytes: usize = 0;
    proof {
        assert(v@.take(0) =~= Seq::<char>::empty());
        assert(encode_utf8(Seq::<char>::empty()) =~= Seq::<u8>::empty());
    }
    while i < v.len() && width_of(v[i]) <= max - bytes
        invariant
            i <= v.len(),
            bytes <= max,
            bytes == utf8_len(v@.take(i as int)),
            fit(v@, max as nat) == fit_from(v@, max as nat, i as int),
        decreases v.len() - i,
    {
        proof {
            assert(v@.take(i + 1) =~= v@.take(i as int).push(v@[i as int]));
            lemma_utf8_len_push(v@.take(i as int), v@[i as int]);
        }
        bytes = bytes + width_of(v[i]);
        i += 1;
    }
    proof {
        if i < v.len() {
            assert(v@.take(i + 1) =~= v@.take(i as int).push(v@[i as int]));
            lemma_utf8_len_push(v@.take(i as int), v@[i as int]);
            lemma_utf8_len_prefix_mono(v@, i + 1, v@.len() as int);
            assert(v@.take(v@.len() as int) =~= v@);
        } else {
            assert(v@.take(i as int) =~= v@);
        }
    }
    (i, i == v.len())
}


/// The characters that `fit_from` counts fit, when those before `k` do.
proof fn lemma_fit_from_fits(s: Seq<char>, max: nat, k: int)
    requires
        0 <= k <= s.len(),
        utf8_len(s.take(k)) <= max,
    ensures
        utf8_len(s.take(fit_from(s, max, k))) <= max,
    decreases s.len() - k,
{
    if k < s.len() && utf8_len(s.take(k + 1)) <= max {
        lemma_fit_from_fits(s, max, k + 1);
    }
}

/// The characters that `fit` counts are a prefix whose encoding fits in `max` bytes.
pub proof fn lemma_fit_fits(s: Seq<char>, max: nat)
    ensures
        0 <= fit(s, max) <= s.len(),
        utf8_len(s.take(fit(s, max))) <= max,
{
    assert(s.take(0) =~= Seq::<char>::empty());
    assert(encode_utf8(Seq::<char>::empty()) =~= Seq::<u8>::empty());
    lemma_fit_from_bounds(s, max, 0);
    lemma_fit_from_fits(s, max, 0);
}

/// A single character takes at most four bytes.
pub proof fn lemma_one_char_fits(s: Seq<char>)
    requires
        s.len() > 0,
    ensures
        utf8_len(s.take(1)) <= 4,
{
    assert(s.take(1) =~= Seq::<char>::empty().push(s[0]));
    assert(encode_utf8(Seq::<char>::empty()) =~= Seq::<u8>::empty());
    lemma_utf8_len_push(Seq::<char>::empty(), s[0]);
}

/// Counting from `j`, `fit_from` stops at `k` when the first `k` characters fit and one
/// more does not.
proof fn lemma_fit_from_reaches(s: Seq<char>, max: nat, j: int, k: int)
    requires
        0 <= j <= k < s.len(),
        utf8_len(s.take(k)) <= max,
        utf8_len(s.take(k + 1)) > max,
    ensures
        fit_from(s, max, j) == k,
    decreases k - j,
{
    if j < k {
        lemma_utf8_len_prefix_mono(s, j + 1, k);
        lemma_fit_from_reaches(s, max, j + 1, k);
    }
}

/// `fit` counts exactly the longest prefix that fits.
pub proof fn lemma_fit_is_longest(s: Seq<char>, max: nat, k: int)
    requires
        0 <= k < s.len(),
        utf8_len(s.take(k)) <= max,
        utf8_len(s.take(k + 1)) > max,
    ensures
        fit(s, max) == k,
{
    lemma_fit_from_reaches(s, max, 0, k);
}

} // verus!
