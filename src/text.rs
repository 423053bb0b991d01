//! Text operations of std that the logic relies on, with what their
//! documentation promises.

use vstd::prelude::*;

verus! {

/// Whether `needle` occurs in `hay` as a run of consecutive characters.
pub open spec fn has_infix(hay: Seq<char>, needle: Seq<char>) -> bool {
    exists|i: int|
        0 <= i && i + needle.len() <= hay.len() && #[trigger] hay.subrange(i, i + needle.len()) == needle
}

/// The lower-case form of a text, as std's Unicode case mapping gives it.
pub uninterp spec fn lower_of(s: Seq<char>) -> Seq<char>;

/// Relies on `str::to_lowercase`: the result depends on the characters alone.
#[verifier::external_body]
pub fn lowercase(s: &str) -> (r: String)
    ensures
        r@ == lower_of(s@),
{
    s.to_lowercase()
}

/// Whether `needle` occurs in `hay` as a run of consecutive characters.
pub fn contains_text(hay: &str, needle: &str) -> (r: bool)
    ensures
        r == has_infix(hay@, needle@),
{
    let n = hay.unicode_len();
    let m = needle.unicode_len();
    if m > n {
        proof {
            assert forall|i: int| 0 <= i && i + needle@.len() <= hay@.len() implies #[trigger] hay@.subrange(
                i,
                i + needle@.len(),
            ) != needle@ by {}
        }
        return false;
    }
    if m == 0 {
        proof {
            assert(hay@.subrange(0, 0 + needle@.len() as int) =~= needle@);
        }
        return true;
    }
    let last = n - m;
    let mut i: usize = 0;
    while i <= last
        invariant
            n == hay@.len(),
            m == needle@.len(),
            last == n - m,
            m >= 1,
            i <= last + 1,
            forall|k: int| 0 <= k < i ==> #[trigger] hay@.subrange(k, k + m) != needle@,
        decreases last + 1 - i,
    {
        let mut j: usize = 0;
        let mut same = true;
        while j < m && same
            invariant
                n == hay@.len(),
                m == needle@.len(),
                i + m <= n,
                j <= m,
                same ==> hay@.subrange(i as int, i + j) == needle@.subrange(0, j as int),
                !same ==> hay@.subrange(i as int, i + m) != needle@,
            decreases m - j + if same { 1int } else { 0int },
        {
            if hay.get_char(i + j) != needle.get_char(j) {
                same = false;
                proof {
                    assert(hay@.subrange(i as int, i + m)[j as int] == hay@[i + j]);
                }
            } else {
                proof {
                    assert(hay@.subrange(i as int, i + j + 1) =~= hay@.subrange(i as int, i + j).push(hay@[i + j]));
                    assert(needle@.subrange(0, j + 1) =~= needle@.subrange(0, j as int).push(needle@[j as int]));
                }
                j += 1;
            }
        }
        if same {
            proof {
                assert(needle@.subrange(0, m as int) == needle@);
                assert(hay@.subrange(i as int, i + needle@.len()) == needle@);
            }
            return true;
        }
        i += 1;
    }
    proof {
        assert forall|k: int| 0 <= k && k + needle@.len() <= hay@.len() implies #[trigger] hay@.subrange(
            k,
            k + needle@.len(),
        ) != needle@ by {
            assert(k < i);
        }
    }
    false
}

/// Unicode's White_Space characters.
pub open spec fn is_white_space(c: char) -> bool {
    ('\u{9}' <= c && c <= '\u{d}') || c == ' ' || c == '\u{85}' || c == '\u{a0}' || c == '\u{1680}'
        || ('\u{2000}' <= c && c <= '\u{200a}') || c == '\u{2028}' || c == '\u{2029}' || c == '\u{202f}'
        || c == '\u{205f}' || c == '\u{3000}'
}

/// Whether a text holds nothing but white space.
pub open spec fn is_blank(s: Seq<char>) -> bool {
    forall|i: int| 0 <= i < s.len() ==> is_white_space(#[trigger] s[i])
}

pub fn is_white_space_char(c: char) -> (r: bool)
    ensures
        r == is_white_space(c),
{
    ('\u{9}' <= c && c <= '\u{d}') || c == ' ' || c == '\u{85}' || c == '\u{a0}' || c == '\u{1680}'
        || ('\u{2000}' <= c && c <= '\u{200a}') || c == '\u{2028}' || c == '\u{2029}' || c == '\u{202f}'
        || c == '\u{205f}' || c == '\u{3000}'
}

/// Whether `s` holds nothing but white space (an empty text does).
pub fn blank_text(s: &str) -> (r: bool)
    ensures
        r == is_blank(s@),
{
    let n = s.unicode_len();
    let mut i: usize = 0;
    while i < n
        invariant
            n == s@.len(),
            i <= n,
            forall|k: int| 0 <= k < i ==> is_white_space(#[trigger] s@[k]),
        decreases n - i,
    {
        if !is_white_space_char(s.get_char(i)) {
            return false;
        }
        i += 1;
    }
    true
}

/// Relies on `Debug` of `std::time::Duration`: how an elapsed time in
/// milliseconds is written for people.
pub uninterp spec fn elapsed_text(ms: int) -> Seq<char>;

/// Relies on the `Debug` format of `std::time::Duration::from_millis(ms)`.
#[verifier::external_body]
pub fn describe_elapsed(ms: u64) -> (r: String)
    ensures
        r@ == elapsed_text(ms as int),
{
    format!("{:?}", std::time::Duration::from_millis(ms))
}

/// `a` followed by `b`.
pub fn join_text(a: &str, b: &str) -> (r: String)
    ensures
        r@ == a@ + b@,
{
    let s = String::from_str(a);
    s.concat(b)
}

} // verus!
