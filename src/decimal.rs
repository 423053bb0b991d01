//! Unsigned integers as decimal text, as JSON writes them.

use vstd::prelude::*;

verus! {

pub open spec fn is_digit(c: char) -> bool {
    '0' <= c && c <= '9'
}

/// Nonempty and made of decimal digits only.
pub open spec fn is_digits(s: Seq<char>) -> bool {
    s.len() > 0 && forall|i: int| 0 <= i < s.len() ==> is_digit(#[trigger] s[i])
}

/// The number that a run of decimal digits writes.
pub open spec fn decimal_value(s: Seq<char>) -> int
    decreases s.len(),
{
    if s.len() == 0 {
        0
    } else {
        decimal_value(s.drop_last()) * 10 + (s.last() as int - '0' as int)
    }
}

pub open spec fn digit_char(d: int) -> char {
    if d == 0 {
        '0'
    } else if d == 1 {
        '1'
    } else if d == 2 {
        '2'
    } else if d == 3 {
        '3'
    } else if d == 4 {
        '4'
    } else if d == 5 {
        '5'
    } else if d == 6 {
        '6'
    } else if d == 7 {
        '7'
    } else if d == 8 {
        '8'
    } else {
        '9'
    }
}

/// The decimal text of `n`, without leading zeros.
pub open spec fn decimal_of(n: nat) -> Seq<char>
    decreases n,
{
    if n < 10 {
        seq![digit_char(n as int)]
    } else {
        decimal_of(n / 10).push(digit_char((n % 10) as int))
    }
}

fn digit_str(d: u32) -> (r: &'static str)
    requires
        d < 10,
    ensures
        r@ == seq![digit_char(d as int)],
{
    proof {
        reveal_strlit("0");
        reveal_strlit("1");
        reveal_strlit("2");
        reveal_strlit("3");
        reveal_strlit("4");
        reveal_strlit("5");
        reveal_strlit("6");
        reveal_strlit("7");
        reveal_strlit("8");
        reveal_strlit("9");
    }
    if d == 0 {
        "0"
    } else if d == 1 {
        "1"
    } else if d == 2 {
        "2"
    } else if d == 3 {
        "3"
    } else if d == 4 {
        "4"
    } else if d == 5 {
        "5"
    } else if d == 6 {
        "6"
    } else if d == 7 {
        "7"
    } else if d == 8 {
        "8"
    } else {
        "9"
    }
}

/// The decimal text of `n`.
pub fn u32_text(n: u32) -> (r: String)
    ensures
        r@ == decimal_of(n as nat),
    decreases n,
{
    if n < 10 {
        String::from_str(digit_str(n))
    } else {
        let head = u32_text(n / 10);
        head.concat(digit_str(n % 10))
    }
}

proof fn lemma_value_nonneg(s: Seq<char>)
    requires
        forall|i: int| 0 <= i < s.len() ==> is_digit(#[trigger] s[i]),
    ensures
        decimal_value(s) >= 0,
    decreases s.len(),
{
    if s.len() > 0 {
        lemma_value_nonneg(s.drop_last());
    }
}

proof fn lemma_prefix_value_le(s: Seq<char>, n: int)
    requires
        0 <= n <= s.len(),
        forall|i: int| 0 <= i < s.len() ==> is_digit(#[trigger] s[i]),
    ensures
        decimal_value(s.subrange(0, n)) <= decimal_value(s),
    decreases s.len() - n,
{
    if n < s.len() {
        lemma_prefix_value_le(s, n + 1);
        let p = s.subrange(0, n + 1);
        assert(p.drop_last() == s.subrange(0, n));
        lemma_value_nonneg(s.subrange(0, n));
    } else {
        assert(s.subrange(0, n) == s);
    }
}

/// The number that `s` writes in decimal, where it is made of digits only and
/// fits in a `u32`.
pub fn parse_u32(s: &str) -> (r: Option<u32>)
    ensures
        r == (if is_digits(s@) && decimal_value(s@) <= u32::MAX {
            Some(decimal_value(s@) as u32)
        } else {
            None::<u32>
        }),
{
    let n = s.unicode_len();
    if n == 0 {
        return None;
    }
    let mut acc: u64 = 0;
    let mut i: usize = 0;
    while i < n
        invariant
            n == s@.len(),
            i <= n,
            acc == decimal_value(s@.subrange(0, i as int)),
            acc <= u32::MAX,
            forall|j: int| 0 <= j < i ==> is_digit(#[trigger] s@[j]),
        decreases n - i,
    {
        let c = s.get_char(i);
        proof {
            assert(s@.subrange(0, i + 1).drop_last() == s@.subrange(0, i as int));
        }
        if !('0' <= c && c <= '9') {
            return None;
        }
        let d = (c as u32 - '0' as u32) as u64;
        acc = acc * 10 + d;
        i += 1;
        if acc > u32::MAX as u64 {
            proof {
                if is_digits(s@) {
                    lemma_prefix_value_le(s@, i as int);
                }
            }
            return None;
        }
    }
    proof {
        assert(s@.subrange(0, i as int) == s@);
    }
    Some(acc as u32)
}

/// The decimal text of a signed integer, with a leading `-` when negative.
pub open spec fn int_text(n: int) -> Seq<char> {
    if n < 0 {
        "-"@ + decimal_of((-n) as nat)
    } else {
        decimal_of(n as nat)
    }
}

/// The decimal text of `n`.
pub fn i32_text(n: i32) -> (r: String)
    ensures
        r@ == int_text(n as int),
{
    if n < 0 {
        let magnitude = (-(n as i64)) as u32;
        let digits = u32_text(magnitude);
        crate::text::join_text("-", digits.as_str())
    } else {
        u32_text(n as u32)
    }
}

} // verus!
