//! Parsing a pane identifier out of its decimal string form.
//!
//! The accepted shape matches what `str::parse::<u32>` accepts: an
//! optional leading `+`, then one or more ASCII digits, with the value
//! fitting in 32 bits.

use vstd::prelude::*;

verus! {

/// An ASCII decimal digit.
pub open spec fn is_decimal_digit(c: char) -> bool {
    '0' <= c && c <= '9'
}

/// The numeric value of one decimal digit.
pub open spec fn digit_value(c: char) -> int {
    c as int - '0' as int
}

/// Every character of `s` is a decimal digit.
pub open spec fn all_digits(s: Seq<char>) -> bool {
    forall|i: int| 0 <= i < s.len() ==> is_decimal_digit(#[trigger] s[i])
}

/// The value of a digit string read in base ten.
pub open spec fn digits_value(s: Seq<char>) -> int
    decreases s.len(),
{
    if s.len() == 0 {
        0
    } else {
        10 * digits_value(s.drop_last()) + digit_value(s.last())
    }
}

/// The digits of a numeral: the whole string, or what follows one
/// leading `+` sign.
pub open spec fn digit_part(s: Seq<char>) -> Seq<char> {
    if s.len() > 0 && s[0] == '+' {
        s.subrange(1, s.len() as int)
    } else {
        s
    }
}

/// Whether `s` parses as an unsigned 32-bit decimal numeral.
pub open spec fn is_u32_numeral(s: Seq<char>) -> bool {
    let d = digit_part(s);
    d.len() > 0 && all_digits(d) && digits_value(d) <= u32::MAX
}

/// The value of a numeral; meaningful when `is_u32_numeral` holds.
pub open spec fn u32_numeral_value(s: Seq<char>) -> int {
    digits_value(digit_part(s))
}

/// The value of a digit string is never negative.
proof fn lemma_digits_value_nonneg(s: Seq<char>)
    requires
        all_digits(s),
    ensures
        digits_value(s) >= 0,
    decreases s.len(),
{
    if s.len() > 0 {
        assert(all_digits(s.drop_last())) by {
            assert(forall|i: int|
                0 <= i < s.len() - 1 ==> #[trigger] s.drop_last()[i] == s[i]);
        }
        lemma_digits_value_nonneg(s.drop_last());
    }
}

/// Reading more digits never shrinks the value: the value of a prefix is
/// a lower bound for the value of the whole digit string.
proof fn lemma_digits_value_prefix_le(s: Seq<char>, i: int)
    requires
        all_digits(s),
        0 <= i <= s.len(),
    ensures
        digits_value(s.take(i)) <= digits_value(s),
    decreases s.len() - i,
{
    if i == s.len() {
        assert(s.take(i) =~= s);
    } else {
        let t = s.take(i + 1);
        assert(t.drop_last() =~= s.take(i));
        assert(t.last() == s[i]);
        assert(all_digits(s.take(i))) by {
            assert(forall|k: int|
                0 <= k < i ==> #[trigger] s.take(i)[k] == s[k]);
        }
        lemma_digits_value_nonneg(s.take(i));
        assert(digits_value(t) == 10 * digits_value(s.take(i)) + digit_value(s[i]));
        lemma_digits_value_prefix_le(s, i + 1);
    }
}

/// Parses `s` as a non-negative 32-bit integer, exactly as the host's
/// pane identifiers are written: optional `+`, then decimal digits.
/// Returns `None` on an empty digit part, a non-digit character, or a
/// value above `u32::MAX`.
pub fn parse_u32(s: &str) -> (r: Option<u32>)
    ensures
        r is Some <==> is_u32_numeral(s@),
        r matches Some(v) ==> v as int == u32_numeral_value(s@),
{
    let len = s.unicode_len();
    if len == 0 {
        return None;
    }
    let first = s.get_char(0);
    let start: usize = if first == '+' {
        1
    } else {
        0
    };
    let ghost d = digit_part(s@);
    proof {
        if start == 0 {
            assert(d =~= s@.subrange(0, s@.len() as int));
            assert(d =~= s@);
        }
    }
    if start == len {
        // the string is just a sign with no digits
        return None;
    }
    let mut acc: u32 = 0;
    let mut i: usize = start;
    while i < len
        invariant
            start <= i <= len,
            len == s@.len(),
            start <= 1,
            d == digit_part(s@),
            d == s@.subrange(start as int, len as int),
            all_digits(d.take(i - start)),
            acc as int == digits_value(d.take(i - start)),
        decreases len - i,
    {
        let c = s.get_char(i);
        proof {
            assert(d[i - start] == s@[i as int]);
        }
        if !('0' <= c && c <= '9') {
            proof {
                assert(!is_decimal_digit(d[i - start]));
                assert(!all_digits(d));
            }
            return None;
        }
        let dv: u32 = c as u32 - '0' as u32;
        let wide: u64 = acc as u64 * 10 + dv as u64;
        proof {
            let t = d.take(i - start + 1);
            assert(t.drop_last() =~= d.take(i - start));
            assert(t.last() == d[i - start]);
            assert(wide as int == digits_value(t));
        }
        if wide > u32::MAX as u64 {
            proof {
                if all_digits(d) {
                    lemma_digits_value_prefix_le(d, i - start + 1);
                    assert(digits_value(d) > u32::MAX);
                }
            }
            return None;
        }
        acc = wide as u32;
        i = i + 1;
        proof {
            assert(all_digits(d.take(i - start))) by {
                assert(forall|k: int|
                    0 <= k < i - start ==> #[trigger] d.take(i - start)[k] == d[k]);
            }
        }
    }
    proof {
        assert(d.take(len - start) =~= d);
    }
    Some(acc)
}

} // verus!
