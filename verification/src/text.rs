//! Decimal rendering of ids, for the response messages.

use vstd::prelude::*;

verus! {

/// The decimal digit character for `d` (`d <= 9`).
pub open spec fn digit_char(d: nat) -> char {
    "0123456789"@[d as int]
}

/// The decimal digits of `n`, most significant first, without leading
/// zeroes (`0` itself is the single digit `0`).
pub open spec fn dec_digits(n: nat) -> Seq<char>
    decreases n,
{
    if n < 10 {
        seq![digit_char(n)]
    } else {
        dec_digits(n / 10).push(digit_char(n % 10))
    }
}

/// Whether `c` is a decimal digit.
pub open spec fn is_digit(c: char) -> bool {
    48 <= c as int && c as int <= 57
}

/// The value of the digit `c`.
pub open spec fn digit_val(c: char) -> nat {
    (c as int - 48) as nat
}

/// Every character of `s` is a decimal digit.
pub open spec fn all_digits(s: Seq<char>) -> bool {
    forall|i: int| 0 <= i < s.len() ==> is_digit(#[trigger] s[i])
}

/// The number the digit string `s` denotes (most significant digit
/// first; empty denotes 0).
pub open spec fn digits_value(s: Seq<char>) -> nat
    decreases s.len(),
{
    if s.len() == 0 {
        0
    } else {
        digits_value(s.drop_last()) * 10 + digit_val(s.last())
    }
}

/// A digit string never denotes less than any of its prefixes.
pub proof fn lemma_digits_value_prefix(s: Seq<char>, i: int, j: int)
    requires
        0 <= i <= j <= s.len(),
    ensures
        digits_value(s.subrange(0, i)) <= digits_value(s.subrange(0, j)),
    decreases j - i,
{
    if i < j {
        lemma_digits_value_prefix(s, i, j - 1);
        assert(s.subrange(0, j).drop_last() =~= s.subrange(0, j - 1));
        assert(digits_value(s.subrange(0, j)) == digits_value(s.subrange(0, j - 1)) * 10
            + digit_val(s.subrange(0, j).last()));
    }
}

/// Parse an id from decimal text: the number the digits denote, when the
/// text is nonempty, holds digits only, and the number fits a `u64`; and
/// nothing otherwise.
pub fn parse_id(s: &str) -> (r: Option<u64>)
    ensures
        match r {
            Some(n) => s@.len() > 0 && all_digits(s@) && n as nat == digits_value(s@),
            None => s@.len() == 0 || !all_digits(s@) || digits_value(s@) > u64::MAX,
        },
{
    let len = s.unicode_len();
    if len == 0 {
        return None;
    }
    let mut value: u64 = 0;
    let mut i: usize = 0;
    while i < len
        invariant
            len == s@.len(),
            0 < len,
            i <= len,
            all_digits(s@.subrange(0, i as int)),
            value as nat == digits_value(s@.subrange(0, i as int)),
        decreases len - i,
    {
        let c = s.get_char(i);
        let cv = c as u32;
        if cv < 48 || cv > 57 {
            assert(!is_digit(s@[i as int]));
            return None;
        }
        let d = (cv - 48) as u64;
        proof {
            assert(s@.subrange(0, i as int + 1).drop_last() =~= s@.subrange(0, i as int));
            assert(digits_value(s@.subrange(0, i as int + 1)) == digits_value(
                s@.subrange(0, i as int),
            ) * 10 + digit_val(s@[i as int]));
        }
        let grown = match value.checked_mul(10) {
            Some(v) => v,
            None => {
                proof {
                    lemma_digits_value_prefix(s@, i as int + 1, len as int);
                    assert(s@.subrange(0, len as int) =~= s@);
                }
                return None;
            },
        };
        let next = match grown.checked_add(d) {
            Some(v) => v,
            None => {
                proof {
                    lemma_digits_value_prefix(s@, i as int + 1, len as int);
                    assert(s@.subrange(0, len as int) =~= s@);
                }
                return None;
            },
        };
        value = next;
        i += 1;
    }
    proof {
        assert(s@.subrange(0, len as int) =~= s@);
    }
    Some(value)
}

/// The decimal rendering of `n`, as text.
pub fn u64_to_string(n: u64) -> (r: String)
    ensures
        r@ == dec_digits(n as nat),
    decreases n,
{
    let digits: &str = "0123456789";
    proof {
        reveal_strlit("0123456789");
    }
    let d = (n % 10) as usize;
    let last = digits.substring_ascii(d, d + 1);
    proof {
        assert(last@ =~= seq![digit_char((n % 10) as nat)]);
    }
    if n < 10 {
        last.to_owned()
    } else {
        let mut prefix = u64_to_string(n / 10);
        prefix.append(last);
        proof {
            assert(prefix@ =~= dec_digits(n as nat));
        }
        prefix
    }
}

} // verus!
