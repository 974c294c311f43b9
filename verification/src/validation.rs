//! Validation of textual inputs that arrive over the status API: decimal
//! token amounts and hex-encoded asset addresses.

use vstd::prelude::*;

verus! {

/// A decimal digit, `'0'` through `'9'`.
pub open spec fn is_dec_digit(c: char) -> bool {
    48 <= c as int <= 57
}

/// The numeric value of a decimal digit.
pub open spec fn dec_digit_value(c: char) -> int {
    c as int - 48
}

/// Every character of `s` is a decimal digit.
pub open spec fn all_dec_digits(s: Seq<char>) -> bool {
    forall|i: int| 0 <= i < s.len() ==> is_dec_digit(s[i])
}

/// The non-negative integer denoted by the digit string `s`
/// (most significant digit first; leading zeroes are allowed).
pub open spec fn dec_value(s: Seq<char>) -> int
    decreases s.len(),
{
    if s.len() == 0 {
        0
    } else {
        dec_value(s.drop_last()) * 10 + dec_digit_value(s.last())
    }
}

/// A digit string denotes a non-negative value.
pub proof fn lemma_dec_value_nonneg(s: Seq<char>)
    requires
        all_dec_digits(s),
    ensures
        dec_value(s) >= 0,
    decreases s.len(),
{
    if s.len() > 0 {
        assert(all_dec_digits(s.drop_last()));
        lemma_dec_value_nonneg(s.drop_last());
    }
}

/// Extending a digit string never decreases its value.
pub proof fn lemma_dec_value_prefix_le(s: Seq<char>, i: int)
    requires
        all_dec_digits(s),
        0 <= i <= s.len(),
    ensures
        dec_value(s.subrange(0, i)) <= dec_value(s),
    decreases s.len() - i,
{
    if i == s.len() {
        assert(s.subrange(0, i) =~= s);
    } else {
        let p = s.subrange(0, i);
        let q = s.subrange(0, i + 1);
        assert(q.drop_last() =~= p);
        assert(all_dec_digits(p));
        lemma_dec_value_nonneg(p);
        assert(dec_value(q) == dec_value(p) * 10 + dec_digit_value(q.last()));
        assert(dec_value(p) <= dec_value(p) * 10) by (nonlinear_arith)
            requires dec_value(p) >= 0;
        lemma_dec_value_prefix_le(s, i + 1);
    }
}

/// Parses a decimal digit string into a `u64` amount.
///
/// Returns `Some` exactly when the string is non-empty, consists only of
/// decimal digits, and denotes a value that fits in a `u64`.
pub fn parse_amount(s: &str) -> (r: Option<u64>)
    ensures
        r is Some <==> s@.len() > 0 && all_dec_digits(s@) && dec_value(s@) <= u64::MAX,
        r is Some ==> r->0 == dec_value(s@),
{
    let n = s.unicode_len();
    if n == 0 {
        return None;
    }
    let mut acc: u64 = 0;
    let mut i: usize = 0;
    while i < n
        invariant
            0 < n == s@.len(),
            0 <= i <= n,
            all_dec_digits(s@.subrange(0, i as int)),
            acc == dec_value(s@.subrange(0, i as int)),
        decreases n - i,
    {
        let c = s.get_char(i);
        let u = c as u32;
        proof {
            assert(s@.subrange(0, i as int + 1).drop_last() =~= s@.subrange(0, i as int));
        }
        if u < 48 || u > 57 {
            assert(!is_dec_digit(s@[i as int]));
            return None;
        }
        let d = (u - 48) as u64;
        assert(d == dec_digit_value(s@[i as int]));
        if acc > (u64::MAX - d) / 10 {
            proof {
                let full = dec_value(s@.subrange(0, i as int + 1));
                assert(full == acc * 10 + d);
                let m = (u64::MAX - d) as int;
                assert(m == 10 * (m / 10) + m % 10) by (nonlinear_arith);
                assert(0 <= m % 10 < 10) by (nonlinear_arith);
                assert(acc * 10 >= (m / 10 + 1) * 10) by (nonlinear_arith)
                    requires acc >= m / 10 + 1;
                assert(full > u64::MAX);
                if all_dec_digits(s@) {
                    lemma_dec_value_prefix_le(s@, i as int + 1);
                }
            }
            return None;
        }
        proof {
            let m = (u64::MAX - d) as int;
            assert(m == 10 * (m / 10) + m % 10) by (nonlinear_arith);
            assert(0 <= m % 10 < 10) by (nonlinear_arith);
            assert(acc * 10 <= (m / 10) * 10) by (nonlinear_arith)
                requires acc <= m / 10;
        }
        acc = acc * 10 + d;
        i = i + 1;
    }
    proof {
        assert(s@.subrange(0, n as int) =~= s@);
    }
    Some(acc)
}

/// A hexadecimal digit, upper or lower case.
pub open spec fn is_hex_digit(c: char) -> bool {
    ||| 48 <= c as int <= 57
    ||| 65 <= c as int <= 70
    ||| 97 <= c as int <= 102
}

/// A well-formed EVM asset address: `0x` followed by exactly 40 hex digits.
pub open spec fn spec_is_asset_address(s: Seq<char>) -> bool {
    &&& s.len() == 42
    &&& s[0] == '0'
    &&& s[1] == 'x'
    &&& forall|i: int| 2 <= i < 42 ==> is_hex_digit(s[i])
}

/// Checks that a string is a well-formed EVM asset address.
pub fn is_asset_address(s: &str) -> (r: bool)
    ensures
        r == spec_is_asset_address(s@),
{
    let n = s.unicode_len();
    if n != 42 {
        return false;
    }
    if s.get_char(0) != '0' || s.get_char(1) != 'x' {
        return false;
    }
    let mut i: usize = 2;
    while i < 42
        invariant
            s@.len() == 42,
            2 <= i <= 42,
            forall|j: int| 2 <= j < i ==> is_hex_digit(s@[j]),
        decreases 42 - i,
    {
        let u = s.get_char(i) as u32;
        let ok = (48 <= u && u <= 57) || (65 <= u && u <= 70) || (97 <= u && u <= 102);
        if !ok {
            assert(!is_hex_digit(s@[i as int]));
            return false;
        }
        assert(is_hex_digit(s@[i as int]));
        i = i + 1;
    }
    true
}

} // verus!
