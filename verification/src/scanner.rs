//! Number scanner: reads the maximal run of decimal digits at a position and
//! accumulates its value.
//!
//! Digit runs whose value exceeds `i32::MAX` saturate to `i32::MAX`; the
//! scanner itself never fails, and a position that does not start with a
//! digit yields value `0` and an unchanged position.

use vstd::prelude::*;

verus! {

/// True of the ten decimal digit characters.
pub open spec fn is_digit_char(c: char) -> bool {
    '0' <= c && c <= '9'
}

/// The numeric value of a decimal digit character.
pub open spec fn digit_value(c: char) -> int
    recommends
        is_digit_char(c),
{
    c as u32 - '0' as u32
}

/// The value of a digit string read in base ten, most significant digit
/// first, without any width limit.
pub open spec fn dec_value(digits: Seq<char>) -> int
    decreases digits.len(),
{
    if digits.len() == 0 {
        0
    } else {
        10 * dec_value(digits.drop_last()) + digit_value(digits.last())
    }
}

/// `dec_value` clamped from above into the 32-bit signed range: the value the
/// saturating scanner reports for a digit string.
pub open spec fn clamped_value(digits: Seq<char>) -> int {
    if dec_value(digits) > i32::MAX {
        i32::MAX as int
    } else {
        dec_value(digits)
    }
}

/// The value the scanner reports for the digit string `digits`, as the
/// 32-bit integer a literal token carries.
pub open spec fn clamped_i32(digits: Seq<char>) -> i32 {
    #[verifier::truncate] (clamped_value(digits) as i32)
}

/// The length of the maximal prefix of `s` made of decimal digits.
pub open spec fn digit_run_len(s: Seq<char>) -> nat
    decreases s.len(),
{
    if s.len() == 0 || !is_digit_char(s[0]) {
        0
    } else {
        (1 + digit_run_len(s.skip(1))) as nat
    }
}

/// A string of digits has a non-negative value.
pub proof fn lemma_dec_value_nonneg(digits: Seq<char>)
    requires
        forall|j: int| 0 <= j < digits.len() ==> is_digit_char(#[trigger] digits[j]),
    ensures
        dec_value(digits) >= 0,
    decreases digits.len(),
{
    if digits.len() > 0 {
        assert(forall|j: int|
            0 <= j < digits.drop_last().len() ==> is_digit_char(#[trigger] digits.drop_last()[j]));
        lemma_dec_value_nonneg(digits.drop_last());
    }
}

/// How one more digit changes the exact and the clamped value: the exact
/// value steps by `v -> 10 v + d`, and clamping commutes with that step.
pub proof fn lemma_clamped_step(digits: Seq<char>, c: char)
    requires
        forall|j: int| 0 <= j < digits.len() ==> is_digit_char(#[trigger] digits[j]),
        is_digit_char(c),
    ensures
        dec_value(digits.push(c)) == 10 * dec_value(digits) + digit_value(c),
        clamped_value(digits.push(c)) == (if 10 * clamped_value(digits) + digit_value(c)
            > i32::MAX {
            i32::MAX as int
        } else {
            10 * clamped_value(digits) + digit_value(c)
        }),
{
    assert(digits.push(c).drop_last() =~= digits);
    assert(digits.push(c).last() == c);
    lemma_dec_value_nonneg(digits);
}

/// The digit-run length is exactly `k` when the first `k` characters are
/// digits and the run stops there.
pub proof fn lemma_digit_run_len_is(s: Seq<char>, k: int)
    requires
        0 <= k <= s.len(),
        forall|j: int| 0 <= j < k ==> is_digit_char(#[trigger] s[j]),
        k == s.len() || !is_digit_char(s[k]),
    ensures
        digit_run_len(s) == k,
    decreases k,
{
    if k == 0 {
    } else {
        assert(is_digit_char(s[0]));
        assert(forall|j: int| 0 <= j < k - 1 ==> is_digit_char(#[trigger] s.skip(1)[j]));
        assert(k - 1 == s.skip(1).len() || !is_digit_char(s.skip(1)[k - 1]));
        lemma_digit_run_len_is(s.skip(1), k - 1);
    }
}

/// The digit run fits in `s`, consists of digits, and is maximal.
pub proof fn lemma_digit_run_len_props(s: Seq<char>)
    ensures
        digit_run_len(s) <= s.len(),
        forall|j: int| 0 <= j < digit_run_len(s) ==> is_digit_char(#[trigger] s[j]),
        digit_run_len(s) < s.len() ==> !is_digit_char(s[digit_run_len(s) as int]),
    decreases s.len(),
{
    if s.len() == 0 || !is_digit_char(s[0]) {
    } else {
        lemma_digit_run_len_props(s.skip(1));
        assert forall|j: int| 0 <= j < digit_run_len(s) implies is_digit_char(#[trigger] s[j]) by {
            if j > 0 {
                assert(is_digit_char(s.skip(1)[j - 1]));
            }
        }
    }
}

/// Reports whether `c` is a decimal digit.
pub fn is_digit(c: char) -> (b: bool)
    ensures
        b == is_digit_char(c),
{
    '0' <= c && c <= '9'
}

/// Reads the maximal digit run of `s` that starts at position `pos` (measured
/// in characters) and returns its saturated value together with the position
/// of the first unconsumed character.  If no digit stands at `pos`, the
/// result is `(0, pos)`.
pub fn get_prefix_numbers(s: &str, pos: usize) -> (r: (i32, usize))
    requires
        pos <= s@.len(),
    ensures
        r.1 == pos + digit_run_len(s@.skip(pos as int)),
        pos <= r.1 <= s@.len(),
        r.0 == clamped_value(s@.subrange(pos as int, r.1 as int)),
        0 <= r.0 <= i32::MAX,
{
    let n = s.unicode_len();
    let mut i = pos;
    let mut val: i32 = 0;
    while i < n && is_digit(s.get_char(i))
        invariant
            pos <= i <= n,
            n == s@.len(),
            forall|j: int| pos <= j < i ==> is_digit_char(#[trigger] s@[j]),
            val == clamped_value(s@.subrange(pos as int, i as int)),
            0 <= val <= i32::MAX,
        decreases n - i,
    {
        let c = s.get_char(i);
        let d: u32 = c as u32 - '0' as u32;
        let wide: i64 = (val as i64) * 10 + (d as i64);
        proof {
            assert(s@.subrange(pos as int, i + 1) =~= s@.subrange(pos as int, i as int).push(
                s@[i as int],
            ));
            lemma_clamped_step(s@.subrange(pos as int, i as int), c);
        }
        if wide > i32::MAX as i64 {
            val = i32::MAX;
        } else {
            val = wide as i32;
        }
        i = i + 1;
    }
    proof {
        assert(forall|j: int|
            0 <= j < i - pos ==> is_digit_char(#[trigger] s@.skip(pos as int)[j]));
        assert(i - pos == s@.skip(pos as int).len() || !is_digit_char(
            s@.skip(pos as int)[i - pos],
        ));
        lemma_digit_run_len_is(s@.skip(pos as int), i - pos);
    }
    (val, i)
}

} // verus!
