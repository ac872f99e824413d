//! The mathematical model of decimal text: what the canonical digit run of a
//! natural number is, and the facts about it that the rest of the crate uses.

use vstd::prelude::*;

verus! {

/// The ASCII code of `'0'`.
pub const ASCII_ZERO: u8 = 48;

/// The most digits a 64-bit unsigned value can have.
pub const MAX_DIGITS: usize = 20;

/// Ten to the power `e`.
pub open spec fn pow10(e: nat) -> nat
    decreases e,
{
    if e == 0 {
        1
    } else {
        10 * pow10((e - 1) as nat)
    }
}

/// The ASCII byte of the digit `d`, for `d` below ten.
pub open spec fn digit_byte(d: nat) -> u8 {
    (ASCII_ZERO + d) as u8
}

/// Whether `b` is one of the bytes `'0'` to `'9'`.
pub open spec fn is_digit(b: u8) -> bool {
    ASCII_ZERO <= b <= ASCII_ZERO + 9
}

/// The decimal text of `n`: most significant digit first, no leading zero,
/// and the single byte `'0'` for zero.
pub open spec fn decimal(n: nat) -> Seq<u8>
    decreases n,
{
    if n < 10 {
        seq![digit_byte(n)]
    } else {
        decimal(n / 10).push(digit_byte(n % 10))
    }
}

/// The number that a run of digit bytes denotes, read most significant first.
pub open spec fn value_of(s: Seq<u8>) -> nat
    decreases s.len(),
{
    if s.len() == 0 {
        0
    } else {
        (10 * value_of(s.drop_last()) + (s.last() - ASCII_ZERO)) as nat
    }
}

/// Whether `s` is a canonical decimal numeral: at least one byte, digits
/// only, and no leading `'0'` unless the numeral is `"0"` itself.
pub open spec fn is_canonical(s: Seq<u8>) -> bool {
    &&& s.len() >= 1
    &&& forall|i: int| 0 <= i < s.len() ==> is_digit(#[trigger] s[i])
    &&& (s.len() > 1 ==> s[0] != ASCII_ZERO)
}

/// The canonical decimal numeral that denotes `n`, said without saying how
/// its digits are found.
pub open spec fn numeral_of(n: nat) -> Seq<u8> {
    choose|s: Seq<u8>| is_canonical(s) && value_of(s) == n
}

/// `decimal(n)` is a canonical numeral and denotes `n`.
pub proof fn lemma_decimal_denotes(n: nat)
    ensures
        is_canonical(decimal(n)),
        value_of(decimal(n)) == n,
    decreases n,
{
    if n < 10 {
        assert(decimal(n).drop_last() =~= Seq::<u8>::empty());
        assert(value_of(decimal(n).drop_last()) == 0);
    } else {
        lemma_decimal_denotes(n / 10);
        let head = decimal(n / 10);
        assert(decimal(n).drop_last() =~= head);
        assert(decimal(n)[0] == head[0]);
        if head.len() == 1 {
            assert(head.drop_last() =~= Seq::<u8>::empty());
            assert(value_of(head.drop_last()) == 0);
        }
    }
}

/// A numeral of digits that does not start with `'0'` denotes a number that
/// is at least one.
pub proof fn lemma_leading_digit(s: Seq<u8>)
    requires
        s.len() >= 1,
        forall|i: int| 0 <= i < s.len() ==> is_digit(#[trigger] s[i]),
        s[0] != ASCII_ZERO,
    ensures
        value_of(s) >= 1,
    decreases s.len(),
{
    let init = s.drop_last();
    assert(is_digit(s[s.len() - 1]));
    if s.len() == 1 {
        assert(init =~= Seq::<u8>::empty());
        assert(value_of(init) == 0);
    } else {
        assert forall|i: int| 0 <= i < init.len() implies is_digit(#[trigger] init[i]) by {
            assert(init[i] == s[i]);
        }
        assert(init[0] == s[0]);
        lemma_leading_digit(init);
    }
}

/// A canonical numeral is the decimal text of the number it denotes, so
/// `decimal` is the only function from numbers to canonical numerals that
/// `value_of` inverts.
pub proof fn lemma_canonical_is_decimal(s: Seq<u8>)
    requires
        is_canonical(s),
    ensures
        s == decimal(value_of(s)),
    decreases s.len(),
{
    let init = s.drop_last();
    let d = (s.last() - ASCII_ZERO) as nat;
    assert(is_digit(s[s.len() - 1]));
    if s.len() == 1 {
        assert(init =~= Seq::<u8>::empty());
        assert(value_of(init) == 0);
        assert(s =~= seq![digit_byte(d)]);
    } else {
        assert(is_canonical(init)) by {
            assert forall|i: int| 0 <= i < init.len() implies is_digit(#[trigger] init[i]) by {
                assert(init[i] == s[i]);
            }
            assert(init[0] == s[0]);
        }
        lemma_canonical_is_decimal(init);
        lemma_leading_digit(init);
        let m = value_of(init);
        assert(value_of(s) == 10 * m + d);
        assert(s =~= init.push(digit_byte(d)));
    }
}

/// Every number has exactly one canonical numeral, and `decimal` computes
/// it: digit extraction by repeated division yields the very text that any
/// formatter of canonical decimal numerals must yield.
pub proof fn lemma_numeral_is_decimal(n: nat)
    ensures
        numeral_of(n) == decimal(n),
        is_canonical(numeral_of(n)),
        value_of(numeral_of(n)) == n,
{
    lemma_decimal_denotes(n);
    lemma_canonical_is_decimal(numeral_of(n));
}

/// The decimal text of a number other than zero does not start with `'0'`.
pub proof fn lemma_no_leading_zero(n: nat)
    requires
        n != 0,
    ensures
        decimal(n)[0] != ASCII_ZERO,
{
    lemma_decimal_denotes(n);
    if n >= 10 {
        assert(decimal(n).len() == decimal(n / 10).len() + 1);
    }
}

/// `pow10` does not decrease as the exponent grows.
pub proof fn lemma_pow10_grows(a: nat, b: nat)
    requires
        a <= b,
    ensures
        1 <= pow10(a) <= pow10(b),
    decreases b,
{
    if b == 0 {
    } else if a == b {
        lemma_pow10_grows((a - 1) as nat, (b - 1) as nat);
    } else {
        lemma_pow10_grows(a, (b - 1) as nat);
    }
}

/// The decimal text of `n` has at most `k` bytes exactly when `n` is below
/// ten to the `k`.
pub proof fn lemma_decimal_len(n: nat, k: nat)
    requires
        k >= 1,
    ensures
        decimal(n).len() <= k <==> n < pow10(k),
    decreases k,
{
    assert(pow10(1) == 10) by {
        reveal_with_fuel(pow10, 2);
    }
    if n < 10 {
        lemma_pow10_grows(1, k);
        assert(decimal(n).len() == 1);
    } else {
        lemma_decimal_denotes(n / 10);
        assert(decimal(n).len() == decimal(n / 10).len() + 1);
        if k > 1 {
            lemma_decimal_len(n / 10, (k - 1) as nat);
            assert(pow10(k) == 10 * pow10((k - 1) as nat));
        }
    }
}

/// Every 64-bit unsigned value has at most `MAX_DIGITS` digits.
pub proof fn lemma_decimal_fits(v: u64)
    ensures
        1 <= decimal(v as nat).len() <= MAX_DIGITS,
{
    lemma_decimal_denotes(v as nat);
    lemma_decimal_len(v as nat, 20);
    assert(pow10(20) == 100_000_000_000_000_000_000nat) by {
        reveal_with_fuel(pow10, 21);
    }
}

} // verus!
