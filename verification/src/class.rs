//! Digit-length classes: for each digit count from one to twenty, the range
//! of 64-bit values whose decimal text has exactly that many digits.

use vstd::prelude::*;
use crate::decimal::{
    decimal, lemma_decimal_denotes, lemma_decimal_len, lemma_pow10_grows, pow10, MAX_DIGITS,
};

verus! {

/// Whether `d` names a digit-length class.
pub open spec fn is_class(d: nat) -> bool {
    1 <= d <= MAX_DIGITS
}

/// The least value with `d` digits.
pub open spec fn class_low(d: nat) -> nat {
    pow10((d - 1) as nat)
}

/// The greatest 64-bit value with `d` digits. The twentieth class ends at
/// the greatest 64-bit value, which lies below ten to the twentieth.
pub open spec fn class_high(d: nat) -> nat {
    if d < MAX_DIGITS {
        (pow10(d) - 1) as nat
    } else {
        u64::MAX as nat
    }
}

/// Ten to the nineteenth, the greatest power of ten that fits in 64 bits.
pub proof fn lemma_pow10_nineteen()
    ensures
        pow10(19) == 10_000_000_000_000_000_000nat,
        pow10(19) <= u64::MAX < pow10(20),
{
    reveal_with_fuel(pow10, 21);
}

/// Ten to the power `e`, for an exponent whose power fits in 64 bits.
pub fn pow10_u64(e: u32) -> (p: u64)
    requires
        e < MAX_DIGITS,
    ensures
        p == pow10(e as nat),
{
    let mut p: u64 = 1;
    let mut i: u32 = 0;
    while i < e
        invariant
            i <= e,
            e < MAX_DIGITS,
            p == pow10(i as nat),
        decreases e - i,
    {
        proof {
            lemma_pow10_grows((i + 1) as nat, 19);
            lemma_pow10_nineteen();
        }
        p = p * 10;
        i += 1;
    }
    p
}

/// The bounds of the class of `digits`, both inclusive.
pub fn class_range(digits: u32) -> (range: (u64, u64))
    requires
        is_class(digits as nat),
    ensures
        range.0 == class_low(digits as nat),
        range.1 == class_high(digits as nat),
        range.0 <= range.1,
{
    let low = pow10_u64(digits - 1);
    proof {
        lemma_pow10_grows((digits - 1) as nat, 19);
        lemma_pow10_nineteen();
    }
    let high = if (digits as usize) < MAX_DIGITS {
        proof {
            lemma_pow10_grows(digits as nat, 19);
        }
        pow10_u64(digits) - 1
    } else {
        u64::MAX
    };
    (low, high)
}

/// A 64-bit value lies in the class of `d` exactly when it is not zero and
/// its decimal text has `d` bytes: no value of one class renders with the
/// length of another. Zero has one digit and belongs to no class.
pub proof fn lemma_class_is_digit_count(d: nat, v: u64)
    requires
        is_class(d),
    ensures
        class_low(d) <= v <= class_high(d) <==> v != 0 && decimal(v as nat).len() == d,
{
    let n = v as nat;
    lemma_pow10_nineteen();
    lemma_pow10_grows(0, (d - 1) as nat);
    lemma_decimal_denotes(n);
    lemma_decimal_len(n, d);
    if d > 1 {
        lemma_decimal_len(n, (d - 1) as nat);
    }
}

} // verus!
