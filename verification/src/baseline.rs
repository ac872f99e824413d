//! The baseline formatter: the standard library's own rendering of a `u64`,
//! which the converter is measured against and must agree with byte for byte.

use std::io::Write;
use vstd::prelude::*;
use crate::decimal::{decimal, lemma_numeral_is_decimal, numeral_of};
use crate::sink::{left_padded, Sink};

verus! {

/// Calls `write!` with std's `Display` for `u64` and a minimum width, on a
/// byte vector.
///
/// Trusted, not proved: std appends the canonical decimal numeral of `v`,
/// and where that numeral has fewer than `width` characters it first appends
/// spaces to make up the difference, since integers are right-aligned and
/// space-filled by default. Writing to a vector does not fail.
#[verifier::external_body]
fn write_std(out: &mut Vec<u8>, v: u64, width: u16)
    ensures
        final(out)@ == old(out)@ + left_padded(numeral_of(v as nat), width as nat),
{
    let width = width as usize;
    write!(out, "{:width$}", v).unwrap();
}

/// Writes `v` to `f` as the standard formatter renders it at the width of
/// `f`.
pub fn baseline_fmt(v: u64, f: &mut Sink)
    ensures
        final(f).bytes@ == old(f).bytes@ + left_padded(decimal(v as nat), old(f).width as nat),
        final(f).width == old(f).width,
{
    proof {
        lemma_numeral_is_decimal(v as nat);
    }
    write_std(&mut f.bytes, v, f.width);
}

/// The converter and the baseline agree on every value at every width: what
/// the converter writes, the padded text of `decimal`, is what the standard
/// formatter writes, the padded canonical numeral.
pub proof fn lemma_converter_agrees_with_baseline(v: u64, width: u16)
    ensures
        left_padded(decimal(v as nat), width as nat) == left_padded(
            numeral_of(v as nat),
            width as nat,
        ),
{
    lemma_numeral_is_decimal(v as nat);
}

/// Whether two byte runs are identical.
pub fn same_bytes(a: &[u8], b: &[u8]) -> (same: bool)
    ensures
        same == (a@ == b@),
{
    if a.len() != b.len() {
        return false;
    }
    let n = a.len();
    let mut i: usize = 0;
    while i < n
        invariant
            i <= n,
            n == a@.len(),
            n == b@.len(),
            forall|j: int| 0 <= j < i ==> a@[j] == b@[j],
        decreases n - i,
    {
        if a[i] != b[i] {
            return false;
        }
        i += 1;
    }
    assert(a@ =~= b@);
    true
}

} // verus!
