//! The converter: an unsigned 64-bit integer rendered as decimal text through
//! a fixed buffer that is filled from its end backward.

use std::string::FromUtf8Error;
use vstd::prelude::*;
use vstd::slice::{slice_subrange, slice_to_vec};
use vstd::utf8::{
    encode_utf8, encode_utf8_decode_utf8, encode_utf8_valid_utf8, is_ascii_chars,
    is_ascii_chars_encode_utf8, valid_utf8,
};
use crate::decimal::{
    decimal, digit_byte, is_digit, lemma_decimal_denotes, lemma_decimal_fits, ASCII_ZERO,
    MAX_DIGITS,
};
use crate::sink::{left_padded, Sink};

verus! {

/// The error of `String::from_utf8`, opaque to the verifier.
#[verifier::external_type_specification]
#[verifier::external_body]
pub struct ExFromUtf8Error(FromUtf8Error);

/// Calls `String::from_utf8`.
///
/// Trusted, not proved: the call succeeds exactly when the bytes are valid
/// UTF-8, and the string that it then returns is made of those bytes.
#[verifier::external_body]
fn string_from_utf8(bytes: Vec<u8>) -> (text: Result<String, FromUtf8Error>)
    ensures
        text is Ok <==> valid_utf8(bytes@),
        text matches Ok(s) ==> encode_utf8(s@) == bytes@,
{
    String::from_utf8(bytes)
}

/// The decimal text of `n` as characters.
pub open spec fn decimal_chars(n: nat) -> Seq<char> {
    Seq::new(decimal(n).len(), |i: int| decimal(n)[i] as char)
}

/// An unsigned 64-bit integer that renders itself as decimal text.
#[derive(Debug, Clone, Copy)]
pub struct SimpleDisplay(pub u64);

/// The digit run of one value: a buffer of `MAX_DIGITS` bytes of which the
/// bytes from `start` to the end are the text. The run is never empty.
pub struct DigitRun {
    buf: [u8; MAX_DIGITS],
    start: usize,
}

impl DigitRun {
    /// The text held: the bytes of the buffer from `start` on.
    pub closed spec fn view(&self) -> Seq<u8> {
        self.buf@.subrange(self.start as int, MAX_DIGITS as int)
    }

    #[verifier::type_invariant]
    spec fn starts_inside(&self) -> bool {
        self.start < MAX_DIGITS
    }

    /// The run as a slice of the buffer.
    pub fn as_bytes(&self) -> (run: &[u8])
        ensures
            run@ == self@,
            1 <= run@.len() <= MAX_DIGITS,
    {
        proof {
            use_type_invariant(self);
        }
        slice_subrange(self.buf.as_slice(), self.start, MAX_DIGITS)
    }
}

impl SimpleDisplay {
    /// Computes the digits of the value, least significant first, storing
    /// each in front of the one before it; no memory is allocated.
    pub fn digits(&self) -> (run: DigitRun)
        ensures
            run@ == decimal(self.0 as nat),
    {
        let mut n: u64 = self.0;
        let mut buf: [u8; MAX_DIGITS] = [ASCII_ZERO; MAX_DIGITS];
        let mut cur: usize = MAX_DIGITS;
        proof {
            lemma_decimal_fits(self.0);
            assert(buf@.subrange(cur as int, MAX_DIGITS as int) =~= Seq::<u8>::empty());
        }
        loop
            invariant_except_break
                cur <= MAX_DIGITS,
                decimal(n as nat).len() <= cur,
                decimal(self.0 as nat) == decimal(n as nat) + buf@.subrange(
                    cur as int,
                    MAX_DIGITS as int,
                ),
            ensures
                cur < MAX_DIGITS,
                decimal(self.0 as nat) == buf@.subrange(cur as int, MAX_DIGITS as int),
            decreases n,
        {
            let ghost rest = buf@.subrange(cur as int, MAX_DIGITS as int);
            let ghost pending = n as nat;
            cur -= 1;
            let m: u64 = n % 10;
            n = n / 10;
            buf[cur] = (m as u8) + ASCII_ZERO;
            proof {
                let now = buf@.subrange(cur as int, MAX_DIGITS as int);
                assert(now =~= seq![digit_byte(m as nat)] + rest);
                if pending < 10 {
                    assert(decimal(pending) + rest =~= now);
                } else {
                    assert(decimal(pending) + rest =~= decimal(n as nat) + now);
                }
            }
            if n == 0 {
                break ;
            }
        }
        DigitRun { buf, start: cur }
    }

    /// The decimal text of the value as a string.
    pub fn to_text(&self) -> (text: String)
        ensures
            text@ == decimal_chars(self.0 as nat),
    {
        let run = self.digits();
        let bytes = slice_to_vec(run.as_bytes());
        proof {
            let chars = decimal_chars(self.0 as nat);
            lemma_decimal_denotes(self.0 as nat);
            assert(is_ascii_chars(chars)) by {
                assert forall|i: int| 0 <= i < chars.len() implies '\0' <= #[trigger] chars[i]
                    <= '\u{7f}' by {
                    assert(is_digit(decimal(self.0 as nat)[i]));
                }
            }
            is_ascii_chars_encode_utf8(chars);
            assert(encode_utf8(chars) =~= bytes@) by {
                assert forall|i: int| 0 <= i < chars.len() implies encode_utf8(chars)[i]
                    == bytes@[i] by {
                    assert(is_digit(decimal(self.0 as nat)[i]));
                    assert(chars[i] as u8 == encode_utf8(chars)[i]);
                }
            }
            encode_utf8_valid_utf8(chars);
            encode_utf8_decode_utf8(chars);
        }
        let text = string_from_utf8(bytes).unwrap();
        proof {
            encode_utf8_decode_utf8(text@);
        }
        text
    }

    /// Writes the decimal text of the value to `f`, which pads it on the
    /// left to its width.
    pub fn fmt(&self, f: &mut Sink)
        ensures
            final(f).bytes@ == old(f).bytes@ + left_padded(
                decimal(self.0 as nat),
                old(f).width as nat,
            ),
            final(f).width == old(f).width,
    {
        let run = self.digits();
        f.pad_integral(run.as_bytes());
    }
}

} // verus!
