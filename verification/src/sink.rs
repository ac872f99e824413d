//! The destination that formatted integers are written to: a growing byte
//! buffer together with the minimum width requested for each integer.

use vstd::prelude::*;

verus! {

/// The byte that fills the room in front of a run shorter than the width.
pub const FILL: u8 = 32;

/// `run` brought to at least `width` bytes by putting `FILL` bytes in front
/// of it; a run that is already long enough is left as it is.
pub open spec fn left_padded(run: Seq<u8>, width: nat) -> Seq<u8> {
    if run.len() >= width {
        run
    } else {
        Seq::new((width - run.len()) as nat, |i: int| FILL) + run
    }
}

/// A byte sink with a minimum field width.
///
/// `bytes` is everything emitted so far. `width` is the least number of bytes
/// that each integer written through `pad_integral` takes up; zero asks for
/// no padding. A width has sixteen bits, as in the standard formatter.
pub struct Sink {
    pub bytes: Vec<u8>,
    pub width: u16,
}

impl Sink {
    /// An empty sink that pads nothing.
    pub fn new() -> (sink: Sink)
        ensures
            sink.bytes@ == Seq::<u8>::empty(),
            sink.width == 0,
    {
        Sink { bytes: Vec::new(), width: 0 }
    }

    /// An empty sink that pads nothing, with room set aside for `capacity`
    /// bytes. No allocation can be larger than `isize::MAX` bytes.
    pub fn with_capacity(capacity: usize) -> (sink: Sink)
        requires
            capacity <= isize::MAX,
        ensures
            sink.bytes@ == Seq::<u8>::empty(),
            sink.width == 0,
    {
        Sink { bytes: Vec::with_capacity(capacity), width: 0 }
    }

    /// An empty sink in which every integer takes up at least `width` bytes.
    pub fn with_width(width: u16) -> (sink: Sink)
        ensures
            sink.bytes@ == Seq::<u8>::empty(),
            sink.width == width,
    {
        Sink { bytes: Vec::new(), width }
    }

    /// Emits one byte as it is, whatever the width.
    pub fn write_byte(&mut self, b: u8)
        ensures
            final(self).bytes@ == old(self).bytes@.push(b),
            final(self).width == old(self).width,
    {
        self.bytes.push(b);
    }

    /// Emits the digit run of a non-negative integer, padded on the left to
    /// the sink's width.
    pub fn pad_integral(&mut self, digits: &[u8])
        ensures
            final(self).bytes@ == old(self).bytes@ + left_padded(digits@, old(self).width as nat),
            final(self).width == old(self).width,
    {
        let ghost before = self.bytes@;
        let n = digits.len();
        let width = self.width as usize;
        let mut room: usize = if n < width {
            width - n
        } else {
            0
        };
        let ghost lead = room as nat;
        while room > 0
            invariant
                room <= lead,
                self.width == old(self).width,
                self.bytes@ == before + Seq::new((lead - room) as nat, |i: int| FILL),
            decreases room,
        {
            self.bytes.push(FILL);
            room -= 1;
        }
        let ghost padded = self.bytes@;
        let mut i: usize = 0;
        while i < n
            invariant
                i <= n,
                n == digits@.len(),
                self.width == old(self).width,
                self.bytes@ == padded + digits@.subrange(0, i as int),
            decreases n - i,
        {
            self.bytes.push(digits[i]);
            i += 1;
        }
        assert(digits@.subrange(0, n as int) =~= digits@);
        assert(self.bytes@ =~= before + left_padded(digits@, old(self).width as nat));
    }
}

} // verus!
