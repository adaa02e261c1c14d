//! A fixed 255-byte text buffer with a write position that saturates at the
//! last cell, for collecting formatted output on a device without a heap.

use vstd::prelude::*;

use vstd::string::StringSliceAdditionalSpecFns;

verus! {

/// A fixed-size byte buffer and the position of the next write.
pub struct Buffer {
    data: [u8; 255],
    pos: usize,
}

impl Buffer {
    /// The buffer's 255 bytes.
    pub closed spec fn data_model(&self) -> Seq<u8> {
        self.data@
    }

    /// The position of the next write, at most 254.
    pub closed spec fn pos_model(&self) -> int {
        self.pos as int
    }

    /// The write position never leaves the buffer's last cell.
    pub closed spec fn wf(&self) -> bool {
        self.pos <= 254
    }

    /// The buffer's bytes, as the fixed array.
    pub fn as_bytes(&self) -> (r: [u8; 255])
        ensures
            r@ == self.data_model(),
    {
        self.data
    }

    /// How many bytes have been written, at most 254.
    pub fn size(&self) -> (r: usize)
        ensures
            r == self.pos_model(),
    {
        self.pos
    }

    /// An empty buffer: all zero bytes, write position at the start.
    pub fn new() -> (r: Buffer)
        ensures
            r.wf(),
            r.pos_model() == 0,
            forall|i: int| 0 <= i < 255 ==> r.data_model()[i] == 0u8,
    {
        Buffer { data: [0u8; 255], pos: 0 }
    }

    /// Append the bytes of `s`.  Bytes are written at the current position,
    /// which advances only while it is below the last cell: a string that
    /// does not fit has its tail overwritten into the last cell, whose
    /// final value is the string's last byte.
    pub fn write_str(&mut self, s: &str)
        requires
            old(self).wf(),
        ensures
            final(self).wf(),
            final(self).pos_model() == min254(old(self).pos_model() + s.spec_bytes().len()),
            final(self).data_model() == written(
                old(self).data_model(),
                old(self).pos_model(),
                s.spec_bytes(),
            ),
    {
        let bytes = s.as_bytes();
        let ghost p = self.pos as int;
        let ghost orig = self.data@;
        let mut x: usize = 0;
        while x < bytes.len()
            invariant
                self.pos <= 254,
                x <= bytes@.len(),
                self.pos as int == min254(p + x as int),
                p <= 254,
                self.data@ == written(orig, p, bytes@.take(x as int)),
            decreases bytes@.len() - x,
        {
            self.data[self.pos] = bytes[x];
            if self.pos < 254 {
                self.pos = self.pos + 1;
            }
            x = x + 1;
            proof {
                assert(bytes@.take(x as int).drop_last() =~= bytes@.take(x - 1));
                assert(self.data@ =~= written(orig, p, bytes@.take(x as int)));
            }
        }
        proof {
            assert(bytes@.take(bytes@.len() as int) =~= bytes@);
        }
    }
}

/// `v`, capped at 254.
pub open spec fn min254(v: int) -> int {
    if v < 254 {
        v
    } else {
        254
    }
}

/// The 255 buffer bytes after writing `s` into `data` from position `p`,
/// the position saturating at the last cell.
pub open spec fn written(data: Seq<u8>, p: int, s: Seq<u8>) -> Seq<u8>
    decreases s.len(),
{
    if s.len() == 0 {
        data
    } else {
        written(data, p, s.drop_last()).update(min254(p + s.len() - 1), s.last())
    }
}

} // verus!
