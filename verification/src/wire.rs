//! Byte-stream cursor and the little-endian scalar forms it reads.
//!
//! Every multi-byte integer on the wire is little-endian; signed integers are
//! two's complement. The spec functions here give the mathematical value of
//! each scalar form, and the `Reader` methods are proved against them.

use vstd::prelude::*;

verus! {

/// The signed value whose two's-complement byte is `b`.
pub open spec fn spec_i8_of(b: u8) -> i8 {
    if b < 128 {
        b as i8
    } else {
        (b - 256) as i8
    }
}

/// The unsigned value of two little-endian bytes.
pub open spec fn spec_le16(b0: u8, b1: u8) -> int {
    b0 + 256 * b1
}

/// The signed value whose two's-complement little-endian bytes are `b0, b1`.
pub open spec fn spec_i16_of(b0: u8, b1: u8) -> i16 {
    if spec_le16(b0, b1) < 32768 {
        spec_le16(b0, b1) as i16
    } else {
        (spec_le16(b0, b1) - 65536) as i16
    }
}

/// The unsigned value of four little-endian bytes.
pub open spec fn spec_le32(b0: u8, b1: u8, b2: u8, b3: u8) -> int {
    b0 + 256 * b1 + 65536 * b2 + 16777216 * b3
}

/// The signed value whose two's-complement little-endian bytes are
/// `b0, b1, b2, b3`.
pub open spec fn spec_i32_of(b0: u8, b1: u8, b2: u8, b3: u8) -> i32 {
    if spec_le32(b0, b1, b2, b3) < 2147483648 {
        spec_le32(b0, b1, b2, b3) as i32
    } else {
        (spec_le32(b0, b1, b2, b3) - 4294967296) as i32
    }
}

/// A cursor over an owned byte stream. The position only moves forward, and
/// never past the end of the bytes.
pub struct Reader {
    pub bytes: Vec<u8>,
    pub pos: usize,
}

impl Reader {
    /// The cursor stands on or before the end of the stream.
    pub open spec fn wf(self) -> bool {
        self.pos <= self.bytes@.len()
    }

    pub fn new(bytes: Vec<u8>) -> (r: Reader)
        ensures
            r.wf(),
            r.bytes@ == bytes@,
            r.pos == 0,
    {
        Reader { bytes, pos: 0 }
    }

    /// Read one raw byte and advance; `None` (with the cursor unmoved) at the
    /// end of the stream.
    pub fn read_u8(&mut self) -> (r: Option<u8>)
        requires
            old(self).wf(),
        ensures
            final(self).wf(),
            final(self).bytes@ == old(self).bytes@,
            if old(self).pos < old(self).bytes@.len() {
                r == Some(old(self).bytes@[old(self).pos as int]) && final(self).pos == old(
                    self,
                ).pos + 1
            } else {
                r is None && final(self).pos == old(self).pos
            },
    {
        if self.pos < self.bytes.len() {
            let b = self.bytes[self.pos];
            self.pos = self.pos + 1;
            Some(b)
        } else {
            None
        }
    }

    /// Read one signed tag byte and advance; `None` (with the cursor unmoved)
    /// at the end of the stream.
    pub fn read_i8(&mut self) -> (r: Option<i8>)
        requires
            old(self).wf(),
        ensures
            final(self).wf(),
            final(self).bytes@ == old(self).bytes@,
            if old(self).pos < old(self).bytes@.len() {
                r == Some(spec_i8_of(old(self).bytes@[old(self).pos as int])) && final(self).pos
                    == old(self).pos + 1
            } else {
                r is None && final(self).pos == old(self).pos
            },
    {
        match self.read_u8() {
            None => None,
            Some(b) => Some(
                if b < 128 {
                    b as i8
                } else {
                    ((b - 128) as i8) + i8::MIN
                },
            ),
        }
    }

    /// Read a little-endian signed 16-bit integer and advance; `None` (with
    /// the cursor unmoved) if fewer than two bytes remain.
    pub fn read_i16(&mut self) -> (r: Option<i16>)
        requires
            old(self).wf(),
        ensures
            final(self).wf(),
            final(self).bytes@ == old(self).bytes@,
            if old(self).pos + 2 <= old(self).bytes@.len() {
                r == Some(
                    spec_i16_of(
                        old(self).bytes@[old(self).pos as int],
                        old(self).bytes@[old(self).pos + 1],
                    ),
                ) && final(self).pos == old(self).pos + 2
            } else {
                r is None && final(self).pos == old(self).pos
            },
    {
        if self.bytes.len() - self.pos >= 2 {
            let b0 = self.bytes[self.pos];
            let b1 = self.bytes[self.pos + 1];
            self.pos = self.pos + 2;
            let n: u16 = (b0 as u16) + (b1 as u16) * 256;
            if n < 32768 {
                Some(n as i16)
            } else {
                Some(((n - 32768) as i16) + i16::MIN)
            }
        } else {
            None
        }
    }

    /// Read a little-endian signed 32-bit integer and advance; `None` (with
    /// the cursor unmoved) if fewer than four bytes remain.
    pub fn read_i32(&mut self) -> (r: Option<i32>)
        requires
            old(self).wf(),
        ensures
            final(self).wf(),
            final(self).bytes@ == old(self).bytes@,
            if old(self).pos + 4 <= old(self).bytes@.len() {
                r == Some(
                    spec_i32_of(
                        old(self).bytes@[old(self).pos as int],
                        old(self).bytes@[old(self).pos + 1],
                        old(self).bytes@[old(self).pos + 2],
                        old(self).bytes@[old(self).pos + 3],
                    ),
                ) && final(self).pos == old(self).pos + 4
            } else {
                r is None && final(self).pos == old(self).pos
            },
    {
        if self.bytes.len() - self.pos >= 4 {
            let b0 = self.bytes[self.pos];
            let b1 = self.bytes[self.pos + 1];
            let b2 = self.bytes[self.pos + 2];
            let b3 = self.bytes[self.pos + 3];
            self.pos = self.pos + 4;
            let n: u32 = (b0 as u32) + (b1 as u32) * 256 + (b2 as u32) * 65536 + (b3 as u32)
                * 16777216;
            if n < 2147483648 {
                Some(n as i32)
            } else {
                Some(((n - 2147483648) as i32) + i32::MIN)
            }
        } else {
            None
        }
    }
}

} // verus!
