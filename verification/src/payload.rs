use vstd::prelude::*;
use crate::persist::{spec_read_u16, spec_u16_be};

verus! {

/// Big-endian bytes of a 24-bit length.
pub open spec fn spec_u24_be(v: u32) -> Seq<u8> {
    seq![(v >> 16) as u8, (v >> 8) as u8, v as u8]
}

/// The value of three big-endian bytes.
pub open spec fn spec_read_u24(bytes: Seq<u8>, p: int) -> u32 {
    ((bytes[p] as u32) << 16) | ((bytes[p + 1] as u32) << 8) | (bytes[p + 2] as u32)
}

/// Whether a full one-byte-length payload lies at the cursor.
pub open spec fn spec_u8_payload_at(bytes: Seq<u8>, cursor: int) -> bool {
    cursor + 1 <= bytes.len() && cursor + 1 + bytes[cursor] <= bytes.len()
}

/// Whether a full two-byte-length payload lies at the cursor.
pub open spec fn spec_u16_payload_at(bytes: Seq<u8>, cursor: int) -> bool {
    cursor + 2 <= bytes.len() && cursor + 2 + spec_read_u16(bytes, cursor) <= bytes.len()
}

/// Whether a full three-byte-length payload lies at the cursor.
pub open spec fn spec_u24_payload_at(bytes: Seq<u8>, cursor: int) -> bool {
    cursor + 3 <= bytes.len() && cursor + 3 + spec_read_u24(bytes, cursor) <= bytes.len()
}

/// A cursor over bytes, handing out prefixes as they are read.
#[derive(Debug)]
pub struct Reader {
    /// The underlying bytes.
    pub bytes: Vec<u8>,
    /// How many bytes have been consumed.
    pub cursor: usize,
}

impl Reader {
    /// A reader at the start of the given bytes.
    pub fn init(bytes: Vec<u8>) -> (r: Reader)
        ensures
            r.bytes@ == bytes@,
            r.cursor == 0,
    {
        Reader { bytes, cursor: 0 }
    }

    /// How many bytes are left.
    pub fn left(&self) -> (r: usize)
        requires
            self.cursor <= self.bytes@.len(),
        ensures
            r == self.bytes@.len() - self.cursor,
    {
        self.bytes.len() - self.cursor
    }

    /// Whether any bytes are left.
    pub fn any_left(&self) -> (r: bool)
        requires
            self.cursor <= self.bytes@.len(),
        ensures
            r == (self.cursor < self.bytes@.len()),
    {
        self.cursor < self.bytes.len()
    }

    /// Everything that is left, consuming it.
    pub fn rest(&mut self) -> (r: Vec<u8>)
        requires
            old(self).cursor <= old(self).bytes@.len(),
        ensures
            r@ == old(self).bytes@.skip(old(self).cursor as int),
            final(self).bytes@ == old(self).bytes@,
            final(self).cursor == old(self).bytes@.len(),
    {
        let mut out: Vec<u8> = Vec::new();
        let n: usize = self.bytes.len();
        let mut i: usize = self.cursor;
        while i < n
            invariant
                self.cursor <= i <= n,
                n == self.bytes@.len(),
                out@ =~= self.bytes@.subrange(self.cursor as int, i as int),
            decreases n - i,
        {
            out.push(self.bytes[i]);
            i = i + 1;
        }
        self.cursor = n;
        proof {
            assert(out@ =~= old(self).bytes@.skip(old(self).cursor as int));
        }
        out
    }

    /// The next `n` bytes, consuming them; `None` if fewer are left.
    pub fn take(&mut self, n: usize) -> (r: Option<Vec<u8>>)
        requires
            old(self).cursor <= old(self).bytes@.len(),
        ensures
            final(self).bytes@ == old(self).bytes@,
            match r {
                Some(v) => {
                    &&& old(self).cursor + n <= old(self).bytes@.len()
                    &&& v@ == old(self).bytes@.subrange(
                        old(self).cursor as int,
                        old(self).cursor + n,
                    )
                    &&& final(self).cursor == old(self).cursor + n
                },
                None => {
                    &&& old(self).cursor + n > old(self).bytes@.len()
                    &&& final(self).cursor == old(self).cursor
                },
            },
    {
        let len: usize = self.bytes.len();
        if len - self.cursor < n {
            return None;
        }
        let mut out: Vec<u8> = Vec::new();
        let end: usize = self.cursor + n;
        let mut i: usize = self.cursor;
        while i < end
            invariant
                self.cursor <= i <= end,
                end == self.cursor + n,
                end <= self.bytes@.len(),
                out@ =~= self.bytes@.subrange(self.cursor as int, i as int),
            decreases end - i,
        {
            out.push(self.bytes[i]);
            i = i + 1;
        }
        self.cursor = end;
        Some(out)
    }

    /// The next byte, consumed.
    pub fn read_u8(&mut self) -> (r: Option<u8>)
        requires
            old(self).cursor <= old(self).bytes@.len(),
        ensures
            final(self).bytes@ == old(self).bytes@,
            match r {
                Some(b) => {
                    &&& old(self).cursor < old(self).bytes@.len()
                    &&& b == old(self).bytes@[old(self).cursor as int]
                    &&& final(self).cursor == old(self).cursor + 1
                },
                None => {
                    &&& old(self).cursor == old(self).bytes@.len()
                    &&& final(self).cursor == old(self).cursor
                },
            },
    {
        if self.cursor < self.bytes.len() {
            let b = self.bytes[self.cursor];
            self.cursor = self.cursor + 1;
            Some(b)
        } else {
            None
        }
    }

    /// The next two bytes as a big-endian value, consumed.
    pub fn read_u16(&mut self) -> (r: Option<u16>)
        requires
            old(self).cursor <= old(self).bytes@.len(),
        ensures
            final(self).bytes@ == old(self).bytes@,
            match r {
                Some(v) => {
                    &&& old(self).cursor + 2 <= old(self).bytes@.len()
                    &&& spec_u16_be(v) == old(self).bytes@.subrange(
                        old(self).cursor as int,
                        old(self).cursor + 2,
                    )
                    &&& v == spec_read_u16(old(self).bytes@, old(self).cursor as int)
                    &&& final(self).cursor == old(self).cursor + 2
                },
                None => {
                    &&& old(self).cursor + 2 > old(self).bytes@.len()
                    &&& final(self).cursor == old(self).cursor
                },
            },
    {
        let len: usize = self.bytes.len();
        if len - self.cursor < 2 {
            return None;
        }
        let b0 = self.bytes[self.cursor];
        let b1 = self.bytes[self.cursor + 1];
        let v: u16 = ((b0 as u16) << 8) | (b1 as u16);
        proof {
            assert(((((b0 as u16) << 8) | (b1 as u16)) >> 8) as u8 == b0) by (bit_vector);
            assert((((b0 as u16) << 8) | (b1 as u16)) as u8 == b1) by (bit_vector);
            assert(spec_u16_be(v) =~= self.bytes@.subrange(
                self.cursor as int,
                self.cursor + 2,
            ));
        }
        self.cursor = self.cursor + 2;
        Some(v)
    }

    /// The next three bytes as a big-endian value, consumed.
    pub fn read_u24(&mut self) -> (r: Option<u32>)
        requires
            old(self).cursor <= old(self).bytes@.len(),
        ensures
            final(self).bytes@ == old(self).bytes@,
            match r {
                Some(v) => {
                    &&& old(self).cursor + 3 <= old(self).bytes@.len()
                    &&& v < 0x100_0000
                    &&& spec_u24_be(v) == old(self).bytes@.subrange(
                        old(self).cursor as int,
                        old(self).cursor + 3,
                    )
                    &&& v == spec_read_u24(old(self).bytes@, old(self).cursor as int)
                    &&& final(self).cursor == old(self).cursor + 3
                },
                None => {
                    &&& old(self).cursor + 3 > old(self).bytes@.len()
                    &&& final(self).cursor == old(self).cursor
                },
            },
    {
        let len: usize = self.bytes.len();
        if len - self.cursor < 3 {
            return None;
        }
        let b0 = self.bytes[self.cursor];
        let b1 = self.bytes[self.cursor + 1];
        let b2 = self.bytes[self.cursor + 2];
        let v: u32 = ((b0 as u32) << 16) | ((b1 as u32) << 8) | (b2 as u32);
        proof {
            assert(((((b0 as u32) << 16) | ((b1 as u32) << 8) | (b2 as u32)) >> 16) as u8 == b0)
                by (bit_vector);
            assert(((((b0 as u32) << 16) | ((b1 as u32) << 8) | (b2 as u32)) >> 8) as u8 == b1)
                by (bit_vector);
            assert((((b0 as u32) << 16) | ((b1 as u32) << 8) | (b2 as u32)) as u8 == b2)
                by (bit_vector);
            assert((((b0 as u32) << 16) | ((b1 as u32) << 8) | (b2 as u32)) < 0x100_0000)
                by (bit_vector);
            assert(spec_u24_be(v) =~= self.bytes@.subrange(
                self.cursor as int,
                self.cursor + 3,
            ));
        }
        self.cursor = self.cursor + 3;
        Some(v)
    }
}

/// An externally length'd payload: bare bytes.
#[derive(Debug)]
pub struct Payload(pub Vec<u8>);

impl Payload {
    /// Wraps the bytes.
    pub fn new(bytes: Vec<u8>) -> (r: Payload)
        ensures
            r.0@ == bytes@,
    {
        Payload(bytes)
    }

    /// An empty payload.
    pub fn empty() -> (r: Payload)
        ensures
            r.0@.len() == 0,
    {
        Payload(Vec::new())
    }

    /// Everything the reader has left.
    pub fn read(r: &mut Reader) -> (p: Payload)
        requires
            old(r).cursor <= old(r).bytes@.len(),
        ensures
            p.0@ == old(r).bytes@.skip(old(r).cursor as int),
            final(r).bytes@ == old(r).bytes@,
            final(r).cursor == old(r).bytes@.len(),
    {
        Payload(r.rest())
    }

    /// Appends the bare bytes.
    pub fn encode(&self, bytes: &mut Vec<u8>)
        ensures
            final(bytes)@ == old(bytes)@ + self.0@,
    {
        bytes.extend_from_slice(self.0.as_slice());
        proof {
            assert(bytes@ =~= old(bytes)@ + self.0@);
        }
    }
}

/// An arbitrary payload with a one-byte length prefix.
#[derive(Debug)]
pub struct PayloadU8(pub Vec<u8>);

impl PayloadU8 {
    /// Wraps the bytes.
    pub fn new(bytes: Vec<u8>) -> (r: PayloadU8)
        ensures
            r.0@ == bytes@,
    {
        PayloadU8(bytes)
    }

    /// An empty payload.
    pub fn empty() -> (r: PayloadU8)
        ensures
            r.0@.len() == 0,
    {
        PayloadU8(Vec::new())
    }

    /// The bytes without their prefix.
    pub fn into_inner(self) -> (r: Vec<u8>)
        ensures
            r@ == self.0@,
    {
        self.0
    }

    /// Appends the length prefix and the bytes.
    pub fn encode(&self, bytes: &mut Vec<u8>)
        requires
            self.0@.len() <= u8::MAX,
        ensures
            final(bytes)@ == old(bytes)@ + seq![self.0@.len() as u8] + self.0@,
    {
        bytes.push(self.0.len() as u8);
        bytes.extend_from_slice(self.0.as_slice());
        proof {
            assert(bytes@ =~= old(bytes)@ + seq![self.0@.len() as u8] + self.0@);
        }
    }

    /// Reads a length prefix and that many bytes: succeeds exactly when
    /// a full one-byte-length payload lies at the cursor, and otherwise
    /// leaves the reader where it was.
    pub fn read(r: &mut Reader) -> (p: Option<PayloadU8>)
        requires
            old(r).cursor <= old(r).bytes@.len(),
        ensures
            final(r).bytes@ == old(r).bytes@,
            final(r).cursor <= final(r).bytes@.len(),
            match p {
                Some(v) => {
                    &&& spec_u8_payload_at(old(r).bytes@, old(r).cursor as int)
                    &&& v.0@.len() == old(r).bytes@[old(r).cursor as int]
                    &&& old(r).bytes@.subrange(old(r).cursor as int, final(r).cursor as int)
                        =~= seq![v.0@.len() as u8] + v.0@
                    &&& final(r).cursor == old(r).cursor + 1 + v.0@.len()
                },
                None => {
                    &&& !spec_u8_payload_at(old(r).bytes@, old(r).cursor as int)
                    &&& final(r).cursor == old(r).cursor
                },
            },
    {
        let start: usize = r.cursor;
        let len = match r.read_u8() {
            Some(l) => l,
            None => {
                return None;
            },
        };
        match r.take(len as usize) {
            Some(body) => {
                let p = PayloadU8(body);
                proof {
                    assert(old(r).bytes@.subrange(old(r).cursor as int, r.cursor as int)
                        =~= seq![p.0@.len() as u8] + p.0@);
                }
                Some(p)
            },
            None => {
                r.cursor = start;
                None
            },
        }
    }
}

/// An arbitrary payload with a two-byte length prefix.
#[derive(Debug)]
pub struct PayloadU16(pub Vec<u8>);

impl PayloadU16 {
    /// Wraps the bytes.
    pub fn new(bytes: Vec<u8>) -> (r: PayloadU16)
        ensures
            r.0@ == bytes@,
    {
        PayloadU16(bytes)
    }

    /// An empty payload.
    pub fn empty() -> (r: PayloadU16)
        ensures
            r.0@.len() == 0,
    {
        PayloadU16(Vec::new())
    }

    /// Appends a two-byte length prefix and the slice.
    pub fn encode_slice(slice: &Vec<u8>, bytes: &mut Vec<u8>)
        requires
            slice@.len() <= u16::MAX,
        ensures
            final(bytes)@ == old(bytes)@ + spec_u16_be(slice@.len() as u16) + slice@,
    {
        let len: u16 = slice.len() as u16;
        bytes.push((len >> 8) as u8);
        bytes.push(len as u8);
        bytes.extend_from_slice(slice.as_slice());
        proof {
            assert(bytes@ =~= old(bytes)@ + spec_u16_be(slice@.len() as u16) + slice@);
        }
    }

    /// Appends the length prefix and the bytes.
    pub fn encode(&self, bytes: &mut Vec<u8>)
        requires
            self.0@.len() <= u16::MAX,
        ensures
            final(bytes)@ == old(bytes)@ + spec_u16_be(self.0@.len() as u16) + self.0@,
    {
        PayloadU16::encode_slice(&self.0, bytes);
    }

    /// Reads a length prefix and that many bytes: succeeds exactly when
    /// a full two-byte-length payload lies at the cursor, and otherwise
    /// leaves the reader where it was.
    pub fn read(r: &mut Reader) -> (p: Option<PayloadU16>)
        requires
            old(r).cursor <= old(r).bytes@.len(),
        ensures
            final(r).bytes@ == old(r).bytes@,
            final(r).cursor <= final(r).bytes@.len(),
            match p {
                Some(v) => {
                    &&& spec_u16_payload_at(old(r).bytes@, old(r).cursor as int)
                    &&& v.0@.len() == spec_read_u16(old(r).bytes@, old(r).cursor as int)
                    &&& old(r).bytes@.subrange(old(r).cursor as int, final(r).cursor as int)
                        =~= spec_u16_be(v.0@.len() as u16) + v.0@
                    &&& final(r).cursor == old(r).cursor + 2 + v.0@.len()
                },
                None => {
                    &&& !spec_u16_payload_at(old(r).bytes@, old(r).cursor as int)
                    &&& final(r).cursor == old(r).cursor
                },
            },
    {
        let start: usize = r.cursor;
        let len = match r.read_u16() {
            Some(l) => l,
            None => {
                return None;
            },
        };
        match r.take(len as usize) {
            Some(body) => {
                let p = PayloadU16(body);
                proof {
                    assert(old(r).bytes@.subrange(start as int, r.cursor as int) =~= spec_u16_be(
                        p.0@.len() as u16,
                    ) + p.0@);
                }
                Some(p)
            },
            None => {
                r.cursor = start;
                None
            },
        }
    }
}

/// An arbitrary payload with a three-byte length prefix.
#[derive(Debug)]
pub struct PayloadU24(pub Vec<u8>);

impl PayloadU24 {
    /// Wraps the bytes.
    pub fn new(bytes: Vec<u8>) -> (r: PayloadU24)
        ensures
            r.0@ == bytes@,
    {
        PayloadU24(bytes)
    }

    /// Appends the length prefix and the bytes.
    pub fn encode(&self, bytes: &mut Vec<u8>)
        requires
            self.0@.len() < 0x100_0000,
        ensures
            final(bytes)@ == old(bytes)@ + spec_u24_be(self.0@.len() as u32) + self.0@,
    {
        let len: u32 = self.0.len() as u32;
        bytes.push((len >> 16) as u8);
        bytes.push((len >> 8) as u8);
        bytes.push(len as u8);
        bytes.extend_from_slice(self.0.as_slice());
        proof {
            assert(bytes@ =~= old(bytes)@ + spec_u24_be(self.0@.len() as u32) + self.0@);
        }
    }

    /// Reads a length prefix and that many bytes: succeeds exactly when
    /// a full three-byte-length payload lies at the cursor, and
    /// otherwise leaves the reader where it was.
    pub fn read(r: &mut Reader) -> (p: Option<PayloadU24>)
        requires
            old(r).cursor <= old(r).bytes@.len(),
        ensures
            final(r).bytes@ == old(r).bytes@,
            final(r).cursor <= final(r).bytes@.len(),
            match p {
                Some(v) => {
                    &&& spec_u24_payload_at(old(r).bytes@, old(r).cursor as int)
                    &&& v.0@.len() == spec_read_u24(old(r).bytes@, old(r).cursor as int)
                    &&& old(r).bytes@.subrange(old(r).cursor as int, final(r).cursor as int)
                        =~= spec_u24_be(v.0@.len() as u32) + v.0@
                    &&& final(r).cursor == old(r).cursor + 3 + v.0@.len()
                },
                None => {
                    &&& !spec_u24_payload_at(old(r).bytes@, old(r).cursor as int)
                    &&& final(r).cursor == old(r).cursor
                },
            },
    {
        let start: usize = r.cursor;
        let len = match r.read_u24() {
            Some(l) => l,
            None => {
                return None;
            },
        };
        match r.take(len as usize) {
            Some(body) => {
                let p = PayloadU24(body);
                proof {
                    assert(old(r).bytes@.subrange(start as int, r.cursor as int) =~= spec_u24_be(
                        p.0@.len() as u32,
                    ) + p.0@);
                }
                Some(p)
            },
            None => {
                r.cursor = start;
                None
            },
        }
    }
}

} // verus!
