//! A cursor over the bytes of a class file.
use vstd::prelude::*;
use crate::bytes::{be16, be32, be64};
use crate::error::ParseError;

verus! {

/// An abstraction for reading the bytes of a `.class` file in order.
pub struct JavaClassReader {
    buffer: Vec<u8>,
    dist: u32,
}

impl JavaClassReader {
    /// The bytes being read.
    pub closed spec fn bytes(&self) -> Seq<u8> {
        self.buffer@
    }

    /// How many bytes have been read so far.
    pub closed spec fn pos(&self) -> int {
        self.dist as int
    }

    /// The position never passes the end, and every position fits the `u32` counter.
    pub open spec fn valid(&self) -> bool {
        0 <= self.pos() <= self.bytes().len() <= u32::MAX
    }

    /// Creates a reader positioned at the first of `bytes`.
    pub fn new_from_bytes(bytes: Vec<u8>) -> (r: Result<JavaClassReader, ParseError>)
        requires
            bytes@.len() <= u32::MAX,
        ensures
            r matches Ok(rd) && rd.bytes() == bytes@ && rd.pos() == 0 && rd.valid(),
    {
        Ok(JavaClassReader { buffer: bytes, dist: 0 })
    }

    /// Reads one byte.
    pub fn next8(&mut self) -> (r: Result<u8, ParseError>)
        requires
            old(self).valid(),
        ensures
            final(self).valid(),
            final(self).bytes() == old(self).bytes(),
            old(self).pos() + 1 <= old(self).bytes().len() ==> r == Ok::<u8, ParseError>(
                old(self).bytes()[old(self).pos()],
            ) && final(self).pos() == old(self).pos() + 1,
            old(self).pos() + 1 > old(self).bytes().len() ==> r == Err::<u8, ParseError>(
                ParseError::EndOfFile,
            ) && final(self).pos() == old(self).bytes().len(),
    {
        if self.dist as usize >= self.buffer.len() {
            return Err(ParseError::EndOfFile);
        }
        let ans = self.buffer[self.dist as usize];
        self.dist = self.dist + 1;
        Ok(ans)
    }

    /// Reads a big-endian `u16`.
    pub fn next16(&mut self) -> (r: Result<u16, ParseError>)
        requires
            old(self).valid(),
        ensures
            final(self).valid(),
            final(self).bytes() == old(self).bytes(),
            old(self).pos() + 2 <= old(self).bytes().len() ==> r == Ok::<u16, ParseError>(
                be16(old(self).bytes(), old(self).pos()),
            ) && final(self).pos() == old(self).pos() + 2,
            old(self).pos() + 2 > old(self).bytes().len() ==> r == Err::<u16, ParseError>(
                ParseError::EndOfFile,
            ) && final(self).pos() == old(self).bytes().len(),
    {
        let a = self.next8()?;
        let b = self.next8()?;
        let v = ((a as u16) << 8u16) | (b as u16);
        assert(v == (a as int * 0x100 + b as int) as u16) by (bit_vector)
            requires
                v == ((a as u16) << 8u16) | (b as u16),
        ;
        Ok(v)
    }

    /// Reads a big-endian `u32`.
    pub fn next32(&mut self) -> (r: Result<u32, ParseError>)
        requires
            old(self).valid(),
        ensures
            final(self).valid(),
            final(self).bytes() == old(self).bytes(),
            old(self).pos() + 4 <= old(self).bytes().len() ==> r == Ok::<u32, ParseError>(
                be32(old(self).bytes(), old(self).pos()),
            ) && final(self).pos() == old(self).pos() + 4,
            old(self).pos() + 4 > old(self).bytes().len() ==> r == Err::<u32, ParseError>(
                ParseError::EndOfFile,
            ) && final(self).pos() == old(self).bytes().len(),
    {
        let a = self.next8()?;
        let b = self.next8()?;
        let c = self.next8()?;
        let d = self.next8()?;
        let a24 = (a as u32) << 24u32;
        let b16 = (b as u32) << 16u32;
        let c8 = (c as u32) << 8u32;
        assert(a24 == a as int * 0x1000000 && b16 == b as int * 0x10000 && c8 == c as int * 0x100)
            by (bit_vector)
            requires
                a24 == (a as u32) << 24u32,
                b16 == (b as u32) << 16u32,
                c8 == (c as u32) << 8u32,
        ;
        let hi = a24 + b16;
        let lo = c8 + (d as u32);
        Ok(hi + lo)
    }

    /// Reads a big-endian `u64`.
    pub fn next64(&mut self) -> (r: Result<u64, ParseError>)
        requires
            old(self).valid(),
        ensures
            final(self).valid(),
            final(self).bytes() == old(self).bytes(),
            old(self).pos() + 8 <= old(self).bytes().len() ==> r == Ok::<u64, ParseError>(
                be64(old(self).bytes(), old(self).pos()),
            ) && final(self).pos() == old(self).pos() + 8,
            old(self).pos() + 8 > old(self).bytes().len() ==> r == Err::<u64, ParseError>(
                ParseError::EndOfFile,
            ) && final(self).pos() == old(self).bytes().len(),
    {
        let hi = self.next32()?;
        let lo = self.next32()?;
        let v = ((hi as u64) << 32u64) | (lo as u64);
        assert(v == hi as int * 0x1_0000_0000 + lo as int) by (bit_vector)
            requires
                v == ((hi as u64) << 32u64) | (lo as u64),
        ;
        Ok(v)
    }

    /// How many bytes have been read so far.
    pub fn dist(&self) -> (d: u32)
        ensures
            d == self.pos(),
    {
        self.dist
    }
}

} // verus!
