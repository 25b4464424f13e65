//! A read position in a byte slice, with one reader per primitive of the format.
use vstd::prelude::*;
use vstd::utf8::{valid_utf8, decode_utf8};
use crate::error::ParseError;
use crate::grammar::{
    SResult, rest, u8_at, u32_at, i32_at, i64_at, bytes_at, le_u32, le_u64, u32_le_at, u64_le_at,
    name_at,
};
use crate::leb128::{
    decode_u32, decode_i32, decode_i64, spec_decode_u32, spec_decode_i32, spec_decode_i64,
    lemma_u32_leb_from_ok, lemma_signed_leb_from_ok,
};

verus! {

#[verifier::external_type_specification]
#[verifier::external_body]
pub struct ExUtf8Error(core::str::Utf8Error);

/// Checks `bytes` with `core::str::from_utf8`, which accepts exactly the
/// well-formed UTF-8 sequences and then views them as the characters they encode.
#[verifier::external_body]
fn str_from_utf8(bytes: &[u8]) -> (r: Result<&str, core::str::Utf8Error>)
    ensures
        r is Ok <==> valid_utf8(bytes@),
        r matches Ok(s) ==> s@ == decode_utf8(bytes@),
{
    core::str::from_utf8(bytes)
}

pub struct Cursor<'a> {
    pub bytes: &'a [u8],
    pub offset: usize,
}

/// The outcome of a cursor read matches the spec reading `spec` from `c0`.
pub open spec fn read_as<'a, T>(
    c0: Cursor<'a>,
    c1: Cursor<'a>,
    r: Result<T, ParseError>,
    spec: SResult<T>,
) -> bool {
    &&& c1.bytes@ == c0.bytes@
    &&& c1.wf()
    &&& match spec {
        Ok((v, p)) => r == Ok::<T, ParseError>(v) && c1.offset == p,
        Err(e) => r == Err::<T, ParseError>(e),
    }
}

impl<'a> Cursor<'a> {
    pub open spec fn wf(&self) -> bool {
        self.offset <= self.bytes@.len()
    }

    pub fn new(bytes: &'a [u8]) -> (c: Self)
        ensures
            c.bytes@ == bytes@,
            c.offset == 0,
            c.wf(),
    {
        Cursor { bytes, offset: 0 }
    }

    pub fn is_eof(&self) -> (r: bool)
        requires
            self.wf(),
        ensures
            r == (self.offset == self.bytes@.len()),
    {
        self.offset == self.bytes.len()
    }

    pub fn remaining(&self) -> (r: &'a [u8])
        requires
            self.wf(),
        ensures
            r@ == rest(self.bytes@, self.offset as int),
    {
        &self.bytes[self.offset..self.bytes.len()]
    }

    pub fn consume_remaining(&mut self)
        requires
            old(self).wf(),
        ensures
            final(self).bytes@ == old(self).bytes@,
            final(self).offset == old(self).bytes@.len(),
            final(self).wf(),
    {
        self.offset = self.bytes.len();
    }

    pub fn read_u8(&mut self) -> (r: Result<u8, ParseError>)
        requires
            old(self).wf(),
        ensures
            read_as(*old(self), *final(self), r, u8_at(old(self).bytes@, old(self).offset as int)),
    {
        if self.offset >= self.bytes.len() {
            return Err(ParseError::UnexpectedEof);
        }
        let byte = self.bytes[self.offset];
        self.offset = self.offset + 1;
        Ok(byte)
    }

    pub fn read_u32(&mut self) -> (r: Result<u32, ParseError>)
        requires
            old(self).wf(),
        ensures
            read_as(*old(self), *final(self), r, u32_at(old(self).bytes@, old(self).offset as int)),
    {
        let blen = self.bytes.len();
        let (value, used) = decode_u32(self.remaining())?;
        proof {
            lemma_u32_leb_from_ok(rest(self.bytes@, self.offset as int), 0);
        }
        self.offset = self.offset + used;
        Ok(value)
    }

    pub fn read_i32(&mut self) -> (r: Result<i32, ParseError>)
        requires
            old(self).wf(),
        ensures
            read_as(*old(self), *final(self), r, i32_at(old(self).bytes@, old(self).offset as int)),
    {
        let blen = self.bytes.len();
        let (value, used) = decode_i32(self.remaining())?;
        proof {
            lemma_signed_leb_from_ok(
                rest(self.bytes@, self.offset as int),
                0,
                5,
                16,
                i32::MIN as int,
                i32::MAX as int,
            );
        }
        self.offset = self.offset + used;
        Ok(value)
    }

    pub fn read_i64(&mut self) -> (r: Result<i64, ParseError>)
        requires
            old(self).wf(),
        ensures
            read_as(*old(self), *final(self), r, i64_at(old(self).bytes@, old(self).offset as int)),
    {
        let blen = self.bytes.len();
        let (value, used) = decode_i64(self.remaining())?;
        proof {
            lemma_signed_leb_from_ok(
                rest(self.bytes@, self.offset as int),
                0,
                10,
                2,
                i64::MIN as int,
                i64::MAX as int,
            );
        }
        self.offset = self.offset + used;
        Ok(value)
    }

    pub fn read_exact(&mut self, len: usize) -> (r: Result<&'a [u8], ParseError>)
        requires
            old(self).wf(),
        ensures
            final(self).bytes@ == old(self).bytes@,
            final(self).wf(),
            match bytes_at(old(self).bytes@, old(self).offset as int, len as int) {
                Ok((b, p)) => r matches Ok(x) && x@ == b && final(self).offset == p,
                Err(e) => r == Err::<&[u8], ParseError>(e),
            },
    {
        let blen = self.bytes.len();
        let end = match self.offset.checked_add(len) {
            Some(end) => end,
            None => return Err(ParseError::UnexpectedEof),
        };
        if end > blen {
            return Err(ParseError::UnexpectedEof);
        }
        let result = &self.bytes[self.offset..end];
        self.offset = end;
        Ok(result)
    }

    pub fn read_u32_le(&mut self) -> (r: Result<u32, ParseError>)
        requires
            old(self).wf(),
        ensures
            read_as(*old(self), *final(self), r, u32_le_at(old(self).bytes@, old(self).offset as int)),
    {
        let b = self.read_exact(4)?;
        let value = b[0] as u32 + 0x100 * (b[1] as u32) + 0x1_0000 * (b[2] as u32) + 0x100_0000
            * (b[3] as u32);
        assert(value == le_u32(b@));
        Ok(value)
    }

    pub fn read_u64_le(&mut self) -> (r: Result<u64, ParseError>)
        requires
            old(self).wf(),
        ensures
            read_as(*old(self), *final(self), r, u64_le_at(old(self).bytes@, old(self).offset as int)),
    {
        let b = self.read_exact(8)?;
        let low = b[0] as u64 + 0x100 * (b[1] as u64) + 0x1_0000 * (b[2] as u64) + 0x100_0000
            * (b[3] as u64);
        let high = b[4] as u64 + 0x100 * (b[5] as u64) + 0x1_0000 * (b[6] as u64) + 0x100_0000
            * (b[7] as u64);
        assert(low == le_u32(b@));
        assert(high == le_u32(b@.subrange(4, 8)));
        Ok(low + 0x1_0000_0000 * high)
    }

    pub fn read_array4(&mut self) -> (r: Result<[u8; 4], ParseError>)
        requires
            old(self).wf(),
        ensures
            final(self).bytes@ == old(self).bytes@,
            final(self).wf(),
            match bytes_at(old(self).bytes@, old(self).offset as int, 4) {
                Ok((b, p)) => r matches Ok(x) && x@ == b && final(self).offset == p,
                Err(e) => r == Err::<[u8; 4], ParseError>(e),
            },
    {
        let bytes = self.read_exact(4)?;
        let a = [bytes[0], bytes[1], bytes[2], bytes[3]];
        assert(a@ =~= bytes@);
        Ok(a)
    }

    pub fn read_name(&mut self) -> (r: Result<String, ParseError>)
        requires
            old(self).wf(),
        ensures
            final(self).bytes@ == old(self).bytes@,
            final(self).wf(),
            match name_at(old(self).bytes@, old(self).offset as int) {
                Ok((n, p)) => r matches Ok(x) && x@ == n && final(self).offset == p,
                Err(e) => r == Err::<String, ParseError>(e),
            },
    {
        let len = self.read_u32()? as usize;
        let bytes = self.read_exact(len)?;
        match str_from_utf8(bytes) {
            Ok(s) => Ok(s.to_owned()),
            Err(_) => Err(ParseError::InvalidUtf8),
        }
    }
}

} // verus!
