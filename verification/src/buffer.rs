//! Bounds-checked cursor over the bytes of a replication frame.
//!
//! `BufferReader` walks an immutable byte slice and decodes big-endian
//! integers and strings; `BufferWriter` builds an outgoing frame.  Every
//! operation either succeeds exactly as the spec functions in `wire`
//! describe or fails with a `Parse` error and leaves the cursor where it
//! was.

use vstd::prelude::*;

use crate::errors::ReplicationError;
use crate::wire::{
    be_u16_at, be_u32_at, be_u64_at, lemma_find_nul_at, lemma_find_nul_none, spec_cstr,
    spec_lp_string, u16_be_bytes, u32_be_bytes, u64_be_bytes,
};

verus! {

use vstd::slice::{slice_index_get, slice_subrange};
use vstd::utf8::{decode_utf8, valid_utf8};

/// Relies on `core::str::from_utf8`: it returns `Ok` exactly on valid
/// UTF-8 input, and the resulting string is the decoding of those bytes.
#[verifier::external_body]
fn utf8_to_str<'a>(bytes: &'a [u8]) -> (r: Option<&'a str>)
    ensures
        r is Some <==> valid_utf8(bytes@),
        r matches Some(s) ==> s@ == decode_utf8(bytes@),
{
    core::str::from_utf8(bytes).ok()
}

/// The big-endian `u16` at the front of `buf`.
pub fn buf_recv_u16(buf: &[u8]) -> (r: u16)
    requires
        buf@.len() >= 2,
    ensures
        r == be_u16_at(buf@, 0),
{
    (buf[0] as u16) * 0x100 + (buf[1] as u16)
}

/// The big-endian `u32` at the front of `buf`.
pub fn buf_recv_u32(buf: &[u8]) -> (r: u32)
    requires
        buf@.len() >= 4,
    ensures
        r == be_u32_at(buf@, 0),
{
    (buf[0] as u32) * 0x1000000 + (buf[1] as u32) * 0x10000 + (buf[2] as u32) * 0x100 + (
    buf[3] as u32)
}

/// The big-endian `u64` at the front of `buf`.
pub fn buf_recv_u64(buf: &[u8]) -> (r: u64)
    requires
        buf@.len() >= 8,
    ensures
        r == be_u64_at(buf@, 0),
{
    (buf[0] as u64) * 0x100000000000000 + (buf[1] as u64) * 0x1000000000000 + (buf[2] as u64)
        * 0x10000000000 + (buf[3] as u64) * 0x100000000 + (buf[4] as u64) * 0x1000000 + (
    buf[5] as u64) * 0x10000 + (buf[6] as u64) * 0x100 + (buf[7] as u64)
}

/// The big-endian `i16` at the front of `buf`.
pub fn buf_recv_i16(buf: &[u8]) -> (r: i16)
    requires
        buf@.len() >= 2,
    ensures
        r == be_u16_at(buf@, 0) as i16,
{
    #[verifier::truncate]
    let r = buf_recv_u16(buf) as i16;
    r
}

/// The big-endian `i32` at the front of `buf`.
pub fn buf_recv_i32(buf: &[u8]) -> (r: i32)
    requires
        buf@.len() >= 4,
    ensures
        r == be_u32_at(buf@, 0) as i32,
{
    #[verifier::truncate]
    let r = buf_recv_u32(buf) as i32;
    r
}

/// The big-endian `i64` at the front of `buf`.
pub fn buf_recv_i64(buf: &[u8]) -> (r: i64)
    requires
        buf@.len() >= 8,
    ensures
        r == be_u64_at(buf@, 0) as i64,
{
    #[verifier::truncate]
    let r = buf_recv_u64(buf) as i64;
    r
}

/// A bounds-checked reading cursor over a byte slice.
pub struct BufferReader<'a> {
    pub data: &'a [u8],
    pub pos: usize,
}

impl<'a> BufferReader<'a> {
    /// The cursor stands inside (or just past) its slice.
    pub open spec fn wf(self) -> bool {
        self.pos <= self.data@.len()
    }

    /// How many bytes are left to read.
    pub open spec fn spec_remaining(self) -> int {
        self.data@.len() - self.pos
    }

    /// A cursor at the front of `data`.
    pub fn new(data: &'a [u8]) -> (r: Self)
        ensures
            r.data@ == data@,
            r.pos == 0,
            r.wf(),
    {
        BufferReader { data, pos: 0 }
    }

    /// The current offset from the front of the slice.
    pub fn position(&self) -> (r: usize)
        ensures
            r == self.pos,
    {
        self.pos
    }

    /// Move the cursor to an absolute offset; fails past the end.
    pub fn set_position(&mut self, pos: usize) -> (r: Result<(), ReplicationError>)
        ensures
            final(self).data == old(self).data,
            pos <= old(self).data@.len() ==> (r is Ok && final(self).pos == pos),
            pos > old(self).data@.len() ==> (r is Err && r->Err_0 is Parse && final(self).pos == old(
                self,
            ).pos),
    {
        if pos <= self.data.len() {
            self.pos = pos;
            Ok(())
        } else {
            Err(ReplicationError::parse("position out of range"))
        }
    }

    /// How many bytes are left to read.
    pub fn remaining(&self) -> (r: usize)
        requires
            self.wf(),
        ensures
            r == self.spec_remaining(),
    {
        self.data.len() - self.pos
    }

    /// True when at least `n` bytes are left.
    pub fn has_bytes(&self, n: usize) -> (r: bool)
        requires
            self.wf(),
        ensures
            r == (self.spec_remaining() >= n),
    {
        self.data.len() - self.pos >= n
    }

    /// Read the leading message-type byte as a character.
    pub fn skip_message_type(&mut self) -> (r: Result<char, ReplicationError>)
        requires
            old(self).wf(),
        ensures
            final(self).data == old(self).data,
            final(self).wf(),
            old(self).spec_remaining() >= 1 ==> (r matches Ok(c) && c == (old(self).data@[old(
                self,
            ).pos as int] as char) && final(self).pos == old(self).pos + 1),
            old(self).spec_remaining() < 1 ==> (r is Err && r->Err_0 is Parse && final(self).pos == old(
                self,
            ).pos),
    {
        match self.read_u8() {
            Ok(b) => Ok(b as char),
            Err(e) => Err(e),
        }
    }

    /// The next byte, without advancing.
    pub fn peek_u8(&self) -> (r: Result<u8, ReplicationError>)
        requires
            self.wf(),
        ensures
            self.spec_remaining() >= 1 ==> (r matches Ok(b) && b == self.data@[self.pos as int]),
            self.spec_remaining() < 1 ==> (r is Err && r->Err_0 is Parse),
    {
        if self.pos < self.data.len() {
            Ok(*slice_index_get(self.data, self.pos))
        } else {
            Err(ReplicationError::parse("truncated"))
        }
    }

    /// Read one byte.
    pub fn read_u8(&mut self) -> (r: Result<u8, ReplicationError>)
        requires
            old(self).wf(),
        ensures
            final(self).data == old(self).data,
            final(self).wf(),
            old(self).spec_remaining() >= 1 ==> (r matches Ok(b) && b == old(self).data@[old(
                self,
            ).pos as int] && final(self).pos == old(self).pos + 1),
            old(self).spec_remaining() < 1 ==> (r is Err && r->Err_0 is Parse && final(self).pos == old(
                self,
            ).pos),
    {
        if self.pos < self.data.len() {
            let b = *slice_index_get(self.data, self.pos);
            self.pos = self.pos + 1;
            Ok(b)
        } else {
            Err(ReplicationError::parse("truncated"))
        }
    }

    /// Read one byte as a signed integer.
    pub fn read_i8(&mut self) -> (r: Result<i8, ReplicationError>)
        requires
            old(self).wf(),
        ensures
            final(self).data == old(self).data,
            final(self).wf(),
            old(self).spec_remaining() >= 1 ==> (r matches Ok(b) && b == old(self).data@[old(
                self,
            ).pos as int] as i8 && final(self).pos == old(self).pos + 1),
            old(self).spec_remaining() < 1 ==> (r is Err && r->Err_0 is Parse && final(self).pos == old(
                self,
            ).pos),
    {
        match self.read_u8() {
            Ok(b) => {
                #[verifier::truncate]
                let s = b as i8;
                Ok(s)
            },
            Err(e) => Err(e),
        }
    }

    /// Read a big-endian `u16`.
    pub fn read_u16(&mut self) -> (r: Result<u16, ReplicationError>)
        requires
            old(self).wf(),
        ensures
            final(self).data == old(self).data,
            final(self).wf(),
            old(self).spec_remaining() >= 2 ==> (r matches Ok(v) && v == be_u16_at(
                old(self).data@,
                old(self).pos as int,
            ) && final(self).pos == old(self).pos + 2),
            old(self).spec_remaining() < 2 ==> (r is Err && r->Err_0 is Parse && final(self).pos == old(
                self,
            ).pos),
    {
        if self.data.len() - self.pos >= 2 {
            let sub = slice_subrange(self.data, self.pos, self.pos + 2);
            let v = buf_recv_u16(sub);
            self.pos = self.pos + 2;
            Ok(v)
        } else {
            Err(ReplicationError::parse("truncated"))
        }
    }

    /// Read a big-endian `i16`.
    pub fn read_i16(&mut self) -> (r: Result<i16, ReplicationError>)
        requires
            old(self).wf(),
        ensures
            final(self).data == old(self).data,
            final(self).wf(),
            old(self).spec_remaining() >= 2 ==> (r matches Ok(v) && v == be_u16_at(
                old(self).data@,
                old(self).pos as int,
            ) as i16 && final(self).pos == old(self).pos + 2),
            old(self).spec_remaining() < 2 ==> (r is Err && r->Err_0 is Parse && final(self).pos == old(
                self,
            ).pos),
    {
        match self.read_u16() {
            Ok(v) => {
                #[verifier::truncate]
                let s = v as i16;
                Ok(s)
            },
            Err(e) => Err(e),
        }
    }

    /// Read a big-endian `u32`.
    pub fn read_u32(&mut self) -> (r: Result<u32, ReplicationError>)
        requires
            old(self).wf(),
        ensures
            final(self).data == old(self).data,
            final(self).wf(),
            old(self).spec_remaining() >= 4 ==> (r matches Ok(v) && v == be_u32_at(
                old(self).data@,
                old(self).pos as int,
            ) && final(self).pos == old(self).pos + 4),
            old(self).spec_remaining() < 4 ==> (r is Err && r->Err_0 is Parse && final(self).pos == old(
                self,
            ).pos),
    {
        if self.data.len() - self.pos >= 4 {
            let sub = slice_subrange(self.data, self.pos, self.pos + 4);
            let v = buf_recv_u32(sub);
            self.pos = self.pos + 4;
            Ok(v)
        } else {
            Err(ReplicationError::parse("truncated"))
        }
    }

    /// Read a big-endian `i32`.
    pub fn read_i32(&mut self) -> (r: Result<i32, ReplicationError>)
        requires
            old(self).wf(),
        ensures
            final(self).data == old(self).data,
            final(self).wf(),
            old(self).spec_remaining() >= 4 ==> (r matches Ok(v) && v == be_u32_at(
                old(self).data@,
                old(self).pos as int,
            ) as i32 && final(self).pos == old(self).pos + 4),
            old(self).spec_remaining() < 4 ==> (r is Err && r->Err_0 is Parse && final(self).pos == old(
                self,
            ).pos),
    {
        match self.read_u32() {
            Ok(v) => {
                #[verifier::truncate]
                let s = v as i32;
                Ok(s)
            },
            Err(e) => Err(e),
        }
    }

    /// Read a big-endian `u64`.
    pub fn read_u64(&mut self) -> (r: Result<u64, ReplicationError>)
        requires
            old(self).wf(),
        ensures
            final(self).data == old(self).data,
            final(self).wf(),
            old(self).spec_remaining() >= 8 ==> (r matches Ok(v) && v == be_u64_at(
                old(self).data@,
                old(self).pos as int,
            ) && final(self).pos == old(self).pos + 8),
            old(self).spec_remaining() < 8 ==> (r is Err && r->Err_0 is Parse && final(self).pos == old(
                self,
            ).pos),
    {
        if self.data.len() - self.pos >= 8 {
            let sub = slice_subrange(self.data, self.pos, self.pos + 8);
            let v = buf_recv_u64(sub);
            self.pos = self.pos + 8;
            Ok(v)
        } else {
            Err(ReplicationError::parse("truncated"))
        }
    }

    /// Read a big-endian `i64`.
    pub fn read_i64(&mut self) -> (r: Result<i64, ReplicationError>)
        requires
            old(self).wf(),
        ensures
            final(self).data == old(self).data,
            final(self).wf(),
            old(self).spec_remaining() >= 8 ==> (r matches Ok(v) && v == be_u64_at(
                old(self).data@,
                old(self).pos as int,
            ) as i64 && final(self).pos == old(self).pos + 8),
            old(self).spec_remaining() < 8 ==> (r is Err && r->Err_0 is Parse && final(self).pos == old(
                self,
            ).pos),
    {
        match self.read_u64() {
            Ok(v) => {
                #[verifier::truncate]
                let s = v as i64;
                Ok(s)
            },
            Err(e) => Err(e),
        }
    }

    /// Read bytes up to and including the next `0x00` terminator and
    /// decode them as UTF-8.
    pub fn read_null_terminated_string(&mut self) -> (r: Result<String, ReplicationError>)
        requires
            old(self).wf(),
        ensures
            final(self).data == old(self).data,
            final(self).wf(),
            match spec_cstr(old(self).data@, old(self).pos as int) {
                Some((cs, end)) => r matches Ok(s) && s@ == cs && final(self).pos == end,
                None => r is Err && r->Err_0 is Parse && final(self).pos == old(self).pos,
            },
    {
        let len = self.data.len();
        let start = self.pos;
        let mut j = start;
        while j < len && *slice_index_get(self.data, j) != 0
            invariant
                start <= j <= len,
                len == self.data@.len(),
                start <= self.data@.len(),
                forall|k: int| start <= k < j ==> self.data@[k] != 0,
            decreases len - j,
        {
            j = j + 1;
        }
        if j == len {
            proof {
                lemma_find_nul_none(self.data@, start as int);
            }
            return Err(ReplicationError::parse("missing string terminator"));
        }
        proof {
            lemma_find_nul_at(self.data@, start as int, j as int);
        }
        let sub = slice_subrange(self.data, start, j);
        match utf8_to_str(sub) {
            Some(st) => {
                self.pos = j + 1;
                Ok(st.to_owned())
            },
            None => Err(ReplicationError::parse("string is not valid utf-8")),
        }
    }

    /// Read an `i32` length then that many bytes, decoded as UTF-8.
    pub fn read_length_prefixed_string(&mut self) -> (r: Result<String, ReplicationError>)
        requires
            old(self).wf(),
        ensures
            final(self).data == old(self).data,
            final(self).wf(),
            match spec_lp_string(old(self).data@, old(self).pos as int) {
                Some((cs, end)) => r matches Ok(s) && s@ == cs && final(self).pos == end,
                None => r is Err && r->Err_0 is Parse && final(self).pos == old(self).pos,
            },
    {
        let start = self.pos;
        if self.data.len() - start < 4 {
            return Err(ReplicationError::parse("truncated"));
        }
        let sub = slice_subrange(self.data, start, start + 4);
        let l = buf_recv_i32(sub);
        if l < 0 {
            return Err(ReplicationError::parse("negative string length"));
        }
        let n = l as usize;
        if n > self.data.len() - (start + 4) {
            return Err(ReplicationError::parse("string length out of range"));
        }
        let body = slice_subrange(self.data, start + 4, start + 4 + n);
        match utf8_to_str(body) {
            Some(st) => {
                self.pos = start + 4 + n;
                Ok(st.to_owned())
            },
            None => Err(ReplicationError::parse("string is not valid utf-8")),
        }
    }
}

/// A cursor that builds an outgoing frame, appending big-endian bytes.
pub struct BufferWriter {
    pub buf: Vec<u8>,
}

impl BufferWriter {
    /// An empty writer.
    pub fn new() -> (r: Self)
        ensures
            r.buf@ == Seq::<u8>::empty(),
    {
        BufferWriter { buf: Vec::new() }
    }

    /// Append one byte.
    pub fn write_u8(&mut self, v: u8)
        ensures
            final(self).buf@ == old(self).buf@.push(v),
    {
        self.buf.push(v);
    }

    /// Append a `u16` in big-endian order.
    pub fn write_u16(&mut self, v: u16)
        ensures
            final(self).buf@ == old(self).buf@ + u16_be_bytes(v),
    {
        self.buf.push((v / 0x100) as u8);
        self.buf.push((v % 0x100) as u8);
        assert(self.buf@ =~= old(self).buf@ + u16_be_bytes(v));
    }

    /// Append an `i16` in big-endian order (two's complement).
    pub fn write_i16(&mut self, v: i16)
        ensures
            final(self).buf@ == old(self).buf@ + u16_be_bytes(v as u16),
    {
        #[verifier::truncate]
        let u = v as u16;
        self.write_u16(u);
    }

    /// Append a `u32` in big-endian order.
    pub fn write_u32(&mut self, v: u32)
        ensures
            final(self).buf@ == old(self).buf@ + u32_be_bytes(v),
    {
        self.buf.push((v / 0x1000000) as u8);
        self.buf.push(((v / 0x10000) % 0x100) as u8);
        self.buf.push(((v / 0x100) % 0x100) as u8);
        self.buf.push((v % 0x100) as u8);
        assert(self.buf@ =~= old(self).buf@ + u32_be_bytes(v));
    }

    /// Append an `i32` in big-endian order (two's complement).
    pub fn write_i32(&mut self, v: i32)
        ensures
            final(self).buf@ == old(self).buf@ + u32_be_bytes(v as u32),
    {
        #[verifier::truncate]
        let u = v as u32;
        self.write_u32(u);
    }

    /// Append a `u64` in big-endian order.
    pub fn write_u64(&mut self, v: u64)
        ensures
            final(self).buf@ == old(self).buf@ + u64_be_bytes(v),
    {
        self.buf.push((v / 0x100000000000000) as u8);
        self.buf.push(((v / 0x1000000000000) % 0x100) as u8);
        self.buf.push(((v / 0x10000000000) % 0x100) as u8);
        self.buf.push(((v / 0x100000000) % 0x100) as u8);
        self.buf.push(((v / 0x1000000) % 0x100) as u8);
        self.buf.push(((v / 0x10000) % 0x100) as u8);
        self.buf.push(((v / 0x100) % 0x100) as u8);
        self.buf.push((v % 0x100) as u8);
        assert(self.buf@ =~= old(self).buf@ + u64_be_bytes(v));
    }

    /// Append an `i64` in big-endian order (two's complement).
    pub fn write_i64(&mut self, v: i64)
        ensures
            final(self).buf@ == old(self).buf@ + u64_be_bytes(v as u64),
    {
        #[verifier::truncate]
        let u = v as u64;
        self.write_u64(u);
    }

    /// How many bytes have been written.
    pub fn bytes_written(&self) -> (r: usize)
        ensures
            r == self.buf@.len(),
    {
        self.buf.len()
    }

    /// The finished frame.
    pub fn into_bytes(self) -> (r: Vec<u8>)
        ensures
            r@ == self.buf@,
    {
        self.buf
    }
}

} // verus!
