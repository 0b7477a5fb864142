//! Position-tracking cursor over an in-memory byte buffer with
//! bounds-checked little-endian typed reads. Every read either fully
//! succeeds or fails without any observable consumption.

use vstd::prelude::*;

use crate::error::DecodeError;

verus! {

/// Value of two bytes as a little-endian unsigned 16-bit integer.
pub open spec fn u16_of_le(s: Seq<u8>) -> u16
    recommends
        s.len() == 2,
{
    (s[0] as int + s[1] as int * 0x100) as u16
}

/// Value of four bytes as a little-endian unsigned 32-bit integer.
pub open spec fn u32_of_le(s: Seq<u8>) -> u32
    recommends
        s.len() == 4,
{
    (s[0] as int + s[1] as int * 0x100 + s[2] as int * 0x1_0000 + s[3] as int * 0x100_0000) as u32
}

/// Value of eight bytes as a little-endian unsigned 64-bit integer.
pub open spec fn u64_of_le(s: Seq<u8>) -> u64
    recommends
        s.len() == 8,
{
    (s[0] as int + s[1] as int * 0x100 + s[2] as int * 0x1_0000 + s[3] as int * 0x100_0000
        + s[4] as int * 0x1_0000_0000 + s[5] as int * 0x100_0000_0000
        + s[6] as int * 0x1_0000_0000_0000 + s[7] as int * 0x100_0000_0000_0000) as u64
}

/// Two's-complement reading of `u16_of_le`.
pub open spec fn i16_of_le(s: Seq<u8>) -> i16
    recommends
        s.len() == 2,
{
    let v = u16_of_le(s) as int;
    if v < 0x8000 {
        v as i16
    } else {
        (v - 0x1_0000) as i16
    }
}

/// Two's-complement reading of `u32_of_le`.
pub open spec fn i32_of_le(s: Seq<u8>) -> i32
    recommends
        s.len() == 4,
{
    let v = u32_of_le(s) as int;
    if v < 0x8000_0000 {
        v as i32
    } else {
        (v - 0x1_0000_0000) as i32
    }
}

/// Two's-complement reading of `u64_of_le`.
pub open spec fn i64_of_le(s: Seq<u8>) -> i64
    recommends
        s.len() == 8,
{
    let v = u64_of_le(s) as int;
    if v < 0x8000_0000_0000_0000 {
        v as i64
    } else {
        (v - 0x1_0000_0000_0000_0000) as i64
    }
}

/// The byte at `at`.
pub open spec fn u8_at(s: Seq<u8>, at: int) -> u8 {
    s[at]
}

/// The unsigned 16-bit field at `at`.
pub open spec fn u16_at(s: Seq<u8>, at: int) -> u16 {
    u16_of_le(s.subrange(at, at + 2))
}

/// The signed 16-bit field at `at`.
pub open spec fn i16_at(s: Seq<u8>, at: int) -> i16 {
    i16_of_le(s.subrange(at, at + 2))
}

/// The unsigned 32-bit field at `at`.
pub open spec fn u32_at(s: Seq<u8>, at: int) -> u32 {
    u32_of_le(s.subrange(at, at + 4))
}

/// The signed 32-bit field at `at`.
pub open spec fn i32_at(s: Seq<u8>, at: int) -> i32 {
    i32_of_le(s.subrange(at, at + 4))
}

/// Position of the first zero byte of `s` at or after `from`, if any.
pub open spec fn first_zero_at(s: Seq<u8>, from: int) -> Option<int>
    decreases s.len() - from,
{
    if from >= s.len() {
        None
    } else if s[from] == 0 {
        Some(from)
    } else {
        first_zero_at(s, from + 1)
    }
}

proof fn lemma_no_zero_prefix(s: Seq<u8>, from: int, i: int)
    requires
        0 <= from <= i <= s.len(),
        forall|j: int| from <= j < i ==> s[j] != 0,
    ensures
        first_zero_at(s, from) == first_zero_at(s, i),
    decreases i - from,
{
    if from < i {
        lemma_no_zero_prefix(s, from + 1, i);
    }
}

/// The cursor never goes negative: it is an unsigned stream position.
pub broadcast proof fn lemma_cursor_nonneg(rd: &ByteReader)
    ensures
        #[trigger] rd.cursor() >= 0,
{
}

/// If reading record `j` of a fixed-stride run overflows the buffer,
/// the whole run of `n` records does.
pub proof fn lemma_run_overflow(off: int, step: int, j: int, n: int, len: int)
    requires
        0 <= j < n,
        step >= 0,
        off + j * step + step > len,
    ensures
        off + n * step > len,
{
    assert((j + 1) * step <= n * step && (j + 1) * step == j * step + step) by (nonlinear_arith)
        requires
            0 <= j < n,
            step >= 0,
    ;
}

/// Seekable cursor over an owned byte buffer.
pub struct ByteReader {
    data: Vec<u8>,
    pos: u64,
}

impl ByteReader {
    /// The underlying bytes.
    pub closed spec fn bytes(&self) -> Seq<u8> {
        self.data@
    }

    /// The current read position. It may lie past the end of the buffer
    /// (an absolute seek is never an error); every read checks bounds.
    pub closed spec fn cursor(&self) -> int {
        self.pos as int
    }

    pub fn new(data: Vec<u8>) -> (r: ByteReader)
        ensures
            r.bytes() == data@,
            r.cursor() == 0,
    {
        ByteReader { data, pos: 0 }
    }

    /// Absolute seek. Always succeeds; the `Result` mirrors the fallible
    /// seek of a file-backed stream.
    pub fn seek(&mut self, pos: u64) -> (r: Result<u64, DecodeError>)
        ensures
            final(self).bytes() == old(self).bytes(),
            final(self).cursor() == pos as int,
            r == Ok::<u64, DecodeError>(pos),
    {
        self.pos = pos;
        Ok(pos)
    }

    /// Total size of the byte source.
    pub fn size(&self) -> (r: u64)
        ensures
            r == self.bytes().len(),
    {
        self.data.len() as u64
    }

    /// The current read position.
    pub fn position(&self) -> (r: u64)
        ensures
            r == self.cursor(),
    {
        self.pos
    }

    /// Read exactly `size` bytes, advancing the cursor; fails without
    /// moving the cursor if fewer remain.
    pub fn read(&mut self, size: usize) -> (r: Result<Vec<u8>, DecodeError>)
        ensures
            final(self).bytes() == old(self).bytes(),
            match r {
                Ok(v) => {
                    &&& old(self).cursor() + size <= final(self).bytes().len()
                    &&& v@ == final(self).bytes().subrange(
                        old(self).cursor(),
                        old(self).cursor() + size,
                    )
                    &&& final(self).cursor() == old(self).cursor() + size
                },
                Err(e) => {
                    &&& e == DecodeError::ShortRead
                    &&& old(self).cursor() + size > final(self).bytes().len()
                    &&& final(self).cursor() == old(self).cursor()
                },
            },
    {
        let len = self.data.len();
        if self.pos > len as u64 || ((len as u64 - self.pos) as usize) < size {
            return Err(DecodeError::ShortRead);
        }
        let start = self.pos as usize;
        let mut out: Vec<u8> = Vec::new();
        let mut i: usize = 0;
        while i < size
            invariant
                start + size <= self.data@.len(),
                self.data@.len() <= usize::MAX,
                i <= size,
                out@ == self.data@.subrange(start as int, start + i),
            decreases size - i,
        {
            out.push(self.data[start + i]);
            i = i + 1;
            proof {
                assert(out@ =~= self.data@.subrange(start as int, start + i));
            }
        }
        self.pos = (start + size) as u64;
        Ok(out)
    }

    pub fn read_u8(&mut self) -> (r: Result<u8, DecodeError>)
        ensures
            final(self).bytes() == old(self).bytes(),
            match r {
                Ok(b) => {
                    &&& old(self).cursor() + 1 <= final(self).bytes().len()
                    &&& b == final(self).bytes()[old(self).cursor()]
                    &&& final(self).cursor() == old(self).cursor() + 1
                },
                Err(e) => {
                    &&& e == DecodeError::ShortRead
                    &&& old(self).cursor() + 1 > final(self).bytes().len()
                    &&& final(self).cursor() == old(self).cursor()
                },
            },
    {
        let len = self.data.len();
        if self.pos >= len as u64 {
            return Err(DecodeError::ShortRead);
        }
        let b = self.data[self.pos as usize];
        self.pos = self.pos + 1;
        Ok(b)
    }

    pub fn read_i8(&mut self) -> (r: Result<i8, DecodeError>)
        ensures
            final(self).bytes() == old(self).bytes(),
            match r {
                Ok(b) => {
                    &&& old(self).cursor() + 1 <= final(self).bytes().len()
                    &&& b as int == {
                        let v = final(self).bytes()[old(self).cursor()] as int;
                        if v < 0x80 {
                            v
                        } else {
                            v - 0x100
                        }
                    }
                    &&& final(self).cursor() == old(self).cursor() + 1
                },
                Err(e) => {
                    &&& e == DecodeError::ShortRead
                    &&& old(self).cursor() + 1 > final(self).bytes().len()
                    &&& final(self).cursor() == old(self).cursor()
                },
            },
    {
        let b = self.read_u8()?;
        if b < 0x80 {
            Ok(b as i8)
        } else {
            Ok(((b as i16) - 0x100) as i8)
        }
    }

    pub fn read_u16(&mut self) -> (r: Result<u16, DecodeError>)
        ensures
            final(self).bytes() == old(self).bytes(),
            match r {
                Ok(v) => {
                    &&& old(self).cursor() + 2 <= final(self).bytes().len()
                    &&& v == u16_of_le(
                        final(self).bytes().subrange(old(self).cursor(), old(self).cursor() + 2),
                    )
                    &&& final(self).cursor() == old(self).cursor() + 2
                },
                Err(e) => {
                    &&& e == DecodeError::ShortRead
                    &&& old(self).cursor() + 2 > final(self).bytes().len()
                    &&& final(self).cursor() == old(self).cursor()
                },
            },
    {
        let len = self.data.len();
        if self.pos >= len as u64 || len as u64 - self.pos < 2 {
            return Err(DecodeError::ShortRead);
        }
        let i = self.pos as usize;
        let b0 = self.data[i];
        let b1 = self.data[i + 1];
        self.pos = self.pos + 2;
        Ok(b0 as u16 + b1 as u16 * 0x100)
    }

    pub fn read_i16(&mut self) -> (r: Result<i16, DecodeError>)
        ensures
            final(self).bytes() == old(self).bytes(),
            match r {
                Ok(v) => {
                    &&& old(self).cursor() + 2 <= final(self).bytes().len()
                    &&& v == i16_of_le(
                        final(self).bytes().subrange(old(self).cursor(), old(self).cursor() + 2),
                    )
                    &&& final(self).cursor() == old(self).cursor() + 2
                },
                Err(e) => {
                    &&& e == DecodeError::ShortRead
                    &&& old(self).cursor() + 2 > final(self).bytes().len()
                    &&& final(self).cursor() == old(self).cursor()
                },
            },
    {
        let v = self.read_u16()?;
        if v < 0x8000 {
            Ok(v as i16)
        } else {
            Ok(((v as i32) - 0x1_0000) as i16)
        }
    }

    pub fn read_u32(&mut self) -> (r: Result<u32, DecodeError>)
        ensures
            final(self).bytes() == old(self).bytes(),
            match r {
                Ok(v) => {
                    &&& old(self).cursor() + 4 <= final(self).bytes().len()
                    &&& v == u32_of_le(
                        final(self).bytes().subrange(old(self).cursor(), old(self).cursor() + 4),
                    )
                    &&& final(self).cursor() == old(self).cursor() + 4
                },
                Err(e) => {
                    &&& e == DecodeError::ShortRead
                    &&& old(self).cursor() + 4 > final(self).bytes().len()
                    &&& final(self).cursor() == old(self).cursor()
                },
            },
    {
        let len = self.data.len();
        if self.pos >= len as u64 || len as u64 - self.pos < 4 {
            return Err(DecodeError::ShortRead);
        }
        let i = self.pos as usize;
        let b0 = self.data[i];
        let b1 = self.data[i + 1];
        let b2 = self.data[i + 2];
        let b3 = self.data[i + 3];
        self.pos = self.pos + 4;
        Ok(b0 as u32 + b1 as u32 * 0x100 + b2 as u32 * 0x1_0000 + b3 as u32 * 0x100_0000)
    }

    pub fn read_i32(&mut self) -> (r: Result<i32, DecodeError>)
        ensures
            final(self).bytes() == old(self).bytes(),
            match r {
                Ok(v) => {
                    &&& old(self).cursor() + 4 <= final(self).bytes().len()
                    &&& v == i32_of_le(
                        final(self).bytes().subrange(old(self).cursor(), old(self).cursor() + 4),
                    )
                    &&& final(self).cursor() == old(self).cursor() + 4
                },
                Err(e) => {
                    &&& e == DecodeError::ShortRead
                    &&& old(self).cursor() + 4 > final(self).bytes().len()
                    &&& final(self).cursor() == old(self).cursor()
                },
            },
    {
        let v = self.read_u32()?;
        if v < 0x8000_0000 {
            Ok(v as i32)
        } else {
            Ok(((v as i64) - 0x1_0000_0000) as i32)
        }
    }

    pub fn read_u64(&mut self) -> (r: Result<u64, DecodeError>)
        ensures
            final(self).bytes() == old(self).bytes(),
            match r {
                Ok(v) => {
                    &&& old(self).cursor() + 8 <= final(self).bytes().len()
                    &&& v == u64_of_le(
                        final(self).bytes().subrange(old(self).cursor(), old(self).cursor() + 8),
                    )
                    &&& final(self).cursor() == old(self).cursor() + 8
                },
                Err(e) => {
                    &&& e == DecodeError::ShortRead
                    &&& old(self).cursor() + 8 > final(self).bytes().len()
                    &&& final(self).cursor() == old(self).cursor()
                },
            },
    {
        let len = self.data.len();
        if self.pos >= len as u64 || len as u64 - self.pos < 8 {
            return Err(DecodeError::ShortRead);
        }
        let i = self.pos as usize;
        let b0 = self.data[i];
        let b1 = self.data[i + 1];
        let b2 = self.data[i + 2];
        let b3 = self.data[i + 3];
        let b4 = self.data[i + 4];
        let b5 = self.data[i + 5];
        let b6 = self.data[i + 6];
        let b7 = self.data[i + 7];
        self.pos = self.pos + 8;
        Ok(b0 as u64 + b1 as u64 * 0x100 + b2 as u64 * 0x1_0000 + b3 as u64 * 0x100_0000
            + b4 as u64 * 0x1_0000_0000 + b5 as u64 * 0x100_0000_0000
            + b6 as u64 * 0x1_0000_0000_0000 + b7 as u64 * 0x100_0000_0000_0000)
    }

    pub fn read_i64(&mut self) -> (r: Result<i64, DecodeError>)
        ensures
            final(self).bytes() == old(self).bytes(),
            match r {
                Ok(v) => {
                    &&& old(self).cursor() + 8 <= final(self).bytes().len()
                    &&& v == i64_of_le(
                        final(self).bytes().subrange(old(self).cursor(), old(self).cursor() + 8),
                    )
                    &&& final(self).cursor() == old(self).cursor() + 8
                },
                Err(e) => {
                    &&& e == DecodeError::ShortRead
                    &&& old(self).cursor() + 8 > final(self).bytes().len()
                    &&& final(self).cursor() == old(self).cursor()
                },
            },
    {
        let v = self.read_u64()?;
        if v < 0x8000_0000_0000_0000 {
            Ok(v as i64)
        } else {
            Ok((((v - 0x8000_0000_0000_0000) as i64) - 0x4000_0000_0000_0000)
                - 0x4000_0000_0000_0000)
        }
    }

    /// Read a fixed-length string as its raw bytes.
    pub fn read_string(&mut self, count: usize) -> (r: Result<Vec<u8>, DecodeError>)
        ensures
            final(self).bytes() == old(self).bytes(),
            match r {
                Ok(v) => {
                    &&& old(self).cursor() + count <= final(self).bytes().len()
                    &&& v@ == final(self).bytes().subrange(
                        old(self).cursor(),
                        old(self).cursor() + count,
                    )
                    &&& final(self).cursor() == old(self).cursor() + count
                },
                Err(e) => {
                    &&& e == DecodeError::ShortRead
                    &&& old(self).cursor() + count > final(self).bytes().len()
                    &&& final(self).cursor() == old(self).cursor()
                },
            },
    {
        self.read(count)
    }

    /// Read bytes up to (not including) the next zero byte and leave the
    /// cursor just past that zero byte. Fails without moving the cursor
    /// when no zero byte follows.
    pub fn read_string_zero_term(&mut self) -> (r: Result<Vec<u8>, DecodeError>)
        ensures
            final(self).bytes() == old(self).bytes(),
            match r {
                Ok(v) => {
                    &&& first_zero_at(final(self).bytes(), old(self).cursor()) is Some
                    &&& v@ == final(self).bytes().subrange(
                        old(self).cursor(),
                        first_zero_at(final(self).bytes(), old(self).cursor()).unwrap(),
                    )
                    &&& final(self).cursor() == first_zero_at(
                        final(self).bytes(),
                        old(self).cursor(),
                    ).unwrap() + 1
                },
                Err(e) => {
                    &&& e == DecodeError::ShortRead
                    &&& first_zero_at(final(self).bytes(), old(self).cursor()) is None
                    &&& final(self).cursor() == old(self).cursor()
                },
            },
    {
        let len_us = self.data.len();
        let len = len_us as u64;
        if self.pos >= len {
            proof {
                assert(first_zero_at(final(self).bytes(), old(self).cursor()) is None);
            }
            return Err(DecodeError::ShortRead);
        }
        let start = self.pos;
        let mut i = self.pos;
        let mut out: Vec<u8> = Vec::new();
        while i < len && self.data[i as usize] != 0
            invariant
                len == self.data@.len(),
                self.data@.len() <= usize::MAX,
                start <= i <= len,
                forall|j: int| start <= j < i ==> self.data@[j] != 0,
                out@ == self.data@.subrange(start as int, i as int),
            decreases len - i,
        {
            out.push(self.data[i as usize]);
            i = i + 1;
            proof {
                assert(out@ =~= self.data@.subrange(start as int, i as int));
            }
        }
        proof {
            lemma_no_zero_prefix(self.data@, start as int, i as int);
        }
        if i == len {
            return Err(DecodeError::ShortRead);
        }
        self.pos = i + 1;
        Ok(out)
    }
}

} // verus!
