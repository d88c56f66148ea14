//! Binary stream primitives: sized reads, terminator-delimited reads,
//! fixed-content checks and position/size queries over an in-memory byte
//! source. The emitted parse procedures call these and nothing else.

use vstd::prelude::*;
use vstd::slice::slice_index_get;
use vstd::slice::slice_to_vec;

use crate::error::ParseError;

verus! {

/// The value of `n` bytes of `s` starting at `lo`, read as a little-endian
/// unsigned integer: the byte at `lo` is the least significant.
pub open spec fn le_seg(s: Seq<u8>, lo: int, n: int) -> nat
    recommends
        0 <= lo,
        lo + n <= s.len(),
    decreases n,
{
    if n <= 0 {
        0
    } else {
        (s[lo] as nat) + 256 * le_seg(s, lo + 1, n - 1)
    }
}

/// The value of `n` bytes of `s` starting at `lo`, read as a big-endian
/// unsigned integer: the byte at `lo` is the most significant.
pub open spec fn be_seg(s: Seq<u8>, lo: int, n: int) -> nat
    recommends
        0 <= lo,
        lo + n <= s.len(),
    decreases n,
{
    if n <= 0 {
        0
    } else {
        256 * be_seg(s, lo, n - 1) + (s[lo + n - 1] as nat)
    }
}

/// 256 to the power `n`: the number of values an `n`-byte field can hold.
pub open spec fn pow256(n: int) -> nat
    decreases n,
{
    if n <= 0 {
        1
    } else {
        256 * pow256(n - 1)
    }
}

/// The two's-complement reading of an `n`-byte unsigned value `v`.
pub open spec fn signed_of(v: nat, n: int) -> int {
    if v < pow256(n) / 2 {
        v as int
    } else {
        v as int - pow256(n)
    }
}

/// The concrete values of `pow256` for every supported field width.
pub proof fn lemma_pow256_vals()
    ensures
        pow256(0) == 1,
        pow256(1) == 0x100,
        pow256(2) == 0x10000,
        pow256(3) == 0x1000000,
        pow256(4) == 0x100000000,
        pow256(5) == 0x10000000000,
        pow256(6) == 0x1000000000000,
        pow256(7) == 0x100000000000000,
        pow256(8) == 0x10000000000000000,
{
    assert(pow256(0) == 1);
    assert(pow256(1) == 0x100);
    assert(pow256(2) == 0x10000);
    assert(pow256(3) == 0x1000000);
    assert(pow256(4) == 0x100000000);
    assert(pow256(5) == 0x10000000000);
    assert(pow256(6) == 0x1000000000000);
    assert(pow256(7) == 0x100000000000000);
    assert(pow256(8) == 0x10000000000000000);
}

/// The index of the first byte at or after `from` whose value equals the
/// code point of `term`; `s.len()` when there is none.
pub open spec fn first_term(s: Seq<u8>, from: int, term: char) -> int
    recommends
        0 <= from <= s.len(),
    decreases s.len() - from,
{
    if from < 0 || from >= s.len() {
        s.len() as int
    } else if s[from] as u32 == term as u32 {
        from
    } else {
        first_term(s, from + 1, term)
    }
}

/// Whether `r` failed with the end-of-stream error.
pub open spec fn is_eof_err<T>(r: Result<T, ParseError>) -> bool {
    r matches Err(e) && e is Eof
}

/// Whether `r` failed with a fixed-content mismatch carrying exactly the
/// bytes that were read and the bytes that were expected.
pub open spec fn is_contents_err<T>(
    r: Result<T, ParseError>,
    actual: Seq<u8>,
    expected: Seq<u8>,
) -> bool {
    r matches Err(e) && (e matches ParseError::UnexpectedContents { actual: a, expected: x }
        && a@ == actual && x@ == expected)
}

/// Flags for terminator-delimited reads: `append` puts the terminator byte
/// at the end of the returned bytes; `consume` advances the stream past the
/// terminator even when it is not appended.
#[derive(Copy, Clone, Eq, PartialEq, Structural, Debug, Default)]
pub struct TerminatorFlags {
    pub append: bool,
    pub consume: bool,
}

impl TerminatorFlags {
    /// Neither appends nor consumes the terminator.
    pub fn new() -> (f: Self)
        ensures
            f == (TerminatorFlags { append: false, consume: false }),
    {
        TerminatorFlags { append: false, consume: false }
    }

    /// Appends the terminator to the returned bytes.
    pub fn append() -> (f: Self)
        ensures
            f == (TerminatorFlags { append: true, consume: false }),
    {
        TerminatorFlags { append: true, consume: false }
    }

    /// Consumes the terminator without appending it.
    pub fn consume() -> (f: Self)
        ensures
            f == (TerminatorFlags { append: false, consume: true }),
    {
        TerminatorFlags { append: false, consume: true }
    }

    /// Appends and consumes the terminator.
    pub fn all() -> (f: Self)
        ensures
            f == (TerminatorFlags { append: true, consume: true }),
    {
        TerminatorFlags { append: true, consume: true }
    }
}

/// A seekable byte stream over an in-memory buffer: the byte sequence plus a
/// read cursor. All runtime reads of the emitted parsers go through it.
pub struct ByteStream {
    data: Vec<u8>,
    pos: usize,
}

impl ByteStream {
    /// The whole underlying byte sequence; reads never change it.
    pub closed spec fn bytes(self) -> Seq<u8> {
        self.data@
    }

    /// The read cursor, always between 0 and `bytes().len()`.
    pub closed spec fn position(self) -> int {
        self.pos as int
    }

    /// How many bytes are left between the cursor and the end.
    pub open spec fn remaining(self) -> int {
        self.bytes().len() - self.position()
    }

    #[verifier::type_invariant]
    pub closed spec fn inv(self) -> bool {
        self.pos <= self.data.len()
    }

    /// A fresh stream over `data`, cursor at the start.
    pub fn new(data: Vec<u8>) -> (s: Self)
        ensures
            s.bytes() == data@,
            s.position() == 0,
    {
        ByteStream { data, pos: 0 }
    }

    /// The position in the stream.
    pub fn pos(&self) -> (p: u64)
        ensures
            p == self.position(),
    {
        self.pos as u64
    }

    /// The size of the stream.
    pub fn size(&self) -> (n: u64)
        ensures
            n == self.bytes().len(),
    {
        self.data.len() as u64
    }

    /// Whether the cursor stands at the end of the stream.
    pub fn is_eof(&self) -> (b: bool)
        ensures
            b == (self.remaining() == 0),
    {
        proof {
            use_type_invariant(self);
        }
        self.pos >= self.data.len()
    }

    /// Moves the cursor to `p` from the start; out-of-bounds targets are
    /// rejected and leave the stream unchanged.
    pub fn seek_start(&mut self, p: u64) -> (r: Result<(), ParseError>)
        ensures
            final(self).bytes() == old(self).bytes(),
            p <= old(self).bytes().len() ==> r is Ok && final(self).position() == p,
            p > old(self).bytes().len() ==> r is Err && *final(self) == *old(self),
    {
        if p <= self.data.len() as u64 {
            self.pos = p as usize;
            Ok(())
        } else {
            Err(ParseError::SeekOutOfRange)
        }
    }

    /// Moves the cursor by `off` relative to its place; targets outside the
    /// stream are rejected and leave the stream unchanged.
    pub fn seek_current(&mut self, off: i64) -> (r: Result<(), ParseError>)
        ensures
            final(self).bytes() == old(self).bytes(),
            0 <= old(self).position() + off <= old(self).bytes().len() ==> r is Ok
                && final(self).position() == old(self).position() + off,
            !(0 <= old(self).position() + off <= old(self).bytes().len()) ==> r is Err
                && *final(self) == *old(self),
    {
        proof {
            use_type_invariant(&*self);
        }
        let target: i128 = self.pos as i128 + off as i128;
        if 0 <= target && target <= self.data.len() as i128 {
            self.pos = target as usize;
            Ok(())
        } else {
            Err(ParseError::SeekOutOfRange)
        }
    }

    /// Moves the cursor by `off` relative to the end of the stream; targets
    /// outside the stream are rejected and leave the stream unchanged.
    pub fn seek_end(&mut self, off: i64) -> (r: Result<(), ParseError>)
        ensures
            final(self).bytes() == old(self).bytes(),
            0 <= old(self).bytes().len() + off <= old(self).bytes().len() ==> r is Ok
                && final(self).position() == old(self).bytes().len() + off,
            !(0 <= old(self).bytes().len() + off <= old(self).bytes().len()) ==> r is Err
                && *final(self) == *old(self),
    {
        let target: i128 = self.data.len() as i128 + off as i128;
        if 0 <= target && target <= self.data.len() as i128 {
            self.pos = target as usize;
            Ok(())
        } else {
            Err(ParseError::SeekOutOfRange)
        }
    }

    /// Reads exactly `count` bytes and advances the cursor; fails with `Eof`
    /// and leaves the stream unchanged when fewer are left.
    pub fn read_bytes(&mut self, count: usize) -> (r: Result<Vec<u8>, ParseError>)
        ensures
            final(self).bytes() == old(self).bytes(),
            old(self).remaining() >= count ==> r is Ok && r->Ok_0@ == old(self).bytes().subrange(
                old(self).position(),
                old(self).position() + count,
            ) && final(self).position() == old(self).position() + count,
            old(self).remaining() < count ==> (r matches Err(e) && e is Eof
                && *final(self) == *old(self)),
    {
        proof {
            use_type_invariant(&*self);
        }
        let n = self.data.len();
        if count > n - self.pos {
            return Err(ParseError::Eof);
        }
        let ghost d = self.data@;
        let ghost p = self.pos as int;
        let mut out: Vec<u8> = Vec::new();
        let mut i: usize = 0;
        while i < count
            invariant
                i <= count,
                self.pos + count <= n,
                n == d.len(),
                p + count <= d.len(),
                self.data@ == d,
                self.pos == p,
                out@ == d.subrange(p, p + i),
            decreases count - i,
        {
            out.push(self.data[self.pos + i]);
            proof {
                assert(d.subrange(p, p + i + 1) =~= d.subrange(p, p + i).push(d[p + i]));
            }
            i = i + 1;
        }
        self.pos = self.pos + count;
        Ok(out)
    }

    /// Reads all bytes from the cursor to the end; always succeeds.
    pub fn read_bytes_full(&mut self) -> (r: Result<Vec<u8>, ParseError>)
        ensures
            final(self).bytes() == old(self).bytes(),
            r is Ok,
            r->Ok_0@ == old(self).bytes().subrange(
                old(self).position(),
                old(self).bytes().len() as int,
            ),
            final(self).position() == old(self).bytes().len(),
    {
        proof {
            use_type_invariant(&*self);
        }
        let n = self.data.len() - self.pos;
        self.read_bytes(n)
    }

    /// Reads bytes up to the first byte matching `term`. `flags.append` puts
    /// the terminator at the end of the result; `flags.consume` advances the
    /// cursor past the terminator even when it is not appended, and without
    /// it the cursor rests on the terminator. When no terminator is found
    /// the whole rest of the stream is scanned and the read fails naming the
    /// terminator sought.
    pub fn read_bytes_term(&mut self, term: char, flags: TerminatorFlags) -> (r: Result<
        Vec<u8>,
        ParseError,
    >)
        ensures
            final(self).bytes() == old(self).bytes(),
            first_term(old(self).bytes(), old(self).position(), term) == old(self).bytes().len()
                ==> (r matches Err(e) && e == (ParseError::EofBeforeTerminator { term })
                && final(self).position() == old(self).bytes().len()),
            first_term(old(self).bytes(), old(self).position(), term) < old(self).bytes().len()
                ==> r is Ok && r->Ok_0@ == old(self).bytes().subrange(
                old(self).position(),
                if flags.append {
                    first_term(old(self).bytes(), old(self).position(), term) + 1
                } else {
                    first_term(old(self).bytes(), old(self).position(), term)
                },
            ) && final(self).position() == (if flags.consume {
                first_term(old(self).bytes(), old(self).position(), term) + 1
            } else {
                first_term(old(self).bytes(), old(self).position(), term)
            }),
    {
        proof {
            use_type_invariant(&*self);
        }
        let ghost b = self.data@;
        let ghost p = self.pos as int;
        let n = self.data.len();
        let mut i: usize = self.pos;
        while i < n && (self.data[i] as u32) != (term as u32)
            invariant
                self.pos == p,
                self.data@ == b,
                n == b.len(),
                p <= i <= n,
                first_term(b, p, term) == first_term(b, i as int, term),
            decreases n - i,
        {
            proof {
                assert(first_term(b, i as int, term) == first_term(b, i + 1, term));
            }
            i = i + 1;
        }
        proof {
            assert(first_term(b, p, term) == i);
        }
        if i == n {
            self.pos = n;
            return Err(ParseError::EofBeforeTerminator { term });
        }
        let count = i - self.pos;
        if flags.append {
            let out = self.read_bytes(count + 1)?;
            if !flags.consume {
                self.pos = i;
            }
            Ok(out)
        } else {
            let out = self.read_bytes(count)?;
            if flags.consume {
                self.pos = self.pos + 1;
            }
            Ok(out)
        }
    }

    /// Reads exactly `expected.len()` bytes and checks them against
    /// `expected` byte for byte. A mismatch fails carrying both the actual
    /// and the expected bytes, with the cursor past the compared bytes so
    /// that the fault can be located; too short a stream fails with `Eof`
    /// and leaves the stream unchanged.
    pub fn ensure_fixed_contents(&mut self, expected: &[u8]) -> (r: Result<(), ParseError>)
        ensures
            final(self).bytes() == old(self).bytes(),
            old(self).remaining() < expected@.len() ==> (is_eof_err(r) && *final(self) == *old(
                self,
            )),
            old(self).remaining() >= expected@.len() ==> final(self).position() == old(
                self,
            ).position() + expected@.len(),
            old(self).remaining() >= expected@.len() && old(self).bytes().subrange(
                old(self).position(),
                old(self).position() + expected@.len(),
            ) == expected@ ==> r is Ok,
            old(self).remaining() >= expected@.len() && old(self).bytes().subrange(
                old(self).position(),
                old(self).position() + expected@.len(),
            ) != expected@ ==> is_contents_err(
                r,
                old(self).bytes().subrange(
                    old(self).position(),
                    old(self).position() + expected@.len(),
                ),
                expected@,
            ),
    {
        proof {
            use_type_invariant(&*self);
        }
        let m = expected.len();
        let n = self.data.len();
        if n - self.pos < m {
            return Err(ParseError::Eof);
        }
        let ghost d = self.data@;
        let ghost p = self.pos as int;
        let buf = match self.read_bytes(m) {
            Ok(v) => v,
            Err(_) => {
                return Err(ParseError::Eof);
            },
        };
        let mut i: usize = 0;
        while i < m
            invariant
                i <= m,
                d == old(self).bytes(),
                p == old(self).position(),
                p + m <= d.len(),
                self.data@ == d,
                self.pos == p + m,
                buf@ == d.subrange(p, p + m),
                buf@.len() == m,
                expected@.len() == m,
                forall|j: int| 0 <= j < i ==> buf@[j] == expected@[j],
            decreases m - i,
        {
            if buf[i] != *slice_index_get(expected, i) {
                return Err(
                    ParseError::UnexpectedContents {
                        actual: buf,
                        expected: slice_to_vec(expected),
                    },
                );
            }
            i = i + 1;
        }
        proof {
            assert(buf@ =~= expected@);
        }
        Ok(())
    }

    /// Reads `count` bytes as a little-endian unsigned value. The result is
    /// below `pow256(count)`.
    fn read_le_n(&mut self, count: usize) -> (r: Result<u64, ParseError>)
        requires
            count <= 8,
        ensures
            final(self).bytes() == old(self).bytes(),
            old(self).remaining() >= count ==> r is Ok && r->Ok_0 == le_seg(
                old(self).bytes(),
                old(self).position(),
                count as int,
            ) && r->Ok_0 < pow256(count as int) && final(self).position() == old(self).position()
                + count,
            old(self).remaining() < count ==> (is_eof_err(r) && *final(self) == *old(self)),
    {
        proof {
            use_type_invariant(&*self);
        }
        let n = self.data.len();
        if n - self.pos < count {
            return Err(ParseError::Eof);
        }
        let ghost d = self.data@;
        let ghost p = self.pos as int;
        let mut acc: u64 = 0;
        let mut i: usize = count;
        while i > 0
            invariant
                i <= count,
                count <= 8,
                self.data@ == d,
                self.pos == p,
                n == d.len(),
                self.pos + count <= n,
                acc == le_seg(d, p + i, (count - i) as int),
                acc < pow256((count - i) as int),
            decreases i,
        {
            i = i - 1;
            let bv = self.data[self.pos + i];
            proof {
                lemma_pow256_vals();
                lemma_pow256_mono((count - i - 1) as int, 7);
            }
            acc = (bv as u64) + 256 * acc;
        }
        self.pos = self.pos + count;
        proof {
            lemma_pow256_vals();
        }
        Ok(acc)
    }

    /// Reads `count` bytes as a big-endian unsigned value. The result is
    /// below `pow256(count)`.
    fn read_be_n(&mut self, count: usize) -> (r: Result<u64, ParseError>)
        requires
            count <= 8,
        ensures
            final(self).bytes() == old(self).bytes(),
            old(self).remaining() >= count ==> r is Ok && r->Ok_0 == be_seg(
                old(self).bytes(),
                old(self).position(),
                count as int,
            ) && r->Ok_0 < pow256(count as int) && final(self).position() == old(self).position()
                + count,
            old(self).remaining() < count ==> (is_eof_err(r) && *final(self) == *old(self)),
    {
        proof {
            use_type_invariant(&*self);
        }
        let n = self.data.len();
        if n - self.pos < count {
            return Err(ParseError::Eof);
        }
        let ghost d = self.data@;
        let ghost p = self.pos as int;
        let mut acc: u64 = 0;
        let mut i: usize = 0;
        while i < count
            invariant
                i <= count,
                count <= 8,
                self.data@ == d,
                self.pos == p,
                n == d.len(),
                self.pos + count <= n,
                acc == be_seg(d, p, i as int),
                acc < pow256(i as int),
            decreases count - i,
        {
            let bv = self.data[self.pos + i];
            proof {
                lemma_pow256_vals();
                lemma_pow256_mono(i as int, 7);
            }
            acc = 256 * acc + (bv as u64);
            i = i + 1;
        }
        self.pos = self.pos + count;
        proof {
            lemma_pow256_vals();
        }
        Ok(acc)
    }

    /// Reads one byte as an unsigned integer.
    pub fn read_u1(&mut self) -> (r: Result<u8, ParseError>)
        ensures
            final(self).bytes() == old(self).bytes(),
            old(self).remaining() >= 1 ==> r is Ok && r->Ok_0 == old(self).bytes()[old(
                self,
            ).position()] && final(self).position() == old(self).position() + 1,
            old(self).remaining() < 1 ==> (is_eof_err(r) && *final(self) == *old(self)),
    {
        proof {
            lemma_pow256_vals();
            assert(le_seg(old(self).bytes(), old(self).position() + 1, 0) == 0);
        }
        match self.read_le_n(1) {
            Ok(v) => Ok(v as u8),
            Err(e) => Err(e),
        }
    }

    /// Reads one byte as a signed integer (two's complement).
    pub fn read_s1(&mut self) -> (r: Result<i8, ParseError>)
        ensures
            final(self).bytes() == old(self).bytes(),
            old(self).remaining() >= 1 ==> r is Ok && r->Ok_0 == signed_of(
                old(self).bytes()[old(self).position()] as nat,
                1,
            ) && final(self).position() == old(self).position() + 1,
            old(self).remaining() < 1 ==> (is_eof_err(r) && *final(self) == *old(self)),
    {
        proof {
            lemma_pow256_vals();
        }
        match self.read_u1() {
            Ok(v) => {
                if v >= 0x80 {
                    Ok(-((0xffu8 - v) as i8) - 1)
                } else {
                    Ok(v as i8)
                }
            },
            Err(e) => Err(e),
        }
    }
    /// Reads a little-endian unsigned 2-byte integer.
    pub fn read_u2le(&mut self) -> (r: Result<u16, ParseError>)
        ensures
            final(self).bytes() == old(self).bytes(),
            old(self).remaining() >= 2 ==> r is Ok && r->Ok_0 == le_seg(
                old(self).bytes(),
                old(self).position(),
                2,
            ) && final(self).position() == old(self).position() + 2,
            old(self).remaining() < 2 ==> (is_eof_err(r) && *final(self) == *old(self)),
    {
        proof {
            lemma_pow256_vals();
        }
        match self.read_le_n(2) {
            Ok(v) => Ok(v as u16),
            Err(e) => Err(e),
        }
    }
    /// Reads a big-endian unsigned 2-byte integer.
    pub fn read_u2be(&mut self) -> (r: Result<u16, ParseError>)
        ensures
            final(self).bytes() == old(self).bytes(),
            old(self).remaining() >= 2 ==> r is Ok && r->Ok_0 == be_seg(
                old(self).bytes(),
                old(self).position(),
                2,
            ) && final(self).position() == old(self).position() + 2,
            old(self).remaining() < 2 ==> (is_eof_err(r) && *final(self) == *old(self)),
    {
        proof {
            lemma_pow256_vals();
        }
        match self.read_be_n(2) {
            Ok(v) => Ok(v as u16),
            Err(e) => Err(e),
        }
    }
    /// Reads a little-endian unsigned 4-byte integer.
    pub fn read_u4le(&mut self) -> (r: Result<u32, ParseError>)
        ensures
            final(self).bytes() == old(self).bytes(),
            old(self).remaining() >= 4 ==> r is Ok && r->Ok_0 == le_seg(
                old(self).bytes(),
                old(self).position(),
                4,
            ) && final(self).position() == old(self).position() + 4,
            old(self).remaining() < 4 ==> (is_eof_err(r) && *final(self) == *old(self)),
    {
        proof {
            lemma_pow256_vals();
        }
        match self.read_le_n(4) {
            Ok(v) => Ok(v as u32),
            Err(e) => Err(e),
        }
    }
    /// Reads a big-endian unsigned 4-byte integer.
    pub fn read_u4be(&mut self) -> (r: Result<u32, ParseError>)
        ensures
            final(self).bytes() == old(self).bytes(),
            old(self).remaining() >= 4 ==> r is Ok && r->Ok_0 == be_seg(
                old(self).bytes(),
                old(self).position(),
                4,
            ) && final(self).position() == old(self).position() + 4,
            old(self).remaining() < 4 ==> (is_eof_err(r) && *final(self) == *old(self)),
    {
        proof {
            lemma_pow256_vals();
        }
        match self.read_be_n(4) {
            Ok(v) => Ok(v as u32),
            Err(e) => Err(e),
        }
    }
    /// Reads a little-endian unsigned 8-byte integer.
    pub fn read_u8le(&mut self) -> (r: Result<u64, ParseError>)
        ensures
            final(self).bytes() == old(self).bytes(),
            old(self).remaining() >= 8 ==> r is Ok && r->Ok_0 == le_seg(
                old(self).bytes(),
                old(self).position(),
                8,
            ) && final(self).position() == old(self).position() + 8,
            old(self).remaining() < 8 ==> (is_eof_err(r) && *final(self) == *old(self)),
    {
        proof {
            lemma_pow256_vals();
        }
        match self.read_le_n(8) {
            Ok(v) => Ok(v),
            Err(e) => Err(e),
        }
    }
    /// Reads a big-endian unsigned 8-byte integer.
    pub fn read_u8be(&mut self) -> (r: Result<u64, ParseError>)
        ensures
            final(self).bytes() == old(self).bytes(),
            old(self).remaining() >= 8 ==> r is Ok && r->Ok_0 == be_seg(
                old(self).bytes(),
                old(self).position(),
                8,
            ) && final(self).position() == old(self).position() + 8,
            old(self).remaining() < 8 ==> (is_eof_err(r) && *final(self) == *old(self)),
    {
        proof {
            lemma_pow256_vals();
        }
        match self.read_be_n(8) {
            Ok(v) => Ok(v),
            Err(e) => Err(e),
        }
    }
    /// Reads a little-endian signed 2-byte integer (two's complement).
    pub fn read_s2le(&mut self) -> (r: Result<i16, ParseError>)
        ensures
            final(self).bytes() == old(self).bytes(),
            old(self).remaining() >= 2 ==> r is Ok && r->Ok_0 == signed_of(
                le_seg(old(self).bytes(), old(self).position(), 2),
                2,
            ) && final(self).position() == old(self).position() + 2,
            old(self).remaining() < 2 ==> (is_eof_err(r) && *final(self) == *old(self)),
    {
        proof {
            lemma_pow256_vals();
        }
        match self.read_u2le() {
            Ok(v) => {
                if v >= 0x8000 {
                    Ok(-((0xffffu16 - v) as i16) - 1)
                } else {
                    Ok(v as i16)
                }
            },
            Err(e) => Err(e),
        }
    }
    /// Reads a big-endian signed 2-byte integer (two's complement).
    pub fn read_s2be(&mut self) -> (r: Result<i16, ParseError>)
        ensures
            final(self).bytes() == old(self).bytes(),
            old(self).remaining() >= 2 ==> r is Ok && r->Ok_0 == signed_of(
                be_seg(old(self).bytes(), old(self).position(), 2),
                2,
            ) && final(self).position() == old(self).position() + 2,
            old(self).remaining() < 2 ==> (is_eof_err(r) && *final(self) == *old(self)),
    {
        proof {
            lemma_pow256_vals();
        }
        match self.read_u2be() {
            Ok(v) => {
                if v >= 0x8000 {
                    Ok(-((0xffffu16 - v) as i16) - 1)
                } else {
                    Ok(v as i16)
                }
            },
            Err(e) => Err(e),
        }
    }
    /// Reads a little-endian signed 4-byte integer (two's complement).
    pub fn read_s4le(&mut self) -> (r: Result<i32, ParseError>)
        ensures
            final(self).bytes() == old(self).bytes(),
            old(self).remaining() >= 4 ==> r is Ok && r->Ok_0 == signed_of(
                le_seg(old(self).bytes(), old(self).position(), 4),
                4,
            ) && final(self).position() == old(self).position() + 4,
            old(self).remaining() < 4 ==> (is_eof_err(r) && *final(self) == *old(self)),
    {
        proof {
            lemma_pow256_vals();
        }
        match self.read_u4le() {
            Ok(v) => {
                if v >= 0x8000_0000 {
                    Ok(-((0xffff_ffffu32 - v) as i32) - 1)
                } else {
                    Ok(v as i32)
                }
            },
            Err(e) => Err(e),
        }
    }
    /// Reads a big-endian signed 4-byte integer (two's complement).
    pub fn read_s4be(&mut self) -> (r: Result<i32, ParseError>)
        ensures
            final(self).bytes() == old(self).bytes(),
            old(self).remaining() >= 4 ==> r is Ok && r->Ok_0 == signed_of(
                be_seg(old(self).bytes(), old(self).position(), 4),
                4,
            ) && final(self).position() == old(self).position() + 4,
            old(self).remaining() < 4 ==> (is_eof_err(r) && *final(self) == *old(self)),
    {
        proof {
            lemma_pow256_vals();
        }
        match self.read_u4be() {
            Ok(v) => {
                if v >= 0x8000_0000 {
                    Ok(-((0xffff_ffffu32 - v) as i32) - 1)
                } else {
                    Ok(v as i32)
                }
            },
            Err(e) => Err(e),
        }
    }
    /// Reads a little-endian signed 8-byte integer (two's complement).
    pub fn read_s8le(&mut self) -> (r: Result<i64, ParseError>)
        ensures
            final(self).bytes() == old(self).bytes(),
            old(self).remaining() >= 8 ==> r is Ok && r->Ok_0 == signed_of(
                le_seg(old(self).bytes(), old(self).position(), 8),
                8,
            ) && final(self).position() == old(self).position() + 8,
            old(self).remaining() < 8 ==> (is_eof_err(r) && *final(self) == *old(self)),
    {
        proof {
            lemma_pow256_vals();
        }
        match self.read_u8le() {
            Ok(v) => {
                if v >= 0x8000_0000_0000_0000 {
                    Ok(-((0xffff_ffff_ffff_ffffu64 - v) as i64) - 1)
                } else {
                    Ok(v as i64)
                }
            },
            Err(e) => Err(e),
        }
    }
    /// Reads a big-endian signed 8-byte integer (two's complement).
    pub fn read_s8be(&mut self) -> (r: Result<i64, ParseError>)
        ensures
            final(self).bytes() == old(self).bytes(),
            old(self).remaining() >= 8 ==> r is Ok && r->Ok_0 == signed_of(
                be_seg(old(self).bytes(), old(self).position(), 8),
                8,
            ) && final(self).position() == old(self).position() + 8,
            old(self).remaining() < 8 ==> (is_eof_err(r) && *final(self) == *old(self)),
    {
        proof {
            lemma_pow256_vals();
        }
        match self.read_u8be() {
            Ok(v) => {
                if v >= 0x8000_0000_0000_0000 {
                    Ok(-((0xffff_ffff_ffff_ffffu64 - v) as i64) - 1)
                } else {
                    Ok(v as i64)
                }
            },
            Err(e) => Err(e),
        }
    }
    /// Reads the raw bits of a little-endian 4-byte float. The
    /// caller reinterprets the bits; no float arithmetic happens here.
    pub fn read_f4le_bits(&mut self) -> (r: Result<u32, ParseError>)
        ensures
            final(self).bytes() == old(self).bytes(),
            old(self).remaining() >= 4 ==> r is Ok && r->Ok_0 == le_seg(
                old(self).bytes(),
                old(self).position(),
                4,
            ) && final(self).position() == old(self).position() + 4,
            old(self).remaining() < 4 ==> (is_eof_err(r) && *final(self) == *old(self)),
    {
        self.read_u4le()
    }
    /// Reads the raw bits of a big-endian 4-byte float. The
    /// caller reinterprets the bits; no float arithmetic happens here.
    pub fn read_f4be_bits(&mut self) -> (r: Result<u32, ParseError>)
        ensures
            final(self).bytes() == old(self).bytes(),
            old(self).remaining() >= 4 ==> r is Ok && r->Ok_0 == be_seg(
                old(self).bytes(),
                old(self).position(),
                4,
            ) && final(self).position() == old(self).position() + 4,
            old(self).remaining() < 4 ==> (is_eof_err(r) && *final(self) == *old(self)),
    {
        self.read_u4be()
    }
    /// Reads the raw bits of a little-endian 8-byte float. The
    /// caller reinterprets the bits; no float arithmetic happens here.
    pub fn read_f8le_bits(&mut self) -> (r: Result<u64, ParseError>)
        ensures
            final(self).bytes() == old(self).bytes(),
            old(self).remaining() >= 8 ==> r is Ok && r->Ok_0 == le_seg(
                old(self).bytes(),
                old(self).position(),
                8,
            ) && final(self).position() == old(self).position() + 8,
            old(self).remaining() < 8 ==> (is_eof_err(r) && *final(self) == *old(self)),
    {
        self.read_u8le()
    }
    /// Reads the raw bits of a big-endian 8-byte float. The
    /// caller reinterprets the bits; no float arithmetic happens here.
    pub fn read_f8be_bits(&mut self) -> (r: Result<u64, ParseError>)
        ensures
            final(self).bytes() == old(self).bytes(),
            old(self).remaining() >= 8 ==> r is Ok && r->Ok_0 == be_seg(
                old(self).bytes(),
                old(self).position(),
                8,
            ) && final(self).position() == old(self).position() + 8,
            old(self).remaining() < 8 ==> (is_eof_err(r) && *final(self) == *old(self)),
    {
        self.read_u8be()
    }
}

/// The cursor of a well-formed stream never passes the end of its data.
pub proof fn lemma_stream_bounds(s: ByteStream)
    requires
        s.inv(),
    ensures
        0 <= s.position() <= s.bytes().len(),
{
}

/// The little-endian encoding of `v` in `n` bytes, least significant
/// first.
pub open spec fn le_bytes_of(v: nat, n: int) -> Seq<u8>
    decreases n,
{
    if n <= 0 {
        Seq::empty()
    } else {
        seq![(v % 256) as u8] + le_bytes_of(v / 256, n - 1)
    }
}

/// Round trip of the little-endian encoding: any value below the width's
/// bound, written as its `n` little-endian bytes anywhere in a stream,
/// reads back as exactly that value.
pub proof fn lemma_le_round_trip(s: Seq<u8>, lo: int, v: nat, n: int)
    requires
        0 <= lo,
        0 <= n,
        lo + n <= s.len(),
        v < pow256(n),
        s.subrange(lo, lo + n) == le_bytes_of(v, n),
    ensures
        le_seg(s, lo, n) == v,
    decreases n,
{
    if n <= 0 {
        assert(pow256(0) == 1);
    } else {
        let enc = le_bytes_of(v, n);
        assert(s.subrange(lo, lo + n)[0] == s[lo]);
        assert(enc[0] == (v % 256) as u8);
        assert(s.subrange(lo + 1, lo + n) =~= s.subrange(lo, lo + n).drop_first());
        assert(enc.drop_first() =~= le_bytes_of(v / 256, n - 1));
        assert(v / 256 < pow256(n - 1)) by (nonlinear_arith)
            requires
                v < pow256(n),
                pow256(n) == 256 * pow256(n - 1),
        {
        }
        lemma_le_round_trip(s, lo + 1, v / 256, n - 1);
        assert(v == 256 * (v / 256) + v % 256);
    }
}

/// The big-endian encoding of `v` in `n` bytes, most significant first.
pub open spec fn be_bytes_of(v: nat, n: int) -> Seq<u8>
    decreases n,
{
    if n <= 0 {
        Seq::empty()
    } else {
        be_bytes_of(v / 256, n - 1) + seq![(v % 256) as u8]
    }
}

/// Round trip of the big-endian encoding: any value below the width's
/// bound, written as its `n` big-endian bytes anywhere in a stream, reads
/// back as exactly that value.
pub proof fn lemma_be_round_trip(s: Seq<u8>, lo: int, v: nat, n: int)
    requires
        0 <= lo,
        0 <= n,
        lo + n <= s.len(),
        v < pow256(n),
        s.subrange(lo, lo + n) == be_bytes_of(v, n),
    ensures
        be_seg(s, lo, n) == v,
    decreases n,
{
    if n <= 0 {
        assert(pow256(0) == 1);
    } else {
        let enc = be_bytes_of(v, n);
        assert(enc.len() == n) by {
            lemma_be_bytes_len(v, n);
        }
        assert(s.subrange(lo, lo + n)[n - 1] == s[lo + n - 1]);
        assert(enc[n - 1] == (v % 256) as u8);
        assert(s.subrange(lo, lo + n - 1) =~= s.subrange(lo, lo + n).take(n - 1));
        assert(enc.take(n - 1) =~= be_bytes_of(v / 256, n - 1)) by {
            lemma_be_bytes_len(v / 256, n - 1);
        }
        assert(v / 256 < pow256(n - 1)) by (nonlinear_arith)
            requires
                v < pow256(n),
                pow256(n) == 256 * pow256(n - 1),
        {
        }
        lemma_be_round_trip(s, lo, v / 256, n - 1);
        assert(v == 256 * (v / 256) + v % 256);
    }
}

/// A big-endian encoding spans exactly its width.
pub proof fn lemma_be_bytes_len(v: nat, n: int)
    ensures
        be_bytes_of(v, n).len() == (if n <= 0 {
            0int
        } else {
            n
        }),
    decreases n,
{
    if n > 0 {
        lemma_be_bytes_len(v / 256, n - 1);
    }
}

/// Chaining fixed-content checks: checking `e1` from position `p` and then
/// `e2` from the advanced position covers consecutive, disjoint byte
/// ranges, and the two checks pass exactly when one check of `e1 + e2`
/// from `p` would.
pub proof fn lemma_fixed_contents_chain(b: Seq<u8>, p: int, e1: Seq<u8>, e2: Seq<u8>)
    requires
        0 <= p,
        p + e1.len() + e2.len() <= b.len(),
    ensures
        (b.subrange(p, p + e1.len()) == e1 && b.subrange(
            p + e1.len(),
            p + e1.len() + e2.len(),
        ) == e2) <==> b.subrange(p, p + e1.len() + e2.len()) == e1 + e2,
{
    let l1 = e1.len() as int;
    let l2 = e2.len() as int;
    assert(b.subrange(p, p + l1 + l2) =~= b.subrange(p, p + l1) + b.subrange(p + l1, p + l1 + l2));
    if b.subrange(p, p + l1 + l2) == e1 + e2 {
        assert forall|i: int| 0 <= i < l1 implies b.subrange(p, p + l1)[i] == e1[i] by {
            assert(b.subrange(p, p + l1 + l2)[i] == (e1 + e2)[i]);
        }
        assert(b.subrange(p, p + l1) =~= e1);
        assert forall|i: int| 0 <= i < l2 implies b.subrange(p + l1, p + l1 + l2)[i] == e2[i] by {
            assert(b.subrange(p, p + l1 + l2)[l1 + i] == (e1 + e2)[l1 + i]);
        }
        assert(b.subrange(p + l1, p + l1 + l2) =~= e2);
    }
}

/// `pow256` grows with its argument.
pub proof fn lemma_pow256_mono(a: int, b: int)
    requires
        a <= b,
    ensures
        pow256(a) <= pow256(b),
    decreases b - a,
{
    if a < b {
        lemma_pow256_mono(a, b - 1);
        if b > 0 {
            assert(pow256(b) == 256 * pow256(b - 1));
        }
    }
}

} // verus!
