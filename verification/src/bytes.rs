//! Little-endian integers and zero padding: the byte-level vocabulary of the
//! save-data formats.

use byteorder::{ByteOrder, LittleEndian};
use vstd::prelude::*;

verus! {

/// The two bytes of `x`, least significant first.
pub open spec fn u16_le(x: u16) -> Seq<u8> {
    seq![(x % 0x100) as u8, (x / 0x100) as u8]
}

/// The four bytes of `x`, least significant first.
pub open spec fn u32_le(x: u32) -> Seq<u8> {
    seq![
        (x % 0x100) as u8,
        (x / 0x100 % 0x100) as u8,
        (x / 0x1_0000 % 0x100) as u8,
        (x / 0x100_0000) as u8,
    ]
}

/// The number that two bytes stand for, read least significant first.
pub open spec fn le_value16(b0: u8, b1: u8) -> u16 {
    (b0 + 0x100 * b1) as u16
}

/// The number that four bytes stand for, read least significant first.
pub open spec fn le_value32(b0: u8, b1: u8, b2: u8, b3: u8) -> u32 {
    (b0 + 0x100 * b1 + 0x1_0000 * b2 + 0x100_0000 * b3) as u32
}

/// The 16-bit number stored at `pos` in `s`.
pub open spec fn u16_at(s: Seq<u8>, pos: int) -> u16 {
    le_value16(s[pos], s[pos + 1])
}

/// The 32-bit number stored at `pos` in `s`.
pub open spec fn u32_at(s: Seq<u8>, pos: int) -> u32 {
    le_value32(s[pos], s[pos + 1], s[pos + 2], s[pos + 3])
}

/// `n` zero bytes.
pub open spec fn zeros(n: nat) -> Seq<u8> {
    Seq::new(n, |i: int| 0u8)
}

/// `s`, followed by as many zero bytes as it takes to make it `width` long;
/// a longer `s` is left as it is.
pub open spec fn zero_padded(s: Seq<u8>, width: nat) -> Seq<u8> {
    if s.len() < width {
        s + zeros((width - s.len()) as nat)
    } else {
        s
    }
}

/// Reading back the bytes of a 16-bit number gives the number.
pub proof fn lemma_u16_le_roundtrip(x: u16)
    ensures
        u16_le(x).len() == 2,
        le_value16(u16_le(x)[0], u16_le(x)[1]) == x,
{
    let b0 = (x % 0x100) as u8;
    let b1 = (x / 0x100) as u8;
    assert(b0 + 0x100 * b1 == x) by (nonlinear_arith)
        requires
            b0 == x % 0x100,
            b1 == x / 0x100,
    ;
}

/// Reading back the bytes of a 32-bit number gives the number.
pub proof fn lemma_u32_le_roundtrip(x: u32)
    ensures
        u32_le(x).len() == 4,
        le_value32(u32_le(x)[0], u32_le(x)[1], u32_le(x)[2], u32_le(x)[3]) == x,
{
    let b0 = (x % 0x100) as u8;
    let b1 = (x / 0x100 % 0x100) as u8;
    let b2 = (x / 0x1_0000 % 0x100) as u8;
    let b3 = (x / 0x100_0000) as u8;
    assert(b0 + 0x100 * b1 + 0x1_0000 * b2 + 0x100_0000 * b3 == x) by (nonlinear_arith)
        requires
            b0 == x % 0x100,
            b1 == x / 0x100 % 0x100,
            b2 == x / 0x1_0000 % 0x100,
            b3 == x / 0x100_0000,
            x < 0x1_0000_0000,
    ;
}

/// `byteorder`'s `LittleEndian::read_u16` on the two bytes at `pos`: it
/// assembles them least significant first.
#[verifier::external_body]
pub(crate) fn le_u16_at(buf: &[u8], pos: usize) -> (v: u16)
    requires
        pos + 2 <= buf@.len(),
    ensures
        v == u16_at(buf@, pos as int),
{
    LittleEndian::read_u16(&buf[pos..])
}

/// `byteorder`'s `LittleEndian::read_u32` on the four bytes at `pos`: it
/// assembles them least significant first.
#[verifier::external_body]
pub(crate) fn le_u32_at(buf: &[u8], pos: usize) -> (v: u32)
    requires
        pos + 4 <= buf@.len(),
    ensures
        v == u32_at(buf@, pos as int),
{
    LittleEndian::read_u32(&buf[pos..])
}

/// Appends the two bytes of `x`, least significant first.
pub fn push_u16_le(out: &mut Vec<u8>, x: u16)
    ensures
        final(out)@ == old(out)@ + u16_le(x),
{
    let b0 = (x & 0xff) as u8;
    let b1 = (x >> 8) as u8;
    assert(b0 == (x % 0x100) as u8 && b1 == (x / 0x100) as u8) by (bit_vector)
        requires
            b0 == (x & 0xff) as u8,
            b1 == (x >> 8) as u8,
    ;
    out.push(b0);
    out.push(b1);
}

/// Appends the four bytes of `x`, least significant first.
pub fn push_u32_le(out: &mut Vec<u8>, x: u32)
    ensures
        final(out)@ == old(out)@ + u32_le(x),
{
    let b0 = (x & 0xff) as u8;
    let b1 = ((x >> 8) & 0xff) as u8;
    let b2 = ((x >> 16) & 0xff) as u8;
    let b3 = (x >> 24) as u8;
    assert(b0 == (x % 0x100) as u8 && b1 == (x / 0x100 % 0x100) as u8 && b2 == (x / 0x1_0000
        % 0x100) as u8 && b3 == (x / 0x100_0000) as u8) by (bit_vector)
        requires
            b0 == (x & 0xff) as u8,
            b1 == ((x >> 8) & 0xff) as u8,
            b2 == ((x >> 16) & 0xff) as u8,
            b3 == (x >> 24) as u8,
    ;
    out.push(b0);
    out.push(b1);
    out.push(b2);
    out.push(b3);
}

/// Appends `n` zero bytes.
pub fn push_zeros(out: &mut Vec<u8>, n: usize)
    ensures
        final(out)@ == old(out)@ + zeros(n as nat),
{
    let mut i: usize = 0;
    while i < n
        invariant
            i <= n,
            out@ == old(out)@ + zeros(i as nat),
        decreases n - i,
    {
        out.push(0u8);
        i = i + 1;
        assert(out@ =~= old(out)@ + zeros(i as nat));
    }
}

/// Appends the bytes of `src`.
pub fn push_bytes(out: &mut Vec<u8>, src: &[u8])
    ensures
        final(out)@ == old(out)@ + src@,
{
    let mut i: usize = 0;
    while i < src.len()
        invariant
            i <= src@.len(),
            out@ == old(out)@ + src@.take(i as int),
        decreases src@.len() - i,
    {
        out.push(src[i]);
        i = i + 1;
        assert(out@ =~= old(out)@ + src@.take(i as int));
    }
    assert(src@.take(src@.len() as int) =~= src@);
}

/// Appends the bytes of `src`, then zero bytes up to `width` bytes in all;
/// a longer `src` is appended whole.
pub fn push_zero_padded(out: &mut Vec<u8>, src: &[u8], width: usize)
    ensures
        final(out)@ == old(out)@ + zero_padded(src@, width as nat),
{
    push_bytes(out, src);
    if src.len() < width {
        push_zeros(out, width - src.len());
        assert(out@ =~= old(out)@ + zero_padded(src@, width as nat));
    }
}

/// A copy of the `len` bytes at `pos`.
pub fn copy_range(buf: &[u8], pos: usize, len: usize) -> (out: Vec<u8>)
    requires
        pos + len <= buf@.len(),
    ensures
        out@ == buf@.subrange(pos as int, pos + len),
{
    let mut out: Vec<u8> = Vec::new();
    let n = buf.len();
    let mut i: usize = 0;
    while i < len
        invariant
            i <= len,
            n == buf@.len(),
            pos + len <= buf@.len(),
            out@ == buf@.subrange(pos as int, pos + i),
        decreases len - i,
    {
        out.push(buf[pos + i]);
        i = i + 1;
        assert(out@ =~= buf@.subrange(pos as int, pos + i));
    }
    out
}

/// `std::io::Error`, the error of the I/O-style results that reading and
/// writing give.
#[verifier::external_type_specification]
#[verifier::external_body]
pub struct ExIoError(std::io::Error);

/// The kinds of `std::io::Error` (`std::io::ErrorKind`) that this library
/// tells apart: the two it produces, and all the others.
#[derive(Clone, Copy, Debug)]
pub enum IoErrorKind {
    UnexpectedEof,
    InvalidInput,
    OtherKind,
}

/// The kind that `std::io::Error::kind` reports of `e`, sorted into the
/// classes of `IoErrorKind`.
pub uninterp spec fn io_error_kind(e: std::io::Error) -> IoErrorKind;

/// `std::io::Error::from(ErrorKind::UnexpectedEof)`: the error of a read
/// past the end of the input. An error made from a kind reports that kind
/// (documented for `From<ErrorKind>`); nothing else is stated of it.
#[verifier::external_body]
pub(crate) fn end_of_input_error() -> (e: std::io::Error)
    ensures
        io_error_kind(e) == IoErrorKind::UnexpectedEof,
{
    std::io::Error::from(std::io::ErrorKind::UnexpectedEof)
}

/// A read position over bytes. Each read takes bytes from the position on
/// and moves past them; a read that finds too few bytes fails with an
/// end-of-input error and leaves the position at the end of the bytes.
pub struct ByteCursor {
    pub bytes: Vec<u8>,
    pub pos: usize,
}

impl ByteCursor {
    /// At least `n` bytes remain after the position.
    pub open spec fn has_left(&self, n: nat) -> bool {
        self.pos + n <= self.bytes@.len()
    }

    /// What a read leaves behind: the same bytes, and the position moved
    /// past `n` bytes when they were there, else at the end (the read then
    /// fails with an end-of-input error).
    pub open spec fn moved(&self, next: &ByteCursor, n: nat, ok: bool) -> bool {
        &&& next.bytes@ == self.bytes@
        &&& ok <==> self.has_left(n)
        &&& ok ==> next.pos == self.pos + n
        &&& !ok ==> next.pos == self.bytes@.len()
    }

    /// A cursor at the start of `bytes`.
    pub fn new(bytes: Vec<u8>) -> (c: Self)
        ensures
            c.bytes@ == bytes@,
            c.pos == 0,
    {
        ByteCursor { bytes, pos: 0 }
    }

    fn left(&self, n: usize) -> (b: bool)
        ensures
            b == self.has_left(n as nat),
            self.bytes@.len() <= usize::MAX,
    {
        let len = self.bytes.len();
        self.pos <= len && len - self.pos >= n
    }

    /// Reads one byte.
    pub fn read_u8(&mut self) -> (r: Result<u8, std::io::Error>)
        ensures
            old(self).moved(final(self), 1, r is Ok),
            r matches Err(e) ==> io_error_kind(e) == IoErrorKind::UnexpectedEof,
            r matches Ok(v) ==> v == old(self).bytes@[old(self).pos as int],
    {
        if self.left(1) {
            let v = self.bytes[self.pos];
            self.pos = self.pos + 1;
            Ok(v)
        } else {
            self.pos = self.bytes.len();
            Err(end_of_input_error())
        }
    }

    /// Reads a 16-bit number, least significant byte first.
    pub fn read_u16_le(&mut self) -> (r: Result<u16, std::io::Error>)
        ensures
            old(self).moved(final(self), 2, r is Ok),
            r matches Err(e) ==> io_error_kind(e) == IoErrorKind::UnexpectedEof,
            r matches Ok(v) ==> v == u16_at(old(self).bytes@, old(self).pos as int),
    {
        if self.left(2) {
            let v = le_u16_at(self.bytes.as_slice(), self.pos);
            self.pos = self.pos + 2;
            Ok(v)
        } else {
            self.pos = self.bytes.len();
            Err(end_of_input_error())
        }
    }

    /// Reads a 32-bit number, least significant byte first.
    pub fn read_u32_le(&mut self) -> (r: Result<u32, std::io::Error>)
        ensures
            old(self).moved(final(self), 4, r is Ok),
            r matches Err(e) ==> io_error_kind(e) == IoErrorKind::UnexpectedEof,
            r matches Ok(v) ==> v == u32_at(old(self).bytes@, old(self).pos as int),
    {
        if self.left(4) {
            let v = le_u32_at(self.bytes.as_slice(), self.pos);
            self.pos = self.pos + 4;
            Ok(v)
        } else {
            self.pos = self.bytes.len();
            Err(end_of_input_error())
        }
    }

    /// Reads `n` bytes.
    pub fn read_exact(&mut self, n: usize) -> (r: Result<Vec<u8>, std::io::Error>)
        ensures
            old(self).moved(final(self), n as nat, r is Ok),
            r matches Err(e) ==> io_error_kind(e) == IoErrorKind::UnexpectedEof,
            r matches Ok(v) ==> v@ == old(self).bytes@.subrange(
                old(self).pos as int,
                old(self).pos + n,
            ),
    {
        if self.left(n) {
            let v = copy_range(self.bytes.as_slice(), self.pos, n);
            self.pos = self.pos + n;
            Ok(v)
        } else {
            self.pos = self.bytes.len();
            Err(end_of_input_error())
        }
    }
}

} // verus!
