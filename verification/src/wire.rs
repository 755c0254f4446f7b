//! Integers and texts as bytes on the wire, a cursor that reads them and the
//! functions that append them.
//!
//! Command fields are little-endian; the datagram header is big-endian.
//! The byte order itself comes from the `byteorder` crate.

use crate::error::{NetError, NetFault};
use crate::text::{string_from_utf8, utf8_error_text};
use byteorder::{BigEndian, ByteOrder, LittleEndian};
use vstd::prelude::*;
use vstd::slice::slice_to_vec;
use vstd::utf8::{decode_utf8, encode_utf8, valid_utf8};

verus! {

/// The unsigned number whose little-endian image starts `s`.
pub open spec fn le_u16(s: Seq<u8>) -> int {
    s[0] as int + 256 * (s[1] as int)
}

/// The unsigned number whose little-endian image starts `s`.
pub open spec fn le_u32(s: Seq<u8>) -> int {
    s[0] as int + 256 * (s[1] as int) + 65536 * (s[2] as int) + 16777216 * (s[3] as int)
}

/// The unsigned number whose big-endian image starts `s`.
pub open spec fn be_u16(s: Seq<u8>) -> int {
    256 * (s[0] as int) + s[1] as int
}

/// The unsigned number whose big-endian image starts `s`.
pub open spec fn be_u32(s: Seq<u8>) -> int {
    16777216 * (s[0] as int) + 65536 * (s[1] as int) + 256 * (s[2] as int) + s[3] as int
}

/// An unsigned 8-bit pattern read as two's complement.
pub open spec fn signed8(v: int) -> int {
    if v >= 128 {
        v - 256
    } else {
        v
    }
}

/// An unsigned 16-bit pattern read as two's complement.
pub open spec fn signed16(v: int) -> int {
    if v >= 32768 {
        v - 65536
    } else {
        v
    }
}

/// An unsigned 32-bit pattern read as two's complement.
pub open spec fn signed32(v: int) -> int {
    if v >= 2147483648 {
        v - 4294967296
    } else {
        v
    }
}

/// The low eight bits of `v`, two's complement for a negative `v`.
pub open spec fn low_byte(v: int) -> u8 {
    (v % 256) as u8
}

/// The two low bytes of `v`, least significant first.
pub open spec fn le_bytes16(v: int) -> Seq<u8> {
    seq![low_byte(v), low_byte(v / 256)]
}

/// The four low bytes of `v`, least significant first.
pub open spec fn le_bytes32(v: int) -> Seq<u8> {
    seq![low_byte(v), low_byte(v / 256), low_byte(v / 65536), low_byte(v / 16777216)]
}

/// The two low bytes of `v`, most significant first.
pub open spec fn be_bytes16(v: int) -> Seq<u8> {
    seq![low_byte(v / 256), low_byte(v)]
}

/// The four low bytes of `v`, most significant first.
pub open spec fn be_bytes32(v: int) -> Seq<u8> {
    seq![low_byte(v / 16777216), low_byte(v / 65536), low_byte(v / 256), low_byte(v)]
}

/// Number of bytes before the first zero byte of `s`; its length if it holds
/// none.
pub open spec fn text_len(s: Seq<u8>) -> int
    decreases s.len(),
{
    if s.len() == 0 || s[0] == 0 {
        0
    } else {
        1 + text_len(s.skip(1))
    }
}

/// A text as the wire carries it: its UTF-8 bytes and a closing zero byte.
pub open spec fn cstring_bytes(text: Seq<char>) -> Seq<u8> {
    encode_utf8(text).push(0u8)
}

/// A text that the wire can carry and give back: none of its bytes is zero.
pub open spec fn text_ok(text: Seq<char>) -> bool {
    !encode_utf8(text).contains(0u8)
}

/// The error for a field that the input ends in the middle of.
pub open spec fn truncated() -> NetFault {
    NetFault::InvalidData("failed to fill whole buffer"@)
}

/// The error for a text that the input ends before the terminator of.
pub open spec fn unterminated() -> NetFault {
    NetFault::InvalidData("unterminated string"@)
}

/// What reading a text from the start of `s` gives: the text and the number
/// of bytes it took, terminator included.
pub open spec fn take_cstring(s: Seq<u8>) -> Result<(Seq<char>, int), NetFault> {
    let n = text_len(s);
    if n >= s.len() {
        Err(unterminated())
    } else if !valid_utf8(s.take(n)) {
        Err(NetFault::Other(utf8_error_text(s.take(n))))
    } else {
        Ok((decode_utf8(s.take(n)), n + 1))
    }
}

/// `text_len` is the place of the first zero byte.
pub proof fn lemma_text_len(s: Seq<u8>)
    ensures
        0 <= text_len(s) <= s.len(),
        forall|i: int| 0 <= i < text_len(s) ==> s[i] != 0,
        text_len(s) < s.len() ==> s[text_len(s)] == 0,
    decreases s.len(),
{
    if s.len() == 0 || s[0] == 0 {
    } else {
        let tail = s.skip(1);
        lemma_text_len(tail);
        assert forall|i: int| 0 <= i < text_len(s) implies s[i] != 0 by {
            if i > 0 {
                assert(tail[i - 1] == s[i]);
            }
        }
        if text_len(s) < s.len() {
            assert(tail[text_len(tail)] == s[text_len(s)]);
        }
    }
}

/// A zero byte at `n` with none before it fixes `text_len`; so does a
/// sequence of `n` bytes without any zero.
pub proof fn lemma_text_len_is(s: Seq<u8>, n: int)
    requires
        0 <= n <= s.len(),
        forall|i: int| 0 <= i < n ==> s[i] != 0,
        n < s.len() ==> s[n] == 0,
    ensures
        text_len(s) == n,
{
    lemma_text_len(s);
    let m = text_len(s);
    if m < n {
        assert(s[m] == 0);
    } else if m > n {
        assert(s[n] == 0);
    }
}

/// Reading gives back a text that was written, whatever follows it.
pub proof fn lemma_cstring_round_trip(text: Seq<char>, rest: Seq<u8>)
    requires
        text_ok(text),
    ensures
        take_cstring(cstring_bytes(text) + rest) == Ok::<(Seq<char>, int), NetFault>(
            (text, cstring_bytes(text).len() as int),
        ),
{
    let body = encode_utf8(text);
    let s = cstring_bytes(text) + rest;
    let n = body.len() as int;
    assert forall|i: int| 0 <= i < n implies s[i] != 0 by {
        assert(s[i] == body[i]);
        assert(body.contains(body[i]));
    }
    assert(s[n] == 0);
    lemma_text_len_is(s, n);
    assert(s.take(n) =~= body);
    vstd::utf8::encode_utf8_valid_utf8(text);
    vstd::utf8::encode_utf8_decode_utf8(text);
}

/// A number below 2^32 is the sum of its four base-256 digits.
proof fn lemma_digits32(v: int)
    requires
        0 <= v < 4294967296,
    ensures
        v == v % 256 + 256 * ((v / 256) % 256) + 65536 * ((v / 65536) % 256) + 16777216 * ((v
            / 16777216) % 256),
{
    let q1 = v / 256;
    let q2 = q1 / 256;
    let q3 = q2 / 256;
    assert(q2 == v / 65536);
    assert(q3 == v / 16777216) by {
        assert(q3 == q1 / 65536);
    }
    assert(0 <= q3 < 256);
}

/// Adding 2^32 changes none of the four low bytes.
proof fn lemma_low_bytes32_wrap(v: int)
    ensures
        le_bytes32(v + 4294967296) == le_bytes32(v),
{
    let w = v + 4294967296;
    assert(w % 256 == v % 256);
    assert(w / 256 == v / 256 + 16777216);
    assert(w / 65536 == v / 65536 + 65536);
    assert(w / 16777216 == v / 16777216 + 256);
    assert((w / 256) % 256 == (v / 256) % 256);
    assert((w / 65536) % 256 == (v / 65536) % 256);
    assert((w / 16777216) % 256 == (v / 16777216) % 256);
}

/// Adding 2^16 changes none of the two low bytes.
pub proof fn lemma_low_bytes16_wrap(v: int)
    ensures
        le_bytes16(v + 65536) == le_bytes16(v),
{
    let w = v + 65536;
    assert(w % 256 == v % 256);
    assert(w / 256 == v / 256 + 256);
    assert((w / 256) % 256 == (v / 256) % 256);
}

/// The two-byte images give their number back.
pub proof fn lemma_bytes16_round_trip(v: int)
    ensures
        0 <= v < 65536 ==> le_u16(le_bytes16(v)) == v && be_u16(be_bytes16(v)) == v,
        -32768 <= v < 32768 ==> signed16(le_u16(le_bytes16(v))) == v,
{
    if -32768 <= v < 0 {
        let w = v + 65536;
        assert(w % 256 == v % 256);
        assert(w / 256 == v / 256 + 256);
        assert((w / 256) % 256 == (v / 256) % 256);
        assert(le_bytes16(w) == le_bytes16(v));
        assert(le_u16(le_bytes16(w)) == w);
    }
}

/// The four-byte images give their number back.
pub proof fn lemma_bytes32_round_trip(v: int)
    ensures
        0 <= v < 4294967296 ==> le_u32(le_bytes32(v)) == v && be_u32(be_bytes32(v)) == v,
        -2147483648 <= v < 2147483648 ==> signed32(le_u32(le_bytes32(v))) == v,
{
    if 0 <= v < 4294967296 {
        lemma_digits32(v);
    } else if -2147483648 <= v < 0 {
        let w = v + 4294967296;
        lemma_low_bytes32_wrap(v);
        lemma_digits32(w);
        assert(le_u32(le_bytes32(w)) == w);
    }
}

/// `byteorder`'s `LittleEndian::read_i16`: the first two bytes of `buf`, least
/// significant first, as a two's complement number. It panics on a shorter
/// `buf`.
#[verifier::external_body]
fn le_read_i16(buf: &[u8]) -> (r: i16)
    requires
        buf@.len() >= 2,
    ensures
        r as int == signed16(le_u16(buf@)),
{
    LittleEndian::read_i16(buf)
}

/// `byteorder`'s `LittleEndian::read_i32`: the first four bytes of `buf`,
/// least significant first, as a two's complement number. It panics on a
/// shorter `buf`.
#[verifier::external_body]
fn le_read_i32(buf: &[u8]) -> (r: i32)
    requires
        buf@.len() >= 4,
    ensures
        r as int == signed32(le_u32(buf@)),
{
    LittleEndian::read_i32(buf)
}

/// `byteorder`'s `LittleEndian::read_u32`: the first four bytes of `buf`,
/// least significant first. It panics on a shorter `buf`.
#[verifier::external_body]
fn le_read_u32(buf: &[u8]) -> (r: u32)
    requires
        buf@.len() >= 4,
    ensures
        r as int == le_u32(buf@),
{
    LittleEndian::read_u32(buf)
}

/// `byteorder`'s `BigEndian::read_u16`: the first two bytes of `buf`, most
/// significant first. It panics on a shorter `buf`.
#[verifier::external_body]
fn be_read_u16(buf: &[u8]) -> (r: u16)
    requires
        buf@.len() >= 2,
    ensures
        r as int == be_u16(buf@),
{
    BigEndian::read_u16(buf)
}

/// `byteorder`'s `BigEndian::read_u32`: the first four bytes of `buf`, most
/// significant first. It panics on a shorter `buf`.
#[verifier::external_body]
fn be_read_u32(buf: &[u8]) -> (r: u32)
    requires
        buf@.len() >= 4,
    ensures
        r as int == be_u32(buf@),
{
    BigEndian::read_u32(buf)
}

/// `byteorder`'s `LittleEndian::write_i16` on a buffer of two bytes: the
/// two's complement image of `n`, least significant byte first.
#[verifier::external_body]
fn le_write_i16(n: i16) -> (r: [u8; 2])
    ensures
        r@ == le_bytes16(n as int),
{
    let mut buf = [0u8; 2];
    LittleEndian::write_i16(&mut buf, n);
    buf
}

/// `byteorder`'s `LittleEndian::write_i32` on a buffer of four bytes: the
/// two's complement image of `n`, least significant byte first.
#[verifier::external_body]
fn le_write_i32(n: i32) -> (r: [u8; 4])
    ensures
        r@ == le_bytes32(n as int),
{
    let mut buf = [0u8; 4];
    LittleEndian::write_i32(&mut buf, n);
    buf
}

/// `byteorder`'s `LittleEndian::write_u32` on a buffer of four bytes: the
/// image of `n`, least significant byte first.
#[verifier::external_body]
fn le_write_u32(n: u32) -> (r: [u8; 4])
    ensures
        r@ == le_bytes32(n as int),
{
    let mut buf = [0u8; 4];
    LittleEndian::write_u32(&mut buf, n);
    buf
}

/// `byteorder`'s `BigEndian::write_u16` on a buffer of two bytes: the image
/// of `n`, most significant byte first.
#[verifier::external_body]
fn be_write_u16(n: u16) -> (r: [u8; 2])
    ensures
        r@ == be_bytes16(n as int),
{
    let mut buf = [0u8; 2];
    BigEndian::write_u16(&mut buf, n);
    buf
}

/// `byteorder`'s `BigEndian::write_u32` on a buffer of four bytes: the image
/// of `n`, most significant byte first.
#[verifier::external_body]
fn be_write_u32(n: u32) -> (r: [u8; 4])
    ensures
        r@ == be_bytes32(n as int),
{
    let mut buf = [0u8; 4];
    BigEndian::write_u32(&mut buf, n);
    buf
}

/// The error for a field that the input ends in the middle of.
pub fn truncated_error() -> (r: NetError)
    ensures
        r@ == truncated(),
{
    NetError::invalid_data("failed to fill whole buffer")
}

/// A cursor over the bytes of one message.
pub struct Reader<'a> {
    data: &'a [u8],
    pos: usize,
}

impl<'a> Reader<'a> {
    #[verifier::type_invariant]
    spec fn in_bounds(self) -> bool {
        self.pos <= self.data@.len()
    }

    /// The bytes not yet read.
    pub closed spec fn remaining(&self) -> Seq<u8> {
        self.data@.skip(self.pos as int)
    }

    /// A cursor at the start of `data`.
    pub fn new(data: &'a [u8]) -> (r: Self)
        ensures
            r.remaining() == data@,
    {
        Reader { data, pos: 0 }
    }

    /// True when every byte has been read.
    pub fn is_empty(&self) -> (r: bool)
        ensures
            r == (self.remaining().len() == 0),
    {
        proof {
            use_type_invariant(self);
        }
        self.pos >= self.data.len()
    }

    /// Number of bytes not yet read.
    pub fn len(&self) -> (r: usize)
        ensures
            r == self.remaining().len(),
    {
        proof {
            use_type_invariant(self);
        }
        self.data.len() - self.pos
    }

    /// Reads one byte.
    pub fn read_u8(&mut self) -> (r: Result<u8, NetError>)
        ensures
            old(self).remaining().len() >= 1 ==> (r matches Ok(v) && v == old(self).remaining()[0]
                && final(self).remaining() == old(self).remaining().skip(1)),
            old(self).remaining().len() < 1 ==> (r matches Err(e) && e@ == truncated()
                && final(self).remaining() == old(self).remaining()),
    {
        proof {
            use_type_invariant(&*self);
        }
        if self.pos < self.data.len() {
            let b: u8 = self.data[self.pos];
            proof {
                assert(old(self).remaining().skip(1) =~= self.data@.skip(self.pos + 1));
            }
            self.pos = self.pos + 1;
            Ok(b)
        } else {
            Err(truncated_error())
        }
    }

    /// Reads one byte as a two's complement number.
    pub fn read_i8(&mut self) -> (r: Result<i8, NetError>)
        ensures
            old(self).remaining().len() >= 1 ==> (r matches Ok(v) && v as int == signed8(
                old(self).remaining()[0] as int,
            ) && final(self).remaining() == old(self).remaining().skip(1)),
            old(self).remaining().len() < 1 ==> (r matches Err(e) && e@ == truncated()
                && final(self).remaining() == old(self).remaining()),
    {
        match self.read_u8() {
            Ok(b) => {
                if b < 128 {
                    Ok(b as i8)
                } else {
                    Ok((b as i16 - 256) as i8)
                }
            },
            Err(e) => Err(e),
        }
    }

    /// Reads a little-endian signed 16-bit number.
    pub fn read_i16(&mut self) -> (r: Result<i16, NetError>)
        ensures
            old(self).remaining().len() >= 2 ==> (r matches Ok(v) && v as int == signed16(
                le_u16(old(self).remaining()),
            ) && final(self).remaining() == old(self).remaining().skip(2)),
            old(self).remaining().len() < 2 ==> (r matches Err(e) && e@ == truncated()
                && final(self).remaining() == old(self).remaining()),
    {
        proof {
            use_type_invariant(&*self);
        }
        if self.data.len() - self.pos >= 2 {
            let v: i16 = le_read_i16(&self.data[self.pos..self.pos + 2]);
            proof {
                assert(old(self).remaining().skip(2) =~= self.data@.skip(self.pos + 2));
            }
            self.pos = self.pos + 2;
            Ok(v)
        } else {
            Err(truncated_error())
        }
    }

    /// Reads a little-endian signed 32-bit number.
    pub fn read_i32(&mut self) -> (r: Result<i32, NetError>)
        ensures
            old(self).remaining().len() >= 4 ==> (r matches Ok(v) && v as int == signed32(
                le_u32(old(self).remaining()),
            ) && final(self).remaining() == old(self).remaining().skip(4)),
            old(self).remaining().len() < 4 ==> (r matches Err(e) && e@ == truncated()
                && final(self).remaining() == old(self).remaining()),
    {
        proof {
            use_type_invariant(&*self);
        }
        if self.data.len() - self.pos >= 4 {
            let v: i32 = le_read_i32(&self.data[self.pos..self.pos + 4]);
            proof {
                assert(old(self).remaining().skip(4) =~= self.data@.skip(self.pos + 4));
            }
            self.pos = self.pos + 4;
            Ok(v)
        } else {
            Err(truncated_error())
        }
    }

    /// Reads a little-endian unsigned 32-bit number.
    pub fn read_u32(&mut self) -> (r: Result<u32, NetError>)
        ensures
            old(self).remaining().len() >= 4 ==> (r matches Ok(v) && v as int == le_u32(
                old(self).remaining(),
            ) && final(self).remaining() == old(self).remaining().skip(4)),
            old(self).remaining().len() < 4 ==> (r matches Err(e) && e@ == truncated()
                && final(self).remaining() == old(self).remaining()),
    {
        proof {
            use_type_invariant(&*self);
        }
        if self.data.len() - self.pos >= 4 {
            let v: u32 = le_read_u32(&self.data[self.pos..self.pos + 4]);
            proof {
                assert(old(self).remaining().skip(4) =~= self.data@.skip(self.pos + 4));
            }
            self.pos = self.pos + 4;
            Ok(v)
        } else {
            Err(truncated_error())
        }
    }

    /// Reads a big-endian unsigned 16-bit number.
    pub fn read_u16_be(&mut self) -> (r: Result<u16, NetError>)
        ensures
            old(self).remaining().len() >= 2 ==> (r matches Ok(v) && v as int == be_u16(
                old(self).remaining(),
            ) && final(self).remaining() == old(self).remaining().skip(2)),
            old(self).remaining().len() < 2 ==> (r matches Err(e) && e@ == truncated()
                && final(self).remaining() == old(self).remaining()),
    {
        proof {
            use_type_invariant(&*self);
        }
        if self.data.len() - self.pos >= 2 {
            let v: u16 = be_read_u16(&self.data[self.pos..self.pos + 2]);
            proof {
                assert(old(self).remaining().skip(2) =~= self.data@.skip(self.pos + 2));
            }
            self.pos = self.pos + 2;
            Ok(v)
        } else {
            Err(truncated_error())
        }
    }

    /// Reads a big-endian unsigned 32-bit number.
    pub fn read_u32_be(&mut self) -> (r: Result<u32, NetError>)
        ensures
            old(self).remaining().len() >= 4 ==> (r matches Ok(v) && v as int == be_u32(
                old(self).remaining(),
            ) && final(self).remaining() == old(self).remaining().skip(4)),
            old(self).remaining().len() < 4 ==> (r matches Err(e) && e@ == truncated()
                && final(self).remaining() == old(self).remaining()),
    {
        proof {
            use_type_invariant(&*self);
        }
        if self.data.len() - self.pos >= 4 {
            let v: u32 = be_read_u32(&self.data[self.pos..self.pos + 4]);
            proof {
                assert(old(self).remaining().skip(4) =~= self.data@.skip(self.pos + 4));
            }
            self.pos = self.pos + 4;
            Ok(v)
        } else {
            Err(truncated_error())
        }
    }

    /// Reads a text up to its zero byte and steps over that byte. A text
    /// that is no UTF-8 is an error, and so is input that ends before the
    /// zero byte.
    pub fn read_cstring(&mut self) -> (r: Result<String, NetError>)
        ensures
            match take_cstring(old(self).remaining()) {
                Ok((text, n)) => r matches Ok(s) && s@ == text && 0 < n <= old(
                    self,
                ).remaining().len() && final(self).remaining() == old(self).remaining().skip(n),
                Err(fault) => r matches Err(e) && e@ == fault && final(self).remaining() == old(
                    self,
                ).remaining(),
            },
    {
        proof {
            use_type_invariant(&*self);
        }
        let ghost rem = self.remaining();
        let start: usize = self.pos;
        let mut end: usize = self.pos;
        while end < self.data.len() && self.data[end] != 0
            invariant
                start <= end <= self.data@.len(),
                start == self.pos,
                self.pos == old(self).pos,
                self.data == old(self).data,
                rem == self.data@.skip(start as int),
                forall|i: int| 0 <= i < end - start ==> rem[i] != 0,
            decreases self.data@.len() - end,
        {
            end = end + 1;
        }
        proof {
            lemma_text_len_is(rem, end - start);
        }
        if end >= self.data.len() {
            return Err(NetError::invalid_data("unterminated string"));
        }
        let bytes: Vec<u8> = slice_to_vec(&self.data[start..end]);
        proof {
            assert(bytes@ =~= rem.take(end - start));
        }
        match string_from_utf8(bytes) {
            Ok(s) => {
                proof {
                    assert(rem.skip(end - start + 1) =~= self.data@.skip(end + 1));
                }
                self.pos = end + 1;
                Ok(s)
            },
            Err(m) => Err(NetError::Other(m)),
        }
    }

    /// Reads every byte that is left.
    pub fn read_to_end(&mut self) -> (r: Vec<u8>)
        ensures
            r@ == old(self).remaining(),
            final(self).remaining().len() == 0,
    {
        proof {
            use_type_invariant(&*self);
        }
        let bytes: Vec<u8> = slice_to_vec(&self.data[self.pos..self.data.len()]);
        proof {
            assert(bytes@ =~= old(self).remaining());
        }
        self.pos = self.data.len();
        bytes
    }
}

/// Appends one byte as a two's complement number.
pub fn put_i8(out: &mut Vec<u8>, v: i8)
    ensures
        final(out)@ == old(out)@.push(low_byte(v as int)),
{
    if v >= 0 {
        out.push(v as u8);
    } else {
        out.push((v as i16 + 256) as u8);
    }
}

/// Appends the bytes of `bytes` in their order.
pub fn put_bytes(out: &mut Vec<u8>, bytes: &[u8])
    ensures
        final(out)@ == old(out)@ + bytes@,
{
    out.extend_from_slice(bytes);
    proof {
        assert(out@ =~= old(out)@ + bytes@);
    }
}

/// Appends a signed 16-bit number, little-endian.
pub fn put_i16(out: &mut Vec<u8>, v: i16)
    ensures
        final(out)@ == old(out)@ + le_bytes16(v as int),
{
    let image: [u8; 2] = le_write_i16(v);
    put_bytes(out, image.as_slice());
}

/// Appends a signed 32-bit number, little-endian.
pub fn put_i32(out: &mut Vec<u8>, v: i32)
    ensures
        final(out)@ == old(out)@ + le_bytes32(v as int),
{
    let image: [u8; 4] = le_write_i32(v);
    put_bytes(out, image.as_slice());
}

/// Appends an unsigned 32-bit number, little-endian.
pub fn put_u32(out: &mut Vec<u8>, v: u32)
    ensures
        final(out)@ == old(out)@ + le_bytes32(v as int),
{
    let image: [u8; 4] = le_write_u32(v);
    put_bytes(out, image.as_slice());
}

/// Appends an unsigned 16-bit number, big-endian.
pub fn put_u16_be(out: &mut Vec<u8>, v: u16)
    ensures
        final(out)@ == old(out)@ + be_bytes16(v as int),
{
    let image: [u8; 2] = be_write_u16(v);
    put_bytes(out, image.as_slice());
}

/// Appends an unsigned 32-bit number, big-endian.
pub fn put_u32_be(out: &mut Vec<u8>, v: u32)
    ensures
        final(out)@ == old(out)@ + be_bytes32(v as int),
{
    let image: [u8; 4] = be_write_u32(v);
    put_bytes(out, image.as_slice());
}

/// Appends a text: its UTF-8 bytes, then a zero byte.
pub fn put_cstring(out: &mut Vec<u8>, text: &str)
    ensures
        final(out)@ == old(out)@ + cstring_bytes(text@),
{
    put_bytes(out, text.as_bytes());
    out.push(0);
    proof {
        assert(out@ =~= old(out)@ + cstring_bytes(text@));
    }
}

} // verus!
