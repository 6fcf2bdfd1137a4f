//! Byte-level reading: fixed-width integers, length-prefixed text, and a
//! forward-only cursor over a decrypted buffer.

use byteorder::{BigEndian, ByteOrder, LittleEndian};
use vstd::prelude::*;
use vstd::slice::{slice_subrange, slice_to_vec};
use vstd::utf8::{
    decode_utf8, encode_utf8, encode_utf8_decode_utf8, encode_utf8_valid_utf8, valid_utf8,
};

verus! {

/// Why a read from a buffer failed.
#[derive(Clone, Copy, Debug, PartialEq, Eq, Structural)]
pub enum ParseError {
    /// The buffer ended before the field did.
    UnexpectedEof,
    /// The bytes of a text field are not valid UTF-8.
    InvalidText,
}

/// An IPv4 address, as the 32-bit number whose most significant byte is the
/// first octet.
#[derive(Clone, Copy, Debug, PartialEq, Eq, Structural)]
pub struct Ipv4Address {
    pub bits: u32,
}

impl Ipv4Address {
    /// The four octets of the address, the first one first.
    pub open spec fn octets_of(self) -> Seq<u8> {
        seq![
            (self.bits / 0x100_0000) as u8,
            ((self.bits / 0x1_0000) % 0x100) as u8,
            ((self.bits / 0x100) % 0x100) as u8,
            (self.bits % 0x100) as u8,
        ]
    }

    /// The four octets of the address, the first one first.
    pub fn octets(&self) -> (r: [u8; 4])
        ensures
            r@ == self.octets_of(),
    {
        let r = [
            (self.bits / 0x100_0000) as u8,
            ((self.bits / 0x1_0000) % 0x100) as u8,
            ((self.bits / 0x100) % 0x100) as u8,
            (self.bits % 0x100) as u8,
        ];
        assert(r@ =~= self.octets_of());
        r
    }
}

/// What decoding a field from the front of a byte sequence gives: the value
/// and the number of bytes it occupied, or the reason it could not be read.
pub type Decoded<T> = Result<(T, nat), ParseError>;

/// The unsigned 16-bit integer stored little-endian at `s[i..i + 2]`.
pub open spec fn le_u16_at(s: Seq<u8>, i: int) -> u16 {
    (s[i] as int + s[i + 1] as int * 0x100) as u16
}

/// The unsigned 32-bit integer stored little-endian at `s[i..i + 4]`.
pub open spec fn le_u32_at(s: Seq<u8>, i: int) -> u32 {
    (s[i] as int + s[i + 1] as int * 0x100 + s[i + 2] as int * 0x1_0000 + s[i + 3] as int
        * 0x100_0000) as u32
}

/// The unsigned 32-bit integer stored big-endian (network order) at `s[i..i + 4]`.
pub open spec fn be_u32_at(s: Seq<u8>, i: int) -> u32 {
    (s[i] as int * 0x100_0000 + s[i + 1] as int * 0x1_0000 + s[i + 2] as int * 0x100 + s[i
        + 3] as int) as u32
}

/// The two's-complement 32-bit integer stored little-endian at `s[i..i + 4]`.
pub open spec fn le_i32_at(s: Seq<u8>, i: int) -> i32 {
    let u = le_u32_at(s, i) as int;
    if u < 0x8000_0000 {
        u as i32
    } else {
        (u - 0x1_0000_0000) as i32
    }
}

/// A text field at the front of `s`: a little-endian 32-bit byte count, then
/// that many bytes of UTF-8.
pub open spec fn text_field(s: Seq<u8>) -> Decoded<Seq<char>> {
    if s.len() < 4 {
        Err(ParseError::UnexpectedEof)
    } else {
        let n = le_u32_at(s, 0) as int;
        if s.len() < 4 + n {
            Err(ParseError::UnexpectedEof)
        } else if !valid_utf8(s.subrange(4, 4 + n)) {
            Err(ParseError::InvalidText)
        } else {
            Ok((decode_utf8(s.subrange(4, 4 + n)), (4 + n) as nat))
        }
    }
}

/// `byteorder::LittleEndian::read_u16`: the first two bytes of `bytes`, the
/// low byte first. It panics on a shorter slice, which `requires` excludes.
#[verifier::external_body]
fn le_u16(bytes: &[u8]) -> (r: u16)
    requires
        bytes@.len() >= 2,
    ensures
        r == le_u16_at(bytes@, 0),
{
    LittleEndian::read_u16(bytes)
}

/// `byteorder::LittleEndian::read_u32`: the first four bytes of `bytes`, the
/// low byte first. It panics on a shorter slice, which `requires` excludes.
#[verifier::external_body]
fn le_u32(bytes: &[u8]) -> (r: u32)
    requires
        bytes@.len() >= 4,
    ensures
        r == le_u32_at(bytes@, 0),
{
    LittleEndian::read_u32(bytes)
}

/// `byteorder::BigEndian::read_u32`: the first four bytes of `bytes`, the
/// high byte first. It panics on a shorter slice, which `requires` excludes.
#[verifier::external_body]
fn be_u32(bytes: &[u8]) -> (r: u32)
    requires
        bytes@.len() >= 4,
    ensures
        r == be_u32_at(bytes@, 0),
{
    BigEndian::read_u32(bytes)
}

/// `byteorder::LittleEndian::read_i32`: the first four bytes of `bytes`, the
/// low byte first, read as a two's-complement number. It panics on a shorter
/// slice, which `requires` excludes.
#[verifier::external_body]
fn le_i32(bytes: &[u8]) -> (r: i32)
    requires
        bytes@.len() >= 4,
    ensures
        r == le_i32_at(bytes@, 0),
{
    LittleEndian::read_i32(bytes)
}

/// `String::from_utf8`: the text that `bytes` encode, where they are valid
/// UTF-8, and nothing where they are not.
#[verifier::external_body]
fn utf8_text(bytes: Vec<u8>) -> (r: Option<String>)
    ensures
        r is Some <==> valid_utf8(bytes@),
        r matches Some(s) ==> s@ == decode_utf8(bytes@),
{
    match String::from_utf8(bytes) {
        Ok(s) => Some(s),
        Err(_) => None,
    }
}

/// A forward-only cursor over a byte buffer.
///
/// Its model is the whole buffer, `input()`, and the number of bytes already
/// consumed, `offset()`. Every read either consumes exactly the bytes of one
/// field or fails; the buffer itself never changes.
pub struct Reader<'a> {
    buf: &'a [u8],
    pos: usize,
}

impl<'a> Reader<'a> {
    /// The buffer being read.
    pub closed spec fn input(self) -> Seq<u8> {
        self.buf@
    }

    /// How many bytes of the buffer have been consumed.
    pub closed spec fn offset(self) -> nat {
        self.pos as nat
    }

    /// A cursor never runs past the end of its buffer.
    #[verifier::type_invariant]
    pub open spec fn in_bounds(self) -> bool {
        self.offset() <= self.input().len()
    }

    /// The bytes not yet consumed.
    pub open spec fn remaining(self) -> Seq<u8> {
        self.input().skip(self.offset() as int)
    }

    /// `self` is `before` after consuming `n` more bytes of the same buffer.
    pub open spec fn follows(self, before: Self, n: nat) -> bool {
        &&& self.input() == before.input()
        &&& self.offset() == before.offset() + n
        &&& self.offset() <= self.input().len()
    }

    /// A cursor at the start of `buf`.
    pub fn new(buf: &'a [u8]) -> (r: Self)
        ensures
            r.input() == buf@,
            r.offset() == 0,
    {
        Reader { buf, pos: 0 }
    }

    /// The number of bytes not yet consumed.
    pub fn remaining_len(&self) -> (n: usize)
        ensures
            n == self.remaining().len(),
            self.offset() <= self.input().len(),
    {
        proof {
            use_type_invariant(self);
        }
        self.buf.len() - self.pos
    }

    /// Consumes the next `n` bytes and hands them out.
    fn take(&mut self, n: usize) -> (r: Result<&'a [u8], ParseError>)
        ensures
            final(self).input() == old(self).input(),
            old(self).offset() <= old(self).input().len(),
            match r {
                Ok(w) => {
                    &&& final(self).follows(*old(self), n as nat)
                    &&& w@ == old(self).input().subrange(
                        old(self).offset() as int,
                        old(self).offset() + n,
                    )
                },
                Err(e) => e == ParseError::UnexpectedEof && old(self).remaining().len() < n,
            },
    {
        proof {
            use_type_invariant(&*self);
        }
        if self.buf.len() - self.pos < n {
            return Err(ParseError::UnexpectedEof);
        }
        let window = slice_subrange(self.buf, self.pos, self.pos + n);
        self.pos = self.pos + n;
        Ok(window)
    }

    /// Passes over `n` reserved bytes without interpreting them.
    pub fn skip(&mut self, n: usize) -> (r: Result<(), ParseError>)
        ensures
            final(self).input() == old(self).input(),
            match r {
                Ok(_) => final(self).follows(*old(self), n as nat),
                Err(e) => e == ParseError::UnexpectedEof && old(self).remaining().len() < n,
            },
    {
        let _ = self.take(n)?;
        Ok(())
    }

    /// Reads one byte.
    pub fn read_u8(&mut self) -> (r: Result<u8, ParseError>)
        ensures
            final(self).input() == old(self).input(),
            match r {
                Ok(v) => final(self).follows(*old(self), 1) && v == old(self).remaining()[0],
                Err(e) => e == ParseError::UnexpectedEof && old(self).remaining().len() < 1,
            },
    {
        let w = self.take(1)?;
        Ok(w[0])
    }

    /// Reads a little-endian unsigned 16-bit integer.
    pub fn read_u16_le(&mut self) -> (r: Result<u16, ParseError>)
        ensures
            final(self).input() == old(self).input(),
            match r {
                Ok(v) => final(self).follows(*old(self), 2) && v == le_u16_at(
                    old(self).remaining(),
                    0,
                ),
                Err(e) => e == ParseError::UnexpectedEof && old(self).remaining().len() < 2,
            },
    {
        let w = self.take(2)?;
        Ok(le_u16(w))
    }

    /// Reads a little-endian unsigned 32-bit integer.
    pub fn read_u32_le(&mut self) -> (r: Result<u32, ParseError>)
        ensures
            final(self).input() == old(self).input(),
            match r {
                Ok(v) => final(self).follows(*old(self), 4) && v == le_u32_at(
                    old(self).remaining(),
                    0,
                ),
                Err(e) => e == ParseError::UnexpectedEof && old(self).remaining().len() < 4,
            },
    {
        let w = self.take(4)?;
        Ok(le_u32(w))
    }

    /// Reads a big-endian (network order) unsigned 32-bit integer.
    pub fn read_u32_be(&mut self) -> (r: Result<u32, ParseError>)
        ensures
            final(self).input() == old(self).input(),
            match r {
                Ok(v) => final(self).follows(*old(self), 4) && v == be_u32_at(
                    old(self).remaining(),
                    0,
                ),
                Err(e) => e == ParseError::UnexpectedEof && old(self).remaining().len() < 4,
            },
    {
        let w = self.take(4)?;
        Ok(be_u32(w))
    }

    /// Reads an IPv4 address: four octets in network order.
    pub fn read_ipv4(&mut self) -> (r: Result<Ipv4Address, ParseError>)
        ensures
            final(self).input() == old(self).input(),
            match r {
                Ok(v) => final(self).follows(*old(self), 4) && v.bits == be_u32_at(
                    old(self).remaining(),
                    0,
                ),
                Err(e) => e == ParseError::UnexpectedEof && old(self).remaining().len() < 4,
            },
    {
        let bits = self.read_u32_be()?;
        Ok(Ipv4Address { bits })
    }

    /// Reads a little-endian signed 32-bit integer.
    pub fn read_i32_le(&mut self) -> (r: Result<i32, ParseError>)
        ensures
            final(self).input() == old(self).input(),
            match r {
                Ok(v) => final(self).follows(*old(self), 4) && v == le_i32_at(
                    old(self).remaining(),
                    0,
                ),
                Err(e) => e == ParseError::UnexpectedEof && old(self).remaining().len() < 4,
            },
    {
        let w = self.take(4)?;
        Ok(le_i32(w))
    }

    /// Reads a length-prefixed text field.
    pub fn read_string(&mut self) -> (r: Result<String, ParseError>)
        ensures
            final(self).input() == old(self).input(),
            match text_field(old(self).remaining()) {
                Ok((text, n)) => r matches Ok(s) && s@ == text && final(self).follows(
                    *old(self),
                    n,
                ),
                Err(e) => r == Err::<String, ParseError>(e),
            },
    {
        let len = self.read_u32_le()?;
        let w = self.take(len as usize)?;
        assert(w@ == old(self).remaining().subrange(4, 4 + len));
        match utf8_text(slice_to_vec(w)) {
            Some(s) => Ok(s),
            None => Err(ParseError::InvalidText),
        }
    }
}

/// An address read in network order has the four bytes it was read from as
/// its octets, in their order.
pub proof fn lemma_address_keeps_wire_octets(s: Seq<u8>, i: int)
    requires
        0 <= i,
        i + 4 <= s.len(),
    ensures
        (Ipv4Address { bits: be_u32_at(s, i) }).octets_of() == s.subrange(i, i + 4),
{
    let (b0, b1, b2, b3) = (s[i] as int, s[i + 1] as int, s[i + 2] as int, s[i + 3] as int);
    let bits = be_u32_at(s, i) as int;
    assert(bits == b0 * 0x100_0000 + b1 * 0x1_0000 + b2 * 0x100 + b3);
    let low = b2 * 0x100 + b3;
    let mid = b1 * 0x1_0000 + low;
    assert(bits / 0x100_0000 == b0 && bits % 0x100_0000 == mid);
    assert(bits / 0x1_0000 == b0 * 0x100 + b1 && bits % 0x1_0000 == low);
    assert(bits / 0x100 == b0 * 0x1_0000 + b1 * 0x100 + b2 && bits % 0x100 == b3);
    let a = Ipv4Address { bits: be_u32_at(s, i) };
    assert(a.octets_of() =~= s.subrange(i, i + 4));
}

/// The two bytes that store `v` little-endian.
pub open spec fn le_bytes_u16(v: u16) -> Seq<u8> {
    seq![(v % 0x100) as u8, (v / 0x100) as u8]
}

/// The four bytes that store `v` little-endian.
pub open spec fn le_bytes_u32(v: u32) -> Seq<u8> {
    seq![
        (v % 0x100) as u8,
        ((v / 0x100) % 0x100) as u8,
        ((v / 0x1_0000) % 0x100) as u8,
        (v / 0x100_0000) as u8,
    ]
}

/// The bytes of a text field that holds `text`: the byte count, then the
/// UTF-8 encoding.
pub open spec fn text_bytes(text: Seq<char>) -> Seq<u8> {
    le_bytes_u32(encode_utf8(text).len() as u32) + encode_utf8(text)
}

/// Reading back a 16-bit integer gives what was stored, whatever follows it.
pub proof fn lemma_le_u16_round_trip(v: u16, rest: Seq<u8>)
    ensures
        le_u16_at(le_bytes_u16(v) + rest, 0) == v,
{
}

/// Reading back a 32-bit integer gives what was stored, whatever follows it.
pub proof fn lemma_le_u32_round_trip(v: u32, rest: Seq<u8>)
    ensures
        le_u32_at(le_bytes_u32(v) + rest, 0) == v,
{
}

/// Reading back a text field gives the text that was stored and consumes
/// exactly its bytes, whatever follows it, as long as the byte count of the
/// text fits its 32-bit prefix.
pub proof fn lemma_text_round_trip(text: Seq<char>, rest: Seq<u8>)
    requires
        encode_utf8(text).len() <= u32::MAX,
    ensures
        text_field(text_bytes(text) + rest) == Ok::<(Seq<char>, nat), ParseError>(
            (text, text_bytes(text).len()),
        ),
{
    let encoded = encode_utf8(text);
    let s = text_bytes(text) + rest;
    lemma_le_u32_round_trip(encoded.len() as u32, encoded + rest);
    assert(s == le_bytes_u32(encoded.len() as u32) + (encoded + rest));
    assert(s.subrange(4, 4 + encoded.len() as int) == encoded);
    encode_utf8_valid_utf8(text);
    encode_utf8_decode_utf8(text);
}

} // verus!
