//! Encoding of values into bytes: the `Encodable` trait and its impls for
//! the building blocks that messages are made of.

use crate::buf::{
    le_read_u16, le_read_u32, le_read_u64, read_le16, read_le32, read_le64, u16_of_le, u32_of_le,
    bytes_as_slice, bytes_len, bytes_mut_view, bytes_view, freeze, le16, le32, le64, new_bytes_mut,
    put_slice, put_u16_le, put_u32_le, put_u64_le, put_u8,
};
use crate::error::Error;
use bytes::{Bytes, BytesMut};
use vstd::prelude::*;

verus! {

/// A value that can be written as bytes of a message.
pub trait Encodable: Sized {
    /// Whether the value can be encoded (lengths that the wire format can carry).
    spec fn encodable(&self) -> bool;

    /// The bytes that `encode` appends.
    spec fn encoding(&self) -> Seq<u8>;

    /// Appends the encoding of `self` to `dst`.
    fn encode(self, dst: &mut BytesMut) -> (r: Result<(), Error>)
        requires
            self.encodable(),
            bytes_mut_view(*old(dst)).len() + self.encoding().len() <= usize::MAX,
        ensures
            r is Ok,
            bytes_mut_view(*final(dst)) == bytes_mut_view(*old(dst)) + self.encoding(),
    ;

    /// Number of bytes that `encode` appends.
    fn bytes_count(&self) -> (n: usize)
        requires
            self.encodable(),
        ensures
            n == self.encoding().len(),
    ;

    /// The encoding of `self` as a fresh `Bytes`.
    fn try_into_bytes(self) -> (r: Result<Bytes, Error>)
        requires
            self.encodable(),
            self.encoding().len() <= usize::MAX,
        ensures
            r matches Ok(b) && bytes_view(b) == self.encoding(),
    {
        let mut buf = new_bytes_mut();
        let res = self.encode(&mut buf);
        assert(bytes_mut_view(buf) == self.encoding());
        match res {
            Ok(()) => Ok(freeze(buf)),
            Err(e) => Err(e),
        }
    }
}

impl Encodable for () {
    open spec fn encodable(&self) -> bool {
        true
    }

    open spec fn encoding(&self) -> Seq<u8> {
        Seq::empty()
    }

    fn encode(self, dst: &mut BytesMut) -> (r: Result<(), Error>) {
        assert(bytes_mut_view(*dst) + Seq::<u8>::empty() == bytes_mut_view(*dst));
        Ok(())
    }

    fn bytes_count(&self) -> (n: usize) {
        0
    }
}

impl<D1: Encodable, D2: Encodable> Encodable for (D1, D2) {
    open spec fn encodable(&self) -> bool {
        &&& self.0.encodable()
        &&& self.1.encodable()
        &&& self.0.encoding().len() + self.1.encoding().len() <= usize::MAX
    }

    open spec fn encoding(&self) -> Seq<u8> {
        self.0.encoding() + self.1.encoding()
    }

    fn encode(self, dst: &mut BytesMut) -> (r: Result<(), Error>) {
        let ghost start = bytes_mut_view(*dst);
        let ghost e0 = self.0.encoding();
        let ghost e1 = self.1.encoding();
        let r0 = self.0.encode(dst);
        let r1 = self.1.encode(dst);
        assert(start + e0 + e1 == start + (e0 + e1));
        match (r0, r1) {
            (Ok(()), Ok(())) => Ok(()),
            (Err(e), _) => Err(e),
            (_, Err(e)) => Err(e),
        }
    }

    fn bytes_count(&self) -> (n: usize) {
        self.0.bytes_count() + self.1.bytes_count()
    }
}

impl<D1: Encodable, D2: Encodable, D3: Encodable> Encodable for (D1, D2, D3) {
    open spec fn encodable(&self) -> bool {
        &&& self.0.encodable()
        &&& self.1.encodable()
        &&& self.2.encodable()
        &&& self.0.encoding().len() + self.1.encoding().len() + self.2.encoding().len()
            <= usize::MAX
    }

    open spec fn encoding(&self) -> Seq<u8> {
        self.0.encoding() + self.1.encoding() + self.2.encoding()
    }

    fn encode(self, dst: &mut BytesMut) -> (r: Result<(), Error>) {
        let r0 = self.0.encode(dst);
        let r1 = self.1.encode(dst);
        let r2 = self.2.encode(dst);
        match (r0, r1, r2) {
            (Ok(()), Ok(()), Ok(())) => Ok(()),
            (Err(e), _, _) => Err(e),
            (_, Err(e), _) => Err(e),
            (_, _, Err(e)) => Err(e),
        }
    }

    fn bytes_count(&self) -> (n: usize) {
        self.0.bytes_count() + self.1.bytes_count() + self.2.bytes_count()
    }
}

impl<'a> Encodable for &'a [u8] {
    open spec fn encodable(&self) -> bool {
        true
    }

    open spec fn encoding(&self) -> Seq<u8> {
        self@
    }

    fn encode(self, dst: &mut BytesMut) -> (r: Result<(), Error>) {
        put_slice(dst, self);
        Ok(())
    }

    fn bytes_count(&self) -> (n: usize) {
        self.len()
    }
}

impl Encodable for Bytes {
    open spec fn encodable(&self) -> bool {
        true
    }

    open spec fn encoding(&self) -> Seq<u8> {
        bytes_view(*self)
    }

    fn encode(self, dst: &mut BytesMut) -> (r: Result<(), Error>) {
        put_slice(dst, bytes_as_slice(&self));
        Ok(())
    }

    fn bytes_count(&self) -> (n: usize) {
        bytes_len(self)
    }
}

impl<D: Encodable> Encodable for Option<D> {
    open spec fn encodable(&self) -> bool {
        match self {
            Some(d) => d.encodable(),
            None => true,
        }
    }

    open spec fn encoding(&self) -> Seq<u8> {
        match self {
            Some(d) => d.encoding(),
            None => Seq::empty(),
        }
    }

    fn encode(self, dst: &mut BytesMut) -> (r: Result<(), Error>) {
        if let Some(item) = self {
            item.encode(dst)
        } else {
            assert(bytes_mut_view(*dst) + Seq::<u8>::empty() == bytes_mut_view(*dst));
            Ok(())
        }
    }

    fn bytes_count(&self) -> (n: usize) {
        match self {
            Some(v) => v.bytes_count(),
            None => 0,
        }
    }
}

/// One byte.
impl Encodable for u8 {
    open spec fn encodable(&self) -> bool {
        true
    }

    open spec fn encoding(&self) -> Seq<u8> {
        seq![*self]
    }

    fn encode(self, dst: &mut BytesMut) -> (r: Result<(), Error>) {
        put_u8(dst, self);
        Ok(())
    }

    fn bytes_count(&self) -> (n: usize) {
        1
    }
}

/// One byte.
impl Encodable for i8 {
    open spec fn encodable(&self) -> bool {
        true
    }

    open spec fn encoding(&self) -> Seq<u8> {
        seq![*self as u8]
    }

    fn encode(self, dst: &mut BytesMut) -> (r: Result<(), Error>) {
        put_u8(dst, self as u8);
        Ok(())
    }

    fn bytes_count(&self) -> (n: usize) {
        1
    }
}

/// Little-endian bytes.
impl Encodable for u16 {
    open spec fn encodable(&self) -> bool {
        true
    }

    open spec fn encoding(&self) -> Seq<u8> {
        le16(*self)
    }

    fn encode(self, dst: &mut BytesMut) -> (r: Result<(), Error>) {
        put_u16_le(dst, self);
        Ok(())
    }

    fn bytes_count(&self) -> (n: usize) {
        2
    }
}

/// Little-endian bytes.
impl Encodable for i16 {
    open spec fn encodable(&self) -> bool {
        true
    }

    open spec fn encoding(&self) -> Seq<u8> {
        le16(*self as u16)
    }

    fn encode(self, dst: &mut BytesMut) -> (r: Result<(), Error>) {
        put_u16_le(dst, self as u16);
        Ok(())
    }

    fn bytes_count(&self) -> (n: usize) {
        2
    }
}

/// Little-endian bytes.
impl Encodable for u32 {
    open spec fn encodable(&self) -> bool {
        true
    }

    open spec fn encoding(&self) -> Seq<u8> {
        le32(*self)
    }

    fn encode(self, dst: &mut BytesMut) -> (r: Result<(), Error>) {
        put_u32_le(dst, self);
        Ok(())
    }

    fn bytes_count(&self) -> (n: usize) {
        4
    }
}

/// Little-endian bytes.
impl Encodable for i32 {
    open spec fn encodable(&self) -> bool {
        true
    }

    open spec fn encoding(&self) -> Seq<u8> {
        le32(*self as u32)
    }

    fn encode(self, dst: &mut BytesMut) -> (r: Result<(), Error>) {
        put_u32_le(dst, self as u32);
        Ok(())
    }

    fn bytes_count(&self) -> (n: usize) {
        4
    }
}

/// Little-endian bytes.
impl Encodable for u64 {
    open spec fn encodable(&self) -> bool {
        true
    }

    open spec fn encoding(&self) -> Seq<u8> {
        le64(*self)
    }

    fn encode(self, dst: &mut BytesMut) -> (r: Result<(), Error>) {
        put_u64_le(dst, self);
        Ok(())
    }

    fn bytes_count(&self) -> (n: usize) {
        8
    }
}

/// Little-endian bytes.
impl Encodable for i64 {
    open spec fn encodable(&self) -> bool {
        true
    }

    open spec fn encoding(&self) -> Seq<u8> {
        le64(*self as u64)
    }

    fn encode(self, dst: &mut BytesMut) -> (r: Result<(), Error>) {
        put_u64_le(dst, self as u64);
        Ok(())
    }

    fn bytes_count(&self) -> (n: usize) {
        8
    }
}

/// 0xFF for true, 0 for false.
impl Encodable for bool {
    open spec fn encodable(&self) -> bool {
        true
    }

    open spec fn encoding(&self) -> Seq<u8> {
        seq![if *self { 0xFFu8 } else { 0u8 }]
    }

    fn encode(self, dst: &mut BytesMut) -> (r: Result<(), Error>) {
        put_u8(dst, if self { 0xFF } else { 0 });
        Ok(())
    }

    fn bytes_count(&self) -> (n: usize) {
        1
    }
}

/// A value that can be read from the front of a byte slice.
pub trait Decodable: Sized {
    /// The value at the front of `s` and the number of bytes it takes, or
    /// why it cannot be read.
    spec fn decoded(s: Seq<u8>) -> Result<(Self, nat), Error>;

    /// Reads a value from the front of `s`.
    fn decode(s: &[u8]) -> (r: Result<(Self, usize), Error>)
        ensures
            match Self::decoded(s@) {
                Ok((v, n)) => r matches Ok((w, m)) && w == v && m == n && 0 < n <= s@.len(),
                Err(e) => r == Err::<(Self, usize), Error>(e),
            },
    ;
}

/// Too few bytes for a value of `size` bytes.
pub open spec fn short_input(s: Seq<u8>, size: nat) -> Error {
    Error::InvalidLength { actual: s.len() as usize, expected: size as usize }
}

impl Decodable for u8 {
    open spec fn decoded(s: Seq<u8>) -> Result<(u8, nat), Error> {
        if s.len() < 1 { Err(short_input(s, 1)) } else { Ok((s[0], 1)) }
    }

    fn decode(s: &[u8]) -> (r: Result<(u8, usize), Error>) {
        if s.len() < 1 {
            return Err(Error::InvalidLength { actual: s.len(), expected: 1 });
        }
        Ok((s[0], 1))
    }
}

impl Decodable for i8 {
    open spec fn decoded(s: Seq<u8>) -> Result<(i8, nat), Error> {
        if s.len() < 1 { Err(short_input(s, 1)) } else { Ok((s[0] as i8, 1)) }
    }

    fn decode(s: &[u8]) -> (r: Result<(i8, usize), Error>) {
        if s.len() < 1 {
            return Err(Error::InvalidLength { actual: s.len(), expected: 1 });
        }
        Ok((s[0] as i8, 1))
    }
}

/// 0xFF is true; any other byte is false.
impl Decodable for bool {
    open spec fn decoded(s: Seq<u8>) -> Result<(bool, nat), Error> {
        if s.len() < 1 { Err(short_input(s, 1)) } else { Ok((s[0] == 0xFF, 1)) }
    }

    fn decode(s: &[u8]) -> (r: Result<(bool, usize), Error>) {
        if s.len() < 1 {
            return Err(Error::InvalidLength { actual: s.len(), expected: 1 });
        }
        Ok((s[0] == 0xFF, 1))
    }
}

impl Decodable for u16 {
    open spec fn decoded(s: Seq<u8>) -> Result<(u16, nat), Error> {
        if s.len() < 2 { Err(short_input(s, 2)) } else { Ok((read_le16(s, 0), 2)) }
    }

    fn decode(s: &[u8]) -> (r: Result<(u16, usize), Error>) {
        if s.len() < 2 {
            return Err(Error::InvalidLength { actual: s.len(), expected: 2 });
        }
        Ok((le_read_u16(s, 0), 2))
    }
}

impl Decodable for i16 {
    open spec fn decoded(s: Seq<u8>) -> Result<(i16, nat), Error> {
        if s.len() < 2 { Err(short_input(s, 2)) } else { Ok((read_le16(s, 0) as i16, 2)) }
    }

    fn decode(s: &[u8]) -> (r: Result<(i16, usize), Error>) {
        if s.len() < 2 {
            return Err(Error::InvalidLength { actual: s.len(), expected: 2 });
        }
        Ok((le_read_u16(s, 0) as i16, 2))
    }
}

impl Decodable for u32 {
    open spec fn decoded(s: Seq<u8>) -> Result<(u32, nat), Error> {
        if s.len() < 4 { Err(short_input(s, 4)) } else { Ok((read_le32(s, 0), 4)) }
    }

    fn decode(s: &[u8]) -> (r: Result<(u32, usize), Error>) {
        if s.len() < 4 {
            return Err(Error::InvalidLength { actual: s.len(), expected: 4 });
        }
        Ok((le_read_u32(s, 0), 4))
    }
}

impl Decodable for i32 {
    open spec fn decoded(s: Seq<u8>) -> Result<(i32, nat), Error> {
        if s.len() < 4 { Err(short_input(s, 4)) } else { Ok((read_le32(s, 0) as i32, 4)) }
    }

    fn decode(s: &[u8]) -> (r: Result<(i32, usize), Error>) {
        if s.len() < 4 {
            return Err(Error::InvalidLength { actual: s.len(), expected: 4 });
        }
        Ok((le_read_u32(s, 0) as i32, 4))
    }
}

impl Decodable for u64 {
    open spec fn decoded(s: Seq<u8>) -> Result<(u64, nat), Error> {
        if s.len() < 8 { Err(short_input(s, 8)) } else { Ok((read_le64(s, 0), 8)) }
    }

    fn decode(s: &[u8]) -> (r: Result<(u64, usize), Error>) {
        if s.len() < 8 {
            return Err(Error::InvalidLength { actual: s.len(), expected: 8 });
        }
        Ok((le_read_u64(s, 0), 8))
    }
}

impl Decodable for i64 {
    open spec fn decoded(s: Seq<u8>) -> Result<(i64, nat), Error> {
        if s.len() < 8 { Err(short_input(s, 8)) } else { Ok((read_le64(s, 0) as i64, 8)) }
    }

    fn decode(s: &[u8]) -> (r: Result<(i64, usize), Error>) {
        if s.len() < 8 {
            return Err(Error::InvalidLength { actual: s.len(), expected: 8 });
        }
        Ok((le_read_u64(s, 0) as i64, 8))
    }
}

} // verus!
