//! Byte buffers from the `bytes` crate and endian reads from `byteorder`,
//! with the contracts that the encoders and decoders of this crate rely on.

use byteorder::{BigEndian, ByteOrder, LittleEndian};
use bytes::{BufMut, Bytes, BytesMut};
use vstd::prelude::*;

verus! {

#[verifier::external_type_specification]
#[verifier::external_body]
pub struct ExBytesMut(BytesMut);

#[verifier::external_type_specification]
#[verifier::external_body]
pub struct ExBytes(Bytes);

/// The bytes written so far into a `BytesMut`.
pub uninterp spec fn bytes_mut_view(b: BytesMut) -> Seq<u8>;

/// The bytes held by a `Bytes`.
pub uninterp spec fn bytes_view(b: Bytes) -> Seq<u8>;

/// `n` zero bytes.
pub open spec fn zeros(n: nat) -> Seq<u8> {
    Seq::new(n, |i: int| 0u8)
}

/// Little-endian bytes of a `u16`.
pub open spec fn le16(v: u16) -> Seq<u8> {
    seq![(v % 256) as u8, (v / 256) as u8]
}

/// Big-endian bytes of a `u16`.
pub open spec fn be16(v: u16) -> Seq<u8> {
    seq![(v / 256) as u8, (v % 256) as u8]
}

/// Little-endian bytes of a `u32`.
pub open spec fn le32(v: u32) -> Seq<u8> {
    seq![(v % 256) as u8, ((v / 256) % 256) as u8, ((v / 65536) % 256) as u8, (v / 16777216) as u8]
}

/// Big-endian bytes of a `u32`.
pub open spec fn be32(v: u32) -> Seq<u8> {
    seq![(v / 16777216) as u8, ((v / 65536) % 256) as u8, ((v / 256) % 256) as u8, (v % 256) as u8]
}

/// Little-endian bytes of a `u64`.
pub open spec fn le64(v: u64) -> Seq<u8> {
    le32((v % 0x1_0000_0000) as u32) + le32((v / 0x1_0000_0000) as u32)
}

/// The `u16` whose little-endian bytes are `b0, b1`.
pub open spec fn u16_of_le(b0: u8, b1: u8) -> u16 {
    (b0 as int + 256 * (b1 as int)) as u16
}

/// The `u32` whose little-endian bytes are `b0 .. b3`.
pub open spec fn u32_of_le(b0: u8, b1: u8, b2: u8, b3: u8) -> u32 {
    (b0 as int + 256 * (b1 as int) + 65536 * (b2 as int) + 16777216 * (b3 as int)) as u32
}

/// Little-endian `u16` at position `at` of `s`.
pub open spec fn read_le16(s: Seq<u8>, at: int) -> u16 {
    u16_of_le(s[at], s[at + 1])
}

/// Little-endian `u32` at position `at` of `s`.
pub open spec fn read_le32(s: Seq<u8>, at: int) -> u32 {
    u32_of_le(s[at], s[at + 1], s[at + 2], s[at + 3])
}

/// Little-endian `u64` at position `at` of `s`.
pub open spec fn read_le64(s: Seq<u8>, at: int) -> u64 {
    (read_le32(s, at) as nat + read_le32(s, at + 4) as nat * 0x1_0000_0000) as u64
}

/// Big-endian `u16` at position `at` of `s`.
pub open spec fn read_be16(s: Seq<u8>, at: int) -> u16 {
    u16_of_le(s[at + 1], s[at])
}

/// Big-endian `u32` at position `at` of `s`.
pub open spec fn read_be32(s: Seq<u8>, at: int) -> u32 {
    u32_of_le(s[at + 3], s[at + 2], s[at + 1], s[at])
}

/// `BytesMut::new`: an empty buffer.
#[verifier::external_body]
pub(crate) fn new_bytes_mut() -> (b: BytesMut)
    ensures
        bytes_mut_view(b) == Seq::<u8>::empty(),
{
    BytesMut::new()
}

/// `BytesMut::len`: the number of bytes written.
#[verifier::external_body]
pub(crate) fn bytes_mut_len(b: &BytesMut) -> (n: usize)
    ensures
        n == bytes_mut_view(*b).len(),
{
    b.len()
}

/// `BufMut::put_u8` on a `BytesMut`: appends one byte.
#[verifier::external_body]
pub(crate) fn put_u8(b: &mut BytesMut, v: u8)
    requires
        bytes_mut_view(*old(b)).len() + 1 <= usize::MAX,
    ensures
        bytes_mut_view(*final(b)) == bytes_mut_view(*old(b)).push(v),
{
    b.put_u8(v)
}

/// `BufMut::put_u16_le` on a `BytesMut`: appends two bytes, low byte first.
#[verifier::external_body]
pub(crate) fn put_u16_le(b: &mut BytesMut, v: u16)
    requires
        bytes_mut_view(*old(b)).len() + 2 <= usize::MAX,
    ensures
        bytes_mut_view(*final(b)) == bytes_mut_view(*old(b)) + le16(v),
{
    b.put_u16_le(v)
}

/// `BufMut::put_u16` on a `BytesMut`: appends two bytes, high byte first.
#[verifier::external_body]
pub(crate) fn put_u16_be(b: &mut BytesMut, v: u16)
    requires
        bytes_mut_view(*old(b)).len() + 2 <= usize::MAX,
    ensures
        bytes_mut_view(*final(b)) == bytes_mut_view(*old(b)) + be16(v),
{
    b.put_u16(v)
}

/// `BufMut::put_u32_le` on a `BytesMut`: appends four bytes, lowest first.
#[verifier::external_body]
pub(crate) fn put_u32_le(b: &mut BytesMut, v: u32)
    requires
        bytes_mut_view(*old(b)).len() + 4 <= usize::MAX,
    ensures
        bytes_mut_view(*final(b)) == bytes_mut_view(*old(b)) + le32(v),
{
    b.put_u32_le(v)
}

/// `BufMut::put_u32` on a `BytesMut`: appends four bytes, highest first.
#[verifier::external_body]
pub(crate) fn put_u32_be(b: &mut BytesMut, v: u32)
    requires
        bytes_mut_view(*old(b)).len() + 4 <= usize::MAX,
    ensures
        bytes_mut_view(*final(b)) == bytes_mut_view(*old(b)) + be32(v),
{
    b.put_u32(v)
}

/// `BufMut::put_u64_le` on a `BytesMut`: appends eight bytes, lowest first.
#[verifier::external_body]
pub(crate) fn put_u64_le(b: &mut BytesMut, v: u64)
    requires
        bytes_mut_view(*old(b)).len() + 8 <= usize::MAX,
    ensures
        bytes_mut_view(*final(b)) == bytes_mut_view(*old(b)) + le64(v),
{
    b.put_u64_le(v)
}

/// `BufMut::put_slice` on a `BytesMut`: appends the bytes of `s`.
#[verifier::external_body]
pub(crate) fn put_slice(b: &mut BytesMut, s: &[u8])
    requires
        bytes_mut_view(*old(b)).len() + s@.len() <= usize::MAX,
    ensures
        bytes_mut_view(*final(b)) == bytes_mut_view(*old(b)) + s@,
{
    b.put_slice(s)
}

/// `BytesMut` dereferenced to the slice of the bytes written.
#[verifier::external_body]
pub(crate) fn bytes_mut_as_slice(b: &BytesMut) -> (s: &[u8])
    ensures
        s@ == bytes_mut_view(*b),
{
    &b[..]
}

/// `BytesMut::split_to`: takes the first `at` bytes off the buffer.
#[verifier::external_body]
pub(crate) fn bytes_mut_split_to(b: &mut BytesMut, at: usize) -> (r: BytesMut)
    requires
        at <= bytes_mut_view(*old(b)).len(),
    ensures
        bytes_mut_view(r) == bytes_mut_view(*old(b)).take(at as int),
        bytes_mut_view(*final(b)) == bytes_mut_view(*old(b)).skip(at as int),
{
    b.split_to(at)
}

/// `BytesMut::freeze`: the written bytes as an immutable `Bytes`.
#[verifier::external_body]
pub(crate) fn freeze(b: BytesMut) -> (r: Bytes)
    ensures
        bytes_view(r) == bytes_mut_view(b),
{
    b.freeze()
}

/// `Bytes::new`: no bytes.
#[verifier::external_body]
pub(crate) fn empty_bytes() -> (r: Bytes)
    ensures
        bytes_view(r) == Seq::<u8>::empty(),
{
    Bytes::new()
}

/// `Bytes::from_static`: a `Bytes` over static bytes.
#[verifier::external_body]
pub(crate) fn bytes_from_static(s: &'static [u8]) -> (r: Bytes)
    ensures
        bytes_view(r) == s@,
{
    Bytes::from_static(s)
}

/// `Bytes::clone`: another handle to the same bytes.
pub assume_specification[ <Bytes as Clone>::clone ](b: &Bytes) -> (r: Bytes)
    ensures
        bytes_view(r) == bytes_view(*b),
;

/// `String::from_utf8`: the text that `v` encodes, if `v` is valid UTF-8.
#[verifier::external_body]
pub(crate) fn string_from_utf8(v: Vec<u8>) -> (r: Option<String>)
    ensures
        r is Some <==> vstd::utf8::valid_utf8(v@),
        r matches Some(s) ==> s@ == vstd::utf8::decode_utf8(v@),
{
    String::from_utf8(v).ok()
}

/// What `String::from_utf8_lossy` makes of the bytes `b`: their text, each
/// invalid sequence replaced by U+FFFD.
pub uninterp spec fn utf8_lossy(b: Seq<u8>) -> Seq<char>;

/// `String::from_utf8_lossy`, made owned: the text of `b` with invalid
/// sequences replaced; valid UTF-8 comes out as the text it encodes, as
/// std documents.
#[verifier::external_body]
pub(crate) fn string_from_utf8_lossy(b: &[u8]) -> (s: String)
    ensures
        s@ == utf8_lossy(b@),
        vstd::utf8::valid_utf8(b@) ==> s@ == vstd::utf8::decode_utf8(b@),
{
    String::from_utf8_lossy(b).into_owned()
}

/// `Bytes::len`.
#[verifier::external_body]
pub(crate) fn bytes_len(b: &Bytes) -> (n: usize)
    ensures
        n == bytes_view(*b).len(),
{
    b.len()
}

/// `Bytes` dereferenced to the slice of its bytes.
#[verifier::external_body]
pub(crate) fn bytes_as_slice(b: &Bytes) -> (s: &[u8])
    ensures
        s@ == bytes_view(*b),
{
    &b[..]
}

/// `Bytes::slice(start..end)`: the bytes between two positions, sharing storage.
#[verifier::external_body]
pub(crate) fn bytes_slice(b: &Bytes, start: usize, end: usize) -> (r: Bytes)
    requires
        start <= end <= bytes_view(*b).len(),
    ensures
        bytes_view(r) == bytes_view(*b).subrange(start as int, end as int),
{
    b.slice(start..end)
}

/// `LittleEndian::read_u16` on the two bytes at `at`.
#[verifier::external_body]
pub(crate) fn le_read_u16(s: &[u8], at: usize) -> (v: u16)
    requires
        at + 2 <= s@.len(),
    ensures
        v == read_le16(s@, at as int),
{
    LittleEndian::read_u16(&s[at..at + 2])
}

/// `LittleEndian::read_u32` on the four bytes at `at`.
#[verifier::external_body]
pub(crate) fn le_read_u32(s: &[u8], at: usize) -> (v: u32)
    requires
        at + 4 <= s@.len(),
    ensures
        v == read_le32(s@, at as int),
{
    LittleEndian::read_u32(&s[at..at + 4])
}

/// `LittleEndian::read_u64` on the eight bytes at `at`.
#[verifier::external_body]
pub(crate) fn le_read_u64(s: &[u8], at: usize) -> (v: u64)
    requires
        at + 8 <= s@.len(),
    ensures
        v == read_le64(s@, at as int),
{
    LittleEndian::read_u64(&s[at..at + 8])
}

/// `BigEndian::read_u16` on the two bytes at `at`.
#[verifier::external_body]
pub(crate) fn be_read_u16(s: &[u8], at: usize) -> (v: u16)
    requires
        at + 2 <= s@.len(),
    ensures
        v == read_be16(s@, at as int),
{
    BigEndian::read_u16(&s[at..at + 2])
}

/// `BigEndian::read_u32` on the four bytes at `at`.
#[verifier::external_body]
pub(crate) fn be_read_u32(s: &[u8], at: usize) -> (v: u32)
    requires
        at + 4 <= s@.len(),
    ensures
        v == read_be32(s@, at as int),
{
    BigEndian::read_u32(&s[at..at + 4])
}

} // verus!
