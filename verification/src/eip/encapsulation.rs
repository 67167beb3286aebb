//! Encapsulation packets: a 24-byte header followed by the data portion.

use crate::buf::{
    bytes_as_slice, bytes_mut_as_slice, bytes_mut_len, bytes_mut_split_to, bytes_mut_view,
    bytes_view, freeze, le16, le32, zeros, le_read_u16, le_read_u32, put_slice, put_u16_le, put_u32_le,
    read_le16, read_le32,
};
use crate::codec::Encodable;
use crate::consts::{ENCAPSULATION_DATA_MAX_LEN, ENCAPSULATION_HEADER_LEN};
use crate::error::{eip_error_of_status, EipError, Error};
use bytes::{Bytes, BytesMut};
use vstd::prelude::*;

verus! {

/// Encapsulation header
#[derive(Debug, Clone, Copy, PartialEq, Eq)]
pub struct EncapsulationHeader {
    pub command: u16,
    /// length in bytes of the data portion
    pub length: u16,
    pub session_handle: u32,
    pub status: u32,
    pub sender_context: [u8; 8],
    pub options: u32,
}

/// Encapsulation packet: header and data portion.
#[derive(Debug)]
pub struct EncapsulationPacket<D> {
    pub hdr: EncapsulationHeader,
    pub data: D,
}

/// The 24 bytes of an encoded header.
pub open spec fn header_bytes(h: EncapsulationHeader) -> Seq<u8> {
    le16(h.command) + le16(h.length) + le32(h.session_handle) + le32(h.status) + h.sender_context@
        + le32(h.options)
}

/// `h` is the header that the 24 bytes at position `at` of `s` encode.
pub open spec fn header_at(s: Seq<u8>, at: int, h: EncapsulationHeader) -> bool {
    &&& h.command == read_le16(s, at)
    &&& h.length == read_le16(s, at + 2)
    &&& h.session_handle == read_le32(s, at + 4)
    &&& h.status == read_le32(s, at + 8)
    &&& h.sender_context@ == s.subrange(at + 12, at + 20)
    &&& h.options == read_le32(s, at + 20)
}

impl EncapsulationHeader {
    /// A header with every field zero.
    pub fn new() -> (h: EncapsulationHeader)
        ensures
            h.command == 0 && h.length == 0 && h.session_handle == 0 && h.status == 0
                && h.options == 0 && h.sender_context@ == zeros(8),
    {
        let h = EncapsulationHeader {
            command: 0,
            length: 0,
            session_handle: 0,
            status: 0,
            sender_context: [0u8, 0, 0, 0, 0, 0, 0, 0],
            options: 0,
        };
        assert(h.sender_context@ =~= zeros(8));
        h
    }
}

impl Default for EncapsulationHeader {
    fn default() -> (h: EncapsulationHeader)
        ensures
            h.command == 0 && h.length == 0 && h.session_handle == 0 && h.status == 0
                && h.options == 0 && h.sender_context@ == zeros(8),
    {
        EncapsulationHeader::new()
    }
}

impl EncapsulationHeader {
    /// Decodes the header from the first 24 bytes of `s`.
    pub fn decode(s: &[u8]) -> (h: EncapsulationHeader)
        requires
            s@.len() >= 24,
        ensures
            header_at(s@, 0, h),
    {
        let h = EncapsulationHeader {
            command: le_read_u16(s, 0),
            length: le_read_u16(s, 2),
            session_handle: le_read_u32(s, 4),
            status: le_read_u32(s, 8),
            sender_context: [s[12], s[13], s[14], s[15], s[16], s[17], s[18], s[19]],
            options: le_read_u32(s, 20),
        };
        assert(h.sender_context@ =~= s@.subrange(12, 20));
        h
    }

    /// Checks the command of a reply.
    pub fn ensure_command(&self, command: u16) -> (r: Result<(), Error>)
        ensures
            r is Ok <==> self.command == command,
            r matches Err(e) ==> e == Error::UnexpectedCommand(self.command),
    {
        if self.command != command {
            Err(Error::UnexpectedCommand(self.command))
        } else {
            Ok(())
        }
    }

    /// Appends the 24 header bytes to `dst`.
    pub fn encode_ref(&self, dst: &mut BytesMut)
        requires
            bytes_mut_view(*old(dst)).len() + 24 <= usize::MAX,
        ensures
            bytes_mut_view(*final(dst)) == bytes_mut_view(*old(dst)) + header_bytes(*self),
    {
        let ghost start = bytes_mut_view(*dst);
        put_u16_le(dst, self.command);
        put_u16_le(dst, self.length);
        put_u32_le(dst, self.session_handle);
        put_u32_le(dst, self.status);
        put_slice(dst, self.sender_context.as_slice());
        put_u32_le(dst, self.options);
        assert(bytes_mut_view(*dst) =~= start + header_bytes(*self));
    }
}

impl Encodable for EncapsulationHeader {
    open spec fn encodable(&self) -> bool {
        true
    }

    open spec fn encoding(&self) -> Seq<u8> {
        header_bytes(*self)
    }

    fn encode(self, dst: &mut BytesMut) -> (r: Result<(), Error>) {
        self.encode_ref(dst);
        Ok(())
    }

    fn bytes_count(&self) -> (n: usize) {
        ENCAPSULATION_HEADER_LEN
    }
}

/// `h` with its length field set to `len`.
pub open spec fn with_length(h: EncapsulationHeader, len: u16) -> EncapsulationHeader {
    EncapsulationHeader { length: len, ..h }
}

impl<D: Encodable> Encodable for EncapsulationPacket<D> {
    /// The data portion fits the 16-bit length field and the 64 KiB packet.
    open spec fn encodable(&self) -> bool {
        self.data.encodable() && self.data.encoding().len() <= ENCAPSULATION_DATA_MAX_LEN
    }

    /// The header, with its length field set to the data length, then the data.
    open spec fn encoding(&self) -> Seq<u8> {
        header_bytes(with_length(self.hdr, self.data.encoding().len() as u16)) + self.data.encoding()
    }


    fn encode(self, dst: &mut BytesMut) -> (r: Result<(), Error>) {
        let mut this = self;
        let data_len = this.data.bytes_count();
        this.hdr.length = data_len as u16;
        this.hdr.encode_ref(dst);
        let ghost mid = bytes_mut_view(*dst);
        let r = this.data.encode(dst);
        assert(bytes_mut_view(*dst) =~= bytes_mut_view(*old(dst)) + self.encoding());
        r
    }

    fn bytes_count(&self) -> (n: usize) {
        ENCAPSULATION_HEADER_LEN + self.data.bytes_count()
    }
}

/// What the decoder makes of the bytes received so far.
pub enum FrameOutcome {
    /// not a whole packet yet: wait for more bytes
    Incomplete,
    /// a whole packet with a success status: the header (bytes 0..24, see
    /// `header_at`) and this data portion
    Packet(Seq<u8>),
    /// a malformed packet or a packet whose status reports an error
    Failed(Error),
}

/// The status field of an encapsulation header, as the error it reports.
pub open spec fn status_outcome(status: u32, data: Seq<u8>) -> FrameOutcome {
    if status == 0 {
        FrameOutcome::Packet(data)
    } else if status > 0xFFFF {
        FrameOutcome::Failed(Error::Eip(EipError::InvalidData))
    } else {
        FrameOutcome::Failed(Error::Eip(eip_error_of_status(status as u16)))
    }
}

/// Decoding a receive buffer: a packet is a header and exactly the number
/// of data bytes that its length field gives; more bytes than that, or a
/// length that would exceed 65535 bytes in all, is an error.
pub open spec fn spec_decode_frame(s: Seq<u8>) -> FrameOutcome {
    if s.len() < 24 {
        FrameOutcome::Incomplete
    } else {
        let n = read_le16(s, 2) as int;
        if 24 + n > 0xFFFF {
            FrameOutcome::Failed(Error::Eip(EipError::InvalidLength))
        } else if s.len() < 24 + n {
            FrameOutcome::Incomplete
        } else if s.len() > 24 + n {
            FrameOutcome::Failed(Error::Eip(EipError::InvalidLength))
        } else {
            status_outcome(read_le32(s, 8), s.skip(24))
        }
    }
}

/// Codec of the client side of an encapsulation session.
#[derive(Debug, Default, PartialEq)]
pub struct ClientCodec {}

impl ClientCodec {
    pub fn new() -> ClientCodec {
        ClientCodec {}
    }

    /// Takes one packet from the receive buffer `src` if it holds a whole one.
    pub fn decode(&mut self, src: &mut BytesMut) -> (r: Result<Option<EncapsulationPacket<Bytes>>, Error>)
        ensures
            match spec_decode_frame(bytes_mut_view(*old(src))) {
                FrameOutcome::Incomplete => r matches Ok(None) && bytes_mut_view(*final(src))
                    == bytes_mut_view(*old(src)),
                FrameOutcome::Packet(data) => r matches Ok(Some(p)) && header_at(
                    bytes_mut_view(*old(src)),
                    0,
                    p.hdr,
                ) && bytes_view(p.data) == data && bytes_mut_view(*final(src)).len() == 0,
                FrameOutcome::Failed(e) => r == Err::<Option<EncapsulationPacket<Bytes>>, Error>(e),
            },
    {
        let ghost s = bytes_mut_view(*src);
        let len = bytes_mut_len(src);
        if len < ENCAPSULATION_HEADER_LEN {
            return Ok(None);
        }
        let data_len = le_read_u16(bytes_mut_as_slice(src), 2) as usize;
        if ENCAPSULATION_HEADER_LEN + data_len > 0xFFFF {
            return Err(Error::Eip(EipError::InvalidLength));
        }
        if len < ENCAPSULATION_HEADER_LEN + data_len {
            return Ok(None);
        }
        if len > ENCAPSULATION_HEADER_LEN + data_len {
            return Err(Error::Eip(EipError::InvalidLength));
        }
        let header_data = freeze(bytes_mut_split_to(src, ENCAPSULATION_HEADER_LEN));
        let reply_data = freeze(bytes_mut_split_to(src, data_len));
        assert(bytes_view(header_data) =~= s.take(24));
        assert(bytes_view(reply_data) =~= s.skip(24));
        let hdr = EncapsulationHeader::decode(bytes_as_slice(&header_data));
        assert(s.take(24).subrange(12, 20) =~= s.subrange(12, 20));
        if hdr.status == 0 {
            Ok(Some(EncapsulationPacket { hdr, data: reply_data }))
        } else if hdr.status > 0xFFFF {
            Err(Error::Eip(EipError::InvalidData))
        } else {
            Err(Error::Eip(EipError::from_status(hdr.status as u16)))
        }
    }
}

/// Reading back a little-endian `u16` gives the value written.
pub proof fn lemma_le16_roundtrip(v: u16, s: Seq<u8>, at: int)
    requires
        0 <= at,
        at + 2 <= s.len(),
        s.subrange(at, at + 2) == le16(v),
    ensures
        read_le16(s, at) == v,
{
    assert(s[at] == le16(v)[0]);
    assert(s[at + 1] == le16(v)[1]);
}

/// Reading back a little-endian `u32` gives the value written.
pub proof fn lemma_le32_roundtrip(v: u32, s: Seq<u8>, at: int)
    requires
        0 <= at,
        at + 4 <= s.len(),
        s.subrange(at, at + 4) == le32(v),
    ensures
        read_le32(s, at) == v,
{
    assert(s[at] == le32(v)[0]);
    assert(s[at + 1] == le32(v)[1]);
    assert(s[at + 2] == le32(v)[2]);
    assert(s[at + 3] == le32(v)[3]);
}

/// Decoding an encoded packet gives it back: a packet written with a
/// success status and a data portion that fits is read as that header
/// (with its length field set) and that data, and no byte is left over.
pub proof fn lemma_frame_roundtrip(h: EncapsulationHeader, data: Seq<u8>)
    requires
        h.status == 0,
        data.len() <= ENCAPSULATION_DATA_MAX_LEN,
    ensures
        spec_decode_frame(header_bytes(with_length(h, data.len() as u16)) + data)
            == FrameOutcome::Packet(data),
        header_at(
            header_bytes(with_length(h, data.len() as u16)) + data,
            0,
            with_length(h, data.len() as u16),
        ),
{
    let hh = with_length(h, data.len() as u16);
    let s = header_bytes(hh) + data;
    assert(s.subrange(0, 2) =~= le16(hh.command));
    assert(s.subrange(2, 4) =~= le16(hh.length));
    assert(s.subrange(4, 8) =~= le32(hh.session_handle));
    assert(s.subrange(8, 12) =~= le32(hh.status));
    assert(s.subrange(12, 20) =~= hh.sender_context@);
    assert(s.subrange(20, 24) =~= le32(hh.options));
    lemma_le16_roundtrip(hh.command, s, 0);
    lemma_le16_roundtrip(hh.length, s, 2);
    lemma_le32_roundtrip(hh.session_handle, s, 4);
    lemma_le32_roundtrip(hh.status, s, 8);
    lemma_le32_roundtrip(hh.options, s, 20);
    assert(s.skip(24) =~= data);
}

} // verus!
