//! Encapsulation commands sent by a client, and their encoding.

use crate::buf::{bytes_mut_view, le16, le32, put_slice, put_u16_le, put_u32_le, zeros};
use crate::codec::Encodable;
use crate::consts::{
    ENCAPSULATION_DATA_MAX_LEN, ENCAPSULATION_HEADER_LEN, EIP_COMMAND_LIST_IDENTITY,
    EIP_COMMAND_LIST_INTERFACES, EIP_COMMAND_LIST_SERVICE, EIP_COMMAND_NOP,
    EIP_COMMAND_REGISTER_SESSION, EIP_COMMAND_SEND_RRDATA, EIP_COMMAND_SEND_UNIT_DATA,
    EIP_COMMAND_UNREGISTER_SESSION,
};
use crate::eip::encapsulation::{
    header_at, header_bytes, lemma_frame_roundtrip, spec_decode_frame, with_length,
    EncapsulationHeader, EncapsulationPacket, FrameOutcome,
};
use crate::error::Error;
use bytes::BytesMut;
use vstd::prelude::*;

verus! {

/// A packet with the given command and session handle and zero elsewhere,
/// carrying `data` of length `len`.
pub open spec fn command_packet_bytes(command: u16, session_handle: u32, data: Seq<u8>) -> Seq<u8> {
    le16(command) + le16(data.len() as u16) + le32(session_handle) + le32(0) + zeros(8) + le32(0)
        + data
}

/// A command packet that this library writes is read back as what it
/// holds: the decoder takes it whole, with its command, its session handle,
/// a success status and its data.
pub proof fn lemma_command_packet_roundtrip(command: u16, session_handle: u32, data: Seq<u8>)
    requires
        data.len() <= ENCAPSULATION_DATA_MAX_LEN,
    ensures
        spec_decode_frame(command_packet_bytes(command, session_handle, data)) == FrameOutcome::Packet(
            data,
        ),
        exists|h: EncapsulationHeader|
            header_at(command_packet_bytes(command, session_handle, data), 0, h) && h.command
                == command && h.session_handle == session_handle && h.status == 0 && h.length
                == data.len(),
{
    let h = EncapsulationHeader {
        command,
        length: 0,
        session_handle,
        status: 0,
        sender_context: [0u8, 0u8, 0u8, 0u8, 0u8, 0u8, 0u8, 0u8],
        options: 0,
    };
    let hh = with_length(h, data.len() as u16);
    assert(h.sender_context@ =~= zeros(8));
    assert(header_bytes(hh) + data =~= command_packet_bytes(command, session_handle, data));
    lemma_frame_roundtrip(h, data);
    assert(header_at(command_packet_bytes(command, session_handle, data), 0, hh));
}

/// Encodes a packet with the given command and session handle around `data`.
fn encode_command<D: Encodable>(command: u16, session_handle: u32, data: D, dst: &mut BytesMut)
    requires
        data.encodable(),
        data.encoding().len() <= ENCAPSULATION_DATA_MAX_LEN,
        bytes_mut_view(*old(dst)).len() + 24 + data.encoding().len() <= usize::MAX,
    ensures
        bytes_mut_view(*final(dst)) == bytes_mut_view(*old(dst)) + command_packet_bytes(
            command,
            session_handle,
            data.encoding(),
        ),
{
    let mut hdr = EncapsulationHeader::new();
    hdr.command = command;
    hdr.session_handle = session_handle;
    let ghost enc = data.encoding();
    let pkt = EncapsulationPacket { hdr, data };
    let _ = pkt.encode(dst);
    assert(header_bytes(with_length(hdr, enc.len() as u16)) + enc =~= command_packet_bytes(
        command,
        session_handle,
        enc,
    ));
}

/// NOP, with data that the receiver ignores
pub struct Nop<D> {
    pub data: D,
}

impl<D> Nop<D> {
    /// The command code of NOP.
    pub fn command_code() -> (c: u16)
        ensures
            c == EIP_COMMAND_NOP,
    {
        EIP_COMMAND_NOP
    }
}

impl<D: Encodable> Encodable for Nop<D> {
    open spec fn encodable(&self) -> bool {
        self.data.encodable() && self.data.encoding().len() <= ENCAPSULATION_DATA_MAX_LEN
    }

    open spec fn encoding(&self) -> Seq<u8> {
        command_packet_bytes(EIP_COMMAND_NOP, 0, self.data.encoding())
    }

    fn encode(self, dst: &mut BytesMut) -> (r: Result<(), Error>) {
        encode_command(EIP_COMMAND_NOP, 0, self.data, dst);
        Ok(())
    }

    fn bytes_count(&self) -> (n: usize) {
        ENCAPSULATION_HEADER_LEN + self.data.bytes_count()
    }
}

/// ListIdentity request
pub struct ListIdentity;

/// ListInterfaces request
pub struct ListInterfaces;

/// ListServices request
pub struct ListServices;

/// RegisterSession request
pub struct RegisterSession;

/// UnRegisterSession request
pub struct UnRegisterSession {
    pub session_handle: u32,
}

impl Encodable for ListIdentity {
    open spec fn encodable(&self) -> bool {
        true
    }

    open spec fn encoding(&self) -> Seq<u8> {
        command_packet_bytes(EIP_COMMAND_LIST_IDENTITY, 0, Seq::empty())
    }

    fn encode(self, dst: &mut BytesMut) -> (r: Result<(), Error>) {
        encode_command(EIP_COMMAND_LIST_IDENTITY, 0, (), dst);
        Ok(())
    }

    fn bytes_count(&self) -> (n: usize) {
        ENCAPSULATION_HEADER_LEN
    }
}

impl Encodable for ListInterfaces {
    open spec fn encodable(&self) -> bool {
        true
    }

    open spec fn encoding(&self) -> Seq<u8> {
        command_packet_bytes(EIP_COMMAND_LIST_INTERFACES, 0, Seq::empty())
    }

    fn encode(self, dst: &mut BytesMut) -> (r: Result<(), Error>) {
        encode_command(EIP_COMMAND_LIST_INTERFACES, 0, (), dst);
        Ok(())
    }

    fn bytes_count(&self) -> (n: usize) {
        ENCAPSULATION_HEADER_LEN
    }
}

impl Encodable for ListServices {
    open spec fn encodable(&self) -> bool {
        true
    }

    open spec fn encoding(&self) -> Seq<u8> {
        command_packet_bytes(EIP_COMMAND_LIST_SERVICE, 0, Seq::empty())
    }

    fn encode(self, dst: &mut BytesMut) -> (r: Result<(), Error>) {
        encode_command(EIP_COMMAND_LIST_SERVICE, 0, (), dst);
        Ok(())
    }

    fn bytes_count(&self) -> (n: usize) {
        ENCAPSULATION_HEADER_LEN
    }
}

/// Protocol version 1, no options.
pub open spec fn register_session_data() -> Seq<u8> {
    seq![0x01u8, 0x00u8, 0x00u8, 0x00u8]
}

impl Encodable for RegisterSession {
    open spec fn encodable(&self) -> bool {
        true
    }

    open spec fn encoding(&self) -> Seq<u8> {
        command_packet_bytes(EIP_COMMAND_REGISTER_SESSION, 0, register_session_data())
    }

    fn encode(self, dst: &mut BytesMut) -> (r: Result<(), Error>) {
        let data: &[u8] = &[0x01, 0x00, 0x00, 0x00];
        assert(data@ =~= register_session_data());
        encode_command(EIP_COMMAND_REGISTER_SESSION, 0, data, dst);
        Ok(())
    }

    fn bytes_count(&self) -> (n: usize) {
        ENCAPSULATION_HEADER_LEN + 4
    }
}

impl Encodable for UnRegisterSession {
    open spec fn encodable(&self) -> bool {
        true
    }

    open spec fn encoding(&self) -> Seq<u8> {
        command_packet_bytes(EIP_COMMAND_UNREGISTER_SESSION, self.session_handle, Seq::empty())
    }

    fn encode(self, dst: &mut BytesMut) -> (r: Result<(), Error>) {
        encode_command(EIP_COMMAND_UNREGISTER_SESSION, self.session_handle, (), dst);
        Ok(())
    }

    fn bytes_count(&self) -> (n: usize) {
        ENCAPSULATION_HEADER_LEN
    }
}

/// SendRRData: an unconnected request carried as the unconnected data item
/// of a two item common packet (null address item first).
pub struct SendRRData<D> {
    pub session_handle: u32,
    /// operation timeout, in seconds
    pub timeout: u16,
    pub data: D,
}

/// The data portion of SendRRData around a request of bytes `d`.
pub open spec fn rr_data_bytes(timeout: u16, d: Seq<u8>) -> Seq<u8> {
    le32(0) + le16(timeout) + le16(2) + seq![0u8, 0u8, 0u8, 0u8] + le16(0xB2) + le16(d.len() as u16) + d
}

impl<D: Encodable> Encodable for SendRRData<D> {
    open spec fn encodable(&self) -> bool {
        self.data.encodable() && 16 + self.data.encoding().len() <= ENCAPSULATION_DATA_MAX_LEN
    }

    open spec fn encoding(&self) -> Seq<u8> {
        command_packet_bytes(
            EIP_COMMAND_SEND_RRDATA,
            self.session_handle,
            rr_data_bytes(self.timeout, self.data.encoding()),
        )
    }

    fn encode(self, dst: &mut BytesMut) -> (r: Result<(), Error>) {
        let data_item_len = self.data.bytes_count();
        let body = RRDataBody { timeout: self.timeout, data: self.data };
        encode_command(EIP_COMMAND_SEND_RRDATA, self.session_handle, body, dst);
        Ok(())
    }

    fn bytes_count(&self) -> (n: usize) {
        ENCAPSULATION_HEADER_LEN + 16 + self.data.bytes_count()
    }
}

/// The data portion of SendRRData.
pub struct RRDataBody<D> {
    pub timeout: u16,
    pub data: D,
}

impl<D: Encodable> Encodable for RRDataBody<D> {
    open spec fn encodable(&self) -> bool {
        self.data.encodable() && 16 + self.data.encoding().len() <= ENCAPSULATION_DATA_MAX_LEN
    }

    open spec fn encoding(&self) -> Seq<u8> {
        rr_data_bytes(self.timeout, self.data.encoding())
    }

    fn encode(self, dst: &mut BytesMut) -> (r: Result<(), Error>) {
        let ghost start = bytes_mut_view(*dst);
        let data_item_len = self.data.bytes_count();
        put_u32_le(dst, 0);  // interface handle, shall be 0 for CIP
        put_u16_le(dst, self.timeout);
        put_u16_le(dst, 2);  // cpf item count
        let null_addr: &[u8] = &[0, 0, 0, 0];
        put_slice(dst, null_addr);  // null address
        put_u16_le(dst, 0xB2);  // unconnected data item
        put_u16_le(dst, data_item_len as u16);
        let r = self.data.encode(dst);
        assert(bytes_mut_view(*dst) =~= start + rr_data_bytes(self.timeout, self.data.encoding()));
        r
    }

    fn bytes_count(&self) -> (n: usize) {
        16 + self.data.bytes_count()
    }
}

/// SendUnitData: a connected request carried as the connected data item
/// of a two item common packet, after a connected address item (or a
/// sequenced address item when a sequence number is given).
pub struct SendUnitData<D> {
    pub session_handle: u32,
    pub connection_id: u32,
    pub sequence_number: Option<u32>,
    pub data: D,
}

/// The address item of SendUnitData.
pub open spec fn unit_address_bytes(connection_id: u32, sequence_number: Option<u32>) -> Seq<u8> {
    match sequence_number {
        Some(seq_id) => le16(0x8002) + le16(8) + le32(connection_id) + le32(seq_id),
        None => le16(0xA1) + le16(4) + le32(connection_id),
    }
}

/// The data portion of SendUnitData around a request of bytes `d`.
pub open spec fn unit_data_bytes(connection_id: u32, sequence_number: Option<u32>, d: Seq<u8>) -> Seq<u8> {
    le32(0) + le16(0) + le16(2) + unit_address_bytes(connection_id, sequence_number) + le16(0xB1)
        + le16(d.len() as u16) + d
}

pub struct UnitDataBody<D> {
    pub connection_id: u32,
    pub sequence_number: Option<u32>,
    pub data: D,
}

impl<D: Encodable> Encodable for UnitDataBody<D> {
    open spec fn encodable(&self) -> bool {
        self.data.encodable() && 24 + self.data.encoding().len() <= ENCAPSULATION_DATA_MAX_LEN
    }

    open spec fn encoding(&self) -> Seq<u8> {
        unit_data_bytes(self.connection_id, self.sequence_number, self.data.encoding())
    }

    fn encode(self, dst: &mut BytesMut) -> (r: Result<(), Error>) {
        let ghost start = bytes_mut_view(*dst);
        let data_item_len = self.data.bytes_count();
        put_u32_le(dst, 0);  // interface handle, shall be 0 for CIP
        put_u16_le(dst, 0);  // timeout, 0 for SendUnitData
        put_u16_le(dst, 2);  // cpf item count
        if let Some(seq_id) = self.sequence_number {
            put_u16_le(dst, 0x8002);  // sequenced address item
            put_u16_le(dst, 8);
            put_u32_le(dst, self.connection_id);
            put_u32_le(dst, seq_id);
        } else {
            put_u16_le(dst, 0xA1);  // connected address item
            put_u16_le(dst, 4);
            put_u32_le(dst, self.connection_id);
        }
        put_u16_le(dst, 0xB1);  // connected data item
        put_u16_le(dst, data_item_len as u16);
        let r = self.data.encode(dst);
        assert(bytes_mut_view(*dst) =~= start + unit_data_bytes(
            self.connection_id,
            self.sequence_number,
            self.data.encoding(),
        ));
        r
    }

    fn bytes_count(&self) -> (n: usize) {
        let addr_size: usize = if self.sequence_number.is_some() { 12 } else { 8 };
        8 + addr_size + 4 + self.data.bytes_count()
    }
}

impl<D: Encodable> Encodable for SendUnitData<D> {
    open spec fn encodable(&self) -> bool {
        self.data.encodable() && 24 + self.data.encoding().len() <= ENCAPSULATION_DATA_MAX_LEN
    }

    open spec fn encoding(&self) -> Seq<u8> {
        command_packet_bytes(
            EIP_COMMAND_SEND_UNIT_DATA,
            self.session_handle,
            unit_data_bytes(self.connection_id, self.sequence_number, self.data.encoding()),
        )
    }

    fn encode(self, dst: &mut BytesMut) -> (r: Result<(), Error>) {
        let body = UnitDataBody {
            connection_id: self.connection_id,
            sequence_number: self.sequence_number,
            data: self.data,
        };
        encode_command(EIP_COMMAND_SEND_UNIT_DATA, self.session_handle, body, dst);
        Ok(())
    }

    fn bytes_count(&self) -> (n: usize) {
        let addr_size: usize = if self.sequence_number.is_some() { 12 } else { 8 };
        ENCAPSULATION_HEADER_LEN + 8 + addr_size + 4 + self.data.bytes_count()
    }
}

} // verus!
