//! Unconnected Send (through the connection manager) and connected send
//! requests.

use crate::buf::{bytes_mut_view, le16, le32, put_u16_le, put_u32_le, put_u8, zeros};
use crate::eip::encapsulation::EncapsulationHeader;
use crate::cip::epath::EPath;
use crate::cip::mr::mr_request_bytes;
use crate::codec::Encodable;
use crate::consts::{ENCAPSULATION_DATA_MAX_LEN, EIP_COMMAND_SEND_RRDATA, EIP_COMMAND_SEND_UNIT_DATA};
use crate::eip::command::{command_packet_bytes, unit_data_bytes};
use crate::error::Error;
use bytes::BytesMut;
use vstd::prelude::*;

verus! {

/// service code of Unconnected Send
pub const SERVICE_UNCONNECTED_SEND: u8 = 0x52;

/// EPATH of the connection manager (class 6, instance 1).
pub open spec fn connection_manager_path() -> Seq<u8> {
    seq![0x20u8, 0x06u8, 0x24u8, 0x01u8]
}

/// Unconnected Send of a message router request `data` along the route
/// `path`.
#[derive(Debug)]
pub struct UnconnectedSend<D> {
    pub session_handle: u32,
    pub priority_ticks: u8,
    pub timeout_ticks: u8,
    /// encapsulation timeout
    pub timeout: u16,
    /// route path
    pub path: EPath,
    /// embedded message request
    pub data: D,
}

impl<D> UnconnectedSend<D> {
    /// With priority/tick time 0x03, timeout ticks 0xFA, no session and no
    /// encapsulation timeout.
    pub fn new(path: EPath, data: D) -> (r: Self)
        ensures
            r.session_handle == 0,
            r.priority_ticks == 0x03,
            r.timeout_ticks == 0xFA,
            r.timeout == 0,
            r.path == path,
            r.data == data,
    {
        UnconnectedSend {
            session_handle: 0,
            priority_ticks: 0x03,
            timeout_ticks: 0xFA,
            timeout: 0,
            path,
            data,
        }
    }
}

/// The request data of Unconnected Send: tick time, timeout ticks, size of
/// the embedded request, the request (padded to an even length), route path
/// size in words, a reserved byte, the route path.
pub open spec fn ucmm_bytes(priority_ticks: u8, timeout_ticks: u8, mr: Seq<u8>, path: Seq<u8>) -> Seq<u8> {
    seq![priority_ticks, timeout_ticks] + le16(mr.len() as u16) + mr + (if mr.len() % 2 == 1 {
        seq![0u8]
    } else {
        Seq::empty()
    }) + seq![(path.len() / 2) as u8, 0u8] + path
}

/// The whole packet of an Unconnected Send. Both length fields (that of
/// the encapsulation data and that of the unconnected data item) count two
/// bytes more than follow them: the size of the Unconnected Send request
/// data is taken as 8 bytes plus the padded embedded request plus the route
/// path, while its fixed part is 6 bytes.
pub open spec fn unconnected_send_bytes(
    session_handle: u32,
    timeout: u16,
    priority_ticks: u8,
    timeout_ticks: u8,
    mr: Seq<u8>,
    path: Seq<u8>,
) -> Seq<u8> {
    let request = mr_request_bytes(
        SERVICE_UNCONNECTED_SEND,
        connection_manager_path(),
        ucmm_bytes(priority_ticks, timeout_ticks, mr, path),
    );
    let declared = request.len() + 2;
    le16(EIP_COMMAND_SEND_RRDATA) + le16((16 + declared) as u16) + le32(session_handle) + le32(0)
        + zeros(8) + le32(0) + le32(0) + le16(timeout) + le16(2) + seq![0u8, 0u8, 0u8, 0u8] + le16(
        0xB2,
    ) + le16(declared as u16) + request
}

impl<D: Encodable> Encodable for UnconnectedSend<D> {
    /// The embedded request fits its 16-bit size field, the route path its
    /// 8-bit word count, and the whole packet the 64 KiB limit.
    open spec fn encodable(&self) -> bool {
        &&& self.data.encodable()
        &&& self.path.wf()
        &&& self.path.spec_bytes().len() <= 255
        &&& self.data.encoding().len() <= 0xFFFF
        &&& 16 + 6 + 6 + self.data.encoding().len() + 1 + self.path.spec_bytes().len()
            <= ENCAPSULATION_DATA_MAX_LEN
    }

    open spec fn encoding(&self) -> Seq<u8> {
        unconnected_send_bytes(
            self.session_handle,
            self.timeout,
            self.priority_ticks,
            self.timeout_ticks,
            self.data.encoding(),
            self.path.spec_bytes(),
        )
    }

    #[verifier::rlimit(80)]
    fn encode(self, dst: &mut BytesMut) -> (r: Result<(), Error>) {
        let ghost start = bytes_mut_view(*dst);
        let ghost mr = self.data.encoding();
        let ghost p = self.path.spec_bytes();
        let mr_data_len = self.data.bytes_count();
        let path_len = self.path.bytes_count_ref();
        let ucmm_len = 8 + mr_data_len + mr_data_len % 2 + path_len;
        let request_len = 6 + ucmm_len;
        let mut hdr = EncapsulationHeader::new();
        hdr.command = EIP_COMMAND_SEND_RRDATA;
        hdr.length = (16 + request_len) as u16;
        hdr.session_handle = self.session_handle;
        hdr.encode_ref(dst);
        put_u32_le(dst, 0);  // interface handle, shall be 0 for CIP
        put_u16_le(dst, self.timeout);
        put_u16_le(dst, 2);  // cpf item count
        put_u32_le(dst, 0);  // null address item
        put_u16_le(dst, 0xB2);  // unconnected data item
        put_u16_le(dst, request_len as u16);
        put_u8(dst, SERVICE_UNCONNECTED_SEND);
        put_u8(dst, 2);  // connection manager path: 2 words
        put_u8(dst, 0x20);
        put_u8(dst, 0x06);
        put_u8(dst, 0x24);
        put_u8(dst, 0x01);
        put_u8(dst, self.priority_ticks);
        put_u8(dst, self.timeout_ticks);
        put_u16_le(dst, mr_data_len as u16);  // size of MR
        let r = self.data.encode(dst);
        if mr_data_len % 2 == 1 {
            put_u8(dst, 0);  // padded 0
        }
        put_u8(dst, (path_len / 2) as u8);  // path size in words
        put_u8(dst, 0);  // reserved
        self.path.encode_ref(dst);  // padded epath
        proof {
            assert(le32(0) =~= seq![0u8, 0u8, 0u8, 0u8]);
            assert(hdr.sender_context@ =~= zeros(8));
        }
        assert(bytes_mut_view(*dst) =~= start + unconnected_send_bytes(
            self.session_handle,
            self.timeout,
            self.priority_ticks,
            self.timeout_ticks,
            mr,
            p,
        ));
        r
    }

    fn bytes_count(&self) -> (n: usize) {
        let mr_data_len = self.data.bytes_count();
        24  // encapsulation header
         + 4  // handle,
         + 2  // timeout
         + 2  // item count
         + 4  // null address
         + 2  // item type
         + 2  // item data length
         + 2 + 4  // unconnected send service code + path
         + 2  // time ticks
         + 2  // mr service size
         + mr_data_len + mr_data_len % 2  // padded if need
         + 2  // path len + reserved
         + self.path.bytes_count_ref()
    }
}

/// Connected send of a message router request `data` on a CIP connection.
#[derive(Debug)]
pub struct ConnectedSend<D> {
    pub session_handle: u32,
    pub connection_id: u32,
    pub sequence_number: Option<u32>,
    pub data: D,
}

impl<D> ConnectedSend<D> {
    /// No session, connection 0, no sequence number.
    pub fn new(data: D) -> (r: Self)
        ensures
            r.session_handle == 0,
            r.connection_id == 0,
            r.sequence_number is None,
            r.data == data,
    {
        ConnectedSend { session_handle: 0, connection_id: 0, sequence_number: None, data }
    }
}

impl<D: Encodable> Encodable for ConnectedSend<D> {
    open spec fn encodable(&self) -> bool {
        self.data.encodable() && 24 + self.data.encoding().len() <= ENCAPSULATION_DATA_MAX_LEN
    }

    open spec fn encoding(&self) -> Seq<u8> {
        command_packet_bytes(
            EIP_COMMAND_SEND_UNIT_DATA,
            self.session_handle,
            unit_data_bytes(self.connection_id, self.sequence_number, self.data.encoding()),
        )
    }

    fn encode(self, dst: &mut BytesMut) -> (r: Result<(), Error>) {
        let ghost start = bytes_mut_view(*dst);
        let ghost d = self.data.encoding();
        let data_item_len = self.data.bytes_count();
        let addr_len: usize = if self.sequence_number.is_some() { 12 } else { 8 };
        let mut hdr = EncapsulationHeader::new();
        hdr.command = EIP_COMMAND_SEND_UNIT_DATA;
        hdr.length = (8 + addr_len + 4 + data_item_len) as u16;
        hdr.session_handle = self.session_handle;
        hdr.encode_ref(dst);
        put_u32_le(dst, 0);  // interface handle, shall be 0 for CIP
        put_u16_le(dst, 0);  // timeout, 0 for SendUnitData
        put_u16_le(dst, 2);  // cpf item count
        if let Some(seq_id) = self.sequence_number {
            put_u16_le(dst, 0x8002);  // sequenced address item
            put_u16_le(dst, 8);
            put_u32_le(dst, self.connection_id);
            put_u32_le(dst, seq_id);
        } else {
            put_u16_le(dst, 0xA1);  // connected address item
            put_u16_le(dst, 4);
            put_u32_le(dst, self.connection_id);
        }
        put_u16_le(dst, 0xB1);  // connected data item
        put_u16_le(dst, data_item_len as u16);
        let r = self.data.encode(dst);
        proof {
            assert(hdr.sender_context@ =~= zeros(8));
        }
        assert(bytes_mut_view(*dst) =~= start + command_packet_bytes(
            EIP_COMMAND_SEND_UNIT_DATA,
            self.session_handle,
            unit_data_bytes(self.connection_id, self.sequence_number, d),
        ));
        r
    }

    fn bytes_count(&self) -> (n: usize) {
        let addr_len: usize = if self.sequence_number.is_some() { 12 } else { 8 };
        24  // encapsulation header
         + 4  // handle,
         + 2  // timeout
         + 2  // item count
         + addr_len  // address item
         + 2  // item type
         + 2  // item data length
         + self.data.bytes_count()
    }
}

} // verus!
