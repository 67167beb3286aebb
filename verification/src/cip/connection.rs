//! Forward Open and Forward Close: requests that open and close a CIP
//! connection, and their replies.

use crate::buf::{bytes_as_slice, bytes_len, bytes_slice, bytes_view, le_read_u16, le_read_u32, read_le16, read_le32};
use crate::cip::mr::{spec_decode_mr_reply, spec_is_routing_error, MessageRouterReply};
use crate::cip::reply::{rr_reply_item_checked, spec_rr_reply_item};
use crate::error::{EipError, Error};
use crate::eip::encapsulation::EncapsulationPacket;
use bytes::Bytes;
use vstd::prelude::*;

verus! {

/// Forward Open success reply
#[derive(Debug, Clone)]
pub struct ForwardOpenSuccess {
    pub o_t_connection_id: u32,
    pub t_o_connection_id: u32,
    pub connection_serial_number: u16,
    pub originator_vendor_id: u16,
    pub originator_serial_number: u32,
    /// actual packet rate, originator to target
    pub o_t_api: u32,
    /// actual packet rate, target to originator
    pub t_o_api: u32,
    pub app_data: Bytes,
}

/// Forward Close success reply
#[derive(Debug, Clone)]
pub struct ForwardCloseSuccess {
    pub connection_serial_number: u16,
    pub originator_vendor_id: u16,
    pub originator_serial_number: u32,
    pub app_data: Bytes,
}

/// Forward Open or Forward Close failure reply
#[derive(Debug, Clone, PartialEq, Eq)]
pub struct ForwardRequestFail {
    pub connection_serial_number: u16,
    pub originator_vendor_id: u16,
    pub originator_serial_number: u32,
    /// given with routing errors
    pub remaining_path_size: Option<u8>,
}

/// Forward Open reply
#[derive(Debug, Clone)]
pub enum ForwardOpenReply {
    Success { service_code: u8, reply: ForwardOpenSuccess },
    Fail(ForwardRequestFail),
}

/// Forward Close reply
#[derive(Debug, Clone)]
pub enum ForwardCloseReply {
    Success(ForwardCloseSuccess),
    Fail(ForwardRequestFail),
}

/// A Forward Open success reply: 26 fixed bytes, the last but one giving
/// the application reply size in words, then exactly that reply.
pub open spec fn open_success_ok(b: Seq<u8>) -> bool {
    b.len() >= 26 && b.len() == 26 + 2 * b[24]
}

pub open spec fn open_success_is(b: Seq<u8>, r: ForwardOpenSuccess) -> bool {
    &&& r.o_t_connection_id == read_le32(b, 0)
    &&& r.t_o_connection_id == read_le32(b, 4)
    &&& r.connection_serial_number == read_le16(b, 8)
    &&& r.originator_vendor_id == read_le16(b, 10)
    &&& r.originator_serial_number == read_le32(b, 12)
    &&& r.o_t_api == read_le32(b, 16)
    &&& r.t_o_api == read_le32(b, 20)
    &&& bytes_view(r.app_data) == b.skip(26)
}

/// A Forward Close success reply: 10 fixed bytes, the last but one giving
/// the application reply size in words, then exactly that reply.
pub open spec fn close_success_ok(b: Seq<u8>) -> bool {
    b.len() >= 10 && b.len() == 10 + 2 * b[8]
}

pub open spec fn close_success_is(b: Seq<u8>, r: ForwardCloseSuccess) -> bool {
    &&& r.connection_serial_number == read_le16(b, 0)
    &&& r.originator_vendor_id == read_le16(b, 2)
    &&& r.originator_serial_number == read_le32(b, 4)
    &&& bytes_view(r.app_data) == b.skip(10)
}

/// A failure reply is 8 bytes, 9 with a routing error.
pub open spec fn fail_ok(b: Seq<u8>, is_routing_error: bool) -> bool {
    b.len() == if is_routing_error { 9int } else { 8int }
}

pub open spec fn fail_is(b: Seq<u8>, is_routing_error: bool, f: ForwardRequestFail) -> bool {
    &&& f.connection_serial_number == read_le16(b, 0)
    &&& f.originator_vendor_id == read_le16(b, 2)
    &&& f.originator_serial_number == read_le32(b, 4)
    &&& f.remaining_path_size == if is_routing_error { Some(b[8]) } else { None }
}

/// Decodes the data of a failure reply.
pub fn parse_forward_request_fail(buf: &Bytes, is_routing_error: bool) -> (r: Result<ForwardRequestFail, Error>)
    ensures
        fail_ok(bytes_view(*buf), is_routing_error) ==> (r matches Ok(f) && fail_is(
            bytes_view(*buf),
            is_routing_error,
            f,
        )),
        !fail_ok(bytes_view(*buf), is_routing_error) ==> r == Err::<ForwardRequestFail, Error>(
            Error::Eip(EipError::InvalidData),
        ),
{
    let max_size: usize = if is_routing_error { 9 } else { 8 };
    let s = bytes_as_slice(buf);
    if s.len() != max_size {
        return Err(Error::Eip(EipError::InvalidData));
    }
    Ok(ForwardRequestFail {
        connection_serial_number: le_read_u16(s, 0),
        originator_vendor_id: le_read_u16(s, 2),
        originator_serial_number: le_read_u32(s, 4),
        remaining_path_size: if is_routing_error { Some(s[8]) } else { None },
    })
}

impl ForwardOpenReply {
    /// Decodes the reply to a Forward Open (or Large Forward Open) request.
    pub fn decode(src: &EncapsulationPacket<Bytes>) -> (r: Result<ForwardOpenReply, Error>)
        requires
            src.hdr.command == 0x6F ==> bytes_view(src.data).len() >= 6,
        ensures
            src.hdr.command != 0x6F ==> r == Err::<ForwardOpenReply, Error>(Error::UnexpectedCommand(src.hdr.command)),
            src.hdr.command == 0x6F ==> match spec_rr_reply_item(bytes_view(src.data), true) {
                None => r == Err::<ForwardOpenReply, Error>(Error::Eip(EipError::InvalidData)),
                Some(m) => match spec_decode_mr_reply(m) {
                    None => r == Err::<ForwardOpenReply, Error>(Error::Eip(EipError::InvalidData)),
                    Some(v) => if v.reply_service != 0xD4 && v.reply_service != 0xDB {
                        r == Err::<ForwardOpenReply, Error>(Error::Eip(EipError::InvalidData))
                    } else if v.status.general == 0 {
                        if open_success_ok(v.data) {
                            r matches Ok(ForwardOpenReply::Success { service_code, reply })
                                && service_code == v.reply_service && open_success_is(v.data, reply)
                        } else {
                            r == Err::<ForwardOpenReply, Error>(Error::Eip(EipError::InvalidData))
                        }
                    } else if fail_ok(v.data, spec_is_routing_error(v.status)) {
                        r matches Ok(ForwardOpenReply::Fail(f)) && fail_is(
                            v.data,
                            spec_is_routing_error(v.status),
                            f,
                        )
                    } else {
                        r == Err::<ForwardOpenReply, Error>(Error::Eip(EipError::InvalidData))
                    },
                },
            },
    {
        if src.hdr.command != 0x6F {
            return Err(Error::UnexpectedCommand(src.hdr.command));
        }
        let _interface_handle = le_read_u32(bytes_as_slice(&src.data), 0);
        let item = rr_reply_item_checked(&src.data, true)?;
        let mr_reply = MessageRouterReply::decode(&item)?;
        if mr_reply.reply_service != 0xD4 && mr_reply.reply_service != 0xDB {
            return Err(Error::Eip(EipError::InvalidData));
        }
        if mr_reply.status.is_ok() {
            let buf = bytes_as_slice(&mr_reply.data);
            let len = buf.len();
            if len < 26 {
                return Err(Error::Eip(EipError::InvalidData));
            }
            // buf[24], size in words
            let app_data_size = 2 * buf[24] as usize;
            if len != 26 + app_data_size {
                return Err(Error::Eip(EipError::InvalidData));
            }
            let app_data = bytes_slice(&mr_reply.data, 26, len);
            assert(bytes_view(app_data) =~= bytes_view(mr_reply.data).skip(26));
            let reply = ForwardOpenSuccess {
                o_t_connection_id: le_read_u32(buf, 0),
                t_o_connection_id: le_read_u32(buf, 4),
                connection_serial_number: le_read_u16(buf, 8),
                originator_vendor_id: le_read_u16(buf, 10),
                originator_serial_number: le_read_u32(buf, 12),
                o_t_api: le_read_u32(buf, 16),
                t_o_api: le_read_u32(buf, 20),
                app_data,
            };
            Ok(ForwardOpenReply::Success { service_code: mr_reply.reply_service, reply })
        } else {
            let is_routing_error = mr_reply.status.is_routing_error();
            let data = parse_forward_request_fail(&mr_reply.data, is_routing_error)?;
            Ok(ForwardOpenReply::Fail(data))
        }
    }
}

impl ForwardCloseReply {
    /// Decodes the reply to a Forward Close request.
    pub fn decode(src: &EncapsulationPacket<Bytes>) -> (r: Result<ForwardCloseReply, Error>)
        requires
            src.hdr.command == 0x6F ==> bytes_view(src.data).len() >= 6,
        ensures
            src.hdr.command != 0x6F ==> r == Err::<ForwardCloseReply, Error>(Error::UnexpectedCommand(src.hdr.command)),
            src.hdr.command == 0x6F ==> match spec_rr_reply_item(bytes_view(src.data), true) {
                None => r == Err::<ForwardCloseReply, Error>(Error::Eip(EipError::InvalidData)),
                Some(m) => match spec_decode_mr_reply(m) {
                    None => r == Err::<ForwardCloseReply, Error>(Error::Eip(EipError::InvalidData)),
                    Some(v) => if v.reply_service != 0xCE {
                        r == Err::<ForwardCloseReply, Error>(Error::Eip(EipError::InvalidData))
                    } else if v.status.general == 0 {
                        if close_success_ok(v.data) {
                            r matches Ok(ForwardCloseReply::Success(reply)) && close_success_is(v.data, reply)
                        } else {
                            r == Err::<ForwardCloseReply, Error>(Error::Eip(EipError::InvalidData))
                        }
                    } else if fail_ok(v.data, spec_is_routing_error(v.status)) {
                        r matches Ok(ForwardCloseReply::Fail(f)) && fail_is(
                            v.data,
                            spec_is_routing_error(v.status),
                            f,
                        )
                    } else {
                        r == Err::<ForwardCloseReply, Error>(Error::Eip(EipError::InvalidData))
                    },
                },
            },
    {
        if src.hdr.command != 0x6F {
            return Err(Error::UnexpectedCommand(src.hdr.command));
        }
        let _interface_handle = le_read_u32(bytes_as_slice(&src.data), 0);
        let item = rr_reply_item_checked(&src.data, true)?;
        let mr_reply = MessageRouterReply::decode(&item)?;
        if mr_reply.reply_service != 0xCE {
            return Err(Error::Eip(EipError::InvalidData));
        }
        if mr_reply.status.is_ok() {
            let buf = bytes_as_slice(&mr_reply.data);
            let len = buf.len();
            if len < 10 {
                return Err(Error::Eip(EipError::InvalidData));
            }
            // buf[8], size in words
            let app_data_size = 2 * buf[8] as usize;
            if len != 10 + app_data_size {
                return Err(Error::Eip(EipError::InvalidData));
            }
            let app_data = bytes_slice(&mr_reply.data, 10, len);
            assert(bytes_view(app_data) =~= bytes_view(mr_reply.data).skip(10));
            let reply = ForwardCloseSuccess {
                connection_serial_number: le_read_u16(buf, 0),
                originator_vendor_id: le_read_u16(buf, 2),
                originator_serial_number: le_read_u32(buf, 4),
                app_data,
            };
            Ok(ForwardCloseReply::Success(reply))
        } else {
            let is_routing_error = mr_reply.status.is_routing_error();
            let data = parse_forward_request_fail(&mr_reply.data, is_routing_error)?;
            Ok(ForwardCloseReply::Fail(data))
        }
    }
}

} // verus!
