//! Replies to Unconnected Send, connected send, Forward Open and Forward
//! Close.

use crate::buf::{bytes_as_slice, bytes_len, bytes_slice, bytes_view, le_read_u16, le_read_u32, read_le16, read_le32};
use crate::cip::mr::{reply_is, spec_decode_mr_reply, spec_is_routing_error, MessageRouterReply};
use crate::consts::{EIP_COMMAND_SEND_RRDATA, EIP_COMMAND_SEND_UNIT_DATA};
use crate::eip::common_packet::{items_are, spec_decode_cpf, CommonPacket};
use crate::eip::encapsulation::EncapsulationPacket;
use crate::error::{EipError, Error};
use bytes::Bytes;
use vstd::prelude::*;

verus! {

/// The reply carried by the data portion `d` of a SendRRData reply: after
/// the interface handle and timeout (6 bytes), a common packet of two items,
/// an address item of type 0 (empty too, with `strict_null`) and an
/// unconnected data item (0xB2), whose data is the reply.
pub open spec fn spec_rr_reply_item(d: Seq<u8>, strict_null: bool) -> Option<Seq<u8>> {
    match spec_decode_cpf(d.skip(6)) {
        Some(items) => if items.len() == 2 && items[0].0 == 0 && (!strict_null || items[0].1.len()
            == 0) && items[1].0 == 0xB2 {
            Some(items[1].1)
        } else {
            None
        },
        None => None,
    }
}

/// The reply carried by the data portion `d` of a SendUnitData reply: a
/// common packet of a connected address item (0xA1) and a connected data
/// item (0xB1) whose data is a 2 byte sequence count and the reply.
pub open spec fn spec_unit_reply_item(d: Seq<u8>) -> Option<Seq<u8>> {
    match spec_decode_cpf(d.skip(6)) {
        Some(items) => if items.len() == 2 && items[0].0 == 0xA1 && items[1].0 == 0xB1
            && items[1].1.len() >= 2 {
            Some(items[1].1.skip(2))
        } else {
            None
        },
        None => None,
    }
}

/// Takes the data of the second item of the common packet after the 6
/// leading bytes of `data`, checking the shape of the packet.
pub fn rr_reply_item_checked(data: &Bytes, strict_null: bool) -> (r: Result<Bytes, Error>)
    requires
        bytes_view(*data).len() >= 6,
    ensures
        match spec_rr_reply_item(bytes_view(*data), strict_null) {
            Some(m) => r matches Ok(b) && bytes_view(b) == m,
            None => r == Err::<Bytes, Error>(Error::Eip(EipError::InvalidData)),
        },
{
    let len = bytes_len(data);
    let rest = bytes_slice(data, 6, len);
    assert(bytes_view(rest) =~= bytes_view(*data).skip(6));
    let cpf = CommonPacket::decode(&rest)?;
    if cpf.len() != 2 {
        return Err(Error::Eip(EipError::InvalidData));
    }
    let items = cpf.into_vec();
    if items[0].type_code != 0 {
        return Err(Error::Eip(EipError::InvalidData));
    }
    if strict_null && !items[0].is_null_addr() {
        return Err(Error::Eip(EipError::InvalidData));
    }
    if items[1].type_code != 0xB2 {
        return Err(Error::Eip(EipError::InvalidData));
    }
    Ok(items[1].data.clone())
}

/// Unconnected Send reply
#[derive(Debug)]
pub struct UnconnectedSendReply(pub MessageRouterReply<Bytes>);

impl UnconnectedSendReply {
    /// Decodes the reply to an Unconnected Send.
    pub fn decode(src: &EncapsulationPacket<Bytes>) -> (r: Result<UnconnectedSendReply, Error>)
        requires
            src.hdr.command == EIP_COMMAND_SEND_RRDATA ==> bytes_view(src.data).len() >= 6,
        ensures
            src.hdr.command != EIP_COMMAND_SEND_RRDATA ==> r == Err::<UnconnectedSendReply, Error>(
                Error::UnexpectedCommand(src.hdr.command),
            ),
            src.hdr.command == EIP_COMMAND_SEND_RRDATA ==> match spec_rr_reply_item(bytes_view(src.data), false) {
                Some(m) => match spec_decode_mr_reply(m) {
                    Some(v) => r matches Ok(reply) && reply_is(reply.0, v),
                    None => r == Err::<UnconnectedSendReply, Error>(Error::Eip(EipError::InvalidData)),
                },
                None => r == Err::<UnconnectedSendReply, Error>(Error::Eip(EipError::InvalidData)),
            },
    {
        src.hdr.ensure_command(EIP_COMMAND_SEND_RRDATA)?;
        let _interface_handle = le_read_u32(bytes_as_slice(&src.data), 0);
        let item = rr_reply_item_checked(&src.data, false)?;
        let mr_reply = MessageRouterReply::decode(&item)?;
        Ok(UnconnectedSendReply(mr_reply))
    }
}

/// Connected send reply
#[derive(Debug)]
pub struct ConnectedSendReply(pub MessageRouterReply<Bytes>);

impl ConnectedSendReply {
    /// Decodes the reply to a connected send.
    pub fn decode(src: &EncapsulationPacket<Bytes>) -> (r: Result<ConnectedSendReply, Error>)
        requires
            src.hdr.command == EIP_COMMAND_SEND_UNIT_DATA ==> bytes_view(src.data).len() >= 6,
        ensures
            src.hdr.command != EIP_COMMAND_SEND_UNIT_DATA ==> r == Err::<ConnectedSendReply, Error>(
                Error::UnexpectedCommand(src.hdr.command),
            ),
            src.hdr.command == EIP_COMMAND_SEND_UNIT_DATA ==> match spec_unit_reply_item(bytes_view(src.data)) {
                Some(m) => match spec_decode_mr_reply(m) {
                    Some(v) => r matches Ok(reply) && reply_is(reply.0, v),
                    None => r == Err::<ConnectedSendReply, Error>(Error::Eip(EipError::InvalidData)),
                },
                None => r == Err::<ConnectedSendReply, Error>(Error::Eip(EipError::InvalidData)),
            },
    {
        src.hdr.ensure_command(EIP_COMMAND_SEND_UNIT_DATA)?;
        let _interface_handle = le_read_u32(bytes_as_slice(&src.data), 0);
        let len = bytes_len(&src.data);
        let rest = bytes_slice(&src.data, 6, len);
        assert(bytes_view(rest) =~= bytes_view(src.data).skip(6));
        let cpf = CommonPacket::decode(&rest)?;
        if cpf.len() != 2 {
            return Err(Error::Eip(EipError::InvalidData));
        }
        let items = cpf.into_vec();
        // should be connected address
        items[0].ensure_type_code(0xA1)?;
        let data_item = &items[1];
        // should be connected data item
        data_item.ensure_type_code(0xB1)?;
        let item_len = bytes_len(&data_item.data);
        if item_len < 2 {
            return Err(Error::Eip(EipError::InvalidData));
        }
        let _sequence_count = le_read_u16(bytes_as_slice(&data_item.data), 0);
        let mr_data = bytes_slice(&data_item.data, 2, item_len);
        assert(bytes_view(mr_data) =~= bytes_view(data_item.data).skip(2));
        let mr_reply = MessageRouterReply::decode(&mr_data)?;
        Ok(ConnectedSendReply(mr_reply))
    }
}

/// What an Unconnected Send of a request for `service_code` gets back: the
/// decoded reply, which must answer that service (its code with bit 7 set).
pub fn unconnected_send_reply(service_code: u8, src: &EncapsulationPacket<Bytes>) -> (r: Result<
    MessageRouterReply<Bytes>,
    Error,
>)
    requires
        service_code < 0x80,
        src.hdr.command == EIP_COMMAND_SEND_RRDATA ==> bytes_view(src.data).len() >= 6,
    ensures
        src.hdr.command != EIP_COMMAND_SEND_RRDATA ==> r == Err::<MessageRouterReply<Bytes>, Error>(
            Error::UnexpectedCommand(src.hdr.command),
        ),
        src.hdr.command == EIP_COMMAND_SEND_RRDATA ==> match spec_rr_reply_item(bytes_view(src.data), false) {
            Some(m) => match spec_decode_mr_reply(m) {
                Some(v) => if v.reply_service == service_code + 0x80 {
                    r matches Ok(reply) && reply_is(reply, v)
                } else {
                    r == Err::<MessageRouterReply<Bytes>, Error>(Error::UnexpectedService(v.reply_service))
                },
                None => r == Err::<MessageRouterReply<Bytes>, Error>(Error::Eip(EipError::InvalidData)),
            },
            None => r == Err::<MessageRouterReply<Bytes>, Error>(Error::Eip(EipError::InvalidData)),
        },
{
    let reply = UnconnectedSendReply::decode(src)?.0;
    reply.expect_service(service_code + 0x80)?;
    Ok(reply)
}

/// What a connected send of a request for `service_code` gets back: the
/// decoded reply, which must answer that service.
pub fn connected_send_reply(service_code: u8, src: &EncapsulationPacket<Bytes>) -> (r: Result<
    MessageRouterReply<Bytes>,
    Error,
>)
    requires
        service_code < 0x80,
        src.hdr.command == EIP_COMMAND_SEND_UNIT_DATA ==> bytes_view(src.data).len() >= 6,
    ensures
        src.hdr.command != EIP_COMMAND_SEND_UNIT_DATA ==> r == Err::<MessageRouterReply<Bytes>, Error>(
            Error::UnexpectedCommand(src.hdr.command),
        ),
        src.hdr.command == EIP_COMMAND_SEND_UNIT_DATA ==> match spec_unit_reply_item(bytes_view(src.data)) {
            Some(m) => match spec_decode_mr_reply(m) {
                Some(v) => if v.reply_service == service_code + 0x80 {
                    r matches Ok(reply) && reply_is(reply, v)
                } else {
                    r == Err::<MessageRouterReply<Bytes>, Error>(Error::UnexpectedService(v.reply_service))
                },
                None => r == Err::<MessageRouterReply<Bytes>, Error>(Error::Eip(EipError::InvalidData)),
            },
            None => r == Err::<MessageRouterReply<Bytes>, Error>(Error::Eip(EipError::InvalidData)),
        },
{
    let reply = ConnectedSendReply::decode(src)?.0;
    reply.expect_service(service_code + 0x80)?;
    Ok(reply)
}

} // verus!
