//! Replies to the session and discovery commands.

use crate::buf::{bytes_as_slice, bytes_len, bytes_view, le_read_u16, read_le16};
use crate::cip::identity::{identity_is, identity_shape_ok, IdentityObject, ListServiceItem};
use crate::consts::{EIP_COMMAND_LIST_IDENTITY, EIP_COMMAND_LIST_SERVICE, EIP_COMMAND_REGISTER_SESSION};
use crate::eip::common_packet::{items_are, spec_decode_cpf, CommonPacket, CommonPacketItem};
use crate::eip::encapsulation::EncapsulationPacket;
use crate::error::{EipError, Error};
use bytes::Bytes;
use vstd::prelude::*;
use vstd::utf8::{decode_utf8, valid_utf8};

verus! {

/// RegisterSession reply
#[derive(Debug, Clone, Copy, PartialEq, Eq)]
pub struct RegisterSessionReply {
    pub session_handle: u32,
    pub protocol_version: u16,
}

impl RegisterSessionReply {
    /// Decodes a RegisterSession reply: the session handle is the header's,
    /// the protocol version the first two data bytes.
    pub fn decode(src: &EncapsulationPacket<Bytes>) -> (r: Result<RegisterSessionReply, Error>)
        ensures
            src.hdr.command != EIP_COMMAND_REGISTER_SESSION ==> r == Err::<RegisterSessionReply, Error>(
                Error::UnexpectedCommand(src.hdr.command),
            ),
            src.hdr.command == EIP_COMMAND_REGISTER_SESSION && bytes_view(src.data).len() < 4 ==> r
                == Err::<RegisterSessionReply, Error>(Error::Eip(EipError::InvalidData)),
            src.hdr.command == EIP_COMMAND_REGISTER_SESSION && bytes_view(src.data).len() >= 4 ==> r
                == Ok::<RegisterSessionReply, Error>(
                RegisterSessionReply {
                    session_handle: src.hdr.session_handle,
                    protocol_version: read_le16(bytes_view(src.data), 0),
                },
            ),
    {
        src.hdr.ensure_command(EIP_COMMAND_REGISTER_SESSION)?;
        let session_handle = src.hdr.session_handle;
        let reply_data = bytes_as_slice(&src.data);
        if reply_data.len() < 4 {
            return Err(Error::Eip(EipError::InvalidData));
        }
        let protocol_version = le_read_u16(reply_data, 0);
        Ok(RegisterSessionReply { session_handle, protocol_version })
    }
}

/// ListIdentity reply
#[derive(Debug)]
pub struct ListIdentityReply(pub Vec<IdentityObject>);

/// An identity item that decodes: type code 0x0C, well formed, valid UTF-8 name.
pub open spec fn identity_item_ok(item: (u16, Seq<u8>)) -> bool {
    &&& item.0 == 0x0C
    &&& identity_shape_ok(item.1)
    &&& valid_utf8(item.1.subrange(33, 33 + item.1[32]))
}

impl ListIdentityReply {
    /// Decodes a ListIdentity reply: a common packet of exactly one identity item.
    pub fn decode(src: &EncapsulationPacket<Bytes>) -> (r: Result<ListIdentityReply, Error>)
        ensures
            src.hdr.command != EIP_COMMAND_LIST_IDENTITY ==> r == Err::<ListIdentityReply, Error>(
                Error::UnexpectedCommand(src.hdr.command),
            ),
            src.hdr.command == EIP_COMMAND_LIST_IDENTITY ==> match spec_decode_cpf(bytes_view(src.data)) {
                Some(items) => if items.len() != 1 || items[0].0 != 0x0C || !identity_shape_ok(
                    items[0].1,
                ) {
                    r == Err::<ListIdentityReply, Error>(Error::Eip(EipError::InvalidData))
                } else if !valid_utf8(items[0].1.subrange(33, 33 + items[0].1[32])) {
                    r == Err::<ListIdentityReply, Error>(Error::InvalidUtf8)
                } else {
                    r matches Ok(reply) && reply.0@.len() == 1 && identity_is(items[0].1, reply.0@[0])
                },
                None => r == Err::<ListIdentityReply, Error>(Error::Eip(EipError::InvalidData)),
            },
    {
        src.hdr.ensure_command(EIP_COMMAND_LIST_IDENTITY)?;
        let cpf = CommonPacket::decode(&src.data)?;
        if cpf.len() != 1 {
            return Err(Error::Eip(EipError::InvalidData));
        }
        let items = cpf.into_vec();
        let item = &items[0];
        item.ensure_type_code(0x0C)?;
        let identity = IdentityObject::decode(&item.data)?;
        let mut res = Vec::new();
        res.push(identity);
        Ok(ListIdentityReply(res))
    }
}

/// Why a ListServices item cannot be read: not of type 0x0C, or a name
/// that is not UTF-8; none if it can.
pub open spec fn service_item_error(item: (u16, Seq<u8>)) -> Option<Error> {
    if item.0 != 0x0C {
        Some(Error::Eip(EipError::InvalidData))
    } else if !valid_utf8(item.1.subrange(4, 20)) {
        Some(Error::InvalidUtf8)
    } else {
        None
    }
}

/// The error of the first item from `i` on that cannot be read.
pub open spec fn first_service_error(items: Seq<(u16, Seq<u8>)>, i: int) -> Option<Error>
    decreases items.len() - i,
{
    if i < 0 || i >= items.len() {
        None
    } else if service_item_error(items[i]) is Some {
        service_item_error(items[i])
    } else {
        first_service_error(items, i + 1)
    }
}

/// ListServices reply
#[derive(Debug)]
pub struct ListServicesReply(pub Vec<ListServiceItem>);

impl ListServicesReply {
    /// Decodes a ListServices reply: a common packet of one or more service
    /// items of type 0x0C.
    pub fn decode(src: &EncapsulationPacket<Bytes>) -> (r: Result<ListServicesReply, Error>)
        requires
            spec_decode_cpf(bytes_view(src.data)) matches Some(items) ==> forall|i: int|
                0 <= i < items.len() ==> (#[trigger] items[i]).1.len() >= 20,
        ensures
            src.hdr.command != EIP_COMMAND_LIST_SERVICE ==> r == Err::<ListServicesReply, Error>(
                Error::UnexpectedCommand(src.hdr.command),
            ),
            src.hdr.command == EIP_COMMAND_LIST_SERVICE ==> match spec_decode_cpf(bytes_view(src.data)) {
                Some(items) => if items.len() == 0 {
                    r == Err::<ListServicesReply, Error>(Error::Eip(EipError::InvalidData))
                } else {
                    match first_service_error(items, 0) {
                        Some(e) => r == Err::<ListServicesReply, Error>(e),
                        None => r matches Ok(reply) && reply.0@.len() == items.len() && forall|i: int|
                            0 <= i < items.len() ==> (#[trigger] reply.0@[i]).protocol_version
                                == read_le16(items[i].1, 0) && reply.0@[i].capability == read_le16(
                                items[i].1,
                                2,
                            ) && reply.0@[i].name@ == decode_utf8(items[i].1.subrange(4, 20)),
                    }
                },
                None => r == Err::<ListServicesReply, Error>(Error::Eip(EipError::InvalidData)),
            },
    {
        src.hdr.ensure_command(EIP_COMMAND_LIST_SERVICE)?;
        let cpf = CommonPacket::decode(&src.data)?;
        let ghost spec_items = spec_decode_cpf(bytes_view(src.data))->Some_0;
        if cpf.len() == 0 {
            return Err(Error::Eip(EipError::InvalidData));
        }
        let items = cpf.into_vec();
        let n = items.len();
        let mut res: Vec<ListServiceItem> = Vec::new();
        let mut i: usize = 0;
        while i < n
            invariant
                n == items@.len(),
                n > 0,
                src.hdr.command == EIP_COMMAND_LIST_SERVICE,
                spec_decode_cpf(bytes_view(src.data)) == Some(spec_items),
                items_are(items@, spec_items),
                forall|k: int| 0 <= k < spec_items.len() ==> (#[trigger] spec_items[k]).1.len() >= 20,
                0 <= i <= n,
                res@.len() == i,
                forall|k: int| 0 <= k < i ==> (#[trigger] spec_items[k]).0 == 0x0C && valid_utf8(
                    spec_items[k].1.subrange(4, 20),
                ),
                first_service_error(spec_items, 0) == first_service_error(spec_items, i as int),
                forall|k: int|
                    0 <= k < i ==> (#[trigger] res@[k]).protocol_version == read_le16(spec_items[k].1, 0)
                        && res@[k].capability == read_le16(spec_items[k].1, 2) && res@[k].name@
                        == decode_utf8(spec_items[k].1.subrange(4, 20)),
            decreases n - i,
        {
            let item = &items[i];
            assert(items@[i as int].type_code == spec_items[i as int].0);
            item.ensure_type_code(0x0C)?;
            let service = ListServiceItem::decode(&item.data)?;
            res.push(service);
            i += 1;
        }
        assert(first_service_error(spec_items, n as int) is None);
        Ok(ListServicesReply(res))
    }
}

} // verus!
