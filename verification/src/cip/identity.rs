//! Identity object (ListIdentity reply item) and ListServices reply item.

use crate::buf::{bytes_as_slice, bytes_len, bytes_view, le_read_u16, le_read_u32, read_le16, read_le32, string_from_utf8};
use crate::cip::socket::{socket_addr_at, SocketAddr};
use crate::error::{EipError, Error};
use bytes::Bytes;
use vstd::prelude::*;
use vstd::slice::slice_to_vec;
use vstd::utf8::{decode_utf8, valid_utf8};

verus! {

/// Revision: major and minor
#[derive(Debug, Clone, Copy, PartialEq, Eq, Default)]
pub struct Revision {
    pub major: u8,
    pub minor: u8,
}

/// Identity of a device
#[derive(Debug, Clone, PartialEq, Eq)]
pub struct IdentityObject {
    /// encapsulation protocol version supported
    pub protocol_version: u16,
    /// socket addr
    pub socket_addr: SocketAddr,
    /// device manufacturers vendor id
    pub vendor_id: u16,
    /// device type of product
    pub device_type: u16,
    /// product code assigned with respect to device type
    pub product_code: u16,
    /// device revision
    pub revision: Revision,
    /// current status of device
    pub status: u16,
    /// serial number of device
    pub serial_number: u32,
    /// length of the product name
    pub product_name_len: u8,
    /// human readable description of device
    pub product_name: String,
    /// current state of device
    pub state: u8,
}

/// A well formed identity item: 33 fixed bytes (the last of them the name
/// length), the name, and one state byte, nothing more.
pub open spec fn identity_shape_ok(s: Seq<u8>) -> bool {
    s.len() >= 33 && s.len() == 33 + s[32] + 1
}

/// `id` is the identity object that `s` encodes.
pub open spec fn identity_is(s: Seq<u8>, id: IdentityObject) -> bool {
    &&& id.protocol_version == read_le16(s, 0)
    &&& socket_addr_at(s, 2, id.socket_addr)
    &&& id.vendor_id == read_le16(s, 18)
    &&& id.device_type == read_le16(s, 20)
    &&& id.product_code == read_le16(s, 22)
    &&& id.revision == Revision { major: s[24], minor: s[25] }
    &&& id.status == read_le16(s, 26)
    &&& id.serial_number == read_le32(s, 28)
    &&& id.product_name_len == s[32]
    &&& id.product_name@ == decode_utf8(s.subrange(33, 33 + s[32]))
    &&& id.state == s[s.len() - 1]
}

impl IdentityObject {
    /// Decodes an identity item of a ListIdentity reply.
    pub fn decode(data: &Bytes) -> (r: Result<IdentityObject, Error>)
        ensures
            !identity_shape_ok(bytes_view(*data)) ==> r == Err::<IdentityObject, Error>(
                Error::Eip(EipError::InvalidData),
            ),
            identity_shape_ok(bytes_view(*data)) && !valid_utf8(
                bytes_view(*data).subrange(33, 33 + bytes_view(*data)[32]),
            ) ==> r == Err::<IdentityObject, Error>(Error::InvalidUtf8),
            identity_shape_ok(bytes_view(*data)) && valid_utf8(
                bytes_view(*data).subrange(33, 33 + bytes_view(*data)[32]),
            ) ==> (r matches Ok(id) && identity_is(bytes_view(*data), id)),
    {
        let s = bytes_as_slice(data);
        let len = s.len();
        if len < 33 {
            return Err(Error::Eip(EipError::InvalidData));
        }
        let product_name_len = s[32];
        if len != 33 + product_name_len as usize + 1 {
            return Err(Error::Eip(EipError::InvalidData));
        }
        let name_bytes = slice_to_vec(s.split_at(33).1.split_at(product_name_len as usize).0);
        assert(name_bytes@ =~= s@.subrange(33, 33 + product_name_len as int));
        let product_name = match string_from_utf8(name_bytes) {
            Some(v) => v,
            None => return Err(Error::InvalidUtf8),
        };
        Ok(IdentityObject {
            protocol_version: le_read_u16(s, 0),
            socket_addr: SocketAddr::decode(s, 2),
            vendor_id: le_read_u16(s, 18),
            device_type: le_read_u16(s, 20),
            product_code: le_read_u16(s, 22),
            revision: Revision { major: s[24], minor: s[25] },
            status: le_read_u16(s, 26),
            serial_number: le_read_u32(s, 28),
            product_name_len,
            product_name,
            state: s[len - 1],
        })
    }
}

/// only one service for ListServices
/// type code = 0x100
/// encoded bytes count: 24
#[derive(Debug, Clone, PartialEq, Eq, Default)]
pub struct ListServiceItem {
    /// version shall be 1
    pub protocol_version: u16,
    pub capability: u16,
    /// name of service, NULL-terminated ASCII string;
    /// name = "Communications"
    pub name: String,
}

impl ListServiceItem {
    /// supports CIP Encapsulation via TCP
    pub fn capability_tcp(&self) -> (b: bool)
        ensures
            b == (self.capability & 0b100000 > 0),
    {
        self.capability & 0b100000 > 0
    }

    /// support CIP Class 0 or 1 via UDP
    pub fn capability_udp(&self) -> (b: bool)
        ensures
            b == (self.capability & 0b100000000 > 0),
    {
        self.capability & 0b100000000 > 0
    }

    /// Decodes a ListServices item: version, capability flags, and a 16 byte
    /// name field.
    pub fn decode(buf: &Bytes) -> (r: Result<ListServiceItem, Error>)
        requires
            bytes_view(*buf).len() >= 20,
        ensures
            !valid_utf8(bytes_view(*buf).subrange(4, 20)) ==> r == Err::<ListServiceItem, Error>(
                Error::InvalidUtf8,
            ),
            valid_utf8(bytes_view(*buf).subrange(4, 20)) ==> (r matches Ok(item)
                && item.protocol_version == read_le16(bytes_view(*buf), 0) && item.capability
                == read_le16(bytes_view(*buf), 2) && item.name@ == decode_utf8(
                bytes_view(*buf).subrange(4, 20),
            )),
    {
        let s = bytes_as_slice(buf);
        let protocol_version = le_read_u16(s, 0);
        let capability = le_read_u16(s, 2);
        let name_bytes = slice_to_vec(s.split_at(4).1.split_at(16).0);
        assert(name_bytes@ =~= s@.subrange(4, 20));
        match string_from_utf8(name_bytes) {
            Some(name) => Ok(ListServiceItem { protocol_version, capability, name }),
            None => Err(Error::InvalidUtf8),
        }
    }
}

} // verus!
