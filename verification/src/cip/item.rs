//! Address and data items of a common packet, as bytes.

use crate::buf::{
    be16, bytes_as_slice, bytes_len, bytes_mut_view, bytes_view, freeze, le16, le32, new_bytes_mut,
    put_slice, put_u16_be, put_u16_le, put_u32_le,
};
use crate::cip::socket::{socket_addr_bytes, SocketAddr, SocketType};
use crate::codec::Encodable;
use bytes::Bytes;
use vstd::prelude::*;

verus! {

/// Address item of a common packet.
#[derive(Debug, Clone, Copy, PartialEq, Eq)]
pub enum AddressItem {
    Null,
    Connected { connection_id: u32 },
    Sequenced { connection_id: u32, sequence_number: u32 },
}

/// Data item of a common packet.
#[derive(Debug)]
pub enum DataItem {
    Unconnected(Option<Bytes>),
    Connected(Option<Bytes>),
    SockAddr(SocketType, SocketAddr),
}

/// The bytes of an address item: type code (written big-endian), length,
/// connection id and sequence number as the item has them.
pub open spec fn address_item_bytes(item: AddressItem) -> Seq<u8> {
    match item {
        AddressItem::Null => be16(0) + be16(0),
        AddressItem::Connected { connection_id } => be16(0xA1) + le16(4) + le32(connection_id),
        AddressItem::Sequenced { connection_id, sequence_number } => be16(0x8002) + le16(8)
            + le32(connection_id) + le32(sequence_number),
    }
}

/// Length (cut to 16 bits) and bytes of optional item data; none has
/// length 0.
pub open spec fn optional_data_bytes(data: Option<Bytes>) -> Seq<u8> {
    match data {
        Some(d) => le16(bytes_view(d).len() as u16) + bytes_view(d),
        None => le16(0),
    }
}

/// The bytes of a data item: type code (written big-endian), length and
/// data; a socket address item as its type id, length 16 and the address.
pub open spec fn data_item_bytes(item: DataItem) -> Seq<u8> {
    match item {
        DataItem::Unconnected(data) => be16(0xB2) + optional_data_bytes(data),
        DataItem::Connected(data) => be16(0xB1) + optional_data_bytes(data),
        DataItem::SockAddr(t, addr) => be16(
            if t is ToTarget {
                0x8000u16
            } else {
                0x8001u16
            },
        ) + le16(16) + socket_addr_bytes(addr),
    }
}

impl AddressItem {
    /// The item as bytes.
    pub fn into_bytes(self) -> (b: Bytes)
        ensures
            bytes_view(b) == address_item_bytes(self),
    {
        let mut dst = new_bytes_mut();
        match self {
            AddressItem::Null => {
                put_u16_be(&mut dst, 0);
                put_u16_be(&mut dst, 0);
            },
            AddressItem::Connected { connection_id } => {
                put_u16_be(&mut dst, 0xA1);
                put_u16_le(&mut dst, 4);
                put_u32_le(&mut dst, connection_id);
            },
            AddressItem::Sequenced { connection_id, sequence_number } => {
                put_u16_be(&mut dst, 0x8002);
                put_u16_le(&mut dst, 8);
                put_u32_le(&mut dst, connection_id);
                put_u32_le(&mut dst, sequence_number);
            },
        }
        assert(bytes_mut_view(dst) =~= address_item_bytes(self));
        freeze(dst)
    }
}

impl DataItem {
    /// The item as bytes (its data must leave room for the 4 bytes before
    /// it in memory).
    pub fn into_bytes(self) -> (b: Bytes)
        requires
            match self {
                DataItem::Unconnected(Some(d)) => bytes_view(d).len() + 4 <= usize::MAX,
                DataItem::Connected(Some(d)) => bytes_view(d).len() + 4 <= usize::MAX,
                _ => true,
            },
        ensures
            bytes_view(b) == data_item_bytes(self),
    {
        let ghost item = self;
        let mut dst = new_bytes_mut();
        match self {
            DataItem::Unconnected(data) => {
                put_u16_be(&mut dst, 0xB2);
                match data {
                    Some(data) => {
                        put_u16_le(&mut dst, bytes_len(&data) as u16);
                        put_slice(&mut dst, bytes_as_slice(&data));
                    },
                    None => put_u16_le(&mut dst, 0),
                }
            },
            DataItem::Connected(data) => {
                put_u16_be(&mut dst, 0xB1);
                match data {
                    Some(data) => {
                        put_u16_le(&mut dst, bytes_len(&data) as u16);
                        put_slice(&mut dst, bytes_as_slice(&data));
                    },
                    None => put_u16_be(&mut dst, 0),
                }
            },
            DataItem::SockAddr(sock_type, addr) => {
                put_u16_be(&mut dst, sock_type.type_id());
                put_u16_le(&mut dst, 16);
                let _ = addr.encode(&mut dst);
            },
        }
        assert(bytes_mut_view(dst) =~= data_item_bytes(item));
        freeze(dst)
    }
}

} // verus!
