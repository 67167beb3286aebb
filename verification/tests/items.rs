use bytes::Bytes;
use rseip::cip::item::{AddressItem, DataItem};
use rseip::cip::reply::{connected_send_reply, unconnected_send_reply};
use rseip::cip::socket::{SocketAddr, SocketType};
use rseip::codec::Encodable;
use rseip::eip::common_packet::CommonPacket;
use rseip::eip::encapsulation::{EncapsulationHeader, EncapsulationPacket};
use rseip::error::{EipError, Error};

fn packet(command: u16, data: Vec<u8>) -> EncapsulationPacket<Bytes> {
    let mut hdr = EncapsulationHeader::default();
    hdr.command = command;
    hdr.length = data.len() as u16;
    EncapsulationPacket { hdr, data: Bytes::from(data) }
}

#[test]
fn address_and_data_items() {
    assert_eq!(&AddressItem::Null.into_bytes()[..], &[0, 0, 0, 0]);
    assert_eq!(
        &AddressItem::Connected { connection_id: 0x01020304 }.into_bytes()[..],
        &[0x00, 0xA1, 4, 0, 4, 3, 2, 1]
    );
    assert_eq!(
        &AddressItem::Sequenced { connection_id: 1, sequence_number: 2 }.into_bytes()[..],
        &[0x80, 0x02, 8, 0, 1, 0, 0, 0, 2, 0, 0, 0]
    );
    assert_eq!(
        &DataItem::Unconnected(Some(Bytes::from_static(&[9, 8, 7]))).into_bytes()[..],
        &[0x00, 0xB2, 3, 0, 9, 8, 7]
    );
    assert_eq!(&DataItem::Connected(None).into_bytes()[..], &[0x00, 0xB1, 0, 0]);
    let addr = SocketAddr {
        sin_family: 2,
        sin_port: 0xAF12,
        sin_addr: 0xC0A80001,
        sin_zero: [0; 8],
    };
    assert_eq!(
        &DataItem::SockAddr(SocketType::ToTarget, addr).into_bytes()[..],
        &[0x80, 0x00, 16, 0, 0, 2, 0xAF, 0x12, 192, 168, 0, 1, 0, 0, 0, 0, 0, 0, 0, 0]
    );
}

#[test]
fn send_replies_check_service() {
    // interface handle, timeout, 2 items: null address, unconnected data
    let mut rr = vec![0, 0, 0, 0, 0, 0, 2, 0, 0, 0, 0, 0, 0xB2, 0, 4, 0];
    rr.extend_from_slice(&[0xCC, 0, 0, 0]);
    let reply = unconnected_send_reply(0x4C, &packet(0x6F, rr.clone())).unwrap();
    assert_eq!(reply.reply_service, 0xCC);
    assert_eq!(
        unconnected_send_reply(0x4D, &packet(0x6F, rr)).unwrap_err(),
        Error::UnexpectedService(0xCC)
    );
    assert_eq!(
        unconnected_send_reply(0x4C, &packet(0x70, vec![0; 6])).unwrap_err(),
        Error::UnexpectedCommand(0x70)
    );

    let mut unit = vec![0, 0, 0, 0, 0, 0, 2, 0, 0xA1, 0, 4, 0, 1, 0, 0, 0, 0xB1, 0, 6, 0, 1, 0];
    unit.extend_from_slice(&[0xCD, 0, 0, 0]);
    let reply = connected_send_reply(0x4D, &packet(0x70, unit.clone())).unwrap();
    assert_eq!(reply.reply_service, 0xCD);
    assert_eq!(
        connected_send_reply(0x4C, &packet(0x70, unit)).unwrap_err(),
        Error::UnexpectedService(0xCD)
    );
    assert_eq!(
        connected_send_reply(0x4C, &packet(0x70, vec![0, 0, 0, 0, 0, 0, 0])).unwrap_err(),
        Error::Eip(EipError::InvalidData)
    );
}

#[test]
fn common_packet_bytes_count() {
    let cpf = CommonPacket::decode(&Bytes::from_static(&[2, 0, 0, 0, 0, 0, 0xB2, 0, 2, 0, 9, 8])).unwrap();
    assert_eq!(cpf.len(), 2);
    assert_eq!(cpf.bytes_count(), 12);
}

#[test]
fn socket_addr_roundtrip() {

    let addr = SocketAddr { sin_family: -2, sin_port: 0x1234, sin_addr: 0x0A000001, sin_zero: [1, 2, 3, 4, 5, 6, 7, 8] };
    let bytes = addr.clone().try_into_bytes().unwrap();
    assert_eq!(bytes.len(), 16);
    assert_eq!(SocketAddr::decode(&bytes, 0), addr);
}
