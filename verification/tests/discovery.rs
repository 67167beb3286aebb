use bytes::Bytes;
use rseip::client::discovery::{decode_identity, discovery_reply, EipDiscovery};
use rseip::eip::encapsulation::{EncapsulationHeader, EncapsulationPacket};
use rseip::error::{EipError, Error};

fn identity_item(name: &[u8]) -> Vec<u8> {
    let mut item = vec![1, 0]; // protocol version
    item.extend_from_slice(&[0, 2, 0xAF, 0x12, 192, 168, 0, 1, 0, 0, 0, 0, 0, 0, 0, 0]);
    item.extend_from_slice(&[1, 0, 0x0C, 0, 0x36, 0, 20, 11, 0x60, 0x30]);
    item.extend_from_slice(&[0x11, 0x22, 0x33, 0x44]);
    item.push(name.len() as u8);
    item.extend_from_slice(name);
    item.push(3);
    item
}

fn cpf(items: &[(u16, Vec<u8>)]) -> Vec<u8> {
    let mut v = (items.len() as u16).to_le_bytes().to_vec();
    for (t, d) in items {
        v.extend_from_slice(&t.to_le_bytes());
        v.extend_from_slice(&(d.len() as u16).to_le_bytes());
        v.extend_from_slice(d);
    }
    v
}

fn packet(command: u16, data: Vec<u8>) -> EncapsulationPacket<Bytes> {
    let mut hdr = EncapsulationHeader::default();
    hdr.command = command;
    hdr.length = data.len() as u16;
    EncapsulationPacket { hdr, data: Bytes::from(data) }
}

#[test]
fn discovery_settings() {
    let d = EipDiscovery::new([192, 168, 0, 10]);
    assert_eq!(d.listen_ip, [192, 168, 0, 10]);
    assert_eq!(d.broadcast_ip, [255, 255, 255, 255]);
    assert_eq!(d.broadcast_port, 0xAF12);
    assert_eq!(d.times, Some(1));
    assert_eq!((d.interval_secs, d.interval_nanos), (3, 0));
    let d = d.broadcast([192, 168, 0, 255]).interval(1, 500).forever();
    assert_eq!(d.broadcast_ip, [192, 168, 0, 255]);
    assert_eq!(d.times, None);
    assert_eq!(d.interval_nanos, 500);
    let d = d.broadcast_with_port([10, 0, 0, 255], 2222);
    assert_eq!(d.broadcast_port, 2222);
}

#[test]
fn repeat_sends_that_many_requests() {
    let mut d = EipDiscovery::new([0, 0, 0, 0]).repeat(3);
    let mut sent = 0;
    for _ in 0..10 {
        if d.next_request() {
            sent += 1;
        }
    }
    assert_eq!(sent, 3);
    assert_eq!(d.times, Some(0));
    let mut d = EipDiscovery::new([0, 0, 0, 0]).forever();
    for _ in 0..10 {
        assert!(d.next_request());
    }
    assert_eq!(d.times, None);
}

#[test]
fn identities_from_replies() {
    let data = cpf(&[(0x0C, identity_item(b"PLC"))]);
    let id = decode_identity(&Bytes::from(data.clone())).unwrap().unwrap();
    assert_eq!(id.vendor_id, 1);
    assert_eq!(id.product_name, "PLC");
    assert_eq!(id.serial_number, 0x44332211);
    assert_eq!(id.state, 3);

    assert_eq!(decode_identity(&Bytes::from(cpf(&[]))), Ok(None));
    assert_eq!(
        decode_identity(&Bytes::from(cpf(&[(0x0D, identity_item(b"PLC"))]))),
        Err(Error::Eip(EipError::InvalidData))
    );
    assert_eq!(decode_identity(&Bytes::from_static(&[1])), Err(Error::Eip(EipError::InvalidData)));

    assert!(discovery_reply(&packet(0x63, data.clone())).is_some());
    assert!(discovery_reply(&packet(0x64, data)).is_none());
    assert!(discovery_reply(&packet(0x63, cpf(&[(0x0C, identity_item(&[0xFF, 0xFE]))]))).is_none());
}
