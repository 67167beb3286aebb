use bytes::{Bytes, BytesMut};
use rseip::cip::epath::{EPath, PortSegment, Segment};
use rseip::cip::mr::MessageRouterRequest;
use rseip::cip::request::{ConnectedSend, UnconnectedSend};
use rseip::codec::Encodable;
use rseip::eip::command::{
    ListIdentity, ListServices, Nop, RegisterSession, SendRRData, SendUnitData, UnRegisterSession,
};
use rseip::eip::encapsulation::{ClientCodec, EncapsulationHeader, EncapsulationPacket};
use rseip::error::{EipError, Error};

#[test]
fn test_list_identity_request() {
    let buf = ListIdentity.try_into_bytes().unwrap();
    assert_eq!(
        &buf[..],
        &[
            0x63, 0x0, 0x0, 0x0, 0x0, 0x0, 0x0, 0x0, 0x0, 0x0, 0x0, 0x0, 0x0, 0x0, 0x0, 0x0, 0x0,
            0x0, 0x0, 0x0, 0x0, 0x0, 0x0, 0x0,
        ]
    )
}

#[test]
fn test_encode_connected_send() {
    let mut request = ConnectedSend::new(Bytes::from_static(&[0x10, 0x00, 0x88]));
    request.session_handle = 0x11;
    request.connection_id = 0x23;
    assert_eq!(request.bytes_count(), 47);
    let buf = request.try_into_bytes().unwrap();
    assert_eq!(
        &buf[..],
        &[
            0x70, 0x00, // command
            0x17, 0x00, // data len, 23
            0x11, 0x00, 0x00, 0x00, // session handle
            0x00, 0x00, 0x00, 0x00, // status
            0x00, 0x00, 0x00, 0x00, 0x00, 0x00, 0x00, 0x00, // sender context
            0x00, 0x00, 0x00, 0x00, // options
            // - encapsulation data -
            0x00, 0x00, 0x00, 0x00, // interface handle
            0x00, 0x00, // timeout
            // -- cpf --
            0x02, 0x00, // cpf item count
            0xA1, 0x00, // connected address
            0x04, 0x00, // addr len
            0x23, 0x00, 0x00, 0x00, // connection id
            0xB1, 0x00, // data item type
            0x03, 0x00, // data item len, 20
            0x10, 0x00, 0x88, // mr data
        ]
    );
}

#[test]
fn test_encode_sequenced_send() {
    let mut request = ConnectedSend::new(Bytes::from_static(&[0x10, 0x00, 0x88]));
    request.session_handle = 0x11;
    request.connection_id = 0x23;
    request.sequence_number = Some(0x21);
    assert_eq!(request.bytes_count(), 51);
    let buf = request.try_into_bytes().unwrap();
    assert_eq!(
        &buf[..],
        &[
            0x70, 0x00, // command
            0x1B, 0x00, // data len, 27
            0x11, 0x00, 0x00, 0x00, // session handle
            0x00, 0x00, 0x00, 0x00, // status
            0x00, 0x00, 0x00, 0x00, 0x00, 0x00, 0x00, 0x00, // sender context
            0x00, 0x00, 0x00, 0x00, // options
            // - encapsulation data -
            0x00, 0x00, 0x00, 0x00, // interface handle
            0x00, 0x00, // timeout
            // -- cpf --
            0x02, 0x00, // cpf item count
            0x02, 0x80, // sequenced address
            0x08, 0x00, // addr len
            0x23, 0x00, 0x00, 0x00, // connection id
            0x21, 0x00, 0x00, 0x00, // sequence number
            0xB1, 0x00, // data item type
            0x03, 0x00, // data item len, 20
            0x10, 0x00, 0x88, // mr data
        ]
    );
}

#[test]
fn test_encode_message_router_request() {
    let mr = MessageRouterRequest::new(
        0x52,
        EPath::from(vec![Segment::Class(0x06), Segment::Instance(0x01)]),
        Bytes::from_static(&[0x10, 0x00]),
    );
    assert_eq!(mr.bytes_count(), 8);
    let buf = mr.try_into_bytes().unwrap();
    assert_eq!(
        &buf[..],
        &[
            0x52, // service code
            0x02, 0x20, 0x06, 0x24, 0x01, // epath
            0x010, 0x00 // data
        ]
    );
}

#[test]
fn test_encode_unconnected_send() {
    let ucmm = UnconnectedSend::new(
        EPath::from(vec![Segment::Port(PortSegment::default())]),
        Bytes::from_static(&[0x10, 0x00, 0x88]),
    );
    assert_eq!(ucmm.bytes_count(), 58);
    let buf = ucmm.try_into_bytes().unwrap();
    assert_eq!(
        &buf[..],
        &[
            0x6F, 0x00, // command
            0x24, 0x00, // data len, 36
            0x00, 0x00, 0x00, 0x00, // session handle
            0x00, 0x00, 0x00, 0x00, // status
            0x00, 0x00, 0x00, 0x00, 0x00, 0x00, 0x00, 0x00, // sender context
            0x00, 0x00, 0x00, 0x00, // options
            // - encapsulation data -
            0x00, 0x00, 0x00, 0x00, // interface handle
            0x00, 0x00, // timeout
            // -- cpf --
            0x02, 0x00, // cpf item count
            0x00, 0x00, 0x00, 0x00, // null address
            0xB2, 0x00, // data item type
            0x14, 0x00, // data item len, 20
            0x52, // cm service
            0x02, 0x20, 0x06, 0x24, 0x01, // path
            0x03, 0xFA, // time ticks
            0x03, 0x00, // mr size in bytes
            0x10, 0x00, 0x88, // mr data
            0x00, //padded
            0x01, 0x00, 0x01, 0x00 // connection path
        ]
    );
}

#[test]
fn test_encode_unconnected_send_padded() {
    let ucmm = UnconnectedSend::new(
        EPath::from(vec![Segment::Port(PortSegment::default())]),
        Bytes::from_static(&[0x10, 0x00, 0x88, 0x99]),
    );
    assert_eq!(ucmm.bytes_count(), 58);
    let buf = ucmm.try_into_bytes().unwrap();
    assert_eq!(
        &buf[..],
        &[
            0x6F, 0x00, // command
            0x24, 0x00, // data len, 36
            0x00, 0x00, 0x00, 0x00, // session handle
            0x00, 0x00, 0x00, 0x00, // status
            0x00, 0x00, 0x00, 0x00, 0x00, 0x00, 0x00, 0x00, // sender context
            0x00, 0x00, 0x00, 0x00, // options
            // - encapsulation data -
            0x00, 0x00, 0x00, 0x00, // interface handle
            0x00, 0x00, // timeout
            // -- cpf --
            0x02, 0x00, // cpf item count
            0x00, 0x00, 0x00, 0x00, // null address
            0xB2, 0x00, // data item type
            0x14, 0x00, // data item len, 20
            0x52, // cm service
            0x02, 0x20, 0x06, 0x24, 0x01, // path
            0x03, 0xFA, // time ticks
            0x04, 0x00, // mr size in bytes
            0x10, 0x00, 0x88, 0x99, // mr data
            0x01, 0x00, 0x01, 0x00 // connection path
        ]
    );
}

#[test]
fn register_and_unregister_session() {
    let buf = RegisterSession.try_into_bytes().unwrap();
    assert_eq!(buf.len(), 28);
    assert_eq!(&buf[0..4], &[0x65, 0x00, 0x04, 0x00]);
    assert_eq!(&buf[24..], &[0x01, 0x00, 0x00, 0x00]);

    let buf = UnRegisterSession { session_handle: 0x01020304 }
        .try_into_bytes()
        .unwrap();
    assert_eq!(&buf[..8], &[0x66, 0x00, 0x00, 0x00, 0x04, 0x03, 0x02, 0x01]);
    assert_eq!(buf.len(), 24);

    let buf = ListServices.try_into_bytes().unwrap();
    assert_eq!(&buf[..4], &[0x04, 0x00, 0x00, 0x00]);

    let nop = Nop { data: Bytes::from_static(&[9, 9]) };
    assert_eq!(nop.bytes_count(), 26);
    let buf = nop.try_into_bytes().unwrap();
    assert_eq!(&buf[..4], &[0x00, 0x00, 0x02, 0x00]);
    assert_eq!(&buf[24..], &[9, 9]);
}

#[test]
fn send_rr_data_and_unit_data() {
    let req = SendRRData {
        session_handle: 7,
        timeout: 5,
        data: Bytes::from_static(&[0xAA]),
    };
    assert_eq!(req.bytes_count(), 41);
    let buf = req.try_into_bytes().unwrap();
    assert_eq!(
        &buf[24..],
        &[0, 0, 0, 0, 5, 0, 2, 0, 0, 0, 0, 0, 0xB2, 0, 1, 0, 0xAA]
    );
    assert_eq!(&buf[2..4], &[17, 0]);

    let req = SendUnitData {
        session_handle: 7,
        connection_id: 0x11223344,
        sequence_number: None,
        data: Bytes::from_static(&[0xBB, 0xCC]),
    };
    assert_eq!(req.bytes_count(), 46);
    let buf = req.try_into_bytes().unwrap();
    assert_eq!(
        &buf[24..],
        &[0, 0, 0, 0, 0, 0, 2, 0, 0xA1, 0, 4, 0, 0x44, 0x33, 0x22, 0x11, 0xB1, 0, 2, 0, 0xBB, 0xCC]
    );
}

fn frame(status: u32, data: &[u8]) -> BytesMut {
    let mut hdr = EncapsulationHeader::default();
    hdr.command = 0x6F;
    hdr.session_handle = 0x55;
    hdr.status = status;
    let pkt = EncapsulationPacket {
        hdr,
        data: Bytes::copy_from_slice(data),
    };
    let bytes = pkt.try_into_bytes().unwrap();
    BytesMut::from(&bytes[..])
}

#[test]
fn decode_frame_roundtrip() {
    let mut codec = ClientCodec::default();
    let mut src = frame(0, &[1, 2, 3]);
    let pkt = codec.decode(&mut src).unwrap().unwrap();
    assert_eq!(pkt.hdr.command, 0x6F);
    assert_eq!(pkt.hdr.length, 3);
    assert_eq!(pkt.hdr.session_handle, 0x55);
    assert_eq!(&pkt.data[..], &[1, 2, 3]);
    assert!(src.is_empty());
}

#[test]
fn decode_frame_incomplete_and_errors() {
    let mut codec = ClientCodec::default();
    let full = frame(0, &[1, 2, 3]);
    let mut partial = BytesMut::from(&full[..26]);
    assert!(codec.decode(&mut partial).unwrap().is_none());
    assert_eq!(partial.len(), 26);

    let mut short = BytesMut::from(&full[..10]);
    assert!(codec.decode(&mut short).unwrap().is_none());

    let mut extra = frame(0, &[1, 2, 3]);
    extra.extend_from_slice(&[0]);
    assert_eq!(
        codec.decode(&mut extra).unwrap_err(),
        Error::Eip(EipError::InvalidLength)
    );

    let mut bad = frame(0x64, &[]);
    assert_eq!(
        codec.decode(&mut bad).unwrap_err(),
        Error::Eip(EipError::InvalidSession)
    );
    let mut bad = frame(0x1_0000, &[]);
    assert_eq!(
        codec.decode(&mut bad).unwrap_err(),
        Error::Eip(EipError::InvalidData)
    );
    let mut bad = frame(0x42, &[]);
    assert_eq!(
        codec.decode(&mut bad).unwrap_err(),
        Error::Eip(EipError::Unknown(0x42))
    );
}
