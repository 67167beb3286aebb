use bytes::Bytes;
use rseip::cip::connection::{parse_forward_request_fail, ForwardCloseReply, ForwardOpenReply};
use rseip::cip::identity::{IdentityObject, ListServiceItem, Revision};
use rseip::cip::mr::{HasMore, MessageRouterReply, Status};
use rseip::cip::reply::{ConnectedSendReply, UnconnectedSendReply};
use rseip::cip::socket::SocketType;
use rseip::eip::common_packet::CommonPacket;
use rseip::eip::encapsulation::{EncapsulationHeader, EncapsulationPacket};
use rseip::eip::reply::{ListIdentityReply, ListServicesReply, RegisterSessionReply};
use rseip::error::{EipError, Error};

fn packet(command: u16, data: Vec<u8>) -> EncapsulationPacket<Bytes> {
    let mut hdr = EncapsulationHeader::default();
    hdr.command = command;
    hdr.session_handle = 0x0102;
    hdr.length = data.len() as u16;
    EncapsulationPacket {
        hdr,
        data: Bytes::from(data),
    }
}

fn rr_data(addr_type: u16, item_type: u16, item: &[u8]) -> Vec<u8> {
    let mut v = vec![0, 0, 0, 0, 0, 0, 2, 0];
    v.extend_from_slice(&addr_type.to_le_bytes());
    v.extend_from_slice(&[0, 0]);
    v.extend_from_slice(&item_type.to_le_bytes());
    v.extend_from_slice(&(item.len() as u16).to_le_bytes());
    v.extend_from_slice(item);
    v
}

#[test]
fn message_router_reply_decode() {
    let r = MessageRouterReply::decode(&Bytes::from_static(&[0xCC, 0, 0, 0, 0xC4, 0, 1, 2])).unwrap();
    assert_eq!(r.reply_service, 0xCC);
    assert_eq!(r.status, Status { general: 0, extended: 0 });
    assert_eq!(&r.data[..], &[0xC4, 0, 1, 2]);
    assert_eq!(r.remaining_path_size, None);

    let r = MessageRouterReply::decode(&Bytes::from_static(&[0xCC, 0, 0x01, 2, 0x04, 0x02, 7])).unwrap();
    assert_eq!(r.status, Status { general: 1, extended: 0x0204 });
    assert_eq!(r.remaining_path_size, Some(7));
    assert!(r.data.is_empty());

    let r = MessageRouterReply::decode(&Bytes::from_static(&[0xD2, 0, 0x06, 1, 0x09, 5])).unwrap();
    assert!(r.has_more());
    assert_eq!(r.status.extended, 9);
    assert_eq!(r.expect_service(0xD2), Ok(()));
    assert_eq!(r.expect_service(0xCC), Err(Error::UnexpectedService(0xD2)));

    assert!(MessageRouterReply::decode(&Bytes::from_static(&[0xCC, 0, 0])).is_err());
    assert!(MessageRouterReply::decode(&Bytes::from_static(&[0xCC, 0, 0, 3, 0, 0, 0])).is_err());
    assert!(MessageRouterReply::decode(&Bytes::from_static(&[0xCC, 0, 0x02, 0])).is_err());
}

#[test]
fn common_packet_decode() {
    let cpf = CommonPacket::decode(&Bytes::from_static(&[
        2, 0, 0, 0, 0, 0, 0xB2, 0, 2, 0, 9, 8,
    ]))
    .unwrap();
    assert_eq!(cpf.len(), 2);
    let items = cpf.into_vec();
    assert!(items[0].is_null_addr());
    assert_eq!(items[1].type_code, 0xB2);
    assert_eq!(&items[1].data[..], &[9, 8]);
    assert_eq!(items[1].bytes_count(), 6);
    assert_eq!(items[1].ensure_type_code(0xB1), Err(Error::Eip(EipError::InvalidData)));

    let bad = [
        &[1u8][..],
        &[5, 0],
        &[1, 0, 0, 0],
        &[1, 0, 0, 0, 3, 0, 1],
        &[1, 0, 0, 0, 0, 0, 1],
    ];
    for b in bad {
        assert_eq!(
            CommonPacket::decode(&Bytes::copy_from_slice(b)).unwrap_err(),
            Error::Eip(EipError::InvalidData)
        );
    }
}

#[test]
fn unconnected_and_connected_replies() {
    let pkt = packet(0x6F, rr_data(0, 0xB2, &[0xCC, 0, 0, 0, 5]));
    let reply = UnconnectedSendReply::decode(&pkt).unwrap();
    assert_eq!(reply.0.reply_service, 0xCC);
    assert_eq!(&reply.0.data[..], &[5]);

    let pkt = packet(0x70, rr_data(0, 0xB2, &[]));
    assert_eq!(
        UnconnectedSendReply::decode(&pkt).unwrap_err(),
        Error::UnexpectedCommand(0x70)
    );

    let mut data = vec![0, 0, 0, 0, 0, 0, 2, 0, 0xA1, 0, 4, 0, 1, 0, 0, 0];
    data.extend_from_slice(&[0xB1, 0, 6, 0, 1, 0, 0xCC, 0, 0, 0]);
    let reply = ConnectedSendReply::decode(&packet(0x70, data)).unwrap();
    assert_eq!(reply.0.reply_service, 0xCC);

    let pkt = packet(0x70, rr_data(0, 0xB1, &[1, 0]));
    assert_eq!(
        ConnectedSendReply::decode(&pkt).unwrap_err(),
        Error::Eip(EipError::InvalidData)
    );
}

#[test]
fn forward_open_and_close_replies() {
    let mut ok = vec![0xD4, 0, 0, 0];
    ok.extend_from_slice(&[1, 0, 0, 0, 2, 0, 0, 0, 3, 0, 4, 0, 5, 0, 0, 0, 6, 0, 0, 0, 7, 0, 0, 0]);
    ok.extend_from_slice(&[1, 0, 0xAA, 0xBB]);
    let reply = ForwardOpenReply::decode(&packet(0x6F, rr_data(0, 0xB2, &ok))).unwrap();
    match reply {
        ForwardOpenReply::Success { service_code, reply } => {
            assert_eq!(service_code, 0xD4);
            assert_eq!(reply.o_t_connection_id, 1);
            assert_eq!(reply.t_o_connection_id, 2);
            assert_eq!(reply.connection_serial_number, 3);
            assert_eq!(reply.originator_vendor_id, 4);
            assert_eq!(reply.originator_serial_number, 5);
            assert_eq!(reply.o_t_api, 6);
            assert_eq!(reply.t_o_api, 7);
            assert_eq!(&reply.app_data[..], &[0xAA, 0xBB]);
        }
        _ => panic!("expected success"),
    }

    let fail = [0xD4, 0, 0x01, 2, 0x00, 0x01, 3, 0, 4, 0, 5, 0, 0, 0];
    match ForwardOpenReply::decode(&packet(0x6F, rr_data(0, 0xB2, &fail))).unwrap() {
        ForwardOpenReply::Fail(f) => {
            assert_eq!(f.connection_serial_number, 3);
            assert_eq!(f.originator_vendor_id, 4);
            assert_eq!(f.originator_serial_number, 5);
            assert_eq!(f.remaining_path_size, None);
        }
        _ => panic!("expected failure"),
    }

    let wrong_service = [0xD5, 0, 0, 0];
    assert!(ForwardOpenReply::decode(&packet(0x6F, rr_data(0, 0xB2, &wrong_service))).is_err());
    assert_eq!(
        ForwardOpenReply::decode(&packet(0x65, vec![0; 6])).unwrap_err(),
        Error::UnexpectedCommand(0x65)
    );

    let close = [0xCE, 0, 0, 0, 3, 0, 4, 0, 5, 0, 0, 0, 0, 0];
    match ForwardCloseReply::decode(&packet(0x6F, rr_data(0, 0xB2, &close))).unwrap() {
        ForwardCloseReply::Success(s) => {
            assert_eq!(s.connection_serial_number, 3);
            assert_eq!(s.originator_vendor_id, 4);
            assert_eq!(s.originator_serial_number, 5);
            assert!(s.app_data.is_empty());
        }
        _ => panic!("expected success"),
    }

    let routing = parse_forward_request_fail(&Bytes::from_static(&[1, 0, 2, 0, 3, 0, 0, 0, 9]), true).unwrap();
    assert_eq!(routing.remaining_path_size, Some(9));
    assert!(parse_forward_request_fail(&Bytes::from_static(&[1, 0, 2, 0, 3, 0, 0, 0]), true).is_err());
}

#[test]
fn session_and_discovery_replies() {
    let reply = RegisterSessionReply::decode(&packet(0x65, vec![1, 0, 0, 0])).unwrap();
    assert_eq!(reply.session_handle, 0x0102);
    assert_eq!(reply.protocol_version, 1);
    assert_eq!(
        RegisterSessionReply::decode(&packet(0x65, vec![1])).unwrap_err(),
        Error::Eip(EipError::InvalidData)
    );

    let mut identity = vec![1, 0];
    identity.extend_from_slice(&[0, 2, 0xAF, 0x12, 192, 168, 0, 1, 0, 0, 0, 0, 0, 0, 0, 0]);
    identity.extend_from_slice(&[1, 0, 0x0C, 0, 0x36, 0, 20, 11, 0x60, 0x30, 0x78, 0x56, 0x34, 0x12]);
    identity.push(3);
    identity.extend_from_slice(b"PLC");
    identity.push(3);
    let mut data = vec![1, 0, 0x0C, 0];
    data.extend_from_slice(&(identity.len() as u16).to_le_bytes());
    data.extend_from_slice(&identity);
    let reply = ListIdentityReply::decode(&packet(0x63, data)).unwrap();
    let id: &IdentityObject = &reply.0[0];
    assert_eq!(id.protocol_version, 1);
    assert_eq!(id.socket_addr.sin_family, 2);
    assert_eq!(id.socket_addr.sin_port, 0xAF12);
    assert_eq!(id.socket_addr.sin_addr, 0xC0A80001);
    assert_eq!(id.vendor_id, 1);
    assert_eq!(id.device_type, 0x0C);
    assert_eq!(id.product_code, 0x36);
    assert_eq!(id.revision, Revision { major: 20, minor: 11 });
    assert_eq!(id.status, 0x3060);
    assert_eq!(id.serial_number, 0x12345678);
    assert_eq!(id.product_name, "PLC");
    assert_eq!(id.state, 3);

    let mut item = vec![1, 0, 0x20, 0x01];
    item.extend_from_slice(b"Communications\0\0");
    let mut data = vec![1, 0, 0x0C, 0];
    data.extend_from_slice(&(item.len() as u16).to_le_bytes());
    data.extend_from_slice(&item);
    let reply = ListServicesReply::decode(&packet(0x04, data)).unwrap();
    let svc: &ListServiceItem = &reply.0[0];
    assert_eq!(svc.protocol_version, 1);
    assert!(svc.capability_tcp());
    assert!(svc.capability_udp());
    assert_eq!(svc.name, "Communications\0\0");
    assert_eq!(
        ListServicesReply::decode(&packet(0x04, vec![0, 0])).unwrap_err(),
        Error::Eip(EipError::InvalidData)
    );

    assert_eq!(SocketType::ToTarget.type_id(), 0x8000);
    assert_eq!(SocketType::ToOriginator.type_id(), 0x8001);
}
