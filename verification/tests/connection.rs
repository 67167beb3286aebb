use bytes::Bytes;
use rseip::cip::connection::{
    ForwardCloseReply, ForwardCloseSuccess, ForwardOpenReply, ForwardOpenSuccess,
    ForwardRequestFail,
};
use rseip::cip::epath::{EPath, Segment};
use rseip::cip::forward::{
    transport_byte, ConnectionType, Direction, NetworkParameters, Priority, TransportClass,
    TriggerType, VariableLength, SERVICE_FORWARD_CLOSE, SERVICE_FORWARD_OPEN,
    SERVICE_LARGE_FORWARD_OPEN,
};
use rseip::client::connection::{calc_timeout_ticks, Connection, Options};
use rseip::codec::Encodable;
use rseip::error::Error;

fn success(id: u32, serial: u16) -> ForwardOpenReply {
    ForwardOpenReply::Success {
        service_code: 0xD4,
        reply: ForwardOpenSuccess {
            o_t_connection_id: id,
            t_o_connection_id: 7,
            connection_serial_number: serial,
            originator_vendor_id: 0xFF,
            originator_serial_number: 0xFFFF_FFFF,
            o_t_api: 0x4240,
            t_o_api: 0x4240,
            app_data: Bytes::new(),
        },
    }
}

fn failure() -> ForwardRequestFail {
    ForwardRequestFail {
        connection_serial_number: 1,
        originator_vendor_id: 2,
        originator_serial_number: 3,
        remaining_path_size: None,
    }
}

#[test]
fn options_defaults_and_builders() {
    let o = Options::default();
    assert_eq!(o.priority_time_ticks, 3);
    assert_eq!(o.timeout_ticks, 0xFA);
    assert!(o.connection_serial_number >= 1 && o.connection_serial_number < 0xFFFF);
    assert_eq!(o.vendor_id, 0xFF);
    assert_eq!(o.originator_serial_number, 0xFFFF_FFFF);
    assert_eq!(o.connection_size, 504);
    assert_eq!(o.connection_path.bytes_count(), 6);
    assert!(!o.large_open);

    let o = Connection::options().priority_time_ticks(0xF7).connection_size(100).large_open(true);
    assert_eq!(o.priority_time_ticks, 0x07);
    assert_eq!(o.connection_size, 100);
    assert!(o.large_open);
}

#[test]
fn network_parameter_words() {
    let p = NetworkParameters {
        redundant_owner: false,
        connection_type: ConnectionType::P2P,
        variable_length: VariableLength::Fixed,
        priority: Priority::High,
        connection_size: 504,
    };
    // 504 | high priority << 10 | point to point << 13
    assert_eq!(p.word(), 0x45F8);
    assert_eq!(p.dword(), 0x4400_01F8);
    let q = NetworkParameters {
        redundant_owner: true,
        connection_type: ConnectionType::Multicast,
        variable_length: VariableLength::Variable,
        priority: Priority::Urgent,
        connection_size: 0x0200,
    };
    assert_eq!(q.word(), 0x8000 | 0x2000 | 0x0C00 | 0x0200);
    assert_eq!(
        transport_byte(Direction::Server, TriggerType::Application, TransportClass::Class3),
        0xA3
    );
    assert_eq!(transport_byte(Direction::Client, TriggerType::Cyclic, TransportClass::Class1), 0x01);
}

#[test]
fn timeout_ticks() {
    assert_eq!(calc_timeout_ticks(100), (0, 100));
    assert_eq!(calc_timeout_ticks(1000), (3, 125));
    assert_eq!(calc_timeout_ticks(510), (2, 127));
}

#[test]
fn forward_open_request_bytes() {
    let options = Options::default().connection_serial_number(0x1234).originator_vendor_id(0x55);
    let mr = Connection::open_request(&options);
    assert_eq!(mr.service_code, SERVICE_FORWARD_OPEN);
    let bytes = mr.try_into_bytes().unwrap();
    let expected: Vec<u8> = vec![
        0x54, 0x02, 0x20, 0x06, 0x24, 0x01, // service, connection manager
        0x03, 0xFA, // tick time, timeout ticks
        0, 0, 0, 0, 0, 0, 0, 0, // connection ids
        0x34, 0x12, 0x55, 0x00, // serial, vendor
        0xFF, 0xFF, 0xFF, 0xFF, // originator serial
        0x03, 0, 0, 0, // multiplier, reserved
        0x40, 0x42, 0, 0, 0xF8, 0x45, // o->t rpi, parameters
        0x40, 0x42, 0, 0, 0xF8, 0x45, // t->o rpi, parameters
        0xA3, 0x03, // transport, path words
        0x01, 0x00, 0x20, 0x02, 0x24, 0x01, // backplane slot 0, message router
    ];
    assert_eq!(&bytes[..], &expected[..]);

    let large = Connection::open_request(&Options::default().large_open(true));
    assert_eq!(large.service_code, SERVICE_LARGE_FORWARD_OPEN);
    assert_eq!(large.data.bytes_count(), 46);
    assert_eq!(large.data.o_t_connection_parameters, 0x4400_01F8);
}

#[test]
fn connection_lifecycle() {
    let options = Options::default().originator_serial_number(9).originator_vendor_id(8);
    assert_eq!(
        Connection::new(Options::default(), ForwardOpenReply::Fail(failure())).unwrap_err(),
        Error::ForwardOpenFailed
    );
    let mut c = Connection::new(options, success(0xABCD, 0x77)).unwrap();
    assert!(!c.is_closed());
    assert_eq!(c.sequence_number, 0);
    assert_eq!(c.connection_serial_number, 0x77);
    assert_eq!(c.originator_serial_number, 9);
    assert_eq!(c.next_send(), Ok((0xABCD, 1)));
    assert_eq!(c.next_send(), Ok((0xABCD, 2)));
    c.sequence_number = u16::MAX;
    assert_eq!(c.next_send(), Ok((0xABCD, 1)));

    let close = c.close_request().unwrap();
    assert_eq!(close.service_code, SERVICE_FORWARD_CLOSE);
    let bytes = close.try_into_bytes().unwrap();
    assert_eq!(
        &bytes[..],
        &[
            0x4E, 0x02, 0x20, 0x06, 0x24, 0x01, 0x03, 0xFA, 0x77, 0x00, 0x08, 0x00, 0x77, 0x00,
            0x03, 0x00, 0x01, 0x00, 0x20, 0x02, 0x24, 0x01
        ]
    );
    assert_eq!(c.close(ForwardCloseReply::Fail(failure())), Err(Error::ForwardCloseFailed));
    assert!(!c.is_closed());
    let ok = ForwardCloseSuccess {
        connection_serial_number: 0x77,
        originator_vendor_id: 8,
        originator_serial_number: 9,
        app_data: Bytes::new(),
    };
    assert_eq!(c.close(ForwardCloseReply::Success(ok)), Ok(()));
    assert!(c.is_closed());
    assert!(c.close_request().is_none());
    assert_eq!(c.next_send(), Err(Error::ConnectionClosed));
}

#[test]
fn epath_clone_keeps_encoding() {
    let p = EPath::new().with_class(0x6B).with_instance(0x0102).with_symbol("abc");
    let q = p.clone();
    assert_eq!(p.bytes_count(), q.bytes_count());
    assert_eq!(q.try_into_bytes().unwrap(), p.try_into_bytes().unwrap());
    assert_eq!(EPath::new().with_class(2).clone().0, vec![Segment::Class(2)]);
}

#[test]
fn sequence_numbers_cycle() {
    let mut c = Connection::new(Options::default(), success(5, 6)).unwrap();
    for k in 1u32..=140_000 {
        let (_, seq) = c.next_send().unwrap();
        assert_eq!(seq as u32, (k - 1) % 65535 + 1);
        assert_ne!(seq, 0);
    }
}
