use bytes::{Bytes, BytesMut};
use rseip::cip::epath::{EPath, PortSegment, Segment, EPATH_CONNECTION_MANAGER};
use rseip::codec::Encodable;

#[test]
fn test_epath_symbol() {
    let epath = EPath::from(vec![Segment::Symbol("TotalCount".to_owned())]);

    assert_eq!(epath.bytes_count(), 12);

    let mut buf = BytesMut::new();
    epath.encode(&mut buf).unwrap();

    assert_eq!(
        &buf[..],
        &[0x91, 0x0A, 0x54, 0x6F, 0x74, 0x61, 0x6C, 0x43, 0x6F, 0x75, 0x6E, 0x74]
    );
}

#[test]
fn test_epath_symbol_odd() {
    let epath = EPath::from(vec![Segment::Symbol("TotalCountt".to_owned())]);

    assert_eq!(epath.bytes_count(), 14);

    let mut buf = BytesMut::new();
    epath.encode(&mut buf).unwrap();

    assert_eq!(
        &buf[..],
        &[0x91, 0x0B, 0x54, 0x6F, 0x74, 0x61, 0x6C, 0x43, 0x6F, 0x75, 0x6E, 0x74, 0x74, 0x00]
    );
}

#[test]
fn test_epath_unconnected_send() {
    let epath = EPath::from(vec![Segment::Class(0x06), Segment::Instance(0x1)]);

    assert_eq!(epath.bytes_count(), 4);

    let mut buf = BytesMut::new();
    epath.encode(&mut buf).unwrap();

    assert_eq!(&buf[..], EPATH_CONNECTION_MANAGER);
}

#[test]
fn test_epath_router_path() {
    let epath = EPath::from(vec![Segment::Port(PortSegment::default())]);

    assert_eq!(epath.bytes_count(), 2);

    let mut buf = BytesMut::new();
    epath.encode(&mut buf).unwrap();

    assert_eq!(&buf[..], &[01, 00]);
}

#[test]
fn epath_wide_ids_and_elements() {
    let epath = EPath::new()
        .with_class(0x1234)
        .with_instance(0x100)
        .with_attribute(7)
        .with_element(0x1FF)
        .with_element(0x12345);
    assert_eq!(epath.bytes_count(), 4 + 4 + 2 + 4 + 6);
    let mut buf = BytesMut::new();
    epath.encode(&mut buf).unwrap();
    assert_eq!(
        &buf[..],
        &[
            0x21, 0x00, 0x34, 0x12, // class
            0x25, 0x00, 0x00, 0x01, // instance
            0x30, 0x07, // attribute
            0x29, 0x00, 0xFF, 0x01, // 16-bit element
            0x2A, 0x00, 0x45, 0x23, 0x01, 0x00, // 32-bit element
        ]
    );
}

#[test]
fn epath_port_segments() {
    let seg = PortSegment {
        port: 18,
        link: Bytes::from_static(&[10, 0, 0, 1]),
    };
    assert_eq!(seg.bytes_count(), 8);
    let mut buf = BytesMut::new();
    seg.encode(&mut buf).unwrap();
    assert_eq!(&buf[..], &[0x1F, 0x04, 0x00, 0x12, 10, 0, 0, 1]);

    let epath = EPath::new().with_port_slot(2, 3);
    let mut buf = BytesMut::new();
    assert_eq!(epath.bytes_count(), 2);
    epath.encode(&mut buf).unwrap();
    assert_eq!(&buf[..], &[0x02, 0x03]);

    let seg = PortSegment {
        port: 3,
        link: Bytes::from_static(&[1, 2, 3]),
    };
    let mut buf = BytesMut::new();
    assert_eq!(seg.bytes_count(), 6);
    seg.encode(&mut buf).unwrap();
    assert_eq!(&buf[..], &[0x13, 0x03, 1, 2, 3, 0]);
}

#[test]
fn segment_is_port() {
    assert!(Segment::Port(PortSegment::default()).is_port());
    assert!(!Segment::Class(1).is_port());
}
