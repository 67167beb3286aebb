use bytes::Bytes;
use rseip::ab_eip::service::{
    expect_reply, read_fragmented_reply, read_tag_reply, read_tag_request, write_fragmented_reply,
    write_tag_request, ReadFragmentedRequest, ReadModifyWriteRequest, TagRequest,
    WriteFragmentedRequest, SERVICE_WRITE_TAG,
};
use rseip::ab_eip::value::{TagType, TagValue};
use rseip::cip::epath::EPath;
use rseip::cip::mr::{MessageRouterReply, Status};
use rseip::codec::Encodable;
use rseip::error::Error;

fn reply(service: u8, general: u8, data: &'static [u8]) -> MessageRouterReply<Bytes> {
    MessageRouterReply::new(service, Status { general, extended: 0 }, Bytes::from_static(data))
}

fn tag() -> EPath {
    EPath::new().with_symbol("ab")
}

#[test]
fn read_and_write_tag() {
    let mr = read_tag_request(TagRequest::from((tag(), 2)));
    assert_eq!(
        &mr.try_into_bytes().unwrap()[..],
        &[0x4C, 0x02, 0x91, 0x02, b'a', b'b', 2, 0]
    );
    assert_eq!(&read_tag_reply(reply(0xCC, 0, &[0xC4, 0, 1, 0, 0, 0])).unwrap()[..], &[0xC4, 0, 1, 0, 0, 0]);
    assert_eq!(read_tag_reply(reply(0xCD, 0, &[])).unwrap_err(), Error::UnexpectedService(0xCD));
    assert_eq!(
        read_tag_reply(reply(0xCC, 0x04, &[])).unwrap_err(),
        Error::Cip { general: 4, extended: 0 }
    );

    let value = TagValue { tag_type: TagType::Dint, value: 7i32 };
    let mr = write_tag_request(tag(), value);
    assert_eq!(
        &mr.try_into_bytes().unwrap()[..],
        &[0x4D, 0x02, 0x91, 0x02, b'a', b'b', 0xC4, 0, 1, 0, 7, 0, 0, 0]
    );
    assert_eq!(expect_reply(&reply(0xCD, 0, &[]), SERVICE_WRITE_TAG), Ok(()));
    assert_eq!(
        expect_reply(&reply(0xCC, 0, &[]), SERVICE_WRITE_TAG),
        Err(Error::UnexpectedService(0xCC))
    );
    assert_eq!(
        expect_reply(&reply(0xCD, 0x05, &[]), SERVICE_WRITE_TAG),
        Err(Error::Cip { general: 5, extended: 0 })
    );
}

#[test]
fn fragmented_services() {
    let mr = ReadFragmentedRequest::new(10).tag(tag()).offset(4).into_request();
    assert_eq!(
        &mr.try_into_bytes().unwrap()[..],
        &[0x52, 0x02, 0x91, 0x02, b'a', b'b', 10, 0, 4, 0, 0, 0]
    );
    let (more, tag_type, data) = read_fragmented_reply(&reply(0xD2, 0x06, &[0xC3, 0, 1, 0])).unwrap();
    assert!(more);
    assert_eq!(tag_type, 0xC3);
    assert_eq!(&data[..], &[1, 0]);
    assert_eq!(
        read_fragmented_reply(&reply(0xD2, 0x05, &[])).unwrap_err(),
        Error::Cip { general: 5, extended: 0 }
    );

    let req = WriteFragmentedRequest::new(4, 0x0102u16).tag(tag()).tag_type(0xC3).offset(2);
    assert_eq!(
        &req.into_request().try_into_bytes().unwrap()[..],
        &[0x53, 0x02, 0x91, 0x02, b'a', b'b', 0xC3, 0, 4, 0, 2, 0, 0, 0, 2, 1]
    );
    assert_eq!(write_fragmented_reply(&reply(0xD3, 0x06, &[])), Ok(true));
    assert_eq!(write_fragmented_reply(&reply(0xD3, 0, &[])), Ok(false));
    assert_eq!(
        write_fragmented_reply(&reply(0xD2, 0, &[])),
        Err(Error::UnexpectedService(0xD2))
    );
}

#[test]
fn read_modify_write_request() {
    let req = ReadModifyWriteRequest::<2>::new().tag(tag()).or_mask([1, 2]).and_mask([0xFE, 0xFF]);
    assert_eq!(
        &req.into_request().try_into_bytes().unwrap()[..],
        &[0x4E, 0x02, 0x91, 0x02, b'a', b'b', 2, 0, 1, 2, 0xFE, 0xFF]
    );
}

#[test]
fn tag_type_roundtrip() {
    for t in [TagType::Bool, TagType::Dint, TagType::Real, TagType::Structure(0x1234)] {
        let mut bytes = TagValue { tag_type: t, value: 0u8 }.try_into_bytes().unwrap().to_vec();
        bytes.truncate(t.bytes_count());
        bytes.push(0);
        assert_eq!(TagType::decode(&bytes), Ok((t, t.bytes_count())));
    }
}
