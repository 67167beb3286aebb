use bytes::Bytes;
use rseip::ab_eip::tag_value::TagValue as AtomicValue;
use rseip::ab_eip::value::{TagType, TagValue, TagValueIter, TagValueTypedIter};
use rseip::codec::Encodable;
use rseip::error::Error;

#[test]
fn atomic_values_encode() {
    let v: AtomicValue<Bytes> = AtomicValue::Bool(true);
    assert_eq!(v.bytes_count(), 6);
    assert_eq!(&v.try_into_bytes().unwrap()[..], &[0xC1, 0, 1, 0, 0xFF, 0]);
    let v: AtomicValue<Bytes> = AtomicValue::Sint(-2);
    assert_eq!(&v.try_into_bytes().unwrap()[..], &[0xC2, 0, 1, 0, 0xFE, 0]);
    let v: AtomicValue<Bytes> = AtomicValue::Int(0x0102);
    assert_eq!(&v.try_into_bytes().unwrap()[..], &[0xC3, 0, 1, 0, 2, 1]);
    let v: AtomicValue<Bytes> = AtomicValue::Dint(-1);
    assert_eq!(&v.try_into_bytes().unwrap()[..], &[0xC4, 0, 1, 0, 0xFF, 0xFF, 0xFF, 0xFF]);
    let v: AtomicValue<Bytes> = AtomicValue::Real(1.5f32.to_bits());
    assert_eq!(&v.try_into_bytes().unwrap()[..], &[0xCA, 0, 1, 0, 0, 0, 0xC0, 0x3F]);
    let v: AtomicValue<Bytes> = AtomicValue::Dword(0x0A0B0C0D);
    assert_eq!(&v.try_into_bytes().unwrap()[..], &[0xD3, 0, 1, 0, 0x0D, 0x0C, 0x0B, 0x0A]);
    let v: AtomicValue<Bytes> = AtomicValue::Lint(1);
    assert_eq!(v.bytes_count(), 12);
    assert_eq!(&v.try_into_bytes().unwrap()[..], &[0xC5, 0, 1, 0, 1, 0, 0, 0, 0, 0, 0, 0]);
    let v = AtomicValue::Structure { handle: 0x1234, data: Bytes::from_static(&[9, 8]) };
    assert_eq!(&v.try_into_bytes().unwrap()[..], &[0xA0, 0x02, 0x34, 0x12, 9, 8]);
}

#[test]
fn atomic_values_read() {
    let v = AtomicValue::try_from(Bytes::from_static(&[0xC4, 0, 0x10, 0, 0, 0])).unwrap();
    assert!(matches!(v, AtomicValue::Dint(16)));
    assert_eq!(v.tag_type(), TagType::Dint);
    let v = AtomicValue::try_from(Bytes::from_static(&[0xC1, 0, 0, 0, 0xFF])).unwrap();
    assert!(matches!(v, AtomicValue::Bool(true)));
    let v = AtomicValue::try_from(Bytes::from_static(&[0xC2, 0, 0x80, 0])).unwrap();
    assert!(matches!(v, AtomicValue::Sint(-128)));
    let v = AtomicValue::try_from(Bytes::from_static(&[0xCA, 0, 0, 0, 0x20, 0x41])).unwrap();
    match v {
        AtomicValue::Real(bits) => assert_eq!(f32::from_bits(bits), 10.0),
        _ => panic!("expected REAL"),
    }
    let v = AtomicValue::try_from(Bytes::from_static(&[0xC5, 0, 2, 0, 0, 0, 0, 0, 0, 0x80])).unwrap();
    assert!(matches!(v, AtomicValue::Lint(x) if x == i64::MIN + 2));
    let v = AtomicValue::try_from(Bytes::from_static(&[0xA0, 0x02, 0x34, 0x12, 5])).unwrap();
    match v {
        AtomicValue::Structure { handle, data } => {
            assert_eq!(handle, 0x1234);
            assert_eq!(&data[..], &[5]);
        }
        _ => panic!("expected structure"),
    }
}

#[test]
fn array_values() {
    let v = TagValue { tag_type: TagType::Int, value: vec![1i16, -1, 0x0203] };
    assert_eq!(v.bytes_count(), 10);
    assert_eq!(&v.try_into_bytes().unwrap()[..], &[0xC3, 0, 3, 0, 1, 0, 0xFF, 0xFF, 3, 2]);
    let v = TagValue { tag_type: TagType::Structure(7), value: Vec::<u8>::new() };
    assert_eq!(&v.try_into_bytes().unwrap()[..], &[0xA0, 0x02, 7, 0, 0, 0]);

    let v: TagValue<Vec<u16>> = TagValue::decode_all(&[0xC3, 0, 1, 0, 2, 0, 3, 0]).unwrap();
    assert_eq!(v.tag_type, TagType::Int);
    assert_eq!(v.value, vec![1, 2, 3]);
    let e = TagValue::<Vec<u32>>::decode_all(&[0xC4, 0, 1, 0, 0, 0, 2, 0]).unwrap_err();
    assert_eq!(e, Error::InvalidLength { actual: 2, expected: 4 });
    let v: TagValue<Vec<u64>> = TagValue::decode_all(&[0xC5, 0, 1, 0, 0, 0, 0, 0, 0, 1]).unwrap();
    assert_eq!(v.value, vec![0x0100_0000_0000_0001]);
}

#[test]
fn value_iterators() {
    let mut it = TagValueIter::from_bytes(Bytes::from_static(&[0xC4, 0, 1, 0, 0, 0, 2])).unwrap();
    assert_eq!(it.tag_type(), TagType::Dint);
    assert_eq!(it.next::<i32>(), Some(Ok(1)));
    assert_eq!(it.next::<i32>(), Some(Err(Error::InvalidLength { actual: 1, expected: 4 })));
    assert_eq!(it.next::<u8>(), Some(Ok(2)));
    assert_eq!(it.next::<u8>(), None);

    let mut it: TagValueTypedIter<u16> =
        TagValueTypedIter::from_bytes(Bytes::from_static(&[0xC3, 0, 5, 0, 6, 0])).unwrap();
    assert_eq!(it.tag_type(), TagType::Int);
    assert_eq!(it.next(), Some(Ok(5)));
    assert_eq!(it.next(), Some(Ok(6)));
    assert_eq!(it.next(), None);
}

#[test]
fn tag_value_encodings_start_with_type_code() {
    let v: AtomicValue<Bytes> = AtomicValue::Dint(1);
    assert_eq!(&v.try_into_bytes().unwrap()[..], &[0xC4, 0, 1, 0, 1, 0, 0, 0]);
    let v: AtomicValue<Bytes> = AtomicValue::Bool(true);
    assert_eq!(&v.try_into_bytes().unwrap()[..], &[0xC1, 0, 1, 0, 0xFF, 0]);
    let v = AtomicValue::Structure { handle: 7, data: Bytes::from_static(&[1, 2, 3]) };
    assert_eq!(v.bytes_count(), 7);
    assert_eq!(&v.try_into_bytes().unwrap()[..2], &[0xA0, 0x02]);
}
