use bytes::Bytes;
use rseip::ab_eip::symbol::{SymbolInstance, SymbolType};
use rseip::error::Error;

#[test]
fn test_symbol_type() {
    let sym_type = SymbolType(0x82E9);
    assert!(sym_type.is_struct());
    assert!(!sym_type.is_atomic());
}

#[test]
fn symbol_type_fields() {
    let sym_type = SymbolType(0x82E9);
    assert_eq!(sym_type.instance_id(), Some(0x2E9));
    assert_eq!(sym_type.type_code(), None);
    assert_eq!(sym_type.dims(), 0);
    assert!(!sym_type.is_predefined());
    assert!(SymbolType(0x8F00).is_predefined());

    let dint_array = SymbolType(0x20C4);
    assert_eq!(dint_array.type_code(), Some(0xC4));
    assert_eq!(dint_array.dims(), 1);
    assert_eq!(dint_array.instance_id(), None);
    assert!(!dint_array.is_bool());

    let bool_bit3 = SymbolType(0x03C1);
    assert!(bool_bit3.is_bool());
    assert_eq!(bool_bit3.bit_pos(), Some(3));
    assert_eq!(u16::from(bool_bit3), 0x03C1);
}

#[test]
fn symbol_type_builder() {
    let t = SymbolType::builder().atomic(0xC1).dims(2).bit_pos(5).finish();
    assert_eq!(t.0, 0x45C1);
    assert!(t.is_bool());
    assert_eq!(t.bit_pos(), Some(5));
    assert_eq!(t.dims(), 2);

    let t = SymbolType::builder().dims(3).structure(0x123).finish();
    assert_eq!(t.0, 0xE123);
    assert!(t.is_struct());
    assert_eq!(t.instance_id(), Some(0x123));
    assert_eq!(t.dims(), 3);
}

#[test]
fn symbol_instance_decode() {
    let mut buf = Bytes::from_static(&[
        0x34, 0x12, 0, 0, 3, 0, b'a', b':', b'b', 0xC4, 0x00, 0x99,
    ]);
    let inst = SymbolInstance::decode(&mut buf).unwrap();
    assert_eq!(inst.id, 0x1234);
    assert_eq!(inst.name, "a:b");
    assert_eq!(inst.symbol_type, SymbolType(0x00C4));
    assert!(inst.is_module_defined());
    assert_eq!(&buf[..], &[0x99]);

    let mut short = Bytes::from_static(&[1, 2, 3]);
    assert_eq!(
        SymbolInstance::decode(&mut short).unwrap_err(),
        Error::InvalidLength { actual: 3, expected: 6 }
    );
    let mut short_name = Bytes::from_static(&[1, 0, 0, 0, 4, 0, b'a', b'b']);
    assert_eq!(
        SymbolInstance::decode(&mut short_name).unwrap_err(),
        Error::InvalidLength { actual: 2, expected: 6 }
    );
    let mut bad = Bytes::from_static(&[1, 0, 0, 0, 1, 0, 0xFF, 0, 0]);
    assert_eq!(SymbolInstance::decode(&mut bad).unwrap_err(), Error::InvalidUtf8);

    let mut plain = Bytes::from_static(&[1, 0, 0, 0, 2, 0, b'a', b'b', 0xC1, 0x00]);
    assert!(!SymbolInstance::decode(&mut plain).unwrap().is_module_defined());
}
