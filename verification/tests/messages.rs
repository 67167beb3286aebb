use rseip::ab_eip::path::PathError;
use rseip::error::EipError;

#[test]
fn error_messages() {
    assert_eq!(
        EipError::InvalidLength.message(),
        "The target received a message of invalid length"
    );
    assert_eq!(EipError::Unknown(0x1F).message(), "Unknown command error: 0x1f");
    assert_eq!(EipError::from_status(0x0064), EipError::InvalidSession);
    assert_eq!(PathError::Eof.message(), "syntax error - unexpected end of input buffer");
    assert_eq!(PathError::UnexpectedByte(0x2D).message(), "syntax error - unexpected byte: 0x2d");
    assert_eq!(EipError::Unknown(0).message(), "Unknown command error: 0x0");
    assert_eq!(EipError::Unknown(0xABCD).message(), "Unknown command error: 0xabcd");
}

use rseip::client::host::host_address;
use rseip::error::Error;

#[test]
fn host_addresses() {
    assert_eq!(host_address("192.168.0.83"), Ok("192.168.0.83:44818".to_owned()));
    assert_eq!(host_address("plc:2222"), Ok("plc:2222".to_owned()));
    assert_eq!(host_address(""), Err(Error::InvalidHost));
}
