//! Errors of the encapsulation layer and of this library.

use vstd::prelude::*;
use vstd::string::StringExecFns;

verus! {

/// Encapsulation (EIP) error, carried in the status field of a reply header.
#[derive(Debug, Clone, Copy, PartialEq, Eq)]
pub enum EipError {
    InvalidCommand,
    /// failed to request memory
    InsufficientMemory,
    /// invalid data in the data portion of the encapsulation message
    InvalidData,
    /// invalid session
    InvalidSession,
    /// invalid message length
    InvalidLength,
    /// unsupported encapsulation protocol revision
    UnsupportedRevision,
    Unknown(u16),
}

/// The error that a nonzero encapsulation status stands for.
pub open spec fn eip_error_of_status(status: u16) -> EipError {
    if status == 0x0001 {
        EipError::InvalidCommand
    } else if status == 0x0002 {
        EipError::InsufficientMemory
    } else if status == 0x0003 {
        EipError::InvalidData
    } else if status == 0x0064 {
        EipError::InvalidSession
    } else if status == 0x0065 {
        EipError::InvalidLength
    } else if status == 0x0069 {
        EipError::UnsupportedRevision
    } else {
        EipError::Unknown(status)
    }
}

/// A lowercase hexadecimal digit.
pub open spec fn hex_digit(d: nat) -> char {
    if d < 10 {
        (48 + d) as char
    } else {
        (87 + d) as char
    }
}

/// The lowercase hexadecimal digits of `v`, without leading zeros.
pub open spec fn hex_digits(v: nat) -> Seq<char>
    decreases v,
{
    if v < 16 {
        seq![hex_digit(v)]
    } else {
        hex_digits(v / 16).push(hex_digit(v % 16))
    }
}

/// `format!("{:#x}", v)`: `0x` and the lowercase hexadecimal digits of `v`
/// without leading zeros, as std documents the `#x` format.
#[verifier::external_body]
pub(crate) fn hex_text(v: u16) -> (s: String)
    ensures
        s@ == seq!['0', 'x'] + hex_digits(v as nat),
{
    format!("{:#x}", v)
}

/// The decimal digits of `v`, without leading zeros.
pub open spec fn decimal_digits(v: nat) -> Seq<char>
    decreases v,
{
    if v < 10 {
        seq![(48 + v) as char]
    } else {
        decimal_digits(v / 10).push((48 + v % 10) as char)
    }
}

/// `format!("{}", v)`: the decimal digits of `v` without leading zeros, as
/// std documents the `Display` format of integers.
#[verifier::external_body]
pub(crate) fn decimal_text(v: u16) -> (s: String)
    ensures
        s@ == decimal_digits(v as nat),
{
    format!("{}", v)
}

/// What an encapsulation error says.
pub open spec fn eip_error_message(e: EipError) -> Seq<char> {
    match e {
        EipError::InvalidCommand => "The sender issued an invalid or unsupported encapsulation command"@,
        EipError::InsufficientMemory => "Insufficient memory resources in the receiver to handle the command"@,
        EipError::InvalidData => "Poorly formed or incorrect data in the data portion of the encapsulation message"@,
        EipError::InvalidSession => "An originator used an invalid session handle when sending an encapsulation message to the target"@,
        EipError::InvalidLength => "The target received a message of invalid length"@,
        EipError::UnsupportedRevision => "Unsupported encapsulation protocol revision"@,
        EipError::Unknown(v) => "Unknown command error: "@ + seq!['0', 'x'] + hex_digits(v as nat),
    }
}

impl EipError {
    /// The description of the error.
    pub fn message(&self) -> (s: String)
        ensures
            s@ == eip_error_message(*self),
    {
        match self {
            EipError::InvalidCommand => "The sender issued an invalid or unsupported encapsulation command".to_owned(),
            EipError::InsufficientMemory => "Insufficient memory resources in the receiver to handle the command".to_owned(),
            EipError::InvalidData => "Poorly formed or incorrect data in the data portion of the encapsulation message".to_owned(),
            EipError::InvalidSession => "An originator used an invalid session handle when sending an encapsulation message to the target".to_owned(),
            EipError::InvalidLength => "The target received a message of invalid length".to_owned(),
            EipError::UnsupportedRevision => "Unsupported encapsulation protocol revision".to_owned(),
            EipError::Unknown(v) => {
                let mut s = "Unknown command error: ".to_owned();
                let hex = hex_text(*v);
                s.append(hex.as_str());
                s
            },
        }
    }
}

impl EipError {
    /// Error for a nonzero encapsulation status; status 0 stands for success
    /// and has no error.
    pub fn from_status(status: u16) -> (e: EipError)
        requires
            status != 0,
        ensures
            e == eip_error_of_status(status),
    {
        match status {
            0x0001 => EipError::InvalidCommand,
            0x0002 => EipError::InsufficientMemory,
            0x0003 => EipError::InvalidData,
            0x0064 => EipError::InvalidSession,
            0x0065 => EipError::InvalidLength,
            0x0069 => EipError::UnsupportedRevision,
            _ => EipError::Unknown(status),
        }
    }
}

/// Errors of this library.
#[derive(Debug, Clone, PartialEq, Eq)]
pub enum Error {
    /// encapsulation layer error
    Eip(EipError),
    /// a reply carried another command than the request
    UnexpectedCommand(u16),
    /// text that is not valid UTF-8
    InvalidUtf8,
    /// a length did not match what the message needs
    InvalidLength {
        actual: usize,
        expected: usize,
    },
    /// a reply carried another service than the request
    UnexpectedService(u8),
    /// a general CIP status that reports failure
    Cip {
        general: u8,
        extended: u16,
    },
    /// a value outside what the protocol allows
    InvalidValue,
    /// a tag type code that names no known type
    UnexpectedTypeCode(u16),
    /// the target refused to open a CIP connection
    ForwardOpenFailed,
    /// the target refused to close a CIP connection
    ForwardCloseFailed,
    /// the CIP connection has been closed
    ConnectionClosed,
    /// a template object or definition that cannot be read
    Template(TemplateError),
    /// an empty host name
    InvalidHost,
}

/// Why a template object or definition cannot be read.
#[derive(Debug, Clone, Copy, PartialEq, Eq)]
pub enum TemplateError {
    /// the reply to Get Attribute List carried another number of attributes
    UnexpectedItemCount(u16),
    /// an attribute came back with a nonzero status
    AttributeStatus { id: u16, status: u16 },
    /// another attribute came back than the one asked for
    UnexpectedAttribute(u16),
    /// bytes are left after the template object
    TooMuchData,
    /// the member count was not set (or is too small)
    MemberCountUnset,
    /// the object size was not set (or is too small)
    ObjectSizeUnset,
    /// the definition did not end within its size
    OffsetOutOfRange,
    /// the names ended before every member had one
    UnexpectedEof,
    /// not every member has been named yet
    NotEnoughData,
}

} // verus!
