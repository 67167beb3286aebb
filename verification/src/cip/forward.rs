//! Requests of the connection manager: Forward Open, Large Forward Open and
//! Forward Close, with the network connection parameters they carry.

use crate::buf::{bytes_mut_view, le16, le32, put_u16_le, put_u32_le, put_u8};
use crate::cip::epath::EPath;
use crate::codec::Encodable;
use crate::error::Error;
use bytes::BytesMut;
use vstd::prelude::*;

verus! {

/// service code of Forward Open
pub const SERVICE_FORWARD_OPEN: u8 = 0x54;

/// service code of Large Forward Open
pub const SERVICE_LARGE_FORWARD_OPEN: u8 = 0x5B;

/// service code of Forward Close
pub const SERVICE_FORWARD_CLOSE: u8 = 0x4E;

/// Priority of a connection.
#[derive(Debug, Clone, Copy, PartialEq, Eq)]
pub enum Priority {
    Low,
    High,
    Scheduled,
    Urgent,
}

/// Fixed or variable size of the connection's messages.
#[derive(Debug, Clone, Copy, PartialEq, Eq)]
pub enum VariableLength {
    Fixed,
    Variable,
}

/// Connection type.
#[derive(Debug, Clone, Copy, PartialEq, Eq)]
pub enum ConnectionType {
    Null,
    Multicast,
    P2P,
}

/// Direction of the transport: client or server.
#[derive(Debug, Clone, Copy, PartialEq, Eq)]
pub enum Direction {
    Client,
    Server,
}

/// Transport class.
#[derive(Debug, Clone, Copy, PartialEq, Eq)]
pub enum TransportClass {
    Class0,
    Class1,
    Class2,
    Class3,
}

/// Production trigger of the transport.
#[derive(Debug, Clone, Copy, PartialEq, Eq)]
pub enum TriggerType {
    Cyclic,
    ChangeOfState,
    Application,
}

/// Two-bit code of a priority.
pub open spec fn priority_code(p: Priority) -> nat {
    match p {
        Priority::Low => 0,
        Priority::High => 1,
        Priority::Scheduled => 2,
        Priority::Urgent => 3,
    }
}

/// Two-bit code of a connection type.
pub open spec fn connection_type_code(t: ConnectionType) -> nat {
    match t {
        ConnectionType::Null => 0,
        ConnectionType::Multicast => 1,
        ConnectionType::P2P => 2,
    }
}

/// Bit of a fixed or variable size.
pub open spec fn variable_code(v: VariableLength) -> nat {
    match v {
        VariableLength::Fixed => 0,
        VariableLength::Variable => 1,
    }
}

fn priority_value(p: Priority) -> (v: u32)
    ensures
        v == priority_code(p),
{
    match p {
        Priority::Low => 0,
        Priority::High => 1,
        Priority::Scheduled => 2,
        Priority::Urgent => 3,
    }
}

fn connection_type_value(t: ConnectionType) -> (v: u32)
    ensures
        v == connection_type_code(t),
{
    match t {
        ConnectionType::Null => 0,
        ConnectionType::Multicast => 1,
        ConnectionType::P2P => 2,
    }
}

fn variable_value(v: VariableLength) -> (r: u32)
    ensures
        r == variable_code(v),
{
    match v {
        VariableLength::Fixed => 0,
        VariableLength::Variable => 1,
    }
}

/// Network connection parameters of one direction of a connection.
#[derive(Debug, Clone, Copy, PartialEq, Eq)]
pub struct NetworkParameters {
    pub redundant_owner: bool,
    pub connection_type: ConnectionType,
    pub variable_length: VariableLength,
    pub priority: Priority,
    /// size of the connection's messages in bytes
    pub connection_size: u16,
}

impl NetworkParameters {
    /// The 16-bit word of Forward Open: size in bits 0-8, variable size in
    /// bit 9, priority in bits 10-11, connection type in bits 13-14,
    /// redundant owner in bit 15.
    pub open spec fn spec_word(&self) -> nat {
        (self.connection_size as nat % 512) + variable_code(self.variable_length) * 512
            + priority_code(self.priority) * 1024 + connection_type_code(self.connection_type)
            * 8192 + (if self.redundant_owner { 32768nat } else { 0nat })
    }

    /// The 32-bit word of Large Forward Open: size in bits 0-15, variable
    /// size in bit 25, priority in bits 26-27, connection type in bits
    /// 29-30, redundant owner in bit 31.
    pub open spec fn spec_dword(&self) -> nat {
        self.connection_size as nat + variable_code(self.variable_length) * 0x0200_0000
            + priority_code(self.priority) * 0x0400_0000 + connection_type_code(
            self.connection_type,
        ) * 0x2000_0000 + (if self.redundant_owner { 0x8000_0000nat } else { 0nat })
    }

    /// Parameters as the 16-bit word of Forward Open (the size is cut to
    /// its 9 low bits).
    pub fn word(&self) -> (v: u16)
        ensures
            v == self.spec_word(),
    {
        let size = (self.connection_size % 512) as u32;
        let owner: u32 = if self.redundant_owner { 32768 } else { 0 };
        let v = size + variable_value(self.variable_length) * 512 + priority_value(self.priority)
            * 1024 + connection_type_value(self.connection_type) * 8192 + owner;
        v as u16
    }

    /// Parameters as the 32-bit word of Large Forward Open.
    pub fn dword(&self) -> (v: u32)
        ensures
            v == self.spec_dword(),
    {
        let owner: u32 = if self.redundant_owner { 0x8000_0000 } else { 0 };
        self.connection_size as u32 + variable_value(self.variable_length) * 0x0200_0000
            + priority_value(self.priority) * 0x0400_0000 + connection_type_value(
            self.connection_type,
        ) * 0x2000_0000 + owner
    }
}

/// The fields of the Forward Open word can be read back from it: none
/// overlaps another.
pub proof fn lemma_word_fields(p: NetworkParameters)
    ensures
        p.spec_word() < 0x1_0000,
        p.spec_word() % 512 == p.connection_size as nat % 512,
        (p.spec_word() / 512) % 2 == variable_code(p.variable_length),
        (p.spec_word() / 1024) % 4 == priority_code(p.priority),
        (p.spec_word() / 4096) % 2 == 0,
        (p.spec_word() / 8192) % 4 == connection_type_code(p.connection_type),
        p.spec_word() / 32768 == (if p.redundant_owner { 1nat } else { 0nat }),
{
}

/// The fields of the Large Forward Open word can be read back from it.
pub proof fn lemma_dword_fields(p: NetworkParameters)
    ensures
        p.spec_dword() < 0x1_0000_0000,
        p.spec_dword() % 0x1_0000 == p.connection_size,
        (p.spec_dword() / 0x0200_0000) % 2 == variable_code(p.variable_length),
        (p.spec_dword() / 0x0400_0000) % 4 == priority_code(p.priority),
        (p.spec_dword() / 0x2000_0000) % 4 == connection_type_code(p.connection_type),
        p.spec_dword() / 0x8000_0000 == (if p.redundant_owner { 1nat } else { 0nat }),
{
}

/// Transport class and trigger byte: direction in bit 7, production
/// trigger in bits 4-6, transport class in bits 0-3.
pub open spec fn spec_transport_byte(d: Direction, t: TriggerType, c: TransportClass) -> nat {
    (match d {
        Direction::Client => 0nat,
        Direction::Server => 128nat,
    }) + (match t {
        TriggerType::Cyclic => 0nat,
        TriggerType::ChangeOfState => 16nat,
        TriggerType::Application => 32nat,
    }) + (match c {
        TransportClass::Class0 => 0nat,
        TransportClass::Class1 => 1nat,
        TransportClass::Class2 => 2nat,
        TransportClass::Class3 => 3nat,
    })
}

/// The transport class and trigger byte of a connection.
pub fn transport_byte(d: Direction, t: TriggerType, c: TransportClass) -> (v: u8)
    ensures
        v == spec_transport_byte(d, t, c),
{
    let dir: u8 = match d {
        Direction::Client => 0,
        Direction::Server => 128,
    };
    let trigger: u8 = match t {
        TriggerType::Cyclic => 0,
        TriggerType::ChangeOfState => 16,
        TriggerType::Application => 32,
    };
    let class: u8 = match c {
        TransportClass::Class0 => 0,
        TransportClass::Class1 => 1,
        TransportClass::Class2 => 2,
        TransportClass::Class3 => 3,
    };
    dir + trigger + class
}

/// Request data of Forward Open (`large` false: 16-bit network parameters)
/// or Large Forward Open (`large` true: 32-bit network parameters).
#[derive(Debug)]
pub struct ConnectionParameters {
    pub large: bool,
    pub priority_time_ticks: u8,
    pub timeout_ticks: u8,
    pub o_t_connection_id: u32,
    pub t_o_connection_id: u32,
    pub connection_serial_number: u16,
    pub vendor_id: u16,
    pub originator_serial_number: u32,
    pub timeout_multiplier: u8,
    pub o_t_rpi: u32,
    pub o_t_connection_parameters: u32,
    pub t_o_rpi: u32,
    pub t_o_connection_parameters: u32,
    pub transport_class_trigger: u8,
    pub connection_path: EPath,
}

/// A network parameter word: 2 bytes in Forward Open, 4 in Large Forward
/// Open.
pub open spec fn param_bytes(large: bool, v: u32) -> Seq<u8> {
    if large {
        le32(v)
    } else {
        le16(v as u16)
    }
}

impl Encodable for ConnectionParameters {
    /// The path has an even length of at most 255 bytes; the parameter
    /// words of Forward Open fit in 16 bits.
    open spec fn encodable(&self) -> bool {
        &&& self.connection_path.wf()
        &&& self.connection_path.spec_bytes().len() <= 255
        &&& self.connection_path.spec_bytes().len() % 2 == 0
        &&& !self.large ==> self.o_t_connection_parameters <= 0xFFFF
            && self.t_o_connection_parameters <= 0xFFFF
    }

    open spec fn encoding(&self) -> Seq<u8> {
        let path = self.connection_path.spec_bytes();
        seq![self.priority_time_ticks, self.timeout_ticks] + le32(self.o_t_connection_id) + le32(
            self.t_o_connection_id,
        ) + le16(self.connection_serial_number) + le16(self.vendor_id) + le32(
            self.originator_serial_number,
        ) + seq![self.timeout_multiplier, 0u8, 0u8, 0u8] + le32(self.o_t_rpi) + param_bytes(
            self.large,
            self.o_t_connection_parameters,
        ) + le32(self.t_o_rpi) + param_bytes(self.large, self.t_o_connection_parameters) + seq![
            self.transport_class_trigger,
            (path.len() / 2) as u8,
        ] + path
    }

    #[verifier::rlimit(60)]
    fn encode(self, dst: &mut BytesMut) -> (r: Result<(), Error>) {
        let ghost start = bytes_mut_view(*dst);
        put_u8(dst, self.priority_time_ticks);
        put_u8(dst, self.timeout_ticks);
        put_u32_le(dst, self.o_t_connection_id);
        put_u32_le(dst, self.t_o_connection_id);
        put_u16_le(dst, self.connection_serial_number);
        put_u16_le(dst, self.vendor_id);
        put_u32_le(dst, self.originator_serial_number);
        put_u8(dst, self.timeout_multiplier);
        put_u8(dst, 0);  // reserved
        put_u8(dst, 0);
        put_u8(dst, 0);
        put_u32_le(dst, self.o_t_rpi);
        if self.large {
            put_u32_le(dst, self.o_t_connection_parameters);
        } else {
            put_u16_le(dst, self.o_t_connection_parameters as u16);
        }
        put_u32_le(dst, self.t_o_rpi);
        if self.large {
            put_u32_le(dst, self.t_o_connection_parameters);
        } else {
            put_u16_le(dst, self.t_o_connection_parameters as u16);
        }
        put_u8(dst, self.transport_class_trigger);
        let path_len = self.connection_path.bytes_count_ref();
        put_u8(dst, (path_len / 2) as u8);
        self.connection_path.encode_ref(dst);
        assert(bytes_mut_view(*dst) =~= start + self.encoding());
        Ok(())
    }

    fn bytes_count(&self) -> (n: usize) {
        let fixed: usize = if self.large { 40 } else { 36 };
        fixed + self.connection_path.bytes_count_ref()
    }
}

/// The layout of a (Large) Forward Open request: after the RPI of each
/// direction comes that direction's network parameter word, read back
/// little-endian as the whole word: 4 bytes (all 32 bits, so every field of
/// `NetworkParameters::spec_dword`) in Large Forward Open, 2 bytes in Forward
/// Open. The transport byte, the path size in words and the path follow.
pub proof fn lemma_forward_open_layout(c: ConnectionParameters)
    requires
        c.encodable(),
    ensures
        ({
            let e = c.encoding();
            let n: int = if c.large { 40 } else { 36 };
            let t: int = if c.large { 30 } else { 28 };
            &&& e.len() == n + c.connection_path.spec_bytes().len()
            &&& e[0] == c.priority_time_ticks && e[1] == c.timeout_ticks
            &&& e[2] as int + 256 * (e[3] as int) + 65536 * (e[4] as int) + 16777216 * (e[5] as int)
                == c.o_t_connection_id as int
            &&& e[6] as int + 256 * (e[7] as int) + 65536 * (e[8] as int) + 16777216 * (e[9] as int)
                == c.t_o_connection_id as int
            &&& e[10] as int + 256 * (e[11] as int) == c.connection_serial_number as int
            &&& e[12] as int + 256 * (e[13] as int) == c.vendor_id as int
            &&& e[14] as int + 256 * (e[15] as int) + 65536 * (e[16] as int) + 16777216 * (
            e[17] as int) == c.originator_serial_number as int
            &&& e[18] == c.timeout_multiplier && e[19] == 0 && e[20] == 0 && e[21] == 0
            &&& e[22] as int + 256 * (e[23] as int) + 65536 * (e[24] as int) + 16777216 * (
            e[25] as int) == c.o_t_rpi as int
            &&& e[t] as int + 256 * (e[t + 1] as int) + 65536 * (e[t + 2] as int) + 16777216 * (
            e[t + 3] as int) == c.t_o_rpi as int
            &&& c.large ==> e[26] as int + 256 * (e[27] as int) + 65536 * (e[28] as int)
                + 16777216 * (e[29] as int) == c.o_t_connection_parameters as int
            &&& c.large ==> e[34] as int + 256 * (e[35] as int) + 65536 * (e[36] as int)
                + 16777216 * (e[37] as int) == c.t_o_connection_parameters as int
            &&& !c.large ==> e[26] as int + 256 * (e[27] as int)
                == c.o_t_connection_parameters as int
            &&& !c.large ==> e[32] as int + 256 * (e[33] as int)
                == c.t_o_connection_parameters as int
            &&& e[n - 2] == c.transport_class_trigger
            &&& e[n - 1] as int * 2 == c.connection_path.spec_bytes().len()
            &&& e.subrange(n, e.len() as int) == c.connection_path.spec_bytes()
        }),
{
    let e = c.encoding();
    let n: int = if c.large { 40 } else { 36 };
    let t: int = if c.large { 30 } else { 28 };
    lemma_le32_value(c.o_t_connection_id);
    lemma_le32_value(c.t_o_connection_id);
    lemma_le32_value(c.originator_serial_number);
    lemma_le16_value(c.connection_serial_number);
    lemma_le16_value(c.vendor_id);
    assert(e.subrange(2, 6) =~= le32(c.o_t_connection_id));
    assert(e.subrange(6, 10) =~= le32(c.t_o_connection_id));
    assert(e.subrange(10, 12) =~= le16(c.connection_serial_number));
    assert(e.subrange(12, 14) =~= le16(c.vendor_id));
    assert(e.subrange(14, 18) =~= le32(c.originator_serial_number));
    assert(e[2] == e.subrange(2, 6)[0] && e[3] == e.subrange(2, 6)[1]);
    assert(e[4] == e.subrange(2, 6)[2] && e[5] == e.subrange(2, 6)[3]);
    assert(e[6] == e.subrange(6, 10)[0] && e[7] == e.subrange(6, 10)[1]);
    assert(e[8] == e.subrange(6, 10)[2] && e[9] == e.subrange(6, 10)[3]);
    assert(e[10] == e.subrange(10, 12)[0] && e[11] == e.subrange(10, 12)[1]);
    assert(e[12] == e.subrange(12, 14)[0] && e[13] == e.subrange(12, 14)[1]);
    assert(e[14] == e.subrange(14, 18)[0] && e[15] == e.subrange(14, 18)[1]);
    assert(e[16] == e.subrange(14, 18)[2] && e[17] == e.subrange(14, 18)[3]);
    lemma_le32_value(c.o_t_rpi);
    lemma_le32_value(c.t_o_rpi);
    lemma_le32_value(c.o_t_connection_parameters);
    lemma_le32_value(c.t_o_connection_parameters);
    lemma_le16_value(c.o_t_connection_parameters as u16);
    lemma_le16_value(c.t_o_connection_parameters as u16);
    assert(e.subrange(22, 26) =~= le32(c.o_t_rpi));
    assert(e.subrange(26, t) =~= param_bytes(c.large, c.o_t_connection_parameters));
    assert(e.subrange(t, t + 4) =~= le32(c.t_o_rpi));
    assert(e.subrange(t + 4, n - 2) =~= param_bytes(c.large, c.t_o_connection_parameters));
    assert(e.subrange(n, e.len() as int) =~= c.connection_path.spec_bytes());
    assert(e[22] == e.subrange(22, 26)[0] && e[23] == e.subrange(22, 26)[1]);
    assert(e[24] == e.subrange(22, 26)[2] && e[25] == e.subrange(22, 26)[3]);
    assert(e[t] == e.subrange(t, t + 4)[0] && e[t + 1] == e.subrange(t, t + 4)[1]);
    assert(e[t + 2] == e.subrange(t, t + 4)[2] && e[t + 3] == e.subrange(t, t + 4)[3]);
    assert(e[26] == e.subrange(26, t)[0] && e[27] == e.subrange(26, t)[1]);
    assert(e[t + 4] == e.subrange(t + 4, n - 2)[0] && e[t + 5] == e.subrange(t + 4, n - 2)[1]);
    if c.large {
        assert(e[28] == e.subrange(26, t)[2] && e[29] == e.subrange(26, t)[3]);
        assert(e[36] == e.subrange(t + 4, n - 2)[2] && e[37] == e.subrange(t + 4, n - 2)[3]);
    }
}

/// In a Large Forward Open request, every field of the originator to
/// target network parameters (size, variable length, priority, connection
/// type, redundant owner) can be read back from the 4 bytes sent after the
/// originator to target RPI.
pub proof fn lemma_large_open_parameters(c: ConnectionParameters, p: NetworkParameters)
    requires
        c.encodable(),
        c.large,
        c.o_t_connection_parameters == p.spec_dword(),
    ensures
        ({
            let e = c.encoding();
            let w = e[26] as int + 256 * (e[27] as int) + 65536 * (e[28] as int) + 16777216 * (
            e[29] as int);
            &&& w % 0x1_0000 == p.connection_size
            &&& (w / 0x0200_0000) % 2 == variable_code(p.variable_length)
            &&& (w / 0x0400_0000) % 4 == priority_code(p.priority)
            &&& (w / 0x2000_0000) % 4 == connection_type_code(p.connection_type)
            &&& w / 0x8000_0000 == (if p.redundant_owner { 1int } else { 0int })
        }),
{
    lemma_forward_open_layout(c);
    lemma_dword_fields(p);
}

/// The layout of a Forward Close request: tick time, timeout ticks, the
/// connection serial number (little-endian), the vendor id, the connection
/// serial number again, the path size in words, a reserved 0 and the path.
pub proof fn lemma_forward_close_layout(c: ForwardCloseRequest)
    requires
        c.encodable(),
    ensures
        ({
            let e = c.encoding();
            &&& e.len() == 10 + c.connection_path.spec_bytes().len()
            &&& e[0] == c.priority_time_ticks && e[1] == c.timeout_ticks
            &&& e[2] as int + 256 * (e[3] as int) == c.connection_serial_number as int
            &&& e[4] as int + 256 * (e[5] as int) == c.originator_vendor_id as int
            &&& e[6] as int + 256 * (e[7] as int) == c.connection_serial_number as int
            &&& e[8] as int * 2 == c.connection_path.spec_bytes().len() && e[9] == 0
            &&& e.subrange(10, e.len() as int) == c.connection_path.spec_bytes()
        }),
{
    let e = c.encoding();
    lemma_le16_value(c.connection_serial_number);
    lemma_le16_value(c.originator_vendor_id);
    assert(e.subrange(10, e.len() as int) =~= c.connection_path.spec_bytes());
}

/// The little-endian bytes of a `u32` weigh up to it.
proof fn lemma_le32_value(v: u32)
    ensures
        le32(v)[0] as int + 256 * (le32(v)[1] as int) + 65536 * (le32(v)[2] as int) + 16777216 * (
        le32(v)[3] as int) == v as int,
{
}

/// The little-endian bytes of a `u16` weigh up to it.
proof fn lemma_le16_value(v: u16)
    ensures
        le16(v)[0] as int + 256 * (le16(v)[1] as int) == v as int,
{
}

/// Request data of Forward Close.
#[derive(Debug)]
pub struct ForwardCloseRequest {
    pub priority_time_ticks: u8,
    pub timeout_ticks: u8,
    pub connection_serial_number: u16,
    pub originator_vendor_id: u16,
    pub originator_serial_number: u32,
    pub connection_path: EPath,
}

impl Encodable for ForwardCloseRequest {
    /// The path has an even length of at most 255 bytes.
    open spec fn encodable(&self) -> bool {
        &&& self.connection_path.wf()
        &&& self.connection_path.spec_bytes().len() <= 255
        &&& self.connection_path.spec_bytes().len() % 2 == 0
    }

    /// Tick time, timeout ticks, connection serial number, vendor id, the
    /// connection serial number once more, path size in words, a reserved
    /// byte and the path.
    open spec fn encoding(&self) -> Seq<u8> {
        let path = self.connection_path.spec_bytes();
        seq![self.priority_time_ticks, self.timeout_ticks] + le16(self.connection_serial_number)
            + le16(self.originator_vendor_id) + le16(self.connection_serial_number) + seq![
            (path.len() / 2) as u8,
            0u8,
        ] + path
    }

    fn encode(self, dst: &mut BytesMut) -> (r: Result<(), Error>) {
        let ghost start = bytes_mut_view(*dst);
        put_u8(dst, self.priority_time_ticks);
        put_u8(dst, self.timeout_ticks);
        put_u16_le(dst, self.connection_serial_number);
        put_u16_le(dst, self.originator_vendor_id);
        put_u16_le(dst, self.connection_serial_number);
        let path_len = self.connection_path.bytes_count_ref();
        put_u8(dst, (path_len / 2) as u8);  // path size
        put_u8(dst, 0);  // reserved
        self.connection_path.encode_ref(dst);
        assert(bytes_mut_view(*dst) =~= start + self.encoding());
        Ok(())
    }

    fn bytes_count(&self) -> (n: usize) {
        10 + self.connection_path.bytes_count_ref()
    }
}

} // verus!
