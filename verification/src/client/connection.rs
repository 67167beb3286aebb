//! A CIP connection for explicit messaging: the options it is opened with,
//! the Forward Open request built from them, the state a reply establishes,
//! sequence numbers of connected sends, and Forward Close.

use crate::buf::bytes_view;
use crate::cip::connection::{ForwardCloseReply, ForwardOpenReply};
use crate::cip::epath::{EPath, PortSegment, Segment};
use crate::cip::forward::{
    spec_transport_byte, transport_byte, ConnectionParameters, ConnectionType, Direction,
    ForwardCloseRequest, NetworkParameters, Priority, TransportClass, TriggerType,
    VariableLength, SERVICE_FORWARD_CLOSE, SERVICE_FORWARD_OPEN, SERVICE_LARGE_FORWARD_OPEN,
};
use crate::cip::mr::MessageRouterRequest;
use crate::error::Error;
use vstd::arithmetic::power2::pow2;
use vstd::prelude::*;

verus! {

/// `rand::thread_rng().gen_range(1..0xFFFF)`: a random number drawn from
/// the half-open range 1..0xFFFF, as rand documents for a non-empty range.
/// Which number comes is left open.
#[verifier::external_body]
fn random_serial_number() -> (n: u16)
    ensures
        1 <= n < 0xFFFF,
{
    rand::Rng::gen_range(&mut rand::thread_rng(), 1..0xFFFF)
}

/// Time tick exponent and timeout ticks for a timeout in milliseconds:
/// the exponent is `timeout / 255`, the ticks `timeout / 2^exponent`, both
/// cut to a byte.
pub open spec fn spec_timeout_ticks(timeout: u32) -> (u8, u8) {
    let time_tick = timeout / 255;
    (time_tick as u8, (timeout as nat / pow2(time_tick as nat)) as u8)
}

/// Tick time exponent and timeout ticks of a timeout in milliseconds; the
/// exponent must stay below 32.
pub fn calc_timeout_ticks(timeout: u32) -> (r: (u8, u8))
    requires
        timeout / 255 < 32,
    ensures
        r == spec_timeout_ticks(timeout),
{
    let time_tick = timeout / 255;
    let timeout_tick = timeout >> time_tick;
    proof {
        vstd::bits::lemma_u32_shr_is_div(timeout, time_tick);
    }
    (time_tick as u8, timeout_tick as u8)
}

/// Options of a CIP connection.
#[derive(Debug)]
pub struct Options {
    /// tick time
    pub priority_time_ticks: u8,
    /// timeout in ticks
    pub timeout_ticks: u8,
    pub connection_serial_number: u16,
    pub vendor_id: u16,
    pub originator_serial_number: u32,
    pub o_t_rpi: u32,
    pub t_o_rpi: u32,
    /// multiplier applied to the RPI to obtain the connection timeout
    pub timeout_multiplier: u8,
    pub connection_size: u16,
    pub connection_path: EPath,
    pub o_t_priority: Priority,
    pub t_o_priority: Priority,
    pub o_t_variable_length: VariableLength,
    pub t_o_variable_length: VariableLength,
    pub o_t_connection_type: ConnectionType,
    pub t_o_connection_type: ConnectionType,
    pub transport_direction: Direction,
    pub transport_class: TransportClass,
    pub transport_trigger: TriggerType,
    pub large_open: bool,
}

impl Options {
    /// Tick time; only its low 4 bits are kept.
    pub fn priority_time_ticks(self, val: u8) -> (r: Self)
        ensures
            r == (Options { priority_time_ticks: val & 0xF, ..self }),
    {
        Options { priority_time_ticks: val & 0xF, ..self }
    }

    pub fn timeout_ticks(self, val: u8) -> (r: Self)
        ensures
            r == (Options { timeout_ticks: val, ..self }),
    {
        Options { timeout_ticks: val, ..self }
    }

    pub fn connection_serial_number(self, val: u16) -> (r: Self)
        ensures
            r == (Options { connection_serial_number: val, ..self }),
    {
        Options { connection_serial_number: val, ..self }
    }

    pub fn originator_vendor_id(self, val: u16) -> (r: Self)
        ensures
            r == (Options { vendor_id: val, ..self }),
    {
        Options { vendor_id: val, ..self }
    }

    pub fn originator_serial_number(self, val: u32) -> (r: Self)
        ensures
            r == (Options { originator_serial_number: val, ..self }),
    {
        Options { originator_serial_number: val, ..self }
    }

    pub fn o_t_rpi(self, val: u32) -> (r: Self)
        ensures
            r == (Options { o_t_rpi: val, ..self }),
    {
        Options { o_t_rpi: val, ..self }
    }

    pub fn t_o_rpi(self, val: u32) -> (r: Self)
        ensures
            r == (Options { t_o_rpi: val, ..self }),
    {
        Options { t_o_rpi: val, ..self }
    }

    pub fn timeout_multiplier(self, val: u8) -> (r: Self)
        ensures
            r == (Options { timeout_multiplier: val, ..self }),
    {
        Options { timeout_multiplier: val, ..self }
    }

    pub fn connection_size(self, val: u16) -> (r: Self)
        ensures
            r == (Options { connection_size: val, ..self }),
    {
        Options { connection_size: val, ..self }
    }

    pub fn connection_path(self, path: EPath) -> (r: Self)
        ensures
            r == (Options { connection_path: path, ..self }),
    {
        Options { connection_path: path, ..self }
    }

    pub fn o_t_priority(self, val: Priority) -> (r: Self)
        ensures
            r == (Options { o_t_priority: val, ..self }),
    {
        Options { o_t_priority: val, ..self }
    }

    pub fn t_o_priority(self, val: Priority) -> (r: Self)
        ensures
            r == (Options { t_o_priority: val, ..self }),
    {
        Options { t_o_priority: val, ..self }
    }

    pub fn o_t_variable_length(self, val: VariableLength) -> (r: Self)
        ensures
            r == (Options { o_t_variable_length: val, ..self }),
    {
        Options { o_t_variable_length: val, ..self }
    }

    pub fn t_o_variable_length(self, val: VariableLength) -> (r: Self)
        ensures
            r == (Options { t_o_variable_length: val, ..self }),
    {
        Options { t_o_variable_length: val, ..self }
    }

    pub fn transport_direction(self, val: Direction) -> (r: Self)
        ensures
            r == (Options { transport_direction: val, ..self }),
    {
        Options { transport_direction: val, ..self }
    }

    pub fn transport_class(self, val: TransportClass) -> (r: Self)
        ensures
            r == (Options { transport_class: val, ..self }),
    {
        Options { transport_class: val, ..self }
    }

    pub fn transport_trigger(self, val: TriggerType) -> (r: Self)
        ensures
            r == (Options { transport_trigger: val, ..self }),
    {
        Options { transport_trigger: val, ..self }
    }

    pub fn large_open(self, val: bool) -> (r: Self)
        ensures
            r == (Options { large_open: val, ..self }),
    {
        Options { large_open: val, ..self }
    }

    /// Network parameters of the originator to target direction.
    pub open spec fn spec_o_t_params(&self) -> NetworkParameters {
        NetworkParameters {
            redundant_owner: false,
            connection_type: self.o_t_connection_type,
            variable_length: self.o_t_variable_length,
            priority: self.o_t_priority,
            connection_size: self.connection_size,
        }
    }

    /// Network parameters of the target to originator direction.
    pub open spec fn spec_t_o_params(&self) -> NetworkParameters {
        NetworkParameters {
            redundant_owner: false,
            connection_type: self.t_o_connection_type,
            variable_length: self.t_o_variable_length,
            priority: self.t_o_priority,
            connection_size: self.connection_size,
        }
    }
}

/// The default options: tick time 3, timeout ticks 0xFA, a connection
/// serial number in 1..0xFFFF, vendor 0xFF, originator serial 0xFFFFFFFF,
/// RPIs of 0x4240, multiplier 3, size 504, path to the backplane slot 0 and
/// the message router (class 2, instance 1), high priority, fixed size,
/// point to point, server, class 3, application trigger, no large open.
pub open spec fn is_default_options(r: Options) -> bool {
    &&& r.priority_time_ticks == 0x03
    &&& r.timeout_ticks == 0xFA
    &&& 1 <= r.connection_serial_number < 0xFFFF
    &&& r.vendor_id == 0xFF
    &&& r.originator_serial_number == 0xFFFF_FFFF
    &&& r.o_t_rpi == 0x4240
    &&& r.t_o_rpi == 0x4240
    &&& r.timeout_multiplier == 3
    &&& r.connection_size == 504
    &&& r.connection_path@.len() == 3
    &&& r.connection_path@[0] matches Segment::Port(p) && p.port == 1 && bytes_view(p.link)
        == seq![0u8]
    &&& r.connection_path@[1] == Segment::Class(2)
    &&& r.connection_path@[2] == Segment::Instance(1)
    &&& r.o_t_priority == Priority::High
    &&& r.t_o_priority == Priority::High
    &&& r.o_t_variable_length == VariableLength::Fixed
    &&& r.t_o_variable_length == VariableLength::Fixed
    &&& r.o_t_connection_type == ConnectionType::P2P
    &&& r.t_o_connection_type == ConnectionType::P2P
    &&& r.transport_direction == Direction::Server
    &&& r.transport_class == TransportClass::Class3
    &&& r.transport_trigger == TriggerType::Application
    &&& !r.large_open
}

impl Default for Options {
    /// The default options, with a random connection serial number.
    fn default() -> (r: Self)
        ensures
            is_default_options(r),
    {
        let connection_serial_number = random_serial_number();
        let mut segments: Vec<Segment> = Vec::new();
        segments.push(Segment::Port(PortSegment::default()));
        segments.push(Segment::Class(2));
        segments.push(Segment::Instance(1));
        Options {
            priority_time_ticks: 0x03,
            timeout_ticks: 0xfa,
            connection_serial_number,
            vendor_id: 0xFF,
            originator_serial_number: 0xFFFFFFFF,
            o_t_rpi: 0x4240,
            t_o_rpi: 0x4240,
            timeout_multiplier: 3,
            connection_size: 504,
            connection_path: EPath(segments),
            o_t_priority: Priority::High,
            t_o_priority: Priority::High,
            o_t_variable_length: VariableLength::Fixed,
            t_o_variable_length: VariableLength::Fixed,
            o_t_connection_type: ConnectionType::P2P,
            t_o_connection_type: ConnectionType::P2P,
            transport_direction: Direction::Server,
            transport_class: TransportClass::Class3,
            transport_trigger: TriggerType::Application,
            large_open: false,
        }
    }
}

/// State of an open (or closed) CIP connection.
#[derive(Debug)]
pub struct Connection {
    /// sequence number of the last connected send
    pub sequence_number: u16,
    pub connection_serial_number: u16,
    pub originator_serial_number: u32,
    pub originator_vendor_id: u16,
    pub connection_path: EPath,
    /// originator to target connection id; `None` once closed
    pub o_t_connection_id: Option<u32>,
}

/// EPATH of the connection manager: class 6, instance 1.
pub open spec fn is_connection_manager(p: EPath) -> bool {
    p@ == seq![Segment::Class(6), Segment::Instance(1)]
}

/// The sequence number that follows `n`: one more, and 1 after `u16::MAX`
/// (0 is never used).
pub open spec fn next_sequence_number(n: u16) -> u16 {
    if n == u16::MAX {
        1
    } else {
        (n + 1) as u16
    }
}

/// Sequence numbers of connected sends count up by one from the last, wrap
/// from 0xFFFF to 1, and are never 0.
pub proof fn lemma_sequence_number_never_zero(n: u16)
    ensures
        next_sequence_number(n) != 0,
        n < u16::MAX ==> next_sequence_number(n) == n + 1,
        n == u16::MAX ==> next_sequence_number(n) == 1,
{
}

/// The sequence number of the `k`-th connected send of a new connection
/// (whose last sequence number is 0).
pub open spec fn sequence_after(k: nat) -> u16
    decreases k,
{
    if k == 0 {
        0
    } else {
        next_sequence_number(sequence_after((k - 1) as nat))
    }
}

/// The connected sends of a new connection use the sequence numbers 1, 2,
/// ..., 65535, 1, 2, ... in turn: the `k`-th uses `(k - 1) % 65535 + 1`,
/// never 0.
pub proof fn lemma_sequence_numbers(k: nat)
    requires
        k >= 1,
    ensures
        sequence_after(k) == ((k - 1) % 65535 + 1) as u16,
        sequence_after(k) != 0,
    decreases k,
{
    if k == 1 {
        assert(sequence_after(0) == 0);
        assert(sequence_after(1) == next_sequence_number(0));
    } else {
        lemma_sequence_numbers((k - 1) as nat);
        let p = (k - 2) as int;
        let prev = sequence_after((k - 1) as nat);
        assert(sequence_after(k) == next_sequence_number(prev));
        assert(0 <= p % 65535 < 65535);
        assert(prev as int == p % 65535 + 1);
        if p % 65535 == 65534 {
            assert((p + 1) % 65535 == 0);
            assert(prev == u16::MAX);
        } else {
            assert((p + 1) % 65535 == p % 65535 + 1);
            assert(prev < u16::MAX);
        }
    }
}

fn connection_manager() -> (p: EPath)
    ensures
        is_connection_manager(p),
{
    let p = EPath::new().with_class(6).with_instance(1);
    assert(p@ =~= seq![Segment::Class(6), Segment::Instance(1)]);
    p
}

impl Connection {
    /// Options with their defaults.
    pub fn options() -> (r: Options)
        ensures
            is_default_options(r),
    {
        Options::default()
    }

    /// The request that opens the connection: Forward Open, or Large
    /// Forward Open where the options ask for it, to the connection
    /// manager, with both connection ids 0 and the options' values.
    pub fn open_request(options: &Options) -> (mr: MessageRouterRequest<EPath, ConnectionParameters>)
        ensures
            mr.service_code == (if options.large_open {
                SERVICE_LARGE_FORWARD_OPEN
            } else {
                SERVICE_FORWARD_OPEN
            }),
            is_connection_manager(mr.path),
            mr.data.large == options.large_open,
            mr.data.priority_time_ticks == options.priority_time_ticks,
            mr.data.timeout_ticks == options.timeout_ticks,
            mr.data.o_t_connection_id == 0,
            mr.data.t_o_connection_id == 0,
            mr.data.connection_serial_number == options.connection_serial_number,
            mr.data.vendor_id == options.vendor_id,
            mr.data.originator_serial_number == options.originator_serial_number,
            mr.data.timeout_multiplier == options.timeout_multiplier,
            mr.data.o_t_rpi == options.o_t_rpi,
            mr.data.t_o_rpi == options.t_o_rpi,
            options.large_open ==> mr.data.o_t_connection_parameters
                == options.spec_o_t_params().spec_dword() && mr.data.t_o_connection_parameters
                == options.spec_t_o_params().spec_dword(),
            !options.large_open ==> mr.data.o_t_connection_parameters
                == options.spec_o_t_params().spec_word() && mr.data.t_o_connection_parameters
                == options.spec_t_o_params().spec_word(),
            mr.data.transport_class_trigger == spec_transport_byte(
                options.transport_direction,
                options.transport_trigger,
                options.transport_class,
            ),
            mr.data.connection_path.spec_bytes() == options.connection_path.spec_bytes(),
            mr.data.connection_path.wf() == options.connection_path.wf(),
    {
        let o_t = NetworkParameters {
            redundant_owner: false,
            connection_type: options.o_t_connection_type,
            variable_length: options.o_t_variable_length,
            priority: options.o_t_priority,
            connection_size: options.connection_size,
        };
        let t_o = NetworkParameters {
            redundant_owner: false,
            connection_type: options.t_o_connection_type,
            variable_length: options.t_o_variable_length,
            priority: options.t_o_priority,
            connection_size: options.connection_size,
        };
        let (service_code, o_t_params, t_o_params) = if options.large_open {
            (SERVICE_LARGE_FORWARD_OPEN, o_t.dword(), t_o.dword())
        } else {
            (SERVICE_FORWARD_OPEN, o_t.word() as u32, t_o.word() as u32)
        };
        let data = ConnectionParameters {
            large: options.large_open,
            priority_time_ticks: options.priority_time_ticks,
            timeout_ticks: options.timeout_ticks,
            o_t_connection_id: 0,
            t_o_connection_id: 0,
            connection_serial_number: options.connection_serial_number,
            vendor_id: options.vendor_id,
            originator_serial_number: options.originator_serial_number,
            timeout_multiplier: options.timeout_multiplier,
            o_t_rpi: options.o_t_rpi,
            o_t_connection_parameters: o_t_params,
            t_o_rpi: options.t_o_rpi,
            t_o_connection_parameters: t_o_params,
            transport_class_trigger: transport_byte(
                options.transport_direction,
                options.transport_trigger,
                options.transport_class,
            ),
            connection_path: options.connection_path.clone(),
        };
        MessageRouterRequest::new(service_code, connection_manager(), data)
    }

    /// The connection that a Forward Open reply establishes: on success the
    /// connection id and serial number come from the reply, the originator
    /// values and the path from the options, and no send has been made; a
    /// refusal is an error.
    pub fn new(options: Options, reply: ForwardOpenReply) -> (r: Result<Connection, Error>)
        ensures
            reply is Fail ==> r == Err::<Connection, Error>(Error::ForwardOpenFailed),
            reply matches ForwardOpenReply::Success { reply: s, .. } ==> (r matches Ok(c) && c
                == (Connection {
                sequence_number: 0,
                connection_serial_number: s.connection_serial_number,
                originator_serial_number: options.originator_serial_number,
                originator_vendor_id: options.vendor_id,
                connection_path: options.connection_path,
                o_t_connection_id: Some(s.o_t_connection_id),
            })),
    {
        match reply {
            ForwardOpenReply::Fail(_) => Err(Error::ForwardOpenFailed),
            ForwardOpenReply::Success { reply, .. } => Ok(
                Connection {
                    sequence_number: 0,
                    connection_serial_number: reply.connection_serial_number,
                    originator_serial_number: options.originator_serial_number,
                    originator_vendor_id: options.vendor_id,
                    connection_path: options.connection_path,
                    o_t_connection_id: Some(reply.o_t_connection_id),
                },
            ),
        }
    }

    /// What the next connected send goes out with: the connection id and
    /// the next sequence number, which the connection takes as its own. A
    /// closed connection is an error and stays as it was.
    pub fn next_send(&mut self) -> (r: Result<(u32, u16), Error>)
        ensures
            old(self).o_t_connection_id is None ==> r == Err::<(u32, u16), Error>(
                Error::ConnectionClosed,
            ) && *final(self) == *old(self),
            old(self).o_t_connection_id matches Some(id) ==> r == Ok::<(u32, u16), Error>(
                (id, next_sequence_number(old(self).sequence_number)),
            ) && *final(self) == (Connection {
                sequence_number: next_sequence_number(old(self).sequence_number),
                ..*old(self)
            }),
    {
        match self.o_t_connection_id {
            None => Err(Error::ConnectionClosed),
            Some(id) => {
                self.sequence_number = if self.sequence_number == u16::MAX {
                    1
                } else {
                    self.sequence_number + 1
                };
                Ok((id, self.sequence_number))
            },
        }
    }

    /// The Forward Close request of an open connection (tick time 3,
    /// timeout ticks 0xFA, the connection's serial numbers, vendor and
    /// path); none for a closed one.
    pub fn close_request(&self) -> (r: Option<MessageRouterRequest<EPath, ForwardCloseRequest>>)
        ensures
            self.o_t_connection_id is None ==> r is None,
            self.o_t_connection_id is Some ==> (r matches Some(mr) && mr.service_code
                == SERVICE_FORWARD_CLOSE && is_connection_manager(mr.path)
                && mr.data.priority_time_ticks == 0x03 && mr.data.timeout_ticks == 0xFA
                && mr.data.connection_serial_number == self.connection_serial_number
                && mr.data.originator_vendor_id == self.originator_vendor_id
                && mr.data.originator_serial_number == self.originator_serial_number
                && mr.data.connection_path.spec_bytes() == self.connection_path.spec_bytes()
                && mr.data.connection_path.wf() == self.connection_path.wf()),
    {
        if self.o_t_connection_id.is_none() {
            return None;
        }
        let request = ForwardCloseRequest {
            priority_time_ticks: 0x03,
            timeout_ticks: 0xfa,
            connection_serial_number: self.connection_serial_number,
            originator_vendor_id: self.originator_vendor_id,
            originator_serial_number: self.originator_serial_number,
            connection_path: self.connection_path.clone(),
        };
        Some(MessageRouterRequest::new(SERVICE_FORWARD_CLOSE, connection_manager(), request))
    }

    /// Takes the Forward Close reply: success closes the connection, a
    /// refusal is an error and leaves it open.
    pub fn close(&mut self, reply: ForwardCloseReply) -> (r: Result<(), Error>)
        ensures
            reply is Fail ==> r == Err::<(), Error>(Error::ForwardCloseFailed) && *final(self)
                == *old(self),
            reply is Success ==> r is Ok && *final(self) == (Connection {
                o_t_connection_id: None,
                ..*old(self)
            }),
    {
        match reply {
            ForwardCloseReply::Fail(_) => Err(Error::ForwardCloseFailed),
            ForwardCloseReply::Success(_) => {
                self.o_t_connection_id = None;
                Ok(())
            },
        }
    }

    /// Is the CIP connection closed?
    pub fn is_closed(&self) -> (b: bool)
        ensures
            b == self.o_t_connection_id is None,
    {
        self.o_t_connection_id.is_none()
    }
}

} // verus!
