//! Device discovery: ListIdentity requests broadcast a number of times (or
//! forever) at an interval, and the identities that replies carry.

use crate::buf::bytes_view;
use crate::cip::identity::{identity_is, identity_shape_ok, IdentityObject};
use crate::consts::{EIP_COMMAND_LIST_IDENTITY, EIP_DEFAULT_PORT};
use crate::eip::common_packet::{spec_decode_cpf, CommonPacket};
use crate::eip::encapsulation::EncapsulationPacket;
use crate::eip::reply::identity_item_ok;
use crate::error::{EipError, Error};
use bytes::Bytes;
use vstd::prelude::*;
use vstd::utf8::valid_utf8;

verus! {

/// One request taken from the number still to send: forever, none left, or
/// one less left.
pub open spec fn take_request(times: Option<usize>) -> (bool, Option<usize>) {
    match times {
        None => (true, None),
        Some(n) => if n == 0 {
            (false, Some(0usize))
        } else {
            (true, Some((n - 1) as usize))
        },
    }
}

/// The number still to send after `k` requests were asked for.
pub open spec fn after_requests(times: Option<usize>, k: nat) -> Option<usize>
    decreases k,
{
    if k == 0 {
        times
    } else {
        take_request(after_requests(times, (k - 1) as nat)).1
    }
}

/// `repeat(n)` sends exactly `n` requests: the first `n` asked for are
/// granted and the next one is refused, as is every one after it; `forever`
/// grants every one.
pub proof fn lemma_repeat_sends(n: usize, k: nat)
    ensures
        k <= n ==> after_requests(Some(n), k) == Some((n - k) as usize),
        k < n ==> take_request(after_requests(Some(n), k)).0,
        k >= n ==> after_requests(Some(n), k) == Some(0usize) && !take_request(
            after_requests(Some(n), k),
        ).0,
        after_requests(None, k) is None && take_request(after_requests(None, k)).0,
    decreases k,
{
    if k > 0 {
        lemma_repeat_sends(n, (k - 1) as nat);
    }
}

/// Settings of a device discovery.
#[derive(Debug)]
pub struct EipDiscovery {
    /// IPv4 address to listen on (any port)
    pub listen_ip: [u8; 4],
    /// IPv4 address and port the requests are broadcast to
    pub broadcast_ip: [u8; 4],
    pub broadcast_port: u16,
    /// number of requests still to send; `None`: send forever
    pub times: Option<usize>,
    /// interval between requests: seconds and nanoseconds
    pub interval_secs: u64,
    pub interval_nanos: u32,
}

impl EipDiscovery {
    /// Listen on `listen_ip`, broadcast to 255.255.255.255 on the
    /// EtherNet/IP port, one request, an interval of 3 seconds.
    pub fn new(listen_ip: [u8; 4]) -> (r: Self)
        ensures
            r.listen_ip == listen_ip,
            r.broadcast_ip@ == seq![255u8, 255u8, 255u8, 255u8],
            r.broadcast_port == EIP_DEFAULT_PORT,
            r.times == Some(1usize),
            r.interval_secs == 3,
            r.interval_nanos == 0,
    {
        EipDiscovery {
            listen_ip,
            broadcast_ip: [255, 255, 255, 255],
            broadcast_port: EIP_DEFAULT_PORT,
            times: Some(1),
            interval_secs: 3,
            interval_nanos: 0,
        }
    }

    /// Broadcast to `ip` on the EtherNet/IP port.
    pub fn broadcast(self, ip: [u8; 4]) -> (r: Self)
        ensures
            r == (EipDiscovery { broadcast_ip: ip, broadcast_port: EIP_DEFAULT_PORT, ..self }),
    {
        EipDiscovery { broadcast_ip: ip, broadcast_port: EIP_DEFAULT_PORT, ..self }
    }

    /// Broadcast to `ip` on `port`.
    pub fn broadcast_with_port(self, ip: [u8; 4], port: u16) -> (r: Self)
        ensures
            r == (EipDiscovery { broadcast_ip: ip, broadcast_port: port, ..self }),
    {
        EipDiscovery { broadcast_ip: ip, broadcast_port: port, ..self }
    }

    /// Send `times` requests.
    pub fn repeat(self, times: usize) -> (r: Self)
        ensures
            r == (EipDiscovery { times: Some(times), ..self }),
    {
        EipDiscovery { times: Some(times), ..self }
    }

    /// Send requests forever.
    pub fn forever(self) -> (r: Self)
        ensures
            r == (EipDiscovery { times: None, ..self }),
    {
        EipDiscovery { times: None, ..self }
    }

    /// Interval between requests.
    pub fn interval(self, secs: u64, nanos: u32) -> (r: Self)
        requires
            nanos < 1_000_000_000,
        ensures
            r == (EipDiscovery { interval_secs: secs, interval_nanos: nanos, ..self }),
    {
        EipDiscovery { interval_secs: secs, interval_nanos: nanos, ..self }
    }

    /// Whether another request is to be sent; counts it where the number
    /// of requests is limited.
    pub fn next_request(&mut self) -> (b: bool)
        ensures
            (b, final(self).times) == take_request(old(self).times),
            *final(self) == (EipDiscovery { times: final(self).times, ..*old(self) }),
    {
        match self.times {
            None => true,
            Some(0) => false,
            Some(n) => {
                self.times = Some(n - 1);
                true
            },
        }
    }
}

/// The identity in the data of a ListIdentity reply: the first item of its
/// common packet, which must be an identity item; none where the packet
/// has no item.
pub fn decode_identity(data: &Bytes) -> (r: Result<Option<IdentityObject>, Error>)
    ensures
        match spec_decode_cpf(bytes_view(*data)) {
            None => r == Err::<Option<IdentityObject>, Error>(Error::Eip(EipError::InvalidData)),
            Some(items) => if items.len() == 0 {
                r == Ok::<Option<IdentityObject>, Error>(None)
            } else if items[0].0 != 0x0C || !identity_shape_ok(items[0].1) {
                r == Err::<Option<IdentityObject>, Error>(Error::Eip(EipError::InvalidData))
            } else if !valid_utf8(items[0].1.subrange(33, 33 + items[0].1[32])) {
                r == Err::<Option<IdentityObject>, Error>(Error::InvalidUtf8)
            } else {
                r matches Ok(Some(id)) && identity_is(items[0].1, id)
            },
        },
{
    let cpf = CommonPacket::decode(data)?;
    let items = cpf.into_vec();
    if items.len() == 0 {
        return Ok(None);
    }
    let item = &items[0];
    item.ensure_type_code(0x0C)?;
    let identity = IdentityObject::decode(&item.data)?;
    Ok(Some(identity))
}

/// The identity that a packet received during discovery reports: replies
/// to other commands, and replies that do not decode, report none.
pub fn discovery_reply(pkt: &EncapsulationPacket<Bytes>) -> (r: Option<IdentityObject>)
    ensures
        pkt.hdr.command != EIP_COMMAND_LIST_IDENTITY ==> r is None,
        pkt.hdr.command == EIP_COMMAND_LIST_IDENTITY ==> match spec_decode_cpf(bytes_view(pkt.data)) {
            Some(items) if items.len() > 0 && identity_item_ok(items[0]) => r matches Some(id)
                && identity_is(items[0].1, id),
            _ => r is None,
        },
{
    if pkt.hdr.command != EIP_COMMAND_LIST_IDENTITY {
        return None;
    }
    match decode_identity(&pkt.data) {
        Ok(Some(v)) => Some(v),
        _ => None,
    }
}

} // verus!
