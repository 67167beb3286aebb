//! Socket address items of the common packet format.

use crate::buf::{be16, be32, be_read_u16, be_read_u32, bytes_mut_view, put_slice, put_u16_be, put_u32_be, read_be16, read_be32};
use crate::codec::Encodable;
use crate::error::Error;
use bytes::BytesMut;
use vstd::prelude::*;

verus! {

pub const AF_INET: i16 = 2;

/// Socket address (sockaddr_in), every field big-endian on the wire.
#[derive(Debug, Clone, PartialEq, Eq, Default)]
pub struct SocketAddr {
    /// big-endian, shall be AF_INET=2
    pub sin_family: i16,
    /// big-endian
    pub sin_port: u16,
    /// big-endian
    pub sin_addr: u32,
    ///big-endian, shall be 0
    pub sin_zero: [u8; 8],
}

/// Direction of a socket address item.
#[derive(Debug, Clone, Copy, PartialEq, Eq)]
pub enum SocketType {
    /// type id = 0x8000
    ToTarget,
    /// type id = 0x8001
    ToOriginator,
}

impl SocketType {
    /// CIP type id
    pub fn type_id(&self) -> (id: u16)
        ensures
            id == (if *self is ToTarget { 0x8000u16 } else { 0x8001u16 }),
    {
        match self {
            SocketType::ToTarget => 0x8000,
            SocketType::ToOriginator => 0x8001,
        }
    }
}

/// The 16 bytes of an encoded socket address.
pub open spec fn socket_addr_bytes(a: SocketAddr) -> Seq<u8> {
    be16(a.sin_family as u16) + be16(a.sin_port) + be32(a.sin_addr) + a.sin_zero@
}

/// `a` is the socket address that the 16 bytes at `at` of `s` encode.
pub open spec fn socket_addr_at(s: Seq<u8>, at: int, a: SocketAddr) -> bool {
    &&& a.sin_family as u16 == read_be16(s, at)
    &&& a.sin_port == read_be16(s, at + 2)
    &&& a.sin_addr == read_be32(s, at + 4)
    &&& a.sin_zero@ == s.subrange(at + 8, at + 16)
}

/// Encoding a socket address and reading it back gives that address: the
/// 16 bytes written hold its fields, and no other address reads from them.
pub proof fn lemma_socket_addr_roundtrip(a: SocketAddr, b: SocketAddr)
    ensures
        socket_addr_bytes(a).len() == 16,
        socket_addr_at(socket_addr_bytes(a), 0, a),
        socket_addr_at(socket_addr_bytes(a), 0, b) ==> b == a,
{
    let s = socket_addr_bytes(a);
    let f = a.sin_family as u16;
    assert(s.subrange(8, 16) =~= a.sin_zero@);
    assert(read_be16(s, 0) == f) by {
        assert(s[0] == (f / 256) as u8 && s[1] == (f % 256) as u8);
    }
    assert(read_be16(s, 2) == a.sin_port) by {
        assert(s[2] == (a.sin_port / 256) as u8 && s[3] == (a.sin_port % 256) as u8);
    }
    assert(read_be32(s, 4) == a.sin_addr) by {
        assert(s[4] == be32(a.sin_addr)[0] && s[5] == be32(a.sin_addr)[1]);
        assert(s[6] == be32(a.sin_addr)[2] && s[7] == be32(a.sin_addr)[3]);
    }
    if socket_addr_at(s, 0, b) {
        let bf = b.sin_family;
        let af = a.sin_family;
        assert(bf as u16 == af as u16 ==> bf == af) by (bit_vector);
        assert(b.sin_zero@ =~= a.sin_zero@);
        assert(b.sin_zero == a.sin_zero);
    }
}

impl SocketAddr {
    /// Decodes a socket address from 16 bytes at `at` of `s`.
    pub fn decode(s: &[u8], at: usize) -> (a: SocketAddr)
        requires
            at + 16 <= s@.len(),
        ensures
            socket_addr_at(s@, at as int, a),
    {
        let _n = s.len();
        let family = be_read_u16(s, at);
        assert((family as i16) as u16 == family) by (bit_vector);
        let a = SocketAddr {
            sin_family: family as i16,
            sin_port: be_read_u16(s, at + 2),
            sin_addr: be_read_u32(s, at + 4),
            sin_zero: [
                s[at + 8],
                s[at + 9],
                s[at + 10],
                s[at + 11],
                s[at + 12],
                s[at + 13],
                s[at + 14],
                s[at + 15],
            ],
        };
        assert(a.sin_zero@ =~= s@.subrange(at + 8, at + 16));
        a
    }
}

impl Encodable for SocketAddr {
    open spec fn encodable(&self) -> bool {
        true
    }

    open spec fn encoding(&self) -> Seq<u8> {
        socket_addr_bytes(*self)
    }

    fn encode(self, dst: &mut BytesMut) -> (r: Result<(), Error>) {
        let ghost start = bytes_mut_view(*dst);
        put_u16_be(dst, self.sin_family as u16);
        put_u16_be(dst, self.sin_port);
        put_u32_be(dst, self.sin_addr);
        put_slice(dst, self.sin_zero.as_slice());
        assert(bytes_mut_view(*dst) =~= start + socket_addr_bytes(self));
        Ok(())
    }

    fn bytes_count(&self) -> (n: usize) {
        16
    }
}

} // verus!
