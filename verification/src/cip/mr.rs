//! Message router requests and replies, and the CIP status.

use crate::buf::{
    bytes_as_slice, bytes_len, bytes_mut_view, bytes_slice, bytes_view, empty_bytes, le_read_u16,
    put_u8, read_le16,
};
use crate::codec::Encodable;
use crate::error::{EipError, Error};
use bytes::{Bytes, BytesMut};
use vstd::prelude::*;

verus! {

/// General and extended status of a reply.
#[derive(Debug, Clone, Copy, PartialEq, Eq, Default)]
pub struct Status {
    pub general: u8,
    pub extended: u16,
}

/// The routing errors of Unconnected Send and Forward Open (CIP table
/// 3-5.33): their replies carry a remaining path size.
pub open spec fn spec_is_routing_error(s: Status) -> bool {
    ||| (s.general == 0x01 && (s.extended == 0x0204 || s.extended == 0x0311 || s.extended == 0x0312
        || s.extended == 0x0315))
    ||| s.general == 0x02
    ||| s.general == 0x04
}

impl Status {
    /// success?
    pub fn is_ok(&self) -> (b: bool)
        ensures
            b == (self.general == 0),
    {
        self.general == 0
    }

    /// failure?
    pub fn is_err(&self) -> (b: bool)
        ensures
            b == (self.general != 0),
    {
        self.general != 0
    }

    /// routing error of Unconnected Send or Forward Open?
    pub fn is_routing_error(&self) -> (b: bool)
        ensures
            b == spec_is_routing_error(*self),
    {
        match self.general {
            0x01 => self.extended == 0x0204 || self.extended == 0x0311 || self.extended == 0x0312
                || self.extended == 0x0315,
            0x02 | 0x04 => true,
            _ => false,
        }
    }
}

/// A status or reply that can report more data to come.
pub trait HasMore {
    /// More data to retrieve?
    spec fn more(&self) -> bool;

    /// true: has more data to retrieve
    fn has_more(&self) -> (b: bool)
        ensures
            b == self.more(),
    ;
}

impl HasMore for Status {
    /// General status 0x06: partial transfer.
    open spec fn more(&self) -> bool {
        self.general == 0x06
    }

    fn has_more(&self) -> (b: bool) {
        self.general == 0x06
    }
}

/// Message router request: service code, request path, request data.
#[derive(Debug)]
pub struct MessageRouterRequest<P, D> {
    pub service_code: u8,
    pub path: P,
    pub data: D,
}

impl<P, D> MessageRouterRequest<P, D> {
    pub fn new(service_code: u8, path: P, data: D) -> (r: Self)
        ensures
            r.service_code == service_code,
            r.path == path,
            r.data == data,
    {
        MessageRouterRequest { service_code, path, data }
    }
}

/// Service code, path size in 16-bit words, path, data.
pub open spec fn mr_request_bytes(service_code: u8, path: Seq<u8>, data: Seq<u8>) -> Seq<u8> {
    seq![service_code, (path.len() / 2) as u8] + path + data
}

impl<P: Encodable, D: Encodable> Encodable for MessageRouterRequest<P, D> {
    /// The path has an even length of at most 255 bytes.
    open spec fn encodable(&self) -> bool {
        &&& self.path.encodable()
        &&& self.data.encodable()
        &&& self.path.encoding().len() <= 255
        &&& self.path.encoding().len() % 2 == 0
        &&& 2 + self.path.encoding().len() + self.data.encoding().len() <= usize::MAX
    }

    open spec fn encoding(&self) -> Seq<u8> {
        mr_request_bytes(self.service_code, self.path.encoding(), self.data.encoding())
    }

    fn encode(self, dst: &mut BytesMut) -> (r: Result<(), Error>) {
        let ghost start = bytes_mut_view(*dst);
        let ghost pe = self.path.encoding();
        let ghost de = self.data.encoding();
        put_u8(dst, self.service_code);
        let path_len = self.path.bytes_count();
        put_u8(dst, (path_len / 2) as u8);
        let r1 = self.path.encode(dst);
        let r2 = self.data.encode(dst);
        assert(bytes_mut_view(*dst) =~= start + mr_request_bytes(self.service_code, pe, de));
        match (r1, r2) {
            (Ok(()), Ok(())) => Ok(()),
            (Err(e), _) => Err(e),
            (_, Err(e)) => Err(e),
        }
    }

    fn bytes_count(&self) -> (n: usize) {
        2 + self.path.bytes_count() + self.data.bytes_count()
    }
}

/// Message router reply.
#[derive(Debug)]
pub struct MessageRouterReply<D> {
    /// reply service code: the request's service code with bit 7 set
    pub reply_service: u8,
    pub status: Status,
    /// remaining path size, given with routing errors
    pub remaining_path_size: Option<u8>,
    pub data: D,
}

impl<D> MessageRouterReply<D> {
    pub fn new(reply_service: u8, status: Status, data: D) -> (r: Self)
        ensures
            r.reply_service == reply_service,
            r.status == status,
            r.remaining_path_size is None,
            r.data == data,
    {
        MessageRouterReply { reply_service, status, remaining_path_size: None, data }
    }
}

impl<D> HasMore for MessageRouterReply<D> {
    /// Its status reports a partial transfer.
    open spec fn more(&self) -> bool {
        self.status.general == 0x06
    }

    fn has_more(&self) -> (b: bool) {
        self.status.general == 0x06
    }
}

/// A decoded reply, with its data as plain bytes.
pub struct ReplyView {
    pub reply_service: u8,
    pub status: Status,
    pub remaining_path_size: Option<u8>,
    pub data: Seq<u8>,
}

/// Decoding a message router reply: service, reserved byte, general
/// status, size of the extended status in bytes (0, 1 or 2 accepted),
/// the extended status, then either the remaining path size (exactly one
/// byte, for routing errors) or the reply data.
pub open spec fn spec_decode_mr_reply(s: Seq<u8>) -> Option<ReplyView> {
    if s.len() < 4 {
        None
    } else {
        let ext_size = s[3] as int;
        if s.len() < 4 + ext_size || ext_size > 2 {
            None
        } else {
            let extended: u16 = if ext_size == 0 {
                0
            } else if ext_size == 1 {
                s[4] as u16
            } else {
                read_le16(s, 4)
            };
            let status = Status { general: s[2], extended };
            let pos = 4 + ext_size;
            if spec_is_routing_error(status) {
                if s.len() != pos + 1 {
                    None
                } else {
                    Some(
                        ReplyView {
                            reply_service: s[0],
                            status,
                            remaining_path_size: Some(s[pos]),
                            data: Seq::empty(),
                        },
                    )
                }
            } else {
                Some(
                    ReplyView {
                        reply_service: s[0],
                        status,
                        remaining_path_size: None,
                        data: s.skip(pos),
                    },
                )
            }
        }
    }
}

/// The reply that `v` describes.
pub open spec fn reply_is(r: MessageRouterReply<Bytes>, v: ReplyView) -> bool {
    &&& r.reply_service == v.reply_service
    &&& r.status == v.status
    &&& r.remaining_path_size == v.remaining_path_size
    &&& bytes_view(r.data) == v.data
}

impl MessageRouterReply<Bytes> {
    /// Decodes a message router reply.
    pub fn decode(buf: &Bytes) -> (r: Result<MessageRouterReply<Bytes>, Error>)
        ensures
            match spec_decode_mr_reply(bytes_view(*buf)) {
                Some(v) => r matches Ok(reply) && reply_is(reply, v),
                None => r == Err::<MessageRouterReply<Bytes>, Error>(Error::Eip(EipError::InvalidData)),
            },
    {
        let s = bytes_as_slice(buf);
        let len = s.len();
        if len < 4 {
            return Err(Error::Eip(EipError::InvalidData));
        }
        let reply_service = s[0];
        let general_status = s[2];
        let extended_status_size = s[3];
        if len < 4 + extended_status_size as usize {
            return Err(Error::Eip(EipError::InvalidData));
        }
        let extended_status: u16 = match extended_status_size {
            0 => 0,
            1 => s[4] as u16,
            2 => le_read_u16(s, 4),
            _ => return Err(Error::Eip(EipError::InvalidData)),
        };
        let status = Status { general: general_status, extended: extended_status };
        let pos = 4 + extended_status_size as usize;
        if status.is_routing_error() {
            if len != pos + 1 {
                return Err(Error::Eip(EipError::InvalidData));
            }
            Ok(MessageRouterReply {
                reply_service,
                status,
                remaining_path_size: Some(s[pos]),
                data: empty_bytes(),
            })
        } else {
            let data = bytes_slice(buf, pos, len);
            assert(bytes_view(data) =~= bytes_view(*buf).skip(pos as int));
            Ok(MessageRouterReply::new(reply_service, status, data))
        }
    }

    /// Fails with the reply's status when it reports an error.
    pub fn ensure_ok(&self) -> (r: Result<(), Error>)
        ensures
            r is Ok <==> self.status.general == 0,
            r matches Err(e) ==> e == (Error::Cip { general: self.status.general, extended: self.status.extended }),
    {
        if self.status.is_err() {
            Err(Error::Cip { general: self.status.general, extended: self.status.extended })
        } else {
            Ok(())
        }
    }

    /// Fails with the reply's status when it reports an error other than
    /// "partial transfer, more data to come" (0x06).
    pub fn ensure_ok_or_more(&self) -> (r: Result<(), Error>)
        ensures
            r is Ok <==> (self.status.general == 0 || self.status.general == 0x06),
            r matches Err(e) ==> e == (Error::Cip { general: self.status.general, extended: self.status.extended }),
    {
        if self.status.is_err() && !self.status.has_more() {
            Err(Error::Cip { general: self.status.general, extended: self.status.extended })
        } else {
            Ok(())
        }
    }

    /// Checks that the reply answers the given service: its reply service
    /// code must be `expected`.
    pub fn expect_service(&self, expected: u8) -> (r: Result<(), Error>)
        ensures
            r is Ok <==> self.reply_service == expected,
            r matches Err(e) ==> e == Error::UnexpectedService(self.reply_service),
    {
        if self.reply_service != expected {
            Err(Error::UnexpectedService(self.reply_service))
        } else {
            Ok(())
        }
    }
}

} // verus!
