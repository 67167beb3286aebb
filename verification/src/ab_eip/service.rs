//! Tag services of AB controllers: the requests they send and what they
//! take from the replies.

use crate::buf::{bytes_as_slice, bytes_len, bytes_mut_view, bytes_slice, bytes_view, le16, le_read_u16, put_slice, put_u16_le, read_le16};
use crate::cip::epath::EPath;
use crate::cip::mr::{MessageRouterReply, MessageRouterRequest};
use crate::codec::Encodable;
use crate::error::Error;
use bytes::{Bytes, BytesMut};
use crate::cip::mr::HasMore;
use vstd::prelude::*;

verus! {

pub const CLASS_SYMBOL: u16 = 0x6B;
pub const CLASS_TEMPLATE: u16 = 0x6C;

pub const SERVICE_READ_TAG: u8 = 0x4C;
pub const SERVICE_WRITE_TAG: u8 = 0x4D;
pub const SERVICE_READ_TAG_FRAGMENTED: u8 = 0x52;
pub const SERVICE_WRITE_TAG_FRAGMENTED: u8 = 0x53;
pub const SERVICE_READ_MODIFY_WRITE_TAG: u8 = 0x4E;
pub const SERVICE_TEMPLATE_READ: u8 = 0x4C;
pub const SERVICE_GET_INSTANCE_ATTRIBUTE_LIST: u8 = 0x55;

/// bit 7 of a reply service code
pub const REPLY_MASK: u8 = 0x80;

/// Read Tag request: tag and element count.
pub struct TagRequest {
    pub tag: EPath,
    pub count: u16,
}

impl From<EPath> for TagRequest {
    /// one element
    fn from(tag: EPath) -> (r: TagRequest) {
        TagRequest { tag, count: 1 }
    }
}

impl vstd::std_specs::convert::FromSpecImpl<EPath> for TagRequest {
    open spec fn obeys_from_spec() -> bool {
        true
    }

    open spec fn from_spec(tag: EPath) -> TagRequest {
        TagRequest { tag, count: 1 }
    }
}

impl From<(EPath, u16)> for TagRequest {
    fn from(src: (EPath, u16)) -> (r: TagRequest) {
        TagRequest { tag: src.0, count: src.1 }
    }
}

impl vstd::std_specs::convert::FromSpecImpl<(EPath, u16)> for TagRequest {
    open spec fn obeys_from_spec() -> bool {
        true
    }

    open spec fn from_spec(src: (EPath, u16)) -> TagRequest {
        TagRequest { tag: src.0, count: src.1 }
    }
}

/// Read Tag Service (CIP Data Table Read): the request.
pub fn read_tag_request(req: TagRequest) -> (mr: MessageRouterRequest<EPath, u16>)
    ensures
        mr.service_code == SERVICE_READ_TAG,
        mr.path == req.tag,
        mr.data == req.count,
{
    MessageRouterRequest::new(SERVICE_READ_TAG, req.tag, req.count)
}

/// Read Tag Service: the tag data of the reply; an error status fails,
/// so does another service.
pub fn read_tag_reply(resp: MessageRouterReply<Bytes>) -> (r: Result<Bytes, Error>)
    ensures
        resp.status.general != 0 ==> r == Err::<Bytes, Error>(
            Error::Cip { general: resp.status.general, extended: resp.status.extended },
        ),
        resp.status.general == 0 && resp.reply_service == SERVICE_READ_TAG + REPLY_MASK ==> r
            == Ok::<Bytes, Error>(resp.data),
        resp.status.general == 0 && resp.reply_service != SERVICE_READ_TAG + REPLY_MASK ==> r
            == Err::<Bytes, Error>(Error::UnexpectedService(resp.reply_service)),
{
    resp.ensure_ok()?;
    resp.expect_service(SERVICE_READ_TAG + REPLY_MASK)?;
    Ok(resp.data)
}

/// Write Tag Service (CIP Data Table Write): the request.
pub fn write_tag_request<D>(tag: EPath, value: D) -> (mr: MessageRouterRequest<EPath, D>)
    ensures
        mr.service_code == SERVICE_WRITE_TAG,
        mr.path == tag,
        mr.data == value,
{
    MessageRouterRequest::new(SERVICE_WRITE_TAG, tag, value)
}

/// Checks the reply of a service (Write Tag, Read Modify Write Tag): an
/// error status fails, so does another reply service code.
pub fn expect_reply(resp: &MessageRouterReply<Bytes>, service_code: u8) -> (r: Result<(), Error>)
    requires
        service_code < 0x80,
    ensures
        resp.status.general != 0 ==> r == Err::<(), Error>(
            Error::Cip { general: resp.status.general, extended: resp.status.extended },
        ),
        resp.status.general == 0 ==> (r is Ok <==> resp.reply_service == service_code + REPLY_MASK),
        resp.status.general == 0 ==> (r matches Err(e) ==> e == Error::UnexpectedService(
            resp.reply_service,
        )),
{
    resp.ensure_ok()?;
    resp.expect_service(service_code + REPLY_MASK)
}

/// Read Tag Fragmented request: tag, number of elements, byte offset.
pub struct ReadFragmentedRequest {
    pub tag: EPath,
    pub total: u16,
    pub offset: u16,
}

impl ReadFragmentedRequest {
    pub fn new(total: u16) -> (r: ReadFragmentedRequest)
        ensures
            r.tag@.len() == 0,
            r.total == total,
            r.offset == 0,
    {
        ReadFragmentedRequest { tag: EPath::new(), total, offset: 0 }
    }

    pub fn tag(self, val: EPath) -> (r: ReadFragmentedRequest)
        ensures
            r.tag == val,
            r.total == self.total,
            r.offset == self.offset,
    {
        ReadFragmentedRequest { tag: val, total: self.total, offset: self.offset }
    }

    pub fn total(self, val: u16) -> (r: ReadFragmentedRequest)
        ensures
            r.tag == self.tag,
            r.total == val,
            r.offset == self.offset,
    {
        ReadFragmentedRequest { tag: self.tag, total: val, offset: self.offset }
    }

    pub fn offset(self, val: u16) -> (r: ReadFragmentedRequest)
        ensures
            r.tag == self.tag,
            r.total == self.total,
            r.offset == val,
    {
        ReadFragmentedRequest { tag: self.tag, total: self.total, offset: val }
    }

    /// The request: the tag path, then total, offset and a zero word.
    pub fn into_request(self) -> (mr: MessageRouterRequest<EPath, (u16, u16, u16)>)
        ensures
            mr.service_code == SERVICE_READ_TAG_FRAGMENTED,
            mr.path == self.tag,
            mr.data == (self.total, self.offset, 0u16),
    {
        MessageRouterRequest::new(SERVICE_READ_TAG_FRAGMENTED, self.tag, (self.total, self.offset, 0u16))
    }
}

/// Read Tag Fragmented: what a reply gives, in order: whether more data
/// is to come, the tag type, and the data after the tag type.
pub fn read_fragmented_reply(resp: &MessageRouterReply<Bytes>) -> (r: Result<(bool, u16, Bytes), Error>)
    requires
        (resp.status.general == 0 || resp.status.general == 0x06) && resp.reply_service
            == SERVICE_READ_TAG_FRAGMENTED + REPLY_MASK ==> bytes_view(resp.data).len() >= 4,
    ensures
        !(resp.status.general == 0 || resp.status.general == 0x06) ==> r
            == Err::<(bool, u16, Bytes), Error>(
            Error::Cip { general: resp.status.general, extended: resp.status.extended },
        ),
        (resp.status.general == 0 || resp.status.general == 0x06) && resp.reply_service
            != SERVICE_READ_TAG_FRAGMENTED + REPLY_MASK ==> r == Err::<(bool, u16, Bytes), Error>(
            Error::UnexpectedService(resp.reply_service),
        ),
        (resp.status.general == 0 || resp.status.general == 0x06) && resp.reply_service
            == SERVICE_READ_TAG_FRAGMENTED + REPLY_MASK ==> (r matches Ok((more, tag_type, data))
            && more == (resp.status.general == 0x06) && tag_type == read_le16(bytes_view(resp.data), 0)
            && bytes_view(data) == bytes_view(resp.data).skip(2)),
{
    resp.ensure_ok_or_more()?;
    resp.expect_service(SERVICE_READ_TAG_FRAGMENTED + REPLY_MASK)?;
    let len = bytes_len(&resp.data);
    let tag_type = le_read_u16(bytes_as_slice(&resp.data), 0);
    let data = bytes_slice(&resp.data, 2, len);
    assert(bytes_view(data) =~= bytes_view(resp.data).skip(2));
    Ok((resp.status.has_more(), tag_type, data))
}

/// Write Tag Fragmented request.
pub struct WriteFragmentedRequest<D> {
    pub tag: EPath,
    pub tag_type: u16,
    pub total: u16,
    pub offset: u16,
    pub data: D,
}

impl<D> WriteFragmentedRequest<D> {
    pub fn new(total: u16, data: D) -> (r: Self)
        ensures
            r.tag@.len() == 0,
            r.tag_type == 0,
            r.total == total,
            r.offset == 0,
            r.data == data,
    {
        WriteFragmentedRequest { tag: EPath::new(), tag_type: 0, total, offset: 0, data }
    }

    pub fn tag(self, val: EPath) -> (r: Self)
        ensures
            r == (WriteFragmentedRequest { tag: val, ..self }),
    {
        WriteFragmentedRequest { tag: val, ..self }
    }

    pub fn tag_type(self, val: u16) -> (r: Self)
        ensures
            r == (WriteFragmentedRequest { tag_type: val, ..self }),
    {
        WriteFragmentedRequest { tag_type: val, ..self }
    }

    pub fn total(self, val: u16) -> (r: Self)
        ensures
            r == (WriteFragmentedRequest { total: val, ..self }),
    {
        WriteFragmentedRequest { total: val, ..self }
    }

    pub fn offset(self, val: u16) -> (r: Self)
        ensures
            r == (WriteFragmentedRequest { offset: val, ..self }),
    {
        WriteFragmentedRequest { offset: val, ..self }
    }

    pub fn data(self, data: D) -> (r: Self)
        ensures
            r == (WriteFragmentedRequest { data: data, ..self }),
    {
        WriteFragmentedRequest { data, ..self }
    }
}

/// The request data of Write Tag Fragmented: tag type, total, offset, a
/// zero word, then the data.
pub struct FragmentData<D> {
    pub tag_type: u16,
    pub total: u16,
    pub offset: u16,
    pub data: D,
}

impl<D: Encodable> Encodable for FragmentData<D> {
    open spec fn encodable(&self) -> bool {
        self.data.encodable() && 8 + self.data.encoding().len() <= usize::MAX
    }

    open spec fn encoding(&self) -> Seq<u8> {
        le16(self.tag_type) + le16(self.total) + le16(self.offset) + le16(0) + self.data.encoding()
    }

    fn encode(self, dst: &mut BytesMut) -> (r: Result<(), Error>) {
        let ghost start = bytes_mut_view(*dst);
        put_u16_le(dst, self.tag_type);
        put_u16_le(dst, self.total);
        put_u16_le(dst, self.offset);
        put_u16_le(dst, 0);
        let r = self.data.encode(dst);
        assert(bytes_mut_view(*dst) =~= start + le16(self.tag_type) + le16(self.total) + le16(
            self.offset,
        ) + le16(0) + self.data.encoding());
        r
    }

    fn bytes_count(&self) -> (n: usize) {
        8 + self.data.bytes_count()
    }
}

impl<D> WriteFragmentedRequest<D> {
    /// The request: the tag path and the fragment data.
    pub fn into_request(self) -> (mr: MessageRouterRequest<EPath, FragmentData<D>>)
        ensures
            mr.service_code == SERVICE_WRITE_TAG_FRAGMENTED,
            mr.path == self.tag,
            mr.data == (FragmentData {
                tag_type: self.tag_type,
                total: self.total,
                offset: self.offset,
                data: self.data,
            }),
    {
        MessageRouterRequest::new(
            SERVICE_WRITE_TAG_FRAGMENTED,
            self.tag,
            FragmentData { tag_type: self.tag_type, total: self.total, offset: self.offset, data: self.data },
        )
    }
}

/// Write Tag Fragmented: whether the reply asks for more fragments.
pub fn write_fragmented_reply(resp: &MessageRouterReply<Bytes>) -> (r: Result<bool, Error>)
    ensures
        !(resp.status.general == 0 || resp.status.general == 0x06) ==> r == Err::<bool, Error>(
            Error::Cip { general: resp.status.general, extended: resp.status.extended },
        ),
        (resp.status.general == 0 || resp.status.general == 0x06) && resp.reply_service
            != SERVICE_WRITE_TAG_FRAGMENTED + REPLY_MASK ==> r == Err::<bool, Error>(
            Error::UnexpectedService(resp.reply_service),
        ),
        (resp.status.general == 0 || resp.status.general == 0x06) && resp.reply_service
            == SERVICE_WRITE_TAG_FRAGMENTED + REPLY_MASK ==> r == Ok::<bool, Error>(
            resp.status.general == 0x06,
        ),
{
    resp.ensure_ok_or_more()?;
    resp.expect_service(SERVICE_WRITE_TAG_FRAGMENTED + REPLY_MASK)?;
    Ok(resp.status.has_more())
}

/// Whether `n` is a mask size that Read Modify Write accepts.
pub open spec fn valid_mask_size(n: usize) -> bool {
    n == 1 || n == 2 || n == 4 || n == 8 || n == 12
}

/// Read Modify Write request: bits set in the OR mask are set, bits clear
/// in the AND mask are cleared. N: only 1, 2, 4, 8, 12 accepted.
pub struct ReadModifyWriteRequest<const N: usize> {
    pub tag: EPath,
    pub or_mask: [u8; N],
    pub and_mask: [u8; N],
}

impl<const N: usize> ReadModifyWriteRequest<N> {
    /// Masks that change nothing: OR all 0, AND all 0xFF.
    pub fn new() -> (r: Self)
        requires
            valid_mask_size(N),
        ensures
            r.tag@.len() == 0,
            forall|i: int| 0 <= i < N ==> r.or_mask@[i] == 0u8 && r.and_mask@[i] == 0xFFu8,
    {
        ReadModifyWriteRequest { tag: EPath::new(), or_mask: [0u8; N], and_mask: [0xFFu8; N] }
    }

    pub fn tag(self, val: EPath) -> (r: Self)
        ensures
            r.tag == val,
            r.or_mask == self.or_mask,
            r.and_mask == self.and_mask,
    {
        ReadModifyWriteRequest { tag: val, or_mask: self.or_mask, and_mask: self.and_mask }
    }

    /// Array of OR modify masks; 1 mask sets bit to 1
    pub fn or_mask(self, mask: [u8; N]) -> (r: Self)
        ensures
            r.tag == self.tag,
            r.or_mask == mask,
            r.and_mask == self.and_mask,
    {
        ReadModifyWriteRequest { tag: self.tag, or_mask: mask, and_mask: self.and_mask }
    }

    /// Array of AND modify masks; 0 mask resets bit to 0
    pub fn and_mask(self, mask: [u8; N]) -> (r: Self)
        ensures
            r.tag == self.tag,
            r.or_mask == self.or_mask,
            r.and_mask == mask,
    {
        ReadModifyWriteRequest { tag: self.tag, or_mask: self.or_mask, and_mask: mask }
    }

    /// Array of OR modify masks; 1 mask sets bit to 1
    pub fn or_mask_mut(&mut self) -> (m: &mut [u8; N])
        ensures
            *m == old(self).or_mask,
            final(self).or_mask == *final(m),
            final(self).tag == old(self).tag,
            final(self).and_mask == old(self).and_mask,
    {
        &mut self.or_mask
    }

    /// Array of AND modify masks; 0 mask resets bit to 0
    pub fn and_mask_mut(&mut self) -> (m: &mut [u8; N])
        ensures
            *m == old(self).and_mask,
            final(self).and_mask == *final(m),
            final(self).tag == old(self).tag,
            final(self).or_mask == old(self).or_mask,
    {
        &mut self.and_mask
    }
}

/// The request data of Read Modify Write: mask size, OR masks, AND masks.
pub struct MaskData<const N: usize> {
    pub or_mask: [u8; N],
    pub and_mask: [u8; N],
}

impl<const N: usize> Encodable for MaskData<N> {
    open spec fn encodable(&self) -> bool {
        valid_mask_size(N)
    }

    open spec fn encoding(&self) -> Seq<u8> {
        le16(N as u16) + self.or_mask@ + self.and_mask@
    }

    fn encode(self, dst: &mut BytesMut) -> (r: Result<(), Error>) {
        let ghost start = bytes_mut_view(*dst);
        put_u16_le(dst, N as u16);
        put_slice(dst, self.or_mask.as_slice());
        put_slice(dst, self.and_mask.as_slice());
        assert(bytes_mut_view(*dst) =~= start + (le16(N as u16) + self.or_mask@ + self.and_mask@));
        Ok(())
    }

    fn bytes_count(&self) -> (n: usize) {
        2 + N * 2
    }
}

impl<const N: usize> ReadModifyWriteRequest<N> {
    /// The request: the tag path and the masks.
    pub fn into_request(self) -> (mr: MessageRouterRequest<EPath, MaskData<N>>)
        ensures
            mr.service_code == SERVICE_READ_MODIFY_WRITE_TAG,
            mr.path == self.tag,
            mr.data == (MaskData { or_mask: self.or_mask, and_mask: self.and_mask }),
    {
        MessageRouterRequest::new(
            SERVICE_READ_MODIFY_WRITE_TAG,
            self.tag,
            MaskData { or_mask: self.or_mask, and_mask: self.and_mask },
        )
    }
}

} // verus!
