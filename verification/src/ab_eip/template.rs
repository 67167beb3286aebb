//! Templates of structured tags: the template object (Get Attribute List on
//! the template class), reading its definition in chunks (Template Read),
//! and decoding the definition into members and names.

use crate::ab_eip::service::{CLASS_TEMPLATE, REPLY_MASK, SERVICE_TEMPLATE_READ};
use crate::ab_eip::symbol::SymbolType;
use crate::buf::{
    bytes_as_slice, bytes_len, bytes_view, le_read_u16, le_read_u32, read_le16, read_le32,
    string_from_utf8_lossy, utf8_lossy,
};
use crate::cip::epath::{EPath, Segment};
use crate::cip::mr::{MessageRouterReply, MessageRouterRequest};
use crate::error::{Error, TemplateError};
use bytes::Bytes;
use crate::cip::mr::HasMore;
use vstd::prelude::*;

pub mod decoder;

verus! {

/// service code of Get Attribute List
pub const SERVICE_GET_ATTRIBUTE_LIST: u8 = 0x03;

/// Template object.
#[derive(Debug, Clone, Copy, PartialEq, Eq)]
pub struct Template {
    pub instance_id: u16,
    /// structure handle, the tag type parameter of Read/Write Tag
    pub handle: u16,
    /// number of members
    pub member_count: u16,
    /// size of the template definition, in 32-bit words
    pub object_size: u32,
    /// number of bytes of structure data that Read/Write Tag transfer
    pub struct_size: u32,
}

/// Why the attribute record at `at` (id, status, value) is not attribute
/// `id` with status 0; none if it is.
pub open spec fn attr_error(s: Seq<u8>, at: int, id: u16) -> Option<Error> {
    if read_le16(s, at + 2) != 0 {
        Some(
            Error::Template(
                TemplateError::AttributeStatus { id: read_le16(s, at), status: read_le16(s, at + 2) },
            ),
        )
    } else if read_le16(s, at) != id {
        Some(Error::Template(TemplateError::UnexpectedAttribute(read_le16(s, at))))
    } else {
        None
    }
}

/// What decoding a template object from the data of a Get Attribute List
/// reply gives: the attribute count 4, then attributes 1 (handle, 2
/// bytes), 2 (member count, 2 bytes), 4 (object size, 4 bytes) and 5
/// (structure size, 4 bytes), each as id, status, value, and nothing more.
pub open spec fn spec_decode_template(s: Seq<u8>) -> Result<Template, Error> {
    if s.len() < 28 {
        Err(Error::InvalidLength { actual: s.len() as usize, expected: 28 })
    } else if read_le16(s, 0) != 4 {
        Err(Error::Template(TemplateError::UnexpectedItemCount(read_le16(s, 0))))
    } else if attr_error(s, 2, 1) is Some {
        Err(attr_error(s, 2, 1)->0)
    } else if attr_error(s, 8, 2) is Some {
        Err(attr_error(s, 8, 2)->0)
    } else if attr_error(s, 14, 4) is Some {
        Err(attr_error(s, 14, 4)->0)
    } else if attr_error(s, 22, 5) is Some {
        Err(attr_error(s, 22, 5)->0)
    } else if s.len() < 30 {
        Err(Error::InvalidLength { actual: (s.len() - 26) as usize, expected: 4 })
    } else if s.len() > 30 {
        Err(Error::Template(TemplateError::TooMuchData))
    } else {
        Ok(
            Template {
                instance_id: 0,
                handle: read_le16(s, 6),
                member_count: read_le16(s, 12),
                object_size: read_le32(s, 18),
                struct_size: read_le32(s, 26),
            },
        )
    }
}

fn check_attr(s: &[u8], at: usize, id: u16) -> (r: Result<(), Error>)
    requires
        at + 4 <= s@.len(),
    ensures
        match attr_error(s@, at as int, id) {
            Some(e) => r == Err::<(), Error>(e),
            None => r is Ok,
        },
{
    let len = s.len();
    assert(at + 4 <= len);
    let got = le_read_u16(s, at);
    let status = le_read_u16(s, at + 2);
    if status != 0 {
        return Err(Error::Template(TemplateError::AttributeStatus { id: got, status }));
    }
    if got != id {
        return Err(Error::Template(TemplateError::UnexpectedAttribute(got)));
    }
    Ok(())
}

impl Template {
    /// Decodes a template object (its instance id is left 0).
    pub fn decode(s: &[u8]) -> (r: Result<Template, Error>)
        ensures
            r == spec_decode_template(s@),
    {
        let len = s.len();
        if len < 28 {
            return Err(Error::InvalidLength { actual: len, expected: 28 });
        }
        let count = le_read_u16(s, 0);
        if count != 4 {
            return Err(Error::Template(TemplateError::UnexpectedItemCount(count)));
        }
        check_attr(s, 2, 1)?;
        let handle = le_read_u16(s, 6);
        check_attr(s, 8, 2)?;
        let member_count = le_read_u16(s, 12);
        check_attr(s, 14, 4)?;
        let object_size = le_read_u32(s, 18);
        check_attr(s, 22, 5)?;
        if len < 30 {
            return Err(Error::InvalidLength { actual: len - 26, expected: 4 });
        }
        let struct_size = le_read_u32(s, 26);
        if len > 30 {
            return Err(Error::Template(TemplateError::TooMuchData));
        }
        Ok(Template { instance_id: 0, handle, member_count, object_size, struct_size })
    }
}

/// The path of a template instance: template class, instance `id`.
pub open spec fn is_template_path(p: EPath, id: u16) -> bool {
    p@ == seq![Segment::Class(CLASS_TEMPLATE), Segment::Instance(id)]
}

fn template_path(instance_id: u16) -> (p: EPath)
    ensures
        is_template_path(p, instance_id),
{
    let p = EPath::new().with_class(CLASS_TEMPLATE).with_instance(instance_id);
    assert(p@ =~= seq![Segment::Class(CLASS_TEMPLATE), Segment::Instance(instance_id)]);
    p
}

/// Request for the template object `instance_id`: Get Attribute List of
/// attributes 1, 2, 4 and 5.
pub fn find_template(instance_id: u16) -> (mr: MessageRouterRequest<
    EPath,
    (u16, (u16, u16), (u16, u16)),
>)
    ensures
        mr.service_code == SERVICE_GET_ATTRIBUTE_LIST,
        is_template_path(mr.path, instance_id),
        mr.data == (4u16, (1u16, 2u16), (4u16, 5u16)),
{
    MessageRouterRequest::new(
        SERVICE_GET_ATTRIBUTE_LIST,
        template_path(instance_id),
        (4u16, (1u16, 2u16), (4u16, 5u16)),
    )
}

/// Reads the reply to `find_template`: an error status fails, then the
/// template object is decoded, then the service is checked; the template
/// gets the instance id it was asked for.
pub fn find_template_reply(instance_id: u16, resp: &MessageRouterReply<Bytes>) -> (r: Result<
    Template,
    Error,
>)
    ensures
        resp.status.general != 0 ==> r == Err::<Template, Error>(
            Error::Cip { general: resp.status.general, extended: resp.status.extended },
        ),
        resp.status.general == 0 ==> match spec_decode_template(bytes_view(resp.data)) {
            Err(e) => r == Err::<Template, Error>(e),
            Ok(t) => if resp.reply_service != SERVICE_GET_ATTRIBUTE_LIST + REPLY_MASK {
                r == Err::<Template, Error>(Error::UnexpectedService(resp.reply_service))
            } else {
                r == Ok::<Template, Error>(Template { instance_id, ..t })
            },
        },
{
    resp.ensure_ok()?;
    let t = Template::decode(bytes_as_slice(&resp.data))?;
    resp.expect_service(SERVICE_GET_ATTRIBUTE_LIST + REPLY_MASK)?;
    Ok(Template { instance_id, ..t })
}

/// Member of a template definition.
#[derive(Debug, Clone)]
pub struct MemberInfo {
    /// member name
    pub name: String,
    /// 0 for an atomic type, the number of elements for an array, the bit
    /// position for a boolean (0-31; 0-7 where mapped to a SINT)
    pub array_size: u16,
    /// member type
    pub type_info: SymbolType,
    /// offset of the member's data
    pub offset: u32,
}

/// Template definition: its name and its members by name (one member for
/// each name, the last of that name, in definition order).
#[derive(Debug)]
pub struct TemplateDefinition {
    pub name: String,
    pub members: Vec<MemberInfo>,
}

impl TemplateDefinition {
    /// template name
    pub fn name(&self) -> (s: &str)
        ensures
            s@ == self.name@,
    {
        self.name.as_str()
    }

    /// The member of that name (the last one, where names repeat).
    pub fn member(&self, name: &str) -> (r: Option<&MemberInfo>)
        ensures
            r is None <==> forall|i: int| 0 <= i < self.members@.len() ==> (
            #[trigger] self.members@[i]).name@ != name@,
            r matches Some(m) ==> exists|i: int|
                0 <= i < self.members@.len() && *m == self.members@[i] && m.name@ == name@ && forall|
                    j: int,
                | i < j < self.members@.len() ==> (#[trigger] self.members@[j]).name@ != name@,
    {
        let key = name.to_owned();
        let n = self.members.len();
        let mut i = n;
        while i > 0
            invariant
                n == self.members@.len(),
                i <= n,
                key@ == name@,
                forall|j: int| i <= j < n ==> (#[trigger] self.members@[j]).name@ != name@,
            decreases i,
        {
            i -= 1;
            if self.members[i].name == key {
                return Some(&self.members[i]);
            }
        }
        None
    }
}

/// Index of the first byte `b` of `s` at or after `i`; `s.len()` if none.
pub open spec fn index_of(s: Seq<u8>, b: u8, i: int) -> int
    decreases s.len() - i,
{
    if i < 0 || i >= s.len() {
        s.len() as int
    } else if s[i] == b {
        i
    } else {
        index_of(s, b, i + 1)
    }
}

pub proof fn lemma_index_of_bounds(s: Seq<u8>, b: u8, i: int)
    requires
        0 <= i <= s.len(),
    ensures
        i <= index_of(s, b, i) <= s.len(),
        index_of(s, b, i) < s.len() ==> s[index_of(s, b, i)] == b,
    decreases s.len() - i,
{
    if i < s.len() && s[i] != b {
        lemma_index_of_bounds(s, b, i + 1);
    }
}

proof fn lemma_index_of_skip(s: Seq<u8>, b: u8, p: int, i: int)
    requires
        0 <= p <= s.len(),
        0 <= i <= s.len() - p,
    ensures
        index_of(s.skip(p), b, i) == index_of(s, b, p + i) - p,
    decreases s.len() - p - i,
{
    if i < s.len() - p && s[p + i] != b {
        lemma_index_of_skip(s, b, p, i + 1);
    }
}

/// The pieces of `s` between zero bytes, as slice `split` yields them
/// (one piece for bytes with no zero in them, an empty one after a final
/// zero).
pub open spec fn zero_pieces(s: Seq<u8>) -> Seq<Seq<u8>>
    decreases s.len(),
{
    let z = index_of(s, 0, 0);
    if z >= s.len() {
        seq![s]
    } else {
        proof {
            lemma_index_of_bounds(s, 0, 0);
        }
        seq![s.take(z)] + zero_pieces(s.skip(z + 1))
    }
}

/// A name as far as its first `;`.
pub open spec fn name_part(s: Seq<u8>) -> Seq<u8> {
    s.take(index_of(s, 0x3B, 0))
}

/// The text of a name piece.
pub open spec fn piece_name(s: Seq<u8>) -> Seq<char> {
    utf8_lossy(name_part(s))
}

/// The member record `i` of a definition: array size, type, offset.
pub open spec fn member_is(s: Seq<u8>, i: int, m: MemberInfo) -> bool {
    &&& m.array_size == read_le16(s, 8 * i)
    &&& m.type_info == SymbolType(read_le16(s, 8 * i + 2))
    &&& m.offset == read_le32(s, 8 * i + 4)
}

/// End of the piece of `s` that starts at `pos`.
pub(crate) fn piece_end(s: &[u8], pos: usize) -> (end: usize)
    requires
        pos <= s@.len(),
    ensures
        end == index_of(s@, 0, pos as int),
        pos <= end <= s@.len(),
{
    let mut i = pos;
    proof {
        lemma_index_of_bounds(s@, 0, pos as int);
    }
    while i < s.len() && s[i] != 0
        invariant
            pos <= i <= s@.len(),
            index_of(s@, 0, pos as int) == index_of(s@, 0, i as int),
        decreases s@.len() - i,
    {
        i += 1;
    }
    i
}

/// The name that a piece stands for.
pub(crate) fn name_of(piece: &[u8]) -> (s: String)
    ensures
        s@ == piece_name(piece@),
{
    let mut i: usize = 0;
    proof {
        lemma_index_of_bounds(piece@, 0x3B, 0);
    }
    while i < piece.len() && piece[i] != 0x3B
        invariant
            0 <= i <= piece@.len(),
            index_of(piece@, 0x3B, 0) == index_of(piece@, 0x3B, i as int),
        decreases piece@.len() - i,
    {
        i += 1;
    }
    let (part, _) = piece.split_at(i);
    assert(part@ =~= name_part(piece@));
    string_from_utf8_lossy(part)
}

/// The pieces of `s` from `pos` on: a piece, and the rest after its zero.
pub proof fn lemma_pieces_step(s: Seq<u8>, pos: int)
    requires
        0 <= pos <= s.len(),
    ensures
        ({
            let z = index_of(s, 0, pos);
            &&& zero_pieces(s.skip(pos))[0] == s.subrange(pos, z)
            &&& zero_pieces(s.skip(pos)).len() >= 1
            &&& z < s.len() ==> zero_pieces(s.skip(pos)).skip(1) == zero_pieces(s.skip(z + 1))
            &&& z >= s.len() ==> zero_pieces(s.skip(pos)).len() == 1
        }),
{
    let t = s.skip(pos);
    let z = index_of(s, 0, pos);
    lemma_index_of_skip(s, 0, pos, 0);
    lemma_index_of_bounds(s, 0, pos);
    assert(index_of(t, 0, 0) == z - pos);
    if z < s.len() {
        assert(t.take(z - pos) =~= s.subrange(pos, z));
        assert(t.skip(z - pos + 1) =~= s.skip(z + 1));
        assert(zero_pieces(t) == seq![t.take(z - pos)] + zero_pieces(t.skip(z - pos + 1)));
        assert(zero_pieces(t).skip(1) =~= zero_pieces(s.skip(z + 1)));
    } else {
        assert(t =~= s.subrange(pos, z));
    }
}

/// The member records at the front of `s`, with empty names.
pub(crate) fn read_members(s: &[u8], count: usize) -> (v: Vec<MemberInfo>)
    requires
        8 * count <= s@.len(),
    ensures
        v@.len() == count,
        forall|i: int| 0 <= i < count ==> member_is(s@, i, #[trigger] v@[i]) && v@[i].name@.len()
            == 0,
{
    let mut v: Vec<MemberInfo> = Vec::new();
    let mut i: usize = 0;
    let len = s.len();
    while i < count
        invariant
            len == s@.len(),
            8 * count <= s@.len(),
            i <= count,
            v@.len() == i,
            forall|k: int| 0 <= k < i ==> member_is(s@, k, #[trigger] v@[k]) && v@[k].name@.len()
                == 0,
        decreases count - i,
    {
        let item = MemberInfo {
            name: String::new(),
            array_size: le_read_u16(s, 8 * i),
            type_info: SymbolType(le_read_u16(s, 8 * i + 2)),
            offset: le_read_u32(s, 8 * i + 4),
        };
        v.push(item);
        i += 1;
    }
    v
}

/// The member `i` of `ms` is the last one of its name.
pub open spec fn is_last_of_name(ms: Seq<MemberInfo>, i: int) -> bool {
    forall|j: int| i < j < ms.len() ==> (#[trigger] ms[j]).name@ != ms[i].name@
}

/// The members of a definition as a map by name keeps them: of the first
/// `n` of `ms`, in order, those that are the last of their name in `ms`.
pub open spec fn keep_last(ms: Seq<MemberInfo>, n: int) -> Seq<MemberInfo>
    decreases n,
{
    if n <= 0 {
        Seq::empty()
    } else if is_last_of_name(ms, n - 1) {
        keep_last(ms, n - 1).push(ms[n - 1])
    } else {
        keep_last(ms, n - 1)
    }
}

/// `m` is a member of the first `n` of `ms` that is the last of its name.
pub open spec fn kept_member(ms: Seq<MemberInfo>, n: int, m: MemberInfo) -> bool {
    exists|i: int| 0 <= i < n && is_last_of_name(ms, i) && m == #[trigger] ms[i]
}

/// Each member kept is the last of its name, and no name is kept twice.
pub proof fn lemma_keep_last_distinct(ms: Seq<MemberInfo>, n: int)
    requires
        0 <= n <= ms.len(),
    ensures
        forall|k: int|
            0 <= k < keep_last(ms, n).len() ==> kept_member(ms, n, #[trigger] keep_last(ms, n)[k]),
        forall|a: int, b: int|
            0 <= a < b < keep_last(ms, n).len() ==> (#[trigger] keep_last(ms, n)[a]).name@
                != (#[trigger] keep_last(ms, n)[b]).name@,
    decreases n,
{
    if n > 0 {
        lemma_keep_last_distinct(ms, n - 1);
        let r = keep_last(ms, n - 1);
        assert forall|k: int| 0 <= k < r.len() implies kept_member(ms, n, #[trigger] r[k]) by {
            assert(kept_member(ms, n - 1, r[k]));
            let i = choose|i: int| 0 <= i < n - 1 && is_last_of_name(ms, i) && r[k] == ms[i];
            assert(0 <= i < n && is_last_of_name(ms, i) && r[k] == ms[i]);
        }
        if is_last_of_name(ms, n - 1) {
            let r2 = r.push(ms[n - 1]);
            assert(keep_last(ms, n) == r2);
            assert forall|k: int| 0 <= k < r2.len() implies kept_member(ms, n, #[trigger] r2[k]) by {
                if k < r.len() {
                    assert(r2[k] == r[k]);
                    assert(kept_member(ms, n, r[k]));
                } else {
                    assert(r2[k] == ms[n - 1]);
                }
            }
            assert forall|a: int, b: int| 0 <= a < b < r2.len() implies (#[trigger] r2[a]).name@
                != (#[trigger] r2[b]).name@ by {
                if b == r.len() {
                    assert(r2[a] == r[a]);
                    assert(kept_member(ms, n - 1, r[a]));
                    let i = choose|i: int| 0 <= i < n - 1 && is_last_of_name(ms, i) && r[a] == ms[i];
                    assert(ms[n - 1].name@ != ms[i].name@);
                } else {
                    assert(r2[a] == r[a] && r2[b] == r[b]);
                }
            }
        } else {
            assert(keep_last(ms, n) == r);
        }
    }
}

/// The members of `ms` as a map by name keeps them (see `keep_last`).
pub(crate) fn keep_last_members(ms: Vec<MemberInfo>) -> (out: Vec<MemberInfo>)
    ensures
        out@ == keep_last(ms@, ms@.len() as int),
{
    let n = ms.len();
    let mut out: Vec<MemberInfo> = Vec::new();
    let mut i: usize = 0;
    while i < n
        invariant
            n == ms@.len(),
            i <= n,
            out@ == keep_last(ms@, i as int),
        decreases n - i,
    {
        let mut last = true;
        let mut j = i + 1;
        while j < n
            invariant
                n == ms@.len(),
                i < n,
                i < j <= n,
                last <==> forall|q: int| i < q < j ==> (#[trigger] ms@[q]).name@ != ms@[i as int].name@,
            decreases n - j,
        {
            if ms[j].name == ms[i].name {
                last = false;
            }
            j += 1;
        }
        if last {
            let m = MemberInfo {
                name: ms[i].name.clone(),
                array_size: ms[i].array_size,
                type_info: ms[i].type_info,
                offset: ms[i].offset,
            };
            out.push(m);
        }
        i += 1;
    }
    out
}

/// The member records of a definition with their names: the record `i` and
/// the name piece after the template's.
pub open spec fn decoded_members(buf: Seq<u8>, pieces: Seq<Seq<u8>>, n: int, all: Seq<MemberInfo>) -> bool {
    &&& all.len() == n
    &&& forall|i: int|
        0 <= i < n ==> member_is(buf, i, #[trigger] all[i]) && all[i].name@ == piece_name(
            pieces[i + 1],
        )
}

/// Decodes a template definition of `member_count` members: their records
/// (8 bytes each), then the zero-separated names, the template's first and
/// then one for each member, each cut at its first `;`. Too few names fail.
pub fn decode_definition(buf: &[u8], member_count: u16) -> (r: Result<TemplateDefinition, Error>)
    requires
        8 * member_count <= buf@.len(),
    ensures
        ({
            let pieces = zero_pieces(buf@.skip(8 * member_count));
            &&& pieces.len() < member_count + 1 ==> r == Err::<TemplateDefinition, Error>(
                Error::Template(TemplateError::UnexpectedEof),
            )
            &&& pieces.len() >= member_count + 1 ==> (r matches Ok(def) && def.name@ == piece_name(
                pieces[0],
            ) && exists|all: Seq<MemberInfo>|
                #[trigger] decoded_members(buf@, pieces, member_count as int, all) && def.members@
                    == keep_last(all, member_count as int))
        }),
{
    let count = member_count as usize;
    let mut members = read_members(buf, count);
    let (_, rest) = buf.split_at(8 * count);
    let ghost pieces = zero_pieces(rest@);
    assert(rest@ =~= buf@.skip(8 * member_count));
    assert(rest@.skip(0) =~= rest@);
    proof {
        lemma_pieces_step(rest@, 0);
    }
    let end = piece_end(rest, 0);
    let first = rest.split_at(end).0;
    assert(first@ =~= rest@.subrange(0, end as int));
    let name = name_of(first);
    let mut more = end < rest.len();
    let mut pos: usize = if more { end + 1 } else { end };
    let mut index: usize = 0;
    while index < count
        invariant
            count == member_count,
            members@.len() == count,
            pos <= rest@.len(),
            0 <= index <= count,
            pieces == zero_pieces(rest@),
            rest@ == buf@.skip(8 * member_count as int),
            index + 1 <= pieces.len(),
            more ==> pieces.skip(index + 1) == zero_pieces(rest@.skip(pos as int)),
            !more ==> pieces.len() == index + 1,
            forall|i: int| 0 <= i < count ==> member_is(buf@, i, #[trigger] members@[i]),
            forall|i: int| 0 <= i < index ==> (#[trigger] members@[i]).name@ == piece_name(
                pieces[i + 1],
            ),
        decreases count - index,
    {
        if !more {
            return Err(Error::Template(TemplateError::UnexpectedEof));
        }
        proof {
            lemma_pieces_step(rest@, pos as int);
            assert(pieces.skip(index as int + 1).len() >= 1);
            assert(index + 1 < pieces.len());
        }
        let end = piece_end(rest, pos);
        let piece = rest.split_at(end).0.split_at(pos).1;
        assert(piece@ =~= rest@.subrange(pos as int, end as int));
        assert(pieces[index + 1] == pieces.skip(index + 1)[0]);
        let member_name = name_of(piece);
        let m = MemberInfo {
            name: member_name,
            array_size: members[index].array_size,
            type_info: members[index].type_info,
            offset: members[index].offset,
        };
        members.set(index, m);
        proof {
            if end < rest@.len() {
                assert(pieces.skip(index + 2) =~= pieces.skip(index + 1).skip(1));
            } else {
                assert(pieces.skip(index + 1).len() == 1);
            }
        }
        more = end < rest.len();
        pos = if more { end + 1 } else { end };
        index += 1;
    }
    let ghost all = members@;
    assert(decoded_members(buf@, pieces, member_count as int, all));
    let members = keep_last_members(members);
    Ok(TemplateDefinition { name, members })
}

/// Reading a template definition: instance, object size (in 32-bit words)
/// and member count, as the template object gives them.
#[derive(Debug, Clone, Copy)]
pub struct TemplateRead {
    pub instance_id: u16,
    pub object_size: u32,
    pub member_count: u16,
}

/// Bytes of definition that Template Read returns: the object size in bytes
/// less the 23-byte header, padded up to a multiple of 4.
pub open spec fn spec_total_bytes(object_size: u32) -> int {
    let t = object_size * 4 - 23;
    if t % 4 == 0 {
        t
    } else {
        t - t % 4 + 4
    }
}

/// The definition bytes requested are a multiple of 4, at least the object
/// size less the header and less than 4 bytes more.
pub proof fn lemma_total_bytes_padded(object_size: u32)
    requires
        object_size * 4 > 23,
    ensures
        spec_total_bytes(object_size) % 4 == 0,
        object_size * 4 - 23 <= spec_total_bytes(object_size) < object_size * 4 - 23 + 4,
{
}

/// Where a Template Read stands: the definition bytes to read in all, and
/// those read so far.
#[derive(Debug)]
pub struct TemplateReadState {
    pub total: u32,
    pub buf: Vec<u8>,
}

/// Template Read request: `bytes` bytes of the definition of template
/// `instance_id` from `offset` on.
pub fn read_template(instance_id: u16, offset: u32, bytes: u16) -> (mr: MessageRouterRequest<
    EPath,
    (u32, u16),
>)
    ensures
        mr.service_code == SERVICE_TEMPLATE_READ,
        is_template_path(mr.path, instance_id),
        mr.data == (offset, bytes),
{
    MessageRouterRequest::new(SERVICE_TEMPLATE_READ, template_path(instance_id), (offset, bytes))
}

/// Reads a Template Read reply: an error status other than "more data"
/// (0x06) fails, so does another service; else whether more data follows,
/// and the bytes.
pub fn read_template_reply(resp: &MessageRouterReply<Bytes>) -> (r: Result<(bool, Bytes), Error>)
    ensures
        !(resp.status.general == 0 || resp.status.general == 0x06) ==> r == Err::<(bool, Bytes), Error>(
            Error::Cip { general: resp.status.general, extended: resp.status.extended },
        ),
        (resp.status.general == 0 || resp.status.general == 0x06) && resp.reply_service
            != SERVICE_TEMPLATE_READ + REPLY_MASK ==> r == Err::<(bool, Bytes), Error>(
            Error::UnexpectedService(resp.reply_service),
        ),
        (resp.status.general == 0 || resp.status.general == 0x06) && resp.reply_service
            == SERVICE_TEMPLATE_READ + REPLY_MASK ==> (r matches Ok((more, data)) && more == (
        resp.status.general == 0x06) && bytes_view(data) == bytes_view(resp.data)),
{
    resp.ensure_ok_or_more()?;
    resp.expect_service(SERVICE_TEMPLATE_READ + REPLY_MASK)?;
    Ok((resp.status.has_more(), resp.data.clone()))
}

impl TemplateRead {
    /// Instance 0, object size 0, no members.
    pub fn new() -> (r: Self)
        ensures
            r.instance_id == 0 && r.object_size == 0 && r.member_count == 0,
    {
        TemplateRead { instance_id: 0, object_size: 0, member_count: 0 }
    }

    /// template instance id
    pub fn instance_id(self, instance_id: u16) -> (r: Self)
        ensures
            r == (TemplateRead { instance_id, ..self }),
    {
        TemplateRead { instance_id, ..self }
    }

    /// size of the template definition, in 32-bit words
    pub fn object_size(self, object_size: u32) -> (r: Self)
        ensures
            r == (TemplateRead { object_size, ..self }),
    {
        TemplateRead { object_size, ..self }
    }

    /// number of members
    pub fn member_count(self, member_count: u16) -> (r: Self)
        ensures
            r == (TemplateRead { member_count, ..self }),
    {
        TemplateRead { member_count, ..self }
    }

    /// Starts reading: fails without members or with an object no larger
    /// than the header; else nothing read yet of `spec_total_bytes` bytes.
    pub fn begin(&self) -> (r: Result<TemplateReadState, Error>)
        requires
            self.object_size <= u32::MAX / 4,
        ensures
            self.member_count == 0 ==> r == Err::<TemplateReadState, Error>(
                Error::Template(TemplateError::MemberCountUnset),
            ),
            self.member_count != 0 && self.object_size * 4 <= 23 ==> r == Err::<
                TemplateReadState,
                Error,
            >(Error::Template(TemplateError::ObjectSizeUnset)),
            self.member_count != 0 && self.object_size * 4 > 23 ==> (r matches Ok(st) && st.total
                == spec_total_bytes(self.object_size) && st.buf@.len() == 0),
    {
        if self.member_count == 0 {
            return Err(Error::Template(TemplateError::MemberCountUnset));
        }
        let object_size = self.object_size * 4;
        if object_size <= 23 {
            return Err(Error::Template(TemplateError::ObjectSizeUnset));
        }
        let total_bytes = object_size - 23;
        let v = total_bytes % 4;
        let total = if v == 0 { total_bytes } else { total_bytes - v + 4 };
        Ok(TemplateReadState { total, buf: Vec::new() })
    }
}

impl TemplateReadState {
    /// Offset and size of the next chunk to request: from the bytes read so
    /// far to the end (the size cut to 16 bits). Reading past the end fails.
    pub fn next_request(&self) -> (r: Result<(u32, u16), Error>)
        ensures
            self.buf@.len() < self.total ==> r == Ok::<(u32, u16), Error>(
                (self.buf@.len() as u32, (self.total - self.buf@.len()) as u16),
            ),
            self.buf@.len() >= self.total ==> r == Err::<(u32, u16), Error>(
                Error::Template(TemplateError::OffsetOutOfRange),
            ),
    {
        let len = self.buf.len();
        if len < self.total as usize {
            let offset = len as u32;
            Ok((offset, (self.total - offset) as u16))
        } else {
            Err(Error::Template(TemplateError::OffsetOutOfRange))
        }
    }

    /// Takes a chunk of the definition. While more is to come, nothing is
    /// decoded; with the last chunk the whole definition is decoded for
    /// `member_count` members (fewer bytes than their records fail).
    pub fn received(&mut self, member_count: u16, has_more: bool, data: &Bytes) -> (r: Result<
        Option<TemplateDefinition>,
        Error,
    >)
        ensures
            final(self).total == old(self).total,
            final(self).buf@ == old(self).buf@ + bytes_view(*data),
            has_more ==> r == Ok::<Option<TemplateDefinition>, Error>(None),
            !has_more && final(self).buf@.len() < 8 * member_count ==> r == Err::<
                Option<TemplateDefinition>,
                Error,
            >(
                Error::InvalidLength {
                    actual: final(self).buf@.len() as usize,
                    expected: (8 * member_count) as usize,
                },
            ),
            !has_more && final(self).buf@.len() >= 8 * member_count ==> ({
                let pieces = zero_pieces(final(self).buf@.skip(8 * member_count));
                &&& pieces.len() < member_count + 1 ==> r == Err::<
                    Option<TemplateDefinition>,
                    Error,
                >(Error::Template(TemplateError::UnexpectedEof))
                &&& pieces.len() >= member_count + 1 ==> (r matches Ok(Some(def)) && def.name@
                    == piece_name(pieces[0]) && exists|all: Seq<MemberInfo>|
                    #[trigger] decoded_members(final(self).buf@, pieces, member_count as int, all)
                        && def.members@ == keep_last(all, member_count as int))
            }),
    {
        let s = bytes_as_slice(data);
        let n = s.len();
        let mut i: usize = 0;
        let ghost start = self.buf@;
        while i < n
            invariant
                n == s@.len(),
                i <= n,
                self.total == old(self).total,
                self.buf@ == start + s@.take(i as int),
            decreases n - i,
        {
            self.buf.push(s[i]);
            assert(s@.take(i as int + 1) =~= s@.take(i as int).push(s@[i as int]));
            i += 1;
        }
        assert(s@.take(n as int) =~= s@);
        if has_more {
            return Ok(None);
        }
        let len = self.buf.len();
        let need = 8 * member_count as usize;
        if len < need {
            return Err(Error::InvalidLength { actual: len, expected: need });
        }
        let def = decode_definition(self.buf.as_slice(), member_count)?;
        Ok(Some(def))
    }
}

} // verus!
