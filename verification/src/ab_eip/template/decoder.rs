//! A template definition decoder that takes the definition chunk by chunk,
//! as Template Read returns it.

use crate::ab_eip::symbol::SymbolType;
use crate::ab_eip::template::{
    keep_last, keep_last_members, lemma_pieces_step, member_is, name_of, piece_end, piece_name,
    read_members, zero_pieces, MemberInfo, TemplateDefinition,
};
use crate::buf::{bytes_as_slice, bytes_view};
use crate::error::{Error, TemplateError};
use bytes::Bytes;
use vstd::prelude::*;

verus! {

/// Decoder of template definitions.
pub trait DefinitionDecoder {
    type Item;
    type Error;

    /// Sets the number of members; a definition cannot be decoded without
    /// it.
    fn member_count(&mut self, member_count: u16);

    /// Whether the decoder can take `buf` as its next chunk.
    spec fn accepts(&self, buf: Bytes) -> bool;

    /// Takes the next chunk of the definition.
    fn partial_decode(&mut self, buf: Bytes) -> Result<(), Self::Error>
        requires
            old(self).accepts(buf),
    ;

    /// Gives the decoded definition and resets the decoder.
    fn decode(&mut self) -> Result<Self::Item, Self::Error>;
}

/// The default decoder of template definitions.
#[derive(Debug)]
pub struct DefaultDefinitionDecoder {
    /// template name
    pub name: String,
    /// members of the template
    pub members: Vec<MemberInfo>,
    /// the exact number of members
    pub member_count: u16,
    /// index of the next member to name
    pub index: u16,
}

impl Default for DefaultDefinitionDecoder {
    fn default() -> (r: Self)
        ensures
            r.name@.len() == 0,
            r.members@.len() == 0,
            r.member_count == 0,
            r.index == 0,
    {
        DefaultDefinitionDecoder {
            name: String::new(),
            members: Vec::new(),
            member_count: 0,
            index: 0,
        }
    }
}

/// Number of member records a chunk starts with: those still missing.
pub open spec fn records_wanted(d: DefaultDefinitionDecoder) -> nat {
    if d.members@.len() < d.member_count {
        (d.member_count - d.members@.len()) as nat
    } else {
        0
    }
}

/// The pieces of a chunk that name members: all of them, or all but the
/// first where the template has no name yet (the first names it).
pub open spec fn member_pieces(name_empty: bool, pieces: Seq<Seq<u8>>) -> Seq<Seq<u8>> {
    if name_empty {
        pieces.skip(1)
    } else {
        pieces
    }
}

/// The same member record (array size, type, offset), whatever the names.
pub open spec fn same_record(a: MemberInfo, b: MemberInfo) -> bool {
    a.array_size == b.array_size && a.type_info == b.type_info && a.offset == b.offset
}

/// How many members a chunk names: as many as it has pieces for, up to
/// the member count.
pub open spec fn names_taken(index: u16, member_count: u16, n: nat) -> nat {
    if index >= member_count {
        0
    } else if n < member_count - index {
        n
    } else {
        (member_count - index) as nat
    }
}

impl DefinitionDecoder for DefaultDefinitionDecoder {
    type Item = TemplateDefinition;
    type Error = Error;

    fn member_count(&mut self, member_count: u16)
        ensures
            *final(self) == (DefaultDefinitionDecoder { member_count, ..*old(self) }),
    {
        self.member_count = member_count;
    }

    /// Without at least 2 members set, fails. Else the chunk starts with the
    /// member records still missing (8 bytes each); the rest are pieces
    /// between zero bytes: the first names the template if it has no name
    /// yet, the others name the members in turn, each cut at its first `;`,
    /// until the pieces or the unnamed members run out.
    /// With at least 2 members set, the chunk must hold the member records
    /// still missing.
    open spec fn accepts(&self, buf: Bytes) -> bool {
        self.member_count >= 2 ==> bytes_view(buf).len() >= 8 * records_wanted(*self)
    }

    fn partial_decode(&mut self, buf: Bytes) -> (r: Result<(), Error>)
        ensures
            old(self).member_count < 2 ==> r == Err::<(), Error>(
                Error::Template(TemplateError::MemberCountUnset),
            ) && *final(self) == *old(self),
            old(self).member_count >= 2 ==> ({
                let k = records_wanted(*old(self)) as int;
                let n = old(self).members@.len() as int;
                let s = bytes_view(buf);
                let pieces = zero_pieces(s.skip(8 * k));
                let empty = old(self).name@.len() == 0;
                let names = member_pieces(empty, pieces);
                let t = names_taken(old(self).index, old(self).member_count, names.len()) as int;
                &&& r is Ok
                &&& final(self).member_count == old(self).member_count
                &&& final(self).index == old(self).index + t
                &&& empty ==> final(self).name@ == piece_name(pieces[0])
                &&& !empty ==> final(self).name == old(self).name
                &&& final(self).members@.len() == n + k
                &&& forall|i: int|
                    0 <= i < n ==> #[trigger] same_record(final(self).members@[i], old(self).members@[i])
                &&& forall|j: int|
                    0 <= j < k ==> member_is(s, j, #[trigger] final(self).members@[n + j])
                &&& forall|i: int|
                    0 <= i < n + k ==> (#[trigger] final(self).members@[i]).name@ == if old(self).index <= i < old(self).index + t {
                        piece_name(names[i - old(self).index])
                    } else if i < n {
                        old(self).members@[i].name@
                    } else {
                        Seq::empty()
                    }
            }),
    {
        if self.member_count < 2 {
            return Err(Error::Template(TemplateError::MemberCountUnset));
        }
        let ghost old_self = *self;
        let s = bytes_as_slice(&buf);
        let have = self.members.len();
        let want = self.member_count as usize;
        let k: usize = if have < want { want - have } else { 0 };
        let fresh = read_members(s, k);
        let mut j: usize = 0;
        while j < k
            invariant
                k == fresh@.len(),
                j <= k,
                have == old_self.members@.len(),
                self.members@.len() == have + j,
                self.name == old_self.name,
                self.index == old_self.index,
                self.member_count == old_self.member_count,
                forall|q: int| 0 <= q < have ==> #[trigger] self.members@[q] == old_self.members@[q],
                forall|q: int|
                    0 <= q < j ==> member_is(s@, q, #[trigger] self.members@[have + q])
                        && self.members@[have + q].name@.len() == 0,
                forall|q: int|
                    0 <= q < k ==> member_is(s@, q, #[trigger] fresh@[q]) && fresh@[q].name@.len() == 0,
            decreases k - j,
        {
            let m = MemberInfo {
                name: String::new(),
                array_size: fresh[j].array_size,
                type_info: fresh[j].type_info,
                offset: fresh[j].offset,
            };
            self.members.push(m);
            j += 1;
        }
        let rest = s.split_at(8 * k).1;
        assert(rest@ =~= s@.skip(8 * k as int));
        let ghost pieces = zero_pieces(rest@);
        let empty = self.name.as_str().is_empty();
        let mut more = true;
        let mut pos: usize = 0;
        let mut consumed: usize = 0;
        assert(rest@.skip(0) =~= rest@);
        if empty {
            proof {
                lemma_pieces_step(rest@, 0);
            }
            let end = piece_end(rest, 0);
            let first = rest.split_at(end).0;
            assert(first@ =~= rest@.subrange(0, end as int));
            self.name = name_of(first);
            more = end < rest.len();
            pos = if more { end + 1 } else { end };
            consumed = 1;
        }
        let ghost names = member_pieces(empty, pieces);
        let ghost n = have as int;
        proof {
            assert forall|i: int| 0 <= i < n + k implies (#[trigger] self.members@[i]).name@ == if old_self.index <= i
                < self.index {
                piece_name(names[i - old_self.index])
            } else if i < n {
                old_self.members@[i].name@
            } else {
                Seq::empty()
            } by {
                if i >= n {
                    assert(self.members@[n + (i - n)].name@.len() == 0);
                    assert(self.members@[i].name@ =~= Seq::<char>::empty());
                }
            }
            assert forall|i: int| 0 <= i < n implies #[trigger] same_record(self.members@[i], old_self.members@[i]) by {
                assert(self.members@[i] == old_self.members@[i]);
            }
        }
        while more && self.index < self.member_count
            invariant
                pos <= rest@.len(),
                pieces == zero_pieces(rest@),
                rest@ == s@.skip(8 * k as int),
                names == member_pieces(empty, pieces),
                empty == (old_self.name@.len() == 0),
                empty ==> self.name@ == piece_name(pieces[0]),
                !empty ==> self.name == old_self.name,
                consumed == (if empty { 1int } else { 0int }) + (self.index - old_self.index),
                old_self.index <= self.index,
                self.index <= old_self.member_count || self.index == old_self.index,
                consumed <= pieces.len(),
                more ==> pieces.skip(consumed as int) == zero_pieces(rest@.skip(pos as int)),
                !more ==> consumed == pieces.len(),
                self.member_count == old_self.member_count,
                self.member_count >= 2,
                n == have,
                have == old_self.members@.len(),
                self.members@.len() == n + k,
                n + k >= self.member_count,
                forall|i: int| 0 <= i < n ==> #[trigger] same_record(self.members@[i], old_self.members@[i]),
                forall|q: int| 0 <= q < k ==> member_is(s@, q, #[trigger] self.members@[n + q]),
                forall|i: int|
                    0 <= i < n + k ==> (#[trigger] self.members@[i]).name@ == if old_self.index <= i
                        < self.index {
                        piece_name(names[i - old_self.index])
                    } else if i < n {
                        old_self.members@[i].name@
                    } else {
                        Seq::empty()
                    },
            decreases self.member_count - self.index,
        {
            proof {
                lemma_pieces_step(rest@, pos as int);
            }
            let end = piece_end(rest, pos);
            let piece = rest.split_at(end).0.split_at(pos).1;
            assert(piece@ =~= rest@.subrange(pos as int, end as int));
            let idx = self.index as usize;
            let m = MemberInfo {
                name: name_of(piece),
                array_size: self.members[idx].array_size,
                type_info: self.members[idx].type_info,
                offset: self.members[idx].offset,
            };
            let ghost before = self.members@;
            self.members.set(idx, m);
            proof {
                assert(self.members@ == before.update(idx as int, m));
                assert forall|i: int| 0 <= i < n implies #[trigger] same_record(self.members@[i], old_self.members@[i]) by {
                    assert(same_record(before[i], old_self.members@[i]));
                }
                assert forall|q: int| 0 <= q < k implies member_is(s@, q, #[trigger] self.members@[n + q]) by {
                    assert(member_is(s@, q, before[n + q]));
                    if n + q == idx {
                        assert(same_record(self.members@[n + q], before[n + q]));
                    } else {
                        assert(self.members@[n + q] == before[n + q]);
                    }
                }
                assert(pieces.skip(consumed as int)[0] == pieces[consumed as int]);
                assert(names[self.index - old_self.index] == pieces[consumed as int]);
                if end < rest@.len() {
                    assert(pieces.skip(consumed as int + 1) =~= pieces.skip(consumed as int).skip(1));
                }
            }
            more = end < rest.len();
            pos = if more { end + 1 } else { end };
            consumed = consumed + 1;
            self.index = self.index + 1;
        }
        proof {
            let t = names_taken(old_self.index, old_self.member_count, names.len()) as int;
            assert(self.index == old_self.index + t);
        }
        Ok(())
    }

    /// Without at least 2 members set, or with members still unnamed,
    /// fails and changes nothing; else gives the name and the members (one
    /// for each name, the last of that name) and resets the decoder.
    fn decode(&mut self) -> (r: Result<TemplateDefinition, Error>)
        ensures
            old(self).member_count < 2 ==> r == Err::<TemplateDefinition, Error>(
                Error::Template(TemplateError::MemberCountUnset),
            ) && *final(self) == *old(self),
            old(self).member_count >= 2 && old(self).index < old(self).member_count ==> r == Err::<
                TemplateDefinition,
                Error,
            >(Error::Template(TemplateError::NotEnoughData)) && *final(self) == *old(self),
            old(self).member_count >= 2 && old(self).index >= old(self).member_count ==> (r matches Ok(
                def,
            ) && def.name == old(self).name && def.members@ == keep_last(
                old(self).members@,
                old(self).members@.len() as int,
            ) && final(self).name@.len() == 0 && final(self).members@.len() == 0 && final(self).member_count == 0
                && final(self).index == 0),
    {
        if self.member_count < 2 {
            return Err(Error::Template(TemplateError::MemberCountUnset));
        }
        if self.index < self.member_count {
            return Err(Error::Template(TemplateError::NotEnoughData));
        }
        self.index = 0;
        self.member_count = 0;
        let mut name = String::new();
        std::mem::swap(&mut name, &mut self.name);
        let mut members: Vec<MemberInfo> = Vec::new();
        std::mem::swap(&mut members, &mut self.members);
        let members = keep_last_members(members);
        Ok(TemplateDefinition { name, members })
    }
}

} // verus!
