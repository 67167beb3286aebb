//! Common packet format: a counted list of typed items.

use crate::buf::{bytes_as_slice, bytes_len, bytes_slice, bytes_view, le_read_u16, read_le16};
use crate::consts::COMMON_PACKET_MAX_ITEM_COUNT;
use crate::error::{EipError, Error};
use bytes::Bytes;
use vstd::prelude::*;

verus! {

/// An item of a common packet: type code and data.
#[derive(Debug, Clone)]
pub struct CommonPacketItem {
    pub type_code: u16,
    pub data: Bytes,
}

/// Encoded bytes of a sequence of items: type, length and data each.
pub open spec fn items_bytes_count(items: Seq<CommonPacketItem>) -> nat
    decreases items.len(),
{
    if items.len() == 0 {
        0
    } else {
        items_bytes_count(items.drop_last()) + 4 + bytes_view(items.last().data).len()
    }
}

proof fn lemma_items_bytes_count_prefix(items: Seq<CommonPacketItem>, i: int)
    requires
        0 <= i <= items.len(),
    ensures
        items_bytes_count(items.take(i)) <= items_bytes_count(items),
    decreases items.len() - i,
{
    if i < items.len() {
        assert(items.take(i + 1).drop_last() =~= items.take(i));
        lemma_items_bytes_count_prefix(items, i + 1);
    } else {
        assert(items.take(i) =~= items);
    }
}

/// The items of a common packet.
#[derive(Debug)]
pub struct CommonPacket(pub Vec<CommonPacketItem>);

impl CommonPacketItem {
    /// null address item?
    pub fn is_null_addr(&self) -> (b: bool)
        ensures
            b == (self.type_code == 0 && bytes_view(self.data).len() == 0),
    {
        self.type_code == 0 && bytes_len(&self.data) == 0
    }

    /// Checks the item's type code.
    pub fn ensure_type_code(&self, type_code: u16) -> (r: Result<(), Error>)
        ensures
            r is Ok <==> self.type_code == type_code,
            r matches Err(e) ==> e == Error::Eip(EipError::InvalidData),
    {
        if self.type_code != type_code {
            Err(Error::Eip(EipError::InvalidData))
        } else {
            Ok(())
        }
    }

    /// encoded bytes count: type, length, data
    pub fn bytes_count(&self) -> (n: usize)
        requires
            bytes_view(self.data).len() + 4 <= usize::MAX,
        ensures
            n == 4 + bytes_view(self.data).len(),
    {
        4 + bytes_len(&self.data)
    }
}

impl CommonPacket {
    /// number of items
    pub fn len(&self) -> (n: usize)
        ensures
            n == self.0@.len(),
    {
        self.0.len()
    }

    /// Encoded bytes count: the item count and each item's type, length
    /// and data.
    pub fn bytes_count(&self) -> (n: usize)
        requires
            2 + items_bytes_count(self.0@) <= usize::MAX,
        ensures
            n == 2 + items_bytes_count(self.0@),
    {
        let len = self.0.len();
        let mut total: usize = 2;
        let mut i: usize = 0;
        while i < len
            invariant
                len == self.0@.len(),
                i <= len,
                2 + items_bytes_count(self.0@) <= usize::MAX,
                total == 2 + items_bytes_count(self.0@.take(i as int)),
            decreases len - i,
        {
            proof {
                assert(self.0@.take(i as int + 1).drop_last() =~= self.0@.take(i as int));
                lemma_items_bytes_count_prefix(self.0@, i as int + 1);
            }
            total = total + self.0[i].bytes_count();
            i += 1;
        }
        assert(self.0@.take(len as int) =~= self.0@);
        total
    }

    /// the items
    pub fn into_vec(self) -> (v: Vec<CommonPacketItem>)
        ensures
            v@ == self.0@,
    {
        self.0
    }
}

/// `n` items at the front of `s`, each a type code, a data length and that
/// many data bytes, with what follows them.
pub open spec fn spec_cpf_items(s: Seq<u8>, n: nat) -> Option<(Seq<(u16, Seq<u8>)>, Seq<u8>)>
    decreases n,
{
    if n == 0 {
        Some((Seq::empty(), s))
    } else if s.len() < 4 {
        None
    } else {
        let len = read_le16(s, 2) as int;
        if s.len() < 4 + len {
            None
        } else {
            match spec_cpf_items(s.skip(4 + len), (n - 1) as nat) {
                Some((items, rest)) => Some(
                    (seq![(read_le16(s, 0), s.subrange(4, 4 + len))] + items, rest),
                ),
                None => None,
            }
        }
    }
}

/// A common packet: item count (at most `COMMON_PACKET_MAX_ITEM_COUNT`),
/// then exactly that many items and nothing after them.
pub open spec fn spec_decode_cpf(s: Seq<u8>) -> Option<Seq<(u16, Seq<u8>)>> {
    if s.len() < 2 {
        None
    } else {
        let count = read_le16(s, 0);
        if count > COMMON_PACKET_MAX_ITEM_COUNT {
            None
        } else {
            match spec_cpf_items(s.skip(2), count as nat) {
                Some((items, rest)) => if rest.len() == 0 {
                    Some(items)
                } else {
                    None
                },
                None => None,
            }
        }
    }
}

/// The items are those that `v` lists.
pub open spec fn items_are(items: Seq<CommonPacketItem>, v: Seq<(u16, Seq<u8>)>) -> bool {
    &&& items.len() == v.len()
    &&& forall|i: int|
        0 <= i < items.len() ==> (#[trigger] items[i]).type_code == v[i].0 && bytes_view(
            items[i].data,
        ) == v[i].1
}

impl CommonPacket {
    /// Decodes a common packet.
    pub fn decode(buf: &Bytes) -> (r: Result<CommonPacket, Error>)
        ensures
            match spec_decode_cpf(bytes_view(*buf)) {
                Some(v) => r matches Ok(p) && items_are(p.0@, v),
                None => r == Err::<CommonPacket, Error>(Error::Eip(EipError::InvalidData)),
            },
    {
        let ghost s0 = bytes_view(*buf);
        if bytes_len(buf) < 2 {
            return Err(Error::Eip(EipError::InvalidData));
        }
        let item_count = le_read_u16(bytes_as_slice(buf), 0);
        if item_count > COMMON_PACKET_MAX_ITEM_COUNT {
            return Err(Error::Eip(EipError::InvalidData));
        }
        let mut rest = bytes_slice(buf, 2, bytes_len(buf));
        assert(bytes_view(rest) =~= s0.skip(2));
        let mut items: Vec<CommonPacketItem> = Vec::new();
        let mut i: u16 = 0;
        let ghost mut done: Seq<(u16, Seq<u8>)> = Seq::empty();
        while i < item_count
            invariant
                0 <= i <= item_count,
                s0 == bytes_view(*buf),
                item_count <= COMMON_PACKET_MAX_ITEM_COUNT,
                item_count == read_le16(s0, 0),
                s0.len() >= 2,
                items_are(items@, done),
                done.len() == i,
                spec_cpf_items(s0.skip(2), item_count as nat) == match spec_cpf_items(
                    bytes_view(rest),
                    (item_count - i) as nat,
                ) {
                    Some((more, r)) => Some((done + more, r)),
                    None => None::<(Seq<(u16, Seq<u8>)>, Seq<u8>)>,
                },
            decreases item_count - i,
        {
            let ghost cur = bytes_view(rest);
            let len = bytes_len(&rest);
            if len < 4 {
                return Err(Error::Eip(EipError::InvalidData));
            }
            let data = bytes_as_slice(&rest);
            let type_code = le_read_u16(data, 0);
            let item_length = le_read_u16(data, 2) as usize;
            if len < 4 + item_length {
                return Err(Error::Eip(EipError::InvalidData));
            }
            let item_data = bytes_slice(&rest, 4, 4 + item_length);
            items.push(CommonPacketItem { type_code, data: item_data });
            rest = bytes_slice(&rest, 4 + item_length, len);
            proof {
                assert(bytes_view(rest) =~= cur.skip(4 + item_length as int));
                let ghost old_done = done;
                done = done.push((type_code, cur.subrange(4, 4 + item_length as int)));
                assert forall|k: int| 0 <= k < items@.len() implies (#[trigger] items@[k]).type_code
                    == done[k].0 && bytes_view(items@[k].data) == done[k].1 by {
                    if k < old_done.len() {
                        assert(items@[k] == items@.drop_last()[k]);
                    }
                }
                if let Some((more, r)) = spec_cpf_items(bytes_view(rest), (item_count - i - 1) as nat) {
                    assert(old_done + (seq![(type_code, cur.subrange(4, 4 + item_length as int))] + more)
                        =~= done + more);
                }
            }
            i += 1;
        }
        if bytes_len(&rest) != 0 {
            return Err(Error::Eip(EipError::InvalidData));
        }
        assert(done + Seq::<(u16, Seq<u8>)>::empty() =~= done);
        Ok(CommonPacket(items))
    }
}

} // verus!
