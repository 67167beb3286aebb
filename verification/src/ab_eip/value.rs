//! Tag types and tag values of AB controllers.

use crate::buf::{bytes_as_slice, bytes_len, bytes_mut_view, bytes_slice, bytes_view, le16, le_read_u16, put_slice, put_u16_le, read_le16};
use crate::codec::{Decodable, Encodable};
use crate::error::Error;
use bytes::{Bytes, BytesMut};
use vstd::prelude::*;

verus! {

/// tag type for AB PLC
#[derive(Debug, Clone, Copy, PartialEq, Eq)]
pub enum TagType {
    /// atomic data type: BOOL
    Bool,
    /// atomic data type: DWORD, 32-bit boolean array
    Dword,
    /// atomic data type: SINT, 8-bit integer
    Sint,
    /// atomic data type: INT, 16-bit integer
    Int,
    /// atomic data type: DINT, 32-bit integer
    Dint,
    /// atomic data type: LINT, 64-bit integer
    Lint,
    /// atomic data type: REAL, 32-bit float
    Real,
    /// structured tag
    Structure(u16),
}

/// The two byte type code of a tag type.
pub open spec fn spec_type_code(t: TagType) -> u16 {
    match t {
        TagType::Bool => 0xC1,
        TagType::Dword => 0xD3,
        TagType::Sint => 0xC2,
        TagType::Int => 0xC3,
        TagType::Dint => 0xC4,
        TagType::Lint => 0xC5,
        TagType::Real => 0xCA,
        TagType::Structure(_) => 0x02A0,
    }
}

/// The encoding of a tag type: its type code, then the structure handle
/// for structures.
pub open spec fn tag_type_bytes(t: TagType) -> Seq<u8> {
    match t {
        TagType::Structure(handle) => le16(0x02A0) + le16(handle),
        _ => le16(spec_type_code(t)),
    }
}

/// Decoding a tag type from the front of `s`: at least 3 bytes must be
/// there; a structure needs 2 more bytes after the type code.
pub open spec fn spec_decode_tag_type(s: Seq<u8>) -> Result<(TagType, nat), Error> {
    if s.len() < 3 {
        Err(Error::InvalidLength { actual: s.len() as usize, expected: 3 })
    } else {
        let code = read_le16(s, 0);
        if code == 0xC2 {
            Ok((TagType::Sint, 2))
        } else if code == 0xC3 {
            Ok((TagType::Int, 2))
        } else if code == 0xC4 {
            Ok((TagType::Dint, 2))
        } else if code == 0xCA {
            Ok((TagType::Real, 2))
        } else if code == 0xD3 {
            Ok((TagType::Dword, 2))
        } else if code == 0xC5 {
            Ok((TagType::Lint, 2))
        } else if code == 0xC1 {
            Ok((TagType::Bool, 2))
        } else if code == 0x02A0 {
            if s.len() - 2 < 2 {
                Err(Error::InvalidLength { actual: (s.len() - 2) as usize, expected: 2 })
            } else {
                Ok((TagType::Structure(read_le16(s, 2)), 4))
            }
        } else {
            Err(Error::UnexpectedTypeCode(code))
        }
    }
}

impl TagType {
    /// two bytes type code
    pub fn type_code(&self) -> (c: u16)
        ensures
            c == spec_type_code(*self),
    {
        match self {
            TagType::Bool => 0xC1,
            TagType::Dword => 0xD3,
            TagType::Sint => 0xC2,
            TagType::Int => 0xC3,
            TagType::Dint => 0xC4,
            TagType::Lint => 0xC5,
            TagType::Real => 0xCA,
            TagType::Structure(_) => 0x02A0,
        }
    }

    /// is it a structure
    pub fn is_structure(&self) -> (b: bool)
        ensures
            b == (*self is Structure),
    {
        match self {
            TagType::Structure(_) => true,
            _ => false,
        }
    }

    /// is it a atomic type
    pub fn is_atomic(&self) -> (b: bool)
        ensures
            b == !(*self is Structure),
    {
        !self.is_structure()
    }

    /// get structure handle if it's a structure
    pub fn structure_handle(&self) -> (h: Option<u16>)
        ensures
            h == (match *self {
                TagType::Structure(v) => Some(v),
                _ => None,
            }),
    {
        match self {
            TagType::Structure(v) => Some(*v),
            _ => None,
        }
    }

    /// Reads a tag type from the front of `s`.
    pub fn decode(s: &[u8]) -> (r: Result<(TagType, usize), Error>)
        ensures
            match spec_decode_tag_type(s@) {
                Ok((t, n)) => r == Ok::<(TagType, usize), Error>((t, n as usize)) && n <= s@.len(),
                Err(e) => r == Err::<(TagType, usize), Error>(e),
            },
    {
        let len = s.len();
        if len < 3 {
            return Err(Error::InvalidLength { actual: len, expected: 3 });
        }
        let type_code = le_read_u16(s, 0);
        let val = match type_code {
            0xC2 => TagType::Sint,
            0xC3 => TagType::Int,
            0xC4 => TagType::Dint,
            0xCA => TagType::Real,
            0xD3 => TagType::Dword,
            0xC5 => TagType::Lint,
            0xC1 => TagType::Bool,
            0x02A0 => {
                if len - 2 < 2 {
                    return Err(Error::InvalidLength { actual: len - 2, expected: 2 });
                }
                return Ok((TagType::Structure(le_read_u16(s, 2)), 4));
            },
            _ => return Err(Error::UnexpectedTypeCode(type_code)),
        };
        Ok((val, 2))
    }
}

impl Encodable for TagType {
    open spec fn encodable(&self) -> bool {
        true
    }

    open spec fn encoding(&self) -> Seq<u8> {
        tag_type_bytes(*self)
    }

    fn encode(self, dst: &mut BytesMut) -> (r: Result<(), Error>) {
        let ghost start = bytes_mut_view(*dst);
        match self {
            TagType::Structure(handle) => {
                put_u16_le(dst, 0x02A0);
                put_u16_le(dst, handle);
            },
            _ => {
                put_u16_le(dst, self.type_code());
            },
        }
        assert(bytes_mut_view(*dst) =~= start + tag_type_bytes(self));
        Ok(())
    }

    fn bytes_count(&self) -> (n: usize) {
        match self {
            TagType::Structure(_) => 4,
            _ => 2,
        }
    }
}

/// Reading back an encoded tag type gives it back, provided at least one
/// byte follows it (the decoder wants 3 bytes before it looks at the code).
pub proof fn lemma_tag_type_roundtrip(t: TagType, tail: Seq<u8>)
    requires
        tail.len() >= 1,
    ensures
        spec_decode_tag_type(tag_type_bytes(t) + tail) == Ok::<(TagType, nat), Error>(
            (t, tag_type_bytes(t).len()),
        ),
{
    let s = tag_type_bytes(t) + tail;
    assert(s[0] == tag_type_bytes(t)[0]);
    assert(s[1] == tag_type_bytes(t)[1]);
    if let TagType::Structure(h) = t {
        assert(s[2] == le16(h)[0]);
        assert(s[3] == le16(h)[1]);
    }
}

/// A tag value: its type and its value.
#[derive(Debug, Clone, PartialEq, Eq)]
pub struct TagValue<V> {
    pub tag_type: TagType,
    pub value: V,
}

/// A single (atomic) value: tag type, element count 1, the value.
impl<V: Encodable> Encodable for TagValue<V> {
    open spec fn encodable(&self) -> bool {
        self.value.encodable() && 6 + self.value.encoding().len() <= usize::MAX
    }

    open spec fn encoding(&self) -> Seq<u8> {
        tag_type_bytes(self.tag_type) + seq![1u8, 0u8] + self.value.encoding()
    }

    fn encode(self, dst: &mut BytesMut) -> (r: Result<(), Error>) {
        let ghost start = bytes_mut_view(*dst);
        let _ = self.tag_type.encode(dst);
        let one: &[u8] = &[1, 0];
        put_slice(dst, one);
        let r = self.value.encode(dst);
        assert(bytes_mut_view(*dst) =~= start + (tag_type_bytes(self.tag_type) + seq![1u8, 0u8]
            + self.value.encoding()));
        r
    }

    fn bytes_count(&self) -> (n: usize) {
        self.tag_type.bytes_count() + 2 + self.value.bytes_count()
    }
}

/// The concatenated encodings of a sequence of values.
pub open spec fn items_encoding<T: Encodable>(s: Seq<T>) -> Seq<u8>
    decreases s.len(),
{
    if s.len() == 0 {
        Seq::empty()
    } else {
        items_encoding(s.drop_last()) + s.last().encoding()
    }
}

proof fn lemma_items_encoding_step<T: Encodable>(s: Seq<T>, i: int)
    requires
        0 <= i < s.len(),
    ensures
        items_encoding(s.take(i + 1)) == items_encoding(s.take(i)) + s[i].encoding(),
{
    assert(s.take(i + 1).drop_last() =~= s.take(i));
}

proof fn lemma_items_encoding_prefix_len<T: Encodable>(s: Seq<T>, i: int)
    requires
        0 <= i <= s.len(),
    ensures
        items_encoding(s.take(i)).len() <= items_encoding(s).len(),
    decreases s.len() - i,
{
    if i < s.len() {
        lemma_items_encoding_step(s, i);
        lemma_items_encoding_prefix_len(s, i + 1);
    } else {
        assert(s.take(i) =~= s);
    }
}

/// An array value: tag type, element count, the elements.
impl<T: Encodable> Encodable for TagValue<Vec<T>> {
    /// Each element encodable, at most 0xFFFF of them.
    open spec fn encodable(&self) -> bool {
        &&& forall|i: int| 0 <= i < self.value@.len() ==> (#[trigger] self.value@[i]).encodable()
        &&& self.value@.len() <= 0xFFFF
        &&& 6 + items_encoding(self.value@).len() <= usize::MAX
    }

    open spec fn encoding(&self) -> Seq<u8> {
        tag_type_bytes(self.tag_type) + le16(self.value@.len() as u16) + items_encoding(self.value@)
    }

    fn encode(self, dst: &mut BytesMut) -> (r: Result<(), Error>) {
        let ghost start = bytes_mut_view(*dst);
        let ghost items = self.value@;
        let ghost head = tag_type_bytes(self.tag_type) + le16(self.value@.len() as u16);
        let _ = self.tag_type.encode(dst);
        put_u16_le(dst, self.value.len() as u16);
        let mut v = self.value;
        let n = v.len();
        let mut i: usize = 0;
        let mut res: Result<(), Error> = Ok(());
        assert(items.take(0) =~= Seq::<T>::empty());
        while i < n
            invariant
                n == items.len(),
                i <= n,
                v@ == items.skip(i as int),
                forall|k: int| 0 <= k < items.len() ==> (#[trigger] items[k]).encodable(),
                6 + items_encoding(items).len() <= usize::MAX,
                start.len() + head.len() + items_encoding(items).len() <= usize::MAX,
                head.len() <= 6,
                bytes_mut_view(*dst) == start + head + items_encoding(items.take(i as int)),
                res is Ok,
            decreases n - i,
        {
            proof {
                lemma_items_encoding_step(items, i as int);
                lemma_items_encoding_prefix_len(items, i as int + 1);
                assert(items[i as int] == v@[0]);
            }
            let item = v.remove(0);
            assert(v@ =~= items.skip(i as int + 1));
            let _ = item.encode(dst);
            assert(bytes_mut_view(*dst) =~= start + head + items_encoding(items.take(i as int + 1)));
            i += 1;
        }
        assert(items.take(n as int) =~= items);
        assert(bytes_mut_view(*dst) =~= start + self.encoding());
        res
    }

    fn bytes_count(&self) -> (c: usize) {
        let n = self.value.len();
        let mut i: usize = 0;
        let mut total: usize = 0;
        assert(self.value@.take(0) =~= Seq::<T>::empty());
        while i < n
            invariant
                n == self.value@.len(),
                i <= n,
                forall|k: int| 0 <= k < self.value@.len() ==> (#[trigger] self.value@[k]).encodable(),
                6 + items_encoding(self.value@).len() <= usize::MAX,
                total == items_encoding(self.value@.take(i as int)).len(),
            decreases n - i,
        {
            proof {
                lemma_items_encoding_step(self.value@, i as int);
                lemma_items_encoding_prefix_len(self.value@, i as int + 1);
            }
            total = total + self.value[i].bytes_count();
            i += 1;
        }
        assert(self.value@.take(n as int) =~= self.value@);
        self.tag_type.bytes_count() + 2 + total
    }
}

impl<V: Decodable> TagValue<V> {
    /// Reads a tag type and one value after it.
    pub fn decode(s: &[u8]) -> (r: Result<TagValue<V>, Error>)
        ensures
            match spec_decode_tag_type(s@) {
                Err(e) => r == Err::<TagValue<V>, Error>(e),
                Ok((t, n)) => match V::decoded(s@.skip(n as int)) {
                    Err(e) => r == Err::<TagValue<V>, Error>(e),
                    Ok((v, m)) => r == Ok::<TagValue<V>, Error>(TagValue { tag_type: t, value: v }),
                },
            },
    {
        let (tag_type, n) = TagType::decode(s)?;
        let rest = s.split_at(n).1;
        assert(rest@ =~= s@.skip(n as int));
        let (value, _) = V::decode(rest)?;
        Ok(TagValue { tag_type, value })
    }
}

/// Values read one after another from `s` until it runs out, or the error
/// of the first that cannot be read.
pub open spec fn spec_decode_items<T: Decodable>(s: Seq<u8>) -> Result<Seq<T>, Error>
    decreases s.len(),
{
    if s.len() == 0 {
        Ok(Seq::empty())
    } else {
        match T::decoded(s) {
            Err(e) => Err(e),
            Ok((v, n)) => if 0 < n <= s.len() {
                match spec_decode_items::<T>(s.skip(n as int)) {
                    Ok(rest) => Ok(seq![v] + rest),
                    Err(e) => Err(e),
                }
            } else {
                Err(Error::InvalidValue)
            },
        }
    }
}

impl<T: Decodable> TagValue<Vec<T>> {
    /// Reads a tag type, then values until the bytes run out.
    pub fn decode_all(s: &[u8]) -> (r: Result<TagValue<Vec<T>>, Error>)
        ensures
            match spec_decode_tag_type(s@) {
                Err(e) => r == Err::<TagValue<Vec<T>>, Error>(e),
                Ok((t, n)) => match spec_decode_items::<T>(s@.skip(n as int)) {
                    Err(e) => r == Err::<TagValue<Vec<T>>, Error>(e),
                    Ok(items) => r matches Ok(tv) && tv.tag_type == t && tv.value@ == items,
                },
            },
    {
        let (tag_type, n) = TagType::decode(s)?;
        let rest = s.split_at(n).1;
        assert(rest@ =~= s@.skip(n as int));
        let len = rest.len();
        let mut pos: usize = 0;
        let mut data: Vec<T> = Vec::new();
        assert(rest@.skip(0) =~= rest@);
        while pos < len
            invariant
                len == rest@.len(),
                rest@ == s@.skip(n as int),
                spec_decode_tag_type(s@) matches Ok((t0, n0)) && t0 == tag_type && n0 == n,
                pos <= len,
                spec_decode_items::<T>(rest@) == match spec_decode_items::<T>(rest@.skip(pos as int)) {
                    Ok(more) => Ok(data@ + more),
                    Err(e) => Err::<Seq<T>, Error>(e),
                },
            decreases len - pos,
        {
            let tail = rest.split_at(pos).1;
            assert(tail@ =~= rest@.skip(pos as int));
            let (v, m) = T::decode(tail)?;
            proof {
                assert(rest@.skip(pos as int).skip(m as int) =~= rest@.skip(pos as int + m as int));
                assert(data@.push(v) =~= data@ + seq![v]);
                assert forall|more: Seq<T>| true implies data@ + (seq![v] + more) == data@.push(v) + more by {
                    assert(data@ + (seq![v] + more) =~= data@.push(v) + more);
                }
            }
            data.push(v);
            pos = pos + m;
        }
        assert(rest@.skip(len as int) =~= Seq::<u8>::empty());
        assert(data@ + Seq::<T>::empty() =~= data@);
        Ok(TagValue { tag_type, value: data })
    }
}

impl TagValue<Bytes> {
    /// Reads a tag type and takes the rest as the value.
    pub fn decode_bytes(buf: &Bytes) -> (r: Result<TagValue<Bytes>, Error>)
        ensures
            match spec_decode_tag_type(bytes_view(*buf)) {
                Err(e) => r == Err::<TagValue<Bytes>, Error>(e),
                Ok((t, n)) => r matches Ok(tv) && tv.tag_type == t && bytes_view(tv.value)
                    == bytes_view(*buf).skip(n as int),
            },
    {
        let (tag_type, n) = TagType::decode(bytes_as_slice(buf))?;
        let value = bytes_slice(buf, n, bytes_len(buf));
        assert(bytes_view(value) =~= bytes_view(*buf).skip(n as int));
        Ok(TagValue { tag_type, value })
    }
}

/// Values of a tag read one at a time, of any decodable type.
#[derive(Debug)]
pub struct TagValueIter {
    pub tag_type: TagType,
    /// the bytes not read yet
    pub data: Bytes,
}

impl TagValueIter {
    /// The tag type.
    pub fn tag_type(&self) -> (t: TagType)
        ensures
            t == self.tag_type,
    {
        self.tag_type
    }

    /// Reads the tag type; the values follow it.
    pub fn from_bytes(buf: Bytes) -> (r: Result<TagValueIter, Error>)
        ensures
            match spec_decode_tag_type(bytes_view(buf)) {
                Err(e) => r == Err::<TagValueIter, Error>(e),
                Ok((t, n)) => r matches Ok(it) && it.tag_type == t && bytes_view(it.data)
                    == bytes_view(buf).skip(n as int),
            },
    {
        let (tag_type, n) = TagType::decode(bytes_as_slice(&buf))?;
        let data = bytes_slice(&buf, n, bytes_len(&buf));
        assert(bytes_view(data) =~= bytes_view(buf).skip(n as int));
        Ok(TagValueIter { tag_type, data })
    }

    /// The next value: none when the bytes have run out; else the value at
    /// their front, which is then consumed, or why it cannot be read (and
    /// nothing is consumed).
    pub fn next<T: Decodable>(&mut self) -> (r: Option<Result<T, Error>>)
        ensures
            final(self).tag_type == old(self).tag_type,
            bytes_view(old(self).data).len() == 0 ==> r is None && bytes_view(final(self).data)
                == bytes_view(old(self).data),
            bytes_view(old(self).data).len() > 0 ==> match T::decoded(bytes_view(old(self).data)) {
                Ok((v, n)) => r == Some(Ok::<T, Error>(v)) && bytes_view(final(self).data) == bytes_view(
                    old(self).data,
                ).skip(n as int),
                Err(e) => r == Some(Err::<T, Error>(e)) && bytes_view(final(self).data) == bytes_view(
                    old(self).data,
                ),
            },
    {
        let len = bytes_len(&self.data);
        if len == 0 {
            return None;
        }
        match T::decode(bytes_as_slice(&self.data)) {
            Ok((v, m)) => {
                let ghost before = bytes_view(self.data);
                self.data = bytes_slice(&self.data, m, len);
                assert(bytes_view(self.data) =~= before.skip(m as int));
                Some(Ok(v))
            },
            Err(e) => Some(Err(e)),
        }
    }
}

/// Values of a tag read one at a time, all of type `T`.
#[derive(Debug)]
pub struct TagValueTypedIter<T> {
    pub inner: TagValueIter,
    pub marker: core::marker::PhantomData<T>,
}

impl<T: Decodable> TagValueTypedIter<T> {
    /// The tag type.
    pub fn tag_type(&self) -> (t: TagType)
        ensures
            t == self.inner.tag_type,
    {
        self.inner.tag_type
    }

    /// Reads the tag type; the values follow it.
    pub fn from_bytes(buf: Bytes) -> (r: Result<TagValueTypedIter<T>, Error>)
        ensures
            match spec_decode_tag_type(bytes_view(buf)) {
                Err(e) => r == Err::<TagValueTypedIter<T>, Error>(e),
                Ok((t, n)) => r matches Ok(it) && it.inner.tag_type == t && bytes_view(it.inner.data)
                    == bytes_view(buf).skip(n as int),
            },
    {
        let inner = TagValueIter::from_bytes(buf)?;
        Ok(TagValueTypedIter { inner, marker: core::marker::PhantomData })
    }

    /// The next value, as `TagValueIter::next` reads it.
    pub fn next(&mut self) -> (r: Option<Result<T, Error>>)
        ensures
            final(self).inner.tag_type == old(self).inner.tag_type,
            bytes_view(old(self).inner.data).len() == 0 ==> r is None && bytes_view(
                final(self).inner.data,
            ) == bytes_view(old(self).inner.data),
            bytes_view(old(self).inner.data).len() > 0 ==> match T::decoded(
                bytes_view(old(self).inner.data),
            ) {
                Ok((v, n)) => r == Some(Ok::<T, Error>(v)) && bytes_view(final(self).inner.data)
                    == bytes_view(old(self).inner.data).skip(n as int),
                Err(e) => r == Some(Err::<T, Error>(e)) && bytes_view(final(self).inner.data)
                    == bytes_view(old(self).inner.data),
            },
    {
        self.inner.next::<T>()
    }
}

} // verus!
