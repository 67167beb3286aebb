//! A tag value by its type: one atomic value or the data of a structure,
//! as read from a Read Tag reply and as written by Write Tag.

use crate::ab_eip::value::{spec_type_code, TagType};
use crate::buf::{
    bytes_as_slice, bytes_len, bytes_mut_view, bytes_slice, bytes_view, le16, le32, le64,
    le_read_u16, le_read_u32, le_read_u64, put_u16_le, put_u32_le, put_u64_le, put_u8,
    read_le16, read_le32, read_le64,
};
use crate::codec::Encodable;
use crate::eip::encapsulation::{lemma_le16_roundtrip, lemma_le32_roundtrip};
use crate::error::Error;
use bytes::{Bytes, BytesMut};
use vstd::prelude::*;

verus! {

/// A tag value. REAL is carried as the bit pattern of its IEEE 754 single
/// precision value.
#[derive(Debug)]
pub enum TagValue<D> {
    /// atomic data type: BOOL
    Bool(bool),
    /// atomic data type: DWORD, 32-bit boolean array
    Dword(u32),
    /// atomic data type: SINT, 8-bit integer
    Sint(i8),
    /// atomic data type: INT, 16-bit integer
    Int(i16),
    /// atomic data type: DINT, 32-bit integer
    Dint(i32),
    /// atomic data type: LINT, 64-bit integer
    Lint(i64),
    /// atomic data type: REAL, 32-bit float (its bits)
    Real(u32),
    /// structured tag
    Structure {
        /// type handle
        handle: u16,
        /// tag data
        data: D,
    },
}

impl<D> TagValue<D> {
    /// The type of the value.
    pub open spec fn spec_tag_type(&self) -> TagType {
        match self {
            TagValue::Bool(_) => TagType::Bool,
            TagValue::Dword(_) => TagType::Dword,
            TagValue::Sint(_) => TagType::Sint,
            TagValue::Int(_) => TagType::Int,
            TagValue::Dint(_) => TagType::Dint,
            TagValue::Lint(_) => TagType::Lint,
            TagValue::Real(_) => TagType::Real,
            TagValue::Structure { handle, .. } => TagType::Structure(*handle),
        }
    }

    /// The type of the value.
    pub fn tag_type(&self) -> (t: TagType)
        ensures
            t == self.spec_tag_type(),
    {
        match self {
            TagValue::Bool(_) => TagType::Bool,
            TagValue::Dword(_) => TagType::Dword,
            TagValue::Sint(_) => TagType::Sint,
            TagValue::Int(_) => TagType::Int,
            TagValue::Dint(_) => TagType::Dint,
            TagValue::Lint(_) => TagType::Lint,
            TagValue::Real(_) => TagType::Real,
            TagValue::Structure { handle, .. } => TagType::Structure(*handle),
        }
    }
}

/// Bytes that hold a tag value of a known type: a type code among BOOL,
/// SINT, INT, DINT, REAL, DWORD, LINT and structure, followed by enough
/// bytes for its value.
pub open spec fn tag_value_readable(s: Seq<u8>) -> bool {
    &&& s.len() >= 4
    &&& {
        let c = read_le16(s, 0);
        if c == 0xC2 || c == 0xC3 {
            true
        } else if c == 0xC4 || c == 0xCA || c == 0xD3 {
            s.len() >= 6
        } else if c == 0xC5 {
            s.len() >= 10
        } else if c == 0xC1 {
            s.len() >= 5
        } else {
            c == 0x02A0 && s.len() > 4
        }
    }
}

/// The value that `s` holds: the type code, then the value right after
/// it (BOOL at byte 4). For a structure, the type handle follows the type
/// code and the data is everything after the handle.
pub open spec fn tag_value_is(s: Seq<u8>, v: TagValue<Bytes>) -> bool {
    let c = read_le16(s, 0);
    if c == 0xC2 {
        v == TagValue::<Bytes>::Sint(s[2] as i8)
    } else if c == 0xC3 {
        v == TagValue::<Bytes>::Int(read_le16(s, 2) as i16)
    } else if c == 0xC4 {
        v == TagValue::<Bytes>::Dint(read_le32(s, 2) as i32)
    } else if c == 0xCA {
        v == TagValue::<Bytes>::Real(read_le32(s, 2))
    } else if c == 0xD3 {
        v == TagValue::<Bytes>::Dword(read_le32(s, 2))
    } else if c == 0xC5 {
        v == TagValue::<Bytes>::Lint(read_le64(s, 2) as i64)
    } else if c == 0xC1 {
        v == TagValue::<Bytes>::Bool(s[4] == 255)
    } else {
        v matches TagValue::Structure { handle, data } && handle == read_le16(s, 2)
            && bytes_view(data) == s.skip(4)
    }
}

impl TagValue<Bytes> {
    /// Reads a tag value from the bytes of a Read Tag reply.
    pub fn try_from(src: Bytes) -> (r: Result<TagValue<Bytes>, Error>)
        requires
            tag_value_readable(bytes_view(src)),
        ensures
            r matches Ok(v) && tag_value_is(bytes_view(src), v),
    {
        let s = bytes_as_slice(&src);
        let type_code = le_read_u16(s, 0);
        let val = match type_code {
            0xC2 => TagValue::Sint(s[2] as i8),
            0xC3 => TagValue::Int(le_read_u16(s, 2) as i16),
            0xC4 => TagValue::Dint(le_read_u32(s, 2) as i32),
            0xCA => TagValue::Real(le_read_u32(s, 2)),
            0xD3 => TagValue::Dword(le_read_u32(s, 2)),
            0xC5 => TagValue::Lint(le_read_u64(s, 2) as i64),
            0xC1 => TagValue::Bool(s[4] == 255),
            _ => {
                let handle = le_read_u16(s, 2);
                let data = bytes_slice(&src, 4, bytes_len(&src));
                assert(bytes_view(data) =~= bytes_view(src).skip(4));
                TagValue::Structure { handle, data }
            },
        };
        Ok(val)
    }
}

impl<D: Encodable> Encodable for TagValue<D> {
    open spec fn encodable(&self) -> bool {
        match self {
            TagValue::Structure { data, .. } => data.encodable() && 4 + data.encoding().len()
                <= usize::MAX,
            _ => true,
        }
    }

    /// Type code, element count 1 and the value (BOOL as 0xFF or 0 and a
    /// pad byte, SINT with a pad byte); a structure as its type code, its
    /// handle and its data.
    open spec fn encoding(&self) -> Seq<u8> {
        match self {
            TagValue::Bool(v) => le16(0xC1) + seq![1u8, 0u8] + seq![
                if *v {
                    255u8
                } else {
                    0u8
                },
                0u8,
            ],
            TagValue::Sint(v) => le16(0xC2) + seq![1u8, 0u8] + seq![*v as u8, 0u8],
            TagValue::Int(v) => le16(0xC3) + seq![1u8, 0u8] + le16(*v as u16),
            TagValue::Dint(v) => le16(0xC4) + seq![1u8, 0u8] + le32(*v as u32),
            TagValue::Real(v) => le16(0xCA) + seq![1u8, 0u8] + le32(*v),
            TagValue::Dword(v) => le16(0xD3) + seq![1u8, 0u8] + le32(*v),
            TagValue::Lint(v) => le16(0xC5) + seq![1u8, 0u8] + le64(*v as u64),
            TagValue::Structure { handle, data } => seq![0xA0u8, 0x02u8] + le16(*handle)
                + data.encoding(),
        }
    }

    fn encode(self, dst: &mut BytesMut) -> (r: Result<(), Error>) {
        let ghost start = bytes_mut_view(*dst);
        let ghost enc = self.encoding();
        match self {
            TagValue::Bool(v) => {
                put_u16_le(dst, 0xC1);
                put_u8(dst, 1);
                put_u8(dst, 0);
                put_u8(dst, if v { 255 } else { 0 });
                put_u8(dst, 0);
            },
            TagValue::Sint(v) => {
                put_u16_le(dst, 0xC2);
                put_u8(dst, 1);
                put_u8(dst, 0);
                put_u8(dst, v as u8);
                put_u8(dst, 0);
            },
            TagValue::Int(v) => {
                put_u16_le(dst, 0xC3);
                put_u8(dst, 1);
                put_u8(dst, 0);
                put_u16_le(dst, v as u16);
            },
            TagValue::Dint(v) => {
                put_u16_le(dst, 0xC4);
                put_u8(dst, 1);
                put_u8(dst, 0);
                put_u32_le(dst, v as u32);
            },
            TagValue::Real(v) => {
                put_u16_le(dst, 0xCA);
                put_u8(dst, 1);
                put_u8(dst, 0);
                put_u32_le(dst, v);
            },
            TagValue::Dword(v) => {
                put_u16_le(dst, 0xD3);
                put_u8(dst, 1);
                put_u8(dst, 0);
                put_u32_le(dst, v);
            },
            TagValue::Lint(v) => {
                put_u16_le(dst, 0xC5);
                put_u8(dst, 1);
                put_u8(dst, 0);
                put_u64_le(dst, v as u64);
            },
            TagValue::Structure { handle, data } => {
                put_u8(dst, 0xA0);
                put_u8(dst, 0x02);
                put_u16_le(dst, handle);
                let r = data.encode(dst);
                assert(bytes_mut_view(*dst) =~= start + enc);
                return r;
            },
        }
        assert(bytes_mut_view(*dst) =~= start + enc);
        Ok(())
    }

    fn bytes_count(&self) -> (n: usize) {
        match self {
            TagValue::Bool(_) => 6,
            TagValue::Sint(_) => 6,
            TagValue::Int(_) => 6,
            TagValue::Dint(_) => 8,
            TagValue::Real(_) => 8,
            TagValue::Dword(_) => 8,
            TagValue::Lint(_) => 12,
            TagValue::Structure { data, .. } => 4 + data.bytes_count(),
        }
    }
}

/// Bytes of an encoded atomic value: 6 for BOOL, SINT and INT, 8 for DINT,
/// REAL and DWORD, 12 for LINT.
pub open spec fn atomic_size<D>(v: TagValue<D>) -> nat {
    match v {
        TagValue::Bool(_) | TagValue::Sint(_) | TagValue::Int(_) => 6,
        TagValue::Dint(_) | TagValue::Real(_) | TagValue::Dword(_) => 8,
        TagValue::Lint(_) => 12,
        TagValue::Structure { .. } => 0,
    }
}

/// Every tag value is written as its type code first; an atomic value then
/// has the element count 1 and takes a fixed number of bytes, a structure
/// takes 4 bytes more than its data.
pub proof fn lemma_tag_value_encoding<D: Encodable>(v: TagValue<D>)
    ensures
        v.encoding().len() >= 4,
        v.encoding().subrange(0, 2) == le16(spec_type_code(v.spec_tag_type())),
        !(v is Structure) ==> v.encoding().len() == atomic_size(v) && v.encoding().subrange(2, 4)
            == seq![1u8, 0u8],
        v matches TagValue::Structure { data, .. } ==> v.encoding().len() == 4
            + data.encoding().len(),
{
    let e = v.encoding();
    assert(e.subrange(0, 2) =~= le16(spec_type_code(v.spec_tag_type())));
    if !(v is Structure) {
        assert(e.subrange(2, 4) =~= seq![1u8, 0u8]);
    }
}

/// A Read Tag reply carries the type code and then the value, without the
/// element count that Write Tag puts between them.
pub open spec fn reply_of_write(e: Seq<u8>) -> Seq<u8> {
    e.subrange(0, 2) + e.skip(4)
}

/// Reading gives back what was written. An atomic value other than BOOL,
/// written by Write Tag and answered without its element count, reads as
/// that same value (its whole little-endian word, sign included); a BOOL
/// (read at byte 4) and a structure with data read from the bytes as
/// written.
pub proof fn lemma_tag_value_roundtrip(v: TagValue<Bytes>)
    requires
        v.encodable(),
    ensures
        v is Bool ==> tag_value_readable(v.encoding()) && tag_value_is(v.encoding(), v),
        v matches TagValue::Structure { data, .. } && bytes_view(data).len() > 0
            ==> tag_value_readable(v.encoding()) && tag_value_is(v.encoding(), v),
        !(v is Bool) && !(v is Structure) ==> tag_value_readable(reply_of_write(v.encoding()))
            && tag_value_is(reply_of_write(v.encoding()), v),
{
    let e = v.encoding();
    let r = reply_of_write(e);
    match v {
        TagValue::Bool(b) => {
            assert(e.subrange(0, 2) =~= le16(0xC1));
            lemma_le16_roundtrip(0xC1, e, 0);
        },
        TagValue::Structure { handle, data } => {
            assert(e.subrange(0, 2) =~= le16(0x02A0));
            lemma_le16_roundtrip(0x02A0, e, 0);
            assert(e.subrange(2, 4) =~= le16(handle));
            lemma_le16_roundtrip(handle, e, 2);
            assert(e.skip(4) =~= bytes_view(data));
        },
        TagValue::Sint(x) => {
            assert(r =~= le16(0xC2) + seq![x as u8, 0u8]);
            assert(r.subrange(0, 2) =~= le16(0xC2));
            lemma_le16_roundtrip(0xC2, r, 0);
            assert((x as u8) as i8 == x) by (bit_vector);
        },
        TagValue::Int(x) => {
            assert(r =~= le16(0xC3) + le16(x as u16));
            assert(r.subrange(0, 2) =~= le16(0xC3));
            lemma_le16_roundtrip(0xC3, r, 0);
            assert(r.subrange(2, 4) =~= le16(x as u16));
            lemma_le16_roundtrip(x as u16, r, 2);
            assert((x as u16) as i16 == x) by (bit_vector);
        },
        TagValue::Dint(x) => {
            assert(r =~= le16(0xC4) + le32(x as u32));
            assert(r.subrange(0, 2) =~= le16(0xC4));
            lemma_le16_roundtrip(0xC4, r, 0);
            assert(r.subrange(2, 6) =~= le32(x as u32));
            lemma_le32_roundtrip(x as u32, r, 2);
            assert((x as u32) as i32 == x) by (bit_vector);
        },
        TagValue::Real(x) => {
            assert(r =~= le16(0xCA) + le32(x));
            assert(r.subrange(0, 2) =~= le16(0xCA));
            lemma_le16_roundtrip(0xCA, r, 0);
            assert(r.subrange(2, 6) =~= le32(x));
            lemma_le32_roundtrip(x, r, 2);
        },
        TagValue::Dword(x) => {
            assert(r =~= le16(0xD3) + le32(x));
            assert(r.subrange(0, 2) =~= le16(0xD3));
            lemma_le16_roundtrip(0xD3, r, 0);
            assert(r.subrange(2, 6) =~= le32(x));
            lemma_le32_roundtrip(x, r, 2);
        },
        TagValue::Lint(x) => {
            let u = x as u64;
            let lo = (u % 0x1_0000_0000) as u32;
            let hi = (u / 0x1_0000_0000) as u32;
            assert(r =~= le16(0xC5) + le32(lo) + le32(hi));
            assert(r.subrange(0, 2) =~= le16(0xC5));
            lemma_le16_roundtrip(0xC5, r, 0);
            assert(r.subrange(2, 6) =~= le32(lo));
            lemma_le32_roundtrip(lo, r, 2);
            assert(r.subrange(6, 10) =~= le32(hi));
            lemma_le32_roundtrip(hi, r, 6);
            assert(lo as nat + hi as nat * 0x1_0000_0000 == u as nat) by (nonlinear_arith)
                requires
                    lo == u % 0x1_0000_0000,
                    hi == u / 0x1_0000_0000,
            ;
            assert((x as u64) as i64 == x) by (bit_vector);
        },
    }
}

} // verus!
