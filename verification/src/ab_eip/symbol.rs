//! Symbol (tag) instances and the 16-bit symbol type word of AB controllers.

use crate::buf::{bytes_as_slice, bytes_len, bytes_slice, bytes_view, le16, le_read_u16, read_le16, string_from_utf8};
use crate::cip::epath::string_bytes;
use crate::eip::encapsulation::lemma_le16_roundtrip;
use crate::error::Error;
use bytes::Bytes;
use vstd::prelude::*;
use vstd::slice::slice_to_vec;
use vstd::utf8::{decode_utf8, valid_utf8};

verus! {

/// Bit 15 of the type word: set for structures.
pub open spec fn word_is_struct(v: u16) -> bool {
    v & 0x8000 == 0x8000
}

/// Bits 13-14 of the type word: number of array dimensions.
pub open spec fn word_dims(v: u16) -> u8 {
    ((v >> 13u16) as u8) & 3u8
}

/// Bits 0-7 of the type word: the atomic type code.
pub open spec fn word_type_code(v: u16) -> u8 {
    (v & 0xFF) as u8
}

/// Bits 0-11 of the type word: the template instance id of a structure.
pub open spec fn word_instance_id(v: u16) -> u16 {
    v & 0xFFF
}

/// Bits 8-10 of the type word: bit position of a BOOL.
pub open spec fn word_bit_pos(v: u16) -> u8 {
    ((v >> 8u16) & 7) as u8
}

/// An atomic type whose code is BOOL (0xC1).
pub open spec fn word_is_bool(v: u16) -> bool {
    !word_is_struct(v) && v & 0xFF == 0xC1
}

/// The fields of a symbol type word in plain arithmetic: structure flag is
/// the top bit, dimensions are bits 13-14, the type code the low byte, the
/// instance id the low 12 bits and a BOOL's bit position bits 8-10.
pub proof fn lemma_word_fields(v: u16)
    ensures
        word_is_struct(v) <==> v >= 0x8000,
        word_dims(v) == (v / 8192) % 4,
        word_type_code(v) == v % 256,
        word_instance_id(v) == v % 4096,
        word_bit_pos(v) == (v / 256) % 8,
{
    assert(word_is_struct(v) <==> v >= 0x8000) by (bit_vector);
    assert(word_dims(v) == (v / 8192) % 4) by (bit_vector);
    assert(word_type_code(v) == v % 256) by (bit_vector);
    assert(word_instance_id(v) == v % 4096) by (bit_vector);
    assert(word_bit_pos(v) == (v / 256) % 8) by (bit_vector);
}

/// Builder of a symbol type word.
#[derive(Debug, Default)]
pub struct SymbolTypeBuilder(pub u16);

/// Symbol type word: structure flag, dimensions, and either the atomic
/// type code (with a bit position for BOOL) or the template instance id.
#[derive(Debug, Clone, Copy, PartialEq, Eq, Hash, Default)]
pub struct SymbolType(pub u16);

impl SymbolTypeBuilder {
    /// Marks the type as a structure with the given template instance id,
    /// keeping bits 12-14.
    pub fn structure(self, instance_id: u16) -> (b: SymbolTypeBuilder)
        requires
            instance_id <= 0xFFF,
        ensures
            b.0 == ((self.0 & 0x7000) | 0x8000) | instance_id,
            word_is_struct(b.0),
            word_instance_id(b.0) == instance_id,
            word_dims(b.0) == word_dims(self.0),
    {
        let v = self.0;
        let r: u16 = ((v & 0x7000) | (1u16 << 15u16)) | instance_id;
        assert(1u16 << 15u16 == 0x8000) by (bit_vector);
        assert(word_is_struct(r) && word_instance_id(r) == instance_id && word_dims(r) == word_dims(v)) by (bit_vector)
            requires
                r == ((v & 0x7000) | 0x8000) | instance_id,
                instance_id <= 0xFFF,
        ;
        SymbolTypeBuilder(r)
    }

    /// Marks the type as atomic with the given type code, keeping bits 12-14.
    pub fn atomic(self, type_code: u8) -> (b: SymbolTypeBuilder)
        ensures
            b.0 == (self.0 & 0x7000) | (type_code as u16),
            !word_is_struct(b.0),
            word_type_code(b.0) == type_code,
            word_dims(b.0) == word_dims(self.0),
            word_bit_pos(b.0) == 0,
    {
        let v = self.0;
        let t = type_code as u16;
        let r: u16 = (v & 0x7000) | t;
        assert(!word_is_struct(r) && word_type_code(r) == type_code && word_dims(r) == word_dims(v) && word_bit_pos(r) == 0) by (bit_vector)
            requires
                r == (v & 0x7000) | t,
                t == type_code as u16,
        ;
        SymbolTypeBuilder(r)
    }

    /// Sets the number of array dimensions, keeping the other bits.
    pub fn dims(self, dims: u8) -> (b: SymbolTypeBuilder)
        requires
            dims < 4,
        ensures
            b.0 == (self.0 & !0x6000u16) | ((dims as u16) << 13u16),
            word_dims(b.0) == dims,
            word_is_struct(b.0) == word_is_struct(self.0),
            word_type_code(b.0) == word_type_code(self.0),
            word_instance_id(b.0) == word_instance_id(self.0),
            word_bit_pos(b.0) == word_bit_pos(self.0),
    {
        let v = self.0;
        let d = dims as u16;
        let r: u16 = (v & !0x6000u16) | (d << 13u16);
        assert(word_dims(r) == dims && word_is_struct(r) == word_is_struct(v) && word_type_code(r)
            == word_type_code(v) && word_instance_id(r) == word_instance_id(v) && word_bit_pos(r)
            == word_bit_pos(v)) by (bit_vector)
            requires
                r == (v & !0x6000u16) | (d << 13u16),
                d == dims as u16,
                dims < 4,
        ;
        SymbolTypeBuilder(r)
    }

    /// Sets the bit position of a BOOL type (or-ed into bits 8-10).
    pub fn bit_pos(self, pos: u8) -> (b: SymbolTypeBuilder)
        requires
            pos <= 7,
            word_is_bool(self.0),
        ensures
            b.0 == self.0 | ((pos as u16) << 8u16),
            word_bit_pos(b.0) == word_bit_pos(self.0) | pos,
            word_is_bool(b.0),
            word_dims(b.0) == word_dims(self.0),
    {
        let v = self.0;
        let p = pos as u16;
        let r: u16 = v | (p << 8u16);
        assert(word_bit_pos(r) == word_bit_pos(v) | pos && word_is_bool(r) && word_dims(r) == word_dims(v)) by (bit_vector)
            requires
                r == v | (p << 8u16),
                p == pos as u16,
                pos <= 7,
                word_is_bool(v),
        ;
        SymbolTypeBuilder(r)
    }

    /// The type word built so far.
    pub fn finish(self) -> (t: SymbolType)
        ensures
            t.0 == self.0,
    {
        SymbolType(self.0)
    }
}

impl SymbolType {
    /// A builder starting from the zero word.
    pub fn builder() -> (b: SymbolTypeBuilder)
        ensures
            b.0 == 0,
    {
        SymbolTypeBuilder(0)
    }

    /// is struct
    pub fn is_struct(&self) -> (b: bool)
        ensures
            b == word_is_struct(self.0),
    {
        self.0 & 0x8000 == 0x8000
    }

    /// is atomic
    pub fn is_atomic(&self) -> (b: bool)
        ensures
            b == !word_is_struct(self.0),
    {
        !self.is_struct()
    }

    /// system predefined struct: a structure whose instance id is above 0xEFF
    pub fn is_predefined(&self) -> (b: bool)
        ensures
            b == (word_is_struct(self.0) && word_instance_id(self.0) > 0xEFF),
    {
        match self.instance_id() {
            Some(v) => v > 0xEFF,
            None => false,
        }
    }

    /// type code if atomic; range from 0x01-0xFF
    pub fn type_code(&self) -> (c: Option<u8>)
        ensures
            c == (if word_is_struct(self.0) { None } else { Some(word_type_code(self.0)) }),
    {
        if !self.is_struct() {
            Some((self.0 & 0xFF) as u8)
        } else {
            None
        }
    }

    /// dims: 0, 1, 2, 3
    pub fn dims(&self) -> (d: u8)
        ensures
            d == word_dims(self.0),
            d <= 3,
    {
        let v = self.0;
        assert(word_dims(v) <= 3) by (bit_vector);
        ((v >> 13u16) as u8) & 3u8
    }

    /// bool type?
    pub fn is_bool(&self) -> (b: bool)
        ensures
            b == word_is_bool(self.0),
    {
        if !self.is_struct() {
            let v = self.0 & 0xFF;
            v == 0xC1
        } else {
            false
        }
    }

    /// only if it's bool; bit position: 0-7
    pub fn bit_pos(&self) -> (p: Option<u8>)
        ensures
            p == (if word_is_bool(self.0) { Some(word_bit_pos(self.0)) } else { None }),
    {
        if self.is_bool() {
            let v = (self.0 >> 8u16) & 7;
            Some(v as u8)
        } else {
            None
        }
    }

    /// template instance id if struct; range from 0x100-0xFFF
    pub fn instance_id(&self) -> (i: Option<u16>)
        ensures
            i == (if word_is_struct(self.0) { Some(word_instance_id(self.0)) } else { None }),
    {
        if self.is_struct() {
            Some(self.0 & 0xFFF)
        } else {
            None
        }
    }
}

impl From<SymbolType> for u16 {
    fn from(src: SymbolType) -> (v: u16) {
        src.0
    }
}

impl vstd::std_specs::convert::FromSpecImpl<SymbolType> for u16 {
    open spec fn obeys_from_spec() -> bool {
        true
    }

    open spec fn from_spec(src: SymbolType) -> u16 {
        src.0
    }
}

/// symbol instance
#[derive(Debug, Clone, PartialEq, Eq, Hash)]
pub struct SymbolInstance {
    /// instance id
    pub id: u16,
    /// symbol name
    pub name: String,
    /// symbol data type
    pub symbol_type: SymbolType,
}

impl SymbolInstance {
    /// symbol name that contains `:` (a program scoped tag)
    pub fn is_module_defined(&self) -> (b: bool)
        ensures
            b == string_bytes(self.name).contains(58u8),
    {
        let bytes = self.name.as_str().as_bytes();
        let n = bytes.len();
        let mut i: usize = 0;
        while i < n
            invariant
                n == bytes@.len(),
                bytes@ == string_bytes(self.name),
                0 <= i <= n,
                forall|k: int| 0 <= k < i ==> bytes@[k] != 58u8,
            decreases n - i,
        {
            if bytes[i] == 58 {
                return true;
            }
            i += 1;
        }
        false
    }
}

/// What decoding a symbol instance record from `s` gives: the record and the
/// bytes after it, or why it fails. The record is the instance id (2 bytes),
/// 2 skipped bytes, the name length (1 byte), 1 skipped byte, the name, and
/// the symbol type word (2 bytes).
pub open spec fn spec_symbol_record(s: Seq<u8>) -> Result<(u16, Seq<u8>, u16, Seq<u8>), Error> {
    if s.len() < 6 {
        Err(Error::InvalidLength { actual: s.len() as usize, expected: 6 })
    } else {
        let name_len = s[4] as int;
        if s.len() - 6 < name_len + 2 {
            Err(Error::InvalidLength { actual: (s.len() - 6) as usize, expected: (name_len + 2) as usize })
        } else {
            let name = s.subrange(6, 6 + name_len);
            if !valid_utf8(name) {
                Err(Error::InvalidUtf8)
            } else {
                Ok((read_le16(s, 0), name, read_le16(s, 6 + name_len), s.skip(8 + name_len)))
            }
        }
    }
}

/// A symbol instance record is read field by field: the instance id is the
/// little-endian word at bytes 0-1, the name length is byte 4, the name
/// starts at byte 6, and the whole little-endian word right after the name
/// is the symbol type (so its structure flag, dimensions and type bits
/// survive). It is read exactly when the name and type word are all there
/// and the name is UTF-8.
pub proof fn lemma_symbol_record_fields(s: Seq<u8>)
    ensures
        spec_symbol_record(s) is Ok <==> (s.len() >= 6 && s.len() >= 8 + s[4] && valid_utf8(
            s.subrange(6, 6 + s[4] as int),
        )),
        spec_symbol_record(s) matches Ok((id, name, ty, rest)) ==> {
            let n = s[4] as int;
            &&& id as int == s[0] as int + 256 * (s[1] as int)
            &&& name == s.subrange(6, 6 + n)
            &&& ty as int == s[6 + n] as int + 256 * (s[7 + n] as int)
            &&& rest == s.skip(8 + n)
        },
{
}

/// A record written as id, two reserved bytes, name length and a pad byte,
/// name and type word reads back as that id, name and type word, with what
/// followed it left over.
pub proof fn lemma_symbol_record_roundtrip(id: u16, name: Seq<u8>, ty: u16, rest: Seq<u8>)
    requires
        name.len() <= 255,
        valid_utf8(name),
    ensures
        spec_symbol_record(le16(id) + seq![0u8, 0u8] + seq![name.len() as u8, 0u8] + name + le16(ty)
            + rest) == Ok::<(u16, Seq<u8>, u16, Seq<u8>), Error>((id, name, ty, rest)),
{
    let s = le16(id) + seq![0u8, 0u8] + seq![name.len() as u8, 0u8] + name + le16(ty) + rest;
    let n = name.len() as int;
    assert(s[4] == name.len() as u8);
    assert(s.subrange(0, 2) =~= le16(id));
    lemma_le16_roundtrip(id, s, 0);
    assert(s.subrange(6, 6 + n) =~= name);
    assert(s.subrange(6 + n, 8 + n) =~= le16(ty));
    lemma_le16_roundtrip(ty, s, 6 + n);
    assert(s.skip(8 + n) =~= rest);
}

impl SymbolInstance {
    /// Decodes one symbol instance record from the front of `buf`, leaving
    /// the bytes after it in `buf`.
    pub fn decode(buf: &mut Bytes) -> (r: Result<SymbolInstance, Error>)
        ensures
            match spec_symbol_record(bytes_view(*old(buf))) {
                Ok((id, name, ty, rest)) => r matches Ok(inst) && inst.id == id && string_bytes(
                    inst.name,
                ) == name && inst.symbol_type.0 == ty && bytes_view(*final(buf)) == rest,
                Err(e) => r == Err::<SymbolInstance, Error>(e),
            },
    {
        let ghost s = bytes_view(*buf);
        let len = bytes_len(buf);
        if len < 6 {
            return Err(Error::InvalidLength { actual: len, expected: 6 });
        }
        let data = bytes_as_slice(buf);
        let id = le_read_u16(data, 0);
        let name_len = data[4] as usize;
        if len - 6 < name_len + 2 {
            return Err(Error::InvalidLength { actual: len - 6, expected: name_len + 2 });
        }
        let name_bytes = slice_to_vec(data.split_at(6).1.split_at(name_len).0);
        assert(name_bytes@ =~= s.subrange(6, 6 + name_len as int));
        let symbol_type = le_read_u16(data, 6 + name_len);
        match string_from_utf8(name_bytes) {
            Some(name) => {
                proof {
                    vstd::utf8::decode_utf8_encode_utf8(s.subrange(6, 6 + name_len as int));
                }
                let rest = bytes_slice(buf, 8 + name_len, len);
                *buf = rest;
                assert(bytes_view(*buf) =~= s.skip(8 + name_len as int));
                Ok(SymbolInstance { id, name, symbol_type: SymbolType(symbol_type) })
            },
            None => Err(Error::InvalidUtf8),
        }
    }
}

} // verus!
