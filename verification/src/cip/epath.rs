//! EPATH: the segments that address a CIP object, and their encoding.

use crate::buf::{
    be16, bytes_as_slice, bytes_from_static, bytes_len, bytes_mut_view, bytes_view, freeze,
    le16, le32, new_bytes_mut, put_slice, put_u16_be, put_u16_le, put_u32_le, put_u8,
};
use crate::codec::Encodable;
use crate::error::Error;
use bytes::{Bytes, BytesMut};
use vstd::prelude::*;
use vstd::utf8::encode_utf8;

verus! {

/// EPATH of the connection manager object (class 6, instance 1).
pub const EPATH_CONNECTION_MANAGER: [u8; 4] = [0x20, 0x06, 0x24, 0x01];

/// One segment of an EPATH.
#[derive(Debug, Clone, PartialEq, Eq)]
pub enum Segment {
    Symbol(String),
    Class(u16),
    Instance(u16),
    Attribute(u16),
    Element(u32),
    Port(PortSegment),
}

/// EPATH Port Segment
#[derive(Debug, PartialEq, Eq, Clone)]
pub struct PortSegment {
    /// Port to leave Current Node (1 if Backplane)
    pub port: u16,
    /// link address to route packet (number or IP address)
    pub link: Bytes,
}

/// An EPATH: a sequence of segments.
#[derive(Debug, PartialEq, Eq)]
pub struct EPath(pub Vec<Segment>);

/// The UTF-8 bytes of a string.
pub open spec fn string_bytes(s: String) -> Seq<u8> {
    encode_utf8(s@)
}

/// `s` followed by one zero byte when its length is odd.
pub open spec fn pad_even(s: Seq<u8>) -> Seq<u8> {
    if s.len() % 2 != 0 {
        s.push(0)
    } else {
        s
    }
}

/// Class, instance or attribute segment: 8-bit form when the id fits in a
/// byte, else 16-bit form with a pad byte.
pub open spec fn logical_bytes(code8: u8, code16: u8, v: u16) -> Seq<u8> {
    if v <= 255 {
        seq![code8, v as u8]
    } else {
        seq![code16, 0u8] + le16(v)
    }
}

/// Element segment: 8, 16 or 32-bit form by the size of the index.
pub open spec fn element_bytes(v: u32) -> Seq<u8> {
    if v <= 255 {
        seq![0x28u8, v as u8]
    } else if v <= 65535 {
        seq![0x29u8, 0u8] + le16(v as u16)
    } else {
        seq![0x2Au8, 0u8] + le32(v)
    }
}

/// ANSI extended symbol segment.
pub open spec fn symbol_bytes(name: Seq<u8>) -> Seq<u8> {
    pad_even(seq![0x91u8, name.len() as u8] + name)
}

/// Port segment: port number (extended form above 14), optional link
/// address size, link address, padded to an even length.
pub open spec fn port_bytes(port: u16, link: Seq<u8>) -> Seq<u8> {
    let head: int = if port > 14 { 0x0F } else { port as int };
    let first: u8 = (if link.len() > 1 { head + 0x10 } else { head }) as u8;
    let size: Seq<u8> = if link.len() > 1 { seq![link.len() as u8] } else { Seq::empty() };
    let ext: Seq<u8> = if port > 14 { be16(port) } else { Seq::empty() };
    pad_even(seq![first] + size + ext + link)
}

impl PortSegment {
    /// Whether the link address fits the segment's size byte.
    pub open spec fn wf(&self) -> bool {
        bytes_view(self.link).len() < 255
    }

    pub open spec fn spec_bytes(&self) -> Seq<u8> {
        port_bytes(self.port, bytes_view(self.link))
    }

    /// Backplane port, slot 0.
    pub fn default() -> (p: PortSegment)
        ensures
            p.port == 1,
            bytes_view(p.link) == seq![0u8],
    {
        let link = bytes_from_static(&[0u8]);
        assert(bytes_view(link) =~= seq![0u8]);
        PortSegment { port: 1, link }
    }

    fn encode_ref(&self, dst: &mut BytesMut)
        requires
            self.wf(),
            bytes_mut_view(*old(dst)).len() + self.spec_bytes().len() <= usize::MAX,
        ensures
            bytes_mut_view(*final(dst)) == bytes_mut_view(*old(dst)) + self.spec_bytes(),
    {
        let ghost start = bytes_mut_view(*dst);
        let link = bytes_as_slice(&self.link);
        let link_addr_len = link.len();
        let ghost l = link@;
        let mut segment_byte: u16 = if self.port > 14 { 0x0F } else { self.port };
        if link_addr_len > 1 {
            assert(segment_byte | 0x10 == segment_byte + 0x10) by (bit_vector)
                requires segment_byte <= 0x0F;
            segment_byte = segment_byte | 0x10;
        }
        put_u8(dst, segment_byte as u8);
        if link_addr_len > 1 {
            put_u8(dst, link_addr_len as u8);
        }
        if self.port > 14 {
            put_u16_be(dst, self.port);
        }
        put_slice(dst, link);
        let count = 1 + (if link_addr_len > 1 { 1usize } else { 0 }) + (if self.port > 14 { 2usize } else { 0 }) + link_addr_len;
        let ghost body = seq![segment_byte as u8]
            + (if l.len() > 1 { seq![l.len() as u8] } else { Seq::<u8>::empty() })
            + (if self.port > 14 { be16(self.port) } else { Seq::<u8>::empty() })
            + l;
        assert(bytes_mut_view(*dst) =~= start + body);
        assert(body.len() == count);
        if count % 2 != 0 {
            put_u8(dst, 0);
            assert(bytes_mut_view(*dst) =~= start + body.push(0));
        }
    }
}

impl Encodable for PortSegment {
    open spec fn encodable(&self) -> bool {
        self.wf()
    }

    open spec fn encoding(&self) -> Seq<u8> {
        self.spec_bytes()
    }

    fn encode(self, dst: &mut BytesMut) -> (r: Result<(), Error>) {
        self.encode_ref(dst);
        Ok(())
    }

    fn bytes_count(&self) -> (n: usize) {
        let link_addr_len = bytes_len(&self.link);
        let mut count: usize = 1;
        if link_addr_len > 1 {
            count += 1;
        }
        if self.port > 14 {
            count += 2;
        }
        count += link_addr_len;
        count + count % 2
    }
}

impl Segment {
    /// Whether the segment can be encoded.
    pub open spec fn wf(&self) -> bool {
        match self {
            Segment::Symbol(s) => string_bytes(*s).len() <= 255,
            Segment::Port(p) => p.wf(),
            _ => true,
        }
    }

    /// The bytes of the encoded segment.
    pub open spec fn spec_bytes(&self) -> Seq<u8> {
        match self {
            Segment::Class(v) => logical_bytes(0x20, 0x21, *v),
            Segment::Instance(v) => logical_bytes(0x24, 0x25, *v),
            Segment::Attribute(v) => logical_bytes(0x30, 0x31, *v),
            Segment::Element(v) => element_bytes(*v),
            Segment::Port(p) => p.spec_bytes(),
            Segment::Symbol(s) => symbol_bytes(string_bytes(*s)),
        }
    }

    /// is port segment?
    pub fn is_port(&self) -> (b: bool)
        ensures
            b == (self is Port),
    {
        match self {
            Segment::Port(_) => true,
            _ => false,
        }
    }

    fn encode_logical(code8: u8, code16: u8, v: u16, dst: &mut BytesMut)
        requires
            bytes_mut_view(*old(dst)).len() + logical_bytes(code8, code16, v).len() <= usize::MAX,
        ensures
            bytes_mut_view(*final(dst)) == bytes_mut_view(*old(dst)) + logical_bytes(code8, code16, v),
    {
        let ghost start = bytes_mut_view(*dst);
        if v <= 255 {
            put_u8(dst, code8);
            put_u8(dst, v as u8);
            assert(bytes_mut_view(*dst) =~= start + logical_bytes(code8, code16, v));
        } else {
            put_u8(dst, code16);
            put_u8(dst, 0);
            put_u16_le(dst, v);
            assert(bytes_mut_view(*dst) =~= start + logical_bytes(code8, code16, v));
        }
    }

    /// Appends the encoding of the segment to `dst`.
    pub fn encode_ref(&self, dst: &mut BytesMut)
        requires
            self.wf(),
            bytes_mut_view(*old(dst)).len() + self.spec_bytes().len() <= usize::MAX,
        ensures
            bytes_mut_view(*final(dst)) == bytes_mut_view(*old(dst)) + self.spec_bytes(),
    {
        let ghost start = bytes_mut_view(*dst);
        match self {
            Segment::Class(v) => Self::encode_logical(0x20, 0x21, *v, dst),
            Segment::Instance(v) => Self::encode_logical(0x24, 0x25, *v, dst),
            Segment::Attribute(v) => Self::encode_logical(0x30, 0x31, *v, dst),
            Segment::Element(elem) => {
                let v = *elem;
                if v <= 255 {
                    put_u8(dst, 0x28);
                    put_u8(dst, v as u8);
                } else if v <= 65535 {
                    put_u8(dst, 0x29);
                    put_u8(dst, 0);
                    put_u16_le(dst, v as u16);
                } else {
                    put_u8(dst, 0x2A);
                    put_u8(dst, 0);
                    put_u32_le(dst, v);
                }
                assert(bytes_mut_view(*dst) =~= start + element_bytes(v));
            },
            Segment::Port(port) => port.encode_ref(dst),
            Segment::Symbol(symbol) => {
                let name = symbol.as_str().as_bytes();
                let char_count = name.len();
                put_u8(dst, 0x91);
                put_u8(dst, char_count as u8);
                put_slice(dst, name);
                if char_count % 2 != 0 {
                    put_u8(dst, 0);
                }
                assert(bytes_mut_view(*dst) =~= start + symbol_bytes(name@));
            },
        }
    }

    /// Number of bytes of the encoded segment.
    pub fn bytes_count_ref(&self) -> (n: usize)
        requires
            self.wf(),
        ensures
            n == self.spec_bytes().len(),
    {
        match self {
            Segment::Class(v) | Segment::Instance(v) | Segment::Attribute(v) => {
                if *v <= 255 {
                    2
                } else {
                    4
                }
            },
            Segment::Element(v) => {
                if *v <= 255 {
                    2
                } else if *v <= 65535 {
                    4
                } else {
                    6
                }
            },
            Segment::Port(port) => port.bytes_count(),
            Segment::Symbol(symbol) => {
                let char_count = symbol.as_str().as_bytes().len();
                2 + char_count + char_count % 2
            },
        }
    }
}

impl Encodable for Segment {
    open spec fn encodable(&self) -> bool {
        self.wf()
    }

    open spec fn encoding(&self) -> Seq<u8> {
        self.spec_bytes()
    }

    fn encode(self, dst: &mut BytesMut) -> (r: Result<(), Error>) {
        self.encode_ref(dst);
        Ok(())
    }

    fn bytes_count(&self) -> (n: usize) {
        self.bytes_count_ref()
    }
}

/// The concatenated encodings of a sequence of segments.
pub open spec fn segments_bytes(s: Seq<Segment>) -> Seq<u8>
    decreases s.len(),
{
    if s.len() == 0 {
        Seq::empty()
    } else {
        segments_bytes(s.drop_last()) + s.last().spec_bytes()
    }
}

/// Encoding the first `i + 1` segments extends the encoding of the first `i`.
pub proof fn lemma_segments_bytes_step(s: Seq<Segment>, i: int)
    requires
        0 <= i < s.len(),
    ensures
        segments_bytes(s.take(i + 1)) == segments_bytes(s.take(i)) + s[i].spec_bytes(),
{
    assert(s.take(i + 1).drop_last() =~= s.take(i));
}

/// Encodings of prefixes are no longer than the whole encoding.
pub proof fn lemma_segments_bytes_prefix_len(s: Seq<Segment>, i: int)
    requires
        0 <= i <= s.len(),
    ensures
        segments_bytes(s.take(i)).len() <= segments_bytes(s).len(),
    decreases s.len() - i,
{
    if i < s.len() {
        lemma_segments_bytes_step(s, i);
        lemma_segments_bytes_prefix_len(s, i + 1);
    } else {
        assert(s.take(i) =~= s);
    }
}

impl View for EPath {
    type V = Seq<Segment>;

    open spec fn view(&self) -> Seq<Segment> {
        self.0@
    }
}

impl EPath {
    /// Whether every segment can be encoded and the whole encoding has a
    /// length that fits in `usize`.
    pub open spec fn wf(&self) -> bool {
        &&& forall|i: int| 0 <= i < self@.len() ==> (#[trigger] self@[i]).wf()
        &&& segments_bytes(self@).len() <= usize::MAX
    }

    /// The bytes of the encoded path.
    pub open spec fn spec_bytes(&self) -> Seq<u8> {
        segments_bytes(self@)
    }

    /// empty path
    pub fn new() -> (p: EPath)
        ensures
            p@ == Seq::<Segment>::empty(),
    {
        EPath(Vec::new())
    }

    /// path with a single symbol segment
    pub fn from_symbol(symbol: &str) -> (p: EPath)
        ensures
            p@.len() == 1,
            p@[0] matches Segment::Symbol(s) && s@ == symbol@,
    {
        Self::new().with_symbol(symbol)
    }

    /// the segments of the path
    pub fn into_vec(self) -> (v: Vec<Segment>)
        ensures
            v@ == self@,
    {
        self.0
    }

    /// the segments of the path, as a slice
    pub fn as_slice(&self) -> (s: &[Segment])
        ensures
            s@ == self@,
    {
        self.0.as_slice()
    }

    /// number of segments
    pub fn len(&self) -> (n: usize)
        ensures
            n == self@.len(),
    {
        self.0.len()
    }

    /// is the path empty?
    pub fn is_empty(&self) -> (b: bool)
        ensures
            b == (self@.len() == 0),
    {
        self.0.len() == 0
    }

    /// appends a segment
    pub fn push(&mut self, seg: Segment)
        ensures
            final(self)@ == old(self)@.push(seg),
    {
        self.0.push(seg);
    }

    pub fn with_class(self, class_id: u16) -> (p: EPath)
        ensures
            p@ == self@.push(Segment::Class(class_id)),
    {
        let mut p = self;
        p.0.push(Segment::Class(class_id));
        p
    }

    pub fn with_symbol(self, symbol: &str) -> (p: EPath)
        ensures
            p@.len() == self@.len() + 1,
            p@.drop_last() == self@,
            p@.last() matches Segment::Symbol(s) && s@ == symbol@,
    {
        let mut p = self;
        let ghost orig = self@;
        let s = symbol.to_owned();
        p.0.push(Segment::Symbol(s));
        assert(p@.drop_last() =~= orig);
        p
    }

    pub fn with_instance(self, instance_id: u16) -> (p: EPath)
        ensures
            p@ == self@.push(Segment::Instance(instance_id)),
    {
        let mut p = self;
        p.0.push(Segment::Instance(instance_id));
        p
    }

    pub fn with_attribute(self, attribute_id: u16) -> (p: EPath)
        ensures
            p@ == self@.push(Segment::Attribute(attribute_id)),
    {
        let mut p = self;
        p.0.push(Segment::Attribute(attribute_id));
        p
    }

    pub fn with_element(self, element_idx: u32) -> (p: EPath)
        ensures
            p@ == self@.push(Segment::Element(element_idx)),
    {
        let mut p = self;
        p.0.push(Segment::Element(element_idx));
        p
    }

    /// with port & default slot 0
    pub fn with_port(self, port: u16) -> (p: EPath)
        ensures
            p@.drop_last() == self@,
            p@.len() == self@.len() + 1,
            p@.last() matches Segment::Port(ps) && ps.port == port && bytes_view(ps.link) == seq![0u8],
    {
        let mut p = self;
        let ghost orig = self@;
        let link = bytes_from_static(&[0u8]);
        assert(bytes_view(link) =~= seq![0u8]);
        p.0.push(Segment::Port(PortSegment { port, link }));
        assert(p@.drop_last() =~= orig);
        p
    }

    /// with port & slot
    pub fn with_port_slot(self, port: u16, slot: u8) -> (p: EPath)
        ensures
            p@.drop_last() == self@,
            p@.len() == self@.len() + 1,
            p@.last() matches Segment::Port(ps) && ps.port == port && bytes_view(ps.link) == seq![slot],
    {
        let mut p = self;
        let mut buf = new_bytes_mut();
        put_u8(&mut buf, slot);
        let ghost orig = self@;
        let link = freeze(buf);
        assert(bytes_view(link) =~= seq![slot]);
        p.0.push(Segment::Port(PortSegment { port, link }));
        assert(p@.drop_last() =~= orig);
        p
    }

    /// Appends the encoding of the path to `dst`.
    pub fn encode_ref(&self, dst: &mut BytesMut)
        requires
            self.wf(),
            bytes_mut_view(*old(dst)).len() + self.spec_bytes().len() <= usize::MAX,
        ensures
            bytes_mut_view(*final(dst)) == bytes_mut_view(*old(dst)) + self.spec_bytes(),
    {
        let ghost start = bytes_mut_view(*dst);
        let n = self.0.len();
        let mut i: usize = 0;
        assert(self@.take(0) =~= Seq::<Segment>::empty());
        while i < n
            invariant
                n == self@.len(),
                0 <= i <= n,
                self.wf(),
                start.len() + self.spec_bytes().len() <= usize::MAX,
                bytes_mut_view(*dst) == start + segments_bytes(self@.take(i as int)),
            decreases n - i,
        {
            proof {
                lemma_segments_bytes_step(self@, i as int);
                lemma_segments_bytes_prefix_len(self@, i as int + 1);
                assert(self@[i as int].wf());
            }
            let ghost before = bytes_mut_view(*dst);
            self.0[i].encode_ref(dst);
            assert(bytes_mut_view(*dst) =~= start + segments_bytes(self@.take(i as int + 1)));
            i += 1;
        }
        assert(self@.take(n as int) =~= self@);
    }

    /// Number of bytes of the encoded path.
    pub fn bytes_count_ref(&self) -> (c: usize)
        requires
            self.wf(),
        ensures
            c == self.spec_bytes().len(),
    {
        let n = self.0.len();
        let mut i: usize = 0;
        let mut count: usize = 0;
        assert(self@.take(0) =~= Seq::<Segment>::empty());
        while i < n
            invariant
                n == self@.len(),
                0 <= i <= n,
                self.wf(),
                count == segments_bytes(self@.take(i as int)).len(),
            decreases n - i,
        {
            proof {
                lemma_segments_bytes_step(self@, i as int);
                lemma_segments_bytes_prefix_len(self@, i as int + 1);
                assert(self@[i as int].wf());
            }
            count = count + self.0[i].bytes_count_ref();
            i += 1;
        }
        assert(self@.take(n as int) =~= self@);
        count
    }
}

/// A copy of a segment, with the same encoding.
fn clone_segment(s: &Segment) -> (r: Segment)
    ensures
        r.spec_bytes() == s.spec_bytes(),
        r.wf() == s.wf(),
{
    match s {
        Segment::Symbol(name) => Segment::Symbol(name.clone()),
        Segment::Class(v) => Segment::Class(*v),
        Segment::Instance(v) => Segment::Instance(*v),
        Segment::Attribute(v) => Segment::Attribute(*v),
        Segment::Element(v) => Segment::Element(*v),
        Segment::Port(p) => Segment::Port(PortSegment { port: p.port, link: p.link.clone() }),
    }
}

/// Sequences of segments with pairwise equal encodings encode alike.
proof fn lemma_segments_bytes_same(a: Seq<Segment>, b: Seq<Segment>)
    requires
        a.len() == b.len(),
        forall|i: int| 0 <= i < a.len() ==> (#[trigger] a[i]).spec_bytes() == b[i].spec_bytes(),
    ensures
        segments_bytes(a) == segments_bytes(b),
    decreases a.len(),
{
    if a.len() > 0 {
        lemma_segments_bytes_same(a.drop_last(), b.drop_last());
    }
}

impl Clone for EPath {
    /// A copy segment by segment: the same number of segments, each with
    /// the same encoding.
    fn clone(&self) -> (r: Self)
        ensures
            r@.len() == self@.len(),
            forall|i: int| 0 <= i < self@.len() ==> (#[trigger] r@[i]).spec_bytes() == self@[i].spec_bytes()
                && r@[i].wf() == self@[i].wf(),
            r.spec_bytes() == self.spec_bytes(),
            r.wf() == self.wf(),
    {
        let n = self.0.len();
        let mut v: Vec<Segment> = Vec::new();
        let mut i: usize = 0;
        while i < n
            invariant
                n == self@.len(),
                0 <= i <= n,
                v@.len() == i,
                forall|j: int| 0 <= j < i ==> (#[trigger] v@[j]).spec_bytes() == self@[j].spec_bytes()
                    && v@[j].wf() == self@[j].wf(),
            decreases n - i,
        {
            let s = clone_segment(&self.0[i]);
            v.push(s);
            i += 1;
        }
        let r = EPath(v);
        proof {
            lemma_segments_bytes_same(r@, self@);
            if self.wf() {
                assert forall|i: int| 0 <= i < r@.len() implies (#[trigger] r@[i]).wf() by {
                    assert(self@[i].wf());
                }
            }
            if r.wf() {
                assert forall|i: int| 0 <= i < self@.len() implies (#[trigger] self@[i]).wf() by {
                    assert(r@[i].wf());
                }
            }
        }
        r
    }
}

impl Encodable for EPath {
    open spec fn encodable(&self) -> bool {
        self.wf()
    }

    open spec fn encoding(&self) -> Seq<u8> {
        self.spec_bytes()
    }

    fn encode(self, dst: &mut BytesMut) -> (r: Result<(), Error>) {
        self.encode_ref(dst);
        Ok(())
    }

    fn bytes_count(&self) -> (n: usize) {
        self.bytes_count_ref()
    }
}

impl From<Vec<Segment>> for EPath {
    fn from(src: Vec<Segment>) -> (p: EPath) {
        EPath(src)
    }
}

impl vstd::std_specs::convert::FromSpecImpl<Vec<Segment>> for EPath {
    open spec fn obeys_from_spec() -> bool {
        true
    }

    open spec fn from_spec(src: Vec<Segment>) -> EPath {
        EPath(src)
    }
}

impl Default for EPath {
    fn default() -> (p: EPath)
        ensures
            p@ == Seq::<Segment>::empty(),
    {
        EPath(Vec::new())
    }
}

/// An element segment says its width in its first byte and the index
/// reads back from the bytes after it: `0x28` and one byte, `0x29`, a pad
/// and two bytes (low first), or `0x2A`, a pad and four bytes (low first);
/// the shortest width that holds the index is used.
pub proof fn lemma_element_segment(v: u32)
    ensures
        ({
            let e = Segment::Element(v).spec_bytes();
            &&& (e[0] == 0x28 && e.len() == 2 && e[1] == v) || (e[0] == 0x29 && e.len() == 4
                && e[1] == 0 && e[2] + 256 * e[3] == v) || (e[0] == 0x2A && e.len() == 6 && e[1]
                == 0 && e[2] + 256 * e[3] + 65536 * e[4] + 16777216 * e[5] == v)
            &&& v < 0x100 <==> e.len() == 2
            &&& 0x100 <= v < 0x1_0000 <==> e.len() == 4
        }),
{
}

/// A class, instance or attribute segment says its width in its first
/// byte and the id reads back from the bytes after it: the 8-bit code and
/// one byte for an id below 256, else the 16-bit code, a pad and two bytes
/// (low first).
pub proof fn lemma_logical_segment(v: u16)
    ensures
        ({
            let c = Segment::Class(v).spec_bytes();
            let i = Segment::Instance(v).spec_bytes();
            let a = Segment::Attribute(v).spec_bytes();
            &&& v < 0x100 ==> c == seq![0x20u8, v as u8] && i == seq![0x24u8, v as u8] && a
                == seq![0x30u8, v as u8]
            &&& v >= 0x100 ==> c.len() == 4 && c[0] == 0x21 && c[1] == 0 && c[2] + 256 * c[3] == v
            &&& v >= 0x100 ==> i.len() == 4 && i[0] == 0x25 && i[1] == 0 && i[2] + 256 * i[3] == v
            &&& v >= 0x100 ==> a.len() == 4 && a[0] == 0x31 && a[1] == 0 && a[2] + 256 * a[3] == v
        }),
{
}

/// A symbol segment is `0x91`, the name's byte count, the name, and a pad
/// byte of 0 when the count is odd.
pub proof fn lemma_symbol_segment(name: String)
    requires
        string_bytes(name).len() <= 255,
    ensures
        ({
            let e = Segment::Symbol(name).spec_bytes();
            let n = string_bytes(name).len() as int;
            &&& e.len() == 2 + n + n % 2
            &&& e[0] == 0x91 && e[1] == n
            &&& e.subrange(2, 2 + n) == string_bytes(name)
            &&& n % 2 == 1 ==> e[2 + n] == 0
        }),
{
    let e = Segment::Symbol(name).spec_bytes();
    let n = string_bytes(name).len() as int;
    assert(e.subrange(2, 2 + n) =~= string_bytes(name));
}

/// A port segment's first byte holds the port (15 for a port above 14)
/// in its low 4 bits and, in bit 4, whether a size byte for a link address
/// longer than one byte follows; a port above 14 then comes as a big-endian
/// word, then the link address, then a pad byte of 0 to an even length.
pub proof fn lemma_port_segment(p: PortSegment)
    requires
        p.wf(),
    ensures
        ({
            let e = p.spec_bytes();
            let l = bytes_view(p.link);
            let k: int = if l.len() > 1 { 2 } else { 1 };
            let j: int = if p.port > 14 { k + 2 } else { k };
            &&& e.len() == j + l.len() + (j + l.len()) % 2
            &&& e[0] % 16 == (if p.port > 14 { 15 } else { p.port })
            &&& e[0] / 16 == (if l.len() > 1 { 1int } else { 0int })
            &&& l.len() > 1 ==> e[1] == l.len()
            &&& p.port > 14 ==> e[k] as int * 256 + e[k + 1] as int == p.port as int
            &&& e.subrange(j, j + l.len()) == l
            &&& (j + l.len()) % 2 == 1 ==> e[j + l.len()] == 0
        }),
{
    let e = p.spec_bytes();
    let l = bytes_view(p.link);
    let k: int = if l.len() > 1 { 2 } else { 1 };
    let j: int = if p.port > 14 { k + 2 } else { k };
    assert(e.subrange(j, j + l.len()) =~= l);
    if p.port > 14 {
        assert(e[k] == be16(p.port)[0] && e[k + 1] == be16(p.port)[1]);
    }
}

/// Every encoded segment has an even number of bytes, so it fills whole
/// 16-bit words.
pub proof fn lemma_segment_even(seg: Segment)
    ensures
        seg.spec_bytes().len() % 2 == 0,
{
}

/// An encoded path has an even number of bytes: its size in 16-bit words is
/// its byte count halved.
pub proof fn lemma_path_even(p: EPath)
    ensures
        p.spec_bytes().len() % 2 == 0,
{
    lemma_segments_even(p@);
}

/// The concatenated encodings of segments have an even length.
pub proof fn lemma_segments_even(s: Seq<Segment>)
    ensures
        segments_bytes(s).len() % 2 == 0,
    decreases s.len(),
{
    if s.len() > 0 {
        lemma_segments_even(s.drop_last());
        lemma_segment_even(s.last());
    }
}

} // verus!
