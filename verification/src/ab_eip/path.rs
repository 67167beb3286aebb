//! Parser for AB tag paths such as `struct_a[1].b.c` or
//! `Program:MainProgram.tag.3`.

use crate::buf::string_from_utf8;
use crate::cip::epath::{string_bytes, EPath, Segment};
use crate::error::{hex_digits, hex_text};
use vstd::prelude::*;
use vstd::string::StringExecFns;
use vstd::string::StringSliceAdditionalSpecFns;
use vstd::slice::slice_to_vec;
use vstd::utf8::{
    decode_utf8, decode_utf8_encode_utf8, partial_valid_utf8, partial_valid_utf8_extend_ascii_block,
    valid_utf8,
};

verus! {

/// Errors of the tag path parser.
#[derive(Debug, Clone, Copy, PartialEq, Eq)]
pub enum PathError {
    Empty,
    UnexpectedByte(u8),
    SyntaxError,
    NumberParseError,
    NameTooLong,
    NameParseError,
    Eof,
}

/// What a path error says.
pub open spec fn path_error_message(e: PathError) -> Seq<char> {
    match e {
        PathError::Empty => "input buffer is empty"@,
        PathError::UnexpectedByte(c) => "syntax error - unexpected byte: "@ + seq!['0', 'x']
            + hex_digits(c as nat),
        PathError::SyntaxError => "syntax error"@,
        PathError::NumberParseError => "syntax error - parse number failure"@,
        PathError::NameTooLong => "syntax error - name too long"@,
        PathError::NameParseError => "syntax error - parse name failure"@,
        PathError::Eof => "syntax error - unexpected end of input buffer"@,
    }
}

impl PathError {
    /// The description of the error.
    pub fn message(&self) -> (s: String)
        ensures
            s@ == path_error_message(*self),
    {
        match self {
            PathError::Empty => "input buffer is empty".to_owned(),
            PathError::UnexpectedByte(c) => {
                let mut s = "syntax error - unexpected byte: ".to_owned();
                let hex = hex_text(*c as u16);
                s.append(hex.as_str());
                s
            },
            PathError::SyntaxError => "syntax error".to_owned(),
            PathError::NumberParseError => "syntax error - parse number failure".to_owned(),
            PathError::NameTooLong => "syntax error - name too long".to_owned(),
            PathError::NameParseError => "syntax error - parse name failure".to_owned(),
            PathError::Eof => "syntax error - unexpected end of input buffer".to_owned(),
        }
    }
}

/// A parsed piece of a tag path: a symbol name or an element index.
pub enum PathPart {
    Name(Seq<u8>),
    Index(u32),
}

/// Longest symbol name accepted (see 1756-pm020, page 12).
pub const MAX_NAME_LEN: usize = 40;

/// Longest run of digits accepted for an index (`u32::MAX` has 10 digits).
pub const MAX_DIGITS: usize = 10;

/// The byte classes that runs are made of.
#[derive(Debug, Clone, Copy, PartialEq, Eq)]
pub enum CharClass {
    /// `0-9`
    Digit,
    /// `_`, `0-9`, `a-z`, `A-Z`
    NameChar,
}

pub open spec fn spec_is_digit(c: u8) -> bool {
    48 <= c <= 57
}

pub open spec fn spec_is_alphabet(c: u8) -> bool {
    (97 <= c <= 122) || (65 <= c <= 90)
}

pub open spec fn spec_is_valid_char(c: u8) -> bool {
    c == 95 || spec_is_digit(c) || spec_is_alphabet(c)
}

pub open spec fn in_class(c: u8, class: CharClass) -> bool {
    match class {
        CharClass::Digit => spec_is_digit(c),
        CharClass::NameChar => spec_is_valid_char(c),
    }
}

/// Number of leading bytes of `s` in `class`.
pub open spec fn run_len(s: Seq<u8>, class: CharClass) -> nat
    decreases s.len(),
{
    if s.len() > 0 && in_class(s[0], class) {
        1 + run_len(s.drop_first(), class)
    } else {
        0
    }
}

/// Decimal value of a run of digits.
pub open spec fn decimal(d: Seq<u8>) -> nat
    decreases d.len(),
{
    if d.len() == 0 {
        0
    } else {
        decimal(d.drop_last()) * 10 + (d.last() - 48) as nat
    }
}

/// ASCII lower case of a byte.
pub open spec fn ascii_lower(c: u8) -> u8 {
    if 65 <= c <= 90 {
        (c + 32) as u8
    } else {
        c
    }
}

/// `program:`
pub open spec fn program_prefix() -> Seq<u8> {
    seq![112u8, 114u8, 111u8, 103u8, 114u8, 97u8, 109u8, 58u8]
}

/// Whether `s` starts with `program:`, ignoring ASCII case.
pub open spec fn spec_has_program(s: Seq<u8>) -> bool {
    s.len() >= 8 && forall|k: int| 0 <= k < 8 ==> ascii_lower(#[trigger] s[k]) == program_prefix()[k]
}

/// An index: one to ten digits whose value fits in `u32`.
pub open spec fn spec_parse_number(s: Seq<u8>) -> Result<(u32, Seq<u8>), PathError> {
    let n = run_len(s, CharClass::Digit);
    if s.len() == 0 {
        Err(PathError::Eof)
    } else if n == 0 || n > 10 {
        Err(PathError::NumberParseError)
    } else if decimal(s.take(n as int)) > u32::MAX {
        Err(PathError::NumberParseError)
    } else {
        Ok((decimal(s.take(n as int)) as u32, s.skip(n as int)))
    }
}

/// A symbol name: starts with `_` or a letter, then name characters; with
/// `allow_colon`, a leading `program:` (any case) is part of the name.
pub open spec fn spec_parse_symbol(s: Seq<u8>, allow_colon: bool) -> Result<(Seq<u8>, Seq<u8>), PathError> {
    if s.len() == 0 {
        Err(PathError::Eof)
    } else if !(s[0] == 95 || spec_is_alphabet(s[0])) {
        Err(PathError::NameParseError)
    } else {
        let skip: int = if allow_colon && spec_has_program(s) { 8 } else { 0 };
        let n = run_len(s.skip(skip), CharClass::NameChar);
        if n == 0 {
            Err(PathError::NameParseError)
        } else if skip + n > 40 {
            Err(PathError::NameTooLong)
        } else {
            Ok((s.take(skip + n), s.skip(skip + n)))
        }
    }
}

/// A comma separated list of indices closed by `]` (the `[` already read).
pub open spec fn spec_parse_numbers(s: Seq<u8>) -> Result<(Seq<u32>, Seq<u8>), PathError>
    decreases s.len(),
{
    match spec_parse_number(s) {
        Err(e) => Err(e),
        Ok((v, rest)) => {
            proof {
                lemma_parse_number_shrinks(s);
            }
            if rest.len() == 0 {
                Err(PathError::Eof)
            } else if rest[0] == 44 {
                match spec_parse_numbers(rest.drop_first()) {
                    Ok((vs, r)) => Ok((seq![v] + vs, r)),
                    Err(e) => Err(e),
                }
            } else if rest[0] == 93 {
                Ok((seq![v], rest.drop_first()))
            } else {
                Err(PathError::UnexpectedByte(rest[0]))
            }
        },
    }
}

/// The parts of a list of indices.
pub open spec fn index_parts(vs: Seq<u32>) -> Seq<PathPart> {
    vs.map_values(|v: u32| PathPart::Index(v))
}

/// A symbol name, followed by an optional `[i, j, ...]` list of indices.
pub open spec fn spec_parse_symbol_and_numbers(s: Seq<u8>, allow_colon: bool) -> Result<(Seq<PathPart>, Seq<u8>), PathError> {
    match spec_parse_symbol(s, allow_colon) {
        Err(e) => Err(e),
        Ok((name, rest)) => {
            if rest.len() > 0 && rest[0] == 91 {
                match spec_parse_numbers(rest.drop_first()) {
                    Ok((vs, r)) => Ok((seq![PathPart::Name(name)] + index_parts(vs), r)),
                    Err(e) => Err(e),
                }
            } else {
                Ok((seq![PathPart::Name(name)], rest))
            }
        },
    }
}

/// What follows the first member: `.member` parts, or a final `.bit`
/// with a bit number below 32.
pub open spec fn spec_parse_members(s: Seq<u8>) -> Result<Seq<PathPart>, PathError>
    decreases s.len(),
{
    if s.len() == 0 {
        Ok(Seq::empty())
    } else if s[0] != 46 {
        Err(PathError::UnexpectedByte(s[0]))
    } else {
        let t = s.drop_first();
        if t.len() == 0 {
            Err(PathError::Eof)
        } else if spec_is_digit(t[0]) {
            match spec_parse_number(t) {
                Err(e) => Err(e),
                Ok((num, rest)) => {
                    if rest.len() != 0 {
                        Err(PathError::SyntaxError)
                    } else if num >= 32 {
                        Err(PathError::SyntaxError)
                    } else {
                        Ok(seq![PathPart::Index(num)])
                    }
                },
            }
        } else {
            match spec_parse_symbol_and_numbers(t, false) {
                Err(e) => Err(e),
                Ok((parts, rest)) => {
                    proof {
                        lemma_parse_symbol_and_numbers_shrinks(t, false);
                    }
                    match spec_parse_members(rest) {
                        Ok(more) => Ok(parts + more),
                        Err(e) => Err(e),
                    }
                },
            }
        }
    }
}

/// A whole tag path.
pub open spec fn spec_parse_tag(s: Seq<u8>) -> Result<Seq<PathPart>, PathError> {
    if s.len() == 0 {
        Err(PathError::Empty)
    } else {
        match spec_parse_symbol_and_numbers(s, true) {
            Err(e) => Err(e),
            Ok((parts, rest)) => match spec_parse_members(rest) {
                Ok(more) => Ok(parts + more),
                Err(e) => Err(e),
            },
        }
    }
}

/// An ASCII letter, `a` to `z` or `A` to `Z`.
pub open spec fn ascii_letter(c: u8) -> bool {
    ('a' as u8 <= c && c <= 'z' as u8) || ('A' as u8 <= c && c <= 'Z' as u8)
}

/// A name byte is a letter exactly when it is one of the 52 ASCII letters.
pub proof fn lemma_letters(c: u8)
    ensures
        spec_is_alphabet(c) <==> ascii_letter(c),
{
}

/// An identifier of at most 40 bytes (a letter or `_`, then letters,
/// digits and `_`) is a tag path of one symbol: itself.
pub proof fn lemma_identifier_parses(s: Seq<u8>)
    requires
        1 <= s.len() <= 40,
        s[0] == '_' as u8 || ascii_letter(s[0]),
        forall|k: int|
            0 <= k < s.len() ==> #[trigger] ascii_letter(s[k]) || s[k] == '_' as u8 || ('0' as u8
                <= s[k] && s[k] <= '9' as u8),
    ensures
        spec_parse_tag(s) == Ok::<Seq<PathPart>, PathError>(seq![PathPart::Name(s)]),
{
    assert forall|k: int| 0 <= k < s.len() implies in_class(#[trigger] s[k], CharClass::NameChar) by {
        assert(ascii_letter(s[k]) || s[k] == 95 || (48 <= s[k] && s[k] <= 57));
    }
    if s.len() >= 8 {
        assert(ascii_lower(s[7]) != 58u8);
        assert(program_prefix()[7] == 58u8);
        assert(!spec_has_program(s));
    }
    assert(s.skip(0) =~= s);
    lemma_run_len_exact(s, CharClass::NameChar, s.len() as int);
    assert(s.take(s.len() as int) =~= s);
    assert(s.skip(s.len() as int) =~= Seq::<u8>::empty());
    assert(spec_parse_symbol(s, true) == Ok::<(Seq<u8>, Seq<u8>), PathError>((s, Seq::empty())));
    assert(spec_parse_members(Seq::empty()) == Ok::<Seq<PathPart>, PathError>(Seq::empty()));
    assert(seq![PathPart::Name(s)] + Seq::<PathPart>::empty() =~= seq![PathPart::Name(s)]);
}

/// The decimal digits of `v` in ASCII, most significant first, with no
/// leading zero.
pub open spec fn decimal_digits(v: nat) -> Seq<u8>
    decreases v,
{
    if v < 10 {
        seq![(48 + v) as u8]
    } else {
        decimal_digits(v / 10).push((48 + v % 10) as u8)
    }
}

/// The digits of `v` are ASCII digits, read back as `v`, and there are at
/// most `k` of them when `v < 10^k`.
proof fn lemma_decimal_digits(v: nat, k: nat)
    requires
        k >= 1,
        v < pow10(k),
    ensures
        1 <= decimal_digits(v).len() <= k,
        forall|i: int|
            0 <= i < decimal_digits(v).len() ==> 48 <= #[trigger] decimal_digits(v)[i] <= 57,
        decimal(decimal_digits(v)) == v,
    decreases v,
{
    let d = decimal_digits(v);
    if v >= 10 {
        assert(k >= 2) by {
            if k == 1 {
                assert(pow10(1) == 10 * pow10(0));
            }
        }
        assert(pow10(k) == 10 * pow10((k - 1) as nat));
        assert(v / 10 < pow10((k - 1) as nat));
        lemma_decimal_digits(v / 10, (k - 1) as nat);
        let p = decimal_digits(v / 10);
        assert(d.drop_last() =~= p);
        assert forall|i: int| 0 <= i < d.len() implies 48 <= #[trigger] d[i] <= 57 by {
            if i < p.len() {
                assert(d[i] == p[i]);
            }
        }
        assert(v == (v / 10) * 10 + v % 10);
        assert(d.last() == (48 + v % 10) as u8);
        assert(decimal(d) == decimal(p) * 10 + (d.last() - 48) as nat);
    } else {
        assert(d.drop_last() =~= Seq::<u8>::empty());
        assert(decimal(d.drop_last()) == 0);
        assert(decimal(d) == decimal(d.drop_last()) * 10 + (d.last() - 48) as nat);
    }
}

/// An identifier followed by one index in brackets, written in decimal
/// with no leading zero, is a tag path of that symbol and that element.
pub proof fn lemma_indexed_identifier_parses(s: Seq<u8>, v: u32)
    requires
        1 <= s.len() <= 40,
        s[0] == '_' as u8 || ascii_letter(s[0]),
        forall|k: int|
            0 <= k < s.len() ==> #[trigger] ascii_letter(s[k]) || s[k] == '_' as u8 || ('0' as u8
                <= s[k] && s[k] <= '9' as u8),
    ensures
        spec_parse_tag(s + seq!['[' as u8] + decimal_digits(v as nat) + seq![']' as u8])
            == Ok::<Seq<PathPart>, PathError>(seq![PathPart::Name(s), PathPart::Index(v)]),
{
    let d = decimal_digits(v as nat);
    let t = s + seq![91u8] + d + seq![93u8];
    assert(pow10(0) == 1);
    assert(pow10(1) == 10);
    assert(pow10(2) == 100);
    assert(pow10(3) == 1000);
    assert(pow10(4) == 10000);
    assert(pow10(5) == 100000);
    assert(pow10(6) == 1000000);
    assert(pow10(7) == 10000000);
    assert(pow10(8) == 100000000);
    assert(pow10(9) == 1000000000);
    assert(pow10(10) == 10000000000);
    lemma_decimal_digits(v as nat, 10);
    assert forall|k: int| 0 <= k < s.len() implies in_class(#[trigger] t[k], CharClass::NameChar) by {
        assert(t[k] == s[k]);
        assert(ascii_letter(s[k]) || s[k] == 95 || (48 <= s[k] && s[k] <= 57));
    }
    assert(t[s.len() as int] == 91u8);
    if t.len() >= 8 {
        assert(t[7] != 58u8);
        assert(ascii_lower(t[7]) != 58u8);
        assert(program_prefix()[7] == 58u8);
        assert(!spec_has_program(t));
    }
    assert(t.skip(0) =~= t);
    lemma_run_len_exact(t, CharClass::NameChar, s.len() as int);
    assert(t.take(s.len() as int) =~= s);
    let rest = t.skip(s.len() as int);
    assert(rest =~= seq![91u8] + d + seq![93u8]);
    assert(spec_parse_symbol(t, true) == Ok::<(Seq<u8>, Seq<u8>), PathError>((s, rest)));
    let u = rest.drop_first();
    assert(u =~= d + seq![93u8]);
    assert forall|k: int| 0 <= k < d.len() implies in_class(#[trigger] u[k], CharClass::Digit) by {
        assert(u[k] == d[k]);
    }
    lemma_run_len_exact(u, CharClass::Digit, d.len() as int);
    assert(u.take(d.len() as int) =~= d);
    assert(u.skip(d.len() as int) =~= seq![93u8]);
    assert(spec_parse_number(u) == Ok::<(u32, Seq<u8>), PathError>((v, seq![93u8])));
    assert(seq![93u8].drop_first() =~= Seq::<u8>::empty());
    assert(spec_parse_numbers(u) == Ok::<(Seq<u32>, Seq<u8>), PathError>((seq![v], Seq::empty())));
    assert(index_parts(seq![v]) =~= seq![PathPart::Index(v)]);
    assert(spec_parse_members(Seq::empty()) == Ok::<Seq<PathPart>, PathError>(Seq::empty()));
    assert(seq![PathPart::Name(s)] + seq![PathPart::Index(v)] + Seq::<PathPart>::empty() =~= seq![
        PathPart::Name(s),
        PathPart::Index(v),
    ]);
}

/// A run is no longer than the sequence it starts.
pub proof fn lemma_run_len_bound(s: Seq<u8>, class: CharClass)
    ensures
        run_len(s, class) <= s.len(),
        forall|k: int| 0 <= k < run_len(s, class) ==> in_class(#[trigger] s[k], class),
        run_len(s, class) < s.len() ==> !in_class(s[run_len(s, class) as int], class),
    decreases s.len(),
{
    if s.len() > 0 && in_class(s[0], class) {
        lemma_run_len_bound(s.drop_first(), class);
        assert forall|k: int| 0 <= k < run_len(s, class) implies in_class(#[trigger] s[k], class) by {
            if k > 0 {
                assert(s[k] == s.drop_first()[k - 1]);
            }
        }
    }
}

/// A parsed index leaves a strictly shorter suffix.
pub proof fn lemma_parse_number_shrinks(s: Seq<u8>)
    ensures
        spec_parse_number(s) matches Ok((v, rest)) ==> rest.len() < s.len() && rest == s.skip(
            s.len() - rest.len(),
        ),
{
    lemma_run_len_bound(s, CharClass::Digit);
}

/// A parsed index list leaves a strictly shorter suffix.
pub proof fn lemma_parse_numbers_shrinks(s: Seq<u8>)
    ensures
        spec_parse_numbers(s) matches Ok((vs, rest)) ==> rest.len() < s.len(),
    decreases s.len(),
{
    lemma_parse_number_shrinks(s);
    if let Ok((v, rest)) = spec_parse_number(s) {
        if rest.len() > 0 && rest[0] == 44 {
            lemma_parse_numbers_shrinks(rest.drop_first());
        }
    }
}

/// A parsed name with its indices leaves a strictly shorter suffix.
pub proof fn lemma_parse_symbol_and_numbers_shrinks(s: Seq<u8>, allow_colon: bool)
    ensures
        spec_parse_symbol_and_numbers(s, allow_colon) matches Ok((p, rest)) ==> rest.len() < s.len(),
{
    if s.len() > 0 {
        let skip: int = if allow_colon && spec_has_program(s) { 8 } else { 0 };
        lemma_run_len_bound(s.skip(skip), CharClass::NameChar);
        if let Ok((name, rest)) = spec_parse_symbol(s, allow_colon) {
            if rest.len() > 0 && rest[0] == 91 {
                lemma_parse_numbers_shrinks(rest.drop_first());
            }
        }
    }
}

/// Whether a segment is what a parsed part stands for.
pub open spec fn segment_is_part(seg: Segment, part: PathPart) -> bool {
    match (seg, part) {
        (Segment::Symbol(s), PathPart::Name(n)) => string_bytes(s) == n,
        (Segment::Element(v), PathPart::Index(w)) => v == w,
        _ => false,
    }
}

/// Whether a list of segments is what a list of parsed parts stands for.
pub open spec fn segments_are_parts(segs: Seq<Segment>, parts: Seq<PathPart>) -> bool {
    &&& segs.len() == parts.len()
    &&& forall|i: int| 0 <= i < segs.len() ==> segment_is_part(#[trigger] segs[i], parts[i])
}

/// The run of `class` bytes at the start of `s` ends at `i`.
pub proof fn lemma_run_len_exact(s: Seq<u8>, class: CharClass, i: int)
    requires
        0 <= i <= s.len(),
        forall|k: int| 0 <= k < i ==> in_class(#[trigger] s[k], class),
        i == s.len() || !in_class(s[i], class),
    ensures
        run_len(s, class) == i,
    decreases i,
{
    if i > 0 {
        assert forall|k: int| 0 <= k < i - 1 implies in_class(#[trigger] s.drop_first()[k], class) by {
            assert(s.drop_first()[k] == s[k + 1]);
        }
        lemma_run_len_exact(s.drop_first(), class, i - 1);
    }
}

/// `10^n`
pub open spec fn pow10(n: nat) -> nat
    decreases n,
{
    if n == 0 {
        1
    } else {
        10 * pow10((n - 1) as nat)
    }
}

fn is_digit(c: u8) -> (b: bool)
    ensures
        b == spec_is_digit(c),
{
    c >= 48 && c <= 57
}

fn is_alphabet(c: u8) -> (b: bool)
    ensures
        b == spec_is_alphabet(c),
{
    if c >= 97 && c <= 122 {
        true
    } else {
        c >= 65 && c <= 90
    }
}

fn is_valid_char(c: u8) -> (b: bool)
    ensures
        b == spec_is_valid_char(c),
{
    c == 95 || is_digit(c) || is_alphabet(c)
}

fn is_in_class(c: u8, class: CharClass) -> (b: bool)
    ensures
        b == in_class(c, class),
{
    match class {
        CharClass::Digit => is_digit(c),
        CharClass::NameChar => is_valid_char(c),
    }
}

fn check_eof(buf: &[u8]) -> (r: Result<(), PathError>)
    ensures
        r is Ok <==> buf@.len() > 0,
        r matches Err(e) ==> e == PathError::Eof,
{
    if buf.is_empty() {
        Err(PathError::Eof)
    } else {
        Ok(())
    }
}

/// Splits `buf` after its leading run of `class` bytes, if that run is not
/// empty.
fn split(buf: &[u8], class: CharClass) -> (r: Option<(&[u8], &[u8])>)
    ensures
        r is Some <==> run_len(buf@, class) > 0,
        r matches Some((a, b)) ==> a@ == buf@.take(run_len(buf@, class) as int) && b@ == buf@.skip(
            run_len(buf@, class) as int,
        ),
{
    let n = buf.len();
    let mut i: usize = 0;
    while i < n && is_in_class(buf[i], class)
        invariant
            n == buf@.len(),
            0 <= i <= n,
            forall|k: int| 0 <= k < i ==> in_class(#[trigger] buf@[k], class),
        decreases n - i,
    {
        i += 1;
    }
    proof {
        lemma_run_len_exact(buf@, class, i as int);
    }
    if i > 0 {
        let (a, b) = buf.split_at(i);
        assert(a@ =~= buf@.take(i as int));
        assert(b@ =~= buf@.skip(i as int));
        Some((a, b))
    } else {
        None
    }
}

/// Takes the leading run of `class` bytes off `buf`, if it is not empty.
fn take_one_plus<'a>(buf: &mut &'a [u8], class: CharClass) -> (r: Option<&'a [u8]>)
    ensures
        r is Some <==> run_len(old(buf)@, class) > 0,
        r matches Some(a) ==> a@ == old(buf)@.take(run_len(old(buf)@, class) as int)
            && final(buf)@ == old(buf)@.skip(run_len(old(buf)@, class) as int),
        r is None ==> final(buf)@ == old(buf)@,
{
    if let Some((first, rest)) = split(*buf, class) {
        *buf = rest;
        Some(first)
    } else {
        None
    }
}

fn ascii_lower_exec(c: u8) -> (r: u8)
    ensures
        r == ascii_lower(c),
{
    if c >= 65 && c <= 90 {
        c + 32
    } else {
        c
    }
}

/// check program prefix ignore case
fn has_program(buf: &[u8]) -> (b: bool)
    ensures
        b == spec_has_program(buf@),
{
    if buf.len() >= 8 {
        let prefix: [u8; 8] = [112, 114, 111, 103, 114, 97, 109, 58];
        let mut k: usize = 0;
        while k < 8
            invariant
                buf@.len() >= 8,
                prefix@ == program_prefix(),
                0 <= k <= 8,
                forall|j: int| 0 <= j < k ==> ascii_lower(#[trigger] buf@[j]) == program_prefix()[j],
            decreases 8 - k,
        {
            if ascii_lower_exec(buf[k]) != prefix[k] {
                return false;
            }
            k += 1;
        }
        true
    } else {
        false
    }
}

/// Parses an index: one to ten digits whose value fits in `u32`.
fn parse_number(buf: &mut &[u8]) -> (r: Result<u32, PathError>)
    ensures
        match spec_parse_number(old(buf)@) {
            Ok((v, rest)) => r == Ok::<u32, PathError>(v) && final(buf)@ == rest,
            Err(e) => r == Err::<u32, PathError>(e),
        },
{
    let ghost s = buf@;
    check_eof(*buf)?;
    proof {
        lemma_run_len_bound(s, CharClass::Digit);
    }
    let digits_buf = match take_one_plus(buf, CharClass::Digit) {
        Some(v) => {
            if v.len() > MAX_DIGITS {
                return Err(PathError::NumberParseError);
            }
            v
        },
        None => return Err(PathError::NumberParseError),
    };
    let n = digits_buf.len();
    let mut value: u64 = 0;
    let mut i: usize = 0;
    while i < n
        invariant
            n == digits_buf@.len(),
            n <= 10,
            0 <= i <= n,
            forall|k: int| 0 <= k < n ==> spec_is_digit(#[trigger] digits_buf@[k]),
            value == decimal(digits_buf@.take(i as int)),
            value < pow10(i as nat),
        decreases n - i,
    {
        proof {
            assert(digits_buf@.take(i as int + 1).drop_last() =~= digits_buf@.take(i as int));
            assert(pow10(i as nat) <= 1_000_000_000) by {
                assert(pow10(0) == 1);
                assert(pow10(1) == 10);
                assert(pow10(2) == 100);
                assert(pow10(3) == 1000);
                assert(pow10(4) == 10000);
                assert(pow10(5) == 100000);
                assert(pow10(6) == 1000000);
                assert(pow10(7) == 10000000);
                assert(pow10(8) == 100000000);
                assert(pow10(9) == 1000000000);
            }
            assert(digits_buf@[i as int] == digits_buf@.take(i as int + 1).last());
        }
        value = value * 10 + (digits_buf[i] - 48) as u64;
        i += 1;
    }
    assert(digits_buf@.take(n as int) =~= digits_buf@);
    if value > 0xFFFF_FFFF {
        Err(PathError::NumberParseError)
    } else {
        Ok(value as u32)
    }
}

/// `new` is `old` followed by segments standing for `parts`.
pub open spec fn extends_with(new: Seq<Segment>, old: Seq<Segment>, parts: Seq<PathPart>) -> bool {
    &&& new.len() == old.len() + parts.len()
    &&& new.take(old.len() as int) == old
    &&& segments_are_parts(new.skip(old.len() as int), parts)
}

proof fn lemma_extends_trans(a: Seq<Segment>, b: Seq<Segment>, c: Seq<Segment>, p: Seq<PathPart>, q: Seq<PathPart>)
    requires
        extends_with(b, a, p),
        extends_with(c, b, q),
    ensures
        extends_with(c, a, p + q),
{
    assert(c.take(a.len() as int) =~= b.take(a.len() as int));
    let cs = c.skip(a.len() as int);
    assert forall|i: int| 0 <= i < cs.len() implies segment_is_part(#[trigger] cs[i], (p + q)[i]) by {
        if i < p.len() {
            assert(cs[i] == b.skip(a.len() as int)[i]);
        } else {
            assert(cs[i] == c.skip(b.len() as int)[i - p.len()]);
        }
    }
}

proof fn lemma_extends_push(old: Seq<Segment>, seg: Segment, part: PathPart)
    requires
        segment_is_part(seg, part),
    ensures
        extends_with(old.push(seg), old, seq![part]),
{
    assert(old.push(seg).take(old.len() as int) =~= old);
    assert(old.push(seg).skip(old.len() as int) =~= seq![seg]);
}

proof fn lemma_extends_refl(old: Seq<Segment>)
    ensures
        extends_with(old, old, Seq::empty()),
{
    assert(old.take(old.len() as int) =~= old);
}

/// Names accepted by the parser are ASCII, so valid UTF-8.
proof fn lemma_name_utf8(s: Seq<u8>, skip: int, n: int)
    requires
        skip == 0 || (skip == 8 && spec_has_program(s)),
        0 <= n,
        skip + n <= s.len(),
        forall|k: int| 0 <= k < n ==> in_class(#[trigger] s.skip(skip)[k], CharClass::NameChar),
    ensures
        valid_utf8(s.take(skip + n)),
{
    let name = s.take(skip + n);
    assert forall|i: int| 0 <= 0 <= i < name.len() <= name.len() implies #[trigger] vstd::utf8::is_leading_byte_width_1(name[i]) by {
        if i < skip {
            assert(ascii_lower(s[i]) == program_prefix()[i]);
        } else {
            assert(in_class(s.skip(skip)[i - skip], CharClass::NameChar));
        }
    }
    partial_valid_utf8_extend_ascii_block(name, 0, name.len() as int);
    assert(name.subrange(0, name.len() as int) =~= name);
    assert(name.subrange(0, 0) =~= Seq::<u8>::empty());
}

/// Parses a symbol name; with `allow_colon`, a leading `program:` belongs to it.
fn parse_symbol(buf: &mut &[u8], allow_colon: bool) -> (r: Result<String, PathError>)
    ensures
        match spec_parse_symbol(old(buf)@, allow_colon) {
            Ok((name, rest)) => r matches Ok(st) && string_bytes(st) == name && final(buf)@ == rest,
            Err(e) => r == Err::<String, PathError>(e),
        },
{
    let ghost s = buf@;
    match buf.first() {
        None => return Err(PathError::Eof),
        Some(c) => {
            if !(*c == 95 || is_alphabet(*c)) {
                return Err(PathError::NameParseError);
            }
        },
    }
    let temp: &[u8] = *buf;
    let with_program = allow_colon && has_program(*buf);
    let ghost skip: int = if with_program { 8 } else { 0 };
    proof {
        lemma_run_len_bound(s.skip(skip), CharClass::NameChar);
    }
    let name_buf = if with_program {
        *buf = buf.split_at(8).1;
        assert(buf@ =~= s.skip(8));
        match take_one_plus(buf, CharClass::NameChar) {
            Some(v) => Some(temp.split_at(8 + v.len()).0),
            None => None,
        }
    } else {
        assert(s.skip(0) =~= s);
        take_one_plus(buf, CharClass::NameChar)
    };
    match name_buf {
        None => Err(PathError::NameParseError),
        Some(v) => {
            assert(v@ =~= s.take(skip + run_len(s.skip(skip), CharClass::NameChar)));
            assert(buf@ =~= s.skip(skip + run_len(s.skip(skip), CharClass::NameChar)));
            if v.len() > MAX_NAME_LEN {
                Err(PathError::NameTooLong)
            } else {
                proof {
                    lemma_name_utf8(s, skip, run_len(s.skip(skip), CharClass::NameChar) as int);
                    decode_utf8_encode_utf8(v@);
                }
                match string_from_utf8(slice_to_vec(v)) {
                    Some(name) => Ok(name),
                    None => Err(PathError::NameParseError),
                }
            }
        },
    }
}

/// The segments standing for a list of indices.
pub open spec fn element_segments(vs: Seq<u32>) -> Seq<Segment> {
    vs.map_values(|v: u32| Segment::Element(v))
}

/// Parses `i, j, ...]` (the `[` already read), pushing one element segment
/// per index.
fn parse_numbers(buf: &mut &[u8], res: &mut EPath) -> (r: Result<(), PathError>)
    ensures
        match spec_parse_numbers(old(buf)@) {
            Ok((vs, rest)) => r is Ok && final(buf)@ == rest && extends_with(
                final(res)@,
                old(res)@,
                index_parts(vs),
            ),
            Err(e) => r == Err::<(), PathError>(e),
        },
{
    let ghost s0 = buf@;
    let ghost r0 = res@;
    let ghost mut done: Seq<u32> = Seq::empty();
    let mut count: usize = 0;
    let total = buf.len();
    proof {
        lemma_extends_refl(r0);
        assert(index_parts(done) =~= Seq::<PathPart>::empty());
    }
    loop
        invariant_except_break
            s0 == old(buf)@,
            r0 == old(res)@,
            s0.len() <= usize::MAX,
            count == done.len(),
            count + buf@.len() <= s0.len(),
            extends_with(res@, r0, index_parts(done)),
            spec_parse_numbers(s0) == match spec_parse_numbers(buf@) {
                Ok((vs, rest)) => Ok::<(Seq<u32>, Seq<u8>), PathError>((done + vs, rest)),
                Err(e) => Err(e),
            },
        ensures
            s0 == old(buf)@,
            r0 == old(res)@,
            count > 0,
            spec_parse_numbers(s0) matches Ok((vs, rest)) && vs == done && rest == buf@,
            extends_with(res@, r0, index_parts(done)),
        decreases buf@.len(),
    {
        let ghost b = buf@;
        proof {
            lemma_parse_number_shrinks(b);
        }
        let idx = match parse_number(buf) {
            Ok(v) => v,
            Err(e) => {
                assert(spec_parse_numbers(b) == Err::<(Seq<u32>, Seq<u8>), PathError>(e));
                return Err(e);
            },
        };
        assert(spec_parse_number(b) == Ok::<(u32, Seq<u8>), PathError>((idx, buf@)));
        let ghost after_num = buf@;
        let ghost done_before = done;
        let ghost res_before = res@;
        res.push(Segment::Element(idx));
        proof {
            lemma_extends_push(res_before, Segment::Element(idx), PathPart::Index(idx));
            lemma_extends_trans(r0, res_before, res@, index_parts(done), seq![PathPart::Index(idx)]);
            assert(index_parts(done) + seq![PathPart::Index(idx)] =~= index_parts(done.push(idx)));
            done = done.push(idx);
        }
        count += 1;
        match buf.first() {
            Some(c) => {
                if *c == 44 {
                    *buf = buf.split_at(1).1;
                    proof {
                        assert(buf@ =~= after_num.drop_first());
                        let rest_after = spec_parse_numbers(buf@);
                        if let Ok((vs, rr)) = rest_after {
                            assert(done_before + (seq![idx] + vs) =~= done + vs);
                        }
                    }
                } else if *c == 93 {
                    *buf = buf.split_at(1).1;
                    proof {
                        assert(buf@ =~= after_num.drop_first());
                        assert(done_before + seq![idx] =~= done);
                    }
                    break;
                } else {
                    assert(spec_parse_numbers(b) == Err::<(Seq<u32>, Seq<u8>), PathError>(PathError::UnexpectedByte(*c)));
                    return Err(PathError::UnexpectedByte(*c));
                }
            },
            None => {
                assert(spec_parse_numbers(b) == Err::<(Seq<u32>, Seq<u8>), PathError>(PathError::Eof));
                return Err(PathError::Eof);
            },
        }
    }
    if count > 0 {
        Ok(())
    } else {
        Err(PathError::SyntaxError)
    }
}

/// Parses a symbol name and its optional index list, pushing their segments.
fn parse_symbol_and_optional_numbers(buf: &mut &[u8], res: &mut EPath, allow_colon: bool) -> (r: Result<(), PathError>)
    ensures
        match spec_parse_symbol_and_numbers(old(buf)@, allow_colon) {
            Ok((parts, rest)) => r is Ok && final(buf)@ == rest && extends_with(
                final(res)@,
                old(res)@,
                parts,
            ),
            Err(e) => r == Err::<(), PathError>(e),
        },
{
    let ghost s = buf@;
    let ghost r0 = res@;
    let sym = parse_symbol(buf, allow_colon)?;
    let ghost name = string_bytes(sym);
    let ghost after_name = buf@;
    res.push(Segment::Symbol(sym));
    proof {
        lemma_extends_push(r0, res@.last(), PathPart::Name(name));
        assert(r0.push(res@.last()) =~= res@);
    }
    match buf.first() {
        Some(c) => {
            if *c == 91 {
                *buf = buf.split_at(1).1;
                assert(buf@ =~= after_name.drop_first());
                let ghost r1 = res@;
                parse_numbers(buf, res)?;
                proof {
                    if let Ok((vs, rest)) = spec_parse_numbers(after_name.drop_first()) {
                        lemma_extends_trans(r0, r1, res@, seq![PathPart::Name(name)], index_parts(vs));
                    }
                }
            }
        },
        None => {},
    }
    Ok(())
}

impl EPath {
    /// Parses an AB tag path.
    ///
    /// tag path examples
    /// - `struct_a`
    /// - `struct_a.1`
    /// - `profile[0,1,257]`
    /// - `a.b.c`
    /// - `struct_a[1].a.b[1]`
    ///  - `Program:MainProgram.test`
    pub fn parse_tag_bytes(path: &[u8]) -> (r: Result<EPath, PathError>)
        ensures
            match spec_parse_tag(path@) {
                Ok(parts) => r matches Ok(p) && segments_are_parts(p@, parts),
                Err(e) => r == Err::<EPath, PathError>(e),
            },
    {
        let mut buf: &[u8] = path;
        if buf.is_empty() {
            return Err(PathError::Empty);
        }
        let mut res = EPath::new();
        parse_symbol_and_optional_numbers(&mut buf, &mut res, true)?;
        let ghost first = res@;
        proof {
            assert(Seq::<Segment>::empty().take(0) =~= Seq::<Segment>::empty());
            assert(res@.skip(0) =~= res@);
        }
        let ghost mut done: Seq<PathPart> = match spec_parse_symbol_and_numbers(path@, true) {
            Ok((parts, rest)) => parts,
            Err(e) => Seq::empty(),
        };
        loop
            invariant
                extends_with(res@, Seq::<Segment>::empty(), done),
                spec_parse_tag(path@) == match spec_parse_members(buf@) {
                    Ok(more) => Ok::<Seq<PathPart>, PathError>(done + more),
                    Err(e) => Err(e),
                },
            decreases buf@.len(),
        {
            let ghost b = buf@;
            match buf.first() {
                None => {
                    proof {
                        assert(done + Seq::<PathPart>::empty() =~= done);
                        assert(res@.skip(0) =~= res@);
                    }
                    return Ok(res);
                },
                Some(c) => {
                    if *c == 46 {
                        buf = buf.split_at(1).1;
                        assert(buf@ =~= b.drop_first());
                        match buf.first() {
                            Some(d) => {
                                if is_digit(*d) {
                                    let num = parse_number(&mut buf)?;
                                    if !buf.is_empty() {
                                        return Err(PathError::SyntaxError);
                                    }
                                    if num >= 32 {
                                        return Err(PathError::SyntaxError);
                                    }
                                    let ghost before = res@;
                                    res.push(Segment::Element(num));
                                    proof {
                                        lemma_extends_push(before, Segment::Element(num), PathPart::Index(num));
                                        lemma_extends_trans(Seq::<Segment>::empty(), before, res@, done, seq![PathPart::Index(num)]);
                                        done = done + seq![PathPart::Index(num)];
                                        assert(done + Seq::<PathPart>::empty() =~= done);
                                    }
                                } else {
                                    let ghost t = buf@;
                                    let ghost before = res@;
                                    proof {
                                        lemma_parse_symbol_and_numbers_shrinks(t, false);
                                    }
                                    parse_symbol_and_optional_numbers(&mut buf, &mut res, false)?;
                                    proof {
                                        if let Ok((parts, rest)) = spec_parse_symbol_and_numbers(t, false) {
                                            lemma_extends_trans(Seq::<Segment>::empty(), before, res@, done, parts);
                                            if let Ok(more) = spec_parse_members(rest) {
                                                assert(done + (parts + more) =~= (done + parts) + more);
                                            }
                                            done = done + parts;
                                        }
                                    }
                                }
                            },
                            None => return Err(PathError::Eof),
                        }
                    } else {
                        return Err(PathError::UnexpectedByte(*c));
                    }
                },
            }
        }
    }
}

/// AB tag path parser
pub trait PathParser: Sized {
    /// parse tag path
    fn parse_tag(path: &str) -> Result<Self, PathError>;
}

impl PathParser for EPath {
    /// Parses the UTF-8 bytes of `path` as an AB tag path.
    fn parse_tag(path: &str) -> (r: Result<EPath, PathError>)
        ensures
            match spec_parse_tag(path.spec_bytes()) {
                Ok(parts) => r matches Ok(p) && segments_are_parts(p@, parts),
                Err(e) => r == Err::<EPath, PathError>(e),
            },
    {
        EPath::parse_tag_bytes(path.as_bytes())
    }
}

} // verus!
