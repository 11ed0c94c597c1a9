//! The gzip member header as a function on bytes: what each field is, where it ends, and
//! which error a malformed header gives.
use crate::error::GzipError;
use crate::helper::{gzip_crc32, low16};
use crate::input::eof_error;
use crate::{
    extra_flags_of, operating_system_of, CompressionMethod, Header, OptionalsView, FCOMMENT_BIT,
    FEXTRA_BIT, FHCRC_BIT, FNAME_BIT, ID1, ID2,
};
use vstd::prelude::*;

verus! {

/// Length of the fixed part of the header.
pub const FIXED_HEADER_LEN: usize = 10;

/// The two bytes `b0 b1` read as a little-endian number.
pub open spec fn le_u16(b0: u8, b1: u8) -> u16 {
    (b0 as int + 0x100 * (b1 as int)) as u16
}

/// The first four bytes of `b` read as a little-endian number.
pub open spec fn le_u32(b: Seq<u8>) -> u32 {
    (b[0] as int + 0x100 * (b[1] as int) + 0x10000 * (b[2] as int) + 0x1000000 * (b[3] as int)) as u32
}

/// Whether the FLG byte `bits` has the bit `flag` set.
pub open spec fn has_flag(bits: u8, flag: u8) -> bool {
    bits & flag == flag
}

/// The error of reading past the end of the input inside an optional field.
pub open spec fn input_ended() -> GzipError {
    GzipError::Io(eof_error())
}

/// The error of a fixed header cut short.
pub open spec fn truncated_header() -> GzipError {
    GzipError::UnexpectedEof { err: "failed to read header: failed to fill whole buffer" }
}

/// The error of a name or comment with no terminating zero byte.
pub open spec fn unterminated_string() -> GzipError {
    GzipError::UnexpectedEof { err: "null terminator" }
}

/// Why the fixed header at the front of `s` is refused, if it is: too short, wrong magic
/// bytes, a method other than DEFLATE, or a reserved flag bit set, in that order.
pub open spec fn fixed_header_error(s: Seq<u8>) -> Option<GzipError> {
    if s.len() < FIXED_HEADER_LEN {
        Some(truncated_header())
    } else if s[0] != ID1 || s[1] != ID2 {
        Some(GzipError::InvalidMagic(s[0], s[1]))
    } else if s[2] != 8 {
        Some(GzipError::UnsupportedMethod(s[2]))
    } else if s[3] & 0xE0 != 0 {
        Some(GzipError::ReservedFlags(s[3]))
    } else {
        None
    }
}

/// Whether `hdr` is what the valid fixed header `h` describes.
pub open spec fn header_describes(hdr: Header, h: Seq<u8>) -> bool {
    &&& hdr.compression_method == CompressionMethod::Deflate
    &&& hdr.flags.spec_bits() == h[3]
    &&& hdr.modification_time == le_u32(h.subrange(4, 8))
    &&& hdr.extra_flags == extra_flags_of(h[8])
    &&& hdr.os == operating_system_of(h[9])
}

/// The FEXTRA field at the front of `s`: XLEN in two little-endian bytes, then XLEN bytes.
/// Gives the XLEN bytes and the length of the whole field.
#[verifier::opaque]
pub open spec fn extra_field(s: Seq<u8>) -> Result<(Seq<u8>, nat), GzipError> {
    if s.len() < 2 {
        Err(input_ended())
    } else {
        let xlen = le_u16(s[0], s[1]) as nat;
        if s.len() < 2 + xlen {
            Err(input_ended())
        } else {
            Ok((s.subrange(2, (2 + xlen) as int), 2 + xlen))
        }
    }
}

/// Whether `i` is the index of the first zero byte of `s`.
pub open spec fn is_first_nul(s: Seq<u8>, i: int) -> bool {
    &&& 0 <= i < s.len()
    &&& s[i] == 0
    &&& forall|j: int| 0 <= j < i ==> s[j] != 0
}

/// The index of the first zero byte of `s`, if it has one.
pub open spec fn first_nul(s: Seq<u8>) -> Option<int> {
    if exists|i: int| is_first_nul(s, i) {
        Some(choose|i: int| is_first_nul(s, i))
    } else {
        None
    }
}

/// A zero-terminated string at the front of `s` (FNAME or FCOMMENT): its bytes without the
/// zero, and the length of the field with it.
#[verifier::opaque]
pub open spec fn zero_terminated(s: Seq<u8>) -> Result<(Seq<u8>, nat), GzipError> {
    match first_nul(s) {
        Some(i) => Ok((s.take(i), (i + 1) as nat)),
        None => Err(unterminated_string()),
    }
}

/// The check of the FHCRC field: `expected` is the value stored in the stream, `crc` the
/// CRC-32 of the header bytes before it. Gives the CRC-16 when the two agree.
pub open spec fn header_crc_check(expected: u16, crc: u32) -> Result<u16, GzipError> {
    let calculated = low16(crc);
    if expected != calculated {
        Err(GzipError::HeaderCrcMismatch { expected, calculated })
    } else {
        Ok(calculated)
    }
}

/// The FHCRC field at the front of `s`, checked against the header bytes `covered`.
#[verifier::opaque]
pub open spec fn header_crc_field(s: Seq<u8>, covered: Seq<u8>) -> Result<u16, GzipError> {
    if s.len() < 2 {
        Err(input_ended())
    } else {
        header_crc_check(le_u16(s[0], s[1]), gzip_crc32(covered))
    }
}

/// The raw optional fields at the front of the input, and how many bytes they take.
pub ghost struct RawOptionals {
    pub extra: Option<Seq<u8>>,
    pub name: Option<Seq<u8>>,
    pub comment: Option<Seq<u8>>,
    pub header_crc: Option<u16>,
    pub len: nat,
}

/// The FEXTRA field if `present`, at the front of `s`.
pub open spec fn opt_extra(present: bool, s: Seq<u8>) -> Result<(Option<Seq<u8>>, nat), GzipError> {
    if present {
        match extra_field(s) {
            Ok((x, n)) => Ok((Some(x), n)),
            Err(e) => Err(e),
        }
    } else {
        Ok((None, 0))
    }
}

/// A zero-terminated string if `present`, at the front of `s`.
pub open spec fn opt_string(present: bool, s: Seq<u8>) -> Result<(Option<Seq<u8>>, nat), GzipError> {
    if present {
        match zero_terminated(s) {
            Ok((x, n)) => Ok((Some(x), n)),
            Err(e) => Err(e),
        }
    } else {
        Ok((None, 0))
    }
}

/// The FHCRC field if `present`, at the front of `s`, checked against `covered`.
pub open spec fn opt_crc(present: bool, s: Seq<u8>, covered: Seq<u8>) -> Result<(Option<u16>, nat), GzipError> {
    if present {
        match header_crc_field(s, covered) {
            Ok(c) => Ok((Some(c), 2)),
            Err(e) => Err(e),
        }
    } else {
        Ok((None, 0))
    }
}

/// The optional fields that the FLG byte `bits` announces, read from the front of `s`, in
/// the order of RFC 1952: FEXTRA, FNAME, FCOMMENT, FHCRC. `covered` holds the header
/// bytes before `s`; the FHCRC field is checked against them and the optional bytes before it.
#[verifier::opaque]
pub open spec fn optional_fields(bits: u8, s: Seq<u8>, covered: Seq<u8>) -> Result<RawOptionals, GzipError> {
    match opt_extra(has_flag(bits, FEXTRA_BIT), s) {
        Err(e) => Err(e),
        Ok((extra, n1)) => fields_from_name(bits, s, covered, extra, n1),
    }
}

/// The optional fields from FNAME on, which start at offset `at` of `s`.
#[verifier::opaque]
pub open spec fn fields_from_name(
    bits: u8,
    s: Seq<u8>,
    covered: Seq<u8>,
    extra: Option<Seq<u8>>,
    at: nat,
) -> Result<RawOptionals, GzipError> {
    match opt_string(has_flag(bits, FNAME_BIT), s.skip(at as int)) {
        Err(e) => Err(e),
        Ok((name, n)) => fields_from_comment(bits, s, covered, extra, name, at + n),
    }
}

/// The optional fields from FCOMMENT on, which start at offset `at` of `s`.
#[verifier::opaque]
pub open spec fn fields_from_comment(
    bits: u8,
    s: Seq<u8>,
    covered: Seq<u8>,
    extra: Option<Seq<u8>>,
    name: Option<Seq<u8>>,
    at: nat,
) -> Result<RawOptionals, GzipError> {
    match opt_string(has_flag(bits, FCOMMENT_BIT), s.skip(at as int)) {
        Err(e) => Err(e),
        Ok((comment, n)) => fields_from_crc(bits, s, covered, extra, name, comment, at + n),
    }
}

/// The FHCRC field, which starts at offset `at` of `s`, and the fields read before it.
#[verifier::opaque]
pub open spec fn fields_from_crc(
    bits: u8,
    s: Seq<u8>,
    covered: Seq<u8>,
    extra: Option<Seq<u8>>,
    name: Option<Seq<u8>>,
    comment: Option<Seq<u8>>,
    at: nat,
) -> Result<RawOptionals, GzipError> {
    match opt_crc(has_flag(bits, FHCRC_BIT), s.skip(at as int), covered + s.take(at as int)) {
        Err(e) => Err(e),
        Ok((header_crc, n)) => Ok(RawOptionals { extra, name, comment, header_crc, len: at + n }),
    }
}

/// Bytes read as Latin-1: each byte is the character with that code point.
pub open spec fn latin1(b: Seq<u8>) -> Seq<char> {
    Seq::new(b.len(), |i: int| b[i] as char)
}

/// An optional byte string read as Latin-1.
pub open spec fn opt_latin1(b: Option<Seq<u8>>) -> Option<Seq<char>> {
    match b {
        Some(x) => Some(latin1(x)),
        None => None,
    }
}

/// The decoded optional fields.
pub open spec fn optionals_view(r: RawOptionals) -> OptionalsView {
    OptionalsView {
        extra: r.extra,
        name: opt_latin1(r.name),
        comment: opt_latin1(r.comment),
        header_crc: r.header_crc,
    }
}

/// The bytes of a field that was read, or `before` where there was none.
pub open spec fn last_bytes(field: Option<Seq<u8>>, before: Seq<u8>) -> Seq<u8> {
    match field {
        Some(b) => b,
        None => before,
    }
}

/// The bytes of the last extra field, name or comment read; `before` if there was none.
pub open spec fn last_field_bytes(r: RawOptionals, before: Seq<u8>) -> Seq<u8> {
    last_bytes(r.comment, last_bytes(r.name, last_bytes(r.extra, before)))
}

/// The first zero byte is where it is found.
pub proof fn lemma_first_nul_at(s: Seq<u8>, i: int)
    requires
        is_first_nul(s, i),
    ensures
        first_nul(s) == Some(i),
{
    let k = choose|k: int| is_first_nul(s, k);
    assert(is_first_nul(s, k));
    if k < i {
        assert(s[k] != 0);
    }
    if i < k {
        assert(s[i] != 0);
    }
}

/// A sequence with no zero byte has no first zero byte.
pub proof fn lemma_no_nul(s: Seq<u8>)
    requires
        forall|j: int| 0 <= j < s.len() ==> s[j] != 0,
    ensures
        first_nul(s) is None,
{
    assert(!exists|i: int| is_first_nul(s, i));
}

/// Whether `s` and `s2` both hold at least `k` bytes and agree on their first `k`.
pub open spec fn agree_on_prefix(s: Seq<u8>, s2: Seq<u8>, k: int) -> bool {
    &&& 0 <= k <= s.len()
    &&& k <= s2.len()
    &&& s.take(k) == s2.take(k)
}

proof fn lemma_agree_skip(s: Seq<u8>, s2: Seq<u8>, k: int, m: int)
    requires
        agree_on_prefix(s, s2, k),
        0 <= m <= k,
    ensures
        agree_on_prefix(s.skip(m), s2.skip(m), k - m),
        s.take(m) == s2.take(m),
{
    assert(s.skip(m).take(k - m) =~= s.take(k).skip(m));
    assert(s2.skip(m).take(k - m) =~= s2.take(k).skip(m));
    assert(s.take(m) =~= s.take(k).take(m));
    assert(s2.take(m) =~= s2.take(k).take(m));
}

proof fn lemma_agree_index(s: Seq<u8>, s2: Seq<u8>, k: int, j: int)
    requires
        agree_on_prefix(s, s2, k),
        0 <= j < k,
    ensures
        s[j] == s2[j],
{
    assert(s.take(k)[j] == s2.take(k)[j]);
}

proof fn lemma_extra_field_prefix(s: Seq<u8>, s2: Seq<u8>)
    requires
        extra_field(s) is Ok,
        agree_on_prefix(s, s2, extra_field(s)->Ok_0.1 as int),
    ensures
        extra_field(s2) == extra_field(s),
{
    reveal(extra_field);
    let k = extra_field(s)->Ok_0.1 as int;
    lemma_agree_index(s, s2, k, 0);
    lemma_agree_index(s, s2, k, 1);
    assert(s.subrange(2, k) =~= s.take(k).subrange(2, k));
    assert(s2.subrange(2, k) =~= s2.take(k).subrange(2, k));
}

proof fn lemma_zero_terminated_prefix(s: Seq<u8>, s2: Seq<u8>)
    requires
        zero_terminated(s) is Ok,
        agree_on_prefix(s, s2, zero_terminated(s)->Ok_0.1 as int),
    ensures
        zero_terminated(s2) == zero_terminated(s),
{
    reveal(zero_terminated);
    let k = zero_terminated(s)->Ok_0.1 as int;
    let i = first_nul(s)->Some_0;
    assert(is_first_nul(s, i)) by {
        assert(exists|i: int| is_first_nul(s, i));
    }
    assert forall|j: int| 0 <= j <= i implies s2[j] == s[j] by {
        lemma_agree_index(s, s2, k, j);
    }
    assert(is_first_nul(s2, i));
    lemma_first_nul_at(s2, i);
    assert(s.take(i) =~= s.take(k).take(i));
    assert(s2.take(i) =~= s2.take(k).take(i));
}

proof fn lemma_header_crc_field_prefix(s: Seq<u8>, s2: Seq<u8>, covered: Seq<u8>)
    requires
        header_crc_field(s, covered) is Ok,
        agree_on_prefix(s, s2, 2),
    ensures
        header_crc_field(s2, covered) == header_crc_field(s, covered),
{
    reveal(header_crc_field);
    lemma_agree_index(s, s2, 2, 0);
    lemma_agree_index(s, s2, 2, 1);
}

/// The optional fields are decided by the bytes that they take: any input that agrees
/// with `s` on those bytes gives the same fields. In particular the payload that follows
/// a header never changes how the header is read.
pub proof fn lemma_optional_fields_depend_on_prefix(bits: u8, s: Seq<u8>, s2: Seq<u8>, covered: Seq<u8>)
    requires
        optional_fields(bits, s, covered) is Ok,
        agree_on_prefix(s, s2, optional_fields(bits, s, covered)->Ok_0.len as int),
    ensures
        optional_fields(bits, s2, covered) == optional_fields(bits, s, covered),
{
    reveal(optional_fields);
    reveal(fields_from_name);
    reveal(fields_from_comment);
    reveal(fields_from_crc);
    let k = optional_fields(bits, s, covered)->Ok_0.len as int;
    // FEXTRA
    let (extra, n1) = opt_extra(has_flag(bits, FEXTRA_BIT), s)->Ok_0;
    if has_flag(bits, FEXTRA_BIT) {
        let p = extra_field(s)->Ok_0.1 as int;
        assert(p <= k);
        lemma_agree_skip(s, s2, k, p);
        assert(agree_on_prefix(s, s2, p)) by {
            assert(s.take(p) =~= s.take(k).take(p));
            assert(s2.take(p) =~= s2.take(k).take(p));
        }
        lemma_extra_field_prefix(s, s2);
    }
    assert(opt_extra(has_flag(bits, FEXTRA_BIT), s2) == opt_extra(has_flag(bits, FEXTRA_BIT), s));
    // FNAME
    let s_1 = s.skip(n1 as int);
    let s2_1 = s2.skip(n1 as int);
    lemma_agree_skip(s, s2, k, n1 as int);
    let (name, m2) = opt_string(has_flag(bits, FNAME_BIT), s_1)->Ok_0;
    if has_flag(bits, FNAME_BIT) {
        let p = m2 as int;
        assert(agree_on_prefix(s_1, s2_1, p)) by {
            assert(s_1.take(p) =~= s_1.take(k - n1).take(p));
            assert(s2_1.take(p) =~= s2_1.take(k - n1).take(p));
        }
        lemma_zero_terminated_prefix(s_1, s2_1);
    }
    let n2 = n1 + m2;
    // FCOMMENT
    let s_2 = s.skip(n2 as int);
    let s2_2 = s2.skip(n2 as int);
    lemma_agree_skip(s, s2, k, n2 as int);
    let (comment, m3) = opt_string(has_flag(bits, FCOMMENT_BIT), s_2)->Ok_0;
    if has_flag(bits, FCOMMENT_BIT) {
        let p = m3 as int;
        assert(agree_on_prefix(s_2, s2_2, p)) by {
            assert(s_2.take(p) =~= s_2.take(k - n2).take(p));
            assert(s2_2.take(p) =~= s2_2.take(k - n2).take(p));
        }
        lemma_zero_terminated_prefix(s_2, s2_2);
    }
    let n3 = n2 + m3;
    // FHCRC
    let s_3 = s.skip(n3 as int);
    let s2_3 = s2.skip(n3 as int);
    lemma_agree_skip(s, s2, k, n3 as int);
    if has_flag(bits, FHCRC_BIT) {
        assert(agree_on_prefix(s_3, s2_3, 2)) by {
            assert(s_3.take(2) =~= s_3.take(k - n3).take(2));
            assert(s2_3.take(2) =~= s2_3.take(k - n3).take(2));
        }
        lemma_header_crc_field_prefix(s_3, s2_3, covered + s.take(n3 as int));
    }
    assert(covered + s.take(n3 as int) == covered + s2.take(n3 as int));
}

/// The payload after a header never changes how the header's optional fields are read:
/// whatever bytes `t` follow, the result is that of the header bytes alone.
pub proof fn lemma_optional_fields_ignore_payload(bits: u8, s: Seq<u8>, t: Seq<u8>, covered: Seq<u8>)
    requires
        optional_fields(bits, s, covered) is Ok,
    ensures
        optional_fields(bits, s + t, covered) == optional_fields(bits, s, covered),
{
    let k = optional_fields(bits, s, covered)->Ok_0.len as int;
    lemma_optional_fields_len(bits, s, covered);
    assert((s + t).take(k) =~= s.take(k));
    lemma_optional_fields_depend_on_prefix(bits, s, s + t, covered);
}

/// The optional fields never take more bytes than the input holds.
pub proof fn lemma_optional_fields_len(bits: u8, s: Seq<u8>, covered: Seq<u8>)
    requires
        optional_fields(bits, s, covered) is Ok,
    ensures
        optional_fields(bits, s, covered)->Ok_0.len <= s.len(),
{
    reveal(extra_field);
    reveal(zero_terminated);
    reveal(header_crc_field);
    reveal(optional_fields);
    reveal(fields_from_name);
    reveal(fields_from_comment);
    reveal(fields_from_crc);
    let (extra, n1) = opt_extra(has_flag(bits, FEXTRA_BIT), s)->Ok_0;
    let (name, m2) = opt_string(has_flag(bits, FNAME_BIT), s.skip(n1 as int))->Ok_0;
    let (comment, m3) = opt_string(has_flag(bits, FCOMMENT_BIT), s.skip((n1 + m2) as int))->Ok_0;
}

/// The fixed header is decided by its 10 bytes: the payload after them never changes it.
pub proof fn lemma_fixed_header_ignores_payload(s: Seq<u8>, t: Seq<u8>)
    requires
        s.len() >= FIXED_HEADER_LEN,
    ensures
        fixed_header_error(s + t) == fixed_header_error(s),
        (s + t).take(10) == s.take(10),
{
    assert((s + t).take(10) =~= s.take(10));
}

/// The two bytes that store `v` little-endian.
pub open spec fn le_bytes16(v: u16) -> Seq<u8> {
    seq![(v % 0x100) as u8, (v / 0x100) as u8]
}

/// The FHCRC field is accepted when it holds the low 16 bits of the CRC-32 of every
/// header byte before it: a header written without FHCRC, then given FHCRC and that
/// CRC-16 after its optional fields, reads back the same fields and that CRC-16, whatever
/// payload `t` follows.
pub proof fn lemma_header_crc_of_preceding_bytes_accepted(
    bits: u8,
    s: Seq<u8>,
    covered: Seq<u8>,
    t: Seq<u8>,
)
    requires
        !has_flag(bits, FHCRC_BIT),
        optional_fields(bits, s, covered) is Ok,
    ensures
        ({
            let p = optional_fields(bits, s, covered)->Ok_0;
            let crc = low16(gzip_crc32(covered + s.take(p.len as int)));
            optional_fields(bits | FHCRC_BIT, s.take(p.len as int) + le_bytes16(crc) + t, covered)
                == Ok::<RawOptionals, GzipError>(
                RawOptionals {
                    extra: p.extra,
                    name: p.name,
                    comment: p.comment,
                    header_crc: Some(crc),
                    len: p.len + 2,
                },
            )
        }),
{
    reveal(optional_fields);
    reveal(fields_from_name);
    reveal(fields_from_comment);
    reveal(fields_from_crc);
    let p = optional_fields(bits, s, covered)->Ok_0;
    let k = p.len as int;
    let crc = low16(gzip_crc32(covered + s.take(k)));
    let s2 = s.take(k) + le_bytes16(crc) + t;
    let b2 = bits | FHCRC_BIT;
    lemma_optional_fields_len(bits, s, covered);
    assert(s2.take(k) =~= s.take(k));
    lemma_optional_fields_depend_on_prefix(bits, s, s2, covered);
    assert(has_flag(b2, FEXTRA_BIT) == has_flag(bits, FEXTRA_BIT)
        && has_flag(b2, FNAME_BIT) == has_flag(bits, FNAME_BIT)
        && has_flag(b2, FCOMMENT_BIT) == has_flag(bits, FCOMMENT_BIT)
        && has_flag(b2, FHCRC_BIT)) by (bit_vector)
        requires
            b2 == bits | 2u8,
    ;
    let (extra, n1) = opt_extra(has_flag(bits, FEXTRA_BIT), s2)->Ok_0;
    let (name, m2) = opt_string(has_flag(bits, FNAME_BIT), s2.skip(n1 as int))->Ok_0;
    let (comment, m3) = opt_string(has_flag(bits, FCOMMENT_BIT), s2.skip((n1 + m2) as int))->Ok_0;
    assert(n1 + m2 + m3 == k);
    let rest = s2.skip(k);
    assert(rest =~= le_bytes16(crc) + t);
    assert(le_u16(rest[0], rest[1]) == crc);
    assert(covered + s2.take(k) =~= covered + s.take(k));
    reveal(header_crc_field);
}

/// Reading `m` more bytes after the first `k` of `s`: what remains, and what has been
/// read, with `c` before it.
pub proof fn lemma_advance(s: Seq<u8>, c: Seq<u8>, k: int, m: int)
    requires
        0 <= k,
        0 <= m,
        k + m <= s.len(),
    ensures
        s.skip(k).skip(m) == s.skip(k + m),
        c + s.take(k) + s.skip(k).take(m) == c + s.take(k + m),
{
    assert(s.skip(k).skip(m) =~= s.skip(k + m));
    assert(c + s.take(k) + s.skip(k).take(m) =~= c + s.take(k + m));
}

/// The first step of `optional_fields`: the FEXTRA field.
pub proof fn lemma_fields_extra(bits: u8, s: Seq<u8>, c: Seq<u8>)
    ensures
        match opt_extra(has_flag(bits, FEXTRA_BIT), s) {
            Err(e) => optional_fields(bits, s, c) == Err::<RawOptionals, GzipError>(e),
            Ok((x, n)) => optional_fields(bits, s, c) == fields_from_name(bits, s, c, x, n),
        },
{
    reveal(optional_fields);
}

/// The FNAME step of `optional_fields`, at offset `at`.
pub proof fn lemma_fields_name(bits: u8, s: Seq<u8>, c: Seq<u8>, extra: Option<Seq<u8>>, at: nat)
    ensures
        match opt_string(has_flag(bits, FNAME_BIT), s.skip(at as int)) {
            Err(e) => fields_from_name(bits, s, c, extra, at) == Err::<RawOptionals, GzipError>(e),
            Ok((x, n)) => fields_from_name(bits, s, c, extra, at) == fields_from_comment(
                bits,
                s,
                c,
                extra,
                x,
                at + n,
            ),
        },
{
    reveal(fields_from_name);
}

/// The FCOMMENT step of `optional_fields`, at offset `at`.
pub proof fn lemma_fields_comment(
    bits: u8,
    s: Seq<u8>,
    c: Seq<u8>,
    extra: Option<Seq<u8>>,
    name: Option<Seq<u8>>,
    at: nat,
)
    ensures
        match opt_string(has_flag(bits, FCOMMENT_BIT), s.skip(at as int)) {
            Err(e) => fields_from_comment(bits, s, c, extra, name, at) == Err::<RawOptionals, GzipError>(e),
            Ok((x, n)) => fields_from_comment(bits, s, c, extra, name, at) == fields_from_crc(
                bits,
                s,
                c,
                extra,
                name,
                x,
                at + n,
            ),
        },
{
    reveal(fields_from_comment);
}

/// The FHCRC step of `optional_fields`, at offset `at`.
pub proof fn lemma_fields_crc(
    bits: u8,
    s: Seq<u8>,
    c: Seq<u8>,
    extra: Option<Seq<u8>>,
    name: Option<Seq<u8>>,
    comment: Option<Seq<u8>>,
    at: nat,
)
    ensures
        match opt_crc(has_flag(bits, FHCRC_BIT), s.skip(at as int), c + s.take(at as int)) {
            Err(e) => fields_from_crc(bits, s, c, extra, name, comment, at) == Err::<RawOptionals, GzipError>(e),
            Ok((h, n)) => fields_from_crc(bits, s, c, extra, name, comment, at) == Ok::<RawOptionals, GzipError>(
                RawOptionals { extra, name, comment, header_crc: h, len: at + n },
            ),
        },
{
    reveal(fields_from_crc);
}

} // verus!
