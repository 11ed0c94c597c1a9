//! What the header fields are, stated over the input bytes themselves: each law says what
//! the decoder's result must be for every input, without going through the functions
//! that the decoder's contracts are written with.
use crate::error::GzipError;
use crate::format::{
    has_flag, lemma_fields_comment, lemma_fields_crc, lemma_fields_extra, lemma_fields_name,
    opt_extra, opt_string, optional_fields, RawOptionals, extra_field, fixed_header_error, header_crc_check, header_crc_field, header_describes,
    latin1, zero_terminated,
};
use crate::gzip;
use crate::deflate::lz77::{hash3, packed3, KNUTH_GOLDEN_RATIO};
use crate::helper::{crc32_byte, crc32_feed, gzip_crc32, lemma_crc32_feed_pieces};
use crate::input::{IoError, IoErrorKind};
use crate::{
    compression_method_of, extra_flags_of, operating_system_code, operating_system_of,
    CompressionMethod, ExtraFlags, Header, OperatingSystem, FCOMMENT_BIT, FEXTRA_BIT, FHCRC_BIT,
    FNAME_BIT, FTEXT_BIT, KNOWN_FLAG_BITS,
};
use vstd::prelude::*;

verus! {

/// XLEN, the length of the FEXTRA field, is its first two bytes read low byte first; the
/// field is exactly the XLEN bytes after them, and it takes 2 + XLEN bytes. An input
/// shorter than that is refused as cut short.
pub proof fn law_extra_field_length(s: Seq<u8>)
    ensures
        s.len() >= 2 && s.len() >= 2 + (s[0] as int + 256 * (s[1] as int)) ==> extra_field(s)
            == Ok::<(Seq<u8>, nat), GzipError>(
            (
                s.subrange(2, 2 + s[0] as int + 256 * (s[1] as int)),
                (2 + s[0] as int + 256 * (s[1] as int)) as nat,
            ),
        ),
        (s.len() < 2 || s.len() < 2 + (s[0] as int + 256 * (s[1] as int))) ==> extra_field(s)
            == Err::<(Seq<u8>, nat), GzipError>(
            GzipError::Io(IoError { kind: IoErrorKind::UnexpectedEof }),
        ),
{
    reveal(extra_field);
}

/// The FHCRC check accepts exactly the stored value that equals the low 16 bits of the
/// CRC-32, and refuses every other one, reporting the stored value and those 16 bits.
pub proof fn law_header_crc_check(expected: u16, crc: u32)
    ensures
        header_crc_check(expected, crc) is Ok <==> expected as int == crc as int % 0x10000,
        expected as int == crc as int % 0x10000 ==> header_crc_check(expected, crc) == Ok::<
            u16,
            GzipError,
        >(expected),
        expected as int != crc as int % 0x10000 ==> (header_crc_check(expected, crc) matches Err(
            GzipError::HeaderCrcMismatch { expected: e, calculated: k },
        ) && e == expected && k as int == crc as int % 0x10000),
{
}

/// The FHCRC field is the next two bytes read low byte first, and it is accepted exactly
/// when it equals the low 16 bits of the CRC-32 of the header bytes before it.
pub proof fn law_header_crc_field(s: Seq<u8>, covered: Seq<u8>)
    requires
        s.len() >= 2,
    ensures
        header_crc_field(s, covered) is Ok <==> s[0] as int + 256 * (s[1] as int) == gzip_crc32(
            covered,
        ) as int % 0x10000,
        header_crc_field(s, covered) is Ok ==> header_crc_field(s, covered)->Ok_0 as int == s[0] as int
            + 256 * (s[1] as int),
{
    reveal(header_crc_field);
    law_header_crc_check((s[0] as int + 256 * (s[1] as int)) as u16, gzip_crc32(covered));
}

/// A name or comment ends at the first zero byte: the field is the bytes before it, and
/// it takes them and the zero. Where no zero byte follows, it is refused as unterminated.
pub proof fn law_zero_terminated(s: Seq<u8>, i: int)
    ensures
        (0 <= i < s.len() && s[i] == 0 && forall|j: int| 0 <= j < i ==> s[j] != 0)
            ==> zero_terminated(s) == Ok::<(Seq<u8>, nat), GzipError>((s.take(i), (i + 1) as nat)),
        (forall|j: int| 0 <= j < s.len() ==> s[j] != 0) ==> zero_terminated(s) == Err::<
            (Seq<u8>, nat),
            GzipError,
        >(GzipError::UnexpectedEof { err: "null terminator" }),
{
    reveal(zero_terminated);
    if 0 <= i < s.len() && s[i] == 0 && forall|j: int| 0 <= j < i ==> s[j] != 0 {
        crate::format::lemma_first_nul_at(s, i);
    }
    if forall|j: int| 0 <= j < s.len() ==> s[j] != 0 {
        crate::format::lemma_no_nul(s);
    }
}

/// Names and comments are Latin-1: each byte becomes the one character whose code point is
/// that byte, in order.
pub proof fn law_latin1(b: Seq<u8>)
    ensures
        latin1(b).len() == b.len(),
        forall|i: int| 0 <= i < b.len() ==> (latin1(b)[i] as u32) == (b[i] as u32),
{
}

/// A fixed header is accepted exactly when it has 10 bytes, the magic 0x1F 0x8B, method 8
/// and no bit above the five defined flags (FLG below 0x20); otherwise the first check
/// that fails, in that order, gives the error.
pub proof fn law_fixed_header(s: Seq<u8>)
    ensures
        fixed_header_error(s) is None <==> (s.len() >= 10 && s[0] == 0x1F && s[1] == 0x8B && s[2]
            == 8 && s[3] < 0x20),
        s.len() < 10 ==> fixed_header_error(s) == Some(
            GzipError::UnexpectedEof { err: "failed to read header: failed to fill whole buffer" },
        ),
        s.len() >= 10 && (s[0] != 0x1F || s[1] != 0x8B) ==> fixed_header_error(s) == Some(
            GzipError::InvalidMagic(s[0], s[1]),
        ),
        s.len() >= 10 && s[0] == 0x1F && s[1] == 0x8B && s[2] != 8 ==> fixed_header_error(s)
            == Some(GzipError::UnsupportedMethod(s[2])),
        s.len() >= 10 && s[0] == 0x1F && s[1] == 0x8B && s[2] == 8 && s[3] >= 0x20
            ==> fixed_header_error(s) == Some(GzipError::ReservedFlags(s[3])),
{
    if s.len() >= 10 {
        let f = s[3];
        assert((f & 0xE0u8 == 0) <==> f < 0x20) by (bit_vector);
    }
}

/// An accepted fixed header gives: DEFLATE, FLG as it stands, MTIME read low byte first
/// from bytes 4 to 7, XFL 2 as maximum compression and 4 as the fastest algorithm, and the
/// operating system of byte 9.
pub proof fn law_header_fields(hdr: Header, h: Seq<u8>)
    requires
        h.len() >= 10,
        header_describes(hdr, h),
    ensures
        hdr.compression_method == CompressionMethod::Deflate,
        hdr.flags.spec_bits() == h[3],
        hdr.modification_time as int == h[4] as int + 0x100 * (h[5] as int) + 0x10000 * (h[6] as int)
            + 0x1000000 * (h[7] as int),
        h[8] == 2 ==> hdr.extra_flags == ExtraFlags::MaximumCompression,
        h[8] == 4 ==> hdr.extra_flags == ExtraFlags::FastestAlgorithm,
        h[8] != 2 && h[8] != 4 ==> hdr.extra_flags == ExtraFlags::Other(h[8]),
        hdr.os == operating_system_of(h[9]),
{
}

/// The compression method byte 8 is DEFLATE; every other byte is kept as unknown.
pub proof fn law_compression_method(v: u8)
    ensures
        v == 8 ==> compression_method_of(v) == CompressionMethod::Deflate,
        v != 8 ==> compression_method_of(v) == CompressionMethod::Unknown(v),
{
}

/// The extra flags byte: 2 is maximum compression, 4 the fastest algorithm, every other
/// byte is kept as it is.
pub proof fn law_extra_flags(v: u8)
    ensures
        v == 2 ==> extra_flags_of(v) == ExtraFlags::MaximumCompression,
        v == 4 ==> extra_flags_of(v) == ExtraFlags::FastestAlgorithm,
        v != 2 && v != 4 ==> extra_flags_of(v) == ExtraFlags::Other(v),
{
}

/// The operating system codes of RFC 1952: code `v` below 14 is the `v`-th system of the
/// list FAT, Amiga, VMS, Unix, VM/CMS, Atari TOS, HPFS, Macintosh, Z-System, CP/M,
/// TOPS-20, NTFS, QDOS, Acorn RISCOS, and that system's code is `v`; every other byte is
/// `Unknown`, whose code is 255.
pub proof fn law_operating_system_codes(v: u8)
    ensures
        ({
            let systems = seq![
                OperatingSystem::Fat,
                OperatingSystem::Amiga,
                OperatingSystem::Vms,
                OperatingSystem::Unix,
                OperatingSystem::VmCms,
                OperatingSystem::AtariTos,
                OperatingSystem::Hpfs,
                OperatingSystem::Macintosh,
                OperatingSystem::ZSystem,
                OperatingSystem::CpM,
                OperatingSystem::Tops20,
                OperatingSystem::Ntfs,
                OperatingSystem::Qdos,
                OperatingSystem::AcornRiscOs,
            ];
            &&& v < 14 ==> operating_system_of(v) == systems[v as int]
            &&& v < 14 ==> operating_system_code(systems[v as int]) == v
            &&& v >= 14 ==> operating_system_of(v) == OperatingSystem::Unknown
            &&& operating_system_code(OperatingSystem::Unknown) == 255
        }),
{
}

/// The stream-level operating system codes: code `v` below 14 is the `v`-th system of the
/// RFC 1952 list, 255 is `Unknown`, and every other byte is kept in `Other`.
pub proof fn law_stream_operating_system_codes(v: u8)
    ensures
        ({
            let systems = seq![
                gzip::OperatingSystem::Fat,
                gzip::OperatingSystem::Amiga,
                gzip::OperatingSystem::Vms,
                gzip::OperatingSystem::Unix,
                gzip::OperatingSystem::VmCms,
                gzip::OperatingSystem::AtariTos,
                gzip::OperatingSystem::Hpfs,
                gzip::OperatingSystem::Macintosh,
                gzip::OperatingSystem::ZSystem,
                gzip::OperatingSystem::CpM,
                gzip::OperatingSystem::Tops20,
                gzip::OperatingSystem::Ntfs,
                gzip::OperatingSystem::Qdos,
                gzip::OperatingSystem::AcornRiscOs,
            ];
            &&& v < 14 ==> gzip::os_of(v) == systems[v as int]
            &&& v == 255 ==> gzip::os_of(v) == gzip::OperatingSystem::Unknown
            &&& 14 <= v < 255 ==> gzip::os_of(v) == gzip::OperatingSystem::Other(v)
        }),
{
}

/// The flag bits are the low five bits of FLG in the order of RFC 1952: FTEXT, FHCRC,
/// FEXTRA, FNAME, FCOMMENT; they are the only defined ones.
pub proof fn law_flag_bits()
    ensures
        FTEXT_BIT == 1,
        FHCRC_BIT == 2,
        FEXTRA_BIT == 4,
        FNAME_BIT == 8,
        FCOMMENT_BIT == 16,
        KNOWN_FLAG_BITS == FTEXT_BIT | FHCRC_BIT | FEXTRA_BIT | FNAME_BIT | FCOMMENT_BIT,
{
    assert(1u8 | 2u8 | 4u8 | 8u8 | 16u8 == 0x1Fu8) by (bit_vector);
}

/// The match hash is the top 15 bits of the 32-bit product of the three bytes, read low
/// byte first, with 0x9E3779B9.
pub proof fn law_hash3(b0: u8, b1: u8, b2: u8)
    ensures
        hash3(b0, b1, b2) as int == ((b0 as int + 256 * (b1 as int) + 65536 * (b2 as int))
            * 0x9E3779B9) % 0x1_0000_0000 / 0x20000,
{
    let product = ((packed3(b0, b1, b2) as int * KNUTH_GOLDEN_RATIO as int) % 0x1_0000_0000) as u32;
    assert(product >> 17u32 == product / 0x20000u32) by (bit_vector);
}

/// Whether `b` holds no zero byte.
pub open spec fn no_zero_byte(b: Seq<u8>) -> bool {
    forall|i: int| 0 <= i < b.len() ==> b[i] != 0
}

/// The bytes that a writer puts after the fixed header for the optional fields that the
/// FLG byte `bits` announces, FHCRC aside: XLEN low byte first then the extra field, the
/// name then a zero, the comment then a zero.
pub open spec fn written_fields(bits: u8, extra: Seq<u8>, name: Seq<u8>, comment: Seq<u8>) -> Seq<u8> {
    written_extra(bits & FEXTRA_BIT != 0, extra) + written_string(bits & FNAME_BIT != 0, name)
        + written_string(bits & FCOMMENT_BIT != 0, comment)
}

/// What a writer puts in the optional fields is read back: the extra field, the name and
/// the comment that `bits` announces, each in its place, and nothing more is read of the
/// payload `t` that follows.
pub proof fn law_written_fields_read_back(
    bits: u8,
    extra: Seq<u8>,
    name: Seq<u8>,
    comment: Seq<u8>,
    t: Seq<u8>,
    covered: Seq<u8>,
)
    requires
        bits & FHCRC_BIT == 0,
        extra.len() < 65536,
        no_zero_byte(name),
        no_zero_byte(comment),
    ensures
        optional_fields(bits, written_fields(bits, extra, name, comment) + t, covered) == Ok::<
            RawOptionals,
            GzipError,
        >(
            RawOptionals {
                extra: if bits & FEXTRA_BIT != 0 { Some(extra) } else { None },
                name: if bits & FNAME_BIT != 0 { Some(name) } else { None },
                comment: if bits & FCOMMENT_BIT != 0 { Some(comment) } else { None },
                header_crc: None,
                len: written_fields(bits, extra, name, comment).len(),
            },
        ),
{
    assert(has_flag(bits, FEXTRA_BIT) == (bits & FEXTRA_BIT != 0) && has_flag(bits, FNAME_BIT) == (
    bits & FNAME_BIT != 0) && has_flag(bits, FCOMMENT_BIT) == (bits & FCOMMENT_BIT != 0) && !has_flag(
        bits,
        FHCRC_BIT,
    )) by (bit_vector)
        requires
            bits & 2u8 == 0,
    ;
    let w1 = written_extra(bits & FEXTRA_BIT != 0, extra);
    let w2 = written_string(bits & FNAME_BIT != 0, name);
    let w3 = written_string(bits & FCOMMENT_BIT != 0, comment);
    let s = written_fields(bits, extra, name, comment) + t;
    assert(s =~= w1 + (w2 + (w3 + t)));
    let n1 = w1.len();
    let n2 = n1 + w2.len();
    let n3 = n2 + w3.len();
    let x = if bits & FEXTRA_BIT != 0 { Some(extra) } else { None };
    let nm = if bits & FNAME_BIT != 0 { Some(name) } else { None };
    let cm = if bits & FCOMMENT_BIT != 0 { Some(comment) } else { None };

    lemma_fields_extra(bits, s, covered);
    lemma_written_extra_read_back(bits & FEXTRA_BIT != 0, extra, w2 + (w3 + t));
    lemma_fields_name(bits, s, covered, x, n1);
    lemma_written_string_read_back(bits & FNAME_BIT != 0, name, w3 + t);
    assert(s.skip(n2 as int) =~= (w2 + (w3 + t)).skip(w2.len() as int));
    lemma_fields_comment(bits, s, covered, x, nm, n2);
    lemma_written_string_read_back(bits & FCOMMENT_BIT != 0, comment, t);
    assert(s.skip(n3 as int) =~= (w3 + t).skip(w3.len() as int));
    lemma_fields_crc(bits, s, covered, x, nm, cm, n3);
}

/// XLEN low byte first then the extra field, if `present`.
pub open spec fn written_extra(present: bool, extra: Seq<u8>) -> Seq<u8> {
    if present {
        seq![(extra.len() % 256) as u8, (extra.len() / 256) as u8] + extra
    } else {
        Seq::empty()
    }
}

/// A string then a zero, if `present`.
pub open spec fn written_string(present: bool, b: Seq<u8>) -> Seq<u8> {
    if present {
        b.push(0)
    } else {
        Seq::empty()
    }
}

proof fn lemma_written_extra_read_back(present: bool, extra: Seq<u8>, rest: Seq<u8>)
    requires
        extra.len() < 65536,
    ensures
        opt_extra(present, written_extra(present, extra) + rest) == Ok::<(Option<Seq<u8>>, nat), GzipError>(
            (if present { Some(extra) } else { None }, written_extra(present, extra).len()),
        ),
        (written_extra(present, extra) + rest).skip(written_extra(present, extra).len() as int) == rest,
{
    let w = written_extra(present, extra);
    let s = w + rest;
    assert(s.skip(w.len() as int) =~= rest);
    if present {
        law_extra_field_length(s);
        assert(s[0] as int + 256 * (s[1] as int) == extra.len());
        assert(s.subrange(2, 2 + extra.len() as int) =~= extra);
    }
}

proof fn lemma_written_string_read_back(present: bool, b: Seq<u8>, rest: Seq<u8>)
    requires
        no_zero_byte(b),
    ensures
        opt_string(present, written_string(present, b) + rest) == Ok::<(Option<Seq<u8>>, nat), GzipError>(
            (if present { Some(b) } else { None }, written_string(present, b).len()),
        ),
        (written_string(present, b) + rest).skip(written_string(present, b).len() as int) == rest,
{
    let w = written_string(present, b);
    let s = w + rest;
    assert(s.skip(w.len() as int) =~= rest);
    if present {
        law_zero_terminated(s, b.len() as int);
        assert(s.take(b.len() as int) =~= b);
    }
}

/// The CRC register after one zero byte: eight shifts.
spec fn crc32_register_shift8(x: u32) -> u32 {
    crc32_byte(x, 0)
}

/// Bits above the low byte of the register leave it, eight places lower, untouched by the
/// polynomial: eight shifts of `y ^ (z << 8)` are eight shifts of `y`, then `z` added.
proof fn lemma_shift8_high_bits(y: u32, z: u32)
    requires
        z < 0x100_0000,
    ensures
        crc32_register_shift8(y ^ (z << 8u32)) == crc32_register_shift8(y) ^ z,
{
    assert(z < 0x100_0000 ==> crc32_byte(y ^ (z << 8u32), 0) == crc32_byte(y, 0) ^ z) by (bit_vector);
}

proof fn lemma_crc32_byte_is_shift8(x: u32, b: u8)
    ensures
        crc32_byte(x, b) == crc32_register_shift8(x ^ (b as u32)),
{
    assert(crc32_byte(x, b) == crc32_byte(x ^ (b as u32), 0)) by (bit_vector);
}

/// A CRC-32 followed by its own value, low byte first, always has the CRC-32 0x2144DF1C
/// (the residue of CRC-32/ISO-HDLC): appending a message's CRC-32 makes a message whose
/// checksum no longer depends on the message.
pub proof fn law_crc32_residue(data: Seq<u8>)
    ensures
        ({
            let c = gzip_crc32(data);
            gzip_crc32(
                data + seq![
                    (c % 0x100) as u8,
                    (c / 0x100 % 0x100) as u8,
                    (c / 0x10000 % 0x100) as u8,
                    (c / 0x100_0000) as u8,
                ],
            ) == 0x2144DF1Cu32
        }),
{
    reveal(gzip_crc32);
    let f: u32 = 0xFFFF_FFFF;
    let r = crc32_feed(f, data);
    let c = r ^ f;
    let b0 = (c % 0x100) as u8;
    let b1 = (c / 0x100 % 0x100) as u8;
    let b2 = (c / 0x10000 % 0x100) as u8;
    let b3 = (c / 0x100_0000) as u8;
    let tail = seq![b0, b1, b2, b3];
    lemma_crc32_feed_pieces(f, data, tail);
    assert(tail.drop_last().drop_last().drop_last().drop_last() =~= Seq::<u8>::empty());
    assert(tail.drop_last().drop_last().drop_last() =~= seq![b0]);
    assert(tail.drop_last().drop_last() =~= seq![b0, b1]);
    assert(tail.drop_last() =~= seq![b0, b1, b2]);
    let s1 = crc32_byte(r, b0);
    let s2 = crc32_byte(s1, b1);
    let s3 = crc32_byte(s2, b2);
    let s4 = crc32_byte(s3, b3);
    assert(crc32_feed(r, Seq::<u8>::empty()) == r);
    assert(crc32_feed(r, seq![b0]) == s1);
    assert(crc32_feed(r, seq![b0, b1]) == s2);
    assert(crc32_feed(r, seq![b0, b1, b2]) == s3);
    assert(crc32_feed(r, tail) == s4);
    let m1 = c >> 8u32;
    let m2 = c >> 16u32;
    let m3 = c >> 24u32;
    let l1 = crc32_register_shift8(f);
    let l2 = crc32_register_shift8(l1);
    let l3 = crc32_register_shift8(l2);
    let l4 = crc32_register_shift8(l3);
    // first byte
    lemma_crc32_byte_is_shift8(r, b0);
    assert(r ^ (b0 as u32) == f ^ (m1 << 8u32) && m1 < 0x100_0000) by (bit_vector)
        requires
            c == r ^ 0xFFFF_FFFFu32,
            b0 == (c % 0x100) as u8,
            m1 == c >> 8u32,
            f == 0xFFFF_FFFFu32,
    ;
    lemma_shift8_high_bits(f, m1);
    assert(s1 == l1 ^ m1);
    // second byte
    lemma_crc32_byte_is_shift8(s1, b1);
    assert((l1 ^ m1) ^ (b1 as u32) == l1 ^ (m2 << 8u32) && m2 < 0x100_0000) by (bit_vector)
        requires
            b1 == (c / 0x100 % 0x100) as u8,
            m1 == c >> 8u32,
            m2 == c >> 16u32,
    ;
    lemma_shift8_high_bits(l1, m2);
    assert(s2 == l2 ^ m2);
    // third byte
    lemma_crc32_byte_is_shift8(s2, b2);
    assert((l2 ^ m2) ^ (b2 as u32) == l2 ^ (m3 << 8u32) && m3 < 0x100_0000) by (bit_vector)
        requires
            b2 == (c / 0x10000 % 0x100) as u8,
            m2 == c >> 16u32,
            m3 == c >> 24u32,
    ;
    lemma_shift8_high_bits(l2, m3);
    assert(s3 == l3 ^ m3);
    // fourth byte
    lemma_crc32_byte_is_shift8(s3, b3);
    assert((l3 ^ m3) ^ (b3 as u32) == l3) by (bit_vector)
        requires
            b3 == (c / 0x100_0000) as u8,
            m3 == c >> 24u32,
    ;
    assert(s4 == l4);
    assert(l4 ^ 0xFFFF_FFFFu32 == 0x2144DF1Cu32) by (bit_vector)
        requires
            l1 == crc32_byte(0xFFFF_FFFFu32, 0),
            l2 == crc32_byte(l1, 0),
            l3 == crc32_byte(l2, 0),
            l4 == crc32_byte(l3, 0),
    ;
}

} // verus!
