//! The decoder of a gzip member header, step by step: the fixed header, then the optional
//! fields.
use crate::error::{GzipError, GzipResult};
use crate::format::{
    extra_field, fixed_header_error, header_crc_check, header_crc_field, header_describes,
    is_first_nul, last_field_bytes, latin1, le_u16, le_u32, lemma_first_nul_at, lemma_no_nul,
    optional_fields, optionals_view, zero_terminated, fields_from_name, fields_from_comment,
    fields_from_crc, last_bytes, opt_crc, opt_extra, opt_latin1, opt_string, RawOptionals,
    FIXED_HEADER_LEN, has_flag, lemma_advance, lemma_fields_extra, lemma_fields_name,
    lemma_fields_comment, lemma_fields_crc,
};
use crate::helper::HeaderDigest;
use crate::input::ByteReader;
use crate::{optional_bytes, optional_chars, FCOMMENT_BIT, FNAME_BIT, CompressionMethod, ExtraFlags, Flags, Header, OperatingSystem, Optionals, ID1, ID2};
use vstd::prelude::*;

verus! {

/// Calls `byteorder::LittleEndian::read_u32`, which panics on fewer than 4 bytes and
/// otherwise reads the first 4 bytes of `buf` as a little-endian number.
#[verifier::external_body]
fn read_u32_le(buf: &[u8]) -> (v: u32)
    requires
        buf@.len() >= 4,
    ensures
        v == le_u32(buf@),
{
    <byteorder::LittleEndian as byteorder::ByteOrder>::read_u32(buf)
}

/// Calls `byteorder::LittleEndian::read_u16`, which panics on fewer than 2 bytes and
/// otherwise reads the first 2 bytes of `buf` as a little-endian number.
#[verifier::external_body]
fn read_u16_le(buf: &[u8]) -> (v: u16)
    requires
        buf@.len() >= 2,
    ensures
        v == le_u16(buf@[0], buf@[1]),
{
    <byteorder::LittleEndian as byteorder::ByteOrder>::read_u16(buf)
}

/// Calls `memchr::memchr`: the index of the first occurrence of `needle` in `haystack`,
/// or `None` where it does not occur.
#[verifier::external_body]
fn find_byte(needle: u8, haystack: &[u8]) -> (r: Option<usize>)
    ensures
        match r {
            Some(i) => i < haystack@.len() && haystack@[i as int] == needle && forall|j: int|
                0 <= j < i ==> haystack@[j] != needle,
            None => forall|j: int| 0 <= j < haystack@.len() ==> haystack@[j] != needle,
        },
{
    memchr::memchr(needle, haystack)
}

/// Calls `String::push`, which appends `c` to `s`.
#[verifier::external_body]
fn push_char(s: &mut String, c: char)
    ensures
        final(s)@ == old(s)@.push(c),
{
    s.push(c)
}

/// The string whose characters are the bytes of `bytes` read as Latin-1.
fn latin1_string(bytes: &[u8]) -> (t: String)
    ensures
        t@ == latin1(bytes@),
{
    let mut t = String::new();
    let mut i: usize = 0;
    while i < bytes.len()
        invariant
            i <= bytes@.len(),
            t@ == latin1(bytes@.take(i as int)),
        decreases bytes@.len() - i,
    {
        let c = bytes[i] as char;
        push_char(&mut t, c);
        assert(latin1(bytes@.take(i + 1)) =~= latin1(bytes@.take(i as int)).push(c));
        i = i + 1;
    }
    assert(bytes@.take(i as int) =~= bytes@);
    t
}

/// The check of a header CRC-16 read from the stream against the CRC-32 of the header
/// bytes before it: `HeaderCrcMismatch` unless `expected` is the low 16 bits of `crc`.
pub fn check_header_crc(expected: u16, crc: u32) -> (r: GzipResult<u16>)
    ensures
        r == header_crc_check(expected, crc),
{
    let low = crc & 0xFFFF;
    assert(low == crc % 0x10000) by (bit_vector)
        requires
            low == crc & 0xFFFFu32,
    ;
    let calculated = low as u16;
    if expected != calculated {
        return Err(GzipError::HeaderCrcMismatch { expected, calculated });
    }
    Ok(calculated)
}

/// A decoder of one gzip member, in the step `S` of its decoding.
pub struct Decoder<R, S> {
    pub reader: R,
    pub state: S,
    pub buf: Vec<u8>,
}

/// Nothing decoded yet.
#[derive(Debug, Clone, Copy, PartialEq, Eq, Structural)]
pub struct Start;

/// The fixed header decoded; `fhcrc` holds the header bytes read so far.
#[derive(Clone)]
pub struct HeaderParsed {
    pub header: Header,
    pub fhcrc: HeaderDigest,
}

/// The whole header decoded.
#[derive(Debug, Clone, PartialEq, Eq)]
pub struct OptionalParsed {
    pub header: Header,
    pub optionals: Optionals,
}

impl Decoder<ByteReader, Start> {
    /// A decoder that reads the member from `reader`.
    pub fn new(reader: ByteReader) -> (d: Self)
        ensures
            d.reader@ == reader@,
            d.state == Start,
            d.buf@ == Seq::<u8>::empty(),
    {
        Self { reader, state: Start, buf: Vec::with_capacity(256) }
    }

    /// Reads and checks the 10-byte fixed header.
    ///
    /// Refused, in this order: fewer than 10 bytes (`UnexpectedEof`), magic bytes other
    /// than 0x1F 0x8B (`InvalidMagic`), a method other than 8 (`UnsupportedMethod`), a
    /// reserved flag bit set (`ReservedFlags`). Otherwise the next step starts after the
    /// 10 bytes, with their CRC begun.
    pub fn parse_header(self) -> (r: GzipResult<Decoder<ByteReader, HeaderParsed>>)
        ensures
            match fixed_header_error(self.reader@) {
                Some(e) => r matches Err(f) && f == e,
                None => r matches Ok(d) && {
                    &&& header_describes(d.state.header, self.reader@.take(10))
                    &&& d.state.header.flags.wf()
                    &&& d.state.fhcrc@ == self.reader@.take(10)
                    &&& d.reader@ == self.reader@.skip(10)
                    &&& d.buf@ == self.buf@
                },
            },
    {
        let ghost s = self.reader@;
        let mut reader = self.reader;
        let mut fhcrc = HeaderDigest::new();

        let fixed_header = match reader.read_exact(FIXED_HEADER_LEN) {
            Ok(bytes) => bytes,
            Err(_) => {
                return Err(
                    GzipError::UnexpectedEof {
                        err: "failed to read header: failed to fill whole buffer",
                    },
                );
            },
        };
        fhcrc.update(fixed_header.as_slice());
        assert(fixed_header@ == s.take(10));

        // verify the identification bytes ID1 & ID2
        if fixed_header[0] != ID1 || fixed_header[1] != ID2 {
            return Err(GzipError::InvalidMagic(fixed_header[0], fixed_header[1]));
        }

        // verify the compression method
        let compression_method = match fixed_header[2] {
            8 => CompressionMethod::Deflate,
            other => return Err(GzipError::UnsupportedMethod(other)),
        };

        // parse the flags
        let raw_flags = fixed_header[3];
        if raw_flags & 0xE0 != 0 {
            return Err(GzipError::ReservedFlags(raw_flags));
        }
        let flags = Flags::from_bits_truncate(raw_flags);
        assert(raw_flags & 0x1F == raw_flags) by (bit_vector)
            requires
                raw_flags & 0xE0u8 == 0,
        ;

        // parse the modification time u32 (4 bytes)
        let mtime_bytes = vstd::slice::slice_subrange(fixed_header.as_slice(), 4, 8);
        let modification_time = read_u32_le(mtime_bytes);

        // parse extra flags
        let extra_flags = ExtraFlags::from(fixed_header[8]);

        // parse operating system
        let os = OperatingSystem::from(fixed_header[9]);

        Ok(
            Decoder {
                reader,
                buf: self.buf,
                state: HeaderParsed {
                    header: Header { compression_method, flags, modification_time, extra_flags, os },
                    fhcrc,
                },
            },
        )
    }
}

impl Decoder<ByteReader, HeaderParsed> {
    /// Reads the optional fields that the flags announce: FEXTRA, FNAME, FCOMMENT and
    /// FHCRC, in this order. Names and comments are read as Latin-1. The FHCRC field must
    /// be the low 16 bits of the CRC-32 of every header byte before it.
        pub fn read_optionals(self) -> (r: GzipResult<Decoder<ByteReader, OptionalParsed>>)
        ensures
            match optional_fields(
                self.state.header.flags.spec_bits(),
                self.reader@,
                self.state.fhcrc@,
            ) {
                Err(e) => r matches Err(f) && f == e,
                Ok(p) => r matches Ok(d) && {
                    &&& d.state.header == self.state.header
                    &&& d.state.optionals@ == optionals_view(p)
                    &&& d.reader@ == self.reader@.skip(p.len as int)
                    &&& d.buf@ == last_field_bytes(p, self.buf@)
                },
            },
    {
        let mut this = self;
        let optionals = match this.read_fields() {
            Ok(o) => o,
            Err(e) => return Err(e),
        };
        Ok(
            Decoder {
                reader: this.reader,
                state: OptionalParsed { header: this.state.header, optionals },
                buf: this.buf,
            },
        )
    }

    /// Reads the optional fields that the flags of the header announce.
    fn read_fields(&mut self) -> (r: GzipResult<Optionals>)
        ensures
            final(self).state.header == old(self).state.header,
            match optional_fields(
                old(self).state.header.flags.spec_bits(),
                old(self).reader@,
                old(self).state.fhcrc@,
            ) {
                Err(e) => r matches Err(f) && f == e,
                Ok(p) => r matches Ok(o) && {
                    &&& o@ == optionals_view(p)
                    &&& final(self).reader@ == old(self).reader@.skip(p.len as int)
                    &&& final(self).buf@ == last_field_bytes(p, old(self).buf@)
                },
            },
    {
        let flags = self.state.header.flags;
        let ghost bits = flags.spec_bits();
        let ghost s = self.reader@;
        let ghost c = self.state.fhcrc@;

        // FEXTRA: Extra field
        proof {
            lemma_fields_extra(bits, s, c);
        }
        let extra = match self.read_extra_if(flags.contains(Flags::fextra())) {
            Ok(x) => x,
            Err(e) => return Err(e),
        };
        let ghost extra_raw = optional_bytes(extra);
        let ghost n1 = (s.len() - self.reader@.len()) as nat;
        proof {
            lemma_advance(s, c, 0, n1 as int);
            assert(s.skip(0) =~= s);
            assert(c + s.take(0) =~= c);
            lemma_fields_name(bits, s, c, extra_raw, n1);
        }

        // FNAME: Original filename
        let ghost name_res = opt_string(has_flag(bits, FNAME_BIT), self.reader@);
        let name = match self.read_string_if(flags.contains(Flags::fname())) {
            Ok(x) => x,
            Err(e) => return Err(e),
        };
        let ghost name_raw = name_res->Ok_0.0;
        let ghost n2 = (s.len() - self.reader@.len()) as nat;
        proof {
            lemma_advance(s, c, n1 as int, n2 - n1);
            lemma_fields_comment(bits, s, c, extra_raw, name_raw, n2);
        }

        // FCOMMENT: File comment
        let ghost comment_res = opt_string(has_flag(bits, FCOMMENT_BIT), self.reader@);
        let comment = match self.read_string_if(flags.contains(Flags::fcomment())) {
            Ok(x) => x,
            Err(e) => return Err(e),
        };
        let ghost comment_raw = comment_res->Ok_0.0;
        let ghost n3 = (s.len() - self.reader@.len()) as nat;
        proof {
            lemma_advance(s, c, n2 as int, n3 - n2);
            lemma_fields_crc(bits, s, c, extra_raw, name_raw, comment_raw, n3);
        }

        // FHCRC: Header CRC-16
        let header_crc = match self.read_crc_if(flags.contains(Flags::fhcrc())) {
            Ok(x) => x,
            Err(e) => return Err(e),
        };
        proof {
            lemma_advance(s, c, n3 as int, s.len() - self.reader@.len() - n3);
        }
        Ok(Optionals { extra, name, comment, header_crc })
    }

    /// Reads the FEXTRA field if `present`.
    fn read_extra_if(&mut self, present: bool) -> (r: GzipResult<Option<Vec<u8>>>)
        ensures
            final(self).state.header == old(self).state.header,
            match opt_extra(present, old(self).reader@) {
                Err(e) => r matches Err(f) && f == e,
                Ok((x, n)) => r matches Ok(v) && {
                    &&& optional_bytes(v) == x
                    &&& n <= old(self).reader@.len()
                    &&& final(self).reader@ == old(self).reader@.skip(n as int)
                    &&& final(self).state.fhcrc@ == old(self).state.fhcrc@ + old(self).reader@.take(n as int)
                    &&& final(self).buf@ == last_bytes(x, old(self).buf@)
                },
            },
    {
        if present {
            self.read_fhcrc()
        } else {
            assert(self.reader@.skip(0) =~= self.reader@);
            assert(self.state.fhcrc@ + self.reader@.take(0) =~= self.state.fhcrc@);
            Ok(None)
        }
    }

    /// Reads a zero-terminated string if `present`.
    fn read_string_if(&mut self, present: bool) -> (r: GzipResult<Option<String>>)
        ensures
            final(self).state.header == old(self).state.header,
            match opt_string(present, old(self).reader@) {
                Err(e) => r matches Err(f) && f == e,
                Ok((x, n)) => r matches Ok(v) && {
                    &&& optional_chars(v) == opt_latin1(x)
                    &&& n <= old(self).reader@.len()
                    &&& final(self).reader@ == old(self).reader@.skip(n as int)
                    &&& final(self).state.fhcrc@ == old(self).state.fhcrc@ + old(self).reader@.take(n as int)
                    &&& final(self).buf@ == last_bytes(x, old(self).buf@)
                },
            },
    {
        if present {
            match self.read_null_terminated() {
                Ok(t) => Ok(Some(t)),
                Err(e) => Err(e),
            }
        } else {
            assert(self.reader@.skip(0) =~= self.reader@);
            assert(self.state.fhcrc@ + self.reader@.take(0) =~= self.state.fhcrc@);
            Ok(None)
        }
    }

    /// Reads and checks the FHCRC field if `present`.
    fn read_crc_if(&mut self, present: bool) -> (r: GzipResult<Option<u16>>)
        ensures
            final(self).state.header == old(self).state.header,
            final(self).buf@ == old(self).buf@,
            match opt_crc(present, old(self).reader@, old(self).state.fhcrc@) {
                Err(e) => r matches Err(f) && f == e,
                Ok((x, n)) => r == Ok::<Option<u16>, GzipError>(x) && {
                    &&& n <= old(self).reader@.len()
                    &&& final(self).reader@ == old(self).reader@.skip(n as int)
                    &&& final(self).state.fhcrc@ == old(self).state.fhcrc@
                },
            },
    {
        if present {
            self.verify_headercrc16()
        } else {
            assert(self.reader@.skip(0) =~= self.reader@);
            Ok(None)
        }
    }

    /// Reads the FEXTRA field: XLEN in two little-endian bytes, then XLEN bytes, all fed
    /// to the header CRC. The XLEN bytes are left in `buf` and returned.
    fn read_fhcrc(&mut self) -> (r: GzipResult<Option<Vec<u8>>>)
        ensures
            final(self).state.header == old(self).state.header,
            match extra_field(old(self).reader@) {
                Err(e) => r matches Err(f) && f == e,
                Ok((x, n)) => r matches Ok(Some(v)) && {
                    &&& v@ == x
                    &&& n <= old(self).reader@.len()
                    &&& final(self).reader@ == old(self).reader@.skip(n as int)
                    &&& final(self).state.fhcrc@ == old(self).state.fhcrc@ + old(self).reader@.take(n as int)
                    &&& final(self).buf@ == x
                },
            },
    {
        let ghost s = self.reader@;
        reveal(extra_field);
        let xlen_buf = match self.reader.read_exact(2) {
            Ok(bytes) => bytes,
            Err(e) => return Err(GzipError::from(e)),
        };
        self.state.fhcrc.update(xlen_buf.as_slice());

        let xlen = read_u16_le(xlen_buf.as_slice()) as usize;
        let payload = match self.reader.read_exact(xlen) {
            Ok(bytes) => bytes,
            Err(e) => return Err(GzipError::from(e)),
        };
        self.buf = payload;
        self.state.fhcrc.update(self.buf.as_slice());
        assert(s.skip(2).take(xlen as int) =~= s.subrange(2, 2 + xlen));
        assert(s.skip(2).skip(xlen as int) =~= s.skip(2 + xlen));
        assert(s.take(2) + s.subrange(2, 2 + xlen) =~= s.take(2 + xlen));
        let out = self.buf.clone();
        assert(out@ =~= self.buf@);
        Ok(Some(out))
    }

    /// Reads the FHCRC field and checks it against the CRC of the header bytes read
    /// before it; the two bytes themselves are not fed to the CRC.
    fn verify_headercrc16(&mut self) -> (r: GzipResult<Option<u16>>)
        ensures
            final(self).state.header == old(self).state.header,
            final(self).buf@ == old(self).buf@,
            final(self).state.fhcrc@ == old(self).state.fhcrc@,
            old(self).reader@.len() >= 2 ==> final(self).reader@ == old(self).reader@.skip(2),
            old(self).reader@.len() < 2 ==> final(self).reader@ == old(self).reader@,
            match header_crc_field(old(self).reader@, old(self).state.fhcrc@) {
                Err(e) => r matches Err(f) && f == e,
                Ok(c) => r == Ok::<Option<u16>, GzipError>(Some(c)) && 2 <= old(self).reader@.len(),
            },
    {
        reveal(header_crc_field);
        let fhcrc_buf = match self.reader.read_exact(2) {
            Ok(bytes) => bytes,
            Err(e) => return Err(GzipError::from(e)),
        };
        let lo = fhcrc_buf[0] as u16;
        let hi = fhcrc_buf[1] as u16;
        let expected = lo | (hi << 8u16);
        assert(expected == lo + 0x100 * hi) by (bit_vector)
            requires
                lo < 0x100,
                hi < 0x100,
                expected == lo | (hi << 8u16),
        ;
        let calculated = self.state.fhcrc.finalize();
        match check_header_crc(expected, calculated) {
            Ok(c) => Ok(Some(c)),
            Err(e) => Err(e),
        }
    }

    /// Reads a zero-terminated string (a name or a comment), feeding its bytes and the zero
    /// to the header CRC. Its bytes are left in `buf` and returned read as Latin-1.
    fn read_null_terminated(&mut self) -> (r: GzipResult<String>)
        ensures
            final(self).state.header == old(self).state.header,
            match zero_terminated(old(self).reader@) {
                Err(e) => r matches Err(f) && f == e && {
                    &&& final(self).reader@.len() == 0
                    &&& final(self).buf@ == old(self).reader@
                    &&& final(self).state.fhcrc@ == old(self).state.fhcrc@ + old(self).reader@
                },
                Ok((x, n)) => r matches Ok(t) && {
                    &&& t@ == latin1(x)
                    &&& n <= old(self).reader@.len()
                    &&& final(self).reader@ == old(self).reader@.skip(n as int)
                    &&& final(self).state.fhcrc@ == old(self).state.fhcrc@ + old(self).reader@.take(n as int)
                    &&& final(self).buf@ == x
                },
            },
    {
        let ghost s = self.reader@;
        let ghost c = self.state.fhcrc@;
        reveal(zero_terminated);
        self.buf.clear();
        assert(s.skip(0) =~= s);
        loop
            invariant_except_break
                self.buf@.len() <= s.len(),
                self.reader@ == s.skip(self.buf@.len() as int),
                self.state.fhcrc@ == c + self.buf@,
            invariant
                s == old(self).reader@,
                c == old(self).state.fhcrc@,
                self.state.header == old(self).state.header,
                self.buf@ == s.take(self.buf@.len() as int),
                forall|j: int| 0 <= j < self.buf@.len() ==> s[j] != 0,
            ensures
                is_first_nul(s, self.buf@.len() as int),
                self.reader@ == s.skip(self.buf@.len() as int + 1),
                self.state.fhcrc@ == c + s.take(self.buf@.len() as int + 1),
            decreases self.reader@.len(),
        {
            let ghost k = self.buf@.len();
            // Peek at buffer
            let buf = self.reader.fill_buf();
            if buf.len() == 0 {
                proof {
                    reveal(zero_terminated);
                    assert(s.len() == k);
                    lemma_no_nul(s);
                    assert(s.take(k as int) =~= s);
                }
                return Err(GzipError::UnexpectedEof { err: "null terminator" });
            }
            match find_byte(0, buf) {
                Some(pos) => {
                    // Wire bytes: [string_tail][\0]
                    let head = vstd::slice::slice_subrange(buf, 0, pos);
                    self.state.fhcrc.update(head);
                    let nul: [u8; 1] = [0u8];
                    // updating the null terminator in the digest
                    self.state.fhcrc.update(nul.as_slice());
                    self.buf.extend_from_slice(head);
                    proof {
                        assert forall|i: int| 0 <= i < self.buf@.len() implies self.buf@[i] == s[i] by {
                            if i >= k {
                                assert(cloned::<u8>(head@[i - k], self.buf@[i]));
                            }
                        }
                        assert(self.buf@ =~= s.take(self.buf@.len() as int));
                        assert(c + s.take(k as int) + head@ + nul@ =~= c + s.take(self.buf@.len() as int + 1));
                    }
                    // Advance past '\0'
                    self.reader.consume(pos + 1);
                    assert(s.skip(k as int).skip(pos as int + 1) =~= s.skip(self.buf@.len() as int + 1));
                    break;
                },
                None => {
                    // Wire bytes: [string_chunk]
                    self.state.fhcrc.update(buf);
                    self.buf.extend_from_slice(buf);
                    proof {
                        assert forall|i: int| 0 <= i < self.buf@.len() implies self.buf@[i] == s[i] by {
                            if i >= k {
                                assert(cloned::<u8>(buf@[i - k], self.buf@[i]));
                            }
                        }
                        assert(self.buf@ =~= s.take(self.buf@.len() as int));
                        assert(c + s.take(k as int) + buf@ =~= c + self.buf@);
                    }
                    let len = buf.len();
                    self.reader.consume(len);
                    assert(s.skip(k as int).skip(len as int) =~= s.skip(self.buf@.len() as int));
                },
            }
        }
        proof {
            reveal(zero_terminated);
            lemma_first_nul_at(s, self.buf@.len() as int);
        }
        Ok(latin1_string(self.buf.as_slice()))
    }
}

} // verus!
