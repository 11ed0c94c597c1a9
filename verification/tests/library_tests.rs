use gzip_decoder::deflate::lz77::{hash3_fast, HASH_SIZE};
use gzip_decoder::error::GzipError;
use gzip_decoder::gzip;
use gzip_decoder::helper::{crc32, header_crc16, HeaderDigest};
use gzip_decoder::input::{ByteReader, IoError, IoErrorKind};
use gzip_decoder::parser::{check_header_crc, Start};
use gzip_decoder::{CompressionMethod, Decoder, ExtraFlags, Flags, OperatingSystem};

fn decoder(raw: Vec<u8>) -> Decoder<ByteReader, Start> {
    Decoder::new(ByteReader::new(raw))
}

#[test]
fn crc32_check_value() {
    assert_eq!(crc32(b"123456789"), 0xCBF4_3926);
    assert_eq!(crc32(b""), 0);
}

#[test]
fn header_crc16_is_low_half_of_crc32() {
    let h = [0x1F, 0x8B, 0x08, 0x02, 0, 0, 0, 0, 0, 3];
    assert_eq!(header_crc16(&h), 0x77A7);
    assert_eq!(header_crc16(&h) as u32, crc32(&h) & 0xFFFF);
}

#[test]
fn digest_over_pieces_is_crc_of_concatenation() {
    let mut d = HeaderDigest::new();
    d.update(b"1234");
    d.update(b"");
    d.update(b"56789");
    assert_eq!(d.finalize(), 0xCBF4_3926);
}

#[test]
fn hash3_values_and_range() {
    assert_eq!(hash3_fast(b"abcd", 0), 0x2114);
    assert_eq!(hash3_fast(&[0, 0, 0, 0], 0), 0);
    assert_eq!(hash3_fast(&[9, 0xFF, 0xFF, 0xFF, 7], 1), 3428);
    // only the three bytes at the position count
    assert_eq!(hash3_fast(b"abcz", 0), hash3_fast(b"abcd", 0));
    for a in 0..=255u8 {
        assert!(hash3_fast(&[a, a.wrapping_mul(7), 0x5A, 0], 0) < HASH_SIZE);
    }
}

#[test]
fn operating_system_codes() {
    assert_eq!(OperatingSystem::from(0), OperatingSystem::Fat);
    assert_eq!(OperatingSystem::from(3), OperatingSystem::Unix);
    assert_eq!(OperatingSystem::from(11), OperatingSystem::Ntfs);
    assert_eq!(OperatingSystem::from(13), OperatingSystem::AcornRiscOs);
    assert_eq!(OperatingSystem::from(14), OperatingSystem::Unknown);
    assert_eq!(OperatingSystem::from(255), OperatingSystem::Unknown);
}

#[test]
fn stream_operating_system_keeps_unlisted_codes() {
    assert_eq!(gzip::OperatingSystem::from(7), gzip::OperatingSystem::Macintosh);
    assert_eq!(gzip::OperatingSystem::from(255), gzip::OperatingSystem::Unknown);
    assert_eq!(gzip::OperatingSystem::from(200), gzip::OperatingSystem::Other(200));
    assert!(matches!(
        gzip::error::GzipError::from(IoError { kind: IoErrorKind::UnexpectedEof }),
        gzip::error::GzipError::Io(_)
    ));
}

#[test]
fn method_and_extra_flag_codes() {
    assert_eq!(CompressionMethod::from(8), CompressionMethod::Deflate);
    assert_eq!(CompressionMethod::from(9), CompressionMethod::Unknown(9));
    assert_eq!(ExtraFlags::from(2), ExtraFlags::MaximumCompression);
    assert_eq!(ExtraFlags::from(4), ExtraFlags::FastestAlgorithm);
    assert_eq!(ExtraFlags::from(0), ExtraFlags::Other(0));
}

#[test]
fn flags_truncate_and_contain() {
    let f = Flags::from_bits_truncate(0xFF);
    assert_eq!(f.bits(), 0x1F);
    assert!(f.contains(Flags::fname()));
    assert!(f.contains(Flags::ftext()));
    let g = Flags::from_bits_truncate(0x0A);
    assert!(g.contains(Flags::fhcrc()));
    assert!(!g.contains(Flags::fextra()));
    assert!(g.contains(Flags::empty()));
    assert_eq!(Flags::fcomment().bits(), 0x10);
}

#[test]
fn reader_reads_front_to_back() {
    let mut r = ByteReader::new(vec![1, 2, 3, 4, 5]);
    assert_eq!(r.read_exact(2).unwrap(), vec![1, 2]);
    assert_eq!(r.fill_buf(), &[3, 4, 5]);
    r.consume(1);
    assert_eq!(r.remaining(), 2);
    let e = r.read_exact(3).unwrap_err();
    assert_eq!(e.kind(), IoErrorKind::UnexpectedEof);
    // a failed read consumes nothing
    assert_eq!(r.read_exact(2).unwrap(), vec![4, 5]);
}

#[test]
fn io_error_converts_to_gzip_error() {
    let e = GzipError::from(IoError { kind: IoErrorKind::UnexpectedEof });
    assert!(matches!(e, GzipError::Io(IoError { kind: IoErrorKind::UnexpectedEof })));
}

#[test]
fn modification_time_is_little_endian() {
    let raw = vec![0x1F, 0x8B, 0x08, 0x00, 0x70, 0xF0, 0x95, 0x6A, 0x00, 0x0B];
    let parsed = decoder(raw).parse_header().expect("valid header");
    assert_eq!(parsed.state.header.modification_time, 0x6A95_F070);
    assert_eq!(parsed.state.header.os, OperatingSystem::Ntfs);
    assert_eq!(parsed.state.header.extra_flags, ExtraFlags::Other(0));
}

#[test]
fn truncated_header_message() {
    let result = decoder(vec![]).parse_header();
    match result {
        Err(GzipError::UnexpectedEof { err }) => {
            assert_eq!(err, "failed to read header: failed to fill whole buffer")
        }
        _ => panic!("expected UnexpectedEof"),
    }
}

#[test]
fn checks_run_in_order() {
    // bad magic wins over a bad method and reserved flags
    let r = decoder(vec![0x00, 0x8B, 0x07, 0xE0, 0, 0, 0, 0, 0, 0]).parse_header();
    assert!(matches!(r, Err(GzipError::InvalidMagic(0x00, 0x8B))));
    // a bad method wins over reserved flags
    let r = decoder(vec![0x1F, 0x8B, 0x00, 0xE0, 0, 0, 0, 0, 0, 0]).parse_header();
    assert!(matches!(r, Err(GzipError::UnsupportedMethod(0))));
    let r = decoder(vec![0x1F, 0x8B, 0x08, 0x80, 0, 0, 0, 0, 0, 0]).parse_header();
    assert!(matches!(r, Err(GzipError::ReservedFlags(0x80))));
}

#[test]
fn payload_after_header_is_left_unread() {
    let mut raw = vec![0x1F, 0x8B, 0x08, 0x0C, 0, 0, 0, 0, 0, 3, 0x01, 0x00, 0xAA];
    raw.extend_from_slice(b"n\0");
    raw.extend_from_slice(&[0x00, 0x42, 0x43]);
    let parsed = decoder(raw)
        .parse_header()
        .expect("valid header")
        .read_optionals()
        .expect("valid optionals");
    assert_eq!(parsed.state.optionals.extra, Some(vec![0xAA]));
    assert_eq!(parsed.state.optionals.name.as_deref(), Some("n"));
    assert_eq!(parsed.reader.fill_buf(), &[0x00, 0x42, 0x43]);
    // the scratch buffer holds the last field read
    assert_eq!(parsed.buf, b"n".to_vec());
}

#[test]
fn name_is_read_as_latin1() {
    let raw = vec![0x1F, 0x8B, 0x08, 0x08, 0, 0, 0, 0, 0, 3, b'c', 0xE9, 0xFF, 0];
    let parsed = decoder(raw)
        .parse_header()
        .expect("valid header")
        .read_optionals()
        .expect("valid optionals");
    assert_eq!(parsed.state.optionals.name.as_deref(), Some("c\u{e9}\u{ff}"));
}

#[test]
fn empty_name_and_comment() {
    let raw = vec![0x1F, 0x8B, 0x08, 0x18, 0, 0, 0, 0, 0, 3, 0, 0];
    let parsed = decoder(raw)
        .parse_header()
        .expect("valid header")
        .read_optionals()
        .expect("valid optionals");
    assert_eq!(parsed.state.optionals.name.as_deref(), Some(""));
    assert_eq!(parsed.state.optionals.comment.as_deref(), Some(""));
}

#[test]
fn fhcrc_mismatch_reports_both_values() {
    let raw = vec![0x1F, 0x8B, 0x08, 0x02, 0, 0, 0, 0, 0, 3, 0xDE, 0xAD];
    let result = decoder(raw)
        .parse_header()
        .expect("valid header")
        .read_optionals();
    assert!(matches!(
        result,
        Err(GzipError::HeaderCrcMismatch { expected: 0xADDE, calculated: 0x77A7 })
    ));
}

#[test]
fn fhcrc_cut_short_is_an_io_error() {
    let raw = vec![0x1F, 0x8B, 0x08, 0x02, 0, 0, 0, 0, 0, 3, 0xA7];
    let result = decoder(raw)
        .parse_header()
        .expect("valid header")
        .read_optionals();
    assert!(matches!(
        result,
        Err(GzipError::Io(error)) if error.kind() == IoErrorKind::UnexpectedEof
    ));
}

#[test]
fn fhcrc_covers_optional_fields() {
    // the CRC-16 of the fixed header alone is refused once a name precedes the FHCRC field
    let fixed = [0x1F, 0x8B, 0x08, 0x0A, 0, 0, 0, 0, 0, 3];
    let mut raw = fixed.to_vec();
    raw.extend_from_slice(b"x\0");
    raw.extend_from_slice(&header_crc16(&fixed).to_le_bytes());
    let result = decoder(raw)
        .parse_header()
        .expect("valid header")
        .read_optionals();
    assert!(matches!(result, Err(GzipError::HeaderCrcMismatch { .. })));

    let mut good = fixed.to_vec();
    good.extend_from_slice(b"x\0");
    let crc = header_crc16(&good);
    good.extend_from_slice(&crc.to_le_bytes());
    good.extend_from_slice(b"payload");
    let parsed = decoder(good)
        .parse_header()
        .expect("valid header")
        .read_optionals()
        .expect("valid optionals");
    assert_eq!(parsed.state.optionals.header_crc, Some(crc));
    assert_eq!(parsed.reader.fill_buf(), b"payload");
}

#[test]
fn check_header_crc_direct() {
    assert!(matches!(check_header_crc(0x3926, 0xCBF4_3926), Ok(0x3926)));
    assert!(matches!(
        check_header_crc(0x3927, 0xCBF4_3926),
        Err(GzipError::HeaderCrcMismatch { expected: 0x3927, calculated: 0x3926 })
    ));
}

#[test]
fn unterminated_comment_message() {
    let raw = vec![0x1F, 0x8B, 0x08, 0x10, 0, 0, 0, 0, 0, 3, b'a', b'b'];
    let result = decoder(raw)
        .parse_header()
        .expect("valid header")
        .read_optionals();
    match result {
        Err(GzipError::UnexpectedEof { err }) => assert_eq!(err, "null terminator"),
        _ => panic!("expected UnexpectedEof"),
    }
}

#[test]
fn extra_length_cut_short() {
    let raw = vec![0x1F, 0x8B, 0x08, 0x04, 0, 0, 0, 0, 0, 3, 0x05];
    let result = decoder(raw)
        .parse_header()
        .expect("valid header")
        .read_optionals();
    assert!(matches!(result, Err(GzipError::Io(_))));
}

#[test]
fn operating_system_code_round_trip() {
    assert_eq!(OperatingSystem::Unknown.code(), 255);
    assert_eq!(OperatingSystem::Unix.code(), 3);
    for v in 0..=255u8 {
        let os = OperatingSystem::from(v);
        if v <= 13 || v == 255 {
            assert_eq!(os.code(), v);
        } else {
            assert_eq!(os, OperatingSystem::Unknown);
        }
        assert_eq!(OperatingSystem::from(os.code()), os);
    }
}
