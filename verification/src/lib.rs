//! Parsing of the gzip member header (RFC 1952).
//!
//! ```text
//! +---+---+---+---+---+---+---+---+---+---+
//! |ID1|ID2|CM |FLG|     MTIME     |XFL|OS | (10-byte Fixed Header)
//! +---+---+---+---+---+---+---+---+---+---+
//! | (Optional Extra Fields - FEXTRA)      |
//! +---------------------------------------+
//! | (Optional Original Filename - FNAME)  |
//! +---------------------------------------+
//! | (Optional File Comment - FCOMMENT)    |
//! +---------------------------------------+
//! | (Optional Header CRC - FHCRC)         |
//! +=======================================+
//! |          Compressed Payload           | (DEFLATE blocks)
//! +=======================================+
//! |     CRC32     |     ISIZE     |         (8-byte Trailer)
//! +---+---+---+---+---+---+---+---+
//! ```
pub mod deflate;
pub mod error;
pub mod gzip;
pub mod helper;
pub mod format;
pub mod input;
pub mod laws;
pub mod parser;

pub use deflate::lz77;
pub use error::{GzipError, GzipResult};
pub use parser::{Decoder, HeaderParsed, OptionalParsed, Start};

use vstd::prelude::*;

verus! {

/// First identification byte of a gzip member.
pub const ID1: u8 = 0x1F;

/// Second identification byte of a gzip member.
pub const ID2: u8 = 0x8B;

/// Bit of FLG: the payload is probably ASCII text.
pub const FTEXT_BIT: u8 = 0x01;

/// Bit of FLG: a CRC-16 of the header precedes the payload.
pub const FHCRC_BIT: u8 = 0x02;

/// Bit of FLG: an extra field is present.
pub const FEXTRA_BIT: u8 = 0x04;

/// Bit of FLG: an original file name is present.
pub const FNAME_BIT: u8 = 0x08;

/// Bit of FLG: a file comment is present.
pub const FCOMMENT_BIT: u8 = 0x10;

/// The five flag bits that RFC 1952 defines.
pub const KNOWN_FLAG_BITS: u8 = 0x1F;

/// The FLG byte of the fixed header, holding only the five defined bits.
#[derive(Debug, Clone, Copy, PartialEq, Eq, Structural)]
pub struct Flags {
    bits: u8,
}

impl Flags {
    /// The flag bits as a byte.
    pub closed spec fn spec_bits(self) -> u8 {
        self.bits
    }

    /// Only the defined bits can be set.
    pub open spec fn wf(self) -> bool {
        self.spec_bits() & !KNOWN_FLAG_BITS == 0
    }

    /// Whether every bit of `other` is set in `self`.
    pub open spec fn spec_contains(self, other: Flags) -> bool {
        self.spec_bits() & other.spec_bits() == other.spec_bits()
    }

    /// The set with no flag.
    pub fn empty() -> (f: Flags)
        ensures
            f.spec_bits() == 0,
    {
        Flags { bits: 0 }
    }

    /// The flag FTEXT alone.
    pub fn ftext() -> (f: Flags)
        ensures
            f.spec_bits() == FTEXT_BIT,
    {
        Flags { bits: FTEXT_BIT }
    }

    /// The flag FHCRC alone.
    pub fn fhcrc() -> (f: Flags)
        ensures
            f.spec_bits() == FHCRC_BIT,
    {
        Flags { bits: FHCRC_BIT }
    }

    /// The flag FEXTRA alone.
    pub fn fextra() -> (f: Flags)
        ensures
            f.spec_bits() == FEXTRA_BIT,
    {
        Flags { bits: FEXTRA_BIT }
    }

    /// The flag FNAME alone.
    pub fn fname() -> (f: Flags)
        ensures
            f.spec_bits() == FNAME_BIT,
    {
        Flags { bits: FNAME_BIT }
    }

    /// The flag FCOMMENT alone.
    pub fn fcomment() -> (f: Flags)
        ensures
            f.spec_bits() == FCOMMENT_BIT,
    {
        Flags { bits: FCOMMENT_BIT }
    }

    /// The flags of a raw FLG byte; bits that RFC 1952 does not define are dropped.
    pub fn from_bits_truncate(raw: u8) -> (f: Flags)
        ensures
            f.spec_bits() == raw & KNOWN_FLAG_BITS,
            f.wf(),
    {
        let bits = raw & KNOWN_FLAG_BITS;
        assert(bits & !KNOWN_FLAG_BITS == 0) by (bit_vector)
            requires
                bits == raw & 0x1Fu8,
        ;
        Flags { bits }
    }

    /// The flag bits as a byte.
    pub fn bits(&self) -> (b: u8)
        ensures
            b == self.spec_bits(),
    {
        self.bits
    }

    /// Whether every flag of `other` is set in `self`.
    pub fn contains(&self, other: Flags) -> (b: bool)
        ensures
            b == self.spec_contains(other),
    {
        self.bits & other.bits == other.bits
    }
}

impl Default for Flags {
    fn default() -> (f: Self)
        ensures
            f.spec_bits() == 0,
    {
        Flags { bits: 0 }
    }
}

/// The compression method byte CM.
#[derive(Debug, Clone, Copy, PartialEq, Eq, Structural)]
pub enum CompressionMethod {
    Deflate,
    Unknown(u8),
}

/// What `CompressionMethod::from` gives for a byte: 8 is DEFLATE.
pub open spec fn compression_method_of(value: u8) -> CompressionMethod {
    if value == 8 {
        CompressionMethod::Deflate
    } else {
        CompressionMethod::Unknown(value)
    }
}

impl From<u8> for CompressionMethod {
    fn from(value: u8) -> (m: Self) {
        match value {
            8 => Self::Deflate,
            other => Self::Unknown(other),
        }
    }
}

impl vstd::std_specs::convert::FromSpecImpl<u8> for CompressionMethod {
    open spec fn obeys_from_spec() -> bool {
        true
    }

    open spec fn from_spec(v: u8) -> Self {
        compression_method_of(v)
    }
}

/// The operating system byte OS.
#[derive(Debug, Clone, Copy, PartialEq, Eq, Structural)]
pub enum OperatingSystem {
    Fat,
    Amiga,
    Vms,
    Unix,
    VmCms,
    AtariTos,
    Hpfs,
    Macintosh,
    ZSystem,
    CpM,
    Tops20,
    Ntfs,
    Qdos,
    AcornRiscOs,
    Unknown,
}

/// What `OperatingSystem::from` gives for a byte: the codes 0 to 13 of RFC 1952, and
/// `Unknown` for every other byte.
pub open spec fn operating_system_of(v: u8) -> OperatingSystem {
    if v == 0 {
        OperatingSystem::Fat
    } else if v == 1 {
        OperatingSystem::Amiga
    } else if v == 2 {
        OperatingSystem::Vms
    } else if v == 3 {
        OperatingSystem::Unix
    } else if v == 4 {
        OperatingSystem::VmCms
    } else if v == 5 {
        OperatingSystem::AtariTos
    } else if v == 6 {
        OperatingSystem::Hpfs
    } else if v == 7 {
        OperatingSystem::Macintosh
    } else if v == 8 {
        OperatingSystem::ZSystem
    } else if v == 9 {
        OperatingSystem::CpM
    } else if v == 10 {
        OperatingSystem::Tops20
    } else if v == 11 {
        OperatingSystem::Ntfs
    } else if v == 12 {
        OperatingSystem::Qdos
    } else if v == 13 {
        OperatingSystem::AcornRiscOs
    } else {
        OperatingSystem::Unknown
    }
}

impl From<u8> for OperatingSystem {
    fn from(v: u8) -> (os: Self) {
        match v {
            0 => Self::Fat,
            1 => Self::Amiga,
            2 => Self::Vms,
            3 => Self::Unix,
            4 => Self::VmCms,
            5 => Self::AtariTos,
            6 => Self::Hpfs,
            7 => Self::Macintosh,
            8 => Self::ZSystem,
            9 => Self::CpM,
            10 => Self::Tops20,
            11 => Self::Ntfs,
            12 => Self::Qdos,
            13 => Self::AcornRiscOs,
            _ => Self::Unknown,
        }
    }
}

/// The RFC 1952 code of an operating system: 0 to 13 in the order of the variants, and
/// 255 for `Unknown`.
pub open spec fn operating_system_code(os: OperatingSystem) -> u8 {
    match os {
        OperatingSystem::Fat => 0,
        OperatingSystem::Amiga => 1,
        OperatingSystem::Vms => 2,
        OperatingSystem::Unix => 3,
        OperatingSystem::VmCms => 4,
        OperatingSystem::AtariTos => 5,
        OperatingSystem::Hpfs => 6,
        OperatingSystem::Macintosh => 7,
        OperatingSystem::ZSystem => 8,
        OperatingSystem::CpM => 9,
        OperatingSystem::Tops20 => 10,
        OperatingSystem::Ntfs => 11,
        OperatingSystem::Qdos => 12,
        OperatingSystem::AcornRiscOs => 13,
        OperatingSystem::Unknown => 255,
    }
}

impl OperatingSystem {
    /// The RFC 1952 code of this operating system (255 for `Unknown`).
    pub fn code(&self) -> (c: u8)
        ensures
            c == operating_system_code(*self),
    {
        match self {
            OperatingSystem::Fat => 0,
            OperatingSystem::Amiga => 1,
            OperatingSystem::Vms => 2,
            OperatingSystem::Unix => 3,
            OperatingSystem::VmCms => 4,
            OperatingSystem::AtariTos => 5,
            OperatingSystem::Hpfs => 6,
            OperatingSystem::Macintosh => 7,
            OperatingSystem::ZSystem => 8,
            OperatingSystem::CpM => 9,
            OperatingSystem::Tops20 => 10,
            OperatingSystem::Ntfs => 11,
            OperatingSystem::Qdos => 12,
            OperatingSystem::AcornRiscOs => 13,
            OperatingSystem::Unknown => 255,
        }
    }
}

/// Every operating system is read back from its code; a code is read back to itself
/// exactly when it is one of 0 to 13 or 255, every other byte reads as `Unknown`.
pub proof fn lemma_operating_system_code_round_trip(os: OperatingSystem, v: u8)
    ensures
        operating_system_of(operating_system_code(os)) == os,
        (v <= 13 || v == 255) ==> operating_system_code(operating_system_of(v)) == v,
        !(v <= 13 || v == 255) ==> operating_system_of(v) == OperatingSystem::Unknown,
{
}

impl vstd::std_specs::convert::FromSpecImpl<u8> for OperatingSystem {
    open spec fn obeys_from_spec() -> bool {
        true
    }

    open spec fn from_spec(v: u8) -> Self {
        operating_system_of(v)
    }
}

/// The extra flags byte XFL.
#[derive(Debug, Clone, Copy, PartialEq, Eq, Structural)]
pub enum ExtraFlags {
    MaximumCompression,
    FastestAlgorithm,
    Other(u8),
}

/// What `ExtraFlags::from` gives for a byte: 2 is maximum compression, 4 the fastest
/// algorithm.
pub open spec fn extra_flags_of(value: u8) -> ExtraFlags {
    if value == 2 {
        ExtraFlags::MaximumCompression
    } else if value == 4 {
        ExtraFlags::FastestAlgorithm
    } else {
        ExtraFlags::Other(value)
    }
}

impl From<u8> for ExtraFlags {
    fn from(value: u8) -> (x: Self) {
        match value {
            2 => Self::MaximumCompression,
            4 => Self::FastestAlgorithm,
            other => Self::Other(other),
        }
    }
}

impl vstd::std_specs::convert::FromSpecImpl<u8> for ExtraFlags {
    open spec fn obeys_from_spec() -> bool {
        true
    }

    open spec fn from_spec(v: u8) -> Self {
        extra_flags_of(v)
    }
}

/// The optional fields that follow the fixed header.
#[derive(Debug, Clone, PartialEq, Eq)]
pub struct Optionals {
    pub extra: Option<Vec<u8>>,
    pub name: Option<String>,
    pub comment: Option<String>,
    pub header_crc: Option<u16>,
}

/// The optional fields as values: the extra field's bytes, the name and the comment as
/// characters, and the header CRC-16.
pub ghost struct OptionalsView {
    pub extra: Option<Seq<u8>>,
    pub name: Option<Seq<char>>,
    pub comment: Option<Seq<char>>,
    pub header_crc: Option<u16>,
}

/// The view of an optional string.
pub open spec fn optional_chars(s: Option<String>) -> Option<Seq<char>> {
    match s {
        Some(t) => Some(t@),
        None => None,
    }
}

/// The view of an optional byte vector.
pub open spec fn optional_bytes(v: Option<Vec<u8>>) -> Option<Seq<u8>> {
    match v {
        Some(w) => Some(w@),
        None => None,
    }
}

impl View for Optionals {
    type V = OptionalsView;

    open spec fn view(&self) -> OptionalsView {
        OptionalsView {
            extra: optional_bytes(self.extra),
            name: optional_chars(self.name),
            comment: optional_chars(self.comment),
            header_crc: self.header_crc,
        }
    }
}

/// No optional field.
pub open spec fn no_optionals() -> OptionalsView {
    OptionalsView { extra: None, name: None, comment: None, header_crc: None }
}

impl Default for Optionals {
    fn default() -> (o: Self)
        ensures
            o@ == no_optionals(),
    {
        Optionals { extra: None, name: None, comment: None, header_crc: None }
    }
}

/// The fixed header, decoded.
#[derive(Debug, Clone, PartialEq, Eq, Structural)]
pub struct Header {
    pub compression_method: CompressionMethod,
    pub flags: Flags,
    pub modification_time: u32,
    pub extra_flags: ExtraFlags,
    pub os: OperatingSystem,
}

/// The 8-byte trailer: the CRC-32 and the size modulo 2^32 of the uncompressed data.
#[derive(Debug, Clone, Copy, PartialEq, Eq, Structural)]
pub struct Trailer {
    pub crc32: u32,
    pub isize: u32,
}

} // verus!
