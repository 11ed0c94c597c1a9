//! A second, stream-level set of gzip header types: the compression method and the operating system
//! byte, which here keeps unknown codes.
pub mod error;

use vstd::prelude::*;

verus! {

/// First identification byte of a gzip member.
pub const ID1: u8 = 0x1f;

/// Second identification byte of a gzip member.
pub const ID2: u8 = 0x8b;

/// The compression method byte CM.
#[derive(Debug, Clone, Copy, PartialEq, Eq, Structural)]
pub enum CM {
    Deflate,
    Unknown(u8),
}

/// The operating system byte OS; 255 is `Unknown`, and every code that RFC 1952 does not
/// list is kept in `Other`.
#[derive(Debug, Clone, Copy, PartialEq, Eq, Structural)]
pub enum OperatingSystem {
    Fat,
    Amiga,
    Vms,
    Unix,
    VmCms,
    AtariTos,
    Hpfs,
    Macintosh,
    ZSystem,
    CpM,
    Tops20,
    Ntfs,
    Qdos,
    AcornRiscOs,
    Unknown,
    Other(u8),
}

/// What `OperatingSystem::from` gives for a byte.
pub open spec fn os_of(val: u8) -> OperatingSystem {
    if val == 0 {
        OperatingSystem::Fat
    } else if val == 1 {
        OperatingSystem::Amiga
    } else if val == 2 {
        OperatingSystem::Vms
    } else if val == 3 {
        OperatingSystem::Unix
    } else if val == 4 {
        OperatingSystem::VmCms
    } else if val == 5 {
        OperatingSystem::AtariTos
    } else if val == 6 {
        OperatingSystem::Hpfs
    } else if val == 7 {
        OperatingSystem::Macintosh
    } else if val == 8 {
        OperatingSystem::ZSystem
    } else if val == 9 {
        OperatingSystem::CpM
    } else if val == 10 {
        OperatingSystem::Tops20
    } else if val == 11 {
        OperatingSystem::Ntfs
    } else if val == 12 {
        OperatingSystem::Qdos
    } else if val == 13 {
        OperatingSystem::AcornRiscOs
    } else if val == 255 {
        OperatingSystem::Unknown
    } else {
        OperatingSystem::Other(val)
    }
}

impl From<u8> for OperatingSystem {
    fn from(val: u8) -> (os: Self) {
        match val {
            0 => Self::Fat,
            1 => Self::Amiga,
            2 => Self::Vms,
            3 => Self::Unix,
            4 => Self::VmCms,
            5 => Self::AtariTos,
            6 => Self::Hpfs,
            7 => Self::Macintosh,
            8 => Self::ZSystem,
            9 => Self::CpM,
            10 => Self::Tops20,
            11 => Self::Ntfs,
            12 => Self::Qdos,
            13 => Self::AcornRiscOs,
            255 => Self::Unknown,
            other => Self::Other(other),
        }
    }
}

impl vstd::std_specs::convert::FromSpecImpl<u8> for OperatingSystem {
    open spec fn obeys_from_spec() -> bool {
        true
    }

    open spec fn from_spec(v: u8) -> Self {
        os_of(v)
    }
}

} // verus!
