//! The errors of gzip decoding.
use crate::input::IoError;
use vstd::prelude::*;

verus! {

/// Why a gzip stream was refused.
#[derive(Debug)]
#[allow(inconsistent_fields)]
pub enum GzipError {
    /// Reading the input failed.
    Io(IoError),
    /// The input ended inside a field; `err` names what was being read.
    UnexpectedEof { err: &'static str },
    /// The first two bytes are not 0x1F 0x8B; they are the two bytes found.
    InvalidMagic(u8, u8),
    /// The compression method byte is not 8 (DEFLATE).
    UnsupportedMethod(u8),
    /// A reserved bit of FLG is set; the byte is the whole FLG.
    ReservedFlags(u8),
    /// The header CRC-16 stored in the stream differs from the one computed.
    HeaderCrcMismatch { expected: u16, calculated: u16 },
    /// The CRC-32 of the data differs from the one in the trailer.
    DataCrcMismatch { expected: u32, calculated: u32 },
    /// The size of the data differs from ISIZE in the trailer.
    SizeMismatch { expected: u32, calculated: u32 },
}

/// The result of a gzip decoding step.
pub type GzipResult<T> = Result<T, GzipError>;

impl From<IoError> for GzipError {
    fn from(e: IoError) -> (g: Self) {
        GzipError::Io(e)
    }
}

impl vstd::std_specs::convert::FromSpecImpl<IoError> for GzipError {
    open spec fn obeys_from_spec() -> bool {
        true
    }

    open spec fn from_spec(v: IoError) -> Self {
        GzipError::Io(v)
    }
}

} // verus!
