//! The errors of the stream-level gzip types.
use crate::input::IoError;
use vstd::prelude::*;

verus! {

/// Why a gzip stream was refused, at the level of the stream.
#[derive(Debug)]
pub enum GzipError {
    Io(IoError),
    InsufficantHeaderBits,
    NeedMoreData,
    UnsupportedMethod,
    InvalidIDBits(u8),
}

/// The result of a stream-level step.
pub type GzipResult<T> = Result<T, GzipError>;

impl From<IoError> for GzipError {
    fn from(e: IoError) -> (g: Self) {
        GzipError::Io(e)
    }
}

impl vstd::std_specs::convert::FromSpecImpl<IoError> for GzipError {
    open spec fn obeys_from_spec() -> bool {
        true
    }

    open spec fn from_spec(v: IoError) -> Self {
        GzipError::Io(v)
    }
}

} // verus!
