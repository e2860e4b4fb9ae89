use vstd::prelude::*;

verus! {

/// What went wrong while reading the frame's bytes.
#[derive(Debug, Clone, Copy, PartialEq, Eq, Structural)]
pub enum IoError {
    /// The frame ended before a section or a table it announced.
    UnexpectedEof,
    /// Sizes or tables of the frame contradict each other.
    InvalidData,
}

/// The ways a frame can fail to decode.
#[derive(Debug)]
pub enum Error {
    UnknownCompressor(u8),
    UnknownTextureFormat(u8),
    Io(IoError),
    UnknownDecodeInstruction(u8),
    Snappy(snap::Error),
    InternalThreadProblem,
}

/// An [`Error`] with the Snappy error's details left out: what contracts
/// speak of.
#[derive(Debug, Clone, Copy, PartialEq, Eq, Structural)]
pub enum ErrorKind {
    UnknownCompressor(u8),
    UnknownTextureFormat(u8),
    Io(IoError),
    UnknownDecodeInstruction(u8),
    Snappy,
    InternalThreadProblem,
}

impl View for Error {
    type V = ErrorKind;

    open spec fn view(&self) -> ErrorKind {
        match self {
            Error::UnknownCompressor(b) => ErrorKind::UnknownCompressor(*b),
            Error::UnknownTextureFormat(b) => ErrorKind::UnknownTextureFormat(*b),
            Error::Io(e) => ErrorKind::Io(*e),
            Error::UnknownDecodeInstruction(b) => ErrorKind::UnknownDecodeInstruction(*b),
            Error::Snappy(_) => ErrorKind::Snappy,
            Error::InternalThreadProblem => ErrorKind::InternalThreadProblem,
        }
    }
}

/// A result with its error seen as an [`ErrorKind`].
pub open spec fn outcome<T>(r: Result<T, Error>) -> Result<T, ErrorKind> {
    match r {
        Ok(v) => Ok(v),
        Err(e) => Err(e@),
    }
}

/// A result with its value and its error seen through their views.
pub open spec fn outcome_view<T: View>(r: Result<T, Error>) -> Result<T::V, ErrorKind> {
    match r {
        Ok(v) => Ok(v@),
        Err(e) => Err(e@),
    }
}

pub open spec fn eof() -> ErrorKind {
    ErrorKind::Io(IoError::UnexpectedEof)
}

pub open spec fn invalid() -> ErrorKind {
    ErrorKind::Io(IoError::InvalidData)
}

} // verus!
