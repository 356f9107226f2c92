//! The error taxonomy of the library: what a read can report besides a
//! decoded character, and the ghost mirror of a read's outcome used by the
//! contracts.

use vstd::prelude::*;

verus! {

/// The kind of an I/O failure reported by a byte source.
///
/// `Interrupted` is a transient condition worth retrying; `UnexpectedEof`
/// means the source ended in the middle of an operation; `Other` covers every
/// remaining failure.
#[derive(Clone, Copy, Debug, PartialEq, Eq, Structural)]
pub enum IoKind {
    Interrupted,
    UnexpectedEof,
    Other,
}

/// Why a byte sequence failed to decode as a single character.
#[derive(Clone, Copy, Debug, PartialEq, Eq, Structural)]
pub enum DecodeCause {
    /// The leading byte matches no UTF-8 length pattern.
    InvalidLeadingByte,
    /// The bytes read for one character are not a valid UTF-8 scalar value.
    InvalidSequence,
    /// The source ended before the announced continuation bytes arrived.
    IncompleteRead,
}

/// Everything a character read can report besides a character.
#[derive(Debug, Clone, PartialEq)]
pub enum CharacterError {
    /// The source yielded no bytes at all: clean exhaustion, not a failure.
    NoBytesRead,
    /// An I/O failure, together with the bytes consumed by the failing read.
    IoError { bytes: Vec<u8>, kind: IoKind },
    /// A decoding failure, together with the offending bytes and its cause.
    Other { bytes: Vec<u8>, cause: DecodeCause },
}

impl CharacterError {
    /// The raw bytes an error carries: `None` for clean exhaustion, the
    /// offending bytes otherwise.
    pub fn bytes(&self) -> (r: Option<&[u8]>)
        ensures
            match self {
                CharacterError::NoBytesRead => r is None,
                CharacterError::IoError { bytes, .. } => r matches Some(b) && b@ == bytes@,
                CharacterError::Other { bytes, .. } => r matches Some(b) && b@ == bytes@,
            },
    {
        match self {
            CharacterError::NoBytesRead => None,
            CharacterError::Other { bytes, .. } => Some(bytes.as_slice()),
            CharacterError::IoError { bytes, .. } => Some(bytes.as_slice()),
        }
    }
}

/// The ghost mirror of one read's outcome, over plain mathematical values.
/// Contracts speak of these rather than of the executable values, so that a
/// stream's future can be written as a `Seq` of outcomes.
pub enum DecodeOutcome {
    /// A decoded character.
    Scalar { c: char },
    /// A decoding failure with the offending bytes.
    Invalid { bytes: Seq<u8>, cause: DecodeCause },
    /// An I/O failure with the bytes its read had consumed.
    Io { bytes: Seq<u8>, kind: IoKind },
    /// Clean exhaustion of the source.
    End,
}

/// Maps an executable read result to its ghost outcome.
pub open spec fn outcome_of(r: Result<char, CharacterError>) -> DecodeOutcome {
    match r {
        Ok(c) => DecodeOutcome::Scalar { c },
        Err(CharacterError::NoBytesRead) => DecodeOutcome::End,
        Err(CharacterError::IoError { bytes, kind }) => DecodeOutcome::Io { bytes: bytes@, kind },
        Err(CharacterError::Other { bytes, cause }) => DecodeOutcome::Invalid {
            bytes: bytes@,
            cause,
        },
    }
}

} // verus!
