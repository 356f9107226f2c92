//! Incremental UTF-8 character decoding over a pull-based byte source, with
//! single-slot and replay-cursor lookahead and a bounded-retry iteration
//! driver.

use vstd::prelude::*;

mod character_iter;
mod character_stream;
mod decode;
mod error;
mod source;

pub use character_iter::{CharacterIterator, ToCharacterIterator};
pub use character_stream::{
    CharStream, CharacterStream, CharacterStreamResult, MultiPeekable, Peekable,
    PeekableCharacterStream, ToCharacterStream,
};
pub use decode::{
    char_of, code_of, decode_results, encode_char, encode_seq, extra_count, is_continuation,
    lemma_decode_of_encode, lemma_encode_char_valid, lemma_scalar_or_stray_decode,
    scalar_or_stray, scalar_or_stray_results, valid_scalar_seq,
};
pub use error::{outcome_of, CharacterError, DecodeCause, DecodeOutcome, IoKind};
pub use source::{ByteSource, MemorySource, SourceError};

verus! {

/// Marker selecting the single-slot peeking discipline of
/// [`PeekableCharacterStream`].
pub struct Peek;

/// Marker selecting the replay-cursor peeking discipline of
/// [`PeekableCharacterStream`].
pub struct MultiPeek;

} // verus!
