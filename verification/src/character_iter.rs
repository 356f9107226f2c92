//! The iteration driver: pulls decode results from a stream, absorbs bounded
//! runs of transient I/O interruptions, and turns the rest into a terminated
//! sequence of elements.

use vstd::prelude::*;

use crate::character_stream::{
    CharStream, CharacterStream, CharacterStreamResult, MultiPeekable, Peekable,
    PeekableCharacterStream, ToCharacterStream,
};
use crate::error::{outcome_of, CharacterError, DecodeOutcome, IoKind};
use crate::source::{ByteSource, MemorySource};
use crate::{MultiPeek, Peek};

verus! {

/// Maximum run of consecutive transient interruptions absorbed by default.
pub(crate) const INTERRUPTED_MAX: usize = 5;

/// Iterator over a [`CharacterStream`] or either peekable wrapper.
///
/// While active, each pull yields a character or an error element, retries a
/// transient interruption up to `interrupted_max` times in a row, and turns
/// clean or unexpected exhaustion of the source into permanent termination.
pub struct CharacterIterator<Stream: CharStream> {
    /// The stream to iterate over.
    pub stream: Stream,
    /// Maximum run of consecutive transient interruptions absorbed before
    /// iteration silently terminates.
    pub interrupted_max: usize,
    /// Consecutive transient interruptions seen so far.
    pub interrupted_count: usize,
    /// The one-way terminal flag: set once the sequence has ended.
    pub done: bool,
}

impl<Stream: CharStream> CharacterIterator<Stream> {
    /// Well-formedness: the underlying stream is well-formed.
    pub open spec fn wf(&self) -> bool {
        self.stream.wf()
    }

    /// Creates an iterator over a stream, absorbing up to `interrupted_max`
    /// consecutive transient interruptions.
    pub fn new(stream: Stream, interrupted_max: usize) -> (r: Self)
        ensures
            r.stream == stream,
            r.interrupted_max == interrupted_max,
            r.interrupted_count == 0,
            !r.done,
    {
        Self { stream, interrupted_max, interrupted_count: 0, done: false }
    }

    /// Returns a reference to the underlying stream.
    pub fn stream(&self) -> (r: &Stream)
        ensures
            *r == self.stream,
    {
        &self.stream
    }

    /// Returns a mutable reference to the underlying stream.
    pub fn stream_mut(&mut self) -> (r: &mut Stream)
        ensures
            *r == old(self).stream,
            final(self).stream == *final(r),
            final(self).interrupted_max == old(self).interrupted_max,
            final(self).interrupted_count == old(self).interrupted_count,
            final(self).done == old(self).done,
    {
        &mut self.stream
    }

    /// Is the character parser lossy?
    pub fn is_lossy(&self) -> (r: bool)
        ensures
            r == self.stream.lossy_spec(),
    {
        self.stream.is_lossy()
    }

    /// Produces the next element of the sequence: a character, an error worth
    /// surfacing, or `None` once the sequence has permanently ended.
    ///
    /// Clean exhaustion ends the sequence; a transient interruption is
    /// retried at once, and a run of more than `interrupted_max` of them in a
    /// row silently ends the sequence; an unexpected end of input ends it
    /// too; every other error is yielded as an element and iteration goes
    /// on.
    pub fn next(&mut self) -> (r: Option<CharacterStreamResult>)
        requires
            old(self).wf(),
        ensures
            final(self).wf(),
            final(self).interrupted_max == old(self).interrupted_max,
            final(self).stream.lossy_spec() == old(self).stream.lossy_spec(),
            final(self).stream.infallible() == old(self).stream.infallible(),
            old(self).done ==> r is None && *final(self) == *old(self),
            r is Some ==> !final(self).done && final(self).interrupted_count == 0,
            r is None ==> final(self).done,
            !old(self).done && old(self).stream.infallible() ==> {
                if old(self).stream.upcoming().len() == 0 {
                    &&& r is None
                    &&& final(self).stream.upcoming() == old(self).stream.upcoming()
                } else {
                    &&& r matches Some(x) && outcome_of(x) == old(self).stream.upcoming()[0]
                    &&& final(self).stream.upcoming() == old(self).stream.upcoming().skip(1)
                }
            },
    {
        if self.done {
            return None;
        }
        loop
            invariant
                self.stream.wf(),
                !self.done,
                !old(self).done,
                self.interrupted_max == old(self).interrupted_max,
                self.stream.lossy_spec() == old(self).stream.lossy_spec(),
                self.stream.infallible() == old(self).stream.infallible(),
                old(self).stream.infallible() ==> self.stream.upcoming() == old(
                    self,
                ).stream.upcoming(),
            decreases (if self.interrupted_count <= self.interrupted_max {
                self.interrupted_max + 1 - self.interrupted_count
            } else {
                0
            }),
        {
            match self.stream.read_char() {
                Ok(character) => {
                    if self.interrupted_count > 0 {
                        self.interrupted_count = 0;
                    }
                    return Some(Ok(character));
                },
                Err(error) => match error {
                    CharacterError::NoBytesRead => {
                        self.done = true;
                        return None;
                    },
                    CharacterError::IoError { bytes, kind } => match kind {
                        IoKind::Interrupted => {
                            if self.interrupted_count < self.interrupted_max {
                                self.interrupted_count = self.interrupted_count + 1;
                            } else {
                                self.done = true;
                                return None;
                            }
                        },
                        IoKind::UnexpectedEof => {
                            self.done = true;
                            return None;
                        },
                        IoKind::Other => {
                            self.interrupted_count = 0;
                            return Some(Err(CharacterError::IoError { bytes, kind }));
                        },
                    },
                    other => {
                        self.interrupted_count = 0;
                        return Some(Err(other));
                    },
                },
            }
        }
    }
}

impl<S: ByteSource> CharacterIterator<CharacterStream<S>> {
    /// Makes the underlying stream peekable, single-slot.
    pub fn peek(self) -> (r: CharacterIterator<PeekableCharacterStream<S, Peek>>)
        ensures
            r.wf(),
            r.stream.upcoming() == self.stream.upcoming(),
            r.stream.lossy_spec() == self.stream.lossy_spec(),
            r.stream.infallible() == self.stream.infallible(),
            r.interrupted_max == self.interrupted_max,
            r.interrupted_count == 0,
            !r.done,
    {
        let max = self.interrupted_max;
        CharacterIterator::new(self.stream.peeky(), max)
    }

    /// Makes the underlying stream peekable, with a replay cursor.
    pub fn peek_multi(self) -> (r: CharacterIterator<PeekableCharacterStream<S, MultiPeek>>)
        ensures
            r.wf(),
            r.stream.upcoming() == self.stream.upcoming(),
            r.stream.lossy_spec() == self.stream.lossy_spec(),
            r.stream.infallible() == self.stream.infallible(),
            r.interrupted_max == self.interrupted_max,
            r.interrupted_count == 0,
            !r.done,
    {
        let max = self.interrupted_max;
        CharacterIterator::new(self.stream.peeky_multi(), max)
    }
}

impl<S: ByteSource> CharacterIterator<PeekableCharacterStream<S, Peek>> {
    /// Peeks the next result in the stream without consuming it.
    pub fn peek(&mut self) -> (r: Option<&CharacterStreamResult>)
        requires
            old(self).wf(),
        ensures
            final(self).wf(),
            r is Some,
            final(self).interrupted_max == old(self).interrupted_max,
            final(self).interrupted_count == old(self).interrupted_count,
            final(self).done == old(self).done,
            final(self).stream.lossy_spec() == old(self).stream.lossy_spec(),
            final(self).stream.infallible() == old(self).stream.infallible(),
            old(self).stream.infallible() ==> final(self).stream.upcoming() == old(
                self,
            ).stream.upcoming() && (r matches Some(x) ==> outcome_of(*x) == (if old(
                self,
            ).stream.upcoming().len() > 0 {
                old(self).stream.upcoming()[0]
            } else {
                DecodeOutcome::End
            })),
    {
        self.stream.peek()
    }
}

impl<S: ByteSource> CharacterIterator<PeekableCharacterStream<S, MultiPeek>> {
    /// Peeks the result under the replay cursor and advances the cursor.
    pub fn peek(&mut self) -> (r: Option<&CharacterStreamResult>)
        requires
            old(self).wf(),
        ensures
            final(self).wf(),
            final(self).interrupted_max == old(self).interrupted_max,
            final(self).interrupted_count == old(self).interrupted_count,
            final(self).done == old(self).done,
            final(self).stream.lossy_spec() == old(self).stream.lossy_spec(),
            final(self).stream.infallible() == old(self).stream.infallible(),
            old(self).stream.infallible() ==> {
                if old(self).stream.cursor() < old(self).stream.upcoming().len() {
                    &&& r matches Some(x) && outcome_of(*x) == old(self).stream.upcoming()[old(
                        self,
                    ).stream.cursor() as int]
                    &&& final(self).stream.upcoming() == old(self).stream.upcoming()
                    &&& final(self).stream.cursor() == old(self).stream.cursor() + 1
                } else {
                    &&& r is None
                    &&& final(self).stream.upcoming() == old(self).stream.upcoming()
                    &&& final(self).stream.cursor() == old(self).stream.cursor()
                }
            },
    {
        self.stream.peek()
    }

    /// Rewinds the replay cursor to the consumption point.
    pub fn reset_peek(&mut self)
        requires
            old(self).wf(),
        ensures
            final(self).wf(),
            final(self).stream.cursor() == 0,
            final(self).stream.buffered() == old(self).stream.buffered(),
            final(self).stream.upcoming() == old(self).stream.upcoming(),
            final(self).stream.lossy_spec() == old(self).stream.lossy_spec(),
            final(self).stream.infallible() == old(self).stream.infallible(),
            final(self).interrupted_max == old(self).interrupted_max,
            final(self).interrupted_count == old(self).interrupted_count,
            final(self).done == old(self).done,
    {
        self.stream.reset_peek()
    }
}

/// Helper trait for converting byte values into a [`CharacterIterator`].
pub trait ToCharacterIterator {
    /// Converts into a strict [`CharacterIterator`].
    fn to_character_iterator(&self) -> CharacterIterator<CharacterStream<MemorySource>>;

    /// Converts into a lossy [`CharacterIterator`].
    fn to_character_iterator_lossy(&self) -> CharacterIterator<CharacterStream<MemorySource>>;
}

impl ToCharacterIterator for [u8] {
    /// Iterates strictly over an in-memory copy of the bytes.
    fn to_character_iterator(&self) -> (r: CharacterIterator<CharacterStream<MemorySource>>)
        ensures
            r.wf(),
            r.stream.stream.remaining() == self@,
            r.stream.infallible(),
            !r.stream.lossy_spec(),
            r.interrupted_count == 0,
            !r.done,
    {
        CharacterIterator::new(self.to_character_stream(), INTERRUPTED_MAX)
    }

    /// Iterates lossily over an in-memory copy of the bytes.
    fn to_character_iterator_lossy(&self) -> (r: CharacterIterator<CharacterStream<MemorySource>>)
        ensures
            r.wf(),
            r.stream.stream.remaining() == self@,
            r.stream.infallible(),
            r.stream.lossy_spec(),
            r.interrupted_count == 0,
            !r.done,
    {
        CharacterIterator::new(self.to_character_stream_lossy(), INTERRUPTED_MAX)
    }
}

impl<S: ByteSource> CharacterStream<S> {
    /// Turns the stream into a [`CharacterIterator`] with the default
    /// interruption budget.
    pub fn into_iter(self) -> (r: CharacterIterator<CharacterStream<S>>)
        ensures
            r.stream == self,
            r.interrupted_count == 0,
            !r.done,
    {
        CharacterIterator::new(self, INTERRUPTED_MAX)
    }
}

impl<S: ByteSource> PeekableCharacterStream<S, Peek> {
    /// Turns the peekable stream into a [`CharacterIterator`] with the
    /// default interruption budget.
    pub fn into_iter(self) -> (r: CharacterIterator<PeekableCharacterStream<S, Peek>>)
        ensures
            r.stream == self,
            r.interrupted_count == 0,
            !r.done,
    {
        CharacterIterator::new(self, INTERRUPTED_MAX)
    }
}

impl<S: ByteSource> PeekableCharacterStream<S, MultiPeek> {
    /// Turns the peekable stream into a [`CharacterIterator`] with the
    /// default interruption budget.
    pub fn into_iter(self) -> (r: CharacterIterator<PeekableCharacterStream<S, MultiPeek>>)
        ensures
            r.stream == self,
            r.interrupted_count == 0,
            !r.done,
    {
        CharacterIterator::new(self, INTERRUPTED_MAX)
    }
}

} // verus!
