//! The character streams: a decoder over a byte source, and the two peeking
//! wrappers around it.

use core::marker::PhantomData;
use std::collections::VecDeque;

use vstd::prelude::*;

use crate::decode::{decode_results, decode_scalar, remaining_byte_count, valid_scalar_seq};
use crate::error::{outcome_of, CharacterError, DecodeCause, DecodeOutcome};
use crate::source::{ByteSource, MemorySource};
use crate::{MultiPeek, Peek};

verus! {

/// A result that contains a parsed character or a [`CharacterError`].
pub type CharacterStreamResult = Result<char, CharacterError>;

/// The capability of producing one decode result per call.
///
/// `upcoming` is the ghost sequence of outcomes the stream will deliver, one
/// per read, until the read that finds the source exhausted; it is exact for
/// streams whose byte source is `infallible`, and every read pops its front.
pub trait CharStream: Sized {
    /// Well-formedness of the stream's internal state; constructors
    /// establish it and every read preserves it.
    spec fn wf(&self) -> bool;

    /// Whether malformed input is replaced by U+FFFD rather than reported.
    spec fn lossy_spec(&self) -> bool;

    /// True when the underlying byte source never reports an I/O failure.
    spec fn infallible(&self) -> bool;

    /// The outcomes this stream has yet to deliver, exact when `infallible`.
    spec fn upcoming(&self) -> Seq<DecodeOutcome>;

    /// Produces the next decode result, consuming it from the stream.
    fn read_char(&mut self) -> (r: CharacterStreamResult)
        requires
            old(self).wf(),
        ensures
            final(self).wf(),
            final(self).lossy_spec() == old(self).lossy_spec(),
            final(self).infallible() == old(self).infallible(),
            old(self).infallible() && old(self).upcoming().len() == 0 ==> outcome_of(r)
                == DecodeOutcome::End && final(self).upcoming() == old(self).upcoming(),
            old(self).infallible() && old(self).upcoming().len() > 0 ==> outcome_of(r) == old(self).upcoming()[0] && final(self).upcoming() == old(self).upcoming().skip(1) && !(
            outcome_of(r) is End) && !(outcome_of(r) is Io),
    ;

    /// Whether this stream decodes lossily.
    fn is_lossy(&self) -> (r: bool)
        ensures
            r == self.lossy_spec(),
    ;
}

/// Single-slot lookahead: the next result without consuming it.
pub trait Peekable<T> {
    /// Well-formedness of the buffering state.
    spec fn peek_wf(&self) -> bool;

    /// The next result, decoded at most once and cached until consumed.
    fn peek(&mut self) -> (r: Option<&T>)
        requires
            old(self).peek_wf(),
        ensures
            final(self).peek_wf(),
    ;
}

/// Replay-cursor lookahead: arbitrarily many results ahead, rewindable.
pub trait MultiPeekable<T> {
    /// Well-formedness of the buffering state.
    spec fn peek_wf(&self) -> bool;

    /// The result under the cursor, advancing the cursor by one.
    fn peek(&mut self) -> (r: Option<&T>)
        requires
            old(self).peek_wf(),
        ensures
            final(self).peek_wf(),
    ;

    /// Rewinds the cursor to the consumption point.
    fn reset_peek(&mut self)
        requires
            old(self).peek_wf(),
        ensures
            final(self).peek_wf(),
    ;
}

/// Decodes a byte source into characters, one scalar value per call.
///
/// With `is_lossy` set, a byte that is no valid leading byte yields U+FFFD
/// instead of an error.
pub struct CharacterStream<S: ByteSource> {
    /// The source the incoming bytes are from.
    pub stream: S,
    /// Whether invalid leading bytes are replaced with U+FFFD instead of
    /// reported as errors.
    pub is_lossy: bool,
}

impl<S: ByteSource> CharacterStream<S> {
    /// Creates a [`CharacterStream`] from a byte source.
    pub fn new(stream: S, is_lossy: bool) -> (r: Self)
        ensures
            r.stream == stream,
            r.is_lossy == is_lossy,
    {
        Self { stream, is_lossy }
    }

    /// Returns the same stream with the lossiness flag replaced.
    pub fn lossy(self, is_lossy: bool) -> (r: Self)
        ensures
            r.stream == self.stream,
            r.is_lossy == is_lossy,
    {
        CharacterStream { stream: self.stream, is_lossy }
    }

    /// Reads exactly `amount` bytes from the source.
    ///
    /// Anything short of that is an error: no bytes at all is clean
    /// exhaustion, some bytes followed by exhaustion is an incomplete read,
    /// and an I/O failure carries the bytes its read had consumed.
    pub fn read_bytes(&mut self, amount: usize) -> (r: Result<Vec<u8>, CharacterError>)
        ensures
            final(self).is_lossy == old(self).is_lossy,
            final(self).stream.infallible() == old(self).stream.infallible(),
            match r {
                Ok(v) => {
                    &&& 0 < amount
                    &&& v@.len() == amount
                    &&& old(self).stream.remaining().len() >= amount
                    &&& v@ == old(self).stream.remaining().take(amount as int)
                    &&& final(self).stream.remaining() == old(self).stream.remaining().skip(
                        amount as int,
                    )
                },
                Err(CharacterError::NoBytesRead) => {
                    &&& (amount == 0 || old(self).stream.remaining().len() == 0)
                    &&& final(self).stream.remaining() == old(self).stream.remaining()
                },
                Err(CharacterError::Other { bytes, cause }) => {
                    &&& cause == DecodeCause::IncompleteRead
                    &&& 0 < bytes@.len() < amount
                    &&& bytes@ == old(self).stream.remaining()
                    &&& final(self).stream.remaining() == Seq::<u8>::empty()
                },
                Err(CharacterError::IoError { bytes, kind }) => {
                    &&& !old(self).stream.infallible()
                    &&& bytes@.len() <= amount
                    &&& bytes@.len() <= old(self).stream.remaining().len()
                    &&& bytes@ == old(self).stream.remaining().take(bytes@.len() as int)
                    &&& final(self).stream.remaining() == old(self).stream.remaining().skip(
                        bytes@.len() as int,
                    )
                },
            },
    {
        let ghost rem = self.stream.remaining();
        match self.stream.read_up_to(amount) {
            Err(e) => Err(CharacterError::IoError { bytes: e.bytes, kind: e.kind }),
            Ok(v) => {
                let len = v.len();
                if len == 0 {
                    proof {
                        assert(self.stream.remaining() =~= rem);
                    }
                    Err(CharacterError::NoBytesRead)
                } else if len != amount {
                    proof {
                        assert(v@ =~= rem);
                        assert(self.stream.remaining() =~= Seq::<u8>::empty());
                    }
                    Err(CharacterError::Other { bytes: v, cause: DecodeCause::IncompleteRead })
                } else {
                    Ok(v)
                }
            },
        }
    }

    /// Reads a single byte from the source.
    pub fn read_byte(&mut self) -> (r: Result<u8, CharacterError>)
        ensures
            final(self).is_lossy == old(self).is_lossy,
            final(self).stream.infallible() == old(self).stream.infallible(),
            match r {
                Ok(b) => {
                    &&& old(self).stream.remaining().len() >= 1
                    &&& b == old(self).stream.remaining()[0]
                    &&& final(self).stream.remaining() == old(self).stream.remaining().skip(1)
                },
                Err(CharacterError::NoBytesRead) => {
                    &&& old(self).stream.remaining().len() == 0
                    &&& final(self).stream.remaining() == old(self).stream.remaining()
                },
                Err(CharacterError::Other { .. }) => false,
                Err(CharacterError::IoError { bytes, kind }) => {
                    &&& !old(self).stream.infallible()
                    &&& bytes@.len() <= 1
                    &&& bytes@.len() <= old(self).stream.remaining().len()
                    &&& bytes@ == old(self).stream.remaining().take(bytes@.len() as int)
                    &&& final(self).stream.remaining() == old(self).stream.remaining().skip(
                        bytes@.len() as int,
                    )
                },
            },
    {
        match self.read_bytes(1) {
            Ok(v) => Ok(v[0]),
            Err(e) => Err(e),
        }
    }
}

impl<S: ByteSource> CharStream for CharacterStream<S> {
    open spec fn wf(&self) -> bool {
        true
    }

    open spec fn lossy_spec(&self) -> bool {
        self.is_lossy
    }

    open spec fn infallible(&self) -> bool {
        self.stream.infallible()
    }

    open spec fn upcoming(&self) -> Seq<DecodeOutcome> {
        decode_results(self.stream.remaining(), self.is_lossy)
    }

    /// Attempts to read one character from the stream.
    ///
    /// The leading byte announces how many continuation bytes belong to the
    /// character; exactly those are read and the whole sequence is decoded.
    fn read_char(&mut self) -> (r: CharacterStreamResult) {
        let ghost rem = self.stream.remaining();
        let ghost lossy = self.is_lossy;
        let first = match self.read_byte() {
            Ok(b) => b,
            Err(error) => {
                return Err(error);
            },
        };
        match remaining_byte_count(first) {
            Some(remaining_count) => {
                let mut bytes: Vec<u8> = Vec::new();
                bytes.push(first);
                if remaining_count > 0 {
                    match self.read_bytes(remaining_count) {
                        Ok(mut rest) => {
                            bytes.append(&mut rest);
                        },
                        Err(error) => {
                            proof {
                                if old(self).infallible() {
                                    match error {
                                        CharacterError::NoBytesRead => {
                                            assert(rem.len() == 1);
                                            assert(decode_results(rem, lossy)
                                                =~= Seq::<DecodeOutcome>::empty());
                                            assert(self.upcoming()
                                                =~= Seq::<DecodeOutcome>::empty());
                                        },
                                        CharacterError::Other { .. } => {
                                            lemma_step_short(
                                                rem,
                                                lossy,
                                                remaining_count as nat,
                                            );
                                            assert(self.upcoming() =~= decode_results(
                                                rem,
                                                lossy,
                                            ).skip(1));
                                        },
                                        CharacterError::IoError { .. } => {
                                            assert(false);
                                        },
                                    }
                                }
                            }
                            return Err(error);
                        },
                    }
                }
                proof {
                    if old(self).infallible() {
                        assert(bytes@ =~= rem.take(1 + remaining_count as int));
                        lemma_step_whole(rem, lossy, remaining_count as nat);
                        assert(self.stream.remaining() =~= rem.skip(1 + remaining_count as int));
                        assert(self.upcoming() =~= decode_results(rem, lossy).skip(1));
                    }
                }
                match decode_scalar(&bytes) {
                    Some(c) => Ok(c),
                    None => Err(
                        CharacterError::Other { bytes, cause: DecodeCause::InvalidSequence },
                    ),
                }
            },
            None => {
                proof {
                    if old(self).infallible() {
                        lemma_step_invalid_lead(rem, lossy);
                        assert(self.upcoming() =~= decode_results(rem, lossy).skip(1));
                    }
                }
                if self.is_lossy {
                    Ok('\u{FFFD}')
                } else {
                    let mut bytes: Vec<u8> = Vec::new();
                    bytes.push(first);
                    proof {
                        assert(bytes@ =~= seq![rem[0]]);
                    }
                    Err(CharacterError::Other { bytes, cause: DecodeCause::InvalidLeadingByte })
                }
            },
        }
    }

    fn is_lossy(&self) -> (r: bool) {
        self.is_lossy
    }
}

/// A [`CharacterStream`] with a queue of decoded-but-unconsumed results in
/// front of it. The marker `PI` selects the peeking discipline: [`Peek`]
/// caches a single result, [`MultiPeek`] walks a replay cursor through the
/// queue and may look arbitrarily far ahead.
pub struct PeekableCharacterStream<S: ByteSource, PI> {
    /// The decoding stream being buffered.
    pub stream: CharacterStream<S>,
    /// The queue of decoded-but-unconsumed results.
    pub buffer: VecDeque<CharacterStreamResult>,
    /// The replay cursor, counted from the consumption point.
    pub position: usize,
    pub _phantom: PhantomData<PI>,
}

impl<S: ByteSource, PI> PeekableCharacterStream<S, PI> {
    /// The queue of decoded-but-unconsumed results, front first.
    pub open spec fn buffered(&self) -> Seq<CharacterStreamResult> {
        self.buffer@
    }

    /// The replay cursor, counted from the consumption point.
    pub open spec fn cursor(&self) -> nat {
        self.position as nat
    }

    /// Creates a peekable stream over a byte source.
    pub fn new(stream: S, is_lossy: bool) -> (r: Self)
        ensures
            r.stream.stream == stream,
            r.stream.is_lossy == is_lossy,
            r.buffered() == Seq::<CharacterStreamResult>::empty(),
            r.cursor() == 0,
    {
        Self {
            stream: CharacterStream::new(stream, is_lossy),
            buffer: VecDeque::new(),
            position: 0,
            _phantom: PhantomData,
        }
    }

    /// Wraps an existing [`CharacterStream`].
    pub fn from_stream(stream: CharacterStream<S>) -> (r: Self)
        ensures
            r.stream == stream,
            r.buffered() == Seq::<CharacterStreamResult>::empty(),
            r.cursor() == 0,
    {
        Self { stream, buffer: VecDeque::new(), position: 0, _phantom: PhantomData }
    }

    /// Drains the queue first, else reads through to the stream.
    fn _read_char(&mut self) -> (r: CharacterStreamResult)
        ensures
            final(self).position == old(self).position,
            final(self).stream.is_lossy == old(self).stream.is_lossy,
            final(self).stream.infallible() == old(self).stream.infallible(),
            old(self).buffer@.len() > 0 ==> r == old(self).buffer@[0] && final(self).buffer@
                == old(self).buffer@.skip(1) && final(self).stream == old(self).stream,
            old(self).buffer@.len() == 0 ==> final(self).buffer@ == old(self).buffer@ && {
                &&& old(self).stream.infallible() && old(self).stream.upcoming().len() == 0
                    ==> outcome_of(r) == DecodeOutcome::End && final(self).stream.upcoming()
                    == old(self).stream.upcoming()
                &&& old(self).stream.infallible() && old(self).stream.upcoming().len() > 0
                    ==> outcome_of(r) == old(self).stream.upcoming()[0] && final(self).stream.upcoming() == old(self).stream.upcoming().skip(1) && !(outcome_of(r)
                    is End) && !(outcome_of(r) is Io)
            },
    {
        match self.buffer.pop_front() {
            Some(r) => r,
            None => self.stream.read_char(),
        }
    }
}

impl<S: ByteSource> CharStream for PeekableCharacterStream<S, Peek> {
    /// The cache holds at most one result; a cached clean-exhaustion marker
    /// only ever stands before an exhausted stream, and with an infallible
    /// source no I/O failure is ever cached.
    open spec fn wf(&self) -> bool {
        &&& self.buffered().len() <= 1
        &&& (self.infallible() && self.buffered().len() == 1 ==> !(outcome_of(
            self.buffered()[0],
        ) is Io) && (outcome_of(self.buffered()[0]) is End ==> self.stream.upcoming()
            == Seq::<DecodeOutcome>::empty()))
    }

    open spec fn lossy_spec(&self) -> bool {
        self.stream.is_lossy
    }

    open spec fn infallible(&self) -> bool {
        self.stream.infallible()
    }

    open spec fn upcoming(&self) -> Seq<DecodeOutcome> {
        if self.buffered().len() > 0 && outcome_of(self.buffered()[0]) is End {
            Seq::empty()
        } else {
            self.buffered().map_values(|cr: CharacterStreamResult| outcome_of(cr))
                + self.stream.upcoming()
        }
    }

    /// Drains the cache first, else reads through.
    fn read_char(&mut self) -> (r: CharacterStreamResult) {
        proof {
            if old(self).buffered().len() == 0 {
                assert(old(self).upcoming() =~= old(self).stream.upcoming());
            }
        }
        let r = self._read_char();
        proof {
            if old(self).infallible() {
                if old(self).buffered().len() > 0 {
                    if outcome_of(old(self).buffered()[0]) is End {
                        assert(self.upcoming() =~= old(self).stream.upcoming());
                    } else {
                        assert(old(self).upcoming()[0] == outcome_of(r));
                        assert(self.upcoming() =~= old(self).upcoming().skip(1));
                    }
                } else {
                    if old(self).stream.upcoming().len() == 0 {
                        assert(self.upcoming() =~= old(self).upcoming());
                    } else {
                        assert(self.upcoming() =~= old(self).upcoming().skip(1));
                    }
                }
            }
        }
        r
    }

    fn is_lossy(&self) -> (r: bool) {
        self.stream.is_lossy
    }
}

impl<S: ByteSource> Peekable<CharacterStreamResult> for PeekableCharacterStream<S, Peek> {
    open spec fn peek_wf(&self) -> bool {
        self.wf()
    }

    /// Returns the next unconsumed result without consuming it: repeated
    /// peeks return the same cached value, and a subsequent read returns
    /// exactly what was peeked.
    fn peek(&mut self) -> (r: Option<&CharacterStreamResult>)
        ensures
            final(self).lossy_spec() == old(self).lossy_spec(),
            final(self).infallible() == old(self).infallible(),
            r is Some,
            old(self).infallible() ==> {
                &&& final(self).upcoming() == old(self).upcoming()
                &&& (r matches Some(x) ==> outcome_of(*x) == (if old(self).upcoming().len() > 0 {
                    old(self).upcoming()[0]
                } else {
                    DecodeOutcome::End
                }))
            },
    {
        if self.buffer.len() == 1 {
            return Some(&self.buffer[0]);
        }
        proof {
            assert(self.buffered().len() == 0);
            assert(self.upcoming() =~= self.stream.upcoming());
        }
        let character_result = self.stream.read_char();
        self.buffer.push_back(character_result);
        proof {
            if old(self).infallible() {
                if old(self).stream.upcoming().len() == 0 {
                    assert(self.upcoming() =~= old(self).upcoming());
                } else {
                    assert(self.upcoming() =~= Seq::empty().push(
                        old(self).stream.upcoming()[0],
                    ) + self.stream.upcoming());
                    assert(self.upcoming() =~= old(self).upcoming());
                }
            }
        }
        Some(&self.buffer[0])
    }
}

impl<S: ByteSource> CharStream for PeekableCharacterStream<S, MultiPeek> {
    /// The cursor never trails behind the queue's end; no clean-exhaustion
    /// marker is ever queued, and with an infallible source no I/O failure
    /// is either.
    open spec fn wf(&self) -> bool {
        &&& self.cursor() <= self.buffered().len()
        &&& (forall|i: int|
            0 <= i < self.buffered().len() ==> !(outcome_of(#[trigger] self.buffered()[i]) is End))
        &&& (self.infallible() ==> forall|i: int|
            0 <= i < self.buffered().len() ==> !(outcome_of(#[trigger] self.buffered()[i]) is Io))
    }

    open spec fn lossy_spec(&self) -> bool {
        self.stream.is_lossy
    }

    open spec fn infallible(&self) -> bool {
        self.stream.infallible()
    }

    open spec fn upcoming(&self) -> Seq<DecodeOutcome> {
        self.buffered().map_values(|cr: CharacterStreamResult| outcome_of(cr))
            + self.stream.upcoming()
    }

    /// Rewinds the replay cursor, then dequeues or decodes exactly one
    /// result.
    fn read_char(&mut self) -> (r: CharacterStreamResult)
        ensures
            final(self).cursor() == 0,
    {
        self.position = 0;
        proof {
            if old(self).buffered().len() == 0 {
                assert(self.upcoming() =~= self.stream.upcoming());
                assert(self.upcoming() == old(self).upcoming());
            }
        }
        let ghost mid = *self;
        let r = self._read_char();
        proof {
            if old(self).infallible() {
                if mid.buffered().len() > 0 {
                    assert(outcome_of(r) == old(self).upcoming()[0]);
                    assert(self.upcoming() =~= old(self).upcoming().skip(1));
                } else {
                    if mid.stream.upcoming().len() == 0 {
                        assert(self.upcoming() =~= old(self).upcoming());
                    } else {
                        assert(self.upcoming() =~= old(self).upcoming().skip(1));
                    }
                }
            }
        }
        r
    }

    fn is_lossy(&self) -> (r: bool) {
        self.stream.is_lossy
    }
}

impl<S: ByteSource> MultiPeekable<CharacterStreamResult> for PeekableCharacterStream<S, MultiPeek> {
    open spec fn peek_wf(&self) -> bool {
        self.wf()
    }

    /// Returns the result under the replay cursor and advances the cursor,
    /// decoding a fresh result past the cached tail when needed. Returns
    /// `None` at clean exhaustion, leaving the cursor in place.
    fn peek(&mut self) -> (r: Option<&CharacterStreamResult>)
        ensures
            final(self).lossy_spec() == old(self).lossy_spec(),
            final(self).infallible() == old(self).infallible(),
            final(self).buffered().len() >= old(self).buffered().len(),
            old(self).infallible() ==> {
                if old(self).cursor() < old(self).upcoming().len() {
                    &&& r matches Some(x) && outcome_of(*x) == old(self).upcoming()[old(self).cursor() as int]
                    &&& final(self).upcoming() == old(self).upcoming()
                    &&& final(self).cursor() == old(self).cursor() + 1
                } else {
                    &&& r is None
                    &&& final(self).upcoming() == old(self).upcoming()
                    &&& final(self).cursor() == old(self).cursor()
                }
            },
    {
        if self.position < self.buffer.len() {
            let i = self.position;
            self.position = i + 1;
            return Some(&self.buffer[i]);
        }
        proof {
            assert(self.cursor() == self.buffered().len());
        }
        let result = self.stream.read_char();
        match result {
            Err(CharacterError::NoBytesRead) => {
                proof {
                    if old(self).infallible() {
                        assert(old(self).stream.upcoming().len() == 0);
                        assert(self.upcoming() =~= old(self).upcoming());
                        assert(old(self).cursor() >= old(self).upcoming().len());
                    }
                }
                None
            },
            other => {
                self.buffer.push_back(other);
                let idx = self.buffer.len() - 1;
                self.position = self.buffer.len();
                proof {
                    if old(self).infallible() {
                        assert(outcome_of(self.buffered()[idx as int]) == old(self).stream.upcoming()[0]);
                        assert(self.upcoming() =~= old(self).upcoming());
                        assert(old(self).upcoming()[old(self).cursor() as int] == old(self).stream.upcoming()[0]);
                    }
                }
                Some(&self.buffer[idx])
            },
        }
    }

    /// Rewinds the replay cursor to the consumption point without discarding
    /// any cached result.
    fn reset_peek(&mut self)
        ensures
            final(self).cursor() == 0,
            final(self).buffered() == old(self).buffered(),
            final(self).stream == old(self).stream,
            final(self).upcoming() == old(self).upcoming(),
            final(self).lossy_spec() == old(self).lossy_spec(),
            final(self).infallible() == old(self).infallible(),
    {
        self.position = 0;
    }
}

impl<S: ByteSource> CharacterStream<S> {
    /// Wraps `self` into a single-peek [`PeekableCharacterStream`].
    pub fn peeky(self) -> (r: PeekableCharacterStream<S, Peek>)
        ensures
            r.wf(),
            r.stream == self,
            r.upcoming() == self.upcoming(),
    {
        let r = PeekableCharacterStream::from_stream(self);
        proof {
            assert(r.upcoming() =~= r.stream.upcoming());
        }
        r
    }

    /// Wraps `self` into a multi-peek [`PeekableCharacterStream`].
    pub fn peeky_multi(self) -> (r: PeekableCharacterStream<S, MultiPeek>)
        ensures
            r.wf(),
            r.cursor() == 0,
            r.stream == self,
            r.upcoming() == self.upcoming(),
    {
        let r = PeekableCharacterStream::from_stream(self);
        proof {
            assert(r.upcoming() =~= r.stream.upcoming());
        }
        r
    }
}

/// Helper trait for converting byte values into a [`CharacterStream`].
pub trait ToCharacterStream {
    /// Converts into a strict [`CharacterStream`] over an in-memory copy of
    /// the bytes.
    fn to_character_stream(&self) -> CharacterStream<MemorySource>;

    /// Converts into a lossy [`CharacterStream`] over an in-memory copy of
    /// the bytes.
    fn to_character_stream_lossy(&self) -> CharacterStream<MemorySource>;
}

impl ToCharacterStream for [u8] {
    /// Decodes the bytes strictly.
    fn to_character_stream(&self) -> (r: CharacterStream<MemorySource>)
        ensures
            r.stream.remaining() == self@,
            r.stream.infallible(),
            !r.is_lossy,
    {
        CharacterStream::new(MemorySource::new(vstd::slice::slice_to_vec(self)), false)
    }

    /// Decodes the bytes lossily.
    fn to_character_stream_lossy(&self) -> (r: CharacterStream<MemorySource>)
        ensures
            r.stream.remaining() == self@,
            r.stream.infallible(),
            r.is_lossy,
    {
        CharacterStream::new(MemorySource::new(vstd::slice::slice_to_vec(self)), true)
    }
}

/// Unfolds one step of [`decode_results`] on a stream whose front byte is no
/// valid leading byte.
proof fn lemma_step_invalid_lead(rem: Seq<u8>, lossy: bool)
    requires
        rem.len() >= 1,
        crate::decode::extra_count(rem[0]) is None,
    ensures
        decode_results(rem, lossy).len() >= 1,
        decode_results(rem, lossy)[0] == (if lossy {
            DecodeOutcome::Scalar { c: '\u{FFFD}' }
        } else {
            DecodeOutcome::Invalid {
                bytes: seq![rem[0]],
                cause: DecodeCause::InvalidLeadingByte,
            }
        }),
        decode_results(rem, lossy).skip(1) == decode_results(rem.skip(1), lossy),
{
    assert(decode_results(rem, lossy).skip(1) =~= decode_results(rem.skip(1), lossy));
}

/// Unfolds one step of [`decode_results`] on a stream whose front byte
/// announces more continuation bytes than the stream still holds.
proof fn lemma_step_short(rem: Seq<u8>, lossy: bool, k: nat)
    requires
        rem.len() >= 2,
        crate::decode::extra_count(rem[0]) == Some(k),
        rem.len() < 1 + k,
    ensures
        decode_results(rem, lossy).len() == 1,
        decode_results(rem, lossy)[0] == (DecodeOutcome::Invalid {
            bytes: rem.skip(1),
            cause: DecodeCause::IncompleteRead,
        }),
        decode_results(rem, lossy).skip(1) == Seq::<DecodeOutcome>::empty(),
{
    assert(decode_results(rem, lossy).skip(1) =~= Seq::<DecodeOutcome>::empty());
}

/// Unfolds one step of [`decode_results`] on a stream that still holds the
/// whole sequence its front byte announces.
proof fn lemma_step_whole(rem: Seq<u8>, lossy: bool, k: nat)
    requires
        rem.len() >= 1,
        crate::decode::extra_count(rem[0]) == Some(k),
        rem.len() >= 1 + k,
    ensures
        decode_results(rem, lossy).len() >= 1,
        decode_results(rem, lossy)[0] == (if valid_scalar_seq(rem.take(1 + k as int)) {
            DecodeOutcome::Scalar { c: crate::decode::char_of(rem.take(1 + k as int)) }
        } else {
            DecodeOutcome::Invalid {
                bytes: rem.take(1 + k as int),
                cause: DecodeCause::InvalidSequence,
            }
        }),
        decode_results(rem, lossy).skip(1) == decode_results(rem.skip(1 + k as int), lossy),
{
    assert(decode_results(rem, lossy).skip(1) =~= decode_results(rem.skip(1 + k as int), lossy));
}

} // verus!
