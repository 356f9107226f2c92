//! The iteration driver: terminated sequences, retry on transient
//! interruptions, and the conversion helpers.

use character_stream::{
    ByteSource, CharStream, CharacterError, CharacterIterator, CharacterStream, IoKind,
    SourceError, ToCharacterIterator,
};

/// A byte source that reports a transient interruption on every read.
struct InterruptingSource {
    calls: usize,
}

impl ByteSource for InterruptingSource {
    fn read_up_to(&mut self, _amount: usize) -> Result<Vec<u8>, SourceError> {
        self.calls += 1;
        Err(SourceError { bytes: Vec::new(), kind: IoKind::Interrupted })
    }
}

/// A byte source that always reports the given failure kind.
struct FailingSource {
    kind: IoKind,
}

impl ByteSource for FailingSource {
    fn read_up_to(&mut self, _amount: usize) -> Result<Vec<u8>, SourceError> {
        Err(SourceError { bytes: Vec::new(), kind: self.kind })
    }
}

#[test]
fn hello_decodes_to_exactly_its_characters() {
    let mut iter = b"Hello".to_character_iterator();
    assert_eq!(iter.next(), Some(Ok('H')));
    assert_eq!(iter.next(), Some(Ok('e')));
    assert_eq!(iter.next(), Some(Ok('l')));
    assert_eq!(iter.next(), Some(Ok('l')));
    assert_eq!(iter.next(), Some(Ok('o')));
    assert_eq!(iter.next(), None);
}

#[test]
fn multibyte_input_terminates_cleanly_on_further_pulls() {
    let mut iter = b"\x61\x62\xE2\x82\xAC".to_character_iterator();
    assert_eq!(iter.next(), Some(Ok('a')));
    assert_eq!(iter.next(), Some(Ok('b')));
    assert_eq!(iter.next(), Some(Ok('\u{20AC}')));
    assert_eq!(iter.next(), None);
    assert_eq!(iter.next(), None);
    assert_eq!(iter.next(), None);
}

#[test]
fn round_trip_reproduces_the_text() {
    let text = "Hello, m\u{F4}nd\u{E9}! \u{20AC}\u{1D11E}\u{4E16}\u{754C}";
    let mut iter = text.as_bytes().to_character_iterator();
    let mut out = String::new();
    loop {
        match iter.next() {
            Some(Ok(c)) => out.push(c),
            Some(Err(e)) => panic!("unexpected error: {:?}", e),
            None => break,
        }
    }
    assert_eq!(out, text);
}

#[test]
fn round_trip_lossy_on_valid_input_is_identical() {
    let text = "caf\u{E9} \u{1F389}";
    let mut iter = text.as_bytes().to_character_iterator_lossy();
    let mut out = String::new();
    while let Some(r) = iter.next() {
        out.push(r.expect("valid input must not error in lossy mode"));
    }
    assert_eq!(out, text);
}

#[test]
fn interruptions_give_up_after_the_budget() {
    let source = InterruptingSource { calls: 0 };
    let mut iter = CharacterIterator::new(CharacterStream::new(source, false), 5);
    assert_eq!(iter.next(), None);
    assert_eq!(iter.stream().stream.calls, 6);
    // Terminal is permanent: further pulls touch the source no more.
    assert_eq!(iter.next(), None);
    assert_eq!(iter.stream().stream.calls, 6);
}

#[test]
fn interruption_budget_of_zero_tries_once() {
    let source = InterruptingSource { calls: 0 };
    let mut iter = CharacterIterator::new(CharacterStream::new(source, false), 0);
    assert_eq!(iter.next(), None);
    assert_eq!(iter.stream().stream.calls, 1);
}

#[test]
fn unexpected_eof_terminates() {
    let source = FailingSource { kind: IoKind::UnexpectedEof };
    let mut iter = CharacterIterator::new(CharacterStream::new(source, false), 5);
    assert_eq!(iter.next(), None);
    assert_eq!(iter.next(), None);
}

#[test]
fn other_io_errors_are_yielded_and_iteration_goes_on() {
    let source = FailingSource { kind: IoKind::Other };
    let mut iter = CharacterIterator::new(CharacterStream::new(source, false), 5);
    match iter.next() {
        Some(Err(CharacterError::IoError { kind, .. })) => assert_eq!(kind, IoKind::Other),
        other => panic!("expected a yielded I/O error, got {:?}", other),
    }
    // Still active: the error did not terminate the sequence.
    match iter.next() {
        Some(Err(CharacterError::IoError { kind, .. })) => assert_eq!(kind, IoKind::Other),
        other => panic!("expected a yielded I/O error, got {:?}", other),
    }
}

#[test]
fn decode_errors_are_yielded_and_iteration_goes_on() {
    let mut iter = b"a\x80b".to_character_iterator();
    assert_eq!(iter.next(), Some(Ok('a')));
    match iter.next() {
        Some(Err(CharacterError::Other { bytes, .. })) => assert_eq!(bytes, vec![0x80]),
        other => panic!("expected a yielded decode error, got {:?}", other),
    }
    assert_eq!(iter.next(), Some(Ok('b')));
    assert_eq!(iter.next(), None);
}

#[test]
fn iterator_accessors() {
    let mut iter = b"ab".to_character_iterator_lossy();
    assert!(iter.is_lossy());
    assert!(iter.stream().is_lossy());
    assert!(iter.stream_mut().is_lossy());
    let mut strict = b"ab".to_character_iterator();
    assert!(!strict.is_lossy());
    assert_eq!(strict.next(), Some(Ok('a')));
}

#[test]
fn iterator_peek_conversions() {
    let mut single = b"ab".to_character_iterator().peek();
    assert_eq!(single.peek(), Some(&Ok('a')));
    assert_eq!(single.peek(), Some(&Ok('a')));
    assert_eq!(single.next(), Some(Ok('a')));
    assert_eq!(single.next(), Some(Ok('b')));
    assert_eq!(single.next(), None);

    let mut multi = b"abc".to_character_iterator().peek_multi();
    assert_eq!(multi.peek(), Some(&Ok('a')));
    assert_eq!(multi.peek(), Some(&Ok('b')));
    multi.reset_peek();
    assert_eq!(multi.peek(), Some(&Ok('a')));
    assert_eq!(multi.next(), Some(Ok('a')));
    assert_eq!(multi.next(), Some(Ok('b')));
    assert_eq!(multi.next(), Some(Ok('c')));
    assert_eq!(multi.next(), None);
}

#[test]
fn streams_convert_into_iterators() {
    let mut iter = character_stream::ToCharacterStream::to_character_stream(&b"ok"[..]).into_iter();
    assert_eq!(iter.next(), Some(Ok('o')));
    assert_eq!(iter.next(), Some(Ok('k')));
    assert_eq!(iter.next(), None);

    let mut peeky = b"ok".to_character_iterator().peek();
    let inner = peeky.stream_mut();
    assert_eq!(character_stream::Peekable::peek(inner), Some(&Ok('o')));
}
