//! Lookahead: the single-slot and replay-cursor peeking disciplines.

use character_stream::{
    CharStream, CharacterError, IoKind, MultiPeekable, Peekable, ToCharacterStream,
};

#[test]
fn single_peek_is_stable_until_consumed() {
    let mut s = b"abc".to_character_stream().peeky();
    assert_eq!(s.peek(), Some(&Ok('a')));
    assert_eq!(s.peek(), Some(&Ok('a')));
    assert_eq!(s.peek(), Some(&Ok('a')));
    assert_eq!(s.read_char(), Ok('a'));
    assert_eq!(s.peek(), Some(&Ok('b')));
    assert_eq!(s.read_char(), Ok('b'));
    assert_eq!(s.read_char(), Ok('c'));
}

#[test]
fn single_peek_at_exhaustion() {
    let mut s = b"".to_character_stream().peeky();
    assert_eq!(s.peek(), Some(&Err(CharacterError::NoBytesRead)));
    assert_eq!(s.peek(), Some(&Err(CharacterError::NoBytesRead)));
    assert_eq!(s.read_char(), Err(CharacterError::NoBytesRead));
}

#[test]
fn single_peek_passes_errors_through_unchanged() {
    let mut s = b"\x80a".to_character_stream().peeky();
    let peeked = s.peek().cloned();
    let read = s.read_char();
    assert_eq!(peeked, Some(read.clone()));
    match read {
        Err(CharacterError::Other { bytes, .. }) => assert_eq!(bytes, vec![0x80]),
        other => panic!("expected a decode error, got {:?}", other),
    }
    assert_eq!(s.read_char(), Ok('a'));
}

#[test]
fn multi_peek_replays_after_reset() {
    let mut s = b"abcd".to_character_stream().peeky_multi();
    assert_eq!(s.peek(), Some(&Ok('a')));
    assert_eq!(s.peek(), Some(&Ok('b')));
    assert_eq!(s.peek(), Some(&Ok('c')));
    s.reset_peek();
    assert_eq!(s.peek(), Some(&Ok('a')));
    assert_eq!(s.peek(), Some(&Ok('b')));
    assert_eq!(s.peek(), Some(&Ok('c')));
}

#[test]
fn multi_peek_window_shifts_by_one_on_consume() {
    let mut s = b"abcd".to_character_stream().peeky_multi();
    assert_eq!(s.peek(), Some(&Ok('a')));
    assert_eq!(s.peek(), Some(&Ok('b')));
    assert_eq!(s.peek(), Some(&Ok('c')));
    assert_eq!(s.read_char(), Ok('a'));
    assert_eq!(s.peek(), Some(&Ok('b')));
    assert_eq!(s.peek(), Some(&Ok('c')));
    assert_eq!(s.peek(), Some(&Ok('d')));
    assert_eq!(s.read_char(), Ok('b'));
}

#[test]
fn multi_peek_past_the_end_returns_none() {
    let mut s = b"a".to_character_stream().peeky_multi();
    assert_eq!(s.peek(), Some(&Ok('a')));
    assert_eq!(s.peek(), None);
    assert_eq!(s.peek(), None);
    s.reset_peek();
    assert_eq!(s.read_char(), Ok('a'));
    assert_eq!(s.read_char(), Err(CharacterError::NoBytesRead));
}

#[test]
fn peeking_never_redecodes_or_alters_reads() {
    let mut peeked = b"p\xC3\xA9k".to_character_stream().peeky_multi();
    let mut plain = b"p\xC3\xA9k".to_character_stream();
    assert_eq!(peeked.peek(), Some(&Ok('p')));
    assert_eq!(peeked.peek(), Some(&Ok('\u{E9}')));
    peeked.reset_peek();
    loop {
        let a = peeked.read_char();
        let b = plain.read_char();
        assert_eq!(a, b);
        if a == Err(CharacterError::NoBytesRead) {
            break;
        }
    }
}

#[test]
fn lossy_test() {
    let mut character_stream =
        b"These are valid characters \xF0\x9F\x92\xBB \xF0\x9F\x92\xBB \xF0\x9F\x92\xBB! The following bytes are not valid:\x80\xFF"
            .to_character_stream_lossy().peeky_multi();

    loop {
        match character_stream.read_char() {
            Ok(c) => {
                println!("{:X?}; Next: {:?}", c, character_stream.peek());
            }
            Err(error) => match &error {
                CharacterError::IoError { bytes: _, kind } => {
                    if *kind == IoKind::UnexpectedEof {
                        break;
                    } else {
                        panic!("{:?}", error)
                    }
                }
                CharacterError::NoBytesRead => break,
                error => panic!("{:?}", error),
            },
        }
    }

    println!();
}
