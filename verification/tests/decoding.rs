//! Decoding: strict and lossy character reads over in-memory sources.

use character_stream::{
    CharStream, CharacterError, CharacterStream, DecodeCause, IoKind, MemorySource,
    ToCharacterStream,
};

fn stream_of(bytes: &[u8], lossy: bool) -> CharacterStream<MemorySource> {
    CharacterStream::new(MemorySource::new(bytes.to_vec()), lossy)
}

#[test]
fn ascii_decodes() {
    let mut s = stream_of(b"Hi", false);
    assert_eq!(s.read_char(), Ok('H'));
    assert_eq!(s.read_char(), Ok('i'));
    assert_eq!(s.read_char(), Err(CharacterError::NoBytesRead));
}

#[test]
fn boundary_sequences_decode() {
    let cases: &[(&[u8], char)] = &[
        (&[0x7F], '\u{7F}'),
        (&[0xC2, 0x80], '\u{80}'),
        (&[0xDF, 0xBF], '\u{7FF}'),
        (&[0xE0, 0xA0, 0x80], '\u{800}'),
        (&[0xEF, 0xBF, 0xBF], '\u{FFFF}'),
        (&[0xF0, 0x90, 0x80, 0x80], '\u{10000}'),
        (&[0xF4, 0x8F, 0xBF, 0xBF], '\u{10FFFF}'),
    ];
    for (bytes, expected) in cases {
        let mut s = stream_of(bytes, false);
        assert_eq!(s.read_char(), Ok(*expected));
        assert_eq!(s.read_char(), Err(CharacterError::NoBytesRead));
    }
}

#[test]
fn euro_sign_decodes() {
    let mut s = stream_of(&[0xE2, 0x82, 0xAC], false);
    assert_eq!(s.read_char(), Ok('\u{20AC}'));
}

#[test]
fn strict_stray_byte_captures_it() {
    let mut s = stream_of(&[0x61, 0x80, 0x62], false);
    assert_eq!(s.read_char(), Ok('a'));
    match s.read_char() {
        Err(CharacterError::Other { bytes, cause }) => {
            assert_eq!(bytes, vec![0x80]);
            assert_eq!(cause, DecodeCause::InvalidLeadingByte);
        }
        other => panic!("expected a decode error, got {:?}", other),
    }
    assert_eq!(s.read_char(), Ok('b'));
}

#[test]
fn strict_invalid_sequence_captures_all_bytes() {
    let mut s = stream_of(&[0xC2, 0x41], false);
    match s.read_char() {
        Err(CharacterError::Other { bytes, cause }) => {
            assert_eq!(bytes, vec![0xC2, 0x41]);
            assert_eq!(cause, DecodeCause::InvalidSequence);
        }
        other => panic!("expected a decode error, got {:?}", other),
    }
}

#[test]
fn overlong_and_surrogate_and_too_large_are_rejected() {
    for bytes in [
        &[0xC0u8, 0x80][..],
        &[0xC1, 0xBF][..],
        &[0xE0, 0x80, 0x80][..],
        &[0xED, 0xA0, 0x80][..],
        &[0xF0, 0x80, 0x80, 0x80][..],
        &[0xF4, 0x90, 0x80, 0x80][..],
        &[0xF5, 0x80, 0x80, 0x80][..],
    ] {
        let mut s = stream_of(bytes, false);
        match s.read_char() {
            Err(CharacterError::Other { bytes: captured, cause }) => {
                assert_eq!(captured, bytes.to_vec());
                assert_eq!(cause, DecodeCause::InvalidSequence);
            }
            other => panic!("expected a decode error for {:?}, got {:?}", bytes, other),
        }
    }
}

#[test]
fn lossy_stray_bytes_become_replacement_chars() {
    let mut s = stream_of(&[0x61, 0x80, 0x62, 0xFF, 0x63], true);
    assert_eq!(s.read_char(), Ok('a'));
    assert_eq!(s.read_char(), Ok('\u{FFFD}'));
    assert_eq!(s.read_char(), Ok('b'));
    assert_eq!(s.read_char(), Ok('\u{FFFD}'));
    assert_eq!(s.read_char(), Ok('c'));
    assert_eq!(s.read_char(), Err(CharacterError::NoBytesRead));
}

#[test]
fn lossy_still_rejects_invalid_complete_sequences() {
    // An announced sequence whose continuation bytes do not fit is more than
    // one maximal invalid subsequence: the decoder reports it rather than
    // guessing.
    let mut s = stream_of(&[0xC0, 0x80], true);
    match s.read_char() {
        Err(CharacterError::Other { bytes, cause }) => {
            assert_eq!(bytes, vec![0xC0, 0x80]);
            assert_eq!(cause, DecodeCause::InvalidSequence);
        }
        other => panic!("expected a decode error, got {:?}", other),
    }
}

#[test]
fn truncated_sequence_is_incomplete_read() {
    let mut s = stream_of(&[0xE2, 0x82], false);
    match s.read_char() {
        Err(CharacterError::Other { bytes, cause }) => {
            assert_eq!(bytes, vec![0x82]);
            assert_eq!(cause, DecodeCause::IncompleteRead);
        }
        other => panic!("expected an incomplete read, got {:?}", other),
    }
    assert_eq!(s.read_char(), Err(CharacterError::NoBytesRead));
}

#[test]
fn lone_leading_byte_is_clean_exhaustion() {
    let mut s = stream_of(&[0xC2], false);
    assert_eq!(s.read_char(), Err(CharacterError::NoBytesRead));
}

#[test]
fn read_bytes_reads_exactly_the_amount() {
    let mut s = stream_of(b"abcd", false);
    assert_eq!(s.read_bytes(3), Ok(vec![b'a', b'b', b'c']));
    assert_eq!(s.read_byte(), Ok(b'd'));
    assert_eq!(s.read_bytes(1), Err(CharacterError::NoBytesRead));
}

#[test]
fn read_bytes_short_read_is_an_error() {
    let mut s = stream_of(b"ab", false);
    match s.read_bytes(5) {
        Err(CharacterError::Other { bytes, cause }) => {
            assert_eq!(bytes, vec![b'a', b'b']);
            assert_eq!(cause, DecodeCause::IncompleteRead);
        }
        other => panic!("expected an incomplete read, got {:?}", other),
    }
}

#[test]
fn lossy_builder_flips_the_flag() {
    let s = stream_of(b"x", false);
    assert!(!s.is_lossy());
    let s = s.lossy(true);
    assert!(s.is_lossy());
    let lossy = b"x".to_character_stream_lossy();
    assert!(lossy.is_lossy());
    let strict = b"x".to_character_stream();
    assert!(!strict.is_lossy());
}

#[test]
fn error_bytes_accessor() {
    assert_eq!(CharacterError::NoBytesRead.bytes(), None);
    let io = CharacterError::IoError { bytes: vec![1, 2], kind: IoKind::Other };
    assert_eq!(io.bytes(), Some(&[1u8, 2][..]));
    let other = CharacterError::Other { bytes: vec![3], cause: DecodeCause::InvalidSequence };
    assert_eq!(other.bytes(), Some(&[3u8][..]));
}
