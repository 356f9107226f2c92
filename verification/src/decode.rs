//! The UTF-8 decoding model: what a byte sequence means, which sequences are
//! valid, and what a whole stream of bytes decodes to. The executable
//! decoding helpers are proved against these definitions.

use vstd::prelude::*;

use crate::error::{DecodeCause, DecodeOutcome};

verus! {

/// How many continuation bytes a leading byte announces: 0 to 3, or `None`
/// for a byte that is no leading byte (a stray continuation byte, or one of
/// `0xF8..=0xFF`).
pub open spec fn extra_count(b: u8) -> Option<nat> {
    if b < 0x80 {
        Some(0 as nat)
    } else if b < 0xC0 {
        None
    } else if b < 0xE0 {
        Some(1 as nat)
    } else if b < 0xF0 {
        Some(2 as nat)
    } else if b < 0xF8 {
        Some(3 as nat)
    } else {
        None
    }
}

/// True of a UTF-8 continuation byte, `10xxxxxx`.
pub open spec fn is_continuation(b: u8) -> bool {
    0x80 <= b < 0xC0
}

/// The code point encoded by a sequence of 1 to 4 bytes, read as the
/// concatenation of the payload bits of its bytes.
pub open spec fn code_of(s: Seq<u8>) -> int {
    if s.len() <= 1 {
        s[0] as int
    } else if s.len() == 2 {
        (s[0] - 0xC0) * 0x40 + (s[1] - 0x80)
    } else if s.len() == 3 {
        (s[0] - 0xE0) * 0x1000 + (s[1] - 0x80) * 0x40 + (s[2] - 0x80)
    } else {
        (s[0] - 0xF0) * 0x40000 + (s[1] - 0x80) * 0x1000 + (s[2] - 0x80) * 0x40 + (s[3] - 0x80)
    }
}

/// True of exactly the byte sequences that encode one Unicode scalar value:
/// the length announced by the leading byte, continuation bytes throughout,
/// no overlong form, no surrogate, nothing above `0x10FFFF`.
pub open spec fn valid_scalar_seq(s: Seq<u8>) -> bool {
    &&& 1 <= s.len() <= 4
    &&& extra_count(s[0]) == Some((s.len() - 1) as nat)
    &&& (forall|i: int| 1 <= i < s.len() ==> is_continuation(#[trigger] s[i]))
    &&& (s.len() == 2 ==> 0x80 <= code_of(s))
    &&& (s.len() == 3 ==> 0x800 <= code_of(s) && !(0xD800 <= code_of(s) < 0xE000))
    &&& (s.len() == 4 ==> 0x10000 <= code_of(s) <= 0x10FFFF)
}

/// The character a valid scalar sequence encodes.
pub open spec fn char_of(s: Seq<u8>) -> char {
    code_of(s) as char
}

/// The UTF-8 encoding of one character.
pub open spec fn encode_char(c: char) -> Seq<u8> {
    let v = c as int;
    if v < 0x80 {
        seq![v as u8]
    } else if v < 0x800 {
        seq![(0xC0 + v / 0x40) as u8, (0x80 + v % 0x40) as u8]
    } else if v < 0x10000 {
        seq![
            (0xE0 + v / 0x1000) as u8,
            (0x80 + (v / 0x40) % 0x40) as u8,
            (0x80 + v % 0x40) as u8,
        ]
    } else {
        seq![
            (0xF0 + v / 0x40000) as u8,
            (0x80 + (v / 0x1000) % 0x40) as u8,
            (0x80 + (v / 0x40) % 0x40) as u8,
            (0x80 + v % 0x40) as u8,
        ]
    }
}

/// The UTF-8 encoding of a character sequence.
pub open spec fn encode_seq(cs: Seq<char>) -> Seq<u8>
    decreases cs.len(),
{
    if cs.len() == 0 {
        Seq::empty()
    } else {
        encode_char(cs[0]) + encode_seq(cs.skip(1))
    }
}

/// What a byte stream decodes to, one outcome per character read, until the
/// read that would find the source exhausted. A lone leading byte at the very
/// end announces continuation bytes that never come and turns into clean
/// exhaustion, exactly as the decoder behaves.
pub open spec fn decode_results(rem: Seq<u8>, lossy: bool) -> Seq<DecodeOutcome>
    decreases rem.len(),
{
    if rem.len() == 0 {
        Seq::empty()
    } else {
        match extra_count(rem[0]) {
            None => seq![
                if lossy {
                    DecodeOutcome::Scalar { c: '\u{FFFD}' }
                } else {
                    DecodeOutcome::Invalid {
                        bytes: seq![rem[0]],
                        cause: DecodeCause::InvalidLeadingByte,
                    }
                },
            ] + decode_results(rem.skip(1), lossy),
            Some(k) => {
                let n = k + 1;
                if rem.len() >= n {
                    seq![
                        if valid_scalar_seq(rem.take(n as int)) {
                            DecodeOutcome::Scalar { c: char_of(rem.take(n as int)) }
                        } else {
                            DecodeOutcome::Invalid {
                                bytes: rem.take(n as int),
                                cause: DecodeCause::InvalidSequence,
                            }
                        },
                    ] + decode_results(rem.skip(n as int), lossy)
                } else if rem.len() == 1 {
                    Seq::empty()
                } else {
                    seq![
                        DecodeOutcome::Invalid {
                            bytes: rem.skip(1),
                            cause: DecodeCause::IncompleteRead,
                        },
                    ]
                }
            },
        }
    }
}

/// The encoding of any character is a valid scalar sequence, its length is
/// the one its leading byte announces, and it decodes back to the character.
pub proof fn lemma_encode_char_valid(c: char)
    ensures
        valid_scalar_seq(encode_char(c)),
        char_of(encode_char(c)) == c,
        1 <= encode_char(c).len() <= 4,
{
    let w = c as u32;
    let v = c as int;
    let s = encode_char(c);
    assert(w as int == v);
    assert(w <= 0x10FFFF && !(0xD800 <= w && w < 0xE000));
    if v < 0x80 {
        assert(s =~= seq![v as u8]);
        assert(code_of(s) == v);
        assert((code_of(s) as char) == c);
    } else if v < 0x800 {
        assert(0xC2 <= 0xC0 + w / 0x40 < 0xE0 && 0x80 <= 0x80 + w % 0x40 < 0xC0 && ((0xC0 + w
            / 0x40) - 0xC0) * 0x40 + ((0x80 + w % 0x40) - 0x80) == w) by (bit_vector)
            requires
                0x80 <= w < 0x800,
        ;
        assert(s[0] == (0xC0 + v / 0x40) as u8 && s[1] == (0x80 + v % 0x40) as u8);
        assert(code_of(s) == v);
        assert((code_of(s) as char) == c);
    } else if v < 0x10000 {
        assert(0xE0 <= 0xE0 + w / 0x1000 < 0xF0 && 0x80 <= 0x80 + (w / 0x40) % 0x40 < 0xC0 && 0x80
            <= 0x80 + w % 0x40 < 0xC0 && ((0xE0 + w / 0x1000) - 0xE0) * 0x1000 + ((0x80 + (w
            / 0x40) % 0x40) - 0x80) * 0x40 + ((0x80 + w % 0x40) - 0x80) == w) by (bit_vector)
            requires
                0x800 <= w < 0x10000,
        ;
        assert(s[0] == (0xE0 + v / 0x1000) as u8 && s[1] == (0x80 + (v / 0x40) % 0x40) as u8
            && s[2] == (0x80 + v % 0x40) as u8);
        assert(code_of(s) == v);
        assert((code_of(s) as char) == c);
    } else {
        assert(0xF0 <= 0xF0 + w / 0x40000 < 0xF8 && 0x80 <= 0x80 + (w / 0x1000) % 0x40 < 0xC0
            && 0x80 <= 0x80 + (w / 0x40) % 0x40 < 0xC0 && 0x80 <= 0x80 + w % 0x40 < 0xC0 && ((0xF0
            + w / 0x40000) - 0xF0) * 0x40000 + ((0x80 + (w / 0x1000) % 0x40) - 0x80) * 0x1000 + ((
        0x80 + (w / 0x40) % 0x40) - 0x80) * 0x40 + ((0x80 + w % 0x40) - 0x80) == w) by (bit_vector)
            requires
                0x10000 <= w <= 0x10FFFF,
        ;
        assert(s[0] == (0xF0 + v / 0x40000) as u8 && s[1] == (0x80 + (v / 0x1000) % 0x40) as u8
            && s[2] == (0x80 + (v / 0x40) % 0x40) as u8 && s[3] == (0x80 + v % 0x40) as u8);
        assert(code_of(s) == v);
        assert((code_of(s) as char) == c);
    }
}

/// Decoding one whole valid scalar sequence at the front of a stream yields
/// its character and leaves the rest of the stream.
proof fn lemma_decode_step_valid(e: Seq<u8>, rest: Seq<u8>, lossy: bool)
    requires
        valid_scalar_seq(e),
    ensures
        decode_results(e + rest, lossy) == seq![DecodeOutcome::Scalar { c: char_of(e) }]
            + decode_results(rest, lossy),
{
    let bytes = e + rest;
    let k = (e.len() - 1) as nat;
    assert(bytes[0] == e[0]);
    assert(extra_count(bytes[0]) == Some(k));
    assert(bytes.len() >= k + 1);
    assert(bytes.take(k + 1 as int) =~= e);
    assert(bytes.skip(k + 1 as int) =~= rest);
    assert(decode_results(bytes, lossy) =~= seq![DecodeOutcome::Scalar { c: char_of(e) }]
        + decode_results(rest, lossy));
}

/// Round trip: decoding the UTF-8 encoding of any character sequence,
/// element by element, reproduces exactly that sequence, in either mode —
/// concatenating the decoded characters gives the original text back.
pub proof fn lemma_decode_of_encode(cs: Seq<char>, lossy: bool)
    ensures
        decode_results(encode_seq(cs), lossy).len() == cs.len(),
        forall|i: int|
            0 <= i < cs.len() ==> decode_results(encode_seq(cs), lossy)[i]
                == (DecodeOutcome::Scalar { c: cs[i] }),
    decreases cs.len(),
{
    if cs.len() > 0 {
        let e = encode_char(cs[0]);
        let rest = encode_seq(cs.skip(1));
        lemma_encode_char_valid(cs[0]);
        lemma_decode_step_valid(e, rest, lossy);
        lemma_decode_of_encode(cs.skip(1), lossy);
        assert(encode_seq(cs) == e + rest);
        let d = decode_results(encode_seq(cs), lossy);
        assert(d == seq![DecodeOutcome::Scalar { c: cs[0] }] + decode_results(rest, lossy));
        assert forall|i: int| 0 <= i < cs.len() implies d[i] == (DecodeOutcome::Scalar {
            c: cs[i],
        }) by {
            if i > 0 {
                assert(d[i] == decode_results(rest, lossy)[i - 1]);
                assert(cs.skip(1)[i - 1] == cs[i]);
            }
        }
    }
}

/// True of byte streams whose damage, if any, consists of stray single bytes
/// that are no leading byte at all (stray continuation bytes, `0xF8..=0xFF`),
/// between whole valid scalar sequences. On such streams each stray byte is a
/// maximal invalid subsequence of its own.
pub open spec fn scalar_or_stray(bytes: Seq<u8>) -> bool
    decreases bytes.len(),
{
    if bytes.len() == 0 {
        true
    } else {
        match extra_count(bytes[0]) {
            None => scalar_or_stray(bytes.skip(1)),
            Some(k) => {
                &&& bytes.len() >= k + 1
                &&& valid_scalar_seq(bytes.take(k + 1 as int))
                &&& scalar_or_stray(bytes.skip(k + 1 as int))
            },
        }
    }
}

/// What decoding such a stream yields: the character of each valid sequence,
/// and for each stray byte one U+FFFD in lossy mode or, in strict mode, a
/// decode error capturing exactly that byte.
pub open spec fn scalar_or_stray_results(bytes: Seq<u8>, lossy: bool) -> Seq<DecodeOutcome>
    decreases bytes.len(),
{
    if bytes.len() == 0 {
        Seq::empty()
    } else {
        match extra_count(bytes[0]) {
            None => seq![
                if lossy {
                    DecodeOutcome::Scalar { c: '\u{FFFD}' }
                } else {
                    DecodeOutcome::Invalid {
                        bytes: seq![bytes[0]],
                        cause: DecodeCause::InvalidLeadingByte,
                    }
                },
            ] + scalar_or_stray_results(bytes.skip(1), lossy),
            Some(k) => {
                if bytes.len() >= k + 1 {
                    seq![DecodeOutcome::Scalar { c: char_of(bytes.take(k + 1 as int)) }]
                        + scalar_or_stray_results(bytes.skip(k + 1 as int), lossy)
                } else {
                    Seq::empty()
                }
            },
        }
    }
}

/// On a stream of whole valid sequences and stray bytes, lossy decoding
/// never yields an error: every stray byte becomes exactly one U+FFFD.
/// Strict decoding on the same stream captures, in each error, exactly the
/// offending stray byte.
pub proof fn lemma_scalar_or_stray_decode(bytes: Seq<u8>, lossy: bool)
    requires
        scalar_or_stray(bytes),
    ensures
        decode_results(bytes, lossy) == scalar_or_stray_results(bytes, lossy),
        lossy ==> forall|i: int|
            0 <= i < decode_results(bytes, lossy).len() ==> decode_results(bytes, lossy)[i]
                is Scalar,
    decreases bytes.len(),
{
    if bytes.len() == 0 {
    } else {
        match extra_count(bytes[0]) {
            None => {
                lemma_scalar_or_stray_decode(bytes.skip(1), lossy);
                assert(decode_results(bytes, lossy) =~= scalar_or_stray_results(bytes, lossy));
            },
            Some(k) => {
                let e = bytes.take(k + 1 as int);
                let rest = bytes.skip(k + 1 as int);
                assert(bytes =~= e + rest);
                lemma_decode_step_valid(e, rest, lossy);
                lemma_scalar_or_stray_decode(rest, lossy);
                assert(decode_results(bytes, lossy) =~= scalar_or_stray_results(bytes, lossy));
            },
        }
        if lossy {
            assert forall|i: int| 0 <= i < decode_results(bytes, lossy).len() implies decode_results(
                bytes,
                lossy,
            )[i] is Scalar by {
                if i > 0 {
                    match extra_count(bytes[0]) {
                        None => {
                            assert(decode_results(bytes, lossy)[i] == decode_results(
                                bytes.skip(1),
                                lossy,
                            )[i - 1]);
                        },
                        Some(k) => {
                            assert(decode_results(bytes, lossy)[i] == decode_results(
                                bytes.skip(k + 1 as int),
                                lossy,
                            )[i - 1]);
                        },
                    }
                }
            }
        }
    }
}

/// How many continuation bytes the leading byte announces, derived from its
/// high-bit pattern; `None` for an invalid leading byte.
pub(crate) fn remaining_byte_count(byte: u8) -> (r: Option<usize>)
    ensures
        match extra_count(byte) {
            Some(k) => r matches Some(n) && n as nat == k,
            None => r is None,
        },
{
    proof {
        assert((byte >> 7) == 0 <==> byte < 0x80) by (bit_vector);
        assert((byte >> 5) == 6 <==> (0xC0 <= byte && byte < 0xE0)) by (bit_vector);
        assert((byte >> 4) == 14 <==> (0xE0 <= byte && byte < 0xF0)) by (bit_vector);
        assert((byte >> 3) == 30 <==> (0xF0 <= byte && byte < 0xF8)) by (bit_vector);
    }
    let count: usize = if (byte >> 7) == 0 {
        0
    } else if (byte >> 5) == 6 {
        1
    } else if (byte >> 4) == 14 {
        2
    } else if (byte >> 3) == 30 {
        3
    } else {
        return None;
    };
    Some(count)
}

/// Relies on `char::from_u32` of std: `Some` exactly when the value is a
/// Unicode scalar value (not a surrogate, at most `0x10FFFF`), and then the
/// character with that value.
pub assume_specification[ char::from_u32 ](v: u32) -> (r: Option<char>)
    ensures
        r == (if v < 0xD800 || (0xE000 <= v && v <= 0x10FFFF) {
            Some(v as char)
        } else {
            None::<char>
        }),
;

/// Decodes the bytes gathered for one character: the leading byte and every
/// continuation byte it announced. Succeeds exactly on valid scalar
/// sequences.
pub(crate) fn decode_scalar(bytes: &Vec<u8>) -> (r: Option<char>)
    requires
        1 <= bytes@.len() <= 4,
        extra_count(bytes@[0]) == Some((bytes@.len() - 1) as nat),
    ensures
        r is Some <==> valid_scalar_seq(bytes@),
        r matches Some(c) ==> c == char_of(bytes@),
{
    let b0 = bytes[0];
    if bytes.len() == 1 {
        proof {
            assert(valid_scalar_seq(bytes@));
            assert(b0 < 0x80 && code_of(bytes@) == b0 as int);
        }
        return char::from_u32(b0 as u32);
    }
    let b1 = bytes[1];
    if !(0x80 <= b1 && b1 < 0xC0) {
        return None;
    }
    if bytes.len() == 2 {
        let v: u32 = (((b0 & 0x1F) as u32) << 6) | ((b1 & 0x3F) as u32);
        proof {
            assert(v == (b0 - 0xC0) * 0x40 + (b1 - 0x80) && v < 0x800) by (bit_vector)
                requires
                    v == ((((b0 & 0x1F) as u32) << 6) | ((b1 & 0x3F) as u32)),
                    0xC0 <= b0 < 0xE0,
                    0x80 <= b1 < 0xC0,
            ;
            assert(v as int == code_of(bytes@));
        }
        if v < 0x80 {
            return None;
        }
        return char::from_u32(v);
    }
    let b2 = bytes[2];
    if !(0x80 <= b2 && b2 < 0xC0) {
        return None;
    }
    if bytes.len() == 3 {
        let v: u32 = (((b0 & 0x0F) as u32) << 12) | (((b1 & 0x3F) as u32) << 6) | ((b2
            & 0x3F) as u32);
        proof {
            assert(v == (b0 - 0xE0) * 0x1000 + (b1 - 0x80) * 0x40 + (b2 - 0x80) && v
                < 0x10000) by (bit_vector)
                requires
                    v == ((((b0 & 0x0F) as u32) << 12) | (((b1 & 0x3F) as u32) << 6) | ((b2
                        & 0x3F) as u32)),
                    0xE0 <= b0 < 0xF0,
                    0x80 <= b1 < 0xC0,
                    0x80 <= b2 < 0xC0,
            ;
            assert(v as int == code_of(bytes@));
        }
        if v < 0x800 {
            return None;
        }
        if 0xD800 <= v && v < 0xE000 {
            return None;
        }
        return char::from_u32(v);
    }
    let b3 = bytes[3];
    if !(0x80 <= b3 && b3 < 0xC0) {
        return None;
    }
    let v: u32 = (((b0 & 0x07) as u32) << 18) | (((b1 & 0x3F) as u32) << 12) | (((b2
        & 0x3F) as u32) << 6) | ((b3 & 0x3F) as u32);
    proof {
        assert(v == (b0 - 0xF0) * 0x40000 + (b1 - 0x80) * 0x1000 + (b2 - 0x80) * 0x40 + (b3
            - 0x80) && v < 0x200000) by (bit_vector)
            requires
                v == ((((b0 & 0x07) as u32) << 18) | (((b1 & 0x3F) as u32) << 12) | (((b2
                    & 0x3F) as u32) << 6) | ((b3 & 0x3F) as u32)),
                0xF0 <= b0 < 0xF8,
                0x80 <= b1 < 0xC0,
                0x80 <= b2 < 0xC0,
                0x80 <= b3 < 0xC0,
        ;
        assert(v as int == code_of(bytes@));
    }
    if v < 0x10000 {
        return None;
    }
    if v > 0x10FFFF {
        return None;
    }
    char::from_u32(v)
}

} // verus!
