//! The byte-source capability: a blocking "read up to N bytes" supplier, and
//! an in-memory implementation of it.

use vstd::prelude::*;

use crate::error::IoKind;

verus! {

/// An I/O failure from a byte source: the bytes the failing read had already
/// consumed, and the kind of the failure.
#[derive(Debug, Clone, PartialEq)]
pub struct SourceError {
    pub bytes: Vec<u8>,
    pub kind: IoKind,
}

/// A blocking supplier of raw bytes.
///
/// The ghost sequence `remaining` lists the bytes the source will deliver, in
/// order. A read may instead report an I/O failure at any point; a source for
/// which that can never happen says so through `infallible`, and everything
/// proved about decoding hinges on that flag. A successful read that returns
/// fewer bytes than asked for has exhausted the source.
pub trait ByteSource: Sized {
    /// The bytes this source has yet to deliver. A source declared outside
    /// the library may leave this at its default; nothing is then known of
    /// what it delivers.
    open spec fn remaining(&self) -> Seq<u8> {
        Seq::empty()
    }

    /// True of a source that never reports an I/O failure. False by default:
    /// only a source that proves its reads total may say otherwise.
    open spec fn infallible(&self) -> bool {
        false
    }

    /// Reads up to `amount` bytes, returning the bytes actually read or an
    /// I/O failure. Either way the bytes consumed leave the front of
    /// `remaining`.
    fn read_up_to(&mut self, amount: usize) -> (r: Result<Vec<u8>, SourceError>)
        ensures
            final(self).infallible() == old(self).infallible(),
            match r {
                Ok(v) => {
                    &&& v@.len() <= amount
                    &&& v@.len() <= old(self).remaining().len()
                    &&& (v@.len() < amount ==> v@.len() == old(self).remaining().len())
                    &&& v@ == old(self).remaining().take(v@.len() as int)
                    &&& final(self).remaining() == old(self).remaining().skip(v@.len() as int)
                },
                Err(e) => {
                    &&& !old(self).infallible()
                    &&& e.bytes@.len() <= amount
                    &&& e.bytes@.len() <= old(self).remaining().len()
                    &&& e.bytes@ == old(self).remaining().take(e.bytes@.len() as int)
                    &&& final(self).remaining() == old(self).remaining().skip(e.bytes@.len() as int)
                },
            },
    ;
}

/// An in-memory byte source: a buffer and a cursor that walks it. It never
/// fails.
pub struct MemorySource {
    bytes: Vec<u8>,
    pos: usize,
}

impl MemorySource {
    /// Wraps a buffer as a byte source positioned at its start.
    pub fn new(bytes: Vec<u8>) -> (r: MemorySource)
        ensures
            r.remaining() == bytes@,
            r.infallible(),
    {
        let r = MemorySource { bytes, pos: 0 };
        proof {
            assert(r.remaining() =~= r.bytes@);
        }
        r
    }
}

impl ByteSource for MemorySource {
    closed spec fn remaining(&self) -> Seq<u8> {
        if self.pos <= self.bytes@.len() {
            self.bytes@.skip(self.pos as int)
        } else {
            Seq::empty()
        }
    }

    closed spec fn infallible(&self) -> bool {
        true
    }

    fn read_up_to(&mut self, amount: usize) -> (r: Result<Vec<u8>, SourceError>) {
        let len = self.bytes.len();
        let start = if self.pos <= len {
            self.pos
        } else {
            len
        };
        let avail = len - start;
        let n = if amount <= avail {
            amount
        } else {
            avail
        };
        let mut v: Vec<u8> = Vec::new();
        let mut i: usize = 0;
        while i < n
            invariant
                i <= n,
                start + n <= self.bytes@.len(),
                self.bytes@.len() <= usize::MAX,
                self.bytes@ == old(self).bytes@,
                self.pos == old(self).pos,
                v@ == self.bytes@.subrange(start as int, start as int + i as int),
            decreases n - i,
        {
            v.push(self.bytes[start + i]);
            proof {
                assert(v@ =~= self.bytes@.subrange(start as int, start as int + i as int + 1));
            }
            i += 1;
        }
        self.pos = start + n;
        proof {
            assert(v@ =~= old(self).remaining().take(n as int));
            assert(self.remaining() =~= old(self).remaining().skip(n as int));
        }
        Ok(v)
    }
}

} // verus!
