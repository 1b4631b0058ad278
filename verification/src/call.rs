//! The byte source of one inbound message.

use vstd::prelude::*;
use vstd::slice::slice_subrange;

verus! {

/// The bytes of one received message, read from front to back.
///
/// The view of a reader is the sequence of bytes that it has not handed out
/// yet. Advancing drops bytes from the front of that sequence; nothing ever
/// puts bytes back.
pub struct MessageReader {
    data: Vec<u8>,
    pos: usize,
}

impl View for MessageReader {
    type V = Seq<u8>;

    closed spec fn view(&self) -> Seq<u8> {
        self.data@.skip(self.pos as int)
    }
}

impl MessageReader {
    #[verifier::type_invariant]
    spec fn in_bounds(&self) -> bool {
        self.pos <= self.data@.len()
    }

    /// A reader over the whole of `data`.
    pub fn new(data: Vec<u8>) -> (reader: MessageReader)
        ensures
            reader@ == data@,
    {
        MessageReader { data, pos: 0 }
    }

    /// The number of bytes that are still to be read.
    pub fn remaining(&self) -> (n: usize)
        ensures
            n == self@.len(),
    {
        proof {
            use_type_invariant(self);
        }
        self.data.len() - self.pos
    }

    /// Whether any byte is still to be read.
    pub fn has_remaining(&self) -> (b: bool)
        ensures
            b == (self@.len() > 0),
    {
        self.remaining() > 0
    }

    /// The bytes that are still to be read, without consuming them.
    pub fn bytes(&self) -> (rest: &[u8])
        ensures
            rest@ == self@,
    {
        proof {
            use_type_invariant(self);
        }
        slice_subrange(self.data.as_slice(), self.pos, self.data.len())
    }

    /// Skips the next `cnt` bytes.
    pub fn advance(&mut self, cnt: usize)
        requires
            cnt <= old(self)@.len(),
        ensures
            final(self)@ == old(self)@.skip(cnt as int),
    {
        proof {
            use_type_invariant(&*self);
        }
        let total = self.data.len();
        assert(self.pos + cnt <= total);
        self.pos = self.pos + cnt;
        assert(self@ =~= old(self)@.skip(cnt as int));
    }
}

} // verus!
