//! The bytes that were read and not yet passed on.

use vstd::prelude::*;

verus! {

/// How many bytes a [`Buffer`] is filled up to, and how many are read at most at
/// once.
pub const CAPACITY: usize = 1024;

/// How many bytes one read may bring when `held` is there: what is missing to
/// [`CAPACITY`] or, where nothing is, as many again.
pub open spec fn room(held: Seq<u8>) -> usize {
    if held.len() < CAPACITY {
        (CAPACITY - held.len()) as usize
    } else {
        CAPACITY
    }
}

/// Bytes, in the order in which they were read.
pub struct Buffer {
    buffer: Vec<u8>,
}

impl View for Buffer {
    type V = Seq<u8>;

    closed spec fn view(&self) -> Seq<u8> {
        self.buffer@
    }
}

impl Buffer {
    /// An empty buffer.
    pub fn new() -> (res: Self)
        ensures
            res@ == Seq::<u8>::empty(),
    {
        Buffer { buffer: Vec::new() }
    }

    /// How many bytes are held.
    pub fn len(&self) -> (res: usize)
        ensures
            res == self@.len(),
    {
        self.buffer.len()
    }

    /// How many bytes the next read may bring: never none.
    pub fn room(&self) -> (res: usize)
        ensures
            res == room(self@),
            0 < res <= CAPACITY,
    {
        let used: usize = self.buffer.len();
        if used < CAPACITY {
            CAPACITY - used
        } else {
            CAPACITY
        }
    }

    /// Takes in the bytes of one read; their number is returned.
    pub fn read(&mut self, input: &[u8]) -> (n: usize)
        requires
            input@.len() <= room(old(self)@),
        ensures
            final(self)@ == old(self)@ + input@,
            n == input@.len(),
    {
        self.buffer.extend_from_slice(input);
        assert(self@ =~= old(self)@ + input@);
        input.len()
    }

    /// Drops the `n` oldest bytes.
    pub fn consume(&mut self, n: usize)
        requires
            n <= old(self)@.len(),
        ensures
            final(self)@ == old(self)@.skip(n as int),
    {
        let kept = self.buffer.split_off(n);
        self.buffer = kept;
        assert(self@ =~= old(self)@.skip(n as int));
    }
}

impl std::ops::Deref for Buffer {
    type Target = [u8];

    /// The held bytes, oldest first.
    fn deref(&self) -> (res: &[u8])
        ensures
            res@ == self@,
    {
        self.buffer.as_slice()
    }
}

} // verus!
