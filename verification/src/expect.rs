//! Waiting for a token in a stream of bytes, and passing on what comes before it.
//!
//! A [`Session`] decides what is to be passed on and when to read; whoever holds
//! the two ends of the stream does the reading and the writing. One wait is:
//!
//! 1. [`Session::expect`] gives the first [`Step`];
//! 2. on [`Step::Forward`], write what [`Session::output`] gives, flush, and call
//!    [`Session::forwarded`] for the next step;
//! 3. on [`Step::Read`], read once, at most `room` bytes, and call
//!    [`Session::received`] for the next step;
//! 4. on [`Step::Finished`], the wait is over.
//!
//! Where a write or a read fails, the wait is dropped: the session still holds
//! what it held before that step.

use vstd::prelude::*;
use std::ops::Deref;
use vstd::slice::{slice_subrange, slice_to_vec};
use vstd::utf8::*;
use crate::buffer::Buffer;

verus! {

/// `token` stands in `text` at position `pos`.
pub open spec fn occurs_at(text: Seq<u8>, token: Seq<u8>, pos: int) -> bool {
    &&& 0 <= pos
    &&& pos + token.len() <= text.len()
    &&& text.subrange(pos, pos + token.len()) == token
}

/// `pos` is the first position at which `token` stands in `text`.
pub open spec fn occurs_first_at(text: Seq<u8>, token: Seq<u8>, pos: int) -> bool {
    &&& occurs_at(text, token, pos)
    &&& forall|p: int| p < pos ==> !#[trigger] occurs_at(text, token, p)
}

/// `token` stands nowhere in `text`.
pub open spec fn absent(text: Seq<u8>, token: Seq<u8>) -> bool {
    forall|p: int| !#[trigger] occurs_at(text, token, p)
}

/// How many bytes can be passed on when the token is not among the held ones: all
/// but the last `token.len() - 1`, with which the token may still begin.
pub open spec fn safe_len(held: Seq<u8>, token: Seq<u8>) -> int {
    if held.len() < token.len() {
        0
    } else {
        held.len() - (token.len() - 1)
    }
}

/// What is passed on of the held bytes by a [`Step::Forward`] of `len` bytes.
pub open spec fn passed_on(held: Seq<u8>, len: int) -> Seq<u8> {
    held.take(len)
}

/// What a wait goes on with once the bytes of a [`Step::Forward`] are out.
#[derive(Clone, Copy, Debug, PartialEq, Eq, Structural)]
pub enum Then {
    /// The token was found: the wait is over.
    Found,
    /// The token was not found yet: more input is needed.
    Read,
    /// The input is over and the token was not found.
    Ended,
}

/// What is to be done next in a wait.
#[derive(Clone, Copy, Debug, PartialEq, Eq, Structural)]
pub enum Step {
    /// Pass on the first `len` held bytes, then drop the first `consume`.
    Forward { len: usize, consume: usize, then: Then },
    /// Read once, at most `room` bytes.
    Read { room: usize },
    /// The wait is over.
    Finished { found: bool },
}

/// The step that a search of the held bytes calls for.
pub open spec fn is_search_step(held: Seq<u8>, token: Seq<u8>, step: Step) -> bool {
    match step {
        Step::Forward { len, consume, then: Then::Found } => {
            &&& occurs_first_at(held, token, len as int)
            &&& consume == len + token.len()
        },
        Step::Forward { len, consume, then: Then::Read } => {
            &&& absent(held, token)
            &&& len == safe_len(held, token)
            &&& consume == len
        },
        _ => false,
    }
}

/// The step that follows a [`Step::Forward`] after which `held` is left.
pub open spec fn after_forward(held: Seq<u8>, then: Then) -> Step {
    match then {
        Then::Found => Step::Finished { found: true },
        Then::Read => Step::Read { room: crate::buffer::room(held) },
        Then::Ended => Step::Finished { found: false },
    }
}

/// The step that ends a wait when the input is over: pass on all that is held.
pub open spec fn is_end_step(held: Seq<u8>, step: Step) -> bool {
    step matches Step::Forward { len, consume, then: Then::Ended } && len == held.len() && consume
        == held.len()
}

/// Text that is not empty has bytes.
pub proof fn lemma_bytes_not_empty(text: Seq<char>)
    requires
        text.len() > 0,
    ensures
        encode_utf8(text).len() > 0,
{
}

/// The first position of `token` in `text`.
fn position(text: &[u8], token: &[u8]) -> (res: Option<usize>)
    requires
        token@.len() > 0,
    ensures
        match res {
            Some(pos) => occurs_first_at(text@, token@, pos as int),
            None => absent(text@, token@),
        },
{
    let n: usize = text.len();
    let k: usize = token.len();
    if n < k {
        return None;
    }
    let mut pos: usize = 0;
    while pos <= n - k
        invariant
            k <= n,
            n == text@.len(),
            k == token@.len(),
            pos <= n - k + 1,
            forall|p: int| p < pos ==> !#[trigger] occurs_at(text@, token@, p),
        decreases n - k + 1 - pos,
    {
        let mut i: usize = 0;
        while i < k && text[pos + i] == token[i]
            invariant
                i <= k,
                pos + k <= n,
                n == text@.len(),
                k == token@.len(),
                forall|j: int| 0 <= j < i ==> text@[pos + j] == token@[j],
            decreases k - i,
        {
            i = i + 1;
        }
        if i == k {
            assert(text@.subrange(pos as int, pos + k) =~= token@);
            return Some(pos);
        }
        assert(!occurs_at(text@, token@, pos as int)) by {
            assert(text@.subrange(pos as int, pos + k)[i as int] == text@[pos + i]);
        }
        pos = pos + 1;
    }
    None
}

/// The bytes that were read and not yet passed on, and whether what is passed on
/// is written out.
pub struct Session {
    buffer: Buffer,
    pipe_enabled: bool,
}

impl Session {
    /// The bytes that were read and not yet passed on.
    pub closed spec fn held(&self) -> Seq<u8> {
        self.buffer@
    }

    /// Whether what is passed on is written out.
    pub closed spec fn piping(&self) -> bool {
        self.pipe_enabled
    }

    /// A session that holds nothing and writes out what it passes on.
    pub fn new() -> (res: Self)
        ensures
            res.held() == Seq::<u8>::empty(),
            res.piping(),
    {
        Session { buffer: Buffer::new(), pipe_enabled: true }
    }

    /// Sets whether what is passed on is written out.
    pub fn pipe_output(&mut self, enable: bool)
        ensures
            final(self).held() == old(self).held(),
            final(self).piping() == enable,
    {
        self.pipe_enabled = enable;
    }

    /// Starts to wait for `token`, which is not empty.
    pub fn expect(&self, token: &str) -> (step: Step)
        requires
            token@.len() > 0,
        ensures
            is_search_step(self.held(), encode_utf8(token@), step),
    {
        proof {
            lemma_bytes_not_empty(token@);
        }
        let token = token.as_bytes();
        let held = self.buffer.deref();
        let n: usize = held.len();
        match position(held, token) {
            Some(pos) => Step::Forward { len: pos, consume: pos + token.len(), then: Then::Found },
            None => {
                let keep: usize = token.len() - 1;
                let len: usize = if n < keep {
                    0
                } else {
                    n - keep
                };
                Step::Forward { len, consume: len, then: Then::Read }
            },
        }
    }

    /// The bytes that were read and not yet passed on.
    pub fn buffered(&self) -> (res: &[u8])
        ensures
            res@ == self.held(),
    {
        self.buffer.deref()
    }

    /// What is to be written out for a [`Step::Forward`] of `len` bytes: nothing at
    /// all where the session does not pipe.
    pub fn output(&self, len: usize) -> (res: Option<Vec<u8>>)
        requires
            len <= self.held().len(),
        ensures
            self.piping() <==> res is Some,
            res matches Some(bytes) ==> bytes@ == self.held().take(len as int),
            res matches Some(bytes) ==> bytes@ == passed_on(self.held(), len as int),
    {
        if self.pipe_enabled {
            Some(slice_to_vec(slice_subrange(self.buffer.deref(), 0, len)))
        } else {
            None
        }
    }

    /// The bytes of a [`Step::Forward`] are out: drops the first `consume` held
    /// bytes and gives the next step.
    pub fn forwarded(&mut self, consume: usize, then: Then) -> (step: Step)
        requires
            consume <= old(self).held().len(),
        ensures
            final(self).held() == old(self).held().skip(consume as int),
            final(self).piping() == old(self).piping(),
            step == after_forward(final(self).held(), then),
    {
        self.buffer.consume(consume);
        match then {
            Then::Found => Step::Finished { found: true },
            Then::Read => Step::Read { room: self.buffer.room() },
            Then::Ended => Step::Finished { found: false },
        }
    }

    /// One read gave `input`, no more than there was room for: gives the next step.
    /// There is always room, so a read that gave nothing means that the input is over.
    pub fn received(&mut self, token: &str, input: &[u8]) -> (step: Step)
        requires
            token@.len() > 0,
            input@.len() <= crate::buffer::room(old(self).held()),
        ensures
            final(self).held() == old(self).held() + input@,
            final(self).piping() == old(self).piping(),
            input@.len() == 0 ==> is_end_step(final(self).held(), step),
            input@.len() > 0 ==> is_search_step(final(self).held(), encode_utf8(token@), step),
    {
        let n: usize = self.buffer.read(input);
        if n == 0 {
            let len: usize = self.buffer.len();
            Step::Forward { len, consume: len, then: Then::Ended }
        } else {
            self.expect(token)
        }
    }
}

} // verus!
