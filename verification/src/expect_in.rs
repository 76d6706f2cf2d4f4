//! A whole wait on input that is at hand.

use vstd::prelude::*;
use vstd::slice::slice_subrange;
use vstd::utf8::*;
use crate::expect::{Session, Step, Then};
use crate::expect_laws::WaitState;

verus! {

/// How far a wait is from its end, between two reads.
spec fn rank(step: Step) -> int {
    match step {
        Step::Forward { then: Then::Read, .. } => 3,
        Step::Read { .. } => 2,
        Step::Forward { .. } => 1,
        Step::Finished { .. } => 0,
    }
}

impl Session {
    /// Waits for `token` in what is held and then in `input`, of which each read takes as
    /// much as there is room for; at its end the input is over. Gives whether the token
    /// was found, how much of `input` was read, and what was written out.
    ///
    /// The token is found where it is there, and then all that came before it was passed
    /// on, the token was dropped, and what was read past it is held. Else all was passed
    /// on.
    pub fn expect_in(&mut self, token: &str, input: &[u8]) -> (res: (bool, usize, Vec<u8>))
        requires
            token@.len() > 0,
        ensures
            final(self).piping() == old(self).piping(),
            res.0 <==> !crate::expect::absent(old(self).held() + input@, encode_utf8(token@)),
            res.1 <= input@.len(),
            !old(self).piping() ==> res.2@ == Seq::<u8>::empty(),
            res.0 && old(self).piping() ==> {
                &&& crate::expect::occurs_first_at(
                    old(self).held() + input@,
                    encode_utf8(token@),
                    res.2@.len() as int,
                )
                &&& old(self).held() + input@.take(res.1 as int) == res.2@ + encode_utf8(token@)
                    + final(self).held()
            },
            res.0 ==> exists|before: Seq<u8>|
                old(self).held() + input@.take(res.1 as int) == #[trigger] (before + encode_utf8(
                    token@,
                )) + final(self).held(),
            !res.0 ==> {
                &&& res.1 == input@.len()
                &&& old(self).piping() ==> res.2@ == old(self).held() + input@
                &&& final(self).held() == Seq::<u8>::empty()
            },
    {
        let ghost tok = encode_utf8(token@);
        let ghost start = self.held();
        proof {
            crate::expect::lemma_bytes_not_empty(token@);
            assert(input@.take(0) =~= Seq::<u8>::empty());
            assert(start + input@.take(0) =~= start);
        }
        let mut step = self.expect(token);
        let mut read: usize = 0;
        let mut output: Vec<u8> = Vec::new();
        let ghost mut states = seq![
            WaitState { held: start, sent: Seq::empty(), input: start, step },
        ];
        let n: usize = input.len();
        loop
            invariant
                token@.len() > 0,
                tok == encode_utf8(token@),
                tok.len() > 0,
                n == input@.len(),
                read <= n,
                start == old(self).held(),
                self.piping() == old(self).piping(),
                crate::expect_laws::is_wait(tok, states),
                states.last().held == self.held(),
                states.last().step == step,
                states.last().input == start + input@.take(read as int),
                self.piping() ==> output@ == states.last().sent,
                !self.piping() ==> output@ == Seq::<u8>::empty(),
                step matches Step::Forward { then: Then::Ended, .. } ==> read == n,
                step == (Step::Finished { found: false }) ==> read == n,
            decreases n - read, rank(step),
        {
            proof {
                crate::expect_laws::law_forwards_what_is_held(tok, states);
                crate::expect_laws::law_read_has_room(tok, states);
                crate::expect_laws::law_wait_room(tok, states);
            }
            let ghost before = states.last();
            match step {
                Step::Forward { len, consume, then } => {
                    let ghost so_far = output@;
                    match self.output(len) {
                        Some(bytes) => {
                            output.extend_from_slice(bytes.as_slice());
                            assert(output@ =~= so_far + bytes@);
                        },
                        None => {},
                    }
                    step = self.forwarded(consume, then);
                    proof {
                        let next = WaitState {
                            held: self.held(),
                            sent: before.sent + crate::expect::passed_on(before.held, len as int),
                            input: before.input,
                            step,
                        };
                        crate::expect_laws::lemma_wait_goes_on(tok, states, next);
                        states = states.push(next);
                    }
                },
                Step::Read { room } => {
                    let left: usize = n - read;
                    let take: usize = if room < left {
                        room
                    } else {
                        left
                    };
                    let chunk = slice_subrange(input, read, read + take);
                    step = self.received(token, chunk);
                    proof {
                        let next = WaitState {
                            held: self.held(),
                            sent: before.sent,
                            input: start + input@.take(read + take),
                            step,
                        };
                        assert(next.input =~= before.input + chunk@);
                        assert(next.input.skip(before.input.len() as int) =~= chunk@);
                        crate::expect_laws::lemma_wait_goes_on(tok, states, next);
                        states = states.push(next);
                    }
                    read = read + take;
                },
                Step::Finished { found } => {
                    proof {
                        crate::expect_laws::law_wait_outcome(tok, states);
                        let end = states.last();
                        let rest = input@.skip(read as int);
                        assert(start + input@ =~= end.input + rest);
                        if found {
                            let pos = end.sent.len() as int;
                            crate::expect_laws::lemma_found_in_more(end.input, rest, tok, pos);
                            assert(start + input@.take(read as int) == (end.sent + tok)
                                + self.held());
                        } else {
                            assert(rest =~= Seq::<u8>::empty());
                            assert(start + input@ =~= end.input);
                        }
                    }
                    return (found, read, output);
                },
            }
        }
    }
}

} // verus!
