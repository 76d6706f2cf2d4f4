//! What a wait amounts to, however its input is cut into reads.

use vstd::prelude::*;
use crate::buffer::CAPACITY;
use crate::expect::{Step, Then};

verus! {

/// A wait between two steps.
pub struct WaitState {
    /// What the session holds.
    pub held: Seq<u8>,
    /// What was passed on since the wait began.
    pub sent: Seq<u8>,
    /// What was held when the wait began, and all that was read since.
    pub input: Seq<u8>,
    /// The step that comes next.
    pub step: Step,
}

/// A wait for `token` that [`Session::expect`](crate::expect::Session::expect) has
/// just begun.
pub open spec fn begins(token: Seq<u8>, state: WaitState) -> bool {
    &&& state.sent == Seq::<u8>::empty()
    &&& state.input == state.held
    &&& crate::expect::is_search_step(state.held, token, state.step)
}

/// One step of a wait: a [`Step::Forward`] that
/// [`Session::forwarded`](crate::expect::Session::forwarded) completes, or a
/// [`Step::Read`] that [`Session::received`](crate::expect::Session::received)
/// completes, with the bytes that `after.input` has beyond `before.input`.
pub open spec fn follows(token: Seq<u8>, before: WaitState, after: WaitState) -> bool {
    match before.step {
        Step::Forward { len, consume, then } => {
            &&& after.held == before.held.skip(consume as int)
            &&& after.sent == before.sent + crate::expect::passed_on(before.held, len as int)
            &&& after.input == before.input
            &&& after.step == crate::expect::after_forward(after.held, then)
        },
        Step::Read { room } => {
            let chunk = after.input.skip(before.input.len() as int);
            &&& before.input.len() <= after.input.len()
            &&& after.input == before.input + chunk
            &&& chunk.len() <= room
            &&& after.held == before.held + chunk
            &&& after.sent == before.sent
            &&& chunk.len() == 0 ==> crate::expect::is_end_step(after.held, after.step)
            &&& chunk.len() > 0 ==> crate::expect::is_search_step(after.held, token, after.step)
        },
        Step::Finished { .. } => false,
    }
}

/// A wait for `token`, from its beginning, state by state.
pub open spec fn is_wait(token: Seq<u8>, states: Seq<WaitState>) -> bool {
    &&& states.len() > 0
    &&& begins(token, states[0])
    &&& forall|i: int|
        0 <= i < states.len() - 1 ==> #[trigger] follows(token, states[i], states[i + 1])
}

/// `text` without the occurrences of `token` that are met from left to right.
pub open spec fn without(text: Seq<u8>, token: Seq<u8>) -> Seq<u8>
    decreases text.len(),
    when token.len() > 0
{
    if exists|p: int| crate::expect::occurs_first_at(text, token, p) {
        let p = choose|p: int| crate::expect::occurs_first_at(text, token, p);
        text.take(p) + without(text.skip(p + token.len()), token)
    } else {
        text
    }
}

/// How many occurrences of `token` are met in `text` from left to right.
pub open spec fn occurrences(text: Seq<u8>, token: Seq<u8>) -> nat
    decreases text.len(),
    when token.len() > 0
{
    if exists|p: int| crate::expect::occurs_first_at(text, token, p) {
        let p = choose|p: int| crate::expect::occurs_first_at(text, token, p);
        1 + occurrences(text.skip(p + token.len()), token)
    } else {
        0
    }
}

/// Nothing that was passed on is, or begins, an occurrence of the token.
spec fn passed_over(token: Seq<u8>, state: WaitState) -> bool {
    &&& state.sent.len() > 0 ==> state.sent.len() - 1 + token.len() <= state.input.len()
    &&& forall|p: int|
        p < state.sent.len() ==> !#[trigger] crate::expect::occurs_at(state.input, token, p)
}

/// What holds between any two steps of a wait.
spec fn on_course(token: Seq<u8>, state: WaitState) -> bool {
    match state.step {
        Step::Forward { len, consume, then } => {
            &&& state.input == state.sent + state.held
            &&& passed_over(token, state)
            &&& if then is Ended {
                &&& len == state.held.len()
                &&& consume == len
                &&& crate::expect::absent(state.input, token)
            } else {
                crate::expect::is_search_step(state.held, token, state.step)
            }
        },
        Step::Read { room } => {
            &&& state.input == state.sent + state.held
            &&& passed_over(token, state)
            &&& crate::expect::absent(state.input, token)
            &&& state.held.len() < token.len()
            &&& room == crate::buffer::room(state.held)
        },
        Step::Finished { found } => {
            if found {
                &&& crate::expect::occurs_first_at(state.input, token, state.sent.len() as int)
                &&& state.input == state.sent + token + state.held
            } else {
                &&& crate::expect::absent(state.input, token)
                &&& state.input == state.sent
                &&& state.held == Seq::<u8>::empty()
            }
        },
    }
}

/// Where a token stands in what follows a prefix.
proof fn lemma_occurs_after_prefix(prefix: Seq<u8>, text: Seq<u8>, token: Seq<u8>, p: int)
    requires
        prefix.len() <= p,
    ensures
        crate::expect::occurs_at(prefix + text, token, p) <==> crate::expect::occurs_at(
            text,
            token,
            p - prefix.len(),
        ),
{
    let q = p - prefix.len();
    if q + token.len() <= text.len() {
        assert((prefix + text).subrange(p, p + token.len()) =~= text.subrange(q, q + token.len()));
    }
}

/// Where a token stands in text that goes on.
proof fn lemma_occurs_before_suffix(text: Seq<u8>, suffix: Seq<u8>, token: Seq<u8>, p: int)
    requires
        p + token.len() <= text.len(),
    ensures
        crate::expect::occurs_at(text + suffix, token, p) <==> crate::expect::occurs_at(
            text,
            token,
            p,
        ),
{
    if 0 <= p {
        assert((text + suffix).subrange(p, p + token.len()) =~= text.subrange(p, p + token.len()));
    }
}

proof fn lemma_stays_on_course(token: Seq<u8>, before: WaitState, after: WaitState)
    requires
        token.len() > 0,
        on_course(token, before),
        follows(token, before, after),
    ensures
        on_course(token, after),
{
    match before.step {
        Step::Forward { len, consume, then } => {
            assert forall|p: int| before.sent.len() <= p implies (
            #[trigger] crate::expect::occurs_at(before.input, token, p)
                <==> crate::expect::occurs_at(before.held, token, p - before.sent.len())) by {
                lemma_occurs_after_prefix(before.sent, before.held, token, p);
            }
            match then {
                Then::Found => {
                    let pos = len as int;
                    assert(crate::expect::occurs_at(before.held, token, pos));
                    assert(before.held =~= before.held.take(pos) + token + before.held.skip(
                        consume as int,
                    ));
                    assert(after.input =~= after.sent + token + after.held);
                    assert(crate::expect::occurs_at(after.input, token, before.sent.len() + pos));
                    assert forall|p: int| p < after.sent.len() implies !#[trigger] crate::expect::occurs_at(
                        after.input,
                        token,
                        p,
                    ) by {
                        assert(before.sent.len() <= p ==> !crate::expect::occurs_at(
                            before.held,
                            token,
                            p - before.sent.len(),
                        ));
                    }
                },
                Then::Read => {
                    assert(after.input =~= after.sent + after.held);
                    assert forall|p: int| !#[trigger] crate::expect::occurs_at(
                        after.input,
                        token,
                        p,
                    ) by {
                        assert(before.sent.len() <= p ==> !crate::expect::occurs_at(
                            before.held,
                            token,
                            p - before.sent.len(),
                        ));
                    }
                },
                Then::Ended => {
                    assert(after.input =~= after.sent);
                    assert(after.held =~= Seq::<u8>::empty());
                },
            }
        },
        Step::Read { room } => {
            let chunk = after.input.skip(before.input.len() as int);
            assert(after.input =~= after.sent + after.held);
            if chunk.len() == 0 {
                assert(after.input =~= before.input);
            } else {
                assert forall|p: int| p < after.sent.len() implies !#[trigger] crate::expect::occurs_at(
                    after.input,
                    token,
                    p,
                ) by {
                    assert(!crate::expect::occurs_at(before.input, token, p));
                    if 0 <= p {
                        lemma_occurs_before_suffix(before.input, chunk, token, p);
                    }
                }
            }
        },
        Step::Finished { .. } => {},
    }
}

/// A wait without its last state is a wait, from which the last state follows.
proof fn lemma_wait_prefix(token: Seq<u8>, states: Seq<WaitState>)
    requires
        is_wait(token, states),
        states.len() > 1,
    ensures
        is_wait(token, states.drop_last()),
        states.drop_last()[0] == states[0],
        follows(token, states.drop_last().last(), states.last()),
{
    let earlier = states.drop_last();
    assert forall|i: int| 0 <= i < earlier.len() - 1 implies #[trigger] follows(
        token,
        earlier[i],
        earlier[i + 1],
    ) by {
        assert(follows(token, states[i], states[i + 1]));
    }
    let last = states.len() - 1;
    assert(follows(token, states[last - 1], states[last - 1 + 1]));
}

proof fn lemma_on_course(token: Seq<u8>, states: Seq<WaitState>)
    requires
        token.len() > 0,
        is_wait(token, states),
    ensures
        on_course(token, states.last()),
    decreases states.len(),
{
    if states.len() == 1 {
        assert(states[0].input =~= states[0].sent + states[0].held);
    } else {
        let earlier = states.drop_last();
        lemma_wait_prefix(token, states);
        lemma_on_course(token, earlier);
        lemma_stays_on_course(token, earlier.last(), states.last());
    }
}

/// A wait that finds its token has passed on exactly what came before the token's
/// first occurrence, has dropped the token, and holds what came after it. A wait
/// that ends without the token was given none, and has passed on everything. How
/// the input was cut into reads makes no difference.
pub proof fn law_wait_outcome(token: Seq<u8>, states: Seq<WaitState>)
    requires
        token.len() > 0,
        is_wait(token, states),
    ensures
        states.last().step == (Step::Finished { found: true }) ==> {
            &&& crate::expect::occurs_first_at(
                states.last().input,
                token,
                states.last().sent.len() as int,
            )
            &&& states.last().input == states.last().sent + token + states.last().held
        },
        states.last().step == (Step::Finished { found: false }) ==> {
            &&& crate::expect::absent(states.last().input, token)
            &&& states.last().input == states.last().sent
            &&& states.last().held == Seq::<u8>::empty()
        },
{
    lemma_on_course(token, states);
}

/// A read is always asked for with room: one that gives nothing means that the input
/// is over, however long the token is.
pub proof fn law_read_has_room(token: Seq<u8>, states: Seq<WaitState>)
    requires
        0 < token.len(),
        is_wait(token, states),
    ensures
        states.last().step matches Step::Read { room } ==> 0 < room <= CAPACITY,
{
    lemma_on_course(token, states);
}

/// A wait loses nothing on its way: wherever it is dropped because a read or a write
/// failed, what it was given is what it passed on and what is still held. Where it
/// asks for a read, the token was not among what it was given, and no more is held than
/// the token may begin with, which leaves the rest of the buffer to the read.
pub proof fn law_dropped_wait_loses_nothing(token: Seq<u8>, states: Seq<WaitState>)
    requires
        0 < token.len(),
        is_wait(token, states),
    ensures
        states.last().step !is Finished ==> states.last().input == states.last().sent
            + states.last().held,
        states.last().step matches Step::Read { room } ==> {
            &&& crate::expect::absent(states.last().input, token)
            &&& states.last().held.len() <= token.len() - 1
            &&& token.len() <= CAPACITY ==> room >= CAPACITY + 1 - token.len()
        },
{
    lemma_on_course(token, states);
}

/// What is to be passed on and dropped is held.
pub proof fn law_forwards_what_is_held(token: Seq<u8>, states: Seq<WaitState>)
    requires
        0 < token.len(),
        is_wait(token, states),
    ensures
        states.last().step matches Step::Forward { len, consume, .. } ==> len <= consume
            <= states.last().held.len(),
{
    lemma_on_course(token, states);
}

/// The room of a read is that which the session offers.
pub proof fn law_wait_room(token: Seq<u8>, states: Seq<WaitState>)
    requires
        0 < token.len(),
        is_wait(token, states),
    ensures
        states.last().step matches Step::Read { room } ==> room == crate::buffer::room(
            states.last().held,
        ),
{
    lemma_on_course(token, states);
}

/// The first occurrence in a text is the first in text that goes on.
pub proof fn lemma_found_in_more(text: Seq<u8>, more: Seq<u8>, token: Seq<u8>, pos: int)
    requires
        crate::expect::occurs_first_at(text, token, pos),
    ensures
        crate::expect::occurs_first_at(text + more, token, pos),
        !crate::expect::absent(text + more, token),
{
    assert forall|p: int| p <= pos implies (#[trigger] crate::expect::occurs_at(
        text + more,
        token,
        p,
    ) <==> crate::expect::occurs_at(text, token, p)) by {
        lemma_occurs_before_suffix(text, more, token, p);
    }
    assert(crate::expect::occurs_at(text + more, token, pos));
}

/// A wait that goes on by one step is a wait.
pub proof fn lemma_wait_goes_on(token: Seq<u8>, states: Seq<WaitState>, next: WaitState)
    requires
        is_wait(token, states),
        follows(token, states.last(), next),
    ensures
        is_wait(token, states.push(next)),
{
    let longer = states.push(next);
    assert forall|i: int| 0 <= i < longer.len() - 1 implies #[trigger] follows(
        token,
        longer[i],
        longer[i + 1],
    ) by {
        if i < states.len() - 1 {
            assert(follows(token, states[i], states[i + 1]));
        }
    }
}

/// A wait for a token that fits the buffer never holds more than the buffer does,
/// unless it began with more.
pub proof fn law_short_token_fits_buffer(token: Seq<u8>, states: Seq<WaitState>)
    requires
        0 < token.len() <= CAPACITY,
        is_wait(token, states),
        states[0].held.len() <= CAPACITY,
    ensures
        states.last().held.len() <= CAPACITY,
    decreases states.len(),
{
    if states.len() > 1 {
        lemma_wait_prefix(token, states);
        lemma_on_course(token, states.drop_last());
        law_short_token_fits_buffer(token, states.drop_last());
    }
}

proof fn lemma_without_first(text: Seq<u8>, token: Seq<u8>, pos: int)
    requires
        token.len() > 0,
        crate::expect::occurs_first_at(text, token, pos),
    ensures
        without(text, token) == text.take(pos) + without(text.skip(pos + token.len()), token),
        occurrences(text, token) == 1 + occurrences(text.skip(pos + token.len()), token),
{
    let p = choose|p: int| crate::expect::occurs_first_at(text, token, p);
    assert(crate::expect::occurs_first_at(text, token, p));
    assert(p == pos);
}

/// Wait `i` begins with what the wait before it left.
pub open spec fn goes_on(waits: Seq<Seq<WaitState>>, i: int) -> bool {
    waits[i][0].held == waits[i - 1].last().held
}

/// Consecutive waits for `token`, all but the last of which found it, while the last
/// came to the end of the input.
pub open spec fn is_drain(token: Seq<u8>, waits: Seq<Seq<WaitState>>) -> bool {
    &&& waits.len() > 0
    &&& forall|i: int| 0 <= i < waits.len() ==> is_wait(token, #[trigger] waits[i])
    &&& forall|i: int|
        0 <= i < waits.len() ==> (#[trigger] waits[i]).last().step == (Step::Finished {
            found: i < waits.len() - 1,
        })
    &&& forall|i: int| 0 < i < waits.len() ==> #[trigger] goes_on(waits, i)
}

/// What was passed on in `waits`.
pub open spec fn sent_in(waits: Seq<Seq<WaitState>>) -> Seq<u8>
    decreases waits.len(),
{
    if waits.len() == 0 {
        Seq::empty()
    } else {
        waits[0].last().sent + sent_in(waits.drop_first())
    }
}

/// What was read in `waits`.
pub open spec fn read_in(waits: Seq<Seq<WaitState>>) -> Seq<u8>
    decreases waits.len(),
{
    if waits.len() == 0 {
        Seq::empty()
    } else {
        waits[0].last().input.skip(waits[0][0].held.len() as int) + read_in(waits.drop_first())
    }
}

/// The input of a wait goes on from what was held when it began.
proof fn lemma_input_extends(token: Seq<u8>, states: Seq<WaitState>)
    requires
        is_wait(token, states),
    ensures
        states[0].held.len() <= states.last().input.len(),
        states.last().input == states[0].held + states.last().input.skip(
            states[0].held.len() as int,
        ),
    decreases states.len(),
{
    if states.len() == 1 {
        assert(states.last().input =~= states[0].held + states.last().input.skip(
            states[0].held.len() as int,
        ));
    } else {
        let earlier = states.drop_last();
        lemma_wait_prefix(token, states);
        lemma_input_extends(token, earlier);
        assert(states.last().input =~= states[0].held + states.last().input.skip(
            states[0].held.len() as int,
        ));
    }
}

/// Waiting for a token again and again until the input is over passes on the whole
/// stream without the token, and finds the token as often as it is met in the stream,
/// however the stream was cut into reads.
pub proof fn law_drain_strips_token(token: Seq<u8>, waits: Seq<Seq<WaitState>>)
    requires
        token.len() > 0,
        is_drain(token, waits),
    ensures
        sent_in(waits) == without(waits[0][0].held + read_in(waits), token),
        waits.len() - 1 == occurrences(waits[0][0].held + read_in(waits), token),
    decreases waits.len(),
{
    let first = waits[0];
    let rest = waits.drop_first();
    let stream = first[0].held + read_in(waits);
    assert(is_wait(token, first));
    law_wait_outcome(token, first);
    lemma_input_extends(token, first);
    let end = first.last();
    assert(stream =~= end.input + read_in(rest));
    if waits.len() == 1 {
        assert(rest =~= Seq::empty());
        assert(stream =~= end.input);
        assert(sent_in(rest) == Seq::<u8>::empty());
        assert(sent_in(waits) =~= end.sent);
    } else {
        assert(rest[0] == waits[1]);
        assert(goes_on(waits, 1));
        assert forall|i: int| 0 <= i < rest.len() implies is_wait(token, #[trigger] rest[i]) by {
            assert(rest[i] == waits[i + 1]);
        }
        assert forall|i: int| 0 <= i < rest.len() implies (#[trigger] rest[i]).last().step == (
        Step::Finished { found: i < rest.len() - 1 }) by {
            assert(rest[i] == waits[i + 1]);
        }
        assert forall|i: int| 0 < i < rest.len() implies #[trigger] goes_on(rest, i) by {
            assert(goes_on(waits, i + 1));
        }
        law_drain_strips_token(token, rest);
        let pos = end.sent.len() as int;
        assert(crate::expect::occurs_first_at(stream, token, pos)) by {
            lemma_found_in_more(end.input, read_in(rest), token, pos);
        }
        lemma_without_first(stream, token, pos);
        assert(stream.take(pos) =~= end.sent);
        assert(stream.skip(pos + token.len()) =~= end.held + read_in(rest));
    }
}

} // verus!
