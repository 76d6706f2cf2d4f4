//! Running a line whose answers are at hand.

use vstd::prelude::*;
use crate::repl::turn::{Event, Step};
use crate::repl::Repl;

verus! {

impl Repl {
    /// Runs a line on `events`, the answers to its actions in order, and gives the step
    /// at which the line arrives. Where one of them is not an answer that the line waits
    /// for, it gives nothing, and the session is where the answers before it led. Nor does
    /// it give anything, or change the session, where no more lines can be counted.
    pub fn replay<E>(&mut self, line: &str, events: Vec<Event<E>>) -> (res: Option<Step<E>>)
        ensures
            res is Some <==> old(self)@.iter.0 < usize::MAX && crate::repl::turn_laws::playable(
                old(self)@,
                line@,
                events@,
            ),
            res matches Some(step) ==> (final(self)@, step@) == crate::repl::turn_laws::played(
                old(self)@,
                line@,
                events@,
            ),
            old(self)@.iter.0 >= usize::MAX ==> final(self)@ == old(self)@,
            res is None && old(self)@.iter.0 < usize::MAX ==> exists|n: int|
                {
                    &&& 0 <= n < events@.len()
                    &&& crate::repl::turn_laws::playable(
                        old(self)@,
                        line@,
                        #[trigger] events@.take(n),
                    )
                    &&& !crate::repl::turn_laws::playable(old(self)@, line@, events@.take(n + 1))
                    &&& final(self)@ == crate::repl::turn_laws::played(
                        old(self)@,
                        line@,
                        events@.take(n),
                    ).0
                },
    {
        let ghost all = events@;
        let ghost m = self@;
        if !self.can_run() {
            return None;
        }
        let (turn, action) = self.run(line);
        let mut step: Step<E> = Step::Act { turn, action };
        let mut rest = events;
        let ghost mut n: int = 0;
        assert(all.take(0) =~= Seq::empty());
        while rest.len() > 0
            invariant
                0 <= n <= all.len(),
                rest@ == all.skip(n),
                crate::repl::turn_laws::playable(m, line@, all.take(n)),
                (self@, step@) == crate::repl::turn_laws::played(m, line@, all.take(n)),
                m == old(self)@,
                m.iter.0 < usize::MAX,
                all == events@,
            decreases rest@.len(),
        {
            let event = rest.remove(0);
            proof {
                assert(event == all[n]);
                assert(all.take(n + 1).drop_last() =~= all.take(n));
                assert(all.take(n + 1).last() == event);
                assert(rest@ =~= all.skip(n + 1));
                crate::repl::turn_laws::lemma_not_playable(m, line@, all, n + 1);
                assert(events@.take(n) == all.take(n));
            }
            match step {
                Step::Act { turn, .. } => {
                    if !self.accepts(&turn, &event) {
                        return None;
                    }
                    step = self.resume(turn, event);
                },
                Step::Done { .. } => {
                    return None;
                },
            }
            proof {
                n = n + 1;
            }
        }
        assert(all.take(n) =~= all);
        Some(step)
    }
}

} // verus!
