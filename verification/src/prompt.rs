//! Reading lines: what is done with each, and when a session ends.

use vstd::prelude::*;
use crate::text::same;

verus! {

/// What a line is asked for with.
pub const PROMPT: &'static str = "$ ";

/// The line that ends a session.
pub const QUIT: &'static str = ":quit";

/// What came of asking for a line.
#[derive(Debug)]
pub enum Reading {
    /// A line was entered.
    Line { input: String },
    /// The reading was interrupted.
    Interrupted,
    /// There are no more lines.
    EndOfInput,
    /// The reading failed.
    Failed,
}

/// What is done about it.
#[derive(Clone, Copy, Debug, PartialEq, Eq, Structural)]
pub enum Reaction {
    /// Ask again.
    Ignore,
    /// Keep the line in the history and run it.
    Run,
    /// End the session; report why, where `report` holds, and save the history,
    /// where `save_history` holds.
    Leave { report: bool, save_history: bool },
}

/// What is done about a reading: a blank line is ignored, and every other line is
/// run but the one that ends the session. The history is saved unless the reading
/// was interrupted; only a failure is reported.
pub open spec fn reaction(reading: Reading) -> Reaction {
    match reading {
        Reading::Line { input } => if crate::text::trimmed(input@).len() == 0 {
            Reaction::Ignore
        } else if crate::text::trimmed(input@) == QUIT@ {
            Reaction::Leave { report: false, save_history: true }
        } else {
            Reaction::Run
        },
        Reading::Interrupted => Reaction::Leave { report: false, save_history: false },
        Reading::EndOfInput => Reaction::Leave { report: false, save_history: true },
        Reading::Failed => Reaction::Leave { report: true, save_history: true },
    }
}

/// Decides what is done about a reading.
pub fn react(reading: &Reading) -> (res: Reaction)
    ensures
        res == reaction(*reading),
{
    match reading {
        Reading::Line { input } => {
            let line = input.as_str().trim();
            if line.is_empty() {
                Reaction::Ignore
            } else if same(line, QUIT) {
                Reaction::Leave { report: false, save_history: true }
            } else {
                Reaction::Run
            }
        },
        Reading::Interrupted => Reaction::Leave { report: false, save_history: false },
        Reading::EndOfInput => Reaction::Leave { report: false, save_history: true },
        Reading::Failed => Reaction::Leave { report: true, save_history: true },
    }
}

/// A line counts for what is left without the white space around it: nothing is ignored,
/// `:quit` ends the session quietly, and anything else is run.
pub proof fn law_line_counts_without_margins(
    left: Seq<char>,
    text: Seq<char>,
    right: Seq<char>,
    input: String,
)
    requires
        crate::text_laws::is_blank(left),
        crate::text_laws::is_blank(right),
        crate::text_laws::has_no_margin(text),
        input@ == left + text + right,
    ensures
        reaction(Reading::Line { input }) is Ignore <==> text.len() == 0,
        reaction(Reading::Line { input }) is Leave <==> text == ":quit"@,
        reaction(Reading::Line { input }) is Leave ==> reaction(Reading::Line { input })
            == reaction(Reading::EndOfInput),
{
    reveal_strlit(":quit");
    crate::text_laws::law_trimming_takes_margins(left, text, right);
    assert(text.len() == 0 ==> text != ":quit"@);
}

/// A session goes on exactly as long as lines are read. When it ends, the history is saved
/// unless the reading was interrupted, and only a failure is reported.
pub proof fn law_session_ends_without_lines(reading: Reading)
    requires
        reading !is Line,
    ensures
        reaction(reading) matches Reaction::Leave { report, save_history } && (report <==> reading
            is Failed) && (save_history <==> reading !is Interrupted),
{
}

} // verus!
