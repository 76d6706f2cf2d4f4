//! What holds of a turn as a whole, whatever the answers are that it is given.

use vstd::prelude::*;
use crate::compiled::Module;
use crate::repl::turn::{ActionModel, Event, Goal, Phase, StepModel, TurnModel};
use crate::repl::{ReplModel, ValueModel, RUN_SAVE};
use crate::syntax::{Definition, Function, ReplItem};

verus! {

/// The session and the step at which a line arrives once its actions led to
/// `events`, in order.
pub open spec fn played<E>(m: ReplModel, line: Seq<char>, events: Seq<Event<E>>) -> (
    ReplModel,
    StepModel<E>,
)
    decreases events.len(),
{
    if events.len() == 0 {
        (
            crate::repl::turn::begun(m),
            StepModel::Act {
                turn: crate::repl::turn::first_turn(m, line),
                action: ActionModel::Parse { src: crate::repl::turn::read_line(line).0 },
            },
        )
    } else {
        let (now, step) = played(m, line, events.drop_last());
        match step {
            StepModel::Act { turn, .. } => crate::repl::turn::advanced(now, turn, events.last()),
            StepModel::Done { .. } => (now, step),
        }
    }
}

/// The text that is handed to the parser when a line is begun.
pub open spec fn parsed_text<E>(m: ReplModel, line: Seq<char>) -> Seq<char> {
    played::<E>(m, line, Seq::empty()).1->action->Parse_src
}

/// The items that the line was parsed into.
pub open spec fn items_of<E>(events: Seq<Event<E>>) -> Seq<ReplItem> {
    events[0]->items@
}

/// Each of `events` is one that the turn of the line waited for.
pub open spec fn playable<E>(m: ReplModel, line: Seq<char>, events: Seq<Event<E>>) -> bool
    decreases events.len(),
{
    events.len() > 0 ==> {
        let earlier = events.drop_last();
        let (now, step) = played(m, line, earlier);
        &&& playable(m, line, earlier)
        &&& step matches StepModel::Act { turn, .. } && crate::repl::turn::accepted(
            now,
            turn,
            events.last(),
        )
    }
}

/// `now` goes on from `m` within a line: what is not added to stays as it is.
pub open spec fn grown(m: ReplModel, now: ReplModel, type_: bool) -> bool {
    &&& now.iter.0 == m.iter.0
    &&& now.user_import == m.user_import
    &&& now.imports == m.imports
    &&& now.runtime == m.runtime
    &&& m.consts.is_prefix_of(now.consts)
    &&& m.types.is_prefix_of(now.types)
    &&& m.var_index <= now.var_index
    &&& type_ ==> now == (ReplModel { iter: now.iter, ..m })
    &&& m.wf() ==> now.wf()
}

/// The action compiles the whole session, for the item that is being run.
pub open spec fn compiles_session(now: ReplModel, file: Seq<char>, code: Seq<char>) -> bool {
    &&& file == crate::repl::file_name(now.iter)
    &&& crate::repl::source(now).is_prefix_of(code)
}

/// The items that were begun are counted; where a type is asked for and there is not
/// exactly one item, none is begun.
spec fn counts_items(type_: bool, now: ReplModel, turn: TurnModel) -> bool {
    if type_ && turn.items.len() != 1 {
        turn.next == turn.items.len() && now.iter.1 == 0
    } else {
        turn.next <= turn.items.len() && now.iter.1 == turn.next
    }
}

/// Where a turn stands.
spec fn turn_on_course(start: ReplModel, type_: bool, now: ReplModel, turn: TurnModel) -> bool {
    &&& turn.start == start
    &&& turn.type_ == type_
    &&& match turn.phase {
        Phase::Parsing => turn.next == 0 && now == start,
        phase => {
            &&& counts_items(type_, now, turn)
            &&& type_ && turn.items.len() != 1 ==> phase is Printing
        },
    }
    // A turn that shows a type evaluates nothing.
    &&& type_ ==> turn.phase is Parsing || turn.phase is Printing || turn.phase == (
    Phase::Compiling { goal: Goal::ShowType })
}

/// What holds at every step of a turn that began with `start`.
spec fn on_course<E>(start: ReplModel, type_: bool, now: ReplModel, step: StepModel<E>) -> bool {
    &&& grown(start, now, type_)
    &&& match step {
        StepModel::Act { turn, action } => {
            &&& turn_on_course(start, type_, now, turn)
            &&& action matches ActionModel::Compile { file, code } ==> {
                &&& compiles_session(now, file, code)
                &&& turn.phase is Compiling
                &&& 0 < now.iter.1
            }
            &&& match turn.phase {
                Phase::Parsing => action is Parse,
                Phase::Printing => action is Print,
                Phase::Compiling { .. } => action is Compile,
                Phase::Running { .. } => action is RunMain,
                Phase::Probing { .. } => action == ActionModel::HasVar { index: now.var_index },
            }
        },
        StepModel::Done { result } => result is Err ==> now == start,
    }
}

proof fn lemma_grown_transitive(a: ReplModel, b: ReplModel, c: ReplModel, type_: bool)
    requires
        grown(a, b, type_),
        grown(b, c, type_),
    ensures
        grown(a, c, type_),
{
    assert(a.consts =~= c.consts.subrange(0, a.consts.len() as int)) by {
        assert forall|i: int| 0 <= i < a.consts.len() implies a.consts[i] == c.consts[i] by {
            assert(a.consts[i] == b.consts.subrange(0, a.consts.len() as int)[i]);
            assert(b.consts[i] == c.consts.subrange(0, b.consts.len() as int)[i]);
        }
    }
    assert(a.types =~= c.types.subrange(0, a.types.len() as int)) by {
        assert forall|i: int| 0 <= i < a.types.len() implies a.types[i] == c.types[i] by {
            assert(a.types[i] == b.types.subrange(0, a.types.len() as int)[i]);
            assert(b.types[i] == c.types.subrange(0, b.types.len() as int)[i]);
        }
    }
}

/// Counting items adds nothing.
proof fn lemma_grown_counted(m: ReplModel, counted: ReplModel, type_: bool)
    requires
        counted == (ReplModel { iter: (m.iter.0, counted.iter.1), ..m }),
    ensures
        grown(m, counted, type_),
{
    assert(m.consts.is_prefix_of(m.consts));
    assert(m.types.is_prefix_of(m.types));
}

proof fn lemma_item(counted: ReplModel, input: Seq<char>, type_: bool, item: ReplItem)
    ensures
        ({
            let (now, phase, action) = crate::repl::turn::item_begun(
                counted,
                input,
                type_,
                item,
            );
            &&& grown(counted, now, type_)
            &&& now.iter == counted.iter
            &&& phase !is Parsing
            &&& type_ ==> phase is Printing || phase == (Phase::Compiling { goal: Goal::ShowType })
            &&& action matches ActionModel::Compile { file, code } ==> compiles_session(
                now,
                file,
                code,
            ) && phase is Compiling
            &&& phase is Compiling && action is Compile || phase is Printing && action is Print
        }),
{
    lemma_grown_counted(counted, counted, type_);
    match item {
        ReplItem::ReplDefinition(def) => {
            if !type_ {
                let src = crate::syntax::definition_src(def, input);
                assert(counted.consts.is_prefix_of(counted.consts.push(src)));
                assert(counted.types.is_prefix_of(counted.types.push(src)));
                if def is Function && counted.wf() {
                    let f = def->Function_0;
                    crate::table::law_bound_distinct(
                        counted.fns,
                        f.name->0@,
                        crate::repl::turn::function_code(counted, f, input),
                    );
                }
            }
        },
        ReplItem::ReplStatement(_) => {},
    }
}

proof fn lemma_variable(m: ReplModel, name: Seq<char>, module: Module, found: bool)
    ensures
        grown(m, crate::repl::turn::with_variable(m, name, module, found), false),
        crate::repl::turn::with_variable(m, name, module, found).iter == m.iter,
{
    lemma_grown_counted(m, m, false);
    if found && m.wf() {
        let value = ValueModel {
            index: m.var_index,
            type_: crate::compiled::return_type_of(module, RUN_SAVE@),
        };
        crate::table::law_bound_distinct(m.vars, name, value);
    }
}

proof fn lemma_proceed<E>(start: ReplModel, type_: bool, now: ReplModel, turn: TurnModel)
    requires
        grown(start, now, type_),
        turn.start == start,
        turn.type_ == type_,
        counts_items(type_, now, turn),
    ensures
        ({
            let (after, step) = crate::repl::turn::proceeded::<E>(now, turn);
            on_course(start, type_, after, step)
        }),
{
    if turn.next < turn.items.len() {
        let counted = ReplModel { iter: (now.iter.0, now.iter.1 + 1), ..now };
        let item = turn.items[turn.next as int];
        lemma_item(counted, turn.input, turn.type_, item);
        let (after, _, _) = crate::repl::turn::item_begun(counted, turn.input, turn.type_, item);
        lemma_grown_counted(now, counted, type_);
        lemma_grown_transitive(start, now, counted, type_);
        lemma_grown_transitive(start, counted, after, type_);
    }
}

proof fn lemma_advance<E>(
    start: ReplModel,
    type_: bool,
    now: ReplModel,
    turn: TurnModel,
    event: Event<E>,
)
    requires
        start.iter.1 == 0,
        grown(start, now, type_),
        turn_on_course(start, type_, now, turn),
        crate::repl::turn::accepted(now, turn, event),
    ensures
        ({
            let (after, step) = crate::repl::turn::advanced(now, turn, event);
            on_course(start, type_, after, step)
        }),
{
    match (turn.phase, event) {
        (Phase::Parsing, Event::Parsed { items }) => {
            if !(type_ && items@.len() != 1) {
                lemma_proceed::<E>(start, type_, now, TurnModel { items: items@, ..turn });
            }
        },
        (Phase::Printing, Event::Completed) => lemma_proceed::<E>(start, type_, now, turn),
        (Phase::Compiling { goal }, Event::Compiled { .. }) => {
            if goal is Check {
                lemma_proceed::<E>(start, type_, now, turn);
            }
        },
        (Phase::Compiling { .. }, Event::Failed { .. }) => lemma_grown_counted(start, start, type_),
        (Phase::Running { goal, .. }, Event::Completed) => {
            if goal !is Bind {
                lemma_proceed::<E>(start, type_, now, turn);
            }
        },
        (Phase::Probing { name, module }, Event::VarFound { found }) => {
            let bound = crate::repl::turn::with_variable(now, name@, module, found);
            lemma_variable(now, name@, module, found);
            lemma_grown_transitive(start, now, bound, type_);
            lemma_proceed::<E>(start, type_, bound, turn);
        },
        _ => {},
    }
}

proof fn lemma_on_course<E>(m: ReplModel, line: Seq<char>, events: Seq<Event<E>>)
    requires
        playable(m, line, events),
    ensures
        on_course(
            crate::repl::turn::begun(m),
            crate::repl::turn::read_line(line).1,
            played(m, line, events).0,
            played(m, line, events).1,
        ),
    decreases events.len(),
{
    let start = crate::repl::turn::begun(m);
    let type_ = crate::repl::turn::read_line(line).1;
    if events.len() == 0 {
        lemma_grown_counted(start, start, type_);
    } else {
        let earlier = events.drop_last();
        lemma_on_course(m, line, earlier);
        let (now, step) = played(m, line, earlier);
        lemma_advance(start, type_, now, step->turn, events.last());
    }
}

/// A line that fails leaves the session as it was before the line, but for the count
/// of lines.
pub proof fn law_failure_rolls_back<E>(m: ReplModel, line: Seq<char>, events: Seq<Event<E>>)
    requires
        playable(m, line, events),
    ensures
        played(m, line, events).1 matches StepModel::Done { result: Err(_) } ==> {
            &&& played(m, line, events).0 == crate::repl::turn::begun(m)
            &&& played(m, line, events).0 == (ReplModel { iter: (m.iter.0 + 1, 0), ..m })
        },
{
    lemma_on_course(m, line, events);
}

/// Asking for a type changes nothing but the counts.
pub proof fn law_type_changes_nothing<E>(m: ReplModel, line: Seq<char>, events: Seq<Event<E>>)
    requires
        playable(m, line, events),
        crate::repl::turn::read_line(line).1,
    ensures
        played(m, line, events).0 == (ReplModel { iter: played(m, line, events).0.iter, ..m }),
{
    lemma_on_course(m, line, events);
}

/// Asking for a type evaluates nothing.
pub proof fn law_type_evaluates_nothing<E>(m: ReplModel, line: Seq<char>, events: Seq<Event<E>>)
    requires
        playable(m, line, events),
        crate::repl::turn::read_line(line).1,
    ensures
        played(m, line, events).1 matches StepModel::Act { action, .. } ==> action !is RunMain
            && action !is HasVar,
{
    lemma_on_course(m, line, events);
}

/// A turn runs the items that its line was parsed into.
proof fn lemma_items_of_line<E>(m: ReplModel, line: Seq<char>, events: Seq<Event<E>>)
    requires
        playable(m, line, events),
        events.len() > 0,
        played(m, line, events).1 is Act,
    ensures
        events[0] matches Event::Parsed { items } && played(m, line, events).1->turn.items
            == items@,
        played(m, line, events).1->turn.phase !is Parsing,
        played(m, line, events).1->turn.input == parsed_text::<E>(m, line),
    decreases events.len(),
{
    assert(events.drop_last().len() == 0 ==> events.drop_last() =~= Seq::empty());
    let earlier = events.drop_last();
    let (now, step) = played(m, line, earlier);
    let (turn, event) = (step->turn, events.last());
    if earlier.len() > 0 {
        lemma_items_of_line(m, line, earlier);
    }
    match (turn.phase, event) {
        (Phase::Parsing, Event::Parsed { items }) => {
            lemma_proceeding::<E>(now, TurnModel { items: items@, ..turn });
        },
        (Phase::Probing { name, module }, Event::VarFound { found }) => {
            let bound = crate::repl::turn::with_variable(now, name@, module, found);
            lemma_proceeding::<E>(bound, turn);
        },
        _ => lemma_proceeding::<E>(now, turn),
    }
}

/// Throughout a line its items are those that it was parsed into, they are cut out of
/// the very text that was parsed, and those that were begun are counted; where a type is
/// asked for and there is not exactly one item, none is begun.
pub proof fn law_turn_follows_its_line<E>(m: ReplModel, line: Seq<char>, events: Seq<Event<E>>)
    requires
        playable(m, line, events),
        events.len() > 0,
        played(m, line, events).1 is Act,
    ensures
        events[0] is Parsed,
        ({
            let (now, step) = played(m, line, events);
            let turn = step->turn;
            let type_ = crate::repl::turn::read_line(line).1;
            &&& turn.input == parsed_text::<E>(m, line)
            &&& turn.items == items_of(events)
            &&& turn.type_ == type_
            &&& turn.start == crate::repl::turn::begun(m)
            &&& turn.phase !is Parsing
            &&& match turn.phase {
                Phase::Parsing => step->action is Parse,
                Phase::Printing => step->action is Print,
                Phase::Compiling { .. } => step->action is Compile,
                Phase::Running { .. } => step->action is RunMain,
                Phase::Probing { .. } => step->action == ActionModel::HasVar {
                    index: now.var_index,
                },
            }
            &&& turn.next <= items_of(events).len()
            &&& type_ && items_of(events).len() != 1 ==> now.iter.1 == 0
            &&& !(type_ && items_of(events).len() != 1) ==> now.iter.1 == turn.next
        }),
{
    lemma_on_course(m, line, events);
    lemma_items_of_line(m, line, events);
}

/// At the end of a line that ends well every item that it was parsed into is counted;
/// but where a type was asked for and there was not exactly one item, none.
pub proof fn law_every_item_is_counted<E>(m: ReplModel, line: Seq<char>, events: Seq<Event<E>>)
    requires
        playable(m, line, events),
    ensures
        played(m, line, events).1 == (StepModel::<E>::Done { result: Ok(()) }) ==> {
            &&& events.len() > 0
            &&& events[0] matches Event::Parsed { items } && played(m, line, events).0.iter.1 == (
            if crate::repl::turn::read_line(line).1 && items@.len() != 1 {
                0
            } else {
                items@.len()
            })
        },
{
    if played(m, line, events).1 == (StepModel::<E>::Done { result: Ok(()) }) {
        let earlier = events.drop_last();
        let (now, step) = played(m, line, earlier);
        lemma_on_course(m, line, earlier);
        if earlier.len() > 0 {
            lemma_items_of_line(m, line, earlier);
        }
        match (step->turn.phase, events.last()) {
            (Phase::Probing { name, module }, Event::VarFound { found }) => {
                lemma_variable(now, name@, module, found);
            },
            _ => {},
        }
    }
}

/// A line takes nothing away: imports, constants and types stay, and what comes is
/// put after them; the session stays valid; the lines are counted.
pub proof fn law_line_only_adds<E>(m: ReplModel, line: Seq<char>, events: Seq<Event<E>>)
    requires
        playable(m, line, events),
    ensures
        grown(
            crate::repl::turn::begun(m),
            played(m, line, events).0,
            crate::repl::turn::read_line(line).1,
        ),
        played(m, line, events).0.iter.0 == m.iter.0 + 1,
        played(m, line, events).0.user_import == m.user_import,
        played(m, line, events).0.imports == m.imports,
        played(m, line, events).0.runtime == m.runtime,
        m.consts.is_prefix_of(played(m, line, events).0.consts),
        m.types.is_prefix_of(played(m, line, events).0.types),
        m.var_index <= played(m, line, events).0.var_index,
        m.wf() ==> played(m, line, events).0.wf(),
{
    lemma_on_course(m, line, events);
}

/// Whatever is compiled is compiled together with all that was defined so far.
pub proof fn law_compiles_session<E>(m: ReplModel, line: Seq<char>, events: Seq<Event<E>>)
    requires
        playable(m, line, events),
    ensures
        played(m, line, events).1 matches StepModel::Act {
            action: ActionModel::Compile { file, code },
            ..
        } ==> compiles_session(played(m, line, events).0, file, code),
{
    lemma_on_course(m, line, events);
}

/// Within a turn items are counted upwards, and each compilation is that of another
/// item.
proof fn lemma_counts<E>(m: ReplModel, line: Seq<char>, events: Seq<Event<E>>, i: int)
    requires
        playable(m, line, events),
        0 <= i < events.len(),
        played(m, line, events).1 is Act,
    ensures
        played(m, line, events.take(i)).0.iter.1 <= played(m, line, events).0.iter.1,
        played(m, line, events).1->action is Compile ==> played(
            m,
            line,
            events.take(i),
        ).0.iter.1 < played(m, line, events).0.iter.1,
    decreases events.len(),
{
    let earlier = events.drop_last();
    let (now, step) = played(m, line, earlier);
    lemma_on_course(m, line, earlier);
    if i < events.len() - 1 {
        assert(earlier.take(i) =~= events.take(i));
        lemma_counts(m, line, earlier, i);
    } else {
        assert(events.take(i) =~= earlier);
    }
    let turn = step->turn;
    let event = events.last();
    match (turn.phase, event) {
        (Phase::Probing { name, module }, Event::VarFound { found }) => {
            lemma_variable(now, name@, module, found);
            let bound = crate::repl::turn::with_variable(now, name@, module, found);
            lemma_proceeding::<E>(bound, turn);
        },
        (Phase::Parsing, Event::Parsed { items }) => {
            lemma_proceeding::<E>(now, TurnModel { items: items@, ..turn });
        },
        _ => {
            lemma_proceeding::<E>(now, turn);
        },
    }
}

/// A turn that goes on counts one more item, of those that it has.
pub proof fn lemma_proceeding<E>(now: ReplModel, turn: TurnModel)
    ensures
        ({
            let (after, step) = crate::repl::turn::proceeded::<E>(now, turn);
            step matches StepModel::Act { turn: after_turn, .. } ==> {
                &&& after.iter.1 == now.iter.1 + 1
                &&& after_turn.items == turn.items
                &&& after_turn.phase !is Parsing
                &&& after_turn.input == turn.input
            }
        }),
{
    if turn.next < turn.items.len() {
        let counted = ReplModel { iter: (now.iter.0, now.iter.1 + 1), ..now };
        lemma_item(counted, turn.input, turn.type_, turn.items[turn.next as int]);
    }
}

/// Two items with the same file have the same counts.
pub proof fn law_module_name_injective(a: (nat, nat), b: (nat, nat))
    requires
        crate::repl::file_name(a) == crate::repl::file_name(b),
    ensures
        a == b,
{
    reveal_strlit("repl");
    reveal_strlit("_");
    reveal_strlit(".gleam");
    let (x, y) = (crate::text::decimal(a.0), crate::text::decimal(b.0));
    let file = crate::repl::file_name(a);
    crate::text::lemma_decimal_digits(a.0);
    crate::text::lemma_decimal_digits(b.0);
    // The first number ends at the first character after it that is no digit.
    assert(file[4 + x.len() as int] == '_');
    assert(file[4 + y.len() as int] == '_');
    if x.len() < y.len() {
        assert(file[4 + x.len() as int] == y[x.len() as int]);
    }
    if y.len() < x.len() {
        assert(file[4 + y.len() as int] == x[y.len() as int]);
    }
    assert(x =~= file.subrange(4, 4 + x.len() as int));
    assert(y =~= file.subrange(4, 4 + y.len() as int));
    crate::text::law_decimal_injective(a.0, b.0);
    let (v, w) = (crate::text::decimal(a.1), crate::text::decimal(b.1));
    assert(v =~= file.subrange(5 + x.len() as int, file.len() - 6));
    assert(w =~= file.subrange(5 + x.len() as int, file.len() - 6));
    crate::text::law_decimal_injective(a.1, b.1);
}

/// Within a line, no two compilations use the same file.
pub proof fn law_files_differ_within_line<E>(
    m: ReplModel,
    line: Seq<char>,
    events: Seq<Event<E>>,
    i: int,
)
    requires
        playable(m, line, events),
        0 <= i < events.len(),
    ensures
        match (played(m, line, events.take(i)).1, played(m, line, events).1) {
            (
                StepModel::Act { action: ActionModel::Compile { file: earlier, .. }, .. },
                StepModel::Act { action: ActionModel::Compile { file: later, .. }, .. },
            ) => earlier != later,
            _ => true,
        },
{
    lemma_playable_prefix(m, line, events, i);
    lemma_on_course(m, line, events);
    lemma_on_course(m, line, events.take(i));
    let (a, first) = played(m, line, events.take(i));
    let (b, second) = played(m, line, events);
    if first is Act && second is Act && first->action is Compile && second->action is Compile {
        lemma_counts(m, line, events, i);
        if first->action->Compile_file == second->action->Compile_file {
            law_module_name_injective(a.iter, b.iter);
        }
    }
}

proof fn lemma_playable_prefix<E>(m: ReplModel, line: Seq<char>, events: Seq<Event<E>>, i: int)
    requires
        playable(m, line, events),
        0 <= i <= events.len(),
    ensures
        playable(m, line, events.take(i)),
    decreases events.len(),
{
    if i < events.len() {
        assert(events.drop_last().take(i) =~= events.take(i));
        lemma_playable_prefix(m, line, events.drop_last(), i);
    } else {
        assert(events.take(i) =~= events);
    }
}

/// Where a beginning of `events` is not waited for, neither are all of them.
pub proof fn lemma_not_playable<E>(m: ReplModel, line: Seq<char>, events: Seq<Event<E>>, i: int)
    requires
        0 <= i <= events.len(),
    ensures
        !playable(m, line, events.take(i)) ==> !playable(m, line, events),
{
    if playable(m, line, events) {
        lemma_playable_prefix(m, line, events, i);
    }
}

/// Two lines that begin at different counts compile nothing under the same file.
pub proof fn law_files_differ_between_lines<E>(
    m: ReplModel,
    line: Seq<char>,
    events: Seq<Event<E>>,
    other: ReplModel,
    other_line: Seq<char>,
    other_events: Seq<Event<E>>,
)
    requires
        playable(m, line, events),
        playable(other, other_line, other_events),
        m.iter.0 != other.iter.0,
    ensures
        match (played(m, line, events).1, played(other, other_line, other_events).1) {
            (
                StepModel::Act { action: ActionModel::Compile { file: one, .. }, .. },
                StepModel::Act { action: ActionModel::Compile { file: two, .. }, .. },
            ) => one != two,
            _ => true,
        },
{
    lemma_on_course(m, line, events);
    lemma_on_course(other, other_line, other_events);
    let (a, first) = played(m, line, events);
    let (b, second) = played(other, other_line, other_events);
    if first is Act && second is Act && first->action is Compile && second->action is Compile {
        if first->action->Compile_file == second->action->Compile_file {
            law_module_name_injective(a.iter, b.iter);
        }
    }
}

/// Only a `let` whose value was saved touches the variables: its name then stands
/// for the value saved last, and every other name for what it stood for. A failed
/// compilation gives back the variables of the start of the line.
pub proof fn law_only_let_binds<E>(
    m: ReplModel,
    turn: TurnModel,
    event: Event<E>,
    other: Seq<char>,
)
    requires
        crate::repl::turn::accepted(m, turn, event),
    ensures
        ({
            let after = crate::repl::turn::advanced(m, turn, event).0;
            match (turn.phase, event) {
                (Phase::Probing { name, module }, Event::VarFound { found: true }) => {
                    &&& crate::table::lookup(after.vars, name@) == Some(
                        ValueModel {
                            index: m.var_index,
                            type_: crate::compiled::return_type_of(module, RUN_SAVE@),
                        },
                    )
                    &&& other != name@ ==> crate::table::lookup(after.vars, other)
                        == crate::table::lookup(m.vars, other)
                    &&& after.var_index == m.var_index + 1
                },
                (Phase::Compiling { .. }, Event::Failed { .. }) => after == turn.start,
                _ => after.vars == m.vars && after.var_index == m.var_index,
            }
        }),
{
    match (turn.phase, event) {
        (Phase::Probing { name, module }, Event::VarFound { found: true }) => {
            crate::table::law_bound_lookup(
                m.vars,
                name@,
                ValueModel {
                    index: m.var_index,
                    type_: crate::compiled::return_type_of(module, RUN_SAVE@),
                },
                other,
            );
        },
        _ => {},
    }
}

/// A function that is defined takes the place of the one of its name, and leaves
/// every other as it is.
pub proof fn law_function_redefined(m: ReplModel, f: Function, input: Seq<char>, other: Seq<char>)
    requires
        f.name is Some,
    ensures
        ({
            let after = crate::repl::turn::with_definition(m, Definition::Function(f), input);
            &&& crate::table::lookup(after.fns, f.name->0@) == Some(
                crate::repl::turn::function_code(m, f, input),
            )
            &&& other != f.name->0@ ==> crate::table::lookup(after.fns, other)
                == crate::table::lookup(m.fns, other)
        }),
{
    crate::table::law_bound_lookup(
        m.fns,
        f.name->0@,
        crate::repl::turn::function_code(m, f, input),
        other,
    );
}

/// A variable is loaded unless it is excluded, whatever stands around it.
pub proof fn law_lets_load_each(
    vars: Seq<(Seq<char>, ValueModel)>,
    exclude: Seq<String>,
    i: int,
)
    requires
        0 <= i < vars.len(),
    ensures
        crate::repl::lets(vars, exclude) == crate::repl::lets(vars.take(i), exclude) + (
        if crate::repl::names_contain(exclude, vars[i].0) {
            Seq::empty()
        } else {
            crate::repl::let_line(vars[i].0, vars[i].1)
        }) + crate::repl::lets(vars.skip(i + 1), exclude),
    decreases vars.len(),
{
    if i == vars.len() - 1 {
        assert(vars.take(i) =~= vars.drop_last());
        assert(vars.skip(i + 1) =~= Seq::empty());
        assert(crate::repl::lets(vars.skip(i + 1), exclude) =~= Seq::empty());
    } else {
        let shorter = vars.drop_last();
        law_lets_load_each(shorter, exclude, i);
        assert(shorter.take(i) =~= vars.take(i));
        assert(shorter.skip(i + 1) =~= vars.skip(i + 1).drop_last());
        assert(vars.skip(i + 1).last() == vars.last());
    }
    assert(crate::repl::lets(vars, exclude) =~= crate::repl::lets(vars.take(i), exclude) + (
    if crate::repl::names_contain(exclude, vars[i].0) {
        Seq::empty()
    } else {
        crate::repl::let_line(vars[i].0, vars[i].1)
    }) + crate::repl::lets(vars.skip(i + 1), exclude));
}

/// How many more answers a turn can take, at most.
pub open spec fn answers_left(turn: TurnModel) -> int {
    3 * (turn.items.len() - turn.next) + match turn.phase {
        Phase::Parsing => 0int,
        Phase::Printing => 1,
        Phase::Compiling { .. } => 3,
        Phase::Running { .. } => 2,
        Phase::Probing { .. } => 1,
    }
}

/// A line comes to its end: once it is parsed, each answer brings it nearer.
pub proof fn law_turn_ends<E>(m: ReplModel, turn: TurnModel, event: Event<E>)
    requires
        crate::repl::turn::accepted(m, turn, event),
        turn.phase !is Parsing,
        turn.next <= turn.items.len(),
    ensures
        crate::repl::turn::advanced(m, turn, event).1 matches StepModel::Act {
            turn: after,
            ..
        } ==> {
            &&& 0 <= answers_left(after) < answers_left(turn)
            &&& after.phase !is Parsing
            &&& after.next <= after.items.len()
        },
{
}

/// A line and the events that its actions led to.
pub struct PlayedLine<E> {
    pub line: Seq<char>,
    pub events: Seq<Event<E>>,
}

/// The session once `lines` were run, in order.
pub open spec fn session_after<E>(m: ReplModel, lines: Seq<PlayedLine<E>>) -> ReplModel
    decreases lines.len(),
{
    if lines.len() == 0 {
        m
    } else {
        played(
            session_after(m, lines.drop_last()),
            lines.last().line,
            lines.last().events,
        ).0
    }
}

/// Each of `lines` was given the events that it waited for.
pub open spec fn is_session<E>(m: ReplModel, lines: Seq<PlayedLine<E>>) -> bool {
    forall|i: int|
        0 <= i < lines.len() ==> playable(
            session_after(m, lines.take(i)),
            (#[trigger] lines[i]).line,
            lines[i].events,
        )
}

/// However many lines are run: the session stays valid, each line is counted, and
/// what the session started with stays.
pub proof fn law_session_stays_valid<E>(m: ReplModel, lines: Seq<PlayedLine<E>>)
    requires
        is_session(m, lines),
    ensures
        m.wf() ==> session_after(m, lines).wf(),
        session_after(m, lines).iter.0 == m.iter.0 + lines.len(),
        session_after(m, lines).user_import == m.user_import,
        session_after(m, lines).imports == m.imports,
        session_after(m, lines).runtime == m.runtime,
    decreases lines.len(),
{
    if lines.len() > 0 {
        let earlier = lines.drop_last();
        assert forall|i: int| 0 <= i < earlier.len() implies playable(
            session_after(m, earlier.take(i)),
            (#[trigger] earlier[i]).line,
            earlier[i].events,
        ) by {
            assert(earlier.take(i) =~= lines.take(i));
            assert(earlier[i] == lines[i]);
        }
        law_session_stays_valid(m, earlier);
        let last = lines.len() - 1;
        assert(lines.take(last) =~= earlier);
        assert(lines[last] == lines.last());
        law_line_only_adds(session_after(m, earlier), lines.last().line, lines.last().events);
    }
}

/// In a whole session no two compilations use the same file: the one after `k`
/// events of line `i`, and the one after `l` events of line `j`.
pub proof fn law_session_files_differ<E>(
    m: ReplModel,
    lines: Seq<PlayedLine<E>>,
    i: int,
    k: int,
    j: int,
    l: int,
)
    requires
        is_session(m, lines),
        0 <= i < lines.len(),
        0 <= j < lines.len(),
        0 <= k <= lines[i].events.len(),
        0 <= l <= lines[j].events.len(),
        i != j || k != l,
    ensures
        match (
            played(session_after(m, lines.take(i)), lines[i].line, lines[i].events.take(k)).1,
            played(session_after(m, lines.take(j)), lines[j].line, lines[j].events.take(l)).1,
        ) {
            (
                StepModel::Act { action: ActionModel::Compile { file: one, .. }, .. },
                StepModel::Act { action: ActionModel::Compile { file: two, .. }, .. },
            ) => one != two,
            _ => true,
        },
{
    let (a, b) = (session_after(m, lines.take(i)), session_after(m, lines.take(j)));
    lemma_playable_prefix(a, lines[i].line, lines[i].events, k);
    lemma_playable_prefix(b, lines[j].line, lines[j].events, l);
    if i == j {
        let (short, long) = if k < l {
            (k, l)
        } else {
            (l, k)
        };
        let events = lines[i].events.take(long);
        assert(events.take(short) =~= lines[i].events.take(short));
        law_files_differ_within_line(a, lines[i].line, events, short);
    } else {
        lemma_session_prefix(m, lines, i);
        lemma_session_prefix(m, lines, j);
        law_session_stays_valid(m, lines.take(i));
        law_session_stays_valid(m, lines.take(j));
        law_files_differ_between_lines(
            a,
            lines[i].line,
            lines[i].events.take(k),
            b,
            lines[j].line,
            lines[j].events.take(l),
        );
    }
}

proof fn lemma_session_prefix<E>(m: ReplModel, lines: Seq<PlayedLine<E>>, n: int)
    requires
        is_session(m, lines),
        0 <= n <= lines.len(),
    ensures
        is_session(m, lines.take(n)),
{
    let prefix = lines.take(n);
    assert forall|i: int| 0 <= i < prefix.len() implies playable(
        session_after(m, prefix.take(i)),
        (#[trigger] prefix[i]).line,
        prefix[i].events,
    ) by {
        assert(prefix.take(i) =~= lines.take(i));
        assert(prefix[i] == lines[i]);
    }
}

} // verus!
