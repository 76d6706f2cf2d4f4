//! What running a line is for: each of its items is compiled, from its own text, in the
//! midst of the session, and what comes of it is kept.

use vstd::prelude::*;
use vstd::utf8::*;
use crate::repl::turn::{ActionModel, Event, Phase, TurnModel};
use crate::repl::{ReplModel, ValueModel};
use crate::syntax::{Definition, ReplItem, Statement};

verus! {

/// A line that begins with `:type `, white space aside, asks for the type of what
/// follows it; any other line is parsed as it is. Nothing else happens when a line is
/// begun, but that it is counted.
pub proof fn law_type_command_is_taken_off<E>(m: ReplModel, line: Seq<char>)
    ensures
        ({
            let (now, step) = crate::repl::turn_laws::played::<E>(m, line, Seq::empty());
            let trimmed = crate::text::trimmed(line);
            &&& now == (ReplModel { iter: (m.iter.0 + 1, 0), ..m })
            &&& step is Act
            &&& step->action == (ActionModel::Parse { src: crate::repl::turn_laws::parsed_text::<E>(m, line) })
            &&& step->turn.input == crate::repl::turn_laws::parsed_text::<E>(m, line)
            &&& step->turn.type_ ==> trimmed == ":type "@ + crate::repl::turn_laws::parsed_text::<E>(m, line)
            &&& !step->turn.type_ ==> crate::repl::turn_laws::parsed_text::<E>(m, line) == line
            &&& forall|rest: Seq<char>| trimmed == #[trigger] (":type "@ + rest) ==> step->turn.type_
        }),
{
    let trimmed = crate::text::trimmed(line);
    let command = ":type "@;
    assert forall|rest: Seq<char>| trimmed == #[trigger] (command + rest) implies command.is_prefix_of(
        trimmed,
    ) by {
        assert((command + rest).subrange(0, command.len() as int) =~= command);
    }
    if command.is_prefix_of(trimmed) {
        assert(trimmed =~= command + trimmed.skip(command.len() as int));
    }
}

/// The type of the line is asked for.
pub open spec fn asks_for_type<E>(m: ReplModel, line: Seq<char>) -> bool {
    crate::repl::turn_laws::played::<E>(m, line, Seq::empty()).1->turn.type_
}

/// The item that the last of `events` led to.
pub open spec fn current_item<E>(m: ReplModel, line: Seq<char>, events: Seq<Event<E>>) -> ReplItem {
    crate::repl::turn_laws::items_of(events)[crate::repl::turn_laws::played(m, line, events).0.iter.1 - 1]
}

/// The session before the last of `events`.
pub open spec fn session_before<E>(m: ReplModel, line: Seq<char>, events: Seq<Event<E>>) -> ReplModel {
    crate::repl::turn_laws::played(m, line, events.drop_last()).0
}

/// The line has come to a compilation.
pub open spec fn compiles<E>(m: ReplModel, line: Seq<char>, events: Seq<Event<E>>) -> bool {
    &&& crate::repl::turn_laws::playable(m, line, events)
    &&& crate::repl::turn_laws::played(m, line, events).1 is Act
    &&& crate::repl::turn_laws::played(m, line, events).1->action is Compile
}

/// The code that is compiled.
pub open spec fn compiled_code<E>(m: ReplModel, line: Seq<char>, events: Seq<Event<E>>) -> Seq<char> {
    crate::repl::turn_laws::played(m, line, events).1->action->code
}

/// `text` is what stands at the bytes `start..end` of the parsed text.
pub open spec fn is_text_at<E>(
    m: ReplModel,
    line: Seq<char>,
    text: Seq<char>,
    start: int,
    end: int,
) -> bool {
    &&& 0 <= start <= end <= encode_utf8(crate::repl::turn_laws::parsed_text::<E>(m, line)).len()
    &&& encode_utf8(text) == encode_utf8(crate::repl::turn_laws::parsed_text::<E>(m, line)).subrange(start, end)
}

/// What the last event did to the session before the item was begun: it was counted,
/// and a variable may have been bound.
pub open spec fn counted<E>(m: ReplModel, line: Seq<char>, events: Seq<Event<E>>) -> ReplModel {
    let now = crate::repl::turn_laws::played(m, line, events).0;
    ReplModel {
        iter: now.iter,
        vars: now.vars,
        var_index: now.var_index,
        ..session_before(m, line, events)
    }
}

proof fn lemma_begun_keeps_variables(m: ReplModel, input: Seq<char>, type_: bool, item: ReplItem)
    ensures
        crate::repl::turn::item_begun(m, input, type_, item).0.vars == m.vars,
        crate::repl::turn::item_begun(m, input, type_, item).0.var_index == m.var_index,
        crate::repl::turn::item_begun(m, input, type_, item).0.iter == m.iter,
{
}

/// A turn that goes on begins the next item.
proof fn lemma_next_item<E>(before: ReplModel, now: ReplModel, turn: TurnModel)
    requires
        now == (ReplModel { vars: now.vars, var_index: now.var_index, ..before }),
        turn.next < turn.items.len(),
    ensures
        ({
            let (after, step) = crate::repl::turn::proceeded::<E>(now, turn);
            let counted = ReplModel {
                iter: after.iter,
                vars: after.vars,
                var_index: after.var_index,
                ..before
            };
            &&& step->turn.next == turn.next + 1
            &&& (after, step->turn.phase, step->action) == crate::repl::turn::item_begun(
                counted,
                turn.input,
                turn.type_,
                turn.items[turn.next as int],
            )
        }),
{
    let next = ReplModel { iter: (now.iter.0, now.iter.1 + 1), ..now };
    lemma_begun_keeps_variables(next, turn.input, turn.type_, turn.items[turn.next as int]);
}

/// What is compiled is the item that was just begun.
pub proof fn lemma_compiling<E>(m: ReplModel, line: Seq<char>, events: Seq<Event<E>>)
    requires
        compiles(m, line, events),
    ensures
        events.len() > 0,
        events[0] is Parsed,
        ({
            let (now, step) = crate::repl::turn_laws::played(m, line, events);
            let type_ = asks_for_type::<E>(m, line);
            &&& 1 <= now.iter.1 <= crate::repl::turn_laws::items_of(events).len()
            &&& crate::repl::turn::item_fits(
                crate::repl::turn_laws::parsed_text::<E>(m, line),
                type_,
                current_item(m, line, events),
            )
            &&& (now, step->turn.phase, step->action) == crate::repl::turn::item_begun(
                counted(m, line, events),
                crate::repl::turn_laws::parsed_text::<E>(m, line),
                type_,
                current_item(m, line, events),
            )
        }),
{
    let earlier = events.drop_last();
    let (before, earlier_step) = crate::repl::turn_laws::played(m, line, earlier);
    let turn = earlier_step->turn;
    let event = events.last();
    assert(events.len() > 0);
    assert(earlier.len() == 0 ==> earlier =~= Seq::empty());
    crate::repl::turn_laws::law_turn_follows_its_line(m, line, events);
    if earlier.len() > 0 {
        crate::repl::turn_laws::law_turn_follows_its_line(m, line, earlier);
        assert(earlier[0] == events[0]);
    }
    match (turn.phase, event) {
        (Phase::Parsing, Event::Parsed { items }) => {
            lemma_next_item::<E>(before, before, TurnModel { items: items@, ..turn });
        },
        (Phase::Probing { name, module }, Event::VarFound { found }) => {
            let bound = crate::repl::turn::with_variable(before, name@, module, found);
            lemma_next_item::<E>(before, bound, turn);
        },
        _ => {
            lemma_next_item::<E>(before, before, turn);
        },
    }
}

/// What is cut out of the parsed text stands there.
proof fn lemma_cut<E>(m: ReplModel, line: Seq<char>, start: int, end: int)
    requires
        crate::text::sliceable(crate::repl::turn_laws::parsed_text::<E>(m, line), start, end),
    ensures
        is_text_at::<E>(
            m,
            line,
            crate::text::sliced(crate::repl::turn_laws::parsed_text::<E>(m, line), start, end),
            start,
            end,
        ),
{
    let parts = crate::text_laws::law_cut_parts_line(
        crate::repl::turn_laws::parsed_text::<E>(m, line),
        start,
        end,
    );
}

/// `code` is the source of the session and a function that loads every variable of the
/// session and then shows the value of a block that holds `text` and nothing else.
pub open spec fn shows_value_of(
    now: ReplModel,
    code: Seq<char>,
    text: Seq<char>,
    gaps: Seq<Seq<char>>,
) -> bool {
    &&& crate::repl::source_laws::are_gaps(gaps)
    &&& code == crate::repl::source(now) + crate::repl::source_laws::evaluating_function(
        gaps,
        "repl_main"@,
        crate::repl::source_laws::load_statements(now.vars),
        "repl_print({"@,
        text,
        "})"@,
    )
}

/// `code` is the source of the session, the function `repl_main`, which calls `run_save`
/// and does nothing else, and the function `run_save`, which loads every variable of the
/// session and then saves and shows the value of a block that holds `text` and nothing
/// else.
pub open spec fn saves_value_of(
    now: ReplModel,
    code: Seq<char>,
    text: Seq<char>,
    gaps: Seq<Seq<char>>,
    outer: Seq<Seq<char>>,
) -> bool {
    &&& crate::repl::source_laws::are_gaps(gaps)
    &&& outer.len() == 4
    &&& forall|i: int| 0 <= i < 4 ==> crate::text_laws::is_blank(#[trigger] outer[i])
    &&& outer[2].contains('\n')
    &&& code == crate::repl::source(now) + outer[0] + "pub fn repl_main() {"@ + outer[1]
        + "run_save()"@ + outer[2] + "Nil"@ + outer[3] + "}"@
        + crate::repl::source_laws::evaluating_function(
        gaps,
        "run_save"@,
        crate::repl::source_laws::load_statements(now.vars),
        "repl_print(repl_save({"@,
        text,
        "}))"@,
    )
}

/// An expression is compiled from its own text: what is evaluated is what stands at its
/// place in the line, and nothing of the other items of the line. So is a `let` whose
/// value is discarded, up to the end of its value.
pub proof fn law_expression_compiles_its_text<E>(
    m: ReplModel,
    line: Seq<char>,
    events: Seq<Event<E>>,
) -> (res: (Seq<char>, Seq<Seq<char>>))
    requires
        compiles(m, line, events),
        !asks_for_type::<E>(m, line),
        match current_item(m, line, events) {
            ReplItem::ReplStatement(Statement::Expression { .. }) => true,
            ReplItem::ReplStatement(Statement::Assignment { pattern, .. }) => pattern is Discard,
            _ => false,
        },
    ensures
        match current_item(m, line, events) {
            ReplItem::ReplStatement(Statement::Expression { location }) => is_text_at::<E>(
                m,
                line,
                res.0,
                location.start as int,
                location.end as int,
            ),
            ReplItem::ReplStatement(
                Statement::Assignment { location, value_location, .. },
            ) => is_text_at::<E>(
                m,
                line,
                res.0,
                location.start as int,
                value_location.end as int,
            ),
            _ => false,
        },
        shows_value_of(
            crate::repl::turn_laws::played(m, line, events).0,
            compiled_code(m, line, events),
            res.0,
            res.1,
        ),
{
    lemma_compiling(m, line, events);
    let now = crate::repl::turn_laws::played(m, line, events).0;
    let input = crate::repl::turn_laws::parsed_text::<E>(m, line);
    let (start, end) = match current_item(m, line, events) {
        ReplItem::ReplStatement(Statement::Assignment { location, value_location, .. }) => (
            location.start as int,
            value_location.end as int,
        ),
        ReplItem::ReplStatement(Statement::Expression { location }) => (
            location.start as int,
            location.end as int,
        ),
        _ => (0, 0),
    };
    lemma_cut::<E>(m, line, start, end);
    let text = crate::text::sliced(input, start, end);
    let gaps = crate::repl::source_laws::law_expression_is_evaluated_in_session(now, text);
    (text, gaps)
}

/// A `let` is compiled from its own text, up to the end of its value.
pub proof fn law_let_compiles_its_text<E>(m: ReplModel, line: Seq<char>, events: Seq<Event<E>>) -> (
    res: (Seq<char>, Seq<Seq<char>>, Seq<Seq<char>>))
    requires
        compiles(m, line, events),
        !asks_for_type::<E>(m, line),
        match current_item(m, line, events) {
            ReplItem::ReplStatement(Statement::Assignment { pattern, .. }) => pattern is Variable,
            _ => false,
        },
    ensures
        match current_item(m, line, events) {
            ReplItem::ReplStatement(
                Statement::Assignment { location, value_location, .. },
            ) => is_text_at::<E>(
                m,
                line,
                res.0,
                location.start as int,
                value_location.end as int,
            ),
            _ => false,
        },
        saves_value_of(
            crate::repl::turn_laws::played(m, line, events).0,
            compiled_code(m, line, events),
            res.0,
            res.1,
            res.2,
        ),
{
    lemma_compiling(m, line, events);
    let now = crate::repl::turn_laws::played(m, line, events).0;
    let input = crate::repl::turn_laws::parsed_text::<E>(m, line);
    let statement = current_item(m, line, events)->ReplStatement_0;
    let start = statement->Assignment_location.start as int;
    let end = statement->value_location.end as int;
    lemma_cut::<E>(m, line, start, end);
    let text = crate::text::sliced(input, start, end);
    let (gaps, outer) = crate::repl::source_laws::law_let_is_evaluated_in_session(now, text);
    (text, gaps, outer)
}

/// Where a type is asked for, what is compiled is an expression in the midst of the
/// session: all that was parsed, which is the line without the command.
pub proof fn law_type_query_compiles_its_text<E>(
    m: ReplModel,
    line: Seq<char>,
    events: Seq<Event<E>>,
) -> (gaps: Seq<Seq<char>>)
    requires
        compiles(m, line, events),
        asks_for_type::<E>(m, line),
    ensures
        items_of_one_statement(events),
        crate::text::trimmed(line) == ":type "@ + crate::repl::turn_laws::parsed_text::<E>(m, line),
        shows_value_of(
            crate::repl::turn_laws::played(m, line, events).0,
            compiled_code(m, line, events),
            crate::repl::turn_laws::parsed_text::<E>(m, line),
            gaps,
        ),
{
    lemma_compiling(m, line, events);
    crate::repl::turn_laws::law_turn_follows_its_line(m, line, events);
    law_type_command_is_taken_off::<E>(m, line);
    crate::repl::source_laws::law_expression_is_evaluated_in_session(
        crate::repl::turn_laws::played(m, line, events).0,
        crate::repl::turn_laws::parsed_text::<E>(m, line),
    )
}

/// The line was parsed into a single statement.
pub open spec fn items_of_one_statement<E>(events: Seq<Event<E>>) -> bool {
    &&& crate::repl::turn_laws::items_of(events).len() == 1
    &&& crate::repl::turn_laws::items_of(events)[0] is ReplStatement
}

/// Two sessions that hold the same compile the same code for two expressions that read
/// the same, whatever else stands in their lines.
pub proof fn law_only_own_text_matters<E>(
    m: ReplModel,
    line: Seq<char>,
    events: Seq<Event<E>>,
    other: ReplModel,
    other_line: Seq<char>,
    other_events: Seq<Event<E>>,
)
    requires
        compiles(m, line, events),
        compiles(other, other_line, other_events),
        !asks_for_type::<E>(m, line),
        !asks_for_type::<E>(other, other_line),
        crate::repl::turn_laws::played(m, line, events).0 == crate::repl::turn_laws::played(
            other,
            other_line,
            other_events,
        ).0,
        match (current_item(m, line, events), current_item(other, other_line, other_events)) {
            (
                ReplItem::ReplStatement(Statement::Expression { location: one }),
                ReplItem::ReplStatement(Statement::Expression { location: two }),
            ) => encode_utf8(crate::repl::turn_laws::parsed_text::<E>(m, line)).subrange(
                one.start as int,
                one.end as int,
            ) == encode_utf8(
                crate::repl::turn_laws::parsed_text::<E>(other, other_line),
            ).subrange(two.start as int, two.end as int),
            _ => false,
        },
    ensures
        compiled_code(m, line, events) == compiled_code(other, other_line, other_events),
{
    lemma_compiling(m, line, events);
    lemma_compiling(other, other_line, other_events);
}

/// A constant is added, after the others, as it stands in the line, and the session that
/// has it is compiled.
pub proof fn law_constant_is_added<E>(m: ReplModel, line: Seq<char>, events: Seq<Event<E>>) -> (text:
    Seq<char>)
    requires
        compiles(m, line, events),
        !asks_for_type::<E>(m, line),
        current_item(m, line, events) matches ReplItem::ReplDefinition(def)
            && def is ModuleConstant,
    ensures
        ({
            let now = crate::repl::turn_laws::played(m, line, events).0;
            let before = session_before(m, line, events);
            &&& now.consts == before.consts.push(text)
            &&& now.types == before.types
            &&& now.fns == before.fns
            &&& compiled_code(m, line, events) == crate::repl::source(now)
        }),
        current_item(m, line, events) matches ReplItem::ReplDefinition(
            Definition::ModuleConstant { location, value_location },
        ) && is_text_at::<E>(m, line, text, location.start as int, value_location.end as int),
{
    lemma_compiling(m, line, events);
    let def = current_item(m, line, events)->ReplDefinition_0;
    let start = def->ModuleConstant_location.start as int;
    let end = def->value_location.end as int;
    lemma_cut::<E>(m, line, start, end);
    crate::text::sliced(crate::repl::turn_laws::parsed_text::<E>(m, line), start, end)
}

/// A type is added, after the others, as it stands in the line, and the session that has
/// it is compiled.
pub proof fn law_type_is_added<E>(m: ReplModel, line: Seq<char>, events: Seq<Event<E>>) -> (text: Seq<
    char,
>)
    requires
        compiles(m, line, events),
        !asks_for_type::<E>(m, line),
        current_item(m, line, events) matches ReplItem::ReplDefinition(def) && (def is TypeAlias
            || def is CustomType),
    ensures
        ({
            let now = crate::repl::turn_laws::played(m, line, events).0;
            let before = session_before(m, line, events);
            &&& now.types == before.types.push(text)
            &&& now.consts == before.consts
            &&& now.fns == before.fns
            &&& compiled_code(m, line, events) == crate::repl::source(now)
        }),
        match current_item(m, line, events) {
            ReplItem::ReplDefinition(Definition::TypeAlias { location }) => is_text_at::<E>(
                m,
                line,
                text,
                location.start as int,
                location.end as int,
            ),
            ReplItem::ReplDefinition(
                Definition::CustomType { location, end_position },
            ) => is_text_at::<E>(m, line, text, location.start as int, end_position as int),
            _ => false,
        },
{
    lemma_compiling(m, line, events);
    let def = current_item(m, line, events)->ReplDefinition_0;
    let (start, end) = match def {
        Definition::TypeAlias { location } => (location.start as int, location.end as int),
        Definition::CustomType { location, end_position } => (
            location.start as int,
            end_position as int,
        ),
        _ => (0, 0),
    };
    lemma_cut::<E>(m, line, start, end);
    crate::text::sliced(crate::repl::turn_laws::parsed_text::<E>(m, line), start, end)
}

/// The argument of that name is not among `arguments`.
pub open spec fn is_no_argument(arguments: Seq<Option<String>>, name: Seq<char>) -> bool {
    forall|i: int|
        0 <= i < arguments.len() ==> ((#[trigger] arguments[i]) matches Some(argument) ==> argument@
            != name)
}

proof fn lemma_args_names(arguments: Seq<Option<String>>, name: Seq<char>)
    ensures
        (forall|i: int|
            0 <= i < crate::syntax::args_names(arguments).len() ==> (
            #[trigger] crate::syntax::args_names(arguments)[i])@ != name) <==> is_no_argument(
            arguments,
            name,
        ),
    decreases arguments.len(),
{
    let names = crate::syntax::args_names(arguments);
    if arguments.len() > 0 {
        let earlier = arguments.drop_last();
        let earlier_names = crate::syntax::args_names(earlier);
        lemma_args_names(earlier, name);
        assert forall|i: int| 0 <= i < earlier.len() implies earlier[i] == arguments[i] by {}
        if is_no_argument(arguments, name) {
            assert forall|i: int| 0 <= i < earlier.len() implies ((#[trigger] earlier[i]) matches Some(
                argument,
            ) ==> argument@ != name) by {
                assert(earlier[i] == arguments[i]);
            }
            assert forall|i: int| 0 <= i < names.len() implies (#[trigger] names[i])@ != name by {
                if i < earlier_names.len() {
                    assert(names[i] == earlier_names[i]);
                } else {
                    assert(names[i] == arguments.last()->0);
                    assert(arguments[arguments.len() - 1] == arguments.last());
                }
            }
        }
        if forall|i: int| 0 <= i < names.len() ==> (#[trigger] names[i])@ != name {
            assert forall|i: int| 0 <= i < earlier_names.len() implies (
            #[trigger] earlier_names[i])@ != name by {
                assert(names[i] == earlier_names[i]);
            }
            assert forall|i: int| 0 <= i < arguments.len() implies ((
            #[trigger] arguments[i]) matches Some(argument) ==> argument@ != name) by {
                if i < earlier.len() {
                    assert(earlier[i] == arguments[i]);
                } else if arguments[i] is Some {
                    assert(names[names.len() - 1] == arguments[i]->0);
                }
            }
        }
    }
}

proof fn lemma_filter_same<A>(all: Seq<A>, one: spec_fn(A) -> bool, two: spec_fn(A) -> bool)
    requires
        forall|a: A| #[trigger] one(a) <==> two(a),
    ensures
        all.filter(one) == all.filter(two),
    decreases all.len(),
{
    reveal(Seq::filter);
    if all.len() > 0 {
        lemma_filter_same(all.drop_last(), one, two);
        assert(one(all.last()) <==> two(all.last()));
    }
}

/// A function is kept under its name, in the place of one that had the name, and as it
/// stands in the line, but that right before its body every variable of the session is
/// loaded, except those of the names that its arguments take. The session that has it is
/// compiled. Nothing else changes.
pub proof fn law_function_is_added<E>(
    m: ReplModel,
    line: Seq<char>,
    events: Seq<Event<E>>,
    other: Seq<char>,
) -> (res: (Seq<char>, Seq<char>))
    requires
        compiles(m, line, events),
        !asks_for_type::<E>(m, line),
        current_item(m, line, events) matches ReplItem::ReplDefinition(def) && def is Function,
    ensures
        current_item(m, line, events) matches ReplItem::ReplDefinition(Definition::Function(f)) && {
            let now = crate::repl::turn_laws::played(m, line, events).0;
            let before = session_before(m, line, events);
            let loads = crate::repl::source_laws::load_statements(
                now.vars.filter(
                    |var: (Seq<char>, ValueModel)| is_no_argument(f.arguments@, var.0),
                ),
            );
            &&& is_text_at::<E>(
                m,
                line,
                res.0,
                f.location.start as int,
                f.body_location.start as int,
            )
            &&& is_text_at::<E>(
                m,
                line,
                res.1,
                f.body_location.start as int,
                f.end_position as int,
            )
            &&& f.name is Some
            &&& crate::table::lookup(now.fns, f.name->0@) == Some(
                res.0 + "\n  "@ + loads + res.1,
            )
            &&& other != f.name->0@ ==> crate::table::lookup(now.fns, other)
                == crate::table::lookup(before.fns, other)
            &&& now.consts == before.consts
            &&& now.types == before.types
            &&& compiled_code(m, line, events) == crate::repl::source(now)
        },
{
    lemma_compiling(m, line, events);
    let now = crate::repl::turn_laws::played(m, line, events).0;
    let before = counted(m, line, events);
    let input = crate::repl::turn_laws::parsed_text::<E>(m, line);
    let f = current_item(m, line, events)->ReplDefinition_0->Function_0;
    let exclude = crate::syntax::args_names(f.arguments@);
    let (start, body, end) = (
        f.location.start as int,
        f.body_location.start as int,
        f.end_position as int,
    );
    let lets = crate::repl::lets(now.vars, exclude);
    let insertion = "\n  "@ + lets;
    lemma_cut::<E>(m, line, start, end);
    let src = crate::text::sliced(input, start, end);
    let (first, second) = crate::text_laws::law_insertion_parts_text(src, body - start, insertion);
    let bytes = encode_utf8(input);
    assert(bytes.subrange(start, end).subrange(0, body - start) =~= bytes.subrange(start, body));
    assert(bytes.subrange(start, end).subrange(body - start, end - start) =~= bytes.subrange(
        body,
        end,
    ));
    crate::table::law_bound_lookup(
        before.fns,
        f.name->0@,
        crate::repl::turn::function_code(before, f, input),
        other,
    );
    crate::repl::source_laws::law_variables_are_loaded(now.vars, exclude);
    let wanted = |var: (Seq<char>, ValueModel)|
        forall|i: int| 0 <= i < exclude.len() ==> (#[trigger] exclude[i])@ != var.0;
    let free = |var: (Seq<char>, ValueModel)| is_no_argument(f.arguments@, var.0);
    assert forall|var: (Seq<char>, ValueModel)| #[trigger] wanted(var) <==> free(var) by {
        lemma_args_names(f.arguments@, var.0);
    }
    lemma_filter_same(now.vars, wanted, free);
    assert(first + insertion + second =~= first + "\n  "@ + lets + second);
    (first, second)
}

/// Only what is supported is compiled: no import, no `use`, no `assert`, and no `let` with
/// another pattern than a name or a discard; and where a type is asked for, no definition.
pub proof fn law_only_supported_items_compile<E>(
    m: ReplModel,
    line: Seq<char>,
    events: Seq<Event<E>>,
)
    requires
        compiles(m, line, events),
    ensures
        match current_item(m, line, events) {
            ReplItem::ReplDefinition(def) => !asks_for_type::<E>(m, line) && def !is Import,
            ReplItem::ReplStatement(statement) => asks_for_type::<E>(m, line) || match statement {
                Statement::Expression { .. } => true,
                Statement::Assignment { pattern, .. } => pattern !is Other,
                _ => false,
            },
        },
{
    lemma_compiling(m, line, events);
}

} // verus!
