//! What comes of an item once it is compiled: it is evaluated, its value becomes a
//! variable, or its type is shown.

use vstd::prelude::*;
use crate::compiled::{Module, TypedDefinition};
use crate::repl::turn::{
    ActionModel, Event, Goal, Phase, ReplErrorModel, StepModel, TurnModel,
};
use crate::repl::{ReplModel, ValueModel};
use crate::syntax::{Definition, Pattern, ReplItem, SrcSpan, Statement};

verus! {

/// The line has been given `events`, all of which it waited for, and waits for more.
pub open spec fn waits<E>(m: ReplModel, line: Seq<char>, events: Seq<Event<E>>) -> bool {
    &&& crate::repl::turn_laws::playable(m, line, events)
    &&& crate::repl::turn_laws::played(m, line, events).1 is Act
}

/// What the line waits for the outcome of.
pub open spec fn action_of<E>(m: ReplModel, line: Seq<char>, events: Seq<Event<E>>) -> ActionModel {
    crate::repl::turn_laws::played(m, line, events).1->action
}

/// The session once the line was given `events`.
pub open spec fn session_of<E>(m: ReplModel, line: Seq<char>, events: Seq<Event<E>>) -> ReplModel {
    crate::repl::turn_laws::played(m, line, events).0
}

/// Module `i` is the first of that name.
pub open spec fn is_first_module(modules: Seq<Module>, name: Seq<char>, i: int) -> bool {
    &&& 0 <= i < modules.len()
    &&& modules[i].name@ == name
    &&& forall|k: int| 0 <= k < i ==> (#[trigger] modules[k]).name@ != name
}

/// Definition `j` of the module is its first function of that name, and returns `type_`.
pub open spec fn first_function_returns(
    module: Module,
    name: Seq<char>,
    j: int,
    type_: Seq<char>,
) -> bool {
    &&& 0 <= j < module.definitions@.len()
    &&& module.definitions@[j] matches TypedDefinition::Function { name: Some(own), return_type }
        && own@ == name && return_type@ == type_
    &&& forall|k: int|
        0 <= k < j ==> !((#[trigger] module.definitions@[k]) matches TypedDefinition::Function {
            name: Some(own),
            ..
        } && own@ == name)
}

/// A module is found by its name, and a type by that of its function: where there are
/// several, the first ones count.
pub proof fn law_first_of_a_name_counts(
    modules: Seq<Module>,
    name: Seq<char>,
    i: int,
    function: Seq<char>,
    j: int,
    type_: Seq<char>,
)
    requires
        is_first_module(modules, name, i),
        first_function_returns(modules[i], function, j, type_),
    ensures
        crate::compiled::has_module(modules, name),
        crate::compiled::module_named(modules, name) == modules[i],
        crate::compiled::has_function(modules[i], function),
        crate::compiled::return_type_of(modules[i], function) == type_,
{
    lemma_module_named(modules, name, i);
    let definitions = modules[i].definitions@;
    assert(crate::compiled::is_function_named(definitions[j], function));
    assert(crate::compiled::is_function_at(definitions, function, j)) by {
        assert forall|k: int| 0 <= k < j implies !crate::compiled::is_function_named(
            #[trigger] definitions[k],
            function,
        ) by {}
    }
    let pos = choose|pos: int| crate::compiled::is_function_at(definitions, function, pos);
    assert(crate::compiled::is_function_at(definitions, function, pos));
    assert(pos == j) by {
        if pos < j {
            assert(!crate::compiled::is_function_named(definitions[pos], function));
        }
    }
}

proof fn lemma_module_named(modules: Seq<Module>, name: Seq<char>, i: int)
    requires
        is_first_module(modules, name, i),
    ensures
        crate::compiled::has_module(modules, name),
        crate::compiled::module_named(modules, name) == modules[i],
{
    assert(crate::compiled::is_module_at(modules, name, i));
    let pos = choose|pos: int| crate::compiled::is_module_at(modules, name, pos);
    assert(crate::compiled::is_module_at(modules, name, pos));
    assert(pos == i) by {
        if pos < i {
            assert(modules[pos].name@ != name);
        }
    }
}

/// The goal with which an item is evaluated.
spec fn goal_of(item: ReplItem) -> Option<Goal> {
    match item {
        ReplItem::ReplStatement(Statement::Expression { .. }) => Some(Goal::Evaluate),
        ReplItem::ReplStatement(
            Statement::Assignment { pattern: Pattern::Discard, .. },
        ) => Some(Goal::Evaluate),
        ReplItem::ReplStatement(
            Statement::Assignment { pattern: Pattern::Variable { name }, .. },
        ) => Some(Goal::Bind { name }),
        _ => None,
    }
}

/// What is run was compiled right before.
proof fn lemma_running<E>(m: ReplModel, line: Seq<char>, events: Seq<Event<E>>)
    requires
        waits(m, line, events),
        action_of(m, line, events) is RunMain,
    ensures
        events.len() > 1,
        events.last() is Compiled,
        crate::repl::line_laws::compiles(m, line, events.drop_last()),
        session_of(m, line, events) == session_of(m, line, events.drop_last()),
        crate::repl::line_laws::current_item(m, line, events)
            == crate::repl::line_laws::current_item(m, line, events.drop_last()),
        !crate::repl::line_laws::asks_for_type::<E>(m, line),
        goal_of(crate::repl::line_laws::current_item(m, line, events)) is Some,
        ({
            let now = session_of(m, line, events);
            let name = crate::repl::module_name(now.iter);
            let module = crate::compiled::module_named(events.last()->modules@, name);
            &&& crate::compiled::has_module(events.last()->modules@, name)
            &&& crate::repl::turn_laws::played(m, line, events).1->turn.phase == Phase::Running {
                goal: goal_of(crate::repl::line_laws::current_item(m, line, events))->0,
                module,
            }
            &&& action_of(m, line, events) == (ActionModel::RunMain { module: module.name@ })
            &&& module.name@ == name
            &&& action_of(m, line, events.drop_last())->file == name + ".gleam"@
        }),
{
    let earlier = events.drop_last();
    assert(events.len() > 0);
    assert(earlier.len() == 0 ==> earlier =~= Seq::empty());
    crate::repl::turn_laws::law_turn_follows_its_line(m, line, events);
    if earlier.len() > 0 {
        crate::repl::turn_laws::law_turn_follows_its_line(m, line, earlier);
    }
    let turn = crate::repl::turn_laws::played(m, line, earlier).1->turn;
    lemma_proceeding_runs_nothing::<E>(session_of(m, line, earlier), turn);
    match (turn.phase, events.last()) {
        (Phase::Parsing, Event::Parsed { items }) => {
            lemma_proceeding_runs_nothing::<E>(
                session_of(m, line, earlier),
                TurnModel { items: items@, ..turn },
            );
        },
        (Phase::Probing { name, module }, Event::VarFound { found }) => {
            lemma_proceeding_runs_nothing::<E>(
                crate::repl::turn::with_variable(
                    session_of(m, line, earlier),
                    name@,
                    module,
                    found,
                ),
                turn,
            );
        },
        _ => {},
    }
    crate::repl::line_laws::lemma_compiling(m, line, earlier);
    crate::repl::turn_laws::law_compiles_session(m, line, earlier);
    let name = crate::repl::module_name(session_of(m, line, events).iter);
    let modules = events.last()->modules@;
    let pos = choose|pos: int| crate::compiled::is_module_at(modules, name, pos);
    assert(crate::compiled::is_module_at(modules, name, pos));
}

/// Going on with the next item, nothing is run before it is compiled.
proof fn lemma_proceeding_runs_nothing<E>(now: ReplModel, turn: TurnModel)
    ensures
        crate::repl::turn::proceeded::<E>(now, turn).1 matches StepModel::Act { action, .. } ==> (
        action is Compile || action is Print),
{
}

/// What is evaluated is the very module that was compiled for the item, and only what is
/// an expression or a `let` is evaluated; the session stays as it is.
pub proof fn law_only_compiled_code_is_evaluated<E>(
    m: ReplModel,
    line: Seq<char>,
    events: Seq<Event<E>>,
)
    requires
        waits(m, line, events),
        action_of(m, line, events) is RunMain,
    ensures
        events.last() matches Event::Compiled { modules } && exists|i: int|
            0 <= i < modules@.len() && (#[trigger] modules@[i]).name@ == action_of(
                m,
                line,
                events,
            )->module,
        crate::repl::line_laws::compiles(m, line, events.drop_last()),
        action_of(m, line, events.drop_last())->file == action_of(m, line, events)->module
            + ".gleam"@,
        session_of(m, line, events) == session_of(m, line, events.drop_last()),
        !crate::repl::line_laws::asks_for_type::<E>(m, line),
        match crate::repl::line_laws::current_item(m, line, events) {
            ReplItem::ReplStatement(Statement::Expression { .. }) => true,
            ReplItem::ReplStatement(Statement::Assignment { pattern, .. }) => pattern !is Other,
            _ => false,
        },
{
    lemma_running(m, line, events);
    let modules = events.last()->modules@;
    let name = crate::repl::module_name(session_of(m, line, events).iter);
    let pos = choose|pos: int| crate::compiled::is_module_at(modules, name, pos);
    assert(crate::compiled::is_module_at(modules, name, pos));
    assert(modules[pos].name@ == action_of(m, line, events)->module);
}

/// An expression and a `let` whose code compiles are evaluated next, each once.
pub proof fn law_what_compiles_is_evaluated<E>(
    m: ReplModel,
    line: Seq<char>,
    events: Seq<Event<E>>,
)
    requires
        crate::repl::turn_laws::playable(m, line, events),
        events.len() > 0,
        events.last() is Compiled,
        crate::repl::line_laws::compiles(m, line, events.drop_last()),
        !crate::repl::line_laws::asks_for_type::<E>(m, line),
        match crate::repl::line_laws::current_item(m, line, events.drop_last()) {
            ReplItem::ReplStatement(_) => true,
            ReplItem::ReplDefinition(_) => false,
        },
    ensures
        waits(m, line, events),
        action_of(m, line, events) is RunMain,
        action_of(m, line, events.drop_last())->file == action_of(m, line, events)->module
            + ".gleam"@,
{
    crate::repl::line_laws::lemma_compiling(m, line, events.drop_last());
    lemma_running(m, line, events);
}

/// A definition whose code compiles is not evaluated: the line goes on, or ends well.
pub proof fn law_definition_is_not_evaluated<E>(
    m: ReplModel,
    line: Seq<char>,
    events: Seq<Event<E>>,
)
    requires
        crate::repl::turn_laws::playable(m, line, events),
        events.len() > 0,
        events.last() is Compiled,
        crate::repl::line_laws::compiles(m, line, events.drop_last()),
        crate::repl::line_laws::current_item(m, line, events.drop_last()) is ReplDefinition,
    ensures
        match crate::repl::turn_laws::played(m, line, events).1 {
            StepModel::Act { action, .. } => {
                &&& action is Compile || action is Print
                &&& session_of(m, line, events).iter.1 == session_of(
                    m,
                    line,
                    events.drop_last(),
                ).iter.1 + 1
            },
            StepModel::Done { result } => {
                &&& result is Ok
                &&& session_of(m, line, events) == session_of(m, line, events.drop_last())
            },
        },
{
    let earlier = events.drop_last();
    crate::repl::line_laws::lemma_compiling(m, line, earlier);
    lemma_proceeding_runs_nothing::<E>(
        session_of(m, line, earlier),
        crate::repl::turn_laws::played(m, line, earlier).1->turn,
    );
    crate::repl::turn_laws::lemma_proceeding::<E>(
        session_of(m, line, earlier),
        crate::repl::turn_laws::played(m, line, earlier).1->turn,
    );
}

/// Once a `let` was evaluated, and only then, it is asked whether its value was saved,
/// under the index that the next value is to have.
pub proof fn law_let_asks_for_its_value<E>(m: ReplModel, line: Seq<char>, events: Seq<Event<E>>)
    requires
        waits(m, line, events),
        events.len() > 0,
        waits(m, line, events.drop_last()),
    ensures
        action_of(m, line, events) is HasVar <==> {
            &&& action_of(m, line, events.drop_last()) is RunMain
            &&& crate::repl::line_laws::current_item(m, line, events.drop_last()) matches ReplItem::ReplStatement(
                Statement::Assignment { pattern, .. },
            ) && pattern is Variable
        },
        action_of(m, line, events) is HasVar ==> {
            &&& action_of(m, line, events)->index == session_of(m, line, events).var_index
            &&& session_of(m, line, events) == session_of(m, line, events.drop_last())
        },
{
    let earlier = events.drop_last();
    let turn = crate::repl::turn_laws::played(m, line, earlier).1->turn;
    assert(earlier.len() == 0 ==> earlier =~= Seq::empty());
    crate::repl::turn_laws::law_turn_follows_its_line(m, line, events);
    if earlier.len() > 0 {
        crate::repl::turn_laws::law_turn_follows_its_line(m, line, earlier);
    }
    if action_of(m, line, earlier) is RunMain {
        lemma_running(m, line, earlier);
    }
    let now = session_of(m, line, earlier);
    match (turn.phase, events.last()) {
        (Phase::Parsing, Event::Parsed { items }) => {
            lemma_proceeding_runs_nothing::<E>(now, TurnModel { items: items@, ..turn });
        },
        (Phase::Probing { name, module }, Event::VarFound { found }) => {
            lemma_proceeding_runs_nothing::<E>(
                crate::repl::turn::with_variable(now, name@, module, found),
                turn,
            );
        },
        _ => {
            lemma_proceeding_runs_nothing::<E>(now, turn);
        },
    }
}

/// Where the value of a `let` was saved, the name of the `let` stands from then on for
/// the index that was asked for, at the type that the compiled `run_save` returns, and
/// the next value gets the next index. Where it was not, no variable changes. Other names
/// stand for what they stood for.
pub proof fn law_saved_value_becomes_variable<E>(
    m: ReplModel,
    line: Seq<char>,
    events: Seq<Event<E>>,
    other: Seq<char>,
    i: int,
    j: int,
    type_: Seq<char>,
)
    requires
        crate::repl::turn_laws::playable(m, line, events),
        events.len() > 0,
        waits(m, line, events.drop_last()),
        action_of(m, line, events.drop_last()) is HasVar,
    ensures
        events.len() > 3,
        events[events.len() - 3] is Compiled,
        events.last() is VarFound,
        crate::repl::line_laws::current_item(m, line, events.drop_last()) matches ReplItem::ReplStatement(
            Statement::Assignment { pattern: Pattern::Variable { name }, .. },
        ) && {
            let before = session_of(m, line, events.drop_last());
            let after = session_of(m, line, events);
            let index = action_of(m, line, events.drop_last())->index;
            let modules = events[events.len() - 3]->modules@;
            if events.last()->found {
                &&& crate::table::lookup(after.vars, name@) is Some
                &&& crate::table::lookup(after.vars, name@)->0.index == index
                &&& is_first_module(modules, crate::repl::module_name(before.iter), i)
                    && first_function_returns(modules[i], "run_save"@, j, type_)
                    ==> crate::table::lookup(after.vars, name@)->0.type_ == type_
                &&& after.var_index == index + 1
                &&& other != name@ ==> crate::table::lookup(after.vars, other)
                    == crate::table::lookup(before.vars, other)
            } else {
                &&& after.vars == before.vars
                &&& after.var_index == before.var_index
            }
        },
{
    let asked = events.drop_last();
    let run = asked.drop_last();
    crate::repl::turn_laws::law_turn_follows_its_line(m, line, asked);
    assert(asked.len() > 0);
    assert(waits(m, line, run));
    law_let_asks_for_its_value(m, line, asked);
    lemma_running(m, line, run);
    assert(run.last() == events[events.len() - 3]);
    let before = session_of(m, line, asked);
    let turn = crate::repl::turn_laws::played(m, line, asked).1->turn;
    let event = events.last();
    crate::repl::turn_laws::law_only_let_binds(before, turn, event, other);
    let modules = run.last()->modules@;
    if is_first_module(modules, crate::repl::module_name(before.iter), i)
        && first_function_returns(modules[i], "run_save"@, j, type_) {
        law_first_of_a_name_counts(
            modules,
            crate::repl::module_name(before.iter),
            i,
            "run_save"@,
            j,
            type_,
        );
    }
}

/// Where a type is asked for and the code compiles, the type that the compiled
/// `repl_main` returns is shown; the session stays as it is.
pub proof fn law_type_is_shown<E>(
    m: ReplModel,
    line: Seq<char>,
    events: Seq<Event<E>>,
    i: int,
    j: int,
    type_: Seq<char>,
)
    requires
        crate::repl::turn_laws::playable(m, line, events),
        events.len() > 0,
        crate::repl::line_laws::compiles(m, line, events.drop_last()),
        crate::repl::line_laws::asks_for_type::<E>(m, line),
        events.last() is Compiled,
        is_first_module(
            events.last()->modules@,
            crate::repl::module_name(session_of(m, line, events.drop_last()).iter),
            i,
        ),
        first_function_returns(events.last()->modules@[i], "repl_main"@, j, type_),
    ensures
        waits(m, line, events),
        action_of(m, line, events) == (ActionModel::Print { message: type_ }),
        session_of(m, line, events) == session_of(m, line, events.drop_last()),
{
    crate::repl::line_laws::lemma_compiling(m, line, events.drop_last());
    law_first_of_a_name_counts(
        events.last()->modules@,
        crate::repl::module_name(session_of(m, line, events.drop_last()).iter),
        i,
        "repl_main"@,
        j,
        type_,
    );
}

proof fn lemma_begun_keeps_names(m: ReplModel, input: Seq<char>, type_: bool, item: ReplItem, name: Seq<char>)
    ensures
        ({
            let after = crate::repl::turn::item_begun(m, input, type_, item).0;
            &&& crate::table::lookup(m.fns, name) is Some ==> crate::table::lookup(
                after.fns,
                name,
            ) is Some
            &&& crate::table::lookup(m.vars, name) is Some ==> crate::table::lookup(
                after.vars,
                name,
            ) is Some
        }),
{
    match item {
        ReplItem::ReplDefinition(Definition::Function(f)) => {
            crate::table::law_bound_lookup(
                m.fns,
                f.name->0@,
                crate::repl::turn::function_code(m, f, input),
                name,
            );
        },
        _ => {},
    }
}

proof fn lemma_proceeding_keeps_names<E>(m: ReplModel, turn: TurnModel, name: Seq<char>)
    ensures
        ({
            let after = crate::repl::turn::proceeded::<E>(m, turn).0;
            &&& crate::table::lookup(m.fns, name) is Some ==> crate::table::lookup(
                after.fns,
                name,
            ) is Some
            &&& crate::table::lookup(m.vars, name) is Some ==> crate::table::lookup(
                after.vars,
                name,
            ) is Some
        }),
{
    if turn.next < turn.items.len() {
        let counted = ReplModel { iter: (m.iter.0, m.iter.1 + 1), ..m };
        lemma_begun_keeps_names(
            counted,
            turn.input,
            turn.type_,
            turn.items[turn.next as int],
            name,
        );
    }
}

/// No function and no variable is ever lost: a name that stands for something before a
/// line stands for something throughout the line and after it.
pub proof fn law_names_stay<E>(
    m: ReplModel,
    line: Seq<char>,
    events: Seq<Event<E>>,
    name: Seq<char>,
)
    requires
        crate::repl::turn_laws::playable(m, line, events),
    ensures
        crate::table::lookup(m.fns, name) is Some ==> crate::table::lookup(
            session_of(m, line, events).fns,
            name,
        ) is Some,
        crate::table::lookup(m.vars, name) is Some ==> crate::table::lookup(
            session_of(m, line, events).vars,
            name,
        ) is Some,
    decreases events.len(),
{
    if events.len() > 0 {
        let earlier = events.drop_last();
        law_names_stay(m, line, earlier, name);
        let now = session_of(m, line, earlier);
        let turn = crate::repl::turn_laws::played(m, line, earlier).1->turn;
        assert(earlier.len() == 0 ==> earlier =~= Seq::empty());
        if earlier.len() > 0 {
            crate::repl::turn_laws::law_turn_follows_its_line(m, line, earlier);
        }
        match (turn.phase, events.last()) {
            (Phase::Parsing, Event::Parsed { items }) => {
                lemma_proceeding_keeps_names::<E>(now, TurnModel { items: items@, ..turn }, name);
            },
            (Phase::Probing { name: var, module }, Event::VarFound { found }) => {
                let bound = crate::repl::turn::with_variable(now, var@, module, found);
                let value = ValueModel {
                    index: now.var_index,
                    type_: crate::compiled::return_type_of(module, "run_save"@),
                };
                crate::table::law_bound_lookup(now.vars, var@, value, name);
                lemma_proceeding_keeps_names::<E>(bound, turn, name);
            },
            _ => lemma_proceeding_keeps_names::<E>(now, turn, name),
        }
    }
}

/// Functions, constants and types come from definitions alone: where the line does not
/// come to compile a definition, they stay as they are, unless the line fails.
pub proof fn law_only_definitions_define<E>(m: ReplModel, line: Seq<char>, events: Seq<Event<E>>)
    requires
        crate::repl::turn_laws::playable(m, line, events),
        events.len() > 0,
        match crate::repl::turn_laws::played(m, line, events).1 {
            StepModel::Act { action, .. } => action !is Compile
                || crate::repl::line_laws::current_item(m, line, events) is ReplStatement,
            StepModel::Done { result } => result is Ok,
        },
    ensures
        ({
            let before = session_of(m, line, events.drop_last());
            let after = session_of(m, line, events);
            &&& after.fns == before.fns
            &&& after.consts == before.consts
            &&& after.types == before.types
            &&& after.user_import == before.user_import
            &&& after.imports == before.imports
        }),
{
    if crate::repl::line_laws::compiles(m, line, events) {
        crate::repl::line_laws::lemma_compiling(m, line, events);
    }
}

/// A line that holds one expression, and whatever the parser passes over around it, is
/// compiled from the text of the expression, evaluated and done: the session stays as it
/// is, but for the counts. Every answer on the way is one that the line takes, as long as
/// the compiled module is among the modules.
pub proof fn law_expression_line<E>(
    m: ReplModel,
    before: Seq<char>,
    text: Seq<char>,
    after: Seq<char>,
    location: SrcSpan,
    items: Vec<ReplItem>,
    modules: Vec<Module>,
    i: int,
) -> (gaps: Seq<Seq<char>>)
    requires
        !crate::repl::line_laws::asks_for_type::<E>(m, before + text + after),
        location.start == crate::text_laws::byte_len(before),
        location.end == crate::text_laws::byte_len(before) + crate::text_laws::byte_len(text),
        items@ == seq![ReplItem::ReplStatement(Statement::Expression { location })],
        0 <= i < modules@.len(),
        modules@[i].name@ == crate::repl::module_name((m.iter.0 + 1, 1)),
    ensures
        ({
            let line = before + text + after;
            let parsed = seq![Event::<E>::Parsed { items }];
            let compiled = parsed.push(Event::Compiled { modules });
            let completed = compiled.push(Event::Completed);
            let done = ReplModel { iter: (m.iter.0 + 1, 1), ..m };
            &&& waits(m, line, parsed)
            &&& action_of(m, line, parsed) is Compile
            &&& crate::repl::line_laws::shows_value_of(
                done,
                action_of(m, line, parsed)->code,
                text,
                gaps,
            )
            &&& waits(m, line, compiled)
            &&& action_of(m, line, compiled) == (ActionModel::RunMain { module: modules@[i].name@ })
            &&& crate::repl::turn_laws::playable(m, line, completed)
            &&& crate::repl::turn_laws::played(m, line, completed) == (
                done,
                StepModel::<E>::Done { result: Ok(()) },
            )
        }),
{
    let line = before + text + after;
    let done = ReplModel { iter: (m.iter.0 + 1, 1), ..m };
    let begun = Seq::<Event<E>>::empty();
    let parsed = seq![Event::<E>::Parsed { items }];
    let compiled = parsed.push(Event::Compiled { modules });
    let completed = compiled.push(Event::Completed);
    crate::text_laws::law_cut_is_the_text(before, text, after);
    crate::repl::line_laws::law_type_command_is_taken_off::<E>(m, line);
    assert(parsed.drop_last() =~= begun);
    assert(compiled.drop_last() =~= parsed);
    assert(completed.drop_last() =~= compiled);
    assert(crate::repl::turn_laws::playable(m, line, begun));
    assert(crate::repl::turn_laws::playable(m, line, parsed));
    let gaps = crate::repl::source_laws::law_expression_is_evaluated_in_session(done, text);
    lemma_named_module_is_there(modules@, crate::repl::module_name(done.iter), i);
    assert(crate::repl::turn_laws::playable(m, line, compiled));
    assert(crate::repl::turn_laws::playable(m, line, completed));
    gaps
}

proof fn lemma_named_module_is_there(modules: Seq<Module>, name: Seq<char>, i: int)
    requires
        0 <= i < modules.len(),
        modules[i].name@ == name,
    ensures
        crate::compiled::has_module(modules, name),
        crate::compiled::module_named(modules, name).name@ == name,
    decreases i,
{
    if exists|k: int| 0 <= k < i && (#[trigger] modules[k]).name@ == name {
        let k = choose|k: int| 0 <= k < i && (#[trigger] modules[k]).name@ == name;
        lemma_named_module_is_there(modules, name, k);
    } else {
        lemma_module_named(modules, name, i);
    }
}

/// A line that holds one `let` is compiled from its text, evaluated, and asked for its
/// value; where the value was saved, the name stands for it afterwards, and for nothing
/// else where it was not.
pub proof fn law_let_line<E>(
    m: ReplModel,
    before: Seq<char>,
    text: Seq<char>,
    after: Seq<char>,
    location: SrcSpan,
    value_location: SrcSpan,
    name: String,
    items: Vec<ReplItem>,
    modules: Vec<Module>,
    i: int,
    j: int,
    type_: Seq<char>,
    found: bool,
) -> (gaps: (Seq<Seq<char>>, Seq<Seq<char>>))
    requires
        !crate::repl::line_laws::asks_for_type::<E>(m, before + text + after),
        location.start == crate::text_laws::byte_len(before),
        value_location.end == crate::text_laws::byte_len(before) + crate::text_laws::byte_len(text),
        items@ == seq![
            ReplItem::ReplStatement(
                Statement::Assignment {
                    location,
                    pattern: Pattern::Variable { name },
                    value_location,
                },
            ),
        ],
        is_first_module(modules@, crate::repl::module_name((m.iter.0 + 1, 1)), i),
        first_function_returns(modules@[i], "run_save"@, j, type_),
        m.var_index < usize::MAX,
    ensures
        ({
            let line = before + text + after;
            let parsed = seq![Event::<E>::Parsed { items }];
            let compiled = parsed.push(Event::Compiled { modules });
            let run = compiled.push(Event::Completed);
            let asked = run.push(Event::VarFound { found });
            let now = ReplModel { iter: (m.iter.0 + 1, 1), ..m };
            let (end, step) = crate::repl::turn_laws::played(m, line, asked);
            &&& waits(m, line, parsed)
            &&& action_of(m, line, parsed) is Compile
            &&& crate::repl::line_laws::saves_value_of(
                now,
                action_of(m, line, parsed)->code,
                text,
                gaps.0,
                gaps.1,
            )
            &&& waits(m, line, compiled)
            &&& action_of(m, line, compiled) == (ActionModel::RunMain { module: modules@[i].name@ })
            &&& waits(m, line, run)
            &&& action_of(m, line, run) == (ActionModel::HasVar { index: m.var_index })
            &&& crate::repl::turn_laws::playable(m, line, asked)
            &&& step == (StepModel::<E>::Done { result: Ok(()) })
            &&& end == (ReplModel { vars: end.vars, var_index: end.var_index, ..now })
            &&& found ==> {
                &&& crate::table::lookup(end.vars, name@) == Some(
                    ValueModel { index: m.var_index, type_ },
                )
                &&& end.var_index == m.var_index + 1
            }
            &&& !found ==> end == now
        }),
{
    let line = before + text + after;
    let now = ReplModel { iter: (m.iter.0 + 1, 1), ..m };
    let begun = Seq::<Event<E>>::empty();
    let parsed = seq![Event::<E>::Parsed { items }];
    let compiled = parsed.push(Event::Compiled { modules });
    let run = compiled.push(Event::Completed);
    let asked = run.push(Event::VarFound { found });
    crate::text_laws::law_cut_is_the_text(before, text, after);
    crate::repl::line_laws::law_type_command_is_taken_off::<E>(m, line);
    assert(parsed.drop_last() =~= begun);
    assert(compiled.drop_last() =~= parsed);
    assert(run.drop_last() =~= compiled);
    assert(asked.drop_last() =~= run);
    assert(crate::repl::turn_laws::playable(m, line, begun));
    assert(crate::repl::turn_laws::playable(m, line, parsed));
    let gaps = crate::repl::source_laws::law_let_is_evaluated_in_session(now, text);
    law_first_of_a_name_counts(
        modules@,
        crate::repl::module_name(now.iter),
        i,
        "run_save"@,
        j,
        type_,
    );
    assert(crate::repl::turn_laws::playable(m, line, compiled));
    assert(crate::repl::turn_laws::playable(m, line, run));
    assert(crate::repl::turn_laws::playable(m, line, asked));
    crate::table::law_bound_lookup(
        m.vars,
        name@,
        ValueModel { index: m.var_index, type_ },
        name@,
    );
    gaps
}

/// A line that holds one constant adds its text to the constants, compiles the session
/// with it, and is done.
pub proof fn law_constant_line<E>(
    m: ReplModel,
    before: Seq<char>,
    text: Seq<char>,
    after: Seq<char>,
    location: SrcSpan,
    value_location: SrcSpan,
    items: Vec<ReplItem>,
    modules: Vec<Module>,
    i: int,
)
    requires
        !crate::repl::line_laws::asks_for_type::<E>(m, before + text + after),
        location.start == crate::text_laws::byte_len(before),
        value_location.end == crate::text_laws::byte_len(before) + crate::text_laws::byte_len(text),
        items@ == seq![
            ReplItem::ReplDefinition(
                Definition::ModuleConstant { location, value_location },
            ),
        ],
        0 <= i < modules@.len(),
        modules@[i].name@ == crate::repl::module_name((m.iter.0 + 1, 1)),
    ensures
        ({
            let line = before + text + after;
            let parsed = seq![Event::<E>::Parsed { items }];
            let compiled = parsed.push(Event::Compiled { modules });
            let done = ReplModel {
                iter: (m.iter.0 + 1, 1),
                consts: m.consts.push(text),
                ..m
            };
            &&& waits(m, line, parsed)
            &&& action_of(m, line, parsed) is Compile
            &&& action_of(m, line, parsed)->code == crate::repl::source(done)
            &&& crate::repl::turn_laws::playable(m, line, compiled)
            &&& crate::repl::turn_laws::played(m, line, compiled) == (
                done,
                StepModel::<E>::Done { result: Ok(()) },
            )
        }),
{
    let line = before + text + after;
    let begun = Seq::<Event<E>>::empty();
    let parsed = seq![Event::<E>::Parsed { items }];
    let compiled = parsed.push(Event::Compiled { modules });
    crate::text_laws::law_cut_is_the_text(before, text, after);
    crate::repl::line_laws::law_type_command_is_taken_off::<E>(m, line);
    assert(parsed.drop_last() =~= begun);
    assert(compiled.drop_last() =~= parsed);
    assert(crate::repl::turn_laws::playable(m, line, begun));
    assert(crate::repl::turn_laws::playable(m, line, parsed));
    lemma_named_module_is_there(modules@, crate::repl::module_name((m.iter.0 + 1, 1)), i);
    assert(crate::repl::turn_laws::playable(m, line, compiled));
}

/// Where parsing or compiling fails, the line is over, and reports the very failure: one
/// of parsing together with the text that was to be parsed.
pub proof fn law_failure_is_reported<E>(
    m: ReplModel,
    line: Seq<char>,
    events: Seq<Event<E>>,
    error: E,
)
    requires
        waits(m, line, events),
        action_of(m, line, events) is Parse || action_of(m, line, events) is Compile,
    ensures
        ({
            let failed = events.push(Event::Failed { error });
            &&& crate::repl::turn_laws::playable(m, line, failed)
            &&& crate::repl::turn_laws::played(m, line, failed) == (
                ReplModel { iter: (m.iter.0 + 1, 0), ..m },
                StepModel::Done {
                    result: Err(
                        match action_of(m, line, events) {
                            ActionModel::Parse { src } => ReplErrorModel::Parse {
                                path: "repl"@,
                                src,
                                error,
                            },
                            _ => ReplErrorModel::Build { error },
                        },
                    ),
                },
            )
        }),
{
    let failed = events.push(Event::Failed { error });
    assert(failed.drop_last() =~= events);
    assert(events.len() == 0 ==> events =~= Seq::empty());
    if events.len() > 0 {
        crate::repl::turn_laws::law_turn_follows_its_line(m, line, events);
    } else {
        crate::repl::line_laws::law_type_command_is_taken_off::<E>(m, line);
    }
    crate::repl::turn_laws::law_failure_rolls_back(m, line, failed);
}

/// Where an item begins and ends in a line.
pub open spec fn place_of(item: ReplItem) -> (int, int) {
    match item {
        ReplItem::ReplDefinition(def) => match def {
            Definition::Import { location } => (location.start as int, location.end as int),
            Definition::TypeAlias { location } => (location.start as int, location.end as int),
            Definition::CustomType { location, end_position } => (
                location.start as int,
                end_position as int,
            ),
            Definition::ModuleConstant { location, value_location } => (
                location.start as int,
                value_location.end as int,
            ),
            Definition::Function(f) => (f.location.start as int, f.end_position as int),
        },
        ReplItem::ReplStatement(statement) => match statement {
            Statement::Use { location } => (location.start as int, location.end as int),
            Statement::Expression { location } => (location.start as int, location.end as int),
            Statement::Assert { location } => (location.start as int, location.end as int),
            Statement::Assignment { location, value_location, .. } => (
                location.start as int,
                value_location.end as int,
            ),
        },
    }
}

/// An item that stands in a line, anywhere, can be run: its text is `text`, and a
/// function has a name, and a body that begins within the text, after `head`.
pub proof fn law_item_in_line_fits(
    before: Seq<char>,
    text: Seq<char>,
    after: Seq<char>,
    item: ReplItem,
    head: Seq<char>,
    body: Seq<char>,
)
    requires
        place_of(item) == (
            crate::text_laws::byte_len(before),
            crate::text_laws::byte_len(before) + crate::text_laws::byte_len(text),
        ),
        item matches ReplItem::ReplDefinition(Definition::Function(f)) ==> {
            &&& f.name is Some
            &&& text == head + body
            &&& f.body_location.start == crate::text_laws::byte_len(before)
                + crate::text_laws::byte_len(head)
        },
    ensures
        crate::repl::turn::item_fits(before + text + after, false, item),
        crate::repl::turn::item_fits(before + text + after, true, item),
{
    crate::text_laws::law_cut_is_the_text(before, text, after);
    crate::text_laws::law_insertion_comes_between(head, Seq::empty(), body);
}

/// A line takes the answer to its action and goes on with the next item, as long as
/// that can be counted and run: what was shown or evaluated needs nothing more, and what
/// was compiled is to be among the modules. Asked for a type, or for a variable that was
/// saved, the compiled function is to be there.
pub proof fn law_fitting_answers_are_taken<E>(
    m: ReplModel,
    line: Seq<char>,
    events: Seq<Event<E>>,
    answer: Event<E>,
    i: int,
)
    requires
        waits(m, line, events),
        events.len() > 0,
        ({
            let now = session_of(m, line, events);
            let items = crate::repl::turn_laws::items_of(events);
            now.iter.1 < items.len() ==> {
                &&& now.iter.1 < usize::MAX
                &&& crate::repl::turn::item_fits(
                    crate::repl::turn_laws::parsed_text::<E>(m, line),
                    crate::repl::line_laws::asks_for_type::<E>(m, line),
                    items[now.iter.1 as int],
                )
            }
        }),
        match action_of(m, line, events) {
            ActionModel::Parse { .. } => false,
            ActionModel::Print { .. } | ActionModel::RunMain { .. } => answer is Completed,
            ActionModel::Compile { .. } => answer matches Event::Compiled { modules } && {
                &&& is_first_module(
                    modules@,
                    crate::repl::module_name(session_of(m, line, events).iter),
                    i,
                )
                &&& crate::repl::line_laws::asks_for_type::<E>(m, line)
                    ==> crate::compiled::has_function(modules@[i], "repl_main"@)
            },
            ActionModel::HasVar { .. } => answer matches Event::VarFound { found } && {
                &&& events.len() > 2
                &&& found ==> {
                    &&& session_of(m, line, events).var_index < usize::MAX
                    &&& events[events.len() - 2] matches Event::Compiled { modules } && {
                        &&& is_first_module(
                            modules@,
                            crate::repl::module_name(session_of(m, line, events).iter),
                            i,
                        )
                        &&& crate::compiled::has_function(modules@[i], "run_save"@)
                    }
                }
            },
        },
    ensures
        crate::repl::turn_laws::playable(m, line, events.push(answer)),
{
    let longer = events.push(answer);
    assert(longer.drop_last() =~= events);
    crate::repl::turn_laws::law_turn_follows_its_line(m, line, events);
    match (action_of(m, line, events), answer) {
        (ActionModel::Compile { .. }, Event::Compiled { modules }) => {
            lemma_module_named(
                modules@,
                crate::repl::module_name(session_of(m, line, events).iter),
                i,
            );
            crate::repl::line_laws::lemma_compiling(m, line, events);
        },
        (ActionModel::HasVar { .. }, Event::VarFound { found }) => {
            let run = events.drop_last();
            assert(waits(m, line, run));
            law_let_asks_for_its_value(m, line, events);
            lemma_running(m, line, run);
            assert(run.last() == events[events.len() - 2]);
            if found {
                lemma_module_named(
                    run.last()->modules@,
                    crate::repl::module_name(session_of(m, line, events).iter),
                    i,
                );
            }
        },
        _ => {},
    }
}

} // verus!
