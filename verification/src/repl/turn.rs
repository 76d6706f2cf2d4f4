//! Running a line: what is asked of the outside, and what its answers lead to.
//!
//! [`Repl::run`] begins a turn and gives the first [`Action`]. Whoever performs it
//! hands the outcome to [`Repl::resume`] as an [`Event`], and is given the next
//! [`Step`], until the turn is over.

use vstd::pervasive::unreached;
use vstd::prelude::*;
use vstd::string::*;
use crate::compiled::{bring_module_first, get_function, module_position, Module};
use crate::erlang::REPL_MAIN;
use crate::repl::{Repl, ReplModel, Value, ValueModel, RUN_SAVE};
use crate::syntax::{
    get_args_names, get_definition_src, is_definition_in, Definition, Function, Pattern, ReplItem,
    Statement,
};
use crate::text::{insert_str, is_sliceable, push_decimal, slice, strip_prefix};

verus! {

/// What a line begins with that asks for the type of an expression.
pub const TYPE: &'static str = ":type ";

/// The path under which a line is known in the compiler's reports.
pub const REPL_PATH: &'static str = "repl";

/// What is done with a compiled module.
#[derive(Debug)]
pub enum Goal {
    /// The type of the expression is shown.
    ShowType,
    /// Nothing: that it compiles is enough.
    Check,
    /// It is evaluated.
    Evaluate,
    /// It is evaluated, and the value that it saved becomes a variable.
    Bind { name: String },
}

/// What a turn is waiting for.
#[derive(Debug)]
pub enum Phase {
    Parsing,
    Printing,
    Compiling { goal: Goal },
    Running { goal: Goal, module: Module },
    Probing { name: String, module: Module },
}

/// What is to be done outside.
#[derive(Debug)]
pub enum Action {
    /// Parse `src`. Leads to [`Event::Parsed`] or [`Event::Failed`].
    Parse { src: String },
    /// Print `message` on a line. Leads to [`Event::Completed`].
    Print { message: String },
    /// Compile the project together with a module that holds `code`, in a file of
    /// that name. Leads to [`Event::Compiled`] or [`Event::Failed`].
    Compile { file: String, code: String },
    /// Evaluate a compiled module. Leads to [`Event::Completed`].
    RunMain { module: String },
    /// Ask whether a value was saved under an index. Leads to [`Event::VarFound`].
    HasVar { index: usize },
}

/// An [`Action`], as text and numbers.
pub enum ActionModel {
    Parse { src: Seq<char> },
    Print { message: Seq<char> },
    Compile { file: Seq<char>, code: Seq<char> },
    RunMain { module: Seq<char> },
    HasVar { index: nat },
}

impl View for Action {
    type V = ActionModel;

    open spec fn view(&self) -> ActionModel {
        match *self {
            Action::Parse { src } => ActionModel::Parse { src: src@ },
            Action::Print { message } => ActionModel::Print { message: message@ },
            Action::Compile { file, code } => ActionModel::Compile { file: file@, code: code@ },
            Action::RunMain { module } => ActionModel::RunMain { module: module@ },
            Action::HasVar { index } => ActionModel::HasVar { index: index as nat },
        }
    }
}

/// What came of an [`Action`]. `E` is the compiler's error.
#[derive(Debug)]
pub enum Event<E> {
    Parsed { items: Vec<ReplItem> },
    /// All the modules of the project, in any order.
    Compiled { modules: Vec<Module> },
    Failed { error: E },
    Completed,
    VarFound { found: bool },
}

/// Why a line could not be run. `E` is the compiler's error.
#[derive(Debug)]
pub enum ReplError<E> {
    /// The line is not Gleam.
    Parse { path: String, src: String, error: E },
    /// Its code does not compile.
    Build { error: E },
}

/// A [`ReplError`], as text.
pub enum ReplErrorModel<E> {
    Parse { path: Seq<char>, src: Seq<char>, error: E },
    Build { error: E },
}

impl<E> View for ReplError<E> {
    type V = ReplErrorModel<E>;

    open spec fn view(&self) -> ReplErrorModel<E> {
        match *self {
            ReplError::Parse { path, src, error } => ReplErrorModel::Parse {
                path: path@,
                src: src@,
                error,
            },
            ReplError::Build { error } => ReplErrorModel::Build { error },
        }
    }
}

/// A line that is being run.
pub struct Turn {
    start: Repl,
    input: String,
    type_: bool,
    items: Vec<ReplItem>,
    next: usize,
    phase: Phase,
}

/// A [`Turn`], as text and numbers.
#[verifier::ext_equal]
pub struct TurnModel {
    /// The session as it was before the first item.
    pub start: ReplModel,
    /// The code of the line.
    pub input: Seq<char>,
    /// Whether the type of the code is asked for.
    pub type_: bool,
    /// The items of the code.
    pub items: Seq<ReplItem>,
    /// How many items were begun.
    pub next: nat,
    /// What the turn is waiting for.
    pub phase: Phase,
}

impl View for Turn {
    type V = TurnModel;

    closed spec fn view(&self) -> TurnModel {
        TurnModel {
            start: self.start@,
            input: self.input@,
            type_: self.type_,
            items: self.items@,
            next: self.next as nat,
            phase: self.phase,
        }
    }
}

/// What comes next in a turn.
pub enum Step<E> {
    /// Perform `action`, then resume `turn`.
    Act { turn: Turn, action: Action },
    /// The turn is over.
    Done { result: Result<(), ReplError<E>> },
}

/// A [`Step`], as text and numbers.
pub enum StepModel<E> {
    Act { turn: TurnModel, action: ActionModel },
    Done { result: Result<(), ReplErrorModel<E>> },
}

impl<E> View for Step<E> {
    type V = StepModel<E>;

    open spec fn view(&self) -> StepModel<E> {
        match *self {
            Step::Act { turn, action } => StepModel::Act { turn: turn@, action: action@ },
            Step::Done { result } => StepModel::Done {
                result: match result {
                    Ok(()) => Ok(()),
                    Err(error) => Err(error@),
                },
            },
        }
    }
}

/// The code of a line, and whether its type is asked for.
pub open spec fn read_line(line: Seq<char>) -> (Seq<char>, bool) {
    let trimmed = crate::text::trimmed(line);
    if TYPE@.is_prefix_of(trimmed) {
        (trimmed.skip(TYPE@.len() as int), true)
    } else {
        (line, false)
    }
}

/// The session once a line was begun.
pub open spec fn begun(m: ReplModel) -> ReplModel {
    ReplModel { iter: (m.iter.0 + 1, 0), ..m }
}

/// The turn of a line that was just begun.
pub open spec fn first_turn(m: ReplModel, line: Seq<char>) -> TurnModel {
    TurnModel {
        start: begun(m),
        input: read_line(line).0,
        type_: read_line(line).1,
        items: Seq::empty(),
        next: 0,
        phase: Phase::Parsing,
    }
}

/// The compilation of `code` for the item that is being run.
pub open spec fn compile(m: ReplModel, code: Seq<char>) -> ActionModel {
    ActionModel::Compile { file: crate::repl::file_name(m.iter), code }
}

/// A message on a line.
pub open spec fn print(message: Seq<char>) -> ActionModel {
    ActionModel::Print { message }
}

/// Where the variables are loaded in the code of a function: before its body.
pub open spec fn body_offset(f: Function) -> int {
    f.body_location.start - f.location.start
}

/// The code of a function, with the variables loaded that it does not take as
/// arguments.
pub open spec fn function_code(m: ReplModel, f: Function, input: Seq<char>) -> Seq<char> {
    crate::text::inserted(
        crate::syntax::definition_src(Definition::Function(f), input),
        body_offset(f),
        "\n  "@ + crate::repl::lets(m.vars, crate::syntax::args_names(f.arguments@)),
    )
}

/// The session once a definition was added.
pub open spec fn with_definition(m: ReplModel, def: Definition, input: Seq<char>) -> ReplModel {
    let src = crate::syntax::definition_src(def, input);
    match def {
        Definition::Import { .. } => m,
        Definition::TypeAlias { .. } | Definition::CustomType { .. } => ReplModel {
            types: m.types.push(src),
            ..m
        },
        Definition::ModuleConstant { .. } => ReplModel { consts: m.consts.push(src), ..m },
        Definition::Function(f) => ReplModel {
            fns: crate::table::bound(m.fns, f.name->0@, function_code(m, f, input)),
            ..m
        },
    }
}

/// The start and the end of what a statement evaluates.
pub open spec fn statement_range(statement: Statement) -> (u32, u32) {
    match statement {
        Statement::Use { location } | Statement::Expression { location } | Statement::Assert {
            location,
        } => (location.start, location.end),
        Statement::Assignment { location, value_location, .. } => (
            location.start,
            value_location.end,
        ),
    }
}

/// The code that a statement evaluates.
pub open spec fn statement_src(statement: Statement, input: Seq<char>) -> Seq<char> {
    let (start, end) = statement_range(statement);
    crate::text::sliced(input, start as int, end as int)
}

/// The source that evaluates an expression.
pub open spec fn expr_source(m: ReplModel, expr: Seq<char>) -> Seq<char> {
    crate::repl::source(m) + crate::repl::expr_main(m, expr)
}

/// The source that evaluates code and saves its value.
pub open spec fn let_source(m: ReplModel, code: Seq<char>) -> Seq<char> {
    crate::repl::source(m) + crate::repl::let_main(m, code)
}

/// The session, the phase and the action to which an item leads, where `m` already
/// counts the item.
pub open spec fn item_begun(m: ReplModel, input: Seq<char>, type_: bool, item: ReplItem) -> (
    ReplModel,
    Phase,
    ActionModel,
) {
    match item {
        ReplItem::ReplDefinition(def) => if type_ {
            (m, Phase::Printing, print(TYPE@ + "command cannot be used with definitions."@))
        } else if def is Import {
            (m, Phase::Printing, print("imports are not supported."@))
        } else {
            let m = with_definition(m, def, input);
            (m, Phase::Compiling { goal: Goal::Check }, compile(m, crate::repl::source(m)))
        },
        ReplItem::ReplStatement(statement) => if type_ {
            (m, Phase::Compiling { goal: Goal::ShowType }, compile(m, expr_source(m, input)))
        } else {
            let code = statement_src(statement, input);
            match statement {
                Statement::Use { .. } => (
                    m,
                    Phase::Printing,
                    print("use statements are not supported outside blocks."@),
                ),
                Statement::Expression { .. } | Statement::Assignment {
                    pattern: Pattern::Discard,
                    ..
                } => (
                    m,
                    Phase::Compiling { goal: Goal::Evaluate },
                    compile(m, expr_source(m, code)),
                ),
                Statement::Assignment { pattern: Pattern::Variable { name }, .. } => (
                    m,
                    Phase::Compiling { goal: Goal::Bind { name } },
                    compile(m, let_source(m, code)),
                ),
                Statement::Assignment { pattern: Pattern::Other, .. } => (
                    m,
                    Phase::Printing,
                    print("patterns are not supported in let statements."@),
                ),
                Statement::Assert { .. } => (
                    m,
                    Phase::Printing,
                    print("assert is not supported."@),
                ),
            }
        },
    }
}

/// Goes on with the next item, or ends the turn after the last.
pub open spec fn proceeded<E>(m: ReplModel, t: TurnModel) -> (ReplModel, StepModel<E>) {
    if t.next < t.items.len() {
        let counted = ReplModel { iter: (m.iter.0, m.iter.1 + 1), ..m };
        let (m, phase, action) = item_begun(counted, t.input, t.type_, t.items[t.next as int]);
        (m, StepModel::Act { turn: TurnModel { next: t.next + 1, phase, ..t }, action })
    } else {
        (m, StepModel::Done { result: Ok(()) })
    }
}

/// The session once a `let` was evaluated: where the value was saved, the name
/// stands for it.
pub open spec fn with_variable(m: ReplModel, name: Seq<char>, module: Module, found: bool) -> ReplModel {
    if found {
        ReplModel {
            vars: crate::table::bound(
                m.vars,
                name,
                ValueModel {
                    index: m.var_index,
                    type_: crate::compiled::return_type_of(module, RUN_SAVE@),
                },
            ),
            var_index: m.var_index + 1,
            ..m
        }
    } else {
        m
    }
}

/// The session and the step to which an event leads.
pub open spec fn advanced<E>(m: ReplModel, t: TurnModel, event: Event<E>) -> (
    ReplModel,
    StepModel<E>,
) {
    match (t.phase, event) {
        (Phase::Parsing, Event::Parsed { items }) => if t.type_ && items@.len() != 1 {
            (
                m,
                StepModel::Act {
                    turn: TurnModel {
                        items: items@,
                        next: items@.len(),
                        phase: Phase::Printing,
                        ..t
                    },
                    action: print(TYPE@ + "command expects exactly one expression."@),
                },
            )
        } else {
            proceeded(m, TurnModel { items: items@, ..t })
        },
        (Phase::Parsing, Event::Failed { error }) => (
            m,
            StepModel::Done {
                result: Err(ReplErrorModel::Parse { path: REPL_PATH@, src: t.input, error }),
            },
        ),
        (Phase::Printing, Event::Completed) => proceeded(m, t),
        (Phase::Compiling { goal }, Event::Compiled { modules }) => {
            let module = crate::compiled::module_named(
                modules@,
                crate::repl::module_name(m.iter),
            );
            match goal {
                Goal::ShowType => (
                    m,
                    StepModel::Act {
                        turn: TurnModel { phase: Phase::Printing, ..t },
                        action: print(crate::compiled::return_type_of(module, REPL_MAIN@)),
                    },
                ),
                Goal::Check => proceeded(m, t),
                Goal::Evaluate | Goal::Bind { .. } => (
                    m,
                    StepModel::Act {
                        turn: TurnModel { phase: Phase::Running { goal, module }, ..t },
                        action: ActionModel::RunMain { module: module.name@ },
                    },
                ),
            }
        },
        (Phase::Compiling { .. }, Event::Failed { error }) => (
            t.start,
            StepModel::Done { result: Err(ReplErrorModel::Build { error }) },
        ),
        (Phase::Running { goal: Goal::Bind { name }, module }, Event::Completed) => (
            m,
            StepModel::Act {
                turn: TurnModel { phase: Phase::Probing { name, module }, ..t },
                action: ActionModel::HasVar { index: m.var_index },
            },
        ),
        (Phase::Running { .. }, Event::Completed) => proceeded(m, t),
        (Phase::Probing { name, module }, Event::VarFound { found }) => proceeded(
            with_variable(m, name@, module, found),
            t,
        ),
        _ => arbitrary(),
    }
}

/// What an item points at is there: the source can be cut where the item says, and
/// a function has a name and a body that begins within it.
pub open spec fn item_fits(input: Seq<char>, type_: bool, item: ReplItem) -> bool {
    type_ || match item {
        ReplItem::ReplDefinition(def) => {
            &&& crate::syntax::definition_fits(def, input)
            &&& def matches Definition::Function(f) ==> {
                &&& f.name is Some
                &&& crate::text::insertable(
                    crate::syntax::definition_src(def, input),
                    body_offset(f),
                )
            }
        },
        ReplItem::ReplStatement(statement) => {
            let (start, end) = statement_range(statement);
            match statement {
                Statement::Assert { .. } | Statement::Assignment { pattern: Pattern::Other, .. } => true,
                _ => crate::text::sliceable(input, start as int, end as int),
            }
        },
    }
}

/// The next item, if there is one, can be counted and points at what is there.
pub open spec fn next_fits(m: ReplModel, t: TurnModel) -> bool {
    t.next < t.items.len() ==> {
        &&& m.iter.1 < usize::MAX
        &&& item_fits(t.input, t.type_, t.items[t.next as int])
    }
}

/// The event is one that the turn waits for: it answers the turn's action, and holds
/// what the turn will look for in it.
pub open spec fn accepted<E>(m: ReplModel, t: TurnModel, event: Event<E>) -> bool {
    match (t.phase, event) {
        (Phase::Parsing, Event::Parsed { items }) => {
            t.type_ && items@.len() != 1 || next_fits(m, TurnModel { items: items@, ..t })
        },
        (Phase::Parsing, Event::Failed { .. }) => true,
        (Phase::Printing, Event::Completed) => next_fits(m, t),
        (Phase::Compiling { goal }, Event::Compiled { modules }) => {
            let name = crate::repl::module_name(m.iter);
            &&& crate::compiled::has_module(modules@, name)
            &&& goal is ShowType ==> crate::compiled::has_function(
                crate::compiled::module_named(modules@, name),
                REPL_MAIN@,
            )
            &&& goal is Check ==> next_fits(m, t)
        },
        (Phase::Compiling { .. }, Event::Failed { .. }) => true,
        (Phase::Running { goal, .. }, Event::Completed) => goal is Bind || next_fits(m, t),
        (Phase::Probing { module, .. }, Event::VarFound { found }) => {
            &&& next_fits(m, t)
            &&& found ==> {
                &&& crate::compiled::has_function(module, RUN_SAVE@)
                &&& m.var_index < usize::MAX
            }
        },
        _ => false,
    }
}

fn statement_bounds(statement: &Statement) -> (res: (usize, usize))
    ensures
        res.0 == statement_range(*statement).0,
        res.1 == statement_range(*statement).1,
{
    match statement {
        Statement::Use { location } | Statement::Expression { location } | Statement::Assert {
            location,
        } => (location.start as usize, location.end as usize),
        Statement::Assignment { location, value_location, .. } => (
            location.start as usize,
            value_location.end as usize,
        ),
    }
}

fn does_item_fit(input: &str, type_: bool, item: &ReplItem) -> (res: bool)
    ensures
        res == item_fits(input@, type_, *item),
{
    if type_ {
        return true;
    }
    match item {
        ReplItem::ReplDefinition(def) => {
            if !is_definition_in(def, input) {
                return false;
            }
            match def {
                Definition::Function(f) => {
                    if f.name.is_none() || f.body_location.start < f.location.start {
                        return false;
                    }
                    let src = get_definition_src(def, input);
                    let at: usize = (f.body_location.start - f.location.start) as usize;
                    proof {
                        vstd::utf8::encode_utf8_valid_utf8(src@);
                    }
                    src.is_char_boundary(at)
                },
                _ => true,
            }
        },
        ReplItem::ReplStatement(statement) => match statement {
            Statement::Assert { .. } | Statement::Assignment { pattern: Pattern::Other, .. } => true,
            _ => {
                let (start, end) = statement_bounds(statement);
                is_sliceable(input, start, end)
            },
        },
    }
}

impl Repl {
    fn does_next_fit(&self, turn: &Turn) -> (res: bool)
        ensures
            res == next_fits(self@, turn@),
    {
        if turn.next < turn.items.len() {
            self.iter.1 < usize::MAX && does_item_fit(
                turn.input.as_str(),
                turn.type_,
                &turn.items[turn.next],
            )
        } else {
            true
        }
    }

    /// The name of the module that is compiled for the item that is being run.
    pub fn module_name(&self) -> (res: String)
        ensures
            res@ == crate::repl::module_name(self@.iter),
    {
        let mut res = String::new();
        res.append("repl");
        push_decimal(&mut res, self.iter.0);
        res.append("_");
        push_decimal(&mut res, self.iter.1);
        assert(res@ =~= crate::repl::module_name(self@.iter));
        res
    }

    /// Whether `resume(turn, event)` may be called.
    pub fn accepts<E>(&self, turn: &Turn, event: &Event<E>) -> (res: bool)
        ensures
            res == accepted(self@, turn@, *event),
    {
        match (&turn.phase, event) {
            (Phase::Parsing, Event::Parsed { items }) => {
                if turn.type_ && items.len() != 1 {
                    true
                } else if turn.next < items.len() {
                    self.iter.1 < usize::MAX && does_item_fit(
                        turn.input.as_str(),
                        turn.type_,
                        &items[turn.next],
                    )
                } else {
                    true
                }
            },
            (Phase::Parsing, Event::Failed { .. }) => true,
            (Phase::Printing, Event::Completed) => self.does_next_fit(turn),
            (Phase::Compiling { goal }, Event::Compiled { modules }) => {
                let name = self.module_name();
                match module_position(modules, name.as_str()) {
                    Some(pos) => match goal {
                        Goal::ShowType => get_function(&modules[pos], REPL_MAIN).is_some(),
                        Goal::Check => self.does_next_fit(turn),
                        Goal::Evaluate | Goal::Bind { .. } => true,
                    },
                    None => false,
                }
            },
            (Phase::Compiling { .. }, Event::Failed { .. }) => true,
            (Phase::Running { goal: Goal::Bind { .. }, .. }, Event::Completed) => true,
            (Phase::Running { .. }, Event::Completed) => self.does_next_fit(turn),
            (Phase::Probing { module, .. }, Event::VarFound { found }) => {
                self.does_next_fit(turn) && (!*found || get_function(module, RUN_SAVE).is_some()
                    && self.var_index < usize::MAX)
            },
            _ => false,
        }
    }
}

impl Repl {
    /// Whether another line can be counted.
    pub fn can_run(&self) -> (res: bool)
        ensures
            res == (self@.iter.0 < usize::MAX),
    {
        self.iter.0 < usize::MAX
    }

    /// Begins to run a line: the first action is to parse its code.
    pub fn run(&mut self, input: &str) -> (res: (Turn, Action))
        requires
            old(self)@.iter.0 < usize::MAX,
        ensures
            final(self)@ == begun(old(self)@),
            res.0@ == first_turn(old(self)@, input@),
            res.1@ == (ActionModel::Parse { src: read_line(input@).0 }),
            old(self)@.wf() ==> final(self)@.wf(),
    {
        self.iter = (self.iter.0 + 1, 0);
        let (code, type_) = match strip_prefix(input.trim(), TYPE) {
            Some(expr) => (expr, true),
            None => (input, false),
        };
        let turn = Turn {
            start: self.snapshot(),
            input: code.to_owned(),
            type_,
            items: Vec::new(),
            next: 0,
            phase: Phase::Parsing,
        };
        assert(self@ =~= begun(old(self)@));
        (turn, Action::Parse { src: code.to_owned() })
    }

    fn compile(&self, code: String) -> (res: Action)
        ensures
            res@ == compile(self@, code@),
    {
        let mut file = self.module_name();
        file.append(".gleam");
        Action::Compile { file, code }
    }

    /// Compiles what was defined, which is enough for a definition.
    fn run_check(&self) -> (res: (Phase, Action))
        ensures
            res.0 == (Phase::Compiling { goal: Goal::Check }),
            res.1@ == compile(self@, crate::repl::source(self@)),
    {
        (Phase::Compiling { goal: Goal::Check }, self.compile(self.build_source()))
    }

    fn run_const(&mut self, code: String) -> (res: (Phase, Action))
        ensures
            final(self)@ == (ReplModel { consts: old(self)@.consts.push(code@), ..old(self)@ }),
            res.0 == (Phase::Compiling { goal: Goal::Check }),
            res.1@ == compile(final(self)@, crate::repl::source(final(self)@)),
    {
        let ghost before = self.consts@;
        self.consts.push(code);
        assert(crate::repl::texts(self.consts@) =~= crate::repl::texts(before).push(code@));
        self.run_check()
    }

    fn run_type(&mut self, code: String) -> (res: (Phase, Action))
        ensures
            final(self)@ == (ReplModel { types: old(self)@.types.push(code@), ..old(self)@ }),
            res.0 == (Phase::Compiling { goal: Goal::Check }),
            res.1@ == compile(final(self)@, crate::repl::source(final(self)@)),
    {
        let ghost before = self.types@;
        self.types.push(code);
        assert(crate::repl::texts(self.types@) =~= crate::repl::texts(before).push(code@));
        self.run_check()
    }

    fn run_fn(&mut self, name: String, code: String) -> (res: (Phase, Action))
        ensures
            final(self)@ == (ReplModel {
                fns: crate::table::bound(old(self)@.fns, name@, code@),
                ..old(self)@
            }),
            res.0 == (Phase::Compiling { goal: Goal::Check }),
            res.1@ == compile(final(self)@, crate::repl::source(final(self)@)),
            old(self)@.wf() ==> final(self)@.wf(),
    {
        self.fns.insert(name, code);
        self.run_check()
    }

    fn run_definition(&mut self, def: &Definition, input: &str) -> (res: (Phase, Action))
        requires
            item_fits(input@, false, ReplItem::ReplDefinition(*def)),
        ensures
            (final(self)@, res.0, res.1@) == item_begun(
                old(self)@,
                input@,
                false,
                ReplItem::ReplDefinition(*def),
            ),
            old(self)@.wf() ==> final(self)@.wf(),
    {
        let src = get_definition_src(def, input);
        match def {
            Definition::Import { .. } => say("imports are not supported.".to_owned()),
            Definition::TypeAlias { .. } | Definition::CustomType { .. } => {
                self.run_type(src.to_owned())
            },
            Definition::ModuleConstant { .. } => self.run_const(src.to_owned()),
            Definition::Function(f) => {
                let lets = self.gen_lets(&get_args_names(f));
                let mut insertion = "\n  ".to_owned();
                insertion.append(lets.as_str());
                let at: usize = (f.body_location.start - f.location.start) as usize;
                let code = insert_str(src, at, insertion.as_str());
                let name = match &f.name {
                    Some(name) => name.clone(),
                    None => unreached(),
                };
                self.run_fn(name, code)
            },
        }
    }

    fn run_statement(&self, statement: &Statement, input: &str) -> (res: (Phase, Action))
        requires
            item_fits(input@, false, ReplItem::ReplStatement(*statement)),
        ensures
            (self@, res.0, res.1@) == item_begun(
                self@,
                input@,
                false,
                ReplItem::ReplStatement(*statement),
            ),
    {
        let (start, end) = statement_bounds(statement);
        match statement {
            Statement::Use { .. } => say(
                "use statements are not supported outside blocks.".to_owned(),
            ),
            Statement::Expression { .. } | Statement::Assignment {
                pattern: Pattern::Discard,
                ..
            } => self.run_expr(slice(input, start, end)),
            Statement::Assignment { pattern: Pattern::Variable { name }, .. } => {
                self.run_let(name, slice(input, start, end))
            },
            Statement::Assignment { pattern: Pattern::Other, .. } => say(
                "patterns are not supported in let statements.".to_owned(),
            ),
            Statement::Assert { .. } => say("assert is not supported.".to_owned()),
        }
    }

    fn run_type_cmd(&self, code: &str) -> (res: (Phase, Action))
        ensures
            res.0 == (Phase::Compiling { goal: Goal::ShowType }),
            res.1@ == compile(self@, expr_source(self@, code@)),
    {
        let mut src = self.build_source();
        self.add_expr(&mut src, code);
        (Phase::Compiling { goal: Goal::ShowType }, self.compile(src))
    }

    fn run_expr(&self, code: &str) -> (res: (Phase, Action))
        ensures
            res.0 == (Phase::Compiling { goal: Goal::Evaluate }),
            res.1@ == compile(self@, expr_source(self@, code@)),
    {
        let mut src = self.build_source();
        self.add_expr(&mut src, code);
        (Phase::Compiling { goal: Goal::Evaluate }, self.compile(src))
    }

    fn run_let(&self, name: &String, code: &str) -> (res: (Phase, Action))
        ensures
            res.0 == (Phase::Compiling { goal: Goal::Bind { name: *name } }),
            res.1@ == compile(self@, let_source(self@, code@)),
    {
        let mut src = self.build_source();
        self.add_let(&mut src, code);
        (Phase::Compiling { goal: Goal::Bind { name: name.clone() } }, self.compile(src))
    }

    fn proceed<E>(&mut self, turn: Turn) -> (res: Step<E>)
        requires
            next_fits(old(self)@, turn@),
        ensures
            (final(self)@, res@) == proceeded::<E>(old(self)@, turn@),
            old(self)@.wf() ==> final(self)@.wf(),
    {
        if turn.next >= turn.items.len() {
            return Step::Done { result: Ok(()) };
        }
        let mut turn = turn;
        let ghost before = turn@;
        self.iter = (self.iter.0, self.iter.1 + 1);
        let ghost counted = self@;
        let input = turn.input.as_str();
        let (phase, action) = match &turn.items[turn.next] {
            ReplItem::ReplDefinition(def) => if turn.type_ {
                let mut message = TYPE.to_owned();
                message.append("command cannot be used with definitions.");
                say(message)
            } else {
                self.run_definition(def, input)
            },
            ReplItem::ReplStatement(statement) => if turn.type_ {
                self.run_type_cmd(input)
            } else {
                self.run_statement(statement, input)
            },
        };
        turn.next = turn.next + 1;
        turn.phase = phase;
        assert(turn@ =~= TurnModel { next: before.next + 1, phase, ..before });
        Step::Act { turn, action }
    }

    /// Goes on with a turn, now that its action led to `event`.
    pub fn resume<E>(&mut self, turn: Turn, event: Event<E>) -> (res: Step<E>)
        requires
            accepted(old(self)@, turn@, event),
        ensures
            (final(self)@, res@) == advanced(old(self)@, turn@, event),
            old(self)@.wf() && turn@.start.wf() ==> final(self)@.wf(),
    {
        let mut turn = turn;
        let ghost before = turn@;
        let phase = turn.phase;
        turn.phase = Phase::Printing;
        match (phase, event) {
            (Phase::Parsing, Event::Parsed { items }) => {
                let n: usize = items.len();
                turn.items = items;
                if turn.type_ && n != 1 {
                    turn.next = n;
                    let mut message = TYPE.to_owned();
                    message.append("command expects exactly one expression.");
                    Step::Act { turn, action: Action::Print { message } }
                } else {
                    turn.phase = Phase::Parsing;
                    self.proceed(turn)
                }
            },
            (Phase::Parsing, Event::Failed { error }) => Step::Done {
                result: Err(
                    ReplError::Parse { path: REPL_PATH.to_owned(), src: turn.input, error },
                ),
            },
            (Phase::Compiling { goal }, Event::Compiled { modules }) => {
                let name = self.module_name();
                let mut modules = bring_module_first(modules, name.as_str());
                let module = modules.swap_remove(0);
                match goal {
                    Goal::ShowType => {
                        let message = match get_function(&module, REPL_MAIN) {
                            Some(return_type) => return_type.clone(),
                            None => unreached(),
                        };
                        Step::Act { turn, action: Action::Print { message } }
                    },
                    Goal::Check => {
                        turn.phase = Phase::Compiling { goal };
                        self.proceed(turn)
                    },
                    Goal::Evaluate | Goal::Bind { .. } => {
                        let action = Action::RunMain { module: module.name.clone() };
                        turn.phase = Phase::Running { goal, module };
                        Step::Act { turn, action }
                    },
                }
            },
            (Phase::Compiling { .. }, Event::Failed { error }) => {
                *self = turn.start;
                Step::Done { result: Err(ReplError::Build { error }) }
            },
            (Phase::Running { goal, module }, Event::Completed) => match goal {
                Goal::Bind { name } => {
                    turn.phase = Phase::Probing { name, module };
                    Step::Act { turn, action: Action::HasVar { index: self.var_index } }
                },
                _ => self.proceed(turn),
            },
            (Phase::Probing { name, module }, Event::VarFound { found }) => {
                if found {
                    match get_function(&module, RUN_SAVE) {
                        Some(return_type) => {
                            let value = Value {
                                index: self.var_index,
                                type_: return_type.clone(),
                            };
                            self.vars.insert(name, value);
                            self.var_index = self.var_index + 1;
                        },
                        None => unreached(),
                    }
                }
                self.proceed(turn)
            },
            (Phase::Printing, _) => self.proceed(turn),
            _ => unreached(),
        }
    }
}

/// The phase and the action that print a message.
fn say(message: String) -> (res: (Phase, Action))
    ensures
        res.0 is Printing,
        res.1@ == print(message@),
{
    (Phase::Printing, Action::Print { message })
}

} // verus!
