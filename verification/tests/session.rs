use gleam_repl::compiled::{
    bring_module_first, get_function, import_public_types_and_values, Module, ModuleInterface,
    TypedDefinition,
};
use gleam_repl::repl::turn::{Action, Event, ReplError, Step, Turn};
use gleam_repl::repl::Repl;
use gleam_repl::setup::ReplRuntime;
use gleam_repl::syntax::{
    get_args_names, get_definition_src, Definition, Function, Pattern, ReplItem, SrcSpan, Statement,
};
use gleam_repl::text::{insert_str, is_sliceable, slice};

const FNS: &str = r#"
@external(erlang, "gleam_repl", "repl_save")
pub fn repl_save(value: a) -> a

@external(erlang, "gleam_repl", "repl_load")
pub fn repl_load(index: Int) -> a

@external(erlang, "gleam_repl", "repl_has_var")
pub fn repl_has_var(index: Int) -> a

@external(erlang, "gleam_repl", "repl_print")
pub fn repl_print(value: a) -> a
"#;

type Answer = Event<&'static str>;

fn span(start: u32, end: u32) -> SrcSpan {
    SrcSpan { start, end }
}

fn repl() -> Repl {
    Repl::new(None, ReplRuntime::Erlang)
}

fn expression(text: &str) -> ReplItem {
    ReplItem::ReplStatement(Statement::Expression { location: span(0, text.len() as u32) })
}

fn assignment(pattern: Pattern, text: &str) -> ReplItem {
    ReplItem::ReplStatement(Statement::Assignment {
        location: span(0, 3),
        pattern,
        value_location: span(8, text.len() as u32),
    })
}

fn variable(name: &str) -> Pattern {
    Pattern::Variable { name: name.to_string() }
}

fn constant(text: &str) -> ReplItem {
    ReplItem::ReplDefinition(Definition::ModuleConstant {
        location: span(0, 5),
        value_location: span(6, text.len() as u32),
    })
}

fn function(name: &str, return_type: &str) -> TypedDefinition {
    TypedDefinition::Function {
        name: Some(name.to_string()),
        return_type: return_type.to_string(),
    }
}

fn module(name: &str, definitions: Vec<TypedDefinition>) -> Module {
    Module { name: name.to_string(), definitions }
}

fn compiled(name: &str, definitions: Vec<TypedDefinition>) -> Answer {
    Event::Compiled { modules: vec![module("app", vec![]), module(name, definitions)] }
}

fn act(step: Step<&'static str>) -> (Turn, Action) {
    match step {
        Step::Act { turn, action } => (turn, action),
        Step::Done { .. } => panic!("the turn is over"),
    }
}

fn done(step: Step<&'static str>) -> Result<(), ReplError<&'static str>> {
    match step {
        Step::Act { .. } => panic!("the turn is not over"),
        Step::Done { result } => result,
    }
}

fn resume(repl: &mut Repl, turn: Turn, event: Answer) -> Step<&'static str> {
    assert!(repl.accepts(&turn, &event));
    repl.resume(turn, event)
}

/// Begins a line and parses it into `items`.
fn parsed(repl: &mut Repl, line: &str, items: Vec<ReplItem>) -> Step<&'static str> {
    assert!(repl.can_run());
    let (turn, action) = repl.run(line);
    assert!(matches!(action, Action::Parse { .. }));
    resume(repl, turn, Event::Parsed { items })
}

fn expect_compile(action: Action, name: &str) -> String {
    match action {
        Action::Compile { file, code } => {
            assert_eq!(format!("{name}.gleam"), file);
            code
        }
        _ => panic!("no compilation: {action:?}"),
    }
}

fn expect_print(action: Action, text: &str) {
    match action {
        Action::Print { message } => assert_eq!(text, message),
        _ => panic!("nothing is printed: {action:?}"),
    }
}

/// Runs `let name = ..` to its end.
fn bind(repl: &mut Repl, name: &str, type_: &str, found: bool) -> usize {
    let line = format!("let {name} = 1");
    let step = parsed(repl, &line, vec![assignment(variable(name), &line)]);
    let (turn, action) = act(step);
    let file = match action {
        Action::Compile { file, .. } => file,
        _ => panic!("no compilation"),
    };
    let module = file.strip_suffix(".gleam").unwrap().to_string();
    let step = resume(repl, turn, compiled(&module, vec![function("run_save", type_)]));
    let (turn, action) = act(step);
    assert!(matches!(action, Action::RunMain { module: m } if m == module));
    let (turn, action) = act(resume(repl, turn, Event::Completed));
    let index = match action {
        Action::HasVar { index } => index,
        _ => panic!("no question"),
    };
    assert!(done(resume(repl, turn, Event::VarFound { found })).is_ok());
    index
}

#[test]
fn an_expression_is_compiled_and_evaluated() {
    let mut repl = repl();
    let (turn, action) = act(parsed(&mut repl, "1 + 1", vec![expression("1 + 1")]));
    let code = expect_compile(action, "repl1_1");
    let main = "\n            pub fn repl_main() {\n              \n              repl_print({\n            1 + 1\n              })\n            }\n            ";
    assert_eq!(format!("{FNS}{main}"), code);
    let (turn, action) = act(resume(&mut repl, turn, compiled("repl1_1", vec![])));
    assert!(matches!(action, Action::RunMain { module } if module == "repl1_1"));
    assert!(done(resume(&mut repl, turn, Event::Completed)).is_ok());
}

#[test]
fn a_let_becomes_a_variable() {
    let mut repl = repl();
    let line = "let xé = 4";
    let (turn, action) = act(parsed(&mut repl, line, vec![assignment(variable("xé"), line)]));
    let code = expect_compile(action, "repl1_1");
    let main = "\n            pub fn repl_main() {\n              run_save()\n              Nil\n            }\n\n            pub fn run_save() {\n              \n              repl_print(repl_save({\n            let xé = 4\n              }))\n            }\n            ";
    assert_eq!(format!("{FNS}{main}"), code);
    let definitions = vec![TypedDefinition::Other, function("repl_main", "Nil"), function("run_save", "Int")];
    let (turn, _) = act(resume(&mut repl, turn, compiled("repl1_1", definitions)));
    let (turn, action) = act(resume(&mut repl, turn, Event::Completed));
    assert!(matches!(action, Action::HasVar { index: 0 }));
    assert!(done(resume(&mut repl, turn, Event::VarFound { found: true })).is_ok());
    assert_eq!("  let xé = fn () -> Int { repl_load(0) } ()\n", repl.gen_lets(&vec![]));
    assert_eq!("", repl.gen_lets(&vec!["xé".to_string()]));
}

#[test]
fn a_variable_that_was_not_saved_is_not_bound() {
    let mut repl = repl();
    assert_eq!(0, bind(&mut repl, "x", "Int", false));
    assert_eq!("", repl.gen_lets(&vec![]));
    assert_eq!(0, bind(&mut repl, "x", "Int", true));
    assert_eq!(1, bind(&mut repl, "y", "String", true));
    assert_eq!(2, bind(&mut repl, "x", "List(Int)", true));
    let x = "  let x = fn () -> List(Int) { repl_load(2) } ()\n";
    let y = "  let y = fn () -> String { repl_load(1) } ()\n";
    assert_eq!(format!("{x}{y}"), repl.gen_lets(&vec![]));
    assert_eq!(y, repl.gen_lets(&vec!["z".to_string(), "x".to_string()]));
}

#[test]
fn definitions_are_kept() {
    let mut repl = repl();
    let (turn, action) = act(parsed(&mut repl, "const a = 1", vec![constant("const a = 1")]));
    assert_eq!(format!("{FNS}const a = 1\n"), expect_compile(action, "repl1_1"));
    assert!(done(resume(&mut repl, turn, compiled("repl1_1", vec![]))).is_ok());

    let line = "type B = Int type C { C }";
    let items = vec![
        ReplItem::ReplDefinition(Definition::TypeAlias { location: span(0, 12) }),
        ReplItem::ReplDefinition(Definition::CustomType { location: span(13, 19), end_position: 25 }),
    ];
    let (turn, action) = act(parsed(&mut repl, line, items));
    let code = expect_compile(action, "repl2_1");
    assert_eq!(format!("{FNS}const a = 1\ntype B = Int\n"), code);
    let (turn, action) = act(resume(&mut repl, turn, compiled("repl2_1", vec![])));
    let code = expect_compile(action, "repl2_2");
    assert_eq!(format!("{FNS}const a = 1\ntype B = Int\ntype C {{ C }}\n"), code);
    assert!(done(resume(&mut repl, turn, compiled("repl2_2", vec![]))).is_ok());
    assert_eq!(code, repl.build_source());
}

#[test]
fn a_failed_line_is_rolled_back() {
    let mut repl = repl();
    bind(&mut repl, "x", "Int", true);
    let source = repl.build_source();
    let lets = repl.gen_lets(&vec![]);
    let line = "const a = 1";
    let (turn, action) = act(parsed(&mut repl, line, vec![constant(line), constant(line)]));
    expect_compile(action, "repl2_1");
    let (turn, action) = act(resume(&mut repl, turn, compiled("repl2_1", vec![])));
    expect_compile(action, "repl2_2");
    assert!(source != repl.build_source());
    match done(resume(&mut repl, turn, Event::Failed { error: "twice" })) {
        Err(ReplError::Build { error }) => assert_eq!("twice", error),
        _ => panic!("the failure is lost"),
    }
    assert_eq!(source, repl.build_source());
    assert_eq!(lets, repl.gen_lets(&vec![]));
    let (_, action) = act(parsed(&mut repl, "1", vec![expression("1")]));
    expect_compile(action, "repl3_1");
}

#[test]
fn a_line_that_is_not_gleam_changes_nothing() {
    let mut repl = repl();
    let (turn, action) = repl.run("let let");
    assert!(matches!(action, Action::Parse { src } if src == "let let"));
    match done(resume(&mut repl, turn, Event::Failed { error: "syntax" })) {
        Err(ReplError::Parse { path, src, error }) => {
            assert_eq!("repl", path);
            assert_eq!("let let", src);
            assert_eq!("syntax", error);
        }
        _ => panic!("the failure is lost"),
    }
    assert_eq!(FNS, repl.build_source());
}

#[test]
fn a_function_loads_the_variables_it_does_not_take() {
    let mut repl = repl();
    bind(&mut repl, "x", "Int", true);
    bind(&mut repl, "y", "Int", true);
    let line = "fn add(x, _) { x + y }";
    let item = || {
        ReplItem::ReplDefinition(Definition::Function(Function {
            location: span(0, 12),
            end_position: 22,
            name: Some("add".to_string()),
            arguments: vec![Some("x".to_string()), None],
            body_location: span(15, 20),
        }))
    };
    let (turn, action) = act(parsed(&mut repl, line, vec![item()]));
    let code = "fn add(x, _) { \n    let y = fn () -> Int { repl_load(1) } ()\nx + y }";
    assert_eq!(format!("{FNS}{code}\n"), expect_compile(action, "repl3_1"));
    assert!(done(resume(&mut repl, turn, compiled("repl3_1", vec![]))).is_ok());

    // Defining it again takes the place of the first definition.
    let (_, action) = act(parsed(&mut repl, line, vec![item()]));
    assert_eq!(format!("{FNS}{code}\n"), expect_compile(action, "repl4_1"));
}

#[test]
fn the_type_of_an_expression_is_shown() {
    let mut repl = repl();
    let (turn, action) = repl.run("  :type 1 + 1 \n");
    assert!(matches!(action, Action::Parse { src } if src == "1 + 1"));
    let items = vec![expression("1 + 1")];
    let (turn, action) = act(resume(&mut repl, turn, Event::Parsed { items }));
    expect_compile(action, "repl1_1");
    let event = compiled("repl1_1", vec![function("repl_main", "Int"), function("repl_main", "Nil")]);
    let (turn, action) = act(resume(&mut repl, turn, event));
    expect_print(action, "Int");
    assert!(done(resume(&mut repl, turn, Event::Completed)).is_ok());
    assert_eq!(FNS, repl.build_source());
}

#[test]
fn the_type_command_takes_one_expression() {
    let mut repl = repl();
    for count in [0, 2, 3] {
        let items = (0..count).map(|_| expression("1")).collect();
        let (turn, action) = act(parsed(&mut repl, ":type 1", items));
        expect_print(action, ":type command expects exactly one expression.");
        assert!(done(resume(&mut repl, turn, Event::Completed)).is_ok());
    }
    let (turn, action) = act(parsed(&mut repl, ":type const a = 1", vec![constant("const a = 1")]));
    expect_print(action, ":type command cannot be used with definitions.");
    assert!(done(resume(&mut repl, turn, Event::Completed)).is_ok());
    assert_eq!(FNS, repl.build_source());
}

#[test]
fn what_is_not_supported_is_said() {
    let mut repl = repl();
    let line = "let _ = 1";
    let items = vec![
        ReplItem::ReplDefinition(Definition::Import { location: span(0, 3) }),
        ReplItem::ReplStatement(Statement::Use { location: span(0, 3) }),
        assignment(Pattern::Other, line),
        ReplItem::ReplStatement(Statement::Assert { location: span(0, 3) }),
        assignment(Pattern::Discard, line),
    ];
    let mut step = parsed(&mut repl, line, items);
    for message in [
        "imports are not supported.",
        "use statements are not supported outside blocks.",
        "patterns are not supported in let statements.",
        "assert is not supported.",
    ] {
        let (turn, action) = act(step);
        expect_print(action, message);
        step = resume(&mut repl, turn, Event::Completed);
    }
    let (_, action) = act(step);
    assert!(expect_compile(action, "repl1_5").contains("            let _ = 1\n"));
    assert_eq!(FNS, repl.build_source());
}

#[test]
fn every_item_is_counted() {
    let mut repl = repl();
    let line = "let (a) = 1";
    let items = |n: usize| (0..n).map(|_| assignment(Pattern::Other, line)).collect::<Vec<_>>();
    let mut step = parsed(&mut repl, line, items(3));
    for _ in 0..2 {
        let (turn, _) = act(step);
        step = resume(&mut repl, turn, Event::Completed);
    }
    let (turn, _) = act(step);
    assert!(done(resume(&mut repl, turn, Event::Completed)).is_ok());
    assert_eq!("repl1_3", repl.module_name());

    let (turn, _) = act(parsed(&mut repl, ":type 1", items(2)));
    assert!(done(resume(&mut repl, turn, Event::Completed)).is_ok());
    assert_eq!("repl2_0", repl.module_name());

    assert!(done(parsed(&mut repl, "", items(0))).is_ok());
    assert_eq!("repl3_0", repl.module_name());
}

#[test]
fn a_line_without_items_is_over() {
    let mut repl = repl();
    assert!(done(parsed(&mut repl, "// nothing", vec![])).is_ok());
}

#[test]
fn events_that_do_not_fit_are_not_accepted() {
    let mut repl = repl();
    let (turn, _) = repl.run("é");
    let cut = ReplItem::ReplStatement(Statement::Expression { location: span(0, 1) });
    assert!(!repl.accepts::<&str>(&turn, &Event::Parsed { items: vec![cut] }));
    let long = ReplItem::ReplStatement(Statement::Expression { location: span(0, 3) });
    assert!(!repl.accepts::<&str>(&turn, &Event::Parsed { items: vec![long] }));
    let anonymous = ReplItem::ReplDefinition(Definition::Function(Function {
        location: span(0, 2),
        end_position: 2,
        name: None,
        arguments: vec![],
        body_location: span(0, 2),
    }));
    assert!(!repl.accepts::<&str>(&turn, &Event::Parsed { items: vec![anonymous] }));
    assert!(!repl.accepts::<&str>(&turn, &Event::Completed));
    let (turn, _) = act(resume(&mut repl, turn, Event::Parsed { items: vec![expression("é")] }));
    assert!(!repl.accepts(&turn, &compiled("repl1_2", vec![])));
    assert!(repl.accepts(&turn, &compiled("repl1_1", vec![])));
}

#[test]
fn the_own_module_is_imported() {
    let interface = ModuleInterface {
        name: "app".to_string(),
        public_type_names: vec!["A".to_string(), "B".to_string()],
        public_value_names: vec!["main".to_string()],
    };
    let import = "import app.{type A, type B, main, }";
    assert_eq!(import, import_public_types_and_values(&interface));
    let repl = Repl::new(Some(&interface), ReplRuntime::Erlang);
    assert_eq!(format!("{FNS}{import}\n"), repl.build_source());
}

#[test]
fn the_compiled_module_comes_first() {
    let modules = ["a", "b", "c", "d"].iter().map(|name| module(name, vec![])).collect();
    let names: Vec<String> =
        bring_module_first(modules, "b").into_iter().map(|module| module.name).collect();
    assert_eq!(vec!["b", "a", "d", "c"], names);
}

#[test]
fn functions_are_found_by_name() {
    let unnamed = TypedDefinition::Function { name: None, return_type: "A".to_string() };
    let module = module("m", vec![unnamed, function("f", "B"), function("f", "C")]);
    assert_eq!(Some(&"B".to_string()), get_function(&module, "f"));
    assert_eq!(None, get_function(&module, "g"));
}

#[test]
fn definitions_end_where_their_bodies_end() {
    let src = "const é = 12 ";
    let def = Definition::ModuleConstant { location: span(0, 8), value_location: span(11, 13) };
    assert_eq!("const é = 12", get_definition_src(&def, src));
    let def = Definition::Import { location: span(6, 8) };
    assert_eq!("é", get_definition_src(&def, src));
    let function = Function {
        location: span(0, 1),
        end_position: 2,
        name: None,
        arguments: vec![None, Some("b".to_string()), Some("a".to_string())],
        body_location: span(1, 2),
    };
    assert_eq!(vec!["b", "a"], get_args_names(&function));
}

#[test]
fn text_is_cut_at_whole_characters() {
    assert!(is_sliceable("aéb", 1, 3));
    assert!(is_sliceable("aéb", 4, 4));
    assert!(!is_sliceable("aéb", 2, 3));
    assert!(!is_sliceable("aéb", 3, 1));
    assert!(!is_sliceable("aéb", 0, 5));
    assert_eq!("é", slice("aéb", 1, 3));
    assert_eq!("aé-b", insert_str("aéb", 3, "-"));
    assert_eq!("aéb", insert_str("aéb", 4, ""));
}
