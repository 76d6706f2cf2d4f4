use gleam_repl::erlang::{Erlang, Exchange};
use gleam_repl::prompt::{react, Reaction, Reading};
use gleam_repl::setup::{
    check_module, choose_runtime, is_gleam_module, ReplRuntime, Runtime, SetupError, Target,
};
use gleam_repl::text::{join_lines, push_decimal, strip_prefix};

fn assert_exchange(exchange: &Exchange, pipe: Option<bool>, line: &str, token: &str, prompt: &str) {
    assert_eq!(pipe, exchange.pipe);
    assert_eq!(line, exchange.line);
    assert_eq!(token, exchange.token);
    assert_eq!(prompt, exchange.prompt);
}

#[test]
fn module_names() {
    for name in ["app", "a", "app/b_c1/d", "a_/b0", "gleam/string"] {
        assert!(is_gleam_module(name), "{name}");
    }
    for name in ["", "App", "a//b", "/a", "a/", "1a", "_a", "a-b", "a b", "a\n", "\na", "a/B", "é", "a.b"] {
        assert!(!is_gleam_module(name), "{name}");
    }
}

#[test]
fn module_of_a_session() {
    assert!(check_module(&None).is_ok());
    assert!(check_module(&Some("a/b".to_string())).is_ok());
    match check_module(&Some("A/b".to_string())) {
        Err(SetupError::InvalidModuleName { module }) => assert_eq!("A/b", module),
        _ => panic!("an invalid name was accepted"),
    }
}

#[test]
fn runtime_of_a_session() {
    let ask = |target, runtime| choose_runtime(target, runtime, Target::Erlang, Runtime::Bun);
    assert!(matches!(ask(None, None), Ok(ReplRuntime::Erlang)));
    assert!(matches!(ask(Some(Target::Erlang), None), Ok(ReplRuntime::Erlang)));
    assert!(matches!(
        ask(None, Some(Runtime::Deno)),
        Err(SetupError::InvalidRuntime { target: Target::Erlang, invalid_runtime: Runtime::Deno })
    ));
    assert!(matches!(
        ask(Some(Target::JavaScript), Some(Runtime::NodeJs)),
        Ok(ReplRuntime::JavaScript(Runtime::NodeJs))
    ));
    assert!(matches!(
        ask(Some(Target::JavaScript), None),
        Ok(ReplRuntime::JavaScript(Runtime::Bun))
    ));
    assert!(matches!(
        choose_runtime(None, None, Target::JavaScript, Runtime::Deno),
        Ok(ReplRuntime::JavaScript(Runtime::Deno))
    ));
}

#[test]
fn shell_startup() {
    let (mut erlang, startup) = Erlang::new("my_app");
    assert!(!startup.pipe);
    assert_eq!("1> ", startup.prompt);
    assert_eq!(2, startup.imports.len());
    assert_exchange(
        &startup.imports[0],
        Some(false),
        "code:add_patha(\"build/dev/erlang/gleam_stdlib/ebin/\").\n",
        "true\n",
        "2> ",
    );
    assert_exchange(
        &startup.imports[1],
        Some(false),
        "code:add_patha(\"build/dev/erlang/my_app/ebin/\").\n",
        "true\n",
        "3> ",
    );
    assert!(erlang.can_continue());
    assert_exchange(
        &erlang.has_var(12),
        None,
        "gleam_repl:repl_has_var(12).\n",
        "true\n",
        "4> ",
    );
}

#[test]
fn evaluation_is_one_line() {
    let (mut erlang, _) = Erlang::new("my_app");
    let expected = "try repl1_1:repl_main(), 'GlEaM' catch error:#{ gleam_error := GleamError, \
        module := Module, function := Function, line := Line } -> io:format( standard_error, \
        \"Error at ~s.~s:~p\\n  Gleam error: ~p\\n\", [Module, Function, Line, GleamError] ), \
        'GlEaM';  Class:Reason -> io:format(standard_error, \"Internal Erlang Error: ~p~n\", \
        [{Class, Reason}]), 'GlEaM' end.\n";
    assert_exchange(&erlang.run_main("repl1_1"), Some(true), expected, "'GlEaM'", "4> ");
}

#[test]
fn prompts_are_counted() {
    let (mut erlang, _) = Erlang::new("p");
    for n in 4..120 {
        assert_eq!(format!("{n}> "), erlang.has_var(0).prompt);
    }
}

#[test]
fn reactions() {
    let line = |text: &str| react(&Reading::Line { input: text.to_string() });
    assert_eq!(Reaction::Ignore, line(""));
    assert_eq!(Reaction::Ignore, line(" \t\u{3000}\n"));
    assert_eq!(Reaction::Run, line("1 + 1"));
    assert_eq!(Reaction::Run, line(":quit now"));
    let leave = Reaction::Leave { report: false, save_history: true };
    assert_eq!(leave, line(":quit"));
    assert_eq!(leave, line("\u{a0} :quit\u{2028}"));
    assert_eq!(leave, react(&Reading::EndOfInput));
    assert_eq!(
        Reaction::Leave { report: false, save_history: false },
        react(&Reading::Interrupted)
    );
    assert_eq!(Reaction::Leave { report: true, save_history: true }, react(&Reading::Failed));
}

#[test]
fn decimal_notation() {
    for n in [0usize, 7, 9, 10, 99, 100, 1024, 1_000_000, usize::MAX] {
        let mut text = "n=".to_string();
        push_decimal(&mut text, n);
        assert_eq!(format!("n={n}"), text);
    }
}

#[test]
fn lines_are_trimmed_and_joined() {
    for text in ["", "\n", "a", "a\n", "  a \n\n b\t\r\nc", "\n\n", "a\n\r", "é \n ß"] {
        let expected: String = text.lines().map(|line| format!("{} ", line.trim())).collect();
        assert_eq!(expected, join_lines(text), "{text:?}");
    }
}

#[test]
fn joined_lines_are_one_line() {
    let text = join_lines("\u{2003}a\n\n b \r\n\tc\n");
    assert_eq!("a  b c ", text);
    assert!(!text.trim().contains('\n'));
    assert_eq!(text.trim(), text.trim().trim());
}

#[test]
fn prefixes() {
    assert_eq!(Some("x"), strip_prefix(":type x", ":type "));
    assert_eq!(Some(""), strip_prefix(":type ", ":type "));
    assert_eq!(None, strip_prefix(":type", ":type "));
    assert_eq!(None, strip_prefix(":typed x", ":type "));
    assert_eq!(Some("ß"), strip_prefix("éß", "é"));
}
