//! The Erlang shell that evaluates compiled code: what is said to it, and what it
//! is expected to answer.

use vstd::prelude::*;
use vstd::string::*;
use vstd::utf8::*;
use crate::buffer::CAPACITY;
use crate::text::{join_lines, push_decimal};

verus! {

/// The function of a compiled module that evaluates what was entered.
pub const REPL_MAIN: &'static str = "repl_main";

/// The atom that the shell prints when an evaluation is over.
pub const GLEAM_BREAK_CODE: &'static str = "GlEaM";

/// What the shell prints when a query holds.
pub const TRUE_ANSWER: &'static str = "true\n";

/// The package that every project needs.
pub const STDLIB: &'static str = "gleam_stdlib";

/// One line to the shell and the answer to it.
pub struct Exchange {
    /// Whether the shell's output is to be written out from here on; `None` leaves
    /// that as it is.
    pub pipe: Option<bool>,
    /// The line, with its line feed.
    pub line: String,
    /// The token to wait for.
    pub token: String,
    /// The prompt to wait for after the token.
    pub prompt: String,
}

/// An [`Exchange`], as text.
pub struct ExchangeModel {
    pub pipe: Option<bool>,
    pub line: Seq<char>,
    pub token: Seq<char>,
    pub prompt: Seq<char>,
}

impl View for Exchange {
    type V = ExchangeModel;

    open spec fn view(&self) -> ExchangeModel {
        ExchangeModel {
            pipe: self.pipe,
            line: self.line@,
            token: self.token@,
            prompt: self.prompt@,
        }
    }
}

/// The prompt with which the shell asks for its `n`th line.
pub open spec fn prompt(n: nat) -> Seq<char> {
    crate::text::decimal(n) + "> "@
}

/// The atom that ends an evaluation, quoted as the shell prints it.
pub open spec fn break_token() -> Seq<char> {
    "'"@ + GLEAM_BREAK_CODE@ + "'"@
}

/// The exchange that sends `code` as the line before the `n`th prompt.
pub open spec fn exchange(
    pipe: Option<bool>,
    code: Seq<char>,
    token: Seq<char>,
    n: nat,
) -> ExchangeModel {
    ExchangeModel {
        pipe,
        line: crate::text::trimmed(code) + "\n"@,
        token,
        prompt: prompt(n),
    }
}

/// The query that puts a package on the shell's code path.
pub open spec fn import_code(package: Seq<char>) -> Seq<char> {
    "code:add_patha(\"build/dev/erlang/"@ + package + "/ebin/\")."@
}

/// The query for the value saved under an index.
pub open spec fn has_var_code(index: nat) -> Seq<char> {
    "gleam_repl:repl_has_var("@ + crate::text::decimal(index) + ")."@
}

/// The evaluation of a module, laid out in lines: it reports what the evaluation
/// throws, and ends with the break code either way.
pub open spec fn run_main_script(module: Seq<char>) -> Seq<char> {
    "try\n    "@ + module + ":"@ + REPL_MAIN@ + "(),\n    "@ + break_token()
        + "\ncatch error:#{\n        gleam_error := GleamError,\n        module := Module,\n        function := Function,\n        line := Line\n    } ->\n        io:format(\n            standard_error,\n            \"Error at ~s.~s:~p\\n  Gleam error: ~p\\n\",\n            [Module, Function, Line, GleamError]\n        ), "@
        + break_token()
        + ";\n\n    Class:Reason ->\n        io:format(standard_error, \"Internal Erlang Error: ~p~n\", [{Class, Reason}]),\n        "@
        + break_token() + "\nend."@
}

/// The evaluation of a module, on one line.
pub open spec fn run_main_code(module: Seq<char>) -> Seq<char> {
    crate::text::joined(crate::text::lines_of(run_main_script(module)))
}

/// The shell, as far as its prompts are counted.
pub struct Erlang {
    command_num: usize,
}

/// What to do with a shell that was just started.
pub struct Startup {
    /// Whether the shell's output is to be written out while the first prompt is
    /// waited for.
    pub pipe: bool,
    /// The first prompt to wait for.
    pub prompt: String,
    /// The exchanges that load the project, in order.
    pub imports: Vec<Exchange>,
}

fn prompt_of(n: usize) -> (res: String)
    ensures
        res@ == prompt(n as nat),
{
    let mut res = String::new();
    push_decimal(&mut res, n);
    res.append("> ");
    assert(res@ =~= prompt(n as nat));
    res
}

fn push_break_token(text: &mut String)
    ensures
        final(text)@ == old(text)@ + break_token(),
{
    text.append("'");
    text.append(GLEAM_BREAK_CODE);
    text.append("'");
    assert(text@ =~= old(text)@ + break_token());
}

impl Erlang {
    /// The number of the prompt that the shell is waiting at.
    pub closed spec fn command_num(&self) -> nat {
        self.command_num as nat
    }

    /// A shell that was just started and is to load the standard library and
    /// `package`; nothing of what it prints meanwhile is shown.
    pub fn new(package: &str) -> (res: (Erlang, Startup))
        ensures
            res.0.command_num() == 3,
            res.1.pipe == false,
            res.1.prompt@ == prompt(1),
            res.1.imports@.map_values(|e: Exchange| e@) == seq![
                exchange(Some(false), import_code(STDLIB@), TRUE_ANSWER@, 2),
                exchange(Some(false), import_code(package@), TRUE_ANSWER@, 3),
            ],
    {
        let mut erlang = Erlang { command_num: 1 };
        let prompt = prompt_of(1);
        let stdlib = erlang.import_package(STDLIB);
        let package = erlang.import_package(package);
        let mut imports = Vec::new();
        imports.push(stdlib);
        imports.push(package);
        (erlang, Startup { pipe: false, prompt, imports })
    }

    /// Whether another exchange can be numbered.
    pub fn can_continue(&self) -> (res: bool)
        ensures
            res == (self.command_num() < usize::MAX),
    {
        self.command_num < usize::MAX
    }

    fn next(&mut self, pipe: Option<bool>, code: &str, token: String) -> (res: Exchange)
        requires
            old(self).command_num() < usize::MAX,
        ensures
            final(self).command_num() == old(self).command_num() + 1,
            res@ == exchange(pipe, code@, token@, final(self).command_num()),
    {
        self.command_num = self.command_num + 1;
        let mut line = code.trim().to_owned();
        line.append("\n");
        Exchange { pipe, line, token, prompt: prompt_of(self.command_num) }
    }

    /// Puts a package on the shell's code path; nothing of the answer is shown.
    pub fn import_package(&mut self, package_name: &str) -> (res: Exchange)
        requires
            old(self).command_num() < usize::MAX,
        ensures
            final(self).command_num() == old(self).command_num() + 1,
            res@ == exchange(
                Some(false),
                import_code(package_name@),
                TRUE_ANSWER@,
                final(self).command_num(),
            ),
    {
        let mut code = String::new();
        code.append("code:add_patha(\"build/dev/erlang/");
        code.append(package_name);
        code.append("/ebin/\").");
        assert(code@ =~= import_code(package_name@));
        self.next(Some(false), code.as_str(), TRUE_ANSWER.to_owned())
    }

    /// Evaluates a compiled module; what it prints is shown.
    pub fn run_main(&mut self, module: &str) -> (res: Exchange)
        requires
            old(self).command_num() < usize::MAX,
        ensures
            final(self).command_num() == old(self).command_num() + 1,
            res@ == exchange(
                Some(true),
                run_main_code(module@),
                break_token(),
                final(self).command_num(),
            ),
    {
        let mut script = String::new();
        script.append("try\n    ");
        script.append(module);
        script.append(":");
        script.append(REPL_MAIN);
        script.append("(),\n    ");
        push_break_token(&mut script);
        script.append(
            "\ncatch error:#{\n        gleam_error := GleamError,\n        module := Module,\n        function := Function,\n        line := Line\n    } ->\n        io:format(\n            standard_error,\n            \"Error at ~s.~s:~p\\n  Gleam error: ~p\\n\",\n            [Module, Function, Line, GleamError]\n        ), ",
        );
        push_break_token(&mut script);
        script.append(
            ";\n\n    Class:Reason ->\n        io:format(standard_error, \"Internal Erlang Error: ~p~n\", [{Class, Reason}]),\n        ",
        );
        push_break_token(&mut script);
        script.append("\nend.");
        assert(script@ =~= run_main_script(module@));
        let code = join_lines(script.as_str());
        let mut token = String::new();
        push_break_token(&mut token);
        assert(token@ =~= break_token());
        self.next(Some(true), code.as_str(), token)
    }

    /// Asks whether a value was saved under an index. It was, where the wait for the
    /// token finds it.
    pub fn has_var(&mut self, index: usize) -> (res: Exchange)
        requires
            old(self).command_num() < usize::MAX,
        ensures
            final(self).command_num() == old(self).command_num() + 1,
            res@ == exchange(
                None,
                has_var_code(index as nat),
                TRUE_ANSWER@,
                final(self).command_num(),
            ),
    {
        let mut code = String::new();
        code.append("gleam_repl:repl_has_var(");
        push_decimal(&mut code, index);
        code.append(").");
        assert(code@ =~= has_var_code(index as nat));
        self.next(None, code.as_str(), TRUE_ANSWER.to_owned())
    }
}

/// Ten to the power of `k`.
spec fn power_of_ten(k: nat) -> nat
    decreases k,
{
    if k == 0 {
        1
    } else {
        10 * power_of_ten((k - 1) as nat)
    }
}

proof fn lemma_decimal_len(n: nat, k: nat)
    requires
        k > 0,
        n < power_of_ten(k),
    ensures
        crate::text::decimal(n).len() <= k,
    decreases k,
{
    if n >= 10 {
        reveal_with_fuel(power_of_ten, 2);
        lemma_decimal_len(n / 10, (k - 1) as nat);
    }
}

/// What the shell is waited for is never empty and always fits the buffer, so that
/// waiting for it never makes the buffer grow beyond its capacity.
pub proof fn law_answers_fit_buffer(n: usize)
    ensures
        0 < encode_utf8(prompt(n as nat)).len() <= CAPACITY,
        0 < encode_utf8(break_token()).len() <= CAPACITY,
        0 < encode_utf8(TRUE_ANSWER@).len() <= CAPACITY,
        prompt(n as nat).len() > 0,
        break_token().len() > 0,
        TRUE_ANSWER@.len() > 0,
{
    reveal_strlit("> ");
    reveal_strlit("'");
    reveal_strlit("GlEaM");
    reveal_strlit("true\n");
    crate::text::lemma_decimal_digits(n as nat);
    assert(power_of_ten(20) == 100_000_000_000_000_000_000) by {
        reveal_with_fuel(power_of_ten, 21);
    }
    lemma_decimal_len(n as nat, 20);
    is_ascii_chars_encode_utf8(prompt(n as nat));
    is_ascii_chars_encode_utf8(break_token());
    is_ascii_chars_encode_utf8(TRUE_ANSWER@);
}

/// An evaluation is said on one line, whatever the module is called: the only line
/// feed is the one at the end.
pub proof fn law_evaluation_is_one_line(module: Seq<char>, n: nat)
    ensures
        ({
            let line = exchange(Some(true), run_main_code(module), break_token(), n).line;
            &&& line.last() == '\n'
            &&& crate::text::lacks(line.drop_last(), '\n')
        }),
{
    reveal_strlit("\n");
    crate::text::law_joined_is_one_line(run_main_script(module));
    let code = crate::text::trimmed(run_main_code(module));
    assert((code + "\n"@).drop_last() =~= code);
}

/// A prompt is the number of the line that it asks for, a greater-than sign and a space;
/// no two lines are asked for with the same prompt.
pub proof fn law_prompt_gives_number(a: nat, b: nat)
    ensures
        prompt(a).len() > 2,
        crate::text_laws::number(prompt(a).take(prompt(a).len() - 2)) == a,
        prompt(a).skip(prompt(a).len() - 2) == seq!['>', ' '],
        prompt(a) == prompt(b) ==> a == b,
{
    reveal_strlit("> ");
    crate::text_laws::law_decimal_stands_for_number(a);
    crate::text_laws::law_decimal_stands_for_number(b);
    assert(prompt(a).take(prompt(a).len() - 2) =~= crate::text::decimal(a));
    assert(prompt(b).take(prompt(b).len() - 2) =~= crate::text::decimal(b));
    assert(prompt(a).skip(prompt(a).len() - 2) =~= seq!['>', ' ']);
}

proof fn lemma_line_of(pipe: Option<bool>, code: Seq<char>, token: Seq<char>, n: nat)
    requires
        crate::text_laws::has_no_margin(code),
    ensures
        exchange(pipe, code, token, n).line == code.push('\n'),
{
    reveal_strlit("\n");
    let none = Seq::<char>::empty();
    crate::text_laws::law_trimming_takes_margins(none, code, none);
    assert(none + code + none =~= code);
    assert(code + "\n"@ =~= code.push('\n'));
}

/// A package is put on the code path by a line that names its directory, whatever the
/// package is called, and the shell is to answer `true`.
pub proof fn law_import_line(package: Seq<char>, n: nat)
    ensures
        exchange(Some(false), import_code(package), TRUE_ANSWER@, n).line
            == "code:add_patha(\"build/dev/erlang/"@ + package + "/ebin/\").\n"@,
        exchange(Some(false), import_code(package), TRUE_ANSWER@, n).token == "true\n"@,
        exchange(Some(false), import_code(package), TRUE_ANSWER@, n).prompt == prompt(n),
        exchange(Some(false), import_code(package), TRUE_ANSWER@, n).pipe == Some(false),
{
    reveal_strlit("code:add_patha(\"build/dev/erlang/");
    reveal_strlit("/ebin/\").");
    reveal_strlit("/ebin/\").\n");
    let code = import_code(package);
    assert(code[0] == 'c');
    assert(code.last() == '.');
    lemma_line_of(Some(false), code, TRUE_ANSWER@, n);
    assert("/ebin/\").\n"@ =~= "/ebin/\")."@.push('\n'));
    assert(code.push('\n') =~= "code:add_patha(\"build/dev/erlang/"@ + package
        + "/ebin/\").\n"@);
}

/// A saved value is asked for by its index, and the shell is to answer `true`; whether
/// output is shown stays as it is.
pub proof fn law_has_var_line(index: nat, n: nat)
    ensures
        exchange(None, has_var_code(index), TRUE_ANSWER@, n).line == "gleam_repl:repl_has_var("@
            + crate::text::decimal(index) + ").\n"@,
        exchange(None, has_var_code(index), TRUE_ANSWER@, n).token == "true\n"@,
        exchange(None, has_var_code(index), TRUE_ANSWER@, n).prompt == prompt(n),
        exchange(None, has_var_code(index), TRUE_ANSWER@, n).pipe is None,
{
    reveal_strlit("gleam_repl:repl_has_var(");
    reveal_strlit(").");
    reveal_strlit(").\n");
    let code = has_var_code(index);
    assert(code[0] == 'g');
    assert(code.last() == '.');
    lemma_line_of(None, code, TRUE_ANSWER@, n);
    assert(").\n"@ =~= ")."@.push('\n'));
    assert(code.push('\n') =~= "gleam_repl:repl_has_var("@ + crate::text::decimal(index)
        + ").\n"@);
}

/// What follows the call in the evaluation of a module: the same for every module.
spec fn script_tail() -> Seq<char> {
    "catch error:#{\n        gleam_error := GleamError,\n        module := Module,\n        function := Function,\n        line := Line\n    } ->\n        io:format(\n            standard_error,\n            \"Error at ~s.~s:~p\\n  Gleam error: ~p\\n\",\n            [Module, Function, Line, GleamError]\n        ), "@
        + break_token()
        + ";\n\n    Class:Reason ->\n        io:format(standard_error, \"Internal Erlang Error: ~p~n\", [{Class, Reason}]),\n        "@
        + break_token()
}

proof fn lemma_evaluation_code(module: Seq<char>)
    requires
        crate::text::lacks(module, '\n'),
        module.len() > 0,
        !crate::text::is_white_space(module[0]),
    ensures
        run_main_code(module) == "try "@ + module + ":repl_main(), 'GlEaM' "@
            + crate::text::joined(crate::text::lines_of(script_tail() + seq!['\n'] + "end."@)),
{
    let tail = script_tail() + seq!['\n'] + "end."@;
    let call = "    "@ + module + ":repl_main(),"@;
    let atom = "    'GlEaM'"@;
    let feed = seq!['\n'];
    assert(run_main_script(module) == "try"@ + feed + (call + feed + (atom + feed + tail))) by {
        reveal_strlit("try\n    ");
        reveal_strlit(":");
        reveal_strlit("repl_main");
        reveal_strlit("(),\n    ");
        reveal_strlit("'");
        reveal_strlit("GlEaM");
        reveal_strlit("try");
        reveal_strlit("    ");
        reveal_strlit(":repl_main(),");
        reveal_strlit("    'GlEaM'");
        reveal_strlit("\nend.");
        reveal_strlit("end.");
        lemma_catch_literal();
        assert("\nend."@ =~= feed + "end."@);
        assert("try\n    "@ =~= "try"@ + feed + "    "@);
        assert(":"@ + REPL_MAIN@ + "(),\n    "@ + break_token() =~= ":repl_main(),"@ + feed
            + atom);
        assert(run_main_script(module) =~= "try"@ + feed + (call + feed + (atom + feed + tail)));
    }
    assert(crate::text::lacks("try"@, '\n') && crate::text::lacks(call, '\n')
        && crate::text::lacks(atom, '\n')) by {
        reveal_strlit("try");
        reveal_strlit("    ");
        reveal_strlit(":repl_main(),");
        reveal_strlit("    'GlEaM'");
    }
    crate::text_laws::law_lines_are_joined_in_turn("try"@, call + feed + (atom + feed + tail));
    crate::text_laws::law_lines_are_joined_in_turn(call, atom + feed + tail);
    crate::text_laws::law_lines_are_joined_in_turn(atom, tail);
    let none = Seq::<char>::empty();
    assert(crate::text::trimmed("try"@) == "try"@) by {
        reveal_strlit("try");
        crate::text_laws::law_trimming_takes_margins(none, "try"@, none);
        assert(none + "try"@ + none =~= "try"@);
    }
    assert(crate::text::trimmed(call) == module + ":repl_main(),"@) by {
        reveal_strlit("    ");
        reveal_strlit(":repl_main(),");
        crate::text_laws::law_trimming_takes_margins("    "@, module + ":repl_main(),"@, none);
        assert("    "@ + (module + ":repl_main(),"@) + none =~= call);
    }
    assert(crate::text::trimmed(atom) == "'GlEaM'"@) by {
        reveal_strlit("    ");
        reveal_strlit("'GlEaM'");
        reveal_strlit("    'GlEaM'");
        crate::text_laws::law_trimming_takes_margins("    "@, "'GlEaM'"@, none);
        assert("    "@ + "'GlEaM'"@ + none =~= atom);
    }
    assert(run_main_code(module) =~= "try "@ + module + ":repl_main(), 'GlEaM' "@
        + crate::text::joined(crate::text::lines_of(tail))) by {
        reveal_strlit("try");
        reveal_strlit("try ");
        reveal_strlit(":repl_main(),");
        reveal_strlit("'GlEaM'");
        reveal_strlit(":repl_main(), 'GlEaM' ");
        assert("try "@ =~= "try"@ + seq![' ']);
        assert(":repl_main(), 'GlEaM' "@ =~= ":repl_main(),"@ + seq![' '] + "'GlEaM'"@ + seq![
            ' ',
        ]);
    }
}

proof fn lemma_catch_literal()
    ensures
        "\ncatch error:#{\n        gleam_error := GleamError,\n        module := Module,\n        function := Function,\n        line := Line\n    } ->\n        io:format(\n            standard_error,\n            \"Error at ~s.~s:~p\\n  Gleam error: ~p\\n\",\n            [Module, Function, Line, GleamError]\n        ), "@
            == seq!['\n']
            + "catch error:#{\n        gleam_error := GleamError,\n        module := Module,\n        function := Function,\n        line := Line\n    } ->\n        io:format(\n            standard_error,\n            \"Error at ~s.~s:~p\\n  Gleam error: ~p\\n\",\n            [Module, Function, Line, GleamError]\n        ), "@,
{
    reveal_strlit(
        "\ncatch error:#{\n        gleam_error := GleamError,\n        module := Module,\n        function := Function,\n        line := Line\n    } ->\n        io:format(\n            standard_error,\n            \"Error at ~s.~s:~p\\n  Gleam error: ~p\\n\",\n            [Module, Function, Line, GleamError]\n        ), ",
    );
    reveal_strlit(
        "catch error:#{\n        gleam_error := GleamError,\n        module := Module,\n        function := Function,\n        line := Line\n    } ->\n        io:format(\n            standard_error,\n            \"Error at ~s.~s:~p\\n  Gleam error: ~p\\n\",\n            [Module, Function, Line, GleamError]\n        ), ",
    );
}

/// An evaluation calls `repl_main` of the module that it is for, and then gives the break
/// code; all else that is said is the same for every module.
pub proof fn law_evaluation_calls_module(
    module: Seq<char>,
    n: nat,
    other: Seq<char>,
    k: nat,
) -> (rest: Seq<char>)
    requires
        module.len() > 0,
        crate::text::lacks(module, '\n'),
        !crate::text::is_white_space(module[0]),
        other.len() > 0,
        crate::text::lacks(other, '\n'),
        !crate::text::is_white_space(other[0]),
    ensures
        exchange(Some(true), run_main_code(module), break_token(), n).line == "try "@ + module
            + ":repl_main(), 'GlEaM' "@ + rest + "end.\n"@,
        exchange(Some(true), run_main_code(other), break_token(), k).line == "try "@ + other
            + ":repl_main(), 'GlEaM' "@ + rest + "end.\n"@,
        exchange(Some(true), run_main_code(module), break_token(), n).token == "'GlEaM'"@,
        exchange(Some(true), run_main_code(module), break_token(), n).prompt == prompt(n),
        exchange(Some(true), run_main_code(module), break_token(), n).pipe == Some(true),
{
    reveal_strlit("'");
    reveal_strlit("GlEaM");
    reveal_strlit("'GlEaM'");
    assert(break_token() =~= "'GlEaM'"@);
    lemma_evaluation_line(module, n);
    lemma_evaluation_line(other, k);
    crate::text::joined(crate::text::pieces(script_tail()))
}

proof fn lemma_evaluation_line(module: Seq<char>, n: nat)
    requires
        module.len() > 0,
        crate::text::lacks(module, '\n'),
        !crate::text::is_white_space(module[0]),
    ensures
        exchange(Some(true), run_main_code(module), break_token(), n).line == "try "@ + module
            + ":repl_main(), 'GlEaM' "@ + crate::text::joined(crate::text::pieces(script_tail()))
            + "end.\n"@,
{
    let rest = crate::text::joined(crate::text::pieces(script_tail()));
    let head = "try "@ + module + ":repl_main(), 'GlEaM' "@;
    let code = head + rest + "end."@;
    let none = Seq::<char>::empty();
    reveal_strlit("end.");
    lemma_evaluation_code(module);
    crate::text_laws::law_last_line_is_joined_last(script_tail(), "end."@);
    crate::text_laws::law_trimming_takes_margins(none, "end."@, none);
    assert(none + "end."@ + none =~= "end."@);
    assert(run_main_code(module) =~= none + code + seq![' ']);
    assert(crate::text::trimmed(run_main_code(module)) == code) by {
        reveal_strlit("try ");
        assert(code[0] == 't');
        assert(code.last() == '.');
        crate::text_laws::law_trimming_takes_margins(none, code, seq![' ']);
    }
    reveal_strlit("\n");
    reveal_strlit("end.\n");
    assert("end."@ + "\n"@ =~= "end.\n"@);
    assert(code + "\n"@ =~= head + rest + "end.\n"@);
}

} // verus!
