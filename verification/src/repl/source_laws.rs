//! What the source of a session holds: every definition, every variable, and the code
//! that is to be evaluated, each in its place.

use vstd::prelude::*;
use crate::repl::{ReplModel, ValueModel, REPL_ERL_FNS};

verus! {

/// `part` stands in `text` at position `pos`.
pub open spec fn stands_at(text: Seq<char>, part: Seq<char>, pos: int) -> bool {
    &&& 0 <= pos
    &&& pos + part.len() <= text.len()
    &&& text.subrange(pos, pos + part.len()) == part
}

/// `part` stands in `text` at position `pos`, on lines of its own that come after others.
pub open spec fn stands_on_lines_at(text: Seq<char>, part: Seq<char>, pos: int) -> bool {
    &&& stands_at(text, part, pos)
    &&& 0 < pos && text[pos - 1] == '\n'
    &&& pos + part.len() < text.len() && text[pos + part.len()] == '\n'
}

/// How long the parts are together, with one character more for each.
pub open spec fn length_of_lines(parts: Seq<Seq<char>>) -> int
    decreases parts.len(),
{
    if parts.len() == 0 {
        0
    } else {
        parts[0].len() + 1 + length_of_lines(parts.drop_first())
    }
}

/// The parts, each closed by a line feed, one after the other.
pub open spec fn closed_lines(parts: Seq<Seq<char>>) -> Seq<char> {
    parts.map_values(|part: Seq<char>| part.push('\n')).flatten()
}

/// The definitions of a session: the import of the own module, further imports,
/// constants, types and functions.
pub open spec fn definitions(m: ReplModel) -> Seq<Seq<char>> {
    (match m.user_import {
        Some(import) => seq![import],
        None => seq![],
    }) + m.imports.map_values(|module: Seq<char>| "import "@ + module) + m.consts + m.types
        + m.fns.map_values(|entry: (Seq<char>, Seq<char>)| entry.1)
}

proof fn lemma_closed_lines_joined(a: Seq<Seq<char>>, b: Seq<Seq<char>>)
    ensures
        closed_lines(a + b) == closed_lines(a) + closed_lines(b),
{
    let close = |part: Seq<char>| part.push('\n');
    assert((a + b).map_values(close) =~= a.map_values(close) + b.map_values(close));
    vstd::seq_lib::lemma_flatten_concat(a.map_values(close), b.map_values(close));
}

proof fn lemma_closed_line(part: Seq<char>)
    ensures
        closed_lines(seq![part]) == part.push('\n'),
        closed_lines(Seq::empty()) == Seq::<char>::empty(),
{
    let close = |part: Seq<char>| part.push('\n');
    assert(seq![part].map_values(close) =~= seq![part.push('\n')]);
    seq![part.push('\n')].lemma_flatten_one_element();
    assert(Seq::<Seq<char>>::empty().map_values(close) =~= Seq::empty());
}

/// Parts that grow by one part at the end.
proof fn lemma_closed_lines_last(parts: Seq<Seq<char>>)
    requires
        parts.len() > 0,
    ensures
        closed_lines(parts) == closed_lines(parts.drop_last()) + parts.last().push('\n'),
{
    lemma_closed_lines_joined(parts.drop_last(), seq![parts.last()]);
    lemma_closed_line(parts.last());
    assert(parts =~= parts.drop_last() + seq![parts.last()]);
}

proof fn lemma_lines(parts: Seq<Seq<char>>)
    ensures
        crate::repl::lines(parts) == closed_lines(parts),
    decreases parts.len(),
{
    reveal_strlit("\n");
    lemma_closed_line(Seq::empty());
    if parts.len() > 0 {
        lemma_lines(parts.drop_last());
        lemma_closed_lines_last(parts);
        assert(crate::repl::lines(parts) =~= closed_lines(parts));
    } else {
        assert(parts =~= Seq::empty());
    }
}

proof fn lemma_import_lines(imports: Seq<Seq<char>>)
    ensures
        crate::repl::import_lines(imports) == closed_lines(
            imports.map_values(|module: Seq<char>| "import "@ + module),
        ),
    decreases imports.len(),
{
    reveal_strlit("\n");
    lemma_closed_line(Seq::empty());
    let written = |module: Seq<char>| "import "@ + module;
    let parts = imports.map_values(written);
    if imports.len() > 0 {
        lemma_import_lines(imports.drop_last());
        lemma_closed_lines_last(parts);
        assert(parts.drop_last() =~= imports.drop_last().map_values(written));
        assert(crate::repl::import_lines(imports) =~= closed_lines(parts));
    } else {
        assert(parts =~= Seq::empty());
    }
}

proof fn lemma_fn_lines(fns: Seq<(Seq<char>, Seq<char>)>)
    ensures
        crate::repl::fn_lines(fns) == closed_lines(
            fns.map_values(|entry: (Seq<char>, Seq<char>)| entry.1),
        ),
    decreases fns.len(),
{
    reveal_strlit("\n");
    lemma_closed_line(Seq::empty());
    let code = |entry: (Seq<char>, Seq<char>)| entry.1;
    let parts = fns.map_values(code);
    if fns.len() > 0 {
        lemma_fn_lines(fns.drop_last());
        lemma_closed_lines_last(parts);
        assert(parts.drop_last() =~= fns.drop_last().map_values(code));
        assert(crate::repl::fn_lines(fns) =~= closed_lines(parts));
    } else {
        assert(parts =~= Seq::empty());
    }
}

proof fn lemma_length_of_lines(parts: Seq<Seq<char>>)
    ensures
        closed_lines(parts).len() == length_of_lines(parts),
    decreases parts.len(),
{
    if parts.len() == 0 {
        assert(parts =~= Seq::empty());
        lemma_closed_line(Seq::empty());
    } else {
        lemma_length_of_lines(parts.drop_first());
        assert(parts =~= seq![parts[0]] + parts.drop_first());
        lemma_closed_lines_joined(seq![parts[0]], parts.drop_first());
        lemma_closed_line(parts[0]);
    }
}

/// Where a part comes after other text that ends a line, it stands on lines of its own.
proof fn lemma_part_on_lines(start: Seq<char>, parts: Seq<Seq<char>>, i: int) -> (pos: int)
    requires
        start.len() > 0 && start.last() == '\n',
        0 <= i < parts.len(),
    ensures
        stands_on_lines_at(start + closed_lines(parts), parts[i], pos),
        start.len() <= pos,
{
    let (before, part, after) = (parts.take(i), parts[i], parts.skip(i + 1));
    assert(parts =~= before + seq![part] + after);
    lemma_closed_lines_joined(before + seq![part], after);
    lemma_closed_lines_joined(before, seq![part]);
    lemma_closed_line(part);
    let head = start + closed_lines(before);
    let text = start + closed_lines(parts);
    assert(text =~= head + part.push('\n') + closed_lines(after));
    let pos = head.len() as int;
    if i == 0 {
        assert(before =~= Seq::empty());
        lemma_closed_line(part);
        assert(head =~= start);
    } else {
        lemma_closed_lines_last(before);
        assert(head.last() == '\n');
    }
    assert(text[pos - 1] == head.last());
    assert(text.subrange(pos, pos + part.len()) =~= part);
    pos
}

/// The source of a session is the functions that save, load and show values, and then
/// each definition of the session on lines of its own: nothing is left out, and nothing
/// else is there.
pub proof fn law_source_is_all_definitions(m: ReplModel)
    ensures
        crate::repl::source(m) == REPL_ERL_FNS@ + closed_lines(definitions(m)),
        crate::repl::source(m).len() == REPL_ERL_FNS@.len() + length_of_lines(definitions(m)),
{
    reveal_strlit("\n");
    let own = match m.user_import {
        Some(import) => seq![import],
        None => seq![],
    };
    let imports = m.imports.map_values(|module: Seq<char>| "import "@ + module);
    let codes = m.fns.map_values(|entry: (Seq<char>, Seq<char>)| entry.1);
    lemma_import_lines(m.imports);
    lemma_lines(m.consts);
    lemma_lines(m.types);
    lemma_fn_lines(m.fns);
    lemma_closed_line(Seq::empty());
    if m.user_import is Some {
        lemma_closed_line(m.user_import->0);
        assert(m.user_import->0 + "\n"@ =~= m.user_import->0.push('\n'));
    }
    lemma_closed_lines_joined(own, imports);
    lemma_closed_lines_joined(own + imports, m.consts);
    lemma_closed_lines_joined(own + imports + m.consts, m.types);
    lemma_closed_lines_joined(own + imports + m.consts + m.types, codes);
    assert(crate::repl::source(m) =~= REPL_ERL_FNS@ + closed_lines(definitions(m)));
    lemma_length_of_lines(definitions(m));
}

proof fn lemma_source_begins_with_lines()
    ensures
        REPL_ERL_FNS@.len() > 0,
        REPL_ERL_FNS@.last() == '\n',
{
    reveal_strlit(
        "
@external(erlang, \"gleam_repl\", \"repl_save\")
pub fn repl_save(value: a) -> a

@external(erlang, \"gleam_repl\", \"repl_load\")
pub fn repl_load(index: Int) -> a

@external(erlang, \"gleam_repl\", \"repl_has_var\")
pub fn repl_has_var(index: Int) -> a

@external(erlang, \"gleam_repl\", \"repl_print\")
pub fn repl_print(value: a) -> a
",
    );
}

/// Every function of a session stands in its source, on lines of its own, whatever
/// other functions were defined before it or after it.
pub proof fn law_source_holds_function(m: ReplModel, name: Seq<char>) -> (pos: int)
    requires
        crate::table::lookup(m.fns, name) is Some,
    ensures
        stands_on_lines_at(
            crate::repl::source(m),
            crate::table::lookup(m.fns, name)->0,
            pos,
        ),
{
    let i = choose|i: int| crate::table::is_entry_at(m.fns, name, i);
    let parts = definitions(m);
    let at = parts.len() - m.fns.len() + i;
    assert(parts[at] == m.fns[i].1);
    lemma_source_begins_with_lines();
    law_source_is_all_definitions(m);
    lemma_part_on_lines(REPL_ERL_FNS@, parts, at)
}

/// Every constant of a session stands in its source, on lines of its own.
pub proof fn law_source_holds_constant(m: ReplModel, i: int) -> (pos: int)
    requires
        0 <= i < m.consts.len(),
    ensures
        stands_on_lines_at(crate::repl::source(m), m.consts[i], pos),
{
    let parts = definitions(m);
    let at = parts.len() - m.fns.len() - m.types.len() - m.consts.len() + i;
    assert(parts[at] == m.consts[i]);
    lemma_source_begins_with_lines();
    law_source_is_all_definitions(m);
    lemma_part_on_lines(REPL_ERL_FNS@, parts, at)
}

/// Every type of a session stands in its source, on lines of its own.
pub proof fn law_source_holds_type(m: ReplModel, i: int) -> (pos: int)
    requires
        0 <= i < m.types.len(),
    ensures
        stands_on_lines_at(crate::repl::source(m), m.types[i], pos),
{
    let parts = definitions(m);
    let at = parts.len() - m.fns.len() - m.types.len() + i;
    assert(parts[at] == m.types[i]);
    lemma_source_begins_with_lines();
    law_source_is_all_definitions(m);
    lemma_part_on_lines(REPL_ERL_FNS@, parts, at)
}

/// What the project's own module offers is imported before anything else.
pub proof fn law_source_holds_own_import(m: ReplModel) -> (pos: int)
    requires
        m.user_import is Some,
    ensures
        stands_on_lines_at(crate::repl::source(m), m.user_import->0, pos),
        pos == REPL_ERL_FNS@.len(),
{
    let parts = definitions(m);
    assert(parts[0] == m.user_import->0);
    lemma_source_begins_with_lines();
    law_source_is_all_definitions(m);
    let rest = parts.drop_first();
    assert(parts =~= seq![parts[0]] + rest);
    lemma_closed_lines_joined(seq![parts[0]], rest);
    lemma_closed_line(parts[0]);
    let pos = REPL_ERL_FNS@.len() as int;
    assert(crate::repl::source(m) =~= REPL_ERL_FNS@ + parts[0].push('\n') + closed_lines(rest));
    assert(crate::repl::source(m).subrange(pos, pos + parts[0].len()) =~= parts[0]);
    pos
}

/// The statement that binds a name to the value saved under an index, at its type.
pub open spec fn load_statement(name: Seq<char>, value: ValueModel) -> Seq<char> {
    "  let "@ + name + " = fn () -> "@ + value.type_ + " { repl_load("@ + crate::text::decimal(
        value.index,
    ) + ") } ()"@
}

/// The statements that load `vars`, each on a line of its own.
pub open spec fn load_statements(vars: Seq<(Seq<char>, ValueModel)>) -> Seq<char> {
    closed_lines(vars.map_values(|var: (Seq<char>, ValueModel)| load_statement(var.0, var.1)))
}

/// Variables are loaded each by one statement on a line of its own, in order: all of
/// them but those whose name is excluded.
pub proof fn law_variables_are_loaded(vars: Seq<(Seq<char>, ValueModel)>, exclude: Seq<String>)
    ensures
        crate::repl::lets(vars, exclude) == load_statements(
            vars.filter(
                |var: (Seq<char>, ValueModel)|
                    forall|i: int| 0 <= i < exclude.len() ==> (#[trigger] exclude[i])@ != var.0,
            ),
        ),
    decreases vars.len(),
{
    reveal(Seq::filter);
    reveal_strlit(") } ()\n");
    reveal_strlit(") } ()");
    let wanted = |var: (Seq<char>, ValueModel)|
        forall|i: int| 0 <= i < exclude.len() ==> (#[trigger] exclude[i])@ != var.0;
    let loaded = |var: (Seq<char>, ValueModel)| load_statement(var.0, var.1);
    let kept = vars.filter(wanted);
    lemma_closed_line(Seq::empty());
    if vars.len() == 0 {
        assert(kept.map_values(loaded) =~= Seq::empty());
    } else {
        law_variables_are_loaded(vars.drop_last(), exclude);
        if wanted(vars.last()) {
            let earlier = vars.drop_last().filter(wanted);
            assert(kept.map_values(loaded).drop_last() =~= earlier.map_values(loaded));
            lemma_closed_lines_last(kept.map_values(loaded));
            assert(crate::repl::let_line(vars.last().0, vars.last().1) =~= loaded(
                vars.last(),
            ).push('\n'));
            assert(!crate::repl::names_contain(exclude, vars.last().0));
        } else {
            assert(crate::repl::names_contain(exclude, vars.last().0));
        }
    }
}

proof fn lemma_all_loaded(vars: Seq<(Seq<char>, ValueModel)>)
    ensures
        crate::repl::lets(vars, Seq::empty()) == load_statements(vars),
    decreases vars.len(),
{
    let exclude = Seq::<String>::empty();
    let wanted = |var: (Seq<char>, ValueModel)|
        forall|i: int| 0 <= i < exclude.len() ==> (#[trigger] exclude[i])@ != var.0;
    law_variables_are_loaded(vars, exclude);
    lemma_filter_keeps_all(vars, wanted);
}

proof fn lemma_filter_keeps_all<A>(all: Seq<A>, wanted: spec_fn(A) -> bool)
    requires
        forall|i: int| 0 <= i < all.len() ==> wanted(#[trigger] all[i]),
    ensures
        all.filter(wanted) == all,
    decreases all.len(),
{
    reveal(Seq::filter);
    if all.len() > 0 {
        lemma_filter_keeps_all(all.drop_last(), wanted);
        assert(all =~= all.drop_last().push(all.last()));
    }
}

/// The white space of a function that evaluates code.
pub open spec fn are_gaps(gaps: Seq<Seq<char>>) -> bool {
    &&& gaps.len() == 7
    &&& forall|i: int| 0 <= i < gaps.len() ==> crate::text_laws::is_blank(#[trigger] gaps[i])
    // The code and the statements stand on lines of their own.
    &&& gaps[2].contains('\n') && gaps[3].contains('\n') && gaps[4].contains('\n')
}

/// A function `name` that runs `statements` and then hands a block that holds `text`, and
/// nothing else, to the call that `opening` begins and `closing` ends.
pub open spec fn evaluating_function(
    gaps: Seq<Seq<char>>,
    name: Seq<char>,
    statements: Seq<char>,
    opening: Seq<char>,
    text: Seq<char>,
    closing: Seq<char>,
) -> Seq<char> {
    gaps[0] + "pub fn "@ + name + "() {"@ + gaps[1] + statements + gaps[2] + opening + gaps[3]
        + text + gaps[4] + closing + gaps[5] + "}"@ + gaps[6]
}

spec fn gaps_of_source() -> Seq<Seq<char>> {
    seq![
        "\n            "@,
        "\n              "@,
        "\n              "@,
        "\n            "@,
        "\n              "@,
        "\n            "@,
        "\n            "@,
    ]
}

proof fn lemma_gaps()
    ensures
        are_gaps(gaps_of_source()),
        crate::text_laws::is_blank("\n\n            "@),
{
    reveal_strlit("\n            ");
    reveal_strlit("\n              ");
    reveal_strlit("\n\n            ");
    let gaps = gaps_of_source();
    assert(gaps[2][0] == '\n' && gaps[3][0] == '\n' && gaps[4][0] == '\n');
    assert forall|i: int| 0 <= i < gaps.len() implies crate::text_laws::is_blank(#[trigger] gaps[i]) by {
        assert(gaps[i] == "\n            "@ || gaps[i] == "\n              "@);
    }
}

/// The source that evaluates an expression is the whole source of the session and the
/// function `repl_main`, which loads every variable and then shows the value of a block
/// that holds the expression and nothing else.
pub proof fn law_expression_is_evaluated_in_session(m: ReplModel, expr: Seq<char>) -> (gaps: Seq<
    Seq<char>,
>)
    ensures
        are_gaps(gaps),
        crate::repl::turn::expr_source(m, expr) == crate::repl::source(m) + evaluating_function(
            gaps,
            "repl_main"@,
            load_statements(m.vars),
            "repl_print({"@,
            expr,
            "})"@,
        ),
{
    lemma_gaps();
    lemma_all_loaded(m.vars);
    reveal_strlit("\n            ");
    reveal_strlit("\n              ");
    reveal_strlit("pub fn ");
    reveal_strlit("() {");
    reveal_strlit("repl_print({");
    reveal_strlit("})");
    reveal_strlit("}");
    reveal_strlit("\n            pub fn ");
    reveal_strlit("() {\n              ");
    reveal_strlit("\n              repl_print({\n            ");
    reveal_strlit("\n              })\n            }\n            ");
    let gaps = gaps_of_source();
    let loads = load_statements(m.vars);
    assert("\n            pub fn "@ =~= gaps[0] + "pub fn "@);
    assert("() {\n              "@ =~= "() {"@ + gaps[1]);
    assert("\n              repl_print({\n            "@ =~= gaps[2] + "repl_print({"@ + gaps[3]);
    assert("\n              })\n            }\n            "@ =~= gaps[4] + "})"@ + gaps[5] + "}"@
        + gaps[6]);
    assert(crate::repl::expr_main(m, expr) =~= evaluating_function(
        gaps,
        "repl_main"@,
        loads,
        "repl_print({"@,
        expr,
        "})"@,
    ));
    gaps
}

/// The source that evaluates the code of a `let` is the whole source of the session, the
/// function `repl_main`, which does nothing but call `run_save`, and the function
/// `run_save`, which loads every variable and then saves and shows the value of a block
/// that holds the code and nothing else.
pub proof fn law_let_is_evaluated_in_session(m: ReplModel, code: Seq<char>) -> (res: (
    Seq<Seq<char>>,
    Seq<Seq<char>>,
))
    ensures
        are_gaps(res.0),
        res.1.len() == 4,
        forall|i: int| 0 <= i < 4 ==> crate::text_laws::is_blank(#[trigger] res.1[i]),
        res.1[2].contains('\n'),
        crate::repl::turn::let_source(m, code) == crate::repl::source(m) + res.1[0]
            + "pub fn repl_main() {"@ + res.1[1] + "run_save()"@ + res.1[2] + "Nil"@ + res.1[3]
            + "}"@ + evaluating_function(
            res.0,
            "run_save"@,
            load_statements(m.vars),
            "repl_print(repl_save({"@,
            code,
            "}))"@,
        ),
{
    lemma_gaps();
    lemma_all_loaded(m.vars);
    reveal_strlit("\n            ");
    reveal_strlit("\n              ");
    reveal_strlit("\n\n            ");
    reveal_strlit("pub fn ");
    reveal_strlit("() {");
    reveal_strlit("}");
    reveal_strlit("Nil");
    reveal_strlit("repl_main");
    reveal_strlit("run_save");
    reveal_strlit("run_save()");
    reveal_strlit("pub fn repl_main() {");
    reveal_strlit("repl_print(repl_save({");
    reveal_strlit("}))");
    reveal_strlit("\n            pub fn ");
    reveal_strlit("() {\n              ");
    reveal_strlit("()\n              Nil\n            }\n\n            pub fn ");
    reveal_strlit("\n              repl_print(repl_save({\n            ");
    reveal_strlit("\n              }))\n            }\n            ");
    let gaps = gaps_of_source().update(0, "\n\n            "@);
    let outer = seq![
        "\n            "@,
        "\n              "@,
        "\n              "@,
        "\n            "@,
    ];
    assert(outer[2][0] == '\n');
    assert forall|i: int| 0 <= i < 4 implies crate::text_laws::is_blank(#[trigger] outer[i]) by {
        assert(crate::text_laws::is_blank(gaps_of_source()[0]) && crate::text_laws::is_blank(gaps_of_source()[1]));
    }
    assert forall|i: int| 0 <= i < gaps.len() implies crate::text_laws::is_blank(#[trigger] gaps[i]) by {
        if i > 0 {
            assert(gaps[i] == gaps_of_source()[i]);
        }
    }
    assert(are_gaps(gaps));
    let head = outer[0] + "pub fn repl_main() {"@ + outer[1] + "run_save()"@ + outer[2] + "Nil"@
        + outer[3] + "}"@;
    assert("\n            pub fn "@ + "repl_main"@ + "() {\n              "@ + "run_save"@
        + "()\n              Nil\n            }\n\n            pub fn "@ =~= head + gaps[0]
        + "pub fn "@);
    assert("() {\n              "@ =~= "() {"@ + gaps[1]);
    assert("\n              repl_print(repl_save({\n            "@ =~= gaps[2]
        + "repl_print(repl_save({"@ + gaps[3]);
    assert("\n              }))\n            }\n            "@ =~= gaps[4] + "}))"@ + gaps[5]
        + "}"@ + gaps[6]);
    let function = evaluating_function(
        gaps,
        "run_save"@,
        load_statements(m.vars),
        "repl_print(repl_save({"@,
        code,
        "}))"@,
    );
    assert(crate::repl::let_main(m, code) =~= head + function);
    assert(crate::repl::turn::let_source(m, code) =~= crate::repl::source(m) + outer[0]
        + "pub fn repl_main() {"@ + outer[1] + "run_save()"@ + outer[2] + "Nil"@ + outer[3] + "}"@
        + function);
    (gaps, outer)
}

proof fn lemma_stands(before: Seq<char>, part: Seq<char>, after: Seq<char>)
    ensures
        stands_at(before + part + after, part, before.len() as int),
{
    let pos = before.len() as int;
    assert((before + part + after).subrange(pos, pos + part.len()) =~= part);
}

/// What stands in a part of a text stands in the text.
proof fn lemma_stands_within(text: Seq<char>, part: Seq<char>, pos: int, inner: Seq<char>, at: int)
    requires
        stands_at(text, part, pos),
        stands_at(part, inner, at),
    ensures
        stands_at(text, inner, pos + at),
{
    assert(text.subrange(pos + at, pos + at + inner.len()) =~= part.subrange(
        at,
        at + inner.len(),
    ));
}

/// A variable is loaded by a statement that ends its line.
proof fn lemma_load_stands(vars: Seq<(Seq<char>, ValueModel)>, var: Seq<char>) -> (pos: int)
    requires
        crate::table::lookup(vars, var) is Some,
    ensures
        stands_at(
            load_statements(vars),
            load_statement(var, crate::table::lookup(vars, var)->0).push('\n'),
            pos,
        ),
{
    let i = choose|i: int| crate::table::is_entry_at(vars, var, i);
    let loaded = |var: (Seq<char>, ValueModel)| load_statement(var.0, var.1);
    let parts = vars.map_values(loaded);
    let (before, load, after) = (parts.take(i), parts[i], parts.skip(i + 1));
    assert(parts =~= before + seq![load] + after);
    lemma_closed_lines_joined(before + seq![load], after);
    lemma_closed_lines_joined(before, seq![load]);
    lemma_closed_line(load);
    lemma_stands(closed_lines(before), load.push('\n'), closed_lines(after));
    closed_lines(before).len() as int
}

/// Where the head, the statements and the code of a function stand.
proof fn lemma_function_parts(
    start: Seq<char>,
    gaps: Seq<Seq<char>>,
    name: Seq<char>,
    statements: Seq<char>,
    opening: Seq<char>,
    text: Seq<char>,
    closing: Seq<char>,
) -> (places: (int, int, int))
    ensures
        ({
            let source = start + evaluating_function(
                gaps,
                name,
                statements,
                opening,
                text,
                closing,
            );
            let head = "pub fn "@ + name + "() {"@;
            let (head_at, statements_at, text_at) = places;
            &&& start.len() <= head_at
            &&& stands_at(source, head, head_at)
            &&& head_at + head.len() <= statements_at
            &&& stands_at(source, statements, statements_at)
            &&& statements_at + statements.len() <= text_at
            &&& stands_at(source, text, text_at)
        }),
{
    let head = "pub fn "@ + name + "() {"@;
    let source = start + evaluating_function(gaps, name, statements, opening, text, closing);
    let end = gaps[4] + closing + gaps[5] + "}"@ + gaps[6];
    let a = start + gaps[0];
    let b = a + head + gaps[1];
    let c = b + statements + gaps[2] + opening + gaps[3];
    assert(source =~= c + text + end);
    lemma_stands(c, text, end);
    let d = gaps[2] + opening + gaps[3] + text + end;
    assert(c + text + end =~= b + statements + d);
    lemma_stands(b, statements, d);
    let e = gaps[1] + statements + d;
    assert(b + statements + d =~= a + head + e);
    lemma_stands(a, head, e);
    (a.len() as int, b.len() as int, c.len() as int)
}

/// Within a function that evaluates code, the statement that loads a variable comes after
/// the head of the function and before the code.
proof fn lemma_loaded_before_code(
    start: Seq<char>,
    gaps: Seq<Seq<char>>,
    name: Seq<char>,
    vars: Seq<(Seq<char>, ValueModel)>,
    opening: Seq<char>,
    text: Seq<char>,
    closing: Seq<char>,
    var: Seq<char>,
) -> (places: (int, int, int))
    requires
        crate::table::lookup(vars, var) is Some,
    ensures
        ({
            let source = start + evaluating_function(
                gaps,
                name,
                load_statements(vars),
                opening,
                text,
                closing,
            );
            let head = "pub fn "@ + name + "() {"@;
            let load = load_statement(var, crate::table::lookup(vars, var)->0);
            let (head_at, load_at, text_at) = places;
            &&& start.len() <= head_at
            &&& stands_at(source, head, head_at)
            &&& head_at + head.len() <= load_at
            &&& stands_at(source, load, load_at)
            &&& load_at + load.len() < text_at
            &&& source[load_at + load.len()] == '\n'
            &&& stands_at(source, text, text_at)
        }),
{
    let statements = load_statements(vars);
    let load = load_statement(var, crate::table::lookup(vars, var)->0);
    let line = load.push('\n');
    let source = start + evaluating_function(gaps, name, statements, opening, text, closing);
    let (head_at, statements_at, text_at) = lemma_function_parts(
        start,
        gaps,
        name,
        statements,
        opening,
        text,
        closing,
    );
    let pos = lemma_load_stands(vars, var);
    let load_at = statements_at + pos;
    lemma_stands_within(source, statements, statements_at, line, pos);
    assert(line.subrange(0, load.len() as int) =~= load);
    lemma_stands_within(source, line, load_at, load, 0);
    assert(source.subrange(load_at, load_at + line.len())[load.len() as int] == '\n');
    (head_at, load_at, text_at)
}

/// Every variable of a session can be used in an expression: within `repl_main`, before
/// the expression, a statement binds its name to the value that was saved, at its type.
pub proof fn law_expression_can_use_variable(
    m: ReplModel,
    expr: Seq<char>,
    name: Seq<char>,
) -> (places: (int, int, int))
    requires
        crate::table::lookup(m.vars, name) is Some,
    ensures
        ({
            let source = crate::repl::turn::expr_source(m, expr);
            let head = "pub fn "@ + "repl_main"@ + "() {"@;
            let load = load_statement(name, crate::table::lookup(m.vars, name)->0);
            let (head_at, load_at, expr_at) = places;
            &&& crate::repl::source(m).len() <= head_at
            &&& stands_at(source, head, head_at)
            &&& head_at + head.len() <= load_at
            &&& stands_at(source, load, load_at)
            &&& load_at + load.len() < expr_at
            &&& source[load_at + load.len()] == '\n'
            &&& stands_at(source, expr, expr_at)
        }),
{
    let gaps = law_expression_is_evaluated_in_session(m, expr);
    lemma_loaded_before_code(
        crate::repl::source(m),
        gaps,
        "repl_main"@,
        m.vars,
        "repl_print({"@,
        expr,
        "})"@,
        name,
    )
}

/// Every variable of a session can be used in the code of a `let`: within `run_save`,
/// before the code, a statement binds its name to the value that was saved, at its type.
pub proof fn law_let_can_use_variable(m: ReplModel, code: Seq<char>, name: Seq<char>) -> (places: (
    int,
    int,
    int,
))
    requires
        crate::table::lookup(m.vars, name) is Some,
    ensures
        ({
            let source = crate::repl::turn::let_source(m, code);
            let head = "pub fn "@ + "run_save"@ + "() {"@;
            let load = load_statement(name, crate::table::lookup(m.vars, name)->0);
            let (head_at, load_at, code_at) = places;
            &&& crate::repl::source(m).len() <= head_at
            &&& stands_at(source, head, head_at)
            &&& head_at + head.len() <= load_at
            &&& stands_at(source, load, load_at)
            &&& load_at + load.len() < code_at
            &&& source[load_at + load.len()] == '\n'
            &&& stands_at(source, code, code_at)
        }),
{
    let (gaps, outer) = law_let_is_evaluated_in_session(m, code);
    lemma_loaded_before_code(
        crate::repl::source(m) + outer[0] + "pub fn repl_main() {"@ + outer[1] + "run_save()"@
            + outer[2] + "Nil"@ + outer[3] + "}"@,
        gaps,
        "run_save"@,
        m.vars,
        "repl_print(repl_save({"@,
        code,
        "}))"@,
        name,
    )
}

} // verus!
