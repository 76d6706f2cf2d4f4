//! A session: what was defined in it, and the source that evaluates more code in
//! the midst of it.

pub mod line_laws;
pub mod outcome_laws;
pub mod replay;
pub mod source_laws;
pub mod turn;
pub mod turn_laws;

use vstd::prelude::*;
use vstd::string::*;
use crate::compiled::{import_public_types_and_values, ModuleInterface};
use crate::erlang::REPL_MAIN;
use crate::setup::ReplRuntime;
use crate::table::Table;
use crate::text::{push_decimal, same};

verus! {

/// The functions that a session's code calls to save, load and show values.
pub const REPL_ERL_FNS: &'static str = "
@external(erlang, \"gleam_repl\", \"repl_save\")
pub fn repl_save(value: a) -> a

@external(erlang, \"gleam_repl\", \"repl_load\")
pub fn repl_load(index: Int) -> a

@external(erlang, \"gleam_repl\", \"repl_has_var\")
pub fn repl_has_var(index: Int) -> a

@external(erlang, \"gleam_repl\", \"repl_print\")
pub fn repl_print(value: a) -> a
";

/// The function that saves the value of a `let`.
pub const RUN_SAVE: &'static str = "run_save";

/// A value that was saved: where, and of what type.
#[derive(Debug)]
pub struct Value {
    pub index: usize,
    pub type_: String,
}

/// A [`Value`], with its type as text.
pub struct ValueModel {
    pub index: nat,
    pub type_: Seq<char>,
}

impl View for Value {
    type V = ValueModel;

    open spec fn view(&self) -> ValueModel {
        ValueModel { index: self.index as nat, type_: self.type_@ }
    }
}

/// What a [`Repl`] holds, as text and numbers.
#[verifier::ext_equal]
pub struct ReplModel {
    /// The import of what the project's own module offers.
    pub user_import: Option<Seq<char>>,
    /// Further imports.
    pub imports: Seq<Seq<char>>,
    /// The constants that were defined, in order.
    pub consts: Seq<Seq<char>>,
    /// The types that were defined, in order.
    pub types: Seq<Seq<char>>,
    /// The functions that were defined, under their names.
    pub fns: Seq<(Seq<char>, Seq<char>)>,
    /// The variables, under their names.
    pub vars: Seq<(Seq<char>, ValueModel)>,
    /// What evaluates the code.
    pub runtime: ReplRuntime,
    /// How many lines were run, and how many items of the last line.
    pub iter: (nat, nat),
    /// The index under which the next value will be saved.
    pub var_index: nat,
}

/// A session.
pub struct Repl {
    user_import: Option<String>,
    imports: Vec<String>,
    consts: Vec<String>,
    types: Vec<String>,
    fns: Table<String>,
    vars: Table<Value>,
    runtime: ReplRuntime,
    iter: (usize, usize),
    var_index: usize,
}

/// Strings, as text.
pub open spec fn texts(strings: Seq<String>) -> Seq<Seq<char>> {
    Seq::new(strings.len(), |i: int| strings[i]@)
}

impl View for Repl {
    type V = ReplModel;

    closed spec fn view(&self) -> ReplModel {
        ReplModel {
            user_import: match self.user_import {
                Some(import) => Some(import@),
                None => None,
            },
            imports: texts(self.imports@),
            consts: texts(self.consts@),
            types: texts(self.types@),
            fns: self.fns@,
            vars: self.vars@,
            runtime: self.runtime,
            iter: (self.iter.0 as nat, self.iter.1 as nat),
            var_index: self.var_index as nat,
        }
    }
}

impl ReplModel {
    /// No function and no variable is there twice, and no two variables are saved
    /// under the same index, nor any under one that is still to be given out.
    pub open spec fn wf(self) -> bool {
        &&& crate::table::distinct(self.fns)
        &&& crate::table::distinct(self.vars)
        &&& forall|i: int|
            0 <= i < self.vars.len() ==> (#[trigger] self.vars[i]).1.index < self.var_index
        &&& forall|i: int, j: int|
            0 <= i < j < self.vars.len() ==> (#[trigger] self.vars[i]).1.index != (
            #[trigger] self.vars[j]).1.index
    }
}

/// Each text with a line feed after it.
pub open spec fn lines(parts: Seq<Seq<char>>) -> Seq<char>
    decreases parts.len(),
{
    if parts.len() == 0 {
        Seq::empty()
    } else {
        lines(parts.drop_last()) + parts.last() + "\n"@
    }
}

/// Each import on a line of its own.
pub open spec fn import_lines(imports: Seq<Seq<char>>) -> Seq<char>
    decreases imports.len(),
{
    if imports.len() == 0 {
        Seq::empty()
    } else {
        import_lines(imports.drop_last()) + "import "@ + imports.last() + "\n"@
    }
}

/// The code of each function on lines of its own.
pub open spec fn fn_lines(fns: Seq<(Seq<char>, Seq<char>)>) -> Seq<char>
    decreases fns.len(),
{
    if fns.len() == 0 {
        Seq::empty()
    } else {
        fn_lines(fns.drop_last()) + fns.last().1 + "\n"@
    }
}

/// The imports of a session.
pub open spec fn imports_text(m: ReplModel) -> Seq<char> {
    (match m.user_import {
        Some(import) => import + "\n"@,
        None => Seq::empty(),
    }) + import_lines(m.imports)
}

/// All that was defined in a session, as source.
pub open spec fn source(m: ReplModel) -> Seq<char> {
    REPL_ERL_FNS@ + imports_text(m) + lines(m.consts) + lines(m.types) + fn_lines(m.fns)
}

/// `name` is among `names`.
pub open spec fn names_contain(names: Seq<String>, name: Seq<char>) -> bool {
    exists|i: int| 0 <= i < names.len() && (#[trigger] names[i])@ == name
}

/// The statement that loads a variable.
pub open spec fn let_line(name: Seq<char>, value: ValueModel) -> Seq<char> {
    "  let "@ + name + " = fn () -> "@ + value.type_ + " { repl_load("@ + crate::text::decimal(
        value.index,
    ) + ") } ()\n"@
}

/// The statements that load the variables, all but those of the names in `exclude`.
pub open spec fn lets(vars: Seq<(Seq<char>, ValueModel)>, exclude: Seq<String>) -> Seq<char>
    decreases vars.len(),
{
    if vars.len() == 0 {
        Seq::empty()
    } else if names_contain(exclude, vars.last().0) {
        lets(vars.drop_last(), exclude)
    } else {
        lets(vars.drop_last(), exclude) + let_line(vars.last().0, vars.last().1)
    }
}

/// The function that evaluates an expression and shows its value.
pub open spec fn expr_main(m: ReplModel, expr: Seq<char>) -> Seq<char> {
    "\n            pub fn "@ + REPL_MAIN@ + "() {\n              "@ + lets(m.vars, Seq::empty())
        + "\n              repl_print({\n            "@ + expr
        + "\n              })\n            }\n            "@
}

/// The functions that evaluate code, and save and show its value.
pub open spec fn let_main(m: ReplModel, code: Seq<char>) -> Seq<char> {
    "\n            pub fn "@ + REPL_MAIN@ + "() {\n              "@ + RUN_SAVE@
        + "()\n              Nil\n            }\n\n            pub fn "@ + RUN_SAVE@
        + "() {\n              "@ + lets(m.vars, Seq::empty())
        + "\n              repl_print(repl_save({\n            "@ + code
        + "\n              }))\n            }\n            "@
}

/// The name of the module that is compiled for an item.
pub open spec fn module_name(iter: (nat, nat)) -> Seq<char> {
    "repl"@ + crate::text::decimal(iter.0) + "_"@ + crate::text::decimal(iter.1)
}

/// The file of the module that is compiled for an item.
pub open spec fn file_name(iter: (nat, nat)) -> Seq<char> {
    module_name(iter) + ".gleam"@
}

fn push_lines(src: &mut String, parts: &Vec<String>)
    ensures
        final(src)@ == old(src)@ + lines(texts(parts@)),
{
    let n: usize = parts.len();
    let ghost all = texts(parts@);
    let ghost start = src@;
    assert(all.take(0) =~= Seq::empty());
    assert(src@ =~= start + lines(all.take(0)));
    for i in 0..n
        invariant
            n == parts@.len(),
            all == texts(parts@),
            src@ == start + lines(all.take(i as int)),
    {
        assert(all.take(i + 1).drop_last() =~= all.take(i as int));
        src.append(parts[i].as_str());
        src.append("\n");
        assert(src@ =~= start + lines(all.take(i + 1)));
    }
    assert(all.take(n as int) =~= all);
}

fn contains(names: &Vec<String>, name: &str) -> (res: bool)
    ensures
        res == names_contain(names@, name@),
{
    let n: usize = names.len();
    for i in 0..n
        invariant
            n == names@.len(),
            forall|j: int| 0 <= j < i ==> (#[trigger] names@[j])@ != name@,
    {
        if same(names[i].as_str(), name) {
            return true;
        }
    }
    false
}

fn copy_strings(strings: &Vec<String>) -> (res: Vec<String>)
    ensures
        texts(res@) == texts(strings@),
{
    let mut res: Vec<String> = Vec::new();
    let n: usize = strings.len();
    for i in 0..n
        invariant
            n == strings@.len(),
            res@.len() == i,
            forall|j: int| 0 <= j < i ==> (#[trigger] res@[j])@ == strings@[j]@,
    {
        res.push(strings[i].clone());
    }
    assert(texts(res@) =~= texts(strings@));
    res
}

impl Repl {
    /// A session in which nothing was defined yet, but for what the project's own
    /// module offers. Only sessions on Erlang are supported.
    pub fn new(module: Option<&ModuleInterface>, runtime: ReplRuntime) -> (res: Self)
        requires
            runtime is Erlang,
        ensures
            res@ == (ReplModel {
                user_import: match module {
                    Some(module) => Some(crate::compiled::public_import(*module)),
                    None => None,
                },
                imports: Seq::empty(),
                consts: Seq::empty(),
                types: Seq::empty(),
                fns: Seq::empty(),
                vars: Seq::empty(),
                runtime,
                iter: (0, 0),
                var_index: 0,
            }),
            res@.wf(),
    {
        let res = Repl {
            user_import: match module {
                Some(module) => Some(import_public_types_and_values(module)),
                None => None,
            },
            imports: Vec::new(),
            consts: Vec::new(),
            types: Vec::new(),
            fns: Table::new(),
            vars: Table::new(),
            runtime,
            iter: (0, 0),
            var_index: 0,
        };
        assert(texts(Seq::<String>::empty()) =~= Seq::empty());
        res
    }

    /// A copy of the session.
    fn snapshot(&self) -> (res: Self)
        ensures
            res@ == self@,
    {
        let mut fns: Table<String> = Table::new();
        let n: usize = self.fns.len();
        for i in 0..n
            invariant
                n == self.fns@.len(),
                fns@ == self.fns@.take(i as int),
        {
            fns.append(self.fns.name(i).clone(), self.fns.value(i).clone());
            assert(fns@ =~= self.fns@.take(i + 1));
        }
        assert(fns@ =~= self.fns@);
        let mut vars: Table<Value> = Table::new();
        let n: usize = self.vars.len();
        for i in 0..n
            invariant
                n == self.vars@.len(),
                vars@ == self.vars@.take(i as int),
        {
            let value = self.vars.value(i);
            let copy = Value { index: value.index, type_: value.type_.clone() };
            vars.append(self.vars.name(i).clone(), copy);
            assert(vars@ =~= self.vars@.take(i + 1));
        }
        assert(vars@ =~= self.vars@);
        Repl {
            user_import: match &self.user_import {
                Some(import) => Some(import.clone()),
                None => None,
            },
            imports: copy_strings(&self.imports),
            consts: copy_strings(&self.consts),
            types: copy_strings(&self.types),
            fns,
            vars,
            runtime: self.runtime,
            iter: self.iter,
            var_index: self.var_index,
        }
    }

    fn add_imports(&self, src: &mut String)
        ensures
            final(src)@ == old(src)@ + imports_text(self@),
    {
        match &self.user_import {
            Some(user) => {
                src.append(user.as_str());
                src.append("\n");
            },
            None => {},
        }
        let ghost start = src@;
        let n: usize = self.imports.len();
        let ghost all = texts(self.imports@);
        assert(all.take(0) =~= Seq::empty());
        assert(src@ =~= start + import_lines(all.take(0)));
        for i in 0..n
            invariant
                n == self.imports@.len(),
                all == texts(self.imports@),
                src@ == start + import_lines(all.take(i as int)),
        {
            assert(all.take(i + 1).drop_last() =~= all.take(i as int));
            src.append("import ");
            src.append(self.imports[i].as_str());
            src.append("\n");
            assert(src@ =~= start + import_lines(all.take(i + 1)));
        }
        assert(all.take(n as int) =~= all);
        assert(src@ =~= old(src)@ + imports_text(self@));
    }

    fn add_consts(&self, src: &mut String)
        ensures
            final(src)@ == old(src)@ + lines(self@.consts),
    {
        push_lines(src, &self.consts);
    }

    fn add_types(&self, src: &mut String)
        ensures
            final(src)@ == old(src)@ + lines(self@.types),
    {
        push_lines(src, &self.types);
    }

    fn add_fns(&self, src: &mut String)
        ensures
            final(src)@ == old(src)@ + fn_lines(self@.fns),
    {
        let n: usize = self.fns.len();
        let ghost start = src@;
        assert(self.fns@.take(0) =~= Seq::empty());
        assert(src@ =~= start + fn_lines(self.fns@.take(0)));
        for i in 0..n
            invariant
                n == self.fns@.len(),
                src@ == start + fn_lines(self.fns@.take(i as int)),
        {
            assert(self.fns@.take(i + 1).drop_last() =~= self.fns@.take(i as int));
            src.append(self.fns.value(i).as_str());
            src.append("\n");
            assert(src@ =~= start + fn_lines(self.fns@.take(i + 1)));
        }
        assert(self.fns@.take(n as int) =~= self.fns@);
    }

    /// All that was defined in the session, as source.
    pub fn build_source(&self) -> (res: String)
        ensures
            res@ == source(self@),
    {
        let mut src = String::new();
        src.append(REPL_ERL_FNS);
        self.add_imports(&mut src);
        self.add_consts(&mut src);
        self.add_types(&mut src);
        self.add_fns(&mut src);
        assert(src@ =~= source(self@));
        src
    }

    /// The statements that load the session's variables, all but those of the names
    /// in `exclude`.
    pub fn gen_lets(&self, exclude: &Vec<String>) -> (res: String)
        ensures
            res@ == lets(self@.vars, exclude@),
    {
        let mut res = String::new();
        let n: usize = self.vars.len();
        assert(self.vars@.take(0) =~= Seq::empty());
        for i in 0..n
            invariant
                n == self.vars@.len(),
                res@ == lets(self.vars@.take(i as int), exclude@),
        {
            let ghost start = res@;
            assert(self.vars@.take(i + 1).drop_last() =~= self.vars@.take(i as int));
            let name = self.vars.name(i);
            let value = self.vars.value(i);
            if !contains(exclude, name.as_str()) {
                res.append("  let ");
                res.append(name.as_str());
                res.append(" = fn () -> ");
                res.append(value.type_.as_str());
                res.append(" { repl_load(");
                push_decimal(&mut res, value.index);
                res.append(") } ()\n");
                assert(res@ =~= start + let_line(name@, value@));
            }
        }
        assert(self.vars@.take(n as int) =~= self.vars@);
        res
    }

    /// Appends the function that evaluates an expression and shows its value.
    pub fn add_expr(&self, src: &mut String, expr: &str)
        ensures
            final(src)@ == old(src)@ + expr_main(self@, expr@),
    {
        let none: Vec<String> = Vec::new();
        let lets = self.gen_lets(&none);
        src.append("\n            pub fn ");
        src.append(REPL_MAIN);
        src.append("() {\n              ");
        src.append(lets.as_str());
        src.append("\n              repl_print({\n            ");
        src.append(expr);
        src.append("\n              })\n            }\n            ");
        assert(src@ =~= old(src)@ + expr_main(self@, expr@));
    }

    /// Appends the functions that evaluate code, and save and show its value.
    pub fn add_let(&self, src: &mut String, code: &str)
        ensures
            final(src)@ == old(src)@ + let_main(self@, code@),
    {
        let none: Vec<String> = Vec::new();
        let lets = self.gen_lets(&none);
        src.append("\n            pub fn ");
        src.append(REPL_MAIN);
        src.append("() {\n              ");
        src.append(RUN_SAVE);
        src.append("()\n              Nil\n            }\n\n            pub fn ");
        src.append(RUN_SAVE);
        src.append("() {\n              ");
        src.append(lets.as_str());
        src.append("\n              repl_print(repl_save({\n            ");
        src.append(code);
        src.append("\n              }))\n            }\n            ");
        assert(src@ =~= old(src)@ + let_main(self@, code@));
    }
}

} // verus!
