//! What a parsed line consists of, as far as a session looks into it.
//!
//! Positions count the bytes of the line that was parsed.

use vstd::prelude::*;
use crate::text::{is_sliceable, slice};

verus! {

/// Where something stands in the source.
#[derive(Clone, Copy, Debug, PartialEq, Eq, Structural)]
pub struct SrcSpan {
    pub start: u32,
    pub end: u32,
}

/// A function definition.
#[derive(Debug)]
pub struct Function {
    /// Where the head of the definition stands.
    pub location: SrcSpan,
    /// Where the whole definition ends.
    pub end_position: u32,
    /// The name of the function, which an anonymous one lacks.
    pub name: Option<String>,
    /// The variable each argument is bound to; a discarded argument has none.
    pub arguments: Vec<Option<String>>,
    /// Where the first statement of the body stands.
    pub body_location: SrcSpan,
}

/// A definition.
#[derive(Debug)]
pub enum Definition {
    Import { location: SrcSpan },
    TypeAlias { location: SrcSpan },
    /// The definition goes on past its head, up to `end_position`.
    CustomType { location: SrcSpan, end_position: u32 },
    /// The definition goes on past its head, up to the end of its value.
    ModuleConstant { location: SrcSpan, value_location: SrcSpan },
    Function(Function),
}

/// What the value of a `let` is matched with.
#[derive(Debug)]
pub enum Pattern {
    Variable { name: String },
    Discard,
    /// Anything else.
    Other,
}

/// A statement.
#[derive(Debug)]
pub enum Statement {
    Use { location: SrcSpan },
    Expression { location: SrcSpan },
    Assignment { location: SrcSpan, pattern: Pattern, value_location: SrcSpan },
    Assert { location: SrcSpan },
}

/// One item of a line.
#[derive(Debug)]
pub enum ReplItem {
    ReplDefinition(Definition),
    ReplStatement(Statement),
}

/// Where a definition begins and ends.
pub open spec fn definition_range(def: Definition) -> (u32, u32) {
    match def {
        Definition::Import { location } | Definition::TypeAlias { location } => (
            location.start,
            location.end,
        ),
        Definition::CustomType { location, end_position } => (location.start, end_position),
        Definition::ModuleConstant { location, value_location } => (
            location.start,
            value_location.end,
        ),
        Definition::Function(f) => (f.location.start, f.end_position),
    }
}

/// The definition is there, in whole characters.
pub open spec fn definition_fits(def: Definition, src: Seq<char>) -> bool {
    let (start, end) = definition_range(def);
    crate::text::sliceable(src, start as int, end as int)
}

/// The text of a definition.
pub open spec fn definition_src(def: Definition, src: Seq<char>) -> Seq<char> {
    let (start, end) = definition_range(def);
    crate::text::sliced(src, start as int, end as int)
}

fn range_of(def: &Definition) -> (res: (usize, usize))
    ensures
        res.0 == definition_range(*def).0,
        res.1 == definition_range(*def).1,
{
    match def {
        Definition::Import { location } | Definition::TypeAlias { location } => (
            location.start as usize,
            location.end as usize,
        ),
        Definition::CustomType { location, end_position } => (
            location.start as usize,
            *end_position as usize,
        ),
        Definition::ModuleConstant { location, value_location } => (
            location.start as usize,
            value_location.end as usize,
        ),
        Definition::Function(f) => (f.location.start as usize, f.end_position as usize),
    }
}

/// Whether `get_definition_src(def, src)` may be called.
pub fn is_definition_in(def: &Definition, src: &str) -> (res: bool)
    ensures
        res == definition_fits(*def, src@),
{
    let (start, end) = range_of(def);
    is_sliceable(src, start, end)
}

/// The text of a definition.
pub fn get_definition_src<'a>(def: &Definition, src: &'a str) -> (res: &'a str)
    requires
        definition_fits(*def, src@),
    ensures
        res@ == definition_src(*def, src@),
{
    let (start, end) = range_of(def);
    slice(src, start, end)
}

/// The names among `arguments`, in order.
pub open spec fn args_names(arguments: Seq<Option<String>>) -> Seq<String>
    decreases arguments.len(),
{
    if arguments.len() == 0 {
        Seq::empty()
    } else {
        match arguments.last() {
            Some(name) => args_names(arguments.drop_last()).push(name),
            None => args_names(arguments.drop_last()),
        }
    }
}

/// The names that the arguments of a function are bound to, in order.
pub fn get_args_names(fun: &Function) -> (res: Vec<String>)
    ensures
        res@ == args_names(fun.arguments@),
{
    let mut res: Vec<String> = Vec::new();
    let n: usize = fun.arguments.len();
    assert(fun.arguments@.take(0) =~= Seq::empty());
    for i in 0..n
        invariant
            n == fun.arguments@.len(),
            res@ == args_names(fun.arguments@.take(i as int)),
    {
        assert(fun.arguments@.take(i + 1).drop_last() =~= fun.arguments@.take(i as int));
        match &fun.arguments[i] {
            Some(name) => {
                res.push(name.clone());
            },
            None => {},
        }
    }
    assert(fun.arguments@.take(n as int) =~= fun.arguments@);
    res
}

} // verus!
