//! What the compiler hands back, as far as a session looks into it.

use vstd::pervasive::unreached;
use vstd::prelude::*;
use vstd::string::*;
use crate::text::same;

verus! {

/// A definition of a compiled module.
#[derive(Debug)]
pub enum TypedDefinition {
    /// A function, with the type that it returns, in Gleam's notation.
    Function { name: Option<String>, return_type: String },
    /// Any other definition.
    Other,
}

/// A compiled module.
#[derive(Debug)]
pub struct Module {
    pub name: String,
    pub definitions: Vec<TypedDefinition>,
}

/// What a module offers to others.
#[derive(Debug)]
pub struct ModuleInterface {
    pub name: String,
    pub public_type_names: Vec<String>,
    pub public_value_names: Vec<String>,
}

/// The definition is a function of that name.
pub open spec fn is_function_named(def: TypedDefinition, name: Seq<char>) -> bool {
    def matches TypedDefinition::Function { name: Some(own), .. } && own@ == name
}

/// `pos` is the first function of that name.
pub open spec fn is_function_at(definitions: Seq<TypedDefinition>, name: Seq<char>, pos: int) -> bool {
    &&& 0 <= pos < definitions.len()
    &&& is_function_named(definitions[pos], name)
    &&& forall|i: int| 0 <= i < pos ==> !is_function_named(#[trigger] definitions[i], name)
}

/// The type that the first function of that name returns.
pub open spec fn return_type_of(module: Module, name: Seq<char>) -> Seq<char> {
    let pos = choose|pos: int| is_function_at(module.definitions@, name, pos);
    module.definitions@[pos]->return_type@
}

/// The module has a function of that name.
pub open spec fn has_function(module: Module, name: Seq<char>) -> bool {
    exists|i: int|
        0 <= i < module.definitions@.len() && is_function_named(
            #[trigger] module.definitions@[i],
            name,
        )
}

/// The type that the function of that name returns: the first one, where there are
/// several.
pub fn get_function<'a>(module: &'a Module, name: &str) -> (res: Option<&'a String>)
    ensures
        res is Some <==> has_function(*module, name@),
        res matches Some(return_type) ==> return_type@ == return_type_of(*module, name@),
{
    let n: usize = module.definitions.len();
    for i in 0..n
        invariant
            n == module.definitions@.len(),
            forall|j: int|
                0 <= j < i ==> !is_function_named(#[trigger] module.definitions@[j], name@),
    {
        match &module.definitions[i] {
            TypedDefinition::Function { name: Some(own), return_type } => {
                if same(own.as_str(), name) {
                    assert(is_function_at(module.definitions@, name@, i as int));
                    assert forall|p: int| is_function_at(module.definitions@, name@, p) implies p
                        == i by {}
                    return Some(return_type);
                }
            },
            _ => {},
        }
    }
    None
}

/// `pos` is the first module of that name.
pub open spec fn is_module_at(modules: Seq<Module>, name: Seq<char>, pos: int) -> bool {
    &&& 0 <= pos < modules.len()
    &&& modules[pos].name@ == name
    &&& forall|i: int| 0 <= i < pos ==> (#[trigger] modules[i]).name@ != name
}

/// There is a module of that name.
pub open spec fn has_module(modules: Seq<Module>, name: Seq<char>) -> bool {
    exists|pos: int| is_module_at(modules, name, pos)
}

/// The first module of that name.
pub open spec fn module_named(modules: Seq<Module>, name: Seq<char>) -> Module {
    modules[choose|pos: int| is_module_at(modules, name, pos)]
}

/// Where the first module of that name stands.
pub fn module_position(modules: &Vec<Module>, name: &str) -> (res: Option<usize>)
    ensures
        res is Some <==> has_module(modules@, name@),
        res matches Some(pos) ==> is_module_at(modules@, name@, pos as int),
        res matches Some(pos) ==> modules@[pos as int] == module_named(modules@, name@),
{
    let n: usize = modules.len();
    for i in 0..n
        invariant
            n == modules@.len(),
            forall|j: int| 0 <= j < i ==> (#[trigger] modules@[j]).name@ != name@,
    {
        if same(modules[i].name.as_str(), name) {
            assert(is_module_at(modules@, name@, i as int));
            assert forall|p: int| is_module_at(modules@, name@, p) implies p == i by {}
            return Some(i);
        }
    }
    None
}

/// The modules with the first one of that name in front; the last one takes its
/// former place.
pub open spec fn module_first(modules: Seq<Module>, pos: int) -> Seq<Module> {
    seq![modules[pos]] + modules.update(pos, modules.last()).drop_last()
}

/// Puts the module of that name in front of the others; the last one takes its
/// former place.
pub fn bring_module_first(modules: Vec<Module>, name: &str) -> (res: Vec<Module>)
    requires
        has_module(modules@, name@),
    ensures
        exists|pos: int| is_module_at(modules@, name@, pos) && res@ == module_first(modules@, pos),
        res@[0] == module_named(modules@, name@),
{
    let mut modules = modules;
    let ghost all = modules@;
    match module_position(&modules, name) {
        Some(pos) => {
            let mut res = Vec::new();
            res.push(modules.swap_remove(pos));
            res.append(&mut modules);
            assert(res@ =~= module_first(all, pos as int));
            res
        },
        None => unreached(),
    }
}

/// Each name with `before` in front of it and a comma and a space after it.
pub open spec fn listed(before: Seq<char>, names: Seq<String>) -> Seq<char>
    decreases names.len(),
{
    if names.len() == 0 {
        Seq::empty()
    } else {
        listed(before, names.drop_last()) + before + names.last()@ + ", "@
    }
}

fn push_listed(text: &mut String, before: &str, names: &Vec<String>)
    ensures
        final(text)@ == old(text)@ + listed(before@, names@),
{
    let n: usize = names.len();
    let ghost start = text@;
    assert(names@.take(0) =~= Seq::empty());
    assert(text@ =~= start + listed(before@, names@.take(0)));
    for i in 0..n
        invariant
            n == names@.len(),
            text@ == start + listed(before@, names@.take(i as int)),
    {
        assert(names@.take(i + 1).drop_last() =~= names@.take(i as int));
        text.append(before);
        text.append(names[i].as_str());
        text.append(", ");
        assert(text@ =~= start + listed(before@, names@.take(i + 1)));
    }
    assert(names@.take(n as int) =~= names@);
}

/// The import of all that a module offers.
pub open spec fn public_import(module: ModuleInterface) -> Seq<char> {
    "import "@ + module.name@ + ".{"@ + listed("type "@, module.public_type_names@) + listed(
        ""@,
        module.public_value_names@,
    ) + "}"@
}

/// The import of all the types and values that a module offers.
pub fn import_public_types_and_values(module: &ModuleInterface) -> (res: String)
    ensures
        res@ == public_import(*module),
{
    let mut import = String::new();
    import.append("import ");
    import.append(module.name.as_str());
    import.append(".{");
    push_listed(&mut import, "type ", &module.public_type_names);
    push_listed(&mut import, "", &module.public_value_names);
    import.append("}");
    assert(import@ =~= public_import(*module));
    import
}

proof fn lemma_listed(before: Seq<char>, names: Seq<String>)
    ensures
        listed(before, names) == names.map_values(
            |name: String| before + name@ + seq![',', ' '],
        ).flatten(),
    decreases names.len(),
{
    reveal_strlit(", ");
    let written = |name: String| before + name@ + seq![',', ' '];
    let parts = names.map_values(written);
    assert(", "@ =~= seq![',', ' ']);
    if names.len() > 0 {
        lemma_listed(before, names.drop_last());
        assert(parts.drop_last() =~= names.drop_last().map_values(written));
        assert(parts =~= parts.drop_last().push(parts.last()));
        parts.drop_last().lemma_flatten_push(parts.last());
        assert(listed(before, names) =~= parts.flatten());
    } else {
        assert(parts =~= Seq::empty());
    }
}

/// The import of a module names the module, then every type that it offers, marked as a
/// type, and then every value, in order, and nothing else.
pub proof fn law_import_names_everything(module: ModuleInterface)
    ensures
        public_import(module) == "import "@ + module.name@ + ".{"@
            + module.public_type_names@.map_values(
            |name: String| "type "@ + name@ + seq![',', ' '],
        ).flatten() + module.public_value_names@.map_values(
            |name: String| name@ + seq![',', ' '],
        ).flatten() + "}"@,
{
    reveal_strlit("");
    lemma_listed("type "@, module.public_type_names@);
    lemma_listed(""@, module.public_value_names@);
    let marked = |name: String| ""@ + name@ + seq![',', ' '];
    let plain = |name: String| name@ + seq![',', ' '];
    assert forall|name: String| #[trigger] marked(name) == plain(name) by {
        assert(""@ + name@ =~= name@);
    }
    assert(module.public_value_names@.map_values(marked)
        =~= module.public_value_names@.map_values(plain));
}

/// Putting a module in front loses none and adds none.
pub proof fn law_module_first_keeps_all(modules: Seq<Module>, pos: int)
    requires
        0 <= pos < modules.len(),
    ensures
        module_first(modules, pos).len() == modules.len(),
        module_first(modules, pos)[0] == modules[pos],
        forall|k: int|
            0 <= k < modules.len() ==> module_first(modules, pos).contains(#[trigger] modules[k]),
        forall|k: int|
            0 <= k < modules.len() ==> modules.contains(#[trigger] module_first(modules, pos)[k]),
{
    let res = module_first(modules, pos);
    let last = modules.len() - 1;
    assert forall|k: int| 0 <= k < modules.len() implies res.contains(#[trigger] modules[k]) by {
        if k == pos {
            assert(res[0] == modules[k]);
        } else if k == last {
            assert(res[pos + 1] == modules[k]);
        } else {
            assert(res[k + 1] == modules[k]);
        }
    }
    assert forall|k: int| 0 <= k < modules.len() implies modules.contains(#[trigger] res[k]) by {
        if k == 0 {
            assert(res[k] == modules[pos]);
        } else if k == pos + 1 {
            assert(res[k] == modules[last]);
        } else {
            assert(res[k] == modules[k - 1]);
        }
    }
}

} // verus!
