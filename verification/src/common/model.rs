//! Model declarations, rewritten as factory functions.

use crate::syntax::{child_at, child_count_of, next_sibling_of, Malformed, SyntaxTree, TreeModel};
use crate::text::{join_ended, join_strs_ended, views};
use crate::utils::{find_first_node, first_node_of_kind};
use vstd::prelude::*;

verus! {

/// One declared property: its name and the text of its initializer.
#[derive(Debug)]
pub struct Var {
    pub name: String,
    pub default: Option<String>,
}

/// A property as the contracts see it.
pub struct VarModel {
    pub name: Seq<char>,
    pub default: Option<Seq<char>>,
}

impl View for Var {
    type V = VarModel;

    open spec fn view(&self) -> VarModel {
        VarModel {
            name: self.name@,
            default: match self.default {
                Some(d) => Some(d@),
                None => None,
            },
        }
    }
}

/// The properties of a vector as the contracts see them.
pub open spec fn var_views(v: Seq<Var>) -> Seq<VarModel> {
    v.map_values(|a: Var| a@)
}

/// What a walk over a model declaration has gathered: the declared name and
/// the properties in source order.
pub struct ModelParts {
    pub name: Seq<char>,
    pub vars: Seq<VarModel>,
}

/// The property that the `property_declaration` node `id` declares.
pub open spec fn declared_var(t: TreeModel, id: int) -> Result<VarModel, Malformed> {
    match first_node_of_kind(t, id, "pattern"@) {
        None => Err(Malformed),
        Some(name) => match first_node_of_kind(t, id, "="@) {
            None => Ok(VarModel { name: t[name].text, default: None }),
            Some(eq) => match next_sibling_of(t, eq) {
                None => Err(Malformed),
                Some(value) => Ok(VarModel { name: t[name].text, default: Some(t[value].text) }),
            },
        },
    }
}

/// What the walk gathers at node `id` and below, added to `st`. The name is
/// the first type identifier met; a property declaration yields one property
/// and is not entered.
pub open spec fn collect_model(t: TreeModel, id: int, st: ModelParts) -> Result<
    ModelParts,
    Malformed,
>
    decreases t.len() - id, child_count_of(t, id) + 1,
{
    if !(0 <= id < t.len()) {
        Err(Malformed)
    } else if t[id].kind == "property_declaration"@ {
        match declared_var(t, id) {
            Err(e) => Err(e),
            Ok(v) => Ok(ModelParts { name: st.name, vars: st.vars.push(v) }),
        }
    } else if t[id].kind == "type_identifier"@ && st.name.len() == 0 {
        collect_model_from(t, id, 0, ModelParts { name: t[id].text, vars: st.vars })
    } else {
        collect_model_from(t, id, 0, st)
    }
}

/// What the walk gathers under the children of `id` from the `j`-th on.
pub open spec fn collect_model_from(t: TreeModel, id: int, j: int, st: ModelParts) -> Result<
    ModelParts,
    Malformed,
>
    decreases t.len() - id, child_count_of(t, id) - j,
{
    match child_at(t, id, j) {
        None => Ok(st),
        Some(c) => match collect_model(t, c, st) {
            Err(e) => Err(e),
            Ok(next) => collect_model_from(t, id, j + 1, next),
        },
    }
}

/// The value that a property takes where the caller gives none: its
/// initializer, or `false` where it has none.
pub open spec fn default_text(v: VarModel) -> Seq<char> {
    match v.default {
        Some(d) => d,
        None => "false"@,
    }
}

/// The line of the returned object that sets one property.
pub open spec fn field_text(v: VarModel) -> Seq<char> {
    "        "@ + v.name + ": "@ + v.name + " ?? "@ + default_text(v)
}

/// The names of the properties, in order.
pub open spec fn var_names(vars: Seq<VarModel>) -> Seq<Seq<char>> {
    vars.map_values(|v: VarModel| v.name)
}

/// The lines that set the properties, in order.
pub open spec fn field_texts(vars: Seq<VarModel>) -> Seq<Seq<char>> {
    vars.map_values(|v: VarModel| field_text(v))
}

/// The factory function: it takes one optional argument object, reads every
/// property from it, and returns an object in which each property is the
/// value given or else its default.
pub open spec fn render_model(parts: ModelParts) -> Seq<char> {
    "function "@ + parts.name + "(arg) {\n"@ + "    const { "@ + join_ended(
        var_names(parts.vars),
        ", "@,
    ) + "} = arg ?? {};\n"@ + "    return {\n"@ + join_ended(field_texts(parts.vars), ",\n"@)
        + "    };\n"@ + "}\n"@
}

/// The factory function for the model declaration at node `id`.
pub open spec fn model_factory(t: TreeModel, id: int) -> Result<Seq<char>, Malformed> {
    if 0 <= id < t.len() && t[id].kind == "class_declaration"@ {
        match collect_model(t, id, ModelParts { name: Seq::empty(), vars: Seq::empty() }) {
            Err(e) => Err(e),
            Ok(parts) => Ok(render_model(parts)),
        }
    } else {
        Err(Malformed)
    }
}

/// The name and the properties gathered so far.
struct State {
    name: String,
    vars: Vec<Var>,
}

impl View for State {
    type V = ModelParts;

    closed spec fn view(&self) -> ModelParts {
        ModelParts { name: self.name@, vars: var_views(self.vars@) }
    }
}

fn declared(tree: &SyntaxTree, node: usize) -> (r: Result<Var, Malformed>)
    requires
        tree.wf(),
    ensures
        match r {
            Ok(v) => declared_var(tree@, node as int) == Ok::<VarModel, Malformed>(v@),
            Err(e) => declared_var(tree@, node as int) is Err,
        },
{
    let name = match find_first_node(tree, node, "pattern") {
        Some(n) => n,
        None => {
            return Err(Malformed);
        },
    };
    match find_first_node(tree, node, "=") {
        None => Ok(Var { name: tree.text(name).to_owned(), default: None }),
        Some(eq) => match tree.next_sibling(eq) {
            None => Err(Malformed),
            Some(value) => Ok(
                Var { name: tree.text(name).to_owned(), default: Some(tree.text(value).to_owned()) },
            ),
        },
    }
}

impl State {
    fn collect(self, tree: &SyntaxTree, node: usize) -> (r: Result<State, Malformed>)
        requires
            tree.wf(),
        ensures
            match r {
                Ok(st) => collect_model(tree@, node as int, self@) == Ok::<ModelParts, Malformed>(
                    st@,
                ),
                Err(e) => collect_model(tree@, node as int, self@) is Err,
            },
        decreases tree@.len() - node, child_count_of(tree@, node as int) + 1,
    {
        if node >= tree.len() {
            return Err(Malformed);
        }
        let mut st = self;
        if tree.is_kind(node, "property_declaration") {
            let var = declared(tree, node)?;
            let ghost before = st@;
            st.vars.push(var);
            proof {
                assert(st@.vars =~= before.vars.push(var@));
            }
            return Ok(st);
        }
        if tree.is_kind(node, "type_identifier") && st.name.as_str().unicode_len() == 0 {
            st.name = tree.text(node).to_owned();
        }
        let ghost goal = collect_model(tree@, node as int, self@);
        let n = tree.child_count(node);
        let mut j: usize = 0;
        while j < n
            invariant
                tree.wf(),
                j <= n,
                node < tree@.len(),
                n == tree@[node as int].children.len(),
                goal == collect_model(tree@, node as int, self@),
                goal == collect_model_from(tree@, node as int, j as int, st@),
            decreases n - j,
        {
            match tree.child(node, j) {
                None => {
                    return Ok(st);
                },
                Some(c) => {
                    st = st.collect(tree, c)?;
                },
            }
            j = j + 1;
        }
        Ok(st)
    }

    fn generate(&self) -> (r: String)
        ensures
            r@ == render_model(self@),
    {
        let mut names: Vec<String> = Vec::new();
        let mut fields: Vec<String> = Vec::new();
        let mut i: usize = 0;
        while i < self.vars.len()
            invariant
                i <= self.vars.len(),
                views(names@) == var_names(var_views(self.vars@).take(i as int)),
                views(fields@) == field_texts(var_views(self.vars@).take(i as int)),
            decreases self.vars.len() - i,
        {
            let ghost names_before = views(names@);
            let ghost fields_before = views(fields@);
            let var = &self.vars[i];
            names.push(var.name.clone());
            let mut field = String::new();
            field.append("        ");
            field.append(var.name.as_str());
            field.append(": ");
            field.append(var.name.as_str());
            field.append(" ?? ");
            match &var.default {
                Some(d) => {
                    field.append(d.as_str());
                },
                None => {
                    field.append("false");
                },
            }
            fields.push(field);
            proof {
                assert(views(names@) =~= names_before.push(var@.name));
                assert(views(fields@) =~= fields_before.push(field_text(var@)));
                assert(views(names@) =~= var_names(var_views(self.vars@).take(i as int + 1)));
                assert(views(fields@) =~= field_texts(var_views(self.vars@).take(i as int + 1)));
            }
            i = i + 1;
        }
        proof {
            assert(var_views(self.vars@).take(self.vars@.len() as int) =~= var_views(self.vars@));
        }
        let mut out = String::new();
        out.append("function ");
        out.append(self.name.as_str());
        out.append("(arg) {\n");
        out.append("    const { ");
        out.append(join_strs_ended(&names, ", ").as_str());
        out.append("} = arg ?? {};\n");
        out.append("    return {\n");
        out.append(join_strs_ended(&fields, ",\n").as_str());
        out.append("    };\n");
        out.append("}\n");
        out
    }
}

/// Writes the factory function for the model declaration at `node`.
///
/// Fails where `node` is no `class_declaration`, a property has no `pattern`
/// below it, or nothing follows an `=`.
pub fn date_model2js_fn(tree: &SyntaxTree, node: usize) -> (r: Result<String, Malformed>)
    requires
        tree.wf(),
    ensures
        match r {
            Ok(s) => model_factory(tree@, node as int) == Ok::<Seq<char>, Malformed>(s@),
            Err(e) => model_factory(tree@, node as int) is Err,
        },
{
    if !tree.is_kind(node, "class_declaration") {
        return Err(Malformed);
    }
    let state = State { name: String::new(), vars: Vec::new() };
    proof {
        assert(state@.vars =~= Seq::<VarModel>::empty());
    }
    let state = state.collect(tree, node)?;
    Ok(state.generate())
}

} // verus!
