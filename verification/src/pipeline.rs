//! The code assembler: the declarations of one source file, turned into the
//! modules of the application.

use crate::name_map::{
    lemma_key_index, lemma_key_index_same_keys, lookup, with_entry, without_entry, Entries,
};
use crate::paser::{
    lemma_member_insert, lemma_struct_view, member_views, struct_views, walk, ExtractModel, State,
    StructInfo, StructMember, StructModel, Target,
};
use crate::syntax::{Malformed, SyntaxTree, TreeModel};
use crate::text::{opt_str_eq, views};
use crate::view::{
    component_code, empty_component_text, initial_build, is_view, template_text, ErrorModel,
    GenerateError, GenerateErrorModel, ViewParseError, ViewParser,
};
use vstd::prelude::*;

verus! {

/// The module of one view: the declaration's name and the module text.
#[derive(Debug)]
pub struct Module {
    pub name: String,
    pub code: String,
}

/// A view that could not be generated: the declaration's name and the reason.
#[derive(Debug)]
pub struct Failure {
    pub name: String,
    pub error: ViewParseError,
}

/// The root of the application: the names of the views to import and the
/// markup of the root.
#[derive(Debug)]
pub struct AppRoot {
    pub imports: Vec<String>,
    pub template: String,
}

/// What the declarations of one source file give.
#[derive(Debug)]
pub struct Generated {
    /// One module per view, in source order; a view that could not be
    /// generated has the stand-in component.
    pub modules: Vec<Module>,
    /// The names of the views, in source order.
    pub view_imports: Vec<String>,
    /// The views that could not be generated.
    pub errors: Vec<Failure>,
    /// The root that the last root provider gave.
    pub app: Option<AppRoot>,
}

/// What is generated, as the contracts see it.
pub struct GeneratedModel {
    pub modules: Seq<(Seq<char>, Seq<char>)>,
    pub view_imports: Seq<Seq<char>>,
    pub errors: Seq<(Seq<char>, ErrorModel)>,
    pub app: Option<(Seq<Seq<char>>, Seq<char>)>,
}

impl View for Generated {
    type V = GeneratedModel;

    open spec fn view(&self) -> GeneratedModel {
        GeneratedModel {
            modules: self.modules@.map_values(|m: Module| (m.name@, m.code@)),
            view_imports: views(self.view_imports@),
            errors: self.errors@.map_values(|f: Failure| (f.name@, f.error@)),
            app: match self.app {
                Some(a) => Some((views(a.imports@), a.template@)),
                None => None,
            },
        }
    }
}

/// Nothing generated yet.
pub open spec fn nothing_generated() -> GeneratedModel {
    GeneratedModel {
        modules: Seq::empty(),
        view_imports: Seq::empty(),
        errors: Seq::empty(),
        app: None,
    }
}

/// A root provider read as a view: its member `previews` becomes the view's
/// `body`. None where it has no such member.
pub open spec fn as_view(info: StructModel) -> Option<StructModel> {
    match lookup(info.members, "previews"@) {
        None => None,
        Some(m) => Some(
            StructModel {
                inheritance: Some("View"@),
                members: with_entry(without_entry(info.members, "previews"@), "body"@, m),
                ..info
            },
        ),
    }
}

/// What is generated once the declaration `info` is added to `acc`. A view
/// gives its module, or the stand-in component and a failure where it holds a
/// construct that is not supported; a root provider gives the application's
/// root, which imports the views met so far and the built-in views; any other
/// declaration gives nothing.
pub open spec fn generated_with(
    t: TreeModel,
    info: StructModel,
    runtime: Seq<Seq<char>>,
    builtin: Seq<Seq<char>>,
    acc: GeneratedModel,
) -> Result<GeneratedModel, Malformed> {
    if is_view(info) {
        match component_code(t, info, initial_build(), runtime, builtin) {
            Ok((_, code)) => Ok(
                GeneratedModel {
                    modules: acc.modules.push((info.name, code)),
                    view_imports: acc.view_imports.push(info.name),
                    ..acc
                },
            ),
            Err(GenerateErrorModel::Unsupported(e)) => Ok(
                GeneratedModel {
                    modules: acc.modules.push((info.name, empty_component_text())),
                    view_imports: acc.view_imports.push(info.name),
                    errors: acc.errors.push((info.name, e)),
                    ..acc
                },
            ),
            Err(GenerateErrorModel::Malformed) => Err(Malformed),
        }
    } else if info.inheritance == Some("PreviewProvider"@) {
        match as_view(info) {
            None => Err(Malformed),
            Some(root) => match template_text(t, root, initial_build()) {
                Err(e) => Err(e),
                Ok((_, markup)) => Ok(
                    GeneratedModel { app: Some((acc.view_imports + builtin, markup)), ..acc },
                ),
            },
        }
    } else {
        Ok(acc)
    }
}

/// What is generated once the declarations from the `i`-th on are added to
/// `acc`, in order.
pub open spec fn generated_from(
    t: TreeModel,
    infos: Seq<StructModel>,
    i: int,
    runtime: Seq<Seq<char>>,
    builtin: Seq<Seq<char>>,
    acc: GeneratedModel,
) -> Result<GeneratedModel, Malformed>
    decreases infos.len() - i,
{
    if i < 0 || i >= infos.len() {
        Ok(acc)
    } else {
        match generated_with(t, infos[i], runtime, builtin, acc) {
            Err(e) => Err(e),
            Ok(next) => generated_from(t, infos, i + 1, runtime, builtin, next),
        }
    }
}

/// What the declarations `infos` give.
pub open spec fn generated(
    t: TreeModel,
    infos: Seq<StructModel>,
    runtime: Seq<Seq<char>>,
    builtin: Seq<Seq<char>>,
) -> Result<GeneratedModel, Malformed> {
    generated_from(t, infos, 0, runtime, builtin, nothing_generated())
}

/// What the source file whose syntax tree has the root `root` gives: what its
/// declarations give.
pub open spec fn transpiled(
    t: TreeModel,
    root: int,
    runtime: Seq<Seq<char>>,
    builtin: Seq<Seq<char>>,
) -> Result<GeneratedModel, Malformed> {
    match walk(t, root, ExtractModel { depth: 0, structs: Seq::empty(), current: Target::Idle }) {
        Err(e) => Err(e),
        Ok(found) => generated(t, found.structs, runtime, builtin),
    }
}

/// Generating twice from the same tree, the same declarations and the same
/// names gives the same modules, character for character.
pub proof fn lemma_generation_repeats(
    t: TreeModel,
    infos: Seq<StructModel>,
    runtime: Seq<Seq<char>>,
    builtin: Seq<Seq<char>>,
    first: Result<GeneratedModel, Malformed>,
    second: Result<GeneratedModel, Malformed>,
)
    requires
        first == generated(t, infos, runtime, builtin),
        second == generated(t, infos, runtime, builtin),
    ensures
        first == second,
{
}

/// Taking a member out and then viewing the members is viewing them and then
/// taking the member out.
pub proof fn lemma_member_remove(entries: Entries<StructMember>, key: Seq<char>)
    ensures
        member_views(without_entry(entries, key)) == without_entry(member_views(entries), key),
{
    lemma_key_index_same_keys(entries, member_views(entries), key, 0);
    lemma_key_index(entries, key, 0);
    assert(member_views(without_entry(entries, key)) =~= without_entry(
        member_views(entries),
        key,
    ));
}

fn copy_names(names: &Vec<String>) -> (r: Vec<String>)
    ensures
        views(r@) == views(names@),
{
    let mut out: Vec<String> = Vec::new();
    let mut i: usize = 0;
    while i < names.len()
        invariant
            i <= names.len(),
            views(out@) == views(names@).take(i as int),
        decreases names.len() - i,
    {
        let ghost before = views(out@);
        out.push(names[i].clone());
        proof {
            assert(views(out@) =~= before.push(names@[i as int]@));
            assert(views(out@) =~= views(names@).take(i as int + 1));
        }
        i = i + 1;
    }
    proof {
        assert(views(names@).take(names@.len() as int) =~= views(names@));
    }
    out
}

fn add_declaration(
    tree: &SyntaxTree,
    st: StructInfo,
    runtime: &Vec<String>,
    builtin: &Vec<String>,
    acc: Generated,
) -> (r: Result<Generated, Malformed>)
    requires
        tree.wf(),
    ensures
        match r {
            Ok(g) => generated_with(tree@, st@, views(runtime@), views(builtin@), acc@) == Ok::<
                GeneratedModel,
                Malformed,
            >(g@),
            Err(e) => generated_with(tree@, st@, views(runtime@), views(builtin@), acc@) is Err,
        },
{
    let mut acc = acc;
    let ghost given = acc@;
    proof {
        lemma_struct_view(st);
    }
    let name = st.name.clone();
    if opt_str_eq(&st.inheritance, "View") {
        let mut view = ViewParser::from_struct(st, tree);
        match view.generate_component_code(copy_names(runtime), copy_names(builtin)) {
            Ok(code) => {
                acc.view_imports.push(name.clone());
                acc.modules.push(Module { name, code });
                proof {
                    assert(acc@.modules =~= given.modules.push((name@, code@)));
                    assert(acc@.view_imports =~= given.view_imports.push(name@));
                    assert(acc@.errors =~= given.errors);
                }
                Ok(acc)
            },
            Err(GenerateError::Unsupported(error)) => {
                let code = view.generate_empty_component();
                acc.view_imports.push(name.clone());
                acc.modules.push(Module { name: name.clone(), code });
                acc.errors.push(Failure { name, error });
                proof {
                    assert(acc@.modules =~= given.modules.push((name@, code@)));
                    assert(acc@.view_imports =~= given.view_imports.push(name@));
                    assert(acc@.errors =~= given.errors.push((name@, error@)));
                }
                Ok(acc)
            },
            Err(GenerateError::Malformed) => Err(Malformed),
        }
    } else if opt_str_eq(&st.inheritance, "PreviewProvider") {
        let mut root = st;
        let ghost before = root;
        proof {
            lemma_member_remove(before.members@, "previews"@);
            lemma_key_index_same_keys(before.members@, member_views(before.members@), "previews"@, 0);
        }
        let previews = match root.members.remove("previews") {
            Some(p) => p,
            None => {
                return Err(Malformed);
            },
        };
        proof {
            lemma_member_insert(root.members@, "body"@, previews);
        }
        root.members.insert("body".to_owned(), previews);
        root.inheritance = Some("View".to_owned());
        proof {
            lemma_struct_view(root);
            assert(root@ == as_view(before@)->0);
        }
        let mut view = ViewParser::from_struct(root, tree);
        let template = view.generate_template()?;
        let mut imports = copy_names(&acc.view_imports);
        let ghost own = views(imports@);
        let mut k: usize = 0;
        while k < builtin.len()
            invariant
                k <= builtin.len(),
                views(imports@) == own + views(builtin@).take(k as int),
            decreases builtin.len() - k,
        {
            let ghost sofar = views(imports@);
            imports.push(builtin[k].clone());
            proof {
                assert(views(imports@) =~= sofar.push(builtin@[k as int]@));
                assert(views(builtin@).take(k as int + 1) =~= views(builtin@).take(
                    k as int,
                ).push(builtin@[k as int]@));
                assert(views(imports@) =~= own + views(builtin@).take(k as int + 1));
            }
            k = k + 1;
        }
        proof {
            assert(views(builtin@).take(builtin@.len() as int) =~= views(builtin@));
        }
        acc.app = Some(AppRoot { imports, template });
        proof {
            assert(acc@.modules =~= given.modules);
            assert(acc@.errors =~= given.errors);
        }
        Ok(acc)
    } else {
        Ok(acc)
    }
}

/// Generates the modules for the declarations `structs`, in order: the
/// components import and export the names of `runtime_imports` and use the
/// views of `builtin_view_imports` as their child components.
///
/// Fails where the syntax tree lacks a node that a declaration calls for, or
/// a root provider has no member `previews`.
pub fn generate_modules(
    tree: &SyntaxTree,
    structs: Vec<StructInfo>,
    runtime_imports: &Vec<String>,
    builtin_view_imports: &Vec<String>,
) -> (r: Result<Generated, Malformed>)
    requires
        tree.wf(),
    ensures
        match r {
            Ok(g) => generated(
                tree@,
                struct_views(structs@),
                views(runtime_imports@),
                views(builtin_view_imports@),
            ) == Ok::<GeneratedModel, Malformed>(g@),
            Err(e) => generated(
                tree@,
                struct_views(structs@),
                views(runtime_imports@),
                views(builtin_view_imports@),
            ) is Err,
        },
{
    let ghost infos = struct_views(structs@);
    let ghost total = structs@.len();
    let mut rest = structs;
    let mut acc = Generated {
        modules: Vec::new(),
        view_imports: Vec::new(),
        errors: Vec::new(),
        app: None,
    };
    proof {
        assert(acc@.modules =~= Seq::empty());
        assert(acc@.view_imports =~= Seq::empty());
        assert(acc@.errors =~= Seq::empty());
    }
    let ghost goal = generated(
        tree@,
        infos,
        views(runtime_imports@),
        views(builtin_view_imports@),
    );
    let ghost mut i: int = 0;
    while rest.len() > 0
        invariant
            tree.wf(),
            0 <= i <= total,
            infos.len() == total,
            rest@.len() == total - i,
            infos == struct_views(structs@),
            goal == generated(
                tree@,
                infos,
                views(runtime_imports@),
                views(builtin_view_imports@),
            ),
            struct_views(rest@) == infos.subrange(i, total as int),
            goal == generated_from(
                tree@,
                infos,
                i,
                views(runtime_imports@),
                views(builtin_view_imports@),
                acc@,
            ),
        decreases rest.len(),
    {
        let ghost before = rest@;
        let st = rest.remove(0);
        proof {
            assert(rest@ == before.remove(0));
            assert(struct_views(before)[0] == infos[i]);
            assert forall|k: int| 0 <= k < rest@.len() implies struct_views(rest@)[k] == infos[i
                + 1 + k] by {
                assert(rest@[k] == before[k + 1]);
                assert(struct_views(before)[k + 1] == infos[i + 1 + k]);
            }
            assert(struct_views(rest@) =~= infos.subrange(i + 1, total as int));
        }
        acc = add_declaration(tree, st, runtime_imports, builtin_view_imports, acc)?;
        proof {
            i = i + 1;
        }
    }
    Ok(acc)
}

/// Reads the declarations of the source file whose syntax tree has the root
/// `root`, and generates their modules.
pub fn transpile(
    tree: &SyntaxTree,
    root: usize,
    runtime_imports: &Vec<String>,
    builtin_view_imports: &Vec<String>,
) -> (r: Result<Generated, Malformed>)
    requires
        tree.wf(),
    ensures
        match r {
            Ok(g) => transpiled(
                tree@,
                root as int,
                views(runtime_imports@),
                views(builtin_view_imports@),
            ) == Ok::<GeneratedModel, Malformed>(g@),
            Err(e) => transpiled(
                tree@,
                root as int,
                views(runtime_imports@),
                views(builtin_view_imports@),
            ) is Err,
        },
{
    let mut state = State::new(false);
    state.handle_source(tree, root)?;
    proof {
        state.lemma_structs();
    }
    generate_modules(tree, state.into_structs(), runtime_imports, builtin_view_imports)
}

} // verus!
