//! The structure extractor: one walk over the syntax tree that lists the
//! declared types with their members and their nested declarations.

use crate::name_map::{lemma_key_index_same_keys, lookup, with_entry, Entries, NameMap};
use crate::syntax::{
    child_at, child_count_of, prev_sibling_of, Malformed, SyntaxTree, TreeModel,
};
use crate::text::views;
use crate::utils::{find_first_node, first_node_of_kind};
use vstd::prelude::*;

verus! {

/// A member of a declared type.
#[derive(Debug)]
pub enum StructMember {
    /// A function, with the node that holds the statements of its body.
    Function(usize),
    /// A property, with the node of its initializer and the name of its
    /// attribute, if it has one.
    Property { node: usize, modifier: Option<String> },
}

/// A member as the contracts see it.
pub enum MemberModel {
    Function(int),
    Property { node: int, modifier: Option<Seq<char>> },
}

/// The characters of an optional string.
pub open spec fn opt_view(s: Option<String>) -> Option<Seq<char>> {
    match s {
        Some(x) => Some(x@),
        None => None,
    }
}

impl View for StructMember {
    type V = MemberModel;

    open spec fn view(&self) -> MemberModel {
        match self {
            StructMember::Function(node) => MemberModel::Function(*node as int),
            StructMember::Property { node, modifier } => MemberModel::Property {
                node: *node as int,
                modifier: opt_view(*modifier),
            },
        }
    }
}

/// The members of a map as the contracts see them.
pub open spec fn member_views(entries: Entries<StructMember>) -> Entries<MemberModel> {
    entries.map_values(|e: (Seq<char>, StructMember)| (e.0, e.1@))
}

/// Looking a name up among the members' views finds the view of the member
/// found for it.
pub proof fn lemma_member_lookup(entries: Entries<StructMember>, key: Seq<char>)
    ensures
        lookup(member_views(entries), key) == match lookup(entries, key) {
            Some(m) => Some(m@),
            None => None,
        },
{
    lemma_key_index_same_keys(entries, member_views(entries), key, 0);
}

/// One declared type.
#[derive(Debug)]
pub struct StructInfo {
    /// The declared name; empty until the walk has met it.
    pub name: String,
    /// The source text of the whole declaration.
    pub source: String,
    /// The node of the declaration.
    pub node: usize,
    /// The members, by name.
    pub members: NameMap<StructMember>,
    /// The supertype, if one is named.
    pub inheritance: Option<String>,
    /// The declarations nested in this one.
    pub sub: Vec<StructInfo>,
}

/// A declared type as the contracts see it.
pub struct StructModel {
    pub name: Seq<char>,
    pub source: Seq<char>,
    pub node: int,
    pub members: Entries<MemberModel>,
    pub inheritance: Option<Seq<char>>,
    pub sub: Seq<StructModel>,
}

/// A declaration of which only the node and its text are known.
pub open spec fn fresh_struct(t: TreeModel, id: int) -> StructModel {
    StructModel {
        name: Seq::empty(),
        source: t[id].text,
        node: id,
        members: Seq::empty(),
        inheritance: None,
        sub: Seq::empty(),
    }
}

/// The declaration as the contracts see it.
pub open spec fn struct_view(s: StructInfo) -> StructModel
    decreases s,
{
    StructModel {
        name: s.name@,
        source: s.source@,
        node: s.node as int,
        members: member_views(s.members@),
        inheritance: opt_view(s.inheritance),
        sub: Seq::new(
            s.sub@.len(),
            |i: int|
                if 0 <= i < s.sub@.len() {
                    struct_view(s.sub[i])
                } else {
                    fresh_struct(Seq::empty(), 0)
                },
        ),
    }
}

impl View for StructInfo {
    type V = StructModel;

    open spec fn view(&self) -> StructModel {
        struct_view(*self)
    }
}

/// The view of a declaration, field by field.
pub proof fn lemma_struct_view(s: StructInfo)
    ensures
        s@.name == s.name@,
        s@.source == s.source@,
        s@.node == s.node,
        s@.members == member_views(s.members@),
        s@.inheritance == opt_view(s.inheritance),
        s@.sub == struct_views(s.sub@),
{
    assert(s@.sub =~= struct_views(s.sub@));
}

/// The declarations of a vector as the contracts see them.
pub open spec fn struct_views(v: Seq<StructInfo>) -> Seq<StructModel> {
    v.map_values(|s: StructInfo| s@)
}

/// The names of the declarations, in order.
pub open spec fn struct_names(v: Seq<StructModel>) -> Seq<Seq<char>> {
    v.map_values(|s: StructModel| s.name)
}

impl StructInfo {
    /// The names of the nested declarations, in order.
    pub fn sub_names(&self) -> (r: Vec<String>)
        ensures
            views(r@) == struct_names(self@.sub),
    {
        let mut out: Vec<String> = Vec::new();
        let mut i: usize = 0;
        while i < self.sub.len()
            invariant
                i <= self.sub.len(),
                views(out@) == struct_names(self@.sub.take(i as int)),
            decreases self.sub.len() - i,
        {
            let ghost before = views(out@);
            out.push(self.sub[i].name.clone());
            proof {
                lemma_struct_view(*self);
                assert(self@.sub.take(i as int + 1) =~= self@.sub.take(i as int).push(
                    self@.sub[i as int],
                ));
                assert(views(out@) =~= before.push(self.sub[i as int]@.name));
                assert(views(out@) =~= struct_names(self@.sub.take(i as int + 1)));
            }
            i = i + 1;
        }
        proof {
            lemma_struct_view(*self);
            assert(self@.sub.take(self.sub@.len() as int) =~= self@.sub);
        }
        out
    }
}

/// What the scan of a property declaration has found so far.
pub struct PropertyScan {
    pub name: Seq<char>,
    pub value: Option<int>,
    pub modifier: Option<Seq<char>>,
}

/// What the child `c` of a property declaration adds to the scan: a pattern
/// gives the name, a computed property whose first statement is a call gives
/// that call as the value, the node after `=` is the value, and the first
/// attribute gives the modifier.
pub open spec fn scan_property_child(t: TreeModel, c: int, st: PropertyScan) -> Result<
    PropertyScan,
    Malformed,
> {
    if t[c].kind == "pattern"@ {
        match child_at(t, c, 0) {
            None => Err(Malformed),
            Some(name) => if t[name].kind == "simple_identifier"@ {
                Ok(PropertyScan { name: t[name].text, ..st })
            } else {
                Ok(st)
            },
        }
    } else if t[c].kind == "computed_property"@ {
        match first_node_of_kind(t, c, "statements"@) {
            None => Ok(st),
            Some(statements) => match child_at(t, statements, 0) {
                None => Err(Malformed),
                Some(call) => if t[call].kind == "call_expression"@ {
                    Ok(PropertyScan { value: Some(call), ..st })
                } else {
                    Ok(st)
                },
            },
        }
    } else if (match prev_sibling_of(t, c) {
        Some(p) => t[p].kind == "="@,
        None => false,
    }) {
        Ok(PropertyScan { value: Some(c), ..st })
    } else if t[c].kind == "modifiers"@ {
        match child_at(t, c, 0) {
            None => Err(Malformed),
            Some(attribute) => if t[attribute].kind == "attribute"@ {
                match child_at(t, attribute, 1) {
                    None => Err(Malformed),
                    Some(m) => Ok(PropertyScan { modifier: Some(t[m].text), ..st }),
                }
            } else {
                Ok(st)
            },
        }
    } else {
        Ok(st)
    }
}

/// The scan of the children of the property declaration `id` from the `j`-th
/// on.
pub open spec fn scan_property_from(t: TreeModel, id: int, j: int, st: PropertyScan) -> Result<
    PropertyScan,
    Malformed,
>
    decreases child_count_of(t, id) - j,
{
    match child_at(t, id, j) {
        None => Ok(st),
        Some(c) => match scan_property_child(t, c, st) {
            Err(e) => Err(e),
            Ok(next) => scan_property_from(t, id, j + 1, next),
        },
    }
}

/// The member that the property declaration `id` declares: none where no
/// initializer of a known shape was found.
pub open spec fn property_member(t: TreeModel, id: int) -> Result<
    Option<(Seq<char>, MemberModel)>,
    Malformed,
> {
    property_found(
        scan_property_from(
            t,
            id,
            0,
            PropertyScan { name: Seq::empty(), value: None, modifier: None },
        ),
    )
}

/// The member that a finished scan of a property declaration stands for.
pub open spec fn property_found(scan: Result<PropertyScan, Malformed>) -> Result<
    Option<(Seq<char>, MemberModel)>,
    Malformed,
> {
    match scan {
        Err(e) => Err(e),
        Ok(scan) => match scan.value {
            Some(node) => Ok(
                Some((scan.name, MemberModel::Property { node, modifier: scan.modifier })),
            ),
            None => Ok(None),
        },
    }
}

/// What the scan of a function declaration has found so far.
pub struct FunctionScan {
    pub name: Seq<char>,
    pub body: Option<int>,
}

/// The scan of the children of the function declaration `id` from the `j`-th
/// on: an identifier gives the name, a body gives the node after its opening
/// brace.
pub open spec fn scan_function_from(t: TreeModel, id: int, j: int, st: FunctionScan) -> Result<
    FunctionScan,
    Malformed,
>
    decreases child_count_of(t, id) - j,
{
    match child_at(t, id, j) {
        None => Ok(st),
        Some(c) => if t[c].kind == "simple_identifier"@ {
            scan_function_from(t, id, j + 1, FunctionScan { name: t[c].text, ..st })
        } else if t[c].kind == "function_body"@ {
            match child_at(t, c, 1) {
                None => Err(Malformed),
                Some(body) => scan_function_from(
                    t,
                    id,
                    j + 1,
                    FunctionScan { body: Some(body), ..st },
                ),
            }
        } else {
            scan_function_from(t, id, j + 1, st)
        },
    }
}

/// The member that the function declaration `id` declares: none where it has
/// no body.
pub open spec fn function_member(t: TreeModel, id: int) -> Result<
    Option<(Seq<char>, MemberModel)>,
    Malformed,
> {
    function_found(scan_function_from(t, id, 0, FunctionScan { name: Seq::empty(), body: None }))
}

/// The member that a finished scan of a function declaration stands for.
pub open spec fn function_found(scan: Result<FunctionScan, Malformed>) -> Result<
    Option<(Seq<char>, MemberModel)>,
    Malformed,
> {
    match scan {
        Err(e) => Err(e),
        Ok(scan) => match scan.body {
            Some(node) => Ok(Some((scan.name, MemberModel::Function(node)))),
            None => Ok(None),
        },
    }
}

/// The declaration `s` with the member added, if there is one.
pub open spec fn with_member(s: StructModel, member: Option<(Seq<char>, MemberModel)>) -> StructModel {
    match member {
        Some((name, m)) => StructModel { members: with_entry(s.members, name, m), ..s },
        None => s,
    }
}

/// What node `id` adds to the declaration `s` that is being read, and whether
/// the walk goes on below the node. The first type identifier gives the name,
/// the first inheritance specifier the supertype, a property or a function
/// declaration a member; below any of these the walk does not go.
pub open spec fn visit_in_struct(t: TreeModel, id: int, s: StructModel) -> Result<
    (StructModel, bool),
    Malformed,
> {
    if s.name.len() == 0 && t[id].kind == "type_identifier"@ {
        Ok((StructModel { name: t[id].text, ..s }, false))
    } else if s.inheritance is None && t[id].kind == "inheritance_specifier"@ {
        Ok((StructModel { inheritance: Some(t[id].text), ..s }, false))
    } else if t[id].kind == "property_declaration"@ {
        match property_member(t, id) {
            Err(e) => Err(e),
            Ok(member) => Ok((with_member(s, member), false)),
        }
    } else if t[id].kind == "function_declaration"@ {
        match function_member(t, id) {
            Err(e) => Err(e),
            Ok(member) => Ok((with_member(s, member), false)),
        }
    } else {
        Ok((s, true))
    }
}

fn scan_property(tree: &SyntaxTree, node: usize) -> (r: Result<
    Option<(String, StructMember)>,
    Malformed,
>)
    requires
        tree.wf(),
        node < tree@.len(),
    ensures
        match r {
            Ok(Some((name, m))) => property_member(tree@, node as int) == Ok::<
                Option<(Seq<char>, MemberModel)>,
                Malformed,
            >(Some((name@, m@))),
            Ok(None) => property_member(tree@, node as int) == Ok::<
                Option<(Seq<char>, MemberModel)>,
                Malformed,
            >(None),
            Err(e) => property_member(tree@, node as int) is Err,
        },
{
    let mut name = String::new();
    let mut value: Option<usize> = None;
    let mut modifier: Option<String> = None;
    let ghost goal = scan_property_from(
        tree@,
        node as int,
        0,
        PropertyScan { name: Seq::empty(), value: None, modifier: None },
    );
    let n = tree.child_count(node);
    let mut j: usize = 0;
    while j < n
        invariant
            tree.wf(),
            j <= n,
            n == child_count_of(tree@, node as int),
            property_member(tree@, node as int) == property_found(goal),
            goal == scan_property_from(
                tree@,
                node as int,
                j as int,
                PropertyScan {
                    name: name@,
                    value: match value {
                        Some(v) => Some(v as int),
                        None => None,
                    },
                    modifier: opt_view(modifier),
                },
            ),
        decreases n - j,
    {
        let c = match tree.child(node, j) {
            Some(c) => c,
            None => {
                return Err(Malformed);
            },
        };
        if tree.is_kind(c, "pattern") {
            match tree.child(c, 0) {
                None => {
                    return Err(Malformed);
                },
                Some(id) => {
                    if tree.is_kind(id, "simple_identifier") {
                        name = tree.text(id).to_owned();
                    }
                },
            }
        } else if tree.is_kind(c, "computed_property") {
            match find_first_node(tree, c, "statements") {
                None => {},
                Some(statements) => match tree.child(statements, 0) {
                    None => {
                        return Err(Malformed);
                    },
                    Some(call) => {
                        if tree.is_kind(call, "call_expression") {
                            value = Some(call);
                        }
                    },
                },
            }
        } else if follows_equals(tree, c) {
            value = Some(c);
        } else if tree.is_kind(c, "modifiers") {
            match tree.child(c, 0) {
                None => {
                    return Err(Malformed);
                },
                Some(attribute) => {
                    if tree.is_kind(attribute, "attribute") {
                        match tree.child(attribute, 1) {
                            None => {
                                return Err(Malformed);
                            },
                            Some(m) => {
                                modifier = Some(tree.text(m).to_owned());
                            },
                        }
                    }
                },
            }
        }
        j = j + 1;
    }
    match value {
        Some(v) => Ok(Some((name, StructMember::Property { node: v, modifier }))),
        None => Ok(None),
    }
}

fn follows_equals(tree: &SyntaxTree, node: usize) -> (r: bool)
    requires
        tree.wf(),
    ensures
        r == (match prev_sibling_of(tree@, node as int) {
            Some(p) => tree@[p].kind == "="@,
            None => false,
        }),
{
    match tree.prev_sibling(node) {
        Some(p) => tree.is_kind(p, "="),
        None => false,
    }
}

fn scan_function(tree: &SyntaxTree, node: usize) -> (r: Result<
    Option<(String, StructMember)>,
    Malformed,
>)
    requires
        tree.wf(),
        node < tree@.len(),
    ensures
        match r {
            Ok(Some((name, m))) => function_member(tree@, node as int) == Ok::<
                Option<(Seq<char>, MemberModel)>,
                Malformed,
            >(Some((name@, m@))),
            Ok(None) => function_member(tree@, node as int) == Ok::<
                Option<(Seq<char>, MemberModel)>,
                Malformed,
            >(None),
            Err(e) => function_member(tree@, node as int) is Err,
        },
{
    let mut name = String::new();
    let mut body: Option<usize> = None;
    let ghost goal = scan_function_from(
        tree@,
        node as int,
        0,
        FunctionScan { name: Seq::empty(), body: None },
    );
    let n = tree.child_count(node);
    let mut j: usize = 0;
    while j < n
        invariant
            tree.wf(),
            j <= n,
            n == child_count_of(tree@, node as int),
            function_member(tree@, node as int) == function_found(goal),
            goal == scan_function_from(
                tree@,
                node as int,
                j as int,
                FunctionScan {
                    name: name@,
                    body: match body {
                        Some(v) => Some(v as int),
                        None => None,
                    },
                },
            ),
        decreases n - j,
    {
        let c = match tree.child(node, j) {
            Some(c) => c,
            None => {
                return Err(Malformed);
            },
        };
        if tree.is_kind(c, "simple_identifier") {
            name = tree.text(c).to_owned();
        } else if tree.is_kind(c, "function_body") {
            match tree.child(c, 1) {
                None => {
                    return Err(Malformed);
                },
                Some(b) => {
                    body = Some(b);
                },
            }
        }
        j = j + 1;
    }
    match body {
        Some(b) => Ok(Some((name, StructMember::Function(b)))),
        None => Ok(None),
    }
}

/// Setting a member and then viewing the members is viewing them and then
/// setting the member's view.
pub proof fn lemma_member_insert(entries: Entries<StructMember>, key: Seq<char>, m: StructMember)
    ensures
        member_views(with_entry(entries, key, m)) == with_entry(member_views(entries), key, m@),
{
    lemma_key_index_same_keys(entries, member_views(entries), key, 0);
    crate::name_map::lemma_key_index(entries, key, 0);
    assert(member_views(with_entry(entries, key, m)) =~= with_entry(
        member_views(entries),
        key,
        m@,
    ));
}

fn visit(tree: &SyntaxTree, node: usize, s: StructInfo) -> (r: Result<(StructInfo, bool), Malformed>)
    requires
        tree.wf(),
        node < tree@.len(),
    ensures
        match r {
            Ok((s2, go)) => visit_in_struct(tree@, node as int, s@) == Ok::<
                (StructModel, bool),
                Malformed,
            >((s2@, go)),
            Err(e) => visit_in_struct(tree@, node as int, s@) is Err,
        },
{
    let mut s = s;
    let ghost before = s;
    proof {
        lemma_struct_view(before);
    }
    if s.name.as_str().unicode_len() == 0 && tree.is_kind(node, "type_identifier") {
        s.name = tree.text(node).to_owned();
        proof {
            lemma_struct_view(s);
        }
        return Ok((s, false));
    }
    if s.inheritance.is_none() && tree.is_kind(node, "inheritance_specifier") {
        s.inheritance = Some(tree.text(node).to_owned());
        proof {
            lemma_struct_view(s);
        }
        return Ok((s, false));
    }
    if tree.is_kind(node, "property_declaration") {
        match scan_property(tree, node)? {
            Some((name, member)) => {
                proof {
                    lemma_member_insert(before.members@, name@, member);
                }
                s.members.insert(name, member);
                proof {
                    lemma_struct_view(s);
                }
            },
            None => {},
        }
        return Ok((s, false));
    }
    if tree.is_kind(node, "function_declaration") {
        match scan_function(tree, node)? {
            Some((name, member)) => {
                proof {
                    lemma_member_insert(before.members@, name@, member);
                }
                s.members.insert(name, member);
                proof {
                    lemma_struct_view(s);
                }
            },
            None => {},
        }
        return Ok((s, false));
    }
    Ok((s, true))
}

/// Which declaration the walk is reading.
#[derive(Debug, Clone, Copy, PartialEq, Eq, Structural)]
pub enum Target {
    /// None: the walk is outside every declaration.
    Idle,
    /// The last declaration of the list.
    Top,
    /// The last declaration nested in the last declaration of the list.
    Nested,
}

/// The state of the walk as the contracts see it.
pub struct ExtractModel {
    /// How many declarations the walk is inside of.
    pub depth: nat,
    /// The top-level declarations met so far, in source order.
    pub structs: Seq<StructModel>,
    /// The declaration that the walk is reading.
    pub current: Target,
}

/// The declaration that the walk is reading.
pub open spec fn current_struct(st: ExtractModel) -> Option<StructModel> {
    match st.current {
        Target::Idle => None,
        Target::Top => if st.structs.len() > 0 {
            Some(st.structs.last())
        } else {
            None
        },
        Target::Nested => if st.structs.len() > 0 && st.structs.last().sub.len() > 0 {
            Some(st.structs.last().sub.last())
        } else {
            None
        },
    }
}

/// The state in which `s` stands where the declaration being read stood.
pub open spec fn with_current(st: ExtractModel, s: StructModel) -> ExtractModel {
    let last = st.structs.len() - 1;
    match st.current {
        Target::Idle => st,
        Target::Top => ExtractModel { structs: st.structs.update(last, s), ..st },
        Target::Nested => {
            let top = st.structs.last();
            let top2 = StructModel { sub: top.sub.update(top.sub.len() - 1, s), ..top };
            ExtractModel { structs: st.structs.update(last, top2), ..st }
        },
    }
}

/// The state in which a fresh declaration for node `id` is nested in the last
/// top-level declaration.
pub open spec fn with_nested(t: TreeModel, id: int, st: ExtractModel) -> ExtractModel {
    let top = st.structs.last();
    let top2 = StructModel { sub: top.sub.push(fresh_struct(t, id)), ..top };
    ExtractModel {
        depth: st.depth + 1,
        structs: st.structs.update(st.structs.len() - 1, top2),
        current: Target::Nested,
    }
}

/// What the walk does on reaching node `id`, and whether it goes on below.
/// A declaration outside every other joins the list; one inside another is
/// nested in the last declaration of the list; either becomes the one being
/// read. Any other node inside a declaration is read into the declaration
/// being read.
pub open spec fn enter(t: TreeModel, id: int, st: ExtractModel) -> Result<
    (ExtractModel, bool),
    Malformed,
> {
    if t[id].kind == "class_declaration"@ {
        if st.depth == 0 {
            Ok(
                (
                    ExtractModel {
                        depth: 1,
                        structs: st.structs.push(fresh_struct(t, id)),
                        current: Target::Top,
                    },
                    true,
                ),
            )
        } else if st.structs.len() == 0 {
            Err(Malformed)
        } else {
            Ok((with_nested(t, id, st), true))
        }
    } else if st.depth > 0 {
        match current_struct(st) {
            None => Err(Malformed),
            Some(s) => match visit_in_struct(t, id, s) {
                Err(e) => Err(e),
                Ok((s2, go)) => Ok((with_current(st, s2), go)),
            },
        }
    } else {
        Ok((st, true))
    }
}

/// What the walk does on leaving node `id`: at the end of a declaration it is
/// one declaration less deep, and reads the last top-level declaration again,
/// or none once it is outside every declaration.
pub open spec fn leave(t: TreeModel, id: int, st: ExtractModel) -> ExtractModel {
    if t[id].kind == "class_declaration"@ && st.depth > 0 {
        ExtractModel {
            depth: (st.depth - 1) as nat,
            current: if st.depth == 1 {
                Target::Idle
            } else {
                Target::Top
            },
            ..st
        }
    } else {
        st
    }
}

/// The state after the walk over node `id` and everything below it.
pub open spec fn walk(t: TreeModel, id: int, st: ExtractModel) -> Result<ExtractModel, Malformed>
    decreases t.len() - id, child_count_of(t, id) + 1,
{
    if !(0 <= id < t.len()) {
        Err(Malformed)
    } else {
        match enter(t, id, st) {
            Err(e) => Err(e),
            Ok((st1, go)) => if go {
                match walk_from(t, id, 0, st1) {
                    Err(e) => Err(e),
                    Ok(st2) => Ok(leave(t, id, st2)),
                }
            } else {
                Ok(leave(t, id, st1))
            },
        }
    }
}

/// The state after the walk over the children of `id` from the `j`-th on.
pub open spec fn walk_from(t: TreeModel, id: int, j: int, st: ExtractModel) -> Result<
    ExtractModel,
    Malformed,
>
    decreases t.len() - id, child_count_of(t, id) - j,
{
    match child_at(t, id, j) {
        None => Ok(st),
        Some(c) => match walk(t, c, st) {
            Err(e) => Err(e),
            Ok(next) => walk_from(t, id, j + 1, next),
        },
    }
}

/// The walk's state: the declarations found so far, and where the walk is.
#[derive(Debug)]
pub struct State {
    struct_def_level: usize,
    /// The top-level declarations, in source order.
    pub struct_list: Vec<StructInfo>,
    current: Target,
    /// Whether the caller wants the walk traced; the walk itself does not
    /// read it.
    pub verbose: bool,
}

impl View for State {
    type V = ExtractModel;

    closed spec fn view(&self) -> ExtractModel {
        ExtractModel {
            depth: self.struct_def_level as nat,
            structs: struct_views(self.struct_list@),
            current: self.current,
        }
    }
}

fn fresh(tree: &SyntaxTree, node: usize) -> (r: StructInfo)
    requires
        node < tree@.len(),
    ensures
        r@ == fresh_struct(tree@, node as int),
{
    let r = StructInfo {
        name: String::new(),
        source: tree.text(node).to_owned(),
        node,
        members: NameMap::new(),
        inheritance: None,
        sub: Vec::new(),
    };
    proof {
        lemma_struct_view(r);
        assert(r@.members =~= Seq::empty());
        assert(r@.sub =~= Seq::empty());
    }
    r
}

impl State {
    /// A state at the start of a walk: no declaration found, none being read.
    pub fn new(verbose: bool) -> (r: Self)
        ensures
            r@ == (ExtractModel { depth: 0, structs: Seq::empty(), current: Target::Idle }),
            r.at_rest(),
            r.list().len() == 0,
            r.is_verbose() == verbose,
    {
        let r = State {
            struct_def_level: 0,
            struct_list: Vec::new(),
            current: Target::Idle,
            verbose,
        };
        proof {
            assert(r@.structs =~= Seq::empty());
        }
        r
    }

    /// The state is that of a walk outside every declaration.
    pub closed spec fn at_rest(&self) -> bool {
        self.struct_def_level == 0 && self.current == Target::Idle
    }

    /// The list of declarations.
    pub closed spec fn list(&self) -> Seq<StructInfo> {
        self.struct_list@
    }

    /// The flag that the state was made with.
    pub closed spec fn is_verbose(&self) -> bool {
        self.verbose
    }

    /// What the contracts call the declarations is the view of the list, and
    /// a walk is at rest when it is inside no declaration and reads none.
    pub proof fn lemma_structs(&self)
        ensures
            self@.structs == struct_views(self.list()),
            self.at_rest() <==> self@.depth == 0 && self@.current == Target::Idle,
    {
    }

    /// Hands out the declarations found.
    pub fn into_structs(self) -> (r: Vec<StructInfo>)
        ensures
            r@ == self.list(),
    {
        self.struct_list
    }

    fn handle_node(&mut self, tree: &SyntaxTree, node: usize) -> (r: Result<bool, Malformed>)
        requires
            tree.wf(),
            node < tree@.len(),
            old(self).struct_def_level <= node,
        ensures
            final(self).verbose == old(self).verbose,
            match r {
                Ok(go) => enter(tree@, node as int, old(self)@) == Ok::<
                    (ExtractModel, bool),
                    Malformed,
                >((final(self)@, go)),
                Err(e) => enter(tree@, node as int, old(self)@) is Err,
            },
    {
        if tree.is_kind(node, "class_declaration") {
            let info = fresh(tree, node);
            if self.struct_def_level == 0 {
                let ghost before = struct_views(self.struct_list@);
                self.struct_def_level = 1;
                self.struct_list.push(info);
                self.current = Target::Top;
                proof {
                    assert(struct_views(self.struct_list@) =~= before.push(info@));
                }
                return Ok(true);
            }
            let mut top = match self.struct_list.pop() {
                Some(top) => top,
                None => {
                    return Err(Malformed);
                },
            };
            let ghost before = struct_views(old(self).struct_list@);
            let ghost top_before = top;
            proof {
                lemma_struct_view(top);
            }
            top.sub.push(info);
            proof {
                lemma_struct_view(top);
                assert(top@.sub =~= top_before@.sub.push(info@));
            }
            self.struct_list.push(top);
            self.struct_def_level = self.struct_def_level + 1;
            self.current = Target::Nested;
            proof {
                assert(struct_views(self.struct_list@) =~= before.update(before.len() - 1, top@));
            }
            return Ok(true);
        }
        if self.struct_def_level == 0 {
            return Ok(true);
        }
        let ghost before = struct_views(old(self).struct_list@);
        match self.current {
            Target::Idle => Err(Malformed),
            Target::Top => {
                let top = match self.struct_list.pop() {
                    Some(top) => top,
                    None => {
                        return Err(Malformed);
                    },
                };
                let (top, go) = visit(tree, node, top)?;
                self.struct_list.push(top);
                proof {
                    assert(struct_views(self.struct_list@) =~= before.update(
                        before.len() - 1,
                        top@,
                    ));
                }
                Ok(go)
            },
            Target::Nested => {
                let mut top = match self.struct_list.pop() {
                    Some(top) => top,
                    None => {
                        return Err(Malformed);
                    },
                };
                let ghost top_before = top;
                proof {
                    lemma_struct_view(top);
                }
                let sub = match top.sub.pop() {
                    Some(sub) => sub,
                    None => {
                        return Err(Malformed);
                    },
                };
                let (sub, go) = visit(tree, node, sub)?;
                top.sub.push(sub);
                proof {
                    lemma_struct_view(top);
                    assert(top@.sub =~= top_before@.sub.update(
                        top_before@.sub.len() - 1,
                        sub@,
                    ));
                }
                self.struct_list.push(top);
                proof {
                    assert(struct_views(self.struct_list@) =~= before.update(
                        before.len() - 1,
                        top@,
                    ));
                }
                Ok(go)
            },
        }
    }

    fn handle_node_post(&mut self, tree: &SyntaxTree, node: usize)
        requires
            node < tree@.len(),
        ensures
            final(self).verbose == old(self).verbose,
            final(self)@ == leave(tree@, node as int, old(self)@),
    {
        if tree.is_kind(node, "class_declaration") && self.struct_def_level > 0 {
            self.struct_def_level = self.struct_def_level - 1;
            if self.struct_def_level == 0 {
                self.current = Target::Idle;
            } else {
                self.current = Target::Top;
            }
        }
    }

    fn walk_node(&mut self, tree: &SyntaxTree, node: usize) -> (r: Result<(), Malformed>)
        requires
            tree.wf(),
            old(self).struct_def_level <= node,
        ensures
            final(self).verbose == old(self).verbose,
            match r {
                Ok(_) => walk(tree@, node as int, old(self)@) == Ok::<ExtractModel, Malformed>(
                    final(self)@,
                ) && final(self).struct_def_level == old(self).struct_def_level && (old(
                    self,
                ).at_rest() ==> final(self).at_rest()),
                Err(e) => walk(tree@, node as int, old(self)@) is Err,
            },
        decreases tree@.len() - node, child_count_of(tree@, node as int) + 1,
    {
        if node >= tree.len() {
            return Err(Malformed);
        }
        let go = self.handle_node(tree, node)?;
        if go {
            let ghost entered = self@;
            let ghost level = self.struct_def_level;
            let ghost rest = self.at_rest();
            let n = tree.child_count(node);
            let mut j: usize = 0;
            while j < n
                invariant
                    tree.wf(),
                    j <= n,
                    node < tree@.len(),
                    n == child_count_of(tree@, node as int),
                    self.struct_def_level == level,
                    level <= node + 1,
                    rest ==> self.at_rest(),
                    self.verbose == old(self).verbose,
                    walk_from(tree@, node as int, 0, entered) == walk_from(
                        tree@,
                        node as int,
                        j as int,
                        self@,
                    ),
                    enter(tree@, node as int, old(self)@) == Ok::<(ExtractModel, bool), Malformed>(
                        (entered, true),
                    ),
                decreases n - j,
            {
                match tree.child(node, j) {
                    None => {
                        return Err(Malformed);
                    },
                    Some(c) => {
                        self.walk_node(tree, c)?;
                    },
                }
                j = j + 1;
            }
        }
        self.handle_node_post(tree, node);
        Ok(())
    }

    /// Walks over node `node` and everything below it, and adds the
    /// declarations met to the list.
    ///
    /// Fails where a declaration lacks a child that its kind calls for; the
    /// state is then that of a walk outside every declaration, and what the
    /// list holds is not stated.
    pub fn handle_source(&mut self, tree: &SyntaxTree, node: usize) -> (r: Result<(), Malformed>)
        requires
            tree.wf(),
            old(self).at_rest(),
        ensures
            final(self).at_rest(),
            final(self).is_verbose() == old(self).is_verbose(),
            final(self)@.structs == struct_views(final(self).list()),
            match r {
                Ok(_) => walk(tree@, node as int, old(self)@) == Ok::<ExtractModel, Malformed>(
                    final(self)@,
                ),
                Err(e) => walk(tree@, node as int, old(self)@) is Err,
            },
    {
        let r = self.walk_node(tree, node);
        if r.is_err() {
            self.struct_def_level = 0;
            self.current = Target::Idle;
        }
        r
    }
}

} // verus!
