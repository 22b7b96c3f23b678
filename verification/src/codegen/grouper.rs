//! Definitions by namespace, in the order in which they are written out.

use vstd::prelude::*;
use vstd::utf8::encode_utf8;
use crate::parser::tl::{Category, Definition, DefinitionView};
use crate::text::{
    contains_bytes, find_upper_bound, insert_into_sorted, insert_sorted, less_bytes, lex_less,
    upper_bound, views,
};
use crate::tl::wire::{bytes_eq, copy_range};

verus! {

/// The definitions of one namespace, by their places in the list of all
/// definitions.
#[derive(Debug, PartialEq, Eq)]
pub struct Group {
    /// The namespace; empty for the definitions without one.
    pub ns: Vec<u8>,
    /// The places of the definitions, ordered by name.
    pub members: Vec<usize>,
}

/// A group as contracts see it.
pub struct GroupView {
    pub ns: Seq<u8>,
    pub members: Seq<int>,
}

impl View for Group {
    type V = GroupView;

    open spec fn view(&self) -> GroupView {
        GroupView { ns: self.ns@, members: Seq::new(self.members@.len(), |i: int| self.members@[i] as int) }
    }
}

/// The groups as contracts see them.
pub open spec fn groups_view(groups: Seq<Group>) -> Seq<GroupView> {
    Seq::new(groups.len(), |i: int| groups[i]@)
}

/// The definitions as contracts see them.
pub open spec fn defs_view(defs: Seq<Definition>) -> Seq<DefinitionView> {
    Seq::new(defs.len(), |i: int| defs[i]@)
}

/// The first namespace of a definition; empty where it has none.
pub open spec fn first_ns(def: DefinitionView) -> Seq<u8> {
    if def.namespace.len() == 0 {
        Seq::empty()
    } else {
        encode_utf8(def.namespace[0])
    }
}

/// Whether a definition is written to the module of `category`'s records.
pub open spec fn in_category(def: DefinitionView, category: Category) -> bool {
    def.category == category
}

/// The namespaces of the first `n` definitions that belong to `category`,
/// each once, in order.
pub open spec fn spec_namespaces(defs: Seq<DefinitionView>, category: Category, n: int) -> Seq<
    Seq<u8>,
>
    decreases n,
{
    if n <= 0 {
        Seq::empty()
    } else {
        let before = spec_namespaces(defs, category, n - 1);
        let d = defs[n - 1];
        if in_category(d, category) && !before.contains(first_ns(d)) {
            insert_sorted(before, first_ns(d))
        } else {
            before
        }
    }
}

/// The names of the definitions at the places `members`.
pub open spec fn names_at(defs: Seq<DefinitionView>, members: Seq<int>) -> Seq<Seq<u8>> {
    Seq::new(members.len(), |i: int| encode_utf8(defs[members[i]].name))
}

/// The places, among the first `n` definitions, of those that belong to
/// `category` and to the namespace `ns`, ordered by name; definitions of one
/// name keep the order in which they were written.
pub open spec fn spec_members(defs: Seq<DefinitionView>, category: Category, ns: Seq<u8>, n: int) -> Seq<
    int,
>
    decreases n,
{
    if n <= 0 {
        Seq::empty()
    } else {
        let before = spec_members(defs, category, ns, n - 1);
        let d = defs[n - 1];
        if in_category(d, category) && first_ns(d) == ns {
            before.insert(upper_bound(names_at(defs, before), encode_utf8(d.name)), n - 1)
        } else {
            before
        }
    }
}

/// The groups of the definitions that belong to `category`: one for each
/// namespace, ordered by namespace.
pub open spec fn spec_group_by_ns(defs: Seq<DefinitionView>, category: Category) -> Seq<GroupView> {
    let namespaces = spec_namespaces(defs, category, defs.len() as int);
    Seq::new(
        namespaces.len(),
        |i: int|
            GroupView {
                ns: namespaces[i],
                members: spec_members(defs, category, namespaces[i], defs.len() as int),
            },
    )
}

/// The first namespace of a definition.
pub fn first_namespace(def: &Definition) -> (ns: Vec<u8>)
    ensures
        ns@ == first_ns(def@),
{
    if def.namespace.len() == 0 {
        Vec::new()
    } else {
        let b = def.namespace[0].as_str().as_bytes();
        let ns = copy_range(b, 0, b.len());
        assert(ns@ =~= encode_utf8(def.namespace@[0]@));
        ns
    }
}

/// The namespaces of the definitions that belong to `category`.
fn namespaces(defs: &[Definition], category: Category) -> (out: Vec<Vec<u8>>)
    ensures
        views(out@) == spec_namespaces(defs_view(defs@), category, defs@.len() as int),
{
    let mut out: Vec<Vec<u8>> = Vec::new();
    let mut i: usize = 0;
    assert(views(out@) =~= Seq::<Seq<u8>>::empty());
    while i < defs.len()
        invariant
            i <= defs@.len(),
            views(out@) == spec_namespaces(defs_view(defs@), category, i as int),
        decreases defs@.len() - i,
    {
        assert(defs_view(defs@)[i as int] == defs@[i as int]@);
        if defs[i].category == category {
            let ns = first_namespace(&defs[i]);
            if !contains_bytes(&out, ns.as_slice()) {
                insert_into_sorted(&mut out, ns);
            }
        }
        i += 1;
    }
    out
}

/// The names at `members` as byte strings.
fn names_of(defs: &[Definition], members: &Vec<usize>) -> (out: Vec<Vec<u8>>)
    requires
        forall|k: int| 0 <= k < members@.len() ==> members@[k] < defs@.len(),
    ensures
        views(out@) == names_at(
            defs_view(defs@),
            Seq::new(members@.len(), |i: int| members@[i] as int),
        ),
{
    let mut out: Vec<Vec<u8>> = Vec::new();
    let mut i: usize = 0;
    while i < members.len()
        invariant
            i <= members@.len(),
            out@.len() == i,
            forall|k: int| 0 <= k < members@.len() ==> members@[k] < defs@.len(),
            forall|k: int|
                0 <= k < i ==> out@[k]@ == encode_utf8(defs@[members@[k] as int].name@),
        decreases members@.len() - i,
    {
        let b = defs[members[i]].name.as_str().as_bytes();
        let n = copy_range(b, 0, b.len());
        assert(n@ =~= encode_utf8(defs@[members@[i as int] as int].name@));
        out.push(n);
        i += 1;
    }
    assert(views(out@) =~= names_at(
        defs_view(defs@),
        Seq::new(members@.len(), |i: int| members@[i] as int),
    ));
    out
}

/// The members of the group of `ns`.
fn members_of(defs: &[Definition], category: Category, ns: &[u8]) -> (out: Vec<usize>)
    ensures
        Seq::new(out@.len(), |i: int| out@[i] as int) == spec_members(
            defs_view(defs@),
            category,
            ns@,
            defs@.len() as int,
        ),
        forall|k: int| 0 <= k < out@.len() ==> out@[k] < defs@.len(),
{
    let mut out: Vec<usize> = Vec::new();
    let mut i: usize = 0;
    assert(Seq::new(out@.len(), |k: int| out@[k] as int) =~= Seq::<int>::empty());
    while i < defs.len()
        invariant
            i <= defs@.len(),
            Seq::new(out@.len(), |k: int| out@[k] as int) == spec_members(
                defs_view(defs@),
                category,
                ns@,
                i as int,
            ),
            forall|k: int| 0 <= k < out@.len() ==> out@[k] < i,
        decreases defs@.len() - i,
    {
        assert(defs_view(defs@)[i as int] == defs@[i as int]@);
        if defs[i].category == category {
            let own = first_namespace(&defs[i]);
            if bytes_eq(own.as_slice(), ns) {
                let names = names_of(defs, &out);
                let at = find_upper_bound(&names, defs[i].name.as_str().as_bytes());
                let ghost before = Seq::new(out@.len(), |k: int| out@[k] as int);
                out.insert(at, i);
                assert(Seq::new(out@.len(), |k: int| out@[k] as int) =~= before.insert(
                    at as int,
                    i as int,
                ));
            }
        }
        i += 1;
    }
    out
}

/// Groups the definitions that belong to `category` by namespace.
pub fn group_by_ns(defs: &[Definition], category: Category) -> (out: Vec<Group>)
    ensures
        groups_view(out@) == spec_group_by_ns(defs_view(defs@), category),
        forall|g: int, k: int|
            0 <= g < out@.len() && 0 <= k < out@[g].members@.len() ==> #[trigger] out@[g].members@[k]
                < defs@.len(),
{
    let names = namespaces(defs, category);
    let mut out: Vec<Group> = Vec::new();
    let mut i: usize = 0;
    while i < names.len()
        invariant
            i <= names@.len(),
            out@.len() == i,
            views(names@) == spec_namespaces(defs_view(defs@), category, defs@.len() as int),
            forall|g: int|
                0 <= g < i ==> (#[trigger] out@[g])@ == (GroupView {
                    ns: names@[g]@,
                    members: spec_members(
                        defs_view(defs@),
                        category,
                        names@[g]@,
                        defs@.len() as int,
                    ),
                }),
            forall|g: int, k: int|
                0 <= g < out@.len() && 0 <= k < out@[g].members@.len()
                    ==> #[trigger] out@[g].members@[k] < defs@.len(),
        decreases names@.len() - i,
    {
        let members = members_of(defs, category, names[i].as_slice());
        let ns = copy_range(names[i].as_slice(), 0, names[i].len());
        assert(ns@ =~= names@[i as int]@);
        out.push(Group { ns, members });
        i += 1;
    }
    assert(groups_view(out@) =~= spec_group_by_ns(defs_view(defs@), category)) by {
        assert forall|g: int| 0 <= g < out@.len() implies groups_view(out@)[g]
            == spec_group_by_ns(defs_view(defs@), category)[g] by {
            assert(views(names@)[g] == names@[g]@);
        }
    }
    out
}

// ─── boxed types ─────────────────────────────────────────────────────────────
/// Whether a definition gives its type a union: it is a constructor, and
/// its type is no generic.
pub open spec fn gives_union(def: DefinitionView) -> bool {
    def.category == Category::Types && !def.ty.generic_ref
}

/// The namespaces of the first `n` definitions that give a union, each
/// once, in order.
pub open spec fn spec_type_namespaces(defs: Seq<DefinitionView>, n: int) -> Seq<Seq<u8>>
    decreases n,
{
    if n <= 0 {
        Seq::empty()
    } else {
        let before = spec_type_namespaces(defs, n - 1);
        let d = defs[n - 1];
        if gives_union(d) && !before.contains(first_ns(d)) {
            insert_sorted(before, first_ns(d))
        } else {
            before
        }
    }
}

/// The names of the types of the definitions at the places `members`.
pub open spec fn type_names_at(defs: Seq<DefinitionView>, members: Seq<int>) -> Seq<Seq<u8>> {
    Seq::new(members.len(), |i: int| encode_utf8(defs[members[i]].ty.name))
}

/// For each type of the namespace `ns` that the first `n` definitions give
/// a union, the place of the first definition that gives it, ordered by the
/// type's name.
pub open spec fn spec_type_members(defs: Seq<DefinitionView>, ns: Seq<u8>, n: int) -> Seq<int>
    decreases n,
{
    if n <= 0 {
        Seq::empty()
    } else {
        let before = spec_type_members(defs, ns, n - 1);
        let d = defs[n - 1];
        let names = type_names_at(defs, before);
        if gives_union(d) && first_ns(d) == ns && !names.contains(encode_utf8(d.ty.name)) {
            before.insert(upper_bound(names, encode_utf8(d.ty.name)), n - 1)
        } else {
            before
        }
    }
}

/// The unions to write out, by namespace: one group for each namespace,
/// ordered by namespace, and in each group one member for each type.
pub open spec fn spec_group_types_by_ns(defs: Seq<DefinitionView>) -> Seq<GroupView> {
    let namespaces = spec_type_namespaces(defs, defs.len() as int);
    Seq::new(
        namespaces.len(),
        |i: int|
            GroupView {
                ns: namespaces[i],
                members: spec_type_members(defs, namespaces[i], defs.len() as int),
            },
    )
}

/// Whether a definition gives its type a union.
pub fn is_union_source(def: &Definition) -> (r: bool)
    ensures
        r == gives_union(def@),
{
    match def.category {
        Category::Types => !def.ty.generic_ref,
        Category::Functions => false,
    }
}

/// The namespaces of the definitions that give a union.
fn type_namespaces(defs: &[Definition]) -> (out: Vec<Vec<u8>>)
    ensures
        views(out@) == spec_type_namespaces(defs_view(defs@), defs@.len() as int),
{
    let mut out: Vec<Vec<u8>> = Vec::new();
    let mut i: usize = 0;
    assert(views(out@) =~= Seq::<Seq<u8>>::empty());
    while i < defs.len()
        invariant
            i <= defs@.len(),
            views(out@) == spec_type_namespaces(defs_view(defs@), i as int),
        decreases defs@.len() - i,
    {
        assert(defs_view(defs@)[i as int] == defs@[i as int]@);
        if is_union_source(&defs[i]) {
            let ns = first_namespace(&defs[i]);
            if !contains_bytes(&out, ns.as_slice()) {
                insert_into_sorted(&mut out, ns);
            }
        }
        i += 1;
    }
    out
}

/// The type names at `members` as byte strings.
fn type_names_of(defs: &[Definition], members: &Vec<usize>) -> (out: Vec<Vec<u8>>)
    requires
        forall|k: int| 0 <= k < members@.len() ==> members@[k] < defs@.len(),
    ensures
        views(out@) == type_names_at(
            defs_view(defs@),
            Seq::new(members@.len(), |i: int| members@[i] as int),
        ),
{
    let mut out: Vec<Vec<u8>> = Vec::new();
    let mut i: usize = 0;
    while i < members.len()
        invariant
            i <= members@.len(),
            out@.len() == i,
            forall|k: int| 0 <= k < members@.len() ==> members@[k] < defs@.len(),
            forall|k: int|
                0 <= k < i ==> out@[k]@ == encode_utf8(defs@[members@[k] as int].ty.name@),
        decreases members@.len() - i,
    {
        let b = defs[members[i]].ty.name.as_str().as_bytes();
        let n = copy_range(b, 0, b.len());
        assert(n@ =~= encode_utf8(defs@[members@[i as int] as int].ty.name@));
        out.push(n);
        i += 1;
    }
    assert(views(out@) =~= type_names_at(
        defs_view(defs@),
        Seq::new(members@.len(), |i: int| members@[i] as int),
    ));
    out
}

/// The members of the group of unions of `ns`.
fn type_members_of(defs: &[Definition], ns: &[u8]) -> (out: Vec<usize>)
    ensures
        Seq::new(out@.len(), |i: int| out@[i] as int) == spec_type_members(
            defs_view(defs@),
            ns@,
            defs@.len() as int,
        ),
        forall|k: int| 0 <= k < out@.len() ==> out@[k] < defs@.len(),
{
    let mut out: Vec<usize> = Vec::new();
    let mut i: usize = 0;
    assert(Seq::new(out@.len(), |k: int| out@[k] as int) =~= Seq::<int>::empty());
    while i < defs.len()
        invariant
            i <= defs@.len(),
            Seq::new(out@.len(), |k: int| out@[k] as int) == spec_type_members(
                defs_view(defs@),
                ns@,
                i as int,
            ),
            forall|k: int| 0 <= k < out@.len() ==> out@[k] < i,
        decreases defs@.len() - i,
    {
        assert(defs_view(defs@)[i as int] == defs@[i as int]@);
        if is_union_source(&defs[i]) {
            let own = first_namespace(&defs[i]);
            if bytes_eq(own.as_slice(), ns) {
                let names = type_names_of(defs, &out);
                let name = defs[i].ty.name.as_str().as_bytes();
                if !contains_bytes(&names, name) {
                    let at = find_upper_bound(&names, name);
                    let ghost before = Seq::new(out@.len(), |k: int| out@[k] as int);
                    out.insert(at, i);
                    assert(Seq::new(out@.len(), |k: int| out@[k] as int) =~= before.insert(
                        at as int,
                        i as int,
                    ));
                }
            }
        }
        i += 1;
    }
    out
}

/// Groups the types that get a union by namespace. A member of a group is
/// the place of the first definition of the type.
pub fn group_types_by_ns(defs: &[Definition]) -> (out: Vec<Group>)
    ensures
        groups_view(out@) == spec_group_types_by_ns(defs_view(defs@)),
        forall|g: int, k: int|
            0 <= g < out@.len() && 0 <= k < out@[g].members@.len() ==> #[trigger] out@[g].members@[k]
                < defs@.len(),
{
    let names = type_namespaces(defs);
    let mut out: Vec<Group> = Vec::new();
    let mut i: usize = 0;
    while i < names.len()
        invariant
            i <= names@.len(),
            out@.len() == i,
            views(names@) == spec_type_namespaces(defs_view(defs@), defs@.len() as int),
            forall|g: int|
                0 <= g < i ==> (#[trigger] out@[g])@ == (GroupView {
                    ns: names@[g]@,
                    members: spec_type_members(defs_view(defs@), names@[g]@, defs@.len() as int),
                }),
            forall|g: int, k: int|
                0 <= g < out@.len() && 0 <= k < out@[g].members@.len()
                    ==> #[trigger] out@[g].members@[k] < defs@.len(),
        decreases names@.len() - i,
    {
        let members = type_members_of(defs, names[i].as_slice());
        let ns = copy_range(names[i].as_slice(), 0, names[i].len());
        assert(ns@ =~= names@[i as int]@);
        out.push(Group { ns, members });
        i += 1;
    }
    assert(groups_view(out@) =~= spec_group_types_by_ns(defs_view(defs@))) by {
        assert forall|g: int| 0 <= g < out@.len() implies groups_view(out@)[g]
            == spec_group_types_by_ns(defs_view(defs@))[g] by {
            assert(views(names@)[g] == names@[g]@);
        }
    }
    out
}

} // verus!
