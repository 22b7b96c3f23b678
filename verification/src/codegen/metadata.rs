//! What the generator must know of the schema as a whole: which
//! constructors reach their own type through their fields, which
//! constructors a type has, and which flags fields no field uses.

use vstd::prelude::*;
use crate::parser::tl::{
    texts, Category, Definition, DefinitionView, Parameter, ParameterType, ParameterTypeView,
    ParameterView, Type, TypeView,
};
use crate::codegen::grouper::defs_view;

verus! {

/// `ty` names the type `(namespace, name)`.
pub open spec fn same_type(ty: TypeView, namespace: Seq<Seq<char>>, name: Seq<char>) -> bool {
    ty.namespace == namespace && ty.name == name
}

/// Whether two lists of strings hold the same texts.
pub fn same_texts(a: &Vec<String>, b: &Vec<String>) -> (r: bool)
    ensures
        r == (texts(a@) == texts(b@)),
{
    if a.len() != b.len() {
        assert(texts(a@).len() != texts(b@).len());
        return false;
    }
    let mut i: usize = 0;
    while i < a.len()
        invariant
            i <= a@.len(),
            a@.len() == b@.len(),
            forall|k: int| 0 <= k < i ==> a@[k]@ == b@[k]@,
        decreases a@.len() - i,
    {
        if a[i] != b[i] {
            assert(texts(a@)[i as int] != texts(b@)[i as int]);
            return false;
        }
        i += 1;
    }
    assert(texts(a@) =~= texts(b@));
    true
}

/// Whether `ty` names the type of `of`.
pub fn is_type_of(ty: &Type, of: &Type) -> (r: bool)
    ensures
        r == same_type(ty@, of@.namespace, of@.name),
{
    same_texts(&ty.namespace, &of.namespace) && ty.name == of.name
}

/// The places of the constructors of the type `(namespace, name)` among
/// the first `n` definitions, in order.
pub open spec fn spec_defs_for_type(
    defs: Seq<DefinitionView>,
    namespace: Seq<Seq<char>>,
    name: Seq<char>,
    n: int,
) -> Seq<int>
    decreases n,
{
    if n <= 0 {
        Seq::empty()
    } else {
        let before = spec_defs_for_type(defs, namespace, name, n - 1);
        if defs[n - 1].category == Category::Types && same_type(defs[n - 1].ty, namespace, name) {
            before.push(n - 1)
        } else {
            before
        }
    }
}

/// The places of the constructors of the type `ty`, in order.
pub fn defs_for_type(defs: &[Definition], ty: &Type) -> (out: Vec<usize>)
    ensures
        Seq::new(out@.len(), |i: int| out@[i] as int) == spec_defs_for_type(
            defs_view(defs@),
            ty@.namespace,
            ty@.name,
            defs@.len() as int,
        ),
        forall|k: int| 0 <= k < out@.len() ==> out@[k] < defs@.len(),
{
    let mut out: Vec<usize> = Vec::new();
    let mut i: usize = 0;
    assert(Seq::new(out@.len(), |k: int| out@[k] as int) =~= Seq::<int>::empty());
    while i < defs.len()
        invariant
            i <= defs@.len(),
            Seq::new(out@.len(), |k: int| out@[k] as int) == spec_defs_for_type(
                defs_view(defs@),
                ty@.namespace,
                ty@.name,
                i as int,
            ),
            forall|k: int| 0 <= k < out@.len() ==> out@[k] < i,
        decreases defs@.len() - i,
    {
        assert(defs_view(defs@)[i as int] == defs@[i as int]@);
        let is_type = match defs[i].category {
            Category::Types => true,
            Category::Functions => false,
        };
        if is_type && is_type_of(&defs[i].ty, ty) {
            let ghost before = Seq::new(out@.len(), |k: int| out@[k] as int);
            out.push(i);
            assert(Seq::new(out@.len(), |k: int| out@[k] as int) =~= before.push(i as int));
        }
        i += 1;
    }
    out
}

/// Whether a field of one of `params` is guarded by a bit of the flags
/// field `flags`.
pub open spec fn flag_is_used(params: Seq<ParameterView>, flags: Seq<char>) -> bool {
    exists|k: int|
        0 <= k < params.len() && (#[trigger] params[k]).ty is Normal
            && params[k].ty->Normal_flag is Some && params[k].ty->Normal_flag->Some_0.name
            == flags
}

/// The flags field at the place `at` of `def` is used by no field.
pub open spec fn spec_is_unused_flag(def: DefinitionView, at: int) -> bool {
    0 <= at < def.params.len() && def.params[at].ty is Flags && !flag_is_used(
        def.params,
        def.params[at].name,
    )
}

/// Whether the parameter at the place `at` of `def` is a flags field that
/// no field uses, so that it is always written as zero.
pub fn is_unused_flag(def: &Definition, at: usize) -> (r: bool)
    ensures
        r == spec_is_unused_flag(def@, at as int),
{
    if at >= def.params.len() {
        return false;
    }
    match &def.params[at].ty {
        ParameterType::Flags => {},
        _ => {
            return false;
        },
    }
    let ghost params = def@.params;
    let mut i: usize = 0;
    while i < def.params.len()
        invariant
            i <= def.params@.len(),
            at < def.params@.len(),
            params == def@.params,
            forall|k: int|
                0 <= k < i ==> !((#[trigger] params[k]).ty is Normal && params[k].ty->Normal_flag
                    is Some && params[k].ty->Normal_flag->Some_0.name == def.params@[at as int].name@),
        decreases def.params@.len() - i,
    {
        assert(params[i as int] == def.params@[i as int]@);
        match &def.params[i].ty {
            ParameterType::Normal { flag: Some(f), .. } => {
                if f.name == def.params[at].name {
                    assert(params[at as int] == def.params@[at as int]@);
                    return false;
                }
            },
            _ => {},
        }
        i += 1;
    }
    assert(params[at as int] == def.params@[at as int]@);
    true
}

/// The type of the field at `at` of a definition, where it is a typed
/// field.
pub open spec fn field_type(def: DefinitionView, at: int) -> Option<TypeView> {
    if 0 <= at < def.params.len() {
        match def.params[at].ty {
            ParameterTypeView::Normal { ty, .. } => Some(ty),
            _ => None,
        }
    } else {
        None
    }
}

/// Whether the search from the definition at `current`, looking at its
/// fields from `field` on and at the constructors from `sub` on of the
/// field's type, comes to a field of the type of the definition at `root`.
/// Definitions in `visited` are not entered again; `fuel` bounds the depth
/// of the search.
pub open spec fn spec_reaches(
    defs: Seq<DefinitionView>,
    root: int,
    current: int,
    field: int,
    visited: Set<int>,
    fuel: nat,
) -> (bool, Set<int>)
    decreases fuel, defs[current].params.len() - field, 0nat,
{
    let def = defs[current];
    if fuel == 0 || field < 0 || field >= def.params.len() {
        (false, visited)
    } else {
        match field_type(def, field) {
            None => spec_reaches(defs, root, current, field + 1, visited, fuel),
            Some(ty) => if same_type(ty, defs[root].ty.namespace, defs[root].ty.name) {
                (true, visited)
            } else {
                let subs = spec_defs_for_type(defs, ty.namespace, ty.name, defs.len() as int);
                let (found, seen) = spec_reaches_subs(defs, root, subs, 0, visited, fuel);
                if found {
                    (true, seen)
                } else {
                    spec_reaches(defs, root, current, field + 1, seen, fuel)
                }
            },
        }
    }
}

/// The search through the constructors `subs` from the place `at` on.
pub open spec fn spec_reaches_subs(
    defs: Seq<DefinitionView>,
    root: int,
    subs: Seq<int>,
    at: int,
    visited: Set<int>,
    fuel: nat,
) -> (bool, Set<int>)
    decreases fuel, 0nat, subs.len() - at,
{
    if fuel == 0 || at < 0 || at >= subs.len() {
        (false, visited)
    } else {
        let sub = subs[at];
        if visited.contains(sub) || sub < 0 || sub >= defs.len() {
            spec_reaches_subs(defs, root, subs, at + 1, visited, fuel)
        } else {
            let (found, seen) = spec_reaches(
                defs,
                root,
                sub,
                0,
                visited.insert(sub),
                (fuel - 1) as nat,
            );
            if found {
                (true, seen)
            } else {
                spec_reaches_subs(defs, root, subs, at + 1, seen, fuel)
            }
        }
    }
}

/// A constructor is recursive where a search through its fields, and
/// through the fields of the constructors of their types, comes back to a
/// field of its own type.
pub open spec fn spec_is_recursive(defs: Seq<DefinitionView>, root: int) -> bool {
    spec_reaches(defs, root, root, 0, Set::<int>::empty().insert(root), defs.len()).0
}

/// What the generator knows of a schema.
pub struct Metadata {
    recursive: Vec<bool>,
}

/// The set of the places that `visited` marks.
pub open spec fn marked(visited: Seq<bool>) -> Set<int> {
    Set::new(|i: int| 0 <= i < visited.len() && visited[i])
}

/// The search from `current`, from the field `field` on.
fn reaches(
    defs: &[Definition],
    root: usize,
    current: usize,
    field: usize,
    visited: &mut Vec<bool>,
    fuel: usize,
) -> (found: bool)
    requires
        root < defs@.len(),
        current < defs@.len(),
        old(visited)@.len() == defs@.len(),
    ensures
        final(visited)@.len() == defs@.len(),
        (found, marked(final(visited)@)) == spec_reaches(
            defs_view(defs@),
            root as int,
            current as int,
            field as int,
            marked(old(visited)@),
            fuel as nat,
        ),
    decreases fuel, defs@[current as int].params@.len() - field, 0nat,
{
    let ghost all = defs_view(defs@);
    assert(all[current as int] == defs@[current as int]@);
    assert(all[root as int] == defs@[root as int]@);
    if fuel == 0 || field >= defs[current].params.len() {
        return false;
    }
    assert(all[current as int].params[field as int] == defs@[current as int].params@[field as int]@);
    match &defs[current].params[field].ty {
        ParameterType::Flags => reaches(defs, root, current, field + 1, visited, fuel),
        ParameterType::Normal { ty, .. } => {
            if is_type_of(ty, &defs[root].ty) {
                return true;
            }
            let subs = defs_for_type(defs, ty);
            if reaches_subs(defs, root, &subs, 0, visited, fuel) {
                return true;
            }
            reaches(defs, root, current, field + 1, visited, fuel)
        },
    }
}

/// The search through the constructors `subs` from the place `at` on.
fn reaches_subs(
    defs: &[Definition],
    root: usize,
    subs: &Vec<usize>,
    at: usize,
    visited: &mut Vec<bool>,
    fuel: usize,
) -> (found: bool)
    requires
        root < defs@.len(),
        old(visited)@.len() == defs@.len(),
        forall|k: int| 0 <= k < subs@.len() ==> subs@[k] < defs@.len(),
    ensures
        final(visited)@.len() == defs@.len(),
        (found, marked(final(visited)@)) == spec_reaches_subs(
            defs_view(defs@),
            root as int,
            Seq::new(subs@.len(), |i: int| subs@[i] as int),
            at as int,
            marked(old(visited)@),
            fuel as nat,
        ),
    decreases fuel, 0nat, subs@.len() - at,
{
    if fuel == 0 || at >= subs.len() {
        return false;
    }
    let sub = subs[at];
    if visited[sub] {
        return reaches_subs(defs, root, subs, at + 1, visited, fuel);
    }
    let ghost before = visited@;
    visited.set(sub, true);
    assert(marked(visited@) =~= marked(before).insert(sub as int));
    if reaches(defs, root, sub, 0, visited, fuel - 1) {
        return true;
    }
    reaches_subs(defs, root, subs, at + 1, visited, fuel)
}

/// Whether the constructor at `root` is recursive.
pub fn compute_recursive(defs: &[Definition], root: usize) -> (r: bool)
    requires
        root < defs@.len(),
    ensures
        r == spec_is_recursive(defs_view(defs@), root as int),
{
    let mut visited: Vec<bool> = Vec::new();
    visited.resize(defs.len(), false);
    let ghost before = visited@;
    visited.set(root, true);
    assert(marked(visited@) =~= Set::<int>::empty().insert(root as int));
    reaches(defs, root, root, 0, &mut visited, defs.len())
}

impl Metadata {
    /// For each definition whether it is marked as recursive.
    pub closed spec fn marks(self) -> Seq<bool> {
        self.recursive@
    }

    /// Looks through the schema `defs`: every constructor that is
    /// recursive is marked.
    pub fn build(defs: &[Definition]) -> (m: Self)
        ensures
            m.marks().len() == defs@.len(),
            forall|i: int|
                0 <= i < defs@.len() ==> #[trigger] m.marks()[i] == (defs@[i].category
                    == Category::Types && spec_is_recursive(defs_view(defs@), i)),
    {
        let mut recursive: Vec<bool> = Vec::new();
        let mut i: usize = 0;
        while i < defs.len()
            invariant
                i <= defs@.len(),
                recursive@.len() == i,
                forall|k: int|
                    0 <= k < i ==> #[trigger] recursive@[k] == (defs@[k].category
                        == Category::Types && spec_is_recursive(defs_view(defs@), k)),
            decreases defs@.len() - i,
        {
            let is_type = match defs[i].category {
                Category::Types => true,
                Category::Functions => false,
            };
            recursive.push(is_type && compute_recursive(defs, i));
            i += 1;
        }
        Metadata { recursive }
    }

    /// Whether the definition at the place `at` is recursive.
    pub fn is_recursive(&self, at: usize) -> (r: bool)
        ensures
            r == (at < self.marks().len() && self.marks()[at as int]),
    {
        at < self.recursive.len() && self.recursive[at]
    }
}

} // verus!
