//! From schema names to the names of the generated code.

use vstd::prelude::*;
use vstd::string::StringSliceAdditionalSpecFns;
use vstd::utf8::encode_utf8;
use crate::client::session::{lenient_text, spec_lenient_text};
use crate::parser::grammar::DOT;
use crate::parser::tl::{
    Definition, DefinitionView, Parameter, ParameterType, ParameterTypeView, ParameterView, Type,
    TypeView,
};
use crate::text::{
    find_from, index_of_from, last_index_of, rfind, spec_starts_with, starts_with,
};
use crate::tl::wire::{bytes_eq, copy_range, push_all};

verus! {

// ─── built-in types ──────────────────────────────────────────────────────────
/// The built-in type that the schema name `name` stands for, if any.
pub open spec fn spec_builtin_type(name: Seq<u8>) -> Option<Seq<u8>> {
    if name == "Bool".spec_bytes() {
        Some("bool".spec_bytes())
    } else if name == "true".spec_bytes() {
        Some("bool".spec_bytes())
    } else if name == "int".spec_bytes() {
        Some("i32".spec_bytes())
    } else if name == "long".spec_bytes() {
        Some("i64".spec_bytes())
    } else if name == "double".spec_bytes() {
        Some("f64".spec_bytes())
    } else if name == "string".spec_bytes() {
        Some("String".spec_bytes())
    } else if name == "bytes".spec_bytes() {
        Some("Vec<u8>".spec_bytes())
    } else if name == "int128".spec_bytes() {
        Some("[u8; 16]".spec_bytes())
    } else if name == "int256".spec_bytes() {
        Some("[u8; 32]".spec_bytes())
    } else if name == "Vector".spec_bytes() {
        Some("Vec".spec_bytes())
    } else if name == "vector".spec_bytes() {
        Some("crate::RawVec".spec_bytes())
    } else {
        None
    }
}

/// The built-in type that the schema name `name` stands for, if any.
pub fn builtin_type(name: &str) -> (r: Option<&'static str>)
    ensures
        match spec_builtin_type(name.spec_bytes()) {
            Some(b) => r is Some && r->Some_0.spec_bytes() == b,
            None => r is None,
        },
{
    let n = name.as_bytes();
    if bytes_eq(n, "Bool".as_bytes()) {
        Some("bool")
    } else if bytes_eq(n, "true".as_bytes()) {
        Some("bool")
    } else if bytes_eq(n, "int".as_bytes()) {
        Some("i32")
    } else if bytes_eq(n, "long".as_bytes()) {
        Some("i64")
    } else if bytes_eq(n, "double".as_bytes()) {
        Some("f64")
    } else if bytes_eq(n, "string".as_bytes()) {
        Some("String")
    } else if bytes_eq(n, "bytes".as_bytes()) {
        Some("Vec<u8>")
    } else if bytes_eq(n, "int128".as_bytes()) {
        Some("[u8; 16]")
    } else if bytes_eq(n, "int256".as_bytes()) {
        Some("[u8; 32]")
    } else if bytes_eq(n, "Vector".as_bytes()) {
        Some("Vec")
    } else if bytes_eq(n, "vector".as_bytes()) {
        Some("crate::RawVec")
    } else {
        None
    }
}

// ─── PascalCase ──────────────────────────────────────────────────────────────
/// `b` is an ASCII upper-case letter.
pub open spec fn is_upper(b: u8) -> bool {
    0x41 <= b <= 0x5a
}

/// `b` is an ASCII lower-case letter.
pub open spec fn is_lower(b: u8) -> bool {
    0x61 <= b <= 0x7a
}

/// `b` in upper case.
pub open spec fn to_upper(b: u8) -> u8 {
    if is_lower(b) {
        (b - 0x20) as u8
    } else {
        b
    }
}

/// `b` in lower case.
pub open spec fn to_lower(b: u8) -> u8 {
    if is_upper(b) {
        (b + 0x20) as u8
    } else {
        b
    }
}

/// The PascalCase form of `s` from `i` on. Underscores are dropped and the
/// letter behind one is capitalised, as is the first letter; of a run of
/// capitals only the first stays a capital.
pub open spec fn pascal_from(s: Seq<u8>, i: int, next_upper: bool, prev_upper: bool) -> Seq<u8>
    decreases s.len() - i,
{
    if i < 0 || i >= s.len() {
        Seq::empty()
    } else if s[i] == 0x5f {
        pascal_from(s, i + 1, true, false)
    } else if next_upper {
        seq![to_upper(s[i])] + pascal_from(s, i + 1, false, is_upper(s[i]))
    } else if is_upper(s[i]) {
        seq![
            if prev_upper {
                to_lower(s[i])
            } else {
                s[i]
            },
        ] + pascal_from(s, i + 1, false, true)
    } else {
        seq![s[i]] + pascal_from(s, i + 1, false, false)
    }
}

/// What stands behind the last dot of `name`; all of `name` if it has none.
pub open spec fn after_last_dot(name: Seq<u8>) -> Seq<u8> {
    match last_index_of(name, DOT) {
        Some(j) => name.skip(j + 1),
        None => name,
    }
}

/// The PascalCase form of the schema name `name`, without its namespace:
/// `some_OK_name` gives `SomeOkName`.
pub open spec fn spec_to_pascal(name: Seq<u8>) -> Seq<u8> {
    pascal_from(after_last_dot(name), 0, true, false)
}

/// The PascalCase form of `name`.
pub fn pascal_bytes(name: &[u8]) -> (out: Vec<u8>)
    ensures
        out@ == spec_to_pascal(name@),
{
    let total = name.len();
    let n = match rfind(name, DOT) {
        Some(j) => {
            let n = copy_range(name, j + 1, total);
            assert(n@ =~= name@.skip(j + 1));
            n
        },
        None => {
            let n = copy_range(name, 0, total);
            assert(n@ =~= name@);
            n
        },
    };
    let mut out: Vec<u8> = Vec::new();
    let mut next_upper = true;
    let mut prev_upper = false;
    let mut i: usize = 0;
    while i < n.len()
        invariant
            i <= n@.len(),
            spec_to_pascal(name@) == out@ + pascal_from(n@, i as int, next_upper, prev_upper),
        decreases n@.len() - i,
    {
        let ch = n[i];
        let ghost before = out@;
        let ghost tail_u = pascal_from(n@, i as int + 1, false, is_upper(ch));
        let ghost tail_t = pascal_from(n@, i as int + 1, false, true);
        let ghost tail_f = pascal_from(n@, i as int + 1, false, false);
        if ch == 0x5f {
            next_upper = true;
            prev_upper = false;
        } else if next_upper {
            let up = if 0x61 <= ch && ch <= 0x7a {
                ch - 0x20
            } else {
                ch
            };
            out.push(up);
            next_upper = false;
            prev_upper = 0x41 <= ch && ch <= 0x5a;
            assert(before + (seq![up] + tail_u) =~= before.push(up) + tail_u);
        } else if 0x41 <= ch && ch <= 0x5a {
            let c = if prev_upper {
                ch + 0x20
            } else {
                ch
            };
            out.push(c);
            prev_upper = true;
            assert(before + (seq![c] + tail_t) =~= before.push(c) + tail_t);
        } else {
            out.push(ch);
            prev_upper = false;
            assert(before + (seq![ch] + tail_f) =~= before.push(ch) + tail_f);
        }
        i += 1;
    }
    assert(out@ + Seq::<u8>::empty() =~= out@);
    out
}

/// The PascalCase form of the schema name `name`, without its namespace.
pub fn to_pascal(name: &str) -> (s: String)
    ensures
        s@ == spec_lenient_text(spec_to_pascal(name.spec_bytes())),
{
    let out = pascal_bytes(name.as_bytes());
    lenient_text(out.as_slice())
}

// ─── definitions ─────────────────────────────────────────────────────────────
/// The name of the record for a definition.
pub fn def_type_name(def: &Definition) -> (s: String)
    ensures
        s@ == spec_lenient_text(spec_to_pascal(encode_utf8(def.name@))),
{
    to_pascal(def.name.as_str())
}

/// The name of the union for a type.
pub fn union_name(ty: &Type) -> (s: String)
    ensures
        s@ == spec_lenient_text(spec_to_pascal(encode_utf8(ty.name@))),
{
    to_pascal(ty.name.as_str())
}

/// The namespaces `ns`, each followed by `::`.
pub open spec fn spec_ns_path(ns: Seq<Seq<char>>) -> Seq<u8>
    decreases ns.len(),
{
    if ns.len() == 0 {
        Seq::empty()
    } else {
        spec_ns_path(ns.drop_last()) + encode_utf8(ns.last()) + "::".spec_bytes()
    }
}

/// Appends the namespaces `ns`, each followed by `::`, to `out`.
pub fn push_ns_path(out: &mut Vec<u8>, ns: &Vec<String>)
    ensures
        final(out)@ == old(out)@ + spec_ns_path(crate::parser::tl::texts(ns@)),
{
    let ghost all = crate::parser::tl::texts(ns@);
    let mut i: usize = 0;
    assert(all.take(0) =~= Seq::<Seq<char>>::empty());
    assert(old(out)@ + Seq::<u8>::empty() =~= old(out)@);
    while i < ns.len()
        invariant
            i <= ns.len(),
            all == crate::parser::tl::texts(ns@),
            out@ == old(out)@ + spec_ns_path(all.take(i as int)),
        decreases ns.len() - i,
    {
        proof {
            assert(all.take(i as int + 1).drop_last() =~= all.take(i as int));
            assert(all.take(i as int + 1).last() == ns@[i as int]@);
        }
        let ghost before = out@;
        push_all(out, ns[i].as_str().as_bytes());
        push_all(out, "::".as_bytes());
        assert(out@ =~= old(out)@ + (spec_ns_path(all.take(i as int)) + encode_utf8(ns@[i as int]@)
            + "::".spec_bytes()));
        i += 1;
    }
    assert(all.take(ns.len() as int) =~= all);
}

/// The path of the record for a definition: `crate::types::`, the
/// namespaces and the record's name.
pub open spec fn spec_def_qual_name(def: DefinitionView) -> Seq<u8> {
    "crate::types::".spec_bytes() + spec_ns_path(def.namespace) + spec_to_pascal(
        encode_utf8(def.name),
    )
}

/// The path of the record for a definition, as bytes.
pub fn def_qual_name_bytes(def: &Definition) -> (out: Vec<u8>)
    ensures
        out@ == spec_def_qual_name(def@),
{
    let mut out: Vec<u8> = Vec::new();
    push_all(&mut out, "crate::types::".as_bytes());
    push_ns_path(&mut out, &def.namespace);
    let name = pascal_bytes(def.name.as_str().as_bytes());
    push_all(&mut out, name.as_slice());
    assert(out@ =~= spec_def_qual_name(def@));
    out
}

/// The path of the record for a definition.
pub fn def_qual_name(def: &Definition) -> (s: String)
    ensures
        s@ == spec_lenient_text(spec_def_qual_name(def@)),
{
    let out = def_qual_name_bytes(def);
    lenient_text(out.as_slice())
}

/// The last place in `s` that holds a capital letter; zero if none does.
pub open spec fn last_upper(s: Seq<u8>) -> int
    decreases s.len(),
{
    if s.len() == 0 {
        0
    } else if is_upper(s.last()) {
        s.len() - 1
    } else {
        last_upper(s.drop_last())
    }
}

/// The name of the variant for a constructor named `full` in the union
/// named `ty`, both in PascalCase: `full` without a leading `ty`. Where
/// that leaves nothing, or something that starts with a digit, the variant
/// is called `full`. Where it leaves `Self`, which no variant can be
/// called, the variant is called by what stands in `full` from the last
/// capital before `Self` on.
pub open spec fn spec_variant_name(full: Seq<u8>, ty: Seq<u8>) -> Seq<u8> {
    let variant = if spec_starts_with(full, ty) {
        full.skip(ty.len() as int)
    } else {
        full
    };
    if variant == "Self".spec_bytes() {
        full.skip(last_upper(full.take(full.len() - 4)))
    } else if variant.len() == 0 || crate::text::is_digit(variant[0]) {
        full
    } else {
        variant
    }
}

/// Finds the last capital letter of `s`.
fn find_last_upper(s: &[u8]) -> (r: usize)
    ensures
        r == last_upper(s@),
        r <= s@.len(),
{
    let mut i: usize = s.len();
    assert(s@.take(i as int) =~= s@);
    while i > 0
        invariant
            i <= s@.len(),
            last_upper(s@) == last_upper(s@.take(i as int)),
        decreases i,
    {
        i -= 1;
        assert(s@.take(i as int + 1).last() == s@[i as int]);
        if 0x41 <= s[i] && s[i] <= 0x5a {
            return i;
        }
        assert(s@.take(i as int + 1).drop_last() =~= s@.take(i as int));
    }
    0
}

/// The name of the variant for the constructor `def` in its union.
pub fn def_variant_name(def: &Definition) -> (s: String)
    ensures
        s@ == spec_lenient_text(spec_def_variant_name(def@)),
{
    let out = def_variant_name_bytes(def);
    lenient_text(out.as_slice())
}

/// The name of the variant for a constructor in its union.
pub open spec fn spec_def_variant_name(def: DefinitionView) -> Seq<u8> {
    spec_variant_name(
        spec_to_pascal(encode_utf8(def.name)),
        spec_to_pascal(encode_utf8(def.ty.name)),
    )
}

/// The name of the variant for the constructor `def`, as bytes.
pub fn def_variant_name_bytes(def: &Definition) -> (out: Vec<u8>)
    ensures
        out@ == spec_def_variant_name(def@),
{
    let full = pascal_bytes(def.name.as_str().as_bytes());
    let ty = pascal_bytes(def.ty.name.as_str().as_bytes());
    let total = full.len();
    let variant = if starts_with(full.as_slice(), ty.as_slice()) {
        let v = copy_range(full.as_slice(), ty.len(), total);
        assert(v@ =~= full@.skip(ty@.len() as int));
        v
    } else {
        let v = copy_range(full.as_slice(), 0, total);
        assert(v@ =~= full@);
        v
    };
    let out = if bytes_eq(variant.as_slice(), "Self".as_bytes()) {
        proof {
            reveal_strlit("Self");
            assert("Self".spec_bytes().len() == 4) by {
                vstd::string::is_ascii_spec_bytes("Self");
            }
        }
        let head = copy_range(full.as_slice(), 0, total - 4);
        assert(head@ =~= full@.take(full@.len() - 4));
        let pos = find_last_upper(head.as_slice());
        let o = copy_range(full.as_slice(), pos, total);
        assert(o@ =~= full@.skip(pos as int));
        o
    } else if variant.len() == 0 || (0x30 <= variant[0] && variant[0] <= 0x39) {
        full
    } else {
        variant
    };
    out
}

// ─── types ───────────────────────────────────────────────────────────────────
/// The built-in `b` as the start of a path: an array between `<` and `>`,
/// a generic with `::` before its `<`, anything else as it is.
pub open spec fn spec_turbofish(b: Seq<u8>) -> Seq<u8> {
    if b.len() > 0 && b[0] == 0x5b {
        seq![0x3cu8] + b + seq![0x3eu8]
    } else {
        match index_of_from(b, 0x3c, 0) {
            Some(pos) => b.take(pos) + "::".spec_bytes() + b.skip(pos),
            None => b,
        }
    }
}

/// The path of a type that is no reference to a generic, before its
/// generic argument: the built-in type, or the record under `crate::types`
/// for a bare type, or the union under `crate::enums`.
pub open spec fn spec_type_base(ty: TypeView, turbofish: bool) -> Seq<u8> {
    match spec_builtin_type(encode_utf8(ty.name)) {
        Some(b) => if turbofish {
            spec_turbofish(b)
        } else {
            b
        },
        None => (if ty.bare {
            "crate::types::".spec_bytes()
        } else {
            "crate::enums::".spec_bytes()
        }) + spec_ns_path(ty.namespace) + spec_to_pascal(encode_utf8(ty.name)),
    }
}

/// The path of a type. A reference to a generic is the generic's name. A
/// generic argument follows between `<` and `>`, after `::` where the path
/// stands before a method.
pub open spec fn spec_type_path(ty: TypeView, turbofish: bool) -> Seq<u8>
    decreases ty,
{
    if ty.generic_ref {
        encode_utf8(ty.name)
    } else {
        spec_type_base(ty, turbofish) + (match ty.generic_arg {
            Some(arg) => (if turbofish {
                "::".spec_bytes()
            } else {
                Seq::empty()
            }) + seq![0x3cu8] + spec_type_path(*arg, false) + seq![0x3eu8],
            None => Seq::empty(),
        })
    }
}

/// The path of `ty` as bytes.
pub fn type_path_bytes(ty: &Type, turbofish: bool) -> (out: Vec<u8>)
    ensures
        out@ == spec_type_path(ty@, turbofish),
    decreases ty,
{
    if ty.generic_ref {
        let out = copy_range(ty.name.as_str().as_bytes(), 0, ty.name.as_str().as_bytes().len());
        assert(out@ =~= encode_utf8(ty.name@));
        return out;
    }
    let mut out: Vec<u8> = Vec::new();
    match builtin_type(ty.name.as_str()) {
        Some(b) => {
            let bb = b.as_bytes();
            if turbofish {
                if bb.len() > 0 && bb[0] == 0x5b {
                    out.push(0x3c);
                    push_all(&mut out, bb);
                    out.push(0x3e);
                    assert(out@ =~= spec_turbofish(bb@));
                } else {
                    match find_from(bb, 0x3c, 0) {
                        Some(pos) => {
                            let head = copy_range(bb, 0, pos);
                            let tail = copy_range(bb, pos, bb.len());
                            push_all(&mut out, head.as_slice());
                            push_all(&mut out, "::".as_bytes());
                            push_all(&mut out, tail.as_slice());
                            assert(out@ =~= spec_turbofish(bb@));
                        },
                        None => {
                            push_all(&mut out, bb);
                            assert(out@ =~= spec_turbofish(bb@));
                        },
                    }
                }
            } else {
                push_all(&mut out, bb);
            }
        },
        None => {
            if ty.bare {
                push_all(&mut out, "crate::types::".as_bytes());
            } else {
                push_all(&mut out, "crate::enums::".as_bytes());
            }
            push_ns_path(&mut out, &ty.namespace);
            let name = pascal_bytes(ty.name.as_str().as_bytes());
            push_all(&mut out, name.as_slice());
        },
    }
    assert(out@ =~= spec_type_base(ty@, turbofish));
    match &ty.generic_arg {
        Some(arg) => {
            if turbofish {
                push_all(&mut out, "::".as_bytes());
            }
            out.push(0x3c);
            let inner = type_path_bytes(arg, false);
            push_all(&mut out, inner.as_slice());
            out.push(0x3e);
            assert(out@ =~= spec_type_path(ty@, turbofish));
        },
        None => {
            assert(out@ =~= spec_type_path(ty@, turbofish));
        },
    }
    out
}

/// The path of a type, as in `crate::enums::InputPeer` or `Vec<i64>`.
pub fn type_qual_name(ty: &Type) -> (s: String)
    ensures
        s@ == spec_lenient_text(spec_type_path(ty@, false)),
{
    let out = type_path_bytes(ty, false);
    lenient_text(out.as_slice())
}

/// The path of a type where a method follows, as in `Vec::<i64>`.
pub fn type_item_path(ty: &Type) -> (s: String)
    ensures
        s@ == spec_lenient_text(spec_type_path(ty@, true)),
{
    let out = type_path_bytes(ty, true);
    lenient_text(out.as_slice())
}

// ─── parameters ──────────────────────────────────────────────────────────────
/// The name of the field for the parameter named `name`: the name in lower
/// case, and for the names that are reserved words a name that is none.
pub open spec fn spec_param_attr_name(name: Seq<u8>) -> Seq<u8> {
    if name == "final".spec_bytes() {
        "r#final".spec_bytes()
    } else if name == "loop".spec_bytes() {
        "r#loop".spec_bytes()
    } else if name == "self".spec_bytes() {
        "is_self".spec_bytes()
    } else if name == "static".spec_bytes() {
        "r#static".spec_bytes()
    } else if name == "type".spec_bytes() {
        "r#type".spec_bytes()
    } else {
        Seq::new(name.len(), |i: int| to_lower(name[i]))
    }
}

/// The name of the field for a parameter.
pub fn param_attr_name(param: &Parameter) -> (s: String)
    ensures
        s@ == spec_lenient_text(spec_param_attr_name(encode_utf8(param.name@))),
{
    let out = param_attr_name_bytes(param);
    lenient_text(out.as_slice())
}

/// The name of the field for a parameter, as bytes.
pub fn param_attr_name_bytes(param: &Parameter) -> (out: Vec<u8>)
    ensures
        out@ == spec_param_attr_name(encode_utf8(param.name@)),
{
    let n = param.name.as_str().as_bytes();
    let mut out: Vec<u8> = Vec::new();
    if bytes_eq(n, "final".as_bytes()) {
        push_all(&mut out, "r#final".as_bytes());
    } else if bytes_eq(n, "loop".as_bytes()) {
        push_all(&mut out, "r#loop".as_bytes());
    } else if bytes_eq(n, "self".as_bytes()) {
        push_all(&mut out, "is_self".as_bytes());
    } else if bytes_eq(n, "static".as_bytes()) {
        push_all(&mut out, "r#static".as_bytes());
    } else if bytes_eq(n, "type".as_bytes()) {
        push_all(&mut out, "r#type".as_bytes());
    } else {
        let mut i: usize = 0;
        while i < n.len()
            invariant
                i <= n@.len(),
                out@.len() == i,
                forall|k: int| 0 <= k < i ==> out@[k] == to_lower(n@[k]),
            decreases n@.len() - i,
        {
            let ch = n[i];
            out.push(
                if 0x41 <= ch && ch <= 0x5a {
                    ch + 0x20
                } else {
                    ch
                },
            );
            i += 1;
        }
        assert(out@ =~= Seq::new(n@.len(), |i: int| to_lower(n@[i])));
    }
    out
}

/// The type of the field for a parameter: `u32` for a flags field, `bool`
/// for a flag of the type `true`, the type's path otherwise, inside
/// `Option<…>` where a flag guards the parameter.
pub open spec fn spec_param_qual_name(ty: ParameterTypeView) -> Seq<u8> {
    match ty {
        ParameterTypeView::Flags => "u32".spec_bytes(),
        ParameterTypeView::Normal { ty, flag } => if flag is Some && encode_utf8(ty.name)
            == "true".spec_bytes() {
            "bool".spec_bytes()
        } else if flag is Some {
            "Option<".spec_bytes() + spec_type_path(ty, false) + seq![0x3eu8]
        } else {
            spec_type_path(ty, false)
        },
    }
}

/// The type of the field for a parameter.
pub fn param_qual_name(param: &Parameter) -> (s: String)
    ensures
        s@ == spec_lenient_text(spec_param_qual_name(param.ty@)),
{
    let out = param_qual_name_bytes(param);
    lenient_text(out.as_slice())
}

/// The type of the field for a parameter, as bytes.
pub fn param_qual_name_bytes(param: &Parameter) -> (out: Vec<u8>)
    ensures
        out@ == spec_param_qual_name(param.ty@),
{
    let mut out: Vec<u8> = Vec::new();
    match &param.ty {
        ParameterType::Flags => {
            push_all(&mut out, "u32".as_bytes());
        },
        ParameterType::Normal { ty, flag } => {
            if flag.is_some() && bytes_eq(ty.name.as_str().as_bytes(), "true".as_bytes()) {
                push_all(&mut out, "bool".as_bytes());
            } else if flag.is_some() {
                push_all(&mut out, "Option<".as_bytes());
                let inner = type_path_bytes(ty, false);
                push_all(&mut out, inner.as_slice());
                out.push(0x3e);
            } else {
                out = type_path_bytes(ty, false);
            }
        },
    }
    assert(out@ =~= spec_param_qual_name(param.ty@));
    out
}

} // verus!
