//! Numbers and definitions as text.

use vstd::prelude::*;
use vstd::string::StringSliceAdditionalSpecFns;
use vstd::utf8::encode_utf8;
use crate::parser::tl::{
    texts, Definition, DefinitionView, Flag, FlagView, Parameter, ParameterType, ParameterTypeView,
    ParameterView, Type, TypeView,
};
use crate::text::{contains_bytes, insert_into_sorted, insert_sorted, views};
use crate::tl::wire::{copy_range, push_all};

verus! {

/// The bytes of a text.
pub open spec fn lit(s: &str) -> Seq<u8> {
    s.spec_bytes()
}

/// Appends the text `s` to `out`.
pub fn emit(out: &mut Vec<u8>, s: &str)
    ensures
        final(out)@ == old(out)@ + lit(s),
{
    push_all(out, s.as_bytes());
}

/// The digit for `d` in lower-case hexadecimal.
pub open spec fn hex_char(d: u32) -> u8 {
    if d < 10 {
        (0x30 + d) as u8
    } else {
        (0x61 + d - 10) as u8
    }
}

/// The digit for `d`.
pub fn hex_digit_of(d: u32) -> (c: u8)
    requires
        d < 16,
    ensures
        c == hex_char(d),
{
    if d < 10 {
        (0x30 + d) as u8
    } else {
        (0x61 + d - 10) as u8
    }
}

/// `v` in lower-case hexadecimal, without leading zeros.
pub open spec fn spec_hex(v: u32) -> Seq<u8>
    decreases v,
{
    if v < 16 {
        seq![hex_char(v)]
    } else {
        spec_hex(v / 16).push(hex_char(v % 16))
    }
}

/// `v` in decimal.
pub open spec fn spec_decimal_u32(v: u32) -> Seq<u8>
    decreases v,
{
    if v < 10 {
        seq![(0x30 + v) as u8]
    } else {
        spec_decimal_u32(v / 10).push((0x30 + v % 10) as u8)
    }
}

/// `v` as `0x` and eight hexadecimal digits.
pub open spec fn spec_hex10(v: u32) -> Seq<u8> {
    seq![
        0x30u8,
        0x78u8,
        hex_char((v >> 28) & 0xf),
        hex_char((v >> 24) & 0xf),
        hex_char((v >> 20) & 0xf),
        hex_char((v >> 16) & 0xf),
        hex_char((v >> 12) & 0xf),
        hex_char((v >> 8) & 0xf),
        hex_char((v >> 4) & 0xf),
        hex_char(v & 0xf),
    ]
}

/// Four bits of `v`, `shift` bits above the lowest.
fn nibble(v: u32, shift: u32) -> (d: u32)
    requires
        shift < 32,
    ensures
        d == (v >> shift) & 0xf,
        d < 16,
{
    let d: u32 = (v >> shift) & 0xf;
    assert(d < 16) by (bit_vector)
        requires
            d == (v >> shift) & 0xf,
    ;
    d
}

/// Appends `v` as `0x` and eight hexadecimal digits.
pub fn push_hex10(out: &mut Vec<u8>, v: u32)
    ensures
        final(out)@ == old(out)@ + spec_hex10(v),
{
    out.push(0x30);
    out.push(0x78);
    out.push(hex_digit_of(nibble(v, 28)));
    out.push(hex_digit_of(nibble(v, 24)));
    out.push(hex_digit_of(nibble(v, 20)));
    out.push(hex_digit_of(nibble(v, 16)));
    out.push(hex_digit_of(nibble(v, 12)));
    out.push(hex_digit_of(nibble(v, 8)));
    out.push(hex_digit_of(nibble(v, 4)));
    let last = nibble(v, 0);
    assert(last == v & 0xf) by (bit_vector)
        requires
            last == (v >> 0u32) & 0xf,
    ;
    out.push(hex_digit_of(last));
    assert(out@ =~= old(out)@ + spec_hex10(v));
}

/// Appends `v` in hexadecimal without leading zeros.
pub fn push_hex(out: &mut Vec<u8>, v: u32)
    ensures
        final(out)@ == old(out)@ + spec_hex(v),
    decreases v,
{
    if v < 16 {
        out.push(hex_digit_of(v));
        assert(out@ =~= old(out)@ + spec_hex(v));
    } else {
        push_hex(out, v / 16);
        out.push(hex_digit_of(v % 16));
        assert(out@ =~= old(out)@ + spec_hex(v));
    }
}

/// Appends `v` in decimal.
pub fn push_decimal(out: &mut Vec<u8>, v: u32)
    ensures
        final(out)@ == old(out)@ + spec_decimal_u32(v),
    decreases v,
{
    if v < 10 {
        out.push((0x30 + v) as u8);
        assert(out@ =~= old(out)@ + spec_decimal_u32(v));
    } else {
        push_decimal(out, v / 10);
        out.push((0x30 + v % 10) as u8);
        assert(out@ =~= old(out)@ + spec_decimal_u32(v));
    }
}

/// The namespaces `ns`, each followed by a dot.
pub open spec fn spec_dotted(ns: Seq<Seq<char>>) -> Seq<u8>
    decreases ns.len(),
{
    if ns.len() == 0 {
        Seq::empty()
    } else {
        spec_dotted(ns.drop_last()) + encode_utf8(ns.last()) + seq![0x2eu8]
    }
}

/// Appends the namespaces `ns`, each followed by a dot.
pub fn push_dotted(out: &mut Vec<u8>, ns: &Vec<String>)
    ensures
        final(out)@ == old(out)@ + spec_dotted(texts(ns@)),
{
    let ghost all = texts(ns@);
    let mut i: usize = 0;
    assert(all.take(0) =~= Seq::<Seq<char>>::empty());
    assert(old(out)@ + Seq::<u8>::empty() =~= old(out)@);
    while i < ns.len()
        invariant
            i <= ns.len(),
            all == texts(ns@),
            out@ == old(out)@ + spec_dotted(all.take(i as int)),
        decreases ns.len() - i,
    {
        proof {
            assert(all.take(i as int + 1).drop_last() =~= all.take(i as int));
            assert(all.take(i as int + 1).last() == ns@[i as int]@);
        }
        push_all(out, ns[i].as_str().as_bytes());
        out.push(0x2e);
        assert(out@ =~= old(out)@ + (spec_dotted(all.take(i as int)) + encode_utf8(ns@[i as int]@)
            + seq![0x2eu8]));
        i += 1;
    }
    assert(all.take(ns.len() as int) =~= all);
}

/// The name of a definition with its namespaces.
pub open spec fn spec_full_name(def: DefinitionView) -> Seq<u8> {
    spec_dotted(def.namespace) + encode_utf8(def.name)
}

/// Appends the name of `def` with its namespaces.
pub fn push_full_name(out: &mut Vec<u8>, def: &Definition)
    ensures
        final(out)@ == old(out)@ + spec_full_name(def@),
{
    push_dotted(out, &def.namespace);
    push_all(out, def.name.as_str().as_bytes());
    assert(out@ =~= old(out)@ + spec_full_name(def@));
}

/// A type as the schema writes it.
pub open spec fn spec_type_text(ty: TypeView) -> Seq<u8>
    decreases ty,
{
    spec_dotted(ty.namespace) + (if ty.generic_ref {
        seq![0x21u8]
    } else {
        Seq::empty()
    }) + encode_utf8(ty.name) + (match ty.generic_arg {
        Some(arg) => seq![0x3cu8] + spec_type_text(*arg) + seq![0x3eu8],
        None => Seq::empty(),
    })
}

/// Appends `ty` as the schema writes it.
pub fn push_type_text(out: &mut Vec<u8>, ty: &Type)
    ensures
        final(out)@ == old(out)@ + spec_type_text(ty@),
    decreases ty,
{
    push_dotted(out, &ty.namespace);
    if ty.generic_ref {
        out.push(0x21);
    }
    push_all(out, ty.name.as_str().as_bytes());
    match &ty.generic_arg {
        Some(arg) => {
            out.push(0x3c);
            push_type_text(out, arg);
            out.push(0x3e);
            assert(out@ =~= old(out)@ + spec_type_text(ty@));
        },
        None => {
            assert(out@ =~= old(out)@ + spec_type_text(ty@));
        },
    }
}

/// A parameter as the schema writes it.
pub open spec fn spec_param_text(p: ParameterView) -> Seq<u8> {
    encode_utf8(p.name) + seq![0x3au8] + (match p.ty {
        ParameterTypeView::Flags => seq![0x23u8],
        ParameterTypeView::Normal { ty, flag } => (match flag {
            Some(f) => encode_utf8(f.name) + seq![0x2eu8] + spec_decimal_u32(f.index) + seq![
                0x3fu8,
            ],
            None => Seq::empty(),
        }) + spec_type_text(ty),
    })
}

/// Appends `p` as the schema writes it.
pub fn push_param_text(out: &mut Vec<u8>, p: &Parameter)
    ensures
        final(out)@ == old(out)@ + spec_param_text(p@),
{
    push_all(out, p.name.as_str().as_bytes());
    out.push(0x3a);
    match &p.ty {
        ParameterType::Flags => {
            out.push(0x23);
            assert(out@ =~= old(out)@ + spec_param_text(p@));
        },
        ParameterType::Normal { ty, flag } => {
            match flag {
                Some(f) => {
                    push_all(out, f.name.as_str().as_bytes());
                    out.push(0x2e);
                    push_decimal(out, f.index);
                    out.push(0x3f);
                },
                None => {},
            }
            push_type_text(out, ty);
            assert(out@ =~= old(out)@ + spec_param_text(p@));
        },
    }
}

/// The generics that `ty` refers to, with those collected before in
/// `names`, which is ordered and holds each name once.
pub open spec fn spec_collect_refs(names: Seq<Seq<u8>>, ty: TypeView) -> Seq<Seq<u8>>
    decreases ty,
{
    let own = if ty.generic_ref && !names.contains(encode_utf8(ty.name)) {
        insert_sorted(names, encode_utf8(ty.name))
    } else {
        names
    };
    match ty.generic_arg {
        Some(arg) => spec_collect_refs(own, *arg),
        None => own,
    }
}

/// Collects the generics that `ty` refers to.
pub fn collect_refs(names: &mut Vec<Vec<u8>>, ty: &Type)
    ensures
        views(final(names)@) == spec_collect_refs(views(old(names)@), ty@),
    decreases ty,
{
    if ty.generic_ref {
        let b = ty.name.as_str().as_bytes();
        if !contains_bytes(names, b) {
            let n = copy_range(b, 0, b.len());
            assert(n@ =~= encode_utf8(ty.name@));
            insert_into_sorted(names, n);
        }
    }
    match &ty.generic_arg {
        Some(arg) => {
            collect_refs(names, arg);
        },
        None => {},
    }
}

/// The generics that the first `n` parameters refer to, ordered, each
/// once.
pub open spec fn spec_generic_refs(params: Seq<ParameterView>, n: int) -> Seq<Seq<u8>>
    decreases n,
{
    if n <= 0 {
        Seq::empty()
    } else {
        let before = spec_generic_refs(params, n - 1);
        match params[n - 1].ty {
            ParameterTypeView::Normal { ty, .. } => spec_collect_refs(before, ty),
            _ => before,
        }
    }
}

/// The declarations ` {X:Type}` for the first `n` of `names`.
pub open spec fn spec_generic_decls(names: Seq<Seq<u8>>, n: int) -> Seq<u8>
    decreases n,
{
    if n <= 0 {
        Seq::empty()
    } else {
        spec_generic_decls(names, n - 1) + lit(" {") + names[n - 1] + lit(":Type}")
    }
}

/// The first `n` parameters, each behind a space.
pub open spec fn spec_params_text(params: Seq<ParameterView>, n: int) -> Seq<u8>
    decreases n,
{
    if n <= 0 {
        Seq::empty()
    } else {
        spec_params_text(params, n - 1) + seq![0x20u8] + spec_param_text(params[n - 1])
    }
}

/// A definition as the schema writes it: the name with its namespaces,
/// `#` and the ID in hexadecimal, the generics that the parameters refer to,
/// the parameters, `=` and the type.
pub open spec fn spec_definition_text(def: DefinitionView) -> Seq<u8> {
    let generics = spec_generic_refs(def.params, def.params.len() as int);
    spec_full_name(def) + seq![0x23u8] + spec_hex(def.id) + spec_generic_decls(
        generics,
        generics.len() as int,
    ) + spec_params_text(def.params, def.params.len() as int) + lit(" = ") + spec_type_text(
        def.ty,
    )
}

/// Appends `def` as the schema writes it.
pub fn push_definition_text(out: &mut Vec<u8>, def: &Definition)
    ensures
        final(out)@ == old(out)@ + spec_definition_text(def@),
{
    push_full_name(out, def);
    out.push(0x23);
    push_hex(out, def.id);
    let ghost params = def@.params;
    let mut generics: Vec<Vec<u8>> = Vec::new();
    let mut i: usize = 0;
    assert(views(generics@) =~= Seq::<Seq<u8>>::empty());
    while i < def.params.len()
        invariant
            i <= def.params@.len(),
            params == def@.params,
            views(generics@) == spec_generic_refs(params, i as int),
        decreases def.params@.len() - i,
    {
        assert(params[i as int] == def.params@[i as int]@);
        match &def.params[i].ty {
            ParameterType::Normal { ty, .. } => {
                collect_refs(&mut generics, ty);
            },
            _ => {},
        }
        i += 1;
    }
    let ghost head = out@;
    let ghost names = views(generics@);
    let mut g: usize = 0;
    assert(head + Seq::<u8>::empty() =~= head);
    while g < generics.len()
        invariant
            g <= generics@.len(),
            names == views(generics@),
            out@ == head + spec_generic_decls(names, g as int),
        decreases generics@.len() - g,
    {
        emit(out, " {");
        push_all(out, generics[g].as_slice());
        emit(out, ":Type}");
        assert(names[g as int] == generics@[g as int]@);
        assert(out@ =~= head + (spec_generic_decls(names, g as int) + lit(" {") + names[g as int]
            + lit(":Type}")));
        g += 1;
    }
    let ghost mid = out@;
    let mut k: usize = 0;
    assert(mid + Seq::<u8>::empty() =~= mid);
    while k < def.params.len()
        invariant
            k <= def.params@.len(),
            params == def@.params,
            out@ == mid + spec_params_text(params, k as int),
        decreases def.params@.len() - k,
    {
        assert(params[k as int] == def.params@[k as int]@);
        out.push(0x20);
        push_param_text(out, &def.params[k]);
        assert(out@ =~= mid + (spec_params_text(params, k as int) + seq![0x20u8]
            + spec_param_text(params[k as int])));
        k += 1;
    }
    emit(out, " = ");
    push_type_text(out, &def.ty);
    assert(out@ =~= old(out)@ + spec_definition_text(def@));
}

impl Definition {
    /// The definition as the schema writes it.
    pub fn to_string(&self) -> (s: String)
        ensures
            s@ == crate::client::session::spec_lenient_text(spec_definition_text(self@)),
    {
        let mut out: Vec<u8> = Vec::new();
        push_definition_text(&mut out, self);
        assert(out@ =~= spec_definition_text(self@));
        crate::client::session::lenient_text(out.as_slice())
    }
}

impl Type {
    /// The type as the schema writes it.
    pub fn to_string(&self) -> (s: String)
        ensures
            s@ == crate::client::session::spec_lenient_text(spec_type_text(self@)),
    {
        let mut out: Vec<u8> = Vec::new();
        push_type_text(&mut out, self);
        assert(out@ =~= spec_type_text(self@));
        crate::client::session::lenient_text(out.as_slice())
    }
}

impl Parameter {
    /// The parameter as the schema writes it.
    pub fn to_string(&self) -> (s: String)
        ensures
            s@ == crate::client::session::spec_lenient_text(spec_param_text(self@)),
    {
        let mut out: Vec<u8> = Vec::new();
        push_param_text(&mut out, self);
        assert(out@ =~= spec_param_text(self@));
        crate::client::session::lenient_text(out.as_slice())
    }
}

/// The names of the generics that the typed parameters among the first `n`
/// refer to directly, in the order in which they come, each once.
pub open spec fn spec_generic_params(params: Seq<ParameterView>, n: int) -> Seq<Seq<u8>>
    decreases n,
{
    if n <= 0 {
        Seq::empty()
    } else {
        let before = spec_generic_params(params, n - 1);
        match params[n - 1].ty {
            ParameterTypeView::Normal { ty, .. } => if ty.generic_ref && !before.contains(
                encode_utf8(ty.name),
            ) {
                before.push(encode_utf8(ty.name))
            } else {
                before
            },
            _ => before,
        }
    }
}

/// The first `n` of `names`, each followed by `bounds`, with `, ` between
/// them.
pub open spec fn spec_bounded(names: Seq<Seq<u8>>, bounds: Seq<u8>, n: int) -> Seq<u8>
    decreases n,
{
    if n <= 0 {
        Seq::empty()
    } else if n == 1 {
        names[0] + bounds
    } else {
        spec_bounded(names, bounds, n - 1) + lit(", ") + names[n - 1] + bounds
    }
}

/// The list of the generics of a definition between `<` and `>`, each with
/// `bounds` behind it; nothing for a definition without generics.
pub open spec fn spec_generic_list(def: DefinitionView, bounds: Seq<u8>) -> Seq<u8> {
    let names = spec_generic_params(def.params, def.params.len() as int);
    if names.len() == 0 {
        Seq::empty()
    } else {
        seq![0x3cu8] + spec_bounded(names, bounds, names.len() as int) + seq![0x3eu8]
    }
}

/// The list of the generics of `def`, each with `bounds` behind it.
pub fn generic_list(def: &Definition, bounds: &str) -> (out: Vec<u8>)
    ensures
        out@ == spec_generic_list(def@, lit(bounds)),
{
    let ghost params = def@.params;
    let mut names: Vec<Vec<u8>> = Vec::new();
    let mut i: usize = 0;
    assert(views(names@) =~= Seq::<Seq<u8>>::empty());
    while i < def.params.len()
        invariant
            i <= def.params@.len(),
            params == def@.params,
            views(names@) == spec_generic_params(params, i as int),
        decreases def.params@.len() - i,
    {
        assert(params[i as int] == def.params@[i as int]@);
        match &def.params[i].ty {
            ParameterType::Normal { ty, .. } => {
                let b = ty.name.as_str().as_bytes();
                if ty.generic_ref && !contains_bytes(&names, b) {
                    let n = copy_range(b, 0, b.len());
                    assert(n@ =~= encode_utf8(ty.name@));
                    let ghost before = views(names@);
                    names.push(n);
                    assert(views(names@) =~= before.push(encode_utf8(ty.name@)));
                }
            },
            _ => {},
        }
        i += 1;
    }
    let mut out: Vec<u8> = Vec::new();
    if names.len() == 0 {
        return out;
    }
    out.push(0x3c);
    let ghost all = views(names@);
    let mut k: usize = 0;
    while k < names.len()
        invariant
            k <= names@.len(),
            all == views(names@),
            out@ == seq![0x3cu8] + spec_bounded(all, lit(bounds), k as int),
        decreases names@.len() - k,
    {
        assert(all[k as int] == names@[k as int]@);
        if k > 0 {
            emit(&mut out, ", ");
        }
        push_all(&mut out, names[k].as_slice());
        emit(&mut out, bounds);
        proof {
            if k == 0 {
                assert(out@ =~= seq![0x3cu8] + (all[0] + lit(bounds)));
            } else {
                assert(out@ =~= seq![0x3cu8] + (spec_bounded(all, lit(bounds), k as int) + lit(
                    ", ",
                ) + all[k as int] + lit(bounds)));
            }
        }
        k += 1;
    }
    out.push(0x3e);
    assert(out@ =~= spec_generic_list(def@, lit(bounds)));
    out
}

} // verus!
