//! The text of the modules that a schema gives: a record for each
//! constructor and each function, a union for each type, and the impls that
//! write them to bytes and read them back.

use vstd::prelude::*;
use vstd::utf8::encode_utf8;
use crate::codegen::format::{
    emit, generic_list, lit, push_decimal, push_definition_text, push_full_name, push_hex10,
    spec_decimal_u32, spec_definition_text, spec_full_name, spec_generic_list, spec_hex10,
};
use crate::codegen::grouper::{
    defs_view, group_by_ns, group_types_by_ns, groups_view, spec_group_by_ns,
    spec_group_types_by_ns, Group, GroupView,
};
use crate::codegen::metadata::{
    defs_for_type, is_unused_flag, spec_defs_for_type, spec_is_recursive, spec_is_unused_flag,
    Metadata,
};
use crate::codegen::namegen::{
    def_qual_name_bytes, def_variant_name_bytes, param_attr_name_bytes, param_qual_name_bytes,
    pascal_bytes, spec_def_qual_name, spec_def_variant_name, spec_param_attr_name,
    spec_param_qual_name, spec_to_pascal, spec_type_path, type_path_bytes,
};
use crate::parser::tl::{
    Category, Definition, DefinitionView, Parameter, ParameterType, ParameterTypeView,
    ParameterView, Type, TypeView,
};
use crate::tl::wire::{bytes_eq, push_all};

verus! {

/// What the generator writes besides the records and unions.
#[derive(Clone, Copy, Debug, PartialEq, Eq)]
pub struct Config {
    /// Write the table from constructor IDs to names.
    pub gen_name_for_id: bool,
    /// Let the records of functions be read back from bytes too.
    pub deserializable_functions: bool,
    /// Derive `Debug` on every record and union.
    pub impl_debug: bool,
    /// Write the conversion from each record to its union.
    pub impl_from_type: bool,
    /// Write the conversion from each union back to its records.
    pub impl_from_enum: bool,
    /// Derive serde's traits on every record and union.
    pub impl_serde: bool,
}

impl Default for Config {
    /// Neither the table of names nor reading of functions nor serde; `Debug`
    /// and both conversions.
    fn default() -> (c: Self)
        ensures
            c == (Config {
                gen_name_for_id: false,
                deserializable_functions: false,
                impl_debug: true,
                impl_from_type: true,
                impl_from_enum: true,
                impl_serde: false,
            }),
    {
        Config {
            gen_name_for_id: false,
            deserializable_functions: false,
            impl_debug: true,
            impl_from_type: true,
            impl_from_enum: true,
            impl_serde: false,
        }
    }
}

/// Nothing appended leaves a text as it is.
pub proof fn lemma_nothing(a: Seq<u8>)
    ensures
        a + Seq::<u8>::empty() == a,
{
    assert(a + Seq::<u8>::empty() =~= a);
}

/// Appending two texts in turn appends the two joined.
pub proof fn lemma_joined(a: Seq<u8>, b: Seq<u8>, c: Seq<u8>)
    ensures
        (a + b) + c == a + (b + c),
{
    assert((a + b) + c =~= a + (b + c));
}

/// Whether `def` is a constructor.
pub fn is_constructor(def: &Definition) -> (r: bool)
    ensures
        r == (def@.category == Category::Types),
{
    match def.category {
        Category::Types => true,
        Category::Functions => false,
    }
}

/// Whether a parameter is a flags field.
pub fn is_flags_field(param: &Parameter) -> (r: bool)
    ensures
        r == (param@.ty is Flags),
{
    match &param.ty {
        ParameterType::Flags => true,
        ParameterType::Normal { .. } => false,
    }
}

/// Whether a type is the type `true`, which only a flag bit carries.
pub open spec fn is_switch(ty: TypeView) -> bool {
    encode_utf8(ty.name) == lit("true")
}

/// Whether `ty` is the type `true`.
pub fn is_switch_type(ty: &Type) -> (r: bool)
    ensures
        r == is_switch(ty@),
{
    bytes_eq(ty.name.as_str().as_bytes(), "true".as_bytes())
}


/// The field of a record for a parameter: nothing for a flags field.
pub open spec fn spec_struct_field(ind: Seq<u8>, pv: ParameterView) -> Seq<u8> {
    (if pv.ty is Flags { Seq::<u8>::empty() } else { ind + lit("    pub ") + spec_param_attr_name(encode_utf8(pv.name)) + lit(": ") + spec_param_qual_name(pv.ty) + lit(",\n") })
}

/// Appends: the field of a record for a parameter: nothing for a flags field.
pub fn write_struct_field(out: &mut Vec<u8>, indent: &[u8], param: &Parameter)
    ensures
        final(out)@ == old(out)@ + spec_struct_field(indent@, param@),
{
    let ghost ind = indent@;
    let ghost pv = param@;
    let attr = param_attr_name_bytes(param);
    let qual = param_qual_name_bytes(param);
    let ghost mark1 = out@;
    if is_flags_field(param) {
        proof { lemma_nothing(mark1); }
    } else {
        push_all(out, indent);
        let ghost mark2 = ind;
        assert(out@ == mark1 + mark2);
        emit(out, "    pub ");
        let ghost mark3 = mark2 + lit("    pub ");
        proof { lemma_joined(mark1, mark2, lit("    pub ")); }
        assert(out@ == mark1 + mark3);
        push_all(out, attr.as_slice());
        let ghost mark4 = mark3 + spec_param_attr_name(encode_utf8(pv.name));
        proof { lemma_joined(mark1, mark3, spec_param_attr_name(encode_utf8(pv.name))); }
        assert(out@ == mark1 + mark4);
        emit(out, ": ");
        let ghost mark5 = mark4 + lit(": ");
        proof { lemma_joined(mark1, mark4, lit(": ")); }
        assert(out@ == mark1 + mark5);
        push_all(out, qual.as_slice());
        let ghost mark6 = mark5 + spec_param_qual_name(pv.ty);
        proof { lemma_joined(mark1, mark5, spec_param_qual_name(pv.ty)); }
        assert(out@ == mark1 + mark6);
        emit(out, ",\n");
        let ghost mark7 = mark6 + lit(",\n");
        proof { lemma_joined(mark1, mark6, lit(",\n")); }
        assert(out@ == mark1 + mark7);
    }
    let ghost mark8 = (if pv.ty is Flags { Seq::<u8>::empty() } else { ind + lit("    pub ") + spec_param_attr_name(encode_utf8(pv.name)) + lit(": ") + spec_param_qual_name(pv.ty) + lit(",\n") });
    assert(out@ == old(out)@ + mark8);
}

/// The fields of the record for a definition.
/// The first `n` of them.
pub open spec fn spec_struct_fields(ind: Seq<u8>, dv: DefinitionView, n: int) -> Seq<u8>
    decreases n,
{
    if n <= 0 {
        Seq::empty()
    } else {
        spec_struct_fields(ind, dv, n - 1) + (spec_struct_field(ind, dv.params[n - 1]))
    }
}

/// Appends: the fields of the record for a definition.
pub fn write_struct_fields(out: &mut Vec<u8>, indent: &[u8], def: &Definition)
    ensures
        final(out)@ == old(out)@ + spec_struct_fields(indent@, def@, def@.params.len() as int),
{
    let ghost ind = indent@;
    let ghost dv = def@;
    let mut i: usize = 0;
    let count: usize = def.params.len();
    proof { lemma_nothing(old(out)@); }
    while i < count
        invariant
            i <= count,
            count == dv.params.len(),
            ind == indent@,
            dv == def@,
            out@ == old(out)@ + spec_struct_fields(ind, dv, i as int),
        decreases count - i,
    {
        let ghost before = out@;
        assert(dv.params[i as int] == def.params@[i as int]@);
        write_struct_field(out, indent, &def.params[i]);
        let ghost mark1 = spec_struct_field(ind, dv.params[i as int]);
        assert(out@ == before + mark1);
        proof { lemma_joined(old(out)@, spec_struct_fields(ind, dv, i as int), spec_struct_field(ind, dv.params[i as int])); }
        i += 1;
    }
}

/// The record for a definition: the comment that names it, the derives that
/// `cfg` asks for, and the fields.
pub open spec fn spec_struct(ind: Seq<u8>, dv: DefinitionView, cfg: Config) -> Seq<u8> {
    lit("\n") + ind + lit("/// [`") + spec_full_name(dv) + lit("`](https://core.telegram.org/") + (if dv.category == Category::Types { lit("constructor") } else { lit("method") }) + lit("/") + spec_full_name(dv) + lit(")\n") + ind + lit("///\n") + ind + lit("/// Generated from:\n") + ind + lit("/// ```tl\n") + ind + lit("/// ") + spec_definition_text(dv) + lit("\n") + ind + lit("/// ```\n") + (if cfg.impl_debug { ind + lit("#[derive(Debug)]\n") } else { Seq::<u8>::empty() }) + (if cfg.impl_serde { ind + lit("#[derive(serde::Serialize, serde::Deserialize)]\n") } else { Seq::<u8>::empty() }) + ind + lit("#[derive(Clone, PartialEq)]\n") + ind + lit("pub struct ") + spec_to_pascal(encode_utf8(dv.name)) + spec_generic_list(dv, lit("")) + lit(" {\n") + spec_struct_fields(ind, dv, dv.params.len() as int) + ind + lit("}\n")
}

/// Appends: the record for a definition: the comment that names it, the derives that
/// `cfg` asks for, and the fields.
pub fn write_struct(out: &mut Vec<u8>, indent: &[u8], def: &Definition, config: &Config)
    ensures
        final(out)@ == old(out)@ + spec_struct(indent@, def@, *config),
{
    let ghost ind = indent@;
    let ghost dv = def@;
    let ghost cfg = *config;
    let tn = pascal_bytes(def.name.as_str().as_bytes());
    let gl = generic_list(def, "");
    emit(out, "\n");
    let ghost mark1 = lit("\n");
    assert(out@ == old(out)@ + mark1);
    push_all(out, indent);
    let ghost mark2 = mark1 + ind;
    proof { lemma_joined(old(out)@, mark1, ind); }
    assert(out@ == old(out)@ + mark2);
    emit(out, "/// [`");
    let ghost mark3 = mark2 + lit("/// [`");
    proof { lemma_joined(old(out)@, mark2, lit("/// [`")); }
    assert(out@ == old(out)@ + mark3);
    push_full_name(out, def);
    let ghost mark4 = mark3 + spec_full_name(dv);
    proof { lemma_joined(old(out)@, mark3, spec_full_name(dv)); }
    assert(out@ == old(out)@ + mark4);
    emit(out, "`](https://core.telegram.org/");
    let ghost mark5 = mark4 + lit("`](https://core.telegram.org/");
    proof { lemma_joined(old(out)@, mark4, lit("`](https://core.telegram.org/")); }
    assert(out@ == old(out)@ + mark5);
    let ghost mark6 = out@;
    if is_constructor(def) {
        emit(out, "constructor");
        let ghost mark7 = lit("constructor");
        assert(out@ == mark6 + mark7);
    } else {
        emit(out, "method");
        let ghost mark8 = lit("method");
        assert(out@ == mark6 + mark8);
    }
    let ghost mark9 = mark5 + (if dv.category == Category::Types { lit("constructor") } else { lit("method") });
    proof { lemma_joined(old(out)@, mark5, (if dv.category == Category::Types { lit("constructor") } else { lit("method") })); }
    assert(out@ == old(out)@ + mark9);
    emit(out, "/");
    let ghost mark10 = mark9 + lit("/");
    proof { lemma_joined(old(out)@, mark9, lit("/")); }
    assert(out@ == old(out)@ + mark10);
    push_full_name(out, def);
    let ghost mark11 = mark10 + spec_full_name(dv);
    proof { lemma_joined(old(out)@, mark10, spec_full_name(dv)); }
    assert(out@ == old(out)@ + mark11);
    emit(out, ")\n");
    let ghost mark12 = mark11 + lit(")\n");
    proof { lemma_joined(old(out)@, mark11, lit(")\n")); }
    assert(out@ == old(out)@ + mark12);
    push_all(out, indent);
    let ghost mark13 = mark12 + ind;
    proof { lemma_joined(old(out)@, mark12, ind); }
    assert(out@ == old(out)@ + mark13);
    emit(out, "///\n");
    let ghost mark14 = mark13 + lit("///\n");
    proof { lemma_joined(old(out)@, mark13, lit("///\n")); }
    assert(out@ == old(out)@ + mark14);
    push_all(out, indent);
    let ghost mark15 = mark14 + ind;
    proof { lemma_joined(old(out)@, mark14, ind); }
    assert(out@ == old(out)@ + mark15);
    emit(out, "/// Generated from:\n");
    let ghost mark16 = mark15 + lit("/// Generated from:\n");
    proof { lemma_joined(old(out)@, mark15, lit("/// Generated from:\n")); }
    assert(out@ == old(out)@ + mark16);
    push_all(out, indent);
    let ghost mark17 = mark16 + ind;
    proof { lemma_joined(old(out)@, mark16, ind); }
    assert(out@ == old(out)@ + mark17);
    emit(out, "/// ```tl\n");
    let ghost mark18 = mark17 + lit("/// ```tl\n");
    proof { lemma_joined(old(out)@, mark17, lit("/// ```tl\n")); }
    assert(out@ == old(out)@ + mark18);
    push_all(out, indent);
    let ghost mark19 = mark18 + ind;
    proof { lemma_joined(old(out)@, mark18, ind); }
    assert(out@ == old(out)@ + mark19);
    emit(out, "/// ");
    let ghost mark20 = mark19 + lit("/// ");
    proof { lemma_joined(old(out)@, mark19, lit("/// ")); }
    assert(out@ == old(out)@ + mark20);
    push_definition_text(out, def);
    let ghost mark21 = mark20 + spec_definition_text(dv);
    proof { lemma_joined(old(out)@, mark20, spec_definition_text(dv)); }
    assert(out@ == old(out)@ + mark21);
    emit(out, "\n");
    let ghost mark22 = mark21 + lit("\n");
    proof { lemma_joined(old(out)@, mark21, lit("\n")); }
    assert(out@ == old(out)@ + mark22);
    push_all(out, indent);
    let ghost mark23 = mark22 + ind;
    proof { lemma_joined(old(out)@, mark22, ind); }
    assert(out@ == old(out)@ + mark23);
    emit(out, "/// ```\n");
    let ghost mark24 = mark23 + lit("/// ```\n");
    proof { lemma_joined(old(out)@, mark23, lit("/// ```\n")); }
    assert(out@ == old(out)@ + mark24);
    let ghost mark25 = out@;
    if config.impl_debug {
        push_all(out, indent);
        let ghost mark26 = ind;
        assert(out@ == mark25 + mark26);
        emit(out, "#[derive(Debug)]\n");
        let ghost mark27 = mark26 + lit("#[derive(Debug)]\n");
        proof { lemma_joined(mark25, mark26, lit("#[derive(Debug)]\n")); }
        assert(out@ == mark25 + mark27);
    } else {
        proof { lemma_nothing(mark25); }
    }
    let ghost mark28 = mark24 + (if cfg.impl_debug { ind + lit("#[derive(Debug)]\n") } else { Seq::<u8>::empty() });
    proof { lemma_joined(old(out)@, mark24, (if cfg.impl_debug { ind + lit("#[derive(Debug)]\n") } else { Seq::<u8>::empty() })); }
    assert(out@ == old(out)@ + mark28);
    let ghost mark29 = out@;
    if config.impl_serde {
        push_all(out, indent);
        let ghost mark30 = ind;
        assert(out@ == mark29 + mark30);
        emit(out, "#[derive(serde::Serialize, serde::Deserialize)]\n");
        let ghost mark31 = mark30 + lit("#[derive(serde::Serialize, serde::Deserialize)]\n");
        proof { lemma_joined(mark29, mark30, lit("#[derive(serde::Serialize, serde::Deserialize)]\n")); }
        assert(out@ == mark29 + mark31);
    } else {
        proof { lemma_nothing(mark29); }
    }
    let ghost mark32 = mark28 + (if cfg.impl_serde { ind + lit("#[derive(serde::Serialize, serde::Deserialize)]\n") } else { Seq::<u8>::empty() });
    proof { lemma_joined(old(out)@, mark28, (if cfg.impl_serde { ind + lit("#[derive(serde::Serialize, serde::Deserialize)]\n") } else { Seq::<u8>::empty() })); }
    assert(out@ == old(out)@ + mark32);
    push_all(out, indent);
    let ghost mark33 = mark32 + ind;
    proof { lemma_joined(old(out)@, mark32, ind); }
    assert(out@ == old(out)@ + mark33);
    emit(out, "#[derive(Clone, PartialEq)]\n");
    let ghost mark34 = mark33 + lit("#[derive(Clone, PartialEq)]\n");
    proof { lemma_joined(old(out)@, mark33, lit("#[derive(Clone, PartialEq)]\n")); }
    assert(out@ == old(out)@ + mark34);
    push_all(out, indent);
    let ghost mark35 = mark34 + ind;
    proof { lemma_joined(old(out)@, mark34, ind); }
    assert(out@ == old(out)@ + mark35);
    emit(out, "pub struct ");
    let ghost mark36 = mark35 + lit("pub struct ");
    proof { lemma_joined(old(out)@, mark35, lit("pub struct ")); }
    assert(out@ == old(out)@ + mark36);
    push_all(out, tn.as_slice());
    let ghost mark37 = mark36 + spec_to_pascal(encode_utf8(dv.name));
    proof { lemma_joined(old(out)@, mark36, spec_to_pascal(encode_utf8(dv.name))); }
    assert(out@ == old(out)@ + mark37);
    push_all(out, gl.as_slice());
    let ghost mark38 = mark37 + spec_generic_list(dv, lit(""));
    proof { lemma_joined(old(out)@, mark37, spec_generic_list(dv, lit(""))); }
    assert(out@ == old(out)@ + mark38);
    emit(out, " {\n");
    let ghost mark39 = mark38 + lit(" {\n");
    proof { lemma_joined(old(out)@, mark38, lit(" {\n")); }
    assert(out@ == old(out)@ + mark39);
    write_struct_fields(out, indent, def);
    let ghost mark40 = mark39 + spec_struct_fields(ind, dv, dv.params.len() as int);
    proof { lemma_joined(old(out)@, mark39, spec_struct_fields(ind, dv, dv.params.len() as int)); }
    assert(out@ == old(out)@ + mark40);
    push_all(out, indent);
    let ghost mark41 = mark40 + ind;
    proof { lemma_joined(old(out)@, mark40, ind); }
    assert(out@ == old(out)@ + mark41);
    emit(out, "}\n");
    let ghost mark42 = mark41 + lit("}\n");
    proof { lemma_joined(old(out)@, mark41, lit("}\n")); }
    assert(out@ == old(out)@ + mark42);
}

/// The impl that gives a record its constructor ID.
pub open spec fn spec_identifiable(ind: Seq<u8>, dv: DefinitionView) -> Seq<u8> {
    ind + lit("impl") + spec_generic_list(dv, lit("")) + lit(" crate::Identifiable for ") + spec_to_pascal(encode_utf8(dv.name)) + spec_generic_list(dv, lit("")) + lit(" {\n") + ind + lit("    const CONSTRUCTOR_ID: u32 = ") + spec_hex10(dv.id) + lit(";\n") + ind + lit("}\n")
}

/// Appends: the impl that gives a record its constructor ID.
pub fn write_identifiable(out: &mut Vec<u8>, indent: &[u8], def: &Definition)
    ensures
        final(out)@ == old(out)@ + spec_identifiable(indent@, def@),
{
    let ghost ind = indent@;
    let ghost dv = def@;
    let tn = pascal_bytes(def.name.as_str().as_bytes());
    let gl = generic_list(def, "");
    push_all(out, indent);
    let ghost mark1 = ind;
    assert(out@ == old(out)@ + mark1);
    emit(out, "impl");
    let ghost mark2 = mark1 + lit("impl");
    proof { lemma_joined(old(out)@, mark1, lit("impl")); }
    assert(out@ == old(out)@ + mark2);
    push_all(out, gl.as_slice());
    let ghost mark3 = mark2 + spec_generic_list(dv, lit(""));
    proof { lemma_joined(old(out)@, mark2, spec_generic_list(dv, lit(""))); }
    assert(out@ == old(out)@ + mark3);
    emit(out, " crate::Identifiable for ");
    let ghost mark4 = mark3 + lit(" crate::Identifiable for ");
    proof { lemma_joined(old(out)@, mark3, lit(" crate::Identifiable for ")); }
    assert(out@ == old(out)@ + mark4);
    push_all(out, tn.as_slice());
    let ghost mark5 = mark4 + spec_to_pascal(encode_utf8(dv.name));
    proof { lemma_joined(old(out)@, mark4, spec_to_pascal(encode_utf8(dv.name))); }
    assert(out@ == old(out)@ + mark5);
    push_all(out, gl.as_slice());
    let ghost mark6 = mark5 + spec_generic_list(dv, lit(""));
    proof { lemma_joined(old(out)@, mark5, spec_generic_list(dv, lit(""))); }
    assert(out@ == old(out)@ + mark6);
    emit(out, " {\n");
    let ghost mark7 = mark6 + lit(" {\n");
    proof { lemma_joined(old(out)@, mark6, lit(" {\n")); }
    assert(out@ == old(out)@ + mark7);
    push_all(out, indent);
    let ghost mark8 = mark7 + ind;
    proof { lemma_joined(old(out)@, mark7, ind); }
    assert(out@ == old(out)@ + mark8);
    emit(out, "    const CONSTRUCTOR_ID: u32 = ");
    let ghost mark9 = mark8 + lit("    const CONSTRUCTOR_ID: u32 = ");
    proof { lemma_joined(old(out)@, mark8, lit("    const CONSTRUCTOR_ID: u32 = ")); }
    assert(out@ == old(out)@ + mark9);
    push_hex10(out, def.id);
    let ghost mark10 = mark9 + spec_hex10(dv.id);
    proof { lemma_joined(old(out)@, mark9, spec_hex10(dv.id)); }
    assert(out@ == old(out)@ + mark10);
    emit(out, ";\n");
    let ghost mark11 = mark10 + lit(";\n");
    proof { lemma_joined(old(out)@, mark10, lit(";\n")); }
    assert(out@ == old(out)@ + mark11);
    push_all(out, indent);
    let ghost mark12 = mark11 + ind;
    proof { lemma_joined(old(out)@, mark11, ind); }
    assert(out@ == old(out)@ + mark12);
    emit(out, "}\n");
    let ghost mark13 = mark12 + lit("}\n");
    proof { lemma_joined(old(out)@, mark12, lit("}\n")); }
    assert(out@ == old(out)@ + mark13);
}

/// The flag that guards a parameter.
pub open spec fn guard_of(pv: ParameterView) -> Option<crate::parser::tl::FlagView> {
    match pv.ty {
        ParameterTypeView::Normal { flag, .. } => flag,
        ParameterTypeView::Flags => None,
    }
}

/// Whether a flag guards a parameter.
pub fn is_guarded(param: &Parameter) -> (r: bool)
    ensures
        r == (guard_of(param@) is Some),
{
    match &param.ty {
        ParameterType::Normal { flag, .. } => flag.is_some(),
        ParameterType::Flags => false,
    }
}

/// Whether a parameter is a bit of a flags field and nothing more: a flag
/// guards it and its type is `true`.
pub open spec fn is_switch_param(pv: ParameterView) -> bool {
    match pv.ty {
        ParameterTypeView::Normal { ty, flag } => flag is Some && is_switch(ty),
        ParameterTypeView::Flags => false,
    }
}

/// Whether `param` is a bit of a flags field and nothing more.
pub fn is_switch_field(param: &Parameter) -> (r: bool)
    ensures
        r == is_switch_param(param@),
{
    match &param.ty {
        ParameterType::Normal { ty, flag } => flag.is_some() && is_switch_type(ty),
        ParameterType::Flags => false,
    }
}

/// The name of the flags field that guards a parameter; nothing where none
/// does.
pub open spec fn spec_guard_name(pv: ParameterView) -> Seq<u8> {
    match guard_of(pv) {
        Some(fl) => encode_utf8(fl.name),
        None => Seq::empty(),
    }
}

/// Appends the name of the flags field that guards `param`.
pub fn push_guard_name(out: &mut Vec<u8>, param: &Parameter)
    ensures
        final(out)@ == old(out)@ + spec_guard_name(param@),
{
    proof {
        lemma_nothing(old(out)@);
    }
    match &param.ty {
        ParameterType::Normal { flag: Some(fl), .. } => {
            push_all(out, fl.name.as_str().as_bytes());
        },
        _ => {},
    }
}

/// The number of the bit that guards a parameter, in decimal; nothing where
/// none does.
pub open spec fn spec_guard_index(pv: ParameterView) -> Seq<u8> {
    match guard_of(pv) {
        Some(fl) => spec_decimal_u32(fl.index),
        None => Seq::empty(),
    }
}

/// Appends the number of the bit that guards `param`.
pub fn push_guard_index(out: &mut Vec<u8>, param: &Parameter)
    ensures
        final(out)@ == old(out)@ + spec_guard_index(param@),
{
    proof {
        lemma_nothing(old(out)@);
    }
    match &param.ty {
        ParameterType::Normal { flag: Some(fl), .. } => {
            push_decimal(out, fl.index);
        },
        _ => {},
    }
}

/// The path of a parameter's type where a method follows; nothing for a
/// flags field.
pub open spec fn spec_item_path(pv: ParameterView) -> Seq<u8> {
    match pv.ty {
        ParameterTypeView::Normal { ty, .. } => spec_type_path(ty, true),
        ParameterTypeView::Flags => Seq::empty(),
    }
}

/// Appends the path of the type of `param` where a method follows.
pub fn push_item_path(out: &mut Vec<u8>, param: &Parameter)
    ensures
        final(out)@ == old(out)@ + spec_item_path(param@),
{
    proof {
        lemma_nothing(old(out)@);
    }
    match &param.ty {
        ParameterType::Normal { ty, .. } => {
            let path = type_path_bytes(ty, true);
            push_all(out, path.as_slice());
        },
        ParameterType::Flags => {},
    }
}

/// Whether the flags field named `name` guards a parameter.
pub open spec fn uses_flag(pv: ParameterView, name: Seq<char>) -> bool {
    match guard_of(pv) {
        Some(fl) => encode_utf8(fl.name) == encode_utf8(name),
        None => false,
    }
}

/// Whether `param` is guarded by the flags field `name`.
pub fn is_guarded_by(param: &Parameter, name: &str) -> (r: bool)
    ensures
        r == uses_flag(param@, name@),
{
    match &param.ty {
        ParameterType::Normal { flag: Some(fl), .. } => bytes_eq(
            fl.name.as_str().as_bytes(),
            name.as_bytes(),
        ),
        _ => false,
    }
}

/// Whether the flags field `name` guards one of the first `n` parameters.
pub open spec fn has_term(dv: DefinitionView, name: Seq<char>, n: int) -> bool
    decreases n,
{
    if n <= 0 {
        false
    } else {
        has_term(dv, name, n - 1) || uses_flag(dv.params[n - 1], name)
    }
}


/// The term of a flags word for a parameter that one of its bits guards: the
/// bit where the field is set, zero where it is not.
pub open spec fn spec_flag_term(pv: ParameterView) -> Seq<u8> {
    lit("if self.") + spec_param_attr_name(encode_utf8(pv.name)) + (if is_switch_param(pv) { Seq::<u8>::empty() } else { lit(".is_some()") }) + lit(" { 1 << ") + spec_guard_index(pv) + lit(" } else { 0 }")
}

/// Appends: the term of a flags word for a parameter that one of its bits guards: the
/// bit where the field is set, zero where it is not.
pub fn write_flag_term(out: &mut Vec<u8>, param: &Parameter)
    ensures
        final(out)@ == old(out)@ + spec_flag_term(param@),
{
    let ghost pv = param@;
    let attr = param_attr_name_bytes(param);
    emit(out, "if self.");
    let ghost mark1 = lit("if self.");
    assert(out@ == old(out)@ + mark1);
    push_all(out, attr.as_slice());
    let ghost mark2 = mark1 + spec_param_attr_name(encode_utf8(pv.name));
    proof { lemma_joined(old(out)@, mark1, spec_param_attr_name(encode_utf8(pv.name))); }
    assert(out@ == old(out)@ + mark2);
    let ghost mark3 = out@;
    if is_switch_field(param) {
        proof { lemma_nothing(mark3); }
    } else {
        emit(out, ".is_some()");
        let ghost mark4 = lit(".is_some()");
        assert(out@ == mark3 + mark4);
    }
    let ghost mark5 = mark2 + (if is_switch_param(pv) { Seq::<u8>::empty() } else { lit(".is_some()") });
    proof { lemma_joined(old(out)@, mark2, (if is_switch_param(pv) { Seq::<u8>::empty() } else { lit(".is_some()") })); }
    assert(out@ == old(out)@ + mark5);
    emit(out, " { 1 << ");
    let ghost mark6 = mark5 + lit(" { 1 << ");
    proof { lemma_joined(old(out)@, mark5, lit(" { 1 << ")); }
    assert(out@ == old(out)@ + mark6);
    push_guard_index(out, param);
    let ghost mark7 = mark6 + spec_guard_index(pv);
    proof { lemma_joined(old(out)@, mark6, spec_guard_index(pv)); }
    assert(out@ == old(out)@ + mark7);
    emit(out, " } else { 0 }");
    let ghost mark8 = mark7 + lit(" } else { 0 }");
    proof { lemma_joined(old(out)@, mark7, lit(" } else { 0 }")); }
    assert(out@ == old(out)@ + mark8);
}

/// The terms of the flags word `name` for the first `n` parameters, with
/// ` | ` between them.
pub open spec fn spec_flag_terms(dv: DefinitionView, name: Seq<char>, n: int) -> Seq<u8>
    decreases n,
{
    if n <= 0 {
        Seq::empty()
    } else if uses_flag(dv.params[n - 1], name) {
        spec_flag_terms(dv, name, n - 1) + ((if has_term(dv, name, n - 1) {
            lit(" | ")
        } else {
            Seq::empty()
        }) + spec_flag_term(dv.params[n - 1]))
    } else {
        spec_flag_terms(dv, name, n - 1)
    }
}

/// Appends the terms of the flags word `name`, and says whether there was
/// one.
pub fn write_flag_terms(out: &mut Vec<u8>, def: &Definition, name: &str) -> (any: bool)
    ensures
        final(out)@ == old(out)@ + spec_flag_terms(def@, name@, def@.params.len() as int),
        any == has_term(def@, name@, def@.params.len() as int),
{
    let ghost dv = def@;
    let mut any = false;
    let mut i: usize = 0;
    proof {
        lemma_nothing(old(out)@);
    }
    while i < def.params.len()
        invariant
            i <= def.params@.len(),
            dv == def@,
            any == has_term(dv, name@, i as int),
            out@ == old(out)@ + spec_flag_terms(dv, name@, i as int),
        decreases def.params@.len() - i,
    {
        assert(dv.params[i as int] == def.params@[i as int]@);
        let ghost before = out@;
        if is_guarded_by(&def.params[i], name) {
            let ghost sep = if any {
                lit(" | ")
            } else {
                Seq::<u8>::empty()
            };
            if any {
                emit(out, " | ");
            } else {
                proof {
                    lemma_nothing(before);
                }
            }
            assert(out@ == before + sep);
            write_flag_term(out, &def.params[i]);
            proof {
                lemma_joined(before, sep, spec_flag_term(dv.params[i as int]));
                lemma_joined(
                    old(out)@,
                    spec_flag_terms(dv, name@, i as int),
                    sep + spec_flag_term(dv.params[i as int]),
                );
            }
            any = true;
        }
        i += 1;
    }
    any
}


/// The statement that writes the parameter at the place `at`: zero for a
/// flags word that guards nothing, else the word put together from its
/// fields; nothing for a field that is only a bit; the value, where a flag
/// guards it, only if it is there.
pub open spec fn spec_param_serialization(ind: Seq<u8>, dv: DefinitionView, at: usize) -> Seq<u8> {
    let pv = dv.params[at as int];
    (if pv.ty is Flags { (if spec_is_unused_flag(dv, at as int) { ind + lit("        0u32.serialize(buf);\n") } else { ind + lit("        (") + spec_flag_terms(dv, pv.name, dv.params.len() as int) + (if has_term(dv, pv.name, dv.params.len() as int) { Seq::<u8>::empty() } else { lit("0u32") }) + lit(").serialize(buf);\n") }) } else { (if is_switch_param(pv) { Seq::<u8>::empty() } else { (if guard_of(pv) is Some { ind + lit("        if let Some(ref v) = self.") + spec_param_attr_name(encode_utf8(pv.name)) + lit(" { v.serialize(buf); }\n") } else { ind + lit("        self.") + spec_param_attr_name(encode_utf8(pv.name)) + lit(".serialize(buf);\n") }) }) })
}

/// Appends: the statement that writes the parameter at the place `at`: zero for a
/// flags word that guards nothing, else the word put together from its
/// fields; nothing for a field that is only a bit; the value, where a flag
/// guards it, only if it is there.
pub fn write_param_serialization(out: &mut Vec<u8>, indent: &[u8], def: &Definition, at: usize)
    requires
        at < def@.params.len(),
    ensures
        final(out)@ == old(out)@ + spec_param_serialization(indent@, def@, at),
{
    let ghost ind = indent@;
    let ghost dv = def@;
    let param = &def.params[at];
    let ghost pv = param@;
    assert(pv == dv.params[at as int]);
    let attr = param_attr_name_bytes(param);
    let ghost mark1 = out@;
    if is_flags_field(param) {
        let ghost mark2 = out@;
        if is_unused_flag(def, at) {
            push_all(out, indent);
            let ghost mark3 = ind;
            assert(out@ == mark2 + mark3);
            emit(out, "        0u32.serialize(buf);\n");
            let ghost mark4 = mark3 + lit("        0u32.serialize(buf);\n");
            proof { lemma_joined(mark2, mark3, lit("        0u32.serialize(buf);\n")); }
            assert(out@ == mark2 + mark4);
        } else {
            push_all(out, indent);
            let ghost mark5 = ind;
            assert(out@ == mark2 + mark5);
            emit(out, "        (");
            let ghost mark6 = mark5 + lit("        (");
            proof { lemma_joined(mark2, mark5, lit("        (")); }
            assert(out@ == mark2 + mark6);
            let any = write_flag_terms(out, def, param.name.as_str());
            let ghost mark7 = mark6 + spec_flag_terms(dv, pv.name, dv.params.len() as int);
            proof { lemma_joined(mark2, mark6, spec_flag_terms(dv, pv.name, dv.params.len() as int)); }
            assert(out@ == mark2 + mark7);
            let ghost mark8 = out@;
            if any {
                proof { lemma_nothing(mark8); }
            } else {
                emit(out, "0u32");
                let ghost mark9 = lit("0u32");
                assert(out@ == mark8 + mark9);
            }
            let ghost mark10 = mark7 + (if has_term(dv, pv.name, dv.params.len() as int) { Seq::<u8>::empty() } else { lit("0u32") });
            proof { lemma_joined(mark2, mark7, (if has_term(dv, pv.name, dv.params.len() as int) { Seq::<u8>::empty() } else { lit("0u32") })); }
            assert(out@ == mark2 + mark10);
            emit(out, ").serialize(buf);\n");
            let ghost mark11 = mark10 + lit(").serialize(buf);\n");
            proof { lemma_joined(mark2, mark10, lit(").serialize(buf);\n")); }
            assert(out@ == mark2 + mark11);
        }
        let ghost mark12 = (if spec_is_unused_flag(dv, at as int) { ind + lit("        0u32.serialize(buf);\n") } else { ind + lit("        (") + spec_flag_terms(dv, pv.name, dv.params.len() as int) + (if has_term(dv, pv.name, dv.params.len() as int) { Seq::<u8>::empty() } else { lit("0u32") }) + lit(").serialize(buf);\n") });
        assert(out@ == mark1 + mark12);
    } else {
        let ghost mark13 = out@;
        if is_switch_field(param) {
            proof { lemma_nothing(mark13); }
        } else {
            let ghost mark14 = out@;
            if is_guarded(param) {
                push_all(out, indent);
                let ghost mark15 = ind;
                assert(out@ == mark14 + mark15);
                emit(out, "        if let Some(ref v) = self.");
                let ghost mark16 = mark15 + lit("        if let Some(ref v) = self.");
                proof { lemma_joined(mark14, mark15, lit("        if let Some(ref v) = self.")); }
                assert(out@ == mark14 + mark16);
                push_all(out, attr.as_slice());
                let ghost mark17 = mark16 + spec_param_attr_name(encode_utf8(pv.name));
                proof { lemma_joined(mark14, mark16, spec_param_attr_name(encode_utf8(pv.name))); }
                assert(out@ == mark14 + mark17);
                emit(out, " { v.serialize(buf); }\n");
                let ghost mark18 = mark17 + lit(" { v.serialize(buf); }\n");
                proof { lemma_joined(mark14, mark17, lit(" { v.serialize(buf); }\n")); }
                assert(out@ == mark14 + mark18);
            } else {
                push_all(out, indent);
                let ghost mark19 = ind;
                assert(out@ == mark14 + mark19);
                emit(out, "        self.");
                let ghost mark20 = mark19 + lit("        self.");
                proof { lemma_joined(mark14, mark19, lit("        self.")); }
                assert(out@ == mark14 + mark20);
                push_all(out, attr.as_slice());
                let ghost mark21 = mark20 + spec_param_attr_name(encode_utf8(pv.name));
                proof { lemma_joined(mark14, mark20, spec_param_attr_name(encode_utf8(pv.name))); }
                assert(out@ == mark14 + mark21);
                emit(out, ".serialize(buf);\n");
                let ghost mark22 = mark21 + lit(".serialize(buf);\n");
                proof { lemma_joined(mark14, mark21, lit(".serialize(buf);\n")); }
                assert(out@ == mark14 + mark22);
            }
            let ghost mark23 = (if guard_of(pv) is Some { ind + lit("        if let Some(ref v) = self.") + spec_param_attr_name(encode_utf8(pv.name)) + lit(" { v.serialize(buf); }\n") } else { ind + lit("        self.") + spec_param_attr_name(encode_utf8(pv.name)) + lit(".serialize(buf);\n") });
            assert(out@ == mark13 + mark23);
        }
        let ghost mark24 = (if is_switch_param(pv) { Seq::<u8>::empty() } else { (if guard_of(pv) is Some { ind + lit("        if let Some(ref v) = self.") + spec_param_attr_name(encode_utf8(pv.name)) + lit(" { v.serialize(buf); }\n") } else { ind + lit("        self.") + spec_param_attr_name(encode_utf8(pv.name)) + lit(".serialize(buf);\n") }) });
        assert(out@ == mark1 + mark24);
    }
    let ghost mark25 = (if pv.ty is Flags { (if spec_is_unused_flag(dv, at as int) { ind + lit("        0u32.serialize(buf);\n") } else { ind + lit("        (") + spec_flag_terms(dv, pv.name, dv.params.len() as int) + (if has_term(dv, pv.name, dv.params.len() as int) { Seq::<u8>::empty() } else { lit("0u32") }) + lit(").serialize(buf);\n") }) } else { (if is_switch_param(pv) { Seq::<u8>::empty() } else { (if guard_of(pv) is Some { ind + lit("        if let Some(ref v) = self.") + spec_param_attr_name(encode_utf8(pv.name)) + lit(" { v.serialize(buf); }\n") } else { ind + lit("        self.") + spec_param_attr_name(encode_utf8(pv.name)) + lit(".serialize(buf);\n") }) }) });
    assert(out@ == old(out)@ + mark25);
}

/// The statements that write the parameters of a definition.
/// The first `n` of them.
pub open spec fn spec_params_serialization(ind: Seq<u8>, dv: DefinitionView, n: int) -> Seq<u8>
    decreases n,
{
    if n <= 0 {
        Seq::empty()
    } else {
        spec_params_serialization(ind, dv, n - 1) + (spec_param_serialization(ind, dv, (n - 1) as usize))
    }
}

/// Appends: the statements that write the parameters of a definition.
pub fn write_params_serialization(out: &mut Vec<u8>, indent: &[u8], def: &Definition)
    ensures
        final(out)@ == old(out)@ + spec_params_serialization(indent@, def@, def@.params.len() as int),
{
    let ghost ind = indent@;
    let ghost dv = def@;
    let mut i: usize = 0;
    let count: usize = def.params.len();
    proof { lemma_nothing(old(out)@); }
    while i < count
        invariant
            i <= count,
            count == dv.params.len(),
            ind == indent@,
            dv == def@,
            out@ == old(out)@ + spec_params_serialization(ind, dv, i as int),
        decreases count - i,
    {
        let ghost before = out@;
        write_param_serialization(out, indent, def, i);
        let ghost mark1 = spec_param_serialization(ind, dv, (i as int) as usize);
        assert(out@ == before + mark1);
        proof { lemma_joined(old(out)@, spec_params_serialization(ind, dv, i as int), spec_param_serialization(ind, dv, (i as int) as usize)); }
        i += 1;
    }
}

/// The impl that writes a record to bytes: the constructor ID first where the
/// record is a function, then the parameters.
pub open spec fn spec_struct_serializable(ind: Seq<u8>, dv: DefinitionView) -> Seq<u8> {
    ind + lit("impl") + spec_generic_list(dv, lit(": crate::Serializable")) + lit(" crate::Serializable for ") + spec_to_pascal(encode_utf8(dv.name)) + spec_generic_list(dv, lit("")) + lit(" {\n") + ind + lit("    fn serialize(&self, ") + (if dv.category == Category::Types && dv.params.len() == 0 { lit("_") } else { Seq::<u8>::empty() }) + lit("buf: &mut impl Extend<u8>) {\n") + (if dv.category == Category::Types { Seq::<u8>::empty() } else { ind + lit("        use crate::Identifiable;\n") + ind + lit("        Self::CONSTRUCTOR_ID.serialize(buf);\n") }) + spec_params_serialization(ind, dv, dv.params.len() as int) + ind + lit("    }\n") + ind + lit("}\n")
}

/// Appends: the impl that writes a record to bytes: the constructor ID first where the
/// record is a function, then the parameters.
pub fn write_struct_serializable(out: &mut Vec<u8>, indent: &[u8], def: &Definition)
    ensures
        final(out)@ == old(out)@ + spec_struct_serializable(indent@, def@),
{
    let ghost ind = indent@;
    let ghost dv = def@;
    let tn = pascal_bytes(def.name.as_str().as_bytes());
    let gl = generic_list(def, "");
    let gs = generic_list(def, ": crate::Serializable");
    push_all(out, indent);
    let ghost mark1 = ind;
    assert(out@ == old(out)@ + mark1);
    emit(out, "impl");
    let ghost mark2 = mark1 + lit("impl");
    proof { lemma_joined(old(out)@, mark1, lit("impl")); }
    assert(out@ == old(out)@ + mark2);
    push_all(out, gs.as_slice());
    let ghost mark3 = mark2 + spec_generic_list(dv, lit(": crate::Serializable"));
    proof { lemma_joined(old(out)@, mark2, spec_generic_list(dv, lit(": crate::Serializable"))); }
    assert(out@ == old(out)@ + mark3);
    emit(out, " crate::Serializable for ");
    let ghost mark4 = mark3 + lit(" crate::Serializable for ");
    proof { lemma_joined(old(out)@, mark3, lit(" crate::Serializable for ")); }
    assert(out@ == old(out)@ + mark4);
    push_all(out, tn.as_slice());
    let ghost mark5 = mark4 + spec_to_pascal(encode_utf8(dv.name));
    proof { lemma_joined(old(out)@, mark4, spec_to_pascal(encode_utf8(dv.name))); }
    assert(out@ == old(out)@ + mark5);
    push_all(out, gl.as_slice());
    let ghost mark6 = mark5 + spec_generic_list(dv, lit(""));
    proof { lemma_joined(old(out)@, mark5, spec_generic_list(dv, lit(""))); }
    assert(out@ == old(out)@ + mark6);
    emit(out, " {\n");
    let ghost mark7 = mark6 + lit(" {\n");
    proof { lemma_joined(old(out)@, mark6, lit(" {\n")); }
    assert(out@ == old(out)@ + mark7);
    push_all(out, indent);
    let ghost mark8 = mark7 + ind;
    proof { lemma_joined(old(out)@, mark7, ind); }
    assert(out@ == old(out)@ + mark8);
    emit(out, "    fn serialize(&self, ");
    let ghost mark9 = mark8 + lit("    fn serialize(&self, ");
    proof { lemma_joined(old(out)@, mark8, lit("    fn serialize(&self, ")); }
    assert(out@ == old(out)@ + mark9);
    let ghost mark10 = out@;
    if is_constructor(def) && def.params.len() == 0 {
        emit(out, "_");
        let ghost mark11 = lit("_");
        assert(out@ == mark10 + mark11);
    } else {
        proof { lemma_nothing(mark10); }
    }
    let ghost mark12 = mark9 + (if dv.category == Category::Types && dv.params.len() == 0 { lit("_") } else { Seq::<u8>::empty() });
    proof { lemma_joined(old(out)@, mark9, (if dv.category == Category::Types && dv.params.len() == 0 { lit("_") } else { Seq::<u8>::empty() })); }
    assert(out@ == old(out)@ + mark12);
    emit(out, "buf: &mut impl Extend<u8>) {\n");
    let ghost mark13 = mark12 + lit("buf: &mut impl Extend<u8>) {\n");
    proof { lemma_joined(old(out)@, mark12, lit("buf: &mut impl Extend<u8>) {\n")); }
    assert(out@ == old(out)@ + mark13);
    let ghost mark14 = out@;
    if is_constructor(def) {
        proof { lemma_nothing(mark14); }
    } else {
        push_all(out, indent);
        let ghost mark15 = ind;
        assert(out@ == mark14 + mark15);
        emit(out, "        use crate::Identifiable;\n");
        let ghost mark16 = mark15 + lit("        use crate::Identifiable;\n");
        proof { lemma_joined(mark14, mark15, lit("        use crate::Identifiable;\n")); }
        assert(out@ == mark14 + mark16);
        push_all(out, indent);
        let ghost mark17 = mark16 + ind;
        proof { lemma_joined(mark14, mark16, ind); }
        assert(out@ == mark14 + mark17);
        emit(out, "        Self::CONSTRUCTOR_ID.serialize(buf);\n");
        let ghost mark18 = mark17 + lit("        Self::CONSTRUCTOR_ID.serialize(buf);\n");
        proof { lemma_joined(mark14, mark17, lit("        Self::CONSTRUCTOR_ID.serialize(buf);\n")); }
        assert(out@ == mark14 + mark18);
    }
    let ghost mark19 = mark13 + (if dv.category == Category::Types { Seq::<u8>::empty() } else { ind + lit("        use crate::Identifiable;\n") + ind + lit("        Self::CONSTRUCTOR_ID.serialize(buf);\n") });
    proof { lemma_joined(old(out)@, mark13, (if dv.category == Category::Types { Seq::<u8>::empty() } else { ind + lit("        use crate::Identifiable;\n") + ind + lit("        Self::CONSTRUCTOR_ID.serialize(buf);\n") })); }
    assert(out@ == old(out)@ + mark19);
    write_params_serialization(out, indent, def);
    let ghost mark20 = mark19 + spec_params_serialization(ind, dv, dv.params.len() as int);
    proof { lemma_joined(old(out)@, mark19, spec_params_serialization(ind, dv, dv.params.len() as int)); }
    assert(out@ == old(out)@ + mark20);
    push_all(out, indent);
    let ghost mark21 = mark20 + ind;
    proof { lemma_joined(old(out)@, mark20, ind); }
    assert(out@ == old(out)@ + mark21);
    emit(out, "    }\n");
    let ghost mark22 = mark21 + lit("    }\n");
    proof { lemma_joined(old(out)@, mark21, lit("    }\n")); }
    assert(out@ == old(out)@ + mark22);
    push_all(out, indent);
    let ghost mark23 = mark22 + ind;
    proof { lemma_joined(old(out)@, mark22, ind); }
    assert(out@ == old(out)@ + mark23);
    emit(out, "}\n");
    let ghost mark24 = mark23 + lit("}\n");
    proof { lemma_joined(old(out)@, mark23, lit("}\n")); }
    assert(out@ == old(out)@ + mark24);
}

/// The statement that reads a flags word; nothing for another parameter.
pub open spec fn spec_read_flags(ind: Seq<u8>, pv: ParameterView) -> Seq<u8> {
    (if pv.ty is Flags { ind + lit("        let _") + spec_param_attr_name(encode_utf8(pv.name)) + lit(" = u32::deserialize(buf)?;\n") } else { Seq::<u8>::empty() })
}

/// Appends: the statement that reads a flags word; nothing for another parameter.
pub fn write_read_flags(out: &mut Vec<u8>, indent: &[u8], param: &Parameter)
    ensures
        final(out)@ == old(out)@ + spec_read_flags(indent@, param@),
{
    let ghost ind = indent@;
    let ghost pv = param@;
    let attr = param_attr_name_bytes(param);
    let ghost mark1 = out@;
    if is_flags_field(param) {
        push_all(out, indent);
        let ghost mark2 = ind;
        assert(out@ == mark1 + mark2);
        emit(out, "        let _");
        let ghost mark3 = mark2 + lit("        let _");
        proof { lemma_joined(mark1, mark2, lit("        let _")); }
        assert(out@ == mark1 + mark3);
        push_all(out, attr.as_slice());
        let ghost mark4 = mark3 + spec_param_attr_name(encode_utf8(pv.name));
        proof { lemma_joined(mark1, mark3, spec_param_attr_name(encode_utf8(pv.name))); }
        assert(out@ == mark1 + mark4);
        emit(out, " = u32::deserialize(buf)?;\n");
        let ghost mark5 = mark4 + lit(" = u32::deserialize(buf)?;\n");
        proof { lemma_joined(mark1, mark4, lit(" = u32::deserialize(buf)?;\n")); }
        assert(out@ == mark1 + mark5);
    } else {
        proof { lemma_nothing(mark1); }
    }
    let ghost mark6 = (if pv.ty is Flags { ind + lit("        let _") + spec_param_attr_name(encode_utf8(pv.name)) + lit(" = u32::deserialize(buf)?;\n") } else { Seq::<u8>::empty() });
    assert(out@ == old(out)@ + mark6);
}

/// The statement that reads a parameter: from its bit alone where it is only
/// a bit, under its bit where a flag guards it; nothing for a flags word.
pub open spec fn spec_read_param(ind: Seq<u8>, pv: ParameterView) -> Seq<u8> {
    (if pv.ty is Flags { Seq::<u8>::empty() } else { (if is_switch_param(pv) { ind + lit("        let ") + spec_param_attr_name(encode_utf8(pv.name)) + lit(" = (_") + spec_guard_name(pv) + lit(" & (1 << ") + spec_guard_index(pv) + lit(")) != 0;\n") } else { (if guard_of(pv) is Some { ind + lit("        let ") + spec_param_attr_name(encode_utf8(pv.name)) + lit(" = if (_") + spec_guard_name(pv) + lit(" & (1 << ") + spec_guard_index(pv) + lit(")) != 0 { Some(") + spec_item_path(pv) + lit("::deserialize(buf)?) } else { None };\n") } else { ind + lit("        let ") + spec_param_attr_name(encode_utf8(pv.name)) + lit(" = ") + spec_item_path(pv) + lit("::deserialize(buf)?;\n") }) }) })
}

/// Appends: the statement that reads a parameter: from its bit alone where it is only
/// a bit, under its bit where a flag guards it; nothing for a flags word.
pub fn write_read_param(out: &mut Vec<u8>, indent: &[u8], param: &Parameter)
    ensures
        final(out)@ == old(out)@ + spec_read_param(indent@, param@),
{
    let ghost ind = indent@;
    let ghost pv = param@;
    let attr = param_attr_name_bytes(param);
    let ghost mark1 = out@;
    if is_flags_field(param) {
        proof { lemma_nothing(mark1); }
    } else {
        let ghost mark2 = out@;
        if is_switch_field(param) {
            push_all(out, indent);
            let ghost mark3 = ind;
            assert(out@ == mark2 + mark3);
            emit(out, "        let ");
            let ghost mark4 = mark3 + lit("        let ");
            proof { lemma_joined(mark2, mark3, lit("        let ")); }
            assert(out@ == mark2 + mark4);
            push_all(out, attr.as_slice());
            let ghost mark5 = mark4 + spec_param_attr_name(encode_utf8(pv.name));
            proof { lemma_joined(mark2, mark4, spec_param_attr_name(encode_utf8(pv.name))); }
            assert(out@ == mark2 + mark5);
            emit(out, " = (_");
            let ghost mark6 = mark5 + lit(" = (_");
            proof { lemma_joined(mark2, mark5, lit(" = (_")); }
            assert(out@ == mark2 + mark6);
            push_guard_name(out, param);
            let ghost mark7 = mark6 + spec_guard_name(pv);
            proof { lemma_joined(mark2, mark6, spec_guard_name(pv)); }
            assert(out@ == mark2 + mark7);
            emit(out, " & (1 << ");
            let ghost mark8 = mark7 + lit(" & (1 << ");
            proof { lemma_joined(mark2, mark7, lit(" & (1 << ")); }
            assert(out@ == mark2 + mark8);
            push_guard_index(out, param);
            let ghost mark9 = mark8 + spec_guard_index(pv);
            proof { lemma_joined(mark2, mark8, spec_guard_index(pv)); }
            assert(out@ == mark2 + mark9);
            emit(out, ")) != 0;\n");
            let ghost mark10 = mark9 + lit(")) != 0;\n");
            proof { lemma_joined(mark2, mark9, lit(")) != 0;\n")); }
            assert(out@ == mark2 + mark10);
        } else {
            let ghost mark11 = out@;
            if is_guarded(param) {
                push_all(out, indent);
                let ghost mark12 = ind;
                assert(out@ == mark11 + mark12);
                emit(out, "        let ");
                let ghost mark13 = mark12 + lit("        let ");
                proof { lemma_joined(mark11, mark12, lit("        let ")); }
                assert(out@ == mark11 + mark13);
                push_all(out, attr.as_slice());
                let ghost mark14 = mark13 + spec_param_attr_name(encode_utf8(pv.name));
                proof { lemma_joined(mark11, mark13, spec_param_attr_name(encode_utf8(pv.name))); }
                assert(out@ == mark11 + mark14);
                emit(out, " = if (_");
                let ghost mark15 = mark14 + lit(" = if (_");
                proof { lemma_joined(mark11, mark14, lit(" = if (_")); }
                assert(out@ == mark11 + mark15);
                push_guard_name(out, param);
                let ghost mark16 = mark15 + spec_guard_name(pv);
                proof { lemma_joined(mark11, mark15, spec_guard_name(pv)); }
                assert(out@ == mark11 + mark16);
                emit(out, " & (1 << ");
                let ghost mark17 = mark16 + lit(" & (1 << ");
                proof { lemma_joined(mark11, mark16, lit(" & (1 << ")); }
                assert(out@ == mark11 + mark17);
                push_guard_index(out, param);
                let ghost mark18 = mark17 + spec_guard_index(pv);
                proof { lemma_joined(mark11, mark17, spec_guard_index(pv)); }
                assert(out@ == mark11 + mark18);
                emit(out, ")) != 0 { Some(");
                let ghost mark19 = mark18 + lit(")) != 0 { Some(");
                proof { lemma_joined(mark11, mark18, lit(")) != 0 { Some(")); }
                assert(out@ == mark11 + mark19);
                push_item_path(out, param);
                let ghost mark20 = mark19 + spec_item_path(pv);
                proof { lemma_joined(mark11, mark19, spec_item_path(pv)); }
                assert(out@ == mark11 + mark20);
                emit(out, "::deserialize(buf)?) } else { None };\n");
                let ghost mark21 = mark20 + lit("::deserialize(buf)?) } else { None };\n");
                proof { lemma_joined(mark11, mark20, lit("::deserialize(buf)?) } else { None };\n")); }
                assert(out@ == mark11 + mark21);
            } else {
                push_all(out, indent);
                let ghost mark22 = ind;
                assert(out@ == mark11 + mark22);
                emit(out, "        let ");
                let ghost mark23 = mark22 + lit("        let ");
                proof { lemma_joined(mark11, mark22, lit("        let ")); }
                assert(out@ == mark11 + mark23);
                push_all(out, attr.as_slice());
                let ghost mark24 = mark23 + spec_param_attr_name(encode_utf8(pv.name));
                proof { lemma_joined(mark11, mark23, spec_param_attr_name(encode_utf8(pv.name))); }
                assert(out@ == mark11 + mark24);
                emit(out, " = ");
                let ghost mark25 = mark24 + lit(" = ");
                proof { lemma_joined(mark11, mark24, lit(" = ")); }
                assert(out@ == mark11 + mark25);
                push_item_path(out, param);
                let ghost mark26 = mark25 + spec_item_path(pv);
                proof { lemma_joined(mark11, mark25, spec_item_path(pv)); }
                assert(out@ == mark11 + mark26);
                emit(out, "::deserialize(buf)?;\n");
                let ghost mark27 = mark26 + lit("::deserialize(buf)?;\n");
                proof { lemma_joined(mark11, mark26, lit("::deserialize(buf)?;\n")); }
                assert(out@ == mark11 + mark27);
            }
            let ghost mark28 = (if guard_of(pv) is Some { ind + lit("        let ") + spec_param_attr_name(encode_utf8(pv.name)) + lit(" = if (_") + spec_guard_name(pv) + lit(" & (1 << ") + spec_guard_index(pv) + lit(")) != 0 { Some(") + spec_item_path(pv) + lit("::deserialize(buf)?) } else { None };\n") } else { ind + lit("        let ") + spec_param_attr_name(encode_utf8(pv.name)) + lit(" = ") + spec_item_path(pv) + lit("::deserialize(buf)?;\n") });
            assert(out@ == mark2 + mark28);
        }
        let ghost mark29 = (if is_switch_param(pv) { ind + lit("        let ") + spec_param_attr_name(encode_utf8(pv.name)) + lit(" = (_") + spec_guard_name(pv) + lit(" & (1 << ") + spec_guard_index(pv) + lit(")) != 0;\n") } else { (if guard_of(pv) is Some { ind + lit("        let ") + spec_param_attr_name(encode_utf8(pv.name)) + lit(" = if (_") + spec_guard_name(pv) + lit(" & (1 << ") + spec_guard_index(pv) + lit(")) != 0 { Some(") + spec_item_path(pv) + lit("::deserialize(buf)?) } else { None };\n") } else { ind + lit("        let ") + spec_param_attr_name(encode_utf8(pv.name)) + lit(" = ") + spec_item_path(pv) + lit("::deserialize(buf)?;\n") }) });
        assert(out@ == mark1 + mark29);
    }
    let ghost mark30 = (if pv.ty is Flags { Seq::<u8>::empty() } else { (if is_switch_param(pv) { ind + lit("        let ") + spec_param_attr_name(encode_utf8(pv.name)) + lit(" = (_") + spec_guard_name(pv) + lit(" & (1 << ") + spec_guard_index(pv) + lit(")) != 0;\n") } else { (if guard_of(pv) is Some { ind + lit("        let ") + spec_param_attr_name(encode_utf8(pv.name)) + lit(" = if (_") + spec_guard_name(pv) + lit(" & (1 << ") + spec_guard_index(pv) + lit(")) != 0 { Some(") + spec_item_path(pv) + lit("::deserialize(buf)?) } else { None };\n") } else { ind + lit("        let ") + spec_param_attr_name(encode_utf8(pv.name)) + lit(" = ") + spec_item_path(pv) + lit("::deserialize(buf)?;\n") }) }) });
    assert(out@ == old(out)@ + mark30);
}

/// The line that names a field where the record is put together; nothing for
/// a flags word.
pub open spec fn spec_field_name(ind: Seq<u8>, pv: ParameterView) -> Seq<u8> {
    (if pv.ty is Flags { Seq::<u8>::empty() } else { ind + lit("            ") + spec_param_attr_name(encode_utf8(pv.name)) + lit(",\n") })
}

/// Appends: the line that names a field where the record is put together; nothing for
/// a flags word.
pub fn write_field_name(out: &mut Vec<u8>, indent: &[u8], param: &Parameter)
    ensures
        final(out)@ == old(out)@ + spec_field_name(indent@, param@),
{
    let ghost ind = indent@;
    let ghost pv = param@;
    let attr = param_attr_name_bytes(param);
    let ghost mark1 = out@;
    if is_flags_field(param) {
        proof { lemma_nothing(mark1); }
    } else {
        push_all(out, indent);
        let ghost mark2 = ind;
        assert(out@ == mark1 + mark2);
        emit(out, "            ");
        let ghost mark3 = mark2 + lit("            ");
        proof { lemma_joined(mark1, mark2, lit("            ")); }
        assert(out@ == mark1 + mark3);
        push_all(out, attr.as_slice());
        let ghost mark4 = mark3 + spec_param_attr_name(encode_utf8(pv.name));
        proof { lemma_joined(mark1, mark3, spec_param_attr_name(encode_utf8(pv.name))); }
        assert(out@ == mark1 + mark4);
        emit(out, ",\n");
        let ghost mark5 = mark4 + lit(",\n");
        proof { lemma_joined(mark1, mark4, lit(",\n")); }
        assert(out@ == mark1 + mark5);
    }
    let ghost mark6 = (if pv.ty is Flags { Seq::<u8>::empty() } else { ind + lit("            ") + spec_param_attr_name(encode_utf8(pv.name)) + lit(",\n") });
    assert(out@ == old(out)@ + mark6);
}

/// The statements that read the flags words of a definition.
/// The first `n` of them.
pub open spec fn spec_flag_reads(ind: Seq<u8>, dv: DefinitionView, n: int) -> Seq<u8>
    decreases n,
{
    if n <= 0 {
        Seq::empty()
    } else {
        spec_flag_reads(ind, dv, n - 1) + (spec_read_flags(ind, dv.params[n - 1]))
    }
}

/// Appends: the statements that read the flags words of a definition.
pub fn write_flag_reads(out: &mut Vec<u8>, indent: &[u8], def: &Definition)
    ensures
        final(out)@ == old(out)@ + spec_flag_reads(indent@, def@, def@.params.len() as int),
{
    let ghost ind = indent@;
    let ghost dv = def@;
    let mut i: usize = 0;
    let count: usize = def.params.len();
    proof { lemma_nothing(old(out)@); }
    while i < count
        invariant
            i <= count,
            count == dv.params.len(),
            ind == indent@,
            dv == def@,
            out@ == old(out)@ + spec_flag_reads(ind, dv, i as int),
        decreases count - i,
    {
        let ghost before = out@;
        assert(dv.params[i as int] == def.params@[i as int]@);
        write_read_flags(out, indent, &def.params[i]);
        let ghost mark1 = spec_read_flags(ind, dv.params[i as int]);
        assert(out@ == before + mark1);
        proof { lemma_joined(old(out)@, spec_flag_reads(ind, dv, i as int), spec_read_flags(ind, dv.params[i as int])); }
        i += 1;
    }
}

/// The statements that read the parameters of a definition.
/// The first `n` of them.
pub open spec fn spec_read_params(ind: Seq<u8>, dv: DefinitionView, n: int) -> Seq<u8>
    decreases n,
{
    if n <= 0 {
        Seq::empty()
    } else {
        spec_read_params(ind, dv, n - 1) + (spec_read_param(ind, dv.params[n - 1]))
    }
}

/// Appends: the statements that read the parameters of a definition.
pub fn write_read_params(out: &mut Vec<u8>, indent: &[u8], def: &Definition)
    ensures
        final(out)@ == old(out)@ + spec_read_params(indent@, def@, def@.params.len() as int),
{
    let ghost ind = indent@;
    let ghost dv = def@;
    let mut i: usize = 0;
    let count: usize = def.params.len();
    proof { lemma_nothing(old(out)@); }
    while i < count
        invariant
            i <= count,
            count == dv.params.len(),
            ind == indent@,
            dv == def@,
            out@ == old(out)@ + spec_read_params(ind, dv, i as int),
        decreases count - i,
    {
        let ghost before = out@;
        assert(dv.params[i as int] == def.params@[i as int]@);
        write_read_param(out, indent, &def.params[i]);
        let ghost mark1 = spec_read_param(ind, dv.params[i as int]);
        assert(out@ == before + mark1);
        proof { lemma_joined(old(out)@, spec_read_params(ind, dv, i as int), spec_read_param(ind, dv.params[i as int])); }
        i += 1;
    }
}

/// The lines that name the fields of a record.
/// The first `n` of them.
pub open spec fn spec_field_names(ind: Seq<u8>, dv: DefinitionView, n: int) -> Seq<u8>
    decreases n,
{
    if n <= 0 {
        Seq::empty()
    } else {
        spec_field_names(ind, dv, n - 1) + (spec_field_name(ind, dv.params[n - 1]))
    }
}

/// Appends: the lines that name the fields of a record.
pub fn write_field_names(out: &mut Vec<u8>, indent: &[u8], def: &Definition)
    ensures
        final(out)@ == old(out)@ + spec_field_names(indent@, def@, def@.params.len() as int),
{
    let ghost ind = indent@;
    let ghost dv = def@;
    let mut i: usize = 0;
    let count: usize = def.params.len();
    proof { lemma_nothing(old(out)@); }
    while i < count
        invariant
            i <= count,
            count == dv.params.len(),
            ind == indent@,
            dv == def@,
            out@ == old(out)@ + spec_field_names(ind, dv, i as int),
        decreases count - i,
    {
        let ghost before = out@;
        assert(dv.params[i as int] == def.params@[i as int]@);
        write_field_name(out, indent, &def.params[i]);
        let ghost mark1 = spec_field_name(ind, dv.params[i as int]);
        assert(out@ == before + mark1);
        proof { lemma_joined(old(out)@, spec_field_names(ind, dv, i as int), spec_field_name(ind, dv.params[i as int])); }
        i += 1;
    }
}

/// The impl that reads a record from bytes: the flags words first, then the
/// other parameters in order.
pub open spec fn spec_struct_deserializable(ind: Seq<u8>, dv: DefinitionView) -> Seq<u8> {
    ind + lit("impl") + spec_generic_list(dv, lit(": crate::Deserializable")) + lit(" crate::Deserializable for ") + spec_to_pascal(encode_utf8(dv.name)) + spec_generic_list(dv, lit("")) + lit(" {\n") + ind + lit("    fn deserialize(") + (if dv.params.len() == 0 { lit("_buf") } else { lit("buf") }) + lit(": crate::deserialize::Buffer) -> crate::deserialize::Result<Self> {\n") + spec_flag_reads(ind, dv, dv.params.len() as int) + spec_read_params(ind, dv, dv.params.len() as int) + ind + lit("        Ok(Self {\n") + spec_field_names(ind, dv, dv.params.len() as int) + ind + lit("        })\n") + ind + lit("    }\n") + ind + lit("}\n")
}

/// Appends: the impl that reads a record from bytes: the flags words first, then the
/// other parameters in order.
pub fn write_struct_deserializable(out: &mut Vec<u8>, indent: &[u8], def: &Definition)
    ensures
        final(out)@ == old(out)@ + spec_struct_deserializable(indent@, def@),
{
    let ghost ind = indent@;
    let ghost dv = def@;
    let tn = pascal_bytes(def.name.as_str().as_bytes());
    let gl = generic_list(def, "");
    let gd = generic_list(def, ": crate::Deserializable");
    push_all(out, indent);
    let ghost mark1 = ind;
    assert(out@ == old(out)@ + mark1);
    emit(out, "impl");
    let ghost mark2 = mark1 + lit("impl");
    proof { lemma_joined(old(out)@, mark1, lit("impl")); }
    assert(out@ == old(out)@ + mark2);
    push_all(out, gd.as_slice());
    let ghost mark3 = mark2 + spec_generic_list(dv, lit(": crate::Deserializable"));
    proof { lemma_joined(old(out)@, mark2, spec_generic_list(dv, lit(": crate::Deserializable"))); }
    assert(out@ == old(out)@ + mark3);
    emit(out, " crate::Deserializable for ");
    let ghost mark4 = mark3 + lit(" crate::Deserializable for ");
    proof { lemma_joined(old(out)@, mark3, lit(" crate::Deserializable for ")); }
    assert(out@ == old(out)@ + mark4);
    push_all(out, tn.as_slice());
    let ghost mark5 = mark4 + spec_to_pascal(encode_utf8(dv.name));
    proof { lemma_joined(old(out)@, mark4, spec_to_pascal(encode_utf8(dv.name))); }
    assert(out@ == old(out)@ + mark5);
    push_all(out, gl.as_slice());
    let ghost mark6 = mark5 + spec_generic_list(dv, lit(""));
    proof { lemma_joined(old(out)@, mark5, spec_generic_list(dv, lit(""))); }
    assert(out@ == old(out)@ + mark6);
    emit(out, " {\n");
    let ghost mark7 = mark6 + lit(" {\n");
    proof { lemma_joined(old(out)@, mark6, lit(" {\n")); }
    assert(out@ == old(out)@ + mark7);
    push_all(out, indent);
    let ghost mark8 = mark7 + ind;
    proof { lemma_joined(old(out)@, mark7, ind); }
    assert(out@ == old(out)@ + mark8);
    emit(out, "    fn deserialize(");
    let ghost mark9 = mark8 + lit("    fn deserialize(");
    proof { lemma_joined(old(out)@, mark8, lit("    fn deserialize(")); }
    assert(out@ == old(out)@ + mark9);
    let ghost mark10 = out@;
    if def.params.len() == 0 {
        emit(out, "_buf");
        let ghost mark11 = lit("_buf");
        assert(out@ == mark10 + mark11);
    } else {
        emit(out, "buf");
        let ghost mark12 = lit("buf");
        assert(out@ == mark10 + mark12);
    }
    let ghost mark13 = mark9 + (if dv.params.len() == 0 { lit("_buf") } else { lit("buf") });
    proof { lemma_joined(old(out)@, mark9, (if dv.params.len() == 0 { lit("_buf") } else { lit("buf") })); }
    assert(out@ == old(out)@ + mark13);
    emit(out, ": crate::deserialize::Buffer) -> crate::deserialize::Result<Self> {\n");
    let ghost mark14 = mark13 + lit(": crate::deserialize::Buffer) -> crate::deserialize::Result<Self> {\n");
    proof { lemma_joined(old(out)@, mark13, lit(": crate::deserialize::Buffer) -> crate::deserialize::Result<Self> {\n")); }
    assert(out@ == old(out)@ + mark14);
    write_flag_reads(out, indent, def);
    let ghost mark15 = mark14 + spec_flag_reads(ind, dv, dv.params.len() as int);
    proof { lemma_joined(old(out)@, mark14, spec_flag_reads(ind, dv, dv.params.len() as int)); }
    assert(out@ == old(out)@ + mark15);
    write_read_params(out, indent, def);
    let ghost mark16 = mark15 + spec_read_params(ind, dv, dv.params.len() as int);
    proof { lemma_joined(old(out)@, mark15, spec_read_params(ind, dv, dv.params.len() as int)); }
    assert(out@ == old(out)@ + mark16);
    push_all(out, indent);
    let ghost mark17 = mark16 + ind;
    proof { lemma_joined(old(out)@, mark16, ind); }
    assert(out@ == old(out)@ + mark17);
    emit(out, "        Ok(Self {\n");
    let ghost mark18 = mark17 + lit("        Ok(Self {\n");
    proof { lemma_joined(old(out)@, mark17, lit("        Ok(Self {\n")); }
    assert(out@ == old(out)@ + mark18);
    write_field_names(out, indent, def);
    let ghost mark19 = mark18 + spec_field_names(ind, dv, dv.params.len() as int);
    proof { lemma_joined(old(out)@, mark18, spec_field_names(ind, dv, dv.params.len() as int)); }
    assert(out@ == old(out)@ + mark19);
    push_all(out, indent);
    let ghost mark20 = mark19 + ind;
    proof { lemma_joined(old(out)@, mark19, ind); }
    assert(out@ == old(out)@ + mark20);
    emit(out, "        })\n");
    let ghost mark21 = mark20 + lit("        })\n");
    proof { lemma_joined(old(out)@, mark20, lit("        })\n")); }
    assert(out@ == old(out)@ + mark21);
    push_all(out, indent);
    let ghost mark22 = mark21 + ind;
    proof { lemma_joined(old(out)@, mark21, ind); }
    assert(out@ == old(out)@ + mark22);
    emit(out, "    }\n");
    let ghost mark23 = mark22 + lit("    }\n");
    proof { lemma_joined(old(out)@, mark22, lit("    }\n")); }
    assert(out@ == old(out)@ + mark23);
    push_all(out, indent);
    let ghost mark24 = mark23 + ind;
    proof { lemma_joined(old(out)@, mark23, ind); }
    assert(out@ == old(out)@ + mark24);
    emit(out, "}\n");
    let ghost mark25 = mark24 + lit("}\n");
    proof { lemma_joined(old(out)@, mark24, lit("}\n")); }
    assert(out@ == old(out)@ + mark25);
}

/// The impl that names the type that a function returns.
pub open spec fn spec_remote_call(ind: Seq<u8>, dv: DefinitionView) -> Seq<u8> {
    ind + lit("impl") + spec_generic_list(dv, lit(": crate::Serializable + crate::Deserializable")) + lit(" crate::RemoteCall for ") + spec_to_pascal(encode_utf8(dv.name)) + spec_generic_list(dv, lit("")) + lit(" {\n") + ind + lit("    type Return = ") + spec_type_path(dv.ty, false) + lit(";\n") + ind + lit("}\n")
}

/// Appends: the impl that names the type that a function returns.
pub fn write_remote_call(out: &mut Vec<u8>, indent: &[u8], def: &Definition)
    ensures
        final(out)@ == old(out)@ + spec_remote_call(indent@, def@),
{
    let ghost ind = indent@;
    let ghost dv = def@;
    let tn = pascal_bytes(def.name.as_str().as_bytes());
    let gl = generic_list(def, "");
    let gb = generic_list(def, ": crate::Serializable + crate::Deserializable");
    let ret = type_path_bytes(&def.ty, false);
    push_all(out, indent);
    let ghost mark1 = ind;
    assert(out@ == old(out)@ + mark1);
    emit(out, "impl");
    let ghost mark2 = mark1 + lit("impl");
    proof { lemma_joined(old(out)@, mark1, lit("impl")); }
    assert(out@ == old(out)@ + mark2);
    push_all(out, gb.as_slice());
    let ghost mark3 = mark2 + spec_generic_list(dv, lit(": crate::Serializable + crate::Deserializable"));
    proof { lemma_joined(old(out)@, mark2, spec_generic_list(dv, lit(": crate::Serializable + crate::Deserializable"))); }
    assert(out@ == old(out)@ + mark3);
    emit(out, " crate::RemoteCall for ");
    let ghost mark4 = mark3 + lit(" crate::RemoteCall for ");
    proof { lemma_joined(old(out)@, mark3, lit(" crate::RemoteCall for ")); }
    assert(out@ == old(out)@ + mark4);
    push_all(out, tn.as_slice());
    let ghost mark5 = mark4 + spec_to_pascal(encode_utf8(dv.name));
    proof { lemma_joined(old(out)@, mark4, spec_to_pascal(encode_utf8(dv.name))); }
    assert(out@ == old(out)@ + mark5);
    push_all(out, gl.as_slice());
    let ghost mark6 = mark5 + spec_generic_list(dv, lit(""));
    proof { lemma_joined(old(out)@, mark5, spec_generic_list(dv, lit(""))); }
    assert(out@ == old(out)@ + mark6);
    emit(out, " {\n");
    let ghost mark7 = mark6 + lit(" {\n");
    proof { lemma_joined(old(out)@, mark6, lit(" {\n")); }
    assert(out@ == old(out)@ + mark7);
    push_all(out, indent);
    let ghost mark8 = mark7 + ind;
    proof { lemma_joined(old(out)@, mark7, ind); }
    assert(out@ == old(out)@ + mark8);
    emit(out, "    type Return = ");
    let ghost mark9 = mark8 + lit("    type Return = ");
    proof { lemma_joined(old(out)@, mark8, lit("    type Return = ")); }
    assert(out@ == old(out)@ + mark9);
    push_all(out, ret.as_slice());
    let ghost mark10 = mark9 + spec_type_path(dv.ty, false);
    proof { lemma_joined(old(out)@, mark9, spec_type_path(dv.ty, false)); }
    assert(out@ == old(out)@ + mark10);
    emit(out, ";\n");
    let ghost mark11 = mark10 + lit(";\n");
    proof { lemma_joined(old(out)@, mark10, lit(";\n")); }
    assert(out@ == old(out)@ + mark11);
    push_all(out, indent);
    let ghost mark12 = mark11 + ind;
    proof { lemma_joined(old(out)@, mark11, ind); }
    assert(out@ == old(out)@ + mark12);
    emit(out, "}\n");
    let ghost mark13 = mark12 + lit("}\n");
    proof { lemma_joined(old(out)@, mark12, lit("}\n")); }
    assert(out@ == old(out)@ + mark13);
}

/// The places `v` as integers.
pub open spec fn places(v: Seq<usize>) -> Seq<int> {
    Seq::new(v.len(), |i: int| v[i] as int)
}

/// The indentation of what stands in the namespace `ns`: one step at the
/// top, two inside a namespace.
pub open spec fn spec_indent(ns: Seq<u8>) -> Seq<u8> {
    if ns.len() == 0 {
        lit("    ")
    } else {
        lit("        ")
    }
}

/// The indentation of what stands in the namespace `ns`.
pub fn indent_for(ns: &[u8]) -> (r: &'static [u8])
    ensures
        r@ == spec_indent(ns@),
{
    if ns.len() == 0 {
        "    ".as_bytes()
    } else {
        "        ".as_bytes()
    }
}

/// Whether the constructor at the place `at` is written behind an
/// indirection in its union.
pub open spec fn spec_marked(dvs: Seq<DefinitionView>, at: int) -> bool {
    dvs[at].category == Category::Types && spec_is_recursive(dvs, at)
}

/// `meta` is what the generator knows of the schema `defs`.
pub open spec fn knows(meta: Metadata, defs: Seq<Definition>) -> bool {
    &&& meta.marks().len() == defs.len()
    &&& forall|i: int|
        0 <= i < defs.len() ==> #[trigger] meta.marks()[i] == spec_marked(defs_view(defs), i)
}

/// Whether a type is one that the generated code takes from the language:
/// it gets no union.
pub open spec fn spec_is_builtin(ty: TypeView) -> bool {
    encode_utf8(ty.name) == lit("Bool") || encode_utf8(ty.name) == lit("True")
}

/// Whether `ty` gets no union.
pub fn is_builtin(ty: &Type) -> (r: bool)
    ensures
        r == spec_is_builtin(ty@),
{
    let name = ty.name.as_str().as_bytes();
    bytes_eq(name, "Bool".as_bytes()) || bytes_eq(name, "True".as_bytes())
}


/// The row of the table of names for a definition.
pub open spec fn spec_name_row(dv: DefinitionView) -> Seq<u8> {
    lit("        ") + spec_hex10(dv.id) + lit(" => Some(\"") + spec_full_name(dv) + lit("\"),\n")
}

/// Appends: the row of the table of names for a definition.
pub fn write_name_row(out: &mut Vec<u8>, def: &Definition)
    ensures
        final(out)@ == old(out)@ + spec_name_row(def@),
{
    let ghost dv = def@;
    emit(out, "        ");
    let ghost mark1 = lit("        ");
    assert(out@ == old(out)@ + mark1);
    push_hex10(out, def.id);
    let ghost mark2 = mark1 + spec_hex10(dv.id);
    proof { lemma_joined(old(out)@, mark1, spec_hex10(dv.id)); }
    assert(out@ == old(out)@ + mark2);
    emit(out, " => Some(\"");
    let ghost mark3 = mark2 + lit(" => Some(\"");
    proof { lemma_joined(old(out)@, mark2, lit(" => Some(\"")); }
    assert(out@ == old(out)@ + mark3);
    push_full_name(out, def);
    let ghost mark4 = mark3 + spec_full_name(dv);
    proof { lemma_joined(old(out)@, mark3, spec_full_name(dv)); }
    assert(out@ == old(out)@ + mark4);
    emit(out, "\"),\n");
    let ghost mark5 = mark4 + lit("\"),\n");
    proof { lemma_joined(old(out)@, mark4, lit("\"),\n")); }
    assert(out@ == old(out)@ + mark5);
}

/// The rows of the table of names.
/// The first `n` of them.
pub open spec fn spec_name_rows(dvs: Seq<DefinitionView>, n: int) -> Seq<u8>
    decreases n,
{
    if n <= 0 {
        Seq::empty()
    } else {
        spec_name_rows(dvs, n - 1) + (spec_name_row(dvs[n - 1]))
    }
}

/// Appends: the rows of the table of names.
pub fn write_name_rows(out: &mut Vec<u8>, defs: &[Definition])
    ensures
        final(out)@ == old(out)@ + spec_name_rows(defs_view(defs@), defs@.len() as int),
{
    let ghost dvs = defs_view(defs@);
    let mut i: usize = 0;
    let count: usize = defs.len();
    proof { lemma_nothing(old(out)@); }
    while i < count
        invariant
            i <= count,
            count == dvs.len(),
            dvs == defs_view(defs@),
            out@ == old(out)@ + spec_name_rows(dvs, i as int),
        decreases count - i,
    {
        let ghost before = out@;
        assert(dvs[i as int] == defs@[i as int]@);
        write_name_row(out, &defs[i]);
        let ghost mark1 = spec_name_row(dvs[i as int]);
        assert(out@ == before + mark1);
        proof { lemma_joined(old(out)@, spec_name_rows(dvs, i as int), spec_name_row(dvs[i as int])); }
        i += 1;
    }
}

/// The module that the others share: the layer, and where `cfg` asks for it
/// the table from constructor IDs to names.
pub open spec fn spec_common(dvs: Seq<DefinitionView>, cfg: Config) -> Seq<u8> {
    lit("// @generated — do not edit by hand\n// Re-run the build script to regenerate.\n\n/// The API layer this code was generated from.\npub const LAYER: i32 = 0; // update via build.rs\n\n") + (if cfg.gen_name_for_id { lit("/// Returns the TL name for a known constructor ID.\npub fn name_for_id(id: u32) -> Option<&'static str> {\n    match id {\n") + spec_name_rows(dvs, dvs.len() as int) + lit("        _ => None,\n    }\n}\n") } else { Seq::<u8>::empty() })
}

/// Appends: the module that the others share: the layer, and where `cfg` asks for it
/// the table from constructor IDs to names.
pub fn write_common(out: &mut Vec<u8>, defs: &[Definition], config: &Config)
    ensures
        final(out)@ == old(out)@ + spec_common(defs_view(defs@), *config),
{
    let ghost dvs = defs_view(defs@);
    let ghost cfg = *config;
    emit(out, "// @generated — do not edit by hand\n// Re-run the build script to regenerate.\n\n/// The API layer this code was generated from.\npub const LAYER: i32 = 0; // update via build.rs\n\n");
    let ghost mark1 = lit("// @generated — do not edit by hand\n// Re-run the build script to regenerate.\n\n/// The API layer this code was generated from.\npub const LAYER: i32 = 0; // update via build.rs\n\n");
    assert(out@ == old(out)@ + mark1);
    let ghost mark2 = out@;
    if config.gen_name_for_id {
        emit(out, "/// Returns the TL name for a known constructor ID.\npub fn name_for_id(id: u32) -> Option<&'static str> {\n    match id {\n");
        let ghost mark3 = lit("/// Returns the TL name for a known constructor ID.\npub fn name_for_id(id: u32) -> Option<&'static str> {\n    match id {\n");
        assert(out@ == mark2 + mark3);
        write_name_rows(out, defs);
        let ghost mark4 = mark3 + spec_name_rows(dvs, dvs.len() as int);
        proof { lemma_joined(mark2, mark3, spec_name_rows(dvs, dvs.len() as int)); }
        assert(out@ == mark2 + mark4);
        emit(out, "        _ => None,\n    }\n}\n");
        let ghost mark5 = mark4 + lit("        _ => None,\n    }\n}\n");
        proof { lemma_joined(mark2, mark4, lit("        _ => None,\n    }\n}\n")); }
        assert(out@ == mark2 + mark5);
    } else {
        proof { lemma_nothing(mark2); }
    }
    let ghost mark6 = mark1 + (if cfg.gen_name_for_id { lit("/// Returns the TL name for a known constructor ID.\npub fn name_for_id(id: u32) -> Option<&'static str> {\n    match id {\n") + spec_name_rows(dvs, dvs.len() as int) + lit("        _ => None,\n    }\n}\n") } else { Seq::<u8>::empty() });
    proof { lemma_joined(old(out)@, mark1, (if cfg.gen_name_for_id { lit("/// Returns the TL name for a known constructor ID.\npub fn name_for_id(id: u32) -> Option<&'static str> {\n    match id {\n") + spec_name_rows(dvs, dvs.len() as int) + lit("        _ => None,\n    }\n}\n") } else { Seq::<u8>::empty() })); }
    assert(out@ == old(out)@ + mark6);
}

/// All that is written for one definition: the record, its constructor ID and
/// the impl that writes it; for a constructor the impl that reads it; for a
/// function that impl where `cfg` asks for it, and the type it returns.
pub open spec fn spec_record(ind: Seq<u8>, dv: DefinitionView, cfg: Config) -> Seq<u8> {
    spec_struct(ind, dv, cfg) + spec_identifiable(ind, dv) + spec_struct_serializable(ind, dv) + (if dv.category == Category::Types { spec_struct_deserializable(ind, dv) } else { (if cfg.deserializable_functions { spec_struct_deserializable(ind, dv) } else { Seq::<u8>::empty() }) + spec_remote_call(ind, dv) })
}

/// Appends: all that is written for one definition: the record, its constructor ID and
/// the impl that writes it; for a constructor the impl that reads it; for a
/// function that impl where `cfg` asks for it, and the type it returns.
pub fn write_record(out: &mut Vec<u8>, indent: &[u8], def: &Definition, config: &Config)
    ensures
        final(out)@ == old(out)@ + spec_record(indent@, def@, *config),
{
    let ghost ind = indent@;
    let ghost dv = def@;
    let ghost cfg = *config;
    write_struct(out, indent, def, config);
    let ghost mark1 = spec_struct(ind, dv, cfg);
    assert(out@ == old(out)@ + mark1);
    write_identifiable(out, indent, def);
    let ghost mark2 = mark1 + spec_identifiable(ind, dv);
    proof { lemma_joined(old(out)@, mark1, spec_identifiable(ind, dv)); }
    assert(out@ == old(out)@ + mark2);
    write_struct_serializable(out, indent, def);
    let ghost mark3 = mark2 + spec_struct_serializable(ind, dv);
    proof { lemma_joined(old(out)@, mark2, spec_struct_serializable(ind, dv)); }
    assert(out@ == old(out)@ + mark3);
    let ghost mark4 = out@;
    if is_constructor(def) {
        write_struct_deserializable(out, indent, def);
        let ghost mark5 = spec_struct_deserializable(ind, dv);
        assert(out@ == mark4 + mark5);
    } else {
        let ghost mark6 = out@;
        if config.deserializable_functions {
            write_struct_deserializable(out, indent, def);
            let ghost mark7 = spec_struct_deserializable(ind, dv);
            assert(out@ == mark6 + mark7);
        } else {
            proof { lemma_nothing(mark6); }
        }
        let ghost mark8 = (if cfg.deserializable_functions { spec_struct_deserializable(ind, dv) } else { Seq::<u8>::empty() });
        assert(out@ == mark4 + mark8);
        write_remote_call(out, indent, def);
        let ghost mark9 = mark8 + spec_remote_call(ind, dv);
        proof { lemma_joined(mark4, mark8, spec_remote_call(ind, dv)); }
        assert(out@ == mark4 + mark9);
    }
    let ghost mark10 = mark3 + (if dv.category == Category::Types { spec_struct_deserializable(ind, dv) } else { (if cfg.deserializable_functions { spec_struct_deserializable(ind, dv) } else { Seq::<u8>::empty() }) + spec_remote_call(ind, dv) });
    proof { lemma_joined(old(out)@, mark3, (if dv.category == Category::Types { spec_struct_deserializable(ind, dv) } else { (if cfg.deserializable_functions { spec_struct_deserializable(ind, dv) } else { Seq::<u8>::empty() }) + spec_remote_call(ind, dv) })); }
    assert(out@ == old(out)@ + mark10);
}

/// What is written for the definitions at the places `ms`.
/// The first `n` of them.
pub open spec fn spec_records(ind: Seq<u8>, dvs: Seq<DefinitionView>, ms: Seq<int>, cfg: Config, n: int) -> Seq<u8>
    decreases n,
{
    if n <= 0 {
        Seq::empty()
    } else {
        spec_records(ind, dvs, ms, cfg, n - 1) + (spec_record(ind, dvs[ms[n - 1]], cfg))
    }
}

/// Appends: what is written for the definitions at the places `ms`.
pub fn write_records(out: &mut Vec<u8>, indent: &[u8], defs: &[Definition], members: &Vec<usize>, config: &Config)
    requires
        forall|k: int| 0 <= k < members@.len() ==> #[trigger] members@[k] < defs@.len(),
    ensures
        final(out)@ == old(out)@ + spec_records(indent@, defs_view(defs@), places(members@), *config, members@.len() as int),
{
    let ghost ind = indent@;
    let ghost dvs = defs_view(defs@);
    let ghost ms = places(members@);
    let ghost cfg = *config;
    let mut i: usize = 0;
    let count: usize = members.len();
    proof { lemma_nothing(old(out)@); }
    while i < count
        invariant
            i <= count,
            count == ms.len(),
            ind == indent@,
            dvs == defs_view(defs@),
            ms == places(members@),
            cfg == *config,
            forall|k: int| 0 <= k < members@.len() ==> #[trigger] members@[k] < defs@.len(),
            out@ == old(out)@ + spec_records(ind, dvs, ms, cfg, i as int),
        decreases count - i,
    {
        let ghost before = out@;
        assert(dvs[ms[i as int]] == defs@[members@[i as int] as int]@);
        write_record(out, indent, &defs[members[i]], config);
        let ghost mark1 = spec_record(ind, dvs[ms[i as int]], cfg);
        assert(out@ == before + mark1);
        proof { lemma_joined(old(out)@, spec_records(ind, dvs, ms, cfg, i as int), spec_record(ind, dvs[ms[i as int]], cfg)); }
        i += 1;
    }
}

/// The records of one namespace, inside a module of its name where it has
/// one.
pub open spec fn spec_group(dvs: Seq<DefinitionView>, gv: GroupView, cfg: Config) -> Seq<u8> {
    (if gv.ns.len() == 0 { Seq::<u8>::empty() } else { lit("    pub mod ") + gv.ns + lit(" {\n") }) + spec_records(spec_indent(gv.ns), dvs, gv.members, cfg, gv.members.len() as int) + (if gv.ns.len() == 0 { Seq::<u8>::empty() } else { lit("    }\n") })
}

/// Appends: the records of one namespace, inside a module of its name where it has
/// one.
pub fn write_group(out: &mut Vec<u8>, defs: &[Definition], group: &Group, config: &Config)
    requires
        forall|k: int| 0 <= k < group.members@.len() ==> #[trigger] group.members@[k] < defs@.len(),
    ensures
        final(out)@ == old(out)@ + spec_group(defs_view(defs@), group@, *config),
{
    let ghost dvs = defs_view(defs@);
    let ghost gv = group@;
    let ghost cfg = *config;
    assert(places(group.members@) =~= gv.members);
    let ghost mark1 = out@;
    if group.ns.len() == 0 {
        proof { lemma_nothing(mark1); }
    } else {
        emit(out, "    pub mod ");
        let ghost mark2 = lit("    pub mod ");
        assert(out@ == mark1 + mark2);
        push_all(out, group.ns.as_slice());
        let ghost mark3 = mark2 + gv.ns;
        proof { lemma_joined(mark1, mark2, gv.ns); }
        assert(out@ == mark1 + mark3);
        emit(out, " {\n");
        let ghost mark4 = mark3 + lit(" {\n");
        proof { lemma_joined(mark1, mark3, lit(" {\n")); }
        assert(out@ == mark1 + mark4);
    }
    let ghost mark5 = (if gv.ns.len() == 0 { Seq::<u8>::empty() } else { lit("    pub mod ") + gv.ns + lit(" {\n") });
    assert(out@ == old(out)@ + mark5);
    write_records(out, indent_for(group.ns.as_slice()), defs, &group.members, config);
    let ghost mark6 = mark5 + spec_records(spec_indent(gv.ns), dvs, gv.members, cfg, gv.members.len() as int);
    proof { lemma_joined(old(out)@, mark5, spec_records(spec_indent(gv.ns), dvs, gv.members, cfg, gv.members.len() as int)); }
    assert(out@ == old(out)@ + mark6);
    let ghost mark7 = out@;
    if group.ns.len() == 0 {
        proof { lemma_nothing(mark7); }
    } else {
        emit(out, "    }\n");
        let ghost mark8 = lit("    }\n");
        assert(out@ == mark7 + mark8);
    }
    let ghost mark9 = mark6 + (if gv.ns.len() == 0 { Seq::<u8>::empty() } else { lit("    }\n") });
    proof { lemma_joined(old(out)@, mark6, (if gv.ns.len() == 0 { Seq::<u8>::empty() } else { lit("    }\n") })); }
    assert(out@ == old(out)@ + mark9);
}

/// The records of the namespaces `gvs`, one after the other.
/// The first `n` of them.
pub open spec fn spec_groups(dvs: Seq<DefinitionView>, gvs: Seq<GroupView>, cfg: Config, n: int) -> Seq<u8>
    decreases n,
{
    if n <= 0 {
        Seq::empty()
    } else {
        spec_groups(dvs, gvs, cfg, n - 1) + (spec_group(dvs, gvs[n - 1], cfg))
    }
}

/// Appends: the records of the namespaces `gvs`, one after the other.
pub fn write_groups(out: &mut Vec<u8>, defs: &[Definition], groups: &Vec<Group>, config: &Config)
    requires
        forall|g: int, k: int| 0 <= g < groups@.len() && 0 <= k < groups@[g].members@.len() ==> #[trigger] groups@[g].members@[k] < defs@.len(),
    ensures
        final(out)@ == old(out)@ + spec_groups(defs_view(defs@), groups_view(groups@), *config, groups@.len() as int),
{
    let ghost dvs = defs_view(defs@);
    let ghost gvs = groups_view(groups@);
    let ghost cfg = *config;
    let mut i: usize = 0;
    let count: usize = groups.len();
    proof { lemma_nothing(old(out)@); }
    while i < count
        invariant
            i <= count,
            count == gvs.len(),
            dvs == defs_view(defs@),
            gvs == groups_view(groups@),
            cfg == *config,
            forall|g: int, k: int| 0 <= g < groups@.len() && 0 <= k < groups@[g].members@.len() ==> #[trigger] groups@[g].members@[k] < defs@.len(),
            out@ == old(out)@ + spec_groups(dvs, gvs, cfg, i as int),
        decreases count - i,
    {
        let ghost before = out@;
        assert(gvs[i as int] == groups@[i as int]@);
        write_group(out, defs, &groups[i], config);
        let ghost mark1 = spec_group(dvs, gvs[i as int], cfg);
        assert(out@ == before + mark1);
        proof { lemma_joined(old(out)@, spec_groups(dvs, gvs, cfg, i as int), spec_group(dvs, gvs[i as int], cfg)); }
        i += 1;
    }
}

/// The module of the constructors' records, by namespace.
pub open spec fn spec_types_mod(dvs: Seq<DefinitionView>, cfg: Config) -> Seq<u8> {
    lit("// @generated — do not edit by hand\npub mod types {\n") + spec_groups(dvs, spec_group_by_ns(dvs, Category::Types), cfg, spec_group_by_ns(dvs, Category::Types).len() as int) + lit("}\n")
}

/// Appends: the module of the constructors' records, by namespace.
pub fn write_types_mod(out: &mut Vec<u8>, defs: &[Definition], config: &Config)
    ensures
        final(out)@ == old(out)@ + spec_types_mod(defs_view(defs@), *config),
{
    let ghost dvs = defs_view(defs@);
    let ghost cfg = *config;
    let groups = group_by_ns(defs, Category::Types);
    emit(out, "// @generated — do not edit by hand\npub mod types {\n");
    let ghost mark1 = lit("// @generated — do not edit by hand\npub mod types {\n");
    assert(out@ == old(out)@ + mark1);
    write_groups(out, defs, &groups, config);
    let ghost mark2 = mark1 + spec_groups(dvs, spec_group_by_ns(dvs, Category::Types), cfg, spec_group_by_ns(dvs, Category::Types).len() as int);
    proof { lemma_joined(old(out)@, mark1, spec_groups(dvs, spec_group_by_ns(dvs, Category::Types), cfg, spec_group_by_ns(dvs, Category::Types).len() as int)); }
    assert(out@ == old(out)@ + mark2);
    emit(out, "}\n");
    let ghost mark3 = mark2 + lit("}\n");
    proof { lemma_joined(old(out)@, mark2, lit("}\n")); }
    assert(out@ == old(out)@ + mark3);
}

/// The module of the functions' records, by namespace.
pub open spec fn spec_functions_mod(dvs: Seq<DefinitionView>, cfg: Config) -> Seq<u8> {
    lit("// @generated — do not edit by hand\npub mod functions {\n") + spec_groups(dvs, spec_group_by_ns(dvs, Category::Functions), cfg, spec_group_by_ns(dvs, Category::Functions).len() as int) + lit("}\n")
}

/// Appends: the module of the functions' records, by namespace.
pub fn write_functions_mod(out: &mut Vec<u8>, defs: &[Definition], config: &Config)
    ensures
        final(out)@ == old(out)@ + spec_functions_mod(defs_view(defs@), *config),
{
    let ghost dvs = defs_view(defs@);
    let ghost cfg = *config;
    let groups = group_by_ns(defs, Category::Functions);
    emit(out, "// @generated — do not edit by hand\npub mod functions {\n");
    let ghost mark1 = lit("// @generated — do not edit by hand\npub mod functions {\n");
    assert(out@ == old(out)@ + mark1);
    write_groups(out, defs, &groups, config);
    let ghost mark2 = mark1 + spec_groups(dvs, spec_group_by_ns(dvs, Category::Functions), cfg, spec_group_by_ns(dvs, Category::Functions).len() as int);
    proof { lemma_joined(old(out)@, mark1, spec_groups(dvs, spec_group_by_ns(dvs, Category::Functions), cfg, spec_group_by_ns(dvs, Category::Functions).len() as int)); }
    assert(out@ == old(out)@ + mark2);
    emit(out, "}\n");
    let ghost mark3 = mark2 + lit("}\n");
    proof { lemma_joined(old(out)@, mark2, lit("}\n")); }
    assert(out@ == old(out)@ + mark3);
}

/// The variant of a union for a constructor: bare where it has no
/// parameters, behind an indirection where it is recursive.
pub open spec fn spec_enum_variant(ind: Seq<u8>, dv: DefinitionView, rec: bool) -> Seq<u8> {
    (if dv.params.len() == 0 { ind + lit("    ") + spec_def_variant_name(dv) + lit(",\n") } else { (if rec { ind + lit("    ") + spec_def_variant_name(dv) + lit("(Box<") + spec_def_qual_name(dv) + lit(">),\n") } else { ind + lit("    ") + spec_def_variant_name(dv) + lit("(") + spec_def_qual_name(dv) + lit("),\n") }) })
}

/// Appends: the variant of a union for a constructor: bare where it has no
/// parameters, behind an indirection where it is recursive.
pub fn write_enum_variant(out: &mut Vec<u8>, indent: &[u8], def: &Definition, rec: bool)
    ensures
        final(out)@ == old(out)@ + spec_enum_variant(indent@, def@, rec),
{
    let ghost ind = indent@;
    let ghost dv = def@;
    let variant = def_variant_name_bytes(def);
    let qual = def_qual_name_bytes(def);
    let ghost mark1 = out@;
    if def.params.len() == 0 {
        push_all(out, indent);
        let ghost mark2 = ind;
        assert(out@ == mark1 + mark2);
        emit(out, "    ");
        let ghost mark3 = mark2 + lit("    ");
        proof { lemma_joined(mark1, mark2, lit("    ")); }
        assert(out@ == mark1 + mark3);
        push_all(out, variant.as_slice());
        let ghost mark4 = mark3 + spec_def_variant_name(dv);
        proof { lemma_joined(mark1, mark3, spec_def_variant_name(dv)); }
        assert(out@ == mark1 + mark4);
        emit(out, ",\n");
        let ghost mark5 = mark4 + lit(",\n");
        proof { lemma_joined(mark1, mark4, lit(",\n")); }
        assert(out@ == mark1 + mark5);
    } else {
        let ghost mark6 = out@;
        if rec {
            push_all(out, indent);
            let ghost mark7 = ind;
            assert(out@ == mark6 + mark7);
            emit(out, "    ");
            let ghost mark8 = mark7 + lit("    ");
            proof { lemma_joined(mark6, mark7, lit("    ")); }
            assert(out@ == mark6 + mark8);
            push_all(out, variant.as_slice());
            let ghost mark9 = mark8 + spec_def_variant_name(dv);
            proof { lemma_joined(mark6, mark8, spec_def_variant_name(dv)); }
            assert(out@ == mark6 + mark9);
            emit(out, "(Box<");
            let ghost mark10 = mark9 + lit("(Box<");
            proof { lemma_joined(mark6, mark9, lit("(Box<")); }
            assert(out@ == mark6 + mark10);
            push_all(out, qual.as_slice());
            let ghost mark11 = mark10 + spec_def_qual_name(dv);
            proof { lemma_joined(mark6, mark10, spec_def_qual_name(dv)); }
            assert(out@ == mark6 + mark11);
            emit(out, ">),\n");
            let ghost mark12 = mark11 + lit(">),\n");
            proof { lemma_joined(mark6, mark11, lit(">),\n")); }
            assert(out@ == mark6 + mark12);
        } else {
            push_all(out, indent);
            let ghost mark13 = ind;
            assert(out@ == mark6 + mark13);
            emit(out, "    ");
            let ghost mark14 = mark13 + lit("    ");
            proof { lemma_joined(mark6, mark13, lit("    ")); }
            assert(out@ == mark6 + mark14);
            push_all(out, variant.as_slice());
            let ghost mark15 = mark14 + spec_def_variant_name(dv);
            proof { lemma_joined(mark6, mark14, spec_def_variant_name(dv)); }
            assert(out@ == mark6 + mark15);
            emit(out, "(");
            let ghost mark16 = mark15 + lit("(");
            proof { lemma_joined(mark6, mark15, lit("(")); }
            assert(out@ == mark6 + mark16);
            push_all(out, qual.as_slice());
            let ghost mark17 = mark16 + spec_def_qual_name(dv);
            proof { lemma_joined(mark6, mark16, spec_def_qual_name(dv)); }
            assert(out@ == mark6 + mark17);
            emit(out, "),\n");
            let ghost mark18 = mark17 + lit("),\n");
            proof { lemma_joined(mark6, mark17, lit("),\n")); }
            assert(out@ == mark6 + mark18);
        }
        let ghost mark19 = (if rec { ind + lit("    ") + spec_def_variant_name(dv) + lit("(Box<") + spec_def_qual_name(dv) + lit(">),\n") } else { ind + lit("    ") + spec_def_variant_name(dv) + lit("(") + spec_def_qual_name(dv) + lit("),\n") });
        assert(out@ == mark1 + mark19);
    }
    let ghost mark20 = (if dv.params.len() == 0 { ind + lit("    ") + spec_def_variant_name(dv) + lit(",\n") } else { (if rec { ind + lit("    ") + spec_def_variant_name(dv) + lit("(Box<") + spec_def_qual_name(dv) + lit(">),\n") } else { ind + lit("    ") + spec_def_variant_name(dv) + lit("(") + spec_def_qual_name(dv) + lit("),\n") }) });
    assert(out@ == old(out)@ + mark20);
}

/// The arm that writes one variant: the constructor ID, then the record
/// where it has parameters.
pub open spec fn spec_enum_ser_arm(ind: Seq<u8>, dv: DefinitionView) -> Seq<u8> {
    ind + lit("            Self::") + spec_def_variant_name(dv) + (if dv.params.len() == 0 { Seq::<u8>::empty() } else { lit("(x)") }) + lit(" => {\n") + ind + lit("                ") + spec_def_qual_name(dv) + lit("::CONSTRUCTOR_ID.serialize(buf);\n") + (if dv.params.len() == 0 { Seq::<u8>::empty() } else { ind + lit("                x.serialize(buf);\n") }) + ind + lit("            }\n")
}

/// Appends: the arm that writes one variant: the constructor ID, then the record
/// where it has parameters.
pub fn write_enum_ser_arm(out: &mut Vec<u8>, indent: &[u8], def: &Definition)
    ensures
        final(out)@ == old(out)@ + spec_enum_ser_arm(indent@, def@),
{
    let ghost ind = indent@;
    let ghost dv = def@;
    let variant = def_variant_name_bytes(def);
    let qual = def_qual_name_bytes(def);
    push_all(out, indent);
    let ghost mark1 = ind;
    assert(out@ == old(out)@ + mark1);
    emit(out, "            Self::");
    let ghost mark2 = mark1 + lit("            Self::");
    proof { lemma_joined(old(out)@, mark1, lit("            Self::")); }
    assert(out@ == old(out)@ + mark2);
    push_all(out, variant.as_slice());
    let ghost mark3 = mark2 + spec_def_variant_name(dv);
    proof { lemma_joined(old(out)@, mark2, spec_def_variant_name(dv)); }
    assert(out@ == old(out)@ + mark3);
    let ghost mark4 = out@;
    if def.params.len() == 0 {
        proof { lemma_nothing(mark4); }
    } else {
        emit(out, "(x)");
        let ghost mark5 = lit("(x)");
        assert(out@ == mark4 + mark5);
    }
    let ghost mark6 = mark3 + (if dv.params.len() == 0 { Seq::<u8>::empty() } else { lit("(x)") });
    proof { lemma_joined(old(out)@, mark3, (if dv.params.len() == 0 { Seq::<u8>::empty() } else { lit("(x)") })); }
    assert(out@ == old(out)@ + mark6);
    emit(out, " => {\n");
    let ghost mark7 = mark6 + lit(" => {\n");
    proof { lemma_joined(old(out)@, mark6, lit(" => {\n")); }
    assert(out@ == old(out)@ + mark7);
    push_all(out, indent);
    let ghost mark8 = mark7 + ind;
    proof { lemma_joined(old(out)@, mark7, ind); }
    assert(out@ == old(out)@ + mark8);
    emit(out, "                ");
    let ghost mark9 = mark8 + lit("                ");
    proof { lemma_joined(old(out)@, mark8, lit("                ")); }
    assert(out@ == old(out)@ + mark9);
    push_all(out, qual.as_slice());
    let ghost mark10 = mark9 + spec_def_qual_name(dv);
    proof { lemma_joined(old(out)@, mark9, spec_def_qual_name(dv)); }
    assert(out@ == old(out)@ + mark10);
    emit(out, "::CONSTRUCTOR_ID.serialize(buf);\n");
    let ghost mark11 = mark10 + lit("::CONSTRUCTOR_ID.serialize(buf);\n");
    proof { lemma_joined(old(out)@, mark10, lit("::CONSTRUCTOR_ID.serialize(buf);\n")); }
    assert(out@ == old(out)@ + mark11);
    let ghost mark12 = out@;
    if def.params.len() == 0 {
        proof { lemma_nothing(mark12); }
    } else {
        push_all(out, indent);
        let ghost mark13 = ind;
        assert(out@ == mark12 + mark13);
        emit(out, "                x.serialize(buf);\n");
        let ghost mark14 = mark13 + lit("                x.serialize(buf);\n");
        proof { lemma_joined(mark12, mark13, lit("                x.serialize(buf);\n")); }
        assert(out@ == mark12 + mark14);
    }
    let ghost mark15 = mark11 + (if dv.params.len() == 0 { Seq::<u8>::empty() } else { ind + lit("                x.serialize(buf);\n") });
    proof { lemma_joined(old(out)@, mark11, (if dv.params.len() == 0 { Seq::<u8>::empty() } else { ind + lit("                x.serialize(buf);\n") })); }
    assert(out@ == old(out)@ + mark15);
    push_all(out, indent);
    let ghost mark16 = mark15 + ind;
    proof { lemma_joined(old(out)@, mark15, ind); }
    assert(out@ == old(out)@ + mark16);
    emit(out, "            }\n");
    let ghost mark17 = mark16 + lit("            }\n");
    proof { lemma_joined(old(out)@, mark16, lit("            }\n")); }
    assert(out@ == old(out)@ + mark17);
}

/// The arm that reads one variant behind its constructor ID.
pub open spec fn spec_enum_de_arm(ind: Seq<u8>, dv: DefinitionView, rec: bool) -> Seq<u8> {
    (if dv.params.len() == 0 { ind + lit("            ") + spec_def_qual_name(dv) + lit("::CONSTRUCTOR_ID => Self::") + spec_def_variant_name(dv) + lit(",\n") } else { (if rec { ind + lit("            ") + spec_def_qual_name(dv) + lit("::CONSTRUCTOR_ID => Self::") + spec_def_variant_name(dv) + lit("(Box::new(") + spec_def_qual_name(dv) + lit("::deserialize(buf)?)),\n") } else { ind + lit("            ") + spec_def_qual_name(dv) + lit("::CONSTRUCTOR_ID => Self::") + spec_def_variant_name(dv) + lit("(") + spec_def_qual_name(dv) + lit("::deserialize(buf)?),\n") }) })
}

/// Appends: the arm that reads one variant behind its constructor ID.
pub fn write_enum_de_arm(out: &mut Vec<u8>, indent: &[u8], def: &Definition, rec: bool)
    ensures
        final(out)@ == old(out)@ + spec_enum_de_arm(indent@, def@, rec),
{
    let ghost ind = indent@;
    let ghost dv = def@;
    let variant = def_variant_name_bytes(def);
    let qual = def_qual_name_bytes(def);
    let ghost mark1 = out@;
    if def.params.len() == 0 {
        push_all(out, indent);
        let ghost mark2 = ind;
        assert(out@ == mark1 + mark2);
        emit(out, "            ");
        let ghost mark3 = mark2 + lit("            ");
        proof { lemma_joined(mark1, mark2, lit("            ")); }
        assert(out@ == mark1 + mark3);
        push_all(out, qual.as_slice());
        let ghost mark4 = mark3 + spec_def_qual_name(dv);
        proof { lemma_joined(mark1, mark3, spec_def_qual_name(dv)); }
        assert(out@ == mark1 + mark4);
        emit(out, "::CONSTRUCTOR_ID => Self::");
        let ghost mark5 = mark4 + lit("::CONSTRUCTOR_ID => Self::");
        proof { lemma_joined(mark1, mark4, lit("::CONSTRUCTOR_ID => Self::")); }
        assert(out@ == mark1 + mark5);
        push_all(out, variant.as_slice());
        let ghost mark6 = mark5 + spec_def_variant_name(dv);
        proof { lemma_joined(mark1, mark5, spec_def_variant_name(dv)); }
        assert(out@ == mark1 + mark6);
        emit(out, ",\n");
        let ghost mark7 = mark6 + lit(",\n");
        proof { lemma_joined(mark1, mark6, lit(",\n")); }
        assert(out@ == mark1 + mark7);
    } else {
        let ghost mark8 = out@;
        if rec {
            push_all(out, indent);
            let ghost mark9 = ind;
            assert(out@ == mark8 + mark9);
            emit(out, "            ");
            let ghost mark10 = mark9 + lit("            ");
            proof { lemma_joined(mark8, mark9, lit("            ")); }
            assert(out@ == mark8 + mark10);
            push_all(out, qual.as_slice());
            let ghost mark11 = mark10 + spec_def_qual_name(dv);
            proof { lemma_joined(mark8, mark10, spec_def_qual_name(dv)); }
            assert(out@ == mark8 + mark11);
            emit(out, "::CONSTRUCTOR_ID => Self::");
            let ghost mark12 = mark11 + lit("::CONSTRUCTOR_ID => Self::");
            proof { lemma_joined(mark8, mark11, lit("::CONSTRUCTOR_ID => Self::")); }
            assert(out@ == mark8 + mark12);
            push_all(out, variant.as_slice());
            let ghost mark13 = mark12 + spec_def_variant_name(dv);
            proof { lemma_joined(mark8, mark12, spec_def_variant_name(dv)); }
            assert(out@ == mark8 + mark13);
            emit(out, "(Box::new(");
            let ghost mark14 = mark13 + lit("(Box::new(");
            proof { lemma_joined(mark8, mark13, lit("(Box::new(")); }
            assert(out@ == mark8 + mark14);
            push_all(out, qual.as_slice());
            let ghost mark15 = mark14 + spec_def_qual_name(dv);
            proof { lemma_joined(mark8, mark14, spec_def_qual_name(dv)); }
            assert(out@ == mark8 + mark15);
            emit(out, "::deserialize(buf)?)),\n");
            let ghost mark16 = mark15 + lit("::deserialize(buf)?)),\n");
            proof { lemma_joined(mark8, mark15, lit("::deserialize(buf)?)),\n")); }
            assert(out@ == mark8 + mark16);
        } else {
            push_all(out, indent);
            let ghost mark17 = ind;
            assert(out@ == mark8 + mark17);
            emit(out, "            ");
            let ghost mark18 = mark17 + lit("            ");
            proof { lemma_joined(mark8, mark17, lit("            ")); }
            assert(out@ == mark8 + mark18);
            push_all(out, qual.as_slice());
            let ghost mark19 = mark18 + spec_def_qual_name(dv);
            proof { lemma_joined(mark8, mark18, spec_def_qual_name(dv)); }
            assert(out@ == mark8 + mark19);
            emit(out, "::CONSTRUCTOR_ID => Self::");
            let ghost mark20 = mark19 + lit("::CONSTRUCTOR_ID => Self::");
            proof { lemma_joined(mark8, mark19, lit("::CONSTRUCTOR_ID => Self::")); }
            assert(out@ == mark8 + mark20);
            push_all(out, variant.as_slice());
            let ghost mark21 = mark20 + spec_def_variant_name(dv);
            proof { lemma_joined(mark8, mark20, spec_def_variant_name(dv)); }
            assert(out@ == mark8 + mark21);
            emit(out, "(");
            let ghost mark22 = mark21 + lit("(");
            proof { lemma_joined(mark8, mark21, lit("(")); }
            assert(out@ == mark8 + mark22);
            push_all(out, qual.as_slice());
            let ghost mark23 = mark22 + spec_def_qual_name(dv);
            proof { lemma_joined(mark8, mark22, spec_def_qual_name(dv)); }
            assert(out@ == mark8 + mark23);
            emit(out, "::deserialize(buf)?),\n");
            let ghost mark24 = mark23 + lit("::deserialize(buf)?),\n");
            proof { lemma_joined(mark8, mark23, lit("::deserialize(buf)?),\n")); }
            assert(out@ == mark8 + mark24);
        }
        let ghost mark25 = (if rec { ind + lit("            ") + spec_def_qual_name(dv) + lit("::CONSTRUCTOR_ID => Self::") + spec_def_variant_name(dv) + lit("(Box::new(") + spec_def_qual_name(dv) + lit("::deserialize(buf)?)),\n") } else { ind + lit("            ") + spec_def_qual_name(dv) + lit("::CONSTRUCTOR_ID => Self::") + spec_def_variant_name(dv) + lit("(") + spec_def_qual_name(dv) + lit("::deserialize(buf)?),\n") });
        assert(out@ == mark1 + mark25);
    }
    let ghost mark26 = (if dv.params.len() == 0 { ind + lit("            ") + spec_def_qual_name(dv) + lit("::CONSTRUCTOR_ID => Self::") + spec_def_variant_name(dv) + lit(",\n") } else { (if rec { ind + lit("            ") + spec_def_qual_name(dv) + lit("::CONSTRUCTOR_ID => Self::") + spec_def_variant_name(dv) + lit("(Box::new(") + spec_def_qual_name(dv) + lit("::deserialize(buf)?)),\n") } else { ind + lit("            ") + spec_def_qual_name(dv) + lit("::CONSTRUCTOR_ID => Self::") + spec_def_variant_name(dv) + lit("(") + spec_def_qual_name(dv) + lit("::deserialize(buf)?),\n") }) });
    assert(out@ == old(out)@ + mark26);
}

/// The conversion from a record to the union `own`.
pub open spec fn spec_from_impl(ind: Seq<u8>, own: Seq<u8>, dv: DefinitionView, rec: bool) -> Seq<u8> {
    ind + lit("impl From<") + spec_def_qual_name(dv) + lit("> for ") + own + lit(" {\n") + ind + lit("    fn from(") + (if dv.params.len() == 0 { lit("_") } else { Seq::<u8>::empty() }) + lit("x: ") + spec_def_qual_name(dv) + lit(") -> Self {\n") + (if dv.params.len() == 0 { ind + lit("        Self::") + spec_def_variant_name(dv) + lit("\n") } else { (if rec { ind + lit("        Self::") + spec_def_variant_name(dv) + lit("(Box::new(x))\n") } else { ind + lit("        Self::") + spec_def_variant_name(dv) + lit("(x)\n") }) }) + ind + lit("    }\n") + ind + lit("}\n")
}

/// Appends: the conversion from a record to the union `own`.
pub fn write_from_impl(out: &mut Vec<u8>, indent: &[u8], owner: &[u8], def: &Definition, rec: bool)
    ensures
        final(out)@ == old(out)@ + spec_from_impl(indent@, owner@, def@, rec),
{
    let ghost ind = indent@;
    let ghost own = owner@;
    let ghost dv = def@;
    let variant = def_variant_name_bytes(def);
    let qual = def_qual_name_bytes(def);
    push_all(out, indent);
    let ghost mark1 = ind;
    assert(out@ == old(out)@ + mark1);
    emit(out, "impl From<");
    let ghost mark2 = mark1 + lit("impl From<");
    proof { lemma_joined(old(out)@, mark1, lit("impl From<")); }
    assert(out@ == old(out)@ + mark2);
    push_all(out, qual.as_slice());
    let ghost mark3 = mark2 + spec_def_qual_name(dv);
    proof { lemma_joined(old(out)@, mark2, spec_def_qual_name(dv)); }
    assert(out@ == old(out)@ + mark3);
    emit(out, "> for ");
    let ghost mark4 = mark3 + lit("> for ");
    proof { lemma_joined(old(out)@, mark3, lit("> for ")); }
    assert(out@ == old(out)@ + mark4);
    push_all(out, owner);
    let ghost mark5 = mark4 + own;
    proof { lemma_joined(old(out)@, mark4, own); }
    assert(out@ == old(out)@ + mark5);
    emit(out, " {\n");
    let ghost mark6 = mark5 + lit(" {\n");
    proof { lemma_joined(old(out)@, mark5, lit(" {\n")); }
    assert(out@ == old(out)@ + mark6);
    push_all(out, indent);
    let ghost mark7 = mark6 + ind;
    proof { lemma_joined(old(out)@, mark6, ind); }
    assert(out@ == old(out)@ + mark7);
    emit(out, "    fn from(");
    let ghost mark8 = mark7 + lit("    fn from(");
    proof { lemma_joined(old(out)@, mark7, lit("    fn from(")); }
    assert(out@ == old(out)@ + mark8);
    let ghost mark9 = out@;
    if def.params.len() == 0 {
        emit(out, "_");
        let ghost mark10 = lit("_");
        assert(out@ == mark9 + mark10);
    } else {
        proof { lemma_nothing(mark9); }
    }
    let ghost mark11 = mark8 + (if dv.params.len() == 0 { lit("_") } else { Seq::<u8>::empty() });
    proof { lemma_joined(old(out)@, mark8, (if dv.params.len() == 0 { lit("_") } else { Seq::<u8>::empty() })); }
    assert(out@ == old(out)@ + mark11);
    emit(out, "x: ");
    let ghost mark12 = mark11 + lit("x: ");
    proof { lemma_joined(old(out)@, mark11, lit("x: ")); }
    assert(out@ == old(out)@ + mark12);
    push_all(out, qual.as_slice());
    let ghost mark13 = mark12 + spec_def_qual_name(dv);
    proof { lemma_joined(old(out)@, mark12, spec_def_qual_name(dv)); }
    assert(out@ == old(out)@ + mark13);
    emit(out, ") -> Self {\n");
    let ghost mark14 = mark13 + lit(") -> Self {\n");
    proof { lemma_joined(old(out)@, mark13, lit(") -> Self {\n")); }
    assert(out@ == old(out)@ + mark14);
    let ghost mark15 = out@;
    if def.params.len() == 0 {
        push_all(out, indent);
        let ghost mark16 = ind;
        assert(out@ == mark15 + mark16);
        emit(out, "        Self::");
        let ghost mark17 = mark16 + lit("        Self::");
        proof { lemma_joined(mark15, mark16, lit("        Self::")); }
        assert(out@ == mark15 + mark17);
        push_all(out, variant.as_slice());
        let ghost mark18 = mark17 + spec_def_variant_name(dv);
        proof { lemma_joined(mark15, mark17, spec_def_variant_name(dv)); }
        assert(out@ == mark15 + mark18);
        emit(out, "\n");
        let ghost mark19 = mark18 + lit("\n");
        proof { lemma_joined(mark15, mark18, lit("\n")); }
        assert(out@ == mark15 + mark19);
    } else {
        let ghost mark20 = out@;
        if rec {
            push_all(out, indent);
            let ghost mark21 = ind;
            assert(out@ == mark20 + mark21);
            emit(out, "        Self::");
            let ghost mark22 = mark21 + lit("        Self::");
            proof { lemma_joined(mark20, mark21, lit("        Self::")); }
            assert(out@ == mark20 + mark22);
            push_all(out, variant.as_slice());
            let ghost mark23 = mark22 + spec_def_variant_name(dv);
            proof { lemma_joined(mark20, mark22, spec_def_variant_name(dv)); }
            assert(out@ == mark20 + mark23);
            emit(out, "(Box::new(x))\n");
            let ghost mark24 = mark23 + lit("(Box::new(x))\n");
            proof { lemma_joined(mark20, mark23, lit("(Box::new(x))\n")); }
            assert(out@ == mark20 + mark24);
        } else {
            push_all(out, indent);
            let ghost mark25 = ind;
            assert(out@ == mark20 + mark25);
            emit(out, "        Self::");
            let ghost mark26 = mark25 + lit("        Self::");
            proof { lemma_joined(mark20, mark25, lit("        Self::")); }
            assert(out@ == mark20 + mark26);
            push_all(out, variant.as_slice());
            let ghost mark27 = mark26 + spec_def_variant_name(dv);
            proof { lemma_joined(mark20, mark26, spec_def_variant_name(dv)); }
            assert(out@ == mark20 + mark27);
            emit(out, "(x)\n");
            let ghost mark28 = mark27 + lit("(x)\n");
            proof { lemma_joined(mark20, mark27, lit("(x)\n")); }
            assert(out@ == mark20 + mark28);
        }
        let ghost mark29 = (if rec { ind + lit("        Self::") + spec_def_variant_name(dv) + lit("(Box::new(x))\n") } else { ind + lit("        Self::") + spec_def_variant_name(dv) + lit("(x)\n") });
        assert(out@ == mark15 + mark29);
    }
    let ghost mark30 = mark14 + (if dv.params.len() == 0 { ind + lit("        Self::") + spec_def_variant_name(dv) + lit("\n") } else { (if rec { ind + lit("        Self::") + spec_def_variant_name(dv) + lit("(Box::new(x))\n") } else { ind + lit("        Self::") + spec_def_variant_name(dv) + lit("(x)\n") }) });
    proof { lemma_joined(old(out)@, mark14, (if dv.params.len() == 0 { ind + lit("        Self::") + spec_def_variant_name(dv) + lit("\n") } else { (if rec { ind + lit("        Self::") + spec_def_variant_name(dv) + lit("(Box::new(x))\n") } else { ind + lit("        Self::") + spec_def_variant_name(dv) + lit("(x)\n") }) })); }
    assert(out@ == old(out)@ + mark30);
    push_all(out, indent);
    let ghost mark31 = mark30 + ind;
    proof { lemma_joined(old(out)@, mark30, ind); }
    assert(out@ == old(out)@ + mark31);
    emit(out, "    }\n");
    let ghost mark32 = mark31 + lit("    }\n");
    proof { lemma_joined(old(out)@, mark31, lit("    }\n")); }
    assert(out@ == old(out)@ + mark32);
    push_all(out, indent);
    let ghost mark33 = mark32 + ind;
    proof { lemma_joined(old(out)@, mark32, ind); }
    assert(out@ == old(out)@ + mark33);
    emit(out, "}\n");
    let ghost mark34 = mark33 + lit("}\n");
    proof { lemma_joined(old(out)@, mark33, lit("}\n")); }
    assert(out@ == old(out)@ + mark34);
}

/// The conversion from the union `own` back to a record, which fails with
/// the union where it holds another variant; nothing for a constructor
/// without parameters.
pub open spec fn spec_try_from_impl(ind: Seq<u8>, own: Seq<u8>, dv: DefinitionView, rec: bool) -> Seq<u8> {
    (if dv.params.len() == 0 { Seq::<u8>::empty() } else { ind + lit("impl TryFrom<") + own + lit("> for ") + spec_def_qual_name(dv) + lit(" {\n") + ind + lit("    type Error = ") + own + lit(";\n") + ind + lit("    #[allow(unreachable_patterns)]\n") + ind + lit("    fn try_from(v: ") + own + lit(") -> Result<Self, Self::Error> {\n") + ind + lit("        match v {\n") + (if rec { ind + lit("            ") + own + lit("::") + spec_def_variant_name(dv) + lit("(x) => Ok(*x),\n") } else { ind + lit("            ") + own + lit("::") + spec_def_variant_name(dv) + lit("(x) => Ok(x),\n") }) + ind + lit("            other => Err(other),\n") + ind + lit("        }\n") + ind + lit("    }\n") + ind + lit("}\n") })
}

/// Appends: the conversion from the union `own` back to a record, which fails with
/// the union where it holds another variant; nothing for a constructor
/// without parameters.
pub fn write_try_from_impl(out: &mut Vec<u8>, indent: &[u8], owner: &[u8], def: &Definition, rec: bool)
    ensures
        final(out)@ == old(out)@ + spec_try_from_impl(indent@, owner@, def@, rec),
{
    let ghost ind = indent@;
    let ghost own = owner@;
    let ghost dv = def@;
    let variant = def_variant_name_bytes(def);
    let qual = def_qual_name_bytes(def);
    let ghost mark1 = out@;
    if def.params.len() == 0 {
        proof { lemma_nothing(mark1); }
    } else {
        push_all(out, indent);
        let ghost mark2 = ind;
        assert(out@ == mark1 + mark2);
        emit(out, "impl TryFrom<");
        let ghost mark3 = mark2 + lit("impl TryFrom<");
        proof { lemma_joined(mark1, mark2, lit("impl TryFrom<")); }
        assert(out@ == mark1 + mark3);
        push_all(out, owner);
        let ghost mark4 = mark3 + own;
        proof { lemma_joined(mark1, mark3, own); }
        assert(out@ == mark1 + mark4);
        emit(out, "> for ");
        let ghost mark5 = mark4 + lit("> for ");
        proof { lemma_joined(mark1, mark4, lit("> for ")); }
        assert(out@ == mark1 + mark5);
        push_all(out, qual.as_slice());
        let ghost mark6 = mark5 + spec_def_qual_name(dv);
        proof { lemma_joined(mark1, mark5, spec_def_qual_name(dv)); }
        assert(out@ == mark1 + mark6);
        emit(out, " {\n");
        let ghost mark7 = mark6 + lit(" {\n");
        proof { lemma_joined(mark1, mark6, lit(" {\n")); }
        assert(out@ == mark1 + mark7);
        push_all(out, indent);
        let ghost mark8 = mark7 + ind;
        proof { lemma_joined(mark1, mark7, ind); }
        assert(out@ == mark1 + mark8);
        emit(out, "    type Error = ");
        let ghost mark9 = mark8 + lit("    type Error = ");
        proof { lemma_joined(mark1, mark8, lit("    type Error = ")); }
        assert(out@ == mark1 + mark9);
        push_all(out, owner);
        let ghost mark10 = mark9 + own;
        proof { lemma_joined(mark1, mark9, own); }
        assert(out@ == mark1 + mark10);
        emit(out, ";\n");
        let ghost mark11 = mark10 + lit(";\n");
        proof { lemma_joined(mark1, mark10, lit(";\n")); }
        assert(out@ == mark1 + mark11);
        push_all(out, indent);
        let ghost mark12 = mark11 + ind;
        proof { lemma_joined(mark1, mark11, ind); }
        assert(out@ == mark1 + mark12);
        emit(out, "    #[allow(unreachable_patterns)]\n");
        let ghost mark13 = mark12 + lit("    #[allow(unreachable_patterns)]\n");
        proof { lemma_joined(mark1, mark12, lit("    #[allow(unreachable_patterns)]\n")); }
        assert(out@ == mark1 + mark13);
        push_all(out, indent);
        let ghost mark14 = mark13 + ind;
        proof { lemma_joined(mark1, mark13, ind); }
        assert(out@ == mark1 + mark14);
        emit(out, "    fn try_from(v: ");
        let ghost mark15 = mark14 + lit("    fn try_from(v: ");
        proof { lemma_joined(mark1, mark14, lit("    fn try_from(v: ")); }
        assert(out@ == mark1 + mark15);
        push_all(out, owner);
        let ghost mark16 = mark15 + own;
        proof { lemma_joined(mark1, mark15, own); }
        assert(out@ == mark1 + mark16);
        emit(out, ") -> Result<Self, Self::Error> {\n");
        let ghost mark17 = mark16 + lit(") -> Result<Self, Self::Error> {\n");
        proof { lemma_joined(mark1, mark16, lit(") -> Result<Self, Self::Error> {\n")); }
        assert(out@ == mark1 + mark17);
        push_all(out, indent);
        let ghost mark18 = mark17 + ind;
        proof { lemma_joined(mark1, mark17, ind); }
        assert(out@ == mark1 + mark18);
        emit(out, "        match v {\n");
        let ghost mark19 = mark18 + lit("        match v {\n");
        proof { lemma_joined(mark1, mark18, lit("        match v {\n")); }
        assert(out@ == mark1 + mark19);
        let ghost mark20 = out@;
        if rec {
            push_all(out, indent);
            let ghost mark21 = ind;
            assert(out@ == mark20 + mark21);
            emit(out, "            ");
            let ghost mark22 = mark21 + lit("            ");
            proof { lemma_joined(mark20, mark21, lit("            ")); }
            assert(out@ == mark20 + mark22);
            push_all(out, owner);
            let ghost mark23 = mark22 + own;
            proof { lemma_joined(mark20, mark22, own); }
            assert(out@ == mark20 + mark23);
            emit(out, "::");
            let ghost mark24 = mark23 + lit("::");
            proof { lemma_joined(mark20, mark23, lit("::")); }
            assert(out@ == mark20 + mark24);
            push_all(out, variant.as_slice());
            let ghost mark25 = mark24 + spec_def_variant_name(dv);
            proof { lemma_joined(mark20, mark24, spec_def_variant_name(dv)); }
            assert(out@ == mark20 + mark25);
            emit(out, "(x) => Ok(*x),\n");
            let ghost mark26 = mark25 + lit("(x) => Ok(*x),\n");
            proof { lemma_joined(mark20, mark25, lit("(x) => Ok(*x),\n")); }
            assert(out@ == mark20 + mark26);
        } else {
            push_all(out, indent);
            let ghost mark27 = ind;
            assert(out@ == mark20 + mark27);
            emit(out, "            ");
            let ghost mark28 = mark27 + lit("            ");
            proof { lemma_joined(mark20, mark27, lit("            ")); }
            assert(out@ == mark20 + mark28);
            push_all(out, owner);
            let ghost mark29 = mark28 + own;
            proof { lemma_joined(mark20, mark28, own); }
            assert(out@ == mark20 + mark29);
            emit(out, "::");
            let ghost mark30 = mark29 + lit("::");
            proof { lemma_joined(mark20, mark29, lit("::")); }
            assert(out@ == mark20 + mark30);
            push_all(out, variant.as_slice());
            let ghost mark31 = mark30 + spec_def_variant_name(dv);
            proof { lemma_joined(mark20, mark30, spec_def_variant_name(dv)); }
            assert(out@ == mark20 + mark31);
            emit(out, "(x) => Ok(x),\n");
            let ghost mark32 = mark31 + lit("(x) => Ok(x),\n");
            proof { lemma_joined(mark20, mark31, lit("(x) => Ok(x),\n")); }
            assert(out@ == mark20 + mark32);
        }
        let ghost mark33 = mark19 + (if rec { ind + lit("            ") + own + lit("::") + spec_def_variant_name(dv) + lit("(x) => Ok(*x),\n") } else { ind + lit("            ") + own + lit("::") + spec_def_variant_name(dv) + lit("(x) => Ok(x),\n") });
        proof { lemma_joined(mark1, mark19, (if rec { ind + lit("            ") + own + lit("::") + spec_def_variant_name(dv) + lit("(x) => Ok(*x),\n") } else { ind + lit("            ") + own + lit("::") + spec_def_variant_name(dv) + lit("(x) => Ok(x),\n") })); }
        assert(out@ == mark1 + mark33);
        push_all(out, indent);
        let ghost mark34 = mark33 + ind;
        proof { lemma_joined(mark1, mark33, ind); }
        assert(out@ == mark1 + mark34);
        emit(out, "            other => Err(other),\n");
        let ghost mark35 = mark34 + lit("            other => Err(other),\n");
        proof { lemma_joined(mark1, mark34, lit("            other => Err(other),\n")); }
        assert(out@ == mark1 + mark35);
        push_all(out, indent);
        let ghost mark36 = mark35 + ind;
        proof { lemma_joined(mark1, mark35, ind); }
        assert(out@ == mark1 + mark36);
        emit(out, "        }\n");
        let ghost mark37 = mark36 + lit("        }\n");
        proof { lemma_joined(mark1, mark36, lit("        }\n")); }
        assert(out@ == mark1 + mark37);
        push_all(out, indent);
        let ghost mark38 = mark37 + ind;
        proof { lemma_joined(mark1, mark37, ind); }
        assert(out@ == mark1 + mark38);
        emit(out, "    }\n");
        let ghost mark39 = mark38 + lit("    }\n");
        proof { lemma_joined(mark1, mark38, lit("    }\n")); }
        assert(out@ == mark1 + mark39);
        push_all(out, indent);
        let ghost mark40 = mark39 + ind;
        proof { lemma_joined(mark1, mark39, ind); }
        assert(out@ == mark1 + mark40);
        emit(out, "}\n");
        let ghost mark41 = mark40 + lit("}\n");
        proof { lemma_joined(mark1, mark40, lit("}\n")); }
        assert(out@ == mark1 + mark41);
    }
    let ghost mark42 = (if dv.params.len() == 0 { Seq::<u8>::empty() } else { ind + lit("impl TryFrom<") + own + lit("> for ") + spec_def_qual_name(dv) + lit(" {\n") + ind + lit("    type Error = ") + own + lit(";\n") + ind + lit("    #[allow(unreachable_patterns)]\n") + ind + lit("    fn try_from(v: ") + own + lit(") -> Result<Self, Self::Error> {\n") + ind + lit("        match v {\n") + (if rec { ind + lit("            ") + own + lit("::") + spec_def_variant_name(dv) + lit("(x) => Ok(*x),\n") } else { ind + lit("            ") + own + lit("::") + spec_def_variant_name(dv) + lit("(x) => Ok(x),\n") }) + ind + lit("            other => Err(other),\n") + ind + lit("        }\n") + ind + lit("    }\n") + ind + lit("}\n") });
    assert(out@ == old(out)@ + mark42);
}

/// The variants of a union.
/// The first `n` of them.
pub open spec fn spec_enum_variants(ind: Seq<u8>, dvs: Seq<DefinitionView>, vs: Seq<int>, n: int) -> Seq<u8>
    decreases n,
{
    if n <= 0 {
        Seq::empty()
    } else {
        spec_enum_variants(ind, dvs, vs, n - 1) + (spec_enum_variant(ind, dvs[vs[n - 1]], spec_marked(dvs, vs[n - 1])))
    }
}

/// Appends: the variants of a union.
pub fn write_enum_variants(out: &mut Vec<u8>, indent: &[u8], defs: &[Definition], variants: &Vec<usize>, meta: &Metadata)
    requires
        forall|k: int| 0 <= k < variants@.len() ==> #[trigger] variants@[k] < defs@.len(),
        knows(*meta, defs@),
    ensures
        final(out)@ == old(out)@ + spec_enum_variants(indent@, defs_view(defs@), places(variants@), variants@.len() as int),
{
    let ghost ind = indent@;
    let ghost dvs = defs_view(defs@);
    let ghost vs = places(variants@);
    let mut i: usize = 0;
    let count: usize = variants.len();
    proof { lemma_nothing(old(out)@); }
    while i < count
        invariant
            i <= count,
            count == vs.len(),
            ind == indent@,
            dvs == defs_view(defs@),
            vs == places(variants@),
            forall|k: int| 0 <= k < variants@.len() ==> #[trigger] variants@[k] < defs@.len(),
            knows(*meta, defs@),
            out@ == old(out)@ + spec_enum_variants(ind, dvs, vs, i as int),
        decreases count - i,
    {
        let ghost before = out@;
        assert(dvs[vs[i as int]] == defs@[variants@[i as int] as int]@);
        assert(meta.marks()[variants@[i as int] as int] == spec_marked(dvs, vs[i as int]));
        write_enum_variant(out, indent, &defs[variants[i]], meta.is_recursive(variants[i]));
        let ghost mark1 = spec_enum_variant(ind, dvs[vs[i as int]], spec_marked(dvs, vs[i as int]));
        assert(out@ == before + mark1);
        proof { lemma_joined(old(out)@, spec_enum_variants(ind, dvs, vs, i as int), spec_enum_variant(ind, dvs[vs[i as int]], spec_marked(dvs, vs[i as int]))); }
        i += 1;
    }
}

/// The arms that write the variants of a union.
/// The first `n` of them.
pub open spec fn spec_enum_ser_arms(ind: Seq<u8>, dvs: Seq<DefinitionView>, vs: Seq<int>, n: int) -> Seq<u8>
    decreases n,
{
    if n <= 0 {
        Seq::empty()
    } else {
        spec_enum_ser_arms(ind, dvs, vs, n - 1) + (spec_enum_ser_arm(ind, dvs[vs[n - 1]]))
    }
}

/// Appends: the arms that write the variants of a union.
pub fn write_enum_ser_arms(out: &mut Vec<u8>, indent: &[u8], defs: &[Definition], variants: &Vec<usize>, meta: &Metadata)
    requires
        forall|k: int| 0 <= k < variants@.len() ==> #[trigger] variants@[k] < defs@.len(),
        knows(*meta, defs@),
    ensures
        final(out)@ == old(out)@ + spec_enum_ser_arms(indent@, defs_view(defs@), places(variants@), variants@.len() as int),
{
    let ghost ind = indent@;
    let ghost dvs = defs_view(defs@);
    let ghost vs = places(variants@);
    let mut i: usize = 0;
    let count: usize = variants.len();
    proof { lemma_nothing(old(out)@); }
    while i < count
        invariant
            i <= count,
            count == vs.len(),
            ind == indent@,
            dvs == defs_view(defs@),
            vs == places(variants@),
            forall|k: int| 0 <= k < variants@.len() ==> #[trigger] variants@[k] < defs@.len(),
            knows(*meta, defs@),
            out@ == old(out)@ + spec_enum_ser_arms(ind, dvs, vs, i as int),
        decreases count - i,
    {
        let ghost before = out@;
        assert(dvs[vs[i as int]] == defs@[variants@[i as int] as int]@);
        assert(meta.marks()[variants@[i as int] as int] == spec_marked(dvs, vs[i as int]));
        write_enum_ser_arm(out, indent, &defs[variants[i]]);
        let ghost mark1 = spec_enum_ser_arm(ind, dvs[vs[i as int]]);
        assert(out@ == before + mark1);
        proof { lemma_joined(old(out)@, spec_enum_ser_arms(ind, dvs, vs, i as int), spec_enum_ser_arm(ind, dvs[vs[i as int]])); }
        i += 1;
    }
}

/// The arms that read the variants of a union.
/// The first `n` of them.
pub open spec fn spec_enum_de_arms(ind: Seq<u8>, dvs: Seq<DefinitionView>, vs: Seq<int>, n: int) -> Seq<u8>
    decreases n,
{
    if n <= 0 {
        Seq::empty()
    } else {
        spec_enum_de_arms(ind, dvs, vs, n - 1) + (spec_enum_de_arm(ind, dvs[vs[n - 1]], spec_marked(dvs, vs[n - 1])))
    }
}

/// Appends: the arms that read the variants of a union.
pub fn write_enum_de_arms(out: &mut Vec<u8>, indent: &[u8], defs: &[Definition], variants: &Vec<usize>, meta: &Metadata)
    requires
        forall|k: int| 0 <= k < variants@.len() ==> #[trigger] variants@[k] < defs@.len(),
        knows(*meta, defs@),
    ensures
        final(out)@ == old(out)@ + spec_enum_de_arms(indent@, defs_view(defs@), places(variants@), variants@.len() as int),
{
    let ghost ind = indent@;
    let ghost dvs = defs_view(defs@);
    let ghost vs = places(variants@);
    let mut i: usize = 0;
    let count: usize = variants.len();
    proof { lemma_nothing(old(out)@); }
    while i < count
        invariant
            i <= count,
            count == vs.len(),
            ind == indent@,
            dvs == defs_view(defs@),
            vs == places(variants@),
            forall|k: int| 0 <= k < variants@.len() ==> #[trigger] variants@[k] < defs@.len(),
            knows(*meta, defs@),
            out@ == old(out)@ + spec_enum_de_arms(ind, dvs, vs, i as int),
        decreases count - i,
    {
        let ghost before = out@;
        assert(dvs[vs[i as int]] == defs@[variants@[i as int] as int]@);
        assert(meta.marks()[variants@[i as int] as int] == spec_marked(dvs, vs[i as int]));
        write_enum_de_arm(out, indent, &defs[variants[i]], meta.is_recursive(variants[i]));
        let ghost mark1 = spec_enum_de_arm(ind, dvs[vs[i as int]], spec_marked(dvs, vs[i as int]));
        assert(out@ == before + mark1);
        proof { lemma_joined(old(out)@, spec_enum_de_arms(ind, dvs, vs, i as int), spec_enum_de_arm(ind, dvs[vs[i as int]], spec_marked(dvs, vs[i as int]))); }
        i += 1;
    }
}

/// The conversions from the records to their union.
/// The first `n` of them.
pub open spec fn spec_from_impls(ind: Seq<u8>, own: Seq<u8>, dvs: Seq<DefinitionView>, vs: Seq<int>, n: int) -> Seq<u8>
    decreases n,
{
    if n <= 0 {
        Seq::empty()
    } else {
        spec_from_impls(ind, own, dvs, vs, n - 1) + (spec_from_impl(ind, own, dvs[vs[n - 1]], spec_marked(dvs, vs[n - 1])))
    }
}

/// Appends: the conversions from the records to their union.
pub fn write_from_impls(out: &mut Vec<u8>, indent: &[u8], owner: &[u8], defs: &[Definition], variants: &Vec<usize>, meta: &Metadata)
    requires
        forall|k: int| 0 <= k < variants@.len() ==> #[trigger] variants@[k] < defs@.len(),
        knows(*meta, defs@),
    ensures
        final(out)@ == old(out)@ + spec_from_impls(indent@, owner@, defs_view(defs@), places(variants@), variants@.len() as int),
{
    let ghost ind = indent@;
    let ghost own = owner@;
    let ghost dvs = defs_view(defs@);
    let ghost vs = places(variants@);
    let mut i: usize = 0;
    let count: usize = variants.len();
    proof { lemma_nothing(old(out)@); }
    while i < count
        invariant
            i <= count,
            count == vs.len(),
            ind == indent@,
            own == owner@,
            dvs == defs_view(defs@),
            vs == places(variants@),
            forall|k: int| 0 <= k < variants@.len() ==> #[trigger] variants@[k] < defs@.len(),
            knows(*meta, defs@),
            out@ == old(out)@ + spec_from_impls(ind, own, dvs, vs, i as int),
        decreases count - i,
    {
        let ghost before = out@;
        assert(dvs[vs[i as int]] == defs@[variants@[i as int] as int]@);
        assert(meta.marks()[variants@[i as int] as int] == spec_marked(dvs, vs[i as int]));
        write_from_impl(out, indent, owner, &defs[variants[i]], meta.is_recursive(variants[i]));
        let ghost mark1 = spec_from_impl(ind, own, dvs[vs[i as int]], spec_marked(dvs, vs[i as int]));
        assert(out@ == before + mark1);
        proof { lemma_joined(old(out)@, spec_from_impls(ind, own, dvs, vs, i as int), spec_from_impl(ind, own, dvs[vs[i as int]], spec_marked(dvs, vs[i as int]))); }
        i += 1;
    }
}

/// The conversions from a union back to its records.
/// The first `n` of them.
pub open spec fn spec_try_from_impls(ind: Seq<u8>, own: Seq<u8>, dvs: Seq<DefinitionView>, vs: Seq<int>, n: int) -> Seq<u8>
    decreases n,
{
    if n <= 0 {
        Seq::empty()
    } else {
        spec_try_from_impls(ind, own, dvs, vs, n - 1) + (spec_try_from_impl(ind, own, dvs[vs[n - 1]], spec_marked(dvs, vs[n - 1])))
    }
}

/// Appends: the conversions from a union back to its records.
pub fn write_try_from_impls(out: &mut Vec<u8>, indent: &[u8], owner: &[u8], defs: &[Definition], variants: &Vec<usize>, meta: &Metadata)
    requires
        forall|k: int| 0 <= k < variants@.len() ==> #[trigger] variants@[k] < defs@.len(),
        knows(*meta, defs@),
    ensures
        final(out)@ == old(out)@ + spec_try_from_impls(indent@, owner@, defs_view(defs@), places(variants@), variants@.len() as int),
{
    let ghost ind = indent@;
    let ghost own = owner@;
    let ghost dvs = defs_view(defs@);
    let ghost vs = places(variants@);
    let mut i: usize = 0;
    let count: usize = variants.len();
    proof { lemma_nothing(old(out)@); }
    while i < count
        invariant
            i <= count,
            count == vs.len(),
            ind == indent@,
            own == owner@,
            dvs == defs_view(defs@),
            vs == places(variants@),
            forall|k: int| 0 <= k < variants@.len() ==> #[trigger] variants@[k] < defs@.len(),
            knows(*meta, defs@),
            out@ == old(out)@ + spec_try_from_impls(ind, own, dvs, vs, i as int),
        decreases count - i,
    {
        let ghost before = out@;
        assert(dvs[vs[i as int]] == defs@[variants@[i as int] as int]@);
        assert(meta.marks()[variants@[i as int] as int] == spec_marked(dvs, vs[i as int]));
        write_try_from_impl(out, indent, owner, &defs[variants[i]], meta.is_recursive(variants[i]));
        let ghost mark1 = spec_try_from_impl(ind, own, dvs[vs[i as int]], spec_marked(dvs, vs[i as int]));
        assert(out@ == before + mark1);
        proof { lemma_joined(old(out)@, spec_try_from_impls(ind, own, dvs, vs, i as int), spec_try_from_impl(ind, own, dvs[vs[i as int]], spec_marked(dvs, vs[i as int]))); }
        i += 1;
    }
}

/// The union for the type `tv`, whose constructors stand at the places `vs`.
pub open spec fn spec_enum(ind: Seq<u8>, dvs: Seq<DefinitionView>, tv: TypeView, vs: Seq<int>, cfg: Config) -> Seq<u8> {
    lit("\n") + ind + lit("/// [`") + spec_to_pascal(encode_utf8(tv.name)) + lit("`](https://core.telegram.org/type/") + spec_to_pascal(encode_utf8(tv.name)) + lit(")\n") + (if cfg.impl_debug { ind + lit("#[derive(Debug)]\n") } else { Seq::<u8>::empty() }) + (if cfg.impl_serde { ind + lit("#[derive(serde::Serialize, serde::Deserialize)]\n") } else { Seq::<u8>::empty() }) + ind + lit("#[derive(Clone, PartialEq)]\n") + ind + lit("pub enum ") + spec_to_pascal(encode_utf8(tv.name)) + lit(" {\n") + spec_enum_variants(ind, dvs, vs, vs.len() as int) + ind + lit("}\n")
}

/// Appends: the union for the type `tv`, whose constructors stand at the places `vs`.
pub fn write_enum(out: &mut Vec<u8>, indent: &[u8], defs: &[Definition], ty: &Type, variants: &Vec<usize>, meta: &Metadata, config: &Config)
    requires
        forall|k: int| 0 <= k < variants@.len() ==> #[trigger] variants@[k] < defs@.len(),
        knows(*meta, defs@),
    ensures
        final(out)@ == old(out)@ + spec_enum(indent@, defs_view(defs@), ty@, places(variants@), *config),
{
    let ghost ind = indent@;
    let ghost dvs = defs_view(defs@);
    let ghost tv = ty@;
    let ghost vs = places(variants@);
    let ghost cfg = *config;
    let name = pascal_bytes(ty.name.as_str().as_bytes());
    emit(out, "\n");
    let ghost mark1 = lit("\n");
    assert(out@ == old(out)@ + mark1);
    push_all(out, indent);
    let ghost mark2 = mark1 + ind;
    proof { lemma_joined(old(out)@, mark1, ind); }
    assert(out@ == old(out)@ + mark2);
    emit(out, "/// [`");
    let ghost mark3 = mark2 + lit("/// [`");
    proof { lemma_joined(old(out)@, mark2, lit("/// [`")); }
    assert(out@ == old(out)@ + mark3);
    push_all(out, name.as_slice());
    let ghost mark4 = mark3 + spec_to_pascal(encode_utf8(tv.name));
    proof { lemma_joined(old(out)@, mark3, spec_to_pascal(encode_utf8(tv.name))); }
    assert(out@ == old(out)@ + mark4);
    emit(out, "`](https://core.telegram.org/type/");
    let ghost mark5 = mark4 + lit("`](https://core.telegram.org/type/");
    proof { lemma_joined(old(out)@, mark4, lit("`](https://core.telegram.org/type/")); }
    assert(out@ == old(out)@ + mark5);
    push_all(out, name.as_slice());
    let ghost mark6 = mark5 + spec_to_pascal(encode_utf8(tv.name));
    proof { lemma_joined(old(out)@, mark5, spec_to_pascal(encode_utf8(tv.name))); }
    assert(out@ == old(out)@ + mark6);
    emit(out, ")\n");
    let ghost mark7 = mark6 + lit(")\n");
    proof { lemma_joined(old(out)@, mark6, lit(")\n")); }
    assert(out@ == old(out)@ + mark7);
    let ghost mark8 = out@;
    if config.impl_debug {
        push_all(out, indent);
        let ghost mark9 = ind;
        assert(out@ == mark8 + mark9);
        emit(out, "#[derive(Debug)]\n");
        let ghost mark10 = mark9 + lit("#[derive(Debug)]\n");
        proof { lemma_joined(mark8, mark9, lit("#[derive(Debug)]\n")); }
        assert(out@ == mark8 + mark10);
    } else {
        proof { lemma_nothing(mark8); }
    }
    let ghost mark11 = mark7 + (if cfg.impl_debug { ind + lit("#[derive(Debug)]\n") } else { Seq::<u8>::empty() });
    proof { lemma_joined(old(out)@, mark7, (if cfg.impl_debug { ind + lit("#[derive(Debug)]\n") } else { Seq::<u8>::empty() })); }
    assert(out@ == old(out)@ + mark11);
    let ghost mark12 = out@;
    if config.impl_serde {
        push_all(out, indent);
        let ghost mark13 = ind;
        assert(out@ == mark12 + mark13);
        emit(out, "#[derive(serde::Serialize, serde::Deserialize)]\n");
        let ghost mark14 = mark13 + lit("#[derive(serde::Serialize, serde::Deserialize)]\n");
        proof { lemma_joined(mark12, mark13, lit("#[derive(serde::Serialize, serde::Deserialize)]\n")); }
        assert(out@ == mark12 + mark14);
    } else {
        proof { lemma_nothing(mark12); }
    }
    let ghost mark15 = mark11 + (if cfg.impl_serde { ind + lit("#[derive(serde::Serialize, serde::Deserialize)]\n") } else { Seq::<u8>::empty() });
    proof { lemma_joined(old(out)@, mark11, (if cfg.impl_serde { ind + lit("#[derive(serde::Serialize, serde::Deserialize)]\n") } else { Seq::<u8>::empty() })); }
    assert(out@ == old(out)@ + mark15);
    push_all(out, indent);
    let ghost mark16 = mark15 + ind;
    proof { lemma_joined(old(out)@, mark15, ind); }
    assert(out@ == old(out)@ + mark16);
    emit(out, "#[derive(Clone, PartialEq)]\n");
    let ghost mark17 = mark16 + lit("#[derive(Clone, PartialEq)]\n");
    proof { lemma_joined(old(out)@, mark16, lit("#[derive(Clone, PartialEq)]\n")); }
    assert(out@ == old(out)@ + mark17);
    push_all(out, indent);
    let ghost mark18 = mark17 + ind;
    proof { lemma_joined(old(out)@, mark17, ind); }
    assert(out@ == old(out)@ + mark18);
    emit(out, "pub enum ");
    let ghost mark19 = mark18 + lit("pub enum ");
    proof { lemma_joined(old(out)@, mark18, lit("pub enum ")); }
    assert(out@ == old(out)@ + mark19);
    push_all(out, name.as_slice());
    let ghost mark20 = mark19 + spec_to_pascal(encode_utf8(tv.name));
    proof { lemma_joined(old(out)@, mark19, spec_to_pascal(encode_utf8(tv.name))); }
    assert(out@ == old(out)@ + mark20);
    emit(out, " {\n");
    let ghost mark21 = mark20 + lit(" {\n");
    proof { lemma_joined(old(out)@, mark20, lit(" {\n")); }
    assert(out@ == old(out)@ + mark21);
    write_enum_variants(out, indent, defs, variants, meta);
    let ghost mark22 = mark21 + spec_enum_variants(ind, dvs, vs, vs.len() as int);
    proof { lemma_joined(old(out)@, mark21, spec_enum_variants(ind, dvs, vs, vs.len() as int)); }
    assert(out@ == old(out)@ + mark22);
    push_all(out, indent);
    let ghost mark23 = mark22 + ind;
    proof { lemma_joined(old(out)@, mark22, ind); }
    assert(out@ == old(out)@ + mark23);
    emit(out, "}\n");
    let ghost mark24 = mark23 + lit("}\n");
    proof { lemma_joined(old(out)@, mark23, lit("}\n")); }
    assert(out@ == old(out)@ + mark24);
}

/// The impl that writes a union to bytes.
pub open spec fn spec_enum_serializable(ind: Seq<u8>, dvs: Seq<DefinitionView>, tv: TypeView, vs: Seq<int>) -> Seq<u8> {
    ind + lit("impl crate::Serializable for ") + spec_to_pascal(encode_utf8(tv.name)) + lit(" {\n") + ind + lit("    fn serialize(&self, buf: &mut impl Extend<u8>) {\n") + ind + lit("        use crate::Identifiable;\n") + ind + lit("        match self {\n") + spec_enum_ser_arms(ind, dvs, vs, vs.len() as int) + ind + lit("        }\n") + ind + lit("    }\n") + ind + lit("}\n")
}

/// Appends: the impl that writes a union to bytes.
pub fn write_enum_serializable(out: &mut Vec<u8>, indent: &[u8], defs: &[Definition], ty: &Type, variants: &Vec<usize>, meta: &Metadata)
    requires
        forall|k: int| 0 <= k < variants@.len() ==> #[trigger] variants@[k] < defs@.len(),
        knows(*meta, defs@),
    ensures
        final(out)@ == old(out)@ + spec_enum_serializable(indent@, defs_view(defs@), ty@, places(variants@)),
{
    let ghost ind = indent@;
    let ghost dvs = defs_view(defs@);
    let ghost tv = ty@;
    let ghost vs = places(variants@);
    let name = pascal_bytes(ty.name.as_str().as_bytes());
    push_all(out, indent);
    let ghost mark1 = ind;
    assert(out@ == old(out)@ + mark1);
    emit(out, "impl crate::Serializable for ");
    let ghost mark2 = mark1 + lit("impl crate::Serializable for ");
    proof { lemma_joined(old(out)@, mark1, lit("impl crate::Serializable for ")); }
    assert(out@ == old(out)@ + mark2);
    push_all(out, name.as_slice());
    let ghost mark3 = mark2 + spec_to_pascal(encode_utf8(tv.name));
    proof { lemma_joined(old(out)@, mark2, spec_to_pascal(encode_utf8(tv.name))); }
    assert(out@ == old(out)@ + mark3);
    emit(out, " {\n");
    let ghost mark4 = mark3 + lit(" {\n");
    proof { lemma_joined(old(out)@, mark3, lit(" {\n")); }
    assert(out@ == old(out)@ + mark4);
    push_all(out, indent);
    let ghost mark5 = mark4 + ind;
    proof { lemma_joined(old(out)@, mark4, ind); }
    assert(out@ == old(out)@ + mark5);
    emit(out, "    fn serialize(&self, buf: &mut impl Extend<u8>) {\n");
    let ghost mark6 = mark5 + lit("    fn serialize(&self, buf: &mut impl Extend<u8>) {\n");
    proof { lemma_joined(old(out)@, mark5, lit("    fn serialize(&self, buf: &mut impl Extend<u8>) {\n")); }
    assert(out@ == old(out)@ + mark6);
    push_all(out, indent);
    let ghost mark7 = mark6 + ind;
    proof { lemma_joined(old(out)@, mark6, ind); }
    assert(out@ == old(out)@ + mark7);
    emit(out, "        use crate::Identifiable;\n");
    let ghost mark8 = mark7 + lit("        use crate::Identifiable;\n");
    proof { lemma_joined(old(out)@, mark7, lit("        use crate::Identifiable;\n")); }
    assert(out@ == old(out)@ + mark8);
    push_all(out, indent);
    let ghost mark9 = mark8 + ind;
    proof { lemma_joined(old(out)@, mark8, ind); }
    assert(out@ == old(out)@ + mark9);
    emit(out, "        match self {\n");
    let ghost mark10 = mark9 + lit("        match self {\n");
    proof { lemma_joined(old(out)@, mark9, lit("        match self {\n")); }
    assert(out@ == old(out)@ + mark10);
    write_enum_ser_arms(out, indent, defs, variants, meta);
    let ghost mark11 = mark10 + spec_enum_ser_arms(ind, dvs, vs, vs.len() as int);
    proof { lemma_joined(old(out)@, mark10, spec_enum_ser_arms(ind, dvs, vs, vs.len() as int)); }
    assert(out@ == old(out)@ + mark11);
    push_all(out, indent);
    let ghost mark12 = mark11 + ind;
    proof { lemma_joined(old(out)@, mark11, ind); }
    assert(out@ == old(out)@ + mark12);
    emit(out, "        }\n");
    let ghost mark13 = mark12 + lit("        }\n");
    proof { lemma_joined(old(out)@, mark12, lit("        }\n")); }
    assert(out@ == old(out)@ + mark13);
    push_all(out, indent);
    let ghost mark14 = mark13 + ind;
    proof { lemma_joined(old(out)@, mark13, ind); }
    assert(out@ == old(out)@ + mark14);
    emit(out, "    }\n");
    let ghost mark15 = mark14 + lit("    }\n");
    proof { lemma_joined(old(out)@, mark14, lit("    }\n")); }
    assert(out@ == old(out)@ + mark15);
    push_all(out, indent);
    let ghost mark16 = mark15 + ind;
    proof { lemma_joined(old(out)@, mark15, ind); }
    assert(out@ == old(out)@ + mark16);
    emit(out, "}\n");
    let ghost mark17 = mark16 + lit("}\n");
    proof { lemma_joined(old(out)@, mark16, lit("}\n")); }
    assert(out@ == old(out)@ + mark17);
}

/// The impl that reads a union from bytes, by the constructor ID that comes
/// first.
pub open spec fn spec_enum_deserializable(ind: Seq<u8>, dvs: Seq<DefinitionView>, tv: TypeView, vs: Seq<int>) -> Seq<u8> {
    ind + lit("impl crate::Deserializable for ") + spec_to_pascal(encode_utf8(tv.name)) + lit(" {\n") + ind + lit("    fn deserialize(buf: crate::deserialize::Buffer) -> crate::deserialize::Result<Self> {\n") + ind + lit("        use crate::Identifiable;\n") + ind + lit("        let id = u32::deserialize(buf)?;\n") + ind + lit("        Ok(match id {\n") + spec_enum_de_arms(ind, dvs, vs, vs.len() as int) + ind + lit("            _ => return Err(crate::deserialize::Error::UnexpectedConstructor { id }),\n") + ind + lit("        })\n") + ind + lit("    }\n") + ind + lit("}\n")
}

/// Appends: the impl that reads a union from bytes, by the constructor ID that comes
/// first.
pub fn write_enum_deserializable(out: &mut Vec<u8>, indent: &[u8], defs: &[Definition], ty: &Type, variants: &Vec<usize>, meta: &Metadata)
    requires
        forall|k: int| 0 <= k < variants@.len() ==> #[trigger] variants@[k] < defs@.len(),
        knows(*meta, defs@),
    ensures
        final(out)@ == old(out)@ + spec_enum_deserializable(indent@, defs_view(defs@), ty@, places(variants@)),
{
    let ghost ind = indent@;
    let ghost dvs = defs_view(defs@);
    let ghost tv = ty@;
    let ghost vs = places(variants@);
    let name = pascal_bytes(ty.name.as_str().as_bytes());
    push_all(out, indent);
    let ghost mark1 = ind;
    assert(out@ == old(out)@ + mark1);
    emit(out, "impl crate::Deserializable for ");
    let ghost mark2 = mark1 + lit("impl crate::Deserializable for ");
    proof { lemma_joined(old(out)@, mark1, lit("impl crate::Deserializable for ")); }
    assert(out@ == old(out)@ + mark2);
    push_all(out, name.as_slice());
    let ghost mark3 = mark2 + spec_to_pascal(encode_utf8(tv.name));
    proof { lemma_joined(old(out)@, mark2, spec_to_pascal(encode_utf8(tv.name))); }
    assert(out@ == old(out)@ + mark3);
    emit(out, " {\n");
    let ghost mark4 = mark3 + lit(" {\n");
    proof { lemma_joined(old(out)@, mark3, lit(" {\n")); }
    assert(out@ == old(out)@ + mark4);
    push_all(out, indent);
    let ghost mark5 = mark4 + ind;
    proof { lemma_joined(old(out)@, mark4, ind); }
    assert(out@ == old(out)@ + mark5);
    emit(out, "    fn deserialize(buf: crate::deserialize::Buffer) -> crate::deserialize::Result<Self> {\n");
    let ghost mark6 = mark5 + lit("    fn deserialize(buf: crate::deserialize::Buffer) -> crate::deserialize::Result<Self> {\n");
    proof { lemma_joined(old(out)@, mark5, lit("    fn deserialize(buf: crate::deserialize::Buffer) -> crate::deserialize::Result<Self> {\n")); }
    assert(out@ == old(out)@ + mark6);
    push_all(out, indent);
    let ghost mark7 = mark6 + ind;
    proof { lemma_joined(old(out)@, mark6, ind); }
    assert(out@ == old(out)@ + mark7);
    emit(out, "        use crate::Identifiable;\n");
    let ghost mark8 = mark7 + lit("        use crate::Identifiable;\n");
    proof { lemma_joined(old(out)@, mark7, lit("        use crate::Identifiable;\n")); }
    assert(out@ == old(out)@ + mark8);
    push_all(out, indent);
    let ghost mark9 = mark8 + ind;
    proof { lemma_joined(old(out)@, mark8, ind); }
    assert(out@ == old(out)@ + mark9);
    emit(out, "        let id = u32::deserialize(buf)?;\n");
    let ghost mark10 = mark9 + lit("        let id = u32::deserialize(buf)?;\n");
    proof { lemma_joined(old(out)@, mark9, lit("        let id = u32::deserialize(buf)?;\n")); }
    assert(out@ == old(out)@ + mark10);
    push_all(out, indent);
    let ghost mark11 = mark10 + ind;
    proof { lemma_joined(old(out)@, mark10, ind); }
    assert(out@ == old(out)@ + mark11);
    emit(out, "        Ok(match id {\n");
    let ghost mark12 = mark11 + lit("        Ok(match id {\n");
    proof { lemma_joined(old(out)@, mark11, lit("        Ok(match id {\n")); }
    assert(out@ == old(out)@ + mark12);
    write_enum_de_arms(out, indent, defs, variants, meta);
    let ghost mark13 = mark12 + spec_enum_de_arms(ind, dvs, vs, vs.len() as int);
    proof { lemma_joined(old(out)@, mark12, spec_enum_de_arms(ind, dvs, vs, vs.len() as int)); }
    assert(out@ == old(out)@ + mark13);
    push_all(out, indent);
    let ghost mark14 = mark13 + ind;
    proof { lemma_joined(old(out)@, mark13, ind); }
    assert(out@ == old(out)@ + mark14);
    emit(out, "            _ => return Err(crate::deserialize::Error::UnexpectedConstructor { id }),\n");
    let ghost mark15 = mark14 + lit("            _ => return Err(crate::deserialize::Error::UnexpectedConstructor { id }),\n");
    proof { lemma_joined(old(out)@, mark14, lit("            _ => return Err(crate::deserialize::Error::UnexpectedConstructor { id }),\n")); }
    assert(out@ == old(out)@ + mark15);
    push_all(out, indent);
    let ghost mark16 = mark15 + ind;
    proof { lemma_joined(old(out)@, mark15, ind); }
    assert(out@ == old(out)@ + mark16);
    emit(out, "        })\n");
    let ghost mark17 = mark16 + lit("        })\n");
    proof { lemma_joined(old(out)@, mark16, lit("        })\n")); }
    assert(out@ == old(out)@ + mark17);
    push_all(out, indent);
    let ghost mark18 = mark17 + ind;
    proof { lemma_joined(old(out)@, mark17, ind); }
    assert(out@ == old(out)@ + mark18);
    emit(out, "    }\n");
    let ghost mark19 = mark18 + lit("    }\n");
    proof { lemma_joined(old(out)@, mark18, lit("    }\n")); }
    assert(out@ == old(out)@ + mark19);
    push_all(out, indent);
    let ghost mark20 = mark19 + ind;
    proof { lemma_joined(old(out)@, mark19, ind); }
    assert(out@ == old(out)@ + mark20);
    emit(out, "}\n");
    let ghost mark21 = mark20 + lit("}\n");
    proof { lemma_joined(old(out)@, mark20, lit("}\n")); }
    assert(out@ == old(out)@ + mark21);
}

/// The conversions from the records of the type `tv` to its union.
pub open spec fn spec_impl_from(ind: Seq<u8>, dvs: Seq<DefinitionView>, tv: TypeView, vs: Seq<int>) -> Seq<u8> {
    spec_from_impls(ind, spec_to_pascal(encode_utf8(tv.name)), dvs, vs, vs.len() as int)
}

/// Appends: the conversions from the records of the type `tv` to its union.
pub fn write_impl_from(out: &mut Vec<u8>, indent: &[u8], defs: &[Definition], ty: &Type, variants: &Vec<usize>, meta: &Metadata)
    requires
        forall|k: int| 0 <= k < variants@.len() ==> #[trigger] variants@[k] < defs@.len(),
        knows(*meta, defs@),
    ensures
        final(out)@ == old(out)@ + spec_impl_from(indent@, defs_view(defs@), ty@, places(variants@)),
{
    let ghost ind = indent@;
    let ghost dvs = defs_view(defs@);
    let ghost tv = ty@;
    let ghost vs = places(variants@);
    let name = pascal_bytes(ty.name.as_str().as_bytes());
    write_from_impls(out, indent, name.as_slice(), defs, variants, meta);
    let ghost mark1 = spec_from_impls(ind, spec_to_pascal(encode_utf8(tv.name)), dvs, vs, vs.len() as int);
    assert(out@ == old(out)@ + mark1);
}

/// The conversions from the union of the type `tv` back to its records.
pub open spec fn spec_impl_try_from(ind: Seq<u8>, dvs: Seq<DefinitionView>, tv: TypeView, vs: Seq<int>) -> Seq<u8> {
    spec_try_from_impls(ind, spec_to_pascal(encode_utf8(tv.name)), dvs, vs, vs.len() as int)
}

/// Appends: the conversions from the union of the type `tv` back to its records.
pub fn write_impl_try_from(out: &mut Vec<u8>, indent: &[u8], defs: &[Definition], ty: &Type, variants: &Vec<usize>, meta: &Metadata)
    requires
        forall|k: int| 0 <= k < variants@.len() ==> #[trigger] variants@[k] < defs@.len(),
        knows(*meta, defs@),
    ensures
        final(out)@ == old(out)@ + spec_impl_try_from(indent@, defs_view(defs@), ty@, places(variants@)),
{
    let ghost ind = indent@;
    let ghost dvs = defs_view(defs@);
    let ghost tv = ty@;
    let ghost vs = places(variants@);
    let name = pascal_bytes(ty.name.as_str().as_bytes());
    write_try_from_impls(out, indent, name.as_slice(), defs, variants, meta);
    let ghost mark1 = spec_try_from_impls(ind, spec_to_pascal(encode_utf8(tv.name)), dvs, vs, vs.len() as int);
    assert(out@ == old(out)@ + mark1);
}

/// All that is written for one type: the union, the impls that write and
/// read it, and the conversions that `cfg` asks for.
pub open spec fn spec_union(ind: Seq<u8>, dvs: Seq<DefinitionView>, tv: TypeView, cfg: Config) -> Seq<u8> {
    let vs = spec_defs_for_type(dvs, tv.namespace, tv.name, dvs.len() as int);
    spec_enum(ind, dvs, tv, vs, cfg) + spec_enum_serializable(ind, dvs, tv, vs) + spec_enum_deserializable(ind, dvs, tv, vs) + (if cfg.impl_from_type { spec_impl_from(ind, dvs, tv, vs) } else { Seq::<u8>::empty() }) + (if cfg.impl_from_enum { spec_impl_try_from(ind, dvs, tv, vs) } else { Seq::<u8>::empty() })
}

/// Appends: all that is written for one type: the union, the impls that write and
/// read it, and the conversions that `cfg` asks for.
pub fn write_union(out: &mut Vec<u8>, indent: &[u8], defs: &[Definition], ty: &Type, meta: &Metadata, config: &Config)
    requires
        knows(*meta, defs@),
    ensures
        final(out)@ == old(out)@ + spec_union(indent@, defs_view(defs@), ty@, *config),
{
    let ghost ind = indent@;
    let ghost dvs = defs_view(defs@);
    let ghost tv = ty@;
    let ghost cfg = *config;
    let variants = defs_for_type(defs, ty);
    let ghost vs = spec_defs_for_type(dvs, tv.namespace, tv.name, dvs.len() as int);
    assert(places(variants@) =~= vs);
    write_enum(out, indent, defs, ty, &variants, meta, config);
    let ghost mark1 = spec_enum(ind, dvs, tv, vs, cfg);
    assert(out@ == old(out)@ + mark1);
    write_enum_serializable(out, indent, defs, ty, &variants, meta);
    let ghost mark2 = mark1 + spec_enum_serializable(ind, dvs, tv, vs);
    proof { lemma_joined(old(out)@, mark1, spec_enum_serializable(ind, dvs, tv, vs)); }
    assert(out@ == old(out)@ + mark2);
    write_enum_deserializable(out, indent, defs, ty, &variants, meta);
    let ghost mark3 = mark2 + spec_enum_deserializable(ind, dvs, tv, vs);
    proof { lemma_joined(old(out)@, mark2, spec_enum_deserializable(ind, dvs, tv, vs)); }
    assert(out@ == old(out)@ + mark3);
    let ghost mark4 = out@;
    if config.impl_from_type {
        write_impl_from(out, indent, defs, ty, &variants, meta);
        let ghost mark5 = spec_impl_from(ind, dvs, tv, vs);
        assert(out@ == mark4 + mark5);
    } else {
        proof { lemma_nothing(mark4); }
    }
    let ghost mark6 = mark3 + (if cfg.impl_from_type { spec_impl_from(ind, dvs, tv, vs) } else { Seq::<u8>::empty() });
    proof { lemma_joined(old(out)@, mark3, (if cfg.impl_from_type { spec_impl_from(ind, dvs, tv, vs) } else { Seq::<u8>::empty() })); }
    assert(out@ == old(out)@ + mark6);
    let ghost mark7 = out@;
    if config.impl_from_enum {
        write_impl_try_from(out, indent, defs, ty, &variants, meta);
        let ghost mark8 = spec_impl_try_from(ind, dvs, tv, vs);
        assert(out@ == mark7 + mark8);
    } else {
        proof { lemma_nothing(mark7); }
    }
    let ghost mark9 = mark6 + (if cfg.impl_from_enum { spec_impl_try_from(ind, dvs, tv, vs) } else { Seq::<u8>::empty() });
    proof { lemma_joined(old(out)@, mark6, (if cfg.impl_from_enum { spec_impl_try_from(ind, dvs, tv, vs) } else { Seq::<u8>::empty() })); }
    assert(out@ == old(out)@ + mark9);
}

/// The unions of the types of the definitions at the places `ms`, but for
/// the types that get none.
/// The first `n` of them.
pub open spec fn spec_unions(ind: Seq<u8>, dvs: Seq<DefinitionView>, ms: Seq<int>, cfg: Config, n: int) -> Seq<u8>
    decreases n,
{
    if n <= 0 {
        Seq::empty()
    } else {
        spec_unions(ind, dvs, ms, cfg, n - 1) + ((if spec_is_builtin(dvs[ms[n - 1]].ty) { Seq::<u8>::empty() } else { spec_union(ind, dvs, dvs[ms[n - 1]].ty, cfg) }))
    }
}

/// Appends: the unions of the types of the definitions at the places `ms`, but for
/// the types that get none.
pub fn write_unions(out: &mut Vec<u8>, indent: &[u8], defs: &[Definition], members: &Vec<usize>, meta: &Metadata, config: &Config)
    requires
        forall|k: int| 0 <= k < members@.len() ==> #[trigger] members@[k] < defs@.len(),
        knows(*meta, defs@),
    ensures
        final(out)@ == old(out)@ + spec_unions(indent@, defs_view(defs@), places(members@), *config, members@.len() as int),
{
    let ghost ind = indent@;
    let ghost dvs = defs_view(defs@);
    let ghost ms = places(members@);
    let ghost cfg = *config;
    let mut i: usize = 0;
    let count: usize = members.len();
    proof { lemma_nothing(old(out)@); }
    while i < count
        invariant
            i <= count,
            count == ms.len(),
            ind == indent@,
            dvs == defs_view(defs@),
            ms == places(members@),
            cfg == *config,
            forall|k: int| 0 <= k < members@.len() ==> #[trigger] members@[k] < defs@.len(),
            knows(*meta, defs@),
            out@ == old(out)@ + spec_unions(ind, dvs, ms, cfg, i as int),
        decreases count - i,
    {
        let ghost before = out@;
        assert(dvs[ms[i as int]] == defs@[members@[i as int] as int]@);
        let ghost mark1 = out@;
        if is_builtin(&defs[members[i]].ty) {
            proof { lemma_nothing(mark1); }
        } else {
            write_union(out, indent, defs, &defs[members[i]].ty, meta, config);
            let ghost mark2 = spec_union(ind, dvs, dvs[ms[i as int]].ty, cfg);
            assert(out@ == mark1 + mark2);
        }
        let ghost mark3 = (if spec_is_builtin(dvs[ms[i as int]].ty) { Seq::<u8>::empty() } else { spec_union(ind, dvs, dvs[ms[i as int]].ty, cfg) });
        assert(out@ == before + mark3);
        proof { lemma_joined(old(out)@, spec_unions(ind, dvs, ms, cfg, i as int), (if spec_is_builtin(dvs[ms[i as int]].ty) { Seq::<u8>::empty() } else { spec_union(ind, dvs, dvs[ms[i as int]].ty, cfg) })); }
        i += 1;
    }
}

/// The unions of one namespace, inside a module of its name where it has
/// one.
pub open spec fn spec_union_group(dvs: Seq<DefinitionView>, gv: GroupView, cfg: Config) -> Seq<u8> {
    (if gv.ns.len() == 0 { Seq::<u8>::empty() } else { lit("    pub mod ") + gv.ns + lit(" {\n") }) + spec_unions(spec_indent(gv.ns), dvs, gv.members, cfg, gv.members.len() as int) + (if gv.ns.len() == 0 { Seq::<u8>::empty() } else { lit("    }\n") })
}

/// Appends: the unions of one namespace, inside a module of its name where it has
/// one.
pub fn write_union_group(out: &mut Vec<u8>, defs: &[Definition], group: &Group, meta: &Metadata, config: &Config)
    requires
        forall|k: int| 0 <= k < group.members@.len() ==> #[trigger] group.members@[k] < defs@.len(),
        knows(*meta, defs@),
    ensures
        final(out)@ == old(out)@ + spec_union_group(defs_view(defs@), group@, *config),
{
    let ghost dvs = defs_view(defs@);
    let ghost gv = group@;
    let ghost cfg = *config;
    assert(places(group.members@) =~= gv.members);
    let ghost mark1 = out@;
    if group.ns.len() == 0 {
        proof { lemma_nothing(mark1); }
    } else {
        emit(out, "    pub mod ");
        let ghost mark2 = lit("    pub mod ");
        assert(out@ == mark1 + mark2);
        push_all(out, group.ns.as_slice());
        let ghost mark3 = mark2 + gv.ns;
        proof { lemma_joined(mark1, mark2, gv.ns); }
        assert(out@ == mark1 + mark3);
        emit(out, " {\n");
        let ghost mark4 = mark3 + lit(" {\n");
        proof { lemma_joined(mark1, mark3, lit(" {\n")); }
        assert(out@ == mark1 + mark4);
    }
    let ghost mark5 = (if gv.ns.len() == 0 { Seq::<u8>::empty() } else { lit("    pub mod ") + gv.ns + lit(" {\n") });
    assert(out@ == old(out)@ + mark5);
    write_unions(out, indent_for(group.ns.as_slice()), defs, &group.members, meta, config);
    let ghost mark6 = mark5 + spec_unions(spec_indent(gv.ns), dvs, gv.members, cfg, gv.members.len() as int);
    proof { lemma_joined(old(out)@, mark5, spec_unions(spec_indent(gv.ns), dvs, gv.members, cfg, gv.members.len() as int)); }
    assert(out@ == old(out)@ + mark6);
    let ghost mark7 = out@;
    if group.ns.len() == 0 {
        proof { lemma_nothing(mark7); }
    } else {
        emit(out, "    }\n");
        let ghost mark8 = lit("    }\n");
        assert(out@ == mark7 + mark8);
    }
    let ghost mark9 = mark6 + (if gv.ns.len() == 0 { Seq::<u8>::empty() } else { lit("    }\n") });
    proof { lemma_joined(old(out)@, mark6, (if gv.ns.len() == 0 { Seq::<u8>::empty() } else { lit("    }\n") })); }
    assert(out@ == old(out)@ + mark9);
}

/// The unions of the namespaces `gvs`, one after the other.
/// The first `n` of them.
pub open spec fn spec_union_groups(dvs: Seq<DefinitionView>, gvs: Seq<GroupView>, cfg: Config, n: int) -> Seq<u8>
    decreases n,
{
    if n <= 0 {
        Seq::empty()
    } else {
        spec_union_groups(dvs, gvs, cfg, n - 1) + (spec_union_group(dvs, gvs[n - 1], cfg))
    }
}

/// Appends: the unions of the namespaces `gvs`, one after the other.
pub fn write_union_groups(out: &mut Vec<u8>, defs: &[Definition], groups: &Vec<Group>, meta: &Metadata, config: &Config)
    requires
        forall|g: int, k: int| 0 <= g < groups@.len() && 0 <= k < groups@[g].members@.len() ==> #[trigger] groups@[g].members@[k] < defs@.len(),
        knows(*meta, defs@),
    ensures
        final(out)@ == old(out)@ + spec_union_groups(defs_view(defs@), groups_view(groups@), *config, groups@.len() as int),
{
    let ghost dvs = defs_view(defs@);
    let ghost gvs = groups_view(groups@);
    let ghost cfg = *config;
    let mut i: usize = 0;
    let count: usize = groups.len();
    proof { lemma_nothing(old(out)@); }
    while i < count
        invariant
            i <= count,
            count == gvs.len(),
            dvs == defs_view(defs@),
            gvs == groups_view(groups@),
            cfg == *config,
            forall|g: int, k: int| 0 <= g < groups@.len() && 0 <= k < groups@[g].members@.len() ==> #[trigger] groups@[g].members@[k] < defs@.len(),
            knows(*meta, defs@),
            out@ == old(out)@ + spec_union_groups(dvs, gvs, cfg, i as int),
        decreases count - i,
    {
        let ghost before = out@;
        assert(gvs[i as int] == groups@[i as int]@);
        write_union_group(out, defs, &groups[i], meta, config);
        let ghost mark1 = spec_union_group(dvs, gvs[i as int], cfg);
        assert(out@ == before + mark1);
        proof { lemma_joined(old(out)@, spec_union_groups(dvs, gvs, cfg, i as int), spec_union_group(dvs, gvs[i as int], cfg)); }
        i += 1;
    }
}

/// The module of the unions, by namespace.
pub open spec fn spec_enums_mod(dvs: Seq<DefinitionView>, cfg: Config) -> Seq<u8> {
    lit("// @generated — do not edit by hand\npub mod enums {\n") + spec_union_groups(dvs, spec_group_types_by_ns(dvs), cfg, spec_group_types_by_ns(dvs).len() as int) + lit("}\n")
}

/// Appends: the module of the unions, by namespace.
pub fn write_enums_mod(out: &mut Vec<u8>, defs: &[Definition], meta: &Metadata, config: &Config)
    requires
        knows(*meta, defs@),
    ensures
        final(out)@ == old(out)@ + spec_enums_mod(defs_view(defs@), *config),
{
    let ghost dvs = defs_view(defs@);
    let ghost cfg = *config;
    let groups = group_types_by_ns(defs);
    emit(out, "// @generated — do not edit by hand\npub mod enums {\n");
    let ghost mark1 = lit("// @generated — do not edit by hand\npub mod enums {\n");
    assert(out@ == old(out)@ + mark1);
    write_union_groups(out, defs, &groups, meta, config);
    let ghost mark2 = mark1 + spec_union_groups(dvs, spec_group_types_by_ns(dvs), cfg, spec_group_types_by_ns(dvs).len() as int);
    proof { lemma_joined(old(out)@, mark1, spec_union_groups(dvs, spec_group_types_by_ns(dvs), cfg, spec_group_types_by_ns(dvs).len() as int)); }
    assert(out@ == old(out)@ + mark2);
    emit(out, "}\n");
    let ghost mark3 = mark2 + lit("}\n");
    proof { lemma_joined(old(out)@, mark2, lit("}\n")); }
    assert(out@ == old(out)@ + mark3);
}

/// The four texts that the generator fills.
#[derive(Debug, PartialEq, Eq)]
pub struct Outputs {
    /// What the other modules share.
    pub common: Vec<u8>,
    /// The records of the constructors.
    pub types: Vec<u8>,
    /// The records of the functions.
    pub functions: Vec<u8>,
    /// The unions.
    pub enums: Vec<u8>,
}

impl Outputs {
    /// Four empty texts.
    pub fn new() -> (o: Self)
        ensures
            o.common@.len() == 0,
            o.types@.len() == 0,
            o.functions@.len() == 0,
            o.enums@.len() == 0,
    {
        Outputs { common: Vec::new(), types: Vec::new(), functions: Vec::new(), enums: Vec::new() }
    }

    /// Hands on what is pending. The texts are held in memory, where
    /// nothing is: they stay as they are.
    pub fn flush(&mut self)
        ensures
            *final(self) == *old(self),
    {
    }
}

/// Writes the modules for the schema `defs`, each behind what its text holds
/// already.
pub fn generate(defs: &[Definition], config: &Config, outputs: &mut Outputs)
    ensures
        final(outputs).common@ == old(outputs).common@ + spec_common(defs_view(defs@), *config),
        final(outputs).types@ == old(outputs).types@ + spec_types_mod(defs_view(defs@), *config),
        final(outputs).functions@ == old(outputs).functions@ + spec_functions_mod(
            defs_view(defs@),
            *config,
        ),
        final(outputs).enums@ == old(outputs).enums@ + spec_enums_mod(defs_view(defs@), *config),
{
    let meta = Metadata::build(defs);
    write_common(&mut outputs.common, defs, config);
    write_types_mod(&mut outputs.types, defs, config);
    write_functions_mod(&mut outputs.functions, defs, config);
    write_enums_mod(&mut outputs.enums, defs, &meta, config);
}


} // verus!
