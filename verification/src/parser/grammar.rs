//! The grammar of a definition, and the functions that read it.
//!
//! ```text
//! definition   := full_name ('#' hex_id)? param* '=' type ';'
//! full_name    := (ns '.')* name
//! param        := '{' generic_name ':Type}'
//!               | name ':' ptype
//! ptype        := '#'
//!               | (flag_name '.' bit_index '?')? type
//! type         := '!'? (ns '.')* name ('<' type '>')?
//! ```

use vstd::prelude::*;
use crate::client::session::{lenient_text, spec_lenient_text};
use crate::crc32::{crc32, spec_crc32};
use crate::parser::errors::{
    IdError, ParamParseError, ParamParseErrorView, ParseError, ParseErrorView,
};
use crate::parser::tl::{
    params_view, texts, Category, Definition, DefinitionView, Flag, FlagView, Parameter,
    ParameterType, ParameterTypeView, ParameterView, Type, TypeView,
};
use crate::text::{
    all_digits, back_over_spaces, decimal_value, find_from, first_ws, index_of_from,
    is_all_digits, last_index_of, parse_decimal_u32, rfind, skip_token, split, split_on,
    split_whitespace, tokens, trim, trimmed, views,
};
use crate::tl::wire::{bytes_eq, copy_range, push_all};

verus! {

pub const BANG: u8 = 0x21;

pub const HASH: u8 = 0x23;

pub const PLUS: u8 = 0x2b;

pub const DOT: u8 = 0x2e;

pub const COLON: u8 = 0x3a;

pub const SEMICOLON: u8 = 0x3b;

pub const LESS: u8 = 0x3c;

pub const EQUALS: u8 = 0x3d;

pub const GREATER: u8 = 0x3e;

pub const QUESTION: u8 = 0x3f;

pub const BRACE: u8 = 0x7b;

/// The texts of byte strings.
pub open spec fn text_of_all(parts: Seq<Seq<u8>>) -> Seq<Seq<char>> {
    Seq::new(parts.len(), |i: int| spec_lenient_text(parts[i]))
}

/// Some part of `parts` is empty.
pub open spec fn has_empty(parts: Seq<Seq<u8>>) -> bool {
    exists|k: int| 0 <= k < parts.len() && (#[trigger] parts[k]).len() == 0
}

/// The namespaces and the name in `full`: what stands behind the last dot
/// is the name, what stands before it are the namespaces, which dots part.
pub open spec fn spec_split_name(full: Seq<u8>) -> (Seq<Seq<u8>>, Seq<u8>) {
    match last_index_of(full, DOT) {
        Some(j) => (split_on(full.take(j), DOT), full.skip(j + 1)),
        None => (Seq::empty(), full),
    }
}

/// `b` is an ASCII lower-case letter.
pub open spec fn is_lower(b: u8) -> bool {
    0x61 <= b <= 0x7a
}

/// The type with the name part `name_part`.
pub open spec fn spec_finish_type(
    name_part: Seq<u8>,
    generic_ref: bool,
    arg: Option<Box<TypeView>>,
) -> Result<TypeView, ParamParseErrorView> {
    let (ns, name) = spec_split_name(name_part);
    if has_empty(ns) || name.len() == 0 {
        Err(ParamParseErrorView::Empty)
    } else {
        Ok(
            TypeView {
                namespace: text_of_all(ns),
                name: spec_lenient_text(name),
                bare: is_lower(name[0]),
                generic_ref,
                generic_arg: arg,
            },
        )
    }
}

/// Reading a type: an optional `!`, the dotted name, and an optional
/// generic argument between `<` and a closing `>`.
pub open spec fn spec_parse_type(raw: Seq<u8>) -> Result<TypeView, ParamParseErrorView>
    decreases raw.len(),
{
    let generic_ref = raw.len() > 0 && raw[0] == BANG;
    let body = if generic_ref {
        raw.skip(1)
    } else {
        raw
    };
    match index_of_from(body, LESS, 0) {
        Some(i) => if 0 <= i < body.len() {
            let rest = body.skip(i + 1);
            if rest.len() > 0 && rest.last() == GREATER {
                match spec_parse_type(rest.drop_last()) {
                    Err(e) => Err(e),
                    Ok(arg) => spec_finish_type(body.take(i), generic_ref, Some(Box::new(arg))),
                }
            } else {
                Err(ParamParseErrorView::InvalidGeneric)
            }
        } else {
            Err(ParamParseErrorView::InvalidGeneric)
        },
        None => spec_finish_type(body, generic_ref, None),
    }
}

/// The 32-bit number that `s` writes in decimal, with an optional `+`
/// before it.
pub open spec fn spec_parse_u32(s: Seq<u8>) -> Option<u32> {
    let digits = if s.len() > 0 && s[0] == PLUS {
        s.skip(1)
    } else {
        s
    };
    if digits.len() > 0 && all_digits(digits) && decimal_value(digits) <= u32::MAX {
        Some(decimal_value(digits) as u32)
    } else {
        None
    }
}

/// Reading the type of a parameter: `#` for a flags field, else a type
/// with an optional `name.N?` before it.
pub open spec fn spec_parse_param_type(s: Seq<u8>) -> Result<
    ParameterTypeView,
    ParamParseErrorView,
> {
    if s == seq![HASH] {
        Ok(ParameterTypeView::Flags)
    } else {
        match index_of_from(s, QUESTION, 0) {
            Some(q) => {
                let flag_part = s.take(q);
                match index_of_from(flag_part, DOT, 0) {
                    None => Err(ParamParseErrorView::InvalidFlag),
                    Some(d) => {
                        let name = flag_part.take(d);
                        let index = flag_part.skip(d + 1);
                        if name.len() == 0 || index.len() == 0 {
                            Err(ParamParseErrorView::InvalidFlag)
                        } else {
                            match spec_parse_u32(index) {
                                None => Err(ParamParseErrorView::InvalidFlag),
                                Some(n) => match spec_parse_type(s.skip(q + 1)) {
                                    Err(e) => Err(e),
                                    Ok(ty) => Ok(
                                        ParameterTypeView::Normal {
                                            ty,
                                            flag: Some(
                                                FlagView {
                                                    name: spec_lenient_text(name),
                                                    index: n,
                                                },
                                            ),
                                        },
                                    ),
                                },
                            }
                        }
                    },
                }
            },
            None => match spec_parse_type(s) {
                Err(e) => Err(e),
                Ok(ty) => Ok(ParameterTypeView::Normal { ty, flag: None }),
            },
        }
    }
}

/// The text `:Type}`.
pub open spec fn type_def_suffix() -> Seq<u8> {
    seq![COLON, 0x54u8, 0x79u8, 0x70u8, 0x65u8, 0x7du8]
}

/// Reading a parameter. A token in braces declares a generic and comes out
/// as the "error" `TypeDef`.
pub open spec fn spec_parse_param(token: Seq<u8>) -> Result<ParameterView, ParamParseErrorView> {
    if token.len() > 0 && token[0] == BRACE {
        let inner = token.skip(1);
        if crate::text::spec_ends_with(inner, type_def_suffix()) {
            Err(
                ParamParseErrorView::TypeDef {
                    name: spec_lenient_text(inner.take(inner.len() - 6)),
                },
            )
        } else {
            Err(ParamParseErrorView::MissingDef)
        }
    } else {
        match index_of_from(token, COLON, 0) {
            None => Err(ParamParseErrorView::NotImplemented),
            Some(c) => {
                let name = token.take(c);
                let ty = token.skip(c + 1);
                if name.len() == 0 || ty.len() == 0 {
                    Err(ParamParseErrorView::Empty)
                } else {
                    match spec_parse_param_type(ty) {
                        Err(e) => Err(e),
                        Ok(t) => Ok(ParameterView { name: spec_lenient_text(name), ty: t }),
                    }
                }
            },
        }
    }
}

/// The value of the hexadecimal digit `b`.
pub open spec fn hex_digit(b: u8) -> Option<u32> {
    if 0x30 <= b <= 0x39 {
        Some((b - 0x30) as u32)
    } else if 0x61 <= b <= 0x66 {
        Some((b - 0x61 + 10) as u32)
    } else if 0x41 <= b <= 0x46 {
        Some((b - 0x41 + 10) as u32)
    } else {
        None
    }
}

/// Reading hexadecimal digits from `i` on, with `acc` read so far.
pub open spec fn spec_hex_from(s: Seq<u8>, i: int, acc: u32) -> Result<u32, IdError>
    decreases s.len() - i,
{
    if i < 0 || i >= s.len() {
        Ok(acc)
    } else {
        match hex_digit(s[i]) {
            None => Err(IdError::InvalidDigit),
            Some(d) => if acc * 16 + d > u32::MAX {
                Err(IdError::Overflow)
            } else {
                spec_hex_from(s, i + 1, (acc * 16 + d) as u32)
            },
        }
    }
}

/// The 32-bit number that `s` writes in hexadecimal, with an optional `+`
/// before it.
pub open spec fn spec_parse_hex(s: Seq<u8>) -> Result<u32, IdError> {
    if s.len() == 0 {
        Err(IdError::Empty)
    } else {
        let start: int = if s[0] == PLUS {
            1
        } else {
            0
        };
        if start >= s.len() {
            Err(IdError::InvalidDigit)
        } else {
            spec_hex_from(s, start, 0)
        }
    }
}

/// `s` without the semicolons at its end.
pub open spec fn strip_semicolons(s: Seq<u8>) -> Seq<u8>
    decreases s.len(),
{
    if s.len() > 0 && s.last() == SEMICOLON {
        strip_semicolons(s.drop_last())
    } else {
        s
    }
}

/// The `parts` with one space between each two.
pub open spec fn joined(parts: Seq<Seq<u8>>) -> Seq<u8>
    decreases parts.len(),
{
    if parts.len() == 0 {
        Seq::empty()
    } else if parts.len() == 1 {
        parts[0]
    } else {
        joined(parts.drop_last()) + seq![0x20u8] + parts.last()
    }
}

/// The canonical form of a definition: its tokens with single spaces
/// between them.
pub open spec fn canonical(definition: Seq<u8>) -> Seq<u8> {
    joined(tokens(definition))
}

/// The constructor ID that a definition without `#id` gets: the CRC-32 of
/// its canonical form, as in `boolFalse = Bool`.
pub open spec fn spec_tl_id(definition: Seq<u8>) -> u32 {
    spec_crc32(canonical(definition))
}

/// What reading the parameter tokens gives: the parameters so far and the
/// generics declared so far.
pub struct ParamsView {
    pub params: Seq<ParameterView>,
    pub type_defs: Seq<Seq<char>>,
}

/// Reading the parameter tokens `toks` in order. A token in braces declares
/// a generic; a flags field declares itself; a reference to a generic or to
/// a flags field must have been declared by a token before it.
pub open spec fn spec_params(
    toks: Seq<Seq<u8>>,
    type_defs: Seq<Seq<char>>,
    flag_defs: Seq<Seq<char>>,
    acc: Seq<ParameterView>,
) -> Result<ParamsView, ParseErrorView>
    decreases toks.len(),
{
    if toks.len() == 0 {
        Ok(ParamsView { params: acc, type_defs })
    } else {
        match spec_parse_param(toks[0]) {
            Err(ParamParseErrorView::TypeDef { name }) => spec_params(
                toks.skip(1),
                type_defs.push(name),
                flag_defs,
                acc,
            ),
            Err(ParamParseErrorView::NotImplemented) => Err(ParseErrorView::NotImplemented),
            Err(e) => Err(ParseErrorView::InvalidParam(e)),
            Ok(p) => match p.ty {
                ParameterTypeView::Flags => spec_params(
                    toks.skip(1),
                    type_defs,
                    flag_defs.push(p.name),
                    acc.push(p),
                ),
                ParameterTypeView::Normal { ty, flag } => if ty.generic_ref && !type_defs.contains(
                    ty.name,
                ) {
                    Err(ParseErrorView::InvalidParam(ParamParseErrorView::MissingDef))
                } else if flag is Some && !flag_defs.contains(flag->Some_0.name) {
                    Err(ParseErrorView::InvalidParam(ParamParseErrorView::MissingDef))
                } else {
                    spec_params(toks.skip(1), type_defs, flag_defs, acc.push(p))
                },
            },
        }
    }
}

/// Reading a definition. The category is always `Types`: whoever reads a
/// file sets the real one.
pub open spec fn spec_parse_definition(text: Seq<u8>) -> Result<DefinitionView, ParseErrorView> {
    let raw = trim(text);
    if raw.len() == 0 {
        Err(ParseErrorView::Empty)
    } else {
        match index_of_from(raw, EQUALS, 0) {
            None => Err(ParseErrorView::MissingType),
            Some(e) => {
                let lhs = trim(raw.take(e));
                let ty_str = trim(strip_semicolons(trim(raw.skip(e + 1))));
                if ty_str.len() == 0 {
                    Err(ParseErrorView::MissingType)
                } else {
                    match spec_parse_type(ty_str) {
                        Err(_) => Err(ParseErrorView::MissingType),
                        Ok(ty) => spec_parse_lhs(raw, lhs, ty),
                    }
                }
            },
        }
    }
}

/// Reading the left-hand side `lhs` of the definition `raw`, whose type is
/// `ty`: the name with an optional `#id`, then the parameters.
pub open spec fn spec_parse_lhs(raw: Seq<u8>, lhs: Seq<u8>, ty: TypeView) -> Result<
    DefinitionView,
    ParseErrorView,
> {
    let sp = first_ws(lhs, 0);
    let head = if 0 <= sp < lhs.len() {
        lhs.take(sp)
    } else {
        lhs
    };
    let rest = if 0 <= sp < lhs.len() {
        lhs.skip(sp + crate::text::space_len(lhs, sp))
    } else {
        Seq::empty()
    };
    let hash = index_of_from(head, HASH, 0);
    let full_name = match hash {
        Some(h) => head.take(h),
        None => head,
    };
    let (ns, name) = spec_split_name(full_name);
    if has_empty(ns) || name.len() == 0 {
        Err(ParseErrorView::MissingName)
    } else {
        let id = match hash {
            Some(h) => spec_parse_hex(head.skip(h + 1)),
            None => Ok(spec_tl_id(raw)),
        };
        match id {
            Err(e) => Err(ParseErrorView::InvalidId(e)),
            Ok(id) => match spec_params(tokens(rest), Seq::empty(), Seq::empty(), Seq::empty()) {
                Err(e) => Err(e),
                Ok(found) => Ok(
                    DefinitionView {
                        namespace: text_of_all(ns),
                        name: spec_lenient_text(name),
                        id,
                        params: found.params,
                        ty: if found.type_defs.contains(ty.name) {
                            TypeView { generic_ref: true, ..ty }
                        } else {
                            ty
                        },
                        category: Category::Types,
                    },
                ),
            },
        }
    }
}

// ─── reading ─────────────────────────────────────────────────────────────────
/// The texts of `parts`.
fn to_strings(parts: &Vec<Vec<u8>>) -> (out: Vec<String>)
    ensures
        texts(out@) == text_of_all(views(parts@)),
{
    let mut out: Vec<String> = Vec::new();
    let mut i: usize = 0;
    while i < parts.len()
        invariant
            i <= parts.len(),
            out@.len() == i,
            forall|k: int| 0 <= k < i ==> out@[k]@ == spec_lenient_text(parts@[k]@),
        decreases parts.len() - i,
    {
        out.push(lenient_text(parts[i].as_slice()));
        i += 1;
    }
    assert(texts(out@) =~= text_of_all(views(parts@)));
    out
}

/// Whether some part is empty.
fn any_empty(parts: &Vec<Vec<u8>>) -> (r: bool)
    ensures
        r == has_empty(views(parts@)),
{
    let mut i: usize = 0;
    while i < parts.len()
        invariant
            i <= parts.len(),
            forall|k: int| 0 <= k < i ==> (#[trigger] views(parts@)[k]).len() != 0,
        decreases parts.len() - i,
    {
        if parts[i].len() == 0 {
            assert(views(parts@)[i as int].len() == 0);
            return true;
        }
        i += 1;
    }
    false
}

/// Splits a dotted name into its namespaces and the name.
fn split_name(full: &[u8]) -> (r: (Vec<Vec<u8>>, Vec<u8>))
    ensures
        (views(r.0@), r.1@) == spec_split_name(full@),
{
    match rfind(full, DOT) {
        Some(j) => {
            let total = full.len();
            let head = copy_range(full, 0, j);
            assert(head@ =~= full@.take(j as int));
            let name = copy_range(full, j + 1, total);
            assert(name@ =~= full@.skip(j + 1));
            (split(head.as_slice(), DOT), name)
        },
        None => {
            let name = copy_range(full, 0, full.len());
            assert(name@ =~= full@);
            let ns: Vec<Vec<u8>> = Vec::new();
            assert(views(ns@) =~= Seq::<Seq<u8>>::empty());
            (ns, name)
        },
    }
}

/// `r` is the outcome `expected` of reading a type.
pub open spec fn type_is(r: Result<Type, ParamParseError>, expected: Result<
    TypeView,
    ParamParseErrorView,
>) -> bool {
    match expected {
        Ok(v) => r is Ok && r->Ok_0@ == v,
        Err(e) => r is Err && r->Err_0@ == e,
    }
}

/// Makes the type with the name part `name_part`.
fn finish_type(name_part: &[u8], generic_ref: bool, arg: Option<Box<Type>>) -> (r: Result<
    Type,
    ParamParseError,
>)
    ensures
        type_is(
            r,
            spec_finish_type(
                name_part@,
                generic_ref,
                match arg {
                    Some(a) => Some(Box::new((*a)@)),
                    None => None,
                },
            ),
        ),
{
    let (ns, name) = split_name(name_part);
    if any_empty(&ns) || name.len() == 0 {
        return Err(ParamParseError::Empty);
    }
    let bare = 0x61 <= name[0] && name[0] <= 0x7a;
    Ok(
        Type {
            namespace: to_strings(&ns),
            name: lenient_text(name.as_slice()),
            bare,
            generic_ref,
            generic_arg: arg,
        },
    )
}

impl Type {
    /// Reads a type such as `ns.Vector<!X>`.
    pub fn from_str(raw: &str) -> (r: Result<Type, ParamParseError>)
        ensures
            type_is(r, spec_parse_type(vstd::string::StringSliceAdditionalSpecFns::spec_bytes(raw))),
    {
        parse_type(raw.as_bytes())
    }
}

/// Reads a type.
pub fn parse_type(raw: &[u8]) -> (r: Result<Type, ParamParseError>)
    ensures
        type_is(r, spec_parse_type(raw@)),
    decreases raw@.len(),
{
    let total = raw.len();
    let generic_ref = total > 0 && raw[0] == BANG;
    let body = if generic_ref {
        copy_range(raw, 1, total)
    } else {
        copy_range(raw, 0, total)
    };
    assert(body@ =~= if generic_ref {
        raw@.skip(1)
    } else {
        raw@
    });
    let len = body.len();
    match find_from(body.as_slice(), LESS, 0) {
        Some(i) => {
            let rest = copy_range(body.as_slice(), i + 1, len);
            assert(rest@ =~= body@.skip(i + 1));
            if rest.len() > 0 && rest[rest.len() - 1] == GREATER {
                let inner = copy_range(rest.as_slice(), 0, rest.len() - 1);
                assert(inner@ =~= rest@.drop_last());
                match parse_type(inner.as_slice()) {
                    Err(e) => Err(e),
                    Ok(arg) => {
                        let name_part = copy_range(body.as_slice(), 0, i);
                        assert(name_part@ =~= body@.take(i as int));
                        finish_type(name_part.as_slice(), generic_ref, Some(Box::new(arg)))
                    },
                }
            } else {
                Err(ParamParseError::InvalidGeneric)
            }
        },
        None => finish_type(body.as_slice(), generic_ref, None),
    }
}

/// Reads a decimal 32-bit number with an optional `+` before it.
pub fn parse_u32(s: &[u8]) -> (r: Option<u32>)
    ensures
        r == spec_parse_u32(s@),
{
    let total = s.len();
    let digits = if total > 0 && s[0] == PLUS {
        copy_range(s, 1, total)
    } else {
        copy_range(s, 0, total)
    };
    assert(digits@ =~= if s@.len() > 0 && s@[0] == PLUS {
        s@.skip(1)
    } else {
        s@
    });
    if digits.len() > 0 && is_all_digits(digits.as_slice()) {
        parse_decimal_u32(digits.as_slice())
    } else {
        None
    }
}

/// `r` is the outcome `expected` of reading a parameter type.
pub open spec fn param_type_is(r: Result<ParameterType, ParamParseError>, expected: Result<
    ParameterTypeView,
    ParamParseErrorView,
>) -> bool {
    match expected {
        Ok(v) => r is Ok && r->Ok_0@ == v,
        Err(e) => r is Err && r->Err_0@ == e,
    }
}

/// Reads the type of a parameter.
pub fn parse_param_type(s: &[u8]) -> (r: Result<ParameterType, ParamParseError>)
    ensures
        param_type_is(r, spec_parse_param_type(s@)),
{
    let total = s.len();
    if total == 1 && s[0] == HASH {
        assert(s@ =~= seq![HASH]);
        return Ok(ParameterType::Flags);
    }
    assert(s@ != seq![HASH]) by {
        if s@ == seq![HASH] {
            assert(s@.len() == 1 && s@[0] == HASH);
        }
    }
    match find_from(s, QUESTION, 0) {
        Some(q) => {
            let flag_part = copy_range(s, 0, q);
            assert(flag_part@ =~= s@.take(q as int));
            match find_from(flag_part.as_slice(), DOT, 0) {
                None => Err(ParamParseError::InvalidFlag),
                Some(d) => {
                    let name = copy_range(flag_part.as_slice(), 0, d);
                    assert(name@ =~= flag_part@.take(d as int));
                    let index = copy_range(flag_part.as_slice(), d + 1, flag_part.len());
                    assert(index@ =~= flag_part@.skip(d + 1));
                    if name.len() == 0 || index.len() == 0 {
                        return Err(ParamParseError::InvalidFlag);
                    }
                    let n = match parse_u32(index.as_slice()) {
                        Some(n) => n,
                        None => {
                            return Err(ParamParseError::InvalidFlag);
                        },
                    };
                    let ty_part = copy_range(s, q + 1, total);
                    assert(ty_part@ =~= s@.skip(q + 1));
                    match parse_type(ty_part.as_slice()) {
                        Err(e) => Err(e),
                        Ok(ty) => Ok(
                            ParameterType::Normal {
                                ty,
                                flag: Some(
                                    Flag { name: lenient_text(name.as_slice()), index: n },
                                ),
                            },
                        ),
                    }
                },
            }
        },
        None => match parse_type(s) {
            Err(e) => Err(e),
            Ok(ty) => Ok(ParameterType::Normal { ty, flag: None }),
        },
    }
}

/// `r` is the outcome `expected` of reading a parameter.
pub open spec fn param_is(r: Result<Parameter, ParamParseError>, expected: Result<
    ParameterView,
    ParamParseErrorView,
>) -> bool {
    match expected {
        Ok(v) => r is Ok && r->Ok_0@ == v,
        Err(e) => r is Err && r->Err_0@ == e,
    }
}

/// Reads a parameter token such as `flags:#`, `id:long` or
/// `photo:flags.0?InputPhoto`.
pub fn parse_param(token: &[u8]) -> (r: Result<Parameter, ParamParseError>)
    ensures
        param_is(r, spec_parse_param(token@)),
{
    let total = token.len();
    if total > 0 && token[0] == BRACE {
        let inner = copy_range(token, 1, total);
        assert(inner@ =~= token@.skip(1));
        let suffix: [u8; 6] = [COLON, 0x54, 0x79, 0x70, 0x65, 0x7d];
        assert(suffix@ =~= type_def_suffix());
        if crate::text::ends_with(inner.as_slice(), suffix.as_slice()) {
            let name = copy_range(inner.as_slice(), 0, inner.len() - 6);
            assert(name@ =~= inner@.take(inner@.len() - 6));
            return Err(ParamParseError::TypeDef { name: lenient_text(name.as_slice()) });
        }
        return Err(ParamParseError::MissingDef);
    }
    match find_from(token, COLON, 0) {
        None => Err(ParamParseError::NotImplemented),
        Some(c) => {
            let name = copy_range(token, 0, c);
            assert(name@ =~= token@.take(c as int));
            let ty = copy_range(token, c + 1, total);
            assert(ty@ =~= token@.skip(c + 1));
            if name.len() == 0 || ty.len() == 0 {
                return Err(ParamParseError::Empty);
            }
            match parse_param_type(ty.as_slice()) {
                Err(e) => Err(e),
                Ok(t) => Ok(Parameter { name: lenient_text(name.as_slice()), ty: t }),
            }
        },
    }
}

/// Reads a hexadecimal 32-bit number with an optional `+` before it.
pub fn parse_hex(s: &[u8]) -> (r: Result<u32, IdError>)
    ensures
        r == spec_parse_hex(s@),
{
    if s.len() == 0 {
        return Err(IdError::Empty);
    }
    let start: usize = if s[0] == PLUS {
        1
    } else {
        0
    };
    if start >= s.len() {
        return Err(IdError::InvalidDigit);
    }
    let mut acc: u32 = 0;
    let mut i: usize = start;
    while i < s.len()
        invariant
            start <= i <= s@.len(),
            spec_parse_hex(s@) == spec_hex_from(s@, i as int, acc),
        decreases s@.len() - i,
    {
        let b = s[i];
        let d: u32 = if 0x30 <= b && b <= 0x39 {
            (b - 0x30) as u32
        } else if 0x61 <= b && b <= 0x66 {
            (b - 0x61 + 10) as u32
        } else if 0x41 <= b && b <= 0x46 {
            (b - 0x41 + 10) as u32
        } else {
            return Err(IdError::InvalidDigit);
        };
        if acc > (u32::MAX - d) / 16 {
            return Err(IdError::Overflow);
        }
        acc = acc * 16 + d;
        i += 1;
    }
    Ok(acc)
}

/// A copy of `s` without the semicolons at its end.
pub fn without_semicolons(s: &[u8]) -> (out: Vec<u8>)
    ensures
        out@ == strip_semicolons(s@),
{
    let mut end: usize = s.len();
    assert(s@.take(end as int) =~= s@);
    while end > 0 && s[end - 1] == SEMICOLON
        invariant
            end <= s@.len(),
            strip_semicolons(s@) == strip_semicolons(s@.take(end as int)),
        decreases end,
    {
        assert(s@.take(end as int).drop_last() =~= s@.take(end as int - 1));
        end -= 1;
    }
    copy_range(s, 0, end)
}

/// The parts with one space between each two.
pub fn join_with_spaces(parts: &Vec<Vec<u8>>) -> (out: Vec<u8>)
    ensures
        out@ == joined(views(parts@)),
{
    let mut out: Vec<u8> = Vec::new();
    let mut i: usize = 0;
    assert(views(parts@).take(0) =~= Seq::<Seq<u8>>::empty());
    while i < parts.len()
        invariant
            i <= parts.len(),
            out@ == joined(views(parts@).take(i as int)),
        decreases parts.len() - i,
    {
        proof {
            let all = views(parts@);
            let cur = all.take(i as int + 1);
            assert(cur.drop_last() =~= all.take(i as int));
            assert(cur.last() == parts@[i as int]@);
            if i == 0 {
                assert(cur[0] == parts@[0]@);
                assert(joined(all.take(0)) =~= Seq::<u8>::empty());
            }
        }
        if i > 0 {
            out.push(0x20u8);
        }
        push_all(&mut out, parts[i].as_slice());
        proof {
            if i == 0 {
                assert(out@ =~= parts@[0]@);
            }
        }
        i += 1;
    }
    assert(views(parts@).take(parts.len() as int) =~= views(parts@));
    out
}

/// The constructor ID of a definition without `#id`.
pub fn tl_id(definition: &[u8]) -> (id: u32)
    ensures
        id == spec_tl_id(definition@),
{
    let toks = split_whitespace(definition);
    let canon = join_with_spaces(&toks);
    crc32(canon.as_slice())
}

/// Whether `name` is among `names`.
fn contains_text(names: &Vec<String>, name: &String) -> (r: bool)
    ensures
        r == texts(names@).contains(name@),
{
    let mut i: usize = 0;
    while i < names.len()
        invariant
            i <= names.len(),
            forall|k: int| 0 <= k < i ==> texts(names@)[k] != name@,
        decreases names.len() - i,
    {
        if names[i] == *name {
            assert(texts(names@)[i as int] == name@);
            return true;
        }
        i += 1;
    }
    false
}

/// `r` is the outcome `expected` of reading a definition.
pub open spec fn definition_is(r: Result<Definition, ParseError>, expected: Result<
    DefinitionView,
    ParseErrorView,
>) -> bool {
    match expected {
        Ok(v) => r is Ok && r->Ok_0@ == v,
        Err(e) => r is Err && r->Err_0@ == e,
    }
}

/// Reads the parameter tokens.
fn parse_params(toks: &Vec<Vec<u8>>) -> (r: Result<(Vec<Parameter>, Vec<String>), ParseError>)
    ensures
        match spec_params(views(toks@), Seq::empty(), Seq::empty(), Seq::empty()) {
            Ok(found) => r is Ok && params_view(r->Ok_0.0@) == found.params && texts(r->Ok_0.1@)
                == found.type_defs,
            Err(e) => r is Err && r->Err_0@ == e,
        },
{
    let mut type_defs: Vec<String> = Vec::new();
    let mut flag_defs: Vec<String> = Vec::new();
    let mut params: Vec<Parameter> = Vec::new();
    let mut i: usize = 0;
    let ghost all = views(toks@);
    assert(all.skip(0) =~= all);
    assert(texts(type_defs@) =~= Seq::<Seq<char>>::empty());
    assert(texts(flag_defs@) =~= Seq::<Seq<char>>::empty());
    assert(params_view(params@) =~= Seq::<ParameterView>::empty());
    while i < toks.len()
        invariant
            i <= toks.len(),
            all == views(toks@),
            spec_params(all, Seq::empty(), Seq::empty(), Seq::empty()) == spec_params(
                all.skip(i as int),
                texts(type_defs@),
                texts(flag_defs@),
                params_view(params@),
            ),
        decreases toks.len() - i,
    {
        let ghost rest = all.skip(i as int);
        let ghost tds = texts(type_defs@);
        let ghost fds = texts(flag_defs@);
        let ghost acc = params_view(params@);
        assert(rest[0] == toks@[i as int]@);
        assert(rest.skip(1) =~= all.skip(i as int + 1));
        match parse_param(toks[i].as_slice()) {
            Err(ParamParseError::TypeDef { name }) => {
                type_defs.push(name);
                assert(texts(type_defs@) =~= tds.push(name@));
            },
            Err(ParamParseError::NotImplemented) => {
                return Err(ParseError::NotImplemented);
            },
            Err(e) => {
                return Err(ParseError::InvalidParam(e));
            },
            Ok(p) => {
                match &p.ty {
                    ParameterType::Flags => {
                        flag_defs.push(crate::text::str_copy(p.name.as_str()));
                        assert(texts(flag_defs@) =~= fds.push(p.name@));
                    },
                    ParameterType::Normal { ty, flag } => {
                        if ty.generic_ref && !contains_text(&type_defs, &ty.name) {
                            return Err(ParseError::InvalidParam(ParamParseError::MissingDef));
                        }
                        match flag {
                            Some(f) => {
                                if !contains_text(&flag_defs, &f.name) {
                                    return Err(
                                        ParseError::InvalidParam(ParamParseError::MissingDef),
                                    );
                                }
                            },
                            None => {},
                        }
                    },
                }
                let ghost pv = p@;
                params.push(p);
                assert(params_view(params@) =~= acc.push(pv));
            },
        }
        i += 1;
    }
    assert(all.skip(toks.len() as int) =~= Seq::<Seq<u8>>::empty());
    Ok((params, type_defs))
}

/// Reads the left-hand side of a definition.
fn parse_lhs(raw: &[u8], lhs: &[u8], ty: Type) -> (r: Result<Definition, ParseError>)
    ensures
        definition_is(r, spec_parse_lhs(raw@, lhs@, ty@)),
{
    let total = lhs.len();
    let sp = skip_token(lhs, 0);
    let (head, rest) = if sp < total {
        let h = copy_range(lhs, 0, sp);
        assert(h@ =~= lhs@.take(sp as int));
        let width = crate::text::space_len_at(lhs, sp);
        let r = copy_range(lhs, sp + width, total);
        assert(r@ =~= lhs@.skip(sp + width));
        (h, r)
    } else {
        let h = copy_range(lhs, 0, total);
        assert(h@ =~= lhs@);
        (h, Vec::new())
    };
    let hash = find_from(head.as_slice(), HASH, 0);
    let full_name = match hash {
        Some(h) => {
            let f = copy_range(head.as_slice(), 0, h);
            assert(f@ =~= head@.take(h as int));
            f
        },
        None => {
            let f = copy_range(head.as_slice(), 0, head.len());
            assert(f@ =~= head@);
            f
        },
    };
    let (ns, name) = split_name(full_name.as_slice());
    if any_empty(&ns) || name.len() == 0 {
        return Err(ParseError::MissingName);
    }
    let id = match hash {
        Some(h) => {
            let hex = copy_range(head.as_slice(), h + 1, head.len());
            assert(hex@ =~= head@.skip(h + 1));
            match parse_hex(hex.as_slice()) {
                Ok(v) => v,
                Err(e) => {
                    return Err(ParseError::InvalidId(e));
                },
            }
        },
        None => tl_id(raw),
    };
    let toks = split_whitespace(rest.as_slice());
    let (params, type_defs) = match parse_params(&toks) {
        Ok(found) => found,
        Err(e) => {
            return Err(e);
        },
    };
    let mut ty = ty;
    let ghost before = ty@;
    if contains_text(&type_defs, &ty.name) {
        ty.generic_ref = true;
        assert(ty@ == (TypeView { generic_ref: true, ..before }));
    }
    Ok(
        Definition {
            namespace: to_strings(&ns),
            name: lenient_text(name.as_slice()),
            id,
            params,
            ty,
            category: Category::Types,
        },
    )
}

/// Reads a definition such as `user#12345 id:long first_name:string = User`.
pub fn parse_definition(text: &[u8]) -> (r: Result<Definition, ParseError>)
    ensures
        definition_is(r, spec_parse_definition(text@)),
{
    let raw = trimmed(text);
    if raw.len() == 0 {
        return Err(ParseError::Empty);
    }
    let total = raw.len();
    match find_from(raw.as_slice(), EQUALS, 0) {
        None => Err(ParseError::MissingType),
        Some(e) => {
            let left = copy_range(raw.as_slice(), 0, e);
            assert(left@ =~= raw@.take(e as int));
            let lhs = trimmed(left.as_slice());
            let right = copy_range(raw.as_slice(), e + 1, total);
            assert(right@ =~= raw@.skip(e + 1));
            let t1 = trimmed(right.as_slice());
            let t2 = without_semicolons(t1.as_slice());
            let ty_str = trimmed(t2.as_slice());
            if ty_str.len() == 0 {
                return Err(ParseError::MissingType);
            }
            match parse_type(ty_str.as_slice()) {
                Err(_) => Err(ParseError::MissingType),
                Ok(ty) => parse_lhs(raw.as_slice(), lhs.as_slice(), ty),
            }
        },
    }
}

impl Definition {
    /// Reads a definition.
    pub fn from_str(raw: &str) -> (r: Result<Definition, ParseError>)
        ensures
            definition_is(
                r,
                spec_parse_definition(vstd::string::StringSliceAdditionalSpecFns::spec_bytes(raw)),
            ),
    {
        parse_definition(raw.as_bytes())
    }
}

} // verus!
