use layer::parser::errors::{IdError, ParamParseError, ParseError};
use layer::parser::grammar::tl_id;
use layer::parser::parse_tl_file;
use layer::parser::tl::{Category, Definition, Flag, ParameterType, Type};

fn collect(src: &str) -> Result<Vec<Definition>, ParseError> {
    parse_tl_file(src).into_iter().collect()
}

#[test]
fn parses_simple_type() {
    let src = "boolFalse#bc799737 = Bool;";
    let defs: Vec<_> = parse_tl_file(src).into_iter().collect::<Result<_, _>>().unwrap();
    assert_eq!(defs.len(), 1);
    assert_eq!(defs[0].name, "boolFalse");
    assert_eq!(defs[0].id, 0xbc799737);
    assert_eq!(defs[0].ty.name, "Bool");
}

#[test]
fn parses_function_category() {
    let src = "
---functions---
help.getConfig#c4f9186b = Config;
";
    let defs: Vec<_> = parse_tl_file(src).into_iter().collect::<Result<_, _>>().unwrap();
    assert_eq!(defs.len(), 1);
    assert_eq!(defs[0].category, Category::Functions);
    assert_eq!(defs[0].name, "getConfig");
    assert_eq!(defs[0].namespace, vec!["help"]);
}

#[test]
fn parses_flagged_parameter() {
    let src = "user#3ff6ecb0 flags:# id:long username:flags.0?string = User;";
    let defs: Vec<_> = parse_tl_file(src).into_iter().collect::<Result<_, _>>().unwrap();
    assert_eq!(defs.len(), 1);
    assert_eq!(defs[0].params.len(), 3); // flags, id, username
}

#[test]
fn flagged_parameter_in_detail() {
    let defs = collect("user#3ff6ecb0 flags:# id:long username:flags.0?string = User;").unwrap();
    let p = &defs[0].params;
    assert_eq!(p[0].name, "flags");
    assert_eq!(p[0].ty, ParameterType::Flags);
    assert_eq!(p[1].name, "id");
    match &p[1].ty {
        ParameterType::Normal { ty, flag } => {
            assert_eq!(ty.name, "long");
            assert!(ty.bare);
            assert!(flag.is_none());
        }
        _ => panic!("expected a typed parameter"),
    }
    match &p[2].ty {
        ParameterType::Normal { ty, flag } => {
            assert_eq!(ty.name, "string");
            assert_eq!(flag, &Some(Flag { name: "flags".to_owned(), index: 0 }));
        }
        _ => panic!("expected a typed parameter"),
    }
    assert!(!defs[0].ty.bare);
    assert_eq!(defs[0].category, Category::Types);
}

#[test]
fn skips_blank_lines_and_comments() {
    let src = "
// this is a comment
boolTrue#997275b5 = Bool;
// another comment

boolFalse#bc799737 = Bool;
";
    let defs: Vec<_> = parse_tl_file(src).into_iter().collect::<Result<_, _>>().unwrap();
    assert_eq!(defs.len(), 2);
}

#[test]
fn crc32_derived_id() {
    // boolFalse#bc799737 — omit #id, parser must derive same value via CRC32
    let src = "boolFalse = Bool;";
    let defs: Vec<_> = parse_tl_file(src).into_iter().collect::<Result<_, _>>().unwrap();
    assert_eq!(defs[0].id, 0xbc799737);
}

#[test]
fn known_id() {
    // boolFalse#bc799737 = Bool — id must match when absent
    let def = "boolFalse = Bool";
    assert_eq!(tl_id(def.as_bytes()), 0xbc799737);
}

#[test]
fn derived_id_ignores_extra_whitespace() {
    assert_eq!(tl_id(b"  boolFalse   = Bool"), 0xbc799737);
    let a = tl_id(b"inputPeerUser user_id:long access_hash:long = InputPeer");
    let b = tl_id(b"inputPeerUser   user_id:long \t access_hash:long   = InputPeer");
    assert_eq!(a, b);
    let defs = collect("boolTrue = Bool;\nvector {t:Type} # [ t ] = Vector t;").unwrap_err();
    assert_eq!(defs, ParseError::NotImplemented);
}

#[test]
fn derived_id_of_known_constructors() {
    assert_eq!(tl_id(b"boolTrue = Bool"), 0x997275b5);
    assert_eq!(tl_id(b"inputPeerEmpty = InputPeer"), 0x7f3b18ea);
    assert_eq!(tl_id(b"inputPeerSelf = InputPeer"), 0x7da07ec9);
    assert_eq!(tl_id(b"inputPeerChat chat_id:long = InputPeer"), 0x35a95cb9);
}

#[test]
fn definition_spread_over_lines() {
    let src = "user#3ff6ecb0\n   flags:#\n   id:long\n = User;\nboolTrue#997275b5 = Bool;";
    let defs = collect(src).unwrap();
    assert_eq!(defs.len(), 2);
    assert_eq!(defs[0].name, "user");
    assert_eq!(defs[0].params.len(), 2);
    assert_eq!(defs[1].name, "boolTrue");
}

#[test]
fn markers_switch_back_and_forth() {
    let src = "a#1 = A;\n---functions---\nb#2 = B;\n---types---\nc#3 = C;\n";
    let defs = collect(src).unwrap();
    let cats: Vec<_> = defs.iter().map(|d| d.category).collect();
    assert_eq!(cats, vec![Category::Types, Category::Functions, Category::Types]);
}

#[test]
fn unfinished_definition_is_dropped() {
    assert_eq!(parse_tl_file("boolTrue#997275b5 = Bool").len(), 0);
    assert_eq!(parse_tl_file(";;;").len(), 0);
    assert_eq!(parse_tl_file("").len(), 0);
}

#[test]
fn generic_types_and_references() {
    let defs = collect("invokeWithLayer#da9b0d0d {X:Type} layer:int query:!X = X;").unwrap();
    let d = &defs[0];
    assert_eq!(d.params.len(), 2);
    assert!(d.ty.generic_ref);
    match &d.params[1].ty {
        ParameterType::Normal { ty, .. } => {
            assert!(ty.generic_ref);
            assert_eq!(ty.name, "X");
        }
        _ => panic!("expected a typed parameter"),
    }
    let t = Type::from_str("ns.Vector<!X>").unwrap();
    assert_eq!(t.namespace, vec!["ns"]);
    assert_eq!(t.name, "Vector");
    assert!(!t.bare);
    let arg = t.generic_arg.unwrap();
    assert!(arg.generic_ref);
    assert_eq!(arg.name, "X");
    let t = Type::from_str("Vector<Vector<long>>").unwrap();
    assert_eq!(t.generic_arg.unwrap().generic_arg.unwrap().name, "long");
}

#[test]
fn each_error_of_a_definition() {
    let one = |src: &str| parse_tl_file(src).into_iter().next().unwrap().unwrap_err();
    assert_eq!(one("boolTrue;"), ParseError::MissingType);
    assert_eq!(one("boolTrue = ;"), ParseError::MissingType);
    assert_eq!(one("boolTrue = Vector<long;"), ParseError::MissingType);
    assert_eq!(one("#12 = Bool;"), ParseError::MissingName);
    assert_eq!(one("a..b#12 = Bool;"), ParseError::MissingName);
    assert_eq!(one("a# = Bool;"), ParseError::InvalidId(IdError::Empty));
    assert_eq!(one("a#xyz = Bool;"), ParseError::InvalidId(IdError::InvalidDigit));
    assert_eq!(one("a#+ = Bool;"), ParseError::InvalidId(IdError::InvalidDigit));
    assert_eq!(one("a#123456789 = Bool;"), ParseError::InvalidId(IdError::Overflow));
    assert_eq!(one("a#1 b = Bool;"), ParseError::NotImplemented);
    assert_eq!(one("a#1 b: = Bool;"), ParseError::InvalidParam(ParamParseError::Empty));
    assert_eq!(one("a#1 :int = Bool;"), ParseError::InvalidParam(ParamParseError::Empty));
    assert_eq!(one("a#1 {X} = Bool;"), ParseError::InvalidParam(ParamParseError::MissingDef));
    assert_eq!(one("a#1 q:!X = Bool;"), ParseError::InvalidParam(ParamParseError::MissingDef));
    assert_eq!(
        one("a#1 q:flags.0?int = Bool;"),
        ParseError::InvalidParam(ParamParseError::MissingDef)
    );
    assert_eq!(
        one("a#1 flags:# q:flags?int = Bool;"),
        ParseError::InvalidParam(ParamParseError::InvalidFlag)
    );
    assert_eq!(
        one("a#1 flags:# q:flags.x?int = Bool;"),
        ParseError::InvalidParam(ParamParseError::InvalidFlag)
    );
    assert_eq!(
        one("a#1 q:Vector<int = Bool;"),
        ParseError::InvalidParam(ParamParseError::InvalidGeneric)
    );
    assert_eq!(Definition::from_str("   "), Err(ParseError::Empty));
    assert_eq!(Definition::from_str("a#FF = Bool").unwrap().id, 255);
    assert_eq!(Definition::from_str("a#+ff = Bool;;").unwrap().id, 255);
}

#[test]
fn full_name_joins_with_dots() {
    let defs = collect("help.getConfig#c4f9186b = Config;\nboolTrue#997275b5 = Bool;").unwrap();
    assert_eq!(defs[0].full_name(), "help.getConfig");
    assert_eq!(defs[1].full_name(), "boolTrue");
}

#[test]
fn white_space_of_any_script_separates_tokens() {
    let plain: Vec<_> = layer::parser::parse_tl_file("user#1 id:long name:string = User;")
        .into_iter()
        .map(|d| d.unwrap())
        .collect();
    let odd: Vec<_> = layer::parser::parse_tl_file(
        "\u{a0}user#1\u{2003}id:long\u{3000}\u{85}name:string\u{1680}=\u{202f}User;\u{2028}",
    )
    .into_iter()
    .map(|d| d.unwrap())
    .collect();
    assert_eq!(odd.len(), 1);
    assert_eq!(odd[0].name, plain[0].name);
    assert_eq!(odd[0].id, plain[0].id);
    assert_eq!(odd[0].params, plain[0].params);
    assert_eq!(odd[0].ty, plain[0].ty);
}

#[test]
fn white_space_helpers_know_unicode() {
    assert_eq!(layer::text::trimmed("\u{a0} a\u{2009}b \u{3000}".as_bytes()), "a\u{2009}b".as_bytes());
    assert_eq!(layer::text::trimmed("\u{2028}\u{2029}".as_bytes()), b"");
    assert_eq!(
        layer::text::split_whitespace("a\u{a0}b\u{205f}\u{200a}c d".as_bytes()),
        vec![b"a".to_vec(), b"b".to_vec(), b"c".to_vec(), b"d".to_vec()]
    );
    assert_eq!(layer::text::trimmed("\u{200b}x\u{200b}".as_bytes()), "\u{200b}x\u{200b}".as_bytes());
    let s = "x\u{1680}y".as_bytes();
    assert_eq!(layer::text::space_len_at(s, 1), 3);
    assert_eq!(layer::text::space_len_at(s, 0), 0);
    assert_eq!(layer::text::space_len_ending(s, 4), 3);
    assert_eq!(layer::text::space_len_ending(s, 5), 0);
}
