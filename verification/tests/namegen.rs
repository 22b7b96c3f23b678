use layer::codegen::namegen::{
    builtin_type, def_qual_name, def_type_name, def_variant_name, param_attr_name,
    param_qual_name, to_pascal, type_item_path, type_qual_name, union_name,
};
use layer::parser::tl::{Definition, Type};

#[test]
fn pascal_basic() {
    assert_eq!(to_pascal("user_empty"), "UserEmpty");
    assert_eq!(to_pascal("inputPeerSelf"), "InputPeerSelf");
    assert_eq!(to_pascal("some_OK_name"), "SomeOkName");
}

#[test]
fn pascal_namespaced() {
    assert_eq!(to_pascal("upload.fileCdnRedirect"), "FileCdnRedirect");
}

#[test]
fn pascal_edge_cases() {
    assert_eq!(to_pascal(""), "");
    assert_eq!(to_pascal("_"), "");
    assert_eq!(to_pascal("a"), "A");
    assert_eq!(to_pascal("resPQ"), "ResPq");
    assert_eq!(to_pascal("p_q_inner_data"), "PQInnerData");
    assert_eq!(to_pascal("server_DH_params_ok"), "ServerDhParamsOk");
    assert_eq!(to_pascal("dh_gen_ok"), "DhGenOk");
    assert_eq!(to_pascal("żółw_x"), "żółwX");
}

#[test]
fn builtin_types() {
    assert_eq!(builtin_type("Bool"), Some("bool"));
    assert_eq!(builtin_type("true"), Some("bool"));
    assert_eq!(builtin_type("int"), Some("i32"));
    assert_eq!(builtin_type("long"), Some("i64"));
    assert_eq!(builtin_type("double"), Some("f64"));
    assert_eq!(builtin_type("string"), Some("String"));
    assert_eq!(builtin_type("bytes"), Some("Vec<u8>"));
    assert_eq!(builtin_type("int128"), Some("[u8; 16]"));
    assert_eq!(builtin_type("int256"), Some("[u8; 32]"));
    assert_eq!(builtin_type("Vector"), Some("Vec"));
    assert_eq!(builtin_type("vector"), Some("crate::RawVec"));
    assert_eq!(builtin_type("User"), None);
}

fn def(src: &str) -> Definition {
    Definition::from_str(src).unwrap()
}

#[test]
fn names_of_definitions() {
    let d = def("messages.sendMessage#1 = Updates");
    assert_eq!(def_type_name(&d), "SendMessage");
    assert_eq!(def_qual_name(&d), "crate::types::messages::SendMessage");
    assert_eq!(union_name(&d.ty), "Updates");
}

#[test]
fn names_of_variants() {
    assert_eq!(def_variant_name(&def("inputPeerUser#1 = InputPeer")), "User");
    assert_eq!(def_variant_name(&def("userEmpty#1 = User")), "Empty");
    assert_eq!(def_variant_name(&def("user#1 = User")), "User");
    assert_eq!(def_variant_name(&def("inputPeerSelf#1 = InputPeer")), "PeerSelf");
    assert_eq!(def_variant_name(&def("boolTrue#1 = Bool")), "True");
    assert_eq!(def_variant_name(&def("resPQ#1 = ResPQ")), "ResPq");
    assert_eq!(def_variant_name(&def("dh_gen_ok#1 = Set_client_DH_params_answer")), "DhGenOk");
    // what is left starts with a digit: the whole name is the variant
    assert_eq!(def_variant_name(&def("storage3#1 = Storage")), "Storage3");
    assert_eq!(def_variant_name(&def("foo2bar#1 = Foo")), "Foo2bar");
}

#[test]
fn paths_of_types() {
    let t = |s: &str| Type::from_str(s).unwrap();
    assert_eq!(type_qual_name(&t("InputPeer")), "crate::enums::InputPeer");
    assert_eq!(type_qual_name(&t("inputPeerUser")), "crate::types::InputPeerUser");
    assert_eq!(type_qual_name(&t("upload.File")), "crate::enums::upload::File");
    assert_eq!(type_qual_name(&t("long")), "i64");
    assert_eq!(type_qual_name(&t("bytes")), "Vec<u8>");
    assert_eq!(type_qual_name(&t("int128")), "[u8; 16]");
    assert_eq!(type_qual_name(&t("Vector<long>")), "Vec<i64>");
    assert_eq!(type_qual_name(&t("vector<User>")), "crate::RawVec<crate::enums::User>");
    assert_eq!(type_qual_name(&t("!X")), "X");
    assert_eq!(type_item_path(&t("Vector<long>")), "Vec::<i64>");
    assert_eq!(type_item_path(&t("bytes")), "Vec::<u8>");
    assert_eq!(type_item_path(&t("int256")), "<[u8; 32]>");
    assert_eq!(type_item_path(&t("long")), "i64");
    assert_eq!(type_item_path(&t("InputPeer")), "crate::enums::InputPeer");
    assert_eq!(
        type_item_path(&t("Vector<Vector<long>>")),
        "Vec::<Vec<i64>>"
    );
}

#[test]
fn names_and_types_of_parameters() {
    let d = def("x#1 flags:# Final:int self:flags.0?true type:flags.1?string loop:Vector<int> id:long = X");
    let names: Vec<String> = d.params.iter().map(param_attr_name).collect();
    assert_eq!(names, vec!["flags", "final", "is_self", "r#type", "r#loop", "id"]);
    let d2 = def("x#1 final:int static:int = X");
    let names: Vec<String> = d2.params.iter().map(param_attr_name).collect();
    assert_eq!(names, vec!["r#final", "r#static"]);
    let types: Vec<String> = d.params.iter().map(param_qual_name).collect();
    assert_eq!(types, vec!["u32", "i32", "bool", "Option<String>", "Vec<i32>", "i64"]);
}
