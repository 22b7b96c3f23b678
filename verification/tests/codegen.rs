use layer::codegen::format::generic_list;
use layer::codegen::writer::{generate, Config, Outputs};
use layer::parser::parse_tl_file;
use layer::parser::tl::Definition;

const SCHEMA: &str = "\
boolFalse#bc799737 = Bool;
user#d23c81a3 flags:# id:long bot:flags.0?true name:flags.1?string = User;
userEmpty#1 = User;
---functions---
users.getUser#12345678 id:long = User;
";

fn schema(text: &str) -> Vec<Definition> {
    parse_tl_file(text).into_iter().map(|d| d.unwrap()).collect()
}

fn text(bytes: &[u8]) -> String {
    String::from_utf8(bytes.to_vec()).unwrap()
}

fn run(source: &str, config: &Config) -> Outputs {
    let defs = schema(source);
    let mut outputs = Outputs::new();
    generate(&defs, config, &mut outputs);
    outputs.flush();
    outputs
}

#[test]
fn default_config_asks_for_debug_and_conversions() {
    let c = Config::default();
    assert!(!c.gen_name_for_id);
    assert!(!c.deserializable_functions);
    assert!(c.impl_debug);
    assert!(c.impl_from_type);
    assert!(c.impl_from_enum);
    assert!(!c.impl_serde);
}

#[test]
fn common_module_without_the_table() {
    let out = run(SCHEMA, &Config::default());
    assert_eq!(
        text(&out.common),
        "\
// @generated — do not edit by hand
// Re-run the build script to regenerate.

/// The API layer this code was generated from.
pub const LAYER: i32 = 0; // update via build.rs

"
    );
}

#[test]
fn common_module_with_the_table() {
    let mut config = Config::default();
    config.gen_name_for_id = true;
    let out = run(SCHEMA, &config);
    assert_eq!(
        text(&out.common),
        "\
// @generated — do not edit by hand
// Re-run the build script to regenerate.

/// The API layer this code was generated from.
pub const LAYER: i32 = 0; // update via build.rs

/// Returns the TL name for a known constructor ID.
pub fn name_for_id(id: u32) -> Option<&'static str> {
    match id {
        0xbc799737 => Some(\"boolFalse\"),
        0xd23c81a3 => Some(\"user\"),
        0x00000001 => Some(\"userEmpty\"),
        0x12345678 => Some(\"users.getUser\"),
        _ => None,
    }
}
"
    );
}

#[test]
fn types_module() {
    let out = run(SCHEMA, &Config::default());
    assert_eq!(
        text(&out.types),
        "\
// @generated — do not edit by hand
pub mod types {

    /// [`boolFalse`](https://core.telegram.org/constructor/boolFalse)
    ///
    /// Generated from:
    /// ```tl
    /// boolFalse#bc799737 = Bool
    /// ```
    #[derive(Debug)]
    #[derive(Clone, PartialEq)]
    pub struct BoolFalse {
    }
    impl crate::Identifiable for BoolFalse {
        const CONSTRUCTOR_ID: u32 = 0xbc799737;
    }
    impl crate::Serializable for BoolFalse {
        fn serialize(&self, _buf: &mut impl Extend<u8>) {
        }
    }
    impl crate::Deserializable for BoolFalse {
        fn deserialize(_buf: crate::deserialize::Buffer) -> crate::deserialize::Result<Self> {
            Ok(Self {
            })
        }
    }

    /// [`user`](https://core.telegram.org/constructor/user)
    ///
    /// Generated from:
    /// ```tl
    /// user#d23c81a3 flags:# id:long bot:flags.0?true name:flags.1?string = User
    /// ```
    #[derive(Debug)]
    #[derive(Clone, PartialEq)]
    pub struct User {
        pub id: i64,
        pub bot: bool,
        pub name: Option<String>,
    }
    impl crate::Identifiable for User {
        const CONSTRUCTOR_ID: u32 = 0xd23c81a3;
    }
    impl crate::Serializable for User {
        fn serialize(&self, buf: &mut impl Extend<u8>) {
            (if self.bot { 1 << 0 } else { 0 } | if self.name.is_some() { 1 << 1 } else { 0 }).serialize(buf);
            self.id.serialize(buf);
            if let Some(ref v) = self.name { v.serialize(buf); }
        }
    }
    impl crate::Deserializable for User {
        fn deserialize(buf: crate::deserialize::Buffer) -> crate::deserialize::Result<Self> {
            let _flags = u32::deserialize(buf)?;
            let id = i64::deserialize(buf)?;
            let bot = (_flags & (1 << 0)) != 0;
            let name = if (_flags & (1 << 1)) != 0 { Some(String::deserialize(buf)?) } else { None };
            Ok(Self {
                id,
                bot,
                name,
            })
        }
    }

    /// [`userEmpty`](https://core.telegram.org/constructor/userEmpty)
    ///
    /// Generated from:
    /// ```tl
    /// userEmpty#1 = User
    /// ```
    #[derive(Debug)]
    #[derive(Clone, PartialEq)]
    pub struct UserEmpty {
    }
    impl crate::Identifiable for UserEmpty {
        const CONSTRUCTOR_ID: u32 = 0x00000001;
    }
    impl crate::Serializable for UserEmpty {
        fn serialize(&self, _buf: &mut impl Extend<u8>) {
        }
    }
    impl crate::Deserializable for UserEmpty {
        fn deserialize(_buf: crate::deserialize::Buffer) -> crate::deserialize::Result<Self> {
            Ok(Self {
            })
        }
    }
}
"
    );
}

#[test]
fn functions_module() {
    let out = run(SCHEMA, &Config::default());
    assert_eq!(
        text(&out.functions),
        "\
// @generated — do not edit by hand
pub mod functions {
    pub mod users {

        /// [`users.getUser`](https://core.telegram.org/method/users.getUser)
        ///
        /// Generated from:
        /// ```tl
        /// users.getUser#12345678 id:long = User
        /// ```
        #[derive(Debug)]
        #[derive(Clone, PartialEq)]
        pub struct GetUser {
            pub id: i64,
        }
        impl crate::Identifiable for GetUser {
            const CONSTRUCTOR_ID: u32 = 0x12345678;
        }
        impl crate::Serializable for GetUser {
            fn serialize(&self, buf: &mut impl Extend<u8>) {
                use crate::Identifiable;
                Self::CONSTRUCTOR_ID.serialize(buf);
                self.id.serialize(buf);
            }
        }
        impl crate::RemoteCall for GetUser {
            type Return = crate::enums::User;
        }
    }
}
"
    );
}

#[test]
fn functions_can_be_read_back_on_request() {
    let mut config = Config::default();
    config.deserializable_functions = true;
    config.impl_debug = false;
    config.impl_serde = true;
    let out = text(&run(SCHEMA, &config).functions);
    assert!(out.contains(
        "        impl crate::Deserializable for GetUser {\n            fn deserialize(buf: crate::deserialize::Buffer) -> crate::deserialize::Result<Self> {\n                let id = i64::deserialize(buf)?;\n"
    ));
    assert!(out.contains("        #[derive(serde::Serialize, serde::Deserialize)]\n        #[derive(Clone, PartialEq)]\n"));
    assert!(!out.contains("#[derive(Debug)]"));
}

#[test]
fn enums_module() {
    let out = run(SCHEMA, &Config::default());
    assert_eq!(
        text(&out.enums),
        "\
// @generated — do not edit by hand
pub mod enums {

    /// [`User`](https://core.telegram.org/type/User)
    #[derive(Debug)]
    #[derive(Clone, PartialEq)]
    pub enum User {
        User(crate::types::User),
        Empty,
    }
    impl crate::Serializable for User {
        fn serialize(&self, buf: &mut impl Extend<u8>) {
            use crate::Identifiable;
            match self {
                Self::User(x) => {
                    crate::types::User::CONSTRUCTOR_ID.serialize(buf);
                    x.serialize(buf);
                }
                Self::Empty => {
                    crate::types::UserEmpty::CONSTRUCTOR_ID.serialize(buf);
                }
            }
        }
    }
    impl crate::Deserializable for User {
        fn deserialize(buf: crate::deserialize::Buffer) -> crate::deserialize::Result<Self> {
            use crate::Identifiable;
            let id = u32::deserialize(buf)?;
            Ok(match id {
                crate::types::User::CONSTRUCTOR_ID => Self::User(crate::types::User::deserialize(buf)?),
                crate::types::UserEmpty::CONSTRUCTOR_ID => Self::Empty,
                _ => return Err(crate::deserialize::Error::UnexpectedConstructor { id }),
            })
        }
    }
    impl From<crate::types::User> for User {
        fn from(x: crate::types::User) -> Self {
            Self::User(x)
        }
    }
    impl From<crate::types::UserEmpty> for User {
        fn from(_x: crate::types::UserEmpty) -> Self {
            Self::Empty
        }
    }
    impl TryFrom<User> for crate::types::User {
        type Error = User;
        #[allow(unreachable_patterns)]
        fn try_from(v: User) -> Result<Self, Self::Error> {
            match v {
                User::User(x) => Ok(x),
                other => Err(other),
            }
        }
    }
}
"
    );
}

#[test]
fn enums_module_without_conversions() {
    let mut config = Config::default();
    config.impl_from_type = false;
    config.impl_from_enum = false;
    let out = text(&run(SCHEMA, &config).enums);
    assert!(out.contains("pub enum User {"));
    assert!(!out.contains("impl From<"));
    assert!(!out.contains("impl TryFrom<"));
}

#[test]
fn recursive_constructor_is_boxed_in_its_union() {
    let source = "\
textEmpty#dc3d824f = RichText;
textBold#6724abc4 text:RichText = RichText;
";
    let out = text(&run(source, &Config::default()).enums);
    assert!(out.contains("        TextEmpty,\n"));
    assert!(out.contains("        TextBold(Box<crate::types::TextBold>),\n"));
    assert!(out.contains(
        "            crate::types::TextBold::CONSTRUCTOR_ID => Self::TextBold(Box::new(crate::types::TextBold::deserialize(buf)?)),\n"
    ));
    assert!(out.contains("            Self::TextBold(Box::new(x))\n"));
    assert!(out.contains("                RichText::TextBold(x) => Ok(*x),\n"));
}

#[test]
fn unused_flags_word_is_written_as_zero() {
    let source = "thing#1 flags:# id:int = Thing;";
    let out = text(&run(source, &Config::default()).types);
    assert!(out.contains("            0u32.serialize(buf);\n            self.id.serialize(buf);\n"));
    assert!(out.contains("            let _flags = u32::deserialize(buf)?;\n"));
}

#[test]
fn generic_function_gets_a_parameter_list() {
    let source = "\
---functions---
invokeWithLayer#da9b0d0d {X:Type} layer:int query:!X = X;
";
    let defs = schema(source);
    assert_eq!(generic_list(&defs[0], ""), b"<X>".to_vec());
    assert_eq!(generic_list(&defs[0], ": crate::Serializable"), b"<X: crate::Serializable>".to_vec());
    assert_eq!(defs[0].to_string(), "invokeWithLayer#da9b0d0d {X:Type} layer:int query:!X = !X");
    let out = text(&run(source, &Config::default()).functions);
    assert!(out.contains("    pub struct InvokeWithLayer<X> {\n        pub layer: i32,\n        pub query: X,\n    }\n"));
    assert!(out.contains("    impl<X: crate::Serializable> crate::Serializable for InvokeWithLayer<X> {\n"));
    assert!(out.contains(
        "    impl<X: crate::Serializable + crate::Deserializable> crate::RemoteCall for InvokeWithLayer<X> {\n        type Return = X;\n    }\n"
    ));
}

#[test]
fn generate_appends_to_what_is_there() {
    let defs = schema(SCHEMA);
    let mut outputs = Outputs::new();
    outputs.types.extend_from_slice(b"// kept\n");
    generate(&defs, &Config::default(), &mut outputs);
    assert!(text(&outputs.types).starts_with("// kept\n// @generated"));
}
