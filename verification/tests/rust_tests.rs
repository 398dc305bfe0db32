//! Tests for the Rust extraction module.

use spec_extract::LanguagePlugin;
use spec_extract::RustPlugin;

#[test]
fn rust_test_extract_struct() {
    let plugin = RustPlugin::new();
    let source = "\n/// A user in the system.\npub struct User {\n    id: u64,\n    name: String,\n}\n";
    let spec = plugin.extract(source, "user.rs").unwrap();
    assert_eq!(spec.types.len(), 1);
    assert_eq!(spec.types[0].name, "User struct");
    assert!(spec.types[0].doc.as_ref().unwrap().contains("user in the system"));
}

#[test]
fn rust_test_extract_enum() {
    let plugin = RustPlugin::new();
    let source = "\npub enum Status {\n    Active,\n    Inactive,\n    Pending,\n}\n";
    let spec = plugin.extract(source, "status.rs").unwrap();
    assert_eq!(spec.types.len(), 1);
    assert_eq!(spec.types[0].name, "Status enum");
    assert_eq!(spec.types[0].variants.len(), 3);
}

#[test]
fn test_extract_trait() {
    let plugin = RustPlugin::new();
    let source = "\npub trait Drawable {\n    fn draw(&self);\n    fn bounds(&self) -> Rect;\n}\n";
    let spec = plugin.extract(source, "drawable.rs").unwrap();
    assert_eq!(spec.types.len(), 1);
    assert_eq!(spec.types[0].name, "Drawable trait");
    assert_eq!(spec.types[0].kind, "trait");
}

#[test]
fn test_extract_impl_methods() {
    let plugin = RustPlugin::new();
    let source = "\nstruct User {\n    name: String,\n}\n\nimpl User {\n    pub fn new(name: String) -> Self {\n        Self { name }\n    }\n\n    pub fn greet(&self) -> String {\n        format!(\"Hello, {}\", self.name)\n    }\n}\n";
    let spec = plugin.extract(source, "user.rs").unwrap();
    assert_eq!(spec.methods.len(), 2);
    assert!(spec.methods[0].receiver.is_some());
}

// A sum type with three bare variants yields kind `enum` and three
// variant entries, each the literal source text.
#[test]
fn rust_enum_variants_exact() {
    let plugin = RustPlugin::new();
    let source = "enum Status {\n    Active,\n    Inactive,\n    Pending,\n}\n";
    let spec = plugin.extract(source, "status.rs").unwrap();
    assert_eq!(spec.types[0].kind, "enum");
    assert_eq!(
        spec.types[0].variants,
        vec!["Active".to_string(), "Inactive".to_string(), "Pending".to_string()]
    );
}

// Functions inside an `impl` never appear among the free functions.
#[test]
fn rust_impl_fn_not_free() {
    let plugin = RustPlugin::new();
    let source = "struct S;\n\nimpl S {\n    fn inner(&self) {}\n}\n\nfn outer() {}\n";
    let spec = plugin.extract(source, "s.rs").unwrap();
    assert_eq!(spec.functions.len(), 1);
    assert!(spec.functions[0].signature.contains("outer"));
    assert_eq!(spec.methods.len(), 1);
    assert_eq!(spec.methods[0].receiver, Some("S".to_string()));
}

// Constants and statics are collected with their types and values.
#[test]
fn rust_constants_and_statics() {
    let plugin = RustPlugin::new();
    let source = "const LIMIT: u32 = 7;\nstatic NAME: &str = \"x\";\n";
    let spec = plugin.extract(source, "c.rs").unwrap();
    assert_eq!(spec.constants.len(), 1);
    assert_eq!(spec.constants[0].name, "LIMIT");
    assert_eq!(spec.constants[0].ty_name, Some("u32".to_string()));
    assert_eq!(spec.constants[0].value, Some("7".to_string()));
    assert_eq!(spec.variables.len(), 1);
    assert_eq!(spec.variables[0].name, "NAME");
}

// A bare type alias still yields a record: defining a name always
// produces at least one entry.
#[test]
fn rust_type_alias_record() {
    let plugin = RustPlugin::new();
    let source = "type Pair = (u8, u8);\n";
    let spec = plugin.extract(source, "t.rs").unwrap();
    assert_eq!(spec.types.len(), 1);
    assert_eq!(spec.types[0].name, "Pair type");
    assert_eq!(spec.types[0].kind, "type_alias");
}
