//! Tests for the Go extraction module.

use spec_extract::GoPlugin;
use spec_extract::LanguagePlugin;

#[test]
fn test_extract_package() {
    let plugin = GoPlugin::new();
    let source = "package main";
    let spec = plugin.extract(source, "test.go").unwrap();
    assert_eq!(spec.package, "main");
}

#[test]
fn go_test_extract_struct() {
    let plugin = GoPlugin::new();
    let source = "\npackage main\n\n// User represents a system user.\ntype User struct {\n    ID   int\n    Name string\n}\n";
    let spec = plugin.extract(source, "test.go").unwrap();
    assert_eq!(spec.types.len(), 1);
    assert_eq!(spec.types[0].name, "User struct");
    assert_eq!(spec.types[0].kind, "struct");
    assert!(spec.types[0].doc.as_ref().unwrap().contains("system user"));
}

#[test]
fn go_test_extract_interface() {
    let plugin = GoPlugin::new();
    let source = "\npackage io\n\ntype Reader interface {\n    Read(p []byte) (n int, err error)\n}\n";
    let spec = plugin.extract(source, "io.go").unwrap();
    assert_eq!(spec.types.len(), 1);
    assert_eq!(spec.types[0].name, "Reader interface");
    assert_eq!(spec.types[0].kind, "interface");
    assert!(!spec.types[0].methods.is_empty());
}

#[test]
fn go_test_extract_function() {
    let plugin = GoPlugin::new();
    let source = "\npackage main\n\n// Hello returns a greeting.\nfunc Hello(name string) string {\n    return \"Hello, \" + name\n}\n";
    let spec = plugin.extract(source, "test.go").unwrap();
    assert_eq!(spec.functions.len(), 1);
    assert!(spec.functions[0].signature.contains("Hello"));
}

#[test]
fn test_extract_method() {
    let plugin = GoPlugin::new();
    let source = "\npackage main\n\ntype User struct {\n    Name string\n}\n\nfunc (u *User) Greet() string {\n    return \"Hello, \" + u.Name\n}\n";
    let spec = plugin.extract(source, "test.go").unwrap();
    assert_eq!(spec.methods.len(), 1);
    assert!(spec.methods[0].receiver.is_some());
}

// A field-bearing type with two fields and a one-line preceding comment
// yields one record with both fields and that exact documentation.
#[test]
fn go_struct_fields_and_doc_exact() {
    let plugin = GoPlugin::new();
    let source = "package main\n\n// User represents a system user.\ntype User struct {\n    id int\n    name string\n}\n";
    let spec = plugin.extract(source, "users.go").unwrap();
    assert_eq!(spec.types.len(), 1);
    assert_eq!(spec.types[0].name, "User struct");
    assert_eq!(spec.types[0].kind, "struct");
    assert_eq!(spec.types[0].fields, vec!["id: int".to_string(), "name: string".to_string()]);
    assert_eq!(
        spec.types[0].doc,
        Some("User represents a system user.".to_string())
    );
}

// A contract type with one member signature yields exactly that
// signature text.
#[test]
fn go_interface_signature_exact() {
    let plugin = GoPlugin::new();
    let source = "package io\n\ntype Reader interface {\n    Read(p []byte) (n int, err error)\n}\n";
    let spec = plugin.extract(source, "io.go").unwrap();
    assert_eq!(spec.types[0].kind, "interface");
    assert_eq!(
        spec.types[0].methods,
        vec!["Read(p []byte) (n int, err error)".to_string()]
    );
}

// A callable bound to a receiver is a method and never a free function.
#[test]
fn go_receiver_keeps_method_out_of_functions() {
    let plugin = GoPlugin::new();
    let source = "package main\n\ntype User struct {\n    Name string\n}\n\nfunc (u *User) Greet() string {\n    return u.Name\n}\n";
    let spec = plugin.extract(source, "test.go").unwrap();
    assert_eq!(spec.functions.len(), 0);
    assert_eq!(spec.methods.len(), 1);
    assert_eq!(spec.methods[0].receiver, Some("(u *User)".to_string()));
}

// Grouped imports flatten to one entry per imported path.
#[test]
fn go_grouped_imports_flatten() {
    let plugin = GoPlugin::new();
    let source = "package main\n\nimport (\n    \"fmt\"\n    \"os\"\n)\n";
    let spec = plugin.extract(source, "main.go").unwrap();
    assert_eq!(spec.imports, vec!["fmt".to_string(), "os".to_string()]);
}

// A run of consecutive line comments joins into one document, one line
// per comment, markers stripped, in source order.
#[test]
fn go_doc_association_three_lines() {
    let plugin = GoPlugin::new();
    let source = "package main\n\n// first\n// second\n// third\nfunc Hello() {}\n";
    let spec = plugin.extract(source, "test.go").unwrap();
    assert_eq!(spec.functions.len(), 1);
    assert_eq!(spec.functions[0].doc, Some("first\nsecond\nthird".to_string()));
}

// A named-error binding is collected with its message expression; the
// convention covers exported bindings only, so an unexported
// `err`-prefixed binding stays out.
#[test]
fn go_error_binding_collected() {
    let plugin = GoPlugin::new();
    let source = "package main\n\nvar ErrNotFound = errors.New(\"not found\")\nvar errInternal = errors.New(\"internal\")\n";
    let spec = plugin.extract(source, "errs.go").unwrap();
    assert_eq!(spec.errors.len(), 1);
    assert_eq!(spec.errors[0].name, "ErrNotFound");
}

// Extraction is deterministic: two runs on the same input agree.
#[test]
fn go_extract_deterministic() {
    let plugin = GoPlugin::new();
    let source = "package main\n\nfunc A() {}\nfunc B() {}\n";
    let first = plugin.extract(source, "a.go").unwrap();
    let second = plugin.extract(source, "a.go").unwrap();
    assert_eq!(first, second);
}
