//! Tests for the TypeScript extraction module.

use spec_extract::LanguagePlugin;
use spec_extract::TypeScriptPlugin;

#[test]
fn typescript_test_extract_interface() {
    let plugin = TypeScriptPlugin::new();
    let source = "\n// A user in the system.\ninterface User {\n    id: number;\n    name: string;\n    greet(): string;\n}\n";
    let spec = plugin.extract(source, "user.ts").unwrap();
    assert_eq!(spec.types.len(), 1);
    assert_eq!(spec.types[0].name, "User interface");
    assert_eq!(spec.types[0].kind, "interface");
}

#[test]
fn typescript_test_extract_class() {
    let plugin = TypeScriptPlugin::new();
    let source = "\nclass User implements Serializable {\n    id: number;\n    name: string;\n\n    constructor(id: number, name: string) {\n        this.id = id;\n        this.name = name;\n    }\n\n    greet(): string {\n        return `Hello, ${this.name}`;\n    }\n}\n";
    let spec = plugin.extract(source, "user.ts").unwrap();
    assert_eq!(spec.types.len(), 1);
    assert_eq!(spec.types[0].name, "User class");
    assert!(spec.types[0].implements.is_some());
}

#[test]
fn typescript_test_extract_function() {
    let plugin = TypeScriptPlugin::new();
    let source = "\nfunction hello(name: string): string {\n    return `Hello, ${name}`;\n}\n";
    let spec = plugin.extract(source, "hello.ts").unwrap();
    assert_eq!(spec.functions.len(), 1);
    assert!(spec.functions[0].signature.contains("hello"));
}

#[test]
fn test_extract_arrow_function() {
    let plugin = TypeScriptPlugin::new();
    let source = "\nconst add = (a: number, b: number): number => a + b;\n";
    let spec = plugin.extract(source, "math.ts").unwrap();
    assert_eq!(spec.functions.len(), 1);
    assert!(spec.functions[0].signature.contains("add"));
}

#[test]
fn test_extract_type_alias() {
    let plugin = TypeScriptPlugin::new();
    let source = "\ntype UserId = string;\ntype UserMap<T> = Map<UserId, T>;\n";
    let spec = plugin.extract(source, "types.ts").unwrap();
    assert_eq!(spec.types.len(), 2);
    assert_eq!(spec.types[0].name, "UserId type");
    assert_eq!(spec.types[1].name, "UserMap type");
}

#[test]
fn typescript_test_extract_enum() {
    let plugin = TypeScriptPlugin::new();
    let source = "\nenum Status {\n    Active,\n    Inactive,\n    Pending\n}\n";
    let spec = plugin.extract(source, "status.ts").unwrap();
    assert_eq!(spec.types.len(), 1);
    assert_eq!(spec.types[0].name, "Status enum");
}

// An arrow function bound by `const` never shows up among the
// constants; other `const` declarators do.
#[test]
fn typescript_arrow_not_a_constant() {
    let plugin = TypeScriptPlugin::new();
    let source = "const add = (a: number) => a;\nconst LIMIT = 3;\nlet counter = 0;\n";
    let spec = plugin.extract(source, "m.ts").unwrap();
    assert_eq!(spec.functions.len(), 1);
    assert_eq!(spec.constants.len(), 1);
    assert_eq!(spec.constants[0].name, "LIMIT");
    assert_eq!(spec.variables.len(), 1);
    assert_eq!(spec.variables[0].name, "counter");
}

// An enum's bare variants come back one entry each.
#[test]
fn typescript_enum_variants_exact() {
    let plugin = TypeScriptPlugin::new();
    let source = "enum Status {\n    Active,\n    Inactive,\n    Pending\n}\n";
    let spec = plugin.extract(source, "status.ts").unwrap();
    assert_eq!(spec.types[0].kind, "enum");
    assert_eq!(
        spec.types[0].variants,
        vec!["Active".to_string(), "Inactive".to_string(), "Pending".to_string()]
    );
}

// TSX files parse with the TSX grammar.
#[test]
fn typescript_tsx_parses() {
    let plugin = TypeScriptPlugin::new();
    let source = "function App(): number {\n    return 1;\n}\n";
    let spec = plugin.extract(source, "App.tsx").unwrap();
    assert_eq!(spec.functions.len(), 1);
    assert_eq!(spec.package, "App");
}
