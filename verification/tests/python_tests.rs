//! Tests for the Python extraction module.

use spec_extract::LanguagePlugin;
use spec_extract::PythonPlugin;

#[test]
fn python_test_extract_class() {
    let plugin = PythonPlugin::new();
    let source = "\nclass User:\n    \"\"\"Represents a user in the system.\"\"\"\n\n    def __init__(self, name: str):\n        self.name = name\n\n    def greet(self) -> str:\n        return f\"Hello, {self.name}\"\n";
    let spec = plugin.extract(source, "user.py").unwrap();
    assert_eq!(spec.types.len(), 1);
    assert_eq!(spec.types[0].name, "User class");
    assert!(spec.types[0].doc.as_ref().unwrap().contains("user in the system"));
}

#[test]
fn python_test_extract_function() {
    let plugin = PythonPlugin::new();
    let source = "\ndef hello(name: str) -> str:\n    \"\"\"Return a greeting.\"\"\"\n    return f\"Hello, {name}\"\n";
    let spec = plugin.extract(source, "hello.py").unwrap();
    assert_eq!(spec.functions.len(), 1);
    assert!(spec.functions[0].signature.contains("hello"));
}

#[test]
fn test_extract_class_with_inheritance() {
    let plugin = PythonPlugin::new();
    let source = "\nclass Admin(User, Permissioned):\n    \"\"\"An admin user.\"\"\"\n    pass\n";
    let spec = plugin.extract(source, "admin.py").unwrap();
    assert_eq!(spec.types.len(), 1);
    assert!(spec.types[0].embeds.contains(&"User".to_string()));
}

#[test]
fn test_extract_constants() {
    let plugin = PythonPlugin::new();
    let source = "\nMAX_RETRIES = 3\nDEFAULT_TIMEOUT = 30\n";
    let spec = plugin.extract(source, "config.py").unwrap();
    assert_eq!(spec.constants.len(), 2);
}

// The uppercase heuristic: any lowercase character anywhere in the
// identifier disqualifies it.
#[test]
fn python_uppercase_heuristic_boundary() {
    let plugin = PythonPlugin::new();
    let source = "MAX_RETRIES = 3\nmaxRetries = 4\nMax_Retries = 5\n";
    let spec = plugin.extract(source, "config.py").unwrap();
    assert_eq!(spec.constants.len(), 1);
    assert_eq!(spec.constants[0].name, "MAX_RETRIES");
    assert_eq!(spec.constants[0].value, Some("3".to_string()));
}

// Class callables live on the class record, not in the file-level
// lists.
#[test]
fn python_methods_stay_on_class() {
    let plugin = PythonPlugin::new();
    let source = "class A:\n    def m(self):\n        pass\n";
    let spec = plugin.extract(source, "a.py").unwrap();
    assert_eq!(spec.methods.len(), 0);
    assert_eq!(spec.functions.len(), 0);
    assert_eq!(spec.types.len(), 1);
    assert_eq!(spec.types[0].methods.len(), 1);
}

// A module-level callable whose first parameter follows the self
// convention is a method, never a free function; its receiver is set
// and a plain callable's is not.
#[test]
fn python_self_bearing_callable_is_method() {
    let plugin = PythonPlugin::new();
    let source = "def bound(self, x):\n    return x\n\ndef plain(x):\n    return x\n";
    let spec = plugin.extract(source, "m.py").unwrap();
    assert_eq!(spec.methods.len(), 1);
    assert!(spec.methods[0].signature.contains("bound"));
    assert_eq!(spec.methods[0].receiver, Some("self".to_string()));
    assert_eq!(spec.functions.len(), 1);
    assert!(spec.functions[0].signature.contains("plain"));
    assert_eq!(spec.functions[0].receiver, None);
}

// `self.x` assignments in the constructor become fields.
#[test]
fn python_init_fields() {
    let plugin = PythonPlugin::new();
    let source = "class P:\n    def __init__(self, x, y):\n        self.x = x\n        self.y = y\n";
    let spec = plugin.extract(source, "p.py").unwrap();
    assert_eq!(spec.types[0].fields, vec!["x".to_string(), "y".to_string()]);
}

// Imports: plain imports lose the keyword, `from` imports keep their
// whole text.
#[test]
fn python_imports() {
    let plugin = PythonPlugin::new();
    let source = "import os\nfrom sys import path\n";
    let spec = plugin.extract(source, "m.py").unwrap();
    assert_eq!(spec.imports, vec!["os".to_string(), "from sys import path".to_string()]);
}

// The module name falls back to the file's stem.
#[test]
fn python_module_name_is_stem() {
    let plugin = PythonPlugin::new();
    let spec = plugin.extract("X = 1\n", "pkg/config.py").unwrap();
    assert_eq!(spec.package, "config");
}
