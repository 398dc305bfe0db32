//! Tests for the module registry and extraction orchestration.

use spec_extract::extract_spec;
use spec_extract::should_skip_path;
use spec_extract::LanguagePlugin;
use spec_extract::PluginRegistry;

#[test]
fn test_registry_has_all_plugins() {
    let registry = PluginRegistry::new();
    assert!(registry.get("go").is_some());
    assert!(registry.get("rust").is_some());
    assert!(registry.get("python").is_some());
    assert!(registry.get("typescript").is_some());
}

#[test]
fn test_get_for_file() {
    let registry = PluginRegistry::new();

    assert_eq!(registry.get_for_file("main.go").unwrap().name(), "go");
    assert_eq!(registry.get_for_file("lib.rs").unwrap().name(), "rust");
    assert_eq!(registry.get_for_file("app.py").unwrap().name(), "python");
    assert_eq!(registry.get_for_file("index.ts").unwrap().name(), "typescript");
    assert_eq!(registry.get_for_file("App.tsx").unwrap().name(), "typescript");
}

#[test]
fn test_unknown_extension() {
    let registry = PluginRegistry::new();
    assert!(registry.get_for_file("file.xyz").is_none());
}

// An extensionless or hidden path is claimed by no module.
#[test]
fn registry_no_extension_no_module() {
    let registry = PluginRegistry::new();
    assert!(registry.get_for_file("Makefile").is_none());
    assert!(!registry.can_handle(".gitignore"));
    assert!(registry.can_handle("src/lib.rs"));
}

// Orchestration: an unclaimed extension is skipped silently, a claimed
// one produces a record.
#[test]
fn extract_spec_routes_by_extension() {
    let registry = PluginRegistry::new();
    let skipped = extract_spec("whatever", "notes.txt", &registry).unwrap();
    assert!(skipped.is_none());
    let extracted = extract_spec("package main", "main.go", &registry).unwrap();
    assert_eq!(extracted.unwrap().package, "main");
}

// Hidden components and well-known build directories are skipped.
#[test]
fn skip_path_rules() {
    assert!(should_skip_path("a/.hidden/b.go"));
    assert!(should_skip_path("x/node_modules/y.ts"));
    assert!(should_skip_path("x/target/debug/y.rs"));
    assert!(!should_skip_path("./src/main.go"));
    assert!(!should_skip_path("src/main.go"));
    assert!(!should_skip_path("../up/main.go"));
}
