//! Tests for output naming, formats, and the project index.

use spec_extract::FileSpec;
use spec_extract::IndexBuilder;
use spec_extract::OutputFormat;
use spec_extract::get_output_path;

fn language_count(stats: &spec_extract::IndexStats, lang: &str) -> Option<usize> {
    for (k, v) in stats.by_language.iter() {
        if k == lang {
            return Some(*v);
        }
    }
    None
}

#[test]
fn test_get_output_path() {
    let source = "/src/main.go";
    let output = "/specs";

    let result = get_output_path(source, output, OutputFormat::Yaml);
    assert_eq!(result, "/specs/main.go.yaml");

    let result = get_output_path(source, output, OutputFormat::Json);
    assert_eq!(result, "/specs/main.go.json");
}

#[test]
fn test_index_builder() {
    let mut builder = IndexBuilder::new("test-project", "/src");

    builder.add(
        "specs/main.go.yaml".to_string(),
        "src/main.go".to_string(),
        "go".to_string(),
        FileSpec {
            file: "src/main.go".to_string(),
            package: "main".to_string(),
            types: vec![],
            functions: vec![Default::default()],
            ..Default::default()
        },
    );

    builder.add(
        "specs/lib.rs.yaml".to_string(),
        "src/lib.rs".to_string(),
        "rust".to_string(),
        FileSpec {
            file: "src/lib.rs".to_string(),
            package: "lib".to_string(),
            types: vec![Default::default()],
            functions: vec![],
            ..Default::default()
        },
    );

    let index = builder.build();

    assert_eq!(index.project, "test-project");
    assert_eq!(index.files.len(), 2);

    let stats = index.stats.unwrap();
    assert_eq!(stats.total_files, 2);
    assert_eq!(stats.total_types, 1);
    assert_eq!(stats.total_functions, 1);
    assert_eq!(language_count(&stats, "go"), Some(1));
    assert_eq!(language_count(&stats, "rust"), Some(1));
}

// Two files — one with a type and a function, one with a type only —
// aggregate to two files, two types, one function.
#[test]
fn index_totals_two_files() {
    let mut builder = IndexBuilder::new("p", "/r");
    builder.add(
        "a.yaml".to_string(),
        "a.go".to_string(),
        "go".to_string(),
        FileSpec {
            types: vec![Default::default()],
            functions: vec![Default::default()],
            ..Default::default()
        },
    );
    builder.add(
        "b.yaml".to_string(),
        "b.go".to_string(),
        "go".to_string(),
        FileSpec { types: vec![Default::default()], ..Default::default() },
    );
    let index = builder.build();
    let stats = index.stats.unwrap();
    assert_eq!(stats.total_files, 2);
    assert_eq!(stats.total_types, 2);
    assert_eq!(stats.total_functions, 1);
    assert_eq!(language_count(&stats, "go"), Some(2));
}

#[test]
fn format_extension_and_parse() {
    assert_eq!(OutputFormat::Yaml.extension(), "yaml");
    assert_eq!(OutputFormat::Json.extension(), "json");
    assert_eq!(OutputFormat::from_str("yaml"), Some(OutputFormat::Yaml));
    assert_eq!(OutputFormat::from_str("YML"), Some(OutputFormat::Yaml));
    assert_eq!(OutputFormat::from_str("Json"), Some(OutputFormat::Json));
    assert_eq!(OutputFormat::from_str("xml"), None);
}
