pub mod strutil;
pub mod records;
pub mod tree;
pub mod parse;
pub mod go;
pub mod paths;
pub mod python;
pub mod rust;
pub mod typescript;
pub mod plugins;
pub mod format;
pub mod index;
pub mod extract;
pub mod laws;

pub use extract::{extract_spec, get_output_path, should_skip_path};
pub use format::OutputFormat;
pub use go::GoPlugin;
pub use index::IndexBuilder;
pub use parse::TreeSitterParser;
pub use plugins::{ExtractOptions, LanguagePlugin, Plugin, PluginRegistry};
pub use python::PythonPlugin;
pub use records::{
    Behavior, ConstSpec, ErrorSpec, ExtractError, ExtractedSpec, FileEntry, FileSpec, FuncSpec,
    IndexSpec, IndexStats, TestLink, TypeSpec, VarSpec,
};
pub use rust::RustPlugin;
pub use tree::{NodeHelper, SynNode, SyntaxTree};
pub use typescript::TypeScriptPlugin;
