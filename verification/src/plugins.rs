//! The extraction contract and the module registry.
//!
//! The supported languages form a closed set of tagged variants behind
//! one shared capability trait; the registry maps file extensions to
//! modules.  Registering a second module for an extension shadows the
//! first: the most recent registration wins.

use vstd::prelude::*;

use crate::go::{go_file_record, GoPlugin};
use crate::parse::{go_parse, python_parse, rust_parse};
use crate::paths::{extension_chars, spec_extension};
use crate::python::{py_file_record, PythonPlugin};
use crate::records::{ExtractError, FileSpec, FileSpecV};
use crate::rust::{rust_file_record, RustPlugin};
use crate::strutil::{chars_eq, to_chars};
use crate::typescript::{ts_file_record, ts_parse_of, TypeScriptPlugin};

verus! {

/// Membership in a one-element sequence is equality with the element.
pub proof fn lemma_singleton_contains<A>(x: A, k: A)
    ensures
        seq![x].contains(k) <==> k == x,
{
    let s = seq![x];
    if s.contains(k) {
        let j = choose|j: int| 0 <= j < s.len() && #[trigger] s[j] == k;
        assert(j == 0);
    }
    if k == x {
        assert(s[0] == k);
    }
}

/// Membership in a two-element sequence is equality with one of them.
pub proof fn lemma_pair_contains<A>(x: A, y: A, k: A)
    ensures
        seq![x, y].contains(k) <==> (k == x || k == y),
{
    let s = seq![x, y];
    if s.contains(k) {
        let j = choose|j: int| 0 <= j < s.len() && #[trigger] s[j] == k;
        assert(j == 0 || j == 1);
    }
    if k == x {
        assert(s[0] == k);
    }
    if k == y {
        assert(s[1] == k);
    }
}

/// Whether a declared extension set claims the given path.
pub open spec fn spec_claims(exts: Seq<Seq<char>>, path: Seq<char>) -> bool {
    match spec_extension(path) {
        None => false,
        Some(e) => exts.contains(e),
    }
}

/// The contract every language module implements: a stable identifier,
/// the claimed extensions, and an extraction that is a pure function of
/// source text and path.  The optional semantic pass defaults to doing
/// nothing.
pub trait LanguagePlugin: Sized {
    /// The module's identifier.
    spec fn spec_name(&self) -> Seq<char>;

    /// The file extensions the module claims.
    spec fn spec_extensions(&self) -> Seq<Seq<char>>;

    /// What extraction yields: a record on a parsable file, nothing on
    /// a parse failure.
    spec fn spec_extract(&self, source: Seq<char>, path: Seq<char>) -> Option<FileSpecV>;

    fn name(&self) -> (r: &'static str)
        ensures
            r@ == self.spec_name(),
    ;

    fn extensions(&self) -> (r: Vec<&'static str>)
        ensures
            r.deep_view() == self.spec_extensions(),
    ;

    /// Extracts the record for one source file.  The result is a pure
    /// function of `(source, path)`; the only error is a parse failure.
    fn extract(&self, source: &str, path: &str) -> (r: Result<FileSpec, ExtractError>)
        ensures
            match r {
                Ok(spec) => self.spec_extract(source@, path@) == Some(spec.deep_view()),
                Err(e) => self.spec_extract(source@, path@) is None && e
                    == ExtractError::ParseFailure,
            },
    ;

    /// Optional second pass over an extracted record; the default
    /// leaves the record untouched.
    fn analyze_semantics(&self, record: &mut FileSpec, source: &str)
        ensures
            *final(record) == *old(record),
    {
    }

    /// Whether this module claims the path, derived from the extension
    /// set.
    fn can_handle(&self, path: &str) -> (r: bool)
        ensures
            r == spec_claims(self.spec_extensions(), path@),
    {
        broadcast use crate::strutil::lemma_chars_deep_view;

        let v = to_chars(path);
        match extension_chars(&v) {
            None => false,
            Some(e) => {
                let exts = self.extensions();
                let mut k: usize = 0;
                while k < exts.len()
                    invariant
                        e@ == match spec_extension(path@) {
                            Some(x) => x,
                            None => Seq::<char>::empty(),
                        },
                        spec_extension(path@) is Some,
                        exts.deep_view() == self.spec_extensions(),
                        exts.deep_view().len() == exts@.len(),
                        k <= exts@.len(),
                        forall|j: int| 0 <= j < k ==> self.spec_extensions()[j] != e@,
                    decreases exts@.len() - k,
                {
                    let ec = to_chars(exts[k]);
                    if chars_eq(&ec, &e) {
                        proof {
                            assert(self.spec_extensions()[k as int] == exts@[k as int]@);
                            assert(self.spec_extensions().contains(e@));
                        }
                        return true;
                    }
                    proof {
                        assert(self.spec_extensions()[k as int] == exts@[k as int]@);
                    }
                    k = k + 1;
                }
                proof {
                    if self.spec_extensions().contains(e@) {
                        let j = choose|j: int|
                            0 <= j < self.spec_extensions().len() && self.spec_extensions()[j]
                                == e@;
                        assert(false);
                    }
                }
                false
            },
        }
    }
}

impl LanguagePlugin for GoPlugin {
    open spec fn spec_name(&self) -> Seq<char> {
        "go"@
    }

    open spec fn spec_extensions(&self) -> Seq<Seq<char>> {
        seq!["go"@]
    }

    open spec fn spec_extract(&self, source: Seq<char>, path: Seq<char>) -> Option<FileSpecV> {
        match go_parse(source) {
            Some(t) => Some(go_file_record(t, path)),
            None => None,
        }
    }

    fn name(&self) -> (r: &'static str) {
        "go"
    }

    fn extensions(&self) -> (r: Vec<&'static str>) {
        let mut v: Vec<&'static str> = Vec::new();
        v.push("go");
        proof {
            assert(v.deep_view() =~~= self.spec_extensions());
        }
        v
    }

    fn extract(&self, source: &str, path: &str) -> (r: Result<FileSpec, ExtractError>) {
        self.extract_file(source, path)
    }
}

impl LanguagePlugin for RustPlugin {
    open spec fn spec_name(&self) -> Seq<char> {
        "rust"@
    }

    open spec fn spec_extensions(&self) -> Seq<Seq<char>> {
        seq!["rs"@]
    }

    open spec fn spec_extract(&self, source: Seq<char>, path: Seq<char>) -> Option<FileSpecV> {
        match rust_parse(source) {
            Some(t) => Some(rust_file_record(t, path)),
            None => None,
        }
    }

    fn name(&self) -> (r: &'static str) {
        "rust"
    }

    fn extensions(&self) -> (r: Vec<&'static str>) {
        let mut v: Vec<&'static str> = Vec::new();
        v.push("rs");
        proof {
            assert(v.deep_view() =~~= self.spec_extensions());
        }
        v
    }

    fn extract(&self, source: &str, path: &str) -> (r: Result<FileSpec, ExtractError>) {
        self.extract_file(source, path)
    }
}

impl LanguagePlugin for PythonPlugin {
    open spec fn spec_name(&self) -> Seq<char> {
        "python"@
    }

    open spec fn spec_extensions(&self) -> Seq<Seq<char>> {
        seq!["py"@]
    }

    open spec fn spec_extract(&self, source: Seq<char>, path: Seq<char>) -> Option<FileSpecV> {
        match python_parse(source) {
            Some(t) => Some(py_file_record(t, path)),
            None => None,
        }
    }

    fn name(&self) -> (r: &'static str) {
        "python"
    }

    fn extensions(&self) -> (r: Vec<&'static str>) {
        let mut v: Vec<&'static str> = Vec::new();
        v.push("py");
        proof {
            assert(v.deep_view() =~~= self.spec_extensions());
        }
        v
    }

    fn extract(&self, source: &str, path: &str) -> (r: Result<FileSpec, ExtractError>) {
        self.extract_file(source, path)
    }
}

impl LanguagePlugin for TypeScriptPlugin {
    open spec fn spec_name(&self) -> Seq<char> {
        "typescript"@
    }

    open spec fn spec_extensions(&self) -> Seq<Seq<char>> {
        seq!["ts"@, "tsx"@]
    }

    open spec fn spec_extract(&self, source: Seq<char>, path: Seq<char>) -> Option<FileSpecV> {
        match ts_parse_of(path, source) {
            Some(t) => Some(ts_file_record(t, path)),
            None => None,
        }
    }

    fn name(&self) -> (r: &'static str) {
        "typescript"
    }

    fn extensions(&self) -> (r: Vec<&'static str>) {
        let mut v: Vec<&'static str> = Vec::new();
        v.push("ts");
        v.push("tsx");
        proof {
            assert(v.deep_view() =~~= self.spec_extensions());
        }
        v
    }

    fn extract(&self, source: &str, path: &str) -> (r: Result<FileSpec, ExtractError>) {
        self.extract_file(source, path)
    }
}

/// The closed set of language modules.
#[derive(Clone, Copy, PartialEq, Eq, Structural, Debug)]
pub enum Plugin {
    Go(GoPlugin),
    Rust(RustPlugin),
    Python(PythonPlugin),
    TypeScript(TypeScriptPlugin),
}

impl LanguagePlugin for Plugin {
    open spec fn spec_name(&self) -> Seq<char> {
        match self {
            Plugin::Go(p) => p.spec_name(),
            Plugin::Rust(p) => p.spec_name(),
            Plugin::Python(p) => p.spec_name(),
            Plugin::TypeScript(p) => p.spec_name(),
        }
    }

    open spec fn spec_extensions(&self) -> Seq<Seq<char>> {
        match self {
            Plugin::Go(p) => p.spec_extensions(),
            Plugin::Rust(p) => p.spec_extensions(),
            Plugin::Python(p) => p.spec_extensions(),
            Plugin::TypeScript(p) => p.spec_extensions(),
        }
    }

    open spec fn spec_extract(&self, source: Seq<char>, path: Seq<char>) -> Option<FileSpecV> {
        match self {
            Plugin::Go(p) => p.spec_extract(source, path),
            Plugin::Rust(p) => p.spec_extract(source, path),
            Plugin::Python(p) => p.spec_extract(source, path),
            Plugin::TypeScript(p) => p.spec_extract(source, path),
        }
    }

    fn name(&self) -> (r: &'static str) {
        match self {
            Plugin::Go(p) => p.name(),
            Plugin::Rust(p) => p.name(),
            Plugin::Python(p) => p.name(),
            Plugin::TypeScript(p) => p.name(),
        }
    }

    fn extensions(&self) -> (r: Vec<&'static str>) {
        match self {
            Plugin::Go(p) => p.extensions(),
            Plugin::Rust(p) => p.extensions(),
            Plugin::Python(p) => p.extensions(),
            Plugin::TypeScript(p) => p.extensions(),
        }
    }

    fn extract(&self, source: &str, path: &str) -> (r: Result<FileSpec, ExtractError>) {
        match self {
            Plugin::Go(p) => p.extract(source, path),
            Plugin::Rust(p) => p.extract(source, path),
            Plugin::Python(p) => p.extract(source, path),
            Plugin::TypeScript(p) => p.extract(source, path),
        }
    }
}

/// Options for extraction behavior.
#[derive(Debug, Clone)]
pub struct ExtractOptions {
    /// Whether to mine behavior clauses from documentation.
    pub extract_behavior: bool,
    /// Whether to include private, unexported items.
    pub include_private: bool,
    /// Whether to resolve type references.
    pub resolve_types: bool,
}

impl Default for ExtractOptions {
    fn default() -> (r: Self)
        ensures
            !r.extract_behavior,
            !r.include_private,
            !r.resolve_types,
    {
        ExtractOptions { extract_behavior: false, include_private: false, resolve_types: false }
    }
}

/// The plugin registered under `key`, by most recent registration.
pub open spec fn spec_plugin_lookup(entries: Seq<(String, Plugin)>, key: Seq<char>)
    -> Option<Plugin>
    decreases entries.len(),
{
    if entries.len() == 0 {
        None
    } else if entries[0].0@ == key {
        Some(entries[0].1)
    } else {
        spec_plugin_lookup(entries.skip(1), key)
    }
}

/// The module name registered for extension `key`, by most recent
/// registration.
pub open spec fn spec_ext_lookup(entries: Seq<(String, String)>, key: Seq<char>)
    -> Option<Seq<char>>
    decreases entries.len(),
{
    if entries.len() == 0 {
        None
    } else if entries[0].0@ == key {
        Some(entries[0].1@)
    } else {
        spec_ext_lookup(entries.skip(1), key)
    }
}

/// Registry of all available language modules, mapping identifiers to
/// modules and extensions to identifiers.
pub struct PluginRegistry {
    /// Module identifier to module, most recent registration first.
    pub plugins: Vec<(String, Plugin)>,
    /// File extension to module identifier, most recent first.
    pub ext_map: Vec<(String, String)>,
}

/// What the built-in registry's extension table answers.
pub open spec fn spec_default_ext(key: Seq<char>) -> Option<Seq<char>> {
    if key == "go"@ {
        Some("go"@)
    } else if key == "rs"@ {
        Some("rust"@)
    } else if key == "py"@ {
        Some("python"@)
    } else if key == "ts"@ || key == "tsx"@ {
        Some("typescript"@)
    } else {
        None
    }
}

/// What the built-in registry's module table answers.
pub open spec fn spec_default_plugin(key: Seq<char>) -> Option<Plugin> {
    if key == "go"@ {
        Some(Plugin::Go(GoPlugin))
    } else if key == "rust"@ {
        Some(Plugin::Rust(RustPlugin))
    } else if key == "python"@ {
        Some(Plugin::Python(PythonPlugin))
    } else if key == "typescript"@ {
        Some(Plugin::TypeScript(TypeScriptPlugin))
    } else {
        None
    }
}

/// The registry's stored tables are exactly the built-in entries, in
/// registration order: four modules and five extensions, nothing else.
pub open spec fn registry_tables_default(r: PluginRegistry) -> bool {
    &&& r.plugins@.len() == 4
    &&& r.plugins@[0].0@ == "go"@ && r.plugins@[0].1 == Plugin::Go(GoPlugin)
    &&& r.plugins@[1].0@ == "rust"@ && r.plugins@[1].1 == Plugin::Rust(RustPlugin)
    &&& r.plugins@[2].0@ == "python"@ && r.plugins@[2].1 == Plugin::Python(PythonPlugin)
    &&& r.plugins@[3].0@ == "typescript"@ && r.plugins@[3].1 == Plugin::TypeScript(
        TypeScriptPlugin,
    )
    &&& r.ext_map@.len() == 5
    &&& r.ext_map@[0].0@ == "go"@ && r.ext_map@[0].1@ == "go"@
    &&& r.ext_map@[1].0@ == "rs"@ && r.ext_map@[1].1@ == "rust"@
    &&& r.ext_map@[2].0@ == "py"@ && r.ext_map@[2].1@ == "python"@
    &&& r.ext_map@[3].0@ == "ts"@ && r.ext_map@[3].1@ == "typescript"@
    &&& r.ext_map@[4].0@ == "tsx"@ && r.ext_map@[4].1@ == "typescript"@
}

/// The registry holds exactly the built-in modules under their names
/// and extensions.
pub open spec fn registry_is_default(r: PluginRegistry) -> bool {
    &&& (forall|k: Seq<char>| #[trigger] spec_plugin_lookup(r.plugins@, k)
        == spec_default_plugin(k))
    &&& (forall|k: Seq<char>| #[trigger] spec_ext_lookup(r.ext_map@, k) == spec_default_ext(k))
}

/// Which module the registry selects for a path: the one registered for
/// the path's extension.
pub open spec fn spec_get_for_file(r: PluginRegistry, path: Seq<char>) -> Option<Plugin> {
    match spec_extension(path) {
        None => None,
        Some(e) => match spec_ext_lookup(r.ext_map@, e) {
            None => None,
            Some(nm) => spec_plugin_lookup(r.plugins@, nm),
        },
    }
}

impl PluginRegistry {
    /// The registry with all built-in modules registered, each under
    /// its identifier and its extensions.
    pub fn new() -> (r: PluginRegistry)
        ensures
            registry_is_default(r),
            registry_tables_default(r),
    {
        let mut plugins: Vec<(String, Plugin)> = Vec::new();
        plugins.push(("go".to_owned(), Plugin::Go(GoPlugin)));
        plugins.push(("rust".to_owned(), Plugin::Rust(RustPlugin)));
        plugins.push(("python".to_owned(), Plugin::Python(PythonPlugin)));
        plugins.push(("typescript".to_owned(), Plugin::TypeScript(TypeScriptPlugin)));
        let mut ext_map: Vec<(String, String)> = Vec::new();
        ext_map.push(("go".to_owned(), "go".to_owned()));
        ext_map.push(("rs".to_owned(), "rust".to_owned()));
        ext_map.push(("py".to_owned(), "python".to_owned()));
        ext_map.push(("ts".to_owned(), "typescript".to_owned()));
        ext_map.push(("tsx".to_owned(), "typescript".to_owned()));
        let registry = PluginRegistry { plugins, ext_map };
        proof {
            let m = registry.ext_map@;
            let p = registry.plugins@;
            assert(p.len() == 4);
            assert(p[0].0@ == "go"@ && p[0].1 == Plugin::Go(GoPlugin));
            assert(p[1].0@ == "rust"@ && p[1].1 == Plugin::Rust(RustPlugin));
            assert(p[2].0@ == "python"@ && p[2].1 == Plugin::Python(PythonPlugin));
            assert(p[3].0@ == "typescript"@ && p[3].1 == Plugin::TypeScript(TypeScriptPlugin));
            assert(m.len() == 5);
            assert(m[0].0@ == "go"@ && m[0].1@ == "go"@);
            assert(m[1].0@ == "rs"@ && m[1].1@ == "rust"@);
            assert(m[2].0@ == "py"@ && m[2].1@ == "python"@);
            assert(m[3].0@ == "ts"@ && m[3].1@ == "typescript"@);
            assert(m[4].0@ == "tsx"@ && m[4].1@ == "typescript"@);
            assert forall|k: Seq<char>| #[trigger] spec_plugin_lookup(p, k)
                == spec_default_plugin(k) by {
                reveal_with_fuel(spec_plugin_lookup, 6);
                assert(p.skip(1)[0] == p[1]);
                assert(p.skip(1).skip(1) =~= p.skip(2));
                assert(p.skip(2)[0] == p[2]);
                assert(p.skip(2).skip(1) =~= p.skip(3));
                assert(p.skip(3)[0] == p[3]);
                assert(p.skip(3).skip(1) =~= p.skip(4));
                assert(p.skip(4) =~= Seq::<(String, Plugin)>::empty());
            }
            assert forall|k: Seq<char>| #[trigger] spec_ext_lookup(m, k) == spec_default_ext(
                k,
            ) by {
                reveal_with_fuel(spec_ext_lookup, 7);
                assert(m.skip(1)[0] == m[1]);
                assert(m.skip(1).skip(1) =~= m.skip(2));
                assert(m.skip(2)[0] == m[2]);
                assert(m.skip(2).skip(1) =~= m.skip(3));
                assert(m.skip(3)[0] == m[3]);
                assert(m.skip(3).skip(1) =~= m.skip(4));
                assert(m.skip(4)[0] == m[4]);
                assert(m.skip(4).skip(1) =~= m.skip(5));
                assert(m.skip(5) =~= Seq::<(String, String)>::empty());
            }
        }
        registry
    }

    /// Registers a module: its name and every extension it claims go to
    /// the front of the tables, shadowing earlier registrations.
    pub fn register(&mut self, plugin: Plugin)
        ensures
            forall|k: Seq<char>| #[trigger] spec_plugin_lookup(final(self).plugins@, k) == (
            if k == plugin.spec_name() {
                Some(plugin)
            } else {
                spec_plugin_lookup(old(self).plugins@, k)
            }),
            forall|k: Seq<char>| #[trigger] spec_ext_lookup(final(self).ext_map@, k) == (
            if plugin.spec_extensions().contains(k) {
                Some(plugin.spec_name())
            } else {
                spec_ext_lookup(old(self).ext_map@, k)
            }),
    {
        let name = plugin.name();
        let exts = plugin.extensions();
        let ghost ext_views = plugin.spec_extensions();
        let mut k: usize = 0;
        while k < exts.len()
            invariant
                exts.deep_view() == ext_views,
                exts.deep_view().len() == exts@.len(),
                k <= exts@.len(),
                name@ == plugin.spec_name(),
                forall|key: Seq<char>| #[trigger] spec_ext_lookup(self.ext_map@, key) == (
                if ext_views.take(k as int).contains(key) {
                    Some(plugin.spec_name())
                } else {
                    spec_ext_lookup(old(self).ext_map@, key)
                }),
                self.plugins@ == old(self).plugins@,
            decreases exts@.len() - k,
        {
            let ghost before = self.ext_map@;
            let entry = (exts[k].to_owned(), name.to_owned());
            proof {
                assert(entry.0@ == ext_views[k as int]) by {
                    assert(exts.deep_view()[k as int] == exts@[k as int]@);
                }
            }
            self.ext_map.insert(0, entry);
            proof {
                assert(self.ext_map@.skip(1) =~= before);
                assert forall|key: Seq<char>| #[trigger] spec_ext_lookup(self.ext_map@, key)
                    == (if ext_views.take(k + 1 as int).contains(key) {
                    Some(plugin.spec_name())
                } else {
                    spec_ext_lookup(old(self).ext_map@, key)
                }) by {
                    if key == ext_views[k as int] {
                        assert(ext_views.take(k + 1 as int)[k as int] == key);
                        assert(ext_views.take(k + 1 as int).contains(key));
                    } else {
                        assert(spec_ext_lookup(self.ext_map@, key) == spec_ext_lookup(
                            before,
                            key,
                        ));
                        assert forall|j: int|
                            0 <= j < k + 1 && #[trigger] ext_views.take(k + 1 as int)[j]
                                == key implies j < k by {}
                        assert(ext_views.take(k + 1 as int).contains(key)
                            <==> ext_views.take(k as int).contains(key)) by {
                            if ext_views.take(k as int).contains(key) {
                                let j = choose|j: int|
                                    0 <= j < k && #[trigger] ext_views.take(k as int)[j]
                                        == key;
                                assert(ext_views.take(k + 1 as int)[j] == key);
                            }
                            if ext_views.take(k + 1 as int).contains(key) {
                                let j = choose|j: int|
                                    0 <= j < k + 1 && #[trigger] ext_views.take(
                                        k + 1 as int,
                                    )[j] == key;
                                if j < k {
                                    assert(ext_views.take(k as int)[j] == key);
                                }
                            }
                        }
                    }
                }
            }
            k = k + 1;
        }
        proof {
            assert(ext_views.take(ext_views.len() as int) =~= ext_views);
        }
        let ghost before_p = self.plugins@;
        self.plugins.insert(0, (name.to_owned(), plugin));
        proof {
            assert(self.plugins@.skip(1) =~= before_p);
        }
    }

    /// The module registered under `name`.
    pub fn get(&self, name: &str) -> (r: Option<Plugin>)
        ensures
            r == spec_plugin_lookup(self.plugins@, name@),
    {
        proof {
            assert(self.plugins@.skip(0) =~= self.plugins@);
        }
        let mut k: usize = 0;
        while k < self.plugins.len()
            invariant
                k <= self.plugins@.len(),
                spec_plugin_lookup(self.plugins@, name@) == spec_plugin_lookup(
                    self.plugins@.skip(k as int),
                    name@,
                ),
            decreases self.plugins@.len() - k,
        {
            proof {
                assert(self.plugins@.skip(k as int)[0] == self.plugins@[k as int]);
                assert(self.plugins@.skip(k as int).skip(1) =~= self.plugins@.skip(
                    k + 1 as int,
                ));
            }
            if crate::strutil::str_eq(self.plugins[k].0.as_str(), name) {
                return Some(self.plugins[k].1);
            }
            k = k + 1;
        }
        proof {
            assert(self.plugins@.skip(self.plugins@.len() as int) =~= Seq::<(
                String,
                Plugin,
            )>::empty());
        }
        None
    }

    /// The module name registered for extension `ext`.
    fn get_ext(&self, ext: &Vec<char>) -> (r: Option<String>)
        ensures
            r.deep_view() == spec_ext_lookup(self.ext_map@, ext@),
    {
        proof {
            assert(self.ext_map@.skip(0) =~= self.ext_map@);
        }
        let mut k: usize = 0;
        while k < self.ext_map.len()
            invariant
                k <= self.ext_map@.len(),
                spec_ext_lookup(self.ext_map@, ext@) == spec_ext_lookup(
                    self.ext_map@.skip(k as int),
                    ext@,
                ),
            decreases self.ext_map@.len() - k,
        {
            proof {
                assert(self.ext_map@.skip(k as int)[0] == self.ext_map@[k as int]);
                assert(self.ext_map@.skip(k as int).skip(1) =~= self.ext_map@.skip(
                    k + 1 as int,
                ));
            }
            let kc = to_chars(self.ext_map[k].0.as_str());
            if chars_eq(&kc, ext) {
                return Some(self.ext_map[k].1.clone());
            }
            k = k + 1;
        }
        proof {
            assert(self.ext_map@.skip(self.ext_map@.len() as int) =~= Seq::<(
                String,
                String,
            )>::empty());
        }
        None
    }

    /// The module that handles the given file path, selected by its
    /// extension; a path no module claims is simply not handled.
    pub fn get_for_file(&self, path: &str) -> (r: Option<Plugin>)
        ensures
            r == spec_get_for_file(*self, path@),
    {
        let v = to_chars(path);
        let ext = match extension_chars(&v) {
            None => {
                return None;
            },
            Some(e) => e,
        };
        proof {
            broadcast use crate::strutil::lemma_chars_deep_view;

        }
        let name = match self.get_ext(&ext) {
            None => {
                return None;
            },
            Some(n) => n,
        };
        self.get(name.as_str())
    }

    /// All registered module names, most recent first.
    pub fn names(&self) -> (r: Vec<String>)
        ensures
            r@.len() == self.plugins@.len(),
            forall|j: int| 0 <= j < r@.len() ==> r@[j]@ == #[trigger] self.plugins@[j].0@,
    {
        let mut r: Vec<String> = Vec::new();
        let mut k: usize = 0;
        while k < self.plugins.len()
            invariant
                k <= self.plugins@.len(),
                r@.len() == k,
                forall|j: int| 0 <= j < k ==> r@[j]@ == #[trigger] self.plugins@[j].0@,
            decreases self.plugins@.len() - k,
        {
            r.push(self.plugins[k].0.clone());
            k = k + 1;
        }
        r
    }

    /// Whether any registered module handles the path.
    pub fn can_handle(&self, path: &str) -> (r: bool)
        ensures
            r == (spec_get_for_file(*self, path@) is Some),
    {
        self.get_for_file(path).is_some()
    }

    /// All registered extensions, most recent first.
    pub fn extensions(&self) -> (r: Vec<String>)
        ensures
            r@.len() == self.ext_map@.len(),
            forall|j: int| 0 <= j < r@.len() ==> r@[j]@ == #[trigger] self.ext_map@[j].0@,
    {
        let mut r: Vec<String> = Vec::new();
        let mut k: usize = 0;
        while k < self.ext_map.len()
            invariant
                k <= self.ext_map@.len(),
                r@.len() == k,
                forall|j: int| 0 <= j < k ==> r@[j]@ == #[trigger] self.ext_map@[j].0@,
            decreases self.ext_map@.len() - k,
        {
            r.push(self.ext_map[k].0.clone());
            k = k + 1;
        }
        r
    }
}

impl Default for PluginRegistry {
    fn default() -> (r: Self)
        ensures
            registry_is_default(r),
            registry_tables_default(r),
    {
        Self::new()
    }
}

} // verus!
