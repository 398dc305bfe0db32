//! Extraction orchestration: select a module for a path, run it, and
//! name output files; per-file failures never spread.

use vstd::prelude::*;
use vstd::string::StringExecFns;

use crate::format::{spec_format_extension, OutputFormat};
use crate::paths::{spec_extension, spec_file_stem};
use crate::plugins::{spec_get_for_file, LanguagePlugin, PluginRegistry};
use crate::records::{ExtractError, FileSpec};
use crate::strutil::{contains_seq, spec_contains_seq, to_chars};

verus! {

/// Extracts the record for one source file, without touching any file:
/// a path no module claims is skipped with `None`; a parse failure is
/// the only error, and it concerns this file alone.
pub fn extract_spec(source: &str, path: &str, registry: &PluginRegistry) -> (r: Result<
    Option<FileSpec>,
    ExtractError,
>)
    ensures
        match spec_get_for_file(*registry, path@) {
            None => r == Result::<Option<FileSpec>, ExtractError>::Ok(
                Option::<FileSpec>::None,
            ),
            Some(p) => match r {
                Ok(Some(record)) => p.spec_extract(source@, path@) == Some(record.deep_view()),
                Ok(None) => false,
                Err(e) => p.spec_extract(source@, path@) is None && e
                    == ExtractError::ParseFailure,
            },
        },
{
    let plugin = match registry.get_for_file(path) {
        None => {
            return Ok(None);
        },
        Some(p) => p,
    };
    match plugin.extract(source, path) {
        Ok(record) => Ok(Some(record)),
        Err(e) => Err(e),
    }
}

/// The output file name for a source file: stem, source extension and
/// format extension joined by dots, under the output directory.
pub open spec fn spec_output_path(
    source_path: Seq<char>,
    output_dir: Seq<char>,
    format: OutputFormat,
) -> Seq<char> {
    let stem = match spec_file_stem(source_path) {
        Some(s) => s,
        None => "unknown"@,
    };
    let ext = match spec_extension(source_path) {
        Some(e) => e,
        None => Seq::empty(),
    };
    let name = stem + "."@ + ext + "."@ + spec_format_extension(format);
    if output_dir.len() == 0 {
        name
    } else if output_dir[output_dir.len() - 1] == '/' {
        output_dir + name
    } else {
        output_dir + "/"@ + name
    }
}

/// Where the spec of a source file is written: its stem, its extension
/// and the format's extension joined by dots, inside `output_dir`.
pub fn get_output_path(source_path: &str, output_dir: &str, format: OutputFormat) -> (r:
    String)
    ensures
        r@ == spec_output_path(source_path@, output_dir@, format),
{
    let v = to_chars(source_path);
    let stem = match crate::paths::file_stem_chars(&v) {
        Some(s) => crate::strutil::from_chars(&s),
        None => "unknown".to_owned(),
    };
    let ext = match crate::paths::extension_chars(&v) {
        Some(e) => crate::strutil::from_chars(&e),
        None => String::new(),
    };
    proof {
        broadcast use crate::strutil::lemma_chars_deep_view;

    }
    let mut name = stem;
    name.append(".");
    name.append(ext.as_str());
    name.append(".");
    name.append(format.extension());
    let dv = to_chars(output_dir);
    if dv.len() == 0 {
        name
    } else if dv[dv.len() - 1] == '/' {
        let mut out = output_dir.to_owned();
        out.append(name.as_str());
        out
    } else {
        let mut out = output_dir.to_owned();
        out.append("/");
        out.append(name.as_str());
        out
    }
}

/// The directory names whose contents a directory walk leaves out.
pub open spec fn spec_skip_names() -> Seq<Seq<char>> {
    seq![
        "node_modules"@,
        "vendor"@,
        "target"@,
        "dist"@,
        "build"@,
        "__pycache__"@,
        ".git"@,
        ".svn"@,
        ".hg"@,
    ]
}

/// A hidden path component begins at `i`: a dot right after a
/// separator (or at the start) that is not the `.` or `..` component.
pub open spec fn hidden_component_at(path: Seq<char>, i: int) -> bool {
    &&& 0 <= i < path.len()
    &&& (i == 0 || path[i - 1] == '/')
    &&& path[i] == '.'
    &&& !(i + 1 == path.len() || path[i + 1] == '/')
    &&& !(i + 1 < path.len() && path[i + 1] == '.' && (i + 2 == path.len() || path[i + 2]
        == '/'))
}

/// A skipped directory name occurs in the path between separators of
/// either convention.
pub open spec fn has_skip_name(path: Seq<char>, name: Seq<char>) -> bool {
    spec_contains_seq(path, "/"@ + name + "/"@) || spec_contains_seq(
        path,
        "\\"@ + name + "\\"@,
    )
}

/// Whether a directory walk leaves this path out: it has a hidden
/// component, or it passes through one of the well-known non-source
/// directories.
pub open spec fn spec_should_skip(path: Seq<char>) -> bool {
    (exists|i: int| hidden_component_at(path, i)) || (exists|j: int|
        0 <= j < spec_skip_names().len() && has_skip_name(path, #[trigger] spec_skip_names()[j]))
}

/// Whether a directory walk leaves this path out.
pub fn should_skip_path(path: &str) -> (r: bool)
    ensures
        r == spec_should_skip(path@),
{
    let v = to_chars(path);
    let n = v.len();
    // hidden components
    let mut i: usize = 0;
    while i < n
        invariant
            n == v@.len(),
            v@ == path@,
            i <= n,
            forall|x: int| 0 <= x < i ==> !hidden_component_at(v@, x),
        decreases n - i,
    {
        if (i == 0 || v[i - 1] == '/') && v[i] == '.' {
            let one_dot = i + 1 == n || v[i + 1] == '/';
            let two_dot = i + 1 < n && v[i + 1] == '.' && (i + 2 == n || v[i + 2] == '/');
            if !one_dot && !two_dot {
                proof {
                    assert(hidden_component_at(v@, i as int));
                    assert(hidden_component_at(path@, i as int));
                }
                return true;
            }
        }
        i = i + 1;
    }
    // well-known directory names
    let names: Vec<&'static str> = skip_names();
    let mut j: usize = 0;
    while j < names.len()
        invariant
            names.deep_view() == spec_skip_names(),
            names.deep_view().len() == names@.len(),
            j <= names@.len(),
            v@ == path@,
            forall|x: int| 0 <= x < j ==> !has_skip_name(path@, #[trigger] spec_skip_names()[x]),
            forall|x: int| !hidden_component_at(path@, x),
        decreases names@.len() - j,
    {
        let mut fwd = "/".to_owned();
        fwd.append(names[j]);
        fwd.append("/");
        let mut bwd = "\\".to_owned();
        bwd.append(names[j]);
        bwd.append("\\");
        let fv = to_chars(fwd.as_str());
        let bv = to_chars(bwd.as_str());
        proof {
            assert(names.deep_view()[j as int] == names@[j as int]@);
        }
        if contains_seq(&v, &fv) || contains_seq(&v, &bv) {
            proof {
                assert(has_skip_name(path@, spec_skip_names()[j as int]));
            }
            return true;
        }
        j = j + 1;
    }
    false
}

/// The directory names a walk leaves out.
fn skip_names() -> (r: Vec<&'static str>)
    ensures
        r.deep_view() == spec_skip_names(),
{
    let mut r: Vec<&'static str> = Vec::new();
    r.push("node_modules");
    r.push("vendor");
    r.push("target");
    r.push("dist");
    r.push("build");
    r.push("__pycache__");
    r.push(".git");
    r.push(".svn");
    r.push(".hg");
    proof {
        assert(r.deep_view() =~~= spec_skip_names());
    }
    r
}

} // verus!
