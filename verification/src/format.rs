//! The on-disk formats a spec file can take.

use vstd::prelude::*;

use crate::strutil::{eq_ignore_ascii_case, spec_eq_ignore_ascii_case, to_chars};

verus! {

/// Output format for spec files.
#[derive(Debug, Clone, Copy, PartialEq, Eq, Structural)]
pub enum OutputFormat {
    Yaml,
    Json,
}

/// The file extension of a format.
pub open spec fn spec_format_extension(f: OutputFormat) -> Seq<char> {
    match f {
        OutputFormat::Yaml => "yaml"@,
        OutputFormat::Json => "json"@,
    }
}

/// The format a name selects, up to ASCII case: `yaml` and `yml` are
/// YAML, `json` is JSON, anything else nothing.
pub open spec fn spec_format_from(s: Seq<char>) -> Option<OutputFormat> {
    if spec_eq_ignore_ascii_case(s, "yaml"@) || spec_eq_ignore_ascii_case(s, "yml"@) {
        Some(OutputFormat::Yaml)
    } else if spec_eq_ignore_ascii_case(s, "json"@) {
        Some(OutputFormat::Json)
    } else {
        None
    }
}

impl OutputFormat {
    /// The file extension this format uses.
    pub fn extension(&self) -> (r: &'static str)
        ensures
            r@ == spec_format_extension(*self),
    {
        match self {
            OutputFormat::Yaml => "yaml",
            OutputFormat::Json => "json",
        }
    }

    /// The format named by `s`, compared without regard to ASCII case.
    pub fn from_str(s: &str) -> (r: Option<OutputFormat>)
        ensures
            r == spec_format_from(s@),
    {
        let v = to_chars(s);
        let yaml = to_chars("yaml");
        let yml = to_chars("yml");
        let json = to_chars("json");
        if eq_ignore_ascii_case(&v, &yaml) || eq_ignore_ascii_case(&v, &yml) {
            Some(OutputFormat::Yaml)
        } else if eq_ignore_ascii_case(&v, &json) {
            Some(OutputFormat::Json)
        } else {
            None
        }
    }
}

impl Default for OutputFormat {
    fn default() -> (r: Self)
        ensures
            r == OutputFormat::Yaml,
    {
        OutputFormat::Yaml
    }
}

} // verus!
