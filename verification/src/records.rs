//! The shared intermediate schema: one record per extracted entity.
//!
//! Every record is a plain value with no back-references; a language module
//! builds them and hands them to the caller, which owns them exclusively.

use vstd::prelude::*;

verus! {

/// Mathematical image of a [`FuncSpec`].
#[verifier::ext_equal]
pub struct FuncSpecV {
    pub signature: Seq<char>,
    pub doc: Option<Seq<char>>,
    pub receiver: Option<Seq<char>>,
    pub uses: Seq<Seq<char>>,
    pub behavior: Option<BehaviorV>,
    pub tests: Option<TestLinkV>,
}

/// Mathematical image of a [`Behavior`].
#[verifier::ext_equal]
pub struct BehaviorV {
    pub preconditions: Seq<Seq<char>>,
    pub postconditions: Seq<Seq<char>>,
    pub errors: Seq<Seq<char>>,
    pub side_effects: Seq<Seq<char>>,
}

/// Mathematical image of a [`TestLink`].
#[verifier::ext_equal]
pub struct TestLinkV {
    pub function: Seq<char>,
    pub file: Option<Seq<char>>,
}

/// Mathematical image of a [`TypeSpec`].
#[verifier::ext_equal]
pub struct TypeSpecV {
    pub name: Seq<char>,
    pub doc: Option<Seq<char>>,
    pub kind: Seq<char>,
    pub fields: Seq<Seq<char>>,
    pub methods: Seq<Seq<char>>,
    pub embeds: Seq<Seq<char>>,
    pub implements: Option<Seq<char>>,
    pub implemented_by: Seq<Seq<char>>,
    pub type_params: Seq<Seq<char>>,
    pub variants: Seq<Seq<char>>,
}

/// Mathematical image of a [`ConstSpec`].
#[verifier::ext_equal]
pub struct ConstSpecV {
    pub name: Seq<char>,
    pub ty_name: Option<Seq<char>>,
    pub value: Option<Seq<char>>,
    pub doc: Option<Seq<char>>,
}

/// Mathematical image of a [`VarSpec`].
#[verifier::ext_equal]
pub struct VarSpecV {
    pub name: Seq<char>,
    pub ty_name: Option<Seq<char>>,
    pub doc: Option<Seq<char>>,
}

/// Mathematical image of an [`ErrorSpec`].
#[verifier::ext_equal]
pub struct ErrorSpecV {
    pub name: Seq<char>,
    pub message: Option<Seq<char>>,
    pub doc: Option<Seq<char>>,
}

/// Mathematical image of a [`FileSpec`].
#[verifier::ext_equal]
pub struct FileSpecV {
    pub file: Seq<char>,
    pub package: Seq<char>,
    pub imports: Seq<Seq<char>>,
    pub types: Seq<TypeSpecV>,
    pub functions: Seq<FuncSpecV>,
    pub methods: Seq<FuncSpecV>,
    pub constants: Seq<ConstSpecV>,
    pub variables: Seq<VarSpecV>,
    pub errors: Seq<ErrorSpecV>,
}

/// A function or method: one formatted signature plus optional context.
///
/// `receiver` is `Some` exactly for records discovered as methods.
#[derive(Debug, PartialEq, Eq, Clone)]
pub struct FuncSpec {
    pub signature: String,
    pub doc: Option<String>,
    pub receiver: Option<String>,
    pub uses: Vec<String>,
    pub behavior: Option<Behavior>,
    pub tests: Option<TestLink>,
}

/// Behavioral clauses mined from documentation text.
#[derive(Debug, PartialEq, Eq, Clone)]
pub struct Behavior {
    pub preconditions: Vec<String>,
    pub postconditions: Vec<String>,
    pub errors: Vec<String>,
    pub side_effects: Vec<String>,
}

/// Link to a related test function.
#[derive(Debug, PartialEq, Eq, Clone)]
pub struct TestLink {
    pub function: String,
    pub file: Option<String>,
}

/// A type definition (struct, interface, class, trait, enum, type alias).
///
/// `kind` holds exactly one of the six kind tags; `fields` and `variants`
/// are never both populated by the extractors.
#[derive(Debug, PartialEq, Eq, Clone)]
pub struct TypeSpec {
    pub name: String,
    pub doc: Option<String>,
    pub kind: String,
    pub fields: Vec<String>,
    pub methods: Vec<String>,
    pub embeds: Vec<String>,
    pub implements: Option<String>,
    pub implemented_by: Vec<String>,
    pub type_params: Vec<String>,
    pub variants: Vec<String>,
}

/// A constant definition; `value` is kept when the initializer is visible.
#[derive(Debug, PartialEq, Eq, Clone)]
pub struct ConstSpec {
    pub name: String,
    pub ty_name: Option<String>,
    pub value: Option<String>,
    pub doc: Option<String>,
}

/// A variable definition; mutable bindings never carry a literal value.
#[derive(Debug, PartialEq, Eq, Clone)]
pub struct VarSpec {
    pub name: String,
    pub ty_name: Option<String>,
    pub doc: Option<String>,
}

/// A named-error definition, for languages with that convention.
#[derive(Debug, PartialEq, Eq, Clone)]
pub struct ErrorSpec {
    pub name: String,
    pub message: Option<String>,
    pub doc: Option<String>,
}

/// Everything extracted from one source file.
#[derive(Debug, PartialEq, Eq, Clone)]
pub struct FileSpec {
    pub file: String,
    pub package: String,
    pub imports: Vec<String>,
    pub types: Vec<TypeSpec>,
    pub functions: Vec<FuncSpec>,
    pub methods: Vec<FuncSpec>,
    pub constants: Vec<ConstSpec>,
    pub variables: Vec<VarSpec>,
    pub errors: Vec<ErrorSpec>,
}

impl DeepView for FuncSpec {
    type V = FuncSpecV;

    open spec fn deep_view(&self) -> FuncSpecV {
        FuncSpecV {
            signature: self.signature.deep_view(),
            doc: self.doc.deep_view(),
            receiver: self.receiver.deep_view(),
            uses: self.uses.deep_view(),
            behavior: self.behavior.deep_view(),
            tests: self.tests.deep_view(),
        }
    }
}

impl DeepView for Behavior {
    type V = BehaviorV;

    open spec fn deep_view(&self) -> BehaviorV {
        BehaviorV {
            preconditions: self.preconditions.deep_view(),
            postconditions: self.postconditions.deep_view(),
            errors: self.errors.deep_view(),
            side_effects: self.side_effects.deep_view(),
        }
    }
}

impl DeepView for TestLink {
    type V = TestLinkV;

    open spec fn deep_view(&self) -> TestLinkV {
        TestLinkV { function: self.function.deep_view(), file: self.file.deep_view() }
    }
}

impl DeepView for TypeSpec {
    type V = TypeSpecV;

    open spec fn deep_view(&self) -> TypeSpecV {
        TypeSpecV {
            name: self.name.deep_view(),
            doc: self.doc.deep_view(),
            kind: self.kind.deep_view(),
            fields: self.fields.deep_view(),
            methods: self.methods.deep_view(),
            embeds: self.embeds.deep_view(),
            implements: self.implements.deep_view(),
            implemented_by: self.implemented_by.deep_view(),
            type_params: self.type_params.deep_view(),
            variants: self.variants.deep_view(),
        }
    }
}

impl DeepView for ConstSpec {
    type V = ConstSpecV;

    open spec fn deep_view(&self) -> ConstSpecV {
        ConstSpecV {
            name: self.name.deep_view(),
            ty_name: self.ty_name.deep_view(),
            value: self.value.deep_view(),
            doc: self.doc.deep_view(),
        }
    }
}

impl DeepView for VarSpec {
    type V = VarSpecV;

    open spec fn deep_view(&self) -> VarSpecV {
        VarSpecV {
            name: self.name.deep_view(),
            ty_name: self.ty_name.deep_view(),
            doc: self.doc.deep_view(),
        }
    }
}

impl DeepView for ErrorSpec {
    type V = ErrorSpecV;

    open spec fn deep_view(&self) -> ErrorSpecV {
        ErrorSpecV {
            name: self.name.deep_view(),
            message: self.message.deep_view(),
            doc: self.doc.deep_view(),
        }
    }
}

impl DeepView for FileSpec {
    type V = FileSpecV;

    open spec fn deep_view(&self) -> FileSpecV {
        FileSpecV {
            file: self.file.deep_view(),
            package: self.package.deep_view(),
            imports: self.imports.deep_view(),
            types: self.types.deep_view(),
            functions: self.functions.deep_view(),
            methods: self.methods.deep_view(),
            constants: self.constants.deep_view(),
            variables: self.variables.deep_view(),
            errors: self.errors.deep_view(),
        }
    }
}

/// The image of a [`FuncSpec`] that carries nothing at all.
pub open spec fn func_spec_empty() -> FuncSpecV {
    FuncSpecV {
        signature: Seq::empty(),
        doc: None,
        receiver: None,
        uses: Seq::empty(),
        behavior: None,
        tests: None,
    }
}

/// The image of a [`TypeSpec`] that carries nothing at all.
pub open spec fn type_spec_empty() -> TypeSpecV {
    TypeSpecV {
        name: Seq::empty(),
        doc: None,
        kind: Seq::empty(),
        fields: Seq::empty(),
        methods: Seq::empty(),
        embeds: Seq::empty(),
        implements: None,
        implemented_by: Seq::empty(),
        type_params: Seq::empty(),
        variants: Seq::empty(),
    }
}

/// The image of a [`FileSpec`] that carries nothing at all.
pub open spec fn file_spec_empty() -> FileSpecV {
    FileSpecV {
        file: Seq::empty(),
        package: Seq::empty(),
        imports: Seq::empty(),
        types: Seq::empty(),
        functions: Seq::empty(),
        methods: Seq::empty(),
        constants: Seq::empty(),
        variables: Seq::empty(),
        errors: Seq::empty(),
    }
}

impl Default for FuncSpec {
    fn default() -> (r: Self)
        ensures
            r.deep_view() == func_spec_empty(),
    {
        let r = FuncSpec {
            signature: String::new(),
            doc: None,
            receiver: None,
            uses: Vec::new(),
            behavior: None,
            tests: None,
        };
        proof {
            assert(r.deep_view() =~~= func_spec_empty());
        }
        r
    }
}

impl Default for TypeSpec {
    fn default() -> (r: Self)
        ensures
            r.deep_view() == type_spec_empty(),
    {
        let r = TypeSpec {
            name: String::new(),
            doc: None,
            kind: String::new(),
            fields: Vec::new(),
            methods: Vec::new(),
            embeds: Vec::new(),
            implements: None,
            implemented_by: Vec::new(),
            type_params: Vec::new(),
            variants: Vec::new(),
        };
        proof {
            assert(r.deep_view() =~~= type_spec_empty());
        }
        r
    }
}

impl Default for FileSpec {
    fn default() -> (r: Self)
        ensures
            r.deep_view() == file_spec_empty(),
    {
        let r = FileSpec {
            file: String::new(),
            package: String::new(),
            imports: Vec::new(),
            types: Vec::new(),
            functions: Vec::new(),
            methods: Vec::new(),
            constants: Vec::new(),
            variables: Vec::new(),
            errors: Vec::new(),
        };
        proof {
            assert(r.deep_view() =~~= file_spec_empty());
        }
        r
    }
}

/// Why an extraction call failed; partial extraction never produces one of
/// these — only the grammar failing to produce a tree at all does.
#[derive(Debug, PartialEq, Eq, Clone, Copy)]
pub enum ExtractError {
    /// The grammar could not produce a tree from the given text.
    ParseFailure,
}

/// One file of a whole-project extraction run.
#[derive(Debug, PartialEq, Eq, Clone)]
pub struct ExtractedSpec {
    pub project: String,
    pub root: String,
    pub extracted_at: Option<String>,
    pub files: Vec<FileSpec>,
}

/// Entry for a single file in a project index.
#[derive(Debug, PartialEq, Eq, Clone)]
pub struct FileEntry {
    pub spec: String,
    pub source: String,
    pub language: String,
}

/// Summary statistics over a project index.
///
/// `by_language` maps each language identifier to its file count; keys are
/// unique and kept in first-seen order.
#[derive(Debug, PartialEq, Eq, Clone)]
pub struct IndexStats {
    pub total_files: usize,
    pub total_types: usize,
    pub total_functions: usize,
    pub total_methods: usize,
    pub by_language: Vec<(String, usize)>,
}

/// Index of all spec files produced for one project.
#[derive(Debug, PartialEq, Eq, Clone)]
pub struct IndexSpec {
    pub project: String,
    pub root: String,
    pub files: Vec<FileEntry>,
    pub stats: Option<IndexStats>,
}

/// Mathematical image of a [`FileEntry`].
#[verifier::ext_equal]
pub struct FileEntryV {
    pub spec: Seq<char>,
    pub source: Seq<char>,
    pub language: Seq<char>,
}

impl DeepView for FileEntry {
    type V = FileEntryV;

    open spec fn deep_view(&self) -> FileEntryV {
        FileEntryV {
            spec: self.spec.deep_view(),
            source: self.source.deep_view(),
            language: self.language.deep_view(),
        }
    }
}

} // verus!
