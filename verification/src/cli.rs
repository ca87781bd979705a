use vstd::prelude::*;

verus! {

/// The four layers of the specification graph, as named on the command line.
#[derive(Debug, Clone, Copy, PartialEq, Eq, Structural)]
pub enum LookupKind {
    Philosophy,
    Policy,
    Requirement,
    Feature,
}

pub open spec fn lookup_kind_label_spec(kind: LookupKind) -> Seq<char> {
    match kind {
        LookupKind::Philosophy => "philosophy"@,
        LookupKind::Policy => "policy"@,
        LookupKind::Requirement => "requirement"@,
        LookupKind::Feature => "feature"@,
    }
}

impl LookupKind {
    /// The lower-case layer name used in messages and commands.
    pub fn label(self) -> (res: &'static str)
        ensures
            res@ == lookup_kind_label_spec(self),
    {
        match self {
            LookupKind::Philosophy => "philosophy",
            LookupKind::Policy => "policy",
            LookupKind::Requirement => "requirement",
            LookupKind::Feature => "feature",
        }
    }
}

/// Which traced paths `syu log` follows.
#[derive(Debug, Clone, Copy, PartialEq, Eq, Structural)]
pub enum HistoryKind {
    All,
    Definition,
    Test,
    Implementation,
}

pub open spec fn history_kind_label_spec(kind: HistoryKind) -> Seq<char> {
    match kind {
        HistoryKind::All => "all"@,
        HistoryKind::Definition => "definition"@,
        HistoryKind::Test => "test"@,
        HistoryKind::Implementation => "implementation"@,
    }
}

impl HistoryKind {
    pub fn label(self) -> (res: &'static str)
        ensures
            res@ == history_kind_label_spec(self),
    {
        match self {
            HistoryKind::All => "all",
            HistoryKind::Definition => "definition",
            HistoryKind::Test => "test",
            HistoryKind::Implementation => "implementation",
        }
    }
}

/// The starter layouts of `syu init`.
#[derive(Debug, Clone, Copy, PartialEq, Eq, Structural)]
pub enum StarterTemplate {
    Generic,
    DocsFirst,
    RustOnly,
    PythonOnly,
    RubyOnly,
    GoOnly,
    JavaOnly,
    TypeScriptOnly,
    Polyglot,
}

pub open spec fn starter_template_label_spec(t: StarterTemplate) -> Seq<char> {
    match t {
        StarterTemplate::Generic => "generic"@,
        StarterTemplate::DocsFirst => "docs-first"@,
        StarterTemplate::RustOnly => "rust-only"@,
        StarterTemplate::PythonOnly => "python-only"@,
        StarterTemplate::RubyOnly => "ruby-only"@,
        StarterTemplate::GoOnly => "go-only"@,
        StarterTemplate::JavaOnly => "java-only"@,
        StarterTemplate::TypeScriptOnly => "typescript-only"@,
        StarterTemplate::Polyglot => "polyglot"@,
    }
}

impl StarterTemplate {
    pub fn label(self) -> (res: &'static str)
        ensures
            res@ == starter_template_label_spec(self),
    {
        match self {
            StarterTemplate::Generic => "generic",
            StarterTemplate::DocsFirst => "docs-first",
            StarterTemplate::RustOnly => "rust-only",
            StarterTemplate::PythonOnly => "python-only",
            StarterTemplate::RubyOnly => "ruby-only",
            StarterTemplate::GoOnly => "go-only",
            StarterTemplate::JavaOnly => "java-only",
            StarterTemplate::TypeScriptOnly => "typescript-only",
            StarterTemplate::Polyglot => "polyglot",
        }
    }

    /// The template chosen when none is given.
    pub fn default_template() -> (res: StarterTemplate)
        ensures
            res == StarterTemplate::Generic,
    {
        StarterTemplate::Generic
    }
}

#[derive(Debug, Clone, Copy, PartialEq, Eq, Structural)]
pub enum OutputFormat {
    Text,
    Json,
}

#[derive(Debug, Clone, Copy, PartialEq, Eq, PartialOrd, Ord, Structural)]
pub enum ValidationSeverityFilter {
    Error,
    Warning,
}

pub open spec fn severity_filter_spec(f: ValidationSeverityFilter) -> Seq<char> {
    match f {
        ValidationSeverityFilter::Error => "error"@,
        ValidationSeverityFilter::Warning => "warning"@,
    }
}

impl ValidationSeverityFilter {
    pub fn as_str(self) -> (res: &'static str)
        ensures
            res@ == severity_filter_spec(self),
    {
        match self {
            ValidationSeverityFilter::Error => "error",
            ValidationSeverityFilter::Warning => "warning",
        }
    }
}

#[derive(Debug, Clone, Copy, PartialEq, Eq, PartialOrd, Ord, Structural)]
pub enum ValidationGenreFilter {
    Workspace,
    Graph,
    Delivery,
    Trace,
    Coverage,
}

pub open spec fn genre_filter_spec(f: ValidationGenreFilter) -> Seq<char> {
    match f {
        ValidationGenreFilter::Workspace => "workspace"@,
        ValidationGenreFilter::Graph => "graph"@,
        ValidationGenreFilter::Delivery => "delivery"@,
        ValidationGenreFilter::Trace => "trace"@,
        ValidationGenreFilter::Coverage => "coverage"@,
    }
}

impl ValidationGenreFilter {
    pub fn as_str(self) -> (res: &'static str)
        ensures
            res@ == genre_filter_spec(self),
    {
        match self {
            ValidationGenreFilter::Workspace => "workspace",
            ValidationGenreFilter::Graph => "graph",
            ValidationGenreFilter::Delivery => "delivery",
            ValidationGenreFilter::Trace => "trace",
            ValidationGenreFilter::Coverage => "coverage",
        }
    }
}

/// `syu browse`.
#[derive(Debug)]
pub struct BrowseArgs {
    pub workspace: String,
    pub non_interactive: bool,
    pub format: OutputFormat,
}

impl BrowseArgs {
    /// The current directory, interactive, text output.
    pub fn default_args() -> (res: BrowseArgs)
        ensures
            res.workspace@ == "."@,
            !res.non_interactive,
            res.format == OutputFormat::Text,
    {
        BrowseArgs { workspace: String::from_str("."), non_interactive: false, format: OutputFormat::Text }
    }
}

/// `syu list`.
#[derive(Debug)]
pub struct ListArgs {
    pub positional: Vec<String>,
    pub format: OutputFormat,
    pub with_path: bool,
}

/// `syu show`.
#[derive(Debug)]
pub struct ShowArgs {
    pub id: String,
    pub workspace: String,
    pub format: OutputFormat,
}

/// `syu search`.
#[derive(Debug)]
pub struct SearchArgs {
    pub query: String,
    pub workspace: String,
    pub kind: Option<LookupKind>,
    pub format: OutputFormat,
}

/// `syu audit`.
#[derive(Debug)]
pub struct AuditArgs {
    pub workspace: String,
    pub format: OutputFormat,
}

/// `syu log`.
#[derive(Debug)]
pub struct LogArgs {
    pub id: String,
    pub workspace: String,
    pub kind: HistoryKind,
    pub path: Option<String>,
    pub include_related: bool,
    pub merge_base_ref: Option<String>,
    pub range: Option<String>,
    pub limit: usize,
    pub format: OutputFormat,
}

/// `syu trace`.
#[derive(Debug)]
pub struct TraceArgs {
    pub file: Option<String>,
    pub workspace: String,
    pub symbol: Option<String>,
    pub range: Option<String>,
    pub format: OutputFormat,
}

/// `syu explain`.
#[derive(Debug)]
pub struct ExplainArgs {
    pub selector: String,
    pub workspace: String,
    pub format: OutputFormat,
}

/// `syu relate`.
#[derive(Debug)]
pub struct RelateArgs {
    pub selector: Option<String>,
    pub workspace: String,
    pub range: Option<String>,
    pub format: OutputFormat,
}

/// `syu app`.
#[derive(Debug)]
pub struct AppArgs {
    pub workspace: String,
    pub bind: Option<String>,
    pub port: Option<u16>,
    pub allow_remote: bool,
}

/// `syu doctor`.
#[derive(Debug)]
pub struct DoctorArgs {
    pub workspace: String,
    pub format: OutputFormat,
}

/// `syu validate` (also `syu check`).
#[derive(Debug)]
pub struct ValidateArgs {
    pub workspace: String,
    pub format: OutputFormat,
    pub severity: Vec<ValidationSeverityFilter>,
    pub genre: Vec<ValidationGenreFilter>,
    pub rule: Vec<String>,
    pub id: Vec<String>,
    pub spec_only: bool,
    pub fix: bool,
    pub no_fix: bool,
    pub allow_planned: Option<bool>,
    pub require_non_orphaned_items: Option<bool>,
    pub require_reciprocal_links: Option<bool>,
    pub require_symbol_trace_coverage: Option<bool>,
    pub warning_exit_code: Option<u8>,
    pub quiet: bool,
}

pub type CheckArgs = ValidateArgs;

/// `syu report`.
#[derive(Debug)]
pub struct ReportArgs {
    pub workspace: String,
    pub output: Option<String>,
}

/// `syu init`.
#[derive(Debug)]
pub struct InitArgs {
    pub workspace: String,
    pub interactive: bool,
    pub name: Option<String>,
    pub spec_root: Option<String>,
    pub template: StarterTemplate,
    pub id_prefix: Option<String>,
    pub philosophy_prefix: Option<String>,
    pub policy_prefix: Option<String>,
    pub requirement_prefix: Option<String>,
    pub feature_prefix: Option<String>,
    pub force: bool,
    pub format: OutputFormat,
}

/// `syu templates`.
#[derive(Debug)]
pub struct TemplatesArgs {
    pub format: OutputFormat,
}

/// `syu add`.
#[derive(Debug)]
pub struct AddArgs {
    pub layer: LookupKind,
    pub id: Option<String>,
    pub workspace: String,
    pub interactive: bool,
    pub file: Option<String>,
    pub kind: Option<String>,
}

} // verus!
