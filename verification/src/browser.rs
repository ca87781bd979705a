use vstd::prelude::*;

use crate::model::{Feature, Philosophy, Policy, Requirement, TraceGroup, TraceReference};
use crate::order::{seq_order, str_order};
use crate::text::{ends_with, is_suffix, lemma_split_nonempty, split_char, split_seq, views};

verus! {

/// The four sections of a specification workspace, in browsing order.
#[derive(Debug, Clone, Copy, PartialEq, Eq, Structural)]
pub enum SectionKind {
    Philosophy,
    Policies,
    Features,
    Requirements,
}

pub open spec fn section_label_spec(kind: SectionKind) -> Seq<char> {
    match kind {
        SectionKind::Philosophy => "philosophy"@,
        SectionKind::Policies => "policies"@,
        SectionKind::Features => "features"@,
        SectionKind::Requirements => "requirements"@,
    }
}

impl SectionKind {
    /// The snake-case section name.
    pub fn label(self) -> (res: &'static str)
        ensures
            res@ == section_label_spec(self),
    {
        match self {
            SectionKind::Philosophy => "philosophy",
            SectionKind::Policies => "policies",
            SectionKind::Features => "features",
            SectionKind::Requirements => "requirements",
        }
    }
}

/// One YAML source document of a section, with its raw text.
#[derive(Debug, Clone)]
pub struct SourceDocument {
    pub section: SectionKind,
    pub path: String,
    pub content: String,
}

#[derive(Debug, Clone, Copy, PartialEq, Eq, Default, Structural)]
pub struct DefinitionCounts {
    pub philosophies: usize,
    pub policies: usize,
    pub requirements: usize,
    pub features: usize,
}

#[derive(Debug, Clone, Copy, PartialEq, Eq, Default, Structural)]
pub struct TraceCount {
    pub declared: usize,
    pub validated: usize,
}

#[derive(Debug, Clone, Copy, PartialEq, Eq, Default, Structural)]
pub struct TraceSummary {
    pub requirement_traces: TraceCount,
    pub feature_traces: TraceCount,
}

#[derive(Debug, Clone, Copy, PartialEq, Eq, Structural)]
pub enum Severity {
    Error,
    Warning,
}

/// One diagnostic of the validation engine.
#[derive(Debug)]
pub struct ValidationIssue {
    pub code: String,
    pub severity: Severity,
    pub subject: String,
    pub location: Option<String>,
    pub message: String,
    pub suggestion: Option<String>,
}

/// The validation engine's name for a diagnostic.
pub type Issue = ValidationIssue;

pub open spec fn opt_view(o: Option<String>) -> Option<Seq<char>> {
    match o {
        Some(s) => Some(s@),
        None => None,
    }
}

/// The mathematical content of a diagnostic.
pub struct IssueSpec {
    pub code: Seq<char>,
    pub severity: Severity,
    pub subject: Seq<char>,
    pub location: Option<Seq<char>>,
    pub message: Seq<char>,
    pub suggestion: Option<Seq<char>>,
}

impl View for ValidationIssue {
    type V = IssueSpec;

    open spec fn view(&self) -> IssueSpec {
        IssueSpec {
            code: self.code@,
            severity: self.severity,
            subject: self.subject@,
            location: opt_view(self.location),
            message: self.message@,
            suggestion: opt_view(self.suggestion),
        }
    }
}

pub open spec fn issue_views(v: Seq<ValidationIssue>) -> Seq<IssueSpec> {
    Seq::new(v.len(), |i: int| v[i]@)
}

pub fn clone_opt_string(o: &Option<String>) -> (res: Option<String>)
    ensures
        opt_view(res) == opt_view(*o),
{
    match o {
        Some(s) => Some(s.clone()),
        None => None,
    }
}

impl ValidationIssue {
    pub fn new(
        code: &str,
        severity: Severity,
        subject: String,
        location: Option<String>,
        message: String,
        suggestion: Option<String>,
    ) -> (res: ValidationIssue)
        ensures
            res@ == (IssueSpec {
                code: code@,
                severity,
                subject: subject@,
                location: opt_view(location),
                message: message@,
                suggestion: opt_view(suggestion),
            }),
    {
        ValidationIssue {
            code: String::from_str(code),
            severity,
            subject,
            location,
            message,
            suggestion,
        }
    }

    /// An error-level diagnostic.
    pub fn error(
        code: &str,
        subject: String,
        location: Option<String>,
        message: String,
        suggestion: Option<String>,
    ) -> (res: ValidationIssue)
        ensures
            res@ == (IssueSpec {
                code: code@,
                severity: Severity::Error,
                subject: subject@,
                location: opt_view(location),
                message: message@,
                suggestion: opt_view(suggestion),
            }),
    {
        Self::new(code, Severity::Error, subject, location, message, suggestion)
    }

    /// A warning-level diagnostic.
    pub fn warning(
        code: &str,
        subject: String,
        location: Option<String>,
        message: String,
        suggestion: Option<String>,
    ) -> (res: ValidationIssue)
        ensures
            res@ == (IssueSpec {
                code: code@,
                severity: Severity::Warning,
                subject: subject@,
                location: opt_view(location),
                message: message@,
                suggestion: opt_view(suggestion),
            }),
    {
        Self::new(code, Severity::Warning, subject, location, message, suggestion)
    }

    /// A copy with the same content.
    pub fn duplicate(&self) -> (res: ValidationIssue)
        ensures
            res@ == self@,
    {
        ValidationIssue {
            code: self.code.clone(),
            severity: self.severity,
            subject: self.subject.clone(),
            location: clone_opt_string(&self.location),
            message: self.message.clone(),
            suggestion: clone_opt_string(&self.suggestion),
        }
    }
}

/// One rule of the rule catalog that some diagnostic refers to.
#[derive(Debug)]
pub struct ReferencedRule {
    pub genre: String,
    pub code: String,
    pub severity: String,
    pub title: String,
    pub summary: String,
    pub description: String,
}

impl ReferencedRule {
    /// A copy with the same content.
    pub fn duplicate(&self) -> (res: ReferencedRule)
        ensures
            res.genre@ == self.genre@,
            res.code@ == self.code@,
            res.severity@ == self.severity@,
            res.title@ == self.title@,
            res.summary@ == self.summary@,
            res.description@ == self.description@,
    {
        ReferencedRule {
            genre: self.genre.clone(),
            code: self.code.clone(),
            severity: self.severity.clone(),
            title: self.title.clone(),
            summary: self.summary.clone(),
            description: self.description.clone(),
        }
    }
}

/// What the browser app shows of a validation run.
#[derive(Debug)]
pub struct ValidationSnapshot {
    pub definition_counts: DefinitionCounts,
    pub trace_summary: TraceSummary,
    pub issues: Vec<ValidationIssue>,
    pub referenced_rules: Vec<ReferencedRule>,
}

/// Everything the browser app needs: the raw sources and the validation state.
#[derive(Debug)]
pub struct AppPayload {
    pub workspace_root: String,
    pub spec_root: String,
    pub source_documents: Vec<SourceDocument>,
    pub validation: ValidationSnapshot,
}

// ---------------------------------------------------------------------------
// The browser's view of a workspace
// ---------------------------------------------------------------------------

/// One traced file as the browser shows it.
#[derive(Debug)]
pub struct BrowserTraceReference {
    pub file: String,
    pub symbols: Vec<String>,
    pub doc_contains: Vec<String>,
}

/// The traced files of one language.
#[derive(Debug)]
pub struct BrowserTraceGroup {
    pub language: String,
    pub references: Vec<BrowserTraceReference>,
}

/// One definition of any layer, with the fields of its layer filled in.
#[derive(Debug)]
pub struct BrowserItem {
    pub kind: SectionKind,
    pub id: String,
    pub title: String,
    pub summary: Option<String>,
    pub description: Option<String>,
    pub product_design_principle: Option<String>,
    pub coding_guideline: Option<String>,
    pub priority: Option<String>,
    pub status: Option<String>,
    pub linked_philosophies: Vec<String>,
    pub linked_policies: Vec<String>,
    pub linked_requirements: Vec<String>,
    pub linked_features: Vec<String>,
    pub tests: Vec<BrowserTraceGroup>,
    pub implementations: Vec<BrowserTraceGroup>,
}

/// One source document: its place, its raw text, and what it defines, or why
/// it could not be read.
#[derive(Debug)]
pub struct BrowserDocument {
    pub section: SectionKind,
    pub path: String,
    pub title: String,
    pub folder_segments: Vec<String>,
    pub raw_yaml: String,
    pub parse_error: Option<String>,
    pub items: Vec<BrowserItem>,
}

/// The documents of one section, ordered by path.
#[derive(Debug)]
pub struct BrowserSection {
    pub kind: SectionKind,
    pub label: String,
    pub documents: Vec<BrowserDocument>,
}

/// Where a definition is found.
#[derive(Debug)]
pub struct BrowserIndexEntry {
    pub id: String,
    pub title: String,
    pub kind: SectionKind,
    pub document_path: String,
}

pub struct IndexEntrySpec {
    pub id: Seq<char>,
    pub title: Seq<char>,
    pub kind: SectionKind,
    pub document_path: Seq<char>,
}

impl View for BrowserIndexEntry {
    type V = IndexEntrySpec;

    open spec fn view(&self) -> IndexEntrySpec {
        IndexEntrySpec { id: self.id@, title: self.title@, kind: self.kind, document_path: self.document_path@ }
    }
}

/// Everything the browser shows: the four sections in browsing order, an
/// index of the definitions by id (sorted by id, one entry per id), and the
/// validation state.
#[derive(Debug)]
pub struct BrowserWorkspace {
    pub workspace_root: String,
    pub spec_root: String,
    pub sections: Vec<BrowserSection>,
    pub item_index: Vec<BrowserIndexEntry>,
    pub validation: ValidationSnapshot,
}

/// The parsed body of a source document, by section.
#[derive(Debug)]
pub enum DocumentContent {
    Philosophy { category: String, philosophies: Vec<Philosophy> },
    Policies { category: String, policies: Vec<Policy> },
    Requirements { category: String, requirements: Vec<Requirement> },
    Features { category: String, features: Vec<Feature> },
}

pub open spec fn content_section(c: DocumentContent) -> SectionKind {
    match c {
        DocumentContent::Philosophy { .. } => SectionKind::Philosophy,
        DocumentContent::Policies { .. } => SectionKind::Policies,
        DocumentContent::Requirements { .. } => SectionKind::Requirements,
        DocumentContent::Features { .. } => SectionKind::Features,
    }
}

/// A parse outcome belongs to a section when it was read with that section's schema.
pub open spec fn fits_section(section: SectionKind, parsed: Result<DocumentContent, String>) -> bool {
    match parsed {
        Ok(c) => content_section(c) == section,
        Err(_) => true,
    }
}

pub open spec fn reference_moved(b: BrowserTraceReference, t: TraceReference) -> bool {
    b.file == t.file && b.symbols == t.symbols && b.doc_contains == t.doc_contains
}

pub open spec fn group_moved(b: BrowserTraceGroup, t: TraceGroup) -> bool {
    &&& b.language == t.language
    &&& b.references@.len() == t.references@.len()
    &&& forall|k: int| 0 <= k < b.references@.len() ==> reference_moved(#[trigger] b.references@[k], t.references@[k])
}

pub open spec fn groups_moved(b: Seq<BrowserTraceGroup>, t: Seq<TraceGroup>) -> bool {
    b.len() == t.len() && forall|k: int| 0 <= k < b.len() ==> group_moved(#[trigger] b[k], t[k])
}

/// The browser keeps the language order of a trace map: one group per
/// language, ascending, stays so.
pub proof fn lemma_browser_groups_keep_language_order(b: Seq<BrowserTraceGroup>, t: Seq<TraceGroup>)
    requires
        groups_moved(b, t),
        crate::model::languages_ascending(t),
    ensures
        crate::order::strictly_sorted(Seq::new(b.len(), |i: int| b[i].language@)),
{
    let bl = Seq::new(b.len(), |i: int| b[i].language@);
    let tl = crate::model::trace_languages(t);
    assert forall|i: int, j: int| 0 <= i < j < bl.len() implies crate::order::seq_order(#[trigger] bl[i], #[trigger] bl[j]) < 0 by {
        assert(group_moved(b[i], t[i]));
        assert(group_moved(b[j], t[j]));
        assert(bl[i] == tl[i]);
        assert(bl[j] == tl[j]);
    }
}

fn browser_references(refs: Vec<TraceReference>) -> (res: Vec<BrowserTraceReference>)
    ensures
        res@.len() == refs@.len(),
        forall|k: int| 0 <= k < res@.len() ==> reference_moved(#[trigger] res@[k], refs@[k]),
{
    let ghost orig = refs@;
    let mut refs = refs;
    let mut out: Vec<BrowserTraceReference> = Vec::new();
    while refs.len() > 0
        invariant
            out@.len() + refs@.len() == orig.len(),
            refs@ == orig.skip(out@.len() as int),
            forall|k: int| 0 <= k < out@.len() ==> reference_moved(#[trigger] out@[k], orig[k]),
        decreases refs@.len(),
    {
        let r = refs.remove(0);
        assert(r == orig[out@.len() as int]);
        out.push(BrowserTraceReference { file: r.file, symbols: r.symbols, doc_contains: r.doc_contains });
        assert(refs@ =~= orig.skip(out@.len() as int));
    }
    out
}

/// The trace groups of a definition, in the order of their languages.
pub fn browser_trace_groups(traces: Vec<TraceGroup>) -> (res: Vec<BrowserTraceGroup>)
    ensures
        groups_moved(res@, traces@),
{
    let ghost orig = traces@;
    let mut traces = traces;
    let mut out: Vec<BrowserTraceGroup> = Vec::new();
    while traces.len() > 0
        invariant
            out@.len() + traces@.len() == orig.len(),
            traces@ == orig.skip(out@.len() as int),
            forall|k: int| 0 <= k < out@.len() ==> group_moved(#[trigger] out@[k], orig[k]),
        decreases traces@.len(),
    {
        let g = traces.remove(0);
        assert(g == orig[out@.len() as int]);
        let references = browser_references(g.references);
        out.push(BrowserTraceGroup { language: g.language, references });
        assert(traces@ =~= orig.skip(out@.len() as int));
    }
    out
}

/// The folders above a document: its path without the file name.
pub fn folder_segments(path: &str) -> (res: Vec<String>)
    ensures
        views(res@) == split_seq(path@, '/').drop_last(),
{
    let mut segments = split_char(path, '/');
    proof { lemma_split_nonempty(path@, '/'); }
    let ghost all = views(segments@);
    segments.pop();
    assert(views(segments@) =~= all.drop_last());
    segments
}

/// `s` with every trailing copy of `suffix` taken off (`trim_end_matches`).
pub open spec fn trim_end_all(s: Seq<char>, suffix: Seq<char>) -> Seq<char>
    decreases s.len(),
{
    if suffix.len() > 0 && is_suffix(suffix, s) {
        trim_end_all(s.take(s.len() - suffix.len()), suffix)
    } else {
        s
    }
}

fn trim_end_matches(s: &str, suffix: &str) -> (res: String)
    ensures
        res@ == trim_end_all(s@, suffix@),
{
    let mut cur = String::from_str(s);
    if suffix.unicode_len() == 0 {
        return cur;
    }
    while ends_with(cur.as_str(), suffix)
        invariant
            suffix@.len() > 0,
            trim_end_all(cur@, suffix@) == trim_end_all(s@, suffix@),
        decreases cur@.len(),
    {
        let n = cur.as_str().unicode_len();
        let m = suffix.unicode_len();
        let shorter = cur.as_str().substring_char(0, n - m);
        cur = String::from_str(shorter);
    }
    cur
}

/// The title of a document that could not be read: its file name without
/// the YAML extension.
pub open spec fn title_from_path(path: Seq<char>) -> Seq<char> {
    trim_end_all(trim_end_all(split_seq(path, '/').last(), ".yaml"@), ".yml"@)
}

fn path_title(path: &str) -> (res: String)
    ensures
        res@ == title_from_path(path@),
{
    let parts = split_char(path, '/');
    proof { lemma_split_nonempty(path@, '/'); }
    let last = parts[parts.len() - 1].as_str();
    let a = trim_end_matches(last, ".yaml");
    trim_end_matches(a.as_str(), ".yml")
}

pub open spec fn philosophy_item(b: BrowserItem, p: Philosophy) -> bool {
    &&& b.kind == SectionKind::Philosophy
    &&& b.id == p.id
    &&& b.title == p.title
    &&& b.summary is None
    &&& b.description is None
    &&& b.product_design_principle == Some(p.product_design_principle)
    &&& b.coding_guideline == Some(p.coding_guideline)
    &&& b.priority is None
    &&& b.status is None
    &&& b.linked_philosophies@.len() == 0
    &&& b.linked_policies == p.linked_policies
    &&& b.linked_requirements@.len() == 0
    &&& b.linked_features@.len() == 0
    &&& b.tests@.len() == 0
    &&& b.implementations@.len() == 0
}

pub open spec fn policy_item(b: BrowserItem, p: Policy) -> bool {
    &&& b.kind == SectionKind::Policies
    &&& b.id == p.id
    &&& b.title == p.title
    &&& b.summary == Some(p.summary)
    &&& b.description == Some(p.description)
    &&& b.product_design_principle is None
    &&& b.coding_guideline is None
    &&& b.priority is None
    &&& b.status is None
    &&& b.linked_philosophies == p.linked_philosophies
    &&& b.linked_policies@.len() == 0
    &&& b.linked_requirements == p.linked_requirements
    &&& b.linked_features@.len() == 0
    &&& b.tests@.len() == 0
    &&& b.implementations@.len() == 0
}

pub open spec fn requirement_item(b: BrowserItem, r: Requirement) -> bool {
    &&& b.kind == SectionKind::Requirements
    &&& b.id == r.id
    &&& b.title == r.title
    &&& b.summary is None
    &&& b.description == Some(r.description)
    &&& b.product_design_principle is None
    &&& b.coding_guideline is None
    &&& b.priority == Some(r.priority)
    &&& b.status == Some(r.status)
    &&& b.linked_philosophies@.len() == 0
    &&& b.linked_policies == r.linked_policies
    &&& b.linked_requirements@.len() == 0
    &&& b.linked_features == r.linked_features
    &&& groups_moved(b.tests@, r.tests@)
    &&& b.implementations@.len() == 0
}

pub open spec fn feature_item(b: BrowserItem, f: Feature) -> bool {
    &&& b.kind == SectionKind::Features
    &&& b.id == f.id
    &&& b.title == f.title
    &&& b.summary == Some(f.summary)
    &&& b.description is None
    &&& b.product_design_principle is None
    &&& b.coding_guideline is None
    &&& b.priority is None
    &&& b.status == Some(f.status)
    &&& b.linked_philosophies@.len() == 0
    &&& b.linked_policies@.len() == 0
    &&& b.linked_requirements == f.linked_requirements
    &&& b.linked_features@.len() == 0
    &&& b.tests@.len() == 0
    &&& groups_moved(b.implementations@, f.implementations@)
}

/// The title and the items of a document that was read.
pub open spec fn content_shown(d: BrowserDocument, c: DocumentContent) -> bool {
    match c {
        DocumentContent::Philosophy { category, philosophies } => {
            &&& d.title == category
            &&& d.items@.len() == philosophies@.len()
            &&& forall|k: int| 0 <= k < d.items@.len() ==> philosophy_item(#[trigger] d.items@[k], philosophies@[k])
        },
        DocumentContent::Policies { category, policies } => {
            &&& d.title == category
            &&& d.items@.len() == policies@.len()
            &&& forall|k: int| 0 <= k < d.items@.len() ==> policy_item(#[trigger] d.items@[k], policies@[k])
        },
        DocumentContent::Requirements { category, requirements } => {
            &&& d.title == category
            &&& d.items@.len() == requirements@.len()
            &&& forall|k: int| 0 <= k < d.items@.len() ==> requirement_item(#[trigger] d.items@[k], requirements@[k])
        },
        DocumentContent::Features { category, features } => {
            &&& d.title == category
            &&& d.items@.len() == features@.len()
            &&& forall|k: int| 0 <= k < d.items@.len() ==> feature_item(#[trigger] d.items@[k], features@[k])
        },
    }
}

/// What the browser shows of one source document and the outcome of reading it.
pub open spec fn document_built(d: BrowserDocument, src: SourceDocument, parsed: Result<DocumentContent, String>) -> bool {
    &&& d.section == src.section
    &&& d.path == src.path
    &&& views(d.folder_segments@) == split_seq(src.path@, '/').drop_last()
    &&& d.raw_yaml == src.content
    &&& match parsed {
        Ok(c) => d.parse_error is None && content_shown(d, c),
        Err(e) => d.title@ == title_from_path(src.path@) && d.parse_error == Some(e) && d.items@.len() == 0,
    }
}

/// A document that could not be read: its place and raw text, the reason,
/// and no items.
pub fn invalid_document(
    section: SectionKind,
    path: String,
    title: String,
    folder_segments: Vec<String>,
    raw_yaml: String,
    error: String,
) -> (res: BrowserDocument)
    ensures
        res.section == section,
        res.path == path,
        res.title == title,
        res.folder_segments == folder_segments,
        res.raw_yaml == raw_yaml,
        res.parse_error == Some(error),
        res.items@.len() == 0,
{
    BrowserDocument { section, path, title, folder_segments, raw_yaml, parse_error: Some(error), items: Vec::new() }
}

fn philosophy_items(ps: Vec<Philosophy>) -> (res: Vec<BrowserItem>)
    ensures
        res@.len() == ps@.len(),
        forall|k: int| 0 <= k < res@.len() ==> philosophy_item(#[trigger] res@[k], ps@[k]),
{
    let ghost orig = ps@;
    let mut ps = ps;
    let mut out: Vec<BrowserItem> = Vec::new();
    while ps.len() > 0
        invariant
            out@.len() + ps@.len() == orig.len(),
            ps@ == orig.skip(out@.len() as int),
            forall|k: int| 0 <= k < out@.len() ==> philosophy_item(#[trigger] out@[k], orig[k]),
        decreases ps@.len(),
    {
        let p = ps.remove(0);
        assert(p == orig[out@.len() as int]);
        out.push(BrowserItem {
            kind: SectionKind::Philosophy,
            id: p.id,
            title: p.title,
            summary: None,
            description: None,
            product_design_principle: Some(p.product_design_principle),
            coding_guideline: Some(p.coding_guideline),
            priority: None,
            status: None,
            linked_philosophies: Vec::new(),
            linked_policies: p.linked_policies,
            linked_requirements: Vec::new(),
            linked_features: Vec::new(),
            tests: Vec::new(),
            implementations: Vec::new(),
        });
        assert(ps@ =~= orig.skip(out@.len() as int));
    }
    out
}

fn policy_items(ps: Vec<Policy>) -> (res: Vec<BrowserItem>)
    ensures
        res@.len() == ps@.len(),
        forall|k: int| 0 <= k < res@.len() ==> policy_item(#[trigger] res@[k], ps@[k]),
{
    let ghost orig = ps@;
    let mut ps = ps;
    let mut out: Vec<BrowserItem> = Vec::new();
    while ps.len() > 0
        invariant
            out@.len() + ps@.len() == orig.len(),
            ps@ == orig.skip(out@.len() as int),
            forall|k: int| 0 <= k < out@.len() ==> policy_item(#[trigger] out@[k], orig[k]),
        decreases ps@.len(),
    {
        let p = ps.remove(0);
        assert(p == orig[out@.len() as int]);
        out.push(BrowserItem {
            kind: SectionKind::Policies,
            id: p.id,
            title: p.title,
            summary: Some(p.summary),
            description: Some(p.description),
            product_design_principle: None,
            coding_guideline: None,
            priority: None,
            status: None,
            linked_philosophies: p.linked_philosophies,
            linked_policies: Vec::new(),
            linked_requirements: p.linked_requirements,
            linked_features: Vec::new(),
            tests: Vec::new(),
            implementations: Vec::new(),
        });
        assert(ps@ =~= orig.skip(out@.len() as int));
    }
    out
}

fn requirement_items(rs: Vec<Requirement>) -> (res: Vec<BrowserItem>)
    ensures
        res@.len() == rs@.len(),
        forall|k: int| 0 <= k < res@.len() ==> requirement_item(#[trigger] res@[k], rs@[k]),
{
    let ghost orig = rs@;
    let mut rs = rs;
    let mut out: Vec<BrowserItem> = Vec::new();
    while rs.len() > 0
        invariant
            out@.len() + rs@.len() == orig.len(),
            rs@ == orig.skip(out@.len() as int),
            forall|k: int| 0 <= k < out@.len() ==> requirement_item(#[trigger] out@[k], orig[k]),
        decreases rs@.len(),
    {
        let r = rs.remove(0);
        assert(r == orig[out@.len() as int]);
        let tests = browser_trace_groups(r.tests);
        out.push(BrowserItem {
            kind: SectionKind::Requirements,
            id: r.id,
            title: r.title,
            summary: None,
            description: Some(r.description),
            product_design_principle: None,
            coding_guideline: None,
            priority: Some(r.priority),
            status: Some(r.status),
            linked_philosophies: Vec::new(),
            linked_policies: r.linked_policies,
            linked_requirements: Vec::new(),
            linked_features: r.linked_features,
            tests,
            implementations: Vec::new(),
        });
        assert(rs@ =~= orig.skip(out@.len() as int));
    }
    out
}

fn feature_items(fs: Vec<Feature>) -> (res: Vec<BrowserItem>)
    ensures
        res@.len() == fs@.len(),
        forall|k: int| 0 <= k < res@.len() ==> feature_item(#[trigger] res@[k], fs@[k]),
{
    let ghost orig = fs@;
    let mut fs = fs;
    let mut out: Vec<BrowserItem> = Vec::new();
    while fs.len() > 0
        invariant
            out@.len() + fs@.len() == orig.len(),
            fs@ == orig.skip(out@.len() as int),
            forall|k: int| 0 <= k < out@.len() ==> feature_item(#[trigger] out@[k], orig[k]),
        decreases fs@.len(),
    {
        let f = fs.remove(0);
        assert(f == orig[out@.len() as int]);
        let implementations = browser_trace_groups(f.implementations);
        out.push(BrowserItem {
            kind: SectionKind::Features,
            id: f.id,
            title: f.title,
            summary: Some(f.summary),
            description: None,
            product_design_principle: None,
            coding_guideline: None,
            priority: None,
            status: Some(f.status),
            linked_philosophies: Vec::new(),
            linked_policies: Vec::new(),
            linked_requirements: f.linked_requirements,
            linked_features: Vec::new(),
            tests: Vec::new(),
            implementations,
        });
        assert(fs@ =~= orig.skip(out@.len() as int));
    }
    out
}

/// What the browser shows of one source document, given the outcome of
/// reading its YAML with its section's schema.
pub fn parse_source_document(source: SourceDocument, parsed: Result<DocumentContent, String>) -> (res: BrowserDocument)
    requires
        fits_section(source.section, parsed),
    ensures
        document_built(res, source, parsed),
{
    let folder_segments = folder_segments(source.path.as_str());
    match parsed {
        Ok(DocumentContent::Philosophy { category, philosophies }) => {
            let items = philosophy_items(philosophies);
            BrowserDocument { section: source.section, path: source.path, title: category, folder_segments, raw_yaml: source.content, parse_error: None, items }
        },
        Ok(DocumentContent::Policies { category, policies }) => {
            let items = policy_items(policies);
            BrowserDocument { section: source.section, path: source.path, title: category, folder_segments, raw_yaml: source.content, parse_error: None, items }
        },
        Ok(DocumentContent::Requirements { category, requirements }) => {
            let items = requirement_items(requirements);
            BrowserDocument { section: source.section, path: source.path, title: category, folder_segments, raw_yaml: source.content, parse_error: None, items }
        },
        Ok(DocumentContent::Features { category, features }) => {
            let items = feature_items(features);
            BrowserDocument { section: source.section, path: source.path, title: category, folder_segments, raw_yaml: source.content, parse_error: None, items }
        },
        Err(error) => {
            let title = path_title(source.path.as_str());
            invalid_document(source.section, source.path, title, folder_segments, source.content, error)
        },
    }
}


// ---------------------------------------------------------------------------
// Sections: documents grouped by section, ordered by path
// ---------------------------------------------------------------------------

/// The first position at or after `p` whose path sorts after `key`.
pub open spec fn first_after_from(s: Seq<BrowserDocument>, key: Seq<char>, p: int) -> int
    decreases s.len() - p,
{
    if p < 0 || p >= s.len() {
        s.len() as int
    } else if seq_order(s[p].path@, key) > 0 {
        p
    } else {
        first_after_from(s, key, p + 1)
    }
}

/// A document inserted after every document whose path does not sort after its own.
pub open spec fn insert_by_path(sorted: Seq<BrowserDocument>, d: BrowserDocument) -> Seq<BrowserDocument> {
    sorted.insert(first_after_from(sorted, d.path@, 0), d)
}

/// The documents sorted by path; documents with the same path keep their order.
pub open spec fn sort_by_path(docs: Seq<BrowserDocument>) -> Seq<BrowserDocument>
    decreases docs.len(),
{
    if docs.len() == 0 {
        Seq::empty()
    } else {
        insert_by_path(sort_by_path(docs.drop_last()), docs.last())
    }
}

pub open spec fn sorted_by_path(docs: Seq<BrowserDocument>) -> bool {
    forall|i: int, j: int| 0 <= i < j < docs.len() ==> seq_order(#[trigger] docs[i].path@, #[trigger] docs[j].path@) <= 0
}

/// The documents of one section, in the order they were given.
pub open spec fn section_documents(docs: Seq<BrowserDocument>, kind: SectionKind) -> Seq<BrowserDocument>
    decreases docs.len(),
{
    if docs.len() == 0 {
        Seq::empty()
    } else {
        let prev = section_documents(docs.drop_last(), kind);
        if docs.last().section == kind {
            prev.push(docs.last())
        } else {
            prev
        }
    }
}

/// The browsing order of the sections.
pub open spec fn section_at(s: int) -> SectionKind {
    if s == 0 {
        SectionKind::Philosophy
    } else if s == 1 {
        SectionKind::Policies
    } else if s == 2 {
        SectionKind::Features
    } else {
        SectionKind::Requirements
    }
}

proof fn lemma_first_after(s: Seq<BrowserDocument>, key: Seq<char>, p: int)
    requires
        0 <= p <= s.len(),
    ensures
        p <= first_after_from(s, key, p) <= s.len(),
        forall|q: int| p <= q < first_after_from(s, key, p) ==> seq_order(#[trigger] s[q].path@, key) <= 0,
        first_after_from(s, key, p) < s.len() ==> seq_order(s[first_after_from(s, key, p)].path@, key) > 0,
    decreases s.len() - p,
{
    if p < s.len() && seq_order(s[p].path@, key) <= 0 {
        lemma_first_after(s, key, p + 1);
    }
}

proof fn lemma_insert_by_path_sorted(sorted: Seq<BrowserDocument>, d: BrowserDocument)
    requires
        sorted_by_path(sorted),
    ensures
        sorted_by_path(insert_by_path(sorted, d)),
        insert_by_path(sorted, d).len() == sorted.len() + 1,
{
    let key = d.path@;
    lemma_first_after(sorted, key, 0);
    let p = first_after_from(sorted, key, 0);
    let r = insert_by_path(sorted, d);
    assert forall|i: int, j: int| 0 <= i < j < r.len() implies seq_order(#[trigger] r[i].path@, #[trigger] r[j].path@) <= 0 by {
        if j < p {
            assert(r[i] == sorted[i] && r[j] == sorted[j]);
        } else if j == p {
            assert(r[i] == sorted[i] && r[j] == d);
        } else if i < p {
            assert(r[i] == sorted[i] && r[j] == sorted[j - 1]);
            if p < sorted.len() {
                crate::order::lemma_order_range(sorted[i].path@, sorted[j - 1].path@);
            }
        } else if i == p {
            assert(r[i] == d && r[j] == sorted[j - 1]);
            crate::order::lemma_order_antisym(sorted[p].path@, key);
            if j - 1 > p {
                crate::order::lemma_order_antisym(key, sorted[p].path@);
                crate::order::lemma_order_trans(key, sorted[p].path@, sorted[j - 1].path@);
            }
        } else {
            assert(r[i] == sorted[i - 1] && r[j] == sorted[j - 1]);
        }
    }
}

/// Sorting by path gives documents in non-decreasing path order.
pub proof fn lemma_sort_by_path_sorted(docs: Seq<BrowserDocument>)
    ensures
        sorted_by_path(sort_by_path(docs)),
        sort_by_path(docs).len() == docs.len(),
    decreases docs.len(),
{
    if docs.len() > 0 {
        lemma_sort_by_path_sorted(docs.drop_last());
        lemma_insert_by_path_sorted(sort_by_path(docs.drop_last()), docs.last());
    }
}

/// The source documents of one section, in their order.
pub open spec fn section_sources(srcs: Seq<SourceDocument>, kind: SectionKind) -> Seq<SourceDocument>
    decreases srcs.len(),
{
    if srcs.len() == 0 {
        Seq::empty()
    } else {
        let prev = section_sources(srcs.drop_last(), kind);
        if srcs.last().section == kind {
            prev.push(srcs.last())
        } else {
            prev
        }
    }
}

/// The documents of a section are built one for one from the sources of that
/// section, in their order and with their paths; with
/// `lemma_sections_sorted_permutation`, each section lists exactly the paths
/// of its sources, sorted.
pub proof fn lemma_section_documents_follow_sources(
    docs: Seq<BrowserDocument>,
    srcs: Seq<SourceDocument>,
    outcomes: Seq<Result<DocumentContent, String>>,
    kind: SectionKind,
)
    requires
        documents_built(docs, srcs, outcomes),
        srcs.len() == docs.len(),
    ensures
        section_documents(docs, kind).len() == section_sources(srcs, kind).len(),
        forall|i: int| 0 <= i < section_documents(docs, kind).len()
            ==> (#[trigger] section_documents(docs, kind)[i]).path == section_sources(srcs, kind)[i].path,
    decreases docs.len(),
{
    if docs.len() > 0 {
        let n = docs.len() - 1;
        assert(documents_built(docs.drop_last(), srcs.drop_last(), outcomes.drop_last())) by {
            assert forall|i: int| 0 <= i < docs.drop_last().len() implies #[trigger] document_built(docs.drop_last()[i], srcs.drop_last()[i], outcomes.drop_last()[i]) by {
                assert(document_built(docs[i], srcs[i], outcomes[i]));
            }
        }
        lemma_section_documents_follow_sources(docs.drop_last(), srcs.drop_last(), outcomes.drop_last(), kind);
        assert(document_built(docs[n], srcs[n], outcomes[n]));
        assert(docs.last() == docs[n]);
        assert(srcs.last() == srcs[n]);
    }
}

/// Sorting by path loses and adds no document: the result is a permutation.
pub proof fn lemma_sort_by_path_permutes(docs: Seq<BrowserDocument>)
    ensures
        sort_by_path(docs).to_multiset() == docs.to_multiset(),
    decreases docs.len(),
{
    broadcast use vstd::seq_lib::group_to_multiset_ensures;
    if docs.len() > 0 {
        let prev = docs.drop_last();
        lemma_sort_by_path_permutes(prev);
        lemma_sort_by_path_sorted(prev);
        lemma_first_after(sort_by_path(prev), docs.last().path@, 0);
        assert(docs =~= prev.push(docs.last()));
    }
}

/// Each section of the browser holds exactly the documents of its kind,
/// sorted by path.
pub proof fn lemma_sections_sorted_permutation(sections: Seq<BrowserSection>, docs: Seq<BrowserDocument>)
    requires
        sections.len() == 4,
        sections_arranged(sections, docs),
    ensures
        forall|s: int| 0 <= s < 4 ==> sorted_by_path(#[trigger] sections[s].documents@)
            && sections[s].documents@.to_multiset() == section_documents(docs, section_at(s)).to_multiset(),
{
    assert forall|s: int| 0 <= s < 4 implies sorted_by_path(#[trigger] sections[s].documents@)
        && sections[s].documents@.to_multiset() == section_documents(docs, section_at(s)).to_multiset() by {
        lemma_sort_by_path_sorted(section_documents(docs, section_at(s)));
        lemma_sort_by_path_permutes(section_documents(docs, section_at(s)));
    }
}

fn insert_document(out: &mut Vec<BrowserDocument>, d: BrowserDocument)
    ensures
        final(out)@ == insert_by_path(old(out)@, d),
{
    let mut p: usize = 0;
    let ghost key = d.path@;
    while p < out.len() && str_order(out[p].path.as_str(), d.path.as_str()) <= 0
        invariant
            p <= out@.len(),
            key == d.path@,
            first_after_from(out@, key, 0) == first_after_from(out@, key, p as int),
        decreases out@.len() - p,
    {
        p = p + 1;
    }
    out.insert(p, d);
}

// ---------------------------------------------------------------------------
// The index of definitions by id
// ---------------------------------------------------------------------------

pub open spec fn doc_entries(d: BrowserDocument) -> Seq<IndexEntrySpec> {
    Seq::new(d.items@.len(), |k: int| IndexEntrySpec {
        id: d.items@[k].id@,
        title: d.items@[k].title@,
        kind: d.items@[k].kind,
        document_path: d.path@,
    })
}

pub open spec fn docs_entries(ds: Seq<BrowserDocument>) -> Seq<IndexEntrySpec>
    decreases ds.len(),
{
    if ds.len() == 0 {
        Seq::empty()
    } else {
        docs_entries(ds.drop_last()) + doc_entries(ds.last())
    }
}

/// Every definition of the sections, in browsing order.
pub open spec fn sections_entries(ss: Seq<BrowserSection>) -> Seq<IndexEntrySpec>
    decreases ss.len(),
{
    if ss.len() == 0 {
        Seq::empty()
    } else {
        sections_entries(ss.drop_last()) + docs_entries(ss.last().documents@)
    }
}

/// Entries by id; a later entry replaces an earlier one with the same id.
pub open spec fn index_map(es: Seq<IndexEntrySpec>) -> Map<Seq<char>, IndexEntrySpec>
    decreases es.len(),
{
    if es.len() == 0 {
        Map::empty()
    } else {
        index_map(es.drop_last()).insert(es.last().id, es.last())
    }
}

/// The index holds exactly the ids of the entries.
pub proof fn lemma_index_map_keys(es: Seq<IndexEntrySpec>, id: Seq<char>)
    ensures
        index_map(es).contains_key(id) <==> exists|i: int| 0 <= i < es.len() && (#[trigger] es[i]).id == id,
    decreases es.len(),
{
    if es.len() > 0 {
        let prev = es.drop_last();
        lemma_index_map_keys(prev, id);
        if index_map(prev).contains_key(id) {
            let i = choose|i: int| 0 <= i < prev.len() && (#[trigger] prev[i]).id == id;
            assert(es[i] == prev[i]);
        }
        if exists|i: int| 0 <= i < es.len() && (#[trigger] es[i]).id == id {
            let i = choose|i: int| 0 <= i < es.len() && (#[trigger] es[i]).id == id;
            if i < prev.len() {
                assert(prev[i] == es[i]);
            }
        }
    }
}

/// Each id of the index maps to the last entry with that id.
pub proof fn lemma_index_map_last_wins(es: Seq<IndexEntrySpec>, i: int)
    requires
        0 <= i < es.len(),
        forall|j: int| i < j < es.len() ==> (#[trigger] es[j]).id != es[i].id,
    ensures
        index_map(es).contains_key(es[i].id),
        index_map(es)[es[i].id] == es[i],
    decreases es.len(),
{
    let prev = es.drop_last();
    if i < prev.len() {
        assert(es[es.len() - 1].id != es[i].id);
        assert forall|j: int| i < j < prev.len() implies (#[trigger] prev[j]).id != prev[i].id by {
            assert(es[j] == prev[j]);
        }
        assert(prev[i] == es[i]);
        lemma_index_map_last_wins(prev, i);
    }
}

pub open spec fn index_ids(v: Seq<BrowserIndexEntry>) -> Seq<Seq<char>> {
    Seq::new(v.len(), |i: int| v[i].id@)
}

/// A sorted list of entries that holds exactly the map `m`.
pub open spec fn index_holds(v: Seq<BrowserIndexEntry>, m: Map<Seq<char>, IndexEntrySpec>) -> bool {
    &&& crate::order::strictly_sorted(index_ids(v))
    &&& forall|i: int| 0 <= i < v.len() ==> m.contains_key(#[trigger] v[i].id@) && m[v[i].id@] == v[i]@
    &&& forall|id: Seq<char>| #[trigger] m.contains_key(id) ==> exists|i: int| 0 <= i < v.len() && v[i].id@ == id
}

fn upsert_entry(v: &mut Vec<BrowserIndexEntry>, e: BrowserIndexEntry, Ghost(m): Ghost<Map<Seq<char>, IndexEntrySpec>>)
    requires
        index_holds(old(v)@, m),
    ensures
        index_holds(final(v)@, m.insert(e.id@, e@)),
{
    let ghost old_v = v@;
    let ghost key = e.id@;
    let ghost m2 = m.insert(key, e@);
    let mut p: usize = 0;
    while p < v.len() && str_order(v[p].id.as_str(), e.id.as_str()) < 0
        invariant
            p <= v@.len(),
            v@ == old_v,
            key == e.id@,
            forall|q: int| 0 <= q < p ==> seq_order(#[trigger] old_v[q].id@, key) < 0,
        decreases v@.len() - p,
    {
        p = p + 1;
    }
    let ghost ids = index_ids(old_v);
    if p < v.len() && str_order(v[p].id.as_str(), e.id.as_str()) == 0 {
        proof { crate::order::lemma_order_eq(old_v[p as int].id@, key); }
        v.set(p, e);
        proof {
            assert forall|i: int| 0 <= i < v@.len() implies m2.contains_key(#[trigger] v@[i].id@) && m2[v@[i].id@] == v@[i]@ by {
                if i != p {
                    assert(v@[i] == old_v[i]);
                    assert(ids[i] == old_v[i].id@);
                    assert(ids[p as int] == key);
                    if i < p {
                        assert(seq_order(ids[i], ids[p as int]) < 0);
                    } else {
                        assert(seq_order(ids[p as int], ids[i]) < 0);
                    }
                    crate::order::lemma_order_eq(old_v[i].id@, key);
                    crate::order::lemma_order_antisym(old_v[i].id@, key);
                }
            }
            assert forall|id: Seq<char>| #[trigger] m2.contains_key(id) implies exists|i: int| 0 <= i < v@.len() && v@[i].id@ == id by {
                if id == key {
                    assert(v@[p as int].id@ == id);
                } else {
                    let i = choose|i: int| 0 <= i < old_v.len() && old_v[i].id@ == id;
                    assert(v@[i] == old_v[i]);
                }
            }
            assert(index_ids(v@) =~= ids);
        }
    } else {
        proof {
            if p < old_v.len() {
                crate::order::lemma_order_range(old_v[p as int].id@, key);
            }
        }
        v.insert(p, e);
        proof {
            let nv = v@;
            assert forall|i: int| 0 <= i < nv.len() implies m2.contains_key(#[trigger] nv[i].id@) && m2[nv[i].id@] == nv[i]@ by {
                if i < p {
                    assert(nv[i] == old_v[i]);
                    crate::order::lemma_order_eq(old_v[i].id@, key);
                } else if i > p {
                    assert(nv[i] == old_v[i - 1]);
                    assert(ids[i - 1] == old_v[i - 1].id@);
                    if i - 1 > p {
                        assert(seq_order(ids[p as int], ids[i - 1]) < 0);
                        crate::order::lemma_order_antisym(old_v[p as int].id@, key);
                        crate::order::lemma_order_antisym(key, old_v[p as int].id@);
                        crate::order::lemma_order_trans(key, old_v[p as int].id@, old_v[i - 1].id@);
                    }
                    crate::order::lemma_order_antisym(old_v[p as int].id@, key);
                    crate::order::lemma_order_eq(old_v[i - 1].id@, key);
                    crate::order::lemma_order_antisym(old_v[i - 1].id@, key);
                }
            }
            assert forall|id: Seq<char>| #[trigger] m2.contains_key(id) implies exists|i: int| 0 <= i < nv.len() && nv[i].id@ == id by {
                if id == key {
                    assert(nv[p as int].id@ == id);
                } else {
                    let i = choose|i: int| 0 <= i < old_v.len() && old_v[i].id@ == id;
                    if i < p {
                        assert(nv[i] == old_v[i]);
                    } else {
                        assert(nv[i + 1] == old_v[i]);
                    }
                }
            }
            let nids = index_ids(nv);
            assert forall|i: int, j: int| 0 <= i < j < nids.len() implies seq_order(#[trigger] nids[i], #[trigger] nids[j]) < 0 by {
                if j < p {
                    assert(nids[i] == ids[i] && nids[j] == ids[j]);
                } else if j == p {
                    assert(nids[i] == ids[i] && nids[j] == key);
                } else if i < p {
                    assert(nids[i] == ids[i] && nids[j] == ids[j - 1]);
                } else if i == p {
                    assert(nids[i] == key && nids[j] == ids[j - 1]);
                    crate::order::lemma_order_antisym(ids[p as int], key);
                    if j - 1 > p {
                        crate::order::lemma_order_antisym(key, ids[p as int]);
                        crate::order::lemma_order_trans(key, ids[p as int], ids[j - 1]);
                    }
                } else {
                    assert(nids[i] == ids[i - 1] && nids[j] == ids[j - 1]);
                }
            }
        }
    }
}

fn clone_entry_of(item: &BrowserItem, path: &String) -> (res: BrowserIndexEntry)
    ensures
        res@ == (IndexEntrySpec { id: item.id@, title: item.title@, kind: item.kind, document_path: path@ }),
{
    BrowserIndexEntry { id: item.id.clone(), title: item.title.clone(), kind: item.kind, document_path: path.clone() }
}

fn build_index(sections: &Vec<BrowserSection>) -> (res: Vec<BrowserIndexEntry>)
    ensures
        index_holds(res@, index_map(sections_entries(sections@))),
{
    let mut index: Vec<BrowserIndexEntry> = Vec::new();
    let ghost mut seen: Seq<IndexEntrySpec> = Seq::empty();
    let mut s: usize = 0;
    assert(sections@.take(0) =~= Seq::<BrowserSection>::empty());
    while s < sections.len()
        invariant
            s <= sections@.len(),
            seen == sections_entries(sections@.take(s as int)),
            index_holds(index@, index_map(seen)),
        decreases sections@.len() - s,
    {
        let docs = &sections[s].documents;
        let ghost base_s = seen;
        let mut d: usize = 0;
        assert(docs@.take(0) =~= Seq::<BrowserDocument>::empty());
        assert(seen =~= base_s + docs_entries(docs@.take(0)));
        while d < docs.len()
            invariant
                d <= docs@.len(),
                seen == base_s + docs_entries(docs@.take(d as int)),
                index_holds(index@, index_map(seen)),
            decreases docs@.len() - d,
        {
            let doc = &docs[d];
            let ghost base_d = seen;
            let mut k: usize = 0;
            assert(seen =~= base_d + doc_entries(*doc).take(0));
            while k < doc.items.len()
                invariant
                    k <= doc.items@.len(),
                    seen == base_d + doc_entries(*doc).take(k as int),
                    index_holds(index@, index_map(seen)),
                decreases doc.items@.len() - k,
            {
                let entry = clone_entry_of(&doc.items[k], &doc.path);
                let ghost ev = entry@;
                upsert_entry(&mut index, entry, Ghost(index_map(seen)));
                proof {
                    assert(ev == doc_entries(*doc)[k as int]);
                    let next = seen.push(ev);
                    assert(next.drop_last() =~= seen);
                    assert(index_map(next) == index_map(seen).insert(ev.id, ev));
                    assert(next =~= base_d + doc_entries(*doc).take(k + 1));
                    seen = next;
                }
                k = k + 1;
            }
            proof {
                assert(doc_entries(*doc).take(doc.items@.len() as int) =~= doc_entries(*doc));
                assert(docs@.take(d + 1).drop_last() =~= docs@.take(d as int));
                assert(docs@.take(d + 1).last() == *doc);
                assert(seen =~= base_s + docs_entries(docs@.take(d + 1)));
            }
            d = d + 1;
        }
        proof {
            assert(docs@.take(docs@.len() as int) =~= docs@);
            assert(sections@.take(s + 1).drop_last() =~= sections@.take(s as int));
            assert(sections@.take(s + 1).last() == sections@[s as int]);
        }
        s = s + 1;
    }
    assert(sections@.take(sections@.len() as int) =~= sections@);
    index
}

/// Each document shows its source and the outcome of reading it.
pub open spec fn documents_built(docs: Seq<BrowserDocument>, srcs: Seq<SourceDocument>, outcomes: Seq<Result<DocumentContent, String>>) -> bool {
    &&& docs.len() == outcomes.len()
    &&& forall|i: int| 0 <= i < docs.len() ==> document_built(#[trigger] docs[i], srcs[i], outcomes[i])
}

/// Each of the four sections holds its documents sorted by path.
pub open spec fn sections_arranged(sections: Seq<BrowserSection>, docs: Seq<BrowserDocument>) -> bool {
    forall|s: int| 0 <= s < 4 ==> (#[trigger] sections[s]).documents@ == sort_by_path(section_documents(docs, section_at(s)))
}

/// The browser's view of a workspace: each source document shown with the
/// outcome of reading it (`parsed`, in the same order), grouped into the four
/// sections in browsing order and sorted by path within a section, and an
/// index of every definition by id in which a later definition of an id
/// replaces an earlier one.
pub fn build_browser_workspace(payload: AppPayload, parsed: Vec<Result<DocumentContent, String>>) -> (res: BrowserWorkspace)
    requires
        parsed@.len() == payload.source_documents@.len(),
        forall|i: int| 0 <= i < parsed@.len() ==> fits_section(#[trigger] payload.source_documents@[i].section, parsed@[i]),
    ensures
        res.workspace_root == payload.workspace_root,
        res.spec_root == payload.spec_root,
        res.validation == payload.validation,
        res.sections@.len() == 4,
        forall|s: int| 0 <= s < 4 ==> (#[trigger] res.sections@[s]).kind == section_at(s)
            && res.sections@[s].label@ == section_label_spec(section_at(s)),
        exists|docs: Seq<BrowserDocument>| #[trigger] documents_built(docs, payload.source_documents@, parsed@)
            && sections_arranged(res.sections@, docs),
        index_holds(res.item_index@, index_map(sections_entries(res.sections@))),
{
    let ghost srcs = payload.source_documents@;
    let ghost outcomes = parsed@;
    let mut sources = payload.source_documents;
    let mut parsed = parsed;
    let mut philosophy: Vec<BrowserDocument> = Vec::new();
    let mut policies: Vec<BrowserDocument> = Vec::new();
    let mut features: Vec<BrowserDocument> = Vec::new();
    let mut requirements: Vec<BrowserDocument> = Vec::new();
    let ghost mut docs: Seq<BrowserDocument> = Seq::empty();
    while sources.len() > 0
        invariant
            docs.len() + sources@.len() == srcs.len(),
            sources@.len() == parsed@.len(),
            sources@ == srcs.skip(docs.len() as int),
            parsed@ == outcomes.skip(docs.len() as int),
            srcs.len() == outcomes.len(),
            forall|i: int| 0 <= i < outcomes.len() ==> fits_section(#[trigger] srcs[i].section, outcomes[i]),
            forall|i: int| 0 <= i < docs.len() ==> document_built(#[trigger] docs[i], srcs[i], outcomes[i]),
            philosophy@ == sort_by_path(section_documents(docs, SectionKind::Philosophy)),
            policies@ == sort_by_path(section_documents(docs, SectionKind::Policies)),
            features@ == sort_by_path(section_documents(docs, SectionKind::Features)),
            requirements@ == sort_by_path(section_documents(docs, SectionKind::Requirements)),
        decreases sources@.len(),
    {
        let source = sources.remove(0);
        let outcome = parsed.remove(0);
        let ghost i = docs.len() as int;
        assert(source == srcs[i]);
        assert(outcome == outcomes[i]);
        let section = source.section;
        let doc = parse_source_document(source, outcome);
        proof {
            let next = docs.push(doc);
            assert(next.drop_last() =~= docs);
            assert(next.last() == doc);
            assert(section_documents(next, SectionKind::Philosophy).len() >= 0);
            let pd = section_documents(docs, SectionKind::Philosophy);
            if doc.section == SectionKind::Philosophy {
                assert(pd.push(doc).drop_last() =~= pd);
            }
            let qd = section_documents(docs, SectionKind::Policies);
            if doc.section == SectionKind::Policies {
                assert(qd.push(doc).drop_last() =~= qd);
            }
            let fd = section_documents(docs, SectionKind::Features);
            if doc.section == SectionKind::Features {
                assert(fd.push(doc).drop_last() =~= fd);
            }
            let rd = section_documents(docs, SectionKind::Requirements);
            if doc.section == SectionKind::Requirements {
                assert(rd.push(doc).drop_last() =~= rd);
            }
        }
        let ghost before = docs;
        match section {
            SectionKind::Philosophy => insert_document(&mut philosophy, doc),
            SectionKind::Policies => insert_document(&mut policies, doc),
            SectionKind::Features => insert_document(&mut features, doc),
            SectionKind::Requirements => insert_document(&mut requirements, doc),
        }
        proof {
            docs = before.push(doc);
            assert(sources@ =~= srcs.skip(docs.len() as int));
            assert(parsed@ =~= outcomes.skip(docs.len() as int));
        }
    }
    let ghost final_docs = docs;
    let mut sections: Vec<BrowserSection> = Vec::new();
    sections.push(BrowserSection { kind: SectionKind::Philosophy, label: String::from_str(SectionKind::Philosophy.label()), documents: philosophy });
    sections.push(BrowserSection { kind: SectionKind::Policies, label: String::from_str(SectionKind::Policies.label()), documents: policies });
    sections.push(BrowserSection { kind: SectionKind::Features, label: String::from_str(SectionKind::Features.label()), documents: features });
    sections.push(BrowserSection { kind: SectionKind::Requirements, label: String::from_str(SectionKind::Requirements.label()), documents: requirements });
    let item_index = build_index(&sections);
    assert(sections_arranged(sections@, final_docs));
    assert(documents_built(final_docs, srcs, outcomes));
    BrowserWorkspace {
        workspace_root: payload.workspace_root,
        spec_root: payload.spec_root,
        sections,
        item_index,
        validation: payload.validation,
    }
}

impl BrowserWorkspace {
    /// The index entry of a definition id (`item_index.get(id)`).
    pub fn index_entry(&self, id: &str) -> (res: Option<&BrowserIndexEntry>)
        ensures
            match res {
                Some(e) => e.id@ == id@ && exists|i: int| 0 <= i < self.item_index@.len() && self.item_index@[i] == *e,
                None => forall|i: int| 0 <= i < self.item_index@.len() ==> (#[trigger] self.item_index@[i]).id@ != id@,
            },
    {
        let mut i: usize = 0;
        while i < self.item_index.len()
            invariant
                i <= self.item_index@.len(),
                forall|j: int| 0 <= j < i ==> (#[trigger] self.item_index@[j]).id@ != id@,
            decreases self.item_index@.len() - i,
        {
            if crate::text::str_eq(self.item_index[i].id.as_str(), id) {
                return Some(&self.item_index[i]);
            }
            i = i + 1;
        }
        None
    }
}

} // verus!
