//! `syu explain`: an assessment of the chain around a selection, as text.
use vstd::prelude::*;

use crate::text::{join, join_seq, views};

verus! {

/// Whether the chain around a selection has obvious gaps.
#[derive(Debug, Clone, Copy, PartialEq, Eq, Structural)]
pub enum ExplainAssessment {
    Aligned,
    NeedsAttention,
}

pub open spec fn assessment_label_spec(a: ExplainAssessment) -> Seq<char> {
    match a {
        ExplainAssessment::Aligned => "aligned"@,
        ExplainAssessment::NeedsAttention => "needs-attention"@,
    }
}

pub open spec fn assessment_summary_spec(a: ExplainAssessment) -> Seq<char> {
    match a {
        ExplainAssessment::Aligned => "The connected philosophy, policy, requirement, and feature chain is present with no obvious graph gaps."@,
        ExplainAssessment::NeedsAttention => "The connected chain is present, but at least one obvious gap or mismatch still needs review."@,
    }
}

impl ExplainAssessment {
    pub fn label(self) -> (res: &'static str)
        ensures
            res@ == assessment_label_spec(self),
    {
        match self {
            ExplainAssessment::Aligned => "aligned",
            ExplainAssessment::NeedsAttention => "needs-attention",
        }
    }

    pub fn summary(self) -> (res: &'static str)
        ensures
            res@ == assessment_summary_spec(self),
    {
        match self {
            ExplainAssessment::Aligned => "The connected philosophy, policy, requirement, and feature chain is present with no obvious graph gaps.",
            ExplainAssessment::NeedsAttention => "The connected chain is present, but at least one obvious gap or mismatch still needs review.",
        }
    }
}

/// A definition of the chain.
#[derive(Debug)]
pub struct RelatedNode {
    pub kind: String,
    pub id: String,
    pub title: String,
    pub document_path: String,
}

/// A traced file of the chain.
#[derive(Debug)]
pub struct RelatedTrace {
    pub owner_kind: String,
    pub owner_id: String,
    pub relation_kind: String,
    pub language: String,
    pub file: String,
    pub symbols: Vec<String>,
    pub direct_match: bool,
}

/// A gap of the chain.
#[derive(Debug)]
pub struct Gap {
    pub kind: String,
    pub id: String,
    pub message: String,
}

/// What was selected.
#[derive(Debug)]
pub struct SelectionSummary {
    pub kind: String,
    pub query: String,
}

/// The definitions and traces that the selection names directly.
#[derive(Debug)]
pub struct DirectMatches {
    pub definitions: Vec<RelatedNode>,
    pub traces: Vec<RelatedTrace>,
}

/// The chain around a selection.
#[derive(Debug)]
pub struct RelationReport {
    pub selection: SelectionSummary,
    pub direct_matches: DirectMatches,
    pub philosophies: Vec<RelatedNode>,
    pub policies: Vec<RelatedNode>,
    pub requirements: Vec<RelatedNode>,
    pub features: Vec<RelatedNode>,
    pub traces: Vec<RelatedTrace>,
    pub gaps: Vec<Gap>,
}

/// The chain grouped by layer.
#[derive(Debug)]
pub struct ExplainChain {
    pub philosophies: Vec<RelatedNode>,
    pub policies: Vec<RelatedNode>,
    pub requirements: Vec<RelatedNode>,
    pub features: Vec<RelatedNode>,
}

/// What `syu explain` reports.
#[derive(Debug)]
pub struct ExplainOutput {
    pub selection: SelectionSummary,
    pub assessment: ExplainAssessment,
    pub direct_matches: DirectMatches,
    pub chain: ExplainChain,
    pub traces: Vec<RelatedTrace>,
    pub gaps: Vec<Gap>,
}

/// A chain is aligned exactly when it has no gaps.
pub fn build_explain_output(relation: RelationReport) -> (res: ExplainOutput)
    ensures
        res.assessment == (if relation.gaps@.len() == 0 { ExplainAssessment::Aligned } else { ExplainAssessment::NeedsAttention }),
        res.selection == relation.selection,
        res.direct_matches == relation.direct_matches,
        res.chain.philosophies == relation.philosophies,
        res.chain.policies == relation.policies,
        res.chain.requirements == relation.requirements,
        res.chain.features == relation.features,
        res.traces == relation.traces,
        res.gaps == relation.gaps,
{
    let assessment = if relation.gaps.len() == 0 { ExplainAssessment::Aligned } else { ExplainAssessment::NeedsAttention };
    ExplainOutput {
        selection: relation.selection,
        assessment,
        direct_matches: relation.direct_matches,
        chain: ExplainChain {
            philosophies: relation.philosophies,
            policies: relation.policies,
            requirements: relation.requirements,
            features: relation.features,
        },
        traces: relation.traces,
        gaps: relation.gaps,
    }
}

pub open spec fn node_line(n: RelatedNode) -> Seq<char> {
    "- "@ + n.kind@ + " "@ + n.id@ + " — "@ + n.title@ + " ("@ + n.document_path@ + ")\n"@
}

pub open spec fn node_lines(v: Seq<RelatedNode>) -> Seq<char>
    decreases v.len(),
{
    if v.len() == 0 { Seq::empty() } else { node_lines(v.drop_last()) + node_line(v.last()) }
}

/// A layer of the chain: its label, then one line per definition or `- none`.
pub open spec fn nodes_block(label: Seq<char>, v: Seq<RelatedNode>) -> Seq<char> {
    label + ":\n"@ + (if v.len() == 0 { "- none\n"@ } else { node_lines(v) })
}

pub open spec fn symbols_text(s: Seq<Seq<char>>) -> Seq<char> {
    if s.len() == 0 { "file-only"@ } else { join_seq(s, ", "@) }
}

pub open spec fn trace_line(t: RelatedTrace, mark_direct: bool) -> Seq<char> {
    "- "@ + t.owner_kind@ + " "@ + t.owner_id@ + " "@ + t.relation_kind@ + " "@ + t.language@ + "\t"@ + t.file@ + " ("@
        + symbols_text(views(t.symbols@)) + ")"@ + (if mark_direct && t.direct_match { " (direct match)"@ } else { ""@ })
        + "\n"@
}

pub open spec fn trace_lines(v: Seq<RelatedTrace>, mark_direct: bool) -> Seq<char>
    decreases v.len(),
{
    if v.len() == 0 { Seq::empty() } else { trace_lines(v.drop_last(), mark_direct) + trace_line(v.last(), mark_direct) }
}

pub open spec fn match_line(n: RelatedNode) -> Seq<char> {
    "- "@ + n.kind@ + " "@ + n.id@ + " — "@ + n.title@ + "\n"@
}

pub open spec fn match_lines(v: Seq<RelatedNode>) -> Seq<char>
    decreases v.len(),
{
    if v.len() == 0 { Seq::empty() } else { match_lines(v.drop_last()) + match_line(v.last()) }
}

pub open spec fn gap_lines(v: Seq<Gap>) -> Seq<char>
    decreases v.len(),
{
    if v.len() == 0 { Seq::empty() } else { gap_lines(v.drop_last()) + "- "@ + v.last().kind@ + " "@ + v.last().id@ + " — "@ + v.last().message@ + "\n"@ }
}

/// The text of `syu explain`.
pub open spec fn explain_text_spec(o: ExplainOutput) -> Seq<char> {
    "Selection: "@ + o.selection.kind@ + " "@ + o.selection.query@ + "\n"@
        + "Assessment: "@ + assessment_label_spec(o.assessment) + "\n"@
        + assessment_summary_spec(o.assessment) + "\n"@ + "\n"@
        + "Connected chain:\n"@
        + nodes_block("Philosophies"@, o.chain.philosophies@) + nodes_block("Policies"@, o.chain.policies@)
        + nodes_block("Requirements"@, o.chain.requirements@) + nodes_block("Features"@, o.chain.features@) + "\n"@
        + "Direct matches:\n"@
        + (if o.direct_matches.definitions@.len() == 0 && o.direct_matches.traces@.len() == 0 { "- none\n"@ } else {
            match_lines(o.direct_matches.definitions@) + trace_lines(o.direct_matches.traces@, false)
        }) + "\n"@
        + "Traces in scope:\n"@ + (if o.traces@.len() == 0 { "- none\n"@ } else { trace_lines(o.traces@, true) }) + "\n"@
        + "Obvious gaps:\n"@ + (if o.gaps@.len() == 0 { "- none\n"@ } else { gap_lines(o.gaps@) })
}

fn nodes_text(label: &str, nodes: &Vec<RelatedNode>) -> (res: String)
    ensures
        res@ == nodes_block(label@, nodes@),
{
    let mut out = String::from_str(label);
    out.append(":\n");
    if nodes.len() == 0 {
        out.append("- none\n");
        return out;
    }
    let ghost head = out@;
    let mut i: usize = 0;
    assert(nodes@.take(0) =~= Seq::<RelatedNode>::empty());
    while i < nodes.len()
        invariant
            i <= nodes@.len(),
            out@ == head + node_lines(nodes@.take(i as int)),
        decreases nodes@.len() - i,
    {
        assert(nodes@.take(i + 1).drop_last() =~= nodes@.take(i as int));
        assert(nodes@.take(i + 1).last() == nodes@[i as int]);
        let n = &nodes[i];
        let ghost before = out@;
        out.append("- ");
        out.append(n.kind.as_str());
        out.append(" ");
        out.append(n.id.as_str());
        out.append(" — ");
        out.append(n.title.as_str());
        out.append(" (");
        out.append(n.document_path.as_str());
        out.append(")\n");
        assert(out@ =~= before + node_line(*n));
        i = i + 1;
    }
    assert(nodes@.take(nodes@.len() as int) =~= nodes@);
    out
}

fn traces_text(traces: &Vec<RelatedTrace>, mark_direct: bool) -> (res: String)
    ensures
        res@ == trace_lines(traces@, mark_direct),
{
    proof { reveal_strlit(""); }
    let mut out = String::new();
    let mut i: usize = 0;
    assert(traces@.take(0) =~= Seq::<RelatedTrace>::empty());
    while i < traces.len()
        invariant
            i <= traces@.len(),
            out@ == trace_lines(traces@.take(i as int), mark_direct),
        decreases traces@.len() - i,
    {
        assert(traces@.take(i + 1).drop_last() =~= traces@.take(i as int));
        assert(traces@.take(i + 1).last() == traces@[i as int]);
        let t = &traces[i];
        let ghost before = out@;
        out.append("- ");
        out.append(t.owner_kind.as_str());
        out.append(" ");
        out.append(t.owner_id.as_str());
        out.append(" ");
        out.append(t.relation_kind.as_str());
        out.append(" ");
        out.append(t.language.as_str());
        out.append("\t");
        out.append(t.file.as_str());
        out.append(" (");
        if t.symbols.len() == 0 {
            out.append("file-only");
        } else {
            out.append(join(&t.symbols, ", ").as_str());
        }
        out.append(")");
        out.append(if mark_direct && t.direct_match { " (direct match)" } else { "" });
        out.append("\n");
        assert(out@ =~= before + trace_line(*t, mark_direct));
        i = i + 1;
    }
    assert(traces@.take(traces@.len() as int) =~= traces@);
    out
}

fn matches_text(nodes: &Vec<RelatedNode>) -> (res: String)
    ensures
        res@ == match_lines(nodes@),
{
    proof { reveal_strlit(""); }
    let mut out = String::new();
    let mut i: usize = 0;
    assert(nodes@.take(0) =~= Seq::<RelatedNode>::empty());
    while i < nodes.len()
        invariant
            i <= nodes@.len(),
            out@ == match_lines(nodes@.take(i as int)),
        decreases nodes@.len() - i,
    {
        assert(nodes@.take(i + 1).drop_last() =~= nodes@.take(i as int));
        assert(nodes@.take(i + 1).last() == nodes@[i as int]);
        let n = &nodes[i];
        let ghost before = out@;
        out.append("- ");
        out.append(n.kind.as_str());
        out.append(" ");
        out.append(n.id.as_str());
        out.append(" — ");
        out.append(n.title.as_str());
        out.append("\n");
        assert(out@ =~= before + match_line(*n));
        i = i + 1;
    }
    assert(nodes@.take(nodes@.len() as int) =~= nodes@);
    out
}

fn gaps_text(gaps: &Vec<Gap>) -> (res: String)
    ensures
        res@ == gap_lines(gaps@),
{
    proof { reveal_strlit(""); }
    let mut out = String::new();
    let mut i: usize = 0;
    assert(gaps@.take(0) =~= Seq::<Gap>::empty());
    while i < gaps.len()
        invariant
            i <= gaps@.len(),
            out@ == gap_lines(gaps@.take(i as int)),
        decreases gaps@.len() - i,
    {
        assert(gaps@.take(i + 1).drop_last() =~= gaps@.take(i as int));
        assert(gaps@.take(i + 1).last() == gaps@[i as int]);
        let g = &gaps[i];
        let ghost before = out@;
        out.append("- ");
        out.append(g.kind.as_str());
        out.append(" ");
        out.append(g.id.as_str());
        out.append(" — ");
        out.append(g.message.as_str());
        out.append("\n");
        assert(out@ =~= before + "- "@ + g.kind@ + " "@ + g.id@ + " — "@ + g.message@ + "\n"@);
        i = i + 1;
    }
    assert(gaps@.take(gaps@.len() as int) =~= gaps@);
    out
}

/// Renders `syu explain` as text.
pub fn render_explain_text(output: &ExplainOutput) -> (res: String)
    ensures
        res@ == explain_text_spec(*output),
{
    let mut r = String::from_str("Selection: ");
    r.append(output.selection.kind.as_str());
    r.append(" ");
    r.append(output.selection.query.as_str());
    r.append("\n");
    r.append("Assessment: ");
    r.append(output.assessment.label());
    r.append("\n");
    r.append(output.assessment.summary());
    r.append("\n");
    r.append("\n");
    r.append("Connected chain:\n");
    r.append(nodes_text("Philosophies", &output.chain.philosophies).as_str());
    r.append(nodes_text("Policies", &output.chain.policies).as_str());
    r.append(nodes_text("Requirements", &output.chain.requirements).as_str());
    r.append(nodes_text("Features", &output.chain.features).as_str());
    r.append("\n");
    r.append("Direct matches:\n");
    if output.direct_matches.definitions.len() == 0 && output.direct_matches.traces.len() == 0 {
        r.append("- none\n");
    } else {
        r.append(matches_text(&output.direct_matches.definitions).as_str());
        r.append(traces_text(&output.direct_matches.traces, false).as_str());
    }
    r.append("\n");
    r.append("Traces in scope:\n");
    if output.traces.len() == 0 {
        r.append("- none\n");
    } else {
        r.append(traces_text(&output.traces, true).as_str());
    }
    r.append("\n");
    r.append("Obvious gaps:\n");
    if output.gaps.len() == 0 {
        r.append("- none\n");
    } else {
        r.append(gaps_text(&output.gaps).as_str());
    }
    r
}

} // verus!
