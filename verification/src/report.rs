//! The plain-text report of `syu validate`.
use vstd::prelude::*;

use crate::browser::{IssueSpec, ReferencedRule, Severity, ValidationIssue, issue_views};
use crate::check::{FilteredIssueView, describe_filters_spec};
use crate::model::CheckResult;
use crate::rules::{find_rule, rule_by_code};
use crate::text::{collapse_seq, collapse_whitespace, decimal, usize_to_string, views};

verus! {

/// The name that `{:?}` prints for a severity.
pub open spec fn severity_debug(s: Severity) -> Seq<char> {
    match s {
        Severity::Error => "Error"@,
        Severity::Warning => "Warning"@,
    }
}

pub open spec fn location_part(location: Option<Seq<char>>) -> Seq<char> {
    match location {
        Some(v) => " ("@ + v + ")"@,
        None => Seq::empty(),
    }
}

/// ` (<title>)` for a code that the catalog knows, else nothing.
pub open spec fn title_suffix(catalog: Seq<ReferencedRule>, code: Seq<char>) -> Seq<char> {
    match find_rule(catalog, code) {
        Some(r) => " ("@ + r.title@ + ")"@,
        None => Seq::empty(),
    }
}

pub open spec fn rule_line(catalog: Seq<ReferencedRule>, code: Seq<char>) -> Seq<char> {
    match find_rule(catalog, code) {
        Some(r) => "  rule: "@ + r.genre@ + " / "@ + r.code@ + " / "@ + r.title@ + "\n"@,
        None => Seq::empty(),
    }
}

/// The lines that describe one diagnostic.
pub open spec fn issue_block(catalog: Seq<ReferencedRule>, issue: IssueSpec) -> Seq<char> {
    "- ["@ + severity_debug(issue.severity) + "] "@ + issue.code + title_suffix(catalog, issue.code) + " "@
        + issue.subject + location_part(issue.location) + ": "@ + issue.message + "\n"@
        + rule_line(catalog, issue.code)
}

pub open spec fn issue_blocks(catalog: Seq<ReferencedRule>, issues: Seq<IssueSpec>) -> Seq<char>
    decreases issues.len(),
{
    if issues.len() == 0 {
        Seq::empty()
    } else {
        issue_blocks(catalog, issues.drop_last()) + issue_block(catalog, issues.last())
    }
}

/// The lines that describe one referenced rule.
pub open spec fn rule_block(r: ReferencedRule) -> Seq<char> {
    "- ["@ + r.severity@ + "] "@ + r.code@ + " ("@ + r.genre@ + ")\n"@
        + "  title: "@ + r.title@ + "\n"@
        + "  summary: "@ + collapse_seq(r.summary@) + "\n"@
        + "  description: "@ + collapse_seq(r.description@) + "\n"@
}

pub open spec fn rule_blocks(rules: Seq<ReferencedRule>) -> Seq<char>
    decreases rules.len(),
{
    if rules.len() == 0 {
        Seq::empty()
    } else {
        rule_blocks(rules.drop_last()) + rule_block(rules.last())
    }
}

/// The status line and the three summary lines.
pub open spec fn report_head(success: bool, filtered: bool, result: CheckResult) -> Seq<char> {
    let c = result.definition_counts;
    let t = result.trace_summary;
    "syu validate "@ + (if success { "passed"@ } else { "failed"@ }) + (if filtered { " (filtered view)"@ } else { ""@ })
        + "\n"@
        + "workspace: "@ + result.workspace_root@ + "\n"@
        + "definitions: philosophies="@ + decimal(c.philosophies as nat) + " policies="@ + decimal(c.policies as nat)
        + " requirements="@ + decimal(c.requirements as nat) + " features="@ + decimal(c.features as nat) + "\n"@
        + "traceability: requirements="@ + decimal(t.requirement_traces.validated as nat) + "/"@
        + decimal(t.requirement_traces.declared as nat) + " features="@ + decimal(t.feature_traces.validated as nat)
        + "/"@ + decimal(t.feature_traces.declared as nat) + "\n"@
}

/// The two lines that describe a filtered view.
pub open spec fn filter_lines(v: FilteredIssueView) -> Seq<char> {
    "filters: "@ + describe_filters_spec(views(v.severities@), views(v.genres@), views(v.rules@)) + "\n"@
        + "showing "@ + decimal(v.displayed_issue_count as nat) + " of "@ + decimal(v.total_issue_count as nat)
        + " issues after filtering\n"@
}

pub open spec fn issues_section(catalog: Seq<ReferencedRule>, result: CheckResult, view: Option<FilteredIssueView>) -> Seq<char> {
    if result.issues@.len() > 0 {
        "\nissues:\n"@ + issue_blocks(catalog, issue_views(result.issues@))
    } else if view is Some && view->Some_0.total_issue_count > 0 {
        "\nissues:\n- no issues matched the active filters.\n"@
    } else {
        Seq::empty()
    }
}

pub open spec fn rules_section(result: CheckResult) -> Seq<char> {
    if result.referenced_rules@.len() > 0 {
        "\nreferenced rules:\n"@ + rule_blocks(result.referenced_rules@)
    } else {
        Seq::empty()
    }
}

/// The whole report.
pub open spec fn report_spec(
    success: bool,
    result: CheckResult,
    view: Option<FilteredIssueView>,
    catalog: Seq<ReferencedRule>,
) -> Seq<char> {
    report_head(success, view is Some, result)
        + (match view { Some(v) => filter_lines(v), None => Seq::empty() })
        + issues_section(catalog, result, view)
        + rules_section(result)
}

pub(crate) fn severity_name(s: Severity) -> (res: &'static str)
    ensures
        res@ == severity_debug(s),
{
    match s {
        Severity::Error => "Error",
        Severity::Warning => "Warning",
    }
}

/// The ` (<title>)` that follows a code in the report.
pub fn rule_title_suffix(code: &str, catalog: &Vec<ReferencedRule>) -> (res: String)
    ensures
        res@ == title_suffix(catalog@, code@),
{
    match rule_by_code(code, catalog) {
        Some(k) => {
            let mut out = String::from_str(" (");
            out.append(catalog[k].title.as_str());
            out.append(")");
            out
        },
        None => {
            proof { reveal_strlit(""); }
            String::new()
        },
    }
}

fn issue_text(issue: &ValidationIssue, catalog: &Vec<ReferencedRule>) -> (res: String)
    ensures
        res@ == issue_block(catalog@, issue@),
{
    let mut out = String::from_str("- [");
    out.append(severity_name(issue.severity));
    out.append("] ");
    out.append(issue.code.as_str());
    let suffix = rule_title_suffix(issue.code.as_str(), catalog);
    out.append(suffix.as_str());
    out.append(" ");
    out.append(issue.subject.as_str());
    match &issue.location {
        Some(v) => {
            out.append(" (");
            out.append(v.as_str());
            out.append(")");
        },
        None => {},
    }
    out.append(": ");
    out.append(issue.message.as_str());
    out.append("\n");
    match rule_by_code(issue.code.as_str(), catalog) {
        Some(k) => {
            let r = &catalog[k];
            out.append("  rule: ");
            out.append(r.genre.as_str());
            out.append(" / ");
            out.append(r.code.as_str());
            out.append(" / ");
            out.append(r.title.as_str());
            out.append("\n");
        },
        None => {},
    }
    out
}

fn rule_text(r: &ReferencedRule) -> (res: String)
    ensures
        res@ == rule_block(*r),
{
    let mut out = String::from_str("- [");
    out.append(r.severity.as_str());
    out.append("] ");
    out.append(r.code.as_str());
    out.append(" (");
    out.append(r.genre.as_str());
    out.append(")\n");
    out.append("  title: ");
    out.append(r.title.as_str());
    out.append("\n");
    out.append("  summary: ");
    let summary = collapse_whitespace(r.summary.as_str());
    out.append(summary.as_str());
    out.append("\n");
    out.append("  description: ");
    let description = collapse_whitespace(r.description.as_str());
    out.append(description.as_str());
    out.append("\n");
    out
}

fn head_text(success: bool, filtered: bool, result: &CheckResult) -> (res: String)
    ensures
        res@ == report_head(success, filtered, *result),
{
    proof { reveal_strlit(""); }
    let mut out = String::from_str("syu validate ");
    out.append(if success { "passed" } else { "failed" });
    out.append(if filtered { " (filtered view)" } else { "" });
    out.append("\n");
    out.append("workspace: ");
    out.append(result.workspace_root.as_str());
    out.append("\n");
    let c = result.definition_counts;
    out.append("definitions: philosophies=");
    out.append(usize_to_string(c.philosophies).as_str());
    out.append(" policies=");
    out.append(usize_to_string(c.policies).as_str());
    out.append(" requirements=");
    out.append(usize_to_string(c.requirements).as_str());
    out.append(" features=");
    out.append(usize_to_string(c.features).as_str());
    out.append("\n");
    let t = result.trace_summary;
    out.append("traceability: requirements=");
    out.append(usize_to_string(t.requirement_traces.validated).as_str());
    out.append("/");
    out.append(usize_to_string(t.requirement_traces.declared).as_str());
    out.append(" features=");
    out.append(usize_to_string(t.feature_traces.validated).as_str());
    out.append("/");
    out.append(usize_to_string(t.feature_traces.declared).as_str());
    out.append("\n");
    out
}

fn filter_text(v: &FilteredIssueView) -> (res: String)
    ensures
        res@ == filter_lines(*v),
{
    let mut out = String::from_str("filters: ");
    out.append(v.describe_filters().as_str());
    out.append("\n");
    out.append("showing ");
    out.append(usize_to_string(v.displayed_issue_count).as_str());
    out.append(" of ");
    out.append(usize_to_string(v.total_issue_count).as_str());
    out.append(" issues after filtering\n");
    out
}

fn issues_text(result: &CheckResult, view: Option<&FilteredIssueView>, catalog: &Vec<ReferencedRule>) -> (res: String)
    ensures
        res@ == issues_section(catalog@, *result, match view { Some(v) => Some(*v), None => None }),
{
    proof { reveal_strlit(""); }
    if result.issues.len() > 0 {
        let mut out = String::from_str("\nissues:\n");
        let ghost head = out@;
        let mut i: usize = 0;
        while i < result.issues.len()
            invariant
                i <= result.issues.len(),
                head == "\nissues:\n"@,
                out@ == head + issue_blocks(catalog@, issue_views(result.issues@).take(i as int)),
            decreases result.issues.len() - i,
        {
            let ghost all = issue_views(result.issues@);
            assert(all.take(i + 1).drop_last() =~= all.take(i as int));
            assert(all.take(i + 1).last() == result.issues@[i as int]@);
            let piece = issue_text(&result.issues[i], catalog);
            out.append(piece.as_str());
            assert(out@ =~= head + issue_blocks(catalog@, all.take(i + 1)));
            i = i + 1;
        }
        assert(issue_views(result.issues@).take(result.issues.len() as int) =~= issue_views(result.issues@));
        out
    } else {
        match view {
            Some(v) => {
                if v.total_issue_count > 0 {
                    String::from_str("\nissues:\n- no issues matched the active filters.\n")
                } else {
                    String::new()
                }
            },
            None => String::new(),
        }
    }
}

fn rules_text(result: &CheckResult) -> (res: String)
    ensures
        res@ == rules_section(*result),
{
    proof { reveal_strlit(""); }
    if result.referenced_rules.len() == 0 {
        return String::new();
    }
    let mut out = String::from_str("\nreferenced rules:\n");
    let ghost head = out@;
    let ghost all = result.referenced_rules@;
    let mut i: usize = 0;
    while i < result.referenced_rules.len()
        invariant
            i <= result.referenced_rules.len(),
            all == result.referenced_rules@,
            head == "\nreferenced rules:\n"@,
            out@ == head + rule_blocks(all.take(i as int)),
        decreases result.referenced_rules.len() - i,
    {
        assert(all.take(i + 1).drop_last() =~= all.take(i as int));
        assert(all.take(i + 1).last() == all[i as int]);
        let piece = rule_text(&result.referenced_rules[i]);
        out.append(piece.as_str());
        assert(out@ =~= head + rule_blocks(all.take(i + 1)));
        i = i + 1;
    }
    assert(all.take(result.referenced_rules.len() as int) =~= all);
    out
}

/// The text report: the status line, the counts, the filters that are set,
/// each diagnostic with its rule, and each referenced rule.
pub fn render_text_report(
    overall_success: bool,
    result: &CheckResult,
    filtered_view: Option<&FilteredIssueView>,
    catalog: &Vec<ReferencedRule>,
) -> (res: String)
    ensures
        res@ == report_spec(overall_success, *result, match filtered_view { Some(v) => Some(*v), None => None }, catalog@),
{
    proof { reveal_strlit(""); }
    let mut output = head_text(overall_success, filtered_view.is_some(), result);
    match filtered_view {
        Some(v) => {
            let lines = filter_text(v);
            output.append(lines.as_str());
        },
        None => {
            output.append("");
        },
    }
    let issues = issues_text(result, filtered_view, catalog);
    output.append(issues.as_str());
    let rules = rules_text(result);
    output.append(rules.as_str());
    output
}

} // verus!
