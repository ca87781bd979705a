use vstd::prelude::*;

use crate::browser::{
    DefinitionCounts, ReferencedRule, TraceSummary, IssueSpec, Severity, TraceCount, ValidationIssue, issue_views, opt_view,
};
use crate::model::{CheckResult, Feature, Philosophy, Policy, Requirement, TraceGroup, TraceReference, ValidateConfig};
use crate::cli::{ValidateArgs, ValidationGenreFilter, ValidationSeverityFilter, genre_filter_spec, severity_filter_spec};
use crate::rules::{genre_of, rule_genre, issue_codes, referenced_rules, rule_code_views, used_rules};
use crate::order::{insert_sorted_unique, strictly_sorted, string_views, lemma_order_antisym, lemma_order_eq, lemma_order_range, lemma_order_trans, seq_order, str_order};
use crate::text::{
    cat, cat3, blank, contains_seq, decimal, is_blank, join_seq, owned, str_eq, trim, trim_seq, views,
};

verus! {

// ---------------------------------------------------------------------------
// Roles and delivery states
// ---------------------------------------------------------------------------

/// Whether a trace map holds a requirement's tests or a feature's implementations.
#[derive(Debug, Clone, Copy, PartialEq, Eq, Structural)]
pub enum TraceRole {
    RequirementTest,
    FeatureImplementation,
}

pub open spec fn role_label_spec(role: TraceRole) -> Seq<char> {
    match role {
        TraceRole::RequirementTest => "test"@,
        TraceRole::FeatureImplementation => "implementation"@,
    }
}

pub open spec fn role_subject_kind_spec(role: TraceRole) -> Seq<char> {
    match role {
        TraceRole::RequirementTest => "requirement"@,
        TraceRole::FeatureImplementation => "feature"@,
    }
}

pub open spec fn role_relation_spec(role: TraceRole) -> Seq<char> {
    match role {
        TraceRole::RequirementTest => "tests"@,
        TraceRole::FeatureImplementation => "implementations"@,
    }
}

impl TraceRole {
    pub fn label(self) -> (res: &'static str)
        ensures
            res@ == role_label_spec(self),
    {
        match self {
            TraceRole::RequirementTest => "test",
            TraceRole::FeatureImplementation => "implementation",
        }
    }

    pub fn subject_kind(self) -> (res: &'static str)
        ensures
            res@ == role_subject_kind_spec(self),
    {
        match self {
            TraceRole::RequirementTest => "requirement",
            TraceRole::FeatureImplementation => "feature",
        }
    }

    pub fn relation_name(self) -> (res: &'static str)
        ensures
            res@ == role_relation_spec(self),
    {
        match self {
            TraceRole::RequirementTest => "tests",
            TraceRole::FeatureImplementation => "implementations",
        }
    }
}

#[derive(Debug, Clone, Copy, PartialEq, Eq, Structural)]
pub enum DeliveryStatus {
    Planned,
    Implemented,
}

/// `planned` (or the tolerated misspelling `planed`) and `implemented`, ignoring
/// surrounding whitespace; anything else has no delivery state.
pub open spec fn delivery_status_spec(status: Seq<char>) -> Option<DeliveryStatus> {
    let t = trim_seq(status);
    if t == "planned"@ || t == "planed"@ {
        Some(DeliveryStatus::Planned)
    } else if t == "implemented"@ {
        Some(DeliveryStatus::Implemented)
    } else {
        None
    }
}

pub fn normalize_delivery_status(status: &str) -> (res: Option<DeliveryStatus>)
    ensures
        res == delivery_status_spec(status@),
{
    let t = trim(status);
    if str_eq(t.as_str(), "planned") || str_eq(t.as_str(), "planed") {
        Some(DeliveryStatus::Planned)
    } else if str_eq(t.as_str(), "implemented") {
        Some(DeliveryStatus::Implemented)
    } else {
        None
    }
}

pub open spec fn severity_label_spec(severity: Severity) -> Seq<char> {
    match severity {
        Severity::Error => "error"@,
        Severity::Warning => "warning"@,
    }
}

pub fn severity_label(severity: Severity) -> (res: &'static str)
    ensures
        res@ == severity_label_spec(severity),
{
    match severity {
        Severity::Error => "error",
        Severity::Warning => "warning",
    }
}

// ---------------------------------------------------------------------------
// Message helpers
// ---------------------------------------------------------------------------

/// `kind id`, the subject of a diagnostic about one definition.
pub open spec fn subject_of(kind: Seq<char>, id: Seq<char>) -> Seq<char> {
    kind + " "@ + id
}

pub fn subject(kind: &str, id: &str) -> (res: String)
    ensures
        res@ == subject_of(kind@, id@),
{
    let mut s = String::from_str(kind);
    s.append(" ");
    s.append(id);
    s
}

pub fn append_issue(issues: &mut Vec<ValidationIssue>, issue: ValidationIssue)
    ensures
        issue_views(final(issues)@) == issue_views(old(issues)@).push(issue@),
{
    issues.push(issue);
    assert(issue_views(issues@) =~= issue_views(old(issues)@).push(issue@));
}

// ---------------------------------------------------------------------------
// Blank fields
// ---------------------------------------------------------------------------

pub open spec fn blank_issue(kind: Seq<char>, field: Seq<char>) -> IssueSpec {
    IssueSpec {
        code: "SYU-workspace-blank-001"@,
        severity: Severity::Error,
        subject: kind,
        location: Some(field),
        message: "Field `"@ + field + "` must not be blank."@,
        suggestion: Some(
            "Populate `"@ + field + "` in the "@ + kind
                + " definition before running `syu validate`."@,
        ),
    }
}

pub open spec fn blank_issues(kind: Seq<char>, field: Seq<char>, value: Seq<char>) -> Seq<IssueSpec> {
    if is_blank(value) {
        seq![blank_issue(kind, field)]
    } else {
        Seq::empty()
    }
}

/// Reports a field whose value is empty or only whitespace.
pub fn validate_non_empty_field(
    kind: &str,
    field_name: &str,
    value: &str,
    issues: &mut Vec<ValidationIssue>,
)
    ensures
        issue_views(final(issues)@) == issue_views(old(issues)@) + blank_issues(
            kind@,
            field_name@,
            value@,
        ),
{
    if blank(value) {
        let mut message = String::from_str("Field `");
        message.append(field_name);
        message.append("` must not be blank.");
        let mut suggestion = String::from_str("Populate `");
        suggestion.append(field_name);
        suggestion.append("` in the ");
        suggestion.append(kind);
        suggestion.append(" definition before running `syu validate`.");
        let issue = ValidationIssue::error(
            "SYU-workspace-blank-001",
            owned(kind),
            Some(owned(field_name)),
            message,
            Some(suggestion),
        );
        append_issue(issues, issue);
    } else {
        assert(issue_views(issues@) =~= issue_views(issues@) + Seq::<IssueSpec>::empty());
    }
}

// ---------------------------------------------------------------------------
// Duplicate identifiers and links
// ---------------------------------------------------------------------------

/// Whether position `i` of `s` repeats an earlier value.
pub open spec fn repeats_earlier(s: Seq<Seq<char>>, i: int) -> bool {
    s.take(i).contains(s[i])
}

fn occurs_before(values: &Vec<String>, i: usize) -> (res: bool)
    requires
        i < values.len(),
    ensures
        res == repeats_earlier(views(values@), i as int),
{
    let mut k: usize = 0;
    while k < i
        invariant
            i < values.len(),
            k <= i,
            forall|t: int| 0 <= t < k ==> values@[t]@ != values@[i as int]@,
        decreases i - k,
    {
        if str_eq(values[k].as_str(), values[i].as_str()) {
            assert(views(values@).take(i as int)[k as int] == views(values@)[i as int]);
            return true;
        }
        k = k + 1;
    }
    assert forall|t: int| 0 <= t < i implies views(values@).take(i as int)[t] != views(
        values@,
    )[i as int] by {}
    false
}

pub open spec fn duplicate_id_issue(kind: Seq<char>, id: Seq<char>) -> IssueSpec {
    IssueSpec {
        code: "SYU-workspace-duplicate-001"@,
        severity: Severity::Error,
        subject: subject_of(kind, id),
        location: None,
        message: "Duplicate "@ + kind + " id `"@ + id + "` was found in the specification set."@,
        suggestion: Some(
            "Ensure `"@ + id + "` is declared only once across all "@ + kind + " YAML files."@,
        ),
    }
}

/// One diagnostic per identifier that repeats an earlier one, in order.
pub open spec fn duplicate_id_issues(kind: Seq<char>, ids: Seq<Seq<char>>) -> Seq<IssueSpec>
    decreases ids.len(),
{
    if ids.len() == 0 {
        Seq::empty()
    } else {
        let prev = duplicate_id_issues(kind, ids.drop_last());
        if ids.drop_last().contains(ids.last()) {
            prev.push(duplicate_id_issue(kind, ids.last()))
        } else {
            prev
        }
    }
}

/// Reports every definition identifier that was already declared.
pub fn validate_unique_ids(kind: &str, ids: &Vec<String>, issues: &mut Vec<ValidationIssue>)
    ensures
        issue_views(final(issues)@) == issue_views(old(issues)@) + duplicate_id_issues(
            kind@,
            views(ids@),
        ),
{
    let mut i: usize = 0;
    assert(views(ids@).take(0) =~= Seq::<Seq<char>>::empty());
    assert(issue_views(issues@) =~= issue_views(old(issues)@) + Seq::<IssueSpec>::empty());
    while i < ids.len()
        invariant
            i <= ids.len(),
            issue_views(issues@) == issue_views(old(issues)@) + duplicate_id_issues(
                kind@,
                views(ids@).take(i as int),
            ),
        decreases ids.len() - i,
    {
        proof {
            assert(views(ids@).take(i + 1).drop_last() =~= views(ids@).take(i as int));
            assert(views(ids@).take(i + 1).last() == ids@[i as int]@);
        }
        if occurs_before(ids, i) {
            let id = ids[i].as_str();
            let mut message = String::from_str("Duplicate ");
            message.append(kind);
            message.append(" id `");
            message.append(id);
            message.append("` was found in the specification set.");
            let mut suggestion = String::from_str("Ensure `");
            suggestion.append(id);
            suggestion.append("` is declared only once across all ");
            suggestion.append(kind);
            suggestion.append(" YAML files.");
            let issue = ValidationIssue::error(
                "SYU-workspace-duplicate-001",
                subject(kind, id),
                None,
                message,
                Some(suggestion),
            );
            let ghost before = issue_views(issues@);
            append_issue(issues, issue);
            assert(issue_views(issues@) =~= issue_views(old(issues)@) + duplicate_id_issues(
                kind@,
                views(ids@).take(i + 1),
            ));
        }
        i = i + 1;
    }
    assert(views(ids@).take(ids.len() as int) =~= views(ids@));
}

pub open spec fn duplicate_link_issue(
    owner_kind: Seq<char>,
    owner_id: Seq<char>,
    relation: Seq<char>,
    target_kind: Seq<char>,
    value: Seq<char>,
) -> IssueSpec {
    IssueSpec {
        code: "SYU-graph-duplicate-001"@,
        severity: Severity::Error,
        subject: subject_of(owner_kind, owner_id),
        location: Some(relation),
        message: owner_kind + " `"@ + owner_id + "` repeats linked "@ + target_kind + " `"@
            + value + "` in `"@ + relation + "`."@,
        suggestion: Some(
            "Remove the duplicate `"@ + value + "` entry from `"@ + relation + "` in "@
                + owner_kind + " `"@ + owner_id + "`."@,
        ),
    }
}

/// One diagnostic per link that repeats an earlier link of the same relation.
pub open spec fn duplicate_link_issues(
    owner_kind: Seq<char>,
    owner_id: Seq<char>,
    relation: Seq<char>,
    target_kind: Seq<char>,
    values: Seq<Seq<char>>,
) -> Seq<IssueSpec>
    decreases values.len(),
{
    if values.len() == 0 {
        Seq::empty()
    } else {
        let prev = duplicate_link_issues(
            owner_kind,
            owner_id,
            relation,
            target_kind,
            values.drop_last(),
        );
        if values.drop_last().contains(values.last()) {
            prev.push(
                duplicate_link_issue(owner_kind, owner_id, relation, target_kind, values.last()),
            )
        } else {
            prev
        }
    }
}

/// Reports every link that a definition lists twice in one relation.
pub fn validate_duplicate_links(
    owner_kind: &str,
    owner_id: &str,
    relation_name: &str,
    target_kind: &str,
    values: &Vec<String>,
    issues: &mut Vec<ValidationIssue>,
)
    ensures
        issue_views(final(issues)@) == issue_views(old(issues)@) + duplicate_link_issues(
            owner_kind@,
            owner_id@,
            relation_name@,
            target_kind@,
            views(values@),
        ),
{
    let mut i: usize = 0;
    assert(views(values@).take(0) =~= Seq::<Seq<char>>::empty());
    assert(issue_views(issues@) =~= issue_views(old(issues)@) + Seq::<IssueSpec>::empty());
    while i < values.len()
        invariant
            i <= values.len(),
            issue_views(issues@) == issue_views(old(issues)@) + duplicate_link_issues(
                owner_kind@,
                owner_id@,
                relation_name@,
                target_kind@,
                views(values@).take(i as int),
            ),
        decreases values.len() - i,
    {
        proof {
            assert(views(values@).take(i + 1).drop_last() =~= views(values@).take(i as int));
            assert(views(values@).take(i + 1).last() == values@[i as int]@);
        }
        if occurs_before(values, i) {
            let value = values[i].as_str();
            let mut message = String::from_str(owner_kind);
            message.append(" `");
            message.append(owner_id);
            message.append("` repeats linked ");
            message.append(target_kind);
            message.append(" `");
            message.append(value);
            message.append("` in `");
            message.append(relation_name);
            message.append("`.");
            let mut suggestion = String::from_str("Remove the duplicate `");
            suggestion.append(value);
            suggestion.append("` entry from `");
            suggestion.append(relation_name);
            suggestion.append("` in ");
            suggestion.append(owner_kind);
            suggestion.append(" `");
            suggestion.append(owner_id);
            suggestion.append("`.");
            let issue = ValidationIssue::error(
                "SYU-graph-duplicate-001",
                subject(owner_kind, owner_id),
                Some(owned(relation_name)),
                message,
                Some(suggestion),
            );
            append_issue(issues, issue);
            assert(issue_views(issues@) =~= issue_views(old(issues)@) + duplicate_link_issues(
                owner_kind@,
                owner_id@,
                relation_name@,
                target_kind@,
                views(values@).take(i + 1),
            ));
        }
        i = i + 1;
    }
    assert(views(values@).take(values.len() as int) =~= views(values@));
}


// ---------------------------------------------------------------------------
// Links between layers
// ---------------------------------------------------------------------------

/// A definition seen from a definition that links to it: its identifier, the
/// links it declares back, and its delivery status text.
#[derive(Debug)]
pub struct LinkTarget {
    pub id: String,
    pub backlinks: Vec<String>,
    pub status: String,
}

pub struct LinkTargetSpec {
    pub id: Seq<char>,
    pub backlinks: Seq<Seq<char>>,
    pub status: Seq<char>,
}

pub open spec fn target_view(t: LinkTarget) -> LinkTargetSpec {
    LinkTargetSpec { id: t.id@, backlinks: views(t.backlinks@), status: t.status@ }
}

pub open spec fn target_views(t: Seq<LinkTarget>) -> Seq<LinkTargetSpec> {
    Seq::new(t.len(), |i: int| target_view(t[i]))
}

/// The last target with identifier `id`, or -1; a later declaration hides an
/// earlier one with the same identifier.
pub open spec fn find_last(targets: Seq<LinkTargetSpec>, id: Seq<char>) -> int
    decreases targets.len(),
{
    if targets.len() == 0 {
        -1
    } else if targets.last().id == id {
        targets.len() - 1
    } else {
        find_last(targets.drop_last(), id)
    }
}

pub proof fn lemma_find_last_bounds(targets: Seq<LinkTargetSpec>, id: Seq<char>)
    ensures
        -1 <= find_last(targets, id) < targets.len(),
        find_last(targets, id) >= 0 ==> targets[find_last(targets, id)].id == id,
        find_last(targets, id) == -1 ==> forall|i: int|
            0 <= i < targets.len() ==> #[trigger] targets[i].id != id,
    decreases targets.len(),
{
    if targets.len() > 0 && targets.last().id != id {
        lemma_find_last_bounds(targets.drop_last(), id);
        assert forall|i: int| 0 <= i < targets.len() && find_last(targets, id) == -1 implies #[trigger] targets[i].id != id by {
            if i < targets.len() - 1 {
                assert(targets[i] == targets.drop_last()[i]);
            }
        }
    }
}

fn clone_strings(v: &Vec<String>) -> (res: Vec<String>)
    ensures
        views(res@) == views(v@),
{
    let mut out: Vec<String> = Vec::new();
    let mut i: usize = 0;
    while i < v.len()
        invariant
            out@.len() == i,
            i <= v.len(),
            views(out@) == views(v@).take(i as int),
        decreases v.len() - i,
    {
        let c = v[i].clone();
        assert(c@ == v@[i as int]@);
        let ghost before = out@;
        out.push(c);
        assert(out@ == before.push(c));
        assert forall|j: int| 0 <= j < i + 1 implies views(out@)[j] == views(v@).take(i + 1)[j] by {
            if j < i {
                assert(out@[j] == before[j]);
                assert(views(before)[j] == views(v@).take(i as int)[j]);
            }
        }
        assert(views(out@) =~= views(v@).take(i + 1));
        i = i + 1;
    }
    assert(views(v@).take(v.len() as int) =~= views(v@));
    out
}

pub open spec fn policies_for_philosophy_spec(pols: Seq<Policy>) -> Seq<LinkTargetSpec> {
    Seq::new(pols.len(), |i: int| LinkTargetSpec { id: pols[i].id@, backlinks: views(pols[i].linked_philosophies@), status: Seq::empty() })
}

pub open spec fn policies_for_requirement_spec(pols: Seq<Policy>) -> Seq<LinkTargetSpec> {
    Seq::new(pols.len(), |i: int| LinkTargetSpec { id: pols[i].id@, backlinks: views(pols[i].linked_requirements@), status: Seq::empty() })
}

pub open spec fn philosophies_for_policy_spec(phils: Seq<Philosophy>) -> Seq<LinkTargetSpec> {
    Seq::new(phils.len(), |i: int| LinkTargetSpec { id: phils[i].id@, backlinks: views(phils[i].linked_policies@), status: Seq::empty() })
}

pub open spec fn requirements_for_policy_spec(reqs: Seq<Requirement>) -> Seq<LinkTargetSpec> {
    Seq::new(reqs.len(), |i: int| LinkTargetSpec { id: reqs[i].id@, backlinks: views(reqs[i].linked_policies@), status: reqs[i].status@ })
}

pub open spec fn requirements_for_feature_spec(reqs: Seq<Requirement>) -> Seq<LinkTargetSpec> {
    Seq::new(reqs.len(), |i: int| LinkTargetSpec { id: reqs[i].id@, backlinks: views(reqs[i].linked_features@), status: reqs[i].status@ })
}

pub open spec fn features_for_requirement_spec(feats: Seq<Feature>) -> Seq<LinkTargetSpec> {
    Seq::new(feats.len(), |i: int| LinkTargetSpec { id: feats[i].id@, backlinks: views(feats[i].linked_requirements@), status: feats[i].status@ })
}

/// Policies as seen from philosophies (which they link back through `linked_philosophies`).
pub fn policies_for_philosophy(pols: &Vec<Policy>) -> (res: Vec<LinkTarget>)
    ensures
        target_views(res@) == policies_for_philosophy_spec(pols@),
{
    let mut out: Vec<LinkTarget> = Vec::new();
    let mut i: usize = 0;
    while i < pols.len()
        invariant
            out@.len() == i,
            i <= pols.len(),
            target_views(out@) == policies_for_philosophy_spec(pols@).take(i as int),
        decreases pols.len() - i,
    {
        let t = LinkTarget { id: pols[i].id.clone(), backlinks: clone_strings(&pols[i].linked_philosophies), status: String::new() };
        let ghost before = out@;
        out.push(t);
        assert(out@ == before.push(t));
        assert(target_views(out@) =~= policies_for_philosophy_spec(pols@).take(i + 1));
        i = i + 1;
    }
    assert(policies_for_philosophy_spec(pols@).take(pols.len() as int) =~= policies_for_philosophy_spec(pols@));
    out
}

/// Policies as seen from requirements (which they link back through `linked_requirements`).
pub fn policies_for_requirement(pols: &Vec<Policy>) -> (res: Vec<LinkTarget>)
    ensures
        target_views(res@) == policies_for_requirement_spec(pols@),
{
    let mut out: Vec<LinkTarget> = Vec::new();
    let mut i: usize = 0;
    while i < pols.len()
        invariant
            out@.len() == i,
            i <= pols.len(),
            target_views(out@) == policies_for_requirement_spec(pols@).take(i as int),
        decreases pols.len() - i,
    {
        let t = LinkTarget { id: pols[i].id.clone(), backlinks: clone_strings(&pols[i].linked_requirements), status: String::new() };
        let ghost before = out@;
        out.push(t);
        assert(out@ == before.push(t));
        assert(target_views(out@) =~= policies_for_requirement_spec(pols@).take(i + 1));
        i = i + 1;
    }
    assert(policies_for_requirement_spec(pols@).take(pols.len() as int) =~= policies_for_requirement_spec(pols@));
    out
}

/// Philosophies as seen from policies (which they link back through `linked_policies`).
pub fn philosophies_for_policy(phils: &Vec<Philosophy>) -> (res: Vec<LinkTarget>)
    ensures
        target_views(res@) == philosophies_for_policy_spec(phils@),
{
    let mut out: Vec<LinkTarget> = Vec::new();
    let mut i: usize = 0;
    while i < phils.len()
        invariant
            out@.len() == i,
            i <= phils.len(),
            target_views(out@) == philosophies_for_policy_spec(phils@).take(i as int),
        decreases phils.len() - i,
    {
        let t = LinkTarget { id: phils[i].id.clone(), backlinks: clone_strings(&phils[i].linked_policies), status: String::new() };
        let ghost before = out@;
        out.push(t);
        assert(out@ == before.push(t));
        assert(target_views(out@) =~= philosophies_for_policy_spec(phils@).take(i + 1));
        i = i + 1;
    }
    assert(philosophies_for_policy_spec(phils@).take(phils.len() as int) =~= philosophies_for_policy_spec(phils@));
    out
}

/// Requirements as seen from policies (which they link back through `linked_policies`).
pub fn requirements_for_policy(reqs: &Vec<Requirement>) -> (res: Vec<LinkTarget>)
    ensures
        target_views(res@) == requirements_for_policy_spec(reqs@),
{
    let mut out: Vec<LinkTarget> = Vec::new();
    let mut i: usize = 0;
    while i < reqs.len()
        invariant
            out@.len() == i,
            i <= reqs.len(),
            target_views(out@) == requirements_for_policy_spec(reqs@).take(i as int),
        decreases reqs.len() - i,
    {
        let t = LinkTarget { id: reqs[i].id.clone(), backlinks: clone_strings(&reqs[i].linked_policies), status: reqs[i].status.clone() };
        let ghost before = out@;
        out.push(t);
        assert(out@ == before.push(t));
        assert(target_views(out@) =~= requirements_for_policy_spec(reqs@).take(i + 1));
        i = i + 1;
    }
    assert(requirements_for_policy_spec(reqs@).take(reqs.len() as int) =~= requirements_for_policy_spec(reqs@));
    out
}

/// Requirements as seen from features (which they link back through `linked_features`).
pub fn requirements_for_feature(reqs: &Vec<Requirement>) -> (res: Vec<LinkTarget>)
    ensures
        target_views(res@) == requirements_for_feature_spec(reqs@),
{
    let mut out: Vec<LinkTarget> = Vec::new();
    let mut i: usize = 0;
    while i < reqs.len()
        invariant
            out@.len() == i,
            i <= reqs.len(),
            target_views(out@) == requirements_for_feature_spec(reqs@).take(i as int),
        decreases reqs.len() - i,
    {
        let t = LinkTarget { id: reqs[i].id.clone(), backlinks: clone_strings(&reqs[i].linked_features), status: reqs[i].status.clone() };
        let ghost before = out@;
        out.push(t);
        assert(out@ == before.push(t));
        assert(target_views(out@) =~= requirements_for_feature_spec(reqs@).take(i + 1));
        i = i + 1;
    }
    assert(requirements_for_feature_spec(reqs@).take(reqs.len() as int) =~= requirements_for_feature_spec(reqs@));
    out
}

/// Features as seen from requirements (which they link back through `linked_requirements`).
pub fn features_for_requirement(feats: &Vec<Feature>) -> (res: Vec<LinkTarget>)
    ensures
        target_views(res@) == features_for_requirement_spec(feats@),
{
    let mut out: Vec<LinkTarget> = Vec::new();
    let mut i: usize = 0;
    while i < feats.len()
        invariant
            out@.len() == i,
            i <= feats.len(),
            target_views(out@) == features_for_requirement_spec(feats@).take(i as int),
        decreases feats.len() - i,
    {
        let t = LinkTarget { id: feats[i].id.clone(), backlinks: clone_strings(&feats[i].linked_requirements), status: feats[i].status.clone() };
        let ghost before = out@;
        out.push(t);
        assert(out@ == before.push(t));
        assert(target_views(out@) =~= features_for_requirement_spec(feats@).take(i + 1));
        i = i + 1;
    }
    assert(features_for_requirement_spec(feats@).take(feats.len() as int) =~= features_for_requirement_spec(feats@));
    out
}

/// The index of the last target with identifier `id`.
pub fn find_target(targets: &Vec<LinkTarget>, id: &str) -> (res: Option<usize>)
    ensures
        match res {
            Some(k) => k as int == find_last(target_views(targets@), id@),
            None => find_last(target_views(targets@), id@) == -1,
        },
{
    let mut k: usize = targets.len();
    assert(target_views(targets@).take(k as int) =~= target_views(targets@));
    while k > 0
        invariant
            k <= targets.len(),
            find_last(target_views(targets@), id@) == find_last(target_views(targets@).take(k as int), id@),
        decreases k,
    {
        proof {
            assert(target_views(targets@).take(k as int).drop_last() =~= target_views(targets@).take(k - 1));
        }
        if str_eq(targets[k - 1].id.as_str(), id) {
            return Some(k - 1);
        }
        k = k - 1;
    }
    None
}

pub fn contains_string(values: &Vec<String>, s: &str) -> (res: bool)
    ensures
        res == views(values@).contains(s@),
{
    let mut i: usize = 0;
    while i < values.len()
        invariant
            i <= values.len(),
            forall|k: int| 0 <= k < i ==> values@[k]@ != s@,
        decreases values.len() - i,
    {
        if str_eq(values[i].as_str(), s) {
            assert(views(values@)[i as int] == s@);
            return true;
        }
        i = i + 1;
    }
    assert forall|k: int| 0 <= k < views(values@).len() implies views(values@)[k] != s@ by {}
    false
}

pub open spec fn reciprocal_issue(
    owner_kind: Seq<char>,
    owner_id: Seq<char>,
    target_kind: Seq<char>,
    target_title: Seq<char>,
    back_field: Seq<char>,
    target_id: Seq<char>,
) -> IssueSpec {
    IssueSpec {
        code: "SYU-graph-reciprocal-001"@,
        severity: Severity::Error,
        subject: subject_of(owner_kind, owner_id),
        location: Some(target_id),
        message: target_title + " `"@ + target_id + "` does not link back to "@ + owner_kind
            + " `"@ + owner_id + "`."@,
        suggestion: Some(
            "Add `"@ + owner_id + "` to `"@ + back_field + "` in "@ + target_kind + " `"@
                + target_id + "`."@,
        ),
    }
}

pub open spec fn missing_reference_issue(
    owner_kind: Seq<char>,
    owner_id: Seq<char>,
    target_kind: Seq<char>,
    target_id: Seq<char>,
) -> IssueSpec {
    IssueSpec {
        code: "SYU-graph-reference-001"@,
        severity: Severity::Error,
        subject: subject_of(owner_kind, owner_id),
        location: Some(target_id),
        message: "Linked "@ + target_kind + " `"@ + target_id + "` does not exist."@,
        suggestion: Some(
            "Declare "@ + target_kind + " `"@ + target_id + "` or remove it from "@ + owner_kind
                + " `"@ + owner_id + "`."@,
        ),
    }
}

/// What one link is answered: nothing when the target exists and links back,
/// a reciprocal-link error when it does not link back, a reference error when
/// no definition has that identifier.
pub open spec fn link_issues_for(
    owner_kind: Seq<char>,
    owner_id: Seq<char>,
    target_kind: Seq<char>,
    target_title: Seq<char>,
    back_field: Seq<char>,
    target_id: Seq<char>,
    targets: Seq<LinkTargetSpec>,
) -> Seq<IssueSpec> {
    let k = find_last(targets, target_id);
    if k < 0 {
        seq![missing_reference_issue(owner_kind, owner_id, target_kind, target_id)]
    } else if targets[k].backlinks.contains(owner_id) {
        Seq::empty()
    } else {
        seq![reciprocal_issue(owner_kind, owner_id, target_kind, target_title, back_field, target_id)]
    }
}

pub open spec fn link_issues(
    owner_kind: Seq<char>,
    owner_id: Seq<char>,
    target_kind: Seq<char>,
    target_title: Seq<char>,
    back_field: Seq<char>,
    links: Seq<Seq<char>>,
    targets: Seq<LinkTargetSpec>,
) -> Seq<IssueSpec>
    decreases links.len(),
{
    if links.len() == 0 {
        Seq::empty()
    } else {
        link_issues(owner_kind, owner_id, target_kind, target_title, back_field, links.drop_last(), targets)
            + link_issues_for(owner_kind, owner_id, target_kind, target_title, back_field, links.last(), targets)
    }
}

proof fn lemma_issues_concat_contains(a: Seq<IssueSpec>, b: Seq<IssueSpec>, x: IssueSpec)
    ensures
        (a + b).contains(x) <==> a.contains(x) || b.contains(x),
{
    if (a + b).contains(x) {
        let k = choose|k: int| 0 <= k < (a + b).len() && (a + b)[k] == x;
        if k < a.len() {
            assert(a[k] == x);
        } else {
            assert(b[k - a.len()] == x);
        }
    }
    if a.contains(x) {
        let k = choose|k: int| 0 <= k < a.len() && a[k] == x;
        assert((a + b)[k] == x);
    }
    if b.contains(x) {
        let k = choose|k: int| 0 <= k < b.len() && b[k] == x;
        assert((a + b)[k + a.len()] == x);
    }
}

proof fn lemma_link_codes_differ()
    ensures
        "SYU-graph-reference-001"@ != "SYU-graph-reciprocal-001"@,
{
    reveal_strlit("SYU-graph-reference-001");
    reveal_strlit("SYU-graph-reciprocal-001");
    assert("SYU-graph-reference-001"@.len() != "SYU-graph-reciprocal-001"@.len());
}

/// Per link, the answer is exact: a link gets a reference error exactly when
/// no target has its identifier, and a reciprocal-link error exactly when the
/// last target with its identifier does not link back to the owner; no other
/// identifier gets either.
pub proof fn lemma_link_issues_per_link(
    owner_kind: Seq<char>,
    owner_id: Seq<char>,
    target_kind: Seq<char>,
    target_title: Seq<char>,
    back_field: Seq<char>,
    links: Seq<Seq<char>>,
    targets: Seq<LinkTargetSpec>,
)
    ensures
        forall|t: Seq<char>| #[trigger] link_issues(owner_kind, owner_id, target_kind, target_title, back_field, links, targets).contains(
            missing_reference_issue(owner_kind, owner_id, target_kind, t),
        ) <==> (links.contains(t) && find_last(targets, t) < 0),
        forall|t: Seq<char>| #[trigger] link_issues(owner_kind, owner_id, target_kind, target_title, back_field, links, targets).contains(
            reciprocal_issue(owner_kind, owner_id, target_kind, target_title, back_field, t),
        ) <==> (links.contains(t) && find_last(targets, t) >= 0 && !targets[find_last(targets, t)].backlinks.contains(owner_id)),
    decreases links.len(),
{
    if links.len() > 0 {
        let prev = links.drop_last();
        let l = links.last();
        lemma_link_issues_per_link(owner_kind, owner_id, target_kind, target_title, back_field, prev, targets);
        let a = link_issues(owner_kind, owner_id, target_kind, target_title, back_field, prev, targets);
        let f = link_issues_for(owner_kind, owner_id, target_kind, target_title, back_field, l, targets);
        assert(links =~= prev.push(l));
        assert forall|t: Seq<char>| links.contains(t) <==> (prev.contains(t) || l == t) by {
            if links.contains(t) {
                let k = choose|k: int| 0 <= k < links.len() && links[k] == t;
                if k < prev.len() {
                    assert(prev[k] == t);
                }
            }
            if prev.contains(t) {
                let k = choose|k: int| 0 <= k < prev.len() && prev[k] == t;
                assert(links[k] == t);
            }
            if l == t {
                assert(links[links.len() - 1] == t);
            }
        }
        assert forall|t: Seq<char>| #[trigger] link_issues(owner_kind, owner_id, target_kind, target_title, back_field, links, targets).contains(
            missing_reference_issue(owner_kind, owner_id, target_kind, t),
        ) <==> (links.contains(t) && find_last(targets, t) < 0) by {
            let x = missing_reference_issue(owner_kind, owner_id, target_kind, t);
            lemma_issues_concat_contains(a, f, x);
            assert(a.contains(x) <==> (prev.contains(t) && find_last(targets, t) < 0));
            if f.contains(x) {
                assert(f[0] == x);
                assert(f[0].location == Some(l));
                if find_last(targets, l) >= 0 {
                    lemma_link_codes_differ();
                    assert(f[0].code == "SYU-graph-reciprocal-001"@);
                    assert(false);
                }
            }
            if l == t && find_last(targets, t) < 0 {
                assert(f[0] == x);
            }
        }
        assert forall|t: Seq<char>| #[trigger] link_issues(owner_kind, owner_id, target_kind, target_title, back_field, links, targets).contains(
            reciprocal_issue(owner_kind, owner_id, target_kind, target_title, back_field, t),
        ) <==> (links.contains(t) && find_last(targets, t) >= 0 && !targets[find_last(targets, t)].backlinks.contains(owner_id)) by {
            let x = reciprocal_issue(owner_kind, owner_id, target_kind, target_title, back_field, t);
            lemma_issues_concat_contains(a, f, x);
            if f.contains(x) {
                assert(f[0] == x);
                assert(f[0].location == Some(l));
                if find_last(targets, l) < 0 {
                    lemma_link_codes_differ();
                    assert(f[0].code == "SYU-graph-reference-001"@);
                    assert(false);
                }
            }
            if l == t && find_last(targets, t) >= 0 && !targets[find_last(targets, t)].backlinks.contains(owner_id) {
                assert(f[0] == x);
            }
        }
    }
}

/// Checks that every linked definition exists and links back.
pub fn validate_links(
    owner_kind: &str,
    owner_id: &str,
    target_kind: &str,
    target_title: &str,
    back_field: &str,
    links: &Vec<String>,
    targets: &Vec<LinkTarget>,
    issues: &mut Vec<ValidationIssue>,
)
    ensures
        issue_views(final(issues)@) == issue_views(old(issues)@) + link_issues(
            owner_kind@,
            owner_id@,
            target_kind@,
            target_title@,
            back_field@,
            views(links@),
            target_views(targets@),
        ),
{
    let mut i: usize = 0;
    assert(views(links@).take(0) =~= Seq::<Seq<char>>::empty());
    assert(issue_views(issues@) =~= issue_views(old(issues)@) + Seq::<IssueSpec>::empty());
    while i < links.len()
        invariant
            i <= links.len(),
            issue_views(issues@) == issue_views(old(issues)@) + link_issues(
                owner_kind@,
                owner_id@,
                target_kind@,
                target_title@,
                back_field@,
                views(links@).take(i as int),
                target_views(targets@),
            ),
        decreases links.len() - i,
    {
        proof {
            assert(views(links@).take(i + 1).drop_last() =~= views(links@).take(i as int));
            assert(views(links@).take(i + 1).last() == links@[i as int]@);
        }
        let target_id = links[i].as_str();
        let ghost before = issue_views(issues@);
        match find_target(targets, target_id) {
            None => {
                let mut message = String::from_str("Linked ");
                message.append(target_kind);
                message.append(" `");
                message.append(target_id);
                message.append("` does not exist.");
                let mut suggestion = String::from_str("Declare ");
                suggestion.append(target_kind);
                suggestion.append(" `");
                suggestion.append(target_id);
                suggestion.append("` or remove it from ");
                suggestion.append(owner_kind);
                suggestion.append(" `");
                suggestion.append(owner_id);
                suggestion.append("`.");
                let issue = ValidationIssue::error(
                    "SYU-graph-reference-001",
                    subject(owner_kind, owner_id),
                    Some(owned(target_id)),
                    message,
                    Some(suggestion),
                );
                append_issue(issues, issue);
            },
            Some(k) => {
                proof {
                    lemma_find_last_bounds(target_views(targets@), target_id@);
                }
                if !contains_string(&targets[k].backlinks, owner_id) {
                    let mut message = String::from_str(target_title);
                    message.append(" `");
                    message.append(target_id);
                    message.append("` does not link back to ");
                    message.append(owner_kind);
                    message.append(" `");
                    message.append(owner_id);
                    message.append("`.");
                    let mut suggestion = String::from_str("Add `");
                    suggestion.append(owner_id);
                    suggestion.append("` to `");
                    suggestion.append(back_field);
                    suggestion.append("` in ");
                    suggestion.append(target_kind);
                    suggestion.append(" `");
                    suggestion.append(target_id);
                    suggestion.append("`.");
                    let issue = ValidationIssue::error(
                        "SYU-graph-reciprocal-001",
                        subject(owner_kind, owner_id),
                        Some(owned(target_id)),
                        message,
                        Some(suggestion),
                    );
                    append_issue(issues, issue);
                }
            },
        }
        assert(issue_views(issues@) =~= issue_views(old(issues)@) + link_issues(
            owner_kind@,
            owner_id@,
            target_kind@,
            target_title@,
            back_field@,
            views(links@).take(i + 1),
            target_views(targets@),
        ));
        i = i + 1;
    }
    assert(views(links@).take(links.len() as int) =~= views(links@));
}


// ---------------------------------------------------------------------------
// Delivery states
// ---------------------------------------------------------------------------

pub open spec fn invalid_status_issue(kind: Seq<char>, id: Seq<char>, status: Seq<char>) -> IssueSpec {
    IssueSpec {
        code: "SYU-delivery-invalid-001"@,
        severity: Severity::Error,
        subject: subject_of(kind, id),
        location: Some("status"@),
        message: kind + " `"@ + id + "` has unsupported status `"@ + trim_seq(status)
            + "`. Use `planned` or `implemented`."@,
        suggestion: Some("Change the status to `planned` or `implemented`."@),
    }
}

pub open spec fn forbidden_planned_issue(kind: Seq<char>, id: Seq<char>) -> IssueSpec {
    IssueSpec {
        code: "SYU-delivery-planned-001"@,
        severity: Severity::Error,
        subject: subject_of(kind, id),
        location: Some("status"@),
        message: kind + " `"@ + id + "` is marked `planned`, but `syu.yaml` forbids planned items."@,
        suggestion: Some(
            "Change `"@ + id + "` to `implemented` or set `validate.allow_planned: true`."@,
        ),
    }
}

/// The diagnostics for a status text: none when it is blank (a blank-field
/// diagnostic covers that), an error for an unknown status, and an error for
/// `planned` when the configuration forbids planned items.
pub open spec fn status_issues(
    kind: Seq<char>,
    id: Seq<char>,
    status: Seq<char>,
    allow_planned: bool,
) -> Seq<IssueSpec> {
    if is_blank(status) {
        Seq::empty()
    } else {
        match delivery_status_spec(status) {
            None => seq![invalid_status_issue(kind, id, status)],
            Some(DeliveryStatus::Planned) => if allow_planned {
                Seq::empty()
            } else {
                seq![forbidden_planned_issue(kind, id)]
            },
            Some(DeliveryStatus::Implemented) => Seq::empty(),
        }
    }
}

/// The delivery state that the rest of validation goes by: none for a blank status.
pub open spec fn effective_status(status: Seq<char>) -> Option<DeliveryStatus> {
    if is_blank(status) {
        None
    } else {
        delivery_status_spec(status)
    }
}

/// Checks a definition's status and returns its delivery state.
pub fn validate_delivery_status(
    kind: &str,
    id: &str,
    status: &str,
    config: &ValidateConfig,
    issues: &mut Vec<ValidationIssue>,
) -> (res: Option<DeliveryStatus>)
    ensures
        res == effective_status(status@),
        issue_views(final(issues)@) == issue_views(old(issues)@) + status_issues(
            kind@,
            id@,
            status@,
            config.allow_planned,
        ),
{
    if blank(status) {
        assert(issue_views(issues@) =~= issue_views(old(issues)@) + Seq::<IssueSpec>::empty());
        return None;
    }
    match normalize_delivery_status(status) {
        None => {
            let mut message = String::from_str(kind);
            message.append(" `");
            message.append(id);
            message.append("` has unsupported status `");
            let trimmed = trim(status);
            message.append(trimmed.as_str());
            message.append("`. Use `planned` or `implemented`.");
            let issue = ValidationIssue::error(
                "SYU-delivery-invalid-001",
                subject(kind, id),
                Some(owned("status")),
                message,
                Some(owned("Change the status to `planned` or `implemented`.")),
            );
            append_issue(issues, issue);
            None
        },
        Some(normalized) => {
            if normalized == DeliveryStatus::Planned && !config.allow_planned {
                let mut message = String::from_str(kind);
                message.append(" `");
                message.append(id);
                message.append("` is marked `planned`, but `syu.yaml` forbids planned items.");
                let mut suggestion = String::from_str("Change `");
                suggestion.append(id);
                suggestion.append("` to `implemented` or set `validate.allow_planned: true`.");
                let issue = ValidationIssue::error(
                    "SYU-delivery-planned-001",
                    subject(kind, id),
                    Some(owned("status")),
                    message,
                    Some(suggestion),
                );
                append_issue(issues, issue);
            } else {
                assert(issue_views(issues@) =~= issue_views(old(issues)@) + Seq::<IssueSpec>::empty());
            }
            Some(normalized)
        },
    }
}

/// `` `a`, `b`, `c` ``: identifiers in backticks, separated by commas.
pub open spec fn id_list_spec(ids: Seq<Seq<char>>) -> Seq<char> {
    join_seq(Seq::new(ids.len(), |i: int| "`"@ + ids[i] + "`"@), ", "@)
}

pub fn format_issue_id_list(ids: &Vec<String>) -> (res: String)
    ensures
        res@ == id_list_spec(views(ids@)),
{
    let mut quoted: Vec<String> = Vec::new();
    let mut i: usize = 0;
    while i < ids.len()
        invariant
            i <= ids.len(),
            quoted@.len() == i,
            forall|k: int| 0 <= k < i ==> #[trigger] quoted@[k]@ == "`"@ + ids@[k]@ + "`"@,
        decreases ids.len() - i,
    {
        let mut q = String::from_str("`");
        q.append(ids[i].as_str());
        q.append("`");
        quoted.push(q);
        i = i + 1;
    }
    let res = crate::text::join(&quoted, ", ");
    assert(views(quoted@) =~= Seq::new(views(ids@).len(), |k: int| "`"@ + views(ids@)[k] + "`"@));
    res
}

/// A linked definition that exists, with its delivery state.
#[derive(Debug)]
pub struct LinkedStatus {
    pub id: String,
    pub status: Option<DeliveryStatus>,
}

pub open spec fn linked_status_view(l: LinkedStatus) -> (Seq<char>, Option<DeliveryStatus>) {
    (l.id@, l.status)
}

pub open spec fn linked_status_views(v: Seq<LinkedStatus>) -> Seq<(Seq<char>, Option<DeliveryStatus>)> {
    Seq::new(v.len(), |i: int| linked_status_view(v[i]))
}

/// The linked definitions that exist, in link order, with their delivery states.
pub open spec fn linked_statuses_spec(
    links: Seq<Seq<char>>,
    targets: Seq<LinkTargetSpec>,
) -> Seq<(Seq<char>, Option<DeliveryStatus>)>
    decreases links.len(),
{
    if links.len() == 0 {
        Seq::empty()
    } else {
        let prev = linked_statuses_spec(links.drop_last(), targets);
        let k = find_last(targets, links.last());
        if k >= 0 {
            prev.push((links.last(), delivery_status_spec(targets[k].status)))
        } else {
            prev
        }
    }
}

pub fn linked_statuses(links: &Vec<String>, targets: &Vec<LinkTarget>) -> (res: Vec<LinkedStatus>)
    ensures
        linked_status_views(res@) == linked_statuses_spec(views(links@), target_views(targets@)),
{
    let mut out: Vec<LinkedStatus> = Vec::new();
    let mut i: usize = 0;
    assert(views(links@).take(0) =~= Seq::<Seq<char>>::empty());
    while i < links.len()
        invariant
            i <= links.len(),
            linked_status_views(out@) == linked_statuses_spec(views(links@).take(i as int), target_views(targets@)),
        decreases links.len() - i,
    {
        proof {
            assert(views(links@).take(i + 1).drop_last() =~= views(links@).take(i as int));
            assert(views(links@).take(i + 1).last() == links@[i as int]@);
        }
        match find_target(targets, links[i].as_str()) {
            Some(k) => {
                proof {
                    lemma_find_last_bounds(target_views(targets@), links@[i as int]@);
                }
                let st = normalize_delivery_status(targets[k].status.as_str());
                let entry = LinkedStatus { id: links[i].clone(), status: st };
                let ghost before = out@;
                out.push(entry);
                assert(out@ == before.push(entry));
                assert(linked_status_views(out@) =~= linked_status_views(before).push(linked_status_view(entry)));
            },
            None => {},
        }
        i = i + 1;
    }
    assert(views(links@).take(links.len() as int) =~= views(links@));
    out
}

/// The identifiers whose state is `wanted`, in order.
pub open spec fn ids_with_status(
    ls: Seq<(Seq<char>, Option<DeliveryStatus>)>,
    wanted: DeliveryStatus,
) -> Seq<Seq<char>>
    decreases ls.len(),
{
    if ls.len() == 0 {
        Seq::empty()
    } else {
        let prev = ids_with_status(ls.drop_last(), wanted);
        if ls.last().1 == Some(wanted) {
            prev.push(ls.last().0)
        } else {
            prev
        }
    }
}

pub open spec fn agreement_issues(
    owner_kind: Seq<char>,
    owner_id: Seq<char>,
    owner_status: Option<DeliveryStatus>,
    plural: Seq<char>,
    ls: Seq<(Seq<char>, Option<DeliveryStatus>)>,
) -> Seq<IssueSpec> {
    let planned = ids_with_status(ls, DeliveryStatus::Planned);
    let implemented = ids_with_status(ls, DeliveryStatus::Implemented);
    match owner_status {
        Some(DeliveryStatus::Planned) => if implemented.len() > 0 {
            seq![IssueSpec {
                code: "SYU-delivery-agreement-001"@,
                severity: Severity::Warning,
                subject: subject_of(owner_kind, owner_id),
                location: Some("status"@),
                message: owner_kind + " `"@ + owner_id + "` is marked `planned` but links to implemented "@
                    + plural + ": "@ + id_list_spec(implemented) + "."@,
                suggestion: Some("Mark `"@ + owner_id
                    + "` implemented if the linked work is already delivered, or revisit the linked item statuses and traces."@),
            }]
        } else {
            Seq::empty()
        },
        Some(DeliveryStatus::Implemented) => if planned.len() > 0 && implemented.len() == 0 {
            seq![IssueSpec {
                code: "SYU-delivery-agreement-001"@,
                severity: Severity::Warning,
                subject: subject_of(owner_kind, owner_id),
                location: Some("status"@),
                message: owner_kind + " `"@ + owner_id + "` is marked `implemented` but links to planned "@
                    + plural + " and none are implemented: "@ + id_list_spec(planned) + "."@,
                suggestion: Some("Mark at least one linked item implemented, or change `"@ + owner_id
                    + "` back to `planned` if delivery is still in progress."@),
            }]
        } else {
            Seq::empty()
        },
        None => Seq::empty(),
    }
}

/// Warns when a definition's delivery state disagrees with the states of what it links to.
pub fn validate_linked_delivery_states(
    owner_kind: &str,
    owner_id: &str,
    owner_status: Option<DeliveryStatus>,
    linked_kind_plural: &str,
    linked: &Vec<LinkedStatus>,
    issues: &mut Vec<ValidationIssue>,
)
    ensures
        issue_views(final(issues)@) == issue_views(old(issues)@) + agreement_issues(
            owner_kind@,
            owner_id@,
            owner_status,
            linked_kind_plural@,
            linked_status_views(linked@),
        ),
{
    let ghost ls = linked_status_views(linked@);
    let mut planned_ids: Vec<String> = Vec::new();
    let mut implemented_ids: Vec<String> = Vec::new();
    let mut i: usize = 0;
    assert(ls.take(0) =~= Seq::<(Seq<char>, Option<DeliveryStatus>)>::empty());
    while i < linked.len()
        invariant
            i <= linked.len(),
            ls == linked_status_views(linked@),
            views(planned_ids@) == ids_with_status(ls.take(i as int), DeliveryStatus::Planned),
            views(implemented_ids@) == ids_with_status(ls.take(i as int), DeliveryStatus::Implemented),
        decreases linked.len() - i,
    {
        proof {
            assert(ls.take(i + 1).drop_last() =~= ls.take(i as int));
            assert(ls.take(i + 1).last() == linked_status_view(linked@[i as int]));
        }
        match linked[i].status {
            Some(DeliveryStatus::Planned) => {
                let ghost before = planned_ids@;
                planned_ids.push(linked[i].id.clone());
                assert(views(planned_ids@) =~= views(before).push(linked@[i as int].id@));
            },
            Some(DeliveryStatus::Implemented) => {
                let ghost before = implemented_ids@;
                implemented_ids.push(linked[i].id.clone());
                assert(views(implemented_ids@) =~= views(before).push(linked@[i as int].id@));
            },
            None => {},
        }
        i = i + 1;
    }
    assert(ls.take(linked.len() as int) =~= ls);
    match owner_status {
        Some(DeliveryStatus::Planned) => {
            if implemented_ids.len() > 0 {
                let mut message = String::from_str(owner_kind);
                message.append(" `");
                message.append(owner_id);
                message.append("` is marked `planned` but links to implemented ");
                message.append(linked_kind_plural);
                message.append(": ");
                let list = format_issue_id_list(&implemented_ids);
                message.append(list.as_str());
                message.append(".");
                let mut suggestion = String::from_str("Mark `");
                suggestion.append(owner_id);
                suggestion.append("` implemented if the linked work is already delivered, or revisit the linked item statuses and traces.");
                let issue = ValidationIssue::warning(
                    "SYU-delivery-agreement-001",
                    subject(owner_kind, owner_id),
                    Some(owned("status")),
                    message,
                    Some(suggestion),
                );
                append_issue(issues, issue);
                return;
            }
        },
        Some(DeliveryStatus::Implemented) => {
            if planned_ids.len() > 0 && implemented_ids.len() == 0 {
                let mut message = String::from_str(owner_kind);
                message.append(" `");
                message.append(owner_id);
                message.append("` is marked `implemented` but links to planned ");
                message.append(linked_kind_plural);
                message.append(" and none are implemented: ");
                let list = format_issue_id_list(&planned_ids);
                message.append(list.as_str());
                message.append(".");
                let mut suggestion = String::from_str("Mark at least one linked item implemented, or change `");
                suggestion.append(owner_id);
                suggestion.append("` back to `planned` if delivery is still in progress.");
                let issue = ValidationIssue::warning(
                    "SYU-delivery-agreement-001",
                    subject(owner_kind, owner_id),
                    Some(owned("status")),
                    message,
                    Some(suggestion),
                );
                append_issue(issues, issue);
                return;
            }
        },
        None => {},
    }
    assert(issue_views(issues@) =~= issue_views(old(issues)@) + Seq::<IssueSpec>::empty());
}


// ---------------------------------------------------------------------------
// Trace references
// ---------------------------------------------------------------------------

/// What a rich inspector reported for one symbol.
#[derive(Debug)]
pub enum Inspection {
    /// No rich inspection for this language, or the symbol was not found by it.
    Absent,
    /// The inspector failed with this message.
    Failed(String),
    /// The symbol was found; these are its documentation comments.
    Documented(String),
}

/// What the file system and the language adapter report for one declared symbol.
#[derive(Debug)]
pub struct SymbolProbe {
    pub inspection: Inspection,
    /// Whether the adapter's textual pattern finds the symbol in the file.
    pub pattern_match: bool,
}

/// What the file system and the language adapter report for one trace reference.
#[derive(Debug)]
pub struct TraceProbe {
    /// Whether a language adapter exists for the declared language.
    pub language_supported: bool,
    /// The adapter's canonical language name.
    pub adapter_name: String,
    /// Whether the referenced path is a regular file.
    pub is_file: bool,
    /// Whether the adapter accepts the file's extension.
    pub extension_matches: bool,
    /// The file's text, or the read error.
    pub contents: Result<String, String>,
    /// One probe per declared symbol, in order.
    pub symbols: Vec<SymbolProbe>,
}

/// `language:file`, where a trace diagnostic points.
pub open spec fn reference_location_spec(language: Seq<char>, file: Seq<char>) -> Seq<char> {
    language + ":"@ + file
}

pub fn format_reference_location(language: &str, reference: &TraceReference) -> (res: String)
    ensures
        res@ == reference_location_spec(language@, reference.file@),
{
    let mut s = String::from_str(language);
    s.append(":");
    s.append(reference.file.as_str());
    s
}

pub open spec fn trace_issue(code: Seq<char>, subj: Seq<char>, loc: Seq<char>, message: Seq<char>, suggestion: Seq<char>) -> IssueSpec {
    IssueSpec {
        code,
        severity: Severity::Error,
        subject: subj,
        location: Some(loc),
        message,
        suggestion: Some(suggestion),
    }
}

pub open spec fn has_wildcard(symbols: Seq<Seq<char>>) -> bool {
    exists|i: int| 0 <= i < symbols.len() && trim_seq(#[trigger] symbols[i]) == "*"@
}

pub open spec fn doc_issues(
    subj: Seq<char>,
    loc: Seq<char>,
    file: Seq<char>,
    symbol: Seq<char>,
    snippets: Seq<Seq<char>>,
    docs: Seq<char>,
) -> Seq<IssueSpec>
    decreases snippets.len(),
{
    if snippets.len() == 0 {
        Seq::empty()
    } else {
        let prev = doc_issues(subj, loc, file, symbol, snippets.drop_last(), docs);
        let snippet = snippets.last();
        if is_blank(snippet) || contains_seq(docs, snippet) {
            prev
        } else {
            prev.push(trace_issue("SYU-trace-doc-001"@, subj, loc,
                "Documentation for symbol `"@ + symbol + "` in `"@ + file + "` does not include `"@ + snippet + "`."@,
                "Add `"@ + snippet + "` to the documentation for `"@ + symbol + "` or run `syu validate --fix`."@))
        }
    }
}

/// The diagnostics for one declared symbol.
pub open spec fn one_symbol_issues(
    owner: Seq<char>,
    role: TraceRole,
    language: Seq<char>,
    subj: Seq<char>,
    loc: Seq<char>,
    file: Seq<char>,
    snippets: Seq<Seq<char>>,
    symbol: Seq<char>,
    probe: SymbolProbe,
) -> Seq<IssueSpec> {
    if is_blank(symbol) {
        seq![trace_issue("SYU-trace-symbol-002"@, subj, loc,
            "Declared "@ + role_label_spec(role) + " file `"@ + file + "` contains an empty symbol entry."@,
            "Remove blank symbol entries from the `"@ + language + "` mapping for `"@ + owner + "`."@)]
    } else {
        match probe.inspection {
            Inspection::Failed(e) => seq![trace_issue("SYU-trace-inspection-001"@, subj, loc,
                "Failed to inspect symbol `"@ + symbol + "` in `"@ + file + "` with the `"@ + language + "` inspector: "@ + e@,
                "Fix the parser/runtime configuration for `"@ + language + "` or update `"@ + file + "` so `syu validate` can inspect it."@)],
            _ => {
                let exists = probe.inspection is Documented || probe.pattern_match;
                if !exists {
                    seq![trace_issue("SYU-trace-symbol-003"@, subj, loc,
                        "Declared symbol `"@ + symbol + "` was not found in `"@ + file + "`."@,
                        "Add symbol `"@ + symbol + "` to `"@ + file + "` or update the YAML mapping for `"@ + owner + "`."@)]
                } else if snippets.len() == 0 {
                    Seq::empty()
                } else {
                    match probe.inspection {
                        Inspection::Documented(docs) => doc_issues(subj, loc, file, symbol, snippets, docs@),
                        _ => seq![trace_issue("SYU-trace-docsupport-001"@, subj, loc,
                            "Language `"@ + language + "` does not provide rich documentation inspection for symbol `"@ + symbol + "`."@,
                            "Remove `doc_contains` from the `"@ + language + "` mapping for `"@ + owner + "` or switch to a language with rich inspection support."@)],
                    }
                }
            },
        }
    }
}

pub open spec fn symbols_issues(
    owner: Seq<char>,
    role: TraceRole,
    language: Seq<char>,
    subj: Seq<char>,
    loc: Seq<char>,
    file: Seq<char>,
    snippets: Seq<Seq<char>>,
    symbols: Seq<Seq<char>>,
    probes: Seq<SymbolProbe>,
) -> Seq<IssueSpec>
    decreases symbols.len(),
{
    if symbols.len() == 0 {
        Seq::empty()
    } else {
        symbols_issues(owner, role, language, subj, loc, file, snippets, symbols.drop_last(), probes)
            + one_symbol_issues(owner, role, language, subj, loc, file, snippets, symbols.last(), probes[symbols.len() - 1])
    }
}

/// Every diagnostic that one trace reference earns, given what was found on disk.
pub open spec fn reference_issues(
    owner: Seq<char>,
    role: TraceRole,
    language: Seq<char>,
    reference: TraceReference,
    probe: TraceProbe,
) -> Seq<IssueSpec> {
    let subj = subject_of(role_subject_kind_spec(role), owner);
    let file = reference.file@;
    let loc = reference_location_spec(language, file);
    let label = role_label_spec(role);
    let symbols = views(reference.symbols@);
    let snippets = views(reference.doc_contains@);
    if !probe.language_supported {
        seq![trace_issue("SYU-trace-language-001"@, subj, loc,
            "Language `"@ + language + "` is not supported. Built-in adapters currently cover Rust, Python, TypeScript, Shell, YAML, JSON, Markdown, and Gitignore."@,
            "Use a supported language alias such as `rust`, `python`, `typescript`, `shell`, `yaml`, `json`, `markdown`, or `gitignore` for `"@ + owner + "`."@)]
    } else if file.len() == 0 {
        seq![trace_issue("SYU-trace-file-001"@, subj, loc,
            "Declared "@ + label + " mapping for `"@ + owner + "` does not specify a file path."@,
            "Add a file path to the `"@ + language + "` "@ + role_relation_spec(role) + " mapping for `"@ + owner + "`."@)]
    } else if !probe.is_file {
        seq![trace_issue("SYU-trace-file-002"@, subj, loc,
            "Declared "@ + label + " file `"@ + file + "` does not exist."@,
            "Create `"@ + file + "` or update `"@ + owner + "` to point to the correct "@ + label + " file."@)]
    } else {
        let extension = if probe.extension_matches { Seq::empty() } else {
            seq![trace_issue("SYU-trace-extension-001"@, subj, loc,
                "File `"@ + file + "` does not match the `"@ + probe.adapter_name@ + "` adapter extensions."@,
                "Use a `"@ + probe.adapter_name@ + "` file extension or change the declared language for `"@ + file + "`."@)]
        };
        match probe.contents {
            Err(e) => extension.push(trace_issue("SYU-trace-unreadable-001"@, subj, loc,
                "Declared "@ + label + " file `"@ + file + "` could not be read: "@ + e@,
                "Ensure `"@ + file + "` is readable before running `syu validate`."@)),
            Ok(contents) => {
                let mention = if contains_seq(contents@, owner) { Seq::empty() } else {
                    seq![trace_issue("SYU-trace-id-001"@, subj, loc,
                        "Declared "@ + label + " file `"@ + file + "` does not mention `"@ + owner + "`."@,
                        "Add `"@ + owner + "` to `"@ + file + "` so the "@ + label + " remains explicitly traceable."@)]
                };
                let listed = if symbols.len() > 0 { Seq::empty() } else {
                    seq![trace_issue("SYU-trace-symbol-001"@, subj, loc,
                        "Declared "@ + label + " file `"@ + file + "` does not list any symbols to verify."@,
                        "Add one or more symbols to the `"@ + language + "` mapping for `"@ + owner + "`."@)]
                };
                let head = extension + mention + listed;
                if has_wildcard(symbols) {
                    if snippets.len() > 0 {
                        head.push(trace_issue("SYU-trace-docscope-001"@, subj, loc,
                            "Wildcard trace mappings in `"@ + file + "` cannot use `doc_contains` because they do not point to a single symbol."@,
                            "Remove `doc_contains` or replace `*` with explicit symbol names for documentation checks."@))
                    } else {
                        head
                    }
                } else {
                    head + symbols_issues(owner, role, language, subj, loc, file, snippets, symbols, probe.symbols@)
                }
            },
        }
    }
}

/// A traced file of a supported language that exists and can be read, but
/// never mentions the id of the requirement or feature that declares it, is
/// not accepted: the reference earns a `SYU-trace-id-001` error naming the
/// file and the id, so `verify_trace_reference` returns `false`.
pub proof fn lemma_unmentioned_owner_is_rejected(
    owner: Seq<char>,
    role: TraceRole,
    language: Seq<char>,
    reference: TraceReference,
    probe: TraceProbe,
)
    requires
        probe.language_supported,
        reference.file@.len() > 0,
        probe.is_file,
        probe.contents is Ok,
        !contains_seq(probe.contents->Ok_0@, owner),
    ensures
        reference_issues(owner, role, language, reference, probe).len() > 0,
        exists|k: int| 0 <= k < reference_issues(owner, role, language, reference, probe).len()
            && (#[trigger] reference_issues(owner, role, language, reference, probe)[k]).code == "SYU-trace-id-001"@
            && reference_issues(owner, role, language, reference, probe)[k].severity == Severity::Error
            && reference_issues(owner, role, language, reference, probe)[k].message
                == "Declared "@ + role_label_spec(role) + " file `"@ + reference.file@ + "` does not mention `"@ + owner + "`."@,
{
    let subj = subject_of(role_subject_kind_spec(role), owner);
    let file = reference.file@;
    let loc = reference_location_spec(language, file);
    let label = role_label_spec(role);
    let symbols = views(reference.symbols@);
    let snippets = views(reference.doc_contains@);
    let extension: Seq<IssueSpec> = if probe.extension_matches { Seq::empty() } else {
        seq![trace_issue("SYU-trace-extension-001"@, subj, loc,
            "File `"@ + file + "` does not match the `"@ + probe.adapter_name@ + "` adapter extensions."@,
            "Use a `"@ + probe.adapter_name@ + "` file extension or change the declared language for `"@ + file + "`."@)]
    };
    let mention = seq![trace_issue("SYU-trace-id-001"@, subj, loc,
        "Declared "@ + label + " file `"@ + file + "` does not mention `"@ + owner + "`."@,
        "Add `"@ + owner + "` to `"@ + file + "` so the "@ + label + " remains explicitly traceable."@)];
    let listed: Seq<IssueSpec> = if symbols.len() > 0 { Seq::empty() } else {
        seq![trace_issue("SYU-trace-symbol-001"@, subj, loc,
            "Declared "@ + label + " file `"@ + file + "` does not list any symbols to verify."@,
            "Add one or more symbols to the `"@ + language + "` mapping for `"@ + owner + "`."@)]
    };
    let head = extension + mention + listed;
    let r = reference_issues(owner, role, language, reference, probe);
    let k = extension.len() as int;
    assert(head[k] == mention[0]);
    if has_wildcard(symbols) {
        if snippets.len() > 0 {
            assert(r == head.push(trace_issue("SYU-trace-docscope-001"@, subj, loc,
                "Wildcard trace mappings in `"@ + file + "` cannot use `doc_contains` because they do not point to a single symbol."@,
                "Remove `doc_contains` or replace `*` with explicit symbol names for documentation checks."@)));
        } else {
            assert(r == head);
        }
    } else {
        assert(r == head + symbols_issues(owner, role, language, subj, loc, file, snippets, symbols, probe.symbols@));
    }
    assert(r[k] == mention[0]);
}

/// What a clean declared symbol is: not blank, and found by the adapter's
/// pattern or documented by its inspector, with no inspection failure.
pub open spec fn symbol_found(symbol: Seq<char>, probe: SymbolProbe) -> bool {
    &&& !is_blank(symbol)
    &&& !(probe.inspection is Failed)
    &&& (probe.pattern_match || probe.inspection is Documented)
}

proof fn lemma_found_symbols_earn_nothing(
    owner: Seq<char>,
    role: TraceRole,
    language: Seq<char>,
    subj: Seq<char>,
    loc: Seq<char>,
    file: Seq<char>,
    symbols: Seq<Seq<char>>,
    probes: Seq<SymbolProbe>,
)
    requires
        symbols.len() <= probes.len(),
        forall|i: int| 0 <= i < symbols.len() ==> symbol_found(#[trigger] symbols[i], probes[i]),
    ensures
        symbols_issues(owner, role, language, subj, loc, file, Seq::empty(), symbols, probes).len() == 0,
    decreases symbols.len(),
{
    if symbols.len() > 0 {
        lemma_found_symbols_earn_nothing(owner, role, language, subj, loc, file, symbols.drop_last(), probes);
        assert(symbol_found(symbols[symbols.len() - 1], probes[symbols.len() - 1]));
    }
}

/// A symbol that is declared but neither found by the adapter's pattern nor
/// documented by its inspector.
pub open spec fn symbol_missing(symbol: Seq<char>, probe: SymbolProbe) -> bool {
    &&& !is_blank(symbol)
    &&& probe.inspection is Absent
    &&& !probe.pattern_match
}

proof fn lemma_missing_symbol_reported(
    owner: Seq<char>,
    role: TraceRole,
    language: Seq<char>,
    subj: Seq<char>,
    loc: Seq<char>,
    file: Seq<char>,
    snippets: Seq<Seq<char>>,
    symbols: Seq<Seq<char>>,
    probes: Seq<SymbolProbe>,
    i: int,
)
    requires
        0 <= i < symbols.len(),
        symbols.len() <= probes.len(),
        symbol_missing(symbols[i], probes[i]),
    ensures
        has_issue_code(symbols_issues(owner, role, language, subj, loc, file, snippets, symbols, probes), "SYU-trace-symbol-003"@),
    decreases symbols.len(),
{
    let prev = symbols_issues(owner, role, language, subj, loc, file, snippets, symbols.drop_last(), probes);
    let last = one_symbol_issues(owner, role, language, subj, loc, file, snippets, symbols.last(), probes[symbols.len() - 1]);
    let all = symbols_issues(owner, role, language, subj, loc, file, snippets, symbols, probes);
    assert(all == prev + last);
    if i == symbols.len() - 1 {
        assert(all[prev.len() as int] == last[0]);
    } else {
        lemma_missing_symbol_reported(owner, role, language, subj, loc, file, snippets, symbols.drop_last(), probes, i);
        let k = choose|k: int| 0 <= k < prev.len() && (#[trigger] prev[k]).code == "SYU-trace-symbol-003"@;
        assert(all[k] == prev[k]);
    }
}

/// A declared symbol that the file does not hold (no pattern match and no
/// inspector that found it) earns a `SYU-trace-symbol-003` error, and the
/// reference is not accepted; wildcard mappings, which name no single symbol,
/// are the exception.
pub proof fn lemma_missing_symbol_is_rejected(
    owner: Seq<char>,
    role: TraceRole,
    language: Seq<char>,
    reference: TraceReference,
    probe: TraceProbe,
    i: int,
)
    requires
        probe.language_supported,
        reference.file@.len() > 0,
        probe.is_file,
        probe.contents is Ok,
        probe.symbols@.len() == reference.symbols@.len(),
        0 <= i < reference.symbols@.len(),
        symbol_missing(reference.symbols@[i]@, probe.symbols@[i]),
        !has_wildcard(views(reference.symbols@)),
    ensures
        has_issue_code(reference_issues(owner, role, language, reference, probe), "SYU-trace-symbol-003"@),
{
    let subj = subject_of(role_subject_kind_spec(role), owner);
    let file = reference.file@;
    let loc = reference_location_spec(language, file);
    let label = role_label_spec(role);
    let symbols = views(reference.symbols@);
    let snippets = views(reference.doc_contains@);
    assert(symbols[i] == reference.symbols@[i]@);
    lemma_missing_symbol_reported(owner, role, language, subj, loc, file, snippets, symbols, probe.symbols@, i);
    let tail = symbols_issues(owner, role, language, subj, loc, file, snippets, symbols, probe.symbols@);
    let r = reference_issues(owner, role, language, reference, probe);
    let extension: Seq<IssueSpec> = if probe.extension_matches { Seq::empty() } else {
        seq![trace_issue("SYU-trace-extension-001"@, subj, loc,
            "File `"@ + file + "` does not match the `"@ + probe.adapter_name@ + "` adapter extensions."@,
            "Use a `"@ + probe.adapter_name@ + "` file extension or change the declared language for `"@ + file + "`."@)]
    };
    let contents = probe.contents->Ok_0;
    let mention: Seq<IssueSpec> = if contains_seq(contents@, owner) { Seq::empty() } else {
        seq![trace_issue("SYU-trace-id-001"@, subj, loc,
            "Declared "@ + label + " file `"@ + file + "` does not mention `"@ + owner + "`."@,
            "Add `"@ + owner + "` to `"@ + file + "` so the "@ + label + " remains explicitly traceable."@)]
    };
    let listed: Seq<IssueSpec> = if symbols.len() > 0 { Seq::empty() } else {
        seq![trace_issue("SYU-trace-symbol-001"@, subj, loc,
            "Declared "@ + label + " file `"@ + file + "` does not list any symbols to verify."@,
            "Add one or more symbols to the `"@ + language + "` mapping for `"@ + owner + "`."@)]
    };
    let head = extension + mention + listed;
    assert(r == head + tail);
    let k = choose|k: int| 0 <= k < tail.len() && (#[trigger] tail[k]).code == "SYU-trace-symbol-003"@;
    assert(r[head.len() + k] == tail[k]);
}

/// A trace reference is accepted when nothing is wrong with it: a supported
/// language, an existing file the adapter takes, readable and mentioning the
/// owner's id, at least one declared symbol, each found in the file, and no
/// documentation snippets to check. It earns no diagnostic, so
/// `verify_trace_reference` returns `true`.
pub proof fn lemma_clean_reference_is_accepted(
    owner: Seq<char>,
    role: TraceRole,
    language: Seq<char>,
    reference: TraceReference,
    probe: TraceProbe,
)
    requires
        probe.language_supported,
        reference.file@.len() > 0,
        probe.is_file,
        probe.extension_matches,
        probe.contents is Ok,
        contains_seq(probe.contents->Ok_0@, owner),
        reference.symbols@.len() > 0,
        reference.doc_contains@.len() == 0,
        probe.symbols@.len() == reference.symbols@.len(),
        forall|i: int| 0 <= i < reference.symbols@.len() ==> symbol_found(#[trigger] reference.symbols@[i]@, probe.symbols@[i]),
    ensures
        reference_issues(owner, role, language, reference, probe).len() == 0,
{
    let subj = subject_of(role_subject_kind_spec(role), owner);
    let file = reference.file@;
    let loc = reference_location_spec(language, file);
    let symbols = views(reference.symbols@);
    assert(views(reference.doc_contains@) =~= Seq::<Seq<char>>::empty());
    assert forall|i: int| 0 <= i < symbols.len() implies symbol_found(#[trigger] symbols[i], probe.symbols@[i]) by {
        assert(symbols[i] == reference.symbols@[i]@);
    }
    lemma_found_symbols_earn_nothing(owner, role, language, subj, loc, file, symbols, probe.symbols@);
}

/// Whether a list of diagnostics holds one with the given code.
pub open spec fn has_issue_code(issues: Seq<IssueSpec>, code: Seq<char>) -> bool {
    exists|k: int| 0 <= k < issues.len() && (#[trigger] issues[k]).code == code
}

/// The other reasons a trace reference is refused: an unsupported language,
/// a missing file path, a path that is no file, a file the adapter does not
/// take by its extension, a file that cannot be read, and a mapping that
/// lists no symbol each earn their own error, and the reference is not
/// accepted.
pub proof fn lemma_trace_reference_refusals(
    owner: Seq<char>,
    role: TraceRole,
    language: Seq<char>,
    reference: TraceReference,
    probe: TraceProbe,
)
    ensures
        ({
            let r = reference_issues(owner, role, language, reference, probe);
            let checked = probe.language_supported && reference.file@.len() > 0 && probe.is_file;
            &&& !probe.language_supported ==> r.len() == 1 && r[0].code == "SYU-trace-language-001"@
            &&& (probe.language_supported && reference.file@.len() == 0) ==> r.len() == 1 && r[0].code == "SYU-trace-file-001"@
            &&& (probe.language_supported && reference.file@.len() > 0 && !probe.is_file) ==> r.len() == 1 && r[0].code == "SYU-trace-file-002"@
            &&& (checked && !probe.extension_matches) ==> r.len() > 0 && r[0].code == "SYU-trace-extension-001"@
            &&& (checked && probe.contents is Err) ==> has_issue_code(r, "SYU-trace-unreadable-001"@)
            &&& (checked && probe.contents is Ok && reference.symbols@.len() == 0) ==> has_issue_code(r, "SYU-trace-symbol-001"@)
        }),
{
    let r = reference_issues(owner, role, language, reference, probe);
    let subj = subject_of(role_subject_kind_spec(role), owner);
    let file = reference.file@;
    let loc = reference_location_spec(language, file);
    let label = role_label_spec(role);
    let symbols = views(reference.symbols@);
    let snippets = views(reference.doc_contains@);
    if probe.language_supported && file.len() > 0 && probe.is_file {
        let extension: Seq<IssueSpec> = if probe.extension_matches { Seq::empty() } else {
            seq![trace_issue("SYU-trace-extension-001"@, subj, loc,
                "File `"@ + file + "` does not match the `"@ + probe.adapter_name@ + "` adapter extensions."@,
                "Use a `"@ + probe.adapter_name@ + "` file extension or change the declared language for `"@ + file + "`."@)]
        };
        match probe.contents {
            Err(e) => {
                assert(r[extension.len() as int].code == "SYU-trace-unreadable-001"@);
            },
            Ok(contents) => {
                let mention: Seq<IssueSpec> = if contains_seq(contents@, owner) { Seq::empty() } else {
                    seq![trace_issue("SYU-trace-id-001"@, subj, loc,
                        "Declared "@ + label + " file `"@ + file + "` does not mention `"@ + owner + "`."@,
                        "Add `"@ + owner + "` to `"@ + file + "` so the "@ + label + " remains explicitly traceable."@)]
                };
                let listed: Seq<IssueSpec> = if symbols.len() > 0 { Seq::empty() } else {
                    seq![trace_issue("SYU-trace-symbol-001"@, subj, loc,
                        "Declared "@ + label + " file `"@ + file + "` does not list any symbols to verify."@,
                        "Add one or more symbols to the `"@ + language + "` mapping for `"@ + owner + "`."@)]
                };
                let head = extension + mention + listed;
                let k = (extension.len() + mention.len()) as int;
                if symbols.len() == 0 {
                    assert(head[k] == listed[0]);
                    assert(!has_wildcard(symbols));
                    assert(r == head + symbols_issues(owner, role, language, subj, loc, file, snippets, symbols, probe.symbols@));
                    assert(r[k] == listed[0]);
                }
                if !probe.extension_matches {
                    assert(head[0] == extension[0]);
                    if has_wildcard(symbols) {
                        if snippets.len() > 0 {
                            assert(r[0] == head[0]);
                        } else {
                            assert(r == head);
                        }
                    } else {
                        assert(r[0] == head[0]);
                    }
                }
            },
        }
    }
}

fn trace_error(code: &str, subj: &String, loc: &String, message: String, suggestion: String) -> (res: ValidationIssue)
    ensures
        res@ == trace_issue(code@, subj@, loc@, message@, suggestion@),
{
    ValidationIssue::error(code, subj.clone(), Some(loc.clone()), message, Some(suggestion))
}

fn check_docs(
    subj: &String,
    loc: &String,
    file: &str,
    symbol: &str,
    snippets: &Vec<String>,
    docs: &str,
    issues: &mut Vec<ValidationIssue>,
)
    ensures
        issue_views(final(issues)@) == issue_views(old(issues)@) + doc_issues(subj@, loc@, file@, symbol@, views(snippets@), docs@),
{
    let mut i: usize = 0;
    assert(views(snippets@).take(0) =~= Seq::<Seq<char>>::empty());
    assert(issue_views(issues@) =~= issue_views(old(issues)@) + Seq::<IssueSpec>::empty());
    while i < snippets.len()
        invariant
            i <= snippets.len(),
            issue_views(issues@) == issue_views(old(issues)@) + doc_issues(subj@, loc@, file@, symbol@, views(snippets@).take(i as int), docs@),
        decreases snippets.len() - i,
    {
        proof {
            assert(views(snippets@).take(i + 1).drop_last() =~= views(snippets@).take(i as int));
            assert(views(snippets@).take(i + 1).last() == snippets@[i as int]@);
        }
        let snippet = snippets[i].as_str();
        if !blank(snippet) && !crate::text::contains(docs, snippet) {
            let mut message = String::from_str("Documentation for symbol `");
            message.append(symbol);
            message.append("` in `");
            message.append(file);
            message.append("` does not include `");
            message.append(snippet);
            message.append("`.");
            let mut suggestion = String::from_str("Add `");
            suggestion.append(snippet);
            suggestion.append("` to the documentation for `");
            suggestion.append(symbol);
            suggestion.append("` or run `syu validate --fix`.");
            append_issue(issues, trace_error("SYU-trace-doc-001", subj, loc, message, suggestion));
        }
        assert(issue_views(issues@) =~= issue_views(old(issues)@) + doc_issues(subj@, loc@, file@, symbol@, views(snippets@).take(i + 1), docs@));
        i = i + 1;
    }
    assert(views(snippets@).take(snippets.len() as int) =~= views(snippets@));
}

fn check_symbol(
    owner: &str,
    role: TraceRole,
    language: &str,
    subj: &String,
    loc: &String,
    file: &str,
    snippets: &Vec<String>,
    symbol: &str,
    probe: &SymbolProbe,
    issues: &mut Vec<ValidationIssue>,
)
    ensures
        issue_views(final(issues)@) == issue_views(old(issues)@) + one_symbol_issues(owner@, role, language@, subj@, loc@, file@, views(snippets@), symbol@, *probe),
{
    if blank(symbol) {
        let mut message = String::from_str("Declared ");
        message.append(role.label());
        message.append(" file `");
        message.append(file);
        message.append("` contains an empty symbol entry.");
        let mut suggestion = String::from_str("Remove blank symbol entries from the `");
        suggestion.append(language);
        suggestion.append("` mapping for `");
        suggestion.append(owner);
        suggestion.append("`.");
        append_issue(issues, trace_error("SYU-trace-symbol-002", subj, loc, message, suggestion));
        return;
    }
    if let Inspection::Failed(e) = &probe.inspection {
        let mut message = String::from_str("Failed to inspect symbol `");
        message.append(symbol);
        message.append("` in `");
        message.append(file);
        message.append("` with the `");
        message.append(language);
        message.append("` inspector: ");
        message.append(e.as_str());
        let mut suggestion = String::from_str("Fix the parser/runtime configuration for `");
        suggestion.append(language);
        suggestion.append("` or update `");
        suggestion.append(file);
        suggestion.append("` so `syu validate` can inspect it.");
        append_issue(issues, trace_error("SYU-trace-inspection-001", subj, loc, message, suggestion));
        return;
    }
    let documented = match &probe.inspection {
        Inspection::Documented(_) => true,
        _ => false,
    };
    if !(documented || probe.pattern_match) {
        let mut message = String::from_str("Declared symbol `");
        message.append(symbol);
        message.append("` was not found in `");
        message.append(file);
        message.append("`.");
        let mut suggestion = String::from_str("Add symbol `");
        suggestion.append(symbol);
        suggestion.append("` to `");
        suggestion.append(file);
        suggestion.append("` or update the YAML mapping for `");
        suggestion.append(owner);
        suggestion.append("`.");
        append_issue(issues, trace_error("SYU-trace-symbol-003", subj, loc, message, suggestion));
        return;
    }
    if snippets.len() == 0 {
        assert(issue_views(issues@) =~= issue_views(old(issues)@) + Seq::<IssueSpec>::empty());
        return;
    }
    match &probe.inspection {
        Inspection::Documented(docs) => {
            check_docs(subj, loc, file, symbol, snippets, docs.as_str(), issues);
        },
        _ => {
            let mut message = String::from_str("Language `");
            message.append(language);
            message.append("` does not provide rich documentation inspection for symbol `");
            message.append(symbol);
            message.append("`.");
            let mut suggestion = String::from_str("Remove `doc_contains` from the `");
            suggestion.append(language);
            suggestion.append("` mapping for `");
            suggestion.append(owner);
            suggestion.append("` or switch to a language with rich inspection support.");
            append_issue(issues, trace_error("SYU-trace-docsupport-001", subj, loc, message, suggestion));
        },
    }
}

fn any_wildcard(symbols: &Vec<String>) -> (res: bool)
    ensures
        res == has_wildcard(views(symbols@)),
{
    let mut i: usize = 0;
    while i < symbols.len()
        invariant
            i <= symbols.len(),
            forall|k: int| 0 <= k < i ==> trim_seq(#[trigger] views(symbols@)[k]) != "*"@,
        decreases symbols.len() - i,
    {
        let t = trim(symbols[i].as_str());
        if str_eq(t.as_str(), "*") {
            assert(trim_seq(views(symbols@)[i as int]) == "*"@);
            return true;
        }
        i = i + 1;
    }
    false
}

/// Checks one trace reference against what was found on disk; returns whether
/// it holds, which is exactly when it earns no diagnostic.
#[verifier::spinoff_prover]
#[verifier::rlimit(50)]
pub fn verify_trace_reference(
    owner_id: &str,
    role: TraceRole,
    language: &str,
    reference: &TraceReference,
    probe: &TraceProbe,
    issues: &mut Vec<ValidationIssue>,
) -> (res: bool)
    requires
        probe.symbols.len() == reference.symbols.len(),
    ensures
        issue_views(final(issues)@) == issue_views(old(issues)@) + reference_issues(owner_id@, role, language@, *reference, *probe),
        res == (reference_issues(owner_id@, role, language@, *reference, *probe).len() == 0),
{
    let initial_len = issues.len();
    let subj = subject(role.subject_kind(), owner_id);
    let loc = format_reference_location(language, reference);
    let file = reference.file.as_str();
    if !probe.language_supported {
        let mut message = String::from_str("Language `");
        message.append(language);
        message.append("` is not supported. Built-in adapters currently cover Rust, Python, TypeScript, Shell, YAML, JSON, Markdown, and Gitignore.");
        let mut suggestion = String::from_str("Use a supported language alias such as `rust`, `python`, `typescript`, `shell`, `yaml`, `json`, `markdown`, or `gitignore` for `");
        suggestion.append(owner_id);
        suggestion.append("`.");
        append_issue(issues, trace_error("SYU-trace-language-001", &subj, &loc, message, suggestion));
        return false;
    }
    if file.unicode_len() == 0 {
        let mut message = String::from_str("Declared ");
        message.append(role.label());
        message.append(" mapping for `");
        message.append(owner_id);
        message.append("` does not specify a file path.");
        let mut suggestion = String::from_str("Add a file path to the `");
        suggestion.append(language);
        suggestion.append("` ");
        suggestion.append(role.relation_name());
        suggestion.append(" mapping for `");
        suggestion.append(owner_id);
        suggestion.append("`.");
        append_issue(issues, trace_error("SYU-trace-file-001", &subj, &loc, message, suggestion));
        return false;
    }
    if !probe.is_file {
        let mut message = String::from_str("Declared ");
        message.append(role.label());
        message.append(" file `");
        message.append(file);
        message.append("` does not exist.");
        let mut suggestion = String::from_str("Create `");
        suggestion.append(file);
        suggestion.append("` or update `");
        suggestion.append(owner_id);
        suggestion.append("` to point to the correct ");
        suggestion.append(role.label());
        suggestion.append(" file.");
        append_issue(issues, trace_error("SYU-trace-file-002", &subj, &loc, message, suggestion));
        return false;
    }
    let ghost start = issue_views(issues@);
    if !probe.extension_matches {
        let mut message = String::from_str("File `");
        message.append(file);
        message.append("` does not match the `");
        message.append(probe.adapter_name.as_str());
        message.append("` adapter extensions.");
        let mut suggestion = String::from_str("Use a `");
        suggestion.append(probe.adapter_name.as_str());
        suggestion.append("` file extension or change the declared language for `");
        suggestion.append(file);
        suggestion.append("`.");
        append_issue(issues, trace_error("SYU-trace-extension-001", &subj, &loc, message, suggestion));
    }
    let ghost after_extension = issue_views(issues@);
    let contents = match &probe.contents {
        Err(e) => {
            let mut message = String::from_str("Declared ");
            message.append(role.label());
            message.append(" file `");
            message.append(file);
            message.append("` could not be read: ");
            message.append(e.as_str());
            let mut suggestion = String::from_str("Ensure `");
            suggestion.append(file);
            suggestion.append("` is readable before running `syu validate`.");
            append_issue(issues, trace_error("SYU-trace-unreadable-001", &subj, &loc, message, suggestion));
            assert(issue_views(issues@) =~= issue_views(old(issues)@) + reference_issues(owner_id@, role, language@, *reference, *probe));
            return false;
        },
        Ok(c) => c.as_str(),
    };
    if !crate::text::contains(contents, owner_id) {
        let mut message = String::from_str("Declared ");
        message.append(role.label());
        message.append(" file `");
        message.append(file);
        message.append("` does not mention `");
        message.append(owner_id);
        message.append("`.");
        let mut suggestion = String::from_str("Add `");
        suggestion.append(owner_id);
        suggestion.append("` to `");
        suggestion.append(file);
        suggestion.append("` so the ");
        suggestion.append(role.label());
        suggestion.append(" remains explicitly traceable.");
        append_issue(issues, trace_error("SYU-trace-id-001", &subj, &loc, message, suggestion));
    }
    let ghost after_mention = issue_views(issues@);
    if reference.symbols.len() == 0 {
        let mut message = String::from_str("Declared ");
        message.append(role.label());
        message.append(" file `");
        message.append(file);
        message.append("` does not list any symbols to verify.");
        let mut suggestion = String::from_str("Add one or more symbols to the `");
        suggestion.append(language);
        suggestion.append("` mapping for `");
        suggestion.append(owner_id);
        suggestion.append("`.");
        append_issue(issues, trace_error("SYU-trace-symbol-001", &subj, &loc, message, suggestion));
    }
    let ghost head = issue_views(issues@);
    assert(head =~= issue_views(old(issues)@) + (
        (after_extension.skip(start.len() as int) + after_mention.skip(after_extension.len() as int)) + head.skip(after_mention.len() as int)));
    if any_wildcard(&reference.symbols) {
        if reference.doc_contains.len() > 0 {
            let message = cat3("Wildcard trace mappings in `", file, "` cannot use `doc_contains` because they do not point to a single symbol.");
            let suggestion = owned("Remove `doc_contains` or replace `*` with explicit symbol names for documentation checks.");
            append_issue(issues, trace_error("SYU-trace-docscope-001", &subj, &loc, message, suggestion));
        }
        assert(issue_views(issues@) =~= issue_views(old(issues)@) + reference_issues(owner_id@, role, language@, *reference, *probe));
        return issues.len() == initial_len;
    }
    let ghost before_symbols = issue_views(issues@);
    let mut i: usize = 0;
    assert(views(reference.symbols@).take(0) =~= Seq::<Seq<char>>::empty());
    assert(issue_views(issues@) =~= before_symbols + Seq::<IssueSpec>::empty());
    while i < reference.symbols.len()
        invariant
            i <= reference.symbols.len(),
            probe.symbols.len() == reference.symbols.len(),
            issue_views(issues@) == before_symbols + symbols_issues(owner_id@, role, language@, subj@, loc@, file@,
                views(reference.doc_contains@), views(reference.symbols@).take(i as int), probe.symbols@),
        decreases reference.symbols.len() - i,
    {
        proof {
            assert(views(reference.symbols@).take(i + 1).drop_last() =~= views(reference.symbols@).take(i as int));
            assert(views(reference.symbols@).take(i + 1).last() == reference.symbols@[i as int]@);
        }
        check_symbol(owner_id, role, language, &subj, &loc, file, &reference.doc_contains,
            reference.symbols[i].as_str(), &probe.symbols[i], issues);
        assert(issue_views(issues@) =~= before_symbols + symbols_issues(owner_id@, role, language@, subj@, loc@, file@,
                views(reference.doc_contains@), views(reference.symbols@).take(i + 1), probe.symbols@));
        i = i + 1;
    }
    assert(views(reference.symbols@).take(reference.symbols.len() as int) =~= views(reference.symbols@));
    assert(issue_views(issues@) =~= issue_views(old(issues)@) + reference_issues(owner_id@, role, language@, *reference, *probe));
    issues.len() == initial_len
}


// ---------------------------------------------------------------------------
// Trace maps
// ---------------------------------------------------------------------------

/// `file=`..` symbols=[..] doc_contains=[..]`.
pub open spec fn describe_reference_spec(reference: TraceReference) -> Seq<char> {
    "file=`"@ + reference.file@ + "` symbols=["@ + id_list_spec(views(reference.symbols@))
        + "] doc_contains=["@ + id_list_spec(views(reference.doc_contains@)) + "]"@
}

pub fn describe_trace_reference(reference: &TraceReference) -> (res: String)
    ensures
        res@ == describe_reference_spec(*reference),
{
    let symbols = format_issue_id_list(&reference.symbols);
    let doc_contains = format_issue_id_list(&reference.doc_contains);
    let mut s = String::from_str("file=`");
    s.append(reference.file.as_str());
    s.append("` symbols=[");
    s.append(symbols.as_str());
    s.append("] doc_contains=[");
    s.append(doc_contains.as_str());
    s.append("]");
    s
}

/// Two references are the same entry when file, symbols and snippets all agree.
pub open spec fn same_reference(a: TraceReference, b: TraceReference) -> bool {
    a.file@ == b.file@ && views(a.symbols@) == views(b.symbols@) && views(a.doc_contains@) == views(
        b.doc_contains@,
    )
}

pub open spec fn repeats_reference(refs: Seq<TraceReference>, r: TraceReference) -> bool {
    exists|i: int| 0 <= i < refs.len() && same_reference(#[trigger] refs[i], r)
}

pub open spec fn duplicate_reference_issue(owner: Seq<char>, role: TraceRole, language: Seq<char>, r: TraceReference) -> IssueSpec {
    trace_issue("SYU-trace-duplicate-001"@, subject_of(role_subject_kind_spec(role), owner),
        reference_location_spec(language, r.file@),
        role_subject_kind_spec(role) + " `"@ + owner + "` repeats the same `"@ + language + "` "@
            + role_relation_spec(role) + " entry: "@ + describe_reference_spec(r) + "."@,
        "Remove the duplicate `"@ + language + "` "@ + role_relation_spec(role) + " entry from `"@ + owner + "`."@)
}

pub open spec fn duplicate_reference_issues(owner: Seq<char>, role: TraceRole, language: Seq<char>, refs: Seq<TraceReference>) -> Seq<IssueSpec>
    decreases refs.len(),
{
    if refs.len() == 0 {
        Seq::empty()
    } else {
        let prev = duplicate_reference_issues(owner, role, language, refs.drop_last());
        if repeats_reference(refs.drop_last(), refs.last()) {
            prev.push(duplicate_reference_issue(owner, role, language, refs.last()))
        } else {
            prev
        }
    }
}

fn strings_eq(a: &Vec<String>, b: &Vec<String>) -> (res: bool)
    ensures
        res == (views(a@) == views(b@)),
{
    if a.len() != b.len() {
        assert(views(a@).len() != views(b@).len());
        return false;
    }
    let mut i: usize = 0;
    while i < a.len()
        invariant
            a.len() == b.len(),
            i <= a.len(),
            forall|k: int| 0 <= k < i ==> a@[k]@ == b@[k]@,
        decreases a.len() - i,
    {
        if !str_eq(a[i].as_str(), b[i].as_str()) {
            assert(views(a@)[i as int] != views(b@)[i as int]);
            return false;
        }
        i = i + 1;
    }
    assert(views(a@) =~= views(b@));
    true
}

fn reference_eq(a: &TraceReference, b: &TraceReference) -> (res: bool)
    ensures
        res == same_reference(*a, *b),
{
    str_eq(a.file.as_str(), b.file.as_str()) && strings_eq(&a.symbols, &b.symbols) && strings_eq(&a.doc_contains, &b.doc_contains)
}

/// Reports every trace reference that repeats an earlier one of the same language.
pub fn validate_duplicate_trace_references(
    owner_id: &str,
    role: TraceRole,
    language: &str,
    references: &Vec<TraceReference>,
    issues: &mut Vec<ValidationIssue>,
)
    ensures
        issue_views(final(issues)@) == issue_views(old(issues)@) + duplicate_reference_issues(owner_id@, role, language@, references@),
{
    let subj = subject(role.subject_kind(), owner_id);
    let mut i: usize = 0;
    assert(references@.take(0) =~= Seq::<TraceReference>::empty());
    assert(issue_views(issues@) =~= issue_views(old(issues)@) + Seq::<IssueSpec>::empty());
    while i < references.len()
        invariant
            i <= references.len(),
            subj@ == subject_of(role_subject_kind_spec(role), owner_id@),
            issue_views(issues@) == issue_views(old(issues)@) + duplicate_reference_issues(owner_id@, role, language@, references@.take(i as int)),
        decreases references.len() - i,
    {
        proof {
            assert(references@.take(i + 1).drop_last() =~= references@.take(i as int));
        }
        let mut seen = false;
        let mut k: usize = 0;
        while k < i
            invariant
                k <= i < references.len(),
                !seen ==> forall|t: int| 0 <= t < k ==> !same_reference(#[trigger] references@[t], references@[i as int]),
                seen ==> repeats_reference(references@.take(i as int), references@[i as int]),
            decreases i - k,
        {
            if !seen && reference_eq(&references[k], &references[i]) {
                seen = true;
                assert(references@.take(i as int)[k as int] == references@[k as int]);
            }
            k = k + 1;
        }
        proof {
            if !seen {
                assert forall|t: int| 0 <= t < i implies !same_reference(#[trigger] references@.take(i as int)[t], references@[i as int]) by {
                    assert(references@.take(i as int)[t] == references@[t]);
                }
            }
        }
        if seen {
            let reference = &references[i];
            let description = describe_trace_reference(reference);
            let mut message = String::from_str(role.subject_kind());
            message.append(" `");
            message.append(owner_id);
            message.append("` repeats the same `");
            message.append(language);
            message.append("` ");
            message.append(role.relation_name());
            message.append(" entry: ");
            message.append(description.as_str());
            message.append(".");
            let mut suggestion = String::from_str("Remove the duplicate `");
            suggestion.append(language);
            suggestion.append("` ");
            suggestion.append(role.relation_name());
            suggestion.append(" entry from `");
            suggestion.append(owner_id);
            suggestion.append("`.");
            let loc = format_reference_location(language, reference);
            append_issue(issues, trace_error("SYU-trace-duplicate-001", &subj, &loc, message, suggestion));
        }
        assert(issue_views(issues@) =~= issue_views(old(issues)@) + duplicate_reference_issues(owner_id@, role, language@, references@.take(i + 1)));
        i = i + 1;
    }
    assert(references@.take(references.len() as int) =~= references@);
}

pub open spec fn group_duplicate_issues(owner: Seq<char>, role: TraceRole, groups: Seq<TraceGroup>) -> Seq<IssueSpec>
    decreases groups.len(),
{
    if groups.len() == 0 {
        Seq::empty()
    } else {
        group_duplicate_issues(owner, role, groups.drop_last())
            + duplicate_reference_issues(owner, role, groups.last().language@, groups.last().references@)
    }
}

/// The probes line up with the references: one per reference, one symbol probe per symbol.
pub open spec fn probes_fit(groups: Seq<TraceGroup>, probes: Seq<Vec<TraceProbe>>) -> bool {
    &&& probes.len() == groups.len()
    &&& forall|g: int| 0 <= g < groups.len() ==> #[trigger] probes[g].len() == groups[g].references.len()
    &&& forall|g: int, r: int| 0 <= g < groups.len() && 0 <= r < groups[g].references.len()
        ==> #[trigger] probes[g]@[r].symbols.len() == groups[g].references@[r].symbols.len()
}

pub open spec fn refs_issues(owner: Seq<char>, role: TraceRole, language: Seq<char>, refs: Seq<TraceReference>, probes: Seq<TraceProbe>) -> Seq<IssueSpec>
    decreases refs.len(),
{
    if refs.len() == 0 {
        Seq::empty()
    } else {
        refs_issues(owner, role, language, refs.drop_last(), probes)
            + reference_issues(owner, role, language, refs.last(), probes[refs.len() - 1])
    }
}

pub open spec fn refs_ok(owner: Seq<char>, role: TraceRole, language: Seq<char>, refs: Seq<TraceReference>, probes: Seq<TraceProbe>) -> nat
    decreases refs.len(),
{
    if refs.len() == 0 {
        0
    } else {
        refs_ok(owner, role, language, refs.drop_last(), probes)
            + if reference_issues(owner, role, language, refs.last(), probes[refs.len() - 1]).len() == 0 { 1nat } else { 0nat }
    }
}

pub open spec fn groups_issues(owner: Seq<char>, role: TraceRole, groups: Seq<TraceGroup>, probes: Seq<Vec<TraceProbe>>) -> Seq<IssueSpec>
    decreases groups.len(),
{
    if groups.len() == 0 {
        Seq::empty()
    } else {
        groups_issues(owner, role, groups.drop_last(), probes)
            + refs_issues(owner, role, groups.last().language@, groups.last().references@, probes[groups.len() - 1]@)
    }
}

pub open spec fn groups_ok(owner: Seq<char>, role: TraceRole, groups: Seq<TraceGroup>, probes: Seq<Vec<TraceProbe>>) -> nat
    decreases groups.len(),
{
    if groups.len() == 0 {
        0
    } else {
        groups_ok(owner, role, groups.drop_last(), probes)
            + refs_ok(owner, role, groups.last().language@, groups.last().references@, probes[groups.len() - 1]@)
    }
}

/// The number of references of a trace map.
pub open spec fn reference_count(groups: Seq<TraceGroup>) -> nat
    decreases groups.len(),
{
    if groups.len() == 0 {
        0
    } else {
        reference_count(groups.drop_last()) + groups.last().references@.len()
    }
}

pub open spec fn trace_status_issue(code: Seq<char>, severity: Severity, owner: Seq<char>, role: TraceRole, location: Option<Seq<char>>, message: Seq<char>, suggestion: Seq<char>) -> IssueSpec {
    IssueSpec {
        code,
        severity,
        subject: subject_of(role_subject_kind_spec(role), owner),
        location,
        message,
        suggestion: Some(suggestion),
    }
}

/// Whether the references of a trace map are checked against the files: not
/// for planned items, and not when the map is empty.
pub open spec fn traces_checked(status: Option<DeliveryStatus>, groups: Seq<TraceGroup>) -> bool {
    status != Some(DeliveryStatus::Planned) && groups.len() > 0
}

pub open spec fn trace_map_issues(owner: Seq<char>, role: TraceRole, status: Option<DeliveryStatus>, groups: Seq<TraceGroup>, probes: Seq<Vec<TraceProbe>>) -> Seq<IssueSpec> {
    let kind = role_subject_kind_spec(role);
    let relation = role_relation_spec(role);
    group_duplicate_issues(owner, role, groups) + match status {
        Some(DeliveryStatus::Planned) => if groups.len() > 0 {
            seq![trace_status_issue("SYU-delivery-planned-002"@, Severity::Error, owner, role, Some("status"@),
                kind + " `"@ + owner + "` is marked `planned` and must not declare any "@ + relation + "."@,
                "Remove the declared "@ + relation + " from `"@ + owner + "` or change its status to `implemented`."@)]
        } else {
            Seq::empty()
        },
        Some(DeliveryStatus::Implemented) => if groups.len() == 0 {
            seq![trace_status_issue("SYU-delivery-implemented-001"@, Severity::Error, owner, role, Some("status"@),
                kind + " `"@ + owner + "` is marked `implemented` but does not declare any "@ + relation + "."@,
                "Add at least one "@ + relation + " mapping to `"@ + owner + "` or mark it `planned`."@)]
        } else {
            groups_issues(owner, role, groups, probes)
        },
        None => if groups.len() == 0 {
            seq![trace_status_issue("SYU-delivery-missing-001"@, Severity::Warning, owner, role, None,
                kind + " `"@ + owner + "` does not declare any "@ + relation + "."@,
                "Add at least one "@ + relation + " mapping to `"@ + owner + "`."@)]
        } else {
            groups_issues(owner, role, groups, probes)
        },
    }
}

proof fn lemma_refs_ok_bound(owner: Seq<char>, role: TraceRole, language: Seq<char>, refs: Seq<TraceReference>, probes: Seq<TraceProbe>)
    ensures
        refs_ok(owner, role, language, refs, probes) <= refs.len(),
    decreases refs.len(),
{
    if refs.len() > 0 {
        lemma_refs_ok_bound(owner, role, language, refs.drop_last(), probes);
    }
}

proof fn lemma_groups_ok_bound(owner: Seq<char>, role: TraceRole, groups: Seq<TraceGroup>, probes: Seq<Vec<TraceProbe>>)
    ensures
        groups_ok(owner, role, groups, probes) <= reference_count(groups),
    decreases groups.len(),
{
    if groups.len() > 0 {
        lemma_groups_ok_bound(owner, role, groups.drop_last(), probes);
        lemma_refs_ok_bound(owner, role, groups.last().language@, groups.last().references@, probes[groups.len() - 1]@);
    }
}

proof fn lemma_reference_count_prefix(groups: Seq<TraceGroup>, g: int)
    requires
        0 <= g <= groups.len(),
    ensures
        reference_count(groups.take(g)) <= reference_count(groups),
    decreases groups.len() - g,
{
    if g < groups.len() {
        lemma_reference_count_prefix(groups, g + 1);
        assert(groups.take(g + 1).drop_last() =~= groups.take(g));
    } else {
        assert(groups.take(g) =~= groups);
    }
}

/// Checks a requirement's tests or a feature's implementations and counts the
/// declared and the verified references.
pub fn validate_trace_map(
    owner_id: &str,
    role: TraceRole,
    status: Option<DeliveryStatus>,
    groups: &Vec<TraceGroup>,
    probes: &Vec<Vec<TraceProbe>>,
    issues: &mut Vec<ValidationIssue>,
    trace_count: &mut TraceCount,
)
    requires
        probes_fit(groups@, probes@),
        old(trace_count).declared + reference_count(groups@) <= usize::MAX,
        old(trace_count).validated + reference_count(groups@) <= usize::MAX,
    ensures
        issue_views(final(issues)@) == issue_views(old(issues)@) + trace_map_issues(owner_id@, role, status, groups@, probes@),
        traces_checked(status, groups@) ==> final(trace_count).declared == old(trace_count).declared + reference_count(groups@)
            && final(trace_count).validated == old(trace_count).validated + groups_ok(owner_id@, role, groups@, probes@),
        !traces_checked(status, groups@) ==> *final(trace_count) == *old(trace_count),
        final(trace_count).validated - old(trace_count).validated <= final(trace_count).declared - old(trace_count).declared,
{
    let ghost start = issue_views(issues@);
    let mut g: usize = 0;
    assert(groups@.take(0) =~= Seq::<TraceGroup>::empty());
    assert(issue_views(issues@) =~= start + Seq::<IssueSpec>::empty());
    while g < groups.len()
        invariant
            g <= groups.len(),
            issue_views(issues@) == start + group_duplicate_issues(owner_id@, role, groups@.take(g as int)),
        decreases groups.len() - g,
    {
        proof {
            assert(groups@.take(g + 1).drop_last() =~= groups@.take(g as int));
        }
        validate_duplicate_trace_references(owner_id, role, groups[g].language.as_str(), &groups[g].references, issues);
        assert(issue_views(issues@) =~= start + group_duplicate_issues(owner_id@, role, groups@.take(g + 1)));
        g = g + 1;
    }
    assert(groups@.take(groups.len() as int) =~= groups@);
    let ghost after_dups = issue_views(issues@);
    let kind = role.subject_kind();
    let relation = role.relation_name();
    match status {
        Some(DeliveryStatus::Planned) => {
            if groups.len() > 0 {
                let mut message = String::from_str(kind);
                message.append(" `");
                message.append(owner_id);
                message.append("` is marked `planned` and must not declare any ");
                message.append(relation);
                message.append(".");
                let mut suggestion = String::from_str("Remove the declared ");
                suggestion.append(relation);
                suggestion.append(" from `");
                suggestion.append(owner_id);
                suggestion.append("` or change its status to `implemented`.");
                append_issue(issues, ValidationIssue::error("SYU-delivery-planned-002", subject(kind, owner_id), Some(owned("status")), message, Some(suggestion)));
            } else {
                assert(issue_views(issues@) =~= after_dups + Seq::<IssueSpec>::empty());
            }
            return;
        },
        Some(DeliveryStatus::Implemented) => {
            if groups.len() == 0 {
                let mut message = String::from_str(kind);
                message.append(" `");
                message.append(owner_id);
                message.append("` is marked `implemented` but does not declare any ");
                message.append(relation);
                message.append(".");
                let mut suggestion = String::from_str("Add at least one ");
                suggestion.append(relation);
                suggestion.append(" mapping to `");
                suggestion.append(owner_id);
                suggestion.append("` or mark it `planned`.");
                append_issue(issues, ValidationIssue::error("SYU-delivery-implemented-001", subject(kind, owner_id), Some(owned("status")), message, Some(suggestion)));
                return;
            }
        },
        None => {
            if groups.len() == 0 {
                let mut message = String::from_str(kind);
                message.append(" `");
                message.append(owner_id);
                message.append("` does not declare any ");
                message.append(relation);
                message.append(".");
                let mut suggestion = String::from_str("Add at least one ");
                suggestion.append(relation);
                suggestion.append(" mapping to `");
                suggestion.append(owner_id);
                suggestion.append("`.");
                append_issue(issues, ValidationIssue::warning("SYU-delivery-missing-001", subject(kind, owner_id), None, message, Some(suggestion)));
                return;
            }
        },
    }
    let ghost declared0 = trace_count.declared;
    let ghost validated0 = trace_count.validated;
    proof {
        lemma_groups_ok_bound(owner_id@, role, groups@, probes@);
    }
    let mut g: usize = 0;
    assert(issue_views(issues@) =~= after_dups + groups_issues(owner_id@, role, groups@.take(0), probes@));
    while g < groups.len()
        invariant
            g <= groups.len(),
            probes_fit(groups@, probes@),
            declared0 + reference_count(groups@) <= usize::MAX,
            validated0 + reference_count(groups@) <= usize::MAX,
            issue_views(issues@) == after_dups + groups_issues(owner_id@, role, groups@.take(g as int), probes@),
            trace_count.declared == declared0 + reference_count(groups@.take(g as int)),
            trace_count.validated == validated0 + groups_ok(owner_id@, role, groups@.take(g as int), probes@),
            groups_ok(owner_id@, role, groups@.take(g as int), probes@) <= reference_count(groups@.take(g as int)),
        decreases groups.len() - g,
    {
        proof {
            assert(groups@.take(g + 1).drop_last() =~= groups@.take(g as int));
            assert(groups@.take(g + 1).last() == groups@[g as int]);
            lemma_reference_count_prefix(groups@, g + 1);
            lemma_groups_ok_bound(owner_id@, role, groups@.take(g + 1), probes@);
        }
        let group = &groups[g];
        let group_probes = &probes[g];
        let ghost before_group = issue_views(issues@);
        let ghost declared_g = trace_count.declared;
        let ghost validated_g = trace_count.validated;
        assert(probes@[g as int].len() == groups@[g as int].references.len());
        assert(group_probes@.len() == group.references@.len());
        assert forall|t: int| 0 <= t < group.references@.len() implies #[trigger] group_probes@[t].symbols.len() == group.references@[t].symbols.len() by {
            assert(probes@[g as int]@[t].symbols.len() == groups@[g as int].references@[t].symbols.len());
        }
        let mut r: usize = 0;
        assert(group.references@.take(0) =~= Seq::<TraceReference>::empty());
        assert(issue_views(issues@) =~= before_group + Seq::<IssueSpec>::empty());
        while r < group.references.len()
            invariant
                r <= group.references.len(),
                group == &groups@[g as int],
                group_probes == &probes@[g as int],
                g < groups.len(),
                probes_fit(groups@, probes@),
                declared_g + group.references.len() <= usize::MAX,
                validated_g + group.references.len() <= usize::MAX,
                group_probes@.len() == group.references@.len(),
                forall|t: int| 0 <= t < group.references@.len() ==> #[trigger] group_probes@[t].symbols.len() == group.references@[t].symbols.len(),
                issue_views(issues@) == before_group + refs_issues(owner_id@, role, group.language@, group.references@.take(r as int), group_probes@),
                trace_count.declared == declared_g + r,
                trace_count.validated == validated_g + refs_ok(owner_id@, role, group.language@, group.references@.take(r as int), group_probes@),
            decreases group.references.len() - r,
        {
            proof {
                assert(group.references@.take(r + 1).drop_last() =~= group.references@.take(r as int));
                assert(group.references@.take(r + 1).last() == group.references@[r as int]);
                assert(group_probes@[r as int].symbols.len() == group.references@[r as int].symbols.len());
                lemma_refs_ok_bound(owner_id@, role, group.language@, group.references@.take(r as int), group_probes@);
            }
            trace_count.declared = trace_count.declared + 1;
            let ok = verify_trace_reference(owner_id, role, group.language.as_str(), &group.references[r], &group_probes[r], issues);
            if ok {
                trace_count.validated = trace_count.validated + 1;
            }
            assert(issue_views(issues@) =~= before_group + refs_issues(owner_id@, role, group.language@, group.references@.take(r + 1), group_probes@));
            r = r + 1;
        }
        assert(group.references@.take(group.references.len() as int) =~= group.references@);
        assert(issue_views(issues@) =~= after_dups + groups_issues(owner_id@, role, groups@.take(g + 1), probes@));
        g = g + 1;
    }
    assert(groups@.take(groups.len() as int) =~= groups@);
}


// ---------------------------------------------------------------------------
// The four layers
// ---------------------------------------------------------------------------

pub open spec fn unlinked_issue(kind: Seq<char>, id: Seq<char>, message: Seq<char>, suggestion: Seq<char>) -> IssueSpec {
    IssueSpec {
        code: "SYU-graph-links-001"@,
        severity: Severity::Warning,
        subject: subject_of(kind, id),
        location: None,
        message,
        suggestion: Some(suggestion),
    }
}

pub open spec fn unlinked_issues(links: Seq<String>, kind: Seq<char>, id: Seq<char>, message: Seq<char>, suggestion: Seq<char>) -> Seq<IssueSpec> {
    if links.len() == 0 {
        seq![unlinked_issue(kind, id, message, suggestion)]
    } else {
        Seq::empty()
    }
}

fn warn_unlinked(links: &Vec<String>, kind: &str, id: &str, message: &str, suggestion: String, issues: &mut Vec<ValidationIssue>)
    ensures
        issue_views(final(issues)@) == issue_views(old(issues)@) + unlinked_issues(links@, kind@, id@, message@, suggestion@),
{
    if links.len() == 0 {
        append_issue(issues, ValidationIssue::warning("SYU-graph-links-001", subject(kind, id), None, owned(message), Some(suggestion)));
    } else {
        assert(issue_views(issues@) =~= issue_views(old(issues)@) + Seq::<IssueSpec>::empty());
    }
}

fn link_suggestion(head: &str, id: &str, tail: &str) -> (res: String)
    ensures
        res@ == head@ + id@ + tail@,
{
    cat3(head, id, tail)
}

/// Every diagnostic for one philosophy.
pub open spec fn philosophy_issues(p: Philosophy, pols: Seq<Policy>) -> Seq<IssueSpec> {
    let id = p.id@;
    blank_issues("philosophy"@, "id"@, p.id@) + blank_issues("philosophy"@, "title"@, p.title@)
        + blank_issues("philosophy"@, "product_design_principle"@, p.product_design_principle@)
        + blank_issues("philosophy"@, "coding_guideline"@, p.coding_guideline@)
        + duplicate_link_issues("philosophy"@, id, "linked_policies"@, "policy"@, views(p.linked_policies@))
        + unlinked_issues(p.linked_policies@, "philosophy"@, id, "Philosophy does not link to any policies."@,
            "Add at least one policy link to `"@ + id + "` so the philosophy influences executable behavior."@)
        + link_issues("philosophy"@, id, "policy"@, "Policy"@, "linked_philosophies"@, views(p.linked_policies@), policies_for_philosophy_spec(pols))
}

pub fn validate_philosophy(philosophy: &Philosophy, policies: &Vec<Policy>, issues: &mut Vec<ValidationIssue>)
    ensures
        issue_views(final(issues)@) == issue_views(old(issues)@) + philosophy_issues(*philosophy, policies@),
{
    let id = philosophy.id.as_str();
    let ghost s0 = issue_views(issues@);
    validate_non_empty_field("philosophy", "id", id, issues);
    validate_non_empty_field("philosophy", "title", philosophy.title.as_str(), issues);
    validate_non_empty_field("philosophy", "product_design_principle", philosophy.product_design_principle.as_str(), issues);
    validate_non_empty_field("philosophy", "coding_guideline", philosophy.coding_guideline.as_str(), issues);
    validate_duplicate_links("philosophy", id, "linked_policies", "policy", &philosophy.linked_policies, issues);
    warn_unlinked(&philosophy.linked_policies, "philosophy", id, "Philosophy does not link to any policies.",
        link_suggestion("Add at least one policy link to `", id, "` so the philosophy influences executable behavior."), issues);
    let targets = policies_for_philosophy(policies);
    validate_links("philosophy", id, "policy", "Policy", "linked_philosophies", &philosophy.linked_policies, &targets, issues);
    assert(issue_views(issues@) =~= s0 + philosophy_issues(*philosophy, policies@));
}

/// Every diagnostic for one policy.
pub open spec fn policy_issues(p: Policy, phils: Seq<Philosophy>, reqs: Seq<Requirement>) -> Seq<IssueSpec> {
    let id = p.id@;
    blank_issues("policy"@, "id"@, p.id@) + blank_issues("policy"@, "title"@, p.title@)
        + blank_issues("policy"@, "summary"@, p.summary@)
        + blank_issues("policy"@, "description"@, p.description@)
        + duplicate_link_issues("policy"@, id, "linked_philosophies"@, "philosophy"@, views(p.linked_philosophies@))
        + duplicate_link_issues("policy"@, id, "linked_requirements"@, "requirement"@, views(p.linked_requirements@))
        + unlinked_issues(p.linked_philosophies@, "policy"@, id, "Policy does not link to any philosophies."@,
            "Add at least one philosophy link to `"@ + id + "`."@)
        + unlinked_issues(p.linked_requirements@, "policy"@, id, "Policy does not link to any requirements."@,
            "Add at least one requirement link to `"@ + id + "`."@)
        + link_issues("policy"@, id, "philosophy"@, "Philosophy"@, "linked_policies"@, views(p.linked_philosophies@), philosophies_for_policy_spec(phils))
        + link_issues("policy"@, id, "requirement"@, "Requirement"@, "linked_policies"@, views(p.linked_requirements@), requirements_for_policy_spec(reqs))
}

pub fn validate_policy(policy: &Policy, philosophies: &Vec<Philosophy>, requirements: &Vec<Requirement>, issues: &mut Vec<ValidationIssue>)
    ensures
        issue_views(final(issues)@) == issue_views(old(issues)@) + policy_issues(*policy, philosophies@, requirements@),
{
    let id = policy.id.as_str();
    let ghost s0 = issue_views(issues@);
    validate_non_empty_field("policy", "id", id, issues);
    validate_non_empty_field("policy", "title", policy.title.as_str(), issues);
    validate_non_empty_field("policy", "summary", policy.summary.as_str(), issues);
    validate_non_empty_field("policy", "description", policy.description.as_str(), issues);
    validate_duplicate_links("policy", id, "linked_philosophies", "philosophy", &policy.linked_philosophies, issues);
    validate_duplicate_links("policy", id, "linked_requirements", "requirement", &policy.linked_requirements, issues);
    warn_unlinked(&policy.linked_philosophies, "policy", id, "Policy does not link to any philosophies.",
        link_suggestion("Add at least one philosophy link to `", id, "`."), issues);
    warn_unlinked(&policy.linked_requirements, "policy", id, "Policy does not link to any requirements.",
        link_suggestion("Add at least one requirement link to `", id, "`."), issues);
    let phil_targets = philosophies_for_policy(philosophies);
    validate_links("policy", id, "philosophy", "Philosophy", "linked_policies", &policy.linked_philosophies, &phil_targets, issues);
    let req_targets = requirements_for_policy(requirements);
    validate_links("policy", id, "requirement", "Requirement", "linked_policies", &policy.linked_requirements, &req_targets, issues);
    assert(issue_views(issues@) =~= s0 + policy_issues(*policy, philosophies@, requirements@));
}


proof fn lemma_extend(s0: Seq<IssueSpec>, acc: Seq<IssueSpec>, d: Seq<IssueSpec>)
    ensures
        (s0 + acc) + d == s0 + (acc + d),
{
    assert((s0 + acc) + d =~= s0 + (acc + d));
}

/// The diagnostics of a requirement that concern its fields and links.
pub open spec fn requirement_graph_issues(r: Requirement, pols: Seq<Policy>, feats: Seq<Feature>, allow_planned: bool) -> Seq<IssueSpec> {
    let id = r.id@;
    let status = effective_status(r.status@);
    blank_issues("requirement"@, "id"@, r.id@) + blank_issues("requirement"@, "title"@, r.title@)
        + blank_issues("requirement"@, "description"@, r.description@)
        + blank_issues("requirement"@, "priority"@, r.priority@)
        + blank_issues("requirement"@, "status"@, r.status@)
        + status_issues("requirement"@, id, r.status@, allow_planned)
        + duplicate_link_issues("requirement"@, id, "linked_policies"@, "policy"@, views(r.linked_policies@))
        + duplicate_link_issues("requirement"@, id, "linked_features"@, "feature"@, views(r.linked_features@))
        + unlinked_issues(r.linked_policies@, "requirement"@, id, "Requirement does not link to any policies."@,
            "Add at least one policy link to `"@ + id + "`."@)
        + unlinked_issues(r.linked_features@, "requirement"@, id, "Requirement does not link to any features."@,
            "Add at least one feature link to `"@ + id + "`."@)
        + link_issues("requirement"@, id, "policy"@, "Policy"@, "linked_requirements"@, views(r.linked_policies@), policies_for_requirement_spec(pols))
        + link_issues("requirement"@, id, "feature"@, "Feature"@, "linked_requirements"@, views(r.linked_features@), features_for_requirement_spec(feats))
        + agreement_issues("requirement"@, id, status, "features"@, linked_statuses_spec(views(r.linked_features@), features_for_requirement_spec(feats)))
}

/// Every diagnostic for one requirement, given what was found of its traced files.
pub open spec fn requirement_issues(r: Requirement, pols: Seq<Policy>, feats: Seq<Feature>, allow_planned: bool, probes: Seq<Vec<TraceProbe>>) -> Seq<IssueSpec> {
    requirement_graph_issues(r, pols, feats, allow_planned)
        + trace_map_issues(r.id@, TraceRole::RequirementTest, effective_status(r.status@), r.tests@, probes)
}

fn validate_requirement_graph(
    requirement: &Requirement,
    policies: &Vec<Policy>,
    features: &Vec<Feature>,
    config: &ValidateConfig,
    issues: &mut Vec<ValidationIssue>,
) -> (res: Option<DeliveryStatus>)
    ensures
        res == effective_status(requirement.status@),
        issue_views(final(issues)@) == issue_views(old(issues)@) + requirement_graph_issues(*requirement, policies@, features@, config.allow_planned),
{
    let id = requirement.id.as_str();
    let ghost s0 = issue_views(issues@);
    let ghost r = *requirement;
    validate_non_empty_field("requirement", "id", id, issues);
    let ghost acc = blank_issues("requirement"@, "id"@, r.id@);
    validate_non_empty_field("requirement", "title", requirement.title.as_str(), issues);
    proof { lemma_extend(s0, acc, blank_issues("requirement"@, "title"@, r.title@)); acc = acc + blank_issues("requirement"@, "title"@, r.title@); }
    validate_non_empty_field("requirement", "description", requirement.description.as_str(), issues);
    proof { lemma_extend(s0, acc, blank_issues("requirement"@, "description"@, r.description@)); acc = acc + blank_issues("requirement"@, "description"@, r.description@); }
    validate_non_empty_field("requirement", "priority", requirement.priority.as_str(), issues);
    proof { lemma_extend(s0, acc, blank_issues("requirement"@, "priority"@, r.priority@)); acc = acc + blank_issues("requirement"@, "priority"@, r.priority@); }
    validate_non_empty_field("requirement", "status", requirement.status.as_str(), issues);
    proof { lemma_extend(s0, acc, blank_issues("requirement"@, "status"@, r.status@)); acc = acc + blank_issues("requirement"@, "status"@, r.status@); }
    let status = validate_delivery_status("requirement", id, requirement.status.as_str(), config, issues);
    proof { let d = status_issues("requirement"@, r.id@, r.status@, config.allow_planned); lemma_extend(s0, acc, d); acc = acc + d; }
    validate_duplicate_links("requirement", id, "linked_policies", "policy", &requirement.linked_policies, issues);
    proof { let d = duplicate_link_issues("requirement"@, r.id@, "linked_policies"@, "policy"@, views(r.linked_policies@)); lemma_extend(s0, acc, d); acc = acc + d; }
    validate_duplicate_links("requirement", id, "linked_features", "feature", &requirement.linked_features, issues);
    proof { let d = duplicate_link_issues("requirement"@, r.id@, "linked_features"@, "feature"@, views(r.linked_features@)); lemma_extend(s0, acc, d); acc = acc + d; }
    warn_unlinked(&requirement.linked_policies, "requirement", id, "Requirement does not link to any policies.",
        link_suggestion("Add at least one policy link to `", id, "`."), issues);
    proof { let d = unlinked_issues(r.linked_policies@, "requirement"@, r.id@, "Requirement does not link to any policies."@, "Add at least one policy link to `"@ + r.id@ + "`."@); lemma_extend(s0, acc, d); acc = acc + d; }
    warn_unlinked(&requirement.linked_features, "requirement", id, "Requirement does not link to any features.",
        link_suggestion("Add at least one feature link to `", id, "`."), issues);
    proof { let d = unlinked_issues(r.linked_features@, "requirement"@, r.id@, "Requirement does not link to any features."@, "Add at least one feature link to `"@ + r.id@ + "`."@); lemma_extend(s0, acc, d); acc = acc + d; }
    let pol_targets = policies_for_requirement(policies);
    validate_links("requirement", id, "policy", "Policy", "linked_requirements", &requirement.linked_policies, &pol_targets, issues);
    proof { let d = link_issues("requirement"@, r.id@, "policy"@, "Policy"@, "linked_requirements"@, views(r.linked_policies@), policies_for_requirement_spec(policies@)); lemma_extend(s0, acc, d); acc = acc + d; }
    let feat_targets = features_for_requirement(features);
    validate_links("requirement", id, "feature", "Feature", "linked_requirements", &requirement.linked_features, &feat_targets, issues);
    proof { let d = link_issues("requirement"@, r.id@, "feature"@, "Feature"@, "linked_requirements"@, views(r.linked_features@), features_for_requirement_spec(features@)); lemma_extend(s0, acc, d); acc = acc + d; }
    let linked = linked_statuses(&requirement.linked_features, &feat_targets);
    validate_linked_delivery_states("requirement", id, status, "features", &linked, issues);
    proof { let d = agreement_issues("requirement"@, r.id@, status, "features"@, linked_statuses_spec(views(r.linked_features@), features_for_requirement_spec(features@))); lemma_extend(s0, acc, d); acc = acc + d; }
    assert(acc == requirement_graph_issues(*requirement, policies@, features@, config.allow_planned));
    status
}

pub fn validate_requirement(
    requirement: &Requirement,
    policies: &Vec<Policy>,
    features: &Vec<Feature>,
    config: &ValidateConfig,
    probes: &Vec<Vec<TraceProbe>>,
    issues: &mut Vec<ValidationIssue>,
    trace_count: &mut TraceCount,
)
    requires
        probes_fit(requirement.tests@, probes@),
        old(trace_count).declared + reference_count(requirement.tests@) <= usize::MAX,
        old(trace_count).validated + reference_count(requirement.tests@) <= usize::MAX,
    ensures
        issue_views(final(issues)@) == issue_views(old(issues)@) + requirement_issues(*requirement, policies@, features@, config.allow_planned, probes@),
        traces_checked(effective_status(requirement.status@), requirement.tests@) ==>
            final(trace_count).declared == old(trace_count).declared + reference_count(requirement.tests@)
            && final(trace_count).validated == old(trace_count).validated + groups_ok(requirement.id@, TraceRole::RequirementTest, requirement.tests@, probes@),
        !traces_checked(effective_status(requirement.status@), requirement.tests@) ==> *final(trace_count) == *old(trace_count),
        final(trace_count).validated - old(trace_count).validated <= final(trace_count).declared - old(trace_count).declared,
{
    let ghost s0 = issue_views(issues@);
    let status = validate_requirement_graph(requirement, policies, features, config, issues);
    validate_trace_map(requirement.id.as_str(), TraceRole::RequirementTest, status, &requirement.tests, probes, issues, trace_count);
    assert(issue_views(issues@) =~= s0 + requirement_issues(*requirement, policies@, features@, config.allow_planned, probes@));
}

/// Every diagnostic for one feature, given what was found of its traced files.
pub open spec fn feature_issues(f: Feature, reqs: Seq<Requirement>, allow_planned: bool, probes: Seq<Vec<TraceProbe>>) -> Seq<IssueSpec> {
    let id = f.id@;
    let status = effective_status(f.status@);
    blank_issues("feature"@, "id"@, f.id@) + blank_issues("feature"@, "title"@, f.title@)
        + blank_issues("feature"@, "summary"@, f.summary@)
        + blank_issues("feature"@, "status"@, f.status@)
        + status_issues("feature"@, id, f.status@, allow_planned)
        + duplicate_link_issues("feature"@, id, "linked_requirements"@, "requirement"@, views(f.linked_requirements@))
        + unlinked_issues(f.linked_requirements@, "feature"@, id, "Feature does not link to any requirements."@,
            "Add at least one requirement link to `"@ + id + "`."@)
        + link_issues("feature"@, id, "requirement"@, "Requirement"@, "linked_features"@, views(f.linked_requirements@), requirements_for_feature_spec(reqs))
        + agreement_issues("feature"@, id, status, "requirements"@, linked_statuses_spec(views(f.linked_requirements@), requirements_for_feature_spec(reqs)))
        + trace_map_issues(id, TraceRole::FeatureImplementation, status, f.implementations@, probes)
}

pub fn validate_feature(
    feature: &Feature,
    requirements: &Vec<Requirement>,
    config: &ValidateConfig,
    probes: &Vec<Vec<TraceProbe>>,
    issues: &mut Vec<ValidationIssue>,
    trace_count: &mut TraceCount,
)
    requires
        probes_fit(feature.implementations@, probes@),
        old(trace_count).declared + reference_count(feature.implementations@) <= usize::MAX,
        old(trace_count).validated + reference_count(feature.implementations@) <= usize::MAX,
    ensures
        issue_views(final(issues)@) == issue_views(old(issues)@) + feature_issues(*feature, requirements@, config.allow_planned, probes@),
        traces_checked(effective_status(feature.status@), feature.implementations@) ==>
            final(trace_count).declared == old(trace_count).declared + reference_count(feature.implementations@)
            && final(trace_count).validated == old(trace_count).validated + groups_ok(feature.id@, TraceRole::FeatureImplementation, feature.implementations@, probes@),
        !traces_checked(effective_status(feature.status@), feature.implementations@) ==> *final(trace_count) == *old(trace_count),
        final(trace_count).validated - old(trace_count).validated <= final(trace_count).declared - old(trace_count).declared,
{
    let id = feature.id.as_str();
    let ghost s0 = issue_views(issues@);
    let ghost f = *feature;
    validate_non_empty_field("feature", "id", id, issues);
    let ghost acc = blank_issues("feature"@, "id"@, f.id@);
    validate_non_empty_field("feature", "title", feature.title.as_str(), issues);
    proof { let d = blank_issues("feature"@, "title"@, f.title@); lemma_extend(s0, acc, d); acc = acc + d; }
    validate_non_empty_field("feature", "summary", feature.summary.as_str(), issues);
    proof { let d = blank_issues("feature"@, "summary"@, f.summary@); lemma_extend(s0, acc, d); acc = acc + d; }
    validate_non_empty_field("feature", "status", feature.status.as_str(), issues);
    proof { let d = blank_issues("feature"@, "status"@, f.status@); lemma_extend(s0, acc, d); acc = acc + d; }
    let status = validate_delivery_status("feature", id, feature.status.as_str(), config, issues);
    proof { let d = status_issues("feature"@, f.id@, f.status@, config.allow_planned); lemma_extend(s0, acc, d); acc = acc + d; }
    validate_duplicate_links("feature", id, "linked_requirements", "requirement", &feature.linked_requirements, issues);
    proof { let d = duplicate_link_issues("feature"@, f.id@, "linked_requirements"@, "requirement"@, views(f.linked_requirements@)); lemma_extend(s0, acc, d); acc = acc + d; }
    warn_unlinked(&feature.linked_requirements, "feature", id, "Feature does not link to any requirements.",
        link_suggestion("Add at least one requirement link to `", id, "`."), issues);
    proof { let d = unlinked_issues(f.linked_requirements@, "feature"@, f.id@, "Feature does not link to any requirements."@, "Add at least one requirement link to `"@ + f.id@ + "`."@); lemma_extend(s0, acc, d); acc = acc + d; }
    let req_targets = requirements_for_feature(requirements);
    validate_links("feature", id, "requirement", "Requirement", "linked_features", &feature.linked_requirements, &req_targets, issues);
    proof { let d = link_issues("feature"@, f.id@, "requirement"@, "Requirement"@, "linked_features"@, views(f.linked_requirements@), requirements_for_feature_spec(requirements@)); lemma_extend(s0, acc, d); acc = acc + d; }
    let linked = linked_statuses(&feature.linked_requirements, &req_targets);
    validate_linked_delivery_states("feature", id, status, "requirements", &linked, issues);
    proof { let d = agreement_issues("feature"@, f.id@, status, "requirements"@, linked_statuses_spec(views(f.linked_requirements@), requirements_for_feature_spec(requirements@))); lemma_extend(s0, acc, d); acc = acc + d; }
    validate_trace_map(id, TraceRole::FeatureImplementation, status, &feature.implementations, probes, issues, trace_count);
    proof { let d = trace_map_issues(f.id@, TraceRole::FeatureImplementation, status, f.implementations@, probes@); lemma_extend(s0, acc, d); acc = acc + d; }
    assert(acc == feature_issues(*feature, requirements@, config.allow_planned, probes@));
}


// ---------------------------------------------------------------------------
// Orphaned definitions
// ---------------------------------------------------------------------------

pub open spec fn orphan_issue(kind: Seq<char>, id: Seq<char>) -> IssueSpec {
    IssueSpec {
        code: "SYU-graph-orphaned-001"@,
        severity: Severity::Error,
        subject: subject_of(kind, id),
        location: None,
        message: kind + " `"@ + id
            + "` is isolated from the layered graph and does not link to any adjacent definitions."@,
        suggestion: Some("Link `"@ + id
            + "` to at least one adjacent-layer definition so it participates in the specification graph."@),
    }
}

pub open spec fn orphan_issues_for(kind: Seq<char>, id: Seq<char>, adjacent: int) -> Seq<IssueSpec> {
    if adjacent > 0 {
        Seq::empty()
    } else {
        seq![orphan_issue(kind, id)]
    }
}

/// Reports a definition that links to no adjacent layer.
pub fn report_orphaned_definition(kind: &str, id: &str, adjacent_link_count: usize, issues: &mut Vec<ValidationIssue>)
    ensures
        issue_views(final(issues)@) == issue_views(old(issues)@) + orphan_issues_for(kind@, id@, adjacent_link_count as int),
{
    if adjacent_link_count > 0 {
        assert(issue_views(issues@) =~= issue_views(old(issues)@) + Seq::<IssueSpec>::empty());
        return;
    }
    let mut message = String::from_str(kind);
    message.append(" `");
    message.append(id);
    message.append("` is isolated from the layered graph and does not link to any adjacent definitions.");
    let suggestion = cat3("Link `", id, "` to at least one adjacent-layer definition so it participates in the specification graph.");
    append_issue(issues, ValidationIssue::error("SYU-graph-orphaned-001", subject(kind, id), None, message, Some(suggestion)));
}

pub open spec fn philosophy_orphans(phils: Seq<Philosophy>) -> Seq<IssueSpec>
    decreases phils.len(),
{
    if phils.len() == 0 { Seq::empty() } else {
        philosophy_orphans(phils.drop_last())
            + orphan_issues_for("philosophy"@, phils.last().id@, phils.last().linked_policies@.len() as int)
    }
}

pub open spec fn policy_orphans(pols: Seq<Policy>) -> Seq<IssueSpec>
    decreases pols.len(),
{
    if pols.len() == 0 { Seq::empty() } else {
        policy_orphans(pols.drop_last())
            + orphan_issues_for("policy"@, pols.last().id@, (pols.last().linked_philosophies@.len() + pols.last().linked_requirements@.len()) as int)
    }
}

pub open spec fn requirement_orphans(reqs: Seq<Requirement>) -> Seq<IssueSpec>
    decreases reqs.len(),
{
    if reqs.len() == 0 { Seq::empty() } else {
        requirement_orphans(reqs.drop_last())
            + orphan_issues_for("requirement"@, reqs.last().id@, (reqs.last().linked_policies@.len() + reqs.last().linked_features@.len()) as int)
    }
}

pub open spec fn feature_orphans(feats: Seq<Feature>) -> Seq<IssueSpec>
    decreases feats.len(),
{
    if feats.len() == 0 { Seq::empty() } else {
        feature_orphans(feats.drop_last())
            + orphan_issues_for("feature"@, feats.last().id@, feats.last().linked_requirements@.len() as int)
    }
}

/// A loaded specification workspace.
#[derive(Debug)]
pub struct Workspace {
    pub root: String,
    pub spec_root: String,
    pub config: ValidateConfig,
    pub philosophies: Vec<Philosophy>,
    pub policies: Vec<Policy>,
    pub requirements: Vec<Requirement>,
    pub features: Vec<Feature>,
}

/// Every orphaned definition, layer by layer, when the configuration asks for it.
pub open spec fn orphan_issues(ws: Workspace) -> Seq<IssueSpec> {
    if !ws.config.require_non_orphaned_items {
        Seq::empty()
    } else {
        philosophy_orphans(ws.philosophies@) + policy_orphans(ws.policies@)
            + requirement_orphans(ws.requirements@) + feature_orphans(ws.features@)
    }
}

pub fn validate_orphaned_definitions(workspace: &Workspace, issues: &mut Vec<ValidationIssue>)
    ensures
        issue_views(final(issues)@) == issue_views(old(issues)@) + orphan_issues(*workspace),
{
    let ghost s0 = issue_views(issues@);
    if !workspace.config.require_non_orphaned_items {
        assert(issue_views(issues@) =~= s0 + Seq::<IssueSpec>::empty());
        return;
    }
    let mut i: usize = 0;
    assert(workspace.philosophies@.take(0) =~= Seq::<Philosophy>::empty());
    assert(issue_views(issues@) =~= s0 + Seq::<IssueSpec>::empty());
    while i < workspace.philosophies.len()
        invariant
            i <= workspace.philosophies.len(),
            issue_views(issues@) == s0 + philosophy_orphans(workspace.philosophies@.take(i as int)),
        decreases workspace.philosophies.len() - i,
    {
        assert(workspace.philosophies@.take(i + 1).drop_last() =~= workspace.philosophies@.take(i as int));
        let p = &workspace.philosophies[i];
        report_orphaned_definition("philosophy", p.id.as_str(), p.linked_policies.len(), issues);
        assert(issue_views(issues@) =~= s0 + philosophy_orphans(workspace.philosophies@.take(i + 1)));
        i = i + 1;
    }
    assert(workspace.philosophies@.take(i as int) =~= workspace.philosophies@);
    let ghost s1 = issue_views(issues@);
    let mut i: usize = 0;
    assert(workspace.policies@.take(0) =~= Seq::<Policy>::empty());
    assert(issue_views(issues@) =~= s1 + Seq::<IssueSpec>::empty());
    while i < workspace.policies.len()
        invariant
            i <= workspace.policies.len(),
            issue_views(issues@) == s1 + policy_orphans(workspace.policies@.take(i as int)),
        decreases workspace.policies.len() - i,
    {
        assert(workspace.policies@.take(i + 1).drop_last() =~= workspace.policies@.take(i as int));
        let p = &workspace.policies[i];
        let n = p.linked_philosophies.len().saturating_add(p.linked_requirements.len());
        report_orphaned_definition("policy", p.id.as_str(), n, issues);
        assert(issue_views(issues@) =~= s1 + policy_orphans(workspace.policies@.take(i + 1)));
        i = i + 1;
    }
    assert(workspace.policies@.take(i as int) =~= workspace.policies@);
    let ghost s2 = issue_views(issues@);
    let mut i: usize = 0;
    assert(workspace.requirements@.take(0) =~= Seq::<Requirement>::empty());
    assert(issue_views(issues@) =~= s2 + Seq::<IssueSpec>::empty());
    while i < workspace.requirements.len()
        invariant
            i <= workspace.requirements.len(),
            issue_views(issues@) == s2 + requirement_orphans(workspace.requirements@.take(i as int)),
        decreases workspace.requirements.len() - i,
    {
        assert(workspace.requirements@.take(i + 1).drop_last() =~= workspace.requirements@.take(i as int));
        let r = &workspace.requirements[i];
        let n = r.linked_policies.len().saturating_add(r.linked_features.len());
        report_orphaned_definition("requirement", r.id.as_str(), n, issues);
        assert(issue_views(issues@) =~= s2 + requirement_orphans(workspace.requirements@.take(i + 1)));
        i = i + 1;
    }
    assert(workspace.requirements@.take(i as int) =~= workspace.requirements@);
    let ghost s3 = issue_views(issues@);
    let mut i: usize = 0;
    assert(workspace.features@.take(0) =~= Seq::<Feature>::empty());
    assert(issue_views(issues@) =~= s3 + Seq::<IssueSpec>::empty());
    while i < workspace.features.len()
        invariant
            i <= workspace.features.len(),
            issue_views(issues@) == s3 + feature_orphans(workspace.features@.take(i as int)),
        decreases workspace.features.len() - i,
    {
        assert(workspace.features@.take(i + 1).drop_last() =~= workspace.features@.take(i as int));
        let f = &workspace.features[i];
        report_orphaned_definition("feature", f.id.as_str(), f.linked_requirements.len(), issues);
        assert(issue_views(issues@) =~= s3 + feature_orphans(workspace.features@.take(i + 1)));
        i = i + 1;
    }
    assert(workspace.features@.take(i as int) =~= workspace.features@);
    assert(issue_views(issues@) =~= s0 + orphan_issues(*workspace));
}

// ---------------------------------------------------------------------------
// Ordering diagnostics
// ---------------------------------------------------------------------------

pub open spec fn severity_rank(s: Severity) -> int {
    match s {
        Severity::Error => 0,
        Severity::Warning => 1,
    }
}

pub open spec fn location_key(l: Option<Seq<char>>) -> Seq<char> {
    match l {
        Some(x) => x,
        None => Seq::empty(),
    }
}

/// The report order of diagnostics: errors before warnings, then by code,
/// subject, location (none counting as empty) and message.
pub open spec fn issue_order(a: IssueSpec, b: IssueSpec) -> int {
    if severity_rank(a.severity) != severity_rank(b.severity) {
        if severity_rank(a.severity) < severity_rank(b.severity) { -1 } else { 1 }
    } else if seq_order(a.code, b.code) != 0 {
        seq_order(a.code, b.code)
    } else if seq_order(a.subject, b.subject) != 0 {
        seq_order(a.subject, b.subject)
    } else if seq_order(location_key(a.location), location_key(b.location)) != 0 {
        seq_order(location_key(a.location), location_key(b.location))
    } else {
        seq_order(a.message, b.message)
    }
}

pub open spec fn issues_sorted(s: Seq<IssueSpec>) -> bool {
    forall|i: int, j: int| 0 <= i < j < s.len() ==> issue_order(#[trigger] s[i], #[trigger] s[j]) <= 0
}

proof fn lemma_issue_order_facts(a: IssueSpec, b: IssueSpec)
    ensures
        issue_order(a, b) == -issue_order(b, a),
        -1 <= issue_order(a, b) <= 1,
{
    lemma_order_antisym(a.code, b.code);
    lemma_order_antisym(a.subject, b.subject);
    lemma_order_antisym(location_key(a.location), location_key(b.location));
    lemma_order_antisym(a.message, b.message);
    lemma_order_range(a.code, b.code);
    lemma_order_range(a.subject, b.subject);
    lemma_order_range(location_key(a.location), location_key(b.location));
    lemma_order_range(a.message, b.message);
}

proof fn lemma_issue_order_trans(a: IssueSpec, b: IssueSpec, c: IssueSpec)
    requires
        issue_order(a, b) <= 0,
        issue_order(b, c) <= 0,
    ensures
        issue_order(a, c) <= 0,
{
    lemma_issue_order_facts(a, b);
    lemma_issue_order_facts(b, c);
    lemma_issue_order_facts(a, c);
    lemma_order_eq(a.code, b.code);
    lemma_order_eq(b.code, c.code);
    lemma_order_eq(a.subject, b.subject);
    lemma_order_eq(b.subject, c.subject);
    lemma_order_eq(location_key(a.location), location_key(b.location));
    lemma_order_eq(location_key(b.location), location_key(c.location));
    if severity_rank(a.severity) == severity_rank(b.severity) && severity_rank(b.severity) == severity_rank(c.severity) {
        if seq_order(a.code, b.code) != 0 || seq_order(b.code, c.code) != 0 {
            if seq_order(a.code, b.code) <= 0 && seq_order(b.code, c.code) <= 0 {
                lemma_order_trans(a.code, b.code, c.code);
            }
        } else if seq_order(a.subject, b.subject) != 0 || seq_order(b.subject, c.subject) != 0 {
            lemma_order_trans(a.subject, b.subject, c.subject);
        } else if seq_order(location_key(a.location), location_key(b.location)) != 0
            || seq_order(location_key(b.location), location_key(c.location)) != 0 {
            lemma_order_trans(location_key(a.location), location_key(b.location), location_key(c.location));
        } else {
            lemma_order_trans(a.message, b.message, c.message);
        }
    }
}

fn opt_str(o: &Option<String>) -> (res: &str)
    ensures
        res@ == location_key(opt_view(*o)),
{
    match o {
        Some(s) => s.as_str(),
        None => {
            proof {
                reveal_strlit("");
            }
            ""
        },
    }
}

/// Compares two diagnostics in report order.
pub fn compare_issues(a: &ValidationIssue, b: &ValidationIssue) -> (res: i8)
    ensures
        res as int == issue_order(a@, b@),
{
    let ra: i8 = match a.severity { Severity::Error => 0, Severity::Warning => 1 };
    let rb: i8 = match b.severity { Severity::Error => 0, Severity::Warning => 1 };
    if ra != rb {
        return if ra < rb { -1 } else { 1 };
    }
    let c = str_order(a.code.as_str(), b.code.as_str());
    if c != 0 {
        return c;
    }
    let c = str_order(a.subject.as_str(), b.subject.as_str());
    if c != 0 {
        return c;
    }
    let c = str_order(opt_str(&a.location), opt_str(&b.location));
    if c != 0 {
        return c;
    }
    str_order(a.message.as_str(), b.message.as_str())
}

/// Where a diagnostic goes in a sorted list: after every one that does not
/// sort after it, searching from the end.
pub open spec fn issue_slot(s: Seq<IssueSpec>, x: IssueSpec, p: int) -> int
    decreases p,
{
    if p <= 0 {
        0
    } else if issue_order(s[p - 1], x) > 0 {
        issue_slot(s, x, p - 1)
    } else {
        p
    }
}

/// Insertion sort in report order: each diagnostic goes after every earlier
/// one that does not sort after it, so equal diagnostics keep their order.
pub open spec fn sort_issues_spec(v: Seq<IssueSpec>) -> Seq<IssueSpec>
    decreases v.len(),
{
    if v.len() == 0 {
        Seq::empty()
    } else {
        let s = sort_issues_spec(v.drop_last());
        s.insert(issue_slot(s, v.last(), s.len() as int), v.last())
    }
}

/// Puts diagnostics in report order, keeping the order of equal ones.
pub fn sort_issues(issues: &Vec<ValidationIssue>) -> (res: Vec<ValidationIssue>)
    ensures
        issue_views(res@) == sort_issues_spec(issue_views(issues@)),
        issues_sorted(issue_views(res@)),
        issue_views(res@).to_multiset() == issue_views(issues@).to_multiset(),
{
    broadcast use vstd::seq_lib::group_to_multiset_ensures;
    let mut sorted: Vec<ValidationIssue> = Vec::new();
    let mut i: usize = 0;
    assert(issue_views(issues@).take(0) =~= Seq::<IssueSpec>::empty());
    assert(issue_views(sorted@) =~= Seq::<IssueSpec>::empty());
    while i < issues.len()
        invariant
            i <= issues.len(),
            issues_sorted(issue_views(sorted@)),
            issue_views(sorted@).to_multiset() == issue_views(issues@).take(i as int).to_multiset(),
            issue_views(sorted@) == sort_issues_spec(issue_views(issues@).take(i as int)),
        decreases issues.len() - i,
    {
        let x = issues[i].duplicate();
        let mut p: usize = sorted.len();
        while p > 0 && compare_issues(&sorted[p - 1], &x) > 0
            invariant
                p <= sorted.len(),
                forall|k: int| p <= k < sorted.len() ==> issue_order(#[trigger] issue_views(sorted@)[k], x@) > 0,
                issue_slot(issue_views(sorted@), x@, sorted@.len() as int) == issue_slot(issue_views(sorted@), x@, p as int),
            decreases p,
        {
            p = p - 1;
        }
        let ghost old_sorted = issue_views(sorted@);
        assert(issue_slot(old_sorted, x@, old_sorted.len() as int) == p as int);
        assert(issue_views(issues@).take(i + 1).drop_last() =~= issue_views(issues@).take(i as int));
        assert(issue_views(issues@).take(i + 1).last() == x@);
        proof {
            if p > 0 {
                assert(issue_order(old_sorted[p - 1], x@) <= 0);
            }
        }
        sorted.insert(p, x);
        assert(issue_views(sorted@) =~= old_sorted.insert(p as int, x@));
        proof {
            let ns = issue_views(sorted@);
            assert forall|a: int, b: int| 0 <= a < b < ns.len() implies issue_order(#[trigger] ns[a], #[trigger] ns[b]) <= 0 by {
                if a < p && b == p {
                    if a < p - 1 {
                        lemma_issue_order_trans(old_sorted[a], old_sorted[p - 1], x@);
                    }
                } else if a == p && b > p {
                    lemma_issue_order_facts(old_sorted[b - 1], x@);
                } else if a < p && b > p {
                    assert(ns[a] == old_sorted[a]);
                    assert(ns[b] == old_sorted[b - 1]);
                } else if a > p {
                    assert(ns[a] == old_sorted[a - 1]);
                    assert(ns[b] == old_sorted[b - 1]);
                }
            }
            vstd::seq_lib::to_multiset_insert(old_sorted, p as int, x@);
            assert(issue_views(issues@).take(i + 1) =~= issue_views(issues@).take(i as int).push(issues@[i as int]@));
            vstd::seq_lib::to_multiset_build(issue_views(issues@).take(i as int), issues@[i as int]@);
        }
        i = i + 1;
    }
    assert(issue_views(issues@).take(issues.len() as int) =~= issue_views(issues@));
    sorted
}


// ---------------------------------------------------------------------------
// Whole workspaces
// ---------------------------------------------------------------------------

pub open spec fn philosophy_ids(v: Seq<Philosophy>) -> Seq<Seq<char>> {
    Seq::new(v.len(), |i: int| v[i].id@)
}

pub open spec fn policy_ids(v: Seq<Policy>) -> Seq<Seq<char>> {
    Seq::new(v.len(), |i: int| v[i].id@)
}

pub open spec fn requirement_ids(v: Seq<Requirement>) -> Seq<Seq<char>> {
    Seq::new(v.len(), |i: int| v[i].id@)
}

pub open spec fn feature_ids(v: Seq<Feature>) -> Seq<Seq<char>> {
    Seq::new(v.len(), |i: int| v[i].id@)
}

fn collect_ids_philosophy(v: &Vec<Philosophy>) -> (res: Vec<String>)
    ensures views(res@) == philosophy_ids(v@),
{
    let mut out: Vec<String> = Vec::new();
    let mut i: usize = 0;
    while i < v.len()
        invariant i <= v.len(), out@.len() == i, forall|k: int| 0 <= k < i ==> #[trigger] out@[k]@ == v@[k].id@,
        decreases v.len() - i,
    {
        out.push(v[i].id.clone());
        i = i + 1;
    }
    assert(views(out@) =~= philosophy_ids(v@));
    out
}

fn collect_ids_policy(v: &Vec<Policy>) -> (res: Vec<String>)
    ensures views(res@) == policy_ids(v@),
{
    let mut out: Vec<String> = Vec::new();
    let mut i: usize = 0;
    while i < v.len()
        invariant i <= v.len(), out@.len() == i, forall|k: int| 0 <= k < i ==> #[trigger] out@[k]@ == v@[k].id@,
        decreases v.len() - i,
    {
        out.push(v[i].id.clone());
        i = i + 1;
    }
    assert(views(out@) =~= policy_ids(v@));
    out
}

fn collect_ids_requirement(v: &Vec<Requirement>) -> (res: Vec<String>)
    ensures views(res@) == requirement_ids(v@),
{
    let mut out: Vec<String> = Vec::new();
    let mut i: usize = 0;
    while i < v.len()
        invariant i <= v.len(), out@.len() == i, forall|k: int| 0 <= k < i ==> #[trigger] out@[k]@ == v@[k].id@,
        decreases v.len() - i,
    {
        out.push(v[i].id.clone());
        i = i + 1;
    }
    assert(views(out@) =~= requirement_ids(v@));
    out
}

fn collect_ids_feature(v: &Vec<Feature>) -> (res: Vec<String>)
    ensures views(res@) == feature_ids(v@),
{
    let mut out: Vec<String> = Vec::new();
    let mut i: usize = 0;
    while i < v.len()
        invariant i <= v.len(), out@.len() == i, forall|k: int| 0 <= k < i ==> #[trigger] out@[k]@ == v@[k].id@,
        decreases v.len() - i,
    {
        out.push(v[i].id.clone());
        i = i + 1;
    }
    assert(views(out@) =~= feature_ids(v@));
    out
}

pub open spec fn all_philosophy_issues(phils: Seq<Philosophy>, pols: Seq<Policy>) -> Seq<IssueSpec>
    decreases phils.len(),
{
    if phils.len() == 0 { Seq::empty() } else {
        all_philosophy_issues(phils.drop_last(), pols) + philosophy_issues(phils.last(), pols)
    }
}

pub open spec fn all_policy_issues(pols: Seq<Policy>, phils: Seq<Philosophy>, reqs: Seq<Requirement>) -> Seq<IssueSpec>
    decreases pols.len(),
{
    if pols.len() == 0 { Seq::empty() } else {
        all_policy_issues(pols.drop_last(), phils, reqs) + policy_issues(pols.last(), phils, reqs)
    }
}

pub open spec fn all_requirement_issues(reqs: Seq<Requirement>, all_reqs: Seq<Requirement>, pols: Seq<Policy>, feats: Seq<Feature>, allow: bool, probes: Seq<Vec<Vec<TraceProbe>>>) -> Seq<IssueSpec>
    decreases reqs.len(),
{
    if reqs.len() == 0 { Seq::empty() } else {
        all_requirement_issues(reqs.drop_last(), all_reqs, pols, feats, allow, probes)
            + requirement_issues(reqs.last(), pols, feats, allow, probes[reqs.len() - 1]@)
    }
}

pub open spec fn all_feature_issues(feats: Seq<Feature>, reqs: Seq<Requirement>, allow: bool, probes: Seq<Vec<Vec<TraceProbe>>>) -> Seq<IssueSpec>
    decreases feats.len(),
{
    if feats.len() == 0 { Seq::empty() } else {
        all_feature_issues(feats.drop_last(), reqs, allow, probes)
            + feature_issues(feats.last(), reqs, allow, probes[feats.len() - 1]@)
    }
}

/// The references counted for one owner: all of them when they are checked.
pub open spec fn counted_references(status: Seq<char>, groups: Seq<TraceGroup>) -> nat {
    if traces_checked(effective_status(status), groups) { reference_count(groups) } else { 0 }
}

pub open spec fn counted_ok(owner: Seq<char>, role: TraceRole, status: Seq<char>, groups: Seq<TraceGroup>, probes: Seq<Vec<TraceProbe>>) -> nat {
    if traces_checked(effective_status(status), groups) { groups_ok(owner, role, groups, probes) } else { 0 }
}

pub open spec fn requirement_declared(reqs: Seq<Requirement>) -> nat
    decreases reqs.len(),
{
    if reqs.len() == 0 { 0 } else {
        requirement_declared(reqs.drop_last()) + counted_references(reqs.last().status@, reqs.last().tests@)
    }
}

pub open spec fn requirement_validated(reqs: Seq<Requirement>, probes: Seq<Vec<Vec<TraceProbe>>>) -> nat
    decreases reqs.len(),
{
    if reqs.len() == 0 { 0 } else {
        requirement_validated(reqs.drop_last(), probes)
            + counted_ok(reqs.last().id@, TraceRole::RequirementTest, reqs.last().status@, reqs.last().tests@, probes[reqs.len() - 1]@)
    }
}

pub open spec fn feature_declared(feats: Seq<Feature>) -> nat
    decreases feats.len(),
{
    if feats.len() == 0 { 0 } else {
        feature_declared(feats.drop_last()) + counted_references(feats.last().status@, feats.last().implementations@)
    }
}

pub open spec fn feature_validated(feats: Seq<Feature>, probes: Seq<Vec<Vec<TraceProbe>>>) -> nat
    decreases feats.len(),
{
    if feats.len() == 0 { 0 } else {
        feature_validated(feats.drop_last(), probes)
            + counted_ok(feats.last().id@, TraceRole::FeatureImplementation, feats.last().status@, feats.last().implementations@, probes[feats.len() - 1]@)
    }
}

/// All reference counts of the requirements, checked or not.
pub open spec fn requirement_reference_total(reqs: Seq<Requirement>) -> nat
    decreases reqs.len(),
{
    if reqs.len() == 0 { 0 } else { requirement_reference_total(reqs.drop_last()) + reference_count(reqs.last().tests@) }
}

pub open spec fn feature_reference_total(feats: Seq<Feature>) -> nat
    decreases feats.len(),
{
    if feats.len() == 0 { 0 } else { feature_reference_total(feats.drop_last()) + reference_count(feats.last().implementations@) }
}

/// The probes of a workspace line up with its trace maps.
pub open spec fn workspace_probes_fit(ws: Workspace, rp: Seq<Vec<Vec<TraceProbe>>>, fp: Seq<Vec<Vec<TraceProbe>>>) -> bool {
    &&& rp.len() == ws.requirements@.len()
    &&& fp.len() == ws.features@.len()
    &&& forall|i: int| 0 <= i < rp.len() ==> probes_fit(ws.requirements@[i].tests@, #[trigger] rp[i]@)
    &&& forall|i: int| 0 <= i < fp.len() ==> probes_fit(ws.features@[i].implementations@, #[trigger] fp[i]@)
}

/// Every diagnostic of a workspace, in the order the checks produce them.
pub open spec fn workspace_issues(ws: Workspace, rp: Seq<Vec<Vec<TraceProbe>>>, fp: Seq<Vec<Vec<TraceProbe>>>) -> Seq<IssueSpec> {
    duplicate_id_issues("philosophy"@, philosophy_ids(ws.philosophies@))
        + duplicate_id_issues("policy"@, policy_ids(ws.policies@))
        + duplicate_id_issues("requirement"@, requirement_ids(ws.requirements@))
        + duplicate_id_issues("feature"@, feature_ids(ws.features@))
        + all_philosophy_issues(ws.philosophies@, ws.policies@)
        + all_policy_issues(ws.policies@, ws.philosophies@, ws.requirements@)
        + all_requirement_issues(ws.requirements@, ws.requirements@, ws.policies@, ws.features@, ws.config.allow_planned, rp)
        + all_feature_issues(ws.features@, ws.requirements@, ws.config.allow_planned, fp)
        + orphan_issues(ws)
}

proof fn lemma_declared_bound(reqs: Seq<Requirement>)
    ensures requirement_declared(reqs) <= requirement_reference_total(reqs),
    decreases reqs.len(),
{
    if reqs.len() > 0 { lemma_declared_bound(reqs.drop_last()); }
}

proof fn lemma_feature_declared_bound(feats: Seq<Feature>)
    ensures feature_declared(feats) <= feature_reference_total(feats),
    decreases feats.len(),
{
    if feats.len() > 0 { lemma_feature_declared_bound(feats.drop_last()); }
}

fn validate_all_requirements(
    workspace: &Workspace,
    probes: &Vec<Vec<Vec<TraceProbe>>>,
    issues: &mut Vec<ValidationIssue>,
) -> (res: TraceCount)
    requires
        probes@.len() == workspace.requirements@.len(),
        forall|i: int| 0 <= i < probes@.len() ==> probes_fit(workspace.requirements@[i].tests@, #[trigger] probes@[i]@),
        requirement_reference_total(workspace.requirements@) <= usize::MAX,
    ensures
        issue_views(final(issues)@) == issue_views(old(issues)@) + all_requirement_issues(workspace.requirements@, workspace.requirements@, workspace.policies@, workspace.features@, workspace.config.allow_planned, probes@),
        res.declared == requirement_declared(workspace.requirements@),
        res.validated == requirement_validated(workspace.requirements@, probes@),
{
    let reqs = &workspace.requirements;
    let mut count = TraceCount { declared: 0, validated: 0 };
    let ghost s0 = issue_views(issues@);
    let mut i: usize = 0;
    assert(reqs@.take(0) =~= Seq::<Requirement>::empty());
    assert(issue_views(issues@) =~= s0 + Seq::<IssueSpec>::empty());
    while i < reqs.len()
        invariant
            i <= reqs.len(),
            reqs == &workspace.requirements,
            probes@.len() == reqs@.len(),
            forall|k: int| 0 <= k < probes@.len() ==> probes_fit(reqs@[k].tests@, #[trigger] probes@[k]@),
            requirement_reference_total(reqs@) <= usize::MAX,
            issue_views(issues@) == s0 + all_requirement_issues(reqs@.take(i as int), reqs@, workspace.policies@, workspace.features@, workspace.config.allow_planned, probes@),
            count.declared == requirement_declared(reqs@.take(i as int)),
            count.validated == requirement_validated(reqs@.take(i as int), probes@),
            count.validated <= count.declared,
            requirement_reference_total(reqs@.take(i as int)) <= requirement_reference_total(reqs@),
        decreases reqs.len() - i,
    {
        proof {
            assert(reqs@.take(i + 1).drop_last() =~= reqs@.take(i as int));
            assert(reqs@.take(i + 1).last() == reqs@[i as int]);
            lemma_declared_bound(reqs@.take(i as int));
            lemma_total_prefix(reqs@, i + 1);
            assert(probes_fit(reqs@[i as int].tests@, probes@[i as int]@));
        }
        let ghost before = count;
        validate_requirement(&reqs[i], &workspace.policies, &workspace.features, &workspace.config, &probes[i], issues, &mut count);
        assert(issue_views(issues@) =~= s0 + all_requirement_issues(reqs@.take(i + 1), reqs@, workspace.policies@, workspace.features@, workspace.config.allow_planned, probes@));
        i = i + 1;
    }
    assert(reqs@.take(reqs.len() as int) =~= reqs@);
    count
}

proof fn lemma_total_prefix(reqs: Seq<Requirement>, k: int)
    requires 0 <= k <= reqs.len(),
    ensures requirement_reference_total(reqs.take(k)) <= requirement_reference_total(reqs),
    decreases reqs.len() - k,
{
    if k < reqs.len() {
        lemma_total_prefix(reqs, k + 1);
        assert(reqs.take(k + 1).drop_last() =~= reqs.take(k));
    } else {
        assert(reqs.take(k) =~= reqs);
    }
}

proof fn lemma_feature_total_prefix(feats: Seq<Feature>, k: int)
    requires 0 <= k <= feats.len(),
    ensures feature_reference_total(feats.take(k)) <= feature_reference_total(feats),
    decreases feats.len() - k,
{
    if k < feats.len() {
        lemma_feature_total_prefix(feats, k + 1);
        assert(feats.take(k + 1).drop_last() =~= feats.take(k));
    } else {
        assert(feats.take(k) =~= feats);
    }
}

fn validate_all_features(
    workspace: &Workspace,
    probes: &Vec<Vec<Vec<TraceProbe>>>,
    issues: &mut Vec<ValidationIssue>,
) -> (res: TraceCount)
    requires
        probes@.len() == workspace.features@.len(),
        forall|i: int| 0 <= i < probes@.len() ==> probes_fit(workspace.features@[i].implementations@, #[trigger] probes@[i]@),
        feature_reference_total(workspace.features@) <= usize::MAX,
    ensures
        issue_views(final(issues)@) == issue_views(old(issues)@) + all_feature_issues(workspace.features@, workspace.requirements@, workspace.config.allow_planned, probes@),
        res.declared == feature_declared(workspace.features@),
        res.validated == feature_validated(workspace.features@, probes@),
{
    let feats = &workspace.features;
    let mut count = TraceCount { declared: 0, validated: 0 };
    let ghost s0 = issue_views(issues@);
    let mut i: usize = 0;
    assert(feats@.take(0) =~= Seq::<Feature>::empty());
    assert(issue_views(issues@) =~= s0 + Seq::<IssueSpec>::empty());
    while i < feats.len()
        invariant
            i <= feats.len(),
            feats == &workspace.features,
            probes@.len() == feats@.len(),
            forall|k: int| 0 <= k < probes@.len() ==> probes_fit(feats@[k].implementations@, #[trigger] probes@[k]@),
            feature_reference_total(feats@) <= usize::MAX,
            issue_views(issues@) == s0 + all_feature_issues(feats@.take(i as int), workspace.requirements@, workspace.config.allow_planned, probes@),
            count.declared == feature_declared(feats@.take(i as int)),
            count.validated == feature_validated(feats@.take(i as int), probes@),
            count.validated <= count.declared,
        decreases feats.len() - i,
    {
        proof {
            assert(feats@.take(i + 1).drop_last() =~= feats@.take(i as int));
            assert(feats@.take(i + 1).last() == feats@[i as int]);
            lemma_feature_declared_bound(feats@.take(i as int));
            lemma_feature_total_prefix(feats@, i + 1);
            assert(probes_fit(feats@[i as int].implementations@, probes@[i as int]@));
        }
        validate_feature(&feats[i], &workspace.requirements, &workspace.config, &probes[i], issues, &mut count);
        assert(issue_views(issues@) =~= s0 + all_feature_issues(feats@.take(i + 1), workspace.requirements@, workspace.config.allow_planned, probes@));
        i = i + 1;
    }
    assert(feats@.take(feats.len() as int) =~= feats@);
    count
}

fn validate_all_philosophies(workspace: &Workspace, issues: &mut Vec<ValidationIssue>)
    ensures
        issue_views(final(issues)@) == issue_views(old(issues)@) + all_philosophy_issues(workspace.philosophies@, workspace.policies@),
{
    let v = &workspace.philosophies;
    let ghost s0 = issue_views(issues@);
    let mut i: usize = 0;
    assert(v@.take(0) =~= Seq::<Philosophy>::empty());
    assert(issue_views(issues@) =~= s0 + Seq::<IssueSpec>::empty());
    while i < v.len()
        invariant
            i <= v.len(),
            v == &workspace.philosophies,
            issue_views(issues@) == s0 + all_philosophy_issues(v@.take(i as int), workspace.policies@),
        decreases v.len() - i,
    {
        assert(v@.take(i + 1).drop_last() =~= v@.take(i as int));
        validate_philosophy(&v[i], &workspace.policies, issues);
        assert(issue_views(issues@) =~= s0 + all_philosophy_issues(v@.take(i + 1), workspace.policies@));
        i = i + 1;
    }
    assert(v@.take(v.len() as int) =~= v@);
}

fn validate_all_policies(workspace: &Workspace, issues: &mut Vec<ValidationIssue>)
    ensures
        issue_views(final(issues)@) == issue_views(old(issues)@) + all_policy_issues(workspace.policies@, workspace.philosophies@, workspace.requirements@),
{
    let v = &workspace.policies;
    let ghost s0 = issue_views(issues@);
    let mut i: usize = 0;
    assert(v@.take(0) =~= Seq::<Policy>::empty());
    assert(issue_views(issues@) =~= s0 + Seq::<IssueSpec>::empty());
    while i < v.len()
        invariant
            i <= v.len(),
            v == &workspace.policies,
            issue_views(issues@) == s0 + all_policy_issues(v@.take(i as int), workspace.philosophies@, workspace.requirements@),
        decreases v.len() - i,
    {
        assert(v@.take(i + 1).drop_last() =~= v@.take(i as int));
        validate_policy(&v[i], &workspace.philosophies, &workspace.requirements, issues);
        assert(issue_views(issues@) =~= s0 + all_policy_issues(v@.take(i + 1), workspace.philosophies@, workspace.requirements@));
        i = i + 1;
    }
    assert(v@.take(v.len() as int) =~= v@);
}


// ---------------------------------------------------------------------------
// Results
// ---------------------------------------------------------------------------

pub open spec fn has_error(issues: Seq<ValidationIssue>) -> bool {
    exists|i: int| 0 <= i < issues.len() && #[trigger] issues[i].severity == Severity::Error
}

pub open spec fn has_warning(issues: Seq<ValidationIssue>) -> bool {
    exists|i: int| 0 <= i < issues.len() && #[trigger] issues[i].severity == Severity::Warning
}

/// The exit code of `syu validate`: 1 when the run found an error; the
/// `--warning-exit-code` when it found warnings but no error and that option
/// is given; 0 otherwise.
pub open spec fn validate_exit_spec(issues: Seq<ValidationIssue>, warning_exit_code: Option<u8>) -> int {
    if has_error(issues) {
        1
    } else if has_warning(issues) && warning_exit_code is Some {
        warning_exit_code->Some_0 as int
    } else {
        0
    }
}

impl CheckResult {
    /// A run succeeds when it found no error; warnings do not fail it.
    pub fn is_success(&self) -> (res: bool)
        ensures
            res == !has_error(self.issues@),
    {
        let mut i: usize = 0;
        while i < self.issues.len()
            invariant
                i <= self.issues.len(),
                forall|k: int| 0 <= k < i ==> self.issues@[k].severity != Severity::Error,
            decreases self.issues.len() - i,
        {
            if self.issues[i].severity == Severity::Error {
                return false;
            }
            i = i + 1;
        }
        true
    }

    /// Whether the run found a warning.
    pub fn has_warnings(&self) -> (res: bool)
        ensures
            res == has_warning(self.issues@),
    {
        let mut i: usize = 0;
        while i < self.issues.len()
            invariant
                i <= self.issues.len(),
                forall|k: int| 0 <= k < i ==> self.issues@[k].severity != Severity::Warning,
            decreases self.issues.len() - i,
        {
            if self.issues[i].severity == Severity::Warning {
                return true;
            }
            i = i + 1;
        }
        false
    }

    /// The exit code of `syu validate` for this run.
    pub fn exit_code(&self, warning_exit_code: Option<u8>) -> (res: i32)
        ensures
            res as int == validate_exit_spec(self.issues@, warning_exit_code),
    {
        if !self.is_success() {
            1
        } else if self.has_warnings() {
            match warning_exit_code {
                Some(c) => c as i32,
                None => 0,
            }
        } else {
            0
        }
    }

    /// The result of a workspace that could not be loaded: one load error.
    pub fn from_load_error(workspace_root: String, error: String) -> (res: CheckResult)
        ensures
            res.workspace_root@ == workspace_root@,
            res.definition_counts == (DefinitionCounts { philosophies: 0, policies: 0, requirements: 0, features: 0 }),
            res.trace_summary == (TraceSummary { requirement_traces: TraceCount { declared: 0, validated: 0 }, feature_traces: TraceCount { declared: 0, validated: 0 } }),
            issue_views(res.issues@) == seq![IssueSpec {
                code: "SYU-workspace-load-001"@,
                severity: Severity::Error,
                subject: "workspace"@,
                location: Some(workspace_root@),
                message: error@,
                suggestion: Some("Run `syu init` to create `syu.yaml`, or point the command at a directory inside an initialized workspace."@),
            }],
            res.referenced_rules@.len() == 0,
    {
        let issue = ValidationIssue::error(
            "SYU-workspace-load-001",
            owned("workspace"),
            Some(workspace_root.clone()),
            error,
            Some(owned("Run `syu init` to create `syu.yaml`, or point the command at a directory inside an initialized workspace.")),
        );
        let mut issues: Vec<ValidationIssue> = Vec::new();
        append_issue(&mut issues, issue);
        assert(issue_views(issues@) =~= Seq::<IssueSpec>::empty().push(issue@));
        CheckResult {
            workspace_root,
            definition_counts: DefinitionCounts { philosophies: 0, policies: 0, requirements: 0, features: 0 },
            trace_summary: TraceSummary { requirement_traces: TraceCount { declared: 0, validated: 0 }, feature_traces: TraceCount { declared: 0, validated: 0 } },
            issues,
            referenced_rules: Vec::new(),
        }
    }
}

/// Validates a loaded workspace: the diagnostics of every check, in report
/// order, with the definition and trace counts and the rules they refer to.
pub fn collect_check_result_from_workspace(
    workspace: &Workspace,
    requirement_probes: &Vec<Vec<Vec<TraceProbe>>>,
    feature_probes: &Vec<Vec<Vec<TraceProbe>>>,
    catalog: &Vec<ReferencedRule>,
) -> (res: CheckResult)
    requires
        workspace_probes_fit(*workspace, requirement_probes@, feature_probes@),
        requirement_reference_total(workspace.requirements@) <= usize::MAX,
        feature_reference_total(workspace.features@) <= usize::MAX,
    ensures
        res.workspace_root@ == workspace.root@,
        res.definition_counts.philosophies == workspace.philosophies@.len(),
        res.definition_counts.policies == workspace.policies@.len(),
        res.definition_counts.requirements == workspace.requirements@.len(),
        res.definition_counts.features == workspace.features@.len(),
        res.trace_summary.requirement_traces.declared == requirement_declared(workspace.requirements@),
        res.trace_summary.requirement_traces.validated == requirement_validated(workspace.requirements@, requirement_probes@),
        res.trace_summary.feature_traces.declared == feature_declared(workspace.features@),
        res.trace_summary.feature_traces.validated == feature_validated(workspace.features@, feature_probes@),
        issue_views(res.issues@) == sort_issues_spec(workspace_issues(*workspace, requirement_probes@, feature_probes@)),
        issues_sorted(issue_views(res.issues@)),
        issue_views(res.issues@).to_multiset() == workspace_issues(*workspace, requirement_probes@, feature_probes@).to_multiset(),
        rule_code_views(res.referenced_rules@) == used_rules(catalog@, issue_codes(res.issues@)),
{
    let mut issues: Vec<ValidationIssue> = Vec::new();
    let ghost s0 = issue_views(issues@);
    let ids = collect_ids_philosophy(&workspace.philosophies);
    validate_unique_ids("philosophy", &ids, &mut issues);
    let ghost acc = duplicate_id_issues("philosophy"@, philosophy_ids(workspace.philosophies@));
    let ids = collect_ids_policy(&workspace.policies);
    validate_unique_ids("policy", &ids, &mut issues);
    proof { let d = duplicate_id_issues("policy"@, policy_ids(workspace.policies@)); lemma_extend(s0, acc, d); acc = acc + d; }
    let ids = collect_ids_requirement(&workspace.requirements);
    validate_unique_ids("requirement", &ids, &mut issues);
    proof { let d = duplicate_id_issues("requirement"@, requirement_ids(workspace.requirements@)); lemma_extend(s0, acc, d); acc = acc + d; }
    let ids = collect_ids_feature(&workspace.features);
    validate_unique_ids("feature", &ids, &mut issues);
    proof { let d = duplicate_id_issues("feature"@, feature_ids(workspace.features@)); lemma_extend(s0, acc, d); acc = acc + d; }
    validate_all_philosophies(workspace, &mut issues);
    proof { let d = all_philosophy_issues(workspace.philosophies@, workspace.policies@); lemma_extend(s0, acc, d); acc = acc + d; }
    validate_all_policies(workspace, &mut issues);
    proof { let d = all_policy_issues(workspace.policies@, workspace.philosophies@, workspace.requirements@); lemma_extend(s0, acc, d); acc = acc + d; }
    let requirement_traces = validate_all_requirements(workspace, requirement_probes, &mut issues);
    proof { let d = all_requirement_issues(workspace.requirements@, workspace.requirements@, workspace.policies@, workspace.features@, workspace.config.allow_planned, requirement_probes@); lemma_extend(s0, acc, d); acc = acc + d; }
    let feature_traces = validate_all_features(workspace, feature_probes, &mut issues);
    proof { let d = all_feature_issues(workspace.features@, workspace.requirements@, workspace.config.allow_planned, feature_probes@); lemma_extend(s0, acc, d); acc = acc + d; }
    validate_orphaned_definitions(workspace, &mut issues);
    proof { let d = orphan_issues(*workspace); lemma_extend(s0, acc, d); acc = acc + d; }
    assert(s0 =~= Seq::<IssueSpec>::empty());
    assert(acc == workspace_issues(*workspace, requirement_probes@, feature_probes@));
    assert(issue_views(issues@) =~= acc);
    let sorted = sort_issues(&issues);
    let rules = referenced_rules(&sorted, catalog);
    CheckResult {
        workspace_root: workspace.root.clone(),
        definition_counts: DefinitionCounts {
            philosophies: workspace.philosophies.len(),
            policies: workspace.policies.len(),
            requirements: workspace.requirements.len(),
            features: workspace.features.len(),
        },
        trace_summary: TraceSummary { requirement_traces, feature_traces },
        issues: sorted,
        referenced_rules: rules,
    }
}

/// A workspace as loaded from disk, with what was found of its traced files.
#[derive(Debug)]
pub struct LoadedWorkspace {
    pub workspace: Workspace,
    pub requirement_probes: Vec<Vec<Vec<TraceProbe>>>,
    pub feature_probes: Vec<Vec<Vec<TraceProbe>>>,
}

/// Validates the outcome of loading a workspace: a load error becomes a
/// failing result with one diagnostic.
pub fn collect_check_result(
    workspace_path: &str,
    loaded: Result<LoadedWorkspace, String>,
    catalog: &Vec<ReferencedRule>,
) -> (res: CheckResult)
    requires
        loaded is Ok ==> workspace_probes_fit(loaded->Ok_0.workspace, loaded->Ok_0.requirement_probes@, loaded->Ok_0.feature_probes@)
            && requirement_reference_total(loaded->Ok_0.workspace.requirements@) <= usize::MAX
            && feature_reference_total(loaded->Ok_0.workspace.features@) <= usize::MAX,
    ensures
        loaded is Err ==> issue_views(res.issues@).len() == 1 && issue_views(res.issues@)[0].code == "SYU-workspace-load-001"@
            && issue_views(res.issues@)[0].message == loaded->Err_0@ && has_error(res.issues@)
            && res.workspace_root@ == workspace_path@,
        loaded is Ok ==> issue_views(res.issues@).to_multiset() == workspace_issues(loaded->Ok_0.workspace, loaded->Ok_0.requirement_probes@, loaded->Ok_0.feature_probes@).to_multiset()
            && issues_sorted(issue_views(res.issues@))
            && issue_views(res.issues@) == sort_issues_spec(workspace_issues(loaded->Ok_0.workspace, loaded->Ok_0.requirement_probes@, loaded->Ok_0.feature_probes@)),
        rule_code_views(res.referenced_rules@) == used_rules(catalog@, issue_codes(res.issues@)),
{
    match loaded {
        Ok(l) => collect_check_result_from_workspace(&l.workspace, &l.requirement_probes, &l.feature_probes, catalog),
        Err(error) => {
            let mut result = CheckResult::from_load_error(owned(workspace_path), error);
            assert(issue_views(result.issues@).len() == result.issues@.len());
            assert(issue_views(result.issues@)[0] == result.issues@[0]@);
            assert(result.issues@[0].severity == Severity::Error);
            let rules = referenced_rules(&result.issues, catalog);
            result.referenced_rules = rules;
            result
        },
    }
}

/// Whether `syu validate` applies autofixes: `--fix` wins, then `--no-fix`,
/// then the configuration's default.
pub fn effective_fix(args: &ValidateArgs, config: &ValidateConfig) -> (res: bool)
    ensures
        res == (args.fix || (!args.no_fix && config.default_fix)),
{
    if args.fix {
        true
    } else if args.no_fix {
        false
    } else {
        config.default_fix
    }
}


// ---------------------------------------------------------------------------
// Filtered views
// ---------------------------------------------------------------------------

/// The active diagnostic filters: each list is sorted and free of repeats.
#[derive(Debug)]
pub struct IssueFilters {
    pub severities: Vec<ValidationSeverityFilter>,
    pub genres: Vec<ValidationGenreFilter>,
    pub rules: Vec<String>,
}

pub open spec fn severity_choice(selected: Seq<ValidationSeverityFilter>) -> Seq<ValidationSeverityFilter> {
    (if selected.contains(ValidationSeverityFilter::Error) { seq![ValidationSeverityFilter::Error] } else { Seq::empty() })
        + (if selected.contains(ValidationSeverityFilter::Warning) { seq![ValidationSeverityFilter::Warning] } else { Seq::empty() })
}

pub open spec fn genre_choice(selected: Seq<ValidationGenreFilter>) -> Seq<ValidationGenreFilter> {
    (if selected.contains(ValidationGenreFilter::Workspace) { seq![ValidationGenreFilter::Workspace] } else { Seq::empty() })
        + (if selected.contains(ValidationGenreFilter::Graph) { seq![ValidationGenreFilter::Graph] } else { Seq::empty() })
        + (if selected.contains(ValidationGenreFilter::Delivery) { seq![ValidationGenreFilter::Delivery] } else { Seq::empty() })
        + (if selected.contains(ValidationGenreFilter::Trace) { seq![ValidationGenreFilter::Trace] } else { Seq::empty() })
        + (if selected.contains(ValidationGenreFilter::Coverage) { seq![ValidationGenreFilter::Coverage] } else { Seq::empty() })
}

/// The rule codes to keep: the trimmed, non-blank `--rule` values.
pub open spec fn rule_choice(rules: Seq<Seq<char>>) -> Set<Seq<char>> {
    Set::new(|t: Seq<char>| exists|i: int| 0 <= i < rules.len() && t == trim_seq(#[trigger] rules[i]) && t.len() > 0)
}

/// Taking one more raw `--rule` value adds its trimmed form, unless it is blank.
proof fn lemma_rule_choice_step(raw: Seq<Seq<char>>, i: int)
    requires
        0 <= i < raw.len(),
    ensures
        rule_choice(raw.take(i + 1)) == (if trim_seq(raw[i]).len() > 0 {
            rule_choice(raw.take(i)).insert(trim_seq(raw[i]))
        } else {
            rule_choice(raw.take(i))
        }),
{
    let a = raw.take(i + 1);
    let b = raw.take(i);
    let tv = trim_seq(raw[i]);
    assert forall|k: int| 0 <= k < i implies #[trigger] a[k] == b[k] by {}
    assert(a[i] == raw[i]);
    assert forall|x: Seq<char>| rule_choice(a).contains(x) implies rule_choice(b).contains(x) || (x == tv && tv.len() > 0) by {
        let k = choose|k: int| 0 <= k < a.len() && x == trim_seq(#[trigger] a[k]) && x.len() > 0;
        if k < i {
            assert(b[k] == a[k]);
        }
    }
    assert forall|x: Seq<char>| rule_choice(b).contains(x) implies rule_choice(a).contains(x) by {
        let k = choose|k: int| 0 <= k < b.len() && x == trim_seq(#[trigger] b[k]) && x.len() > 0;
        assert(a[k] == b[k]);
    }
    if tv.len() > 0 {
        assert(tv == trim_seq(a[i]));
        assert(rule_choice(a).contains(tv));
        assert(rule_choice(a) =~= rule_choice(b).insert(tv));
    } else {
        assert(rule_choice(a) =~= rule_choice(b));
    }
}

fn has_severity(v: &Vec<ValidationSeverityFilter>, x: ValidationSeverityFilter) -> (res: bool)
    ensures res == v@.contains(x),
{
    let mut i: usize = 0;
    while i < v.len()
        invariant i <= v.len(), forall|k: int| 0 <= k < i ==> v@[k] != x,
        decreases v.len() - i,
    {
        if v[i] == x { return true; }
        i = i + 1;
    }
    false
}

fn has_genre(v: &Vec<ValidationGenreFilter>, x: ValidationGenreFilter) -> (res: bool)
    ensures res == v@.contains(x),
{
    let mut i: usize = 0;
    while i < v.len()
        invariant i <= v.len(), forall|k: int| 0 <= k < i ==> v@[k] != x,
        decreases v.len() - i,
    {
        if v[i] == x { return true; }
        i = i + 1;
    }
    false
}

impl IssueFilters {
    /// The filters that `syu validate` was asked for.
    pub fn from_args(args: &ValidateArgs) -> (res: IssueFilters)
        ensures
            res.severities@ == severity_choice(args.severity@),
            res.genres@ == genre_choice(args.genre@),
            strictly_sorted(string_views(res.rules@)),
            string_views(res.rules@).to_set() == rule_choice(views(args.rule@)),
    {
        let mut severities: Vec<ValidationSeverityFilter> = Vec::new();
        if has_severity(&args.severity, ValidationSeverityFilter::Error) { severities.push(ValidationSeverityFilter::Error); }
        if has_severity(&args.severity, ValidationSeverityFilter::Warning) { severities.push(ValidationSeverityFilter::Warning); }
        assert(severities@ =~= severity_choice(args.severity@));
        let mut genres: Vec<ValidationGenreFilter> = Vec::new();
        if has_genre(&args.genre, ValidationGenreFilter::Workspace) { genres.push(ValidationGenreFilter::Workspace); }
        if has_genre(&args.genre, ValidationGenreFilter::Graph) { genres.push(ValidationGenreFilter::Graph); }
        if has_genre(&args.genre, ValidationGenreFilter::Delivery) { genres.push(ValidationGenreFilter::Delivery); }
        if has_genre(&args.genre, ValidationGenreFilter::Trace) { genres.push(ValidationGenreFilter::Trace); }
        if has_genre(&args.genre, ValidationGenreFilter::Coverage) { genres.push(ValidationGenreFilter::Coverage); }
        assert(genres@ =~= genre_choice(args.genre@));
        let mut rules: Vec<String> = Vec::new();
        let ghost raw = views(args.rule@);
        let mut i: usize = 0;
        assert(string_views(rules@).to_set() =~= Set::<Seq<char>>::empty());
        while i < args.rule.len()
            invariant
                i <= args.rule.len(),
                raw == views(args.rule@),
                strictly_sorted(string_views(rules@)),
                string_views(rules@).to_set() == rule_choice(raw.take(i as int)),
            decreases args.rule.len() - i,
        {
            let t = trim(args.rule[i].as_str());
            let ghost prev = string_views(rules@).to_set();
            if t.as_str().unicode_len() > 0 {
                let ghost tv = t@;
                assert(raw[i as int] == args.rule@[i as int]@);
                proof { lemma_rule_choice_step(raw, i as int); }
                insert_sorted_unique(&mut rules, t);
            } else {
                assert(raw[i as int] == args.rule@[i as int]@);
                proof { lemma_rule_choice_step(raw, i as int); }
            }
            i = i + 1;
        }
        assert(raw.take(args.rule.len() as int) =~= raw);
        IssueFilters { severities, genres, rules }
    }

    /// Whether any filter is set.
    pub fn is_active(&self) -> (res: bool)
        ensures
            res == (self.severities@.len() > 0 || self.genres@.len() > 0 || self.rules@.len() > 0),
    {
        self.severities.len() > 0 || self.genres.len() > 0 || self.rules.len() > 0
    }

    /// Whether a diagnostic passes every filter that is set.
    pub fn matches(&self, issue: &ValidationIssue) -> (res: bool)
        ensures
            res == issue_matches(*self, issue@),
    {
        let mut severity_ok = self.severities.len() == 0;
        if !severity_ok {
            let wanted = match issue.severity { Severity::Error => ValidationSeverityFilter::Error, Severity::Warning => ValidationSeverityFilter::Warning };
            severity_ok = has_severity(&self.severities, wanted);
        }
        let rule_ok = self.rules.len() == 0 || contains_string(&self.rules, issue.code.as_str());
        let mut genre_ok = self.genres.len() == 0;
        if !genre_ok {
            match rule_genre(issue.code.as_str()) {
                Some(g) => {
                    let mut i: usize = 0;
                    while i < self.genres.len()
                        invariant
                            i <= self.genres.len(),
                            genre_of(issue.code@) == Some(g@),
                            !genre_ok ==> forall|k: int| 0 <= k < i ==> genre_filter_spec(#[trigger] self.genres@[k]) != g@,
                            genre_ok ==> exists|k: int| 0 <= k < self.genres@.len() && genre_filter_spec(#[trigger] self.genres@[k]) == g@,
                        decreases self.genres.len() - i,
                    {
                        if !genre_ok && str_eq(self.genres[i].as_str(), g.as_str()) {
                            genre_ok = true;
                        }
                        i = i + 1;
                    }
                },
                None => {},
            }
        }
        severity_ok && rule_ok && genre_ok
    }
}

pub open spec fn severity_filter_of(s: Severity) -> ValidationSeverityFilter {
    match s {
        Severity::Error => ValidationSeverityFilter::Error,
        Severity::Warning => ValidationSeverityFilter::Warning,
    }
}

pub open spec fn issue_matches(f: IssueFilters, issue: IssueSpec) -> bool {
    &&& (f.severities@.len() == 0 || f.severities@.contains(severity_filter_of(issue.severity)))
    &&& (f.rules@.len() == 0 || views(f.rules@).contains(issue.code))
    &&& (f.genres@.len() == 0 || match genre_of(issue.code) {
        Some(g) => exists|k: int| 0 <= k < f.genres@.len() && genre_filter_spec(#[trigger] f.genres@[k]) == g,
        None => false,
    })
}

/// What a filtered run shows and hides.
#[derive(Debug)]
pub struct FilteredIssueView {
    pub severities: Vec<String>,
    pub genres: Vec<String>,
    pub rules: Vec<String>,
    pub displayed_issue_count: usize,
    pub total_issue_count: usize,
    pub hidden_issue_count: usize,
}

impl FilteredIssueView {
    pub fn from_filters(filters: &IssueFilters, displayed_issue_count: usize, total_issue_count: usize) -> (res: FilteredIssueView)
        ensures
            views(res.severities@) == Seq::new(filters.severities@.len(), |i: int| severity_filter_spec(filters.severities@[i])),
            views(res.genres@) == Seq::new(filters.genres@.len(), |i: int| genre_filter_spec(filters.genres@[i])),
            views(res.rules@) == views(filters.rules@),
            res.displayed_issue_count == displayed_issue_count,
            res.total_issue_count == total_issue_count,
            res.hidden_issue_count == if total_issue_count >= displayed_issue_count { total_issue_count - displayed_issue_count } else { 0 },
    {
        let mut severities: Vec<String> = Vec::new();
        let mut i: usize = 0;
        while i < filters.severities.len()
            invariant i <= filters.severities.len(), severities@.len() == i,
                forall|k: int| 0 <= k < i ==> #[trigger] severities@[k]@ == severity_filter_spec(filters.severities@[k]),
            decreases filters.severities.len() - i,
        {
            severities.push(owned(filters.severities[i].as_str()));
            i = i + 1;
        }
        let mut genres: Vec<String> = Vec::new();
        let mut i: usize = 0;
        while i < filters.genres.len()
            invariant i <= filters.genres.len(), genres@.len() == i,
                forall|k: int| 0 <= k < i ==> #[trigger] genres@[k]@ == genre_filter_spec(filters.genres@[k]),
            decreases filters.genres.len() - i,
        {
            genres.push(owned(filters.genres[i].as_str()));
            i = i + 1;
        }
        let rules = clone_strings(&filters.rules);
        let res = FilteredIssueView {
            severities,
            genres,
            rules,
            displayed_issue_count,
            total_issue_count,
            hidden_issue_count: total_issue_count.saturating_sub(displayed_issue_count),
        };
        assert(views(res.severities@) =~= Seq::new(filters.severities@.len(), |i: int| severity_filter_spec(filters.severities@[i])));
        assert(views(res.genres@) =~= Seq::new(filters.genres@.len(), |i: int| genre_filter_spec(filters.genres@[i])));
        res
    }

    /// `severity=.. genre=.. rule=..`, naming the filters that are set.
    pub fn describe_filters(&self) -> (res: String)
        ensures
            res@ == describe_filters_spec(views(self.severities@), views(self.genres@), views(self.rules@)),
    {
        let mut parts: Vec<String> = Vec::new();
        if self.severities.len() > 0 {
            let joined = crate::text::join(&self.severities, ",");
            parts.push(cat("severity=", joined.as_str()));
        }
        if self.genres.len() > 0 {
            let joined = crate::text::join(&self.genres, ",");
            parts.push(cat("genre=", joined.as_str()));
        }
        if self.rules.len() > 0 {
            let joined = crate::text::join(&self.rules, ",");
            parts.push(cat("rule=", joined.as_str()));
        }
        assert(views(parts@) =~= filter_parts(views(self.severities@), views(self.genres@), views(self.rules@)));
        crate::text::join(&parts, " ")
    }
}

pub open spec fn filter_parts(sev: Seq<Seq<char>>, genres: Seq<Seq<char>>, rules: Seq<Seq<char>>) -> Seq<Seq<char>> {
    (if sev.len() > 0 { seq!["severity="@ + join_seq(sev, ","@)] } else { Seq::empty() })
        + (if genres.len() > 0 { seq!["genre="@ + join_seq(genres, ","@)] } else { Seq::empty() })
        + (if rules.len() > 0 { seq!["rule="@ + join_seq(rules, ","@)] } else { Seq::empty() })
}

pub open spec fn describe_filters_spec(sev: Seq<Seq<char>>, genres: Seq<Seq<char>>, rules: Seq<Seq<char>>) -> Seq<char> {
    join_seq(filter_parts(sev, genres, rules), " "@)
}

/// The diagnostics that pass the filters, in order.
pub open spec fn kept_issues(f: IssueFilters, issues: Seq<IssueSpec>) -> Seq<IssueSpec>
    decreases issues.len(),
{
    if issues.len() == 0 {
        Seq::empty()
    } else {
        let prev = kept_issues(f, issues.drop_last());
        if issue_matches(f, issues.last()) { prev.push(issues.last()) } else { prev }
    }
}

proof fn lemma_kept_len(f: IssueFilters, issues: Seq<IssueSpec>)
    ensures kept_issues(f, issues).len() <= issues.len(),
    decreases issues.len(),
{
    if issues.len() > 0 { lemma_kept_len(f, issues.drop_last()); }
}

/// A filtered list holds exactly the diagnostics that pass the filters:
/// each kept one passes and came from the list, and each one of the list
/// that passes is kept.
pub proof fn lemma_kept_issues_are_the_matching_ones(f: IssueFilters, issues: Seq<IssueSpec>)
    ensures
        forall|i: int| 0 <= i < kept_issues(f, issues).len() ==> issue_matches(f, #[trigger] kept_issues(f, issues)[i]),
        forall|x: IssueSpec| kept_issues(f, issues).contains(x) <==> (issues.contains(x) && issue_matches(f, x)),
    decreases issues.len(),
{
    if issues.len() > 0 {
        let prev = issues.drop_last();
        lemma_kept_issues_are_the_matching_ones(f, prev);
        assert(issues =~= prev.push(issues.last()));
        assert forall|x: IssueSpec| kept_issues(f, issues).contains(x) <==> (issues.contains(x) && issue_matches(f, x)) by {
            if issues.contains(x) {
                let k = choose|k: int| 0 <= k < issues.len() && issues[k] == x;
                if k < prev.len() {
                    assert(prev[k] == x);
                }
            }
            if kept_issues(f, issues).contains(x) && issue_matches(f, issues.last()) {
                let k = choose|k: int| 0 <= k < kept_issues(f, issues).len() && kept_issues(f, issues)[k] == x;
                if k < kept_issues(f, prev).len() {
                    assert(kept_issues(f, prev)[k] == x);
                }
            }
            if prev.contains(x) {
                let k = choose|k: int| 0 <= k < prev.len() && prev[k] == x;
                assert(issues[k] == x);
            }
            if kept_issues(f, prev).contains(x) {
                let k = choose|k: int| 0 <= k < kept_issues(f, prev).len() && kept_issues(f, prev)[k] == x;
                if issue_matches(f, issues.last()) {
                    assert(kept_issues(f, issues)[k] == x);
                }
            }
            if issue_matches(f, issues.last()) {
                assert(kept_issues(f, issues)[kept_issues(f, prev).len() as int] == issues.last());
                assert(issues[issues.len() - 1] == issues.last());
            }
        }
    }
}

/// In report order every error comes before every warning.
pub proof fn lemma_errors_before_warnings(s: Seq<IssueSpec>)
    requires
        issues_sorted(s),
    ensures
        forall|i: int, j: int| 0 <= i < j < s.len() && (#[trigger] s[j]).severity == Severity::Error ==> (#[trigger] s[i]).severity == Severity::Error,
{
    assert forall|i: int, j: int| 0 <= i < j < s.len() && (#[trigger] s[j]).severity == Severity::Error implies (#[trigger] s[i]).severity == Severity::Error by {
        assert(issue_order(s[i], s[j]) <= 0);
    }
}

/// Narrows a result to the diagnostics that pass the filters; without active
/// filters the result is returned as it is.
pub fn filter_check_result(result: CheckResult, filters: &IssueFilters, catalog: &Vec<ReferencedRule>) -> (res: (CheckResult, Option<FilteredIssueView>))
    ensures
        !(filters.severities@.len() > 0 || filters.genres@.len() > 0 || filters.rules@.len() > 0) ==> res.0 == result && res.1.is_none(),
        (filters.severities@.len() > 0 || filters.genres@.len() > 0 || filters.rules@.len() > 0) ==> {
            &&& issue_views(res.0.issues@) == kept_issues(*filters, issue_views(result.issues@))
            &&& res.0.workspace_root == result.workspace_root
            &&& res.0.definition_counts == result.definition_counts
            &&& res.0.trace_summary == result.trace_summary
            &&& rule_code_views(res.0.referenced_rules@) == used_rules(catalog@, issue_codes(res.0.issues@))
            &&& res.1 is Some
            &&& res.1->Some_0.displayed_issue_count == res.0.issues@.len()
            &&& res.1->Some_0.total_issue_count == result.issues@.len()
            &&& res.1->Some_0.hidden_issue_count == result.issues@.len() - res.0.issues@.len()
        },
{
    if !filters.is_active() {
        return (result, None);
    }
    let total = result.issues.len();
    let mut kept: Vec<ValidationIssue> = Vec::new();
    let mut i: usize = 0;
    assert(issue_views(result.issues@).take(0) =~= Seq::<IssueSpec>::empty());
    assert(issue_views(kept@) =~= Seq::<IssueSpec>::empty());
    while i < result.issues.len()
        invariant
            i <= result.issues.len(),
            issue_views(kept@) == kept_issues(*filters, issue_views(result.issues@).take(i as int)),
        decreases result.issues.len() - i,
    {
        assert(issue_views(result.issues@).take(i + 1).drop_last() =~= issue_views(result.issues@).take(i as int));
        assert(issue_views(result.issues@).take(i + 1).last() == result.issues@[i as int]@);
        if filters.matches(&result.issues[i]) {
            let copy = result.issues[i].duplicate();
            append_issue(&mut kept, copy);
        }
        i = i + 1;
    }
    assert(issue_views(result.issues@).take(total as int) =~= issue_views(result.issues@));
    proof { lemma_kept_len(*filters, issue_views(result.issues@)); }
    let displayed = kept.len();
    let view = FilteredIssueView::from_filters(filters, displayed, total);
    let rules = referenced_rules(&kept, catalog);
    (CheckResult {
        workspace_root: result.workspace_root,
        definition_counts: result.definition_counts,
        trace_summary: result.trace_summary,
        issues: kept,
        referenced_rules: rules,
    }, Some(view))
}

} // verus!
