//! `syu browse`: what the terminal browser shows of a workspace and where
//! each selection leads. The prompting itself happens outside the library.
use vstd::prelude::*;

use crate::check::Workspace;
use crate::cli::{LookupKind, lookup_kind_label_spec};
use crate::lookup::{entries, index_from, layer_entries, lemma_index_from_bounds, position_of, summary_views, EntitySummary};
use crate::model::{CheckResult, TraceGroup, TraceReference};
use crate::browser::{ReferencedRule, ValidationIssue};
use crate::doctor::{digits_value, lemma_digits_grow};
use crate::report::{severity_debug, severity_name};
use crate::rules::{find_rule, rule_by_code};
use crate::text::{is_digit, lower_seq, str_eq, to_lower, trim, trim_seq};
use crate::text::{collapse_seq, collapse_whitespace, decimal, join, join_seq, usize_to_string, views};

verus! {

/// A definition that the browser can open.
#[derive(Debug)]
pub struct EntityRef {
    pub kind: LookupKind,
    pub id: String,
}

pub struct EntityRefSpec {
    pub kind: LookupKind,
    pub id: Seq<char>,
}

pub open spec fn ref_views(v: Seq<EntityRef>) -> Seq<EntityRefSpec> {
    Seq::new(v.len(), |i: int| EntityRefSpec { kind: v[i].kind, id: v[i].id@ })
}

impl EntityRef {
    /// A copy with the same content.
    pub fn duplicate(&self) -> (res: EntityRef)
        ensures
            res.kind == self.kind,
            res.id@ == self.id@,
    {
        EntityRef { kind: self.kind, id: self.id.clone() }
    }
}

/// The browser's state: the workspace, when it loaded, and the validation result.
pub struct BrowseState {
    pub workspace: Option<Workspace>,
    pub result: CheckResult,
}

/// The entries of a layer, none when the workspace did not load.
pub open spec fn state_entries(s: BrowseState, kind: LookupKind) -> Seq<(Seq<char>, Seq<char>)> {
    match s.workspace {
        Some(w) => layer_entries(w, kind),
        None => Seq::empty(),
    }
}

/// The position of the first definition of a layer with this id.
pub open spec fn state_position(s: BrowseState, kind: LookupKind, id: Seq<char>) -> Option<int> {
    index_from(state_entries(s, kind), id, 0)
}

/// The title that a link shows: the linked definition's, or `missing`.
pub open spec fn link_title(s: BrowseState, kind: LookupKind, id: Seq<char>) -> Seq<char> {
    match state_position(s, kind, id) {
        Some(k) => state_entries(s, kind)[k].1,
        None => "missing"@,
    }
}

pub open spec fn pair_views(v: Seq<(String, String)>) -> Seq<(Seq<char>, Seq<char>)> {
    Seq::new(v.len(), |i: int| (v[i].0@, v[i].1@))
}

/// The numbered link lines, counting from `start`.
pub open spec fn link_lines(s: BrowseState, kind: LookupKind, ids: Seq<Seq<char>>, start: nat) -> Seq<char>
    decreases ids.len(),
{
    if ids.len() == 0 {
        Seq::empty()
    } else {
        link_lines(s, kind, ids.drop_last(), start) + decimal((start + ids.len() - 1) as nat) + ". "@ + ids.last()
            + " — "@ + link_title(s, kind, ids.last()) + "\n"@
    }
}

/// A list of links, or `- none`.
pub open spec fn links_text(s: BrowseState, kind: LookupKind, ids: Seq<Seq<char>>, start: nat) -> Seq<char> {
    if ids.len() == 0 { "- none\n"@ } else { link_lines(s, kind, ids, start) }
}

pub open spec fn links_of(kind: LookupKind, ids: Seq<Seq<char>>) -> Seq<EntityRefSpec> {
    Seq::new(ids.len(), |i: int| EntityRefSpec { kind, id: ids[i] })
}

impl BrowseState {
    fn layer(&self, kind: LookupKind) -> (res: Vec<EntitySummary>)
        ensures
            summary_views(res@) == state_entries(*self, kind),
    {
        match &self.workspace {
            Some(w) => entries(w, kind),
            None => {
                let v: Vec<EntitySummary> = Vec::new();
                assert(summary_views(v@) =~= Seq::<(Seq<char>, Seq<char>)>::empty());
                v
            },
        }
    }

    /// The id and title of every definition of a layer.
    pub fn entity_entries(&self, kind: LookupKind) -> (res: Vec<(String, String)>)
        ensures
            pair_views(res@) == state_entries(*self, kind),
    {
        let all = self.layer(kind);
        let mut out: Vec<(String, String)> = Vec::new();
        let mut i: usize = 0;
        while i < all.len()
            invariant
                i <= all@.len(),
                pair_views(out@) == summary_views(all@).take(i as int),
            decreases all@.len() - i,
        {
            let ghost before = out@;
            out.push((all[i].id.clone(), all[i].title.clone()));
            assert(pair_views(out@) =~= pair_views(before).push((all@[i as int].id@, all@[i as int].title@)));
            assert(summary_views(all@).take(i + 1) =~= summary_views(all@).take(i as int).push(summary_views(all@)[i as int]));
            i = i + 1;
        }
        assert(summary_views(all@).take(all@.len() as int) =~= summary_views(all@));
        out
    }

    fn position(&self, kind: LookupKind, id: &str) -> (res: Option<usize>)
        ensures
            res == match state_position(*self, kind, id@) { Some(k) => Some(k as usize), None => None::<usize> },
            res matches Some(k) ==> k < state_entries(*self, kind).len() && state_entries(*self, kind)[k as int].0 == id@,
            res matches Some(k) ==> state_position(*self, kind, id@) == Some(k as int),
            res is None ==> state_position(*self, kind, id@) is None,
    {
        let all = self.layer(kind);
        proof {
            lemma_index_from_bounds(summary_views(all@), id@, 0);
        }
        position_of(&all, id)
    }

    /// The position of the philosophy with this id.
    pub fn philosophy(&self, id: &str) -> (res: Option<usize>)
        ensures
            res == match state_position(*self, LookupKind::Philosophy, id@) { Some(k) => Some(k as usize), None => None::<usize> },
            res matches Some(k) ==> state_position(*self, LookupKind::Philosophy, id@) == Some(k as int),
            res is None ==> state_position(*self, LookupKind::Philosophy, id@) is None,
    {
        self.position(LookupKind::Philosophy, id)
    }

    /// The position of the policy with this id.
    pub fn policy(&self, id: &str) -> (res: Option<usize>)
        ensures
            res == match state_position(*self, LookupKind::Policy, id@) { Some(k) => Some(k as usize), None => None::<usize> },
            res matches Some(k) ==> state_position(*self, LookupKind::Policy, id@) == Some(k as int),
            res is None ==> state_position(*self, LookupKind::Policy, id@) is None,
    {
        self.position(LookupKind::Policy, id)
    }

    /// The position of the requirement with this id.
    pub fn requirement(&self, id: &str) -> (res: Option<usize>)
        ensures
            res == match state_position(*self, LookupKind::Requirement, id@) { Some(k) => Some(k as usize), None => None::<usize> },
            res matches Some(k) ==> state_position(*self, LookupKind::Requirement, id@) == Some(k as int),
            res is None ==> state_position(*self, LookupKind::Requirement, id@) is None,
    {
        self.position(LookupKind::Requirement, id)
    }

    /// The position of the feature with this id.
    pub fn feature(&self, id: &str) -> (res: Option<usize>)
        ensures
            res == match state_position(*self, LookupKind::Feature, id@) { Some(k) => Some(k as usize), None => None::<usize> },
            res matches Some(k) ==> state_position(*self, LookupKind::Feature, id@) == Some(k as int),
            res is None ==> state_position(*self, LookupKind::Feature, id@) is None,
    {
        self.position(LookupKind::Feature, id)
    }

    fn title_or_missing(&self, kind: LookupKind, id: &str) -> (res: String)
        ensures
            res@ == link_title(*self, kind, id@),
    {
        let all = self.layer(kind);
        proof {
            lemma_index_from_bounds(summary_views(all@), id@, 0);
        }
        match position_of(&all, id) {
            Some(k) => {
                assert(summary_views(all@)[k as int].1 == all@[k as int].title@);
                all[k].title.clone()
            },
            None => String::from_str("missing"),
        }
    }

    /// The numbered links of a detail view and the definitions they open.
    pub fn links(&self, kind: LookupKind, ids: &Vec<String>, start: usize) -> (res: (String, Vec<EntityRef>))
        requires
            1 <= start,
            start - 1 + ids.len() <= usize::MAX,
        ensures
            res.0@ == links_text(*self, kind, crate::text::views(ids@), start as nat),
            ref_views(res.1@) == links_of(kind, crate::text::views(ids@)),
    {
        let ghost all = crate::text::views(ids@);
        if ids.len() == 0 {
            let v: Vec<EntityRef> = Vec::new();
            assert(ref_views(v@) =~= links_of(kind, all));
            return (String::from_str("- none\n"), v);
        }
        let mut text = String::new();
        let mut linked: Vec<EntityRef> = Vec::new();
        let mut i: usize = 0;
        proof { reveal_strlit(""); }
        assert(text@ =~= link_lines(*self, kind, all.take(0), start as nat));
        while i < ids.len()
            invariant
                i <= ids@.len(),
                1 <= start,
                start - 1 + ids.len() <= usize::MAX,
                all == crate::text::views(ids@),
                text@ == link_lines(*self, kind, all.take(i as int), start as nat),
                ref_views(linked@) == links_of(kind, all.take(i as int)),
            decreases ids@.len() - i,
        {
            let ghost before = text@;
            let ghost refs = linked@;
            let n = usize_to_string(start + i);
            text.append(n.as_str());
            text.append(". ");
            text.append(ids[i].as_str());
            text.append(" — ");
            let t = self.title_or_missing(kind, ids[i].as_str());
            text.append(t.as_str());
            text.append("\n");
            linked.push(EntityRef { kind, id: ids[i].clone() });
            assert(all.take(i + 1).drop_last() =~= all.take(i as int));
            assert(all.take(i + 1).last() == ids@[i as int]@);
            assert(text@ =~= before + decimal((start + i) as nat) + ". "@ + ids@[i as int]@ + " — "@ + link_title(*self, kind, ids@[i as int]@) + "\n"@);
            assert(ref_views(linked@) =~= ref_views(refs).push(EntityRefSpec { kind, id: ids@[i as int]@ }));
            assert(links_of(kind, all.take(i + 1)) =~= links_of(kind, all.take(i as int)).push(EntityRefSpec { kind, id: ids@[i as int]@ }));
            i = i + 1;
        }
        assert(all.take(ids@.len() as int) =~= all);
        (text, linked)
    }
}


// ---------------------------------------------------------------------------
// Detail views
// ---------------------------------------------------------------------------

pub open spec fn symbols_label(symbols: Seq<Seq<char>>) -> Seq<char> {
    if symbols.len() == 0 { "-"@ } else { join_seq(symbols, ", "@) }
}

pub open spec fn refs_text(refs: Seq<TraceReference>) -> Seq<char>
    decreases refs.len(),
{
    if refs.len() == 0 {
        Seq::empty()
    } else {
        refs_text(refs.drop_last()) + "  - "@ + refs.last().file@ + " ["@ + symbols_label(views(refs.last().symbols@)) + "]\n"@
    }
}

pub open spec fn groups_text(groups: Seq<TraceGroup>) -> Seq<char>
    decreases groups.len(),
{
    if groups.len() == 0 {
        Seq::empty()
    } else {
        groups_text(groups.drop_last()) + "- "@ + groups.last().language@ + ":\n"@ + refs_text(groups.last().references@)
    }
}

/// The declared traces of a definition, language by language, or `- none`.
pub open spec fn trace_summary_text(groups: Seq<TraceGroup>) -> Seq<char> {
    if groups.len() == 0 { "- none\n"@ } else { groups_text(groups) }
}

fn refs_lines(refs: &Vec<TraceReference>) -> (res: String)
    ensures
        res@ == refs_text(refs@),
{
    let mut out = String::new();
    let mut i: usize = 0;
    proof { reveal_strlit(""); }
    assert(out@ =~= refs_text(refs@.take(0)));
    while i < refs.len()
        invariant
            i <= refs@.len(),
            out@ == refs_text(refs@.take(i as int)),
        decreases refs@.len() - i,
    {
        let ghost before = out@;
        let r = &refs[i];
        out.append("  - ");
        out.append(r.file.as_str());
        out.append(" [");
        if r.symbols.len() == 0 {
            out.append("-");
        } else {
            out.append(join(&r.symbols, ", ").as_str());
        }
        out.append("]\n");
        assert(refs@.take(i + 1).drop_last() =~= refs@.take(i as int));
        assert(out@ =~= before + "  - "@ + r.file@ + " ["@ + symbols_label(views(r.symbols@)) + "]\n"@);
        i = i + 1;
    }
    assert(refs@.take(refs@.len() as int) =~= refs@);
    out
}

/// The declared traces of a definition as the browser lists them.
pub fn trace_summary(groups: &Vec<TraceGroup>) -> (res: String)
    ensures
        res@ == trace_summary_text(groups@),
{
    if groups.len() == 0 {
        return String::from_str("- none\n");
    }
    let mut out = String::new();
    let mut i: usize = 0;
    proof { reveal_strlit(""); }
    assert(out@ =~= groups_text(groups@.take(0)));
    while i < groups.len()
        invariant
            i <= groups@.len(),
            groups@.len() > 0,
            out@ == groups_text(groups@.take(i as int)),
        decreases groups@.len() - i,
    {
        let ghost before = out@;
        out.append("- ");
        out.append(groups[i].language.as_str());
        out.append(":\n");
        out.append(refs_lines(&groups[i].references).as_str());
        assert(groups@.take(i + 1).drop_last() =~= groups@.take(i as int));
        assert(out@ =~= before + "- "@ + groups@[i as int].language@ + ":\n"@ + refs_text(groups@[i as int].references@));
        i = i + 1;
    }
    assert(groups@.take(groups@.len() as int) =~= groups@);
    out
}

pub open spec fn not_available(label: Seq<char>, id: Seq<char>) -> Seq<char> {
    label + " `"@ + id + "` is not available.\n"@
}

fn not_available_text(label: &str, id: &str) -> (res: String)
    ensures
        res@ == not_available(label@, id@),
{
    let mut out = String::from_str(label);
    out.append(" `");
    out.append(id);
    out.append("` is not available.\n");
    out
}

/// What the detail view of a philosophy shows.
pub open spec fn philosophy_detail_spec(s: BrowseState, id: Seq<char>) -> Seq<char> {
    match state_position(s, LookupKind::Philosophy, id) {
        None => not_available("Philosophy"@, id),
        Some(k) => {
            let p = s.workspace->Some_0.philosophies@[k];
            "ID: "@ + p.id@ + "\nTitle: "@ + p.title@ + "\nProduct design principle: "@ + collapse_seq(p.product_design_principle@)
                + "\nCoding guideline: "@ + collapse_seq(p.coding_guideline@) + "\nLinked policies:\n"@
                + links_text(s, LookupKind::Policy, views(p.linked_policies@), 1)
        },
    }
}

/// What the detail view of a policy shows.
pub open spec fn policy_detail_spec(s: BrowseState, id: Seq<char>) -> Seq<char> {
    match state_position(s, LookupKind::Policy, id) {
        None => not_available("Policy"@, id),
        Some(k) => {
            let p = s.workspace->Some_0.policies@[k];
            "ID: "@ + p.id@ + "\nTitle: "@ + p.title@ + "\nSummary: "@ + collapse_seq(p.summary@) + "\nDescription: "@
                + collapse_seq(p.description@) + "\nLinked philosophies:\n"@
                + links_text(s, LookupKind::Philosophy, views(p.linked_philosophies@), 1) + "Linked requirements:\n"@
                + links_text(s, LookupKind::Requirement, views(p.linked_requirements@), p.linked_philosophies@.len() + 1)
        },
    }
}

/// What the detail view of a requirement shows.
pub open spec fn requirement_detail_spec(s: BrowseState, id: Seq<char>) -> Seq<char> {
    match state_position(s, LookupKind::Requirement, id) {
        None => not_available("Requirement"@, id),
        Some(k) => {
            let r = s.workspace->Some_0.requirements@[k];
            "ID: "@ + r.id@ + "\nTitle: "@ + r.title@ + "\nPriority: "@ + r.priority@ + "\nStatus: "@ + r.status@
                + "\nDescription: "@ + collapse_seq(r.description@) + "\nLinked policies:\n"@
                + links_text(s, LookupKind::Policy, views(r.linked_policies@), 1) + "Linked features:\n"@
                + links_text(s, LookupKind::Feature, views(r.linked_features@), r.linked_policies@.len() + 1)
                + "Declared tests:\n"@ + trace_summary_text(r.tests@)
        },
    }
}

/// What the detail view of a feature shows.
pub open spec fn feature_detail_spec(s: BrowseState, id: Seq<char>) -> Seq<char> {
    match state_position(s, LookupKind::Feature, id) {
        None => not_available("Feature"@, id),
        Some(k) => {
            let f = s.workspace->Some_0.features@[k];
            "ID: "@ + f.id@ + "\nTitle: "@ + f.title@ + "\nStatus: "@ + f.status@ + "\nSummary: "@ + collapse_seq(f.summary@)
                + "\nLinked requirements:\n"@ + links_text(s, LookupKind::Requirement, views(f.linked_requirements@), 1)
                + "Declared implementations:\n"@ + trace_summary_text(f.implementations@)
        },
    }
}

/// The definitions that a detail view links to, in the order it numbers them.
pub open spec fn detail_links_spec(s: BrowseState, kind: LookupKind, id: Seq<char>) -> Seq<EntityRefSpec> {
    match state_position(s, kind, id) {
        None => Seq::empty(),
        Some(k) => {
            let w = s.workspace->Some_0;
            match kind {
                LookupKind::Philosophy => links_of(LookupKind::Policy, views(w.philosophies@[k].linked_policies@)),
                LookupKind::Policy => links_of(LookupKind::Philosophy, views(w.policies@[k].linked_philosophies@))
                    + links_of(LookupKind::Requirement, views(w.policies@[k].linked_requirements@)),
                LookupKind::Requirement => links_of(LookupKind::Policy, views(w.requirements@[k].linked_policies@))
                    + links_of(LookupKind::Feature, views(w.requirements@[k].linked_features@)),
                LookupKind::Feature => links_of(LookupKind::Requirement, views(w.features@[k].linked_requirements@)),
            }
        },
    }
}

/// The two link lists of a detail view fit the machine's counters.
pub open spec fn link_counts_fit(s: BrowseState) -> bool {
    match s.workspace {
        Some(w) => {
            &&& forall|k: int| 0 <= k < w.policies@.len() ==> #[trigger] w.policies@[k].linked_philosophies@.len()
                + w.policies@[k].linked_requirements@.len() < usize::MAX
            &&& forall|k: int| 0 <= k < w.requirements@.len() ==> #[trigger] w.requirements@[k].linked_policies@.len()
                + w.requirements@[k].linked_features@.len() < usize::MAX
        },
        None => true,
    }
}

pub open spec fn detail_spec(s: BrowseState, kind: LookupKind, id: Seq<char>) -> Seq<char> {
    match kind {
        LookupKind::Philosophy => philosophy_detail_spec(s, id),
        LookupKind::Policy => policy_detail_spec(s, id),
        LookupKind::Requirement => requirement_detail_spec(s, id),
        LookupKind::Feature => feature_detail_spec(s, id),
    }
}

impl BrowseState {
    fn philosophy_detail(&self, id: &str) -> (res: (String, Vec<EntityRef>))
        ensures
            res.0@ == philosophy_detail_spec(*self, id@),
            ref_views(res.1@) == detail_links_spec(*self, LookupKind::Philosophy, id@),
    {
        match self.philosophy(id) {
            None => {
                let v: Vec<EntityRef> = Vec::new();
                assert(ref_views(v@) =~= Seq::<EntityRefSpec>::empty());
                (not_available_text("Philosophy", id), v)
            },
            Some(k) => {
                let w = self.workspace.as_ref().unwrap();
                proof { lemma_index_from_bounds(state_entries(*self, LookupKind::Philosophy), id@, 0); }
                assert(state_position(*self, LookupKind::Philosophy, id@) == Some(k as int));
                let p = &w.philosophies[k];
                let ghost pv = self.workspace->Some_0.philosophies@[k as int];
                assert(*p == pv);
                let mut out = String::from_str("ID: ");
                out.append(p.id.as_str());
                out.append("\nTitle: ");
                out.append(p.title.as_str());
                out.append("\nProduct design principle: ");
                out.append(collapse_whitespace(p.product_design_principle.as_str()).as_str());
                out.append("\nCoding guideline: ");
                out.append(collapse_whitespace(p.coding_guideline.as_str()).as_str());
                out.append("\nLinked policies:\n");
                let (text, linked) = self.links(LookupKind::Policy, &p.linked_policies, 1);
                out.append(text.as_str());
                assert(out@ =~= philosophy_detail_spec(*self, id@));
                (out, linked)
            },
        }
    }

    fn policy_detail(&self, id: &str) -> (res: (String, Vec<EntityRef>))
        requires
            link_counts_fit(*self),
        ensures
            res.0@ == policy_detail_spec(*self, id@),
            ref_views(res.1@) == detail_links_spec(*self, LookupKind::Policy, id@),
    {
        match self.policy(id) {
            None => {
                let v: Vec<EntityRef> = Vec::new();
                assert(ref_views(v@) =~= Seq::<EntityRefSpec>::empty());
                (not_available_text("Policy", id), v)
            },
            Some(k) => {
                let w = self.workspace.as_ref().unwrap();
                proof { lemma_index_from_bounds(state_entries(*self, LookupKind::Policy), id@, 0); }
                assert(state_position(*self, LookupKind::Policy, id@) == Some(k as int));
                let p = &w.policies[k];
                let ghost pv = self.workspace->Some_0.policies@[k as int];
                assert(*p == pv);
                assert(p.linked_philosophies@.len() + p.linked_requirements@.len() < usize::MAX);
                let mut out = String::from_str("ID: ");
                out.append(p.id.as_str());
                out.append("\nTitle: ");
                out.append(p.title.as_str());
                out.append("\nSummary: ");
                out.append(collapse_whitespace(p.summary.as_str()).as_str());
                out.append("\nDescription: ");
                out.append(collapse_whitespace(p.description.as_str()).as_str());
                out.append("\nLinked philosophies:\n");
                let (first, mut linked) = self.links(LookupKind::Philosophy, &p.linked_philosophies, 1);
                assert(linked@.len() == ref_views(linked@).len());
                out.append(first.as_str());
                out.append("Linked requirements:\n");
                let (second, more) = self.links(LookupKind::Requirement, &p.linked_requirements, linked.len() + 1);
                out.append(second.as_str());
                let ghost a = ref_views(linked@);
                let mut more = more;
                linked.append(&mut more);
                assert(ref_views(linked@) =~= a + links_of(LookupKind::Requirement, views(p.linked_requirements@)));
                assert(out@ =~= policy_detail_spec(*self, id@));
                (out, linked)
            },
        }
    }

    fn requirement_detail(&self, id: &str) -> (res: (String, Vec<EntityRef>))
        requires
            link_counts_fit(*self),
        ensures
            res.0@ == requirement_detail_spec(*self, id@),
            ref_views(res.1@) == detail_links_spec(*self, LookupKind::Requirement, id@),
    {
        match self.requirement(id) {
            None => {
                let v: Vec<EntityRef> = Vec::new();
                assert(ref_views(v@) =~= Seq::<EntityRefSpec>::empty());
                (not_available_text("Requirement", id), v)
            },
            Some(k) => {
                let w = self.workspace.as_ref().unwrap();
                proof { lemma_index_from_bounds(state_entries(*self, LookupKind::Requirement), id@, 0); }
                assert(state_position(*self, LookupKind::Requirement, id@) == Some(k as int));
                let r = &w.requirements[k];
                let ghost rv = self.workspace->Some_0.requirements@[k as int];
                assert(*r == rv);
                assert(r.linked_policies@.len() + r.linked_features@.len() < usize::MAX);
                let mut out = String::from_str("ID: ");
                out.append(r.id.as_str());
                out.append("\nTitle: ");
                out.append(r.title.as_str());
                out.append("\nPriority: ");
                out.append(r.priority.as_str());
                out.append("\nStatus: ");
                out.append(r.status.as_str());
                out.append("\nDescription: ");
                out.append(collapse_whitespace(r.description.as_str()).as_str());
                out.append("\nLinked policies:\n");
                let (first, mut linked) = self.links(LookupKind::Policy, &r.linked_policies, 1);
                assert(linked@.len() == ref_views(linked@).len());
                out.append(first.as_str());
                out.append("Linked features:\n");
                let (second, more) = self.links(LookupKind::Feature, &r.linked_features, linked.len() + 1);
                out.append(second.as_str());
                out.append("Declared tests:\n");
                out.append(trace_summary(&r.tests).as_str());
                let ghost a = ref_views(linked@);
                let mut more = more;
                linked.append(&mut more);
                assert(ref_views(linked@) =~= a + links_of(LookupKind::Feature, views(r.linked_features@)));
                assert(out@ =~= requirement_detail_spec(*self, id@));
                (out, linked)
            },
        }
    }

    fn feature_detail(&self, id: &str) -> (res: (String, Vec<EntityRef>))
        ensures
            res.0@ == feature_detail_spec(*self, id@),
            ref_views(res.1@) == detail_links_spec(*self, LookupKind::Feature, id@),
    {
        match self.feature(id) {
            None => {
                let v: Vec<EntityRef> = Vec::new();
                assert(ref_views(v@) =~= Seq::<EntityRefSpec>::empty());
                (not_available_text("Feature", id), v)
            },
            Some(k) => {
                let w = self.workspace.as_ref().unwrap();
                proof { lemma_index_from_bounds(state_entries(*self, LookupKind::Feature), id@, 0); }
                assert(state_position(*self, LookupKind::Feature, id@) == Some(k as int));
                let f = &w.features[k];
                let ghost fv = self.workspace->Some_0.features@[k as int];
                assert(*f == fv);
                let mut out = String::from_str("ID: ");
                out.append(f.id.as_str());
                out.append("\nTitle: ");
                out.append(f.title.as_str());
                out.append("\nStatus: ");
                out.append(f.status.as_str());
                out.append("\nSummary: ");
                out.append(collapse_whitespace(f.summary.as_str()).as_str());
                out.append("\nLinked requirements:\n");
                let (text, linked) = self.links(LookupKind::Requirement, &f.linked_requirements, 1);
                out.append(text.as_str());
                out.append("Declared implementations:\n");
                out.append(trace_summary(&f.implementations).as_str());
                assert(out@ =~= feature_detail_spec(*self, id@));
                (out, linked)
            },
        }
    }

    /// The detail view of a definition and the definitions it links to;
    /// a definition that is not there is reported as not available.
    pub fn detail(&self, kind: LookupKind, id: &str) -> (res: (String, Vec<EntityRef>))
        requires
            link_counts_fit(*self),
        ensures
            res.0@ == detail_spec(*self, kind, id@),
            ref_views(res.1@) == detail_links_spec(*self, kind, id@),
    {
        match kind {
            LookupKind::Philosophy => self.philosophy_detail(id),
            LookupKind::Policy => self.policy_detail(id),
            LookupKind::Requirement => self.requirement_detail(id),
            LookupKind::Feature => self.feature_detail(id),
        }
    }
}


// ---------------------------------------------------------------------------
// Summary, lists and the non-interactive tree
// ---------------------------------------------------------------------------

/// The heading block that opens every screen.
pub open spec fn summary_spec(s: BrowseState, heading: Seq<char>) -> Seq<char> {
    let c = s.result.definition_counts;
    "\n=== "@ + heading + " ===\nworkspace: "@ + s.result.workspace_root@ + "\nphilosophy="@ + decimal(c.philosophies as nat)
        + " policy="@ + decimal(c.policies as nat) + " feature="@ + decimal(c.features as nat) + " requirement="@
        + decimal(c.requirements as nat) + " errors="@ + decimal(s.result.issues@.len()) + "\n\n"@
}

pub open spec fn entry_lines(ents: Seq<(Seq<char>, Seq<char>)>) -> Seq<char>
    decreases ents.len(),
{
    if ents.len() == 0 {
        Seq::empty()
    } else {
        entry_lines(ents.drop_last()) + "  "@ + ents.last().0 + "\t"@ + ents.last().1 + "\n"@
    }
}

pub open spec fn layer_section(s: BrowseState, heading: Seq<char>, kind: LookupKind) -> Seq<char> {
    "=== "@ + heading + " ("@ + decimal(state_entries(s, kind).len()) + ") ===\n"@ + entry_lines(state_entries(s, kind)) + "\n"@
}

pub open spec fn issue_lines(issues: Seq<ValidationIssue>) -> Seq<char>
    decreases issues.len(),
{
    if issues.len() == 0 {
        Seq::empty()
    } else {
        issue_lines(issues.drop_last()) + "  ["@ + issues.last().code@ + "] "@ + issues.last().subject@ + "\n"@
    }
}

/// `syu browse --non-interactive`: every layer's definitions, then the issues.
pub open spec fn tree_spec(s: BrowseState) -> Seq<char> {
    summary_spec(s, "syu spec tree"@) + layer_section(s, "philosophy"@, LookupKind::Philosophy)
        + layer_section(s, "policy"@, LookupKind::Policy) + layer_section(s, "requirement"@, LookupKind::Requirement)
        + layer_section(s, "feature"@, LookupKind::Feature) + if s.result.issues@.len() == 0 {
        Seq::empty()
    } else {
        "=== errors ("@ + decimal(s.result.issues@.len()) + ") ===\n"@ + issue_lines(s.result.issues@) + "\n"@
    }
}

/// The numbered entry lines of a list screen, counting from one.
pub open spec fn numbered_entries(ents: Seq<(Seq<char>, Seq<char>)>) -> Seq<char>
    decreases ents.len(),
{
    if ents.len() == 0 {
        Seq::empty()
    } else {
        numbered_entries(ents.drop_last()) + decimal(ents.len()) + ". "@ + ents.last().0 + " — "@ + ents.last().1 + "\n"@
    }
}

/// The list screen of a layer.
pub open spec fn list_screen_spec(s: BrowseState, kind: LookupKind) -> Seq<char> {
    let ents = state_entries(s, kind);
    summary_spec(s, lookup_kind_label_spec(kind)) + if ents.len() == 0 {
        "No "@ + lookup_kind_label_spec(kind) + " entries are currently available.\n"@
    } else {
        numbered_entries(ents) + "0. back\n"@
    }
}

/// The top-level menu.
pub open spec fn menu_spec(s: BrowseState) -> Seq<char> {
    let c = s.result.definition_counts;
    summary_spec(s, "syu interactive browser"@) + "1. philosophy ("@ + decimal(c.philosophies as nat) + ")\n2. policy ("@
        + decimal(c.policies as nat) + ")\n3. feature ("@ + decimal(c.features as nat) + ")\n4. requirement ("@
        + decimal(c.requirements as nat) + ")\n5. errors ("@ + decimal(s.result.issues@.len()) + ")\n0. exit\n"@
}

pub open spec fn rule_title_or_unknown(catalog: Seq<ReferencedRule>, code: Seq<char>) -> Seq<char> {
    match find_rule(catalog, code) {
        Some(r) => r.title@,
        None => "Unknown rule"@,
    }
}

pub open spec fn numbered_issues(catalog: Seq<ReferencedRule>, issues: Seq<ValidationIssue>) -> Seq<char>
    decreases issues.len(),
{
    if issues.len() == 0 {
        Seq::empty()
    } else {
        numbered_issues(catalog, issues.drop_last()) + decimal(issues.len()) + ". ["@ + severity_debug(issues.last().severity)
            + "] "@ + issues.last().code@ + " — "@ + rule_title_or_unknown(catalog, issues.last().code@) + "\n"@
    }
}

/// The screen that lists the validation issues.
pub open spec fn error_list_spec(s: BrowseState, catalog: Seq<ReferencedRule>) -> Seq<char> {
    summary_spec(s, "validation errors"@) + if s.result.issues@.len() == 0 {
        "No validation issues are currently reported.\n"@
    } else {
        numbered_issues(catalog, s.result.issues@) + "0. back\n"@
    }
}

/// The screen of one validation issue, with its rule when the catalog knows it.
pub open spec fn error_detail_spec(s: BrowseState, catalog: Seq<ReferencedRule>, index: int) -> Seq<char> {
    let issue = s.result.issues@[index];
    summary_spec(s, "error detail"@) + issue_fields(issue) + rule_fields(catalog, issue.code@)
}

fn entry_lines_text(ents: &Vec<(String, String)>, numbered: bool) -> (res: String)
    ensures
        res@ == if numbered { numbered_entries(pair_views(ents@)) } else { entry_lines(pair_views(ents@)) },
{
    let ghost all = pair_views(ents@);
    let mut out = String::new();
    let mut i: usize = 0;
    proof { reveal_strlit(""); }
    assert(all.take(0) =~= Seq::<(Seq<char>, Seq<char>)>::empty());
    while i < ents.len()
        invariant
            i <= ents@.len(),
            all == pair_views(ents@),
            out@ == if numbered { numbered_entries(all.take(i as int)) } else { entry_lines(all.take(i as int)) },
        decreases ents@.len() - i,
    {
        let ghost before = out@;
        assert(all.take(i + 1).drop_last() =~= all.take(i as int));
        assert(all.take(i + 1).last() == (ents@[i as int].0@, ents@[i as int].1@));
        if numbered {
            out.append(usize_to_string(i + 1).as_str());
            out.append(". ");
            out.append(ents[i].0.as_str());
            out.append(" — ");
            out.append(ents[i].1.as_str());
            out.append("\n");
            assert(out@ =~= before + decimal((i + 1) as nat) + ". "@ + ents@[i as int].0@ + " — "@ + ents@[i as int].1@ + "\n"@);
        } else {
            out.append("  ");
            out.append(ents[i].0.as_str());
            out.append("\t");
            out.append(ents[i].1.as_str());
            out.append("\n");
            assert(out@ =~= before + "  "@ + ents@[i as int].0@ + "\t"@ + ents@[i as int].1@ + "\n"@);
        }
        i = i + 1;
    }
    assert(all.take(ents@.len() as int) =~= all);
    out
}

fn issue_lines_text(issues: &Vec<ValidationIssue>, catalog: &Vec<ReferencedRule>, numbered: bool) -> (res: String)
    ensures
        res@ == if numbered { numbered_issues(catalog@, issues@) } else { issue_lines(issues@) },
{
    let mut out = String::new();
    let mut i: usize = 0;
    proof { reveal_strlit(""); }
    assert(issues@.take(0) =~= Seq::<ValidationIssue>::empty());
    while i < issues.len()
        invariant
            i <= issues@.len(),
            out@ == if numbered { numbered_issues(catalog@, issues@.take(i as int)) } else { issue_lines(issues@.take(i as int)) },
        decreases issues@.len() - i,
    {
        let ghost before = out@;
        let issue = &issues[i];
        assert(issues@.take(i + 1).drop_last() =~= issues@.take(i as int));
        if numbered {
            out.append(usize_to_string(i + 1).as_str());
            out.append(". [");
            out.append(severity_name(issue.severity));
            out.append("] ");
            out.append(issue.code.as_str());
            out.append(" — ");
            match rule_by_code(issue.code.as_str(), catalog) {
                Some(k) => out.append(catalog[k].title.as_str()),
                None => out.append("Unknown rule"),
            }
            out.append("\n");
            assert(out@ =~= before + decimal((i + 1) as nat) + ". ["@ + severity_debug(issue.severity) + "] "@ + issue.code@ + " — "@
                + rule_title_or_unknown(catalog@, issue.code@) + "\n"@);
        } else {
            out.append("  [");
            out.append(issue.code.as_str());
            out.append("] ");
            out.append(issue.subject.as_str());
            out.append("\n");
            assert(out@ =~= before + "  ["@ + issue.code@ + "] "@ + issue.subject@ + "\n"@);
        }
        i = i + 1;
    }
    assert(issues@.take(issues@.len() as int) =~= issues@);
    out
}

impl BrowseState {
    /// The heading block of a screen.
    pub fn summary(&self, heading: &str) -> (res: String)
        ensures
            res@ == summary_spec(*self, heading@),
    {
        let c = self.result.definition_counts;
        let mut out = String::from_str("\n=== ");
        out.append(heading);
        out.append(" ===\nworkspace: ");
        out.append(self.result.workspace_root.as_str());
        out.append("\nphilosophy=");
        out.append(usize_to_string(c.philosophies).as_str());
        out.append(" policy=");
        out.append(usize_to_string(c.policies).as_str());
        out.append(" feature=");
        out.append(usize_to_string(c.features).as_str());
        out.append(" requirement=");
        out.append(usize_to_string(c.requirements).as_str());
        out.append(" errors=");
        out.append(usize_to_string(self.result.issues.len()).as_str());
        out.append("\n\n");
        out
    }

    fn layer_section_text(&self, heading: &str, kind: LookupKind) -> (res: String)
        ensures
            res@ == layer_section(*self, heading@, kind),
    {
        let ents = self.entity_entries(kind);
        let mut out = String::from_str("=== ");
        out.append(heading);
        out.append(" (");
        out.append(usize_to_string(ents.len()).as_str());
        out.append(") ===\n");
        out.append(entry_lines_text(&ents, false).as_str());
        out.append("\n");
        out
    }
}


impl BrowseState {
    /// `syu browse --non-interactive`.
    pub fn tree_text(&self) -> (res: String)
        ensures
            res@ == tree_spec(*self),
    {
        let mut out = self.summary("syu spec tree");
        out.append(self.layer_section_text("philosophy", LookupKind::Philosophy).as_str());
        out.append(self.layer_section_text("policy", LookupKind::Policy).as_str());
        out.append(self.layer_section_text("requirement", LookupKind::Requirement).as_str());
        out.append(self.layer_section_text("feature", LookupKind::Feature).as_str());
        if self.result.issues.len() > 0 {
            out.append("=== errors (");
            out.append(usize_to_string(self.result.issues.len()).as_str());
            out.append(") ===\n");
            let empty: Vec<ReferencedRule> = Vec::new();
            out.append(issue_lines_text(&self.result.issues, &empty, false).as_str());
            out.append("\n");
        }
        out
    }

    /// The top-level menu screen.
    pub fn menu_text(&self) -> (res: String)
        ensures
            res@ == menu_spec(*self),
    {
        let c = self.result.definition_counts;
        let mut out = self.summary("syu interactive browser");
        out.append("1. philosophy (");
        out.append(usize_to_string(c.philosophies).as_str());
        out.append(")\n2. policy (");
        out.append(usize_to_string(c.policies).as_str());
        out.append(")\n3. feature (");
        out.append(usize_to_string(c.features).as_str());
        out.append(")\n4. requirement (");
        out.append(usize_to_string(c.requirements).as_str());
        out.append(")\n5. errors (");
        out.append(usize_to_string(self.result.issues.len()).as_str());
        out.append(")\n0. exit\n");
        out
    }

    /// The list screen of a layer.
    pub fn list_text(&self, kind: LookupKind) -> (res: String)
        ensures
            res@ == list_screen_spec(*self, kind),
    {
        let mut out = self.summary(kind.label());
        let ents = self.entity_entries(kind);
        if ents.len() == 0 {
            out.append("No ");
            out.append(kind.label());
            out.append(" entries are currently available.\n");
        } else {
            out.append(entry_lines_text(&ents, true).as_str());
            out.append("0. back\n");
        }
        out
    }

    /// The screen that lists the validation issues.
    pub fn error_list_text(&self, catalog: &Vec<ReferencedRule>) -> (res: String)
        ensures
            res@ == error_list_spec(*self, catalog@),
    {
        let mut out = self.summary("validation errors");
        if self.result.issues.len() == 0 {
            out.append("No validation issues are currently reported.\n");
        } else {
            out.append(issue_lines_text(&self.result.issues, catalog, true).as_str());
            out.append("0. back\n");
        }
        out
    }

    /// The screen of one validation issue.
    pub fn error_detail_text(&self, catalog: &Vec<ReferencedRule>, index: usize) -> (res: String)
        requires
            index < self.result.issues@.len(),
        ensures
            res@ == error_detail_spec(*self, catalog@, index as int),
    {
        let issue = &self.result.issues[index];
        let mut out = self.summary("error detail");
        out.append(issue_fields_text(issue).as_str());
        out.append(rule_fields_text(issue.code.as_str(), catalog).as_str());
        out
    }
}

pub open spec fn issue_fields(issue: ValidationIssue) -> Seq<char> {
    "Code: "@ + issue.code@ + "\nSeverity: "@ + severity_debug(issue.severity) + "\nSubject: "@ + issue.subject@ + "\nLocation: "@
        + match issue.location {
        Some(l) => l@,
        None => "-"@,
    } + "\nMessage: "@ + issue.message@ + "\n"@ + match issue.suggestion {
        Some(t) => "Suggestion: "@ + t@ + "\n"@,
        None => Seq::empty(),
    }
}

pub open spec fn rule_fields(catalog: Seq<ReferencedRule>, code: Seq<char>) -> Seq<char> {
    match find_rule(catalog, code) {
        Some(r) => "Rule genre: "@ + r.genre@ + "\nRule title: "@ + r.title@ + "\nRule summary: "@ + r.summary@
            + "\nRule description: "@ + collapse_seq(r.description@) + "\n"@,
        None => Seq::empty(),
    }
}

fn issue_fields_text(issue: &ValidationIssue) -> (res: String)
    ensures
        res@ == issue_fields(*issue),
{
    let mut out = String::from_str("Code: ");
    out.append(issue.code.as_str());
    out.append("\nSeverity: ");
    out.append(severity_name(issue.severity));
    out.append("\nSubject: ");
    out.append(issue.subject.as_str());
    out.append("\nLocation: ");
    match &issue.location {
        Some(l) => out.append(l.as_str()),
        None => out.append("-"),
    }
    out.append("\nMessage: ");
    out.append(issue.message.as_str());
    out.append("\n");
    match &issue.suggestion {
        Some(t) => {
            out.append("Suggestion: ");
            out.append(t.as_str());
            out.append("\n");
        },
        None => {},
    }
    out
}

fn rule_fields_text(code: &str, catalog: &Vec<ReferencedRule>) -> (res: String)
    ensures
        res@ == rule_fields(catalog@, code@),
{
    match rule_by_code(code, catalog) {
        Some(k) => {
            let r = &catalog[k];
            let mut out = String::from_str("Rule genre: ");
            out.append(r.genre.as_str());
            out.append("\nRule title: ");
            out.append(r.title.as_str());
            out.append("\nRule summary: ");
            out.append(r.summary.as_str());
            out.append("\nRule description: ");
            out.append(collapse_whitespace(r.description.as_str()).as_str());
            out.append("\n");
            out
        },
        None => {
            proof { reveal_strlit(""); }
            String::new()
        },
    }
}

// ---------------------------------------------------------------------------
// Navigation
// ---------------------------------------------------------------------------

/// A screen of the interactive browser.
#[derive(Debug)]
pub enum BrowseView {
    Menu,
    List(LookupKind),
    Detail(EntityRef),
    Errors,
    ErrorDetail(usize),
}

/// The answer to a numbered prompt: a number up to `max`, where `q` and
/// `quit` (in any case) mean 0; anything else is asked again.
pub open spec fn menu_choice_spec(raw: Seq<char>, max: nat) -> Option<nat> {
    let t = trim_seq(raw);
    if lower_seq(t) == "q"@ || lower_seq(t) == "quit"@ {
        Some(0)
    } else if t.len() > 0 && (forall|i: int| 0 <= i < t.len() ==> is_digit(#[trigger] t[i])) && digits_value(t) <= max {
        Some(digits_value(t))
    } else {
        None
    }
}

/// Reads the answer to a numbered prompt; `Err` holds the message to show
/// before asking again.
pub fn parse_menu_choice(raw: &str, max: usize) -> (res: Result<usize, String>)
    ensures
        match res {
            Ok(v) => menu_choice_spec(raw@, max as nat) == Some(v as nat),
            Err(e) => menu_choice_spec(raw@, max as nat).is_none()
                && e@ == "Please enter a number between 0 and "@ + decimal(max as nat) + "."@,
        },
{
    let t = trim(raw);
    let lower = to_lower(t.as_str());
    if str_eq(lower.as_str(), "q") || str_eq(lower.as_str(), "quit") {
        return Ok(0);
    }
    let n = t.as_str().unicode_len();
    let mut value: usize = 0;
    let mut i: usize = 0;
    let mut ok = n > 0;
    assert(t@.take(0) =~= Seq::<char>::empty());
    while ok && i < n
        invariant
            n == t@.len(),
            i <= n,
            ok ==> forall|k: int| 0 <= k < i ==> is_digit(#[trigger] t@[k]),
            ok ==> value == digits_value(t@.take(i as int)),
            ok ==> value <= max,
            !ok ==> menu_choice_spec(raw@, max as nat).is_none(),
            lower@ == lower_seq(t@),
            t@ == trim_seq(raw@),
            lower@ != "q"@ && lower@ != "quit"@,
            n == 0 ==> !ok,
        decreases n - i, if ok { 1int } else { 0int },
    {
        let c = t.as_str().get_char(i);
        if !('0' <= c && c <= '9') {
            assert(!is_digit(t@[i as int]));
            ok = false;
        } else {
            assert(t@.take(i + 1).drop_last() =~= t@.take(i as int));
            assert(t@.take(i + 1).last() == c);
            let d = (c as u32 - '0' as u32) as usize;
            let next = match value.checked_mul(10) {
                Some(m) => m.checked_add(d),
                None => None,
            };
            match next {
                Some(v) if v <= max => {
                    value = v;
                    i = i + 1;
                },
                _ => {
                    proof {
                        if forall|k: int| 0 <= k < t@.len() ==> is_digit(#[trigger] t@[k]) {
                            lemma_digits_grow(t@, i as int + 1);
                        }
                        assert(digits_value(t@.take(i + 1)) == value * 10 + d);
                    }
                    ok = false;
                },
            }
        }
    }
    if ok {
        assert(t@.take(n as int) =~= t@);
        Ok(value)
    } else {
        let mut e = String::from_str("Please enter a number between 0 and ");
        e.append(usize_to_string(max).as_str());
        e.append(".");
        Err(e)
    }
}

/// How many numbered choices a screen offers.
pub open spec fn choice_limit(s: BrowseState, view: BrowseView) -> nat {
    match view {
        BrowseView::Menu => 5,
        BrowseView::List(kind) => state_entries(s, kind).len(),
        BrowseView::Detail(e) => detail_links_spec(s, e.kind, e.id@).len(),
        BrowseView::Errors => s.result.issues@.len(),
        BrowseView::ErrorDetail(_) => 0,
    }
}

/// The section of the top-level menu that a choice opens.
pub open spec fn menu_target(choice: nat) -> BrowseView {
    if choice == 1 {
        BrowseView::List(LookupKind::Philosophy)
    } else if choice == 2 {
        BrowseView::List(LookupKind::Policy)
    } else if choice == 3 {
        BrowseView::List(LookupKind::Feature)
    } else if choice == 4 {
        BrowseView::List(LookupKind::Requirement)
    } else {
        BrowseView::Errors
    }
}

pub open spec fn same_view(a: BrowseView, b: BrowseView) -> bool {
    match (a, b) {
        (BrowseView::Detail(x), BrowseView::Detail(y)) => x.kind == y.kind && x.id@ == y.id@,
        _ => a == b,
    }
}

/// Where a choice on a screen leads; `None` leaves the browser. No choice
/// (end of input) and 0 go back, or leave from the menu.
pub open spec fn next_view_spec(s: BrowseState, view: BrowseView, choice: Option<nat>, res: Option<BrowseView>) -> bool {
    let back = choice is None || choice == Some(0nat);
    match view {
        BrowseView::Menu => if back { res is None } else { res is Some && same_view(res->Some_0, menu_target(choice->Some_0)) },
        BrowseView::List(kind) => res is Some && if back {
            res->Some_0 == BrowseView::Menu
        } else {
            res->Some_0 matches BrowseView::Detail(e) && e.kind == kind && e.id@ == state_entries(s, kind)[choice->Some_0 - 1].0
        },
        BrowseView::Detail(cur) => res is Some && if back {
            res->Some_0 == BrowseView::List(cur.kind)
        } else {
            res->Some_0 matches BrowseView::Detail(e) && e.kind == detail_links_spec(s, cur.kind, cur.id@)[choice->Some_0 - 1].kind
                && e.id@ == detail_links_spec(s, cur.kind, cur.id@)[choice->Some_0 - 1].id
        },
        BrowseView::Errors => res is Some && if back {
            res->Some_0 == BrowseView::Menu
        } else {
            res->Some_0 == BrowseView::ErrorDetail((choice->Some_0 - 1) as usize)
        },
        BrowseView::ErrorDetail(_) => res == Some(BrowseView::Errors),
    }
}

pub open spec fn opt_nat(o: Option<usize>) -> Option<nat> {
    match o {
        Some(v) => Some(v as nat),
        None => None,
    }
}

impl BrowseState {
    /// The screen that a choice leads to.
    pub fn next_view(&self, view: &BrowseView, choice: Option<usize>) -> (res: Option<BrowseView>)
        requires
            link_counts_fit(*self),
            choice matches Some(c) ==> c <= choice_limit(*self, *view),
        ensures
            next_view_spec(*self, *view, opt_nat(choice), res),
    {
        let back = match choice {
            Some(c) => c == 0,
            None => true,
        };
        match view {
            BrowseView::Menu => {
                if back {
                    None
                } else {
                    let c = choice.unwrap();
                    if c == 1 {
                        Some(BrowseView::List(LookupKind::Philosophy))
                    } else if c == 2 {
                        Some(BrowseView::List(LookupKind::Policy))
                    } else if c == 3 {
                        Some(BrowseView::List(LookupKind::Feature))
                    } else if c == 4 {
                        Some(BrowseView::List(LookupKind::Requirement))
                    } else {
                        Some(BrowseView::Errors)
                    }
                }
            },
            BrowseView::List(kind) => {
                if back {
                    Some(BrowseView::Menu)
                } else {
                    let c = choice.unwrap();
                    let ents = self.entity_entries(*kind);
                    assert(pair_views(ents@)[c - 1].0 == ents@[c - 1].0@);
                    Some(BrowseView::Detail(EntityRef { kind: *kind, id: ents[c - 1].0.clone() }))
                }
            },
            BrowseView::Detail(cur) => {
                if back {
                    Some(BrowseView::List(cur.kind))
                } else {
                    let c = choice.unwrap();
                    let (_, linked) = self.detail(cur.kind, cur.id.as_str());
                    assert(ref_views(linked@)[c - 1].id == linked@[c - 1].id@);
                    Some(BrowseView::Detail(linked[c - 1].duplicate()))
                }
            },
            BrowseView::Errors => {
                if back {
                    Some(BrowseView::Menu)
                } else {
                    Some(BrowseView::ErrorDetail(choice.unwrap() - 1))
                }
            },
            BrowseView::ErrorDetail(_) => Some(BrowseView::Errors),
        }
    }
}

} // verus!
