use vstd::prelude::*;

use crate::browser::{DefinitionCounts, ReferencedRule, TraceSummary, ValidationIssue};

verus! {

/// One traced file with the symbols and documentation snippets it must hold.
#[derive(Debug)]
pub struct TraceReference {
    pub file: String,
    pub symbols: Vec<String>,
    pub doc_contains: Vec<String>,
}

/// The trace references of one language: one entry of a `tests` or
/// `implementations` map, keyed by language.
#[derive(Debug)]
pub struct TraceGroup {
    pub language: String,
    pub references: Vec<TraceReference>,
}

/// The languages of a trace map, in order.
pub open spec fn trace_languages(groups: Seq<TraceGroup>) -> Seq<Seq<char>> {
    Seq::new(groups.len(), |i: int| groups[i].language@)
}

/// A trace map holds one group per language, in ascending language order,
/// as a map keyed by language keeps its entries.
pub open spec fn languages_ascending(groups: Seq<TraceGroup>) -> bool {
    crate::order::strictly_sorted(trace_languages(groups))
}

/// Puts a language's references into a trace map as `BTreeMap::insert`
/// does: the group replaces the one of the same language, or else goes in at
/// its place in language order; every other group stays.
pub fn insert_trace_group(groups: &mut Vec<TraceGroup>, group: TraceGroup)
    requires
        languages_ascending(old(groups)@),
    ensures
        languages_ascending(final(groups)@),
        final(groups)@.contains(group),
        forall|j: int| 0 <= j < final(groups)@.len() ==> #[trigger] final(groups)@[j] == group
            || (final(groups)@[j].language@ != group.language@ && old(groups)@.contains(final(groups)@[j])),
        forall|i: int| 0 <= i < old(groups)@.len() && (#[trigger] old(groups)@[i]).language@ != group.language@
            ==> final(groups)@.contains(old(groups)@[i]),
{
    let ghost old_g = groups@;
    let ghost old_v = trace_languages(old_g);
    let ghost key = group.language@;
    let mut p: usize = 0;
    while p < groups.len() && crate::order::str_order(groups[p].language.as_str(), group.language.as_str()) < 0
        invariant
            p <= groups.len(),
            groups@ == old_g,
            trace_languages(groups@) == old_v,
            key == group.language@,
            forall|k: int| 0 <= k < p ==> crate::order::seq_order(#[trigger] old_v[k], key) < 0,
        decreases groups.len() - p,
    {
        p = p + 1;
    }
    if p < groups.len() && crate::order::str_order(groups[p].language.as_str(), group.language.as_str()) == 0 {
        proof {
            crate::order::lemma_order_eq(old_v[p as int], key);
            assert(old_g[p as int].language@ == old_v[p as int]);
        }
        groups.set(p, group);
        proof {
            assert(trace_languages(groups@) =~= old_v);
            assert(groups@[p as int] == group);
            assert forall|i: int| 0 <= i < old_g.len() && (#[trigger] old_g[i]).language@ != key implies groups@.contains(old_g[i]) by {
                assert(i != p);
                assert(groups@[i] == old_g[i]);
            }
            assert forall|j: int| 0 <= j < groups@.len() implies #[trigger] groups@[j] == group
                || (groups@[j].language@ != key && old_g.contains(groups@[j])) by {
                if j != p {
                    assert(groups@[j] == old_g[j]);
                    assert(old_v[j] != old_v[p as int]) by {
                        if j < p {
                            assert(crate::order::seq_order(old_v[j], old_v[p as int]) < 0);
                        } else {
                            assert(crate::order::seq_order(old_v[p as int], old_v[j]) < 0);
                            crate::order::lemma_order_eq(old_v[p as int], old_v[j]);
                        }
                        crate::order::lemma_order_eq(old_v[j], old_v[p as int]);
                    }
                }
            }
        }
        return;
    }
    proof {
        if p < old_v.len() {
            crate::order::lemma_order_range(old_v[p as int], key);
            crate::order::lemma_order_antisym(old_v[p as int], key);
        }
    }
    groups.insert(p, group);
    let ghost nv = trace_languages(groups@);
    assert(groups@ =~= old_g.insert(p as int, group));
    assert(nv =~= old_v.insert(p as int, key));
    assert forall|a: int, b: int| 0 <= a < b < nv.len() implies crate::order::seq_order(#[trigger] nv[a], #[trigger] nv[b]) < 0 by {
        if b == p {
        } else if a == p {
            crate::order::lemma_order_eq(old_v[p as int], old_v[p as int]);
            if b - 1 > p {
                assert(crate::order::seq_order(old_v[p as int], old_v[b - 1]) < 0);
            }
            crate::order::lemma_order_trans(key, old_v[p as int], old_v[b - 1]);
        } else if a < p && b > p {
            assert(nv[a] == old_v[a]);
            assert(nv[b] == old_v[b - 1]);
        } else if a > p {
            assert(nv[a] == old_v[a - 1]);
            assert(nv[b] == old_v[b - 1]);
        }
    }
    assert(groups@[p as int] == group);
    assert forall|i: int| 0 <= i < old_g.len() && (#[trigger] old_g[i]).language@ != key implies groups@.contains(old_g[i]) by {
        if i < p {
            assert(groups@[i] == old_g[i]);
        } else {
            assert(groups@[i + 1] == old_g[i]);
        }
    }
    assert forall|j: int| 0 <= j < groups@.len() implies #[trigger] groups@[j] == group
        || (groups@[j].language@ != key && old_g.contains(groups@[j])) by {
        if j < p {
            assert(groups@[j] == old_g[j]);
            assert(crate::order::seq_order(old_v[j], key) < 0);
            crate::order::lemma_order_eq(old_v[j], key);
        } else if j > p {
            assert(groups@[j] == old_g[j - 1]);
            assert(crate::order::seq_order(nv[p as int], nv[j]) < 0);
            crate::order::lemma_order_eq(key, old_v[j - 1]);
        }
    }
}

#[derive(Debug)]
pub struct Philosophy {
    pub id: String,
    pub title: String,
    pub product_design_principle: String,
    pub coding_guideline: String,
    pub linked_policies: Vec<String>,
}

#[derive(Debug)]
pub struct Policy {
    pub id: String,
    pub title: String,
    pub summary: String,
    pub description: String,
    pub linked_philosophies: Vec<String>,
    pub linked_requirements: Vec<String>,
}

#[derive(Debug)]
pub struct Requirement {
    pub id: String,
    pub title: String,
    pub description: String,
    pub priority: String,
    pub status: String,
    pub linked_policies: Vec<String>,
    pub linked_features: Vec<String>,
    pub tests: Vec<TraceGroup>,
}

#[derive(Debug)]
pub struct Feature {
    pub id: String,
    pub title: String,
    pub summary: String,
    pub status: String,
    pub linked_requirements: Vec<String>,
    pub implementations: Vec<TraceGroup>,
}

/// The `validate` section of `syu.yaml`.
#[derive(Debug, Clone, Copy, PartialEq, Eq, Structural)]
pub struct ValidateConfig {
    pub default_fix: bool,
    pub allow_planned: bool,
    pub require_non_orphaned_items: bool,
    pub require_symbol_trace_coverage: bool,
}

impl ValidateConfig {
    /// The defaults that `syu init` writes.
    pub fn default_settings() -> (res: ValidateConfig)
        ensures
            !res.default_fix,
            res.allow_planned,
            res.require_non_orphaned_items,
            !res.require_symbol_trace_coverage,
    {
        ValidateConfig {
            default_fix: false,
            allow_planned: true,
            require_non_orphaned_items: true,
            require_symbol_trace_coverage: false,
        }
    }
}

/// The outcome of one validation run.
#[derive(Debug)]
pub struct CheckResult {
    pub workspace_root: String,
    pub definition_counts: DefinitionCounts,
    pub trace_summary: TraceSummary,
    pub issues: Vec<ValidationIssue>,
    pub referenced_rules: Vec<ReferencedRule>,
}

} // verus!
