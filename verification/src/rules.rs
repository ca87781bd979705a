use vstd::prelude::*;

use crate::browser::{ReferencedRule, ValidationIssue};
use crate::text::{split_char, split_seq, str_eq, views};

verus! {

pub open spec fn is_genre(g: Seq<char>) -> bool {
    g == "workspace"@ || g == "graph"@ || g == "delivery"@ || g == "trace"@ || g == "coverage"@
}

/// The rule genre that a code names: `SYU-<genre>-...`.
pub open spec fn genre_of(code: Seq<char>) -> Option<Seq<char>> {
    let parts = split_seq(code, '-');
    if parts.len() >= 2 && parts[0] == "SYU"@ && is_genre(parts[1]) {
        Some(parts[1])
    } else {
        None
    }
}

/// The genre of a rule code, when the code names one.
pub fn rule_genre(code: &str) -> (res: Option<String>)
    ensures
        match res {
            Some(g) => genre_of(code@) == Some(g@),
            None => genre_of(code@).is_none(),
        },
{
    let parts = split_char(code, '-');
    if parts.len() >= 2 && str_eq(parts[0].as_str(), "SYU") {
        let g = parts[1].as_str();
        if str_eq(g, "workspace") || str_eq(g, "graph") || str_eq(g, "delivery") || str_eq(g, "trace")
            || str_eq(g, "coverage") {
            return Some(parts[1].clone());
        }
    }
    None
}

pub open spec fn issue_codes(issues: Seq<ValidationIssue>) -> Seq<Seq<char>> {
    Seq::new(issues.len(), |i: int| issues[i].code@)
}

pub open spec fn rule_code_views(rules: Seq<ReferencedRule>) -> Seq<Seq<char>> {
    Seq::new(rules.len(), |i: int| rules[i].code@)
}

/// The rules of the catalog that some diagnostic uses, in catalog order.
pub open spec fn used_rules(catalog: Seq<ReferencedRule>, codes: Seq<Seq<char>>) -> Seq<Seq<char>>
    decreases catalog.len(),
{
    if catalog.len() == 0 {
        Seq::empty()
    } else {
        let prev = used_rules(catalog.drop_last(), codes);
        if codes.contains(catalog.last().code@) {
            prev.push(catalog.last().code@)
        } else {
            prev
        }
    }
}

fn uses_code(issues: &Vec<ValidationIssue>, code: &str) -> (res: bool)
    ensures
        res == issue_codes(issues@).contains(code@),
{
    let mut i: usize = 0;
    while i < issues.len()
        invariant
            i <= issues.len(),
            forall|k: int| 0 <= k < i ==> issues@[k].code@ != code@,
        decreases issues.len() - i,
    {
        if str_eq(issues[i].code.as_str(), code) {
            assert(issue_codes(issues@)[i as int] == code@);
            return true;
        }
        i = i + 1;
    }
    assert forall|k: int| 0 <= k < issue_codes(issues@).len() implies issue_codes(issues@)[k] != code@ by {}
    false
}

/// The catalog entries for the rules that the diagnostics refer to.
pub fn referenced_rules(issues: &Vec<ValidationIssue>, catalog: &Vec<ReferencedRule>) -> (res: Vec<ReferencedRule>)
    ensures
        rule_code_views(res@) == used_rules(catalog@, issue_codes(issues@)),
        forall|i: int| 0 <= i < res@.len() ==> exists|k: int| 0 <= k < catalog@.len() &&
            #[trigger] res@[i].title@ == catalog@[k].title@ && res@[i].code@ == catalog@[k].code@,
{
    let mut out: Vec<ReferencedRule> = Vec::new();
    let mut i: usize = 0;
    assert(catalog@.take(0) =~= Seq::<ReferencedRule>::empty());
    while i < catalog.len()
        invariant
            i <= catalog.len(),
            rule_code_views(out@) == used_rules(catalog@.take(i as int), issue_codes(issues@)),
            forall|j: int| 0 <= j < out@.len() ==> exists|k: int| 0 <= k < catalog@.len() &&
                #[trigger] out@[j].title@ == catalog@[k].title@ && out@[j].code@ == catalog@[k].code@,
        decreases catalog.len() - i,
    {
        assert(catalog@.take(i + 1).drop_last() =~= catalog@.take(i as int));
        assert(catalog@.take(i + 1).last() == catalog@[i as int]);
        if uses_code(issues, catalog[i].code.as_str()) {
            let r = catalog[i].duplicate();
            let ghost before = out@;
            out.push(r);
            assert(out@ == before.push(r));
            assert(rule_code_views(out@) =~= rule_code_views(before).push(r.code@));
            assert forall|j: int| 0 <= j < out@.len() implies exists|k: int| 0 <= k < catalog@.len() &&
                #[trigger] out@[j].title@ == catalog@[k].title@ && out@[j].code@ == catalog@[k].code@ by {
                if j == out@.len() - 1 {
                    assert(out@[j].title@ == catalog@[i as int].title@);
                } else {
                    assert(out@[j] == before[j]);
                }
            }
        }
        i = i + 1;
    }
    assert(catalog@.take(catalog.len() as int) =~= catalog@);
    out
}

/// The first catalog entry with the given code.
pub open spec fn find_rule(catalog: Seq<ReferencedRule>, code: Seq<char>) -> Option<ReferencedRule>
    decreases catalog.len(),
{
    if catalog.len() == 0 {
        None
    } else if catalog[0].code@ == code {
        Some(catalog[0])
    } else {
        find_rule(catalog.drop_first(), code)
    }
}

proof fn lemma_find_rule_at(catalog: Seq<ReferencedRule>, code: Seq<char>, k: int)
    requires
        0 <= k < catalog.len(),
        catalog[k].code@ == code,
        forall|j: int| 0 <= j < k ==> catalog[j].code@ != code,
    ensures
        find_rule(catalog, code) == Some(catalog[k]),
    decreases k,
{
    if k > 0 {
        let rest = catalog.drop_first();
        assert forall|j: int| 0 <= j < k - 1 implies rest[j].code@ != code by {
            assert(rest[j] == catalog[j + 1]);
        }
        lemma_find_rule_at(rest, code, k - 1);
    }
}

proof fn lemma_find_rule_none(catalog: Seq<ReferencedRule>, code: Seq<char>)
    requires
        forall|j: int| 0 <= j < catalog.len() ==> catalog[j].code@ != code,
    ensures
        find_rule(catalog, code).is_none(),
    decreases catalog.len(),
{
    if catalog.len() > 0 {
        let rest = catalog.drop_first();
        assert forall|j: int| 0 <= j < rest.len() implies rest[j].code@ != code by {
            assert(rest[j] == catalog[j + 1]);
        }
        lemma_find_rule_none(rest, code);
    }
}

/// The catalog entry of a rule code.
pub fn rule_by_code(code: &str, catalog: &Vec<ReferencedRule>) -> (res: Option<usize>)
    ensures
        match res {
            Some(k) => k < catalog@.len() && catalog@[k as int].code@ == code@ && forall|j: int|
                0 <= j < k ==> catalog@[j].code@ != code@,
            None => !rule_code_views(catalog@).contains(code@),
        },
        match res {
            Some(k) => find_rule(catalog@, code@) == Some(catalog@[k as int]),
            None => find_rule(catalog@, code@).is_none(),
        },
{
    let mut i: usize = 0;
    while i < catalog.len()
        invariant
            i <= catalog.len(),
            forall|j: int| 0 <= j < i ==> catalog@[j].code@ != code@,
        decreases catalog.len() - i,
    {
        if str_eq(catalog[i].code.as_str(), code) {
            proof { lemma_find_rule_at(catalog@, code@, i as int); }
            return Some(i);
        }
        i = i + 1;
    }
    assert forall|j: int| 0 <= j < rule_code_views(catalog@).len() implies rule_code_views(catalog@)[j] != code@ by {}
    proof { lemma_find_rule_none(catalog@, code@); }
    None
}

} // verus!
