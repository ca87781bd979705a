//! `syu list`: reading its positional arguments, suggesting a layer for a
//! mistyped one, and the listing itself.
use vstd::prelude::*;

use crate::cli::{LookupKind, lookup_kind_label_spec};
use crate::lookup::{summary_views, EntitySummary};
use crate::text::{decimal, lower_char, lower_seq, str_eq, to_lower, usize_to_string};

verus! {

/// A layer named on the command line: its name or plural, in any ASCII case.
pub open spec fn kind_name_spec(s: Seq<char>) -> Option<LookupKind> {
    let l = lower_seq(s);
    if l == "philosophy"@ || l == "philosophies"@ {
        Some(LookupKind::Philosophy)
    } else if l == "policy"@ || l == "policies"@ {
        Some(LookupKind::Policy)
    } else if l == "requirement"@ || l == "requirements"@ {
        Some(LookupKind::Requirement)
    } else if l == "feature"@ || l == "features"@ {
        Some(LookupKind::Feature)
    } else {
        None
    }
}

/// Every layer is named on the command line by its singular or its plural
/// name, in any ASCII case: `feature`, `Features` and `FEATURES` all name the
/// feature layer, and likewise for philosophies, policies and requirements.
pub proof fn lemma_layer_names_parse(s: Seq<char>)
    ensures
        (lower_seq(s) == "philosophy"@ || lower_seq(s) == "philosophies"@) ==> kind_name_spec(s) == Some(LookupKind::Philosophy),
        (lower_seq(s) == "policy"@ || lower_seq(s) == "policies"@) ==> kind_name_spec(s) == Some(LookupKind::Policy),
        (lower_seq(s) == "requirement"@ || lower_seq(s) == "requirements"@) ==> kind_name_spec(s) == Some(LookupKind::Requirement),
        (lower_seq(s) == "feature"@ || lower_seq(s) == "features"@) ==> kind_name_spec(s) == Some(LookupKind::Feature),
{
    reveal_strlit("philosophy");
    reveal_strlit("philosophies");
    reveal_strlit("policy");
    reveal_strlit("policies");
    reveal_strlit("requirement");
    reveal_strlit("requirements");
    reveal_strlit("feature");
    reveal_strlit("features");
    assert("philosophy"@.len() == 10 && "philosophies"@.len() == 12 && "policy"@.len() == 6 && "policies"@.len() == 8);
    assert("requirement"@.len() == 11 && "requirements"@.len() == 12 && "feature"@.len() == 7 && "features"@.len() == 8);
    assert("requirements"@ != "philosophies"@) by {
        assert("requirements"@[0] != "philosophies"@[0]);
    }
    assert("policies"@ != "features"@) by {
        assert("policies"@[0] != "features"@[0]);
    }
}

pub fn parse_kind_name(s: &str) -> (res: Option<LookupKind>)
    ensures
        res == kind_name_spec(s@),
{
    let l = to_lower(s);
    let l = l.as_str();
    if str_eq(l, "philosophy") || str_eq(l, "philosophies") {
        Some(LookupKind::Philosophy)
    } else if str_eq(l, "policy") || str_eq(l, "policies") {
        Some(LookupKind::Policy)
    } else if str_eq(l, "requirement") || str_eq(l, "requirements") {
        Some(LookupKind::Requirement)
    } else if str_eq(l, "feature") || str_eq(l, "features") {
        Some(LookupKind::Feature)
    } else {
        None
    }
}

pub open spec fn min_nat(a: nat, b: nat) -> nat {
    if a <= b { a } else { b }
}

/// The edit distance between two strings: the fewest insertions, deletions
/// and substitutions of characters that turn one into the other.
pub open spec fn edit_distance(a: Seq<char>, b: Seq<char>) -> nat
    decreases a.len() + b.len(),
{
    if a.len() == 0 {
        b.len()
    } else if b.len() == 0 {
        a.len()
    } else {
        min_nat(
            min_nat(edit_distance(a.drop_last(), b) + 1, edit_distance(a, b.drop_last()) + 1),
            edit_distance(a.drop_last(), b.drop_last()) + if a.last() == b.last() { 0nat } else { 1nat },
        )
    }
}

proof fn lemma_edit_distance_bound(a: Seq<char>, b: Seq<char>)
    ensures
        edit_distance(a, b) <= if a.len() >= b.len() { a.len() } else { b.len() },
    decreases a.len() + b.len(),
{
    if a.len() > 0 && b.len() > 0 {
        lemma_edit_distance_bound(a.drop_last(), b.drop_last());
    }
}

fn chars_of(s: &str) -> (res: Vec<char>)
    ensures
        res@ == s@,
{
    let mut out: Vec<char> = Vec::new();
    let n = s.unicode_len();
    let mut i: usize = 0;
    while i < n
        invariant
            n == s@.len(),
            i <= n,
            out@ == s@.take(i as int),
        decreases n - i,
    {
        out.push(s.get_char(i));
        assert(out@ =~= s@.take(i + 1));
        i = i + 1;
    }
    assert(s@.take(n as int) =~= s@);
    out
}

/// The edit distance, row by row.
pub fn levenshtein_distance(left: &str, right: &str) -> (res: usize)
    ensures
        res == edit_distance(left@, right@),
{
    let a = chars_of(left);
    let b = chars_of(right);
    let m = b.len();
    let mut previous: Vec<u128> = Vec::new();
    previous.push(0);
    assert(a@.take(0).len() == 0);
    assert(b@.take(0).len() == 0);
    let mut j: usize = 0;
    while j < m
        invariant
            m == b@.len(),
            j <= m,
            previous@.len() == j + 1,
            forall|k: int| 0 <= k <= j ==> previous@[k] == edit_distance(a@.take(0), b@.take(k)),
        decreases m - j,
    {
        j = j + 1;
        assert(a@.take(0).len() == 0);
        previous.push(j as u128);
    }
    let mut i: usize = 0;
    while i < a.len()
        invariant
            m == b@.len(),
            i <= a@.len(),
            previous@.len() == m + 1,
            forall|k: int| 0 <= k <= m ==> previous@[k] == edit_distance(a@.take(i as int), b@.take(k)),
        decreases a@.len() - i,
    {
        let ghost ai = a@.take(i as int);
        let ghost an = a@.take(i + 1);
        assert(an.drop_last() =~= ai);
        let mut current: Vec<u128> = Vec::new();
        current.push((i + 1) as u128);
        proof {
            assert(b@.take(0).len() == 0);
        }
        let mut r: usize = 0;
        while r < m
            invariant
                m == b@.len(),
                i < a@.len(),
                ai == a@.take(i as int),
                an == a@.take(i + 1),
                an.drop_last() == ai,
                r <= m,
                previous@.len() == m + 1,
                forall|k: int| 0 <= k <= m ==> previous@[k] == edit_distance(ai, b@.take(k)),
                current@.len() == r + 1,
                forall|k: int| 0 <= k <= r ==> current@[k] == edit_distance(an, b@.take(k)),
            decreases m - r,
        {
            let ghost bj = b@.take(r as int);
            let ghost bn = b@.take(r + 1);
            assert(bn.drop_last() =~= bj);
            proof {
                lemma_edit_distance_bound(an, bj);
                lemma_edit_distance_bound(ai, bn);
                lemma_edit_distance_bound(ai, bj);
            }
            let cost: u128 = if a[i] == b[r] { 0 } else { 1 };
            let insert = current[r] + 1;
            let delete = previous[r + 1] + 1;
            let replace = previous[r] + cost;
            let best0 = if insert <= delete { insert } else { delete };
            let best = if best0 <= replace { best0 } else { replace };
            assert(an.last() == a@[i as int] && bn.last() == b@[r as int]);
            current.push(best);
            r = r + 1;
        }
        previous = current;
        i = i + 1;
    }
    assert(a@.take(a@.len() as int) =~= a@);
    assert(b@.take(m as int) =~= b@);
    proof {
        lemma_edit_distance_bound(a@, b@);
    }
    previous[m] as usize
}

pub open spec fn kind_candidates() -> Seq<Seq<char>> {
    seq!["philosophy"@, "policy"@, "requirement"@, "feature"@]
}

/// The layer name closest to a mistyped one: within an edit distance of
/// two, the nearest, the first of equally near ones.
pub open spec fn suggestion_spec(value: Seq<char>) -> Option<Seq<char>> {
    let v = lower_seq(value);
    let d = Seq::new(4, |i: int| edit_distance(v, kind_candidates()[i]));
    let best = min_nat(min_nat(d[0], d[1]), min_nat(d[2], d[3]));
    if best > 2 {
        None
    } else if d[0] == best {
        Some(kind_candidates()[0])
    } else if d[1] == best {
        Some(kind_candidates()[1])
    } else if d[2] == best {
        Some(kind_candidates()[2])
    } else {
        Some(kind_candidates()[3])
    }
}

pub fn suggested_lookup_kind(value: &str) -> (res: Option<&'static str>)
    ensures
        match res {
            Some(s) => suggestion_spec(value@) == Some(s@),
            None => suggestion_spec(value@).is_none(),
        },
{
    let v = to_lower(value);
    let names: [&'static str; 4] = ["philosophy", "policy", "requirement", "feature"];
    proof {
        reveal_strlit("philosophy");
        reveal_strlit("policy");
        reveal_strlit("requirement");
        reveal_strlit("feature");
    }
    let d0 = levenshtein_distance(v.as_str(), "philosophy");
    let d1 = levenshtein_distance(v.as_str(), "policy");
    let d2 = levenshtein_distance(v.as_str(), "requirement");
    let d3 = levenshtein_distance(v.as_str(), "feature");
    let ghost d = Seq::new(4, |i: int| edit_distance(lower_seq(value@), kind_candidates()[i]));
    assert(d[0] == d0 && d[1] == d1 && d[2] == d2 && d[3] == d3);
    let a = if d0 <= d1 { d0 } else { d1 };
    let b = if d2 <= d3 { d2 } else { d3 };
    let best = if a <= b { a } else { b };
    if best > 2 {
        None
    } else if d0 == best {
        Some("philosophy")
    } else if d1 == best {
        Some("policy")
    } else if d2 == best {
        Some("requirement")
    } else {
        Some("feature")
    }
}

/// The message for a positional argument that names no layer.
pub open spec fn invalid_kind_spec(value: Seq<char>, workspace_hint: Option<Seq<char>>, suggestion: Option<Seq<char>>) -> Seq<char> {
    "invalid value '"@ + value + "' for KIND\n  possible values: philosophy, policy, requirement, feature"@
        + match suggestion {
        Some(s) => "\n  did you mean `"@ + s + "`?"@,
        None => Seq::empty(),
    } + match workspace_hint {
        Some(w) => "\n  Hint: to list all kinds in a workspace, run `syu list "@ + w + "`"@,
        None => "\n  Hint: use one of the layer kinds above, pass a workspace path, or run `syu list --help`."@,
    }
}

pub fn invalid_kind_error(value: &str, workspace_hint: Option<&str>, suggestion: Option<&str>) -> (res: String)
    ensures
        res@ == invalid_kind_spec(value@, crate::log::opt_str(workspace_hint), crate::log::opt_str(suggestion)),
{
    let mut m = String::from_str("invalid value '");
    m.append(value);
    m.append("' for KIND\n  possible values: philosophy, policy, requirement, feature");
    match suggestion {
        Some(s) => {
            m.append("\n  did you mean `");
            m.append(s);
            m.append("`?");
        },
        None => {},
    }
    match workspace_hint {
        Some(w) => {
            m.append("\n  Hint: to list all kinds in a workspace, run `syu list ");
            m.append(w);
            m.append("`");
        },
        None => {
            m.append("\n  Hint: use one of the layer kinds above, pass a workspace path, or run `syu list --help`.");
        },
    }
    m
}

/// How `syu list` reads its positional arguments: a layer, a workspace, or
/// both, in either order (`KIND WORKSPACE` or `WORKSPACE KIND`); one argument
/// that is no layer is a workspace, unless it names no existing path and looks
/// like a mistyped layer.
pub open spec fn list_positionals_spec(positional: Seq<Seq<char>>, first_exists: bool) -> Result<(Option<LookupKind>, Seq<char>), Seq<char>> {
    if positional.len() == 0 {
        Ok((None, "."@))
    } else if positional.len() == 1 {
        let first = positional[0];
        match kind_name_spec(first) {
            Some(k) => Ok((Some(k), "."@)),
            None => if first_exists {
                Ok((None, first))
            } else {
                match suggestion_spec(first) {
                    Some(s) => Err(invalid_kind_spec(first, None, Some(s))),
                    None => Ok((None, first)),
                }
            },
        }
    } else {
        match kind_name_spec(positional[0]) {
            Some(k) => Ok((Some(k), positional[1])),
            None => match kind_name_spec(positional[1]) {
                Some(k) => Ok((Some(k), positional[0])),
                None => Err(invalid_kind_spec(positional[0], Some(positional[1]), None)),
            },
        }
    }
}

/// `syu list KIND` with a single layer name (singular or plural, any ASCII
/// case) lists that layer in the current directory, whatever the file system
/// holds.
pub proof fn lemma_list_single_kind(name: Seq<char>, first_exists: bool, k: LookupKind)
    requires
        lower_seq(name) == lookup_kind_label_spec(k)
            || lower_seq(name) == (match k {
                LookupKind::Philosophy => "philosophies"@,
                LookupKind::Policy => "policies"@,
                LookupKind::Requirement => "requirements"@,
                LookupKind::Feature => "features"@,
            }),
    ensures
        list_positionals_spec(seq![name], first_exists) == Ok::<(Option<LookupKind>, Seq<char>), Seq<char>>((Some(k), "."@)),
{
    lemma_layer_names_parse(name);
    assert(seq![name][0] == name);
}

/// Reads the positional arguments of `syu list`; `first_exists` tells
/// whether the only argument names an existing path.
pub fn parse_list_positionals(positional: &Vec<String>, first_exists: bool) -> (res: Result<(Option<LookupKind>, String), String>)
    ensures
        match res {
            Ok((k, w)) => list_positionals_spec(crate::text::views(positional@), first_exists) == Ok::<(Option<LookupKind>, Seq<char>), Seq<char>>((k, w@)),
            Err(e) => list_positionals_spec(crate::text::views(positional@), first_exists) == Err::<(Option<LookupKind>, Seq<char>), Seq<char>>(e@),
        },
{
    let ghost pv = crate::text::views(positional@);
    if positional.len() == 0 {
        return Ok((None, String::from_str(".")));
    }
    assert(pv[0] == positional@[0]@);
    if positional.len() == 1 {
        let first = positional[0].as_str();
        match parse_kind_name(first) {
            Some(k) => {
                return Ok((Some(k), String::from_str(".")));
            },
            None => {},
        }
        if first_exists {
            return Ok((None, positional[0].clone()));
        }
        match suggested_lookup_kind(first) {
            Some(s) => Err(invalid_kind_error(first, None, Some(s))),
            None => Ok((None, positional[0].clone())),
        }
    } else {
        assert(pv[1] == positional@[1]@);
        match parse_kind_name(positional[0].as_str()) {
            Some(k) => Ok((Some(k), positional[1].clone())),
            None => match parse_kind_name(positional[1].as_str()) {
                Some(k) => Ok((Some(k), positional[0].clone())),
                None => Err(invalid_kind_error(positional[0].as_str(), Some(positional[1].as_str()), None)),
            },
        }
    }
}

pub open spec fn item_lines(items: Seq<(Seq<char>, Seq<char>)>) -> Seq<char>
    decreases items.len(),
{
    if items.len() == 0 {
        Seq::empty()
    } else {
        item_lines(items.drop_last()) + items.last().0 + "\t"@ + items.last().1 + "\n"@
    }
}

/// One line per definition: id, a tab, and the title.
pub fn text_list(items: &Vec<EntitySummary>) -> (res: String)
    ensures
        res@ == item_lines(summary_views(items@)),
{
    let ghost all = summary_views(items@);
    let mut out = String::new();
    let mut i: usize = 0;
    proof { reveal_strlit(""); }
    assert(all.take(0) =~= Seq::<(Seq<char>, Seq<char>)>::empty());
    while i < items.len()
        invariant
            i <= items@.len(),
            all == summary_views(items@),
            out@ == item_lines(all.take(i as int)),
        decreases items@.len() - i,
    {
        let ghost before = out@;
        out.append(items[i].id.as_str());
        out.append("\t");
        out.append(items[i].title.as_str());
        out.append("\n");
        assert(all.take(i + 1).drop_last() =~= all.take(i as int));
        assert(out@ =~= before + items@[i as int].id@ + "\t"@ + items@[i as int].title@ + "\n"@);
        i = i + 1;
    }
    assert(all.take(items@.len() as int) =~= all);
    out
}

/// A heading with the count, the lines, and a blank line.
pub fn section_list(heading: &str, items: &Vec<EntitySummary>) -> (res: String)
    ensures
        res@ == "=== "@ + heading@ + " ("@ + decimal(items@.len()) + ") ===\n"@ + item_lines(summary_views(items@)) + "\n"@,
{
    let mut out = String::from_str("=== ");
    out.append(heading);
    out.append(" (");
    out.append(usize_to_string(items.len()).as_str());
    out.append(") ===\n");
    out.append(text_list(items).as_str());
    out.append("\n");
    out
}

} // verus!
