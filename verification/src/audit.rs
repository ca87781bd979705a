//! `syu audit`: the terms of definitions and the word pairs that pull
//! against each other.
use vstd::prelude::*;

use crate::model::{Feature, Philosophy, Policy, Requirement};
use crate::order::{
    insert_sorted_unique, lemma_order_antisym, lemma_order_eq, seq_order, strictly_sorted, string_views,
};
use crate::text::{cat3, is_alnum, lower_seq, owned, to_lower, str_eq, views};
use crate::check::{contains_string, Workspace};

verus! {

pub open spec fn stop_words() -> Seq<Seq<char>> {
    seq![
        "a"@, "an"@, "and"@, "as"@, "be"@, "by"@, "for"@, "from"@, "in"@, "into"@, "is"@, "it"@, "must"@, "of"@,
        "on"@, "or"@, "should"@, "that"@, "the"@, "to"@, "when"@, "with"@,
    ]
}

fn is_stop_word(t: &str) -> (res: bool)
    ensures
        res == stop_words().contains(t@),
{
    let words = ["a", "an", "and", "as", "be", "by", "for", "from", "in", "into", "is", "it", "must", "of", "on", "or",
        "should", "that", "the", "to", "when", "with"];
    let mut i: usize = 0;
    while i < 22
        invariant
            i <= 22,
            words@.len() == 22,
            forall|k: int| 0 <= k < 22 ==> (#[trigger] words@[k])@ == stop_words()[k],
            forall|k: int| 0 <= k < i ==> stop_words()[k] != t@,
        decreases 22 - i,
    {
        if str_eq(words[i], t) {
            assert(stop_words()[i as int] == t@);
            return true;
        }
        i = i + 1;
    }
    false
}

/// The maximal runs of ASCII letters and digits of a text (with the empty
/// runs between adjacent separators).
pub open spec fn alnum_runs(s: Seq<char>) -> Seq<Seq<char>>
    decreases s.len(),
{
    if s.len() == 0 {
        seq![Seq::<char>::empty()]
    } else {
        let r = alnum_runs(s.drop_last());
        if !is_alnum(s.last()) {
            r.push(Seq::<char>::empty())
        } else {
            r.update(r.len() - 1, r.last().push(s.last()))
        }
    }
}

proof fn lemma_runs_nonempty(s: Seq<char>)
    ensures
        alnum_runs(s).len() >= 1,
    decreases s.len(),
{
    if s.len() > 0 {
        lemma_runs_nonempty(s.drop_last());
    }
}

/// A term: a lower-cased run of at least four characters that is no stop word.
pub open spec fn is_term(t: Seq<char>) -> bool {
    t.len() >= 4 && !stop_words().contains(t)
}

/// The terms of a text.
pub open spec fn term_set(text: Seq<char>) -> Set<Seq<char>> {
    Set::new(|t: Seq<char>| exists|i: int| 0 <= i < alnum_runs(text).len() && t == lower_seq(#[trigger] alnum_runs(text)[i]) && is_term(t))
}

fn runs_of(s: &str) -> (res: Vec<String>)
    ensures
        views(res@) == alnum_runs(s@),
{
    let n = s.unicode_len();
    let mut parts: Vec<String> = Vec::new();
    let mut cur = String::new();
    let mut i: usize = 0;
    assert(s@.take(0) =~= Seq::<char>::empty());
    while i < n
        invariant
            n == s@.len(),
            i <= n,
            alnum_runs(s@.take(i as int)) =~= views(parts@).push(cur@),
        decreases n - i,
    {
        let c = s.get_char(i);
        proof {
            lemma_runs_nonempty(s@.take(i as int));
            assert(s@.take(i + 1).drop_last() =~= s@.take(i as int));
            assert(s@.take(i + 1).last() == c);
        }
        if !(('a' <= c && c <= 'z') || ('A' <= c && c <= 'Z') || ('0' <= c && c <= '9')) {
            let done = cur;
            parts.push(done);
            cur = String::new();
            assert(views(parts@) =~= views(parts@).take(parts@.len() - 1).push(done@));
        } else {
            crate::text::push_char(&mut cur, c);
        }
        i = i + 1;
    }
    assert(s@.take(n as int) =~= s@);
    let ghost before = views(parts@);
    parts.push(cur);
    assert(views(parts@) =~= before.push(cur@));
    parts
}

/// The terms of a text, sorted and without repeats.
pub fn tokenize(text: &str) -> (res: Vec<String>)
    ensures
        strictly_sorted(string_views(res@)),
        string_views(res@).to_set() == term_set(text@),
{
    let runs = runs_of(text);
    let ghost all = views(runs@);
    let mut out: Vec<String> = Vec::new();
    let mut i: usize = 0;
    assert(string_views(out@).to_set() =~= Set::<Seq<char>>::empty());
    while i < runs.len()
        invariant
            i <= runs@.len(),
            all == views(runs@),
            all == alnum_runs(text@),
            strictly_sorted(string_views(out@)),
            string_views(out@).to_set() == Set::new(|t: Seq<char>| exists|k: int| 0 <= k < i && t == lower_seq(#[trigger] all[k]) && is_term(t)),
        decreases runs@.len() - i,
    {
        let token = to_lower(runs[i].as_str());
        let ghost tv = token@;
        assert(all[i as int] == runs@[i as int]@);
        let keep = token.as_str().unicode_len() >= 4 && !is_stop_word(token.as_str());
        let ghost before = string_views(out@).to_set();
        if keep {
            insert_sorted_unique(&mut out, token);
        }
        assert(string_views(out@).to_set() =~= Set::new(|t: Seq<char>| exists|k: int| 0 <= k < i + 1 && t == lower_seq(#[trigger] all[k]) && is_term(t))) by {
            assert forall|t: Seq<char>| #[trigger] string_views(out@).to_set().contains(t) implies exists|k: int| 0 <= k < i + 1 && t == lower_seq(#[trigger] all[k]) && is_term(t) by {
                if before.contains(t) {
                    let k = choose|k: int| 0 <= k < i && t == lower_seq(#[trigger] all[k]) && is_term(t);
                } else {
                    assert(t == tv);
                    assert(t == lower_seq(all[i as int]));
                }
            }
            assert forall|t: Seq<char>| (exists|k: int| 0 <= k < i + 1 && t == lower_seq(#[trigger] all[k]) && is_term(t)) implies string_views(out@).to_set().contains(t) by {
                let k = choose|k: int| 0 <= k < i + 1 && t == lower_seq(#[trigger] all[k]) && is_term(t);
                if k < i {
                    assert(before.contains(t));
                } else {
                    assert(t == tv);
                }
            }
        }
        i = i + 1;
    }
    out
}

/// Word pairs that signal tension between a feature and a policy.
pub open spec fn opposite_terms() -> Seq<(Seq<char>, Seq<char>)> {
    seq![
        ("manual"@, "automatic"@),
        ("manual"@, "automated"@),
        ("always"@, "never"@),
        ("required"@, "optional"@),
        ("strict"@, "lightweight"@),
        ("browser"@, "terminal"@),
        ("interactive"@, "noninteractive"@),
        ("coupled"@, "decoupled"@),
        ("opaque"@, "explainable"@),
    ]
}

/// The first pair, in catalog order, whose words the two term sets hold one
/// each: `(left's word, right's word)`.
pub open spec fn opposing_from(left: Set<Seq<char>>, right: Set<Seq<char>>, k: int) -> Option<(Seq<char>, Seq<char>)>
    decreases 9 - k,
{
    if k < 0 || k >= 9 {
        None
    } else {
        let (a, b) = opposite_terms()[k];
        if left.contains(a) && right.contains(b) {
            Some((a, b))
        } else if left.contains(b) && right.contains(a) {
            Some((b, a))
        } else {
            opposing_from(left, right, k + 1)
        }
    }
}

pub fn first_opposing_term_pair(left: &Vec<String>, right: &Vec<String>) -> (res: Option<(&'static str, &'static str)>)
    ensures
        match res {
            Some((a, b)) => opposing_from(views(left@).to_set(), views(right@).to_set(), 0) == Some((a@, b@)),
            None => opposing_from(views(left@).to_set(), views(right@).to_set(), 0).is_none(),
        },
{
    let pairs = [
        ("manual", "automatic"),
        ("manual", "automated"),
        ("always", "never"),
        ("required", "optional"),
        ("strict", "lightweight"),
        ("browser", "terminal"),
        ("interactive", "noninteractive"),
        ("coupled", "decoupled"),
        ("opaque", "explainable"),
    ];
    let ghost ls = views(left@).to_set();
    let ghost rs = views(right@).to_set();
    let mut k: usize = 0;
    while k < 9
        invariant
            k <= 9,
            pairs@.len() == 9,
            ls == views(left@).to_set(),
            rs == views(right@).to_set(),
            forall|j: int| 0 <= j < 9 ==> (#[trigger] pairs@[j]).0@ == opposite_terms()[j].0 && pairs@[j].1@ == opposite_terms()[j].1,
            opposing_from(ls, rs, 0) == opposing_from(ls, rs, k as int),
        decreases 9 - k,
    {
        let (a, b) = pairs[k];
        let la = contains_string(left, a);
        let rb = contains_string(right, b);
        let lb = contains_string(left, b);
        let ra = contains_string(right, a);
        proof {
            assert(views(left@).contains(a@) == ls.contains(a@));
            assert(views(right@).contains(b@) == rs.contains(b@));
            assert(views(left@).contains(b@) == ls.contains(b@));
            assert(views(right@).contains(a@) == rs.contains(a@));
        }
        if la && rb {
            return Some((a, b));
        }
        if lb && ra {
            return Some((b, a));
        }
        k = k + 1;
    }
    None
}

/// The policies that no requirement links to, by position.
pub open spec fn orphaned_spec(policies: Seq<Policy>, requirements: Seq<Requirement>) -> Seq<int>
    decreases policies.len(),
{
    if policies.len() == 0 {
        Seq::empty()
    } else {
        let prev = orphaned_spec(policies.drop_last(), requirements);
        let id = policies.last().id@;
        if exists|r: int| 0 <= r < requirements.len() && views(#[trigger] requirements[r].linked_policies@).contains(id) {
            prev
        } else {
            prev.push(policies.len() - 1)
        }
    }
}

/// The positions of the policies that no requirement turns into an obligation.
pub fn orphaned_policies(policies: &Vec<Policy>, requirements: &Vec<Requirement>) -> (res: Vec<usize>)
    ensures
        res@.map_values(|i: usize| i as int) == orphaned_spec(policies@, requirements@),
{
    let mut out: Vec<usize> = Vec::new();
    let mut p: usize = 0;
    assert(policies@.take(0) =~= Seq::<Policy>::empty());
    while p < policies.len()
        invariant
            p <= policies@.len(),
            out@.map_values(|i: usize| i as int) == orphaned_spec(policies@.take(p as int), requirements@),
        decreases policies@.len() - p,
    {
        assert(policies@.take(p + 1).drop_last() =~= policies@.take(p as int));
        assert(policies@.take(p + 1).last() == policies@[p as int]);
        let id = policies[p].id.as_str();
        let mut linked = false;
        let mut r: usize = 0;
        while r < requirements.len()
            invariant
                r <= requirements@.len(),
                id@ == policies@[p as int].id@,
                linked == exists|j: int| 0 <= j < r && views(#[trigger] requirements@[j].linked_policies@).contains(id@),
            decreases requirements@.len() - r,
        {
            if contains_string(&requirements[r].linked_policies, id) {
                linked = true;
            }
            r = r + 1;
        }
        if !linked {
            let ghost before = out@;
            out.push(p);
            assert(out@.map_values(|i: usize| i as int) =~= before.map_values(|i: usize| i as int).push(p as int));
        }
        p = p + 1;
    }
    assert(policies@.take(policies@.len() as int) =~= policies@);
    out
}


/// The terms of a requirement: those of its title and description.
pub open spec fn requirement_terms_spec(r: Requirement) -> Set<Seq<char>> {
    term_set(r.title@ + seq![' '] + r.description@)
}

/// The terms of a feature: those of its title and summary.
pub open spec fn feature_terms_spec(f: Feature) -> Set<Seq<char>> {
    term_set(f.title@ + seq![' '] + f.summary@)
}

/// The terms of a policy: those of its title, summary and description.
pub open spec fn policy_terms_spec(p: Policy) -> Set<Seq<char>> {
    term_set(p.title@ + seq![' '] + p.summary@ + seq![' '] + p.description@)
}

pub fn requirement_terms(r: &Requirement) -> (res: Vec<String>)
    ensures
        strictly_sorted(string_views(res@)),
        string_views(res@).to_set() == requirement_terms_spec(*r),
{
    let text = cat3(r.title.as_str(), " ", r.description.as_str());
    proof {
        reveal_strlit(" ");
    }
    assert(text@ =~= r.title@ + seq![' '] + r.description@);
    tokenize(text.as_str())
}

pub fn feature_terms(f: &Feature) -> (res: Vec<String>)
    ensures
        strictly_sorted(string_views(res@)),
        string_views(res@).to_set() == feature_terms_spec(*f),
{
    let text = cat3(f.title.as_str(), " ", f.summary.as_str());
    proof {
        reveal_strlit(" ");
    }
    assert(text@ =~= f.title@ + seq![' '] + f.summary@);
    tokenize(text.as_str())
}

pub fn policy_terms(p: &Policy) -> (res: Vec<String>)
    ensures
        strictly_sorted(string_views(res@)),
        string_views(res@).to_set() == policy_terms_spec(*p),
{
    let head = cat3(p.title.as_str(), " ", p.summary.as_str());
    let text = cat3(head.as_str(), " ", p.description.as_str());
    proof {
        reveal_strlit(" ");
    }
    assert(text@ =~= p.title@ + seq![' '] + p.summary@ + seq![' '] + p.description@);
    tokenize(text.as_str())
}

/// The one strictly increasing list that holds exactly the given terms.
pub open spec fn sorted_terms(s: Set<Seq<char>>) -> Seq<Seq<char>> {
    choose|q: Seq<Seq<char>>| strictly_sorted(q) && q.to_set() == s
}

/// Two strictly increasing lists with the same elements are the same list.
pub proof fn lemma_sorted_unique(a: Seq<Seq<char>>, b: Seq<Seq<char>>)
    requires
        strictly_sorted(a),
        strictly_sorted(b),
        a.to_set() == b.to_set(),
    ensures
        a == b,
    decreases a.len(),
{
    if a.len() == 0 {
        if b.len() > 0 {
            assert(b.to_set().contains(b[0]));
        }
        assert(a =~= b);
    } else {
        assert(a.to_set().contains(a[0]));
        let k = choose|k: int| 0 <= k < b.len() && b[k] == a[0];
        assert(a.to_set().contains(b[0]));
        let m = choose|m: int| 0 <= m < a.len() && a[m] == b[0];
        if k > 0 {
            assert(seq_order(b[0], b[k]) < 0);
            if m > 0 {
                lemma_order_antisym(a[0], a[m]);
            } else {
                lemma_order_eq(a[0], a[0]);
            }
        }
        assert(b[0] == a[0]);
        let a2 = a.drop_first();
        let b2 = b.drop_first();
        assert forall|x: Seq<char>| a2.contains(x) implies b2.contains(x) by {
            let i = choose|i: int| 0 <= i < a2.len() && a2[i] == x;
            assert(seq_order(a[0], a[i + 1]) < 0);
            lemma_order_eq(a[0], x);
            assert(a.to_set().contains(x));
            let j = choose|j: int| 0 <= j < b.len() && b[j] == x;
            assert(j != 0);
            assert(b2[j - 1] == x);
        }
        assert forall|x: Seq<char>| b2.contains(x) implies a2.contains(x) by {
            let i = choose|i: int| 0 <= i < b2.len() && b2[i] == x;
            assert(seq_order(b[0], b[i + 1]) < 0);
            lemma_order_eq(b[0], x);
            assert(b.to_set().contains(x));
            let j = choose|j: int| 0 <= j < a.len() && a[j] == x;
            assert(j != 0);
            assert(a2[j - 1] == x);
        }
        assert(a2.to_set() =~= b2.to_set());
        lemma_sorted_unique(a2, b2);
        assert(a =~= b) by {
            assert forall|i: int| 0 <= i < a.len() implies a[i] == b[i] by {
                if i > 0 {
                    assert(a[i] == a2[i - 1]);
                    assert(b[i] == b2[i - 1]);
                }
            }
        }
    }
}

/// A strictly increasing list is the sorted list of its own elements.
pub proof fn lemma_sorted_terms(q: Seq<Seq<char>>)
    requires
        strictly_sorted(q),
    ensures
        sorted_terms(q.to_set()) == q,
{
    let c = sorted_terms(q.to_set());
    assert(strictly_sorted(c) && c.to_set() == q.to_set());
    lemma_sorted_unique(c, q);
}

/// The terms of `l` that `r` holds too, in `l`'s order.
pub open spec fn shared_of(l: Seq<Seq<char>>, r: Seq<Seq<char>>) -> Seq<Seq<char>>
    decreases l.len(),
{
    if l.len() == 0 {
        Seq::empty()
    } else {
        let prev = shared_of(l.drop_last(), r);
        if r.contains(l.last()) {
            prev.push(l.last())
        } else {
            prev
        }
    }
}

proof fn lemma_shared_len(l: Seq<Seq<char>>, r: Seq<Seq<char>>)
    ensures
        shared_of(l, r).len() <= l.len(),
    decreases l.len(),
{
    if l.len() > 0 {
        lemma_shared_len(l.drop_last(), r);
    }
}

/// Two term lists overlap when they share at least three terms and the shared
/// terms make up at least 45 hundredths of all their terms (Jaccard index).
pub open spec fn overlapping(l: Seq<Seq<char>>, r: Seq<Seq<char>>) -> bool {
    let shared = shared_of(l, r).len();
    shared >= 3 && 100 * shared >= 45 * (l.len() + r.len() - shared)
}

/// The terms that both lists hold, in the first list's order.
pub fn shared_terms(left: &Vec<String>, right: &Vec<String>) -> (res: Vec<String>)
    ensures
        views(res@) == shared_of(views(left@), views(right@)),
{
    let ghost l = views(left@);
    let ghost r = views(right@);
    let mut out: Vec<String> = Vec::new();
    let mut i: usize = 0;
    assert(l.take(0) =~= Seq::<Seq<char>>::empty());
    assert(views(out@) =~= Seq::<Seq<char>>::empty());
    while i < left.len()
        invariant
            i <= left@.len(),
            l == views(left@),
            r == views(right@),
            views(out@) == shared_of(l.take(i as int), r),
        decreases left@.len() - i,
    {
        assert(l.take(i + 1).drop_last() =~= l.take(i as int));
        assert(l.take(i + 1).last() == left@[i as int]@);
        if contains_string(right, left[i].as_str()) {
            let t = owned(left[i].as_str());
            let ghost before = views(out@);
            out.push(t);
            assert(views(out@) =~= before.push(t@));
        }
        i = i + 1;
    }
    assert(l.take(left@.len() as int) =~= l);
    out
}

/// Two requirements whose wording may describe overlapping obligations: their
/// positions, the terms they share, and how many terms each has.
#[derive(Debug)]
pub struct OverlapFinding {
    pub left: usize,
    pub right: usize,
    pub shared_terms: Vec<String>,
    pub left_terms: usize,
    pub right_terms: usize,
}

pub open spec fn overlap_view(f: OverlapFinding) -> (int, int, Seq<Seq<char>>, int, int) {
    (f.left as int, f.right as int, views(f.shared_terms@), f.left_terms as int, f.right_terms as int)
}

pub open spec fn overlap_views(s: Seq<OverlapFinding>) -> Seq<(int, int, Seq<Seq<char>>, int, int)> {
    Seq::new(s.len(), |k: int| overlap_view(s[k]))
}

/// The overlaps of term list `i` with the lists `i + 1 .. n`, in order.
pub open spec fn overlap_row(terms: Seq<Seq<Seq<char>>>, i: int, n: int) -> Seq<(int, int, Seq<Seq<char>>, int, int)>
    decreases n - i,
{
    if n <= i + 1 {
        Seq::empty()
    } else {
        let prev = overlap_row(terms, i, n - 1);
        let j = n - 1;
        if overlapping(terms[i], terms[j]) {
            prev.push((i, j, shared_of(terms[i], terms[j]), terms[i].len() as int, terms[j].len() as int))
        } else {
            prev
        }
    }
}

/// Every overlapping pair whose first list comes before position `n`, pair
/// by pair in order.
pub open spec fn overlap_upto(terms: Seq<Seq<Seq<char>>>, n: int) -> Seq<(int, int, Seq<Seq<char>>, int, int)>
    decreases n,
{
    if n <= 0 {
        Seq::empty()
    } else {
        overlap_upto(terms, n - 1) + overlap_row(terms, n - 1, terms.len() as int)
    }
}

/// The sorted term lists of the requirements.
pub open spec fn requirement_term_lists(reqs: Seq<Requirement>) -> Seq<Seq<Seq<char>>> {
    Seq::new(reqs.len(), |i: int| sorted_terms(requirement_terms_spec(reqs[i])))
}

/// Every pair of requirements, earlier one first, whose terms overlap.
pub fn overlap_findings(requirements: &Vec<Requirement>) -> (res: Vec<OverlapFinding>)
    ensures
        overlap_views(res@) == overlap_upto(requirement_term_lists(requirements@), requirements@.len() as int),
{
    let n = requirements.len();
    let ghost lists = requirement_term_lists(requirements@);
    let mut terms: Vec<Vec<String>> = Vec::new();
    let mut k: usize = 0;
    while k < n
        invariant
            n == requirements@.len(),
            k <= n,
            terms@.len() == k,
            lists == requirement_term_lists(requirements@),
            forall|x: int| 0 <= x < k ==> views(#[trigger] terms@[x]@) == lists[x],
        decreases n - k,
    {
        let t = requirement_terms(&requirements[k]);
        proof {
            assert(views(t@) =~= string_views(t@));
            lemma_sorted_terms(views(t@));
        }
        terms.push(t);
        k = k + 1;
    }
    let ghost tl = Seq::new(n as nat, |x: int| views(terms@[x]@));
    assert(tl =~= lists);
    let mut out: Vec<OverlapFinding> = Vec::new();
    let mut i: usize = 0;
    assert(overlap_views(out@) =~= overlap_upto(lists, 0));
    while i < n
        invariant
            n == requirements@.len(),
            n == terms@.len(),
            i <= n,
            lists.len() == n,
            forall|x: int| 0 <= x < n ==> views(#[trigger] terms@[x]@) == lists[x],
            overlap_views(out@) == overlap_upto(lists, i as int),
        decreases n - i,
    {
        let mut j: usize = i + 1;
        assert(overlap_row(lists, i as int, j as int) =~= Seq::<(int, int, Seq<Seq<char>>, int, int)>::empty());
        assert(overlap_views(out@) =~= overlap_upto(lists, i as int) + overlap_row(lists, i as int, j as int));
        while j < n
            invariant
                n == terms@.len(),
                i < n,
                i + 1 <= j <= n,
                lists.len() == n,
                forall|x: int| 0 <= x < n ==> views(#[trigger] terms@[x]@) == lists[x],
                overlap_views(out@) == overlap_upto(lists, i as int) + overlap_row(lists, i as int, j as int),
            decreases n - j,
        {
            let shared = shared_terms(&terms[i], &terms[j]);
            let ghost li = lists[i as int];
            let ghost lj = lists[j as int];
            assert(views(terms@[i as int]@) == li);
            assert(views(terms@[j as int]@) == lj);
            proof {
                lemma_shared_len(li, lj);
            }
            let s: u128 = shared.len() as u128;
            let a: usize = terms[i].len();
            let b: usize = terms[j].len();
            let u: u128 = a as u128 + b as u128 - s;
            let ghost before = overlap_views(out@);
            if s >= 3 && 100 * s >= 45 * u {
                let finding = OverlapFinding { left: i, right: j, shared_terms: shared, left_terms: a, right_terms: b };
                out.push(finding);
                assert(overlap_views(out@) =~= before.push(overlap_view(finding)));
            }
            assert(overlap_views(out@) =~= overlap_upto(lists, i as int) + overlap_row(lists, i as int, j + 1));
            j = j + 1;
        }
        assert(overlap_views(out@) =~= overlap_upto(lists, i + 1));
        i = i + 1;
    }
    out
}

/// The ids of the given philosophies that a list of links names, in the
/// philosophies' order.
pub open spec fn linked_ids(items: Seq<Philosophy>, links: Seq<Seq<char>>) -> Seq<Seq<char>>
    decreases items.len(),
{
    if items.len() == 0 {
        Seq::empty()
    } else {
        let prev = linked_ids(items.drop_last(), links);
        if links.contains(items.last().id@) {
            prev.push(items.last().id@)
        } else {
            prev
        }
    }
}

pub fn linked_philosophy_ids(philosophies: &Vec<Philosophy>, links: &Vec<String>) -> (res: Vec<String>)
    ensures
        views(res@) == linked_ids(philosophies@, views(links@)),
{
    let mut out: Vec<String> = Vec::new();
    let mut i: usize = 0;
    assert(philosophies@.take(0) =~= Seq::<Philosophy>::empty());
    assert(views(out@) =~= Seq::<Seq<char>>::empty());
    while i < philosophies.len()
        invariant
            i <= philosophies@.len(),
            views(out@) == linked_ids(philosophies@.take(i as int), views(links@)),
        decreases philosophies@.len() - i,
    {
        assert(philosophies@.take(i + 1).drop_last() =~= philosophies@.take(i as int));
        assert(philosophies@.take(i + 1).last() == philosophies@[i as int]);
        if contains_string(links, philosophies[i].id.as_str()) {
            let id = owned(philosophies[i].id.as_str());
            let ghost before = views(out@);
            out.push(id);
            assert(views(out@) =~= before.push(id@));
        }
        i = i + 1;
    }
    assert(philosophies@.take(philosophies@.len() as int) =~= philosophies@);
    out
}

/// A feature whose wording may pull against a policy that it reaches through
/// one of its requirements.
#[derive(Debug)]
pub struct TensionFinding {
    pub feature: usize,
    pub requirement: usize,
    pub policy: usize,
    pub related_ids: Vec<String>,
    pub feature_term: String,
    pub policy_term: String,
}

pub open spec fn tension_view(t: TensionFinding) -> (int, int, int, Seq<Seq<char>>, Seq<char>, Seq<char>) {
    (t.feature as int, t.requirement as int, t.policy as int, views(t.related_ids@), t.feature_term@, t.policy_term@)
}

pub open spec fn tension_views(s: Seq<TensionFinding>) -> Seq<(int, int, int, Seq<Seq<char>>, Seq<char>, Seq<char>)> {
    Seq::new(s.len(), |k: int| tension_view(s[k]))
}

/// Feature `f` links requirement `r`, which links policy `p`.
pub open spec fn reaches(ws: Workspace, f: int, r: int, p: int) -> bool {
    &&& views(ws.features@[f].linked_requirements@).contains(ws.requirements@[r].id@)
    &&& views(ws.requirements@[r].linked_policies@).contains(ws.policies@[p].id@)
}

/// The finding for one feature, requirement and policy, if there is one.
pub open spec fn tension_at(ws: Workspace, f: int, r: int, p: int) -> Seq<(int, int, int, Seq<Seq<char>>, Seq<char>, Seq<char>)> {
    let fe = ws.features@[f];
    let re = ws.requirements@[r];
    let po = ws.policies@[p];
    if reaches(ws, f, r, p) {
        match opposing_from(feature_terms_spec(fe), policy_terms_spec(po), 0) {
            Some((a, b)) => seq![(f, r, p, seq![fe.id@, re.id@, po.id@] + linked_ids(ws.philosophies@, views(po.linked_philosophies@)), a, b)],
            None => Seq::empty(),
        }
    } else {
        Seq::empty()
    }
}

/// The findings of feature `f` and requirement `r` over the first `n` policies.
pub open spec fn tension_row(ws: Workspace, f: int, r: int, n: int) -> Seq<(int, int, int, Seq<Seq<char>>, Seq<char>, Seq<char>)>
    decreases n,
{
    if n <= 0 {
        Seq::empty()
    } else {
        tension_row(ws, f, r, n - 1) + tension_at(ws, f, r, n - 1)
    }
}

/// The findings of feature `f` over the first `n` requirements.
pub open spec fn tension_feature(ws: Workspace, f: int, n: int) -> Seq<(int, int, int, Seq<Seq<char>>, Seq<char>, Seq<char>)>
    decreases n,
{
    if n <= 0 {
        Seq::empty()
    } else {
        tension_feature(ws, f, n - 1) + tension_row(ws, f, n - 1, ws.policies@.len() as int)
    }
}

/// The findings of the first `n` features.
pub open spec fn tension_upto(ws: Workspace, n: int) -> Seq<(int, int, int, Seq<Seq<char>>, Seq<char>, Seq<char>)>
    decreases n,
{
    if n <= 0 {
        Seq::empty()
    } else {
        tension_upto(ws, n - 1) + tension_feature(ws, n - 1, ws.requirements@.len() as int)
    }
}

/// Every feature, linked requirement and linked policy, in workspace order,
/// where the feature's terms and the policy's terms hold an opposing pair.
pub fn tension_findings(ws: &Workspace) -> (res: Vec<TensionFinding>)
    ensures
        tension_views(res@) == tension_upto(*ws, ws.features@.len() as int),
{
    let nf = ws.features.len();
    let nr = ws.requirements.len();
    let np = ws.policies.len();
    let mut out: Vec<TensionFinding> = Vec::new();
    let mut f: usize = 0;
    assert(tension_views(out@) =~= tension_upto(*ws, 0));
    while f < nf
        invariant
            nf == ws.features@.len(),
            nr == ws.requirements@.len(),
            np == ws.policies@.len(),
            f <= nf,
            tension_views(out@) == tension_upto(*ws, f as int),
        decreases nf - f,
    {
        let fterms = feature_terms(&ws.features[f]);
        let mut r: usize = 0;
        assert(tension_views(out@) =~= tension_upto(*ws, f as int) + tension_feature(*ws, f as int, 0));
        while r < nr
            invariant
                nf == ws.features@.len(),
                nr == ws.requirements@.len(),
                np == ws.policies@.len(),
                f < nf,
                r <= nr,
                string_views(fterms@).to_set() == feature_terms_spec(ws.features@[f as int]),
                tension_views(out@) == tension_upto(*ws, f as int) + tension_feature(*ws, f as int, r as int),
            decreases nr - r,
        {
            let linked = contains_string(&ws.features[f].linked_requirements, ws.requirements[r].id.as_str());
            let mut p: usize = 0;
            assert(tension_views(out@) =~= tension_upto(*ws, f as int) + tension_feature(*ws, f as int, r as int)
                + tension_row(*ws, f as int, r as int, 0));
            while p < np
                invariant
                    nf == ws.features@.len(),
                    nr == ws.requirements@.len(),
                    np == ws.policies@.len(),
                    f < nf,
                    r < nr,
                    p <= np,
                    linked == views(ws.features@[f as int].linked_requirements@).contains(ws.requirements@[r as int].id@),
                    string_views(fterms@).to_set() == feature_terms_spec(ws.features@[f as int]),
                    tension_views(out@) == tension_upto(*ws, f as int) + tension_feature(*ws, f as int, r as int)
                        + tension_row(*ws, f as int, r as int, p as int),
                decreases np - p,
            {
                let ghost before = tension_views(out@);
                let ghost at = tension_at(*ws, f as int, r as int, p as int);
                if linked && contains_string(&ws.requirements[r].linked_policies, ws.policies[p].id.as_str()) {
                    let pterms = policy_terms(&ws.policies[p]);
                    assert(views(fterms@) =~= string_views(fterms@));
                    assert(views(pterms@) =~= string_views(pterms@));
                    match first_opposing_term_pair(&fterms, &pterms) {
                        Some((a, b)) => {
                            let mut related: Vec<String> = Vec::new();
                            related.push(owned(ws.features[f].id.as_str()));
                            related.push(owned(ws.requirements[r].id.as_str()));
                            related.push(owned(ws.policies[p].id.as_str()));
                            let more = linked_philosophy_ids(&ws.philosophies, &ws.policies[p].linked_philosophies);
                            let ghost head = views(related@);
                            let mut m: usize = 0;
                            while m < more.len()
                                invariant
                                    m <= more@.len(),
                                    views(related@) == head + views(more@).take(m as int),
                                decreases more@.len() - m,
                            {
                                let ghost prev = views(related@);
                                related.push(owned(more[m].as_str()));
                                assert(views(more@).take(m + 1) =~= views(more@).take(m as int).push(more@[m as int]@));
                                assert(views(related@) =~= prev.push(more@[m as int]@));
                                m = m + 1;
                            }
                            assert(views(more@).take(more@.len() as int) =~= views(more@));
                            let finding = TensionFinding {
                                feature: f,
                                requirement: r,
                                policy: p,
                                related_ids: related,
                                feature_term: owned(a),
                                policy_term: owned(b),
                            };
                            out.push(finding);
                            assert(views(related@) =~= seq![ws.features@[f as int].id@, ws.requirements@[r as int].id@, ws.policies@[p as int].id@]
                                + linked_ids(ws.philosophies@, views(ws.policies@[p as int].linked_philosophies@)));
                            assert(tension_views(out@) =~= before + at);
                        },
                        None => {
                            assert(at =~= Seq::<(int, int, int, Seq<Seq<char>>, Seq<char>, Seq<char>)>::empty());
                            assert(tension_views(out@) =~= before + at);
                        },
                    }
                } else {
                    assert(at =~= Seq::<(int, int, int, Seq<Seq<char>>, Seq<char>, Seq<char>)>::empty());
                    assert(tension_views(out@) =~= before + at);
                }
                assert(tension_views(out@) =~= tension_upto(*ws, f as int) + tension_feature(*ws, f as int, r as int)
                    + tension_row(*ws, f as int, r as int, p + 1));
                p = p + 1;
            }
            assert(tension_views(out@) =~= tension_upto(*ws, f as int) + tension_feature(*ws, f as int, r + 1));
            r = r + 1;
        }
        assert(tension_views(out@) =~= tension_upto(*ws, f + 1));
        f = f + 1;
    }
    out
}

} // verus!
