//! Finding definitions by id and by text.
use vstd::prelude::*;

use crate::check::Workspace;
use crate::cli::{LookupKind, lookup_kind_label_spec};
use crate::log::{kind_for_id_spec, lookup_kind_for_id};
use crate::text::{contains, contains_seq, str_eq, trim, trim_seq};

verus! {

/// The layer of an id, by its prefix.
pub fn kind_for_id(id: &str) -> (res: Option<LookupKind>)
    ensures
        res == kind_for_id_spec(id@),
{
    lookup_kind_for_id(id)
}

/// What `str::to_lowercase` makes of a text (full Unicode case mapping).
pub uninterp spec fn unicode_lowercase(s: Seq<char>) -> Seq<char>;

/// `str::to_lowercase`; its contract claims only that the result is what
/// `to_lowercase` gives for this text.
#[verifier::external_body]
fn lowercase(s: &str) -> (res: String)
    ensures
        res@ == unicode_lowercase(s@),
{
    s.to_lowercase()
}

/// A field matches when its lower-case form contains the query.
pub open spec fn field_matches(value: Seq<char>, query: Seq<char>) -> bool {
    contains_seq(unicode_lowercase(value), query)
}

pub fn field_matches_query(value: &str, query: &str) -> (res: bool)
    ensures
        res == field_matches(value@, query@),
{
    let lower = lowercase(value);
    contains(lower.as_str(), query)
}

/// One search hit.
#[derive(Debug)]
pub struct SearchResult {
    pub id: String,
    pub kind: &'static str,
    pub title: String,
}

pub struct HitSpec {
    pub id: Seq<char>,
    pub kind: Seq<char>,
    pub title: Seq<char>,
}

pub open spec fn hit_views(v: Seq<SearchResult>) -> Seq<HitSpec> {
    Seq::new(v.len(), |i: int| HitSpec { id: v[i].id@, kind: v[i].kind@, title: v[i].title@ })
}

/// The hits of one layer, in workspace order: ids and titles match for
/// every layer, summaries and descriptions where the layer has them.
pub open spec fn layer_hits(ws: Workspace, kind: LookupKind, q: Seq<char>) -> Seq<HitSpec> {
    let label = lookup_kind_label_spec(kind);
    match kind {
        LookupKind::Philosophy => ws.philosophies@.filter(|p: crate::model::Philosophy| field_matches(p.id@, q) || field_matches(p.title@, q))
            .map_values(|p: crate::model::Philosophy| HitSpec { id: p.id@, kind: label, title: p.title@ }),
        LookupKind::Policy => ws.policies@.filter(|p: crate::model::Policy| field_matches(p.id@, q) || field_matches(p.title@, q)
            || field_matches(p.summary@, q) || field_matches(p.description@, q))
            .map_values(|p: crate::model::Policy| HitSpec { id: p.id@, kind: label, title: p.title@ }),
        LookupKind::Requirement => ws.requirements@.filter(|r: crate::model::Requirement| field_matches(r.id@, q) || field_matches(r.title@, q)
            || field_matches(r.description@, q))
            .map_values(|r: crate::model::Requirement| HitSpec { id: r.id@, kind: label, title: r.title@ }),
        LookupKind::Feature => ws.features@.filter(|f: crate::model::Feature| field_matches(f.id@, q) || field_matches(f.title@, q)
            || field_matches(f.summary@, q))
            .map_values(|f: crate::model::Feature| HitSpec { id: f.id@, kind: label, title: f.title@ }),
    }
}

/// The hits of a search: the query is trimmed and lower-cased; without a
/// layer, philosophies, policies, features and requirements in that order.
pub open spec fn search_spec(ws: Workspace, query: Seq<char>, kind: Option<LookupKind>) -> Seq<HitSpec> {
    let q = unicode_lowercase(trim_seq(query));
    match kind {
        Some(k) => layer_hits(ws, k, q),
        None => layer_hits(ws, LookupKind::Philosophy, q) + layer_hits(ws, LookupKind::Policy, q)
            + layer_hits(ws, LookupKind::Feature, q) + layer_hits(ws, LookupKind::Requirement, q),
    }
}

proof fn lemma_hit_listed<A>(s: Seq<A>, pred: spec_fn(A) -> bool, f: spec_fn(A) -> HitSpec, x: A)
    requires
        s.contains(x),
        pred(x),
    ensures
        s.filter(pred).map_values(f).contains(f(x)),
{
    let i = choose|i: int| 0 <= i < s.len() && s[i] == x;
    s.lemma_filter_contains(pred, i);
    let fs = s.filter(pred);
    let j = choose|j: int| 0 <= j < fs.len() && fs[j] == x;
    assert(fs.map_values(f)[j] == f(x));
}

proof fn lemma_hit_in_search(ws: Workspace, query: Seq<char>, kind: Option<LookupKind>, layer: LookupKind, h: HitSpec)
    requires
        kind is None || kind == Some(layer),
        layer_hits(ws, layer, unicode_lowercase(trim_seq(query))).contains(h),
    ensures
        search_spec(ws, query, kind).contains(h),
{
    let q = unicode_lowercase(trim_seq(query));
    if kind is None {
        let a = layer_hits(ws, LookupKind::Philosophy, q);
        let b = layer_hits(ws, LookupKind::Policy, q);
        let c = layer_hits(ws, LookupKind::Feature, q);
        let d = layer_hits(ws, LookupKind::Requirement, q);
        let all = a + b + c + d;
        let mine = layer_hits(ws, layer, q);
        let j = choose|j: int| 0 <= j < mine.len() && mine[j] == h;
        match layer {
            LookupKind::Philosophy => { assert(all[j] == h); },
            LookupKind::Policy => { assert(all[a.len() + j] == h); },
            LookupKind::Feature => { assert(all[a.len() + b.len() + j] == h); },
            LookupKind::Requirement => { assert(all[a.len() + b.len() + c.len() + j] == h); },
        }
    }
}

/// A search finds every requirement whose id, title or description,
/// lower-cased, holds the trimmed, lower-cased query, when requirements are
/// searched (all layers, or requirements alone): it is listed with its id,
/// the layer name `requirement` and its title.
pub proof fn lemma_search_finds_requirements(ws: Workspace, query: Seq<char>, kind: Option<LookupKind>, r: crate::model::Requirement)
    requires
        kind is None || kind == Some(LookupKind::Requirement),
        ws.requirements@.contains(r),
        contains_seq(unicode_lowercase(r.id@), unicode_lowercase(trim_seq(query)))
            || contains_seq(unicode_lowercase(r.title@), unicode_lowercase(trim_seq(query)))
            || contains_seq(unicode_lowercase(r.description@), unicode_lowercase(trim_seq(query))),
    ensures
        search_spec(ws, query, kind).contains(HitSpec { id: r.id@, kind: "requirement"@, title: r.title@ }),
{
    let q = unicode_lowercase(trim_seq(query));
    let label = lookup_kind_label_spec(LookupKind::Requirement);
    lemma_hit_listed(ws.requirements@, |r: crate::model::Requirement| field_matches(r.id@, q) || field_matches(r.title@, q)
            || field_matches(r.description@, q),
        |r: crate::model::Requirement| HitSpec { id: r.id@, kind: label, title: r.title@ }, r);
    lemma_hit_in_search(ws, query, kind, LookupKind::Requirement, HitSpec { id: r.id@, kind: "requirement"@, title: r.title@ });
}

/// A search finds every feature whose id, title or summary, lower-cased,
/// holds the trimmed, lower-cased query, when features are searched.
pub proof fn lemma_search_finds_features(ws: Workspace, query: Seq<char>, kind: Option<LookupKind>, f: crate::model::Feature)
    requires
        kind is None || kind == Some(LookupKind::Feature),
        ws.features@.contains(f),
        contains_seq(unicode_lowercase(f.id@), unicode_lowercase(trim_seq(query)))
            || contains_seq(unicode_lowercase(f.title@), unicode_lowercase(trim_seq(query)))
            || contains_seq(unicode_lowercase(f.summary@), unicode_lowercase(trim_seq(query))),
    ensures
        search_spec(ws, query, kind).contains(HitSpec { id: f.id@, kind: "feature"@, title: f.title@ }),
{
    let q = unicode_lowercase(trim_seq(query));
    let label = lookup_kind_label_spec(LookupKind::Feature);
    lemma_hit_listed(ws.features@, |f: crate::model::Feature| field_matches(f.id@, q) || field_matches(f.title@, q)
            || field_matches(f.summary@, q),
        |f: crate::model::Feature| HitSpec { id: f.id@, kind: label, title: f.title@ }, f);
    lemma_hit_in_search(ws, query, kind, LookupKind::Feature, HitSpec { id: f.id@, kind: "feature"@, title: f.title@ });
}

/// A search finds every policy whose id, title, summary or description,
/// lower-cased, holds the trimmed, lower-cased query, when policies are
/// searched.
pub proof fn lemma_search_finds_policies(ws: Workspace, query: Seq<char>, kind: Option<LookupKind>, p: crate::model::Policy)
    requires
        kind is None || kind == Some(LookupKind::Policy),
        ws.policies@.contains(p),
        contains_seq(unicode_lowercase(p.id@), unicode_lowercase(trim_seq(query)))
            || contains_seq(unicode_lowercase(p.title@), unicode_lowercase(trim_seq(query)))
            || contains_seq(unicode_lowercase(p.summary@), unicode_lowercase(trim_seq(query)))
            || contains_seq(unicode_lowercase(p.description@), unicode_lowercase(trim_seq(query))),
    ensures
        search_spec(ws, query, kind).contains(HitSpec { id: p.id@, kind: "policy"@, title: p.title@ }),
{
    let q = unicode_lowercase(trim_seq(query));
    let label = lookup_kind_label_spec(LookupKind::Policy);
    lemma_hit_listed(ws.policies@, |p: crate::model::Policy| field_matches(p.id@, q) || field_matches(p.title@, q)
            || field_matches(p.summary@, q) || field_matches(p.description@, q),
        |p: crate::model::Policy| HitSpec { id: p.id@, kind: label, title: p.title@ }, p);
    lemma_hit_in_search(ws, query, kind, LookupKind::Policy, HitSpec { id: p.id@, kind: "policy"@, title: p.title@ });
}

/// A search finds every philosophy whose id or title, lower-cased, holds the
/// trimmed, lower-cased query, when philosophies are searched.
pub proof fn lemma_search_finds_philosophies(ws: Workspace, query: Seq<char>, kind: Option<LookupKind>, p: crate::model::Philosophy)
    requires
        kind is None || kind == Some(LookupKind::Philosophy),
        ws.philosophies@.contains(p),
        contains_seq(unicode_lowercase(p.id@), unicode_lowercase(trim_seq(query)))
            || contains_seq(unicode_lowercase(p.title@), unicode_lowercase(trim_seq(query))),
    ensures
        search_spec(ws, query, kind).contains(HitSpec { id: p.id@, kind: "philosophy"@, title: p.title@ }),
{
    let q = unicode_lowercase(trim_seq(query));
    let label = lookup_kind_label_spec(LookupKind::Philosophy);
    lemma_hit_listed(ws.philosophies@, |p: crate::model::Philosophy| field_matches(p.id@, q) || field_matches(p.title@, q),
        |p: crate::model::Philosophy| HitSpec { id: p.id@, kind: label, title: p.title@ }, p);
    lemma_hit_in_search(ws, query, kind, LookupKind::Philosophy, HitSpec { id: p.id@, kind: "philosophy"@, title: p.title@ });
}

proof fn lemma_hit_source<A>(s: Seq<A>, pred: spec_fn(A) -> bool, f: spec_fn(A) -> HitSpec, j: int) -> (x: A)
    requires
        0 <= j < s.filter(pred).map_values(f).len(),
    ensures
        s.contains(x),
        pred(x),
        s.filter(pred).map_values(f)[j] == f(x),
{
    let fs = s.filter(pred);
    let x = fs[j];
    s.lemma_filter_pred(pred, j);
    assert(fs.contains(x));
    s.lemma_filter_contains_rev(pred, x);
    x
}

/// A search of the requirements lists only requirements whose id, title or
/// description, lower-cased, holds the trimmed, lower-cased query, each with
/// its id, the layer name and its title.
pub proof fn lemma_requirement_hits_match(ws: Workspace, query: Seq<char>, j: int)
    requires
        0 <= j < search_spec(ws, query, Some(LookupKind::Requirement)).len(),
    ensures
        exists|r: crate::model::Requirement| #[trigger] ws.requirements@.contains(r)
            && search_spec(ws, query, Some(LookupKind::Requirement))[j] == (HitSpec { id: r.id@, kind: "requirement"@, title: r.title@ })
            && (contains_seq(unicode_lowercase(r.id@), unicode_lowercase(trim_seq(query)))
                || contains_seq(unicode_lowercase(r.title@), unicode_lowercase(trim_seq(query)))
                || contains_seq(unicode_lowercase(r.description@), unicode_lowercase(trim_seq(query)))),
{
    let q = unicode_lowercase(trim_seq(query));
    let label = lookup_kind_label_spec(LookupKind::Requirement);
    let r = lemma_hit_source(ws.requirements@, |r: crate::model::Requirement| field_matches(r.id@, q) || field_matches(r.title@, q)
            || field_matches(r.description@, q),
        |r: crate::model::Requirement| HitSpec { id: r.id@, kind: label, title: r.title@ }, j);
    assert(ws.requirements@.contains(r));
}

/// A search of the features lists only features whose id, title or summary,
/// lower-cased, holds the trimmed, lower-cased query.
pub proof fn lemma_feature_hits_match(ws: Workspace, query: Seq<char>, j: int)
    requires
        0 <= j < search_spec(ws, query, Some(LookupKind::Feature)).len(),
    ensures
        exists|f: crate::model::Feature| #[trigger] ws.features@.contains(f)
            && search_spec(ws, query, Some(LookupKind::Feature))[j] == (HitSpec { id: f.id@, kind: "feature"@, title: f.title@ })
            && (contains_seq(unicode_lowercase(f.id@), unicode_lowercase(trim_seq(query)))
                || contains_seq(unicode_lowercase(f.title@), unicode_lowercase(trim_seq(query)))
                || contains_seq(unicode_lowercase(f.summary@), unicode_lowercase(trim_seq(query)))),
{
    let q = unicode_lowercase(trim_seq(query));
    let label = lookup_kind_label_spec(LookupKind::Feature);
    let f = lemma_hit_source(ws.features@, |f: crate::model::Feature| field_matches(f.id@, q) || field_matches(f.title@, q)
            || field_matches(f.summary@, q),
        |f: crate::model::Feature| HitSpec { id: f.id@, kind: label, title: f.title@ }, j);
    assert(ws.features@.contains(f));
}

/// A search of the policies lists only policies whose id, title, summary or
/// description, lower-cased, holds the trimmed, lower-cased query.
pub proof fn lemma_policy_hits_match(ws: Workspace, query: Seq<char>, j: int)
    requires
        0 <= j < search_spec(ws, query, Some(LookupKind::Policy)).len(),
    ensures
        exists|p: crate::model::Policy| #[trigger] ws.policies@.contains(p)
            && search_spec(ws, query, Some(LookupKind::Policy))[j] == (HitSpec { id: p.id@, kind: "policy"@, title: p.title@ })
            && (contains_seq(unicode_lowercase(p.id@), unicode_lowercase(trim_seq(query)))
                || contains_seq(unicode_lowercase(p.title@), unicode_lowercase(trim_seq(query)))
                || contains_seq(unicode_lowercase(p.summary@), unicode_lowercase(trim_seq(query)))
                || contains_seq(unicode_lowercase(p.description@), unicode_lowercase(trim_seq(query)))),
{
    let q = unicode_lowercase(trim_seq(query));
    let label = lookup_kind_label_spec(LookupKind::Policy);
    let p = lemma_hit_source(ws.policies@, |p: crate::model::Policy| field_matches(p.id@, q) || field_matches(p.title@, q)
            || field_matches(p.summary@, q) || field_matches(p.description@, q),
        |p: crate::model::Policy| HitSpec { id: p.id@, kind: label, title: p.title@ }, j);
    assert(ws.policies@.contains(p));
}

/// A search of the philosophies lists only philosophies whose id or title,
/// lower-cased, holds the trimmed, lower-cased query.
pub proof fn lemma_philosophy_hits_match(ws: Workspace, query: Seq<char>, j: int)
    requires
        0 <= j < search_spec(ws, query, Some(LookupKind::Philosophy)).len(),
    ensures
        exists|p: crate::model::Philosophy| #[trigger] ws.philosophies@.contains(p)
            && search_spec(ws, query, Some(LookupKind::Philosophy))[j] == (HitSpec { id: p.id@, kind: "philosophy"@, title: p.title@ })
            && (contains_seq(unicode_lowercase(p.id@), unicode_lowercase(trim_seq(query)))
                || contains_seq(unicode_lowercase(p.title@), unicode_lowercase(trim_seq(query)))),
{
    let q = unicode_lowercase(trim_seq(query));
    let label = lookup_kind_label_spec(LookupKind::Philosophy);
    let p = lemma_hit_source(ws.philosophies@, |p: crate::model::Philosophy| field_matches(p.id@, q) || field_matches(p.title@, q),
        |p: crate::model::Philosophy| HitSpec { id: p.id@, kind: label, title: p.title@ }, j);
    assert(ws.philosophies@.contains(p));
}

fn push_hit(results: &mut Vec<SearchResult>, id: &String, kind: LookupKind, title: &String)
    ensures
        hit_views(final(results)@) == hit_views(old(results)@).push(HitSpec { id: id@, kind: lookup_kind_label_spec(kind), title: title@ }),
{
    let ghost before = results@;
    results.push(SearchResult { id: id.clone(), kind: kind.label(), title: title.clone() });
    assert(hit_views(results@) =~= hit_views(before).push(HitSpec { id: id@, kind: lookup_kind_label_spec(kind), title: title@ }));
}

fn extend_search_results(ws: &Workspace, kind: LookupKind, query: &str, results: &mut Vec<SearchResult>)
    ensures
        hit_views(final(results)@) == hit_views(old(results)@) + layer_hits(*ws, kind, query@),
{
    let ghost base = hit_views(results@);
    let ghost q = query@;
    let ghost label = lookup_kind_label_spec(kind);
    match kind {
        LookupKind::Philosophy => {
            let mut i: usize = 0;
            assert(ws.philosophies@.take(0) =~= Seq::<crate::model::Philosophy>::empty());
            assert(hit_views(results@) =~= base + Seq::<HitSpec>::empty());
            while i < ws.philosophies.len()
                invariant
                    i <= ws.philosophies@.len(),
                    q == query@,
                    label == lookup_kind_label_spec(kind),
                    kind == LookupKind::Philosophy,
                    hit_views(results@) == base + ws.philosophies@.take(i as int).filter(|p: crate::model::Philosophy| field_matches(p.id@, q) || field_matches(p.title@, q))
                        .map_values(|p: crate::model::Philosophy| HitSpec { id: p.id@, kind: label, title: p.title@ }),
                decreases ws.philosophies@.len() - i,
            {
                let item = &ws.philosophies[i];
                let ghost prev = ws.philosophies@.take(i as int);
                assert(ws.philosophies@.take(i + 1) =~= prev.push(*item));
                reveal_with_fuel(Seq::filter, 1);
                assert(prev.push(*item).drop_last() =~= prev);
                if field_matches_query(item.id.as_str(), query) || field_matches_query(item.title.as_str(), query) {
                    push_hit(results, &item.id, kind, &item.title);
                }
                i = i + 1;
            }
            assert(ws.philosophies@.take(ws.philosophies@.len() as int) =~= ws.philosophies@);
        },
        LookupKind::Policy => {
            let mut i: usize = 0;
            assert(ws.policies@.take(0) =~= Seq::<crate::model::Policy>::empty());
            assert(hit_views(results@) =~= base + Seq::<HitSpec>::empty());
            while i < ws.policies.len()
                invariant
                    i <= ws.policies@.len(),
                    q == query@,
                    label == lookup_kind_label_spec(kind),
                    kind == LookupKind::Policy,
                    hit_views(results@) == base + ws.policies@.take(i as int).filter(|p: crate::model::Policy| field_matches(p.id@, q) || field_matches(p.title@, q)
                        || field_matches(p.summary@, q) || field_matches(p.description@, q))
                        .map_values(|p: crate::model::Policy| HitSpec { id: p.id@, kind: label, title: p.title@ }),
                decreases ws.policies@.len() - i,
            {
                let item = &ws.policies[i];
                let ghost prev = ws.policies@.take(i as int);
                assert(ws.policies@.take(i + 1) =~= prev.push(*item));
                reveal_with_fuel(Seq::filter, 1);
                assert(prev.push(*item).drop_last() =~= prev);
                if field_matches_query(item.id.as_str(), query) || field_matches_query(item.title.as_str(), query)
                    || field_matches_query(item.summary.as_str(), query) || field_matches_query(item.description.as_str(), query) {
                    push_hit(results, &item.id, kind, &item.title);
                }
                i = i + 1;
            }
            assert(ws.policies@.take(ws.policies@.len() as int) =~= ws.policies@);
        },
        LookupKind::Requirement => {
            let mut i: usize = 0;
            assert(ws.requirements@.take(0) =~= Seq::<crate::model::Requirement>::empty());
            assert(hit_views(results@) =~= base + Seq::<HitSpec>::empty());
            while i < ws.requirements.len()
                invariant
                    i <= ws.requirements@.len(),
                    q == query@,
                    label == lookup_kind_label_spec(kind),
                    kind == LookupKind::Requirement,
                    hit_views(results@) == base + ws.requirements@.take(i as int).filter(|r: crate::model::Requirement| field_matches(r.id@, q) || field_matches(r.title@, q)
                        || field_matches(r.description@, q))
                        .map_values(|r: crate::model::Requirement| HitSpec { id: r.id@, kind: label, title: r.title@ }),
                decreases ws.requirements@.len() - i,
            {
                let item = &ws.requirements[i];
                let ghost prev = ws.requirements@.take(i as int);
                assert(ws.requirements@.take(i + 1) =~= prev.push(*item));
                reveal_with_fuel(Seq::filter, 1);
                assert(prev.push(*item).drop_last() =~= prev);
                if field_matches_query(item.id.as_str(), query) || field_matches_query(item.title.as_str(), query)
                    || field_matches_query(item.description.as_str(), query) {
                    push_hit(results, &item.id, kind, &item.title);
                }
                i = i + 1;
            }
            assert(ws.requirements@.take(ws.requirements@.len() as int) =~= ws.requirements@);
        },
        LookupKind::Feature => {
            let mut i: usize = 0;
            assert(ws.features@.take(0) =~= Seq::<crate::model::Feature>::empty());
            assert(hit_views(results@) =~= base + Seq::<HitSpec>::empty());
            while i < ws.features.len()
                invariant
                    i <= ws.features@.len(),
                    q == query@,
                    label == lookup_kind_label_spec(kind),
                    kind == LookupKind::Feature,
                    hit_views(results@) == base + ws.features@.take(i as int).filter(|f: crate::model::Feature| field_matches(f.id@, q) || field_matches(f.title@, q)
                        || field_matches(f.summary@, q))
                        .map_values(|f: crate::model::Feature| HitSpec { id: f.id@, kind: label, title: f.title@ }),
                decreases ws.features@.len() - i,
            {
                let item = &ws.features[i];
                let ghost prev = ws.features@.take(i as int);
                assert(ws.features@.take(i + 1) =~= prev.push(*item));
                reveal_with_fuel(Seq::filter, 1);
                assert(prev.push(*item).drop_last() =~= prev);
                if field_matches_query(item.id.as_str(), query) || field_matches_query(item.title.as_str(), query)
                    || field_matches_query(item.summary.as_str(), query) {
                    push_hit(results, &item.id, kind, &item.title);
                }
                i = i + 1;
            }
            assert(ws.features@.take(ws.features@.len() as int) =~= ws.features@);
        },
    }
}

/// Searches the definitions of a workspace by id, title and text.
pub fn search(workspace: &Workspace, query: &str, kind: Option<LookupKind>) -> (res: Vec<SearchResult>)
    ensures
        hit_views(res@) == search_spec(*workspace, query@, kind),
{
    let trimmed = trim(query);
    let q = lowercase(trimmed.as_str());
    let mut results: Vec<SearchResult> = Vec::new();
    assert(hit_views(results@) =~= Seq::<HitSpec>::empty());
    match kind {
        Some(k) => {
            extend_search_results(workspace, k, q.as_str(), &mut results);
            assert(hit_views(results@) =~= layer_hits(*workspace, k, q@));
        },
        None => {
            extend_search_results(workspace, LookupKind::Philosophy, q.as_str(), &mut results);
            extend_search_results(workspace, LookupKind::Policy, q.as_str(), &mut results);
            extend_search_results(workspace, LookupKind::Feature, q.as_str(), &mut results);
            extend_search_results(workspace, LookupKind::Requirement, q.as_str(), &mut results);
            assert(hit_views(results@) =~= layer_hits(*workspace, LookupKind::Philosophy, q@) + layer_hits(*workspace, LookupKind::Policy, q@)
                + layer_hits(*workspace, LookupKind::Feature, q@) + layer_hits(*workspace, LookupKind::Requirement, q@));
        },
    }
    results
}

/// A definition's id and title, with the document it came from where known.
#[derive(Debug)]
pub struct EntitySummary {
    pub id: String,
    pub title: String,
    pub document_path: Option<String>,
}

pub open spec fn summary_views(v: Seq<EntitySummary>) -> Seq<(Seq<char>, Seq<char>)> {
    Seq::new(v.len(), |i: int| (v[i].id@, v[i].title@))
}

/// The id and title of every definition of a layer, in workspace order.
pub open spec fn layer_entries(ws: Workspace, kind: LookupKind) -> Seq<(Seq<char>, Seq<char>)> {
    match kind {
        LookupKind::Philosophy => Seq::new(ws.philosophies@.len(), |i: int| (ws.philosophies@[i].id@, ws.philosophies@[i].title@)),
        LookupKind::Policy => Seq::new(ws.policies@.len(), |i: int| (ws.policies@[i].id@, ws.policies@[i].title@)),
        LookupKind::Requirement => Seq::new(ws.requirements@.len(), |i: int| (ws.requirements@[i].id@, ws.requirements@[i].title@)),
        LookupKind::Feature => Seq::new(ws.features@.len(), |i: int| (ws.features@[i].id@, ws.features@[i].title@)),
    }
}

fn push_summary(out: &mut Vec<EntitySummary>, id: &String, title: &String)
    ensures
        summary_views(final(out)@) == summary_views(old(out)@).push((id@, title@)),
        forall|k: int| 0 <= k < old(out)@.len() ==> final(out)@[k] == old(out)@[k],
        final(out)@.len() == old(out)@.len() + 1,
        final(out)@.last().document_path is None,
{
    let ghost before = out@;
    out.push(EntitySummary { id: id.clone(), title: title.clone(), document_path: None });
    assert(summary_views(out@) =~= summary_views(before).push((id@, title@)));
}

/// The summaries of one layer, without document paths.
pub fn entries(workspace: &Workspace, kind: LookupKind) -> (res: Vec<EntitySummary>)
    ensures
        summary_views(res@) == layer_entries(*workspace, kind),
        forall|k: int| 0 <= k < res@.len() ==> (#[trigger] res@[k]).document_path is None,
{
    let mut out: Vec<EntitySummary> = Vec::new();
    let mut i: usize = 0;
    match kind {
        LookupKind::Philosophy => {
            while i < workspace.philosophies.len()
                invariant
                    i <= workspace.philosophies@.len(),
                    summary_views(out@) == layer_entries(*workspace, kind).take(i as int),
                    kind == LookupKind::Philosophy,
                    forall|k: int| 0 <= k < out@.len() ==> (#[trigger] out@[k]).document_path is None,
                decreases workspace.philosophies@.len() - i,
            {
                push_summary(&mut out, &workspace.philosophies[i].id, &workspace.philosophies[i].title);
                assert(layer_entries(*workspace, kind).take(i + 1) =~= layer_entries(*workspace, kind).take(i as int).push(
                    (workspace.philosophies@[i as int].id@, workspace.philosophies@[i as int].title@)));
                i = i + 1;
            }
        },
        LookupKind::Policy => {
            while i < workspace.policies.len()
                invariant
                    i <= workspace.policies@.len(),
                    summary_views(out@) == layer_entries(*workspace, kind).take(i as int),
                    kind == LookupKind::Policy,
                    forall|k: int| 0 <= k < out@.len() ==> (#[trigger] out@[k]).document_path is None,
                decreases workspace.policies@.len() - i,
            {
                push_summary(&mut out, &workspace.policies[i].id, &workspace.policies[i].title);
                assert(layer_entries(*workspace, kind).take(i + 1) =~= layer_entries(*workspace, kind).take(i as int).push(
                    (workspace.policies@[i as int].id@, workspace.policies@[i as int].title@)));
                i = i + 1;
            }
        },
        LookupKind::Requirement => {
            while i < workspace.requirements.len()
                invariant
                    i <= workspace.requirements@.len(),
                    summary_views(out@) == layer_entries(*workspace, kind).take(i as int),
                    kind == LookupKind::Requirement,
                    forall|k: int| 0 <= k < out@.len() ==> (#[trigger] out@[k]).document_path is None,
                decreases workspace.requirements@.len() - i,
            {
                push_summary(&mut out, &workspace.requirements[i].id, &workspace.requirements[i].title);
                assert(layer_entries(*workspace, kind).take(i + 1) =~= layer_entries(*workspace, kind).take(i as int).push(
                    (workspace.requirements@[i as int].id@, workspace.requirements@[i as int].title@)));
                i = i + 1;
            }
        },
        LookupKind::Feature => {
            while i < workspace.features.len()
                invariant
                    i <= workspace.features@.len(),
                    summary_views(out@) == layer_entries(*workspace, kind).take(i as int),
                    kind == LookupKind::Feature,
                    forall|k: int| 0 <= k < out@.len() ==> (#[trigger] out@[k]).document_path is None,
                decreases workspace.features@.len() - i,
            {
                push_summary(&mut out, &workspace.features[i].id, &workspace.features[i].title);
                assert(layer_entries(*workspace, kind).take(i + 1) =~= layer_entries(*workspace, kind).take(i as int).push(
                    (workspace.features@[i as int].id@, workspace.features@[i as int].title@)));
                i = i + 1;
            }
        },
    }
    assert(layer_entries(*workspace, kind).take(layer_entries(*workspace, kind).len() as int) =~= layer_entries(*workspace, kind));
    out
}

/// The first position at or after `start` whose id is `id`.
pub open spec fn index_from(ents: Seq<(Seq<char>, Seq<char>)>, id: Seq<char>, start: int) -> Option<int>
    decreases ents.len() - start,
{
    if start < 0 || start >= ents.len() {
        None
    } else if ents[start].0 == id {
        Some(start)
    } else {
        index_from(ents, id, start + 1)
    }
}

pub proof fn lemma_index_from_bounds(ents: Seq<(Seq<char>, Seq<char>)>, id: Seq<char>, start: int)
    ensures
        index_from(ents, id, start) matches Some(k) ==> start <= k < ents.len() && ents[k].0 == id,
    decreases ents.len() - start,
{
    if 0 <= start < ents.len() && ents[start].0 != id {
        lemma_index_from_bounds(ents, id, start + 1);
    }
}

/// The position of the first summary with this id.
pub fn position_of(summaries: &Vec<EntitySummary>, id: &str) -> (res: Option<usize>)
    ensures
        res == match index_from(summary_views(summaries@), id@, 0) { Some(k) => Some(k as usize), None => None::<usize> },
        res matches Some(k) ==> k < summaries@.len() && summaries@[k as int].id@ == id@,
        res matches Some(k) ==> index_from(summary_views(summaries@), id@, 0) == Some(k as int),
        res is None ==> index_from(summary_views(summaries@), id@, 0) is None,
{
    proof {
        lemma_index_from_bounds(summary_views(summaries@), id@, 0);
    }
    let ghost ents = summary_views(summaries@);
    let mut i: usize = 0;
    while i < summaries.len()
        invariant
            i <= summaries@.len(),
            ents == summary_views(summaries@),
            index_from(ents, id@, 0) == index_from(ents, id@, i as int),
        decreases summaries@.len() - i,
    {
        if str_eq(summaries[i].id.as_str(), id) {
            return Some(i);
        }
        i = i + 1;
    }
    None
}

/// The title of the first definition of a layer with this id.
pub open spec fn layer_title(ws: Workspace, kind: LookupKind, id: Seq<char>) -> Option<Seq<char>> {
    let ents = layer_entries(ws, kind);
    match index_from(ents, id, 0) {
        Some(k) => Some(ents[k].1),
        None => None,
    }
}

pub fn title_for(workspace: &Workspace, kind: LookupKind, id: &str) -> (res: Option<String>)
    ensures
        match res {
            Some(t) => layer_title(*workspace, kind, id@) == Some(t@),
            None => layer_title(*workspace, kind, id@).is_none(),
        },
{
    let all = entries(workspace, kind);
    match position_of(&all, id) {
        Some(k) => {
            proof {
                lemma_index_from_bounds(summary_views(all@), id@, 0);
            }
            assert(summary_views(all@)[k as int].1 == all@[k as int].title@);
            Some(all[k].title.clone())
        },
        None => None,
    }
}

/// A definition found by id: its layer and its position there.
#[derive(Debug, Clone, Copy, PartialEq, Eq, Structural)]
pub enum WorkspaceEntity {
    Philosophy(usize),
    Policy(usize),
    Requirement(usize),
    Feature(usize),
}

/// Finds a definition by id; the id's prefix names the layer that is searched.
pub fn find(workspace: &Workspace, id: &str) -> (res: Option<WorkspaceEntity>)
    ensures
        match res {
            Some(WorkspaceEntity::Philosophy(k)) => kind_for_id_spec(id@) == Some(LookupKind::Philosophy)
                && k < workspace.philosophies@.len() && workspace.philosophies@[k as int].id@ == id@,
            Some(WorkspaceEntity::Policy(k)) => kind_for_id_spec(id@) == Some(LookupKind::Policy)
                && k < workspace.policies@.len() && workspace.policies@[k as int].id@ == id@,
            Some(WorkspaceEntity::Requirement(k)) => kind_for_id_spec(id@) == Some(LookupKind::Requirement)
                && k < workspace.requirements@.len() && workspace.requirements@[k as int].id@ == id@,
            Some(WorkspaceEntity::Feature(k)) => kind_for_id_spec(id@) == Some(LookupKind::Feature)
                && k < workspace.features@.len() && workspace.features@[k as int].id@ == id@,
            None => match kind_for_id_spec(id@) {
                Some(LookupKind::Philosophy) => forall|k: int| 0 <= k < workspace.philosophies@.len() ==> (#[trigger] workspace.philosophies@[k]).id@ != id@,
                Some(LookupKind::Policy) => forall|k: int| 0 <= k < workspace.policies@.len() ==> (#[trigger] workspace.policies@[k]).id@ != id@,
                Some(LookupKind::Requirement) => forall|k: int| 0 <= k < workspace.requirements@.len() ==> (#[trigger] workspace.requirements@[k]).id@ != id@,
                Some(LookupKind::Feature) => forall|k: int| 0 <= k < workspace.features@.len() ==> (#[trigger] workspace.features@[k]).id@ != id@,
                None => true,
            },
        },
{
    match kind_for_id(id) {
        Some(LookupKind::Philosophy) => {
            let mut k: usize = 0;
            while k < workspace.philosophies.len()
                invariant
                    k <= workspace.philosophies@.len(),
                    kind_for_id_spec(id@) == Some(LookupKind::Philosophy),
                    forall|j: int| 0 <= j < k ==> (#[trigger] workspace.philosophies@[j]).id@ != id@,
                decreases workspace.philosophies@.len() - k,
            {
                if str_eq(workspace.philosophies[k].id.as_str(), id) {
                    return Some(WorkspaceEntity::Philosophy(k));
                }
                k = k + 1;
            }
            None
        },
        Some(LookupKind::Policy) => {
            let mut k: usize = 0;
            while k < workspace.policies.len()
                invariant
                    k <= workspace.policies@.len(),
                    kind_for_id_spec(id@) == Some(LookupKind::Policy),
                    forall|j: int| 0 <= j < k ==> (#[trigger] workspace.policies@[j]).id@ != id@,
                decreases workspace.policies@.len() - k,
            {
                if str_eq(workspace.policies[k].id.as_str(), id) {
                    return Some(WorkspaceEntity::Policy(k));
                }
                k = k + 1;
            }
            None
        },
        Some(LookupKind::Requirement) => {
            let mut k: usize = 0;
            while k < workspace.requirements.len()
                invariant
                    k <= workspace.requirements@.len(),
                    kind_for_id_spec(id@) == Some(LookupKind::Requirement),
                    forall|j: int| 0 <= j < k ==> (#[trigger] workspace.requirements@[j]).id@ != id@,
                decreases workspace.requirements@.len() - k,
            {
                if str_eq(workspace.requirements[k].id.as_str(), id) {
                    return Some(WorkspaceEntity::Requirement(k));
                }
                k = k + 1;
            }
            None
        },
        Some(LookupKind::Feature) => {
            let mut k: usize = 0;
            while k < workspace.features.len()
                invariant
                    k <= workspace.features@.len(),
                    kind_for_id_spec(id@) == Some(LookupKind::Feature),
                    forall|j: int| 0 <= j < k ==> (#[trigger] workspace.features@[j]).id@ != id@,
                decreases workspace.features@.len() - k,
            {
                if str_eq(workspace.features[k].id.as_str(), id) {
                    return Some(WorkspaceEntity::Feature(k));
                }
                k = k + 1;
            }
            None
        },
        None => None,
    }
}


pub open spec fn doc_views(v: Seq<EntitySummary>) -> Seq<Option<Seq<char>>> {
    Seq::new(v.len(), |i: int| crate::log::opt_view(v[i].document_path))
}

/// The summaries of one layer with the document each definition came from;
/// `documents` holds one document per definition, in workspace order.
pub fn entries_with_document_paths(workspace: &Workspace, kind: LookupKind, documents: &Vec<String>) -> (res: Result<Vec<EntitySummary>, String>)
    ensures
        documents@.len() == layer_entries(*workspace, kind).len() <==> res is Ok,
        res matches Ok(v) ==> summary_views(v@) == layer_entries(*workspace, kind)
            && doc_views(v@) == Seq::new(documents@.len(), |i: int| Some(documents@[i]@)),
        res matches Err(e) ==> e@ == "workspace "@ + lookup_kind_label_spec(kind) + " entries changed while collecting document paths"@,
{
    let mut items = entries(workspace, kind);
    if items.len() != documents.len() {
        let mut e = String::from_str("workspace ");
        e.append(kind.label());
        e.append(" entries changed while collecting document paths");
        return Err(e);
    }
    let ghost views_before = summary_views(items@);
    let mut i: usize = 0;
    while i < items.len()
        invariant
            i <= items@.len(),
            items@.len() == documents@.len(),
            summary_views(items@) == views_before,
            forall|k: int| 0 <= k < i ==> crate::log::opt_view((#[trigger] items@[k]).document_path) == Some(documents@[k]@),
        decreases items@.len() - i,
    {
        let mut item = items.remove(i);
        item.document_path = Some(documents[i].clone());
        items.insert(i, item);
        assert(summary_views(items@) =~= views_before);
        i = i + 1;
    }
    assert(doc_views(items@) =~= Seq::new(documents@.len(), |k: int| Some(documents@[k]@)));
    Ok(items)
}

/// The document of the first definition with this id, given the documents
/// of the id's layer; unknown prefixes have none.
pub open spec fn document_for_id_spec(ws: Workspace, id: Seq<char>, documents: Seq<Seq<char>>) -> Result<Option<Seq<char>>, Seq<char>> {
    match kind_for_id_spec(id) {
        None => Ok(None),
        Some(kind) => if documents.len() != layer_entries(ws, kind).len() {
            Err("workspace "@ + lookup_kind_label_spec(kind) + " entries changed while collecting document paths"@)
        } else {
            match index_from(layer_entries(ws, kind), id, 0) {
                Some(k) => Ok(Some(documents[k])),
                None => Ok(None),
            }
        },
    }
}

pub fn document_path_for_id(workspace: &Workspace, id: &str, documents: &Vec<String>) -> (res: Result<Option<String>, String>)
    ensures
        match res {
            Ok(Some(d)) => document_for_id_spec(*workspace, id@, crate::text::views(documents@)) == Ok::<Option<Seq<char>>, Seq<char>>(Some(d@)),
            Ok(None) => document_for_id_spec(*workspace, id@, crate::text::views(documents@)) == Ok::<Option<Seq<char>>, Seq<char>>(None),
            Err(e) => document_for_id_spec(*workspace, id@, crate::text::views(documents@)) == Err::<Option<Seq<char>>, Seq<char>>(e@),
        },
{
    let kind = match kind_for_id(id) {
        Some(kind) => kind,
        None => return Ok(None),
    };
    let items = entries_with_document_paths(workspace, kind, documents)?;
    match position_of(&items, id) {
        Some(k) => {
            assert(crate::log::opt_view(items@[k as int].document_path) == doc_views(items@)[k as int]);
            match &items[k].document_path {
                Some(d) => Ok(Some(d.clone())),
                None => Ok(None),
            }
        },
        None => Ok(None),
    }
}

} // verus!
