//! `syu log`: which definition a history request names, and the paths its
//! history follows after the kind and path filters.
use vstd::prelude::*;

use crate::add::opt_str_view;
use crate::check::Workspace;
use crate::cli::{HistoryKind, LookupKind, history_kind_label_spec, lookup_kind_label_spec};
use crate::log::{
    HistoryTarget, TrackedPath, TrackedPathSpec, feature_paths_spec, kind_for_id_spec, non_trace_paths_spec,
    requirement_paths_spec, tracked_paths_for_feature, tracked_paths_for_non_trace_layer,
    tracked_paths_for_requirement, tracked_views,
};
use crate::lookup::{WorkspaceEntity, entries, kind_for_id, layer_entries, summary_views};
use crate::paths::{normalize_relative_path, normalize_relative_spec, path_starts_with, starts_with_path};
use crate::shell::{shell_quote_path, shell_quote_spec};
use crate::text::{cat, cat3, join, join_seq, owned, str_eq, views};

verus! {

// ---------------------------------------------------------------------------
// The definition a request names
// ---------------------------------------------------------------------------

/// The positions of the entries that carry an id, in order.
pub open spec fn id_positions(ents: Seq<(Seq<char>, Seq<char>)>, id: Seq<char>) -> Seq<int>
    decreases ents.len(),
{
    if ents.len() == 0 {
        Seq::empty()
    } else {
        let prev = id_positions(ents.drop_last(), id);
        if ents.last().0 == id {
            prev.push(ents.len() - 1)
        } else {
            prev
        }
    }
}

pub open spec fn not_found_spec(root: Seq<char>, id: Seq<char>) -> Seq<char> {
    "definition `"@ + id + "` was not found in `"@ + root + "`\n\nhint: Run `syu list "@ + shell_quote_spec(root)
        + "` to see all available IDs, or `syu search "@ + id + " "@ + shell_quote_spec(root) + "` to find related items."@
}

pub open spec fn ambiguous_spec(id: Seq<char>, lines: Seq<Seq<char>>) -> Seq<char> {
    "definition `"@ + id + "` is ambiguous because it appears in multiple documents:\n"@ + join_seq(lines, "\n"@)
        + "\n\nhint: fix the duplicate ID before using `syu log`."@
}

pub open spec fn entity_at(kind: LookupKind, k: int) -> WorkspaceEntity {
    match kind {
        LookupKind::Philosophy => WorkspaceEntity::Philosophy(k as usize),
        LookupKind::Policy => WorkspaceEntity::Policy(k as usize),
        LookupKind::Requirement => WorkspaceEntity::Requirement(k as usize),
        LookupKind::Feature => WorkspaceEntity::Feature(k as usize),
    }
}

/// The definition an id names and the document it is written in, given the
/// document of each definition of the id's layer: unknown ids, a document
/// list that does not fit the layer, and ids that occur more than once are
/// refused.
pub open spec fn history_entity_spec(ws: Workspace, root: Seq<char>, id: Seq<char>, docs: Seq<Seq<char>>) -> Result<(WorkspaceEntity, Seq<char>), Seq<char>> {
    match kind_for_id_spec(id) {
        None => Err(not_found_spec(root, id)),
        Some(kind) => {
            let ents = layer_entries(ws, kind);
            let hits = id_positions(ents, id);
            if docs.len() != ents.len() {
                Err("workspace "@ + lookup_kind_label_spec(kind) + " entries changed while collecting document paths"@)
            } else if hits.len() == 0 {
                Err(not_found_spec(root, id))
            } else if hits.len() > 1 {
                Err(ambiguous_spec(id, Seq::new(hits.len(), |j: int| "- "@ + docs[hits[j]])))
            } else {
                Ok((entity_at(kind, hits[0]), docs[hits[0]]))
            }
        },
    }
}

fn not_found_message(root: &str, id: &str) -> (res: String)
    ensures
        res@ == not_found_spec(root@, id@),
{
    let quoted = shell_quote_path(root);
    let mut out = cat3("definition `", id, "` was not found in `");
    out.append(root);
    out.append("`\n\nhint: Run `syu list ");
    out.append(quoted.as_str());
    out.append("` to see all available IDs, or `syu search ");
    out.append(id);
    out.append(" ");
    out.append(quoted.as_str());
    out.append("` to find related items.");
    out
}

/// Resolves the definition of a history request; `document_paths` holds the
/// document of each definition of the id's layer, in workspace order.
pub fn resolve_history_entity(ws: &Workspace, workspace_root: &str, id: &str, document_paths: &Vec<String>) -> (res: Result<(WorkspaceEntity, String), String>)
    ensures
        match res {
            Ok((e, d)) => history_entity_spec(*ws, workspace_root@, id@, views(document_paths@)) == Ok::<(WorkspaceEntity, Seq<char>), Seq<char>>((e, d@)),
            Err(m) => history_entity_spec(*ws, workspace_root@, id@, views(document_paths@)) == Err::<(WorkspaceEntity, Seq<char>), Seq<char>>(m@),
        },
{
    let kind = match kind_for_id(id) {
        Some(kind) => kind,
        None => return Err(not_found_message(workspace_root, id)),
    };
    let summaries = entries(ws, kind);
    let ghost ents = layer_entries(*ws, kind);
    assert(summary_views(summaries@) == ents);
    if summaries.len() != document_paths.len() {
        assert(views(document_paths@).len() != ents.len());
        return Err(cat3("workspace ", kind.label(), " entries changed while collecting document paths"));
    }
    let mut hits: Vec<usize> = Vec::new();
    let mut i: usize = 0;
    assert(ents.take(0) =~= Seq::<(Seq<char>, Seq<char>)>::empty());
    assert(hits@.map_values(|k: usize| k as int) =~= Seq::<int>::empty());
    while i < summaries.len()
        invariant
            i <= summaries@.len(),
            summary_views(summaries@) == ents,
            hits@.map_values(|k: usize| k as int) == id_positions(ents.take(i as int), id@),
            forall|j: int| 0 <= j < hits@.len() ==> hits@[j] < i,
        decreases summaries@.len() - i,
    {
        assert(ents.take(i + 1).drop_last() =~= ents.take(i as int));
        assert(ents.take(i + 1).last() == ents[i as int]);
        assert(ents[i as int].0 == summaries@[i as int].id@);
        if str_eq(summaries[i].id.as_str(), id) {
            let ghost before = hits@;
            hits.push(i);
            assert(hits@.map_values(|k: usize| k as int) =~= before.map_values(|k: usize| k as int).push(i as int));
        }
        i = i + 1;
    }
    assert(ents.take(summaries@.len() as int) =~= ents);
    let ghost pos = id_positions(ents, id@);
    assert(hits@.len() == pos.len());
    if hits.len() == 0 {
        return Err(not_found_message(workspace_root, id));
    }
    if hits.len() > 1 {
        let mut lines: Vec<String> = Vec::new();
        let mut j: usize = 0;
        while j < hits.len()
            invariant
                j <= hits@.len(),
                hits@.len() == pos.len(),
                hits@.map_values(|k: usize| k as int) == pos,
                forall|x: int| 0 <= x < hits@.len() ==> hits@[x] < document_paths@.len(),
                views(lines@) == Seq::new(j as nat, |x: int| "- "@ + views(document_paths@)[pos[x]]),
            decreases hits@.len() - j,
        {
            assert(pos[j as int] == hits@[j as int] as int);
            let line = cat("- ", document_paths[hits[j]].as_str());
            let ghost before = views(lines@);
            lines.push(line);
            assert(views(document_paths@)[pos[j as int]] == document_paths@[hits@[j as int] as int]@);
            assert(views(lines@) =~= before.push(line@));
            assert(line@ == "- "@ + views(document_paths@)[pos[j as int]]);
            assert(views(lines@) =~= Seq::new((j + 1) as nat, |x: int| "- "@ + views(document_paths@)[pos[x]]));
            j = j + 1;
        }
        let listed = join(&lines, "\n");
        let mut out = cat3("definition `", id, "` is ambiguous because it appears in multiple documents:\n");
        out.append(listed.as_str());
        out.append("\n\nhint: fix the duplicate ID before using `syu log`.");
        return Err(out);
    }
    let k = hits[0];
    assert(pos[0] == k as int);
    let entity = match kind {
        LookupKind::Philosophy => WorkspaceEntity::Philosophy(k),
        LookupKind::Policy => WorkspaceEntity::Policy(k),
        LookupKind::Requirement => WorkspaceEntity::Requirement(k),
        LookupKind::Feature => WorkspaceEntity::Feature(k),
    };
    Ok((entity, owned(document_paths[k].as_str())))
}

// ---------------------------------------------------------------------------
// The path filter
// ---------------------------------------------------------------------------

/// The followed paths that, normalised, lie at or below the filter.
pub open spec fn kept_paths(v: Seq<TrackedPathSpec>, filter: Seq<char>) -> Seq<TrackedPathSpec>
    decreases v.len(),
{
    if v.len() == 0 {
        Seq::empty()
    } else {
        let prev = kept_paths(v.drop_last(), filter);
        if starts_with_path(normalize_relative_spec(v.last().path), filter) {
            prev.push(v.last())
        } else {
            prev
        }
    }
}

/// Keeps the followed paths that lie at or below the filter, in order.
pub fn retain_under(followed: &Vec<TrackedPath>, filter: &str) -> (res: Vec<TrackedPath>)
    ensures
        tracked_views(res@) == kept_paths(tracked_views(followed@), filter@),
{
    let ghost all = tracked_views(followed@);
    let mut out: Vec<TrackedPath> = Vec::new();
    let mut i: usize = 0;
    assert(all.take(0) =~= Seq::<TrackedPathSpec>::empty());
    assert(tracked_views(out@) =~= Seq::<TrackedPathSpec>::empty());
    while i < followed.len()
        invariant
            i <= followed@.len(),
            all == tracked_views(followed@),
            tracked_views(out@) == kept_paths(all.take(i as int), filter@),
        decreases followed@.len() - i,
    {
        assert(all.take(i + 1).drop_last() =~= all.take(i as int));
        assert(all.take(i + 1).last() == followed@[i as int]@);
        let normalized = normalize_relative_path(followed[i].path.as_str());
        if path_starts_with(normalized.as_str(), filter) {
            let copy = followed[i].duplicate();
            let ghost before = tracked_views(out@);
            out.push(copy);
            assert(tracked_views(out@) =~= before.push(copy@));
        }
        i = i + 1;
    }
    assert(all.take(followed@.len() as int) =~= all);
    out
}

// ---------------------------------------------------------------------------
// The history target
// ---------------------------------------------------------------------------

/// The layer name, title and followed paths of a definition.
pub open spec fn entity_paths_spec(ws: Workspace, e: WorkspaceEntity, kind: HistoryKind, def: Seq<char>) -> Result<(Seq<char>, Seq<char>, Seq<TrackedPathSpec>), Seq<char>> {
    match e {
        WorkspaceEntity::Requirement(k) => match requirement_paths_spec(ws.requirements@[k as int], kind, def) {
            Ok(p) => Ok(("requirement"@, ws.requirements@[k as int].title@, p)),
            Err(m) => Err(m),
        },
        WorkspaceEntity::Feature(k) => match feature_paths_spec(ws.features@[k as int], kind, def) {
            Ok(p) => Ok(("feature"@, ws.features@[k as int].title@, p)),
            Err(m) => Err(m),
        },
        WorkspaceEntity::Philosophy(k) => match non_trace_paths_spec(ws.philosophies@[k as int].id@, "philosophy"@, kind, def) {
            Ok(p) => Ok(("philosophy"@, ws.philosophies@[k as int].title@, p)),
            Err(m) => Err(m),
        },
        WorkspaceEntity::Policy(k) => match non_trace_paths_spec(ws.policies@[k as int].id@, "policy"@, kind, def) {
            Ok(p) => Ok(("policy"@, ws.policies@[k as int].title@, p)),
            Err(m) => Err(m),
        },
    }
}

pub open spec fn no_paths_spec(id: Seq<char>, kind: HistoryKind, filter: Option<Seq<char>>) -> Seq<char> {
    "no tracked history paths remain for `"@ + id + "` after applying kind `"@ + history_kind_label_spec(kind) + "`"@
        + match filter {
        Some(f) => " and path `"@ + f + "`"@,
        None => Seq::empty(),
    }
}

/// What a history request follows: the definition's id, layer and title, and
/// the paths of the requested kind that the path filter keeps; a request that
/// keeps no path is refused.
pub open spec fn history_target_spec(
    ws: Workspace,
    root: Seq<char>,
    id: Seq<char>,
    docs: Seq<Seq<char>>,
    kind: HistoryKind,
    filter: Option<Seq<char>>,
) -> Result<(Seq<char>, Seq<char>, Seq<char>, Seq<TrackedPathSpec>), Seq<char>> {
    match history_entity_spec(ws, root, id, docs) {
        Err(m) => Err(m),
        Ok((e, def)) => match entity_paths_spec(ws, e, kind, def) {
            Err(m) => Err(m),
            Ok((layer, title, paths)) => {
                let kept = match filter {
                    Some(f) => kept_paths(paths, f),
                    None => paths,
                };
                if kept.len() == 0 {
                    Err(no_paths_spec(id, kind, filter))
                } else {
                    Ok((id, layer, title, kept))
                }
            },
        },
    }
}

fn no_paths_message(id: &str, kind: HistoryKind, path_filter: Option<&str>) -> (res: String)
    ensures
        res@ == no_paths_spec(id@, kind, opt_str_view(path_filter)),
{
    let mut out = cat3("no tracked history paths remain for `", id, "` after applying kind `");
    out.append(kind.label());
    out.append("`");
    match path_filter {
        Some(f) => {
            out.append(" and path `");
            out.append(f);
            out.append("`");
        },
        None => {
            proof {
                reveal_strlit("");
            }
            assert(out@ =~= out@ + Seq::<char>::empty());
        },
    }
    out
}

/// Builds the history target of a request: the definition it names, the
/// paths of the requested kind, and those the path filter keeps.
pub fn build_history_target(
    ws: &Workspace,
    workspace_root: &str,
    id: &str,
    document_paths: &Vec<String>,
    kind: HistoryKind,
    path_filter: Option<&str>,
) -> (res: Result<HistoryTarget, String>)
    ensures
        match res {
            Ok(t) => history_target_spec(*ws, workspace_root@, id@, views(document_paths@), kind, opt_str_view(path_filter))
                == Ok::<(Seq<char>, Seq<char>, Seq<char>, Seq<TrackedPathSpec>), Seq<char>>((t.id@, t.entity_kind@, t.title@, tracked_views(t.tracked_paths@))),
            Err(m) => history_target_spec(*ws, workspace_root@, id@, views(document_paths@), kind, opt_str_view(path_filter))
                == Err::<(Seq<char>, Seq<char>, Seq<char>, Seq<TrackedPathSpec>), Seq<char>>(m@),
        },
{
    let (entity, definition_path) = resolve_history_entity(ws, workspace_root, id, document_paths)?;
    proof {
        let kind_of = kind_for_id_spec(id@);
        let ents = layer_entries(*ws, kind_of.unwrap());
        lemma_id_positions_in_range(ents, id@);
    }
    let (entity_kind, title, found): (&'static str, String, Vec<TrackedPath>) = match entity {
        WorkspaceEntity::Requirement(k) => {
            let item = &ws.requirements[k];
            ("requirement", owned(item.title.as_str()), tracked_paths_for_requirement(item, kind, definition_path.as_str())?)
        },
        WorkspaceEntity::Feature(k) => {
            let item = &ws.features[k];
            ("feature", owned(item.title.as_str()), tracked_paths_for_feature(item, kind, definition_path.as_str())?)
        },
        WorkspaceEntity::Philosophy(k) => {
            let item = &ws.philosophies[k];
            ("philosophy", owned(item.title.as_str()), tracked_paths_for_non_trace_layer(item.id.as_str(), "philosophy", kind, definition_path.as_str())?)
        },
        WorkspaceEntity::Policy(k) => {
            let item = &ws.policies[k];
            ("policy", owned(item.title.as_str()), tracked_paths_for_non_trace_layer(item.id.as_str(), "policy", kind, definition_path.as_str())?)
        },
    };
    let tracked_paths = match path_filter {
        Some(filter) => retain_under(&found, filter),
        None => found,
    };
    if tracked_paths.len() == 0 {
        return Err(no_paths_message(id, kind, path_filter));
    }
    Ok(HistoryTarget { id: owned(id), entity_kind, title, tracked_paths })
}

proof fn lemma_id_positions_in_range(ents: Seq<(Seq<char>, Seq<char>)>, id: Seq<char>)
    ensures
        forall|j: int| 0 <= j < id_positions(ents, id).len() ==> 0 <= #[trigger] id_positions(ents, id)[j] < ents.len()
            && ents[id_positions(ents, id)[j]].0 == id,
    decreases ents.len(),
{
    if ents.len() > 0 {
        lemma_id_positions_in_range(ents.drop_last(), id);
        let prev = id_positions(ents.drop_last(), id);
        assert forall|j: int| 0 <= j < prev.len() implies ents[prev[j]] == ents.drop_last()[prev[j]] by {}
    }
}


/// The path filter keeps only paths that lie at or below it, and keeps them
/// in their order.
pub proof fn lemma_kept_paths_under_filter(v: Seq<TrackedPathSpec>, filter: Seq<char>)
    ensures
        kept_paths(v, filter).len() <= v.len(),
        forall|i: int| 0 <= i < kept_paths(v, filter).len()
            ==> starts_with_path(normalize_relative_spec((#[trigger] kept_paths(v, filter)[i]).path), filter),
        forall|i: int| 0 <= i < kept_paths(v, filter).len() ==> v.contains(#[trigger] kept_paths(v, filter)[i]),
    decreases v.len(),
{
    if v.len() > 0 {
        lemma_kept_paths_under_filter(v.drop_last(), filter);
        let prev = kept_paths(v.drop_last(), filter);
        assert forall|i: int| 0 <= i < kept_paths(v, filter).len() implies v.contains(#[trigger] kept_paths(v, filter)[i]) by {
            if i < prev.len() {
                assert(kept_paths(v, filter)[i] == prev[i]);
                let j = choose|j: int| 0 <= j < v.drop_last().len() && v.drop_last()[j] == prev[i];
                assert(v[j] == prev[i]);
            } else {
                assert(v[v.len() - 1] == v.last());
            }
        }
    }
}

} // verus!
