//! `syu log`: which paths a definition's history follows, and how the
//! commits that touched them are read and shown.
use vstd::prelude::*;

use crate::cli::{HistoryKind, LookupKind, history_kind_label_spec};
use crate::model::{Feature, Requirement, TraceGroup};
use crate::order::{strictly_sorted, lemma_order_antisym, lemma_order_eq, lemma_order_range, lemma_order_trans, seq_order, str_order};
use crate::paths::{contains_part, is_absolute, normalize_parts, normalize_relative_path, normalize_relative_spec, normalized_parts, path_is_absolute, strip_root, strip_root_spec};
use crate::text::{is_prefix, join, join_seq, starts_with, str_eq, trim, trim_seq, views};

verus! {

// ---------------------------------------------------------------------------
// Followed paths
// ---------------------------------------------------------------------------

/// A path whose history is followed, and why.
#[derive(Debug)]
pub struct TrackedPath {
    pub kind: &'static str,
    pub path: String,
    pub owner_kind: &'static str,
    pub owner_id: String,
    pub source: &'static str,
    pub language: Option<String>,
    pub symbols: Vec<String>,
}

pub struct TrackedPathSpec {
    pub kind: Seq<char>,
    pub path: Seq<char>,
    pub owner_kind: Seq<char>,
    pub owner_id: Seq<char>,
    pub source: Seq<char>,
    pub language: Option<Seq<char>>,
    pub symbols: Seq<Seq<char>>,
}

pub open spec fn opt_view(o: Option<String>) -> Option<Seq<char>> {
    match o {
        Some(s) => Some(s@),
        None => None,
    }
}

impl View for TrackedPath {
    type V = TrackedPathSpec;

    open spec fn view(&self) -> TrackedPathSpec {
        TrackedPathSpec {
            kind: self.kind@,
            path: self.path@,
            owner_kind: self.owner_kind@,
            owner_id: self.owner_id@,
            source: self.source@,
            language: opt_view(self.language),
            symbols: views(self.symbols@),
        }
    }
}

pub open spec fn tracked_views(v: Seq<TrackedPath>) -> Seq<TrackedPathSpec> {
    Seq::new(v.len(), |i: int| v[i]@)
}

pub open spec fn definition_spec(owner_kind: Seq<char>, owner_id: Seq<char>, source: Seq<char>, path: Seq<char>) -> TrackedPathSpec {
    TrackedPathSpec {
        kind: "definition"@,
        path,
        owner_kind,
        owner_id,
        source,
        language: None,
        symbols: Seq::empty(),
    }
}

fn clone_strings(v: &Vec<String>) -> (res: Vec<String>)
    ensures
        views(res@) == views(v@),
{
    let mut out: Vec<String> = Vec::new();
    let mut i: usize = 0;
    while i < v.len()
        invariant
            i <= v@.len(),
            out@.len() == i,
            forall|k: int| 0 <= k < i ==> (#[trigger] out@[k])@ == v@[k]@,
        decreases v@.len() - i,
    {
        out.push(v[i].clone());
        i = i + 1;
    }
    assert(views(out@) =~= views(v@));
    out
}

impl TrackedPath {
    /// The definition document of a definition.
    pub fn definition(owner_kind: &'static str, owner_id: &str, source: &'static str, path: &str) -> (res: TrackedPath)
        ensures
            res@ == definition_spec(owner_kind@, owner_id@, source@, path@),
    {
        let res = TrackedPath {
            kind: "definition",
            path: String::from_str(path),
            owner_kind,
            owner_id: String::from_str(owner_id),
            source,
            language: None,
            symbols: Vec::new(),
        };
        assert(res@.symbols =~= Seq::<Seq<char>>::empty());
        res
    }

    /// A copy with the same content.
    pub fn duplicate(&self) -> (res: TrackedPath)
        ensures
            res@ == self@,
    {
        TrackedPath {
            kind: self.kind,
            path: self.path.clone(),
            owner_kind: self.owner_kind,
            owner_id: self.owner_id.clone(),
            source: self.source,
            language: match &self.language {
                Some(l) => Some(l.clone()),
                None => None,
            },
            symbols: clone_strings(&self.symbols),
        }
    }
}

/// The layer that an id's prefix names.
pub open spec fn kind_for_id_spec(id: Seq<char>) -> Option<LookupKind> {
    if is_prefix("PHIL-"@, id) {
        Some(LookupKind::Philosophy)
    } else if is_prefix("POL-"@, id) {
        Some(LookupKind::Policy)
    } else if is_prefix("REQ-"@, id) {
        Some(LookupKind::Requirement)
    } else if is_prefix("FEAT-"@, id) {
        Some(LookupKind::Feature)
    } else {
        None
    }
}

pub fn lookup_kind_for_id(id: &str) -> (res: Option<LookupKind>)
    ensures
        res == kind_for_id_spec(id@),
{
    if starts_with(id, "PHIL-") {
        return Some(LookupKind::Philosophy);
    }
    if starts_with(id, "POL-") {
        return Some(LookupKind::Policy);
    }
    if starts_with(id, "REQ-") {
        return Some(LookupKind::Requirement);
    }
    if starts_with(id, "FEAT-") {
        return Some(LookupKind::Feature);
    }
    None
}

/// The traced files of one language.
pub open spec fn group_paths(owner_kind: Seq<char>, owner_id: Seq<char>, source: Seq<char>, kind: Seq<char>, g: TraceGroup) -> Seq<TrackedPathSpec> {
    Seq::new(g.references@.len(), |k: int| TrackedPathSpec {
        kind,
        path: g.references@[k].file@,
        owner_kind,
        owner_id,
        source,
        language: Some(g.language@),
        symbols: views(g.references@[k].symbols@),
    })
}

/// Every traced file, language by language.
pub open spec fn trace_paths(owner_kind: Seq<char>, owner_id: Seq<char>, source: Seq<char>, kind: Seq<char>, gs: Seq<TraceGroup>) -> Seq<TrackedPathSpec>
    decreases gs.len(),
{
    if gs.len() == 0 {
        Seq::empty()
    } else {
        trace_paths(owner_kind, owner_id, source, kind, gs.drop_last()) + group_paths(owner_kind, owner_id, source, kind, gs.last())
    }
}

pub fn collect_trace_paths(
    owner_kind: &'static str,
    owner_id: &str,
    source: &'static str,
    kind: &'static str,
    traces: &Vec<TraceGroup>,
) -> (res: Vec<TrackedPath>)
    ensures
        tracked_views(res@) == trace_paths(owner_kind@, owner_id@, source@, kind@, traces@),
{
    let mut found: Vec<TrackedPath> = Vec::new();
    let mut g: usize = 0;
    assert(traces@.take(0) =~= Seq::<TraceGroup>::empty());
    while g < traces.len()
        invariant
            g <= traces@.len(),
            tracked_views(found@) == trace_paths(owner_kind@, owner_id@, source@, kind@, traces@.take(g as int)),
        decreases traces@.len() - g,
    {
        let group = &traces[g];
        let ghost base = tracked_views(found@);
        let mut r: usize = 0;
        while r < group.references.len()
            invariant
                r <= group.references@.len(),
                tracked_views(found@) == base + group_paths(owner_kind@, owner_id@, source@, kind@, *group).take(r as int),
            decreases group.references@.len() - r,
        {
            let reference = &group.references[r];
            let t = TrackedPath {
                kind,
                path: reference.file.clone(),
                owner_kind,
                owner_id: String::from_str(owner_id),
                source,
                language: Some(group.language.clone()),
                symbols: clone_strings(&reference.symbols),
            };
            let ghost before = found@;
            found.push(t);
            assert(tracked_views(found@) =~= tracked_views(before).push(t@));
            assert(t@ == group_paths(owner_kind@, owner_id@, source@, kind@, *group)[r as int]);
            assert(tracked_views(found@) =~= base + group_paths(owner_kind@, owner_id@, source@, kind@, *group).take(r + 1));
            r = r + 1;
        }
        assert(group_paths(owner_kind@, owner_id@, source@, kind@, *group).take(group.references@.len() as int)
            =~= group_paths(owner_kind@, owner_id@, source@, kind@, *group));
        assert(traces@.take(g + 1).drop_last() =~= traces@.take(g as int));
        assert(traces@.take(g + 1).last() == *group);
        g = g + 1;
    }
    assert(traces@.take(traces@.len() as int) =~= traces@);
    found
}

fn push_all(out: &mut Vec<TrackedPath>, more: Vec<TrackedPath>)
    ensures
        tracked_views(final(out)@) == tracked_views(old(out)@) + tracked_views(more@),
{
    let ghost a = out@;
    let ghost b = more@;
    let mut more = more;
    out.append(&mut more);
    assert(out@ == a + b);
    assert(tracked_views(out@) =~= tracked_views(a) + tracked_views(b));
}

pub open spec fn requirement_kind_error(id: Seq<char>) -> Seq<char> {
    "`"@ + id + "` is a requirement, so `--kind implementation` is not available. Use `--kind test`, `--kind definition`, or omit the flag."@
}

/// What the history of a requirement follows: its document, its tests, or both.
pub open spec fn requirement_paths_spec(r: Requirement, kind: HistoryKind, def_path: Seq<char>) -> Result<Seq<TrackedPathSpec>, Seq<char>> {
    let def = seq![definition_spec("requirement"@, r.id@, "selected"@, def_path)];
    let tests = trace_paths("requirement"@, r.id@, "selected"@, "test"@, r.tests@);
    match kind {
        HistoryKind::Implementation => Err(requirement_kind_error(r.id@)),
        HistoryKind::All => Ok(def + tests),
        HistoryKind::Definition => Ok(def),
        HistoryKind::Test => Ok(tests),
    }
}

pub fn tracked_paths_for_requirement(item: &Requirement, kind: HistoryKind, definition_path: &str) -> (res: Result<Vec<TrackedPath>, String>)
    ensures
        match res {
            Ok(v) => requirement_paths_spec(*item, kind, definition_path@) == Ok::<Seq<TrackedPathSpec>, Seq<char>>(tracked_views(v@)),
            Err(e) => requirement_paths_spec(*item, kind, definition_path@) == Err::<Seq<TrackedPathSpec>, Seq<char>>(e@),
        },
{
    match kind {
        HistoryKind::Implementation => {
            let mut e = String::from_str("`");
            e.append(item.id.as_str());
            e.append("` is a requirement, so `--kind implementation` is not available. Use `--kind test`, `--kind definition`, or omit the flag.");
            Err(e)
        },
        HistoryKind::All => {
            let mut found: Vec<TrackedPath> = Vec::new();
            found.push(TrackedPath::definition("requirement", item.id.as_str(), "selected", definition_path));
            let more = collect_trace_paths("requirement", item.id.as_str(), "selected", "test", &item.tests);
            assert(tracked_views(found@) =~= seq![definition_spec("requirement"@, item.id@, "selected"@, definition_path@)]);
            push_all(&mut found, more);
            Ok(found)
        },
        HistoryKind::Definition => {
            let mut found: Vec<TrackedPath> = Vec::new();
            found.push(TrackedPath::definition("requirement", item.id.as_str(), "selected", definition_path));
            assert(tracked_views(found@) =~= seq![definition_spec("requirement"@, item.id@, "selected"@, definition_path@)]);
            Ok(found)
        },
        HistoryKind::Test => Ok(collect_trace_paths("requirement", item.id.as_str(), "selected", "test", &item.tests)),
    }
}

pub open spec fn feature_kind_error(id: Seq<char>) -> Seq<char> {
    "`"@ + id + "` is a feature, so `--kind test` is not available. Use `--kind implementation`, `--kind definition`, or omit the flag."@
}

/// What the history of a feature follows: its document, its implementations, or both.
pub open spec fn feature_paths_spec(f: Feature, kind: HistoryKind, def_path: Seq<char>) -> Result<Seq<TrackedPathSpec>, Seq<char>> {
    let def = seq![definition_spec("feature"@, f.id@, "selected"@, def_path)];
    let impls = trace_paths("feature"@, f.id@, "selected"@, "implementation"@, f.implementations@);
    match kind {
        HistoryKind::Test => Err(feature_kind_error(f.id@)),
        HistoryKind::All => Ok(def + impls),
        HistoryKind::Definition => Ok(def),
        HistoryKind::Implementation => Ok(impls),
    }
}

pub fn tracked_paths_for_feature(item: &Feature, kind: HistoryKind, definition_path: &str) -> (res: Result<Vec<TrackedPath>, String>)
    ensures
        match res {
            Ok(v) => feature_paths_spec(*item, kind, definition_path@) == Ok::<Seq<TrackedPathSpec>, Seq<char>>(tracked_views(v@)),
            Err(e) => feature_paths_spec(*item, kind, definition_path@) == Err::<Seq<TrackedPathSpec>, Seq<char>>(e@),
        },
{
    match kind {
        HistoryKind::Test => {
            let mut e = String::from_str("`");
            e.append(item.id.as_str());
            e.append("` is a feature, so `--kind test` is not available. Use `--kind implementation`, `--kind definition`, or omit the flag.");
            Err(e)
        },
        HistoryKind::All => {
            let mut found: Vec<TrackedPath> = Vec::new();
            found.push(TrackedPath::definition("feature", item.id.as_str(), "selected", definition_path));
            let more = collect_trace_paths("feature", item.id.as_str(), "selected", "implementation", &item.implementations);
            assert(tracked_views(found@) =~= seq![definition_spec("feature"@, item.id@, "selected"@, definition_path@)]);
            push_all(&mut found, more);
            Ok(found)
        },
        HistoryKind::Definition => {
            let mut found: Vec<TrackedPath> = Vec::new();
            found.push(TrackedPath::definition("feature", item.id.as_str(), "selected", definition_path));
            assert(tracked_views(found@) =~= seq![definition_spec("feature"@, item.id@, "selected"@, definition_path@)]);
            Ok(found)
        },
        HistoryKind::Implementation => Ok(collect_trace_paths("feature", item.id.as_str(), "selected", "implementation", &item.implementations)),
    }
}

/// What the history of a philosophy or policy follows: its document only.
pub open spec fn non_trace_paths_spec(id: Seq<char>, label: Seq<char>, kind: HistoryKind, def_path: Seq<char>) -> Result<Seq<TrackedPathSpec>, Seq<char>> {
    match kind {
        HistoryKind::All | HistoryKind::Definition => Ok(seq![definition_spec(label, id, "selected"@, def_path)]),
        HistoryKind::Test => Err("`"@ + id + "` is a "@ + label + ", so `--kind test` is not available. Use `--kind definition` or omit the flag."@),
        HistoryKind::Implementation => Err("`"@ + id + "` is a "@ + label + ", so `--kind implementation` is not available. Use `--kind definition` or omit the flag."@),
    }
}

pub fn tracked_paths_for_non_trace_layer(id: &str, layer_label: &'static str, kind: HistoryKind, definition_path: &str) -> (res: Result<Vec<TrackedPath>, String>)
    ensures
        match res {
            Ok(v) => non_trace_paths_spec(id@, layer_label@, kind, definition_path@) == Ok::<Seq<TrackedPathSpec>, Seq<char>>(tracked_views(v@)),
            Err(e) => non_trace_paths_spec(id@, layer_label@, kind, definition_path@) == Err::<Seq<TrackedPathSpec>, Seq<char>>(e@),
        },
{
    match kind {
        HistoryKind::All | HistoryKind::Definition => {
            let mut found: Vec<TrackedPath> = Vec::new();
            found.push(TrackedPath::definition(layer_label, id, "selected", definition_path));
            assert(tracked_views(found@) =~= seq![definition_spec(layer_label@, id@, "selected"@, definition_path@)]);
            Ok(found)
        },
        HistoryKind::Test => {
            let mut e = String::from_str("`");
            e.append(id);
            e.append("` is a ");
            e.append(layer_label);
            e.append(", so `--kind test` is not available. Use `--kind definition` or omit the flag.");
            Err(e)
        },
        HistoryKind::Implementation => {
            let mut e = String::from_str("`");
            e.append(id);
            e.append("` is a ");
            e.append(layer_label);
            e.append(", so `--kind implementation` is not available. Use `--kind definition` or omit the flag.");
            Err(e)
        },
    }
}

pub(crate) fn same_strings(a: &Vec<String>, b: &Vec<String>) -> (res: bool)
    ensures
        res == (views(a@) == views(b@)),
{
    if a.len() != b.len() {
        assert(views(a@).len() != views(b@).len());
        return false;
    }
    let mut i: usize = 0;
    while i < a.len()
        invariant
            i <= a@.len(),
            a@.len() == b@.len(),
            forall|k: int| 0 <= k < i ==> (#[trigger] a@[k])@ == b@[k]@,
        decreases a@.len() - i,
    {
        if !str_eq(a[i].as_str(), b[i].as_str()) {
            assert(views(a@)[i as int] != views(b@)[i as int]);
            return false;
        }
        i = i + 1;
    }
    assert(views(a@) =~= views(b@));
    true
}

fn same_tracked(a: &TrackedPath, b: &TrackedPath) -> (res: bool)
    ensures
        res == (a@ == b@),
{
    let lang = match (&a.language, &b.language) {
        (Some(x), Some(y)) => str_eq(x.as_str(), y.as_str()),
        (None, None) => true,
        _ => false,
    };
    str_eq(a.kind, b.kind) && str_eq(a.path.as_str(), b.path.as_str()) && str_eq(a.owner_kind, b.owner_kind)
        && str_eq(a.owner_id.as_str(), b.owner_id.as_str()) && str_eq(a.source, b.source) && lang
        && same_strings(&a.symbols, &b.symbols)
}

/// The paths without repeats; the first of equal paths stays.
pub open spec fn dedupe_spec(v: Seq<TrackedPathSpec>) -> Seq<TrackedPathSpec>
    decreases v.len(),
{
    if v.len() == 0 {
        Seq::empty()
    } else {
        let prev = dedupe_spec(v.drop_last());
        if prev.contains(v.last()) {
            prev
        } else {
            prev.push(v.last())
        }
    }
}

fn contains_tracked(v: &Vec<TrackedPath>, t: &TrackedPath) -> (res: bool)
    ensures
        res == tracked_views(v@).contains(t@),
{
    let mut i: usize = 0;
    while i < v.len()
        invariant
            i <= v@.len(),
            forall|k: int| 0 <= k < i ==> (#[trigger] v@[k])@ != t@,
        decreases v@.len() - i,
    {
        if same_tracked(&v[i], t) {
            assert(tracked_views(v@)[i as int] == t@);
            return true;
        }
        i = i + 1;
    }
    assert forall|k: int| 0 <= k < tracked_views(v@).len() implies tracked_views(v@)[k] != t@ by {
        assert(tracked_views(v@)[k] == v@[k]@);
    }
    false
}

pub fn dedupe_tracked_paths(tracked_paths: &Vec<TrackedPath>) -> (res: Vec<TrackedPath>)
    ensures
        tracked_views(res@) == dedupe_spec(tracked_views(tracked_paths@)),
{
    let ghost all = tracked_views(tracked_paths@);
    let mut out: Vec<TrackedPath> = Vec::new();
    let mut i: usize = 0;
    assert(all.take(0) =~= Seq::<TrackedPathSpec>::empty());
    while i < tracked_paths.len()
        invariant
            i <= tracked_paths@.len(),
            all == tracked_views(tracked_paths@),
            tracked_views(out@) == dedupe_spec(all.take(i as int)),
        decreases tracked_paths@.len() - i,
    {
        assert(all.take(i + 1).drop_last() =~= all.take(i as int));
        assert(all.take(i + 1).last() == tracked_paths@[i as int]@);
        if !contains_tracked(&out, &tracked_paths[i]) {
            let t = tracked_paths[i].duplicate();
            let ghost before = out@;
            out.push(t);
            assert(tracked_views(out@) =~= tracked_views(before).push(t@));
        }
        i = i + 1;
    }
    assert(all.take(tracked_paths@.len() as int) =~= all);
    out
}

// ---------------------------------------------------------------------------
// Path filters and scopes
// ---------------------------------------------------------------------------

pub open spec fn filter_error(path: Seq<char>, root: Seq<char>) -> Seq<char> {
    "path filter `"@ + path + "` must stay inside workspace `"@ + root + "`"@
}

pub open spec fn relative_filter_spec(root: Seq<char>, path: Seq<char>) -> Result<Seq<char>, Seq<char>> {
    let parts = normalized_parts(path);
    if is_absolute(path) || parts.contains(".."@) {
        Err(filter_error(path, root))
    } else {
        Ok(join_seq(parts, "/"@))
    }
}

/// A `--path` filter as a normalised path inside the workspace; an absolute
/// path must lie below the workspace root.
pub open spec fn path_filter_spec(root: Seq<char>, path: Seq<char>) -> Result<Seq<char>, Seq<char>> {
    if is_absolute(path) {
        match strip_root_spec(path, root) {
            Some(rel) => relative_filter_spec(root, rel),
            None => Err(filter_error(path, root)),
        }
    } else {
        relative_filter_spec(root, path)
    }
}

fn relative_filter(root: &str, path: &str) -> (res: Result<String, String>)
    ensures
        match res {
            Ok(v) => relative_filter_spec(root@, path@) == Ok::<Seq<char>, Seq<char>>(v@),
            Err(e) => relative_filter_spec(root@, path@) == Err::<Seq<char>, Seq<char>>(e@),
        },
{
    let parts = normalize_parts(path);
    if path_is_absolute(path) || contains_part(&parts, "..") {
        let mut e = String::from_str("path filter `");
        e.append(path);
        e.append("` must stay inside workspace `");
        e.append(root);
        e.append("`");
        return Err(e);
    }
    Ok(join(&parts, "/"))
}

pub fn normalize_path_filter(workspace_root: &str, path: &str) -> (res: Result<String, String>)
    ensures
        match res {
            Ok(v) => path_filter_spec(workspace_root@, path@) == Ok::<Seq<char>, Seq<char>>(v@),
            Err(e) => path_filter_spec(workspace_root@, path@) == Err::<Seq<char>, Seq<char>>(e@),
        },
{
    if path_is_absolute(path) {
        match strip_root(path, workspace_root) {
            Some(rel) => relative_filter(workspace_root, rel.as_str()),
            None => {
                let mut e = String::from_str("path filter `");
                e.append(path);
                e.append("` must stay inside workspace `");
                e.append(workspace_root);
                e.append("`");
                Err(e)
            },
        }
    } else {
        relative_filter(workspace_root, path)
    }
}

/// The commits that a history is limited to.
#[derive(Debug, PartialEq, Eq)]
pub struct HistoryScope {
    pub label: String,
    pub revision_range: String,
}

/// The scope of a history: an explicit range, else the commits since the
/// merge base with a reference (whose SHA git reported), else everything.
pub open spec fn scope_spec(root: Seq<char>, range: Option<Seq<char>>, merge_base: Option<(Seq<char>, Seq<char>)>) -> Result<Option<(Seq<char>, Seq<char>)>, Seq<char>> {
    match range {
        Some(r) => Ok(Some(("range `"@ + r + "`"@, r))),
        None => match merge_base {
            None => Ok(None),
            Some((reference, raw)) => {
                let sha = trim_seq(raw);
                if sha.len() == 0 {
                    Err("failed to compute merge-base between `HEAD` and `"@ + reference + "` in `"@ + root
                        + "`: git returned an empty base SHA"@)
                } else {
                    Ok(Some(("merge-base("@ + reference + ")..HEAD"@, sha + "..HEAD"@)))
                }
            },
        },
    }
}

pub open spec fn opt_str(o: Option<&str>) -> Option<Seq<char>> {
    match o {
        Some(s) => Some(s@),
        None => None,
    }
}

pub open spec fn opt_pair(o: Option<(&str, &str)>) -> Option<(Seq<char>, Seq<char>)> {
    match o {
        Some((a, b)) => Some((a@, b@)),
        None => None,
    }
}

pub fn resolve_history_scope(workspace_root: &str, range: Option<&str>, merge_base: Option<(&str, &str)>) -> (res: Result<Option<HistoryScope>, String>)
    ensures
        match res {
            Ok(Some(s)) => scope_spec(workspace_root@, opt_str(range), opt_pair(merge_base))
                == Ok::<Option<(Seq<char>, Seq<char>)>, Seq<char>>(Some((s.label@, s.revision_range@))),
            Ok(None) => scope_spec(workspace_root@, opt_str(range), opt_pair(merge_base))
                == Ok::<Option<(Seq<char>, Seq<char>)>, Seq<char>>(None),
            Err(e) => scope_spec(workspace_root@, opt_str(range), opt_pair(merge_base))
                == Err::<Option<(Seq<char>, Seq<char>)>, Seq<char>>(e@),
        },
{
    match range {
        Some(r) => {
            let mut label = String::from_str("range `");
            label.append(r);
            label.append("`");
            Ok(Some(HistoryScope { label, revision_range: String::from_str(r) }))
        },
        None => match merge_base {
            None => Ok(None),
            Some((reference, raw)) => {
                let sha = trim(raw);
                if sha.as_str().unicode_len() == 0 {
                    let mut e = String::from_str("failed to compute merge-base between `HEAD` and `");
                    e.append(reference);
                    e.append("` in `");
                    e.append(workspace_root);
                    e.append("`: git returned an empty base SHA");
                    return Err(e);
                }
                let mut label = String::from_str("merge-base(");
                label.append(reference);
                label.append(")..HEAD");
                let mut revision_range = sha;
                revision_range.append("..HEAD");
                Ok(Some(HistoryScope { label, revision_range }))
            },
        },
    }
}


// ---------------------------------------------------------------------------
// Commits
// ---------------------------------------------------------------------------

/// A commit that touched a followed path, with the paths it touched.
#[derive(Debug)]
pub struct MatchedCommit {
    pub sha: String,
    pub short_sha: String,
    pub summary: String,
    pub author: String,
    pub authored_at: String,
    pub reasons: Vec<TrackedPath>,
}

/// The text that some bytes encode in UTF-8, or nothing when they are not
/// valid UTF-8 (vstd's UTF-8 decoding).
pub open spec fn utf8_text(bytes: Seq<u8>) -> Option<Seq<char>> {
    if vstd::utf8::valid_utf8(bytes) {
        Some(vstd::utf8::decode_utf8(bytes))
    } else {
        None
    }
}

/// `std::str::from_utf8`, copied into a `String`. Its contract claims what
/// the documentation of `from_utf8` says: the bytes are accepted exactly when
/// they are valid UTF-8, and the text is the one they encode.
#[verifier::external_body]
fn decode_utf8(bytes: &[u8]) -> (res: Option<String>)
    ensures
        match res {
            Some(s) => utf8_text(bytes@) == Some(s@),
            None => utf8_text(bytes@).is_none(),
        },
{
    match std::str::from_utf8(bytes) {
        Ok(s) => Some(s.to_string()),
        Err(_) => None,
    }
}

/// The pieces of a byte string between separators (`slice::split`).
pub open spec fn split_bytes(s: Seq<u8>, sep: u8) -> Seq<Seq<u8>>
    decreases s.len(),
{
    if s.len() == 0 {
        seq![Seq::<u8>::empty()]
    } else {
        let r = split_bytes(s.drop_last(), sep);
        if s.last() == sep {
            r.push(Seq::<u8>::empty())
        } else {
            r.update(r.len() - 1, r.last().push(s.last()))
        }
    }
}

proof fn lemma_split_bytes_nonempty(s: Seq<u8>, sep: u8)
    ensures
        split_bytes(s, sep).len() >= 1,
    decreases s.len(),
{
    if s.len() > 0 {
        lemma_split_bytes_nonempty(s.drop_last(), sep);
    }
}

pub open spec fn byte_views(v: Seq<Vec<u8>>) -> Seq<Seq<u8>> {
    Seq::new(v.len(), |i: int| v[i]@)
}

fn split_bytes_at(s: &[u8], sep: u8) -> (res: Vec<Vec<u8>>)
    ensures
        byte_views(res@) == split_bytes(s@, sep),
{
    let n = s.len();
    let mut parts: Vec<Vec<u8>> = Vec::new();
    let mut cur: Vec<u8> = Vec::new();
    let mut i: usize = 0;
    assert(s@.take(0) =~= Seq::<u8>::empty());
    while i < n
        invariant
            n == s@.len(),
            i <= n,
            split_bytes(s@.take(i as int), sep) =~= byte_views(parts@).push(cur@),
        decreases n - i,
    {
        let b = s[i];
        proof {
            lemma_split_bytes_nonempty(s@.take(i as int), sep);
            assert(s@.take(i + 1).drop_last() =~= s@.take(i as int));
            assert(s@.take(i + 1).last() == b);
        }
        if b == sep {
            let done = cur;
            parts.push(done);
            cur = Vec::new();
            assert(byte_views(parts@) =~= byte_views(parts@).take(parts@.len() - 1).push(done@));
        } else {
            cur.push(b);
        }
        i = i + 1;
    }
    assert(s@.take(n as int) =~= s@);
    let ghost before = byte_views(parts@);
    parts.push(cur);
    assert(byte_views(parts@) =~= before.push(cur@));
    parts
}

pub struct CommitSpec {
    pub sha: Seq<char>,
    pub short_sha: Seq<char>,
    pub author: Seq<char>,
    pub authored_at: Seq<char>,
    pub summary: Seq<char>,
}

pub open spec fn malformed_message() -> Seq<char> {
    "unexpected `git log` output while parsing commit history"@
}

pub open spec fn utf8_message() -> Seq<char> {
    "git output should be valid UTF-8"@
}

/// One `git log` record: NUL-separated sha, short sha, author, date and
/// subject (then the touched file names, which are not read).
pub open spec fn parse_record_spec(record: Seq<u8>) -> Result<CommitSpec, Seq<char>> {
    let f = split_bytes(record, 0u8);
    if f.len() < 5 {
        Err(malformed_message())
    } else if utf8_text(f[0]) is None || utf8_text(f[1]) is None || utf8_text(f[2]) is None || utf8_text(f[3]) is None
        || utf8_text(f[4]) is None {
        Err(utf8_message())
    } else {
        Ok(CommitSpec {
            sha: utf8_text(f[0])->Some_0,
            short_sha: utf8_text(f[1])->Some_0,
            author: utf8_text(f[2])->Some_0,
            authored_at: utf8_text(f[3])->Some_0,
            summary: utf8_text(f[4])->Some_0,
        })
    }
}

/// The non-empty records in order; the first bad record is the error.
pub open spec fn parse_records_spec(records: Seq<Seq<u8>>) -> Result<Seq<CommitSpec>, Seq<char>>
    decreases records.len(),
{
    if records.len() == 0 {
        Ok(Seq::empty())
    } else {
        match parse_records_spec(records.drop_last()) {
            Err(e) => Err(e),
            Ok(prev) => if records.last().len() == 0 {
                Ok(prev)
            } else {
                match parse_record_spec(records.last()) {
                    Err(e) => Err(e),
                    Ok(c) => Ok(prev.push(c)),
                }
            },
        }
    }
}

/// `git log` output: records separated by `0x1E`.
pub open spec fn git_history_spec(raw: Seq<u8>) -> Result<Seq<CommitSpec>, Seq<char>> {
    parse_records_spec(split_bytes(raw, 0x1eu8))
}

pub open spec fn commit_fields(c: MatchedCommit) -> CommitSpec {
    CommitSpec { sha: c.sha@, short_sha: c.short_sha@, author: c.author@, authored_at: c.authored_at@, summary: c.summary@ }
}

pub open spec fn commits_fields(v: Seq<MatchedCommit>) -> Seq<CommitSpec> {
    Seq::new(v.len(), |i: int| commit_fields(v[i]))
}

fn parse_record(record: &Vec<u8>) -> (res: Result<MatchedCommit, String>)
    ensures
        match res {
            Ok(c) => parse_record_spec(record@) == Ok::<CommitSpec, Seq<char>>(commit_fields(c)) && c.reasons@.len() == 0,
            Err(e) => parse_record_spec(record@) == Err::<CommitSpec, Seq<char>>(e@),
        },
{
    let fields = split_bytes_at(record.as_slice(), 0u8);
    if fields.len() < 5 {
        return Err(String::from_str("unexpected `git log` output while parsing commit history"));
    }
    assert(byte_views(fields@)[0] == fields@[0]@);
    assert(byte_views(fields@)[1] == fields@[1]@);
    assert(byte_views(fields@)[2] == fields@[2]@);
    assert(byte_views(fields@)[3] == fields@[3]@);
    assert(byte_views(fields@)[4] == fields@[4]@);
    let sha = decode_utf8(fields[0].as_slice());
    let short_sha = decode_utf8(fields[1].as_slice());
    let author = decode_utf8(fields[2].as_slice());
    let authored_at = decode_utf8(fields[3].as_slice());
    let summary = decode_utf8(fields[4].as_slice());
    match (sha, short_sha, author, authored_at, summary) {
        (Some(sha), Some(short_sha), Some(author), Some(authored_at), Some(summary)) => {
            Ok(MatchedCommit { sha, short_sha, summary, author, authored_at, reasons: Vec::new() })
        },
        _ => Err(String::from_str("git output should be valid UTF-8")),
    }
}

/// Reads `git log -z --format=%x1E%H%x00%h%x00%an%x00%aI%x00%s` output.
pub fn parse_git_history(raw: &[u8]) -> (res: Result<Vec<MatchedCommit>, String>)
    ensures
        match res {
            Ok(v) => git_history_spec(raw@) == Ok::<Seq<CommitSpec>, Seq<char>>(commits_fields(v@))
                && forall|i: int| 0 <= i < v@.len() ==> (#[trigger] v@[i]).reasons@.len() == 0,
            Err(e) => git_history_spec(raw@) == Err::<Seq<CommitSpec>, Seq<char>>(e@),
        },
{
    let records = split_bytes_at(raw, 0x1eu8);
    let ghost all = byte_views(records@);
    let mut commits: Vec<MatchedCommit> = Vec::new();
    let mut i: usize = 0;
    assert(all.take(0) =~= Seq::<Seq<u8>>::empty());
    assert(commits_fields(commits@) =~= Seq::<CommitSpec>::empty());
    while i < records.len()
        invariant
            i <= records@.len(),
            all == byte_views(records@),
            all == split_bytes(raw@, 0x1eu8),
            parse_records_spec(all.take(i as int)) == Ok::<Seq<CommitSpec>, Seq<char>>(commits_fields(commits@)),
            forall|k: int| 0 <= k < commits@.len() ==> (#[trigger] commits@[k]).reasons@.len() == 0,
        decreases records@.len() - i,
    {
        assert(all.take(i + 1).drop_last() =~= all.take(i as int));
        assert(all.take(i + 1).last() == records@[i as int]@);
        if records[i].len() > 0 {
            match parse_record(&records[i]) {
                Ok(c) => {
                    let ghost before = commits@;
                    commits.push(c);
                    assert(commits_fields(commits@) =~= commits_fields(before).push(commit_fields(c)));
                },
                Err(e) => {
                    proof { lemma_records_error_stays(all, i as int + 1, e@); }
                    return Err(e);
                },
            }
        }
        i = i + 1;
    }
    assert(all.take(records@.len() as int) =~= all);
    Ok(commits)
}

proof fn lemma_records_error_stays(records: Seq<Seq<u8>>, n: int, e: Seq<char>)
    requires
        0 <= n <= records.len(),
        parse_records_spec(records.take(n)) == Err::<Seq<CommitSpec>, Seq<char>>(e),
    ensures
        parse_records_spec(records) == Err::<Seq<CommitSpec>, Seq<char>>(e),
    decreases records.len() - n,
{
    if n < records.len() {
        assert(records.take(n + 1).drop_last() =~= records.take(n));
        lemma_records_error_stays(records, n + 1, e);
    } else {
        assert(records.take(n) =~= records);
    }
}

// ---------------------------------------------------------------------------
// Rendering
// ---------------------------------------------------------------------------

pub open spec fn symbols_part(symbols: Seq<Seq<char>>) -> Seq<char> {
    if symbols.len() == 0 {
        Seq::empty()
    } else {
        "\t["@ + join_seq(symbols.map_values(|s: Seq<char>| "`"@ + s + "`"@), ", "@) + "]"@
    }
}

/// One followed path on one line, tab-separated.
pub open spec fn tracked_line(t: TrackedPathSpec) -> Seq<char> {
    t.kind + "\t"@ + t.path + (match t.language { Some(l) => "\t"@ + l, None => Seq::empty() }) + symbols_part(t.symbols)
        + "\t"@ + t.owner_kind + " "@ + t.owner_id + " ("@ + t.source + ")"@
}

pub fn render_tracked_path(t: &TrackedPath) -> (res: String)
    ensures
        res@ == tracked_line(t@),
{
    let mut out = String::from_str(t.kind);
    out.append("\t");
    out.append(t.path.as_str());
    match &t.language {
        Some(l) => {
            out.append("\t");
            out.append(l.as_str());
        },
        None => {},
    }
    if t.symbols.len() > 0 {
        let mut quoted: Vec<String> = Vec::new();
        let mut i: usize = 0;
        while i < t.symbols.len()
            invariant
                i <= t.symbols@.len(),
                quoted@.len() == i,
                forall|k: int| 0 <= k < i ==> (#[trigger] quoted@[k])@ == "`"@ + t.symbols@[k]@ + "`"@,
            decreases t.symbols@.len() - i,
        {
            let mut q = String::from_str("`");
            q.append(t.symbols[i].as_str());
            q.append("`");
            quoted.push(q);
            i = i + 1;
        }
        assert(views(quoted@) =~= views(t.symbols@).map_values(|s: Seq<char>| "`"@ + s + "`"@));
        out.append("\t[");
        out.append(join(&quoted, ", ").as_str());
        out.append("]");
    }
    out.append("\t");
    out.append(t.owner_kind);
    out.append(" ");
    out.append(t.owner_id.as_str());
    out.append(" (");
    out.append(t.source);
    out.append(")");
    out
}

/// The definition whose history is shown, and the paths it follows.
#[derive(Debug)]
pub struct HistoryTarget {
    pub id: String,
    pub entity_kind: &'static str,
    pub title: String,
    pub tracked_paths: Vec<TrackedPath>,
}

pub open spec fn tracked_lines(v: Seq<TrackedPathSpec>, indent: Seq<char>) -> Seq<char>
    decreases v.len(),
{
    if v.len() == 0 {
        Seq::empty()
    } else {
        tracked_lines(v.drop_last(), indent) + indent + tracked_line(v.last()) + "\n"@
    }
}

pub open spec fn commit_block(c: MatchedCommit) -> Seq<char> {
    "- "@ + c.short_sha@ + " "@ + c.authored_at@ + " "@ + c.summary@ + "\n"@ + tracked_lines(tracked_views(c.reasons@), "  - "@)
}

pub open spec fn commit_blocks(v: Seq<MatchedCommit>) -> Seq<char>
    decreases v.len(),
{
    if v.len() == 0 {
        Seq::empty()
    } else {
        commit_blocks(v.drop_last()) + commit_block(v.last())
    }
}

/// The lines before the followed paths.
pub open spec fn history_head_spec(
    target: HistoryTarget,
    root: Seq<char>,
    kind: HistoryKind,
    include_related: bool,
    scope: Option<Seq<char>>,
    path_filter: Option<Seq<char>>,
) -> Seq<char> {
    "History: "@ + target.entity_kind@ + " "@ + target.id@ + " — "@ + target.title@ + "
"@
        + "Repository: "@ + root + "
"@
        + "Selection: "@ + history_kind_label_spec(kind) + "
"@
        + "Related surface: "@ + (if include_related { "included"@ } else { "selected only"@ }) + "
"@
        + (match scope { Some(l) => "Scope: "@ + l + "
"@, None => Seq::empty() })
        + (match path_filter { Some(f) => "Path filter: "@ + f + "
"@, None => Seq::empty() })
}

pub open spec fn commits_section(commits: Seq<MatchedCommit>) -> Seq<char> {
    if commits.len() == 0 { "Commits:\n- none\n"@ } else { "Commits:\n"@ + commit_blocks(commits) }
}

/// The text of `syu log`.
pub open spec fn history_text_spec(
    target: HistoryTarget,
    root: Seq<char>,
    kind: HistoryKind,
    include_related: bool,
    scope: Option<Seq<char>>,
    path_filter: Option<Seq<char>>,
    commits: Seq<MatchedCommit>,
) -> Seq<char> {
    history_head_spec(target, root, kind, include_related, scope, path_filter)
        + "Tracked paths:\n"@ + tracked_lines(tracked_views(target.tracked_paths@), "- "@)
        + commits_section(commits)
}

fn tracked_text(v: &Vec<TrackedPath>, indent: &str) -> (res: String)
    ensures
        res@ == tracked_lines(tracked_views(v@), indent@),
{
    proof { reveal_strlit(""); }
    let mut out = String::new();
    let ghost all = tracked_views(v@);
    let mut i: usize = 0;
    assert(all.take(0) =~= Seq::<TrackedPathSpec>::empty());
    while i < v.len()
        invariant
            i <= v@.len(),
            all == tracked_views(v@),
            out@ == tracked_lines(all.take(i as int), indent@),
        decreases v@.len() - i,
    {
        assert(all.take(i + 1).drop_last() =~= all.take(i as int));
        assert(all.take(i + 1).last() == v@[i as int]@);
        out.append(indent);
        out.append(render_tracked_path(&v[i]).as_str());
        out.append("\n");
        i = i + 1;
    }
    assert(all.take(v@.len() as int) =~= all);
    out
}

fn history_head(
    target: &HistoryTarget,
    repository_root: &str,
    kind: HistoryKind,
    include_related: bool,
    scope: Option<&HistoryScope>,
    path_filter: Option<&str>,
) -> (res: String)
    ensures
        res@ == history_head_spec(*target, repository_root@, kind, include_related,
            match scope { Some(s) => Some(s.label@), None => None }, opt_str(path_filter)),
{
    proof { reveal_strlit(""); }
    let mut out = String::from_str("History: ");
    out.append(target.entity_kind);
    out.append(" ");
    out.append(target.id.as_str());
    out.append(" — ");
    out.append(target.title.as_str());
    out.append("\n");
    out.append("Repository: ");
    out.append(repository_root);
    out.append("\n");
    out.append("Selection: ");
    out.append(kind.label());
    out.append("\n");
    out.append("Related surface: ");
    out.append(if include_related { "included" } else { "selected only" });
    out.append("\n");
    match scope {
        Some(s) => {
            out.append("Scope: ");
            out.append(s.label.as_str());
            out.append("\n");
        },
        None => { out.append(""); },
    }
    match path_filter {
        Some(f) => {
            out.append("Path filter: ");
            out.append(f);
            out.append("\n");
        },
        None => { out.append(""); },
    }
    out
}

fn commits_text(commits: &Vec<MatchedCommit>) -> (res: String)
    ensures
        res@ == commits_section(commits@),
{
    if commits.len() == 0 {
        return String::from_str("Commits:\n- none\n");
    }
    let mut body = String::from_str("Commits:\n");
    let ghost head = body@;
    let mut i: usize = 0;
    assert(commits@.take(0) =~= Seq::<MatchedCommit>::empty());
    while i < commits.len()
        invariant
            i <= commits@.len(),
            head == "Commits:\n"@,
            body@ == head + commit_blocks(commits@.take(i as int)),
        decreases commits@.len() - i,
    {
        assert(commits@.take(i + 1).drop_last() =~= commits@.take(i as int));
        assert(commits@.take(i + 1).last() == commits@[i as int]);
        let c = &commits[i];
        let ghost before = body@;
        body.append("- ");
        body.append(c.short_sha.as_str());
        body.append(" ");
        body.append(c.authored_at.as_str());
        body.append(" ");
        body.append(c.summary.as_str());
        body.append("\n");
        body.append(tracked_text(&c.reasons, "  - ").as_str());
        assert(body@ =~= before + commit_block(*c));
        i = i + 1;
    }
    assert(commits@.take(commits@.len() as int) =~= commits@);
    body
}

/// Renders `syu log` as text.
pub fn render_history_text(
    target: &HistoryTarget,
    repository_root: &str,
    kind: HistoryKind,
    include_related: bool,
    scope: Option<&HistoryScope>,
    path_filter: Option<&str>,
    commits: &Vec<MatchedCommit>,
) -> (res: String)
    ensures
        res@ == history_text_spec(*target, repository_root@, kind, include_related,
            match scope { Some(s) => Some(s.label@), None => None }, opt_str(path_filter), commits@),
{
    let mut out = history_head(target, repository_root, kind, include_related, scope, path_filter);
    out.append("Tracked paths:\n");
    out.append(tracked_text(&target.tracked_paths, "- ").as_str());
    out.append(commits_text(commits).as_str());
    out
}


// ---------------------------------------------------------------------------
// Ordering commits
// ---------------------------------------------------------------------------

/// The first commit with a sha.
pub open spec fn commit_index(lookup: Seq<MatchedCommit>, sha: Seq<char>) -> Option<int>
    decreases lookup.len(),
{
    if lookup.len() == 0 {
        None
    } else {
        match commit_index(lookup.drop_last(), sha) {
            Some(k) => Some(k),
            None => if lookup.last().sha@ == sha { Some(lookup.len() - 1) } else { None },
        }
    }
}

pub open spec fn known_sha(lookup: Seq<MatchedCommit>, sha: Seq<char>) -> bool {
    commit_index(lookup, sha) is Some
}

pub open spec fn authored_at_of(lookup: Seq<MatchedCommit>, sha: Seq<char>) -> Seq<char> {
    lookup[commit_index(lookup, sha)->Some_0].authored_at@
}

/// `a` is not newer than `b`: by authoring date, then by sha.
pub open spec fn not_newer(lookup: Seq<MatchedCommit>, a: Seq<char>, b: Seq<char>) -> bool {
    let x = authored_at_of(lookup, a);
    let y = authored_at_of(lookup, b);
    seq_order(x, y) < 0 || (seq_order(x, y) == 0 && seq_order(a, b) <= 0)
}

/// The first position at or after `p` that holds a commit newer than `key`.
pub open spec fn ready_slot_from(s: Seq<String>, lookup: Seq<MatchedCommit>, key: Seq<char>, p: int) -> int
    decreases s.len() - p,
{
    if p < 0 || p >= s.len() {
        s.len() as int
    } else if !not_newer(lookup, s[p]@, key) {
        p
    } else {
        ready_slot_from(s, lookup, key, p + 1)
    }
}

/// The ready commits from oldest to newest (stable for equal commits), so
/// that the newest is taken first from the end.
pub open spec fn sort_ready_spec(ready: Seq<String>, lookup: Seq<MatchedCommit>) -> Seq<String>
    decreases ready.len(),
{
    if ready.len() == 0 {
        Seq::empty()
    } else {
        let prev = sort_ready_spec(ready.drop_last(), lookup);
        prev.insert(ready_slot_from(prev, lookup, ready.last()@, 0), ready.last())
    }
}

fn find_commit(lookup: &Vec<MatchedCommit>, sha: &str) -> (res: Option<usize>)
    ensures
        match res {
            Some(k) => commit_index(lookup@, sha@) == Some(k as int),
            None => commit_index(lookup@, sha@).is_none(),
        },
{
    let mut i: usize = 0;
    assert(lookup@.take(0) =~= Seq::<MatchedCommit>::empty());
    while i < lookup.len()
        invariant
            i <= lookup@.len(),
            commit_index(lookup@.take(i as int), sha@).is_none(),
        decreases lookup@.len() - i,
    {
        assert(lookup@.take(i + 1).drop_last() =~= lookup@.take(i as int));
        assert(lookup@.take(i + 1).last() == lookup@[i as int]);
        if str_eq(lookup[i].sha.as_str(), sha) {
            proof { lemma_commit_index_prefix(lookup@, sha@, i as int + 1); }
            return Some(i);
        }
        i = i + 1;
    }
    assert(lookup@.take(lookup@.len() as int) =~= lookup@);
    None
}

proof fn lemma_commit_index_prefix(lookup: Seq<MatchedCommit>, sha: Seq<char>, n: int)
    requires
        0 < n <= lookup.len(),
        commit_index(lookup.take(n), sha) == Some(n - 1),
    ensures
        commit_index(lookup, sha) == Some(n - 1),
    decreases lookup.len(),
{
    if lookup.len() > n {
        assert(lookup.drop_last().take(n) =~= lookup.take(n));
        lemma_commit_index_prefix(lookup.drop_last(), sha, n);
    } else {
        assert(lookup.take(n) =~= lookup);
    }
}

proof fn lemma_commit_index_bound(lookup: Seq<MatchedCommit>, sha: Seq<char>)
    ensures
        commit_index(lookup, sha) matches Some(k) ==> 0 <= k < lookup.len() && lookup[k].sha@ == sha,
    decreases lookup.len(),
{
    if lookup.len() > 0 {
        lemma_commit_index_bound(lookup.drop_last(), sha);
    }
}

proof fn lemma_not_newer_total(lookup: Seq<MatchedCommit>, a: Seq<char>, b: Seq<char>)
    ensures
        not_newer(lookup, a, b) || not_newer(lookup, b, a),
{
    let (x, y) = (authored_at_of(lookup, a), authored_at_of(lookup, b));
    lemma_order_antisym(x, y);
    lemma_order_antisym(a, b);
    lemma_order_range(x, y);
    lemma_order_range(a, b);
}

proof fn lemma_not_newer_trans(lookup: Seq<MatchedCommit>, a: Seq<char>, b: Seq<char>, c: Seq<char>)
    requires
        not_newer(lookup, a, b),
        not_newer(lookup, b, c),
    ensures
        not_newer(lookup, a, c),
{
    let (x, y, z) = (authored_at_of(lookup, a), authored_at_of(lookup, b), authored_at_of(lookup, c));
    lemma_order_trans(x, y, z);
    lemma_order_eq(x, y);
    lemma_order_eq(y, z);
    lemma_order_range(x, y);
    lemma_order_range(y, z);
    lemma_order_range(x, z);
    if seq_order(x, y) == 0 && seq_order(y, z) == 0 {
        lemma_order_eq(x, z);
        lemma_order_trans(a, b, c);
    }
}

proof fn lemma_ready_slot(s: Seq<String>, lookup: Seq<MatchedCommit>, key: Seq<char>, p: int)
    requires
        0 <= p <= s.len(),
        forall|k: int| 0 <= k < p ==> not_newer(lookup, (#[trigger] s[k])@, key),
    ensures
        p <= ready_slot_from(s, lookup, key, p) <= s.len(),
        forall|k: int| 0 <= k < ready_slot_from(s, lookup, key, p) ==> not_newer(lookup, (#[trigger] s[k])@, key),
        ready_slot_from(s, lookup, key, p) < s.len() ==> !not_newer(lookup, s[ready_slot_from(s, lookup, key, p)]@, key),
    decreases s.len() - p,
{
    if p < s.len() && not_newer(lookup, s[p]@, key) {
        lemma_ready_slot(s, lookup, key, p + 1);
    }
}

/// Sorting the ready commits orders them from oldest to newest and keeps
/// every one of them.
pub proof fn lemma_sort_ready_sorted(ready: Seq<String>, lookup: Seq<MatchedCommit>)
    ensures
        forall|i: int, j: int| 0 <= i < j < sort_ready_spec(ready, lookup).len()
            ==> not_newer(lookup, (#[trigger] sort_ready_spec(ready, lookup)[i])@, (#[trigger] sort_ready_spec(ready, lookup)[j])@),
        sort_ready_spec(ready, lookup).to_multiset() == ready.to_multiset(),
    decreases ready.len(),
{
    broadcast use vstd::seq_lib::to_multiset_insert, vstd::seq_lib::to_multiset_build;
    if ready.len() > 0 {
        let prev = sort_ready_spec(ready.drop_last(), lookup);
        lemma_sort_ready_sorted(ready.drop_last(), lookup);
        let key = ready.last()@;
        lemma_ready_slot(prev, lookup, key, 0);
        let slot = ready_slot_from(prev, lookup, key, 0);
        let res = prev.insert(slot, ready.last());
        assert(res == sort_ready_spec(ready, lookup));
        if slot < prev.len() {
            lemma_not_newer_total(lookup, prev[slot]@, key);
        }
        assert forall|i: int, j: int| 0 <= i < j < res.len() implies not_newer(lookup, (#[trigger] res[i])@, (#[trigger] res[j])@) by {
            if j < slot {
                assert(res[i] == prev[i] && res[j] == prev[j]);
            } else if j == slot {
                assert(res[i] == prev[i]);
            } else if i == slot {
                assert(res[j] == prev[j - 1]);
                if j - 1 > slot {
                    lemma_not_newer_trans(lookup, key, prev[slot]@, prev[j - 1]@);
                }
            } else if i < slot {
                assert(res[i] == prev[i] && res[j] == prev[j - 1]);
            } else {
                assert(res[i] == prev[i - 1] && res[j] == prev[j - 1]);
            }
        }
        assert(res.to_multiset() == prev.to_multiset().insert(ready.last()));
        assert(ready.drop_last().push(ready.last()).to_multiset() == ready.drop_last().to_multiset().insert(ready.last()));
        assert(ready =~= ready.drop_last().push(ready.last()));
    } else {
        assert(ready =~= Seq::<String>::empty());
        assert(sort_ready_spec(ready, lookup) =~= Seq::<String>::empty());
    }
}

fn is_not_newer(lookup: &Vec<MatchedCommit>, a: &str, b: &str) -> (res: bool)
    requires
        known_sha(lookup@, a@),
        known_sha(lookup@, b@),
    ensures
        res == not_newer(lookup@, a@, b@),
{
    proof {
        lemma_commit_index_bound(lookup@, a@);
        lemma_commit_index_bound(lookup@, b@);
    }
    let i = find_commit(lookup, a).unwrap();
    let j = find_commit(lookup, b).unwrap();
    let o = str_order(lookup[i].authored_at.as_str(), lookup[j].authored_at.as_str());
    o < 0 || (o == 0 && str_order(a, b) <= 0)
}

/// Orders the ready commits from oldest to newest.
pub fn sort_ready_commits(ready: &mut Vec<String>, commit_lookup: &Vec<MatchedCommit>)
    requires
        forall|k: int| 0 <= k < old(ready)@.len() ==> known_sha(commit_lookup@, (#[trigger] old(ready)@[k])@),
    ensures
        final(ready)@ == sort_ready_spec(old(ready)@, commit_lookup@),
{
    let ghost orig = ready@;
    let mut sorted: Vec<String> = Vec::new();
    let mut i: usize = 0;
    assert(orig.take(0) =~= Seq::<String>::empty());
    while i < ready.len()
        invariant
            i <= ready@.len(),
            ready@ == orig,
            forall|k: int| 0 <= k < orig.len() ==> known_sha(commit_lookup@, (#[trigger] orig[k])@),
            sorted@ == sort_ready_spec(orig.take(i as int), commit_lookup@),
            forall|k: int| 0 <= k < sorted@.len() ==> known_sha(commit_lookup@, (#[trigger] sorted@[k])@),
        decreases ready@.len() - i,
    {
        assert(orig.take(i + 1).drop_last() =~= orig.take(i as int));
        assert(orig.take(i + 1).last() == orig[i as int]);
        let x = ready[i].clone();
        let ghost key = x@;
        assert(known_sha(commit_lookup@, orig[i as int]@));
        let mut p: usize = 0;
        while p < sorted.len() && is_not_newer(commit_lookup, sorted[p].as_str(), x.as_str())
            invariant
                p <= sorted@.len(),
                key == x@,
                known_sha(commit_lookup@, x@),
                forall|k: int| 0 <= k < sorted@.len() ==> known_sha(commit_lookup@, (#[trigger] sorted@[k])@),
                ready_slot_from(sorted@, commit_lookup@, key, 0) == ready_slot_from(sorted@, commit_lookup@, key, p as int),
            decreases sorted@.len() - p,
        {
            p = p + 1;
        }
        let ghost before = sorted@;
        assert(orig[i as int]@ == x@);
        sorted.insert(p, x);
        proof {
            assert forall|k: int| 0 <= k < sorted@.len() implies known_sha(commit_lookup@, (#[trigger] sorted@[k])@) by {
                if k < p {
                    assert(sorted@[k] == before[k]);
                } else if k > p {
                    assert(sorted@[k] == before[k - 1]);
                }
            }
        }
        i = i + 1;
    }
    assert(orig.take(orig.len() as int) =~= orig);
    *ready = sorted;
}


// ---------------------------------------------------------------------------
// Ordering candidate commits by repository history
// ---------------------------------------------------------------------------

/// `anc[i][j]`: commit `i` is an ancestor of commit `j`, as git answered.
pub open spec fn ancestry_relation(anc: Seq<Vec<bool>>) -> spec_fn(int, int) -> bool {
    |i: int, j: int| 0 <= i < anc.len() && 0 <= j < anc[i]@.len() && anc[i]@[j]
}

/// An answer for every ordered pair of the `n` candidates.
pub open spec fn ancestry_shape(anc: Seq<Vec<bool>>, n: nat) -> bool {
    anc.len() == n && forall|i: int| 0 <= i < n ==> (#[trigger] anc[i])@.len() == n
}

/// Commit `d` must be listed before commit `a`: for the pair, `a` was found
/// an ancestor of `d` by the first question asked (is the earlier commit an
/// ancestor of the later one?) or, when that was denied, by the second.
pub open spec fn precedes(rel: spec_fn(int, int) -> bool, d: int, a: int) -> bool {
    (a < d && rel(a, d)) || (d < a && !rel(d, a) && rel(a, d))
}

/// Commit `i` is not newer than commit `j`: an earlier date, or the same date
/// and a sha that does not sort after.
pub open spec fn rec_le(c: Seq<MatchedCommit>, i: int, j: int) -> bool {
    let x = c[i].authored_at@;
    let y = c[j].authored_at@;
    seq_order(x, y) < 0 || (seq_order(x, y) == 0 && seq_order(c[i].sha@, c[j].sha@) <= 0)
}

/// Commit `x` may be listed next: not listed yet, and every commit that must
/// precede it is.
pub open spec fn candidate(c: Seq<MatchedCommit>, rel: spec_fn(int, int) -> bool, ord: Seq<usize>, x: int) -> bool {
    &&& 0 <= x < c.len()
    &&& !ord.contains(x as usize)
    &&& forall|y: int| 0 <= y < c.len() && #[trigger] precedes(rel, y, x) ==> ord.contains(y as usize)
}

/// Commit `x` is the newest commit that may be listed next.
pub open spec fn is_pick(c: Seq<MatchedCommit>, rel: spec_fn(int, int) -> bool, ord: Seq<usize>, x: int) -> bool {
    &&& candidate(c, rel, ord, x)
    &&& forall|y: int| #[trigger] candidate(c, rel, ord, y) ==> rec_le(c, y, x)
}

/// Every listed commit was the newest one that could be listed at its turn.
pub open spec fn picks_ok(c: Seq<MatchedCommit>, rel: spec_fn(int, int) -> bool, ord: Seq<usize>) -> bool {
    forall|p: int| 0 <= p < ord.len() ==> #[trigger] is_pick(c, rel, ord.take(p), ord[p] as int)
}

/// A complete listing of the candidates in history order.
pub open spec fn history_sequence(c: Seq<MatchedCommit>, rel: spec_fn(int, int) -> bool, ord: Seq<usize>) -> bool {
    ord.len() == c.len() && picks_ok(c, rel, ord)
}

/// The listing gets stuck: some commits remain, and each waits for another
/// remaining one (the answers are cyclic).
pub open spec fn history_stuck(c: Seq<MatchedCommit>, rel: spec_fn(int, int) -> bool) -> bool {
    exists|ord: Seq<usize>| ord.len() < c.len() && picks_ok(c, rel, ord) && forall|x: int| !#[trigger] candidate(c, rel, ord, x)
}

/// No ancestry at all: the newest-first order.
pub open spec fn no_ancestry() -> spec_fn(int, int) -> bool {
    |i: int, j: int| false
}

pub open spec fn history_error() -> Seq<char> {
    "could not derive a stable candidate history order"@
}

proof fn lemma_rec_le_total(c: Seq<MatchedCommit>, i: int, j: int)
    ensures
        rec_le(c, i, j) || rec_le(c, j, i),
{
    lemma_order_antisym(c[i].authored_at@, c[j].authored_at@);
    lemma_order_antisym(c[i].sha@, c[j].sha@);
    lemma_order_range(c[i].authored_at@, c[j].authored_at@);
    lemma_order_range(c[i].sha@, c[j].sha@);
}

proof fn lemma_rec_le_trans(c: Seq<MatchedCommit>, i: int, j: int, k: int)
    requires
        rec_le(c, i, j),
        rec_le(c, j, k),
    ensures
        rec_le(c, i, k),
{
    let (x, y, z) = (c[i].authored_at@, c[j].authored_at@, c[k].authored_at@);
    lemma_order_trans(x, y, z);
    lemma_order_eq(x, y);
    lemma_order_eq(y, z);
    lemma_order_range(x, y);
    lemma_order_range(y, z);
    lemma_order_range(x, z);
    if seq_order(x, y) == 0 && seq_order(y, z) == 0 {
        lemma_order_eq(x, z);
        lemma_order_trans(c[i].sha@, c[j].sha@, c[k].sha@);
    }
}

fn index_not_newer(c: &Vec<MatchedCommit>, i: usize, j: usize) -> (res: bool)
    requires
        i < c@.len(),
        j < c@.len(),
    ensures
        res == rec_le(c@, i as int, j as int),
{
    let o = str_order(c[i].authored_at.as_str(), c[j].authored_at.as_str());
    o < 0 || (o == 0 && str_order(c[i].sha.as_str(), c[j].sha.as_str()) <= 0)
}

fn must_precede(anc: &Vec<Vec<bool>>, d: usize, a: usize) -> (res: bool)
    requires
        d < anc@.len(),
        a < anc@.len(),
        ancestry_shape(anc@, anc@.len() as nat),
    ensures
        res == precedes(ancestry_relation(anc@), d as int, a as int),
{
    (a < d && anc[a][d]) || (d < a && !anc[d][a] && anc[a][d])
}

fn waits_for_nothing(c: &Vec<MatchedCommit>, anc: &Vec<Vec<bool>>, done: &Vec<bool>, ord: &Vec<usize>, x: usize) -> (res: bool)
    requires
        ancestry_shape(anc@, c@.len() as nat),
        done@.len() == c@.len(),
        x < c@.len(),
        forall|k: int| 0 <= k < c@.len() ==> #[trigger] done@[k] == ord@.contains(k as usize),
    ensures
        res == forall|y: int| 0 <= y < c@.len() && #[trigger] precedes(ancestry_relation(anc@), y, x as int) ==> ord@.contains(y as usize),
{
    let mut y: usize = 0;
    while y < c.len()
        invariant
            y <= c@.len(),
            x < c@.len(),
            ancestry_shape(anc@, c@.len() as nat),
            done@.len() == c@.len(),
            forall|k: int| 0 <= k < c@.len() ==> #[trigger] done@[k] == ord@.contains(k as usize),
            forall|z: int| 0 <= z < y && #[trigger] precedes(ancestry_relation(anc@), z, x as int) ==> ord@.contains(z as usize),
        decreases c@.len() - y,
    {
        if must_precede(anc, y, x) && !done[y] {
            return false;
        }
        y = y + 1;
    }
    true
}

fn newest_candidate(c: &Vec<MatchedCommit>, anc: &Vec<Vec<bool>>, done: &Vec<bool>, ord: &Vec<usize>) -> (res: Option<usize>)
    requires
        ancestry_shape(anc@, c@.len() as nat),
        done@.len() == c@.len(),
        forall|k: int| 0 <= k < c@.len() ==> #[trigger] done@[k] == ord@.contains(k as usize),
    ensures
        match res {
            Some(b) => is_pick(c@, ancestry_relation(anc@), ord@, b as int),
            None => forall|x: int| !#[trigger] candidate(c@, ancestry_relation(anc@), ord@, x),
        },
{
    let ghost rel = ancestry_relation(anc@);
    let mut best: Option<usize> = None;
    let mut x: usize = 0;
    while x < c.len()
        invariant
            x <= c@.len(),
            rel == ancestry_relation(anc@),
            ancestry_shape(anc@, c@.len() as nat),
            done@.len() == c@.len(),
            forall|k: int| 0 <= k < c@.len() ==> #[trigger] done@[k] == ord@.contains(k as usize),
            match best {
                Some(b) => candidate(c@, rel, ord@, b as int) && forall|y: int| 0 <= y < x && #[trigger] candidate(c@, rel, ord@, y) ==> rec_le(c@, y, b as int),
                None => forall|y: int| 0 <= y < x ==> !#[trigger] candidate(c@, rel, ord@, y),
            },
        decreases c@.len() - x,
    {
        if !done[x] && waits_for_nothing(c, anc, done, ord, x) {
            assert(candidate(c@, rel, ord@, x as int));
            match best {
                Some(b) => {
                    if index_not_newer(c, b, x) {
                        proof {
                            assert forall|y: int| 0 <= y < x + 1 && #[trigger] candidate(c@, rel, ord@, y) implies rec_le(c@, y, x as int) by {
                                if y < x {
                                    lemma_rec_le_trans(c@, y, b as int, x as int);
                                } else {
                                    lemma_rec_le_total(c@, y, x as int);
                                }
                            }
                        }
                        best = Some(x);
                    } else {
                        proof {
                            lemma_rec_le_total(c@, b as int, x as int);
                        }
                    }
                },
                None => {
                    proof {
                        assert forall|y: int| 0 <= y < x + 1 && #[trigger] candidate(c@, rel, ord@, y) implies rec_le(c@, y, x as int) by {
                            lemma_rec_le_total(c@, y, x as int);
                        }
                    }
                    best = Some(x);
                },
            }
        } else {
            assert(!candidate(c@, rel, ord@, x as int));
        }
        x = x + 1;
    }
    best
}

/// Lists the candidates so that every commit comes before its ancestors,
/// taking at each turn the newest commit that may come next; fails when the
/// answers about ancestry are cyclic.
pub fn history_order(commits: &Vec<MatchedCommit>, ancestry: &Vec<Vec<bool>>) -> (res: Result<Vec<usize>, String>)
    requires
        ancestry_shape(ancestry@, commits@.len() as nat),
    ensures
        match res {
            Ok(ord) => history_sequence(commits@, ancestry_relation(ancestry@), ord@),
            Err(e) => e@ == history_error() && history_stuck(commits@, ancestry_relation(ancestry@)),
        },
{
    let ghost rel = ancestry_relation(ancestry@);
    let n = commits.len();
    let mut done: Vec<bool> = Vec::new();
    let mut k: usize = 0;
    while k < n
        invariant
            k <= n,
            done@.len() == k,
            forall|j: int| 0 <= j < k ==> !#[trigger] done@[j],
        decreases n - k,
    {
        done.push(false);
        k = k + 1;
    }
    let mut ord: Vec<usize> = Vec::new();
    assert forall|p: int| 0 <= p < ord@.len() implies #[trigger] is_pick(commits@, rel, ord@.take(p), ord@[p] as int) by {}
    while ord.len() < n
        invariant
            n == commits@.len(),
            rel == ancestry_relation(ancestry@),
            ancestry_shape(ancestry@, n as nat),
            ord@.len() <= n,
            done@.len() == n,
            forall|j: int| 0 <= j < n ==> #[trigger] done@[j] == ord@.contains(j as usize),
            picks_ok(commits@, rel, ord@),
        decreases n - ord@.len(),
    {
        match newest_candidate(commits, ancestry, &done, &ord) {
            None => {
                proof {
                    assert(ord@.len() < commits@.len() && picks_ok(commits@, rel, ord@)
                        && forall|x: int| !#[trigger] candidate(commits@, rel, ord@, x));
                }
                return Err(String::from_str("could not derive a stable candidate history order"));
            },
            Some(b) => {
                let ghost before = ord@;
                ord.push(b);
                done.set(b, true);
                proof {
                    assert forall|j: int| 0 <= j < n implies #[trigger] done@[j] == ord@.contains(j as usize) by {
                        if j == b as int {
                            assert(ord@[before.len() as int] == b);
                        } else {
                            if before.contains(j as usize) {
                                let q = choose|q: int| 0 <= q < before.len() && before[q] == j as usize;
                                assert(ord@[q] == j as usize);
                            }
                            if ord@.contains(j as usize) {
                                let q = choose|q: int| 0 <= q < ord@.len() && ord@[q] == j as usize;
                                assert(q < before.len());
                                assert(before[q] == j as usize);
                            }
                        }
                    }
                    assert forall|p: int| 0 <= p < ord@.len() implies #[trigger] is_pick(commits@, rel, ord@.take(p), ord@[p] as int) by {
                        if p < before.len() {
                            assert(ord@.take(p) =~= before.take(p));
                            assert(is_pick(commits@, rel, before.take(p), before[p] as int));
                        } else {
                            assert(ord@.take(p) =~= before);
                        }
                    }
                }
            },
        }
    }
    Ok(ord)
}

proof fn lemma_missing_position(ord: Seq<usize>, n: nat, c: Seq<MatchedCommit>, rel: spec_fn(int, int) -> bool)
    requires
        ord.len() < n,
        n == c.len(),
        n <= usize::MAX,
        picks_ok(c, rel, ord),
    ensures
        exists|x: int| 0 <= x < n && !#[trigger] ord.contains(x as usize),
{
    let ints = ord.map_values(|v: usize| v as int);
    assert forall|i: int, j: int| 0 <= i < ints.len() && 0 <= j < ints.len() && i != j implies ints[i] != ints[j] by {
        let (lo, hi) = if i < j { (i, j) } else { (j, i) };
        assert(is_pick(c, rel, ord.take(hi), ord[hi] as int));
        assert(ord.take(hi)[lo] == ord[lo]);
        assert(ord.take(hi).contains(ord[lo]));
    }
    assert(ints.no_duplicates());
    ints.unique_seq_to_set();
    if forall|x: int| 0 <= x < n ==> #[trigger] ord.contains(x as usize) {
        vstd::set_lib::lemma_int_range(0, n as int);
        assert forall|x: int| vstd::set_lib::set_int_range(0, n as int).contains(x) implies ints.to_set().contains(x) by {
            assert(ord.contains(x as usize));
            let q = choose|q: int| 0 <= q < ord.len() && ord[q] == x as usize;
            assert(ints[q] == x);
        }
        vstd::set_lib::lemma_len_subset(vstd::set_lib::set_int_range(0, n as int), ints.to_set());
    }
}

/// The newest-first order of the candidates.
pub fn recency_order(commits: &Vec<MatchedCommit>) -> (res: Vec<usize>)
    ensures
        history_sequence(commits@, no_ancestry(), res@),
{
    let n = commits.len();
    let mut none: Vec<Vec<bool>> = Vec::new();
    let mut i: usize = 0;
    while i < n
        invariant
            i <= n,
            n == commits@.len(),
            none@.len() == i,
            forall|a: int| 0 <= a < i ==> (#[trigger] none@[a])@.len() == n && forall|b: int| 0 <= b < n ==> !none@[a]@[b],
        decreases n - i,
    {
        let mut row: Vec<bool> = Vec::new();
        let mut j: usize = 0;
        while j < n
            invariant
                j <= n,
                row@.len() == j,
                forall|b: int| 0 <= b < j ==> !row@[b],
            decreases n - j,
        {
            row.push(false);
            j = j + 1;
        }
        none.push(row);
        i = i + 1;
    }
    assert(ancestry_relation(none@) =~= no_ancestry());
    match history_order(commits, &none) {
        Ok(ord) => ord,
        Err(_) => {
            proof {
                let ord = choose|ord: Seq<usize>| ord.len() < commits@.len() && picks_ok(commits@, no_ancestry(), ord)
                    && forall|x: int| !#[trigger] candidate(commits@, no_ancestry(), ord, x);
                lemma_missing_position(ord, n as nat, commits@, no_ancestry());
                let x = choose|x: int| 0 <= x < n && !#[trigger] ord.contains(x as usize);
                assert(candidate(commits@, no_ancestry(), ord, x));
            }
            Vec::new()
        },
    }
}

/// A commit as a value: its fields and the tracked paths it touched.
pub open spec fn commit_view(m: MatchedCommit) -> (CommitSpec, Seq<TrackedPathSpec>) {
    (CommitSpec { sha: m.sha@, short_sha: m.short_sha@, author: m.author@, authored_at: m.authored_at@, summary: m.summary@ },
        tracked_views(m.reasons@))
}

pub open spec fn commit_views(v: Seq<MatchedCommit>) -> Seq<(CommitSpec, Seq<TrackedPathSpec>)> {
    Seq::new(v.len(), |i: int| commit_view(v[i]))
}

/// The commits at the listed positions.
pub open spec fn listed_views(c: Seq<MatchedCommit>, ord: Seq<usize>) -> Seq<(CommitSpec, Seq<TrackedPathSpec>)> {
    Seq::new(ord.len(), |i: int| commit_view(c[ord[i] as int]))
}

impl MatchedCommit {
    /// A copy with the same content.
    pub fn duplicate(&self) -> (res: MatchedCommit)
        ensures
            commit_view(res) == commit_view(*self),
    {
        let mut reasons: Vec<TrackedPath> = Vec::new();
        let mut i: usize = 0;
        while i < self.reasons.len()
            invariant
                i <= self.reasons@.len(),
                tracked_views(reasons@) == tracked_views(self.reasons@).take(i as int),
            decreases self.reasons@.len() - i,
        {
            let ghost before = reasons@;
            reasons.push(self.reasons[i].duplicate());
            assert(tracked_views(reasons@) =~= tracked_views(before).push(self.reasons@[i as int]@));
            assert(tracked_views(self.reasons@).take(i + 1) =~= tracked_views(self.reasons@).take(i as int).push(self.reasons@[i as int]@));
            i = i + 1;
        }
        assert(tracked_views(self.reasons@).take(self.reasons@.len() as int) =~= tracked_views(self.reasons@));
        MatchedCommit {
            sha: self.sha.clone(),
            short_sha: self.short_sha.clone(),
            summary: self.summary.clone(),
            author: self.author.clone(),
            authored_at: self.authored_at.clone(),
            reasons,
        }
    }
}

/// The history order that `syu log` shows: by repository history where the
/// ancestry answers allow one, else newest first.
pub open spec fn chosen_order(c: Seq<MatchedCommit>, ancestry: Option<Seq<Vec<bool>>>, ord: Seq<usize>) -> bool {
    match ancestry {
        Some(a) => history_sequence(c, ancestry_relation(a), ord)
            || (history_stuck(c, ancestry_relation(a)) && history_sequence(c, no_ancestry(), ord)),
        None => history_sequence(c, no_ancestry(), ord),
    }
}

pub open spec fn opt_rows(o: Option<&Vec<Vec<bool>>>) -> Option<Seq<Vec<bool>>> {
    match o {
        Some(a) => Some(a@),
        None => None,
    }
}

proof fn lemma_picks_distinct(c: Seq<MatchedCommit>, rel: spec_fn(int, int) -> bool, ord: Seq<usize>)
    requires
        picks_ok(c, rel, ord),
    ensures
        forall|p: int, q: int| 0 <= p < q < ord.len() ==> #[trigger] ord[p] != #[trigger] ord[q],
{
    assert forall|p: int, q: int| 0 <= p < q < ord.len() implies #[trigger] ord[p] != #[trigger] ord[q] by {
        assert(is_pick(c, rel, ord.take(q), ord[q] as int));
        assert(ord.take(q)[p] == ord[p]);
        assert(ord.take(q).contains(ord[p]));
    }
}

/// A history listing names every candidate exactly once.
pub proof fn lemma_history_is_permutation(c: Seq<MatchedCommit>, rel: spec_fn(int, int) -> bool, ord: Seq<usize>)
    requires
        history_sequence(c, rel, ord),
        c.len() <= usize::MAX,
    ensures
        ord.no_duplicates(),
        forall|p: int| 0 <= p < ord.len() ==> (#[trigger] ord[p]) < c.len(),
        forall|x: int| 0 <= x < c.len() ==> #[trigger] ord.contains(x as usize),
{
    lemma_picks_distinct(c, rel, ord);
    lemma_picks_in_range(c, rel, ord);
    assert forall|x: int| 0 <= x < c.len() implies #[trigger] ord.contains(x as usize) by {
        if !ord.contains(x as usize) {
            let ints = ord.map_values(|v: usize| v as int);
            assert forall|i: int, j: int| 0 <= i < ints.len() && 0 <= j < ints.len() && i != j implies ints[i] != ints[j] by {
                if i < j {
                    assert(ord[i] != ord[j]);
                } else {
                    assert(ord[j] != ord[i]);
                }
            }
            assert(ints.no_duplicates());
            ints.unique_seq_to_set();
            let range = vstd::set_lib::set_int_range(0, c.len() as int).remove(x);
            vstd::set_lib::lemma_int_range(0, c.len() as int);
            assert forall|y: int| ints.to_set().contains(y) implies range.contains(y) by {
                let q = choose|q: int| 0 <= q < ints.len() && ints[q] == y;
                assert(ord[q] < c.len());
                if y == x {
                    assert(ord[q] == x as usize);
                    assert(ord.contains(x as usize));
                }
            }
            vstd::set_lib::lemma_len_subset(ints.to_set(), range);
        }
    }
}

/// In a history listing no commit comes after one of its ancestors.
pub proof fn lemma_history_respects_ancestry(c: Seq<MatchedCommit>, rel: spec_fn(int, int) -> bool, ord: Seq<usize>)
    requires
        history_sequence(c, rel, ord),
    ensures
        forall|p: int, q: int| 0 <= p < q < ord.len() ==> !precedes(rel, #[trigger] ord[q] as int, #[trigger] ord[p] as int),
{
    lemma_picks_distinct(c, rel, ord);
    lemma_picks_in_range(c, rel, ord);
    assert forall|p: int, q: int| 0 <= p < q < ord.len() implies !precedes(rel, #[trigger] ord[q] as int, #[trigger] ord[p] as int) by {
        assert(is_pick(c, rel, ord.take(p), ord[p] as int));
        if precedes(rel, ord[q] as int, ord[p] as int) {
            assert(ord.take(p).contains(ord[q]));
            let r = choose|r: int| 0 <= r < ord.take(p).len() && ord.take(p)[r] == ord[q];
            assert(ord[r] == ord[q]);
        }
    }
}

proof fn lemma_candidate_exists(c: Seq<MatchedCommit>, rel: spec_fn(int, int) -> bool, ord: Seq<usize>, rank: spec_fn(int) -> nat, x: int)
    requires
        0 <= x < c.len(),
        !ord.contains(x as usize),
        forall|a: int, d: int| 0 <= a < c.len() && 0 <= d < c.len() && #[trigger] rel(a, d) ==> rank(d) < rank(a),
    ensures
        exists|w: int| #[trigger] candidate(c, rel, ord, w),
    decreases rank(x),
{
    if !candidate(c, rel, ord, x) {
        let y = choose|y: int| 0 <= y < c.len() && #[trigger] precedes(rel, y, x) && !ord.contains(y as usize);
        assert(rel(x, y));
        lemma_candidate_exists(c, rel, ord, rank, y);
    } else {
        assert(candidate(c, rel, ord, x));
    }
}

proof fn lemma_some_unlisted(c: Seq<MatchedCommit>, rel: spec_fn(int, int) -> bool, ord: Seq<usize>) -> (x: int)
    requires
        picks_ok(c, rel, ord),
        ord.len() < c.len(),
        c.len() <= usize::MAX,
    ensures
        0 <= x < c.len(),
        !ord.contains(x as usize),
{
    lemma_picks_distinct(c, rel, ord);
    lemma_picks_in_range(c, rel, ord);
    let ints = ord.map_values(|v: usize| v as int);
    assert forall|i: int, j: int| 0 <= i < ints.len() && 0 <= j < ints.len() && i != j implies ints[i] != ints[j] by {
        if i < j {
            assert(ord[i] != ord[j]);
        } else {
            assert(ord[j] != ord[i]);
        }
    }
    assert(ints.no_duplicates());
    ints.unique_seq_to_set();
    let range = vstd::set_lib::set_int_range(0, c.len() as int);
    vstd::set_lib::lemma_int_range(0, c.len() as int);
    if forall|y: int| 0 <= y < c.len() ==> ord.contains(#[trigger] (y as usize)) {
        assert forall|y: int| range.contains(y) implies ints.to_set().contains(y) by {
            assert(ord.contains(y as usize));
            let q = choose|q: int| 0 <= q < ord.len() && ord[q] == y as usize;
            assert(ints[q] == y);
        }
        vstd::set_lib::lemma_len_subset(range, ints.to_set());
        assert(false);
    }
    let x = choose|y: int| 0 <= y < c.len() && !ord.contains(#[trigger] (y as usize));
    x
}

/// When git's ancestry answers have no cycle (some rank falls from every
/// ancestor to its descendants), the listing never gets stuck: every
/// candidate is listed, each before all of its ancestors.
pub proof fn lemma_acyclic_history_never_stuck(c: Seq<MatchedCommit>, anc: Seq<Vec<bool>>, rank: spec_fn(int) -> nat)
    requires
        c.len() <= usize::MAX,
        forall|a: int, d: int| 0 <= a < c.len() && 0 <= d < c.len() && #[trigger] ancestry_relation(anc)(a, d) ==> rank(d) < rank(a),
    ensures
        !history_stuck(c, ancestry_relation(anc)),
{
    let rel = ancestry_relation(anc);
    if history_stuck(c, rel) {
        let ord = choose|ord: Seq<usize>| ord.len() < c.len() && picks_ok(c, rel, ord) && forall|x: int| !#[trigger] candidate(c, rel, ord, x);
        let x = lemma_some_unlisted(c, rel, ord);
        lemma_candidate_exists(c, rel, ord, rank, x);
    }
}

/// Without ancestry answers the listing runs from the newest commit to the oldest.
pub proof fn lemma_recency_newest_first(c: Seq<MatchedCommit>, ord: Seq<usize>)
    requires
        history_sequence(c, no_ancestry(), ord),
    ensures
        forall|p: int, q: int| 0 <= p < q < ord.len() ==> rec_le(c, #[trigger] ord[q] as int, #[trigger] ord[p] as int),
{
    lemma_picks_distinct(c, no_ancestry(), ord);
    lemma_picks_in_range(c, no_ancestry(), ord);
    assert forall|p: int, q: int| 0 <= p < q < ord.len() implies rec_le(c, #[trigger] ord[q] as int, #[trigger] ord[p] as int) by {
        assert(is_pick(c, no_ancestry(), ord.take(p), ord[p] as int));
        if ord.take(p).contains(ord[q]) {
            let r = choose|r: int| 0 <= r < ord.take(p).len() && ord.take(p)[r] == ord[q];
            assert(ord[r] == ord[q]);
        }
        assert(candidate(c, no_ancestry(), ord.take(p), ord[q] as int));
    }
}

proof fn lemma_picks_in_range(c: Seq<MatchedCommit>, rel: spec_fn(int, int) -> bool, ord: Seq<usize>)
    requires
        picks_ok(c, rel, ord),
    ensures
        forall|p: int| 0 <= p < ord.len() ==> (#[trigger] ord[p]) < c.len(),
{
    assert forall|p: int| 0 <= p < ord.len() implies (#[trigger] ord[p]) < c.len() by {
        assert(is_pick(c, rel, ord.take(p), ord[p] as int));
    }
}

/// The candidate commits in history order, at most `limit` of them. Without
/// ancestry answers (git could not be asked) the order is newest first.
pub fn order_commits_by_repository_history(commits: &Vec<MatchedCommit>, ancestry: Option<&Vec<Vec<bool>>>, limit: usize) -> (res: Vec<MatchedCommit>)
    requires
        ancestry matches Some(a) ==> ancestry_shape(a@, commits@.len() as nat),
    ensures
        exists|ord: Seq<usize>| #[trigger] chosen_order(commits@, opt_rows(ancestry), ord)
            && commit_views(res@) == listed_views(commits@, ord).take(if limit < commits@.len() { limit as int } else { commits@.len() as int }),
{
    let ord = match ancestry {
        Some(a) => match history_order(commits, a) {
            Ok(o) => {
                proof { lemma_picks_in_range(commits@, ancestry_relation(a@), o@); }
                o
            },
            Err(_) => {
                let o = recency_order(commits);
                proof { lemma_picks_in_range(commits@, no_ancestry(), o@); }
                o
            },
        },
        None => {
            let o = recency_order(commits);
            proof { lemma_picks_in_range(commits@, no_ancestry(), o@); }
            o
        },
    };
    assert(chosen_order(commits@, opt_rows(ancestry), ord@));
    let n = if limit < ord.len() { limit } else { ord.len() };
    let mut out: Vec<MatchedCommit> = Vec::new();
    let mut i: usize = 0;
    while i < n
        invariant
            i <= n,
            n <= ord@.len(),
            ord@.len() == commits@.len(),
            forall|p: int| 0 <= p < ord@.len() ==> (#[trigger] ord@[p]) < commits@.len(),
            commit_views(out@) == listed_views(commits@, ord@).take(i as int),
        decreases n - i,
    {
        let ghost before = out@;
        out.push(commits[ord[i]].duplicate());
        assert(commit_views(out@) =~= commit_views(before).push(commit_view(commits@[ord@[i as int] as int])));
        assert(listed_views(commits@, ord@).take(i + 1) =~= listed_views(commits@, ord@).take(i as int).push(
            commit_view(commits@[ord@[i as int] as int])));
        i = i + 1;
    }
    out
}

// ---------------------------------------------------------------------------
// Grouping tracked paths by file, and merging the histories of the files
// ---------------------------------------------------------------------------

/// A file as a key: whether it is absolute, and its normalised parts.
pub open spec fn path_key(p: Seq<char>) -> (bool, Seq<Seq<char>>) {
    (is_absolute(p), normalized_parts(p))
}

/// Part order as for path components: `..` before any name, names by `str` order.
pub open spec fn part_order(a: Seq<char>, b: Seq<char>) -> int {
    if a == ".."@ && b == ".."@ {
        0
    } else if a == ".."@ {
        -1
    } else if b == ".."@ {
        1
    } else {
        seq_order(a, b)
    }
}

pub open spec fn parts_order(a: Seq<Seq<char>>, b: Seq<Seq<char>>) -> int
    decreases a.len(),
{
    if a.len() == 0 && b.len() == 0 {
        0
    } else if a.len() == 0 {
        -1
    } else if b.len() == 0 {
        1
    } else if part_order(a[0], b[0]) != 0 {
        part_order(a[0], b[0])
    } else {
        parts_order(a.drop_first(), b.drop_first())
    }
}

/// The order of paths: absolute ones first, then part by part.
pub open spec fn key_order(a: (bool, Seq<Seq<char>>), b: (bool, Seq<Seq<char>>)) -> int {
    if a.0 && !b.0 {
        -1
    } else if !a.0 && b.0 {
        1
    } else {
        parts_order(a.1, b.1)
    }
}

proof fn lemma_part_order(a: Seq<char>, b: Seq<char>)
    ensures
        part_order(a, b) == -part_order(b, a),
        (part_order(a, b) == 0) == (a == b),
{
    lemma_order_antisym(a, b);
    lemma_order_eq(a, b);
}

proof fn lemma_parts_order(a: Seq<Seq<char>>, b: Seq<Seq<char>>)
    ensures
        parts_order(a, b) == -parts_order(b, a),
        (parts_order(a, b) == 0) == (a == b),
    decreases a.len(),
{
    if a.len() > 0 && b.len() > 0 {
        lemma_part_order(a[0], b[0]);
        lemma_parts_order(a.drop_first(), b.drop_first());
        if a.drop_first() == b.drop_first() && a[0] == b[0] {
            assert(a =~= seq![a[0]] + a.drop_first());
            assert(b =~= seq![b[0]] + b.drop_first());
        }
        if a == b {
            assert(a.drop_first() =~= b.drop_first());
        }
    } else if a.len() == 0 && b.len() == 0 {
        assert(a =~= b);
    }
}

proof fn lemma_key_order(a: (bool, Seq<Seq<char>>), b: (bool, Seq<Seq<char>>))
    ensures
        key_order(a, b) == -key_order(b, a),
        (key_order(a, b) == 0) == (a == b),
{
    lemma_parts_order(a.1, b.1);
}

/// The tracked paths that name one file.
#[derive(Debug)]
pub struct TrackedGroup {
    pub path: String,
    pub absolute: bool,
    pub parts: Vec<String>,
    pub members: Vec<TrackedPath>,
}

pub open spec fn group_key(g: TrackedGroup) -> (bool, Seq<Seq<char>>) {
    (g.absolute, views(g.parts@))
}

/// The tracked paths of a file, in the order given.
pub open spec fn members_of(v: Seq<TrackedPath>, key: (bool, Seq<Seq<char>>)) -> Seq<TrackedPathSpec> {
    tracked_views(v.filter(|t: TrackedPath| path_key(t.path@) == key))
}

/// The files of a list of tracked paths, each once, ordered as paths are.
pub open spec fn grouping_spec(v: Seq<TrackedPath>, g: Seq<TrackedGroup>) -> bool {
    &&& forall|i: int| 0 <= i < g.len() ==> tracked_views((#[trigger] g[i]).members@) == members_of(v, group_key(g[i]))
    &&& forall|i: int| 0 <= i < g.len() ==> (#[trigger] g[i]).members@.len() > 0
    &&& forall|i: int| 0 <= i < g.len() ==> (#[trigger] g[i]).path@ == normalize_relative_spec(g[i].members@[0].path@)
    &&& forall|i: int| 0 <= i && i + 1 < g.len() ==> key_order(group_key(#[trigger] g[i]), group_key(g[i + 1])) < 0
    &&& forall|i: int, j: int| 0 <= i < g.len() && 0 <= j < g.len() && i != j ==> group_key(#[trigger] g[i]) != group_key(#[trigger] g[j])
    &&& forall|k: int| 0 <= k < v.len() ==> exists|i: int| 0 <= i < g.len() && group_key(#[trigger] g[i]) == path_key((#[trigger] v[k]).path@)
}

fn compare_keys(a_abs: bool, a: &Vec<String>, b_abs: bool, b: &Vec<String>) -> (res: i8)
    ensures
        res as int == key_order((a_abs, views(a@)), (b_abs, views(b@))),
{
    if a_abs && !b_abs {
        return -1;
    }
    if !a_abs && b_abs {
        return 1;
    }
    let mut i: usize = 0;
    assert(views(a@).skip(0) =~= views(a@));
    assert(views(b@).skip(0) =~= views(b@));
    while i < a.len() && i < b.len()
        invariant
            i <= a@.len(),
            i <= b@.len(),
            a_abs == b_abs,
            parts_order(views(a@), views(b@)) == parts_order(views(a@).skip(i as int), views(b@).skip(i as int)),
        decreases a@.len() - i,
    {
        let x = a[i].as_str();
        let y = b[i].as_str();
        assert(views(a@).skip(i as int)[0] == x@);
        assert(views(b@).skip(i as int)[0] == y@);
        let xd = str_eq(x, "..");
        let yd = str_eq(y, "..");
        let o: i8 = if xd && yd { 0 } else if xd { -1 } else if yd { 1 } else { str_order(x, y) };
        assert(o as int == part_order(x@, y@));
        if o != 0 {
            assert(parts_order(views(a@).skip(i as int), views(b@).skip(i as int)) == part_order(x@, y@));
            return o;
        }
        assert(views(a@).skip(i as int).drop_first() =~= views(a@).skip(i + 1));
        assert(views(b@).skip(i as int).drop_first() =~= views(b@).skip(i + 1));
        i = i + 1;
    }
    if i == a.len() && i == b.len() {
        0
    } else if i == a.len() {
        -1
    } else {
        1
    }
}

proof fn lemma_no_members(prefix: Seq<TrackedPath>, groups: Seq<TrackedGroup>, key: (bool, Seq<Seq<char>>))
    requires
        grouping_spec(prefix, groups),
        forall|q: int| 0 <= q < groups.len() ==> group_key(#[trigger] groups[q]) != key,
    ensures
        members_of(prefix, key) =~= Seq::<TrackedPathSpec>::empty(),
{
    let pred = |t: TrackedPath| path_key(t.path@) == key;
    if prefix.filter(pred).len() > 0 {
        let w = prefix.filter(pred)[0];
        prefix.lemma_filter_pred(pred, 0);
        assert(prefix.filter(pred).contains(w));
        prefix.lemma_filter_contains_rev(pred, w);
        let k = choose|k: int| 0 <= k < prefix.len() && prefix[k] == w;
        let q = choose|q: int| 0 <= q < groups.len() && group_key(#[trigger] groups[q]) == path_key((#[trigger] prefix[k]).path@);
        assert(group_key(groups[q]) != key);
    }
}

fn append_member(groups: &mut Vec<TrackedGroup>, f: usize, Ghost(prefix): Ghost<Seq<TrackedPath>>, t: &TrackedPath)
    requires
        grouping_spec(prefix, old(groups)@),
        f < old(groups)@.len(),
        group_key(old(groups)@[f as int]) == path_key(t.path@),
    ensures
        grouping_spec(prefix.push(*t), final(groups)@),
{
    let ghost key = path_key(t.path@);
    let ghost next = prefix.push(*t);
    proof {
        reveal_with_fuel(Seq::filter, 1);
        assert(next.drop_last() =~= prefix);
    }
    let ghost old_groups = groups@;
    let mut g = groups.remove(f);
    let ghost gm = tracked_views(g.members@);
    g.members.push(t.duplicate());
    assert(tracked_views(g.members@) =~= gm.push(t@));
    assert(g.members@[0] == old_groups[f as int].members@[0]);
    groups.insert(f, g);
    proof {
        lemma_append_member(prefix, *t, old_groups, groups@, f as int);
    }
}

#[verifier::spinoff_prover]
#[verifier::rlimit(40)]
proof fn lemma_append_member(prefix: Seq<TrackedPath>, t: TrackedPath, old_groups: Seq<TrackedGroup>, groups: Seq<TrackedGroup>, f: int)
    requires
        grouping_spec(prefix, old_groups),
        0 <= f < old_groups.len(),
        group_key(old_groups[f]) == path_key(t.path@),
        groups.len() == old_groups.len(),
        forall|q: int| 0 <= q < groups.len() && q != f ==> groups[q] == old_groups[q],
        group_key(groups[f]) == group_key(old_groups[f]),
        groups[f].path == old_groups[f].path,
        groups[f].members@[0] == old_groups[f].members@[0],
        tracked_views(groups[f].members@) == tracked_views(old_groups[f].members@).push(t@),
    ensures
        grouping_spec(prefix.push(t), groups),
{
    let key = path_key(t.path@);
    let next = prefix.push(t);
    reveal_with_fuel(Seq::filter, 1);
    assert(next.drop_last() =~= prefix);
    assert forall|q: int| 0 <= q < groups.len() implies group_key(#[trigger] groups[q]) == group_key(old_groups[q]) by {}
    assert forall|q: int| 0 <= q < groups.len() implies tracked_views((#[trigger] groups[q]).members@) == members_of(next, group_key(groups[q])) by {
        if q != f {
            assert(group_key(groups[q]) != key);
        }
    }
    assert forall|k: int| 0 <= k < next.len() implies exists|q: int| 0 <= q < groups.len() && group_key(#[trigger] groups[q]) == path_key((#[trigger] next[k]).path@) by {
        if k < prefix.len() {
            assert(next[k] == prefix[k]);
            let q = choose|q: int| 0 <= q < old_groups.len() && group_key(#[trigger] old_groups[q]) == path_key(prefix[k].path@);
            assert(group_key(groups[q]) == group_key(old_groups[q]));
        } else {
            assert(group_key(groups[f]) == path_key(next[k].path@));
        }
    }
    assert forall|q: int| 0 <= q && q + 1 < groups.len() implies key_order(group_key(#[trigger] groups[q]), group_key(groups[q + 1])) < 0 by {
        assert(group_key(groups[q]) == group_key(old_groups[q]));
        assert(group_key(groups[q + 1]) == group_key(old_groups[q + 1]));
    }
    assert forall|a: int, b: int| 0 <= a < groups.len() && 0 <= b < groups.len() && a != b implies group_key(#[trigger] groups[a]) != group_key(#[trigger] groups[b]) by {
        assert(group_key(groups[a]) == group_key(old_groups[a]));
        assert(group_key(groups[b]) == group_key(old_groups[b]));
    }
    assert forall|q: int| 0 <= q < groups.len() implies (#[trigger] groups[q]).members@.len() > 0
        && groups[q].path@ == normalize_relative_spec(groups[q].members@[0].path@) by {
        if q == f {
            assert(tracked_views(groups[f].members@).len() == groups[f].members@.len());
        }
    }
}

fn insert_group(groups: &mut Vec<TrackedGroup>, p: usize, Ghost(prefix): Ghost<Seq<TrackedPath>>, t: &TrackedPath, g: TrackedGroup)
    requires
        grouping_spec(prefix, old(groups)@),
        p <= old(groups)@.len(),
        group_key(g) == path_key(t.path@),
        tracked_views(g.members@) == seq![t@],
        g.path@ == normalize_relative_spec(t.path@),
        forall|q: int| 0 <= q < old(groups)@.len() ==> group_key(#[trigger] old(groups)@[q]) != group_key(g),
        forall|q: int| 0 <= q < p ==> key_order(group_key(#[trigger] old(groups)@[q]), group_key(g)) < 0,
        p < old(groups)@.len() ==> key_order(group_key(old(groups)@[p as int]), group_key(g)) >= 0,
    ensures
        grouping_spec(prefix.push(*t), final(groups)@),
{
    let ghost old_groups = groups@;
    let ghost gv = g;
    assert(tracked_views(g.members@).len() == 1);
    assert(tracked_views(g.members@)[0] == g.members@[0]@);
    assert(g.members@[0].path@ == t.path@);
    groups.insert(p, g);
    proof {
        lemma_insert_group(prefix, *t, old_groups, groups@, p as int, gv);
    }
}

/// The facts about a group list that survive inserting a new group at `p`.
pub open spec fn insert_facts(prefix: Seq<TrackedPath>, t: TrackedPath, old_groups: Seq<TrackedGroup>, groups: Seq<TrackedGroup>, p: int, gv: TrackedGroup) -> bool {
    &&& grouping_spec(prefix, old_groups)
    &&& 0 <= p <= old_groups.len()
    &&& groups == old_groups.insert(p, gv)
    &&& group_key(gv) == path_key(t.path@)
    &&& tracked_views(gv.members@) == seq![t@]
    &&& gv.members@.len() == 1
    &&& gv.members@[0].path@ == t.path@
    &&& gv.path@ == normalize_relative_spec(t.path@)
    &&& forall|q: int| 0 <= q < old_groups.len() ==> group_key(#[trigger] old_groups[q]) != group_key(gv)
}

#[verifier::spinoff_prover]
proof fn lemma_insert_members(prefix: Seq<TrackedPath>, t: TrackedPath, old_groups: Seq<TrackedGroup>, groups: Seq<TrackedGroup>, p: int, gv: TrackedGroup)
    requires
        insert_facts(prefix, t, old_groups, groups, p, gv),
    ensures
        forall|q: int| 0 <= q < groups.len() ==> tracked_views((#[trigger] groups[q]).members@) == members_of(prefix.push(t), group_key(groups[q])),
        forall|q: int| 0 <= q < groups.len() ==> (#[trigger] groups[q]).members@.len() > 0
            && groups[q].path@ == normalize_relative_spec(groups[q].members@[0].path@),
{
    let next = prefix.push(t);
    reveal_with_fuel(Seq::filter, 1);
    assert(next.drop_last() =~= prefix);
    lemma_no_members(prefix, old_groups, group_key(gv));
    assert(groups[p] == gv);
    assert forall|q: int| 0 <= q < groups.len() implies tracked_views((#[trigger] groups[q]).members@) == members_of(next, group_key(groups[q])) by {
        if q < p {
            assert(groups[q] == old_groups[q]);
        } else if q > p {
            assert(groups[q] == old_groups[q - 1]);
        }
    }
    assert forall|q: int| 0 <= q < groups.len() implies (#[trigger] groups[q]).members@.len() > 0
        && groups[q].path@ == normalize_relative_spec(groups[q].members@[0].path@) by {
        if q < p {
            assert(groups[q] == old_groups[q]);
        } else if q > p {
            assert(groups[q] == old_groups[q - 1]);
        }
    }
}

proof fn lemma_insert_keys(prefix: Seq<TrackedPath>, t: TrackedPath, old_groups: Seq<TrackedGroup>, groups: Seq<TrackedGroup>, p: int, gv: TrackedGroup)
    requires
        insert_facts(prefix, t, old_groups, groups, p, gv),
    ensures
        forall|a: int, b: int| 0 <= a < groups.len() && 0 <= b < groups.len() && a != b ==> group_key(#[trigger] groups[a]) != group_key(#[trigger] groups[b]),
        forall|k: int| 0 <= k < prefix.push(t).len() ==> exists|q: int| 0 <= q < groups.len() && group_key(#[trigger] groups[q]) == path_key((#[trigger] prefix.push(t)[k]).path@),
{
    let next = prefix.push(t);
    assert(groups[p] == gv);
    assert forall|a: int, b: int| 0 <= a < groups.len() && 0 <= b < groups.len() && a != b implies group_key(#[trigger] groups[a]) != group_key(#[trigger] groups[b]) by {
        if a != p {
            assert(groups[a] == old_groups[if a < p { a } else { a - 1 }]);
        }
        if b != p {
            assert(groups[b] == old_groups[if b < p { b } else { b - 1 }]);
        }
    }
    assert forall|k: int| 0 <= k < next.len() implies exists|q: int| 0 <= q < groups.len() && group_key(#[trigger] groups[q]) == path_key((#[trigger] next[k]).path@) by {
        if k < prefix.len() {
            assert(next[k] == prefix[k]);
            let q = choose|q: int| 0 <= q < old_groups.len() && group_key(#[trigger] old_groups[q]) == path_key(prefix[k].path@);
            if q < p {
                assert(groups[q] == old_groups[q]);
            } else {
                assert(groups[q + 1] == old_groups[q]);
            }
        } else {
            assert(group_key(groups[p]) == path_key(next[k].path@));
        }
    }
}

proof fn lemma_insert_order(prefix: Seq<TrackedPath>, t: TrackedPath, old_groups: Seq<TrackedGroup>, groups: Seq<TrackedGroup>, p: int, gv: TrackedGroup)
    requires
        insert_facts(prefix, t, old_groups, groups, p, gv),
        forall|q: int| 0 <= q < p ==> key_order(group_key(#[trigger] old_groups[q]), group_key(gv)) < 0,
        p < old_groups.len() ==> key_order(group_key(old_groups[p]), group_key(gv)) >= 0,
    ensures
        forall|q: int| 0 <= q && q + 1 < groups.len() ==> key_order(group_key(#[trigger] groups[q]), group_key(groups[q + 1])) < 0,
{
    if p < old_groups.len() {
        lemma_key_order(group_key(old_groups[p]), group_key(gv));
    }
    assert(groups[p] == gv);
    assert forall|q: int| 0 <= q && q + 1 < groups.len() implies key_order(group_key(#[trigger] groups[q]), group_key(groups[q + 1])) < 0 by {
        if q + 1 < p {
            assert(groups[q] == old_groups[q]);
            assert(groups[q + 1] == old_groups[q + 1]);
        } else if q + 1 == p {
            assert(groups[q] == old_groups[q]);
        } else if q == p {
            assert(groups[q + 1] == old_groups[q]);
        } else {
            assert(groups[q] == old_groups[q - 1]);
            assert(groups[q + 1] == old_groups[q]);
        }
    }
}

proof fn lemma_insert_group(prefix: Seq<TrackedPath>, t: TrackedPath, old_groups: Seq<TrackedGroup>, groups: Seq<TrackedGroup>, p: int, gv: TrackedGroup)
    requires
        insert_facts(prefix, t, old_groups, groups, p, gv),
        forall|q: int| 0 <= q < p ==> key_order(group_key(#[trigger] old_groups[q]), group_key(gv)) < 0,
        p < old_groups.len() ==> key_order(group_key(old_groups[p]), group_key(gv)) >= 0,
    ensures
        grouping_spec(prefix.push(t), groups),
{
    lemma_insert_members(prefix, t, old_groups, groups, p, gv);
    lemma_insert_keys(prefix, t, old_groups, groups, p, gv);
    lemma_insert_order(prefix, t, old_groups, groups, p, gv);
}

fn group_one(groups: &mut Vec<TrackedGroup>, Ghost(prefix): Ghost<Seq<TrackedPath>>, t: &TrackedPath)
    requires
        grouping_spec(prefix, old(groups)@),
    ensures
        grouping_spec(prefix.push(*t), final(groups)@),
{
    let abs = path_is_absolute(t.path.as_str());
    let parts = normalize_parts(t.path.as_str());
    let ghost key = path_key(t.path@);
    assert(key == (abs, views(parts@)));
    let mut j: usize = 0;
    while j < groups.len()
        invariant
            j <= groups@.len(),
            grouping_spec(prefix, groups@),
            key == (abs, views(parts@)),
            key == path_key(t.path@),
            forall|q: int| 0 <= q < j ==> group_key(#[trigger] groups@[q]) != key,
        decreases groups@.len() - j,
    {
        if groups[j].absolute == abs && same_strings(&groups[j].parts, &parts) {
            append_member(groups, j, Ghost(prefix), t);
            return;
        }
        j = j + 1;
    }
    let mut p: usize = 0;
    while p < groups.len()
        invariant
            p <= groups@.len(),
            grouping_spec(prefix, groups@),
            forall|q: int| 0 <= q < groups@.len() ==> group_key(#[trigger] groups@[q]) != key,
            key == (abs, views(parts@)),
            key == path_key(t.path@),
            forall|q: int| 0 <= q < p ==> key_order(group_key(#[trigger] groups@[q]), key) < 0,
        ensures
            p <= groups@.len(),
            forall|q: int| 0 <= q < p ==> key_order(group_key(#[trigger] groups@[q]), key) < 0,
            p < groups@.len() ==> key_order(group_key(groups@[p as int]), key) >= 0,
        decreases groups@.len() - p,
    {
        if compare_keys(groups[p].absolute, &groups[p].parts, abs, &parts) >= 0 {
            break;
        }
        p = p + 1;
    }
    let mut members: Vec<TrackedPath> = Vec::new();
    members.push(t.duplicate());
    let g = TrackedGroup { path: normalize_relative_path(t.path.as_str()), absolute: abs, parts, members };
    assert(tracked_views(g.members@) =~= seq![t@]);
    insert_group(groups, p, Ghost(prefix), t, g);
}

/// Groups tracked paths by the file they name.
pub fn group_tracked_paths(tracked_paths: &Vec<TrackedPath>) -> (res: Vec<TrackedGroup>)
    ensures
        grouping_spec(tracked_paths@, res@),
{
    let mut groups: Vec<TrackedGroup> = Vec::new();
    let mut i: usize = 0;
    while i < tracked_paths.len()
        invariant
            i <= tracked_paths@.len(),
            grouping_spec(tracked_paths@.take(i as int), groups@),
        decreases tracked_paths@.len() - i,
    {
        assert(tracked_paths@.take(i + 1) =~= tracked_paths@.take(i as int).push(tracked_paths@[i as int]));
        group_one(&mut groups, Ghost(tracked_paths@.take(i as int)), &tracked_paths[i]);
        i = i + 1;
    }
    assert(tracked_paths@.take(tracked_paths@.len() as int) =~= tracked_paths@);
    groups
}

/// One commit of a file's history merged in: a new sha keeps the commit's
/// fields; either way the file's tracked paths are added, without repeats.
pub open spec fn merge_one(
    m: Map<Seq<char>, (CommitSpec, Seq<TrackedPathSpec>)>,
    c: CommitSpec,
    reasons: Seq<TrackedPathSpec>,
) -> Map<Seq<char>, (CommitSpec, Seq<TrackedPathSpec>)> {
    if m.contains_key(c.sha) {
        m.insert(c.sha, (m[c.sha].0, dedupe_spec(m[c.sha].1 + reasons)))
    } else {
        m.insert(c.sha, (c, dedupe_spec(reasons)))
    }
}

pub open spec fn merge_log(
    m: Map<Seq<char>, (CommitSpec, Seq<TrackedPathSpec>)>,
    log: Seq<MatchedCommit>,
    reasons: Seq<TrackedPathSpec>,
) -> Map<Seq<char>, (CommitSpec, Seq<TrackedPathSpec>)>
    decreases log.len(),
{
    if log.len() == 0 {
        m
    } else {
        merge_one(merge_log(m, log.drop_last(), reasons), commit_fields(log.last()), reasons)
    }
}

/// The commits of all files by sha, the files taken in order.
pub open spec fn merged_histories(groups: Seq<TrackedGroup>, logs: Seq<Vec<MatchedCommit>>) -> Map<Seq<char>, (CommitSpec, Seq<TrackedPathSpec>)>
    decreases logs.len(),
{
    if logs.len() == 0 || groups.len() == 0 {
        Map::empty()
    } else {
        merge_log(merged_histories(groups.drop_last(), logs.drop_last()), logs.last()@, tracked_views(groups.last().members@))
    }
}

pub open spec fn sha_views(v: Seq<MatchedCommit>) -> Seq<Seq<char>> {
    Seq::new(v.len(), |i: int| v[i].sha@)
}

/// A list of commits that holds exactly a merged map, ordered by sha.
pub open spec fn merged_ok(out: Seq<MatchedCommit>, m: Map<Seq<char>, (CommitSpec, Seq<TrackedPathSpec>)>) -> bool {
    &&& strictly_sorted(sha_views(out))
    &&& forall|i: int| 0 <= i < out.len() ==> m.contains_key((#[trigger] out[i]).sha@) && m[out[i].sha@] == commit_view(out[i])
    &&& forall|k: Seq<char>| #[trigger] m.contains_key(k) ==> sha_views(out).contains(k)
    &&& forall|i: int| 0 <= i < out.len() ==> tracked_views((#[trigger] out[i]).reasons@).no_duplicates()
}

proof fn lemma_dedupe_fixed(z: Seq<TrackedPathSpec>)
    requires
        z.no_duplicates(),
    ensures
        dedupe_spec(z) == z,
    decreases z.len(),
{
    if z.len() > 0 {
        let y = z.drop_last();
        assert(y.no_duplicates());
        lemma_dedupe_fixed(y);
        if y.contains(z.last()) {
            let k = choose|k: int| 0 <= k < y.len() && y[k] == z.last();
            assert(z[k] == z[z.len() - 1]);
        }
        assert(y.push(z.last()) =~= z);
    }
}

fn extend_reasons(acc: &mut Vec<TrackedPath>, reasons: &Vec<TrackedPath>)
    requires
        tracked_views(old(acc)@).no_duplicates(),
    ensures
        tracked_views(final(acc)@) == dedupe_spec(tracked_views(old(acc)@) + tracked_views(reasons@)),
        tracked_views(final(acc)@).no_duplicates(),
{
    let ghost base = tracked_views(acc@);
    let ghost rs = tracked_views(reasons@);
    proof {
        lemma_dedupe_fixed(base);
        assert(base + rs.take(0) =~= base);
    }
    let mut k: usize = 0;
    while k < reasons.len()
        invariant
            k <= reasons@.len(),
            rs == tracked_views(reasons@),
            tracked_views(acc@) == dedupe_spec(base + rs.take(k as int)),
            tracked_views(acc@).no_duplicates(),
        decreases reasons@.len() - k,
    {
        assert((base + rs.take(k + 1)).drop_last() =~= base + rs.take(k as int));
        assert((base + rs.take(k + 1)).last() == reasons@[k as int]@);
        if !contains_tracked(acc, &reasons[k]) {
            let ghost before = tracked_views(acc@);
            let t = reasons[k].duplicate();
            acc.push(t);
            assert(tracked_views(acc@) =~= before.push(reasons@[k as int]@));
        }
        k = k + 1;
    }
    assert(rs.take(reasons@.len() as int) =~= rs);
}

proof fn lemma_sorted_insert(v: Seq<Seq<char>>, p: int, s: Seq<char>)
    requires
        strictly_sorted(v),
        0 <= p <= v.len(),
        forall|k: int| 0 <= k < p ==> seq_order(#[trigger] v[k], s) < 0,
        p < v.len() ==> seq_order(v[p], s) > 0,
    ensures
        strictly_sorted(v.insert(p, s)),
{
    let nv = v.insert(p, s);
    if p < v.len() {
        lemma_order_antisym(v[p], s);
    }
    assert forall|a: int, b: int| 0 <= a < b < nv.len() implies seq_order(#[trigger] nv[a], #[trigger] nv[b]) < 0 by {
        if b == p {
        } else if a == p {
            if b - 1 > p {
                assert(seq_order(v[p], v[b - 1]) < 0);
                lemma_order_trans(s, v[p], v[b - 1]);
            }
        } else if a < p && b > p {
            assert(nv[a] == v[a]);
            assert(nv[b] == v[b - 1]);
        } else if a > p {
            assert(nv[a] == v[a - 1]);
            assert(nv[b] == v[b - 1]);
        }
    }
}

#[verifier::spinoff_prover]
#[verifier::rlimit(40)]
fn merge_commit_into(
    out: &mut Vec<MatchedCommit>,
    Ghost(m): Ghost<Map<Seq<char>, (CommitSpec, Seq<TrackedPathSpec>)>>,
    c: &MatchedCommit,
    reasons: &Vec<TrackedPath>,
)
    requires
        merged_ok(old(out)@, m),
    ensures
        merged_ok(final(out)@, merge_one(m, commit_fields(*c), tracked_views(reasons@))),
{
    let ghost m2 = merge_one(m, commit_fields(*c), tracked_views(reasons@));
    let ghost old_out = out@;
    let ghost shas = sha_views(out@);
    let mut p: usize = 0;
    while p < out.len() && str_order(out[p].sha.as_str(), c.sha.as_str()) < 0
        invariant
            p <= out@.len(),
            out@ == old_out,
            shas == sha_views(out@),
            forall|k: int| 0 <= k < p ==> seq_order(#[trigger] shas[k], c.sha@) < 0,
        decreases out@.len() - p,
    {
        p = p + 1;
    }
    if p < out.len() && str_order(out[p].sha.as_str(), c.sha.as_str()) == 0 {
        proof { lemma_order_eq(shas[p as int], c.sha@); }
        let mut e = out.remove(p);
        let ghost before = tracked_views(e.reasons@);
        extend_reasons(&mut e.reasons, reasons);
        assert(m.contains_key(c.sha@));
        assert(m[c.sha@] == commit_view(old_out[p as int]));
        out.insert(p, e);
        proof {
            assert(sha_views(out@) =~= shas);
            assert forall|i: int| 0 <= i < out@.len() implies m2.contains_key((#[trigger] out@[i]).sha@) && m2[out@[i].sha@] == commit_view(out@[i]) by {
                if i != p {
                    assert(out@[i] == old_out[i]);
                    assert(shas[i] != shas[p as int]);
                }
            }
            assert forall|k: Seq<char>| #[trigger] m2.contains_key(k) implies sha_views(out@).contains(k) by {
                if k != c.sha@ {
                    assert(m.contains_key(k));
                } else {
                    assert(sha_views(out@)[p as int] == k);
                }
            }
            assert forall|i: int| 0 <= i < out@.len() implies tracked_views((#[trigger] out@[i]).reasons@).no_duplicates() by {
                if i != p {
                    assert(out@[i] == old_out[i]);
                }
            }
        }
    } else {
        proof {
            if p < shas.len() {
                lemma_order_range(shas[p as int], c.sha@);
                lemma_order_eq(shas[p as int], c.sha@);
            }
            if m.contains_key(c.sha@) {
                let q = choose|q: int| 0 <= q < shas.len() && shas[q] == c.sha@;
                lemma_order_eq(shas[q], c.sha@);
                if q >= p {
                    if q > p {
                        assert(seq_order(shas[p as int], shas[q]) < 0);
                        lemma_order_trans(c.sha@, shas[p as int], shas[q]);
                        lemma_order_antisym(shas[p as int], c.sha@);
                    }
                }
                assert(false);
            }
            lemma_sorted_insert(shas, p as int, c.sha@);
        }
        let mut fresh: Vec<TrackedPath> = Vec::new();
        assert(tracked_views(fresh@) =~= Seq::<TrackedPathSpec>::empty());
        extend_reasons(&mut fresh, reasons);
        assert(Seq::<TrackedPathSpec>::empty() + tracked_views(reasons@) =~= tracked_views(reasons@));
        let e = MatchedCommit {
            sha: c.sha.clone(),
            short_sha: c.short_sha.clone(),
            summary: c.summary.clone(),
            author: c.author.clone(),
            authored_at: c.authored_at.clone(),
            reasons: fresh,
        };
        assert(commit_view(e) == m2[c.sha@]);
        out.insert(p, e);
        proof {
            assert(sha_views(out@) =~= shas.insert(p as int, c.sha@));
            assert forall|i: int| 0 <= i < out@.len() implies m2.contains_key((#[trigger] out@[i]).sha@) && m2[out@[i].sha@] == commit_view(out@[i]) by {
                if i < p {
                    assert(out@[i] == old_out[i]);
                } else if i > p {
                    assert(out@[i] == old_out[i - 1]);
                }
            }
            assert forall|k: Seq<char>| #[trigger] m2.contains_key(k) implies sha_views(out@).contains(k) by {
                if k != c.sha@ {
                    assert(m.contains_key(k));
                    let q = choose|q: int| 0 <= q < shas.len() && shas[q] == k;
                    if q < p {
                        assert(sha_views(out@)[q] == k);
                    } else {
                        assert(sha_views(out@)[q + 1] == k);
                    }
                } else {
                    assert(sha_views(out@)[p as int] == k);
                }
            }
            assert forall|i: int| 0 <= i < out@.len() implies tracked_views((#[trigger] out@[i]).reasons@).no_duplicates() by {
                if i < p {
                    assert(out@[i] == old_out[i]);
                } else if i > p {
                    assert(out@[i] == old_out[i - 1]);
                }
            }
        }
    }
}

/// Merges the histories of the tracked files into one list of commits by
/// sha, each with every tracked path that brought it in.
pub fn merge_histories(groups: &Vec<TrackedGroup>, logs: &Vec<Vec<MatchedCommit>>) -> (res: Vec<MatchedCommit>)
    requires
        groups@.len() == logs@.len(),
    ensures
        merged_ok(res@, merged_histories(groups@, logs@)),
{
    let mut out: Vec<MatchedCommit> = Vec::new();
    proof {
        assert(sha_views(out@) =~= Seq::<Seq<char>>::empty());
        assert(merged_histories(groups@.take(0), logs@.take(0)) =~= Map::<Seq<char>, (CommitSpec, Seq<TrackedPathSpec>)>::empty());
    }
    let mut g: usize = 0;
    while g < logs.len()
        invariant
            g <= logs@.len(),
            groups@.len() == logs@.len(),
            merged_ok(out@, merged_histories(groups@.take(g as int), logs@.take(g as int))),
        decreases logs@.len() - g,
    {
        let ghost base = merged_histories(groups@.take(g as int), logs@.take(g as int));
        let log = &logs[g];
        let reasons = &groups[g].members;
        let mut k: usize = 0;
        while k < log.len()
            invariant
                k <= log@.len(),
                merged_ok(out@, merge_log(base, log@.take(k as int), tracked_views(reasons@))),
            decreases log@.len() - k,
        {
            assert(log@.take(k + 1).drop_last() =~= log@.take(k as int));
            merge_commit_into(&mut out, Ghost(merge_log(base, log@.take(k as int), tracked_views(reasons@))), &log[k], reasons);
            k = k + 1;
        }
        assert(log@.take(log@.len() as int) =~= log@);
        assert(groups@.take(g + 1).drop_last() =~= groups@.take(g as int));
        assert(logs@.take(g + 1).drop_last() =~= logs@.take(g as int));
        g = g + 1;
    }
    assert(groups@.take(groups@.len() as int) =~= groups@);
    assert(logs@.take(logs@.len() as int) =~= logs@);
    out
}


/// `syu log` lists at least one commit: a `--limit` of zero is refused.
pub fn check_history_limit(limit: usize) -> (res: Result<(), String>)
    ensures
        limit > 0 <==> res is Ok,
        res matches Err(e) ==> e@ == "`--limit` must be greater than zero"@,
{
    if limit == 0 {
        return Err(String::from_str("`--limit` must be greater than zero"));
    }
    Ok(())
}

} // verus!
