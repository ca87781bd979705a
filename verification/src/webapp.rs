//! `syu app`: static asset paths, content types, root labels and the
//! validation snapshot that the browser app receives.
use vstd::prelude::*;

use crate::browser::{AppPayload, SourceDocument, ValidationSnapshot, section_label_spec};
use crate::order::{lemma_order_antisym, lemma_order_eq, lemma_order_range, lemma_order_trans, seq_order, str_order};
use crate::cli::AppArgs;
use crate::model::CheckResult;
use crate::paths::{is_absolute, named_parts, normalize_relative_path, normalize_relative_spec, normalized_parts, path_is_absolute,
    path_parts, strip_root, strip_root_spec, normalize_parts, contains_part};
use crate::add::{path_label, path_label_spec};
use crate::text::{contains, contains_seq, ends_with, has_char, is_prefix, is_suffix, join, join_seq, split_char, split_seq,
    starts_with, views};

verus! {

/// `s` without its leading slashes.
pub open spec fn trim_leading_slashes(s: Seq<char>) -> Seq<char>
    decreases s.len(),
{
    if s.len() > 0 && s[0] == '/' { trim_leading_slashes(s.drop_first()) } else { s }
}

/// The asset that a request path names: none under `/api/` or with `..`,
/// `index.html` for the root.
pub open spec fn asset_path_spec(path: Seq<char>) -> Option<Seq<char>> {
    if is_prefix("/api/"@, path) || contains_seq(path, ".."@) {
        None
    } else {
        let t = trim_leading_slashes(path);
        if t.len() == 0 { Some("index.html"@) } else { Some(t) }
    }
}

pub fn normalized_asset_path(path: &str) -> (res: Option<String>)
    ensures
        match res {
            Some(s) => asset_path_spec(path@) == Some(s@),
            None => asset_path_spec(path@).is_none(),
        },
{
    if starts_with(path, "/api/") || contains(path, "..") {
        return None;
    }
    let n = path.unicode_len();
    let mut i: usize = 0;
    assert(path@.skip(0) =~= path@);
    while i < n && path.get_char(i) == '/'
        invariant
            n == path@.len(),
            i <= n,
            trim_leading_slashes(path@) == trim_leading_slashes(path@.skip(i as int)),
        decreases n - i,
    {
        assert(path@.skip(i as int).drop_first() =~= path@.skip(i + 1));
        i = i + 1;
    }
    let t = path.substring_char(i, n);
    assert(t@ =~= path@.skip(i as int));
    if i == n {
        Some(String::from_str("index.html"))
    } else {
        Some(String::from_str(t))
    }
}

/// A path whose last segment has a dot looks like a file.
pub open spec fn asset_like_spec(path: Seq<char>) -> bool {
    split_seq(path, '/').last().contains('.')
}

pub fn is_asset_like(path: &str) -> (res: bool)
    ensures
        res == asset_like_spec(path@),
{
    let parts = split_char(path, '/');
    proof { crate::text::lemma_split_nonempty(path@, '/'); }
    assert(views(parts@).last() == parts@[parts@.len() - 1]@);
    has_char(parts[parts.len() - 1].as_str(), '.')
}

/// The content type of an asset, by extension.
pub open spec fn content_type_spec(path: Seq<char>) -> Seq<char> {
    if is_suffix(".html"@, path) {
        "text/html; charset=utf-8"@
    } else if is_suffix(".js"@, path) {
        "application/javascript; charset=utf-8"@
    } else if is_suffix(".css"@, path) {
        "text/css; charset=utf-8"@
    } else if is_suffix(".json"@, path) {
        "application/json; charset=utf-8"@
    } else if is_suffix(".svg"@, path) {
        "image/svg+xml"@
    } else if is_suffix(".png"@, path) {
        "image/png"@
    } else if is_suffix(".wasm"@, path) {
        "application/wasm"@
    } else {
        "application/octet-stream"@
    }
}

pub fn content_type_for_path(path: &str) -> (res: &'static str)
    ensures
        res@ == content_type_spec(path@),
{
    if ends_with(path, ".html") {
        "text/html; charset=utf-8"
    } else if ends_with(path, ".js") {
        "application/javascript; charset=utf-8"
    } else if ends_with(path, ".css") {
        "text/css; charset=utf-8"
    } else if ends_with(path, ".json") {
        "application/json; charset=utf-8"
    } else if ends_with(path, ".svg") {
        "image/svg+xml"
    } else if ends_with(path, ".png") {
        "image/png"
    } else if ends_with(path, ".wasm") {
        "application/wasm"
    } else {
        "application/octet-stream"
    }
}

/// A traced file as a path inside the workspace: forward slashes,
/// normalised, relative, not empty and not leaving the workspace.
pub open spec fn trace_snapshot_spec(file: Seq<char>) -> Option<Seq<char>> {
    let portable = path_label_spec(file);
    let parts = normalized_parts(portable);
    if parts.len() == 0 || is_absolute(portable) || parts.contains(".."@) {
        None
    } else {
        Some(normalize_relative_spec(portable))
    }
}

pub fn normalized_trace_snapshot_path(file: &str) -> (res: Option<String>)
    ensures
        match res {
            Some(s) => trace_snapshot_spec(file@) == Some(s@),
            None => trace_snapshot_spec(file@).is_none(),
        },
{
    let portable = path_label(file);
    let parts = normalize_parts(portable.as_str());
    if parts.len() == 0 || path_is_absolute(portable.as_str()) || contains_part(&parts, "..") {
        return None;
    }
    Some(normalize_relative_path(portable.as_str()))
}

pub open spec fn normal_parts_spec(parts: Seq<Seq<char>>) -> Seq<Seq<char>>
    decreases parts.len(),
{
    if parts.len() == 0 {
        Seq::empty()
    } else {
        let prev = normal_parts_spec(parts.drop_last());
        if parts.last() != ".."@ { prev.push(parts.last()) } else { prev }
    }
}

/// The last `count` names of a path (`..` is no name), joined by slashes.
pub open spec fn trailing_components_spec(path: Seq<char>, count: nat) -> Seq<char> {
    let normal = normal_parts_spec(path_parts(path));
    let start = if normal.len() > count { normal.len() - count } else { 0 };
    path_label_spec(join_seq(normal.skip(start as int), "/"@))
}

pub fn trailing_path_components_label(path: &str, count: usize) -> (res: String)
    ensures
        res@ == trailing_components_spec(path@, count as nat),
{
    let parts = named_parts(path);
    let ghost all = views(parts@);
    let mut normal: Vec<String> = Vec::new();
    let mut i: usize = 0;
    assert(all.take(0) =~= Seq::<Seq<char>>::empty());
    while i < parts.len()
        invariant
            i <= parts@.len(),
            all == views(parts@),
            views(normal@) == normal_parts_spec(all.take(i as int)),
        decreases parts@.len() - i,
    {
        assert(all.take(i + 1).drop_last() =~= all.take(i as int));
        assert(all.take(i + 1).last() == parts@[i as int]@);
        if !crate::text::str_eq(parts[i].as_str(), "..") {
            let ghost before = normal@;
            normal.push(parts[i].clone());
            assert(views(normal@) =~= views(before).push(parts@[i as int]@));
        }
        i = i + 1;
    }
    assert(all.take(parts@.len() as int) =~= all);
    let start = if normal.len() > count { normal.len() - count } else { 0 };
    let mut tail: Vec<String> = Vec::new();
    let mut j: usize = start;
    while j < normal.len()
        invariant
            start <= j <= normal@.len(),
            tail@.len() == j - start,
            forall|k: int| 0 <= k < tail@.len() ==> (#[trigger] tail@[k])@ == normal@[start + k]@,
        decreases normal@.len() - j,
    {
        tail.push(normal[j].clone());
        j = j + 1;
    }
    assert(views(tail@) =~= views(normal@).skip(start as int));
    path_label(join(&tail, "/").as_str())
}

/// `prefix`, or `prefix/rest`, for a path below a root.
pub open spec fn relative_label_spec(root: Option<Seq<char>>, path: Seq<char>, prefix: Seq<char>) -> Option<Seq<char>> {
    match root {
        Some(r) => match strip_root_spec(path, r) {
            Some(rel) => {
                let l = path_label_spec(rel);
                if l.len() == 0 { Some(prefix) } else { Some(prefix + "/"@ + l) }
            },
            None => None,
        },
        None => None,
    }
}

pub fn redacted_relative_label(root: Option<&str>, path: &str, prefix: &str) -> (res: Option<String>)
    ensures
        match res {
            Some(s) => relative_label_spec(crate::log::opt_str(root), path@, prefix@) == Some(s@),
            None => relative_label_spec(crate::log::opt_str(root), path@, prefix@).is_none(),
        },
{
    let root = match root {
        Some(r) => r,
        None => {
            return None;
        },
    };
    let rel = match strip_root(path, root) {
        Some(r) => r,
        None => {
            return None;
        },
    };
    let l = path_label(rel.as_str());
    if l.as_str().unicode_len() == 0 {
        Some(String::from_str(prefix))
    } else {
        let mut out = String::from_str(prefix);
        out.append("/");
        out.append(l.as_str());
        Some(out)
    }
}

/// A root shown without revealing where it lives: relative to the current
/// directory (`.`), else to the home directory (`~`), else its last two
/// names, else `workspace`. `cwd` and `home` are the canonical current and
/// home directories, when known.
pub open spec fn redacted_root_spec(path: Seq<char>, cwd: Option<Seq<char>>, home: Option<Seq<char>>) -> Seq<char> {
    match relative_label_spec(cwd, path, "."@) {
        Some(l) => l,
        None => match relative_label_spec(home, path, "~"@) {
            Some(l) => l,
            None => {
                let f = trailing_components_spec(path, 2);
                if f.len() > 0 { f } else { "workspace"@ }
            },
        },
    }
}

pub fn redacted_root_label(path: &str, cwd: Option<&str>, home: Option<&str>) -> (res: String)
    ensures
        res@ == redacted_root_spec(path@, crate::log::opt_str(cwd), crate::log::opt_str(home)),
{
    match redacted_relative_label(cwd, path, ".") {
        Some(l) => {
            return l;
        },
        None => {},
    }
    match redacted_relative_label(home, path, "~") {
        Some(l) => {
            return l;
        },
        None => {},
    }
    let f = trailing_path_components_label(path, 2);
    if f.as_str().unicode_len() > 0 {
        f
    } else {
        String::from_str("workspace")
    }
}

/// The spec root relative to the workspace root, `.` when they are the same,
/// or `external spec root` when it lies elsewhere.
pub open spec fn spec_label_spec(workspace_root: Seq<char>, spec_root: Seq<char>) -> Seq<char> {
    match strip_root_spec(spec_root, workspace_root) {
        Some(rel) => {
            let l = path_label_spec(rel);
            if l.len() == 0 { "."@ } else { l }
        },
        None => "external spec root"@,
    }
}

/// The labels of the workspace and spec roots that the browser shows.
pub fn browser_root_labels(workspace_root: &str, spec_root: &str, cwd: Option<&str>, home: Option<&str>) -> (res: (String, String))
    ensures
        res.0@ == redacted_root_spec(workspace_root@, crate::log::opt_str(cwd), crate::log::opt_str(home)),
        res.1@ == spec_label_spec(workspace_root@, spec_root@),
{
    let workspace_label = redacted_root_label(workspace_root, cwd, home);
    let spec_label = match strip_root(spec_root, workspace_root) {
        Some(rel) => {
            let l = path_label(rel.as_str());
            if l.as_str().unicode_len() == 0 { String::from_str(".") } else { l }
        },
        None => String::from_str("external spec root"),
    };
    (workspace_label, spec_label)
}

/// Where `syu app` listens.
#[derive(Debug, PartialEq, Eq)]
pub struct AppServerSettings {
    pub bind: String,
    pub port: u16,
}

/// The flags win over the `app` section of the config.
pub fn resolve_app_server_settings(args: &AppArgs, config_bind: &str, config_port: u16) -> (res: AppServerSettings)
    ensures
        res.bind@ == match args.bind { Some(b) => b@, None => config_bind@ },
        res.port == match args.port { Some(p) => p, None => config_port },
{
    let bind = match &args.bind {
        Some(b) => b.clone(),
        None => String::from_str(config_bind),
    };
    let port = match args.port {
        Some(p) => p,
        None => config_port,
    };
    AppServerSettings { bind, port }
}

/// What the browser app receives of a validation run: everything but the
/// workspace root.
pub fn validation_snapshot(result: CheckResult) -> (res: ValidationSnapshot)
    ensures
        res.definition_counts == result.definition_counts,
        res.trace_summary == result.trace_summary,
        res.issues == result.issues,
        res.referenced_rules == result.referenced_rules,
{
    ValidationSnapshot {
        definition_counts: result.definition_counts,
        trace_summary: result.trace_summary,
        issues: result.issues,
        referenced_rules: result.referenced_rules,
    }
}

/// `syu app` binds beyond the loopback interface only when asked to.
pub open spec fn remote_bind_error(bind: Seq<char>) -> Seq<char> {
    "refusing to bind `syu app` to non-loopback address `"@ + bind
        + "` without `--allow-remote`. This protects workspace data and source documents from accidental network exposure. Use `--bind 127.0.0.1` to keep the browser UI local, or pass `--allow-remote` when remote access is intentional."@
}

pub fn require_remote_bind_opt_in(bind: &str, is_loopback: bool, allow_remote: bool) -> (res: Result<(), String>)
    ensures
        res is Ok <==> (is_loopback || allow_remote),
        res matches Err(e) ==> e@ == remote_bind_error(bind@),
{
    if is_loopback || allow_remote {
        return Ok(());
    }
    let mut e = String::from_str("refusing to bind `syu app` to non-loopback address `");
    e.append(bind);
    e.append("` without `--allow-remote`. This protects workspace data and source documents from accidental network exposure. Use `--bind 127.0.0.1` to keep the browser UI local, or pass `--allow-remote` when remote access is intentional.");
    Err(e)
}

/// The lines that announce a running server.
pub fn startup_lines(local_addr: &str) -> (res: Vec<String>)
    ensures
        crate::text::views(res@) == seq![
            "syu app listening on http://"@ + local_addr@,
            "syu app ready: http://"@ + local_addr@,
            "Open http://"@ + local_addr@ + " in your browser."@,
            "Press Ctrl-C to stop."@,
        ],
{
    let mut a = String::from_str("syu app listening on http://");
    a.append(local_addr);
    let mut b = String::from_str("syu app ready: http://");
    b.append(local_addr);
    let mut c = String::from_str("Open http://");
    c.append(local_addr);
    c.append(" in your browser.");
    let d = String::from_str("Press Ctrl-C to stop.");
    let v = vec![a, b, c, d];
    assert(crate::text::views(v@) =~= seq![
        "syu app listening on http://"@ + local_addr@,
        "syu app ready: http://"@ + local_addr@,
        "Open http://"@ + local_addr@ + " in your browser."@,
        "Press Ctrl-C to stop."@,
    ]);
    v
}

/// The warnings printed before the ready lines when the server listens
/// beyond the loopback interface.
pub fn non_loopback_warning_lines(bind: &str, is_loopback: bool) -> (res: Vec<String>)
    ensures
        is_loopback ==> res@.len() == 0,
        !is_loopback ==> crate::text::views(res@) == seq![
            "warning: syu app is bound to "@ + bind@
                + ", so workspace data and source documents may be reachable from other machines on your network."@,
            "warning: use --bind 127.0.0.1 to keep the browser UI local to this machine."@,
        ],
{
    if is_loopback {
        return Vec::new();
    }
    let mut a = String::from_str("warning: syu app is bound to ");
    a.append(bind);
    a.append(", so workspace data and source documents may be reachable from other machines on your network.");
    let b = String::from_str("warning: use --bind 127.0.0.1 to keep the browser UI local to this machine.");
    let v = vec![a, b];
    assert(crate::text::views(v@) =~= seq![
        "warning: syu app is bound to "@ + bind@
            + ", so workspace data and source documents may be reachable from other machines on your network."@,
        "warning: use --bind 127.0.0.1 to keep the browser UI local to this machine."@,
    ]);
    v
}

/// Why the server could not listen, and how to retry.
pub open spec fn bind_failure_spec(workspace: Seq<char>, bind: Seq<char>, port: u16, addr_in_use: bool, error: Seq<char>) -> Seq<char> {
    "failed to bind `"@ + bind + ":"@ + crate::text::decimal(port as nat) + "`. "@
        + (if addr_in_use { "The selected port is likely already in use."@ } else { "The selected address or port may be unavailable on this machine."@ })
        + " Try `syu app "@ + workspace + " --port <free-port>` to retry with a different port, or set `app.port` in syu.yaml to change the default. "@ + error
}

pub fn bind_failure_message(workspace: &str, bind: &str, port: u16, addr_in_use: bool, error: &str) -> (res: String)
    ensures
        res@ == bind_failure_spec(workspace@, bind@, port, addr_in_use, error@),
{
    let mut m = String::from_str("failed to bind `");
    m.append(bind);
    m.append(":");
    m.append(crate::text::usize_to_string(port as usize).as_str());
    m.append("`. ");
    if addr_in_use {
        m.append("The selected port is likely already in use.");
    } else {
        m.append("The selected address or port may be unavailable on this machine.");
    }
    m.append(" Try `syu app ");
    m.append(workspace);
    m.append(" --port <free-port>` to retry with a different port, or set `app.port` in syu.yaml to change the default. ");
    m.append(error);
    m
}


// ---------------------------------------------------------------------------
// The source documents, in the order the browser app lists them
// ---------------------------------------------------------------------------

/// Source documents compare by section name, then by path: -1, 0 or 1.
pub open spec fn source_order(a: SourceDocument, b: SourceDocument) -> int {
    let c = seq_order(section_label_spec(a.section), section_label_spec(b.section));
    if c != 0 {
        c
    } else {
        seq_order(a.path@, b.path@)
    }
}

/// The first position at or after `p` that sorts after `d`.
pub open spec fn first_source_after(s: Seq<SourceDocument>, d: SourceDocument, p: int) -> int
    decreases s.len() - p,
{
    if p < 0 || p >= s.len() {
        s.len() as int
    } else if source_order(s[p], d) > 0 {
        p
    } else {
        first_source_after(s, d, p + 1)
    }
}

/// The documents sorted by section name and path; equal keys keep their
/// order (a stable sort).
pub open spec fn sort_sources(docs: Seq<SourceDocument>) -> Seq<SourceDocument>
    decreases docs.len(),
{
    if docs.len() == 0 {
        Seq::empty()
    } else {
        let s = sort_sources(docs.drop_last());
        s.insert(first_source_after(s, docs.last(), 0), docs.last())
    }
}

proof fn lemma_source_order_props(a: SourceDocument, b: SourceDocument, c: SourceDocument)
    ensures
        -1 <= source_order(a, b) <= 1,
        source_order(a, b) == -source_order(b, a),
        source_order(a, b) <= 0 && source_order(b, c) <= 0 ==> source_order(a, c) <= 0,
{
    let (la, lb, lc) = (section_label_spec(a.section), section_label_spec(b.section), section_label_spec(c.section));
    lemma_order_range(la, lb);
    lemma_order_range(a.path@, b.path@);
    lemma_order_antisym(la, lb);
    lemma_order_antisym(a.path@, b.path@);
    lemma_order_eq(la, lb);
    lemma_order_eq(lb, lc);
    lemma_order_eq(la, lc);
    if source_order(a, b) <= 0 && source_order(b, c) <= 0 {
        lemma_order_range(lb, lc);
        lemma_order_antisym(lb, lc);
        if seq_order(la, lb) <= 0 && seq_order(lb, lc) <= 0 {
            lemma_order_trans(la, lb, lc);
        }
        if la == lb && lb == lc {
            lemma_order_trans(a.path@, b.path@, c.path@);
        }
    }
}

proof fn lemma_first_source_after(s: Seq<SourceDocument>, d: SourceDocument, p: int)
    requires
        0 <= p <= s.len(),
    ensures
        p <= first_source_after(s, d, p) <= s.len(),
        forall|q: int| p <= q < first_source_after(s, d, p) ==> source_order(#[trigger] s[q], d) <= 0,
        first_source_after(s, d, p) < s.len() ==> source_order(s[first_source_after(s, d, p)], d) > 0,
    decreases s.len() - p,
{
    if p < s.len() && source_order(s[p], d) <= 0 {
        lemma_first_source_after(s, d, p + 1);
    }
}

/// The sorted documents are in order of section name and path, and they are
/// exactly the documents given.
pub proof fn lemma_sort_sources_sorted(docs: Seq<SourceDocument>)
    ensures
        forall|i: int, j: int| 0 <= i < j < sort_sources(docs).len() ==> source_order(#[trigger] sort_sources(docs)[i], #[trigger] sort_sources(docs)[j]) <= 0,
        sort_sources(docs).to_multiset() == docs.to_multiset(),
    decreases docs.len(),
{
    broadcast use vstd::seq_lib::to_multiset_insert, vstd::seq_lib::to_multiset_build;
    if docs.len() > 0 {
        let prev = sort_sources(docs.drop_last());
        lemma_sort_sources_sorted(docs.drop_last());
        let d = docs.last();
        lemma_first_source_after(prev, d, 0);
        let p = first_source_after(prev, d, 0);
        let res = prev.insert(p, d);
        assert(res == sort_sources(docs));
        assert forall|i: int, j: int| 0 <= i < j < res.len() implies source_order(#[trigger] res[i], #[trigger] res[j]) <= 0 by {
            if j < p {
                assert(res[i] == prev[i] && res[j] == prev[j]);
            } else if j == p {
                assert(res[i] == prev[i]);
            } else if i == p {
                assert(res[j] == prev[j - 1]);
                lemma_source_order_props(prev[p], d, d);
                if j - 1 > p {
                    lemma_source_order_props(d, prev[p], prev[j - 1]);
                }
            } else if i < p {
                assert(res[i] == prev[i] && res[j] == prev[j - 1]);
                if p < prev.len() {
                    lemma_source_order_props(prev[i], prev[j - 1], prev[j - 1]);
                }
            } else {
                assert(res[i] == prev[i - 1] && res[j] == prev[j - 1]);
            }
        }
        assert(res.to_multiset() == prev.to_multiset().insert(d));
        assert(docs.drop_last().push(d).to_multiset() == docs.drop_last().to_multiset().insert(d));
        assert(docs =~= docs.drop_last().push(d));
    } else {
        assert(docs =~= Seq::<SourceDocument>::empty());
        assert(sort_sources(docs) =~= Seq::<SourceDocument>::empty());
    }
}

fn source_order_of(a: &SourceDocument, b: &SourceDocument) -> (res: i8)
    ensures
        res as int == source_order(*a, *b),
{
    let c = str_order(a.section.label(), b.section.label());
    if c != 0 {
        c
    } else {
        str_order(a.path.as_str(), b.path.as_str())
    }
}

/// Sorts source documents by section name and then path, keeping documents
/// with equal keys in their order.
pub fn sort_source_documents(docs: Vec<SourceDocument>) -> (res: Vec<SourceDocument>)
    ensures
        res@ == sort_sources(docs@),
{
    let ghost all = docs@;
    let mut rest = docs;
    let mut out: Vec<SourceDocument> = Vec::new();
    let mut k: usize = 0;
    let n: usize = rest.len();
    assert(all.len() == n);
    assert(all.take(0) =~= Seq::<SourceDocument>::empty());
    assert(rest@ =~= all.skip(0));
    while rest.len() > 0
        invariant
            k + rest@.len() == all.len(),
            all.len() <= usize::MAX,
            rest@ == all.skip(k as int),
            out@ == sort_sources(all.take(k as int)),
        decreases rest@.len(),
    {
        let d = rest.remove(0);
        assert(d == all[k as int]);
        assert(all.take(k + 1).drop_last() =~= all.take(k as int));
        assert(rest@ =~= all.skip(k + 1));
        let mut p: usize = 0;
        while p < out.len() && source_order_of(&out[p], &d) <= 0
            invariant
                p <= out@.len(),
                k + 1 + rest@.len() == all.len(),
                all.len() <= usize::MAX,
                rest@ == all.skip(k + 1),
                out@ == sort_sources(all.take(k as int)),
                d == all[k as int],
                all.take(k + 1).drop_last() == all.take(k as int),
                first_source_after(out@, d, 0) == first_source_after(out@, d, p as int),
            decreases out@.len() - p,
        {
            p = p + 1;
        }
        out.insert(p, d);
        k = k + 1;
    }
    assert(all.take(all.len() as int) =~= all);
    out
}

// ---------------------------------------------------------------------------
// What the server holds between refreshes
// ---------------------------------------------------------------------------

/// The payload the server hands out and the snapshot it was built from.
#[derive(Debug)]
pub struct CurrentAppData {
    pub snapshot: String,
    pub payload: AppPayload,
}

/// The server's current data, or why it could not be loaded.
#[derive(Debug)]
pub enum CurrentAppState {
    Ready(CurrentAppData),
    Error(String),
}

/// Whether the state holds data built from this snapshot.
pub open spec fn holds_snapshot(c: CurrentAppState, s: Seq<char>) -> bool {
    match c {
        CurrentAppState::Ready(d) => d.snapshot@ == s,
        CurrentAppState::Error(_) => false,
    }
}

/// The message of an error state.
pub open spec fn held_error(c: CurrentAppState) -> Option<Seq<char>> {
    match c {
        CurrentAppState::Ready(_) => None,
        CurrentAppState::Error(m) => Some(m@),
    }
}

pub open spec fn error_message<T>(r: Result<T, String>) -> Option<Seq<char>> {
    match r {
        Ok(_) => None,
        Err(e) => Some(e@),
    }
}

pub open spec fn refreshed_snapshot(r: Result<Option<String>, String>) -> Option<Seq<char>> {
    match r {
        Ok(Some(s)) => Some(s@),
        _ => None,
    }
}

/// The state of `syu app` between refreshes.
#[derive(Debug)]
pub struct AppState {
    pub workspace_root: String,
    pub current: CurrentAppState,
}

impl AppState {
    /// A state that holds no data yet.
    pub fn new(workspace_root: String) -> (res: AppState)
        ensures
            res.workspace_root@ == workspace_root@,
            held_error(res.current) == Some("app data refresh failed"@),
    {
        AppState { workspace_root, current: CurrentAppState::Error(String::from_str("app data refresh failed")) }
    }

    /// The data to hand out, or why there is none.
    pub fn current_data(&self) -> (res: Result<&CurrentAppData, String>)
        ensures
            match self.current {
                CurrentAppState::Ready(d) => res == Ok::<&CurrentAppData, String>(&d),
                CurrentAppState::Error(m) => error_message(res) == Some(m@),
            },
    {
        match &self.current {
            CurrentAppState::Ready(d) => Ok(d),
            CurrentAppState::Error(m) => Err(String::from_str(m.as_str())),
        }
    }

    /// The snapshot of the data held, if any.
    pub fn current_snapshot(&self) -> (res: Option<String>)
        ensures
            match self.current {
                CurrentAppState::Ready(d) => res is Some && res->Some_0@ == d.snapshot@,
                CurrentAppState::Error(_) => res is None,
            },
    {
        match &self.current {
            CurrentAppState::Ready(d) => Some(String::from_str(d.snapshot.as_str())),
            CurrentAppState::Error(_) => None,
        }
    }

    /// Replaces the held state; an error state is reported as the result.
    pub fn replace_current(&mut self, next: CurrentAppState) -> (res: Result<(), String>)
        ensures
            final(self).workspace_root == old(self).workspace_root,
            final(self).current == next,
            error_message(res) == held_error(next),
    {
        let result = match &next {
            CurrentAppState::Ready(_) => Ok(()),
            CurrentAppState::Error(m) => Err(String::from_str(m.as_str())),
        };
        self.current = next;
        result
    }

    /// The first half of a refresh, from the snapshot just computed: `Ok(None)`
    /// when it is the one already held (nothing changes), `Ok(Some(snapshot))`
    /// when the payload must be rebuilt, and an error, which is then held,
    /// when the snapshot could not be computed.
    pub fn begin_refresh(&mut self, snapshot: Result<String, String>) -> (res: Result<Option<String>, String>)
        ensures
            final(self).workspace_root == old(self).workspace_root,
            match snapshot {
                Err(m) => error_message(res) == Some(m@) && held_error(final(self).current) == Some(m@),
                Ok(s) => final(self).current == old(self).current && if holds_snapshot(old(self).current, s@) {
                    res == Ok::<Option<String>, String>(None)
                } else {
                    refreshed_snapshot(res) == Some(s@)
                },
            },
    {
        match snapshot {
            Err(message) => {
                let reported = String::from_str(message.as_str());
                let _ = self.replace_current(CurrentAppState::Error(message));
                Err(reported)
            },
            Ok(s) => {
                let unchanged = match &self.current {
                    CurrentAppState::Ready(d) => crate::text::str_eq(d.snapshot.as_str(), s.as_str()),
                    CurrentAppState::Error(_) => false,
                };
                if unchanged {
                    Ok(None)
                } else {
                    Ok(Some(s))
                }
            },
        }
    }

    /// The second half of a refresh: the rebuilt payload of a new snapshot is
    /// held, or why it could not be built.
    pub fn finish_refresh(&mut self, snapshot: String, payload: Result<AppPayload, String>) -> (res: Result<(), String>)
        ensures
            final(self).workspace_root == old(self).workspace_root,
            match payload {
                Ok(p) => res is Ok && final(self).current == CurrentAppState::Ready(CurrentAppData { snapshot, payload: p }),
                Err(m) => error_message(res) == Some(m@) && final(self).current == CurrentAppState::Error(m),
            },
    {
        match payload {
            Ok(p) => self.replace_current(CurrentAppState::Ready(CurrentAppData { snapshot, payload: p })),
            Err(m) => self.replace_current(CurrentAppState::Error(m)),
        }
    }
}

} // verus!
