//! `syu add`: the ids, paths and YAML stubs of a new definition.
use vstd::prelude::*;

use crate::cli::{AddArgs, LookupKind, lookup_kind_label_spec};
use crate::prompt::{attempts_exhausted_message, ensure_prompt_terminal, optional_answer};
use crate::shell::{shell_quote_path, shell_quote_spec};
use crate::paths::{
    contains_part, extension_spec, is_absolute, join_path, join_path_spec, normalize_parts, normalize_relative_path,
    normalize_relative_spec, normalized_parts, path_extension, path_is_absolute, path_starts_with, paths_equal,
    same_path, starts_with_path,
};
use crate::text::{
    cat3, str_eq, contains_seq,
    is_digit, is_lower, is_upper, join, join_seq, lower_seq, split_char, split_seq, to_lower, to_upper, trim,
    trim_seq, upper_char, upper_seq, views, ascii_upper, push_char, lemma_split_nonempty,
};

verus! {

// ---------------------------------------------------------------------------
// Definition ids
// ---------------------------------------------------------------------------

/// The prefix that the ids of a layer start with.
pub open spec fn id_prefix(kind: LookupKind) -> Seq<char> {
    match kind {
        LookupKind::Philosophy => "PHIL"@,
        LookupKind::Policy => "POL"@,
        LookupKind::Requirement => "REQ"@,
        LookupKind::Feature => "FEAT"@,
    }
}

fn id_prefix_str(kind: LookupKind) -> (res: &'static str)
    ensures
        res@ == id_prefix(kind),
{
    match kind {
        LookupKind::Philosophy => "PHIL",
        LookupKind::Policy => "POL",
        LookupKind::Requirement => "REQ",
        LookupKind::Feature => "FEAT",
    }
}

pub open spec fn segments_nonempty(parts: Seq<Seq<char>>) -> bool {
    forall|k: int| 0 <= k < parts.len() ==> (#[trigger] parts[k]).len() > 0
}

pub open spec fn id_chars(s: Seq<char>) -> bool {
    forall|i: int| 0 <= i < s.len() ==> is_upper(#[trigger] s[i]) || is_digit(s[i]) || s[i] == '-'
}

pub open spec fn kind_chars(s: Seq<char>) -> bool {
    forall|i: int| 0 <= i < s.len() ==> is_lower(#[trigger] s[i]) || is_digit(s[i]) || s[i] == '-'
}

pub open spec fn all_digits(s: Seq<char>) -> bool {
    forall|i: int| 0 <= i < s.len() ==> is_digit(#[trigger] s[i])
}

pub open spec fn id_shape_error(kind: LookupKind, trimmed: Seq<char>) -> Seq<char> {
    lookup_kind_label_spec(kind) + " IDs must contain only ASCII letters, numbers, and single hyphens: `"@ + trimmed + "`"@
}

pub open spec fn id_prefix_error(kind: LookupKind, trimmed: Seq<char>) -> Seq<char> {
    lookup_kind_label_spec(kind) + " IDs must start with `"@ + id_prefix(kind) + "-`: `"@ + trimmed + "`"@
}

pub open spec fn id_numeric_error(kind: LookupKind, trimmed: Seq<char>) -> Seq<char> {
    lookup_kind_label_spec(kind) + " IDs must end with a numeric segment like `"@ + id_prefix(kind) + "-001`: `"@ + trimmed
        + "`"@
}

/// The canonical form of a definition id: trimmed and upper-cased, made of
/// ASCII letters, digits and single hyphens, starting with the layer's
/// prefix and ending with a numeric segment.
pub open spec fn normalize_id_spec(raw: Seq<char>, kind: LookupKind) -> Result<Seq<char>, Seq<char>> {
    let t = trim_seq(raw);
    let n = upper_seq(t);
    let segs = split_seq(n, '-');
    if n.len() == 0 || !segments_nonempty(segs) || !id_chars(n) {
        Err(id_shape_error(kind, t))
    } else if segs[0] != id_prefix(kind) {
        Err(id_prefix_error(kind, t))
    } else if segs.len() < 2 || !all_digits(segs.last()) {
        Err(id_numeric_error(kind, t))
    } else {
        Ok(n)
    }
}

/// A definition id is accepted exactly when, trimmed and upper-cased, it is
/// made of ASCII letters, digits and hyphens, no hyphen-separated segment is
/// empty, the first segment is the layer's prefix and there are at least two
/// segments, the last all digits; the accepted id is that upper-cased form.
pub proof fn lemma_definition_id_accepted(raw: Seq<char>, kind: LookupKind)
    ensures
        ({
            let u = upper_seq(trim_seq(raw));
            let segs = split_seq(u, '-');
            &&& normalize_id_spec(raw, kind) is Ok <==> (id_chars(u) && segments_nonempty(segs) && segs[0] == id_prefix(kind)
                && segs.len() >= 2 && all_digits(segs.last()))
            &&& normalize_id_spec(raw, kind) is Ok ==> normalize_id_spec(raw, kind)->Ok_0 == u
        }),
{
    let u = upper_seq(trim_seq(raw));
    if u.len() == 0 {
        assert(split_seq(u, '-') =~= seq![Seq::<char>::empty()]);
        assert(split_seq(u, '-')[0].len() == 0);
    }
}

/// Normalising a definition id again changes nothing: a normalised id is
/// accepted as it is.
pub proof fn lemma_normalize_id_idempotent(raw: Seq<char>, kind: LookupKind)
    requires
        normalize_id_spec(raw, kind) is Ok,
    ensures
        normalize_id_spec(normalize_id_spec(raw, kind)->Ok_0, kind) == normalize_id_spec(raw, kind),
{
    let n = upper_seq(trim_seq(raw));
    assert(id_chars(n));
    assert(n.len() > 0 ==> !crate::text::is_ws(n[0]) && !crate::text::is_ws(n.last())) by {
        if n.len() > 0 {
            assert(is_upper(n[0]) || is_digit(n[0]) || n[0] == '-');
            assert(is_upper(n[n.len() - 1]) || is_digit(n[n.len() - 1]) || n[n.len() - 1] == '-');
        }
    }
    crate::text::lemma_trim_fixed(n);
    assert(upper_seq(n) =~= n) by {
        assert forall|i: int| 0 <= i < n.len() implies upper_char(#[trigger] n[i]) == n[i] by {
            assert(is_upper(n[i]) || is_digit(n[i]) || n[i] == '-');
        }
    }
}

/// Checking a feature kind again changes nothing.
pub proof fn lemma_normalize_kind_idempotent(raw: Seq<char>)
    requires
        normalize_kind_spec(raw) is Ok,
    ensures
        normalize_kind_spec(normalize_kind_spec(raw)->Ok_0) == normalize_kind_spec(raw),
{
    let t = trim_seq(raw);
    assert(t.len() > 0 ==> !crate::text::is_ws(t[0]) && !crate::text::is_ws(t.last())) by {
        if t.len() > 0 {
            assert(is_lower(t[0]) || is_digit(t[0]) || t[0] == '-');
            assert(is_lower(t[t.len() - 1]) || is_digit(t[t.len() - 1]) || t[t.len() - 1] == '-');
        }
    }
    crate::text::lemma_trim_fixed(t);
}

pub(crate) fn all_nonempty(parts: &Vec<String>) -> (res: bool)
    ensures
        res == segments_nonempty(views(parts@)),
{
    let mut i: usize = 0;
    while i < parts.len()
        invariant
            i <= parts@.len(),
            forall|k: int| 0 <= k < i ==> (#[trigger] parts@[k])@.len() > 0,
        decreases parts@.len() - i,
    {
        if parts[i].as_str().unicode_len() == 0 {
            assert(views(parts@)[i as int].len() == 0);
            return false;
        }
        i = i + 1;
    }
    assert forall|k: int| 0 <= k < views(parts@).len() implies (#[trigger] views(parts@)[k]).len() > 0 by {
        assert(views(parts@)[k] == parts@[k]@);
    }
    true
}

pub(crate) fn all_id_chars(s: &str) -> (res: bool)
    ensures
        res == id_chars(s@),
{
    let n = s.unicode_len();
    let mut i: usize = 0;
    while i < n
        invariant
            n == s@.len(),
            i <= n,
            forall|k: int| 0 <= k < i ==> is_upper(#[trigger] s@[k]) || is_digit(s@[k]) || s@[k] == '-',
        decreases n - i,
    {
        let c = s.get_char(i);
        if !(('A' <= c && c <= 'Z') || ('0' <= c && c <= '9') || c == '-') {
            return false;
        }
        i = i + 1;
    }
    true
}

fn all_kind_chars(s: &str) -> (res: bool)
    ensures
        res == kind_chars(s@),
{
    let n = s.unicode_len();
    let mut i: usize = 0;
    while i < n
        invariant
            n == s@.len(),
            i <= n,
            forall|k: int| 0 <= k < i ==> is_lower(#[trigger] s@[k]) || is_digit(s@[k]) || s@[k] == '-',
        decreases n - i,
    {
        let c = s.get_char(i);
        if !(('a' <= c && c <= 'z') || ('0' <= c && c <= '9') || c == '-') {
            return false;
        }
        i = i + 1;
    }
    true
}

fn all_digit_chars(s: &str) -> (res: bool)
    ensures
        res == all_digits(s@),
{
    let n = s.unicode_len();
    let mut i: usize = 0;
    while i < n
        invariant
            n == s@.len(),
            i <= n,
            forall|k: int| 0 <= k < i ==> is_digit(#[trigger] s@[k]),
        decreases n - i,
    {
        let c = s.get_char(i);
        if !('0' <= c && c <= '9') {
            return false;
        }
        i = i + 1;
    }
    true
}

fn id_message(kind: LookupKind, middle: &str, prefix: Option<&str>, after: &str, trimmed: &str) -> (res: String)
    ensures
        res@ == lookup_kind_label_spec(kind) + middle@ + (match prefix { Some(p) => p@ + after@, None => Seq::empty() })
            + trimmed@ + "`"@,
{
    let mut out = String::from_str(kind.label());
    out.append(middle);
    match prefix {
        Some(p) => {
            out.append(p);
            out.append(after);
        },
        None => {},
    }
    out.append(trimmed);
    out.append("`");
    out
}

/// Checks and canonicalises a definition id for a layer.
pub fn normalize_definition_id(raw: &str, layer: LookupKind) -> (res: Result<String, String>)
    ensures
        match res {
            Ok(v) => normalize_id_spec(raw@, layer) == Ok::<Seq<char>, Seq<char>>(v@),
            Err(e) => normalize_id_spec(raw@, layer) == Err::<Seq<char>, Seq<char>>(e@),
        },
{
    let trimmed = trim(raw);
    let normalized = to_upper(trimmed.as_str());
    let segments = split_char(normalized.as_str(), '-');
    proof { lemma_split_nonempty(normalized@, '-'); }
    if normalized.as_str().unicode_len() == 0 || !all_nonempty(&segments) || !all_id_chars(normalized.as_str()) {
        let e = id_message(layer, " IDs must contain only ASCII letters, numbers, and single hyphens: `", None, "", trimmed.as_str());
        assert(e@ =~= id_shape_error(layer, trimmed@));
        return Err(e);
    }
    let prefix = id_prefix_str(layer);
    if !crate::text::str_eq(segments[0].as_str(), prefix) {
        let e = id_message(layer, " IDs must start with `", Some(prefix), "-`: `", trimmed.as_str());
        assert(e@ =~= id_prefix_error(layer, trimmed@));
        assert(views(segments@)[0] == segments@[0]@);
        return Err(e);
    }
    if segments.len() < 2 || !all_digit_chars(segments[segments.len() - 1].as_str()) {
        let e = id_message(layer, " IDs must end with a numeric segment like `", Some(prefix), "-001`: `", trimmed.as_str());
        assert(e@ =~= id_numeric_error(layer, trimmed@));
        assert(views(segments@)[0] == segments@[0]@);
        return Err(e);
    }
    assert(views(segments@)[0] == segments@[0]@);
    assert(views(segments@).last() == segments@[segments.len() - 1]@);
    Ok(normalized)
}

pub open spec fn kind_error(trimmed: Seq<char>) -> Seq<char> {
    "feature `--kind` must contain only lowercase ASCII letters, numbers, and single hyphens: `"@ + trimmed + "`"@
}

/// A feature kind: trimmed, non-empty, made of lower-case ASCII letters,
/// digits and single hyphens.
pub open spec fn normalize_kind_spec(raw: Seq<char>) -> Result<Seq<char>, Seq<char>> {
    let t = trim_seq(raw);
    if t.len() == 0 || !segments_nonempty(split_seq(t, '-')) || !kind_chars(t) {
        Err(kind_error(t))
    } else {
        Ok(t)
    }
}

/// Checks a feature kind.
pub fn normalize_feature_kind(raw: &str) -> (res: Result<String, String>)
    ensures
        match res {
            Ok(v) => normalize_kind_spec(raw@) == Ok::<Seq<char>, Seq<char>>(v@),
            Err(e) => normalize_kind_spec(raw@) == Err::<Seq<char>, Seq<char>>(e@),
        },
{
    let trimmed = trim(raw);
    let segments = split_char(trimmed.as_str(), '-');
    if trimmed.as_str().unicode_len() == 0 || !all_nonempty(&segments) || !all_kind_chars(trimmed.as_str()) {
        let mut e = String::from_str("feature `--kind` must contain only lowercase ASCII letters, numbers, and single hyphens: `");
        e.append(trimmed.as_str());
        e.append("`");
        return Err(e);
    }
    Ok(trimmed)
}

// ---------------------------------------------------------------------------
// Titles and slugs
// ---------------------------------------------------------------------------

pub open spec fn default_title_spec(kind: LookupKind) -> Seq<char> {
    match kind {
        LookupKind::Philosophy => "New philosophy"@,
        LookupKind::Policy => "New policy"@,
        LookupKind::Requirement => "New requirement"@,
        LookupKind::Feature => "New feature"@,
    }
}

/// The title of a definition whose id names nothing between prefix and number.
pub fn default_title(layer: LookupKind) -> (res: String)
    ensures
        res@ == default_title_spec(layer),
{
    match layer {
        LookupKind::Philosophy => String::from_str("New philosophy"),
        LookupKind::Policy => String::from_str("New policy"),
        LookupKind::Requirement => String::from_str("New requirement"),
        LookupKind::Feature => String::from_str("New feature"),
    }
}

pub open spec fn default_folder_spec(kind: LookupKind) -> Seq<char> {
    match kind {
        LookupKind::Philosophy => "philosophy"@,
        LookupKind::Policy => "policies"@,
        LookupKind::Requirement => "core"@,
        LookupKind::Feature => "core"@,
    }
}

/// The folder of a definition whose id names nothing between prefix and number.
pub fn default_folder_slug(layer: LookupKind) -> (res: String)
    ensures
        res@ == default_folder_spec(layer),
{
    match layer {
        LookupKind::Philosophy => String::from_str("philosophy"),
        LookupKind::Policy => String::from_str("policies"),
        LookupKind::Requirement => String::from_str("core"),
        LookupKind::Feature => String::from_str("core"),
    }
}

/// A word with its first character in upper case.
pub open spec fn capitalize(s: Seq<char>) -> Seq<char> {
    seq![upper_char(s[0])] + s.drop_first()
}

pub open spec fn nonempty_parts(parts: Seq<Seq<char>>) -> Seq<Seq<char>>
    decreases parts.len(),
{
    if parts.len() == 0 {
        Seq::empty()
    } else {
        let prev = nonempty_parts(parts.drop_last());
        if parts.last().len() > 0 {
            prev.push(parts.last())
        } else {
            prev
        }
    }
}

/// `auth-login` as `Auth Login`: the non-empty hyphen-separated words,
/// capitalised, joined by spaces.
pub open spec fn title_case_spec(slug: Seq<char>) -> Seq<char> {
    join_seq(nonempty_parts(split_seq(slug, '-')).map_values(|p: Seq<char>| capitalize(p)), " "@)
}

fn capitalize_word(s: &str) -> (res: String)
    requires
        s@.len() > 0,
    ensures
        res@ == capitalize(s@),
{
    let mut out = String::new();
    push_char(&mut out, ascii_upper(s.get_char(0)));
    let rest = s.substring_char(1, s.unicode_len());
    out.append(rest);
    assert(out@ =~= capitalize(s@));
    out
}

/// Title-cases a hyphenated slug.
pub fn title_case_slug(slug: &str) -> (res: String)
    ensures
        res@ == title_case_spec(slug@),
{
    let parts = split_char(slug, '-');
    let ghost all = views(parts@);
    let mut words: Vec<String> = Vec::new();
    let mut i: usize = 0;
    assert(all.take(0) =~= Seq::<Seq<char>>::empty());
    assert(views(words@) =~= nonempty_parts(all.take(0)).map_values(|p: Seq<char>| capitalize(p)));
    while i < parts.len()
        invariant
            i <= parts@.len(),
            all == views(parts@),
            views(words@) == nonempty_parts(all.take(i as int)).map_values(|p: Seq<char>| capitalize(p)),
        decreases parts@.len() - i,
    {
        assert(all.take(i + 1).drop_last() =~= all.take(i as int));
        assert(all.take(i + 1).last() == parts@[i as int]@);
        let ghost prev = nonempty_parts(all.take(i as int));
        if parts[i].as_str().unicode_len() > 0 {
            let w = capitalize_word(parts[i].as_str());
            let ghost before = words@;
            words.push(w);
            assert(views(words@) =~= views(before).push(w@));
            assert(prev.push(parts@[i as int]@).map_values(|p: Seq<char>| capitalize(p)) =~= prev.map_values(
                |p: Seq<char>| capitalize(p),
            ).push(capitalize(parts@[i as int]@)));
        }
        i = i + 1;
    }
    assert(all.take(parts@.len() as int) =~= all);
    join(&words, " ")
}

/// Several upper-case id segments as a title: each lower-cased and
/// title-cased, joined by spaces.
pub open spec fn title_case_tokens_spec(tokens: Seq<Seq<char>>) -> Seq<char> {
    join_seq(tokens.map_values(|t: Seq<char>| title_case_spec(lower_seq(t))), " "@)
}

pub fn title_case_tokens(tokens: &Vec<String>) -> (res: String)
    ensures
        res@ == title_case_tokens_spec(views(tokens@)),
{
    let mut out: Vec<String> = Vec::new();
    let mut i: usize = 0;
    while i < tokens.len()
        invariant
            i <= tokens@.len(),
            out@.len() == i,
            forall|k: int| 0 <= k < i ==> (#[trigger] out@[k])@ == title_case_spec(lower_seq(tokens@[k]@)),
        decreases tokens@.len() - i,
    {
        let lower = to_lower(tokens[i].as_str());
        out.push(title_case_slug(lower.as_str()));
        i = i + 1;
    }
    assert(views(out@) =~= views(tokens@).map_values(|t: Seq<char>| title_case_spec(lower_seq(t))));
    join(&out, " ")
}

fn lower_all(tokens: &Vec<String>) -> (res: Vec<String>)
    ensures
        views(res@) == views(tokens@).map_values(|t: Seq<char>| lower_seq(t)),
{
    let mut out: Vec<String> = Vec::new();
    let mut i: usize = 0;
    while i < tokens.len()
        invariant
            i <= tokens@.len(),
            out@.len() == i,
            forall|k: int| 0 <= k < i ==> (#[trigger] out@[k])@ == lower_seq(tokens@[k]@),
        decreases tokens@.len() - i,
    {
        out.push(to_lower(tokens[i].as_str()));
        i = i + 1;
    }
    assert(views(out@) =~= views(tokens@).map_values(|t: Seq<char>| lower_seq(t)));
    out
}

fn slice_strings(v: &Vec<String>, from: usize, to: usize) -> (res: Vec<String>)
    requires
        from <= to <= v@.len(),
    ensures
        views(res@) == views(v@).subrange(from as int, to as int),
{
    let mut out: Vec<String> = Vec::new();
    let mut i: usize = from;
    while i < to
        invariant
            from <= i <= to,
            to <= v@.len(),
            out@.len() == i - from,
            forall|k: int| 0 <= k < out@.len() ==> (#[trigger] out@[k])@ == v@[from + k]@,
        decreases to - i,
    {
        out.push(v[i].clone());
        i = i + 1;
    }
    assert(views(out@) =~= views(v@).subrange(from as int, to as int));
    out
}

/// What `syu add` reads from a definition id.
#[derive(Debug)]
pub struct ParsedId {
    pub normalized: String,
    pub typed_prefix: String,
    pub title: String,
    pub folder_slug: String,
    pub file_slug: String,
}

/// The segments between the layer prefix and the number.
pub open spec fn id_middle(n: Seq<char>) -> Seq<Seq<char>> {
    let segs = split_seq(n, '-');
    segs.subrange(1, segs.len() - 1)
}

pub open spec fn folder_slug_spec(kind: LookupKind, middle: Seq<Seq<char>>) -> Seq<char> {
    if middle.len() > 0 {
        lower_seq(middle[0])
    } else {
        default_folder_spec(kind)
    }
}

pub open spec fn file_slug_spec(kind: LookupKind, middle: Seq<Seq<char>>) -> Seq<char> {
    if middle.len() > 1 {
        join_seq(middle.skip(1).map_values(|t: Seq<char>| lower_seq(t)), "-"@)
    } else {
        folder_slug_spec(kind, middle)
    }
}

/// The parts of a valid id: its prefix without the number, a title from
/// the middle segments (or the layer's default), the folder from the first
/// middle segment and the file from the others.
pub open spec fn parsed_id_fits(p: ParsedId, kind: LookupKind, n: Seq<char>) -> bool {
    let segs = split_seq(n, '-');
    let middle = id_middle(n);
    &&& p.normalized@ == n
    &&& p.typed_prefix@ == join_seq(segs.take(segs.len() - 1), "-"@)
    &&& p.title@ == (if middle.len() == 0 { default_title_spec(kind) } else { title_case_tokens_spec(middle) })
    &&& p.folder_slug@ == folder_slug_spec(kind, middle)
    &&& p.file_slug@ == file_slug_spec(kind, middle)
}

impl ParsedId {
    /// Reads an id for a layer; an invalid id gives the reason.
    pub fn parse(layer: LookupKind, raw: &str) -> (res: Result<ParsedId, String>)
        ensures
            match res {
                Ok(p) => normalize_id_spec(raw@, layer) == Ok::<Seq<char>, Seq<char>>(p.normalized@)
                    && parsed_id_fits(p, layer, p.normalized@),
                Err(e) => normalize_id_spec(raw@, layer) == Err::<Seq<char>, Seq<char>>(e@),
            },
    {
        let normalized = normalize_definition_id(raw, layer)?;
        let segments = split_char(normalized.as_str(), '-');
        let n = segments.len();
        let middle = slice_strings(&segments, 1, n - 1);
        let title = if middle.len() == 0 {
            default_title(layer)
        } else {
            title_case_tokens(&middle)
        };
        let folder_slug = if middle.len() > 0 {
            to_lower(middle[0].as_str())
        } else {
            default_folder_slug(layer)
        };
        let file_slug = if middle.len() > 1 {
            let rest = slice_strings(&middle, 1, middle.len());
            assert(views(rest@) =~= views(middle@).skip(1));
            let lowered = lower_all(&rest);
            join(&lowered, "-")
        } else {
            folder_slug.clone()
        };
        let head = slice_strings(&segments, 0, n - 1);
        assert(views(head@) =~= views(segments@).take(n - 1));
        let typed_prefix = join(&head, "-");
        Ok(ParsedId { normalized, typed_prefix, title, folder_slug, file_slug })
    }
}


// ---------------------------------------------------------------------------
// Where the stub goes
// ---------------------------------------------------------------------------

/// The spec-root-relative document that a new definition goes into.
pub open spec fn default_path_spec(kind: LookupKind, p: ParsedId, feature_kind: Option<Seq<char>>) -> Seq<char> {
    match kind {
        LookupKind::Philosophy => "philosophy/foundation.yaml"@,
        LookupKind::Policy => "policies/policies.yaml"@,
        LookupKind::Requirement => "requirements/"@ + p.folder_slug@ + "/"@ + p.file_slug@ + ".yaml"@,
        LookupKind::Feature => "features/"@ + feature_kind.unwrap() + "/"@ + p.file_slug@ + ".yaml"@,
    }
}

pub open spec fn opt_str_view(o: Option<&str>) -> Option<Seq<char>> {
    match o {
        Some(s) => Some(s@),
        None => None,
    }
}

/// The default document of a new definition; features need their kind.
pub fn default_document_path(layer: LookupKind, parsed_id: &ParsedId, feature_kind: Option<&str>) -> (res: String)
    requires
        layer == LookupKind::Feature ==> feature_kind is Some,
    ensures
        res@ == default_path_spec(layer, *parsed_id, opt_str_view(feature_kind)),
{
    match layer {
        LookupKind::Philosophy => String::from_str("philosophy/foundation.yaml"),
        LookupKind::Policy => String::from_str("policies/policies.yaml"),
        LookupKind::Requirement => {
            let mut out = String::from_str("requirements/");
            out.append(parsed_id.folder_slug.as_str());
            out.append("/");
            out.append(parsed_id.file_slug.as_str());
            out.append(".yaml");
            out
        },
        LookupKind::Feature => {
            let kind = feature_kind.unwrap();
            let mut out = String::from_str("features/");
            out.append(kind);
            out.append("/");
            out.append(parsed_id.file_slug.as_str());
            out.append(".yaml");
            out
        },
    }
}

// ---------------------------------------------------------------------------
// YAML stubs
// ---------------------------------------------------------------------------

/// A link field that a new definition must fill, and the layer it links to.
#[derive(Debug, Clone, Copy)]
pub struct ReciprocalLinkField {
    pub yaml_key: &'static str,
    pub linked_kind_label: &'static str,
}

pub open spec fn reciprocal_keys(kind: LookupKind) -> Seq<Seq<char>> {
    match kind {
        LookupKind::Philosophy => seq!["linked_policies"@],
        LookupKind::Policy => seq!["linked_philosophies"@, "linked_requirements"@],
        LookupKind::Requirement => seq!["linked_policies"@, "linked_features"@],
        LookupKind::Feature => seq!["linked_requirements"@],
    }
}

pub open spec fn reciprocal_labels(kind: LookupKind) -> Seq<Seq<char>> {
    match kind {
        LookupKind::Philosophy => seq!["policy"@],
        LookupKind::Policy => seq!["philosophy"@, "requirement"@],
        LookupKind::Requirement => seq!["policy"@, "feature"@],
        LookupKind::Feature => seq!["requirement"@],
    }
}

pub open spec fn field_keys(fields: Seq<ReciprocalLinkField>) -> Seq<Seq<char>> {
    Seq::new(fields.len(), |i: int| fields[i].yaml_key@)
}

pub open spec fn field_labels(fields: Seq<ReciprocalLinkField>) -> Seq<Seq<char>> {
    Seq::new(fields.len(), |i: int| fields[i].linked_kind_label@)
}

/// The link fields of a layer.
pub fn reciprocal_link_fields(layer: LookupKind) -> (res: Vec<ReciprocalLinkField>)
    ensures
        field_keys(res@) == reciprocal_keys(layer),
        field_labels(res@) == reciprocal_labels(layer),
{
    let mut v: Vec<ReciprocalLinkField> = Vec::new();
    match layer {
        LookupKind::Philosophy => {
            v.push(ReciprocalLinkField { yaml_key: "linked_policies", linked_kind_label: "policy" });
        },
        LookupKind::Policy => {
            v.push(ReciprocalLinkField { yaml_key: "linked_philosophies", linked_kind_label: "philosophy" });
            v.push(ReciprocalLinkField { yaml_key: "linked_requirements", linked_kind_label: "requirement" });
        },
        LookupKind::Requirement => {
            v.push(ReciprocalLinkField { yaml_key: "linked_policies", linked_kind_label: "policy" });
            v.push(ReciprocalLinkField { yaml_key: "linked_features", linked_kind_label: "feature" });
        },
        LookupKind::Feature => {
            v.push(ReciprocalLinkField { yaml_key: "linked_requirements", linked_kind_label: "requirement" });
        },
    }
    assert(field_keys(v@) =~= reciprocal_keys(layer));
    assert(field_labels(v@) =~= reciprocal_labels(layer));
    v
}

pub open spec fn link_stub_lines(kind: LookupKind) -> Seq<char> {
    join_seq(reciprocal_keys(kind).map_values(|k: Seq<char>| "    "@ + k + ": []"@), "\n"@)
}

/// One empty list per link field, as YAML lines of an item.
pub fn render_reciprocal_link_stub(layer: LookupKind) -> (res: String)
    ensures
        res@ == link_stub_lines(layer),
{
    let fields = reciprocal_link_fields(layer);
    let mut lines: Vec<String> = Vec::new();
    let mut i: usize = 0;
    while i < fields.len()
        invariant
            i <= fields@.len(),
            field_keys(fields@) == reciprocal_keys(layer),
            lines@.len() == i,
            forall|k: int| 0 <= k < i ==> (#[trigger] lines@[k])@ == "    "@ + fields@[k].yaml_key@ + ": []"@,
        decreases fields@.len() - i,
    {
        let mut line = String::from_str("    ");
        line.append(fields[i].yaml_key);
        line.append(": []");
        lines.push(line);
        i = i + 1;
    }
    assert(views(lines@) =~= reciprocal_keys(layer).map_values(|k: Seq<char>| "    "@ + k + ": []"@)) by {
        assert forall|k: int| 0 <= k < lines@.len() implies views(lines@)[k] == reciprocal_keys(layer).map_values(
            |k: Seq<char>| "    "@ + k + ": []"@,
        )[k] by {
            assert(field_keys(fields@)[k] == fields@[k].yaml_key@);
        }
    }
    join(&lines, "\n")
}

/// The YAML list item of a new definition.
pub open spec fn item_block_spec(kind: LookupKind, p: ParsedId) -> Seq<char> {
    let n = p.normalized@;
    let t = p.title@;
    let links = link_stub_lines(kind);
    match kind {
        LookupKind::Philosophy => "  - id: "@ + n + "\n    title: "@ + t
            + "\n    product_design_principle: |\n      Describe the durable product design principle for "@ + n
            + ".\n    coding_guideline: |\n      Describe the coding guideline that keeps "@ + n
            + " actionable in day-to-day work.\n"@ + links,
        LookupKind::Policy => "  - id: "@ + n + "\n    title: "@ + t + "\n    summary: Document the rule enforced by "@ + n
            + ".\n    description: |\n      Describe how this policy turns philosophy into a concrete contributor rule.\n"@
            + links,
        LookupKind::Requirement => "  - id: "@ + n + "\n    title: "@ + t
            + "\n    description: |\n      Describe the concrete requirement that "@ + n
            + " adds to the repository.\n    priority: high\n    status: planned\n"@ + links + "\n    tests: {}"@,
        LookupKind::Feature => "  - id: "@ + n + "\n    title: "@ + t + "\n    summary: Describe the shipped capability that "@
            + n + " represents.\n    status: planned\n"@ + links + "\n    implementations: {}"@,
    }
}

proof fn lemma_occurs_in_middle(a: Seq<char>, b: Seq<char>, c: Seq<char>, sub: Seq<char>, off: int)
    requires
        0 <= off,
        off + sub.len() <= b.len(),
        b.subrange(off, off + sub.len()) == sub,
    ensures
        contains_seq(a + b + c, sub),
{
    let s = a + b + c;
    let i = a.len() + off;
    assert(s.subrange(i, i + sub.len()) =~= sub) by {
        assert forall|k: int| 0 <= k < sub.len() implies s.subrange(i, i + sub.len())[k] == sub[k] by {
            assert(s[i + k] == b[off + k]);
            assert(b.subrange(off, off + sub.len())[k] == b[off + k]);
        }
    }
    assert(crate::text::occurs_at(sub, s, i));
}

/// A new requirement or feature starts planned: its item block declares
/// `status: planned` on a line of its own.
pub proof fn lemma_new_items_start_planned(kind: LookupKind, p: ParsedId)
    requires
        kind == LookupKind::Requirement || kind == LookupKind::Feature,
    ensures
        contains_seq(item_block_spec(kind, p), "\n    status: planned\n"@),
{
    let n = p.normalized@;
    let t = p.title@;
    let links = link_stub_lines(kind);
    let sub = "\n    status: planned\n"@;
    reveal_strlit("\n    status: planned\n");
    if kind == LookupKind::Requirement {
        let lit = " adds to the repository.\n    priority: high\n    status: planned\n"@;
        reveal_strlit(" adds to the repository.\n    priority: high\n    status: planned\n");
        let a = "  - id: "@ + n + "\n    title: "@ + t + "\n    description: |\n      Describe the concrete requirement that "@ + n;
        assert(lit.subrange(lit.len() - sub.len(), lit.len() as int) =~= sub);
        lemma_occurs_in_middle(a, lit, links + "\n    tests: {}"@, sub, lit.len() - sub.len());
        assert(item_block_spec(kind, p) =~= a + lit + (links + "\n    tests: {}"@));
    } else {
        let lit = " represents.\n    status: planned\n"@;
        reveal_strlit(" represents.\n    status: planned\n");
        let a = "  - id: "@ + n + "\n    title: "@ + t + "\n    summary: Describe the shipped capability that "@ + n;
        assert(lit.subrange(lit.len() - sub.len(), lit.len() as int) =~= sub);
        lemma_occurs_in_middle(a, lit, links + "\n    implementations: {}"@, sub, lit.len() - sub.len());
        assert(item_block_spec(kind, p) =~= a + lit + (links + "\n    implementations: {}"@));
    }
}

/// The item block of a new definition starts with its id and title, and a
/// new requirement ends with an empty `tests` map, a new feature with an
/// empty `implementations` map.
pub proof fn lemma_item_block_shape(kind: LookupKind, p: ParsedId)
    ensures
        crate::text::is_prefix("  - id: "@ + p.normalized@ + "\n    title: "@ + p.title@, item_block_spec(kind, p)),
        kind == LookupKind::Requirement ==> crate::text::is_suffix("\n    tests: {}"@, item_block_spec(kind, p)),
        kind == LookupKind::Feature ==> crate::text::is_suffix("\n    implementations: {}"@, item_block_spec(kind, p)),
{
    let head = "  - id: "@ + p.normalized@ + "\n    title: "@ + p.title@;
    let b = item_block_spec(kind, p);
    match kind {
        LookupKind::Philosophy => {
            assert(b =~= head + ("\n    product_design_principle: |\n      Describe the durable product design principle for "@ + p.normalized@
                + ".\n    coding_guideline: |\n      Describe the coding guideline that keeps "@ + p.normalized@
                + " actionable in day-to-day work.\n"@ + link_stub_lines(kind)));
        },
        LookupKind::Policy => {
            assert(b =~= head + ("\n    summary: Document the rule enforced by "@ + p.normalized@
                + ".\n    description: |\n      Describe how this policy turns philosophy into a concrete contributor rule.\n"@
                + link_stub_lines(kind)));
        },
        LookupKind::Requirement => {
            let mid = "\n    description: |\n      Describe the concrete requirement that "@ + p.normalized@
                + " adds to the repository.\n    priority: high\n    status: planned\n"@ + link_stub_lines(kind);
            assert(b =~= head + mid + "\n    tests: {}"@);
            assert(b.skip(b.len() - "\n    tests: {}"@.len()) =~= "\n    tests: {}"@);
        },
        LookupKind::Feature => {
            let mid = "\n    summary: Describe the shipped capability that "@ + p.normalized@
                + " represents.\n    status: planned\n"@ + link_stub_lines(kind);
            assert(b =~= head + mid + "\n    implementations: {}"@);
            assert(b.skip(b.len() - "\n    implementations: {}"@.len()) =~= "\n    implementations: {}"@);
        },
    }
    assert(b.take(head.len() as int) =~= head);
}

/// Renders the YAML list item of a new definition.
pub fn render_item_block(layer: LookupKind, parsed_id: &ParsedId) -> (res: String)
    ensures
        res@ == item_block_spec(layer, *parsed_id),
{
    let links = render_reciprocal_link_stub(layer);
    let n = parsed_id.normalized.as_str();
    let t = parsed_id.title.as_str();
    let mut out = String::from_str("  - id: ");
    out.append(n);
    out.append("\n    title: ");
    out.append(t);
    match layer {
        LookupKind::Philosophy => {
            out.append("\n    product_design_principle: |\n      Describe the durable product design principle for ");
            out.append(n);
            out.append(".\n    coding_guideline: |\n      Describe the coding guideline that keeps ");
            out.append(n);
            out.append(" actionable in day-to-day work.\n");
            out.append(links.as_str());
        },
        LookupKind::Policy => {
            out.append("\n    summary: Document the rule enforced by ");
            out.append(n);
            out.append(".\n    description: |\n      Describe how this policy turns philosophy into a concrete contributor rule.\n");
            out.append(links.as_str());
        },
        LookupKind::Requirement => {
            out.append("\n    description: |\n      Describe the concrete requirement that ");
            out.append(n);
            out.append(" adds to the repository.\n    priority: high\n    status: planned\n");
            out.append(links.as_str());
            out.append("\n    tests: {}");
        },
        LookupKind::Feature => {
            out.append("\n    summary: Describe the shipped capability that ");
            out.append(n);
            out.append(" represents.\n    status: planned\n");
            out.append(links.as_str());
            out.append("\n    implementations: {}");
        },
    }
    out
}

/// The document that a new definition creates when its file does not exist yet.
pub open spec fn new_document_spec(kind: LookupKind, p: ParsedId, feature_kind: Option<Seq<char>>) -> Seq<char> {
    let block = item_block_spec(kind, p);
    match kind {
        LookupKind::Philosophy => "category: Philosophy\nversion: 1\nlanguage: en\n\nphilosophies:\n"@ + block + "\n"@,
        LookupKind::Policy => "category: Policies\nversion: 1\nlanguage: en\n\npolicies:\n"@ + block + "\n"@,
        LookupKind::Requirement => "category: "@ + title_case_spec(p.folder_slug@) + " Requirements\nprefix: "@
            + p.typed_prefix@ + "\n\nrequirements:\n"@ + block + "\n"@,
        LookupKind::Feature => "category: "@ + title_case_spec(
            match feature_kind {
                Some(k) => k,
                None => p.folder_slug@,
            },
        ) + " Features\nversion: 1\n\nfeatures:\n"@ + block + "\n"@,
    }
}

/// Renders a new document that holds only the new definition.
pub fn render_new_document(layer: LookupKind, parsed_id: &ParsedId, feature_kind: Option<&str>) -> (res: String)
    ensures
        res@ == new_document_spec(layer, *parsed_id, opt_str_view(feature_kind)),
{
    let block = render_item_block(layer, parsed_id);
    let mut out = match layer {
        LookupKind::Philosophy => String::from_str("category: Philosophy\nversion: 1\nlanguage: en\n\nphilosophies:\n"),
        LookupKind::Policy => String::from_str("category: Policies\nversion: 1\nlanguage: en\n\npolicies:\n"),
        LookupKind::Requirement => {
            let mut o = String::from_str("category: ");
            o.append(title_case_slug(parsed_id.folder_slug.as_str()).as_str());
            o.append(" Requirements\nprefix: ");
            o.append(parsed_id.typed_prefix.as_str());
            o.append("\n\nrequirements:\n");
            o
        },
        LookupKind::Feature => {
            let kind = match feature_kind {
                Some(k) => k,
                None => parsed_id.folder_slug.as_str(),
            };
            let mut o = String::from_str("category: ");
            o.append(title_case_slug(kind).as_str());
            o.append(" Features\nversion: 1\n\nfeatures:\n");
            o
        },
    };
    out.append(block.as_str());
    out.append("\n");
    out
}

/// `s` without its trailing newlines.
pub open spec fn trim_trailing_newlines(s: Seq<char>) -> Seq<char>
    decreases s.len(),
{
    if s.len() > 0 && s.last() == '\n' {
        trim_trailing_newlines(s.drop_last())
    } else {
        s
    }
}

fn without_trailing_newlines(s: &str) -> (res: String)
    ensures
        res@ == trim_trailing_newlines(s@),
{
    let mut n = s.unicode_len();
    assert(s@.take(n as int) =~= s@);
    while n > 0 && s.get_char(n - 1) == '\n'
        invariant
            n <= s@.len(),
            trim_trailing_newlines(s@.take(n as int)) == trim_trailing_newlines(s@),
        decreases n,
    {
        assert(s@.take(n as int).drop_last() =~= s@.take(n - 1));
        n = n - 1;
    }
    let t = s.substring_char(0, n);
    assert(t@ =~= s@.take(n as int));
    String::from_str(t)
}

/// An existing document with one more list item at its end, after a blank line.
pub open spec fn appended_item_spec(existing: Seq<char>, block: Seq<char>) -> Seq<char> {
    trim_trailing_newlines(existing) + "\n\n"@ + block + "\n"@
}

pub fn append_yaml_list_item_text(existing: &str, item_block: &str) -> (res: String)
    ensures
        res@ == appended_item_spec(existing@, item_block@),
{
    let mut out = without_trailing_newlines(existing);
    out.append("\n\n");
    out.append(item_block);
    out.append("\n");
    out
}

// ---------------------------------------------------------------------------
// The feature registry
// ---------------------------------------------------------------------------

/// One entry of `features/features.yaml`.
#[derive(Debug)]
pub struct FeatureRegistryEntry {
    pub kind: String,
    pub file: String,
}

/// A path with forward slashes only.
pub open spec fn path_label_spec(path: Seq<char>) -> Seq<char> {
    crate::text::replace_char_seq(path, '\\', "/"@)
}

pub fn path_label(path: &str) -> (res: String)
    ensures
        res@ == path_label_spec(path@),
{
    crate::text::replace_char(path, '\\', "/")
}

/// The first registry entry for a file.
pub open spec fn registry_match(entries: Seq<FeatureRegistryEntry>, portable: Seq<char>) -> Option<int>
    decreases entries.len(),
{
    if entries.len() == 0 {
        None
    } else {
        match registry_match(entries.drop_last(), portable) {
            Some(k) => Some(k),
            None => if path_label_spec(entries.last().file@) == portable { Some(entries.len() - 1) } else { None },
        }
    }
}

/// How the registry changes for a new feature document: nothing when it is
/// already listed under the kind, an error when it is listed under another
/// kind, else a new entry at the end of the registry text.
pub open spec fn registry_update_spec(raw: Seq<char>, entries: Seq<FeatureRegistryEntry>, portable: Seq<char>, kind: Seq<char>) -> Result<Option<Seq<char>>, Seq<char>> {
    match registry_match(entries, portable) {
        Some(k) => if entries[k].kind@ != kind {
            Err("feature registry already tracks `"@ + portable + "` under kind `"@ + entries[k].kind@ + "`"@)
        } else {
            Ok(None)
        },
        None => Ok(Some(trim_trailing_newlines(raw) + "\n  - kind: "@ + kind + "\n    file: "@ + portable + "\n"@)),
    }
}

pub fn feature_registry_update(raw: &str, entries: &Vec<FeatureRegistryEntry>, portable: &str, kind: &str) -> (res: Result<Option<String>, String>)
    ensures
        match res {
            Ok(Some(t)) => registry_update_spec(raw@, entries@, portable@, kind@) == Ok::<Option<Seq<char>>, Seq<char>>(Some(t@)),
            Ok(None) => registry_update_spec(raw@, entries@, portable@, kind@) == Ok::<Option<Seq<char>>, Seq<char>>(None),
            Err(e) => registry_update_spec(raw@, entries@, portable@, kind@) == Err::<Option<Seq<char>>, Seq<char>>(e@),
        },
{
    let mut i: usize = 0;
    assert(entries@.take(0) =~= Seq::<FeatureRegistryEntry>::empty());
    while i < entries.len()
        invariant
            i <= entries@.len(),
            registry_match(entries@.take(i as int), portable@).is_none(),
        decreases entries@.len() - i,
    {
        let label = path_label(entries[i].file.as_str());
        assert(entries@.take(i + 1).drop_last() =~= entries@.take(i as int));
        assert(entries@.take(i + 1).last() == entries@[i as int]);
        if crate::text::str_eq(label.as_str(), portable) {
            proof { lemma_registry_match_prefix(entries@, portable@, i as int + 1); }
            if !crate::text::str_eq(entries[i].kind.as_str(), kind) {
                let mut e = String::from_str("feature registry already tracks `");
                e.append(portable);
                e.append("` under kind `");
                e.append(entries[i].kind.as_str());
                e.append("`");
                return Err(e);
            }
            return Ok(None);
        }
        i = i + 1;
    }
    assert(entries@.take(entries@.len() as int) =~= entries@);
    let mut updated = without_trailing_newlines(raw);
    updated.append("\n  - kind: ");
    updated.append(kind);
    updated.append("\n    file: ");
    updated.append(portable);
    updated.append("\n");
    Ok(Some(updated))
}

proof fn lemma_registry_match_prefix(entries: Seq<FeatureRegistryEntry>, portable: Seq<char>, n: int)
    requires
        0 < n <= entries.len(),
        registry_match(entries.take(n), portable) == Some(n - 1),
    ensures
        registry_match(entries, portable) == Some(n - 1),
    decreases entries.len(),
{
    if entries.len() > n {
        assert(entries.drop_last().take(n) =~= entries.take(n));
        lemma_registry_match_prefix(entries.drop_last(), portable, n);
    } else {
        assert(entries.take(n) =~= entries);
    }
}

// ---------------------------------------------------------------------------
// Follow-up instructions
// ---------------------------------------------------------------------------

/// `a`, `a and b`, `a, b and c`.
pub open spec fn instruction_list_spec(items: Seq<Seq<char>>) -> Seq<char> {
    if items.len() == 1 {
        items[0]
    } else {
        join_seq(items.drop_last(), ", "@) + " and "@ + items.last()
    }
}

pub fn format_instruction_list(items: &Vec<String>) -> (res: String)
    requires
        items@.len() >= 1,
    ensures
        res@ == instruction_list_spec(views(items@)),
{
    let n = items.len();
    if n == 1 {
        return items[0].clone();
    }
    let head = slice_strings(items, 0, n - 1);
    assert(views(head@) =~= views(items@).drop_last());
    let mut out = join(&head, ", ");
    out.append(" and ");
    out.append(items[n - 1].as_str());
    out
}

pub open spec fn suggested_kinds_spec(kind: LookupKind) -> Seq<LookupKind> {
    match kind {
        LookupKind::Philosophy => seq![LookupKind::Policy],
        LookupKind::Policy => seq![LookupKind::Philosophy, LookupKind::Requirement],
        LookupKind::Requirement => seq![LookupKind::Policy, LookupKind::Feature],
        LookupKind::Feature => seq![LookupKind::Requirement],
    }
}

/// The layers that a new definition of a layer links to.
pub fn suggested_linked_kinds(layer: LookupKind) -> (res: Vec<LookupKind>)
    ensures
        res@ == suggested_kinds_spec(layer),
{
    let mut v: Vec<LookupKind> = Vec::new();
    match layer {
        LookupKind::Philosophy => v.push(LookupKind::Policy),
        LookupKind::Policy => {
            v.push(LookupKind::Philosophy);
            v.push(LookupKind::Requirement);
        },
        LookupKind::Requirement => {
            v.push(LookupKind::Policy);
            v.push(LookupKind::Feature);
        },
        LookupKind::Feature => v.push(LookupKind::Requirement),
    }
    assert(v@ =~= suggested_kinds_spec(layer));
    v
}

/// An id with its prefix swapped for another layer's.
pub open spec fn suggested_id_spec(id: Seq<char>, kind: LookupKind) -> Seq<char> {
    join_seq(split_seq(id, '-').update(0, id_prefix(kind)), "-"@)
}

pub fn suggested_linked_id(id: &str, kind: LookupKind) -> (res: String)
    ensures
        res@ == suggested_id_spec(id@, kind),
{
    let mut segments = split_char(id, '-');
    proof { lemma_split_nonempty(id@, '-'); }
    let ghost before = views(segments@);
    segments.set(0, String::from_str(id_prefix_str(kind)));
    assert(views(segments@) =~= before.update(0, id_prefix(kind)));
    join(&segments, "-")
}

pub open spec fn kind_labels(kinds: Seq<LookupKind>) -> Seq<Seq<char>> {
    kinds.map_values(|k: LookupKind| lookup_kind_label_spec(k))
}

pub open spec fn scaffold_commands(kinds: Seq<LookupKind>, id: Seq<char>, root: Seq<char>) -> Seq<Seq<char>> {
    kinds.map_values(|k: LookupKind| "`syu add "@ + lookup_kind_label_spec(k) + " "@ + suggested_id_spec(id, k) + " "@
        + shell_quote_spec(root) + "`"@)
}

/// How to scaffold the definitions that a new one links to.
pub open spec fn scaffold_instruction_spec(root: Seq<char>, kind: LookupKind, id: Seq<char>) -> Seq<char> {
    let kinds = suggested_kinds_spec(kind);
    let commands = scaffold_commands(kinds, id, root);
    if kinds.len() == 1 {
        "If the linked "@ + lookup_kind_label_spec(kinds[0]) + " stub does not exist yet, scaffold it with "@ + commands[0]
            + "."@
    } else {
        "If linked "@ + instruction_list_spec(kind_labels(kinds)) + " stubs are still missing, scaffold them with "@
            + instruction_list_spec(commands) + "."@
    }
}

pub fn scaffold_missing_link_instruction(workspace_root: &str, layer: LookupKind, id: &str) -> (res: String)
    ensures
        res@ == scaffold_instruction_spec(workspace_root@, layer, id@),
{
    let kinds = suggested_linked_kinds(layer);
    let workspace_arg = shell_quote_path(workspace_root);
    let mut labels: Vec<String> = Vec::new();
    let mut commands: Vec<String> = Vec::new();
    let mut i: usize = 0;
    while i < kinds.len()
        invariant
            i <= kinds@.len(),
            kinds@ == suggested_kinds_spec(layer),
            workspace_arg@ == shell_quote_spec(workspace_root@),
            labels@.len() == i,
            commands@.len() == i,
            forall|k: int| 0 <= k < i ==> (#[trigger] labels@[k])@ == lookup_kind_label_spec(kinds@[k]),
            forall|k: int| 0 <= k < i ==> (#[trigger] commands@[k])@ == "`syu add "@ + lookup_kind_label_spec(kinds@[k])
                + " "@ + suggested_id_spec(id@, kinds@[k]) + " "@ + shell_quote_spec(workspace_root@) + "`"@,
        decreases kinds@.len() - i,
    {
        let k = kinds[i];
        labels.push(String::from_str(k.label()));
        let mut c = String::from_str("`syu add ");
        c.append(k.label());
        c.append(" ");
        c.append(suggested_linked_id(id, k).as_str());
        c.append(" ");
        c.append(workspace_arg.as_str());
        c.append("`");
        commands.push(c);
        i = i + 1;
    }
    assert(views(labels@) =~= kind_labels(kinds@));
    assert(views(commands@) =~= scaffold_commands(kinds@, id@, workspace_root@));
    if kinds.len() == 1 {
        let mut out = String::from_str("If the linked ");
        out.append(kinds[0].label());
        out.append(" stub does not exist yet, scaffold it with ");
        out.append(commands[0].as_str());
        out.append(".");
        out
    } else {
        let mut out = String::from_str("If linked ");
        out.append(format_instruction_list(&labels).as_str());
        out.append(" stubs are still missing, scaffold them with ");
        out.append(format_instruction_list(&commands).as_str());
        out.append(".");
        out
    }
}

pub open spec fn quoted_keys(kind: LookupKind) -> Seq<Seq<char>> {
    reciprocal_keys(kind).map_values(|k: Seq<char>| "`"@ + k + ":`"@)
}

/// Which link fields the new definition must fill.
pub open spec fn entry_instruction_spec(kind: LookupKind, id: Seq<char>) -> Seq<char> {
    let fields = quoted_keys(kind);
    if fields.len() == 1 {
        "Add at least one "@ + fields[0] + " entry in `"@ + id + "`."@
    } else {
        "Add at least one "@ + fields[0] + " entry and "@ + instruction_list_spec(
            fields.drop_first().map_values(|f: Seq<char>| "one "@ + f + " entry"@),
        ) + " in `"@ + id + "`."@
    }
}

pub fn reciprocal_link_entry_instruction(layer: LookupKind, id: &str) -> (res: String)
    ensures
        res@ == entry_instruction_spec(layer, id@),
{
    let fields = reciprocal_link_fields(layer);
    let mut quoted: Vec<String> = Vec::new();
    let mut i: usize = 0;
    while i < fields.len()
        invariant
            i <= fields@.len(),
            field_keys(fields@) == reciprocal_keys(layer),
            quoted@.len() == i,
            forall|k: int| 0 <= k < i ==> (#[trigger] quoted@[k])@ == "`"@ + fields@[k].yaml_key@ + ":`"@,
        decreases fields@.len() - i,
    {
        let mut q = String::from_str("`");
        q.append(fields[i].yaml_key);
        q.append(":`");
        quoted.push(q);
        i = i + 1;
    }
    assert(views(quoted@) =~= quoted_keys(layer)) by {
        assert forall|k: int| 0 <= k < quoted@.len() implies views(quoted@)[k] == quoted_keys(layer)[k] by {
            assert(field_keys(fields@)[k] == fields@[k].yaml_key@);
        }
    }
    if quoted.len() == 1 {
        let mut out = String::from_str("Add at least one ");
        out.append(quoted[0].as_str());
        out.append(" entry in `");
        out.append(id);
        out.append("`.");
        return out;
    }
    let mut rest: Vec<String> = Vec::new();
    let mut j: usize = 1;
    while j < quoted.len()
        invariant
            1 <= j <= quoted@.len(),
            rest@.len() == j - 1,
            forall|k: int| 0 <= k < rest@.len() ==> (#[trigger] rest@[k])@ == "one "@ + quoted@[k + 1]@ + " entry"@,
        decreases quoted@.len() - j,
    {
        let mut r = String::from_str("one ");
        r.append(quoted[j].as_str());
        r.append(" entry");
        rest.push(r);
        j = j + 1;
    }
    assert(views(rest@) =~= views(quoted@).drop_first().map_values(|f: Seq<char>| "one "@ + f + " entry"@));
    let mut out = String::from_str("Add at least one ");
    out.append(quoted[0].as_str());
    out.append(" entry and ");
    out.append(format_instruction_list(&rest).as_str());
    out.append(" in `");
    out.append(id);
    out.append("`.");
    out
}

/// Which definitions must link back to the new one.
pub open spec fn back_instruction_spec(kind: LookupKind, id: Seq<char>) -> Seq<char> {
    let labels = reciprocal_labels(kind);
    "Update each linked "@ + instruction_list_spec(labels) + " so "@ + (if labels.len() == 1 { "it links"@ } else {
        "they link"@
    }) + " back to `"@ + id + "`."@
}

pub fn reciprocal_link_back_instruction(layer: LookupKind, id: &str) -> (res: String)
    ensures
        res@ == back_instruction_spec(layer, id@),
{
    let fields = reciprocal_link_fields(layer);
    let mut labels: Vec<String> = Vec::new();
    let mut i: usize = 0;
    while i < fields.len()
        invariant
            i <= fields@.len(),
            field_labels(fields@) == reciprocal_labels(layer),
            labels@.len() == i,
            forall|k: int| 0 <= k < i ==> (#[trigger] labels@[k])@ == fields@[k].linked_kind_label@,
        decreases fields@.len() - i,
    {
        labels.push(String::from_str(fields[i].linked_kind_label));
        i = i + 1;
    }
    assert(views(labels@) =~= reciprocal_labels(layer)) by {
        assert forall|k: int| 0 <= k < labels@.len() implies views(labels@)[k] == reciprocal_labels(layer)[k] by {
            assert(field_labels(fields@)[k] == fields@[k].linked_kind_label@);
        }
    }
    let mut out = String::from_str("Update each linked ");
    out.append(format_instruction_list(&labels).as_str());
    out.append(" so ");
    out.append(if labels.len() == 1 { "it links" } else { "they link" });
    out.append(" back to `");
    out.append(id);
    out.append("`.");
    out
}

/// The numbered next steps that `syu add` prints.
pub open spec fn follow_up_spec(target_label: Seq<char>, root: Seq<char>, kind: LookupKind, id: Seq<char>) -> Seq<Seq<char>> {
    seq![
        "Edit "@ + target_label + " and fill the stub fields for `"@ + id + "`."@,
        entry_instruction_spec(kind, id),
        scaffold_instruction_spec(root, kind, id),
        back_instruction_spec(kind, id),
        "Run `syu validate "@ + shell_quote_spec(root) + "` once the reciprocal links are in place."@,
    ]
}

pub fn add_follow_up_steps(target_label: &str, workspace_root: &str, layer: LookupKind, id: &str) -> (res: Vec<String>)
    ensures
        views(res@) == follow_up_spec(target_label@, workspace_root@, layer, id@),
{
    let mut steps: Vec<String> = Vec::new();
    let mut first = String::from_str("Edit ");
    first.append(target_label);
    first.append(" and fill the stub fields for `");
    first.append(id);
    first.append("`.");
    steps.push(first);
    steps.push(reciprocal_link_entry_instruction(layer, id));
    steps.push(scaffold_missing_link_instruction(workspace_root, layer, id));
    steps.push(reciprocal_link_back_instruction(layer, id));
    let mut last = String::from_str("Run `syu validate ");
    last.append(shell_quote_path(workspace_root).as_str());
    last.append("` once the reciprocal links are in place.");
    steps.push(last);
    assert(views(steps@) =~= follow_up_spec(target_label@, workspace_root@, layer, id@));
    steps
}

// ---------------------------------------------------------------------------
// Resolving the invocation
// ---------------------------------------------------------------------------

/// A source of answers for the questions of `syu add --interactive`.
pub trait AddPromptIo {
    fn is_terminal(&self) -> bool;

    fn prompt_line(&mut self, label: &str, default: Option<&str>) -> Result<String, String>;

    /// Tells the user why an answer was not taken before asking again.
    fn report(&mut self, message: &str);
}

pub open spec fn kind_flag_error() -> Seq<char> {
    "`--kind` is only supported when scaffolding features"@
}

/// `--kind` belongs to features only.
pub fn check_kind_flag(args: &AddArgs) -> (res: Result<(), String>)
    ensures
        (args.layer != LookupKind::Feature && args.kind is Some) ==> res is Err && res->Err_0@ == kind_flag_error(),
        !(args.layer != LookupKind::Feature && args.kind is Some) ==> res is Ok,
{
    if args.layer != LookupKind::Feature && args.kind.is_some() {
        return Err(String::from_str("`--kind` is only supported when scaffolding features"));
    }
    Ok(())
}

/// In interactive mode, an argument that is no valid id but names an
/// existing path is the workspace, and the id is asked for.
pub fn resolve_workspace_and_id(args: &AddArgs, id_names_existing_path: bool) -> (res: (Option<String>, String))
    ensures
        ({
            let swap = args.interactive && args.workspace@ == "."@ && args.id is Some
                && normalize_id_spec(args.id->Some_0@, args.layer) is Err && id_names_existing_path;
            &&& swap ==> res.0 is None && res.1@ == args.id->Some_0@
            &&& !swap ==> res.1@ == args.workspace@ && match args.id {
                Some(i) => res.0 is Some && res.0->Some_0@ == i@,
                None => res.0 is None,
            }
        }),
{
    match &args.id {
        Some(candidate) => {
            if args.interactive && crate::text::str_eq(args.workspace.as_str(), ".") && id_names_existing_path {
                match ParsedId::parse(args.layer, candidate.as_str()) {
                    Err(_) => {
                        return (None, candidate.clone());
                    },
                    Ok(_) => {},
                }
            }
            (Some(candidate.clone()), args.workspace.clone())
        },
        None => (None, args.workspace.clone()),
    }
}

/// The feature kind when no question is needed: the `--kind` flag, or, when
/// not interactive, the id's folder. `None` means the kind must be asked for.
pub fn feature_kind_without_prompt(args: &AddArgs, parsed_id: &ParsedId) -> (res: Option<Result<String, String>>)
    ensures
        match args.kind {
            Some(k) => res is Some && match res->Some_0 {
                Ok(v) => normalize_kind_spec(k@) == Ok::<Seq<char>, Seq<char>>(v@),
                Err(e) => normalize_kind_spec(k@) == Err::<Seq<char>, Seq<char>>(e@),
            },
            None => if args.interactive {
                res is None
            } else {
                res is Some && match res->Some_0 {
                    Ok(v) => normalize_kind_spec(parsed_id.folder_slug@) == Ok::<Seq<char>, Seq<char>>(v@),
                    Err(e) => normalize_kind_spec(parsed_id.folder_slug@) == Err::<Seq<char>, Seq<char>>(e@),
                }
            },
        },
{
    match &args.kind {
        Some(k) => Some(normalize_feature_kind(k.as_str())),
        None => {
            if args.interactive {
                None
            } else {
                Some(normalize_feature_kind(parsed_id.folder_slug.as_str()))
            }
        },
    }
}

pub open spec fn file_prompt_message() -> Seq<char> {
    "`syu add --interactive` requires a terminal to prompt for a file path"@
}

/// The explicit file of the new definition: `--file`, or, in interactive
/// mode, the answer to a question whose default is the default document (a
/// blank answer keeps the default, which is `None` here).
pub fn resolve_interactive_file_prompt<P: AddPromptIo>(
    args: &AddArgs,
    parsed_id: &ParsedId,
    feature_kind: Option<&str>,
    prompt_io: &mut P,
) -> (res: Result<Option<String>, String>)
    requires
        args.layer == LookupKind::Feature ==> feature_kind is Some,
    ensures
        args.file is Some ==> res is Ok && res->Ok_0 is Some && res->Ok_0->Some_0@ == args.file->Some_0@,
        args.file is None && !args.interactive ==> res is Ok && res->Ok_0 is None,
        res matches Ok(Some(v)) ==> v@.len() > 0 || args.file is Some,
{
    match &args.file {
        Some(file) => {
            return Ok(Some(file.clone()));
        },
        None => {},
    }
    if !args.interactive {
        return Ok(None);
    }
    ensure_prompt_terminal(prompt_io.is_terminal(), "`syu add --interactive` requires a terminal to prompt for a file path")?;
    let default_relative = default_document_path(args.layer, parsed_id, feature_kind);
    let raw = prompt_io.prompt_line("YAML file", Some(default_relative.as_str()))?;
    Ok(optional_answer(raw))
}

pub open spec fn missing_id_message() -> Seq<char> {
    "`syu add` needs a definition ID when stdin/stdout are not terminals; pass the ID explicitly or rerun in a terminal to be prompted"@
}

pub open spec fn kind_prompt_message() -> Seq<char> {
    "`syu add --interactive` requires a terminal to prompt for a feature kind"@
}

/// Asks until the answer is not blank; each blank answer is reported as
/// missing.
pub fn prompt_required<P: AddPromptIo>(prompt_io: &mut P, label: &str) -> (res: Result<String, String>)
    ensures
        res matches Ok(v) ==> v@.len() > 0,
{
    let mut attempts: u64 = 0;
    loop
        decreases u64::MAX - attempts,
    {
        if attempts == u64::MAX {
            return Err(attempts_exhausted_message(label));
        }
        attempts = attempts + 1;
        let raw = prompt_io.prompt_line(label, None)?;
        if raw.as_str().unicode_len() > 0 {
            return Ok(raw);
        }
        let mut m = String::from_str(label);
        m.append(" is required.");
        prompt_io.report(m.as_str());
    }
}

/// Asks for the definition id, after making sure a terminal is there to
/// answer; an answer that is no valid id of the layer is reported and the
/// question asked again.
pub fn prompt_for_parsed_id<P: AddPromptIo>(layer: LookupKind, prompt_io: &mut P) -> (res: Result<ParsedId, String>)
    ensures
        res matches Ok(p) ==> (exists|raw: Seq<char>| raw.len() > 0
            && #[trigger] normalize_id_spec(raw, layer) == Ok::<Seq<char>, Seq<char>>(p.normalized@))
            && parsed_id_fits(p, layer, p.normalized@),
{
    ensure_prompt_terminal(
        prompt_io.is_terminal(),
        "`syu add` needs a definition ID when stdin/stdout are not terminals; pass the ID explicitly or rerun in a terminal to be prompted",
    )?;
    let mut attempts: u64 = 0;
    loop
        decreases u64::MAX - attempts,
    {
        if attempts == u64::MAX {
            return Err(attempts_exhausted_message("Definition ID"));
        }
        attempts = attempts + 1;
        let raw = prompt_required(prompt_io, "Definition ID")?;
        match ParsedId::parse(layer, raw.as_str()) {
            Ok(parsed) => {
                assert(normalize_id_spec(raw@, layer) == Ok::<Seq<char>, Seq<char>>(parsed.normalized@));
                return Ok(parsed);
            },
            Err(e) => {
                prompt_io.report(e.as_str());
            },
        }
    }
}

/// The feature kind of a new feature: `--kind`, the id's folder when not
/// interactive, or else the answer to a question whose default is the id's
/// folder; an invalid answer is reported and the question asked again.
pub fn resolve_feature_kind<P: AddPromptIo>(args: &AddArgs, parsed_id: &ParsedId, prompt_io: &mut P) -> (res: Result<String, String>)
    ensures
        (args.kind is Some || !args.interactive) ==> match res {
            Ok(v) => normalize_kind_spec(
                if args.kind is Some { args.kind->Some_0@ } else { parsed_id.folder_slug@ },
            ) == Ok::<Seq<char>, Seq<char>>(v@),
            Err(e) => normalize_kind_spec(
                if args.kind is Some { args.kind->Some_0@ } else { parsed_id.folder_slug@ },
            ) == Err::<Seq<char>, Seq<char>>(e@),
        },
        res matches Ok(v) ==> exists|raw: Seq<char>| #[trigger] normalize_kind_spec(raw) == Ok::<Seq<char>, Seq<char>>(v@),
{
    match feature_kind_without_prompt(args, parsed_id) {
        Some(r) => {
            return r;
        },
        None => {},
    }
    ensure_prompt_terminal(prompt_io.is_terminal(), "`syu add --interactive` requires a terminal to prompt for a feature kind")?;
    let mut attempts: u64 = 0;
    loop
        invariant
            args.kind is None && args.interactive,
        decreases u64::MAX - attempts,
    {
        if attempts == u64::MAX {
            return Err(attempts_exhausted_message("Feature kind"));
        }
        attempts = attempts + 1;
        let raw = prompt_io.prompt_line("Feature kind", Some(parsed_id.folder_slug.as_str()))?;
        let answer = crate::prompt::answer_with_default(raw, parsed_id.folder_slug.as_str());
        match normalize_feature_kind(answer.as_str()) {
            Ok(kind) => {
                assert(normalize_kind_spec(answer@) == Ok::<Seq<char>, Seq<char>>(kind@));
                return Ok(kind);
            },
            Err(e) => {
                prompt_io.report(e.as_str());
            },
        }
    }
}

/// The folder that a valid id of a layer gives.
pub open spec fn parsed_folder(raw: Seq<char>, layer: LookupKind) -> Seq<char> {
    folder_slug_spec(layer, id_middle(normalize_id_spec(raw, layer)->Ok_0))
}

/// What `syu add` settles before it reads the workspace.
pub struct ResolvedAddInvocation {
    pub workspace: String,
    pub parsed_id: ParsedId,
    pub feature_kind: Option<String>,
    pub file: Option<String>,
}

/// Settles the workspace, the id, the feature kind and the explicit file of
/// `syu add`, asking for what is missing; `id_names_existing_path` tells
/// whether the id argument names an existing path.
pub fn resolve_add_invocation_with_prompt_io<P: AddPromptIo>(
    args: &AddArgs,
    id_names_existing_path: bool,
    prompt_io: &mut P,
) -> (res: Result<ResolvedAddInvocation, String>)
    ensures
        ({
            let swap = args.interactive && args.workspace@ == "."@ && args.id is Some
                && normalize_id_spec(args.id->Some_0@, args.layer) is Err && id_names_existing_path;
            &&& res matches Ok(r) ==> r.workspace@ == (if swap { args.id->Some_0@ } else { args.workspace@ })
            &&& (!swap && args.id is Some) ==> match normalize_id_spec(args.id->Some_0@, args.layer) {
                Err(e) => res is Err && res->Err_0@ == e,
                Ok(n) => res matches Ok(r) ==> r.parsed_id.normalized@ == n,
            }
            &&& res matches Ok(r) ==> parsed_id_fits(r.parsed_id, args.layer, r.parsed_id.normalized@)
            &&& res matches Ok(r) ==> (r.feature_kind is Some <==> args.layer == LookupKind::Feature)
            &&& res matches Ok(r) ==> (args.file is Some ==> r.file is Some && r.file->Some_0@ == args.file->Some_0@)
            &&& res matches Ok(r) ==> (args.file is None && !args.interactive ==> r.file is None)
            &&& (!swap && args.id is Some && normalize_id_spec(args.id->Some_0@, args.layer) is Ok
                && (args.file is Some || !args.interactive)) ==> {
                if args.layer != LookupKind::Feature {
                    res is Ok
                } else if args.kind is Some || !args.interactive {
                    let source = if args.kind is Some { args.kind->Some_0@ } else { parsed_folder(args.id->Some_0@, args.layer) };
                    match normalize_kind_spec(source) {
                        Ok(k) => res is Ok && res->Ok_0.feature_kind is Some && res->Ok_0.feature_kind->Some_0@ == k,
                        Err(e) => res is Err && res->Err_0@ == e,
                    }
                } else {
                    true
                }
            }
        }),
{
    let (raw_id, workspace) = resolve_workspace_and_id(args, id_names_existing_path);
    let parsed_id = match raw_id {
        Some(id) => ParsedId::parse(args.layer, id.as_str())?,
        None => prompt_for_parsed_id(args.layer, prompt_io)?,
    };
    let feature_kind = if args.layer == LookupKind::Feature {
        Some(resolve_feature_kind(args, &parsed_id, prompt_io)?)
    } else {
        None
    };
    let file = match &feature_kind {
        Some(k) => resolve_interactive_file_prompt(args, &parsed_id, Some(k.as_str()), prompt_io)?,
        None => resolve_interactive_file_prompt(args, &parsed_id, None, prompt_io)?,
    };
    Ok(ResolvedAddInvocation { workspace, parsed_id, feature_kind, file })
}


// ---------------------------------------------------------------------------
// Where the stub may go
// ---------------------------------------------------------------------------

/// What `--file` resolves to below the workspace: taken relative to the
/// workspace root when that lands inside the spec root, else relative to the
/// spec root; absolute paths and paths that climb out are refused.
pub open spec fn explicit_file_spec(root: Seq<char>, spec_root: Seq<char>, raw: Seq<char>) -> Result<Seq<char>, Seq<char>> {
    if is_absolute(raw) {
        Err("`--file` must stay inside `"@ + spec_root + "` as a relative path"@)
    } else {
        let n = normalize_relative_spec(raw);
        if n.len() == 0 || normalized_parts(raw).contains(".."@) {
            Err("`--file` must stay within the workspace or configured spec root: `"@ + raw + "`"@)
        } else if starts_with_path(join_path_spec(root, n), spec_root) {
            Ok(join_path_spec(root, n))
        } else {
            Ok(join_path_spec(spec_root, n))
        }
    }
}

pub fn resolve_explicit_file(root: &str, spec_root: &str, raw: &str) -> (res: Result<String, String>)
    ensures
        match res {
            Ok(p) => explicit_file_spec(root@, spec_root@, raw@) == Ok::<Seq<char>, Seq<char>>(p@),
            Err(e) => explicit_file_spec(root@, spec_root@, raw@) == Err::<Seq<char>, Seq<char>>(e@),
        },
{
    if path_is_absolute(raw) {
        return Err(cat3("`--file` must stay inside `", spec_root, "` as a relative path"));
    }
    let normalized = normalize_relative_path(raw);
    let parts = normalize_parts(raw);
    if normalized.unicode_len() == 0 || contains_part(&parts, "..") {
        return Err(cat3("`--file` must stay within the workspace or configured spec root: `", raw, "`"));
    }
    let workspace_relative = join_path(root, normalized.as_str());
    if path_starts_with(workspace_relative.as_str(), spec_root) {
        return Ok(workspace_relative);
    }
    Ok(join_path(spec_root, normalized.as_str()))
}

/// The directory below the spec root that holds a layer's documents.
pub open spec fn layer_dir(kind: LookupKind) -> Seq<char> {
    match kind {
        LookupKind::Philosophy => "philosophy"@,
        LookupKind::Policy => "policies"@,
        LookupKind::Requirement => "requirements"@,
        LookupKind::Feature => "features"@,
    }
}

fn layer_dir_name(layer: LookupKind) -> (res: &'static str)
    ensures
        res@ == layer_dir(layer),
{
    match layer {
        LookupKind::Philosophy => "philosophy",
        LookupKind::Policy => "policies",
        LookupKind::Requirement => "requirements",
        LookupKind::Feature => "features",
    }
}

/// A path whose extension is `yaml` or `yml`.
pub open spec fn is_yaml_path(path: Seq<char>) -> bool {
    extension_spec(path) == Some("yaml"@) || extension_spec(path) == Some("yml"@)
}

/// Where a new definition's document may go: inside the spec root, a YAML
/// file, under its layer's directory, and for features not the registry.
pub open spec fn target_check_spec(spec_root: Seq<char>, kind: LookupKind, path: Seq<char>) -> Result<(), Seq<char>> {
    let layer_root = join_path_spec(spec_root, layer_dir(kind));
    if !starts_with_path(path, spec_root) {
        Err("target path `"@ + path + "` must stay within `"@ + spec_root + "`"@)
    } else if !is_yaml_path(path) {
        Err("target path must point to a YAML document: `"@ + path + "`"@)
    } else if !starts_with_path(path, layer_root) {
        Err(lookup_kind_label_spec(kind) + " stubs must stay under `"@ + layer_root + "`"@)
    } else if kind == LookupKind::Feature && same_path(path, join_path_spec(spec_root, "features/features.yaml"@)) {
        Err("feature stubs must use a feature document path, not `features/features.yaml`"@)
    } else {
        Ok(())
    }
}

pub fn ensure_target_within_spec_root(spec_root: &str, layer: LookupKind, path: &str) -> (res: Result<(), String>)
    ensures
        match res {
            Ok(_) => target_check_spec(spec_root@, layer, path@) == Ok::<(), Seq<char>>(()),
            Err(e) => target_check_spec(spec_root@, layer, path@) == Err::<(), Seq<char>>(e@),
        },
{
    if !path_starts_with(path, spec_root) {
        let head = cat3("target path `", path, "` must stay within `");
        return Err(cat3(head.as_str(), spec_root, "`"));
    }
    let yaml = match path_extension(path) {
        Some(ext) => str_eq(ext.as_str(), "yaml") || str_eq(ext.as_str(), "yml"),
        None => false,
    };
    if !yaml {
        return Err(cat3("target path must point to a YAML document: `", path, "`"));
    }
    let layer_root = join_path(spec_root, layer_dir_name(layer));
    if !path_starts_with(path, layer_root.as_str()) {
        let head = cat3(layer.label(), " stubs must stay under `", layer_root.as_str());
        return Err(crate::text::cat(head.as_str(), "`"));
    }
    if layer == LookupKind::Feature {
        let registry = join_path(spec_root, "features/features.yaml");
        if paths_equal(path, registry.as_str()) {
            return Err(String::from_str("feature stubs must use a feature document path, not `features/features.yaml`"));
        }
    }
    Ok(())
}

/// The document a new definition goes into: `--file` when given, else the
/// layer's default document, checked against the spec root.
pub open spec fn target_path_spec(
    root: Seq<char>,
    spec_root: Seq<char>,
    kind: LookupKind,
    explicit_file: Option<Seq<char>>,
    p: ParsedId,
    feature_kind: Option<Seq<char>>,
) -> Result<Seq<char>, Seq<char>> {
    let absolute = match explicit_file {
        Some(f) => explicit_file_spec(root, spec_root, f),
        None => Ok(join_path_spec(spec_root, default_path_spec(kind, p, feature_kind))),
    };
    match absolute {
        Err(e) => Err(e),
        Ok(a) => match target_check_spec(spec_root, kind, a) {
            Ok(_) => Ok(a),
            Err(e) => Err(e),
        },
    }
}

pub fn resolve_target_path(
    root: &str,
    spec_root: &str,
    layer: LookupKind,
    explicit_file: Option<&str>,
    parsed_id: &ParsedId,
    feature_kind: Option<&str>,
) -> (res: Result<String, String>)
    requires
        layer == LookupKind::Feature ==> feature_kind is Some,
    ensures
        match res {
            Ok(p) => target_path_spec(root@, spec_root@, layer, opt_str_view(explicit_file), *parsed_id, opt_str_view(feature_kind))
                == Ok::<Seq<char>, Seq<char>>(p@),
            Err(e) => target_path_spec(root@, spec_root@, layer, opt_str_view(explicit_file), *parsed_id, opt_str_view(feature_kind))
                == Err::<Seq<char>, Seq<char>>(e@),
        },
{
    let absolute = match explicit_file {
        Some(file) => resolve_explicit_file(root, spec_root, file)?,
        None => {
            let relative = default_document_path(layer, parsed_id, feature_kind);
            join_path(spec_root, relative.as_str())
        },
    };
    ensure_target_within_spec_root(spec_root, layer, absolute.as_str())?;
    Ok(absolute)
}


/// A new requirement may only go into a requirement document whose `prefix`,
/// trimmed, is the new id's typed prefix.
pub open spec fn prefix_check_spec(path: Seq<char>, document_prefix: Seq<char>, typed_prefix: Seq<char>) -> Result<(), Seq<char>> {
    if trim_seq(document_prefix) == typed_prefix {
        Ok(())
    } else {
        Err("requirement document `"@ + path + "` uses prefix `"@ + document_prefix + "`, which does not match `"@ + typed_prefix + "`"@)
    }
}

pub fn check_requirement_prefix(path: &str, document_prefix: &str, typed_prefix: &str) -> (res: Result<(), String>)
    ensures
        match res {
            Ok(_) => prefix_check_spec(path@, document_prefix@, typed_prefix@) == Ok::<(), Seq<char>>(()),
            Err(e) => prefix_check_spec(path@, document_prefix@, typed_prefix@) == Err::<(), Seq<char>>(e@),
        },
{
    let trimmed = trim(document_prefix);
    if str_eq(trimmed.as_str(), typed_prefix) {
        return Ok(());
    }
    let mut out = cat3("requirement document `", path, "` uses prefix `");
    out.append(document_prefix);
    out.append("`, which does not match `");
    out.append(typed_prefix);
    out.append("`");
    Err(out)
}

/// A path shown relative to the workspace root when it lies below it.
pub open spec fn display_path_spec(root: Seq<char>, path: Seq<char>) -> Seq<char> {
    match crate::paths::strip_root_spec(path, root) {
        Some(rest) => rest,
        None => path,
    }
}

pub fn display_workspace_path(workspace_root: &str, path: &str) -> (res: String)
    ensures
        res@ == display_path_spec(workspace_root@, path@),
{
    match crate::paths::strip_root(path, workspace_root) {
        Some(rest) => rest,
        None => String::from_str(path),
    }
}


/// Every document `syu add` accepts as a target lies inside the spec root,
/// under the directory of its layer, and is a YAML file.
pub proof fn lemma_target_stays_in_layer(
    root: Seq<char>,
    spec_root: Seq<char>,
    kind: LookupKind,
    explicit_file: Option<Seq<char>>,
    p: ParsedId,
    feature_kind: Option<Seq<char>>,
    target: Seq<char>,
)
    requires
        target_path_spec(root, spec_root, kind, explicit_file, p, feature_kind) == Ok::<Seq<char>, Seq<char>>(target),
    ensures
        starts_with_path(target, spec_root),
        starts_with_path(target, join_path_spec(spec_root, layer_dir(kind))),
        is_yaml_path(target),
        kind == LookupKind::Feature ==> !same_path(target, join_path_spec(spec_root, "features/features.yaml"@)),
{
}

} // verus!
