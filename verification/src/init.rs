//! `syu init`: the starter workspace.
use vstd::prelude::*;

use crate::cli::{InitArgs, OutputFormat, StarterTemplate, starter_template_label_spec};
use crate::prompt::{PromptIo, attempts_exhausted_message, prompt_optional_with_default, prompt_with_default};
use crate::add::{id_chars, segments_nonempty, path_label, path_label_spec};
use crate::shell::{shell_quote_path, shell_quote_spec};
use crate::paths::{contains_part, is_absolute, named_parts, normalize_parts, normalized_parts, path_is_absolute, path_parts};
use crate::text::{
    is_prefix, is_ws, join, join_seq, lower_seq, split_char, split_seq, str_eq, starts_with, to_lower, to_upper, trim,
    trim_seq, upper_seq, views, push_char, is_alnum, lower_char, ascii_lower, is_whitespace,
};

verus! {

// ---------------------------------------------------------------------------
// Id prefixes
// ---------------------------------------------------------------------------

/// The id prefix of each layer in a new workspace.
#[derive(Debug, Clone, PartialEq, Eq)]
pub struct StarterIdPrefixes {
    pub philosophy: String,
    pub policy: String,
    pub requirement: String,
    pub feature: String,
}

/// The ids that the starter documents use.
pub struct StarterIds {
    pub ph: Seq<char>,
    pub po: Seq<char>,
    pub rq: Seq<char>,
    pub rq2: Seq<char>,
    pub fe: Seq<char>,
    pub fe2: Seq<char>,
    pub rp: Seq<char>,
}

pub open spec fn starter_ids(p: StarterIdPrefixes) -> StarterIds {
    StarterIds {
        ph: p.philosophy@ + "-001"@,
        po: p.policy@ + "-001"@,
        rq: p.requirement@ + "-001"@,
        rq2: p.requirement@ + "-002"@,
        fe: p.feature@ + "-001"@,
        fe2: p.feature@ + "-002"@,
        rp: p.requirement@,
    }
}

fn suffixed(prefix: &String, suffix: &str) -> (res: String)
    ensures
        res@ == prefix@ + suffix@,
{
    let mut out = prefix.clone();
    out.append(suffix);
    out
}

fn starter_id_strings(p: &StarterIdPrefixes) -> (res: (String, String, String, String, String, String, String))
    ensures
        res.0@ == starter_ids(*p).ph,
        res.1@ == starter_ids(*p).po,
        res.2@ == starter_ids(*p).rq,
        res.3@ == starter_ids(*p).rq2,
        res.4@ == starter_ids(*p).fe,
        res.5@ == starter_ids(*p).fe2,
        res.6@ == starter_ids(*p).rp,
{
    (
        suffixed(&p.philosophy, "-001"),
        suffixed(&p.policy, "-001"),
        suffixed(&p.requirement, "-001"),
        suffixed(&p.requirement, "-002"),
        suffixed(&p.feature, "-001"),
        suffixed(&p.feature, "-002"),
        p.requirement.clone(),
    )
}

impl StarterIdPrefixes {
    /// The first philosophy id.
    pub fn philosophy_id(&self) -> (res: String)
        ensures
            res@ == self.philosophy@ + "-001"@,
    {
        suffixed(&self.philosophy, "-001")
    }

    /// The first policy id.
    pub fn policy_id(&self) -> (res: String)
        ensures
            res@ == self.policy@ + "-001"@,
    {
        suffixed(&self.policy, "-001")
    }

    /// The first requirement id.
    pub fn requirement_id(&self) -> (res: String)
        ensures
            res@ == self.requirement@ + "-001"@,
    {
        suffixed(&self.requirement, "-001")
    }

    /// The first feature id.
    pub fn feature_id(&self) -> (res: String)
        ensures
            res@ == self.feature@ + "-001"@,
    {
        suffixed(&self.feature, "-001")
    }
}

/// The stem that a template puts after each layer's prefix.
pub open spec fn template_stem(t: StarterTemplate) -> Seq<char> {
    match t {
        StarterTemplate::DocsFirst => "-DOCS"@,
        StarterTemplate::RustOnly => "-RUST"@,
        StarterTemplate::PythonOnly => "-PY"@,
        StarterTemplate::RubyOnly => "-RUBY"@,
        StarterTemplate::GoOnly => "-GO"@,
        StarterTemplate::JavaOnly => "-JAVA"@,
        StarterTemplate::TypeScriptOnly => "-TS"@,
        StarterTemplate::Polyglot => "-MIX"@,
        StarterTemplate::Generic => ""@,
    }
}

fn template_stem_str(t: StarterTemplate) -> (res: &'static str)
    ensures
        res@ == template_stem(t),
{
    match t {
        StarterTemplate::DocsFirst => "-DOCS",
        StarterTemplate::RustOnly => "-RUST",
        StarterTemplate::PythonOnly => "-PY",
        StarterTemplate::RubyOnly => "-RUBY",
        StarterTemplate::GoOnly => "-GO",
        StarterTemplate::JavaOnly => "-JAVA",
        StarterTemplate::TypeScriptOnly => "-TS",
        StarterTemplate::Polyglot => "-MIX",
        StarterTemplate::Generic => "",
    }
}

/// `PHIL`, `POL`, `REQ` and `FEAT`, each followed by the template's stem.
pub open spec fn default_prefixes_fit(p: StarterIdPrefixes, t: StarterTemplate) -> bool {
    &&& p.philosophy@ == "PHIL"@ + template_stem(t)
    &&& p.policy@ == "POL"@ + template_stem(t)
    &&& p.requirement@ == "REQ"@ + template_stem(t)
    &&& p.feature@ == "FEAT"@ + template_stem(t)
}

/// The id prefixes of a template.
pub fn default_id_prefixes(template: StarterTemplate) -> (res: StarterIdPrefixes)
    ensures
        default_prefixes_fit(res, template),
{
    proof { reveal_strlit(""); }
    let stem = template_stem_str(template);
    let mut philosophy = String::from_str("PHIL");
    philosophy.append(stem);
    let mut policy = String::from_str("POL");
    policy.append(stem);
    let mut requirement = String::from_str("REQ");
    requirement.append(stem);
    let mut feature = String::from_str("FEAT");
    feature.append(stem);
    StarterIdPrefixes { philosophy, policy, requirement, feature }
}

pub open spec fn token_error(flag: Seq<char>, trimmed: Seq<char>) -> Seq<char> {
    flag + " must contain only ASCII letters, numbers, and single hyphens: `"@ + trimmed + "`"@
}

/// An id token: trimmed and upper-cased, made of ASCII letters, digits and
/// single hyphens.
pub open spec fn id_token_spec(raw: Seq<char>, flag: Seq<char>) -> Result<Seq<char>, Seq<char>> {
    let n = upper_seq(trim_seq(raw));
    if n.len() == 0 || !segments_nonempty(split_seq(n, '-')) || !id_chars(n) {
        Err(token_error(flag, trim_seq(raw)))
    } else {
        Ok(n)
    }
}

pub fn normalize_id_token(raw: &str, flag: &str) -> (res: Result<String, String>)
    ensures
        match res {
            Ok(v) => id_token_spec(raw@, flag@) == Ok::<Seq<char>, Seq<char>>(v@),
            Err(e) => id_token_spec(raw@, flag@) == Err::<Seq<char>, Seq<char>>(e@),
        },
{
    let trimmed = trim(raw);
    let normalized = to_upper(trimmed.as_str());
    let segments = split_char(normalized.as_str(), '-');
    if normalized.as_str().unicode_len() == 0 || !crate::add::all_nonempty(&segments)
        || !crate::add::all_id_chars(normalized.as_str()) {
        let mut e = String::from_str(flag);
        e.append(" must contain only ASCII letters, numbers, and single hyphens: `");
        e.append(trimmed.as_str());
        e.append("`");
        return Err(e);
    }
    Ok(normalized)
}

pub open spec fn is_layer_prefix(n: Seq<char>) -> bool {
    n == "PHIL"@ || n == "POL"@ || n == "REQ"@ || n == "FEAT"@
}

pub open spec fn has_layer_prefix(n: Seq<char>) -> bool {
    is_prefix("PHIL-"@, n) || is_prefix("POL-"@, n) || is_prefix("REQ-"@, n) || is_prefix("FEAT-"@, n)
}

pub open spec fn stem_error(trimmed: Seq<char>) -> Seq<char> {
    "`--id-prefix` expects a shared stem like `STORE`, not a full typed prefix like `"@ + trimmed + "`"@
}

/// A shared stem: an id token that is not itself a layer prefix.
pub open spec fn shared_stem_spec(raw: Seq<char>) -> Result<Seq<char>, Seq<char>> {
    match id_token_spec(raw, "--id-prefix"@) {
        Ok(n) => if is_layer_prefix(n) || has_layer_prefix(n) { Err(stem_error(trim_seq(raw))) } else { Ok(n) },
        Err(e) => Err(e),
    }
}

pub fn normalize_shared_id_stem(raw: &str) -> (res: Result<String, String>)
    ensures
        match res {
            Ok(v) => shared_stem_spec(raw@) == Ok::<Seq<char>, Seq<char>>(v@),
            Err(e) => shared_stem_spec(raw@) == Err::<Seq<char>, Seq<char>>(e@),
        },
{
    let normalized = normalize_id_token(raw, "--id-prefix")?;
    let n = normalized.as_str();
    if str_eq(n, "PHIL") || str_eq(n, "POL") || str_eq(n, "REQ") || str_eq(n, "FEAT") || starts_with(n, "PHIL-")
        || starts_with(n, "POL-") || starts_with(n, "REQ-") || starts_with(n, "FEAT-") {
        let mut e = String::from_str("`--id-prefix` expects a shared stem like `STORE`, not a full typed prefix like `");
        e.append(trim(raw).as_str());
        e.append("`");
        return Err(e);
    }
    Ok(normalized)
}

pub open spec fn typed_prefix_error(flag: Seq<char>, expected: Seq<char>, trimmed: Seq<char>) -> Seq<char> {
    flag + " must be `"@ + expected + "` or start with `"@ + expected + "-`: `"@ + trimmed + "`"@
}

/// A layer's own prefix: an id token that is the expected prefix or starts
/// with it and a hyphen.
pub open spec fn typed_prefix_spec(raw: Seq<char>, expected: Seq<char>, flag: Seq<char>) -> Result<Seq<char>, Seq<char>> {
    match id_token_spec(raw, flag) {
        Ok(n) => if n == expected || is_prefix(expected + "-"@, n) {
            Ok(n)
        } else {
            Err(typed_prefix_error(flag, expected, trim_seq(raw)))
        },
        Err(e) => Err(e),
    }
}

pub fn normalize_typed_prefix(raw: &str, expected: &str, flag: &str) -> (res: Result<String, String>)
    ensures
        match res {
            Ok(v) => typed_prefix_spec(raw@, expected@, flag@) == Ok::<Seq<char>, Seq<char>>(v@),
            Err(e) => typed_prefix_spec(raw@, expected@, flag@) == Err::<Seq<char>, Seq<char>>(e@),
        },
{
    let normalized = normalize_id_token(raw, flag)?;
    let mut dashed = String::from_str(expected);
    dashed.append("-");
    if str_eq(normalized.as_str(), expected) || starts_with(normalized.as_str(), dashed.as_str()) {
        return Ok(normalized);
    }
    let mut e = String::from_str(flag);
    e.append(" must be `");
    e.append(expected);
    e.append("` or start with `");
    e.append(expected);
    e.append("-`: `");
    e.append(trim(raw).as_str());
    e.append("`");
    Err(e)
}

pub open spec fn opt_view(o: Option<&str>) -> Option<Seq<char>> {
    match o {
        Some(s) => Some(s@),
        None => None,
    }
}

/// The prefixes from a shared stem (or the template's defaults), each
/// replaced by its own flag when given; the first invalid value, in the
/// order stem, philosophy, policy, requirement, feature, is the error.
pub open spec fn prefixes_spec(
    t: StarterTemplate,
    stem: Option<Seq<char>>,
    ph: Option<Seq<char>>,
    po: Option<Seq<char>>,
    rq: Option<Seq<char>>,
    fe: Option<Seq<char>>,
) -> Result<(Seq<char>, Seq<char>, Seq<char>, Seq<char>), Seq<char>> {
    let base: Result<(Seq<char>, Seq<char>, Seq<char>, Seq<char>), Seq<char>> = match stem {
        Some(s) => match shared_stem_spec(s) {
            Ok(n) => Ok(("PHIL-"@ + n, "POL-"@ + n, "REQ-"@ + n, "FEAT-"@ + n)),
            Err(e) => Err(e),
        },
        None => Ok(("PHIL"@ + template_stem(t), "POL"@ + template_stem(t), "REQ"@ + template_stem(t), "FEAT"@ + template_stem(t))),
    };
    match base {
        Err(e) => Err(e),
        Ok(b) => {
            let r1 = match ph { Some(x) => typed_prefix_spec(x, "PHIL"@, "--philosophy-prefix"@), None => Ok(b.0) };
            let r2 = match po { Some(x) => typed_prefix_spec(x, "POL"@, "--policy-prefix"@), None => Ok(b.1) };
            let r3 = match rq { Some(x) => typed_prefix_spec(x, "REQ"@, "--requirement-prefix"@), None => Ok(b.2) };
            let r4 = match fe { Some(x) => typed_prefix_spec(x, "FEAT"@, "--feature-prefix"@), None => Ok(b.3) };
            if r1 is Err { Err(r1->Err_0) }
            else if r2 is Err { Err(r2->Err_0) }
            else if r3 is Err { Err(r3->Err_0) }
            else if r4 is Err { Err(r4->Err_0) }
            else { Ok((r1->Ok_0, r2->Ok_0, r3->Ok_0, r4->Ok_0)) }
        },
    }
}

fn prefixed(prefix: &str, stem: &String) -> (res: String)
    ensures
        res@ == prefix@ + stem@,
{
    let mut out = String::from_str(prefix);
    out.append(stem.as_str());
    out
}

/// The id prefixes of a new workspace.
pub fn resolve_init_id_prefixes(
    template: StarterTemplate,
    id_prefix: Option<&str>,
    philosophy_prefix: Option<&str>,
    policy_prefix: Option<&str>,
    requirement_prefix: Option<&str>,
    feature_prefix: Option<&str>,
) -> (res: Result<StarterIdPrefixes, String>)
    ensures
        ({
            let s = prefixes_spec(template, opt_view(id_prefix), opt_view(philosophy_prefix), opt_view(policy_prefix),
                opt_view(requirement_prefix), opt_view(feature_prefix));
            match res {
                Ok(p) => s is Ok && s->Ok_0 == (p.philosophy@, p.policy@, p.requirement@, p.feature@),
                Err(e) => s is Err && s->Err_0 == e@,
            }
        }),
{
    let mut prefixes = match id_prefix {
        Some(stem) => {
            let stem = normalize_shared_id_stem(stem)?;
            StarterIdPrefixes {
                philosophy: prefixed("PHIL-", &stem),
                policy: prefixed("POL-", &stem),
                requirement: prefixed("REQ-", &stem),
                feature: prefixed("FEAT-", &stem),
            }
        },
        None => default_id_prefixes(template),
    };
    match philosophy_prefix {
        Some(p) => { prefixes.philosophy = normalize_typed_prefix(p, "PHIL", "--philosophy-prefix")?; },
        None => {},
    }
    match policy_prefix {
        Some(p) => { prefixes.policy = normalize_typed_prefix(p, "POL", "--policy-prefix")?; },
        None => {},
    }
    match requirement_prefix {
        Some(p) => { prefixes.requirement = normalize_typed_prefix(p, "REQ", "--requirement-prefix")?; },
        None => {},
    }
    match feature_prefix {
        Some(p) => { prefixes.feature = normalize_typed_prefix(p, "FEAT", "--feature-prefix")?; },
        None => {},
    }
    Ok(prefixes)
}

// ---------------------------------------------------------------------------
// Interactive choices and paths
// ---------------------------------------------------------------------------

/// The starter template that an interactive answer names, by name, alias or number.
pub open spec fn template_answer_spec(raw: Seq<char>) -> Option<StarterTemplate> {
    let t = lower_seq(trim_seq(raw));
    if t == "generic"@ || t == "1"@ {
        Some(StarterTemplate::Generic)
    } else if t == "docs"@ || t == "docs-first"@ || t == "2"@ {
        Some(StarterTemplate::DocsFirst)
    } else if t == "rust"@ || t == "rust-only"@ || t == "3"@ {
        Some(StarterTemplate::RustOnly)
    } else if t == "python"@ || t == "python-only"@ || t == "4"@ {
        Some(StarterTemplate::PythonOnly)
    } else if t == "go"@ || t == "go-only"@ || t == "5"@ {
        Some(StarterTemplate::GoOnly)
    } else if t == "polyglot"@ || t == "mixed"@ || t == "6"@ {
        Some(StarterTemplate::Polyglot)
    } else {
        None
    }
}

pub fn parse_starter_template_prompt(raw: &str) -> (res: Option<StarterTemplate>)
    ensures
        res == template_answer_spec(raw@),
{
    let t = trim(raw);
    let l = to_lower(t.as_str());
    let s = l.as_str();
    if str_eq(s, "generic") || str_eq(s, "1") {
        Some(StarterTemplate::Generic)
    } else if str_eq(s, "docs") || str_eq(s, "docs-first") || str_eq(s, "2") {
        Some(StarterTemplate::DocsFirst)
    } else if str_eq(s, "rust") || str_eq(s, "rust-only") || str_eq(s, "3") {
        Some(StarterTemplate::RustOnly)
    } else if str_eq(s, "python") || str_eq(s, "python-only") || str_eq(s, "4") {
        Some(StarterTemplate::PythonOnly)
    } else if str_eq(s, "go") || str_eq(s, "go-only") || str_eq(s, "5") {
        Some(StarterTemplate::GoOnly)
    } else if str_eq(s, "polyglot") || str_eq(s, "mixed") || str_eq(s, "6") {
        Some(StarterTemplate::Polyglot)
    } else {
        None
    }
}

pub open spec fn interactive_terminal_message() -> Seq<char> {
    "`syu init --interactive` requires a terminal to prompt for starter settings"@
}

pub open spec fn interactive_json_message() -> Seq<char> {
    "`syu init --interactive` does not support `--format json`; use text output instead"@
}

/// Interactive mode needs a terminal and text output.
pub fn validate_interactive_init_mode(interactive: bool, is_terminal: bool, format: OutputFormat) -> (res: Result<(), String>)
    ensures
        !interactive ==> res is Ok,
        interactive && !is_terminal ==> res is Err && res->Err_0@ == interactive_terminal_message(),
        interactive && is_terminal && format == OutputFormat::Json ==> res is Err && res->Err_0@ == interactive_json_message(),
        interactive && is_terminal && format == OutputFormat::Text ==> res is Ok,
{
    if !interactive {
        return Ok(());
    }
    crate::prompt::ensure_prompt_terminal(is_terminal, "`syu init --interactive` requires a terminal to prompt for starter settings")?;
    if format == OutputFormat::Json {
        return Err(String::from_str("`syu init --interactive` does not support `--format json`; use text output instead"));
    }
    Ok(())
}

pub open spec fn spec_root_error(raw: Seq<char>) -> Seq<char> {
    "`--spec-root` must stay within the workspace root as a relative path: `"@ + raw + "`"@
}

/// The spec root of a new workspace: relative, inside the workspace once
/// normalised, written with single forward slashes; `docs/syu` by default.
pub open spec fn spec_root_spec(raw: Option<Seq<char>>) -> Result<Seq<char>, Seq<char>> {
    let r = match raw { Some(x) => x, None => "docs/syu"@ };
    let parts = normalized_parts(r);
    if parts.len() == 0 || is_absolute(r) || parts.contains(".."@) {
        Err(spec_root_error(r))
    } else {
        Ok(path_label_spec(join_seq(parts, "/"@)))
    }
}

/// Checks and normalises `--spec-root`.
pub fn resolve_init_spec_root(spec_root: Option<&str>) -> (res: Result<String, String>)
    ensures
        match res {
            Ok(v) => spec_root_spec(opt_view(spec_root)) == Ok::<Seq<char>, Seq<char>>(v@),
            Err(e) => spec_root_spec(opt_view(spec_root)) == Err::<Seq<char>, Seq<char>>(e@),
        },
{
    let raw = match spec_root {
        Some(r) => r,
        None => "docs/syu",
    };
    let parts = normalize_parts(raw);
    if parts.len() == 0 || path_is_absolute(raw) || contains_part(&parts, "..") {
        let mut e = String::from_str("`--spec-root` must stay within the workspace root as a relative path: `");
        e.append(raw);
        e.append("`");
        return Err(e);
    }
    let joined = join(&parts, "/");
    Ok(path_label(joined.as_str()))
}

/// Asks for the starter template, with the given one as default, until the
/// answer names a template; any other answer is reported and the question
/// asked again.
pub fn prompt_for_starter_template<P: PromptIo>(prompt_io: &mut P, default: StarterTemplate) -> (res: Result<StarterTemplate, String>)
    ensures
        res matches Ok(t) ==> exists|raw: Seq<char>| template_answer_spec(raw) == Some(t),
{
    let label = "Starter template (generic|docs-first|rust-only|python-only|go-only|polyglot)";
    let mut attempts: u64 = 0;
    loop
        decreases u64::MAX - attempts,
    {
        if attempts == u64::MAX {
            return Err(attempts_exhausted_message(label));
        }
        attempts = attempts + 1;
        let raw = prompt_with_default(prompt_io, label, default.label())?;
        match parse_starter_template_prompt(raw.as_str()) {
            Some(template) => {
                assert(template_answer_spec(raw@) == Some(template));
                return Ok(template);
            },
            None => {
                prompt_io.report("Starter template must be one of: generic, docs-first, rust-only, python-only, go-only, polyglot.");
            },
        }
    }
}

/// Asks for the spec root, with the current one (or `docs/syu`) as default,
/// until the answer stays inside the workspace; any other answer is reported
/// and the question asked again.
pub fn prompt_for_spec_root<P: PromptIo>(prompt_io: &mut P, current: Option<&str>) -> (res: Result<String, String>)
    ensures
        res matches Ok(v) ==> exists|raw: Seq<char>| #[trigger] spec_root_spec(Some(raw)) == Ok::<Seq<char>, Seq<char>>(v@),
{
    let default = match current {
        Some(c) => c,
        None => "docs/syu",
    };
    let mut attempts: u64 = 0;
    loop
        decreases u64::MAX - attempts,
    {
        if attempts == u64::MAX {
            return Err(attempts_exhausted_message("Spec root"));
        }
        attempts = attempts + 1;
        let raw = prompt_with_default(prompt_io, "Spec root", default)?;
        match resolve_init_spec_root(Some(raw.as_str())) {
            Ok(root) => {
                assert(spec_root_spec(Some(raw@)) == Ok::<Seq<char>, Seq<char>>(root@));
                return Ok(root);
            },
            Err(e) => {
                prompt_io.report(e.as_str());
            },
        }
    }
}

pub open spec fn has_typed_override(args: InitArgs) -> bool {
    args.philosophy_prefix is Some || args.policy_prefix is Some || args.requirement_prefix is Some || args.feature_prefix is Some
}

pub open spec fn opt_string_view(o: Option<String>) -> Option<Seq<char>> {
    match o {
        Some(s) => Some(s@),
        None => None,
    }
}

/// The id prefixes of an interactive run: the flags when a layer's prefix
/// is given, else the answer to a question for the shared stem (a blank
/// answer keeps `--id-prefix`); an invalid stem is reported and the question
/// asked again.
pub fn resolve_interactive_id_prefixes<P: PromptIo>(args: &InitArgs, template: StarterTemplate, prompt_io: &mut P) -> (res: Result<StarterIdPrefixes, String>)
    ensures
        has_typed_override(*args) ==> ({
            let s = prefixes_spec(template, opt_string_view(args.id_prefix), opt_string_view(args.philosophy_prefix),
                opt_string_view(args.policy_prefix), opt_string_view(args.requirement_prefix), opt_string_view(args.feature_prefix));
            match res {
                Ok(p) => s is Ok && s->Ok_0 == (p.philosophy@, p.policy@, p.requirement@, p.feature@),
                Err(e) => s is Err && s->Err_0 == e@,
            }
        }),
        (!has_typed_override(*args) && res is Ok) ==> exists|stem: Option<Seq<char>>|
            #[trigger] prefixes_spec(template, stem, None, None, None, None)
                == Ok::<(Seq<char>, Seq<char>, Seq<char>, Seq<char>), Seq<char>>(
                    (res->Ok_0.philosophy@, res->Ok_0.policy@, res->Ok_0.requirement@, res->Ok_0.feature@)),
{
    if args.philosophy_prefix.is_some() || args.policy_prefix.is_some() || args.requirement_prefix.is_some() || args.feature_prefix.is_some() {
        let r = resolve_init_id_prefixes(
            template,
            opt_str(&args.id_prefix),
            opt_str(&args.philosophy_prefix),
            opt_str(&args.policy_prefix),
            opt_str(&args.requirement_prefix),
            opt_str(&args.feature_prefix),
        );
        return r;
    }
    let mut attempts: u64 = 0;
    loop
        invariant
            !has_typed_override(*args),
        decreases u64::MAX - attempts,
    {
        if attempts == u64::MAX {
            return Err(attempts_exhausted_message("Shared ID stem (optional)"));
        }
        attempts = attempts + 1;
        let stem = prompt_optional_with_default(prompt_io, "Shared ID stem (optional)", opt_str(&args.id_prefix))?;
        let r = match &stem {
            Some(st) => resolve_init_id_prefixes(template, Some(st.as_str()), None, None, None, None),
            None => resolve_init_id_prefixes(template, None, None, None, None, None),
        };
        match r {
            Ok(prefixes) => {
                return Ok(prefixes);
            },
            Err(e) => {
                prompt_io.report(e.as_str());
            },
        }
    }
}

fn opt_str(o: &Option<String>) -> (res: Option<&str>)
    ensures
        opt_view(res) == opt_string_view(*o),
{
    match o {
        Some(s) => Some(s.as_str()),
        None => None,
    }
}

/// The project name from the workspace directory, or `project`.
pub open spec fn project_name_spec(workspace: Seq<char>) -> Seq<char> {
    let parts = path_parts(workspace);
    if parts.len() == 0 || parts.last() == ".."@ || trim_seq(parts.last()).len() == 0 {
        "project"@
    } else {
        parts.last()
    }
}

pub fn infer_project_name(workspace: &str) -> (res: String)
    ensures
        res@ == project_name_spec(workspace@),
{
    let parts = named_parts(workspace);
    if parts.len() == 0 {
        return String::from_str("project");
    }
    let last = parts[parts.len() - 1].as_str();
    assert(views(parts@).last() == last@);
    if str_eq(last, "..") || crate::text::blank(last) {
        return String::from_str("project");
    }
    String::from_str(last)
}

// ---------------------------------------------------------------------------
// Go module paths
// ---------------------------------------------------------------------------

/// The module segment built from a project name, one character at a time:
/// ASCII letters and digits in lower case; `-`, `_` and `.` once something
/// is there; one `-` for a run of whitespace, `/` and `\`.
pub open spec fn go_segment_state(name: Seq<char>) -> (Seq<char>, bool)
    decreases name.len(),
{
    if name.len() == 0 {
        (Seq::empty(), false)
    } else {
        let (seg, last_dash) = go_segment_state(name.drop_last());
        let ch = name.last();
        if is_alnum(ch) {
            (seg.push(lower_char(ch)), false)
        } else if ch == '-' || ch == '_' || ch == '.' {
            if seg.len() > 0 { (seg.push(ch), ch == '-') } else { (seg, last_dash) }
        } else if (is_ws(ch) || ch == '/' || ch == '\\') && seg.len() > 0 && !last_dash {
            (seg.push('-'), true)
        } else {
            (seg, last_dash)
        }
    }
}

pub open spec fn is_go_trim(c: char) -> bool {
    c == '-' || c == '_' || c == '.'
}

pub open spec fn trim_go_start(s: Seq<char>) -> Seq<char>
    decreases s.len(),
{
    if s.len() > 0 && is_go_trim(s[0]) { trim_go_start(s.drop_first()) } else { s }
}

pub open spec fn trim_go_end(s: Seq<char>) -> Seq<char>
    decreases s.len(),
{
    if s.len() > 0 && is_go_trim(s.last()) { trim_go_end(s.drop_last()) } else { s }
}

pub open spec fn go_module_spec(name: Seq<char>) -> Seq<char> {
    let seg = trim_go_end(trim_go_start(go_segment_state(name).0));
    "example.com/"@ + (if seg.len() == 0 { "project"@ } else { seg })
}

fn trim_go_chars(s: &str) -> (res: String)
    ensures
        res@ == trim_go_end(trim_go_start(s@)),
{
    let n = s.unicode_len();
    let mut i: usize = 0;
    assert(s@.skip(0) =~= s@);
    while i < n && (s.get_char(i) == '-' || s.get_char(i) == '_' || s.get_char(i) == '.')
        invariant
            n == s@.len(),
            i <= n,
            trim_go_start(s@) == trim_go_start(s@.skip(i as int)),
        decreases n - i,
    {
        assert(s@.skip(i as int).drop_first() =~= s@.skip(i + 1));
        i = i + 1;
    }
    let ghost start = s@.skip(i as int);
    assert(trim_go_start(start) == start);
    let mut j: usize = n;
    assert(start.take(start.len() as int) =~= start);
    while j > i && (s.get_char(j - 1) == '-' || s.get_char(j - 1) == '_' || s.get_char(j - 1) == '.')
        invariant
            i <= j <= n,
            n == s@.len(),
            start == s@.skip(i as int),
            trim_go_end(start) == trim_go_end(s@.subrange(i as int, j as int)),
        decreases j,
    {
        assert(s@.subrange(i as int, j as int).drop_last() =~= s@.subrange(i as int, j - 1));
        j = j - 1;
    }
    let t = s.substring_char(i, j);
    String::from_str(t)
}

/// The Go module path of a starter workspace.
pub fn go_module_path(project_name: &str) -> (res: String)
    ensures
        res@ == go_module_spec(project_name@),
{
    let n = project_name.unicode_len();
    let mut segment = String::new();
    let mut last_was_dash = false;
    let mut i: usize = 0;
    assert(project_name@.take(0) =~= Seq::<char>::empty());
    while i < n
        invariant
            n == project_name@.len(),
            i <= n,
            go_segment_state(project_name@.take(i as int)) == (segment@, last_was_dash),
        decreases n - i,
    {
        let ch = project_name.get_char(i);
        assert(project_name@.take(i + 1).drop_last() =~= project_name@.take(i as int));
        assert(project_name@.take(i + 1).last() == ch);
        if ('a' <= ch && ch <= 'z') || ('A' <= ch && ch <= 'Z') || ('0' <= ch && ch <= '9') {
            push_char(&mut segment, ascii_lower(ch));
            last_was_dash = false;
        } else if ch == '-' || ch == '_' || ch == '.' {
            if segment.as_str().unicode_len() > 0 {
                push_char(&mut segment, ch);
                last_was_dash = ch == '-';
            }
        } else if (is_whitespace(ch) || ch == '/' || ch == '\\') && segment.as_str().unicode_len() > 0 && !last_was_dash {
            push_char(&mut segment, '-');
            last_was_dash = true;
        }
        i = i + 1;
    }
    assert(project_name@.take(n as int) =~= project_name@);
    let trimmed = trim_go_chars(segment.as_str());
    let mut out = String::from_str("example.com/");
    if trimmed.as_str().unicode_len() == 0 {
        out.append("project");
    } else {
        out.append(trimmed.as_str());
    }
    out
}

pub open spec fn go_mod_text(name: Seq<char>) -> Seq<char> {
    "module "@ + go_module_spec(name) + "\n\ngo 1.19\n"@
}

/// The `go.mod` of the Go starter.
pub fn render_go_module_file(project_name: &str) -> (res: String)
    ensures
        res@ == go_mod_text(project_name@),
{
    let mut out = String::from_str("module ");
    out.append(go_module_path(project_name).as_str());
    out.append("\n\ngo 1.19\n");
    out
}

// ---------------------------------------------------------------------------
// Starter documents
// ---------------------------------------------------------------------------

pub open spec fn requirement_path_spec(t: StarterTemplate) -> Seq<char> {
    match t {
        StarterTemplate::Generic => "requirements/core/core.yaml"@,
        StarterTemplate::DocsFirst => "requirements/core/docs.yaml"@,
        StarterTemplate::RustOnly => "requirements/core/rust.yaml"@,
        StarterTemplate::PythonOnly => "requirements/core/python.yaml"@,
        StarterTemplate::GoOnly => "requirements/core/go.yaml"@,
        StarterTemplate::RubyOnly => "requirements/core/ruby.yaml"@,
        StarterTemplate::JavaOnly => "requirements/core/java.yaml"@,
        StarterTemplate::TypeScriptOnly => "requirements/core/typescript.yaml"@,
        StarterTemplate::Polyglot => "requirements/core/polyglot.yaml"@,
    }
}

/// The starter requirement document of a template, under the spec root.
pub fn requirement_document_path(template: StarterTemplate) -> (res: &'static str)
    ensures
        res@ == requirement_path_spec(template),
{
    match template {
        StarterTemplate::Generic => "requirements/core/core.yaml",
        StarterTemplate::DocsFirst => "requirements/core/docs.yaml",
        StarterTemplate::RustOnly => "requirements/core/rust.yaml",
        StarterTemplate::PythonOnly => "requirements/core/python.yaml",
        StarterTemplate::GoOnly => "requirements/core/go.yaml",
        StarterTemplate::RubyOnly => "requirements/core/ruby.yaml",
        StarterTemplate::JavaOnly => "requirements/core/java.yaml",
        StarterTemplate::TypeScriptOnly => "requirements/core/typescript.yaml",
        StarterTemplate::Polyglot => "requirements/core/polyglot.yaml",
    }
}

pub open spec fn feature_file_spec(t: StarterTemplate) -> Seq<char> {
    match t {
        StarterTemplate::Generic => "core/core.yaml"@,
        StarterTemplate::DocsFirst => "documentation/docs.yaml"@,
        StarterTemplate::RustOnly => "languages/rust.yaml"@,
        StarterTemplate::PythonOnly => "languages/python.yaml"@,
        StarterTemplate::GoOnly => "languages/go.yaml"@,
        StarterTemplate::RubyOnly => "languages/ruby.yaml"@,
        StarterTemplate::JavaOnly => "languages/java.yaml"@,
        StarterTemplate::TypeScriptOnly => "languages/typescript.yaml"@,
        StarterTemplate::Polyglot => "languages/polyglot.yaml"@,
    }
}

fn feature_file(template: StarterTemplate) -> (res: &'static str)
    ensures
        res@ == feature_file_spec(template),
{
    match template {
        StarterTemplate::Generic => "core/core.yaml",
        StarterTemplate::DocsFirst => "documentation/docs.yaml",
        StarterTemplate::RustOnly => "languages/rust.yaml",
        StarterTemplate::PythonOnly => "languages/python.yaml",
        StarterTemplate::GoOnly => "languages/go.yaml",
        StarterTemplate::RubyOnly => "languages/ruby.yaml",
        StarterTemplate::JavaOnly => "languages/java.yaml",
        StarterTemplate::TypeScriptOnly => "languages/typescript.yaml",
        StarterTemplate::Polyglot => "languages/polyglot.yaml",
    }
}

/// The starter feature document of a template, under the spec root.
pub fn feature_document_path(template: StarterTemplate) -> (res: String)
    ensures
        res@ == "features/"@ + feature_file_spec(template),
{
    let mut out = String::from_str("features/");
    out.append(feature_file(template));
    out
}

pub open spec fn feature_kind_spec(t: StarterTemplate) -> Seq<char> {
    match t {
        StarterTemplate::Generic => "core"@,
        StarterTemplate::DocsFirst => "documentation"@,
        StarterTemplate::RustOnly => "rust"@,
        StarterTemplate::PythonOnly => "python"@,
        StarterTemplate::GoOnly => "go"@,
        StarterTemplate::RubyOnly => "ruby"@,
        StarterTemplate::JavaOnly => "java"@,
        StarterTemplate::TypeScriptOnly => "typescript"@,
        StarterTemplate::Polyglot => "polyglot"@,
    }
}

/// The feature kind of the starter feature document.
pub fn feature_kind(template: StarterTemplate) -> (res: &'static str)
    ensures
        res@ == feature_kind_spec(template),
{
    match template {
        StarterTemplate::Generic => "core",
        StarterTemplate::DocsFirst => "documentation",
        StarterTemplate::RustOnly => "rust",
        StarterTemplate::PythonOnly => "python",
        StarterTemplate::GoOnly => "go",
        StarterTemplate::RubyOnly => "ruby",
        StarterTemplate::JavaOnly => "java",
        StarterTemplate::TypeScriptOnly => "typescript",
        StarterTemplate::Polyglot => "polyglot",
    }
}

pub open spec fn registry_text(t: StarterTemplate, version: Seq<char>) -> Seq<char> {
    "version: \""@ + version + "\"\nupdated: \"generated by syu init\"\n\nfiles:\n  - kind: "@ + feature_kind_spec(t)
        + "\n    file: "@ + feature_file_spec(t) + "\n"@
}

/// The feature registry of a starter workspace, at the given config version.
pub fn feature_registry_template(template: StarterTemplate, version: &str) -> (res: String)
    ensures
        res@ == registry_text(template, version@),
{
    let mut out = String::from_str("version: \"");
    out.append(version);
    out.append("\"\nupdated: \"generated by syu init\"\n\nfiles:\n  - kind: ");
    out.append(feature_kind(template));
    out.append("\n    file: ");
    out.append(feature_file(template));
    out.append("\n");
    out
}

/// The philosophy of a single-language starter: `lang` names the language
/// and `docs` the comments that carry traced ids in it.
pub open spec fn lang_philosophy_text(pn: Seq<char>, ids: StarterIds, lang: Seq<char>, docs: Seq<char>) -> Seq<char> {
    "category: Philosophy\nversion: 1\nlanguage: en\n\nphilosophies:\n  - id: "@ + ids.ph
        + "\n    title: "@ + pn + " should keep "@ + lang
        + " traces explicit\n    product_design_principle: |\n      The project should keep "@ + lang
        + " traceability small, reviewable, and easy\n      to follow from the code that carries it.\n    coding_guideline: |\n      Prefer stable IDs and clear "@
        + docs + " on traced "@ + lang + " symbols from the\n      first requirement onward.\n    linked_policies:\n      - "@
        + ids.po + "\n"@
}

pub open spec fn lang_policy_text(pn: Seq<char>, ids: StarterIds, lang: Seq<char>, docs: Seq<char>) -> Seq<char> {
    "category: Policies\nversion: 1\nlanguage: en\n\npolicies:\n  - id: "@ + ids.po
        + "\n    title: "@ + lang + " requirement and feature traces must stay documented in "@ + pn
        + "\n    summary: Start with a "@ + lang + "-first workflow that stays explicit in "@ + docs
        + ".\n    description: |\n      "@ + lang + " requirement and feature traces should point to symbols whose\n      "@
        + docs + " carry both the stable ID and a short explanation.\n    linked_philosophies:\n      - "@
        + ids.ph + "\n    linked_requirements:\n      - "@ + ids.rq + "\n"@
}

pub open spec fn lang_requirement_text(pn: Seq<char>, ids: StarterIds, lang: Seq<char>, docs: Seq<char>) -> Seq<char> {
    "category: "@ + lang + " Requirements\nprefix: "@ + ids.rp + "\n\nrequirements:\n  - id: "@ + ids.rq
        + "\n    title: Bootstrap "@ + pn + " with "@ + lang
        + "-first trace conventions\n    description: |\n      The project should start with a "@ + lang
        + "-oriented requirement that can later\n      claim documented "@ + lang
        + " test symbols without restructuring the workspace.\n    priority: high\n    status: planned\n    linked_policies:\n      - "@
        + ids.po + "\n    linked_features:\n      - "@ + ids.fe + "\n    tests: {}\n"@
}

pub open spec fn lang_feature_text(pn: Seq<char>, ids: StarterIds, lang: Seq<char>, docs: Seq<char>) -> Seq<char> {
    "category: "@ + lang + " Features\nversion: 1\n\nfeatures:\n  - id: "@ + ids.fe
        + "\n    title: Bootstrap the "@ + pn + " "@ + lang + " spec workspace\n    summary: Provide a "@ + lang
        + "-oriented starter structure that contributors can extend.\n    status: planned\n    linked_requirements:\n      - "@
        + ids.rq + "\n    implementations: {}\n"@
}

fn lang_philosophy_template(project_name: &str, id_prefixes: &StarterIdPrefixes, lang: &str, docs: &str) -> (res: String)
    ensures
        res@ == lang_philosophy_text(project_name@, starter_ids(*id_prefixes), lang@, docs@),
{
    let (ph, po, rq, rq2, fe, fe2, rp) = starter_id_strings(id_prefixes);
    let mut out = String::from_str("category: Philosophy\nversion: 1\nlanguage: en\n\nphilosophies:\n  - id: ");
    out.append(ph.as_str());
    out.append("\n    title: ");
    out.append(project_name);
    out.append(" should keep ");
    out.append(lang);
    out.append(" traces explicit\n    product_design_principle: |\n      The project should keep ");
    out.append(lang);
    out.append(" traceability small, reviewable, and easy\n      to follow from the code that carries it.\n    coding_guideline: |\n      Prefer stable IDs and clear ");
    out.append(docs);
    out.append(" on traced ");
    out.append(lang);
    out.append(" symbols from the\n      first requirement onward.\n    linked_policies:\n      - ");
    out.append(po.as_str());
    out.append("\n");
    out
}

fn lang_policy_template(project_name: &str, id_prefixes: &StarterIdPrefixes, lang: &str, docs: &str) -> (res: String)
    ensures
        res@ == lang_policy_text(project_name@, starter_ids(*id_prefixes), lang@, docs@),
{
    let (ph, po, rq, rq2, fe, fe2, rp) = starter_id_strings(id_prefixes);
    let mut out = String::from_str("category: Policies\nversion: 1\nlanguage: en\n\npolicies:\n  - id: ");
    out.append(po.as_str());
    out.append("\n    title: ");
    out.append(lang);
    out.append(" requirement and feature traces must stay documented in ");
    out.append(project_name);
    out.append("\n    summary: Start with a ");
    out.append(lang);
    out.append("-first workflow that stays explicit in ");
    out.append(docs);
    out.append(".\n    description: |\n      ");
    out.append(lang);
    out.append(" requirement and feature traces should point to symbols whose\n      ");
    out.append(docs);
    out.append(" carry both the stable ID and a short explanation.\n    linked_philosophies:\n      - ");
    out.append(ph.as_str());
    out.append("\n    linked_requirements:\n      - ");
    out.append(rq.as_str());
    out.append("\n");
    out
}

fn lang_requirement_template(project_name: &str, id_prefixes: &StarterIdPrefixes, lang: &str, docs: &str) -> (res: String)
    ensures
        res@ == lang_requirement_text(project_name@, starter_ids(*id_prefixes), lang@, docs@),
{
    let (ph, po, rq, rq2, fe, fe2, rp) = starter_id_strings(id_prefixes);
    let mut out = String::from_str("category: ");
    out.append(lang);
    out.append(" Requirements\nprefix: ");
    out.append(rp.as_str());
    out.append("\n\nrequirements:\n  - id: ");
    out.append(rq.as_str());
    out.append("\n    title: Bootstrap ");
    out.append(project_name);
    out.append(" with ");
    out.append(lang);
    out.append("-first trace conventions\n    description: |\n      The project should start with a ");
    out.append(lang);
    out.append("-oriented requirement that can later\n      claim documented ");
    out.append(lang);
    out.append(" test symbols without restructuring the workspace.\n    priority: high\n    status: planned\n    linked_policies:\n      - ");
    out.append(po.as_str());
    out.append("\n    linked_features:\n      - ");
    out.append(fe.as_str());
    out.append("\n    tests: {}\n");
    out
}

fn lang_feature_template(project_name: &str, id_prefixes: &StarterIdPrefixes, lang: &str, docs: &str) -> (res: String)
    ensures
        res@ == lang_feature_text(project_name@, starter_ids(*id_prefixes), lang@, docs@),
{
    let (ph, po, rq, rq2, fe, fe2, rp) = starter_id_strings(id_prefixes);
    let mut out = String::from_str("category: ");
    out.append(lang);
    out.append(" Features\nversion: 1\n\nfeatures:\n  - id: ");
    out.append(fe.as_str());
    out.append("\n    title: Bootstrap the ");
    out.append(project_name);
    out.append(" ");
    out.append(lang);
    out.append(" spec workspace\n    summary: Provide a ");
    out.append(lang);
    out.append("-oriented starter structure that contributors can extend.\n    status: planned\n    linked_requirements:\n      - ");
    out.append(rq.as_str());
    out.append("\n    implementations: {}\n");
    out
}

pub open spec fn philosophy_text(t: StarterTemplate, pn: Seq<char>, ids: StarterIds) -> Seq<char> {
    match t {
        StarterTemplate::Generic => "category: Philosophy\nversion: 1\nlanguage: en\n\nphilosophies:\n  - id: "@
            + ids.ph
            + "\n    title: "@
            + pn
            + " should turn intent into executable agreements\n    product_design_principle: |\n      The project should keep philosophy, policy, requirements, and features\n      explicit enough that contributors can validate changes mechanically.\n    coding_guideline: |\n      Prefer stable IDs, typed data, and explicit traceability over conventions\n      that live only in contributor memory.\n    linked_policies:\n      - "@
            + ids.po
            + "\n"@,
        StarterTemplate::DocsFirst => "category: Philosophy\nversion: 1\nlanguage: en\n\nphilosophies:\n  - id: "@
            + ids.ph
            + "\n    title: "@
            + pn
            + " should keep documentation-first work traceable from the files people read first\n    product_design_principle: |\n      The project should keep documentation, scripts, and checked-in\n      configuration explicit enough that contributors can validate intent\n      without a large code scaffold first.\n    coding_guideline: |\n      Prefer explicit file or symbol ownership over vague repository-level\n      documentation promises.\n    linked_policies:\n      - "@
            + ids.po
            + "\n"@,
        StarterTemplate::RustOnly => "category: Philosophy\nversion: 1\nlanguage: en\n\nphilosophies:\n  - id: "@
            + ids.ph
            + "\n    title: "@
            + pn
            + " should keep Rust traces explicit\n    product_design_principle: |\n      The project should keep Rust-first traceability small, reviewable, and\n      obvious to contributors reading the code.\n    coding_guideline: |\n      Prefer stable IDs and Rust doc comments on traced symbols from the first\n      requirement onward.\n    linked_policies:\n      - "@
            + ids.po
            + "\n"@,
        StarterTemplate::PythonOnly => "category: Philosophy\nversion: 1\nlanguage: en\n\nphilosophies:\n  - id: "@
            + ids.ph
            + "\n    title: "@
            + pn
            + " should keep Python traces explicit\n    product_design_principle: |\n      The project should keep Python traceability small, reviewable, and easy\n      to understand from docstrings alone.\n    coding_guideline: |\n      Prefer stable IDs and clear docstrings on traced Python symbols from the\n      first requirement onward.\n    linked_policies:\n      - "@
            + ids.po
            + "\n"@,
        StarterTemplate::GoOnly => "category: Philosophy\nversion: 1\nlanguage: en\n\nphilosophies:\n  - id: "@
            + ids.ph
            + "\n    title: "@
            + pn
            + " should keep Go traces explicit from the first commit\n    product_design_principle: |\n      The project should prove that a Go-first repository can adopt `syu`\n      without waiting for a larger multi-language scaffold.\n    coding_guideline: |\n      Prefer stable IDs and small Go starter files whose traced symbols stay\n      obvious in review.\n    linked_policies:\n      - "@
            + ids.po
            + "\n"@,
        StarterTemplate::Polyglot => "category: Philosophy\nversion: 1\nlanguage: en\n\nphilosophies:\n  - id: "@
            + ids.ph
            + "\n    title: "@
            + pn
            + " should keep polyglot traces coherent\n    product_design_principle: |\n      The project should prove that one specification can stay understandable\n      even when implementation and tests span multiple languages.\n    coding_guideline: |\n      Prefer stable IDs and short language-native docs on every traced symbol.\n    linked_policies:\n      - "@
            + ids.po
            + "\n"@,
        StarterTemplate::RubyOnly => lang_philosophy_text(pn, ids, "Ruby"@, "YARD doc comments"@),
        StarterTemplate::JavaOnly => lang_philosophy_text(pn, ids, "Java"@, "Javadoc comments"@),
        StarterTemplate::TypeScriptOnly => lang_philosophy_text(pn, ids, "TypeScript"@, "TSDoc comments"@),
    }
}

fn philosophy_template(project_name: &str, template: StarterTemplate, id_prefixes: &StarterIdPrefixes) -> (res: String)
    ensures
        res@ == philosophy_text(template, project_name@, starter_ids(*id_prefixes)),
{
    let (ph, po, rq, rq2, fe, fe2, rp) = starter_id_strings(id_prefixes);
    match template {
        StarterTemplate::Generic => {
            let mut out = String::from_str("category: Philosophy\nversion: 1\nlanguage: en\n\nphilosophies:\n  - id: ");
            out.append(ph.as_str());
            out.append("\n    title: ");
            out.append(project_name);
            out.append(" should turn intent into executable agreements\n    product_design_principle: |\n      The project should keep philosophy, policy, requirements, and features\n      explicit enough that contributors can validate changes mechanically.\n    coding_guideline: |\n      Prefer stable IDs, typed data, and explicit traceability over conventions\n      that live only in contributor memory.\n    linked_policies:\n      - ");
            out.append(po.as_str());
            out.append("\n");
            out
        },
        StarterTemplate::DocsFirst => {
            let mut out = String::from_str("category: Philosophy\nversion: 1\nlanguage: en\n\nphilosophies:\n  - id: ");
            out.append(ph.as_str());
            out.append("\n    title: ");
            out.append(project_name);
            out.append(" should keep documentation-first work traceable from the files people read first\n    product_design_principle: |\n      The project should keep documentation, scripts, and checked-in\n      configuration explicit enough that contributors can validate intent\n      without a large code scaffold first.\n    coding_guideline: |\n      Prefer explicit file or symbol ownership over vague repository-level\n      documentation promises.\n    linked_policies:\n      - ");
            out.append(po.as_str());
            out.append("\n");
            out
        },
        StarterTemplate::RustOnly => {
            let mut out = String::from_str("category: Philosophy\nversion: 1\nlanguage: en\n\nphilosophies:\n  - id: ");
            out.append(ph.as_str());
            out.append("\n    title: ");
            out.append(project_name);
            out.append(" should keep Rust traces explicit\n    product_design_principle: |\n      The project should keep Rust-first traceability small, reviewable, and\n      obvious to contributors reading the code.\n    coding_guideline: |\n      Prefer stable IDs and Rust doc comments on traced symbols from the first\n      requirement onward.\n    linked_policies:\n      - ");
            out.append(po.as_str());
            out.append("\n");
            out
        },
        StarterTemplate::PythonOnly => {
            let mut out = String::from_str("category: Philosophy\nversion: 1\nlanguage: en\n\nphilosophies:\n  - id: ");
            out.append(ph.as_str());
            out.append("\n    title: ");
            out.append(project_name);
            out.append(" should keep Python traces explicit\n    product_design_principle: |\n      The project should keep Python traceability small, reviewable, and easy\n      to understand from docstrings alone.\n    coding_guideline: |\n      Prefer stable IDs and clear docstrings on traced Python symbols from the\n      first requirement onward.\n    linked_policies:\n      - ");
            out.append(po.as_str());
            out.append("\n");
            out
        },
        StarterTemplate::GoOnly => {
            let mut out = String::from_str("category: Philosophy\nversion: 1\nlanguage: en\n\nphilosophies:\n  - id: ");
            out.append(ph.as_str());
            out.append("\n    title: ");
            out.append(project_name);
            out.append(" should keep Go traces explicit from the first commit\n    product_design_principle: |\n      The project should prove that a Go-first repository can adopt `syu`\n      without waiting for a larger multi-language scaffold.\n    coding_guideline: |\n      Prefer stable IDs and small Go starter files whose traced symbols stay\n      obvious in review.\n    linked_policies:\n      - ");
            out.append(po.as_str());
            out.append("\n");
            out
        },
        StarterTemplate::Polyglot => {
            let mut out = String::from_str("category: Philosophy\nversion: 1\nlanguage: en\n\nphilosophies:\n  - id: ");
            out.append(ph.as_str());
            out.append("\n    title: ");
            out.append(project_name);
            out.append(" should keep polyglot traces coherent\n    product_design_principle: |\n      The project should prove that one specification can stay understandable\n      even when implementation and tests span multiple languages.\n    coding_guideline: |\n      Prefer stable IDs and short language-native docs on every traced symbol.\n    linked_policies:\n      - ");
            out.append(po.as_str());
            out.append("\n");
            out
        },
        StarterTemplate::RubyOnly => lang_philosophy_template(project_name, id_prefixes, "Ruby", "YARD doc comments"),
        StarterTemplate::JavaOnly => lang_philosophy_template(project_name, id_prefixes, "Java", "Javadoc comments"),
        StarterTemplate::TypeScriptOnly => lang_philosophy_template(project_name, id_prefixes, "TypeScript", "TSDoc comments"),
    }
}

pub open spec fn policy_text(t: StarterTemplate, pn: Seq<char>, ids: StarterIds) -> Seq<char> {
    match t {
        StarterTemplate::Generic => "category: Policies\nversion: 1\nlanguage: en\n\npolicies:\n  - id: "@
            + ids.po
            + "\n    title: Every change in "@
            + pn
            + " should remain traceable\n    summary: Define rules that turn philosophy into a verifiable workflow.\n    description: |\n      A specification entry is only useful when contributors can trace it to\n      concrete requirements, features, code, and tests inside the repository.\n    linked_philosophies:\n      - "@
            + ids.ph
            + "\n    linked_requirements:\n      - "@
            + ids.rq
            + "\n"@,
        StarterTemplate::DocsFirst => "category: Policies\nversion: 1\nlanguage: en\n\npolicies:\n  - id: "@
            + ids.po
            + "\n    title: Documentation-first traces must stay explicit in "@
            + pn
            + "\n    summary: Use markdown, shell, and YAML traces for explicit ownership without pretending they provide rich code inspection.\n    description: |\n      The starter workspace should demonstrate named shell symbols where\n      possible and wildcard YAML ownership only for files that intentionally\n      belong to one feature.\n    linked_philosophies:\n      - "@
            + ids.ph
            + "\n    linked_requirements:\n      - "@
            + ids.rq
            + "\n      - "@
            + ids.rq2
            + "\n"@,
        StarterTemplate::RustOnly => "category: Policies\nversion: 1\nlanguage: en\n\npolicies:\n  - id: "@
            + ids.po
            + "\n    title: Rust requirement and feature traces must stay documented in "@
            + pn
            + "\n    summary: Start with a Rust-first workflow that stays explicit in code review.\n    description: |\n      Rust requirement and feature traces should point to symbols whose doc\n      comments carry both the stable ID and a short explanation.\n    linked_philosophies:\n      - "@
            + ids.ph
            + "\n    linked_requirements:\n      - "@
            + ids.rq
            + "\n"@,
        StarterTemplate::PythonOnly => "category: Policies\nversion: 1\nlanguage: en\n\npolicies:\n  - id: "@
            + ids.po
            + "\n    title: Python requirement and feature traces must stay documented in "@
            + pn
            + "\n    summary: Start with a Python-first workflow that stays explicit in docstrings.\n    description: |\n      Python requirement and feature traces should point to symbols whose\n      docstrings carry both the stable ID and a short explanation.\n    linked_philosophies:\n      - "@
            + ids.ph
            + "\n    linked_requirements:\n      - "@
            + ids.rq
            + "\n"@,
        StarterTemplate::GoOnly => "category: Policies\nversion: 1\nlanguage: en\n\npolicies:\n  - id: "@
            + ids.po
            + "\n    title: Go requirement and feature traces must stay explicit in "@
            + pn
            + "\n    summary: Start with a Go-first workflow that keeps the first traced symbols easy to inspect.\n    description: |\n      The starter workspace should include real Go source and test files so the\n      first requirement and feature validate against code contributors can open immediately.\n    linked_philosophies:\n      - "@
            + ids.ph
            + "\n    linked_requirements:\n      - "@
            + ids.rq
            + "\n"@,
        StarterTemplate::Polyglot => "category: Policies\nversion: 1\nlanguage: en\n\npolicies:\n  - id: "@
            + ids.po
            + "\n    title: Polyglot requirement and feature traces must stay verifiable in "@
            + pn
            + "\n    summary: Start with one specification flow that can grow across languages.\n    description: |\n      The starter workspace should make it obvious how one requirement and one\n      feature can stay linked even when implementation later spans Rust,\n      Python, and TypeScript.\n    linked_philosophies:\n      - "@
            + ids.ph
            + "\n    linked_requirements:\n      - "@
            + ids.rq
            + "\n"@,
        StarterTemplate::RubyOnly => lang_policy_text(pn, ids, "Ruby"@, "YARD doc comments"@),
        StarterTemplate::JavaOnly => lang_policy_text(pn, ids, "Java"@, "Javadoc comments"@),
        StarterTemplate::TypeScriptOnly => lang_policy_text(pn, ids, "TypeScript"@, "TSDoc comments"@),
    }
}

fn policy_template(project_name: &str, template: StarterTemplate, id_prefixes: &StarterIdPrefixes) -> (res: String)
    ensures
        res@ == policy_text(template, project_name@, starter_ids(*id_prefixes)),
{
    let (ph, po, rq, rq2, fe, fe2, rp) = starter_id_strings(id_prefixes);
    match template {
        StarterTemplate::Generic => {
            let mut out = String::from_str("category: Policies\nversion: 1\nlanguage: en\n\npolicies:\n  - id: ");
            out.append(po.as_str());
            out.append("\n    title: Every change in ");
            out.append(project_name);
            out.append(" should remain traceable\n    summary: Define rules that turn philosophy into a verifiable workflow.\n    description: |\n      A specification entry is only useful when contributors can trace it to\n      concrete requirements, features, code, and tests inside the repository.\n    linked_philosophies:\n      - ");
            out.append(ph.as_str());
            out.append("\n    linked_requirements:\n      - ");
            out.append(rq.as_str());
            out.append("\n");
            out
        },
        StarterTemplate::DocsFirst => {
            let mut out = String::from_str("category: Policies\nversion: 1\nlanguage: en\n\npolicies:\n  - id: ");
            out.append(po.as_str());
            out.append("\n    title: Documentation-first traces must stay explicit in ");
            out.append(project_name);
            out.append("\n    summary: Use markdown, shell, and YAML traces for explicit ownership without pretending they provide rich code inspection.\n    description: |\n      The starter workspace should demonstrate named shell symbols where\n      possible and wildcard YAML ownership only for files that intentionally\n      belong to one feature.\n    linked_philosophies:\n      - ");
            out.append(ph.as_str());
            out.append("\n    linked_requirements:\n      - ");
            out.append(rq.as_str());
            out.append("\n      - ");
            out.append(rq2.as_str());
            out.append("\n");
            out
        },
        StarterTemplate::RustOnly => {
            let mut out = String::from_str("category: Policies\nversion: 1\nlanguage: en\n\npolicies:\n  - id: ");
            out.append(po.as_str());
            out.append("\n    title: Rust requirement and feature traces must stay documented in ");
            out.append(project_name);
            out.append("\n    summary: Start with a Rust-first workflow that stays explicit in code review.\n    description: |\n      Rust requirement and feature traces should point to symbols whose doc\n      comments carry both the stable ID and a short explanation.\n    linked_philosophies:\n      - ");
            out.append(ph.as_str());
            out.append("\n    linked_requirements:\n      - ");
            out.append(rq.as_str());
            out.append("\n");
            out
        },
        StarterTemplate::PythonOnly => {
            let mut out = String::from_str("category: Policies\nversion: 1\nlanguage: en\n\npolicies:\n  - id: ");
            out.append(po.as_str());
            out.append("\n    title: Python requirement and feature traces must stay documented in ");
            out.append(project_name);
            out.append("\n    summary: Start with a Python-first workflow that stays explicit in docstrings.\n    description: |\n      Python requirement and feature traces should point to symbols whose\n      docstrings carry both the stable ID and a short explanation.\n    linked_philosophies:\n      - ");
            out.append(ph.as_str());
            out.append("\n    linked_requirements:\n      - ");
            out.append(rq.as_str());
            out.append("\n");
            out
        },
        StarterTemplate::GoOnly => {
            let mut out = String::from_str("category: Policies\nversion: 1\nlanguage: en\n\npolicies:\n  - id: ");
            out.append(po.as_str());
            out.append("\n    title: Go requirement and feature traces must stay explicit in ");
            out.append(project_name);
            out.append("\n    summary: Start with a Go-first workflow that keeps the first traced symbols easy to inspect.\n    description: |\n      The starter workspace should include real Go source and test files so the\n      first requirement and feature validate against code contributors can open immediately.\n    linked_philosophies:\n      - ");
            out.append(ph.as_str());
            out.append("\n    linked_requirements:\n      - ");
            out.append(rq.as_str());
            out.append("\n");
            out
        },
        StarterTemplate::Polyglot => {
            let mut out = String::from_str("category: Policies\nversion: 1\nlanguage: en\n\npolicies:\n  - id: ");
            out.append(po.as_str());
            out.append("\n    title: Polyglot requirement and feature traces must stay verifiable in ");
            out.append(project_name);
            out.append("\n    summary: Start with one specification flow that can grow across languages.\n    description: |\n      The starter workspace should make it obvious how one requirement and one\n      feature can stay linked even when implementation later spans Rust,\n      Python, and TypeScript.\n    linked_philosophies:\n      - ");
            out.append(ph.as_str());
            out.append("\n    linked_requirements:\n      - ");
            out.append(rq.as_str());
            out.append("\n");
            out
        },
        StarterTemplate::RubyOnly => lang_policy_template(project_name, id_prefixes, "Ruby", "YARD doc comments"),
        StarterTemplate::JavaOnly => lang_policy_template(project_name, id_prefixes, "Java", "Javadoc comments"),
        StarterTemplate::TypeScriptOnly => lang_policy_template(project_name, id_prefixes, "TypeScript", "TSDoc comments"),
    }
}

pub open spec fn requirement_text(t: StarterTemplate, pn: Seq<char>, ids: StarterIds) -> Seq<char> {
    match t {
        StarterTemplate::Generic => "category: Core Requirements\nprefix: "@
            + ids.rp
            + "\n\nrequirements:\n  - id: "@
            + ids.rq
            + "\n    title: Bootstrap "@
            + pn
            + " with a four-layer specification\n    description: |\n      The project should keep philosophy, policy, requirements, and features in\n      YAML so contributors can evolve behavior deliberately.\n    priority: high\n    status: planned\n    linked_policies:\n      - "@
            + ids.po
            + "\n    linked_features:\n      - "@
            + ids.fe
            + "\n    tests: {}\n"@,
        StarterTemplate::DocsFirst => "category: Docs-first Requirements\nprefix: "@
            + ids.rp
            + "\n\nrequirements:\n  - id: "@
            + ids.rq
            + "\n    title: Release-note publishing should stay traceable through a supported shell mapping\n    description: The starter should show that shell-backed workflows can use explicit symbol ownership without doc inspection.\n    priority: high\n    status: implemented\n    linked_policies:\n      - "@
            + ids.po
            + "\n    linked_features:\n      - "@
            + ids.fe
            + "\n    tests:\n      markdown:\n        - file: README.md\n          symbols:\n            - DocsFirstAcceptanceChecklist\n  - id: "@
            + ids.rq2
            + "\n    title: Whole-file config ownership should stay explicit when one YAML file belongs to one feature\n    description: The starter should show when wildcard ownership is appropriate for a dedicated configuration file.\n    priority: medium\n    status: implemented\n    linked_policies:\n      - "@
            + ids.po
            + "\n    linked_features:\n      - "@
            + ids.fe2
            + "\n    tests:\n      markdown:\n        - file: README.md\n          symbols:\n            - DocsFirstNavigationChecklist\n"@,
        StarterTemplate::RustOnly => "category: Rust Requirements\nprefix: "@
            + ids.rp
            + "\n\nrequirements:\n  - id: "@
            + ids.rq
            + "\n    title: Bootstrap "@
            + pn
            + " with Rust-first trace conventions\n    description: |\n      The project should start with a Rust-oriented requirement that can later\n      claim documented Rust test symbols without restructuring the workspace.\n    priority: high\n    status: planned\n    linked_policies:\n      - "@
            + ids.po
            + "\n    linked_features:\n      - "@
            + ids.fe
            + "\n    tests: {}\n"@,
        StarterTemplate::PythonOnly => "category: Python Requirements\nprefix: "@
            + ids.rp
            + "\n\nrequirements:\n  - id: "@
            + ids.rq
            + "\n    title: Bootstrap "@
            + pn
            + " with Python-first trace conventions\n    description: |\n      The project should start with a Python-oriented requirement that can later\n      claim documented Python test symbols without restructuring the workspace.\n    priority: high\n    status: planned\n    linked_policies:\n      - "@
            + ids.po
            + "\n    linked_features:\n      - "@
            + ids.fe
            + "\n    tests: {}\n"@,
        StarterTemplate::GoOnly => "category: Go Requirements\nprefix: "@
            + ids.rp
            + "\n\nrequirements:\n  - id: "@
            + ids.rq
            + "\n    title: Bootstrap "@
            + pn
            + " with a Go-backed requirement trace\n    description: |\n      The project should start with one Go test symbol so the first requirement\n      already validates against a real `_test.go` file.\n    priority: high\n    status: implemented\n    linked_policies:\n      - "@
            + ids.po
            + "\n    linked_features:\n      - "@
            + ids.fe
            + "\n    tests:\n      go:\n        - file: go/app_test.go\n          symbols:\n            - TestGoRequirement\n"@,
        StarterTemplate::Polyglot => "category: Polyglot Requirements\nprefix: "@
            + ids.rp
            + "\n\nrequirements:\n  - id: "@
            + ids.rq
            + "\n    title: Bootstrap "@
            + pn
            + " with polyglot trace conventions\n    description: |\n      The project should start with one requirement that can later trace into\n      Rust, Python, and TypeScript without changing the layered layout.\n    priority: high\n    status: planned\n    linked_policies:\n      - "@
            + ids.po
            + "\n    linked_features:\n      - "@
            + ids.fe
            + "\n    tests: {}\n"@,
        StarterTemplate::RubyOnly => lang_requirement_text(pn, ids, "Ruby"@, "YARD doc comments"@),
        StarterTemplate::JavaOnly => lang_requirement_text(pn, ids, "Java"@, "Javadoc comments"@),
        StarterTemplate::TypeScriptOnly => lang_requirement_text(pn, ids, "TypeScript"@, "TSDoc comments"@),
    }
}

fn requirement_template(project_name: &str, template: StarterTemplate, id_prefixes: &StarterIdPrefixes) -> (res: String)
    ensures
        res@ == requirement_text(template, project_name@, starter_ids(*id_prefixes)),
{
    let (ph, po, rq, rq2, fe, fe2, rp) = starter_id_strings(id_prefixes);
    match template {
        StarterTemplate::Generic => {
            let mut out = String::from_str("category: Core Requirements\nprefix: ");
            out.append(rp.as_str());
            out.append("\n\nrequirements:\n  - id: ");
            out.append(rq.as_str());
            out.append("\n    title: Bootstrap ");
            out.append(project_name);
            out.append(" with a four-layer specification\n    description: |\n      The project should keep philosophy, policy, requirements, and features in\n      YAML so contributors can evolve behavior deliberately.\n    priority: high\n    status: planned\n    linked_policies:\n      - ");
            out.append(po.as_str());
            out.append("\n    linked_features:\n      - ");
            out.append(fe.as_str());
            out.append("\n    tests: {}\n");
            out
        },
        StarterTemplate::DocsFirst => {
            let mut out = String::from_str("category: Docs-first Requirements\nprefix: ");
            out.append(rp.as_str());
            out.append("\n\nrequirements:\n  - id: ");
            out.append(rq.as_str());
            out.append("\n    title: Release-note publishing should stay traceable through a supported shell mapping\n    description: The starter should show that shell-backed workflows can use explicit symbol ownership without doc inspection.\n    priority: high\n    status: implemented\n    linked_policies:\n      - ");
            out.append(po.as_str());
            out.append("\n    linked_features:\n      - ");
            out.append(fe.as_str());
            out.append("\n    tests:\n      markdown:\n        - file: README.md\n          symbols:\n            - DocsFirstAcceptanceChecklist\n  - id: ");
            out.append(rq2.as_str());
            out.append("\n    title: Whole-file config ownership should stay explicit when one YAML file belongs to one feature\n    description: The starter should show when wildcard ownership is appropriate for a dedicated configuration file.\n    priority: medium\n    status: implemented\n    linked_policies:\n      - ");
            out.append(po.as_str());
            out.append("\n    linked_features:\n      - ");
            out.append(fe2.as_str());
            out.append("\n    tests:\n      markdown:\n        - file: README.md\n          symbols:\n            - DocsFirstNavigationChecklist\n");
            out
        },
        StarterTemplate::RustOnly => {
            let mut out = String::from_str("category: Rust Requirements\nprefix: ");
            out.append(rp.as_str());
            out.append("\n\nrequirements:\n  - id: ");
            out.append(rq.as_str());
            out.append("\n    title: Bootstrap ");
            out.append(project_name);
            out.append(" with Rust-first trace conventions\n    description: |\n      The project should start with a Rust-oriented requirement that can later\n      claim documented Rust test symbols without restructuring the workspace.\n    priority: high\n    status: planned\n    linked_policies:\n      - ");
            out.append(po.as_str());
            out.append("\n    linked_features:\n      - ");
            out.append(fe.as_str());
            out.append("\n    tests: {}\n");
            out
        },
        StarterTemplate::PythonOnly => {
            let mut out = String::from_str("category: Python Requirements\nprefix: ");
            out.append(rp.as_str());
            out.append("\n\nrequirements:\n  - id: ");
            out.append(rq.as_str());
            out.append("\n    title: Bootstrap ");
            out.append(project_name);
            out.append(" with Python-first trace conventions\n    description: |\n      The project should start with a Python-oriented requirement that can later\n      claim documented Python test symbols without restructuring the workspace.\n    priority: high\n    status: planned\n    linked_policies:\n      - ");
            out.append(po.as_str());
            out.append("\n    linked_features:\n      - ");
            out.append(fe.as_str());
            out.append("\n    tests: {}\n");
            out
        },
        StarterTemplate::GoOnly => {
            let mut out = String::from_str("category: Go Requirements\nprefix: ");
            out.append(rp.as_str());
            out.append("\n\nrequirements:\n  - id: ");
            out.append(rq.as_str());
            out.append("\n    title: Bootstrap ");
            out.append(project_name);
            out.append(" with a Go-backed requirement trace\n    description: |\n      The project should start with one Go test symbol so the first requirement\n      already validates against a real `_test.go` file.\n    priority: high\n    status: implemented\n    linked_policies:\n      - ");
            out.append(po.as_str());
            out.append("\n    linked_features:\n      - ");
            out.append(fe.as_str());
            out.append("\n    tests:\n      go:\n        - file: go/app_test.go\n          symbols:\n            - TestGoRequirement\n");
            out
        },
        StarterTemplate::Polyglot => {
            let mut out = String::from_str("category: Polyglot Requirements\nprefix: ");
            out.append(rp.as_str());
            out.append("\n\nrequirements:\n  - id: ");
            out.append(rq.as_str());
            out.append("\n    title: Bootstrap ");
            out.append(project_name);
            out.append(" with polyglot trace conventions\n    description: |\n      The project should start with one requirement that can later trace into\n      Rust, Python, and TypeScript without changing the layered layout.\n    priority: high\n    status: planned\n    linked_policies:\n      - ");
            out.append(po.as_str());
            out.append("\n    linked_features:\n      - ");
            out.append(fe.as_str());
            out.append("\n    tests: {}\n");
            out
        },
        StarterTemplate::RubyOnly => lang_requirement_template(project_name, id_prefixes, "Ruby", "YARD doc comments"),
        StarterTemplate::JavaOnly => lang_requirement_template(project_name, id_prefixes, "Java", "Javadoc comments"),
        StarterTemplate::TypeScriptOnly => lang_requirement_template(project_name, id_prefixes, "TypeScript", "TSDoc comments"),
    }
}

pub open spec fn feature_text(t: StarterTemplate, pn: Seq<char>, ids: StarterIds) -> Seq<char> {
    match t {
        StarterTemplate::Generic => "category: Core Features\nversion: 1\n\nfeatures:\n  - id: "@
            + ids.fe
            + "\n    title: Bootstrap the "@
            + pn
            + " spec workspace\n    summary: Provide a starter structure that contributors can extend.\n    status: planned\n    linked_requirements:\n      - "@
            + ids.rq
            + "\n    implementations: {}\n"@,
        StarterTemplate::DocsFirst => "category: Docs-first Features\nversion: 1\n\nfeatures:\n  - id: "@
            + ids.fe
            + "\n    title: Trace the release-note publishing script with an explicit shell symbol\n    summary: Demonstrate a named shell function trace for documentation-heavy repositories.\n    status: implemented\n    linked_requirements:\n      - "@
            + ids.rq
            + "\n    implementations:\n      shell:\n        - file: scripts/publish-docs.sh\n          symbols:\n            - publish_release_notes\n  - id: "@
            + ids.fe2
            + "\n    title: Trace one dedicated navigation file with wildcard YAML ownership\n    summary: Demonstrate that wildcard ownership is acceptable when one YAML file intentionally belongs to one feature.\n    status: implemented\n    linked_requirements:\n      - "@
            + ids.rq2
            + "\n    implementations:\n      yaml:\n        - file: config/navigation.yaml\n          symbols:\n            - \"*\"\n"@,
        StarterTemplate::RustOnly => "category: Rust Features\nversion: 1\n\nfeatures:\n  - id: "@
            + ids.fe
            + "\n    title: Bootstrap the "@
            + pn
            + " Rust spec workspace\n    summary: Provide a Rust-oriented starter structure that contributors can extend.\n    status: planned\n    linked_requirements:\n      - "@
            + ids.rq
            + "\n    implementations: {}\n"@,
        StarterTemplate::PythonOnly => "category: Python Features\nversion: 1\n\nfeatures:\n  - id: "@
            + ids.fe
            + "\n    title: Bootstrap the "@
            + pn
            + " Python spec workspace\n    summary: Provide a Python-oriented starter structure that contributors can extend.\n    status: planned\n    linked_requirements:\n      - "@
            + ids.rq
            + "\n    implementations: {}\n"@,
        StarterTemplate::GoOnly => "category: Go Features\nversion: 1\n\nfeatures:\n  - id: "@
            + ids.fe
            + "\n    title: Bootstrap the "@
            + pn
            + " Go spec workspace\n    summary: Provide a Go-oriented starter structure with one traced implementation symbol.\n    status: implemented\n    linked_requirements:\n      - "@
            + ids.rq
            + "\n    implementations:\n      go:\n        - file: go/app.go\n          symbols:\n            - GoFeatureImpl\n"@,
        StarterTemplate::Polyglot => "category: Polyglot Features\nversion: 1\n\nfeatures:\n  - id: "@
            + ids.fe
            + "\n    title: Bootstrap the "@
            + pn
            + " polyglot spec workspace\n    summary: Provide a starter structure that can grow across Rust, Python, and TypeScript.\n    status: planned\n    linked_requirements:\n      - "@
            + ids.rq
            + "\n    implementations: {}\n"@,
        StarterTemplate::RubyOnly => lang_feature_text(pn, ids, "Ruby"@, "YARD doc comments"@),
        StarterTemplate::JavaOnly => lang_feature_text(pn, ids, "Java"@, "Javadoc comments"@),
        StarterTemplate::TypeScriptOnly => lang_feature_text(pn, ids, "TypeScript"@, "TSDoc comments"@),
    }
}

fn feature_template(project_name: &str, template: StarterTemplate, id_prefixes: &StarterIdPrefixes) -> (res: String)
    ensures
        res@ == feature_text(template, project_name@, starter_ids(*id_prefixes)),
{
    let (ph, po, rq, rq2, fe, fe2, rp) = starter_id_strings(id_prefixes);
    match template {
        StarterTemplate::Generic => {
            let mut out = String::from_str("category: Core Features\nversion: 1\n\nfeatures:\n  - id: ");
            out.append(fe.as_str());
            out.append("\n    title: Bootstrap the ");
            out.append(project_name);
            out.append(" spec workspace\n    summary: Provide a starter structure that contributors can extend.\n    status: planned\n    linked_requirements:\n      - ");
            out.append(rq.as_str());
            out.append("\n    implementations: {}\n");
            out
        },
        StarterTemplate::DocsFirst => {
            let mut out = String::from_str("category: Docs-first Features\nversion: 1\n\nfeatures:\n  - id: ");
            out.append(fe.as_str());
            out.append("\n    title: Trace the release-note publishing script with an explicit shell symbol\n    summary: Demonstrate a named shell function trace for documentation-heavy repositories.\n    status: implemented\n    linked_requirements:\n      - ");
            out.append(rq.as_str());
            out.append("\n    implementations:\n      shell:\n        - file: scripts/publish-docs.sh\n          symbols:\n            - publish_release_notes\n  - id: ");
            out.append(fe2.as_str());
            out.append("\n    title: Trace one dedicated navigation file with wildcard YAML ownership\n    summary: Demonstrate that wildcard ownership is acceptable when one YAML file intentionally belongs to one feature.\n    status: implemented\n    linked_requirements:\n      - ");
            out.append(rq2.as_str());
            out.append("\n    implementations:\n      yaml:\n        - file: config/navigation.yaml\n          symbols:\n            - \"*\"\n");
            out
        },
        StarterTemplate::RustOnly => {
            let mut out = String::from_str("category: Rust Features\nversion: 1\n\nfeatures:\n  - id: ");
            out.append(fe.as_str());
            out.append("\n    title: Bootstrap the ");
            out.append(project_name);
            out.append(" Rust spec workspace\n    summary: Provide a Rust-oriented starter structure that contributors can extend.\n    status: planned\n    linked_requirements:\n      - ");
            out.append(rq.as_str());
            out.append("\n    implementations: {}\n");
            out
        },
        StarterTemplate::PythonOnly => {
            let mut out = String::from_str("category: Python Features\nversion: 1\n\nfeatures:\n  - id: ");
            out.append(fe.as_str());
            out.append("\n    title: Bootstrap the ");
            out.append(project_name);
            out.append(" Python spec workspace\n    summary: Provide a Python-oriented starter structure that contributors can extend.\n    status: planned\n    linked_requirements:\n      - ");
            out.append(rq.as_str());
            out.append("\n    implementations: {}\n");
            out
        },
        StarterTemplate::GoOnly => {
            let mut out = String::from_str("category: Go Features\nversion: 1\n\nfeatures:\n  - id: ");
            out.append(fe.as_str());
            out.append("\n    title: Bootstrap the ");
            out.append(project_name);
            out.append(" Go spec workspace\n    summary: Provide a Go-oriented starter structure with one traced implementation symbol.\n    status: implemented\n    linked_requirements:\n      - ");
            out.append(rq.as_str());
            out.append("\n    implementations:\n      go:\n        - file: go/app.go\n          symbols:\n            - GoFeatureImpl\n");
            out
        },
        StarterTemplate::Polyglot => {
            let mut out = String::from_str("category: Polyglot Features\nversion: 1\n\nfeatures:\n  - id: ");
            out.append(fe.as_str());
            out.append("\n    title: Bootstrap the ");
            out.append(project_name);
            out.append(" polyglot spec workspace\n    summary: Provide a starter structure that can grow across Rust, Python, and TypeScript.\n    status: planned\n    linked_requirements:\n      - ");
            out.append(rq.as_str());
            out.append("\n    implementations: {}\n");
            out
        },
        StarterTemplate::RubyOnly => lang_feature_template(project_name, id_prefixes, "Ruby", "YARD doc comments"),
        StarterTemplate::JavaOnly => lang_feature_template(project_name, id_prefixes, "Java", "Javadoc comments"),
        StarterTemplate::TypeScriptOnly => lang_feature_template(project_name, id_prefixes, "TypeScript", "TSDoc comments"),
    }
}

/// A path below a directory (`Path::join` on relative parts, with forward slashes).
pub open spec fn joined_path(dir: Seq<char>, rel: Seq<char>) -> Seq<char> {
    path_label_spec(if dir.len() == 0 { rel } else if dir.last() == '/' { dir + rel } else { dir + "/"@ + rel })
}

pub fn join_path(dir: &str, rel: &str) -> (res: String)
    ensures
        res@ == joined_path(dir@, rel@),
{
    let n = dir.unicode_len();
    let mut out = String::from_str(dir);
    if n > 0 && dir.get_char(n - 1) != '/' {
        out.append("/");
    }
    out.append(rel);
    path_label(out.as_str())
}

pub open spec fn readme_text() -> Seq<char> {
    "# docs-first starter\n\nUse this starter when documentation, shell automation, and checked-in\nconfiguration are the first repository artifacts you want to keep traceable.\n\n## DocsFirstAcceptanceChecklist\n\n- `REQ-DOCS-001` expects the release-note publishing flow to stay explicit.\n- `FEAT-DOCS-001` traces directly to the shell symbol `publish_release_notes`.\n- This mapping is valid without `doc_contains` because shell only supports\n  pattern-based symbol existence today.\n\n## DocsFirstNavigationChecklist\n\n- `REQ-DOCS-002` expects one checked-in navigation file to stay easy to inspect.\n- `FEAT-DOCS-002` owns `config/navigation.yaml` with `symbols: [\"*\"]`.\n- Use wildcard ownership carefully: it works best when one file intentionally\n  belongs to one feature instead of collecting unrelated concerns.\n"@
}

pub open spec fn publish_text() -> Seq<char> {
    "#!/usr/bin/env bash\n\npublish_release_notes() {\n  printf '%s\\n' \"publishing release notes\"\n}\n\npublish_release_notes\n"@
}

pub open spec fn navigation_text() -> Seq<char> {
    "sections:\n  - id: intro\n    title: Introduction\n  - id: release-notes\n    title: Release notes\n  - id: troubleshooting\n    title: Troubleshooting\n"@
}

pub open spec fn go_app_text() -> Seq<char> {
    "package app\n\n// GoFeatureImpl implements FEAT-GO-001 in the starter workspace.\nfunc GoFeatureImpl() string {\n\treturn \"go-only starter\"\n}\n"@
}

pub open spec fn go_test_text() -> Seq<char> {
    "package app\n\nimport \"testing\"\n\n// TestGoRequirement covers REQ-GO-001 in the starter workspace.\nfunc TestGoRequirement(t *testing.T) {\n\tif GoFeatureImpl() == \"\" {\n\t\tt.Fatal(\"GoFeatureImpl should return starter output\")\n\t}\n}\n"@
}

pub open spec fn file_views(files: Seq<(String, String)>) -> Seq<(Seq<char>, Seq<char>)> {
    Seq::new(files.len(), |i: int| (files[i].0@, files[i].1@))
}

/// The source files beside the spec that a template ships.
pub open spec fn source_files_spec(pn: Seq<char>, t: StarterTemplate) -> Seq<(Seq<char>, Seq<char>)> {
    match t {
        StarterTemplate::DocsFirst => seq![
            ("README.md"@, readme_text()),
            ("scripts/publish-docs.sh"@, publish_text()),
            ("config/navigation.yaml"@, navigation_text()),
        ],
        StarterTemplate::GoOnly => seq![
            ("go.mod"@, go_mod_text(pn)),
            ("go/app.go"@, go_app_text()),
            ("go/app_test.go"@, go_test_text()),
        ],
        _ => Seq::empty(),
    }
}

pub fn starter_source_files(project_name: &str, template: StarterTemplate) -> (res: Vec<(String, String)>)
    ensures
        file_views(res@) == source_files_spec(project_name@, template),
{
    let mut files: Vec<(String, String)> = Vec::new();
    match template {
        StarterTemplate::DocsFirst => {
            files.push((String::from_str("README.md"), String::from_str("# docs-first starter\n\nUse this starter when documentation, shell automation, and checked-in\nconfiguration are the first repository artifacts you want to keep traceable.\n\n## DocsFirstAcceptanceChecklist\n\n- `REQ-DOCS-001` expects the release-note publishing flow to stay explicit.\n- `FEAT-DOCS-001` traces directly to the shell symbol `publish_release_notes`.\n- This mapping is valid without `doc_contains` because shell only supports\n  pattern-based symbol existence today.\n\n## DocsFirstNavigationChecklist\n\n- `REQ-DOCS-002` expects one checked-in navigation file to stay easy to inspect.\n- `FEAT-DOCS-002` owns `config/navigation.yaml` with `symbols: [\"*\"]`.\n- Use wildcard ownership carefully: it works best when one file intentionally\n  belongs to one feature instead of collecting unrelated concerns.\n")));
            files.push((String::from_str("scripts/publish-docs.sh"), String::from_str("#!/usr/bin/env bash\n\npublish_release_notes() {\n  printf '%s\\n' \"publishing release notes\"\n}\n\npublish_release_notes\n")));
            files.push((String::from_str("config/navigation.yaml"), String::from_str("sections:\n  - id: intro\n    title: Introduction\n  - id: release-notes\n    title: Release notes\n  - id: troubleshooting\n    title: Troubleshooting\n")));
        },
        StarterTemplate::GoOnly => {
            files.push((String::from_str("go.mod"), render_go_module_file(project_name)));
            files.push((String::from_str("go/app.go"), String::from_str("package app\n\n// GoFeatureImpl implements FEAT-GO-001 in the starter workspace.\nfunc GoFeatureImpl() string {\n\treturn \"go-only starter\"\n}\n")));
            files.push((String::from_str("go/app_test.go"), String::from_str("package app\n\nimport \"testing\"\n\n// TestGoRequirement covers REQ-GO-001 in the starter workspace.\nfunc TestGoRequirement(t *testing.T) {\n\tif GoFeatureImpl() == \"\" {\n\t\tt.Fatal(\"GoFeatureImpl should return starter output\")\n\t}\n}\n")));
        },
        _ => {},
    }
    assert(file_views(files@) =~= source_files_spec(project_name@, template));
    files
}

/// Every file of a starter workspace, with its contents: the config, the
/// four layers and the registry under the spec root, then the template's
/// source files.
pub open spec fn scaffold_spec(
    pn: Seq<char>,
    root: Seq<char>,
    t: StarterTemplate,
    p: StarterIdPrefixes,
    config: Seq<char>,
    version: Seq<char>,
) -> Seq<(Seq<char>, Seq<char>)> {
    let ids = starter_ids(p);
    seq![
        ("syu.yaml"@, config),
        (joined_path(root, "philosophy/foundation.yaml"@), philosophy_text(t, pn, ids)),
        (joined_path(root, "policies/policies.yaml"@), policy_text(t, pn, ids)),
        (joined_path(root, requirement_path_spec(t)), requirement_text(t, pn, ids)),
        (joined_path(root, "features/features.yaml"@), registry_text(t, version)),
        (joined_path(root, "features/"@ + feature_file_spec(t)), feature_text(t, pn, ids)),
    ] + source_files_spec(pn, t)
}

/// The files of a new workspace; `config` is the rendered `syu.yaml` and
/// `version` the config version that the registry records.
pub fn scaffold_files(
    project_name: &str,
    spec_root: &str,
    template: StarterTemplate,
    id_prefixes: &StarterIdPrefixes,
    config: String,
    version: &str,
) -> (res: Vec<(String, String)>)
    ensures
        file_views(res@) == scaffold_spec(project_name@, spec_root@, template, *id_prefixes, config@, version@),
{
    let mut files: Vec<(String, String)> = Vec::new();
    files.push((String::from_str("syu.yaml"), config));
    files.push((join_path(spec_root, "philosophy/foundation.yaml"), philosophy_template(project_name, template, id_prefixes)));
    files.push((join_path(spec_root, "policies/policies.yaml"), policy_template(project_name, template, id_prefixes)));
    files.push((join_path(spec_root, requirement_document_path(template)), requirement_template(project_name, template, id_prefixes)));
    files.push((join_path(spec_root, "features/features.yaml"), feature_registry_template(template, version)));
    let feature_path = feature_document_path(template);
    files.push((join_path(spec_root, feature_path.as_str()), feature_template(project_name, template, id_prefixes)));
    let ghost head = file_views(files@);
    let mut extra = starter_source_files(project_name, template);
    files.append(&mut extra);
    assert(file_views(files@) =~= scaffold_spec(project_name@, spec_root@, template, *id_prefixes, config@, version@));
    files
}

pub open spec fn overwrite_error(existing: Seq<Seq<char>>) -> Seq<char> {
    "refusing to overwrite existing files without --force: "@ + join_seq(existing.map_values(|p: Seq<char>| "`"@ + p + "`"@), ", "@)
}

/// Refuses to overwrite files that already exist unless forced.
pub fn ensure_writable_targets(existing: &Vec<String>, force: bool) -> (res: Result<(), String>)
    ensures
        (force || existing@.len() == 0) ==> res is Ok,
        !(force || existing@.len() == 0) ==> res is Err && res->Err_0@ == overwrite_error(views(existing@)),
{
    if force || existing.len() == 0 {
        return Ok(());
    }
    let mut quoted: Vec<String> = Vec::new();
    let mut i: usize = 0;
    while i < existing.len()
        invariant
            i <= existing@.len(),
            quoted@.len() == i,
            forall|k: int| 0 <= k < i ==> (#[trigger] quoted@[k])@ == "`"@ + existing@[k]@ + "`"@,
        decreases existing@.len() - i,
    {
        let mut q = String::from_str("`");
        q.append(existing[i].as_str());
        q.append("`");
        quoted.push(q);
        i = i + 1;
    }
    assert(views(quoted@) =~= views(existing@).map_values(|p: Seq<char>| "`"@ + p + "`"@));
    let mut e = String::from_str("refusing to overwrite existing files without --force: ");
    e.append(join(&quoted, ", ").as_str());
    Err(e)
}

/// The summary that `syu init` prints after writing the starter files.
pub open spec fn init_summary_spec(workspace: Seq<char>, root: Seq<char>, t: StarterTemplate, created: Seq<Seq<char>>) -> Seq<char> {
    let arg = shell_quote_spec(workspace);
    "initialized syu workspace at "@ + workspace + "\n\nCreated files:\n"@
        + join_seq(created.map_values(|p: Seq<char>| "  "@ + p + "\n"@), ""@)
        + "\nWhat to do next:\n  1. Edit the spec files in "@ + joined_path(workspace, root) + "/ to describe your project\n"@
        + "     - "@ + joined_path(root, "philosophy/foundation.yaml"@) + "  (core principles)\n"@
        + "     - "@ + joined_path(root, "policies/policies.yaml"@) + "  (governance rules)\n"@
        + "     - "@ + joined_path(root, requirement_path_spec(t)) + "  (concrete requirements)\n"@
        + "     - "@ + joined_path(root, "features/"@ + feature_file_spec(t)) + "  (feature definitions)\n"@
        + "  2. Run `syu validate "@ + arg + "` to check your spec for consistency\n"@
        + "  3. Run `syu browse "@ + arg + "` for terminal exploration, or `syu app "@ + arg + "` for the browser UI\n"@
        + "  4. Commit the generated files to version control\n"@
        + "  Need a different starter next time? Run `syu templates` before another `syu init`.\n"@
}

pub fn render_init_summary(workspace: &str, spec_root: &str, template: StarterTemplate, created: &Vec<String>) -> (res: String)
    ensures
        res@ == init_summary_spec(workspace@, spec_root@, template, views(created@)),
{
    proof { reveal_strlit(""); }
    let arg = shell_quote_path(workspace);
    let mut lines: Vec<String> = Vec::new();
    let mut i: usize = 0;
    while i < created.len()
        invariant
            i <= created@.len(),
            lines@.len() == i,
            forall|k: int| 0 <= k < i ==> (#[trigger] lines@[k])@ == "  "@ + created@[k]@ + "\n"@,
        decreases created@.len() - i,
    {
        let mut l = String::from_str("  ");
        l.append(created[i].as_str());
        l.append("\n");
        lines.push(l);
        i = i + 1;
    }
    assert(views(lines@) =~= views(created@).map_values(|p: Seq<char>| "  "@ + p + "\n"@));
    let mut out = String::from_str("initialized syu workspace at ");
    out.append(workspace);
    out.append("\n\nCreated files:\n");
    out.append(join(&lines, "").as_str());
    out.append("\nWhat to do next:\n  1. Edit the spec files in ");
    out.append(join_path(workspace, spec_root).as_str());
    out.append("/ to describe your project\n");
    out.append("     - ");
    out.append(join_path(spec_root, "philosophy/foundation.yaml").as_str());
    out.append("  (core principles)\n");
    out.append("     - ");
    out.append(join_path(spec_root, "policies/policies.yaml").as_str());
    out.append("  (governance rules)\n");
    out.append("     - ");
    out.append(join_path(spec_root, requirement_document_path(template)).as_str());
    out.append("  (concrete requirements)\n");
    out.append("     - ");
    out.append(join_path(spec_root, feature_document_path(template).as_str()).as_str());
    out.append("  (feature definitions)\n");
    out.append("  2. Run `syu validate ");
    out.append(arg.as_str());
    out.append("` to check your spec for consistency\n");
    out.append("  3. Run `syu browse ");
    out.append(arg.as_str());
    out.append("` for terminal exploration, or `syu app ");
    out.append(arg.as_str());
    out.append("` for the browser UI\n");
    out.append("  4. Commit the generated files to version control\n");
    out.append("  Need a different starter next time? Run `syu templates` before another `syu init`.\n");
    out
}

} // verus!
