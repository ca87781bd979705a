//! `syu doctor`: readiness checks, their summary, and version comparison.
use vstd::prelude::*;

use crate::paths::{join_path, join_path_spec};
use crate::text::{is_digit, join_seq, split_char, split_seq, str_eq, trim, trim_seq, views, replace_char, replace_char_seq,
    starts_with, is_prefix, usize_to_string, decimal};

verus! {

/// The outcome of one check.
#[derive(Debug, Clone, Copy, PartialEq, Eq, Structural)]
pub enum DoctorStatus {
    Passed,
    Warning,
    Error,
    Skipped,
}

pub open spec fn status_label_spec(s: DoctorStatus) -> Seq<char> {
    match s {
        DoctorStatus::Passed => "ok"@,
        DoctorStatus::Warning => "warning"@,
        DoctorStatus::Error => "error"@,
        DoctorStatus::Skipped => "skipped"@,
    }
}

impl DoctorStatus {
    pub fn label(self) -> (res: &'static str)
        ensures
            res@ == status_label_spec(self),
    {
        match self {
            DoctorStatus::Passed => "ok",
            DoctorStatus::Warning => "warning",
            DoctorStatus::Error => "error",
            DoctorStatus::Skipped => "skipped",
        }
    }
}

/// One readiness check.
#[derive(Debug)]
pub struct DoctorCheck {
    pub id: &'static str,
    pub label: &'static str,
    pub status: DoctorStatus,
    pub message: String,
    pub fix: Option<String>,
}

/// How many checks ended in each status.
#[derive(Debug, Clone, Copy, PartialEq, Eq, Structural)]
pub struct DoctorSummary {
    pub ok: usize,
    pub warning: usize,
    pub error: usize,
    pub skipped: usize,
}

pub open spec fn count_status(checks: Seq<DoctorCheck>, s: DoctorStatus) -> nat
    decreases checks.len(),
{
    if checks.len() == 0 {
        0
    } else {
        count_status(checks.drop_last(), s) + (if checks.last().status == s { 1nat } else { 0nat })
    }
}

proof fn lemma_count_bound(checks: Seq<DoctorCheck>, s: DoctorStatus)
    ensures
        count_status(checks, s) <= checks.len(),
    decreases checks.len(),
{
    if checks.len() > 0 {
        lemma_count_bound(checks.drop_last(), s);
    }
}

/// Every check is counted under exactly one status.
pub proof fn lemma_summary_total(checks: Seq<DoctorCheck>)
    ensures
        count_status(checks, DoctorStatus::Passed) + count_status(checks, DoctorStatus::Warning) + count_status(
            checks,
            DoctorStatus::Error,
        ) + count_status(checks, DoctorStatus::Skipped) == checks.len(),
    decreases checks.len(),
{
    if checks.len() > 0 {
        lemma_summary_total(checks.drop_last());
    }
}

impl DoctorSummary {
    /// Counts the checks by status.
    pub fn from_checks(checks: &Vec<DoctorCheck>) -> (res: DoctorSummary)
        ensures
            res.ok == count_status(checks@, DoctorStatus::Passed),
            res.warning == count_status(checks@, DoctorStatus::Warning),
            res.error == count_status(checks@, DoctorStatus::Error),
            res.skipped == count_status(checks@, DoctorStatus::Skipped),
    {
        let mut summary = DoctorSummary { ok: 0, warning: 0, error: 0, skipped: 0 };
        let mut i: usize = 0;
        assert(checks@.take(0) =~= Seq::<DoctorCheck>::empty());
        while i < checks.len()
            invariant
                i <= checks@.len(),
                summary.ok == count_status(checks@.take(i as int), DoctorStatus::Passed),
                summary.warning == count_status(checks@.take(i as int), DoctorStatus::Warning),
                summary.error == count_status(checks@.take(i as int), DoctorStatus::Error),
                summary.skipped == count_status(checks@.take(i as int), DoctorStatus::Skipped),
            decreases checks@.len() - i,
        {
            assert(checks@.take(i + 1).drop_last() =~= checks@.take(i as int));
            assert(checks@.take(i + 1).last() == checks@[i as int]);
            proof {
                lemma_summary_total(checks@.take(i as int));
            }
            match checks[i].status {
                DoctorStatus::Passed => summary.ok = summary.ok + 1,
                DoctorStatus::Warning => summary.warning = summary.warning + 1,
                DoctorStatus::Error => summary.error = summary.error + 1,
                DoctorStatus::Skipped => summary.skipped = summary.skipped + 1,
            }
            i = i + 1;
        }
        assert(checks@.take(checks@.len() as int) =~= checks@);
        summary
    }
}

// ---------------------------------------------------------------------------
// Versions
// ---------------------------------------------------------------------------

pub open spec fn trim_leading_v(s: Seq<char>) -> Seq<char>
    decreases s.len(),
{
    if s.len() > 0 && s[0] == 'v' {
        trim_leading_v(s.drop_first())
    } else {
        s
    }
}

pub open spec fn version_char(c: char) -> bool {
    is_digit(c) || c == '.'
}

/// The first run of digits and dots that holds a digit, or nothing.
pub open spec fn version_run(s: Seq<char>) -> Seq<char>
    decreases s.len(),
{
    if s.len() == 0 {
        Seq::empty()
    } else {
        let run = leading_run(s);
        if exists|i: int| 0 <= i < run.len() && is_digit(#[trigger] run[i]) {
            run
        } else if run.len() < s.len() {
            version_run(s.skip(run.len() + 1int))
        } else {
            Seq::empty()
        }
    }
}

/// The longest prefix of digits and dots.
pub open spec fn leading_run(s: Seq<char>) -> Seq<char>
    decreases s.len(),
{
    if s.len() > 0 && version_char(s[0]) {
        seq![s[0]] + leading_run(s.drop_first())
    } else {
        Seq::empty()
    }
}

proof fn lemma_leading_run(s: Seq<char>)
    ensures
        leading_run(s).len() <= s.len(),
        leading_run(s) == s.take(leading_run(s).len() as int),
        forall|i: int| 0 <= i < leading_run(s).len() ==> version_char(#[trigger] s[i]),
        leading_run(s).len() < s.len() ==> !version_char(s[leading_run(s).len() as int]),
    decreases s.len(),
{
    if s.len() > 0 && version_char(s[0]) {
        lemma_leading_run(s.drop_first());
        assert(leading_run(s) =~= s.take(leading_run(s).len() as int));
        assert forall|i: int| 0 <= i < leading_run(s).len() implies version_char(#[trigger] s[i]) by {
            if i > 0 {
                assert(s[i] == s.drop_first()[i - 1]);
            }
        }
    }
}

/// The value of a string of decimal digits.
pub open spec fn digits_value(s: Seq<char>) -> nat
    decreases s.len(),
{
    if s.len() == 0 {
        0
    } else {
        digits_value(s.drop_last()) * 10 + ((s.last() as u32) - ('0' as u32)) as nat
    }
}

/// `str::parse::<u32>` on a string of digits: its value when it fits.
pub open spec fn parse_u32_spec(s: Seq<char>) -> Option<u32> {
    if s.len() > 0 && (forall|i: int| 0 <= i < s.len() ==> is_digit(#[trigger] s[i])) && digits_value(s) <= u32::MAX {
        Some(digits_value(s) as u32)
    } else {
        None
    }
}

pub open spec fn parse_segments(segs: Seq<Seq<char>>) -> Seq<u32>
    decreases segs.len(),
{
    if segs.len() == 0 {
        Seq::empty()
    } else {
        let prev = parse_segments(segs.drop_last());
        match parse_u32_spec(segs.last()) {
            Some(v) => prev.push(v),
            None => prev,
        }
    }
}

/// The numbers of the first version-like run of a string (after a leading
/// `v`), e.g. `[11, 8, 0]` for `npm 11.8.0`.
pub open spec fn numeric_version_spec(raw: Seq<char>) -> Seq<u32> {
    parse_segments(split_seq(version_run(trim_leading_v(trim_seq(raw))), '.'))
}

fn parse_u32(s: &str) -> (res: Option<u32>)
    ensures
        res == parse_u32_spec(s@),
{
    let n = s.unicode_len();
    if n == 0 {
        return None;
    }
    let mut value: u64 = 0;
    let mut i: usize = 0;
    assert(s@.take(0) =~= Seq::<char>::empty());
    while i < n
        invariant
            n == s@.len(),
            i <= n,
            forall|k: int| 0 <= k < i ==> is_digit(#[trigger] s@[k]),
            value == digits_value(s@.take(i as int)),
            value <= u32::MAX,
        decreases n - i,
    {
        let c = s.get_char(i);
        if !('0' <= c && c <= '9') {
            assert(!is_digit(s@[i as int]));
            return None;
        }
        assert(s@.take(i + 1).drop_last() =~= s@.take(i as int));
        assert(s@.take(i + 1).last() == c);
        let d = (c as u32 - '0' as u32) as u64;
        let next = value * 10 + d;
        if next > 4294967295u64 {
            proof {
                if forall|k: int| 0 <= k < s@.len() ==> is_digit(#[trigger] s@[k]) {
                    lemma_digits_grow(s@, i as int + 1);
                }
            }
            return None;
        }
        value = next;
        i = i + 1;
    }
    assert(s@.take(n as int) =~= s@);
    Some(value as u32)
}

pub(crate) proof fn lemma_digits_grow(s: Seq<char>, k: int)
    requires
        0 <= k <= s.len(),
        forall|i: int| 0 <= i < s.len() ==> is_digit(#[trigger] s[i]),
    ensures
        digits_value(s) >= digits_value(s.take(k)),
    decreases s.len() - k,
{
    if k < s.len() {
        lemma_digits_grow(s, k + 1);
        assert(s.take(k + 1).drop_last() =~= s.take(k));
    } else {
        assert(s.take(k) =~= s);
    }
}

fn version_run_of(s: &str) -> (res: String)
    ensures
        res@ == version_run(s@),
{
    let n = s.unicode_len();
    let mut start: usize = 0;
    assert(s@.skip(0) =~= s@);
    while start < n
        invariant
            n == s@.len(),
            start <= n,
            version_run(s@) == version_run(s@.skip(start as int)),
        decreases n - start,
    {
        let ghost rest = s@.skip(start as int);
        proof { lemma_leading_run(rest); }
        let mut end: usize = start;
        let mut has_digit = false;
        while end < n && (('0' <= s.get_char(end) && s.get_char(end) <= '9') || s.get_char(end) == '.')
            invariant
                n == s@.len(),
                start <= end <= n,
                rest == s@.skip(start as int),
                forall|i: int| start <= i < end ==> version_char(#[trigger] s@[i]),
                has_digit == exists|i: int| start <= i < end && is_digit(#[trigger] s@[i]),
            decreases n - end,
        {
            if '0' <= s.get_char(end) && s.get_char(end) <= '9' {
                has_digit = true;
            }
            end = end + 1;
        }
        proof {
            let run = leading_run(rest);
            assert(run.len() == end - start) by {
                if run.len() < end - start {
                    assert(!version_char(rest[run.len() as int]));
                    assert(rest[run.len() as int] == s@[start + run.len()]);
                }
                if run.len() > end - start {
                    assert(version_char(rest[end - start]));
                    assert(rest[end - start] == s@[end as int]);
                }
            }
            assert(run =~= s@.subrange(start as int, end as int));
            if has_digit {
                let w = choose|i: int| start <= i < end && is_digit(#[trigger] s@[i]);
                assert(run[w - start] == s@[w]);
            } else {
                assert forall|i: int| 0 <= i < run.len() implies !is_digit(#[trigger] run[i]) by {
                    assert(run[i] == s@[start + i]);
                }
            }
        }
        if has_digit {
            let t = s.substring_char(start, end);
            return String::from_str(t);
        }
        if end == n {
            return String::new();
        }
        assert(s@.skip(start as int).skip(end - start + 1) =~= s@.skip(end + 1));
        start = end + 1;
    }
    assert(s@.skip(n as int).len() == 0);
    proof { reveal_strlit(""); }
    String::new()
}

fn trim_v(s: &str) -> (res: String)
    ensures
        res@ == trim_leading_v(s@),
{
    let n = s.unicode_len();
    let mut i: usize = 0;
    assert(s@.skip(0) =~= s@);
    while i < n && s.get_char(i) == 'v'
        invariant
            n == s@.len(),
            i <= n,
            trim_leading_v(s@) == trim_leading_v(s@.skip(i as int)),
        decreases n - i,
    {
        assert(s@.skip(i as int).drop_first() =~= s@.skip(i + 1));
        i = i + 1;
    }
    let t = s.substring_char(i, n);
    assert(t@ =~= s@.skip(i as int));
    String::from_str(t)
}

/// The numbers of a version string.
pub fn parse_numeric_version(raw: &str) -> (res: Vec<u32>)
    ensures
        res@ == numeric_version_spec(raw@),
{
    let cleaned = trim_v(trim(raw).as_str());
    let run = version_run_of(cleaned.as_str());
    let segments = split_char(run.as_str(), '.');
    let ghost segs = views(segments@);
    let mut out: Vec<u32> = Vec::new();
    let mut i: usize = 0;
    assert(segs.take(0) =~= Seq::<Seq<char>>::empty());
    while i < segments.len()
        invariant
            i <= segments@.len(),
            segs == views(segments@),
            out@ == parse_segments(segs.take(i as int)),
        decreases segments@.len() - i,
    {
        assert(segs.take(i + 1).drop_last() =~= segs.take(i as int));
        assert(segs.take(i + 1).last() == segments@[i as int]@);
        match parse_u32(segments[i].as_str()) {
            Some(v) => out.push(v),
            None => {},
        }
        i = i + 1;
    }
    assert(segs.take(segments@.len() as int) =~= segs);
    out
}

/// The major version of a version string.
pub fn parse_major_version(raw: &str) -> (res: Option<String>)
    ensures
        match res {
            Some(s) => numeric_version_spec(raw@).len() > 0 && s@ == decimal(numeric_version_spec(raw@)[0] as nat),
            None => numeric_version_spec(raw@).len() == 0,
        },
{
    let parts = parse_numeric_version(raw);
    if parts.len() == 0 {
        None
    } else {
        Some(usize_to_string(parts[0] as usize))
    }
}

/// `current` is at least `minimum`, number by number; a shorter `current`
/// counts as zeros.
pub open spec fn at_least(c: Seq<u32>, m: Seq<u32>) -> bool
    decreases c.len(),
{
    if m.len() == 0 {
        true
    } else if c.len() == 0 {
        forall|i: int| 0 <= i < m.len() ==> m[i] == 0
    } else if c[0] > m[0] {
        true
    } else if c[0] < m[0] {
        false
    } else {
        at_least(c.drop_first(), m.drop_first())
    }
}

/// Compares two version strings by their numbers.
pub fn version_at_least(current: &str, minimum: &str) -> (res: bool)
    ensures
        res == at_least(numeric_version_spec(current@), numeric_version_spec(minimum@)),
{
    let c = parse_numeric_version(current);
    let m = parse_numeric_version(minimum);
    let mut i: usize = 0;
    assert(c@.skip(0) =~= c@);
    assert(m@.skip(0) =~= m@);
    loop
        invariant
            i <= c@.len() && i <= m@.len(),
            c@ == numeric_version_spec(current@),
            m@ == numeric_version_spec(minimum@),
            at_least(c@, m@) == at_least(c@.skip(i as int), m@.skip(i as int)),
        decreases c@.len() - i,
    {
        if i == m.len() {
            return true;
        }
        if i == c.len() {
            let mut j: usize = i;
            assert(c@.skip(i as int).len() == 0);
            while j < m.len()
                invariant
                    i <= j <= m@.len(),
                    i == c@.len(),
                    c@ == numeric_version_spec(current@),
                    m@ == numeric_version_spec(minimum@),
                    at_least(c@, m@) == at_least(c@.skip(i as int), m@.skip(i as int)),
                    forall|k: int| i <= k < j ==> m@[k] == 0,
                decreases m@.len() - j,
            {
                if m[j] != 0 {
                    assert(m@.skip(i as int)[j - i] != 0);
                    return false;
                }
                j = j + 1;
            }
            assert forall|k: int| 0 <= k < m@.skip(i as int).len() implies m@.skip(i as int)[k] == 0 by {
                assert(m@.skip(i as int)[k] == m@[i + k]);
            }
            return true;
        }
        if c[i] > m[i] {
            return true;
        }
        if c[i] < m[i] {
            return false;
        }
        assert(c@.skip(i as int).drop_first() =~= c@.skip(i + 1));
        assert(m@.skip(i as int).drop_first() =~= m@.skip(i + 1));
        i = i + 1;
    }
}

/// Every version is at least itself.
pub proof fn lemma_at_least_reflexive(v: Seq<u32>)
    ensures
        at_least(v, v),
    decreases v.len(),
{
    if v.len() > 0 {
        lemma_at_least_reflexive(v.drop_first());
    }
}

/// Trailing zeros of the minimum do not matter: `1.88` is at least `1.88.0`.
pub proof fn lemma_at_least_zero_tail(v: Seq<u32>, zeros: Seq<u32>)
    requires
        forall|i: int| 0 <= i < zeros.len() ==> zeros[i] == 0,
    ensures
        at_least(v, v + zeros),
    decreases v.len(),
{
    if v.len() > 0 {
        assert((v + zeros).drop_first() =~= v.drop_first() + zeros);
        lemma_at_least_zero_tail(v.drop_first(), zeros);
    } else {
        assert(v + zeros =~= zeros);
    }
}

/// A version padded with zeros to `n` numbers.
pub open spec fn zero_padded(v: Seq<u32>, n: nat) -> Seq<u32> {
    Seq::new(n, |i: int| if i < v.len() { v[i] } else { 0u32 })
}

/// Lexicographic order on versions of the same length.
pub open spec fn lex_at_least(a: Seq<u32>, b: Seq<u32>) -> bool
    decreases a.len(),
{
    if a.len() == 0 || b.len() == 0 {
        true
    } else if a[0] > b[0] {
        true
    } else if a[0] < b[0] {
        false
    } else {
        lex_at_least(a.drop_first(), b.drop_first())
    }
}

/// Comparing versions number by number is comparing them lexicographically
/// after padding both with zeros to a common length: `1.88` is at least
/// `1.88.0`, and `1` is not at least `1.0.1`.
pub proof fn lemma_at_least_is_padded_order(c: Seq<u32>, m: Seq<u32>, n: nat)
    requires
        c.len() <= n,
        m.len() <= n,
    ensures
        at_least(c, m) == lex_at_least(zero_padded(c, n), zero_padded(m, n)),
    decreases n,
{
    if n > 0 {
        let tc = if c.len() == 0 { c } else { c.drop_first() };
        let tm = if m.len() == 0 { m } else { m.drop_first() };
        lemma_at_least_is_padded_order(tc, tm, (n - 1) as nat);
        assert(zero_padded(c, n).drop_first() =~= zero_padded(tc, (n - 1) as nat));
        assert(zero_padded(m, n).drop_first() =~= zero_padded(tm, (n - 1) as nat));
        if m.len() == 0 {
            assert(at_least(tc, tm));
        } else if c.len() == 0 {
            assert(at_least(c, m) == (m[0] == 0 && at_least(tc, tm))) by {
                if at_least(c, m) {
                    assert(m[0] == 0);
                    assert forall|i: int| 0 <= i < tm.len() implies tm[i] == 0 by {
                        assert(tm[i] == m[i + 1]);
                    }
                }
                if m[0] == 0 && at_least(tc, tm) {
                    assert forall|i: int| 0 <= i < m.len() implies m[i] == 0 by {
                        if i > 0 {
                            assert(m[i] == tm[i - 1]);
                        }
                    }
                }
            }
        }
    } else {
        assert(m.len() == 0);
    }
}

// ---------------------------------------------------------------------------
// Checks
// ---------------------------------------------------------------------------

/// A workspace path as a single-quoted shell word, except `.`.
pub open spec fn workspace_arg_spec(root: Seq<char>) -> Seq<char> {
    if root == "."@ {
        root
    } else {
        "'"@ + replace_char_seq(root, '\'', "'\\''"@) + "'"@
    }
}

pub fn shell_workspace_arg(workspace_root: &str) -> (res: String)
    ensures
        res@ == workspace_arg_spec(workspace_root@),
{
    if str_eq(workspace_root, ".") {
        return String::from_str(workspace_root);
    }
    let mut out = String::from_str("'");
    out.append(replace_char(workspace_root, '\'', "'\\''").as_str());
    out.append("'");
    out
}

pub open spec fn surface_id_spec(surface: Seq<char>, kind: Seq<char>) -> Seq<char> {
    if surface == "app"@ && kind == "node"@ {
        "app-node"@
    } else if surface == "app"@ && kind == "npm"@ {
        "app-npm"@
    } else if surface == "app"@ && kind == "deps"@ {
        "app-deps"@
    } else if surface == "website"@ && kind == "node"@ {
        "website-node"@
    } else if surface == "website"@ && kind == "npm"@ {
        "website-npm"@
    } else if surface == "website"@ && kind == "deps"@ {
        "website-deps"@
    } else {
        "surface-check"@
    }
}

/// The id of a check of the browser app or docs site.
pub fn surface_check_id(surface: &str, kind: &str) -> (res: &'static str)
    ensures
        res@ == surface_id_spec(surface@, kind@),
{
    let app = str_eq(surface, "app");
    let website = str_eq(surface, "website");
    if app && str_eq(kind, "node") {
        "app-node"
    } else if app && str_eq(kind, "npm") {
        "app-npm"
    } else if app && str_eq(kind, "deps") {
        "app-deps"
    } else if website && str_eq(kind, "node") {
        "website-node"
    } else if website && str_eq(kind, "npm") {
        "website-npm"
    } else if website && str_eq(kind, "deps") {
        "website-deps"
    } else {
        "surface-check"
    }
}

pub open spec fn surface_label_spec(prefix: Seq<char>, suffix: Seq<char>) -> Seq<char> {
    if (prefix == "Browser app"@ || prefix == "Docs site"@) && (suffix == "Node"@ || suffix == "npm"@ || suffix
        == "dependencies"@) {
        prefix + " "@ + suffix
    } else {
        "Surface check"@
    }
}

/// The label of a check of the browser app or docs site.
pub fn surface_label(prefix: &str, suffix: &str) -> (res: &'static str)
    ensures
        res@ == surface_label_spec(prefix@, suffix@),
{
    let app = str_eq(prefix, "Browser app");
    let docs = str_eq(prefix, "Docs site");
    let node = str_eq(suffix, "Node");
    let npm = str_eq(suffix, "npm");
    let deps = str_eq(suffix, "dependencies");
    proof {
        reveal_strlit("Browser app");
        reveal_strlit("Docs site");
        reveal_strlit("Node");
        reveal_strlit("npm");
        reveal_strlit("dependencies");
        reveal_strlit(" ");
        reveal_strlit("Browser app Node");
        reveal_strlit("Browser app npm");
        reveal_strlit("Browser app dependencies");
        reveal_strlit("Docs site Node");
        reveal_strlit("Docs site npm");
        reveal_strlit("Docs site dependencies");
    }
    if app && node {
        assert("Browser app Node"@ =~= "Browser app"@ + " "@ + "Node"@);
        "Browser app Node"
    } else if app && npm {
        assert("Browser app npm"@ =~= "Browser app"@ + " "@ + "npm"@);
        "Browser app npm"
    } else if app && deps {
        assert("Browser app dependencies"@ =~= "Browser app"@ + " "@ + "dependencies"@);
        "Browser app dependencies"
    } else if docs && node {
        assert("Docs site Node"@ =~= "Docs site"@ + " "@ + "Node"@);
        "Docs site Node"
    } else if docs && npm {
        assert("Docs site npm"@ =~= "Docs site"@ + " "@ + "npm"@);
        "Docs site npm"
    } else if docs && deps {
        assert("Docs site dependencies"@ =~= "Docs site"@ + " "@ + "dependencies"@);
        "Docs site dependencies"
    } else {
        "Surface check"
    }
}

/// What `packageManager` of a `package.json` says.
#[derive(Debug)]
pub struct PackageMetadata {
    pub package_manager: Option<String>,
}

/// The npm version that `packageManager` pins, when it names npm.
pub open spec fn expected_npm_spec(pm: Option<Seq<char>>) -> Option<Seq<char>> {
    match pm {
        Some(v) => if is_prefix("npm@"@, v) { Some(v.skip(4)) } else { None },
        None => None,
    }
}

pub fn expected_npm_version(metadata: &PackageMetadata) -> (res: Option<String>)
    ensures
        match res {
            Some(s) => expected_npm_spec(crate::log::opt_view(metadata.package_manager)) == Some(s@),
            None => expected_npm_spec(crate::log::opt_view(metadata.package_manager)).is_none(),
        },
{
    match &metadata.package_manager {
        Some(v) => {
            if starts_with(v.as_str(), "npm@") {
                proof { reveal_strlit("npm@"); }
                let t = v.as_str().substring_char(4, v.as_str().unicode_len());
                assert(t@ =~= v@.skip(4));
                Some(String::from_str(t))
            } else {
                None
            }
        },
        None => None,
    }
}

pub open spec fn opt_str(o: Option<&str>) -> Option<Seq<char>> {
    match o {
        Some(s) => Some(s@),
        None => None,
    }
}

/// The Node check: a warning when `.nvmrc` expects another major version.
pub open spec fn node_status_spec(expected: Option<Seq<char>>, current: Seq<char>) -> DoctorStatus {
    match expected {
        Some(e) => {
            let v = numeric_version_spec(current);
            if v.len() > 0 && decimal(v[0] as nat) != e { DoctorStatus::Warning } else { DoctorStatus::Passed }
        },
        None => DoctorStatus::Passed,
    }
}

pub fn build_node_check(
    label_prefix: &str,
    relative_dir: &str,
    expected_major: Option<&str>,
    nvmrc_path: &str,
    current: &str,
) -> (res: DoctorCheck)
    ensures
        res.id@ == surface_id_spec(relative_dir@, "node"@),
        res.label@ == surface_label_spec(label_prefix@, "Node"@),
        res.status == node_status_spec(opt_str(expected_major), current@),
        res.message@ == match expected_major {
            Some(e) => "current "@ + current@ + "; `"@ + nvmrc_path@ + "` expects Node "@ + e@,
            None => "found "@ + current@,
        },
        res.status == DoctorStatus::Warning ==> res.fix is Some && res.fix->Some_0@ == "Switch runtimes with `nvm use \"$(cat "@
            + relative_dir@ + "/.nvmrc)\"`."@,
        res.status != DoctorStatus::Warning ==> res.fix is None,
{
    let status = match expected_major {
        Some(expected) => match parse_major_version(current) {
            Some(major) => if !str_eq(major.as_str(), expected) { DoctorStatus::Warning } else { DoctorStatus::Passed },
            None => DoctorStatus::Passed,
        },
        None => DoctorStatus::Passed,
    };
    let message = match expected_major {
        Some(expected) => {
            let mut m = String::from_str("current ");
            m.append(current);
            m.append("; `");
            m.append(nvmrc_path);
            m.append("` expects Node ");
            m.append(expected);
            m
        },
        None => {
            let mut m = String::from_str("found ");
            m.append(current);
            m
        },
    };
    let fix = if status == DoctorStatus::Warning {
        let mut f = String::from_str("Switch runtimes with `nvm use \"$(cat ");
        f.append(relative_dir);
        f.append("/.nvmrc)\"`.");
        Some(f)
    } else {
        None
    };
    DoctorCheck { id: surface_check_id(relative_dir, "node"), label: surface_label(label_prefix, "Node"), status, message, fix }
}

pub fn build_npm_check(
    label_prefix: &str,
    relative_dir: &str,
    expected_version: Option<&str>,
    package_json_path: &str,
    current: &str,
) -> (res: DoctorCheck)
    ensures
        res.id@ == surface_id_spec(relative_dir@, "npm"@),
        res.label@ == surface_label_spec(label_prefix@, "npm"@),
        res.status == (match expected_version {
            Some(e) => if current@ != e@ { DoctorStatus::Warning } else { DoctorStatus::Passed },
            None => DoctorStatus::Passed,
        }),
        res.message@ == match expected_version {
            Some(e) => "current npm "@ + current@ + "; `"@ + package_json_path@ + "` expects npm "@ + e@,
            None => "found npm "@ + current@,
        },
        res.status == DoctorStatus::Warning ==> res.fix is Some && res.fix->Some_0@ == "Use the pinned npm release declared in `"@
            + package_json_path@ + "`."@,
        res.status != DoctorStatus::Warning ==> res.fix is None,
{
    let status = match expected_version {
        Some(expected) => if !str_eq(current, expected) { DoctorStatus::Warning } else { DoctorStatus::Passed },
        None => DoctorStatus::Passed,
    };
    let message = match expected_version {
        Some(expected) => {
            let mut m = String::from_str("current npm ");
            m.append(current);
            m.append("; `");
            m.append(package_json_path);
            m.append("` expects npm ");
            m.append(expected);
            m
        },
        None => {
            let mut m = String::from_str("found npm ");
            m.append(current);
            m
        },
    };
    let fix = if status == DoctorStatus::Warning {
        let mut f = String::from_str("Use the pinned npm release declared in `");
        f.append(package_json_path);
        f.append("`.");
        Some(f)
    } else {
        None
    };
    DoctorCheck { id: surface_check_id(relative_dir, "npm"), label: surface_label(label_prefix, "npm"), status, message, fix }
}

/// The minimum Rust version check: skipped without `rust-version`, an error
/// when `rustc` could not be asked, a warning when it is too old.
pub fn build_rust_msrv_check(cargo_toml: &str, required: Option<&str>, current: Result<String, String>) -> (res: DoctorCheck)
    ensures
        res.id@ == "rust-msrv"@,
        res.label@ == "Rust MSRV"@,
        required is None ==> res.status == DoctorStatus::Skipped && res.fix is None
            && res.message@ == "`"@ + cargo_toml@ + "` does not declare `rust-version`"@,
        required matches Some(r) ==> match current {
            Ok(c) => {
                &&& res.status == (if at_least(numeric_version_spec(c@), numeric_version_spec(r@)) { DoctorStatus::Passed } else { DoctorStatus::Warning })
                &&& res.message@ == "current "@ + c@ + "; repository expects at least Rust "@ + r@
                &&& (res.status == DoctorStatus::Warning ==> res.fix is Some && res.fix->Some_0@ == "Run `rustup toolchain install "@ + r@
                    + "` and `cargo +"@ + r@ + " check --all-targets`."@)
                &&& (res.status == DoctorStatus::Passed ==> res.fix is None)
            },
            Err(m) => res.status == DoctorStatus::Error && res.message@ == m@ && res.fix is Some
                && res.fix->Some_0@ == "Install Rust "@ + r@ + " or newer from https://rustup.rs."@,
        },
{
    let required = match required {
        Some(r) => r,
        None => {
            let mut m = String::from_str("`");
            m.append(cargo_toml);
            m.append("` does not declare `rust-version`");
            return DoctorCheck { id: "rust-msrv", label: "Rust MSRV", status: DoctorStatus::Skipped, message: m, fix: None };
        },
    };
    match current {
        Ok(current) => {
            let status = if version_at_least(current.as_str(), required) { DoctorStatus::Passed } else { DoctorStatus::Warning };
            let fix = if status == DoctorStatus::Warning {
                let mut f = String::from_str("Run `rustup toolchain install ");
                f.append(required);
                f.append("` and `cargo +");
                f.append(required);
                f.append(" check --all-targets`.");
                Some(f)
            } else {
                None
            };
            let mut m = String::from_str("current ");
            m.append(current.as_str());
            m.append("; repository expects at least Rust ");
            m.append(required);
            DoctorCheck { id: "rust-msrv", label: "Rust MSRV", status, message: m, fix }
        },
        Err(message) => {
            let mut f = String::from_str("Install Rust ");
            f.append(required);
            f.append(" or newer from https://rustup.rs.");
            DoctorCheck { id: "rust-msrv", label: "Rust MSRV", status: DoctorStatus::Error, message, fix: Some(f) }
        },
    }
}

/// The `rust-version` that a `Cargo.toml` declares: the first line that
/// starts (after whitespace) with `rust-version = `, its value trimmed and
/// without quotes, when not empty.
pub open spec fn strip_quotes(s: Seq<char>) -> Seq<char>
    decreases s.len(),
{
    if s.len() > 0 && s[0] == '"' {
        strip_quotes(s.drop_first())
    } else if s.len() > 0 && s.last() == '"' {
        strip_quotes(s.drop_last())
    } else {
        s
    }
}

pub open spec fn line_rust_version(line: Seq<char>) -> Option<Seq<char>> {
    let t = trim_seq(line);
    if is_prefix("rust-version = "@, t) {
        let v = strip_quotes(trim_seq(t.skip(15)));
        if v.len() > 0 { Some(v) } else { None }
    } else {
        None
    }
}

fn without_quotes(s: &str) -> (res: String)
    ensures
        res@ == strip_quotes(s@),
{
    let mut i: usize = 0;
    let mut j: usize = s.unicode_len();
    assert(s@.subrange(0, s@.len() as int) =~= s@);
    while i < j && s.get_char(i) == '"'
        invariant
            i <= j <= s@.len(),
            j == s@.len(),
            strip_quotes(s@) == strip_quotes(s@.subrange(i as int, j as int)),
        decreases j - i,
    {
        assert(s@.subrange(i as int, j as int).drop_first() =~= s@.subrange(i + 1, j as int));
        i = i + 1;
    }
    while i < j && s.get_char(j - 1) == '"'
        invariant
            i <= j <= s@.len(),
            strip_quotes(s@) == strip_quotes(s@.subrange(i as int, j as int)),
            i < j ==> s@[i as int] != '"',
        decreases j - i,
    {
        let ghost sub = s@.subrange(i as int, j as int);
        assert(sub.drop_last() =~= s@.subrange(i as int, j - 1));
        assert(sub[0] != '"');
        j = j - 1;
    }
    let t = s.substring_char(i, j);
    String::from_str(t)
}

pub fn rust_version_of_line(line: &str) -> (res: Option<String>)
    ensures
        match res {
            Some(v) => line_rust_version(line@) == Some(v@),
            None => line_rust_version(line@).is_none(),
        },
{
    let t = trim(line);
    if !starts_with(t.as_str(), "rust-version = ") {
        return None;
    }
    proof { reveal_strlit("rust-version = "); }
    let rest = t.as_str().substring_char(15, t.as_str().unicode_len());
    assert(rest@ =~= t@.skip(15));
    let v = without_quotes(trim(rest).as_str());
    if v.as_str().unicode_len() > 0 {
        Some(v)
    } else {
        None
    }
}

/// The line of a check in the text report: status and label padded to 8 and
/// 24 characters, then the message, and its fix on the next line.
pub open spec fn pad_right(s: Seq<char>, width: nat) -> Seq<char> {
    if s.len() >= width { s } else { s + Seq::new((width - s.len()) as nat, |i: int| ' ') }
}

fn padded(s: &str, width: usize) -> (res: String)
    ensures
        res@ == pad_right(s@, width as nat),
{
    let n = s.unicode_len();
    let mut out = String::from_str(s);
    if n >= width {
        return out;
    }
    let mut k: usize = n;
    assert(out@ =~= s@ + Seq::new(0nat, |i: int| ' '));
    while k < width
        invariant
            n == s@.len(),
            n <= k <= width,
            out@ == s@ + Seq::new((k - n) as nat, |i: int| ' '),
        decreases width - k,
    {
        crate::text::push_char(&mut out, ' ');
        assert(out@ =~= s@ + Seq::new((k + 1 - n) as nat, |i: int| ' '));
        k = k + 1;
    }
    out
}

pub open spec fn check_lines(c: DoctorCheck) -> Seq<char> {
    pad_right(status_label_spec(c.status), 8) + " "@ + pad_right(c.label@, 24) + " "@ + c.message@ + "\n"@
        + match c.fix { Some(f) => "         fix: "@ + f@ + "\n"@, None => Seq::empty() }
}

pub open spec fn checks_text(cs: Seq<DoctorCheck>) -> Seq<char>
    decreases cs.len(),
{
    if cs.len() == 0 { Seq::empty() } else { checks_text(cs.drop_last()) + check_lines(cs.last()) }
}

/// The text report of `syu doctor`.
pub open spec fn doctor_text_spec(root: Seq<char>, s: DoctorSummary, cs: Seq<DoctorCheck>) -> Seq<char> {
    "workspace: "@ + root + "\n"@ + "summary: "@ + decimal(s.ok as nat) + " ok, "@ + decimal(s.warning as nat) + " warning, "@
        + decimal(s.error as nat) + " error, "@ + decimal(s.skipped as nat) + " skipped\n\n"@ + checks_text(cs)
}

pub fn render_doctor_text(workspace_root: &str, summary: &DoctorSummary, checks: &Vec<DoctorCheck>) -> (res: String)
    ensures
        res@ == doctor_text_spec(workspace_root@, *summary, checks@),
{
    let mut out = String::from_str("workspace: ");
    out.append(workspace_root);
    out.append("\n");
    out.append("summary: ");
    out.append(usize_to_string(summary.ok).as_str());
    out.append(" ok, ");
    out.append(usize_to_string(summary.warning).as_str());
    out.append(" warning, ");
    out.append(usize_to_string(summary.error).as_str());
    out.append(" error, ");
    out.append(usize_to_string(summary.skipped).as_str());
    out.append(" skipped\n\n");
    let ghost head = out@;
    let mut i: usize = 0;
    assert(checks@.take(0) =~= Seq::<DoctorCheck>::empty());
    while i < checks.len()
        invariant
            i <= checks@.len(),
            out@ == head + checks_text(checks@.take(i as int)),
        decreases checks@.len() - i,
    {
        assert(checks@.take(i + 1).drop_last() =~= checks@.take(i as int));
        assert(checks@.take(i + 1).last() == checks@[i as int]);
        let c = &checks[i];
        let ghost before = out@;
        out.append(padded(c.status.label(), 8).as_str());
        out.append(" ");
        out.append(padded(c.label, 24).as_str());
        out.append(" ");
        out.append(c.message.as_str());
        out.append("\n");
        match &c.fix {
            Some(f) => {
                out.append("         fix: ");
                out.append(f.as_str());
                out.append("\n");
            },
            None => {},
        }
        assert(out@ =~= before + check_lines(*c));
        i = i + 1;
    }
    assert(checks@.take(checks@.len() as int) =~= checks@);
    out
}


// ---------------------------------------------------------------------------
// The checks, from what was found on disk and on PATH
// ---------------------------------------------------------------------------

/// A check as plain values: id, label, status, message and fix.
pub open spec fn check_view(c: DoctorCheck) -> (Seq<char>, Seq<char>, DoctorStatus, Seq<char>, Option<Seq<char>>) {
    (c.id@, c.label@, c.status, c.message@, crate::log::opt_view(c.fix))
}

pub open spec fn check_views(v: Seq<DoctorCheck>) -> Seq<(Seq<char>, Seq<char>, DoctorStatus, Seq<char>, Option<Seq<char>>)> {
    Seq::new(v.len(), |i: int| check_view(v[i]))
}

/// Whether `syu.yaml` is there: a warning with the `syu init` command to run
/// when it is not.
pub open spec fn config_check_spec(config_path: Seq<char>, present: bool, root: Seq<char>) -> (Seq<char>, Seq<char>, DoctorStatus, Seq<char>, Option<Seq<char>>) {
    if present {
        ("workspace-config"@, "Workspace config"@, DoctorStatus::Passed, "found `"@ + config_path + "`"@, None)
    } else {
        (
            "workspace-config"@,
            "Workspace config"@,
            DoctorStatus::Warning,
            "`"@ + config_path + "` is missing, so workspace-specific readiness checks are limited"@,
            Some("Run `syu init "@ + workspace_arg_spec(root) + "` first."@),
        )
    }
}

pub fn workspace_config_check(config_path: &str, present: bool, workspace_root: &str) -> (res: DoctorCheck)
    ensures
        check_view(res) == config_check_spec(config_path@, present, workspace_root@),
{
    if present {
        let mut m = String::from_str("found `");
        m.append(config_path);
        m.append("`");
        DoctorCheck { id: "workspace-config", label: "Workspace config", status: DoctorStatus::Passed, message: m, fix: None }
    } else {
        let mut m = String::from_str("`");
        m.append(config_path);
        m.append("` is missing, so workspace-specific readiness checks are limited");
        let mut f = String::from_str("Run `syu init ");
        f.append(shell_workspace_arg(workspace_root).as_str());
        f.append("` first.");
        DoctorCheck { id: "workspace-config", label: "Workspace config", status: DoctorStatus::Warning, message: m, fix: Some(f) }
    }
}

/// A tool that only has to answer `--version`: found, or an error with how
/// to install it.
pub open spec fn tool_check_spec(id: Seq<char>, label: Seq<char>, install_fix: Seq<char>, version: Result<Seq<char>, Seq<char>>) -> (Seq<char>, Seq<char>, DoctorStatus, Seq<char>, Option<Seq<char>>) {
    match version {
        Ok(v) => (id, label, DoctorStatus::Passed, "found "@ + v, None),
        Err(m) => (id, label, DoctorStatus::Error, m, Some(install_fix)),
    }
}

pub open spec fn result_view(r: Result<String, String>) -> Result<Seq<char>, Seq<char>> {
    match r {
        Ok(v) => Ok(v@),
        Err(m) => Err(m@),
    }
}

pub fn tool_version_check(id: &'static str, label: &'static str, install_fix: &'static str, version: Result<String, String>) -> (res: DoctorCheck)
    ensures
        check_view(res) == tool_check_spec(id@, label@, install_fix@, result_view(version)),
{
    match version {
        Ok(v) => {
            let mut m = String::from_str("found ");
            m.append(v.as_str());
            DoctorCheck { id, label, status: DoctorStatus::Passed, message: m, fix: None }
        },
        Err(m) => DoctorCheck { id, label, status: DoctorStatus::Error, message: m, fix: Some(String::from_str(install_fix)) },
    }
}

fn copy_result(r: &Result<String, String>) -> (res: Result<String, String>)
    ensures
        result_view(res) == result_view(*r),
{
    match r {
        Ok(v) => Ok(String::from_str(v.as_str())),
        Err(m) => Err(String::from_str(m.as_str())),
    }
}

pub open spec fn msrv_check_spec(cargo_toml: Seq<char>, required: Option<Seq<char>>, current: Result<Seq<char>, Seq<char>>) -> (Seq<char>, Seq<char>, DoctorStatus, Seq<char>, Option<Seq<char>>) {
    match required {
        None => ("rust-msrv"@, "Rust MSRV"@, DoctorStatus::Skipped, "`"@ + cargo_toml + "` does not declare `rust-version`"@, None),
        Some(r) => match current {
            Ok(c) => if at_least(numeric_version_spec(c), numeric_version_spec(r)) {
                ("rust-msrv"@, "Rust MSRV"@, DoctorStatus::Passed, "current "@ + c + "; repository expects at least Rust "@ + r, None)
            } else {
                (
                    "rust-msrv"@,
                    "Rust MSRV"@,
                    DoctorStatus::Warning,
                    "current "@ + c + "; repository expects at least Rust "@ + r,
                    Some("Run `rustup toolchain install "@ + r + "` and `cargo +"@ + r + " check --all-targets`."@),
                )
            },
            Err(m) => ("rust-msrv"@, "Rust MSRV"@, DoctorStatus::Error, m, Some("Install Rust "@ + r + " or newer from https://rustup.rs."@)),
        },
    }
}

/// The Rust checks: the compiler, Cargo, and the minimum version that
/// `Cargo.toml` declares, from what `rustc --version` and `cargo --version`
/// answered.
pub open spec fn rust_checks_spec(cargo_toml: Seq<char>, required: Option<Seq<char>>, rustc: Result<Seq<char>, Seq<char>>, cargo: Result<Seq<char>, Seq<char>>) -> Seq<(Seq<char>, Seq<char>, DoctorStatus, Seq<char>, Option<Seq<char>>)> {
    seq![
        tool_check_spec("rustc-version"@, "Rust compiler"@, "Install Rust from https://rustup.rs before running contributor checks."@, rustc),
        tool_check_spec("cargo-version"@, "Cargo"@, "Install Rust/Cargo from https://rustup.rs before running contributor checks."@, cargo),
        msrv_check_spec(cargo_toml, required, rustc),
    ]
}

pub fn rust_toolchain_checks(cargo_toml: &str, required: Option<&str>, rustc: Result<String, String>, cargo: Result<String, String>) -> (res: Vec<DoctorCheck>)
    ensures
        check_views(res@) == rust_checks_spec(cargo_toml@, opt_str(required), result_view(rustc), result_view(cargo)),
{
    let ghost rv = result_view(rustc);
    let ghost cv = result_view(cargo);
    let mut out: Vec<DoctorCheck> = Vec::new();
    let again = copy_result(&rustc);
    out.push(tool_version_check("rustc-version", "Rust compiler", "Install Rust from https://rustup.rs before running contributor checks.", rustc));
    out.push(tool_version_check("cargo-version", "Cargo", "Install Rust/Cargo from https://rustup.rs before running contributor checks.", cargo));
    let msrv = build_rust_msrv_check(cargo_toml, required, again);
    assert(check_view(msrv) == msrv_check_spec(cargo_toml@, opt_str(required), rv));
    out.push(msrv);
    assert(check_views(out@) =~= rust_checks_spec(cargo_toml@, opt_str(required), rv, cv));
    out
}

/// What reading a `package.json` for its `packageManager` gave.
#[derive(Debug)]
pub enum PackageMetadataRead {
    Read(PackageMetadata),
    Unreadable,
    Unparsable,
}

/// What was found for one npm surface (the browser app or the docs site)
/// whose `package.json` is there.
#[derive(Debug)]
pub struct SurfaceProbe {
    /// The contents of `.nvmrc`, when it could be read.
    pub nvmrc: Option<String>,
    pub package: PackageMetadataRead,
    /// What `node --version` and `npm --version` answered.
    pub node_version: Result<String, String>,
    pub npm_version: Result<String, String>,
    pub lockfile_present: bool,
    pub node_modules_present: bool,
    pub install_marker_present: bool,
    /// When the lockfile and the install marker were last changed, in
    /// nanoseconds from the Unix epoch, when that could be read.
    pub lockfile_modified: Option<i128>,
    pub marker_modified: Option<i128>,
}

/// The Node version that `.nvmrc` expects: its trimmed text, when not empty.
pub open spec fn nvmrc_major_spec(raw: Option<Seq<char>>) -> Option<Seq<char>> {
    match raw {
        Some(r) => if trim_seq(r).len() > 0 { Some(trim_seq(r)) } else { None },
        None => None,
    }
}

pub open spec fn node_check_spec(prefix: Seq<char>, dir: Seq<char>, expected: Option<Seq<char>>, nvmrc: Seq<char>, version: Result<Seq<char>, Seq<char>>) -> (Seq<char>, Seq<char>, DoctorStatus, Seq<char>, Option<Seq<char>>) {
    let id = surface_id_spec(dir, "node"@);
    let label = surface_label_spec(prefix, "Node"@);
    match version {
        Ok(c) => {
            let status = node_status_spec(expected, c);
            let message = match expected {
                Some(e) => "current "@ + c + "; `"@ + nvmrc + "` expects Node "@ + e,
                None => "found "@ + c,
            };
            let fix = if status == DoctorStatus::Warning {
                Some("Switch runtimes with `nvm use \"$(cat "@ + dir + "/.nvmrc)\"`."@)
            } else {
                None
            };
            (id, label, status, message, fix)
        },
        Err(m) => (id, label, DoctorStatus::Error, m, Some("Install Node.js before running browser or docs-site workflows."@)),
    }
}

pub open spec fn package_read_view(p: PackageMetadataRead) -> Result<Option<Seq<char>>, bool> {
    match p {
        PackageMetadataRead::Read(m) => Ok(crate::log::opt_view(m.package_manager)),
        PackageMetadataRead::Unreadable => Err(true),
        PackageMetadataRead::Unparsable => Err(false),
    }
}

pub open spec fn npm_check_spec(prefix: Seq<char>, dir: Seq<char>, package: Result<Option<Seq<char>>, bool>, package_json: Seq<char>, version: Result<Seq<char>, Seq<char>>) -> (Seq<char>, Seq<char>, DoctorStatus, Seq<char>, Option<Seq<char>>) {
    let id = surface_id_spec(dir, "npm"@);
    let label = surface_label_spec(prefix, "npm"@);
    match package {
        Err(unreadable) => (
            id,
            label,
            DoctorStatus::Error,
            (if unreadable { "failed to read package metadata from `"@ } else { "failed to parse package metadata from `"@ }) + package_json + "`"@,
            Some("Fix the JSON syntax in `"@ + package_json + "` so the pinned npm requirement can be read."@),
        ),
        Ok(pm) => match version {
            Ok(c) => {
                let expected = expected_npm_spec(pm);
                let status = match expected {
                    Some(e) => if c != e { DoctorStatus::Warning } else { DoctorStatus::Passed },
                    None => DoctorStatus::Passed,
                };
                let message = match expected {
                    Some(e) => "current npm "@ + c + "; `"@ + package_json + "` expects npm "@ + e,
                    None => "found npm "@ + c,
                };
                let fix = if status == DoctorStatus::Warning {
                    Some("Use the pinned npm release declared in `"@ + package_json + "`."@)
                } else {
                    None
                };
                (id, label, status, message, fix)
            },
            Err(m) => (id, label, DoctorStatus::Error, m, Some("Install npm before running browser or docs-site workflows."@)),
        },
    }
}

/// Whether installed dependencies are older than the lockfile; unknown times
/// count as stale.
pub open spec fn needs_refresh_spec(lockfile: Option<i128>, marker: Option<i128>) -> bool {
    match (lockfile, marker) {
        (Some(l), Some(m)) => l > m,
        _ => true,
    }
}

pub fn dependency_install_needs_refresh(lockfile_time: Option<i128>, marker_time: Option<i128>) -> (res: bool)
    ensures
        res == needs_refresh_spec(lockfile_time, marker_time),
{
    match (lockfile_time, marker_time) {
        (Some(l), Some(m)) => l > m,
        _ => true,
    }
}

pub open spec fn deps_check_spec(
    prefix: Seq<char>,
    dir: Seq<char>,
    node_modules: Seq<char>,
    lockfile: Seq<char>,
    install_fix: Seq<char>,
    p: SurfaceProbe,
) -> (Seq<char>, Seq<char>, DoctorStatus, Seq<char>, Option<Seq<char>>) {
    let id = surface_id_spec(dir, "deps"@);
    let label = surface_label_spec(prefix, "dependencies"@);
    if !p.lockfile_present {
        (id, label, DoctorStatus::Skipped, "`"@ + lockfile + "` is not present"@, None)
    } else if !p.node_modules_present || !p.install_marker_present || needs_refresh_spec(p.lockfile_modified, p.marker_modified) {
        (id, label, DoctorStatus::Warning, "`"@ + node_modules + "` is missing or stale compared with `"@ + lockfile + "`"@, Some("Run `"@ + install_fix + "`."@))
    } else {
        (id, label, DoctorStatus::Passed, "`"@ + node_modules + "` is present and newer than the lockfile marker"@, None)
    }
}

/// The checks of one npm surface below the workspace root: Node, npm and
/// installed dependencies, all skipped when it has no `package.json`.
pub open spec fn surface_checks_spec(root: Seq<char>, dir: Seq<char>, prefix: Seq<char>, install_fix: Seq<char>, probe: Option<SurfaceProbe>) -> Seq<(Seq<char>, Seq<char>, DoctorStatus, Seq<char>, Option<Seq<char>>)> {
    let surface = join_path_spec(root, dir);
    let package_json = join_path_spec(surface, "package.json"@);
    match probe {
        None => {
            let m = "`"@ + package_json + "` is not present"@;
            seq![
                (surface_id_spec(dir, "node"@), surface_label_spec(prefix, "Node"@), DoctorStatus::Skipped, m, None),
                (surface_id_spec(dir, "npm"@), surface_label_spec(prefix, "npm"@), DoctorStatus::Skipped, m, None),
                (surface_id_spec(dir, "deps"@), surface_label_spec(prefix, "dependencies"@), DoctorStatus::Skipped, m, None),
            ]
        },
        Some(p) => seq![
            node_check_spec(prefix, dir, nvmrc_major_spec(crate::log::opt_view(p.nvmrc)), join_path_spec(surface, ".nvmrc"@), result_view(p.node_version)),
            npm_check_spec(prefix, dir, package_read_view(p.package), package_json, result_view(p.npm_version)),
            deps_check_spec(prefix, dir, join_path_spec(surface, "node_modules"@), join_path_spec(surface, "package-lock.json"@), install_fix, p),
        ],
    }
}

fn skipped_check(id: &'static str, label: &'static str, message: &str) -> (res: DoctorCheck)
    ensures
        check_view(res) == (id@, label@, DoctorStatus::Skipped, message@, None::<Seq<char>>),
{
    DoctorCheck { id, label, status: DoctorStatus::Skipped, message: String::from_str(message), fix: None }
}

fn surface_node_check(label_prefix: &str, relative_dir: &str, nvmrc: &Option<String>, nvmrc_path: &str, version: Result<String, String>) -> (res: DoctorCheck)
    ensures
        check_view(res) == node_check_spec(label_prefix@, relative_dir@, nvmrc_major_spec(crate::log::opt_view(*nvmrc)), nvmrc_path@, result_view(version)),
{
    let expected: Option<String> = match nvmrc {
        Some(raw) => {
            let t = trim(raw.as_str());
            if t.unicode_len() > 0 { Some(t) } else { None }
        },
        None => None,
    };
    let ghost ev = crate::log::opt_view(expected);
    assert(ev == nvmrc_major_spec(crate::log::opt_view(*nvmrc)));
    match version {
        Ok(current) => {
            let expected_ref: Option<&str> = match &expected {
                Some(e) => Some(e.as_str()),
                None => None,
            };
            assert(opt_str(expected_ref) == ev);
            build_node_check(label_prefix, relative_dir, expected_ref, nvmrc_path, current.as_str())
        },
        Err(message) => DoctorCheck {
            id: surface_check_id(relative_dir, "node"),
            label: surface_label(label_prefix, "Node"),
            status: DoctorStatus::Error,
            message,
            fix: Some(String::from_str("Install Node.js before running browser or docs-site workflows.")),
        },
    }
}

fn surface_npm_check(label_prefix: &str, relative_dir: &str, package: &PackageMetadataRead, package_json: &str, version: Result<String, String>) -> (res: DoctorCheck)
    ensures
        check_view(res) == npm_check_spec(label_prefix@, relative_dir@, package_read_view(*package), package_json@, result_view(version)),
{
    let metadata = match package {
        PackageMetadataRead::Read(m) => m,
        PackageMetadataRead::Unreadable | PackageMetadataRead::Unparsable => {
            let head = match package {
                PackageMetadataRead::Unreadable => "failed to read package metadata from `",
                _ => "failed to parse package metadata from `",
            };
            let mut m = String::from_str(head);
            m.append(package_json);
            m.append("`");
            let mut f = String::from_str("Fix the JSON syntax in `");
            f.append(package_json);
            f.append("` so the pinned npm requirement can be read.");
            return DoctorCheck {
                id: surface_check_id(relative_dir, "npm"),
                label: surface_label(label_prefix, "npm"),
                status: DoctorStatus::Error,
                message: m,
                fix: Some(f),
            };
        },
    };
    let expected = expected_npm_version(metadata);
    match version {
        Ok(current) => {
            let expected_ref: Option<&str> = match &expected {
                Some(e) => Some(e.as_str()),
                None => None,
            };
            assert(opt_str(expected_ref) == expected_npm_spec(crate::log::opt_view(metadata.package_manager)));
            build_npm_check(label_prefix, relative_dir, expected_ref, package_json, current.as_str())
        },
        Err(message) => DoctorCheck {
            id: surface_check_id(relative_dir, "npm"),
            label: surface_label(label_prefix, "npm"),
            status: DoctorStatus::Error,
            message,
            fix: Some(String::from_str("Install npm before running browser or docs-site workflows.")),
        },
    }
}

fn surface_dependency_check(label_prefix: &str, relative_dir: &str, node_modules: &str, lockfile: &str, install_fix: &str, p: &SurfaceProbe) -> (res: DoctorCheck)
    ensures
        check_view(res) == deps_check_spec(label_prefix@, relative_dir@, node_modules@, lockfile@, install_fix@, *p),
{
    let id = surface_check_id(relative_dir, "deps");
    let label = surface_label(label_prefix, "dependencies");
    if !p.lockfile_present {
        let mut m = String::from_str("`");
        m.append(lockfile);
        m.append("` is not present");
        return DoctorCheck { id, label, status: DoctorStatus::Skipped, message: m, fix: None };
    }
    let needs_install = !p.node_modules_present || !p.install_marker_present
        || dependency_install_needs_refresh(p.lockfile_modified, p.marker_modified);
    if needs_install {
        let mut m = String::from_str("`");
        m.append(node_modules);
        m.append("` is missing or stale compared with `");
        m.append(lockfile);
        m.append("`");
        let mut f = String::from_str("Run `");
        f.append(install_fix);
        f.append("`.");
        DoctorCheck { id, label, status: DoctorStatus::Warning, message: m, fix: Some(f) }
    } else {
        let mut m = String::from_str("`");
        m.append(node_modules);
        m.append("` is present and newer than the lockfile marker");
        DoctorCheck { id, label, status: DoctorStatus::Passed, message: m, fix: None }
    }
}

/// The Node, npm and dependency checks of one npm surface; `probe` is what
/// was found when its `package.json` is there, and `None` when it is not.
pub fn surface_checks(workspace_root: &str, relative_dir: &str, label_prefix: &str, install_fix: &str, probe: Option<SurfaceProbe>) -> (res: Vec<DoctorCheck>)
    ensures
        check_views(res@) == surface_checks_spec(workspace_root@, relative_dir@, label_prefix@, install_fix@, probe),
{
    let surface = join_path(workspace_root, relative_dir);
    let package_json = join_path(surface.as_str(), "package.json");
    let mut out: Vec<DoctorCheck> = Vec::new();
    match probe {
        None => {
            let mut m = String::from_str("`");
            m.append(package_json.as_str());
            m.append("` is not present");
            out.push(skipped_check(surface_check_id(relative_dir, "node"), surface_label(label_prefix, "Node"), m.as_str()));
            out.push(skipped_check(surface_check_id(relative_dir, "npm"), surface_label(label_prefix, "npm"), m.as_str()));
            out.push(skipped_check(surface_check_id(relative_dir, "deps"), surface_label(label_prefix, "dependencies"), m.as_str()));
            assert(check_views(out@) =~= surface_checks_spec(workspace_root@, relative_dir@, label_prefix@, install_fix@, probe));
        },
        Some(p) => {
            let ghost pv = p;
            let nvmrc_path = join_path(surface.as_str(), ".nvmrc");
            let node_modules = join_path(surface.as_str(), "node_modules");
            let lockfile = join_path(surface.as_str(), "package-lock.json");
            let deps = surface_dependency_check(label_prefix, relative_dir, node_modules.as_str(), lockfile.as_str(), install_fix, &p);
            let SurfaceProbe { nvmrc, package, node_version, npm_version, .. } = p;
            out.push(surface_node_check(label_prefix, relative_dir, &nvmrc, nvmrc_path.as_str(), node_version));
            out.push(surface_npm_check(label_prefix, relative_dir, &package, package_json.as_str(), npm_version));
            out.push(deps);
            assert(check_views(out@) =~= surface_checks_spec(workspace_root@, relative_dir@, label_prefix@, install_fix@, Some(pv)));
        },
    }
    out
}

/// The Playwright check: skipped without the app's `package.json`, a warning
/// before the app's dependencies are installed or while no Chromium bundle
/// was found.
pub open spec fn playwright_check_spec(app_root: Seq<char>, package_present: bool, modules_present: bool, chromium: Option<Seq<char>>) -> (Seq<char>, Seq<char>, DoctorStatus, Seq<char>, Option<Seq<char>>) {
    let id = "playwright-chromium"@;
    let label = "Playwright Chromium"@;
    if !package_present {
        (id, label, DoctorStatus::Skipped, "`"@ + join_path_spec(app_root, "package.json"@) + "` is not present"@, None)
    } else if !modules_present {
        (
            id,
            label,
            DoctorStatus::Warning,
            "app dependencies are missing, so browser readiness cannot be checked yet"@,
            Some("Run `scripts/ci/pinned-npm.sh install app && scripts/ci/pinned-npm.sh exec app -- ci` first."@),
        )
    } else {
        match chromium {
            Some(path) => (id, label, DoctorStatus::Passed, "found an installed Chromium bundle under `"@ + path + "`"@, None),
            None => (
                id,
                label,
                DoctorStatus::Warning,
                "no installed Playwright Chromium bundle was found in the standard cache locations"@,
                Some("Run `scripts/ci/pinned-npm.sh install app && scripts/ci/pinned-npm.sh exec app -- exec playwright install --with-deps chromium`."@),
            ),
        }
    }
}

pub fn build_playwright_check(app_root: &str, package_present: bool, modules_present: bool, chromium_path: Option<&str>) -> (res: DoctorCheck)
    ensures
        check_view(res) == playwright_check_spec(app_root@, package_present, modules_present, opt_str(chromium_path)),
{
    if !package_present {
        let package_json = join_path(app_root, "package.json");
        let mut m = String::from_str("`");
        m.append(package_json.as_str());
        m.append("` is not present");
        return DoctorCheck { id: "playwright-chromium", label: "Playwright Chromium", status: DoctorStatus::Skipped, message: m, fix: None };
    }
    if !modules_present {
        return DoctorCheck {
            id: "playwright-chromium",
            label: "Playwright Chromium",
            status: DoctorStatus::Warning,
            message: String::from_str("app dependencies are missing, so browser readiness cannot be checked yet"),
            fix: Some(String::from_str("Run `scripts/ci/pinned-npm.sh install app && scripts/ci/pinned-npm.sh exec app -- ci` first.")),
        };
    }
    match chromium_path {
        Some(path) => {
            let mut m = String::from_str("found an installed Chromium bundle under `");
            m.append(path);
            m.append("`");
            DoctorCheck { id: "playwright-chromium", label: "Playwright Chromium", status: DoctorStatus::Passed, message: m, fix: None }
        },
        None => DoctorCheck {
            id: "playwright-chromium",
            label: "Playwright Chromium",
            status: DoctorStatus::Warning,
            message: String::from_str("no installed Playwright Chromium bundle was found in the standard cache locations"),
            fix: Some(String::from_str(
                "Run `scripts/ci/pinned-npm.sh install app && scripts/ci/pinned-npm.sh exec app -- exec playwright install --with-deps chromium`.",
            )),
        },
    }
}

/// Where Playwright keeps its browsers: `PLAYWRIGHT_BROWSERS_PATH` first, then
/// the caches below the home directory, then below `LOCALAPPDATA`.
pub open spec fn cache_roots_spec(custom: Option<Seq<char>>, home: Option<Seq<char>>, local_app_data: Option<Seq<char>>) -> Seq<Seq<char>> {
    (match custom {
        Some(c) => seq![c],
        None => Seq::empty(),
    }) + (match home {
        Some(h) => seq![join_path_spec(h, ".cache/ms-playwright"@), join_path_spec(h, "Library/Caches/ms-playwright"@)],
        None => Seq::empty(),
    }) + (match local_app_data {
        Some(l) => seq![join_path_spec(l, "ms-playwright"@)],
        None => Seq::empty(),
    })
}

pub fn playwright_cache_roots_from(custom: Option<&str>, home: Option<&str>, local_app_data: Option<&str>) -> (res: Vec<String>)
    ensures
        views(res@) == cache_roots_spec(opt_str(custom), opt_str(home), opt_str(local_app_data)),
{
    let mut roots: Vec<String> = Vec::new();
    let ghost a: Seq<Seq<char>> = match opt_str(custom) {
        Some(c) => seq![c],
        None => Seq::empty(),
    };
    if let Some(c) = custom {
        roots.push(String::from_str(c));
    }
    assert(views(roots@) =~= a);
    if let Some(h) = home {
        let ghost before = views(roots@);
        let first = join_path(h, ".cache/ms-playwright");
        let second = join_path(h, "Library/Caches/ms-playwright");
        roots.push(first);
        roots.push(second);
        assert(views(roots@) =~= before + seq![first@, second@]);
    }
    let ghost b = views(roots@);
    assert(b =~= a + (match opt_str(home) {
        Some(h) => seq![join_path_spec(h, ".cache/ms-playwright"@), join_path_spec(h, "Library/Caches/ms-playwright"@)],
        None => Seq::<Seq<char>>::empty(),
    }));
    if let Some(l) = local_app_data {
        let third = join_path(l, "ms-playwright");
        roots.push(third);
        assert(views(roots@) =~= b + seq![third@]);
    } else {
        assert(views(roots@) =~= b + Seq::<Seq<char>>::empty());
    }
    roots
}

/// The home directory: `HOME`, else `USERPROFILE`.
pub fn home_dir_from(home: Option<String>, userprofile: Option<String>) -> (res: Option<String>)
    ensures
        res == (if home is Some { home } else { userprofile }),
{
    match home {
        Some(h) => Some(h),
        None => userprofile,
    }
}


/// Every readiness check of a workspace, in the order they are shown, and
/// how many ended in each status.
#[derive(Debug)]
pub struct DoctorReport {
    pub checks: Vec<DoctorCheck>,
    pub summary: DoctorSummary,
}

pub open spec fn app_install_fix() -> Seq<char> {
    "scripts/ci/pinned-npm.sh install app && scripts/ci/pinned-npm.sh exec app -- ci"@
}

pub open spec fn website_install_fix() -> Seq<char> {
    "scripts/ci/pinned-npm.sh install website && scripts/ci/pinned-npm.sh exec website -- ci"@
}

/// The checks of a workspace: its configuration, the Rust toolchain, the
/// browser app and the docs site, and Playwright's browser.
pub open spec fn doctor_checks_spec(
    root: Seq<char>,
    config_present: bool,
    required: Option<Seq<char>>,
    rustc: Result<Seq<char>, Seq<char>>,
    cargo: Result<Seq<char>, Seq<char>>,
    app: Option<SurfaceProbe>,
    website: Option<SurfaceProbe>,
    chromium: Option<Seq<char>>,
) -> Seq<(Seq<char>, Seq<char>, DoctorStatus, Seq<char>, Option<Seq<char>>)> {
    let app_root = join_path_spec(root, "app"@);
    seq![config_check_spec(join_path_spec(root, "syu.yaml"@), config_present, root)]
        + rust_checks_spec(join_path_spec(root, "Cargo.toml"@), required, rustc, cargo)
        + surface_checks_spec(root, "app"@, "Browser app"@, app_install_fix(), app)
        + surface_checks_spec(root, "website"@, "Docs site"@, website_install_fix(), website)
        + seq![playwright_check_spec(app_root, app is Some, app is Some && app->Some_0.node_modules_present, chromium)]
}

pub fn build_doctor_report(
    workspace_root: &str,
    config_present: bool,
    required_rust: Option<&str>,
    rustc: Result<String, String>,
    cargo: Result<String, String>,
    app: Option<SurfaceProbe>,
    website: Option<SurfaceProbe>,
    chromium_path: Option<&str>,
) -> (res: DoctorReport)
    ensures
        check_views(res.checks@) == doctor_checks_spec(workspace_root@, config_present, opt_str(required_rust), result_view(rustc),
            result_view(cargo), app, website, opt_str(chromium_path)),
        res.summary.ok == count_status(res.checks@, DoctorStatus::Passed),
        res.summary.warning == count_status(res.checks@, DoctorStatus::Warning),
        res.summary.error == count_status(res.checks@, DoctorStatus::Error),
        res.summary.skipped == count_status(res.checks@, DoctorStatus::Skipped),
{
    let ghost app_v = app;
    let ghost website_v = website;
    let ghost rv = result_view(rustc);
    let ghost cv = result_view(cargo);
    let config_path = join_path(workspace_root, "syu.yaml");
    let cargo_toml = join_path(workspace_root, "Cargo.toml");
    let app_root = join_path(workspace_root, "app");
    let app_package = app.is_some();
    let app_modules = match &app {
        Some(p) => p.node_modules_present,
        None => false,
    };
    let mut checks: Vec<DoctorCheck> = Vec::new();
    checks.push(workspace_config_check(config_path.as_str(), config_present, workspace_root));
    let ghost c0 = check_views(checks@);
    let rust = rust_toolchain_checks(cargo_toml.as_str(), required_rust, rustc, cargo);
    let app_checks = surface_checks(workspace_root, "app", "Browser app", "scripts/ci/pinned-npm.sh install app && scripts/ci/pinned-npm.sh exec app -- ci", app);
    let website_checks = surface_checks(
        workspace_root,
        "website",
        "Docs site",
        "scripts/ci/pinned-npm.sh install website && scripts/ci/pinned-npm.sh exec website -- ci",
        website,
    );
    let playwright = build_playwright_check(app_root.as_str(), app_package, app_modules, chromium_path);
    let ghost parts = seq![c0, check_views(rust@), check_views(app_checks@), check_views(website_checks@), seq![check_view(playwright)]];
    append_checks(&mut checks, rust);
    append_checks(&mut checks, app_checks);
    append_checks(&mut checks, website_checks);
    let ghost before = check_views(checks@);
    checks.push(playwright);
    assert(check_views(checks@) =~= before.push(check_view(playwright)));
    assert(check_views(checks@) =~= doctor_checks_spec(workspace_root@, config_present, opt_str(required_rust), rv, cv, app_v, website_v,
        opt_str(chromium_path)));
    let summary = DoctorSummary::from_checks(&checks);
    DoctorReport { checks, summary }
}

fn append_checks(out: &mut Vec<DoctorCheck>, more: Vec<DoctorCheck>)
    ensures
        check_views(final(out)@) == check_views(old(out)@) + check_views(more@),
{
    let ghost start = out@;
    let mut rest = more;
    let ghost moved = rest@;
    out.append(&mut rest);
    assert(out@ == start + moved);
    assert(check_views(out@) =~= check_views(start) + check_views(moved));
}

} // verus!
