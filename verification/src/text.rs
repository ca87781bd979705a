use vstd::prelude::*;

verus! {

// ---------------------------------------------------------------------------
// Character classes
// ---------------------------------------------------------------------------

/// The Unicode `White_Space` property, which is what `char::is_whitespace`,
/// `str::trim` and `str::split_whitespace` use.
pub open spec fn is_ws(c: char) -> bool {
    ||| c == ' '
    ||| ('\t' <= c && c <= '\r')
    ||| c == '\u{85}'
    ||| c == '\u{A0}'
    ||| c == '\u{1680}'
    ||| ('\u{2000}' <= c && c <= '\u{200A}')
    ||| c == '\u{2028}'
    ||| c == '\u{2029}'
    ||| c == '\u{202F}'
    ||| c == '\u{205F}'
    ||| c == '\u{3000}'
}

pub fn is_whitespace(c: char) -> (res: bool)
    ensures
        res == is_ws(c),
{
    c == ' ' || ('\t' <= c && c <= '\r') || c == '\u{85}' || c == '\u{A0}' || c == '\u{1680}'
        || ('\u{2000}' <= c && c <= '\u{200A}') || c == '\u{2028}' || c == '\u{2029}' || c
        == '\u{202F}' || c == '\u{205F}' || c == '\u{3000}'
}

pub open spec fn is_upper(c: char) -> bool {
    'A' <= c && c <= 'Z'
}

pub open spec fn is_lower(c: char) -> bool {
    'a' <= c && c <= 'z'
}

pub open spec fn is_digit(c: char) -> bool {
    '0' <= c && c <= '9'
}

pub open spec fn is_alnum(c: char) -> bool {
    is_upper(c) || is_lower(c) || is_digit(c)
}

pub open spec fn upper_char(c: char) -> char {
    if is_lower(c) {
        ((c as u32) - 32) as char
    } else {
        c
    }
}

pub open spec fn lower_char(c: char) -> char {
    if is_upper(c) {
        ((c as u32) + 32) as char
    } else {
        c
    }
}

pub fn ascii_upper(c: char) -> (res: char)
    ensures
        res == upper_char(c),
{
    if 'a' <= c && c <= 'z' {
        let b: u8 = c as u8;
        (b - 32) as char
    } else {
        c
    }
}

pub fn ascii_lower(c: char) -> (res: char)
    ensures
        res == lower_char(c),
{
    if 'A' <= c && c <= 'Z' {
        let b: u8 = c as u8;
        (b + 32) as char
    } else {
        c
    }
}

pub open spec fn upper_seq(s: Seq<char>) -> Seq<char> {
    Seq::new(s.len(), |i: int| upper_char(s[i]))
}

pub open spec fn lower_seq(s: Seq<char>) -> Seq<char> {
    Seq::new(s.len(), |i: int| lower_char(s[i]))
}

// ---------------------------------------------------------------------------
// Trimming
// ---------------------------------------------------------------------------

pub open spec fn trim_start_seq(s: Seq<char>) -> Seq<char>
    decreases s.len(),
{
    if s.len() > 0 && is_ws(s[0]) {
        trim_start_seq(s.drop_first())
    } else {
        s
    }
}

pub open spec fn trim_end_seq(s: Seq<char>) -> Seq<char>
    decreases s.len(),
{
    if s.len() > 0 && is_ws(s.last()) {
        trim_end_seq(s.drop_last())
    } else {
        s
    }
}

/// What `str::trim` leaves of a string.
pub open spec fn trim_seq(s: Seq<char>) -> Seq<char> {
    trim_end_seq(trim_start_seq(s))
}

/// A string is blank when trimming leaves nothing.
pub open spec fn is_blank(s: Seq<char>) -> bool {
    trim_seq(s).len() == 0
}

proof fn lemma_trim_start_shape(s: Seq<char>)
    ensures
        trim_start_seq(s).len() <= s.len(),
        trim_start_seq(s) =~= s.skip(s.len() - trim_start_seq(s).len()),
        forall|i: int| 0 <= i < s.len() - trim_start_seq(s).len() ==> is_ws(#[trigger] s[i]),
        trim_start_seq(s).len() > 0 ==> !is_ws(trim_start_seq(s)[0]),
    decreases s.len(),
{
    if s.len() > 0 && is_ws(s[0]) {
        lemma_trim_start_shape(s.drop_first());
        let t = trim_start_seq(s.drop_first());
        assert forall|i: int| 0 <= i < s.len() - t.len() implies is_ws(#[trigger] s[i]) by {
            if i > 0 {
                assert(s[i] == s.drop_first()[i - 1]);
            }
        }
    }
}

proof fn lemma_trim_end_shape(s: Seq<char>)
    ensures
        trim_end_seq(s).len() <= s.len(),
        trim_end_seq(s) =~= s.take(trim_end_seq(s).len() as int),
        forall|i: int| trim_end_seq(s).len() <= i < s.len() ==> is_ws(#[trigger] s[i]),
        trim_end_seq(s).len() > 0 ==> !is_ws(trim_end_seq(s).last()),
    decreases s.len(),
{
    if s.len() > 0 && is_ws(s.last()) {
        lemma_trim_end_shape(s.drop_last());
        let t = trim_end_seq(s.drop_last());
        assert forall|i: int| t.len() <= i < s.len() implies is_ws(#[trigger] s[i]) by {
            if i < s.len() - 1 {
                assert(s[i] == s.drop_last()[i]);
            }
        }
    }
}

/// Trimming a string that neither starts nor ends with whitespace changes nothing.
pub proof fn lemma_trim_fixed(s: Seq<char>)
    requires
        s.len() > 0 ==> !is_ws(s[0]) && !is_ws(s.last()),
    ensures
        trim_seq(s) == s,
{
    assert(trim_start_seq(s) == s);
    assert(trim_end_seq(s) == s);
}

/// Trimming is idempotent.
pub proof fn lemma_trim_idempotent(s: Seq<char>)
    ensures
        trim_seq(trim_seq(s)) == trim_seq(s),
{
    let a = trim_start_seq(s);
    let t = trim_end_seq(a);
    lemma_trim_start_shape(s);
    lemma_trim_end_shape(a);
    if t.len() > 0 {
        assert(t[0] == a[0]);
    }
    lemma_trim_fixed(t);
}

proof fn lemma_trim_start_skip(s: Seq<char>, i: int)
    requires
        0 <= i < s.len(),
        is_ws(s[i]),
    ensures
        trim_start_seq(s.skip(i)) == trim_start_seq(s.skip(i + 1)),
{
    assert(s.skip(i).drop_first() =~= s.skip(i + 1));
}

proof fn lemma_trim_end_take(s: Seq<char>, j: int)
    requires
        0 < j <= s.len(),
        is_ws(s[j - 1]),
    ensures
        trim_end_seq(s.take(j)) == trim_end_seq(s.take(j - 1)),
{
    assert(s.take(j).drop_last() =~= s.take(j - 1));
}

/// The bounds `[start, end)` of the trimmed part of `s`.
pub fn trim_bounds(s: &str) -> (res: (usize, usize))
    ensures
        res.0 <= res.1 <= s@.len(),
        s@.subrange(res.0 as int, res.1 as int) == trim_seq(s@),
{
    let n = s.unicode_len();
    let mut i: usize = 0;
    assert(s@.skip(0) =~= s@);
    while i < n && is_whitespace(s.get_char(i))
        invariant
            n == s@.len(),
            i <= n,
            trim_start_seq(s@) == trim_start_seq(s@.skip(i as int)),
        decreases n - i,
    {
        proof {
            lemma_trim_start_skip(s@, i as int);
        }
        i = i + 1;
    }
    assert(trim_start_seq(s@.skip(i as int)) == s@.skip(i as int));
    let ghost a = s@.skip(i as int);
    let mut j: usize = n;
    assert(a.take((j - i) as int) =~= a);
    while j > i && is_whitespace(s.get_char(j - 1))
        invariant
            n == s@.len(),
            i <= j <= n,
            a == s@.skip(i as int),
            trim_end_seq(a) == trim_end_seq(a.take((j - i) as int)),
        decreases j,
    {
        proof {
            assert(a[(j - 1 - i) as int] == s@[(j - 1) as int]);
            lemma_trim_end_take(a, (j - i) as int);
        }
        j = j - 1;
    }
    assert(trim_end_seq(a.take((j - i) as int)) == a.take((j - i) as int));
    assert(a.take((j - i) as int) =~= s@.subrange(i as int, j as int));
    (i, j)
}

/// `str::trim` as an owned string.
pub fn trim(s: &str) -> (res: String)
    ensures
        res@ == trim_seq(s@),
{
    let (i, j) = trim_bounds(s);
    let t = s.substring_char(i, j);
    String::from_str(t)
}

/// Whether `str::trim` would leave nothing.
pub fn blank(s: &str) -> (res: bool)
    ensures
        res == is_blank(s@),
{
    let (i, j) = trim_bounds(s);
    i == j
}

// ---------------------------------------------------------------------------
// Building strings
// ---------------------------------------------------------------------------

/// Appends one character to a string (`String::push`).
#[verifier::external_body]
pub fn push_char(s: &mut String, c: char)
    ensures
        final(s)@ == old(s)@.push(c),
{
    s.push(c);
}

/// A string holding the characters of `s`.
pub fn from_chars(s: Seq<char>, v: &Vec<char>) -> (res: String)
    requires
        v@ == s,
    ensures
        res@ == s,
{
    let mut out = String::new();
    let mut i: usize = 0;
    while i < v.len()
        invariant
            i <= v.len(),
            v@ == s,
            out@ == s.take(i as int),
        decreases v.len() - i,
    {
        push_char(&mut out, v[i]);
        assert(s.take(i as int).push(s[i as int]) =~= s.take(i + 1));
        i = i + 1;
    }
    assert(s.take(v.len() as int) =~= s);
    out
}

/// Copies a string slice into an owned string.
pub fn owned(s: &str) -> (res: String)
    ensures
        res@ == s@,
{
    String::from_str(s)
}

/// `a` followed by `b`.
pub fn cat(a: &str, b: &str) -> (res: String)
    ensures
        res@ == a@ + b@,
{
    let mut out = String::from_str(a);
    out.append(b);
    out
}

/// `a`, `b` and `c` in a row.
pub fn cat3(a: &str, b: &str, c: &str) -> (res: String)
    ensures
        res@ == a@ + b@ + c@,
{
    let mut out = String::from_str(a);
    out.append(b);
    out.append(c);
    out
}

/// `str::to_ascii_uppercase`.
pub fn to_upper(s: &str) -> (res: String)
    ensures
        res@ == upper_seq(s@),
{
    let n = s.unicode_len();
    let mut out = String::new();
    let mut i: usize = 0;
    while i < n
        invariant
            n == s@.len(),
            i <= n,
            out@ =~= upper_seq(s@).take(i as int),
        decreases n - i,
    {
        let c = ascii_upper(s.get_char(i));
        push_char(&mut out, c);
        i = i + 1;
    }
    out
}

/// `str::to_ascii_lowercase`.
pub fn to_lower(s: &str) -> (res: String)
    ensures
        res@ == lower_seq(s@),
{
    let n = s.unicode_len();
    let mut out = String::new();
    let mut i: usize = 0;
    while i < n
        invariant
            n == s@.len(),
            i <= n,
            out@ =~= lower_seq(s@).take(i as int),
        decreases n - i,
    {
        let c = ascii_lower(s.get_char(i));
        push_char(&mut out, c);
        i = i + 1;
    }
    out
}

// ---------------------------------------------------------------------------
// Comparing
// ---------------------------------------------------------------------------

/// Equality of two string slices.
pub fn str_eq(a: &str, b: &str) -> (res: bool)
    ensures
        res == (a@ == b@),
{
    let n = a.unicode_len();
    if n != b.unicode_len() {
        return false;
    }
    let mut i: usize = 0;
    while i < n
        invariant
            n == a@.len(),
            n == b@.len(),
            i <= n,
            forall|k: int| 0 <= k < i ==> a@[k] == b@[k],
        decreases n - i,
    {
        if a.get_char(i) != b.get_char(i) {
            return false;
        }
        i = i + 1;
    }
    assert(a@ =~= b@);
    true
}

pub open spec fn is_prefix(p: Seq<char>, s: Seq<char>) -> bool {
    p.len() <= s.len() && s.take(p.len() as int) == p
}

pub open spec fn is_suffix(p: Seq<char>, s: Seq<char>) -> bool {
    p.len() <= s.len() && s.skip(s.len() - p.len()) == p
}

pub open spec fn occurs_at(sub: Seq<char>, s: Seq<char>, i: int) -> bool {
    0 <= i && i + sub.len() <= s.len() && s.subrange(i, i + sub.len()) == sub
}

pub open spec fn contains_seq(s: Seq<char>, sub: Seq<char>) -> bool {
    exists|i: int| occurs_at(sub, s, i)
}

fn matches_at(s: &str, sub: &str, at: usize) -> (res: bool)
    requires
        at + sub@.len() <= s@.len(),
    ensures
        res == (s@.subrange(at as int, at + sub@.len()) == sub@),
{
    let m = sub.unicode_len();
    let total = s.unicode_len();
    let mut k: usize = 0;
    while k < m
        invariant
            m == sub@.len(),
            total == s@.len(),
            at + m <= s@.len(),
            k <= m,
            forall|t: int| 0 <= t < k ==> s@[at + t] == sub@[t],
        decreases m - k,
    {
        if s.get_char(at + k) != sub.get_char(k) {
            assert(s@.subrange(at as int, at + m)[k as int] != sub@[k as int]);
            return false;
        }
        k = k + 1;
    }
    assert(s@.subrange(at as int, at + m) =~= sub@);
    true
}

/// `str::starts_with` for a string pattern.
pub fn starts_with(s: &str, p: &str) -> (res: bool)
    ensures
        res == is_prefix(p@, s@),
{
    if p.unicode_len() > s.unicode_len() {
        return false;
    }
    let r = matches_at(s, p, 0);
    assert(s@.subrange(0, p@.len() as int) =~= s@.take(p@.len() as int));
    r
}

/// `str::ends_with` for a string pattern.
pub fn ends_with(s: &str, p: &str) -> (res: bool)
    ensures
        res == is_suffix(p@, s@),
{
    let n = s.unicode_len();
    let m = p.unicode_len();
    if m > n {
        return false;
    }
    let r = matches_at(s, p, n - m);
    assert(s@.subrange((n - m) as int, n as int) =~= s@.skip(n - m));
    r
}

/// `str::contains` for a string pattern.
pub fn contains(s: &str, sub: &str) -> (res: bool)
    ensures
        res == contains_seq(s@, sub@),
{
    let n = s.unicode_len();
    let m = sub.unicode_len();
    if m > n {
        return false;
    }
    let mut i: usize = 0;
    while i < n - m
        invariant
            n == s@.len(),
            m == sub@.len(),
            m <= n,
            i <= n - m,
            forall|k: int| 0 <= k < i ==> !occurs_at(sub@, s@, k),
        decreases n - m - i,
    {
        if matches_at(s, sub, i) {
            assert(occurs_at(sub@, s@, i as int));
            return true;
        }
        i = i + 1;
    }
    if matches_at(s, sub, i) {
        assert(occurs_at(sub@, s@, i as int));
        return true;
    }
    assert forall|k: int| !occurs_at(sub@, s@, k) by {
        if 0 <= k && k > i {
            assert(k + m > n);
        }
    }
    false
}

/// Whether the character `c` occurs in `s`.
pub fn has_char(s: &str, c: char) -> (res: bool)
    ensures
        res == s@.contains(c),
{
    let n = s.unicode_len();
    let mut i: usize = 0;
    while i < n
        invariant
            n == s@.len(),
            i <= n,
            forall|k: int| 0 <= k < i ==> s@[k] != c,
        decreases n - i,
    {
        if s.get_char(i) == c {
            return true;
        }
        i = i + 1;
    }
    false
}

// ---------------------------------------------------------------------------
// Splitting and joining
// ---------------------------------------------------------------------------

/// `str::split` on one separator character, as character sequences.
pub open spec fn split_seq(s: Seq<char>, sep: char) -> Seq<Seq<char>>
    decreases s.len(),
{
    if s.len() == 0 {
        seq![Seq::<char>::empty()]
    } else {
        let r = split_seq(s.drop_last(), sep);
        if s.last() == sep {
            r.push(Seq::<char>::empty())
        } else {
            r.update(r.len() - 1, r.last().push(s.last()))
        }
    }
}

pub proof fn lemma_split_nonempty(s: Seq<char>, sep: char)
    ensures
        split_seq(s, sep).len() >= 1,
    decreases s.len(),
{
    if s.len() > 0 {
        lemma_split_nonempty(s.drop_last(), sep);
    }
}

/// The views of a vector of strings.
pub open spec fn views(v: Seq<String>) -> Seq<Seq<char>> {
    Seq::new(v.len(), |i: int| v[i]@)
}

/// `str::split` on one separator character.
pub fn split_char(s: &str, sep: char) -> (res: Vec<String>)
    ensures
        views(res@) == split_seq(s@, sep),
{
    let n = s.unicode_len();
    let mut parts: Vec<String> = Vec::new();
    let mut cur = String::new();
    let mut i: usize = 0;
    assert(s@.take(0) =~= Seq::<char>::empty());
    while i < n
        invariant
            n == s@.len(),
            i <= n,
            split_seq(s@.take(i as int), sep) =~= views(parts@).push(cur@),
        decreases n - i,
    {
        let c = s.get_char(i);
        proof {
            lemma_split_nonempty(s@.take(i as int), sep);
            assert(s@.take(i + 1).drop_last() =~= s@.take(i as int));
            assert(s@.take(i + 1).last() == c);
        }
        if c == sep {
            let done = cur;
            parts.push(done);
            cur = String::new();
            assert(views(parts@) =~= views(parts@).take(parts@.len() - 1).push(done@));
        } else {
            push_char(&mut cur, c);
        }
        i = i + 1;
    }
    assert(s@.take(n as int) =~= s@);
    let ghost before = views(parts@);
    parts.push(cur);
    assert(views(parts@) =~= before.push(cur@));
    parts
}

/// `slice::join` with a string separator, on character sequences.
pub open spec fn join_seq(parts: Seq<Seq<char>>, sep: Seq<char>) -> Seq<char>
    decreases parts.len(),
{
    if parts.len() == 0 {
        Seq::<char>::empty()
    } else if parts.len() == 1 {
        parts[0]
    } else {
        join_seq(parts.drop_last(), sep) + sep + parts.last()
    }
}

/// `slice::join` with a string separator.
pub fn join(parts: &Vec<String>, sep: &str) -> (res: String)
    ensures
        res@ == join_seq(views(parts@), sep@),
{
    let mut out = String::new();
    let mut i: usize = 0;
    while i < parts.len()
        invariant
            i <= parts.len(),
            out@ == join_seq(views(parts@).take(i as int), sep@),
        decreases parts.len() - i,
    {
        proof {
            assert(views(parts@).take(i + 1).drop_last() =~= views(parts@).take(i as int));
            assert(views(parts@).take(i + 1).last() == parts@[i as int]@);
        }
        if i > 0 {
            out.append(sep);
        }
        out.append(parts[i].as_str());
        proof {
            if i == 0 {
                assert(views(parts@).take(1)[0] == parts@[0]@);
                assert(out@ =~= parts@[0]@);
            }
        }
        i = i + 1;
    }
    assert(views(parts@).take(parts.len() as int) =~= views(parts@));
    out
}

/// The whitespace-separated words of a string (`str::split_whitespace`).
pub open spec fn words(s: Seq<char>) -> Seq<Seq<char>>
    decreases s.len(),
{
    if s.len() == 0 {
        Seq::empty()
    } else {
        let r = words(s.drop_last());
        if is_ws(s.last()) {
            r
        } else if s.len() >= 2 && !is_ws(s[s.len() - 2]) && r.len() > 0 {
            r.update(r.len() - 1, r.last().push(s.last()))
        } else {
            r.push(seq![s.last()])
        }
    }
}

/// A sequence of words joined by single spaces: `value.split_whitespace().join(" ")`.
pub open spec fn collapse_seq(s: Seq<char>) -> Seq<char> {
    join_seq(words(s), " "@)
}

/// `str::split_whitespace`, collected.
pub fn split_whitespace(s: &str) -> (res: Vec<String>)
    ensures
        views(res@) == words(s@),
{
    let n = s.unicode_len();
    let mut parts: Vec<String> = Vec::new();
    let mut cur = String::new();
    let mut in_word = false;
    let mut i: usize = 0;
    assert(s@.take(0) =~= Seq::<char>::empty());
    while i < n
        invariant
            n == s@.len(),
            i <= n,
            in_word == (i > 0 && !is_ws(s@[i - 1])),
            in_word ==> words(s@.take(i as int)) =~= views(parts@).push(cur@),
            !in_word ==> words(s@.take(i as int)) =~= views(parts@),
        decreases n - i,
    {
        let c = s.get_char(i);
        proof {
            assert(s@.take(i + 1).drop_last() =~= s@.take(i as int));
            assert(s@.take(i + 1).last() == c);
            if i > 0 {
                assert(s@.take(i + 1)[i - 1] == s@[i - 1]);
            }
        }
        if is_whitespace(c) {
            if in_word {
                let done = cur;
                parts.push(done);
                cur = String::new();
                assert(views(parts@) =~= views(parts@).take(parts@.len() - 1).push(done@));
            }
            in_word = false;
        } else {
            if !in_word {
                cur = String::new();
                push_char(&mut cur, c);
                assert(cur@ =~= seq![c]);
            } else {
                push_char(&mut cur, c);
            }
            in_word = true;
        }
        i = i + 1;
    }
    assert(s@.take(n as int) =~= s@);
    if in_word {
        let ghost before = views(parts@);
        parts.push(cur);
        assert(views(parts@) =~= before.push(cur@));
    }
    parts
}

/// Collapses every run of whitespace into one space and drops the outer whitespace.
pub fn collapse_whitespace(value: &str) -> (res: String)
    ensures
        res@ == collapse_seq(value@),
{
    let parts = split_whitespace(value);
    join(&parts, " ")
}

// ---------------------------------------------------------------------------
// Numbers
// ---------------------------------------------------------------------------

pub open spec fn digit_char(d: nat) -> char {
    (('0' as u32) + d) as char
}

/// The decimal digits of `n`, as `usize::to_string` writes them.
pub open spec fn decimal(n: nat) -> Seq<char>
    decreases n,
{
    if n < 10 {
        seq![digit_char(n)]
    } else {
        decimal(n / 10).push(digit_char(n % 10))
    }
}

fn digit(d: usize) -> (res: char)
    requires
        d < 10,
    ensures
        res == digit_char(d as nat),
{
    let b: u8 = 48u8 + (d as u8);
    b as char
}

/// `usize::to_string`.
pub fn usize_to_string(n: usize) -> (res: String)
    ensures
        res@ == decimal(n as nat),
    decreases n,
{
    if n < 10 {
        let mut s = String::new();
        push_char(&mut s, digit(n));
        assert(s@ =~= seq![digit_char(n as nat)]);
        s
    } else {
        let mut s = usize_to_string(n / 10);
        push_char(&mut s, digit(n % 10));
        s
    }
}

/// `str::replace` of one character by a string.
pub open spec fn replace_char_seq(s: Seq<char>, c: char, with: Seq<char>) -> Seq<char>
    decreases s.len(),
{
    if s.len() == 0 {
        Seq::empty()
    } else if s.last() == c {
        replace_char_seq(s.drop_last(), c, with) + with
    } else {
        replace_char_seq(s.drop_last(), c, with).push(s.last())
    }
}

pub fn replace_char(s: &str, c: char, with: &str) -> (res: String)
    ensures
        res@ == replace_char_seq(s@, c, with@),
{
    let n = s.unicode_len();
    let mut out = String::new();
    let mut i: usize = 0;
    assert(s@.take(0) =~= Seq::<char>::empty());
    while i < n
        invariant
            n == s@.len(),
            i <= n,
            out@ == replace_char_seq(s@.take(i as int), c, with@),
        decreases n - i,
    {
        let d = s.get_char(i);
        proof {
            assert(s@.take(i + 1).drop_last() =~= s@.take(i as int));
            assert(s@.take(i + 1).last() == d);
        }
        if d == c {
            out.append(with);
        } else {
            push_char(&mut out, d);
        }
        i = i + 1;
    }
    assert(s@.take(n as int) =~= s@);
    out
}

} // verus!
