//! Lexical handling of slash-separated relative paths.
use vstd::prelude::*;

use crate::text::{join, join_seq, push_char, split_char, split_seq, str_eq, views};

verus! {

/// The parts of a path that `Path::components` yields as names: without
/// empty parts and `.`.
pub open spec fn named_parts_spec(parts: Seq<Seq<char>>) -> Seq<Seq<char>>
    decreases parts.len(),
{
    if parts.len() == 0 {
        Seq::empty()
    } else {
        let prev = named_parts_spec(parts.drop_last());
        if parts.last().len() > 0 && parts.last() != "."@ {
            prev.push(parts.last())
        } else {
            prev
        }
    }
}

pub open spec fn path_parts(path: Seq<char>) -> Seq<Seq<char>> {
    named_parts_spec(split_seq(path, '/'))
}

pub fn named_parts(path: &str) -> (res: Vec<String>)
    ensures
        views(res@) == path_parts(path@),
{
    let parts = split_char(path, '/');
    let ghost all = views(parts@);
    let mut out: Vec<String> = Vec::new();
    let mut i: usize = 0;
    assert(all.take(0) =~= Seq::<Seq<char>>::empty());
    while i < parts.len()
        invariant
            i <= parts@.len(),
            all == views(parts@),
            views(out@) == named_parts_spec(all.take(i as int)),
        decreases parts@.len() - i,
    {
        assert(all.take(i + 1).drop_last() =~= all.take(i as int));
        assert(all.take(i + 1).last() == parts@[i as int]@);
        let p = parts[i].as_str();
        if p.unicode_len() > 0 && !str_eq(p, ".") {
            let ghost before = out@;
            out.push(parts[i].clone());
            assert(views(out@) =~= views(before).push(parts@[i as int]@));
        }
        i = i + 1;
    }
    assert(all.take(parts@.len() as int) =~= all);
    out
}

/// Lexical normalisation: empty parts and `.` dropped, and `..` taking away
/// the name before it; a `..` with no name before it stays.
pub open spec fn norm_fold(parts: Seq<Seq<char>>) -> Seq<Seq<char>>
    decreases parts.len(),
{
    if parts.len() == 0 {
        Seq::empty()
    } else {
        let prev = norm_fold(parts.drop_last());
        let x = parts.last();
        if x.len() == 0 || x == "."@ {
            prev
        } else if x == ".."@ && prev.len() > 0 && prev.last() != ".."@ {
            prev.drop_last()
        } else {
            prev.push(x)
        }
    }
}

pub open spec fn normalized_parts(path: Seq<char>) -> Seq<Seq<char>> {
    norm_fold(split_seq(path, '/'))
}

pub open spec fn is_absolute(path: Seq<char>) -> bool {
    path.len() > 0 && path[0] == '/'
}

pub fn path_is_absolute(path: &str) -> (res: bool)
    ensures
        res == is_absolute(path@),
{
    path.unicode_len() > 0 && path.get_char(0) == '/'
}

/// The normalised parts of a path.
pub fn normalize_parts(path: &str) -> (res: Vec<String>)
    ensures
        views(res@) == normalized_parts(path@),
{
    let parts = split_char(path, '/');
    let ghost all = views(parts@);
    let mut out: Vec<String> = Vec::new();
    let mut i: usize = 0;
    assert(all.take(0) =~= Seq::<Seq<char>>::empty());
    while i < parts.len()
        invariant
            i <= parts@.len(),
            all == views(parts@),
            views(out@) == norm_fold(all.take(i as int)),
        decreases parts@.len() - i,
    {
        assert(all.take(i + 1).drop_last() =~= all.take(i as int));
        assert(all.take(i + 1).last() == parts@[i as int]@);
        let p = parts[i].as_str();
        let ghost before = out@;
        if p.unicode_len() == 0 || str_eq(p, ".") {
        } else if str_eq(p, "..") && out.len() > 0 && !str_eq(out[out.len() - 1].as_str(), "..") {
            assert(views(before).last() == before[before.len() - 1]@);
            out.pop();
            assert(views(out@) =~= views(before).drop_last());
        } else {
            if out.len() > 0 {
                assert(views(before).last() == before[before.len() - 1]@);
            }
            out.push(parts[i].clone());
            assert(views(out@) =~= views(before).push(parts@[i as int]@));
        }
        i = i + 1;
    }
    assert(all.take(parts@.len() as int) =~= all);
    out
}

/// A path normalised lexically, written with single forward slashes.
pub open spec fn normalize_relative_spec(path: Seq<char>) -> Seq<char> {
    (if is_absolute(path) { "/"@ } else { Seq::empty() }) + join_seq(normalized_parts(path), "/"@)
}

pub fn normalize_relative_path(path: &str) -> (res: String)
    ensures
        res@ == normalize_relative_spec(path@),
{
    let parts = normalize_parts(path);
    let joined = join(&parts, "/");
    if path_is_absolute(path) {
        let mut out = String::from_str("/");
        out.append(joined.as_str());
        out
    } else {
        proof { reveal_strlit(""); }
        let mut out = String::new();
        out.append(joined.as_str());
        out
    }
}

pub fn contains_part(parts: &Vec<String>, name: &str) -> (res: bool)
    ensures
        res == views(parts@).contains(name@),
{
    let mut i: usize = 0;
    while i < parts.len()
        invariant
            i <= parts@.len(),
            forall|k: int| 0 <= k < i ==> (#[trigger] parts@[k])@ != name@,
        decreases parts@.len() - i,
    {
        if str_eq(parts[i].as_str(), name) {
            assert(views(parts@)[i as int] == name@);
            return true;
        }
        i = i + 1;
    }
    assert forall|k: int| 0 <= k < views(parts@).len() implies views(parts@)[k] != name@ by {
        assert(views(parts@)[k] == parts@[k]@);
    }
    false
}

/// The rest of a path below a root, compared part by part
/// (`Path::strip_prefix`); both absolute or both relative.
pub open spec fn strip_root_spec(path: Seq<char>, root: Seq<char>) -> Option<Seq<char>> {
    let p = path_parts(path);
    let r = path_parts(root);
    if is_absolute(path) == is_absolute(root) && r.len() <= p.len() && p.take(r.len() as int) == r {
        Some(join_seq(p.skip(r.len() as int), "/"@))
    } else {
        None
    }
}

pub fn strip_root(path: &str, root: &str) -> (res: Option<String>)
    ensures
        match res {
            Some(s) => strip_root_spec(path@, root@) == Some(s@),
            None => strip_root_spec(path@, root@).is_none(),
        },
{
    if path_is_absolute(path) != path_is_absolute(root) {
        return None;
    }
    let p = named_parts(path);
    let r = named_parts(root);
    if r.len() > p.len() {
        return None;
    }
    let mut i: usize = 0;
    while i < r.len()
        invariant
            i <= r@.len(),
            r@.len() <= p@.len(),
            views(p@) == path_parts(path@),
            views(r@) == path_parts(root@),
            is_absolute(path@) == is_absolute(root@),
            forall|k: int| 0 <= k < i ==> (#[trigger] p@[k])@ == r@[k]@,
        decreases r@.len() - i,
    {
        if !str_eq(p[i].as_str(), r[i].as_str()) {
            assert(views(p@)[i as int] == p@[i as int]@);
            assert(views(r@)[i as int] == r@[i as int]@);
            assert(views(p@).take(r@.len() as int)[i as int] != views(r@)[i as int]);
            assert(views(p@).take(r@.len() as int) != views(r@));
            return None;
        }
        i = i + 1;
    }
    assert(views(p@).take(r@.len() as int) =~= views(r@));
    let mut rest: Vec<String> = Vec::new();
    let mut j: usize = r.len();
    while j < p.len()
        invariant
            r@.len() <= j <= p@.len(),
            rest@.len() == j - r@.len(),
            forall|k: int| 0 <= k < rest@.len() ==> (#[trigger] rest@[k])@ == p@[r@.len() + k]@,
        decreases p@.len() - j,
    {
        rest.push(p[j].clone());
        j = j + 1;
    }
    assert(views(rest@) =~= views(p@).skip(r@.len() as int));
    Some(join(&rest, "/"))
}


/// `Path::starts_with`: the root's parts begin the path's parts.
pub open spec fn starts_with_path(path: Seq<char>, root: Seq<char>) -> bool {
    strip_root_spec(path, root).is_some()
}

pub fn path_starts_with(path: &str, root: &str) -> (res: bool)
    ensures
        res == starts_with_path(path@, root@),
{
    strip_root(path, root).is_some()
}

/// `Path`'s `==`: the same parts, both absolute or both relative.
pub open spec fn same_path(a: Seq<char>, b: Seq<char>) -> bool {
    is_absolute(a) == is_absolute(b) && path_parts(a) == path_parts(b)
}

pub fn paths_equal(a: &str, b: &str) -> (res: bool)
    ensures
        res == same_path(a@, b@),
{
    if path_is_absolute(a) != path_is_absolute(b) {
        return false;
    }
    let pa = named_parts(a);
    let pb = named_parts(b);
    if pa.len() != pb.len() {
        assert(views(pa@).len() != views(pb@).len());
        return false;
    }
    let mut i: usize = 0;
    while i < pa.len()
        invariant
            i <= pa@.len(),
            pa@.len() == pb@.len(),
            views(pa@) == path_parts(a@),
            views(pb@) == path_parts(b@),
            forall|k: int| 0 <= k < i ==> (#[trigger] pa@[k])@ == pb@[k]@,
        decreases pa@.len() - i,
    {
        if !str_eq(pa[i].as_str(), pb[i].as_str()) {
            assert(views(pa@)[i as int] != views(pb@)[i as int]);
            return false;
        }
        i = i + 1;
    }
    assert(views(pa@) =~= views(pb@));
    true
}

/// `PathBuf::push`: an absolute path replaces the base; otherwise a slash goes
/// between them unless the base is empty or already ends with one.
pub open spec fn join_path_spec(base: Seq<char>, rest: Seq<char>) -> Seq<char> {
    if is_absolute(rest) || base.len() == 0 {
        rest
    } else if base.last() == '/' {
        base + rest
    } else {
        base + seq!['/'] + rest
    }
}

pub fn join_path(base: &str, rest: &str) -> (res: String)
    ensures
        res@ == join_path_spec(base@, rest@),
{
    if path_is_absolute(rest) || base.unicode_len() == 0 {
        return String::from_str(rest);
    }
    let mut out = String::from_str(base);
    if base.get_char(base.unicode_len() - 1) != '/' {
        push_char(&mut out, '/');
    }
    let ghost head = out@;
    out.append(rest);
    assert(out@ =~= join_path_spec(base@, rest@));
    out
}

/// The position of the last `.` of a name, or -1.
pub open spec fn last_dot(s: Seq<char>) -> int
    decreases s.len(),
{
    if s.len() == 0 {
        -1
    } else if s.last() == '.' {
        s.len() - 1
    } else {
        last_dot(s.drop_last())
    }
}

proof fn lemma_last_dot(s: Seq<char>)
    ensures
        -1 <= last_dot(s) < s.len(),
        last_dot(s) >= 0 ==> s[last_dot(s)] == '.',
        forall|k: int| last_dot(s) < k < s.len() ==> s[k] != '.',
    decreases s.len(),
{
    if s.len() > 0 && s.last() != '.' {
        lemma_last_dot(s.drop_last());
        assert forall|k: int| last_dot(s) < k < s.len() implies s[k] != '.' by {
            if k < s.len() - 1 {
                assert(s.drop_last()[k] == s[k]);
            }
        }
    }
}

/// `Path::extension`: what follows the last `.` of the file name, unless the
/// name is `..` or that dot opens it.
pub open spec fn extension_spec(path: Seq<char>) -> Option<Seq<char>> {
    let parts = path_parts(path);
    if parts.len() == 0 || parts.last() == ".."@ {
        None
    } else {
        let d = last_dot(parts.last());
        if d > 0 {
            Some(parts.last().skip(d + 1))
        } else {
            None
        }
    }
}

pub fn path_extension(path: &str) -> (res: Option<String>)
    ensures
        match res {
            Some(e) => extension_spec(path@) == Some(e@),
            None => extension_spec(path@).is_none(),
        },
{
    let parts = named_parts(path);
    if parts.len() == 0 {
        return None;
    }
    let name = parts[parts.len() - 1].as_str();
    let ghost nv = name@;
    assert(views(parts@).last() == nv);
    if str_eq(name, "..") {
        return None;
    }
    let n = name.unicode_len();
    let mut d: usize = n;
    while d > 0 && name.get_char(d - 1) != '.'
        invariant
            d <= n,
            n == nv.len(),
            nv == name@,
            forall|k: int| d <= k < n ==> nv[k] != '.',
        decreases d,
    {
        d = d - 1;
    }
    proof {
        lemma_last_dot(nv);
        if d > 0 {
            assert(nv[d - 1] == '.');
            if last_dot(nv) > d - 1 {
                assert(nv[last_dot(nv)] == '.');
            }
            if last_dot(nv) < d - 1 {
                assert(nv[d - 1] != '.');
            }
        } else {
            if last_dot(nv) >= 0 {
                assert(nv[last_dot(nv)] == '.');
            }
        }
    }
    if d <= 1 {
        return None;
    }
    let mut out = String::new();
    let mut k: usize = d;
    proof {
        reveal_strlit("");
    }
    while k < n
        invariant
            d <= k <= n,
            n == nv.len(),
            nv == name@,
            out@ == nv.subrange(d as int, k as int),
        decreases n - k,
    {
        let c = name.get_char(k);
        push_char(&mut out, c);
        assert(out@ =~= nv.subrange(d as int, k + 1));
        k = k + 1;
    }
    assert(out@ =~= nv.skip(d as int));
    Some(out)
}

} // verus!
