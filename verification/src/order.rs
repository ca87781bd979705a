use vstd::prelude::*;

verus! {

/// Lexicographic comparison of character sequences by code point: -1, 0 or 1.
/// It agrees with `str`'s `Ord`, which compares UTF-8 bytes, because UTF-8
/// preserves the order of code points.
pub open spec fn seq_order(a: Seq<char>, b: Seq<char>) -> int
    decreases a.len(),
{
    if a.len() == 0 {
        if b.len() == 0 {
            0
        } else {
            -1
        }
    } else if b.len() == 0 {
        1
    } else if a[0] < b[0] {
        -1
    } else if a[0] > b[0] {
        1
    } else {
        seq_order(a.drop_first(), b.drop_first())
    }
}

pub proof fn lemma_order_range(a: Seq<char>, b: Seq<char>)
    ensures
        -1 <= seq_order(a, b) <= 1,
    decreases a.len(),
{
    if a.len() > 0 && b.len() > 0 && a[0] == b[0] {
        lemma_order_range(a.drop_first(), b.drop_first());
    }
}

pub proof fn lemma_order_eq(a: Seq<char>, b: Seq<char>)
    ensures
        (seq_order(a, b) == 0) == (a == b),
    decreases a.len(),
{
    if a.len() > 0 && b.len() > 0 && a[0] == b[0] {
        lemma_order_eq(a.drop_first(), b.drop_first());
        if a.drop_first() == b.drop_first() {
            assert(a =~= seq![a[0]] + a.drop_first());
            assert(b =~= seq![b[0]] + b.drop_first());
        }
        if a == b {
            assert(a.drop_first() =~= b.drop_first());
        }
    } else if a.len() == 0 && b.len() == 0 {
        assert(a =~= b);
    } else if a.len() > 0 && b.len() > 0 {
        assert(a[0] != b[0]);
    }
}

pub proof fn lemma_order_antisym(a: Seq<char>, b: Seq<char>)
    ensures
        seq_order(a, b) == -seq_order(b, a),
    decreases a.len(),
{
    if a.len() > 0 && b.len() > 0 && a[0] == b[0] {
        lemma_order_antisym(a.drop_first(), b.drop_first());
    }
}

pub proof fn lemma_order_trans(a: Seq<char>, b: Seq<char>, c: Seq<char>)
    requires
        seq_order(a, b) <= 0,
        seq_order(b, c) <= 0,
    ensures
        seq_order(a, c) <= 0,
        seq_order(a, b) < 0 || seq_order(b, c) < 0 ==> seq_order(a, c) < 0,
    decreases a.len(),
{
    lemma_order_range(a, b);
    lemma_order_range(b, c);
    if a.len() > 0 && b.len() > 0 && c.len() > 0 && a[0] == b[0] && b[0] == c[0] {
        lemma_order_trans(a.drop_first(), b.drop_first(), c.drop_first());
    }
}

/// Compares two strings as `str`'s `Ord` does.
pub fn str_order(a: &str, b: &str) -> (res: i8)
    ensures
        res as int == seq_order(a@, b@),
{
    let n = a.unicode_len();
    let m = b.unicode_len();
    let mut i: usize = 0;
    assert(a@.skip(0) =~= a@);
    assert(b@.skip(0) =~= b@);
    while i < n && i < m
        invariant
            n == a@.len(),
            m == b@.len(),
            i <= n,
            i <= m,
            seq_order(a@, b@) == seq_order(a@.skip(i as int), b@.skip(i as int)),
        decreases n - i,
    {
        let x = a.get_char(i);
        let y = b.get_char(i);
        assert(a@.skip(i as int)[0] == x);
        assert(b@.skip(i as int)[0] == y);
        if x < y {
            return -1;
        }
        if x > y {
            return 1;
        }
        assert(a@.skip(i as int).drop_first() =~= a@.skip(i + 1));
        assert(b@.skip(i as int).drop_first() =~= b@.skip(i + 1));
        i = i + 1;
    }
    if i == n && i == m {
        0
    } else if i == n {
        -1
    } else {
        1
    }
}


/// Strictly increasing: sorted, without repeats.
pub open spec fn strictly_sorted(v: Seq<Seq<char>>) -> bool {
    forall|i: int, j: int| 0 <= i < j < v.len() ==> seq_order(#[trigger] v[i], #[trigger] v[j]) < 0
}

pub open spec fn string_views(v: Seq<String>) -> Seq<Seq<char>> {
    Seq::new(v.len(), |i: int| v[i]@)
}

/// Adds a string to a strictly increasing list unless it is already there,
/// as `BTreeSet::insert` does.
pub fn insert_sorted_unique(v: &mut Vec<String>, s: String)
    requires
        strictly_sorted(string_views(old(v)@)),
    ensures
        strictly_sorted(string_views(final(v)@)),
        string_views(final(v)@).to_set() == string_views(old(v)@).to_set().insert(s@),
{
    let ghost old_v = string_views(v@);
    let mut p: usize = 0;
    while p < v.len() && str_order(v[p].as_str(), s.as_str()) < 0
        invariant
            p <= v.len(),
            string_views(v@) == old_v,
            forall|k: int| 0 <= k < p ==> seq_order(#[trigger] old_v[k], s@) < 0,
        decreases v.len() - p,
    {
        p = p + 1;
    }
    if p < v.len() && str_order(v[p].as_str(), s.as_str()) == 0 {
        proof {
            lemma_order_eq(old_v[p as int], s@);
            assert(old_v.to_set().insert(s@) =~= old_v.to_set()) by {
                assert(old_v.contains(s@));
            }
        }
        return;
    }
    proof {
        if p < old_v.len() {
            lemma_order_range(old_v[p as int], s@);
            lemma_order_antisym(old_v[p as int], s@);
        }
    }
    v.insert(p, s);
    let ghost nv = string_views(v@);
    assert(nv =~= old_v.insert(p as int, s@));
    assert forall|a: int, b: int| 0 <= a < b < nv.len() implies seq_order(#[trigger] nv[a], #[trigger] nv[b]) < 0 by {
        if b == p {
        } else if a == p {
            lemma_order_eq(old_v[p as int], old_v[p as int]);
            if b - 1 > p {
                assert(seq_order(old_v[p as int], old_v[b - 1]) < 0);
            }
            lemma_order_trans(s@, old_v[p as int], old_v[b - 1]);
        } else if a < p && b > p {
            assert(nv[a] == old_v[a]);
            assert(nv[b] == old_v[b - 1]);
        } else if a > p {
            assert(nv[a] == old_v[a - 1]);
            assert(nv[b] == old_v[b - 1]);
        }
    }
    assert(nv.to_set() =~= old_v.to_set().insert(s@)) by {
        assert forall|x: Seq<char>| nv.contains(x) <==> old_v.contains(x) || x == s@ by {
            if nv.contains(x) {
                let k = choose|k: int| 0 <= k < nv.len() && nv[k] == x;
                if k < p {
                    assert(old_v[k] == x);
                } else if k > p {
                    assert(old_v[k - 1] == x);
                }
            }
            if old_v.contains(x) {
                let k = choose|k: int| 0 <= k < old_v.len() && old_v[k] == x;
                if k < p {
                    assert(nv[k] == x);
                } else {
                    assert(nv[k + 1] == x);
                }
            }
            if x == s@ {
                assert(nv[p as int] == x);
            }
        }
    }
}

} // verus!
