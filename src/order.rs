use vstd::prelude::*;

verus! {

/// Lexicographic order of `a` and `b` by character code, looking from
/// position `i` on, given that both agree before it.
pub open spec fn key_less_from(a: Seq<char>, b: Seq<char>, i: int) -> bool
    decreases a.len() - i,
{
    if i >= a.len() {
        i < b.len()
    } else if i >= b.len() {
        false
    } else if a[i] != b[i] {
        a[i] < b[i]
    } else {
        key_less_from(a, b, i + 1)
    }
}

/// `a` sorts strictly before `b`, comparing characters by code point (the
/// order of `String`'s `Ord`).
pub open spec fn key_less(a: Seq<char>, b: Seq<char>) -> bool {
    key_less_from(a, b, 0)
}

/// The keys of a list of named entries.
pub open spec fn keys_of<T>(entries: Seq<(String, T)>) -> Seq<Seq<char>> {
    entries.map_values(|e: (String, T)| e.0@)
}

/// No two keys are equal.
pub open spec fn keys_unique(keys: Seq<Seq<char>>) -> bool {
    forall|i: int, j: int| 0 <= i < keys.len() && 0 <= j < keys.len() && i != j ==> keys[i] != keys[j]
}

/// Where index `j` goes in `order`: before the first entry, from position `p`
/// on, whose key sorts after the key of `j`.
pub open spec fn insert_pos(keys: Seq<Seq<char>>, order: Seq<int>, j: int, p: int) -> int
    decreases order.len() - p,
{
    if p >= order.len() {
        order.len() as int
    } else if key_less(keys[j], keys[order[p]]) {
        p
    } else {
        insert_pos(keys, order, j, p + 1)
    }
}

/// The indices below `n` whose `keep` flag is set, in order of their keys
/// (entries with equal keys keep their relative order).
pub open spec fn sort_order(keys: Seq<Seq<char>>, keep: Seq<bool>, n: int) -> Seq<int>
    decreases n,
{
    if n <= 0 {
        seq![]
    } else {
        let o = sort_order(keys, keep, n - 1);
        if keep[n - 1] {
            o.insert(insert_pos(keys, o, n - 1, 0), n - 1)
        } else {
            o
        }
    }
}

/// Compares two keys.
pub fn key_lt(a: &str, b: &str) -> (r: bool)
    ensures
        r == key_less(a@, b@),
{
    let la = a.unicode_len();
    let lb = b.unicode_len();
    let mut i: usize = 0;
    while i < la && i < lb
        invariant
            la == a@.len(),
            lb == b@.len(),
            i <= la,
            i <= lb,
            key_less(a@, b@) == key_less_from(a@, b@, i as int),
        decreases la - i,
    {
        let ca = a.get_char(i);
        let cb = b.get_char(i);
        if ca != cb {
            return ca < cb;
        }
        i = i + 1;
    }
    i < lb && i >= la
}

/// Returns the indices of the entries whose `keep` flag is set, ordered by
/// the entries' keys.
pub fn sorted_indices<T>(entries: &Vec<(String, T)>, keep: &Vec<bool>) -> (r: Vec<usize>)
    requires
        keep@.len() == entries@.len(),
    ensures
        r@.map_values(|i: usize| i as int) == sort_order(
            keys_of(entries@),
            keep@,
            entries@.len() as int,
        ),
{
    let ghost keys = keys_of(entries@);
    let mut out: Vec<usize> = Vec::new();
    let mut n: usize = 0;
    while n < entries.len()
        invariant
            n <= entries@.len(),
            keep@.len() == entries@.len(),
            keys == keys_of(entries@),
            out@.map_values(|i: usize| i as int) == sort_order(keys, keep@, n as int),
            forall|k: int| 0 <= k < out@.len() ==> (#[trigger] out@[k]) < n,
        decreases entries@.len() - n,
    {
        let ghost o = sort_order(keys, keep@, n as int);
        if keep[n] {
            let mut p: usize = 0;
            while p < out.len() && !key_lt(entries[n].0.as_str(), entries[out[p]].0.as_str())
                invariant
                    p <= out@.len(),
                    n < entries@.len(),
                    keys == keys_of(entries@),
                    o == out@.map_values(|i: usize| i as int),
                    forall|k: int| 0 <= k < out@.len() ==> (#[trigger] out@[k]) < n,
                    insert_pos(keys, o, n as int, 0) == insert_pos(keys, o, n as int, p as int),
                decreases out@.len() - p,
            {
                p = p + 1;
            }
            proof {
                if p < out@.len() {
                    assert(key_less(keys[n as int], keys[o[p as int]]));
                }
            }
            out.insert(p, n);
            proof {
                assert(out@.map_values(|i: usize| i as int) =~= o.insert(p as int, n as int));
            }
        }
        n = n + 1;
    }
    out
}

/// `key_less_from` is irreflexive.
pub proof fn lemma_less_irreflexive(a: Seq<char>, i: int)
    requires
        0 <= i,
    ensures
        !key_less_from(a, a, i),
    decreases a.len() - i,
{
    if i < a.len() {
        lemma_less_irreflexive(a, i + 1);
    }
}

/// Keys on which `key_less_from` holds in neither direction agree from `i` on.
proof fn lemma_less_total(a: Seq<char>, b: Seq<char>, i: int)
    requires
        0 <= i <= a.len(),
        i <= b.len(),
        !key_less_from(a, b, i),
        !key_less_from(b, a, i),
    ensures
        a.len() == b.len(),
        forall|k: int| i <= k < a.len() ==> a[k] == b[k],
    decreases a.len() - i,
{
    if i < a.len() && i < b.len() {
        if a[i] == b[i] {
            lemma_less_total(a, b, i + 1);
        }
    }
}

/// `key_less_from` is transitive.
pub proof fn lemma_less_transitive(a: Seq<char>, b: Seq<char>, c: Seq<char>, i: int)
    requires
        0 <= i,
        key_less_from(a, b, i),
        key_less_from(b, c, i),
    ensures
        key_less_from(a, c, i),
    decreases a.len() - i,
{
    if i < a.len() && i < b.len() && i < c.len() && a[i] == b[i] && b[i] == c[i] {
        lemma_less_transitive(a, b, c, i + 1);
    }
}

/// Two distinct keys are ordered one way or the other.
proof fn lemma_less_connected(a: Seq<char>, b: Seq<char>)
    requires
        a != b,
    ensures
        key_less(a, b) || key_less(b, a),
{
    if !key_less(a, b) && !key_less(b, a) {
        lemma_less_total(a, b, 0);
        assert(a =~= b);
    }
}

/// The keys of `o`'s indices strictly increase.
pub open spec fn strictly_sorted(keys: Seq<Seq<char>>, o: Seq<int>) -> bool {
    forall|x: int, y: int|
        0 <= x < y < o.len() ==> key_less(keys[#[trigger] o[x]], keys[#[trigger] o[y]])
}

/// What `sort_order` holds: each kept index below `n` exactly once, and
/// nothing else.
pub open spec fn is_selection(keep: Seq<bool>, n: int, o: Seq<int>) -> bool {
    &&& forall|x: int| 0 <= x < o.len() ==> 0 <= #[trigger] o[x] < n && keep[o[x]]
    &&& forall|x: int, y: int| 0 <= x < y < o.len() ==> #[trigger] o[x] != #[trigger] o[y]
    &&& forall|j: int| 0 <= j < n && #[trigger] keep[j] ==> o.contains(j)
}

/// Entries before the insertion point do not sort after index `j`; the one
/// at it does.
proof fn lemma_insert_pos_bounds(keys: Seq<Seq<char>>, o: Seq<int>, j: int, p: int)
    requires
        0 <= p <= o.len(),
    ensures
        p <= insert_pos(keys, o, j, p) <= o.len(),
        forall|k: int| p <= k < insert_pos(keys, o, j, p) ==> !key_less(keys[j], keys[#[trigger] o[k]]),
        insert_pos(keys, o, j, p) < o.len() ==> key_less(keys[j], keys[o[insert_pos(keys, o, j, p)]]),
    decreases o.len() - p,
{
    if p < o.len() && !key_less(keys[j], keys[o[p]]) {
        lemma_insert_pos_bounds(keys, o, j, p + 1);
    }
}

/// The indices of `sort_order` are the kept ones, each once; with unique keys
/// their keys strictly increase.
pub proof fn lemma_sort_order(keys: Seq<Seq<char>>, keep: Seq<bool>, n: int)
    requires
        0 <= n <= keys.len(),
        n <= keep.len(),
    ensures
        is_selection(keep, n, sort_order(keys, keep, n)),
        keys_unique(keys) ==> strictly_sorted(keys, sort_order(keys, keep, n)),
    decreases n,
{
    if n > 0 {
        let o = sort_order(keys, keep, n - 1);
        lemma_sort_order(keys, keep, n - 1);
        if keep[n - 1] {
            let j = n - 1;
            let p = insert_pos(keys, o, j, 0);
            lemma_insert_pos_bounds(keys, o, j, 0);
            let r = o.insert(p, j);
            assert(r == sort_order(keys, keep, n));
            assert forall|x: int| 0 <= x < r.len() implies 0 <= #[trigger] r[x] < n && keep[r[x]] by {
                if x > p {
                    assert(r[x] == o[x - 1]);
                }
            }
            assert forall|x: int, y: int| 0 <= x < y < r.len() implies #[trigger] r[x] != #[trigger] r[y] by {
                if y > p {
                    assert(r[y] == o[y - 1]);
                }
                if x > p {
                    assert(r[x] == o[x - 1]);
                }
            }
            assert forall|i: int| 0 <= i < n && #[trigger] keep[i] implies r.contains(i) by {
                if i == j {
                    assert(r[p] == j);
                } else {
                    assert(o.contains(i));
                    let x = choose|x: int| 0 <= x < o.len() && o[x] == i;
                    if x < p {
                        assert(r[x] == i);
                    } else {
                        assert(r[x + 1] == i);
                    }
                }
            }
            if keys_unique(keys) {
                assert forall|x: int, y: int| 0 <= x < y < r.len() implies key_less(
                    keys[#[trigger] r[x]],
                    keys[#[trigger] r[y]],
                ) by {
                    if x < p && y < p {
                        assert(r[x] == o[x] && r[y] == o[y]);
                    } else if x > p {
                        assert(r[x] == o[x - 1] && r[y] == o[y - 1]);
                    } else if x == p {
                        assert(r[y] == o[y - 1]);
                        if y - 1 > p {
                            lemma_less_transitive(keys[j], keys[o[p]], keys[o[y - 1]], 0);
                        }
                    } else if y == p {
                        assert(r[x] == o[x]);
                        assert(!key_less(keys[j], keys[o[x]]));
                        assert(keys[o[x]] != keys[j]);
                        lemma_less_connected(keys[o[x]], keys[j]);
                    } else {
                        assert(r[x] == o[x] && r[y] == o[y - 1]);
                    }
                }
            }
        }
    }
}

} // verus!

verus! {

/// Tells whether two texts are equal.
pub fn same_text(a: &str, b: &str) -> (r: bool)
    ensures
        r == (a@ == b@),
{
    let lt = key_lt(a, b);
    let gt = key_lt(b, a);
    proof {
        if a@ == b@ {
            lemma_less_irreflexive(a@, 0);
        } else {
            lemma_less_connected(a@, b@);
        }
    }
    !lt && !gt
}

} // verus!
