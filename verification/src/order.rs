//! Orders used for sorting: the lexicographic order of character
//! sequences (the order of `str::cmp`, since UTF-8 keeps code point order),
//! and stable sorting of indices by a key.
use vstd::prelude::*;
use vstd::relations::{sorted_by, total_ordering};

use crate::text::char_views;

verus! {

/// `a` comes strictly before `b` in lexicographic order of code points.
pub open spec fn lex_lt(a: Seq<char>, b: Seq<char>) -> bool
    decreases a.len(),
{
    if a.len() == 0 {
        b.len() > 0
    } else if b.len() == 0 {
        false
    } else if a[0] != b[0] {
        a[0] < b[0]
    } else {
        lex_lt(a.drop_first(), b.drop_first())
    }
}

pub open spec fn lex_le(a: Seq<char>, b: Seq<char>) -> bool {
    lex_lt(a, b) || a == b
}

pub proof fn lemma_lex_irreflexive(a: Seq<char>)
    ensures
        !lex_lt(a, a),
    decreases a.len(),
{
    if a.len() > 0 {
        lemma_lex_irreflexive(a.drop_first());
    }
}

pub proof fn lemma_lex_transitive(a: Seq<char>, b: Seq<char>, c: Seq<char>)
    requires
        lex_lt(a, b),
        lex_lt(b, c),
    ensures
        lex_lt(a, c),
    decreases a.len(),
{
    if a.len() > 0 && b.len() > 0 && c.len() > 0 {
        if a[0] == b[0] && b[0] == c[0] {
            lemma_lex_transitive(a.drop_first(), b.drop_first(), c.drop_first());
        }
    }
}

pub proof fn lemma_lex_total(a: Seq<char>, b: Seq<char>)
    ensures
        lex_lt(a, b) || lex_lt(b, a) || a == b,
        !(lex_lt(a, b) && lex_lt(b, a)),
    decreases a.len(),
{
    if a.len() > 0 && b.len() > 0 {
        lemma_lex_total(a.drop_first(), b.drop_first());
        if a[0] == b[0] && a.drop_first() == b.drop_first() {
            assert(a =~= seq![a[0]] + a.drop_first());
            assert(b =~= seq![b[0]] + b.drop_first());
        }
    } else if a.len() == 0 && b.len() == 0 {
        assert(a =~= b);
    }
}

/// Whether `a` comes strictly before `b`.
pub fn lex_less(a: &[char], b: &[char]) -> (r: bool)
    ensures
        r == lex_lt(a@, b@),
{
    let mut i: usize = 0;
    assert(a@.skip(0) =~= a@ && b@.skip(0) =~= b@);
    while i < a.len() && i < b.len()
        invariant
            i <= a@.len(),
            i <= b@.len(),
            lex_lt(a@, b@) == lex_lt(a@.skip(i as int), b@.skip(i as int)),
        decreases a@.len() - i,
    {
        assert(a@.skip(i as int).drop_first() =~= a@.skip(i + 1));
        assert(b@.skip(i as int).drop_first() =~= b@.skip(i + 1));
        if a[i] != b[i] {
            return a[i] < b[i];
        }
        i += 1;
    }
    i == a.len() && i < b.len()
}

// ---------------------------------------------------------------------------
// Stable sorting of indices
// ---------------------------------------------------------------------------
/// `r` lists each of `0..n` exactly once.
pub open spec fn is_permutation(r: Seq<usize>, n: nat) -> bool {
    &&& r.len() == n
    &&& forall|k: int| 0 <= k < r.len() ==> #[trigger] r[k] < n
    &&& forall|k: int, l: int| 0 <= k < l < r.len() ==> #[trigger] r[k] != #[trigger] r[l]
}

/// Index `i` with key `ki` comes before index `j` with key `kj` in a stable
/// sort by key.
pub open spec fn key_index_lt(ki: Seq<char>, i: usize, kj: Seq<char>, j: usize) -> bool {
    lex_lt(ki, kj) || (ki == kj && i < j)
}

/// `r` orders the indices of `keys` as a stable sort by key does.
pub open spec fn stably_sorted_by_chars(keys: Seq<Seq<char>>, r: Seq<usize>) -> bool {
    forall|k: int, l: int|
        0 <= k < l < r.len() ==> key_index_lt(
            keys[#[trigger] r[k] as int],
            r[k],
            keys[#[trigger] r[l] as int],
            r[l],
        )
}

/// The indices of `keys` in the order of a stable sort by key (ascending
/// lexicographic order, equal keys in the order they are given).
pub fn stable_order_by_chars(keys: &Vec<Vec<char>>) -> (r: Vec<usize>)
    ensures
        is_permutation(r@, keys@.len()),
        stably_sorted_by_chars(keys@.map_values(|k: Vec<char>| k@), r@),
{
    let ghost kv = keys@.map_values(|k: Vec<char>| k@);
    let n = keys.len();
    let mut r: Vec<usize> = Vec::new();
    let mut i: usize = 0;
    while i < n
        invariant
            n == keys@.len() == kv.len(),
            kv == keys@.map_values(|k: Vec<char>| k@),
            i <= n,
            r@.len() == i,
            forall|k: int| 0 <= k < r@.len() ==> #[trigger] r@[k] < i,
            forall|k: int, l: int| 0 <= k < l < r@.len() ==> #[trigger] r@[k] != #[trigger] r@[l],
            stably_sorted_by_chars(kv, r@),
        decreases n - i,
    {
        // position of the first entry whose key is strictly greater
        let mut p: usize = 0;
        while p < r.len() && !lex_less(&keys[i], &keys[r[p]])
            invariant
                n == keys@.len() == kv.len(),
                kv == keys@.map_values(|k: Vec<char>| k@),
                i < n,
                p <= r@.len(),
                forall|k: int| 0 <= k < r@.len() ==> #[trigger] r@[k] < i,
                forall|k: int| 0 <= k < p ==> !lex_lt(kv[i as int], kv[#[trigger] r@[k] as int]),
            decreases r@.len() - p,
        {
            p += 1;
        }
        let ghost old_r = r@;
        proof {
            assert forall|k: int| p <= k < old_r.len() implies lex_lt(
                kv[i as int],
                kv[#[trigger] old_r[k] as int],
            ) by {
                assert(lex_lt(kv[i as int], kv[old_r[p as int] as int]));
                if k > p {
                    assert(key_index_lt(
                        kv[old_r[p as int] as int],
                        old_r[p as int],
                        kv[old_r[k] as int],
                        old_r[k],
                    ));
                    if lex_lt(kv[old_r[p as int] as int], kv[old_r[k] as int]) {
                        lemma_lex_transitive(
                            kv[i as int],
                            kv[old_r[p as int] as int],
                            kv[old_r[k] as int],
                        );
                    }
                }
            }
            assert forall|k: int| 0 <= k < p implies key_index_lt(
                kv[#[trigger] old_r[k] as int],
                old_r[k],
                kv[i as int],
                i,
            ) by {
                lemma_lex_total(kv[i as int], kv[old_r[k] as int]);
            }
        }
        r.insert(p, i);
        proof {
            assert(r@ == old_r.insert(p as int, i));
            assert forall|k: int, l: int| 0 <= k < l < r@.len() implies key_index_lt(
                kv[#[trigger] r@[k] as int],
                r@[k],
                kv[#[trigger] r@[l] as int],
                r@[l],
            ) by {
                if l < p {
                    assert(r@[k] == old_r[k] && r@[l] == old_r[l]);
                } else if l == p {
                    assert(r@[k] == old_r[k]);
                } else if k < p {
                    assert(r@[k] == old_r[k] && r@[l] == old_r[l - 1]);
                    assert(key_index_lt(kv[old_r[k] as int], old_r[k], kv[i as int], i));
                    assert(lex_lt(kv[i as int], kv[old_r[l - 1] as int]));
                    if lex_lt(kv[old_r[k] as int], kv[i as int]) {
                        lemma_lex_transitive(
                            kv[old_r[k] as int],
                            kv[i as int],
                            kv[old_r[l - 1] as int],
                        );
                    }
                } else if k == p {
                    assert(r@[l] == old_r[l - 1]);
                } else {
                    assert(r@[k] == old_r[k - 1] && r@[l] == old_r[l - 1]);
                }
            }
            assert forall|k: int, l: int| 0 <= k < l < r@.len() implies #[trigger] r@[k]
                != #[trigger] r@[l] by {
                if l < p {
                    assert(r@[k] == old_r[k] && r@[l] == old_r[l]);
                } else if l == p {
                    assert(r@[k] == old_r[k]);
                } else if k < p {
                    assert(r@[k] == old_r[k] && r@[l] == old_r[l - 1]);
                } else if k == p {
                    assert(r@[l] == old_r[l - 1]);
                } else {
                    assert(r@[k] == old_r[k - 1] && r@[l] == old_r[l - 1]);
                }
            }
            assert forall|k: int| 0 <= k < r@.len() implies #[trigger] r@[k] < i + 1 by {
                if k < p {
                    assert(r@[k] == old_r[k]);
                } else if k > p {
                    assert(r@[k] == old_r[k - 1]);
                }
            }
        }
        i += 1;
    }
    r
}

/// Index `i` with key `ki` comes before index `j` with key `kj` in a stable
/// sort by a numeric key.
pub open spec fn num_index_lt(ki: u64, i: usize, kj: u64, j: usize) -> bool {
    ki < kj || (ki == kj && i < j)
}

/// `r` orders the indices of `keys` as a stable sort by the numeric key does.
pub open spec fn stably_sorted_by_num(keys: Seq<u64>, r: Seq<usize>) -> bool {
    forall|k: int, l: int|
        0 <= k < l < r.len() ==> num_index_lt(
            keys[#[trigger] r[k] as int],
            r[k],
            keys[#[trigger] r[l] as int],
            r[l],
        )
}

/// The indices of `keys` in the order of a stable sort by key.
pub fn stable_order_by_num(keys: &Vec<u64>) -> (r: Vec<usize>)
    ensures
        is_permutation(r@, keys@.len()),
        stably_sorted_by_num(keys@, r@),
{
    let n = keys.len();
    let mut r: Vec<usize> = Vec::new();
    let mut i: usize = 0;
    while i < n
        invariant
            n == keys@.len(),
            i <= n,
            r@.len() == i,
            forall|k: int| 0 <= k < r@.len() ==> #[trigger] r@[k] < i,
            forall|k: int, l: int| 0 <= k < l < r@.len() ==> #[trigger] r@[k] != #[trigger] r@[l],
            stably_sorted_by_num(keys@, r@),
        decreases n - i,
    {
        let mut p: usize = 0;
        while p < r.len() && !(keys[i] < keys[r[p]])
            invariant
                n == keys@.len(),
                i < n,
                p <= r@.len(),
                forall|k: int| 0 <= k < r@.len() ==> #[trigger] r@[k] < i,
                forall|k: int| 0 <= k < p ==> !(keys@[i as int] < keys@[#[trigger] r@[k] as int]),
            decreases r@.len() - p,
        {
            p += 1;
        }
        let ghost old_r = r@;
        proof {
            assert forall|k: int| p <= k < old_r.len() implies keys@[i as int] < keys@[
                #[trigger] old_r[k] as int] by {
                if k > p {
                    assert(num_index_lt(
                        keys@[old_r[p as int] as int],
                        old_r[p as int],
                        keys@[old_r[k] as int],
                        old_r[k],
                    ));
                }
            }
        }
        r.insert(p, i);
        proof {
            assert(r@ == old_r.insert(p as int, i));
            assert forall|k: int, l: int| 0 <= k < l < r@.len() implies num_index_lt(
                keys@[#[trigger] r@[k] as int],
                r@[k],
                keys@[#[trigger] r@[l] as int],
                r@[l],
            ) by {
                if l < p {
                    assert(r@[k] == old_r[k] && r@[l] == old_r[l]);
                } else if l == p {
                    assert(r@[k] == old_r[k]);
                } else if k < p {
                    assert(r@[k] == old_r[k] && r@[l] == old_r[l - 1]);
                } else if k == p {
                    assert(r@[l] == old_r[l - 1]);
                } else {
                    assert(r@[k] == old_r[k - 1] && r@[l] == old_r[l - 1]);
                }
            }
            assert forall|k: int, l: int| 0 <= k < l < r@.len() implies #[trigger] r@[k]
                != #[trigger] r@[l] by {
                if l < p {
                    assert(r@[k] == old_r[k] && r@[l] == old_r[l]);
                } else if l == p {
                    assert(r@[k] == old_r[k]);
                } else if k < p {
                    assert(r@[k] == old_r[k] && r@[l] == old_r[l - 1]);
                } else if k == p {
                    assert(r@[l] == old_r[l - 1]);
                } else {
                    assert(r@[k] == old_r[k - 1] && r@[l] == old_r[l - 1]);
                }
            }
            assert forall|k: int| 0 <= k < r@.len() implies #[trigger] r@[k] < i + 1 by {
                if k < p {
                    assert(r@[k] == old_r[k]);
                } else if k > p {
                    assert(r@[k] == old_r[k - 1]);
                }
            }
        }
        i += 1;
    }
    r
}


// ---------------------------------------------------------------------------
// Sorting character sequences
// ---------------------------------------------------------------------------
/// The order `lex_le` as a relation.
pub open spec fn lex_leq() -> spec_fn(Seq<char>, Seq<char>) -> bool {
    |a: Seq<char>, b: Seq<char>| lex_le(a, b)
}

/// `lex_le` is a total order.
pub proof fn lemma_lex_leq_total()
    ensures
        total_ordering(lex_leq()),
{
    let r = lex_leq();
    assert forall|x: Seq<char>| #[trigger] r(x, x) by {}
    assert forall|x: Seq<char>, y: Seq<char>| #[trigger] r(x, y) && #[trigger] r(y, x) implies x
        == y by {
        lemma_lex_total(x, y);
    }
    assert forall|x: Seq<char>, y: Seq<char>, z: Seq<char>| #[trigger] r(x, y) && #[trigger] r(
        y,
        z,
    ) implies r(x, z) by {
        if lex_lt(x, y) && lex_lt(y, z) {
            lemma_lex_transitive(x, y, z);
        }
    }
    assert forall|x: Seq<char>, y: Seq<char>| #[trigger] r(x, y) || #[trigger] r(y, x) by {
        lemma_lex_total(x, y);
    }
}

/// Sorts character sequences in ascending lexicographic order, as
/// `slice::sort` does on strings.
pub fn sort_char_seqs(v: &Vec<Vec<char>>) -> (r: Vec<Vec<char>>)
    ensures
        char_views(r@) == char_views(v@).sort_by(lex_leq()),
{
    broadcast use vstd::seq_lib::group_to_multiset_ensures;

    let ghost s = char_views(v@);
    let mut r: Vec<Vec<char>> = Vec::new();
    let mut i: usize = 0;
    assert(char_views(r@) =~= s.take(0));
    while i < v.len()
        invariant
            i <= v@.len(),
            s == char_views(v@),
            sorted_by(char_views(r@), lex_leq()),
            char_views(r@).to_multiset() == s.take(i as int).to_multiset(),
        decreases v@.len() - i,
    {
        let x = v[i].clone();
        assert(x@ == s[i as int]);
        let mut j: usize = 0;
        while j < r.len()
            invariant
                j <= r@.len(),
                forall|k: int| 0 <= k < j ==> lex_le(#[trigger] char_views(r@)[k], x@),
            ensures
                j <= r@.len(),
                forall|k: int| 0 <= k < j ==> lex_le(#[trigger] char_views(r@)[k], x@),
                j < r@.len() ==> lex_lt(x@, r@[j as int]@),
            decreases r@.len() - j,
        {
            if lex_less(&x, &r[j]) {
                break;
            }
            proof {
                lemma_lex_total(x@, r@[j as int]@);
            }
            j += 1;
        }
        let ghost old_r = char_views(r@);
        proof {
            lemma_lex_leq_total();
        }
        r.insert(j, x);
        assert(char_views(r@) =~= old_r.insert(j as int, x@));
        assert(sorted_by(char_views(r@), lex_leq())) by {
            let nr = char_views(r@);
            assert forall|a: int, b: int| 0 <= a < b < nr.len() implies #[trigger] lex_leq()(
                nr[a],
                nr[b],
            ) by {
                if a < j && b == j {
                } else if a == j && b > j {
                    // x comes before old_r[j] and old_r[j] before every later element
                    assert(lex_lt(x@, old_r[j as int]));
                    assert(lex_leq()(old_r[j as int], old_r[b - 1]));
                    if lex_lt(old_r[j as int], old_r[b - 1]) {
                        lemma_lex_transitive(x@, old_r[j as int], old_r[b - 1]);
                    }
                } else if a < j && b > j {
                    assert(lex_leq()(old_r[a], old_r[b - 1]));
                } else if a > j {
                    assert(lex_leq()(old_r[a - 1], old_r[b - 1]));
                } else {
                    assert(lex_leq()(old_r[a], old_r[b]));
                }
            }
        }
        assert(s.take(i + 1) =~= s.take(i as int).push(s[i as int]));
        proof {
            vstd::seq_lib::to_multiset_insert(old_r, j as int, x@);
            vstd::seq_lib::to_multiset_build(s.take(i as int), s[i as int]);
        }
        i += 1;
    }
    assert(s.take(v@.len() as int) =~= s);
    proof {
        lemma_lex_leq_total();
        s.lemma_sort_by_ensures(lex_leq());
        vstd::seq_lib::lemma_sorted_unique(char_views(r@), s.sort_by(lex_leq()), lex_leq());
    }
    r
}

} // verus!
