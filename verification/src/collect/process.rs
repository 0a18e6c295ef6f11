//! Ranking of processes by their memory footprint.

use vstd::prelude::*;
use vstd::set_lib::{lemma_int_range, lemma_len_subset, set_int_range};

verus! {

/// The figures of one process that the ranking and the reports read.
#[derive(Clone, Debug)]
pub struct ProcessSnapshot {
    pub pid: u32,
    pub name: String,
    /// Virtual address space committed (VirtualAlloc total)
    pub virtual_bytes: u64,
    /// Physical pages currently resident (working set)
    pub memory_bytes: u64,
}

/// Position `i` ranks ahead of position `j`: a larger key first, and among
/// equal keys the earlier position first (a stable descending order).
pub open spec fn ranks_before(keys: Seq<u64>, i: int, j: int) -> bool {
    keys[i] > keys[j] || (keys[i] == keys[j] && i < j)
}

/// `r` lists, best first, the `min(n, keys.len())` positions that a stable
/// descending sort of `keys` puts first.
pub open spec fn is_top_ranking(keys: Seq<u64>, n: nat, r: Seq<usize>) -> bool {
    &&& r.len() == if n <= keys.len() {
        n
    } else {
        keys.len()
    }
    &&& forall|k: int| 0 <= k < r.len() ==> #[trigger] r[k] < keys.len()
    &&& forall|a: int, b: int|
        0 <= a < b < r.len() ==> ranks_before(keys, #[trigger] r[a] as int, #[trigger] r[b] as int)
    &&& forall|k: int, j: int|
        #![trigger r[k], keys[j]]
        0 <= k < r.len() && 0 <= j < keys.len() && !r.contains(j as usize) ==> ranks_before(
            keys,
            r[k] as int,
            j,
        )
}

/// Position `j` occurs in `r`.
pub open spec fn lists(r: Seq<usize>, j: int) -> bool {
    r.contains(j as usize)
}

/// While fewer positions are picked than exist, one is left.
proof fn lemma_some_unlisted(r: Seq<usize>, len: nat)
    requires
        r.len() < len <= usize::MAX,
        forall|a: int, b: int| 0 <= a < b < r.len() ==> #[trigger] r[a] != #[trigger] r[b],
    ensures
        exists|j: int| 0 <= j < len && !#[trigger] lists(r, j),
{
    if forall|j: int| 0 <= j < len ==> #[trigger] lists(r, j) {
        let s = r.map_values(|x: usize| x as int);
        assert(s.no_duplicates()) by {
            assert forall|a: int, b: int| 0 <= a < s.len() && 0 <= b < s.len() && a != b implies s[a]
                != s[b] by {
                if a < b {
                    assert(r[a] != r[b]);
                } else {
                    assert(r[b] != r[a]);
                }
            }
        }
        s.unique_seq_to_set();
        lemma_int_range(0, len as int);
        assert(set_int_range(0, len as int).subset_of(s.to_set())) by {
            assert forall|j: int| set_int_range(0, len as int).contains(j) implies s.to_set().contains(
                j,
            ) by {
                assert(lists(r, j));
                let k = choose|k: int| 0 <= k < r.len() && r[k] == j as usize;
                assert(s[k] == j);
            }
        }
        vstd::seq_lib::seq_to_set_is_finite(s);
        lemma_len_subset(set_int_range(0, len as int), s.to_set());
        assert(false);
    }
}

/// Asking for at least as many positions as there are ranks every position
/// exactly once: the ranking is then a permutation.
pub proof fn law_full_ranking_keeps_all(keys: Seq<u64>, n: nat, r: Seq<usize>)
    requires
        is_top_ranking(keys, n, r),
        n >= keys.len(),
        keys.len() <= usize::MAX,
    ensures
        r.len() == keys.len(),
        forall|j: int| 0 <= j < keys.len() ==> #[trigger] lists(r, j),
        forall|a: int, b: int| 0 <= a < b < r.len() ==> r[a] != r[b],
{
    assert forall|a: int, b: int| 0 <= a < b < r.len() implies r[a] != r[b] by {
        assert(ranks_before(keys, r[a] as int, r[b] as int));
    }
    let len = keys.len();
    assert forall|j: int| 0 <= j < len implies #[trigger] lists(r, j) by {
        if !lists(r, j) {
            let s = r.map_values(|x: usize| x as int);
            assert(s.no_duplicates()) by {
                assert forall|a: int, b: int|
                    0 <= a < s.len() && 0 <= b < s.len() && a != b implies s[a] != s[b] by {
                    if a < b {
                        assert(r[a] != r[b]);
                    } else {
                        assert(r[b] != r[a]);
                    }
                }
            }
            s.unique_seq_to_set();
            lemma_int_range(0, len as int);
            let rest = set_int_range(0, len as int).remove(j);
            assert(s.to_set().subset_of(rest)) by {
                assert forall|x: int| s.to_set().contains(x) implies rest.contains(x) by {
                    let k = choose|k: int| 0 <= k < s.len() && s[k] == x;
                    assert(r[k] < len);
                    assert(r[k] != j as usize);
                }
            }
            lemma_len_subset(s.to_set(), rest);
            assert(false);
        }
    }
}

/// Positions of the `n` largest keys, largest first, ties in input order:
/// the first `n` positions of a stable descending sort.
pub fn rank_top(keys: &Vec<u64>, n: usize) -> (r: Vec<usize>)
    ensures
        is_top_ranking(keys@, n as nat, r@),
{
    let len = keys.len();
    let take = if n <= len {
        n
    } else {
        len
    };
    let mut picked: Vec<bool> = Vec::new();
    let mut i: usize = 0;
    while i < len
        invariant
            i <= len == keys.len(),
            picked.len() == i,
            forall|j: int| 0 <= j < i ==> !picked[j],
        decreases len - i,
    {
        picked.push(false);
        i = i + 1;
    }
    let mut r: Vec<usize> = Vec::new();
    while r.len() < take
        invariant
            take <= len == keys.len(),
            take == if n <= len {
                n
            } else {
                len
            },
            picked.len() == len,
            r.len() <= take,
            forall|k: int| 0 <= k < r.len() ==> #[trigger] r@[k] < len,
            forall|j: int| 0 <= j < len ==> (picked@[j] <==> r@.contains(j as usize)),
            forall|a: int, b: int|
                0 <= a < b < r.len() ==> ranks_before(
                    keys@,
                    #[trigger] r@[a] as int,
                    #[trigger] r@[b] as int,
                ),
            forall|k: int, j: int|
                #![trigger r@[k], picked@[j]]
                0 <= k < r.len() && 0 <= j < len && !picked@[j] ==> ranks_before(
                    keys@,
                    r@[k] as int,
                    j,
                ),
        decreases take - r.len(),
    {
        proof {
            assert forall|a: int, b: int| 0 <= a < b < r.len() implies #[trigger] r@[a]
                != #[trigger] r@[b] by {
                assert(ranks_before(keys@, r@[a] as int, r@[b] as int));
            }
            lemma_some_unlisted(r@, len as nat);
        }
        let mut best: usize = len;
        let mut j: usize = 0;
        while j < len
            invariant
                j <= len == keys.len() == picked.len(),
                best == len || (best < j && !picked@[best as int]),
                forall|t: int|
                    0 <= t < j && !picked@[t] ==> best < len && (t == best || ranks_before(
                        keys@,
                        best as int,
                        t,
                    )),
            decreases len - j,
        {
            if !picked[j] && (best == len || keys[j] > keys[best]) {
                best = j;
            }
            j = j + 1;
        }
        proof {
            let w = choose|w: int| 0 <= w < len && !#[trigger] lists(r@, w);
            assert(!picked@[w]);
        }
        picked.set(best, true);
        let ghost old_r = r@;
        r.push(best);
        proof {
            assert forall|t: int| 0 <= t < len implies (picked@[t] <==> r@.contains(t as usize)) by {
                if t == best {
                    assert(r@[old_r.len() as int] == best);
                } else {
                    if r@.contains(t as usize) {
                        let k = choose|k: int| 0 <= k < r@.len() && r@[k] == t as usize;
                        assert(k < old_r.len());
                        assert(old_r.contains(t as usize));
                    }
                    if old_r.contains(t as usize) {
                        let k = choose|k: int| 0 <= k < old_r.len() && old_r[k] == t as usize;
                        assert(r@[k] == t as usize);
                    }
                }
            }
        }
    }
    proof {
        assert forall|k: int, j: int|
            #![trigger r@[k], keys@[j]]
            0 <= k < r.len() && 0 <= j < keys@.len() && !r@.contains(j as usize) implies ranks_before(
            keys@,
            r@[k] as int,
            j,
        ) by {
            assert(!picked@[j]);
        }
    }
    r
}

/// Positions of the `n` processes with the largest virtual size, largest
/// first, equal sizes in input order.
pub fn collect_top(procs: &Vec<ProcessSnapshot>, n: usize) -> (r: Vec<usize>)
    ensures
        is_top_ranking(procs@.map_values(|p: ProcessSnapshot| p.virtual_bytes), n as nat, r@),
{
    let mut keys: Vec<u64> = Vec::new();
    let mut i: usize = 0;
    while i < procs.len()
        invariant
            i <= procs.len(),
            keys@ =~= procs@.take(i as int).map_values(|p: ProcessSnapshot| p.virtual_bytes),
        decreases procs.len() - i,
    {
        keys.push(procs[i].virtual_bytes);
        i = i + 1;
        assert(keys@ =~= procs@.take(i as int).map_values(|p: ProcessSnapshot| p.virtual_bytes));
    }
    assert(procs@.take(i as int) =~= procs@);
    rank_top(&keys, n)
}

} // verus!
