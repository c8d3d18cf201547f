//! Validation and application of a computed final draw order to a flattened draw list.
use vstd::prelude::*;

use crate::material_slots::WorldMeshDrawArrangementStats;

verus! {

/// Final draw order for a flattened draw list, with the arrangement counters that produced it.
pub struct WorldMeshDrawArrangementOrder {
    /// Flattened draw indices in final order.
    pub indices: Vec<usize>,
    /// Arrangement counters.
    pub stats: WorldMeshDrawArrangementStats,
}

impl WorldMeshDrawArrangementOrder {
    /// An empty order with zeroed counters.
    pub fn empty() -> (r: Self)
        ensures
            r.indices@.len() == 0,
            r.stats == (WorldMeshDrawArrangementStats { nontransparent_bins: 0, nontransparent_binned_draws: 0, strict_sorted_draws: 0 }),
    {
        WorldMeshDrawArrangementOrder {
            indices: Vec::new(),
            stats: WorldMeshDrawArrangementStats { nontransparent_bins: 0, nontransparent_binned_draws: 0, strict_sorted_draws: 0 },
        }
    }
}

/// `order` names every index below `n` exactly once.
pub open spec fn is_permutation_order(order: Seq<usize>, n: int) -> bool {
    &&& order.len() == n
    &&& forall|i: int| 0 <= i < order.len() ==> (#[trigger] order[i]) < n
    &&& forall|i: int, j: int| 0 <= i < j < order.len() ==> order[i] != order[j]
}

/// Returns whether `order` can be safely applied to `draw_count` flattened draws: it must list
/// every draw index exactly once.
pub fn validate_arranged_draw_order(order: &[usize], draw_count: usize) -> (r: bool)
    ensures
        r == is_permutation_order(order@, draw_count as int),
{
    if order.len() != draw_count {
        return false;
    }
    let mut seen: Vec<bool> = Vec::new();
    let mut i: usize = 0;
    while i < draw_count
        invariant
            0 <= i <= draw_count,
            seen@.len() == i,
            forall|j: int| 0 <= j < i ==> !seen@[j],
        decreases draw_count - i,
    {
        seen.push(false);
        i = i + 1;
    }
    let mut k: usize = 0;
    while k < order.len()
        invariant
            0 <= k <= order@.len(),
            order@.len() == draw_count,
            seen@.len() == draw_count,
            forall|a: int| 0 <= a < k ==> (#[trigger] order@[a]) < draw_count,
            forall|a: int, b: int| 0 <= a < b < k ==> order@[a] != order@[b],
            forall|j: int| 0 <= j < draw_count ==> (seen@[j] <==> exists|a: int| 0 <= a < k && (#[trigger] order@[a]) == j),
        decreases order@.len() - k,
    {
        let index = order[k];
        if index >= draw_count {
            return false;
        }
        if seen[index] {
            proof {
                let a = choose|a: int| 0 <= a < k && (#[trigger] order@[a]) == index;
                assert(order@[a] == order@[k as int]);
            }
            return false;
        }
        seen.set(index, true);
        proof {
            assert forall|j: int| 0 <= j < draw_count implies (seen@[j] <==> exists|a: int| 0 <= a < k + 1 && (#[trigger] order@[a]) == j) by {
                if j == index as int {
                    assert(order@[k as int] == j);
                } else if exists|a: int| 0 <= a < k + 1 && (#[trigger] order@[a]) == j {
                    let a = choose|a: int| 0 <= a < k + 1 && (#[trigger] order@[a]) == j;
                    assert(a < k);
                }
            }
        }
        k = k + 1;
    }
    true
}

/// Indices `order[k]`, `k < n`, that are in range and not taken by an earlier entry, in order.
pub open spec fn taken_indices(order: Seq<usize>, len: int, n: int) -> Seq<usize>
    decreases n,
{
    if n <= 0 {
        Seq::empty()
    } else {
        let p = taken_indices(order, len, n - 1);
        if order[n - 1] < len && !p.contains(order[n - 1]) { p.push(order[n - 1]) } else { p }
    }
}

/// Items at the taken indices of `order`, in order.
pub open spec fn arranged_items<T>(items: Seq<T>, order: Seq<usize>) -> Seq<T> {
    taken_indices(order, items.len() as int, order.len() as int).map_values(|i: usize| items[i as int])
}

/// Taken indices are exactly the in-range entries of the prefix.
proof fn lemma_taken_indices_contains(order: Seq<usize>, len: int, n: int)
    requires
        0 <= n <= order.len(),
    ensures
        forall|x: usize| #[trigger] taken_indices(order, len, n).contains(x) <==> (x < len && exists|k: int| 0 <= k < n && order[k] == x),
        forall|i: int| 0 <= i < taken_indices(order, len, n).len() ==> (#[trigger] taken_indices(order, len, n)[i]) < len,
    decreases n,
{
    if n > 0 {
        lemma_taken_indices_contains(order, len, n - 1);
        let p = taken_indices(order, len, n - 1);
        assert forall|x: usize| #[trigger] taken_indices(order, len, n).contains(x) <==> (x < len && exists|k: int| 0 <= k < n && order[k] == x) by {
            if x < len && exists|k: int| 0 <= k < n && order[k] == x {
                let k = choose|k: int| 0 <= k < n && order[k] == x;
                if k < n - 1 {
                    assert(p.contains(x));
                    let q = choose|q: int| 0 <= q < p.len() && p[q] == x;
                    if order[n - 1] < len && !p.contains(order[n - 1]) {
                        assert(p.push(order[n - 1])[q] == x);
                    }
                } else if !p.contains(x) {
                    assert(p.push(order[n - 1])[p.len() as int] == x);
                }
            }
            if taken_indices(order, len, n).contains(x) && !p.contains(x) {
                let q = choose|q: int| 0 <= q < taken_indices(order, len, n).len() && taken_indices(order, len, n)[q] == x;
                assert(q == p.len());
            }
        }
    }
}

/// Moves items into the order `order` gives, each at most once; entries that are out of range or
/// repeat an earlier index are skipped.
pub fn apply_validated_arranged_draw_order<T>(items: Vec<T>, order: &[usize]) -> (arranged: Vec<T>)
    ensures
        arranged@ == arranged_items(items@, order@),
{
    let ghost source = items@;
    let len = items.len();
    let mut slots: Vec<Option<T>> = Vec::new();
    for item in it: items.into_iter()
        invariant
            it.seq() == source,
            slots@.len() == it.index(),
            forall|j: int| 0 <= j < slots@.len() ==> slots@[j] == Some(source[j]),
    {
        slots.push(Some(item));
    }
    let mut arranged: Vec<T> = Vec::new();
    let mut k: usize = 0;
    while k < order.len()
        invariant
            0 <= k <= order@.len(),
            len == source.len(),
            slots@.len() == len,
            forall|j: int| 0 <= j < len ==> (#[trigger] slots@[j]) == (if taken_indices(order@, len as int, k as int).contains(j as usize) {
                None
            } else {
                Some(source[j])
            }),
            arranged@ == taken_indices(order@, len as int, k as int).map_values(|i: usize| source[i as int]),
        decreases order@.len() - k,
    {
        proof {
            lemma_taken_indices_contains(order@, len as int, k as int);
        }
        let index = order[k];
        if index < slots.len() {
            let taken = slots[index].take();
            match taken {
                Some(item) => {
                    arranged.push(item);
                },
                None => {},
            }
            proof {
                let p = taken_indices(order@, len as int, k as int);
                let q = taken_indices(order@, len as int, k as int + 1);
                if p.contains(index) {
                    assert(q == p);
                } else {
                    assert(q == p.push(index));
                    assert(q.map_values(|i: usize| source[i as int]) =~= p.map_values(|i: usize| source[i as int]).push(source[index as int]));
                }
                assert forall|j: int| 0 <= j < len implies (#[trigger] slots@[j]) == (if q.contains(j as usize) { None } else { Some(source[j]) }) by {
                    if j != index as int {
                        assert(q.contains(j as usize) == p.contains(j as usize)) by {
                            if q.contains(j as usize) && !p.contains(j as usize) {
                                let r = choose|r: int| 0 <= r < q.len() && q[r] == j as usize;
                                assert(r == p.len());
                            }
                            if p.contains(j as usize) {
                                let r = choose|r: int| 0 <= r < p.len() && p[r] == j as usize;
                                if !p.contains(index) {
                                    assert(q[r] == j as usize);
                                }
                            }
                        }
                    } else if !p.contains(index) {
                        assert(q[q.len() - 1] == index);
                    }
                }
            }
        }
        k = k + 1;
    }
    arranged
}

/// Taking every index of a permutation order reproduces the order itself.
pub proof fn lemma_permutation_taken_indices(order: Seq<usize>, len: int, n: int)
    requires
        is_permutation_order(order, len),
        0 <= n <= order.len(),
    ensures
        taken_indices(order, len, n) == order.take(n),
    decreases n,
{
    if n > 0 {
        lemma_permutation_taken_indices(order, len, n - 1);
        let p = order.take(n - 1);
        assert(!p.contains(order[n - 1])) by {
            if p.contains(order[n - 1]) {
                let q = choose|q: int| 0 <= q < p.len() && p[q] == order[n - 1];
                assert(order[q] == order[n - 1]);
            }
        }
        assert(order.take(n) =~= p.push(order[n - 1]));
    }
}

/// Applying a validated order places `items[order[i]]` at position `i`: the result is a
/// permutation of the items.
pub proof fn lemma_apply_permutation_order<T>(items: Seq<T>, order: Seq<usize>)
    requires
        is_permutation_order(order, items.len() as int),
    ensures
        arranged_items(items, order).len() == items.len(),
        forall|i: int| 0 <= i < order.len() ==> #[trigger] arranged_items(items, order)[i] == items[order[i] as int],
{
    lemma_permutation_taken_indices(order, items.len() as int, order.len() as int);
    assert(order.take(order.len() as int) =~= order);
}

/// Moves flattened draw items into the order's final arrangement; an order that does not list
/// every item exactly once leaves the items in their flattened order.
pub fn materialize_arranged_draw_order<T>(items: Vec<T>, order: &WorldMeshDrawArrangementOrder) -> (r: (Vec<T>, WorldMeshDrawArrangementStats))
    ensures
        r.1 == order.stats,
        is_permutation_order(order.indices@, items@.len() as int) ==> r.0@.len() == items@.len() && forall|i: int|
            0 <= i < items@.len() ==> #[trigger] r.0@[i] == items@[order.indices@[i] as int],
        !is_permutation_order(order.indices@, items@.len() as int) ==> r.0@ == items@,
{
    let stats = order.stats;
    if !validate_arranged_draw_order(order.indices.as_slice(), items.len()) {
        return (items, stats);
    }
    let ghost source = items@;
    let arranged = apply_validated_arranged_draw_order(items, order.indices.as_slice());
    proof {
        lemma_apply_permutation_order(source, order.indices@);
    }
    (arranged, stats)
}

/// The draws of `chunks` in chunk order, each chunk's draws in their own order.
pub open spec fn flattened_chunks<T>(chunks: Seq<Vec<T>>) -> Seq<T> {
    chunks.map_values(|chunk: Vec<T>| chunk@).flatten()
}

/// Concatenates deterministic per-chunk draw lists into one flattened draw list.
pub fn flatten_draw_chunks<T>(chunks: Vec<Vec<T>>) -> (items: Vec<T>)
    ensures
        items@ == flattened_chunks(chunks@),
{
    let ghost all = chunks@;
    let mut items: Vec<T> = Vec::new();
    for chunk in it: chunks.into_iter()
        invariant
            it.seq() == all,
            items@ == flattened_chunks(all.take(it.index() as int)),
    {
        let mut chunk = chunk;
        proof {
            let k = it.index() as int;
            assert(all.take(k + 1) =~= all.take(k).push(chunk));
            assert(all.take(k + 1).map_values(|c: Vec<T>| c@) =~= all.take(k).map_values(|c: Vec<T>| c@).push(chunk@));
            all.take(k).map_values(|c: Vec<T>| c@).lemma_flatten_push(chunk@);
        }
        items.append(&mut chunk);
    }
    proof {
        assert(all.take(all.len() as int) =~= all);
    }
    items
}

} // verus!
