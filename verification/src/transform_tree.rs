//! Ancestor queries over a render space's node parent table.
use vstd::prelude::*;

verus! {

/// The node reached after following `k` parent links from `node`, or `None` once the chain leaves
/// the table or reaches a root (negative parent).
pub open spec fn ancestor(parents: Seq<i32>, node: int, k: nat) -> Option<int>
    decreases k,
{
    if k == 0 {
        Some(node)
    } else {
        match ancestor(parents, node, (k - 1) as nat) {
            Some(c) => if 0 <= c < parents.len() && parents[c] >= 0 {
                Some(parents[c] as int)
            } else {
                None
            },
            None => None,
        }
    }
}

/// `node` equals `root` or reaches it within `parents.len()` parent links.
pub open spec fn spec_is_descendant_or_self(parents: Seq<i32>, node: int, root: int) -> bool {
    node >= 0 && root >= 0 && exists|k: nat| k <= parents.len() && #[trigger] ancestor(parents, node, k) == Some(root)
}

proof fn lemma_ancestor_none_stays_none(parents: Seq<i32>, node: int, k: nat, m: nat)
    requires
        ancestor(parents, node, k).is_none(),
        k <= m,
    ensures
        ancestor(parents, node, m).is_none(),
    decreases m - k,
{
    if k < m {
        lemma_ancestor_none_stays_none(parents, node, k, (m - 1) as nat);
    }
}

/// Returns whether `node_id` is equal to or below `root_id` in the supplied parent table.
///
/// The walk is bounded by the table length, so parent cycles (including self-parents) terminate.
pub fn node_is_descendant_or_self(parents: &[i32], node_id: i32, root_id: i32) -> (r: bool)
    ensures
        r == spec_is_descendant_or_self(parents@, node_id as int, root_id as int),
{
    if node_id < 0 || root_id < 0 {
        return false;
    }
    let mut current = node_id;
    let mut i: usize = 0;
    let n = parents.len();
    loop
        invariant
            0 <= i <= n,
            n == parents@.len(),
            current >= 0,
            node_id >= 0,
            root_id >= 0,
            ancestor(parents@, node_id as int, i as nat) == Some(current as int),
            forall|k: nat| k < i ==> #[trigger] ancestor(parents@, node_id as int, k) != Some(root_id as int),
        decreases n - i,
    {
        if current == root_id {
            proof {
                assert(ancestor(parents@, node_id as int, i as nat) == Some(root_id as int));
            }
            return true;
        }
        if i == n {
            return false;
        }
        let c = current as usize;
        if c >= n {
            proof {
                assert(ancestor(parents@, node_id as int, (i + 1) as nat).is_none());
                assert forall|k: nat| k <= n implies #[trigger] ancestor(parents@, node_id as int, k) != Some(root_id as int) by {
                    if k > i {
                        lemma_ancestor_none_stays_none(parents@, node_id as int, (i + 1) as nat, k);
                    }
                }
            }
            return false;
        }
        let parent = parents[c];
        if parent < 0 {
            proof {
                assert(ancestor(parents@, node_id as int, (i + 1) as nat).is_none());
                assert forall|k: nat| k <= n implies #[trigger] ancestor(parents@, node_id as int, k) != Some(root_id as int) by {
                    if k > i {
                        lemma_ancestor_none_stays_none(parents@, node_id as int, (i + 1) as nat, k);
                    }
                }
            }
            return false;
        }
        current = parent;
        i += 1;
    }
}

/// `node` is at or below one of `roots`.
pub open spec fn spec_is_under_any_root(parents: Seq<i32>, node: int, roots: Seq<i32>) -> bool {
    exists|j: int| 0 <= j < roots.len() && spec_is_descendant_or_self(parents, node, #[trigger] roots[j] as int)
}

/// Returns whether `node_id` is below any root in `roots`.
pub fn node_is_under_any_root(parents: &[i32], node_id: i32, roots: &[i32]) -> (r: bool)
    ensures
        r == spec_is_under_any_root(parents@, node_id as int, roots@),
{
    let mut j: usize = 0;
    while j < roots.len()
        invariant
            j <= roots@.len(),
            forall|t: int| 0 <= t < j ==> !spec_is_descendant_or_self(parents@, node_id as int, #[trigger] roots@[t] as int),
        decreases roots@.len() - j,
    {
        if node_is_descendant_or_self(parents, node_id, roots[j]) {
            return true;
        }
        j += 1;
    }
    false
}

/// The table has exactly one root node (negative parent) and that node is listed in `roots`.
pub open spec fn spec_roots_cover_space(parents: Seq<i32>, roots: Seq<i32>) -> bool {
    exists|r: int| {
        &&& 0 <= r < parents.len()
        &&& parents[r] < 0
        &&& forall|o: int| 0 <= o < parents.len() && o != r ==> parents[o] >= 0
        &&& roots.contains(r as i32)
    }
}

/// Returns whether a transform root covers every tree in the supplied parent table.
pub fn transform_roots_cover_space(parents: &[i32], roots: &[i32]) -> (r: bool)
    requires
        parents@.len() <= i32::MAX,
    ensures
        r == spec_roots_cover_space(parents@, roots@),
{
    let mut root_node: Option<usize> = None;
    let mut i: usize = 0;
    while i < parents.len()
        invariant
            i <= parents@.len(),
            parents@.len() <= i32::MAX,
            match root_node {
                None => forall|o: int| 0 <= o < i ==> parents@[o] >= 0,
                Some(r) => r < i && parents@[r as int] < 0 && forall|o: int| 0 <= o < i && o != r ==> parents@[o] >= 0,
            },
        decreases parents@.len() - i,
    {
        if parents[i] < 0 {
            if root_node.is_some() {
                proof {
                    assert(!spec_roots_cover_space(parents@, roots@)) by {
                        let first = root_node.unwrap() as int;
                        if exists|r: int| {
                            &&& 0 <= r < parents@.len()
                            &&& parents@[r] < 0
                            &&& forall|o: int| 0 <= o < parents@.len() && o != r ==> parents@[o] >= 0
                            &&& roots@.contains(r as i32)
                        } {
                            let r = choose|r: int| {
                                &&& 0 <= r < parents@.len()
                                &&& parents@[r] < 0
                                &&& forall|o: int| 0 <= o < parents@.len() && o != r ==> parents@[o] >= 0
                                &&& roots@.contains(r as i32)
                            };
                            assert(r == first || r == i as int);
                        }
                    }
                }
                return false;
            }
            root_node = Some(i);
        }
        i += 1;
    }
    match root_node {
        None => {
            false
        },
        Some(root) => {
            let target = root as i32;
            let mut j: usize = 0;
            while j < roots.len()
                invariant
                    j <= roots@.len(),
                    root < parents@.len(),
                    parents@[root as int] < 0,
                    forall|o: int| 0 <= o < parents@.len() && o != root ==> parents@[o] >= 0,
                    parents@.len() <= i32::MAX,
                    target == root as i32,
                    forall|t: int| 0 <= t < j ==> roots@[t] != target,
                decreases roots@.len() - j,
            {
                if roots[j] == target {
                    proof {
                        assert(roots@.contains(target));
                        assert(root as int == target as int);
                    }
                    return true;
                }
                j += 1;
            }
            proof {
                assert(!roots@.contains(target));
                assert(!spec_roots_cover_space(parents@, roots@)) by {
                    if exists|r: int| {
                        &&& 0 <= r < parents@.len()
                        &&& parents@[r] < 0
                        &&& forall|o: int| 0 <= o < parents@.len() && o != r ==> parents@[o] >= 0
                        &&& roots@.contains(r as i32)
                    } {
                        let r = choose|r: int| {
                            &&& 0 <= r < parents@.len()
                            &&& parents@[r] < 0
                            &&& forall|o: int| 0 <= o < parents@.len() && o != r ==> parents@[o] >= 0
                            &&& roots@.contains(r as i32)
                        };
                        assert(r == root as int);
                    }
                }
            }
            false
        },
    }
}

/// Every node is its own descendant.
pub proof fn lemma_descendant_reflexive(parents: Seq<i32>, node: int)
    requires
        node >= 0,
    ensures
        spec_is_descendant_or_self(parents, node, node),
{
    assert(ancestor(parents, node, 0) == Some(node));
}

/// A node whose parent link points at `root` is a descendant of `root`.
pub proof fn lemma_child_is_descendant(parents: Seq<i32>, child: int)
    requires
        0 <= child < parents.len(),
        parents[child] >= 0,
    ensures
        spec_is_descendant_or_self(parents, child, parents[child] as int),
{
    assert(ancestor(parents, child, 0) == Some(child));
    assert(ancestor(parents, child, 1) == Some(parents[child] as int));
}

} // verus!
