use vstd::prelude::*;

use crate::bone::{AnimDataBone, BoneBaseInfo, BoneDummyInfo, KeyEncoding};
use crate::error::LabError;
use crate::transform::{spec_local_ok, LocalTransform};
use crate::NO_PARENT_ID;

verus! {

/// One node of the joint hierarchy.  Links are indices into the owning
/// tree's `joints`, never references, so the tree needs no shared or
/// interior-mutable ownership.
#[derive(Debug)]
pub struct Joint {
    /// The bone's id; ids are dense, so it equals the node's index.
    pub bone_id: u32,
    /// The bone's decoded name (cut at the first null byte).
    pub bone_name: Vec<u8>,
    /// The parent id as stored in the file; `NO_PARENT_ID` for the root.
    pub parent_id: u32,
    /// Index of the parent node; `None` exactly for the root.
    pub parent: Option<usize>,
    /// Indices of the children, strictly ascending.
    pub children: Vec<usize>,
    /// Distance to the root; the root has depth zero.
    pub depth: u32,
    /// The bone's rest-pose local transform: its frame-0 key sample.
    pub rest: LocalTransform,
    /// Ids of the attachment markers fixed to this bone, in file order.
    pub dummies: Vec<u32>,
}

/// The joint hierarchy: an arena of nodes and the index of its single
/// root.  Built once after decoding; immutable thereafter.
#[derive(Debug)]
pub struct JointTree {
    pub joints: Vec<Joint>,
    pub root: usize,
}

/// Bone `i` of `base` carries the sentinel parent id.
pub open spec fn spec_is_root(base: Seq<BoneBaseInfo>, i: int) -> bool {
    base[i].parent_id == NO_PARENT_ID
}

/// Every bone record's id equals its position: ids are dense.
pub open spec fn spec_ids_dense(base: Seq<BoneBaseInfo>) -> bool {
    forall|i: int| 0 <= i < base.len() ==> (#[trigger] base[i].id) as int == i
}

/// Bone `k`'s parent id neither is the sentinel nor names an existing
/// bone: a dangling reference.
pub open spec fn spec_is_unresolved(base: Seq<BoneBaseInfo>, k: int) -> bool {
    base[k].parent_id != NO_PARENT_ID && base[k].parent_id as int >= base.len()
}

/// The `(bone id, parent id)` pairs of the dangling references among the
/// first `i` bones, in bone order.
pub open spec fn spec_unresolved_pairs(base: Seq<BoneBaseInfo>, i: int) -> Seq<(u32, u32)>
    decreases i,
{
    if i <= 0 {
        Seq::empty()
    } else if spec_is_unresolved(base, i - 1) {
        spec_unresolved_pairs(base, i - 1).push((((i - 1) as u32), base[i - 1].parent_id))
    } else {
        spec_unresolved_pairs(base, i - 1)
    }
}

pub proof fn lemma_unresolved_pairs_empty(base: Seq<BoneBaseInfo>, i: int)
    ensures
        spec_unresolved_pairs(base, i).len() == 0 <==> forall|k: int|
            0 <= k < i ==> !spec_is_unresolved(base, k),
    decreases i,
{
    if i > 0 {
        lemma_unresolved_pairs_empty(base, i - 1);
    }
}

/// Following parent ids from bone `k` meets the root within `fuel`
/// steps.
pub open spec fn spec_reaches_root(base: Seq<BoneBaseInfo>, root: int, k: int, fuel: int) -> bool
    decreases fuel,
{
    if fuel <= 0 {
        false
    } else if k == root {
        true
    } else {
        spec_reaches_root(base, root, base[k].parent_id as int, fuel - 1)
    }
}

pub proof fn lemma_reaches_monotone(base: Seq<BoneBaseInfo>, root: int, k: int, f: int, g: int)
    requires
        spec_reaches_root(base, root, k, f),
        f <= g,
    ensures
        spec_reaches_root(base, root, k, g),
    decreases f,
{
    if k != root {
        lemma_reaches_monotone(base, root, base[k].parent_id as int, f - 1, g - 1);
    }
}

/// The ids among the first `i` bones whose parent chain does not meet
/// the root within `base.len()` steps, ascending.
pub open spec fn spec_unreachable_ids(base: Seq<BoneBaseInfo>, root: int, i: int) -> Seq<u32>
    decreases i,
{
    if i <= 0 {
        Seq::empty()
    } else if !spec_reaches_root(base, root, i - 1, base.len() as int) {
        spec_unreachable_ids(base, root, i - 1).push((i - 1) as u32)
    } else {
        spec_unreachable_ids(base, root, i - 1)
    }
}

pub proof fn lemma_unreachable_ids_empty(base: Seq<BoneBaseInfo>, root: int, i: int)
    ensures
        spec_unreachable_ids(base, root, i).len() == 0 <==> forall|k: int|
            0 <= k < i ==> spec_reaches_root(base, root, k, base.len() as int),
    decreases i,
{
    if i > 0 {
        lemma_unreachable_ids_empty(base, root, i - 1);
    }
}

impl JointTree {
    /// Node `k` is well formed: its id is its index, its parent link
    /// mirrors its stored parent id, its depth counts from the root and
    /// its child list is strictly ascending and points back at it.
    pub open spec fn joint_wf(&self, k: int) -> bool {
        let n = self.joints@.len() as int;
        let j = self.joints@[k];
        &&& j.bone_id as int == k
        &&& (j.depth as int) < n
        &&& if k == self.root as int {
            j.parent is None && j.parent_id == NO_PARENT_ID && j.depth == 0
        } else {
            &&& j.parent_id != NO_PARENT_ID
            &&& (j.parent matches Some(p) && p as int == j.parent_id as int && (p as int) < n
                && j.depth == self.joints@[p as int].depth + 1)
        }
        &&& forall|c: int|
            0 <= c < j.children@.len() ==> ({
                let ch = #[trigger] j.children@[c];
                (ch as int) < n && self.joints@[ch as int].parent == Some(k as usize)
            })
        &&& forall|c1: int, c2: int|
            0 <= c1 < c2 < j.children@.len() ==> j.children@[c1] < j.children@[c2]
    }

    /// The tree invariant: a single root (the only node without a
    /// parent), every node well formed, and every non-root node listed
    /// among its parent's children.
    pub open spec fn wf(&self) -> bool {
        let n = self.joints@.len() as int;
        &&& (self.root as int) < n
        &&& forall|k: int| 0 <= k < n ==> self.joint_wf(k)
        &&& forall|k: int|
            0 <= k < n && k != self.root as int ==> self.joints@[(
            #[trigger] self.joints@[k]).parent_id as int].children@.contains(k as usize)
    }
}

/// Checks that ids are dense; reports the first offender.
fn check_dense_ids(base: &Vec<BoneBaseInfo>) -> (r: Result<(), LabError>)
    requires
        base@.len() < 0x100000000,
    ensures
        match r {
            Ok(()) => spec_ids_dense(base@),
            Err(e) => e matches LabError::NonDenseBoneId { index, id } && ({
                &&& (index as int) < base@.len()
                &&& base@[index as int].id == id
                &&& id != index
                &&& forall|j: int| 0 <= j < index as int ==> (#[trigger] base@[j].id) as int == j
            }),
        },
        r is Ok <==> spec_ids_dense(base@),
{
    let n = base.len();
    let mut i: usize = 0;
    while i < n
        invariant
            base@.len() == n,
            n < 0x100000000,
            i <= n,
            forall|j: int| 0 <= j < i ==> (#[trigger] base@[j].id) as int == j,
        decreases n - i,
    {
        if base[i].id as usize != i {
            return Err(LabError::NonDenseBoneId { index: i as u32, id: base[i].id });
        }
        i = i + 1;
    }
    Ok(())
}

/// Finds the single root: the one bone with the sentinel parent id.
fn find_root(base: &Vec<BoneBaseInfo>) -> (r: Result<usize, LabError>)
    requires
        base@.len() < 0x100000000,
    ensures
        match r {
            Ok(root) => {
                &&& (root as int) < base@.len()
                &&& spec_is_root(base@, root as int)
                &&& forall|j: int|
                    0 <= j < base@.len() && j != root as int ==> !spec_is_root(base@, j)
            },
            Err(e) => match e {
                LabError::MissingRoot => forall|j: int|
                    0 <= j < base@.len() ==> !spec_is_root(base@, j),
                LabError::MultipleRoots { first, second } => {
                    &&& (first as int) < (second as int) < base@.len()
                    &&& spec_is_root(base@, first as int)
                    &&& spec_is_root(base@, second as int)
                    &&& forall|j: int|
                        0 <= j < second as int && j != first as int ==> !spec_is_root(base@, j)
                },
                _ => false,
            },
        },
{
    let n = base.len();
    let mut root: usize = n;
    let mut i: usize = 0;
    while i < n
        invariant
            base@.len() == n,
            n < 0x100000000,
            i <= n,
            root == n || (root < i && spec_is_root(base@, root as int)),
            forall|j: int| 0 <= j < i && j != root as int ==> !spec_is_root(base@, j),
        decreases n - i,
    {
        if base[i].parent_id == NO_PARENT_ID {
            if root < n {
                return Err(LabError::MultipleRoots { first: root as u32, second: i as u32 });
            }
            root = i;
        }
        i = i + 1;
    }
    if root == n {
        return Err(LabError::MissingRoot);
    }
    Ok(root)
}

/// Collects every dangling parent reference; succeeds only when there is
/// none.
fn check_resolved(base: &Vec<BoneBaseInfo>) -> (r: Result<(), LabError>)
    requires
        base@.len() < 0x100000000,
    ensures
        match r {
            Ok(()) => forall|k: int| 0 <= k < base@.len() ==> !spec_is_unresolved(base@, k),
            Err(e) => e matches LabError::UnresolvedParents { pairs } && pairs@
                == spec_unresolved_pairs(base@, base@.len() as int) && pairs@.len() > 0,
        },
{
    let n = base.len();
    let mut pairs: Vec<(u32, u32)> = Vec::new();
    let mut i: usize = 0;
    while i < n
        invariant
            base@.len() == n,
            n < 0x100000000,
            i <= n,
            pairs@ == spec_unresolved_pairs(base@, i as int),
        decreases n - i,
    {
        let pid = base[i].parent_id;
        if pid != NO_PARENT_ID && pid as usize >= n {
            pairs.push((i as u32, pid));
        }
        i = i + 1;
    }
    proof {
        lemma_unresolved_pairs_empty(base@, n as int);
    }
    if pairs.len() > 0 {
        return Err(LabError::UnresolvedParents { pairs });
    }
    Ok(())
}

/// The state of the level-by-level depth assignment after all levels up
/// to `bound` have been filled: `n` in a slot means "not yet assigned";
/// an assigned slot is at most `bound`, mirrors its parent's depth plus
/// one, and every node whose parent sits strictly below `bound` has been
/// assigned.
pub open spec fn spec_depth_inv(
    base: Seq<BoneBaseInfo>,
    root: int,
    depth: Seq<u32>,
    bound: int,
) -> bool {
    let n = base.len() as int;
    &&& depth.len() == n
    &&& depth[root] == 0
    &&& forall|k: int|
        0 <= k < n ==> (#[trigger] depth[k]) as int == n || (depth[k] as int) <= bound
    &&& forall|k: int|
        0 <= k < n && k != root && (#[trigger] depth[k]) as int != n ==> ({
            let p = base[k].parent_id as int;
            (depth[p] as int) != n && depth[k] as int == depth[p] as int + 1
        })
    &&& forall|k: int|
        0 <= k < n && k != root ==> ({
            let p = (#[trigger] base[k]).parent_id as int;
            ((depth[p] as int) != n && (depth[p] as int) < bound) ==> (depth[k] as int) != n
        })
}

/// An assigned depth witnesses a parent chain to the root of that
/// length.
proof fn lemma_set_reaches(base: Seq<BoneBaseInfo>, root: int, depth: Seq<u32>, k: int, bound: int)
    requires
        spec_depth_inv(base, root, depth, bound),
        bound < base.len(),
        0 <= root < base.len(),
        forall|j: int| 0 <= j < base.len() ==> !spec_is_unresolved(base, j),
        forall|j: int| 0 <= j < base.len() && j != root ==> !spec_is_root(base, j),
        0 <= k < base.len(),
        (depth[k] as int) != base.len(),
    ensures
        spec_reaches_root(base, root, k, depth[k] as int + 1),
    decreases depth[k] as int,
{
    if k != root {
        let p = base[k].parent_id as int;
        assert(!spec_is_unresolved(base, k));
        assert(!spec_is_root(base, k));
        assert(0 <= p < base.len());
        lemma_set_reaches(base, root, depth, p, bound);
        lemma_reaches_monotone(base, root, p, depth[p] as int + 1, depth[k] as int);
    }
}

/// After the last level, every node that can reach the root has been
/// assigned, no deeper than its distance.
proof fn lemma_reaches_set(
    base: Seq<BoneBaseInfo>,
    root: int,
    depth: Seq<u32>,
    k: int,
    fuel: int,
)
    requires
        spec_depth_inv(base, root, depth, base.len() - 1),
        0 <= root < base.len(),
        forall|j: int| 0 <= j < base.len() ==> !spec_is_unresolved(base, j),
        forall|j: int| 0 <= j < base.len() && j != root ==> !spec_is_root(base, j),
        0 <= k < base.len(),
        spec_reaches_root(base, root, k, fuel),
        fuel <= base.len(),
    ensures
        (depth[k] as int) != base.len(),
        depth[k] as int <= fuel - 1,
    decreases fuel,
{
    if k != root {
        let p = base[k].parent_id as int;
        assert(!spec_is_unresolved(base, k));
        assert(!spec_is_root(base, k));
        assert(0 <= p < base.len());
        lemma_reaches_set(base, root, depth, p, fuel - 1);
    }
}

/// Assigns each node its distance to the root, level by level; nodes
/// whose parent chain never meets the root are reported together.
fn compute_depths(base: &Vec<BoneBaseInfo>, root: usize) -> (r: Result<Vec<u32>, LabError>)
    requires
        base@.len() < 0x100000000,
        (root as int) < base@.len(),
        spec_is_root(base@, root as int),
        forall|j: int| 0 <= j < base@.len() && j != root as int ==> !spec_is_root(base@, j),
        forall|k: int| 0 <= k < base@.len() ==> !spec_is_unresolved(base@, k),
    ensures
        match r {
            Ok(depth) => {
                &&& depth@.len() == base@.len()
                &&& depth@[root as int] == 0
                &&& forall|k: int|
                    0 <= k < base@.len() ==> ((#[trigger] depth@[k]) as int) < base@.len()
                &&& forall|k: int|
                    0 <= k < base@.len() && k != root as int ==> (#[trigger] depth@[k]) as int
                        == depth@[base@[k].parent_id as int] as int + 1
            },
            Err(e) => e matches LabError::UnreachableBones { ids } && ids@
                == spec_unreachable_ids(base@, root as int, base@.len() as int) && ids@.len() > 0,
        },
        r is Ok <==> forall|k: int|
            0 <= k < base@.len() ==> spec_reaches_root(base@, root as int, k, base@.len() as int),
{
    let n = base.len();
    let unset: u32 = n as u32;
    let mut depth: Vec<u32> = Vec::new();
    let mut i: usize = 0;
    while i < n
        invariant
            base@.len() == n,
            n < 0x100000000,
            unset == n as u32,
            i <= n,
            depth@.len() == i,
            forall|k: int| 0 <= k < i ==> (#[trigger] depth@[k]) == n as u32,
        decreases n - i,
    {
        depth.push(unset);
        i = i + 1;
    }
    depth[root] = 0;
    proof {
        assert(spec_depth_inv(base@, root as int, depth@, 0));
    }
    let mut r: usize = 1;
    while r < n
        invariant
            base@.len() == n,
            n < 0x100000000,
            unset == n as u32,
            (root as int) < n,
            spec_is_root(base@, root as int),
            forall|j: int| 0 <= j < n && j != root as int ==> !spec_is_root(base@, j),
            forall|k: int| 0 <= k < n ==> !spec_is_unresolved(base@, k),
            1 <= r <= n,
            spec_depth_inv(base@, root as int, depth@, r - 1),
        decreases n - r,
    {
        let mut k: usize = 0;
        while k < n
            invariant
                base@.len() == n,
                n < 0x100000000,
                unset == n as u32,
                (root as int) < n,
                spec_is_root(base@, root as int),
                forall|j: int| 0 <= j < n && j != root as int ==> !spec_is_root(base@, j),
                forall|j: int| 0 <= j < n ==> !spec_is_unresolved(base@, j),
                1 <= r < n,
                k <= n,
                depth@.len() == n,
                depth@[root as int] == 0,
                forall|j: int|
                    0 <= j < n ==> (#[trigger] depth@[j]) as int == n || (depth@[j] as int) <= r,
                forall|j: int|
                    0 <= j < n && j != root as int && (#[trigger] depth@[j]) as int != n ==> ({
                        let p = base@[j].parent_id as int;
                        (depth@[p] as int) != n && depth@[j] as int == depth@[p] as int + 1
                    }),
                forall|j: int|
                    0 <= j < n && j != root as int ==> ({
                        let p = (#[trigger] base@[j]).parent_id as int;
                        ((depth@[p] as int) != n && (depth@[p] as int) < r - 1) ==> (depth@[j] as int)
                            != n
                    }),
                forall|j: int|
                    0 <= j < k && j != root as int ==> ({
                        let p = (#[trigger] base@[j]).parent_id as int;
                        ((depth@[p] as int) != n && (depth@[p] as int) < r) ==> (depth@[j] as int)
                            != n
                    }),
            decreases n - k,
        {
            if k != root && depth[k] == unset {
                proof {
                    assert(!spec_is_unresolved(base@, k as int));
                    assert(!spec_is_root(base@, k as int));
                }
                let p = base[k].parent_id as usize;
                if depth[p] != unset && depth[p] as usize == r - 1 {
                    let ghost pre = depth@;
                    depth[k] = r as u32;
                    proof {
                        assert(depth@ == pre.update(k as int, r as u32));
                        assert forall|j: int|
                            0 <= j < n && j != root as int && ((#[trigger] depth@[j]) as int)
                                != n implies ({
                            let q = base@[j].parent_id as int;
                            (depth@[q] as int) != n && depth@[j] as int == depth@[q] as int + 1
                        }) by {
                            assert(!spec_is_unresolved(base@, j));
                            assert(!spec_is_root(base@, j));
                            let q = base@[j].parent_id as int;
                            if j == k as int {
                                assert(q == p as int);
                                assert(depth@[q] == pre[q]);
                            } else {
                                assert(depth@[j] == pre[j]);
                                assert((pre[base@[j].parent_id as int] as int) != n);
                                assert(q != k as int);
                            }
                        }
                        assert forall|j: int| 0 <= j < n && j != root as int implies ({
                            let q = (#[trigger] base@[j]).parent_id as int;
                            ((depth@[q] as int) != n && (depth@[q] as int) < r as int - 1) ==> (
                            depth@[j] as int) != n
                        }) by {
                            assert(!spec_is_unresolved(base@, j));
                            assert(!spec_is_root(base@, j));
                            let q = base@[j].parent_id as int;
                            if j != k as int && q != k as int {
                                assert(depth@[q] == pre[q]);
                                assert(depth@[j] == pre[j]);
                            }
                        }
                        assert forall|j: int| 0 <= j < k as int + 1 && j != root as int implies ({
                            let q = (#[trigger] base@[j]).parent_id as int;
                            ((depth@[q] as int) != n && (depth@[q] as int) < r as int) ==> (
                            depth@[j] as int) != n
                        }) by {
                            assert(!spec_is_unresolved(base@, j));
                            assert(!spec_is_root(base@, j));
                            let q = base@[j].parent_id as int;
                            if j != k as int && (depth@[q] as int) != n && (depth@[q] as int)
                                < r as int {
                                if q != k as int {
                                    assert(depth@[q] == pre[q]);
                                    assert(depth@[j] == pre[j]);
                                }
                            }
                        }
                    }
                }
            }
            k = k + 1;
        }
        r = r + 1;
    }
    proof {
        if n > 0 {
            assert(spec_depth_inv(base@, root as int, depth@, n - 1));
        }
    }
    // collect the nodes that never got a depth: their chains miss the root
    let mut ids: Vec<u32> = Vec::new();
    let mut k: usize = 0;
    while k < n
        invariant
            base@.len() == n,
            n < 0x100000000,
            unset == n as u32,
            (root as int) < n,
            spec_depth_inv(base@, root as int, depth@, n - 1),
            spec_is_root(base@, root as int),
            forall|j: int| 0 <= j < n && j != root as int ==> !spec_is_root(base@, j),
            forall|j: int| 0 <= j < n ==> !spec_is_unresolved(base@, j),
            k <= n,
            ids@ == spec_unreachable_ids(base@, root as int, k as int),
        decreases n - k,
    {
        proof {
            if depth@[k as int] as int != n {
                lemma_set_reaches(base@, root as int, depth@, k as int, n - 1);
                lemma_reaches_monotone(
                    base@,
                    root as int,
                    k as int,
                    depth@[k as int] as int + 1,
                    n as int,
                );
            } else {
                if spec_reaches_root(base@, root as int, k as int, n as int) {
                    lemma_reaches_set(base@, root as int, depth@, k as int, n as int);
                }
            }
        }
        if depth[k] == unset {
            ids.push(k as u32);
        }
        k = k + 1;
    }
    proof {
        lemma_unreachable_ids_empty(base@, root as int, n as int);
    }
    if ids.len() > 0 {
        return Err(LabError::UnreachableBones { ids });
    }
    proof {
        assert forall|j: int| 0 <= j < n implies ((#[trigger] depth@[j]) as int) < n by {
            assert(spec_reaches_root(base@, root as int, j, n as int));
            lemma_reaches_set(base@, root as int, depth@, j, n as int);
        }
    }
    Ok(depth)
}

proof fn lemma_push_contains<A>(s: Seq<A>, x: A, y: A)
    requires
        s.contains(x),
    ensures
        s.push(y).contains(x),
{
    let i = choose|i: int| 0 <= i < s.len() && s[i] == x;
    assert(s.push(y)[i] == x);
}

/// For each bone, the ascending list of its children's indices.
fn build_children(base: &Vec<BoneBaseInfo>, root: usize) -> (r: Vec<Vec<usize>>)
    requires
        base@.len() < 0x100000000,
        (root as int) < base@.len(),
        spec_is_root(base@, root as int),
        forall|j: int| 0 <= j < base@.len() && j != root as int ==> !spec_is_root(base@, j),
        forall|k: int| 0 <= k < base@.len() ==> !spec_is_unresolved(base@, k),
    ensures
        r@.len() == base@.len(),
        forall|p: int, c: int|
            0 <= p < base@.len() && 0 <= c < r@[p]@.len() ==> ({
                let ch = #[trigger] r@[p]@[c];
                &&& (ch as int) < base@.len()
                &&& ch as int != root as int
                &&& base@[ch as int].parent_id as int == p
            }),
        forall|p: int, c1: int, c2: int|
            0 <= p < base@.len() && 0 <= c1 < c2 < r@[p]@.len() ==> r@[p]@[c1] < r@[p]@[c2],
        forall|k: int|
            0 <= k < base@.len() && k != root as int ==> r@[(
            #[trigger] base@[k]).parent_id as int]@.contains(k as usize),
{
    let n = base.len();
    let mut lists: Vec<Vec<usize>> = Vec::new();
    let mut i: usize = 0;
    while i < n
        invariant
            i <= n,
            lists@.len() == i,
            forall|p: int| 0 <= p < i ==> (#[trigger] lists@[p])@.len() == 0,
        decreases n - i,
    {
        lists.push(Vec::new());
        i = i + 1;
    }
    let mut k: usize = 0;
    while k < n
        invariant
            base@.len() == n,
            n < 0x100000000,
            (root as int) < n,
            spec_is_root(base@, root as int),
            forall|j: int| 0 <= j < n && j != root as int ==> !spec_is_root(base@, j),
            forall|j: int| 0 <= j < n ==> !spec_is_unresolved(base@, j),
            k <= n,
            lists@.len() == n,
            forall|p: int, c: int|
                0 <= p < n && 0 <= c < lists@[p]@.len() ==> ({
                    let ch = #[trigger] lists@[p]@[c];
                    &&& (ch as int) < k as int
                    &&& ch as int != root as int
                    &&& base@[ch as int].parent_id as int == p
                }),
            forall|p: int, c1: int, c2: int|
                0 <= p < n && 0 <= c1 < c2 < lists@[p]@.len() ==> lists@[p]@[c1] < lists@[p]@[c2],
            forall|j: int|
                0 <= j < k && j != root as int ==> lists@[(
                #[trigger] base@[j]).parent_id as int]@.contains(j as usize),
        decreases n - k,
    {
        if k != root {
            proof {
                assert(!spec_is_unresolved(base@, k as int));
                assert(!spec_is_root(base@, k as int));
            }
            let p = base[k].parent_id as usize;
            let ghost pre = lists@;
            lists[p].push(k);
            proof {
                let pl = pre[p as int]@;
                assert(lists@[p as int]@ == pl.push(k));
                assert(lists@ == pre.update(p as int, lists@[p as int]));
                assert(lists@[p as int]@[pl.len() as int] == k);
                assert(lists@[p as int]@.contains(k));
                assert forall|j: int|
                    0 <= j < k as int + 1 && j != root as int implies lists@[(
                #[trigger] base@[j]).parent_id as int]@.contains(j as usize) by {
                    assert(!spec_is_unresolved(base@, j));
                    assert(!spec_is_root(base@, j));
                    let q = base@[j].parent_id as int;
                    if j < k as int {
                        assert(pre[q]@.contains(j as usize));
                        if q == p as int {
                            lemma_push_contains(pl, j as usize, k);
                        }
                    }
                }
            }
        }
        k = k + 1;
    }
    lists
}

/// The ids of the attachment markers among the first `i` of `ds` whose
/// parent bone id is `k`, in file order.
pub open spec fn spec_dummy_ids(ds: Seq<BoneDummyInfo>, k: u32, i: int) -> Seq<u32>
    decreases i,
{
    if i <= 0 {
        Seq::empty()
    } else if ds[i - 1].parent_bone_id == k {
        spec_dummy_ids(ds, k, i - 1).push(ds[i - 1].id)
    } else {
        spec_dummy_ids(ds, k, i - 1)
    }
}

/// Ids of the markers attached to bone `k`, in file order.
fn dummy_ids_for(ds: &Vec<BoneDummyInfo>, k: u32) -> (r: Vec<u32>)
    ensures
        r@ == spec_dummy_ids(ds@, k, ds@.len() as int),
{
    let n = ds.len();
    let mut out: Vec<u32> = Vec::new();
    let mut j: usize = 0;
    while j < n
        invariant
            ds@.len() == n,
            j <= n,
            out@ == spec_dummy_ids(ds@, k, j as int),
        decreases n - j,
    {
        if ds[j].parent_bone_id == k {
            out.push(ds[j].id);
        }
        j = j + 1;
    }
    out
}

fn clone_u8_vec(v: &Vec<u8>) -> (r: Vec<u8>)
    ensures
        r@ == v@,
{
    let r = v.clone();
    proof {
        assert(r@ =~= v@);
    }
    r
}

fn clone_usize_vec(v: &Vec<usize>) -> (r: Vec<usize>)
    ensures
        r@ == v@,
{
    let r = v.clone();
    proof {
        assert(r@ =~= v@);
    }
    r
}

/// The index of the single root bone.
pub open spec fn spec_root_of(base: Seq<BoneBaseInfo>) -> int {
    choose|i: int| 0 <= i < base.len() && spec_is_root(base, i)
}

/// The dataset admits a joint tree: a usable key encoding, dense ids,
/// exactly one root, every parent reference resolved, and every parent
/// chain meeting the root.
pub open spec fn spec_build_ready(d: AnimDataBone) -> bool {
    let base = d.base_seq@;
    let n = base.len() as int;
    &&& d.header.key_type != KeyEncoding::Invalid
    &&& spec_ids_dense(base)
    &&& exists|i: int| 0 <= i < n && spec_is_root(base, i)
    &&& forall|i: int, j: int|
        0 <= i < n && 0 <= j < n && spec_is_root(base, i) && spec_is_root(base, j) ==> i == j
    &&& forall|k: int| 0 <= k < n ==> !spec_is_unresolved(base, k)
    &&& forall|k: int| 0 <= k < n ==> spec_reaches_root(base, spec_root_of(base), k, n)
}

/// The hierarchy error `generate_joint_structure` reports for `d`:
/// checks run in a fixed order and the first violated invariant wins.
pub open spec fn spec_build_err(d: AnimDataBone, e: LabError) -> bool {
    let base = d.base_seq@;
    let n = base.len() as int;
    if d.header.key_type == KeyEncoding::Invalid {
        e == LabError::TrackMismatch { bone: 0, frame: 0 }
    } else if !spec_ids_dense(base) {
        e matches LabError::NonDenseBoneId { index, id } && ({
            &&& (index as int) < n
            &&& base[index as int].id == id
            &&& id != index
            &&& forall|j: int| 0 <= j < index as int ==> (#[trigger] base[j].id) as int == j
        })
    } else if !(exists|i: int| 0 <= i < n && spec_is_root(base, i)) {
        e == LabError::MissingRoot
    } else if exists|i: int, j: int| 0 <= i < j < n && spec_is_root(base, i) && spec_is_root(base, j) {
        e matches LabError::MultipleRoots { first, second } && ({
            &&& (first as int) < (second as int) < n
            &&& spec_is_root(base, first as int)
            &&& spec_is_root(base, second as int)
            &&& forall|j: int|
                0 <= j < second as int && j != first as int ==> !spec_is_root(base, j)
        })
    } else if exists|k: int| 0 <= k < n && spec_is_unresolved(base, k) {
        e matches LabError::UnresolvedParents { pairs } && pairs@ == spec_unresolved_pairs(base, n)
    } else if exists|k: int|
        0 <= k < n && !spec_reaches_root(base, spec_root_of(base), k, n) {
        e matches LabError::UnreachableBones { ids } && ids@ == spec_unreachable_ids(
            base,
            spec_root_of(base),
            n,
        )
    } else {
        false
    }
}

/// `t` is the joint tree of `d`: well formed, one node per bone in bone
/// order, each carrying its bone's name, stored parent id, rest-pose
/// transform and attached marker ids.
pub open spec fn spec_tree_ok(d: AnimDataBone, t: JointTree) -> bool {
    let base = d.base_seq@;
    let n = base.len() as int;
    &&& t.wf()
    &&& t.joints@.len() == n
    &&& spec_is_root(base, t.root as int)
    &&& forall|k: int|
        0 <= k < n ==> ({
            let j = #[trigger] t.joints@[k];
            &&& j.bone_name@ == base[k].name@
            &&& j.parent_id == base[k].parent_id
            &&& spec_local_ok(d, k, 0, j.rest)
            &&& j.dummies@ == spec_dummy_ids(d.dummy_seq@, k as u32, d.dummy_seq@.len() as int)
        })
}

/// A well-formed joint tree has exactly one node with no parent — the
/// root — and every other node's parent link resolves to a node of the
/// same tree.
pub proof fn lemma_tree_single_root(t: JointTree)
    requires
        t.wf(),
    ensures
        t.joints@[t.root as int].parent is None,
        forall|k: int|
            0 <= k < t.joints@.len() && k != t.root as int ==> ((#[trigger] t.joints@[k]).parent
                matches Some(p) && (p as int) < t.joints@.len()),
        forall|k: int|
            0 <= k < t.joints@.len() && (#[trigger] t.joints@[k]).parent is None ==> k
                == t.root as int,
{
    assert(t.joint_wf(t.root as int));
    assert forall|k: int|
        0 <= k < t.joints@.len() && k != t.root as int implies (#[trigger] t.joints@[k]).parent
        matches Some(p) && (p as int) < t.joints@.len() by {
        assert(t.joint_wf(k));
    }
    assert forall|k: int|
        0 <= k < t.joints@.len() && (#[trigger] t.joints@[k]).parent is None implies k
        == t.root as int by {
        assert(t.joint_wf(k));
    }
}

impl AnimDataBone {
    /// Builds the joint tree: one node per bone, the single sentinel
    /// bone as root, every other node linked to the node its parent id
    /// names, markers attached to their bones, and each node carrying
    /// its rest-pose (frame-0) local transform.
    ///
    /// Hierarchy violations are fatal and carry the offending bone ids:
    /// a non-dense id, a missing or duplicated root, every dangling
    /// parent reference at once, or bones whose parent chain never
    /// reaches the root.
    pub fn generate_joint_structure(&self) -> (r: Result<JointTree, LabError>)
        requires
            self.wf(),
            self.header.frame_num >= 1,
        ensures
            match r {
                Ok(t) => spec_tree_ok(*self, t),
                Err(e) => spec_build_err(*self, e),
            },
            r is Ok <==> spec_build_ready(*self),
    {
        let rest_all = match self.generate_position_matrices_at_rest() {
            Ok(v) => v,
            Err(e) => {
                return Err(e);
            },
        };
        let base = &self.base_seq;
        let n = base.len();
        match check_dense_ids(base) {
            Ok(()) => {},
            Err(e) => {
                return Err(e);
            },
        }
        let root = match find_root(base) {
            Ok(root) => root,
            Err(e) => {
                return Err(e);
            },
        };
        proof {
            assert(spec_root_of(base@) == root as int);
        }
        match check_resolved(base) {
            Ok(()) => {},
            Err(e) => {
                proof {
                    lemma_unresolved_pairs_empty(base@, n as int);
                }
                return Err(e);
            },
        }
        let depth = match compute_depths(base, root) {
            Ok(d) => d,
            Err(e) => {
                proof {
                    lemma_unreachable_ids_empty(base@, root as int, n as int);
                }
                return Err(e);
            },
        };
        let children_lists = build_children(base, root);
        let mut rest_rem = rest_all;
        let mut joints: Vec<Joint> = Vec::new();
        let mut k: usize = 0;
        while k < n
            invariant
                self.wf(),
                self.header.frame_num >= 1,
                self.header.key_type != KeyEncoding::Invalid,
                base == &self.base_seq,
                base@.len() == n,
                n < 0x100000000,
                n == self.header.bone_num as int,
                (root as int) < n,
                spec_is_root(base@, root as int),
                forall|j: int| 0 <= j < n && j != root as int ==> !spec_is_root(base@, j),
                forall|j: int| 0 <= j < n ==> !spec_is_unresolved(base@, j),
                spec_ids_dense(base@),
                depth@.len() == n,
                depth@[root as int] == 0,
                forall|j: int| 0 <= j < n ==> ((#[trigger] depth@[j]) as int) < n,
                forall|j: int|
                    0 <= j < n && j != root as int ==> ((#[trigger] depth@[j]) as int) == depth@[
                        base@[j].parent_id as int
                    ] as int + 1,
                children_lists@.len() == n,
                forall|p: int, c: int|
                    0 <= p < n && 0 <= c < children_lists@[p]@.len() ==> ({
                        let ch = #[trigger] children_lists@[p]@[c];
                        &&& (ch as int) < n
                        &&& ch as int != root as int
                        &&& base@[ch as int].parent_id as int == p
                    }),
                forall|p: int, c1: int, c2: int|
                    0 <= p < n && 0 <= c1 < c2 < children_lists@[p]@.len()
                        ==> children_lists@[p]@[c1] < children_lists@[p]@[c2],
                forall|j: int|
                    0 <= j < n && j != root as int ==> children_lists@[(
                    #[trigger] base@[j]).parent_id as int]@.contains(j as usize),
                k <= n,
                rest_rem@.len() == n - k,
                forall|j: int|
                    0 <= j < n - k ==> spec_local_ok(
                        *self,
                        k as int + j,
                        0,
                        #[trigger] rest_rem@[j],
                    ),
                joints@.len() == k,
                forall|j: int|
                    0 <= j < k ==> ({
                        let jt = #[trigger] joints@[j];
                        &&& jt.bone_id as int == j
                        &&& jt.bone_name@ == base@[j].name@
                        &&& jt.parent_id == base@[j].parent_id
                        &&& jt.parent == (if j == root as int {
                            Option::<usize>::None
                        } else {
                            Option::<usize>::Some(base@[j].parent_id as usize)
                        })
                        &&& jt.children@ == children_lists@[j]@
                        &&& jt.depth == depth@[j]
                        &&& spec_local_ok(*self, j, 0, jt.rest)
                        &&& jt.dummies@ == spec_dummy_ids(
                            self.dummy_seq@,
                            j as u32,
                            self.dummy_seq@.len() as int,
                        )
                    }),
            decreases n - k,
        {
            let rest = rest_rem.remove(0);
            let parent = if k == root {
                None
            } else {
                proof {
                    assert(!spec_is_unresolved(base@, k as int));
                    assert(!spec_is_root(base@, k as int));
                }
                Some(base[k].parent_id as usize)
            };
            let joint = Joint {
                bone_id: k as u32,
                bone_name: clone_u8_vec(&base[k].name),
                parent_id: base[k].parent_id,
                parent,
                children: clone_usize_vec(&children_lists[k]),
                depth: depth[k],
                rest,
                dummies: dummy_ids_for(&self.dummy_seq, k as u32),
            };
            joints.push(joint);
            k = k + 1;
        }
        let t = JointTree { joints, root };
        proof {
            assert forall|k2: int| 0 <= k2 < n implies t.joint_wf(k2) by {
                assert(t.joints@[k2].children@ == children_lists@[k2]@);
                if k2 != root as int {
                    assert(!spec_is_root(base@, k2));
                    assert(!spec_is_unresolved(base@, k2));
                }
            }
            assert forall|k2: int|
                0 <= k2 < n && k2 != t.root as int implies t.joints@[(
            #[trigger] t.joints@[k2]).parent_id as int].children@.contains(k2 as usize) by {
                assert(!spec_is_unresolved(base@, k2));
                assert(!spec_is_root(base@, k2));
                let q = base@[k2].parent_id as int;
                assert(children_lists@[q]@.contains(k2 as usize));
                assert(t.joints@[q].children@ == children_lists@[q]@);
            }
            assert(t.wf());
        }
        Ok(t)
    }
}

} // verus!
