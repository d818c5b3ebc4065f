//! A snapshot of a directory tree, and the size aggregator that sums the
//! bytes of all regular files beneath a node.
//!
//! The snapshot holds, as plain values, everything the scan reads of an
//! entry: its path, whether it is a directory, whether the platform reports
//! it hidden, its byte length when it is a regular file, and its children.
//! Unreadable entries are represented as they contribute: a file whose
//! metadata could not be read carries length zero, and a directory that
//! could not be listed has no children.

use vstd::prelude::*;

verus! {

/// One filesystem entry in a snapshot of the scanned tree.
pub struct FsNode {
    /// The full path of the entry.
    pub path: String,
    /// Whether the entry is a directory.
    pub is_dir: bool,
    /// Whether the platform reports the entry as hidden.
    pub hidden: bool,
    /// The byte length of the entry when it is a regular file; zero for
    /// directories and for files whose metadata could not be read.
    pub file_size: u64,
    /// The entries listed directly beneath a directory, in the order the
    /// listing returned them; empty for files and unreadable directories.
    pub children: Vec<FsNode>,
}

/// The total byte length of all regular files transitively beneath a node:
/// a file contributes its own length, a directory the sum over its children.
pub open spec fn node_size(n: FsNode) -> nat
    decreases n, 1int,
{
    if n.is_dir {
        sum_sizes(n.children@)
    } else {
        n.file_size as nat
    }
}

/// The sum of `node_size` over a sequence of nodes.
pub open spec fn sum_sizes(s: Seq<FsNode>) -> nat
    decreases s, 0int,
{
    if s.len() == 0 {
        0
    } else {
        node_size(s[0]) + sum_sizes(s.subrange(1, s.len() as int))
    }
}

/// Summing a prefix one node at a time neither skips nor repeats anything:
/// extending the prefix by one node adds exactly that node's size.
pub proof fn lemma_sum_sizes_prefix(s: Seq<FsNode>, i: int)
    requires
        0 <= i < s.len(),
    ensures
        sum_sizes(s.subrange(0, i + 1)) == sum_sizes(s.subrange(0, i)) + node_size(s[i]),
    decreases s.len(),
{
    let t = s.subrange(1, s.len() as int);
    if i == 0 {
        assert(s.subrange(0, 1) =~= seq![s[0]]);
        assert(s.subrange(0, 1).subrange(1, 1) =~= Seq::<FsNode>::empty());
        assert(s.subrange(0, 0) =~= Seq::<FsNode>::empty());
    } else {
        lemma_sum_sizes_prefix(t, i - 1);
        let u = s.subrange(0, i + 1);
        let v = s.subrange(0, i);
        assert(u.subrange(1, u.len() as int) =~= t.subrange(0, i));
        assert(v.subrange(1, v.len() as int) =~= t.subrange(0, i - 1));
        assert(t[i - 1] == s[i]);
    }
}

/// `node_size`, clamped to what a machine word can carry: the exact total
/// whenever it fits.
pub open spec fn clamped_size(n: FsNode) -> nat {
    if node_size(n) <= u64::MAX {
        node_size(n)
    } else {
        u64::MAX as nat
    }
}

/// Returns the total byte length of all regular files transitively beneath
/// `node`, exact whenever it fits the result.  The aggregate always exists:
/// entries that could not be read are present in the snapshot as zero-length
/// files or childless directories, so the caller is never failed.
pub fn get_size(node: &FsNode) -> (r: u64)
    ensures
        r == clamped_size(*node),
    decreases *node,
{
    if !node.is_dir {
        return node.file_size;
    }
    let n = node.children.len();
    let mut total: u64 = 0;
    let mut i: usize = 0;
    proof {
        assert(node.children@.subrange(0, 0) =~= Seq::<FsNode>::empty());
    }
    while i < n
        invariant
            node.is_dir,
            n == node.children@.len(),
            0 <= i <= n,
            total == (if sum_sizes(node.children@.subrange(0, i as int)) <= u64::MAX {
                sum_sizes(node.children@.subrange(0, i as int)) as int
            } else {
                u64::MAX as int
            }),
        decreases n - i,
    {
        proof {
            lemma_sum_sizes_prefix(node.children@, i as int);
        }
        let c = get_size(&node.children[i]);
        if c > u64::MAX - total {
            total = u64::MAX;
        } else {
            total = total + c;
        }
        i += 1;
    }
    proof {
        assert(node.children@.subrange(0, n as int) =~= node.children@);
    }
    total
}

/// Does `x` occur in the subtree rooted at `t` — as `t` itself or anywhere
/// beneath it?
pub open spec fn in_subtree(x: FsNode, t: FsNode) -> bool
    decreases t, 1int,
{
    x == t || in_forest(x, t.children@)
}

/// Does `x` occur in the subtree of any node of `s`?
pub open spec fn in_forest(x: FsNode, s: Seq<FsNode>) -> bool
    decreases s, 0int,
{
    if s.len() == 0 {
        false
    } else {
        in_subtree(x, s[0]) || in_forest(x, s.subrange(1, s.len() as int))
    }
}

/// How many entries of the subtree rooted at `t` carry the path `p`.
pub open spec fn path_count(p: Seq<char>, t: FsNode) -> nat
    decreases t, 1int,
{
    (if t.path@ == p {
        1nat
    } else {
        0nat
    }) + forest_path_count(p, t.children@)
}

/// How many entries beneath the nodes of `s` carry the path `p`.
pub open spec fn forest_path_count(p: Seq<char>, s: Seq<FsNode>) -> nat
    decreases s, 0int,
{
    if s.len() == 0 {
        0
    } else {
        path_count(p, s[0]) + forest_path_count(p, s.subrange(1, s.len() as int))
    }
}

/// Every path names at most one entry in the snapshot.  A snapshot read
/// from a filesystem has this: no filesystem holds two entries with one
/// path.
pub open spec fn unique_paths(t: FsNode) -> bool {
    forall|p: Seq<char>| path_count(p, t) <= 1
}

/// `x` occurs in a forest exactly when it occurs in the subtree of one of
/// its nodes.
pub proof fn lemma_in_forest_index(x: FsNode, s: Seq<FsNode>)
    ensures
        in_forest(x, s) <==> exists|i: int| 0 <= i < s.len() && in_subtree(x, #[trigger] s[i]),
    decreases s.len(),
{
    if s.len() > 0 {
        let t = s.subrange(1, s.len() as int);
        lemma_in_forest_index(x, t);
        assert(forall|i: int| 0 <= i < t.len() ==> #[trigger] t[i] == s[i + 1]);
        if in_forest(x, s) {
            if in_subtree(x, s[0]) {
                assert(in_subtree(x, s[0]));
            } else {
                let i = choose|i: int| 0 <= i < t.len() && in_subtree(x, #[trigger] t[i]);
                assert(in_subtree(x, s[i + 1]));
            }
        }
        if exists|i: int| 0 <= i < s.len() && in_subtree(x, #[trigger] s[i]) {
            let i = choose|i: int| 0 <= i < s.len() && in_subtree(x, #[trigger] s[i]);
            if i > 0 {
                assert(in_subtree(x, t[i - 1]));
            }
        }
    }
}

/// An entry that occurs in a subtree is counted there: its path occurs at
/// least once.
pub proof fn lemma_in_subtree_count(x: FsNode, t: FsNode)
    requires
        in_subtree(x, t),
    ensures
        path_count(x.path@, t) >= 1,
    decreases t, 1int,
{
    if x == t {
    } else {
        lemma_in_forest_count(x, t.children@);
    }
}

/// An entry that occurs in a forest is counted there: its path occurs at
/// least once.
pub proof fn lemma_in_forest_count(x: FsNode, s: Seq<FsNode>)
    requires
        in_forest(x, s),
    ensures
        forest_path_count(x.path@, s) >= 1,
    decreases s, 0int,
{
    if in_subtree(x, s[0]) {
        lemma_in_subtree_count(x, s[0]);
    } else {
        lemma_in_forest_count(x, s.subrange(1, s.len() as int));
    }
}

/// Containment in subtrees is transitive.
pub proof fn lemma_in_subtree_trans(x: FsNode, y: FsNode, z: FsNode)
    requires
        in_subtree(x, y),
        in_subtree(y, z),
    ensures
        in_subtree(x, z),
    decreases z, 1int,
{
    if y == z {
    } else {
        lemma_in_forest_trans(x, y, z.children@);
    }
}

/// Containment below a forest is closed under containment in a member.
pub proof fn lemma_in_forest_trans(x: FsNode, y: FsNode, s: Seq<FsNode>)
    requires
        in_subtree(x, y),
        in_forest(y, s),
    ensures
        in_forest(x, s),
    decreases s, 0int,
{
    if in_subtree(y, s[0]) {
        lemma_in_subtree_trans(x, y, s[0]);
    } else {
        lemma_in_forest_trans(x, y, s.subrange(1, s.len() as int));
    }
}

/// A forest counts a path at least as often as any one of its members does.
pub proof fn lemma_forest_count_one(p: Seq<char>, s: Seq<FsNode>, i: int)
    requires
        0 <= i < s.len(),
    ensures
        forest_path_count(p, s) >= path_count(p, s[i]),
    decreases s.len(),
{
    if i > 0 {
        let t = s.subrange(1, s.len() as int);
        lemma_forest_count_one(p, t, i - 1);
        assert(t[i - 1] == s[i]);
    }
}

/// A forest counts a path at least as often as any two distinct members do
/// together.
pub proof fn lemma_forest_count_two(p: Seq<char>, s: Seq<FsNode>, i: int, j: int)
    requires
        0 <= i < j < s.len(),
    ensures
        forest_path_count(p, s) >= path_count(p, s[i]) + path_count(p, s[j]),
    decreases s.len(),
{
    let t = s.subrange(1, s.len() as int);
    if i == 0 {
        lemma_forest_count_one(p, t, j - 1);
        assert(t[j - 1] == s[j]);
    } else {
        lemma_forest_count_two(p, t, i - 1, j - 1);
        assert(t[i - 1] == s[i]);
        assert(t[j - 1] == s[j]);
    }
}

} // verus!
