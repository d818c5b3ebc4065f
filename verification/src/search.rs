//! The tree search: walk a snapshot of a directory tree and return the
//! target directories found in it, pruning below every match.
//!
//! Only directories that are not hidden are searched.  Among the children of
//! one directory, if any is itself a target, only the first such child is
//! kept and none of its siblings is searched further or descended into;
//! otherwise the search descends into every searchable child and
//! concatenates what the subtrees return.  A matched directory's own
//! contents are never searched: size and deletion act on the whole matched
//! subtree.

use vstd::prelude::*;

use crate::fs_tree::FsNode;
use crate::fs_tree::forest_path_count;
use crate::fs_tree::in_forest;
use crate::fs_tree::in_subtree;
use crate::fs_tree::lemma_forest_count_two;
use crate::fs_tree::lemma_in_forest_index;
use crate::fs_tree::lemma_in_subtree_count;
use crate::fs_tree::lemma_in_subtree_trans;
use crate::fs_tree::path_count;
use crate::fs_tree::unique_paths;
use crate::matcher::is_match;
use crate::matcher::is_match_name;

verus! {

/// A child is descended into only when it is a directory and not hidden.
pub open spec fn is_searchable(c: FsNode) -> bool {
    c.is_dir && !c.hidden
}

/// A child the search would keep: a searchable directory whose path matches.
pub open spec fn is_matched_child(c: FsNode) -> bool {
    is_searchable(c) && is_match(c.path@)
}

/// The position of the first matched child of a sequence of children, or -1
/// when none of them is one.
pub open spec fn matched_child_idx(s: Seq<FsNode>) -> int
    decreases s.len(),
{
    if s.len() == 0 {
        -1
    } else if is_matched_child(s[0]) {
        0
    } else {
        let r = matched_child_idx(s.subrange(1, s.len() as int));
        if r == -1 {
            -1
        } else {
            r + 1
        }
    }
}

/// `matched_child_idx` finds exactly the first matched child: -1 means there
/// is none, and a non-negative result points at a matched child before which
/// none occurs.
pub proof fn lemma_matched_child_idx(s: Seq<FsNode>)
    ensures
        matched_child_idx(s) == -1 || 0 <= matched_child_idx(s) < s.len(),
        matched_child_idx(s) == -1 ==> forall|j: int|
            0 <= j < s.len() ==> !is_matched_child(s[j]),
        matched_child_idx(s) >= 0 ==> {
            let m = matched_child_idx(s);
            &&& m < s.len()
            &&& is_matched_child(s[m])
            &&& forall|j: int| 0 <= j < m ==> !is_matched_child(s[j])
        },
    decreases s.len(),
{
    if s.len() > 0 && !is_matched_child(s[0]) {
        let t = s.subrange(1, s.len() as int);
        lemma_matched_child_idx(t);
        if matched_child_idx(t) == -1 {
            assert forall|j: int| 0 <= j < s.len() implies !is_matched_child(s[j]) by {
                if j >= 1 {
                    assert(s[j] == t[j - 1]);
                }
            }
        } else {
            let m = matched_child_idx(t);
            assert(s[m + 1] == t[m]);
            assert forall|j: int| 0 <= j < m + 1 implies !is_matched_child(s[j]) by {
                if j >= 1 {
                    assert(s[j] == t[j - 1]);
                }
            }
        }
    }
}

/// The matched directories a search rooted at `n` returns, in the order the
/// walk encounters them.  If some child of `n` is itself a target, the
/// result is that first matched child alone; otherwise it is what the
/// searchable children return, concatenated in sibling order.
pub open spec fn search_tree(n: FsNode) -> Seq<FsNode>
    decreases n, 1int,
{
    let m = matched_child_idx(n.children@);
    if m >= 0 {
        seq![n.children@[m]]
    } else {
        search_dirs(n.children@)
    }
}

/// The concatenation of the searches rooted at each searchable node of `s`.
pub open spec fn search_dirs(s: Seq<FsNode>) -> Seq<FsNode>
    decreases s, 0int,
{
    if s.len() == 0 {
        Seq::empty()
    } else {
        (if is_searchable(s[0]) {
            search_tree(s[0])
        } else {
            Seq::empty()
        }) + search_dirs(s.subrange(1, s.len() as int))
    }
}

/// Searching children one at a time, front to back, assembles exactly
/// `search_dirs` of the prefix walked so far.
pub proof fn lemma_search_dirs_prefix(s: Seq<FsNode>, i: int)
    requires
        0 <= i < s.len(),
    ensures
        search_dirs(s.subrange(0, i + 1)) == search_dirs(s.subrange(0, i)) + (if is_searchable(
            s[i],
        ) {
            search_tree(s[i])
        } else {
            Seq::<FsNode>::empty()
        }),
    decreases s.len(),
{
    let t = s.subrange(1, s.len() as int);
    if i == 0 {
        assert(s.subrange(0, 1) =~= seq![s[0]]);
        assert(s.subrange(0, 1).subrange(1, 1) =~= Seq::<FsNode>::empty());
        assert(s.subrange(0, 0) =~= Seq::<FsNode>::empty());
        assert(search_dirs(s.subrange(0, 1)) =~= search_dirs(s.subrange(0, 0)) + (if is_searchable(
            s[0],
        ) {
            search_tree(s[0])
        } else {
            Seq::<FsNode>::empty()
        }));
    } else {
        lemma_search_dirs_prefix(t, i - 1);
        let u = s.subrange(0, i + 1);
        let v = s.subrange(0, i);
        assert(u.subrange(1, u.len() as int) =~= t.subrange(0, i));
        assert(v.subrange(1, v.len() as int) =~= t.subrange(0, i - 1));
        assert(t[i - 1] == s[i]);
        assert(search_dirs(u) =~= search_dirs(v) + (if is_searchable(s[i]) {
            search_tree(s[i])
        } else {
            Seq::<FsNode>::empty()
        }));
    }
}

/// Finds the position of the first matched child, scanning in listing order.
fn find_matched_child(children: &Vec<FsNode>) -> (r: Option<usize>)
    ensures
        match r {
            Some(i) => matched_child_idx(children@) == i as int,
            None => matched_child_idx(children@) == -1,
        },
{
    proof {
        lemma_matched_child_idx(children@);
    }
    let ghost m = matched_child_idx(children@);
    let n = children.len();
    let mut i: usize = 0;
    while i < n
        invariant
            m == matched_child_idx(children@),
            m == -1 || 0 <= m < children@.len(),
            m >= 0 ==> is_matched_child(children@[m]),
            m >= 0 ==> forall|j: int| 0 <= j < m ==> !is_matched_child(children@[j]),
            m == -1 ==> forall|j: int| 0 <= j < children@.len() ==> !is_matched_child(
                children@[j],
            ),
            n == children@.len(),
            0 <= i <= n,
            forall|j: int| 0 <= j < i ==> !is_matched_child(children@[j]),
        decreases n - i,
    {
        let c = &children[i];
        if c.is_dir && !c.hidden && is_match_name(c.path.as_str()) {
            proof {
                assert(is_matched_child(children@[i as int]));
                if m == -1 {
                    assert(!is_matched_child(children@[i as int]));
                } else if m < i {
                    assert(!is_matched_child(children@[m]));
                } else if m > i {
                    assert(!is_matched_child(children@[i as int]));
                }
            }
            return Some(i);
        }
        i += 1;
    }
    proof {
        if m >= 0 {
            assert(!is_matched_child(children@[m]));
        }
    }
    None
}

/// Searches the snapshot rooted at `node` and returns the matched
/// directories, each returned as the whole matched subtree, pruned below:
/// exactly `search_tree(node)`.
pub fn search_folder(node: FsNode) -> (r: Vec<FsNode>)
    ensures
        r@ == search_tree(node),
    decreases node,
{
    proof {
        lemma_matched_child_idx(node.children@);
    }
    let FsNode { path: _, is_dir: _, hidden: _, file_size: _, children } = node;
    let found = find_matched_child(&children);
    let mut rest = children;
    match found {
        Some(m) => {
            let child = rest.remove(m);
            let mut r: Vec<FsNode> = Vec::new();
            r.push(child);
            proof {
                assert(r@ =~= seq![node.children@[matched_child_idx(node.children@)]]);
            }
            r
        },
        None => {
            let mut result: Vec<FsNode> = Vec::new();
            let ghost all = node.children@;
            let ghost mut k: int = 0;
            proof {
                assert(rest@ =~= all.subrange(k, all.len() as int));
                assert(all.subrange(0, 0) =~= Seq::<FsNode>::empty());
            }
            while rest.len() > 0
                invariant
                    all == node.children@,
                    matched_child_idx(all) == -1,
                    0 <= k <= all.len(),
                    rest@ == all.subrange(k, all.len() as int),
                    result@ == search_dirs(all.subrange(0, k)),
                decreases rest@.len(),
            {
                let c = rest.remove(0);
                proof {
                    assert(c == all[k]);
                    lemma_search_dirs_prefix(all, k);
                    assert(rest@ =~= all.subrange(k + 1, all.len() as int));
                }
                if c.is_dir && !c.hidden {
                    proof {
                        assert(decreases_to!(node => node.children@[k]));
                    }
                    let mut sub = search_folder(c);
                    result.append(&mut sub);
                }
                proof {
                    k = k + 1;
                }
            }
            proof {
                assert(all.subrange(0, all.len() as int) =~= all);
            }
            result
        },
    }
}

/// Every entry a search returns is a matched child — a searchable directory
/// whose path matches — and lies somewhere beneath the root it was searched
/// from.
pub proof fn lemma_search_tree_sound(n: FsNode)
    ensures
        forall|k: int|
            0 <= k < search_tree(n).len() ==> is_matched_child(#[trigger] search_tree(n)[k])
                && in_forest(search_tree(n)[k], n.children@),
    decreases n, 1int,
{
    let s = n.children@;
    let m = matched_child_idx(s);
    lemma_matched_child_idx(s);
    if m >= 0 {
        assert(in_subtree(s[m], s[m]));
        lemma_in_forest_index(s[m], s);
        assert(search_tree(n)[0] == s[m]);
    } else {
        lemma_search_dirs_sound(s);
        assert forall|k: int|
            0 <= k < search_tree(n).len() implies is_matched_child(#[trigger] search_tree(n)[k])
            && in_forest(search_tree(n)[k], n.children@) by {
            assert(search_tree(n)[k] == search_dirs(s)[k]);
        }
    }
}

/// Every entry `search_dirs` returns is a matched child lying beneath one
/// of the searched nodes.
pub proof fn lemma_search_dirs_sound(s: Seq<FsNode>)
    ensures
        forall|k: int|
            0 <= k < search_dirs(s).len() ==> is_matched_child(#[trigger] search_dirs(s)[k])
                && in_forest(search_dirs(s)[k], s),
    decreases s, 0int,
{
    if s.len() > 0 {
        let t = s.subrange(1, s.len() as int);
        let head = if is_searchable(s[0]) {
            search_tree(s[0])
        } else {
            Seq::<FsNode>::empty()
        };
        if is_searchable(s[0]) {
            lemma_search_tree_sound(s[0]);
        }
        lemma_search_dirs_sound(t);
        assert forall|k: int|
            0 <= k < search_dirs(s).len() implies is_matched_child(
            #[trigger] search_dirs(s)[k],
        ) && in_forest(search_dirs(s)[k], s) by {
            let x = search_dirs(s)[k];
            if k < head.len() {
                assert(x == head[k]);
                assert(in_forest(x, s[0].children@));
                assert(in_subtree(x, s[0]));
            } else {
                assert(x == search_dirs(t)[k - head.len()]);
                assert(in_forest(x, t));
            }
        }
    }
}

/// Pruning: no returned match lies in the subtree of another returned
/// match — a matched directory's contents are never searched further — for
/// any snapshot in which no path names two entries.
pub proof fn lemma_search_tree_no_nesting(n: FsNode)
    requires
        unique_paths(n),
    ensures
        forall|i: int, j: int|
            0 <= i < search_tree(n).len() && 0 <= j < search_tree(n).len() && i != j
                ==> !in_subtree(#[trigger] search_tree(n)[i], #[trigger] search_tree(n)[j]),
    decreases n, 1int,
{
    let s = n.children@;
    let m = matched_child_idx(s);
    lemma_matched_child_idx(s);
    if m >= 0 {
        assert(search_tree(n).len() == 1);
    } else {
        assert forall|p: Seq<char>| forest_path_count(p, s) <= 1 by {
            assert(path_count(p, n) <= 1);
        }
        lemma_search_dirs_no_nesting(s);
        assert forall|i: int, j: int|
            0 <= i < search_tree(n).len() && 0 <= j < search_tree(n).len() && i
                != j implies !in_subtree(
            #[trigger] search_tree(n)[i],
            #[trigger] search_tree(n)[j],
        ) by {
            assert(search_tree(n)[i] == search_dirs(s)[i]);
            assert(search_tree(n)[j] == search_dirs(s)[j]);
        }
    }
}

/// Pruning over a forest: no entry returned for one of its nodes lies in
/// the subtree of another returned entry, when no path names two entries.
pub proof fn lemma_search_dirs_no_nesting(s: Seq<FsNode>)
    requires
        forall|p: Seq<char>| forest_path_count(p, s) <= 1,
    ensures
        forall|i: int, j: int|
            0 <= i < search_dirs(s).len() && 0 <= j < search_dirs(s).len() && i != j
                ==> !in_subtree(#[trigger] search_dirs(s)[i], #[trigger] search_dirs(s)[j]),
    decreases s, 0int,
{
    if s.len() == 0 {
        return ;
    }
    let t = s.subrange(1, s.len() as int);
    let head = if is_searchable(s[0]) {
        search_tree(s[0])
    } else {
        Seq::<FsNode>::empty()
    };
    if is_searchable(s[0]) {
        assert forall|p: Seq<char>| path_count(p, s[0]) <= 1 by {
            assert(forest_path_count(p, s) == path_count(p, s[0]) + forest_path_count(p, t));
        }
        lemma_search_tree_no_nesting(s[0]);
        lemma_search_tree_sound(s[0]);
    }
    assert forall|p: Seq<char>| forest_path_count(p, t) <= 1 by {
        assert(forest_path_count(p, s) == path_count(p, s[0]) + forest_path_count(p, t));
    }
    lemma_search_dirs_no_nesting(t);
    lemma_search_dirs_sound(t);
    assert forall|i: int, j: int|
        0 <= i < search_dirs(s).len() && 0 <= j < search_dirs(s).len() && i != j implies !in_subtree(
        #[trigger] search_dirs(s)[i],
        #[trigger] search_dirs(s)[j],
    ) by {
        let x = search_dirs(s)[i];
        let y = search_dirs(s)[j];
        let hl = head.len() as int;
        if i < hl && j < hl {
            assert(x == head[i] && y == head[j]);
        } else if i >= hl && j >= hl {
            assert(x == search_dirs(t)[i - hl] && y == search_dirs(t)[j - hl]);
        } else if in_subtree(x, y) {
            // x and y come from different sides, so x's path would be
            // counted once beneath s[0] and once beneath a later sibling:
            // twice in all, against the uniqueness of paths.
            let (h, tail_elem) = if i < hl {
                (x, y)
            } else {
                (y, x)
            };
            assert(head == search_tree(s[0]));
            if i < hl {
                assert(h == search_tree(s[0])[i]);
                assert(tail_elem == search_dirs(t)[j - hl]);
            } else {
                assert(h == search_tree(s[0])[j]);
                assert(tail_elem == search_dirs(t)[i - hl]);
            }
            assert(in_forest(h, s[0].children@));
            assert(in_subtree(h, s[0]));
            assert(in_forest(tail_elem, t));
            lemma_in_forest_index(tail_elem, t);
            let b = choose|b: int| 0 <= b < t.len() && in_subtree(tail_elem, #[trigger] t[b]);
            assert(t[b] == s[b + 1]);
            if i < hl {
                // x beneath s[0]; x also beneath y, which lies beneath s[b + 1]
                lemma_in_subtree_trans(x, y, t[b]);
                lemma_in_subtree_count(x, s[0]);
                lemma_in_subtree_count(x, s[b + 1]);
                lemma_forest_count_two(x.path@, s, 0, b + 1);
            } else {
                // x beneath s[b + 1]; x also beneath y, which lies beneath s[0]
                lemma_in_subtree_trans(x, y, s[0]);
                lemma_in_subtree_count(x, s[0]);
                lemma_in_subtree_count(x, s[b + 1]);
                lemma_forest_count_two(x.path@, s, 0, b + 1);
            }
        }
    }
}

/// Repeated searches of one unmodified snapshot return the same matches:
/// the result is a function of the snapshot alone, so any two results are
/// the same sequence and the same set.
pub proof fn lemma_search_repeatable(n: FsNode, r1: Seq<FsNode>, r2: Seq<FsNode>)
    requires
        r1 == search_tree(n),
        r2 == search_tree(n),
    ensures
        r1 == r2,
        r1.to_set() == r2.to_set(),
{
}

} // verus!
