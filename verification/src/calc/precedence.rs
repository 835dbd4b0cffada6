use vstd::prelude::*;
use super::ops::priority_of;
use super::grammar::{Instr, SpecPair, merge, merge_at, mergeable, first_mergeable, pairs_wf};

verus! {

/// The priority of the operator after pair `x`.
pub open spec fn prio(ps: Seq<SpecPair>, x: int) -> int {
    priority_of(ps[x].1->0)
}

/// The index of the last operator of lowest priority among those after the pairs
/// `0..=j`.
pub open spec fn last_lowest(ps: Seq<SpecPair>, j: int) -> int
    decreases j,
{
    if j <= 0 {
        0
    } else {
        let m = last_lowest(ps, j - 1);
        if prio(ps, j) <= prio(ps, m) {
            j
        } else {
            m
        }
    }
}

/// Where an expression of two or more values splits: at its last operator of lowest
/// priority.
pub open spec fn split_point(ps: Seq<SpecPair>) -> int {
    last_lowest(ps, ps.len() - 2)
}

/// Whether `k` is the last operator of lowest priority among those after the pairs
/// `0..=j`.
pub open spec fn is_last_lowest(ps: Seq<SpecPair>, j: int, k: int) -> bool {
    &&& 0 <= k <= j
    &&& forall|x: int| 0 <= x <= j ==> prio(ps, k) <= #[trigger] prio(ps, x)
    &&& forall|x: int| k < x <= j ==> prio(ps, k) < #[trigger] prio(ps, x)
}

/// The steps of an expression given by its value/operator pairs, read as a tree: it
/// splits at its last operator of lowest priority, and applies that operator to the
/// left part and the right part. So a higher priority binds tighter, and operators
/// of equal priority group to the left.
pub open spec fn tree(ps: Seq<SpecPair>) -> Seq<Instr>
    decreases ps.len(),
{
    if ps.len() == 0 {
        Seq::empty()
    } else if ps.len() == 1 {
        ps[0].0
    } else {
        let k = split_point(ps);
        if 0 <= k <= ps.len() - 2 {
            let left = ps.subrange(0, k).push((ps[k].0, None));
            let right = ps.subrange(k + 1, ps.len() as int);
            tree(left) + tree(right) + seq![Instr::Binary(ps[k].1->0)]
        } else {
            Seq::empty()
        }
    }
}

proof fn lemma_last_lowest(ps: Seq<SpecPair>, j: int)
    requires
        0 <= j,
    ensures
        is_last_lowest(ps, j, last_lowest(ps, j)),
    decreases j,
{
    if j > 0 {
        lemma_last_lowest(ps, j - 1);
    }
}

proof fn lemma_last_lowest_unique(ps: Seq<SpecPair>, j: int, k: int)
    requires
        0 <= j,
        is_last_lowest(ps, j, k),
    ensures
        last_lowest(ps, j) == k,
{
    lemma_last_lowest(ps, j);
    let s = last_lowest(ps, j);
    assert(prio(ps, s) <= prio(ps, k));
    assert(prio(ps, k) <= prio(ps, s));
    if s < k {
        assert(prio(ps, s) < prio(ps, k));
    } else if k < s {
        assert(prio(ps, k) < prio(ps, s));
    }
}

proof fn lemma_first_mergeable_from(ps: Seq<SpecPair>, j: int)
    requires
        pairs_wf(ps),
        0 <= j < ps.len() - 1,
    ensures
        j <= first_mergeable(ps, j) < ps.len() - 1,
        mergeable(ps, first_mergeable(ps, j)),
        forall|x: int| j <= x < first_mergeable(ps, j) ==> !#[trigger] mergeable(ps, x),
    decreases ps.len() - j,
{
    if !mergeable(ps, j) {
        if j + 1 >= ps.len() - 1 {
            assert(ps[j].1 is Some);
            assert(mergeable(ps, j));
        }
        lemma_first_mergeable_from(ps, j + 1);
    }
}

proof fn lemma_first_mergeable_is(ps: Seq<SpecPair>, j: int, i: int)
    requires
        0 <= j <= i < ps.len() - 1,
        mergeable(ps, i),
        forall|x: int| j <= x < i ==> !#[trigger] mergeable(ps, x),
    ensures
        first_mergeable(ps, j) == i,
    decreases i - j,
{
    if j < i {
        assert(!mergeable(ps, j));
        lemma_first_mergeable_is(ps, j + 1, i);
    }
}

proof fn lemma_merge_at_wf(ps: Seq<SpecPair>, i: int)
    requires
        pairs_wf(ps),
        0 <= i < ps.len() - 1,
    ensures
        pairs_wf(merge_at(ps, i)),
        merge_at(ps, i).len() == ps.len() - 1,
{
    let m = merge_at(ps, i);
    assert forall|x: int| 0 <= x < m.len() - 1 implies (#[trigger] m[x]).1 is Some by {
        if x < i {
            assert(m[x] == ps[x]);
        } else if x > i {
            assert(m[x] == ps[x + 1]);
        }
    }
    if i < m.len() - 1 {
        assert(m[m.len() - 1] == ps[ps.len() - 1]);
    }
}

/// Merging the first mergeable neighbours keeps the tree.
proof fn lemma_tree_merge_step(ps: Seq<SpecPair>)
    requires
        pairs_wf(ps),
        ps.len() >= 2,
    ensures
        tree(merge_at(ps, first_mergeable(ps, 0))) == tree(ps),
    decreases ps.len(),
{
    let n = ps.len() as int;
    let i = first_mergeable(ps, 0);
    lemma_first_mergeable_from(ps, 0);
    lemma_last_lowest(ps, n - 2);
    let k = split_point(ps);
    let m = merge_at(ps, i);
    lemma_merge_at_wf(ps, i);
    let left = ps.subrange(0, k).push((ps[k].0, None));
    let right = ps.subrange(k + 1, n);
    assert(tree(ps) == tree(left) + tree(right) + seq![Instr::Binary(ps[k].1->0)]);
    // operators strictly rise before `i`
    assert forall|x: int| 0 <= x < i implies prio(ps, x) < #[trigger] prio(ps, x + 1) by {
        assert(!mergeable(ps, x));
        assert(ps[x].1 is Some);
        assert(ps[x + 1].1 is Some);
    }
    assert forall|x: int| 0 <= x < m.len() - 1 implies #[trigger] m[x].1 == if x < i {
        ps[x].1
    } else {
        ps[x + 1].1
    } by {
        if x < i {
            assert(m[x] == ps[x]);
        } else if x > i {
            assert(m[x] == ps[x + 1]);
        }
    }
    if i < k {
        // the split point moves down by one; the merge happens in the left part
        assert forall|x: int| 0 <= x <= n - 3 implies prio(m, k - 1) <= #[trigger] prio(m, x) by {
            assert(prio(m, k - 1) == prio(ps, k));
            if x < i {
                assert(prio(m, x) == prio(ps, x));
            } else {
                assert(prio(m, x) == prio(ps, x + 1));
            }
        }
        assert forall|x: int| k - 1 < x <= n - 3 implies prio(m, k - 1) < #[trigger] prio(m, x) by {
            assert(prio(m, k - 1) == prio(ps, k));
            assert(prio(m, x) == prio(ps, x + 1));
        }
        lemma_last_lowest_unique(m, n - 3, k - 1);
        assert(split_point(m) == k - 1);
        let left_m = m.subrange(0, k - 1).push((m[k - 1].0, None));
        let right_m = m.subrange(k, n - 1);
        assert(tree(m) == tree(left_m) + tree(right_m) + seq![Instr::Binary(m[k - 1].1->0)]);
        assert(right_m =~= right);
        assert(m[k - 1].1 == ps[k].1);
        // the left part: same first mergeable pair
        assert(pairs_wf(left)) by {
            assert forall|x: int| 0 <= x < left.len() - 1 implies (#[trigger] left[x]).1 is Some by {
                assert(left[x] == ps[x]);
            }
        }
        assert forall|x: int| 0 <= x < i implies !#[trigger] mergeable(left, x) by {
            assert(left[x] == ps[x]);
            assert(left[x + 1] == ps[x + 1]);
            assert(prio(ps, x) < prio(ps, x + 1));
        }
        assert(mergeable(left, i)) by {
            assert(left[i] == ps[i]);
            if i + 1 < k {
                assert(left[i + 1] == ps[i + 1]);
            }
        }
        lemma_first_mergeable_is(left, 0, i);
        lemma_tree_merge_step(left);
        assert(merge_at(left, i) =~= left_m) by {
            let a = merge_at(left, i);
            assert forall|x: int| 0 <= x < a.len() implies a[x] == left_m[x] by {
                if x < i {
                    assert(a[x] == left[x]);
                    assert(left_m[x] == m[x]);
                } else if x == i {
                    if i + 1 < k {
                        assert(left[i + 1] == ps[i + 1]);
                        assert(left_m[x] == m[x]);
                    }
                } else {
                    assert(a[x] == left[x + 1]);
                    if x < k - 1 {
                        assert(left_m[x] == m[x]);
                        assert(m[x] == ps[x + 1]);
                    } else {
                        assert(m[x] == ps[x + 1]);
                    }
                }
            }
        }
    } else if i == k {
        if k < n - 2 {
            assert(prio(ps, k) < prio(ps, k + 1));
            assert(ps[k + 1].1 is Some);
            assert(false);
        }
        if k > 0 {
            assert(prio(ps, k - 1) < prio(ps, k));
            assert(prio(ps, k) <= prio(ps, k - 1));
            assert(false);
        }
        assert(n == 2);
        assert(tree(left) == ps[0].0);
        assert(tree(right) == ps[1].0);
        assert(m.len() == 1);
        assert(tree(m) == m[0].0);
    } else {
        // the split point stays; the merge happens in the right part
        assert forall|x: int| 0 <= x <= n - 3 implies prio(m, k) <= #[trigger] prio(m, x) by {
            assert(prio(m, k) == prio(ps, k));
            if x < i {
                assert(prio(m, x) == prio(ps, x));
            } else {
                assert(prio(m, x) == prio(ps, x + 1));
            }
        }
        assert forall|x: int| k < x <= n - 3 implies prio(m, k) < #[trigger] prio(m, x) by {
            assert(prio(m, k) == prio(ps, k));
            if x < i {
                assert(prio(m, x) == prio(ps, x));
            } else {
                assert(prio(m, x) == prio(ps, x + 1));
            }
        }
        lemma_last_lowest_unique(m, n - 3, k);
        assert(split_point(m) == k);
        let left_m = m.subrange(0, k).push((m[k].0, None));
        let right_m = m.subrange(k + 1, n - 1);
        assert(tree(m) == tree(left_m) + tree(right_m) + seq![Instr::Binary(m[k].1->0)]);
        assert(m[k] == ps[k]);
        assert(left_m =~= left) by {
            assert forall|x: int| 0 <= x < k implies left_m[x] == left[x] by {
                assert(m[x] == ps[x]);
            }
        }
        let j = i - k - 1;
        assert(pairs_wf(right)) by {
            assert forall|x: int| 0 <= x < right.len() - 1 implies (#[trigger] right[x]).1 is Some by {
                assert(right[x] == ps[x + k + 1]);
            }
            assert(right[right.len() - 1] == ps[n - 1]);
        }
        assert forall|x: int| 0 <= x < j implies !#[trigger] mergeable(right, x) by {
            assert(right[x] == ps[x + k + 1]);
            assert(right[x + 1] == ps[x + k + 2]);
            assert(prio(ps, x + k + 1) < prio(ps, x + k + 2));
        }
        assert(mergeable(right, j)) by {
            assert(right[j] == ps[i]);
            assert(right[j + 1] == ps[i + 1]);
        }
        lemma_first_mergeable_is(right, 0, j);
        lemma_tree_merge_step(right);
        assert(merge_at(right, j) =~= right_m) by {
            let a = merge_at(right, j);
            assert forall|x: int| 0 <= x < a.len() implies a[x] == right_m[x] by {
                assert(right_m[x] == m[x + k + 1]);
                if x < j {
                    assert(a[x] == right[x]);
                    assert(m[x + k + 1] == ps[x + k + 1]);
                } else if x == j {
                    assert(right[j] == ps[i]);
                    assert(right[j + 1] == ps[i + 1]);
                } else {
                    assert(a[x] == right[x + 1]);
                    assert(m[x + k + 1] == ps[x + k + 2]);
                }
            }
        }
    }
}

/// Precedence and associativity: merging the value/operator pairs of an expression
/// gives its tree, which splits at the last operator of lowest priority. So an
/// operator of higher priority binds tighter, and operators of equal priority group
/// to the left.
pub proof fn lemma_merge_is_tree(ps: Seq<SpecPair>)
    requires
        pairs_wf(ps),
    ensures
        merge(ps) == tree(ps),
    decreases ps.len(),
{
    if ps.len() >= 2 {
        lemma_first_mergeable_from(ps, 0);
        let i = first_mergeable(ps, 0);
        lemma_merge_at_wf(ps, i);
        lemma_merge_is_tree(merge_at(ps, i));
        lemma_tree_merge_step(ps);
    }
}

} // verus!
