//! How the rows of a synthetic dataset are shared out among its groups, and
//! how they are shuffled together with their labels.

use crate::matrix::Matrix;
use rand::seq::SliceRandom;
use vstd::prelude::*;

verus! {

/// The standard generator of `rand`, which is carried through and never
/// looked into.
#[verifier::external_type_specification]
#[verifier::external_body]
pub struct ExStdRng(rand::rngs::StdRng);

/// `SliceRandom::shuffle`: swaps the elements of the list among themselves.
/// Which arrangement comes out depends on the generator; that the list holds
/// what it held, each as often as before, is true of every outcome.
#[verifier::external_body]
fn shuffle_order(rng: &mut rand::rngs::StdRng, order: &mut Vec<usize>)
    ensures
        final(order)@.to_multiset() == old(order)@.to_multiset(),
{
    order.shuffle(rng);
}

/// `order` arranges the numbers below its length: each occurs in it once.
pub open spec fn is_arrangement(order: Seq<usize>) -> bool {
    &&& forall|i: int| 0 <= i < order.len() ==> (#[trigger] order[i]) < order.len()
    &&& forall|i: int, j: int| 0 <= i < j < order.len() ==> order[i] != order[j]
}

/// The matrix `after` holds the rows of `before` in the given order: its row
/// `i` is row `order[i]` of `before`.
pub open spec fn rows_arranged(before: &Matrix, after: &Matrix, order: Seq<usize>) -> bool {
    &&& after.rows() == before.rows()
    &&& after.cols() == before.cols()
    &&& order.len() == before.rows()
    &&& forall|i: int, j: int|
        0 <= i < before.rows() && 0 <= j < before.cols() ==> #[trigger] after.at(i, j) == before.at(
            order[i] as int,
            j,
        )
}

/// The list `after` holds the first entries of `before` in the given order,
/// and what follows them as it was.
pub open spec fn labels_arranged<T>(before: Seq<T>, after: Seq<T>, order: Seq<usize>) -> bool {
    &&& after.len() == before.len()
    &&& order.len() <= before.len()
    &&& forall|i: int| 0 <= i < order.len() ==> #[trigger] after[i] == before[order[i] as int]
    &&& forall|i: int| order.len() <= i < before.len() ==> #[trigger] after[i] == before[i]
}

/// The numbers below `n`, in ascending order.
fn ascending(n: usize) -> (order: Vec<usize>)
    ensures
        order@.len() == n,
        forall|i: int| 0 <= i < n ==> #[trigger] order@[i] == i,
{
    let mut order: Vec<usize> = Vec::new();
    let mut i: usize = 0;
    while i < n
        invariant
            i <= n,
            order@.len() == i,
            forall|j: int| 0 <= j < i ==> #[trigger] order@[j] == j,
        decreases n - i,
    {
        order.push(i);
        i += 1;
    }
    order
}

/// A list with the elements of the ascending numbers below its length, each
/// as often, arranges those numbers.
proof fn shuffled_is_arrangement(start: Seq<usize>, order: Seq<usize>)
    requires
        forall|i: int| 0 <= i < start.len() ==> #[trigger] start[i] == i,
        order.to_multiset() == start.to_multiset(),
    ensures
        order.len() == start.len(),
        is_arrangement(order),
{
    broadcast use vstd::seq_lib::group_to_multiset_ensures;

    vstd::seq_lib::to_multiset_len(order);
    vstd::seq_lib::to_multiset_len(start);
    assert(order.len() == start.len());
    assert(start.no_duplicates());
    start.lemma_multiset_has_no_duplicates();
    order.lemma_multiset_has_no_duplicates_conv();
    assert forall|i: int| 0 <= i < order.len() implies (#[trigger] order[i]) < order.len() by {
        assert(order.contains(order[i]));
        assert(start.to_multiset().count(order[i]) > 0);
        assert(start.contains(order[i]));
        let w = choose|w: int| 0 <= w < start.len() && start[w] == order[i];
        assert(start[w] == w);
    }
}

/// Draws an arrangement of the rows from the generator and puts the rows of
/// the matrix and the labels that stand beside them into that order. Labels
/// beyond the rows of the matrix stay where they are.
fn shuffle_rows<T: Copy>(rng: &mut rand::rngs::StdRng, x: &mut Matrix, y: &mut Vec<T>)
    requires
        old(y)@.len() >= old(x).rows(),
    ensures
        exists|order: Seq<usize>|
            is_arrangement(order) && #[trigger] rows_arranged(old(x), final(x), order) && labels_arranged(
                old(y)@,
                final(y)@,
                order,
            ),
{
    let n = x.nrows();
    let cols = x.ncols();
    let mut idx = ascending(n);
    let ghost start = idx@;
    shuffle_order(rng, &mut idx);
    proof {
        shuffled_is_arrangement(start, idx@);
    }
    let x_old = x.clone();
    let ghost x_before = *x;
    let ghost y_before = y@;
    let mut y_old: Vec<T> = Vec::new();
    let mut c: usize = 0;
    while c < y.len()
        invariant
            c <= y.len(),
            y_old@.len() == c,
            forall|i: int| 0 <= i < c ==> #[trigger] y_old@[i] == y@[i],
        decreases y.len() - c,
    {
        y_old.push(y[c]);
        c += 1;
    }
    assert(y_old@ =~= y@);
    let mut new_i: usize = 0;
    while new_i < n
        invariant
            n == x_old.rows(),
            cols == x_old.cols(),
            x_old.same_as(&x_before),
            y_old@ == y_before,
            x.rows() == n,
            x.cols() == cols,
            idx@.len() == n,
            is_arrangement(idx@),
            y@.len() == y_old@.len(),
            y_old@.len() >= n,
            new_i <= n,
            forall|i: int, j: int|
                0 <= i < new_i && 0 <= j < cols ==> #[trigger] x.at(i, j) == x_old.at(idx@[i] as int, j),
            forall|i: int| 0 <= i < new_i ==> #[trigger] y@[i] == y_old@[idx@[i] as int],
            forall|i: int| n <= i < y@.len() ==> #[trigger] y@[i] == y_old@[i],
        decreases n - new_i,
    {
        let old_i = idx[new_i];
        let mut j: usize = 0;
        while j < cols
            invariant
                n == x_old.rows(),
                cols == x_old.cols(),
                x.rows() == n,
                x.cols() == cols,
                idx@.len() == n,
                new_i < n,
                old_i < n,
                old_i == idx@[new_i as int],
                j <= cols,
                forall|i: int, b: int|
                    0 <= i < new_i && 0 <= b < cols ==> #[trigger] x.at(i, b) == x_old.at(idx@[i] as int, b),
                forall|b: int| 0 <= b < j ==> #[trigger] x.at(new_i as int, b) == x_old.at(old_i as int, b),
            decreases cols - j,
        {
            x.set(new_i, j, x_old.get(old_i, j));
            j += 1;
        }
        y.set(new_i, y_old[old_i]);
        new_i += 1;
    }
    assert(rows_arranged(&x_before, x, idx@));
    assert(labels_arranged(y_before, y@, idx@));
}

/// Shuffles the rows of a matrix and their class labels together, in an
/// order drawn from the generator.
pub fn shuffle_in_unison(rng: &mut rand::rngs::StdRng, x: &mut Matrix, y: &mut Vec<usize>)
    requires
        old(y)@.len() >= old(x).rows(),
    ensures
        exists|order: Seq<usize>|
            is_arrangement(order) && #[trigger] rows_arranged(old(x), final(x), order) && labels_arranged(
                old(y)@,
                final(y)@,
                order,
            ),
{
    shuffle_rows(rng, x, y)
}

/// Shuffles the rows of a matrix and their inlier-or-outlier marks together,
/// in an order drawn from the generator.
pub fn shuffle_novelty(rng: &mut rand::rngs::StdRng, x: &mut Matrix, y: &mut Vec<u8>)
    requires
        old(y)@.len() >= old(x).rows(),
    ensures
        exists|order: Seq<usize>|
            is_arrangement(order) && #[trigger] rows_arranged(old(x), final(x), order) && labels_arranged(
                old(y)@,
                final(y)@,
                order,
            ),
{
    shuffle_rows(rng, x, y)
}

/// The share of group `idx` when `total` rows are split among `groups`: the
/// whole part of the quotient, and one more for the first `total % groups`
/// groups.
pub open spec fn share(total: nat, groups: nat, idx: nat) -> nat {
    if idx < total % groups {
        total / groups + 1
    } else {
        total / groups
    }
}

/// The sum of the first `n` of `counts`.
pub open spec fn sum_of(counts: Seq<usize>, n: nat) -> int
    decreases n,
{
    if n == 0 {
        0
    } else {
        sum_of(counts, (n - 1) as nat) + counts[n - 1]
    }
}

/// Splits `total` rows among `groups` as evenly as can be, the larger shares
/// first. With no groups the list is empty.
pub fn split_counts(total: usize, groups: usize) -> (counts: Vec<usize>)
    ensures
        counts@.len() == groups,
        forall|i: int| 0 <= i < groups ==> #[trigger] counts@[i] == share(total as nat, groups as nat, i as nat),
        groups > 0 ==> sum_of(counts@, groups as nat) == total,
{
    let mut counts: Vec<usize> = Vec::new();
    if groups == 0 {
        return counts;
    }
    let base = total / groups;
    let remainder = total % groups;
    assert(total == base * groups + remainder) by (nonlinear_arith)
        requires
            groups > 0,
            base == total / groups,
            remainder == total % groups,
    ;
    let mut idx: usize = 0;
    while idx < groups
        invariant
            groups > 0,
            base == total / groups,
            remainder == total % groups,
            remainder < groups,
            total == base * groups + remainder,
            idx <= groups,
            counts@.len() == idx,
            forall|i: int| 0 <= i < idx ==> #[trigger] counts@[i] == share(total as nat, groups as nat, i as nat),
            sum_of(counts@, idx as nat) == base * idx + if idx < remainder {
                idx
            } else {
                remainder
            },
        decreases groups - idx,
    {
        let ghost before = counts@;
        let extra: usize = if idx < remainder {
            1
        } else {
            0
        };
        assert(base + extra <= total) by (nonlinear_arith)
            requires
                total == base * groups + remainder,
                groups > 0,
                idx < groups,
                extra == if idx < remainder {
                    1usize
                } else {
                    0usize
                },
        ;
        counts.push(base + extra);
        proof {
            same_sum(before, counts@, idx as nat);
            assert(base * (idx + 1) == base * idx + base) by (nonlinear_arith);
        }
        idx += 1;
    }
    counts
}

/// The sum of a prefix does not depend on what follows it.
proof fn same_sum(a: Seq<usize>, b: Seq<usize>, n: nat)
    requires
        n <= a.len(),
        n <= b.len(),
        forall|i: int| 0 <= i < n ==> a[i] == b[i],
    ensures
        sum_of(a, n) == sum_of(b, n),
    decreases n,
{
    if n > 0 {
        same_sum(a, b, (n - 1) as nat);
    }
}

} // verus!
