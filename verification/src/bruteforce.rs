//! Exact nearest-neighbour search: every reference row is a candidate.
//!
//! The distances themselves are rounded arithmetic and come from the caller as
//! a table of bit patterns, one row per query row and one column per
//! reference row. What is decided here is which queries are accepted and, for
//! each query row, which candidates are returned and in what order.

use crate::distance::{non_finite_reason, Metric};
use crate::error::FrError;
use crate::ieee::{at_most, finite, key_order_is_value_order, nan, scaled_value, total_before, total_key};
use crate::matrix::{narrower_shape_fits, shape_fits, Matrix};
use crate::text::{two_number_text, two_numbers};
use vstd::prelude::*;
use vstd::string::*;

verus! {

/// In a row of distances, candidate `i` comes before candidate `j`: its
/// distance is earlier in the total order, or the two are the same pattern
/// and `i` is the smaller index.
pub open spec fn precedes(row: Seq<u64>, i: int, j: int) -> bool {
    total_key(row[i]) < total_key(row[j]) || (total_key(row[i]) == total_key(row[j]) && i < j)
}

/// `word` is one of `picks`.
pub open spec fn picked(picks: Seq<u64>, word: int) -> bool {
    exists|p: int| 0 <= p < picks.len() && #[trigger] picks[p] == word
}

/// `picks` are the first `min(k, row.len())` candidates of `row`, in order:
/// they are candidates, each comes before the next, and every candidate left
/// out comes after every one of them.
pub open spec fn ranked(row: Seq<u64>, picks: Seq<u64>, k: nat) -> bool {
    &&& picks.len() == if k <= row.len() {
        k
    } else {
        row.len()
    }
    &&& forall|p: int| 0 <= p < picks.len() ==> (#[trigger] picks[p]) < row.len()
    &&& forall|p: int, q: int|
        0 <= p < q < picks.len() ==> precedes(row, #[trigger] picks[p] as int, #[trigger] picks[q] as int)
    &&& forall|j: int, p: int|
        #![trigger picked(picks, j), picks[p]]
        0 <= j < row.len() && 0 <= p < picks.len() && !picked(picks, j) ==> precedes(row, picks[p] as int, j)
}

/// What holds while a row is being ranked, after its first `n` candidates
/// have been looked at: `picks` are the first `min(k, n)` of those.
spec fn ranked_so_far(row: Seq<u64>, n: int, picks: Seq<u64>, k: nat) -> bool {
    &&& k > 0
    &&& picks.len() == if k <= n {
        k
    } else {
        n as nat
    }
    &&& forall|p: int| 0 <= p < picks.len() ==> (#[trigger] picks[p]) < n
    &&& forall|p: int, q: int|
        0 <= p < q < picks.len() ==> precedes(row, #[trigger] picks[p] as int, #[trigger] picks[q] as int)
    &&& forall|j: int|
        0 <= j < n ==> #[trigger] picked(picks, j) || (picks.len() == k && k > 0 && precedes(
            row,
            picks[k - 1] as int,
            j,
        ))
}

/// Candidate order is transitive.
proof fn precedes_transitive(row: Seq<u64>, a: int, b: int, c: int)
    requires
        precedes(row, a, b),
        precedes(row, b, c),
    ensures
        precedes(row, a, c),
{
}

/// Looking at one more candidate that belongs among the picks keeps the
/// ranking: it is put at its place `p`, and where the picks were full the
/// last of them is dropped.
proof fn ranking_takes_candidate(row: Seq<u64>, j: int, before: Seq<u64>, after: Seq<u64>, p: int, k: nat)
    requires
        ranked_so_far(row, j, before, k),
        0 <= j < row.len(),
        j < u64::MAX,
        0 <= p <= before.len(),
        p < k,
        forall|q: int| p <= q < before.len() ==> total_key(row[j]) < total_key(row[#[trigger] before[q] as int]),
        p > 0 ==> total_key(row[before[p - 1] as int]) <= total_key(row[j]),
        after == (if before.len() == k {
            before.drop_last()
        } else {
            before
        }).insert(p, j as u64),
    ensures
        ranked_so_far(row, j + 1, after, k),
{
    let kept = if before.len() == k {
        before.drop_last()
    } else {
        before
    };
    assert(after.len() == kept.len() + 1);
    assert forall|q: int| 0 <= q < after.len() implies (#[trigger] after[q]) == (if q < p {
        kept[q]
    } else if q == p {
        j as u64
    } else {
        kept[q - 1]
    }) by {}
    assert forall|q: int| 0 <= q < after.len() implies (#[trigger] after[q]) < j + 1 by {
        if q < p {
            assert(before[q] < j);
        } else if q > p {
            assert(before[q - 1] < j);
        }
    }
    assert forall|a: int, b: int| 0 <= a < b < after.len() implies precedes(
        row,
        #[trigger] after[a] as int,
        #[trigger] after[b] as int,
    ) by {
        if b < p {
            assert(precedes(row, before[a] as int, before[b] as int));
        } else if b == p {
            assert(before[a] < j);
            if a < p - 1 {
                assert(precedes(row, before[a] as int, before[p - 1] as int));
            }
        } else if a < p {
            assert(precedes(row, before[a] as int, before[b - 1] as int));
        } else if a == p {
            assert(total_key(row[j]) < total_key(row[before[b - 1] as int]));
        } else {
            assert(precedes(row, before[a - 1] as int, before[b - 1] as int));
        }
    }
    assert forall|i: int| 0 <= i < j + 1 implies #[trigger] picked(after, i) || (after.len() == k && k > 0
        && precedes(row, after[k - 1] as int, i)) by {
        if i == j {
            assert(after[p] == i);
        } else if picked(before, i) {
            let w = choose|w: int| 0 <= w < before.len() && #[trigger] before[w] == i;
            if w < kept.len() {
                if w < p {
                    assert(after[w] == i);
                } else {
                    assert(after[w + 1] == i);
                }
            } else {
                if p == k - 1 {
                    assert(after[k - 1] == j as u64);
                    assert(total_key(row[j]) < total_key(row[before[k - 1] as int]));
                } else {
                    assert(after[k - 1] == before[k - 2]);
                    assert(precedes(row, before[k - 2] as int, before[k - 1] as int));
                }
            }
        } else {
            assert(before.len() == k && precedes(row, before[k - 1] as int, i));
            if p == k - 1 {
                assert(after[k - 1] == j as u64);
                assert(total_key(row[j]) < total_key(row[before[k - 1] as int]));
                precedes_transitive(row, j, before[k - 1] as int, i);
            } else {
                assert(after[k - 1] == before[k - 2]);
                assert(precedes(row, before[k - 2] as int, before[k - 1] as int));
                precedes_transitive(row, before[k - 2] as int, before[k - 1] as int, i);
            }
        }
    }
}

/// Looking at one more candidate that comes after all of the full picks
/// keeps the ranking as it is.
proof fn ranking_skips_candidate(row: Seq<u64>, j: int, picks: Seq<u64>, k: nat)
    requires
        ranked_so_far(row, j, picks, k),
        0 <= j < row.len(),
        picks.len() == k,
        total_key(row[picks[k - 1] as int]) <= total_key(row[j]),
    ensures
        ranked_so_far(row, j + 1, picks, k),
{
    assert(picks[k - 1] < j);
    assert forall|i: int| 0 <= i < j + 1 implies #[trigger] picked(picks, i) || (picks.len() == k && k > 0
        && precedes(row, picks[k - 1] as int, i)) by {
        if i == j {
            assert(precedes(row, picks[k - 1] as int, j));
        } else {
            assert(picked(picks, i) || precedes(row, picks[k - 1] as int, i));
        }
    }
}

/// A ranking so far of the whole row is a ranking of the row.
proof fn ranking_is_complete(row: Seq<u64>, picks: Seq<u64>, k: nat)
    requires
        ranked_so_far(row, row.len() as int, picks, k),
    ensures
        ranked(row, picks, k),
{
    assert forall|i: int, p: int|
        #![trigger picked(picks, i), picks[p]]
        0 <= i < row.len() && 0 <= p < picks.len() && !picked(picks, i) implies precedes(
        row,
        picks[p] as int,
        i,
    ) by {
        assert(picked(picks, i) || precedes(row, picks[k - 1] as int, i));
        if p < k - 1 {
            assert(precedes(row, picks[p] as int, picks[k - 1] as int));
            precedes_transitive(row, picks[p] as int, picks[k - 1] as int, i);
        }
    }
}

/// Ranks one row of the distance table: the indices of its first
/// `min(k, columns)` candidates, in order.
fn rank_row(table: &Matrix, r: usize, k: usize) -> (picks: Vec<u64>)
    requires
        r < table.rows(),
    ensures
        ranked(table@[r as int], picks@, k as nat),
{
    let n = table.ncols();
    let ghost row = table@[r as int];
    let mut picks: Vec<u64> = Vec::new();
    if k == 0 {
        return picks;
    }
    let mut j: usize = 0;
    while j < n
        invariant
            r < table.rows(),
            n == table.cols(),
            row == table@[r as int],
            row.len() == n,
            j <= n,
            ranked_so_far(row, j as int, picks@, k as nat),
        decreases n - j,
    {
        let d = table.get(r, j);
        assert(d == row[j as int]);
        let mut p: usize = picks.len();
        while p > 0 && total_before(d, table.get(r, picks[p - 1] as usize))
            invariant
                r < table.rows(),
                n == table.cols(),
                row == table@[r as int],
                row.len() == n,
                j < n,
                d == row[j as int],
                p <= picks.len(),
                forall|q: int| 0 <= q < picks.len() ==> (#[trigger] picks@[q]) < j,
                forall|q: int|
                    p <= q < picks.len() ==> total_key(d) < total_key(row[#[trigger] picks@[q] as int]),
            decreases p,
        {
            p -= 1;
        }
        let ghost before = picks@;
        assert(p > 0 ==> total_key(row[before[p - 1] as int]) <= total_key(d));
        if p < k {
            if picks.len() == k {
                picks.pop();
            }
            picks.insert(p, j as u64);
            proof {
                ranking_takes_candidate(row, j as int, before, picks@, p as int, k as nat);
            }
        } else {
            proof {
                ranking_skips_candidate(row, j as int, picks@, k as nat);
            }
        }
        j += 1;
    }
    proof {
        ranking_is_complete(row, picks@, k as nat);
    }
    picks
}

/// The reason given for a query whose rows are not as wide as the reference
/// rows.
pub open spec fn feature_mismatch_reason(expected: nat, found: nat) -> Seq<char> {
    two_number_text("query feature mismatch: expected "@, expected, ", found "@, found)
}

/// Rejects a query matrix that is not as wide as the reference matrix.
pub fn validate_query_features(x_train: &Matrix, xq: &Matrix) -> (r: Result<(), FrError>)
    ensures
        r is Ok <==> xq.cols() == x_train.cols(),
        r is Err ==> r->Err_0.is_invalid_input(feature_mismatch_reason(x_train.cols(), xq.cols())),
{
    if xq.ncols() != x_train.ncols() {
        return Err(
            FrError::InvalidInput(
                two_numbers("query feature mismatch: expected ", x_train.ncols(), ", found ", xq.ncols()),
            ),
        );
    }
    Ok(())
}

/// The smaller of `k` and `n`.
pub open spec fn least(k: nat, n: nat) -> nat {
    if k <= n {
        k
    } else {
        n
    }
}

/// An exact nearest-neighbour index: the reference rows and the metric that
/// distances to them are taken in.
#[derive(Debug, Clone)]
pub struct BruteForceIndex {
    pub x_train: Matrix,
    pub metric: Metric,
}

impl BruteForceIndex {
    /// An index over the given reference rows.
    pub fn new(x_train: Matrix, metric: Metric) -> (index: Self)
        ensures
            index.x_train == x_train,
            index.metric == metric,
    {
        Self { x_train, metric }
    }

    /// How many neighbours a query for `k` returns per row.
    pub open spec fn effective_k(&self, k: usize) -> nat {
        least(k as nat, self.x_train.rows())
    }

    /// The query has rows to answer and neighbours to give, so that distances
    /// are taken.
    pub open spec fn takes_distances(&self, xq: &Matrix, k: usize) -> bool {
        xq.rows() > 0 && self.effective_k(k) > 0
    }

    /// The query is answered: it is as wide as the reference rows and, where
    /// distances are taken, neither side holds an infinity or a NaN.
    pub open spec fn accepts(&self, xq: &Matrix, k: usize) -> bool {
        &&& xq.cols() == self.x_train.cols()
        &&& self.takes_distances(xq, k) ==> xq.all_finite() && self.x_train.all_finite()
    }

    /// Decides whether a query is answered and, if so, with how many
    /// neighbours per row. Width is looked at first. Cells are looked at only
    /// where distances are taken: a query without rows, or for no neighbours,
    /// is answered whatever the cells hold.
    pub fn check_query(&self, xq: &Matrix, k: usize) -> (r: Result<usize, FrError>)
        ensures
            r is Ok <==> self.accepts(xq, k),
            r is Ok ==> r->Ok_0 == self.effective_k(k),
            xq.cols() != self.x_train.cols() ==> r is Err && r->Err_0.is_invalid_input(
                feature_mismatch_reason(self.x_train.cols(), xq.cols()),
            ),
            xq.cols() == self.x_train.cols() && !self.accepts(xq, k) ==> r is Err
                && r->Err_0.is_invalid_input(non_finite_reason()),
    {
        match validate_query_features(&self.x_train, xq) {
            Err(e) => {
                return Err(e);
            },
            Ok(()) => {},
        }
        let n_train = self.x_train.nrows();
        let effective_k = if k <= n_train {
            k
        } else {
            n_train
        };
        if xq.nrows() == 0 || effective_k == 0 {
            return Ok(effective_k);
        }
        if xq.is_all_finite() && self.x_train.is_all_finite() {
            Ok(effective_k)
        } else {
            Err(FrError::InvalidInput(String::from_str("non-finite value encountered")))
        }
    }

    /// Answers a query for the `k` nearest reference rows of each query row.
    ///
    /// `table` holds at `[q, t]` the distance between query row `q` and
    /// reference row `t` in the index's metric. The caller computes it, and
    /// it is read only where the query is accepted and distances are taken:
    /// for any other query any matrix will do. The answer is a matrix of
    /// reference row numbers and a matrix of their distances, both with one
    /// row per query row and `min(k, reference rows)` columns. Each row
    /// lists the nearest candidates in the total order of their distances,
    /// equal distances by ascending row number.
    pub fn query(&self, xq: &Matrix, k: usize, table: &Matrix) -> (r: Result<(Matrix, Matrix), FrError>)
        requires
            self.accepts(xq, k) && self.takes_distances(xq, k) ==> {
                &&& table.rows() == xq.rows()
                &&& table.cols() == self.x_train.rows()
            },
        ensures
            r is Ok <==> self.accepts(xq, k),
            xq.cols() != self.x_train.cols() ==> r is Err && r->Err_0.is_invalid_input(
                feature_mismatch_reason(self.x_train.cols(), xq.cols()),
            ),
            xq.cols() == self.x_train.cols() && !self.accepts(xq, k) ==> r is Err
                && r->Err_0.is_invalid_input(non_finite_reason()),
            r matches Ok(answer) ==> {
                &&& answer.0.rows() == xq.rows()
                &&& answer.1.rows() == xq.rows()
                &&& answer.0.cols() == self.effective_k(k)
                &&& answer.1.cols() == self.effective_k(k)
                &&& self.takes_distances(xq, k) ==> is_answer(table, k as nat, &answer.0, &answer.1)
            },
    {
        let effective_k = match self.check_query(xq, k) {
            Err(e) => {
                return Err(e);
            },
            Ok(effective_k) => effective_k,
        };
        let n_query = xq.nrows();
        let n_train = self.x_train.nrows();
        if n_query == 0 || effective_k == 0 {
            assert(shape_fits(n_query as nat, effective_k as nat)) by (nonlinear_arith)
                requires
                    n_query == 0 || effective_k == 0,
                    n_query <= isize::MAX,
                    effective_k <= isize::MAX,
            ;
            return Ok((Matrix::zeros(n_query, effective_k), Matrix::zeros(n_query, effective_k)));
        }
        Ok(rank_neighbors(table, k))
    }
}

/// `indices` and `distances` answer a query for `k` neighbours whose
/// distances are `table`: both have the table's rows and
/// `min(k, table columns)` columns, each row of `indices` ranks that row of
/// the table, and `distances` holds the distance of each index.
pub open spec fn is_answer(table: &Matrix, k: nat, indices: &Matrix, distances: &Matrix) -> bool {
    &&& indices.rows() == table.rows()
    &&& distances.rows() == table.rows()
    &&& indices.cols() == least(k, table.cols())
    &&& distances.cols() == least(k, table.cols())
    &&& forall|q: int| 0 <= q < table.rows() ==> ranked(table@[q], #[trigger] indices@[q], k)
    &&& forall|q: int, p: int|
        0 <= q < table.rows() && 0 <= p < distances.cols() ==> #[trigger] distances.at(q, p) == table.at(
            q,
            indices.at(q, p) as int,
        )
}

/// Within a ranking distances never fall: an earlier pick is not later in the
/// total order than a later pick, and where both distances are numbers the
/// earlier one is not the larger.
pub proof fn ranked_distances_ascend(row: Seq<u64>, picks: Seq<u64>, k: nat, p: int, q: int)
    requires
        ranked(row, picks, k),
        0 <= p <= q < picks.len(),
    ensures
        total_key(row[picks[p] as int]) <= total_key(row[picks[q] as int]),
        !nan(row[picks[p] as int]) && !nan(row[picks[q] as int]) ==> at_most(
            row[picks[p] as int],
            row[picks[q] as int],
        ),
{
    if p < q {
        assert(precedes(row, picks[p] as int, picks[q] as int));
    }
}

/// As numbers: of two finite distances in a ranking the earlier is not the
/// larger.
pub proof fn ranked_numbers_ascend(row: Seq<u64>, picks: Seq<u64>, k: nat, p: int, q: int)
    requires
        ranked(row, picks, k),
        0 <= p <= q < picks.len(),
        finite(row[picks[p] as int]),
        finite(row[picks[q] as int]),
    ensures
        scaled_value(row[picks[p] as int]) <= scaled_value(row[picks[q] as int]),
{
    ranked_distances_ascend(row, picks, k, p, q);
    key_order_is_value_order(row[picks[p] as int], row[picks[q] as int]);
    key_order_is_value_order(row[picks[q] as int], row[picks[p] as int]);
}

/// A ranking is decided by the distances and `k` alone: two rankings of one
/// row for one `k` pick the same candidates at every place.
pub proof fn ranked_is_unique(row: Seq<u64>, a: Seq<u64>, b: Seq<u64>, k: nat)
    requires
        ranked(row, a, k),
        ranked(row, b, k),
    ensures
        a == b,
{
    assert forall|p: int| 0 <= p < a.len() implies a[p] == b[p] by {
        ranked_agree_at(row, a, b, k, p);
    }
    assert(a =~= b);
}

/// Where `k` is no less than the number of candidates, a ranking lists every
/// candidate.
pub proof fn full_ranking_lists_every_candidate(row: Seq<u64>, picks: Seq<u64>, k: nat, j: int)
    requires
        ranked(row, picks, k),
        k >= row.len(),
        0 <= j < row.len(),
    ensures
        picked(picks, j),
{
    if !picked(picks, j) {
        let n = row.len() as int;
        let listed = Seq::new(picks.len(), |p: int| picks[p] as int);
        assert forall|a: int, b: int| 0 <= a < listed.len() && 0 <= b < listed.len() && a != b implies listed[a]
            != listed[b] by {
            if a < b {
                assert(precedes(row, picks[a] as int, picks[b] as int));
            } else {
                assert(precedes(row, picks[b] as int, picks[a] as int));
            }
        }
        listed.unique_seq_to_set();
        vstd::set_lib::lemma_int_range(0, n);
        let others = vstd::set_lib::set_int_range(0, n).remove(j);
        assert forall|x: int| listed.to_set().contains(x) implies others.contains(x) by {
            let p = choose|p: int| 0 <= p < listed.len() && listed[p] == x;
            assert(picks[p] == x);
        }
        vstd::set_lib::lemma_len_subset(listed.to_set(), others);
        assert(false);
    }
}

/// Two rankings of one row agree at place `p`.
proof fn ranked_agree_at(row: Seq<u64>, a: Seq<u64>, b: Seq<u64>, k: nat, p: int)
    requires
        ranked(row, a, k),
        ranked(row, b, k),
        0 <= p < a.len(),
    ensures
        a[p] == b[p],
    decreases p,
{
    assert forall|i: int| 0 <= i < p implies a[i] == b[i] by {
        ranked_agree_at(row, a, b, k, i);
    }
    first_of_the_rest(row, a, k, p, b[p] as int);
    first_of_the_rest(row, b, k, p, a[p] as int);
}

/// The pick at place `p` comes before every candidate that is not picked at
/// an earlier place, unless it is that candidate.
proof fn first_of_the_rest(row: Seq<u64>, picks: Seq<u64>, k: nat, p: int, x: int)
    requires
        ranked(row, picks, k),
        0 <= p < picks.len(),
        0 <= x < row.len(),
    ensures
        (exists|i: int| 0 <= i < p && picks[i] == x) || picks[p] == x || precedes(row, picks[p] as int, x),
{
    if picked(picks, x) {
        let w = choose|w: int| 0 <= w < picks.len() && #[trigger] picks[w] == x;
        if w > p {
            assert(precedes(row, picks[p] as int, picks[w] as int));
        }
    }
}

/// Ranks every row of a distance table: for each row the column numbers of
/// its first `min(k, columns)` candidates, in order, and their distances.
pub fn rank_neighbors(table: &Matrix, k: usize) -> (r: (Matrix, Matrix))
    ensures
        is_answer(table, k as nat, &r.0, &r.1),
{
    let n_query = table.nrows();
    let n_train = table.ncols();
    let effective_k = if k <= n_train {
        k
    } else {
        n_train
    };
    proof {
        narrower_shape_fits(n_query as nat, n_train as nat, effective_k as nat);
    }
    let mut indices = Matrix::zeros(n_query, effective_k);
    let mut distances = Matrix::zeros(n_query, effective_k);
    let mut q: usize = 0;
    while q < n_query
        invariant
            n_query == table.rows(),
            n_train == table.cols(),
            effective_k == least(k as nat, table.cols()),
            indices.rows() == n_query,
            distances.rows() == n_query,
            indices.cols() == effective_k,
            distances.cols() == effective_k,
            q <= n_query,
            forall|a: int| 0 <= a < q ==> ranked(table@[a], #[trigger] indices@[a], k as nat),
            forall|a: int, p: int|
                0 <= a < q && 0 <= p < effective_k ==> #[trigger] distances.at(a, p) == table.at(
                    a,
                    indices.at(a, p) as int,
                ),
        decreases n_query - q,
    {
        let picks = rank_row(table, q, k);
        let ghost before = indices;
        let mut p: usize = 0;
        while p < effective_k
            invariant
                n_query == table.rows(),
                n_train == table.cols(),
                effective_k == least(k as nat, table.cols()),
                indices.rows() == n_query,
                distances.rows() == n_query,
                indices.cols() == effective_k,
                distances.cols() == effective_k,
                q < n_query,
                p <= effective_k,
                ranked(table@[q as int], picks@, k as nat),
                forall|a: int, b: int|
                    0 <= a < q && 0 <= b < effective_k ==> #[trigger] indices.at(a, b) == before.at(a, b),
                forall|a: int, b: int|
                    0 <= a < q && 0 <= b < effective_k ==> #[trigger] distances.at(a, b) == table.at(
                        a,
                        indices.at(a, b) as int,
                    ),
                forall|b: int| 0 <= b < p ==> #[trigger] indices.at(q as int, b) == picks@[b],
                forall|b: int|
                    0 <= b < p ==> #[trigger] distances.at(q as int, b) == table.at(q as int, picks@[b] as int),
            decreases effective_k - p,
        {
            let t = picks[p];
            indices.set(q, p, t);
            distances.set(q, p, table.get(q, t as usize));
            p += 1;
        }
        proof {
            indices.row_is(q as int, picks@);
            assert forall|a: int| 0 <= a < q implies ranked(table@[a], #[trigger] indices@[a], k as nat) by {
                indices.row_is(a, before@[a]);
            }
        }
        q += 1;
    }
    (indices, distances)
}

} // verus!
