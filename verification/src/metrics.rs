//! Classification metrics over class indices: the confusion matrix, the
//! counts every precision/recall/F1 figure is made of, and accuracy.
use vstd::prelude::*;
use crate::text::{append_decimal, append_right_aligned, decimal, right_aligned};
use crate::sums::{
    lemma_sum_add, lemma_sum_except, lemma_sum_ext, lemma_sum_indicator, lemma_sum_le,
    lemma_sum_prefix_le, lemma_sum_swap, lemma_sum_zero, lemma_term_le_sum, sum_to,
};

verus! {

// ---------------------------------------------------------------------------
// Counting over a square table of counts
// ---------------------------------------------------------------------------

/// Entries of row `r`, indexed by column.
pub open spec fn row_terms(e: spec_fn(int, int) -> nat, r: int) -> spec_fn(int) -> nat {
    |j: int| e(r, j)
}

/// Entries of column `c`, indexed by row.
pub open spec fn column_terms(e: spec_fn(int, int) -> nat, c: int) -> spec_fn(int) -> nat {
    |r: int| e(r, c)
}

/// Column `c` with its diagonal entry replaced by zero.
pub open spec fn column_off_terms(e: spec_fn(int, int) -> nat, c: int) -> spec_fn(int) -> nat {
    |r: int| if r != c { e(r, c) } else { 0 }
}

/// Row `c` with its diagonal entry replaced by zero.
pub open spec fn row_off_terms(e: spec_fn(int, int) -> nat, c: int) -> spec_fn(int) -> nat {
    |j: int| if j != c { e(c, j) } else { 0 }
}

/// The diagonal, indexed by class.
pub open spec fn diagonal_terms(e: spec_fn(int, int) -> nat) -> spec_fn(int) -> nat {
    |c: int| e(c, c)
}

/// Sum of row `r` of an `n`-by-`n` table.
pub open spec fn row_sum(e: spec_fn(int, int) -> nat, n: int, r: int) -> nat {
    sum_to(row_terms(e, r), n)
}

/// Row sums, indexed by row.
pub open spec fn row_sums(e: spec_fn(int, int) -> nat, n: int) -> spec_fn(int) -> nat {
    |r: int| row_sum(e, n, r)
}

/// Sum of column `c` of an `n`-by-`n` table.
pub open spec fn column_sum(e: spec_fn(int, int) -> nat, n: int, c: int) -> nat {
    sum_to(column_terms(e, c), n)
}

/// Column sums, indexed by column.
pub open spec fn column_sums(e: spec_fn(int, int) -> nat, n: int) -> spec_fn(int) -> nat {
    |c: int| column_sum(e, n, c)
}

/// Sum of all entries of an `n`-by-`n` table.
pub open spec fn grand_total(e: spec_fn(int, int) -> nat, n: int) -> nat {
    sum_to(row_sums(e, n), n)
}

/// Column `c` without its diagonal entry: samples predicted as `c` whose
/// true class is another one.
pub open spec fn column_off_diagonal(e: spec_fn(int, int) -> nat, n: int, c: int) -> nat {
    sum_to(column_off_terms(e, c), n)
}

/// Row `c` without its diagonal entry: samples of true class `c` predicted
/// as another one.
pub open spec fn row_off_diagonal(e: spec_fn(int, int) -> nat, n: int, c: int) -> nat {
    sum_to(row_off_terms(e, c), n)
}

/// Sum of the diagonal.
pub open spec fn diagonal_sum(e: spec_fn(int, int) -> nat, n: int) -> nat {
    sum_to(diagonal_terms(e), n)
}

pub proof fn lemma_entry_le_row(e: spec_fn(int, int) -> nat, n: int, r: int, c: int)
    requires
        0 <= c < n,
    ensures
        e(r, c) <= row_sum(e, n, r),
{
    lemma_term_le_sum(row_terms(e, r), c, n);
}

pub proof fn lemma_row_le_total(e: spec_fn(int, int) -> nat, n: int, r: int)
    requires
        0 <= r < n,
    ensures
        row_sum(e, n, r) <= grand_total(e, n),
{
    lemma_term_le_sum(row_sums(e, n), r, n);
}

/// The off-diagonal part of a column plus its diagonal entry is the column.
pub proof fn lemma_column_split(e: spec_fn(int, int) -> nat, n: int, c: int)
    requires
        0 <= c < n,
    ensures
        column_off_diagonal(e, n, c) + e(c, c) == column_sum(e, n, c),
{
    lemma_sum_except(column_terms(e, c), column_off_terms(e, c), c, n);
}

/// The off-diagonal part of a row plus its diagonal entry is the row.
pub proof fn lemma_row_split(e: spec_fn(int, int) -> nat, n: int, c: int)
    requires
        0 <= c < n,
    ensures
        row_off_diagonal(e, n, c) + e(c, c) == row_sum(e, n, c),
{
    lemma_sum_except(row_terms(e, c), row_off_terms(e, c), c, n);
}

/// Diagonal entry, off-diagonal column and off-diagonal row of one class
/// never count a sample twice.
pub proof fn lemma_class_cells_le_total(e: spec_fn(int, int) -> nat, n: int, c: int)
    requires
        0 <= c < n,
    ensures
        e(c, c) + column_off_diagonal(e, n, c) + row_off_diagonal(e, n, c) <= grand_total(e, n),
{
    let rows = row_sums(e, n);
    let other_rows = |r: int| if r != c { row_sum(e, n, r) } else { 0 };
    let other_col = column_off_terms(e, c);
    lemma_sum_except(rows, other_rows, c, n);
    assert forall|r: int| 0 <= r < n implies #[trigger] other_col(r) <= other_rows(r) by {
        if r != c {
            lemma_entry_le_row(e, n, r, c);
        }
    }
    lemma_sum_le(other_col, other_rows, n);
    lemma_row_split(e, n, c);
}

/// Adding the columns up gives the grand total.
pub proof fn lemma_columns_total(e: spec_fn(int, int) -> nat, n: int)
    requires
        n >= 0,
    ensures
        sum_to(column_sums(e, n), n) == grand_total(e, n),
{
    lemma_sum_swap(e, n, n);
    let a = |r: int| sum_to(|c: int| e(r, c), n);
    let b = row_sums(e, n);
    assert forall|r: int| 0 <= r < n implies #[trigger] a(r) == b(r) by {
        lemma_sum_ext(|c: int| e(r, c), row_terms(e, r), n);
    }
    lemma_sum_ext(a, b, n);
    let x = |c: int| sum_to(|r: int| e(r, c), n);
    let y = column_sums(e, n);
    assert forall|c: int| 0 <= c < n implies #[trigger] x(c) == y(c) by {
        lemma_sum_ext(|r: int| e(r, c), column_terms(e, c), n);
    }
    lemma_sum_ext(x, y, n);
}

/// Every count of a table only depends on the entries inside the square.
pub proof fn lemma_table_ext(e1: spec_fn(int, int) -> nat, e2: spec_fn(int, int) -> nat, n: int)
    requires
        forall|r: int, c: int| 0 <= r < n && 0 <= c < n ==> #[trigger] e1(r, c) == e2(r, c),
    ensures
        grand_total(e1, n) == grand_total(e2, n),
        diagonal_sum(e1, n) == diagonal_sum(e2, n),
        sum_to(column_sums(e1, n), n) == sum_to(column_sums(e2, n), n),
        forall|c: int|
            0 <= c < n ==> {
                &&& #[trigger] row_sum(e1, n, c) == row_sum(e2, n, c)
                &&& column_sum(e1, n, c) == column_sum(e2, n, c)
                &&& column_off_diagonal(e1, n, c) == column_off_diagonal(e2, n, c)
                &&& row_off_diagonal(e1, n, c) == row_off_diagonal(e2, n, c)
            },
{
    assert forall|c: int| 0 <= c < n implies {
        &&& #[trigger] row_sum(e1, n, c) == row_sum(e2, n, c)
        &&& column_sum(e1, n, c) == column_sum(e2, n, c)
        &&& column_off_diagonal(e1, n, c) == column_off_diagonal(e2, n, c)
        &&& row_off_diagonal(e1, n, c) == row_off_diagonal(e2, n, c)
    } by {
        assert forall|j: int| 0 <= j < n implies #[trigger] row_terms(e1, c)(j) == row_terms(e2, c)(j) by {
            assert(e1(c, j) == e2(c, j));
        }
        lemma_sum_ext(row_terms(e1, c), row_terms(e2, c), n);
        assert forall|j: int| 0 <= j < n implies #[trigger] column_terms(e1, c)(j) == column_terms(e2, c)(j) by {
            assert(e1(j, c) == e2(j, c));
        }
        lemma_sum_ext(column_terms(e1, c), column_terms(e2, c), n);
        assert forall|j: int| 0 <= j < n implies #[trigger] column_off_terms(e1, c)(j) == column_off_terms(e2, c)(j) by {
            assert(e1(j, c) == e2(j, c));
        }
        lemma_sum_ext(column_off_terms(e1, c), column_off_terms(e2, c), n);
        assert forall|j: int| 0 <= j < n implies #[trigger] row_off_terms(e1, c)(j) == row_off_terms(e2, c)(j) by {
            assert(e1(c, j) == e2(c, j));
        }
        lemma_sum_ext(row_off_terms(e1, c), row_off_terms(e2, c), n);
    }
    assert forall|j: int| 0 <= j < n implies #[trigger] row_sums(e1, n)(j) == row_sums(e2, n)(j) by {
        assert(row_sum(e1, n, j) == row_sum(e2, n, j));
    }
    lemma_sum_ext(row_sums(e1, n), row_sums(e2, n), n);
    assert forall|j: int| 0 <= j < n implies #[trigger] column_sums(e1, n)(j) == column_sums(e2, n)(j) by {
        assert(row_sum(e1, n, j) == row_sum(e2, n, j));
    }
    lemma_sum_ext(column_sums(e1, n), column_sums(e2, n), n);
    assert forall|j: int| 0 <= j < n implies #[trigger] diagonal_terms(e1)(j) == diagonal_terms(e2)(j) by {
        assert(e1(j, j) == e2(j, j));
    }
    lemma_sum_ext(diagonal_terms(e1), diagonal_terms(e2), n);
}

// ---------------------------------------------------------------------------
// Counting labelled samples
// ---------------------------------------------------------------------------

/// Number of the pairs `(predictions[i], targets[i])`: the shorter length.
pub open spec fn num_pairs(predictions: Seq<usize>, targets: Seq<usize>) -> int {
    if predictions.len() <= targets.len() {
        predictions.len() as int
    } else {
        targets.len() as int
    }
}

/// Among the first `k` pairs, those with true class `t` predicted as `p`.
pub open spec fn pair_count(predictions: Seq<usize>, targets: Seq<usize>, t: int, p: int, k: int) -> nat
    decreases k,
{
    if k <= 0 {
        0
    } else {
        pair_count(predictions, targets, t, p, k - 1) + if targets[k - 1] == t && predictions[k
            - 1] == p {
            1nat
        } else {
            0nat
        }
    }
}

/// The confusion table of the first `k` pairs.
pub open spec fn pair_table(predictions: Seq<usize>, targets: Seq<usize>, k: int) -> spec_fn(int, int) -> nat {
    |t: int, p: int| pair_count(predictions, targets, t, p, k)
}

/// The confusion table of all pairs.
pub open spec fn confusion_table(predictions: Seq<usize>, targets: Seq<usize>) -> spec_fn(int, int) -> nat {
    pair_table(predictions, targets, num_pairs(predictions, targets))
}

/// Among the first `k` pairs, those whose two labels are both below `n`.
pub open spec fn in_range_count(predictions: Seq<usize>, targets: Seq<usize>, n: int, k: int) -> nat
    decreases k,
{
    if k <= 0 {
        0
    } else {
        in_range_count(predictions, targets, n, k - 1) + if targets[k - 1] < n && predictions[k
            - 1] < n {
            1nat
        } else {
            0nat
        }
    }
}

/// Among the first `k` pairs, those predicted right.
pub open spec fn correct_count(predictions: Seq<usize>, targets: Seq<usize>, k: int) -> nat
    decreases k,
{
    if k <= 0 {
        0
    } else {
        correct_count(predictions, targets, k - 1) + if predictions[k - 1] == targets[k - 1] {
            1nat
        } else {
            0nat
        }
    }
}

/// Among the first `k` pairs, those predicted right with a label below `n`.
pub open spec fn correct_in_range_count(predictions: Seq<usize>, targets: Seq<usize>, n: int, k: int) -> nat
    decreases k,
{
    if k <= 0 {
        0
    } else {
        correct_in_range_count(predictions, targets, n, k - 1) + if predictions[k - 1]
            == targets[k - 1] && targets[k - 1] < n {
            1nat
        } else {
            0nat
        }
    }
}

pub proof fn lemma_in_range_le(predictions: Seq<usize>, targets: Seq<usize>, n: int, k: int)
    ensures
        in_range_count(predictions, targets, n, k) <= if k <= 0 { 0 } else { k },
    decreases k,
{
    if k > 0 {
        lemma_in_range_le(predictions, targets, n, k - 1);
    }
}

/// The confusion table of `k` pairs holds exactly the pairs whose labels
/// are both in range, and its diagonal those predicted right.
pub proof fn lemma_pair_table_totals(predictions: Seq<usize>, targets: Seq<usize>, n: int, k: int)
    requires
        n >= 0,
        0 <= k <= num_pairs(predictions, targets),
    ensures
        grand_total(pair_table(predictions, targets, k), n) == in_range_count(
            predictions,
            targets,
            n,
            k,
        ),
        diagonal_sum(pair_table(predictions, targets, k), n) == correct_in_range_count(
            predictions,
            targets,
            n,
            k,
        ),
    decreases k,
{
    let cur = pair_table(predictions, targets, k);
    if k == 0 {
        assert forall|r: int| 0 <= r < n implies #[trigger] row_sums(cur, n)(r) == 0 by {
            lemma_sum_zero(row_terms(cur, r), n);
        }
        lemma_sum_zero(row_sums(cur, n), n);
        lemma_sum_zero(diagonal_terms(cur), n);
    } else {
        lemma_pair_table_totals(predictions, targets, n, k - 1);
        let prev = pair_table(predictions, targets, k - 1);
        let t = targets[k - 1] as int;
        let p = predictions[k - 1] as int;
        let ind = |r: int, c: int| if r == t && c == p { 1nat } else { 0nat };
        let row_ind = |r: int| if r == t && p < n { 1nat } else { 0nat };
        assert forall|r: int| 0 <= r < n implies #[trigger] row_sums(cur, n)(r) == row_sums(prev, n)(r)
            + row_ind(r) by {
            let f = row_terms(prev, r);
            let g = |c: int| ind(r, c);
            assert forall|c: int| 0 <= c < n implies #[trigger] row_terms(cur, r)(c) == f(c) + g(
                c,
            ) by {}
            lemma_sum_add(f, g, row_terms(cur, r), n);
            if r == t && p < n {
                lemma_sum_indicator(g, p, n);
            } else {
                lemma_sum_zero(g, n);
            }
        }
        lemma_sum_add(row_sums(prev, n), row_ind, row_sums(cur, n), n);
        if t < n && p < n {
            lemma_sum_indicator(row_ind, t, n);
        } else {
            lemma_sum_zero(row_ind, n);
        }
        let diag_ind = |c: int| if c == t && c == p { 1nat } else { 0nat };
        assert forall|c: int| 0 <= c < n implies #[trigger] diagonal_terms(cur)(c)
            == diagonal_terms(prev)(c) + diag_ind(c) by {}
        lemma_sum_add(diagonal_terms(prev), diag_ind, diagonal_terms(cur), n);
        if t == p && t < n {
            lemma_sum_indicator(diag_ind, t, n);
        } else {
            lemma_sum_zero(diag_ind, n);
        }
    }
}

/// When every label is below `n`, the in-range counts are the plain counts.
pub proof fn lemma_all_in_range(predictions: Seq<usize>, targets: Seq<usize>, n: int, k: int)
    requires
        0 <= k <= num_pairs(predictions, targets),
        forall|i: int| 0 <= i < predictions.len() ==> #[trigger] predictions[i] < n,
        forall|i: int| 0 <= i < targets.len() ==> #[trigger] targets[i] < n,
    ensures
        in_range_count(predictions, targets, n, k) == k,
        correct_in_range_count(predictions, targets, n, k) == correct_count(
            predictions,
            targets,
            k,
        ),
    decreases k,
{
    if k > 0 {
        lemma_all_in_range(predictions, targets, n, k - 1);
        assert(predictions[k - 1] < n && targets[k - 1] < n);
    }
}

/// A count over a count, standing for the quotient `num / den`; every
/// metric here reads a zero denominator as the value 0.
#[derive(Debug, Clone, Copy, PartialEq, Eq, Structural)]
pub struct Ratio {
    pub num: u64,
    pub den: u64,
}

/// Per-class counts behind a classification report: precision of the class
/// is `tp / (tp + fp)`, recall `tp / (tp + fn_)`.
#[derive(Debug, Clone, Copy, PartialEq, Eq, Structural)]
pub struct ClassCounts {
    pub class: usize,
    pub tp: u64,
    pub fp: u64,
    pub fn_: u64,
    pub support: u64,
}

// ---------------------------------------------------------------------------
// The confusion matrix
// ---------------------------------------------------------------------------

/// Width of a cell in the printed confusion matrix.
pub open spec fn cell(s: Seq<char>) -> Seq<char> {
    right_aligned(s, 8)
}

/// Heading of the column of predicted class `c`.
pub open spec fn predicted_label(c: nat) -> Seq<char> {
    seq!['P', 'r', 'e', 'd', ' '] + decimal(c)
}

/// Heading of the row of true class `r`.
pub open spec fn true_label(r: nat) -> Seq<char> {
    seq!['T', 'r', 'u', 'e', ' '] + decimal(r)
}

/// The first `k` column headings.
pub open spec fn header_cells(k: int) -> Seq<char>
    decreases k,
{
    if k <= 0 {
        seq![]
    } else {
        header_cells(k - 1) + cell(predicted_label((k - 1) as nat))
    }
}

/// The first `k` count cells of row `r`.
pub open spec fn count_cells(m: Seq<Seq<u64>>, r: int, k: int) -> Seq<char>
    decreases k,
{
    if k <= 0 {
        seq![]
    } else {
        count_cells(m, r, k - 1) + cell(decimal(m[r][k - 1] as nat))
    }
}

/// One printed row: its heading, its `n` counts, a line break.
pub open spec fn table_row(m: Seq<Seq<u64>>, r: int, n: int) -> Seq<char> {
    cell(true_label(r as nat)) + count_cells(m, r, n) + seq!['\n']
}

/// The first `k` printed rows.
pub open spec fn table_rows(m: Seq<Seq<u64>>, n: int, k: int) -> Seq<char>
    decreases k,
{
    if k <= 0 {
        seq![]
    } else {
        table_rows(m, n, k - 1) + table_row(m, k - 1, n)
    }
}

/// The printed confusion matrix: a heading line with one column per
/// predicted class, then one line per true class, every cell right-aligned
/// to eight characters.
pub open spec fn table_text(m: Seq<Seq<u64>>, n: int) -> Seq<char> {
    cell(seq![]) + header_cells(n) + seq!['\n'] + table_rows(m, n, n)
}

/// How to average per-class metrics for multi-class problems.
#[derive(Debug, Clone, Copy, PartialEq, Eq, Structural)]
pub enum Average {
    /// Compute metric per class, then take unweighted mean.
    Macro,
    /// Compute globally: total TP / (total TP + total FP/FN).
    Micro,
    /// Per-class metric weighted by class support (number of true instances).
    Weighted,
}

/// NxN confusion matrix. Entry `[i][j]` = count of samples with true class
/// `i` predicted as class `j`.
#[derive(Debug, Clone)]
pub struct ConfusionMatrix {
    pub matrix: Vec<Vec<u64>>,
    pub n_classes: usize,
}

impl ConfusionMatrix {
    /// The counts as a table: `entries()(true_class, predicted_class)`.
    pub open spec fn entries(&self) -> spec_fn(int, int) -> nat {
        |r: int, c: int| self.matrix@[r]@[c] as nat
    }

    /// The matrix is square of side `n_classes`.
    pub open spec fn is_square(&self) -> bool {
        &&& self.matrix@.len() == self.n_classes
        &&& forall|r: int| 0 <= r < self.n_classes ==> (#[trigger] self.matrix@[r])@.len() == self.n_classes
    }

    /// The matrix is square and its grand total fits the counter type.
    pub open spec fn well_formed(&self) -> bool {
        &&& self.is_square()
        &&& self.total_count() <= u64::MAX
    }

    pub open spec fn tp_count(&self, c: int) -> nat {
        self.entries()(c, c)
    }

    pub open spec fn fp_count(&self, c: int) -> nat {
        column_off_diagonal(self.entries(), self.n_classes as int, c)
    }

    pub open spec fn fn_count(&self, c: int) -> nat {
        row_off_diagonal(self.entries(), self.n_classes as int, c)
    }

    pub open spec fn support_count(&self, c: int) -> nat {
        row_sum(self.entries(), self.n_classes as int, c)
    }

    pub open spec fn total_count(&self) -> nat {
        grand_total(self.entries(), self.n_classes as int)
    }

    pub open spec fn tn_count(&self, c: int) -> int {
        self.total_count() - self.tp_count(c) - self.fp_count(c) - self.fn_count(c)
    }

    /// True positives for class c.
    pub fn tp(&self, c: usize) -> (r: u64)
        requires
            self.is_square(),
            c < self.n_classes,
        ensures
            r == self.tp_count(c as int),
    {
        self.matrix[c][c]
    }

    /// False positives for class c (predicted c but was not c).
    pub fn fp(&self, c: usize) -> (r: u64)
        requires
            self.is_square(),
            c < self.n_classes,
            self.fp_count(c as int) <= u64::MAX,
        ensures
            r == self.fp_count(c as int),
    {
        let ghost e = self.entries();
        let ghost n = self.n_classes as int;
        let ghost f = column_off_terms(e, c as int);
        let mut acc: u64 = 0;
        let mut r: usize = 0;
        while r < self.n_classes
            invariant
                self.is_square(),
                c < self.n_classes,
                e == self.entries(),
                n == self.n_classes,
                f == column_off_terms(e, c as int),
                r <= self.n_classes,
                acc as nat == sum_to(f, r as int),
                sum_to(f, n) <= u64::MAX,
            decreases self.n_classes - r,
        {
            proof {
                lemma_sum_prefix_le(f, r as int + 1, n);
            }
            if r != c {
                acc = acc + self.matrix[r][c];
            }
            r = r + 1;
        }
        acc
    }

    /// False negatives for class c (was c but predicted other).
    pub fn fn_(&self, c: usize) -> (r: u64)
        requires
            self.is_square(),
            c < self.n_classes,
            self.fn_count(c as int) <= u64::MAX,
        ensures
            r == self.fn_count(c as int),
    {
        let ghost e = self.entries();
        let ghost n = self.n_classes as int;
        let ghost f = row_off_terms(e, c as int);
        let mut acc: u64 = 0;
        let mut j: usize = 0;
        while j < self.n_classes
            invariant
                self.is_square(),
                c < self.n_classes,
                e == self.entries(),
                n == self.n_classes,
                f == row_off_terms(e, c as int),
                j <= self.n_classes,
                acc as nat == sum_to(f, j as int),
                sum_to(f, n) <= u64::MAX,
            decreases self.n_classes - j,
        {
            proof {
                lemma_sum_prefix_le(f, j as int + 1, n);
            }
            if j != c {
                acc = acc + self.matrix[c][j];
            }
            j = j + 1;
        }
        acc
    }

    /// Support (number of true instances) for class c.
    pub fn support(&self, c: usize) -> (r: u64)
        requires
            self.is_square(),
            c < self.n_classes,
            self.support_count(c as int) <= u64::MAX,
        ensures
            r == self.support_count(c as int),
    {
        let ghost e = self.entries();
        let ghost n = self.n_classes as int;
        let ghost f = row_terms(e, c as int);
        let mut acc: u64 = 0;
        let mut j: usize = 0;
        while j < self.n_classes
            invariant
                self.is_square(),
                c < self.n_classes,
                e == self.entries(),
                n == self.n_classes,
                f == row_terms(e, c as int),
                j <= self.n_classes,
                acc as nat == sum_to(f, j as int),
                sum_to(f, n) <= u64::MAX,
            decreases self.n_classes - j,
        {
            proof {
                lemma_sum_prefix_le(f, j as int + 1, n);
            }
            acc = acc + self.matrix[c][j];
            j = j + 1;
        }
        acc
    }

    /// Total number of samples.
    pub fn total(&self) -> (r: u64)
        requires
            self.well_formed(),
        ensures
            r == self.total_count(),
    {
        let ghost e = self.entries();
        let ghost n = self.n_classes as int;
        let ghost rows = row_sums(e, n);
        let mut acc: u64 = 0;
        let mut r: usize = 0;
        while r < self.n_classes
            invariant
                self.well_formed(),
                e == self.entries(),
                n == self.n_classes,
                rows == row_sums(e, n),
                r <= self.n_classes,
                acc as nat == sum_to(rows, r as int),
            decreases self.n_classes - r,
        {
            proof {
                lemma_sum_prefix_le(rows, r as int + 1, n);
            }
            let ghost f = row_terms(e, r as int);
            let mut j: usize = 0;
            let mut row: u64 = 0;
            while j < self.n_classes
                invariant
                    self.well_formed(),
                    e == self.entries(),
                    n == self.n_classes,
                    r < self.n_classes,
                    f == row_terms(e, r as int),
                    j <= self.n_classes,
                    row as nat == sum_to(f, j as int),
                    acc as nat + sum_to(f, n) <= u64::MAX,
                decreases self.n_classes - j,
            {
                proof {
                    lemma_sum_prefix_le(f, j as int + 1, n);
                }
                row = row + self.matrix[r][j];
                j = j + 1;
            }
            acc = acc + row;
            r = r + 1;
        }
        acc
    }

    /// True negatives for class c.
    pub fn tn(&self, c: usize) -> (r: u64)
        requires
            self.well_formed(),
            c < self.n_classes,
        ensures
            r == self.tn_count(c as int),
    {
        proof {
            lemma_class_cells_le_total(self.entries(), self.n_classes as int, c as int);
        }
        let total = self.total();
        total - self.tp(c) - self.fp(c) - self.fn_(c)
    }

    /// Build a confusion matrix from predicted and true class indices.
    /// Pairs are taken up to the shorter of the two slices; a pair with a
    /// label outside `0..n_classes` is left out.
    pub fn from_predictions(predictions: &[usize], targets: &[usize], n_classes: usize) -> (cm: Self)
        ensures
            cm.n_classes == n_classes,
            cm.well_formed(),
            forall|t: int, p: int|
                0 <= t < n_classes && 0 <= p < n_classes ==> #[trigger] cm.entries()(t, p)
                    == confusion_table(predictions@, targets@)(t, p),
    {
        let mut matrix: Vec<Vec<u64>> = Vec::new();
        let mut r: usize = 0;
        while r < n_classes
            invariant
                r <= n_classes,
                matrix@.len() == r,
                forall|i: int| 0 <= i < r ==> (#[trigger] matrix@[i])@ == Seq::new(n_classes as nat, |j: int| 0u64),
            decreases n_classes - r,
        {
            let mut row: Vec<u64> = Vec::new();
            let mut c: usize = 0;
            while c < n_classes
                invariant
                    c <= n_classes,
                    row@ == Seq::new(c as nat, |j: int| 0u64),
                decreases n_classes - c,
            {
                row.push(0);
                c = c + 1;
            }
            matrix.push(row);
            r = r + 1;
        }
        let k = if predictions.len() <= targets.len() { predictions.len() } else { targets.len() };
        let mut i: usize = 0;
        while i < k
            invariant
                k == num_pairs(predictions@, targets@),
                i <= k,
                matrix@.len() == n_classes,
                forall|t: int| 0 <= t < n_classes ==> (#[trigger] matrix@[t])@.len() == n_classes,
                forall|t: int, p: int|
                    0 <= t < n_classes && 0 <= p < n_classes ==> #[trigger] matrix@[t]@[p]
                        == pair_count(predictions@, targets@, t, p, i as int),
                forall|t: int, p: int|
                    0 <= t < n_classes && 0 <= p < n_classes ==> matrix@[t]@[p] <= i,
            decreases k - i,
        {
            let target = targets[i];
            let pred = predictions[i];
            if target < n_classes && pred < n_classes {
                let old_val = matrix[target][pred];
                assert(old_val <= i);
                matrix[target][pred] = old_val + 1;
            }
            i = i + 1;
        }
        let cm = ConfusionMatrix { matrix, n_classes };
        proof {
            let table = confusion_table(predictions@, targets@);
            assert forall|t: int, p: int|
                0 <= t < n_classes && 0 <= p < n_classes implies #[trigger] cm.entries()(t, p)
                == table(t, p) by {}
            lemma_table_ext(cm.entries(), table, n_classes as int);
            lemma_pair_table_totals(predictions@, targets@, n_classes as int, k as int);
            lemma_in_range_le(predictions@, targets@, n_classes as int, k as int);
        }
        cm
    }

    /// Precision of class `c` as a count ratio: `tp / (tp + fp)`.
    pub fn precision_of(&self, c: usize) -> (r: Ratio)
        requires
            self.is_square(),
            c < self.n_classes,
            column_sum(self.entries(), self.n_classes as int, c as int) <= u64::MAX,
        ensures
            r.num == self.tp_count(c as int),
            r.den == self.tp_count(c as int) + self.fp_count(c as int),
    {
        proof {
            lemma_column_split(self.entries(), self.n_classes as int, c as int);
        }
        let tp = self.tp(c);
        Ratio { num: tp, den: tp + self.fp(c) }
    }

    /// Recall of class `c` as a count ratio: `tp / (tp + fn)`.
    pub fn recall_of(&self, c: usize) -> (r: Ratio)
        requires
            self.is_square(),
            c < self.n_classes,
            self.support_count(c as int) <= u64::MAX,
        ensures
            r.num == self.tp_count(c as int),
            r.den == self.tp_count(c as int) + self.fn_count(c as int),
    {
        proof {
            lemma_row_split(self.entries(), self.n_classes as int, c as int);
        }
        let tp = self.tp(c);
        Ratio { num: tp, den: tp + self.fn_(c) }
    }

    /// The micro-averaged precision as a ratio: summed true positives over
    /// summed predictions per class.
    pub open spec fn micro_precision_ratio(&self) -> Ratio {
        Ratio {
            num: diagonal_sum(self.entries(), self.n_classes as int) as u64,
            den: sum_to(column_sums(self.entries(), self.n_classes as int), self.n_classes as int) as u64,
        }
    }

    /// The micro-averaged recall as a ratio: summed true positives over
    /// summed supports.
    pub open spec fn micro_recall_ratio(&self) -> Ratio {
        Ratio {
            num: diagonal_sum(self.entries(), self.n_classes as int) as u64,
            den: self.total_count() as u64,
        }
    }

    /// Micro precision: `sum_c tp(c) / sum_c (tp(c) + fp(c))`; the
    /// denominator is every sample counted, so it is the total.
    pub fn micro_precision(&self) -> (r: Ratio)
        requires
            self.well_formed(),
        ensures
            r == self.micro_precision_ratio(),
            r.den == self.total_count(),
    {
        let ghost e = self.entries();
        let ghost n = self.n_classes as int;
        proof {
            lemma_columns_total(e, n);
            assert forall|c: int| 0 <= c < n implies #[trigger] diagonal_terms(e)(c) <= column_sums(e, n)(c) by {
                lemma_column_split(e, n, c);
            }
            lemma_sum_le(diagonal_terms(e), column_sums(e, n), n);
        }
        let mut num: u64 = 0;
        let mut den: u64 = 0;
        let mut c: usize = 0;
        while c < self.n_classes
            invariant
                self.well_formed(),
                e == self.entries(),
                n == self.n_classes,
                c <= self.n_classes,
                num as nat == sum_to(diagonal_terms(e), c as int),
                den as nat == sum_to(column_sums(e, n), c as int),
                sum_to(diagonal_terms(e), n) <= sum_to(column_sums(e, n), n),
                sum_to(column_sums(e, n), n) == self.total_count(),
            decreases self.n_classes - c,
        {
            proof {
                lemma_sum_prefix_le(column_sums(e, n), c as int + 1, n);
                lemma_sum_prefix_le(diagonal_terms(e), c as int + 1, n);
                lemma_column_split(e, n, c as int);
            }
            let tp = self.tp(c);
            num = num + tp;
            den = den + (tp + self.fp(c));
            c = c + 1;
        }
        Ratio { num, den }
    }

    /// Micro recall: `sum_c tp(c) / sum_c (tp(c) + fn(c))`, the denominator
    /// being the total.
    pub fn micro_recall(&self) -> (r: Ratio)
        requires
            self.well_formed(),
        ensures
            r == self.micro_recall_ratio(),
    {
        let ghost e = self.entries();
        let ghost n = self.n_classes as int;
        proof {
            assert forall|c: int| 0 <= c < n implies #[trigger] diagonal_terms(e)(c) <= row_sums(e, n)(c) by {
                lemma_row_split(e, n, c);
            }
            lemma_sum_le(diagonal_terms(e), row_sums(e, n), n);
        }
        let mut num: u64 = 0;
        let mut den: u64 = 0;
        let mut c: usize = 0;
        while c < self.n_classes
            invariant
                self.well_formed(),
                e == self.entries(),
                n == self.n_classes,
                c <= self.n_classes,
                num as nat == sum_to(diagonal_terms(e), c as int),
                den as nat == sum_to(row_sums(e, n), c as int),
                sum_to(diagonal_terms(e), n) <= sum_to(row_sums(e, n), n),
            decreases self.n_classes - c,
        {
            proof {
                lemma_sum_prefix_le(row_sums(e, n), c as int + 1, n);
                lemma_sum_prefix_le(diagonal_terms(e), c as int + 1, n);
                lemma_row_split(e, n, c as int);
            }
            let tp = self.tp(c);
            num = num + tp;
            den = den + (tp + self.fn_(c));
            c = c + 1;
        }
        Ratio { num, den }
    }


    /// The counts, row by row.
    pub open spec fn rows_view(&self) -> Seq<Seq<u64>> {
        self.matrix@.map_values(|row: Vec<u64>| row@)
    }

    /// Pretty-print the confusion matrix.
    pub fn to_string_table(&self) -> (s: String)
        requires
            self.is_square(),
        ensures
            s@ == table_text(self.rows_view(), self.n_classes as int),
    {
        let n = self.n_classes;
        let mut s = String::new();
        proof {
            reveal_strlit("");
        }
        append_right_aligned(&mut s, "", 8);
        let mut c: usize = 0;
        while c < n
            invariant
                n == self.n_classes,
                c <= n,
                s@ == cell(seq![]) + header_cells(c as int),
            decreases n - c,
        {
            proof {
                reveal_strlit("Pred ");
            }
            let mut label = String::from_str("Pred ");
            append_decimal(&mut label, c as u64);
            assert(label@ =~= predicted_label(c as nat));
            append_right_aligned(&mut s, label.as_str(), 8);
            c = c + 1;
            assert(s@ =~= cell(seq![]) + header_cells(c as int));
        }
        proof {
            reveal_strlit("\n");
        }
        s.append("\n");
        let mut r: usize = 0;
        while r < n
            invariant
                self.is_square(),
                n == self.n_classes,
                r <= n,
                s@ == cell(seq![]) + header_cells(n as int) + seq!['\n'] + table_rows(
                    self.rows_view(),
                    n as int,
                    r as int,
                ),
            decreases n - r,
        {
            let ghost before = s@;
            proof {
                reveal_strlit("True ");
            }
            let mut label = String::from_str("True ");
            append_decimal(&mut label, r as u64);
            assert(label@ =~= true_label(r as nat));
            append_right_aligned(&mut s, label.as_str(), 8);
            let mut c: usize = 0;
            while c < n
                invariant
                    self.is_square(),
                    n == self.n_classes,
                    r < n,
                    c <= n,
                    s@ == before + cell(true_label(r as nat)) + count_cells(
                        self.rows_view(),
                        r as int,
                        c as int,
                    ),
                decreases n - c,
            {
                let count = self.matrix[r][c];
                let digits = crate::text::to_decimal(count);
                append_right_aligned(&mut s, digits.as_str(), 8);
                proof {
                    assert(self.rows_view()[r as int][c as int] == count);
                }
                c = c + 1;
                assert(s@ =~= before + cell(true_label(r as nat)) + count_cells(
                    self.rows_view(),
                    r as int,
                    c as int,
                ));
            }
            proof {
                reveal_strlit("\n");
            }
            s.append("\n");
            r = r + 1;
            assert(s@ =~= cell(seq![]) + header_cells(n as int) + seq!['\n'] + table_rows(
                self.rows_view(),
                n as int,
                r as int,
            ));
        }
        s
    }

}

/// Accuracy as a ratio: pairs predicted right (up to the shorter slice)
/// over the number of predictions.
pub open spec fn accuracy_ratio(predictions: Seq<usize>, targets: Seq<usize>) -> Ratio {
    Ratio {
        num: correct_count(predictions, targets, num_pairs(predictions, targets)) as u64,
        den: predictions.len() as u64,
    }
}

/// Classification accuracy: the fraction of correct predictions, as a
/// ratio (an empty prediction list gives `0 / 0`, read as 0).
pub fn accuracy(predictions: &[usize], targets: &[usize]) -> (r: Ratio)
    ensures
        r == accuracy_ratio(predictions@, targets@),
        r.den == predictions@.len(),
        r.num <= r.den,
{
    let k = if predictions.len() <= targets.len() { predictions.len() } else { targets.len() };
    let mut correct: u64 = 0;
    let mut i: usize = 0;
    while i < k
        invariant
            k == num_pairs(predictions@, targets@),
            i <= k,
            correct as nat == correct_count(predictions@, targets@, i as int),
            correct <= i,
        decreases k - i,
    {
        if predictions[i] == targets[i] {
            correct = correct + 1;
        }
        i = i + 1;
    }
    Ratio { num: correct, den: predictions.len() as u64 }
}

/// Per-class true positives, false positives, false negatives and support,
/// one entry per class in class order.
pub fn classification_report(predictions: &[usize], targets: &[usize], n_classes: usize) -> (r: Vec<ClassCounts>)
    ensures
        r@.len() == n_classes,
        forall|c: int|
            0 <= c < n_classes ==> #[trigger] r@[c] == (ClassCounts {
                class: c as usize,
                tp: confusion_table(predictions@, targets@)(c, c) as u64,
                fp: column_off_diagonal(confusion_table(predictions@, targets@), n_classes as int, c) as u64,
                fn_: row_off_diagonal(confusion_table(predictions@, targets@), n_classes as int, c) as u64,
                support: row_sum(confusion_table(predictions@, targets@), n_classes as int, c) as u64,
            }),
{
    let cm = ConfusionMatrix::from_predictions(predictions, targets, n_classes);
    proof {
        lemma_table_ext(cm.entries(), confusion_table(predictions@, targets@), n_classes as int);
    }
    let mut report: Vec<ClassCounts> = Vec::new();
    let mut c: usize = 0;
    while c < n_classes
        invariant
            cm.well_formed(),
            cm.n_classes == n_classes,
            c <= n_classes,
            report@.len() == c,
            forall|t: int, p: int|
                0 <= t < n_classes && 0 <= p < n_classes ==> #[trigger] cm.entries()(t, p)
                    == confusion_table(predictions@, targets@)(t, p),
            forall|j: int|
                0 <= j < n_classes ==> {
                    &&& #[trigger] row_sum(cm.entries(), n_classes as int, j) == row_sum(
                        confusion_table(predictions@, targets@),
                        n_classes as int,
                        j,
                    )
                    &&& column_off_diagonal(cm.entries(), n_classes as int, j) == column_off_diagonal(
                        confusion_table(predictions@, targets@),
                        n_classes as int,
                        j,
                    )
                    &&& row_off_diagonal(cm.entries(), n_classes as int, j) == row_off_diagonal(
                        confusion_table(predictions@, targets@),
                        n_classes as int,
                        j,
                    )
                },
            forall|j: int|
                0 <= j < c ==> #[trigger] report@[j] == (ClassCounts {
                    class: j as usize,
                    tp: confusion_table(predictions@, targets@)(j, j) as u64,
                    fp: column_off_diagonal(confusion_table(predictions@, targets@), n_classes as int, j) as u64,
                    fn_: row_off_diagonal(confusion_table(predictions@, targets@), n_classes as int, j) as u64,
                    support: row_sum(confusion_table(predictions@, targets@), n_classes as int, j) as u64,
                }),
        decreases n_classes - c,
    {
        proof {
            lemma_class_cells_le_total(cm.entries(), n_classes as int, c as int);
            lemma_row_le_total(cm.entries(), n_classes as int, c as int);
        }
        let counts = ClassCounts {
            class: c,
            tp: cm.tp(c),
            fp: cm.fp(c),
            fn_: cm.fn_(c),
            support: cm.support(c),
        };
        assert(cm.entries()(c as int, c as int) == confusion_table(predictions@, targets@)(c as int, c as int));
        report.push(counts);
        c = c + 1;
    }
    report
}

/// Micro-averaged precision and micro-averaged recall of the confusion
/// matrix of a sample set whose labels are all valid classes both equal the
/// accuracy of that sample set.
pub proof fn lemma_micro_averages_equal_accuracy(
    predictions: Seq<usize>,
    targets: Seq<usize>,
    cm: ConfusionMatrix,
)
    requires
        predictions.len() == targets.len(),
        forall|i: int| 0 <= i < predictions.len() ==> #[trigger] predictions[i] < cm.n_classes,
        forall|i: int| 0 <= i < targets.len() ==> #[trigger] targets[i] < cm.n_classes,
        cm.well_formed(),
        forall|t: int, p: int|
            0 <= t < cm.n_classes && 0 <= p < cm.n_classes ==> #[trigger] cm.entries()(t, p)
                == confusion_table(predictions, targets)(t, p),
    ensures
        cm.micro_precision_ratio() == accuracy_ratio(predictions, targets),
        cm.micro_recall_ratio() == accuracy_ratio(predictions, targets),
{
    let n = cm.n_classes as int;
    let k = num_pairs(predictions, targets);
    lemma_table_ext(cm.entries(), confusion_table(predictions, targets), n);
    lemma_pair_table_totals(predictions, targets, n, k);
    lemma_all_in_range(predictions, targets, n, k);
    lemma_columns_total(cm.entries(), n);
}

// ---------------------------------------------------------------------------
// Scores
//
// Scores are given by order keys: one `u64` per score, comparing as the
// scores do (equal keys for equal scores).
// ---------------------------------------------------------------------------

/// `j` is the last position of a maximum of `row`.
pub open spec fn is_last_argmax(row: Seq<u64>, j: int) -> bool {
    &&& 0 <= j < row.len()
    &&& forall|i: int| 0 <= i < row.len() ==> #[trigger] row[i] <= row[j]
    &&& forall|i: int| j < i < row.len() ==> #[trigger] row[i] < row[j]
}

/// The last position of the maximum of a non-empty row.
pub open spec fn argmax_of(row: Seq<u64>) -> int {
    choose|j: int| is_last_argmax(row, j)
}

/// The predicted class of every full row of a flat table of scores.
pub open spec fn predicted_classes(keys: Seq<u64>, n: int) -> Seq<usize> {
    Seq::new((keys.len() as int / n) as nat, |i: int| argmax_of(table_row_of(keys, n, i)) as usize)
}

/// A row has a single last maximum.
pub proof fn lemma_last_argmax_unique(row: Seq<u64>, j: int)
    requires
        is_last_argmax(row, j),
    ensures
        argmax_of(row) == j,
{
    let k = argmax_of(row);
    assert(is_last_argmax(row, k));
    if k < j {
        assert(row[j] < row[k]);
        assert(row[j] <= row[j]);
    } else if j < k {
        assert(row[k] < row[j]);
    }
}

/// Row `i` of a flat row-major table with rows of length `n`.
pub open spec fn table_row_of(data: Seq<u64>, n: int, i: int) -> Seq<u64> {
    data.subrange(i * n, (i + 1) * n)
}

/// Number of classes of a score tensor: its last dimension, or 1 for a
/// scalar.
pub open spec fn classes_of(dims: Seq<usize>) -> int {
    if dims.len() == 0 {
        1
    } else {
        dims.last() as int
    }
}

proof fn lemma_row_bounds(len: int, n: int, i: int)
    requires
        len >= 0,
        n > 0,
        0 <= i < len / n,
    ensures
        0 <= i * n,
        i * n + n <= len,
        (i + 1) * n == i * n + n,
{
    assert(i * n + n == (i + 1) * n) by (nonlinear_arith);
    assert(0 <= i * n) by (nonlinear_arith)
        requires
            0 <= i,
            n > 0,
    ;
    assert((i + 1) * n <= (len / n) * n) by (nonlinear_arith)
        requires
            i + 1 <= len / n,
            n > 0,
    ;
    assert((len / n) * n <= len) by (nonlinear_arith)
        requires
            n > 0,
            len >= 0,
    ;
}

/// Position of the last maximum of `data[start..start + n]`, relative to
/// `start`.
fn last_argmax(data: &[u64], start: usize, n: usize) -> (j: usize)
    requires
        n > 0,
        start + n <= data.len(),
    ensures
        is_last_argmax(data@.subrange(start as int, start + n), j as int),
{
    let ghost row = data@.subrange(start as int, start + n);
    let mut best: usize = 0;
    let mut i: usize = 1;
    while i < n
        invariant
            n > 0,
            start + n <= data.len(),
            row == data@.subrange(start as int, start + n),
            1 <= i <= n,
            best < i,
            forall|k: int| 0 <= k < i ==> #[trigger] row[k] <= row[best as int],
            forall|k: int| best < k < i ==> #[trigger] row[k] < row[best as int],
        decreases n - i,
    {
        if data[start + i] >= data[start + best] {
            best = i;
        }
        i = i + 1;
    }
    best
}

/// Predicted class of every row of a score tensor: the last position of the
/// maximum of the row (rows are as long as the last dimension).
pub fn argmax_classes(keys: &[u64], dims: &[usize]) -> (r: Vec<usize>)
    requires
        classes_of(dims@) > 0,
    ensures
        r@.len() == (keys@.len() as int) / classes_of(dims@),
        r@ == predicted_classes(keys@, classes_of(dims@)),
        forall|i: int|
            0 <= i < r@.len() ==> is_last_argmax(
                table_row_of(keys@, classes_of(dims@), i),
                #[trigger] r@[i] as int,
            ),
{
    let n: usize = if dims.len() == 0 { 1 } else { dims[dims.len() - 1] };
    let batch = keys.len() / n;
    let mut classes: Vec<usize> = Vec::new();
    let mut i: usize = 0;
    while i < batch
        invariant
            n as int == classes_of(dims@),
            n > 0,
            batch == (keys@.len() as int) / (n as int),
            keys@.len() == keys.len(),
            i <= batch,
            classes@.len() == i,
            forall|k: int|
                0 <= k < i ==> is_last_argmax(
                    table_row_of(keys@, n as int, k),
                    #[trigger] classes@[k] as int,
                ),
            forall|k: int|
                0 <= k < i ==> #[trigger] classes@[k] == argmax_of(table_row_of(keys@, n as int, k)) as usize,
        decreases batch - i,
    {
        proof {
            lemma_row_bounds(keys@.len() as int, n as int, i as int);
        }
        let j = last_argmax(keys, i * n, n);
        proof {
            lemma_last_argmax_unique(table_row_of(keys@, n as int, i as int), j as int);
        }
        classes.push(j);
        i = i + 1;
    }
    assert(classes@ =~= predicted_classes(keys@, n as int));
    classes
}

/// Targets are read as one-hot rows when they have at least two dimensions
/// and the same last dimension as the logits; otherwise every target value
/// is a class index.
pub open spec fn targets_one_hot(target_dims: Seq<usize>, logit_dims: Seq<usize>) -> bool {
    &&& target_dims.len() >= 2
    &&& logit_dims.len() >= 1
    &&& target_dims.last() == logit_dims.last()
}

/// Accuracy of the predicted classes of the logits against the targets:
/// the argmax of each one-hot target row, or the target values as class
/// indices.
pub open spec fn tensor_accuracy_of(
    logit_keys: Seq<u64>,
    logit_dims: Seq<usize>,
    target_keys: Seq<u64>,
    target_classes: Seq<usize>,
    target_dims: Seq<usize>,
) -> Ratio {
    accuracy_ratio(
        predicted_classes(logit_keys, classes_of(logit_dims)),
        if targets_one_hot(target_dims, logit_dims) {
            predicted_classes(target_keys, classes_of(target_dims))
        } else {
            target_classes
        },
    )
}

/// Accuracy from logit scores and targets, the targets given both by the
/// order keys of their values (read when they are one-hot rows) and by those
/// values as class indices (read otherwise).
pub fn tensor_accuracy(
    logit_keys: &[u64],
    logit_dims: &[usize],
    target_keys: &[u64],
    target_classes: &[usize],
    target_dims: &[usize],
) -> (r: Ratio)
    requires
        classes_of(logit_dims@) > 0,
    ensures
        r == tensor_accuracy_of(logit_keys@, logit_dims@, target_keys@, target_classes@, target_dims@),
{
    let predicted = argmax_classes(logit_keys, logit_dims);
    let one_hot = target_dims.len() >= 2 && logit_dims.len() >= 1 && target_dims[target_dims.len()
        - 1] == logit_dims[logit_dims.len() - 1];
    if one_hot {
        let truth = argmax_classes(target_keys, target_dims);
        accuracy(predicted.as_slice(), truth.as_slice())
    } else {
        accuracy(predicted.as_slice(), target_classes)
    }
}

/// How targets are read: targets `[batch]`, or `[batch, 1]` against logits
/// of more than one class, are class indices, so the accuracy is that of the
/// predicted classes against the target values; targets whose last
/// dimension is the number of classes are one-hot rows, so the accuracy is
/// that of the predicted classes of the logits against those of the
/// targets.
pub proof fn lemma_tensor_accuracy_targets(
    logit_keys: Seq<u64>,
    logit_dims: Seq<usize>,
    target_keys: Seq<u64>,
    target_classes: Seq<usize>,
    target_dims: Seq<usize>,
)
    ensures
        target_dims.len() <= 1 ==> tensor_accuracy_of(
            logit_keys,
            logit_dims,
            target_keys,
            target_classes,
            target_dims,
        ) == accuracy_ratio(predicted_classes(logit_keys, classes_of(logit_dims)), target_classes),
        target_dims.len() == 2 && target_dims[1] == 1 && classes_of(logit_dims) != 1
            ==> tensor_accuracy_of(logit_keys, logit_dims, target_keys, target_classes, target_dims)
            == accuracy_ratio(predicted_classes(logit_keys, classes_of(logit_dims)), target_classes),
        target_dims.len() >= 2 && logit_dims.len() >= 1 && target_dims[target_dims.len() - 1]
            == logit_dims[logit_dims.len() - 1] ==> tensor_accuracy_of(
            logit_keys,
            logit_dims,
            target_keys,
            target_classes,
            target_dims,
        ) == accuracy_ratio(
            predicted_classes(logit_keys, classes_of(logit_dims)),
            predicted_classes(target_keys, classes_of(logit_dims)),
        ),
{
}

/// Among `row`'s first `m` classes, those ranked before class `t`.
pub open spec fn ahead_count(row: Seq<u64>, t: int, m: int) -> nat
    decreases m,
{
    if m <= 0 {
        0
    } else {
        ahead_count(row, t, m - 1) + if row[m - 1] > row[t] || (row[m - 1] == row[t] && m - 1
            < t) {
            1nat
        } else {
            0nat
        }
    }
}

/// Sample `i` counts as a hit when its true class is among the `k` best
/// scored classes of its row.
pub open spec fn top_k_hit(keys: Seq<u64>, targets: Seq<usize>, n: int, k: int, i: int) -> bool {
    &&& targets[i] < n
    &&& ahead_count(table_row_of(keys, n, i), targets[i] as int, n) < k
}

/// Among the first `m` samples, the hits.
pub open spec fn top_k_hits(keys: Seq<u64>, targets: Seq<usize>, n: int, k: int, m: int) -> nat
    decreases m,
{
    if m <= 0 {
        0
    } else {
        top_k_hits(keys, targets, n, k, m - 1) + if top_k_hit(keys, targets, n, k, m - 1) {
            1nat
        } else {
            0nat
        }
    }
}

/// Top-K accuracy: the fraction of samples whose true class is among the
/// `k` best scored classes (a stable sort by decreasing score, so of equal
/// scores the lower class comes first). `keys` is a flat
/// `[n_samples, n_classes]` table.
pub fn top_k_accuracy(keys: &[u64], targets: &[usize], n_classes: usize, k: usize) -> (r: Ratio)
    requires
        targets.len() * n_classes <= keys.len(),
    ensures
        r.num == top_k_hits(keys@, targets@, n_classes as int, k as int, targets@.len() as int),
        r.den == targets@.len(),
{
    let n_samples = targets.len();
    let mut correct: u64 = 0;
    let mut i: usize = 0;
    while i < n_samples
        invariant
            n_samples == targets@.len(),
            targets.len() * n_classes <= keys.len(),
            i <= n_samples,
            correct as nat == top_k_hits(keys@, targets@, n_classes as int, k as int, i as int),
            correct <= i,
        decreases n_samples - i,
    {
        assert(i * n_classes + n_classes <= n_samples * n_classes) by (nonlinear_arith)
            requires
                i + 1 <= n_samples,
        ;
        assert((i + 1) * n_classes == i * n_classes + n_classes) by (nonlinear_arith);
        let start = i * n_classes;
        let t = targets[i];
        if t < n_classes {
            let ghost row = table_row_of(keys@, n_classes as int, i as int);
            let mut ahead: usize = 0;
            let mut j: usize = 0;
            while j < n_classes
                invariant
                    start == i * n_classes,
                    start + n_classes <= keys.len(),
                    row == keys@.subrange(start as int, start + n_classes),
                    t < n_classes,
                    j <= n_classes,
                    ahead as nat == ahead_count(row, t as int, j as int),
                    ahead <= j,
                decreases n_classes - j,
            {
                let kj = keys[start + j];
                let kt = keys[start + t];
                if kj > kt || (kj == kt && j < t) {
                    ahead = ahead + 1;
                }
                j = j + 1;
            }
            if ahead < k {
                correct = correct + 1;
            }
        }
        i = i + 1;
    }
    Ratio { num: correct, den: n_samples as u64 }
}

/// For every class, true positives, false positives, false negatives and
/// true negatives partition the samples: none is negative and they add up
/// to the total.
pub proof fn lemma_class_counts_partition(cm: ConfusionMatrix, c: int)
    requires
        cm.well_formed(),
        0 <= c < cm.n_classes,
    ensures
        cm.tn_count(c) >= 0,
        cm.tp_count(c) + cm.fp_count(c) + cm.fn_count(c) + cm.tn_count(c) == cm.total_count(),
        cm.tp_count(c) + cm.fn_count(c) == cm.support_count(c),
{
    lemma_class_cells_le_total(cm.entries(), cm.n_classes as int, c);
    lemma_row_split(cm.entries(), cm.n_classes as int, c);
}

/// The confusion matrix of a sample set counts exactly the pairs whose two
/// labels are valid classes; when every label is valid, it counts every
/// pair.
pub proof fn lemma_confusion_total(predictions: Seq<usize>, targets: Seq<usize>, n: int)
    requires
        n >= 0,
    ensures
        grand_total(confusion_table(predictions, targets), n) == in_range_count(
            predictions,
            targets,
            n,
            num_pairs(predictions, targets),
        ),
        (forall|i: int| 0 <= i < predictions.len() ==> #[trigger] predictions[i] < n) && (forall|
            i: int,
        |
            0 <= i < targets.len() ==> #[trigger] targets[i] < n) ==> grand_total(
            confusion_table(predictions, targets),
            n,
        ) == num_pairs(predictions, targets),
{
    let k = num_pairs(predictions, targets);
    lemma_pair_table_totals(predictions, targets, n, k);
    if (forall|i: int| 0 <= i < predictions.len() ==> #[trigger] predictions[i] < n) && (forall|
        i: int,
    |
        0 <= i < targets.len() ==> #[trigger] targets[i] < n) {
        lemma_all_in_range(predictions, targets, n, k);
    }
}

/// Allowing more guesses never loses a hit: top-`k` hits are at most
/// top-`k + 1` hits.
pub proof fn lemma_top_k_monotone(keys: Seq<u64>, targets: Seq<usize>, n: int, k: int, m: int)
    ensures
        top_k_hits(keys, targets, n, k, m) <= top_k_hits(keys, targets, n, k + 1, m),
    decreases m,
{
    if m > 0 {
        lemma_top_k_monotone(keys, targets, n, k, m - 1);
    }
}

/// With as many guesses as classes, exactly the samples with a valid true
/// class are hits.
pub proof fn lemma_top_all_classes(keys: Seq<u64>, targets: Seq<usize>, n: int, m: int)
    requires
        n >= 0,
    ensures
        top_k_hits(keys, targets, n, n, m) == valid_target_count(targets, n, m),
    decreases m,
{
    if m > 0 {
        lemma_top_all_classes(keys, targets, n, m - 1);
        if targets[m - 1] < n {
            lemma_ahead_count_lt(table_row_of(keys, n, m - 1), targets[m - 1] as int, n);
        }
    }
}

/// Among the first `m` samples, those whose true class is below `n`.
pub open spec fn valid_target_count(targets: Seq<usize>, n: int, m: int) -> nat
    decreases m,
{
    if m <= 0 {
        0
    } else {
        valid_target_count(targets, n, m - 1) + if targets[m - 1] < n {
            1nat
        } else {
            0nat
        }
    }
}

/// A class is never ranked behind itself, so fewer than `m` classes of the
/// first `m` come before a class among them.
proof fn lemma_ahead_count_lt(row: Seq<u64>, t: int, m: int)
    requires
        0 <= t < m,
    ensures
        ahead_count(row, t, m) < m,
    decreases m,
{
    if m - 1 > t {
        lemma_ahead_count_lt(row, t, m - 1);
    } else {
        lemma_ahead_count_le(row, t, m - 1);
    }
}

proof fn lemma_ahead_count_le(row: Seq<u64>, t: int, m: int)
    requires
        m >= 0,
    ensures
        ahead_count(row, t, m) <= m,
    decreases m,
{
    if m > 0 {
        lemma_ahead_count_le(row, t, m - 1);
    }
}

} // verus!
