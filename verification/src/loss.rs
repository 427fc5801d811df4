//! Loss-function logic over shapes and class indices: the reduction modes,
//! the rank check of class-score inputs, and the one-hot target mask of the
//! negative log-likelihood loss.
use vstd::prelude::*;
use crate::error::NnError;

verus! {

/// Reduction mode for loss functions: how per-element losses are
/// aggregated.
#[derive(Debug, Clone, Copy, PartialEq, Eq, Structural)]
pub enum Reduction {
    /// The mean of all per-element losses (default).
    Mean,
    /// The sum of all per-element losses.
    Sum,
    /// Per-element losses, not reduced.
    NoReduction,
}

impl Default for Reduction {
    fn default() -> (r: Self)
        ensures
            r == Reduction::Mean,
    {
        Reduction::Mean
    }
}

/// Rank check of class-score inputs (cross-entropy logits, NLL
/// log-probabilities): they must be `[batch, classes]`.
pub open spec fn class_scores_check(dims: Seq<usize>) -> Result<(usize, usize), NnError> {
    if dims.len() != 2 {
        Err(NnError::WrongRank { expected: 2, got: dims.len() as usize })
    } else {
        Ok((dims[0], dims[1]))
    }
}

/// Check that class scores are `[batch, classes]`; returns `(batch,
/// classes)`.
pub fn check_class_scores(dims: &[usize]) -> (r: Result<(usize, usize), NnError>)
    ensures
        r == class_scores_check(dims@),
{
    if dims.len() != 2 {
        return Err(NnError::WrongRank { expected: 2, got: dims.len() });
    }
    Ok((dims[0], dims[1]))
}

/// The first of the first `batch` targets that is not a valid class, or
/// `batch` when all are valid.
pub open spec fn first_invalid_target(targets: Seq<usize>, classes: usize, batch: int) -> int
    decreases batch,
{
    if batch <= 0 {
        0
    } else if first_invalid_target(targets, classes, batch - 1) < batch - 1 {
        first_invalid_target(targets, classes, batch - 1)
    } else if targets[batch - 1] >= classes {
        batch - 1
    } else {
        batch
    }
}

proof fn lemma_first_invalid_target(targets: Seq<usize>, classes: usize, batch: int)
    requires
        batch >= 0,
    ensures
        0 <= first_invalid_target(targets, classes, batch) <= batch,
        forall|i: int|
            0 <= i < first_invalid_target(targets, classes, batch) ==> #[trigger] targets[i] < classes,
        first_invalid_target(targets, classes, batch) < batch ==> targets[first_invalid_target(
            targets,
            classes,
            batch,
        )] >= classes,
    decreases batch,
{
    if batch > 0 {
        lemma_first_invalid_target(targets, classes, batch - 1);
    }
}

/// The one-hot target mask of the negative log-likelihood loss: for
/// log-probabilities `[batch, classes]` and one class index per sample, the
/// row-major `[batch, classes]` mask marking each sample's class. Fails
/// when the log-probabilities are not 2-D, or at the first target that is
/// not a valid class.
pub fn nll_target_mask(log_prob_dims: &[usize], targets: &[usize]) -> (r: Result<Vec<bool>, NnError>)
    requires
        log_prob_dims@.len() == 2 ==> {
            &&& targets@.len() >= log_prob_dims@[0]
            &&& log_prob_dims@[0] * log_prob_dims@[1] <= usize::MAX
        },
    ensures
        log_prob_dims@.len() != 2 ==> r == Err::<Vec<bool>, NnError>(
            NnError::WrongRank { expected: 2, got: log_prob_dims@.len() as usize },
        ),
        log_prob_dims@.len() == 2 ==> {
            let batch = log_prob_dims@[0] as int;
            let classes = log_prob_dims@[1];
            let first = first_invalid_target(targets@, classes, batch);
            &&& first < batch ==> r == Err::<Vec<bool>, NnError>(
                NnError::TargetOutOfRange { index: targets@[first], classes },
            )
            &&& first == batch ==> (r matches Ok(mask) && {
                &&& mask@.len() == batch * classes
                &&& forall|i: int, j: int|
                    0 <= i < batch && 0 <= j < classes ==> #[trigger] mask@[i * classes + j] == (
                    targets@[i] == j)
            })
        },
{
    let (batch, classes) = match check_class_scores(log_prob_dims) {
        Ok(bc) => bc,
        Err(e) => {
            return Err(e);
        },
    };
    proof {
        lemma_first_invalid_target(targets@, classes, batch as int);
    }
    let mut mask: Vec<bool> = Vec::new();
    let mut i: usize = 0;
    while i < batch
        invariant
            log_prob_dims@.len() == 2,
            batch == log_prob_dims@[0],
            classes == log_prob_dims@[1],
            batch * classes <= usize::MAX,
            targets@.len() >= batch,
            i <= batch,
            mask@.len() == i * classes,
            forall|a: int| 0 <= a < i ==> #[trigger] targets@[a] < classes,
            forall|a: int, b: int|
                0 <= a < i && 0 <= b < classes ==> #[trigger] mask@[a * classes + b] == (targets@[a] == b),
            0 <= first_invalid_target(targets@, classes, batch as int) <= batch,
            forall|a: int|
                0 <= a < first_invalid_target(targets@, classes, batch as int) ==> #[trigger] targets@[a]
                    < classes,
            first_invalid_target(targets@, classes, batch as int) < batch ==> targets@[first_invalid_target(
                targets@,
                classes,
                batch as int,
            )] >= classes,
        decreases batch - i,
    {
        let cls = targets[i];
        if cls >= classes {
            proof {
                let f = first_invalid_target(targets@, classes, batch as int);
                if f < i {
                    assert(targets@[f] < classes);
                }
                if f > i {
                    assert(targets@[i as int] < classes);
                }
            }
            return Err(NnError::TargetOutOfRange { index: cls, classes });
        }
        let ghost before = mask@;
        let mut j: usize = 0;
        while j < classes
            invariant
                i < batch,
                j <= classes,
                mask@.len() == i * classes + j,
                mask@.take(i * classes) == before,
                before.len() == i * classes,
                forall|b: int| 0 <= b < j ==> #[trigger] mask@[i * classes + b] == (cls == b),
            decreases classes - j,
        {
            mask.push(cls == j);
            j = j + 1;
            assert(mask@.take(i * classes) =~= before);
        }
        proof {
            assert(i * classes + classes == (i + 1) * classes) by (nonlinear_arith);
            assert forall|a: int, b: int| 0 <= a < i + 1 && 0 <= b < classes implies #[trigger] mask@[a
                * classes + b] == (targets@[a] == b) by {
                if a < i {
                    assert(a * classes + b < i * classes) by (nonlinear_arith)
                        requires
                            a < i,
                            b < classes,
                    ;
                    assert(mask@[a * classes + b] == mask@.take(i * classes)[a * classes + b]);
                }
            }
        }
        i = i + 1;
    }
    proof {
        let f = first_invalid_target(targets@, classes, batch as int);
        if f < batch {
            assert(targets@[f] < classes);
        }
    }
    Ok(mask)
}

/// The class-score check accepts exactly the 2-D inputs and gives back their
/// dimensions `(batch, classes)` in order.
pub proof fn lemma_class_scores_check(dims: Seq<usize>)
    ensures
        class_scores_check(dims) is Ok <==> dims.len() == 2,
        class_scores_check(dims) matches Ok(t) ==> seq![t.0, t.1] == dims,
        dims.len() != 2 ==> class_scores_check(dims) == Err::<(usize, usize), NnError>(
            NnError::WrongRank { expected: 2, got: dims.len() as usize },
        ),
{
    if dims.len() == 2 {
        let t = class_scores_check(dims)->Ok_0;
        assert(seq![t.0, t.1] =~= dims);
    }
}

} // verus!
