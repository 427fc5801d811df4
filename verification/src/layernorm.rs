//! LayerNorm — normalization over the last dimension, with a learnable
//! scale and shift of `[normalized_size]`.
use vstd::prelude::*;
use crate::error::NnError;
use crate::module::{names_match, shapes_view, Module};
use crate::shape::{copy_shape, lemma_num_elements_single, num_elements};

verus! {

/// Layer Normalization over the last dimension, given by the shapes of its
/// scale and shift.
pub struct LayerNorm {
    /// Scale shape.
    weight: Vec<usize>,
    /// Shift shape.
    bias: Vec<usize>,
    /// Number of elements of the scale.
    normalized_size: usize,
}

/// Rank check of the normalizations over the last dimension: the input
/// needs a dimension; the index of the last one is returned.
pub open spec fn last_dim_check(dims: Seq<usize>) -> Result<usize, NnError> {
    if dims.len() == 0 {
        Err(NnError::RankTooLow { min: 1, got: 0 })
    } else {
        Ok((dims.len() - 1) as usize)
    }
}

pub(crate) fn check_last_dim(dims: &[usize]) -> (r: Result<usize, NnError>)
    ensures
        r == last_dim_check(dims@),
{
    if dims.len() == 0 {
        Err(NnError::RankTooLow { min: 1, got: 0 })
    } else {
        Ok(dims.len() - 1)
    }
}

impl LayerNorm {
    #[verifier::type_invariant]
    spec fn sizes_agree(&self) -> bool {
        self.normalized_size == num_elements(self.weight@)
    }

    pub closed spec fn weight_shape(&self) -> Seq<usize> {
        self.weight@
    }

    pub closed spec fn bias_shape(&self) -> Seq<usize> {
        self.bias@
    }

    pub closed spec fn normalized_size_spec(&self) -> usize {
        self.normalized_size
    }

    /// Create a new LayerNorm over a last dimension of `normalized_size`:
    /// scale and shift `[normalized_size]`.
    pub fn new(normalized_size: usize) -> (l: Self)
        ensures
            l.weight_shape() == seq![normalized_size],
            l.bias_shape() == seq![normalized_size],
            l.normalized_size_spec() == normalized_size,
    {
        let weight = vec![normalized_size];
        proof {
            lemma_num_elements_single(normalized_size);
            assert(weight@ == seq![normalized_size]);
        }
        LayerNorm { weight, bias: vec![normalized_size], normalized_size }
    }

    /// Create from the shapes of existing scale and shift tensors; the
    /// normalized size is the number of elements of the scale.
    pub fn from_tensors(weight: Vec<usize>, bias: Vec<usize>) -> (l: Self)
        requires
            num_elements(weight@) <= usize::MAX,
        ensures
            l.weight_shape() == weight@,
            l.bias_shape() == bias@,
            l.normalized_size_spec() == num_elements(weight@),
    {
        let n = match crate::shape::checked_num_elements(weight.as_slice()) {
            Some(n) => n,
            None => 0,
        };
        LayerNorm { weight, bias, normalized_size: n }
    }

    pub fn normalized_size(&self) -> (r: usize)
        ensures
            r == self.normalized_size_spec(),
    {
        self.normalized_size
    }

    /// Input check of the forward pass: the input needs a dimension to
    /// normalize over; returns the index of the last dimension.
    pub fn check_input(&self, dims: &[usize]) -> (r: Result<usize, NnError>)
        ensures
            r == last_dim_check(dims@),
    {
        check_last_dim(dims)
    }
}

impl Module for LayerNorm {
    open spec fn parameter_layout(&self) -> Seq<Seq<usize>> {
        seq![self.weight_shape(), self.bias_shape()]
    }

    open spec fn parameter_names(&self) -> Seq<Seq<char>> {
        seq!["weight"@, "bias"@]
    }

    open spec fn training_mode(&self) -> Option<bool> {
        None
    }

    fn parameters(&self) -> (r: Vec<Vec<usize>>) {
        let params = vec![copy_shape(&self.weight), copy_shape(&self.bias)];
        assert(shapes_view(params@) =~= self.parameter_layout());
        params
    }

    fn named_parameters(&self) -> (r: Vec<(String, Vec<usize>)>) {
        vec![
            (String::from_str("weight"), copy_shape(&self.weight)),
            (String::from_str("bias"), copy_shape(&self.bias)),
        ]
    }

    fn set_training(&mut self, training: bool)
        ensures
            *final(self) == *old(self),
    {
    }

    fn is_training(&self) -> (r: bool)
        ensures
            r,
    {
        true
    }
}


/// The check of the normalizations over the last dimension accepts exactly
/// the inputs with a dimension, and then gives the index of the last one
/// (for any shape a slice can hold).
pub proof fn lemma_last_dim_check(dims: Seq<usize>)
    requires
        dims.len() <= usize::MAX,
    ensures
        last_dim_check(dims) is Ok <==> dims.len() > 0,
        last_dim_check(dims) matches Ok(i) ==> i + 1 == dims.len(),
        dims.len() == 0 ==> last_dim_check(dims) == Err::<usize, NnError>(
            NnError::RankTooLow { min: 1, got: 0 },
        ),
{
}

} // verus!
