//! RMSNorm — root-mean-square normalization over the last dimension (no
//! mean centering), with a learnable scale of `[normalized_size]`.
use vstd::prelude::*;
use crate::error::NnError;
use crate::layernorm::{check_last_dim, last_dim_check};
use crate::module::{shapes_view, Module};

verus! {

/// Root-mean-square normalization over the last dimension (no mean
/// centering), given by the shape of its scale.
pub struct RMSNorm {
    normalized_size: usize,
}

impl RMSNorm {
    pub closed spec fn normalized_size_spec(&self) -> usize {
        self.normalized_size
    }

    /// Create a new RMSNorm over a last dimension of `normalized_size`:
    /// scale `[normalized_size]`.
    pub fn new(normalized_size: usize) -> (r: Self)
        ensures
            r.normalized_size_spec() == normalized_size,
    {
        RMSNorm { normalized_size }
    }

    pub fn normalized_size(&self) -> (r: usize)
        ensures
            r == self.normalized_size_spec(),
    {
        self.normalized_size
    }

    /// Input check of the forward pass: the input needs a dimension to
    /// normalize over; returns the index of the last dimension.
    pub fn check_input(&self, dims: &[usize]) -> (r: Result<usize, NnError>)
        ensures
            r == last_dim_check(dims@),
    {
        check_last_dim(dims)
    }
}

impl Module for RMSNorm {
    open spec fn parameter_layout(&self) -> Seq<Seq<usize>> {
        seq![seq![self.normalized_size_spec()]]
    }

    open spec fn parameter_names(&self) -> Seq<Seq<char>> {
        seq!["weight"@]
    }

    open spec fn training_mode(&self) -> Option<bool> {
        None
    }

    fn parameters(&self) -> (r: Vec<Vec<usize>>) {
        let w = vec![self.normalized_size];
        assert(w@ == seq![self.normalized_size]);
        let params = vec![w];
        assert(shapes_view(params@) =~= self.parameter_layout());
        params
    }

    fn named_parameters(&self) -> (r: Vec<(String, Vec<usize>)>) {
        let w = vec![self.normalized_size];
        assert(w@ == seq![self.normalized_size]);
        vec![(String::from_str("weight"), w)]
    }

    fn set_training(&mut self, training: bool)
        ensures
            *final(self) == *old(self),
    {
    }

    fn is_training(&self) -> (r: bool)
        ensures
            r,
    {
        true
    }
}

} // verus!
