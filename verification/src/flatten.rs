//! Flatten — collapse a trailing range of dimensions into one.
use vstd::prelude::*;
use crate::module::{shapes_view, Module};
use crate::shape::{
    checked_num_elements, copy_dims, lemma_num_elements_concat, lemma_num_elements_single, num_elements,
};

verus! {

/// Flatten layer: collapses dimensions `start_dim..` into one, so
/// `[N, C, H, W]` becomes `[N, C*H*W]` with the default `start_dim = 1`.
pub struct Flatten {
    start_dim: usize,
}

/// Shape after flattening from `start`: unchanged when `start` is not a
/// dimension, otherwise the dimensions before `start` followed by the
/// product of the rest.
pub open spec fn flattened(dims: Seq<usize>, start: int) -> Seq<usize> {
    if start >= dims.len() {
        dims
    } else {
        dims.take(start).push(num_elements(dims.skip(start)) as usize)
    }
}

impl Flatten {
    pub closed spec fn start_dim_spec(&self) -> usize {
        self.start_dim
    }

    /// A Flatten that collapses from `start_dim` through the last dimension
    /// (`1` keeps the batch dimension, `0` flattens everything).
    pub fn new(start_dim: usize) -> (f: Self)
        ensures
            f.start_dim_spec() == start_dim,
    {
        Flatten { start_dim }
    }

    /// Default flatten: from dimension 1 onward (keeps the batch dimension).
    pub fn default_flat() -> (f: Self)
        ensures
            f.start_dim_spec() == 1,
    {
        Flatten { start_dim: 1 }
    }

    /// Shape of the output for an input of the given shape.
    pub fn output_shape(&self, dims: &[usize]) -> (r: Vec<usize>)
        requires
            self.start_dim_spec() < dims@.len() ==> num_elements(dims@.skip(self.start_dim_spec() as int)) <= usize::MAX,
        ensures
            r@ == flattened(dims@, self.start_dim_spec() as int),
    {
        if self.start_dim >= dims.len() {
            return copy_dims(dims);
        }
        let mut new_dims: Vec<usize> = Vec::new();
        let mut i: usize = 0;
        while i < self.start_dim
            invariant
                self.start_dim < dims.len(),
                i <= self.start_dim,
                new_dims@ == dims@.take(i as int),
            decreases self.start_dim - i,
        {
            new_dims.push(dims[i]);
            i = i + 1;
            assert(new_dims@ =~= dims@.take(i as int));
        }
        let rest = slice_skip(dims, self.start_dim);
        match checked_num_elements(rest) {
            Some(flat) => {
                new_dims.push(flat);
            },
            None => {
                assert(false);
            },
        }
        new_dims
    }
}

/// The dimensions from `start` on.
fn slice_skip(dims: &[usize], start: usize) -> (r: &[usize])
    requires
        start <= dims@.len(),
    ensures
        r@ == dims@.skip(start as int),
{
    let (_, rest) = dims.split_at(start);
    assert(rest@ =~= dims@.skip(start as int));
    rest
}

/// Flattening from a dimension `start` of the shape keeps the dimensions
/// before it and folds the rest into one, giving `start + 1` dimensions;
/// from beyond the last dimension it changes nothing.
pub proof fn lemma_flatten_dims(dims: Seq<usize>, start: int)
    requires
        0 <= start,
    ensures
        start >= dims.len() ==> flattened(dims, start) == dims,
        start < dims.len() ==> {
            &&& flattened(dims, start).len() == start + 1
            &&& forall|i: int| 0 <= i < start ==> #[trigger] flattened(dims, start)[i] == dims[i]
            &&& flattened(dims, start)[start] == num_elements(dims.skip(start)) as usize
        },
{
}

/// Flattening never changes the number of elements.
pub proof fn lemma_flatten_keeps_elements(dims: Seq<usize>, start: int)
    requires
        0 <= start,
        start < dims.len() ==> num_elements(dims.skip(start)) <= usize::MAX,
    ensures
        num_elements(flattened(dims, start)) == num_elements(dims),
{
    if start < dims.len() {
        let rest = num_elements(dims.skip(start));
        lemma_num_elements_single(rest as usize);
        lemma_num_elements_concat(dims.take(start), seq![rest as usize]);
        assert(dims.take(start).push(rest as usize) =~= dims.take(start) + seq![rest as usize]);
        lemma_num_elements_concat(dims.take(start), dims.skip(start));
        assert(dims.take(start) + dims.skip(start) =~= dims);
    }
}

impl Default for Flatten {
    fn default() -> (f: Self)
        ensures
            f.start_dim_spec() == 1,
    {
        Self::default_flat()
    }
}

impl Module for Flatten {
    open spec fn parameter_layout(&self) -> Seq<Seq<usize>> {
        seq![]
    }

    open spec fn parameter_names(&self) -> Seq<Seq<char>> {
        seq![]
    }

    open spec fn training_mode(&self) -> Option<bool> {
        None
    }

    fn parameters(&self) -> (r: Vec<Vec<usize>>) {
        let r: Vec<Vec<usize>> = Vec::new();
        assert(shapes_view(r@) =~= seq![]);
        r
    }

    fn named_parameters(&self) -> (r: Vec<(String, Vec<usize>)>) {
        Vec::new()
    }

    fn set_training(&mut self, training: bool)
        ensures
            *final(self) == *old(self),
    {
    }

    fn is_training(&self) -> (r: bool)
        ensures
            r,
    {
        true
    }
}

} // verus!
