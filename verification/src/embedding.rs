//! Embedding — a learnable lookup table mapping integer indices to dense
//! vectors; the table is `[num_embeddings, embedding_dim]`.
use vstd::prelude::*;
use crate::error::NnError;
use crate::module::{names_match, shapes_view, Module};
use crate::shape::{copy_dims, copy_shape};

verus! {

/// A learnable lookup table, given by the shape of its table.
pub struct Embedding {
    /// Table shape: `[num_embeddings, embedding_dim]`.
    weight: Vec<usize>,
    num_embeddings: usize,
    embedding_dim: usize,
}

impl Embedding {
    #[verifier::type_invariant]
    spec fn shapes_agree(&self) -> bool {
        self.weight@ == seq![self.num_embeddings, self.embedding_dim]
    }

    pub closed spec fn num_embeddings_spec(&self) -> usize {
        self.num_embeddings
    }

    pub closed spec fn embedding_dim_spec(&self) -> usize {
        self.embedding_dim
    }

    /// Create a new Embedding layer with a `[num_embeddings, embedding_dim]`
    /// table.
    pub fn new(num_embeddings: usize, embedding_dim: usize) -> (e: Self)
        ensures
            e.num_embeddings_spec() == num_embeddings,
            e.embedding_dim_spec() == embedding_dim,
    {
        Embedding { weight: vec![num_embeddings, embedding_dim], num_embeddings, embedding_dim }
    }

    /// Create from the shape of an existing table, which must be 2-D.
    pub fn from_tensor(weight: Vec<usize>) -> (r: Result<Self, NnError>)
        ensures
            weight@.len() != 2 <==> r is Err,
            r matches Err(e) ==> e == (NnError::WrongRank { expected: 2, got: weight@.len() as usize }),
            r matches Ok(e) ==> e.num_embeddings_spec() == weight@[0] && e.embedding_dim_spec()
                == weight@[1],
    {
        if weight.len() != 2 {
            return Err(NnError::WrongRank { expected: 2, got: weight.len() });
        }
        Ok(Embedding { weight: vec![weight[0], weight[1]], num_embeddings: weight[0], embedding_dim: weight[1] })
    }

    pub fn num_embeddings(&self) -> (r: usize)
        ensures
            r == self.num_embeddings_spec(),
    {
        self.num_embeddings
    }

    pub fn embedding_dim(&self) -> (r: usize)
        ensures
            r == self.embedding_dim_spec(),
    {
        self.embedding_dim
    }

    /// Shape of the table: `[num_embeddings, embedding_dim]`.
    pub fn weight(&self) -> (r: &Vec<usize>)
        ensures
            r@ == seq![self.num_embeddings_spec(), self.embedding_dim_spec()],
    {
        proof {
            use_type_invariant(self);
        }
        &self.weight
    }

    /// Shape of the looked-up vectors for indices of the given shape: the
    /// index shape followed by `embedding_dim`.
    pub fn output_shape(&self, index_dims: &[usize]) -> (r: Vec<usize>)
        ensures
            r@ == index_dims@.push(self.embedding_dim_spec()),
    {
        let mut out = copy_dims(index_dims);
        out.push(self.embedding_dim);
        out
    }
}

impl Module for Embedding {
    open spec fn parameter_layout(&self) -> Seq<Seq<usize>> {
        seq![seq![self.num_embeddings_spec(), self.embedding_dim_spec()]]
    }

    open spec fn parameter_names(&self) -> Seq<Seq<char>> {
        seq!["weight"@]
    }

    open spec fn training_mode(&self) -> Option<bool> {
        None
    }

    fn parameters(&self) -> (r: Vec<Vec<usize>>) {
        let params = vec![copy_shape(self.weight())];
        assert(shapes_view(params@) =~= self.parameter_layout());
        params
    }

    fn named_parameters(&self) -> (r: Vec<(String, Vec<usize>)>) {
        vec![(String::from_str("weight"), copy_shape(self.weight()))]
    }

    fn set_training(&mut self, training: bool)
        ensures
            *final(self) == *old(self),
    {
    }

    fn is_training(&self) -> (r: bool)
        ensures
            r,
    {
        true
    }
}

} // verus!
