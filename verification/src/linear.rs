//! Linear — fully-connected (dense) layer: `y = x W^T + b`.
//!
//! Parameter shapes: weight `[out_features, in_features]`, bias
//! `[1, out_features]`.
use vstd::prelude::*;
use crate::error::NnError;
use crate::module::{lemma_total_elements_small, names_match, shapes_view, total_elements, Module};
use crate::shape::{copy_shape, lemma_num_elements_small, num_elements};

verus! {

/// A fully-connected (dense) layer, given by the shapes of its parameters.
pub struct Linear {
    /// Weight matrix shape: `[out_features, in_features]`.
    weight: Vec<usize>,
    /// Optional bias shape.
    bias: Option<Vec<usize>>,
    in_features: usize,
    out_features: usize,
}

impl Linear {
    #[verifier::type_invariant]
    spec fn shapes_agree(&self) -> bool {
        self.weight@ == seq![self.out_features, self.in_features]
    }

    pub closed spec fn in_features_spec(&self) -> usize {
        self.in_features
    }

    pub closed spec fn out_features_spec(&self) -> usize {
        self.out_features
    }

    pub closed spec fn bias_shape(&self) -> Option<Seq<usize>> {
        match self.bias {
            Some(b) => Some(b@),
            None => None,
        }
    }

    /// Create a new Linear layer: weight `[out_features, in_features]`,
    /// bias `[1, out_features]` when `use_bias`.
    pub fn new(in_features: usize, out_features: usize, use_bias: bool) -> (l: Self)
        ensures
            l.in_features_spec() == in_features,
            l.out_features_spec() == out_features,
            l.bias_shape() == if use_bias {
                Some(seq![1usize, out_features])
            } else {
                None::<Seq<usize>>
            },
    {
        let bias = if use_bias {
            Some(vec![1, out_features])
        } else {
            None
        };
        Linear { weight: vec![out_features, in_features], bias, in_features, out_features }
    }

    /// Create a Linear layer from the shapes of existing weight and bias
    /// tensors; the weight must be 2-D `[out_features, in_features]`.
    pub fn from_tensors(weight: Vec<usize>, bias: Option<Vec<usize>>) -> (r: Result<Self, NnError>)
        ensures
            weight@.len() != 2 <==> r is Err,
            r matches Err(e) ==> e == (NnError::WrongRank { expected: 2, got: weight@.len() as usize }),
            r matches Ok(l) ==> {
                &&& l.out_features_spec() == weight@[0]
                &&& l.in_features_spec() == weight@[1]
                &&& l.bias_shape() == match bias {
                    Some(b) => Some(b@),
                    None => None::<Seq<usize>>,
                }
            },
    {
        if weight.len() != 2 {
            return Err(NnError::WrongRank { expected: 2, got: weight.len() });
        }
        let out_features = weight[0];
        let in_features = weight[1];
        Ok(Linear { weight: vec![out_features, in_features], bias, in_features, out_features })
    }

    /// The input feature dimension.
    pub fn in_features(&self) -> (r: usize)
        ensures
            r == self.in_features_spec(),
    {
        self.in_features
    }

    /// The output feature dimension.
    pub fn out_features(&self) -> (r: usize)
        ensures
            r == self.out_features_spec(),
    {
        self.out_features
    }

    /// Shape of the weight: `[out_features, in_features]`.
    pub fn weight(&self) -> (r: &Vec<usize>)
        ensures
            r@ == seq![self.out_features_spec(), self.in_features_spec()],
    {
        proof {
            use_type_invariant(self);
        }
        &self.weight
    }

    /// Shape of the bias, if any.
    pub fn bias(&self) -> (r: Option<&Vec<usize>>)
        ensures
            match r {
                Some(b) => self.bias_shape() == Some(b@),
                None => self.bias_shape() is None,
            },
    {
        match &self.bias {
            Some(b) => Some(b),
            None => None,
        }
    }
}

} // verus!

verus! {

impl Module for Linear {
    open spec fn parameter_layout(&self) -> Seq<Seq<usize>> {
        let w = seq![seq![self.out_features_spec(), self.in_features_spec()]];
        match self.bias_shape() {
            Some(b) => w.push(b),
            None => w,
        }
    }

    open spec fn parameter_names(&self) -> Seq<Seq<char>> {
        match self.bias_shape() {
            Some(b) => seq!["weight"@, "bias"@],
            None => seq!["weight"@],
        }
    }

    open spec fn training_mode(&self) -> Option<bool> {
        None
    }

    fn parameters(&self) -> (r: Vec<Vec<usize>>) {
        let mut params = vec![self.weight().clone()];
        match self.bias() {
            Some(b) => params.push(copy_shape(b)),
            None => {},
        }
        proof {
            assert(shapes_view(params@) =~= self.parameter_layout());
        }
        params
    }

    fn named_parameters(&self) -> (r: Vec<(String, Vec<usize>)>) {
        let mut named = vec![(String::from_str("weight"), copy_shape(self.weight()))];
        match self.bias() {
            Some(b) => named.push((String::from_str("bias"), copy_shape(b))),
            None => {},
        }
        named
    }

    fn set_training(&mut self, training: bool)
        ensures
            *final(self) == *old(self),
    {
    }

    fn is_training(&self) -> (r: bool)
        ensures
            r,
    {
        true
    }
}

/// A Linear layer lists its weight `[out_features, in_features]` first,
/// then its bias exactly when it has one; so it holds `out_features *
/// in_features` scalar parameters plus those of the bias, and one name per
/// parameter.
pub proof fn lemma_linear_parameters(l: Linear)
    ensures
        l.parameter_layout().len() == if l.bias_shape() is Some { 2int } else { 1int },
        l.parameter_names().len() == l.parameter_layout().len(),
        l.parameter_layout()[0] == seq![l.out_features_spec(), l.in_features_spec()],
        l.bias_shape() matches Some(b) ==> l.parameter_layout()[1] == b,
        total_elements(l.parameter_layout()) == l.out_features_spec() * l.in_features_spec()
            + match l.bias_shape() {
            Some(b) => num_elements(b),
            None => 0,
        },
{
    let w = seq![l.out_features_spec(), l.in_features_spec()];
    lemma_num_elements_small(l.out_features_spec(), l.in_features_spec(), 0, 0);
    match l.bias_shape() {
        Some(b) => {
            lemma_total_elements_small(w, b);
            assert(l.parameter_layout() =~= seq![w, b]);
        },
        None => {
            lemma_total_elements_small(w, w);
            assert(l.parameter_layout() =~= seq![w]);
        },
    }
}

} // verus!
