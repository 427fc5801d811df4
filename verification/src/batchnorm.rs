//! BatchNorm2d — batch normalization of each channel of `[N, C, H, W]`
//! inputs, with learnable scale and shift `[C]` and a training/evaluation
//! mode (batch statistics versus running statistics).
use vstd::prelude::*;
use crate::error::NnError;
use crate::module::{names_match, shapes_view, Module};
use crate::shape::{checked_num_elements, copy_shape, lemma_num_elements_single, num_elements};

verus! {

/// 2-D batch normalization layer, given by the shapes of its scale and
/// shift and by its mode.
pub struct BatchNorm2d {
    /// Scale shape.
    weight: Vec<usize>,
    /// Shift shape.
    bias: Vec<usize>,
    /// Number of channels: the number of elements of the scale.
    num_features: usize,
    /// Training mode (batch statistics) or evaluation mode (running ones).
    training: bool,
}

/// Input check of the forward pass: a 4-D input `[N, C, H, W]` whose
/// channel count is the layer's.
pub open spec fn batch_norm_check(dims: Seq<usize>, num_features: usize) -> Result<
    (usize, usize, usize, usize),
    NnError,
> {
    if dims.len() != 4 {
        Err(NnError::WrongRank { expected: 4, got: dims.len() as usize })
    } else if dims[1] != num_features {
        Err(NnError::ChannelMismatch { expected: num_features, got: dims[1] })
    } else {
        Ok((dims[0], dims[1], dims[2], dims[3]))
    }
}

impl BatchNorm2d {
    #[verifier::type_invariant]
    spec fn sizes_agree(&self) -> bool {
        self.num_features == num_elements(self.weight@)
    }

    pub closed spec fn weight_shape(&self) -> Seq<usize> {
        self.weight@
    }

    pub closed spec fn bias_shape(&self) -> Seq<usize> {
        self.bias@
    }

    pub closed spec fn num_features_spec(&self) -> usize {
        self.num_features
    }

    pub closed spec fn training_spec(&self) -> bool {
        self.training
    }

    /// Create a new BatchNorm2d over `num_features` channels: scale and
    /// shift `[num_features]`, in training mode.
    pub fn new(num_features: usize) -> (b: Self)
        ensures
            b.weight_shape() == seq![num_features],
            b.bias_shape() == seq![num_features],
            b.num_features_spec() == num_features,
            b.training_spec(),
    {
        let weight = vec![num_features];
        proof {
            lemma_num_elements_single(num_features);
            assert(weight@ == seq![num_features]);
        }
        BatchNorm2d { weight, bias: vec![num_features], num_features, training: true }
    }

    /// Create from the shapes of existing scale and shift tensors; the
    /// channel count is the number of elements of the scale. Starts in
    /// training mode.
    pub fn from_tensors(weight: Vec<usize>, bias: Vec<usize>) -> (b: Self)
        requires
            num_elements(weight@) <= usize::MAX,
        ensures
            b.weight_shape() == weight@,
            b.bias_shape() == bias@,
            b.num_features_spec() == num_elements(weight@),
            b.training_spec(),
    {
        let n = match checked_num_elements(weight.as_slice()) {
            Some(n) => n,
            None => 0,
        };
        BatchNorm2d { weight, bias, num_features: n, training: true }
    }

    /// Set training mode (use batch statistics).
    pub fn train(&mut self)
        ensures
            final(self).training_spec(),
            final(self).num_features_spec() == old(self).num_features_spec(),
            final(self).weight_shape() == old(self).weight_shape(),
            final(self).bias_shape() == old(self).bias_shape(),
    {
        proof {
            use_type_invariant(&*self);
        }
        self.training = true;
    }

    /// Set evaluation mode (use running statistics).
    pub fn eval(&mut self)
        ensures
            !final(self).training_spec(),
            final(self).num_features_spec() == old(self).num_features_spec(),
            final(self).weight_shape() == old(self).weight_shape(),
            final(self).bias_shape() == old(self).bias_shape(),
    {
        proof {
            use_type_invariant(&*self);
        }
        self.training = false;
    }

    /// Whether the module is in training mode.
    pub fn is_training(&self) -> (r: bool)
        ensures
            r == self.training_spec(),
    {
        self.training
    }

    pub fn num_features(&self) -> (r: usize)
        ensures
            r == self.num_features_spec(),
    {
        self.num_features
    }

    /// Shape of the scale.
    pub fn weight(&self) -> (r: &Vec<usize>)
        ensures
            r@ == self.weight_shape(),
    {
        &self.weight
    }

    /// Shape of the shift.
    pub fn bias(&self) -> (r: &Vec<usize>)
        ensures
            r@ == self.bias_shape(),
    {
        &self.bias
    }

    /// Input check of the forward pass: returns `(N, C, H, W)`.
    pub fn check_input(&self, dims: &[usize]) -> (r: Result<(usize, usize, usize, usize), NnError>)
        ensures
            r == batch_norm_check(dims@, self.num_features_spec()),
    {
        if dims.len() != 4 {
            return Err(NnError::WrongRank { expected: 4, got: dims.len() });
        }
        if dims[1] != self.num_features {
            return Err(NnError::ChannelMismatch { expected: self.num_features, got: dims[1] });
        }
        Ok((dims[0], dims[1], dims[2], dims[3]))
    }
}

impl Module for BatchNorm2d {
    open spec fn parameter_layout(&self) -> Seq<Seq<usize>> {
        seq![self.weight_shape(), self.bias_shape()]
    }

    open spec fn parameter_names(&self) -> Seq<Seq<char>> {
        seq!["weight"@, "bias"@]
    }

    open spec fn training_mode(&self) -> Option<bool> {
        Some(self.training_spec())
    }

    fn parameters(&self) -> (r: Vec<Vec<usize>>) {
        let params = vec![copy_shape(&self.weight), copy_shape(&self.bias)];
        assert(shapes_view(params@) =~= self.parameter_layout());
        params
    }

    fn named_parameters(&self) -> (r: Vec<(String, Vec<usize>)>) {
        vec![
            (String::from_str("weight"), copy_shape(&self.weight)),
            (String::from_str("bias"), copy_shape(&self.bias)),
        ]
    }

    fn set_training(&mut self, training: bool)
        ensures
            final(self).training_spec() == training,
            final(self).num_features_spec() == old(self).num_features_spec(),
            final(self).weight_shape() == old(self).weight_shape(),
            final(self).bias_shape() == old(self).bias_shape(),
    {
        proof {
            use_type_invariant(&*self);
        }
        self.training = training;
    }

    fn is_training(&self) -> (r: bool)
        ensures
            r == self.training_spec(),
    {
        self.training
    }
}

/// The forward-pass check of BatchNorm2d accepts exactly the 4-D inputs
/// with the layer's channel count, and then gives back the input's
/// dimensions `(N, C, H, W)` in order; otherwise it reports the wrong rank,
/// or, for a 4-D input, the channel count found.
pub proof fn lemma_batch_norm_check(dims: Seq<usize>, num_features: usize)
    ensures
        batch_norm_check(dims, num_features) is Ok <==> dims.len() == 4 && dims[1] == num_features,
        batch_norm_check(dims, num_features) matches Ok(t) ==> seq![t.0, t.1, t.2, t.3] == dims,
        dims.len() != 4 ==> batch_norm_check(dims, num_features) == Err::<
            (usize, usize, usize, usize),
            NnError,
        >(NnError::WrongRank { expected: 4, got: dims.len() as usize }),
        dims.len() == 4 && dims[1] != num_features ==> batch_norm_check(dims, num_features) == Err::<
            (usize, usize, usize, usize),
            NnError,
        >(NnError::ChannelMismatch { expected: num_features, got: dims[1] }),
{
    if dims.len() == 4 && dims[1] == num_features {
        let t = batch_norm_check(dims, num_features)->Ok_0;
        assert(seq![t.0, t.1, t.2, t.3] =~= dims);
    }
}

} // verus!
