//! TransformerBlock — one pre-norm Transformer layer:
//! `x = x + attention(ln1(x))`, then `x = x + ffn(ln2(x))` with
//! `ffn = Linear(d_model -> d_ff) -> GELU -> Linear(d_ff -> d_model)`.
use vstd::prelude::*;
use crate::attention::{attention_input_check, MultiHeadAttention};
use crate::error::NnError;
use crate::layernorm::LayerNorm;
use crate::linear::Linear;
use crate::module::{extend_prefixed, extend_shapes, names_match, prefixed, shapes_view, Module};
use crate::shape::is_multiple;

verus! {

/// A single pre-norm Transformer block, given by its sub-layers.
pub struct TransformerBlock {
    /// LayerNorm before attention.
    ln1: LayerNorm,
    /// Multi-head self-attention.
    attn: MultiHeadAttention,
    /// LayerNorm before the feed-forward network.
    ln2: LayerNorm,
    /// Feed-forward expansion: `d_model -> d_ff`.
    ff1: Linear,
    /// Feed-forward projection back: `d_ff -> d_model`.
    ff2: Linear,
    d_model: usize,
}

impl TransformerBlock {
    pub closed spec fn d_model_spec(&self) -> usize {
        self.d_model
    }

    pub closed spec fn ln1_spec(&self) -> LayerNorm {
        self.ln1
    }

    pub closed spec fn attn_spec(&self) -> MultiHeadAttention {
        self.attn
    }

    pub closed spec fn ln2_spec(&self) -> LayerNorm {
        self.ln2
    }

    pub closed spec fn ff1_spec(&self) -> Linear {
        self.ff1
    }

    pub closed spec fn ff2_spec(&self) -> Linear {
        self.ff2
    }

    /// Create a new TransformerBlock: layer norms over `d_model`,
    /// `num_heads`-head attention (masked when `causal`), and a
    /// feed-forward network of inner width `d_ff` with biases. Fails as the
    /// attention does when `d_model` is not a multiple of `num_heads`.
    pub fn new(d_model: usize, num_heads: usize, d_ff: usize, causal: bool) -> (r: Result<Self, NnError>)
        requires
            num_heads > 0 || d_model > 0,
        ensures
            is_multiple(d_model, num_heads) <==> r is Ok,
            r matches Err(e) ==> e == (NnError::NotDivisible { size: d_model, divisor: num_heads }),
            r matches Ok(t) ==> {
                &&& t.d_model_spec() == d_model
                &&& t.attn_spec().num_heads_spec() == num_heads
                &&& t.attn_spec().d_model_spec() == d_model
                &&& t.attn_spec().causal_spec() == causal
                &&& t.ln1_spec().weight_shape() == seq![d_model]
                &&& t.ln1_spec().bias_shape() == seq![d_model]
                &&& t.ln2_spec().weight_shape() == seq![d_model]
                &&& t.ln2_spec().bias_shape() == seq![d_model]
                &&& t.ff1_spec().in_features_spec() == d_model
                &&& t.ff1_spec().out_features_spec() == d_ff
                &&& t.ff1_spec().bias_shape() == Some(seq![1usize, d_ff])
                &&& t.ff2_spec().in_features_spec() == d_ff
                &&& t.ff2_spec().out_features_spec() == d_model
                &&& t.ff2_spec().bias_shape() == Some(seq![1usize, d_model])
            },
    {
        let ln1 = LayerNorm::new(d_model);
        let attn = match MultiHeadAttention::new(d_model, num_heads) {
            Ok(a) => a.with_causal(causal),
            Err(e) => {
                return Err(e);
            },
        };
        let ln2 = LayerNorm::new(d_model);
        let ff1 = Linear::new(d_model, d_ff, true);
        let ff2 = Linear::new(d_ff, d_model, true);
        Ok(TransformerBlock { ln1, attn, ln2, ff1, ff2, d_model })
    }

    pub fn d_model(&self) -> (r: usize)
        ensures
            r == self.d_model_spec(),
    {
        self.d_model
    }

    /// Input check of the forward pass: a 3-D input `[batch, seq,
    /// d_model]`; returns `(batch, seq)`.
    pub fn check_input(&self, dims: &[usize]) -> (r: Result<(usize, usize), NnError>)
        ensures
            r == attention_input_check(dims@),
    {
        if dims.len() != 3 {
            return Err(NnError::WrongRank { expected: 3, got: dims.len() });
        }
        Ok((dims[0], dims[1]))
    }
}

impl Module for TransformerBlock {
    open spec fn parameter_layout(&self) -> Seq<Seq<usize>> {
        self.ln1_spec().parameter_layout() + self.attn_spec().parameter_layout()
            + self.ln2_spec().parameter_layout() + self.ff1_spec().parameter_layout()
            + self.ff2_spec().parameter_layout()
    }

    open spec fn parameter_names(&self) -> Seq<Seq<char>> {
        prefixed("ln1."@, self.ln1_spec().parameter_names()) + prefixed(
            "attn."@,
            self.attn_spec().parameter_names(),
        ) + prefixed("ln2."@, self.ln2_spec().parameter_names()) + prefixed(
            "ff1."@,
            self.ff1_spec().parameter_names(),
        ) + prefixed("ff2."@, self.ff2_spec().parameter_names())
    }

    open spec fn training_mode(&self) -> Option<bool> {
        None
    }

    fn parameters(&self) -> (r: Vec<Vec<usize>>) {
        let mut params: Vec<Vec<usize>> = Vec::new();
        extend_shapes(&mut params, self.ln1.parameters());
        extend_shapes(&mut params, self.attn.parameters());
        extend_shapes(&mut params, self.ln2.parameters());
        extend_shapes(&mut params, self.ff1.parameters());
        extend_shapes(&mut params, self.ff2.parameters());
        assert(shapes_view(params@) =~= self.parameter_layout());
        params
    }

    fn named_parameters(&self) -> (r: Vec<(String, Vec<usize>)>) {
        let mut named: Vec<(String, Vec<usize>)> = Vec::new();
        let ghost mut names: Seq<Seq<char>> = Seq::empty();
        let ghost mut shapes: Seq<Seq<usize>> = Seq::empty();
        extend_prefixed(
            &mut named,
            "ln1.",
            self.ln1.named_parameters(),
            Ghost(self.ln1.parameter_names()),
            Ghost(self.ln1.parameter_layout()),
            Ghost(names),
            Ghost(shapes),
        );
        proof {
            names = names + prefixed("ln1."@, self.ln1.parameter_names());
            shapes = shapes + self.ln1.parameter_layout();
        }
        extend_prefixed(
            &mut named,
            "attn.",
            self.attn.named_parameters(),
            Ghost(self.attn.parameter_names()),
            Ghost(self.attn.parameter_layout()),
            Ghost(names),
            Ghost(shapes),
        );
        proof {
            names = names + prefixed("attn."@, self.attn.parameter_names());
            shapes = shapes + self.attn.parameter_layout();
        }
        extend_prefixed(
            &mut named,
            "ln2.",
            self.ln2.named_parameters(),
            Ghost(self.ln2.parameter_names()),
            Ghost(self.ln2.parameter_layout()),
            Ghost(names),
            Ghost(shapes),
        );
        proof {
            names = names + prefixed("ln2."@, self.ln2.parameter_names());
            shapes = shapes + self.ln2.parameter_layout();
        }
        extend_prefixed(
            &mut named,
            "ff1.",
            self.ff1.named_parameters(),
            Ghost(self.ff1.parameter_names()),
            Ghost(self.ff1.parameter_layout()),
            Ghost(names),
            Ghost(shapes),
        );
        proof {
            names = names + prefixed("ff1."@, self.ff1.parameter_names());
            shapes = shapes + self.ff1.parameter_layout();
        }
        extend_prefixed(
            &mut named,
            "ff2.",
            self.ff2.named_parameters(),
            Ghost(self.ff2.parameter_names()),
            Ghost(self.ff2.parameter_layout()),
            Ghost(names),
            Ghost(shapes),
        );
        proof {
            names = names + prefixed("ff2."@, self.ff2.parameter_names());
            shapes = shapes + self.ff2.parameter_layout();
            assert(names =~= self.parameter_names());
            assert(shapes =~= self.parameter_layout());
        }
        named
    }

    fn set_training(&mut self, training: bool)
        ensures
            *final(self) == *old(self),
    {
    }

    fn is_training(&self) -> (r: bool)
        ensures
            r,
    {
        true
    }
}

} // verus!
