//! Multi-head self-attention: four `d_model x d_model` projections without
//! bias, `d_model` split into `num_heads` heads of `d_model / num_heads`.
use vstd::prelude::*;
use crate::error::NnError;
use crate::linear::Linear;
use crate::module::{extend_prefixed, extend_shapes, names_match, prefixed, shapes_view, Module};
use crate::shape::{
    is_multiple, lemma_num_elements_concat, lemma_num_elements_single, multiple_of, num_elements,
};

verus! {

/// Multi-head self-attention, given by its sizes, its projections and
/// whether it masks future positions.
pub struct MultiHeadAttention {
    num_heads: usize,
    head_dim: usize,
    d_model: usize,
    w_q: Linear,
    w_k: Linear,
    w_v: Linear,
    w_o: Linear,
    causal: bool,
}

/// A `d x d` projection without bias.
pub open spec fn is_square_projection(l: Linear, d: usize) -> bool {
    &&& l.in_features_spec() == d
    &&& l.out_features_spec() == d
    &&& l.bias_shape() is None
}

/// Input check of the forward pass: a 3-D input `[batch, seq, d_model]`;
/// returns `(batch, seq)`.
pub open spec fn attention_input_check(dims: Seq<usize>) -> Result<(usize, usize), NnError> {
    if dims.len() != 3 {
        Err(NnError::WrongRank { expected: 3, got: dims.len() as usize })
    } else {
        Ok((dims[0], dims[1]))
    }
}

impl MultiHeadAttention {
    #[verifier::type_invariant]
    spec fn consistent(&self) -> bool {
        &&& self.num_heads > 0
        &&& self.head_dim == self.d_model / self.num_heads
        &&& self.d_model % self.num_heads == 0
        &&& is_square_projection(self.w_q, self.d_model)
        &&& is_square_projection(self.w_k, self.d_model)
        &&& is_square_projection(self.w_v, self.d_model)
        &&& is_square_projection(self.w_o, self.d_model)
    }

    pub closed spec fn num_heads_spec(&self) -> usize {
        self.num_heads
    }

    pub closed spec fn head_dim_spec(&self) -> usize {
        self.head_dim
    }

    pub closed spec fn d_model_spec(&self) -> usize {
        self.d_model
    }

    pub closed spec fn causal_spec(&self) -> bool {
        self.causal
    }

    pub closed spec fn projections(&self) -> Seq<Linear> {
        seq![self.w_q, self.w_k, self.w_v, self.w_o]
    }

    /// Create a new multi-head attention; `d_model` must be a multiple of
    /// `num_heads`. Not causal.
    pub fn new(d_model: usize, num_heads: usize) -> (r: Result<Self, NnError>)
        requires
            num_heads > 0 || d_model > 0,
        ensures
            is_multiple(d_model, num_heads) <==> r is Ok,
            r matches Err(e) ==> e == (NnError::NotDivisible { size: d_model, divisor: num_heads }),
            r matches Ok(a) ==> {
                &&& a.num_heads_spec() == num_heads
                &&& a.d_model_spec() == d_model
                &&& a.head_dim_spec() == d_model / num_heads
                &&& !a.causal_spec()
                &&& forall|i: int| 0 <= i < 4 ==> is_square_projection(#[trigger] a.projections()[i], d_model)
            },
    {
        if !multiple_of(d_model, num_heads) {
            return Err(NnError::NotDivisible { size: d_model, divisor: num_heads });
        }
        let head_dim = d_model / num_heads;
        let w_q = Linear::new(d_model, d_model, false);
        let w_k = Linear::new(d_model, d_model, false);
        let w_v = Linear::new(d_model, d_model, false);
        let w_o = Linear::new(d_model, d_model, false);
        Ok(MultiHeadAttention { num_heads, head_dim, d_model, w_q, w_k, w_v, w_o, causal: false })
    }

    /// Enable or disable causal (autoregressive) masking.
    pub fn with_causal(self, causal: bool) -> (r: Self)
        ensures
            r.causal_spec() == causal,
            r.num_heads_spec() == self.num_heads_spec(),
            r.d_model_spec() == self.d_model_spec(),
            r.head_dim_spec() == self.head_dim_spec(),
            r.projections() == self.projections(),
    {
        proof {
            use_type_invariant(&self);
        }
        MultiHeadAttention { causal, ..self }
    }

    pub fn num_heads(&self) -> (r: usize)
        ensures
            r == self.num_heads_spec(),
    {
        self.num_heads
    }

    pub fn d_model(&self) -> (r: usize)
        ensures
            r == self.d_model_spec(),
    {
        self.d_model
    }

    pub fn head_dim(&self) -> (r: usize)
        ensures
            r == self.head_dim_spec(),
    {
        self.head_dim
    }

    /// Input check of the forward pass: returns `(batch, seq)`.
    pub fn check_input(&self, dims: &[usize]) -> (r: Result<(usize, usize), NnError>)
        ensures
            r == attention_input_check(dims@),
    {
        if dims.len() != 3 {
            return Err(NnError::WrongRank { expected: 3, got: dims.len() });
        }
        Ok((dims[0], dims[1]))
    }

    /// Shape of queries, keys and values once split into heads:
    /// `[batch, num_heads, seq, head_dim]`.
    /// The heads cover the model width exactly, so this view holds as many
    /// elements as `[batch, seq, d_model]`.
    pub fn heads_shape(&self, batch: usize, seq: usize) -> (r: Vec<usize>)
        ensures
            r@ == seq![batch, self.num_heads_spec(), seq, self.head_dim_spec()],
            self.num_heads_spec() * self.head_dim_spec() == self.d_model_spec(),
            num_elements(r@) == num_elements(seq![batch, seq, self.d_model_spec()]),
    {
        proof {
            use_type_invariant(self);
            let h = self.num_heads as int;
            let d = self.d_model as int;
            let hd = self.head_dim as int;
            assert(h * hd == d) by (nonlinear_arith)
                requires
                    h > 0,
                    hd == d / h,
                    d % h == 0,
            ;
            lemma_num_elements_concat(seq![batch, self.num_heads], seq![seq, self.head_dim]);
            lemma_num_elements_concat(seq![batch], seq![self.num_heads]);
            lemma_num_elements_concat(seq![seq], seq![self.head_dim]);
            lemma_num_elements_concat(seq![batch, seq], seq![self.d_model]);
            lemma_num_elements_concat(seq![batch], seq![seq]);
            lemma_num_elements_single(batch);
            lemma_num_elements_single(seq);
            lemma_num_elements_single(self.num_heads);
            lemma_num_elements_single(self.head_dim);
            lemma_num_elements_single(self.d_model);
            assert(seq![batch, self.num_heads] + seq![seq, self.head_dim] =~= seq![batch, self.num_heads, seq, self.head_dim]);
            assert(seq![batch] + seq![self.num_heads] =~= seq![batch, self.num_heads]);
            assert(seq![seq] + seq![self.head_dim] =~= seq![seq, self.head_dim]);
            assert(seq![batch, seq] + seq![self.d_model] =~= seq![batch, seq, self.d_model]);
            assert(seq![batch] + seq![seq] =~= seq![batch, seq]);
            let b = batch as int;
            let s = seq as int;
            assert((b * h) * (s * hd) == (b * s) * (h * hd)) by (nonlinear_arith);
        }
        vec![batch, self.num_heads, seq, self.head_dim]
    }

    /// The causal mask of a sequence of length `seq`, row-major
    /// `[seq, seq]`: position `(i, j)` is masked exactly when `j > i`, so no
    /// position attends to a later one.
    pub fn causal_mask(&self, seq: usize) -> (r: Vec<bool>)
        requires
            seq * seq <= usize::MAX,
        ensures
            r@.len() == seq * seq,
            forall|i: int, j: int| 0 <= i < seq && 0 <= j < seq ==> #[trigger] r@[i * seq + j] == (j > i),
    {
        let mut mask: Vec<bool> = Vec::new();
        let mut i: usize = 0;
        while i < seq
            invariant
                seq * seq <= usize::MAX,
                i <= seq,
                mask@.len() == i * seq,
                forall|a: int, b: int| 0 <= a < i && 0 <= b < seq ==> #[trigger] mask@[a * seq + b] == (b > a),
            decreases seq - i,
        {
            let ghost before = mask@;
            let mut j: usize = 0;
            while j < seq
                invariant
                    i < seq,
                    j <= seq,
                    mask@.len() == i * seq + j,
                    mask@.take(i * seq) == before,
                    before.len() == i * seq,
                    forall|b: int| 0 <= b < j ==> #[trigger] mask@[i * seq + b] == (b > i),
                decreases seq - j,
            {
                mask.push(j > i);
                j = j + 1;
                assert(mask@.take(i * seq) =~= before);
            }
            proof {
                assert(i * seq + seq == (i + 1) * seq) by (nonlinear_arith);
                assert forall|a: int, b: int| 0 <= a < i + 1 && 0 <= b < seq implies #[trigger] mask@[a
                    * seq + b] == (b > a) by {
                    if a < i {
                        assert(a * seq + b < i * seq) by (nonlinear_arith)
                            requires
                                a < i,
                                b < seq,
                        ;
                        assert(mask@[a * seq + b] == mask@.take(i * seq)[a * seq + b]);
                    }
                }
            }
            i = i + 1;
        }
        mask
    }
}

impl Module for MultiHeadAttention {
    open spec fn parameter_layout(&self) -> Seq<Seq<usize>> {
        self.projections()[0].parameter_layout() + self.projections()[1].parameter_layout()
            + self.projections()[2].parameter_layout() + self.projections()[3].parameter_layout()
    }

    open spec fn parameter_names(&self) -> Seq<Seq<char>> {
        prefixed("w_q."@, self.projections()[0].parameter_names()) + prefixed(
            "w_k."@,
            self.projections()[1].parameter_names(),
        ) + prefixed("w_v."@, self.projections()[2].parameter_names()) + prefixed(
            "w_o."@,
            self.projections()[3].parameter_names(),
        )
    }

    open spec fn training_mode(&self) -> Option<bool> {
        None
    }

    fn parameters(&self) -> (r: Vec<Vec<usize>>) {
        let mut params: Vec<Vec<usize>> = Vec::new();
        extend_shapes(&mut params, self.w_q.parameters());
        extend_shapes(&mut params, self.w_k.parameters());
        extend_shapes(&mut params, self.w_v.parameters());
        extend_shapes(&mut params, self.w_o.parameters());
        assert(shapes_view(params@) =~= self.parameter_layout());
        params
    }

    fn named_parameters(&self) -> (r: Vec<(String, Vec<usize>)>) {
        let mut named: Vec<(String, Vec<usize>)> = Vec::new();
        extend_prefixed(
            &mut named,
            "w_q.",
            self.w_q.named_parameters(),
            Ghost(self.w_q.parameter_names()),
            Ghost(self.w_q.parameter_layout()),
            Ghost(Seq::<Seq<char>>::empty()),
            Ghost(Seq::<Seq<usize>>::empty()),
        );
        extend_prefixed(
            &mut named,
            "w_k.",
            self.w_k.named_parameters(),
            Ghost(self.w_k.parameter_names()),
            Ghost(self.w_k.parameter_layout()),
            Ghost(prefixed("w_q."@, self.w_q.parameter_names())),
            Ghost(self.w_q.parameter_layout()),
        );
        extend_prefixed(
            &mut named,
            "w_v.",
            self.w_v.named_parameters(),
            Ghost(self.w_v.parameter_names()),
            Ghost(self.w_v.parameter_layout()),
            Ghost(Seq::empty() + prefixed("w_q."@, self.w_q.parameter_names()) + prefixed("w_k."@, self.w_k.parameter_names())),
            Ghost(Seq::empty() + self.w_q.parameter_layout() + self.w_k.parameter_layout()),
        );
        extend_prefixed(
            &mut named,
            "w_o.",
            self.w_o.named_parameters(),
            Ghost(self.w_o.parameter_names()),
            Ghost(self.w_o.parameter_layout()),
            Ghost(Seq::empty() + prefixed("w_q."@, self.w_q.parameter_names()) + prefixed("w_k."@, self.w_k.parameter_names()) + prefixed("w_v."@, self.w_v.parameter_names())),
            Ghost(Seq::empty() + self.w_q.parameter_layout() + self.w_k.parameter_layout() + self.w_v.parameter_layout()),
        );
        assert(seq![] + prefixed("w_q."@, self.w_q.parameter_names()) + prefixed("w_k."@, self.w_k.parameter_names()) + prefixed("w_v."@, self.w_v.parameter_names()) + prefixed("w_o."@, self.w_o.parameter_names()) =~= self.parameter_names());
        assert(seq![] + self.w_q.parameter_layout() + self.w_k.parameter_layout() + self.w_v.parameter_layout() + self.w_o.parameter_layout() =~= self.parameter_layout());
        named
    }

    fn set_training(&mut self, training: bool)
        ensures
            *final(self) == *old(self),
    {
    }

    fn is_training(&self) -> (r: bool)
        ensures
            r,
    {
        true
    }
}

/// The forward-pass check of attention (and of the transformer block)
/// accepts exactly the 3-D inputs and gives back their first two dimensions
/// `(batch, seq)` in order.
pub proof fn lemma_attention_input_check(dims: Seq<usize>)
    ensures
        attention_input_check(dims) is Ok <==> dims.len() == 3,
        attention_input_check(dims) matches Ok(t) ==> seq![t.0, t.1] == dims.take(2),
        dims.len() != 3 ==> attention_input_check(dims) == Err::<(usize, usize), NnError>(
            NnError::WrongRank { expected: 3, got: dims.len() as usize },
        ),
{
    if dims.len() == 3 {
        let t = attention_input_check(dims)->Ok_0;
        assert(seq![t.0, t.1] =~= dims.take(2));
    }
}

} // verus!
