//! Recurrent layers — vanilla RNN, LSTM and GRU cells and their unrolled
//! sequence versions — given by the shapes of their weights.
//!
//! A cell with `G` gates (1 for RNN, 4 for LSTM, 3 for GRU) has weights
//! `w_ih: [G*hidden, input]`, `w_hh: [G*hidden, hidden]` and, with bias,
//! `b_ih`, `b_hh: [1, G*hidden]`.
use vstd::prelude::*;
use crate::module::{extend_prefixed, names_match, prefixed, shapes_view};
use crate::shape::copy_shape;

verus! {

/// Parameter shapes of a recurrent cell with `gates` gates, in the order
/// `w_ih`, `w_hh`, `b_ih`, `b_hh`.
pub open spec fn recurrent_layout(gates: nat, input: usize, hidden: usize, use_bias: bool) -> Seq<Seq<usize>> {
    let g = (gates * hidden) as usize;
    let w = seq![seq![g, input], seq![g, hidden]];
    if use_bias {
        w + seq![seq![1usize, g], seq![1usize, g]]
    } else {
        w
    }
}

/// A recurrent cell with `gates` gates lists two weights, `[gates * hidden,
/// input]` then `[gates * hidden, hidden]`, followed with a bias by two
/// biases `[1, gates * hidden]`, and has one name per parameter.
pub proof fn lemma_recurrent_layout(gates: nat, input: usize, hidden: usize, use_bias: bool)
    requires
        gates * hidden <= usize::MAX,
    ensures
        recurrent_layout(gates, input, hidden, use_bias).len() == if use_bias { 4int } else { 2int },
        recurrent_names(use_bias).len() == recurrent_layout(gates, input, hidden, use_bias).len(),
        recurrent_layout(gates, input, hidden, use_bias)[0] == seq![(gates * hidden) as usize, input],
        recurrent_layout(gates, input, hidden, use_bias)[1] == seq![(gates * hidden) as usize, hidden],
        recurrent_layout(gates, input, hidden, use_bias)[0][0] == gates * hidden,
        use_bias ==> recurrent_layout(gates, input, hidden, use_bias)[2] == seq![1usize, (gates * hidden) as usize]
            && recurrent_layout(gates, input, hidden, use_bias)[3] == seq![1usize, (gates * hidden) as usize],
{
}

/// Parameter names of a recurrent cell.
pub open spec fn recurrent_names(use_bias: bool) -> Seq<Seq<char>> {
    if use_bias {
        seq!["w_ih"@, "w_hh"@, "b_ih"@, "b_hh"@]
    } else {
        seq!["w_ih"@, "w_hh"@]
    }
}

/// Shapes of the outputs of a recurrent layer for an input `[batch,
/// seq_len, input_size]` of at least one step: all hidden states `[batch,
/// seq_len, hidden]` and the final state `[batch, hidden]`.
pub open spec fn sequence_shapes(dims: Seq<usize>, input: usize, hidden: usize) -> Option<(Seq<usize>, Seq<usize>)> {
    if dims.len() == 3 && dims[2] == input && dims[1] > 0 {
        Some((seq![dims[0], dims[1], hidden], seq![dims[0], hidden]))
    } else {
        None
    }
}

/// A recurrent layer accepts exactly the inputs `[batch, seq_len, input]`
/// with at least one step; it keeps batch and sequence length, replaces the
/// feature size by the hidden size, and its final state drops the sequence
/// axis.
pub proof fn lemma_sequence_shapes(dims: Seq<usize>, input: usize, hidden: usize)
    ensures
        sequence_shapes(dims, input, hidden) is Some <==> dims.len() == 3 && dims[2] == input && dims[1] > 0,
        sequence_shapes(dims, input, hidden) matches Some((o, h)) ==> {
            &&& o.len() == 3
            &&& o[0] == dims[0]
            &&& o[1] == dims[1]
            &&& o[2] == hidden
            &&& h == seq![o[0], o[2]]
        },
{
}

fn sequence_output_shapes(dims: &[usize], input: usize, hidden: usize) -> (r: Option<(Vec<usize>, Vec<usize>)>)
    ensures
        match r {
            Some((o, h)) => sequence_shapes(dims@, input, hidden) == Some((o@, h@)),
            None => sequence_shapes(dims@, input, hidden) is None,
        },
{
    if dims.len() == 3 && dims[2] == input && dims[1] > 0 {
        let o = vec![dims[0], dims[1], hidden];
        let h = vec![dims[0], hidden];
        assert(o@ =~= seq![dims@[0], dims@[1], hidden]);
        assert(h@ =~= seq![dims@[0], hidden]);
        Some((o, h))
    } else {
        None
    }
}

/// Weights of a recurrent cell: their shapes and whether the cell has
/// biases.
struct GateWeights {
    w_ih: Vec<usize>,
    w_hh: Vec<usize>,
    bias: Option<Vec<usize>>,
}

impl GateWeights {
    spec fn layout(&self) -> Seq<Seq<usize>> {
        let w = seq![self.w_ih@, self.w_hh@];
        match self.bias {
            Some(b) => w + seq![b@, b@],
            None => w,
        }
    }

    spec fn names(&self) -> Seq<Seq<char>> {
        recurrent_names(self.bias is Some)
    }

    fn new(gates: usize, input_size: usize, hidden_size: usize, use_bias: bool) -> (w: Self)
        requires
            gates * hidden_size <= usize::MAX,
        ensures
            w.layout() == recurrent_layout(gates as nat, input_size, hidden_size, use_bias),
            w.names() == recurrent_names(use_bias),
    {
        let g = gates * hidden_size;
        let w_ih = vec![g, input_size];
        let w_hh = vec![g, hidden_size];
        let bias = if use_bias {
            Some(vec![1, g])
        } else {
            None
        };
        let w = GateWeights { w_ih, w_hh, bias };
        assert(w.layout() =~= recurrent_layout(gates as nat, input_size, hidden_size, use_bias));
        w
    }

    fn parameters(&self) -> (r: Vec<Vec<usize>>)
        ensures
            shapes_view(r@) == self.layout(),
    {
        let mut params = vec![copy_shape(&self.w_ih), copy_shape(&self.w_hh)];
        match &self.bias {
            Some(b) => {
                params.push(copy_shape(b));
                params.push(copy_shape(b));
            },
            None => {},
        }
        assert(shapes_view(params@) =~= self.layout());
        params
    }

    fn named_parameters(&self) -> (r: Vec<(String, Vec<usize>)>)
        ensures
            names_match(r@, self.names(), self.layout()),
    {
        let mut named = vec![
            (String::from_str("w_ih"), copy_shape(&self.w_ih)),
            (String::from_str("w_hh"), copy_shape(&self.w_hh)),
        ];
        match &self.bias {
            Some(b) => {
                named.push((String::from_str("b_ih"), copy_shape(b)));
                named.push((String::from_str("b_hh"), copy_shape(b)));
            },
            None => {},
        }
        named
    }
}

/// A single-step vanilla RNN cell:
/// `h' = tanh(x W_ih^T + b_ih + h W_hh^T + b_hh)`.
pub struct RNNCell {
    weights: GateWeights,
    pub input_size: usize,
    pub hidden_size: usize,
}

impl RNNCell {
    pub closed spec fn input_size_spec(&self) -> usize {
        self.input_size
    }

    pub closed spec fn hidden_size_spec(&self) -> usize {
        self.hidden_size
    }

    /// Shapes of the trainable parameters, in the order they are listed.
    pub closed spec fn parameter_layout(&self) -> Seq<Seq<usize>> {
        self.weights.layout()
    }

    /// Names of the trainable parameters, in the same order.
    pub closed spec fn parameter_names(&self) -> Seq<Seq<char>> {
        self.weights.names()
    }

    /// Create a new cell: `w_ih: [1*hidden, input]`, `w_hh: [1*hidden,
    /// hidden]`, and with `use_bias` the biases `b_ih`, `b_hh: [1,
    /// 1*hidden]`.
    pub fn new(input_size: usize, hidden_size: usize, use_bias: bool) -> (c: Self)
        requires
            1 * hidden_size <= usize::MAX,
        ensures
            c.input_size_spec() == input_size,
            c.hidden_size_spec() == hidden_size,
            c.parameter_layout() == recurrent_layout(1, input_size, hidden_size, use_bias),
            c.parameter_names() == recurrent_names(use_bias),
    {
        RNNCell { weights: GateWeights::new(1, input_size, hidden_size, use_bias), input_size, hidden_size }
    }

    /// Shapes of all trainable parameters.
    pub fn parameters(&self) -> (r: Vec<Vec<usize>>)
        ensures
            shapes_view(r@) == self.parameter_layout(),
    {
        self.weights.parameters()
    }

    /// All trainable parameters with their names.
    pub fn named_parameters(&self) -> (r: Vec<(String, Vec<usize>)>)
        ensures
            names_match(r@, self.parameter_names(), self.parameter_layout()),
    {
        self.weights.named_parameters()
    }
}

/// A vanilla RNN unrolling an `RNNCell` over the sequence dimension:
/// input `[batch, seq_len, input_size]`, output `[batch, seq_len,
/// hidden_size]`.
pub struct RNN {
    cell: RNNCell,
}

impl RNN {
    pub closed spec fn cell_spec(&self) -> RNNCell {
        self.cell
    }

    /// Create a new layer around a fresh cell.
    pub fn new(input_size: usize, hidden_size: usize, use_bias: bool) -> (l: Self)
        requires
            1 * hidden_size <= usize::MAX,
        ensures
            l.cell_spec().input_size_spec() == input_size,
            l.cell_spec().hidden_size_spec() == hidden_size,
            l.cell_spec().parameter_layout() == recurrent_layout(1, input_size, hidden_size, use_bias),
            l.cell_spec().parameter_names() == recurrent_names(use_bias),
    {
        RNN { cell: RNNCell::new(input_size, hidden_size, use_bias) }
    }

    /// Shapes of all trainable parameters: those of the cell.
    pub fn parameters(&self) -> (r: Vec<Vec<usize>>)
        ensures
            shapes_view(r@) == self.cell_spec().parameter_layout(),
    {
        self.cell.parameters()
    }

    /// All trainable parameters with their names, prefixed with `cell.`.
    pub fn named_parameters(&self) -> (r: Vec<(String, Vec<usize>)>)
        ensures
            names_match(r@, prefixed("cell."@, self.cell_spec().parameter_names()), self.cell_spec().parameter_layout()),
    {
        let mut named: Vec<(String, Vec<usize>)> = Vec::new();
        extend_prefixed(
            &mut named,
            "cell.",
            self.cell.named_parameters(),
            Ghost(self.cell.parameter_names()),
            Ghost(self.cell.parameter_layout()),
            Ghost(Seq::<Seq<char>>::empty()),
            Ghost(Seq::<Seq<usize>>::empty()),
        );
        assert(Seq::<Seq<char>>::empty() + prefixed("cell."@, self.cell.parameter_names()) =~= prefixed("cell."@, self.cell.parameter_names()));
        assert(Seq::<Seq<usize>>::empty() + self.cell.parameter_layout() =~= self.cell.parameter_layout());
        named
    }

    /// Shapes of the outputs for an input `[batch, seq_len, input_size]`:
    /// every hidden state `[batch, seq_len, hidden_size]` and the final
    /// state `[batch, hidden_size]`.
    pub fn output_shapes(&self, dims: &[usize]) -> (r: Option<(Vec<usize>, Vec<usize>)>)
        ensures
            match r {
                Some((o, h)) => sequence_shapes(
                    dims@,
                    self.cell_spec().input_size_spec(),
                    self.cell_spec().hidden_size_spec(),
                ) == Some((o@, h@)),
                None => sequence_shapes(
                    dims@,
                    self.cell_spec().input_size_spec(),
                    self.cell_spec().hidden_size_spec(),
                ) is None,
            },
    {
        sequence_output_shapes(dims, self.cell.input_size, self.cell.hidden_size)
    }

    /// The underlying cell.
    pub fn cell(&self) -> (r: &RNNCell)
        ensures
            *r == self.cell_spec(),
    {
        &self.cell
    }
}

/// A single-step LSTM cell with input, forget, cell and output gates.
pub struct LSTMCell {
    weights: GateWeights,
    pub input_size: usize,
    pub hidden_size: usize,
}

impl LSTMCell {
    pub closed spec fn input_size_spec(&self) -> usize {
        self.input_size
    }

    pub closed spec fn hidden_size_spec(&self) -> usize {
        self.hidden_size
    }

    /// Shapes of the trainable parameters, in the order they are listed.
    pub closed spec fn parameter_layout(&self) -> Seq<Seq<usize>> {
        self.weights.layout()
    }

    /// Names of the trainable parameters, in the same order.
    pub closed spec fn parameter_names(&self) -> Seq<Seq<char>> {
        self.weights.names()
    }

    /// Create a new cell: `w_ih: [4*hidden, input]`, `w_hh: [4*hidden,
    /// hidden]`, and with `use_bias` the biases `b_ih`, `b_hh: [1,
    /// 4*hidden]`.
    pub fn new(input_size: usize, hidden_size: usize, use_bias: bool) -> (c: Self)
        requires
            4 * hidden_size <= usize::MAX,
        ensures
            c.input_size_spec() == input_size,
            c.hidden_size_spec() == hidden_size,
            c.parameter_layout() == recurrent_layout(4, input_size, hidden_size, use_bias),
            c.parameter_names() == recurrent_names(use_bias),
    {
        LSTMCell { weights: GateWeights::new(4, input_size, hidden_size, use_bias), input_size, hidden_size }
    }

    /// Shapes of all trainable parameters.
    pub fn parameters(&self) -> (r: Vec<Vec<usize>>)
        ensures
            shapes_view(r@) == self.parameter_layout(),
    {
        self.weights.parameters()
    }

    /// All trainable parameters with their names.
    pub fn named_parameters(&self) -> (r: Vec<(String, Vec<usize>)>)
        ensures
            names_match(r@, self.parameter_names(), self.parameter_layout()),
    {
        self.weights.named_parameters()
    }
}

/// An LSTM unrolling an `LSTMCell` over the sequence dimension.
pub struct LSTM {
    cell: LSTMCell,
}

impl LSTM {
    pub closed spec fn cell_spec(&self) -> LSTMCell {
        self.cell
    }

    /// Create a new layer around a fresh cell.
    pub fn new(input_size: usize, hidden_size: usize, use_bias: bool) -> (l: Self)
        requires
            4 * hidden_size <= usize::MAX,
        ensures
            l.cell_spec().input_size_spec() == input_size,
            l.cell_spec().hidden_size_spec() == hidden_size,
            l.cell_spec().parameter_layout() == recurrent_layout(4, input_size, hidden_size, use_bias),
            l.cell_spec().parameter_names() == recurrent_names(use_bias),
    {
        LSTM { cell: LSTMCell::new(input_size, hidden_size, use_bias) }
    }

    /// Shapes of all trainable parameters: those of the cell.
    pub fn parameters(&self) -> (r: Vec<Vec<usize>>)
        ensures
            shapes_view(r@) == self.cell_spec().parameter_layout(),
    {
        self.cell.parameters()
    }

    /// All trainable parameters with their names, prefixed with `cell.`.
    pub fn named_parameters(&self) -> (r: Vec<(String, Vec<usize>)>)
        ensures
            names_match(r@, prefixed("cell."@, self.cell_spec().parameter_names()), self.cell_spec().parameter_layout()),
    {
        let mut named: Vec<(String, Vec<usize>)> = Vec::new();
        extend_prefixed(
            &mut named,
            "cell.",
            self.cell.named_parameters(),
            Ghost(self.cell.parameter_names()),
            Ghost(self.cell.parameter_layout()),
            Ghost(Seq::<Seq<char>>::empty()),
            Ghost(Seq::<Seq<usize>>::empty()),
        );
        assert(Seq::<Seq<char>>::empty() + prefixed("cell."@, self.cell.parameter_names()) =~= prefixed("cell."@, self.cell.parameter_names()));
        assert(Seq::<Seq<usize>>::empty() + self.cell.parameter_layout() =~= self.cell.parameter_layout());
        named
    }

    /// Shapes of the outputs for an input `[batch, seq_len, input_size]`:
    /// every hidden state `[batch, seq_len, hidden_size]` and the final
    /// state `[batch, hidden_size]` (the final cell state has the same shape).
    pub fn output_shapes(&self, dims: &[usize]) -> (r: Option<(Vec<usize>, Vec<usize>)>)
        ensures
            match r {
                Some((o, h)) => sequence_shapes(
                    dims@,
                    self.cell_spec().input_size_spec(),
                    self.cell_spec().hidden_size_spec(),
                ) == Some((o@, h@)),
                None => sequence_shapes(
                    dims@,
                    self.cell_spec().input_size_spec(),
                    self.cell_spec().hidden_size_spec(),
                ) is None,
            },
    {
        sequence_output_shapes(dims, self.cell.input_size, self.cell.hidden_size)
    }

    /// The underlying cell.
    pub fn cell(&self) -> (r: &LSTMCell)
        ensures
            *r == self.cell_spec(),
    {
        &self.cell
    }
}

/// A single-step GRU cell with reset, update and new gates.
pub struct GRUCell {
    weights: GateWeights,
    pub input_size: usize,
    pub hidden_size: usize,
}

impl GRUCell {
    pub closed spec fn input_size_spec(&self) -> usize {
        self.input_size
    }

    pub closed spec fn hidden_size_spec(&self) -> usize {
        self.hidden_size
    }

    /// Shapes of the trainable parameters, in the order they are listed.
    pub closed spec fn parameter_layout(&self) -> Seq<Seq<usize>> {
        self.weights.layout()
    }

    /// Names of the trainable parameters, in the same order.
    pub closed spec fn parameter_names(&self) -> Seq<Seq<char>> {
        self.weights.names()
    }

    /// Create a new cell: `w_ih: [3*hidden, input]`, `w_hh: [3*hidden,
    /// hidden]`, and with `use_bias` the biases `b_ih`, `b_hh: [1,
    /// 3*hidden]`.
    pub fn new(input_size: usize, hidden_size: usize, use_bias: bool) -> (c: Self)
        requires
            3 * hidden_size <= usize::MAX,
        ensures
            c.input_size_spec() == input_size,
            c.hidden_size_spec() == hidden_size,
            c.parameter_layout() == recurrent_layout(3, input_size, hidden_size, use_bias),
            c.parameter_names() == recurrent_names(use_bias),
    {
        GRUCell { weights: GateWeights::new(3, input_size, hidden_size, use_bias), input_size, hidden_size }
    }

    /// Shapes of all trainable parameters.
    pub fn parameters(&self) -> (r: Vec<Vec<usize>>)
        ensures
            shapes_view(r@) == self.parameter_layout(),
    {
        self.weights.parameters()
    }

    /// All trainable parameters with their names.
    pub fn named_parameters(&self) -> (r: Vec<(String, Vec<usize>)>)
        ensures
            names_match(r@, self.parameter_names(), self.parameter_layout()),
    {
        self.weights.named_parameters()
    }
}

/// A GRU unrolling a `GRUCell` over the sequence dimension.
pub struct GRU {
    cell: GRUCell,
}

impl GRU {
    pub closed spec fn cell_spec(&self) -> GRUCell {
        self.cell
    }

    /// Create a new layer around a fresh cell.
    pub fn new(input_size: usize, hidden_size: usize, use_bias: bool) -> (l: Self)
        requires
            3 * hidden_size <= usize::MAX,
        ensures
            l.cell_spec().input_size_spec() == input_size,
            l.cell_spec().hidden_size_spec() == hidden_size,
            l.cell_spec().parameter_layout() == recurrent_layout(3, input_size, hidden_size, use_bias),
            l.cell_spec().parameter_names() == recurrent_names(use_bias),
    {
        GRU { cell: GRUCell::new(input_size, hidden_size, use_bias) }
    }

    /// Shapes of all trainable parameters: those of the cell.
    pub fn parameters(&self) -> (r: Vec<Vec<usize>>)
        ensures
            shapes_view(r@) == self.cell_spec().parameter_layout(),
    {
        self.cell.parameters()
    }

    /// All trainable parameters with their names, prefixed with `cell.`.
    pub fn named_parameters(&self) -> (r: Vec<(String, Vec<usize>)>)
        ensures
            names_match(r@, prefixed("cell."@, self.cell_spec().parameter_names()), self.cell_spec().parameter_layout()),
    {
        let mut named: Vec<(String, Vec<usize>)> = Vec::new();
        extend_prefixed(
            &mut named,
            "cell.",
            self.cell.named_parameters(),
            Ghost(self.cell.parameter_names()),
            Ghost(self.cell.parameter_layout()),
            Ghost(Seq::<Seq<char>>::empty()),
            Ghost(Seq::<Seq<usize>>::empty()),
        );
        assert(Seq::<Seq<char>>::empty() + prefixed("cell."@, self.cell.parameter_names()) =~= prefixed("cell."@, self.cell.parameter_names()));
        assert(Seq::<Seq<usize>>::empty() + self.cell.parameter_layout() =~= self.cell.parameter_layout());
        named
    }

    /// Shapes of the outputs for an input `[batch, seq_len, input_size]`:
    /// every hidden state `[batch, seq_len, hidden_size]` and the final
    /// state `[batch, hidden_size]`.
    pub fn output_shapes(&self, dims: &[usize]) -> (r: Option<(Vec<usize>, Vec<usize>)>)
        ensures
            match r {
                Some((o, h)) => sequence_shapes(
                    dims@,
                    self.cell_spec().input_size_spec(),
                    self.cell_spec().hidden_size_spec(),
                ) == Some((o@, h@)),
                None => sequence_shapes(
                    dims@,
                    self.cell_spec().input_size_spec(),
                    self.cell_spec().hidden_size_spec(),
                ) is None,
            },
    {
        sequence_output_shapes(dims, self.cell.input_size, self.cell.hidden_size)
    }

    /// The underlying cell.
    pub fn cell(&self) -> (r: &GRUCell)
        ensures
            *r == self.cell_spec(),
    {
        &self.cell
    }
}

} // verus!
