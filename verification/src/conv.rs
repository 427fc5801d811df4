//! Convolution and pooling layers, and the sliding-window output size
//! `out = floor((in + 2*padding - kernel) / stride) + 1`.
//!
//! Parameter shapes: Conv2d weight `[C_out, C_in, kH, kW]`, Conv1d weight
//! `[C_out, C_in, K]`, bias `[C_out]` for both.
use vstd::prelude::*;
use crate::error::NnError;
use crate::shape::{copy_shape, lemma_num_elements_small, num_elements};
use crate::module::{lemma_total_elements_small, names_match, shapes_view, total_elements, Module};

verus! {

/// Number of window positions along one axis: `(input + 2*padding -
/// kernel) / stride + 1`.
pub open spec fn window_count(input: int, kernel: int, stride: int, padding: int) -> int {
    (input + 2 * padding - kernel) / stride + 1
}

/// The window count is defined: a positive stride, a window that fits the
/// padded input, and a count that fits a `usize`.
pub open spec fn window_fits(input: int, kernel: int, stride: int, padding: int) -> bool {
    &&& stride > 0
    &&& input + 2 * padding >= kernel
    &&& window_count(input, kernel, stride, padding) <= usize::MAX
}

/// Output length of a sliding window along one axis, or `None` when the
/// stride is zero, the window does not fit the padded input, or the length
/// does not fit a `usize`.
pub fn output_size(input: usize, kernel: usize, stride: usize, padding: usize) -> (r: Option<usize>)
    ensures
        r is Some <==> window_fits(input as int, kernel as int, stride as int, padding as int),
        r matches Some(v) ==> v == window_count(
            input as int,
            kernel as int,
            stride as int,
            padding as int,
        ),
{
    if stride == 0 {
        return None;
    }
    let padded: u128 = input as u128 + 2 * (padding as u128);
    if padded < kernel as u128 {
        return None;
    }
    let steps: u128 = (padded - kernel as u128) / (stride as u128);
    if steps >= usize::MAX as u128 {
        return None;
    }
    Some((steps + 1) as usize)
}

/// The shape `[N, C, H, W]` after a 2-D sliding window with `channels`
/// output channels, when the input is `[N, C_in, H, W]` with `C_in ==
/// in_channels` and both window counts are defined.
pub open spec fn window_shape_2d(
    input: Seq<usize>,
    in_channels: usize,
    channels: usize,
    kernel: Seq<usize>,
    stride: Seq<usize>,
    padding: Seq<usize>,
) -> Option<Seq<usize>> {
    if input.len() == 4 && input[1] == in_channels && window_fits(
        input[2] as int,
        kernel[0] as int,
        stride[0] as int,
        padding[0] as int,
    ) && window_fits(input[3] as int, kernel[1] as int, stride[1] as int, padding[1] as int) {
        Some(
            seq![
                input[0],
                channels,
                window_count(input[2] as int, kernel[0] as int, stride[0] as int, padding[0] as int) as usize,
                window_count(input[3] as int, kernel[1] as int, stride[1] as int, padding[1] as int) as usize,
            ],
        )
    } else {
        None
    }
}

fn shape_2d(
    input: &[usize],
    in_channels: usize,
    channels: usize,
    kernel: [usize; 2],
    stride: [usize; 2],
    padding: [usize; 2],
) -> (r: Option<Vec<usize>>)
    ensures
        match r {
            Some(v) => window_shape_2d(input@, in_channels, channels, kernel@, stride@, padding@) == Some(v@),
            None => window_shape_2d(input@, in_channels, channels, kernel@, stride@, padding@) is None,
        },
{
    if input.len() != 4 || input[1] != in_channels {
        return None;
    }
    let h = output_size(input[2], kernel[0], stride[0], padding[0]);
    let w = output_size(input[3], kernel[1], stride[1], padding[1]);
    match (h, w) {
        (Some(h), Some(w)) => {
            let v = vec![input[0], channels, h, w];
            assert(v@ =~= window_shape_2d(input@, in_channels, channels, kernel@, stride@, padding@)->0);
            Some(v)
        },
        _ => None,
    }
}

// ---------------------------------------------------------------------------
// Conv2d
// ---------------------------------------------------------------------------

/// 2-D convolutional layer: input `[N, C_in, H, W]`, output
/// `[N, C_out, H_out, W_out]`.
pub struct Conv2d {
    /// Filter shape: `[C_out, C_in, kH, kW]`.
    weight: Vec<usize>,
    /// Optional bias shape.
    bias: Option<Vec<usize>>,
    in_channels: usize,
    out_channels: usize,
    kernel_size: [usize; 2],
    stride: [usize; 2],
    padding: [usize; 2],
}

impl Conv2d {
    #[verifier::type_invariant]
    spec fn shapes_agree(&self) -> bool {
        self.weight@ == seq![
            self.out_channels,
            self.in_channels,
            self.kernel_size@[0],
            self.kernel_size@[1],
        ]
    }

    pub closed spec fn in_channels_spec(&self) -> usize {
        self.in_channels
    }

    pub closed spec fn out_channels_spec(&self) -> usize {
        self.out_channels
    }

    pub closed spec fn kernel_spec(&self) -> Seq<usize> {
        self.kernel_size@
    }

    pub closed spec fn stride_spec(&self) -> Seq<usize> {
        self.stride@
    }

    pub closed spec fn padding_spec(&self) -> Seq<usize> {
        self.padding@
    }

    pub closed spec fn bias_shape(&self) -> Option<Seq<usize>> {
        match self.bias {
            Some(b) => Some(b@),
            None => None,
        }
    }

    /// Create a new Conv2d layer: filters `[C_out, C_in, kH, kW]`, bias
    /// `[C_out]` when `use_bias`.
    pub fn new(
        in_channels: usize,
        out_channels: usize,
        kernel_size: [usize; 2],
        stride: [usize; 2],
        padding: [usize; 2],
        use_bias: bool,
    ) -> (c: Self)
        ensures
            c.in_channels_spec() == in_channels,
            c.out_channels_spec() == out_channels,
            c.kernel_spec() == kernel_size@,
            c.stride_spec() == stride@,
            c.padding_spec() == padding@,
            c.bias_shape() == if use_bias {
                Some(seq![out_channels])
            } else {
                None::<Seq<usize>>
            },
    {
        let bias = if use_bias {
            Some(vec![out_channels])
        } else {
            None
        };
        Conv2d {
            weight: vec![out_channels, in_channels, kernel_size[0], kernel_size[1]],
            bias,
            in_channels,
            out_channels,
            kernel_size,
            stride,
            padding,
        }
    }

    /// Create a Conv2d from the shapes of existing weight and bias tensors;
    /// the weight must be 4-D `[C_out, C_in, kH, kW]`.
    pub fn from_tensors(
        weight: Vec<usize>,
        bias: Option<Vec<usize>>,
        stride: [usize; 2],
        padding: [usize; 2],
    ) -> (r: Result<Self, NnError>)
        ensures
            weight@.len() != 4 <==> r is Err,
            r matches Err(e) ==> e == (NnError::WrongRank { expected: 4, got: weight@.len() as usize }),
            r matches Ok(c) ==> {
                &&& c.out_channels_spec() == weight@[0]
                &&& c.in_channels_spec() == weight@[1]
                &&& c.kernel_spec() == seq![weight@[2], weight@[3]]
                &&& c.stride_spec() == stride@
                &&& c.padding_spec() == padding@
                &&& c.bias_shape() == match bias {
                    Some(b) => Some(b@),
                    None => None::<Seq<usize>>,
                }
            },
    {
        if weight.len() != 4 {
            return Err(NnError::WrongRank { expected: 4, got: weight.len() });
        }
        let kernel_size = [weight[2], weight[3]];
        let c = Conv2d {
            weight: vec![weight[0], weight[1], weight[2], weight[3]],
            bias,
            in_channels: weight[1],
            out_channels: weight[0],
            kernel_size,
            stride,
            padding,
        };
        assert(c.kernel_spec() =~= seq![weight@[2], weight@[3]]);
        Ok(c)
    }

    pub fn in_channels(&self) -> (r: usize)
        ensures
            r == self.in_channels_spec(),
    {
        self.in_channels
    }

    pub fn out_channels(&self) -> (r: usize)
        ensures
            r == self.out_channels_spec(),
    {
        self.out_channels
    }

    pub fn kernel_size(&self) -> (r: [usize; 2])
        ensures
            r@ == self.kernel_spec(),
    {
        self.kernel_size
    }

    pub fn stride(&self) -> (r: [usize; 2])
        ensures
            r@ == self.stride_spec(),
    {
        self.stride
    }

    pub fn padding(&self) -> (r: [usize; 2])
        ensures
            r@ == self.padding_spec(),
    {
        self.padding
    }

    /// Shape of the filters: `[C_out, C_in, kH, kW]`.
    pub fn weight(&self) -> (r: &Vec<usize>)
        ensures
            r@ == seq![
                self.out_channels_spec(),
                self.in_channels_spec(),
                self.kernel_spec()[0],
                self.kernel_spec()[1],
            ],
    {
        proof {
            use_type_invariant(self);
        }
        &self.weight
    }

    /// Shape of the bias, if any.
    pub fn bias(&self) -> (r: Option<&Vec<usize>>)
        ensures
            match r {
                Some(b) => self.bias_shape() == Some(b@),
                None => self.bias_shape() is None,
            },
    {
        match &self.bias {
            Some(b) => Some(b),
            None => None,
        }
    }

    /// Shape of the output for an input of the given shape:
    /// `[N, C_in, H, W]` gives `[N, C_out, H_out, W_out]`.
    pub fn output_shape(&self, input: &[usize]) -> (r: Option<Vec<usize>>)
        ensures
            match r {
                Some(v) => window_shape_2d(
                    input@,
                    self.in_channels_spec(),
                    self.out_channels_spec(),
                    self.kernel_spec(),
                    self.stride_spec(),
                    self.padding_spec(),
                ) == Some(v@),
                None => window_shape_2d(
                    input@,
                    self.in_channels_spec(),
                    self.out_channels_spec(),
                    self.kernel_spec(),
                    self.stride_spec(),
                    self.padding_spec(),
                ) is None,
            },
    {
        shape_2d(input, self.in_channels, self.out_channels, self.kernel_size, self.stride, self.padding)
    }
}

impl Module for Conv2d {
    open spec fn parameter_layout(&self) -> Seq<Seq<usize>> {
        let w = seq![
            seq![
                self.out_channels_spec(),
                self.in_channels_spec(),
                self.kernel_spec()[0],
                self.kernel_spec()[1],
            ],
        ];
        match self.bias_shape() {
            Some(b) => w.push(b),
            None => w,
        }
    }

    open spec fn parameter_names(&self) -> Seq<Seq<char>> {
        match self.bias_shape() {
            Some(b) => seq!["weight"@, "bias"@],
            None => seq!["weight"@],
        }
    }

    open spec fn training_mode(&self) -> Option<bool> {
        None
    }

    fn parameters(&self) -> (r: Vec<Vec<usize>>) {
        let mut params = vec![copy_shape(self.weight())];
        match self.bias() {
            Some(b) => params.push(copy_shape(b)),
            None => {},
        }
        proof {
            assert(shapes_view(params@) =~= self.parameter_layout());
        }
        params
    }

    fn named_parameters(&self) -> (r: Vec<(String, Vec<usize>)>) {
        let mut named = vec![(String::from_str("weight"), copy_shape(self.weight()))];
        match self.bias() {
            Some(b) => named.push((String::from_str("bias"), copy_shape(b))),
            None => {},
        }
        named
    }

    fn set_training(&mut self, training: bool)
        ensures
            *final(self) == *old(self),
    {
    }

    fn is_training(&self) -> (r: bool)
        ensures
            r,
    {
        true
    }
}

// ---------------------------------------------------------------------------
// Pooling
// ---------------------------------------------------------------------------

/// 2-D max-pooling layer: the maximum of each window; input `[N, C, H, W]`,
/// output `[N, C, H_out, W_out]`.
pub struct MaxPool2d {
    kernel_size: [usize; 2],
    stride: [usize; 2],
    padding: [usize; 2],
}

impl MaxPool2d {
    pub closed spec fn kernel_spec(&self) -> Seq<usize> {
        self.kernel_size@
    }

    pub closed spec fn stride_spec(&self) -> Seq<usize> {
        self.stride@
    }

    pub closed spec fn padding_spec(&self) -> Seq<usize> {
        self.padding@
    }

    /// Create a new MaxPool2d layer with window `[kH, kW]`, stride
    /// `[sH, sW]` and padding `[pH, pW]`.
    pub fn new(kernel_size: [usize; 2], stride: [usize; 2], padding: [usize; 2]) -> (p: Self)
        ensures
            p.kernel_spec() == kernel_size@,
            p.stride_spec() == stride@,
            p.padding_spec() == padding@,
    {
        MaxPool2d { kernel_size, stride, padding }
    }

    /// Shape of the output for an input `[N, C, H, W]`: `[N, C, H_out,
    /// W_out]`.
    pub fn output_shape(&self, input: &[usize]) -> (r: Option<Vec<usize>>)
        ensures
            match r {
                Some(v) => input@.len() == 4 && window_shape_2d(
                    input@,
                    input@[1],
                    input@[1],
                    self.kernel_spec(),
                    self.stride_spec(),
                    self.padding_spec(),
                ) == Some(v@),
                None => input@.len() != 4 || window_shape_2d(
                    input@,
                    input@[1],
                    input@[1],
                    self.kernel_spec(),
                    self.stride_spec(),
                    self.padding_spec(),
                ) is None,
            },
    {
        if input.len() != 4 {
            return None;
        }
        shape_2d(input, input[1], input[1], self.kernel_size, self.stride, self.padding)
    }
}

/// 2-D average-pooling layer: the mean of each window; input
/// `[N, C, H, W]`, output `[N, C, H_out, W_out]`.
pub struct AvgPool2d {
    kernel_size: [usize; 2],
    stride: [usize; 2],
    padding: [usize; 2],
}

impl AvgPool2d {
    pub closed spec fn kernel_spec(&self) -> Seq<usize> {
        self.kernel_size@
    }

    pub closed spec fn stride_spec(&self) -> Seq<usize> {
        self.stride@
    }

    pub closed spec fn padding_spec(&self) -> Seq<usize> {
        self.padding@
    }

    /// Create a new AvgPool2d layer with window `[kH, kW]`, stride
    /// `[sH, sW]` and padding `[pH, pW]`.
    pub fn new(kernel_size: [usize; 2], stride: [usize; 2], padding: [usize; 2]) -> (p: Self)
        ensures
            p.kernel_spec() == kernel_size@,
            p.stride_spec() == stride@,
            p.padding_spec() == padding@,
    {
        AvgPool2d { kernel_size, stride, padding }
    }

    /// Shape of the output for an input `[N, C, H, W]`: `[N, C, H_out,
    /// W_out]`.
    pub fn output_shape(&self, input: &[usize]) -> (r: Option<Vec<usize>>)
        ensures
            match r {
                Some(v) => input@.len() == 4 && window_shape_2d(
                    input@,
                    input@[1],
                    input@[1],
                    self.kernel_spec(),
                    self.stride_spec(),
                    self.padding_spec(),
                ) == Some(v@),
                None => input@.len() != 4 || window_shape_2d(
                    input@,
                    input@[1],
                    input@[1],
                    self.kernel_spec(),
                    self.stride_spec(),
                    self.padding_spec(),
                ) is None,
            },
    {
        if input.len() != 4 {
            return None;
        }
        shape_2d(input, input[1], input[1], self.kernel_size, self.stride, self.padding)
    }
}

/// Window of the adaptive average pool along one axis, as `(kernel,
/// stride)`: `stride = input / output`, `kernel = input - (output - 1) *
/// stride`.
pub open spec fn adaptive_window(input: int, output: int) -> (int, int) {
    (input - (output - 1) * (input / output), input / output)
}

proof fn lemma_adaptive_window_bounds(input: int, output: int)
    requires
        input >= 0,
        output > 0,
    ensures
        0 <= (output - 1) * (input / output) <= input,
{
    assert(0 <= (output - 1) * (input / output)) by (nonlinear_arith)
        requires
            input >= 0,
            output > 0,
    ;
    assert((output - 1) * (input / output) <= output * (input / output)) by (nonlinear_arith)
        requires
            input >= 0,
            output > 0,
    ;
    assert(output * (input / output) <= input) by (nonlinear_arith)
        requires
            input >= 0,
            output > 0,
    ;
}

/// Bin `i` of the adaptive average pool along one axis, as the half-open
/// range `(start, end)` of input positions it averages. An axis at least as
/// long as the output is pooled with the uniform window of
/// `adaptive_window` (bin `i` starts at `i * stride`); a shorter axis is
/// spread over the overlapping bins `[floor(i * input / output),
/// ceil((i + 1) * input / output))`.
pub open spec fn pool_bin(input: int, output: int, i: int) -> (int, int) {
    if input >= output {
        let (kernel, stride) = adaptive_window(input, output);
        (i * stride, i * stride + kernel)
    } else {
        ((i * input) / output, ((i + 1) * input + output - 1) / output)
    }
}

/// Bounds of a quotient: `q * d <= x < q * d + d` for `q = x / d`.
proof fn lemma_quotient_bounds(x: int, d: int)
    requires
        x >= 0,
        d > 0,
    ensures
        (x / d) * d <= x,
        x < (x / d) * d + d,
        x / d >= 0,
{
    vstd::arithmetic::div_mod::lemma_fundamental_div_mod(x, d);
    vstd::arithmetic::div_mod::lemma_mod_bound(x, d);
    vstd::arithmetic::div_mod::lemma_div_pos_is_pos(x, d);
    vstd::arithmetic::mul::lemma_mul_is_commutative(d, x / d);
}

/// The floor of `a / d` is below the ceiling of `b / d` when `a < b`, and
/// at most it when `a <= b`.
proof fn lemma_floor_ceiling(a: int, b: int, d: int)
    requires
        0 <= a <= b,
        d > 0,
    ensures
        a / d <= (b + d - 1) / d,
        a < b ==> a / d < (b + d - 1) / d,
{
    lemma_quotient_bounds(a, d);
    lemma_quotient_bounds(b + d - 1, d);
    let p = a / d;
    let q = (b + d - 1) / d;
    assert(p <= q) by (nonlinear_arith)
        requires
            p * d <= a,
            a <= b,
            b + d - 1 < q * d + d,
            d > 0,
    ;
    if a < b {
        assert(p < q) by (nonlinear_arith)
            requires
                p * d <= a,
                a < b,
                b + d - 1 < q * d + d,
                d > 0,
        ;
    }
}

/// The ceiling of `x / d` is at most `m` when `x <= m * d`.
proof fn lemma_ceiling_le(x: int, d: int, m: int)
    requires
        0 <= x <= m * d,
        d > 0,
        m >= 0,
    ensures
        (x + d - 1) / d <= m,
        x == m * d ==> (x + d - 1) / d == m,
{
    lemma_quotient_bounds(x + d - 1, d);
    let q = (x + d - 1) / d;
    assert(q <= m) by (nonlinear_arith)
        requires
            q * d <= x + d - 1,
            x <= m * d,
            d > 0,
    ;
    if x == m * d {
        assert(q >= m) by (nonlinear_arith)
            requires
                x + d - 1 < q * d + d,
                x == m * d,
                d > 0,
        ;
    }
}

/// The adaptive bins split an axis into exactly `output` ranges that lie in
/// the input, are non-empty when the input is, start at 0, end at the input
/// length and leave no position out (each bin starts at or before the end
/// of the one before). When the output divides the input, bin `i` is the
/// block `[i * s, (i + 1) * s)` with `s = input / output`.
pub proof fn lemma_pool_bins(input: int, output: int, i: int)
    requires
        input >= 0,
        output > 0,
        0 <= i < output,
    ensures
        0 <= pool_bin(input, output, i).0 <= pool_bin(input, output, i).1 <= input,
        input > 0 ==> pool_bin(input, output, i).0 < pool_bin(input, output, i).1,
        i == 0 ==> pool_bin(input, output, i).0 == 0,
        i == output - 1 ==> pool_bin(input, output, i).1 == input,
        i + 1 < output ==> pool_bin(input, output, i + 1).0 <= pool_bin(input, output, i).1,
        input % output == 0 ==> pool_bin(input, output, i) == (
            i * (input / output),
            (i + 1) * (input / output),
        ),
{
    if input >= output {
        let s = input / output;
        lemma_quotient_bounds(input, output);
        assert(s >= 1) by (nonlinear_arith)
            requires
                input < s * output + output,
                input >= output,
                output > 0,
                s >= 0,
        ;
        let k = input - (output - 1) * s;
        assert(k >= s) by (nonlinear_arith)
            requires
                s * output <= input,
                k == input - (output - 1) * s,
        ;
        assert(i * s <= (output - 1) * s) by (nonlinear_arith)
            requires
                i <= output - 1,
                s >= 1,
        ;
        assert(i * s >= 0) by (nonlinear_arith)
            requires
                i >= 0,
                s >= 1,
        ;
        assert((i + 1) * s == i * s + s) by (nonlinear_arith);
        assert(i == 0 ==> i * s == 0) by (nonlinear_arith);
        if input % output == 0 {
            vstd::arithmetic::div_mod::lemma_fundamental_div_mod(input, output);
            assert(k == s) by (nonlinear_arith)
                requires
                    input == output * s + 0,
                    k == input - (output - 1) * s,
            ;
        }
    } else {
        let a = i * input;
        let b = (i + 1) * input;
        assert(0 <= a <= b) by (nonlinear_arith)
            requires
                i >= 0,
                input >= 0,
                a == i * input,
                b == (i + 1) * input,
        ;
        assert(b <= output * input) by (nonlinear_arith)
            requires
                i + 1 <= output,
                input >= 0,
                b == (i + 1) * input,
        ;
        assert(input > 0 ==> a < b) by (nonlinear_arith)
            requires
                a == i * input,
                b == (i + 1) * input,
        ;
        lemma_quotient_bounds(a, output);
        lemma_floor_ceiling(a, b, output);
        assert(output * input == input * output) by (nonlinear_arith);
        lemma_ceiling_le(b, output, input);
        if i + 1 < output {
            lemma_floor_ceiling(b, b, output);
        }
        if i == output - 1 {
            assert(b == input * output) by (nonlinear_arith)
                requires
                    i == output - 1,
                    b == (i + 1) * input,
            ;
        }
        if i == 0 {
            assert(a == 0);
            assert(a / output == 0) by (nonlinear_arith)
                requires
                    a == 0,
                    output > 0,
            ;
        }
        if input % output == 0 {
            vstd::arithmetic::div_mod::lemma_small_mod(input as nat, output as nat);
            assert(input == 0);
            assert(a == 0 && b == 0) by (nonlinear_arith)
                requires
                    input == 0,
                    a == i * input,
                    b == (i + 1) * input,
            ;
            vstd::arithmetic::div_mod::lemma_div_of0(output);
            assert(input / output == 0) by (nonlinear_arith)
                requires
                    input == 0,
                    output > 0,
            ;
            assert((output - 1) / output == 0) by (nonlinear_arith)
                requires
                    output > 0,
            ;
            assert(i * (input / output) == 0 && (i + 1) * (input / output) == 0) by (nonlinear_arith)
                requires
                    input / output == 0,
            ;
        }
    }
}

/// Adaptive 2-D average pooling: pools to a fixed output size whatever the
/// input size, averaging each output position over a bin of the input (see
/// `pool_bin`; no padding). Input `[N, C, H_in, W_in]`, output
/// `[N, C, H_out, W_out]`.
pub struct AdaptiveAvgPool2d {
    output_size: [usize; 2],
}

impl AdaptiveAvgPool2d {
    pub closed spec fn output_size_spec(&self) -> Seq<usize> {
        self.output_size@
    }

    /// Create an AdaptiveAvgPool2d with the desired output spatial size.
    pub fn new(output_size: [usize; 2]) -> (p: Self)
        ensures
            p.output_size_spec() == output_size@,
    {
        AdaptiveAvgPool2d { output_size }
    }

    /// The bins pooled along the height and along the width of an input
    /// of the given shape, one per output position (see `pool_bin`). The
    /// input must be 4-D; both output sizes must be positive.
    pub fn window(&self, input: &[usize]) -> (r: Result<(Vec<(usize, usize)>, Vec<(usize, usize)>), NnError>)
        ensures
            input@.len() != 4 ==> r == Err::<(Vec<(usize, usize)>, Vec<(usize, usize)>), NnError>(
                NnError::WrongRank { expected: 4, got: input@.len() as usize },
            ),
            input@.len() == 4 && (self.output_size_spec()[0] == 0 || self.output_size_spec()[1]
                == 0) ==> r == Err::<(Vec<(usize, usize)>, Vec<(usize, usize)>), NnError>(
                NnError::ZeroOutputSize,
            ),
            input@.len() == 4 && self.output_size_spec()[0] > 0 && self.output_size_spec()[1] > 0
                ==> (r matches Ok((rows, cols)) && {
                &&& rows@.len() == self.output_size_spec()[0]
                &&& cols@.len() == self.output_size_spec()[1]
                &&& forall|i: int|
                    0 <= i < rows@.len() ==> (#[trigger] rows@[i]).0 == pool_bin(
                        input@[2] as int,
                        self.output_size_spec()[0] as int,
                        i,
                    ).0 && rows@[i].1 == pool_bin(
                        input@[2] as int,
                        self.output_size_spec()[0] as int,
                        i,
                    ).1
                &&& forall|j: int|
                    0 <= j < cols@.len() ==> (#[trigger] cols@[j]).0 == pool_bin(
                        input@[3] as int,
                        self.output_size_spec()[1] as int,
                        j,
                    ).0 && cols@[j].1 == pool_bin(
                        input@[3] as int,
                        self.output_size_spec()[1] as int,
                        j,
                    ).1
            }),
    {
        if input.len() != 4 {
            return Err(NnError::WrongRank { expected: 4, got: input.len() });
        }
        let h_out = self.output_size[0];
        let w_out = self.output_size[1];
        if h_out == 0 || w_out == 0 {
            return Err(NnError::ZeroOutputSize);
        }
        Ok((pool_bins(input[2], h_out), pool_bins(input[3], w_out)))
    }

    /// Shape of the output: a 4-D input `[N, C, H_in, W_in]` gives
    /// `[N, C, H_out, W_out]` whatever its spatial size. Fails like
    /// `window`.
    pub fn output_shape(&self, input: &[usize]) -> (r: Result<Vec<usize>, NnError>)
        ensures
            input@.len() != 4 ==> r == Err::<Vec<usize>, NnError>(
                NnError::WrongRank { expected: 4, got: input@.len() as usize },
            ),
            input@.len() == 4 && (self.output_size_spec()[0] == 0 || self.output_size_spec()[1]
                == 0) ==> r == Err::<Vec<usize>, NnError>(NnError::ZeroOutputSize),
            input@.len() == 4 && self.output_size_spec()[0] > 0 && self.output_size_spec()[1] > 0
                ==> (r matches Ok(v) && v@ == seq![
                input@[0],
                input@[1],
                self.output_size_spec()[0],
                self.output_size_spec()[1],
            ]),
    {
        if input.len() != 4 {
            return Err(NnError::WrongRank { expected: 4, got: input.len() });
        }
        let h_out = self.output_size[0];
        let w_out = self.output_size[1];
        if h_out == 0 || w_out == 0 {
            return Err(NnError::ZeroOutputSize);
        }
        Ok(vec![input[0], input[1], h_out, w_out])
    }
}

/// The adaptive bins of an axis of length `input` pooled to `output`
/// positions: bin `i` is `pool_bin(input, output, i)`.
pub fn pool_bins(input: usize, output: usize) -> (r: Vec<(usize, usize)>)
    requires
        output > 0,
    ensures
        r@.len() == output,
        forall|i: int|
            0 <= i < output ==> (#[trigger] r@[i]).0 == pool_bin(input as int, output as int, i).0
                && r@[i].1 == pool_bin(input as int, output as int, i).1,
{
    let mut bins: Vec<(usize, usize)> = Vec::new();
    let n = input as u128;
    let m = output as u128;
    let mut i: usize = 0;
    while i < output
        invariant
            output > 0,
            n == input,
            m == output,
            i <= output,
            bins@.len() == i,
            forall|j: int|
                0 <= j < i ==> (#[trigger] bins@[j]).0 == pool_bin(input as int, output as int, j).0
                    && bins@[j].1 == pool_bin(input as int, output as int, j).1,
        decreases output - i,
    {
        proof {
            lemma_pool_bins(input as int, output as int, i as int);
        }
        let k = i as u128;
        assert(k * n <= 0xffff_ffff_ffff_ffff * 0xffff_ffff_ffff_ffffu128) by (nonlinear_arith)
            requires
                k <= 0xffff_ffff_ffff_ffffu128,
                n <= 0xffff_ffff_ffff_ffffu128,
        ;
        assert((k + 1) * n <= 0xffff_ffff_ffff_ffff * 0xffff_ffff_ffff_ffffu128) by (nonlinear_arith)
            requires
                k + 1 <= 0xffff_ffff_ffff_ffffu128,
                n <= 0xffff_ffff_ffff_ffffu128,
        ;
        let bin = if input >= output {
            let stride = input / output;
            proof {
                lemma_adaptive_window_bounds(input as int, output as int);
                assert(i * stride <= (output - 1) * stride) by (nonlinear_arith)
                    requires
                        i <= output - 1,
                        stride >= 0,
                ;
            }
            let kernel = input - (output - 1) * stride;
            (i * stride, i * stride + kernel)
        } else {
            let start = (k * n) / m;
            let end = ((k + 1) * n + m - 1) / m;
            (start as usize, end as usize)
        };
        bins.push(bin);
        i = i + 1;
    }
    bins
}

/// Pooling an axis at least as long as the requested output with the
/// adaptive window (no padding) gives exactly the requested output length.
pub proof fn lemma_adaptive_window_output(input: int, output: int)
    requires
        output > 0,
        input >= output,
        input <= usize::MAX,
    ensures
        window_fits(input, adaptive_window(input, output).0, adaptive_window(input, output).1, 0),
        window_count(input, adaptive_window(input, output).0, adaptive_window(input, output).1, 0)
            == output,
{
    let s = input / output;
    lemma_adaptive_window_bounds(input, output);
    assert(s >= 1) by (nonlinear_arith)
        requires
            input >= output,
            output > 0,
            s == input / output,
    ;
    let k = input - (output - 1) * s;
    assert(input + 2 * 0 - k == (output - 1) * s);
    assert(((output - 1) * s) / s == output - 1) by (nonlinear_arith)
        requires
            s >= 1,
            output >= 1,
    ;
}

// ---------------------------------------------------------------------------
// Conv1d
// ---------------------------------------------------------------------------

/// 1-D convolution layer: input `[N, C_in, L]`, output `[N, C_out, L_out]`
/// with `L_out = (L + 2*padding - kernel_size) / stride + 1`.
pub struct Conv1d {
    /// Filter shape: `[C_out, C_in, K]`.
    weight: Vec<usize>,
    /// Optional bias shape `[C_out]`.
    bias: Option<Vec<usize>>,
    in_channels: usize,
    out_channels: usize,
    kernel_size: usize,
    stride: usize,
    padding: usize,
}

/// The shape `[N, C_out, L_out]` of a 1-D convolution of an input
/// `[N, C_in, L]`.
pub open spec fn conv1d_shape(
    input: Seq<usize>,
    in_channels: usize,
    out_channels: usize,
    kernel: usize,
    stride: usize,
    padding: usize,
) -> Option<Seq<usize>> {
    if input.len() == 3 && input[1] == in_channels && window_fits(
        input[2] as int,
        kernel as int,
        stride as int,
        padding as int,
    ) {
        Some(
            seq![
                input[0],
                out_channels,
                window_count(input[2] as int, kernel as int, stride as int, padding as int) as usize,
            ],
        )
    } else {
        None
    }
}

impl Conv1d {
    #[verifier::type_invariant]
    spec fn shapes_agree(&self) -> bool {
        self.weight@ == seq![self.out_channels, self.in_channels, self.kernel_size]
    }

    pub closed spec fn in_channels_spec(&self) -> usize {
        self.in_channels
    }

    pub closed spec fn out_channels_spec(&self) -> usize {
        self.out_channels
    }

    pub closed spec fn kernel_spec(&self) -> usize {
        self.kernel_size
    }

    pub closed spec fn stride_spec(&self) -> usize {
        self.stride
    }

    pub closed spec fn padding_spec(&self) -> usize {
        self.padding
    }

    pub closed spec fn has_bias(&self) -> bool {
        self.bias is Some
    }

    /// Create a new Conv1d layer: filters `[C_out, C_in, K]`, bias `[C_out]`
    /// when `use_bias`.
    pub fn new(
        in_channels: usize,
        out_channels: usize,
        kernel_size: usize,
        stride: usize,
        padding: usize,
        use_bias: bool,
    ) -> (c: Self)
        ensures
            c.in_channels_spec() == in_channels,
            c.out_channels_spec() == out_channels,
            c.kernel_spec() == kernel_size,
            c.stride_spec() == stride,
            c.padding_spec() == padding,
            c.has_bias() == use_bias,
    {
        let bias = if use_bias {
            Some(vec![out_channels])
        } else {
            None
        };
        Conv1d {
            weight: vec![out_channels, in_channels, kernel_size],
            bias,
            in_channels,
            out_channels,
            kernel_size,
            stride,
            padding,
        }
    }

    /// Shape of the output for an input `[N, C_in, L]`: `[N, C_out,
    /// L_out]`.
    pub fn output_shape(&self, input: &[usize]) -> (r: Option<Vec<usize>>)
        ensures
            match r {
                Some(v) => conv1d_shape(
                    input@,
                    self.in_channels_spec(),
                    self.out_channels_spec(),
                    self.kernel_spec(),
                    self.stride_spec(),
                    self.padding_spec(),
                ) == Some(v@),
                None => conv1d_shape(
                    input@,
                    self.in_channels_spec(),
                    self.out_channels_spec(),
                    self.kernel_spec(),
                    self.stride_spec(),
                    self.padding_spec(),
                ) is None,
            },
    {
        if input.len() != 3 || input[1] != self.in_channels {
            return None;
        }
        match output_size(input[2], self.kernel_size, self.stride, self.padding) {
            Some(l) => {
                let v = vec![input[0], self.out_channels, l];
                assert(v@ =~= conv1d_shape(
                    input@,
                    self.in_channels,
                    self.out_channels,
                    self.kernel_size,
                    self.stride,
                    self.padding,
                )->0);
                Some(v)
            },
            None => None,
        }
    }
}

impl Module for Conv1d {
    open spec fn parameter_layout(&self) -> Seq<Seq<usize>> {
        let w = seq![seq![self.out_channels_spec(), self.in_channels_spec(), self.kernel_spec()]];
        if self.has_bias() {
            w.push(seq![self.out_channels_spec()])
        } else {
            w
        }
    }

    open spec fn parameter_names(&self) -> Seq<Seq<char>> {
        if self.has_bias() {
            seq!["weight"@, "bias"@]
        } else {
            seq!["weight"@]
        }
    }

    open spec fn training_mode(&self) -> Option<bool> {
        None
    }

    fn parameters(&self) -> (r: Vec<Vec<usize>>) {
        proof {
            use_type_invariant(self);
        }
        let mut params = vec![copy_shape(&self.weight)];
        assert(params@[0]@ == seq![self.out_channels, self.in_channels, self.kernel_size]);
        match &self.bias {
            Some(b) => {
                let b_shape = vec![self.out_channels];
                assert(b_shape@ == seq![self.out_channels]);
                params.push(b_shape);
                assert(self.has_bias());
            },
            None => {
                assert(!self.has_bias());
            },
        }
        proof {
            assert(shapes_view(params@) =~= self.parameter_layout());
        }
        params
    }

    fn named_parameters(&self) -> (r: Vec<(String, Vec<usize>)>) {
        proof {
            use_type_invariant(self);
        }
        let mut named = vec![(String::from_str("weight"), copy_shape(&self.weight))];
        match &self.bias {
            Some(b) => {
                let b_shape = vec![self.out_channels];
                assert(b_shape@ == seq![self.out_channels]);
                named.push((String::from_str("bias"), b_shape));
            },
            None => {},
        }
        named
    }

    fn set_training(&mut self, training: bool)
        ensures
            *final(self) == *old(self),
    {
    }

    fn is_training(&self) -> (r: bool)
        ensures
            r,
    {
        true
    }
}

impl Module for MaxPool2d {
    open spec fn parameter_layout(&self) -> Seq<Seq<usize>> {
        seq![]
    }

    open spec fn parameter_names(&self) -> Seq<Seq<char>> {
        seq![]
    }

    open spec fn training_mode(&self) -> Option<bool> {
        None
    }

    fn parameters(&self) -> (r: Vec<Vec<usize>>) {
        let r: Vec<Vec<usize>> = Vec::new();
        assert(shapes_view(r@) =~= seq![]);
        r
    }

    fn named_parameters(&self) -> (r: Vec<(String, Vec<usize>)>) {
        Vec::new()
    }

    fn set_training(&mut self, training: bool)
        ensures
            *final(self) == *old(self),
    {
    }

    fn is_training(&self) -> (r: bool)
        ensures
            r,
    {
        true
    }
}

impl Module for AvgPool2d {
    open spec fn parameter_layout(&self) -> Seq<Seq<usize>> {
        seq![]
    }

    open spec fn parameter_names(&self) -> Seq<Seq<char>> {
        seq![]
    }

    open spec fn training_mode(&self) -> Option<bool> {
        None
    }

    fn parameters(&self) -> (r: Vec<Vec<usize>>) {
        let r: Vec<Vec<usize>> = Vec::new();
        assert(shapes_view(r@) =~= seq![]);
        r
    }

    fn named_parameters(&self) -> (r: Vec<(String, Vec<usize>)>) {
        Vec::new()
    }

    fn set_training(&mut self, training: bool)
        ensures
            *final(self) == *old(self),
    {
    }

    fn is_training(&self) -> (r: bool)
        ensures
            r,
    {
        true
    }
}

impl Module for AdaptiveAvgPool2d {
    open spec fn parameter_layout(&self) -> Seq<Seq<usize>> {
        seq![]
    }

    open spec fn parameter_names(&self) -> Seq<Seq<char>> {
        seq![]
    }

    open spec fn training_mode(&self) -> Option<bool> {
        None
    }

    fn parameters(&self) -> (r: Vec<Vec<usize>>) {
        let r: Vec<Vec<usize>> = Vec::new();
        assert(shapes_view(r@) =~= seq![]);
        r
    }

    fn named_parameters(&self) -> (r: Vec<(String, Vec<usize>)>) {
        Vec::new()
    }

    fn set_training(&mut self, training: bool)
        ensures
            *final(self) == *old(self),
    {
    }

    fn is_training(&self) -> (r: bool)
        ensures
            r,
    {
        true
    }
}

// ---------------------------------------------------------------------------
// Laws of the sliding-window shapes and of the convolution parameters
// ---------------------------------------------------------------------------

/// A 2-D sliding window maps `[N, C_in, H, W]` to `[N, C, H_out, W_out]`
/// with `H_out = (H + 2*pH - kH) / sH + 1` and `W_out = (W + 2*pW - kW) /
/// sW + 1`: each spatial axis is pooled with its own kernel, stride and
/// padding. It is defined exactly when the input is 4-D with `C_in`
/// channels, both strides are positive, both windows fit their padded axes
/// and both lengths fit a `usize`.
pub proof fn lemma_window_shape_2d(
    input: Seq<usize>,
    in_channels: usize,
    channels: usize,
    kernel: Seq<usize>,
    stride: Seq<usize>,
    padding: Seq<usize>,
)
    requires
        kernel.len() == 2,
        stride.len() == 2,
        padding.len() == 2,
    ensures
        window_shape_2d(input, in_channels, channels, kernel, stride, padding) is Some <==> {
            &&& input.len() == 4
            &&& input[1] == in_channels
            &&& stride[0] > 0
            &&& stride[1] > 0
            &&& input[2] + 2 * padding[0] >= kernel[0]
            &&& input[3] + 2 * padding[1] >= kernel[1]
            &&& (input[2] + 2 * padding[0] - kernel[0]) / (stride[0] as int) + 1 <= usize::MAX
            &&& (input[3] + 2 * padding[1] - kernel[1]) / (stride[1] as int) + 1 <= usize::MAX
        },
        window_shape_2d(input, in_channels, channels, kernel, stride, padding) matches Some(v) ==> {
            &&& v.len() == 4
            &&& v[0] == input[0]
            &&& v[1] == channels
            &&& v[2] == (input[2] + 2 * padding[0] - kernel[0]) / (stride[0] as int) + 1
            &&& v[3] == (input[3] + 2 * padding[1] - kernel[1]) / (stride[1] as int) + 1
        },
{
}

/// The two spatial axes of a 2-D window are independent: the output height
/// depends only on the height, kernel height, stride and padding along it,
/// and the output width only on those along the width.
pub proof fn lemma_window_axes_independent(
    input: Seq<usize>,
    in_channels: usize,
    channels: usize,
    kernel: Seq<usize>,
    stride: Seq<usize>,
    padding: Seq<usize>,
    kernel2: Seq<usize>,
    stride2: Seq<usize>,
    padding2: Seq<usize>,
)
    requires
        kernel.len() == 2,
        stride.len() == 2,
        padding.len() == 2,
        kernel2.len() == 2,
        stride2.len() == 2,
        padding2.len() == 2,
        window_shape_2d(input, in_channels, channels, kernel, stride, padding) is Some,
        window_shape_2d(input, in_channels, channels, kernel2, stride2, padding2) is Some,
    ensures
        kernel[0] == kernel2[0] && stride[0] == stride2[0] && padding[0] == padding2[0] ==> window_shape_2d(
            input,
            in_channels,
            channels,
            kernel,
            stride,
            padding,
        )->0[2] == window_shape_2d(input, in_channels, channels, kernel2, stride2, padding2)->0[2],
        kernel[1] == kernel2[1] && stride[1] == stride2[1] && padding[1] == padding2[1] ==> window_shape_2d(
            input,
            in_channels,
            channels,
            kernel,
            stride,
            padding,
        )->0[3] == window_shape_2d(input, in_channels, channels, kernel2, stride2, padding2)->0[3],
{
    lemma_window_shape_2d(input, in_channels, channels, kernel, stride, padding);
    lemma_window_shape_2d(input, in_channels, channels, kernel2, stride2, padding2);
}

/// A 1-D convolution maps `[N, C_in, L]` to `[N, C_out, L_out]` with
/// `L_out = (L + 2*padding - kernel) / stride + 1`, the padding counted on
/// both sides; it is defined exactly when the input is 3-D with `C_in`
/// channels, the stride is positive, the kernel fits the padded length and
/// the length fits a `usize`.
pub proof fn lemma_conv1d_shape(
    input: Seq<usize>,
    in_channels: usize,
    out_channels: usize,
    kernel: usize,
    stride: usize,
    padding: usize,
)
    ensures
        conv1d_shape(input, in_channels, out_channels, kernel, stride, padding) is Some <==> {
            &&& input.len() == 3
            &&& input[1] == in_channels
            &&& stride > 0
            &&& input[2] + 2 * padding >= kernel
            &&& (input[2] + 2 * padding - kernel) / (stride as int) + 1 <= usize::MAX
        },
        conv1d_shape(input, in_channels, out_channels, kernel, stride, padding) matches Some(v) ==> {
            &&& v.len() == 3
            &&& v[0] == input[0]
            &&& v[1] == out_channels
            &&& v[2] == (input[2] + 2 * padding - kernel) / (stride as int) + 1
        },
{
}

/// A Conv2d lists its filters `[C_out, C_in, kH, kW]` first, then its bias
/// exactly when it has one; so it holds `C_out * C_in * kH * kW` scalar
/// parameters plus those of the bias, and one name per parameter.
pub proof fn lemma_conv2d_parameters(c: Conv2d)
    ensures
        c.parameter_layout().len() == if c.bias_shape() is Some { 2int } else { 1int },
        c.parameter_names().len() == c.parameter_layout().len(),
        c.parameter_layout()[0] == seq![
            c.out_channels_spec(),
            c.in_channels_spec(),
            c.kernel_spec()[0],
            c.kernel_spec()[1],
        ],
        c.bias_shape() matches Some(b) ==> c.parameter_layout()[1] == b,
        total_elements(c.parameter_layout()) == c.out_channels_spec() * c.in_channels_spec()
            * c.kernel_spec()[0] * c.kernel_spec()[1] + match c.bias_shape() {
            Some(b) => num_elements(b),
            None => 0,
        },
{
    let w = seq![c.out_channels_spec(), c.in_channels_spec(), c.kernel_spec()[0], c.kernel_spec()[1]];
    lemma_num_elements_small(c.out_channels_spec(), c.in_channels_spec(), c.kernel_spec()[0], c.kernel_spec()[1]);
    match c.bias_shape() {
        Some(b) => {
            lemma_total_elements_small(w, b);
            assert(c.parameter_layout() =~= seq![w, b]);
        },
        None => {
            lemma_total_elements_small(w, w);
            assert(c.parameter_layout() =~= seq![w]);
        },
    }
}

/// A Conv1d lists its filters `[C_out, C_in, K]` first, then its bias
/// `[C_out]` exactly when it has one; so it holds `C_out * C_in * K` scalar
/// parameters, plus `C_out` with a bias.
pub proof fn lemma_conv1d_parameters(c: Conv1d)
    ensures
        c.parameter_layout().len() == if c.has_bias() { 2int } else { 1int },
        c.parameter_names().len() == c.parameter_layout().len(),
        c.parameter_layout()[0] == seq![c.out_channels_spec(), c.in_channels_spec(), c.kernel_spec()],
        c.has_bias() ==> c.parameter_layout()[1] == seq![c.out_channels_spec()],
        total_elements(c.parameter_layout()) == c.out_channels_spec() * c.in_channels_spec()
            * c.kernel_spec() + if c.has_bias() { c.out_channels_spec() as int } else { 0int },
{
    let w = seq![c.out_channels_spec(), c.in_channels_spec(), c.kernel_spec()];
    let b = seq![c.out_channels_spec()];
    lemma_num_elements_small(c.out_channels_spec(), c.in_channels_spec(), c.kernel_spec(), 0);
    lemma_num_elements_small(c.out_channels_spec(), 0, 0, 0);
    lemma_total_elements_small(w, b);
    if c.has_bias() {
        assert(c.parameter_layout() =~= seq![w, b]);
    } else {
        assert(c.parameter_layout() =~= seq![w]);
    }
}

} // verus!
