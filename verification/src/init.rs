//! Fan computation for parameter initialization: the number of inputs and
//! outputs a weight of a given shape connects, which the Xavier and Kaiming
//! schemes scale by.
use vstd::prelude::*;
use crate::shape::{checked_num_elements, num_elements};

verus! {

/// Fan computation mode for Kaiming initialization.
#[derive(Debug, Clone, Copy, PartialEq, Eq, Structural)]
pub enum FanMode {
    /// Use fan_in (input features); preserves variance in the forward pass.
    FanIn,
    /// Use fan_out (output features); preserves variance in the backward
    /// pass.
    FanOut,
}

/// `(fan_in, fan_out)` of a weight shape: `(1, 1)` for a scalar, `(d0, d0)`
/// for one dimension, `(d1, d0)` for two, and for more (convolution style,
/// `[out_channels, in_channels, kernel...]`) `(d1 * k, d0 * k)` with `k`
/// the number of kernel positions.
pub open spec fn fans(dims: Seq<usize>) -> (int, int) {
    if dims.len() == 0 {
        (1, 1)
    } else if dims.len() == 1 {
        (dims[0] as int, dims[0] as int)
    } else if dims.len() == 2 {
        (dims[1] as int, dims[0] as int)
    } else {
        let k = num_elements(dims.skip(2)) as int;
        (dims[1] * k, dims[0] * k)
    }
}

/// The fan a mode selects.
pub open spec fn fan_of(dims: Seq<usize>, mode: FanMode) -> int {
    match mode {
        FanMode::FanIn => fans(dims).0,
        FanMode::FanOut => fans(dims).1,
    }
}

/// Compute `(fan_in, fan_out)` of a weight shape.
pub fn compute_fans(dims: &[usize]) -> (r: (u128, u128))
    requires
        dims@.len() > 2 ==> num_elements(dims@.skip(2)) <= usize::MAX,
    ensures
        r.0 == fans(dims@).0,
        r.1 == fans(dims@).1,
{
    if dims.len() == 0 {
        (1, 1)
    } else if dims.len() == 1 {
        (dims[0] as u128, dims[0] as u128)
    } else if dims.len() == 2 {
        (dims[1] as u128, dims[0] as u128)
    } else {
        let (_, kernel) = dims.split_at(2);
        assert(kernel@ =~= dims@.skip(2));
        let k: usize = match checked_num_elements(kernel) {
            Some(k) => k,
            None => 0,
        };
        let d0 = dims[0] as u128;
        let d1 = dims[1] as u128;
        let kk = k as u128;
        assert(d1 * kk <= 0xffff_ffff_ffff_ffff * 0xffff_ffff_ffff_ffffu128) by (nonlinear_arith)
            requires
                d1 <= 0xffff_ffff_ffff_ffffu128,
                kk <= 0xffff_ffff_ffff_ffffu128,
        ;
        assert(d0 * kk <= 0xffff_ffff_ffff_ffff * 0xffff_ffff_ffff_ffffu128) by (nonlinear_arith)
            requires
                d0 <= 0xffff_ffff_ffff_ffffu128,
                kk <= 0xffff_ffff_ffff_ffffu128,
        ;
        (d1 * kk, d0 * kk)
    }
}

/// The fan that Kaiming initialization scales by in the given mode.
pub fn fan(dims: &[usize], mode: FanMode) -> (r: u128)
    requires
        dims@.len() > 2 ==> num_elements(dims@.skip(2)) <= usize::MAX,
    ensures
        r == fan_of(dims@, mode),
{
    let (fan_in, fan_out) = compute_fans(dims);
    match mode {
        FanMode::FanIn => fan_in,
        FanMode::FanOut => fan_out,
    }
}

} // verus!
