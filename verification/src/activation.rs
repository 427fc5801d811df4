//! Activation layers: element-wise functions without parameters, usable
//! wherever a layer is expected.
use vstd::prelude::*;
use crate::module::{shapes_view, Module};

verus! {

/// ReLU activation: `max(0, x)`.
pub struct ReLU;

impl Module for ReLU {
    open spec fn parameter_layout(&self) -> Seq<Seq<usize>> {
        seq![]
    }

    open spec fn parameter_names(&self) -> Seq<Seq<char>> {
        seq![]
    }

    open spec fn training_mode(&self) -> Option<bool> {
        None
    }

    fn parameters(&self) -> (r: Vec<Vec<usize>>) {
        let r: Vec<Vec<usize>> = Vec::new();
        assert(shapes_view(r@) =~= seq![]);
        r
    }

    fn named_parameters(&self) -> (r: Vec<(String, Vec<usize>)>) {
        Vec::new()
    }

    fn set_training(&mut self, training: bool)
        ensures
            *final(self) == *old(self),
    {
    }

    fn is_training(&self) -> (r: bool)
        ensures
            r,
    {
        true
    }
}

/// GELU activation (Gaussian Error Linear Unit), used in Transformers.
pub struct GeLU;

impl Module for GeLU {
    open spec fn parameter_layout(&self) -> Seq<Seq<usize>> {
        seq![]
    }

    open spec fn parameter_names(&self) -> Seq<Seq<char>> {
        seq![]
    }

    open spec fn training_mode(&self) -> Option<bool> {
        None
    }

    fn parameters(&self) -> (r: Vec<Vec<usize>>) {
        let r: Vec<Vec<usize>> = Vec::new();
        assert(shapes_view(r@) =~= seq![]);
        r
    }

    fn named_parameters(&self) -> (r: Vec<(String, Vec<usize>)>) {
        Vec::new()
    }

    fn set_training(&mut self, training: bool)
        ensures
            *final(self) == *old(self),
    {
    }

    fn is_training(&self) -> (r: bool)
        ensures
            r,
    {
        true
    }
}

/// SiLU / Swish activation: `x * sigmoid(x)`.
pub struct SiLU;

impl Module for SiLU {
    open spec fn parameter_layout(&self) -> Seq<Seq<usize>> {
        seq![]
    }

    open spec fn parameter_names(&self) -> Seq<Seq<char>> {
        seq![]
    }

    open spec fn training_mode(&self) -> Option<bool> {
        None
    }

    fn parameters(&self) -> (r: Vec<Vec<usize>>) {
        let r: Vec<Vec<usize>> = Vec::new();
        assert(shapes_view(r@) =~= seq![]);
        r
    }

    fn named_parameters(&self) -> (r: Vec<(String, Vec<usize>)>) {
        Vec::new()
    }

    fn set_training(&mut self, training: bool)
        ensures
            *final(self) == *old(self),
    {
    }

    fn is_training(&self) -> (r: bool)
        ensures
            r,
    {
        true
    }
}

/// Sigmoid activation: `1 / (1 + e^(-x))`.
pub struct Sigmoid;

impl Module for Sigmoid {
    open spec fn parameter_layout(&self) -> Seq<Seq<usize>> {
        seq![]
    }

    open spec fn parameter_names(&self) -> Seq<Seq<char>> {
        seq![]
    }

    open spec fn training_mode(&self) -> Option<bool> {
        None
    }

    fn parameters(&self) -> (r: Vec<Vec<usize>>) {
        let r: Vec<Vec<usize>> = Vec::new();
        assert(shapes_view(r@) =~= seq![]);
        r
    }

    fn named_parameters(&self) -> (r: Vec<(String, Vec<usize>)>) {
        Vec::new()
    }

    fn set_training(&mut self, training: bool)
        ensures
            *final(self) == *old(self),
    {
    }

    fn is_training(&self) -> (r: bool)
        ensures
            r,
    {
        true
    }
}

/// Tanh activation.
pub struct Tanh;

impl Module for Tanh {
    open spec fn parameter_layout(&self) -> Seq<Seq<usize>> {
        seq![]
    }

    open spec fn parameter_names(&self) -> Seq<Seq<char>> {
        seq![]
    }

    open spec fn training_mode(&self) -> Option<bool> {
        None
    }

    fn parameters(&self) -> (r: Vec<Vec<usize>>) {
        let r: Vec<Vec<usize>> = Vec::new();
        assert(shapes_view(r@) =~= seq![]);
        r
    }

    fn named_parameters(&self) -> (r: Vec<(String, Vec<usize>)>) {
        Vec::new()
    }

    fn set_training(&mut self, training: bool)
        ensures
            *final(self) == *old(self),
    {
    }

    fn is_training(&self) -> (r: bool)
        ensures
            r,
    {
        true
    }
}

/// Mish activation: `x * tanh(ln(1 + exp(x)))`.
pub struct Mish;

impl Module for Mish {
    open spec fn parameter_layout(&self) -> Seq<Seq<usize>> {
        seq![]
    }

    open spec fn parameter_names(&self) -> Seq<Seq<char>> {
        seq![]
    }

    open spec fn training_mode(&self) -> Option<bool> {
        None
    }

    fn parameters(&self) -> (r: Vec<Vec<usize>>) {
        let r: Vec<Vec<usize>> = Vec::new();
        assert(shapes_view(r@) =~= seq![]);
        r
    }

    fn named_parameters(&self) -> (r: Vec<(String, Vec<usize>)>) {
        Vec::new()
    }

    fn set_training(&mut self, training: bool)
        ensures
            *final(self) == *old(self),
    {
    }

    fn is_training(&self) -> (r: bool)
        ensures
            r,
    {
        true
    }
}

} // verus!
