//! Sequential — layers applied one after another; its parameters are those
//! of its layers, named `layers.{i}.{name}`.
use vstd::prelude::*;
use crate::module::{
    extend_prefixed, extend_shapes, mode_after, names_match, prefixed, shapes_view, Module,
};
use crate::text::{append_decimal, decimal};

verus! {

/// Parameter shapes of the first `k` layers, layer after layer.
pub open spec fn layers_layout(layers: Seq<Box<dyn Module>>, k: int) -> Seq<Seq<usize>>
    decreases k,
{
    if k <= 0 {
        seq![]
    } else {
        layers_layout(layers, k - 1) + layers[k - 1].parameter_layout()
    }
}

/// Prefix of the parameter names of layer `i`: `layers.{i}.`.
pub open spec fn layer_prefix(i: nat) -> Seq<char> {
    seq!['l', 'a', 'y', 'e', 'r', 's', '.'] + decimal(i) + seq!['.']
}

/// Parameter names of the first `k` layers, each prefixed with its layer.
pub open spec fn layers_names(layers: Seq<Box<dyn Module>>, k: int) -> Seq<Seq<char>>
    decreases k,
{
    if k <= 0 {
        seq![]
    } else {
        layers_names(layers, k - 1) + prefixed(
            layer_prefix((k - 1) as nat),
            layers[k - 1].parameter_names(),
        )
    }
}

/// Layers with the same parameters give the same parameter list.
proof fn lemma_layers_agree(a: Seq<Box<dyn Module>>, b: Seq<Box<dyn Module>>, k: int)
    requires
        0 <= k <= a.len(),
        k <= b.len(),
        forall|j: int|
            0 <= j < k ==> (#[trigger] a[j]).parameter_layout() == b[j].parameter_layout()
                && a[j].parameter_names() == b[j].parameter_names(),
    ensures
        layers_layout(a, k) == layers_layout(b, k),
        layers_names(a, k) == layers_names(b, k),
    decreases k,
{
    if k > 0 {
        lemma_layers_agree(a, b, k - 1);
        assert(a[k - 1].parameter_layout() == b[k - 1].parameter_layout());
    }
}

/// A container that chains layers: each layer's output is the next one's
/// input.
pub struct Sequential {
    layers: Vec<Box<dyn Module>>,
}

impl Sequential {
    pub closed spec fn layers_spec(&self) -> Seq<Box<dyn Module>> {
        self.layers@
    }

    /// Create an empty Sequential.
    pub fn new() -> (s: Self)
        ensures
            s.layers_spec().len() == 0,
    {
        Sequential { layers: Vec::new() }
    }

    /// Add a layer to the end of the sequence.
    pub fn add<M: Module + 'static>(self, module: M) -> (s: Self)
        ensures
            s.layers_spec().len() == self.layers_spec().len() + 1,
            forall|i: int|
                0 <= i < self.layers_spec().len() ==> #[trigger] s.layers_spec()[i]
                    == self.layers_spec()[i],
    {
        let mut layers = self.layers;
        let ghost before = layers@;
        let boxed: Box<dyn Module> = Box::new(module);
        layers.push(boxed);
        proof {
            vstd::seq::axiom_seq_push_len(before, boxed);
            assert forall|i: int| 0 <= i < before.len() implies #[trigger] layers@[i] == before[i] by {
                vstd::seq::axiom_seq_push_index_different(before, boxed, i);
            }
        }
        Sequential { layers }
    }

    /// Number of layers.
    pub fn len(&self) -> (r: usize)
        ensures
            r == self.layers_spec().len(),
    {
        self.layers.len()
    }

    /// Whether the sequence has no layer.
    pub fn is_empty(&self) -> (r: bool)
        ensures
            r == (self.layers_spec().len() == 0),
    {
        self.layers.len() == 0
    }
}

impl Default for Sequential {
    fn default() -> (s: Self)
        ensures
            s.layers_spec().len() == 0,
    {
        Self::new()
    }
}

impl Module for Sequential {
    open spec fn parameter_layout(&self) -> Seq<Seq<usize>> {
        layers_layout(self.layers_spec(), self.layers_spec().len() as int)
    }

    open spec fn parameter_names(&self) -> Seq<Seq<char>> {
        layers_names(self.layers_spec(), self.layers_spec().len() as int)
    }

    open spec fn training_mode(&self) -> Option<bool> {
        None
    }

    fn parameters(&self) -> (r: Vec<Vec<usize>>) {
        let mut params: Vec<Vec<usize>> = Vec::new();
        let mut i: usize = 0;
        while i < self.layers.len()
            invariant
                i <= self.layers@.len(),
                shapes_view(params@) == layers_layout(self.layers@, i as int),
            decreases self.layers@.len() - i,
        {
            extend_shapes(&mut params, self.layers[i].parameters());
            i = i + 1;
        }
        params
    }

    fn named_parameters(&self) -> (r: Vec<(String, Vec<usize>)>) {
        let mut named: Vec<(String, Vec<usize>)> = Vec::new();
        let mut i: usize = 0;
        proof {
            assert(layers_names(self.layers@, 0) =~= Seq::<Seq<char>>::empty());
        }
        while i < self.layers.len()
            invariant
                i <= self.layers@.len(),
                names_match(named@, layers_names(self.layers@, i as int), layers_layout(self.layers@, i as int)),
            decreases self.layers@.len() - i,
        {
            proof {
                reveal_strlit("layers.");
                reveal_strlit(".");
            }
            let mut prefix = String::from_str("layers.");
            append_decimal(&mut prefix, i as u64);
            prefix.append(".");
            assert(prefix@ =~= layer_prefix(i as nat));
            let layer = &self.layers[i];
            extend_prefixed(
                &mut named,
                prefix.as_str(),
                layer.named_parameters(),
                Ghost(layer.parameter_names()),
                Ghost(layer.parameter_layout()),
                Ghost(layers_names(self.layers@, i as int)),
                Ghost(layers_layout(self.layers@, i as int)),
            );
            i = i + 1;
        }
        named
    }

    /// Propagate training mode to all layers.
    fn set_training(&mut self, training: bool)
        ensures
            final(self).layers_spec().len() == old(self).layers_spec().len(),
            forall|j: int|
                0 <= j < old(self).layers_spec().len() ==> {
                    &&& (#[trigger] final(self).layers_spec()[j]).training_mode() == mode_after(
                        old(self).layers_spec()[j].training_mode(),
                        training,
                    )
                    &&& final(self).layers_spec()[j].parameter_layout() == old(
                        self,
                    ).layers_spec()[j].parameter_layout()
                    &&& final(self).layers_spec()[j].parameter_names() == old(
                        self,
                    ).layers_spec()[j].parameter_names()
                },
    {
        let ghost start = self.layers@;
        let mut i: usize = 0;
        while i < self.layers.len()
            invariant
                i <= self.layers@.len(),
                self.layers@.len() == start.len(),
                forall|j: int|
                    0 <= j < i ==> {
                        &&& (#[trigger] self.layers@[j]).training_mode() == mode_after(
                            start[j].training_mode(),
                            training,
                        )
                        &&& self.layers@[j].parameter_layout() == start[j].parameter_layout()
                        &&& self.layers@[j].parameter_names() == start[j].parameter_names()
                    },
                forall|j: int| i <= j < self.layers@.len() ==> #[trigger] self.layers@[j] == start[j],
            decreases self.layers@.len() - i,
        {
            let ghost before = self.layers@;
            self.layers[i].set_training(training);
            proof {
                let after = self.layers@;
                vstd::seq::axiom_seq_update_len(before, i as int, after[i as int]);
                assert forall|j: int| 0 <= j < before.len() && j != i implies #[trigger] after[j]
                    == before[j] by {
                    vstd::seq::axiom_seq_update_different(before, j, i as int, after[i as int]);
                }
            }
            i = i + 1;
        }
        proof {
            lemma_layers_agree(start, self.layers@, start.len() as int);
        }
    }

    fn is_training(&self) -> (r: bool)
        ensures
            r,
    {
        true
    }
}

} // verus!
