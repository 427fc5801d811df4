//! The interface every layer implements: its trainable parameters, given by
//! their shapes and names, and its training/evaluation mode.
use vstd::prelude::*;
use crate::shape::{checked_num_elements, copy_shape, num_elements};
use crate::text::{append_decimal, decimal};

verus! {

/// Views of a list of shapes.
pub open spec fn shapes_view(v: Seq<Vec<usize>>) -> Seq<Seq<usize>> {
    v.map_values(|s: Vec<usize>| s@)
}

/// Total number of elements of a list of shapes.
pub open spec fn total_elements(shapes: Seq<Seq<usize>>) -> nat
    decreases shapes.len(),
{
    if shapes.len() == 0 {
        0
    } else {
        total_elements(shapes.drop_last()) + num_elements(shapes.last())
    }
}

/// `named` lists the names `names` paired with the shapes `shapes`.
pub open spec fn names_match(
    named: Seq<(String, Vec<usize>)>,
    names: Seq<Seq<char>>,
    shapes: Seq<Seq<usize>>,
) -> bool {
    &&& named.len() == names.len()
    &&& named.len() == shapes.len()
    &&& forall|i: int|
        0 <= i < named.len() ==> (#[trigger] named[i]).0@ == names[i] && named[i].1@ == shapes[i]
}

pub proof fn lemma_total_elements_prefix(shapes: Seq<Seq<usize>>, k: int)
    requires
        0 <= k <= shapes.len(),
    ensures
        total_elements(shapes.take(k)) <= total_elements(shapes),
        k < shapes.len() ==> total_elements(shapes.take(k)) + num_elements(shapes[k])
            == total_elements(shapes.take(k + 1)),
    decreases shapes.len() - k,
{
    if k < shapes.len() {
        lemma_total_elements_prefix(shapes, k + 1);
        assert(shapes.take(k + 1).drop_last() =~= shapes.take(k));
    } else {
        assert(shapes.take(k) =~= shapes);
    }
}

/// The total element count of one or two shapes is the sum of their
/// counts.
pub proof fn lemma_total_elements_small(a: Seq<usize>, b: Seq<usize>)
    ensures
        total_elements(seq![a]) == num_elements(a),
        total_elements(seq![a, b]) == num_elements(a) + num_elements(b),
{
    assert(seq![a].drop_last() =~= Seq::<Seq<usize>>::empty());
    assert(seq![a, b].drop_last() =~= seq![a]);
    assert(total_elements(seq![a]) == total_elements(Seq::<Seq<usize>>::empty()) + num_elements(a));
    assert(total_elements(seq![a, b]) == total_elements(seq![a]) + num_elements(b));
}

/// Total number of elements of a list of shapes that is known to fit.
pub fn count_elements(shapes: &Vec<Vec<usize>>) -> (n: usize)
    requires
        total_elements(shapes_view(shapes@)) <= usize::MAX,
    ensures
        n == total_elements(shapes_view(shapes@)),
{
    let ghost sv = shapes_view(shapes@);
    let mut acc: usize = 0;
    let mut i: usize = 0;
    while i < shapes.len()
        invariant
            sv == shapes_view(shapes@),
            sv.len() == shapes@.len(),
            total_elements(sv) <= usize::MAX,
            i <= shapes.len(),
            acc == total_elements(sv.take(i as int)),
        decreases shapes.len() - i,
    {
        proof {
            lemma_total_elements_prefix(sv, i as int);
            lemma_total_elements_prefix(sv, i as int + 1);
        }
        let c = checked_num_elements(shapes[i].as_slice());
        match c {
            Some(v) => {
                acc = acc + v;
            },
            None => {
                assert(false);
            },
        }
        i = i + 1;
    }
    assert(sv.take(i as int) =~= sv);
    acc
}

/// Each name prefixed with `prefix`.
pub open spec fn prefixed(prefix: Seq<char>, names: Seq<Seq<char>>) -> Seq<Seq<char>> {
    names.map_values(|k: Seq<char>| prefix + k)
}

/// Append `items` to `out`, every name prefixed with `prefix`.
pub(crate) fn extend_prefixed(
    out: &mut Vec<(String, Vec<usize>)>,
    prefix: &str,
    items: Vec<(String, Vec<usize>)>,
    Ghost(names): Ghost<Seq<Seq<char>>>,
    Ghost(shapes): Ghost<Seq<Seq<usize>>>,
    Ghost(out_names): Ghost<Seq<Seq<char>>>,
    Ghost(out_shapes): Ghost<Seq<Seq<usize>>>,
)
    requires
        names_match(items@, names, shapes),
        names_match(old(out)@, out_names, out_shapes),
    ensures
        names_match(final(out)@, out_names + prefixed(prefix@, names), out_shapes + shapes),
{
    let ghost start = out@.len();
    let mut i: usize = 0;
    while i < items.len()
        invariant
            names_match(items@, names, shapes),
            start == out_names.len(),
            names_match(
                out@,
                out_names + prefixed(prefix@, names).take(i as int),
                out_shapes + shapes.take(i as int),
            ),
            i <= items@.len(),
        decreases items@.len() - i,
    {
        let name = String::from_str(prefix).concat(items[i].0.as_str());
        let shape = copy_shape(&items[i].1);
        out.push((name, shape));
        i = i + 1;
        proof {
            assert(out_names + prefixed(prefix@, names).take(i as int) =~= (out_names + prefixed(
                prefix@,
                names,
            ).take(i - 1)).push(prefix@ + names[i - 1]));
            assert(out_shapes + shapes.take(i as int) =~= (out_shapes + shapes.take(i - 1)).push(
                shapes[i - 1],
            ));
        }
    }
    assert(prefixed(prefix@, names).take(i as int) =~= prefixed(prefix@, names));
    assert(shapes.take(i as int) =~= shapes);
}

/// Append the shapes `items` to `out`.
pub(crate) fn extend_shapes(out: &mut Vec<Vec<usize>>, items: Vec<Vec<usize>>)
    ensures
        shapes_view(final(out)@) == shapes_view(old(out)@) + shapes_view(items@),
{
    let mut items = items;
    let ghost it = items@;
    out.append(&mut items);
    assert(shapes_view(out@) =~= shapes_view(old(out)@) + shapes_view(it));
}

/// Positional name of parameter `i`: `param_{i}`.
pub open spec fn positional_name(i: nat) -> Seq<char> {
    seq!['p', 'a', 'r', 'a', 'm', '_'] + decimal(i)
}

/// Positional names of `n` parameters: `param_0`, `param_1`, ...
pub open spec fn positional_names(n: nat) -> Seq<Seq<char>> {
    Seq::new(n, |i: int| positional_name(i as nat))
}

/// Name parameters by their position (`param_0`, `param_1`, ...), for
/// layers that have no more meaningful names for them.
pub fn name_by_position(params: Vec<Vec<usize>>) -> (r: Vec<(String, Vec<usize>)>)
    ensures
        names_match(r@, positional_names(params@.len()), shapes_view(params@)),
{
    let mut named: Vec<(String, Vec<usize>)> = Vec::new();
    let mut i: usize = 0;
    while i < params.len()
        invariant
            i <= params@.len(),
            named@.len() == i,
            forall|j: int|
                0 <= j < i ==> (#[trigger] named@[j]).0@ == positional_name(j as nat)
                    && named@[j].1@ == params@[j]@,
        decreases params@.len() - i,
    {
        proof {
            reveal_strlit("param_");
        }
        let mut name = String::from_str("param_");
        append_decimal(&mut name, i as u64);
        assert(name@ =~= positional_name(i as nat));
        named.push((name, copy_shape(&params[i])));
        i = i + 1;
    }
    named
}

/// The mode after setting `training`: only layers with a mode change.
pub open spec fn mode_after(mode: Option<bool>, training: bool) -> Option<bool> {
    match mode {
        Some(_) => Some(training),
        None => None,
    }
}

/// What `is_training` reports for a mode.
pub open spec fn is_training_in(mode: Option<bool>) -> bool {
    match mode {
        Some(t) => t,
        None => true,
    }
}

/// After a mode is set, a layer with a mode reports that mode, and a layer
/// without one reports training.
pub proof fn lemma_set_then_is_training(mode: Option<bool>, training: bool)
    ensures
        is_training_in(mode_after(mode, training)) == (training || mode is None),
{
}

/// The named parameters of a layer list the shapes of its parameters, in
/// the same order.
pub proof fn lemma_named_parameters_agree(
    params: Seq<Vec<usize>>,
    named: Seq<(String, Vec<usize>)>,
    names: Seq<Seq<char>>,
    layout: Seq<Seq<usize>>,
)
    requires
        shapes_view(params) == layout,
        names_match(named, names, layout),
    ensures
        named.len() == params.len(),
        forall|i: int| 0 <= i < named.len() ==> (#[trigger] named[i]).1@ == params[i]@,
{
    assert forall|i: int| 0 <= i < named.len() implies (#[trigger] named[i]).1@ == params[i]@ by {
        assert(shapes_view(params)[i] == params[i]@);
    }
}

/// A neural-network layer.
pub trait Module {
    /// Shapes of the trainable parameters, in the order they are listed.
    spec fn parameter_layout(&self) -> Seq<Seq<usize>>;

    /// Names of the trainable parameters, in the same order.
    spec fn parameter_names(&self) -> Seq<Seq<char>>;

    /// Shapes of all trainable parameters.
    fn parameters(&self) -> (r: Vec<Vec<usize>>)
        ensures
            shapes_view(r@) == self.parameter_layout(),
    ;

    /// All trainable parameters with human-readable names.
    fn named_parameters(&self) -> (r: Vec<(String, Vec<usize>)>)
        ensures
            names_match(r@, self.parameter_names(), self.parameter_layout()),
    ;

    /// The mode of a layer that behaves differently in training and in
    /// evaluation (`Some(true)` when training); `None` for the others.
    spec fn training_mode(&self) -> Option<bool>;

    /// Set training or evaluation mode; a no-op for layers without a mode.
    /// Never changes the parameters.
    fn set_training(&mut self, training: bool)
        ensures
            final(self).training_mode() == mode_after(old(self).training_mode(), training),
            final(self).parameter_layout() == old(self).parameter_layout(),
            final(self).parameter_names() == old(self).parameter_names(),
    ;

    /// Whether the layer is in training mode (always for layers without a
    /// mode).
    fn is_training(&self) -> (r: bool)
        ensures
            r == is_training_in(self.training_mode()),
    ;

    /// Convenience: set training mode.
    fn train(&mut self)
        ensures
            final(self).training_mode() == mode_after(old(self).training_mode(), true),
            final(self).parameter_layout() == old(self).parameter_layout(),
            final(self).parameter_names() == old(self).parameter_names(),
    {
        self.set_training(true);
    }

    /// Convenience: set evaluation mode.
    fn eval(&mut self)
        ensures
            final(self).training_mode() == mode_after(old(self).training_mode(), false),
            final(self).parameter_layout() == old(self).parameter_layout(),
            final(self).parameter_names() == old(self).parameter_names(),
    {
        self.set_training(false);
    }

    /// Total number of scalar parameters.
    fn num_parameters(&self) -> (n: usize)
        requires
            total_elements(self.parameter_layout()) <= usize::MAX,
        ensures
            n == total_elements(self.parameter_layout()),
    {
        let p = self.parameters();
        count_elements(&p)
    }

    /// Parameter name to parameter shape, as `named_parameters` lists them.
    fn state_dict(&self) -> (r: Vec<(String, Vec<usize>)>)
        ensures
            names_match(r@, self.parameter_names(), self.parameter_layout()),
    {
        self.named_parameters()
    }
}

} // verus!
