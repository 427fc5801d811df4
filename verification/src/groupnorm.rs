//! GroupNorm — normalization within groups of channels of `[N, C, *]`
//! inputs; the number of groups must divide the number of channels.
use vstd::prelude::*;
use crate::error::NnError;
use crate::module::{names_match, shapes_view, Module};
use crate::shape::{
    checked_num_elements, is_multiple, lemma_num_elements_concat, lemma_num_elements_single,
    multiple_of, num_elements,
};

verus! {

/// Group normalization layer, with scale and shift `[num_channels]`.
pub struct GroupNorm {
    num_groups: usize,
    num_channels: usize,
}

/// Shape `[1, C, 1, ..., 1]` of the scale and shift as applied to an input
/// of `rank` dimensions.
pub open spec fn affine_shape(rank: nat, channels: usize) -> Seq<usize> {
    Seq::new(rank, |i: int| if i == 1 { channels } else { 1usize })
}

/// Input check and shapes of the forward pass: the input `[N, C, *]` is
/// viewed as `[N, G, (C / G) * prod(*)]` for the statistics, and the scale
/// and shift as `[1, C, 1, ...]`.
pub open spec fn group_norm_shapes(dims: Seq<usize>, groups: usize, channels: usize) -> Result<
    (Seq<usize>, Seq<usize>),
    NnError,
> {
    if dims.len() < 2 {
        Err(NnError::RankTooLow { min: 2, got: dims.len() as usize })
    } else if dims[1] != channels {
        Err(NnError::ChannelMismatch { expected: channels, got: dims[1] })
    } else {
        Ok(
            (
                seq![
                    dims[0],
                    groups,
                    ((dims[1] / groups) * num_elements(dims.skip(2))) as usize,
                ],
                affine_shape(dims.len(), channels),
            ),
        )
    }
}

/// The GroupNorm check accepts exactly the inputs `[N, C, *]` with the
/// layer's channel count; the statistics view keeps the batch and has one
/// row per group, and the scale and shift are applied as `[1, C, 1, ...]`,
/// of the input's rank.
pub proof fn lemma_group_norm_shapes(dims: Seq<usize>, groups: usize, channels: usize)
    ensures
        group_norm_shapes(dims, groups, channels) is Ok <==> dims.len() >= 2 && dims[1] == channels,
        dims.len() < 2 ==> group_norm_shapes(dims, groups, channels) == Err::<(Seq<usize>, Seq<usize>), NnError>(
            NnError::RankTooLow { min: 2, got: dims.len() as usize },
        ),
        dims.len() >= 2 && dims[1] != channels ==> group_norm_shapes(dims, groups, channels) == Err::<
            (Seq<usize>, Seq<usize>),
            NnError,
        >(NnError::ChannelMismatch { expected: channels, got: dims[1] }),
        group_norm_shapes(dims, groups, channels) matches Ok((g, a)) ==> {
            &&& g.len() == 3
            &&& g[0] == dims[0]
            &&& g[1] == groups
            &&& a.len() == dims.len()
            &&& a[1] == channels
            &&& forall|i: int| 0 <= i < a.len() && i != 1 ==> #[trigger] a[i] == 1
        },
{
}

impl GroupNorm {
    #[verifier::type_invariant]
    spec fn groups_divide_channels(&self) -> bool {
        is_multiple(self.num_channels, self.num_groups)
    }

    pub closed spec fn num_groups_spec(&self) -> usize {
        self.num_groups
    }

    pub closed spec fn num_channels_spec(&self) -> usize {
        self.num_channels
    }

    /// Create a new GroupNorm: `num_groups` groups over `num_channels`
    /// channels, which must be a multiple of `num_groups`.
    pub fn new(num_groups: usize, num_channels: usize) -> (r: Result<Self, NnError>)
        ensures
            is_multiple(num_channels, num_groups) <==> r is Ok,
            r matches Err(e) ==> e == (NnError::NotDivisible { size: num_channels, divisor: num_groups }),
            r matches Ok(g) ==> g.num_groups_spec() == num_groups && g.num_channels_spec()
                == num_channels,
    {
        if !multiple_of(num_channels, num_groups) {
            return Err(NnError::NotDivisible { size: num_channels, divisor: num_groups });
        }
        Ok(GroupNorm { num_groups, num_channels })
    }

    pub fn num_groups(&self) -> (r: usize)
        ensures
            r == self.num_groups_spec(),
    {
        self.num_groups
    }

    pub fn num_channels(&self) -> (r: usize)
        ensures
            r == self.num_channels_spec(),
    {
        self.num_channels
    }

    /// Input check and shapes of the forward pass: returns the grouped view
    /// `[N, G, (C / G) * prod(*)]` of the input and the shape `[1, C, 1,
    /// ...]` the scale and shift take.
    pub fn forward_shapes(&self, dims: &[usize]) -> (r: Result<(Vec<usize>, Vec<usize>), NnError>)
        requires
            dims@.len() >= 2 && dims@[1] == self.num_channels_spec() ==> {
                &&& self.num_groups_spec() > 0
                &&& num_elements(dims@.skip(2)) <= usize::MAX
                &&& (dims@[1] / self.num_groups_spec()) * num_elements(dims@.skip(2)) <= usize::MAX
            },
        ensures
            match (r, group_norm_shapes(dims@, self.num_groups_spec(), self.num_channels_spec())) {
                (Ok((a, b)), Ok((x, y))) => a@ == x && b@ == y,
                (Err(e), Err(f)) => e == f,
                _ => false,
            },
            r matches Ok((grouped, affine)) ==> num_elements(grouped@) == num_elements(dims@)
                && num_elements(affine@) == self.num_channels_spec(),
    {
        proof {
            use_type_invariant(self);
        }
        if dims.len() < 2 {
            return Err(NnError::RankTooLow { min: 2, got: dims.len() });
        }
        let c = dims[1];
        if c != self.num_channels {
            return Err(NnError::ChannelMismatch { expected: self.num_channels, got: c });
        }
        let n = dims[0];
        let channels_per_group = c / self.num_groups;
        let (_, rest) = dims.split_at(2);
        assert(rest@ =~= dims@.skip(2));
        let spatial = match checked_num_elements(rest) {
            Some(s) => s,
            None => 0,
        };
        let group_size = channels_per_group * spatial;
        let grouped = vec![n, self.num_groups, group_size];
        let mut affine: Vec<usize> = Vec::new();
        let mut i: usize = 0;
        while i < dims.len()
            invariant
                i <= dims@.len(),
                affine@ == affine_shape(i as nat, c),
            decreases dims.len() - i,
        {
            if i == 1 {
                affine.push(c);
            } else {
                affine.push(1);
            }
            i = i + 1;
            assert(affine@ =~= affine_shape(i as nat, c));
        }
        assert(grouped@ =~= group_norm_shapes(dims@, self.num_groups, self.num_channels)->Ok_0.0);
        proof {
            let gg = self.num_groups as int;
            let cc = c as int;
            let sp = spatial as int;
            let nn = n as int;
            assert(nn * gg * ((cc / gg) * sp) == nn * cc * sp) by (nonlinear_arith)
                requires
                    gg > 0,
                    cc % gg == 0,
            ;
            lemma_num_elements_concat(seq![n, self.num_groups], seq![group_size]);
            lemma_num_elements_concat(seq![n], seq![self.num_groups]);
            lemma_num_elements_single(n);
            lemma_num_elements_single(self.num_groups);
            lemma_num_elements_single(group_size);
            assert(seq![n, self.num_groups] + seq![group_size] =~= grouped@);
            assert(seq![n] + seq![self.num_groups] =~= seq![n, self.num_groups]);
            lemma_num_elements_concat(seq![n, c], dims@.skip(2));
            lemma_num_elements_concat(seq![n], seq![c]);
            lemma_num_elements_single(c);
            assert(seq![n, c] + dims@.skip(2) =~= dims@);
            assert(seq![n] + seq![c] =~= seq![n, c]);
            lemma_affine_elements(dims@.len(), c);
        }
        Ok((grouped, affine))
    }
}

/// The scale and shift view `[1, C, 1, ...]` holds `C` elements.
proof fn lemma_affine_elements(rank: nat, channels: usize)
    requires
        rank >= 2,
    ensures
        num_elements(affine_shape(rank, channels)) == channels,
    decreases rank,
{
    let s = affine_shape(rank, channels);
    if rank == 2 {
        assert(s =~= seq![1usize] + seq![channels]);
        lemma_num_elements_concat(seq![1usize], seq![channels]);
        lemma_num_elements_single(1);
        lemma_num_elements_single(channels);
    } else {
        lemma_affine_elements((rank - 1) as nat, channels);
        assert(s.drop_last() =~= affine_shape((rank - 1) as nat, channels));
        assert(s.last() == 1usize);
    }
}

impl Module for GroupNorm {
    open spec fn parameter_layout(&self) -> Seq<Seq<usize>> {
        seq![seq![self.num_channels_spec()], seq![self.num_channels_spec()]]
    }

    open spec fn parameter_names(&self) -> Seq<Seq<char>> {
        seq!["weight"@, "bias"@]
    }

    open spec fn training_mode(&self) -> Option<bool> {
        None
    }

    fn parameters(&self) -> (r: Vec<Vec<usize>>) {
        let w = vec![self.num_channels];
        let b = vec![self.num_channels];
        assert(w@ == seq![self.num_channels] && b@ == seq![self.num_channels]);
        let params = vec![w, b];
        assert(shapes_view(params@) =~= self.parameter_layout());
        params
    }

    fn named_parameters(&self) -> (r: Vec<(String, Vec<usize>)>) {
        let w = vec![self.num_channels];
        let b = vec![self.num_channels];
        assert(w@ == seq![self.num_channels] && b@ == seq![self.num_channels]);
        vec![(String::from_str("weight"), w), (String::from_str("bias"), b)]
    }

    fn set_training(&mut self, training: bool)
        ensures
            *final(self) == *old(self),
    {
    }

    fn is_training(&self) -> (r: bool)
        ensures
            r,
    {
        true
    }
}

} // verus!
