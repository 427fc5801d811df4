//! Shapes of tensors, written as sequences of dimension sizes.
use vstd::prelude::*;

verus! {

/// Number of elements of a tensor with the given dimensions
/// (the empty shape, a scalar, holds one element).
pub open spec fn num_elements(dims: Seq<usize>) -> nat
    decreases dims.len(),
{
    if dims.len() == 0 {
        1
    } else {
        num_elements(dims.drop_last()) * (dims.last() as nat)
    }
}

/// A one-dimensional shape holds as many elements as its size.
pub proof fn lemma_num_elements_single(n: usize)
    ensures
        num_elements(seq![n]) == n,
{
    let s = seq![n];
    assert(s.drop_last() =~= Seq::<usize>::empty());
    assert(num_elements(s.drop_last()) == 1);
    assert(s.last() == n);
    assert(num_elements(s) == num_elements(s.drop_last()) * (s.last() as nat));
}

/// The element count of two shapes put one after the other is the product
/// of their counts.
pub proof fn lemma_num_elements_concat(a: Seq<usize>, b: Seq<usize>)
    ensures
        num_elements(a + b) == num_elements(a) * num_elements(b),
    decreases b.len(),
{
    if b.len() == 0 {
        assert(a + b =~= a);
        assert(num_elements(b) == 1);
    } else {
        lemma_num_elements_concat(a, b.drop_last());
        assert((a + b).drop_last() =~= a + b.drop_last());
        assert((a + b).last() == b.last());
        let x = num_elements(a);
        let y = num_elements(b.drop_last());
        let z = b.last() as nat;
        assert(num_elements(a + b) == num_elements(a + b.drop_last()) * z);
        assert(num_elements(b) == y * z);
        assert(x * (y * z) == (x * y) * z) by (nonlinear_arith);
    }
}

/// Element counts of shapes of up to four dimensions: the products of
/// their sizes.
pub proof fn lemma_num_elements_small(a: usize, b: usize, c: usize, d: usize)
    ensures
        num_elements(seq![a]) == a,
        num_elements(seq![a, b]) == a * b,
        num_elements(seq![a, b, c]) == a * b * c,
        num_elements(seq![a, b, c, d]) == a * b * c * d,
{
    assert(seq![a].drop_last() =~= Seq::<usize>::empty());
    assert(seq![a, b].drop_last() =~= seq![a]);
    assert(seq![a, b, c].drop_last() =~= seq![a, b]);
    assert(seq![a, b, c, d].drop_last() =~= seq![a, b, c]);
    assert(num_elements(Seq::<usize>::empty()) == 1);
    assert(num_elements(seq![a]) == 1 * (a as nat));
    assert(num_elements(seq![a, b]) == num_elements(seq![a]) * (b as nat));
    assert(num_elements(seq![a, b, c]) == num_elements(seq![a, b]) * (c as nat));
    assert(num_elements(seq![a, b, c, d]) == num_elements(seq![a, b, c]) * (d as nat));
}

/// A shape with a zero-sized dimension holds no element.
pub proof fn lemma_num_elements_zero(dims: Seq<usize>, j: int)
    requires
        0 <= j < dims.len(),
        dims[j] == 0,
    ensures
        num_elements(dims) == 0,
    decreases dims.len(),
{
    if j == dims.len() - 1 {
        assert(num_elements(dims) == num_elements(dims.drop_last()) * 0);
    } else {
        lemma_num_elements_zero(dims.drop_last(), j);
        assert(num_elements(dims) == 0 * (dims.last() as nat));
    }
}

/// Without zero-sized dimensions the count of a prefix never exceeds the
/// count of the whole shape.
proof fn lemma_num_elements_prefix_le(dims: Seq<usize>, k: int)
    requires
        0 <= k <= dims.len(),
        forall|j: int| 0 <= j < dims.len() ==> dims[j] > 0,
    ensures
        num_elements(dims.take(k)) <= num_elements(dims),
    decreases dims.len() - k,
{
    if k < dims.len() {
        lemma_num_elements_prefix_le(dims, k + 1);
        assert(dims.take(k + 1).drop_last() =~= dims.take(k));
        let p = num_elements(dims.take(k));
        let d = dims[k] as nat;
        assert(p * d >= p) by (nonlinear_arith)
            requires
                d >= 1,
        ;
    } else {
        assert(dims.take(k) =~= dims);
    }
}

/// Element count of a shape, or `None` when it does not fit in a `usize`.
pub fn checked_num_elements(dims: &[usize]) -> (r: Option<usize>)
    ensures
        r matches Some(n) ==> n as nat == num_elements(dims@),
        r is None <==> num_elements(dims@) > usize::MAX,
{
    let mut i: usize = 0;
    while i < dims.len()
        invariant
            i <= dims.len(),
            forall|j: int| 0 <= j < i ==> dims@[j] > 0,
        decreases dims.len() - i,
    {
        if dims[i] == 0 {
            proof {
                lemma_num_elements_zero(dims@, i as int);
            }
            return Some(0);
        }
        i = i + 1;
    }
    let mut acc: usize = 1;
    let mut i: usize = 0;
    while i < dims.len()
        invariant
            i <= dims.len(),
            forall|j: int| 0 <= j < dims.len() ==> dims@[j] > 0,
            acc as nat == num_elements(dims@.take(i as int)),
        decreases dims.len() - i,
    {
        assert(dims@.take(i as int + 1).drop_last() =~= dims@.take(i as int));
        match acc.checked_mul(dims[i]) {
            Some(v) => {
                acc = v;
            },
            None => {
                proof {
                    lemma_num_elements_prefix_le(dims@, i as int + 1);
                }
                return None;
            },
        }
        i = i + 1;
    }
    assert(dims@.take(dims@.len() as int) =~= dims@);
    Some(acc)
}

/// Copy of a shape.
pub fn copy_shape(s: &Vec<usize>) -> (r: Vec<usize>)
    ensures
        r@ == s@,
{
    copy_dims(s.as_slice())
}

/// Copy of a list of dimensions.
pub fn copy_dims(s: &[usize]) -> (r: Vec<usize>)
    ensures
        r@ == s@,
{
    let mut r: Vec<usize> = Vec::new();
    let mut i: usize = 0;
    while i < s.len()
        invariant
            i <= s.len(),
            r@ == s@.take(i as int),
        decreases s.len() - i,
    {
        r.push(s[i]);
        i = i + 1;
        assert(r@ =~= s@.take(i as int));
    }
    assert(r@ =~= s@);
    r
}

/// `divisor` divides `size`, where only zero is a multiple of zero.
pub open spec fn is_multiple(size: usize, divisor: usize) -> bool {
    if divisor == 0 {
        size == 0
    } else {
        size % divisor == 0
    }
}

/// Whether `size` is a multiple of `divisor` (only zero is a multiple of
/// zero).
pub fn multiple_of(size: usize, divisor: usize) -> (r: bool)
    ensures
        r == is_multiple(size, divisor),
{
    if divisor == 0 {
        size == 0
    } else {
        size % divisor == 0
    }
}

} // verus!
