use vstd::prelude::*;
use vstd::arithmetic::div_mod::lemma_div_denominator;
use vstd::arithmetic::mul::lemma_mul_is_commutative;
use crate::math::{
    all_positive, digit, lemma_linear_from_mono, lemma_product_skip_step, lemma_product_take_step,
    lemma_skip_all_positive, linear_from, linear_index, prefix_products_fit, product,
    reversed_digits, suffix_products_fit,
};

verus! {

/// The shape of an array: how many axes it has and how long each one is.
pub trait Dimension: Clone + std::fmt::Debug {
    /// The lengths of the axes.
    spec fn spec_shape(&self) -> Seq<usize>;

    /// Number of axes.
    fn ndim(&self) -> (n: usize)
        ensures
            n == self.spec_shape().len(),
    ;

    /// Lengths of the axes.
    fn shape(&self) -> (s: &[usize])
        ensures
            s@ == self.spec_shape(),
    ;

    /// A second value with the same shape.
    fn clone_dim(&self) -> (d: Self)
        ensures
            d.spec_shape() == self.spec_shape(),
    ;

    /// Number of elements: the product of the axis lengths.
    fn size(&self) -> (n: usize)
        requires
            prefix_products_fit(self.spec_shape()),
        ensures
            n == product(self.spec_shape()),
    {
        let shape = self.shape();
        let mut acc: usize = 1;
        let mut i: usize = 0;
        while i < shape.len()
            invariant
                i <= shape@.len(),
                prefix_products_fit(shape@),
                acc == product(shape@.take(i as int)),
            decreases shape@.len() - i,
        {
            proof {
                lemma_product_take_step(shape@, i as int);
                assert(product(shape@.take(i + 1)) <= usize::MAX);
            }
            acc = acc * shape[i];
            i = i + 1;
        }
        assert(shape@.take(shape@.len() as int) =~= shape@);
        acc
    }

    /// Mixed-radix digits of `linear` over the shape, listed from the last axis
    /// to the first.
    fn to_multi_index(&self, linear: usize) -> (index: Vec<usize>)
        requires
            all_positive(self.spec_shape()),
        ensures
            index@ == reversed_digits(self.spec_shape(), linear as nat),
    {
        let shape = self.shape();
        let n = shape.len();
        let mut index: Vec<usize> = Vec::new();
        let mut k: usize = 0;
        while k < n
            invariant
                k <= n,
                index@.len() == k,
            decreases n - k,
        {
            index.push(0);
            k = k + 1;
        }
        let mut remaining = linear;
        let mut i: usize = n;
        assert(shape@.skip(n as int) =~= Seq::<usize>::empty());
        assert(product(shape@.skip(n as int)) == 1);
        assert((linear as nat) / 1 == linear as nat);
        while i > 0
            invariant
                n == shape@.len(),
                index@.len() == n,
                i <= n,
                all_positive(shape@),
                remaining as nat == (linear as nat) / product(shape@.skip(i as int)),
                forall|j: int|
                    i <= j < n ==> #[trigger] index@[n - 1 - j] == digit(shape@, linear as nat, j),
            decreases i,
        {
            i = i - 1;
            let dim_size = shape[i];
            proof {
                lemma_skip_all_positive(shape@, i + 1);
                lemma_product_skip_step(shape@, i as int);
                lemma_div_denominator(
                    linear as int,
                    product(shape@.skip(i + 1)) as int,
                    dim_size as int,
                );
                lemma_mul_is_commutative(product(shape@.skip(i + 1)) as int, dim_size as int);
            }
            index.set(n - 1 - i, remaining % dim_size);
            remaining = remaining / dim_size;
        }
        assert forall|j: int| 0 <= j < n implies #[trigger] index@[j] == reversed_digits(
            shape@,
            linear as nat,
        )[j] by {
            let jj = n - 1 - j;
            assert(index@[n - 1 - jj] == digit(shape@, linear as nat, jj));
        }
        assert(index@ =~= reversed_digits(shape@, linear as nat));
        index
    }

    /// Row-major linear position of `indices`: the sum over the axes of
    /// `indices[i]` times the product of the later axis lengths.
    fn to_linear(&self, indices: &[usize]) -> (linear: usize)
        requires
            indices@.len() >= self.spec_shape().len(),
            suffix_products_fit(self.spec_shape()),
            linear_index(self.spec_shape(), indices@) <= usize::MAX,
        ensures
            linear == linear_index(self.spec_shape(), indices@),
    {
        let shape = self.shape();
        let mut linear: usize = 0;
        let mut stride: usize = 1;
        let mut i: usize = shape.len();
        assert(shape@.skip(i as int) =~= Seq::<usize>::empty());
        while i > 0
            invariant
                i <= shape@.len(),
                indices@.len() >= shape@.len(),
                suffix_products_fit(shape@),
                linear_index(shape@, indices@) <= usize::MAX,
                linear == linear_from(shape@, indices@, i as int),
                stride == product(shape@.skip(i as int)),
            decreases i,
        {
            i = i - 1;
            proof {
                lemma_linear_from_mono(shape@, indices@, 0, i as int);
                lemma_product_skip_step(shape@, i as int);
                assert(product(shape@.skip(i as int)) <= usize::MAX);
                lemma_mul_is_commutative(shape[i as int] as int, stride as int);
            }
            linear = linear + indices[i] * stride;
            stride = stride * shape[i];
        }
        linear
    }
}

/// A shape with a number of axes fixed at compile time.
#[derive(Debug, Clone, Copy)]
pub struct Dim<const N: usize> {
    shape: [usize; N],
}

impl<const N: usize> Dim<N> {
    pub fn new(shape: [usize; N]) -> (d: Self)
        ensures
            d.spec_shape() == shape@,
    {
        Self { shape }
    }
}

impl<const N: usize> Dimension for Dim<N> {
    closed spec fn spec_shape(&self) -> Seq<usize> {
        self.shape@
    }

    fn ndim(&self) -> (n: usize) {
        N
    }

    fn shape(&self) -> (s: &[usize]) {
        self.shape.as_slice()
    }

    fn clone_dim(&self) -> (d: Self) {
        Self { shape: self.shape }
    }
}

/// A shape whose number of axes is known only at run time.
#[derive(Debug, Clone)]
pub struct IxDyn {
    shape: Vec<usize>,
}

impl IxDyn {
    pub fn new(shape: Vec<usize>) -> (d: Self)
        ensures
            d.spec_shape() == shape@,
    {
        Self { shape }
    }
}

impl Dimension for IxDyn {
    closed spec fn spec_shape(&self) -> Seq<usize> {
        self.shape@
    }

    fn ndim(&self) -> (n: usize) {
        self.shape.len()
    }

    fn shape(&self) -> (s: &[usize]) {
        self.shape.as_slice()
    }

    fn clone_dim(&self) -> (d: Self) {
        let shape = self.shape.clone();
        assert(shape@ =~= self.shape@);
        Self { shape }
    }
}

} // verus!
