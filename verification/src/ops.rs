use vstd::prelude::*;
use vstd::std_specs::ops::AddSpec;
use vstd::pervasive::strictly_cloned;
use crate::array::{Array, ArrayBase};
use crate::dimension::Dimension;
use crate::math::prefix_products_fit;
use crate::repr::OwnedRepr;

verus! {

/// `+` may be applied to whatever `clone` returns for `x` and `y`.
pub open spec fn can_add_clones<T: Clone + std::ops::Add<Output = T>>(x: T, y: T) -> bool {
    forall|x2: T, y2: T|
        #![trigger strictly_cloned(x, x2), strictly_cloned(y, y2)]
        strictly_cloned(x, x2) && strictly_cloned(y, y2) ==> x2.add_req(y2)
}

/// `z` is what `+` returned on what `clone` returned for `x` and `y`.
pub open spec fn is_sum_of_clones<T: Clone + std::ops::Add<Output = T>>(x: T, y: T, z: T) -> bool {
    exists|x2: T, y2: T|
        #![trigger strictly_cloned(x, x2), strictly_cloned(y, y2)]
        {
            &&& strictly_cloned(x, x2)
            &&& strictly_cloned(y, y2)
            &&& call_ensures(T::add, (x2, y2), z)
            &&& (T::obeys_add_spec() ==> z == x2.add_spec(y2))
        }
}

/// What element-wise addition of `a` and `b` needs: equal shapes, a countable number
/// of elements, storage for all of them on both sides, and `+` defined on the clones
/// of each pair of elements.
pub open spec fn add_defined<T: Clone + std::ops::Add<Output = T>, D: Dimension>(
    a: Array<T, D>,
    b: Array<T, D>,
) -> bool {
    &&& a.spec_shape() == b.spec_shape()
    &&& prefix_products_fit(a.spec_shape())
    &&& a.spec_len() <= a.spec_data().len()
    &&& b.spec_len() <= b.spec_data().len()
    &&& forall|i: int|
        0 <= i < a.spec_len() ==> can_add_clones(#[trigger] a.spec_data()[i], b.spec_data()[i])
}

/// `c` is the element-wise sum of `a` and `b`, with the shape, strides and layout of `a`.
pub open spec fn is_sum<T: Clone + std::ops::Add<Output = T>, D: Dimension>(
    a: Array<T, D>,
    b: Array<T, D>,
    c: Array<T, D>,
) -> bool {
    &&& c.spec_data().len() == a.spec_len()
    &&& forall|i: int|
        0 <= i < a.spec_len() ==> is_sum_of_clones(
            a.spec_data()[i],
            b.spec_data()[i],
            #[trigger] c.spec_data()[i],
        )
    &&& c.spec_shape() == a.spec_shape()
    &&& c.spec_strides() == a.spec_strides()
    &&& c.spec_layout() == a.spec_layout()
}

impl<T, D> ArrayBase<OwnedRepr<T>, D> where T: Clone + std::ops::Add<Output = T>, D: Dimension {
    /// Element-wise sum of `self` and `rhs`, which must have the same shape.
    pub fn add_ref(&self, rhs: &Self) -> (c: Array<T, D>)
        requires
            add_defined(*self, *rhs),
        ensures
            is_sum(*self, *rhs, c),
    {
        let len = self.len();
        let mut data: Vec<T> = Vec::with_capacity(len);
        let mut i: usize = 0;
        while i < len
            invariant
                add_defined(*self, *rhs),
                len == self.spec_len(),
                i <= len,
                data@.len() == i,
                forall|j: int|
                    0 <= j < i ==> is_sum_of_clones(
                        self.spec_data()[j],
                        rhs.spec_data()[j],
                        #[trigger] data@[j],
                    ),
            decreases len - i,
        {
            let left = self.get_linear(i).unwrap();
            let right = rhs.get_linear(i).unwrap();
            let l = left.clone();
            let r = right.clone();
            proof {
                assert(can_add_clones(self.spec_data()[i as int], rhs.spec_data()[i as int]));
                assert(strictly_cloned(*left, l) && strictly_cloned(*right, r));
            }
            let s = l + r;
            proof {
                assert(strictly_cloned(self.spec_data()[i as int], l) && strictly_cloned(
                    rhs.spec_data()[i as int],
                    r,
                ));
            }
            data.push(s);
            i = i + 1;
        }
        ArrayBase::new(OwnedRepr::new(data), self.dim_ref().clone_dim(), self.strides_vec(), self.layout())
    }
}

impl<T, D> std::ops::Add for ArrayBase<OwnedRepr<T>, D> where T: std::ops::Add<Output = T> + Clone, D: Dimension {
    type Output = Array<T, D>;

    fn add(self, rhs: Self) -> (c: Self::Output)
        ensures
            is_sum(self, rhs, c),
    {
        self.add_ref(&rhs)
    }
}

impl<T, D> vstd::std_specs::ops::AddSpecImpl for ArrayBase<OwnedRepr<T>, D> where T: std::ops::Add<Output = T> + Clone, D: Dimension {
    /// The sum is not a function of the operands (clones of the elements go into
    /// it), so `add` is specified by its own `ensures` instead.
    open spec fn obeys_add_spec() -> bool {
        false
    }

    open spec fn add_req(self, rhs: Self) -> bool {
        add_defined(self, rhs)
    }

    open spec fn add_spec(self, rhs: Self) -> Self::Output {
        arbitrary()
    }
}

impl<'b, T, D> std::ops::Add<&'b ArrayBase<OwnedRepr<T>, D>> for ArrayBase<OwnedRepr<T>, D> where T: std::ops::Add<Output = T> + Clone, D: Dimension {
    type Output = Array<T, D>;

    fn add(self, rhs: &'b ArrayBase<OwnedRepr<T>, D>) -> (c: Self::Output)
        ensures
            is_sum(self, *rhs, c),
    {
        self.add_ref(rhs)
    }
}

impl<'b, T, D> vstd::std_specs::ops::AddSpecImpl<&'b ArrayBase<OwnedRepr<T>, D>> for ArrayBase<OwnedRepr<T>, D> where T: std::ops::Add<Output = T> + Clone, D: Dimension {
    open spec fn obeys_add_spec() -> bool {
        false
    }

    open spec fn add_req(self, rhs: &'b ArrayBase<OwnedRepr<T>, D>) -> bool {
        add_defined(self, *rhs)
    }

    open spec fn add_spec(self, rhs: &'b ArrayBase<OwnedRepr<T>, D>) -> Self::Output {
        arbitrary()
    }
}

impl<'a, T, D> std::ops::Add<ArrayBase<OwnedRepr<T>, D>> for &'a ArrayBase<OwnedRepr<T>, D> where T: std::ops::Add<Output = T> + Clone, D: Dimension {
    type Output = Array<T, D>;

    /// Adds the elements of `self` to those of `rhs`; the result takes the strides
    /// and layout of `rhs`.
    fn add(self, rhs: ArrayBase<OwnedRepr<T>, D>) -> (c: Self::Output)
        ensures
            is_sum(rhs, *self, c),
    {
        rhs.add_ref(self)
    }
}

impl<'a, T, D> vstd::std_specs::ops::AddSpecImpl<ArrayBase<OwnedRepr<T>, D>> for &'a ArrayBase<OwnedRepr<T>, D> where T: std::ops::Add<Output = T> + Clone, D: Dimension {
    open spec fn obeys_add_spec() -> bool {
        false
    }

    open spec fn add_req(self, rhs: ArrayBase<OwnedRepr<T>, D>) -> bool {
        add_defined(rhs, *self)
    }

    open spec fn add_spec(self, rhs: ArrayBase<OwnedRepr<T>, D>) -> Self::Output {
        arbitrary()
    }
}

impl<'a, 'b, T, D> std::ops::Add<&'b ArrayBase<OwnedRepr<T>, D>> for &'a ArrayBase<OwnedRepr<T>, D> where T: std::ops::Add<Output = T> + Clone, D: Dimension {
    type Output = Array<T, D>;

    fn add(self, rhs: &'b ArrayBase<OwnedRepr<T>, D>) -> (c: Self::Output)
        ensures
            is_sum(*self, *rhs, c),
    {
        self.add_ref(rhs)
    }
}

impl<'a, 'b, T, D> vstd::std_specs::ops::AddSpecImpl<&'b ArrayBase<OwnedRepr<T>, D>> for &'a ArrayBase<OwnedRepr<T>, D> where T: std::ops::Add<Output = T> + Clone, D: Dimension {
    open spec fn obeys_add_spec() -> bool {
        false
    }

    open spec fn add_req(self, rhs: &'b ArrayBase<OwnedRepr<T>, D>) -> bool {
        add_defined(*self, *rhs)
    }

    open spec fn add_spec(self, rhs: &'b ArrayBase<OwnedRepr<T>, D>) -> Self::Output {
        arbitrary()
    }
}

} // verus!
