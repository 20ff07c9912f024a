use vstd::prelude::*;
use vstd::arithmetic::mul::lemma_mul_is_commutative;
use crate::dimension::{Dim, Dimension};
use crate::layout::Layout;
use crate::math::{
    dot_from, is_row_major, lemma_product_singleton, lemma_product_skip_step, offset, prefix_products_fit,
    product, suffix_products_fit, within_shape, row_major_stride,
};
use crate::repr::{Data, DataMut, OwnedRepr, ViewMutRepr, ViewRepr};

verus! {

/// An n-dimensional array: storage `S` read through a shape `D`, strides and a layout.
pub struct ArrayBase<S, D> where S: Data, D: Dimension {
    data: S,
    dim: D,
    strides: Vec<usize>,
    layout: Layout,
}

/// An array that owns its elements.
pub type Array<T, D> = ArrayBase<OwnedRepr<T>, D>;

/// An array that reads the elements of another one.
pub type ArrayView<'a, T, D> = ArrayBase<ViewRepr<'a, T>, D>;

/// An array that writes the elements of another one.
pub type ArrayViewMut<'a, T, D> = ArrayBase<ViewMutRepr<'a, T>, D>;

impl<S, D> ArrayBase<S, D> where S: Data, D: Dimension {
    /// The stored elements, in memory order.
    pub closed spec fn spec_data(&self) -> Seq<S::Elem> {
        self.data.elems()
    }

    /// The storage.
    pub closed spec fn spec_repr(&self) -> S {
        self.data
    }

    /// The lengths of the axes.
    pub closed spec fn spec_shape(&self) -> Seq<usize> {
        self.dim.spec_shape()
    }

    /// The strides, one per axis.
    pub closed spec fn spec_strides(&self) -> Seq<usize> {
        self.strides@
    }

    /// The layout tag.
    pub closed spec fn spec_layout(&self) -> Layout {
        self.layout
    }

    /// The stored elements are those of the storage.
    pub proof fn lemma_data_of_repr(&self)
        ensures
            self.spec_data() == self.spec_repr().elems(),
    {
    }

    /// Number of elements the shape describes.
    pub open spec fn spec_len(&self) -> nat {
        product(self.spec_shape())
    }

    /// The array is laid out the way its constructors lay it out: row-major strides,
    /// exactly as many stored elements as the shape describes, and a shape whose
    /// partial products all fit in a `usize`.
    pub open spec fn is_standard(&self) -> bool {
        &&& is_row_major(self.spec_shape(), self.spec_strides())
        &&& self.spec_data().len() == product(self.spec_shape())
        &&& prefix_products_fit(self.spec_shape())
        &&& suffix_products_fit(self.spec_shape())
        &&& self.spec_layout() == Layout::RowMajor
    }

    /// A multi-index on which `get` neither panics nor reads outside the storage:
    /// either some component lies outside its axis, or it has one component per
    /// axis and its offset falls inside the storage.
    pub open spec fn get_defined(&self, indices: Seq<usize>) -> bool {
        ||| !within_shape(indices, self.spec_shape())
        ||| indices.len() == self.spec_shape().len() && offset(indices, self.spec_strides())
            < self.spec_data().len()
    }

    pub fn new(data: S, dim: D, strides: Vec<usize>, layout: Layout) -> (a: Self)
        ensures
            a.spec_repr() == data,
            a.spec_data() == data.elems(),
            a.spec_shape() == dim.spec_shape(),
            a.spec_strides() == strides@,
            a.spec_layout() == layout,
    {
        Self { data, dim, strides, layout }
    }

    pub fn shape(&self) -> (s: &[usize])
        ensures
            s@ == self.spec_shape(),
    {
        self.dim.shape()
    }

    pub fn strides(&self) -> (s: &[usize])
        ensures
            s@ == self.spec_strides(),
    {
        self.strides.as_slice()
    }

    /// The shape value itself.
    pub(crate) fn dim_ref(&self) -> (d: &D)
        ensures
            d.spec_shape() == self.spec_shape(),
    {
        &self.dim
    }

    /// A copy of the strides.
    pub(crate) fn strides_vec(&self) -> (v: Vec<usize>)
        ensures
            v@ == self.spec_strides(),
    {
        let v = self.strides.clone();
        assert(v@ =~= self.strides@);
        v
    }

    pub fn layout(&self) -> (l: Layout)
        ensures
            l == self.spec_layout(),
    {
        self.layout
    }

    /// Number of elements: the product of the axis lengths.
    pub fn len(&self) -> (n: usize)
        requires
            prefix_products_fit(self.spec_shape()),
        ensures
            n == self.spec_len(),
    {
        self.dim.size()
    }

    pub fn is_empty(&self) -> (b: bool)
        requires
            prefix_products_fit(self.spec_shape()),
        ensures
            b == (self.spec_len() == 0),
    {
        self.len() == 0
    }

    /// `sum indices[i] * strides[i]` over the axes that both have.
    fn linear_offset(&self, indices: &[usize]) -> (off: usize)
        requires
            indices@.len() == self.spec_shape().len(),
            offset(indices@, self.spec_strides()) <= usize::MAX,
        ensures
            off == offset(indices@, self.spec_strides()),
    {
        let m = if indices.len() <= self.strides.len() {
            indices.len()
        } else {
            self.strides.len()
        };
        let mut acc: usize = 0;
        let mut i: usize = 0;
        while i < m
            invariant
                m <= indices@.len(),
                m <= self.strides@.len(),
                i <= m,
                offset(indices@, self.strides@) == dot_from(indices@, self.strides@, 0, m as int),
                dot_from(indices@, self.strides@, 0, m as int) <= usize::MAX,
                acc + dot_from(indices@, self.strides@, i as int, m as int) == dot_from(
                    indices@,
                    self.strides@,
                    0,
                    m as int,
                ),
            decreases m - i,
        {
            acc = acc + indices[i] * self.strides[i];
            i = i + 1;
        }
        acc
    }

    /// Whether some component of `indices` lies at or past the length of its axis.
    fn out_of_bounds(&self, indices: &[usize]) -> (b: bool)
        ensures
            b == !within_shape(indices@, self.spec_shape()),
    {
        let shape = self.dim.shape();
        let mut i: usize = 0;
        while i < indices.len() && i < shape.len()
            invariant
                shape@ == self.spec_shape(),
                i <= indices@.len(),
                forall|j: int| 0 <= j < i && j < shape@.len() ==> #[trigger] indices@[j] < shape@[j],
            decreases indices@.len() - i,
        {
            if indices[i] >= shape[i] {
                return true;
            }
            i = i + 1;
        }
        false
    }

    /// The element at the multi-index `indices`, or `None` when a component lies
    /// outside its axis.
    pub fn get(&self, indices: &[usize]) -> (r: Option<&S::Elem>)
        requires
            self.get_defined(indices@),
        ensures
            !within_shape(indices@, self.spec_shape()) ==> r is None,
            within_shape(indices@, self.spec_shape()) ==> r is Some && *r->0 == self.spec_data()[offset(
                indices@,
                self.spec_strides(),
            ) as int],
    {
        if self.out_of_bounds(indices) {
            return None;
        }
        let stored = self.data.len();
        let off = self.linear_offset(indices);
        assert(off < stored);
        let s = self.data.as_slice();
        Some(&s[off])
    }

    /// The element at position `linear` of the storage, or `None` at or past the
    /// number of elements the shape describes.
    pub fn get_linear(&self, linear: usize) -> (r: Option<&S::Elem>)
        requires
            prefix_products_fit(self.spec_shape()),
            linear >= self.spec_len() || linear < self.spec_data().len(),
        ensures
            linear >= self.spec_len() ==> r is None,
            linear < self.spec_len() ==> r is Some && *r->0 == self.spec_data()[linear as int],
    {
        if linear >= self.len() {
            return None;
        }
        let s = self.data.as_slice();
        Some(&s[linear])
    }

    /// A view that reads the elements of `self`: it borrows the whole storage and
    /// takes the shape, strides and layout of `self`.
    pub fn view(&self) -> (v: ArrayView<'_, S::Elem, D>)
        requires
            prefix_products_fit(self.spec_shape()),
            self.spec_repr().addressable(),
        ensures
            v.spec_data() == self.spec_data(),
            v.spec_shape() == self.spec_shape(),
            v.spec_strides() == self.spec_strides(),
            v.spec_layout() == self.spec_layout(),
    {
        let strides = self.strides.clone();
        assert(strides@ =~= self.strides@);
        ArrayBase {
            data: ViewRepr::new(self.data.as_slice()),
            dim: self.dim.clone_dim(),
            strides,
            layout: self.layout,
        }
    }
}

impl<'b, S, D> std::ops::Index<&'b [usize]> for ArrayBase<S, D> where S: Data, D: Dimension {
    type Output = S::Elem;

    /// The element at the multi-index `indices`, which must lie inside the shape.
    fn index(&self, indices: &'b [usize]) -> (r: &S::Elem)
        ensures
            *r == self.spec_data()[offset(indices@, self.spec_strides()) as int],
    {
        self.get(indices).unwrap()
    }
}

impl<'b, S, D> vstd::std_specs::core::IndexSpecImpl<&'b [usize]> for ArrayBase<S, D> where S: Data, D: Dimension {
    /// Indexing is defined on multi-indices inside the shape, with one component
    /// per axis, whose offset falls inside the storage.
    open spec fn index_req(&self, indices: &&'b [usize]) -> bool {
        &&& within_shape(indices@, self.spec_shape())
        &&& self.get_defined(indices@)
    }
}

impl<S, D> Clone for ArrayBase<S, D> where S: Data + Clone, D: Dimension, S::Elem: Clone {
    /// Clones the storage with `S::clone` (a view shares its elements with the
    /// clone, owned storage clones each element) and copies shape, strides and layout.
    fn clone(&self) -> (a: Self)
        ensures
            cloned(self.spec_repr(), a.spec_repr()),
            a.spec_data() == a.spec_repr().elems(),
            a.spec_shape() == self.spec_shape(),
            a.spec_strides() == self.spec_strides(),
            a.spec_layout() == self.spec_layout(),
    {
        let strides = self.strides.clone();
        assert(strides@ =~= self.strides@);
        Self { data: self.data.clone(), dim: self.dim.clone_dim(), strides, layout: self.layout }
    }
}

/// The row-major strides of `shape`: stride `i` is the product of the later axis lengths.
fn row_major_strides(shape: &[usize]) -> (strides: Vec<usize>)
    requires
        suffix_products_fit(shape@),
    ensures
        is_row_major(shape@, strides@),
{
    let n = shape.len();
    let mut strides: Vec<usize> = Vec::new();
    let mut k: usize = 0;
    while k < n
        invariant
            k <= n,
            strides@.len() == k,
        decreases n - k,
    {
        strides.push(1);
        k = k + 1;
    }
    let mut stride: usize = 1;
    let mut i: usize = n;
    assert(shape@.skip(n as int) =~= Seq::<usize>::empty());
    while i > 0
        invariant
            n == shape@.len(),
            strides@.len() == n,
            i <= n,
            suffix_products_fit(shape@),
            stride == product(shape@.skip(i as int)),
            forall|j: int| i <= j < n ==> #[trigger] strides@[j] == row_major_stride(shape@, j),
        decreases i,
    {
        i = i - 1;
        proof {
            lemma_product_skip_step(shape@, i as int);
            assert(product(shape@.skip(i as int)) <= usize::MAX);
            lemma_mul_is_commutative(shape[i as int] as int, stride as int);
        }
        strides.set(i, stride);
        stride = stride * shape[i];
    }
    strides
}

/// Error returned when a reshape asks for a different number of elements.
#[derive(Debug, PartialEq, Eq, Structural)]
pub struct ShapeError;

impl<T, D> ArrayBase<OwnedRepr<T>, D> where D: Dimension {
    /// Gives the elements a new shape without moving them; the result has row-major
    /// strides. Fails exactly when the new shape describes a different number of
    /// elements.
    pub fn into_shape<E: Dimension>(self, new_dim: E) -> (r: Result<ArrayBase<OwnedRepr<T>, E>, ShapeError>)
        requires
            prefix_products_fit(self.spec_shape()),
            prefix_products_fit(new_dim.spec_shape()),
            product(new_dim.spec_shape()) == product(self.spec_shape()) ==> suffix_products_fit(
                new_dim.spec_shape(),
            ),
        ensures
            r is Err <==> product(new_dim.spec_shape()) != product(self.spec_shape()),
            r matches Ok(a) ==> {
                &&& a.spec_data() == self.spec_data()
                &&& a.spec_shape() == new_dim.spec_shape()
                &&& is_row_major(a.spec_shape(), a.spec_strides())
                &&& a.spec_layout() == Layout::RowMajor
                &&& (self.spec_data().len() == self.spec_len() ==> a.is_standard())
            },
    {
        let new_size = new_dim.size();
        if self.len() != new_size {
            return Err(ShapeError);
        }
        let data = self.data.into_vec();
        let new_strides = row_major_strides(new_dim.shape());
        let a = ArrayBase { data: OwnedRepr::new(data), dim: new_dim, strides: new_strides, layout: Layout::RowMajor };
        Ok(a)
    }
}

impl<T> ArrayBase<OwnedRepr<T>, Dim<1>> {
    /// A one-dimensional array holding `data`.
    pub fn from_vec(data: Vec<T>) -> (a: Self)
        ensures
            a.spec_data() == data@,
            a.spec_shape() == seq![data@.len() as usize],
            a.spec_strides() == seq![1usize],
            a.spec_layout() == Layout::RowMajor,
            a.is_standard(),
    {
        let dim = Dim::new([data.len()]);
        let strides = vec![1];
        let a = Self::new(OwnedRepr::new(data), dim, strides, Layout::RowMajor);
        proof {
            let s = a.spec_shape();
            lemma_product_singleton(s[0]);
            assert(s =~= seq![s[0]]);
            assert(s.take(0) =~= Seq::<usize>::empty());
            assert(s.take(1) =~= s);
            assert(s.skip(0) =~= s);
            assert(s.skip(1) =~= Seq::<usize>::empty());
            assert(prefix_products_fit(s)) by {
                assert forall|k: int| 0 <= k <= s.len() implies #[trigger] product(s.take(k)) <= usize::MAX by {
                    if k == 0 {} else {}
                }
            }
            assert(suffix_products_fit(s)) by {
                assert forall|k: int| 0 <= k <= s.len() implies #[trigger] product(s.skip(k)) <= usize::MAX by {
                    if k == 0 {} else {}
                }
            }
        }
        a
    }
}

impl<T, const N: usize> ArrayBase<OwnedRepr<T>, Dim<N>> {
    /// An array of shape `shape` holding `data` in row-major order.
    pub fn from_shape_vec(shape: [usize; N], data: Vec<T>) -> (a: Self)
        requires
            data@.len() == product(shape@),
            prefix_products_fit(shape@),
            suffix_products_fit(shape@),
        ensures
            a.spec_data() == data@,
            a.spec_shape() == shape@,
            a.is_standard(),
    {
        let dim = Dim::new(shape);
        let expected_len = dim.size();
        assert(data@.len() == expected_len);
        let strides = row_major_strides(shape.as_slice());
        Self::new(OwnedRepr::new(data), dim, strides, Layout::RowMajor)
    }

    /// An array of shape `shape` each of whose elements is a clone of `elem`.
    pub fn from_elem(shape: [usize; N], elem: T) -> (a: Self) where T: Clone
        requires
            prefix_products_fit(shape@),
            suffix_products_fit(shape@),
        ensures
            a.spec_data().len() == product(shape@),
            forall|i: int| 0 <= i < a.spec_data().len() ==> cloned(elem, #[trigger] a.spec_data()[i]),
            a.spec_shape() == shape@,
            a.is_standard(),
    {
        let len = Dim::new(shape).size();
        let data = vec![elem; len];
        Self::from_shape_vec(shape, data)
    }
}

impl<S, D> ArrayBase<S, D> where S: DataMut, D: Dimension {
    /// Mutable access to the element at the multi-index `indices`, or `None` when a
    /// component lies outside its axis.
    pub fn get_mut(&mut self, indices: &[usize]) -> (r: Option<&mut S::Elem>)
        requires
            old(self).get_defined(indices@),
        ensures
            !within_shape(indices@, old(self).spec_shape()) ==> r is None && *final(self) == *old(
                self,
            ),
            within_shape(indices@, old(self).spec_shape()) ==> r is Some && *r->0 == old(
                self,
            ).spec_data()[offset(indices@, old(self).spec_strides()) as int]
                && final(self).spec_data() == old(self).spec_data().update(
                offset(indices@, old(self).spec_strides()) as int,
                *final(r->0),
            ),
            final(self).spec_shape() == old(self).spec_shape(),
            final(self).spec_strides() == old(self).spec_strides(),
            final(self).spec_layout() == old(self).spec_layout(),
            old(self).spec_repr().borrowed() is None ==> final(self).spec_repr().borrowed() is None,
            old(self).spec_repr().borrowed() is Some ==> final(self).spec_repr().borrowed() is Some
                && final(final(self).spec_repr().borrowed().unwrap())@ == final(old(self).spec_repr().borrowed().unwrap())@,
    {
        if self.out_of_bounds(indices) {
            return None;
        }
        let stored = self.data.len();
        let off = self.linear_offset(indices);
        assert(off < stored);
        let s = self.data.as_mut_slice();
        Some(&mut s[off])
    }

    /// Mutable access to the element at position `linear` of the storage, or `None`
    /// at or past the number of elements the shape describes.
    pub fn get_linear_mut(&mut self, linear: usize) -> (r: Option<&mut S::Elem>)
        requires
            prefix_products_fit(old(self).spec_shape()),
            linear >= old(self).spec_len() || linear < old(self).spec_data().len(),
        ensures
            linear >= old(self).spec_len() ==> r is None && *final(self) == *old(self),
            linear < old(self).spec_len() ==> r is Some && *r->0 == old(self).spec_data()[linear as int]
                && final(self).spec_data() == old(self).spec_data().update(linear as int, *final(r->0)),
            final(self).spec_shape() == old(self).spec_shape(),
            final(self).spec_strides() == old(self).spec_strides(),
            final(self).spec_layout() == old(self).spec_layout(),
            old(self).spec_repr().borrowed() is None ==> final(self).spec_repr().borrowed() is None,
            old(self).spec_repr().borrowed() is Some ==> final(self).spec_repr().borrowed() is Some
                && final(final(self).spec_repr().borrowed().unwrap())@ == final(old(self).spec_repr().borrowed().unwrap())@,
    {
        if linear >= self.len() {
            return None;
        }
        let s = self.data.as_mut_slice();
        Some(&mut s[linear])
    }

    /// A view through which the elements of `self` are written: it borrows the
    /// whole storage, and what the view holds when it is done is what `self` holds
    /// afterwards.
    pub fn view_mut(&mut self) -> (v: ArrayViewMut<'_, S::Elem, D>)
        requires
            prefix_products_fit(old(self).spec_shape()),
            old(self).spec_repr().addressable(),
        ensures
            v.spec_data() == old(self).spec_data(),
            v.spec_shape() == old(self).spec_shape(),
            v.spec_strides() == old(self).spec_strides(),
            v.spec_layout() == old(self).spec_layout(),
            final(self).spec_shape() == old(self).spec_shape(),
            final(self).spec_strides() == old(self).spec_strides(),
            final(self).spec_layout() == old(self).spec_layout(),
            v.spec_repr().borrowed() is Some,
            final(self).spec_data() == final(v.spec_repr().borrowed().unwrap())@,
    {
        let dim = self.dim.clone_dim();
        let strides = self.strides.clone();
        let layout = self.layout;
        assert(strides@ =~= old(self).strides@);
        ArrayBase { data: ViewMutRepr::new(self.data.as_mut_slice()), dim, strides, layout }
    }
}

impl<'a, T, D> ArrayBase<ViewMutRepr<'a, T>, D> where D: Dimension {
    /// Once a mutable view is no longer used, what it holds is what its borrow
    /// leaves behind in the array it was taken from.
    pub proof fn lemma_view_done(self)
        requires
            has_resolved(self),
        ensures
            self.spec_data() == final(self.spec_repr().borrowed().unwrap())@,
    {
        self.data.lemma_done();
    }
}

} // verus!
