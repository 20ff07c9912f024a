use vstd::prelude::*;
use vstd::std_specs::ops::AddSpec;
use vstd::pervasive::strictly_cloned;
use crate::array::ArrayBase;
use crate::dimension::Dimension;
use crate::math::{
    all_positive, digits, dot_from, is_row_major, lemma_digits_linear_index,
    lemma_linear_index_bound, lemma_linear_index_digits, lemma_reversed_digits, linear_from,
    linear_index, offset, product, reversed_digits, within_shape,
};
use crate::repr::Data;
use crate::ops::{is_sum, is_sum_of_clones};
use crate::array::Array;

verus! {

proof fn lemma_dot_step(a: Seq<usize>, b: Seq<usize>, j: int, k: int, m: int)
    requires
        0 <= j < a.len(),
        a[j] < usize::MAX,
        m <= a.len(),
        m <= b.len(),
        0 <= k,
    ensures
        dot_from(a.update(j, (a[j] + 1) as usize), b, k, m) == dot_from(a, b, k, m) + (if k <= j
            < m {
            b[j] as int
        } else {
            0
        }),
    decreases m - k,
{
    if k < m {
        lemma_dot_step(a, b, j, k + 1, m);
        if k == j {
            assert((a[j] + 1) * (b[j] as int) == a[j] * (b[j] as int) + b[j]) by (nonlinear_arith);
        }
    }
}

proof fn lemma_dot_zero(a: Seq<usize>, b: Seq<usize>, k: int, m: int)
    requires
        forall|i: int| 0 <= i < a.len() ==> a[i] == 0,
        m <= a.len(),
        0 <= k,
    ensures
        dot_from(a, b, k, m) == 0,
    decreases m - k,
{
    if k < m {
        lemma_dot_zero(a, b, k + 1, m);
    }
}

/// The multi-index whose components are all zero has offset zero, whatever the
/// strides.
pub proof fn law_offset_of_origin(idx: Seq<usize>, strides: Seq<usize>)
    requires
        forall|i: int| 0 <= i < idx.len() ==> idx[i] == 0,
    ensures
        offset(idx, strides) == 0,
{
    lemma_dot_zero(idx, strides, 0, if idx.len() <= strides.len() { idx.len() as int } else { strides.len() as int });
}

/// Moving one step along axis `j` (a component that has a stride) moves the
/// offset by exactly the stride of that axis, whatever the strides are. With the
/// origin at offset zero this makes the offset the plain sum of index times
/// stride over the axes.
pub proof fn law_offset_step(idx: Seq<usize>, strides: Seq<usize>, j: int)
    requires
        0 <= j < idx.len(),
        j < strides.len(),
        idx[j] < usize::MAX,
    ensures
        offset(idx.update(j, (idx[j] + 1) as usize), strides) == offset(idx, strides) + strides[j],
{
    let m = if idx.len() <= strides.len() { idx.len() as int } else { strides.len() as int };
    lemma_dot_step(idx, strides, j, 0, m);
}

/// The offset sums the components times their strides, whatever the strides:
/// each axis contributes its component times its own stride, and no axis left
/// contributes nothing.
pub proof fn law_offset_unfold(a: Seq<usize>, b: Seq<usize>, k: int, m: int)
    requires
        0 <= k < m,
        m <= a.len(),
        m <= b.len(),
    ensures
        dot_from(a, b, k, m) == (a[k] as int) * (b[k] as int) + dot_from(a, b, k + 1, m),
        dot_from(a, b, m, m) == 0,
{
}

/// Reading the result of `to_multi_index` back to front gives a row-major
/// multi-index whose `to_linear` is the linear position we started from.
pub proof fn law_multi_index_then_linear(shape: Seq<usize>, linear: nat)
    requires
        all_positive(shape),
        linear < product(shape),
    ensures
        linear_index(shape, reversed_digits(shape, linear).reverse()) == linear,
{
    lemma_reversed_digits(shape, linear);
    lemma_digits_linear_index(shape, linear);
}

/// `to_multi_index` of the `to_linear` of a multi-index inside the shape is that
/// multi-index, back to front.
pub proof fn law_linear_then_multi_index(shape: Seq<usize>, idx: Seq<usize>)
    requires
        all_positive(shape),
        idx.len() == shape.len(),
        within_shape(idx, shape),
    ensures
        reversed_digits(shape, linear_index(shape, idx)) == idx.reverse(),
{
    lemma_linear_index_digits(shape, idx);
    lemma_reversed_digits(shape, linear_index(shape, idx));
}

/// Every component of the result of `to_multi_index` lies below the length of its
/// axis (the result lists the axes from the last to the first).
pub proof fn law_multi_index_within_shape(shape: Seq<usize>, linear: nat)
    requires
        all_positive(shape),
    ensures
        within_shape(reversed_digits(shape, linear).reverse(), shape),
{
    lemma_reversed_digits(shape, linear);
    let d = digits(shape, linear);
    assert forall|i: int| 0 <= i < d.len() && i < shape.len() implies #[trigger] d[i] < shape[i] by {
        vstd::arithmetic::div_mod::lemma_mod_bound(
            (linear / crate::math::row_major_stride(shape, i)) as int,
            shape[i] as int,
        );
    }
}

proof fn lemma_dot_row_major(shape: Seq<usize>, strides: Seq<usize>, idx: Seq<usize>, k: int)
    requires
        is_row_major(shape, strides),
        idx.len() == shape.len(),
        0 <= k <= shape.len(),
    ensures
        dot_from(idx, strides, k, shape.len() as int) == linear_from(shape, idx, k),
    decreases shape.len() - k,
{
    if k < shape.len() {
        lemma_dot_row_major(shape, strides, idx, k + 1);
    }
}

/// Under row-major strides, the memory offset of a multi-index with one component
/// per axis is its row-major linear position, and inside the shape it falls before
/// the number of elements.
pub proof fn law_row_major_offset(shape: Seq<usize>, strides: Seq<usize>, idx: Seq<usize>)
    requires
        is_row_major(shape, strides),
        idx.len() == shape.len(),
    ensures
        offset(idx, strides) == linear_index(shape, idx),
        within_shape(idx, shape) ==> offset(idx, strides) < product(shape),
{
    lemma_dot_row_major(shape, strides, idx, 0);
    if within_shape(idx, shape) {
        lemma_linear_index_bound(shape, idx);
    }
}

/// On an array in standard layout, `get` (and indexing) is defined at every
/// multi-index with one component per axis, and inside the shape it reads the
/// element at the multi-index's row-major linear position.
pub proof fn law_standard_get<S: Data, D: Dimension>(a: ArrayBase<S, D>, idx: Seq<usize>)
    requires
        a.is_standard(),
        idx.len() == a.spec_shape().len(),
    ensures
        a.get_defined(idx),
        within_shape(idx, a.spec_shape()) ==> offset(idx, a.spec_strides()) == linear_index(
            a.spec_shape(),
            idx,
        ) < a.spec_data().len(),
{
    law_row_major_offset(a.spec_shape(), a.spec_strides(), idx);
}

/// Two arrays in standard layout that hold the same elements (as `into_shape`
/// leaves them) agree at every pair of multi-indices with the same row-major
/// linear position.
pub proof fn law_reshape_same_position<S: Data, D: Dimension, E: Dimension>(
    a: ArrayBase<S, D>,
    b: ArrayBase<S, E>,
    i: Seq<usize>,
    j: Seq<usize>,
)
    requires
        a.is_standard(),
        b.is_standard(),
        a.spec_data() == b.spec_data(),
        i.len() == a.spec_shape().len(),
        j.len() == b.spec_shape().len(),
        within_shape(i, a.spec_shape()),
        within_shape(j, b.spec_shape()),
        linear_index(a.spec_shape(), i) == linear_index(b.spec_shape(), j),
    ensures
        a.spec_data()[offset(i, a.spec_strides()) as int] == b.spec_data()[offset(
            j,
            b.spec_strides(),
        ) as int],
{
    law_standard_get(a, i);
    law_standard_get(b, j);
}

/// The sum of two arrays in standard layout with the same shape is in standard
/// layout, and at every multi-index inside the shape it holds a sum of (clones of)
/// the two elements at that multi-index.
pub proof fn law_sum_elementwise<T: Clone + std::ops::Add<Output = T>, D: Dimension>(
    a: Array<T, D>,
    b: Array<T, D>,
    c: Array<T, D>,
    idx: Seq<usize>,
)
    requires
        a.is_standard(),
        b.is_standard(),
        a.spec_shape() == b.spec_shape(),
        is_sum(a, b, c),
        idx.len() == a.spec_shape().len(),
        within_shape(idx, a.spec_shape()),
    ensures
        c.is_standard(),
        is_sum_of_clones(
            a.spec_data()[offset(idx, a.spec_strides()) as int],
            b.spec_data()[offset(idx, b.spec_strides()) as int],
            c.spec_data()[offset(idx, c.spec_strides()) as int],
        ),
{
    law_standard_get(a, idx);
    law_standard_get(b, idx);
    let o = offset(idx, a.spec_strides()) as int;
    assert(b.spec_strides() =~= a.spec_strides()) by {
        assert forall|i: int| 0 <= i < a.spec_strides().len() implies b.spec_strides()[i] == a.spec_strides()[i] by {}
    }
    assert(0 <= o < a.spec_len());
}

/// After a write through `get_mut` at the multi-index `idx` (the storage updated at
/// the offset of `idx`, shape and strides unchanged), reading at `idx` gives the
/// written value, and reading at any multi-index with another offset gives what it
/// gave before.
pub proof fn law_write_then_read<S: Data, D: Dimension>(
    before: ArrayBase<S, D>,
    after: ArrayBase<S, D>,
    idx: Seq<usize>,
    other: Seq<usize>,
    value: S::Elem,
)
    requires
        before.get_defined(idx),
        within_shape(idx, before.spec_shape()),
        after.spec_shape() == before.spec_shape(),
        after.spec_strides() == before.spec_strides(),
        after.spec_data() == before.spec_data().update(
            offset(idx, before.spec_strides()) as int,
            value,
        ),
        before.get_defined(other),
        within_shape(other, before.spec_shape()),
    ensures
        after.get_defined(idx),
        after.get_defined(other),
        after.spec_data()[offset(idx, after.spec_strides()) as int] == value,
        offset(other, before.spec_strides()) != offset(idx, before.spec_strides()) ==> after.spec_data()[offset(
            other,
            after.spec_strides(),
        ) as int] == before.spec_data()[offset(other, before.spec_strides()) as int],
{
}

/// A view of an array in standard layout is in standard layout and holds, at every
/// multi-index inside the shape, the element the array holds there.
pub proof fn law_view_reads_array<S: Data, D: Dimension, V: Data<Elem = S::Elem>>(
    a: ArrayBase<S, D>,
    v: ArrayBase<V, D>,
    idx: Seq<usize>,
)
    requires
        a.is_standard(),
        v.spec_data() == a.spec_data(),
        v.spec_shape() == a.spec_shape(),
        v.spec_strides() == a.spec_strides(),
        v.spec_layout() == a.spec_layout(),
        idx.len() == a.spec_shape().len(),
        within_shape(idx, a.spec_shape()),
    ensures
        v.is_standard(),
        v.spec_data()[offset(idx, v.spec_strides()) as int] == a.spec_data()[offset(
            idx,
            a.spec_strides(),
        ) as int],
{
    law_standard_get(a, idx);
}

/// When `clone` on `T` is deterministic and `+` on `T` obeys a commutative
/// specification, adding two arrays of the same shape, strides and layout in
/// either order gives the same elements, shape, strides and layout.
pub proof fn law_sum_commutes<T: Clone + std::ops::Add<Output = T>, D: Dimension>(
    a: Array<T, D>,
    b: Array<T, D>,
    c: Array<T, D>,
    d: Array<T, D>,
)
    requires
        T::obeys_add_spec(),
        forall|x: T, y: T| #[trigger] x.add_spec(y) == y.add_spec(x),
        forall|x: T, y1: T, y2: T|
            #[trigger] strictly_cloned(x, y1) && #[trigger] strictly_cloned(x, y2) ==> y1 == y2,
        a.spec_shape() == b.spec_shape(),
        a.spec_strides() == b.spec_strides(),
        a.spec_layout() == b.spec_layout(),
        is_sum(a, b, c),
        is_sum(b, a, d),
    ensures
        c.spec_data() == d.spec_data(),
        c.spec_shape() == d.spec_shape(),
        c.spec_strides() == d.spec_strides(),
        c.spec_layout() == d.spec_layout(),
{
    assert forall|i: int| 0 <= i < c.spec_data().len() implies c.spec_data()[i] == d.spec_data()[i] by {
        let x = a.spec_data()[i];
        let y = b.spec_data()[i];
        let ci = c.spec_data()[i];
        let di = d.spec_data()[i];
        assert(is_sum_of_clones(x, y, ci));
        assert(is_sum_of_clones(y, x, di));
        let (x1, y1) = choose|x2: T, y2: T|
            strictly_cloned(x, x2) && strictly_cloned(y, y2) && call_ensures(T::add, (x2, y2), ci)
                && (T::obeys_add_spec() ==> ci == x2.add_spec(y2));
        let (y3, x3) = choose|y2: T, x2: T|
            strictly_cloned(y, y2) && strictly_cloned(x, x2) && call_ensures(T::add, (y2, x2), di)
                && (T::obeys_add_spec() ==> di == y2.add_spec(x2));
        assert(x1 == x3 && y1 == y3);
        assert(x1.add_spec(y1) == y1.add_spec(x1));
    }
    assert(c.spec_data() =~= d.spec_data());
}

} // verus!
