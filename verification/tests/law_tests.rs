use xndarray::{
    Array, ArrayBase, Data, DataMut, Dim, Dimension, IxDyn, Layout, LayoutRef, OwnedRepr,
    ShapeError, ViewRepr,
};

#[test]
fn test_to_multi_index_lists_axes_back_to_front() {
    let d = Dim::new([2, 3]);
    assert_eq!(d.to_multi_index(5), vec![2, 1]);
    assert_eq!(d.to_multi_index(1), vec![1, 0]);
    assert_eq!(d.to_multi_index(0), vec![0, 0]);
    assert_eq!(d.to_linear(&[1, 2]), 5);
    assert_eq!(d.to_linear(&[1, 0]), 3);
}

#[test]
fn test_multi_index_then_linear_round_trip() {
    let d = IxDyn::new(vec![2, 3, 4]);
    for linear in 0..d.size() {
        let mut idx = d.to_multi_index(linear);
        idx.reverse();
        for (i, &c) in idx.iter().enumerate() {
            assert!(c < d.shape()[i]);
        }
        assert_eq!(d.to_linear(&idx), linear);
    }
}

#[test]
fn test_linear_then_multi_index_round_trip() {
    let d = Dim::new([3, 2, 2]);
    for a in 0..3 {
        for b in 0..2 {
            for c in 0..2 {
                let linear = d.to_linear(&[a, b, c]);
                assert_eq!(d.to_multi_index(linear), vec![c, b, a]);
            }
        }
    }
}

#[test]
fn test_to_linear_ignores_extra_components() {
    let d = Dim::new([2, 3]);
    assert_eq!(d.to_linear(&[1, 1, 7]), 4);
}

#[test]
fn test_size_and_ndim() {
    let d = Dim::new([2, 3, 4]);
    assert_eq!(d.size(), 24);
    assert_eq!(d.ndim(), 3);
    let e = IxDyn::new(vec![]);
    assert_eq!(e.size(), 1);
    assert_eq!(e.ndim(), 0);
    let z = IxDyn::new(vec![3, 0, 5]);
    assert_eq!(z.size(), 0);
    assert_eq!(z.clone_dim().shape(), &[3, 0, 5]);
}

#[test]
fn test_row_major_strides() {
    let arr = Array::from_shape_vec([2, 3, 4], (0..24).collect::<Vec<i32>>());
    assert_eq!(arr.strides(), &[12, 4, 1]);
    assert_eq!(arr.layout(), Layout::RowMajor);
    assert_eq!(arr.len(), 24);
    assert!(!arr.is_empty());
    assert_eq!(arr[&[1, 2, 3]], 23);
    assert_eq!(arr[&[1, 0, 2]], 14);
}

#[test]
fn test_get_out_of_bounds() {
    let arr = Array::from_shape_vec([2, 3], vec![1, 2, 3, 4, 5, 6]);
    assert_eq!(arr.get(&[2, 0]), None);
    assert_eq!(arr.get(&[0, 3]), None);
    assert_eq!(arr.get(&[1, 1]), Some(&5));
}

#[test]
fn test_get_linear() {
    let arr = Array::from_shape_vec([2, 3], vec![1, 2, 3, 4, 5, 6]);
    assert_eq!(arr.get_linear(4), Some(&5));
    assert_eq!(arr.get_linear(6), None);
}

#[test]
fn test_get_linear_mut() {
    let mut arr = Array::from_shape_vec([2, 3], vec![1, 2, 3, 4, 5, 6]);
    *arr.get_linear_mut(0).unwrap() = 100;
    assert!(arr.get_linear_mut(6).is_none());
    assert_eq!(arr[&[0, 0]], 100);
}

#[test]
fn test_write_then_read() {
    let mut arr = Array::from_shape_vec([2, 3], vec![1, 2, 3, 4, 5, 6]);
    *arr.get_mut(&[1, 1]).unwrap() = 50;
    assert!(arr.get_mut(&[0, 9]).is_none());
    assert_eq!(arr[&[1, 1]], 50);
    assert_eq!(arr[&[0, 1]], 2);
    assert_eq!(arr[&[1, 2]], 6);
}

#[test]
fn test_empty_array() {
    let arr = Array::from_vec(Vec::<i32>::new());
    assert_eq!(arr.len(), 0);
    assert!(arr.is_empty());
    assert_eq!(arr.get_linear(0), None);
    assert_eq!(arr.get(&[0]), None);
}

#[test]
fn test_reshape_keeps_row_major_order() {
    let arr = Array::from_shape_vec([2, 3], vec![1, 2, 3, 4, 5, 6]);
    let r = arr.into_shape(Dim::new([3, 2])).unwrap();
    assert_eq!(r.strides(), &[2, 1]);
    assert_eq!(r.layout(), Layout::RowMajor);
    assert_eq!(r[&[0, 1]], 2);
    assert_eq!(r[&[1, 0]], 3);
    assert_eq!(r[&[2, 1]], 6);
}

#[test]
fn test_reshape_error_value() {
    let arr = Array::from_shape_vec([2, 2], vec![1, 2, 3, 4]);
    let result = arr.into_shape(IxDyn::new(vec![5]));
    assert_eq!(result.err(), Some(ShapeError));
}

#[test]
fn test_from_elem_every_element() {
    let arr = Array::from_elem([3, 2], 7u8);
    assert_eq!(arr.len(), 6);
    for i in 0..6 {
        assert_eq!(arr.get_linear(i), Some(&7));
    }
    assert_eq!(arr.strides(), &[2, 1]);
}

#[test]
fn test_view_reads_array() {
    let arr = Array::from_shape_vec([2, 3], vec![1, 2, 3, 4, 5, 6]);
    let v = arr.view();
    assert_eq!(v.shape(), &[2, 3]);
    assert_eq!(v.strides(), &[3, 1]);
    for i in 0..2 {
        for j in 0..3 {
            assert_eq!(v[&[i, j]], arr[&[i, j]]);
        }
    }
    let w = v.clone();
    assert_eq!(w[&[1, 0]], 4);
}

#[test]
fn test_view_mut_writes_array() {
    let mut arr = Array::from_shape_vec([3], vec![1, 2, 3]);
    {
        let mut vm = arr.view_mut();
        *vm.get_linear_mut(2).unwrap() = 30;
        assert_eq!(vm[&[2]], 30);
    }
    assert_eq!(arr[&[2]], 30);
    assert_eq!(arr[&[0]], 1);
}

#[test]
fn test_array_new_keeps_strides_and_layout() {
    let arr = ArrayBase::new(
        OwnedRepr::new(vec![1, 2, 3, 4]),
        Dim::new([2, 2]),
        vec![1, 2],
        Layout::ColMajor,
    );
    assert_eq!(arr.layout(), Layout::ColMajor);
    assert_eq!(arr.strides(), &[1, 2]);
    assert_eq!(arr[&[1, 0]], 2);
    assert_eq!(arr[&[0, 1]], 3);
}

#[test]
fn test_owned_and_view_repr() {
    let mut o = OwnedRepr::new(vec![4, 5, 6]);
    assert_eq!(o.len(), 3);
    o.as_mut_slice()[1] = 50;
    assert_eq!(o.as_slice(), &[4, 50, 6]);
    let c = o.clone();
    assert_eq!(c.into_vec(), vec![4, 50, 6]);
    let data = [1, 2];
    let v = ViewRepr::new(&data);
    assert_eq!(v.len(), 2);
    assert_eq!(v.clone().as_slice(), &[1, 2]);
}

#[test]
fn test_layoutref_col_major() {
    let strides = [1usize, 3];
    let r = LayoutRef::new(Layout::ColMajor, &strides);
    assert_eq!(r.layout(), Layout::ColMajor);
    assert_eq!(r.strides(), &[1, 3]);
}

#[test]
fn test_sum_is_elementwise() {
    let a = Array::from_shape_vec([2, 3], vec![1, 2, 3, 4, 5, 6]);
    let b = Array::from_shape_vec([2, 3], vec![10, 20, 30, 40, 50, 60]);
    let c = a.add_ref(&b);
    assert_eq!(c.shape(), &[2, 3]);
    assert_eq!(c.strides(), &[3, 1]);
    for i in 0..2 {
        for j in 0..3 {
            assert_eq!(c[&[i, j]], a[&[i, j]] + b[&[i, j]]);
        }
    }
}

#[test]
fn test_sum_commutes() {
    let a = Array::from_shape_vec([2, 2], vec![1, 2, 3, 4]);
    let b = Array::from_shape_vec([2, 2], vec![7, 5, 3, 1]);
    let c = a.add_ref(&b);
    let d = b.add_ref(&a);
    assert_eq!(c.shape(), d.shape());
    assert_eq!(c.strides(), d.strides());
    assert_eq!(c.layout(), d.layout());
    for i in 0..4 {
        assert_eq!(c.get_linear(i), d.get_linear(i));
    }
}

#[test]
fn test_view_reaches_whole_storage() {
    let mut arr = ArrayBase::new(
        OwnedRepr::new(vec![1, 2, 3, 4, 5, 6]),
        Dim::new([2]),
        vec![3],
        Layout::RowMajor,
    );
    assert_eq!(arr.view()[&[1]], 4);
    {
        let mut vm = arr.view_mut();
        *vm.get_mut(&[1]).unwrap() = 40;
    }
    assert_eq!(arr[&[1]], 40);
    assert_eq!(arr.get_linear(1), Some(&2));
}
