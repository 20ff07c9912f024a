use xndarray::{Array, Dim, IxDyn, Layout, LayoutRef};

#[test]
fn test_1d_array() {
    let arr = Array::from_vec(vec![10, 20, 30, 40]);
    assert_eq!(arr.shape(), &[4]);
    assert_eq!(arr[&[0]], 10);
    assert_eq!(arr[&[2]], 30);
}

#[test]
fn test_2d_array() {
    let arr = Array::from_shape_vec([2, 3], vec![1, 2, 3, 4, 5, 6]);
    assert_eq!(arr.shape(), &[2, 3]);
    assert_eq!(arr[&[1, 2]], 6);
}

#[test]
fn test_view() {
    let mut arr = Array::from_shape_vec([2, 2], vec![1, 2, 3, 4]);
    let view = arr.view();
    assert_eq!(view[&[1, 1]], 4);
    let mut view_mut = arr.view_mut();
    *view_mut.get_mut(&[1, 0]).unwrap() = 99;
    assert_eq!(arr[&[1, 0]], 99);
}

#[test]
fn test_layoutref() {
    let arr = Array::from_shape_vec([2, 2], vec![1, 2, 3, 4]);
    let layout_ref = LayoutRef::new(arr.layout(), arr.strides());
    assert_eq!(layout_ref.layout(), Layout::RowMajor);
    assert_eq!(layout_ref.strides(), &[2, 1]);
}

#[test]
fn test_add() {
    let a = Array::from_shape_vec([2, 2], vec![1, 2, 3, 4]);
    let b = Array::from_shape_vec([2, 2], vec![10, 20, 30, 40]);

    let c1 = &a + &b;
    let c2 = a.clone() + &b;
    let c3 = &a + b.clone();
    let c4 = a.clone() + b.clone();

    for c in [c1, c2, c3, c4] {
        assert_eq!(c[&[0, 0]], 11);
        assert_eq!(c[&[1, 1]], 44);
    }
}

#[test]
fn test_reshape() {
    let arr = Array::from_vec(vec![1, 2, 3, 4, 5, 6]);
    let reshaped = arr.into_shape(Dim::new([2, 3])).unwrap();
    assert_eq!(reshaped.shape(), &[2, 3]);
    assert_eq!(reshaped[&[1, 2]], 6);

    let arr2 = Array::from_shape_vec([2, 3], vec![1, 2, 3, 4, 5, 6]);
    let flat = arr2.into_shape(Dim::new([6])).unwrap();
    assert_eq!(flat[&[5]], 6);
}

#[test]
fn test_reshape_error() {
    let arr = Array::from_vec(vec![1, 2, 3, 4]);
    let result = arr.into_shape(Dim::new([3, 2]));
    assert!(result.is_err());
}

#[test]
fn test_from_elem() {
    let arr = Array::from_elem([2, 3], 5);
    assert_eq!(arr[&[1, 2]], 5);
}

#[test]
fn test_dyn_reshape_and_add() {
    let a = Array::from_shape_vec([2, 2], vec![1, 2, 3, 4]);
    let a_dyn = a.into_shape(IxDyn::new(vec![4])).unwrap();
    let b_dyn = Array::from_vec(vec![5, 6, 7, 8])
        .into_shape(IxDyn::new(vec![4]))
        .unwrap();
    let c = &a_dyn + &b_dyn;
    assert_eq!(c.shape(), &[4]);
    assert_eq!(c[&[0]], 6);
    assert_eq!(c[&[3]], 12);
}
