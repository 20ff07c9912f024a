# xndarray

N-dimensional arrays over contiguous storage, verified with Verus.

- `src/math.rs`: the mathematical model (axis products, row-major strides,
  linear positions, offsets, mixed-radix digits) and the lemmas about it.
- `src/dimension.rs`: the `Dimension` trait with `Dim<N>` and `IxDyn`,
  including `size`, `to_multi_index` and `to_linear`.
- `src/layout.rs`: `Layout` and `LayoutRef`.
- `src/repr.rs`: storage (`Data`, `DataMut`, `OwnedRepr`, `ViewRepr`, `ViewMutRepr`).
- `src/array.rs`: `ArrayBase` with checked access, views, indexing, constructors
  and `into_shape`.
- `src/ops.rs`: element-wise addition and the `Add` impls.
- `src/laws.rs`: properties relating several operations, stated and proved.

`ArrayBase` implements `Index<&[usize]>` but not `IndexMut`: vstd gives
`IndexMut::index_mut` no specification, and an impl of a std trait method cannot
add a precondition, so an `index_mut` that must fail outside the shape cannot be
verified. `get_mut` is the checked way to write an element.
