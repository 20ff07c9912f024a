use vstd::prelude::*;
use vstd::arithmetic::div_mod::*;
use vstd::arithmetic::mul::*;

verus! {

/// Product of all entries of `s` (the number of elements of an array of shape `s`).
pub open spec fn product(s: Seq<usize>) -> nat
    decreases s.len(),
{
    if s.len() == 0 {
        1
    } else {
        product(s.drop_last()) * (s.last() as nat)
    }
}

/// Every product of a leading run of `s` fits in a `usize`.
pub open spec fn prefix_products_fit(s: Seq<usize>) -> bool {
    forall|k: int| 0 <= k <= s.len() ==> #[trigger] product(s.take(k)) <= usize::MAX
}

/// Every product of a trailing run of `s` fits in a `usize`.
pub open spec fn suffix_products_fit(s: Seq<usize>) -> bool {
    forall|k: int| 0 <= k <= s.len() ==> #[trigger] product(s.skip(k)) <= usize::MAX
}

/// No axis of `s` has length zero.
pub open spec fn all_positive(s: Seq<usize>) -> bool {
    forall|i: int| 0 <= i < s.len() ==> #[trigger] s[i] > 0
}

/// Row-major stride of axis `i`: the product of the lengths of the later axes.
pub open spec fn row_major_stride(shape: Seq<usize>, i: int) -> nat {
    product(shape.skip(i + 1))
}

/// `strides` are the row-major strides of `shape`.
pub open spec fn is_row_major(shape: Seq<usize>, strides: Seq<usize>) -> bool {
    &&& strides.len() == shape.len()
    &&& forall|i: int| 0 <= i < shape.len() ==> #[trigger] strides[i] == row_major_stride(shape, i)
}

/// `sum_{k <= i < shape.len()} idx[i] * row_major_stride(shape, i)`.
pub open spec fn linear_from(shape: Seq<usize>, idx: Seq<usize>, k: int) -> nat
    decreases shape.len() - k,
{
    if 0 <= k < shape.len() {
        (idx[k] as nat) * row_major_stride(shape, k) + linear_from(shape, idx, k + 1)
    } else {
        0
    }
}

/// Row-major linear position of the multi-index `idx` in an array of shape `shape`.
pub open spec fn linear_index(shape: Seq<usize>, idx: Seq<usize>) -> nat {
    linear_from(shape, idx, 0)
}

/// `sum_{k <= i < m} a[i] * b[i]`.
pub open spec fn dot_from(a: Seq<usize>, b: Seq<usize>, k: int, m: int) -> nat
    decreases m - k,
{
    if 0 <= k < m {
        (a[k] as nat) * (b[k] as nat) + dot_from(a, b, k + 1, m)
    } else {
        0
    }
}

/// Memory offset of `idx` under `strides`, over the axes both of them have.
pub open spec fn offset(idx: Seq<usize>, strides: Seq<usize>) -> nat {
    dot_from(idx, strides, 0, if idx.len() <= strides.len() { idx.len() as int } else { strides.len() as int })
}

/// Every component of `idx` that has an axis in `shape` lies below that axis' length.
pub open spec fn within_shape(idx: Seq<usize>, shape: Seq<usize>) -> bool {
    forall|i: int| 0 <= i < idx.len() && i < shape.len() ==> #[trigger] idx[i] < shape[i]
}

/// Digit of axis `i` in the mixed-radix expansion of `linear` over `shape`.
pub open spec fn digit(shape: Seq<usize>, linear: nat, i: int) -> nat {
    (linear / row_major_stride(shape, i)) % (shape[i] as nat)
}

/// The digits of `linear` over `shape`, listed from the last axis to the first.
pub open spec fn reversed_digits(shape: Seq<usize>, linear: nat) -> Seq<usize> {
    Seq::new(shape.len(), |j: int| digit(shape, linear, shape.len() - 1 - j) as usize)
}

// ---------------------------------------------------------------------------
// products
// ---------------------------------------------------------------------------

pub proof fn lemma_product_singleton(x: usize)
    ensures
        product(seq![x]) == x as nat,
{
    assert(seq![x].drop_last() =~= Seq::<usize>::empty());
    assert(seq![x].last() == x);
    assert(product(Seq::<usize>::empty()) == 1);
    assert(1 * (x as nat) == x as nat);
}

pub proof fn lemma_product_concat(a: Seq<usize>, b: Seq<usize>)
    ensures
        product(a + b) == product(a) * product(b),
    decreases b.len(),
{
    if b.len() == 0 {
        assert(a + b =~= a);
        assert(product(b) == 1);
        assert(product(a) * 1 == product(a));
    } else {
        let b0 = b.drop_last();
        lemma_product_concat(a, b0);
        assert((a + b).drop_last() =~= a + b0);
        assert((a + b).last() == b.last());
        assert(product(a + b) == product(a + b0) * (b.last() as nat));
        assert(product(b) == product(b0) * (b.last() as nat));
        lemma_mul_is_associative(product(a) as int, product(b0) as int, b.last() as int);
    }
}

pub proof fn lemma_product_take_step(s: Seq<usize>, k: int)
    requires
        0 <= k < s.len(),
    ensures
        product(s.take(k + 1)) == product(s.take(k)) * (s[k] as nat),
{
    assert(s.take(k + 1).drop_last() =~= s.take(k));
}

pub proof fn lemma_product_skip_step(s: Seq<usize>, k: int)
    requires
        0 <= k < s.len(),
    ensures
        product(s.skip(k)) == (s[k] as nat) * product(s.skip(k + 1)),
{
    let one = seq![s[k]];
    assert(one + s.skip(k + 1) =~= s.skip(k));
    lemma_product_concat(one, s.skip(k + 1));
    assert(one.drop_last() =~= Seq::<usize>::empty());
    assert(product(one.drop_last()) == 1);
    assert(product(one) == 1 * (s[k] as nat));
}

pub proof fn lemma_product_positive(s: Seq<usize>)
    requires
        all_positive(s),
    ensures
        product(s) > 0,
    decreases s.len(),
{
    if s.len() > 0 {
        let t = s.drop_last();
        assert(all_positive(t)) by {
            assert forall|i: int| 0 <= i < t.len() implies #[trigger] t[i] > 0 by {
                assert(t[i] == s[i]);
            }
        }
        lemma_product_positive(t);
        lemma_mul_strictly_positive(product(t) as int, s.last() as int);
    }
}

pub proof fn lemma_skip_all_positive(s: Seq<usize>, k: int)
    requires
        all_positive(s),
        0 <= k <= s.len(),
    ensures
        all_positive(s.skip(k)),
        product(s.skip(k)) > 0,
{
    assert forall|i: int| 0 <= i < s.skip(k).len() implies #[trigger] s.skip(k)[i] > 0 by {
        assert(s.skip(k)[i] == s[i + k]);
    }
    lemma_product_positive(s.skip(k));
}

// ---------------------------------------------------------------------------
// linear positions and digits
// ---------------------------------------------------------------------------

/// The digits of `linear` over `shape`, from the first axis to the last.
pub open spec fn digits(shape: Seq<usize>, linear: nat) -> Seq<usize> {
    Seq::new(shape.len(), |i: int| digit(shape, linear, i) as usize)
}

pub proof fn lemma_reversed_digits(shape: Seq<usize>, linear: nat)
    ensures
        reversed_digits(shape, linear).reverse() =~= digits(shape, linear),
        digits(shape, linear).reverse() =~= reversed_digits(shape, linear),
{
}

/// A multi-index inside `shape` lands strictly before `product(shape.skip(k))`.
pub proof fn lemma_linear_from_bound(shape: Seq<usize>, idx: Seq<usize>, k: int)
    requires
        idx.len() >= shape.len(),
        within_shape(idx, shape),
        0 <= k <= shape.len(),
    ensures
        linear_from(shape, idx, k) < product(shape.skip(k)),
    decreases shape.len() - k,
{
    if k == shape.len() {
        assert(shape.skip(k) =~= Seq::<usize>::empty());
    } else {
        lemma_linear_from_bound(shape, idx, k + 1);
        lemma_product_skip_step(shape, k);
        let p = row_major_stride(shape, k);
        let x = idx[k] as int;
        let s = shape[k] as int;
        let rest = linear_from(shape, idx, k + 1) as int;
        assert(x < s);
        assert(x * p + rest < s * p) by (nonlinear_arith)
            requires
                x < s,
                0 <= x,
                0 <= rest < p,
        ;
    }
}

/// The trailing sums of a linear position never grow as more axes are dropped.
pub proof fn lemma_linear_from_mono(shape: Seq<usize>, idx: Seq<usize>, j: int, k: int)
    requires
        0 <= j <= k,
    ensures
        linear_from(shape, idx, k) <= linear_from(shape, idx, j),
    decreases k - j,
{
    if j < k {
        lemma_linear_from_mono(shape, idx, j + 1, k);
    }
}

/// A multi-index inside `shape` has a linear position below `product(shape)`.
pub proof fn lemma_linear_index_bound(shape: Seq<usize>, idx: Seq<usize>)
    requires
        idx.len() >= shape.len(),
        within_shape(idx, shape),
    ensures
        linear_index(shape, idx) < product(shape),
{
    lemma_linear_from_bound(shape, idx, 0);
    assert(shape.skip(0) =~= shape);
}

/// The trailing digits of `linear` rebuild `linear % product(shape.skip(k))`.
pub proof fn lemma_digits_rebuild(shape: Seq<usize>, linear: nat, k: int)
    requires
        all_positive(shape),
        0 <= k <= shape.len(),
    ensures
        linear_from(shape, digits(shape, linear), k) == linear % product(shape.skip(k)),
    decreases shape.len() - k,
{
    let d = digits(shape, linear);
    if k == shape.len() {
        assert(shape.skip(k) =~= Seq::<usize>::empty());
        assert(linear % 1 == 0);
    } else {
        lemma_digits_rebuild(shape, linear, k + 1);
        lemma_product_skip_step(shape, k);
        lemma_skip_all_positive(shape, k + 1);
        let p = row_major_stride(shape, k) as int;
        let s = shape[k] as int;
        assert(s > 0);
        lemma_mod_breakdown(linear as int, p, s);
        lemma_mod_bound(linear as int / p, s);
        assert(d[k] as nat == digit(shape, linear, k));
        lemma_mul_is_commutative(p, s);
        lemma_mul_is_commutative(p, (linear as int / p) % s);
    }
}

/// Reading the digits of `linear` back as a row-major multi-index gives `linear`.
pub proof fn lemma_digits_linear_index(shape: Seq<usize>, linear: nat)
    requires
        all_positive(shape),
        linear < product(shape),
    ensures
        linear_index(shape, digits(shape, linear)) == linear,
{
    lemma_digits_rebuild(shape, linear, 0);
    assert(shape.skip(0) =~= shape);
    lemma_small_mod(linear, product(shape));
}

/// For a multi-index inside `shape`, the linear position modulo a trailing product
/// is the part contributed by the trailing axes.
pub proof fn lemma_linear_index_mod(shape: Seq<usize>, idx: Seq<usize>, k: int)
    requires
        all_positive(shape),
        idx.len() >= shape.len(),
        within_shape(idx, shape),
        0 <= k <= shape.len(),
    ensures
        linear_index(shape, idx) % product(shape.skip(k)) == linear_from(shape, idx, k),
    decreases k,
{
    let l = linear_index(shape, idx) as int;
    if k == 0 {
        lemma_linear_index_bound(shape, idx);
        assert(shape.skip(0) =~= shape);
        lemma_small_mod(l as nat, product(shape));
    } else {
        lemma_linear_index_mod(shape, idx, k - 1);
        lemma_product_skip_step(shape, k - 1);
        lemma_skip_all_positive(shape, k);
        let p = product(shape.skip(k)) as int;
        let s = shape[k - 1] as int;
        lemma_mul_is_commutative(s, p);
        lemma_mod_mod(l, p, s);
        lemma_linear_from_bound(shape, idx, k);
        lemma_fundamental_div_mod_converse(
            linear_from(shape, idx, k - 1) as int,
            p,
            idx[k - 1] as int,
            linear_from(shape, idx, k) as int,
        );
    }
}

/// The digits of the linear position of a multi-index inside `shape` are that multi-index.
pub proof fn lemma_linear_index_digits(shape: Seq<usize>, idx: Seq<usize>)
    requires
        all_positive(shape),
        idx.len() == shape.len(),
        within_shape(idx, shape),
    ensures
        digits(shape, linear_index(shape, idx)) =~= idx,
{
    let l = linear_index(shape, idx);
    assert forall|i: int| 0 <= i < shape.len() implies #[trigger] digits(shape, l)[i] == idx[i] by {
        lemma_linear_index_mod(shape, idx, i);
        lemma_linear_index_mod(shape, idx, i + 1);
        lemma_product_skip_step(shape, i);
        lemma_skip_all_positive(shape, i + 1);
        let p = row_major_stride(shape, i) as int;
        let s = shape[i] as int;
        lemma_mod_breakdown(l as int, p, s);
        lemma_mul_is_commutative(p, s);
        // l % (p * s) == p * digit + l % p, and l % (p * s) == idx[i] * p + l % p
        let dg = (l as int / p) % s;
        assert(p * dg == idx[i] * p);
        lemma_mul_is_commutative(p, dg);
        lemma_mul_equality_converse(p, dg, idx[i] as int);
        lemma_mod_bound(l as int / p, s);
    }
}

} // verus!
