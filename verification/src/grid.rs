use vstd::prelude::*;

verus! {

/// The pairs `(x, y)` with `x` from `xs` and `y` from `ys`, the first component varying slowest.
pub open spec fn product2<A, B>(xs: Seq<A>, ys: Seq<B>) -> Seq<(A, B)>
    decreases xs.len(),
{
    if xs.len() == 0 {
        Seq::empty()
    } else {
        product2(xs.drop_last(), ys) + row(xs.last(), ys)
    }
}

/// The pairs `(x, y)` for every `y` of `ys`, in order.
pub open spec fn row<A, B>(x: A, ys: Seq<B>) -> Seq<(A, B)> {
    Seq::new(ys.len(), |j: int| (x, ys[j]))
}

/// The triples `(x, y, z)`, the first component varying slowest and the last fastest.
pub open spec fn product3<A, B, C>(xs: Seq<A>, ys: Seq<B>, zs: Seq<C>) -> Seq<(A, B, C)> {
    product2(product2(xs, ys), zs).map_values(|t: ((A, B), C)| (t.0.0, t.0.1, t.1))
}

proof fn lemma_mul_step(n: int, m: int)
    requires
        n >= 1,
        m >= 0,
    ensures
        (n - 1) * m + m == n * m,
        (n - 1) * m >= 0,
{
    assert((n - 1) * m + m == n * m) by (nonlinear_arith);
    assert((n - 1) * m >= 0) by (nonlinear_arith)
        requires
            n >= 1,
            m >= 0,
    ;
}

proof fn lemma_index_bounds(i: int, j: int, n: int, m: int)
    requires
        0 <= i < n,
        0 <= j < m,
    ensures
        0 <= i * m + j < n * m,
        i * m + j < (i + 1) * m,
        i * m <= i * m + j,
{
    assert(0 <= i * m) by (nonlinear_arith)
        requires
            0 <= i,
            0 <= m,
    ;
    assert((i + 1) * m == i * m + m) by (nonlinear_arith);
    assert((i + 1) * m <= n * m) by (nonlinear_arith)
        requires
            i + 1 <= n,
            0 <= m,
    ;
}

/// The length of the product is the product of the lengths, and the pair of the `i`th `x` with
/// the `j`th `y` stands at position `i * |ys| + j`.
pub proof fn lemma_product2<A, B>(xs: Seq<A>, ys: Seq<B>)
    ensures
        product2(xs, ys).len() == xs.len() * ys.len(),
        forall|i: int, j: int|
            0 <= i < xs.len() && 0 <= j < ys.len() ==> #[trigger] product2(xs, ys)[i * ys.len() + j]
                == (xs[i], ys[j]),
    decreases xs.len(),
{
    if xs.len() > 0 {
        let rest = xs.drop_last();
        lemma_product2(rest, ys);
        lemma_mul_step(xs.len() as int, ys.len() as int);
        let n = xs.len() as int;
        let m = ys.len() as int;
        assert forall|i: int, j: int| 0 <= i < n && 0 <= j < m implies #[trigger] product2(xs, ys)[i * m + j]
            == (xs[i], ys[j]) by {
            lemma_index_bounds(i, j, n, m);
            if i < n - 1 {
                lemma_index_bounds(i, j, n - 1, m);
                assert(rest[i] == xs[i]);
            } else {
                assert(i * m == (n - 1) * m);
            }
        }
    }
}

/// Every pair in the product comes from some `x` and some `y`.
pub proof fn lemma_product2_members<A, B>(xs: Seq<A>, ys: Seq<B>, k: int)
    requires
        0 <= k < product2(xs, ys).len(),
    ensures
        exists|i: int, j: int|
            0 <= i < xs.len() && 0 <= j < ys.len() && k == i * ys.len() + j && product2(xs, ys)[k]
                == (xs[i], ys[j]),
    decreases xs.len(),
{
    lemma_product2(xs, ys);
    let rest = xs.drop_last();
    lemma_product2(rest, ys);
    let m = ys.len() as int;
    if k < product2(rest, ys).len() {
        lemma_product2_members(rest, ys, k);
        let (i, j) = choose|i: int, j: int|
            0 <= i < rest.len() && 0 <= j < ys.len() && k == i * ys.len() + j && product2(rest, ys)[k]
                == (rest[i], ys[j]);
        assert(product2(xs, ys)[i * m + j] == (xs[i], ys[j]));
    } else {
        let i = xs.len() - 1;
        let j = k - product2(rest, ys).len();
        assert(product2(xs, ys)[i * m + j] == (xs[i], ys[j]));
    }
}

/// Pairs every element of `xs` with every element of `ys`, the first varying slowest.
pub fn cartesian_product<A: Copy, B: Copy>(xs: &Vec<A>, ys: &Vec<B>) -> (r: Vec<(A, B)>)
    ensures
        r@ == product2(xs@, ys@),
{
    let mut r: Vec<(A, B)> = Vec::new();
    let mut i: usize = 0;
    while i < xs.len()
        invariant
            i <= xs@.len(),
            r@ == product2(xs@.take(i as int), ys@),
        decreases xs@.len() - i,
    {
        let x = xs[i];
        let mut j: usize = 0;
        while j < ys.len()
            invariant
                i < xs@.len(),
                x == xs@[i as int],
                j <= ys@.len(),
                r@ == product2(xs@.take(i as int), ys@) + row(x, ys@.take(j as int)),
            decreases ys@.len() - j,
        {
            r.push((x, ys[j]));
            j = j + 1;
            assert(r@ =~= product2(xs@.take(i as int), ys@) + row(x, ys@.take(j as int)));
        }
        assert(ys@.take(j as int) =~= ys@);
        assert(xs@.take(i + 1).drop_last() =~= xs@.take(i as int));
        i = i + 1;
    }
    assert(xs@.take(i as int) =~= xs@);
    r
}

/// Every combination of one element from each of three lists, the first varying slowest.
pub fn cartesian_product3<A: Copy, B: Copy, C: Copy>(xs: &Vec<A>, ys: &Vec<B>, zs: &Vec<C>) -> (r: Vec<
    (A, B, C),
>)
    ensures
        r@ == product3(xs@, ys@, zs@),
{
    let pairs = cartesian_product(xs, ys);
    let nested = cartesian_product(&pairs, zs);
    let mut r: Vec<(A, B, C)> = Vec::new();
    let mut k: usize = 0;
    while k < nested.len()
        invariant
            k <= nested@.len(),
            nested@ == product2(product2(xs@, ys@), zs@),
            r@ == nested@.take(k as int).map_values(|t: ((A, B), C)| (t.0.0, t.0.1, t.1)),
        decreases nested@.len() - k,
    {
        let t = nested[k];
        r.push((t.0.0, t.0.1, t.1));
        k = k + 1;
        assert(r@ =~= nested@.take(k as int).map_values(|t: ((A, B), C)| (t.0.0, t.0.1, t.1)));
    }
    assert(nested@.take(k as int) =~= nested@);
    r
}

/// Each triple `(xs[i], ys[j], zs[k])` stands at position `(i * |ys| + j) * |zs| + k`, and there are
/// `|xs| * |ys| * |zs|` of them.
pub proof fn lemma_product3<A, B, C>(xs: Seq<A>, ys: Seq<B>, zs: Seq<C>)
    ensures
        product3(xs, ys, zs).len() == xs.len() * ys.len() * zs.len(),
        forall|i: int, j: int, k: int|
            0 <= i < xs.len() && 0 <= j < ys.len() && 0 <= k < zs.len() ==> #[trigger] product3(
                xs,
                ys,
                zs,
            )[(i * ys.len() + j) * zs.len() + k] == (xs[i], ys[j], zs[k]),
{
    lemma_product2(xs, ys);
    lemma_product2(product2(xs, ys), zs);
    assert forall|i: int, j: int, k: int|
        0 <= i < xs.len() && 0 <= j < ys.len() && 0 <= k < zs.len() implies #[trigger] product3(
            xs,
            ys,
            zs,
        )[(i * ys.len() + j) * zs.len() + k] == (xs[i], ys[j], zs[k]) by {
        lemma_index_bounds(i, j, xs.len() as int, ys.len() as int);
        lemma_index_bounds(i * ys.len() + j, k, (xs.len() * ys.len()) as int, zs.len() as int);
    }
}

} // verus!
