//! The mathematical model of a morphological reduction: the left fold of a
//! pointwise operator over a window of taps. Every filter contract states
//! its output elements through these functions, and the lemmas here justify
//! the work-sharing and traversal-order choices the filters make.

use vstd::prelude::*;

use crate::geometry::Point;
use crate::ops::MorphOperator;

verus! {

/// The left fold of the operator over a non-empty sequence of values.
pub open spec fn reduce_vals<T, Op: MorphOperator<T>>(vals: Seq<T>) -> T
    recommends
        vals.len() >= 1,
    decreases vals.len(),
{
    if vals.len() <= 1 {
        vals[0]
    } else {
        Op::apply_spec(reduce_vals::<T, Op>(vals.drop_last()), vals.last())
    }
}

/// The horizontal reduction at element index `i`: `k` taps spaced `ch`
/// elements apart, so each tap addresses the same channel of `k`
/// consecutive pixels.
pub open spec fn reduce_row<T, Op: MorphOperator<T>>(src: Seq<T>, i: int, ch: int, k: int) -> T
    recommends
        k >= 1,
{
    reduce_vals::<T, Op>(Seq::new(k as nat, |j: int| src[i + j * ch]))
}

/// The vertical reduction at column `x`: `k` taps drawn from consecutive
/// rows starting at row `y`.
pub open spec fn reduce_col<T, Op: MorphOperator<T>>(rows: Seq<Seq<T>>, y: int, x: int, k: int) -> T
    recommends
        k >= 1,
{
    reduce_vals::<T, Op>(Seq::new(k as nat, |j: int| rows[y + j][x]))
}

/// The general 2-D reduction at output row `y`, element index `i`: the fold
/// over an explicit tap-coordinate list, each tap addressing row `y + p.y`
/// at element index `p.x * ch + i`.
pub open spec fn reduce_taps<T, Op: MorphOperator<T>>(
    rows: Seq<Seq<T>>,
    taps: Seq<Point>,
    y: int,
    i: int,
    ch: int,
) -> T
    recommends
        taps.len() >= 1,
{
    reduce_vals::<T, Op>(taps.map_values(|p: Point| rows[y + p.y][p.x * ch + i]))
}

/// Appending one value to a non-empty fold combines it on the right.
pub proof fn lemma_reduce_vals_push<T, Op: MorphOperator<T>>(vals: Seq<T>, v: T)
    requires
        vals.len() >= 1,
    ensures
        reduce_vals::<T, Op>(vals.push(v)) == Op::apply_spec(reduce_vals::<T, Op>(vals), v),
{
    assert(vals.push(v).drop_last() =~= vals);
    assert(vals.push(v).last() == v);
}

/// The first value of a non-empty fold can be split off and combined last:
/// commutativity and associativity let the fold absorb its head on either
/// side.
pub proof fn lemma_reduce_vals_first<T, Op: MorphOperator<T>>(vals: Seq<T>)
    requires
        vals.len() >= 2,
    ensures
        Op::apply_spec(reduce_vals::<T, Op>(vals.drop_first()), vals[0]) == reduce_vals::<T, Op>(vals),
    decreases vals.len(),
{
    let d = vals.drop_first();
    if vals.len() == 2 {
        assert(d =~= seq![vals[1]]);
        assert(reduce_vals::<T, Op>(d) == vals[1]);
        Op::apply_commutes(vals[1], vals[0]);
        assert(vals.drop_last() =~= seq![vals[0]]);
        assert(reduce_vals::<T, Op>(vals.drop_last()) == vals[0]);
        assert(reduce_vals::<T, Op>(vals) == Op::apply_spec(vals[0], vals[1]));
    } else {
        let v0 = vals[0];
        let last = vals.last();
        let dl = vals.drop_last();
        let ddl = d.drop_last();
        let r = reduce_vals::<T, Op>(ddl);
        assert(ddl =~= dl.drop_first());
        assert(d.last() == last);
        assert(dl[0] == v0);
        assert(reduce_vals::<T, Op>(d) == Op::apply_spec(r, last));
        Op::apply_associates(r, last, v0);
        Op::apply_commutes(last, v0);
        Op::apply_associates(r, v0, last);
        assert(Op::apply_spec(reduce_vals::<T, Op>(d), v0) == Op::apply_spec(
            Op::apply_spec(r, v0),
            last,
        ));
        lemma_reduce_vals_first::<T, Op>(dl);
        assert(Op::apply_spec(r, v0) == reduce_vals::<T, Op>(dl));
        assert(reduce_vals::<T, Op>(vals) == Op::apply_spec(reduce_vals::<T, Op>(dl), last));
    }
}

/// Folding a concatenation equals combining the folds of the parts.
pub proof fn lemma_reduce_vals_concat<T, Op: MorphOperator<T>>(a: Seq<T>, b: Seq<T>)
    requires
        a.len() >= 1,
        b.len() >= 1,
    ensures
        reduce_vals::<T, Op>(a + b) == Op::apply_spec(reduce_vals::<T, Op>(a), reduce_vals::<T, Op>(b)),
    decreases b.len(),
{
    if b.len() == 1 {
        assert((a + b).drop_last() =~= a);
        assert((a + b).last() == b[0]);
        assert(b.len() <= 1);
    } else {
        assert((a + b).drop_last() =~= a + b.drop_last());
        lemma_reduce_vals_concat::<T, Op>(a, b.drop_last());
        Op::apply_associates(
            reduce_vals::<T, Op>(a),
            reduce_vals::<T, Op>(b.drop_last()),
            b.last(),
        );
        assert((a + b).last() == b.last());
    }
}

/// One more tap extends a horizontal reduction on the right.
pub proof fn lemma_reduce_row_step<T, Op: MorphOperator<T>>(src: Seq<T>, i: int, ch: int, k: int)
    requires
        k >= 1,
    ensures
        reduce_row::<T, Op>(src, i, ch, k + 1) == Op::apply_spec(
            reduce_row::<T, Op>(src, i, ch, k),
            src[i + k * ch],
        ),
{
    let f = |j: int| src[i + j * ch];
    assert(Seq::new((k + 1) as nat, f) =~= Seq::new(k as nat, f).push(src[i + k * ch]));
    lemma_reduce_vals_push::<T, Op>(Seq::new(k as nat, f), src[i + k * ch]);
}

/// A horizontal reduction of `k` taps at `i` equals the reduction of the
/// trailing `k - 1` taps (those starting at `i + ch`) combined with the tap
/// at `i` itself. This is what lets two adjacent outputs share the interior
/// partial reduction.
pub proof fn lemma_reduce_row_shift<T, Op: MorphOperator<T>>(src: Seq<T>, i: int, ch: int, k: int)
    requires
        k >= 2,
    ensures
        Op::apply_spec(reduce_row::<T, Op>(src, i + ch, ch, k - 1), src[i]) == reduce_row::<T, Op>(
            src,
            i,
            ch,
            k,
        ),
{
    let f = |j: int| src[i + j * ch];
    let v = Seq::new(k as nat, f);
    assert(v.drop_first() =~= Seq::new((k - 1) as nat, |j: int| src[i + ch + j * ch])) by {
        assert forall|j: int| 0 <= j < k - 1 implies v.drop_first()[j] == src[i + ch + j * ch] by {
            assert((j + 1) * ch == j * ch + ch) by (nonlinear_arith);
        }
    }
    lemma_reduce_vals_first::<T, Op>(v);
    assert(v[0] == src[i]);
}

/// The element at column `x` of output band `y` in a flat destination
/// buffer whose bands start `dst_step` elements apart.
pub open spec fn elem_at<T>(s: Seq<T>, y: int, dst_step: int, x: int) -> T {
    s[y * dst_step + x]
}

/// Every row of `rows` holds at least `n` elements.
pub open spec fn rows_at_least<T>(rows: Seq<Seq<T>>, n: int) -> bool {
    forall|r: int| 0 <= r < rows.len() ==> #[trigger] rows[r].len() >= n
}

/// The rows of a buffer of row vectors, as mathematical sequences.
pub open spec fn rows_view<T>(rows: Seq<Vec<T>>) -> Seq<Seq<T>> {
    Seq::new(rows.len(), |i: int| rows[i]@)
}

/// With a single tap, the vertical reduction is the element itself.
pub proof fn lemma_reduce_col_identity<T, Op: MorphOperator<T>>(rows: Seq<Seq<T>>, y: int, x: int)
    ensures
        reduce_col::<T, Op>(rows, y, x, 1) == rows[y][x],
{
    assert(Seq::new(1nat, |j: int| rows[y + j][x])[0] == rows[y][x]);
}

/// One more tap extends a vertical reduction on the right.
pub proof fn lemma_reduce_col_step<T, Op: MorphOperator<T>>(
    rows: Seq<Seq<T>>,
    y: int,
    x: int,
    k: int,
)
    requires
        k >= 1,
    ensures
        reduce_col::<T, Op>(rows, y, x, k + 1) == Op::apply_spec(
            reduce_col::<T, Op>(rows, y, x, k),
            rows[y + k][x],
        ),
{
    let f = |j: int| rows[y + j][x];
    assert(Seq::new((k + 1) as nat, f) =~= Seq::new(k as nat, f).push(rows[y + k][x]));
    lemma_reduce_vals_push::<T, Op>(Seq::new(k as nat, f), rows[y + k][x]);
}

/// A vertical reduction of `k` rows at `y` equals the reduction of the
/// `k - 1` rows below it combined with row `y` itself: the pairs-of-rows
/// sharing step of the column filter.
pub proof fn lemma_reduce_col_shift<T, Op: MorphOperator<T>>(
    rows: Seq<Seq<T>>,
    y: int,
    x: int,
    k: int,
)
    requires
        k >= 2,
    ensures
        Op::apply_spec(reduce_col::<T, Op>(rows, y + 1, x, k - 1), rows[y][x]) == reduce_col::<
            T,
            Op,
        >(rows, y, x, k),
{
    let f = |j: int| rows[y + j][x];
    let v = Seq::new(k as nat, f);
    assert(v.drop_first() =~= Seq::new((k - 1) as nat, |j: int| rows[y + 1 + j][x]));
    lemma_reduce_vals_first::<T, Op>(v);
    assert(v[0] == rows[y][x]);
}

/// With a single tap per window, the horizontal reduction is the element
/// itself: a kernel of one tap makes the row filter the identity.
pub proof fn lemma_reduce_row_identity<T, Op: MorphOperator<T>>(src: Seq<T>, i: int, ch: int)
    ensures
        reduce_row::<T, Op>(src, i, ch, 1) == src[i],
{
    assert(Seq::new(1nat, |j: int| src[i + j * ch])[0] == src[i]);
}

/// The degenerate structuring element: a single tap at the origin reduces
/// to the source element itself, so filtering with it is the identity.
pub proof fn lemma_reduce_taps_origin<T, Op: MorphOperator<T>>(
    rows: Seq<Seq<T>>,
    y: int,
    i: int,
    ch: int,
)
    ensures
        reduce_taps::<T, Op>(rows, seq![Point { x: 0, y: 0 }], y, i, ch) == rows[y][i],
{
    let taps = seq![Point { x: 0, y: 0 }];
    let m = taps.map_values(|p: Point| rows[y + p.y][p.x * ch + i]);
    assert(taps[0] == Point { x: 0, y: 0 });
    assert(m.len() == 1);
    assert(m[0] == rows[y + 0][0 * ch + i]);
    assert(y + 0 == y && 0 * ch + i == i);
}

} // verus!
