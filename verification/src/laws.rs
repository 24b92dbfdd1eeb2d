//! Properties that relate the filters to one another: a one-tap kernel is
//! the identity, an all-inactive structuring element degenerates to the
//! origin tap and filters as the identity, and a full (separable) element
//! applied by the generic filter equals the row filter followed by the
//! column filter.

use vstd::prelude::*;

use vstd::arithmetic::mul::lemma_mul_inequality;
use vstd::arithmetic::mul::lemma_mul_is_commutative;
use vstd::arithmetic::mul::lemma_mul_is_distributive_add_other_way;

use crate::filter2d::kernel_coords;
use crate::filter2d::mask_actives;
use crate::filter2d::row_prefix;
use crate::geometry::Point;
use crate::ops::MorphOperator;
use crate::reduce::lemma_reduce_col_identity;
use crate::reduce::lemma_reduce_col_step;
use crate::reduce::lemma_reduce_row_identity;
use crate::reduce::lemma_reduce_taps_origin;
use crate::reduce::lemma_reduce_vals_concat;
use crate::reduce::reduce_col;
use crate::reduce::reduce_row;
use crate::reduce::reduce_taps;
use crate::reduce::reduce_vals;

verus! {

/// A row filter with a single tap per window leaves every element of the
/// row unchanged: filtering with `ksize == 1` is the identity.
pub proof fn lemma_row_filter_identity<T, Op: MorphOperator<T>>(src: Seq<T>, ch: int, w: int)
    ensures
        forall|i: int| 0 <= i < w ==> #[trigger] reduce_row::<T, Op>(src, i, ch, 1) == src[i],
{
    assert forall|i: int| 0 <= i < w implies #[trigger] reduce_row::<T, Op>(src, i, ch, 1)
        == src[i] by {
        lemma_reduce_row_identity::<T, Op>(src, i, ch);
    }
}

/// A row of an all-inactive mask contributes no taps.
proof fn lemma_all_false_row(mask: Seq<bool>, w: int, y: int, x: int)
    requires
        0 <= x <= w,
        0 <= y,
        (y + 1) * w <= mask.len(),
        forall|c: int| 0 <= c < mask.len() ==> !mask[c],
    ensures
        row_prefix(mask, w, y, x) == Seq::<Point>::empty(),
    decreases x,
{
    if x > 0 {
        lemma_all_false_row(mask, w, y, x - 1);
        lemma_mul_is_distributive_add_other_way(w, y, 1int);
        assert(y * w + (x - 1) < (y + 1) * w);
        assert(!mask[y * w + (x - 1)]);
        assert(row_prefix(mask, w, y, x) =~= Seq::<Point>::empty());
    }
}

/// An all-inactive mask has no active coordinates at all.
proof fn lemma_all_false_actives(mask: Seq<bool>, w: int, h: int)
    requires
        w >= 0,
        h >= 0,
        h * w <= mask.len(),
        forall|c: int| 0 <= c < mask.len() ==> !mask[c],
    ensures
        mask_actives(mask, w, h) == Seq::<Point>::empty(),
    decreases h,
{
    if h > 0 {
        lemma_mul_inequality(h - 1, h, w);
        lemma_mul_inequality(h - 1 + 1, h, w);
        lemma_all_false_actives(mask, w, h - 1);
        lemma_all_false_row(mask, w, h - 1, w);
        assert(mask_actives(mask, w, h) =~= Seq::<Point>::empty());
    }
}

/// An all-inactive structuring element yields the tap list holding exactly
/// the origin, and the reduction over that list is the source element
/// itself: filtering with it is the identity.
pub proof fn lemma_degenerate_kernel<T, Op: MorphOperator<T>>(
    mask: Seq<bool>,
    w: int,
    h: int,
    rows: Seq<Seq<T>>,
    y: int,
    i: int,
    ch: int,
)
    requires
        w >= 0,
        h >= 0,
        mask.len() >= h * w,
        forall|c: int| 0 <= c < mask.len() ==> !mask[c],
    ensures
        kernel_coords(mask, w, h) == seq![Point { x: 0, y: 0 }],
        reduce_taps::<T, Op>(rows, kernel_coords(mask, w, h), y, i, ch) == rows[y][i],
{
    lemma_all_false_actives(mask, w, h);
    lemma_reduce_taps_origin::<T, Op>(rows, y, i, ch);
}

/// A row of an all-active mask contributes every column, left to right.
proof fn lemma_full_row(mask: Seq<bool>, w: int, y: int, x: int)
    requires
        0 <= x <= w,
        0 <= y,
        (y + 1) * w <= mask.len(),
        forall|c: int| 0 <= c < mask.len() ==> mask[c],
    ensures
        row_prefix(mask, w, y, x) =~= Seq::new(x as nat, |t: int| Point { x: t as usize, y: y as usize }),
    decreases x,
{
    if x > 0 {
        lemma_full_row(mask, w, y, x - 1);
        lemma_mul_is_distributive_add_other_way(w, y, 1int);
        assert(y * w + (x - 1) < (y + 1) * w);
        assert(mask[y * w + (x - 1)]);
    }
}

/// For a fully active `kw` by `k` mask, the row-major tap reduction equals
/// the vertical reduction over horizontally pre-reduced rows.
proof fn lemma_separable_inner<T, Op: MorphOperator<T>>(
    mask: Seq<bool>,
    kw: int,
    k: int,
    rows: Seq<Seq<T>>,
    tmp: Seq<Seq<T>>,
    y: int,
    i: int,
    ch: int,
)
    requires
        kw >= 1,
        kw <= usize::MAX,
        1 <= k <= usize::MAX,
        k * kw <= mask.len(),
        forall|c: int| 0 <= c < mask.len() ==> mask[c],
        0 <= y,
        forall|r: int|
            y <= r < y + k ==> #[trigger] tmp[r][i] == reduce_row::<T, Op>(rows[r], i, ch, kw),
    ensures
        mask_actives(mask, kw, k).len() >= 1,
        reduce_vals::<T, Op>(
            mask_actives(mask, kw, k).map_values(|p: Point| rows[y + p.y][p.x * ch + i]),
        ) == reduce_col::<T, Op>(tmp, y, i, k),
    decreases k,
{
    let f = |p: Point| rows[y + p.y][p.x * ch + i];
    let rrow = row_prefix(mask, kw, k - 1, kw);
    lemma_mul_inequality(k - 1 + 1, k, kw);
    lemma_full_row(mask, kw, k - 1, kw);
    let rvals = rrow.map_values(f);
    assert(rvals =~= Seq::new(kw as nat, |t: int| rows[y + k - 1][i + t * ch])) by {
        assert forall|t: int| 0 <= t < kw implies rvals[t] == rows[y + k - 1][i + t * ch] by {
            assert(rrow[t] == Point { x: t as usize, y: (k - 1) as usize });
        }
    }
    assert(reduce_vals::<T, Op>(rvals) == reduce_row::<T, Op>(rows[y + k - 1], i, ch, kw));
    assert(tmp[y + k - 1][i] == reduce_row::<T, Op>(rows[y + k - 1], i, ch, kw));
    if k == 1 {
        assert(mask_actives(mask, kw, 0) =~= Seq::<Point>::empty());
        assert(mask_actives(mask, kw, 1) =~= rrow);
        assert(mask_actives(mask, kw, 1).map_values(f) =~= rvals);
        lemma_reduce_col_identity::<T, Op>(tmp, y, i);
    } else {
        lemma_mul_inequality(k - 1, k, kw);
        lemma_separable_inner::<T, Op>(mask, kw, k - 1, rows, tmp, y, i, ch);
        let a = mask_actives(mask, kw, k - 1);
        assert(mask_actives(mask, kw, k) == a + rrow);
        assert((a + rrow).map_values(f) =~= a.map_values(f) + rvals);
        assert(rvals.len() == kw);
        lemma_reduce_vals_concat::<T, Op>(a.map_values(f), rvals);
        lemma_reduce_col_step::<T, Op>(tmp, y, i, k - 1);
    }
}

/// Separable equivalence: for a fully active structuring element of `kw`
/// columns and `kh` rows (the outer product of a horizontal and a vertical
/// 1-D kernel), the generic filter's reduction over the element's tap list
/// equals the column filter's reduction applied to rows already reduced by
/// the row filter.
pub proof fn lemma_separable_equivalence<T, Op: MorphOperator<T>>(
    mask: Seq<bool>,
    kw: int,
    kh: int,
    rows: Seq<Seq<T>>,
    tmp: Seq<Seq<T>>,
    y: int,
    i: int,
    ch: int,
)
    requires
        kw >= 1,
        kw <= usize::MAX,
        1 <= kh <= usize::MAX,
        mask.len() >= kw * kh,
        forall|c: int| 0 <= c < mask.len() ==> mask[c],
        0 <= y,
        forall|r: int|
            y <= r < y + kh ==> #[trigger] tmp[r][i] == reduce_row::<T, Op>(rows[r], i, ch, kw),
    ensures
        reduce_taps::<T, Op>(rows, kernel_coords(mask, kw, kh), y, i, ch) == reduce_col::<T, Op>(
            tmp,
            y,
            i,
            kh,
        ),
{
    lemma_mul_is_commutative(kw, kh);
    lemma_separable_inner::<T, Op>(mask, kw, kh, rows, tmp, y, i, ch);
    assert(mask_actives(mask, kw, kh).len() >= 1);
    assert(kernel_coords(mask, kw, kh) == mask_actives(mask, kw, kh));
}

} // verus!
