//! The column filter: a vertical 1-D reduction across `ksize` consecutive
//! rows, writing `count` output rows with a fixed stride `dst_step` between
//! them. While more than one output row remains, two adjacent outputs are
//! produced per pass: the reduction over the rows their windows share is
//! computed once and combined with the top tap for the first output and the
//! bottom tap for the second. A lane-chunked phase covers a prefix of each
//! row; the scalar tail mirrors the same structure for the rest.

use vstd::prelude::*;

use core::marker::PhantomData;
use vstd::arithmetic::mul::lemma_mul_inequality;
use vstd::arithmetic::mul::lemma_mul_is_distributive_add_other_way;
use vstd::pervasive::VecAdditionalExecFns;

use crate::ops::MorphOperator;
use crate::reduce::lemma_reduce_col_identity;
use crate::reduce::lemma_reduce_col_shift;
use crate::reduce::lemma_reduce_col_step;
use crate::reduce::reduce_col;
use crate::reduce::elem_at;
use crate::reduce::rows_at_least;
use crate::reduce::rows_view;
use crate::row::LANES;

verus! {

/// How far the lane-chunked phase reaches into a row of `w` elements:
/// groups of four, two, and one vector width, then half a width, taken in
/// that order while they fit.
pub open spec fn lane_cover(w: int) -> int {
    let a = (w / 32) * 32;
    let b = if w - a >= 16 {
        a + 16
    } else {
        a
    };
    let c = if w - b >= 8 {
        b + 8
    } else {
        b
    };
    if w - c >= 4 {
        c + 4
    } else {
        c
    }
}

/// `p` lies in none of the `count` output bands of `band` elements that
/// start `dst_step` apart.
pub open spec fn outside_bands(p: int, count: int, dst_step: int, band: int) -> bool {
    forall|y: int| 0 <= y < count ==> p < #[trigger] (y * dst_step) || p >= y * dst_step + band
}

/// Writing only inside the `[lo, hi)` stretch of bands `y` and `y2` leaves
/// earlier bands, later bands, the prefixes `[0, lo)` of bands `y` and
/// `y2`, and everything outside all bands untouched.
pub(crate) proof fn lemma_col_write_frame<T>(
    pre: Seq<T>,
    post: Seq<T>,
    count: int,
    dst_step: int,
    width: int,
    y: int,
    y2: int,
    lo: int,
    hi: int,
)
    requires
        post.len() == pre.len(),
        dst_step >= width,
        0 <= lo <= hi <= width,
        0 <= y <= y2 <= y + 1,
        y2 < count,
        (count - 1) * dst_step + width <= post.len(),
        forall|p: int|
            0 <= p < post.len() && !(y * dst_step + lo <= p < y * dst_step + hi) && !(y2 * dst_step
                + lo <= p < y2 * dst_step + hi) ==> post[p] == pre[p],
    ensures
        forall|yy: int, xx: int|
            0 <= yy < y && 0 <= xx < width ==> #[trigger] elem_at(post, yy, dst_step, xx)
                == elem_at(pre, yy, dst_step, xx),
        forall|yy: int, xx: int|
            y2 < yy < count && 0 <= xx < width ==> #[trigger] elem_at(post, yy, dst_step, xx)
                == elem_at(pre, yy, dst_step, xx),
        forall|xx: int|
            0 <= xx < lo ==> #[trigger] elem_at(post, y, dst_step, xx) == elem_at(
                pre,
                y,
                dst_step,
                xx,
            ) && elem_at(post, y2, dst_step, xx) == elem_at(pre, y2, dst_step, xx),
        forall|p: int|
            0 <= p < post.len() && outside_bands(p, count, dst_step, width) ==> post[p] == pre[p],
{
    assert forall|yy: int, xx: int|
        0 <= yy < y && 0 <= xx < width implies #[trigger] elem_at(post, yy, dst_step, xx)
        == elem_at(pre, yy, dst_step, xx) by {
        lemma_mul_inequality(yy + 1, y, dst_step);
        lemma_mul_inequality(y, y2, dst_step);
        lemma_mul_inequality(yy, count - 1, dst_step);
        lemma_mul_is_distributive_add_other_way(dst_step, yy, 1int);
    }
    assert forall|yy: int, xx: int|
        y2 < yy < count && 0 <= xx < width implies #[trigger] elem_at(post, yy, dst_step, xx)
        == elem_at(pre, yy, dst_step, xx) by {
        lemma_mul_inequality(y2 + 1, yy, dst_step);
        lemma_mul_inequality(y, y2, dst_step);
        lemma_mul_inequality(yy, count - 1, dst_step);
        lemma_mul_is_distributive_add_other_way(dst_step, y2, 1int);
        lemma_mul_is_distributive_add_other_way(dst_step, yy, 1int);
    }
    assert forall|xx: int|
        0 <= xx < lo implies #[trigger] elem_at(post, y, dst_step, xx) == elem_at(
        pre,
        y,
        dst_step,
        xx,
    ) && elem_at(post, y2, dst_step, xx) == elem_at(pre, y2, dst_step, xx) by {
        lemma_mul_inequality(y, y2, dst_step);
        lemma_mul_inequality(y, count - 1, dst_step);
        lemma_mul_inequality(y2, count - 1, dst_step);
        lemma_mul_is_distributive_add_other_way(dst_step, y, 1int);
        lemma_mul_is_distributive_add_other_way(dst_step, y2, 1int);
    }
    assert forall|p: int|
        0 <= p < post.len() && outside_bands(p, count, dst_step, width) implies post[p] == pre[
        p] by {
        assert(p < y * dst_step || p >= y * dst_step + width);
        assert(p < y2 * dst_step || p >= y2 * dst_step + width);
    }
}

/// Writes `dst[d + x]` for `x` in `[start, start + len)` with the vertical
/// reduction of `ksize` rows starting at row `y`; nothing else changes.
#[verifier::loop_isolation(false)]
fn col_single_span<T: Copy, Op: MorphOperator<T>>(
    src: &Vec<Vec<T>>,
    dst: &mut Vec<T>,
    y: usize,
    d: usize,
    start: usize,
    len: usize,
    ksize: usize,
)
    requires
        ksize >= 1,
        y + ksize <= src@.len(),
        rows_at_least(rows_view(src@), start + len as int),
        old(dst)@.len() >= d + start + len,
    ensures
        final(dst)@.len() == old(dst)@.len(),
        forall|x: int|
            start <= x < start + len ==> final(dst)@[d + x] == reduce_col::<T, Op>(
                rows_view(src@),
                y as int,
                x,
                ksize as int,
            ),
        forall|p: int|
            0 <= p < final(dst)@.len() && !(d + start <= p < d + start + len) ==> final(dst)@[p]
                == old(dst)@[p],
{
    proof {
        assert(src.len() == src@.len());
        assert(dst.len() == dst@.len());
    }
    let mut x = start;
    while x < start + len
        invariant
            start <= x <= start + len,
            dst@.len() == old(dst)@.len(),
            forall|xx: int|
                start <= xx < x ==> dst@[d + xx] == reduce_col::<T, Op>(
                    rows_view(src@),
                    y as int,
                    xx,
                    ksize as int,
                ),
            forall|p: int|
                0 <= p < dst@.len() && !(d + start <= p < d + x) ==> dst@[p] == old(dst)@[p],
        decreases start + len - x,
    {
        proof {
            assert(rows_view(src@)[y as int].len() >= start + len);
            assert(rows_view(src@)[y as int] == src@[y as int]@);
        }
        let mut m = src[y][x];
        proof {
            lemma_reduce_col_identity::<T, Op>(rows_view(src@), y as int, x as int);
        }
        let mut t: usize = 1;
        while t < ksize
            invariant
                1 <= t <= ksize,
                x < start + len,
                m == reduce_col::<T, Op>(rows_view(src@), y as int, x as int, t as int),
            decreases ksize - t,
        {
            proof {
                lemma_reduce_col_step::<T, Op>(rows_view(src@), y as int, x as int, t as int);
                assert(rows_view(src@)[y + t].len() >= start + len);
                assert(rows_view(src@)[y + t] == src@[y + t]@);
            }
            m = Op::apply(m, src[y + t][x]);
            t = t + 1;
        }
        dst.set(d + x, m);
        x = x + 1;
    }
}

/// Writes two output rows at once for `x` in `[start, start + len)`: the
/// shared reduction over the `ksize - 1` interior rows is combined with row
/// `y` for the first output and with row `y + ksize` for the second.
#[verifier::loop_isolation(false)]
fn col_pair_span<T: Copy, Op: MorphOperator<T>>(
    src: &Vec<Vec<T>>,
    dst: &mut Vec<T>,
    y: usize,
    d: usize,
    dst_step: usize,
    start: usize,
    len: usize,
    ksize: usize,
)
    requires
        ksize >= 2,
        y + ksize < src@.len(),
        rows_at_least(rows_view(src@), start + len as int),
        dst_step >= start + len,
        old(dst)@.len() >= d + dst_step + start + len,
    ensures
        final(dst)@.len() == old(dst)@.len(),
        forall|x: int|
            #![trigger reduce_col::<T, Op>(rows_view(src@), y as int, x, ksize as int)]
            #![trigger reduce_col::<T, Op>(rows_view(src@), y as int + 1, x, ksize as int)]
            start <= x < start + len ==> final(dst)@[d + x] == reduce_col::<T, Op>(
                rows_view(src@),
                y as int,
                x,
                ksize as int,
            ) && final(dst)@[d + dst_step + x] == reduce_col::<T, Op>(
                rows_view(src@),
                y as int + 1,
                x,
                ksize as int,
            ),
        forall|p: int|
            0 <= p < final(dst)@.len() && !(d + start <= p < d + start + len) && !(d + dst_step
                + start <= p < d + dst_step + start + len) ==> final(dst)@[p] == old(dst)@[p],
{
    proof {
        assert(src.len() == src@.len());
        assert(dst.len() == dst@.len());
    }
    let mut x = start;
    while x < start + len
        invariant
            start <= x <= start + len,
            dst@.len() == old(dst)@.len(),
            forall|xx: int|
                #![trigger reduce_col::<T, Op>(rows_view(src@), y as int, xx, ksize as int)]
                #![trigger reduce_col::<T, Op>(rows_view(src@), y as int + 1, xx, ksize as int)]
                start <= xx < x ==> dst@[d + xx] == reduce_col::<T, Op>(
                    rows_view(src@),
                    y as int,
                    xx,
                    ksize as int,
                ) && dst@[d + dst_step + xx] == reduce_col::<T, Op>(
                    rows_view(src@),
                    y as int + 1,
                    xx,
                    ksize as int,
                ),
            forall|p: int|
                0 <= p < dst@.len() && !(d + start <= p < d + x) && !(d + dst_step + start <= p < d
                    + dst_step + x) ==> dst@[p] == old(dst)@[p],
        decreases start + len - x,
    {
        proof {
            assert(rows_view(src@)[y as int + 1].len() >= start + len);
            assert(rows_view(src@)[y as int + 1] == src@[y as int + 1]@);
        }
        let mut m = src[y + 1][x];
        proof {
            lemma_reduce_col_identity::<T, Op>(rows_view(src@), y as int + 1, x as int);
        }
        let mut t: usize = 2;
        while t < ksize
            invariant
                2 <= t <= ksize,
                x < start + len,
                m == reduce_col::<T, Op>(rows_view(src@), y as int + 1, x as int, t as int - 1),
            decreases ksize - t,
        {
            proof {
                lemma_reduce_col_step::<T, Op>(
                    rows_view(src@),
                    y as int + 1,
                    x as int,
                    t as int - 1,
                );
                assert(rows_view(src@)[y + t].len() >= start + len);
                assert(rows_view(src@)[y + t] == src@[y + t]@);
            }
            m = Op::apply(m, src[y + t][x]);
            t = t + 1;
        }
        // First output row: the shared interior combined with the top tap.
        proof {
            lemma_reduce_col_shift::<T, Op>(rows_view(src@), y as int, x as int, ksize as int);
            assert(rows_view(src@)[y as int].len() >= start + len);
            assert(rows_view(src@)[y as int] == src@[y as int]@);
        }
        let first = Op::apply(m, src[y][x]);
        dst.set(d + x, first);
        // Second output row: the shared interior combined with the bottom
        // tap, one past the first window.
        proof {
            lemma_reduce_col_step::<T, Op>(
                rows_view(src@),
                y as int + 1,
                x as int,
                ksize as int - 1,
            );
            assert(rows_view(src@)[y + ksize].len() >= start + len);
            assert(rows_view(src@)[y + ksize] == src@[y + ksize]@);
        }
        let second = Op::apply(m, src[y + ksize][x]);
        dst.set(d + dst_step + x, second);
        x = x + 1;
    }
}

/// Covers columns `[0, r)` of the two output rows at `d` and
/// `d + dst_step` with the vertical pair reduction, walking groups of
/// four, two, one, and half a vector width. `r` is the lane cover of
/// `width`.
#[verifier::rlimit(100)]
#[verifier::loop_isolation(false)]
fn col_pair_lanes<T: Copy, Op: MorphOperator<T>>(
    src: &Vec<Vec<T>>,
    dst: &mut Vec<T>,
    y: usize,
    d: usize,
    dst_step: usize,
    width: usize,
    ksize: usize,
) -> (r: usize)
    requires
        ksize >= 2,
        y + ksize < src@.len(),
        rows_at_least(rows_view(src@), width as int),
        dst_step >= width,
        old(dst)@.len() >= d + dst_step + width,
    ensures
        final(dst)@.len() == old(dst)@.len(),
        r == lane_cover(width as int),
        r <= width,
        forall|xx: int|
            #![trigger reduce_col::<T, Op>(rows_view(src@), y as int, xx, ksize as int)]
            #![trigger reduce_col::<T, Op>(rows_view(src@), y as int + 1, xx, ksize as int)]
            0 <= xx < r ==> final(dst)@[d + xx] == reduce_col::<T, Op>(
                rows_view(src@),
                y as int,
                xx,
                ksize as int,
            ) && final(dst)@[d + dst_step + xx] == reduce_col::<T, Op>(
                rows_view(src@),
                y as int + 1,
                xx,
                ksize as int,
            ),
        forall|p: int|
            0 <= p < final(dst)@.len() && !(d <= p < d + width) && !(d + dst_step <= p < d
                + dst_step + width) ==> final(dst)@[p] == old(dst)@[p],
{
    proof {
        assert(dst.len() == dst@.len());
        vstd::arithmetic::div_mod::lemma_fundamental_div_mod(width as int, 32);
        vstd::arithmetic::div_mod::lemma_mod_bound(width as int, 32);
    }
    let mut x: usize = 0;
    while width - x >= 4 * LANES
        invariant
            x <= width,
            x as int % 32 == 0,
            dst@.len() == old(dst)@.len(),
            forall|xx: int|
                #![trigger reduce_col::<T, Op>(rows_view(src@), y as int, xx, ksize as int)]
                #![trigger reduce_col::<T, Op>(rows_view(src@), y as int + 1, xx, ksize as int)]
                0 <= xx < x ==> dst@[d + xx] == reduce_col::<T, Op>(
                    rows_view(src@),
                    y as int,
                    xx,
                    ksize as int,
                ) && dst@[d + dst_step + xx] == reduce_col::<T, Op>(
                    rows_view(src@),
                    y as int + 1,
                    xx,
                    ksize as int,
                ),
            forall|p: int|
                0 <= p < dst@.len() && !(d <= p < d + width) && !(d + dst_step <= p < d + dst_step
                    + width) ==> dst@[p] == old(dst)@[p],
        decreases width - x,
    {
        col_pair_span::<T, Op>(src, dst, y, d, dst_step, x, 4 * LANES, ksize);
        x = x + 4 * LANES;
    }
    if width - x >= 2 * LANES {
        col_pair_span::<T, Op>(src, dst, y, d, dst_step, x, 2 * LANES, ksize);
        x = x + 2 * LANES;
    }
    if width - x >= LANES {
        col_pair_span::<T, Op>(src, dst, y, d, dst_step, x, LANES, ksize);
        x = x + LANES;
    }
    if width - x >= LANES / 2 {
        col_pair_span::<T, Op>(src, dst, y, d, dst_step, x, LANES / 2, ksize);
        x = x + LANES / 2;
    }
    proof {
        assert(x == lane_cover(width as int));
    }
    x
}

/// Covers columns `[0, r)` of the single output row at `d` with the full
/// vertical reduction, walking the same descending vector groups.
#[verifier::rlimit(100)]
#[verifier::loop_isolation(false)]
fn col_single_lanes<T: Copy, Op: MorphOperator<T>>(
    src: &Vec<Vec<T>>,
    dst: &mut Vec<T>,
    y: usize,
    d: usize,
    width: usize,
    ksize: usize,
) -> (r: usize)
    requires
        ksize >= 1,
        y + ksize <= src@.len(),
        rows_at_least(rows_view(src@), width as int),
        old(dst)@.len() >= d + width,
    ensures
        final(dst)@.len() == old(dst)@.len(),
        r == lane_cover(width as int),
        r <= width,
        forall|xx: int|
            0 <= xx < r ==> final(dst)@[d + xx] == reduce_col::<T, Op>(
                rows_view(src@),
                y as int,
                xx,
                ksize as int,
            ),
        forall|p: int|
            0 <= p < final(dst)@.len() && !(d <= p < d + width) ==> final(dst)@[p] == old(dst)@[p],
{
    proof {
        assert(dst.len() == dst@.len());
        vstd::arithmetic::div_mod::lemma_fundamental_div_mod(width as int, 32);
        vstd::arithmetic::div_mod::lemma_mod_bound(width as int, 32);
    }
    let mut x: usize = 0;
    while width - x >= 4 * LANES
        invariant
            x <= width,
            x as int % 32 == 0,
            dst@.len() == old(dst)@.len(),
            forall|xx: int|
                0 <= xx < x ==> dst@[d + xx] == reduce_col::<T, Op>(
                    rows_view(src@),
                    y as int,
                    xx,
                    ksize as int,
                ),
            forall|p: int|
                0 <= p < dst@.len() && !(d <= p < d + width) ==> dst@[p] == old(dst)@[p],
        decreases width - x,
    {
        col_single_span::<T, Op>(src, dst, y, d, x, 4 * LANES, ksize);
        x = x + 4 * LANES;
    }
    if width - x >= 2 * LANES {
        col_single_span::<T, Op>(src, dst, y, d, x, 2 * LANES, ksize);
        x = x + 2 * LANES;
    }
    if width - x >= LANES {
        col_single_span::<T, Op>(src, dst, y, d, x, LANES, ksize);
        x = x + LANES;
    }
    if width - x >= LANES / 2 {
        col_single_span::<T, Op>(src, dst, y, d, x, LANES / 2, ksize);
        x = x + LANES / 2;
    }
    proof {
        assert(x == lane_cover(width as int));
    }
    x
}

/// Scalar tail for a pair of output rows: covers columns `[x0, width)` in
/// groups of four, then one by one.
#[verifier::loop_isolation(false)]
fn col_pair_tail<T: Copy, Op: MorphOperator<T>>(
    src: &Vec<Vec<T>>,
    dst: &mut Vec<T>,
    y: usize,
    d: usize,
    dst_step: usize,
    x0: usize,
    width: usize,
    ksize: usize,
)
    requires
        ksize >= 2,
        y + ksize < src@.len(),
        rows_at_least(rows_view(src@), width as int),
        dst_step >= width,
        x0 <= width,
        old(dst)@.len() >= d + dst_step + width,
    ensures
        final(dst)@.len() == old(dst)@.len(),
        forall|xx: int|
            #![trigger reduce_col::<T, Op>(rows_view(src@), y as int, xx, ksize as int)]
            #![trigger reduce_col::<T, Op>(rows_view(src@), y as int + 1, xx, ksize as int)]
            x0 <= xx < width ==> final(dst)@[d + xx] == reduce_col::<T, Op>(
                rows_view(src@),
                y as int,
                xx,
                ksize as int,
            ) && final(dst)@[d + dst_step + xx] == reduce_col::<T, Op>(
                rows_view(src@),
                y as int + 1,
                xx,
                ksize as int,
            ),
        forall|p: int|
            0 <= p < final(dst)@.len() && !(d + x0 <= p < d + width) && !(d + dst_step + x0 <= p < d
                + dst_step + width) ==> final(dst)@[p] == old(dst)@[p],
{
    proof {
        assert(dst.len() == dst@.len());
    }
    let mut x = x0;
    while width - x >= 4
        invariant
            x0 <= x <= width,
            dst@.len() == old(dst)@.len(),
            forall|xx: int|
                #![trigger reduce_col::<T, Op>(rows_view(src@), y as int, xx, ksize as int)]
                #![trigger reduce_col::<T, Op>(rows_view(src@), y as int + 1, xx, ksize as int)]
                x0 <= xx < x ==> dst@[d + xx] == reduce_col::<T, Op>(
                    rows_view(src@),
                    y as int,
                    xx,
                    ksize as int,
                ) && dst@[d + dst_step + xx] == reduce_col::<T, Op>(
                    rows_view(src@),
                    y as int + 1,
                    xx,
                    ksize as int,
                ),
            forall|p: int|
                0 <= p < dst@.len() && !(d + x0 <= p < d + x) && !(d + dst_step + x0 <= p < d
                    + dst_step + x) ==> dst@[p] == old(dst)@[p],
        decreases width - x,
    {
        col_pair_span::<T, Op>(src, dst, y, d, dst_step, x, 4, ksize);
        x = x + 4;
    }
    while x < width
        invariant
            x0 <= x <= width,
            dst@.len() == old(dst)@.len(),
            forall|xx: int|
                #![trigger reduce_col::<T, Op>(rows_view(src@), y as int, xx, ksize as int)]
                #![trigger reduce_col::<T, Op>(rows_view(src@), y as int + 1, xx, ksize as int)]
                x0 <= xx < x ==> dst@[d + xx] == reduce_col::<T, Op>(
                    rows_view(src@),
                    y as int,
                    xx,
                    ksize as int,
                ) && dst@[d + dst_step + xx] == reduce_col::<T, Op>(
                    rows_view(src@),
                    y as int + 1,
                    xx,
                    ksize as int,
                ),
            forall|p: int|
                0 <= p < dst@.len() && !(d + x0 <= p < d + x) && !(d + dst_step + x0 <= p < d
                    + dst_step + x) ==> dst@[p] == old(dst)@[p],
        decreases width - x,
    {
        col_pair_span::<T, Op>(src, dst, y, d, dst_step, x, 1, ksize);
        x = x + 1;
    }
}

/// Scalar tail for a single output row: covers columns `[x0, width)` in
/// groups of four, then one by one.
#[verifier::loop_isolation(false)]
fn col_single_tail<T: Copy, Op: MorphOperator<T>>(
    src: &Vec<Vec<T>>,
    dst: &mut Vec<T>,
    y: usize,
    d: usize,
    x0: usize,
    width: usize,
    ksize: usize,
)
    requires
        ksize >= 1,
        y + ksize <= src@.len(),
        rows_at_least(rows_view(src@), width as int),
        x0 <= width,
        old(dst)@.len() >= d + width,
    ensures
        final(dst)@.len() == old(dst)@.len(),
        forall|xx: int|
            x0 <= xx < width ==> final(dst)@[d + xx] == reduce_col::<T, Op>(
                rows_view(src@),
                y as int,
                xx,
                ksize as int,
            ),
        forall|p: int|
            0 <= p < final(dst)@.len() && !(d + x0 <= p < d + width) ==> final(dst)@[p] == old(
                dst,
            )@[p],
{
    proof {
        assert(dst.len() == dst@.len());
    }
    let mut x = x0;
    while width - x >= 4
        invariant
            x0 <= x <= width,
            dst@.len() == old(dst)@.len(),
            forall|xx: int|
                x0 <= xx < x ==> dst@[d + xx] == reduce_col::<T, Op>(
                    rows_view(src@),
                    y as int,
                    xx,
                    ksize as int,
                ),
            forall|p: int|
                0 <= p < dst@.len() && !(d + x0 <= p < d + x) ==> dst@[p] == old(dst)@[p],
        decreases width - x,
    {
        col_single_span::<T, Op>(src, dst, y, d, x, 4, ksize);
        x = x + 4;
    }
    while x < width
        invariant
            x0 <= x <= width,
            dst@.len() == old(dst)@.len(),
            forall|xx: int|
                x0 <= xx < x ==> dst@[d + xx] == reduce_col::<T, Op>(
                    rows_view(src@),
                    y as int,
                    xx,
                    ksize as int,
                ),
            forall|p: int|
                0 <= p < dst@.len() && !(d + x0 <= p < d + x) ==> dst@[p] == old(dst)@[p],
        decreases width - x,
    {
        col_single_span::<T, Op>(src, dst, y, d, x, 1, ksize);
        x = x + 1;
    }
}

/// The lane-chunked strategy of a column filter: covers a prefix of each
/// output row in descending vector groups and reports how far it got.
pub trait VecColumn<T, Op: MorphOperator<T>>: Sized {
    spec fn ksize_spec(&self) -> usize;

    fn new(ksize: usize, anchor: usize) -> (r: Self)
        ensures
            r.ksize_spec() == ksize,
    ;

    /// Covers columns `[0, r)` of every output row with the full vertical
    /// reduction; everything outside the `count` output bands of `width`
    /// elements is untouched.
    fn apply(
        &self,
        src: &Vec<Vec<T>>,
        dst: &mut Vec<T>,
        dst_step: usize,
        count: usize,
        width: usize,
    ) -> (r: usize)
        requires
            self.ksize_spec() >= 1,
            src@.len() >= count + self.ksize_spec() - 1,
            rows_at_least(rows_view(src@), width as int),
            dst_step >= width,
            count > 0 ==> old(dst)@.len() >= (count - 1) * dst_step + width,
        ensures
            final(dst)@.len() == old(dst)@.len(),
            r <= width,
            forall|y: int, x: int|
                0 <= y < count && 0 <= x < r ==> #[trigger] elem_at(
                    final(dst)@,
                    y,
                    dst_step as int,
                    x,
                ) == reduce_col::<T, Op>(rows_view(src@), y, x, self.ksize_spec() as int),
            forall|p: int|
                0 <= p < final(dst)@.len() && outside_bands(
                    p,
                    count as int,
                    dst_step as int,
                    width as int,
                ) ==> final(dst)@[p] == old(dst)@[p],
    ;
}

/// The lane-chunked column strategy: pairs of output rows while more than
/// one remains and the kernel has more than one tap, then single rows.
pub struct MorphColumnVec {
    k_size: usize,
}

impl<T: Copy, Op: MorphOperator<T>> VecColumn<T, Op> for MorphColumnVec {
    closed spec fn ksize_spec(&self) -> usize {
        self.k_size
    }

    fn new(k_size: usize, _anchor: usize) -> Self {
        Self { k_size }
    }

    #[verifier::loop_isolation(false)]
    fn apply(
        &self,
        src: &Vec<Vec<T>>,
        dst: &mut Vec<T>,
        dst_step: usize,
        count: usize,
        width: usize,
    ) -> (r: usize) {
        let ksize = self.k_size;
        proof {
            assert(src.len() == src@.len());
            assert(dst.len() == dst@.len());
            vstd::arithmetic::div_mod::lemma_fundamental_div_mod(width as int, 32);
            vstd::arithmetic::div_mod::lemma_mod_bound(width as int, 32);
        }
        let ghost rows = rows_view(src@);
        let ghost cover = lane_cover(width as int);
        let mut cnt = count;
        let mut y: usize = 0;
        let mut d: usize = 0;
        let mut x: usize = 0;

        while cnt > 1 && ksize > 1
            invariant
                y + cnt == count,
                cnt > 0 ==> d == y * dst_step,
                x == cover || (x == 0 && y == 0),
                dst@.len() == old(dst)@.len(),
                forall|yy: int, xx: int|
                    0 <= yy < y && 0 <= xx < cover ==> #[trigger] elem_at(
                        dst@,
                        yy,
                        dst_step as int,
                        xx,
                    ) == reduce_col::<T, Op>(rows, yy, xx, ksize as int),
                forall|p: int|
                    0 <= p < dst@.len() && outside_bands(
                        p,
                        count as int,
                        dst_step as int,
                        width as int,
                    ) ==> dst@[p] == old(dst)@[p],
            decreases cnt,
        {
            proof {
                lemma_mul_inequality(y as int + 1, count as int - 1, dst_step as int);
                lemma_mul_is_distributive_add_other_way(dst_step as int, y as int, 1int);
            }
            let ghost pre = dst@;
            x = col_pair_lanes::<T, Op>(src, dst, y, d, dst_step, width, ksize);
            proof {
                lemma_col_write_frame(
                    pre,
                    dst@,
                    count as int,
                    dst_step as int,
                    width as int,
                    y as int,
                    y as int + 1,
                    0int,
                    width as int,
                );
                assert forall|yy: int, xx: int|
                    0 <= yy < y + 2 && 0 <= xx < cover implies #[trigger] elem_at(
                    dst@,
                    yy,
                    dst_step as int,
                    xx,
                ) == reduce_col::<T, Op>(rows, yy, xx, ksize as int) by {
                    if yy == y as int {
                        assert(dst@[d + xx] == reduce_col::<T, Op>(rows, y as int, xx, ksize as int));
                    } else if yy == y as int + 1 {
                        assert(dst@[d + dst_step + xx] == reduce_col::<T, Op>(
                            rows,
                            y as int + 1,
                            xx,
                            ksize as int,
                        ));
                    }
                }
            }
            cnt = cnt - 2;
            y = y + 2;
            proof {
                lemma_mul_is_distributive_add_other_way(dst_step as int, y as int - 2, 2int);
            }
            if cnt > 0 {
                proof {
                    lemma_mul_inequality(y as int, count as int - 1, dst_step as int);
                }
                d = d + 2 * dst_step;
            } else {
                d = 0;
            }
        }

        while cnt > 0
            invariant
                y + cnt == count,
                cnt > 0 ==> d == y * dst_step,
                x == cover || (x == 0 && y == 0),
                dst@.len() == old(dst)@.len(),
                forall|yy: int, xx: int|
                    0 <= yy < y && 0 <= xx < cover ==> #[trigger] elem_at(
                        dst@,
                        yy,
                        dst_step as int,
                        xx,
                    ) == reduce_col::<T, Op>(rows, yy, xx, ksize as int),
                forall|p: int|
                    0 <= p < dst@.len() && outside_bands(
                        p,
                        count as int,
                        dst_step as int,
                        width as int,
                    ) ==> dst@[p] == old(dst)@[p],
            decreases cnt,
        {
            proof {
                lemma_mul_inequality(y as int, count as int - 1, dst_step as int);
                lemma_mul_is_distributive_add_other_way(dst_step as int, y as int, 1int);
            }
            let ghost pre = dst@;
            x = col_single_lanes::<T, Op>(src, dst, y, d, width, ksize);
            proof {
                lemma_col_write_frame(
                    pre,
                    dst@,
                    count as int,
                    dst_step as int,
                    width as int,
                    y as int,
                    y as int,
                    0int,
                    width as int,
                );
                assert forall|yy: int, xx: int|
                    0 <= yy < y + 1 && 0 <= xx < cover implies #[trigger] elem_at(
                    dst@,
                    yy,
                    dst_step as int,
                    xx,
                ) == reduce_col::<T, Op>(rows, yy, xx, ksize as int) by {
                    if yy == y as int {
                        assert(dst@[d + xx] == reduce_col::<T, Op>(rows, y as int, xx, ksize as int));
                    }
                }
            }
            cnt = cnt - 1;
            y = y + 1;
            proof {
                lemma_mul_is_distributive_add_other_way(dst_step as int, y as int - 1, 1int);
            }
            if cnt > 0 {
                proof {
                    lemma_mul_inequality(y as int, count as int - 1, dst_step as int);
                }
                d = d + dst_step;
            } else {
                d = 0;
            }
        }
        x
    }
}

/// A vertical morphological filter over `ksize` consecutive source rows per
/// output row. `anchor` records where the caller aligned the kernel; it
/// does not change the reduction itself.
pub struct MorphColumnFilter<T: Copy, Op: MorphOperator<T>, VecOp: VecColumn<T, Op>> {
    pub ksize: usize,
    pub anchor: usize,
    pub vec: VecOp,
    pub _t: PhantomData<T>,
    pub _op: PhantomData<Op>,
}

impl<T: Copy, Op: MorphOperator<T>, VecOp: VecColumn<T, Op>> MorphColumnFilter<T, Op, VecOp> {
    /// The filter is well formed when its lane-chunked strategy was built
    /// for the same tap count and the kernel is non-empty.
    pub open spec fn wf(&self) -> bool {
        &&& self.ksize >= 1
        &&& self.vec.ksize_spec() == self.ksize
    }

    pub fn new(ksize: usize, anchor: usize) -> (r: Self)
        requires
            ksize >= 1,
        ensures
            r.wf(),
            r.ksize == ksize,
            r.anchor == anchor,
    {
        let vec = VecOp::new(ksize, anchor);
        Self { ksize, anchor, vec, _t: PhantomData, _op: PhantomData }
    }

    /// Writes `count` output rows of `width` elements each, `dst_step`
    /// apart: element `x` of output row `y` is the vertical reduction of
    /// the `ksize` source rows starting at row `y`. Everything outside
    /// those bands is unchanged. The caller supplies `count + ksize - 1`
    /// rows.
    #[verifier::loop_isolation(false)]
    pub fn apply(
        &self,
        src: &Vec<Vec<T>>,
        dst: &mut Vec<T>,
        dst_step: usize,
        count: usize,
        width: usize,
    )
        requires
            self.wf(),
            src@.len() >= count + self.ksize - 1,
            rows_at_least(rows_view(src@), width as int),
            dst_step >= width,
            count > 0 ==> old(dst)@.len() >= (count - 1) * dst_step + width,
        ensures
            final(dst)@.len() == old(dst)@.len(),
            forall|y: int, x: int|
                0 <= y < count && 0 <= x < width ==> #[trigger] elem_at(
                    final(dst)@,
                    y,
                    dst_step as int,
                    x,
                ) == reduce_col::<T, Op>(rows_view(src@), y, x, self.ksize as int),
            forall|p: int|
                0 <= p < final(dst)@.len() && outside_bands(
                    p,
                    count as int,
                    dst_step as int,
                    width as int,
                ) ==> final(dst)@[p] == old(dst)@[p],
    {
        let ksize = self.ksize;
        proof {
            assert(src.len() == src@.len());
            assert(dst.len() == dst@.len());
        }
        let ghost rows = rows_view(src@);
        let x0 = self.vec.apply(src, dst, dst_step, count, width);

        let mut cnt = count;
        let mut y: usize = 0;
        let mut d: usize = 0;

        while ksize > 1 && cnt > 1
            invariant
                y + cnt == count,
                cnt > 0 ==> d == y * dst_step,
                x0 <= width,
                dst@.len() == old(dst)@.len(),
                forall|yy: int, xx: int|
                    0 <= yy < y && 0 <= xx < width ==> #[trigger] elem_at(
                        dst@,
                        yy,
                        dst_step as int,
                        xx,
                    ) == reduce_col::<T, Op>(rows, yy, xx, ksize as int),
                forall|yy: int, xx: int|
                    y <= yy < count && 0 <= xx < x0 ==> #[trigger] elem_at(
                        dst@,
                        yy,
                        dst_step as int,
                        xx,
                    ) == reduce_col::<T, Op>(rows, yy, xx, ksize as int),
                forall|p: int|
                    0 <= p < dst@.len() && outside_bands(
                        p,
                        count as int,
                        dst_step as int,
                        width as int,
                    ) ==> dst@[p] == old(dst)@[p],
            decreases cnt,
        {
            proof {
                lemma_mul_inequality(y as int + 1, count as int - 1, dst_step as int);
                lemma_mul_is_distributive_add_other_way(dst_step as int, y as int, 1int);
            }
            let ghost pre = dst@;
            col_pair_tail::<T, Op>(src, dst, y, d, dst_step, x0, width, ksize);
            proof {
                lemma_col_write_frame(
                    pre,
                    dst@,
                    count as int,
                    dst_step as int,
                    width as int,
                    y as int,
                    y as int + 1,
                    x0 as int,
                    width as int,
                );
                assert forall|yy: int, xx: int|
                    0 <= yy < y + 2 && 0 <= xx < width implies #[trigger] elem_at(
                    dst@,
                    yy,
                    dst_step as int,
                    xx,
                ) == reduce_col::<T, Op>(rows, yy, xx, ksize as int) by {
                    if yy == y as int {
                        if xx >= x0 {
                            assert(dst@[d + xx] == reduce_col::<T, Op>(
                                rows,
                                y as int,
                                xx,
                                ksize as int,
                            ));
                        } else {
                            assert(elem_at(dst@, y as int, dst_step as int, xx) == elem_at(
                                pre,
                                y as int,
                                dst_step as int,
                                xx,
                            ));
                            assert(elem_at(pre, y as int, dst_step as int, xx) == reduce_col::<
                                T,
                                Op,
                            >(rows, y as int, xx, ksize as int));
                        }
                    } else if yy == y as int + 1 {
                        if xx >= x0 {
                            assert(dst@[d + dst_step + xx] == reduce_col::<T, Op>(
                                rows,
                                y as int + 1,
                                xx,
                                ksize as int,
                            ));
                        } else {
                            assert(elem_at(dst@, y as int + 1, dst_step as int, xx) == elem_at(
                                pre,
                                y as int + 1,
                                dst_step as int,
                                xx,
                            ));
                            assert(elem_at(pre, y as int + 1, dst_step as int, xx) == reduce_col::<
                                T,
                                Op,
                            >(rows, y as int + 1, xx, ksize as int));
                        }
                    }
                }
                assert forall|yy: int, xx: int|
                    y + 2 <= yy < count && 0 <= xx < x0 implies #[trigger] elem_at(
                    dst@,
                    yy,
                    dst_step as int,
                    xx,
                ) == reduce_col::<T, Op>(rows, yy, xx, ksize as int) by {
                }
            }
            cnt = cnt - 2;
            y = y + 2;
            proof {
                lemma_mul_is_distributive_add_other_way(dst_step as int, y as int - 2, 2int);
            }
            if cnt > 0 {
                proof {
                    lemma_mul_inequality(y as int, count as int - 1, dst_step as int);
                }
                d = d + 2 * dst_step;
            } else {
                d = 0;
            }
        }

        while cnt > 0
            invariant
                y + cnt == count,
                cnt > 0 ==> d == y * dst_step,
                x0 <= width,
                dst@.len() == old(dst)@.len(),
                forall|yy: int, xx: int|
                    0 <= yy < y && 0 <= xx < width ==> #[trigger] elem_at(
                        dst@,
                        yy,
                        dst_step as int,
                        xx,
                    ) == reduce_col::<T, Op>(rows, yy, xx, ksize as int),
                forall|yy: int, xx: int|
                    y <= yy < count && 0 <= xx < x0 ==> #[trigger] elem_at(
                        dst@,
                        yy,
                        dst_step as int,
                        xx,
                    ) == reduce_col::<T, Op>(rows, yy, xx, ksize as int),
                forall|p: int|
                    0 <= p < dst@.len() && outside_bands(
                        p,
                        count as int,
                        dst_step as int,
                        width as int,
                    ) ==> dst@[p] == old(dst)@[p],
            decreases cnt,
        {
            proof {
                lemma_mul_inequality(y as int, count as int - 1, dst_step as int);
                lemma_mul_is_distributive_add_other_way(dst_step as int, y as int, 1int);
            }
            let ghost pre = dst@;
            col_single_tail::<T, Op>(src, dst, y, d, x0, width, ksize);
            proof {
                lemma_col_write_frame(
                    pre,
                    dst@,
                    count as int,
                    dst_step as int,
                    width as int,
                    y as int,
                    y as int,
                    x0 as int,
                    width as int,
                );
                assert forall|yy: int, xx: int|
                    0 <= yy < y + 1 && 0 <= xx < width implies #[trigger] elem_at(
                    dst@,
                    yy,
                    dst_step as int,
                    xx,
                ) == reduce_col::<T, Op>(rows, yy, xx, ksize as int) by {
                    if yy == y as int && xx >= x0 {
                        assert(dst@[d + xx] == reduce_col::<T, Op>(rows, y as int, xx, ksize as int));
                    }
                }
            }
            cnt = cnt - 1;
            y = y + 1;
            proof {
                lemma_mul_is_distributive_add_other_way(dst_step as int, y as int - 1, 1int);
            }
            if cnt > 0 {
                proof {
                    lemma_mul_inequality(y as int, count as int - 1, dst_step as int);
                }
                d = d + dst_step;
            } else {
                d = 0;
            }
        }
    }
}

} // verus!
