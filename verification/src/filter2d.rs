//! The generic (non-separable) filter: an arbitrary 2-D structuring element
//! applied through its tap-coordinate list. The mask is scanned row-major
//! into a compact list of active offsets once, at construction; each
//! invocation materializes the absolute (row, column) position of every tap
//! for the current output row into a scratch list and folds the taps over
//! each element.

use vstd::prelude::*;

use core::marker::PhantomData;
use vstd::arithmetic::mul::lemma_mul_inequality;
use vstd::arithmetic::mul::lemma_mul_is_distributive_add_other_way;
use vstd::pervasive::VecAdditionalExecFns;

use crate::column::outside_bands;
use crate::geometry::Element;
use crate::geometry::Point;
use crate::geometry::Size;
use crate::ops::MorphOperator;
use crate::reduce::elem_at;
use crate::reduce::reduce_taps;
use crate::reduce::reduce_vals;
use crate::reduce::rows_at_least;
use crate::reduce::rows_view;
use crate::row::LANES;

verus! {

/// The boolean mask a structuring element declares: cell `c` is active when
/// the element there converts to `true`.
pub open spec fn mask_of<B: Element>(kernel: Seq<B>) -> Seq<bool> {
    Seq::new(kernel.len(), |c: int| kernel[c].to_bool_spec())
}

/// The active coordinates of row `y` of the mask among its first `x` cells,
/// in left-to-right order.
pub open spec fn row_prefix(mask: Seq<bool>, w: int, y: int, x: int) -> Seq<Point>
    decreases x,
{
    if x <= 0 {
        Seq::empty()
    } else {
        row_prefix(mask, w, y, x - 1) + if mask[y * w + (x - 1)] {
            seq![Point { x: (x - 1) as usize, y: y as usize }]
        } else {
            Seq::empty()
        }
    }
}

/// The active coordinates of the first `h` rows of the mask, row-major.
pub open spec fn mask_actives(mask: Seq<bool>, w: int, h: int) -> Seq<Point>
    decreases h,
{
    if h <= 0 {
        Seq::empty()
    } else {
        mask_actives(mask, w, h - 1) + row_prefix(mask, w, h - 1, w)
    }
}

/// The tap-coordinate list of a structuring element: its active cells in
/// row-major order, or the single origin tap when no cell is active.
pub open spec fn kernel_coords(mask: Seq<bool>, w: int, h: int) -> Seq<Point> {
    let a = mask_actives(mask, w, h);
    if a.len() == 0 {
        seq![Point { x: 0, y: 0 }]
    } else {
        a
    }
}

/// Converts a dense structuring-element mask of `ksize.width * ksize.height`
/// cells into the ordered list of active tap offsets, scanning row-major.
/// An all-inactive mask yields the single origin tap, so every filter has
/// at least one tap to reduce over.
#[verifier::loop_isolation(false)]
pub fn process_2d_kernel<B: Element>(kernel: &[B], ksize: Size) -> (r: Vec<Point>)
    requires
        kernel@.len() >= ksize.width * ksize.height,
    ensures
        r@ == kernel_coords(mask_of(kernel@), ksize.width as int, ksize.height as int),
        r@.len() >= 1,
        forall|k: int|
            0 <= k < r@.len() ==> ((#[trigger] r@[k]).x < ksize.width || r@[k].x == 0) && (
            r@[k].y < ksize.height || r@[k].y == 0),
{
    proof {
        assert(kernel.len() == kernel@.len());
        vstd::arithmetic::mul::lemma_mul_is_commutative(
            ksize.width as int,
            ksize.height as int,
        );
    }
    let w = ksize.width;
    let h = ksize.height;
    let ghost mask = mask_of(kernel@);
    let mut coords: Vec<Point> = Vec::new();
    let mut y: usize = 0;
    while y < h
        invariant
            y <= h,
            coords@ == mask_actives(mask, w as int, y as int),
            forall|k: int|
                0 <= k < coords@.len() ==> (#[trigger] coords@[k]).x < w && coords@[k].y < h,
        decreases h - y,
    {
        let mut x: usize = 0;
        proof {
            assert(coords@ =~= mask_actives(mask, w as int, y as int) + row_prefix(
                mask,
                w as int,
                y as int,
                0,
            ));
        }
        while x < w
            invariant
                x <= w,
                y < h,
                coords@ == mask_actives(mask, w as int, y as int) + row_prefix(
                    mask,
                    w as int,
                    y as int,
                    x as int,
                ),
                forall|k: int|
                    0 <= k < coords@.len() ==> (#[trigger] coords@[k]).x < w && coords@[k].y < h,
            decreases w - x,
        {
            proof {
                lemma_mul_inequality(y as int + 1, h as int, w as int);
                lemma_mul_is_distributive_add_other_way(w as int, y as int, 1int);
            }
            let ghost before = coords@;
            if kernel[y * w + x].to_bool() {
                coords.push(Point::new(x, y));
            }
            proof {
                assert(mask[y as int * w as int + x as int] == kernel@[y as int * w as int
                    + x as int].to_bool_spec());
                assert(coords@ =~= mask_actives(mask, w as int, y as int) + row_prefix(
                    mask,
                    w as int,
                    y as int,
                    x as int + 1,
                ));
            }
            x = x + 1;
        }
        y = y + 1;
    }
    if coords.len() == 0 {
        coords.push(Point::new(0, 0));
        proof {
            assert(coords@ =~= seq![Point { x: 0, y: 0 }]);
        }
    }
    coords
}

/// The value of absolute tap `t` at element offset `i`: row `t.0`, column
/// `t.1 + i`.
pub open spec fn tap_val<T>(rows: Seq<Seq<T>>, taps: Seq<(usize, usize)>, i: int, k: int) -> T {
    rows[taps[k].0 as int][taps[k].1 + i]
}

/// The fold of the operator over the first `k` absolute taps at offset `i`.
pub open spec fn reduce_abs<T, Op: MorphOperator<T>>(
    rows: Seq<Seq<T>>,
    taps: Seq<(usize, usize)>,
    i: int,
    k: int,
) -> T
    recommends
        1 <= k <= taps.len(),
{
    reduce_vals::<T, Op>(Seq::new(k as nat, |j: int| tap_val(rows, taps, i, j)))
}

/// One more tap extends the absolute-tap fold on the right.
proof fn lemma_reduce_abs_step<T, Op: MorphOperator<T>>(
    rows: Seq<Seq<T>>,
    taps: Seq<(usize, usize)>,
    i: int,
    k: int,
)
    requires
        k >= 1,
    ensures
        reduce_abs::<T, Op>(rows, taps, i, k + 1) == Op::apply_spec(
            reduce_abs::<T, Op>(rows, taps, i, k),
            tap_val(rows, taps, i, k),
        ),
{
    let f = |j: int| tap_val(rows, taps, i, j);
    assert(Seq::new((k + 1) as nat, f) =~= Seq::new(k as nat, f).push(tap_val(rows, taps, i, k)));
    crate::reduce::lemma_reduce_vals_push::<T, Op>(Seq::new(k as nat, f), tap_val(rows, taps, i, k));
}

/// Every absolute tap addresses a row of `src` with at least `n + width`
/// elements from its column base on.
pub open spec fn taps_wf<T>(rows: Seq<Seq<T>>, taps: Seq<(usize, usize)>, width: int) -> bool {
    forall|k: int|
        0 <= k < taps.len() ==> (#[trigger] taps[k]).0 < rows.len() && taps[k].1 + width <= rows[
            taps[k].0 as int
        ].len()
}

/// Writes `dst[dst_off + i]` for `i` in `[start, start + len)` with the
/// fold over all absolute taps; nothing else changes.
#[verifier::loop_isolation(false)]
fn taps_span<T: Copy, Op: MorphOperator<T>>(
    src: &Vec<Vec<T>>,
    taps: &Vec<(usize, usize)>,
    dst: &mut Vec<T>,
    dst_off: usize,
    start: usize,
    len: usize,
)
    requires
        taps@.len() >= 1,
        taps_wf(rows_view(src@), taps@, start + len as int),
        old(dst)@.len() >= dst_off + start + len,
    ensures
        final(dst)@.len() == old(dst)@.len(),
        forall|i: int|
            start <= i < start + len ==> final(dst)@[dst_off + i] == reduce_abs::<T, Op>(
                rows_view(src@),
                taps@,
                i,
                taps@.len() as int,
            ),
        forall|p: int|
            0 <= p < final(dst)@.len() && !(dst_off + start <= p < dst_off + start + len)
                ==> final(dst)@[p] == old(dst)@[p],
{
    proof {
        assert(src.len() == src@.len());
        assert(dst.len() == dst@.len());
        assert(taps.len() == taps@.len());
    }
    let nz = taps.len();
    let mut i = start;
    while i < start + len
        invariant
            start <= i <= start + len,
            dst@.len() == old(dst)@.len(),
            forall|ii: int|
                start <= ii < i ==> dst@[dst_off + ii] == reduce_abs::<T, Op>(
                    rows_view(src@),
                    taps@,
                    ii,
                    taps@.len() as int,
                ),
            forall|p: int|
                0 <= p < dst@.len() && !(dst_off + start <= p < dst_off + i) ==> dst@[p] == old(
                    dst,
                )@[p],
        decreases start + len - i,
    {
        proof {
            assert(taps@[0].0 < rows_view(src@).len());
            assert(rows_view(src@)[taps@[0].0 as int] == src@[taps@[0].0 as int]@);
            assert(src@[taps@[0].0 as int].len() == src@[taps@[0].0 as int]@.len());
        }
        let t0 = taps[0];
        let mut m = src[t0.0][t0.1 + i];
        proof {
            assert(Seq::new(1nat, |j: int| tap_val(rows_view(src@), taps@, i as int, j))[0]
                == tap_val(rows_view(src@), taps@, i as int, 0));
            assert(m == reduce_abs::<T, Op>(rows_view(src@), taps@, i as int, 1));
        }
        let mut k: usize = 1;
        while k < nz
            invariant
                1 <= k <= nz,
                i < start + len,
                m == reduce_abs::<T, Op>(rows_view(src@), taps@, i as int, k as int),
            decreases nz - k,
        {
            proof {
                assert(taps@[k as int].0 < rows_view(src@).len());
                assert(rows_view(src@)[taps@[k as int].0 as int] == src@[taps@[k as int].0 as int]@);
                assert(src@[taps@[k as int].0 as int].len() == src@[taps@[k as int].0 as int]@.len());
                lemma_reduce_abs_step::<T, Op>(rows_view(src@), taps@, i as int, k as int);
            }
            let t = taps[k];
            m = Op::apply(m, src[t.0][t.1 + i]);
            k = k + 1;
        }
        dst.set(dst_off + i, m);
        i = i + 1;
    }
}

/// The lane-chunked strategy of the generic filter: folds every tap over a
/// prefix of one output row in descending vector groups and reports how far
/// it got.
pub trait VecFilter<T, Op: MorphOperator<T>> {
    fn apply(
        src: &Vec<Vec<T>>,
        taps: &Vec<(usize, usize)>,
        dst: &mut Vec<T>,
        dst_off: usize,
        width: usize,
    ) -> (r: usize)
        requires
            taps@.len() >= 1,
            taps_wf(rows_view(src@), taps@, width as int),
            old(dst)@.len() >= dst_off + width,
        ensures
            final(dst)@.len() == old(dst)@.len(),
            r <= width,
            forall|i: int|
                0 <= i < r ==> final(dst)@[dst_off + i] == reduce_abs::<T, Op>(
                    rows_view(src@),
                    taps@,
                    i,
                    taps@.len() as int,
                ),
            forall|p: int|
                0 <= p < final(dst)@.len() && !(dst_off <= p < dst_off + width) ==> final(dst)@[p]
                    == old(dst)@[p],
    ;
}

/// The lane-chunked generic strategy: groups of four, two, one, and half a
/// vector width from the row's left edge.
pub struct MorphVec<T, Op> {
    pub _t: PhantomData<T>,
    pub _op: PhantomData<Op>,
}

impl<T: Copy, Op: MorphOperator<T>> VecFilter<T, Op> for MorphVec<T, Op> {
    #[verifier::loop_isolation(false)]
    fn apply(
        src: &Vec<Vec<T>>,
        taps: &Vec<(usize, usize)>,
        dst: &mut Vec<T>,
        dst_off: usize,
        width: usize,
    ) -> (r: usize) {
        proof {
            assert(dst.len() == dst@.len());
        }
        let mut x: usize = 0;
        while width - x >= 4 * LANES
            invariant
                x <= width,
                dst@.len() == old(dst)@.len(),
                forall|i: int|
                    0 <= i < x ==> dst@[dst_off + i] == reduce_abs::<T, Op>(
                        rows_view(src@),
                        taps@,
                        i,
                        taps@.len() as int,
                    ),
                forall|p: int|
                    0 <= p < dst@.len() && !(dst_off <= p < dst_off + width) ==> dst@[p] == old(
                        dst,
                    )@[p],
            decreases width - x,
        {
            taps_span::<T, Op>(src, taps, dst, dst_off, x, 4 * LANES);
            x = x + 4 * LANES;
        }
        if width - x >= 2 * LANES {
            taps_span::<T, Op>(src, taps, dst, dst_off, x, 2 * LANES);
            x = x + 2 * LANES;
        }
        if width - x >= LANES {
            taps_span::<T, Op>(src, taps, dst, dst_off, x, LANES);
            x = x + LANES;
        }
        if width - x >= LANES / 2 {
            taps_span::<T, Op>(src, taps, dst, dst_off, x, LANES / 2);
            x = x + LANES / 2;
        }
        x
    }
}

/// Scalar tail for the generic filter: covers offsets `[x0, width)` of one
/// output row in groups of four, then one by one.
#[verifier::loop_isolation(false)]
fn taps_tail<T: Copy, Op: MorphOperator<T>>(
    src: &Vec<Vec<T>>,
    taps: &Vec<(usize, usize)>,
    dst: &mut Vec<T>,
    dst_off: usize,
    x0: usize,
    width: usize,
)
    requires
        taps@.len() >= 1,
        taps_wf(rows_view(src@), taps@, width as int),
        x0 <= width,
        old(dst)@.len() >= dst_off + width,
    ensures
        final(dst)@.len() == old(dst)@.len(),
        forall|i: int|
            x0 <= i < width ==> final(dst)@[dst_off + i] == reduce_abs::<T, Op>(
                rows_view(src@),
                taps@,
                i,
                taps@.len() as int,
            ),
        forall|p: int|
            0 <= p < final(dst)@.len() && !(dst_off + x0 <= p < dst_off + width) ==> final(dst)@[p]
                == old(dst)@[p],
{
    proof {
        assert(dst.len() == dst@.len());
    }
    let mut x = x0;
    while width - x >= 4
        invariant
            x0 <= x <= width,
            dst@.len() == old(dst)@.len(),
            forall|i: int|
                x0 <= i < x ==> dst@[dst_off + i] == reduce_abs::<T, Op>(
                    rows_view(src@),
                    taps@,
                    i,
                    taps@.len() as int,
                ),
            forall|p: int|
                0 <= p < dst@.len() && !(dst_off + x0 <= p < dst_off + x) ==> dst@[p] == old(
                    dst,
                )@[p],
        decreases width - x,
    {
        taps_span::<T, Op>(src, taps, dst, dst_off, x, 4);
        x = x + 4;
    }
    while x < width
        invariant
            x0 <= x <= width,
            dst@.len() == old(dst)@.len(),
            forall|i: int|
                x0 <= i < x ==> dst@[dst_off + i] == reduce_abs::<T, Op>(
                    rows_view(src@),
                    taps@,
                    i,
                    taps@.len() as int,
                ),
            forall|p: int|
                0 <= p < dst@.len() && !(dst_off + x0 <= p < dst_off + x) ==> dst@[p] == old(
                    dst,
                )@[p],
        decreases width - x,
    {
        taps_span::<T, Op>(src, taps, dst, dst_off, x, 1);
        x = x + 1;
    }
}

/// With the scratch list holding, for row `y`, the absolute position of
/// every tap of the coordinate list, the absolute-tap fold equals the
/// coordinate-list reduction at `y`.
proof fn lemma_abs_matches_coords<T, Op: MorphOperator<T>>(
    rows: Seq<Seq<T>>,
    coords: Seq<Point>,
    taps: Seq<(usize, usize)>,
    y: int,
    i: int,
    ch: int,
)
    requires
        taps.len() == coords.len(),
        coords.len() >= 1,
        forall|k: int|
            0 <= k < coords.len() ==> (#[trigger] taps[k]).0 == y + coords[k].y && taps[k].1
                == coords[k].x * ch,
    ensures
        reduce_abs::<T, Op>(rows, taps, i, taps.len() as int) == reduce_taps::<T, Op>(
            rows,
            coords,
            y,
            i,
            ch,
        ),
{
    assert(Seq::new(taps.len(), |j: int| tap_val(rows, taps, i, j)) =~= coords.map_values(
        |p: Point| rows[y + p.y][p.x * ch + i],
    ));
}

/// A filter for an arbitrary 2-D structuring element: `coords` is the tap
/// list extracted from the mask, and `ptrs` the per-invocation scratch that
/// holds each tap's absolute (row, column base) for the output row being
/// produced. `anchor` records where the caller aligned the element.
pub struct MorphFilter<T: Copy, Op: MorphOperator<T>, VecOp: VecFilter<T, Op>> {
    pub ksize: Size,
    pub anchor: Point,
    pub coords: Vec<Point>,
    pub ptrs: Vec<(usize, usize)>,
    pub _t: PhantomData<T>,
    pub _op: PhantomData<Op>,
    pub _vec: PhantomData<VecOp>,
}

impl<T: Copy, Op: MorphOperator<T>, VecOp: VecFilter<T, Op>> MorphFilter<T, Op, VecOp> {
    /// The horizontal extent the taps can reach: at least one column even
    /// for a degenerate mask, whose single tap sits at the origin.
    pub open spec fn kw_eff(&self) -> usize {
        if self.ksize.width == 0 {
            1
        } else {
            self.ksize.width
        }
    }

    /// The vertical extent the taps can reach.
    pub open spec fn kh_eff(&self) -> usize {
        if self.ksize.height == 0 {
            1
        } else {
            self.ksize.height
        }
    }

    /// The filter is well formed when it has at least one tap and every tap
    /// lies inside the structuring element's (effective) extent.
    pub open spec fn wf(&self) -> bool {
        &&& self.coords@.len() >= 1
        &&& forall|k: int|
            0 <= k < self.coords@.len() ==> (#[trigger] self.coords@[k]).x < self.kw_eff()
                && self.coords@[k].y < self.kh_eff()
    }

    /// Builds the filter from a dense mask: the tap list is the row-major
    /// scan of the mask's active cells, or the origin alone if none is.
    pub fn new<B: Element>(kernel: &[B], ksize: Size, anchor: Point) -> (r: Self)
        requires
            kernel@.len() >= ksize.width * ksize.height,
        ensures
            r.wf(),
            r.ksize == ksize,
            r.anchor == anchor,
            r.coords@ == kernel_coords(mask_of(kernel@), ksize.width as int, ksize.height as int),
    {
        let coords = process_2d_kernel(kernel, ksize);
        let ptrs: Vec<(usize, usize)> = Vec::new();
        Self { ksize, anchor, coords, ptrs, _t: PhantomData, _op: PhantomData, _vec: PhantomData }
    }

    /// Writes `count` output rows of `width * ch` elements each, `dst_step`
    /// apart: element `i` of output row `y` is the fold of the operator
    /// over all taps `p`, each reading `src[y + p.y][p.x * ch + i]`.
    /// Everything outside those bands is unchanged. The scratch tap list is
    /// repopulated for every output row, since the absolute rows shift.
    #[verifier::loop_isolation(false)]
    pub fn apply(
        &mut self,
        src: &Vec<Vec<T>>,
        dst: &mut Vec<T>,
        dst_step: usize,
        count: usize,
        width: usize,
        ch: usize,
    )
        requires
            old(self).wf(),
            ch >= 1,
            src@.len() + 1 >= count + old(self).kh_eff(),
            rows_at_least(rows_view(src@), width * ch + (old(self).kw_eff() - 1) * ch),
            dst_step >= width * ch,
            count > 0 ==> old(dst)@.len() >= (count - 1) * dst_step + width * ch,
        ensures
            final(self).wf(),
            final(self).coords@ == old(self).coords@,
            final(self).ksize == old(self).ksize,
            final(self).anchor == old(self).anchor,
            final(dst)@.len() == old(dst)@.len(),
            forall|y: int, i: int|
                0 <= y < count && 0 <= i < width * ch ==> #[trigger] elem_at(
                    final(dst)@,
                    y,
                    dst_step as int,
                    i,
                ) == reduce_taps::<T, Op>(rows_view(src@), old(self).coords@, y, i, ch as int),
            forall|p: int|
                0 <= p < final(dst)@.len() && outside_bands(
                    p,
                    count as int,
                    dst_step as int,
                    width * ch as int,
                ) ==> final(dst)@[p] == old(dst)@[p],
    {
        proof {
            assert(src.len() == src@.len());
            assert(dst.len() == dst@.len());
            assert(self.coords.len() == self.coords@.len());
        }
        if count == 0 {
            return ;
        }
        let ghost rows = rows_view(src@);
        let ghost coords0 = self.coords@;
        let nz = self.coords.len();
        proof {
            assert(src@[0].len() == src@[0]@.len());
            assert(rows_at_least(rows, width * ch + (self.kw_eff() - 1) * ch));
            assert(rows[0].len() >= width * ch + (self.kw_eff() - 1) * ch);
            vstd::arithmetic::mul::lemma_mul_nonnegative(
                count as int - 1,
                dst_step as int,
            );
        }
        let wch = width * ch;
        let mut y: usize = 0;
        let mut d: usize = 0;
        while y < count
            invariant
                y <= count,
                y < count ==> d == y * dst_step,
                wch == width * ch,
                self.coords@ == coords0,
                self.ksize == old(self).ksize,
                self.anchor == old(self).anchor,
                dst@.len() == old(dst)@.len(),
                forall|yy: int, i: int|
                    0 <= yy < y && 0 <= i < wch ==> #[trigger] elem_at(
                        dst@,
                        yy,
                        dst_step as int,
                        i,
                    ) == reduce_taps::<T, Op>(rows, coords0, yy, i, ch as int),
                forall|p: int|
                    0 <= p < dst@.len() && outside_bands(
                        p,
                        count as int,
                        dst_step as int,
                        wch as int,
                    ) ==> dst@[p] == old(dst)@[p],
            decreases count - y,
        {
            proof {
                lemma_mul_inequality(y as int, count as int - 1, dst_step as int);
                lemma_mul_is_distributive_add_other_way(dst_step as int, y as int, 1int);
            }
            // Materialize the absolute source position of every tap for
            // this output row.
            self.ptrs.clear();
            let mut k: usize = 0;
            while k < nz
                invariant
                    k <= nz,
                    nz == self.coords@.len(),
                    y < count,
                    self.coords@ == coords0,
                    self.ksize == old(self).ksize,
                    self.anchor == old(self).anchor,
                    self.ptrs@.len() == k,
                    forall|j: int|
                        0 <= j < k ==> (#[trigger] self.ptrs@[j]).0 == y + coords0[j].y
                            && self.ptrs@[j].1 == coords0[j].x * ch,
                decreases nz - k,
            {
                let p = self.coords[k];
                proof {
                    lemma_mul_inequality(p.x as int, self.kw_eff() as int - 1, ch as int);
                }
                self.ptrs.push((y + p.y, p.x * ch));
                k = k + 1;
            }
            proof {
                assert(taps_wf(rows, self.ptrs@, wch as int)) by {
                    assert forall|j: int|
                        0 <= j < self.ptrs@.len() implies (#[trigger] self.ptrs@[j]).0
                        < rows.len() && self.ptrs@[j].1 + wch as int <= rows[
                        self.ptrs@[j].0 as int
                    ].len() by {
                        lemma_mul_inequality(
                            coords0[j].x as int,
                            self.kw_eff() as int - 1,
                            ch as int,
                        );
                        assert(rows[self.ptrs@[j].0 as int].len() >= width * ch + (
                        self.kw_eff() - 1) * ch);
                    }
                }
            }
            let ghost pre = dst@;
            let i0 = VecOp::apply(src, &self.ptrs, dst, d, wch);
            taps_tail::<T, Op>(src, &self.ptrs, dst, d, i0, wch);
            proof {
                crate::column::lemma_col_write_frame(
                    pre,
                    dst@,
                    count as int,
                    dst_step as int,
                    wch as int,
                    y as int,
                    y as int,
                    0int,
                    wch as int,
                );
                assert forall|yy: int, i: int|
                    0 <= yy < y + 1 && 0 <= i < wch implies #[trigger] elem_at(
                    dst@,
                    yy,
                    dst_step as int,
                    i,
                ) == reduce_taps::<T, Op>(rows, coords0, yy, i, ch as int) by {
                    if yy == y as int {
                        assert(dst@[d + i] == reduce_abs::<T, Op>(
                            rows,
                            self.ptrs@,
                            i,
                            self.ptrs@.len() as int,
                        ));
                        lemma_abs_matches_coords::<T, Op>(
                            rows,
                            coords0,
                            self.ptrs@,
                            y as int,
                            i,
                            ch as int,
                        );
                    }
                }
            }
            y = y + 1;
            if y < count {
                proof {
                    lemma_mul_inequality(y as int, count as int - 1, dst_step as int);
                }
                d = d + dst_step;
            }
        }
    }
}

} // verus!
