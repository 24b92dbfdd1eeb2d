//! The row filter: a horizontal 1-D reduction of `ksize` taps, each spaced
//! `channels` elements apart, over one row. A lane-chunked phase walks the
//! row in descending power-of-two groups of the vector lane width, and a
//! scalar tail finishes the remainder with a centered two-outputs-at-a-time
//! scan that shares the interior partial reduction of each pair.

use vstd::prelude::*;

use core::marker::PhantomData;
use vstd::arithmetic::div_mod::lemma_fundamental_div_mod;
use vstd::arithmetic::div_mod::lemma_mod_bound;
use vstd::arithmetic::div_mod::lemma_mod_multiples_basic;
use vstd::arithmetic::div_mod::lemma_mod_multiples_vanish;
use vstd::arithmetic::mul::lemma_mul_inequality;
use vstd::arithmetic::mul::lemma_mul_nonnegative;
use vstd::pervasive::VecAdditionalExecFns;

use crate::ops::MorphOperator;
use crate::reduce::lemma_reduce_row_identity;
use crate::reduce::lemma_reduce_row_shift;
use crate::reduce::lemma_reduce_row_step;
use crate::reduce::reduce_row;

verus! {

/// The lane width of the modelled vector unit: how many elements one
/// full-width vector operation covers.
pub const LANES: usize = 8;

/// Writes `dst[i]` for every `i` in `[start, start + len)` with the full
/// horizontal reduction of `ksize` taps spaced `ch` apart, leaving every
/// other element of `dst` unchanged.
#[verifier::loop_isolation(false)]
fn reduce_row_span<T: Copy, Op: MorphOperator<T>>(
    src: &Vec<T>,
    dst: &mut Vec<T>,
    start: usize,
    len: usize,
    ch: usize,
    ksize: usize,
)
    requires
        ch >= 1,
        ksize >= 1,
        src@.len() >= start + len + (ksize - 1) * ch,
        old(dst)@.len() >= start + len,
    ensures
        final(dst)@.len() == old(dst)@.len(),
        forall|p: int|
            start <= p < start + len ==> final(dst)@[p] == reduce_row::<T, Op>(
                src@,
                p,
                ch as int,
                ksize as int,
            ),
        forall|p: int| 0 <= p < start ==> final(dst)@[p] == old(dst)@[p],
        forall|p: int| start + len <= p < final(dst)@.len() ==> final(dst)@[p] == old(dst)@[p],
{
    proof {
        assert(src.len() == src@.len());
        assert(dst.len() == dst@.len());
    }
    let mut i = start;
    while i < start + len
        invariant
            ch >= 1,
            ksize >= 1,
            src@.len() >= start + len + (ksize - 1) * ch,
            old(dst)@.len() >= start + len,
            start <= i <= start + len,
            dst@.len() == old(dst)@.len(),
            forall|p: int|
                start <= p < i ==> dst@[p] == reduce_row::<T, Op>(
                    src@,
                    p,
                    ch as int,
                    ksize as int,
                ),
            forall|p: int| 0 <= p < start ==> dst@[p] == old(dst)@[p],
            forall|p: int| i <= p < dst@.len() ==> dst@[p] == old(dst)@[p],
        decreases start + len - i,
    {
        let mut m = src[i];
        proof {
            lemma_reduce_row_identity::<T, Op>(src@, i as int, ch as int);
        }
        let mut k: usize = 1;
        while k < ksize
            invariant
                ch >= 1,
                1 <= k <= ksize,
                i < start + len,
                src@.len() >= start + len + (ksize - 1) * ch,
                m == reduce_row::<T, Op>(src@, i as int, ch as int, k as int),
            decreases ksize - k,
        {
            proof {
                lemma_mul_inequality(k as int, (ksize - 1) as int, ch as int);
                lemma_reduce_row_step::<T, Op>(src@, i as int, ch as int, k as int);
            }
            m = Op::apply(m, src[i + k * ch]);
            k = k + 1;
        }
        dst.set(i, m);
        i = i + 1;
    }
}

/// In a window of one pixel (`ch` elements) starting at a channel-aligned
/// index, exactly one element carries channel residue `k`.
proof fn lemma_residue_single(i: int, ch: int, k: int, p: int)
    requires
        ch >= 1,
        0 <= k < ch,
        i % ch == 0,
        i <= p < i + ch,
        p % ch == k,
    ensures
        p == i + k,
{
    lemma_fundamental_div_mod(p, ch);
    lemma_fundamental_div_mod(i, ch);
    let q = p / ch;
    let qi = i / ch;
    assert(q == qi) by (nonlinear_arith)
        requires
            p == ch * q + k,
            i == ch * qi,
            0 <= k < ch,
            i <= p < i + ch,
            ch >= 1,
    ;
}

/// In a window of two pixels starting at a channel-aligned index, exactly
/// two elements carry channel residue `k`: one in each pixel.
proof fn lemma_residue_pair(i: int, ch: int, k: int, p: int)
    requires
        ch >= 1,
        0 <= k < ch,
        i % ch == 0,
        i <= p < i + 2 * ch,
        p % ch == k,
    ensures
        p == i + k || p == i + ch + k,
{
    lemma_fundamental_div_mod(p, ch);
    lemma_fundamental_div_mod(i, ch);
    let q = p / ch;
    let qi = i / ch;
    assert(q == qi || q == qi + 1) by (nonlinear_arith)
        requires
            p == ch * q + k,
            i == ch * qi,
            0 <= k < ch,
            i <= p < i + 2 * ch,
            ch >= 1,
    ;
    if q == qi + 1 {
        assert(p == ch * (qi + 1) + k);
        assert(ch * (qi + 1) == ch * qi + ch) by (nonlinear_arith);
    }
}

/// The lane-chunked strategy of a row filter: covers a prefix of the row in
/// descending vector groups and reports how far it got. `ksize_spec` is the
/// tap count the strategy was built for.
pub trait VecRow<T, Op: MorphOperator<T>>: Sized {
    spec fn ksize_spec(&self) -> usize;

    fn new(ksize: usize, anchor: usize) -> (r: Self)
        ensures
            r.ksize_spec() == ksize,
    ;

    /// Covers element indices `[0, r)` with the full reduction, where `r`
    /// is a multiple of `ch` no greater than `width * ch`; elements at and
    /// beyond `width * ch` are untouched, and those in between may hold
    /// anything (the scalar tail rewrites them).
    fn apply(&self, src: &Vec<T>, dst: &mut Vec<T>, width: usize, ch: usize) -> (r: usize)
        requires
            self.ksize_spec() >= 1,
            ch >= 1,
            src@.len() >= (width + self.ksize_spec() - 1) * ch,
            old(dst)@.len() >= width * ch,
        ensures
            final(dst)@.len() == old(dst)@.len(),
            r <= width * ch,
            r as int % (ch as int) == 0,
            forall|p: int|
                0 <= p < r ==> final(dst)@[p] == reduce_row::<T, Op>(
                    src@,
                    p,
                    ch as int,
                    self.ksize_spec() as int,
                ),
            forall|p: int| width * ch <= p < final(dst)@.len() ==> final(dst)@[p] == old(dst)@[p],
    ;
}

/// The lane-chunked row strategy: groups of four, two, one, and half a
/// vector width, in that order, starting at the row's left edge.
pub struct MorphRowVec {
    k_size: usize,
}

impl<T: Copy, Op: MorphOperator<T>> VecRow<T, Op> for MorphRowVec {
    closed spec fn ksize_spec(&self) -> usize {
        self.k_size
    }

    fn new(k_size: usize, _anchor: usize) -> Self {
        Self { k_size }
    }

    #[verifier::loop_isolation(false)]
    fn apply(&self, src: &Vec<T>, dst: &mut Vec<T>, width: usize, ch: usize) -> (r: usize) {
        let ksize = self.k_size;
        proof {
            assert(src.len() == src@.len());
            assert(dst.len() == dst@.len());
            lemma_mul_inequality(width as int, (width + ksize - 1) as int, ch as int);
            assert((width + ksize - 1) * ch == width * ch + (ksize - 1) * ch) by (nonlinear_arith);
        }
        let w = width * ch;
        let mut x: usize = 0;
        while w - x >= 4 * LANES
            invariant
                ch >= 1,
                ksize >= 1,
                ksize == self.k_size,
                w == width * ch,
                src@.len() >= w + (ksize - 1) * ch,
                old(dst)@.len() >= w,
                x <= w,
                dst@.len() == old(dst)@.len(),
                forall|p: int|
                    0 <= p < x ==> dst@[p] == reduce_row::<T, Op>(
                        src@,
                        p,
                        ch as int,
                        ksize as int,
                    ),
                forall|p: int| x <= p < dst@.len() ==> dst@[p] == old(dst)@[p],
            decreases w - x,
        {
            reduce_row_span::<T, Op>(src, dst, x, 4 * LANES, ch, ksize);
            x = x + 4 * LANES;
        }
        if w - x >= 2 * LANES {
            reduce_row_span::<T, Op>(src, dst, x, 2 * LANES, ch, ksize);
            x = x + 2 * LANES;
        }
        if w - x >= LANES {
            reduce_row_span::<T, Op>(src, dst, x, LANES, ch, ksize);
            x = x + LANES;
        }
        if w - x >= LANES / 2 {
            reduce_row_span::<T, Op>(src, dst, x, LANES / 2, ch, ksize);
            x = x + LANES / 2;
        }
        let rem = x % ch;
        proof {
            lemma_fundamental_div_mod(x as int, ch as int);
            lemma_mod_bound(x as int, ch as int);
            lemma_mul_nonnegative(x as int / ch as int, ch as int);
            lemma_mod_multiples_basic(x as int / ch as int, ch as int);
            assert(x as int - rem == (ch as int) * (x as int / ch as int));
            vstd::arithmetic::mul::lemma_mul_is_commutative(ch as int, x as int / ch as int);
            vstd::arithmetic::div_mod::lemma_fundamental_div_mod_converse_mod(
                x as int - rem,
                ch as int,
                x as int / ch as int,
                0int,
            );
        }
        x - rem
    }
}

/// A horizontal morphological filter: `ksize` taps per output element, one
/// tap per channel-spaced pixel. `anchor` records where the caller aligned
/// the kernel; it does not change the reduction itself.
pub struct MorphRowFilter<T: Copy, Scalar: MorphOperator<T>, VecOp: VecRow<T, Scalar>> {
    pub ksize: usize,
    pub anchor: usize,
    pub vec: VecOp,
    pub _t: PhantomData<T>,
    pub _scalar: PhantomData<Scalar>,
}

impl<T: Copy, Scalar: MorphOperator<T>, VecOp: VecRow<T, Scalar>> MorphRowFilter<
    T,
    Scalar,
    VecOp,
> {
    /// The filter is well formed when its lane-chunked strategy was built
    /// for the same tap count and the kernel is non-empty.
    pub open spec fn wf(&self) -> bool {
        &&& self.ksize >= 1
        &&& self.vec.ksize_spec() == self.ksize
    }

    pub fn new(ksize: usize, anchor: usize) -> (r: Self)
        requires
            ksize >= 1,
        ensures
            r.wf(),
            r.ksize == ksize,
            r.anchor == anchor,
    {
        let vec = VecOp::new(ksize, anchor);
        Self { ksize, anchor, vec, _t: PhantomData, _scalar: PhantomData }
    }

    /// Fills the first `width * ch` elements of `dst` with the horizontal
    /// reduction of `ksize` taps of `src`, leaving the rest of `dst`
    /// unchanged. The caller supplies a source row extended on the right by
    /// the kernel extent: `(width + ksize - 1) * ch` elements.
    #[verifier::loop_isolation(false)]
    pub fn apply(&self, src: &Vec<T>, dst: &mut Vec<T>, width: usize, ch: usize)
        requires
            self.wf(),
            ch >= 1,
            src@.len() >= (width + self.ksize - 1) * ch,
            old(dst)@.len() >= width * ch,
        ensures
            final(dst)@.len() == old(dst)@.len(),
            forall|p: int|
                0 <= p < width * ch ==> final(dst)@[p] == reduce_row::<T, Scalar>(
                    src@,
                    p,
                    ch as int,
                    self.ksize as int,
                ),
            forall|p: int| width * ch <= p < final(dst)@.len() ==> final(dst)@[p] == old(dst)@[p],
    {
        let ksize = self.ksize;
        proof {
            assert(src.len() == src@.len());
            assert(dst.len() == dst@.len());
            lemma_mul_inequality(width as int, (width + ksize - 1) as int, ch as int);
            assert((width + ksize - 1) * ch == width * ch + (ksize - 1) * ch) by (nonlinear_arith);
        }
        let w = width * ch;

        if ksize == 1 {
            // A one-tap kernel is a straight copy of the row.
            let mut i: usize = 0;
            while i < w
                invariant
                    w <= src@.len(),
                    w <= old(dst)@.len(),
                    i <= w,
                    ch >= 1,
                    dst@.len() == old(dst)@.len(),
                    forall|p: int|
                        0 <= p < i ==> dst@[p] == reduce_row::<T, Scalar>(src@, p, ch as int, 1),
                    forall|p: int| i <= p < dst@.len() ==> dst@[p] == old(dst)@[p],
                decreases w - i,
            {
                proof {
                    lemma_reduce_row_identity::<T, Scalar>(src@, i as int, ch as int);
                }
                let v = src[i];
                dst.set(i, v);
                i = i + 1;
            }
            return ;
        }

        let i0 = self.vec.apply(src, dst, width, ch);
        proof {
            lemma_mod_multiples_basic(width as int, ch as int);
        }

        let mut k: usize = 0;
        while k < ch
            invariant
                ch >= 1,
                ksize >= 2,
                ksize == self.ksize,
                w == width * ch,
                w as int % (ch as int) == 0,
                i0 <= w,
                i0 as int % (ch as int) == 0,
                src@.len() >= w + (ksize - 1) * ch,
                old(dst)@.len() >= w,
                k <= ch,
                dst@.len() == old(dst)@.len(),
                forall|p: int|
                    0 <= p < i0 ==> dst@[p] == reduce_row::<T, Scalar>(
                        src@,
                        p,
                        ch as int,
                        ksize as int,
                    ),
                forall|p: int|
                    i0 <= p < w && p % (ch as int) < k ==> dst@[p] == reduce_row::<T, Scalar>(
                        src@,
                        p,
                        ch as int,
                        ksize as int,
                    ),
                forall|p: int| w <= p < dst@.len() ==> dst@[p] == old(dst)@[p],
            decreases ch - k,
        {
            let mut i = i0;
            // Pairs of outputs: the interior taps 1..ksize-1 are reduced
            // once and then combined with the leftmost tap for the first
            // output and with the rightmost tap for the second.
            if ch <= w / 2 {
                while i < w - 2 * ch
                    invariant
                        ch >= 1,
                        ksize >= 2,
                        2 * ch <= w,
                        w == width * ch,
                        w as int % (ch as int) == 0,
                        i0 <= i <= w,
                        i as int % (ch as int) == 0,
                        i0 as int % (ch as int) == 0,
                        k < ch,
                        w <= old(dst)@.len(),
                        src@.len() >= w + (ksize - 1) * ch,
                        dst@.len() == old(dst)@.len(),
                        forall|p: int|
                            0 <= p < i0 ==> dst@[p] == reduce_row::<T, Scalar>(
                                src@,
                                p,
                                ch as int,
                                ksize as int,
                            ),
                        forall|p: int|
                            i0 <= p < w && p % (ch as int) < k ==> dst@[p] == reduce_row::<
                                T,
                                Scalar,
                            >(src@, p, ch as int, ksize as int),
                        forall|p: int|
                            i0 <= p < i && p % (ch as int) == k ==> dst@[p] == reduce_row::<
                                T,
                                Scalar,
                            >(src@, p, ch as int, ksize as int),
                        forall|p: int| w <= p < dst@.len() ==> dst@[p] == old(dst)@[p],
                    decreases w - i,
                {
                    let base = k + i + ch;
                    let mut m = src[base];
                    proof {
                        lemma_reduce_row_identity::<T, Scalar>(src@, base as int, ch as int);
                    }
                    let mut t: usize = 2;
                    while t < ksize
                        invariant
                            ch >= 1,
                            2 <= t <= ksize,
                            base == k + i + ch,
                            k < ch,
                            i < w,
                            src@.len() >= w + (ksize - 1) * ch,
                            m == reduce_row::<T, Scalar>(
                                src@,
                                base as int,
                                ch as int,
                                (t - 1) as int,
                            ),
                        decreases ksize - t,
                    {
                        proof {
                            lemma_mul_inequality((t - 1) as int, (ksize - 1) as int, ch as int);
                            lemma_reduce_row_step::<T, Scalar>(
                                src@,
                                base as int,
                                ch as int,
                                (t - 1) as int,
                            );
                        }
                        m = Scalar::apply(m, src[base + (t - 1) * ch]);
                        t = t + 1;
                    }
                    // First output of the pair: combine with the tap at the
                    // window's left edge.
                    proof {
                        lemma_reduce_row_shift::<T, Scalar>(
                            src@,
                            (k + i) as int,
                            ch as int,
                            ksize as int,
                        );
                        lemma_mod_multiples_vanish(
                            (i / ch) as int,
                            k as int,
                            ch as int,
                        );
                        assert(ch * ((i / ch) as int) + k == k + i) by {
                            lemma_fundamental_div_mod(i as int, ch as int);
                        }
                        lemma_mod_bound(k as int, ch as int);
                        assert((k + i) % (ch as int) == k) by {
                            assert(k as int % (ch as int) == k) by {
                                vstd::arithmetic::div_mod::lemma_small_mod(k as nat, ch as nat);
                            }
                        }
                    }
                    let first = Scalar::apply(m, src[k + i]);
                    dst.set(k + i, first);
                    // Second output: combine with the tap one past the
                    // window's right edge, the leftmost tap of the shifted
                    // window.
                    proof {
                        lemma_reduce_row_step::<T, Scalar>(
                            src@,
                            base as int,
                            ch as int,
                            (ksize - 1) as int,
                        );
                        assert(ksize * ch == (ksize - 1) * ch + ch) by (nonlinear_arith);
                        assert(base + (ksize - 1) * ch == k + i + ksize * ch);
                        lemma_mul_inequality((ksize - 1) as int, (ksize - 1) as int, ch as int);
                        lemma_mod_multiples_vanish(1int, (k + i) as int, ch as int);
                    }
                    let second = Scalar::apply(m, src[base + (ksize - 1) * ch]);
                    dst.set(k + i + ch, second);
                    proof {
                        lemma_mod_multiples_vanish(2int, i as int, ch as int);
                        assert forall|p: int|
                            i0 <= p < i + 2 * ch && p % (ch as int) == k implies dst@[p]
                            == reduce_row::<T, Scalar>(src@, p, ch as int, ksize as int) by {
                            if i <= p {
                                lemma_residue_pair(i as int, ch as int, k as int, p);
                            }
                        }
                    }
                    i = i + 2 * ch;
                }
            }
            // Leftover single outputs beyond the pairs.
            while i < w
                invariant
                    ch >= 1,
                    ksize >= 2,
                    w == width * ch,
                    w as int % (ch as int) == 0,
                    i0 <= i <= w,
                    i as int % (ch as int) == 0,
                    i0 as int % (ch as int) == 0,
                    k < ch,
                    w <= old(dst)@.len(),
                    src@.len() >= w + (ksize - 1) * ch,
                    dst@.len() == old(dst)@.len(),
                    forall|p: int|
                        0 <= p < i0 ==> dst@[p] == reduce_row::<T, Scalar>(
                            src@,
                            p,
                            ch as int,
                            ksize as int,
                        ),
                    forall|p: int|
                        i0 <= p < w && p % (ch as int) < k ==> dst@[p] == reduce_row::<T, Scalar>(
                            src@,
                            p,
                            ch as int,
                            ksize as int,
                        ),
                    forall|p: int|
                        i0 <= p < i && p % (ch as int) == k ==> dst@[p] == reduce_row::<T, Scalar>(
                            src@,
                            p,
                            ch as int,
                            ksize as int,
                        ),
                    forall|p: int| w <= p < dst@.len() ==> dst@[p] == old(dst)@[p],
                decreases w - i,
            {
                proof {
                    // i is a multiple of ch below w, itself a multiple, so
                    // i + ch still fits and k + i addresses channel k.
                    lemma_fundamental_div_mod(i as int, ch as int);
                    lemma_fundamental_div_mod(w as int, ch as int);
                    let qi = i as int / ch as int;
                    let qw = w as int / ch as int;
                    vstd::arithmetic::mul::lemma_mul_is_commutative(ch as int, qi);
                    vstd::arithmetic::mul::lemma_mul_is_commutative(ch as int, qw);
                    assert(qi * (ch as int) < qw * (ch as int));
                    vstd::arithmetic::mul::lemma_mul_strict_inequality_converse(
                        qi,
                        qw,
                        ch as int,
                    );
                    lemma_mul_inequality(qi + 1, qw, ch as int);
                    vstd::arithmetic::mul::lemma_mul_is_distributive_add_other_way(
                        ch as int,
                        qi,
                        1int,
                    );
                    assert(i + ch <= w);
                }
                let mut m = src[k + i];
                proof {
                    lemma_reduce_row_identity::<T, Scalar>(src@, (k + i) as int, ch as int);
                    lemma_mod_multiples_vanish((i / ch) as int, k as int, ch as int);
                    assert(ch * ((i / ch) as int) + k == k + i);
                    assert(k as int % (ch as int) == k) by {
                        vstd::arithmetic::div_mod::lemma_small_mod(k as nat, ch as nat);
                    }
                }
                let mut t: usize = 1;
                while t < ksize
                    invariant
                        ch >= 1,
                        1 <= t <= ksize,
                        k < ch,
                        i <= w - ch,
                        w <= old(dst)@.len(),
                        src@.len() >= w + (ksize - 1) * ch,
                        m == reduce_row::<T, Scalar>(src@, (k + i) as int, ch as int, t as int),
                    decreases ksize - t,
                {
                    proof {
                        lemma_mul_inequality(t as int, (ksize - 1) as int, ch as int);
                        lemma_reduce_row_step::<T, Scalar>(
                            src@,
                            (k + i) as int,
                            ch as int,
                            t as int,
                        );
                    }
                    m = Scalar::apply(m, src[k + i + t * ch]);
                    t = t + 1;
                }
                dst.set(k + i, m);
                proof {
                    lemma_mod_multiples_vanish(1int, i as int, ch as int);
                    assert forall|p: int|
                        i0 <= p < i + ch && p % (ch as int) == k implies dst@[p] == reduce_row::<
                        T,
                        Scalar,
                    >(src@, p, ch as int, ksize as int) by {
                        if i <= p {
                            lemma_residue_single(i as int, ch as int, k as int, p);
                        }
                    }
                }
                i = i + ch;
            }
            proof {
                assert forall|p: int| i0 <= p < w && p % (ch as int) < k + 1 implies dst@[p]
                    == reduce_row::<T, Scalar>(src@, p, ch as int, ksize as int) by {
                    lemma_mod_bound(p, ch as int);
                }
            }
            k = k + 1;
        }
        proof {
            assert forall|p: int| i0 <= p < w implies dst@[p] == reduce_row::<T, Scalar>(
                src@,
                p,
                ch as int,
                ksize as int,
            ) by {
                lemma_mod_bound(p, ch as int);
            }
        }
    }
}

} // verus!
