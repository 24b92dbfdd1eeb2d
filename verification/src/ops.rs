//! The pointwise reduction operators. `MinOp` and `MaxOp` are the two
//! members of the operator abstraction: each gives a scalar form and a
//! lane-parallel (vector) form of the same associative, commutative
//! reduction, and substituting one for the other turns erosion into
//! dilation.

use vstd::prelude::*;

verus! {

/// An element type with a total min/max pair. The specification functions
/// fix what `min` and `max` return; the proof obligations state the
/// algebraic laws (commutativity, associativity) that the filters rely on
/// when they reorder or share partial reductions.
pub trait MinMax: Sized + Copy {
    spec fn min_spec(a: Self, b: Self) -> Self;

    spec fn max_spec(a: Self, b: Self) -> Self;

    proof fn min_commutes(a: Self, b: Self)
        ensures
            Self::min_spec(a, b) == Self::min_spec(b, a),
    ;

    proof fn min_associates(a: Self, b: Self, c: Self)
        ensures
            Self::min_spec(Self::min_spec(a, b), c) == Self::min_spec(a, Self::min_spec(b, c)),
    ;

    proof fn max_commutes(a: Self, b: Self)
        ensures
            Self::max_spec(a, b) == Self::max_spec(b, a),
    ;

    proof fn max_associates(a: Self, b: Self, c: Self)
        ensures
            Self::max_spec(Self::max_spec(a, b), c) == Self::max_spec(a, Self::max_spec(b, c)),
    ;

    fn min(a: Self, b: Self) -> (r: Self)
        ensures
            r == Self::min_spec(a, b),
    ;

    fn max(a: Self, b: Self) -> (r: Self)
        ensures
            r == Self::max_spec(a, b),
    ;
}

impl MinMax for u8 {
    open spec fn min_spec(a: u8, b: u8) -> u8 {
        if a <= b { a } else { b }
    }

    open spec fn max_spec(a: u8, b: u8) -> u8 {
        if a >= b { a } else { b }
    }

    proof fn min_commutes(a: u8, b: u8) {
    }

    proof fn min_associates(a: u8, b: u8, c: u8) {
    }

    proof fn max_commutes(a: u8, b: u8) {
    }

    proof fn max_associates(a: u8, b: u8, c: u8) {
    }

    fn min(a: u8, b: u8) -> u8 {
        if a <= b { a } else { b }
    }

    fn max(a: u8, b: u8) -> u8 {
        if a >= b { a } else { b }
    }
}

impl MinMax for u16 {
    open spec fn min_spec(a: u16, b: u16) -> u16 {
        if a <= b { a } else { b }
    }

    open spec fn max_spec(a: u16, b: u16) -> u16 {
        if a >= b { a } else { b }
    }

    proof fn min_commutes(a: u16, b: u16) {
    }

    proof fn min_associates(a: u16, b: u16, c: u16) {
    }

    proof fn max_commutes(a: u16, b: u16) {
    }

    proof fn max_associates(a: u16, b: u16, c: u16) {
    }

    fn min(a: u16, b: u16) -> u16 {
        if a <= b { a } else { b }
    }

    fn max(a: u16, b: u16) -> u16 {
        if a >= b { a } else { b }
    }
}

impl MinMax for i32 {
    open spec fn min_spec(a: i32, b: i32) -> i32 {
        if a <= b { a } else { b }
    }

    open spec fn max_spec(a: i32, b: i32) -> i32 {
        if a >= b { a } else { b }
    }

    proof fn min_commutes(a: i32, b: i32) {
    }

    proof fn min_associates(a: i32, b: i32, c: i32) {
    }

    proof fn max_commutes(a: i32, b: i32) {
    }

    proof fn max_associates(a: i32, b: i32, c: i32) {
    }

    fn min(a: i32, b: i32) -> i32 {
        if a <= b { a } else { b }
    }

    fn max(a: i32, b: i32) -> i32 {
        if a >= b { a } else { b }
    }
}

impl MinMax for i64 {
    open spec fn min_spec(a: i64, b: i64) -> i64 {
        if a <= b { a } else { b }
    }

    open spec fn max_spec(a: i64, b: i64) -> i64 {
        if a >= b { a } else { b }
    }

    proof fn min_commutes(a: i64, b: i64) {
    }

    proof fn min_associates(a: i64, b: i64, c: i64) {
    }

    proof fn max_commutes(a: i64, b: i64) {
    }

    proof fn max_associates(a: i64, b: i64, c: i64) {
    }

    fn min(a: i64, b: i64) -> i64 {
        if a <= b { a } else { b }
    }

    fn max(a: i64, b: i64) -> i64 {
        if a >= b { a } else { b }
    }
}

/// The scalar form of a pointwise reduction operator. `apply_spec` pins the
/// result; the proof obligations give the laws that let the filters compute
/// a shared partial reduction once and reuse it for two adjacent outputs.
pub trait MorphOperator<T> {
    spec fn apply_spec(a: T, b: T) -> T;

    proof fn apply_commutes(a: T, b: T)
        ensures
            Self::apply_spec(a, b) == Self::apply_spec(b, a),
    ;

    proof fn apply_associates(a: T, b: T, c: T)
        ensures
            Self::apply_spec(Self::apply_spec(a, b), c) == Self::apply_spec(a, Self::apply_spec(b, c)),
    ;

    fn apply(a: T, b: T) -> (r: T)
        ensures
            r == Self::apply_spec(a, b),
    ;
}

/// Erosion: the pointwise minimum.
pub struct MinOp;

/// Dilation: the pointwise maximum.
pub struct MaxOp;

impl<T: MinMax> MorphOperator<T> for MinOp {
    open spec fn apply_spec(a: T, b: T) -> T {
        T::min_spec(a, b)
    }

    proof fn apply_commutes(a: T, b: T) {
        T::min_commutes(a, b);
    }

    proof fn apply_associates(a: T, b: T, c: T) {
        T::min_associates(a, b, c);
    }

    fn apply(a: T, b: T) -> T {
        T::min(a, b)
    }
}

impl<T: MinMax> MorphOperator<T> for MaxOp {
    open spec fn apply_spec(a: T, b: T) -> T {
        T::max_spec(a, b)
    }

    proof fn apply_commutes(a: T, b: T) {
        T::max_commutes(a, b);
    }

    proof fn apply_associates(a: T, b: T, c: T) {
        T::max_associates(a, b, c);
    }

    fn apply(a: T, b: T) -> T {
        T::max(a, b)
    }
}

/// The vector form of a pointwise reduction operator: the same operator
/// applied lane-wise to two vectors of equal lane count. Its contract is
/// the scalar/vector equivalence the engine rests on: lane `k` of the
/// result equals the scalar operator applied to lane `k` of each argument.
pub trait VecMorphOperator<T>: MorphOperator<T> {
    fn apply_lanes(a: &[T], b: &[T]) -> (r: Vec<T>)
        requires
            a@.len() == b@.len(),
        ensures
            r@.len() == a@.len(),
            forall|k: int| 0 <= k < a@.len() ==> r@[k] == Self::apply_spec(a@[k], b@[k]),
    ;
}

impl<T: MinMax> VecMorphOperator<T> for MinOp {
    fn apply_lanes(a: &[T], b: &[T]) -> (r: Vec<T>)
    {
        let mut r: Vec<T> = Vec::new();
        let n = a.len();
        let mut k: usize = 0;
        while k < n
            invariant
                n == a@.len(),
                a@.len() == b@.len(),
                k <= n,
                r@.len() == k,
                forall|j: int| 0 <= j < k ==> r@[j] == <MinOp as MorphOperator<T>>::apply_spec(a@[j], b@[j]),
            decreases n - k,
        {
            r.push(T::min(a[k], b[k]));
            k = k + 1;
        }
        r
    }
}

impl<T: MinMax> VecMorphOperator<T> for MaxOp {
    fn apply_lanes(a: &[T], b: &[T]) -> (r: Vec<T>)
    {
        let mut r: Vec<T> = Vec::new();
        let n = a.len();
        let mut k: usize = 0;
        while k < n
            invariant
                n == a@.len(),
                a@.len() == b@.len(),
                k <= n,
                r@.len() == k,
                forall|j: int| 0 <= j < k ==> r@[j] == <MaxOp as MorphOperator<T>>::apply_spec(a@[j], b@[j]),
            decreases n - k,
        {
            r.push(T::max(a[k], b[k]));
            k = k + 1;
        }
        r
    }
}

} // verus!
