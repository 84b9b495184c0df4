//! The scalar arithmetic that the vector and matrix operations are built on.
//!
//! Every operation of the kernel is exact over an abstract scalar: each
//! executable operation is pinned to a specification-level counterpart, and
//! the algebraic laws that the kernel's lemmas need (identity and absorbing
//! elements, commutativity of the product, negation) are proof obligations
//! on every implementation.

use vstd::prelude::*;

verus! {

/// An exact scalar arithmetic.
///
/// `plus`, `minus`, `times`, `divide`, `absolute`, `square_root` and
/// `less_than` are the executable operations; each one returns exactly the
/// value of its `_spec` counterpart, so contracts over the kernel's types can
/// speak of scalar expressions precisely. Division is total: each
/// implementation fixes what a quotient with a zero divisor is. The `law_*`
/// proof obligations are the ring facts the kernel's lemmas rest on; every
/// implementation must prove them.
pub trait Scalar: Sized + Copy {
    /// The additive identity, as a specification value.
    spec fn zero_spec() -> Self;

    /// The multiplicative identity, as a specification value.
    spec fn one_spec() -> Self;

    /// What `plus` returns.
    spec fn plus_spec(self, o: Self) -> Self;

    /// What `minus` returns.
    spec fn minus_spec(self, o: Self) -> Self;

    /// What `times` returns.
    spec fn times_spec(self, o: Self) -> Self;

    /// What `divide` returns.
    spec fn div_spec(self, o: Self) -> Self;

    /// What `absolute` returns.
    spec fn abs_spec(self) -> Self;

    /// What `square_root` returns.
    spec fn sqrt_spec(self) -> Self;

    /// What `less_than` returns.
    spec fn lt_spec(self, o: Self) -> bool;

    /// The additive identity.
    fn zero() -> (r: Self)
        ensures
            r == Self::zero_spec(),
    ;

    /// The multiplicative identity.
    fn one() -> (r: Self)
        ensures
            r == Self::one_spec(),
    ;

    /// Addition.
    fn plus(self, o: Self) -> (r: Self)
        ensures
            r == self.plus_spec(o),
    ;

    /// Subtraction.
    fn minus(self, o: Self) -> (r: Self)
        ensures
            r == self.minus_spec(o),
    ;

    /// Multiplication.
    fn times(self, o: Self) -> (r: Self)
        ensures
            r == self.times_spec(o),
    ;

    /// Division; total, with the zero-divisor case fixed by `div_spec`.
    fn divide(self, o: Self) -> (r: Self)
        ensures
            r == self.div_spec(o),
    ;

    /// Absolute value.
    fn absolute(self) -> (r: Self)
        ensures
            r == self.abs_spec(),
    ;

    /// Square root.
    fn square_root(self) -> (r: Self)
        ensures
            r == self.sqrt_spec(),
    ;

    /// Strict order test.
    fn less_than(self, o: Self) -> (r: bool)
        ensures
            r == self.lt_spec(o),
    ;

    /// Equality test, agreeing with specification-level equality.
    fn equals(self, o: Self) -> (r: bool)
        ensures
            r == (self == o),
    ;

    /// Zero is a right identity of addition.
    proof fn law_plus_zero(a: Self)
        ensures
            a.plus_spec(Self::zero_spec()) == a,
    ;

    /// Zero is a left identity of addition.
    proof fn law_zero_plus(a: Self)
        ensures
            Self::zero_spec().plus_spec(a) == a,
    ;

    /// One is a right identity of multiplication.
    proof fn law_times_one(a: Self)
        ensures
            a.times_spec(Self::one_spec()) == a,
    ;

    /// One is a left identity of multiplication.
    proof fn law_one_times(a: Self)
        ensures
            Self::one_spec().times_spec(a) == a,
    ;

    /// Zero absorbs on the right of multiplication.
    proof fn law_times_zero(a: Self)
        ensures
            a.times_spec(Self::zero_spec()) == Self::zero_spec(),
    ;

    /// Zero absorbs on the left of multiplication.
    proof fn law_zero_times(a: Self)
        ensures
            Self::zero_spec().times_spec(a) == Self::zero_spec(),
    ;

    /// Multiplication is commutative.
    proof fn law_times_comm(a: Self, b: Self)
        ensures
            a.times_spec(b) == b.times_spec(a),
    ;

    /// Multiplying by minus one negates.
    proof fn law_times_neg_one(a: Self)
        ensures
            a.times_spec(Self::zero_spec().minus_spec(Self::one_spec()))
                == Self::zero_spec().minus_spec(a),
    ;

    /// Negation flips a difference.
    proof fn law_neg_minus(a: Self, b: Self)
        ensures
            Self::zero_spec().minus_spec(a.minus_spec(b)) == b.minus_spec(a),
    ;

    /// The strict order is irreflexive.
    proof fn law_lt_irrefl(a: Self)
        ensures
            !a.lt_spec(a),
    ;
}

/// The two-element field: the smallest scalar arithmetic, with exact
/// addition (exclusive or), multiplication (conjunction) and division.
/// Squaring is the identity in this field, so the square root is too.
#[derive(Clone, Copy, Debug, PartialEq, Eq, Structural)]
pub struct Gf2 {
    pub v: bool,
}

impl Scalar for Gf2 {
    open spec fn zero_spec() -> Gf2 {
        Gf2 { v: false }
    }

    open spec fn one_spec() -> Gf2 {
        Gf2 { v: true }
    }

    open spec fn plus_spec(self, o: Gf2) -> Gf2 {
        Gf2 { v: self.v != o.v }
    }

    open spec fn minus_spec(self, o: Gf2) -> Gf2 {
        Gf2 { v: self.v != o.v }
    }

    open spec fn times_spec(self, o: Gf2) -> Gf2 {
        Gf2 { v: self.v && o.v }
    }

    open spec fn div_spec(self, o: Gf2) -> Gf2 {
        if o.v {
            self
        } else {
            Gf2 { v: false }
        }
    }

    open spec fn abs_spec(self) -> Gf2 {
        self
    }

    open spec fn sqrt_spec(self) -> Gf2 {
        self
    }

    open spec fn lt_spec(self, o: Gf2) -> bool {
        !self.v && o.v
    }

    fn zero() -> (r: Gf2) {
        Gf2 { v: false }
    }

    fn one() -> (r: Gf2) {
        Gf2 { v: true }
    }

    fn plus(self, o: Gf2) -> (r: Gf2) {
        Gf2 { v: self.v != o.v }
    }

    fn minus(self, o: Gf2) -> (r: Gf2) {
        Gf2 { v: self.v != o.v }
    }

    fn times(self, o: Gf2) -> (r: Gf2) {
        Gf2 { v: self.v && o.v }
    }

    fn divide(self, o: Gf2) -> (r: Gf2) {
        if o.v {
            self
        } else {
            Gf2 { v: false }
        }
    }

    fn absolute(self) -> (r: Gf2) {
        self
    }

    fn square_root(self) -> (r: Gf2) {
        self
    }

    fn less_than(self, o: Gf2) -> (r: bool) {
        !self.v && o.v
    }

    fn equals(self, o: Gf2) -> (r: bool) {
        self == o
    }

    proof fn law_plus_zero(a: Gf2) {
    }

    proof fn law_zero_plus(a: Gf2) {
    }

    proof fn law_times_one(a: Gf2) {
    }

    proof fn law_one_times(a: Gf2) {
    }

    proof fn law_times_zero(a: Gf2) {
    }

    proof fn law_zero_times(a: Gf2) {
    }

    proof fn law_times_comm(a: Gf2, b: Gf2) {
    }

    proof fn law_times_neg_one(a: Gf2) {
    }

    proof fn law_neg_minus(a: Gf2, b: Gf2) {
    }

    proof fn law_lt_irrefl(a: Gf2) {
    }
}

} // verus!
