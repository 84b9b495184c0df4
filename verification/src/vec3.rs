//! A 3-component vector with arithmetic and geometric operations, generic
//! over the scalar arithmetic.

use vstd::prelude::*;
use crate::scalar::Scalar;

verus! {

/// A point or direction in three dimensions. A plain value type: every
/// operation is pure and returns a new vector.
#[derive(Clone, Copy, Debug)]
pub struct Vec3<T> {
    pub x: T,
    pub y: T,
    pub z: T,
}

impl<T: Scalar> Vec3<T> {
    /// The zero vector, as a specification value.
    pub open spec fn zero_vec_spec() -> Vec3<T> {
        Vec3 { x: T::zero_spec(), y: T::zero_spec(), z: T::zero_spec() }
    }

    /// What `dot` returns: x1*x2 + y1*y2 + z1*z2, summed left to right.
    pub open spec fn dot_spec(self, v: Vec3<T>) -> T {
        self.x.times_spec(v.x).plus_spec(self.y.times_spec(v.y)).plus_spec(
            self.z.times_spec(v.z),
        )
    }

    /// What `plus` returns.
    pub open spec fn plus_vec_spec(self, v: Vec3<T>) -> Vec3<T> {
        Vec3 {
            x: self.x.plus_spec(v.x),
            y: self.y.plus_spec(v.y),
            z: self.z.plus_spec(v.z),
        }
    }

    /// What `minus` returns.
    pub open spec fn minus_vec_spec(self, v: Vec3<T>) -> Vec3<T> {
        Vec3 {
            x: self.x.minus_spec(v.x),
            y: self.y.minus_spec(v.y),
            z: self.z.minus_spec(v.z),
        }
    }

    /// What `scale` returns.
    pub open spec fn scale_spec(self, r: T) -> Vec3<T> {
        Vec3 {
            x: self.x.times_spec(r),
            y: self.y.times_spec(r),
            z: self.z.times_spec(r),
        }
    }

    /// What `cross` returns: the right-handed cross product.
    pub open spec fn cross_spec(self, v: Vec3<T>) -> Vec3<T> {
        Vec3 {
            x: self.y.times_spec(v.z).minus_spec(self.z.times_spec(v.y)),
            y: self.z.times_spec(v.x).minus_spec(self.x.times_spec(v.z)),
            z: self.x.times_spec(v.y).minus_spec(self.y.times_spec(v.x)),
        }
    }

    /// What `length` returns: the square root of the dot product of the
    /// vector with itself.
    pub open spec fn length_spec(self) -> T {
        self.dot_spec(self).sqrt_spec()
    }

    /// What `get_normalized` returns: the vector scaled by the reciprocal of
    /// its length when the squared length is strictly positive, and the zero
    /// vector otherwise.
    pub open spec fn normalized_spec(self) -> Vec3<T> {
        let len2 = self.dot_spec(self);
        if T::zero_spec().lt_spec(len2) {
            self.scale_spec(T::one_spec().div_spec(len2.sqrt_spec()))
        } else {
            Vec3::zero_vec_spec()
        }
    }

    /// Builds a vector from its three components.
    pub fn new(x: T, y: T, z: T) -> (r: Vec3<T>)
        ensures
            r == (Vec3 { x, y, z }),
    {
        Vec3 { x, y, z }
    }

    /// The Euclidean norm.
    pub fn length(&self) -> (r: T)
        ensures
            r == self.length_spec(),
    {
        self.x.times(self.x).plus(self.y.times(self.y)).plus(
            self.z.times(self.z),
        ).square_root()
    }

    /// Component-wise sum.
    pub fn plus(&self, v: &Vec3<T>) -> (r: Vec3<T>)
        ensures
            r == self.plus_vec_spec(*v),
    {
        Vec3 { x: self.x.plus(v.x), y: self.y.plus(v.y), z: self.z.plus(v.z) }
    }

    /// Component-wise difference.
    pub fn minus(&self, v: &Vec3<T>) -> (r: Vec3<T>)
        ensures
            r == self.minus_vec_spec(*v),
    {
        Vec3 {
            x: self.x.minus(v.x),
            y: self.y.minus(v.y),
            z: self.z.minus(v.z),
        }
    }

    /// Multiplies every component by `r`.
    pub fn scale(&self, r: T) -> (res: Vec3<T>)
        ensures
            res == self.scale_spec(r),
    {
        Vec3 { x: self.x.times(r), y: self.y.times(r), z: self.z.times(r) }
    }

    /// Dot product.
    pub fn dot(&self, v: &Vec3<T>) -> (r: T)
        ensures
            r == self.dot_spec(*v),
    {
        self.x.times(v.x).plus(self.y.times(v.y)).plus(self.z.times(v.z))
    }

    /// Right-handed cross product.
    pub fn cross(&self, v: &Vec3<T>) -> (r: Vec3<T>)
        ensures
            r == self.cross_spec(*v),
    {
        Vec3 {
            x: self.y.times(v.z).minus(self.z.times(v.y)),
            y: self.z.times(v.x).minus(self.x.times(v.z)),
            z: self.x.times(v.y).minus(self.y.times(v.x)),
        }
    }

    /// Returns the vector scaled to length one where the squared length is
    /// strictly positive; the zero vector normalizes to the zero vector
    /// rather than failing.
    pub fn get_normalized(&self) -> (r: Vec3<T>)
        ensures
            r == self.normalized_spec(),
    {
        let len2 = self.dot(self);
        let mut result = Vec3::new(T::zero(), T::zero(), T::zero());
        if T::zero().less_than(len2) {
            let inv_length = T::one().divide(len2.square_root());
            result.x = self.x.times(inv_length);
            result.y = self.y.times(inv_length);
            result.z = self.z.times(inv_length);
        }
        result
    }
}

/// Law: normalizing the zero vector yields the zero vector, not an error.
///
/// Its squared length is exactly zero, the strict positivity test fails, and
/// the zero vector is returned unchanged.
pub proof fn lemma_zero_normalizes_to_zero<T: Scalar>()
    ensures
        Vec3::<T>::zero_vec_spec().normalized_spec() == Vec3::<T>::zero_vec_spec(),
{
    let z = T::zero_spec();
    T::law_times_zero(z);
    T::law_plus_zero(z);
    T::law_lt_irrefl(z);
}

/// Law: the cross product is anticommutative. For all vectors `a` and `b`,
/// `a.cross(b)` equals `b.cross(a).scale(-1)` component by component, where
/// `-1` is zero minus one.
pub proof fn lemma_cross_anticommutative<T: Scalar>(a: Vec3<T>, b: Vec3<T>)
    ensures
        a.cross_spec(b) == b.cross_spec(a).scale_spec(
            T::zero_spec().minus_spec(T::one_spec()),
        ),
{
    T::law_times_comm(b.y, a.z);
    T::law_times_comm(b.z, a.y);
    T::law_times_comm(b.z, a.x);
    T::law_times_comm(b.x, a.z);
    T::law_times_comm(b.x, a.y);
    T::law_times_comm(b.y, a.x);
    T::law_times_neg_one(b.y.times_spec(a.z).minus_spec(b.z.times_spec(a.y)));
    T::law_times_neg_one(b.z.times_spec(a.x).minus_spec(b.x.times_spec(a.z)));
    T::law_times_neg_one(b.x.times_spec(a.y).minus_spec(b.y.times_spec(a.x)));
    T::law_neg_minus(b.y.times_spec(a.z), b.z.times_spec(a.y));
    T::law_neg_minus(b.z.times_spec(a.x), b.x.times_spec(a.z));
    T::law_neg_minus(b.x.times_spec(a.y), b.y.times_spec(a.x));
}

} // verus!
