use geom3d::scalar::Scalar;
use geom3d::vec3::Vec3;

/// Double-precision scalar for exercising the kernel with real arithmetic.
#[derive(Clone, Copy, Debug, PartialEq)]
struct F64(pub f64);

impl Scalar for F64 {
    fn zero() -> F64 {
        F64(0.0)
    }

    fn one() -> F64 {
        F64(1.0)
    }

    fn plus(self, o: F64) -> F64 {
        F64(self.0 + o.0)
    }

    fn minus(self, o: F64) -> F64 {
        F64(self.0 - o.0)
    }

    fn times(self, o: F64) -> F64 {
        F64(self.0 * o.0)
    }

    fn divide(self, o: F64) -> F64 {
        F64(self.0 / o.0)
    }

    fn absolute(self) -> F64 {
        F64(self.0.abs())
    }

    fn square_root(self) -> F64 {
        F64(self.0.sqrt())
    }

    fn less_than(self, o: F64) -> bool {
        self.0 < o.0
    }

    fn equals(self, o: F64) -> bool {
        self.0 == o.0
    }

    fn zero_spec() -> F64 {
        F64(0.0)
    }

    fn one_spec() -> F64 {
        F64(1.0)
    }

    fn plus_spec(self, o: F64) -> F64 {
        F64(self.0 + o.0)
    }

    fn minus_spec(self, o: F64) -> F64 {
        F64(self.0 - o.0)
    }

    fn times_spec(self, o: F64) -> F64 {
        F64(self.0 * o.0)
    }

    fn div_spec(self, o: F64) -> F64 {
        F64(self.0 / o.0)
    }

    fn abs_spec(self) -> F64 {
        F64(self.0.abs())
    }

    fn sqrt_spec(self) -> F64 {
        F64(self.0.sqrt())
    }

    fn lt_spec(self, o: F64) -> bool {
        self.0 < o.0
    }

    fn law_plus_zero(_a: F64) {}

    fn law_zero_plus(_a: F64) {}

    fn law_times_one(_a: F64) {}

    fn law_one_times(_a: F64) {}

    fn law_times_zero(_a: F64) {}

    fn law_zero_times(_a: F64) {}

    fn law_times_comm(_a: F64, _b: F64) {}

    fn law_times_neg_one(_a: F64) {}

    fn law_neg_minus(_a: F64, _b: F64) {}

    fn law_lt_irrefl(_a: F64) {}
}

fn v3(x: f64, y: f64, z: f64) -> Vec3<F64> {
    Vec3::new(F64(x), F64(y), F64(z))
}

#[test]
fn zero_normalized() {
    let my_vec3 = Vec3::new(F64(0.), F64(0.), F64(0.));
    let normalized = my_vec3.get_normalized();
    assert_eq!(normalized.length(), F64(0_f64));
}

#[test]
fn non_zero_normalized() {
    let vec1 = v3(0.01, 0.12, 0.05);
    let vec2 = v3(1., 0., 0.);
    let vec3 = v3(0., 1., 0.);
    let vec4 = v3(0., 0., 1.);
    let vec5 = v3(0.4, 0.123, 123.);
    let vec6 = v3(0.443, 0.34123, 123.);
    let vec7 = v3(12., 2., 0.);
    let vec8 = v3(1., 5., 1000.);
    let vec9 = v3(32., 1000., 0.12);
    let vec10 = v3(7., 7., 7.);

    assert!(f64::abs(vec1.get_normalized().length().0 - 1_f64) < 0.0001);
    assert!(f64::abs(vec2.get_normalized().length().0 - 1_f64) < 0.0001);
    assert!(f64::abs(vec3.get_normalized().length().0 - 1_f64) < 0.0001);
    assert!(f64::abs(vec4.get_normalized().length().0 - 1_f64) < 0.0001);
    assert!(f64::abs(vec5.get_normalized().length().0 - 1_f64) < 0.0001);
    assert!(f64::abs(vec6.get_normalized().length().0 - 1_f64) < 0.0001);
    assert!(f64::abs(vec7.get_normalized().length().0 - 1_f64) < 0.0001);
    assert!(f64::abs(vec8.get_normalized().length().0 - 1_f64) < 0.0001);
    assert!(f64::abs(vec9.get_normalized().length().0 - 1_f64) < 0.0001);
    assert!(f64::abs(vec10.get_normalized().length().0 - 1_f64) < 0.0001);
}

#[test]
fn cross_product_anticommutative() {
    let vec1 = v3(0.01, 0.12, 0.05);
    let vec2 = v3(1., 0., 0.);

    let cross1 = vec1.cross(&vec2);
    let cross2 = vec2.cross(&vec1).scale(F64(-1_f64));

    assert_eq!(cross1.x, cross2.x);
    assert_eq!(cross1.y, cross2.y);
    assert_eq!(cross1.z, cross2.z);

    let vec1 = v3(0.443, 0.34123, 123.);
    let vec2 = v3(1., 0., 0.);

    let cross1 = vec1.cross(&vec2);
    let cross2 = vec2.cross(&vec1).scale(F64(-1_f64));

    assert_eq!(cross1.x, cross2.x);
    assert_eq!(cross1.y, cross2.y);
    assert_eq!(cross1.z, cross2.z);

    let vec1 = v3(0.01, 0.12, 0.05);
    let vec2 = v3(7., 7., 7.);

    let cross1 = vec1.cross(&vec2);
    let cross2 = vec2.cross(&vec1).scale(F64(-1_f64));

    assert_eq!(cross1.x, cross2.x);
    assert_eq!(cross1.y, cross2.y);
    assert_eq!(cross1.z, cross2.z);
}

#[test]
fn cross_of_unit_x_and_unit_y_is_unit_z() {
    let vec1 = v3(1., 0., 0.);
    let vec2 = v3(0., 1., 0.);
    let crossed = vec1.cross(&vec2);
    assert_eq!(crossed.x, F64(0.));
    assert_eq!(crossed.y, F64(0.));
    assert_eq!(crossed.z, F64(1.));
}

#[test]
fn length_of_three_four_zero_is_five() {
    let v = v3(3., 4., 0.);
    assert_eq!(v.length(), F64(5.));
}

#[test]
fn componentwise_arithmetic() {
    let a = v3(1., 2., 3.);
    let b = v3(4., 6., 8.);
    let s = a.plus(&b);
    assert_eq!((s.x, s.y, s.z), (F64(5.), F64(8.), F64(11.)));
    let d = b.minus(&a);
    assert_eq!((d.x, d.y, d.z), (F64(3.), F64(4.), F64(5.)));
    let t = a.scale(F64(2.));
    assert_eq!((t.x, t.y, t.z), (F64(2.), F64(4.), F64(6.)));
    assert_eq!(a.dot(&b), F64(1. * 4. + 2. * 6. + 3. * 8.));
}
