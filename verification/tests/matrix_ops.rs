use geom3d::matrix::{Matrix44, MatrixError};
use geom3d::scalar::{Gf2, Scalar};
use geom3d::vec3::Vec3;

/// Double-precision scalar for exercising the kernel with real arithmetic.
#[derive(Clone, Copy, Debug, PartialEq)]
struct F64(pub f64);

impl Scalar for F64 {
    fn zero() -> F64 {
        F64(0.0)
    }

    fn one() -> F64 {
        F64(1.0)
    }

    fn plus(self, o: F64) -> F64 {
        F64(self.0 + o.0)
    }

    fn minus(self, o: F64) -> F64 {
        F64(self.0 - o.0)
    }

    fn times(self, o: F64) -> F64 {
        F64(self.0 * o.0)
    }

    fn divide(self, o: F64) -> F64 {
        F64(self.0 / o.0)
    }

    fn absolute(self) -> F64 {
        F64(self.0.abs())
    }

    fn square_root(self) -> F64 {
        F64(self.0.sqrt())
    }

    fn less_than(self, o: F64) -> bool {
        self.0 < o.0
    }

    fn equals(self, o: F64) -> bool {
        self.0 == o.0
    }

    fn zero_spec() -> F64 {
        F64(0.0)
    }

    fn one_spec() -> F64 {
        F64(1.0)
    }

    fn plus_spec(self, o: F64) -> F64 {
        F64(self.0 + o.0)
    }

    fn minus_spec(self, o: F64) -> F64 {
        F64(self.0 - o.0)
    }

    fn times_spec(self, o: F64) -> F64 {
        F64(self.0 * o.0)
    }

    fn div_spec(self, o: F64) -> F64 {
        F64(self.0 / o.0)
    }

    fn abs_spec(self) -> F64 {
        F64(self.0.abs())
    }

    fn sqrt_spec(self) -> F64 {
        F64(self.0.sqrt())
    }

    fn lt_spec(self, o: F64) -> bool {
        self.0 < o.0
    }

    fn law_plus_zero(_a: F64) {}

    fn law_zero_plus(_a: F64) {}

    fn law_times_one(_a: F64) {}

    fn law_one_times(_a: F64) {}

    fn law_times_zero(_a: F64) {}

    fn law_zero_times(_a: F64) {}

    fn law_times_comm(_a: F64, _b: F64) {}

    fn law_times_neg_one(_a: F64) {}

    fn law_neg_minus(_a: F64, _b: F64) {}

    fn law_lt_irrefl(_a: F64) {}
}

fn mat(entries: [[f64; 4]; 4]) -> Matrix44<F64> {
    let mut m: Matrix44<F64> = Matrix44::new();
    for r in 0..4 {
        for c in 0..4 {
            m.set(r, c, F64(entries[r][c]));
        }
    }
    m
}

fn assert_approx(m: &Matrix44<F64>, expected: [[f64; 4]; 4], tol: f64) {
    for r in 0..4 {
        for c in 0..4 {
            let got = m.get(r, c).0;
            assert!(
                f64::abs(got - expected[r][c]) <= tol,
                "entry ({}, {}): got {}, expected {}",
                r,
                c,
                got,
                expected[r][c]
            );
        }
    }
}

const IDENTITY: [[f64; 4]; 4] = [
    [1., 0., 0., 0.],
    [0., 1., 0., 0.],
    [0., 0., 1., 0.],
    [0., 0., 0., 1.],
];

#[test]
fn new_is_identity() {
    let m: Matrix44<F64> = Matrix44::new();
    assert_approx(&m, IDENTITY, 0.0);
}

#[test]
fn multiply_identity_left_and_right() {
    let entries = [
        [2., 3., 5., 7.],
        [11., 13., 17., 19.],
        [23., 29., 31., 37.],
        [41., 43., 47., 53.],
    ];
    let m = mat(entries);
    let id: Matrix44<F64> = Matrix44::new();
    assert_approx(&id.multiply(&m), entries, 0.0);
    assert_approx(&m.multiply(&id), entries, 0.0);
}

#[test]
fn invert_identity_returns_identity_unchanged() {
    let mut m: Matrix44<F64> = Matrix44::new();
    let inv = m.invert_it().unwrap();
    assert_approx(&inv, IDENTITY, 0.0);
    assert_approx(&m, IDENTITY, 0.0);
}

#[test]
fn invert_translation_multiplies_back_to_identity() {
    let t = [
        [1., 0., 0., 0.],
        [0., 1., 0., 0.],
        [0., 0., 1., 0.],
        [2., 3., 4., 1.],
    ];
    let original = mat(t);
    let mut copy_of_m = mat(t);
    let inv = copy_of_m.invert_it().unwrap();
    assert_approx(
        &inv,
        [
            [1., 0., 0., 0.],
            [0., 1., 0., 0.],
            [0., 0., 1., 0.],
            [-2., -3., -4., 1.],
        ],
        1e-9,
    );
    let product = original.multiply(&inv);
    assert_approx(&product, IDENTITY, 1e-9);
}

#[test]
fn invert_permutation_takes_the_pivot_path() {
    let p = [
        [0., 1., 0., 0.],
        [1., 0., 0., 0.],
        [0., 0., 1., 0.],
        [0., 0., 0., 1.],
    ];
    let original = mat(p);
    let mut copy_of_m = mat(p);
    let inv = copy_of_m.invert_it().unwrap();
    assert_approx(&inv, p, 1e-9);
    let product = original.multiply(&inv);
    assert_approx(&product, IDENTITY, 1e-9);
}

#[test]
fn invert_zero_column_fails_as_singular() {
    let mut m = mat([
        [1., 0., 0., 0.],
        [0., 1., 0., 0.],
        [0., 0., 0., 0.],
        [0., 0., 0., 1.],
    ]);
    match m.invert_it() {
        Err(MatrixError::Singular) => {}
        Ok(_) => panic!("a matrix with a zero column must not invert"),
    }
}

#[test]
fn mult_vec_translates_the_origin() {
    let m = mat([
        [1., 0., 0., 0.],
        [0., 1., 0., 0.],
        [0., 0., 1., 0.],
        [5., 6., 7., 1.],
    ]);
    let p = Vec3::new(F64(0.), F64(0.), F64(0.));
    let moved = m.multVec(&p);
    assert_eq!((moved.x, moved.y, moved.z), (F64(5.), F64(6.), F64(7.)));
}

#[test]
fn mult_vec_skips_the_divide_at_w_zero() {
    let m = mat([
        [2., 0., 0., 0.],
        [0., 2., 0., 0.],
        [0., 0., 2., 0.],
        [0., 0., 0., 0.],
    ]);
    let p = Vec3::new(F64(1.), F64(1.), F64(1.));
    let image = m.multVec(&p);
    assert_eq!((image.x, image.y, image.z), (F64(2.), F64(2.), F64(2.)));
}

#[test]
fn mult_vec_divides_when_w_is_not_unit() {
    let m = mat([
        [2., 0., 0., 0.],
        [0., 2., 0., 0.],
        [0., 0., 2., 0.],
        [0., 0., 0., 2.],
    ]);
    let p = Vec3::new(F64(1.), F64(1.), F64(1.));
    let image = m.multVec(&p);
    assert_eq!((image.x, image.y, image.z), (F64(1.), F64(1.), F64(1.)));
}

#[test]
fn transpose_exchanges_first_row_and_column_only() {
    let mut m = mat([
        [0., 1., 2., 3.],
        [4., 5., 6., 7.],
        [8., 9., 10., 11.],
        [12., 13., 14., 15.],
    ]);
    m.transpose();
    assert_approx(
        &m,
        [
            [0., 4., 8., 12.],
            [1., 5., 6., 7.],
            [2., 9., 10., 11.],
            [3., 13., 14., 15.],
        ],
        0.0,
    );
}

#[test]
fn scale_multiplies_every_entry() {
    let mut m = mat([
        [1., 2., 3., 4.],
        [5., 6., 7., 8.],
        [9., 10., 11., 12.],
        [13., 14., 15., 16.],
    ]);
    m.scale(F64(2.));
    assert_approx(
        &m,
        [
            [2., 4., 6., 8.],
            [10., 12., 14., 16.],
            [18., 20., 22., 24.],
            [26., 28., 30., 32.],
        ],
        0.0,
    );
}

#[test]
fn gf2_invert_permutation_is_itself() {
    let t = Gf2 { v: true };
    let f = Gf2 { v: false };
    let mut m: Matrix44<Gf2> = Matrix44::new();
    m.set(0, 0, f);
    m.set(0, 1, t);
    m.set(1, 0, t);
    m.set(1, 1, f);
    let inv = m.invert_it().unwrap();
    assert_eq!(inv.get(0, 1), t);
    assert_eq!(inv.get(1, 0), t);
    assert_eq!(inv.get(0, 0), f);
    assert_eq!(inv.get(1, 1), f);
    assert_eq!(inv.get(2, 2), t);
    assert_eq!(inv.get(3, 3), t);
}

#[test]
fn gf2_zero_column_is_singular() {
    let f = Gf2 { v: false };
    let mut m: Matrix44<Gf2> = Matrix44::new();
    m.set(1, 1, f);
    match m.invert_it() {
        Err(MatrixError::Singular) => {}
        Ok(_) => panic!("a zero column over the two-element field must not invert"),
    }
}

#[test]
fn row_access_reads_and_writes_whole_rows() {
    let mut m: Matrix44<F64> = Matrix44::new();
    m.set_row(3, vec![F64(2.), F64(3.), F64(4.), F64(1.)]);
    let r3 = m.row(3);
    assert_eq!(r3, vec![F64(2.), F64(3.), F64(4.), F64(1.)]);
    let r0 = m.row(0);
    assert_eq!(r0, vec![F64(1.), F64(0.), F64(0.), F64(0.)]);
}
