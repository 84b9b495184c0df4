//! A 4x4 matrix for affine/projective transforms, generic over the scalar
//! arithmetic: Gauss-Jordan inversion with partial pivoting, multiplication,
//! an in-place transpose, uniform scaling, and homogeneous point
//! transformation.

use vstd::prelude::*;
use crate::scalar::Scalar;
use crate::vec3::Vec3;

verus! {

/// A grid is well formed when it has exactly 4 rows of exactly 4 columns.
pub open spec fn grid_wf<T>(g: Seq<Seq<T>>) -> bool {
    g.len() == 4 && forall|i: int| 0 <= i < 4 ==> #[trigger] g[i].len() == 4
}

/// The grid `g` with the entry at row `r`, column `c` replaced by `v`.
pub open spec fn set_entry<T>(g: Seq<Seq<T>>, r: int, c: int, v: T) -> Seq<Seq<T>> {
    g.update(r, g[r].update(c, v))
}

/// The 4x4 identity grid.
pub open spec fn identity_grid<T: Scalar>() -> Seq<Seq<T>> {
    seq![
        seq![T::one_spec(), T::zero_spec(), T::zero_spec(), T::zero_spec()],
        seq![T::zero_spec(), T::one_spec(), T::zero_spec(), T::zero_spec()],
        seq![T::zero_spec(), T::zero_spec(), T::one_spec(), T::zero_spec()],
        seq![T::zero_spec(), T::zero_spec(), T::zero_spec(), T::one_spec()],
    ]
}

/// One in-place swap of the entries at `(i, j)` and `(j, i)`, as `transpose`
/// performs it: the entry at `(i, j)` receives the old `(j, i)`, then the
/// entry at `(j, i)` receives the old `(i, j)`.
pub open spec fn transpose_step<T>(g: Seq<Seq<T>>, i: int, j: int) -> Seq<Seq<T>> {
    let t = g[i][j];
    let g1 = set_entry(g, i, j, g[j][i]);
    set_entry(g1, j, i, t)
}

/// The swaps of `transpose` from position `(i, j)` on, in the order the
/// loops visit them: `i` over 0..4, and `j` over 1..4 only.
pub open spec fn transpose_pass<T>(g: Seq<Seq<T>>, i: int, j: int) -> Seq<Seq<T>>
    decreases 4 - i, 4 - j,
{
    if i >= 4 {
        g
    } else if j >= 4 {
        transpose_pass(g, i + 1, 1)
    } else {
        transpose_pass(transpose_step(g, i, j), i, j + 1)
    }
}

/// The grid with rows `a` and `b` exchanged.
pub open spec fn swap_rows<T>(g: Seq<Seq<T>>, a: int, b: int) -> Seq<Seq<T>> {
    g.update(a, g[b]).update(b, g[a])
}

/// The pivot row that the scan of column `c` selects, scanning rows from
/// `row` to 3 with `big` as the best row so far: a row replaces `big` only
/// when the absolute value of its entry in column `c` is strictly larger.
pub open spec fn pivot_scan<T: Scalar>(g: Seq<Seq<T>>, c: int, row: int, big: int) -> int
    decreases 4 - row,
{
    if row >= 4 {
        big
    } else if g[big][c].abs_spec().lt_spec(g[row][c].abs_spec()) {
        pivot_scan(g, c, row + 1, row)
    } else {
        pivot_scan(g, c, row + 1, big)
    }
}

/// The pivot pass from column `c` on, applied to the matrix `m` and the
/// auxiliary matrix `v` together. Where the diagonal entry of a column is
/// exactly zero, the scan picks the row with the largest absolute entry in
/// that column; if no row beats the zero diagonal the matrix is singular
/// (`None`), otherwise both matrices have the two rows swapped. A nonzero
/// diagonal entry is kept as it is, however small.
pub open spec fn pivot_pass<T: Scalar>(m: Seq<Seq<T>>, v: Seq<Seq<T>>, c: int) -> Option<
    (Seq<Seq<T>>, Seq<Seq<T>>),
>
    decreases 4 - c,
{
    if c >= 4 {
        Option::Some((m, v))
    } else if m[c][c] == T::zero_spec() {
        if pivot_scan(m, c, c, c) == c {
            Option::None
        } else {
            pivot_pass(
                swap_rows(m, c, pivot_scan(m, c, c, c)),
                swap_rows(v, c, pivot_scan(m, c, c, c)),
                c + 1,
            )
        }
    } else {
        pivot_pass(m, v, c + 1)
    }
}

/// The row `target` minus `k` times the row `source`, entry by entry.
pub open spec fn row_sub<T: Scalar>(target: Seq<T>, source: Seq<T>, k: T) -> Seq<T> {
    Seq::new(target.len(), |j: int| target[j].minus_spec(k.times_spec(source[j])))
}

/// One elimination step on the pair of matrices: row `r` of each matrix has
/// `k` times its row `c` subtracted, and the entry of `m` at `(r, c)` is
/// then forced to exactly zero to suppress round-off residue.
pub open spec fn elim_step<T: Scalar>(m: Seq<Seq<T>>, v: Seq<Seq<T>>, r: int, c: int, k: T) -> (
    Seq<Seq<T>>,
    Seq<Seq<T>>,
) {
    (
        set_entry(m.update(r, row_sub(m[r], m[c], k)), r, c, T::zero_spec()),
        v.update(r, row_sub(v[r], v[c], k)),
    )
}

/// Forward elimination from pivot column `c`, row `r` on: for each pivot
/// column `c` in 0..3 and each row `r` below it, the factor is the entry at
/// `(r, c)` divided by the diagonal entry at `(c, c)`, and an elimination
/// step is applied with it.
pub open spec fn forward_pass<T: Scalar>(m: Seq<Seq<T>>, v: Seq<Seq<T>>, c: int, r: int) -> (
    Seq<Seq<T>>,
    Seq<Seq<T>>,
)
    decreases 4 - c, 4 - r,
{
    if c >= 3 {
        (m, v)
    } else if r >= 4 {
        forward_pass(m, v, c + 1, c + 2)
    } else {
        let s = elim_step(m, v, r, c, m[r][c].div_spec(m[c][c]));
        forward_pass(s.0, s.1, c, r + 1)
    }
}

/// Back substitution from row `r`, column `c` on: for each row `r` in 0..4
/// and each column `c` to its right, the factor is the entry at `(r, c)`
/// itself — the diagonal is assumed to be one and is not divided by — and an
/// elimination step is applied with it.
pub open spec fn back_pass<T: Scalar>(m: Seq<Seq<T>>, v: Seq<Seq<T>>, r: int, c: int) -> (
    Seq<Seq<T>>,
    Seq<Seq<T>>,
)
    decreases 4 - r, 4 - c,
{
    if r >= 4 {
        (m, v)
    } else if c >= 4 {
        back_pass(m, v, r + 1, r + 2)
    } else {
        let s = elim_step(m, v, r, c, m[r][c]);
        back_pass(s.0, s.1, r, c + 1)
    }
}

/// What inversion computes: the pivot pass on the matrix paired with the
/// identity, then forward elimination, then back substitution; `None`
/// exactly when the pivot pass finds a singular matrix. On success the first
/// component is the row-reduced receiver and the second is the returned
/// inverse.
pub open spec fn invert_model<T: Scalar>(m: Seq<Seq<T>>) -> Option<(Seq<Seq<T>>, Seq<Seq<T>>)> {
    match pivot_pass(m, identity_grid::<T>(), 0) {
        Option::None => Option::None,
        Option::Some(p) => {
            let f = forward_pass(p.0, p.1, 0, 1);
            Option::Some(back_pass(f.0, f.1, 0, 1))
        },
    }
}

/// One entry of a matrix product: the row `i` of `a` against the column `j`
/// of `b`, the four terms summed left to right.
pub open spec fn mul_entry<T: Scalar>(a: Seq<Seq<T>>, b: Seq<Seq<T>>, i: int, j: int) -> T {
    a[i][0].times_spec(b[0][j]).plus_spec(a[i][1].times_spec(b[1][j])).plus_spec(
        a[i][2].times_spec(b[2][j]),
    ).plus_spec(a[i][3].times_spec(b[3][j]))
}

/// The un-normalized image of the homogeneous point `(v, 1)` under `g`: the
/// row vector times the matrix, before any perspective divide.
pub open spec fn transform_raw<T: Scalar>(g: Seq<Seq<T>>, v: Vec3<T>) -> Vec3<T> {
    Vec3 {
        x: g[0][0].times_spec(v.x).plus_spec(g[1][0].times_spec(v.y)).plus_spec(
            g[2][0].times_spec(v.z),
        ).plus_spec(g[3][0]),
        y: g[0][1].times_spec(v.x).plus_spec(g[1][1].times_spec(v.y)).plus_spec(
            g[2][1].times_spec(v.z),
        ).plus_spec(g[3][1]),
        z: g[0][2].times_spec(v.x).plus_spec(g[1][2].times_spec(v.y)).plus_spec(
            g[2][2].times_spec(v.z),
        ).plus_spec(g[3][2]),
    }
}

/// The homogeneous coordinate of the image of `(v, 1)` under `g`.
pub open spec fn transform_w<T: Scalar>(g: Seq<Seq<T>>, v: Vec3<T>) -> T {
    g[0][3].times_spec(v.x).plus_spec(g[1][3].times_spec(v.y)).plus_spec(
        g[2][3].times_spec(v.z),
    ).plus_spec(g[3][3])
}

/// The full point transform: the raw image, divided by the homogeneous
/// coordinate `w` exactly when `w` is neither one nor zero.
pub open spec fn transform_spec<T: Scalar>(g: Seq<Seq<T>>, v: Vec3<T>) -> Vec3<T> {
    let raw = transform_raw(g, v);
    let w = transform_w(g, v);
    if w != T::one_spec() && w != T::zero_spec() {
        Vec3 { x: raw.x.div_spec(w), y: raw.y.div_spec(w), z: raw.z.div_spec(w) }
    } else {
        raw
    }
}

/// A 4x4 matrix, stored as 4 rows of 4 columns, row-major, zero-indexed.
/// Well-formedness (`wf`) says exactly that; constructors establish it and
/// every operation preserves it.
#[derive(Clone, Debug)]
pub struct Matrix44<T> {
    m: Vec<Vec<T>>,
}

/// The error of the only failing operation: inversion of a matrix for which
/// the partial-pivoting rule finds no usable pivot.
#[derive(Clone, Copy, Debug, PartialEq, Eq, Structural)]
pub enum MatrixError {
    Singular,
}

impl<T: Scalar> Matrix44<T> {
    /// The matrix as a sequence of rows of scalars.
    pub closed spec fn grid(self) -> Seq<Seq<T>> {
        self.m@.map_values(|r: Vec<T>| r@)
    }

    /// Exactly 4 rows of exactly 4 columns.
    pub open spec fn wf(self) -> bool {
        grid_wf(self.grid())
    }

    /// The entry at row `r`, column `c`.
    pub open spec fn entry(self, r: int, c: int) -> T {
        self.grid()[r][c]
    }

    /// Reads the entry at row `r`, column `c`; indices outside 0..4 are a
    /// programming error, excluded by precondition.
    pub fn get(&self, r: usize, c: usize) -> (v: T)
        requires
            self.wf(),
            r < 4,
            c < 4,
        ensures
            v == self.entry(r as int, c as int),
    {
        proof {
            assert(self.grid().len() == self.m@.len());
            assert(self.m@[r as int]@ == self.grid()[r as int]);
        }
        self.m[r][c]
    }

    /// Writes the entry at row `r`, column `c`; indices outside 0..4 are a
    /// programming error, excluded by precondition.
    pub fn set(&mut self, r: usize, c: usize, v: T)
        requires
            old(self).wf(),
            r < 4,
            c < 4,
        ensures
            final(self).wf(),
            final(self).grid() == set_entry(old(self).grid(), r as int, c as int, v),
    {
        proof {
            assert(self.grid().len() == self.m@.len());
            assert(self.m@[r as int]@ == self.grid()[r as int]);
        }
        let nr = row_with(&self.m[r], c, v);
        self.m.set(r, nr);
        proof {
            assert(self.grid() =~= set_entry(old(self).grid(), r as int, c as int, v));
        }
    }

    /// Reads the whole row `r` as a fresh 4-element vector; an index outside
    /// 0..4 is a programming error, excluded by precondition.
    pub fn row(&self, r: usize) -> (v: Vec<T>)
        requires
            self.wf(),
            r < 4,
        ensures
            v@ == self.grid()[r as int],
    {
        proof {
            assert(self.grid().len() == self.m@.len());
            assert(self.m@[r as int]@ == self.grid()[r as int]);
        }
        copy_row(&self.m[r])
    }

    /// Replaces the whole row `r`; the row must have exactly 4 elements, and
    /// an index outside 0..4 is a programming error, excluded by
    /// precondition.
    pub fn set_row(&mut self, r: usize, row: Vec<T>)
        requires
            old(self).wf(),
            r < 4,
            row@.len() == 4,
        ensures
            final(self).wf(),
            final(self).grid() == old(self).grid().update(r as int, row@),
    {
        proof {
            assert(self.grid().len() == self.m@.len());
        }
        self.m.set(r, row);
        proof {
            assert(self.grid() =~= old(self).grid().update(r as int, row@));
        }
    }

    /// Builds the 4x4 identity matrix.
    pub fn new() -> (r: Matrix44<T>)
        ensures
            r.wf(),
            r.grid() == identity_grid::<T>(),
    {
        let mut m: Vec<Vec<T>> = Vec::new();
        m.push(row4(T::one(), T::zero(), T::zero(), T::zero()));
        m.push(row4(T::zero(), T::one(), T::zero(), T::zero()));
        m.push(row4(T::zero(), T::zero(), T::one(), T::zero()));
        m.push(row4(T::zero(), T::zero(), T::zero(), T::one()));
        let r = Matrix44 { m };
        proof {
            assert(r.grid() =~= identity_grid::<T>());
        }
        r
    }

    /// Standard matrix product: returns `C` with
    /// `C[i][j] = A[i][0]*B[0][j] + A[i][1]*B[1][j] + A[i][2]*B[2][j] + A[i][3]*B[3][j]`.
    /// Neither input is changed.
    pub fn multiply(&self, rhs: &Matrix44<T>) -> (r: Matrix44<T>)
        requires
            self.wf(),
            rhs.wf(),
        ensures
            r.wf(),
            forall|i: int, j: int|
                0 <= i < 4 && 0 <= j < 4 ==> #[trigger] r.entry(i, j) == mul_entry(
                    self.grid(),
                    rhs.grid(),
                    i,
                    j,
                ),
    {
        let mut mult = Matrix44::new();
        let mut i: usize = 0;
        while i < 4
            invariant
                self.wf(),
                rhs.wf(),
                mult.wf(),
                i <= 4,
                forall|a: int, b: int|
                    0 <= a < i && 0 <= b < 4 ==> #[trigger] mult.entry(a, b) == mul_entry(
                        self.grid(),
                        rhs.grid(),
                        a,
                        b,
                    ),
            decreases 4 - i,
        {
            let mut j: usize = 0;
            while j < 4
                invariant
                    self.wf(),
                    rhs.wf(),
                    mult.wf(),
                    i < 4,
                    j <= 4,
                    forall|a: int, b: int|
                        0 <= a < i && 0 <= b < 4 ==> #[trigger] mult.entry(a, b) == mul_entry(
                            self.grid(),
                            rhs.grid(),
                            a,
                            b,
                        ),
                    forall|b: int|
                        0 <= b < j ==> #[trigger] mult.entry(i as int, b) == mul_entry(
                            self.grid(),
                            rhs.grid(),
                            i as int,
                            b,
                        ),
                decreases 4 - j,
            {
                let v = self.get(i, 0).times(rhs.get(0, j)).plus(
                    self.get(i, 1).times(rhs.get(1, j)),
                ).plus(self.get(i, 2).times(rhs.get(2, j))).plus(
                    self.get(i, 3).times(rhs.get(3, j)),
                );
                let ghost pre = mult;
                mult.set(i, j, v);
                proof {
                    assert forall|a: int, b: int| 0 <= a < i as int && 0 <= b < 4 implies #[trigger] mult.entry(
                        a,
                        b,
                    ) == mul_entry(self.grid(), rhs.grid(), a, b) by {
                        assert(pre.entry(a, b) == mul_entry(self.grid(), rhs.grid(), a, b));
                        assert(mult.entry(a, b) == pre.entry(a, b));
                    }
                    assert forall|b: int| 0 <= b < j as int + 1 implies #[trigger] mult.entry(
                        i as int,
                        b,
                    ) == mul_entry(self.grid(), rhs.grid(), i as int, b) by {
                        if b < j as int {
                            assert(pre.entry(i as int, b) == mul_entry(
                                self.grid(),
                                rhs.grid(),
                                i as int,
                                b,
                            ));
                            assert(mult.entry(i as int, b) == pre.entry(i as int, b));
                        } else {
                            assert(mult.entry(i as int, j as int) == v);
                        }
                    }
                }
                j += 1;
            }
            i += 1;
        }
        mult
    }

    /// Performs the in-place transpose pass: for each row `i` in 0..4 it
    /// swaps the entries at `(i, j)` and `(j, i)` for `j` in 1..4 only.
    /// Every pair inside rows and columns 1..4 is therefore swapped twice
    /// and lands back where it started: the net effect, stated exactly
    /// below, is that only the first row and the first column are
    /// exchanged, while the rest of the matrix is left unchanged.
    pub fn transpose(&mut self)
        requires
            old(self).wf(),
        ensures
            final(self).wf(),
            final(self).grid() == transpose_pass(old(self).grid(), 0, 1),
            final(self).entry(0, 0) == old(self).entry(0, 0),
            forall|j: int|
                1 <= j < 4 ==> #[trigger] final(self).entry(0, j) == old(self).entry(j, 0),
            forall|j: int|
                1 <= j < 4 ==> #[trigger] final(self).entry(j, 0) == old(self).entry(0, j),
            forall|i: int, j: int|
                1 <= i < 4 && 1 <= j < 4 ==> #[trigger] final(self).entry(i, j) == old(
                    self,
                ).entry(i, j),
    {
        let mut i: usize = 0;
        while i < 4
            invariant
                self.wf(),
                i <= 4,
                transpose_pass(self.grid(), i as int, 1) == transpose_pass(old(self).grid(), 0, 1),
            decreases 4 - i,
        {
            let mut j: usize = 1;
            while j < 4
                invariant
                    self.wf(),
                    i < 4,
                    1 <= j <= 4,
                    transpose_pass(self.grid(), i as int, j as int) == transpose_pass(
                        old(self).grid(),
                        0,
                        1,
                    ),
                decreases 4 - j,
            {
                let temp = self.get(i, j);
                let v = self.get(j, i);
                let ghost pre = *self;
                self.set(i, j, v);
                self.set(j, i, temp);
                proof {
                    assert(self.grid() =~= transpose_step(pre.grid(), i as int, j as int));
                    assert(transpose_pass(pre.grid(), i as int, j as int) == transpose_pass(
                        self.grid(),
                        i as int,
                        j as int + 1,
                    ));
                }
                j += 1;
            }
            proof {
                assert(transpose_pass(self.grid(), i as int, 4) == transpose_pass(
                    self.grid(),
                    i as int + 1,
                    1,
                ));
            }
            i += 1;
        }
        proof {
            assert(transpose_pass(self.grid(), 4, 1) == self.grid());
            lemma_transpose_entries(old(self).grid());
            assert forall|a: int, b: int| 1 <= a < 4 && 1 <= b < 4 implies #[trigger] self.entry(
                a,
                b,
            ) == old(self).entry(a, b) by {
                if a == 1 {
                    if b == 1 {
                    } else if b == 2 {
                    } else {
                    }
                } else if a == 2 {
                    if b == 1 {
                    } else if b == 2 {
                    } else {
                    }
                } else {
                    if b == 1 {
                    } else if b == 2 {
                    } else {
                    }
                }
            }
            assert forall|b: int| 1 <= b < 4 implies #[trigger] self.entry(0, b) == old(
                self,
            ).entry(b, 0) by {
                if b == 1 {
                } else if b == 2 {
                } else {
                }
            }
            assert forall|b: int| 1 <= b < 4 implies #[trigger] self.entry(b, 0) == old(
                self,
            ).entry(0, b) by {
                if b == 1 {
                } else if b == 2 {
                } else {
                }
            }
        }
    }

    /// Transforms `v` as the homogeneous point `(v, 1)`: row vector times
    /// matrix, with a perspective divide exactly when the resulting `w` is
    /// neither one nor zero. At `w == 0` the raw result passes through
    /// un-normalized.
    #[allow(non_snake_case)]
    pub fn multVec(&self, v: &Vec3<T>) -> (res: Vec3<T>)
        requires
            self.wf(),
        ensures
            res == transform_spec(self.grid(), *v),
    {
        let mut res = Vec3::new(
            self.get(0, 0).times(v.x).plus(self.get(1, 0).times(v.y)).plus(
                self.get(2, 0).times(v.z),
            ).plus(self.get(3, 0)),
            self.get(0, 1).times(v.x).plus(self.get(1, 1).times(v.y)).plus(
                self.get(2, 1).times(v.z),
            ).plus(self.get(3, 1)),
            self.get(0, 2).times(v.x).plus(self.get(1, 2).times(v.y)).plus(
                self.get(2, 2).times(v.z),
            ).plus(self.get(3, 2)),
        );
        let w = self.get(0, 3).times(v.x).plus(self.get(1, 3).times(v.y)).plus(
            self.get(2, 3).times(v.z),
        ).plus(self.get(3, 3));
        if !w.equals(T::one()) && !w.equals(T::zero()) {
            res.x = res.x.divide(w);
            res.y = res.y.divide(w);
            res.z = res.z.divide(w);
        }
        res
    }

    /// Exchanges rows `a` and `b`.
    fn swap_rows_exec(&mut self, a: usize, b: usize)
        requires
            old(self).wf(),
            a < 4,
            b < 4,
        ensures
            final(self).wf(),
            final(self).grid() == swap_rows(old(self).grid(), a as int, b as int),
    {
        proof {
            assert(self.grid().len() == self.m@.len());
            assert(self.m@[a as int]@ == self.grid()[a as int]);
            assert(self.m@[b as int]@ == self.grid()[b as int]);
        }
        let ra = copy_row(&self.m[a]);
        let rb = copy_row(&self.m[b]);
        self.m.set(a, rb);
        self.m.set(b, ra);
        proof {
            assert(self.grid() =~= swap_rows(old(self).grid(), a as int, b as int));
        }
    }

    /// Subtracts `k` times row `c` from row `r`, leaving row `c` unchanged.
    fn sub_scaled_row(&mut self, r: usize, c: usize, k: T)
        requires
            old(self).wf(),
            r < 4,
            c < 4,
            r != c,
        ensures
            final(self).wf(),
            final(self).grid() == old(self).grid().update(
                r as int,
                row_sub(old(self).grid()[r as int], old(self).grid()[c as int], k),
            ),
    {
        proof {
            assert(self.grid().len() == self.m@.len());
            assert(self.m@[r as int]@ == self.grid()[r as int]);
            assert(self.m@[c as int]@ == self.grid()[c as int]);
        }
        let nr = row_sub_exec(&self.m[r], &self.m[c], k);
        self.m.set(r, nr);
        proof {
            assert(self.grid() =~= old(self).grid().update(
                r as int,
                row_sub(old(self).grid()[r as int], old(self).grid()[c as int], k),
            ));
        }
    }

    /// Inverts the matrix by Gauss-Jordan elimination with partial pivoting,
    /// returning the inverse and leaving the receiver in row-reduced form —
    /// the caller must not rely on the original matrix surviving the call.
    /// Fails with the singular-matrix error exactly when some column has a
    /// zero diagonal entry at pivot time and no row with a larger absolute
    /// entry below; the pivot check does not reselect for small-but-nonzero
    /// diagonals, and back substitution assumes a unit diagonal rather than
    /// dividing, both as specified.
    pub fn invert_it(&mut self) -> (r: Result<Matrix44<T>, MatrixError>)
        requires
            old(self).wf(),
        ensures
            final(self).wf(),
            (match r {
                Result::Ok(inv) => inv.wf() && invert_model(old(self).grid()) == Option::Some(
                    (final(self).grid(), inv.grid()),
                ),
                Result::Err(e) => e == MatrixError::Singular && invert_model(
                    old(self).grid(),
                ) is None,
            }),
    {
        let mut inv = Matrix44::new();
        let mut column: usize = 0;
        while column < 4
            invariant
                self.wf(),
                inv.wf(),
                column <= 4,
                pivot_pass(self.grid(), inv.grid(), column as int) == pivot_pass(
                    old(self).grid(),
                    identity_grid::<T>(),
                    0,
                ),
            decreases 4 - column,
        {
            if self.get(column, column).equals(T::zero()) {
                let mut big: usize = column;
                let mut row: usize = column;
                while row < 4
                    invariant
                        self.wf(),
                        column < 4,
                        column <= big < 4,
                        column <= row <= 4,
                        pivot_scan(self.grid(), column as int, row as int, big as int)
                            == pivot_scan(self.grid(), column as int, column as int, column as int),
                    decreases 4 - row,
                {
                    if self.get(big, column).absolute().less_than(
                        self.get(row, column).absolute(),
                    ) {
                        big = row;
                    }
                    row += 1;
                }
                if big == column {
                    proof {
                        assert(pivot_pass(self.grid(), inv.grid(), column as int) is None);
                    }
                    return Result::Err(MatrixError::Singular);
                } else {
                    let ghost pm = self.grid();
                    let ghost pv = inv.grid();
                    self.swap_rows_exec(column, big);
                    inv.swap_rows_exec(column, big);
                    proof {
                        assert(pivot_pass(pm, pv, column as int) == pivot_pass(
                            self.grid(),
                            inv.grid(),
                            column as int + 1,
                        ));
                    }
                }
            }
            column += 1;
        }
        let ghost pm = self.grid();
        let ghost pv = inv.grid();
        proof {
            assert(pivot_pass(old(self).grid(), identity_grid::<T>(), 0) == Option::Some(
                (pm, pv),
            ));
        }
        let mut column: usize = 0;
        while column < 3
            invariant
                self.wf(),
                inv.wf(),
                column <= 3,
                forward_pass(self.grid(), inv.grid(), column as int, column as int + 1)
                    == forward_pass(pm, pv, 0, 1),
            decreases 3 - column,
        {
            let mut row: usize = column + 1;
            while row < 4
                invariant
                    self.wf(),
                    inv.wf(),
                    column < 3,
                    column + 1 <= row <= 4,
                    forward_pass(self.grid(), inv.grid(), column as int, row as int)
                        == forward_pass(pm, pv, 0, 1),
                decreases 4 - row,
            {
                let k = self.get(row, column).divide(self.get(column, column));
                let ghost gm = self.grid();
                let ghost gv = inv.grid();
                self.sub_scaled_row(row, column, k);
                self.set(row, column, T::zero());
                inv.sub_scaled_row(row, column, k);
                proof {
                    assert((self.grid(), inv.grid()) == elim_step(
                        gm,
                        gv,
                        row as int,
                        column as int,
                        k,
                    ));
                    assert(forward_pass(gm, gv, column as int, row as int) == forward_pass(
                        self.grid(),
                        inv.grid(),
                        column as int,
                        row as int + 1,
                    ));
                }
                row += 1;
            }
            proof {
                assert(forward_pass(self.grid(), inv.grid(), column as int, 4) == forward_pass(
                    self.grid(),
                    inv.grid(),
                    column as int + 1,
                    column as int + 2,
                ));
            }
            column += 1;
        }
        let ghost fm = self.grid();
        let ghost fv = inv.grid();
        proof {
            assert(forward_pass(pm, pv, 0, 1) == (fm, fv));
        }
        let mut row: usize = 0;
        while row < 4
            invariant
                self.wf(),
                inv.wf(),
                row <= 4,
                back_pass(self.grid(), inv.grid(), row as int, row as int + 1) == back_pass(
                    fm,
                    fv,
                    0,
                    1,
                ),
            decreases 4 - row,
        {
            let mut column: usize = row + 1;
            while column < 4
                invariant
                    self.wf(),
                    inv.wf(),
                    row < 4,
                    row + 1 <= column <= 4,
                    back_pass(self.grid(), inv.grid(), row as int, column as int) == back_pass(
                        fm,
                        fv,
                        0,
                        1,
                    ),
                decreases 4 - column,
            {
                let k = self.get(row, column);
                let ghost gm = self.grid();
                let ghost gv = inv.grid();
                self.sub_scaled_row(row, column, k);
                self.set(row, column, T::zero());
                inv.sub_scaled_row(row, column, k);
                proof {
                    assert((self.grid(), inv.grid()) == elim_step(
                        gm,
                        gv,
                        row as int,
                        column as int,
                        k,
                    ));
                    assert(back_pass(gm, gv, row as int, column as int) == back_pass(
                        self.grid(),
                        inv.grid(),
                        row as int,
                        column as int + 1,
                    ));
                }
                column += 1;
            }
            proof {
                assert(back_pass(self.grid(), inv.grid(), row as int, 4) == back_pass(
                    self.grid(),
                    inv.grid(),
                    row as int + 1,
                    row as int + 2,
                ));
            }
            row += 1;
        }
        proof {
            assert(back_pass(fm, fv, 0, 1) == (self.grid(), inv.grid()));
            assert(invert_model(old(self).grid()) == Option::Some((self.grid(), inv.grid())));
        }
        Result::Ok(inv)
    }

    /// Multiplies every one of the 16 entries by `r`, in place.
    pub fn scale(&mut self, r: T)
        requires
            old(self).wf(),
        ensures
            final(self).wf(),
            forall|i: int, j: int|
                0 <= i < 4 && 0 <= j < 4 ==> #[trigger] final(self).entry(i, j) == old(self).entry(
                    i,
                    j,
                ).times_spec(r),
    {
        let mut row: usize = 0;
        while row < 4
            invariant
                self.wf(),
                row <= 4,
                forall|a: int, b: int|
                    0 <= a < row && 0 <= b < 4 ==> #[trigger] self.entry(a, b) == old(self).entry(
                        a,
                        b,
                    ).times_spec(r),
                forall|a: int, b: int|
                    row <= a < 4 && 0 <= b < 4 ==> #[trigger] self.entry(a, b) == old(self).entry(
                        a,
                        b,
                    ),
            decreases 4 - row,
        {
            let mut column: usize = 0;
            while column < 4
                invariant
                    self.wf(),
                    row < 4,
                    column <= 4,
                    forall|a: int, b: int|
                        0 <= a < row && 0 <= b < 4 ==> #[trigger] self.entry(a, b) == old(
                            self,
                        ).entry(a, b).times_spec(r),
                    forall|b: int|
                        0 <= b < column ==> #[trigger] self.entry(row as int, b) == old(
                            self,
                        ).entry(row as int, b).times_spec(r),
                    forall|b: int|
                        column <= b < 4 ==> #[trigger] self.entry(row as int, b) == old(
                            self,
                        ).entry(row as int, b),
                    forall|a: int, b: int|
                        row < a < 4 && 0 <= b < 4 ==> #[trigger] self.entry(a, b) == old(
                            self,
                        ).entry(a, b),
                decreases 4 - column,
            {
                let v = self.get(row, column).times(r);
                let ghost pre = *self;
                self.set(row, column, v);
                proof {
                    assert forall|a: int, b: int| 0 <= a < 4 && 0 <= b < 4 && !(a == row as int
                        && b == column as int) implies #[trigger] self.entry(a, b) == pre.entry(
                        a,
                        b,
                    ) by {
                    }
                    assert forall|a: int, b: int| 0 <= a < row as int && 0 <= b < 4 implies #[trigger] self.entry(
                        a,
                        b,
                    ) == old(self).entry(a, b).times_spec(r) by {
                        assert(pre.entry(a, b) == old(self).entry(a, b).times_spec(r));
                    }
                    assert forall|b: int| 0 <= b < column as int + 1 implies #[trigger] self.entry(
                        row as int,
                        b,
                    ) == old(self).entry(row as int, b).times_spec(r) by {
                        if b < column as int {
                            assert(pre.entry(row as int, b) == old(self).entry(
                                row as int,
                                b,
                            ).times_spec(r));
                        } else {
                            assert(pre.entry(row as int, column as int) == old(self).entry(
                                row as int,
                                column as int,
                            ));
                        }
                    }
                    assert forall|a: int, b: int| (row as int) < a < 4 && 0 <= b < 4 implies #[trigger] self.entry(
                        a,
                        b,
                    ) == old(self).entry(a, b) by {
                        assert(pre.entry(a, b) == old(self).entry(a, b));
                    }
                    assert forall|b: int| column as int + 1 <= b < 4 implies #[trigger] self.entry(
                        row as int,
                        b,
                    ) == old(self).entry(row as int, b) by {
                        assert(pre.entry(row as int, b) == old(self).entry(row as int, b));
                    }
                }
                column += 1;
            }
            row += 1;
        }
    }
}

/// Law: multiplying by the identity on the left changes nothing. Together
/// with the contract of `multiply`, which pins every entry of the product to
/// `mul_entry`, this says `multiply(Identity, M) == M` entry by entry for
/// every well-formed `M`.
pub proof fn lemma_multiply_identity_left<T: Scalar>(g: Seq<Seq<T>>)
    requires
        grid_wf(g),
    ensures
        forall|i: int, j: int|
            0 <= i < 4 && 0 <= j < 4 ==> #[trigger] mul_entry(identity_grid::<T>(), g, i, j)
                == g[i][j],
{
    assert forall|i: int, j: int| 0 <= i < 4 && 0 <= j < 4 implies #[trigger] mul_entry(
        identity_grid::<T>(),
        g,
        i,
        j,
    ) == g[i][j] by {
        T::law_zero_times(g[0][j]);
        T::law_zero_times(g[1][j]);
        T::law_zero_times(g[2][j]);
        T::law_zero_times(g[3][j]);
        T::law_plus_zero(T::zero_spec());
        if i == 0 {
            T::law_one_times(g[0][j]);
            T::law_plus_zero(g[0][j]);
        } else if i == 1 {
            T::law_one_times(g[1][j]);
            T::law_zero_plus(g[1][j]);
            T::law_plus_zero(g[1][j]);
        } else if i == 2 {
            T::law_one_times(g[2][j]);
            T::law_zero_plus(g[2][j]);
            T::law_plus_zero(g[2][j]);
        } else {
            T::law_one_times(g[3][j]);
            T::law_zero_plus(g[3][j]);
        }
    }
}

/// Law: multiplying by the identity on the right changes nothing. Together
/// with the contract of `multiply`, this says `multiply(M, Identity) == M`
/// entry by entry for every well-formed `M`.
pub proof fn lemma_multiply_identity_right<T: Scalar>(g: Seq<Seq<T>>)
    requires
        grid_wf(g),
    ensures
        forall|i: int, j: int|
            0 <= i < 4 && 0 <= j < 4 ==> #[trigger] mul_entry(g, identity_grid::<T>(), i, j)
                == g[i][j],
{
    assert forall|i: int, j: int| 0 <= i < 4 && 0 <= j < 4 implies #[trigger] mul_entry(
        g,
        identity_grid::<T>(),
        i,
        j,
    ) == g[i][j] by {
        T::law_times_zero(g[i][0]);
        T::law_times_zero(g[i][1]);
        T::law_times_zero(g[i][2]);
        T::law_times_zero(g[i][3]);
        T::law_plus_zero(T::zero_spec());
        if j == 0 {
            T::law_times_one(g[i][0]);
            T::law_plus_zero(g[i][0]);
        } else if j == 1 {
            T::law_times_one(g[i][1]);
            T::law_zero_plus(g[i][1]);
            T::law_plus_zero(g[i][1]);
        } else if j == 2 {
            T::law_times_one(g[i][2]);
            T::law_zero_plus(g[i][2]);
            T::law_plus_zero(g[i][2]);
        } else {
            T::law_times_one(g[i][3]);
            T::law_zero_plus(g[i][3]);
        }
    }
}

/// Law: a matrix with an all-zero column cannot be inverted; the pivot pass
/// reaches that column with a zero diagonal entry, the scan finds no row
/// with a larger absolute entry, and inversion fails with the
/// singular-matrix error.
pub proof fn lemma_zero_column_singular<T: Scalar>(g: Seq<Seq<T>>, c: int)
    requires
        grid_wf(g),
        0 <= c < 4,
        forall|r: int| 0 <= r < 4 ==> g[r][c] == T::zero_spec(),
    ensures
        invert_model(g) is None,
{
    lemma_pivot_zero_column(g, identity_grid::<T>(), 0, c);
}

/// The scan of an all-zero column never moves off its starting row: every
/// comparison is between the absolute value of zero and itself.
proof fn lemma_scan_zero_column<T: Scalar>(m: Seq<Seq<T>>, c: int, row: int, big: int)
    requires
        0 <= c < 4,
        0 <= big < 4,
        0 <= row <= 4,
        forall|r: int| 0 <= r < 4 ==> m[r][c] == T::zero_spec(),
    ensures
        pivot_scan(m, c, row, big) == big,
    decreases 4 - row,
{
    if row < 4 {
        T::law_lt_irrefl(T::zero_spec().abs_spec());
        assert(m[big][c] == T::zero_spec());
        assert(m[row][c] == T::zero_spec());
        lemma_scan_zero_column(m, c, row + 1, big);
    }
}

/// The scan only ever returns a row index in 0..4.
proof fn lemma_scan_range<T: Scalar>(m: Seq<Seq<T>>, c: int, row: int, big: int)
    requires
        0 <= big < 4,
        0 <= row <= 4,
    ensures
        0 <= pivot_scan(m, c, row, big) < 4,
    decreases 4 - row,
{
    if row < 4 {
        if m[big][c].abs_spec().lt_spec(m[row][c].abs_spec()) {
            lemma_scan_range(m, c, row + 1, row);
        } else {
            lemma_scan_range(m, c, row + 1, big);
        }
    }
}

/// The pivot pass fails on a matrix whose column `c` is all zeros: earlier
/// columns either fail outright or at most swap whole rows, which keeps the
/// column all zeros, and at column `c` the scan finds nothing.
proof fn lemma_pivot_zero_column<T: Scalar>(m: Seq<Seq<T>>, v: Seq<Seq<T>>, k: int, c: int)
    requires
        grid_wf(m),
        0 <= k <= c < 4,
        forall|r: int| 0 <= r < 4 ==> m[r][c] == T::zero_spec(),
    ensures
        pivot_pass(m, v, k) is None,
    decreases 4 - k,
{
    if m[k][k] == T::zero_spec() {
        let big = pivot_scan(m, k, k, k);
        if big != k {
            if k == c {
                lemma_scan_zero_column(m, c, k, k);
                assert(false);
            }
            lemma_scan_range(m, k, k, k);
            let m2 = swap_rows(m, k, big);
            let v2 = swap_rows(v, k, big);
            assert forall|i: int| 0 <= i < 4 implies #[trigger] m2[i].len() == 4 by {}
            assert forall|r: int| 0 <= r < 4 implies #[trigger] m2[r][c] == T::zero_spec() by {}
            lemma_pivot_zero_column(m2, v2, k + 1, c);
        }
    } else {
        assert(k != c);
        lemma_pivot_zero_column(m, v, k + 1, c);
    }
}

/// Evaluates the transpose pass on a well-formed grid entry by entry: the
/// first row and the first column are exchanged, everything else is
/// unchanged, because every swap with both indices in 1..4 happens twice.
#[verifier::rlimit(50)]
proof fn lemma_transpose_entries<T: Scalar>(g: Seq<Seq<T>>)
    requires
        grid_wf(g),
    ensures
        grid_wf(transpose_pass(g, 0, 1)),
        transpose_pass(g, 0, 1)[0][0] == g[0][0],
        transpose_pass(g, 0, 1)[0][1] == g[1][0],
        transpose_pass(g, 0, 1)[0][2] == g[2][0],
        transpose_pass(g, 0, 1)[0][3] == g[3][0],
        transpose_pass(g, 0, 1)[1][0] == g[0][1],
        transpose_pass(g, 0, 1)[2][0] == g[0][2],
        transpose_pass(g, 0, 1)[3][0] == g[0][3],
        transpose_pass(g, 0, 1)[1][1] == g[1][1],
        transpose_pass(g, 0, 1)[1][2] == g[1][2],
        transpose_pass(g, 0, 1)[1][3] == g[1][3],
        transpose_pass(g, 0, 1)[2][1] == g[2][1],
        transpose_pass(g, 0, 1)[2][2] == g[2][2],
        transpose_pass(g, 0, 1)[2][3] == g[2][3],
        transpose_pass(g, 0, 1)[3][1] == g[3][1],
        transpose_pass(g, 0, 1)[3][2] == g[3][2],
        transpose_pass(g, 0, 1)[3][3] == g[3][3],
{
    let s1 = transpose_step(g, 0, 1);
    assert(transpose_pass(g, 0, 1) == transpose_pass(s1, 0, 2));
    let s2 = transpose_step(s1, 0, 2);
    assert(transpose_pass(s1, 0, 2) == transpose_pass(s2, 0, 3));
    let s3 = transpose_step(s2, 0, 3);
    assert(transpose_pass(s2, 0, 3) == transpose_pass(s3, 0, 4));
    assert(transpose_pass(s3, 0, 4) == transpose_pass(s3, 1, 1));
    let s4 = transpose_step(s3, 1, 1);
    assert(transpose_pass(s3, 1, 1) == transpose_pass(s4, 1, 2));
    let s5 = transpose_step(s4, 1, 2);
    assert(transpose_pass(s4, 1, 2) == transpose_pass(s5, 1, 3));
    let s6 = transpose_step(s5, 1, 3);
    assert(transpose_pass(s5, 1, 3) == transpose_pass(s6, 1, 4));
    assert(transpose_pass(s6, 1, 4) == transpose_pass(s6, 2, 1));
    let s7 = transpose_step(s6, 2, 1);
    assert(transpose_pass(s6, 2, 1) == transpose_pass(s7, 2, 2));
    let s8 = transpose_step(s7, 2, 2);
    assert(transpose_pass(s7, 2, 2) == transpose_pass(s8, 2, 3));
    let s9 = transpose_step(s8, 2, 3);
    assert(transpose_pass(s8, 2, 3) == transpose_pass(s9, 2, 4));
    assert(transpose_pass(s9, 2, 4) == transpose_pass(s9, 3, 1));
    let s10 = transpose_step(s9, 3, 1);
    assert(transpose_pass(s9, 3, 1) == transpose_pass(s10, 3, 2));
    let s11 = transpose_step(s10, 3, 2);
    assert(transpose_pass(s10, 3, 2) == transpose_pass(s11, 3, 3));
    let s12 = transpose_step(s11, 3, 3);
    assert(transpose_pass(s11, 3, 3) == transpose_pass(s12, 3, 4));
    assert(transpose_pass(s12, 3, 4) == transpose_pass(s12, 4, 1));
    assert(transpose_pass(s12, 4, 1) == s12);
    assert(transpose_pass(g, 0, 1) == s12);
    assert forall|i: int| 0 <= i < 4 implies #[trigger] s12[i].len() == 4 by {
        if i == 0 {
        } else if i == 1 {
        } else if i == 2 {
        } else {
        }
    }
}

/// Builds a 4-element row.
fn row4<T: Scalar>(a: T, b: T, c: T, d: T) -> (r: Vec<T>)
    ensures
        r@ == seq![a, b, c, d],
{
    let mut v: Vec<T> = Vec::new();
    v.push(a);
    v.push(b);
    v.push(c);
    v.push(d);
    proof {
        assert(v@ =~= seq![a, b, c, d]);
    }
    v
}

/// A fresh copy of a row.
fn copy_row<T: Scalar>(row: &Vec<T>) -> (r: Vec<T>)
    ensures
        r@ == row@,
{
    let mut out: Vec<T> = Vec::new();
    let mut i: usize = 0;
    while i < row.len()
        invariant
            i <= row@.len(),
            out@ =~= row@.subrange(0, i as int),
        decreases row@.len() - i,
    {
        out.push(row[i]);
        i += 1;
    }
    proof {
        assert(out@ =~= row@);
    }
    out
}

/// The row with the element at `j` replaced by `v`.
fn row_with<T: Scalar>(row: &Vec<T>, j: usize, v: T) -> (r: Vec<T>)
    requires
        j < row@.len(),
    ensures
        r@ == row@.update(j as int, v),
{
    let mut out = copy_row(row);
    out.set(j, v);
    out
}

/// The row `target` minus `k` times the row `source`, entry by entry.
fn row_sub_exec<T: Scalar>(target: &Vec<T>, source: &Vec<T>, k: T) -> (r: Vec<T>)
    requires
        target@.len() == 4,
        source@.len() == 4,
    ensures
        r@ == row_sub(target@, source@, k),
{
    let mut out: Vec<T> = Vec::new();
    let mut j: usize = 0;
    while j < 4
        invariant
            target@.len() == 4,
            source@.len() == 4,
            j <= 4,
            out@.len() == j,
            forall|i: int|
                0 <= i < j ==> #[trigger] out@[i] == target@[i].minus_spec(
                    k.times_spec(source@[i]),
                ),
        decreases 4 - j,
    {
        out.push(target[j].minus(k.times(source[j])));
        j += 1;
    }
    proof {
        assert(out@ =~= row_sub(target@, source@, k));
    }
    out
}

} // verus!
