//! Fixed-size square integer matrices, stored row by row.

use vstd::prelude::*;
use crate::vec::{Vec2, Vec3, Vec4, lemma_mul_le};

verus! {

/// Largest magnitude a matrix entry may have when it enters a determinant
/// or an adjugate; keeps every cofactor product inside `i64`.
pub const MAT_LIMIT: i64 = 0x10_0000;

/// A 2 by 2 integer matrix.
#[derive(Debug, Default, PartialEq, Eq, Structural, Clone, Copy)]
pub struct Mat2 {
    pub r0: Vec2,
    pub r1: Vec2,
}

/// A 3 by 3 integer matrix.
#[derive(Debug, Default, PartialEq, Eq, Structural, Clone, Copy)]
pub struct Mat3 {
    pub r0: Vec3,
    pub r1: Vec3,
    pub r2: Vec3,
}

/// A 4 by 4 integer matrix.
#[derive(Debug, Default, PartialEq, Eq, Structural, Clone, Copy)]
pub struct Mat4 {
    pub r0: Vec4,
    pub r1: Vec4,
    pub r2: Vec4,
    pub r3: Vec4,
}

impl Mat2 {
    /// Every entry's magnitude is at most `MAT_LIMIT`.
    pub open spec fn bounded(self) -> bool {
        &&& -MAT_LIMIT <= self.r0.0 <= MAT_LIMIT
        &&& -MAT_LIMIT <= self.r0.1 <= MAT_LIMIT
        &&& -MAT_LIMIT <= self.r1.0 <= MAT_LIMIT
        &&& -MAT_LIMIT <= self.r1.1 <= MAT_LIMIT
    }

    /// Builds a matrix from its rows.
    pub fn new(r0: Vec2, r1: Vec2) -> (m: Self)
        ensures
            m == (Mat2 { r0, r1 }),
    {
        Mat2 { r0, r1 }
    }

    /// A matrix with `i` along the diagonal and zero elsewhere.
    pub fn diagnonal(i: i64) -> (m: Self)
        ensures
            m == (Mat2 { r0: Vec2(i, 0), r1: Vec2(0, i) }),
    {
        Mat2 { r0: Vec2(i, 0), r1: Vec2(0, i) }
    }

    /// The identity matrix.
    pub fn identity() -> (m: Self)
        ensures
            m == (Mat2 { r0: Vec2(1, 0), r1: Vec2(0, 1) }),
    {
        Mat2::diagnonal(1)
    }

    /// Rows become columns.
    pub fn transpose(&self) -> (m: Self)
        ensures
            m == (Mat2 { r0: Vec2(self.r0.0, self.r1.0), r1: Vec2(self.r0.1, self.r1.1) }),
    {
        Mat2 { r0: Vec2(self.r0.0, self.r1.0), r1: Vec2(self.r0.1, self.r1.1) }
    }

    /// The determinant.
    pub fn det(&self) -> (d: i64)
        requires
            self.bounded(),
        ensures
            d == spec_det2(*self),
    {
        proof {
            lemma_mul_le(self.r0.0 as int, self.r1.1 as int, MAT_LIMIT as int, MAT_LIMIT as int);
            lemma_mul_le(self.r0.1 as int, self.r1.0 as int, MAT_LIMIT as int, MAT_LIMIT as int);
        }
        self.r0.0 * self.r1.1 - self.r0.1 * self.r1.0
    }

    /// The exact inverse as a pair `(n, d)`: a numerator matrix and the
    /// determinant as common denominator, so that `self * n == d * identity`.
    /// A singular matrix is rejected.
    pub fn inverted(&self) -> (r: Result<(Mat2, i64), ()>)
        requires
            self.bounded(),
        ensures
            spec_det2(*self) != 0 ==> r == Ok::<(Mat2, i64), ()>(
                (spec_adj2(*self), spec_det2(*self) as i64),
            ),
            spec_det2(*self) == 0 ==> r == Err::<(Mat2, i64), ()>(()),
    {
        let d = self.det();
        if d == 0 {
            Err(())
        } else {
            Ok((Mat2 { r0: Vec2(self.r1.1, -self.r0.1), r1: Vec2(-self.r1.0, self.r0.0) }, d))
        }
    }


    /// The matrix product.
    pub fn mul(&self, other: &Mat2) -> (m: Self)
        requires
            self.bounded(),
            other.bounded(),
        ensures
            m.r0.0 == self.r0.0 * other.r0.0 + self.r0.1 * other.r1.0,
            m.r0.1 == self.r0.0 * other.r0.1 + self.r0.1 * other.r1.1,
            m.r1.0 == self.r1.0 * other.r0.0 + self.r1.1 * other.r1.0,
            m.r1.1 == self.r1.0 * other.r0.1 + self.r1.1 * other.r1.1,
    {
        let t = other.transpose();
        Mat2 {
            r0: Vec2(self.r0.dot(t.r0), self.r0.dot(t.r1)),
            r1: Vec2(self.r1.dot(t.r0), self.r1.dot(t.r1)),
        }
    }

    /// The product with a column vector.
    pub fn mul_vec(&self, v: Vec2) -> (r: Vec2)
        requires
            self.bounded(),
            v.bounded(),
        ensures
            r.0 == self.r0.0 * v.0 + self.r0.1 * v.1,
            r.1 == self.r1.0 * v.0 + self.r1.1 * v.1,
    {
        Vec2(self.r0.dot(v), self.r1.dot(v))
    }

    /// Component-wise addition.
    pub fn add(&self, other: &Mat2) -> (m: Self)
        requires
            self.bounded(),
            other.bounded(),
        ensures
            m == (Mat2 {
                r0: Vec2((self.r0.0 + other.r0.0) as i64, (self.r0.1 + other.r0.1) as i64),
                r1: Vec2((self.r1.0 + other.r1.0) as i64, (self.r1.1 + other.r1.1) as i64),
            }),
    {
        Mat2 {
            r0: Vec2(self.r0.0 + other.r0.0, self.r0.1 + other.r0.1),
            r1: Vec2(self.r1.0 + other.r1.0, self.r1.1 + other.r1.1),
        }
    }

    /// The product with a scalar, entry by entry.
    pub fn mul_scalar(&self, k: i64) -> (m: Self)
        requires
            self.bounded(),
            -MAT_LIMIT <= k <= MAT_LIMIT,
        ensures
            m.r0.0 == self.r0.0 * k,
            m.r0.1 == self.r0.1 * k,
            m.r1.0 == self.r1.0 * k,
            m.r1.1 == self.r1.1 * k,
    {
        proof {
            lemma_mul_le(self.r0.0 as int, k as int, MAT_LIMIT as int, MAT_LIMIT as int);
            lemma_mul_le(self.r0.1 as int, k as int, MAT_LIMIT as int, MAT_LIMIT as int);
            lemma_mul_le(self.r1.0 as int, k as int, MAT_LIMIT as int, MAT_LIMIT as int);
            lemma_mul_le(self.r1.1 as int, k as int, MAT_LIMIT as int, MAT_LIMIT as int);
        }
        Mat2 { r0: Vec2(self.r0.0 * k, self.r0.1 * k), r1: Vec2(self.r1.0 * k, self.r1.1 * k) }
    }

    /// Replaces the matrix by its inverse numerator and hands back the
    /// denominator; a singular matrix is rejected and left unchanged.
    pub fn invert(&mut self) -> (r: Result<i64, ()>)
        requires
            old(self).bounded(),
        ensures
            spec_det2(*old(self)) != 0 ==> r == Ok::<i64, ()>(spec_det2(*old(self)) as i64)
                && *final(self) == spec_adj2(*old(self)),
            spec_det2(*old(self)) == 0 ==> r == Err::<i64, ()>(()) && *final(self) == *old(self),
    {
        match self.inverted() {
            Ok((m, d)) => {
                *self = m;
                Ok(d)
            },
            Err(()) => Err(()),
        }
    }
}

/// The determinant of a 2 by 2 matrix.
pub open spec fn spec_det2(m: Mat2) -> int {
    m.r0.0 * m.r1.1 - m.r0.1 * m.r1.0
}

/// The adjugate of a 2 by 2 matrix.
pub open spec fn spec_adj2(m: Mat2) -> Mat2 {
    Mat2 {
        r0: Vec2(m.r1.1, (-m.r0.1) as i64),
        r1: Vec2((-m.r1.0) as i64, m.r0.0),
    }
}

/// The product of a 2 by 2 matrix and a column vector.
pub open spec fn spec_mul2_vec(m: Mat2, v: Vec2) -> (int, int) {
    (m.r0.0 * v.0 + m.r0.1 * v.1, m.r1.0 * v.0 + m.r1.1 * v.1)
}

/// Multiplying a matrix by its adjugate scales the identity by the
/// determinant: for any column vector, `adj * (m * v) == det * v`.
pub proof fn lemma_adj2_inverts(m: Mat2, v: Vec2)
    requires
        m.bounded(),
    ensures
        ({
            let mv = spec_mul2_vec(m, v);
            let a = spec_adj2(m);
            &&& a.r0.0 * mv.0 + a.r0.1 * mv.1 == spec_det2(m) * v.0
            &&& a.r1.0 * mv.0 + a.r1.1 * mv.1 == spec_det2(m) * v.1
        }),
{
    assert(m.r1.1 * (m.r0.0 * v.0 + m.r0.1 * v.1) + (-m.r0.1) * (m.r1.0 * v.0 + m.r1.1 * v.1) == (
    m.r0.0 * m.r1.1 - m.r0.1 * m.r1.0) * v.0) by (nonlinear_arith);
    assert((-m.r1.0) * (m.r0.0 * v.0 + m.r0.1 * v.1) + m.r0.0 * (m.r1.0 * v.0 + m.r1.1 * v.1) == (
    m.r0.0 * m.r1.1 - m.r0.1 * m.r1.0) * v.1) by (nonlinear_arith);
}

impl Mat3 {
    /// Every entry's magnitude is at most `MAT_LIMIT`.
    pub open spec fn bounded(self) -> bool {
        &&& self.r0.bounded()
        &&& self.r1.bounded()
        &&& self.r2.bounded()
        &&& -MAT_LIMIT <= self.r0.0 <= MAT_LIMIT
        &&& -MAT_LIMIT <= self.r0.1 <= MAT_LIMIT
        &&& -MAT_LIMIT <= self.r0.2 <= MAT_LIMIT
        &&& -MAT_LIMIT <= self.r1.0 <= MAT_LIMIT
        &&& -MAT_LIMIT <= self.r1.1 <= MAT_LIMIT
        &&& -MAT_LIMIT <= self.r1.2 <= MAT_LIMIT
        &&& -MAT_LIMIT <= self.r2.0 <= MAT_LIMIT
        &&& -MAT_LIMIT <= self.r2.1 <= MAT_LIMIT
        &&& -MAT_LIMIT <= self.r2.2 <= MAT_LIMIT
    }

    /// Builds a matrix from its rows.
    pub fn new(r0: Vec3, r1: Vec3, r2: Vec3) -> (m: Self)
        ensures
            m == (Mat3 { r0, r1, r2 }),
    {
        Mat3 { r0, r1, r2 }
    }

    /// A matrix with `i` along the diagonal and zero elsewhere.
    pub fn diagonal(i: i64) -> (m: Self)
        ensures
            m == (Mat3 { r0: Vec3(i, 0, 0), r1: Vec3(0, i, 0), r2: Vec3(0, 0, i) }),
    {
        Mat3 { r0: Vec3(i, 0, 0), r1: Vec3(0, i, 0), r2: Vec3(0, 0, i) }
    }

    /// The identity matrix.
    pub fn identity() -> (m: Self)
        ensures
            m == (Mat3 { r0: Vec3(1, 0, 0), r1: Vec3(0, 1, 0), r2: Vec3(0, 0, 1) }),
    {
        Mat3::diagonal(1)
    }

    /// Rows become columns.
    pub fn transpose(&self) -> (m: Self)
        ensures
            m == (Mat3 {
                r0: Vec3(self.r0.0, self.r1.0, self.r2.0),
                r1: Vec3(self.r0.1, self.r1.1, self.r2.1),
                r2: Vec3(self.r0.2, self.r1.2, self.r2.2),
            }),
    {
        Mat3 {
            r0: Vec3(self.r0.0, self.r1.0, self.r2.0),
            r1: Vec3(self.r0.1, self.r1.1, self.r2.1),
            r2: Vec3(self.r0.2, self.r1.2, self.r2.2),
        }
    }

    /// The determinant, by cofactor expansion along the first row.
    pub fn det(&self) -> (d: i64)
        requires
            self.bounded(),
        ensures
            d == spec_det3(*self),
    {
        proof {
            lemma_mul_le(self.r1.1 as int, self.r2.2 as int, MAT_LIMIT as int, MAT_LIMIT as int);
            lemma_mul_le(self.r1.2 as int, self.r2.1 as int, MAT_LIMIT as int, MAT_LIMIT as int);
            lemma_mul_le(self.r1.2 as int, self.r2.0 as int, MAT_LIMIT as int, MAT_LIMIT as int);
            lemma_mul_le(self.r1.0 as int, self.r2.2 as int, MAT_LIMIT as int, MAT_LIMIT as int);
            lemma_mul_le(self.r1.0 as int, self.r2.1 as int, MAT_LIMIT as int, MAT_LIMIT as int);
            lemma_mul_le(self.r1.1 as int, self.r2.0 as int, MAT_LIMIT as int, MAT_LIMIT as int);
        }
        let c0: i64 = self.r1.1 * self.r2.2 - self.r1.2 * self.r2.1;
        let c1t: i64 = self.r1.2 * self.r2.0 - self.r1.0 * self.r2.2;
        let c2t: i64 = self.r1.0 * self.r2.1 - self.r1.1 * self.r2.0;
        proof {
            lemma_mul_le(self.r0.0 as int, c0 as int, MAT_LIMIT as int, 0x200_0000_0000);
            lemma_mul_le(self.r0.1 as int, c1t as int, MAT_LIMIT as int, 0x200_0000_0000);
            lemma_mul_le(self.r0.2 as int, c2t as int, MAT_LIMIT as int, 0x200_0000_0000);
        }
        self.r0.0 * c0 + self.r0.1 * c1t + self.r0.2 * c2t
    }

    /// The product with a column vector.
    pub fn mul_vec(&self, v: Vec3) -> (r: Vec3)
        requires
            self.bounded(),
            v.bounded(),
        ensures
            r.0 == self.r0.0 * v.0 + self.r0.1 * v.1 + self.r0.2 * v.2,
            r.1 == self.r1.0 * v.0 + self.r1.1 * v.1 + self.r1.2 * v.2,
            r.2 == self.r2.0 * v.0 + self.r2.1 * v.1 + self.r2.2 * v.2,
    {
        Vec3(self.r0.dot(v), self.r1.dot(v), self.r2.dot(v))
    }


    /// The matrix product: each entry is the dot of a row and a column.
    pub fn mul(&self, other: &Mat3) -> (m: Self)
        requires
            self.bounded(),
            other.bounded(),
        ensures
            m.r0.0 == self.r0.0 * other.r0.0 + self.r0.1 * other.r1.0 + self.r0.2 * other.r2.0,
            m.r0.1 == self.r0.0 * other.r0.1 + self.r0.1 * other.r1.1 + self.r0.2 * other.r2.1,
            m.r0.2 == self.r0.0 * other.r0.2 + self.r0.1 * other.r1.2 + self.r0.2 * other.r2.2,
            m.r1.0 == self.r1.0 * other.r0.0 + self.r1.1 * other.r1.0 + self.r1.2 * other.r2.0,
            m.r1.1 == self.r1.0 * other.r0.1 + self.r1.1 * other.r1.1 + self.r1.2 * other.r2.1,
            m.r1.2 == self.r1.0 * other.r0.2 + self.r1.1 * other.r1.2 + self.r1.2 * other.r2.2,
            m.r2.0 == self.r2.0 * other.r0.0 + self.r2.1 * other.r1.0 + self.r2.2 * other.r2.0,
            m.r2.1 == self.r2.0 * other.r0.1 + self.r2.1 * other.r1.1 + self.r2.2 * other.r2.1,
            m.r2.2 == self.r2.0 * other.r0.2 + self.r2.1 * other.r1.2 + self.r2.2 * other.r2.2,
    {
        let t = other.transpose();
        Mat3 {
            r0: Vec3(self.r0.dot(t.r0), self.r0.dot(t.r1), self.r0.dot(t.r2)),
            r1: Vec3(self.r1.dot(t.r0), self.r1.dot(t.r1), self.r1.dot(t.r2)),
            r2: Vec3(self.r2.dot(t.r0), self.r2.dot(t.r1), self.r2.dot(t.r2)),
        }
    }

    /// Component-wise addition.
    pub fn add(&self, other: &Mat3) -> (m: Self)
        requires
            self.bounded(),
            other.bounded(),
        ensures
            m.r0.0 == self.r0.0 + other.r0.0,
            m.r0.1 == self.r0.1 + other.r0.1,
            m.r0.2 == self.r0.2 + other.r0.2,
            m.r1.0 == self.r1.0 + other.r1.0,
            m.r1.1 == self.r1.1 + other.r1.1,
            m.r1.2 == self.r1.2 + other.r1.2,
            m.r2.0 == self.r2.0 + other.r2.0,
            m.r2.1 == self.r2.1 + other.r2.1,
            m.r2.2 == self.r2.2 + other.r2.2,
    {
        Mat3 {
            r0: Vec3(self.r0.0 + other.r0.0, self.r0.1 + other.r0.1, self.r0.2 + other.r0.2),
            r1: Vec3(self.r1.0 + other.r1.0, self.r1.1 + other.r1.1, self.r1.2 + other.r1.2),
            r2: Vec3(self.r2.0 + other.r2.0, self.r2.1 + other.r2.1, self.r2.2 + other.r2.2),
        }
    }

    /// The product with a scalar, entry by entry.
    pub fn mul_scalar(&self, k: i64) -> (m: Self)
        requires
            self.bounded(),
            -MAT_LIMIT <= k <= MAT_LIMIT,
        ensures
            m.r0.0 == self.r0.0 * k,
            m.r0.1 == self.r0.1 * k,
            m.r0.2 == self.r0.2 * k,
            m.r1.0 == self.r1.0 * k,
            m.r1.1 == self.r1.1 * k,
            m.r1.2 == self.r1.2 * k,
            m.r2.0 == self.r2.0 * k,
            m.r2.1 == self.r2.1 * k,
            m.r2.2 == self.r2.2 * k,
    {
        Mat3 { r0: self.r0.mul(k), r1: self.r1.mul(k), r2: self.r2.mul(k) }
    }

    /// The exact inverse as a pair `(n, d)`: the adjugate matrix and the
    /// determinant as common denominator, so that `self * n == d * identity`.
    /// A singular matrix is rejected.
    pub fn inverted(&self) -> (r: Result<(Mat3, i64), ()>)
        requires
            self.bounded(),
        ensures
            spec_det3(*self) != 0 ==> r == Ok::<(Mat3, i64), ()>(
                (spec_adj3(*self), spec_det3(*self) as i64),
            ),
            spec_det3(*self) == 0 ==> r == Err::<(Mat3, i64), ()>(()),
    {
        let d = self.det();
        if d == 0 {
            return Err(());
        }
        proof {
            lemma_mul_le(self.r1.1 as int, self.r2.2 as int, MAT_LIMIT as int, MAT_LIMIT as int);
            lemma_mul_le(self.r1.2 as int, self.r2.1 as int, MAT_LIMIT as int, MAT_LIMIT as int);
            lemma_mul_le(self.r0.2 as int, self.r2.1 as int, MAT_LIMIT as int, MAT_LIMIT as int);
            lemma_mul_le(self.r0.1 as int, self.r2.2 as int, MAT_LIMIT as int, MAT_LIMIT as int);
            lemma_mul_le(self.r0.1 as int, self.r1.2 as int, MAT_LIMIT as int, MAT_LIMIT as int);
            lemma_mul_le(self.r0.2 as int, self.r1.1 as int, MAT_LIMIT as int, MAT_LIMIT as int);
            lemma_mul_le(self.r1.2 as int, self.r2.0 as int, MAT_LIMIT as int, MAT_LIMIT as int);
            lemma_mul_le(self.r1.0 as int, self.r2.2 as int, MAT_LIMIT as int, MAT_LIMIT as int);
            lemma_mul_le(self.r0.0 as int, self.r2.2 as int, MAT_LIMIT as int, MAT_LIMIT as int);
            lemma_mul_le(self.r0.2 as int, self.r2.0 as int, MAT_LIMIT as int, MAT_LIMIT as int);
            lemma_mul_le(self.r0.2 as int, self.r1.0 as int, MAT_LIMIT as int, MAT_LIMIT as int);
            lemma_mul_le(self.r0.0 as int, self.r1.2 as int, MAT_LIMIT as int, MAT_LIMIT as int);
            lemma_mul_le(self.r1.0 as int, self.r2.1 as int, MAT_LIMIT as int, MAT_LIMIT as int);
            lemma_mul_le(self.r1.1 as int, self.r2.0 as int, MAT_LIMIT as int, MAT_LIMIT as int);
            lemma_mul_le(self.r0.1 as int, self.r2.0 as int, MAT_LIMIT as int, MAT_LIMIT as int);
            lemma_mul_le(self.r0.0 as int, self.r2.1 as int, MAT_LIMIT as int, MAT_LIMIT as int);
            lemma_mul_le(self.r0.0 as int, self.r1.1 as int, MAT_LIMIT as int, MAT_LIMIT as int);
            lemma_mul_le(self.r0.1 as int, self.r1.0 as int, MAT_LIMIT as int, MAT_LIMIT as int);
        }
        let a = Mat3 {
            r0: Vec3(
                self.r1.1 * self.r2.2 - self.r1.2 * self.r2.1,
                self.r0.2 * self.r2.1 - self.r0.1 * self.r2.2,
                self.r0.1 * self.r1.2 - self.r0.2 * self.r1.1,
            ),
            r1: Vec3(
                self.r1.2 * self.r2.0 - self.r1.0 * self.r2.2,
                self.r0.0 * self.r2.2 - self.r0.2 * self.r2.0,
                self.r0.2 * self.r1.0 - self.r0.0 * self.r1.2,
            ),
            r2: Vec3(
                self.r1.0 * self.r2.1 - self.r1.1 * self.r2.0,
                self.r0.1 * self.r2.0 - self.r0.0 * self.r2.1,
                self.r0.0 * self.r1.1 - self.r0.1 * self.r1.0,
            ),
        };
        Ok((a, d))
    }

    /// Replaces the matrix by its inverse numerator and hands back the
    /// denominator; a singular matrix is rejected and left unchanged.
    pub fn invert(&mut self) -> (r: Result<i64, ()>)
        requires
            old(self).bounded(),
        ensures
            spec_det3(*old(self)) != 0 ==> r == Ok::<i64, ()>(spec_det3(*old(self)) as i64)
                && *final(self) == spec_adj3(*old(self)),
            spec_det3(*old(self)) == 0 ==> r == Err::<i64, ()>(()) && *final(self) == *old(self),
    {
        match self.inverted() {
            Ok((m, d)) => {
                *self = m;
                Ok(d)
            },
            Err(()) => Err(()),
        }
    }
}

/// The determinant of a 3 by 3 matrix.
pub open spec fn spec_det3(m: Mat3) -> int {
    m.r0.0 * (m.r1.1 * m.r2.2 - m.r1.2 * m.r2.1) + m.r0.1 * (m.r1.2 * m.r2.0 - m.r1.0 * m.r2.2)
        + m.r0.2 * (m.r1.0 * m.r2.1 - m.r1.1 * m.r2.0)
}

/// The adjugate of a 3 by 3 matrix.
pub open spec fn spec_adj3(m: Mat3) -> Mat3 {
    Mat3 {
        r0: Vec3(
            (m.r1.1 * m.r2.2 - m.r1.2 * m.r2.1) as i64,
            (m.r0.2 * m.r2.1 - m.r0.1 * m.r2.2) as i64,
            (m.r0.1 * m.r1.2 - m.r0.2 * m.r1.1) as i64,
        ),
        r1: Vec3(
            (m.r1.2 * m.r2.0 - m.r1.0 * m.r2.2) as i64,
            (m.r0.0 * m.r2.2 - m.r0.2 * m.r2.0) as i64,
            (m.r0.2 * m.r1.0 - m.r0.0 * m.r1.2) as i64,
        ),
        r2: Vec3(
            (m.r1.0 * m.r2.1 - m.r1.1 * m.r2.0) as i64,
            (m.r0.1 * m.r2.0 - m.r0.0 * m.r2.1) as i64,
            (m.r0.0 * m.r1.1 - m.r0.1 * m.r1.0) as i64,
        ),
    }
}


/// The first row of the adjugate identity, over plain integers; the other
/// rows are cyclic relabelings of the same identity.
/// The adjugate entries of a bounded matrix are bounded cofactors.
pub proof fn lemma_adj3_entries(m: Mat3)
    requires
        m.bounded(),
    ensures
        ({
            let a = spec_adj3(m);
            &&& -0x200_0000_0000 <= a.r0.0 <= 0x200_0000_0000
            &&& -0x200_0000_0000 <= a.r0.1 <= 0x200_0000_0000
            &&& -0x200_0000_0000 <= a.r0.2 <= 0x200_0000_0000
            &&& -0x200_0000_0000 <= a.r1.0 <= 0x200_0000_0000
            &&& -0x200_0000_0000 <= a.r1.1 <= 0x200_0000_0000
            &&& -0x200_0000_0000 <= a.r1.2 <= 0x200_0000_0000
            &&& -0x200_0000_0000 <= a.r2.0 <= 0x200_0000_0000
            &&& -0x200_0000_0000 <= a.r2.1 <= 0x200_0000_0000
            &&& -0x200_0000_0000 <= a.r2.2 <= 0x200_0000_0000
        }),
{
    lemma_mul_le(m.r1.1 as int, m.r2.2 as int, MAT_LIMIT as int, MAT_LIMIT as int);
    lemma_mul_le(m.r1.2 as int, m.r2.1 as int, MAT_LIMIT as int, MAT_LIMIT as int);
    lemma_mul_le(m.r0.2 as int, m.r2.1 as int, MAT_LIMIT as int, MAT_LIMIT as int);
    lemma_mul_le(m.r0.1 as int, m.r2.2 as int, MAT_LIMIT as int, MAT_LIMIT as int);
    lemma_mul_le(m.r0.1 as int, m.r1.2 as int, MAT_LIMIT as int, MAT_LIMIT as int);
    lemma_mul_le(m.r0.2 as int, m.r1.1 as int, MAT_LIMIT as int, MAT_LIMIT as int);
    lemma_mul_le(m.r1.2 as int, m.r2.0 as int, MAT_LIMIT as int, MAT_LIMIT as int);
    lemma_mul_le(m.r1.0 as int, m.r2.2 as int, MAT_LIMIT as int, MAT_LIMIT as int);
    lemma_mul_le(m.r0.0 as int, m.r2.2 as int, MAT_LIMIT as int, MAT_LIMIT as int);
    lemma_mul_le(m.r0.2 as int, m.r2.0 as int, MAT_LIMIT as int, MAT_LIMIT as int);
    lemma_mul_le(m.r0.2 as int, m.r1.0 as int, MAT_LIMIT as int, MAT_LIMIT as int);
    lemma_mul_le(m.r0.0 as int, m.r1.2 as int, MAT_LIMIT as int, MAT_LIMIT as int);
    lemma_mul_le(m.r1.0 as int, m.r2.1 as int, MAT_LIMIT as int, MAT_LIMIT as int);
    lemma_mul_le(m.r1.1 as int, m.r2.0 as int, MAT_LIMIT as int, MAT_LIMIT as int);
    lemma_mul_le(m.r0.1 as int, m.r2.0 as int, MAT_LIMIT as int, MAT_LIMIT as int);
    lemma_mul_le(m.r0.0 as int, m.r2.1 as int, MAT_LIMIT as int, MAT_LIMIT as int);
    lemma_mul_le(m.r0.0 as int, m.r1.1 as int, MAT_LIMIT as int, MAT_LIMIT as int);
    lemma_mul_le(m.r0.1 as int, m.r1.0 as int, MAT_LIMIT as int, MAT_LIMIT as int);
}

impl Mat4 {
    /// Builds a matrix from its rows.
    pub fn new(r0: Vec4, r1: Vec4, r2: Vec4, r3: Vec4) -> (m: Self)
        ensures
            m == (Mat4 { r0, r1, r2, r3 }),
    {
        Mat4 { r0, r1, r2, r3 }
    }

    /// A matrix with `i` along the diagonal and zero elsewhere.
    pub fn diagonal(i: i64) -> (m: Self)
        ensures
            m == (Mat4 {
                r0: Vec4(i, 0, 0, 0),
                r1: Vec4(0, i, 0, 0),
                r2: Vec4(0, 0, i, 0),
                r3: Vec4(0, 0, 0, i),
            }),
    {
        Mat4 {
            r0: Vec4(i, 0, 0, 0),
            r1: Vec4(0, i, 0, 0),
            r2: Vec4(0, 0, i, 0),
            r3: Vec4(0, 0, 0, i),
        }
    }

    /// The identity matrix.
    pub fn identity() -> (m: Self)
        ensures
            m == (Mat4 {
                r0: Vec4(1, 0, 0, 0),
                r1: Vec4(0, 1, 0, 0),
                r2: Vec4(0, 0, 1, 0),
                r3: Vec4(0, 0, 0, 1),
            }),
    {
        Mat4::diagonal(1)
    }

    /// The screen mapping for a `w` by `h` viewport with a depth range of
    /// 256 units: half extents along the diagonal (the y axis flipped) and
    /// half extents as the translation column.
    pub fn viewport(w: i64, h: i64) -> (m: Self)
        requires
            0 <= w <= MAT_LIMIT,
            0 <= h <= MAT_LIMIT,
        ensures
            m == (Mat4 {
                r0: Vec4((w / 2) as i64, 0, 0, (w / 2) as i64),
                r1: Vec4(0, (-(h / 2)) as i64, 0, (h / 2) as i64),
                r2: Vec4(0, 0, 128, 128),
                r3: Vec4(0, 0, 0, 1),
            }),
    {
        let hw = w / 2;
        let hh = h / 2;
        Mat4 {
            r0: Vec4(hw, 0, 0, hw),
            r1: Vec4(0, -hh, 0, hh),
            r2: Vec4(0, 0, 128, 128),
            r3: Vec4(0, 0, 0, 1),
        }
    }

    /// Rows become columns.
    pub fn transpose(&self) -> (m: Self)
        ensures
            m == (Mat4 {
                r0: Vec4(self.r0.0, self.r1.0, self.r2.0, self.r3.0),
                r1: Vec4(self.r0.1, self.r1.1, self.r2.1, self.r3.1),
                r2: Vec4(self.r0.2, self.r1.2, self.r2.2, self.r3.2),
                r3: Vec4(self.r0.3, self.r1.3, self.r2.3, self.r3.3),
            }),
    {
        Mat4 {
            r0: Vec4(self.r0.0, self.r1.0, self.r2.0, self.r3.0),
            r1: Vec4(self.r0.1, self.r1.1, self.r2.1, self.r3.1),
            r2: Vec4(self.r0.2, self.r1.2, self.r2.2, self.r3.2),
            r3: Vec4(self.r0.3, self.r1.3, self.r2.3, self.r3.3),
        }
    }



    /// The matrix that moves every point by `offset`: the identity with
    /// the offset as its translation column.
    pub fn translate(offset: Vec3) -> (m: Self)
        ensures
            m == (Mat4 {
                r0: Vec4(1, 0, 0, offset.0),
                r1: Vec4(0, 1, 0, offset.1),
                r2: Vec4(0, 0, 1, offset.2),
                r3: Vec4(0, 0, 0, 1),
            }),
    {
        Mat4 {
            r0: Vec4(1, 0, 0, offset.0),
            r1: Vec4(0, 1, 0, offset.1),
            r2: Vec4(0, 0, 1, offset.2),
            r3: Vec4(0, 0, 0, 1),
        }
    }

    /// The matrix that scales each axis by its factor.
    pub fn scale(factor: Vec3) -> (m: Self)
        ensures
            m == (Mat4 {
                r0: Vec4(factor.0, 0, 0, 0),
                r1: Vec4(0, factor.1, 0, 0),
                r2: Vec4(0, 0, factor.2, 0),
                r3: Vec4(0, 0, 0, 1),
            }),
    {
        Mat4 {
            r0: Vec4(factor.0, 0, 0, 0),
            r1: Vec4(0, factor.1, 0, 0),
            r2: Vec4(0, 0, factor.2, 0),
            r3: Vec4(0, 0, 0, 1),
        }
    }

    /// The matrix product: each entry is the dot of a row and a column.
    pub fn mul(&self, other: &Mat4) -> (m: Self)
        requires
            self.bounded(),
            other.bounded(),
        ensures
            ({
                let t = other.transpose_spec();
                &&& m.r0.0 == self.r0.0 * t.r0.0 + self.r0.1 * t.r0.1 + self.r0.2 * t.r0.2
                    + self.r0.3 * t.r0.3
                &&& m.r0.1 == self.r0.0 * t.r1.0 + self.r0.1 * t.r1.1 + self.r0.2 * t.r1.2
                    + self.r0.3 * t.r1.3
                &&& m.r0.2 == self.r0.0 * t.r2.0 + self.r0.1 * t.r2.1 + self.r0.2 * t.r2.2
                    + self.r0.3 * t.r2.3
                &&& m.r0.3 == self.r0.0 * t.r3.0 + self.r0.1 * t.r3.1 + self.r0.2 * t.r3.2
                    + self.r0.3 * t.r3.3
                &&& m.r1.0 == self.r1.0 * t.r0.0 + self.r1.1 * t.r0.1 + self.r1.2 * t.r0.2
                    + self.r1.3 * t.r0.3
                &&& m.r1.1 == self.r1.0 * t.r1.0 + self.r1.1 * t.r1.1 + self.r1.2 * t.r1.2
                    + self.r1.3 * t.r1.3
                &&& m.r1.2 == self.r1.0 * t.r2.0 + self.r1.1 * t.r2.1 + self.r1.2 * t.r2.2
                    + self.r1.3 * t.r2.3
                &&& m.r1.3 == self.r1.0 * t.r3.0 + self.r1.1 * t.r3.1 + self.r1.2 * t.r3.2
                    + self.r1.3 * t.r3.3
                &&& m.r2.0 == self.r2.0 * t.r0.0 + self.r2.1 * t.r0.1 + self.r2.2 * t.r0.2
                    + self.r2.3 * t.r0.3
                &&& m.r2.1 == self.r2.0 * t.r1.0 + self.r2.1 * t.r1.1 + self.r2.2 * t.r1.2
                    + self.r2.3 * t.r1.3
                &&& m.r2.2 == self.r2.0 * t.r2.0 + self.r2.1 * t.r2.1 + self.r2.2 * t.r2.2
                    + self.r2.3 * t.r2.3
                &&& m.r2.3 == self.r2.0 * t.r3.0 + self.r2.1 * t.r3.1 + self.r2.2 * t.r3.2
                    + self.r2.3 * t.r3.3
                &&& m.r3.0 == self.r3.0 * t.r0.0 + self.r3.1 * t.r0.1 + self.r3.2 * t.r0.2
                    + self.r3.3 * t.r0.3
                &&& m.r3.1 == self.r3.0 * t.r1.0 + self.r3.1 * t.r1.1 + self.r3.2 * t.r1.2
                    + self.r3.3 * t.r1.3
                &&& m.r3.2 == self.r3.0 * t.r2.0 + self.r3.1 * t.r2.1 + self.r3.2 * t.r2.2
                    + self.r3.3 * t.r2.3
                &&& m.r3.3 == self.r3.0 * t.r3.0 + self.r3.1 * t.r3.1 + self.r3.2 * t.r3.2
                    + self.r3.3 * t.r3.3
            }),
    {
        let t = other.transpose();
        Mat4 {
            r0: Vec4(self.r0.dot(t.r0), self.r0.dot(t.r1), self.r0.dot(t.r2), self.r0.dot(t.r3)),
            r1: Vec4(self.r1.dot(t.r0), self.r1.dot(t.r1), self.r1.dot(t.r2), self.r1.dot(t.r3)),
            r2: Vec4(self.r2.dot(t.r0), self.r2.dot(t.r1), self.r2.dot(t.r2), self.r2.dot(t.r3)),
            r3: Vec4(self.r3.dot(t.r0), self.r3.dot(t.r1), self.r3.dot(t.r2), self.r3.dot(t.r3)),
        }
    }

    /// Every entry's magnitude is at most `MAT_LIMIT`.
    pub open spec fn bounded(self) -> bool {
        &&& -MAT_LIMIT <= self.r0.0 <= MAT_LIMIT
        &&& -MAT_LIMIT <= self.r0.1 <= MAT_LIMIT
        &&& -MAT_LIMIT <= self.r0.2 <= MAT_LIMIT
        &&& -MAT_LIMIT <= self.r0.3 <= MAT_LIMIT
        &&& -MAT_LIMIT <= self.r1.0 <= MAT_LIMIT
        &&& -MAT_LIMIT <= self.r1.1 <= MAT_LIMIT
        &&& -MAT_LIMIT <= self.r1.2 <= MAT_LIMIT
        &&& -MAT_LIMIT <= self.r1.3 <= MAT_LIMIT
        &&& -MAT_LIMIT <= self.r2.0 <= MAT_LIMIT
        &&& -MAT_LIMIT <= self.r2.1 <= MAT_LIMIT
        &&& -MAT_LIMIT <= self.r2.2 <= MAT_LIMIT
        &&& -MAT_LIMIT <= self.r2.3 <= MAT_LIMIT
        &&& -MAT_LIMIT <= self.r3.0 <= MAT_LIMIT
        &&& -MAT_LIMIT <= self.r3.1 <= MAT_LIMIT
        &&& -MAT_LIMIT <= self.r3.2 <= MAT_LIMIT
        &&& -MAT_LIMIT <= self.r3.3 <= MAT_LIMIT
    }

    /// The transpose, as a spec value.
    pub open spec fn transpose_spec(self) -> Mat4 {
        Mat4 {
            r0: Vec4(self.r0.0, self.r1.0, self.r2.0, self.r3.0),
            r1: Vec4(self.r0.1, self.r1.1, self.r2.1, self.r3.1),
            r2: Vec4(self.r0.2, self.r1.2, self.r2.2, self.r3.2),
            r3: Vec4(self.r0.3, self.r1.3, self.r2.3, self.r3.3),
        }
    }

    /// Component-wise addition.
    pub fn add(&self, other: &Mat4) -> (m: Self)
        requires
            self.bounded(),
            other.bounded(),
        ensures
            m.r0.0 == self.r0.0 + other.r0.0,
            m.r0.1 == self.r0.1 + other.r0.1,
            m.r0.2 == self.r0.2 + other.r0.2,
            m.r0.3 == self.r0.3 + other.r0.3,
            m.r1.0 == self.r1.0 + other.r1.0,
            m.r1.1 == self.r1.1 + other.r1.1,
            m.r1.2 == self.r1.2 + other.r1.2,
            m.r1.3 == self.r1.3 + other.r1.3,
            m.r2.0 == self.r2.0 + other.r2.0,
            m.r2.1 == self.r2.1 + other.r2.1,
            m.r2.2 == self.r2.2 + other.r2.2,
            m.r2.3 == self.r2.3 + other.r2.3,
            m.r3.0 == self.r3.0 + other.r3.0,
            m.r3.1 == self.r3.1 + other.r3.1,
            m.r3.2 == self.r3.2 + other.r3.2,
            m.r3.3 == self.r3.3 + other.r3.3,
    {
        Mat4 {
            r0: Vec4(
                self.r0.0 + other.r0.0,
                self.r0.1 + other.r0.1,
                self.r0.2 + other.r0.2,
                self.r0.3 + other.r0.3,
            ),
            r1: Vec4(
                self.r1.0 + other.r1.0,
                self.r1.1 + other.r1.1,
                self.r1.2 + other.r1.2,
                self.r1.3 + other.r1.3,
            ),
            r2: Vec4(
                self.r2.0 + other.r2.0,
                self.r2.1 + other.r2.1,
                self.r2.2 + other.r2.2,
                self.r2.3 + other.r2.3,
            ),
            r3: Vec4(
                self.r3.0 + other.r3.0,
                self.r3.1 + other.r3.1,
                self.r3.2 + other.r3.2,
                self.r3.3 + other.r3.3,
            ),
        }
    }

    /// The product with a scalar, entry by entry.
    pub fn mul_scalar(&self, k: i64) -> (m: Self)
        requires
            self.bounded(),
            -MAT_LIMIT <= k <= MAT_LIMIT,
        ensures
            m.r0.0 == self.r0.0 * k,
            m.r0.1 == self.r0.1 * k,
            m.r0.2 == self.r0.2 * k,
            m.r0.3 == self.r0.3 * k,
            m.r1.0 == self.r1.0 * k,
            m.r1.1 == self.r1.1 * k,
            m.r1.2 == self.r1.2 * k,
            m.r1.3 == self.r1.3 * k,
            m.r2.0 == self.r2.0 * k,
            m.r2.1 == self.r2.1 * k,
            m.r2.2 == self.r2.2 * k,
            m.r2.3 == self.r2.3 * k,
            m.r3.0 == self.r3.0 * k,
            m.r3.1 == self.r3.1 * k,
            m.r3.2 == self.r3.2 * k,
            m.r3.3 == self.r3.3 * k,
    {
        proof {
            lemma_mul_le(self.r0.0 as int, k as int, MAT_LIMIT as int, MAT_LIMIT as int);
            lemma_mul_le(self.r0.1 as int, k as int, MAT_LIMIT as int, MAT_LIMIT as int);
            lemma_mul_le(self.r0.2 as int, k as int, MAT_LIMIT as int, MAT_LIMIT as int);
            lemma_mul_le(self.r0.3 as int, k as int, MAT_LIMIT as int, MAT_LIMIT as int);
            lemma_mul_le(self.r1.0 as int, k as int, MAT_LIMIT as int, MAT_LIMIT as int);
            lemma_mul_le(self.r1.1 as int, k as int, MAT_LIMIT as int, MAT_LIMIT as int);
            lemma_mul_le(self.r1.2 as int, k as int, MAT_LIMIT as int, MAT_LIMIT as int);
            lemma_mul_le(self.r1.3 as int, k as int, MAT_LIMIT as int, MAT_LIMIT as int);
            lemma_mul_le(self.r2.0 as int, k as int, MAT_LIMIT as int, MAT_LIMIT as int);
            lemma_mul_le(self.r2.1 as int, k as int, MAT_LIMIT as int, MAT_LIMIT as int);
            lemma_mul_le(self.r2.2 as int, k as int, MAT_LIMIT as int, MAT_LIMIT as int);
            lemma_mul_le(self.r2.3 as int, k as int, MAT_LIMIT as int, MAT_LIMIT as int);
            lemma_mul_le(self.r3.0 as int, k as int, MAT_LIMIT as int, MAT_LIMIT as int);
            lemma_mul_le(self.r3.1 as int, k as int, MAT_LIMIT as int, MAT_LIMIT as int);
            lemma_mul_le(self.r3.2 as int, k as int, MAT_LIMIT as int, MAT_LIMIT as int);
            lemma_mul_le(self.r3.3 as int, k as int, MAT_LIMIT as int, MAT_LIMIT as int);
        }
        Mat4 {
            r0: Vec4(self.r0.0 * k, self.r0.1 * k, self.r0.2 * k, self.r0.3 * k),
            r1: Vec4(self.r1.0 * k, self.r1.1 * k, self.r1.2 * k, self.r1.3 * k),
            r2: Vec4(self.r2.0 * k, self.r2.1 * k, self.r2.2 * k, self.r2.3 * k),
            r3: Vec4(self.r3.0 * k, self.r3.1 * k, self.r3.2 * k, self.r3.3 * k),
        }
    }

    /// The product with a column vector.
    pub fn mul_vec(&self, v: Vec4) -> (r: Vec4)
        requires
            self.r0.bounded(),
            self.r1.bounded(),
            self.r2.bounded(),
            self.r3.bounded(),
            v.bounded(),
        ensures
            r.0 == self.r0.0 * v.0 + self.r0.1 * v.1 + self.r0.2 * v.2 + self.r0.3 * v.3,
            r.1 == self.r1.0 * v.0 + self.r1.1 * v.1 + self.r1.2 * v.2 + self.r1.3 * v.3,
            r.2 == self.r2.0 * v.0 + self.r2.1 * v.1 + self.r2.2 * v.2 + self.r2.3 * v.3,
            r.3 == self.r3.0 * v.0 + self.r3.1 * v.1 + self.r3.2 * v.2 + self.r3.3 * v.3,
    {
        Vec4(self.r0.dot(v), self.r1.dot(v), self.r2.dot(v), self.r3.dot(v))
    }
}

} // verus!
