use vstd::prelude::*;

use crate::matrix::{is_transpose, Matrix};

verus! {

/// A transformation, carried together with its inverse.
#[derive(Clone, Copy, Debug)]
pub struct Transform<T> {
    pub m: Matrix<T>,
    pub m_inv: Matrix<T>,
}

impl<T> Transform<T> where T: Copy {
    /// The transformation whose matrix is the transpose of this one's, and
    /// whose inverse is the transpose of this one's inverse.
    pub fn transpose(&self) -> (r: Transform<T>)
        ensures
            is_transpose(self.m, r.m),
            is_transpose(self.m_inv, r.m_inv),
    {
        Transform { m: self.m.transpose(), m_inv: self.m_inv.transpose() }
    }

    /// The inverse transformation: the two matrices change places.
    pub fn inverse(&self) -> (r: Transform<T>)
        ensures
            r.m == self.m_inv,
            r.m_inv == self.m,
    {
        Transform { m: self.m_inv, m_inv: self.m }
    }
}

/// Inverting a transformation twice gives it back.
pub proof fn lemma_inverse_involution<T>(t: Transform<T>, u: Transform<T>, v: Transform<T>)
    requires
        u.m == t.m_inv,
        u.m_inv == t.m,
        v.m == u.m_inv,
        v.m_inv == u.m,
    ensures
        v == t,
{
}

/// Transposing a transformation and then inverting it gives the same as
/// inverting it and then transposing it.
pub proof fn lemma_transpose_inverse_commute<T>(
    t: Transform<T>,
    transposed: Transform<T>,
    transposed_inverse: Transform<T>,
    inverse: Transform<T>,
    inverse_transposed: Transform<T>,
)
    requires
        is_transpose(t.m, transposed.m),
        is_transpose(t.m_inv, transposed.m_inv),
        transposed_inverse.m == transposed.m_inv,
        transposed_inverse.m_inv == transposed.m,
        inverse.m == t.m_inv,
        inverse.m_inv == t.m,
        is_transpose(inverse.m, inverse_transposed.m),
        is_transpose(inverse.m_inv, inverse_transposed.m_inv),
    ensures
        transposed_inverse == inverse_transposed,
{
    crate::matrix::lemma_transpose_unique(t.m_inv, transposed_inverse.m, inverse_transposed.m);
    crate::matrix::lemma_transpose_unique(t.m, transposed_inverse.m_inv, inverse_transposed.m_inv);
}

} // verus!
