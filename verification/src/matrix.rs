use vstd::prelude::*;

verus! {

/// A 4x4 matrix, stored row by row.
#[derive(Default, Clone, Copy, Debug, PartialEq)]
pub struct Matrix<T> {
    pub m: [[T; 4]; 4],
}

/// Row `i`, column `j` of a matrix.
pub open spec fn entry<T>(a: Matrix<T>, i: int, j: int) -> T {
    a.m[i][j]
}

/// `b` is the transpose of `a`: each entry mirrored across the diagonal.
pub open spec fn is_transpose<T>(a: Matrix<T>, b: Matrix<T>) -> bool {
    forall|i: int, j: int| 0 <= i < 4 && 0 <= j < 4 ==> #[trigger] entry(b, i, j) == entry(a, j, i)
}

/// `a` and `b` hold the same entries.
pub open spec fn same_entries<T>(a: Matrix<T>, b: Matrix<T>) -> bool {
    forall|i: int, j: int| 0 <= i < 4 && 0 <= j < 4 ==> #[trigger] entry(b, i, j) == entry(a, i, j)
}

impl<T> From<[[T; 4]; 4]> for Matrix<T> {
    fn from(m: [[T; 4]; 4]) -> (r: Matrix<T>) {
        Matrix { m }
    }
}

impl<T> vstd::std_specs::convert::FromSpecImpl<[[T; 4]; 4]> for Matrix<T> {
    open spec fn obeys_from_spec() -> bool {
        true
    }

    open spec fn from_spec(m: [[T; 4]; 4]) -> Matrix<T> {
        Matrix { m }
    }
}

impl<T> Matrix<T> where T: Copy {
    /// The matrix with the given entries, row by row.
    pub fn new(
        m00: T, m01: T, m02: T, m03: T,
        m10: T, m11: T, m12: T, m13: T,
        m20: T, m21: T, m22: T, m23: T,
        m30: T, m31: T, m32: T, m33: T,
    ) -> (r: Matrix<T>)
        ensures
            r.m[0]@ == seq![m00, m01, m02, m03],
            r.m[1]@ == seq![m10, m11, m12, m13],
            r.m[2]@ == seq![m20, m21, m22, m23],
            r.m[3]@ == seq![m30, m31, m32, m33],
    {
        let r = Matrix {
            m: [[m00, m01, m02, m03], [m10, m11, m12, m13], [m20, m21, m22, m23], [m30, m31, m32, m33]],
        };
        assert(r.m[0]@ =~= seq![m00, m01, m02, m03]);
        assert(r.m[1]@ =~= seq![m10, m11, m12, m13]);
        assert(r.m[2]@ =~= seq![m20, m21, m22, m23]);
        assert(r.m[3]@ =~= seq![m30, m31, m32, m33]);
        r
    }

    /// The transpose.
    pub fn transpose(&self) -> (r: Matrix<T>)
        ensures
            is_transpose(*self, r),
    {
        let m = &self.m;
        Matrix::new(
            m[0][0], m[1][0], m[2][0], m[3][0],
            m[0][1], m[1][1], m[2][1], m[3][1],
            m[0][2], m[1][2], m[2][2], m[3][2],
            m[0][3], m[1][3], m[2][3], m[3][3],
        )
    }
}

/// Two matrices with the same entries are the same matrix.
pub proof fn lemma_same_entries_equal<T>(a: Matrix<T>, b: Matrix<T>)
    requires
        same_entries(a, b),
    ensures
        a == b,
{
    broadcast use vstd::array::group_array_axioms;
    assert forall|i: int| 0 <= i < 4 implies a.m[i] == b.m[i] by {
        assert forall|j: int| 0 <= j < 4 implies a.m[i][j] == b.m[i][j] by {
            assert(entry(b, i, j) == entry(a, i, j));
        }
        assert(a.m[i] =~= b.m[i]);
    }
    assert(a.m =~= b.m);
}

/// Transposing twice gives back the matrix.
pub proof fn lemma_transpose_involution<T>(a: Matrix<T>, b: Matrix<T>, c: Matrix<T>)
    requires
        is_transpose(a, b),
        is_transpose(b, c),
    ensures
        c == a,
{
    assert forall|i: int, j: int| 0 <= i < 4 && 0 <= j < 4 implies #[trigger] entry(c, i, j) == entry(a, i, j) by {
        assert(entry(c, i, j) == entry(b, j, i));
    }
    lemma_same_entries_equal(a, c);
}

/// A matrix has exactly one transpose.
pub proof fn lemma_transpose_unique<T>(a: Matrix<T>, b: Matrix<T>, c: Matrix<T>)
    requires
        is_transpose(a, b),
        is_transpose(a, c),
    ensures
        b == c,
{
    assert forall|i: int, j: int| 0 <= i < 4 && 0 <= j < 4 implies #[trigger] entry(c, i, j) == entry(b, i, j) by {
        assert(entry(c, i, j) == entry(a, j, i));
        assert(entry(b, i, j) == entry(a, j, i));
    }
    lemma_same_entries_equal(b, c);
}

} // verus!
