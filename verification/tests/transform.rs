use pt::matrix::Matrix;
use pt::texture::IdentityMapping3D;
use pt::transform::Transform;

fn sample_matrix() -> Matrix<i32> {
    Matrix::new(
        1, 2, 3, 4,
        5, 6, 7, 8,
        9, 10, 11, 12,
        13, 14, 15, 16,
    )
}

#[test]
fn matrix_new_rows() {
    let m = sample_matrix();
    assert_eq!(m.m[0], [1, 2, 3, 4]);
    assert_eq!(m.m[3], [13, 14, 15, 16]);
    assert_eq!(Matrix::from([[1, 2, 3, 4], [5, 6, 7, 8], [9, 10, 11, 12], [13, 14, 15, 16]]), m);
}

#[test]
fn matrix_transpose() {
    let m = sample_matrix();
    let t = m.transpose();
    assert_eq!(t.m[0], [1, 5, 9, 13]);
    assert_eq!(t.m[1], [2, 6, 10, 14]);
    assert_eq!(t.m[2], [3, 7, 11, 15]);
    assert_eq!(t.m[3], [4, 8, 12, 16]);
    assert_eq!(t.transpose(), m);
}

#[test]
fn transform_inverse_and_transpose() {
    let m = sample_matrix();
    let n = Matrix::from([[0, 0, 0, 1], [0, 0, 1, 0], [0, 1, 0, 0], [1, 0, 0, 0]]);
    let t = Transform { m, m_inv: n };
    let i = t.inverse();
    assert_eq!(i.m, n);
    assert_eq!(i.m_inv, m);
    assert_eq!(i.inverse().m, m);
    assert_eq!(i.inverse().m_inv, n);
    let tt = t.transpose();
    assert_eq!(tt.m, m.transpose());
    assert_eq!(tt.m_inv, n.transpose());
    assert_eq!(tt.inverse().m, t.inverse().transpose().m);
}

#[test]
fn identity_mapping_keeps_transform() {
    let m = sample_matrix();
    let t = Transform { m, m_inv: m.transpose() };
    let map = IdentityMapping3D::new(t);
    assert_eq!(map.world_to_texture().m, m);
    assert_eq!(map.world_to_texture().m_inv, m.transpose());
}
