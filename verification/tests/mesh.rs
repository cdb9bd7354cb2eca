use vivid::mesh::cube_indices;

#[test]
fn cube_has_two_ccw_triangles_per_face() {
    let idx = cube_indices();
    assert_eq!(idx.len(), 36);
    assert_eq!(&idx[0..6], &[0, 1, 2, 0, 2, 3]);
    assert_eq!(&idx[30..36], &[20, 21, 22, 20, 22, 23]);
    assert_eq!(*idx.iter().max().unwrap(), 23);
}
