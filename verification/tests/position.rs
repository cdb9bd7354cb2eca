use glam::Vec3;
use vivid::Position;

#[test]
fn at_sets_both_fields() {
    let p = Position::at(Vec3::new(1.0, 2.0, 3.0));
    assert_eq!(p.prev, Vec3::new(1.0, 2.0, 3.0));
    assert_eq!(p.curr, Vec3::new(1.0, 2.0, 3.0));
}

#[test]
fn teleport_moves_without_interpolating() {
    let mut p = Position::at(Vec3::ZERO);
    p.curr = Vec3::new(5.0, 0.0, 0.0);
    p.teleport(Vec3::new(-1.0, 4.0, 0.5));
    assert_eq!(p.prev, p.curr);
    assert_eq!(p.curr, Vec3::new(-1.0, 4.0, 0.5));
}
