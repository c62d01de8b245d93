use three_d::{camera2d, Line2D, PhysicalPoint, Viewport};

#[test]
fn camera2d_is_centered_on_the_viewport() {
    let c = camera2d(Viewport { x: 0, y: 0, width: 101, height: 40 });
    assert_eq!((c.position.x2, c.position.y2, c.position.z2), (101, 40, 2));
    assert_eq!((c.target.x2, c.target.y2, c.target.z2), (101, 40, 0));
    assert_eq!((c.up.x2, c.up.y2, c.up.z2), (0, 2, 0));
    assert_eq!(c.height, 40);
    assert_eq!((c.z_near, c.z_far), (0, 10));
}

#[test]
fn viewport_at_origin() {
    assert_eq!(Viewport::new_at_origin(3, 4), Viewport { x: 0, y: 0, width: 3, height: 4 });
}

#[test]
fn line_vertices() {
    let a = PhysicalPoint { x: 1, y: 2 };
    let b = PhysicalPoint { x: -3, y: 7 };
    let line = Line2D::new(a, b, 2);
    assert_eq!(line.start(), a);
    assert_eq!(line.end(), b);
    assert_eq!(line.thickness(), 2);
    assert_eq!(line.vertex_positions(), &vec![b, a, a, a, b, b]);
    assert_eq!(line.vertex_prev_positions(), &vec![(b, 1), (a, 1), (a, -1), (a, -1), (b, -1), (b, 1)]);
    assert_eq!(line.aabb(), (PhysicalPoint { x: -3, y: 2 }, PhysicalPoint { x: 1, y: 7 }));
}
