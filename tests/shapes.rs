use libfive::{Tree, TreeVec2, TreeVec3, TriangleMesh};

fn c(v: f32) -> Tree {
    Tree::from_bits(v.to_bits())
}

#[test]
fn exact_rectangle_formula() {
    let r = Tree::rectangle_centered_exact(
        TreeVec2::new(2.0f32.to_bits(), 4.0f32.to_bits()),
        TreeVec2::default(),
    );
    let dx = Tree::x().sub(c(0.0)).abs().sub(c(2.0).div(c(2.0)));
    let dy = Tree::y().sub(c(0.0)).abs().sub(c(4.0).div(c(2.0)));
    let inside = dx.clone().max(dy.clone()).min(c(0.0));
    let outside = dx.max(c(0.0)).square().add(dy.max(c(0.0)).square()).sqrt();
    assert!(r == inside.add(outside));
}

#[test]
fn exact_rectangle_from_corners() {
    let a = || TreeVec2::new((-1.0f32).to_bits(), 0);
    let b = || TreeVec2::new(1.0f32.to_bits(), 2.0f32.to_bits());
    let r = Tree::rectangle_exact(a(), b());
    let size = TreeVec2 { x: c(1.0).sub(c(-1.0)), y: c(2.0).sub(c(0.0)) };
    let center = TreeVec2 { x: c(-1.0).add(c(1.0)).div(c(2.0)), y: c(0.0).add(c(2.0)).div(c(2.0)) };
    assert!(r == Tree::rectangle_centered_exact(size, center));
}

#[test]
fn exact_box_from_corners() {
    let a = TreeVec3::new(0, 0, 0);
    let b = TreeVec3::new(1.0f32.to_bits(), 1.0f32.to_bits(), 1.0f32.to_bits());
    let r = Tree::box_exact(a, b);
    let size = TreeVec3 { x: c(1.0).sub(c(0.0)), y: c(1.0).sub(c(0.0)), z: c(1.0).sub(c(0.0)) };
    let half = || c(0.0).add(c(1.0)).div(c(2.0));
    let center = TreeVec3 { x: half(), y: half(), z: half() };
    assert!(r == Tree::box_exact_centered(size, center));
}

#[test]
fn mitered_centered_box_has_corners_at_half_size() {
    let size = || TreeVec3::new(2.0f32.to_bits(), 2.0f32.to_bits(), 2.0f32.to_bits());
    let r = Tree::box_mitered_centered(size(), TreeVec3::default());
    let lo = || c(0.0).sub(c(2.0).div(c(2.0)));
    let hi = || c(0.0).add(c(2.0).div(c(2.0)));
    let expected = Tree::box_mitered(TreeVec3 { x: lo(), y: lo(), z: lo() }, TreeVec3 { x: hi(), y: hi(), z: hi() });
    assert!(r == expected);
}

#[test]
fn half_space_formula() {
    let h = Tree::half_space(TreeVec3::new(0, 0, 1.0f32.to_bits()), TreeVec3::default());
    let expected = Tree::x()
        .sub(c(0.0))
        .mul(c(0.0))
        .add(Tree::y().sub(c(0.0)).mul(c(0.0)))
        .add(Tree::z().sub(c(0.0)).mul(c(1.0)));
    assert!(h == expected);
}

#[test]
fn tetrahedron_is_closed() {
    let mesh = TriangleMesh {
        positions: vec![[0, 0, 0]; 4],
        triangles: vec![[0, 1, 2], [0, 3, 1], [1, 3, 2], [2, 3, 0]],
    };
    assert!(mesh.is_valid());
    assert!(mesh.is_closed());
}

#[test]
fn open_surface_is_not_closed() {
    let single = TriangleMesh { positions: vec![[0, 0, 0]; 3], triangles: vec![[0, 1, 2]] };
    assert!(!single.is_closed());
    let three_faces = TriangleMesh {
        positions: vec![[0, 0, 0]; 4],
        triangles: vec![[0, 1, 2], [0, 3, 1], [1, 3, 2]],
    };
    assert!(!three_faces.is_closed());
}
