use libfive::{Tree, TreeVec2, TreeVec3};

fn c(v: f32) -> Tree {
    Tree::from_bits(v.to_bits())
}

fn shifted(t: &Tree, x: Tree, y: Tree, z: Tree) -> Tree {
    t.clone().moveit(TreeVec3 { x, y, z })
}

#[test]
fn array_x_of_three() {
    let s = Tree::circle(c(0.5), TreeVec2::default());
    let a = Tree::array_x(s.clone(), 3, c(2.0));
    let expected = s
        .clone()
        .union(shifted(&s, c(2.0), c(0.0), c(0.0)))
        .union(shifted(&s, c(2.0).add(c(2.0)), c(0.0), c(0.0)));
    assert!(a == expected);
}

#[test]
fn array_of_one_or_none_is_the_shape() {
    let s = Tree::sphere(c(1.0), TreeVec3::default());
    assert!(Tree::array_x(s.clone(), 1, c(2.0)) == s);
    assert!(Tree::array_x(s.clone(), 0, c(2.0)) == s);
}

#[test]
fn array_xy_replicates_rows() {
    let s = Tree::x();
    let grid = Tree::array_xy(s.clone(), 2, 2, TreeVec2::new(1.0f32.to_bits(), 3.0f32.to_bits()));
    let row = s.clone().union(shifted(&s, c(1.0), c(0.0), c(0.0)));
    let expected = row.clone().union(shifted(&row, c(0.0), c(3.0), c(0.0)));
    assert!(grid == expected);
}

#[test]
fn array_xyz_stacks_layers() {
    let s = Tree::y();
    let d = TreeVec3::new(1.0f32.to_bits(), 1.0f32.to_bits(), 5.0f32.to_bits());
    let grid = Tree::array_xyz(s.clone(), 1, 1, 2, d);
    let expected = s.clone().union(shifted(&s, c(0.0), c(0.0), c(5.0)));
    assert!(grid == expected);
}

#[test]
fn extrude_z_formula() {
    let e = Tree::extrude_z(Tree::x(), c(-1.0), c(1.0));
    let expected = Tree::x().max(c(-1.0).sub(Tree::z()).max(Tree::z().sub(c(1.0))));
    assert!(e == expected);
}
