use libfive::{Tree, TreeVec2, TreeVec3};

fn c(v: f32) -> Tree {
    Tree::from_bits(v.to_bits())
}

#[test]
fn union_is_min_intersection_is_max() {
    assert!(Tree::x().union(Tree::y()) == Tree::x().min(Tree::y()));
    assert!(Tree::x().intersection(Tree::y()) == Tree::x().max(Tree::y()));
    assert!(Tree::x().inverse() == Tree::x().neg());
    assert!(Tree::x().difference(Tree::y()) == Tree::x().max(Tree::y().neg()));
}

#[test]
fn union_with_itself_is_min_of_the_same_node() {
    let a = Tree::sphere(c(1.0), TreeVec3::default());
    let u = a.clone().union(a.clone());
    assert!(u == a.clone().min(a.clone()));
    assert!(u != a);
}

#[test]
fn emptiness_is_positive_infinity() {
    assert_eq!(Tree::emptiness().as_f32(), Ok(f32::INFINITY.to_bits()));
}

#[test]
fn union_multi_of_nothing_is_emptiness() {
    assert!(Tree::x().union_multi(vec![]) == Tree::emptiness());
    assert!(Tree::x().intersection_multi(vec![]) == Tree::emptiness());
}

#[test]
fn union_multi_folds_from_the_left() {
    let u = Tree::x().union_multi(vec![Tree::y(), Tree::z()]);
    assert!(u == Tree::x().union(Tree::y()).union(Tree::z()));
    let i = Tree::x().intersection_multi(vec![Tree::y(), Tree::z()]);
    assert!(i == Tree::x().intersection(Tree::y()).intersection(Tree::z()));
}

#[test]
fn difference_multi_of_nothing_is_the_shape() {
    let a = Tree::sphere(c(1.0), TreeVec3::default());
    assert!(a.clone().difference_multi(vec![]) == a);
}

#[test]
fn difference_multi_removes_the_union() {
    let d = Tree::x().difference_multi(vec![Tree::y(), Tree::z(), c(1.0)]);
    let expected = Tree::x().intersection(Tree::y().union(Tree::z()).union(c(1.0)).inverse());
    assert!(d == expected);
}

#[test]
fn csg_shell_scenario_builds() {
    let shell = Tree::sphere(c(1.0), TreeVec3::default()).difference(Tree::sphere(c(0.6), TreeVec3::default()));
    let loaded = Tree::load(&shell.save()).unwrap();
    assert!(loaded == shell);
}

#[test]
fn unit_circle_field_builds() {
    let circle = Tree::x().square().add(Tree::y().square()).sub(c(1.0));
    let expected = Tree::circle(c(1.0), TreeVec2::default());
    // The two fields describe the same disc in different forms.
    assert!(circle != expected);
    assert!(Tree::load(&circle.save()).unwrap() == circle);
}

#[test]
fn sphere_formula() {
    let s = Tree::sphere(c(2.0), TreeVec3::new(1.0f32.to_bits(), 0, 0));
    let d = Tree::x().square().add(Tree::y().square()).add(Tree::z().square()).sqrt().sub(c(2.0));
    let expected = d.remap(&Tree::x().sub(c(1.0)), &Tree::y().sub(c(0.0)), &Tree::z().sub(c(0.0)));
    assert!(s == expected);
}

#[test]
fn circle_and_ring_formulas() {
    let circle = Tree::circle(c(1.0), TreeVec2::default());
    let r = Tree::x().square().add(Tree::y().square()).sqrt().sub(c(1.0));
    let expected = r.remap(&Tree::x().sub(c(0.0)), &Tree::y().sub(c(0.0)), &Tree::z().sub(c(0.0)));
    assert!(circle == expected);
    let ring = Tree::ring(c(2.0), c(1.0), TreeVec2::default());
    assert!(ring == Tree::circle(c(2.0), TreeVec2::default()).difference(circle));
}

#[test]
fn rectangle_and_box_formulas() {
    let a = TreeVec2::new(0, 0);
    let b = TreeVec2::new(1.0f32.to_bits(), 2.0f32.to_bits());
    let rect = Tree::rectangle(a, b);
    let expected = c(0.0)
        .sub(Tree::x())
        .max(Tree::x().sub(c(1.0)))
        .max(c(0.0).sub(Tree::y()).max(Tree::y().sub(c(2.0))));
    assert!(rect == expected);
    let boxed = Tree::box_mitered(TreeVec3::new(0, 0, 0), TreeVec3::new(1.0f32.to_bits(), 2.0f32.to_bits(), 3.0f32.to_bits()));
    let slab = c(0.0).sub(Tree::z()).max(Tree::z().sub(c(3.0)));
    assert!(boxed == rect.intersection(slab));
}

#[test]
fn cylinder_is_extruded_circle() {
    let base = TreeVec3::new(0, 0, (-1.0f32).to_bits());
    let cyl = Tree::cylinder_z(c(0.6), c(2.0), base);
    let disc = Tree::circle(c(0.6), TreeVec2::default());
    let expected = Tree::extrude_z(disc, c(-1.0), c(-1.0).add(c(2.0)));
    assert!(cyl == expected);
}

#[test]
fn torus_formula() {
    let t = Tree::torus_z(c(2.0), c(0.5), TreeVec3::default());
    let rxy = Tree::x().square().add(Tree::y().square()).sqrt();
    let f = c(2.0).sub(rxy).square().add(Tree::z().square()).sqrt().sub(c(0.5));
    let expected = f.remap(&Tree::x().sub(c(0.0)), &Tree::y().sub(c(0.0)), &Tree::z().sub(c(0.0)));
    assert!(t == expected);
}
