use libfive::{Error, Op, Tree, TreeVec2, TreeVec3};

fn c(v: f32) -> Tree {
    Tree::from_bits(v.to_bits())
}

#[test]
fn same_expression_built_twice_is_equal() {
    let a = Tree::x().square().add(Tree::y().square()).sub(c(1.0));
    let b = Tree::x().square().add(Tree::y().square()).sub(c(1.0));
    assert!(a == b);
    assert!(b == a);
    assert!(a == a.clone());
}

#[test]
fn different_expressions_are_not_equal() {
    let a = Tree::x().add(Tree::y());
    let b = Tree::y().add(Tree::x());
    assert!(a != b);
    assert!(c(1.0) != c(2.0));
    assert!(c(0.0) != c(-0.0));
}

#[test]
fn shared_subexpressions_collapse() {
    let s = Tree::x().square();
    let t = s.clone().add(s.clone());
    let u = Tree::x().square().add(Tree::x().square());
    assert!(t == u);
    let bytes = t.save();
    // x, x^2 and the sum: three nodes.
    assert_eq!(bytes.len(), 14 + 3 * 17 + 8);
}

#[test]
fn constant_value_is_returned() {
    assert_eq!(c(1.5).as_f32(), Ok(1.5f32.to_bits()));
    assert_eq!(f32::from_bits(c(-3.25).as_f32().unwrap()), -3.25);
}

#[test]
fn non_constant_is_refused() {
    assert_eq!(Tree::x().as_f32(), Err(Error::TreeIsNotConstant));
    assert_eq!(c(1.0).add(c(2.0)).as_f32(), Err(Error::TreeIsNotConstant));
}

#[test]
fn free_variable_is_a_variable() {
    assert!(Tree::free_variable(0).is_variable());
    assert!(!Tree::x().is_variable());
    assert!(!c(1.0).is_variable());
    assert!(!Tree::free_variable(1).neg().is_variable());
}

#[test]
fn unary_family_matches_named_operators() {
    assert!(Tree::x().unary(Op::Sqrt) == Tree::x().sqrt());
    assert!(Tree::x().unary(Op::Neg) == Tree::x().neg());
    assert!(Tree::x().sin() != Tree::x().cos());
}

#[test]
fn binary_family_matches_named_operators() {
    assert!(Tree::x().binary(Op::Atan2, Tree::y()) == Tree::x().atan2(Tree::y()));
    assert!(Tree::x().binary(Op::Mod, Tree::y()) == Tree::x().rem(Tree::y()));
    assert!(Tree::x().pow(Tree::y()) != Tree::x().nth_root(Tree::y()));
}

#[test]
fn remap_substitutes_axes() {
    let t = Tree::x().add(Tree::y().mul(Tree::z()));
    let r = t.remap(&Tree::y(), &Tree::z(), &Tree::x());
    assert!(r == Tree::y().add(Tree::z().mul(Tree::x())));
}

#[test]
fn reflect_xy_twice_gives_back_the_shape() {
    let t = Tree::sphere(c(1.0), TreeVec3::new(1.0f32.to_bits(), 0, 0));
    let back = t.clone().reflect_xy().reflect_xy();
    assert!(back == t);
    assert!(t.clone().reflect_xy() != t);
}

#[test]
fn moveit_substitutes_shifted_axes() {
    let t = Tree::x().square();
    let moved = t.moveit(TreeVec3::new(2.0f32.to_bits(), 0, 0));
    let expected = Tree::x().sub(c(2.0)).square();
    assert!(moved == expected);
}

#[test]
fn scale_x_formula() {
    let t = Tree::x();
    let s = t.scale_x(c(2.0), c(1.0));
    let expected = c(1.0).add(Tree::x().sub(c(1.0)).div(c(2.0)));
    assert!(s == expected);
}

#[test]
fn reflect_x_formula() {
    let r = Tree::x().reflect_x(c(3.0));
    let expected = c(2.0).mul(c(3.0)).sub(Tree::x());
    assert!(r == expected);
}

#[test]
fn symmetric_x_uses_abs() {
    assert!(Tree::x().add(Tree::y()).symmetric_x() == Tree::x().abs().add(Tree::y()));
}

#[test]
fn rotate_z_formula() {
    let a = c(0.5);
    let r = Tree::x().rotate_z(a.clone(), TreeVec3::default());
    let zero = || c(0.0);
    // Moved to the centre (x - -0), rotated, and moved back (each axis a - 0).
    let turned = a.cos().mul(Tree::x().sub(zero())).add(a.sin().mul(Tree::y().sub(zero())));
    let expected = turned.sub(zero().neg());
    assert!(r == expected);
}

#[test]
fn taper_x_y_formula() {
    let base = TreeVec2::new(1.0f32.to_bits(), 0);
    let t = Tree::x().taper_x_y(base, c(2.0), c(0.5), c(1.0));
    let s = c(2.0).div(c(0.5).mul(Tree::y()).add(c(1.0).mul(c(2.0).sub(Tree::y()))));
    let back = TreeVec3 { x: c(1.0).neg(), y: c(0.0).neg(), z: c(0.0) };
    let forth = TreeVec3 { x: c(1.0), y: c(0.0), z: c(0.0) };
    let expected = Tree::x().moveit(back).remap(&Tree::x().mul(s), &Tree::y(), &Tree::z()).moveit(forth);
    assert!(t == expected);
}

#[test]
fn taper_xy_z_formula() {
    let t = Tree::x().add(Tree::y()).taper_xy_z(TreeVec3::default(), c(1.0), c(0.5), c(1.0));
    let s = c(1.0).div(c(0.5).mul(Tree::z().sub(c(0.0))).add(c(1.0).mul(c(0.0).add(c(1.0)).sub(Tree::z()))));
    let x = c(0.0).add(Tree::x().sub(c(0.0)).mul(s.clone()));
    let y = c(0.0).add(Tree::y().sub(c(0.0)).mul(s));
    assert!(t == x.add(y));
}

#[test]
fn shear_x_y_formula() {
    let t = Tree::x().shear_x_y(TreeVec2::default(), c(2.0), c(1.0), c(0.0));
    let f = Tree::y().sub(c(0.0)).div(c(2.0));
    let expected = Tree::x().sub(c(0.0).mul(c(1.0).sub(f.clone()))).sub(c(1.0).mul(f));
    assert!(t == expected);
}

#[test]
fn operator_codes_round_trip() {
    for code in 0u8..=40 {
        match Op::from_code(code) {
            Some(op) => {
                assert!((1..=32).contains(&code));
                assert_eq!(op.code(), code);
            }
            None => assert!(code == 0 || code > 32),
        }
    }
    assert_eq!(Op::Add.arity(), 2);
    assert_eq!(Op::Sqrt.arity(), 1);
    assert_eq!(Op::VarX.arity(), 0);
}
