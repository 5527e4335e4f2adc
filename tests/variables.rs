use libfive::{Error, Evaluator, Tree, TreeVec3, Variables};

fn c(v: f32) -> Tree {
    Tree::from_bits(v.to_bits())
}

#[test]
fn added_variable_is_a_free_variable() {
    let mut vars = Variables::new();
    let r = vars.add("r", 1.0f32.to_bits()).unwrap();
    assert!(r.is_variable());
    assert!(r == Tree::free_variable(0));
    let s = vars.add("s", 2.0f32.to_bits()).unwrap();
    assert!(s == Tree::free_variable(1));
    assert_eq!(vars.len(), 2);
}

#[test]
fn adding_a_name_twice_fails() {
    let mut vars = Variables::default();
    assert!(vars.add("r", 1.0f32.to_bits()).is_ok());
    assert_eq!(vars.add("r", 2.0f32.to_bits()).err(), Some(Error::VariableAlreadyAdded));
    assert_eq!(vars.len(), 1);
}

#[test]
fn setting_an_unknown_name_fails() {
    let mut vars = Variables::new();
    assert_eq!(vars.set("r", 1.0f32.to_bits()), Err(Error::VariableNotFound));
    vars.add("r", 1.0f32.to_bits()).unwrap();
    assert_eq!(vars.set("r", 2.0f32.to_bits()), Ok(()));
    assert_eq!(vars.set("q", 2.0f32.to_bits()), Err(Error::VariableNotFound));
}

#[test]
fn evaluator_follows_set_only_after_update() {
    let mut vars = Variables::new();
    let r = vars.add("r", 1.0f32.to_bits()).unwrap();
    let sphere = Tree::sphere(r, TreeVec3::default());
    let mut eval = Evaluator::new(&sphere, &vars);
    let radius_one = Tree::sphere(c(1.0), TreeVec3::default());
    let radius_two = Tree::sphere(c(2.0), TreeVec3::default());
    assert!(eval.bound_tree() == radius_one);

    vars.set("r", 2.0f32.to_bits()).unwrap();
    // Without update the evaluator keeps the old value.
    assert!(eval.bound_tree() == radius_one);

    assert_eq!(eval.update(&vars), Ok(()));
    assert!(eval.bound_tree() == radius_two);
}

#[test]
fn update_from_a_smaller_set_fails() {
    let mut vars = Variables::new();
    let a = vars.add("a", 1.0f32.to_bits()).unwrap();
    let b = vars.add("b", 2.0f32.to_bits()).unwrap();
    let mut eval = Evaluator::new(&a.add(b), &vars);
    let other = Variables::new();
    assert_eq!(eval.update(&other), Err(Error::VariablesCouldNotBeUpdated));
    assert!(eval.bound_tree() == c(1.0).add(c(2.0)));
}

#[test]
fn binding_leaves_unknown_variables_free() {
    let t = Tree::free_variable(0).add(Tree::free_variable(5));
    let bound = t.bind(&vec![3.0f32.to_bits()]);
    assert!(bound == c(3.0).add(Tree::free_variable(5)));
}
