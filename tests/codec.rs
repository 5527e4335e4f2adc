use libfive::{Error, Tree, TreeVec3};

fn c(v: f32) -> Tree {
    Tree::from_bits(v.to_bits())
}

#[test]
fn save_then_load_gives_the_same_tree() {
    let shape = Tree::sphere(c(1.0), TreeVec3::default())
        .difference_multi(vec![
            Tree::sphere(c(0.6), TreeVec3::default()),
            Tree::cylinder_z(c(0.6), c(2.0), TreeVec3::new(0, 0, (-1.0f32).to_bits())),
            Tree::cylinder_z(c(0.6), c(2.0), TreeVec3::new(0, 0, (-1.0f32).to_bits())).reflect_xz(),
        ]);
    let bytes = shape.save();
    let loaded = Tree::load(&bytes).unwrap();
    assert!(loaded == shape);
    assert_eq!(loaded.save(), bytes);
}

#[test]
fn encoding_of_a_single_axis() {
    let bytes = Tree::y().save();
    let mut expected = vec![0x66, 0x72, 0x65, 0x70, 1, 0];
    expected.extend_from_slice(&1u64.to_le_bytes());
    expected.push(3);
    expected.extend_from_slice(&[0u8; 16]);
    expected.extend_from_slice(&0u64.to_le_bytes());
    assert_eq!(bytes, expected);
}

#[test]
fn encoding_of_a_constant_and_a_variable() {
    let bytes = c(1.0).add(Tree::free_variable(7)).save();
    assert_eq!(bytes.len(), 14 + 3 * 17 + 8);
    assert_eq!(bytes[14], 1);
    assert_eq!(&bytes[15..23], &(1.0f32.to_bits() as u64).to_le_bytes());
    assert_eq!(bytes[31], 5);
    assert_eq!(&bytes[32..40], &7u64.to_le_bytes());
    assert_eq!(bytes[48], 17);
    assert_eq!(&bytes[49..57], &0u64.to_le_bytes());
    assert_eq!(&bytes[57..65], &1u64.to_le_bytes());
    assert_eq!(&bytes[65..73], &2u64.to_le_bytes());
}

#[test]
fn truncated_input_is_refused() {
    let bytes = Tree::x().add(Tree::y()).save();
    assert_eq!(Tree::load(&bytes[..bytes.len() - 1].to_vec()).err(), Some(Error::FileReadFailed));
    assert_eq!(Tree::load(&vec![]).err(), Some(Error::FileReadFailed));
}

#[test]
fn packed_mode_is_refused() {
    let mut bytes = Tree::x().save();
    bytes[5] = 1;
    assert_eq!(Tree::load(&bytes).err(), Some(Error::FileReadFailed));
}

#[test]
fn wrong_version_is_refused() {
    let mut bytes = Tree::x().save();
    bytes[4] = 2;
    assert_eq!(Tree::load(&bytes).err(), Some(Error::FileReadFailed));
}

#[test]
fn forward_reference_is_refused() {
    let mut bytes = Tree::x().neg().save();
    // The second record (the negation) refers to record 0; point it at itself.
    bytes[14 + 17 + 1] = 1;
    assert_eq!(Tree::load(&bytes).err(), Some(Error::FileReadFailed));
}

#[test]
fn root_out_of_range_is_refused() {
    let mut bytes = Tree::x().save();
    let at = bytes.len() - 8;
    bytes[at] = 1;
    assert_eq!(Tree::load(&bytes).err(), Some(Error::FileReadFailed));
}

#[test]
fn unknown_tag_is_refused() {
    let mut bytes = Tree::x().save();
    bytes[14] = 40;
    assert_eq!(Tree::load(&bytes).err(), Some(Error::FileReadFailed));
    bytes[14] = 32;
    assert_eq!(Tree::load(&bytes).err(), Some(Error::FileReadFailed));
}

#[test]
fn duplicate_records_are_merged_on_load() {
    // Two records for x, and their sum.
    let mut bytes = vec![0x66, 0x72, 0x65, 0x70, 1, 0];
    bytes.extend_from_slice(&3u64.to_le_bytes());
    for _ in 0..2 {
        bytes.push(2);
        bytes.extend_from_slice(&[0u8; 16]);
    }
    bytes.push(17);
    bytes.extend_from_slice(&0u64.to_le_bytes());
    bytes.extend_from_slice(&1u64.to_le_bytes());
    bytes.extend_from_slice(&2u64.to_le_bytes());
    let t = Tree::load(&bytes).unwrap();
    assert!(t == Tree::x().add(Tree::x()));
    assert_eq!(t.save().len(), 14 + 2 * 17 + 8);
}
