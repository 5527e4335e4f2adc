use libfive::scalar::f32_le;
use libfive::{BRepAlgorithm, BRepSettings, Bitmap, FlatTriangleMesh, Region2, Region3, TriangleMesh};

fn b(v: f32) -> u32 {
    v.to_bits()
}

#[test]
fn float_order_on_bit_patterns() {
    assert!(f32_le(b(-2.0), b(2.0)));
    assert!(f32_le(b(-2.0), b(-1.0)));
    assert!(!f32_le(b(-1.0), b(-2.0)));
    assert!(f32_le(b(1.0), b(1.5)));
    assert!(f32_le(b(0.0), b(-0.0)));
    assert!(f32_le(b(-0.0), b(0.0)));
    assert!(!f32_le(b(f32::NAN), b(1.0)));
    assert!(f32_le(b(f32::NEG_INFINITY), b(f32::INFINITY)));
}

#[test]
fn regions_are_checked() {
    assert!(Region2::new(b(-2.0), b(2.0), b(-2.0), b(2.0)).is_valid());
    assert!(!Region2::new(b(2.0), b(-2.0), b(-2.0), b(2.0)).is_valid());
    assert!(Region3::new(b(-2.0), b(2.0), b(-2.0), b(2.0), b(-2.0), b(2.0)).is_valid());
    assert!(!Region3::new(b(-2.0), b(2.0), b(-2.0), b(2.0), b(f32::NAN), b(2.0)).is_valid());
    assert!(Region3::new(b(1.0), b(1.0), b(0.0), b(0.0), b(-1.0), b(-1.0)).is_valid());
}

#[test]
fn default_settings() {
    let s = BRepSettings::default();
    assert_eq!(f32::from_bits(s.resolution), 10.0);
    assert_eq!(f32::from_bits(s.quality), 8.0);
    assert_eq!(s.workers, 0);
    assert_eq!(s.algorithm, BRepAlgorithm::DualContouring);
}

#[test]
fn algorithm_codes() {
    assert_eq!(BRepAlgorithm::from_code(1), BRepAlgorithm::IsoSimplex);
    assert_eq!(BRepAlgorithm::from_code(2), BRepAlgorithm::Hybrid);
    assert_eq!(BRepAlgorithm::from_code(9), BRepAlgorithm::DualContouring);
    assert_eq!(BRepAlgorithm::Hybrid.code(), 2);
}

#[test]
fn bitmap_is_row_major() {
    // 3 wide, 2 high: only (2, 0) and (0, 1) are set.
    let pixels = vec![false, false, true, true, false, false];
    let bm = Bitmap::from_pixels(3, 2, pixels).unwrap();
    assert_eq!(bm.width(), 3);
    assert_eq!(bm.height(), 2);
    assert!(bm.pixel(2, 0));
    assert!(bm.pixel(0, 1));
    assert!(!bm.pixel(1, 1));
    assert_eq!(bm.as_slice().len(), 6);
}

#[test]
fn bitmap_of_wrong_size_is_refused() {
    assert!(Bitmap::from_pixels(2, 2, vec![true; 3]).is_none());
    assert!(Bitmap::from_pixels(0, 5, vec![]).is_some());
}

#[test]
fn mesh_indices_are_checked() {
    let ok = TriangleMesh { positions: vec![[0, 0, 0]; 3], triangles: vec![[0, 1, 2]] };
    assert!(ok.is_valid());
    let bad = TriangleMesh { positions: vec![[0, 0, 0]; 3], triangles: vec![[0, 1, 3]] };
    assert!(!bad.is_valid());
}

#[test]
fn flat_mesh_keeps_the_order() {
    let mesh = TriangleMesh {
        positions: vec![[1, 2, 3], [4, 5, 6], [7, 8, 9]],
        triangles: vec![[0, 1, 2], [2, 1, 0]],
    };
    let flat = FlatTriangleMesh::from(mesh);
    assert_eq!(flat.positions, vec![1, 2, 3, 4, 5, 6, 7, 8, 9]);
    assert_eq!(flat.triangles, vec![0, 1, 2, 2, 1, 0]);
}
