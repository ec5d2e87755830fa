use perspective_grid::limbs::{is_above_limbs, Limb, PixelPosition};

fn p(x: i32, y: i32) -> PixelPosition {
    PixelPosition { x, y }
}

fn limb(points: &[(i32, i32)]) -> Limb {
    Limb { pixel_polygon: points.iter().map(|&(x, y)| p(x, y)).collect() }
}

#[test]
fn no_limbs_leave_everything_free() {
    assert!(is_above_limbs(p(10, 10), &[]));
}

#[test]
fn flat_limb() {
    let limbs = [limb(&[(0, 100), (100, 100)])];
    assert!(is_above_limbs(p(50, 50), &limbs));
    assert!(!is_above_limbs(p(50, 150), &limbs));
    assert!(!is_above_limbs(p(50, 100), &limbs));
    assert!(is_above_limbs(p(150, 150), &limbs));
}

#[test]
fn sloped_limb() {
    let limbs = [limb(&[(0, 0), (100, 100)])];
    assert!(is_above_limbs(p(50, 40), &limbs));
    assert!(!is_above_limbs(p(50, 60), &limbs));
}

#[test]
fn vertical_edge_uses_its_higher_end() {
    let limbs = [limb(&[(50, 10), (50, 90), (100, 90)])];
    assert!(is_above_limbs(p(50, 5), &limbs));
    assert!(!is_above_limbs(p(50, 20), &limbs));
    assert!(is_above_limbs(p(70, 50), &limbs));
}

#[test]
fn every_limb_must_be_below() {
    let limbs = [limb(&[(0, 100), (100, 100)]), limb(&[(0, 30), (100, 30)])];
    assert!(is_above_limbs(p(50, 20), &limbs));
    assert!(!is_above_limbs(p(50, 50), &limbs));
}
