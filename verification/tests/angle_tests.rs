//! Orientation normalization and the piecewise-linear deflections.

use rpong::angle::{cos_mil, normalize_orientation, sin_mil};

#[test]
fn normalize_keeps_canonical_values() {
    assert_eq!(normalize_orientation(0), 0);
    assert_eq!(normalize_orientation(90_000), 90_000);
    assert_eq!(normalize_orientation(-90_000), -90_000);
    assert_eq!(normalize_orientation(179_999), 179_999);
    assert_eq!(normalize_orientation(-179_999), -179_999);
}

#[test]
fn normalize_reduces_modulo_full_turn() {
    assert_eq!(normalize_orientation(360_000), 0);
    assert_eq!(normalize_orientation(-360_000), 0);
    assert_eq!(normalize_orientation(450_000), 90_000);
    assert_eq!(normalize_orientation(-450_000), -90_000);
}

#[test]
fn normalize_steps_by_half_turns() {
    // The half-turn step is the simulation's own quirk: values beyond a half
    // turn fold back near zero, not to the opposite side.
    assert_eq!(normalize_orientation(180_000), 0);
    assert_eq!(normalize_orientation(-180_000), 0);
    assert_eq!(normalize_orientation(-185_000), -5_000);
    assert_eq!(normalize_orientation(200_000), 20_000);
    assert_eq!(normalize_orientation(-200_000), -20_000);
    assert_eq!(normalize_orientation(350_000), 170_000);
    assert_eq!(normalize_orientation(540_000), 0);
}

#[test]
fn normalize_is_idempotent_on_samples() {
    for o in [
        0i64, 1, -1, 45_000, -45_000, 179_999, -179_999, 180_000, -180_000, 350_000, -350_000,
        123_456_789, -987_654_321,
    ] {
        let once = normalize_orientation(o);
        assert_eq!(normalize_orientation(once), once);
        assert!(-180_000 < once && once < 180_000);
    }
}

#[test]
fn deflections_at_cardinal_angles() {
    assert_eq!(cos_mil(0), 1_000);
    assert_eq!(cos_mil(90_000), 0);
    assert_eq!(cos_mil(180_000), -1_000);
    assert_eq!(cos_mil(270_000), 0);
    assert_eq!(cos_mil(-90_000), 0);
    assert_eq!(cos_mil(360_000), 1_000);
    assert_eq!(sin_mil(0), 0);
    assert_eq!(sin_mil(90_000), 1_000);
    assert_eq!(sin_mil(-90_000), -1_000);
    assert_eq!(sin_mil(180_000), 0);
}

#[test]
fn deflections_are_linear_between_cardinals() {
    assert_eq!(cos_mil(45_000), 500);
    assert_eq!(cos_mil(-45_000), 500);
    assert_eq!(cos_mil(135_000), -500);
    assert_eq!(sin_mil(45_000), 500);
    assert_eq!(sin_mil(-45_000), -500);
    assert_eq!(sin_mil(135_000), 500);
}
