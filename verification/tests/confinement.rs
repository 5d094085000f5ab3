use ball_game::confinement::{confine, reflect};
use ball_game::vector::{Direction, Position};

const W: u32 = 1_280_000;
const H: u32 = 720_000;
const HALF: i32 = 32_000;

#[test]
fn confine_is_the_identity_inside() {
    for p in [
        Position { x: 32_000, y: 32_000 },
        Position { x: 1_248_000, y: 688_000 },
        Position { x: 640_000, y: 360_000 },
        Position { x: 32_000, y: 688_000 },
    ] {
        assert_eq!(confine(p, HALF, W, H), p);
    }
}

#[test]
fn confine_pins_one_axis_and_keeps_the_other() {
    assert_eq!(
        confine(Position { x: 31_999, y: 100_000 }, HALF, W, H),
        Position { x: 32_000, y: 100_000 }
    );
    assert_eq!(
        confine(Position { x: 1_248_001, y: 100_000 }, HALF, W, H),
        Position { x: 1_248_000, y: 100_000 }
    );
    assert_eq!(
        confine(Position { x: 100_000, y: -5 }, HALF, W, H),
        Position { x: 100_000, y: 32_000 }
    );
    assert_eq!(
        confine(Position { x: 100_000, y: 9_000_000 }, HALF, W, H),
        Position { x: 100_000, y: 688_000 }
    );
}

#[test]
fn confine_pins_both_axes_in_a_corner() {
    assert_eq!(
        confine(Position { x: i32::MIN, y: i32::MAX }, HALF, W, H),
        Position { x: 32_000, y: 688_000 }
    );
}

#[test]
fn confine_prefers_the_lower_end_of_an_empty_range() {
    let p = confine(Position { x: 10, y: 50_000 }, HALF, 40_000, 40_000);
    assert_eq!(p, Position { x: 32_000, y: 8_000 });
    let p = confine(Position { x: 0, y: 0 }, 5, 0, 0);
    assert_eq!(p, Position { x: 5, y: 5 });
}

#[test]
fn confine_with_extreme_arguments() {
    let p = confine(Position { x: i32::MAX, y: i32::MIN }, i32::MIN, u32::MAX, 0);
    assert_eq!(p, Position { x: i32::MAX, y: i32::MIN });
    let p = confine(Position { x: i32::MAX, y: i32::MIN }, i32::MAX, 0, u32::MAX);
    assert_eq!(p, Position { x: -i32::MAX, y: i32::MAX });
}

#[test]
fn reflect_flips_x_alone() {
    let d = Direction { x: 600_000, y: 800_000 };
    let (r, changed) = reflect(Position { x: 31_999, y: 100_000 }, d, HALF, W, H);
    assert_eq!(r, Direction { x: -600_000, y: 800_000 });
    assert!(changed);
    let (r, changed) = reflect(Position { x: 1_248_001, y: 100_000 }, d, HALF, W, H);
    assert_eq!(r, Direction { x: -600_000, y: 800_000 });
    assert!(changed);
}

#[test]
fn reflect_flips_y_alone() {
    let d = Direction { x: 600_000, y: 800_000 };
    let (r, changed) = reflect(Position { x: 100_000, y: 0 }, d, HALF, W, H);
    assert_eq!(r, Direction { x: 600_000, y: -800_000 });
    assert!(changed);
    let (r, changed) = reflect(Position { x: 100_000, y: 688_001 }, d, HALF, W, H);
    assert_eq!(r, Direction { x: 600_000, y: -800_000 });
    assert!(changed);
}

#[test]
fn reflect_flips_both() {
    let d = Direction { x: -600_000, y: 800_000 };
    let (r, changed) = reflect(Position { x: -1, y: 700_000 }, d, HALF, W, H);
    assert_eq!(r, Direction { x: 600_000, y: -800_000 });
    assert!(changed);
    assert!(r.is_unit());
}

#[test]
fn reflect_leaves_the_heading_inside() {
    let d = Direction { x: 600_000, y: 800_000 };
    for p in [
        Position { x: 32_000, y: 32_000 },
        Position { x: 1_248_000, y: 688_000 },
        Position { x: 640_000, y: 360_000 },
    ] {
        assert_eq!(reflect(p, d, HALF, W, H), (d, false));
    }
}

#[test]
fn reflect_does_not_move_the_enemy_back() {
    // Outside in two frames in a row, the heading flips twice.
    let d = Direction { x: 1_000_000, y: 0 };
    let p = Position { x: 2_000_000, y: 100_000 };
    let (once, _) = reflect(p, d, HALF, W, H);
    let (twice, changed) = reflect(p, once, HALF, W, H);
    assert_eq!(twice, d);
    assert!(changed);
}

#[test]
fn mirroring_changes_one_sign() {
    let d = Direction { x: 600_000, y: -800_000 };
    assert_eq!(d.flip_x(), Direction { x: -600_000, y: -800_000 });
    assert_eq!(d.flip_y(), Direction { x: 600_000, y: 800_000 });
    assert_eq!(d.flip_x().flip_x(), d);
    assert_eq!(Direction { x: 0, y: 0 }.flip_x().flip_y(), Direction { x: 0, y: 0 });
}

#[test]
fn mirroring_the_least_component_gives_the_greatest() {
    let d = Direction { x: i32::MIN, y: i32::MAX };
    assert_eq!(d.flip_x(), Direction { x: i32::MAX, y: i32::MAX });
    assert_eq!(d.flip_y(), Direction { x: i32::MIN, y: -i32::MAX });
    let (r, changed) = reflect(Position { x: -1, y: -1 }, d, HALF, W, H);
    assert_eq!(r, Direction { x: i32::MAX, y: -i32::MAX });
    assert!(changed);
}
