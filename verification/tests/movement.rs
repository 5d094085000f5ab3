use ball_game::arith::isqrt;
use ball_game::input::{exit_game, Keys};
use ball_game::movement::{move_enemy, move_player};
use ball_game::vector::{Bounds, Direction, Position};

fn keys() -> Keys {
    Keys::released()
}

#[test]
fn no_keys_leave_the_player_in_place() {
    let p = Position { x: 123_456, y: -7_890 };
    for dt in [1u64, 16_667, 1_000_000, u64::MAX] {
        assert_eq!(move_player(p, keys().direction(), 500_000, dt), p);
    }
}

#[test]
fn released_keys_ask_for_no_heading() {
    assert_eq!(keys().direction(), Direction { x: 0, y: 0 });
    assert!(!exit_game(keys()));
}

#[test]
fn left_and_right_cancel() {
    let mut k = keys();
    k.left = true;
    k.right = true;
    let p = Position { x: 10_000, y: 20_000 };
    assert_eq!(k.direction(), Direction { x: 0, y: 0 });
    assert_eq!(move_player(p, k.direction(), 500_000, 1_000_000), p);
    k.up = true;
    let r = move_player(p, k.direction(), 500_000, 1_000_000);
    assert_eq!(r, Position { x: 10_000, y: 520_000 });
}

#[test]
fn arrow_and_letter_cancel_too() {
    let mut k = keys();
    k.a = true;
    k.right = true;
    k.w = true;
    k.down = true;
    assert_eq!(k.direction(), Direction { x: 0, y: 0 });
}

#[test]
fn letters_steer_like_arrows() {
    let mut arrows = keys();
    arrows.left = true;
    arrows.up = true;
    let mut letters = keys();
    letters.a = true;
    letters.w = true;
    assert_eq!(arrows.direction(), letters.direction());
    let mut both = keys();
    both.left = true;
    both.a = true;
    assert_eq!(both.direction(), Direction { x: -1_000_000, y: 0 });
}

#[test]
fn straight_headings_are_whole() {
    let mut k = keys();
    k.right = true;
    assert_eq!(k.direction(), Direction { x: 1_000_000, y: 0 });
    let mut k = keys();
    k.s = true;
    assert_eq!(k.direction(), Direction { x: 0, y: -1_000_000 });
}

#[test]
fn diagonal_is_not_faster_than_straight() {
    let mut k = keys();
    k.up = true;
    k.right = true;
    let d = k.direction();
    assert_eq!(d, Direction { x: 707_106, y: 707_106 });
    assert!(d.is_unit());
    let origin = Position { x: 0, y: 0 };
    let diagonal = move_player(origin, d, 500_000, 1_000_000);
    assert_eq!(diagonal, Position { x: 353_553, y: 353_553 });
    let mut k = keys();
    k.right = true;
    let straight = move_player(origin, k.direction(), 500_000, 1_000_000);
    assert_eq!(straight, Position { x: 500_000, y: 0 });
    let travelled = (diagonal.x as i64).pow(2) + (diagonal.y as i64).pow(2);
    assert!(travelled <= (straight.x as i64).pow(2));
    let next = (diagonal.x as i64 + 1).pow(2) + (diagonal.y as i64 + 1).pow(2);
    assert!(next > (straight.x as i64).pow(2));
}

#[test]
fn all_four_diagonals() {
    let mut k = keys();
    k.down = true;
    k.left = true;
    assert_eq!(k.direction(), Direction { x: -707_106, y: -707_106 });
    let mut k = keys();
    k.w = true;
    k.a = true;
    assert_eq!(k.direction(), Direction { x: -707_106, y: 707_106 });
    let mut k = keys();
    k.s = true;
    k.d = true;
    assert_eq!(k.direction(), Direction { x: 707_106, y: -707_106 });
}

#[test]
fn enemy_moves_by_heading_speed_and_time() {
    let p = Position { x: 1_000_000, y: 1_000_000 };
    let d = Direction { x: 600_000, y: -800_000 };
    assert_eq!(move_enemy(p, d, 200_000, 500_000), Position { x: 1_060_000, y: 920_000 });
    assert_eq!(move_enemy(p, d, 200_000, 0), p);
    assert_eq!(move_enemy(p, d, 0, 500_000), p);
}

#[test]
fn travel_rounds_toward_zero() {
    let p = Position { x: 0, y: 0 };
    let d = Direction { x: 707_106, y: -707_106 };
    assert_eq!(move_enemy(p, d, 1, 1_500_000), Position { x: 1, y: -1 });
    assert_eq!(move_enemy(p, d, 1, 1_000_000), Position { x: 0, y: 0 });
}

#[test]
fn travel_stops_at_the_ends_of_the_coordinate_range() {
    let p = Position { x: i32::MAX - 5, y: i32::MIN + 5 };
    let d = Direction { x: 1_000_000, y: -1_000_000 };
    assert_eq!(
        move_enemy(p, d, u32::MAX, u64::MAX),
        Position { x: i32::MAX, y: i32::MIN }
    );
    let wild = Direction { x: i32::MIN, y: i32::MAX };
    assert_eq!(
        move_enemy(Position { x: 0, y: 0 }, wild, u32::MAX, u64::MAX),
        Position { x: i32::MIN, y: i32::MAX }
    );
}

#[test]
fn normalize_gives_exact_components() {
    assert_eq!(Direction::normalize(0, 0), None);
    assert_eq!(Direction::normalize(3, 4), Some(Direction { x: 600_000, y: 800_000 }));
    assert_eq!(Direction::normalize(-3, 4), Some(Direction { x: -600_000, y: 800_000 }));
    assert_eq!(Direction::normalize(0, -9), Some(Direction { x: 0, y: -1_000_000 }));
    assert_eq!(Direction::normalize(1, 1), Some(Direction { x: 707_106, y: 707_106 }));
    assert_eq!(Direction::normalize(1, 2), Some(Direction { x: 447_213, y: 894_427 }));
    assert_eq!(
        Direction::normalize(i32::MIN, i32::MAX),
        Some(Direction { x: -707_106, y: 707_106 })
    );
}

#[test]
fn normalized_headings_have_length_one() {
    let vectors =
        [(1, 0), (5, 7), (-1_000, 3), (16_777_215, 1), (1, 16_777_215), (i32::MAX, i32::MIN)];
    for (x, y) in vectors {
        let d = Direction::normalize(x, y).unwrap();
        assert!(d.is_unit(), "{:?}", d);
    }
}

#[test]
fn is_unit_tells_length_one() {
    assert!(Direction { x: 1_000_000, y: 0 }.is_unit());
    assert!(Direction { x: 0, y: -1_000_000 }.is_unit());
    assert!(Direction { x: 600_000, y: 800_000 }.is_unit());
    assert!(Direction { x: 707_106, y: -707_106 }.is_unit());
    assert!(!Direction { x: 0, y: 0 }.is_unit());
    assert!(!Direction { x: 1_000_000, y: 1 }.is_unit());
    assert!(!Direction { x: 1_000_001, y: 0 }.is_unit());
    assert!(!Direction { x: 707_105, y: 707_105 }.is_unit());
    assert!(!Direction { x: i32::MIN, y: i32::MAX }.is_unit());
}

#[test]
fn integer_square_root_rounds_down() {
    assert_eq!(isqrt(0), 0);
    assert_eq!(isqrt(1), 1);
    assert_eq!(isqrt(3), 1);
    assert_eq!(isqrt(4), 2);
    assert_eq!(isqrt(99), 9);
    assert_eq!(isqrt(1_000_000_000_000), 1_000_000);
    assert_eq!(isqrt(500_000_000_000), 707_106);
    assert_eq!(isqrt(u128::MAX), u64::MAX);
}

#[test]
fn viewport_center_is_its_middle() {
    let b = Bounds { width: 1_280_000, height: 720_000 };
    assert_eq!(b.center(), Position { x: 640_000, y: 360_000 });
    let b = Bounds { width: u32::MAX, height: 1 };
    assert_eq!(b.center(), Position { x: i32::MAX, y: 0 });
}

#[test]
fn escape_asks_for_exit() {
    let mut k = keys();
    k.escape = true;
    assert!(exit_game(k));
    k.escape = false;
    k.left = true;
    assert!(!exit_game(k));
}
