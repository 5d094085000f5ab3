use ball_game::collision::{collides, player_vs_enemies, player_vs_stars};
use ball_game::vector::{Direction, Position};
use ball_game::world::{Enemy, Star};

fn at(x: i32, y: i32) -> Position {
    Position { x, y }
}

fn enemy(x: i32, y: i32) -> Enemy {
    Enemy { position: at(x, y), direction: Direction { x: 1_000_000, y: 0 } }
}

fn star(x: i32, y: i32) -> Option<Star> {
    Some(Star { position: at(x, y) })
}

#[test]
fn identical_positions_collide() {
    assert!(collides(at(5, 5), 1, at(5, 5), 1));
    assert!(collides(at(i32::MIN, i32::MAX), 32_000, at(i32::MIN, i32::MAX), 15_000));
    assert!(collides(at(0, 0), 1, at(0, 0), 0));
}

#[test]
fn no_radius_no_collision() {
    assert!(!collides(at(5, 5), 0, at(5, 5), 0));
    assert!(!collides(at(5, 5), -3, at(5, 5), 2));
}

#[test]
fn touching_circles_do_not_collide() {
    assert!(!collides(at(0, 0), 32_000, at(64_000, 0), 32_000));
    assert!(collides(at(0, 0), 32_000, at(63_999, 0), 32_000));
    assert!(!collides(at(0, 0), 2, at(3, 4), 3));
    assert!(collides(at(0, 0), 3, at(3, 4), 3));
}

#[test]
fn far_apart_never_collides() {
    assert!(!collides(at(100_000, 100_000), 32_000, at(1_000_000, 1_000_000), 32_000));
    assert!(!collides(at(i32::MIN, i32::MIN), i32::MAX, at(i32::MAX, i32::MAX), i32::MAX));
    assert!(collides(at(i32::MIN, 0), i32::MAX, at(i32::MAX, 0), i32::MAX) == false);
}

#[test]
fn collision_is_symmetric() {
    let a = at(10, 20);
    let b = at(13, 24);
    assert_eq!(collides(a, 2, b, 4), collides(b, 4, a, 2));
    assert_eq!(collides(a, 2, b, 3), collides(b, 3, a, 2));
}

#[test]
fn first_enemy_in_store_order_wins() {
    let player = at(100_000, 100_000);
    let enemies = vec![
        enemy(500_000, 500_000),
        enemy(150_000, 100_000),
        enemy(100_000, 100_000),
    ];
    assert_eq!(player_vs_enemies(player, &enemies), Some(1));
    let enemies = vec![enemy(500_000, 500_000), enemy(164_000, 100_000)];
    assert_eq!(player_vs_enemies(player, &enemies), None);
    assert_eq!(player_vs_enemies(player, &Vec::new()), None);
}

#[test]
fn every_star_in_reach_is_found() {
    let player = at(100_000, 100_000);
    let stars = vec![
        star(100_000, 100_000),
        star(500_000, 500_000),
        None,
        star(146_999, 100_000),
        star(147_000, 100_000),
        star(100_000, 60_000),
    ];
    assert_eq!(player_vs_stars(player, &stars), vec![0, 3, 5]);
    assert_eq!(player_vs_stars(at(-900_000, 0), &stars), Vec::<usize>::new());
    assert_eq!(player_vs_stars(player, &Vec::new()), Vec::<usize>::new());
}
