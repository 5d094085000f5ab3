use ball_game::events::Cue;
use ball_game::random::{
    bounce_cue, direction_from_words, position_from_words, random_bounce_cue, random_direction,
    random_position, sample,
};
use ball_game::vector::{Bounds, Direction, Position};

const VIEW: Bounds = Bounds { width: 1_280_000, height: 720_000 };

#[test]
fn sample_is_the_upper_24_bits() {
    assert_eq!(sample(0), 0);
    assert_eq!(sample(255), 0);
    assert_eq!(sample(256), 1);
    assert_eq!(sample(0x8000_0000), 0x80_0000);
    assert_eq!(sample(u32::MAX), 0xff_ffff);
}

#[test]
fn spawn_position_scales_the_sample() {
    assert_eq!(position_from_words(VIEW, 0, 0), Position { x: 0, y: 0 });
    assert_eq!(
        position_from_words(VIEW, 0x8000_0000, 0x4000_0000),
        Position { x: 640_000, y: 180_000 }
    );
    assert_eq!(
        position_from_words(VIEW, u32::MAX, u32::MAX),
        Position { x: 1_279_999, y: 719_999 }
    );
}

#[test]
fn spawn_position_in_an_empty_or_huge_viewport() {
    let none = Bounds { width: 0, height: 0 };
    assert_eq!(position_from_words(none, u32::MAX, 12_345), Position { x: 0, y: 0 });
    let huge = Bounds { width: u32::MAX, height: u32::MAX };
    assert_eq!(
        position_from_words(huge, u32::MAX, 0x8000_0000),
        Position { x: i32::MAX, y: i32::MAX }
    );
    assert_eq!(
        position_from_words(huge, 0x4000_0000, 0),
        Position { x: 1_073_741_823, y: 0 }
    );
}

#[test]
fn random_positions_lie_in_the_viewport() {
    let mut seen = Vec::new();
    for _ in 0..200 {
        let p = random_position(VIEW);
        assert!(0 <= p.x && (p.x as u32) < VIEW.width, "{:?}", p);
        assert!(0 <= p.y && (p.y as u32) < VIEW.height, "{:?}", p);
        if !seen.contains(&p) {
            seen.push(p);
        }
    }
    assert!(seen.len() > 1);
}

#[test]
fn heading_of_a_new_enemy() {
    assert_eq!(direction_from_words(0, 0), Direction { x: 1_000_000, y: 0 });
    assert_eq!(direction_from_words(255, 255), Direction { x: 1_000_000, y: 0 });
    assert_eq!(direction_from_words(u32::MAX, 0), Direction { x: 1_000_000, y: 0 });
    assert_eq!(direction_from_words(0, 256), Direction { x: 0, y: 1_000_000 });
    assert_eq!(
        direction_from_words(0x1234_5600, 0x1234_56ff),
        Direction { x: 707_106, y: 707_106 }
    );
    assert_eq!(direction_from_words(3 << 8, 4 << 8), Direction { x: 600_000, y: 800_000 });
}

#[test]
fn random_headings_have_length_one() {
    for _ in 0..200 {
        let d = random_direction();
        assert!(d.is_unit(), "{:?}", d);
        assert!(d.x >= 0 && d.y >= 0);
    }
}

#[test]
fn bounce_sound_follows_the_sample() {
    assert_eq!(bounce_cue(u32::MAX), Cue::BounceFirst);
    assert_eq!(bounce_cue(0x8000_0100), Cue::BounceFirst);
    assert_eq!(bounce_cue(0x8000_00ff), Cue::BounceSecond);
    assert_eq!(bounce_cue(0x8000_0000), Cue::BounceSecond);
    assert_eq!(bounce_cue(0), Cue::BounceSecond);
}

#[test]
fn random_bounce_sounds_are_bounces() {
    let mut first = 0;
    let mut second = 0;
    for _ in 0..400 {
        match random_bounce_cue() {
            Cue::BounceFirst => first += 1,
            Cue::BounceSecond => second += 1,
            other => panic!("{:?}", other),
        }
    }
    assert!(first > 0 && second > 0);
}
