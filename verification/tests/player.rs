use dino_run::entity::{Color, Drawable};
use dino_run::player::{
    jump_impulse, PlayerState, GRAVITY_ACCEL, JUMP_SCALE, JUMP_SCALE_SQUARED,
    MAX_CHARGE_MS, MIN_CHARGE_MS, PLAYER_OFFSET, PLAYER_SIZE,
};
use dino_run::units::COORD_LIMIT;

fn airborne(y: i64, velocity: i64) -> PlayerState {
    let mut p = PlayerState::new(None);
    p.body.y = y;
    p.velocity = velocity;
    p
}

#[test]
fn constants_have_their_values() {
    assert_eq!(GRAVITY_ACCEL, 30);
    assert_eq!(JUMP_SCALE, 400_000_000);
    assert_eq!(JUMP_SCALE_SQUARED as u128, (JUMP_SCALE as u128) * (JUMP_SCALE as u128));
    assert_eq!(MIN_CHARGE_MS, 50);
    assert_eq!(MAX_CHARGE_MS, 120);
    assert_eq!(PLAYER_OFFSET, 10_000_000);
    assert_eq!(PLAYER_SIZE, 9_000_000);
}

#[test]
fn new_player_rests_at_its_offset() {
    let p = PlayerState::new(None);
    assert_eq!(
        p.body,
        Drawable {
            x: PLAYER_OFFSET,
            y: 0,
            width: PLAYER_SIZE,
            height: PLAYER_SIZE,
            color: Color { red: 255, green: 255, blue: 255 },
            surface: None,
            needs_redraw: true,
        }
    );
    assert_eq!(p.velocity, 0);
}

#[test]
fn full_charge_gives_the_full_impulse() {
    assert_eq!(jump_impulse(120), JUMP_SCALE);
}

#[test]
fn impulse_follows_the_square_root_curve() {
    assert_eq!(jump_impulse(50), 258_198_889);
    assert_eq!(jump_impulse(51), 260_768_096);
    assert_eq!(jump_impulse(60), 282_842_712);
    assert_eq!(jump_impulse(85), 336_650_164);
    assert_eq!(jump_impulse(100), 365_148_371);
    assert_eq!(jump_impulse(119), 398_329_846);
}

#[test]
fn impulse_is_clamped_at_both_ends() {
    assert_eq!(jump_impulse(0), 258_198_889);
    assert_eq!(jump_impulse(49), jump_impulse(50));
    assert_eq!(jump_impulse(121), JUMP_SCALE);
    assert_eq!(jump_impulse(500), JUMP_SCALE);
    assert_eq!(jump_impulse(u64::MAX), JUMP_SCALE);
}

#[test]
fn impulse_grows_strictly_between_the_limits() {
    let mut held = MIN_CHARGE_MS;
    while held < MAX_CHARGE_MS {
        assert!(jump_impulse(held) < jump_impulse(held + 1));
        held += 1;
    }
}

#[test]
fn impulse_is_never_negative() {
    let mut held = 0;
    while held < 200 {
        assert!(jump_impulse(held) >= 0);
        held += 1;
    }
}

#[test]
fn fall_matches_the_formula() {
    let mut p = airborne(50_000_000, 100_000_000);
    p.fall(10_000_000);
    assert_eq!(p.velocity, 85_000_000);
    assert_eq!(p.body.y, 50_850_000);
    assert!(p.body.needs_redraw);
}

#[test]
fn fall_of_one_millisecond_from_one_pixel_up() {
    let mut p = airborne(1_000_000, 400_000_000);
    p.fall(1_000_000);
    assert_eq!(p.velocity, 399_970_000);
    assert_eq!(p.body.y, 1_399_970);
}

#[test]
fn fall_of_one_millisecond_after_a_full_jump() {
    let mut p = PlayerState::new(None);
    p.jump(120);
    p.fall(1_000_000);
    assert_eq!(p.velocity, 400_000_000);
    assert_eq!(p.body.y, 400_000);
}

#[test]
fn eighth_of_a_second_after_a_full_jump_the_player_is_fifty_pixels_up() {
    let mut p = PlayerState::new(None);
    p.jump(120);
    assert_eq!(p.velocity, 400_000_000);
    assert_eq!(p.body.y, 0);
    p.fall(125_000_000);
    assert_eq!(p.body.y, 50_000_000);
    assert_eq!(p.velocity, 400_000_000);
}

#[test]
fn jump_followed_by_a_frame_of_no_time_is_lost() {
    let mut p = PlayerState::new(None);
    p.jump(120);
    p.fall(0);
    assert_eq!(p.body.y, 0);
    assert_eq!(p.velocity, 0);
}

#[test]
fn fall_rounds_down() {
    let mut p = airborne(5, -1);
    p.fall(1);
    assert_eq!(p.velocity, -1);
    assert_eq!(p.body.y, 4);
}

#[test]
fn fall_of_no_time_changes_nothing_in_the_air() {
    let mut p = airborne(1_000_000, 400_000_000);
    p.fall(0);
    assert_eq!(p.velocity, 400_000_000);
    assert_eq!(p.body.y, 1_000_000);
}

#[test]
fn ground_clamp_resets_height_and_velocity() {
    let mut p = airborne(1_000_000, -400_000_000);
    p.fall(10_000_000);
    assert_eq!(p.body.y, 0);
    assert_eq!(p.velocity, 0);
}

#[test]
fn grounded_player_with_leftover_velocity_is_brought_to_rest_by_a_frame_of_no_time() {
    let mut p = airborne(0, 400_000_000);
    p.fall(0);
    assert_eq!(p.body.y, 0);
    assert_eq!(p.velocity, 0);
}

#[test]
fn resting_player_stays_at_rest() {
    let mut p = PlayerState::new(None);
    p.fall(16_000_000);
    assert_eq!(p.body.y, 0);
    assert_eq!(p.velocity, 0);
}

#[test]
fn fall_never_goes_below_ground() {
    let mut p = airborne(1_000_000, 400_000_000);
    let mut frames = 0;
    while frames < 2_000 {
        p.fall(1_000_000);
        assert!(p.body.y >= 0);
        if p.body.y == 0 {
            assert_eq!(p.velocity, 0);
        }
        frames += 1;
    }
    assert_eq!(p.body.y, 0);
}

#[test]
fn fall_saturates_at_the_coordinate_limit() {
    let mut p = airborne(COORD_LIMIT, COORD_LIMIT);
    p.fall(u64::MAX);
    assert_eq!(p.body.y, 0);
    assert_eq!(p.velocity, 0);
    let mut q = airborne(1, COORD_LIMIT);
    q.fall(2_000_000_000);
    assert_eq!(q.velocity, COORD_LIMIT - 60);
    assert_eq!(q.body.y, COORD_LIMIT);
    let mut r = airborne(1, COORD_LIMIT);
    r.fall(1_000_000_000);
    assert_eq!(r.velocity, COORD_LIMIT - 30);
    assert_eq!(r.body.y, COORD_LIMIT - 29);
}

#[test]
fn fall_leaves_the_rest_of_the_body_alone() {
    let mut p = airborne(50_000_000, 0);
    let before = p.body;
    p.fall(1_000_000);
    assert_eq!(p.body.x, before.x);
    assert_eq!(p.body.width, before.width);
    assert_eq!(p.body.height, before.height);
    assert_eq!(p.body.color, before.color);
    assert_eq!(p.body.surface, before.surface);
}

#[test]
fn grounded_player_gains_the_impulse_and_nothing_else() {
    let mut p = PlayerState::new(None);
    let body = p.body;
    p.jump(120);
    assert_eq!(p.velocity, JUMP_SCALE);
    assert_eq!(p.body, body);
}

#[test]
fn short_hold_jumps_with_the_least_impulse() {
    let mut p = PlayerState::new(None);
    p.jump(3);
    assert_eq!(p.velocity, 258_198_889);
    assert_eq!(p.body.y, 0);
}

#[test]
fn jump_in_the_air_is_a_no_op() {
    let mut p = airborne(30_000_000, -5_000_000);
    let before = p;
    p.jump(120);
    assert_eq!(p, before);
}

#[test]
fn second_jump_while_still_on_the_ground_adds_its_impulse() {
    let mut p = PlayerState::new(None);
    p.jump(80);
    assert_eq!(p.velocity, 326_598_632);
    p.jump(120);
    assert_eq!(p.velocity, 726_598_632);
    assert_eq!(p.body.y, 0);
}

#[test]
fn second_jump_after_the_first_frame_is_a_no_op() {
    let mut p = PlayerState::new(None);
    p.jump(80);
    p.fall(1_000_000);
    let in_the_air = p;
    assert!(p.body.y > 0);
    p.jump(120);
    assert_eq!(p, in_the_air);
}

#[test]
fn jump_adds_to_the_velocity_and_saturates() {
    let mut p = airborne(0, COORD_LIMIT - 1);
    p.jump(120);
    assert_eq!(p.velocity, COORD_LIMIT);
    let mut q = airborne(0, -100_000_000);
    q.jump(120);
    assert_eq!(q.velocity, 300_000_000);
}
