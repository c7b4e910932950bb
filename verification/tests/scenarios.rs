use dino_run::entity::Sprite;
use dino_run::physics::{RoundOutcome, GAP_MIN};
use dino_run::player::{MAX_CHARGE_MS, PLAYER_OFFSET};
use dino_run::render::{Display, Orientation};
use dino_run::round::{Phase, Round};
use dino_run::scene::{FontHandle, Scene};
use dino_run::touch::InputEvent;

const FRAME_NS: u64 = 1_000_000;
const START_NS: u64 = 10_000_000_000;

fn round_with(count: u16) -> Round {
    let scene = Scene::create(
        Sprite { handle: 1, width: 40, height: 40 },
        Sprite { handle: 2, width: 24, height: 24 },
        count,
        Some(FontHandle { id: 7 }),
    )
    .unwrap();
    Round::new(scene, Display { width: 2008, height: 60, orientation: Orientation::QuarterTurn })
}

fn gaps(count: usize) -> Vec<i64> {
    vec![GAP_MIN; count]
}

#[test]
fn grounded_player_collides_with_an_obstacle_in_its_footprint_whatever_is_recycled() {
    let mut r = round_with(5);
    r.scene.obstacles[3].x = PLAYER_OFFSET + 1_000_000;
    let tick = r.tick_with(1, START_NS, &gaps(5));
    assert_eq!(tick.outcome, RoundOutcome::Collided);
    assert_eq!(r.phase, Phase::Ended);
    assert_eq!(r.scene.obstacles[0].x, 2_008_000_000);
    assert_eq!(r.scene.obstacles[2].x, 2_308_000_000);
    let mut q = round_with(5);
    q.scene.obstacles[0].x = PLAYER_OFFSET + 1_000_000;
    let tick = q.tick(1, START_NS);
    assert_eq!(tick.outcome, RoundOutcome::Collided);
}

#[test]
fn obstacle_just_left_of_the_footprint_does_not_collide() {
    let mut r = round_with(1);
    r.scene.obstacles[0].x = PLAYER_OFFSET - 1_000_000;
    let tick = r.tick_with(1, START_NS, &gaps(1));
    assert_eq!(tick.outcome, RoundOutcome::Continuing);
    assert_eq!(r.phase, Phase::Running);
}

#[test]
fn full_charge_jump_clears_an_oncoming_obstacle() {
    let mut r = round_with(1);
    r.scene.obstacles[0].x = 60_600_000;
    let events = vec![
        InputEvent::DeviceAdded { device: 1, name: "Mac Touch Bar".to_string() },
        InputEvent::TouchDown { device: 1, at_ns: START_NS - MAX_CHARGE_MS * 1_000_000 },
        InputEvent::TouchUp { device: 1, at_ns: START_NS },
    ];
    r.handle_input(&events, &vec![], START_NS);
    assert_eq!(r.scene.player.velocity, 400_000_000);
    let mut now = START_NS;
    let mut passed = false;
    let mut highest = 0;
    let mut frame = 0;
    while frame < 700 && !passed {
        now += FRAME_NS;
        let tick = r.tick_with(FRAME_NS, now, &gaps(1));
        assert_eq!(tick.outcome, RoundOutcome::Continuing);
        if r.scene.player.body.y > highest {
            highest = r.scene.player.body.y;
        }
        let x = r.scene.obstacles[0].x;
        if x > PLAYER_OFFSET && x <= PLAYER_OFFSET + r.scene.player.body.width {
            assert!(r.scene.player.body.y > r.scene.obstacles[0].height);
        }
        if x >= 2_008_000_000 {
            passed = true;
        }
        r.handle_input(&vec![], &vec![], now);
        frame += 1;
    }
    assert!(passed);
    assert_eq!(frame, 405);
    assert_eq!(highest, 73_029_820);
    assert_eq!(r.phase, Phase::Running);
}

#[test]
fn full_charge_jump_then_an_eighth_of_a_second_clears_an_obstacle_inside_the_footprint() {
    let mut r = round_with(1);
    r.scene.obstacles[0].x = 33_750_000;
    r.scene.player.jump(MAX_CHARGE_MS);
    assert_eq!(r.scene.player.velocity, 400_000_000);
    let tick = r.tick_with(125_000_000, 1_000_000_000, &gaps(1));
    assert_eq!(tick.outcome, RoundOutcome::Continuing);
    assert_eq!(r.phase, Phase::Running);
    assert_eq!(r.scene.obstacles[0].x, 15_000_000);
    assert_eq!(r.scene.player.body.y, 50_000_000);
    assert_eq!(r.scene.player.velocity, 400_000_000);
}

#[test]
fn without_the_jump_the_same_obstacle_ends_the_round() {
    let mut r = round_with(1);
    r.scene.obstacles[0].x = 60_600_000;
    let mut now = START_NS;
    let mut frame = 0;
    let mut outcome = RoundOutcome::Continuing;
    while frame < 700 && outcome == RoundOutcome::Continuing {
        now += FRAME_NS;
        outcome = r.tick_with(FRAME_NS, now, &gaps(1)).outcome;
        frame += 1;
    }
    assert_eq!(outcome, RoundOutcome::Collided);
    assert_eq!(frame, 200);
    assert_eq!(r.scene.obstacles[0].x, 18_870_600);
    assert_eq!(r.scene.player.body.y, 0);
}

#[test]
fn player_lands_again_after_a_jump() {
    let mut r = round_with(0);
    r.scene.player.jump(MAX_CHARGE_MS);
    let mut now = START_NS;
    let mut frame = 0;
    let mut landed = false;
    while !landed && frame < 2_000 {
        now += FRAME_NS;
        r.tick_with(FRAME_NS, now, &gaps(0));
        frame += 1;
        landed = r.scene.player.body.y == 0;
    }
    assert!(landed);
    assert_eq!(r.scene.player.velocity, 0);
    assert_eq!(frame, 574);
}
