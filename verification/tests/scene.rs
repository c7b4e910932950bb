use dino_run::entity::{Color, Drawable, Sprite};
use dino_run::physics::{RoundOutcome, GAP_MAX, GAP_MIN};
use dino_run::player::{PLAYER_OFFSET, PLAYER_SIZE};
use dino_run::scene::{parked_obstacle, FontHandle, Scene, SetupError, OBSTACLE_COUNT};

fn dino() -> Sprite {
    Sprite { handle: 1, width: 40, height: 40 }
}

fn cactus() -> Sprite {
    Sprite { handle: 2, width: 24, height: 24 }
}

fn font() -> FontHandle {
    FontHandle { id: 7 }
}

#[test]
fn new_scene_has_a_resting_player_and_twenty_parked_obstacles() {
    let s = Scene::new(dino(), cactus(), font());
    assert_eq!(OBSTACLE_COUNT, 20);
    assert_eq!(s.obstacles.len(), 20);
    assert_eq!(s.font, font());
    assert_eq!(
        s.player.body,
        Drawable {
            x: PLAYER_OFFSET,
            y: 0,
            width: PLAYER_SIZE,
            height: PLAYER_SIZE,
            color: Color { red: 255, green: 255, blue: 255 },
            surface: Some(dino()),
            needs_redraw: true,
        }
    );
    assert_eq!(s.player.velocity, 0);
    for ob in s.obstacles.iter() {
        assert_eq!(
            *ob,
            Drawable {
                x: -24_000_000,
                y: 0,
                width: 24_000_000,
                height: 24_000_000,
                color: Color { red: 0, green: 255, blue: 0 },
                surface: Some(cactus()),
                needs_redraw: false,
            }
        );
    }
}

#[test]
fn parked_obstacle_takes_its_size_from_the_sprite() {
    let ob = parked_obstacle(Sprite { handle: 9, width: 3, height: 5 });
    assert_eq!(ob.x, -3_000_000);
    assert_eq!(ob.width, 3_000_000);
    assert_eq!(ob.height, 5_000_000);
    assert!(ob.is_valid());
}

#[test]
fn create_without_a_font_fails() {
    let r = Scene::create(dino(), cactus(), 20, None);
    assert!(matches!(r, Err(SetupError::FontNotFound)));
}

#[test]
fn create_with_a_font_builds_the_pool_asked_for() {
    let s = Scene::create(dino(), cactus(), 3, Some(font())).unwrap();
    assert_eq!(s.obstacles.len(), 3);
    assert_eq!(s.font, font());
    let empty = Scene::create(dino(), cactus(), 0, Some(font())).unwrap();
    assert_eq!(empty.obstacles.len(), 0);
}

#[test]
fn first_step_recycles_every_parked_obstacle_with_the_gaps_given() {
    let mut s = Scene::create(dino(), cactus(), 4, Some(font())).unwrap();
    let gaps = vec![150_000_000, 200_000_000, 499_999_999, 300_000_000];
    let outcome = s.step_with(1_000_000, 1_000_000_000, 2008, &gaps);
    assert_eq!(outcome, RoundOutcome::Continuing);
    assert_eq!(s.obstacles[0].x, 2_008_000_000);
    assert_eq!(s.obstacles[1].x, 2_158_000_000);
    assert_eq!(s.obstacles[2].x, 2_358_000_000);
    assert_eq!(s.obstacles[3].x, 2_857_999_999);
}

#[test]
fn gap_of_an_obstacle_that_is_not_recycled_is_not_used() {
    let mut s = Scene::create(dino(), cactus(), 3, Some(font())).unwrap();
    s.obstacles[1].x = 900_000_000;
    let gaps = vec![150_000_000, 400_000_000, 200_000_000];
    let outcome = s.step_with(10_000_000, 1_000_000_000, 2008, &gaps);
    assert_eq!(outcome, RoundOutcome::Continuing);
    assert_eq!(s.obstacles[0].x, 2_008_000_000);
    assert_eq!(s.obstacles[1].x, 898_500_000);
    assert_eq!(s.obstacles[2].x, 2_158_000_000);
}

#[test]
fn step_moves_the_player_before_the_obstacles_are_tested() {
    let mut s = Scene::create(dino(), cactus(), 1, Some(font())).unwrap();
    s.player.body.y = 24_000_100;
    s.player.velocity = -100_000_000;
    s.obstacles[0].x = 15_000_000;
    let outcome = s.step_with(1_000_000, 1_000_000_000, 2008, &vec![GAP_MIN]);
    assert_eq!(s.player.body.y, 23_899_379);
    assert_eq!(s.player.velocity, -100_720_003);
    assert_eq!(outcome, RoundOutcome::Collided);
}

#[test]
fn step_stops_at_the_first_hit() {
    let mut s = Scene::create(dino(), cactus(), 3, Some(font())).unwrap();
    s.obstacles[0].x = 500_000_000;
    s.obstacles[1].x = 15_000_000;
    s.obstacles[2].x = 700_000_000;
    let gaps = vec![GAP_MIN, GAP_MIN, GAP_MIN];
    let outcome = s.step_with(10_000_000, 1_000_000_000, 2008, &gaps);
    assert_eq!(outcome, RoundOutcome::Collided);
    assert_eq!(s.obstacles[0].x, 498_500_000);
    assert_eq!(s.obstacles[1].x, 13_500_000);
    assert_eq!(s.obstacles[2].x, 700_000_000);
}

#[test]
fn step_with_random_gaps_keeps_them_in_range() {
    let mut s = Scene::new(dino(), cactus(), font());
    let outcome = s.step(1_000_000, 1_000_000_000, 2008);
    assert_eq!(outcome, RoundOutcome::Continuing);
    assert_eq!(s.obstacles[0].x, 2_008_000_000);
    let mut all_least = true;
    let mut all_same = true;
    let first_gap = s.obstacles[1].x - s.obstacles[0].x;
    for i in 1..s.obstacles.len() {
        let gap = s.obstacles[i].x - s.obstacles[i - 1].x;
        assert!(gap >= GAP_MIN);
        assert!(gap < GAP_MAX);
        if gap != GAP_MIN {
            all_least = false;
        }
        if gap != first_gap {
            all_same = false;
        }
    }
    assert!(!all_least);
    assert!(!all_same);
}

#[test]
fn recycled_obstacle_lands_at_the_edge_or_beyond_and_never_collides() {
    let mut s = Scene::new(dino(), cactus(), font());
    s.player.body.x = -30_000_000;
    s.player.body.width = 2_100_000_000;
    let outcome = s.step(1_000_000, 5_000_000_000, 2008);
    assert_eq!(outcome, RoundOutcome::Continuing);
    for ob in s.obstacles.iter() {
        assert!(ob.x >= 2_008_000_000);
    }
}

#[test]
fn step_marks_the_player_for_drawing() {
    let mut s = Scene::new(dino(), cactus(), font());
    s.player.body.needs_redraw = false;
    s.step(1_000_000, 1_000_000_000, 2008);
    assert!(s.player.body.needs_redraw);
}
