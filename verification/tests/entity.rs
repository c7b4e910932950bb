use dino_run::entity::{Color, Drawable, Sprite};
use dino_run::player::PlayerState;
use dino_run::scene::{FontHandle, Scene};
use dino_run::units::COORD_LIMIT;

fn block(x: i64, y: i64, width: i64, height: i64) -> Drawable {
    Drawable::new(x, y, width, height, Color::green(), None)
}

#[test]
fn named_colours_have_their_channels() {
    assert_eq!(Color::white(), Color { red: 255, green: 255, blue: 255 });
    assert_eq!(Color::green(), Color { red: 0, green: 255, blue: 0 });
    assert_eq!(Color::black(), Color { red: 0, green: 0, blue: 0 });
}

#[test]
fn new_drawable_is_due_for_drawing() {
    let sprite = Sprite { handle: 4, width: 8, height: 9 };
    let d = Drawable::new(1, 2, 3, 4, Color::white(), Some(sprite));
    assert_eq!(
        d,
        Drawable {
            x: 1,
            y: 2,
            width: 3,
            height: 4,
            color: Color { red: 255, green: 255, blue: 255 },
            surface: Some(sprite),
            needs_redraw: true,
        }
    );
}

#[test]
fn drawable_within_the_coordinate_range_is_valid() {
    assert!(block(0, 0, 0, 0).is_valid());
    assert!(block(COORD_LIMIT, -COORD_LIMIT, COORD_LIMIT, COORD_LIMIT).is_valid());
    assert!(block(-COORD_LIMIT, COORD_LIMIT, 1, 1).is_valid());
}

#[test]
fn drawable_beyond_the_coordinate_range_is_not_valid() {
    assert!(!block(COORD_LIMIT + 1, 0, 1, 1).is_valid());
    assert!(!block(-COORD_LIMIT - 1, 0, 1, 1).is_valid());
    assert!(!block(0, COORD_LIMIT + 1, 1, 1).is_valid());
    assert!(!block(0, -COORD_LIMIT - 1, 1, 1).is_valid());
    assert!(!block(0, 0, COORD_LIMIT + 1, 1).is_valid());
    assert!(!block(0, 0, 1, COORD_LIMIT + 1).is_valid());
}

#[test]
fn drawable_of_negative_size_is_not_valid() {
    assert!(!block(0, 0, -1, 1).is_valid());
    assert!(!block(0, 0, 1, -1).is_valid());
}

#[test]
fn player_validity_covers_body_and_velocity() {
    let mut p = PlayerState::new(None);
    assert!(p.is_valid());
    p.velocity = COORD_LIMIT;
    assert!(p.is_valid());
    p.velocity = COORD_LIMIT + 1;
    assert!(!p.is_valid());
    p.velocity = -COORD_LIMIT - 1;
    assert!(!p.is_valid());
    p.velocity = 0;
    p.body.y = i64::MAX;
    assert!(!p.is_valid());
}

#[test]
fn scene_validity_covers_player_and_every_obstacle() {
    let dino = Sprite { handle: 1, width: 40, height: 40 };
    let cactus = Sprite { handle: 2, width: 24, height: 24 };
    let mut s = Scene::new(dino, cactus, FontHandle { id: 0 });
    assert!(s.is_valid());
    s.obstacles[19].x = i64::MIN;
    assert!(!s.is_valid());
    s.obstacles[19].x = 0;
    assert!(s.is_valid());
    s.player.velocity = i64::MAX;
    assert!(!s.is_valid());
    s.player.velocity = 0;
    s.obstacles[0].width = -1;
    assert!(!s.is_valid());
}

#[test]
fn scene_with_too_many_obstacles_is_not_valid() {
    let dino = Sprite { handle: 1, width: 40, height: 40 };
    let cactus = Sprite { handle: 2, width: 24, height: 24 };
    let mut s = Scene::create(dino, cactus, 65_535, Some(FontHandle { id: 0 })).unwrap();
    assert!(s.is_valid());
    let extra = s.obstacles[0];
    s.obstacles.push(extra);
    assert!(!s.is_valid());
}
