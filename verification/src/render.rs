//! Composing a frame: the list of drawing commands for the current scene, the time
//! readout, and the rectangles of the screen that the frame changes.

use crate::entity::{Color, Drawable, Sprite};
use crate::scene::{Scene, SceneView};
use crate::units::{pixel_units, pixels};
use vstd::prelude::*;
use vstd::string::StringExecFns;

verus! {

/// Point size of the time readout.
pub const FONT_SIZE: u32 = 12;

/// Nanoseconds per tenth of a second.
pub const NANOS_PER_TENTH: u64 = 100_000_000;

/// How the panel is mounted relative to the drawing space.
#[derive(Clone, Copy, Debug, PartialEq, Eq, Structural)]
pub enum Orientation {
    /// Drawing space and panel agree.
    Upright,
    /// The panel is turned by a quarter: drawing is shifted by the display height
    /// along the first axis and rotated by 90 degrees.
    QuarterTurn,
}

/// The display a round is drawn on, in whole pixels of the drawing space.
#[derive(Clone, Copy, Debug, PartialEq, Eq, Structural)]
pub struct Display {
    pub width: u16,
    pub height: u16,
    pub orientation: Orientation,
}

/// A rectangle of the panel, by two opposite corners.
#[derive(Clone, Copy, Debug, PartialEq, Eq, Structural)]
pub struct Rect {
    pub x1: u16,
    pub y1: u16,
    pub x2: u16,
    pub y2: u16,
}

/// One drawing command. Positions and sizes are in position units of the drawing
/// space, with the vertical axis pointing down.
#[derive(Clone, Copy, Debug, PartialEq, Eq)]
pub enum DrawCmd {
    /// Shift the origin by `shift` along the first axis, then rotate by
    /// `quarter_turns` times 90 degrees.
    Orient { shift: i64, quarter_turns: u8 },
    /// Fill the whole canvas.
    Clear { color: Color },
    /// Draw a sprite with its top-left corner at `(x, y)`.
    Blit { sprite: Sprite, x: i64, y: i64 },
    /// Fill a rectangle with its top-left corner at `(x, y)`.
    Fill { color: Color, x: i64, y: i64, width: i64, height: i64 },
    /// Draw the frame's label at the origin, one text height down.
    Label { font: u32, size: u32, color: Color },
}

/// A composed frame.
#[derive(Debug)]
pub struct Frame {
    pub commands: Vec<DrawCmd>,
    pub label: String,
    pub dirty: Vec<Rect>,
}

/// The command that sets the drawing space up for a display.
pub open spec fn orient_cmd(display: Display) -> DrawCmd {
    match display.orientation {
        Orientation::Upright => DrawCmd::Orient { shift: 0, quarter_turns: 0 },
        Orientation::QuarterTurn => DrawCmd::Orient {
            shift: pixel_units(display.height as int) as i64,
            quarter_turns: 1,
        },
    }
}

/// The command that draws one entity on a display `height_px` pixels high: a sprite
/// stands with its bottom edge `y` above the bottom of the display and its left edge
/// at `x`; an entity without a sprite is a rectangle of its colour standing likewise.
pub open spec fn entity_cmd(d: Drawable, height_px: int) -> DrawCmd {
    let base = pixel_units(height_px) - d.y;
    match d.surface {
        Some(sprite) => DrawCmd::Blit {
            sprite,
            x: d.x,
            y: (base - pixel_units(sprite.height as int)) as i64,
        },
        None => DrawCmd::Fill {
            color: d.color,
            x: d.x,
            y: (base - d.height) as i64,
            width: d.width,
            height: d.height,
        },
    }
}

/// The commands of a frame: set up the drawing space, clear to black, draw the
/// player, draw the obstacles in pool order, draw the label in white.
pub open spec fn frame_commands(s: SceneView, display: Display) -> Seq<DrawCmd> {
    seq![orient_cmd(display), DrawCmd::Clear { color: Color { red: 0, green: 0, blue: 0 } }]
        + seq![entity_cmd(s.player.body, display.height as int)] + Seq::new(
        s.obstacles.len(),
        |i: int| entity_cmd(s.obstacles[i], display.height as int),
    ) + seq![
        DrawCmd::Label {
            font: s.font.id,
            size: FONT_SIZE,
            color: Color { red: 255, green: 255, blue: 255 },
        },
    ]
}

/// The rectangles a frame changes: the whole panel.
pub open spec fn frame_dirty(display: Display) -> Seq<Rect> {
    match display.orientation {
        Orientation::Upright => seq![
            Rect { x1: 0, y1: 0, x2: display.width, y2: display.height },
        ],
        Orientation::QuarterTurn => seq![
            Rect { x1: 0, y1: 0, x2: display.height, y2: display.width },
        ],
    }
}

/// The scene after a frame was drawn: no entity is due for drawing any more.
pub open spec fn drawn(s: SceneView) -> SceneView {
    SceneView {
        player: crate::player::PlayerState {
            body: Drawable { needs_redraw: false, ..s.player.body },
            velocity: s.player.velocity,
        },
        obstacles: Seq::new(
            s.obstacles.len(),
            |i: int| Drawable { needs_redraw: false, ..s.obstacles[i] },
        ),
        font: s.font,
    }
}

/// Tenths of a second in `elapsed_ns` nanoseconds, rounded to the nearest, a half up.
pub open spec fn tenths(elapsed_ns: int) -> int {
    (elapsed_ns + NANOS_PER_TENTH / 2) / (NANOS_PER_TENTH as int)
}

/// The character of a decimal digit.
pub open spec fn digit_char(d: int) -> char {
    if d == 0 {
        '0'
    } else if d == 1 {
        '1'
    } else if d == 2 {
        '2'
    } else if d == 3 {
        '3'
    } else if d == 4 {
        '4'
    } else if d == 5 {
        '5'
    } else if d == 6 {
        '6'
    } else if d == 7 {
        '7'
    } else if d == 8 {
        '8'
    } else {
        '9'
    }
}

/// The decimal digits of `n`, most significant first, without leading zeros.
pub open spec fn decimal(n: nat) -> Seq<char>
    decreases n,
{
    if n < 10 {
        seq![digit_char(n as int)]
    } else {
        decimal(n / 10).push(digit_char((n % 10) as int))
    }
}

/// The time readout: seconds, a point, one digit of tenths, and the letter `s`.
pub open spec fn timer_text(elapsed_ns: int) -> Seq<char> {
    decimal((tenths(elapsed_ns) / 10) as nat) + seq!['.', digit_char(tenths(elapsed_ns) % 10), 's']
}

fn digit_text(d: u64) -> (s: &'static str)
    requires
        d < 10,
    ensures
        s@ == seq![digit_char(d as int)],
{
    proof {
        reveal_strlit("0");
        reveal_strlit("1");
        reveal_strlit("2");
        reveal_strlit("3");
        reveal_strlit("4");
        reveal_strlit("5");
        reveal_strlit("6");
        reveal_strlit("7");
        reveal_strlit("8");
        reveal_strlit("9");
    }
    let s = if d == 0 {
        "0"
    } else if d == 1 {
        "1"
    } else if d == 2 {
        "2"
    } else if d == 3 {
        "3"
    } else if d == 4 {
        "4"
    } else if d == 5 {
        "5"
    } else if d == 6 {
        "6"
    } else if d == 7 {
        "7"
    } else if d == 8 {
        "8"
    } else {
        "9"
    };
    assert(s@ =~= seq![digit_char(d as int)]);
    s
}

/// Writes `n` in decimal.
pub fn decimal_text(n: u64) -> (text: String)
    ensures
        text@ == decimal(n as nat),
    decreases n,
{
    if n < 10 {
        let mut text = String::new();
        text.append(digit_text(n));
        assert(text@ =~= decimal(n as nat));
        text
    } else {
        let mut text = decimal_text(n / 10);
        text.append(digit_text(n % 10));
        assert(text@ =~= decimal(n as nat));
        text
    }
}

/// Computes the tenths of a second in `elapsed_ns` nanoseconds, rounded.
pub fn rounded_tenths(elapsed_ns: u64) -> (t: u64)
    ensures
        t == tenths(elapsed_ns as int),
{
    ((elapsed_ns as u128 + (NANOS_PER_TENTH / 2) as u128) / (NANOS_PER_TENTH as u128)) as u64
}

/// Writes the time readout for a round that is `elapsed_ns` nanoseconds old.
pub fn timer_label(elapsed_ns: u64) -> (label: String)
    ensures
        label@ == timer_text(elapsed_ns as int),
{
    let t: u64 = rounded_tenths(elapsed_ns);
    let mut label = decimal_text(t / 10);
    label.append(".");
    label.append(digit_text(t % 10));
    label.append("s");
    proof {
        reveal_strlit(".");
        reveal_strlit("s");
        assert(label@ =~= timer_text(elapsed_ns as int));
    }
    label
}

/// Computes the command that sets the drawing space up.
pub fn orient_command(display: &Display) -> (cmd: DrawCmd)
    ensures
        cmd == orient_cmd(*display),
{
    match display.orientation {
        Orientation::Upright => DrawCmd::Orient { shift: 0, quarter_turns: 0 },
        Orientation::QuarterTurn => DrawCmd::Orient {
            shift: pixels(display.height as u32),
            quarter_turns: 1,
        },
    }
}

/// Computes the command that draws one entity.
pub fn entity_command(d: &Drawable, height_px: u16) -> (cmd: DrawCmd)
    requires
        d.wf(),
    ensures
        cmd == entity_cmd(*d, height_px as int),
{
    let base: i64 = pixels(height_px as u32) - d.y;
    match d.surface {
        Some(sprite) => DrawCmd::Blit { sprite, x: d.x, y: base - pixels(sprite.height) },
        None => DrawCmd::Fill {
            color: d.color,
            x: d.x,
            y: base - d.height,
            width: d.width,
            height: d.height,
        },
    }
}

/// Lists the rectangles a frame changes.
pub fn dirty_rects(display: &Display) -> (rects: Vec<Rect>)
    ensures
        rects@ == frame_dirty(*display),
{
    let mut rects: Vec<Rect> = Vec::new();
    match display.orientation {
        Orientation::Upright => rects.push(
            Rect { x1: 0, y1: 0, x2: display.width, y2: display.height },
        ),
        Orientation::QuarterTurn => rects.push(
            Rect { x1: 0, y1: 0, x2: display.height, y2: display.width },
        ),
    }
    assert(rects@ =~= frame_dirty(*display));
    rects
}

impl Scene {
    /// Composes the frame of the scene as it stands, for a round that is `elapsed_ns`
    /// nanoseconds old, and marks every entity as drawn.
    pub fn draw(&mut self, display: &Display, elapsed_ns: u64) -> (frame: Frame)
        requires
            old(self)@.wf(),
        ensures
            final(self)@ == drawn(old(self)@),
            final(self)@.wf(),
            frame.commands@ == frame_commands(old(self)@, *display),
            frame.label@ == timer_text(elapsed_ns as int),
            frame.dirty@ == frame_dirty(*display),
    {
        let mut commands: Vec<DrawCmd> = Vec::new();
        commands.push(orient_command(display));
        commands.push(DrawCmd::Clear { color: Color::black() });
        commands.push(entity_command(&self.player.body, display.height));
        self.player.body.needs_redraw = false;
        let ghost head = commands@;
        let n: usize = self.obstacles.len();
        let mut i: usize = 0;
        while i < n
            invariant
                i <= n,
                n == old(self).obstacles@.len(),
                self.obstacles@.len() == n,
                self.font == old(self).font,
                self.player == drawn(old(self)@).player,
                old(self)@.wf(),
                forall|j: int| 0 <= j < i ==> self.obstacles@[j] == drawn(old(self)@).obstacles[j],
                forall|j: int| i <= j < n ==> self.obstacles@[j] == old(self).obstacles@[j],
                commands@ == head + Seq::new(
                    i as nat,
                    |j: int| entity_cmd(old(self).obstacles@[j], display.height as int),
                ),
            decreases n - i,
        {
            let mut ob: Drawable = self.obstacles[i];
            assert(old(self)@.obstacles[i as int].wf());
            commands.push(entity_command(&ob, display.height));
            ob.needs_redraw = false;
            self.obstacles.set(i, ob);
            i = i + 1;
        }
        commands.push(DrawCmd::Label { font: self.font.id, size: FONT_SIZE, color: Color::white() });
        proof {
            assert(commands@ =~= frame_commands(old(self)@, *display));
            assert(self@.obstacles =~= drawn(old(self)@).obstacles);
        }
        Frame { commands, label: timer_label(elapsed_ns), dirty: dirty_rects(display) }
    }
}

/// Drawing a scene twice with nothing between gives the same commands both times,
/// and the second drawing leaves the scene as the first did. (The label and the
/// rectangles of a frame depend on the age of the round and on the display alone.)
pub proof fn lemma_draw_idempotent(s: SceneView, display: Display)
    ensures
        frame_commands(drawn(s), display) == frame_commands(s, display),
        drawn(drawn(s)) == drawn(s),
{
    assert(frame_commands(drawn(s), display) =~= frame_commands(s, display));
    assert(drawn(drawn(s)).obstacles =~= drawn(s).obstacles);
}

} // verus!
