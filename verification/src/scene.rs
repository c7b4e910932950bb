//! The scene of one round: the player and a fixed pool of obstacles, and the physics
//! step that moves them through one frame.

use crate::entity::{Color, Drawable, Sprite};
use crate::physics::{
    advance_obstacle, gaps_valid, lemma_sweep_hit_iff, lemma_sweep_reads_prefix,
    lemma_sweep_recycles_beyond_edge, lemma_sweep_stops_at_hit, pass_of, scroll_distance,
    scroll_step, sweep, Pass, RoundOutcome, Sweep, GAP_MAX, GAP_MIN, MAX_OBSTACLES,
};
use crate::player::{fallen, PlayerState};
use crate::units::{pixel_units, pixels, COORD_LIMIT};
use rand::Rng;
use vstd::prelude::*;

verus! {

/// Number of obstacles in the pool of a standard scene.
pub const OBSTACLE_COUNT: u16 = 20;

/// A loaded font face, known by a handle.
#[derive(Clone, Copy, Debug, PartialEq, Eq, Structural)]
pub struct FontHandle {
    pub id: u32,
}

/// Why a scene could not be set up.
#[derive(Clone, Copy, Debug, PartialEq, Eq, Structural)]
pub enum SetupError {
    /// No usable font was found.
    FontNotFound,
}

/// The player, the obstacle pool and the font of the time readout.
#[derive(Debug)]
pub struct Scene {
    pub player: PlayerState,
    pub obstacles: Vec<Drawable>,
    pub font: FontHandle,
}

/// The mathematical content of a scene.
pub struct SceneView {
    pub player: PlayerState,
    pub obstacles: Seq<Drawable>,
    pub font: FontHandle,
}

impl View for Scene {
    type V = SceneView;

    open spec fn view(&self) -> SceneView {
        SceneView { player: self.player, obstacles: self.obstacles@, font: self.font }
    }
}

impl SceneView {
    /// The player and every obstacle are well formed and the pool is not too large.
    pub open spec fn wf(self) -> bool {
        &&& self.player.wf()
        &&& self.obstacles.len() <= MAX_OBSTACLES
        &&& forall|i: int| 0 <= i < self.obstacles.len() ==> (#[trigger] self.obstacles[i]).wf()
    }
}

/// An obstacle waiting just beyond the left edge, to be placed by its first recycling.
pub open spec fn parked(sprite: Sprite) -> Drawable {
    Drawable {
        x: -pixel_units(sprite.width as int) as i64,
        y: 0,
        width: pixel_units(sprite.width as int) as i64,
        height: pixel_units(sprite.height as int) as i64,
        color: Color { red: 0, green: 255, blue: 0 },
        surface: Some(sprite),
        needs_redraw: false,
    }
}

/// The scene at the start of a round.
pub open spec fn fresh_scene(
    player_sprite: Sprite,
    obstacle_sprite: Sprite,
    count: nat,
    font: FontHandle,
) -> SceneView {
    SceneView {
        player: PlayerState {
            body: Drawable {
                x: crate::player::PLAYER_OFFSET,
                y: 0,
                width: crate::player::PLAYER_SIZE,
                height: crate::player::PLAYER_SIZE,
                color: Color { red: 255, green: 255, blue: 255 },
                surface: Some(player_sprite),
                needs_redraw: true,
            },
            velocity: 0,
        },
        obstacles: Seq::new(count, |i: int| parked(obstacle_sprite)),
        font,
    }
}

/// The scene after the physics step of a frame of `dt_ns` nanoseconds that starts
/// `elapsed_ns` nanoseconds into the round, on a display `width_px` pixels wide.
pub open spec fn step_scene(
    s: SceneView,
    dt_ns: int,
    elapsed_ns: int,
    width_px: int,
    gaps: Seq<i64>,
) -> SceneView {
    let player = fallen(s.player, dt_ns);
    SceneView {
        player,
        obstacles: sweep(
            s.obstacles,
            s.obstacles.len() as int,
            player,
            scroll_distance(dt_ns, elapsed_ns),
            pixel_units(width_px),
            gaps,
        ).obstacles,
        font: s.font,
    }
}

/// Whether the round goes on after that physics step.
pub open spec fn step_outcome(
    s: SceneView,
    dt_ns: int,
    elapsed_ns: int,
    width_px: int,
    gaps: Seq<i64>,
) -> RoundOutcome {
    if sweep(
        s.obstacles,
        s.obstacles.len() as int,
        fallen(s.player, dt_ns),
        scroll_distance(dt_ns, elapsed_ns),
        pixel_units(width_px),
        gaps,
    ).hit {
        RoundOutcome::Collided
    } else {
        RoundOutcome::Continuing
    }
}

/// Draws a number from `low` up to, not including, `high` with
/// `rand::Rng::gen_range` on `rand::thread_rng()`. The contract claims only that the
/// number lies in that range; which number comes is left open.
#[verifier::external_body]
fn random_in(low: i64, high: i64) -> (r: i64)
    requires
        low < high,
    ensures
        low <= r < high,
{
    rand::thread_rng().gen_range(low..high)
}

/// Builds an obstacle waiting just beyond the left edge.
pub fn parked_obstacle(sprite: Sprite) -> (d: Drawable)
    ensures
        d == parked(sprite),
        d.wf(),
{
    let w: i64 = pixels(sprite.width);
    let h: i64 = pixels(sprite.height);
    Drawable {
        x: -w,
        y: 0,
        width: w,
        height: h,
        color: Color::green(),
        surface: Some(sprite),
        needs_redraw: false,
    }
}

impl Scene {
    /// The scene of a standard round: the player and `OBSTACLE_COUNT` obstacles.
    pub fn new(dino: Sprite, cactus: Sprite, font: FontHandle) -> (s: Scene)
        ensures
            s@ == fresh_scene(dino, cactus, OBSTACLE_COUNT as nat, font),
            s@.wf(),
    {
        Scene::populate(dino, cactus, OBSTACLE_COUNT, font)
    }

    /// Sets up the scene of a round with `obstacle_count` obstacles. `font` is the
    /// outcome of resolving the readout's font: without one no scene is made.
    pub fn create(
        player_sprite: Sprite,
        obstacle_sprite: Sprite,
        obstacle_count: u16,
        font: Option<FontHandle>,
    ) -> (r: Result<Scene, SetupError>)
        ensures
            font is None ==> r == Err::<Scene, SetupError>(SetupError::FontNotFound),
            font is Some ==> r is Ok && r->Ok_0@ == fresh_scene(
                player_sprite,
                obstacle_sprite,
                obstacle_count as nat,
                font->Some_0,
            ) && r->Ok_0@.wf(),
    {
        match font {
            None => Err(SetupError::FontNotFound),
            Some(face) => Ok(Scene::populate(player_sprite, obstacle_sprite, obstacle_count, face)),
        }
    }

    /// Tells whether the scene is well formed.
    pub fn is_valid(&self) -> (ok: bool)
        ensures
            ok == self@.wf(),
    {
        if !self.player.is_valid() || self.obstacles.len() > MAX_OBSTACLES {
            return false;
        }
        let n: usize = self.obstacles.len();
        let mut i: usize = 0;
        while i < n
            invariant
                i <= n,
                n == self.obstacles@.len(),
                forall|j: int| 0 <= j < i ==> (#[trigger] self.obstacles@[j]).wf(),
            decreases n - i,
        {
            if !self.obstacles[i].is_valid() {
                return false;
            }
            i = i + 1;
        }
        true
    }

    fn populate(player_sprite: Sprite, obstacle_sprite: Sprite, count: u16, font: FontHandle) -> (s:
        Scene)
        ensures
            s@ == fresh_scene(player_sprite, obstacle_sprite, count as nat, font),
            s@.wf(),
    {
        let player = PlayerState::new(Some(player_sprite));
        let mut obstacles: Vec<Drawable> = Vec::new();
        let mut i: u16 = 0;
        while i < count
            invariant
                i <= count,
                obstacles@ == Seq::new(i as nat, |j: int| parked(obstacle_sprite)),
            decreases count - i,
        {
            obstacles.push(parked_obstacle(obstacle_sprite));
            i = i + 1;
        }
        let s = Scene { player, obstacles, font };
        proof {
            assert forall|j: int| 0 <= j < s@.obstacles.len() implies (#[trigger] s@.obstacles[j]).wf() by {
                assert(s@.obstacles[j] == parked(obstacle_sprite));
                let d = parked(obstacle_sprite);
                assert(0 <= pixel_units(obstacle_sprite.width as int) < COORD_LIMIT);
                assert(0 <= pixel_units(obstacle_sprite.height as int) < COORD_LIMIT);
            }
        }
        s
    }
}

impl Scene {
    /// Passes every obstacle through the frame, in pool order, until one hits the
    /// player. An obstacle that is recycled adds a gap to the offset of those
    /// recycled after it: the gap listed for it in `gaps`, or a random one.
    fn run_sweep(&mut self, dx: i128, width_px: u16, gaps: Option<&Vec<i64>>) -> (res: (
        RoundOutcome,
        Ghost<Seq<i64>>,
    ))
        requires
            old(self)@.wf(),
            0 <= dx < 0x10_0000_0000_0000_0000,
            gaps matches Some(g) ==> gaps_valid(g@, old(self).obstacles@.len()),
        ensures
            final(self)@.wf(),
            final(self).player == old(self).player,
            final(self).font == old(self).font,
            gaps_valid(res.1@, old(self).obstacles@.len()),
            gaps matches Some(g) ==> res.1@ == g@,
            final(self).obstacles@ == sweep(
                old(self).obstacles@,
                old(self).obstacles@.len() as int,
                old(self).player,
                dx as int,
                pixel_units(width_px as int),
                res.1@,
            ).obstacles,
            (res.0 == RoundOutcome::Collided) == sweep(
                old(self).obstacles@,
                old(self).obstacles@.len() as int,
                old(self).player,
                dx as int,
                pixel_units(width_px as int),
                res.1@,
            ).hit,
    {
        let n: usize = self.obstacles.len();
        let edge: i64 = pixels(width_px as u32);
        let player: PlayerState = self.player;
        let ghost start: Seq<Drawable> = self.obstacles@;
        let ghost mut used: Seq<i64> = Seq::empty();
        let mut offset: i64 = 0;
        let mut i: usize = 0;
        while i < n
            invariant
                i <= n,
                n == start.len(),
                n <= MAX_OBSTACLES,
                self.obstacles@.len() == n,
                self.player == player,
                player == old(self).player,
                start == old(self).obstacles@,
                player.wf(),
                self.font == old(self).font,
                0 <= dx < 0x10_0000_0000_0000_0000,
                edge == pixel_units(width_px as int),
                gaps matches Some(g) ==> gaps_valid(g@, n as nat),
                used.len() == i,
                forall|j: int| 0 <= j < i ==> GAP_MIN <= #[trigger] used[j] < GAP_MAX,
                gaps matches Some(g) ==> forall|j: int| 0 <= j < i ==> used[j] == g@[j],
                0 <= offset <= i * GAP_MAX,
                forall|j: int| 0 <= j < n ==> (#[trigger] self.obstacles@[j]).wf(),
                sweep(start, i as int, player, dx as int, edge as int, used) == (Sweep {
                    obstacles: self.obstacles@,
                    offset: offset as int,
                    hit: false,
                }),
            decreases n - i,
        {
            let ghost before = sweep(start, i as int, player, dx as int, edge as int, used);
            let mut ob: Drawable = self.obstacles[i];
            let pass = advance_obstacle(&mut ob, &player, dx, edge + offset);
            self.obstacles.set(i, ob);
            let gap: i64 = match pass {
                Pass::Recycled => match gaps {
                    Some(g) => g[i],
                    None => random_in(GAP_MIN, GAP_MAX),
                },
                _ => match gaps {
                    Some(g) => g[i],
                    None => GAP_MIN,
                },
            };
            proof {
                let longer = used.push(gap);
                lemma_sweep_reads_prefix(start, i as int, player, dx as int, edge as int, used, longer);
                used = longer;
            }
            match pass {
                Pass::Recycled => {
                    offset = offset + gap;
                },
                Pass::Clear => {},
                Pass::Hit => {
                    proof {
                        let rest = Seq::new((n - i - 1) as nat, |j: int| GAP_MIN);
                        let full = match gaps {
                            Some(g) => g@,
                            None => used + rest,
                        };
                        assert(gaps_valid(full, n as nat));
                        lemma_sweep_reads_prefix(
                            start,
                            i + 1,
                            player,
                            dx as int,
                            edge as int,
                            used,
                            full,
                        );
                        lemma_sweep_stops_at_hit(
                            start,
                            i + 1,
                            n as int,
                            player,
                            dx as int,
                            edge as int,
                            full,
                        );
                        used = full;
                    }
                    return (RoundOutcome::Collided, Ghost(used));
                },
            }
            i = i + 1;
        }
        proof {
            if let Some(g) = gaps {
                assert(used =~= g@);
            }
        }
        (RoundOutcome::Continuing, Ghost(used))
    }

    /// The physics step of one frame, with the gaps listed in `gaps` or, without a
    /// list, random ones. The second result is the list of gaps that the step used.
    pub(crate) fn step_inner(
        &mut self,
        dt_ns: u64,
        elapsed_ns: u64,
        width_px: u16,
        gaps: Option<&Vec<i64>>,
    ) -> (res: (RoundOutcome, Ghost<Seq<i64>>))
        requires
            old(self)@.wf(),
            gaps matches Some(g) ==> gaps_valid(g@, old(self).obstacles@.len()),
        ensures
            final(self)@.wf(),
            gaps_valid(res.1@, old(self).obstacles@.len()),
            gaps matches Some(g) ==> res.1@ == g@,
            final(self)@ == step_scene(
                old(self)@,
                dt_ns as int,
                elapsed_ns as int,
                width_px as int,
                res.1@,
            ),
            res.0 == step_outcome(
                old(self)@,
                dt_ns as int,
                elapsed_ns as int,
                width_px as int,
                res.1@,
            ),
    {
        self.player.fall(dt_ns);
        let dx = scroll_step(dt_ns, elapsed_ns);
        self.run_sweep(dx, width_px, gaps)
    }

    /// The physics step of one frame with the gaps given: `gaps[i]` is what obstacle
    /// `i` adds to the offset if it is recycled in this frame.
    pub fn step_with(&mut self, dt_ns: u64, elapsed_ns: u64, width_px: u16, gaps: &Vec<i64>) -> (outcome:
        RoundOutcome)
        requires
            old(self)@.wf(),
            gaps_valid(gaps@, old(self).obstacles@.len()),
        ensures
            final(self)@.wf(),
            final(self)@ == step_scene(
                old(self)@,
                dt_ns as int,
                elapsed_ns as int,
                width_px as int,
                gaps@,
            ),
            outcome == step_outcome(
                old(self)@,
                dt_ns as int,
                elapsed_ns as int,
                width_px as int,
                gaps@,
            ),
    {
        let res = self.step_inner(dt_ns, elapsed_ns, width_px, Some(gaps));
        res.0
    }

    /// The physics step of one frame: the player falls, then every obstacle moves
    /// left, is recycled if it has left the screen, and is tested against the player
    /// otherwise. The gaps between obstacles recycled in this frame are random, each
    /// from `GAP_MIN` up to, not including, `GAP_MAX`.
    pub fn step(&mut self, dt_ns: u64, elapsed_ns: u64, width_px: u16) -> (outcome: RoundOutcome)
        requires
            old(self)@.wf(),
        ensures
            final(self)@.wf(),
            exists|gaps: Seq<i64>|
                {
                    &&& gaps_valid(gaps, old(self).obstacles@.len())
                    &&& final(self)@ == #[trigger] step_scene(
                        old(self)@,
                        dt_ns as int,
                        elapsed_ns as int,
                        width_px as int,
                        gaps,
                    )
                    &&& outcome == step_outcome(
                        old(self)@,
                        dt_ns as int,
                        elapsed_ns as int,
                        width_px as int,
                        gaps,
                    )
                },
    {
        let res = self.step_inner(dt_ns, elapsed_ns, width_px, None);
        res.0
    }
}

/// The physics step ends in a collision exactly if some obstacle, moved left from
/// where it stood before the step, stays on screen and touches the player as it is
/// after falling. Neither the gaps nor which obstacles are recycled bear on it.
pub proof fn lemma_step_collides_iff(
    s: SceneView,
    dt_ns: int,
    elapsed_ns: int,
    width_px: int,
    gaps: Seq<i64>,
)
    requires
        gaps_valid(gaps, s.obstacles.len()),
    ensures
        step_outcome(s, dt_ns, elapsed_ns, width_px, gaps) == RoundOutcome::Collided
            <==> exists|i: int|
            0 <= i < s.obstacles.len() && #[trigger] pass_of(
                s.obstacles[i],
                fallen(s.player, dt_ns),
                scroll_distance(dt_ns, elapsed_ns),
            ) is Hit,
{
    lemma_sweep_hit_iff(
        s.obstacles,
        s.obstacles.len() as int,
        fallen(s.player, dt_ns),
        scroll_distance(dt_ns, elapsed_ns),
        pixel_units(width_px),
        gaps,
    );
}

/// An obstacle that the physics step reaches and that has left the screen stands at
/// the right edge of the display or beyond it after the step, and the step does not
/// end in a collision with it.
pub proof fn lemma_step_recycles_beyond_edge(
    s: SceneView,
    dt_ns: int,
    elapsed_ns: int,
    width_px: u16,
    gaps: Seq<i64>,
    i: int,
)
    requires
        s.wf(),
        gaps_valid(gaps, s.obstacles.len()),
        0 <= i < s.obstacles.len(),
        !sweep(
            s.obstacles,
            i,
            fallen(s.player, dt_ns),
            scroll_distance(dt_ns, elapsed_ns),
            pixel_units(width_px as int),
            gaps,
        ).hit,
        pass_of(s.obstacles[i], fallen(s.player, dt_ns), scroll_distance(dt_ns, elapsed_ns))
            is Recycled,
    ensures
        step_scene(s, dt_ns, elapsed_ns, width_px as int, gaps).obstacles[i].x >= pixel_units(
            width_px as int,
        ),
        !sweep(
            s.obstacles,
            i + 1,
            fallen(s.player, dt_ns),
            scroll_distance(dt_ns, elapsed_ns),
            pixel_units(width_px as int),
            gaps,
        ).hit,
{
    let n = s.obstacles.len();
    assert(n * GAP_MAX <= MAX_OBSTACLES * GAP_MAX) by (nonlinear_arith)
        requires
            0 <= n <= MAX_OBSTACLES,
            GAP_MAX == 500_000_000,
    ;
    lemma_sweep_recycles_beyond_edge(
        s.obstacles,
        fallen(s.player, dt_ns),
        scroll_distance(dt_ns, elapsed_ns),
        pixel_units(width_px as int),
        gaps,
        i,
    );
}

} // verus!
