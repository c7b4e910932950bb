//! Obstacle motion: the scroll speed that grows with the age of the round, the pass
//! of one obstacle through a frame, and the sweep over the whole pool.

use crate::entity::Drawable;
use crate::player::PlayerState;
use crate::roots::{root7_floor, seventh_root};
use crate::units::{in_range, saturate, saturate_wide, COORD_LIMIT};
use vstd::prelude::*;

verus! {

/// Scroll speed one second into the round, in position units per second.
pub const SCROLL_SPEED: i64 = 150_000_000;

/// The speed ramp is expressed in parts of this.
pub const RAMP_SCALE: i64 = 1_000;

/// `RAMP_SCALE` to the seventh power over the nanoseconds in a second: the ramp of an
/// age in nanoseconds is the seventh root of the age times this.
pub const RAMP_ARGUMENT_SCALE: u128 = 1_000_000_000_000;

/// Nanoseconds per second times `RAMP_SCALE`: what a product of speed, nanoseconds
/// and ramp is divided by to give position units.
pub const SCROLL_DIVISOR: i128 = 1_000_000_000_000;

/// Smallest gap added between obstacles recycled in one frame.
pub const GAP_MIN: i64 = 150_000_000;

/// The gap added between obstacles recycled in one frame stays below this.
pub const GAP_MAX: i64 = 500_000_000;

/// Most obstacles a scene may hold.
pub const MAX_OBSTACLES: usize = 65_535;

/// How one obstacle came through a frame.
#[derive(Clone, Copy, Debug, PartialEq, Eq, Structural)]
pub enum Pass {
    /// It left the screen on the left and was put back beyond the right edge.
    Recycled,
    /// It stayed on screen and does not touch the player.
    Clear,
    /// It stayed on screen and its leading edge is inside the player's footprint.
    Hit,
}

/// Whether a round goes on after a frame.
#[derive(Clone, Copy, Debug, PartialEq, Eq, Structural)]
pub enum RoundOutcome {
    Continuing,
    Collided,
}

/// The ramp `elapsed_ns` nanoseconds into the round: `RAMP_SCALE` times the seventh
/// root of the age in seconds, rounded down.
pub open spec fn ramp(elapsed_ns: int) -> int {
    root7_floor(elapsed_ns * RAMP_ARGUMENT_SCALE)
}

/// Distance every obstacle moves left in a frame of `dt_ns` nanoseconds that starts
/// `elapsed_ns` nanoseconds into the round, rounded down.
pub open spec fn scroll_distance(dt_ns: int, elapsed_ns: int) -> int {
    (SCROLL_SPEED * dt_ns * ramp(elapsed_ns)) / (SCROLL_DIVISOR as int)
}

/// Whether an obstacle at `x` of the given width has wholly left the screen.
pub open spec fn off_screen(x: int, width: int) -> bool {
    x + width <= 0
}

/// Whether an obstacle whose leading edge is at `x` touches the player: the edge is
/// inside the player's footprint, its left end excluded, and the player is not above
/// the obstacle.
pub open spec fn overlaps(player: PlayerState, x: int, height: int) -> bool {
    &&& x <= player.body.width + player.body.x
    &&& x > player.body.x
    &&& player.body.y <= height
}

/// How `ob` comes through a frame in which it moves left by `dx`.
pub open spec fn pass_of(ob: Drawable, player: PlayerState, dx: int) -> Pass {
    let x = saturate(ob.x - dx);
    if off_screen(x, ob.width as int) {
        Pass::Recycled
    } else if overlaps(player, x, ob.height as int) {
        Pass::Hit
    } else {
        Pass::Clear
    }
}

/// `ob` after a frame in which it moves left by `dx` and, should it leave the
/// screen, is put back at `respawn`.
pub open spec fn passed(ob: Drawable, dx: int, respawn: int) -> Drawable {
    let x = saturate(ob.x - dx);
    Drawable { x: (if off_screen(x, ob.width as int) { respawn } else { x }) as i64, ..ob }
}

/// The state of a sweep over the obstacle pool.
pub struct Sweep {
    /// The pool, with the obstacles passed so far moved.
    pub obstacles: Seq<Drawable>,
    /// Sum of the gaps of the obstacles recycled so far.
    pub offset: int,
    /// Whether the obstacle passed last hit the player.
    pub hit: bool,
}

/// The sweep after the first `k` obstacles, in pool order. It stops at the first
/// hit. An obstacle that is recycled is put back at `edge` plus the gaps of those
/// recycled before it in this sweep; `gaps[i]` is the gap that obstacle `i` adds.
pub open spec fn sweep(
    obstacles: Seq<Drawable>,
    k: int,
    player: PlayerState,
    dx: int,
    edge: int,
    gaps: Seq<i64>,
) -> Sweep
    decreases k,
{
    if k <= 0 {
        Sweep { obstacles, offset: 0, hit: false }
    } else {
        let before = sweep(obstacles, k - 1, player, dx, edge, gaps);
        if before.hit {
            before
        } else {
            let ob = before.obstacles[k - 1];
            let pass = pass_of(ob, player, dx);
            Sweep {
                obstacles: before.obstacles.update(k - 1, passed(ob, dx, edge + before.offset)),
                offset: if pass is Recycled {
                    before.offset + gaps[k - 1]
                } else {
                    before.offset
                },
                hit: pass is Hit,
            }
        }
    }
}

/// Every gap of `gaps` lies in the gap range, and there is one per obstacle.
pub open spec fn gaps_valid(gaps: Seq<i64>, count: nat) -> bool {
    &&& gaps.len() == count
    &&& forall|i: int| 0 <= i < gaps.len() ==> GAP_MIN <= #[trigger] gaps[i] < GAP_MAX
}

/// Computes the ramp `elapsed_ns` nanoseconds into the round.
pub fn speed_ramp(elapsed_ns: u64) -> (r: u32)
    ensures
        r == ramp(elapsed_ns as int),
        r < 32_768,
{
    assert((elapsed_ns as int) * (RAMP_ARGUMENT_SCALE as int)
        < 0x100_0000_0000_0000_0000_0000_0000) by (nonlinear_arith)
        requires
            0 <= elapsed_ns < 0x1_0000_0000_0000_0000,
            RAMP_ARGUMENT_SCALE == 1_000_000_000_000,
    ;
    seventh_root((elapsed_ns as u128) * RAMP_ARGUMENT_SCALE)
}

/// Computes the distance every obstacle moves left in one frame.
pub fn scroll_step(dt_ns: u64, elapsed_ns: u64) -> (dx: i128)
    ensures
        dx == scroll_distance(dt_ns as int, elapsed_ns as int),
        0 <= dx < 0x10_0000_0000_0000_0000,
{
    let r: i128 = speed_ramp(elapsed_ns) as i128;
    let dt: i128 = dt_ns as i128;
    assert(0 <= SCROLL_SPEED * dt < 0x1000_0000_0000_0000_0000_0000) by (nonlinear_arith)
        requires
            SCROLL_SPEED == 150_000_000,
            0 <= dt < 0x1_0000_0000_0000_0000,
    ;
    let rate: i128 = (SCROLL_SPEED as i128) * dt;
    assert(0 <= rate * r < 0x800_0000_0000_0000_0000_0000_0000) by (nonlinear_arith)
        requires
            0 <= rate < 0x1000_0000_0000_0000_0000_0000,
            0 <= r < 32_768,
    ;
    (rate * r) / SCROLL_DIVISOR
}

/// Passes one obstacle through a frame: it moves left by `dx`; if it has then wholly
/// left the screen it is put back at `respawn`, else it is tested against the player.
pub fn advance_obstacle(ob: &mut Drawable, player: &PlayerState, dx: i128, respawn: i64) -> (pass:
    Pass)
    requires
        old(ob).wf(),
        player.wf(),
        0 <= dx < 0x10_0000_0000_0000_0000,
        in_range(respawn as int),
    ensures
        pass == pass_of(*old(ob), *player, dx as int),
        *final(ob) == passed(*old(ob), dx as int, respawn as int),
        final(ob).wf(),
        pass is Recycled ==> final(ob).x == respawn,
{
    let x: i64 = saturate_wide(ob.x as i128 - dx);
    if x + ob.width <= 0 {
        ob.x = respawn;
        Pass::Recycled
    } else {
        ob.x = x;
        if x <= player.body.width + player.body.x && x > player.body.x && player.body.y
            <= ob.height {
            Pass::Hit
        } else {
            Pass::Clear
        }
    }
}

/// The sweep over the first `k` obstacles reads no gap beyond the first `k`.
pub proof fn lemma_sweep_reads_prefix(
    obstacles: Seq<Drawable>,
    k: int,
    player: PlayerState,
    dx: int,
    edge: int,
    a: Seq<i64>,
    b: Seq<i64>,
)
    requires
        forall|i: int| 0 <= i < k ==> a[i] == b[i],
    ensures
        sweep(obstacles, k, player, dx, edge, a) == sweep(obstacles, k, player, dx, edge, b),
    decreases k,
{
    if k > 0 {
        lemma_sweep_reads_prefix(obstacles, k - 1, player, dx, edge, a, b);
    }
}

/// A sweep that has met a hit passes no further obstacle.
pub proof fn lemma_sweep_stops_at_hit(
    obstacles: Seq<Drawable>,
    k: int,
    m: int,
    player: PlayerState,
    dx: int,
    edge: int,
    gaps: Seq<i64>,
)
    requires
        0 <= k <= m,
        sweep(obstacles, k, player, dx, edge, gaps).hit,
    ensures
        sweep(obstacles, m, player, dx, edge, gaps) == sweep(obstacles, k, player, dx, edge, gaps),
    decreases m - k,
{
    if m > k {
        lemma_sweep_stops_at_hit(obstacles, k, m - 1, player, dx, edge, gaps);
    }
}

/// A sweep keeps the size of the pool, leaves the obstacles it has not reached as
/// they were, and has added at most one gap per obstacle passed.
pub proof fn lemma_sweep_shape(
    obstacles: Seq<Drawable>,
    k: int,
    player: PlayerState,
    dx: int,
    edge: int,
    gaps: Seq<i64>,
)
    requires
        0 <= k <= obstacles.len(),
        gaps_valid(gaps, obstacles.len()),
    ensures
        sweep(obstacles, k, player, dx, edge, gaps).obstacles.len() == obstacles.len(),
        forall|j: int|
            k <= j < obstacles.len() ==> sweep(obstacles, k, player, dx, edge, gaps).obstacles[j]
                == obstacles[j],
        0 <= sweep(obstacles, k, player, dx, edge, gaps).offset <= k * GAP_MAX,
    decreases k,
{
    if k > 0 {
        lemma_sweep_shape(obstacles, k - 1, player, dx, edge, gaps);
    }
}

/// An obstacle that a sweep has passed is not touched again later in the sweep.
pub proof fn lemma_sweep_settles(
    obstacles: Seq<Drawable>,
    k: int,
    m: int,
    player: PlayerState,
    dx: int,
    edge: int,
    gaps: Seq<i64>,
    j: int,
)
    requires
        0 <= j < k <= m <= obstacles.len(),
        gaps_valid(gaps, obstacles.len()),
    ensures
        sweep(obstacles, m, player, dx, edge, gaps).obstacles[j] == sweep(
            obstacles,
            k,
            player,
            dx,
            edge,
            gaps,
        ).obstacles[j],
    decreases m - k,
{
    if m > k {
        lemma_sweep_settles(obstacles, k, m - 1, player, dx, edge, gaps, j);
        lemma_sweep_shape(obstacles, m - 1, player, dx, edge, gaps);
    }
}

/// A sweep ends in a hit exactly if some obstacle it covers, moved left from where it
/// stood before the sweep, stays on screen and touches the player. Neither the gaps
/// nor which obstacles are recycled bear on it.
pub proof fn lemma_sweep_hit_iff(
    obstacles: Seq<Drawable>,
    k: int,
    player: PlayerState,
    dx: int,
    edge: int,
    gaps: Seq<i64>,
)
    requires
        0 <= k <= obstacles.len(),
        gaps_valid(gaps, obstacles.len()),
    ensures
        sweep(obstacles, k, player, dx, edge, gaps).hit <==> exists|i: int|
            0 <= i < k && #[trigger] pass_of(obstacles[i], player, dx) is Hit,
    decreases k,
{
    if k > 0 {
        lemma_sweep_hit_iff(obstacles, k - 1, player, dx, edge, gaps);
        lemma_sweep_shape(obstacles, k - 1, player, dx, edge, gaps);
        let before = sweep(obstacles, k - 1, player, dx, edge, gaps);
        assert(before.obstacles[k - 1] == obstacles[k - 1]);
        if sweep(obstacles, k, player, dx, edge, gaps).hit {
            if !before.hit {
                assert(pass_of(obstacles[k - 1], player, dx) is Hit);
            }
        }
    }
}

/// An obstacle that a sweep reaches and that has left the screen is put back at the
/// right edge or beyond it, by less than one full gap per obstacle of the pool, and
/// the sweep does not end in a hit at it.
pub proof fn lemma_sweep_recycles_beyond_edge(
    obstacles: Seq<Drawable>,
    player: PlayerState,
    dx: int,
    edge: int,
    gaps: Seq<i64>,
    i: int,
)
    requires
        0 <= i < obstacles.len(),
        gaps_valid(gaps, obstacles.len()),
        0 <= edge,
        edge + obstacles.len() * GAP_MAX <= COORD_LIMIT,
        !sweep(obstacles, i, player, dx, edge, gaps).hit,
        pass_of(obstacles[i], player, dx) is Recycled,
    ensures
        edge <= sweep(obstacles, obstacles.len() as int, player, dx, edge, gaps).obstacles[i].x
            <= edge + i * GAP_MAX,
        !sweep(obstacles, i + 1, player, dx, edge, gaps).hit,
{
    let n = obstacles.len() as int;
    lemma_sweep_shape(obstacles, i, player, dx, edge, gaps);
    lemma_sweep_settles(obstacles, i + 1, n, player, dx, edge, gaps, i);
    let before = sweep(obstacles, i, player, dx, edge, gaps);
    assert(before.obstacles[i] == obstacles[i]);
    assert(i * GAP_MAX <= n * GAP_MAX) by (nonlinear_arith)
        requires
            0 <= i <= n,
            GAP_MAX == 500_000_000,
    ;
}

} // verus!
