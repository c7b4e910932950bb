//! The player: falling under the height-scaled pull, and the charge-jump impulse.

use crate::entity::{Color, Drawable, Sprite};
use crate::roots::{
    is_sqrt, lemma_sqrt_exists, lemma_square_monotonic, lemma_sqrt_unique, sqrt_floor,
    square_root,
};
use crate::units::{
    floor_div, in_range, saturate, saturate_wide, COORD_LIMIT, NANOS_PER_SECOND,
};
use vstd::prelude::*;

verus! {

/// Strength of the downward pull, per second squared and per unit of height.
pub const GRAVITY_ACCEL: i64 = 30;

/// Upward velocity of a full-charge jump, in position units per second.
pub const JUMP_SCALE: i64 = 400_000_000;

/// Shortest charge that counts, in milliseconds; shorter holds are raised to it.
pub const MIN_CHARGE_MS: u64 = 50;

/// Longest charge that counts, in milliseconds; longer holds are cut to it.
pub const MAX_CHARGE_MS: u64 = 120;

/// Fixed horizontal position of the player, in position units.
pub const PLAYER_OFFSET: i64 = 10_000_000;

/// Width and height of the player's collision footprint, in position units.
pub const PLAYER_SIZE: i64 = 9_000_000;

/// The square of `JUMP_SCALE`.
pub const JUMP_SCALE_SQUARED: u64 = 160_000_000_000_000_000;

/// Velocity lost to the pull over `dt` nanoseconds at height `y`, rounded down.
pub open spec fn pull(y: int, dt: int) -> int {
    (GRAVITY_ACCEL * dt * y) / (NANOS_PER_SECOND as int)
}

/// Distance covered at velocity `v` over `dt` nanoseconds, rounded down.
pub open spec fn drift(v: int, dt: int) -> int {
    (v * dt) / (NANOS_PER_SECOND as int)
}

/// Velocity after the pull has acted, before the ground is considered.
pub open spec fn falling_velocity(y: int, v: int, dt: int) -> int {
    saturate(v - pull(y, dt))
}

/// Height after moving at the new velocity, before the ground is considered.
pub open spec fn falling_height(y: int, v: int, dt: int) -> int {
    saturate(y + drift(falling_velocity(y, v, dt), dt))
}

/// Whether the step ends on the ground.
pub open spec fn lands(y: int, v: int, dt: int) -> bool {
    falling_height(y, v, dt) <= 0
}

/// Height at the end of the step.
pub open spec fn next_height(y: int, v: int, dt: int) -> int {
    if lands(y, v, dt) {
        0
    } else {
        falling_height(y, v, dt)
    }
}

/// Velocity at the end of the step.
pub open spec fn next_velocity(y: int, v: int, dt: int) -> int {
    if lands(y, v, dt) {
        0
    } else {
        falling_velocity(y, v, dt)
    }
}

/// A hold duration brought into the range that counts.
pub open spec fn clamp_charge(held_ms: int) -> int {
    if held_ms < MIN_CHARGE_MS {
        MIN_CHARGE_MS as int
    } else if held_ms > MAX_CHARGE_MS {
        MAX_CHARGE_MS as int
    } else {
        held_ms
    }
}

/// The square of the impulse for a hold of `held_ms`, rounded down.
pub open spec fn impulse_squared(held_ms: int) -> int {
    (JUMP_SCALE_SQUARED * clamp_charge(held_ms)) / (MAX_CHARGE_MS as int)
}

/// Upward velocity gained from a hold of `held_ms`: `JUMP_SCALE` times the square
/// root of the clamped hold over the longest hold, rounded down.
pub open spec fn impulse(held_ms: int) -> int {
    sqrt_floor(impulse_squared(held_ms))
}

/// The player's body and vertical velocity.
#[derive(Clone, Copy, Debug, PartialEq, Eq)]
pub struct PlayerState {
    pub body: Drawable,
    pub velocity: i64,
}

/// The player after `dt` nanoseconds of falling.
pub open spec fn fallen(p: PlayerState, dt: int) -> PlayerState {
    PlayerState {
        body: Drawable {
            y: next_height(p.body.y as int, p.velocity as int, dt) as i64,
            needs_redraw: true,
            ..p.body
        },
        velocity: next_velocity(p.body.y as int, p.velocity as int, dt) as i64,
    }
}

/// The player after a jump charged for `held_ms` milliseconds was fired: on the
/// ground the velocity gains the impulse and nothing else changes.
pub open spec fn jumped(p: PlayerState, held_ms: int) -> PlayerState {
    if p.body.y == 0 {
        PlayerState { body: p.body, velocity: saturate(p.velocity + impulse(held_ms)) as i64 }
    } else {
        p
    }
}

/// Computes the impulse for a hold of `held_ms` milliseconds.
pub fn jump_impulse(held_ms: u64) -> (v: i64)
    ensures
        v == impulse(held_ms as int),
        0 <= v <= JUMP_SCALE,
{
    let clamped: u64 = if held_ms < MIN_CHARGE_MS {
        MIN_CHARGE_MS
    } else if held_ms > MAX_CHARGE_MS {
        MAX_CHARGE_MS
    } else {
        held_ms
    };
    let scaled: u128 = (JUMP_SCALE_SQUARED as u128) * (clamped as u128);
    let squared: u64 = (scaled / (MAX_CHARGE_MS as u128)) as u64;
    let root: u32 = square_root(squared);
    proof {
        assert(squared as int == impulse_squared(held_ms as int));
        if root as int > JUMP_SCALE {
            lemma_square_monotonic(JUMP_SCALE as int + 1, root as int);
        }
    }
    root as i64
}

impl PlayerState {
    /// The body is well formed and the velocity lies in the coordinate range.
    pub open spec fn wf(&self) -> bool {
        self.body.wf() && in_range(self.velocity as int)
    }

    /// Whether the player stands on the ground.
    pub open spec fn grounded(&self) -> bool {
        self.body.y == 0
    }

    /// Tells whether the player is well formed.
    pub fn is_valid(&self) -> (ok: bool)
        ensures
            ok == self.wf(),
    {
        self.body.is_valid() && -COORD_LIMIT <= self.velocity && self.velocity <= COORD_LIMIT
    }

    /// A resting player at its fixed horizontal position.
    pub fn new(sprite: Option<Sprite>) -> (p: PlayerState)
        ensures
            p.wf(),
            p.velocity == 0,
            p.body == (Drawable {
                x: PLAYER_OFFSET,
                y: 0,
                width: PLAYER_SIZE,
                height: PLAYER_SIZE,
                color: Color { red: 255, green: 255, blue: 255 },
                surface: sprite,
                needs_redraw: true,
            }),
    {
        PlayerState {
            body: Drawable::new(PLAYER_OFFSET, 0, PLAYER_SIZE, PLAYER_SIZE, Color::white(), sprite),
            velocity: 0,
        }
    }

    /// Advances the player by `dt_ns` nanoseconds: the pull reduces the velocity in
    /// proportion to the current height, the height moves by the new velocity, and a
    /// player that reaches the ground rests there.
    pub fn fall(&mut self, dt_ns: u64)
        requires
            old(self).wf(),
        ensures
            final(self).wf(),
            *final(self) == fallen(*old(self), dt_ns as int),
            final(self).body.y == next_height(
                old(self).body.y as int,
                old(self).velocity as int,
                dt_ns as int,
            ),
            final(self).velocity == next_velocity(
                old(self).body.y as int,
                old(self).velocity as int,
                dt_ns as int,
            ),
            final(self).body == (Drawable {
                y: final(self).body.y,
                needs_redraw: true,
                ..old(self).body
            }),
            final(self).body.y >= 0,
            final(self).body.y == 0 ==> final(self).velocity == 0,
    {
        let y: i128 = self.body.y as i128;
        let v: i128 = self.velocity as i128;
        let dt: i128 = dt_ns as i128;
        assert(0 <= GRAVITY_ACCEL * dt <= 30 * 0x1_0000_0000_0000_0000) by (nonlinear_arith)
            requires
                GRAVITY_ACCEL == 30,
                0 <= dt <= 0x1_0000_0000_0000_0000,
        ;
        let rate: i128 = (GRAVITY_ACCEL as i128) * dt;
        assert(-0x4000_0000_0000_0000_0000_0000_0000_0000 < rate * y
            < 0x4000_0000_0000_0000_0000_0000_0000_0000) by (nonlinear_arith)
            requires
                0 <= rate <= 30 * 0x1_0000_0000_0000_0000,
                -0x20_0000_0000_0000 <= y <= 0x20_0000_0000_0000,
        ;
        let lost: i128 = floor_div(rate * y, NANOS_PER_SECOND as i128);
        let new_v: i64 = saturate_wide(v - lost);
        let speed: i128 = new_v as i128;
        assert(-0x4000_0000_0000_0000_0000_0000_0000_0000 < speed * dt
            < 0x4000_0000_0000_0000_0000_0000_0000_0000) by (nonlinear_arith)
            requires
                0 <= dt <= 0x1_0000_0000_0000_0000,
                -0x20_0000_0000_0000 <= speed <= 0x20_0000_0000_0000,
        ;
        let moved: i128 = floor_div(speed * dt, NANOS_PER_SECOND as i128);
        let new_y: i64 = saturate_wide(y + moved);
        if new_y <= 0 {
            self.body.y = 0;
            self.velocity = 0;
        } else {
            self.body.y = new_y;
            self.velocity = new_v;
        }
        self.body.needs_redraw = true;
    }

    /// Fires a jump charged for `held_ms` milliseconds. A grounded player gains the
    /// impulse in its velocity; a player in the air is left as it is.
    pub fn jump(&mut self, held_ms: u64)
        requires
            old(self).wf(),
        ensures
            final(self).wf(),
            *final(self) == jumped(*old(self), held_ms as int),
            !old(self).grounded() ==> *final(self) == *old(self),
            old(self).grounded() ==> final(self).body == old(self).body && final(self).velocity
                == saturate(old(self).velocity + impulse(held_ms as int)),
    {
        if self.body.y == 0 {
            let gain: i64 = jump_impulse(held_ms);
            self.velocity = saturate_wide(self.velocity as i128 + gain as i128);
        }
    }
}

/// The impulse is never negative and never more than `JUMP_SCALE`; a hold at or
/// below the shortest that counts gives the impulse of the shortest, and a hold at
/// or above the longest gives exactly `JUMP_SCALE`.
pub proof fn lemma_impulse_bounds(held_ms: int)
    ensures
        0 <= impulse(held_ms) <= JUMP_SCALE,
        held_ms <= MIN_CHARGE_MS ==> impulse(held_ms) == impulse(MIN_CHARGE_MS as int),
        held_ms >= MAX_CHARGE_MS ==> impulse(held_ms) == JUMP_SCALE,
{
    let n = impulse_squared(held_ms);
    lemma_sqrt_exists(n);
    let r = impulse(held_ms);
    if r > JUMP_SCALE {
        lemma_square_monotonic(JUMP_SCALE as int + 1, r);
    }
    if held_ms >= MAX_CHARGE_MS {
        assert(n == JUMP_SCALE * JUMP_SCALE);
        assert(is_sqrt(n, JUMP_SCALE as int)) by (nonlinear_arith)
            requires
                n == JUMP_SCALE * JUMP_SCALE,
                JUMP_SCALE == 400_000_000,
        ;
        lemma_sqrt_unique(n, JUMP_SCALE as int);
    }
}

/// Between the shortest and the longest hold that count, a longer hold gives a
/// strictly greater impulse.
pub proof fn lemma_impulse_increasing(a: int, b: int)
    requires
        MIN_CHARGE_MS <= a < b <= MAX_CHARGE_MS,
    ensures
        impulse(a) < impulse(b),
{
    let na = impulse_squared(a);
    let nb = impulse_squared(b);
    lemma_sqrt_exists(na);
    lemma_sqrt_exists(nb);
    lemma_impulse_bounds(a);
    let ra = impulse(a);
    let rb = impulse(b);
    assert(na + 2 * JUMP_SCALE + 1 <= nb);
    assert((ra + 1) * (ra + 1) == ra * ra + 2 * ra + 1) by (nonlinear_arith);
    if rb <= ra {
        lemma_square_monotonic(rb + 1, ra + 1);
    }
}

} // verus!
