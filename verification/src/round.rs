//! One round, frame by frame: the physics step, the composed frame and the pacing of
//! each tick, and the input taken between ticks.

use crate::physics::{gaps_valid, RoundOutcome};
use crate::player::{jumped, PlayerState};
use crate::render::{drawn, frame_commands, frame_dirty, timer_text, Display, Frame};
use crate::scene::{step_outcome, step_scene, Scene, SceneView};
use crate::touch::{
    after_event, after_poll, fired_by_event, fired_by_poll, ChargeController, InputEvent,
};
use crate::units::NANOS_PER_SECOND;
use vstd::prelude::*;

verus! {

/// Frames per second that the loop is capped at.
pub const TARGET_FRAME_RATE: u64 = 144;

/// Time of one frame at the target rate, in nanoseconds, rounded down.
pub const FRAME_PERIOD_NS: u64 = NANOS_PER_SECOND / TARGET_FRAME_RATE;

/// Where a round stands.
#[derive(Clone, Copy, Debug, PartialEq, Eq, Structural)]
pub enum Phase {
    Running,
    Ended,
}

/// A round: its scene, its controller, its phase and the display it is drawn on.
#[derive(Debug)]
pub struct Round {
    pub scene: Scene,
    pub controller: ChargeController,
    pub phase: Phase,
    pub display: Display,
}

/// The mathematical content of a round.
pub struct RoundView {
    pub scene: SceneView,
    pub controller: ChargeController,
    pub phase: Phase,
    pub display: Display,
}

impl View for Round {
    type V = RoundView;

    open spec fn view(&self) -> RoundView {
        RoundView {
            scene: self.scene@,
            controller: self.controller,
            phase: self.phase,
            display: self.display,
        }
    }
}

/// What a tick hands to the loop: whether the round goes on, the frame to present,
/// and how long to sleep after presenting it.
#[derive(Debug)]
pub struct Tick {
    pub outcome: RoundOutcome,
    pub frame: Frame,
    pub sleep_ns: u64,
}

/// How long to sleep after a frame that came `dt_ns` nanoseconds after the one
/// before: what is left of the frame period, or nothing if the frame took longer.
pub open spec fn pacing_sleep(dt_ns: int) -> int {
    if dt_ns < FRAME_PERIOD_NS {
        FRAME_PERIOD_NS - dt_ns
    } else {
        0
    }
}

/// The scene that a tick leaves, before it is drawn: a running round takes the
/// physics step, an ended round stands still.
pub open spec fn ticked_scene(
    r: RoundView,
    dt_ns: int,
    elapsed_ns: int,
    gaps: Seq<i64>,
) -> SceneView {
    match r.phase {
        Phase::Running => step_scene(r.scene, dt_ns, elapsed_ns, r.display.width as int, gaps),
        Phase::Ended => r.scene,
    }
}

/// What a tick reports: the outcome of the physics step of a running round, and a
/// collision for a round that has ended.
pub open spec fn ticked_outcome(
    r: RoundView,
    dt_ns: int,
    elapsed_ns: int,
    gaps: Seq<i64>,
) -> RoundOutcome {
    match r.phase {
        Phase::Running => step_outcome(r.scene, dt_ns, elapsed_ns, r.display.width as int, gaps),
        Phase::Ended => RoundOutcome::Collided,
    }
}

/// The round after a tick.
pub open spec fn ticked(r: RoundView, dt_ns: int, elapsed_ns: int, gaps: Seq<i64>) -> RoundView {
    RoundView {
        scene: drawn(ticked_scene(r, dt_ns, elapsed_ns, gaps)),
        controller: r.controller,
        phase: match ticked_outcome(r, dt_ns, elapsed_ns, gaps) {
            RoundOutcome::Continuing => Phase::Running,
            RoundOutcome::Collided => Phase::Ended,
        },
        display: r.display,
    }
}

/// Whether `tick` is what a tick with these gaps hands to the loop.
pub open spec fn tick_matches(
    tick: Tick,
    r: RoundView,
    dt_ns: int,
    elapsed_ns: int,
    gaps: Seq<i64>,
) -> bool {
    &&& tick.outcome == ticked_outcome(r, dt_ns, elapsed_ns, gaps)
    &&& tick.frame.commands@ == frame_commands(
        ticked_scene(r, dt_ns, elapsed_ns, gaps),
        r.display,
    )
    &&& tick.frame.label@ == timer_text(elapsed_ns)
    &&& tick.frame.dirty@ == frame_dirty(r.display)
    &&& tick.sleep_ns == pacing_sleep(dt_ns)
}

/// The player after a jump was fired or not.
pub open spec fn after_trigger(p: PlayerState, fired: Option<u64>) -> PlayerState {
    match fired {
        Some(held) => jumped(p, held as int),
        None => p,
    }
}

/// Controller and player after a run of events, taken in order.
pub open spec fn after_events(
    c: ChargeController,
    p: PlayerState,
    events: Seq<InputEvent>,
) -> (ChargeController, PlayerState)
    decreases events.len(),
{
    if events.len() == 0 {
        (c, p)
    } else {
        let (c1, p1) = after_events(c, p, events.drop_last());
        (after_event(c1, events.last()), after_trigger(p1, fired_by_event(c1, events.last())))
    }
}

/// Controller and player after the input of one tick: the events of the first
/// stream, then those of the second, then the release timeout at `now_ns`.
pub open spec fn after_input(
    c: ChargeController,
    p: PlayerState,
    first: Seq<InputEvent>,
    second: Seq<InputEvent>,
    now_ns: int,
) -> (ChargeController, PlayerState) {
    let (c1, p1) = after_events(c, p, first);
    let (c2, p2) = after_events(c1, p1, second);
    (after_poll(c2, now_ns), after_trigger(p2, fired_by_poll(c2, now_ns)))
}

/// Computes how long to sleep after a frame.
pub fn frame_sleep(dt_ns: u64) -> (ns: u64)
    ensures
        ns == pacing_sleep(dt_ns as int),
{
    if dt_ns < FRAME_PERIOD_NS {
        FRAME_PERIOD_NS - dt_ns
    } else {
        0
    }
}

impl Round {
    /// A running round with no digitizer bound and no touch held.
    pub fn new(scene: Scene, display: Display) -> (r: Round)
        ensures
            r@ == (RoundView {
                scene: scene@,
                controller: ChargeController { digitizer: None, charge: crate::touch::Charge::Idle },
                phase: Phase::Running,
                display,
            }),
    {
        Round { scene, controller: ChargeController::new(), phase: Phase::Running, display }
    }

    fn tick_inner(&mut self, dt_ns: u64, elapsed_ns: u64, gaps: Option<&Vec<i64>>) -> (res: (
        Tick,
        Ghost<Seq<i64>>,
    ))
        requires
            old(self)@.scene.wf(),
            gaps matches Some(g) ==> gaps_valid(g@, old(self)@.scene.obstacles.len()),
        ensures
            final(self)@.scene.wf(),
            gaps_valid(res.1@, old(self)@.scene.obstacles.len()),
            gaps matches Some(g) ==> res.1@ == g@,
            final(self)@ == ticked(old(self)@, dt_ns as int, elapsed_ns as int, res.1@),
            tick_matches(res.0, old(self)@, dt_ns as int, elapsed_ns as int, res.1@),
    {
        let outcome: RoundOutcome;
        let used: Ghost<Seq<i64>>;
        match self.phase {
            Phase::Running => {
                let res = self.scene.step_inner(dt_ns, elapsed_ns, self.display.width, gaps);
                outcome = res.0;
                used = res.1;
            },
            Phase::Ended => {
                outcome = RoundOutcome::Collided;
                used = Ghost(
                    match gaps {
                        Some(g) => g@,
                        None => Seq::new(
                            old(self)@.scene.obstacles.len(),
                            |i: int| crate::physics::GAP_MIN,
                        ),
                    },
                );
            },
        }
        let frame = self.scene.draw(&self.display, elapsed_ns);
        match outcome {
            RoundOutcome::Continuing => {},
            RoundOutcome::Collided => {
                self.phase = Phase::Ended;
            },
        }
        (Tick { outcome, frame, sleep_ns: frame_sleep(dt_ns) }, used)
    }

    /// One tick with the gaps given: `gaps[i]` is what obstacle `i` adds to the offset
    /// if it is recycled in this frame.
    pub fn tick_with(&mut self, dt_ns: u64, elapsed_ns: u64, gaps: &Vec<i64>) -> (tick: Tick)
        requires
            old(self)@.scene.wf(),
            gaps_valid(gaps@, old(self)@.scene.obstacles.len()),
        ensures
            final(self)@.scene.wf(),
            final(self)@ == ticked(old(self)@, dt_ns as int, elapsed_ns as int, gaps@),
            tick_matches(tick, old(self)@, dt_ns as int, elapsed_ns as int, gaps@),
    {
        let res = self.tick_inner(dt_ns, elapsed_ns, Some(gaps));
        res.0
    }

    /// One tick of a frame that comes `dt_ns` nanoseconds after the one before,
    /// `elapsed_ns` nanoseconds into the round. A running round takes the physics
    /// step, with random gaps between the obstacles recycled, and ends if the player
    /// was hit; then the frame is composed and the pacing sleep computed.
    pub fn tick(&mut self, dt_ns: u64, elapsed_ns: u64) -> (tick: Tick)
        requires
            old(self)@.scene.wf(),
        ensures
            final(self)@.scene.wf(),
            exists|gaps: Seq<i64>|
                {
                    &&& gaps_valid(gaps, old(self)@.scene.obstacles.len())
                    &&& final(self)@ == #[trigger] ticked(
                        old(self)@,
                        dt_ns as int,
                        elapsed_ns as int,
                        gaps,
                    )
                    &&& tick_matches(tick, old(self)@, dt_ns as int, elapsed_ns as int, gaps)
                },
    {
        let res = self.tick_inner(dt_ns, elapsed_ns, None);
        res.0
    }

    fn take_events(&mut self, events: &Vec<InputEvent>)
        requires
            old(self)@.scene.wf(),
        ensures
            final(self)@.scene.wf(),
            (final(self).controller, final(self).scene.player) == after_events(
                old(self).controller,
                old(self).scene.player,
                events@,
            ),
            final(self).scene.obstacles == old(self).scene.obstacles,
            final(self).scene.font == old(self).scene.font,
            final(self).phase == old(self).phase,
            final(self).display == old(self).display,
    {
        let n: usize = events.len();
        let mut i: usize = 0;
        while i < n
            invariant
                i <= n,
                n == events@.len(),
                self@.scene.wf(),
                (self.controller, self.scene.player) == after_events(
                    old(self).controller,
                    old(self).scene.player,
                    events@.take(i as int),
                ),
                self.scene.obstacles == old(self).scene.obstacles,
                self.scene.font == old(self).scene.font,
                self.phase == old(self).phase,
                self.display == old(self).display,
            decreases n - i,
        {
            let fired = self.controller.on_event(&events[i]);
            if let Some(held) = fired {
                self.scene.player.jump(held);
            }
            proof {
                let longer = events@.take(i + 1);
                assert(longer.drop_last() =~= events@.take(i as int));
                assert(longer.last() == events@[i as int]);
            }
            i = i + 1;
        }
        proof {
            assert(events@.take(n as int) =~= events@);
        }
    }

    /// Takes the input of one tick: every event of the first stream in order, then
    /// every event of the second, then the release timeout at `now_ns`. Each jump
    /// that is fired acts on the player at once.
    pub fn handle_input(&mut self, first: &Vec<InputEvent>, second: &Vec<InputEvent>, now_ns: u64)
        requires
            old(self)@.scene.wf(),
        ensures
            final(self)@.scene.wf(),
            (final(self).controller, final(self).scene.player) == after_input(
                old(self).controller,
                old(self).scene.player,
                first@,
                second@,
                now_ns as int,
            ),
            final(self).scene.obstacles == old(self).scene.obstacles,
            final(self).scene.font == old(self).scene.font,
            final(self).phase == old(self).phase,
            final(self).display == old(self).display,
    {
        self.take_events(first);
        self.take_events(second);
        let fired = self.controller.poll(now_ns);
        if let Some(held) = fired {
            self.scene.player.jump(held);
        }
    }
}

} // verus!
