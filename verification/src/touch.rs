//! The charge-jump controller: which device is the digitizer, how long a touch has
//! been held, and when a jump is fired.

use crate::player::MAX_CHARGE_MS;
use vstd::prelude::*;
use vstd::string::StrSliceExecFns;

verus! {

/// Nanoseconds per millisecond.
pub const NANOS_PER_MILLI: u64 = 1_000_000;

/// What an input stream reports. Touch events carry the time of their arrival, in
/// nanoseconds since the round began.
#[derive(Debug)]
pub enum InputEvent {
    DeviceAdded { device: u32, name: String },
    TouchDown { device: u32, at_ns: u64 },
    TouchMotion { device: u32, at_ns: u64 },
    TouchUp { device: u32, at_ns: u64 },
    Other,
}

/// Whether a touch is being held, and since when.
#[derive(Clone, Copy, Debug, PartialEq, Eq, Structural)]
pub enum Charge {
    Idle,
    Charging { started_at: u64 },
}

/// The controller's state: the device bound as the digitizer, if any, and the charge.
#[derive(Clone, Copy, Debug, PartialEq, Eq)]
pub struct ChargeController {
    pub digitizer: Option<u32>,
    pub charge: Charge,
}

/// Whether `needle` occurs in `hay` as a run of consecutive characters.
pub open spec fn has_substring(hay: Seq<char>, needle: Seq<char>) -> bool {
    exists|k: int| occurs_at(hay, needle, k)
}

/// Whether `needle` occurs in `hay` starting at position `k`.
pub open spec fn occurs_at(hay: Seq<char>, needle: Seq<char>, k: int) -> bool {
    0 <= k && k + needle.len() <= hay.len() && hay.subrange(k, k + needle.len()) == needle
}

/// What the name of the digitizer contains.
pub open spec fn digitizer_mark() -> Seq<char> {
    " Touch Bar"@
}

/// Whether a device of this name is the digitizer.
pub open spec fn names_digitizer(name: Seq<char>) -> bool {
    has_substring(name, digitizer_mark())
}

/// Whole milliseconds from `started_at` to `now`, both in nanoseconds; none if `now`
/// is the earlier of the two.
pub open spec fn held_ms(started_at: int, now: int) -> int {
    if now >= started_at {
        (now - started_at) / (NANOS_PER_MILLI as int)
    } else {
        0
    }
}

/// Whether a touch event of `device` is one the controller listens to.
pub open spec fn from_digitizer(c: ChargeController, device: u32) -> bool {
    c.digitizer == Some(device)
}

/// The controller after an event.
pub open spec fn after_event(c: ChargeController, e: InputEvent) -> ChargeController {
    match e {
        InputEvent::DeviceAdded { device, name } => if names_digitizer(name@) {
            ChargeController { digitizer: Some(device), charge: c.charge }
        } else {
            c
        },
        InputEvent::TouchDown { device, at_ns } => if from_digitizer(c, device) && c.charge
            is Idle {
            ChargeController { digitizer: c.digitizer, charge: Charge::Charging { started_at: at_ns } }
        } else {
            c
        },
        InputEvent::TouchMotion { device, at_ns } => if from_digitizer(c, device) && c.charge
            is Idle {
            ChargeController { digitizer: c.digitizer, charge: Charge::Charging { started_at: at_ns } }
        } else {
            c
        },
        InputEvent::TouchUp { device, at_ns } => if from_digitizer(c, device) {
            ChargeController { digitizer: c.digitizer, charge: Charge::Idle }
        } else {
            c
        },
        InputEvent::Other => c,
    }
}

/// The hold, in milliseconds, of the jump that an event fires, if it fires one.
pub open spec fn fired_by_event(c: ChargeController, e: InputEvent) -> Option<u64> {
    match e {
        InputEvent::TouchUp { device, at_ns } => match c.charge {
            Charge::Charging { started_at } => if from_digitizer(c, device) {
                Some(held_ms(started_at as int, at_ns as int) as u64)
            } else {
                None
            },
            Charge::Idle => None,
        },
        _ => None,
    }
}

/// Whether a charge has been held for the longest hold that counts by `now_ns`.
pub open spec fn overdue(c: ChargeController, now_ns: int) -> bool {
    c.charge matches Charge::Charging { started_at } && held_ms(started_at as int, now_ns)
        >= MAX_CHARGE_MS
}

/// The controller after the release timeout was evaluated at `now_ns`.
pub open spec fn after_poll(c: ChargeController, now_ns: int) -> ChargeController {
    if overdue(c, now_ns) {
        ChargeController { digitizer: c.digitizer, charge: Charge::Idle }
    } else {
        c
    }
}

/// The hold of the jump that the release timeout fires at `now_ns`, if it fires one.
pub open spec fn fired_by_poll(c: ChargeController, now_ns: int) -> Option<u64> {
    if overdue(c, now_ns) {
        Some(MAX_CHARGE_MS)
    } else {
        None
    }
}

/// Tells whether `needle` occurs in `hay`.
pub fn contains(hay: &str, needle: &str) -> (found: bool)
    ensures
        found == has_substring(hay@, needle@),
{
    let n: usize = hay.unicode_len();
    let m: usize = needle.unicode_len();
    if m > n {
        return false;
    }
    let mut k: usize = 0;
    while k <= n - m
        invariant
            n == hay@.len(),
            m == needle@.len(),
            m <= n,
            k <= n - m + 1,
            forall|j: int| 0 <= j < k ==> !occurs_at(hay@, needle@, j),
        decreases n - m + 1 - k,
    {
        let mut i: usize = 0;
        while i < m && hay.get_char(k + i) == needle.get_char(i)
            invariant
                n == hay@.len(),
                m == needle@.len(),
                k + m <= n,
                i <= m,
                forall|t: int| 0 <= t < i ==> hay@[k + t] == needle@[t],
            decreases m - i,
        {
            i = i + 1;
        }
        if i == m {
            proof {
                assert(hay@.subrange(k as int, k + m) =~= needle@);
                assert(occurs_at(hay@, needle@, k as int));
            }
            return true;
        }
        proof {
            assert(hay@.subrange(k as int, k + m)[i as int] == hay@[k + i]);
        }
        k = k + 1;
    }
    false
}

/// Tells whether a device of this name is the digitizer.
pub fn is_digitizer_name(name: &str) -> (yes: bool)
    ensures
        yes == names_digitizer(name@),
{
    contains(name, " Touch Bar")
}

/// Computes the whole milliseconds from `started_at` to `now`.
pub fn elapsed_ms(started_at: u64, now: u64) -> (ms: u64)
    ensures
        ms == held_ms(started_at as int, now as int),
{
    if now >= started_at {
        (now - started_at) / NANOS_PER_MILLI
    } else {
        0
    }
}

impl ChargeController {
    /// A controller with no digitizer bound and no touch held.
    pub fn new() -> (c: ChargeController)
        ensures
            c == (ChargeController { digitizer: None, charge: Charge::Idle }),
    {
        ChargeController { digitizer: None, charge: Charge::Idle }
    }

    fn listens_to(&self, device: u32) -> (yes: bool)
        ensures
            yes == from_digitizer(*self, device),
    {
        match self.digitizer {
            Some(bound) => bound == device,
            None => false,
        }
    }

    /// Takes one event. A device whose name marks it as the digitizer is bound; a
    /// touch of the digitizer starts a charge if none is running; its release ends the
    /// charge and fires a jump with the time held. Everything else is ignored.
    pub fn on_event(&mut self, event: &InputEvent) -> (fired: Option<u64>)
        ensures
            *final(self) == after_event(*old(self), *event),
            fired == fired_by_event(*old(self), *event),
    {
        match event {
            InputEvent::DeviceAdded { device, name } => {
                if is_digitizer_name(name.as_str()) {
                    self.digitizer = Some(*device);
                }
                None
            },
            InputEvent::TouchDown { device, at_ns } => {
                if self.listens_to(*device) {
                    if let Charge::Idle = self.charge {
                        self.charge = Charge::Charging { started_at: *at_ns };
                    }
                }
                None
            },
            InputEvent::TouchMotion { device, at_ns } => {
                if self.listens_to(*device) {
                    if let Charge::Idle = self.charge {
                        self.charge = Charge::Charging { started_at: *at_ns };
                    }
                }
                None
            },
            InputEvent::TouchUp { device, at_ns } => {
                if self.listens_to(*device) {
                    match self.charge {
                        Charge::Charging { started_at } => {
                            self.charge = Charge::Idle;
                            Some(elapsed_ms(started_at, *at_ns))
                        },
                        Charge::Idle => None,
                    }
                } else {
                    None
                }
            },
            InputEvent::Other => None,
        }
    }

    /// Evaluates the release timeout: a charge held for `MAX_CHARGE_MS` or longer is
    /// ended and fires a jump with exactly `MAX_CHARGE_MS`.
    pub fn poll(&mut self, now_ns: u64) -> (fired: Option<u64>)
        ensures
            *final(self) == after_poll(*old(self), now_ns as int),
            fired == fired_by_poll(*old(self), now_ns as int),
    {
        match self.charge {
            Charge::Charging { started_at } => {
                if elapsed_ms(started_at, now_ns) >= MAX_CHARGE_MS {
                    self.charge = Charge::Idle;
                    Some(MAX_CHARGE_MS)
                } else {
                    None
                }
            },
            Charge::Idle => None,
        }
    }
}

/// A charge that is not released ends by itself: once the whole milliseconds since
/// it began reach `MAX_CHARGE_MS`, evaluating the timeout ends the charge and fires
/// a jump with exactly `MAX_CHARGE_MS`; before that it does nothing.
pub proof fn lemma_release_timeout(c: ChargeController, started_at: u64, now_ns: u64)
    requires
        c.charge == (Charge::Charging { started_at }),
    ensures
        now_ns - started_at >= MAX_CHARGE_MS * NANOS_PER_MILLI ==> after_poll(
            c,
            now_ns as int,
        ).charge is Idle && fired_by_poll(c, now_ns as int) == Some(MAX_CHARGE_MS),
        now_ns - started_at < MAX_CHARGE_MS * NANOS_PER_MILLI ==> after_poll(c, now_ns as int)
            == c && fired_by_poll(c, now_ns as int) is None,
{
}

/// A touch event of a device that is not bound as the digitizer changes nothing and
/// fires nothing; so does every touch event while no digitizer is bound.
pub proof fn lemma_foreign_touch_ignored(c: ChargeController, e: InputEvent)
    requires
        match e {
            InputEvent::TouchDown { device, .. } => c.digitizer != Some(device),
            InputEvent::TouchMotion { device, .. } => c.digitizer != Some(device),
            InputEvent::TouchUp { device, .. } => c.digitizer != Some(device),
            _ => false,
        },
    ensures
        after_event(c, e) == c,
        fired_by_event(c, e) is None,
{
}

} // verus!
