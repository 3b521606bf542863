//! Traffic signals. One signal stands at each approach to the junction; all
//! four share one fixed period and flip between red and green when their
//! tick counter reaches it. The north and south signals start green and the
//! east and west signals start red, so the two axes alternate in opposition
//! without any cross-coordination.

use vstd::prelude::*;
use crate::geometry::Point;
use crate::direction::Direction;

verus! {

/// Number of ticks between two flips of a signal.
pub const SIGNAL_PERIOD: u32 = 200;

#[derive(Clone, Copy, Debug, PartialEq, Eq, Structural)]
pub enum TrafficLightState {
    Red,
    Green,
}

#[derive(Clone, Copy, Debug, PartialEq, Eq, Structural)]
pub struct TrafficLight {
    /// Physical location of the signal, which also marks the junction entry
    /// of the approach it governs; vehicles find their signal by it.
    pub position: Point,
    pub state: TrafficLightState,
    /// Ticks since the last flip; always below `SIGNAL_PERIOD`.
    pub timer: u32,
    /// The approach this signal governs.
    pub direction: Direction,
}

pub open spec fn flipped(s: TrafficLightState) -> TrafficLightState {
    match s {
        TrafficLightState::Red => TrafficLightState::Green,
        TrafficLightState::Green => TrafficLightState::Red,
    }
}

/// The signal after one tick: the counter advances, and on reaching the
/// period it resets and the state flips.
pub open spec fn advance_spec(l: TrafficLight) -> TrafficLight {
    if l.timer + 1 >= SIGNAL_PERIOD {
        TrafficLight { state: flipped(l.state), timer: 0, ..l }
    } else {
        TrafficLight { timer: (l.timer + 1) as u32, ..l }
    }
}

/// The signal after `n` ticks.
pub open spec fn advance_n(l: TrafficLight, n: nat) -> TrafficLight
    decreases n,
{
    if n == 0 {
        l
    } else {
        advance_spec(advance_n(l, (n - 1) as nat))
    }
}

/// A signal is well formed when its counter has not yet reached the period.
pub open spec fn light_wf(l: TrafficLight) -> bool {
    l.timer < SIGNAL_PERIOD
}

/// The fixed position of the signal governing an approach: the one standing
/// to the left of that approach's incoming lane, which doubles as the
/// junction-entry marker for vehicles coming from that approach.
pub open spec fn approach_light_pos(d: Direction) -> Point {
    match d {
        Direction::North => Point { x: 470, y: 470 },
        Direction::South => Point { x: 610, y: 610 },
        Direction::East => Point { x: 610, y: 470 },
        Direction::West => Point { x: 470, y: 610 },
    }
}

impl TrafficLight {
    pub fn new(position: Point, initial_state: TrafficLightState, direction: Direction) -> (l:
        TrafficLight)
        ensures
            l == (TrafficLight { position, state: initial_state, timer: 0, direction }),
    {
        TrafficLight { position, state: initial_state, timer: 0, direction }
    }

    /// The four signals as they stand at simulation start: one per approach,
    /// at that approach's entry position, the north-south pair green and the
    /// east-west pair red.
    pub fn reposition_for_entry_lanes() -> (lights: Vec<TrafficLight>)
        ensures
            lights@.len() == 4,
            forall|i: int|
                0 <= i < 4 ==> (#[trigger] lights@[i]).position == approach_light_pos(
                    lights@[i].direction,
                ),
            forall|i: int| 0 <= i < 4 ==> (#[trigger] lights@[i]).timer == 0,
            lights@[0].direction == Direction::North,
            lights@[1].direction == Direction::South,
            lights@[2].direction == Direction::East,
            lights@[3].direction == Direction::West,
            lights@[0].state == TrafficLightState::Green,
            lights@[1].state == TrafficLightState::Green,
            lights@[2].state == TrafficLightState::Red,
            lights@[3].state == TrafficLightState::Red,
    {
        let mut lights: Vec<TrafficLight> = Vec::new();
        lights.push(
            TrafficLight::new(
                Point { x: 470, y: 470 },
                TrafficLightState::Green,
                Direction::North,
            ),
        );
        lights.push(
            TrafficLight::new(
                Point { x: 610, y: 610 },
                TrafficLightState::Green,
                Direction::South,
            ),
        );
        lights.push(
            TrafficLight::new(Point { x: 610, y: 470 }, TrafficLightState::Red, Direction::East),
        );
        lights.push(
            TrafficLight::new(Point { x: 470, y: 610 }, TrafficLightState::Red, Direction::West),
        );
        lights
    }

    /// One tick of this signal.
    pub fn update(&mut self)
        requires
            light_wf(*old(self)),
        ensures
            *final(self) == advance_spec(*old(self)),
            light_wf(*final(self)),
    {
        self.timer = self.timer + 1;
        if self.timer >= SIGNAL_PERIOD {
            self.timer = 0;
            self.state = match self.state {
                TrafficLightState::Red => TrafficLightState::Green,
                TrafficLightState::Green => TrafficLightState::Red,
            };
        }
    }

    pub fn is_green(&self) -> (r: bool)
        ensures
            r == (self.state == TrafficLightState::Green),
    {
        self.state == TrafficLightState::Green
    }
}

/// While a signal's counter stays below the period, ticks only count up and
/// the state holds still.
proof fn lemma_advance_partial(l: TrafficLight, k: nat)
    requires
        l.timer + k < SIGNAL_PERIOD,
    ensures
        advance_n(l, k) == (TrafficLight { timer: (l.timer + k) as u32, ..l }),
    decreases k,
{
    if k == 0 {
        assert(advance_n(l, 0) == l);
    } else {
        lemma_advance_partial(l, (k - 1) as nat);
    }
}

/// Ticks compose: advancing `a + b` ticks is advancing `a`, then `b`.
proof fn lemma_advance_add(l: TrafficLight, a: nat, b: nat)
    ensures
        advance_n(l, a + b) == advance_n(advance_n(l, a), b),
    decreases b,
{
    if b > 0 {
        lemma_advance_add(l, a, (b - 1) as nat);
    }
}

/// A signal that has just flipped (or was just created) flips exactly once
/// over the next period: its state holds still for the first
/// `SIGNAL_PERIOD - 1` ticks, and on the period's last tick it flips and its
/// counter returns to zero.
pub proof fn lemma_signal_flips_once_per_period(l: TrafficLight, k: nat)
    requires
        l.timer == 0,
        0 < k < SIGNAL_PERIOD,
    ensures
        advance_n(l, k).state == l.state,
        advance_n(l, SIGNAL_PERIOD as nat) == (TrafficLight { state: flipped(l.state), timer: 0, ..l }),
{
    lemma_advance_partial(l, k);
    lemma_advance_partial(l, (SIGNAL_PERIOD - 1) as nat);
    lemma_advance_add(l, (SIGNAL_PERIOD - 1) as nat, 1);
}

/// From any well-formed state, one full period flips the state exactly and
/// brings the counter back to where it was, and two full periods return the
/// signal exactly to where it began.
pub proof fn lemma_signal_periodicity(l: TrafficLight)
    requires
        light_wf(l),
    ensures
        advance_n(l, SIGNAL_PERIOD as nat) == (TrafficLight { state: flipped(l.state), ..l }),
        advance_n(l, 2 * SIGNAL_PERIOD as nat) == l,
{
    let t = l.timer;
    lemma_advance_partial(l, (SIGNAL_PERIOD - 1 - t) as nat);
    lemma_advance_add(l, (SIGNAL_PERIOD - 1 - t) as nat, 1);
    let f = advance_n(l, (SIGNAL_PERIOD - t) as nat);
    assert(f == (TrafficLight { state: flipped(l.state), timer: 0, ..l }));
    lemma_advance_partial(f, t as nat);
    lemma_advance_add(l, (SIGNAL_PERIOD - t) as nat, t as nat);
    let m = advance_n(l, SIGNAL_PERIOD as nat);
    assert(m == (TrafficLight { state: flipped(l.state), ..l }));

    lemma_advance_partial(m, (SIGNAL_PERIOD - 1 - t) as nat);
    lemma_advance_add(m, (SIGNAL_PERIOD - 1 - t) as nat, 1);
    let f2 = advance_n(m, (SIGNAL_PERIOD - t) as nat);
    assert(f2 == (TrafficLight { state: l.state, timer: 0, ..l }));
    lemma_advance_partial(f2, t as nat);
    lemma_advance_add(m, (SIGNAL_PERIOD - t) as nat, t as nat);
    lemma_advance_add(l, SIGNAL_PERIOD as nat, SIGNAL_PERIOD as nat);
}

/// Two signals that share a counter and disagree in state still share a
/// counter and still disagree after a tick: opposing pairs stay opposed.
pub proof fn lemma_opposition_preserved(a: TrafficLight, b: TrafficLight)
    requires
        a.timer == b.timer,
        light_wf(a),
        light_wf(b),
        a.state != b.state,
    ensures
        advance_spec(a).timer == advance_spec(b).timer,
        advance_spec(a).state != advance_spec(b).state,
{
}

} // verus!
