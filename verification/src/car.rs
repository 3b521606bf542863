//! Vehicles and their per-tick decision engine.
//!
//! Each tick a vehicle gates on its approach's signal while still outside
//! the junction, recomputes its facing from the vector to its next waypoint,
//! either snaps onto a reached waypoint or projects a tentative move with
//! two forward detection zones, and then inspects a snapshot of every other
//! vehicle: a hitbox overlap is a collision, a far-zone conflict asks for a
//! cooperative slowdown, and a close conflict outside the junction yields
//! right-of-way by a fixed directional priority. The whole decision is
//! specified by the function [`update_spec`], which [`Car::update`] is
//! proved to implement.

use vstd::prelude::*;
use vstd::arithmetic::div_mod::{lemma_div_is_ordered, lemma_div_by_multiple, lemma_div_pos_is_pos};
use crate::geometry::{
    Point, Rect, point_bounded, rect_bounded, from_center_spec, center_spec, overlaps_spec,
    lemma_overlaps_symmetric, sqrt_floor, lemma_sqrt_floor, isqrt, COORD_LIMIT, DIM_LIMIT,
    RECT_LIMIT,
};
use crate::direction::Direction;
use crate::signal::{TrafficLight, TrafficLightState, approach_light_pos};

verus! {

/// Distance covered per tick by an unhindered vehicle.
pub const BASE_VELOCITY: u32 = 4;

/// Distance covered per tick while slowing cooperatively or passing a
/// waiting vehicle with priority; no vehicle ever moves slower than this.
pub const SLOW_VELOCITY: u32 = 2;

/// Distance covered per tick on the curved path inside the junction.
pub const TURN_VELOCITY: u32 = 2;

/// Margin added to both dimensions of each detection zone.
pub const SAFE_DISTANCE: u32 = 40;

/// Sideways shift of the detection zones off the heading ray, compensating
/// for the lane offset.
pub const DETECTION_OFFSET: u64 = 10;

/// Largest velocity a caller may set.
pub const VELOCITY_LIMIT: u32 = 10_000;

#[derive(Clone, Copy, Debug, PartialEq, Eq, Structural)]
pub enum UpdateState {
    Moving,
    Slowing,
    Finished,
    Collided,
    Waiting,
}

/// The read-only view of one vehicle that every other vehicle sees during a
/// tick: its committed geometry, facing and status from the previous tick.
#[derive(Clone, Copy, Debug, PartialEq, Eq, Structural)]
pub struct CarSnapshot {
    pub hit_box: Rect,
    pub detection_lower: Rect,
    pub detection_upper: Rect,
    pub state: UpdateState,
    pub current_direction: Direction,
}

pub struct Car {
    pub hit_box: Rect,
    pub detection_lower: Rect,
    pub detection_upper: Rect,
    pub state: UpdateState,
    pub velocity: u32,
    pub w_l: (u32, u32),
    pub path: Vec<Point>,
    pub current_direction: Direction,
    pub current_light: Option<Point>,
}

/// The mathematical value of a vehicle: every field the decision reads or
/// writes, with the waypoint queue as a sequence.
#[verifier::ext_equal]
pub ghost struct CarModel {
    pub hit_box: Rect,
    pub detection_lower: Rect,
    pub detection_upper: Rect,
    pub state: UpdateState,
    pub velocity: u32,
    pub width: u32,
    pub length: u32,
    pub path: Seq<Point>,
    pub current_direction: Direction,
    pub current_light: Option<Point>,
}

impl View for Car {
    type V = CarModel;

    open spec fn view(&self) -> CarModel {
        CarModel {
            hit_box: self.hit_box,
            detection_lower: self.detection_lower,
            detection_upper: self.detection_upper,
            state: self.state,
            velocity: self.velocity,
            width: self.w_l.0,
            length: self.w_l.1,
            path: self.path@,
            current_direction: self.current_direction,
            current_light: self.current_light,
        }
    }
}

/// The fixed bounding region of the junction, where crossing paths conflict
/// and signal gating no longer applies.
pub open spec fn junction_region() -> Rect {
    Rect { x: 470, y: 470, w: 140, h: 140 }
}

/// A vehicle has entered the junction when its hitbox overlaps the region.
pub open spec fn entered_junction(hit: Rect) -> bool {
    overlaps_spec(hit, junction_region())
}

/// The facing implied by the vector to the next waypoint, named after the
/// approach the vehicle came from: horizontal motion wins only when strictly
/// dominant, and a vehicle moving in +y came from the north.
pub open spec fn heading_spec(dx: int, dy: int) -> Direction {
    let adx = if dx < 0 { -dx } else { dx };
    let ady = if dy < 0 { -dy } else { dy };
    if adx > ady {
        if dx <= 0 {
            Direction::East
        } else {
            Direction::West
        }
    } else {
        if dy <= 0 {
            Direction::South
        } else {
            Direction::North
        }
    }
}

/// The right-of-way table: a vehicle from `a` may pass a waiting vehicle
/// from `b` exactly when `a` precedes `b` in the cycle
/// south, east, north, west.
pub open spec fn has_priority(a: Direction, b: Direction) -> bool {
    match (a, b) {
        (Direction::South, Direction::East) => true,
        (Direction::East, Direction::North) => true,
        (Direction::North, Direction::West) => true,
        (Direction::West, Direction::South) => true,
        _ => false,
    }
}

/// The first signal standing at `p`, in the order the signals are kept.
pub open spec fn find_light(lights: Seq<TrafficLight>, p: Point) -> Option<TrafficLight>
    decreases lights.len(),
{
    if lights.len() == 0 {
        None
    } else if lights[0].position == p {
        Some(lights[0])
    } else {
        find_light(lights.drop_first(), p)
    }
}

/// The signal-gating step: whether the vehicle must wait at a red signal,
/// and the latched signal position afterwards. Inside the junction the
/// latch clears; outside, a latched signal matching the facing's entry
/// position is consulted, and an unlatched vehicle latches its approach's
/// signal once the two 100-by-100 squares around vehicle center and signal
/// touch.
pub open spec fn gate_result(
    hit: Rect,
    dir: Direction,
    latched: Option<Point>,
    lights: Seq<TrafficLight>,
) -> (bool, Option<Point>) {
    if entered_junction(hit) {
        (false, None::<Point>)
    } else {
        match latched {
            Some(tp) => {
                if tp == approach_light_pos(dir) {
                    match find_light(lights, tp) {
                        Some(l) => (l.state == TrafficLightState::Red, Some(tp)),
                        None => (false, Some(tp)),
                    }
                } else {
                    (false, Some(tp))
                }
            },
            None => {
                let lp = approach_light_pos(dir);
                match find_light(lights, lp) {
                    Some(l) => {
                        if overlaps_spec(
                            from_center_spec(center_spec(hit), 100, 100),
                            from_center_spec(lp, 100, 100),
                        ) {
                            (l.state == TrafficLightState::Red, Some(lp))
                        } else {
                            (false, None::<Point>)
                        }
                    },
                    None => (false, None::<Point>),
                }
            },
        }
    }
}

/// `delta` scaled by `num / den` and truncated toward zero.
pub open spec fn scale_toward(delta: int, num: int, den: int) -> int {
    let mag = if delta < 0 {
        -delta
    } else {
        delta
    };
    let q = (num * mag) / den;
    if delta < 0 {
        -q
    } else {
        q
    }
}

/// The tentative geometry of one tick of motion toward `target`: the moved
/// hitbox, oriented along the new facing, and the near and far detection
/// zones, centered on the heading ray at 1.4 and 2.8 times the
/// facing-aligned extent, shifted sideways by the fixed offset and inflated
/// by the safety margin.
pub open spec fn motion_spec(hit: Rect, velocity: u32, width: u32, length: u32, target: Point) -> (
    Rect,
    Rect,
    Rect,
) {
    let pos = center_spec(hit);
    let dx = target.x - pos.x;
    let dy = target.y - pos.y;
    let dir = heading_spec(dx, dy);
    let d = sqrt_floor((dx * dx + dy * dy) as nat) as int;
    let mx = scale_toward(dx, velocity as int, d);
    let my = scale_toward(dy, velocity as int, d);
    let vertical = dir == Direction::North || dir == Direction::South;
    let nw = if vertical {
        width
    } else {
        length
    };
    let nh = if vertical {
        length
    } else {
        width
    };
    let new_hitbox = from_center_spec(Point { x: (pos.x + mx) as i64, y: (pos.y + my) as i64 }, nw, nh);
    let inc = (if vertical {
        new_hitbox.h
    } else {
        new_hitbox.w
    }) as int;
    let px = scale_toward(-dy, DETECTION_OFFSET as int, d);
    let py = scale_toward(dx, DETECTION_OFFSET as int, d);
    let dw = (hit.w + SAFE_DISTANCE) as u32;
    let dh = (hit.h + SAFE_DISTANCE) as u32;
    let lx = scale_toward(dx, 14 * inc, 10 * d);
    let ly = scale_toward(dy, 14 * inc, 10 * d);
    let ux = scale_toward(dx, 28 * inc, 10 * d);
    let uy = scale_toward(dy, 28 * inc, 10 * d);
    let dl = from_center_spec(
        Point { x: (pos.x + lx + px) as i64, y: (pos.y + ly + py) as i64 },
        dw,
        dh,
    );
    let du = from_center_spec(
        Point { x: (pos.x + ux + px) as i64, y: (pos.y + uy + py) as i64 },
        dw,
        dh,
    );
    (new_hitbox, dl, du)
}

/// Outcome of inspecting the peers, with the velocity the vehicle carries
/// out of the scan where the scan does not fix it itself.
pub ghost enum ScanOutcome {
    Collide { velocity: u32 },
    Slow,
    Wait { velocity: u32 },
    Pass,
}

/// The peer scan from index `i` on, carrying the accumulated velocity `v`.
/// The first overlap of hitboxes is a collision; otherwise a far-zone
/// conflict with a peer not already slowing asks for a slowdown; otherwise,
/// outside the junction, a close conflict either lets the vehicle squeeze
/// past a waiting peer it has priority over (at slow velocity) or makes it
/// wait; inside the junction the velocity is forced to turn speed.
pub open spec fn scan_spec(
    others: Seq<CarSnapshot>,
    i: int,
    hit: Rect,
    dl: Rect,
    du: Rect,
    dir: Direction,
    entered: bool,
    v: u32,
) -> ScanOutcome
    decreases others.len() - i,
{
    if i < 0 || i >= others.len() {
        ScanOutcome::Pass
    } else {
        let o = others[i];
        if overlaps_spec(hit, o.hit_box) {
            ScanOutcome::Collide { velocity: v }
        } else if (overlaps_spec(du, o.detection_upper) || overlaps_spec(du, o.detection_lower))
            && o.state != UpdateState::Slowing {
            ScanOutcome::Slow
        } else if !entered && (overlaps_spec(dl, o.hit_box) || overlaps_spec(du, o.detection_lower)
            || overlaps_spec(du, o.hit_box)) {
            if o.state == UpdateState::Waiting && has_priority(dir, o.current_direction)
                && !overlaps_spec(dl, o.hit_box) {
                scan_spec(others, i + 1, hit, dl, du, dir, entered, SLOW_VELOCITY)
            } else {
                ScanOutcome::Wait { velocity: v }
            }
        } else {
            let v2 = if entered {
                TURN_VELOCITY
            } else {
                v
            };
            scan_spec(others, i + 1, hit, dl, du, dir, entered, v2)
        }
    }
}

/// One full tick of the decision engine: the value of the vehicle after
/// `Car::update` against the given peers and signals.
#[verifier::opaque]
pub open spec fn update_spec(
    c: CarModel,
    others: Seq<CarSnapshot>,
    lights: Seq<TrafficLight>,
) -> CarModel {
    if c.path.len() == 0 {
        CarModel { state: UpdateState::Finished, ..c }
    } else {
        let gate = gate_result(c.hit_box, c.current_direction, c.current_light, lights);
        if gate.0 {
            CarModel { state: UpdateState::Waiting, current_light: gate.1, ..c }
        } else {
            let target = c.path[0];
            let pos = center_spec(c.hit_box);
            let dx = target.x - pos.x;
            let dy = target.y - pos.y;
            let dir = heading_spec(dx, dy);
            if dx * dx + dy * dy < c.velocity * c.velocity {
                CarModel {
                    hit_box: from_center_spec(target, c.hit_box.w, c.hit_box.h),
                    state: UpdateState::Moving,
                    velocity: BASE_VELOCITY,
                    path: c.path.remove(0),
                    current_direction: dir,
                    current_light: gate.1,
                    ..c
                }
            } else {
                let m = motion_spec(c.hit_box, c.velocity, c.width, c.length, target);
                let entered = entered_junction(c.hit_box);
                let base = CarModel {
                    detection_lower: m.1,
                    detection_upper: m.2,
                    current_direction: dir,
                    current_light: gate.1,
                    ..c
                };
                match scan_spec(others, 0, c.hit_box, m.1, m.2, dir, entered, c.velocity) {
                    ScanOutcome::Collide { velocity } => CarModel {
                        state: UpdateState::Collided,
                        velocity,
                        ..base
                    },
                    ScanOutcome::Slow => CarModel {
                        state: UpdateState::Slowing,
                        velocity: SLOW_VELOCITY,
                        hit_box: m.0,
                        ..base
                    },
                    ScanOutcome::Wait { velocity } => CarModel {
                        state: UpdateState::Waiting,
                        velocity,
                        ..base
                    },
                    ScanOutcome::Pass => CarModel {
                        state: UpdateState::Moving,
                        velocity: BASE_VELOCITY,
                        hit_box: m.0,
                        ..base
                    },
                }
            }
        }
    }
}

/// A vehicle with no waypoints left finishes, and changes nothing else.
pub proof fn lemma_update_spec_finished(
    c: CarModel,
    others: Seq<CarSnapshot>,
    lights: Seq<TrafficLight>,
)
    requires
        c.path.len() == 0,
    ensures
        update_spec(c, others, lights) == (CarModel { state: UpdateState::Finished, ..c }),
{
    reveal(update_spec);
}

/// A vehicle held by a red signal waits, latching the signal, and changes
/// nothing else.
pub proof fn lemma_update_spec_gated(
    c: CarModel,
    others: Seq<CarSnapshot>,
    lights: Seq<TrafficLight>,
)
    requires
        c.path.len() > 0,
        gate_result(c.hit_box, c.current_direction, c.current_light, lights).0,
    ensures
        update_spec(c, others, lights) == (CarModel {
            state: UpdateState::Waiting,
            current_light: gate_result(c.hit_box, c.current_direction, c.current_light, lights).1,
            ..c
        }),
{
    reveal(update_spec);
}

/// A vehicle within one tick of its front waypoint snaps onto it and pops
/// it, at base velocity again.
pub proof fn lemma_update_spec_arrival(
    c: CarModel,
    others: Seq<CarSnapshot>,
    lights: Seq<TrafficLight>,
)
    requires
        c.path.len() > 0,
        !gate_result(c.hit_box, c.current_direction, c.current_light, lights).0,
        ({
            let pos = center_spec(c.hit_box);
            let dx = c.path[0].x - pos.x;
            let dy = c.path[0].y - pos.y;
            dx * dx + dy * dy < c.velocity * c.velocity
        }),
    ensures
        update_spec(c, others, lights) == (CarModel {
            hit_box: from_center_spec(c.path[0], c.hit_box.w, c.hit_box.h),
            state: UpdateState::Moving,
            velocity: BASE_VELOCITY,
            path: c.path.remove(0),
            current_direction: ({
                let pos = center_spec(c.hit_box);
                heading_spec(c.path[0].x - pos.x, c.path[0].y - pos.y)
            }),
            current_light: gate_result(c.hit_box, c.current_direction, c.current_light, lights).1,
            ..c
        }),
{
    reveal(update_spec);
}

/// A vehicle not yet at its waypoint projects its motion and lets the peer
/// scan decide its state, velocity and whether the move commits.
pub proof fn lemma_update_spec_scan(
    c: CarModel,
    others: Seq<CarSnapshot>,
    lights: Seq<TrafficLight>,
)
    requires
        c.path.len() > 0,
        !gate_result(c.hit_box, c.current_direction, c.current_light, lights).0,
        ({
            let pos = center_spec(c.hit_box);
            let dx = c.path[0].x - pos.x;
            let dy = c.path[0].y - pos.y;
            dx * dx + dy * dy >= c.velocity * c.velocity
        }),
    ensures
        update_spec(c, others, lights) == ({
            let target = c.path[0];
            let pos = center_spec(c.hit_box);
            let dir = heading_spec(target.x - pos.x, target.y - pos.y);
            let gate = gate_result(c.hit_box, c.current_direction, c.current_light, lights);
            let m = motion_spec(c.hit_box, c.velocity, c.width, c.length, target);
            let entered = entered_junction(c.hit_box);
            let base = CarModel {
                detection_lower: m.1,
                detection_upper: m.2,
                current_direction: dir,
                current_light: gate.1,
                ..c
            };
            match scan_spec(others, 0, c.hit_box, m.1, m.2, dir, entered, c.velocity) {
                ScanOutcome::Collide { velocity } => CarModel {
                    state: UpdateState::Collided,
                    velocity,
                    ..base
                },
                ScanOutcome::Slow => CarModel {
                    state: UpdateState::Slowing,
                    velocity: SLOW_VELOCITY,
                    hit_box: m.0,
                    ..base
                },
                ScanOutcome::Wait { velocity } => CarModel {
                    state: UpdateState::Waiting,
                    velocity,
                    ..base
                },
                ScanOutcome::Pass => CarModel {
                    state: UpdateState::Moving,
                    velocity: BASE_VELOCITY,
                    hit_box: m.0,
                    ..base
                },
            }
        }),
{
    reveal(update_spec);
}

/// Right-of-way is never mutual: of two vehicles, at most one has priority
/// over the other, so two mutually-blocking vehicles cannot both pass.
pub proof fn lemma_priority_asymmetric(a: Direction, b: Direction)
    ensures
        has_priority(a, b) ==> !has_priority(b, a),
{
}

/// The priority table is the full clockwise cycle: south over east, east
/// over north, north over west, west over south, and nothing else.
pub proof fn lemma_priority_cycle()
    ensures
        has_priority(Direction::South, Direction::East),
        has_priority(Direction::East, Direction::North),
        has_priority(Direction::North, Direction::West),
        has_priority(Direction::West, Direction::South),
        forall|a: Direction, b: Direction|
            #[trigger] has_priority(a, b) ==> !has_priority(b, a),
{
    assert forall|a: Direction, b: Direction| #[trigger]
        has_priority(a, b) implies !has_priority(b, a) by {
        lemma_priority_asymmetric(a, b);
    }
}

/// A tick ends in `Finished` exactly when the waypoint queue was already
/// empty, and then the queue stays empty: once finished, every later tick
/// leaves the vehicle finished with no waypoints.
pub proof fn lemma_finished_iff_no_waypoints(
    c: CarModel,
    others: Seq<CarSnapshot>,
    lights: Seq<TrafficLight>,
)
    ensures
        (update_spec(c, others, lights).state == UpdateState::Finished) <==> (c.path.len() == 0),
        c.path.len() == 0 ==> update_spec(c, others, lights).path.len() == 0,
{
    reveal(update_spec);
    if c.path.len() > 0 {
        let gate = gate_result(c.hit_box, c.current_direction, c.current_light, lights);
        if !gate.0 {
            let target = c.path[0];
            let pos = center_spec(c.hit_box);
            let dx = target.x - pos.x;
            let dy = target.y - pos.y;
            if dx * dx + dy * dy >= c.velocity * c.velocity {
                let m = motion_spec(c.hit_box, c.velocity, c.width, c.length, target);
                let dir = heading_spec(dx, dy);
                let entered = entered_junction(c.hit_box);
                let out = scan_spec(others, 0, c.hit_box, m.1, m.2, dir, entered, c.velocity);
                match out {
                    ScanOutcome::Collide { velocity } => {},
                    ScanOutcome::Slow => {},
                    ScanOutcome::Wait { velocity } => {},
                    ScanOutcome::Pass => {},
                }
            }
        }
    }
}

/// The scan never hands back a velocity outside the well-formed range.
proof fn lemma_scan_velocity_range(
    others: Seq<CarSnapshot>,
    i: int,
    hit: Rect,
    dl: Rect,
    du: Rect,
    dir: Direction,
    entered: bool,
    v: u32,
)
    requires
        SLOW_VELOCITY <= v <= VELOCITY_LIMIT,
    ensures
        match scan_spec(others, i, hit, dl, du, dir, entered, v) {
            ScanOutcome::Collide { velocity } => SLOW_VELOCITY <= velocity <= VELOCITY_LIMIT,
            ScanOutcome::Wait { velocity } => SLOW_VELOCITY <= velocity <= VELOCITY_LIMIT,
            _ => true,
        },
    decreases others.len() - i,
{
    if 0 <= i < others.len() {
        lemma_scan_velocity_range(others, i + 1, hit, dl, du, dir, entered, SLOW_VELOCITY);
        lemma_scan_velocity_range(others, i + 1, hit, dl, du, dir, entered, v);
        lemma_scan_velocity_range(others, i + 1, hit, dl, du, dir, entered, TURN_VELOCITY);
    }
}

/// A slowdown sets the velocity to exactly the slow constant, and no tick
/// ever drives the velocity below it. The status after a tick is a single
/// value, so a vehicle reported slowing is in particular not reported
/// collided in the same tick.
pub proof fn lemma_slowing_velocity(c: CarModel, others: Seq<CarSnapshot>, lights: Seq<TrafficLight>)
    requires
        car_wf(c),
    ensures
        update_spec(c, others, lights).state == UpdateState::Slowing ==> update_spec(
            c,
            others,
            lights,
        ).velocity == SLOW_VELOCITY,
        update_spec(c, others, lights).velocity >= SLOW_VELOCITY,
{
    reveal(update_spec);
    if c.path.len() > 0 {
        let gate = gate_result(c.hit_box, c.current_direction, c.current_light, lights);
        if !gate.0 {
            let target = c.path[0];
            let pos = center_spec(c.hit_box);
            let dx = target.x - pos.x;
            let dy = target.y - pos.y;
            if dx * dx + dy * dy >= c.velocity * c.velocity {
                let m = motion_spec(c.hit_box, c.velocity, c.width, c.length, target);
                let dir = heading_spec(dx, dy);
                let entered = entered_junction(c.hit_box);
                lemma_scan_velocity_range(others, 0, c.hit_box, m.1, m.2, dir, entered, c.velocity);
                let out = scan_spec(others, 0, c.hit_box, m.1, m.2, dir, entered, c.velocity);
                match out {
                    ScanOutcome::Collide { velocity } => {},
                    ScanOutcome::Slow => {},
                    ScanOutcome::Wait { velocity } => {},
                    ScanOutcome::Pass => {},
                }
            }
        }
    }
}

/// Collision detection is symmetric: two ungated, still-travelling vehicles
/// whose hitboxes overlap are both reported collided in the same tick, each
/// seeing the other in its peer snapshot.
pub proof fn lemma_collision_mutual(a: CarModel, b: CarModel, lights: Seq<TrafficLight>)
    requires
        a.path.len() > 0,
        b.path.len() > 0,
        !gate_result(a.hit_box, a.current_direction, a.current_light, lights).0,
        !gate_result(b.hit_box, b.current_direction, b.current_light, lights).0,
        ({
            let pos = center_spec(a.hit_box);
            let dx = a.path[0].x - pos.x;
            let dy = a.path[0].y - pos.y;
            dx * dx + dy * dy >= a.velocity * a.velocity
        }),
        ({
            let pos = center_spec(b.hit_box);
            let dx = b.path[0].x - pos.x;
            let dy = b.path[0].y - pos.y;
            dx * dx + dy * dy >= b.velocity * b.velocity
        }),
        overlaps_spec(a.hit_box, b.hit_box),
    ensures
        update_spec(a, seq![snapshot_spec(b)], lights).state == UpdateState::Collided,
        update_spec(b, seq![snapshot_spec(a)], lights).state == UpdateState::Collided,
{
    reveal(update_spec);
    lemma_overlaps_symmetric(a.hit_box, b.hit_box);
    assert(seq![snapshot_spec(b)][0] == snapshot_spec(b));
    assert(seq![snapshot_spec(a)][0] == snapshot_spec(a));
}

/// Well-formedness of a vehicle: geometry within the simulation's bounds
/// and a velocity between the slow constant and the limit.
pub open spec fn car_wf(c: CarModel) -> bool {
    &&& rect_bounded(c.hit_box, RECT_LIMIT as int)
    &&& c.hit_box.w <= DIM_LIMIT
    &&& c.hit_box.h <= DIM_LIMIT
    &&& point_bounded(center_spec(c.hit_box), COORD_LIMIT as int)
    &&& rect_bounded(c.detection_lower, RECT_LIMIT as int)
    &&& rect_bounded(c.detection_upper, RECT_LIMIT as int)
    &&& c.width <= DIM_LIMIT
    &&& c.length <= DIM_LIMIT
    &&& SLOW_VELOCITY <= c.velocity <= VELOCITY_LIMIT
    &&& forall|i: int|
        0 <= i < c.path.len() ==> point_bounded(#[trigger] c.path[i], COORD_LIMIT as int)
}

/// What a peer snapshot must satisfy for another vehicle to reason about
/// it: all three rectangles within the stored-geometry bound.
pub open spec fn snapshot_wf(s: CarSnapshot) -> bool {
    &&& rect_bounded(s.hit_box, RECT_LIMIT as int)
    &&& rect_bounded(s.detection_lower, RECT_LIMIT as int)
    &&& rect_bounded(s.detection_upper, RECT_LIMIT as int)
}

/// The snapshot a vehicle publishes to its peers.
pub open spec fn snapshot_spec(c: CarModel) -> CarSnapshot {
    CarSnapshot {
        hit_box: c.hit_box,
        detection_lower: c.detection_lower,
        detection_upper: c.detection_upper,
        state: c.state,
        current_direction: c.current_direction,
    }
}

/// A signal a vehicle may gate on sits within the coordinate bound.
pub open spec fn light_pos_wf(l: TrafficLight) -> bool {
    point_bounded(l.position, COORD_LIMIT as int)
}

/// Truncated scaling stays within any `c` that dominates the exact
/// quotient: if `|delta| <= m` and `num * m <= c * den`, the scaled value
/// lies in `[-c, c]`.
pub proof fn lemma_scale_toward_le(delta: int, num: int, den: int, m: int, c: int)
    requires
        den >= 1,
        num >= 0,
        c >= 0,
        -m <= delta <= m,
        num * m <= c * den,
    ensures
        -c <= scale_toward(delta, num, den) <= c,
{
    let mag = if delta < 0 {
        -delta
    } else {
        delta
    };
    assert(num * mag <= num * m) by (nonlinear_arith)
        requires
            num >= 0,
            mag <= m,
    ;
    assert(c * den == den * c) by (nonlinear_arith);
    lemma_div_is_ordered(num * mag, c * den, den);
    lemma_div_by_multiple(c, den);
    assert((num * mag) / den <= c);
    assert(num * mag >= 0) by (nonlinear_arith)
        requires
            num >= 0,
            mag >= 0,
    ;
    lemma_div_pos_is_pos(num * mag, den);
}

/// Truncated scaling keeps the sign of `delta`.
pub proof fn lemma_scale_toward_sign(delta: int, num: int, den: int)
    requires
        den >= 1,
        num >= 0,
    ensures
        delta >= 0 ==> scale_toward(delta, num, den) >= 0,
        delta < 0 ==> scale_toward(delta, num, den) <= 0,
{
    let mag = if delta < 0 {
        -delta
    } else {
        delta
    };
    assert(num * mag >= 0) by (nonlinear_arith)
        requires
            num >= 0,
            mag >= 0,
    ;
    lemma_div_pos_is_pos(num * mag, den);
}

/// `delta` scaled by `num / den`, truncated toward zero, for bounded inputs.
fn scale_toward_i64(delta: i64, num: u64, den: u64) -> (r: i64)
    requires
        den >= 1,
        -4_000_000 <= delta <= 4_000_000,
        num <= 1_000_000_000,
    ensures
        r as int == scale_toward(delta as int, num as int, den as int),
{
    let mag: u64 = if delta < 0 {
        (-delta) as u64
    } else {
        delta as u64
    };
    proof {
        assert(num * mag <= 1_000_000_000u64 * 4_000_000u64) by (nonlinear_arith)
            requires
                num <= 1_000_000_000,
                mag <= 4_000_000,
        ;
        vstd::arithmetic::div_mod::lemma_div_nonincreasing((num * mag) as int, den as int);
        lemma_div_pos_is_pos((num * mag) as int, den as int);
    }
    let q: u64 = (num * mag) / den;
    if delta < 0 {
        -(q as i64)
    } else {
        q as i64
    }
}

/// The entry-signal position for the given facing, as `approach_light_pos`.
fn left_light_position(d: Direction) -> (p: Point)
    ensures
        p == approach_light_pos(d),
{
    match d {
        Direction::North => Point { x: 470, y: 470 },
        Direction::South => Point { x: 610, y: 610 },
        Direction::East => Point { x: 610, y: 470 },
        Direction::West => Point { x: 470, y: 610 },
    }
}

/// The tentative geometry of one tick of motion, as `motion_spec`, with the
/// bounds the caller needs: the moved hitbox keeps its footprint within the
/// dimension limit, its center stays within the coordinate bound and moves
/// by at most `velocity` on each axis, and all three rectangles stay within
/// the stored-geometry bound.
#[verifier::rlimit(100)]
#[verifier::spinoff_prover]
fn compute_motion(hit: Rect, velocity: u32, width: u32, length: u32, target: Point) -> (r: (
    Rect,
    Rect,
    Rect,
))
    requires
        rect_bounded(hit, RECT_LIMIT as int),
        hit.w <= DIM_LIMIT,
        hit.h <= DIM_LIMIT,
        point_bounded(center_spec(hit), COORD_LIMIT as int),
        point_bounded(target, COORD_LIMIT as int),
        width <= DIM_LIMIT,
        length <= DIM_LIMIT,
        SLOW_VELOCITY <= velocity <= VELOCITY_LIMIT,
        ({
            let pos = center_spec(hit);
            let dx = target.x - pos.x;
            let dy = target.y - pos.y;
            dx * dx + dy * dy >= velocity * velocity
        }),
    ensures
        r == motion_spec(hit, velocity, width, length, target),
        rect_bounded(r.0, RECT_LIMIT as int),
        r.0.w <= DIM_LIMIT,
        r.0.h <= DIM_LIMIT,
        point_bounded(center_spec(r.0), COORD_LIMIT as int),
        rect_bounded(r.1, RECT_LIMIT as int),
        rect_bounded(r.2, RECT_LIMIT as int),
        ({
            let oc = center_spec(hit);
            let nc = center_spec(r.0);
            &&& -(velocity as int) <= nc.x - oc.x <= velocity as int
            &&& -(velocity as int) <= nc.y - oc.y <= velocity as int
        }),
{
    let pos = hit.center();
    let dx: i64 = target.x - pos.x;
    let dy: i64 = target.y - pos.y;
    let adx: u64 = if dx < 0 {
        (-dx) as u64
    } else {
        dx as u64
    };
    let ady: u64 = if dy < 0 {
        (-dy) as u64
    } else {
        dy as u64
    };
    let dir = if adx > ady {
        if dx <= 0 {
            Direction::East
        } else {
            Direction::West
        }
    } else {
        if dy <= 0 {
            Direction::South
        } else {
            Direction::North
        }
    };
    proof {
        assert(dir == heading_spec(dx as int, dy as int));
        assert(adx as int * adx as int == dx as int * dx as int) by (nonlinear_arith)
            requires
                adx == if dx < 0 { -(dx as int) } else { dx as int },
        ;
        assert(ady as int * ady as int == dy as int * dy as int) by (nonlinear_arith)
            requires
                ady == if dy < 0 { -(dy as int) } else { dy as int },
        ;
        assert(adx as int * adx as int + ady as int * ady as int <= 2 * 2_100_000 * 2_100_000)
            by (nonlinear_arith)
            requires
                adx <= 2_100_000,
                ady <= 2_100_000,
        ;
    }
    let dist2: u64 = adx * adx + ady * ady;
    let v = velocity;
    proof {
        assert((v as int) * (v as int) <= 100_000_000) by (nonlinear_arith)
            requires
                v <= 10_000,
        ;
    }
    let d = isqrt(dist2);
    proof {
        lemma_sqrt_floor(dist2 as nat);
        assert(d <= 3_000_000) by (nonlinear_arith)
            requires
                d as int * d as int <= dist2 as int,
                dist2 <= 8_820_000_000_000,
        ;
        assert(v as int <= d as int && adx as int <= d as int && ady as int <= d as int)
            by (nonlinear_arith)
            requires
                v as int * v as int <= dist2 as int,
                adx as int * adx as int <= dist2 as int,
                ady as int * ady as int <= dist2 as int,
                (dist2 as int) < (d as int + 1) * (d as int + 1),
                v >= 0,
                adx >= 0,
                ady >= 0,
                d >= 0,
        ;
    }
    let mx = scale_toward_i64(dx, v as u64, d);
    let my = scale_toward_i64(dy, v as u64, d);
    proof {
        lemma_scale_toward_le(dx as int, v as int, d as int, d as int, v as int);
        lemma_scale_toward_le(dy as int, v as int, d as int, d as int, v as int);
        assert(v as int * adx as int <= adx as int * d as int) by (nonlinear_arith)
            requires
                v as int <= d as int,
                adx >= 0,
        ;
        assert(v as int * ady as int <= ady as int * d as int) by (nonlinear_arith)
            requires
                v as int <= d as int,
                ady >= 0,
        ;
        lemma_scale_toward_le(dx as int, v as int, d as int, adx as int, adx as int);
        lemma_scale_toward_le(dy as int, v as int, d as int, ady as int, ady as int);
        lemma_scale_toward_sign(dx as int, v as int, d as int);
        lemma_scale_toward_sign(dy as int, v as int, d as int);
    }
    let ncx = pos.x + mx;
    let ncy = pos.y + my;
    let vertical = dir == Direction::North || dir == Direction::South;
    let nw2 = if vertical {
        width
    } else {
        length
    };
    let nh2 = if vertical {
        length
    } else {
        width
    };
    let new_hitbox = Rect::from_center(Point { x: ncx, y: ncy }, nw2, nh2);
    let inc: u64 = (if vertical {
        new_hitbox.h
    } else {
        new_hitbox.w
    }) as u64;
    let px = scale_toward_i64(-dy, DETECTION_OFFSET, d);
    let py = scale_toward_i64(dx, DETECTION_OFFSET, d);
    let num14: u64 = 14 * inc;
    let num28: u64 = 28 * inc;
    let den10: u64 = 10 * d;
    let lx = scale_toward_i64(dx, num14, den10);
    let ly = scale_toward_i64(dy, num14, den10);
    let ux = scale_toward_i64(dx, num28, den10);
    let uy = scale_toward_i64(dy, num28, den10);
    proof {
        lemma_scale_toward_le(-dy as int, 10, d as int, d as int, 10);
        lemma_scale_toward_le(dx as int, 10, d as int, d as int, 10);
        assert(14 * inc as int * (d as int) <= 2 * inc as int * (10 * d as int) && 28 * inc as int
            * (d as int) <= 3 * inc as int * (10 * d as int)) by (nonlinear_arith)
            requires
                inc >= 0,
                d >= 1,
        ;
        lemma_scale_toward_le(dx as int, 14 * inc as int, 10 * d as int, d as int, 2 * inc as int);
        lemma_scale_toward_le(dy as int, 14 * inc as int, 10 * d as int, d as int, 2 * inc as int);
        lemma_scale_toward_le(dx as int, 28 * inc as int, 10 * d as int, d as int, 3 * inc as int);
        lemma_scale_toward_le(dy as int, 28 * inc as int, 10 * d as int, d as int, 3 * inc as int);
    }
    let dlw = hit.w + SAFE_DISTANCE;
    let dlh = hit.h + SAFE_DISTANCE;
    let dl = Rect::from_center(Point { x: pos.x + lx + px, y: pos.y + ly + py }, dlw, dlh);
    let du = Rect::from_center(Point { x: pos.x + ux + px, y: pos.y + uy + py }, dlw, dlh);
    (new_hitbox, dl, du)
}

/// Executable outcome of the peer scan, mirroring [`ScanOutcome`].
enum ScanResult {
    Collide(u32),
    Slow,
    Wait(u32),
    Pass,
}

/// Whether a vehicle facing `a` has right-of-way over one facing `b`.
fn direction_has_priority(a: Direction, b: Direction) -> (r: bool)
    ensures
        r == has_priority(a, b),
{
    match (a, b) {
        (Direction::South, Direction::East) => true,
        (Direction::East, Direction::North) => true,
        (Direction::North, Direction::West) => true,
        (Direction::West, Direction::South) => true,
        _ => false,
    }
}

/// The peer scan, as `scan_spec` from index zero.
#[verifier::loop_isolation(false)]
#[verifier::rlimit(100)]
#[verifier::spinoff_prover]
fn scan_peers(
    others: &Vec<CarSnapshot>,
    hit: Rect,
    dl: Rect,
    du: Rect,
    dir: Direction,
    entered: bool,
    v0: u32,
) -> (r: ScanResult)
    requires
        rect_bounded(hit, RECT_LIMIT as int),
        rect_bounded(dl, RECT_LIMIT as int),
        rect_bounded(du, RECT_LIMIT as int),
        forall|i: int| 0 <= i < others@.len() ==> snapshot_wf(#[trigger] others@[i]),
        SLOW_VELOCITY <= v0 <= VELOCITY_LIMIT,
    ensures
        ({
            let out = scan_spec(others@, 0, hit, dl, du, dir, entered, v0);
            match r {
                ScanResult::Collide(vv) => out == (ScanOutcome::Collide { velocity: vv })
                    && SLOW_VELOCITY <= vv <= VELOCITY_LIMIT,
                ScanResult::Slow => out == ScanOutcome::Slow,
                ScanResult::Wait(vv) => out == (ScanOutcome::Wait { velocity: vv })
                    && SLOW_VELOCITY <= vv <= VELOCITY_LIMIT,
                ScanResult::Pass => out == ScanOutcome::Pass,
            }
        }),
{
    let n = others.len();
    let mut v = v0;
    let mut i: usize = 0;
    while i < n
        invariant
            i <= n,
            SLOW_VELOCITY <= v <= VELOCITY_LIMIT,
            scan_spec(others@, i as int, hit, dl, du, dir, entered, v) == scan_spec(
                others@,
                0,
                hit,
                dl,
                du,
                dir,
                entered,
                v0,
            ),
        decreases n - i,
    {
        let o = others[i];
        if hit.overlaps(&o.hit_box) {
            return ScanResult::Collide(v);
        }
        if (du.overlaps(&o.detection_upper) || du.overlaps(&o.detection_lower)) && !(o.state
            == UpdateState::Slowing) {
            return ScanResult::Slow;
        }
        if !entered {
            let too_close = dl.overlaps(&o.hit_box) || du.overlaps(&o.detection_lower)
                || du.overlaps(&o.hit_box);
            if too_close {
                let can_pass = o.state == UpdateState::Waiting && direction_has_priority(
                    dir,
                    o.current_direction,
                ) && !dl.overlaps(&o.hit_box);
                if can_pass {
                    v = SLOW_VELOCITY;
                } else {
                    return ScanResult::Wait(v);
                }
            }
        } else {
            v = TURN_VELOCITY;
        }
        i = i + 1;
    }
    ScanResult::Pass
}

/// The first signal standing at `p`, as `find_light`.
fn find_light_at(lights: &Vec<TrafficLight>, p: Point) -> (r: Option<TrafficLight>)
    ensures
        r == find_light(lights@, p),
        r matches Some(l) ==> l.position == p && lights@.contains(l),
{
    let n = lights.len();
    proof {
        assert(lights@.skip(0) =~= lights@);
    }
    let mut j: usize = 0;
    while j < n
        invariant
            j <= n,
            n == lights@.len(),
            find_light(lights@, p) == find_light(lights@.skip(j as int), p),
        decreases n - j,
    {
        let l = lights[j];
        if l.position == p {
            proof {
                assert(lights@.skip(j as int)[0] == l);
            }
            return Some(l);
        }
        proof {
            assert(lights@.skip(j as int).drop_first() =~= lights@.skip(j as int + 1));
        }
        j = j + 1;
    }
    proof {
        assert(lights@.skip(n as int) =~= Seq::<TrafficLight>::empty());
    }
    None
}

impl Car {
    /// A vehicle standing at `center` with the given footprint, facing
    /// north, at base velocity, with no route yet; both detection zones
    /// start as copies of the hitbox.
    pub fn new(center: Point, w: u32, l: u32) -> (c: Car)
        requires
            point_bounded(center, COORD_LIMIT as int),
            w <= DIM_LIMIT,
            l <= DIM_LIMIT,
        ensures
            c@ == (CarModel {
                hit_box: from_center_spec(center, w, l),
                detection_lower: from_center_spec(center, w, l),
                detection_upper: from_center_spec(center, w, l),
                state: UpdateState::Moving,
                velocity: BASE_VELOCITY,
                width: w,
                length: l,
                path: Seq::<Point>::empty(),
                current_direction: Direction::North,
                current_light: None::<Point>,
            }),
            car_wf(c@),
    {
        let hit_box = Rect::from_center(center, w, l);
        let c = Car {
            hit_box,
            detection_lower: hit_box,
            detection_upper: hit_box,
            state: UpdateState::Moving,
            velocity: BASE_VELOCITY,
            w_l: (w, l),
            path: Vec::new(),
            current_direction: Direction::North,
            current_light: None,
        };
        proof {
            assert(c@ =~= (CarModel {
                hit_box: from_center_spec(center, w, l),
                detection_lower: from_center_spec(center, w, l),
                detection_upper: from_center_spec(center, w, l),
                state: UpdateState::Moving,
                velocity: BASE_VELOCITY,
                width: w,
                length: l,
                path: Seq::<Point>::empty(),
                current_direction: Direction::North,
                current_light: None::<Point>,
            }));
        }
        c
    }

    /// Replace the remaining route.
    pub fn set_path(&mut self, path: Vec<Point>)
        ensures
            final(self)@ == (CarModel { path: path@, ..old(self)@ }),
    {
        self.path = path;
        proof {
            assert(self@ =~= (CarModel { path: self.path@, ..old(self)@ }));
        }
    }

    /// Set the per-tick velocity.
    pub fn set_velocity(&mut self, velocity: u32)
        requires
            SLOW_VELOCITY <= velocity <= VELOCITY_LIMIT,
        ensures
            final(self)@ == (CarModel { velocity, ..old(self)@ }),
    {
        self.velocity = velocity;
        proof {
            assert(self@ =~= (CarModel { velocity, ..old(self)@ }));
        }
    }

    /// Whether this vehicle's facing gives it priority over the peer's.
    pub fn is_on_right(&self, other: &CarSnapshot) -> (r: bool)
        ensures
            r == has_priority(self@.current_direction, other.current_direction),
    {
        direction_has_priority(self.current_direction, other.current_direction)
    }

    pub fn get_detections(&self) -> (r: Option<(Rect, Rect)>)
        ensures
            r == Some((self@.detection_lower, self@.detection_upper)),
    {
        Some((self.detection_lower, self.detection_upper))
    }

    pub fn get_hitbox(&self) -> (r: Rect)
        ensures
            r == self@.hit_box,
    {
        self.hit_box
    }

    pub fn status(&self) -> (r: UpdateState)
        ensures
            r == self@.state,
    {
        self.state
    }

    pub fn facing(&self) -> (r: Direction)
        ensures
            r == self@.current_direction,
    {
        self.current_direction
    }

    pub fn get_velocity(&self) -> (r: u32)
        ensures
            r == self@.velocity,
    {
        self.velocity
    }

    pub fn waypoints_remaining(&self) -> (r: usize)
        ensures
            r == self@.path.len(),
    {
        self.path.len()
    }

    /// The read-only view this vehicle publishes to its peers.
    pub fn snapshot(&self) -> (s: CarSnapshot)
        ensures
            s == snapshot_spec(self@),
    {
        CarSnapshot {
            hit_box: self.hit_box,
            detection_lower: self.detection_lower,
            detection_upper: self.detection_upper,
            state: self.state,
            current_direction: self.current_direction,
        }
    }

    /// Whether the hitbox has entered the junction's bounding region.
    pub fn has_entered_intersection(&self) -> (r: bool)
        requires
            rect_bounded(self@.hit_box, RECT_LIMIT as int),
        ensures
            r == entered_junction(self@.hit_box),
    {
        let area = Rect { x: 470, y: 470, w: 140, h: 140 };
        self.hit_box.overlaps(&area)
    }

    /// The signal-gating step, as `gate_result`: updates the latched signal
    /// and reports whether the vehicle must wait at a red signal.
    #[verifier::rlimit(100)]
    #[verifier::spinoff_prover]
    fn gate_step(&mut self, traffic_lights: &Vec<TrafficLight>) -> (w: bool)
        requires
            rect_bounded(old(self)@.hit_box, RECT_LIMIT as int),
            point_bounded(center_spec(old(self)@.hit_box), COORD_LIMIT as int),
            forall|i: int|
                0 <= i < traffic_lights@.len() ==> light_pos_wf(#[trigger] traffic_lights@[i]),
        ensures
            ({
                let gate = gate_result(
                    old(self)@.hit_box,
                    old(self)@.current_direction,
                    old(self)@.current_light,
                    traffic_lights@,
                );
                &&& w == gate.0
                &&& final(self)@ == (CarModel { current_light: gate.1, ..old(self)@ })
            }),
    {
        let entered = self.has_entered_intersection();
        if !entered {
            let lp = left_light_position(self.current_direction);
            match self.current_light {
                Some(tp) => {
                    if tp == lp {
                        match find_light_at(traffic_lights, tp) {
                            Some(l) => {
                                if !l.is_green() {
                                    proof {
                                        assert(self@ =~= (CarModel {
                                            current_light: Some(tp),
                                            ..old(self)@
                                        }));
                                    }
                                    return true;
                                }
                            },
                            None => {},
                        }
                    }
                },
                None => {
                    match find_light_at(traffic_lights, lp) {
                        Some(l) => {
                            let sq_self = Rect::from_center(self.hit_box.center(), 100, 100);
                            let sq_light = Rect::from_center(l.position, 100, 100);
                            if sq_self.overlaps(&sq_light) {
                                self.current_light = Some(l.position);
                                proof {
                                    assert(self@ =~= (CarModel {
                                        current_light: Some(l.position),
                                        ..old(self)@
                                    }));
                                }
                                if !l.is_green() {
                                    return true;
                                }
                            }
                        },
                        None => {},
                    }
                },
            }
        } else {
            self.current_light = None;
        }
        proof {
            let gate = gate_result(
                old(self)@.hit_box,
                old(self)@.current_direction,
                old(self)@.current_light,
                traffic_lights@,
            );
            assert(self@ =~= (CarModel { current_light: gate.1, ..old(self)@ }));
        }
        false
    }

    /// One tick of the decision engine, against a snapshot of every other
    /// vehicle and the current signals: exactly [`update_spec`] of the old
    /// value, and the hitbox center moves by at most the tick's starting
    /// velocity on each axis.
    #[verifier::loop_isolation(false)]
    #[verifier::rlimit(100)]
    #[verifier::spinoff_prover]
    pub fn update(&mut self, others: &Vec<CarSnapshot>, traffic_lights: &Vec<TrafficLight>) -> (r:
        UpdateState)
        requires
            car_wf(old(self)@),
            forall|i: int| 0 <= i < others@.len() ==> snapshot_wf(#[trigger] others@[i]),
            forall|i: int|
                0 <= i < traffic_lights@.len() ==> light_pos_wf(#[trigger] traffic_lights@[i]),
        ensures
            final(self)@ == update_spec(old(self)@, others@, traffic_lights@),
            car_wf(final(self)@),
            r == final(self)@.state,
            ({
                let oc = center_spec(old(self)@.hit_box);
                let nc = center_spec(final(self)@.hit_box);
                &&& -(old(self)@.velocity as int) <= nc.x - oc.x <= old(self)@.velocity as int
                &&& -(old(self)@.velocity as int) <= nc.y - oc.y <= old(self)@.velocity as int
            }),
    {
        let ghost pre = self@;
        let ghost spec_out = update_spec(pre, others@, traffic_lights@);
        let ghost gate = gate_result(
            pre.hit_box,
            pre.current_direction,
            pre.current_light,
            traffic_lights@,
        );

        if self.path.len() == 0 {
            self.state = UpdateState::Finished;
            proof {
                lemma_update_spec_finished(pre, others@, traffic_lights@);
                assert(self@ =~= spec_out);
            }
            return UpdateState::Finished;
        }

        // Signal gating, only while still outside the junction.
        let entered = self.has_entered_intersection();
        if self.gate_step(traffic_lights) {
            self.state = UpdateState::Waiting;
            proof {
                lemma_update_spec_gated(pre, others@, traffic_lights@);
                assert(self@ =~= spec_out);
            }
            return UpdateState::Waiting;
        }
        proof {
            assert(!gate.0);
            assert(self@.current_light == gate.1);
        }

        // Heading toward the front waypoint.
        let target = self.path[0];
        let pos = self.hit_box.center();
        proof {
            assert(target == pre.path[0]);
            assert(point_bounded(pre.path[0], COORD_LIMIT as int));
            assert(pos == center_spec(pre.hit_box));
        }
        let dx: i64 = target.x - pos.x;
        let dy: i64 = target.y - pos.y;
        let adx: u64 = if dx < 0 {
            (-dx) as u64
        } else {
            dx as u64
        };
        let ady: u64 = if dy < 0 {
            (-dy) as u64
        } else {
            dy as u64
        };
        let dir2 = if adx > ady {
            if dx <= 0 {
                Direction::East
            } else {
                Direction::West
            }
        } else {
            if dy <= 0 {
                Direction::South
            } else {
                Direction::North
            }
        };
        self.current_direction = dir2;
        proof {
            assert(dir2 == heading_spec(dx as int, dy as int));
            assert(adx as int * adx as int == dx as int * dx as int) by (nonlinear_arith)
                requires
                    adx == if dx < 0 { -(dx as int) } else { dx as int },
            ;
            assert(ady as int * ady as int == dy as int * dy as int) by (nonlinear_arith)
                requires
                    ady == if dy < 0 { -(dy as int) } else { dy as int },
            ;
            assert(adx as int * adx as int + ady as int * ady as int <= 2 * 2_100_000 * 2_100_000)
                by (nonlinear_arith)
                requires
                    adx <= 2_100_000,
                    ady <= 2_100_000,
            ;
        }
        let dist2: u64 = adx * adx + ady * ady;
        let v = self.velocity;
        proof {
            assert((v as int) * (v as int) <= 100_000_000) by (nonlinear_arith)
                requires
                    v <= 10_000,
            ;
        }

        // Waypoint arrival: snap to the target and pop it.
        if dist2 < (v as u64) * (v as u64) {
            let w0 = self.hit_box.w;
            let h0 = self.hit_box.h;
            self.hit_box = Rect::from_center(target, w0, h0);
            let _reached = self.path.remove(0);
            self.velocity = BASE_VELOCITY;
            self.state = UpdateState::Moving;
            proof {
                assert(adx < v && ady < v) by (nonlinear_arith)
                    requires
                        (adx as int * adx as int + ady as int * ady as int) < (v as int) * (
                        v as int),
                        adx >= 0,
                        ady >= 0,
                        v >= 0,
                ;
                lemma_update_spec_arrival(pre, others@, traffic_lights@);
                assert(self@ =~= spec_out);
                assert(forall|i: int|
                    0 <= i < self@.path.len() ==> point_bounded(
                        #[trigger] self@.path[i],
                        COORD_LIMIT as int,
                    ));
            }
            return UpdateState::Moving;
        }

        // Tentative motion: the moved hitbox and both detection zones.
        let md = compute_motion(self.hit_box, v, self.w_l.0, self.w_l.1, target);
        let new_hitbox = md.0;
        let dl = md.1;
        let du = md.2;
        self.detection_lower = dl;
        self.detection_upper = du;
        let ghost m = motion_spec(pre.hit_box, pre.velocity, pre.width, pre.length, target);
        proof {
            assert(m == (new_hitbox, dl, du));
            lemma_update_spec_scan(pre, others@, traffic_lights@);
        }

        // Peer evaluation: first match decides.
        let ghost scan_all = scan_spec(
            others@,
            0,
            pre.hit_box,
            dl,
            du,
            dir2,
            entered,
            pre.velocity,
        );
        match scan_peers(others, self.hit_box, dl, du, dir2, entered, v) {
            ScanResult::Collide(vv) => {
                self.velocity = vv;
                self.state = UpdateState::Collided;
                proof {
                    assert(scan_all == ScanOutcome::Collide { velocity: vv });
                    assert(self@ =~= spec_out);
                }
                UpdateState::Collided
            },
            ScanResult::Slow => {
                self.velocity = SLOW_VELOCITY;
                self.hit_box = new_hitbox;
                self.state = UpdateState::Slowing;
                proof {
                    assert(scan_all == ScanOutcome::Slow);
                    assert(self@ =~= spec_out);
                }
                UpdateState::Slowing
            },
            ScanResult::Wait(vv) => {
                self.velocity = vv;
                self.state = UpdateState::Waiting;
                proof {
                    assert(scan_all == ScanOutcome::Wait { velocity: vv });
                    assert(self@ =~= spec_out);
                }
                UpdateState::Waiting
            },
            ScanResult::Pass => {
                self.hit_box = new_hitbox;
                self.velocity = BASE_VELOCITY;
                self.state = UpdateState::Moving;
                proof {
                    assert(scan_all == ScanOutcome::Pass);
                    assert(self@ =~= spec_out);
                }
                UpdateState::Moving
            },
        }
    }
}

} // verus!
