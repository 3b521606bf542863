//! The route table: for every ordered pair of distinct approaches, the fixed
//! entry point and the two interior/exit waypoints of the polyline a vehicle
//! follows through the junction. Same-approach pairs are invalid: no U-turns
//! are modeled. Entry lanes are offset for right-hand traffic, with two
//! parallel one-way lanes per road.

use vstd::prelude::*;
use crate::geometry::{Point, point_bounded, from_center_spec, COORD_LIMIT, DIM_LIMIT};
use crate::direction::Direction;
use crate::car::{Car, CarModel, UpdateState, car_wf, BASE_VELOCITY};

verus! {

/// Coordinate of the spawn/exit border beyond the top-left of the canvas.
pub const BORDER_UP_LEFT: i64 = -40;

/// Coordinate of the spawn/exit border beyond the bottom-right of the canvas.
pub const BORDER_DOWN_RIGHT: i64 = 1120;

#[derive(Clone, Copy, Debug, PartialEq, Eq, Structural)]
pub enum RouteError {
    /// The origin and destination approach coincide.
    InvalidRoute,
}

/// A route exists exactly for the twelve ordered non-reversing pairs.
pub open spec fn route_defined(from: Direction, to: Direction) -> bool {
    from != to
}

/// The fixed polyline for a defined pair: entry point, interior waypoint,
/// exit waypoint.
pub open spec fn route_points(from: Direction, to: Direction) -> (Point, Point, Point) {
    match (from, to) {
        (Direction::North, Direction::South) => (
            Point { x: 490, y: BORDER_UP_LEFT },
            Point { x: 490, y: 490 },
            Point { x: 490, y: BORDER_DOWN_RIGHT },
        ),
        (Direction::North, Direction::East) => (
            Point { x: 490, y: BORDER_UP_LEFT },
            Point { x: 490, y: 540 },
            Point { x: BORDER_DOWN_RIGHT, y: 590 },
        ),
        (Direction::North, Direction::West) => (
            Point { x: 490, y: BORDER_UP_LEFT },
            Point { x: 490, y: 490 },
            Point { x: BORDER_UP_LEFT, y: 490 },
        ),
        (Direction::South, Direction::North) => (
            Point { x: 590, y: BORDER_DOWN_RIGHT },
            Point { x: 590, y: 590 },
            Point { x: 590, y: BORDER_UP_LEFT },
        ),
        (Direction::South, Direction::East) => (
            Point { x: 590, y: BORDER_DOWN_RIGHT },
            Point { x: 590, y: 590 },
            Point { x: BORDER_DOWN_RIGHT, y: 590 },
        ),
        (Direction::South, Direction::West) => (
            Point { x: 590, y: BORDER_DOWN_RIGHT },
            Point { x: 590, y: 490 },
            Point { x: BORDER_UP_LEFT, y: 490 },
        ),
        (Direction::East, Direction::West) => (
            Point { x: BORDER_DOWN_RIGHT, y: 490 },
            Point { x: 490, y: 490 },
            Point { x: BORDER_UP_LEFT, y: 490 },
        ),
        (Direction::East, Direction::North) => (
            Point { x: BORDER_DOWN_RIGHT, y: 490 },
            Point { x: 590, y: 490 },
            Point { x: 590, y: BORDER_UP_LEFT },
        ),
        (Direction::East, Direction::South) => (
            Point { x: BORDER_DOWN_RIGHT, y: 490 },
            Point { x: 540, y: 490 },
            Point { x: 540, y: BORDER_DOWN_RIGHT },
        ),
        (Direction::West, Direction::East) => (
            Point { x: BORDER_UP_LEFT, y: 590 },
            Point { x: 590, y: 590 },
            Point { x: BORDER_DOWN_RIGHT, y: 590 },
        ),
        (Direction::West, Direction::North) => (
            Point { x: BORDER_UP_LEFT, y: 590 },
            Point { x: 540, y: 590 },
            Point { x: 490, y: BORDER_UP_LEFT },
        ),
        (Direction::West, Direction::South) => (
            Point { x: BORDER_UP_LEFT, y: 590 },
            Point { x: 540, y: 590 },
            Point { x: 490, y: BORDER_DOWN_RIGHT },
        ),
        _ => (Point { x: 0, y: 0 }, Point { x: 0, y: 0 }, Point { x: 0, y: 0 }),
    }
}

/// Look a route up: the entry point and the two remaining waypoints for a
/// defined pair, and `InvalidRoute` exactly for a same-approach pair.
pub fn get_points(from: Direction, to: Direction) -> (r: Result<(Point, Vec<Point>), RouteError>)
    ensures
        r is Ok <==> route_defined(from, to),
        r is Err ==> r == Err::<(Point, Vec<Point>), RouteError>(RouteError::InvalidRoute),
        r matches Ok(v) ==> ({
            let (entry, mid, exit) = route_points(from, to);
            &&& v.0 == entry
            &&& v.1@ =~= seq![mid, exit]
            &&& point_bounded(entry, COORD_LIMIT as int)
            &&& point_bounded(mid, COORD_LIMIT as int)
            &&& point_bounded(exit, COORD_LIMIT as int)
        }),
{
    let pts: (Point, Point, Point) = match (from, to) {
        (Direction::North, Direction::South) => (
            Point { x: 490, y: BORDER_UP_LEFT },
            Point { x: 490, y: 490 },
            Point { x: 490, y: BORDER_DOWN_RIGHT },
        ),
        (Direction::North, Direction::East) => (
            Point { x: 490, y: BORDER_UP_LEFT },
            Point { x: 490, y: 540 },
            Point { x: BORDER_DOWN_RIGHT, y: 590 },
        ),
        (Direction::North, Direction::West) => (
            Point { x: 490, y: BORDER_UP_LEFT },
            Point { x: 490, y: 490 },
            Point { x: BORDER_UP_LEFT, y: 490 },
        ),
        (Direction::South, Direction::North) => (
            Point { x: 590, y: BORDER_DOWN_RIGHT },
            Point { x: 590, y: 590 },
            Point { x: 590, y: BORDER_UP_LEFT },
        ),
        (Direction::South, Direction::East) => (
            Point { x: 590, y: BORDER_DOWN_RIGHT },
            Point { x: 590, y: 590 },
            Point { x: BORDER_DOWN_RIGHT, y: 590 },
        ),
        (Direction::South, Direction::West) => (
            Point { x: 590, y: BORDER_DOWN_RIGHT },
            Point { x: 590, y: 490 },
            Point { x: BORDER_UP_LEFT, y: 490 },
        ),
        (Direction::East, Direction::West) => (
            Point { x: BORDER_DOWN_RIGHT, y: 490 },
            Point { x: 490, y: 490 },
            Point { x: BORDER_UP_LEFT, y: 490 },
        ),
        (Direction::East, Direction::North) => (
            Point { x: BORDER_DOWN_RIGHT, y: 490 },
            Point { x: 590, y: 490 },
            Point { x: 590, y: BORDER_UP_LEFT },
        ),
        (Direction::East, Direction::South) => (
            Point { x: BORDER_DOWN_RIGHT, y: 490 },
            Point { x: 540, y: 490 },
            Point { x: 540, y: BORDER_DOWN_RIGHT },
        ),
        (Direction::West, Direction::East) => (
            Point { x: BORDER_UP_LEFT, y: 590 },
            Point { x: 590, y: 590 },
            Point { x: BORDER_DOWN_RIGHT, y: 590 },
        ),
        (Direction::West, Direction::North) => (
            Point { x: BORDER_UP_LEFT, y: 590 },
            Point { x: 540, y: 590 },
            Point { x: 490, y: BORDER_UP_LEFT },
        ),
        (Direction::West, Direction::South) => (
            Point { x: BORDER_UP_LEFT, y: 590 },
            Point { x: 540, y: 590 },
            Point { x: 490, y: BORDER_DOWN_RIGHT },
        ),
        _ => {
            return Err(RouteError::InvalidRoute);
        },
    };
    let mut tail: Vec<Point> = Vec::new();
    tail.push(pts.1);
    tail.push(pts.2);
    Ok((pts.0, tail))
}

/// A defined route stays defined when read backwards, and a same-approach
/// pair is never defined: looking up (origin, destination) and then
/// (destination, origin) never meets `InvalidRoute`, while (x, x) always
/// does.
pub proof fn lemma_route_round_trip(from: Direction, to: Direction)
    ensures
        from != to ==> route_defined(from, to) && route_defined(to, from),
        !route_defined(from, from),
{
}

/// Build a vehicle for a spawn request: look the route up, stand the
/// vehicle on the entry point with the requested footprint, and hand it the
/// two remaining waypoints. A same-approach request is rejected and no
/// vehicle is created.
pub fn spawn_car(from: Direction, to: Direction, car_w: u32, car_l: u32) -> (r: Result<
    Car,
    RouteError,
>)
    requires
        car_w <= DIM_LIMIT,
        car_l <= DIM_LIMIT,
    ensures
        r is Ok <==> route_defined(from, to),
        r matches Ok(car) ==> ({
            let (entry, mid, exit) = route_points(from, to);
            &&& car@ == (CarModel {
                hit_box: from_center_spec(entry, car_w, car_l),
                detection_lower: from_center_spec(entry, car_w, car_l),
                detection_upper: from_center_spec(entry, car_w, car_l),
                state: UpdateState::Moving,
                velocity: BASE_VELOCITY,
                width: car_w,
                length: car_l,
                path: seq![mid, exit],
                current_direction: Direction::North,
                current_light: None::<Point>,
            })
            &&& car_wf(car@)
        }),
{
    let (entry, tail) = match get_points(from, to) {
        Ok(v) => v,
        Err(e) => {
            return Err(e);
        },
    };
    let mut car = Car::new(entry, car_w, car_l);
    car.set_path(tail);
    proof {
        let (e0, mid, exit) = route_points(from, to);
        assert(car@ =~= (CarModel {
            hit_box: from_center_spec(e0, car_w, car_l),
            detection_lower: from_center_spec(e0, car_w, car_l),
            detection_upper: from_center_spec(e0, car_w, car_l),
            state: UpdateState::Moving,
            velocity: BASE_VELOCITY,
            width: car_w,
            length: car_l,
            path: seq![mid, exit],
            current_direction: Direction::North,
            current_light: None::<Point>,
        }));
    }
    Ok(car)
}

} // verus!
