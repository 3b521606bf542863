use smart_road::geometry::Point;
use smart_road::direction::Direction;
use smart_road::routes::{get_points, spawn_car, RouteError, BORDER_UP_LEFT, BORDER_DOWN_RIGHT};
use smart_road::car::UpdateState;

const ALL: [Direction; 4] = [Direction::North, Direction::South, Direction::East, Direction::West];

#[test]
fn route_lookup_round_trip_never_invalid_for_distinct_pairs() {
    for &from in ALL.iter() {
        for &to in ALL.iter() {
            if from != to {
                assert!(get_points(from, to).is_ok());
                assert!(get_points(to, from).is_ok());
            }
        }
    }
}

#[test]
fn route_lookup_same_approach_is_always_invalid() {
    for &d in ALL.iter() {
        match get_points(d, d) {
            Err(RouteError::InvalidRoute) => {},
            Ok(_) => panic!("same-approach route must be invalid"),
        }
    }
}

#[test]
fn route_north_to_south_is_the_straight_left_lane() {
    let (entry, tail) = get_points(Direction::North, Direction::South).unwrap();
    assert_eq!(entry, Point { x: 490, y: BORDER_UP_LEFT });
    assert_eq!(tail.len(), 2);
    assert_eq!(tail[0], Point { x: 490, y: 490 });
    assert_eq!(tail[1], Point { x: 490, y: BORDER_DOWN_RIGHT });
}

#[test]
fn route_west_to_north_turns_up_through_the_junction() {
    let (entry, tail) = get_points(Direction::West, Direction::North).unwrap();
    assert_eq!(entry, Point { x: BORDER_UP_LEFT, y: 590 });
    assert_eq!(tail, vec![Point { x: 540, y: 590 }, Point { x: 490, y: BORDER_UP_LEFT }]);
}

#[test]
fn every_route_has_exactly_two_remaining_waypoints() {
    for &from in ALL.iter() {
        for &to in ALL.iter() {
            if from != to {
                let (_, tail) = get_points(from, to).unwrap();
                assert_eq!(tail.len(), 2);
            }
        }
    }
}

#[test]
fn spawn_car_stands_on_the_entry_point_with_the_route_tail() {
    let car = spawn_car(Direction::South, Direction::West, 32, 45).unwrap();
    // entry (590, 1120), centered 32 by 45 hitbox
    let hit = car.get_hitbox();
    assert_eq!(hit.x, 590 - 16);
    assert_eq!(hit.y, 1120 - 22);
    assert_eq!(hit.w, 32);
    assert_eq!(hit.h, 45);
    assert_eq!(car.status(), UpdateState::Moving);
    assert_eq!(car.waypoints_remaining(), 2);
    assert_eq!(car.get_velocity(), 4);
}

#[test]
fn spawn_car_rejects_a_u_turn_and_creates_nothing() {
    assert!(spawn_car(Direction::East, Direction::East, 32, 45).is_err());
}
