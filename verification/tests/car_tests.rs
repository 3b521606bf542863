use smart_road::geometry::{Point, Rect};
use smart_road::direction::Direction;
use smart_road::signal::{TrafficLight, TrafficLightState};
use smart_road::car::{Car, CarSnapshot, UpdateState, BASE_VELOCITY, SLOW_VELOCITY};

fn no_lights() -> Vec<TrafficLight> {
    Vec::new()
}

fn far_away_rect() -> Rect {
    Rect { x: -90_000, y: -90_000, w: 10, h: 10 }
}

fn snapshot(hit: Rect, state: UpdateState, dir: Direction) -> CarSnapshot {
    CarSnapshot {
        hit_box: hit,
        detection_lower: far_away_rect(),
        detection_upper: far_away_rect(),
        state,
        current_direction: dir,
    }
}

#[test]
fn empty_route_means_finished_now_and_forever() {
    let mut car = Car::new(Point { x: 0, y: 0 }, 32, 45);
    assert_eq!(car.waypoints_remaining(), 0);
    let st = car.update(&Vec::new(), &no_lights());
    assert_eq!(st, UpdateState::Finished);
    assert_eq!(car.waypoints_remaining(), 0);
    let again = car.update(&Vec::new(), &no_lights());
    assert_eq!(again, UpdateState::Finished);
    assert_eq!(car.waypoints_remaining(), 0);
}

#[test]
fn unhindered_vehicle_moves_toward_its_waypoint() {
    let mut car = Car::new(Point { x: 590, y: 650 }, 32, 45);
    car.set_path(vec![Point { x: 590, y: 590 }]);
    let st = car.update(&Vec::new(), &no_lights());
    assert_eq!(st, UpdateState::Moving);
    assert_eq!(car.facing(), Direction::South);
    // moved 4 units up, re-centered as a 32 by 45 box
    assert_eq!(car.get_hitbox(), Rect { x: 574, y: 624, w: 32, h: 45 });
    // detection zones sit ahead on the heading ray, shifted by the lane offset
    let (lower, upper) = car.get_detections().unwrap();
    assert_eq!(lower, Rect { x: 564, y: 545, w: 72, h: 85 });
    assert_eq!(upper, Rect { x: 564, y: 482, w: 72, h: 85 });
}

#[test]
fn overlapping_vehicles_both_collide_in_the_same_tick() {
    let mut a = Car::new(Point { x: 590, y: 650 }, 32, 45);
    a.set_path(vec![Point { x: 590, y: 590 }]);
    let mut b = Car::new(Point { x: 590, y: 655 }, 32, 45);
    b.set_path(vec![Point { x: 590, y: 715 }]);

    let snap_a = a.snapshot();
    let snap_b = b.snapshot();
    let st_a = a.update(&vec![snap_b], &no_lights());
    let st_b = b.update(&vec![snap_a], &no_lights());
    assert_eq!(st_a, UpdateState::Collided);
    assert_eq!(st_b, UpdateState::Collided);
    // a collided vehicle does not move
    assert_eq!(a.get_hitbox(), Rect { x: 574, y: 628, w: 32, h: 45 });
}

#[test]
fn far_zone_conflict_slows_to_exactly_the_slow_velocity() {
    let mut car = Car::new(Point { x: 590, y: 650 }, 32, 45);
    car.set_path(vec![Point { x: 590, y: 590 }]);
    // a peer whose near detection zone covers this vehicle's far zone
    let peer = CarSnapshot {
        hit_box: far_away_rect(),
        detection_lower: Rect { x: 564, y: 482, w: 72, h: 85 },
        detection_upper: far_away_rect(),
        state: UpdateState::Moving,
        current_direction: Direction::North,
    };
    let st = car.update(&vec![peer], &no_lights());
    assert_eq!(st, UpdateState::Slowing);
    assert_eq!(car.get_velocity(), SLOW_VELOCITY);
    assert!(car.get_velocity() >= SLOW_VELOCITY);
    // slowing commits the tentative move and is not a collision
    assert_eq!(car.get_hitbox(), Rect { x: 574, y: 624, w: 32, h: 45 });
}

#[test]
fn already_slowing_peer_zones_do_not_retrigger_slowdown() {
    let mut car = Car::new(Point { x: 590, y: 650 }, 32, 45);
    car.set_path(vec![Point { x: 590, y: 590 }]);
    let peer = CarSnapshot {
        hit_box: far_away_rect(),
        detection_lower: Rect { x: 564, y: 482, w: 72, h: 85 },
        detection_upper: far_away_rect(),
        state: UpdateState::Slowing,
        current_direction: Direction::North,
    };
    let st = car.update(&vec![peer], &no_lights());
    // the slowdown branch is skipped for a peer already slowing, but the
    // contact still counts as too close outside the junction: the vehicle
    // waits in place instead of slowing
    assert_eq!(st, UpdateState::Waiting);
    assert_eq!(car.get_velocity(), BASE_VELOCITY);
    assert_eq!(car.get_hitbox(), Rect { x: 574, y: 628, w: 32, h: 45 });
}

#[test]
fn south_passes_a_waiting_east_vehicle_it_has_priority_over() {
    // a vehicle from the south, about to cross; a vehicle from the east
    // waits at the conflict point ahead of it
    let mut south = Car::new(Point { x: 590, y: 650 }, 32, 45);
    south.set_path(vec![Point { x: 590, y: 590 }]);
    let east_peer = snapshot(
        Rect { x: 584, y: 483, w: 32, h: 45 },
        UpdateState::Waiting,
        Direction::East,
    );
    let st = south.update(&vec![east_peer], &no_lights());
    // south has priority over east: it proceeds past the waiting peer
    assert_eq!(st, UpdateState::Moving);
    assert_eq!(south.get_hitbox(), Rect { x: 574, y: 624, w: 32, h: 45 });
}

#[test]
fn east_waits_for_a_waiting_south_vehicle_it_has_no_priority_over() {
    let mut east = Car::new(Point { x: 650, y: 515 }, 32, 45);
    east.set_path(vec![Point { x: 470, y: 515 }]);
    let south_peer = snapshot(
        Rect { x: 524, y: 483, w: 32, h: 45 },
        UpdateState::Waiting,
        Direction::South,
    );
    let st = east.update(&vec![south_peer], &no_lights());
    // east has no priority over south: it waits and does not move
    assert_eq!(st, UpdateState::Waiting);
    assert_eq!(east.get_hitbox(), Rect { x: 634, y: 493, w: 32, h: 45 });
}

#[test]
fn priority_is_a_strict_clockwise_cycle() {
    let cases = [
        (Direction::South, Direction::East),
        (Direction::East, Direction::North),
        (Direction::North, Direction::West),
        (Direction::West, Direction::South),
    ];
    for &(a, b) in cases.iter() {
        let mut car = Car::new(Point { x: 0, y: 0 }, 32, 45);
        // drive the facing by one tick toward a matching waypoint
        let target = match a {
            Direction::North => Point { x: 0, y: 100 },
            Direction::South => Point { x: 0, y: -100 },
            Direction::East => Point { x: -100, y: 0 },
            Direction::West => Point { x: 100, y: 0 },
        };
        car.set_path(vec![target]);
        car.update(&Vec::new(), &no_lights());
        assert_eq!(car.facing(), a);
        let peer = snapshot(far_away_rect(), UpdateState::Waiting, b);
        assert!(car.is_on_right(&peer), "{:?} must have priority over {:?}", a, b);
        let reverse = snapshot(far_away_rect(), UpdateState::Waiting, a);
        let mut other = Car::new(Point { x: 0, y: 0 }, 32, 45);
        other.current_direction = b;
        assert!(!other.is_on_right(&reverse), "{:?} must not have priority over {:?}", b, a);
    }
}

#[test]
fn red_signal_holds_the_vehicle_once_latched() {
    let lights = vec![TrafficLight::new(
        Point { x: 610, y: 610 },
        TrafficLightState::Red,
        Direction::South,
    )];
    let mut car = Car::new(Point { x: 590, y: 650 }, 32, 45);
    car.set_path(vec![Point { x: 590, y: 590 }]);
    // first tick: the facing is still the spawn default, no signal matches,
    // the vehicle moves and turns its facing south
    let st1 = car.update(&Vec::new(), &lights);
    assert_eq!(st1, UpdateState::Moving);
    assert_eq!(car.facing(), Direction::South);
    let before = car.get_hitbox();
    // second tick: the south signal is latched and red, so the vehicle waits
    let st2 = car.update(&Vec::new(), &lights);
    assert_eq!(st2, UpdateState::Waiting);
    assert_eq!(car.get_hitbox(), before);
}

#[test]
fn green_signal_lets_the_vehicle_through() {
    let lights = vec![TrafficLight::new(
        Point { x: 610, y: 610 },
        TrafficLightState::Green,
        Direction::South,
    )];
    let mut car = Car::new(Point { x: 590, y: 650 }, 32, 45);
    car.set_path(vec![Point { x: 590, y: 590 }]);
    car.update(&Vec::new(), &lights);
    let st = car.update(&Vec::new(), &lights);
    assert_eq!(st, UpdateState::Moving);
}

#[test]
fn north_to_south_run_finishes_after_both_waypoints() {
    let mut car = smart_road::routes::spawn_car(Direction::North, Direction::South, 32, 45)
        .unwrap();
    assert_eq!(car.waypoints_remaining(), 2);
    let lights = TrafficLight::reposition_for_entry_lanes();  // north entry is green
    let mut prev = car.get_hitbox();
    let mut ticks: u32 = 0;
    loop {
        let st = car.update(&Vec::new(), &lights);
        ticks += 1;
        let now = car.get_hitbox();
        // per-axis advance is bounded by the base velocity
        assert!((now.x - prev.x).abs() <= BASE_VELOCITY as i64);
        assert!((now.y - prev.y).abs() <= BASE_VELOCITY as i64);
        prev = now;
        match st {
            UpdateState::Finished => break,
            UpdateState::Moving => {},
            other => panic!("unexpected state {:?} at tick {}", other, ticks),
        }
        assert!(ticks < 1000, "vehicle never finished");
    }
    // 530 units then 630 units at 4 per tick, snapping on the last short
    // step of each leg, plus the finishing tick
    assert_eq!(ticks, 292);
    assert_eq!(car.waypoints_remaining(), 0);
}

#[test]
fn random_without_never_returns_the_excluded_direction() {
    for _ in 0..100 {
        assert_ne!(Direction::random_without(Direction::West), Direction::West);
        assert_ne!(Direction::random_without(Direction::North), Direction::North);
    }
}

#[test]
fn random_directions_cover_all_four_approaches() {
    let mut seen = [false; 4];
    for _ in 0..200 {
        let i = match Direction::random() {
            Direction::North => 0,
            Direction::South => 1,
            Direction::East => 2,
            Direction::West => 3,
        };
        seen[i] = true;
    }
    assert_eq!(seen, [true; 4]);
}
