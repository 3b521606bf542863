use smart_road::geometry::Point;
use smart_road::direction::Direction;
use smart_road::signal::{TrafficLight, TrafficLightState, SIGNAL_PERIOD};

#[test]
fn new_signal_starts_with_given_state_and_zero_timer() {
    let l = TrafficLight::new(
        Point { x: 470, y: 470 },
        TrafficLightState::Green,
        Direction::North,
    );
    assert_eq!(l.position, Point { x: 470, y: 470 });
    assert_eq!(l.state, TrafficLightState::Green);
    assert_eq!(l.timer, 0);
    assert!(l.is_green());
}

#[test]
fn signal_flips_exactly_once_per_period() {
    let mut l = TrafficLight::new(Point { x: 0, y: 0 }, TrafficLightState::Green, Direction::North);
    for tick in 1..=SIGNAL_PERIOD {
        l.update();
        if tick < SIGNAL_PERIOD {
            assert_eq!(l.state, TrafficLightState::Green, "flipped early at tick {}", tick);
        }
    }
    assert_eq!(l.state, TrafficLightState::Red);
    assert_eq!(l.timer, 0);
}

#[test]
fn signal_returns_to_initial_state_after_two_periods() {
    let mut l = TrafficLight::new(Point { x: 0, y: 0 }, TrafficLightState::Red, Direction::East);
    for _ in 0..2 * SIGNAL_PERIOD {
        l.update();
    }
    assert_eq!(l.state, TrafficLightState::Red);
    assert_eq!(l.timer, 0);
}

#[test]
fn initial_signals_form_two_opposing_pairs() {
    let lights = TrafficLight::reposition_for_entry_lanes();
    assert_eq!(lights.len(), 4);
    let north = &lights[0];
    let south = &lights[1];
    let east = &lights[2];
    let west = &lights[3];
    assert_eq!(north.direction, Direction::North);
    assert_eq!(south.direction, Direction::South);
    assert_eq!(east.direction, Direction::East);
    assert_eq!(west.direction, Direction::West);
    // the axis pairs agree with each other and disagree with the other axis
    assert_eq!(north.state, south.state);
    assert_eq!(east.state, west.state);
    assert_ne!(north.state, east.state);
    assert_eq!(north.state, TrafficLightState::Green);
    assert_eq!(east.state, TrafficLightState::Red);
}

#[test]
fn initial_signals_stand_at_their_approach_positions() {
    let lights = TrafficLight::reposition_for_entry_lanes();
    assert_eq!(lights[0].position, Point { x: 470, y: 470 });
    assert_eq!(lights[1].position, Point { x: 610, y: 610 });
    assert_eq!(lights[2].position, Point { x: 610, y: 470 });
    assert_eq!(lights[3].position, Point { x: 470, y: 610 });
}

#[test]
fn opposing_pairs_stay_opposed_over_many_ticks() {
    let mut lights = TrafficLight::reposition_for_entry_lanes();
    for _ in 0..3 * SIGNAL_PERIOD {
        for l in lights.iter_mut() {
            l.update();
        }
        assert_eq!(lights[0].state, lights[1].state);
        assert_eq!(lights[2].state, lights[3].state);
        assert_ne!(lights[0].state, lights[2].state);
    }
}
