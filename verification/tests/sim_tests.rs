use smart_road::geometry::Point;
use smart_road::direction::Direction;
use smart_road::signal::TrafficLight;
use smart_road::car::Car;
use smart_road::sim::step;

#[test]
fn step_advances_every_signal_once() {
    let mut cars: Vec<Car> = Vec::new();
    let mut lights = TrafficLight::reposition_for_entry_lanes();
    let before: Vec<_> = lights.iter().map(|l| l.state).collect();
    let report = step(&mut cars, &mut lights);
    assert_eq!(report.passed, 0);
    assert_eq!(report.collided, 0);
    assert_eq!(lights.len(), 4);
    for (l, s) in lights.iter().zip(before.iter()) {
        assert_eq!(l.timer, 1);
        assert_eq!(l.state, *s);
    }
}

#[test]
fn step_removes_and_counts_both_colliding_vehicles() {
    let mut a = Car::new(Point { x: 590, y: 650 }, 32, 45);
    a.set_path(vec![Point { x: 590, y: 590 }]);
    let mut b = Car::new(Point { x: 590, y: 655 }, 32, 45);
    b.set_path(vec![Point { x: 590, y: 715 }]);
    let mut cars = vec![a, b];
    let mut lights = TrafficLight::reposition_for_entry_lanes();
    let report = step(&mut cars, &mut lights);
    assert_eq!(report.collided, 2);
    assert_eq!(report.passed, 0);
    assert_eq!(cars.len(), 0);
}

#[test]
fn step_removes_and_counts_a_finished_vehicle() {
    let done = Car::new(Point { x: 0, y: 0 }, 32, 45);
    let mut moving = Car::new(Point { x: 590, y: 650 }, 32, 45);
    moving.set_path(vec![Point { x: 590, y: 590 }]);
    let mut cars = vec![done, moving];
    let mut lights: Vec<TrafficLight> = Vec::new();
    let report = step(&mut cars, &mut lights);
    assert_eq!(report.passed, 1);
    assert_eq!(report.collided, 0);
    // the moving vehicle stays, in order, and has advanced
    assert_eq!(cars.len(), 1);
    assert_eq!(cars[0].facing(), Direction::South);
}

#[test]
fn a_full_spawned_run_passes_through_the_simulation() {
    let mut cars = vec![
        smart_road::routes::spawn_car(Direction::North, Direction::South, 32, 45).unwrap(),
    ];
    let mut lights = TrafficLight::reposition_for_entry_lanes();
    let mut passed = 0;
    let mut collided = 0;
    for _ in 0..2000 {
        let report = step(&mut cars, &mut lights);
        passed += report.passed;
        collided += report.collided;
        if cars.is_empty() {
            break;
        }
    }
    assert!(cars.is_empty(), "vehicle never left the simulation");
    assert_eq!(passed, 1);
    assert_eq!(collided, 0);
}
