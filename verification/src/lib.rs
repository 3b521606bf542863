//! A verified core for a four-way signalized intersection simulation.
//!
//! Vehicles follow fixed polyline routes through the junction, gate on
//! traffic signals while approaching, anticipate conflicts with forward
//! detection zones, and resolve right-of-way by a fixed directional
//! priority. The per-tick decision engine, the signal state machine, the
//! route table and the orchestration of one simulation step live here,
//! each with a contract; rendering and input handling are left to callers.

pub mod car;
pub mod direction;
pub mod geometry;
pub mod routes;
pub mod signal;
pub mod sim;

pub use car::{Car, CarSnapshot, UpdateState};
pub use direction::Direction;
pub use geometry::{Point, Rect};
pub use signal::{TrafficLight, TrafficLightState};
