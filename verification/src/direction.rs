//! The four compass approaches. A vehicle's facing is named after the
//! approach it is coming from: a vehicle facing `North` entered from the
//! north edge and travels toward the south edge.

use vstd::prelude::*;
use rand::Rng;

verus! {

#[derive(Clone, Copy, Debug, PartialEq, Eq, Structural)]
pub enum Direction {
    North,
    South,
    West,
    East,
}

/// Relies on `rand::thread_rng` and `rand::Rng::gen_range`: a sample from
/// the range `0..n`, uniform over it; `gen_range` panics only on an empty
/// range, which `n >= 1` rules out.
#[verifier::external_body]
fn sample_below(n: u32) -> (r: u32)
    requires
        n >= 1,
    ensures
        r < n,
{
    rand::thread_rng().gen_range(0..n)
}

impl Direction {
    /// A uniformly random approach.
    pub fn random() -> Direction {
        match sample_below(4) {
            0 => Direction::North,
            1 => Direction::South,
            2 => Direction::East,
            _ => Direction::West,
        }
    }

    /// A random approach other than the one given; after a fixed number of
    /// rejected samples it falls back to the opposite approach, so that it
    /// always terminates.
    pub fn random_without(other: Direction) -> (d: Direction)
        ensures
            d != other,
    {
        let mut tries: u32 = 0;
        while tries < 16
            decreases 16 - tries,
        {
            let generated = Direction::random();
            if generated != other {
                return generated;
            }
            tries = tries + 1;
        }
        match other {
            Direction::North => Direction::South,
            Direction::South => Direction::North,
            Direction::West => Direction::East,
            Direction::East => Direction::West,
        }
    }
}

} // verus!
