//! One simulation tick: advance every signal, then let every vehicle decide
//! against the committed snapshots of all the others and the fresh signal
//! states, then remove the vehicles that finished or collided and report the
//! counts. Removal is deferred to the end of the pass, so no decision ever
//! sees a half-updated peer: each vehicle's peer view is the previous tick's
//! committed state.

use vstd::prelude::*;
use crate::car::{
    Car, CarSnapshot, CarModel, UpdateState, update_spec, snapshot_spec, snapshot_wf, car_wf,
    light_pos_wf,
};
use crate::signal::{TrafficLight, advance_spec, light_wf};

verus! {

/// Counts reported by one tick: vehicles that completed their route and
/// vehicles removed because they collided.
#[derive(Clone, Copy, Debug)]
pub struct TickReport {
    pub passed: usize,
    pub collided: usize,
}

/// A vehicle stays in the simulation while it is neither finished nor
/// collided.
pub open spec fn active(st: UpdateState) -> bool {
    st != UpdateState::Finished && st != UpdateState::Collided
}

/// The models of a sequence of vehicles.
pub open spec fn models_of(cars: Seq<Car>) -> Seq<CarModel> {
    cars.map_values(|c: Car| c@)
}

/// The snapshots a sequence of vehicles publishes.
pub open spec fn snapshots_spec_of(cars: Seq<Car>) -> Seq<CarSnapshot> {
    cars.map_values(|c: Car| snapshot_spec(c@))
}

/// The peer snapshots the vehicle at index `i` sees: every entry but its
/// own.
pub open spec fn peers_except_spec(s: Seq<CarSnapshot>, i: int) -> Seq<CarSnapshot> {
    s.subrange(0, i) + s.subrange(i + 1, s.len() as int)
}

/// Every vehicle after this tick's decision, each against the committed
/// snapshots of all the others and the already-advanced signals.
pub open spec fn updated_models(
    cars: Seq<CarModel>,
    snaps: Seq<CarSnapshot>,
    lights: Seq<TrafficLight>,
) -> Seq<CarModel> {
    Seq::new(cars.len(), |i: int| update_spec(cars[i], peers_except_spec(snaps, i), lights))
}

/// The models that remain after this tick's removal, in their original
/// order.
pub open spec fn surviving(models: Seq<CarModel>) -> Seq<CarModel>
    decreases models.len(),
{
    if models.len() == 0 {
        Seq::empty()
    } else {
        let prefix = surviving(models.drop_last());
        if active(models.last().state) {
            prefix.push(models.last())
        } else {
            prefix
        }
    }
}

/// How many models ended the tick in the given state.
pub open spec fn count_in_state(models: Seq<CarModel>, st: UpdateState) -> int
    decreases models.len(),
{
    if models.len() == 0 {
        0
    } else {
        count_in_state(models.drop_last(), st) + (if models.last().state == st {
            1int
        } else {
            0int
        })
    }
}

/// The snapshots of every vehicle, in order.
fn snapshots_of(cars: &Vec<Car>) -> (r: Vec<CarSnapshot>)
    ensures
        r@.len() == cars@.len(),
        forall|i: int| 0 <= i < cars@.len() ==> r@[i] == snapshot_spec(#[trigger] cars@[i]@),
{
    let n = cars.len();
    let mut r: Vec<CarSnapshot> = Vec::new();
    let mut j: usize = 0;
    while j < n
        invariant
            j <= n,
            n == cars@.len(),
            r@.len() == j as int,
            forall|i: int| 0 <= i < j ==> r@[i] == snapshot_spec(#[trigger] cars@[i]@),
        decreases n - j,
    {
        let s = cars[j].snapshot();
        r.push(s);
        j = j + 1;
    }
    r
}

/// All snapshots except the one at index `i`.
fn peers_except(snaps: &Vec<CarSnapshot>, i: usize) -> (r: Vec<CarSnapshot>)
    requires
        i < snaps@.len(),
    ensures
        r@ == peers_except_spec(snaps@, i as int),
{
    let n = snaps.len();
    let mut r: Vec<CarSnapshot> = Vec::new();
    let mut j: usize = 0;
    while j < n
        invariant
            j <= n,
            n == snaps@.len(),
            i < n,
            j <= i ==> r@ =~= snaps@.subrange(0, j as int),
            j > i ==> r@ =~= snaps@.subrange(0, i as int) + snaps@.subrange(i as int + 1, j as int),
        decreases n - j,
    {
        if j != i {
            r.push(snaps[j]);
        }
        j = j + 1;
    }
    proof {
        assert(r@ =~= peers_except_spec(snaps@, i as int));
    }
    r
}

/// One full tick over the whole simulation: all signals advance by one
/// tick, every vehicle becomes its decision's outcome against the others'
/// committed snapshots and the fresh signals, the finished and collided
/// vehicles leave in one deferred sweep, and their counts come back.
#[verifier::loop_isolation(false)]
#[verifier::rlimit(100)]
#[verifier::spinoff_prover]
pub fn step(cars: &mut Vec<Car>, lights: &mut Vec<TrafficLight>) -> (r: TickReport)
    requires
        forall|i: int| 0 <= i < old(cars)@.len() ==> car_wf(#[trigger] old(cars)@[i]@),
        forall|i: int|
            0 <= i < old(lights)@.len() ==> light_wf(#[trigger] old(lights)@[i]) && light_pos_wf(
                old(lights)@[i],
            ),
    ensures
        final(lights)@.len() == old(lights)@.len(),
        forall|i: int|
            0 <= i < old(lights)@.len() ==> final(lights)@[i] == advance_spec(
                #[trigger] old(lights)@[i],
            ),
        ({
            let models = updated_models(
                models_of(old(cars)@),
                snapshots_spec_of(old(cars)@),
                final(lights)@,
            );
            &&& models_of(final(cars)@) == surviving(models)
            &&& r.passed == count_in_state(models, UpdateState::Finished)
            &&& r.collided == count_in_state(models, UpdateState::Collided)
        }),
        forall|i: int| 0 <= i < final(cars)@.len() ==> car_wf(#[trigger] final(cars)@[i]@),
        forall|i: int|
            0 <= i < final(lights)@.len() ==> light_wf(#[trigger] final(lights)@[i])
                && light_pos_wf(final(lights)@[i]),
{
    // Advance every signal.
    let nl = lights.len();
    let mut new_lights: Vec<TrafficLight> = Vec::new();
    let mut j: usize = 0;
    while j < nl
        invariant
            j <= nl,
            new_lights@.len() == j as int,
            forall|k: int|
                0 <= k < j ==> new_lights@[k] == advance_spec(#[trigger] old(lights)@[k]),
            forall|k: int|
                0 <= k < j ==> light_wf(#[trigger] new_lights@[k]) && light_pos_wf(
                    new_lights@[k],
                ),
        decreases nl - j,
    {
        let mut l = lights[j];
        l.update();
        new_lights.push(l);
        j = j + 1;
    }
    *lights = new_lights;

    // Snapshot the committed state of every vehicle.
    let snaps = snapshots_of(cars);
    let ghost cmods = models_of(old(cars)@);
    let ghost smods = snapshots_spec_of(old(cars)@);
    let ghost models = updated_models(cmods, smods, lights@);
    proof {
        assert(snaps@ =~= smods);
    }

    // Let every vehicle decide against the others, then sweep.
    let n = cars.len();
    let mut out: Vec<Car> = Vec::new();
    let mut passed: usize = 0;
    let mut collided: usize = 0;
    let mut i: usize = 0;
    while i < n
        invariant
            i <= n,
            n == old(cars)@.len(),
            cars@ =~= old(cars)@.subrange(i as int, n as int),
            models_of(out@) =~= surviving(models.take(i as int)),
            forall|k: int| 0 <= k < out@.len() ==> car_wf(#[trigger] out@[k]@),
            passed <= i,
            collided <= i,
            passed == count_in_state(models.take(i as int), UpdateState::Finished),
            collided == count_in_state(models.take(i as int), UpdateState::Collided),
        decreases n - i,
    {
        let others = peers_except(&snaps, i);
        let mut c = cars.remove(0);
        proof {
            assert(c == old(cars)@[i as int]);
            assert(car_wf(c@));
            assert(forall|k: int|
                0 <= k < others@.len() ==> snapshot_wf(#[trigger] others@[k])) by {
                assert(forall|k: int| 0 <= k < smods.len() ==> snapshot_wf(#[trigger] smods[k]));
            }
        }
        let st = c.update(&others, lights);
        proof {
            assert(others@ == peers_except_spec(smods, i as int));
            assert(c@ == models[i as int]);
            assert(models.take(i as int + 1).drop_last() =~= models.take(i as int));
            assert(models.take(i as int + 1).last() == models[i as int]);
        }
        match st {
            UpdateState::Finished => {
                passed = passed + 1;
            },
            UpdateState::Collided => {
                collided = collided + 1;
            },
            _ => {
                out.push(c);
            },
        }
        proof {
            assert(models_of(out@) =~= surviving(models.take(i as int + 1)));
            assert(cars@ =~= old(cars)@.subrange(i as int + 1, n as int));
        }
        i = i + 1;
    }
    proof {
        assert(models.take(n as int) =~= models);
    }
    *cars = out;
    TickReport { passed, collided }
}

} // verus!
