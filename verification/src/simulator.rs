//! The simulated sensors: which parameters they report, in which units and
//! value ranges, how long they pause between readings, and the random choices
//! behind both (drawn from `rand`).
use vstd::prelude::*;
use vstd::string::*;
use rand::rngs::StdRng;
use rand::seq::IndexedRandom;
use rand::Rng;
use rand::SeedableRng;
use crate::models::{Instant, ReadingQuality, SensorData, SensorReading};
use crate::text::str_eq;

verus! {

#[verifier::external_type_specification]
#[verifier::external_body]
pub struct ExStdRng(StdRng);

/// The generator that `StdRng::seed_from_u64` makes from `seed`: a function
/// of the seed alone.
pub uninterp spec fn rng_from_seed(seed: u64) -> StdRng;

/// `rand::rngs::StdRng::seed_from_u64`: the generator seeded from `seed`; the
/// same seed gives the same generator. Nothing else is claimed of its state.
#[verifier::external_body]
fn seeded_rng(seed: u64) -> (r: StdRng)
    ensures
        r == rng_from_seed(seed),
{
    StdRng::seed_from_u64(seed)
}

/// `rand::seq::IndexedRandom::choose` on a slice: `None` exactly when the
/// slice is empty, otherwise a reference to one of its elements. Which
/// element depends on the generator's state and is not stated.
#[verifier::external_body]
fn choose_one<'a, T>(rng: &mut StdRng, items: &'a [T]) -> (r: Option<&'a T>)
    ensures
        (r is None) <==> items@.len() == 0,
        r matches Some(x) ==> items@.contains(*x),
{
    items.choose(rng)
}

/// `rand::Rng::random_range` on `lo..hi` for `u64` (which panics on an empty
/// range): a value at least `lo` and below `hi`. Which one depends on the
/// generator's state and is not stated.
#[verifier::external_body]
fn random_below(rng: &mut StdRng, lo: u64, hi: u64) -> (r: u64)
    requires
        lo < hi,
    ensures
        lo <= r < hi,
{
    rng.random_range(lo..hi)
}

/// The seed of the simulator's generator, so that runs repeat.
pub const SIMULATOR_SEED: u64 = 42;

/// Shortest pause between two readings, in milliseconds.
pub const MIN_DELAY_MS: u64 = 300;

/// Pauses are shorter than this many milliseconds.
pub const MAX_DELAY_MS: u64 = 800;

/// The generator the simulator draws from.
pub fn simulator_rng() -> (r: StdRng)
    ensures
        r == rng_from_seed(SIMULATOR_SEED),
{
    seeded_rng(SIMULATOR_SEED)
}

/// The simulated parameters and their units.
pub open spec fn simulated_parameters() -> Seq<(Seq<char>, Seq<char>)> {
    seq![
        ("bearing_vibration_x"@, "mm/s"@),
        ("bearing_temperature"@, "°C"@),
        ("motor_current"@, "A"@),
    ]
}

/// The range `[lo, hi)` a simulated parameter's values are drawn from.
pub open spec fn simulated_range(param: Seq<char>) -> Option<(u64, u64)> {
    if param == "bearing_vibration_x"@ {
        Some((1, 8))
    } else if param == "bearing_temperature"@ {
        Some((60, 90))
    } else if param == "motor_current"@ {
        Some((8, 16))
    } else {
        None
    }
}

/// The simulated parameters with their units.
pub fn parameter_table() -> (r: Vec<(&'static str, &'static str)>)
    ensures
        r@.map_values(|p: (&'static str, &'static str)| (p.0@, p.1@)) == simulated_parameters(),
{
    let v: Vec<(&'static str, &'static str)> = vec![
        ("bearing_vibration_x", "mm/s"),
        ("bearing_temperature", "°C"),
        ("motor_current", "A"),
    ];
    proof {
        assert(v@.map_values(|p: (&'static str, &'static str)| (p.0@, p.1@)) =~= simulated_parameters());
    }
    v
}

/// Picks the parameter (and unit) of the next reading at random.
pub fn pick_parameter(rng: &mut StdRng) -> (r: (&'static str, &'static str))
    ensures
        simulated_parameters().contains((r.0@, r.1@)),
{
    let table = parameter_table();
    let picked = choose_one(rng, table.as_slice());
    match picked {
        Some(p) => {
            proof {
                let i = choose|i: int| 0 <= i < table@.len() && table@[i] == *p;
                assert(table@.map_values(|p: (&'static str, &'static str)| (p.0@, p.1@))[i] == (p.0@, p.1@));
            }
            *p
        },
        None => {
            proof {
                assert(table@.len() == 3) by {
                    assert(table@.map_values(|p: (&'static str, &'static str)| (p.0@, p.1@)).len() == 3);
                }
            }
            ("bearing_vibration_x", "mm/s")
        },
    }
}

/// The value range of a simulated parameter; `None` for any other name
/// (whose value is then zero).
pub fn value_range(param: &str) -> (r: Option<(u64, u64)>)
    ensures
        r == simulated_range(param@),
{
    if str_eq(param, "bearing_vibration_x") {
        Some((1, 8))
    } else if str_eq(param, "bearing_temperature") {
        Some((60, 90))
    } else if str_eq(param, "motor_current") {
        Some((8, 16))
    } else {
        None
    }
}

/// The pause before the next reading, drawn at random.
pub fn next_delay_ms(rng: &mut StdRng) -> (r: u64)
    ensures
        MIN_DELAY_MS <= r < MAX_DELAY_MS,
{
    random_below(rng, MIN_DELAY_MS, MAX_DELAY_MS)
}

/// A simulated reading: source `simulator`, quality good.
pub fn simulated_reading<V>(parameter: &str, unit: &str, value: V, timestamp: Instant) -> (r: SensorReading<V>)
    ensures
        r.source@ == "simulator"@,
        r.parameter@ == parameter@,
        r.unit@ == unit@,
        r.value == value,
        r.quality == ReadingQuality::Good,
        r.timestamp == timestamp,
{
    SensorReading {
        source: String::from_str("simulator"),
        parameter: String::from_str(parameter),
        value,
        unit: String::from_str(unit),
        quality: ReadingQuality::Good,
        timestamp,
    }
}

/// The sensors of the standalone producer.
pub open spec fn producer_sensor_ids() -> Seq<Seq<char>> {
    seq!["temp-001"@, "press-002"@, "vibro-003"@]
}

/// The range `[lo, hi)` of the producer's values.
pub const PRODUCER_VALUE_LOW: u64 = 70;

/// The producer's values lie below this.
pub const PRODUCER_VALUE_HIGH: u64 = 100;

/// Picks the sensor of the producer's next reading at random.
pub fn pick_sensor_id(rng: &mut StdRng) -> (r: String)
    ensures
        producer_sensor_ids().contains(r@),
{
    let ids: Vec<&'static str> = vec!["temp-001", "press-002", "vibro-003"];
    match choose_one(rng, ids.as_slice()) {
        Some(id) => {
            proof {
                let i = choose|i: int| 0 <= i < ids@.len() && ids@[i] == *id;
                assert(producer_sensor_ids()[i] == id@);
            }
            String::from_str(*id)
        },
        None => {
            proof {
                assert(producer_sensor_ids()[0] == "temp-001"@);
            }
            String::from_str("temp-001")
        },
    }
}

/// A producer reading.
pub fn sensor_data<V>(sensor_id: String, value: V, timestamp: Instant) -> (r: SensorData<V>)
    ensures
        r.sensor_id == sensor_id,
        r.value == value,
        r.timestamp == timestamp,
{
    SensorData { sensor_id, value, timestamp }
}

} // verus!
