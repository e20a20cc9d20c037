//! The records that flow through the monitor. Instants are nanoseconds since
//! the Unix epoch (UTC), as `i128`; a measured value is carried as an opaque `V` that the
//! library stores and hands back but never computes with.
use vstd::prelude::*;

verus! {

/// The whole seconds elapsed from `earlier` to `later` (nanosecond instants),
/// truncated toward zero as a signed time span counts whole seconds.
pub open spec fn whole_seconds(later: int, earlier: int) -> int {
    let d = later - earlier;
    if d >= 0 {
        d / 1_000_000_000
    } else {
        -((-d) / 1_000_000_000)
    }
}

/// An instant: nanoseconds since the Unix epoch (UTC).
pub type Instant = i128;

/// The largest distance from the epoch an instant may have: 2^80 ns, about
/// 38 million years, beyond every date a calendar timestamp can hold.
pub const INSTANT_BOUND: i128 = 0x1_0000_0000_0000_0000_0000;

/// An instant within the bound.
pub open spec fn valid_instant(t: Instant) -> bool {
    -INSTANT_BOUND <= t <= INSTANT_BOUND
}

/// The whole seconds from `earlier` to `later`, truncated toward zero.
pub fn elapsed_whole_seconds(later: Instant, earlier: Instant) -> (r: i64)
    requires
        valid_instant(later),
        valid_instant(earlier),
    ensures
        r == whole_seconds(later as int, earlier as int),
{
    let d: i128 = later - earlier;
    if d >= 0 {
        assert(d / 1_000_000_000 <= 0x7fff_ffff_ffff_ffff) by (nonlinear_arith)
            requires
                0 <= d <= 0x2_0000_0000_0000_0000_0000,
        ;
        (d / 1_000_000_000) as i64
    } else {
        let m: i128 = -d;
        assert(m / 1_000_000_000 <= 0x7fff_ffff_ffff_ffff) by (nonlinear_arith)
            requires
                0 <= m <= 0x2_0000_0000_0000_0000_0000,
        ;
        -((m / 1_000_000_000) as i64)
    }
}

/// The trust a source puts in a reading.
#[derive(Debug, Clone, Copy, PartialEq, Eq, Structural)]
pub enum ReadingQuality {
    Good,
    Uncertain,
    Bad,
}

/// One raw reading of one parameter.
pub struct SensorReading<V> {
    pub source: String,
    pub parameter: String,
    pub value: V,
    pub unit: String,
    pub quality: ReadingQuality,
    pub timestamp: Instant,
}

/// A smoothed value of one parameter, as shown on the dashboard.
pub struct AggregatedReading<V> {
    pub parameter: String,
    pub value: V,
    pub unit: String,
    pub timestamp: Instant,
}

/// A reading keyed by sensor id, as the standalone producer emits it.
pub struct SensorData<V> {
    pub sensor_id: String,
    pub value: V,
    pub timestamp: Instant,
}

} // verus!
