//! The cadence record: how often the world's entities are to be moved.

use vstd::prelude::*;

verus! {

/// When a scheduled operation is due.
#[derive(Clone, Copy, Debug, PartialEq, Eq, Structural)]
pub enum ScheduleAt {
    /// Again and again, each time after this many microseconds.
    Interval(i64),
    /// Once, at this many microseconds since the Unix epoch.
    Time(i64),
}

/// The single record that tells the scheduler when to move the entities.
#[derive(Clone, Copy, Debug, PartialEq, Eq, Structural)]
pub struct MoveAllPlayersTimer {
    /// Assigned by the store; zero in a record that is not stored yet.
    pub scheduled_id: u64,
    pub scheduled_at: ScheduleAt,
}

/// The default cadence, in milliseconds.
pub const DEFAULT_INTERVAL_MILLIS: u64 = 50;

/// The number of microseconds in `millis` milliseconds, as the host's
/// duration type counts them.
///
/// Trusted, not proved. The body hands a `std::time::Duration` of `millis`
/// milliseconds to
/// `spacetimedb_sats::time_duration::TimeDuration::from_duration`, which
/// keeps the duration's whole microseconds as an `i64` and panics when they
/// do not fit, and reads them back with `TimeDuration::to_micros`. A
/// millisecond is a thousand microseconds, so the result is `millis * 1000`;
/// `requires` keeps out the durations on which the conversion panics.
#[verifier::external_body]
fn interval_micros(millis: u64) -> (micros: i64)
    requires
        millis * 1000 <= i64::MAX,
    ensures
        micros == millis * 1000,
{
    spacetimedb_sats::time_duration::TimeDuration::from_duration(
        std::time::Duration::from_millis(millis),
    ).to_micros()
}

/// The cadence record as it is handed to the store at start-up: not yet
/// numbered, and due every fifty milliseconds.
pub fn default_move_all_players_interval() -> (timer: MoveAllPlayersTimer)
    ensures
        timer == (MoveAllPlayersTimer {
            scheduled_id: 0,
            scheduled_at: ScheduleAt::Interval(50_000),
        }),
{
    MoveAllPlayersTimer {
        scheduled_id: 0,
        scheduled_at: ScheduleAt::Interval(interval_micros(DEFAULT_INTERVAL_MILLIS)),
    }
}

} // verus!
