//! Scheduler counters and the heartbeat that reports them at most once per thousand ticks.
use vstd::prelude::*;

verus! {

/// Ticks between two heartbeats.
pub const HEARTBEAT_INTERVAL: u64 = 1000;

/// The executor's counters and the tick of the last heartbeat.
#[derive(Clone, Copy, Debug, PartialEq, Eq, Structural)]
pub struct Telemetry {
    pub total_polls: u64,
    pub tasks_spawned: u64,
    pub tasks_completed: u64,
    pub last_heartbeat_tick: u64,
}

/// What a heartbeat reports: the tick it fired on and the counters at that time.
#[derive(Clone, Copy, Debug, PartialEq, Eq, Structural)]
pub struct Heartbeat {
    pub tick: u64,
    pub polls: u64,
    pub spawned: u64,
    pub completed: u64,
}

impl Telemetry {
    /// All counters at zero.
    pub fn new() -> (r: Self)
        ensures
            r == (Telemetry {
                total_polls: 0,
                tasks_spawned: 0,
                tasks_completed: 0,
                last_heartbeat_tick: 0,
            }),
    {
        Telemetry { total_polls: 0, tasks_spawned: 0, tasks_completed: 0, last_heartbeat_tick: 0 }
    }
}

/// Fires a heartbeat when at least a thousand ticks have passed since the last one: records
/// the tick and returns the counters; otherwise leaves everything as it was.
pub fn log_heartbeat(telemetry: &mut Telemetry, current_tick: u64) -> (r: Option<Heartbeat>)
    requires
        old(telemetry).last_heartbeat_tick + HEARTBEAT_INTERVAL <= u64::MAX,
    ensures
        current_tick >= old(telemetry).last_heartbeat_tick + HEARTBEAT_INTERVAL ==> {
            &&& *final(telemetry) == (Telemetry { last_heartbeat_tick: current_tick, ..*old(telemetry) })
            &&& r == Some(
                Heartbeat {
                    tick: current_tick,
                    polls: old(telemetry).total_polls,
                    spawned: old(telemetry).tasks_spawned,
                    completed: old(telemetry).tasks_completed,
                },
            )
        },
        current_tick < old(telemetry).last_heartbeat_tick + HEARTBEAT_INTERVAL ==> {
            &&& *final(telemetry) == *old(telemetry)
            &&& r is None
        },
{
    let last = telemetry.last_heartbeat_tick;
    if current_tick >= last + HEARTBEAT_INTERVAL {
        telemetry.last_heartbeat_tick = current_tick;
        Some(
            Heartbeat {
                tick: current_tick,
                polls: telemetry.total_polls,
                spawned: telemetry.tasks_spawned,
                completed: telemetry.tasks_completed,
            },
        )
    } else {
        None
    }
}

} // verus!
