//! The liveness supervisor's decision rule: three independent timeout
//! policies checked on every tick, in a fixed priority order.
use vstd::prelude::*;
use crate::outcome::SessionOutcome;

verus! {

/// Tolerance added to the negotiated ping interval before the heartbeat
/// is considered lost; it absorbs one missed tick.
pub const HEARTBEAT_MARGIN_MS: u64 = 15000;

/// How long the application may stay silent before the session is stuck.
pub const ACTIVITY_LIMIT_MS: u64 = 180000;

/// Silence bound after the initialization command that triggers its
/// one-shot resend.
pub const RETRY_AFTER_MS: u64 = 20000;

/// What one supervisor tick decides.
#[derive(Debug, PartialEq, Eq, Structural, Clone, Copy)]
pub enum Supervision {
    /// Nothing is stale; keep running.
    Healthy,
    /// Resend the initialization command once; the caller must clear its
    /// start marker so no further automatic retries occur.
    RetryStart,
    /// A timeout policy fired; the session ends with this outcome.
    Fail(SessionOutcome),
}

/// The tick decision: heartbeat staleness first, then activity
/// staleness, then the stuck-start retry.
pub open spec fn spec_supervise(
    now: u64,
    last_ping: u64,
    last_activity: u64,
    ping_interval: u64,
    start_sent_at: Option<u64>,
) -> Supervision {
    if now - last_ping > ping_interval + HEARTBEAT_MARGIN_MS {
        Supervision::Fail(SessionOutcome::ConnectionTimeout)
    } else if now - last_activity > ACTIVITY_LIMIT_MS {
        Supervision::Fail(SessionOutcome::ActivityTimeout)
    } else if start_sent_at matches Some(t) && now - last_activity > RETRY_AFTER_MS && now - t
        > RETRY_AFTER_MS {
        Supervision::RetryStart
    } else {
        Supervision::Healthy
    }
}

/// Decides one supervisor tick from the session's clocks, all in
/// milliseconds. The heartbeat check comes first: no heartbeat for
/// longer than the negotiated interval plus the margin fails the
/// session with `ConnectionTimeout`, whatever else is pending.
pub fn supervise(
    now: u64,
    last_ping: u64,
    last_activity: u64,
    ping_interval: u64,
    start_sent_at: Option<u64>,
) -> (r: Supervision)
    requires
        last_ping <= now,
        last_activity <= now,
        ping_interval <= u64::MAX - HEARTBEAT_MARGIN_MS,
        start_sent_at matches Some(t) ==> t <= now,
    ensures
        r == spec_supervise(now, last_ping, last_activity, ping_interval, start_sent_at),
{
    if now - last_ping > ping_interval + HEARTBEAT_MARGIN_MS {
        return Supervision::Fail(SessionOutcome::ConnectionTimeout);
    }
    if now - last_activity > ACTIVITY_LIMIT_MS {
        return Supervision::Fail(SessionOutcome::ActivityTimeout);
    }
    match start_sent_at {
        Some(t) => {
            if now - last_activity > RETRY_AFTER_MS && now - t > RETRY_AFTER_MS {
                Supervision::RetryStart
            } else {
                Supervision::Healthy
            }
        },
        None => Supervision::Healthy,
    }
}

} // verus!
