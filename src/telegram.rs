//! When notifications go out.
use vstd::prelude::*;

verus! {

/// Seconds that must pass between two startup notifications.
pub const STARTUP_COOLDOWN_SECS: u64 = 600;

/// A startup notification is due once the cooldown has passed since the last one was
/// sent at `last_secs`. A last time after `now_secs` (the clock went back) is not yet past.
pub fn startup_notification_due(now_secs: u64, last_secs: u64) -> (r: bool)
    ensures
        r == (now_secs >= last_secs && now_secs - last_secs >= STARTUP_COOLDOWN_SECS),
{
    now_secs >= last_secs && now_secs - last_secs >= STARTUP_COOLDOWN_SECS
}

} // verus!
