use vstd::prelude::*;

verus! {

/// Coarse battery charge reported to consumers.
#[derive(Debug, Clone, Copy, PartialEq, Eq, Structural)]
pub enum Battery {
    Empty,
    Critical,
    Low,
    Medium,
    Full,
}

/// The bucket that a raw battery byte falls in.
pub open spec fn battery_bucket(raw: u8) -> Battery {
    if raw <= 10 {
        Battery::Empty
    } else if raw <= 20 {
        Battery::Critical
    } else if raw <= 40 {
        Battery::Low
    } else if raw <= 70 {
        Battery::Medium
    } else {
        Battery::Full
    }
}

/// Maps a raw battery byte of a status report to its bucket.
pub fn convert_battery(raw: u8) -> (r: Battery)
    ensures
        r == battery_bucket(raw),
{
    if raw <= 10 {
        Battery::Empty
    } else if raw <= 20 {
        Battery::Critical
    } else if raw <= 40 {
        Battery::Low
    } else if raw <= 70 {
        Battery::Medium
    } else {
        Battery::Full
    }
}

/// What a status report announces, given the bucket announced last: the new
/// bucket when it differs, nothing otherwise.
pub open spec fn announcement(last: Option<Battery>, raw: u8) -> Option<Battery> {
    if last == Some(battery_bucket(raw)) {
        None
    } else {
        Some(battery_bucket(raw))
    }
}

/// Remembers the last bucket announced so that a battery event is only
/// emitted when the bucket changes.
pub struct BatteryMonitor {
    pub last: Option<Battery>,
}

impl BatteryMonitor {
    pub fn new() -> (r: Self)
        ensures
            r.last is None,
    {
        BatteryMonitor { last: None }
    }

    /// Feeds one raw battery byte; returns the bucket to announce, if it
    /// differs from the one announced last.
    pub fn observe(&mut self, raw: u8) -> (r: Option<Battery>)
        ensures
            final(self).last == Some(battery_bucket(raw)),
            r == announcement(old(self).last, raw),
    {
        let level = convert_battery(raw);
        let changed = match self.last {
            Some(prev) => prev != level,
            None => true,
        };
        self.last = Some(level);
        if changed {
            Some(level)
        } else {
            None
        }
    }
}

/// After a status report, a second report whose raw level falls in the same
/// bucket announces nothing, and one in another bucket announces that bucket.
pub proof fn law_battery_debounced(raw1: u8, raw2: u8)
    ensures
        battery_bucket(raw1) == battery_bucket(raw2) ==> announcement(
            Some(battery_bucket(raw1)),
            raw2,
        ) is None,
        battery_bucket(raw1) != battery_bucket(raw2) ==> announcement(
            Some(battery_bucket(raw1)),
            raw2,
        ) == Some(battery_bucket(raw2)),
{
}

} // verus!
