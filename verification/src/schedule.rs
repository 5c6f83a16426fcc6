//! Whether the poller runs, and how often.

use vstd::prelude::*;

verus! {

/// What the poller reads of the pool's configuration.
#[derive(Clone, Copy, Debug, PartialEq, Eq)]
pub struct PoolSettings {
    /// The refresh interval as configured, in seconds.
    pub usage_refresh_seconds: Option<u64>,
    /// The interval in effect, if polling is enabled at all: the configured one,
    /// raised to the floor.
    pub usage_refresh_interval: Option<u64>,
}

/// Whether the poller runs, and how often.
#[derive(Clone, Copy, Debug, PartialEq, Eq)]
pub enum PollerPlan {
    /// No background work at all.
    Off,
    /// Poll at once and then every so many seconds.
    Every {
        interval_seconds: u64,
        /// The configured interval where it is not the one in effect, for the
        /// operator to be told.
        clamped_from: Option<u64>,
    },
}

/// The plan that the boot configuration calls for.
pub open spec fn plan_of(pool: Option<PoolSettings>) -> PollerPlan {
    match pool {
        Some(settings) => match settings.usage_refresh_interval {
            Some(interval) => PollerPlan::Every {
                interval_seconds: interval,
                clamped_from: match settings.usage_refresh_seconds {
                    Some(configured) => if configured != interval {
                        Some(configured)
                    } else {
                        None
                    },
                    None => None,
                },
            },
            None => PollerPlan::Off,
        },
        None => PollerPlan::Off,
    }
}

/// The plan that the boot configuration calls for.
pub fn usage_poller_plan(pool: Option<PoolSettings>) -> (plan: PollerPlan)
    ensures
        plan == plan_of(pool),
{
    let settings = match pool {
        Some(settings) => settings,
        None => return PollerPlan::Off,
    };
    let interval = match settings.usage_refresh_interval {
        Some(interval) => interval,
        None => return PollerPlan::Off,
    };
    let clamped_from = match settings.usage_refresh_seconds {
        Some(configured) => if configured != interval {
            Some(configured)
        } else {
            None
        },
        None => None,
    };
    PollerPlan::Every { interval_seconds: interval, clamped_from }
}

/// Without a pool section, or without an interval in it, nothing runs; with
/// one, the poller runs at that interval.
pub proof fn law_poller_runs_iff_enabled(pool: Option<PoolSettings>)
    ensures
        plan_of(pool) is Off <==> (pool matches Some(settings)
            ==> settings.usage_refresh_interval is None),
        plan_of(pool) matches PollerPlan::Every { interval_seconds, .. } ==> pool matches Some(
            settings,
        ) && settings.usage_refresh_interval == Some(interval_seconds),
{
}

/// The operator is told of a configured interval exactly if another one is in
/// effect.
pub proof fn law_changed_interval_is_reported(
    settings: PoolSettings,
    interval: u64,
    configured: u64,
)
    requires
        settings.usage_refresh_interval == Some(interval),
    ensures
        plan_of(Some(settings)) matches PollerPlan::Every { interval_seconds, clamped_from } && {
            &&& interval_seconds == interval
            &&& clamped_from == Some(configured) <==> settings.usage_refresh_seconds == Some(
                configured,
            ) && configured != interval
        },
{
}

} // verus!
