//! What the pool knows of an account's windows, and how a poll changes it.
//!
//! Response headers and usage polls both report here. A poll reconciles what
//! the headers said; it must not undo what it has nothing to say about.

use vstd::prelude::*;

use crate::snapshot::{UsageSnapshot, UsageWindow};

verus! {

/// The known state of an account's windows. A utilization is the bit pattern of
/// a binary64 value; a reset is in seconds since the Unix epoch.
#[derive(Clone, Copy, Debug, PartialEq, Eq)]
pub struct AccountQuota {
    /// Whether anything was ever noted.
    pub has_state: bool,
    pub utilization_5h: Option<u64>,
    pub reset_5h: Option<u64>,
    pub utilization_7d: Option<u64>,
    pub reset_7d: Option<u64>,
    pub utilization_7d_oi: Option<u64>,
    pub reset_7d_oi: Option<u64>,
}

/// The state of an account of which nothing is known.
pub open spec fn nothing_known() -> AccountQuota {
    AccountQuota {
        has_state: false,
        utilization_5h: None,
        reset_5h: None,
        utilization_7d: None,
        reset_7d: None,
        utilization_7d_oi: None,
        reset_7d_oi: None,
    }
}

/// A utilization after a poll: the reported one, or the known one where the
/// window was not reported.
pub open spec fn utilization_after(known: Option<u64>, window: Option<UsageWindow>) -> Option<u64> {
    match window {
        Some(w) => Some(w.utilization),
        None => known,
    }
}

/// A reset after a poll: the reported one, or the known one where no reset was
/// reported.
pub open spec fn reset_after(known: Option<u64>, window: Option<UsageWindow>) -> Option<u64> {
    match window {
        Some(UsageWindow { resets_at: Some(reset), .. }) => Some(reset),
        _ => known,
    }
}

/// What is known of an account after a poll.
pub open spec fn quota_after(quota: AccountQuota, snapshot: UsageSnapshot) -> AccountQuota {
    AccountQuota {
        has_state: true,
        utilization_5h: utilization_after(quota.utilization_5h, snapshot.five_hour),
        reset_5h: reset_after(quota.reset_5h, snapshot.five_hour),
        utilization_7d: utilization_after(quota.utilization_7d, snapshot.seven_day),
        reset_7d: reset_after(quota.reset_7d, snapshot.seven_day),
        utilization_7d_oi: utilization_after(quota.utilization_7d_oi, snapshot.seven_day_oi),
        reset_7d_oi: reset_after(quota.reset_7d_oi, snapshot.seven_day_oi),
    }
}

/// Notes one window.
fn note_window(utilization: &mut Option<u64>, reset: &mut Option<u64>, window: Option<UsageWindow>)
    ensures
        *final(utilization) == utilization_after(*old(utilization), window),
        *final(reset) == reset_after(*old(reset), window),
{
    if let Some(w) = window {
        *utilization = Some(w.utilization);
        if w.resets_at.is_some() {
            *reset = w.resets_at;
        }
    }
}

impl AccountQuota {
    /// An account of which nothing is known.
    pub fn new() -> (quota: AccountQuota)
        ensures
            quota == nothing_known(),
    {
        AccountQuota {
            has_state: false,
            utilization_5h: None,
            reset_5h: None,
            utilization_7d: None,
            reset_7d: None,
            utilization_7d_oi: None,
            reset_7d_oi: None,
        }
    }

    /// Notes what a poll reported.
    pub fn note_usage(&mut self, snapshot: &UsageSnapshot)
        ensures
            *final(self) == quota_after(*old(self), *snapshot),
    {
        self.has_state = true;
        note_window(&mut self.utilization_5h, &mut self.reset_5h, snapshot.five_hour);
        note_window(&mut self.utilization_7d, &mut self.reset_7d, snapshot.seven_day);
        note_window(&mut self.utilization_7d_oi, &mut self.reset_7d_oi, snapshot.seven_day_oi);
    }
}

/// A poll whose window carries no reset keeps the known reset and still takes
/// over the utilization.
pub proof fn law_reset_survives_a_poll_without_one(
    quota: AccountQuota,
    snapshot: UsageSnapshot,
    window: UsageWindow,
)
    requires
        window.resets_at is None,
    ensures
        snapshot.five_hour == Some(window) ==> quota_after(quota, snapshot).reset_5h
            == quota.reset_5h && quota_after(quota, snapshot).utilization_5h == Some(
            window.utilization,
        ),
        snapshot.seven_day == Some(window) ==> quota_after(quota, snapshot).reset_7d
            == quota.reset_7d && quota_after(quota, snapshot).utilization_7d == Some(
            window.utilization,
        ),
        snapshot.seven_day_oi == Some(window) ==> quota_after(quota, snapshot).reset_7d_oi
            == quota.reset_7d_oi && quota_after(quota, snapshot).utilization_7d_oi == Some(
            window.utilization,
        ),
{
}

/// A window that a poll does not report is left as it was.
pub proof fn law_unreported_window_is_untouched(quota: AccountQuota, snapshot: UsageSnapshot)
    ensures
        snapshot.five_hour is None ==> quota_after(quota, snapshot).utilization_5h
            == quota.utilization_5h && quota_after(quota, snapshot).reset_5h == quota.reset_5h,
        snapshot.seven_day is None ==> quota_after(quota, snapshot).utilization_7d
            == quota.utilization_7d && quota_after(quota, snapshot).reset_7d == quota.reset_7d,
        snapshot.seven_day_oi is None ==> quota_after(quota, snapshot).utilization_7d_oi
            == quota.utilization_7d_oi && quota_after(quota, snapshot).reset_7d_oi
            == quota.reset_7d_oi,
{
}

/// To note one snapshot twice is to note it once.
pub proof fn law_noting_twice_is_noting_once(quota: AccountQuota, snapshot: UsageSnapshot)
    ensures
        quota_after(quota_after(quota, snapshot), snapshot) == quota_after(quota, snapshot),
{
}

/// A reported window replaces what was known of it, whatever that was: the
/// utilization in any case, the reset where one is reported. A poll is an
/// observation, so the account counts as observed from then on.
pub proof fn law_reported_window_replaces_the_known_one(
    quota: AccountQuota,
    snapshot: UsageSnapshot,
    window: UsageWindow,
    reset: u64,
)
    ensures
        quota_after(quota, snapshot).has_state,
        snapshot.five_hour == Some(window) ==> quota_after(quota, snapshot).utilization_5h == Some(
            window.utilization,
        ),
        snapshot.seven_day == Some(window) ==> quota_after(quota, snapshot).utilization_7d == Some(
            window.utilization,
        ),
        snapshot.seven_day_oi == Some(window) ==> quota_after(quota, snapshot).utilization_7d_oi
            == Some(window.utilization),
        snapshot.five_hour == Some(window) && window.resets_at == Some(reset) ==> quota_after(
            quota,
            snapshot,
        ).reset_5h == Some(reset),
        snapshot.seven_day == Some(window) && window.resets_at == Some(reset) ==> quota_after(
            quota,
            snapshot,
        ).reset_7d == Some(reset),
        snapshot.seven_day_oi == Some(window) && window.resets_at == Some(reset) ==> quota_after(
            quota,
            snapshot,
        ).reset_7d_oi == Some(reset),
{
}

/// Of two snapshots that report the same windows, each with a reset, the later
/// one alone counts, whatever was known before.
pub proof fn law_latest_poll_counts(
    quota: AccountQuota,
    other: AccountQuota,
    earlier: UsageSnapshot,
    later: UsageSnapshot,
)
    requires
        later.five_hour matches Some(w) && w.resets_at is Some,
        later.seven_day matches Some(w) && w.resets_at is Some,
        later.seven_day_oi matches Some(w) && w.resets_at is Some,
    ensures
        quota_after(quota_after(quota, earlier), later) == quota_after(other, later),
{
}

/// Of an account that was never observed nothing is known.
pub proof fn law_nothing_is_known_at_first()
    ensures
        ({
            let quota = nothing_known();
            &&& !quota.has_state
            &&& quota.utilization_5h is None && quota.reset_5h is None
            &&& quota.utilization_7d is None && quota.reset_7d is None
            &&& quota.utilization_7d_oi is None && quota.reset_7d_oi is None
        }),
{
}

} // verus!
