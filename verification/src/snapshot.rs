//! What one usage poll reports of an account.

use vstd::prelude::*;

verus! {

/// The two rate-limit windows of a ChatGPT account.
#[derive(Clone, Copy, Debug, PartialEq, Eq, Structural)]
pub enum CodexWindow {
    FiveHour,
    Weekly,
}

/// The length of the five-hour window, in minutes.
pub const FIVE_HOUR_MINUTES: i64 = 300;

/// The length of the weekly window, in minutes.
pub const WEEKLY_MINUTES: i64 = 10_080;

/// The window that lasts the given number of minutes.
pub open spec fn bucket_of(minutes: i64) -> Option<CodexWindow> {
    if minutes == FIVE_HOUR_MINUTES {
        Some(CodexWindow::FiveHour)
    } else if minutes == WEEKLY_MINUTES {
        Some(CodexWindow::Weekly)
    } else {
        None
    }
}

/// The window that lasts the given number of minutes, if one does.
pub fn codex_window_bucket(minutes: i64) -> (window: Option<CodexWindow>)
    ensures
        window == bucket_of(minutes),
{
    if minutes == FIVE_HOUR_MINUTES {
        Some(CodexWindow::FiveHour)
    } else if minutes == WEEKLY_MINUTES {
        Some(CodexWindow::Weekly)
    } else {
        None
    }
}

/// The state of one window.
#[derive(Clone, Copy, Debug, PartialEq, Eq, Structural)]
pub struct UsageWindow {
    /// The used share of the window, as the bit pattern of a binary64 value
    /// from 0 to 1.
    pub utilization: u64,
    /// When the window resets, in seconds since the Unix epoch.
    pub resets_at: Option<u64>,
}

/// The windows that one poll reported; a window it said nothing usable of is
/// `None`.
#[derive(Clone, Copy, Debug, PartialEq, Eq)]
pub struct UsageSnapshot {
    pub five_hour: Option<UsageWindow>,
    pub seven_day: Option<UsageWindow>,
    pub seven_day_oi: Option<UsageWindow>,
}

impl UsageSnapshot {
    /// Whether no window is reported.
    pub open spec fn empty(self) -> bool {
        self.five_hour is None && self.seven_day is None && self.seven_day_oi is None
    }

    /// Whether no window is reported.
    pub fn is_empty(&self) -> (empty: bool)
        ensures
            empty == self.empty(),
    {
        self.five_hour.is_none() && self.seven_day.is_none() && self.seven_day_oi.is_none()
    }
}

/// Five hours are 300 minutes and a week is 10080; no other length names a
/// window.
pub proof fn law_lengths_of_the_windows(minutes: i64)
    ensures
        bucket_of(minutes) == Some(CodexWindow::FiveHour) <==> minutes == 5 * 60,
        bucket_of(minutes) == Some(CodexWindow::Weekly) <==> minutes == 7 * 24 * 60,
{
}

/// A snapshot with any window in it is not empty, and one without is.
pub proof fn law_empty_snapshot(snapshot: UsageSnapshot, window: UsageWindow)
    ensures
        snapshot.empty() ==> snapshot == (UsageSnapshot {
            five_hour: None,
            seven_day: None,
            seven_day_oi: None,
        }),
        !(UsageSnapshot { five_hour: Some(window), ..snapshot }).empty(),
        !(UsageSnapshot { seven_day: Some(window), ..snapshot }).empty(),
        !(UsageSnapshot { seven_day_oi: Some(window), ..snapshot }).empty(),
        (UsageSnapshot { five_hour: None, seven_day: None, seven_day_oi: None }).empty(),
{
}

} // verus!
