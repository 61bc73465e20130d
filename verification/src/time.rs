//! Points in time, and the "recent" window of the coverage check.

use vstd::prelude::*;

verus! {

/// A point in time: whole seconds since the Unix epoch, and the nanoseconds
/// after that second.
#[derive(Debug, Clone, Copy, PartialEq, Eq, Structural)]
pub struct Timestamp {
    pub secs: i64,
    pub nanos: u32,
}

impl Timestamp {
    /// The nanoseconds are a proper fraction of a second.
    pub open spec fn valid(self) -> bool {
        self.nanos < 1_000_000_000
    }

    /// Nanoseconds since the Unix epoch.
    pub open spec fn instant(self) -> int {
        self.secs * 1_000_000_000 + self.nanos
    }

    /// `self` is strictly earlier than `other`.
    pub open spec fn before(self, other: Timestamp) -> bool {
        self.secs < other.secs || (self.secs == other.secs && self.nanos < other.nanos)
    }

    /// Whether `self` is strictly earlier than `other`.
    pub fn is_before(self, other: Timestamp) -> (earlier: bool)
        ensures
            earlier == self.before(other),
    {
        self.secs < other.secs || (self.secs == other.secs && self.nanos < other.nanos)
    }
}

/// The order of valid points in time is the order of the instants they name.
pub proof fn timestamps_are_ordered_by_instant(a: Timestamp, b: Timestamp)
    requires
        a.valid(),
        b.valid(),
    ensures
        a.before(b) <==> a.instant() < b.instant(),
        a == b <==> a.instant() == b.instant(),
{
}

/// The point in time `since_days` whole days before `now`; `None` when no
/// window is asked for, or when that point lies before the first one that can
/// be represented.
pub open spec fn window_start(now: Timestamp, since_days: u32) -> Option<Timestamp> {
    let secs = now.secs - since_days * 86_400;
    if since_days == 0 || secs < i64::MIN {
        None
    } else {
        Some(Timestamp { secs: secs as i64, nanos: now.nanos })
    }
}

/// A session updated at `updated_at` counts as recent: there is no lower
/// bound, or it was not updated before the bound.
pub open spec fn counts_as_recent(updated_at: Timestamp, cutoff: Option<Timestamp>) -> bool {
    match cutoff {
        None => true,
        Some(cutoff) => !updated_at.before(cutoff),
    }
}

/// The lower time bound for "recent"; `None` means that every session counts,
/// as it does for a window of zero days.
pub fn recent_cutoff(now: Timestamp, since_days: u32) -> (cutoff: Option<Timestamp>)
    ensures
        cutoff == window_start(now, since_days),
{
    if since_days == 0 {
        return None;
    }
    let window: i128 = since_days as i128 * 86_400;
    let secs: i128 = now.secs as i128 - window;
    if secs < i64::MIN as i128 {
        None
    } else {
        Some(Timestamp { secs: secs as i64, nanos: now.nanos })
    }
}

/// Whether a session updated at `updated_at` lies in the recent window.
pub fn is_recent(updated_at: Timestamp, cutoff: Option<Timestamp>) -> (recent: bool)
    ensures
        recent == counts_as_recent(updated_at, cutoff),
{
    match cutoff {
        None => true,
        Some(cutoff) => !updated_at.is_before(cutoff),
    }
}

/// A window of zero days makes every session recent.
pub proof fn zero_days_makes_everything_recent(now: Timestamp, updated_at: Timestamp)
    ensures
        counts_as_recent(updated_at, window_start(now, 0)),
{
}

/// A session is recent exactly when it was updated at most `since_days` days
/// before `now`, as long as that bound can be represented.
pub proof fn recent_means_within_the_window(now: Timestamp, since_days: u32, updated_at: Timestamp)
    requires
        now.valid(),
        updated_at.valid(),
        since_days > 0,
        now.secs - since_days * 86_400 >= i64::MIN,
    ensures
        counts_as_recent(updated_at, window_start(now, since_days)) <==> now.instant()
            - updated_at.instant() <= since_days * 86_400 * 1_000_000_000,
{
}

/// Widening the window never makes a recent session stale.
pub proof fn a_wider_window_keeps_recent_sessions(
    now: Timestamp,
    fewer: u32,
    more: u32,
    updated_at: Timestamp,
)
    requires
        0 < fewer <= more,
    ensures
        counts_as_recent(updated_at, window_start(now, fewer)) ==> counts_as_recent(
            updated_at,
            window_start(now, more),
        ),
{
}

/// The window starts `since_days` days of 86,400 seconds before `now`. It has no
/// start when it is zero days long, or when its start would lie before the
/// first representable second.
pub proof fn the_window_starts_days_before_now(now: Timestamp, since_days: u32)
    requires
        now.valid(),
    ensures
        window_start(now, since_days) is None <==> since_days == 0 || now.secs - since_days * 86_400
            < i64::MIN,
        window_start(now, since_days) matches Some(start) ==> start.valid() && now.instant()
            - start.instant() == since_days * 86_400 * 1_000_000_000,
{
}

/// A session is recent exactly when there is no cutoff or it was updated at the
/// cutoff or later.
pub proof fn recent_means_not_before_the_cutoff(updated_at: Timestamp, cutoff: Timestamp)
    requires
        updated_at.valid(),
        cutoff.valid(),
    ensures
        counts_as_recent(updated_at, None),
        counts_as_recent(updated_at, Some(cutoff)) <==> updated_at.instant() >= cutoff.instant(),
{
}

} // verus!
