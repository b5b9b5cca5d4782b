//! Logical wall clock: a monotonic reading plus a correction offset.
//!
//! The device's monotonic counter is read outside the library; every method
//! takes the current monotonic reading, in seconds, as an argument and
//! relates its result to it exactly.

use crate::tz::Tz;
use vstd::prelude::*;

verus! {

/// Wall clock derived from the monotonic counter: wall time in UTC seconds is
/// the monotonic reading plus `offset_sec`.
#[derive(Clone, Copy, Debug)]
pub struct Clock {
    pub timezone: Tz,
    pub offset_sec: u64,
}

/// The offset a sync with `epoch_sec` at monotonic reading `monotonic_sec`
/// stores: their difference, clamped to zero if the counter ran ahead.
pub open spec fn sync_offset(monotonic_sec: int, epoch_sec: int) -> int {
    if epoch_sec >= monotonic_sec {
        epoch_sec - monotonic_sec
    } else {
        0
    }
}

/// The UTC instant the clock reports at monotonic reading `monotonic_sec`.
pub open spec fn now_spec(c: Clock, monotonic_sec: int) -> int {
    monotonic_sec + c.offset_sec
}

impl Clock {
    /// A fresh clock for the given zone; until the first sync it reports
    /// monotonic (device-boot-relative) time.
    pub fn new(timezone: Tz) -> (r: Clock)
        ensures
            r.timezone == timezone,
            r.offset_sec == 0,
    {
        Clock { timezone, offset_sec: 0 }
    }

    /// Sync the clock with `ntp_sec`, given in seconds since the Unix epoch.
    pub fn sync(&mut self, monotonic_sec: u64, ntp_sec: u64)
        ensures
            final(self).offset_sec == sync_offset(monotonic_sec as int, ntp_sec as int),
            final(self).timezone == old(self).timezone,
    {
        self.offset_sec = if ntp_sec >= monotonic_sec {
            ntp_sec - monotonic_sec
        } else {
            0
        };
    }

    /// The current UTC instant, in seconds since the Unix epoch.
    pub fn now(&self, monotonic_sec: u64) -> (r: u64)
        requires
            monotonic_sec + self.offset_sec <= u64::MAX,
        ensures
            r == now_spec(*self, monotonic_sec as int),
    {
        monotonic_sec + self.offset_sec
    }

    /// The current wall-clock seconds in the configured zone: the UTC instant
    /// shifted by the zone's offset.
    pub fn now_local(&self, monotonic_sec: u64) -> (r: i64)
        requires
            self.timezone.wf(),
            monotonic_sec + self.offset_sec <= i64::MAX - 93_599,
            monotonic_sec + self.offset_sec + self.timezone.offset_sec >= 0,
        ensures
            r == now_spec(*self, monotonic_sec as int) + self.timezone.offset_sec,
    {
        let utc: u64 = monotonic_sec + self.offset_sec;
        let off: i64 = self.timezone.offset_sec as i64;
        utc as i64 + off
    }

    /// The minute of the hour, 0 to 59, the clock currently shows in the
    /// configured zone.
    pub fn current_minute(&self, monotonic_sec: u64) -> (r: u8)
        requires
            self.timezone.wf(),
            monotonic_sec + self.offset_sec <= i64::MAX - 93_599,
            monotonic_sec + self.offset_sec + self.timezone.offset_sec >= 0,
        ensures
            r == ((now_spec(*self, monotonic_sec as int) + self.timezone.offset_sec) % 3600) / 60,
            r <= 59,
    {
        let local: i64 = self.now_local(monotonic_sec);
        let local_u: u64 = local as u64;
        let r: u64 = (local_u % 3600) / 60;
        r as u8
    }
}

/// After a sync with `epoch_sec` at monotonic reading `monotonic_sec`, and as
/// long as the counter did not run ahead of the time source, the clock
/// reports exactly `epoch_sec` at that same reading.
pub proof fn lemma_sync_sets_now(c: Clock, monotonic_sec: u64, epoch_sec: u64)
    requires
        epoch_sec >= monotonic_sec,
    ensures
        now_spec(
            Clock {
                offset_sec: sync_offset(monotonic_sec as int, epoch_sec as int) as u64,
                ..c
            },
            monotonic_sec as int,
        ) == epoch_sec,
{
}

/// Syncing a fresh clock (offset still zero) with an epoch `delta` seconds
/// ahead of the monotonic reading advances what `now` reports by exactly
/// `delta`.
pub proof fn lemma_sync_advances_now(c: Clock, monotonic_sec: u64, delta: u64)
    requires
        c.offset_sec == 0,
        monotonic_sec + delta <= u64::MAX,
    ensures
        now_spec(
            Clock {
                offset_sec: sync_offset(monotonic_sec as int, monotonic_sec + delta) as u64,
                ..c
            },
            monotonic_sec as int,
        ) == now_spec(c, monotonic_sec as int) + delta,
{
}

} // verus!
