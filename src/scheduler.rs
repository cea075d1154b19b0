use vstd::prelude::*;
use crate::text::{owned, string_of};
use crate::numtext::{decimal, decimal_chars};

verus! {

/// Counters shown while the archiver runs.
pub struct RunStats {
    pub total_tracks: u64,
    pub new_tracks: u64,
    pub error_count: u32,
}

impl RunStats {
    pub fn new() -> (r: Self)
        ensures
            r.total_tracks == 0,
            r.new_tracks == 0,
            r.error_count == 0,
    {
        RunStats { total_tracks: 0, new_tracks: 0, error_count: 0 }
    }
}

/// The console title showing the counters.
pub open spec fn title_text(st: RunStats) -> Seq<char> {
    "SCArchive Webhook | Tracks: "@ + decimal(st.total_tracks as nat) + " | New: "@ + decimal(
        st.new_tracks as nat,
    ) + " | Errors: "@ + decimal(st.error_count as nat)
}

/// The console title for the current counters.
pub fn console_title(stats: &RunStats) -> (r: String)
    ensures
        r@ == title_text(*stats),
{
    owned("SCArchive Webhook | Tracks: ").concat(string_of(&decimal_chars(stats.total_tracks)).as_str())
        .concat(" | New: ").concat(string_of(&decimal_chars(stats.new_tracks)).as_str()).concat(
        " | Errors: ",
    ).concat(string_of(&decimal_chars(stats.error_count as u64)).as_str())
}

/// Adds `count` tracks announced and stored (wrapping, as a counter does).
pub fn increment_total_tracks(stats: &mut RunStats, count: u64)
    ensures
        final(stats).total_tracks == old(stats).total_tracks.wrapping_add(count),
        final(stats).new_tracks == old(stats).new_tracks,
        final(stats).error_count == old(stats).error_count,
{
    stats.total_tracks = stats.total_tracks.wrapping_add(count);
}

/// Adds `count` new tracks found.
pub fn increment_new_tracks(stats: &mut RunStats, count: u64)
    ensures
        final(stats).new_tracks == old(stats).new_tracks.wrapping_add(count),
        final(stats).total_tracks == old(stats).total_tracks,
        final(stats).error_count == old(stats).error_count,
{
    stats.new_tracks = stats.new_tracks.wrapping_add(count);
}

/// Counts one more error.
pub fn increment_error_count(stats: &mut RunStats)
    ensures
        final(stats).error_count == old(stats).error_count.wrapping_add(1),
        final(stats).total_tracks == old(stats).total_tracks,
        final(stats).new_tracks == old(stats).new_tracks,
{
    stats.error_count = stats.error_count.wrapping_add(1);
}

/// One more, stopping at the largest value.
pub open spec fn bump(x: u64) -> u64 {
    if x < u64::MAX {
        (x + 1) as u64
    } else {
        x
    }
}

/// `x + y`, stopping at the largest value.
pub open spec fn sat_add(x: u64, y: u64) -> u64 {
    if x + y > u64::MAX {
        u64::MAX
    } else {
        (x + y) as u64
    }
}

/// The poll scheduler's counters between ticks.
#[derive(Clone, Copy, PartialEq, Eq, Structural, Debug)]
pub struct Scheduler {
    /// Ticks started.
    pub total_polls: u64,
    /// Ticks since the last auto-enrollment run.
    pub follow_check_counter: u64,
    /// Ticks since the last save.
    pub db_save_counter: u64,
    /// New tracks since the last save.
    pub tracks_since_last_save: u64,
    /// Some tick since the last save found new tracks.
    pub db_needs_saving: bool,
}

/// What the counters become when a tick starts, and whether auto-enrollment runs in it.
pub open spec fn begin_tick_spec(s: Scheduler, auto_enroll: bool, interval: u64) -> (Scheduler, bool) {
    let s1 = Scheduler { total_polls: bump(s.total_polls), ..s };
    if auto_enroll {
        let c = bump(s.follow_check_counter);
        if c >= interval {
            (Scheduler { follow_check_counter: 0, ..s1 }, true)
        } else {
            (Scheduler { follow_check_counter: c, ..s1 }, false)
        }
    } else {
        (s1, false)
    }
}

/// What the counters become after one account's poll reported `count` new tracks.
pub open spec fn account_done_spec(s: Scheduler, count: u64) -> Scheduler {
    Scheduler {
        tracks_since_last_save: sat_add(s.tracks_since_last_save, count),
        db_needs_saving: s.db_needs_saving || count > 0,
        ..s
    }
}

/// Whether the tick that just ended saves the store: enough new tracks since the last save, or
/// enough ticks.
pub open spec fn save_due(s: Scheduler, save_every_tracks: u64, save_every_ticks: u64) -> bool {
    (s.db_needs_saving && s.tracks_since_last_save >= save_every_tracks) || bump(s.db_save_counter)
        >= save_every_ticks
}

/// What the counters become when a tick ends.
pub open spec fn end_tick_spec(s: Scheduler, save_every_tracks: u64, save_every_ticks: u64) -> Scheduler {
    if save_due(s, save_every_tracks, save_every_ticks) {
        Scheduler { db_save_counter: 0, tracks_since_last_save: 0, db_needs_saving: false, ..s }
    } else {
        Scheduler { db_save_counter: bump(s.db_save_counter), ..s }
    }
}

fn bump_exec(x: u64) -> (r: u64)
    ensures
        r == bump(x),
{
    if x < u64::MAX {
        x + 1
    } else {
        x
    }
}

impl Scheduler {
    /// Counters of a run that has not ticked yet.
    pub fn new() -> (r: Self)
        ensures
            r.total_polls == 0,
            r.follow_check_counter == 0,
            r.db_save_counter == 0,
            r.tracks_since_last_save == 0,
            !r.db_needs_saving,
    {
        Scheduler {
            total_polls: 0,
            follow_check_counter: 0,
            db_save_counter: 0,
            tracks_since_last_save: 0,
            db_needs_saving: false,
        }
    }

    /// Starts a tick; returns whether auto-enrollment runs in it (configured, and its interval
    /// reached, which restarts its count).
    pub fn begin_tick(&mut self, auto_enroll: bool, interval: u64) -> (r: bool)
        ensures
            (*final(self), r) == begin_tick_spec(*old(self), auto_enroll, interval),
    {
        self.total_polls = bump_exec(self.total_polls);
        if auto_enroll {
            let c = bump_exec(self.follow_check_counter);
            if c >= interval {
                self.follow_check_counter = 0;
                true
            } else {
                self.follow_check_counter = c;
                false
            }
        } else {
            false
        }
    }

    /// Takes in one account's count of new tracks.
    pub fn account_done(&mut self, count: u64)
        ensures
            *final(self) == account_done_spec(*old(self), count),
    {
        self.tracks_since_last_save = self.tracks_since_last_save.saturating_add(count);
        if count > 0 {
            self.db_needs_saving = true;
        }
    }

    /// Ends a tick; returns whether the store is saved now. A save restarts both counts.
    pub fn end_tick(&mut self, save_every_tracks: u64, save_every_ticks: u64) -> (r: bool)
        ensures
            r == save_due(*old(self), save_every_tracks, save_every_ticks),
            *final(self) == end_tick_spec(*old(self), save_every_tracks, save_every_ticks),
    {
        let ticks = bump_exec(self.db_save_counter);
        let save = (self.db_needs_saving && self.tracks_since_last_save >= save_every_tracks) || ticks
            >= save_every_ticks;
        if save {
            self.db_save_counter = 0;
            self.tracks_since_last_save = 0;
            self.db_needs_saving = false;
        } else {
            self.db_save_counter = ticks;
        }
        save
    }
}

/// The start and end of each batch of accounts, in order.
pub fn account_batches(n: usize, parallelism: usize) -> (r: Vec<(usize, usize)>)
    ensures
        r@.len() > 0 ==> r@[0].0 == 0 && r@[r@.len() - 1].1 == n,
        n > 0 ==> r@.len() > 0,
        n == 0 ==> r@.len() == 0,
        forall|i: int| 0 <= i < r@.len() ==> {
            let (a, b) = #[trigger] r@[i];
            a < b <= n && b - a <= (if parallelism == 0 {
                1
            } else {
                parallelism
            }) && (b < n ==> b - a == (if parallelism == 0 {
                1
            } else {
                parallelism
            }))
        },
        forall|i: int| 0 < i < r@.len() ==> (#[trigger] r@[i]).0 == r@[i - 1].1,
{
    let k: usize = if parallelism == 0 {
        1
    } else {
        parallelism
    };
    let mut out: Vec<(usize, usize)> = Vec::new();
    let mut start: usize = 0;
    while start < n
        invariant
            start <= n,
            k >= 1,
            k == (if parallelism == 0 {
                1
            } else {
                parallelism
            }),
            out@.len() > 0 ==> out@[0].0 == 0 && out@[out@.len() - 1].1 == start,
            out@.len() == 0 ==> start == 0,
            forall|i: int| 0 <= i < out@.len() ==> {
                let (a, b) = #[trigger] out@[i];
                a < b <= start && b - a <= k && (b < n ==> b - a == k)
            },
            forall|i: int| 0 < i < out@.len() ==> (#[trigger] out@[i]).0 == out@[i - 1].1,
        decreases n - start,
    {
        let end = if n - start < k {
            n
        } else {
            start + k
        };
        out.push((start, end));
        start = end;
    }
    out
}

} // verus!
