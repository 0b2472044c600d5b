use vstd::prelude::*;
use vstd::string::*;
use crate::render::{decimal, digits};

verus! {

/// The decisions of the heartbeat that keeps a lease alive while a task
/// runs elsewhere. Times are seconds on a monotonic clock. The loop that
/// sleeps, writes to the store and watches the stop signal asks these
/// methods what is due and reports back what it did.
pub struct Watchdog {
    pub ping_secs: u64,
    pub checkpoint_secs: u64,
    pub started: u64,
    pub last_ping: u64,
    pub last_checkpoint: u64,
}

/// Seconds from `from` to `now`; a clock read that went backwards counts
/// as no time at all.
pub open spec fn since(from: u64, now: u64) -> int {
    if now >= from {
        now - from
    } else {
        0
    }
}

pub open spec fn max1(n: int) -> int {
    if n < 1 {
        1
    } else {
        n
    }
}

fn elapsed(from: u64, now: u64) -> (r: u64)
    ensures
        r as int == since(from, now),
{
    if now >= from {
        now - from
    } else {
        0
    }
}

impl Watchdog {
    /// A watchdog started at `now`; none when both intervals are zero, as
    /// there would be nothing to do.
    pub fn new(ping_secs: u64, checkpoint_secs: u64, now: u64) -> (r: Option<Watchdog>)
        ensures
            (ping_secs == 0 && checkpoint_secs == 0) <==> r is None,
            r matches Some(w) ==> w == (Watchdog {
                ping_secs,
                checkpoint_secs,
                started: now,
                last_ping: now,
                last_checkpoint: now,
            }),
    {
        if ping_secs == 0 && checkpoint_secs == 0 {
            return None;
        }
        Some(Watchdog { ping_secs, checkpoint_secs, started: now, last_ping: now, last_checkpoint: now })
    }

    /// A heartbeat is due: pings are enabled and an interval has passed
    /// since the last one.
    pub fn ping_due(&self, now: u64) -> (r: bool)
        ensures
            r == (self.ping_secs > 0 && since(self.last_ping, now) >= self.ping_secs),
    {
        self.ping_secs > 0 && elapsed(self.last_ping, now) >= self.ping_secs
    }

    /// A checkpoint is due: checkpoints are enabled and an interval has
    /// passed since the last one.
    pub fn checkpoint_due(&self, now: u64) -> (r: bool)
        ensures
            r == (self.checkpoint_secs > 0 && since(self.last_checkpoint, now) >= self.checkpoint_secs),
    {
        self.checkpoint_secs > 0 && elapsed(self.last_checkpoint, now) >= self.checkpoint_secs
    }

    /// A heartbeat was attempted at `now`.
    pub fn note_ping(&mut self, now: u64)
        ensures
            *final(self) == (Watchdog { last_ping: now, ..*old(self) }),
    {
        self.last_ping = now;
    }

    /// A checkpoint, which also renews the lease, was attempted at `now`.
    pub fn note_checkpoint(&mut self, now: u64)
        ensures
            *final(self) == (Watchdog { last_ping: now, last_checkpoint: now, ..*old(self) }),
    {
        self.last_checkpoint = now;
        self.last_ping = now;
    }

    /// Whole minutes since the start, at least one.
    pub fn elapsed_minutes(&self, now: u64) -> (r: u64)
        ensures
            r as int == max1(since(self.started, now) / 60),
    {
        let m = elapsed(self.started, now) / 60;
        if m < 1 {
            1
        } else {
            m
        }
    }

    /// The progress note a checkpoint at `now` records.
    pub fn checkpoint_note(&self, now: u64) -> (r: String)
        ensures
            r@ == "Auto-checkpoint: still running via IMI wrapper ("@ + digits(max1(since(self.started, now) / 60) as nat, 10)
                + "m elapsed)"@,
    {
        let mut s = String::from_str("Auto-checkpoint: still running via IMI wrapper (");
        let m = decimal(self.elapsed_minutes(now));
        s.append(m.as_str());
        s.append("m elapsed)");
        s
    }

    /// Whether supervision goes on after a conditional lease renewal that
    /// changed `updated` rows: a renewal that changed nothing means the task
    /// is no longer leased, and the watchdog stops.
    pub fn keep_running(updated: usize) -> (r: bool)
        ensures
            r == (updated != 0),
    {
        updated != 0
    }
}

} // verus!
