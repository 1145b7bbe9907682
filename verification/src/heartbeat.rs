//! Decisions of the heartbeat task: every tick a fresh random value is written
//! to the heartbeat register and, every few ticks, read back. A transport error
//! or timeout drops the link at once; a controller exception or a wrong read-back
//! counts as a failed tick, and a run of failed ticks drops the link.

use vstd::prelude::*;

verus! {

/// A fresh random value for the heartbeat register (`rand::thread_rng().gen::<u16>()`).
/// Any value may come back; nothing is stated of it.
#[verifier::external_body]
fn random_u16() -> u16 {
    rand::Rng::gen::<u16>(&mut rand::thread_rng())
}

/// Result of the heartbeat write.
#[derive(Debug, Clone, Copy, PartialEq, Eq, Structural)]
pub enum WriteOutcome {
    /// The controller accepted the write.
    Written,
    /// The controller answered with an exception.
    Refused,
    /// Transport error or timeout.
    Lost,
}

/// Result of the read-back.
#[derive(Debug, Clone)]
pub enum ReadOutcome {
    /// No read-back was made this tick.
    Skipped,
    /// The registers the controller returned.
    Regs(Vec<u16>),
    /// The controller answered with an exception.
    Refused,
    /// Transport error or timeout.
    Lost,
}

/// What the heartbeat task does after a tick.
#[derive(Debug, Clone, Copy, PartialEq, Eq, Structural)]
pub enum HeartbeatAction {
    Continue,
    /// Declare the link down and end the task.
    Downline,
}

/// Heartbeat state over one connection.
pub struct Heartbeat {
    ticks: u64,
    read_fails: u32,
    read_every: u64,
    watchdog_fails: u32,
    last_value: u16,
}

/// The heartbeat state as values.
pub struct HeartbeatView {
    /// Ticks so far.
    pub ticks: u64,
    /// Failed ticks in a row.
    pub read_fails: u32,
    /// A read-back is made every `read_every` ticks.
    pub read_every: u64,
    /// Failed ticks in a row that drop the link.
    pub watchdog_fails: u32,
    /// The value written at the latest tick.
    pub last_value: u16,
}

impl View for Heartbeat {
    type V = HeartbeatView;

    closed spec fn view(&self) -> HeartbeatView {
        HeartbeatView {
            ticks: self.ticks,
            read_fails: self.read_fails,
            read_every: self.read_every,
            watchdog_fails: self.watchdog_fails,
            last_value: self.last_value,
        }
    }
}

/// Whether a read-back failed at the transport level.
pub open spec fn read_lost(r: ReadOutcome) -> bool {
    r is Lost
}

/// Whether a read-back is wrong: an exception, or anything but exactly the value written.
pub open spec fn read_wrong(r: ReadOutcome, expected: u16) -> bool {
    match r {
        ReadOutcome::Refused => true,
        ReadOutcome::Regs(v) => !(v@.len() == 1 && v@[0] == expected),
        _ => false,
    }
}

/// The failure count and verdict after a tick that was not lost: `failed`
/// says whether it was refused or read back wrong.
pub open spec fn judge(fails: u32, limit: u32, failed: bool) -> (u32, HeartbeatAction) {
    if failed {
        let f = if fails < u32::MAX {
            (fails + 1) as u32
        } else {
            u32::MAX
        };
        (f, if f >= limit {
            HeartbeatAction::Downline
        } else {
            HeartbeatAction::Continue
        })
    } else {
        (0u32, HeartbeatAction::Continue)
    }
}

impl Heartbeat {
    /// A read-back is due at some tick.
    #[verifier::type_invariant]
    spec fn read_period_positive(&self) -> bool {
        self.read_every >= 1
    }

    /// A fresh heartbeat: reads back every `watchdog_read_ms / heartbeat_ms` ticks (at least every tick).
    pub fn new(heartbeat_ms: u64, watchdog_read_ms: u64, watchdog_fails: u32) -> (h: Self)
        requires
            heartbeat_ms > 0,
        ensures
            h@.ticks == 0,
            h@.read_fails == 0,
            h@.read_every == (if watchdog_read_ms / heartbeat_ms >= 1 {
                watchdog_read_ms / heartbeat_ms
            } else {
                1
            }),
            h@.watchdog_fails == watchdog_fails,
            h@.last_value == 0,
    {
        let q = watchdog_read_ms / heartbeat_ms;
        Heartbeat {
            ticks: 0,
            read_fails: 0,
            read_every: if q >= 1 {
                q
            } else {
                1
            },
            watchdog_fails,
            last_value: 0,
        }
    }

    /// Ticks so far.
    pub fn ticks(&self) -> (t: u64)
        ensures
            t == self@.ticks,
    {
        self.ticks
    }

    /// Failed ticks in a row.
    pub fn read_fails(&self) -> (f: u32)
        ensures
            f == self@.read_fails,
    {
        self.read_fails
    }

    /// The read-back period in ticks.
    pub fn read_every(&self) -> (n: u64)
        ensures
            n == self@.read_every,
    {
        self.read_every
    }

    /// The value written at the latest tick.
    pub fn last_value(&self) -> (v: u16)
        ensures
            v == self@.last_value,
    {
        self.last_value
    }

    /// Counts a tick.
    pub fn tick(&mut self)
        requires
            old(self)@.ticks < u64::MAX,
        ensures
            final(self)@ == (HeartbeatView { ticks: (old(self)@.ticks + 1) as u64, ..old(self)@ }),
    {
        proof {
            use_type_invariant(&*self);
        }
        self.ticks = self.ticks + 1;
    }

    /// Draws the value to write at this tick and remembers it for the read-back.
    pub fn next_value(&mut self) -> (v: u16)
        ensures
            final(self)@ == (HeartbeatView { last_value: v, ..old(self)@ }),
    {
        proof {
            use_type_invariant(&*self);
        }
        let v = random_u16();
        self.last_value = v;
        v
    }

    /// Whether to read the value back this tick: only after an accepted write,
    /// on every `read_every`-th tick.
    pub fn read_due(&self, write: WriteOutcome) -> (b: bool)
        ensures
            b == (write == WriteOutcome::Written && self@.ticks % self@.read_every == 0),
    {
        proof {
            use_type_invariant(self);
        }
        write == WriteOutcome::Written && self.ticks % self.read_every == 0
    }

    /// Judges a tick. A lost write or read-back drops the link at once. A refused
    /// write or a wrong read-back counts a failed tick; `watchdog_fails` of them in
    /// a row drop the link. A good tick clears the count.
    pub fn finish(&mut self, write: WriteOutcome, read: &ReadOutcome) -> (a: HeartbeatAction)
        ensures
            (write == WriteOutcome::Lost || read_lost(*read)) ==> a == HeartbeatAction::Downline
                && final(self)@ == old(self)@,
            !(write == WriteOutcome::Lost || read_lost(*read)) ==> (final(self)@.read_fails, a)
                == judge(
                old(self)@.read_fails,
                old(self)@.watchdog_fails,
                write != WriteOutcome::Written || read_wrong(*read, old(self)@.last_value),
            ) && final(self)@ == (HeartbeatView {
                read_fails: final(self)@.read_fails,
                ..old(self)@
            }),
    {
        proof {
            use_type_invariant(&*self);
        }
        let io_bad = write == WriteOutcome::Lost || match read {
            ReadOutcome::Lost => true,
            _ => false,
        };
        if io_bad {
            return HeartbeatAction::Downline;
        }
        let wrong = match read {
            ReadOutcome::Refused => true,
            ReadOutcome::Regs(v) => !(v.len() == 1 && v[0] == self.last_value),
            _ => false,
        };
        if write != WriteOutcome::Written || wrong {
            self.read_fails = self.read_fails.saturating_add(1);
            if self.read_fails >= self.watchdog_fails {
                HeartbeatAction::Downline
            } else {
                HeartbeatAction::Continue
            }
        } else {
            self.read_fails = 0;
            HeartbeatAction::Continue
        }
    }
}

/// The count after `n` failed ticks in a row from a clear count, as long as the
/// link stayed up.
pub open spec fn fails_after(n: nat, limit: u32) -> u32
    decreases n,
{
    if n == 0 {
        0
    } else {
        judge(fails_after((n - 1) as nat, limit), limit, true).0
    }
}

/// Starting from a clear count, failed ticks keep the link up until the
/// `limit`-th one in a row, which drops it.
pub proof fn lemma_consecutive_failures(n: nat, limit: u32)
    requires
        1 <= n <= limit,
    ensures
        fails_after(n, limit) == n,
        judge(fails_after((n - 1) as nat, limit), limit, true).1 == (if n == limit {
            HeartbeatAction::Downline
        } else {
            HeartbeatAction::Continue
        }),
    decreases n,
{
    if n > 1 {
        lemma_consecutive_failures((n - 1) as nat, limit);
    }
}

/// One good tick clears the count, whatever it was.
pub proof fn lemma_good_tick_clears(fails: u32, limit: u32)
    ensures
        judge(fails, limit, false) == (0u32, HeartbeatAction::Continue),
{
}

} // verus!
