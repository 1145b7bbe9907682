//! Decisions of the connection supervisor: when to dial, which status to show
//! while dialling, and how long to back off after a failed dial.

use vstd::prelude::*;
use crate::status::StatusKind;

verus! {

/// What the supervisor does next.
#[derive(Debug, Clone, Copy, PartialEq, Eq, Structural)]
pub enum SupervisorAction {
    /// Sleep until woken (manual disconnect in force, or the link is up).
    WaitForWake,
    /// Dial a new connection, showing this status meanwhile.
    Dial { status: StatusKind },
}

/// The supervisor's next step: a manual disconnect waits quietly for a manual
/// connect; a live link waits to be woken; otherwise it dials, as "connecting"
/// before the first success and "reconnecting" after it.
pub fn supervisor_action(manual_stop: bool, connected: bool, ever_online: bool) -> (a:
    SupervisorAction)
    ensures
        a == (if manual_stop || connected {
            SupervisorAction::WaitForWake
        } else if ever_online {
            SupervisorAction::Dial { status: StatusKind::Reconnecting }
        } else {
            SupervisorAction::Dial { status: StatusKind::Connecting }
        }),
{
    if manual_stop || connected {
        SupervisorAction::WaitForWake
    } else if ever_online {
        SupervisorAction::Dial { status: StatusKind::Reconnecting }
    } else {
        SupervisorAction::Dial { status: StatusKind::Connecting }
    }
}

/// Index into the back-off schedule after `fails` failed dials in a row.
pub open spec fn backoff_index(fails: u32, len: nat) -> int {
    if fails < len - 1 {
        fails as int
    } else {
        len - 1
    }
}

/// The wait after a failed dial, and the new count of failed dials: the
/// schedule entry for the failures so far, holding at its last entry.
pub fn backoff_after_failure(backoff: &Vec<u64>, fails: u32) -> (r: (u64, u32))
    requires
        backoff@.len() > 0,
    ensures
        r.0 == backoff@[backoff_index(fails, backoff@.len())],
        r.1 == (if fails < u32::MAX {
            (fails + 1) as u32
        } else {
            u32::MAX
        }),
{
    let last = backoff.len() - 1;
    let idx = if (fails as usize) < last {
        fails as usize
    } else {
        last
    };
    (backoff[idx], fails.saturating_add(1))
}

/// What the supervisor does, in this order, once a dial has succeeded.
#[derive(Debug, Clone, Copy, PartialEq, Eq, Structural)]
pub enum OnlineAction {
    /// Keep the new connection as the link.
    KeepLink,
    /// Show the status "online".
    SetOnline,
    /// Write OFF to the coils left held while the link was down.
    ReleaseHeld,
    /// Start the heartbeat task of this connection.
    StartHeartbeat,
    /// Start the alarm watch task of this connection.
    StartAlarmWatch,
}

/// The supervisor's own state: failed dials in a row, and whether a dial has
/// ever succeeded.
pub struct Supervisor {
    fails: u32,
    ever_online: bool,
}

/// The supervisor state as values.
pub struct SupervisorView {
    pub fails: u32,
    pub ever_online: bool,
}

impl View for Supervisor {
    type V = SupervisorView;

    closed spec fn view(&self) -> SupervisorView {
        SupervisorView { fails: self.fails, ever_online: self.ever_online }
    }
}

impl Supervisor {
    /// A supervisor that has not dialled yet.
    pub fn new() -> (s: Self)
        ensures
            s@.fails == 0,
            !s@.ever_online,
    {
        Supervisor { fails: 0, ever_online: false }
    }

    /// The next step, given whether a manual disconnect is in force and whether
    /// the link is up: no dial while manually stopped or while online.
    pub fn next_action(&self, manual_stop: bool, connected: bool) -> (a: SupervisorAction)
        ensures
            a == (if manual_stop || connected {
                SupervisorAction::WaitForWake
            } else if self@.ever_online {
                SupervisorAction::Dial { status: StatusKind::Reconnecting }
            } else {
                SupervisorAction::Dial { status: StatusKind::Connecting }
            }),
    {
        supervisor_action(manual_stop, connected, self.ever_online)
    }

    /// A dial succeeded: the failure count clears, the link counts as having
    /// been online, and the actions to take follow in order: keep the link,
    /// show "online", release held coils, then start the heartbeat and the
    /// alarm watch.
    pub fn dial_succeeded(&mut self) -> (acts: Vec<OnlineAction>)
        ensures
            final(self)@.fails == 0,
            final(self)@.ever_online,
            acts@ == seq![
                OnlineAction::KeepLink,
                OnlineAction::SetOnline,
                OnlineAction::ReleaseHeld,
                OnlineAction::StartHeartbeat,
                OnlineAction::StartAlarmWatch,
            ],
    {
        self.fails = 0;
        self.ever_online = true;
        let acts = vec![
            OnlineAction::KeepLink,
            OnlineAction::SetOnline,
            OnlineAction::ReleaseHeld,
            OnlineAction::StartHeartbeat,
            OnlineAction::StartAlarmWatch,
        ];
        assert(acts@ =~= seq![
            OnlineAction::KeepLink,
            OnlineAction::SetOnline,
            OnlineAction::ReleaseHeld,
            OnlineAction::StartHeartbeat,
            OnlineAction::StartAlarmWatch,
        ]);
        acts
    }

    /// A dial failed: the wait before the next one, from the schedule; the
    /// failure count grows (saturating).
    pub fn dial_failed(&mut self, backoff: &Vec<u64>) -> (delay: u64)
        requires
            backoff@.len() > 0,
        ensures
            delay == backoff@[backoff_index(old(self)@.fails, backoff@.len())],
            final(self)@.fails == (if old(self)@.fails < u32::MAX {
                (old(self)@.fails + 1) as u32
            } else {
                u32::MAX
            }),
            final(self)@.ever_online == old(self)@.ever_online,
    {
        let (delay, next) = backoff_after_failure(backoff, self.fails);
        self.fails = next;
        delay
    }
}

/// Once the failures in a row reach the end of the schedule, the wait stays at
/// its last entry, also after one more failure.
pub proof fn lemma_backoff_holds_at_last(len: nat, fails: u32)
    requires
        len > 0,
        fails >= len - 1,
    ensures
        backoff_index(fails, len) == len - 1,
        fails < u32::MAX ==> backoff_index((fails + 1) as u32, len) == len - 1,
{
}

} // verus!
