//! Reference counts of the on-demand read groups: the first subscriber of a
//! group starts its polling task, the last one to leave stops it.

use vstd::prelude::*;
use crate::text::str_eq;

verus! {

/// A subscribable read group.
#[derive(Debug, Clone, Copy, PartialEq, Eq, Structural)]
pub enum SubGroup {
    /// D200..D207: four REAL axis readings.
    Telemetry,
    /// D220: global state machine step (INT16).
    GlStep,
}

impl SubGroup {
    /// The group a name selects (exact match), if any.
    pub fn parse(name: &str) -> (g: Option<SubGroup>)
        ensures
            name@ == "telemetry"@ ==> g == Some(SubGroup::Telemetry),
            name@ == "glstep"@ ==> g == Some(SubGroup::GlStep),
            name@ != "telemetry"@ && name@ != "glstep"@ ==> g is None,
    {
        proof {
            reveal_strlit("telemetry");
            reveal_strlit("glstep");
            assert("telemetry"@.len() != "glstep"@.len());
        }
        if str_eq(name, "telemetry") {
            Some(SubGroup::Telemetry)
        } else if str_eq(name, "glstep") {
            Some(SubGroup::GlStep)
        } else {
            None
        }
    }
}

/// What a subscription did.
#[derive(Debug, Clone, Copy, PartialEq, Eq, Structural)]
pub enum SubscribeOutcome {
    /// First subscriber: the group's polling task is to be started.
    Started,
    /// The task runs already; only the count grew.
    Joined,
}

/// Subscriber counts per group; 0 means the group has no task.
#[derive(Debug, Clone, Copy, PartialEq, Eq, Structural)]
pub struct Subscriptions {
    pub telemetry: u32,
    pub glstep: u32,
}

impl Subscriptions {
    /// Subscriber count of a group.
    pub open spec fn count(self, g: SubGroup) -> u32 {
        match g {
            SubGroup::Telemetry => self.telemetry,
            SubGroup::GlStep => self.glstep,
        }
    }

    /// The counts after one more subscriber of `g`.
    pub open spec fn spec_subscribe(self, g: SubGroup) -> Subscriptions {
        match g {
            SubGroup::Telemetry => Subscriptions { telemetry: (self.telemetry + 1) as u32, ..self },
            SubGroup::GlStep => Subscriptions { glstep: (self.glstep + 1) as u32, ..self },
        }
    }

    /// The counts after one subscriber of `g` leaves (none below zero).
    pub open spec fn spec_unsubscribe(self, g: SubGroup) -> Subscriptions {
        let c = self.count(g);
        let n = if c == 0 {
            0u32
        } else {
            (c - 1) as u32
        };
        match g {
            SubGroup::Telemetry => Subscriptions { telemetry: n, ..self },
            SubGroup::GlStep => Subscriptions { glstep: n, ..self },
        }
    }

    /// No subscriptions.
    pub fn new() -> (s: Self)
        ensures
            s.telemetry == 0,
            s.glstep == 0,
    {
        Subscriptions { telemetry: 0, glstep: 0 }
    }

    /// Adds a subscriber to `g`; the first one starts the group's task.
    pub fn subscribe(&mut self, g: SubGroup) -> (o: SubscribeOutcome)
        requires
            old(self).count(g) < u32::MAX,
        ensures
            *final(self) == old(self).spec_subscribe(g),
            o == (if old(self).count(g) == 0 {
                SubscribeOutcome::Started
            } else {
                SubscribeOutcome::Joined
            }),
    {
        match g {
            SubGroup::Telemetry => {
                let was = self.telemetry;
                self.telemetry = was + 1;
                if was == 0 {
                    SubscribeOutcome::Started
                } else {
                    SubscribeOutcome::Joined
                }
            },
            SubGroup::GlStep => {
                let was = self.glstep;
                self.glstep = was + 1;
                if was == 0 {
                    SubscribeOutcome::Started
                } else {
                    SubscribeOutcome::Joined
                }
            },
        }
    }

    /// Removes a subscriber from `g`; returns whether the group's task is to
    /// stop (the last subscriber left). A group without subscribers is left alone.
    pub fn unsubscribe(&mut self, g: SubGroup) -> (stop: bool)
        ensures
            *final(self) == old(self).spec_unsubscribe(g),
            stop == (old(self).count(g) == 1),
    {
        match g {
            SubGroup::Telemetry => {
                let was = self.telemetry;
                self.telemetry = was.saturating_sub(1);
                was == 1
            },
            SubGroup::GlStep => {
                let was = self.glstep;
                self.glstep = was.saturating_sub(1);
                was == 1
            },
        }
    }
}

/// Subscribing and then unsubscribing the same group gives the counts back,
/// and the task is stopped exactly when that subscribe had started it.
pub proof fn lemma_subscribe_unsubscribe(s: Subscriptions, g: SubGroup)
    requires
        s.count(g) < u32::MAX,
    ensures
        s.spec_subscribe(g).spec_unsubscribe(g) == s,
        (s.spec_subscribe(g).count(g) == 1) == (s.count(g) == 0),
{
}

/// A subscription touches only its own group.
pub proof fn lemma_groups_independent(s: Subscriptions, g: SubGroup, h: SubGroup)
    requires
        g != h,
        s.count(g) < u32::MAX,
    ensures
        s.spec_subscribe(g).count(h) == s.count(h),
        s.spec_unsubscribe(g).count(h) == s.count(h),
{
}

} // verus!
