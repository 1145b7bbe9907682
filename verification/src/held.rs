//! Registry of coils that are held on: jog coils ("on while pressed") and
//! short command pulses. A coil stays registered until its OFF write has been
//! delivered, so that coils left on across a link loss are cleared after the
//! reconnect. Each registration carries a fresh token; a pulse timer only
//! unregisters the coil if its own registration is still the current one.

use vstd::prelude::*;
use std::collections::HashMap;
use vstd::std_specs::iter::IteratorSpec;

verus! {

broadcast use vstd::std_specs::hash::group_hash_axioms;

/// Held coils (M numbers), each with its registration token and the stop signal
/// of its timer.
pub struct HeldCoils<S> {
    entries: HashMap<u16, (u64, S)>,
    /// The token of the next registration.
    next_token: u64,
}

/// The registration token of each held coil.
pub open spec fn token_map<S>(m: Map<u16, (u64, S)>) -> Map<u16, u64> {
    m.map_values(|e: (u64, S)| e.0)
}

/// Registering coil `m` with token `t` (replacing any earlier registration).
pub open spec fn spec_hold(tokens: Map<u16, u64>, m: u16, t: u64) -> Map<u16, u64> {
    tokens.insert(m, t)
}

/// A pulse timer with token `t` ending after its OFF write of coil `m` went through:
/// the coil is unregistered only if it is still registered with `t`.
pub open spec fn spec_finish_pulse(tokens: Map<u16, u64>, m: u16, t: u64) -> Map<u16, u64> {
    if tokens.contains_key(m) && tokens[m] == t {
        tokens.remove(m)
    } else {
        tokens
    }
}

/// A release whose OFF write failed: the coil stays (or becomes) registered.
pub open spec fn spec_keep_pending(tokens: Map<u16, u64>, m: u16, t: u64) -> Map<u16, u64> {
    if tokens.contains_key(m) {
        tokens
    } else {
        tokens.insert(m, t)
    }
}

impl<S> HeldCoils<S> {
    /// The registrations: each held coil with its token and stop signal.
    pub closed spec fn registry(&self) -> Map<u16, (u64, S)> {
        self.entries@
    }

    /// The token the next registration gets.
    pub closed spec fn next(&self) -> u64 {
        self.next_token
    }

    /// The registration tokens.
    pub open spec fn tokens(&self) -> Map<u16, u64> {
        token_map(self.registry())
    }

    /// Every token in use was handed out before the next one, so tokens never repeat.
    #[verifier::type_invariant]
    spec fn tokens_issued(&self) -> bool {
        forall|m: u16| #[trigger] self.entries@.contains_key(m) ==> self.entries@[m].0 < self.next_token
    }

    /// No coil held.
    pub fn new() -> (h: Self)
        ensures
            h.registry() == Map::<u16, (u64, S)>::empty(),
            h.next() == 0,
    {
        HeldCoils { entries: HashMap::new(), next_token: 0 }
    }

    /// Whether a fresh registration can be made (tokens are not used up).
    pub fn has_room(&self) -> (b: bool)
        ensures
            b == (self.next() < u64::MAX),
    {
        self.next_token < u64::MAX
    }

    /// Whether coil `m` is held.
    pub fn is_held(&self, m: u16) -> (b: bool)
        ensures
            b == self.registry().contains_key(m),
    {
        self.entries.contains_key(&m)
    }

    /// The stop signal of coil `m`'s registration, if it is held.
    pub fn stop_of(&self, m: u16) -> (r: Option<&S>)
        ensures
            r is Some <==> self.registry().contains_key(m),
            r is Some ==> *r->0 == self.registry()[m].1,
    {
        match self.entries.get(&m) {
            Some(e) => Some(&e.1),
            None => None,
        }
    }

    /// Registers coil `m` as held with a fresh token and stop signal `stop`.
    /// Returns the token, and the stop signal of an earlier registration of the
    /// same coil, which is to be fired.
    pub fn hold(&mut self, m: u16, stop: S) -> (r: (u64, Option<S>))
        requires
            old(self).next() < u64::MAX,
        ensures
            r.0 == old(self).next(),
            final(self).next() == old(self).next() + 1,
            final(self).registry() == old(self).registry().insert(m, (r.0, stop)),
            r.1 is Some <==> old(self).registry().contains_key(m),
            r.1 is Some ==> r.1->0 == old(self).registry()[m].1,
            final(self).tokens() == spec_hold(old(self).tokens(), m, r.0),
    {
        proof {
            use_type_invariant(&*self);
        }
        let t = self.next_token;
        self.next_token = t + 1;
        let mut entries: HashMap<u16, (u64, S)> = HashMap::new();
        std::mem::swap(&mut entries, &mut self.entries);
        let old_entry = entries.insert(m, (t, stop));
        self.entries = entries;
        assert(self.tokens() =~= spec_hold(old(self).tokens(), m, t));
        match old_entry {
            Some(e) => (t, Some(e.1)),
            None => (t, None),
        }
    }

    /// Unregisters coil `m`; returns the stop signal of its registration, if any.
    pub fn take(&mut self, m: u16) -> (r: Option<S>)
        ensures
            final(self).next() == old(self).next(),
            final(self).registry() == old(self).registry().remove(m),
            r is Some <==> old(self).registry().contains_key(m),
            r is Some ==> r->0 == old(self).registry()[m].1,
            final(self).tokens() == old(self).tokens().remove(m),
    {
        proof {
            use_type_invariant(&*self);
        }
        let mut entries: HashMap<u16, (u64, S)> = HashMap::new();
        std::mem::swap(&mut entries, &mut self.entries);
        let e = entries.remove(&m);
        self.entries = entries;
        assert(self.tokens() =~= old(self).tokens().remove(m));
        match e {
            Some(e) => Some(e.1),
            None => None,
        }
    }

    /// After a failed OFF write: keeps coil `m` registered so that the next
    /// reconnect clears it; a coil not registered gets a fresh registration
    /// with stop signal `stop`.
    pub fn keep_pending(&mut self, m: u16, stop: S)
        requires
            old(self).next() < u64::MAX,
        ensures
            old(self).registry().contains_key(m) ==> final(self).registry() == old(self).registry()
                && final(self).next() == old(self).next(),
            !old(self).registry().contains_key(m) ==> final(self).registry() == old(
                self,
            ).registry().insert(m, (old(self).next(), stop)) && final(self).next() == old(
                self,
            ).next() + 1,
            final(self).tokens() == spec_keep_pending(old(self).tokens(), m, old(self).next()),
    {
        proof {
            use_type_invariant(&*self);
        }
        if !self.entries.contains_key(&m) {
            let t = self.next_token;
            self.next_token = t + 1;
            let mut entries: HashMap<u16, (u64, S)> = HashMap::new();
            std::mem::swap(&mut entries, &mut self.entries);
            entries.insert(m, (t, stop));
            self.entries = entries;
            assert(self.tokens() =~= spec_keep_pending(old(self).tokens(), m, t));
        } else {
            assert(self.tokens() =~= spec_keep_pending(old(self).tokens(), m, old(self).next()));
        }
    }

    /// A pulse timer with token `t` has written OFF to coil `m`: unregisters the
    /// coil only if that registration is still current. Returns whether it did.
    pub fn finish_pulse(&mut self, m: u16, t: u64) -> (removed: bool)
        ensures
            final(self).next() == old(self).next(),
            removed == (old(self).tokens().contains_key(m) && old(self).tokens()[m] == t),
            removed ==> final(self).registry() == old(self).registry().remove(m),
            !removed ==> final(self).registry() == old(self).registry(),
            final(self).tokens() == spec_finish_pulse(old(self).tokens(), m, t),
    {
        proof {
            use_type_invariant(&*self);
        }
        let current = match self.entries.get(&m) {
            Some(e) => e.0 == t,
            None => false,
        };
        if current {
            let mut entries: HashMap<u16, (u64, S)> = HashMap::new();
            std::mem::swap(&mut entries, &mut self.entries);
            entries.remove(&m);
            self.entries = entries;
            assert(self.tokens() =~= old(self).tokens().remove(m));
        } else {
            assert(self.tokens() =~= old(self).tokens());
        }
        current
    }

    /// One step of clearing all held coils, after the OFF write of coil `m`:
    /// when it was delivered the coil is unregistered (its stop signal is
    /// returned, to be fired) and the clearing goes on; when it was not, the
    /// clearing stops and every coil stays registered for the next reconnect.
    pub fn release_step(&mut self, m: u16, delivered: bool) -> (r: (bool, Option<S>))
        ensures
            r.0 == delivered,
            final(self).next() == old(self).next(),
            delivered ==> final(self).registry() == old(self).registry().remove(m) && (r.1 is Some
                <==> old(self).registry().contains_key(m)) && (r.1 is Some ==> r.1->0 == old(
                self,
            ).registry()[m].1),
            !delivered ==> final(self).registry() == old(self).registry() && r.1 is None,
    {
        if delivered {
            (true, self.take(m))
        } else {
            (false, None)
        }
    }

    /// The held coils, each once, in no particular order.
    pub fn coils(&self) -> (v: Vec<u16>)
        ensures
            v@.to_set() == self.registry().dom(),
            v@.no_duplicates(),
    {
        let mut v: Vec<u16> = Vec::new();
        let ghost all = vstd::std_specs::hash::spec_keys_iter(&self.entries).remaining();
        for k in it: self.entries.keys()
            invariant
                it.seq() == all,
                all.unref().to_set() == self.entries@.dom(),
                all.no_duplicates(),
                v@ == all.take(it.index()).unref(),
        {
            v.push(*k);
            assert(all.take(it.index() + 1).unref() =~= all.take(it.index()).unref().push(*k));
        }
        assert(v@ =~= all.unref());
        assert(v@.no_duplicates()) by {
            assert forall|i: int, j: int| 0 <= i < j < v@.len() implies v@[i] != v@[j] by {
                assert(all[i] != all[j]);
            }
        }
        v
    }
}

/// A pulse timer that ends late, after the same coil was registered again,
/// leaves the newer registration in place.
pub proof fn lemma_stale_pulse_keeps_newer(tokens: Map<u16, u64>, m: u16, t_old: u64, t_new: u64)
    requires
        t_old != t_new,
    ensures
        spec_finish_pulse(spec_hold(tokens, m, t_new), m, t_old) == spec_hold(tokens, m, t_new),
{
}

/// A pulse timer that ends while its own registration is current unregisters the coil.
pub proof fn lemma_own_pulse_releases(tokens: Map<u16, u64>, m: u16, t: u64)
    ensures
        !spec_finish_pulse(spec_hold(tokens, m, t), m, t).contains_key(m),
{
}

/// A coil whose OFF write failed is registered afterwards, whatever it was before.
pub proof fn lemma_failed_release_stays_held(tokens: Map<u16, u64>, m: u16, t: u64)
    ensures
        spec_keep_pending(tokens.remove(m), m, t).contains_key(m),
        spec_keep_pending(tokens, m, t).contains_key(m),
{
}

} // verus!
