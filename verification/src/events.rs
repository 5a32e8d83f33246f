use vstd::prelude::*;

use crate::disease_tracker;
use crate::disease_tracker::Hotspot;
use crate::geography::Point;

verus! {

/// One per-tick aggregate snapshot: the hour index and the number of agents
/// in each health state. A simulation run emits one such row per tick.
#[derive(Copy, Clone, PartialEq, Eq, Structural, Debug)]
pub struct Counts {
    pub hour: i32,
    pub susceptible: u32,
    pub infected: u32,
    pub quarantined: u32,
    pub recovered: u32,
    pub vaccinated: u32,
    pub deceased: u32,
}

/// One registered observer. Observer kinds are enumerated so that
/// notification is a plain match and a registration handle is an index into
/// the registry, with no run-time type inspection.
pub enum RegisteredListener {
    Hotspot(Hotspot),
}

pub open spec fn listener_wf(l: RegisteredListener) -> bool {
    match l {
        RegisteredListener::Hotspot(h) => h.wf(),
    }
}

/// The hotspot tracker a registry entry carries.
pub open spec fn hotspot_of(l: RegisteredListener) -> Hotspot {
    match l {
        RegisteredListener::Hotspot(h) => h,
    }
}

/// One infection report at `cell`, as seen by a single observer.
pub open spec fn listener_infection_step(
    before: RegisteredListener,
    after: RegisteredListener,
    cell: Point,
) -> bool {
    match (before, after) {
        (RegisteredListener::Hotspot(h0), RegisteredListener::Hotspot(h1)) =>
            disease_tracker::infection_recorded(h0@, h1@, cell),
    }
}

/// Registry of observers, notified synchronously and in registration order
/// as the location map mutates state. Observers never mutate the simulation.
pub struct Listeners {
    pub listeners: Vec<RegisteredListener>,
}

impl Listeners {
    pub open spec fn wf(&self) -> bool {
        forall|i: int|
            0 <= i < self.listeners@.len() ==> listener_wf(#[trigger] self.listeners@[i])
    }

    pub fn new() -> (r: Listeners)
        ensures
            r.wf(),
            r.listeners@.len() == 0,
    {
        Listeners { listeners: Vec::new() }
    }

    /// Registers a hotspot tracker and hands back the handle that retrieves
    /// it after the run.
    pub fn register_hotspot(&mut self, tracker: Hotspot) -> (handle: usize)
        requires
            old(self).wf(),
            tracker.wf(),
        ensures
            final(self).wf(),
            final(self).listeners@ == old(self).listeners@.push(RegisteredListener::Hotspot(tracker)),
            handle == old(self).listeners@.len(),
    {
        let handle = self.listeners.len();
        self.listeners.push(RegisteredListener::Hotspot(tracker));
        handle
    }

    /// The hotspot tracker a registration handle names, if the handle is in
    /// range.
    pub fn get_hotspot(&self, handle: usize) -> (r: Option<&Hotspot>)
        ensures
            match r {
                Some(h) => handle < self.listeners@.len() && self.listeners@[handle as int]
                    == RegisteredListener::Hotspot(*h),
                None => handle >= self.listeners@.len(),
            },
    {
        if handle < self.listeners.len() {
            match &self.listeners[handle] {
                RegisteredListener::Hotspot(h) => Some(h),
            }
        } else {
            None
        }
    }

    /// Notifies every observer, in registration order, that an agent at
    /// `cell` got infected.
    #[verifier::loop_isolation(false)]
    pub fn citizen_got_infected(&mut self, cell: &Point)
        requires
            old(self).wf(),
        ensures
            final(self).wf(),
            final(self).listeners@.len() == old(self).listeners@.len(),
            forall|i: int|
                0 <= i < final(self).listeners@.len() ==> listener_infection_step(
                    old(self).listeners@[i],
                    #[trigger] final(self).listeners@[i],
                    *cell,
                ),
    {
        let ghost prev = self.listeners@;
        let mut updated: Vec<RegisteredListener> = Vec::new();
        while self.listeners.len() > 0
            invariant
                updated@.len() + self.listeners@.len() == prev.len(),
                self.listeners@ == prev.subrange(updated@.len() as int, prev.len() as int),
                forall|i: int|
                    0 <= i < updated@.len() ==> listener_infection_step(
                        prev[i],
                        #[trigger] updated@[i],
                        *cell,
                    ) && listener_wf(updated@[i]),
            decreases self.listeners@.len(),
        {
            let ghost k = updated@.len() as int;
            let l = self.listeners.remove(0);
            proof {
                assert(l == prev[k]);
                assert(self.listeners@ =~= prev.subrange(k + 1, prev.len() as int));
            }
            match l {
                RegisteredListener::Hotspot(mut h) => {
                    h.citizen_got_infected(cell);
                    updated.push(RegisteredListener::Hotspot(h));
                },
            }
        }
        self.listeners = updated;
    }

    /// Hands the per-tick counts snapshot to every observer, in registration
    /// order; the reference observers keep their state unchanged on it.
    #[verifier::loop_isolation(false)]
    pub fn counts_updated(&mut self, counts: Counts)
        requires
            old(self).wf(),
        ensures
            final(self).wf(),
            final(self).listeners@ == old(self).listeners@,
    {
        let ghost prev = self.listeners@;
        let mut updated: Vec<RegisteredListener> = Vec::new();
        while self.listeners.len() > 0
            invariant
                updated@.len() + self.listeners@.len() == prev.len(),
                self.listeners@ == prev.subrange(updated@.len() as int, prev.len() as int),
                forall|i: int| 0 <= i < updated@.len() ==> #[trigger] updated@[i] == prev[i],
            decreases self.listeners@.len(),
        {
            let ghost k = updated@.len() as int;
            let l = self.listeners.remove(0);
            proof {
                assert(l == prev[k]);
                assert(self.listeners@ =~= prev.subrange(k + 1, prev.len() as int));
            }
            match l {
                RegisteredListener::Hotspot(mut h) => {
                    h.counts_updated(counts);
                    updated.push(RegisteredListener::Hotspot(h));
                },
            }
        }
        self.listeners = updated;
        proof {
            assert(self.listeners@ =~= prev);
        }
    }

    /// Tells every observer, in registration order, that the run ended.
    #[verifier::loop_isolation(false)]
    pub fn simulation_ended(&mut self)
        requires
            old(self).wf(),
        ensures
            final(self).wf(),
            final(self).listeners@ == old(self).listeners@,
    {
        let ghost prev = self.listeners@;
        let mut updated: Vec<RegisteredListener> = Vec::new();
        while self.listeners.len() > 0
            invariant
                updated@.len() + self.listeners@.len() == prev.len(),
                self.listeners@ == prev.subrange(updated@.len() as int, prev.len() as int),
                forall|i: int| 0 <= i < updated@.len() ==> #[trigger] updated@[i] == prev[i],
            decreases self.listeners@.len(),
        {
            let ghost k = updated@.len() as int;
            let l = self.listeners.remove(0);
            proof {
                assert(l == prev[k]);
                assert(self.listeners@ =~= prev.subrange(k + 1, prev.len() as int));
            }
            match l {
                RegisteredListener::Hotspot(mut h) => {
                    h.simulation_ended();
                    updated.push(RegisteredListener::Hotspot(h));
                },
            }
        }
        self.listeners = updated;
        proof {
            assert(self.listeners@ =~= prev);
        }
    }
}

} // verus!
