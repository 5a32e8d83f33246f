use vstd::prelude::*;

verus! {

/// Per-agent infection lifecycle. Infected and quarantined agents carry the
/// number of elapsed days since they were infected.
#[derive(Copy, Clone, PartialEq, Eq, Structural, Debug)]
pub enum State {
    Susceptible,
    Infected(u32),
    Quarantined(u32),
    Recovered,
    Vaccinated,
    Deceased,
}

/// Disease parameters read from the configuration document. Probabilities
/// are percentages out of 100; day thresholds count elapsed infection days.
#[derive(Copy, Clone, PartialEq, Eq, Structural, Debug)]
pub struct Disease {
    pub contact_probability: u32,
    pub detection_day: u32,
    pub recovery_day: u32,
    pub recovery_probability: u32,
    pub death_day: u32,
    pub death_probability: u32,
}

pub open spec fn is_susceptible(s: State) -> bool {
    s == State::Susceptible
}

pub open spec fn is_infected(s: State) -> bool {
    match s {
        State::Infected(_) => true,
        _ => false,
    }
}

pub open spec fn is_quarantined(s: State) -> bool {
    match s {
        State::Quarantined(_) => true,
        _ => false,
    }
}

pub open spec fn is_recovered(s: State) -> bool {
    s == State::Recovered
}

pub open spec fn is_vaccinated(s: State) -> bool {
    s == State::Vaccinated
}

pub open spec fn is_deceased(s: State) -> bool {
    s == State::Deceased
}

/// A deceased agent is a terminal record; everyone else is live.
pub open spec fn is_live(s: State) -> bool {
    !is_deceased(s)
}

/// Live and not quarantined: the agent takes part in relocation and movement.
pub open spec fn moves_freely(s: State) -> bool {
    is_live(s) && !is_quarantined(s)
}

/// An infected, non-quarantined agent spreads the disease to its cell
/// neighborhood.
pub open spec fn is_infectious(s: State) -> bool {
    is_infected(s)
}

/// The elapsed-day counter after one more day, saturating at the type bound.
pub open spec fn next_day(d: u32) -> u32 {
    if d < u32::MAX {
        (d + 1) as u32
    } else {
        d
    }
}

/// State predicates as first-class values, so that counting contracts name
/// one shared predicate term per state.
pub open spec fn sus_pred() -> spec_fn(State) -> bool {
    |s: State| is_susceptible(s)
}

pub open spec fn inf_pred() -> spec_fn(State) -> bool {
    |s: State| is_infected(s)
}

pub open spec fn qua_pred() -> spec_fn(State) -> bool {
    |s: State| is_quarantined(s)
}

pub open spec fn rec_pred() -> spec_fn(State) -> bool {
    |s: State| is_recovered(s)
}

pub open spec fn vac_pred() -> spec_fn(State) -> bool {
    |s: State| is_vaccinated(s)
}

pub open spec fn dec_pred() -> spec_fn(State) -> bool {
    |s: State| is_deceased(s)
}

/// The agent is infected or quarantined with a day count at or past the
/// death threshold: the mortality pass may take it.
pub open spec fn past_death_threshold(disease: Disease, s: State) -> bool {
    match s {
        State::Infected(d) => d >= disease.death_day,
        State::Quarantined(d) => d >= disease.death_day,
        _ => false,
    }
}

/// The state after one elapsed day with no transition: day counters advance,
/// everything else is untouched.
pub open spec fn advanced_state(s: State) -> State {
    match s {
        State::Infected(d) => State::Infected(next_day(d)),
        State::Quarantined(d) => State::Quarantined(next_day(d)),
        _ => s,
    }
}

/// After this day's advance the agent sits in the recovery window: at or past
/// the recovery threshold but short of the death threshold, which takes
/// precedence.
pub open spec fn eligible_for_recovery(disease: Disease, s: State) -> bool {
    match s {
        State::Infected(d) => next_day(d) >= disease.recovery_day && next_day(d)
            < disease.death_day,
        State::Quarantined(d) => next_day(d) >= disease.recovery_day && next_day(d)
            < disease.death_day,
        _ => false,
    }
}

/// One day of disease progression for a single agent: the day counter
/// advances; an agent at or past the recovery threshold may recover, unless
/// it is already at or past the death threshold — mortality takes precedence
/// and is resolved only by the mortality pass, never here.
pub open spec fn day_progression(disease: Disease, before: State, after: State) -> bool {
    match before {
        State::Infected(d) => {
            let nd = next_day(d);
            if nd >= disease.death_day {
                after == State::Infected(nd)
            } else if nd >= disease.recovery_day {
                after == State::Infected(nd) || after == State::Recovered
            } else {
                after == State::Infected(nd)
            }
        },
        State::Quarantined(d) => {
            let nd = next_day(d);
            if nd >= disease.death_day {
                after == State::Quarantined(nd)
            } else if nd >= disease.recovery_day {
                after == State::Quarantined(nd) || after == State::Recovered
            } else {
                after == State::Quarantined(nd)
            }
        },
        _ => after == before,
    }
}

/// One infection pass for a single agent: a susceptible agent in contact
/// range of an infectious one catches the disease with the configured
/// contact probability — at the degenerate probabilities the outcome is
/// fixed. Everyone else is untouched.
pub open spec fn infection_step(
    disease: Disease,
    before: State,
    was_exposed: bool,
    after: State,
) -> bool {
    if before == State::Susceptible && was_exposed {
        &&& (after == State::Susceptible || after == State::Infected(0))
        &&& (disease.contact_probability >= 100 ==> after == State::Infected(0))
        &&& (disease.contact_probability == 0 ==> after == State::Susceptible)
    } else {
        after == before
    }
}

/// Quarantine detection is deterministic: an infected agent whose infection
/// is at or past the detection threshold is flagged, keeping its day count.
pub open spec fn quarantined_state(disease: Disease, s: State) -> State {
    match s {
        State::Infected(d) => if d >= disease.detection_day {
            State::Quarantined(d)
        } else {
            s
        },
        _ => s,
    }
}

/// The composed state relation of the routine-start hour: infection spread,
/// then one day of progression, then quarantine detection, in that order. A
/// terminal state passes through every stage unchanged.
pub open spec fn routine_start_step(
    disease: Disease,
    before: State,
    was_exposed: bool,
    after: State,
) -> bool {
    exists|s1: State, s2: State|
        #[trigger] day_progression(disease, s1, s2) && infection_step(
            disease,
            before,
            was_exposed,
            s1,
        ) && after == quarantined_state(disease, s2)
}

/// One mortality pass for a single agent: an infected or quarantined agent at
/// or past the death threshold may die; everyone else is untouched.
pub open spec fn mortality_step(disease: Disease, before: State, after: State) -> bool {
    match before {
        State::Infected(d) => if d >= disease.death_day {
            after == State::Deceased || after == before
        } else {
            after == before
        },
        State::Quarantined(d) => if d >= disease.death_day {
            after == State::Deceased || after == before
        } else {
            after == before
        },
        _ => after == before,
    }
}

} // verus!
