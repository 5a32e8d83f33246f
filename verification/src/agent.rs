use vstd::prelude::*;

use crate::disease::State;
use crate::geography::Point;

verus! {

/// One member of the synthetic population: an identity, a fixed home and work
/// cell, the cell it currently occupies, and its disease state. The location
/// field is the authoritative agent-to-cell index; the cell-to-agents view is
/// derived from it, so the two can never disagree.
#[derive(Copy, Clone, PartialEq, Eq, Structural, Debug)]
pub struct Citizen {
    pub id: usize,
    pub home_location: Point,
    pub work_location: Point,
    pub location: Point,
    pub state: State,
}

/// Number of agents in `s[lo..hi)` whose state satisfies `f`.
pub open spec fn count_in_range(s: Seq<Citizen>, f: spec_fn(State) -> bool, lo: int, hi: int) -> int
    decreases hi - lo,
{
    if lo >= hi {
        0
    } else {
        (if f(s[lo].state) {
            1int
        } else {
            0int
        }) + count_in_range(s, f, lo + 1, hi)
    }
}

/// Number of agents in the whole sequence whose state satisfies `f`.
pub open spec fn count_state(s: Seq<Citizen>, f: spec_fn(State) -> bool) -> int {
    count_in_range(s, f, 0, s.len() as int)
}

/// Extending the counted range by one element on the right adds that
/// element's indicator.
pub proof fn lemma_count_extend(s: Seq<Citizen>, f: spec_fn(State) -> bool, lo: int, hi: int)
    requires
        0 <= lo <= hi < s.len(),
    ensures
        count_in_range(s, f, lo, hi + 1) == count_in_range(s, f, lo, hi) + (if f(s[hi].state) {
            1int
        } else {
            0int
        }),
    decreases hi - lo,
{
    if lo < hi {
        lemma_count_extend(s, f, lo + 1, hi);
        assert(count_in_range(s, f, lo, hi + 1) == (if f(s[lo].state) {
            1int
        } else {
            0int
        }) + count_in_range(s, f, lo + 1, hi + 1));
        assert(count_in_range(s, f, lo, hi) == (if f(s[lo].state) {
            1int
        } else {
            0int
        }) + count_in_range(s, f, lo + 1, hi));
    } else {
        assert(count_in_range(s, f, hi, hi + 1) == (if f(s[hi].state) {
            1int
        } else {
            0int
        }) + count_in_range(s, f, hi + 1, hi + 1));
    }
}

/// A count is bounded by the width of its range.
pub proof fn lemma_count_bounds(s: Seq<Citizen>, f: spec_fn(State) -> bool, lo: int, hi: int)
    requires
        lo <= hi,
    ensures
        0 <= count_in_range(s, f, lo, hi) <= hi - lo,
    decreases hi - lo,
{
    if lo < hi {
        lemma_count_bounds(s, f, lo + 1, hi);
    }
}

/// Counts depend only on the states inside the counted range.
pub proof fn lemma_count_congruence(
    s1: Seq<Citizen>,
    s2: Seq<Citizen>,
    f: spec_fn(State) -> bool,
    lo: int,
    hi: int,
)
    requires
        0 <= lo,
        hi <= s1.len(),
        hi <= s2.len(),
        forall|t: int| lo <= t < hi ==> f(s1[t].state) == f(s2[t].state),
    ensures
        count_in_range(s1, f, lo, hi) == count_in_range(s2, f, lo, hi),
    decreases hi - lo,
{
    if lo < hi {
        lemma_count_congruence(s1, s2, f, lo + 1, hi);
    }
}

/// Builds the initial population: agent `k` lives at `home_locations[k]`,
/// works at `work_locations[k]`, starts at home and susceptible.
pub fn citizen_factory(home_locations: &Vec<Point>, work_locations: &Vec<Point>) -> (agents: Vec<
    Citizen,
>)
    requires
        home_locations@.len() == work_locations@.len(),
    ensures
        agents@.len() == home_locations@.len(),
        forall|k: int|
            0 <= k < agents@.len() ==> #[trigger] agents@[k] == (Citizen {
                id: k as usize,
                home_location: home_locations@[k],
                work_location: work_locations@[k],
                location: home_locations@[k],
                state: State::Susceptible,
            }),
{
    let mut agents: Vec<Citizen> = Vec::new();
    let mut i: usize = 0;
    while i < home_locations.len()
        invariant
            i <= home_locations@.len(),
            home_locations@.len() == work_locations@.len(),
            agents@.len() == i,
            forall|k: int|
                0 <= k < i ==> #[trigger] agents@[k] == (Citizen {
                    id: k as usize,
                    home_location: home_locations@[k],
                    work_location: work_locations@[k],
                    location: home_locations@[k],
                    state: State::Susceptible,
                }),
        decreases home_locations@.len() - i,
    {
        agents.push(
            Citizen {
                id: i,
                home_location: home_locations[i],
                work_location: work_locations[i],
                location: home_locations[i],
                state: State::Susceptible,
            },
        );
        i += 1;
    }
    agents
}

} // verus!
