use vstd::prelude::*;

use crate::agent::{count_in_range, count_state, lemma_count_bounds, lemma_count_congruence,
    lemma_count_extend, Citizen};
use crate::disease;
use crate::disease::{Disease, State};
use crate::disease_tracker::tracker_count;
use crate::events::hotspot_of;
use crate::events::Counts;
use crate::events::Listeners;
use crate::events::RegisteredListener;
use crate::geography;
use crate::geography::{Point, MAX_GRID_SIZE};
use crate::random;
use crate::random::SimRng;

verus! {

/// `p` is a cell of the `size`-by-`size` grid.
pub open spec fn in_grid(size: int, p: Point) -> bool {
    0 <= p.x < size && 0 <= p.y < size
}

/// Identity and fixed geography of an agent are untouched by an operation.
pub open spec fn same_identity(a: Citizen, b: Citizen) -> bool {
    &&& b.id == a.id
    &&& b.home_location == a.home_location
    &&& b.work_location == a.work_location
}

/// Deterministic placement rule for relocation into the half-open area
/// `[start, end)`: the agent keeps its home column offset (wrapped into the
/// area's width) and its home row, so relocation into the housing area puts
/// it back on its own home cell.
pub open spec fn placed_in_area(start: Point, end: Point, home: Point) -> Point {
    Point {
        x: ((start.x as int) + (home.x as int) % ((end.x as int) - (start.x as int))) as i32,
        y: home.y,
    }
}

/// Agent `k` shares a cell or a Moore-neighbor cell with some infectious
/// (infected, non-quarantined) agent.
pub open spec fn exposed(agents: Seq<Citizen>, k: int) -> bool {
    exists|j: int|
        0 <= j < agents.len() && j != k && disease::is_infectious(agents[j].state)
            && geography::within_contact_range(agents[j].location, agents[k].location)
}

/// Number of agents among `[lo, hi)` that are susceptible at `cell` in `s1`
/// and newly infected in `s2`: the infection events one pass emits for that
/// cell.
pub open spec fn count_new_infections_at(
    s1: Seq<Citizen>,
    s2: Seq<Citizen>,
    cell: Point,
    lo: int,
    hi: int,
) -> int
    decreases hi - lo,
{
    if lo >= hi {
        0
    } else {
        (if s1[lo].state == State::Susceptible && s2[lo].state == State::Infected(0) && s1[lo].location
            == cell {
            1int
        } else {
            0int
        }) + count_new_infections_at(s1, s2, cell, lo + 1, hi)
    }
}

/// Extending the counted range by one element adds that element's indicator.
proof fn lemma_new_infections_extend(
    s1: Seq<Citizen>,
    s2: Seq<Citizen>,
    cell: Point,
    lo: int,
    hi: int,
)
    requires
        0 <= lo <= hi,
    ensures
        count_new_infections_at(s1, s2, cell, lo, hi + 1) == count_new_infections_at(
            s1,
            s2,
            cell,
            lo,
            hi,
        ) + (if s1[hi].state == State::Susceptible && s2[hi].state == State::Infected(0)
            && s1[hi].location == cell {
            1int
        } else {
            0int
        }),
    decreases hi - lo,
{
    let ind = |t: int|
        if s1[t].state == State::Susceptible && s2[t].state == State::Infected(0) && s1[t].location
            == cell {
            1int
        } else {
            0int
        };
    if lo < hi {
        lemma_new_infections_extend(s1, s2, cell, lo + 1, hi);
        assert(count_new_infections_at(s1, s2, cell, lo, hi + 1) == ind(lo)
            + count_new_infections_at(s1, s2, cell, lo + 1, hi + 1));
        assert(count_new_infections_at(s1, s2, cell, lo, hi) == ind(lo)
            + count_new_infections_at(s1, s2, cell, lo + 1, hi));
    } else {
        assert(count_new_infections_at(s1, s2, cell, hi, hi + 1) == ind(hi)
            + count_new_infections_at(s1, s2, cell, hi + 1, hi + 1));
    }
}

/// The tally is nonnegative.
proof fn lemma_new_infections_nonneg(
    s1: Seq<Citizen>,
    s2: Seq<Citizen>,
    cell: Point,
    lo: int,
    hi: int,
)
    ensures
        0 <= count_new_infections_at(s1, s2, cell, lo, hi),
    decreases hi - lo,
{
    if lo < hi {
        lemma_new_infections_nonneg(s1, s2, cell, lo + 1, hi);
    }
}

/// The tally reads only the states inside the counted range of the second
/// sequence.
proof fn lemma_new_infections_congruence(
    s1: Seq<Citizen>,
    s2a: Seq<Citizen>,
    s2b: Seq<Citizen>,
    cell: Point,
    lo: int,
    hi: int,
)
    requires
        forall|t: int| lo <= t < hi ==> s2a[t].state == s2b[t].state,
    ensures
        count_new_infections_at(s1, s2a, cell, lo, hi) == count_new_infections_at(
            s1,
            s2b,
            cell,
            lo,
            hi,
        ),
    decreases hi - lo,
{
    if lo < hi {
        lemma_new_infections_congruence(s1, s2a, s2b, cell, lo + 1, hi);
    }
}

/// `base` grown by `extra` unit events, saturating at the counter bound.
pub open spec fn saturating_count(base: int, extra: int) -> int {
    if base + extra <= u64::MAX {
        base + extra
    } else {
        u64::MAX as int
    }
}

/// One observer has recorded, per cell, exactly one event for each agent of
/// `[0, hi)` that the pass newly infected there (saturating at the counter
/// bound).
pub open spec fn observer_tally(
    before: RegisteredListener,
    after: RegisteredListener,
    s1: Seq<Citizen>,
    s2: Seq<Citizen>,
    hi: int,
) -> bool {
    forall|c: Point|
        #[trigger] tracker_count(hotspot_of(after)@, c) == saturating_count(
            tracker_count(hotspot_of(before)@, c),
            count_new_infections_at(s1, s2, c, 0, hi),
        )
}

/// Every observer of the registry has tallied, per cell, exactly the new
/// infections of the pass that took `s1` to `mid`.
pub open spec fn observers_tallied(
    before: Seq<RegisteredListener>,
    after: Seq<RegisteredListener>,
    s1: Seq<Citizen>,
    mid: Seq<Citizen>,
) -> bool {
    forall|li: int|
        0 <= li < after.len() ==> #[trigger] observer_tally(
            before[li],
            after[li],
            s1,
            mid,
            s1.len() as int,
        )
}

/// The derived cell-to-agents view: the indices of the agents occupying
/// `cell`.
pub open spec fn agents_at(agents: Seq<Citizen>, cell: Point) -> Set<int> {
    Set::new(|k: int| 0 <= k < agents.len() && agents[k].location == cell)
}

/// Law: the agent-to-cell and cell-to-agents views can never disagree. Every
/// agent lies in the bucket of its own location, in no other bucket, and the
/// buckets together cover the whole population.
pub proof fn lemma_buckets_partition(agents: Seq<Citizen>, k: int, c1: Point, c2: Point)
    requires
        0 <= k < agents.len(),
    ensures
        agents_at(agents, agents[k].location).contains(k),
        agents_at(agents, c1).contains(k) ==> c1 == agents[k].location,
        c1 != c2 ==> !(agents_at(agents, c1).contains(k) && agents_at(agents, c2).contains(k)),
{
}

/// The authoritative mutable mapping between agents and grid cells. Each
/// agent record carries the one cell it occupies, so every live agent is in
/// exactly one cell and the cell-to-agents view derived from it can never
/// fall out of step. The map also remembers the area agents were last
/// relocated into and the hour index of the run.
pub struct AgentLocationMap {
    pub grid_size: i32,
    pub agents: Vec<Citizen>,
    pub area_start: Point,
    pub area_end: Point,
    pub hour: i32,
}

impl AgentLocationMap {
    /// Internal invariant: a positive, bounded grid; a nonempty current area
    /// spanning full rows inside the grid; all agents and their homes on the
    /// grid; a population small enough to count in 32 bits.
    pub open spec fn wf(&self) -> bool {
        &&& 0 < self.grid_size <= MAX_GRID_SIZE
        &&& 0 <= self.area_start.x < self.area_end.x <= self.grid_size
        &&& self.area_start.y == 0
        &&& self.area_end.y == self.grid_size
        &&& self.agents@.len() <= MAX_GRID_SIZE * MAX_GRID_SIZE
        &&& forall|k: int|
            0 <= k < self.agents@.len() ==> in_grid(
                self.grid_size as int,
                (#[trigger] self.agents@[k]).location,
            )
        &&& forall|k: int|
            0 <= k < self.agents@.len() ==> in_grid(
                self.grid_size as int,
                (#[trigger] self.agents@[k]).home_location,
            )
    }

    /// Builds the map over a fresh population. The current area starts as the
    /// whole grid; the first scheduler tick relocates everyone into housing.
    #[verifier::loop_isolation(false)]
    pub fn new(grid_size: i32, agent_list: &Vec<Citizen>, _home_locations: &Vec<Point>) -> (map:
        AgentLocationMap)
        requires
            0 < grid_size <= MAX_GRID_SIZE,
            agent_list@.len() <= MAX_GRID_SIZE * MAX_GRID_SIZE,
            forall|k: int|
                0 <= k < agent_list@.len() ==> in_grid(
                    grid_size as int,
                    (#[trigger] agent_list@[k]).location,
                ),
            forall|k: int|
                0 <= k < agent_list@.len() ==> in_grid(
                    grid_size as int,
                    (#[trigger] agent_list@[k]).home_location,
                ),
        ensures
            map.wf(),
            map.grid_size == grid_size,
            map.hour == 0,
            map.agents@ == agent_list@,
    {
        let mut agents: Vec<Citizen> = Vec::new();
        let mut i: usize = 0;
        while i < agent_list.len()
            invariant
                i <= agent_list@.len(),
                agents@.len() == i,
                forall|k: int| 0 <= k < i ==> agents@[k] == agent_list@[k],
            decreases agent_list@.len() - i,
        {
            agents.push(agent_list[i]);
            i += 1;
        }
        proof {
            assert(agents@ =~= agent_list@);
        }
        AgentLocationMap {
            grid_size,
            agents,
            area_start: Point { x: 0, y: 0 },
            area_end: Point { x: grid_size, y: grid_size },
            hour: 0,
        }
    }

    /// Advances the hour index by one; nothing else moves.
    pub fn increment_hour(&mut self)
        requires
            old(self).hour < i32::MAX,
        ensures
            final(self).hour == old(self).hour + 1,
            final(self).grid_size == old(self).grid_size,
            final(self).agents@ == old(self).agents@,
            final(self).area_start == old(self).area_start,
            final(self).area_end == old(self).area_end,
    {
        self.hour = self.hour + 1;
    }

    /// Relocates every live, non-quarantined agent into the half-open area
    /// `[start, end)` by the offset-preserving placement rule; quarantined
    /// and deceased agents stay where they are. No state, home, work cell or
    /// identity changes.
    #[verifier::loop_isolation(false)]
    pub fn goto(&mut self, start: Point, end: Point)
        requires
            old(self).wf(),
            0 <= start.x < end.x <= old(self).grid_size,
            start.y == 0,
            end.y == old(self).grid_size,
        ensures
            final(self).wf(),
            final(self).grid_size == old(self).grid_size,
            final(self).hour == old(self).hour,
            final(self).area_start == start,
            final(self).area_end == end,
            final(self).agents@.len() == old(self).agents@.len(),
            forall|k: int|
                0 <= k < final(self).agents@.len() ==> {
                    let a = old(self).agents@[k];
                    let b = #[trigger] final(self).agents@[k];
                    &&& same_identity(a, b)
                    &&& b.state == a.state
                    &&& b.location == (if disease::moves_freely(a.state) {
                        placed_in_area(start, end, a.home_location)
                    } else {
                        a.location
                    })
                },
    {
        let ghost prev = old(self).agents@;
        self.area_start = start;
        self.area_end = end;
        let span = end.x - start.x;
        let n = self.agents.len();
        let mut i: usize = 0;
        while i < n
            invariant
                i <= n,
                self.agents@.len() == n,
                self.grid_size == old(self).grid_size,
                self.hour == old(self).hour,
                self.area_start == start,
                self.area_end == end,
                forall|t: int| i <= t < n ==> self.agents@[t] == prev[t],
                forall|k: int|
                    0 <= k < i ==> {
                        let a = prev[k];
                        let b = #[trigger] self.agents@[k];
                        &&& same_identity(a, b)
                        &&& b.state == a.state
                        &&& b.location == (if disease::moves_freely(a.state) {
                            placed_in_area(start, end, a.home_location)
                        } else {
                            a.location
                        })
                    },
            decreases n - i,
        {
            let mut a = self.agents[i];
            let stays = match a.state {
                State::Deceased => true,
                State::Quarantined(_) => true,
                _ => false,
            };
            if !stays {
                a.location = Point { x: start.x + a.home_location.x % span, y: a.home_location.y };
                self.agents.set(i, a);
            }
            i += 1;
        }
    }

    /// Local bounded random walk: every live, non-quarantined agent steps to
    /// a uniformly drawn Moore neighbor of its cell inside the current area
    /// (staying put when the area leaves it no neighbor). Quarantined and
    /// deceased agents never move. No state or identity changes.
    #[verifier::loop_isolation(false)]
    pub fn move_agents(&mut self, rng: &mut SimRng)
        requires
            old(self).wf(),
        ensures
            final(self).wf(),
            final(self).grid_size == old(self).grid_size,
            final(self).hour == old(self).hour,
            final(self).area_start == old(self).area_start,
            final(self).area_end == old(self).area_end,
            final(self).agents@.len() == old(self).agents@.len(),
            forall|k: int|
                0 <= k < final(self).agents@.len() ==> {
                    let a = old(self).agents@[k];
                    let b = #[trigger] final(self).agents@[k];
                    &&& same_identity(a, b)
                    &&& b.state == a.state
                    &&& (b.location == a.location || (disease::moves_freely(a.state)
                        && geography::is_neighbor_within(
                        a.location,
                        b.location,
                        old(self).area_start,
                        Point {
                            x: (old(self).area_end.x - 1) as i32,
                            y: (old(self).area_end.y - 1) as i32,
                        },
                    )))
                    &&& (disease::moves_freely(a.state) && (exists|q: Point|
                        #[trigger] geography::is_neighbor_within(
                            a.location,
                            q,
                            old(self).area_start,
                            Point {
                                x: (old(self).area_end.x - 1) as i32,
                                y: (old(self).area_end.y - 1) as i32,
                            },
                        )) ==> b.location != a.location)
                },
    {
        let ghost prev = old(self).agents@;
        let clip_end = Point { x: self.area_end.x - 1, y: self.area_end.y - 1 };
        let area_start = self.area_start;
        let n = self.agents.len();
        let mut i: usize = 0;
        while i < n
            invariant
                i <= n,
                self.agents@.len() == n,
                self.grid_size == old(self).grid_size,
                self.hour == old(self).hour,
                self.area_start == old(self).area_start,
                self.area_end == old(self).area_end,
                forall|t: int| i <= t < n ==> self.agents@[t] == prev[t],
                forall|k: int|
                    0 <= k < i ==> {
                        let a = prev[k];
                        let b = #[trigger] self.agents@[k];
                        &&& same_identity(a, b)
                        &&& b.state == a.state
                        &&& (b.location == a.location || (disease::moves_freely(a.state)
                            && geography::is_neighbor_within(
                            a.location,
                            b.location,
                            area_start,
                            clip_end,
                        )))
                        &&& (disease::moves_freely(a.state) && (exists|q: Point|
                            #[trigger] geography::is_neighbor_within(
                                a.location,
                                q,
                                area_start,
                                clip_end,
                            )) ==> b.location != a.location)
                        &&& in_grid(self.grid_size as int, b.location)
                    },
            decreases n - i,
        {
            let mut a = self.agents[i];
            let moves = match a.state {
                State::Deceased => false,
                State::Quarantined(_) => false,
                _ => true,
            };
            if moves {
                let candidates = a.location.get_neighbor_within(area_start, clip_end);
                if candidates.len() > 0 {
                    let pick = rng.below(candidates.len() as u64);
                    a.location = candidates[pick as usize];
                    self.agents.set(i, a);
                } else {
                    proof {
                        assert forall|q: Point|
                            !geography::is_neighbor_within(a.location, q, area_start, clip_end) by {
                            if geography::is_neighbor_within(a.location, q, area_start, clip_end) {
                                assert(candidates@.contains(q));
                            }
                        }
                    }
                }
            }
            i += 1;
        }
    }

    /// The current tick's aggregate snapshot: the hour index and, for each
    /// health state, exactly the number of agents in it. The six counts
    /// always sum to the whole population; nothing is mutated.
    #[verifier::loop_isolation(false)]
    pub fn get_record(&self) -> (record: Counts)
        requires
            self.wf(),
        ensures
            record.hour == self.hour,
            record.susceptible as int == count_state(self.agents@, disease::sus_pred()),
            record.infected as int == count_state(self.agents@, disease::inf_pred()),
            record.quarantined as int == count_state(self.agents@, disease::qua_pred()),
            record.recovered as int == count_state(self.agents@, disease::rec_pred()),
            record.vaccinated as int == count_state(self.agents@, disease::vac_pred()),
            record.deceased as int == count_state(self.agents@, disease::dec_pred()),
            record.susceptible + record.infected + record.quarantined + record.recovered
                + record.vaccinated + record.deceased == self.agents@.len(),
    {
        let mut susceptible: u32 = 0;
        let mut infected: u32 = 0;
        let mut quarantined: u32 = 0;
        let mut recovered: u32 = 0;
        let mut vaccinated: u32 = 0;
        let mut deceased: u32 = 0;
        let n = self.agents.len();
        let mut i: usize = 0;
        while i < n
            invariant
                i <= n,
                susceptible as int == count_in_range(self.agents@, disease::sus_pred(), 0, i as int),
                infected as int == count_in_range(self.agents@, disease::inf_pred(), 0, i as int),
                quarantined as int == count_in_range(self.agents@, disease::qua_pred(), 0, i as int),
                recovered as int == count_in_range(self.agents@, disease::rec_pred(), 0, i as int),
                vaccinated as int == count_in_range(self.agents@, disease::vac_pred(), 0, i as int),
                deceased as int == count_in_range(self.agents@, disease::dec_pred(), 0, i as int),
                susceptible + infected + quarantined + recovered + vaccinated + deceased == i,
            decreases n - i,
        {
            proof {
                lemma_count_extend(self.agents@, disease::sus_pred(), 0, i as int);
                lemma_count_extend(self.agents@, disease::inf_pred(), 0, i as int);
                lemma_count_extend(self.agents@, disease::qua_pred(), 0, i as int);
                lemma_count_extend(self.agents@, disease::rec_pred(), 0, i as int);
                lemma_count_extend(self.agents@, disease::vac_pred(), 0, i as int);
                lemma_count_extend(self.agents@, disease::dec_pred(), 0, i as int);
            }
            match self.agents[i].state {
                State::Susceptible => {
                    susceptible = susceptible + 1;
                },
                State::Infected(_) => {
                    infected = infected + 1;
                },
                State::Quarantined(_) => {
                    quarantined = quarantined + 1;
                },
                State::Recovered => {
                    recovered = recovered + 1;
                },
                State::Vaccinated => {
                    vaccinated = vaccinated + 1;
                },
                State::Deceased => {
                    deceased = deceased + 1;
                },
            }
            i += 1;
        }
        Counts { hour: self.hour, susceptible, infected, quarantined, recovered, vaccinated, deceased }
    }

    /// Infection spread: every susceptible agent that shares a cell or a
    /// Moore-neighbor cell with an infectious agent (as of the start of this
    /// pass) catches the disease with the configured contact probability, and
    /// each new infection is reported to the observers. Everyone else keeps
    /// its state; nobody moves.
    #[verifier::loop_isolation(false)]
    pub fn update_infections(
        &mut self,
        disease_cfg: &Disease,
        listeners: &mut Listeners,
        rng: &mut SimRng,
    )
        requires
            old(self).wf(),
            old(listeners).wf(),
        ensures
            final(self).wf(),
            final(listeners).wf(),
            final(listeners).listeners@.len() == old(listeners).listeners@.len(),
            forall|li: int|
                0 <= li < final(listeners).listeners@.len() ==> observer_tally(
                    old(listeners).listeners@[li],
                    #[trigger] final(listeners).listeners@[li],
                    old(self).agents@,
                    final(self).agents@,
                    old(self).agents@.len() as int,
                ),
            final(self).grid_size == old(self).grid_size,
            final(self).hour == old(self).hour,
            final(self).area_start == old(self).area_start,
            final(self).area_end == old(self).area_end,
            final(self).agents@.len() == old(self).agents@.len(),
            forall|k: int|
                0 <= k < final(self).agents@.len() ==> {
                    let a = old(self).agents@[k];
                    let b = #[trigger] final(self).agents@[k];
                    &&& same_identity(a, b)
                    &&& b.location == a.location
                    &&& disease::infection_step(
                        *disease_cfg,
                        a.state,
                        exposed(old(self).agents@, k),
                        b.state,
                    )
                },
    {
        let ghost prev = old(self).agents@;
        let n = self.agents.len();
        let mut exposures: Vec<bool> = Vec::new();
        let mut i: usize = 0;
        while i < n
            invariant
                i <= n,
                exposures@.len() == i,
                forall|t: int| 0 <= t < i ==> exposures@[t] == exposed(prev, t),
            decreases n - i,
        {
            exposures.push(is_exposed_at(&self.agents, i));
            i += 1;
        }
        let mut i: usize = 0;
        while i < n
            invariant
                i <= n,
                self.agents@.len() == n,
                self.grid_size == old(self).grid_size,
                self.hour == old(self).hour,
                self.area_start == old(self).area_start,
                self.area_end == old(self).area_end,
                listeners.wf(),
                listeners.listeners@.len() == old(listeners).listeners@.len(),
                forall|li: int|
                    0 <= li < listeners.listeners@.len() ==> observer_tally(
                        old(listeners).listeners@[li],
                        #[trigger] listeners.listeners@[li],
                        prev,
                        self.agents@,
                        i as int,
                    ),
                exposures@.len() == n,
                forall|t: int| 0 <= t < n ==> exposures@[t] == exposed(prev, t),
                forall|t: int| i <= t < n ==> self.agents@[t] == prev[t],
                forall|k: int|
                    0 <= k < i ==> {
                        let a = prev[k];
                        let b = #[trigger] self.agents@[k];
                        &&& same_identity(a, b)
                        &&& b.location == a.location
                        &&& disease::infection_step(*disease_cfg, a.state, exposed(prev, k), b.state)
                    },
            decreases n - i,
        {
            let a = self.agents[i];
            let ghost pre_agents = self.agents@;
            let ghost pre_listeners = listeners.listeners@;
            let susceptible = match a.state {
                State::Susceptible => true,
                _ => false,
            };
            if susceptible && exposures[i] {
                if random::chance(rng, disease_cfg.contact_probability) {
                    let mut b = a;
                    b.state = State::Infected(0);
                    self.agents.set(i, b);
                    listeners.citizen_got_infected(&a.location);
                }
            }
            proof {
                let cur = self.agents@;
                assert forall|li: int| 0 <= li < listeners.listeners@.len() implies observer_tally(
                    old(listeners).listeners@[li],
                    #[trigger] listeners.listeners@[li],
                    prev,
                    cur,
                    i as int + 1,
                ) by {
                    let h0 = hotspot_of(old(listeners).listeners@[li]);
                    let hm = hotspot_of(pre_listeners[li]);
                    let h1 = hotspot_of(listeners.listeners@[li]);
                    assert(observer_tally(
                        old(listeners).listeners@[li],
                        pre_listeners[li],
                        prev,
                        pre_agents,
                        i as int,
                    ));
                    assert forall|c: Point|
                        tracker_count(h1@, c) == saturating_count(
                            tracker_count(h0@, c),
                            count_new_infections_at(prev, cur, c, 0, i as int + 1),
                        ) by {
                        assert(pre_agents[i as int] == prev[i as int]);
                        lemma_new_infections_nonneg(prev, pre_agents, c, 0, i as int);
                        lemma_new_infections_congruence(prev, pre_agents, cur, c, 0, i as int);
                        lemma_new_infections_extend(prev, cur, c, 0, i as int);
                        assert(tracker_count(hm@, c) == saturating_count(
                            tracker_count(h0@, c),
                            count_new_infections_at(prev, pre_agents, c, 0, i as int),
                        ));
                    }
                }
            }
            i += 1;
        }
    }

    /// One day of disease progression for every agent: day counters advance;
    /// an agent at or past the recovery threshold (but short of the death
    /// threshold, which takes precedence and is resolved by the mortality
    /// pass) recovers with the configured probability. Nobody moves.
    #[verifier::loop_isolation(false)]
    pub fn update_infection_day(&mut self, disease_cfg: &Disease, rng: &mut SimRng)
        requires
            old(self).wf(),
        ensures
            final(self).wf(),
            final(self).grid_size == old(self).grid_size,
            final(self).hour == old(self).hour,
            final(self).area_start == old(self).area_start,
            final(self).area_end == old(self).area_end,
            final(self).agents@.len() == old(self).agents@.len(),
            forall|k: int|
                0 <= k < final(self).agents@.len() ==> {
                    let a = old(self).agents@[k];
                    let b = #[trigger] final(self).agents@[k];
                    &&& same_identity(a, b)
                    &&& b.location == a.location
                    &&& disease::day_progression(*disease_cfg, a.state, b.state)
                    &&& (disease_cfg.recovery_probability >= 100 && disease::eligible_for_recovery(
                        *disease_cfg,
                        a.state,
                    ) ==> b.state == State::Recovered)
                    &&& (disease_cfg.recovery_probability == 0 ==> b.state
                        == disease::advanced_state(a.state))
                },
    {
        let ghost prev = old(self).agents@;
        let n = self.agents.len();
        let mut i: usize = 0;
        while i < n
            invariant
                i <= n,
                self.agents@.len() == n,
                self.grid_size == old(self).grid_size,
                self.hour == old(self).hour,
                self.area_start == old(self).area_start,
                self.area_end == old(self).area_end,
                forall|t: int| i <= t < n ==> self.agents@[t] == prev[t],
                forall|k: int|
                    0 <= k < i ==> {
                        let a = prev[k];
                        let b = #[trigger] self.agents@[k];
                        &&& same_identity(a, b)
                        &&& b.location == a.location
                        &&& disease::day_progression(*disease_cfg, a.state, b.state)
                        &&& (disease_cfg.recovery_probability >= 100
                            && disease::eligible_for_recovery(*disease_cfg, a.state) ==> b.state
                            == State::Recovered)
                        &&& (disease_cfg.recovery_probability == 0 ==> b.state
                            == disease::advanced_state(a.state))
                    },
            decreases n - i,
        {
            let a = self.agents[i];
            let mut b = a;
            match a.state {
                State::Infected(d) => {
                    let nd = if d < u32::MAX {
                        d + 1
                    } else {
                        d
                    };
                    if nd >= disease_cfg.death_day {
                        b.state = State::Infected(nd);
                    } else if nd >= disease_cfg.recovery_day {
                        if random::chance(rng, disease_cfg.recovery_probability) {
                            b.state = State::Recovered;
                        } else {
                            b.state = State::Infected(nd);
                        }
                    } else {
                        b.state = State::Infected(nd);
                    }
                    self.agents.set(i, b);
                },
                State::Quarantined(d) => {
                    let nd = if d < u32::MAX {
                        d + 1
                    } else {
                        d
                    };
                    if nd >= disease_cfg.death_day {
                        b.state = State::Quarantined(nd);
                    } else if nd >= disease_cfg.recovery_day {
                        if random::chance(rng, disease_cfg.recovery_probability) {
                            b.state = State::Recovered;
                        } else {
                            b.state = State::Quarantined(nd);
                        }
                    } else {
                        b.state = State::Quarantined(nd);
                    }
                    self.agents.set(i, b);
                },
                _ => {},
            }
            i += 1;
        }
    }

    /// Quarantine detection: every infected agent whose infection is at or
    /// past the detection threshold is flagged quarantined, keeping its day
    /// count. Deterministic; nobody moves.
    #[verifier::loop_isolation(false)]
    pub fn quarantine(&mut self, disease_cfg: &Disease)
        requires
            old(self).wf(),
        ensures
            final(self).wf(),
            final(self).grid_size == old(self).grid_size,
            final(self).hour == old(self).hour,
            final(self).area_start == old(self).area_start,
            final(self).area_end == old(self).area_end,
            final(self).agents@.len() == old(self).agents@.len(),
            forall|k: int|
                0 <= k < final(self).agents@.len() ==> {
                    let a = old(self).agents@[k];
                    let b = #[trigger] final(self).agents@[k];
                    &&& same_identity(a, b)
                    &&& b.location == a.location
                    &&& b.state == disease::quarantined_state(*disease_cfg, a.state)
                },
    {
        let ghost prev = old(self).agents@;
        let n = self.agents.len();
        let mut i: usize = 0;
        while i < n
            invariant
                i <= n,
                self.agents@.len() == n,
                self.grid_size == old(self).grid_size,
                self.hour == old(self).hour,
                self.area_start == old(self).area_start,
                self.area_end == old(self).area_end,
                forall|t: int| i <= t < n ==> self.agents@[t] == prev[t],
                forall|k: int|
                    0 <= k < i ==> {
                        let a = prev[k];
                        let b = #[trigger] self.agents@[k];
                        &&& same_identity(a, b)
                        &&& b.location == a.location
                        &&& b.state == disease::quarantined_state(*disease_cfg, a.state)
                    },
            decreases n - i,
        {
            let a = self.agents[i];
            match a.state {
                State::Infected(d) => {
                    if d >= disease_cfg.detection_day {
                        let mut b = a;
                        b.state = State::Quarantined(d);
                        self.agents.set(i, b);
                    }
                },
                _ => {},
            }
            i += 1;
        }
    }

    /// Mortality pass: every infected or quarantined agent at or past the
    /// death threshold dies with the configured probability. Deceased agents
    /// keep their record and their cell; nobody moves.
    #[verifier::loop_isolation(false)]
    pub fn deceased(&mut self, disease_cfg: &Disease, rng: &mut SimRng)
        requires
            old(self).wf(),
        ensures
            final(self).wf(),
            final(self).grid_size == old(self).grid_size,
            final(self).hour == old(self).hour,
            final(self).area_start == old(self).area_start,
            final(self).area_end == old(self).area_end,
            final(self).agents@.len() == old(self).agents@.len(),
            forall|k: int|
                0 <= k < final(self).agents@.len() ==> {
                    let a = old(self).agents@[k];
                    let b = #[trigger] final(self).agents@[k];
                    &&& same_identity(a, b)
                    &&& b.location == a.location
                    &&& disease::mortality_step(*disease_cfg, a.state, b.state)
                    &&& (disease_cfg.death_probability >= 100 && disease::past_death_threshold(
                        *disease_cfg,
                        a.state,
                    ) ==> b.state == State::Deceased)
                    &&& (disease_cfg.death_probability == 0 ==> b.state == a.state)
                },
    {
        let ghost prev = old(self).agents@;
        let n = self.agents.len();
        let mut i: usize = 0;
        while i < n
            invariant
                i <= n,
                self.agents@.len() == n,
                self.grid_size == old(self).grid_size,
                self.hour == old(self).hour,
                self.area_start == old(self).area_start,
                self.area_end == old(self).area_end,
                forall|t: int| i <= t < n ==> self.agents@[t] == prev[t],
                forall|k: int|
                    0 <= k < i ==> {
                        let a = prev[k];
                        let b = #[trigger] self.agents@[k];
                        &&& same_identity(a, b)
                        &&& b.location == a.location
                        &&& disease::mortality_step(*disease_cfg, a.state, b.state)
                        &&& (disease_cfg.death_probability >= 100
                            && disease::past_death_threshold(*disease_cfg, a.state) ==> b.state
                            == State::Deceased)
                        &&& (disease_cfg.death_probability == 0 ==> b.state == a.state)
                    },
            decreases n - i,
        {
            let a = self.agents[i];
            match a.state {
                State::Infected(d) => {
                    if d >= disease_cfg.death_day {
                        if random::chance(rng, disease_cfg.death_probability) {
                            let mut b = a;
                            b.state = State::Deceased;
                            self.agents.set(i, b);
                        }
                    }
                },
                State::Quarantined(d) => {
                    if d >= disease_cfg.death_day {
                        if random::chance(rng, disease_cfg.death_probability) {
                            let mut b = a;
                            b.state = State::Deceased;
                            self.agents.set(i, b);
                        }
                    }
                },
                _ => {},
            }
            i += 1;
        }
    }

    /// Vaccination campaign: a uniformly random subset of the currently
    /// susceptible agents, of size `round(eligible * percentage / 100)`,
    /// becomes vaccinated. Exactly that many transition; every other agent is
    /// untouched.
    #[verifier::loop_isolation(false)]
    pub fn vaccinate(&mut self, percentage: u32, rng: &mut SimRng)
        requires
            old(self).wf(),
            percentage <= 100,
        ensures
            final(self).wf(),
            final(self).grid_size == old(self).grid_size,
            final(self).hour == old(self).hour,
            final(self).area_start == old(self).area_start,
            final(self).area_end == old(self).area_end,
            final(self).agents@.len() == old(self).agents@.len(),
            forall|k: int|
                0 <= k < final(self).agents@.len() ==> {
                    let a = old(self).agents@[k];
                    let b = #[trigger] final(self).agents@[k];
                    &&& same_identity(a, b)
                    &&& b.location == a.location
                    &&& (b.state == a.state || (a.state == State::Susceptible && b.state
                        == State::Vaccinated))
                },
            count_state(final(self).agents@, disease::vac_pred()) == count_state(
                old(self).agents@,
                disease::vac_pred(),
            ) + vaccination_quota(
                count_state(old(self).agents@, disease::sus_pred()),
                percentage as int,
            ),
            count_state(final(self).agents@, disease::sus_pred()) == count_state(
                old(self).agents@,
                disease::sus_pred(),
            ) - vaccination_quota(
                count_state(old(self).agents@, disease::sus_pred()),
                percentage as int,
            ),
    {
        let ghost prev = old(self).agents@;
        let n = self.agents.len();
        let eligible_total = count_susceptible(&self.agents);
        proof {
            lemma_count_bounds(prev, disease::sus_pred(), 0, n as int);
            lemma_quota_bounds(eligible_total as int, percentage as int);
            assert(eligible_total <= MAX_GRID_SIZE * MAX_GRID_SIZE);
            assert((eligible_total as u64) * (percentage as u64) + 50 < u64::MAX) by (nonlinear_arith)
                requires
                    eligible_total as u64 <= 2147395600u64,
                    percentage as u64 <= 100,
            ;
        }
        let quota64 = ((eligible_total as u64) * (percentage as u64) + 50) / 100;
        proof {
            assert(quota64 == vaccination_quota(eligible_total as int, percentage as int));
        }
        let mut remaining_quota: usize = quota64 as usize;
        let ghost quota = quota64 as int;
        let mut remaining_eligible: usize = eligible_total;
        let mut i: usize = 0;
        while i < n
            invariant
                i <= n,
                self.agents@.len() == n,
                self.grid_size == old(self).grid_size,
                self.hour == old(self).hour,
                self.area_start == old(self).area_start,
                self.area_end == old(self).area_end,
                remaining_eligible as int == count_in_range(
                    prev,
                    disease::sus_pred(),
                    i as int,
                    n as int,
                ),
                remaining_quota <= remaining_eligible,
                remaining_quota <= quota,
                forall|t: int| i <= t < n ==> self.agents@[t] == prev[t],
                forall|k: int|
                    0 <= k < i ==> {
                        let a = prev[k];
                        let b = #[trigger] self.agents@[k];
                        &&& same_identity(a, b)
                        &&& b.location == a.location
                        &&& (b.state == a.state || (a.state == State::Susceptible && b.state
                            == State::Vaccinated))
                    },
                count_in_range(self.agents@, disease::vac_pred(), 0, i as int) == count_in_range(
                    prev,
                    disease::vac_pred(),
                    0,
                    i as int,
                ) + (quota - remaining_quota),
                count_in_range(self.agents@, disease::sus_pred(), 0, i as int) == count_in_range(
                    prev,
                    disease::sus_pred(),
                    0,
                    i as int,
                ) - (quota - remaining_quota),
            decreases n - i,
        {
            let ghost before_step = self.agents@;
            let a = self.agents[i];
            let susceptible = match a.state {
                State::Susceptible => true,
                _ => false,
            };
            let mut picked = false;
            if susceptible {
                proof {
                    lemma_count_bounds(prev, disease::sus_pred(), i as int + 1, n as int);
                }
                if remaining_quota > 0 {
                    let draw = rng.below(remaining_eligible as u64);
                    if draw < remaining_quota as u64 {
                        let mut b = a;
                        b.state = State::Vaccinated;
                        self.agents.set(i, b);
                        remaining_quota = remaining_quota - 1;
                        picked = true;
                    }
                }
                remaining_eligible = remaining_eligible - 1;
            }
            proof {
                lemma_count_congruence(
                    before_step,
                    self.agents@,
                    disease::vac_pred(),
                    0,
                    i as int,
                );
                lemma_count_congruence(
                    before_step,
                    self.agents@,
                    disease::sus_pred(),
                    0,
                    i as int,
                );
                lemma_count_extend(self.agents@, disease::vac_pred(), 0, i as int);
                lemma_count_extend(self.agents@, disease::sus_pred(), 0, i as int);
                lemma_count_extend(prev, disease::vac_pred(), 0, i as int);
                lemma_count_extend(prev, disease::sus_pred(), 0, i as int);
            }
            i += 1;
        }
    }
}

/// Linear scan deciding whether agent `k` is within contact range of an
/// infectious agent.
#[verifier::loop_isolation(false)]
fn is_exposed_at(agents: &Vec<Citizen>, k: usize) -> (r: bool)
    requires
        k < agents@.len(),
        i32::MIN < agents@[k as int].location.x < i32::MAX,
        i32::MIN < agents@[k as int].location.y < i32::MAX,
    ensures
        r == exposed(agents@, k as int),
{
    let target = agents[k].location;
    let mut j: usize = 0;
    let mut found = false;
    while j < agents.len()
        invariant
            j <= agents@.len(),
            found == exists|t: int|
                0 <= t < j && t != k && disease::is_infectious(agents@[t].state)
                    && geography::within_contact_range(agents@[t].location, agents@[k as int].location),
        decreases agents@.len() - j,
    {
        if j != k {
            let a = agents[j];
            let infectious = match a.state {
                State::Infected(_) => true,
                _ => false,
            };
            if infectious && a.location.x >= target.x - 1 && a.location.x <= target.x + 1
                && a.location.y >= target.y - 1 && a.location.y <= target.y + 1 {
                found = true;
            }
        }
        j += 1;
    }
    found
}

/// Linear count of the currently susceptible agents.
#[verifier::loop_isolation(false)]
fn count_susceptible(agents: &Vec<Citizen>) -> (m: usize)
    ensures
        m as int == count_state(agents@, disease::sus_pred()),
{
    let n = agents.len();
    let mut m: usize = 0;
    let mut i: usize = 0;
    while i < n
        invariant
            i <= n,
            m as int == count_in_range(agents@, disease::sus_pred(), 0, i as int),
            m <= i,
        decreases n - i,
    {
        proof {
            lemma_count_extend(agents@, disease::sus_pred(), 0, i as int);
        }
        match agents[i].state {
            State::Susceptible => {
                m = m + 1;
            },
            _ => {},
        }
        i += 1;
    }
    m
}

/// Number of agents a vaccination campaign converts: the eligible count
/// scaled by the percentage, rounded half-up to a whole agent.
pub open spec fn vaccination_quota(eligible: int, percentage: int) -> int {
    (eligible * percentage + 50) / 100
}

/// The quota never exceeds the eligible population.
proof fn lemma_quota_bounds(eligible: int, percentage: int)
    requires
        0 <= eligible,
        0 <= percentage <= 100,
    ensures
        0 <= vaccination_quota(eligible, percentage) <= eligible,
{
    assert(eligible * percentage + 50 <= 100 * eligible + 50) by (nonlinear_arith)
        requires
            0 <= eligible,
            0 <= percentage <= 100,
    ;
    assert(0 <= eligible * percentage + 50) by (nonlinear_arith)
        requires
            0 <= eligible,
            0 <= percentage,
    ;
    vstd::arithmetic::div_mod::lemma_div_is_ordered(0, eligible * percentage + 50, 100);
    vstd::arithmetic::div_mod::lemma_div_is_ordered(
        eligible * percentage + 50,
        100 * eligible + 50,
        100,
    );
    vstd::arithmetic::div_mod::lemma_fundamental_div_mod_converse(
        100 * eligible + 50,
        100,
        eligible,
        50,
    );
    vstd::arithmetic::div_mod::lemma_fundamental_div_mod_converse(0, 100, 0, 0);
}

} // verus!
