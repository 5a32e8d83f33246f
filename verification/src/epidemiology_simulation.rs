use vstd::prelude::*;

use crate::agent;
use crate::agent::Citizen;
use crate::agent::count_state;
use crate::allocation_map::{
    exposed, observers_tallied, placed_in_area, same_identity, AgentLocationMap,
};
use crate::constants;
use crate::disease;
use crate::disease::Disease;
use crate::events::{Counts, Listeners};
use crate::geography;
use crate::geography::{HousingArea, Point, TransportArea, WorkArea, MAX_GRID_SIZE};
use crate::random::SimRng;

verus! {

/// The exclusive relocation bound of an area whose stored end corner is
/// inclusive on the x axis: one column past the corner, clipped to the grid.
pub open spec fn spec_relocation_end(end: Point, grid_size: int) -> Point {
    Point {
        x: (if end.x + 1 <= grid_size {
            end.x + 1
        } else {
            grid_size
        }) as i32,
        y: grid_size as i32,
    }
}

fn relocation_end(end: Point, grid_size: i32) -> (r: Point)
    requires
        0 <= end.x <= grid_size,
        0 <= grid_size <= MAX_GRID_SIZE,
    ensures
        r == spec_relocation_end(end, grid_size as int),
{
    if end.x + 1 <= grid_size {
        Point { x: end.x + 1, y: grid_size }
    } else {
        Point { x: grid_size, y: grid_size }
    }
}

/// One simulation run: the agent-location map, the three areas the routine
/// cycles agents through, and the observer registry.
pub struct Epidemiology {
    pub agent_location_map: AgentLocationMap,
    pub housing_area: HousingArea,
    pub work_area: WorkArea,
    pub transport_area: TransportArea,
    pub listeners: Listeners,
}

impl Epidemiology {
    /// Internal invariant: a grid large enough for all three areas; the fixed
    /// partition derived from the grid size — housing spans columns
    /// `[0, h]`, transport `[h+1, w-1]`, work `[w, grid]`, each corner pair
    /// inclusive on x as the areas store them; every home cell inside the
    /// housing strip; and well-formed parts.
    pub open spec fn wf(&self) -> bool {
        let gs = self.agent_location_map.grid_size;
        let h = gs / constants::HOUSE_AREA_RELATED_SIZE;
        let w = h + constants::TRANSPORT_AREA_SIZE + 1;
        &&& self.agent_location_map.wf()
        &&& self.listeners.wf()
        &&& 7 <= gs
        &&& self.housing_area.start_offset == (Point { x: 0, y: 0 })
        &&& self.housing_area.end_offset == (Point { x: h as i32, y: gs })
        &&& self.transport_area.start_offset == (Point { x: (h + 1) as i32, y: 0 })
        &&& self.transport_area.end_offset == (Point { x: (w - 1) as i32, y: gs })
        &&& self.work_area.start_offset == (Point { x: w as i32, y: 0 })
        &&& self.work_area.end_offset == (Point { x: gs, y: gs })
        &&& 0 < h
        &&& w < gs
        &&& forall|k: int|
            0 <= k < self.agent_location_map.agents@.len()
                ==> (#[trigger] self.agent_location_map.agents@[k]).home_location.x <= h
    }

    /// Splits the grid into the housing, transport and work strips: housing
    /// covers columns `[0, x_offset_for_home]`, transport the open band
    /// between the offsets, and work `[x_offset_for_work, grid_size]` —
    /// three contiguous, non-overlapping x-bands, each spanning all rows.
    pub fn define_geography(grid_size: i32, x_offset_for_home: i32, x_offset_for_work: i32) -> (areas: (
        HousingArea,
        TransportArea,
        WorkArea,
    ))
        requires
            0 <= grid_size,
            x_offset_for_home == grid_size / constants::HOUSE_AREA_RELATED_SIZE,
            x_offset_for_home + 2 <= x_offset_for_work <= grid_size,
        ensures
            areas.0.start_offset == (Point { x: 0, y: 0 }),
            areas.0.end_offset == (Point { x: x_offset_for_home, y: grid_size }),
            areas.1.start_offset == (Point { x: (x_offset_for_home + 1) as i32, y: 0 }),
            areas.1.end_offset == (Point { x: (x_offset_for_work - 1) as i32, y: grid_size }),
            areas.2.start_offset == (Point { x: x_offset_for_work, y: 0 }),
            areas.2.end_offset == (Point { x: grid_size, y: grid_size }),
    {
        let housing_area = HousingArea::new(grid_size);
        let transport_area = TransportArea::new(
            Point::new(x_offset_for_home + 1, 0),
            Point::new(x_offset_for_work - 1, grid_size),
        );
        let work_area = WorkArea::new(
            Point::new(x_offset_for_work, 0),
            Point::new(grid_size, grid_size),
        );
        (housing_area, transport_area, work_area)
    }

    /// Draws pairwise-distinct home cells inside the housing strip (columns
    /// `[0, x_offset_for_home]`) and builds the initial population: everyone
    /// starts at home, susceptible, with a work cell one housing offset to
    /// the right of home.
    #[verifier::loop_isolation(false)]
    pub fn generate_population(
        grid_size: i32,
        number_of_agents: i32,
        x_offset_for_home: i32,
        rng: &mut SimRng,
    ) -> (population: (Vec<Point>, Vec<Citizen>))
        requires
            0 < grid_size <= MAX_GRID_SIZE,
            0 < x_offset_for_home,
            2 * x_offset_for_home <= grid_size,
            0 <= number_of_agents <= x_offset_for_home * grid_size,
        ensures
            population.0@.len() == number_of_agents,
            population.1@.len() == number_of_agents,
            geography::points_distinct(population.0@),
            forall|k: int|
                0 <= k < number_of_agents ==> #[trigger] population.1@[k] == (Citizen {
                    id: k as usize,
                    home_location: population.0@[k],
                    work_location: Point {
                        x: (population.0@[k].x + x_offset_for_home) as i32,
                        y: population.0@[k].y,
                    },
                    location: population.0@[k],
                    state: crate::disease::State::Susceptible,
                }),
            forall|k: int|
                0 <= k < number_of_agents ==> 0 <= (#[trigger] population.0@[k]).x
                    <= x_offset_for_home && 0 <= population.0@[k].y < grid_size,
    {
        proof {
            assert(x_offset_for_home * grid_size <= (x_offset_for_home + 1) * grid_size)
                by (nonlinear_arith)
                requires
                    0 < grid_size,
                    0 < x_offset_for_home,
            ;
        }
        let home_location_boundary = Point::new(x_offset_for_home + 1, grid_size);
        let home_locations = geography::point_factory_within(
            rng,
            Point::new(0, 0),
            home_location_boundary,
            number_of_agents,
        );
        let mut work_locations: Vec<Point> = Vec::new();
        let mut i: usize = 0;
        while i < home_locations.len()
            invariant
                i <= home_locations@.len(),
                work_locations@.len() == i,
                forall|k: int|
                    0 <= k < i ==> #[trigger] work_locations@[k] == (Point {
                        x: (home_locations@[k].x + x_offset_for_home) as i32,
                        y: home_locations@[k].y,
                    }),
            decreases home_locations@.len() - i,
        {
            let home = home_locations[i];
            work_locations.push(Point::new(home.x + x_offset_for_home, home.y));
            i += 1;
        }
        let agent_list = agent::citizen_factory(&home_locations, &work_locations);
        (home_locations, agent_list)
    }

    /// Builds a full simulation over a fresh random population on a
    /// `grid_size`-by-`grid_size` grid, with an empty observer registry.
    pub fn new(grid_size: i32, number_of_agents: i32, rng: &mut SimRng) -> (epidemiology:
        Epidemiology)
        requires
            7 <= grid_size <= MAX_GRID_SIZE,
            0 <= number_of_agents,
            number_of_agents <= (grid_size / 2) * grid_size,
        ensures
            epidemiology.wf(),
            epidemiology.agent_location_map.grid_size == grid_size,
            epidemiology.agent_location_map.hour == 0,
            epidemiology.agent_location_map.agents@.len() == number_of_agents,
            epidemiology.listeners.listeners@.len() == 0,
            forall|k: int|
                0 <= k < number_of_agents ==> (#[trigger] epidemiology.agent_location_map.agents@[k]).state
                    == crate::disease::State::Susceptible,
    {
        let x_offset_for_home = grid_size / constants::HOUSE_AREA_RELATED_SIZE;
        let x_offset_for_work = x_offset_for_home + constants::TRANSPORT_AREA_SIZE + 1;
        proof {
            vstd::arithmetic::div_mod::lemma_fundamental_div_mod(grid_size as int, 2);
            assert((grid_size / 2) * grid_size <= MAX_GRID_SIZE * MAX_GRID_SIZE)
                by (nonlinear_arith)
                requires
                    0 <= grid_size / 2 <= MAX_GRID_SIZE,
                    0 < grid_size <= MAX_GRID_SIZE,
            ;
        }
        let (housing_area, transport_area, work_area) = Epidemiology::define_geography(
            grid_size,
            x_offset_for_home,
            x_offset_for_work,
        );
        let (home_locations, agent_list) = Epidemiology::generate_population(
            grid_size,
            number_of_agents,
            x_offset_for_home,
            rng,
        );
        let agent_location_map = AgentLocationMap::new(grid_size, &agent_list, &home_locations);
        Epidemiology {
            agent_location_map,
            housing_area,
            work_area,
            transport_area,
            listeners: Listeners::new(),
        }
    }

    /// One tick's phase dispatch by hour of day: the routine-start hour runs
    /// infection spread, day progression and quarantine detection, in that
    /// order; the four commute hours relocate agents between the areas, a
    /// return to housing landing every mover on its own home cell; the
    /// routine-end hour resolves mortality; every other hour is a local
    /// random walk inside the current area. No phase ever turns an agent
    /// vaccinated or un-vaccinates one.
    pub fn routine(&mut self, i: i32, disease_cfg: &Disease, rng: &mut SimRng)
        requires
            old(self).wf(),
            0 <= i,
        ensures
            final(self).wf(),
            final(self).agent_location_map.grid_size == old(self).agent_location_map.grid_size,
            final(self).agent_location_map.hour == old(self).agent_location_map.hour,
            final(self).agent_location_map.agents@.len() == old(
                self,
            ).agent_location_map.agents@.len(),
            final(self).housing_area == old(self).housing_area,
            final(self).transport_area == old(self).transport_area,
            final(self).work_area == old(self).work_area,
            forall|k: int|
                0 <= k < final(self).agent_location_map.agents@.len() ==> same_identity(
                    old(self).agent_location_map.agents@[k],
                    #[trigger] final(self).agent_location_map.agents@[k],
                ),
            forall|k: int|
                0 <= k < final(self).agent_location_map.agents@.len()
                    ==> disease::is_vaccinated(
                    (#[trigger] final(self).agent_location_map.agents@[k]).state,
                ) == disease::is_vaccinated(old(self).agent_location_map.agents@[k].state),
            final(self).listeners.listeners@.len() == old(self).listeners.listeners@.len(),
            i % constants::NUMBER_OF_HOURS != constants::ROUTINE_START_TIME
                ==> final(self).listeners == old(self).listeners,
            i % constants::NUMBER_OF_HOURS == constants::ROUTINE_START_TIME ==> exists|
                mid: Seq<Citizen>,
            |
                #[trigger] observers_tallied(
                    old(self).listeners.listeners@,
                    final(self).listeners.listeners@,
                    old(self).agent_location_map.agents@,
                    mid,
                ),
            i % constants::NUMBER_OF_HOURS == constants::ROUTINE_START_TIME ==> forall|k: int|
                0 <= k < final(self).agent_location_map.agents@.len() ==> {
                    let a = old(self).agent_location_map.agents@[k];
                    let b = #[trigger] final(self).agent_location_map.agents@[k];
                    &&& b.location == a.location
                    &&& disease::routine_start_step(
                        *disease_cfg,
                        a.state,
                        exposed(old(self).agent_location_map.agents@, k),
                        b.state,
                    )
                },
            i % constants::NUMBER_OF_HOURS == constants::ROUTINE_TRAVEL_START_TIME || i
                % constants::NUMBER_OF_HOURS == constants::ROUTINE_TRAVEL_END_TIME ==> forall|
                k: int,
            |
                0 <= k < final(self).agent_location_map.agents@.len() ==> {
                    let a = old(self).agent_location_map.agents@[k];
                    let b = #[trigger] final(self).agent_location_map.agents@[k];
                    &&& b.state == a.state
                    &&& b.location == (if disease::moves_freely(a.state) {
                        placed_in_area(
                            old(self).transport_area.start_offset,
                            spec_relocation_end(
                                old(self).transport_area.end_offset,
                                old(self).agent_location_map.grid_size as int,
                            ),
                            a.home_location,
                        )
                    } else {
                        a.location
                    })
                },
            i % constants::NUMBER_OF_HOURS == constants::ROUTINE_WORK_TIME ==> forall|k: int|
                0 <= k < final(self).agent_location_map.agents@.len() ==> {
                    let a = old(self).agent_location_map.agents@[k];
                    let b = #[trigger] final(self).agent_location_map.agents@[k];
                    &&& b.state == a.state
                    &&& b.location == (if disease::moves_freely(a.state) {
                        placed_in_area(
                            old(self).work_area.start_offset,
                            spec_relocation_end(
                                old(self).work_area.end_offset,
                                old(self).agent_location_map.grid_size as int,
                            ),
                            a.home_location,
                        )
                    } else {
                        a.location
                    })
                },
            i % constants::NUMBER_OF_HOURS == constants::ROUTINE_WORK_END_TIME ==> forall|k: int|
                0 <= k < final(self).agent_location_map.agents@.len() ==> {
                    let a = old(self).agent_location_map.agents@[k];
                    let b = #[trigger] final(self).agent_location_map.agents@[k];
                    &&& b.state == a.state
                    &&& b.location == (if disease::moves_freely(a.state) {
                        a.home_location
                    } else {
                        a.location
                    })
                },
            i % constants::NUMBER_OF_HOURS == constants::ROUTINE_END_TIME ==> forall|k: int|
                0 <= k < final(self).agent_location_map.agents@.len() ==> {
                    let a = old(self).agent_location_map.agents@[k];
                    let b = #[trigger] final(self).agent_location_map.agents@[k];
                    &&& b.location == a.location
                    &&& disease::mortality_step(*disease_cfg, a.state, b.state)
                    &&& (disease_cfg.death_probability >= 100 && disease::past_death_threshold(
                        *disease_cfg,
                        a.state,
                    ) ==> b.state == crate::disease::State::Deceased)
                },
            (i % constants::NUMBER_OF_HOURS != constants::ROUTINE_START_TIME && i
                % constants::NUMBER_OF_HOURS != constants::ROUTINE_TRAVEL_START_TIME && i
                % constants::NUMBER_OF_HOURS != constants::ROUTINE_WORK_TIME && i
                % constants::NUMBER_OF_HOURS != constants::ROUTINE_TRAVEL_END_TIME && i
                % constants::NUMBER_OF_HOURS != constants::ROUTINE_WORK_END_TIME && i
                % constants::NUMBER_OF_HOURS != constants::ROUTINE_END_TIME) ==> forall|k: int|
                0 <= k < final(self).agent_location_map.agents@.len() ==> {
                    let a = old(self).agent_location_map.agents@[k];
                    let b = #[trigger] final(self).agent_location_map.agents@[k];
                    let clip = Point {
                        x: (old(self).agent_location_map.area_end.x - 1) as i32,
                        y: (old(self).agent_location_map.area_end.y - 1) as i32,
                    };
                    &&& b.state == a.state
                    &&& (b.location == a.location || (disease::moves_freely(a.state)
                        && geography::is_neighbor_within(
                        a.location,
                        b.location,
                        old(self).agent_location_map.area_start,
                        clip,
                    )))
                    &&& (disease::moves_freely(a.state) && (exists|q: Point|
                        #[trigger] geography::is_neighbor_within(
                            a.location,
                            q,
                            old(self).agent_location_map.area_start,
                            clip,
                        )) ==> b.location != a.location)
                },
    {
        let ghost m0 = old(self).agent_location_map.agents@;
        let phase = i % constants::NUMBER_OF_HOURS;
        let grid_size = self.agent_location_map.grid_size;
        if phase == constants::ROUTINE_START_TIME {
            self.agent_location_map.update_infections(disease_cfg, &mut self.listeners, rng);
            let ghost m1 = self.agent_location_map.agents@;
            self.agent_location_map.update_infection_day(disease_cfg, rng);
            let ghost m2 = self.agent_location_map.agents@;
            self.agent_location_map.quarantine(disease_cfg);
            proof {
                assert(observers_tallied(
                    old(self).listeners.listeners@,
                    self.listeners.listeners@,
                    m0,
                    m1,
                ));
                let m3 = self.agent_location_map.agents@;
                assert forall|k: int| 0 <= k < m3.len() implies disease::routine_start_step(
                    *disease_cfg,
                    m0[k].state,
                    exposed(m0, k),
                    (#[trigger] m3[k]).state,
                ) by {
                    let s1 = m1[k].state;
                    let s2 = m2[k].state;
                    assert(disease::infection_step(*disease_cfg, m0[k].state, exposed(m0, k), s1));
                    assert(disease::day_progression(*disease_cfg, s1, s2));
                    assert(m3[k].state == disease::quarantined_state(*disease_cfg, s2));
                }
            }
        } else if phase == constants::ROUTINE_TRAVEL_START_TIME {
            let end = relocation_end(self.transport_area.end_offset, grid_size);
            self.agent_location_map.goto(self.transport_area.start_offset, end);
        } else if phase == constants::ROUTINE_WORK_TIME {
            let end = relocation_end(self.work_area.end_offset, grid_size);
            self.agent_location_map.goto(self.work_area.start_offset, end);
        } else if phase == constants::ROUTINE_TRAVEL_END_TIME {
            let end = relocation_end(self.transport_area.end_offset, grid_size);
            self.agent_location_map.goto(self.transport_area.start_offset, end);
        } else if phase == constants::ROUTINE_WORK_END_TIME {
            let end = relocation_end(self.housing_area.end_offset, grid_size);
            self.agent_location_map.goto(self.housing_area.start_offset, end);
            proof {
                let gs = grid_size as int;
                let h = gs / (constants::HOUSE_AREA_RELATED_SIZE as int);
                let m3 = self.agent_location_map.agents@;
                assert forall|k: int|
                    0 <= k < m3.len() && disease::moves_freely(m0[k].state) implies (
                #[trigger] m3[k]).location == m0[k].home_location by {
                    let home = m0[k].home_location;
                    vstd::arithmetic::div_mod::lemma_fundamental_div_mod_converse(
                        home.x as int,
                        h + 1,
                        0,
                        home.x as int,
                    );
                    assert(placed_in_area(
                        Point { x: 0, y: 0 },
                        spec_relocation_end(self.housing_area.end_offset, gs),
                        home,
                    ) == home);
                }
            }
        } else if phase == constants::ROUTINE_END_TIME {
            self.agent_location_map.deceased(disease_cfg, rng);
        } else {
            self.agent_location_map.move_agents(rng);
        }
    }

    /// Runs the whole simulation: tick 0 places everyone into housing; each
    /// later tick advances the hour and dispatches its phase; the vaccination
    /// campaign fires once, exactly at its configured tick — the rows'
    /// vaccinated tally changes at no other tick, and there it grows by the
    /// quota of the then-eligible susceptible population. Every tick appends
    /// one counts row whose six counts sum to the whole population, and the
    /// last row reports exactly the final agent states. Observers hear every
    /// row and the end of the run.
    #[verifier::loop_isolation(false)]
    pub fn run(
        &mut self,
        simulation_life_time: i32,
        vaccination_time: i32,
        vaccination_percentage: u32,
        disease_cfg: &Disease,
        rng: &mut SimRng,
    ) -> (records: Vec<Counts>)
        requires
            old(self).wf(),
            old(self).agent_location_map.hour == 0,
            0 <= simulation_life_time < i32::MAX,
            vaccination_percentage <= 100,
        ensures
            final(self).wf(),
            records@.len() == simulation_life_time,
            forall|t: int| 0 <= t < records@.len() ==> (#[trigger] records@[t]).hour == t,
            forall|t: int|
                0 <= t < records@.len() ==> (#[trigger] records@[t]).susceptible + records@[t].infected
                    + records@[t].quarantined + records@[t].recovered + records@[t].vaccinated
                    + records@[t].deceased == old(self).agent_location_map.agents@.len(),
            forall|t: int|
                0 < t < records@.len() && t != vaccination_time ==> (#[trigger] records@[t]).vaccinated
                    == records@[t - 1].vaccinated,
            (0 < vaccination_time < records@.len()) ==> exists|e: int|
                0 <= e && (#[trigger] records@[vaccination_time as int]).vaccinated as int
                    == records@[vaccination_time - 1].vaccinated as int
                    + crate::allocation_map::vaccination_quota(e, vaccination_percentage as int)
                    && records@[vaccination_time as int].susceptible as int == e
                    - crate::allocation_map::vaccination_quota(e, vaccination_percentage as int),
            simulation_life_time > 0 ==> {
                let last = records@[simulation_life_time - 1];
                let agents = final(self).agent_location_map.agents@;
                &&& last.susceptible as int == count_state(agents, disease::sus_pred())
                &&& last.infected as int == count_state(agents, disease::inf_pred())
                &&& last.quarantined as int == count_state(agents, disease::qua_pred())
                &&& last.recovered as int == count_state(agents, disease::rec_pred())
                &&& last.vaccinated as int == count_state(agents, disease::vac_pred())
                &&& last.deceased as int == count_state(agents, disease::dec_pred())
            },
    {
        let ghost population = old(self).agent_location_map.agents@.len();
        let mut records: Vec<Counts> = Vec::new();
        let mut i: i32 = 0;
        while i < simulation_life_time
            invariant
                0 <= i <= simulation_life_time,
                self.wf(),
                self.agent_location_map.agents@.len() == population,
                self.agent_location_map.hour == (if i == 0 {
                    0int
                } else {
                    i - 1
                }),
                records@.len() == i,
                forall|t: int| 0 <= t < i ==> (#[trigger] records@[t]).hour == t,
                forall|t: int|
                    0 <= t < i ==> (#[trigger] records@[t]).susceptible + records@[t].infected
                        + records@[t].quarantined + records@[t].recovered + records@[t].vaccinated
                        + records@[t].deceased == population,
                forall|t: int|
                    0 < t < i && t != vaccination_time ==> (#[trigger] records@[t]).vaccinated
                        == records@[t - 1].vaccinated,
                (0 < vaccination_time < i) ==> exists|e: int|
                    0 <= e && (#[trigger] records@[vaccination_time as int]).vaccinated as int
                        == records@[vaccination_time - 1].vaccinated as int
                        + crate::allocation_map::vaccination_quota(
                        e,
                        vaccination_percentage as int,
                    ) && records@[vaccination_time as int].susceptible as int == e
                        - crate::allocation_map::vaccination_quota(
                        e,
                        vaccination_percentage as int,
                    ),
                i > 0 ==> {
                    let last = records@[i - 1];
                    let agents = self.agent_location_map.agents@;
                    &&& last.susceptible as int == count_state(agents, disease::sus_pred())
                    &&& last.infected as int == count_state(agents, disease::inf_pred())
                    &&& last.quarantined as int == count_state(agents, disease::qua_pred())
                    &&& last.recovered as int == count_state(agents, disease::rec_pred())
                    &&& last.vaccinated as int == count_state(agents, disease::vac_pred())
                    &&& last.deceased as int == count_state(agents, disease::dec_pred())
                },
            decreases simulation_life_time - i,
        {
            let ghost before = self.agent_location_map.agents@;
            if i == 0 {
                let end = relocation_end(
                    self.housing_area.end_offset,
                    self.agent_location_map.grid_size,
                );
                self.agent_location_map.goto(self.housing_area.start_offset, end);
            } else {
                self.agent_location_map.increment_hour();
                self.routine(i, disease_cfg, rng);
            }
            proof {
                crate::agent::lemma_count_congruence(
                    before,
                    self.agent_location_map.agents@,
                    disease::vac_pred(),
                    0,
                    population as int,
                );
            }
            if i == vaccination_time {
                let ghost eligible = count_state(self.agent_location_map.agents@, disease::sus_pred());
                proof {
                    crate::agent::lemma_count_bounds(
                        self.agent_location_map.agents@,
                        disease::sus_pred(),
                        0,
                        population as int,
                    );
                }
                self.agent_location_map.vaccinate(vaccination_percentage, rng);
            }
            let record = self.agent_location_map.get_record();
            self.listeners.counts_updated(record);
            records.push(record);
            i += 1;
        }
        self.listeners.simulation_ended();
        records
    }
}

} // verus!
