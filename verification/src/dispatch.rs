use vstd::prelude::*;

use crate::config::{spec_valid_config, Config};
use crate::epidemiology_simulation::Epidemiology;
use crate::events::Counts;
use crate::random::SimRng;

verus! {

/// One simulation request: an identifier and the configuration to run.
pub struct SimulationRequest {
    pub sim_id: String,
    pub config: Config,
}

/// One fan-out entry: the identity of the engine meant to run `config`.
pub struct SimRequestByEngine {
    pub engine_id: String,
    pub config: SimulationRequest,
}

/// The two payload shapes accepted on the request channel: a single request,
/// executed by whoever receives it, or an ordered fan-out list from which an
/// engine executes only the first entry addressed to it.
pub enum Request {
    SimulationRequest(SimulationRequest),
    MultiSimRequest(Vec<SimRequestByEngine>),
}

/// Relies on str's `==` (its `PartialEq`): true exactly when the two slices
/// hold the same characters.
#[verifier::external_body]
fn str_eq(a: &str, b: &str) -> (r: bool)
    ensures
        r == (a@ == b@),
{
    a == b
}

/// The work a request assigns to the engine named `engine_id`: a single
/// request is everyone's work; a fan-out request assigns the first entry
/// whose engine identity matches, and nothing when none does.
#[verifier::loop_isolation(false)]
pub fn select_work<'a>(request: &'a Request, engine_id: &str) -> (work: Option<
    &'a SimulationRequest,
>)
    ensures
        match *request {
            Request::SimulationRequest(s) => match work {
                Some(w) => *w == s,
                None => false,
            },
            Request::MultiSimRequest(entries) => match work {
                Some(w) => exists|j: int|
                    0 <= j < entries@.len() && (#[trigger] entries@[j]).engine_id@ == engine_id@
                        && *w == entries@[j].config && (forall|t: int|
                        0 <= t < j ==> entries@[t].engine_id@ != engine_id@),
                None => forall|j: int|
                    0 <= j < entries@.len() ==> (#[trigger] entries@[j]).engine_id@ != engine_id@,
            },
        },
{
    match request {
        Request::SimulationRequest(s) => Some(s),
        Request::MultiSimRequest(entries) => {
            let mut j: usize = 0;
            while j < entries.len()
                invariant
                    j <= entries@.len(),
                    forall|t: int| 0 <= t < j ==> (#[trigger] entries@[t]).engine_id@ != engine_id@,
                decreases entries@.len() - j,
            {
                let entry = &entries[j];
                if str_eq(entry.engine_id.as_str(), engine_id) {
                    return Some(&entry.config);
                }
                j += 1;
            }
            None
        },
    }
}

/// Executes the work a request assigns to this engine, if any: the selected
/// configuration is validated and, when runnable, simulated to completion.
/// Returns the run's per-tick rows; `None` when no entry is addressed to this
/// engine or the selected configuration is rejected.
pub fn run_sim(request: &Request, engine_id: &str, rng: &mut SimRng) -> (result: Option<
    Vec<Counts>,
>)
    ensures
        match *request {
            Request::SimulationRequest(s) => match result {
                Some(records) => spec_valid_config(s.config) && records@.len()
                    == s.config.simulation_life_time,
                None => !spec_valid_config(s.config),
            },
            Request::MultiSimRequest(entries) => match result {
                Some(records) => exists|j: int|
                    0 <= j < entries@.len() && (#[trigger] entries@[j]).engine_id@ == engine_id@
                        && (forall|t: int| 0 <= t < j ==> entries@[t].engine_id@ != engine_id@)
                        && spec_valid_config(entries@[j].config.config) && records@.len()
                        == entries@[j].config.config.simulation_life_time,
                None => forall|j: int|
                    0 <= j < entries@.len() ==> ((#[trigger] entries@[j]).engine_id@ != engine_id@
                        || ((forall|t: int| 0 <= t < j ==> entries@[t].engine_id@ != engine_id@)
                        ==> !spec_valid_config(entries@[j].config.config))),
            },
        },
{
    let work = select_work(request, engine_id);
    match work {
        None => None,
        Some(sim_req) => {
            let config = sim_req.config;
            if config.is_valid() {
                let mut epidemiology = Epidemiology::new(
                    config.grid_size,
                    config.number_of_agents,
                    rng,
                );
                let records = epidemiology.run(
                    config.simulation_life_time,
                    config.vaccination_time,
                    config.vaccination_percentage,
                    &config.disease,
                    rng,
                );
                Some(records)
            } else {
                None
            }
        },
    }
}

} // verus!
