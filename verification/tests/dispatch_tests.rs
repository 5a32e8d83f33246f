use epirust::config::Config;
use epirust::disease::Disease;
use epirust::dispatch::{run_sim, select_work, Request, SimRequestByEngine, SimulationRequest};
use epirust::random::SimRng;

fn sample_config(simulation_life_time: i32) -> Config {
    Config {
        grid_size: 10,
        number_of_agents: 20,
        simulation_life_time,
        vaccination_time: 5,
        vaccination_percentage: 50,
        disease: Disease {
            contact_probability: 100,
            detection_day: 2,
            recovery_day: 10,
            recovery_probability: 50,
            death_day: 20,
            death_probability: 20,
        },
    }
}

fn entry(engine_id: &str, sim_id: &str, life: i32) -> SimRequestByEngine {
    SimRequestByEngine {
        engine_id: engine_id.to_string(),
        config: SimulationRequest { sim_id: sim_id.to_string(), config: sample_config(life) },
    }
}

#[test]
fn single_request_runs_directly() {
    let request = Request::SimulationRequest(SimulationRequest {
        sim_id: "0".to_string(),
        config: sample_config(5),
    });
    let mut rng = SimRng::from_seed(1);

    let records = run_sim(&request, "engine-2", &mut rng).unwrap();

    assert_eq!(records.len(), 5);
}

#[test]
fn fan_out_runs_only_the_first_matching_entry() {
    let request = Request::MultiSimRequest(vec![
        entry("engine-1", "1", 9),
        entry("engine-2", "2", 7),
        entry("engine-2", "3", 11),
    ]);
    let mut rng = SimRng::from_seed(1);

    let records = run_sim(&request, "engine-2", &mut rng).unwrap();

    assert_eq!(records.len(), 7);
}

#[test]
fn fan_out_without_matching_entry_runs_nothing() {
    let request = Request::MultiSimRequest(vec![entry("engine-1", "1", 9), entry("engine-3", "3", 7)]);
    let mut rng = SimRng::from_seed(1);

    assert!(run_sim(&request, "engine-2", &mut rng).is_none());
}

#[test]
fn select_work_picks_first_match() {
    let request = Request::MultiSimRequest(vec![
        entry("engine-1", "1", 9),
        entry("engine-2", "2", 7),
        entry("engine-2", "3", 11),
    ]);

    let work = select_work(&request, "engine-2").unwrap();

    assert_eq!(work.sim_id, "2".to_string());
}

#[test]
fn rejected_configuration_is_dropped() {
    let mut config = sample_config(5);
    config.grid_size = 3;
    let request = Request::SimulationRequest(SimulationRequest {
        sim_id: "0".to_string(),
        config,
    });
    let mut rng = SimRng::from_seed(1);

    assert!(run_sim(&request, "engine-2", &mut rng).is_none());
}
