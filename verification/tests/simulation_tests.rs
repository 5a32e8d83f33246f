use epirust::agent::citizen_factory;
use epirust::allocation_map::AgentLocationMap;
use epirust::disease::{Disease, State};
use epirust::disease_tracker::Hotspot;
use epirust::epidemiology_simulation::Epidemiology;
use epirust::events::{Counts, Listeners};
use epirust::geography::Point;
use epirust::random::SimRng;

fn sample_disease() -> Disease {
    Disease {
        contact_probability: 100,
        detection_day: 2,
        recovery_day: 10,
        recovery_probability: 50,
        death_day: 20,
        death_probability: 20,
    }
}

fn column_population(count: i32) -> (Vec<Point>, Vec<Point>) {
    let mut homes = Vec::new();
    let mut works = Vec::new();
    let mut k = 0;
    while k < count {
        homes.push(Point::new(0, k));
        works.push(Point::new(5, k));
        k += 1;
    }
    (homes, works)
}

#[test]
fn vaccinate_transitions_exact_share() {
    let mut rng = SimRng::from_seed(7);
    let (homes, works) = column_population(10);
    let agents = citizen_factory(&homes, &works);
    let mut map = AgentLocationMap::new(10, &agents, &homes);

    map.vaccinate(50, &mut rng);

    let record = map.get_record();
    assert_eq!(record.vaccinated, 5);
    assert_eq!(record.susceptible, 5);
    assert_eq!(record.infected, 0);
    assert_eq!(record.deceased, 0);
}

#[test]
fn infection_spreads_to_adjacent_cell() {
    let mut rng = SimRng::from_seed(7);
    let (homes, works) = column_population(2);
    let mut agents = citizen_factory(&homes, &works);
    agents[0].state = State::Infected(0);
    let mut map = AgentLocationMap::new(10, &agents, &homes);
    let mut listeners = Listeners::new();
    let handle = listeners.register_hotspot(Hotspot::new());

    map.update_infections(&sample_disease(), &mut listeners, &mut rng);

    let record = map.get_record();
    assert_eq!(record.infected, 2);
    assert_eq!(record.susceptible, 0);
    let tracker = listeners.get_hotspot(handle).unwrap();
    assert_eq!(tracker.get_count(&Point::new(0, 1)), 1);
}

#[test]
fn zero_contact_probability_never_infects() {
    let mut rng = SimRng::from_seed(7);
    let (homes, works) = column_population(2);
    let mut agents = citizen_factory(&homes, &works);
    agents[0].state = State::Infected(0);
    let mut map = AgentLocationMap::new(10, &agents, &homes);
    let mut listeners = Listeners::new();
    let mut disease = sample_disease();
    disease.contact_probability = 0;

    map.update_infections(&disease, &mut listeners, &mut rng);

    let record = map.get_record();
    assert_eq!(record.infected, 1);
    assert_eq!(record.susceptible, 1);
}

#[test]
fn infection_day_advances_and_recovers() {
    let mut rng = SimRng::from_seed(7);
    let (homes, works) = column_population(2);
    let mut agents = citizen_factory(&homes, &works);
    agents[0].state = State::Infected(0);
    agents[1].state = State::Infected(9);
    let mut map = AgentLocationMap::new(10, &agents, &homes);
    let mut disease = sample_disease();
    disease.recovery_probability = 100;

    map.update_infection_day(&disease, &mut rng);

    assert_eq!(map.agents[0].state, State::Infected(1));
    assert_eq!(map.agents[1].state, State::Recovered);
}

#[test]
fn quarantine_flags_detected_infections() {
    let mut rng = SimRng::from_seed(7);
    let (homes, works) = column_population(2);
    let mut agents = citizen_factory(&homes, &works);
    agents[0].state = State::Infected(3);
    let mut map = AgentLocationMap::new(10, &agents, &homes);

    map.quarantine(&sample_disease());

    assert_eq!(map.agents[0].state, State::Quarantined(3));
    assert_eq!(map.agents[1].state, State::Susceptible);
    let _ = rng;
}

#[test]
fn deceased_resolves_past_death_threshold() {
    let mut rng = SimRng::from_seed(7);
    let (homes, works) = column_population(2);
    let mut agents = citizen_factory(&homes, &works);
    agents[0].state = State::Quarantined(25);
    agents[1].state = State::Infected(25);
    let mut map = AgentLocationMap::new(10, &agents, &homes);
    let mut disease = sample_disease();
    disease.death_probability = 100;

    map.deceased(&disease, &mut rng);

    assert_eq!(map.agents[0].state, State::Deceased);
    assert_eq!(map.agents[1].state, State::Deceased);
}

#[test]
fn goto_housing_returns_agents_home() {
    let mut rng = SimRng::from_seed(13);
    let mut epidemiology = Epidemiology::new(10, 12, &mut rng);
    let disease = sample_disease();

    epidemiology.routine(18, &disease, &mut rng);

    for agent in &epidemiology.agent_location_map.agents {
        assert_eq!(agent.location, agent.home_location);
    }
}

#[test]
fn run_emits_one_row_per_tick() {
    let mut rng = SimRng::from_seed(21);
    let mut epidemiology = Epidemiology::new(10, 20, &mut rng);

    let records = epidemiology.run(48, 24, 50, &sample_disease(), &mut rng);

    assert_eq!(records.len(), 48);
    for (t, record) in records.iter().enumerate() {
        assert_eq!(record.hour, t as i32);
        let total = record.susceptible as u64 + record.infected as u64
            + record.quarantined as u64 + record.recovered as u64 + record.vaccinated as u64
            + record.deceased as u64;
        assert_eq!(total, 20);
    }
}

#[test]
fn move_agents_stays_inside_current_area() {
    let mut rng = SimRng::from_seed(9);
    let mut epidemiology = Epidemiology::new(10, 12, &mut rng);
    let disease = sample_disease();
    epidemiology.routine(18, &disease, &mut rng);

    epidemiology.routine(19, &disease, &mut rng);

    let housing_end = epidemiology.housing_area.end_offset;
    for agent in &epidemiology.agent_location_map.agents {
        assert!(0 <= agent.location.x && agent.location.x <= housing_end.x);
        assert!(0 <= agent.location.y && agent.location.y < 10);
    }
}

#[test]
fn quarantined_agents_do_not_relocate() {
    let mut rng = SimRng::from_seed(9);
    let (homes, works) = column_population(2);
    let mut agents = citizen_factory(&homes, &works);
    agents[0].state = State::Quarantined(3);
    agents[0].location = Point::new(9, 9);
    let mut map = AgentLocationMap::new(10, &agents, &homes);

    map.goto(Point::new(0, 0), Point::new(5, 10));

    assert_eq!(map.agents[0].location, Point::new(9, 9));
    assert_eq!(map.agents[1].location, map.agents[1].home_location);
    map.move_agents(&mut rng);
    assert_eq!(map.agents[0].location, Point::new(9, 9));
}

fn run_once(seed: u64) -> Vec<Counts> {
    let mut rng = SimRng::from_seed(seed);
    let mut epidemiology = Epidemiology::new(10, 20, &mut rng);
    epidemiology.run(72, 24, 50, &sample_disease(), &mut rng)
}

#[test]
fn runs_are_replayable_from_seed() {
    let first = run_once(42);
    let second = run_once(42);

    assert_eq!(first, second);
}
