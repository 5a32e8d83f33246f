use epirust::disease_tracker::Hotspot;
use epirust::events::Listeners;
use epirust::geography::Point;

#[test]
fn should_initialize() {
    let tracker = Hotspot::new();
    assert_eq!(tracker.tracked_cells(), 0);
}

#[test]
fn should_add_new_entry() {
    let mut tracker = Hotspot::new();
    let current_point = Point::new(0, 1);

    tracker.citizen_got_infected(&current_point);

    assert_eq!(tracker.get_count(&current_point), 1);
}

#[test]
fn should_update_tracker() {
    let mut tracker = Hotspot::new();
    let current_point = Point::new(0, 1);

    tracker.citizen_got_infected(&current_point);
    tracker.citizen_got_infected(&current_point);

    assert_eq!(tracker.get_count(&current_point), 2);
}

#[test]
fn other_cells_stay_untouched() {
    let mut tracker = Hotspot::new();
    let hot = Point::new(3, 4);
    let cold = Point::new(4, 3);

    tracker.citizen_got_infected(&hot);
    tracker.citizen_got_infected(&hot);

    assert_eq!(tracker.get_count(&hot), 2);
    assert_eq!(tracker.get_count(&cold), 0);
    assert_eq!(tracker.tracked_cells(), 1);
}

#[test]
fn registry_routes_infections_to_handles() {
    let mut listeners = Listeners::new();
    let handle = listeners.register_hotspot(Hotspot::new());
    let cell = Point::new(2, 2);

    listeners.citizen_got_infected(&cell);
    listeners.citizen_got_infected(&cell);

    let tracker = listeners.get_hotspot(handle).unwrap();
    assert_eq!(tracker.get_count(&cell), 2);
    assert!(listeners.get_hotspot(handle + 1).is_none());
}
