use bus_tracker::error::ServiceError;
use bus_tracker::position::Coordinates;
use bus_tracker::protocol::{Action, Reply};
use bus_tracker::registration::Registration;
use bus_tracker::stop_index::merge_bus;
use bus_tracker::store::Store;

fn origin() -> Coordinates {
    Coordinates { latitude_bits: 0, longitude_bits: 0 }
}

fn find(place_id: &str) -> Action {
    Action::FindStop { place_id: place_id.to_string() }
}

fn insert(place_id: &str, bus_list: &str) -> Action {
    Action::InsertStop { place_id: place_id.to_string(), bus_list: bus_list.to_string() }
}

fn replace(place_id: &str, bus_list: &str) -> Action {
    Action::ReplaceStop { place_id: place_id.to_string(), bus_list: bus_list.to_string() }
}

fn found(bus_list: &str) -> Reply {
    Reply::Found { bus_list: bus_list.to_string() }
}

#[test]
fn merge_creates_keeps_or_extends() {
    assert_eq!(merge_bus("S1", None, "B1"), Some(insert("S1", "B1")));
    assert_eq!(merge_bus("S1", Some("B1"), "B1"), None);
    assert_eq!(merge_bus("S1", Some("B0|B1|B2"), "B1"), None);
    assert_eq!(merge_bus("S1", Some("B0"), "B1"), Some(replace("S1", "B0|B1")));
    assert_eq!(merge_bus("S1", Some("B10|B11"), "B1"), Some(replace("S1", "B10|B11|B1")));
    assert_eq!(merge_bus("S1", Some(""), "B1"), Some(replace("S1", "|B1")));
    assert_eq!(merge_bus("S1", Some(""), ""), None);
}

#[test]
fn registration_walks_through_its_actions() {
    let position = Coordinates { latitude_bits: 7, longitude_bits: 9 };
    let mut registration = Registration::begin("B2", "S1|S2|S3", position);
    assert_eq!(registration.pending(), Some(&find("S1")));
    assert_eq!(registration.outcome(), None);
    registration.advance(Reply::Missing);
    assert_eq!(registration.pending(), Some(&insert("S1", "B2")));
    registration.advance(Reply::Written);
    assert_eq!(registration.pending(), Some(&find("S2")));
    registration.advance(found("B1"));
    assert_eq!(registration.pending(), Some(&replace("S2", "B1|B2")));
    registration.advance(Reply::Written);
    assert_eq!(registration.pending(), Some(&find("S3")));
    registration.advance(found("B2|B3"));
    assert_eq!(
        registration.pending(),
        Some(&Action::ReplaceRoute { bus_id: "B2".to_string(), stop_list: "S1|S2|S3".to_string() })
    );
    registration.advance(Reply::Written);
    assert_eq!(
        registration.pending(),
        Some(&Action::ReplaceLocation { bus_id: "B2".to_string(), position })
    );
    registration.advance(Reply::Written);
    assert_eq!(registration.pending(), None);
    assert_eq!(registration.outcome(), Some(Ok(())));
    registration.advance(Reply::Rejected);
    assert_eq!(registration.outcome(), Some(Ok(())));
}

#[test]
fn refused_first_write_is_a_storage_failure() {
    let mut registration = Registration::begin("B1", "S1|S2", origin());
    registration.advance(Reply::Missing);
    registration.advance(Reply::Rejected);
    assert_eq!(registration.pending(), None);
    assert_eq!(registration.outcome(), Some(Err(ServiceError::StorageFailure)));
}

#[test]
fn refused_later_write_is_a_partial_update() {
    let mut registration = Registration::begin("B1", "S1|S2", origin());
    registration.advance(Reply::Missing);
    registration.advance(Reply::Written);
    registration.advance(found("B0"));
    assert_eq!(registration.pending(), Some(&replace("S2", "B0|B1")));
    registration.advance(Reply::Rejected);
    assert_eq!(registration.outcome(), Some(Err(ServiceError::PartialUpdate)));
}

#[test]
fn refused_route_write_stops_before_the_location() {
    let mut registration = Registration::begin("B1", "S1", origin());
    registration.advance(found("B1"));
    assert_eq!(
        registration.pending(),
        Some(&Action::ReplaceRoute { bus_id: "B1".to_string(), stop_list: "S1".to_string() })
    );
    registration.advance(Reply::Rejected);
    assert_eq!(registration.pending(), None);
    assert_eq!(registration.outcome(), Some(Err(ServiceError::StorageFailure)));
}

#[test]
fn refused_location_write_is_a_partial_update() {
    let mut registration = Registration::begin("B1", "S1", origin());
    registration.advance(found("B1"));
    registration.advance(Reply::Written);
    registration.advance(Reply::Rejected);
    assert_eq!(registration.outcome(), Some(Err(ServiceError::PartialUpdate)));
}

#[test]
fn reply_that_does_not_answer_is_ignored() {
    let mut registration = Registration::begin("B1", "S1", origin());
    registration.advance(Reply::Written);
    assert_eq!(registration.pending(), Some(&find("S1")));
    registration.advance(Reply::Rejected);
    assert_eq!(registration.pending(), Some(&find("S1")));
    registration.advance(Reply::Missing);
    assert_eq!(registration.pending(), Some(&insert("S1", "B1")));
    registration.advance(Reply::Missing);
    assert_eq!(registration.pending(), Some(&insert("S1", "B1")));
    registration.advance(found("B0"));
    assert_eq!(registration.pending(), Some(&insert("S1", "B1")));
}

#[test]
fn store_performs_each_action() {
    let mut store = Store::new();
    assert_eq!(store.perform(&find("S1")), Reply::Missing);
    assert_eq!(store.perform(&insert("S1", "B1")), Reply::Written);
    assert_eq!(store.perform(&find("S1")), found("B1"));
    assert_eq!(store.perform(&insert("S1", "B2")), Reply::Rejected);
    assert_eq!(store.perform(&find("S1")), found("B1"));
    assert_eq!(store.perform(&replace("S1", "B1|B2")), Reply::Written);
    assert_eq!(store.perform(&find("S1")), found("B1|B2"));
    assert_eq!(store.perform(&replace("S2", "B2")), Reply::Written);
    assert_eq!(store.perform(&find("S2")), found("B2"));
    let route = Action::ReplaceRoute { bus_id: "B1".to_string(), stop_list: "S1".to_string() };
    assert_eq!(store.perform(&route), Reply::Written);
    assert_eq!(store.routes.get("B1"), Some(&"S1".to_string()));
    let position = Coordinates { latitude_bits: 3, longitude_bits: 4 };
    let location = Action::ReplaceLocation { bus_id: "B1".to_string(), position };
    assert_eq!(store.perform(&location), Reply::Written);
    assert_eq!(store.locations.get("B1"), Some(&position));
    assert!(store.places.keys().is_empty());
}

fn step(store: &mut Store, registration: &mut Registration) {
    let reply = match registration.pending() {
        Some(action) => store.perform(action),
        None => return,
    };
    registration.advance(reply);
}

fn finish(store: &mut Store, registration: &mut Registration) -> Result<(), ServiceError> {
    loop {
        if let Some(outcome) = registration.outcome() {
            return outcome;
        }
        step(store, registration);
    }
}

#[test]
fn stepping_a_registration_equals_registering() {
    let position = Coordinates { latitude_bits: 1, longitude_bits: 2 };
    let mut stepped = Store::new();
    let mut whole = Store::new();
    for store in [&mut stepped, &mut whole] {
        store.register_route("B1", "S1|S2", origin()).unwrap();
    }
    let mut registration = Registration::begin("B2", "S2|S3|S2", position);
    assert_eq!(finish(&mut stepped, &mut registration), Ok(()));
    assert_eq!(whole.register_route("B2", "S2|S3|S2", position), Ok(()));
    for stop in ["S1", "S2", "S3"] {
        assert_eq!(stepped.stop_index.get(stop), whole.stop_index.get(stop));
    }
    assert_eq!(stepped.routes.get("B2"), whole.routes.get("B2"));
    assert_eq!(stepped.locations.get("B2"), Some(&position));
    assert_eq!(stepped.stop_index.get("S2"), Some(&"B1|B2".to_string()));
}

#[test]
fn interleaved_registrations_lose_a_bus_at_a_shared_stop() {
    let mut store = Store::new();
    store.register_route("B0", "S2", origin()).unwrap();
    let mut first = Registration::begin("B1", "S2", origin());
    let mut second = Registration::begin("B2", "S2", origin());
    step(&mut store, &mut first);
    step(&mut store, &mut second);
    assert_eq!(first.pending(), Some(&replace("S2", "B0|B1")));
    assert_eq!(second.pending(), Some(&replace("S2", "B0|B2")));
    assert_eq!(finish(&mut store, &mut first), Ok(()));
    assert_eq!(store.stop_index.get("S2"), Some(&"B0|B1".to_string()));
    assert_eq!(finish(&mut store, &mut second), Ok(()));
    assert_eq!(store.stop_index.get("S2"), Some(&"B0|B2".to_string()));
    assert_eq!(store.routes.get("B1"), Some(&"S2".to_string()));
    assert_eq!(store.routes.get("B2"), Some(&"S2".to_string()));
}

#[test]
fn interleaved_registrations_collide_on_a_new_stop() {
    let mut store = Store::new();
    let mut first = Registration::begin("B1", "S1", origin());
    let mut second = Registration::begin("B2", "S1", origin());
    step(&mut store, &mut first);
    step(&mut store, &mut second);
    assert_eq!(first.pending(), Some(&insert("S1", "B1")));
    assert_eq!(second.pending(), Some(&insert("S1", "B2")));
    assert_eq!(finish(&mut store, &mut first), Ok(()));
    assert_eq!(finish(&mut store, &mut second), Err(ServiceError::StorageFailure));
    assert_eq!(store.stop_index.get("S1"), Some(&"B1".to_string()));
    assert_eq!(store.routes.get("B2"), None);
    assert_eq!(store.locations.get("B2"), None);
}

#[test]
fn collision_after_a_write_leaves_a_partial_update() {
    let mut store = Store::new();
    let mut first = Registration::begin("B1", "S1|S2", origin());
    step(&mut store, &mut first);
    step(&mut store, &mut first);
    step(&mut store, &mut first);
    assert_eq!(first.pending(), Some(&insert("S2", "B1")));
    store.register_route("B2", "S2", origin()).unwrap();
    assert_eq!(finish(&mut store, &mut first), Err(ServiceError::PartialUpdate));
    assert_eq!(store.stop_index.get("S1"), Some(&"B1".to_string()));
    assert_eq!(store.stop_index.get("S2"), Some(&"B2".to_string()));
    assert_eq!(store.routes.get("B1"), None);
    assert_eq!(store.locations.get("B1"), None);
}
