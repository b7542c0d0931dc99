use bus_tracker::cors::{core_options, cors, Verb};
use bus_tracker::pipe_list::{is_listed, lists_id, same_text, split_fields, with_id};
use bus_tracker::position::Coordinates;
use bus_tracker::routing::assemble_routing;
use bus_tracker::service::{bus_data, busses_data, place_data, rocket, route_data, stage, Operation};
use bus_tracker::table::Table;

fn texts(items: &[&str]) -> Vec<String> {
    items.iter().map(|item| item.to_string()).collect()
}

#[test]
fn split_gives_the_fields_between_separators() {
    assert_eq!(split_fields("S1|S2"), texts(&["S1", "S2"]));
    assert_eq!(split_fields("S1"), texts(&["S1"]));
    assert_eq!(split_fields(""), texts(&[""]));
    assert_eq!(split_fields("|"), texts(&["", ""]));
    assert_eq!(split_fields("a||b"), texts(&["a", "", "b"]));
    assert_eq!(split_fields("|a|"), texts(&["", "a", ""]));
    assert_eq!(
        split_fields("Shimla|Sundernager|Ner Chock|Mandi"),
        texts(&["Shimla", "Sundernager", "Ner Chock", "Mandi"])
    );
}

#[test]
fn split_counts_characters_not_bytes() {
    assert_eq!(split_fields("शिमला|मंडी"), texts(&["शिमला", "मंडी"]));
    assert_eq!(split_fields("é|ü|"), texts(&["é", "ü", ""]));
}

#[test]
fn split_agrees_with_the_standard_split() {
    for text in ["", "|", "||", "a", "a|b", "a|b|", "|a|b", "ab|cd|ef", "a||b|||c"] {
        let expected: Vec<String> = text.split('|').map(|field| field.to_string()).collect();
        assert_eq!(split_fields(text), expected);
    }
}

#[test]
fn texts_are_compared_by_their_characters() {
    assert!(same_text("", ""));
    assert!(same_text("B1", "B1"));
    assert!(!same_text("B1", "B2"));
    assert!(!same_text("B1", "B10"));
    assert!(!same_text("B10", "B1"));
    assert!(same_text("मंडी", "मंडी"));
    assert!(!same_text("é", "e"));
}

#[test]
fn membership_is_by_whole_fields() {
    assert!(lists_id("B1|B2", "B2"));
    assert!(lists_id("B1|B2", "B1"));
    assert!(!lists_id("B10|B2", "B1"));
    assert!(!lists_id("B1|B2", "B1|B2"));
    assert!(lists_id("", ""));
    assert!(!lists_id("B1", ""));
    assert!(lists_id("B1|", ""));
    assert!(is_listed(&texts(&["B1", "B2"]), "B2"));
    assert!(!is_listed(&texts(&["B1", "B2"]), "B3"));
    assert!(!is_listed(&texts(&[]), ""));
}

#[test]
fn appending_puts_a_separator_between() {
    assert_eq!(with_id("B1", "B2"), "B1|B2");
    assert_eq!(with_id("B1|B2", "B3"), "B1|B2|B3");
    assert_eq!(with_id("", "B1"), "|B1");
    assert_eq!(with_id("B1", ""), "B1|");
}

#[test]
fn table_holds_one_row_for_each_key() {
    let mut table: Table<String> = Table::new();
    assert!(table.keys().is_empty());
    assert_eq!(table.get("a"), None);
    assert!(table.insert("a".to_string(), "1".to_string()));
    assert!(!table.insert("a".to_string(), "2".to_string()));
    assert_eq!(table.get("a"), Some(&"1".to_string()));
    table.put("a".to_string(), "3".to_string());
    table.put("b".to_string(), "4".to_string());
    assert_eq!(table.get("a"), Some(&"3".to_string()));
    assert_eq!(table.get("b"), Some(&"4".to_string()));
    assert!(table.contains("b"));
    assert!(!table.contains("c"));
    let mut keys = table.keys();
    keys.sort();
    assert_eq!(keys, texts(&["a", "b"]));
    assert_eq!(table.delete("c"), 0);
    assert_eq!(table.delete("a"), 1);
    assert_eq!(table.delete("a"), 0);
    assert_eq!(table.keys(), texts(&["b"]));
    assert_eq!(table.get("a"), None);
    assert_eq!(table.get("b"), Some(&"4".to_string()));
    table.clear();
    assert!(table.keys().is_empty());
    assert_eq!(table.get("b"), None);
}

#[test]
fn routing_pairs_each_stop_with_its_lookup() {
    let here = Coordinates { latitude_bits: 1, longitude_bits: 2 };
    let there = Coordinates { latitude_bits: 3, longitude_bits: 4 };
    let stops = texts(&["S1", "S2", "S3"]);
    let routing = assemble_routing("B1", &stops, &vec![Some(here), None, Some(there)]);
    assert_eq!(routing.bus_id, "B1");
    assert_eq!(routing.places.len(), 2);
    assert_eq!(routing.places[0].place_id, "S1");
    assert_eq!(routing.places[0].position, here);
    assert_eq!(routing.places[1].place_id, "S3");
    assert_eq!(routing.places[1].position, there);
    let short = assemble_routing("B1", &stops, &vec![Some(here)]);
    assert_eq!(short.places.len(), 1);
    let long = assemble_routing("B1", &texts(&["S1"]), &vec![Some(here), Some(there)]);
    assert_eq!(long.places.len(), 1);
    assert_eq!(long.places[0].position, here);
}

#[test]
fn resources_answer_to_any_origin() {
    let policy = core_options();
    assert!(policy.any_origin);
    assert!(policy.any_header);
    assert!(policy.allow_credentials);
    assert_eq!(policy.methods, vec![Verb::Get, Verb::Post, Verb::Options, Verb::Delete]);
    assert_eq!(policy.route_base, "/");
    assert_eq!(policy.max_age, Some(42));
    let preflight = cors();
    assert_eq!(preflight.methods, vec![Verb::Get, Verb::Post, Verb::Options]);
    assert_eq!(preflight.max_age, Some(42));
    assert!(preflight.allow_credentials);
}

#[test]
fn service_mounts_the_four_resources() {
    let service = rocket();
    assert_eq!(service.preflight, stage());
    assert_eq!(service.preflight.base, "/");
    assert_eq!(service.preflight.policy, cors());
    assert_eq!(service.mounts, vec![bus_data(), route_data(), place_data(), busses_data()]);
    let bases: Vec<&str> = service.mounts.iter().map(|mount| mount.base.as_str()).collect();
    assert_eq!(bases, vec!["/bus", "/routes", "/place", "/busses"]);
    let counts: Vec<usize> = service.mounts.iter().map(|mount| mount.endpoints.len()).collect();
    assert_eq!(counts, vec![5, 5, 5, 3]);
}

#[test]
fn endpoints_name_verb_path_and_operation() {
    let bus = bus_data();
    let listed: Vec<(Verb, &str, Operation)> = bus
        .endpoints
        .iter()
        .map(|endpoint| (endpoint.verb, endpoint.path.as_str(), endpoint.operation))
        .collect();
    assert_eq!(
        listed,
        vec![
            (Verb::Post, "/", Operation::Submit),
            (Verb::Get, "/", Operation::ListKeys),
            (Verb::Get, "/all", Operation::ListAll),
            (Verb::Get, "/one/<id>", Operation::Fetch),
            (Verb::Delete, "/one/<id>", Operation::Remove),
        ]
    );
    assert_eq!(place_data().endpoints, bus.endpoints);
    let index = busses_data();
    assert!(index.endpoints.iter().all(|endpoint| endpoint.operation != Operation::Submit));
    let routes = route_data();
    assert_eq!(routes.endpoints[4].verb, Verb::Delete);
    assert_eq!(routes.endpoints[4].path, "/");
    assert_eq!(routes.endpoints[4].operation, Operation::Clear);
}

#[test]
fn table_gives_its_rows() {
    let mut table: Table<Coordinates> = Table::new();
    assert!(table.rows().is_empty());
    let here = Coordinates { latitude_bits: 1, longitude_bits: 2 };
    let there = Coordinates { latitude_bits: 3, longitude_bits: 4 };
    table.put("a".to_string(), here);
    table.put("b".to_string(), here);
    table.put("a".to_string(), there);
    let mut rows = table.rows();
    rows.sort_by(|left, right| left.0.cmp(&right.0));
    assert_eq!(rows, vec![("a".to_string(), there), ("b".to_string(), here)]);
    assert_eq!(table.delete("a"), 1);
    assert_eq!(table.rows(), vec![("b".to_string(), here)]);
}
