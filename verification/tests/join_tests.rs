use paris_transit::actors::DataStore;
use paris_transit::join::join_journeys;
use paris_transit::objects::{LineReference, StopReference};
use paris_transit::referential::{line_referential, stop_referential};
use paris_transit::siri::{DateTime, SiriCall, SiriJourney};
use std::sync::Arc;

fn line(id: &str, name: &str) -> LineReference {
    LineReference {
        id: id.to_string(),
        name: name.to_string(),
        short_name: name.to_string(),
        mode: "metro".to_string(),
        sub_mode: "".to_string(),
        operator_name: "".to_string(),
        network_name: "".to_string(),
        background_color: "".to_string(),
        text_color: "".to_string(),
    }
}

fn at(seconds: i64) -> Option<DateTime> {
    Some(DateTime { text: seconds.to_string(), seconds, nanos: 0 })
}

fn journey(line_ref: &str, origin: &str, calls: &[(&str, i64)]) -> SiriJourney {
    SiriJourney {
        line_ref: line_ref.to_string(),
        origin_names: vec![origin.to_string()],
        destination_names: vec![],
        estimated_calls: calls
            .iter()
            .map(|(stop, s)| SiriCall {
                expected_arrival_time: at(*s),
                aimed_arrival_time: None,
                expected_departure_time: None,
                aimed_departure_time: None,
                stop_point_ref: stop.to_string(),
            })
            .collect(),
    }
}

#[test]
fn journeys_are_grouped_by_line_in_order() {
    let refs = line_referential(&vec![line("C1", "1"), line("C2", "2")]);
    let vjs = vec![
        journey("STIF:Line::C2:", "first on 2", &[]),
        journey("STIF:Line::C1:", "first on 1", &[]),
        journey("STIF:Line::C9:", "unknown line", &[]),
        journey("STIF:Line::C2:", "second on 2", &[]),
    ];
    let data = join_journeys(&refs, None, &vjs);
    assert_eq!(data.lines.len(), 2);
    assert_eq!(data.lines[0].reference.id, "C2");
    assert_eq!(data.lines[0].reference.name, "2");
    let origins: Vec<&str> = data.lines[0].vjs.iter().map(|v| v.origin.as_str()).collect();
    assert_eq!(origins, vec!["first on 2", "second on 2"]);
    assert_eq!(data.lines[1].reference.id, "C1");
    assert_eq!(data.lines[1].vjs.len(), 1);
    assert_ne!(data.lines[0].reference.id, data.lines[1].reference.id);
}

#[test]
fn unknown_lines_give_no_data() {
    let refs = line_referential(&vec![line("C1", "1")]);
    let data = join_journeys(&refs, None, &vec![journey("STIF:Line::C2:", "o", &[])]);
    assert_eq!(data.lines.len(), 0);
    let data = join_journeys(&refs, None, &vec![]);
    assert_eq!(data.lines.len(), 0);
}

#[test]
fn two_referential_names_with_one_id_make_one_line() {
    // the first journey's reference is the line's reference
    let mut a = line("C1", "from key A");
    a.id = "C1".to_string();
    let refs = line_referential(&vec![a]);
    let data = join_journeys(&refs, None, &vec![journey("STIF:Line::C1:", "x", &[]), journey("STIF:Line::C1:", "y", &[])]);
    assert_eq!(data.lines.len(), 1);
    assert_eq!(data.lines[0].vjs.len(), 2);
    assert_eq!(data.lines[0].reference.name, "from key A");
}

#[test]
fn data_store_joins_with_stop_names_and_keeps_the_latest() {
    let refs = Arc::new(line_referential(&vec![line("C1", "1")]));
    let stops = Arc::new(stop_referential(&vec![StopReference { id: "5".to_string(), name: "Opéra".to_string() }]));
    let mut store = DataStore::new(refs, stops);
    assert!(store.current_pt_data().is_none());
    let vjs = vec![journey("STIF:Line::C1:", "o", &[("STIF:StopPoint:BP:5:", 20), ("STIF:StopPoint:Q:6:", 10)])];
    let sent = store.handle_siri_update(&vjs);
    let current = store.current_pt_data().unwrap();
    assert!(Arc::ptr_eq(&sent, &current));
    let calls = &current.lines[0].vjs[0].estimated_calls;
    assert_eq!(calls[0].stop_point_ref, "STIF:StopPoint:Q:6:");
    assert_eq!(calls[0].stop_name, None);
    assert_eq!(calls[1].stop_name.as_deref(), Some("Opéra"));
}

#[test]
fn a_second_update_replaces_the_first() {
    let refs = Arc::new(line_referential(&vec![line("C1", "1"), line("C2", "2")]));
    let stops = Arc::new(stop_referential(&vec![]));
    let mut store = DataStore::new(refs, stops);
    store.handle_siri_update(&vec![journey("STIF:Line::C1:", "o", &[])]);
    store.handle_siri_update(&vec![journey("STIF:Line::C2:", "o", &[])]);
    let current = store.current_pt_data().unwrap();
    assert_eq!(current.lines.len(), 1);
    assert_eq!(current.lines[0].reference.id, "C2");
}

#[test]
fn joined_calls_are_sorted() {
    let refs = line_referential(&vec![line("C1", "1")]);
    let data = join_journeys(&refs, None, &vec![journey("STIF:Line::C1:", "o", &[("c", 3), ("a", 1), ("b", 2)])]);
    let stops: Vec<&str> = data.lines[0].vjs[0].estimated_calls.iter().map(|c| c.stop_point_ref.as_str()).collect();
    assert_eq!(stops, vec!["a", "b", "c"]);
}
