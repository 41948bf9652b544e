use paris_transit::objects::{EstimatedCall, StopReference, VehicleJourney};
use paris_transit::order::calls_orderable;
use paris_transit::referential::stop_referential;
use paris_transit::siri::{DateTime, SiriCall, SiriJourney};
use std::cmp::Ordering;

fn t(seconds: i64) -> Option<DateTime> {
    Some(DateTime { text: format!("t{seconds}"), seconds, nanos: 0 })
}

fn call(stop: &str, ea: Option<DateTime>, aa: Option<DateTime>, ed: Option<DateTime>, ad: Option<DateTime>) -> EstimatedCall {
    EstimatedCall {
        expected_arrival_time: ea,
        aimed_arrival_time: aa,
        expected_departure_time: ed,
        aimed_departure_time: ad,
        stop_point_ref: stop.to_string(),
        stop_name: None,
    }
}

fn siri_call(stop: &str, ea: Option<DateTime>, ad: Option<DateTime>) -> SiriCall {
    SiriCall {
        expected_arrival_time: ea,
        aimed_arrival_time: None,
        expected_departure_time: None,
        aimed_departure_time: ad,
        stop_point_ref: stop.to_string(),
    }
}

#[test]
fn reference_time_prefers_expected_arrival() {
    let c = call("s", t(4), t(3), t(2), t(1));
    assert_eq!(c.reference_time().unwrap().seconds, 4);
}

#[test]
fn reference_time_then_expected_departure_then_aimed() {
    assert_eq!(call("s", None, t(3), t(2), t(1)).reference_time().unwrap().seconds, 2);
    assert_eq!(call("s", None, t(3), None, t(1)).reference_time().unwrap().seconds, 3);
    assert_eq!(call("s", None, None, None, t(1)).reference_time().unwrap().seconds, 1);
    assert!(call("s", None, None, None, None).reference_time().is_none());
}

#[test]
fn calls_compare_by_reference_time() {
    let a = call("a", t(10), None, None, None);
    let b = call("b", None, None, None, t(20));
    let n = call("n", None, None, None, None);
    assert_eq!(a.cmp(&b), Ordering::Less);
    assert_eq!(b.cmp(&a), Ordering::Greater);
    assert_eq!(a.cmp(&a), Ordering::Equal);
    assert_eq!(a.cmp(&n), Ordering::Equal);
    assert_eq!(n.cmp(&b), Ordering::Equal);
    assert_eq!(a.partial_cmp(&b), Some(Ordering::Less));
}

#[test]
fn nanoseconds_break_ties_of_seconds() {
    let a = call("a", Some(DateTime { text: "x".to_string(), seconds: 5, nanos: 1 }), None, None, None);
    let b = call("b", Some(DateTime { text: "y".to_string(), seconds: 5, nanos: 2 }), None, None, None);
    assert_eq!(a.cmp(&b), Ordering::Less);
}

#[test]
fn calls_are_equal_when_reference_times_are() {
    let a = call("a", t(10), None, None, None);
    let b = call("b", None, None, Some(DateTime { text: "other text".to_string(), seconds: 10, nanos: 0 }), None);
    let n = call("n", None, None, None, None);
    assert!(a == b);
    assert!(n == call("m", None, None, None, None));
    assert!(a != n);
}

#[test]
fn orderable_calls() {
    assert!(calls_orderable(&vec![call("a", t(2), None, None, None), call("b", t(1), None, None, None)]));
    assert!(calls_orderable(&vec![call("a", None, None, None, None), call("b", t(1), None, None, None), call("c", t(1), None, None, None)]));
    assert!(!calls_orderable(&vec![call("a", None, None, None, None), call("b", t(1), None, None, None), call("c", t(2), None, None, None)]));
    assert!(calls_orderable(&vec![]));
}

#[test]
fn vehicle_journey_from_siri_sorts_calls_stably() {
    let s = SiriJourney {
        line_ref: "STIF:Line::C01371:".to_string(),
        origin_names: vec!["La Défense".to_string()],
        destination_names: vec!["Château de Vincennes".to_string(), "Nation".to_string()],
        estimated_calls: vec![
            siri_call("s3", t(30), None),
            siri_call("s1", None, t(10)),
            siri_call("s2a", t(20), None),
            siri_call("s2b", None, t(20)),
        ],
    };
    let vj = VehicleJourney::from_siri(&s);
    assert_eq!(vj.origin, "La Défense");
    assert_eq!(vj.destination, "Château de Vincennes, Nation");
    let stops: Vec<&str> = vj.estimated_calls.iter().map(|c| c.stop_point_ref.as_str()).collect();
    assert_eq!(stops, vec!["s1", "s2a", "s2b", "s3"]);
    assert!(vj.estimated_calls.iter().all(|c| c.stop_name.is_none()));
}

#[test]
fn patch_name_finds_q_and_bp_stop_points() {
    let stops = stop_referential(&vec![StopReference { id: "22101".to_string(), name: "Nation".to_string() }]);
    let mut q = call("STIF:StopPoint:Q:22101:", t(1), None, None, None);
    q.patch_name(&stops);
    assert_eq!(q.stop_name.as_deref(), Some("Nation"));
    let mut bp = call("STIF:StopPoint:BP:22101:", t(1), None, None, None);
    bp.patch_name(&stops);
    assert_eq!(bp.stop_name.as_deref(), Some("Nation"));
    assert_eq!(bp.stop_point_ref, "STIF:StopPoint:BP:22101:");
    let mut unknown = call("STIF:StopPoint:Q:1:", t(1), None, None, None);
    unknown.patch_name(&stops);
    assert!(unknown.stop_name.is_none());
}

#[test]
fn patch_name_twice_is_patch_name_once() {
    let stops = stop_referential(&vec![StopReference { id: "7".to_string(), name: "Bastille".to_string() }]);
    let mut c = call("STIF:StopPoint:Q:7:", None, None, None, None);
    c.patch_name(&stops);
    c.patch_name(&stops);
    assert_eq!(c.stop_name.as_deref(), Some("Bastille"));
}

#[test]
fn vehicle_journey_patch_name_patches_every_call() {
    let stops = stop_referential(&vec![
        StopReference { id: "1".to_string(), name: "A".to_string() },
        StopReference { id: "2".to_string(), name: "B".to_string() },
    ]);
    let vj = VehicleJourney {
        origin: "o".to_string(),
        destination: "d".to_string(),
        estimated_calls: vec![
            call("STIF:StopPoint:Q:1:", None, None, None, None),
            call("STIF:StopPoint:Q:3:", None, None, None, None),
            call("STIF:StopPoint:BP:2:", None, None, None, None),
        ],
    };
    let vj = vj.patch_name(&stops);
    let names: Vec<Option<String>> = vj.estimated_calls.iter().map(|c| c.stop_name.clone()).collect();
    assert_eq!(names, vec![Some("A".to_string()), None, Some("B".to_string())]);
    assert_eq!(vj.origin, "o");
}

#[test]
fn sorting_the_same_calls_twice_gives_the_same_order() {
    let s = SiriJourney {
        line_ref: "l".to_string(),
        origin_names: vec![],
        destination_names: vec![],
        estimated_calls: vec![
            siri_call("c", t(3), None),
            siri_call("a", t(1), None),
            siri_call("b1", t(2), None),
            siri_call("b2", None, t(2)),
        ],
    };
    let once: Vec<String> = VehicleJourney::from_siri(&s).estimated_calls.into_iter().map(|c| c.stop_point_ref).collect();
    let twice: Vec<String> = VehicleJourney::from_siri(&s).estimated_calls.into_iter().map(|c| c.stop_point_ref).collect();
    assert_eq!(once, twice);
    assert_eq!(once, vec!["a", "b1", "b2", "c"]);
}

#[test]
fn calls_without_time_keep_their_place_among_equal_times() {
    let s = SiriJourney {
        line_ref: "l".to_string(),
        origin_names: vec![],
        destination_names: vec![],
        estimated_calls: vec![
            siri_call("x", t(5), None),
            siri_call("none", None, None),
            siri_call("y", t(5), None),
        ],
    };
    let order: Vec<String> = VehicleJourney::from_siri(&s).estimated_calls.into_iter().map(|c| c.stop_point_ref).collect();
    assert_eq!(order, vec!["x", "none", "y"]);
}
