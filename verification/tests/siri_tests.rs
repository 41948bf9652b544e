use paris_transit::siri::{
    vehicle_journeys, JourneyFrame, ServiceDelivery, SiriError, SiriJourney, TimetableDelivery,
};

fn journey(line: &str) -> SiriJourney {
    SiriJourney {
        line_ref: line.to_string(),
        origin_names: vec![],
        destination_names: vec![],
        estimated_calls: vec![],
    }
}

fn frame(lines: &[&str]) -> JourneyFrame {
    JourneyFrame { estimated_vehicle_journey: lines.iter().map(|l| journey(l)).collect() }
}

#[test]
fn missing_service_delivery_is_an_error() {
    assert!(matches!(vehicle_journeys(None), Err(SiriError::MissingServiceDelivery)));
}

#[test]
fn empty_service_delivery_has_no_journeys() {
    let d = ServiceDelivery { estimated_timetable_delivery: vec![] };
    assert_eq!(vehicle_journeys(Some(d)).unwrap().len(), 0);
}

#[test]
fn journeys_come_delivery_after_delivery_and_frame_after_frame() {
    let d = ServiceDelivery {
        estimated_timetable_delivery: vec![
            TimetableDelivery { estimated_journey_version_frame: vec![frame(&["a", "b"]), frame(&[])] },
            TimetableDelivery { estimated_journey_version_frame: vec![] },
            TimetableDelivery { estimated_journey_version_frame: vec![frame(&["c"]), frame(&["d", "e"])] },
        ],
    };
    let lines: Vec<String> =
        vehicle_journeys(Some(d)).unwrap().into_iter().map(|j| j.line_ref).collect();
    assert_eq!(lines, vec!["a", "b", "c", "d", "e"]);
}

use paris_transit::siri::DateTime;

#[test]
fn parse_utc_time() {
    let t = DateTime::parse("2024-01-15T12:00:00Z".to_string()).unwrap();
    assert_eq!(t.seconds, 1705320000);
    assert_eq!(t.nanos, 0);
    assert_eq!(t.text, "2024-01-15T12:00:00Z");
}

#[test]
fn parse_time_with_offset_and_fraction() {
    let t = DateTime::parse("2024-01-15T13:00:00.250+01:00".to_string()).unwrap();
    assert_eq!(t.seconds, 1705320000);
    assert_eq!(t.nanos, 250_000_000);
}

#[test]
fn parse_invalid_time() {
    assert!(DateTime::parse("yesterday".to_string()).is_none());
}

#[test]
fn time_from_instant() {
    let t = DateTime::from_instant("x".to_string(), Some((5, 6))).unwrap();
    assert_eq!((t.seconds, t.nanos, t.text.as_str()), (5, 6, "x"));
    assert!(DateTime::from_instant("x".to_string(), None).is_none());
}
