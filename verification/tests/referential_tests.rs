use paris_transit::objects::{LineReference, StopReference};
use paris_transit::referential::{line_key_of, line_referential, stop_point_key_of, stop_referential};

fn line(id: &str, name: &str) -> LineReference {
    LineReference {
        id: id.to_string(),
        name: name.to_string(),
        short_name: name.to_string(),
        mode: "metro".to_string(),
        sub_mode: "".to_string(),
        operator_name: "RATP".to_string(),
        network_name: "".to_string(),
        background_color: "FFCD00".to_string(),
        text_color: "000000".to_string(),
    }
}

#[test]
fn line_keys() {
    assert_eq!(line_key_of("C01371"), "STIF:Line::C01371:");
    assert_eq!(line_key_of(""), "STIF:Line:::");
}

#[test]
fn stop_point_keys() {
    assert_eq!(stop_point_key_of("22101"), "STIF:StopPoint:Q:22101:");
}

#[test]
fn line_referential_keys_by_siri_name() {
    let r = line_referential(&vec![line("C01371", "1"), line("C01372", "2")]);
    assert_eq!(r.len(), 2);
    assert_eq!(r.get("STIF:Line::C01371:").unwrap().name, "1");
    assert_eq!(r.get("STIF:Line::C01372:").unwrap().name, "2");
    assert!(r.get("C01371").is_none());
}

#[test]
fn later_line_record_wins() {
    let r = line_referential(&vec![line("C01371", "old"), line("C01372", "2"), line("C01371", "new")]);
    assert_eq!(r.len(), 2);
    assert_eq!(r.get("STIF:Line::C01371:").unwrap().name, "new");
}

#[test]
fn stop_referential_keys_and_last_wins() {
    let r = stop_referential(&vec![
        StopReference { id: "1".to_string(), name: "A".to_string() },
        StopReference { id: "2".to_string(), name: "B".to_string() },
        StopReference { id: "1".to_string(), name: "C".to_string() },
    ]);
    assert_eq!(r.len(), 2);
    assert_eq!(r.get("STIF:StopPoint:Q:1:").unwrap().name, "C");
    assert_eq!(r.get("STIF:StopPoint:Q:2:").unwrap().name, "B");
}

#[test]
fn empty_referentials() {
    assert_eq!(line_referential(&vec![]).len(), 0);
    assert_eq!(stop_referential(&vec![]).len(), 0);
}
