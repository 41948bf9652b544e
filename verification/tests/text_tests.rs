use paris_transit::text::{join, replace_all};

fn strings(v: &[&str]) -> Vec<String> {
    v.iter().map(|s| s.to_string()).collect()
}

#[test]
fn join_two_names() {
    assert_eq!(join(&strings(&["Gare de Lyon", "Châtelet"]), ", "), "Gare de Lyon, Châtelet");
}

#[test]
fn join_no_names() {
    assert_eq!(join(&strings(&[]), ", "), "");
}

#[test]
fn join_one_name() {
    assert_eq!(join(&strings(&["Nation"]), ", "), "Nation");
}

#[test]
fn join_three_names() {
    assert_eq!(join(&strings(&["a", "", "c"]), "-"), "a--c");
}

#[test]
fn replace_bp_stop_point() {
    assert_eq!(
        replace_all("STIF:StopPoint:BP:22101:", "STIF:StopPoint:BP:", "STIF:StopPoint:Q:"),
        "STIF:StopPoint:Q:22101:"
    );
}

#[test]
fn replace_without_occurrence() {
    assert_eq!(
        replace_all("STIF:StopPoint:Q:22101:", "STIF:StopPoint:BP:", "STIF:StopPoint:Q:"),
        "STIF:StopPoint:Q:22101:"
    );
}

#[test]
fn replace_every_occurrence_left_to_right() {
    assert_eq!(replace_all("abab", "ab", "x"), "xx");
    assert_eq!(replace_all("aaa", "aa", "b"), "ba");
    assert_eq!(replace_all("éaé", "a", "àà"), "éààé");
}

#[test]
fn replace_agrees_with_std() {
    for (s, from, to) in [
        ("", "x", "y"),
        ("xxxx", "xx", "y"),
        ("hello world", "o", "0"),
        ("abcabcab", "abc", ""),
        ("no match here", "zz", "q"),
    ] {
        assert_eq!(replace_all(s, from, to), s.replace(from, to));
    }
}
