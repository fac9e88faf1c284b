use minerals::elements::{major_elements_to_text, parse_major_elements, ElementMap};
use minerals::decimal::MAX_HUNDREDTHS;

#[test]
fn round_trip_mini_format() {
    let m = parse_major_elements("Si=46.70\nO=53.30").unwrap();
    assert_eq!(m.len(), 2);
    assert_eq!(m.get("Si"), Some(4670));
    assert_eq!(m.get("O"), Some(5330));
    let text = major_elements_to_text(&m);
    let again = parse_major_elements(&text).unwrap();
    assert_eq!(again.len(), 2);
    assert_eq!(again.get("Si"), Some(4670));
    assert_eq!(again.get("O"), Some(5330));
    // and the re-serialization is stable
    assert_eq!(major_elements_to_text(&again), text);
}

#[test]
fn round_trip_independent_of_separator() {
    let eq = parse_major_elements("Si=46.70\nO=53.30").unwrap();
    let colon = parse_major_elements("Si:46.70\nO:53.30").unwrap();
    assert_eq!(eq.get("Si"), colon.get("Si"));
    assert_eq!(eq.get("O"), colon.get("O"));
    let text = major_elements_to_text(&colon);
    assert_eq!(text, "Si=46.70\nO=53.30");
}

#[test]
fn blank_lines_are_ignored() {
    let m = parse_major_elements("\n  \nFe=12.5\n\n").unwrap();
    assert_eq!(m.len(), 1);
    assert_eq!(m.get("Fe"), Some(1250));
}

#[test]
fn malformed_line_rejects_whole_input() {
    let err = parse_major_elements("Si=46.7\nO=").unwrap_err();
    assert_eq!(err, "major_elements_pct lines must be like 'Si=46.7'");
}

#[test]
fn bad_percentage_names_the_key() {
    let err = parse_major_elements("Si=abc").unwrap_err();
    assert_eq!(err, "invalid percentage for 'Si'");
}

#[test]
fn later_line_replaces_earlier_key() {
    let m = parse_major_elements("Si=1\nSi=2").unwrap();
    assert_eq!(m.len(), 1);
    assert_eq!(m.get("Si"), Some(200));
}

#[test]
fn lone_key_without_separator_is_rejected() {
    let err = parse_major_elements("Si").unwrap_err();
    assert_eq!(err, "major_elements_pct lines must be like 'Si=46.7'");
}

#[test]
fn fraction_digits_beyond_two_are_dropped() {
    let m = parse_major_elements("X=1.239").unwrap();
    assert_eq!(m.get("X"), Some(123));
}

#[test]
fn bare_fraction_and_trailing_dot_parse() {
    let m = parse_major_elements("A=.5\nB=5.").unwrap();
    assert_eq!(m.get("A"), Some(50));
    assert_eq!(m.get("B"), Some(500));
}

#[test]
fn negative_values_round_trip() {
    let m = parse_major_elements("T=-3.25").unwrap();
    assert_eq!(m.get("T"), Some(-325));
    assert_eq!(major_elements_to_text(&m), "T=-3.25");
}

#[test]
fn insert_builds_the_same_text_as_parsing() {
    let mut m = ElementMap::new();
    assert!(m.insert("Si".to_string(), 4670));
    assert!(m.insert("O".to_string(), 5330));
    assert_eq!(major_elements_to_text(&m), "Si=46.70\nO=53.30");
}

#[test]
fn insert_rejects_bad_keys_and_out_of_range_values() {
    let mut m = ElementMap::new();
    assert!(!m.insert("".to_string(), 100));
    assert!(!m.insert("a=b".to_string(), 100));
    assert!(!m.insert("a\nb".to_string(), 100));
    assert!(!m.insert(" padded ".to_string(), 100));
    assert!(!m.insert("ok".to_string(), MAX_HUNDREDTHS + 1));
    assert_eq!(m.len(), 0);
    assert!(m.insert("ok".to_string(), MAX_HUNDREDTHS));
    assert_eq!(m.len(), 1);
}

#[test]
fn collect_suggested_elements_trims_and_skips() {
    let pairs = vec![
        (" Si ".to_string(), 4670),
        ("".to_string(), 100),
        ("O".to_string(), 5330),
    ];
    let m = minerals::elements::collect_suggested_elements(&pairs);
    assert_eq!(m.len(), 2);
    assert_eq!(m.get("Si"), Some(4670));
    assert_eq!(m.get("O"), Some(5330));
}
