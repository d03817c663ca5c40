use rs_dbc::extract::{
    cycles_from_matches, default_cycle_from_match, initial_values_from_matches,
    labels_from_matches, names_from_matches, parse_default_cycle_time,
    parse_explicit_cycle_time, parse_initial_values, parse_message_name, parse_message_size,
    parse_message_transmitters, parse_value_descriptions, read_described, read_initial,
    read_labelled, read_sized, read_timed, sizes_from_matches, transmitters_from_matches,
};
use rs_dbc::pattern::group_text;
use std::collections::HashMap;

fn groups(texts: &[Option<&str>]) -> Vec<Option<String>> {
    texts.iter().map(|t| t.map(|s| s.to_string())).collect()
}

fn pair(whole: &str, first: &str, second: &str) -> Vec<Option<String>> {
    groups(&[Some(whole), Some(first), Some(second)])
}

#[test]
fn group_text_gives_the_group_that_took_part() {
    let g = groups(&[Some("ab"), None, Some("b")]);
    assert_eq!(group_text(&g, 0), Some(&"ab".to_string()));
    assert_eq!(group_text(&g, 1), None);
    assert_eq!(group_text(&g, 2), Some(&"b".to_string()));
    assert_eq!(group_text(&g, 3), None);
    assert_eq!(group_text(&Vec::new(), 0), None);
}

#[test]
fn read_labelled_wants_a_number_and_a_text() {
    assert_eq!(read_labelled(&pair("BO_ 5 A:", "5", "A")), Some((5, "A".to_string())));
    assert_eq!(read_labelled(&pair("", "4294967296", "A")), None);
    assert_eq!(read_labelled(&pair("", "x", "A")), None);
    assert_eq!(read_labelled(&groups(&[Some(""), Some("5"), None])), None);
    assert_eq!(read_labelled(&groups(&[Some(""), None, Some("A")])), None);
    assert_eq!(read_labelled(&groups(&[Some(""), Some("5")])), None);
    assert_eq!(read_labelled(&groups(&[])), None);
}

#[test]
fn read_sized_wants_two_numbers() {
    assert_eq!(read_sized(&pair("", "5", "8")), Some((5, 8)));
    assert_eq!(read_sized(&pair("", "5", "18446744073709551615")), Some((5, u64::MAX)));
    assert_eq!(read_sized(&pair("", "5", "18446744073709551616")), None);
    assert_eq!(read_sized(&pair("", "4294967296", "8")), None);
    assert_eq!(read_sized(&groups(&[Some(""), Some("5"), None])), None);
}

#[test]
fn read_timed_wants_two_numbers() {
    assert_eq!(read_timed(&pair("", "5", "100")), Some((5, 100)));
    assert_eq!(read_timed(&pair("", "5", "4294967295")), Some((5, u32::MAX)));
    assert_eq!(read_timed(&pair("", "5", "4294967296")), None);
    assert_eq!(read_timed(&pair("", "", "1")), None);
    assert_eq!(read_timed(&groups(&[Some(""), None, Some("1")])), None);
}

#[test]
fn names_keep_first_place_and_last_name() {
    let found = vec![
        pair("", "300", "A"),
        pair("", "100", "B"),
        pair("", "x", "Skipped"),
        pair("", "300", "C"),
        groups(&[Some(""), Some("7"), None]),
        pair("", "200", "D"),
        pair("", "100", "E"),
    ];
    let names = names_from_matches(&found);
    assert_eq!(
        names,
        vec![(300, "C".to_string()), (100, "E".to_string()), (200, "D".to_string())]
    );
    assert!(names_from_matches(&Vec::new()).is_empty());
}

#[test]
fn sizes_keep_the_last_size() {
    let found = vec![pair("", "1", "8"), pair("", "2", "4"), pair("", "1", "2"), pair("", "3", "x")];
    let sizes = sizes_from_matches(&found);
    assert_eq!(sizes.len(), 2);
    assert_eq!(sizes.get(&1), Some(&2));
    assert_eq!(sizes.get(&2), Some(&4));
    assert_eq!(sizes.get(&3), None);
}

#[test]
fn transmitters_keep_the_last_transmitter() {
    let found = vec![pair("", "1", "A"), pair("", "2", "B"), pair("", "1", "C")];
    let transmitters = transmitters_from_matches(&found);
    assert_eq!(transmitters.len(), 2);
    assert_eq!(transmitters.get(&1), Some(&"C".to_string()));
    assert_eq!(transmitters.get(&2), Some(&"B".to_string()));
}

#[test]
fn cycles_keep_the_last_cycle_time() {
    let found = vec![pair("", "1", "10"), pair("", "1", "20"), pair("", "2", "-1")];
    let cycles = cycles_from_matches(&found);
    assert_eq!(cycles.len(), 1);
    assert_eq!(cycles.get(&1), Some(&20));
}

#[test]
fn default_cycle_is_group_1_of_the_match() {
    assert_eq!(default_cycle_from_match(&Some(groups(&[Some("x 50;"), Some("50")]))), Some(50));
    assert_eq!(default_cycle_from_match(&Some(groups(&[Some("x"), Some("4294967296")]))), None);
    assert_eq!(default_cycle_from_match(&Some(groups(&[Some("x"), None]))), None);
    assert_eq!(default_cycle_from_match(&Some(groups(&[Some("x")]))), None);
    assert_eq!(default_cycle_from_match(&None), None);
}

#[test]
fn read_initial_trims_the_value() {
    let g = groups(&[Some(""), Some("100"), Some("Gear"), Some("  3.5 ")]);
    assert_eq!(read_initial(&g), Some((100, "Gear".to_string(), "3.5".to_string())));
    let g = groups(&[Some(""), Some("100"), Some("Gear"), Some("three")]);
    assert_eq!(read_initial(&g), None);
    let g = groups(&[Some(""), Some("100"), Some("Gear"), Some("1 2")]);
    assert_eq!(read_initial(&g), None);
    let g = groups(&[Some(""), Some("-1"), Some("Gear"), Some("3")]);
    assert_eq!(read_initial(&g), None);
    let g = groups(&[Some(""), Some("1"), Some("Gear"), None]);
    assert_eq!(read_initial(&g), None);
    let g = groups(&[Some(""), Some("1"), Some("Gear")]);
    assert_eq!(read_initial(&g), None);
}

#[test]
fn initial_values_keep_the_last_value() {
    let found = vec![
        groups(&[Some(""), Some("1"), Some("S"), Some("3")]),
        groups(&[Some(""), Some("1"), Some("T"), Some("4")]),
        groups(&[Some(""), Some("1"), Some("S"), Some("bad")]),
        groups(&[Some(""), Some("1"), Some("S"), Some(" 5")]),
        groups(&[Some(""), Some("2"), Some("S"), Some("6")]),
    ];
    let values = initial_values_from_matches(&found);
    assert_eq!(values.get(1, "S"), Some(&"5".to_string()));
    assert_eq!(values.get(1, "T"), Some(&"4".to_string()));
    assert_eq!(values.get(2, "S"), Some(&"6".to_string()));
    assert_eq!(values.get(2, "T"), None);
    assert_eq!(values.get(3, "S"), None);
}

#[test]
fn labels_keep_the_last_label() {
    let found = vec![
        pair("", "0", "Off"),
        pair("", "1", "On"),
        pair("", "x", "Skipped"),
        pair("", "0", "Aus"),
        groups(&[Some(""), Some("2"), None]),
    ];
    let labels = labels_from_matches(&found);
    assert_eq!(labels.len(), 2);
    assert_eq!(labels.get(&0), Some(&"Aus".to_string()));
    assert_eq!(labels.get(&1), Some(&"On".to_string()));
    assert!(labels_from_matches(&Vec::new()).is_empty());
}

#[test]
fn read_described_wants_a_label() {
    let g = groups(&[Some(""), Some("100"), Some("Gear"), Some("0 \"N\"")]);
    let mut labels = HashMap::new();
    labels.insert(0u64, "N".to_string());
    let entry = read_described(&g, labels.clone());
    assert_eq!(entry, Some((100, "Gear".to_string(), labels.clone())));
    assert_eq!(read_described(&g, HashMap::new()), None);
    let g = groups(&[Some(""), Some("x"), Some("Gear"), Some("0 \"N\"")]);
    assert_eq!(read_described(&g, labels.clone()), None);
    let g = groups(&[Some(""), Some("100"), Some("Gear"), None]);
    assert_eq!(read_described(&g, labels.clone()), None);
    let g = groups(&[Some(""), Some("100"), None, Some("0 \"N\"")]);
    assert_eq!(read_described(&g, labels), None);
}

#[test]
fn parse_message_name_finds_the_headers() {
    let names = parse_message_name("BO_ 100 A: 8 X\nBO_  7   B_2:\nBO_ x C:\nBO_ 100 D:");
    assert_eq!(names, vec![(100, "D".to_string()), (7, "B_2".to_string())]);
}

#[test]
fn parse_message_size_finds_the_sizes() {
    let sizes = parse_message_size("BO_ 100 A: 8 X\nBO_ 7 B:\nBO_ 9 C:  64");
    assert_eq!(sizes.len(), 2);
    assert_eq!(sizes.get(&100), Some(&8));
    assert_eq!(sizes.get(&9), Some(&64));
}

#[test]
fn parse_message_transmitters_finds_the_transmitters() {
    let transmitters = parse_message_transmitters("BO_ 100 A: 8 ECU_1\nBO_ 7 B: 8");
    assert_eq!(transmitters.len(), 1);
    assert_eq!(transmitters.get(&100), Some(&"ECU_1".to_string()));
}

#[test]
fn parse_default_cycle_time_finds_the_first_directive() {
    assert_eq!(parse_default_cycle_time("BA_DEF_DEF_ \"GenMsgCycleTime\" 50;"), Some(50));
    assert_eq!(
        parse_default_cycle_time("x\nBA_DEF_DEF_  \"GenMsgCycleTime\"\t7;\nBA_DEF_DEF_ \"GenMsgCycleTime\" 8;"),
        Some(7)
    );
    assert_eq!(parse_default_cycle_time("BA_DEF_DEF_ \"GenMsgCycleTime\" 50"), None);
    assert_eq!(parse_default_cycle_time("BA_DEF_DEF_ \"Other\" 50;"), None);
    assert_eq!(parse_default_cycle_time(""), None);
}

#[test]
fn parse_explicit_cycle_time_finds_the_directives() {
    let cycles = parse_explicit_cycle_time(
        "BA_ \"GenMsgCycleTime\" BO_ 100 20;\nBA_ \"GenMsgCycleTime\" BO_ 200 30;\nBA_  \"GenMsgCycleTime\" BO_ 300 40;",
    );
    assert_eq!(cycles.len(), 2);
    assert_eq!(cycles.get(&100), Some(&20));
    assert_eq!(cycles.get(&200), Some(&30));
}

#[test]
fn parse_initial_values_finds_the_directives() {
    let values = parse_initial_values(
        "BA_ \"GenSigStartValue\" SG_ 100 Gear 3;\nBA_ \"GenSigStartValue\" SG_ 100 Temp -1.5e1 ;",
    );
    assert_eq!(values.get(100, "Gear"), Some(&"3".to_string()));
    assert_eq!(values.get(100, "Temp"), Some(&"-1.5e1".to_string()));
    assert_eq!(values.get(100, "RPM"), None);
}

#[test]
fn parse_value_descriptions_finds_the_tables() {
    let tables = parse_value_descriptions(
        "VAL_ 100 Gear 0 \"Neutral\" 1 \"First gear\" ;\nVAL_ 100 Empty none;\nVAL_ 2 Mode 7 \"Seven\";",
    );
    let gear = tables.get(100, "Gear").unwrap();
    assert_eq!(gear.len(), 2);
    assert_eq!(gear.get(&0), Some(&"Neutral".to_string()));
    assert_eq!(gear.get(&1), Some(&"First gear".to_string()));
    assert!(tables.get(100, "Empty").is_none());
    let mode = tables.get(2, "Mode").unwrap();
    assert_eq!(mode.get(&7), Some(&"Seven".to_string()));
}
