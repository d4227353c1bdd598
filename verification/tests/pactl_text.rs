use multisink::pactl::{find_combined_module_id, loaded_module_id, parse_sink_list, sink_input_ids, COMBINED_SINK_NAME};
use multisink::text::{decimal_text, join_with, trim_text};

const LISTING: &str = "Module #0\n\tName: module-device-restore\n\tArgument: \n\tUsage counter: n/a\n\nModule #27\n\tName: module-combine-sink\n\tArgument: sink_name=multisink_combined slaves=a,b\n\tUsage counter: n/a\n\nModule #28\n\tName: module-null-sink\n\tArgument: \n";

#[test]
fn finds_our_module_in_listing() {
    assert_eq!(find_combined_module_id(LISTING), Some("27".to_string()));
}

#[test]
fn finds_our_module_when_it_is_last() {
    let text = "Module #3\nName: module-null-sink\nArgument:\nModule #41\n  Name: module-combine-sink  \n  Argument: slaves=x sink_name=multisink_combined\n";
    assert_eq!(find_combined_module_id(text), Some("41".to_string()));
}

#[test]
fn finds_first_of_several_modules() {
    let text = "Module #5\nName: module-combine-sink\nArgument: sink_name=multisink_combined\nModule #6\nName: module-combine-sink\nArgument: sink_name=multisink_combined\n";
    assert_eq!(find_combined_module_id(text), Some("5".to_string()));
}

#[test]
fn ignores_other_combine_sinks() {
    let text = "Module #5\nName: module-combine-sink\nArgument: sink_name=other\nModule #6\nName: module-null-sink\nArgument: sink_name=multisink_combined\n";
    assert_eq!(find_combined_module_id(text), None);
}

#[test]
fn ignores_fields_before_first_module() {
    let text = "Name: module-combine-sink\nArgument: sink_name=multisink_combined\n";
    assert_eq!(find_combined_module_id(text), None);
    assert_eq!(find_combined_module_id(""), None);
}

#[test]
fn block_without_argument_is_not_ours() {
    let text = "Module #9\nName: module-combine-sink\n";
    assert_eq!(find_combined_module_id(text), None);
}

#[test]
fn repeated_header_prefix_is_stripped() {
    let text = "Module #Module #12\r\nName: module-combine-sink\r\nArgument: sink_name=multisink_combined\r\n";
    assert_eq!(find_combined_module_id(text), Some("12".to_string()));
}

#[test]
fn later_name_line_wins_within_a_block() {
    let text = "Module #7\nName: module-combine-sink\nName: module-null-sink\nArgument: sink_name=multisink_combined\n";
    assert_eq!(find_combined_module_id(text), None);
}

#[test]
fn reads_sink_input_ids() {
    let text = "12\t5\tprotocol-native.c\tfloat32le 2ch 44100Hz\n\n   \n  34 1 x\r\n77";
    assert_eq!(sink_input_ids(text), vec!["12".to_string(), "34".to_string(), "77".to_string()]);
    assert_eq!(sink_input_ids(""), Vec::<String>::new());
}

#[test]
fn ids_are_words_without_whitespace() {
    let ids = sink_input_ids("a\u{3000}b c\n\u{2003}d\te\n");
    assert_eq!(ids, vec!["a".to_string(), "d".to_string()]);
    for id in &ids {
        assert!(!id.is_empty());
        assert!(!id.chars().any(char::is_whitespace));
    }
}

#[test]
fn module_id_is_trimmed_output() {
    assert_eq!(loaded_module_id("  536870913\n"), "536870913");
    assert_eq!(loaded_module_id(" \n\t"), "");
}

#[test]
fn trim_matches_std() {
    for s in ["", "  ", " a b ", "\u{a0}x\u{2028}", "x", "\r\nline\r\n"] {
        assert_eq!(trim_text(s), s.trim());
    }
}

#[test]
fn decimal_matches_display() {
    for n in [0u32, 7, 10, 99, 100, 4096, 65535, u32::MAX] {
        assert_eq!(decimal_text(n), n.to_string());
    }
}

#[test]
fn join_matches_std() {
    let v = vec!["a".to_string(), "bb".to_string(), "c".to_string()];
    assert_eq!(join_with(&v, ","), "a,bb,c");
    assert_eq!(join_with(&v[..1].to_vec(), ","), "a");
    assert_eq!(join_with(&Vec::new(), ", "), "");
}

#[test]
fn combined_name_is_fixed() {
    assert_eq!(COMBINED_SINK_NAME, "multisink_combined");
}

#[test]
fn reads_short_sink_listing() {
    let text = "57\talsa_output.pci-0000_00_1f.3.analog-stereo\tmodule-alsa-card.c\ts16le 2ch 44100Hz\tSUSPENDED\n\n  58\tbluez_output.AA_BB.1\tmodule-bluez5-device.c\ts16le 2ch 48000Hz\tRUNNING\r\n4294967295\tlast";
    let v = parse_sink_list(text).unwrap();
    assert_eq!(v.len(), 3);
    assert_eq!((v[0].index, v[0].name.as_str()), (57, "alsa_output.pci-0000_00_1f.3.analog-stereo"));
    assert_eq!((v[1].index, v[1].name.as_str()), (58, "bluez_output.AA_BB.1"));
    assert_eq!((v[2].index, v[2].name.as_str()), (u32::MAX, "last"));
    assert_eq!(parse_sink_list("").unwrap().len(), 0);
}

#[test]
fn rejects_lines_that_are_not_sinks() {
    assert_eq!(parse_sink_list("57 no tab\n").unwrap_err(), "cannot read sink list line: 57 no tab");
    assert_eq!(parse_sink_list("x1\tname\n").unwrap_err(), "cannot read sink list line: x1\tname");
    assert_eq!(parse_sink_list("4294967296\tbig\n").unwrap_err(), "cannot read sink list line: 4294967296\tbig");
    assert_eq!(parse_sink_list("\tname\n").unwrap_err(), "cannot read sink list line: name");
    assert_eq!(parse_sink_list("3\t\tdriver\n1\tok\n").unwrap_err(), "cannot read sink list line: 3\t\tdriver");
    // the first unreadable line is reported
    assert_eq!(parse_sink_list("1\ta\nbad one\nbad two\n").unwrap_err(), "cannot read sink list line: bad one");
}
