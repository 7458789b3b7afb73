use apk_installer::registry::{
    belongs, chars_of, holds_marker, is_space, parse_device_listing, scan, CharClass,
};
use apk_installer::state::list_devices;
use apk_installer::error::InstallError;

fn strings(items: &[&str]) -> Vec<String> {
    items.iter().map(|s| s.to_string()).collect()
}

#[test]
fn listing_with_one_ready_and_one_unauthorized_device() {
    let ids = parse_device_listing("List of devices attached\nABC123\tdevice\nXYZ999\tunauthorized\n");
    assert_eq!(ids, strings(&["ABC123"]));
}

#[test]
fn empty_listing_has_no_devices() {
    assert_eq!(parse_device_listing(""), Vec::<String>::new());
}

#[test]
fn header_alone_has_no_devices() {
    assert_eq!(parse_device_listing("List of devices attached\n"), Vec::<String>::new());
    assert_eq!(parse_device_listing("List of devices attached"), Vec::<String>::new());
}

#[test]
fn header_is_skipped_even_though_it_holds_the_marker() {
    let ids = parse_device_listing("device header\nA1\tdevice\n");
    assert_eq!(ids, strings(&["A1"]));
}

#[test]
fn first_line_is_always_dropped() {
    let ids = parse_device_listing("A0\tdevice\nA1\tdevice\n");
    assert_eq!(ids, strings(&["A1"]));
}

#[test]
fn last_line_without_line_feed_is_read() {
    let ids = parse_device_listing("List of devices attached\nA1\tdevice\nB2 device");
    assert_eq!(ids, strings(&["A1", "B2"]));
}

#[test]
fn source_order_is_kept() {
    let ids = parse_device_listing("h\nzzz\tdevice\naaa\tdevice\nmmm\toffline\nbbb\tdevice\n");
    assert_eq!(ids, strings(&["zzz", "aaa", "bbb"]));
}

#[test]
fn repeated_lines_are_repeated_in_the_result() {
    let ids = parse_device_listing("h\nA\tdevice\nA\tdevice\n");
    assert_eq!(ids, strings(&["A", "A"]));
}

#[test]
fn distinct_lines_give_distinct_ids() {
    let ids = parse_device_listing("h\nA\tdevice\nB\tdevice\nC\tdevice\n");
    assert_eq!(ids.len(), 3);
    assert_ne!(ids[0], ids[1]);
    assert_ne!(ids[0], ids[2]);
    assert_ne!(ids[1], ids[2]);
}

#[test]
fn blank_and_unready_lines_are_skipped() {
    let ids = parse_device_listing("h\n\n   \nA\toffline\n\nB\tdevice\n\n");
    assert_eq!(ids, strings(&["B"]));
}

#[test]
fn carriage_returns_do_not_reach_the_id() {
    let ids = parse_device_listing("List of devices attached\r\nABC123\tdevice\r\nQ\r\n");
    assert_eq!(ids, strings(&["ABC123"]));
}

#[test]
fn leading_whitespace_is_not_part_of_the_id() {
    let ids = parse_device_listing("h\n  \tABC123   device\n");
    assert_eq!(ids, strings(&["ABC123"]));
}

#[test]
fn marker_inside_the_id_does_not_count() {
    let ids = parse_device_listing("h\nmydevice7\toffline\n");
    assert_eq!(ids, Vec::<String>::new());
}

#[test]
fn offline_device_with_the_marker_in_its_id_is_left_out() {
    let ids = parse_device_listing("List of devices attached\nmydevice1\toffline\nABC123\tdevice\n");
    assert_eq!(ids, strings(&["ABC123"]));
}

#[test]
fn only_the_status_column_is_looked_at() {
    assert_eq!(parse_device_listing("h\nA\toffline device\n"), Vec::<String>::new());
    assert_eq!(parse_device_listing("h\nA\tunauthorized\tdevice:x\n"), Vec::<String>::new());
    assert_eq!(parse_device_listing("h\nA\tdevice product:device\n"), strings(&["A"]));
    assert_eq!(parse_device_listing("h\nmydevice\tdevice\n"), strings(&["mydevice"]));
}

#[test]
fn status_that_holds_the_marker_counts() {
    assert_eq!(parse_device_listing("h\nA\tno-device-yet\n"), strings(&["A"]));
}

#[test]
fn line_without_a_status_column_is_left_out() {
    assert_eq!(parse_device_listing("h\ndevice\n"), Vec::<String>::new());
    assert_eq!(parse_device_listing("h\n  device  \n"), Vec::<String>::new());
}

#[test]
fn there_are_as_many_ids_as_ready_lines() {
    let output = "h\nA\tdevice\nB\toffline\ndevice\nC\tdevice\n\nD\tunauthorized\nE\tdevice\n";
    assert_eq!(parse_device_listing(output), strings(&["A", "C", "E"]));
}

#[test]
fn marker_needs_all_six_letters() {
    assert_eq!(parse_device_listing("h\nA\tdevic\nB\tdevi ce\nC\tDEVICE\n"), Vec::<String>::new());
}

#[test]
fn marker_at_the_very_end_and_start_of_a_line() {
    assert_eq!(parse_device_listing("h\ndevice device"), strings(&["device"]));
    assert_eq!(parse_device_listing("h\nx device"), strings(&["x"]));
    assert_eq!(parse_device_listing("h\nx adevice"), strings(&["x"]));
    assert_eq!(parse_device_listing("h\nx deviceb z"), strings(&["x"]));
}

#[test]
fn unicode_whitespace_separates_tokens() {
    let ids = parse_device_listing("h\n\u{3000}S\u{e9}rie\u{2003}device\n");
    assert_eq!(ids, strings(&["S\u{e9}rie"]));
}

#[test]
fn result_matches_the_line_by_line_reading() {
    let output = "List of devices attached\nemulator-5554\tdevice\n0123456789ABCDEF\tdevice usb:1\n\nR58M\tunauthorized\n";
    let mut expected: Vec<String> = Vec::new();
    for line in output.lines().skip(1) {
        let mut tokens = line.split_whitespace();
        if let (Some(id), Some(status)) = (tokens.next(), tokens.next()) {
            if status.contains("device") {
                expected.push(id.to_string());
            }
        }
    }
    assert_eq!(parse_device_listing(output), expected);
    assert_eq!(expected, strings(&["emulator-5554", "0123456789ABCDEF"]));
}

#[test]
fn whitespace_is_what_the_standard_library_calls_whitespace() {
    let mut code: u32 = 0;
    while code < 0x3100 {
        if let Some(c) = char::from_u32(code) {
            assert_eq!(is_space(c), c.is_whitespace());
        }
        code += 1;
    }
    assert!(!is_space('\u{200B}'));
    assert!(!is_space('\u{FEFF}'));
}

#[test]
fn classes_of_characters() {
    assert!(belongs(CharClass::LineBody, 'a'));
    assert!(belongs(CharClass::LineBody, '\r'));
    assert!(!belongs(CharClass::LineBody, '\n'));
    assert!(belongs(CharClass::Space, '\t'));
    assert!(!belongs(CharClass::Space, 'x'));
    assert!(belongs(CharClass::Word, 'x'));
    assert!(!belongs(CharClass::Word, ' '));
}

#[test]
fn chars_of_gives_every_character() {
    assert_eq!(chars_of("a\u{e9}\n"), vec!['a', '\u{e9}', '\n']);
    assert_eq!(chars_of(""), Vec::<char>::new());
}

#[test]
fn scan_stops_at_the_first_character_outside_the_class() {
    let chars = chars_of("ab  cd\nef");
    assert_eq!(scan(&chars, 0, 9, CharClass::LineBody), 6);
    assert_eq!(scan(&chars, 0, 6, CharClass::Word), 2);
    assert_eq!(scan(&chars, 2, 6, CharClass::Space), 4);
    assert_eq!(scan(&chars, 4, 6, CharClass::Word), 6);
    assert_eq!(scan(&chars, 7, 9, CharClass::LineBody), 9);
    assert_eq!(scan(&chars, 3, 3, CharClass::Space), 3);
    assert_eq!(scan(&chars, 0, 1, CharClass::Word), 1);
}

#[test]
fn holds_marker_looks_only_inside_the_range() {
    let chars = chars_of("a device b");
    assert!(holds_marker(&chars, 0, 10));
    assert!(holds_marker(&chars, 2, 8));
    assert!(!holds_marker(&chars, 3, 10));
    assert!(!holds_marker(&chars, 0, 7));
    assert!(!holds_marker(&chars, 4, 4));
}

#[test]
fn list_devices_reads_the_output() {
    let result = list_devices(Ok("List of devices attached\nABC123\tdevice\n".to_string()));
    assert_eq!(result, Ok(strings(&["ABC123"])));
}

#[test]
fn list_devices_reports_a_tool_that_did_not_start() {
    let result = list_devices(Err("No such file or directory".to_string()));
    assert_eq!(result, Err(InstallError::LaunchFailure("No such file or directory".to_string())));
}
