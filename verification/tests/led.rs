use std::collections::HashMap;

use conductor_tools::led::{
    answer_is_quit, answer_is_yes, build_clear_report, build_led_report, finder_answer_is_yes,
    finder_clear_report, finder_report, finder_tries_offset, format_discovered_mapping, icon_rgba,
    led_address_strategies, legacy_menu_action, pad_press, pad_test_addresses, wait_step,
    LegacyMenuAction, WaitStep, LED_REPORT_ID, LED_REPORT_LEN, MIDI_CLIENT_NAME,
};

#[test]
fn build_led_report_keeps_high_address_bytes() {
    let addr = 0x4Bu8;
    let report = build_led_report(addr);
    assert_eq!(report.len(), LED_REPORT_LEN, "got len {}", report.len());
    assert_eq!(report[addr as usize], 255, "R byte must survive to the wire");
    assert_eq!(report[addr as usize + 1], 0, "G byte must survive");
    assert_eq!(report[addr as usize + 2], 0, "B byte must survive");
    assert_eq!(report[0], LED_REPORT_ID);
}

#[test]
fn build_led_report_keeps_low_address_bytes() {
    let report = build_led_report(0x1E);
    assert_eq!(report.len(), LED_REPORT_LEN);
    assert_eq!(report[0x1E], 255);
    assert_eq!(report[0x1F], 0);
    assert_eq!(report[0x20], 0);
}

#[test]
fn build_clear_report_is_full_length_and_off() {
    let report = build_clear_report();
    assert_eq!(report.len(), LED_REPORT_LEN);
    assert_eq!(report[0], LED_REPORT_ID);
    assert!(report[1..].iter().all(|&b| b == 0), "every LED byte must be off in the clear report");
}

#[test]
fn discovered_mapping_reports_the_actual_led_address() {
    let mut results: HashMap<u8, u8> = HashMap::new();
    results.insert(60, 0x42);
    results.insert(36, 0x1E);
    let lines = format_discovered_mapping(&results);
    assert_eq!(lines.len(), 2);
    assert_eq!(lines[0], "MIDI Note 36 → LED address 0x1E");
    assert_eq!(lines[1], "MIDI Note 60 → LED address 0x42");
    assert!(lines.iter().all(|l| l.contains("0x")));
    assert!(!lines.iter().any(|l| l.contains("(found)")));
}

#[test]
fn discovered_mapping_empty_is_empty() {
    let results: HashMap<u8, u8> = HashMap::new();
    assert!(format_discovered_mapping(&results).is_empty());
}

#[test]
fn every_probed_address_gets_a_full_report() {
    for (addr, desc) in pad_test_addresses() {
        let report = build_led_report(addr);
        assert_eq!(report.len(), LED_REPORT_LEN, "{desc}");
        assert_eq!(report[addr as usize], 255, "{desc}");
    }
}

#[test]
fn midi_client_name_matches_underscored_bin_target() {
    assert_eq!(MIDI_CLIENT_NAME, "led_tester");
    assert!(!MIDI_CLIENT_NAME.contains('-'), "MIDI client name must not be hyphenated: {MIDI_CLIENT_NAME}");
}

#[test]
fn led_address_strategies_skip_offset_from_12_below_12() {
    for note in [0, 11] {
        let strategies = led_address_strategies(note);
        assert!(
            strategies.iter().all(|(desc, _)| !desc.starts_with("Offset from 12")),
            "note {note} should skip offset-from-12 strategies: {strategies:?}"
        );
    }
}

#[test]
fn led_address_strategies_include_offset_from_12_at_and_above_12() {
    assert_eq!(
        led_address_strategies(12),
        vec![
            ("Direct: note * 3", 36),
            ("Offset from 12: (note - 12) * 3", 0),
            ("Offset from 12 + 1", 1),
            ("Note value as offset", 12),
            ("Note + 16", 28),
        ]
    );
    assert_eq!(
        led_address_strategies(127),
        vec![
            ("Direct: note * 3", 381),
            ("Offset from 12: (note - 12) * 3", 345),
            ("Offset from 12 + 1", 346),
            ("Note value as offset", 127),
            ("Note + 16", 143),
        ]
    );
}

#[test]
fn finder_reports_are_cut_to_65_bytes() {
    assert!(finder_tries_offset(61));
    assert!(!finder_tries_offset(62));
    let r = finder_report(61);
    assert_eq!(r.len(), 65);
    assert_eq!(r[0], LED_REPORT_ID);
    assert_eq!(r[61], 255);
    assert_eq!(r[62], 0);
    let c = finder_clear_report();
    assert_eq!(c.len(), 65);
    assert_eq!(c[0], LED_REPORT_ID);
    assert!(c[1..].iter().all(|&b| b == 0));
}

#[test]
fn pad_press_needs_note_on_with_velocity() {
    assert_eq!(pad_press(&[0x90, 60, 100]), Some((60, 100)));
    assert_eq!(pad_press(&[0x95, 36, 1]), Some((36, 1)));
    assert_eq!(pad_press(&[0x90, 60, 0]), None);
    assert_eq!(pad_press(&[0x80, 60, 100]), None);
    assert_eq!(pad_press(&[0x90, 60]), None);
}

#[test]
fn wait_step_captures_then_times_out() {
    assert_eq!(wait_step(Some((60, 100)), 10_000, 5_000), WaitStep::Pad(60, 100));
    assert_eq!(wait_step(None, 4_999, 5_000), WaitStep::Poll);
    assert_eq!(wait_step(None, 5_000, 5_000), WaitStep::Timeout);
}

#[test]
fn answers_are_trimmed_and_case_blind() {
    assert!(answer_is_yes(" Y\n"));
    assert!(!answer_is_yes("yes"));
    assert!(answer_is_quit("q"));
    assert!(answer_is_quit(" N "));
    assert!(!answer_is_quit(""));
    assert!(finder_answer_is_yes("y\n"));
    assert!(!finder_answer_is_yes("n"));
}

#[test]
fn icon_is_a_blue_disc_with_white_ring() {
    let px = icon_rgba();
    assert_eq!(px.len(), 32 * 32 * 4);
    let at = |x: usize, y: usize| &px[(y * 32 + x) * 4..(y * 32 + x) * 4 + 4];
    assert_eq!(at(16, 16), &[0x3B, 0x82, 0xF6, 0xFF]);
    assert_eq!(at(16, 2), &[0xFF, 0xFF, 0xFF, 0xFF]);
    assert_eq!(at(0, 0), &[0, 0, 0, 0]);
}

#[test]
fn legacy_menu_ids() {
    assert_eq!(legacy_menu_action("Quit Daemon"), Some(LegacyMenuAction::QuitDaemon));
    assert_eq!(legacy_menu_action("Reload Configuration"), Some(LegacyMenuAction::ReloadConfiguration));
    assert_eq!(legacy_menu_action("Open Config File"), Some(LegacyMenuAction::OpenConfigFile));
    assert_eq!(legacy_menu_action("other"), None);
}
