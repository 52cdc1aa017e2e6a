use conductor_tools::simulator::{parse_midi_data_byte, parse_sim_command, EncoderDirection, Scenario, SimCommand};

fn reply_lines(c: SimCommand) -> Vec<String> {
    match c {
        SimCommand::Reply(lines) => lines,
        _ => panic!("expected a reply"),
    }
}

#[test]
fn accepts_valid_data_bytes_including_boundaries() {
    assert_eq!(parse_midi_data_byte("0"), Ok(0));
    assert_eq!(parse_midi_data_byte("64"), Ok(64));
    assert_eq!(parse_midi_data_byte("127"), Ok(127));
}

#[test]
fn rejects_data_bytes_above_127() {
    assert!(parse_midi_data_byte("128").is_err());
    let err = parse_midi_data_byte("200").expect_err("200 must be rejected");
    assert!(err.contains("0–127"), "rejection should name the valid range; got: {err}");
    assert!(parse_midi_data_byte("255").is_err());
}

#[test]
fn out_of_range_numbers_report_the_range_not_a_parse_error() {
    let big = parse_midi_data_byte("70000").expect_err("70000 must be rejected");
    assert!(big.contains("0–127"), "got: {big}");
    let neg = parse_midi_data_byte("-1").expect_err("-1 must be rejected");
    assert!(neg.contains("0–127"), "got: {neg}");
    let nan = parse_midi_data_byte("abc").expect_err("abc must be rejected");
    assert!(nan.contains("not a valid number"), "got: {nan}");
}

#[test]
fn data_byte_messages_are_exact() {
    assert_eq!(parse_midi_data_byte("200").unwrap_err(), "200 is out of the MIDI data-byte range 0–127");
    assert_eq!(parse_midi_data_byte("x1").unwrap_err(), "'x1' is not a valid number");
}

#[test]
fn simple_commands() {
    assert!(matches!(parse_sim_command("   "), SimCommand::Empty));
    assert!(matches!(parse_sim_command("HELP"), SimCommand::Help));
    assert!(matches!(parse_sim_command("q"), SimCommand::Quit));
    assert!(matches!(parse_sim_command("demo"), SimCommand::Demo));
    assert!(matches!(parse_sim_command("e"), SimCommand::Events));
}

#[test]
fn note_command_reads_two_bytes() {
    assert!(matches!(parse_sim_command("note 60 100"), SimCommand::Note { note: 60, velocity: 100 }));
    assert_eq!(reply_lines(parse_sim_command("note 60")), vec!["Usage: note <number> <velocity>".to_string()]);
    assert_eq!(
        reply_lines(parse_sim_command("n 200 1")),
        vec!["✗ Invalid note number: 200 is out of the MIDI data-byte range 0–127".to_string()]
    );
}

#[test]
fn defaults_for_long_and_double() {
    assert!(matches!(parse_sim_command("long 60"), SimCommand::LongPress { note: 60, hold_ms: 2500 }));
    assert!(matches!(parse_sim_command("l 60 900"), SimCommand::LongPress { note: 60, hold_ms: 900 }));
    assert!(matches!(parse_sim_command("double 61"), SimCommand::DoubleTap { note: 61, gap_ms: 200 }));
    assert_eq!(reply_lines(parse_sim_command("d 61 x")), vec!["✗ Invalid gap: 'x'".to_string()]);
}

#[test]
fn chord_needs_two_valid_notes() {
    match parse_sim_command("chord 60 64 67") {
        SimCommand::Chord { notes } => assert_eq!(notes, vec![60, 64, 67]),
        _ => panic!("expected a chord"),
    }
    assert_eq!(reply_lines(parse_sim_command("chord 60")), vec!["✗ Need at least 2 notes for a chord".to_string()]);
    assert_eq!(
        reply_lines(parse_sim_command("chord 60 x")),
        vec!["✗ Invalid note in chord: 'x' is not a valid number".to_string()]
    );
}

#[test]
fn encoder_and_pitch() {
    assert!(matches!(
        parse_sim_command("enc 1 CW"),
        SimCommand::Encoder { cc: 1, direction: EncoderDirection::Clockwise, steps: 5 }
    ));
    assert!(matches!(
        parse_sim_command("encoder 2 counterclockwise 3"),
        SimCommand::Encoder { cc: 2, direction: EncoderDirection::CounterClockwise, steps: 3 }
    ));
    assert_eq!(reply_lines(parse_sim_command("enc 1 up")), vec!["✗ Direction must be 'cw' or 'ccw'".to_string()]);
    assert!(matches!(parse_sim_command("pb 8192"), SimCommand::PitchBend { value: 8192 }));
    assert_eq!(reply_lines(parse_sim_command("pitch 16384")), vec!["✗ Pitch bend value must be 0-16383".to_string()]);
    assert!(matches!(parse_sim_command("cc 7 127"), SimCommand::ControlChange { cc: 7, value: 127 }));
}

#[test]
fn scenarios_by_name_or_number() {
    assert!(matches!(parse_sim_command("scenario"), SimCommand::ScenarioList));
    assert!(matches!(parse_sim_command("s 4"), SimCommand::Scenario(Scenario::Chord)));
    assert!(matches!(parse_sim_command("scenario timing"), SimCommand::Scenario(Scenario::Timing)));
    assert_eq!(reply_lines(parse_sim_command("s 9")), vec!["✗ Unknown scenario".to_string()]);
}

#[test]
fn unknown_command_is_named() {
    assert_eq!(
        reply_lines(parse_sim_command("Bogus 1")),
        vec!["✗ Unknown command 'bogus'. Type 'help' for available commands.".to_string()]
    );
}

#[test]
fn numbers_beyond_i64_get_the_range_message() {
    assert_eq!(
        parse_midi_data_byte("99999999999999999999"),
        Err("99999999999999999999 is out of the MIDI data-byte range 0–127".to_string())
    );
    assert_eq!(
        parse_midi_data_byte("-00099999999999999999999"),
        Err("-99999999999999999999 is out of the MIDI data-byte range 0–127".to_string())
    );
    assert_eq!(parse_midi_data_byte("+0005"), Ok(5));
    assert_eq!(parse_midi_data_byte("-0"), Ok(0));
    assert_eq!(parse_midi_data_byte("-"), Err("'-' is not a valid number".to_string()));
    assert_eq!(parse_midi_data_byte("12a"), Err("'12a' is not a valid number".to_string()));
}
