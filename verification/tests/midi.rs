use std::collections::HashMap;

use conductor_tools::midi::{
    apply_event, choose_port, event_line, format_note_off_velocity_zero, note_to_name,
    receive_message, parse_port_arg, track_note_off, track_note_on, MidiEvent, VoiceEvent,
};
use conductor_tools::styled::{Span, Style};

fn plain(line: &[Span]) -> String {
    line.iter().map(|s| s.text.as_str()).collect()
}

fn key(ch: u8, note: u8) -> u16 {
    (ch as u16) * 256 + note as u16
}

#[test]
fn parse_port_arg_none_means_auto_select() {
    assert_eq!(parse_port_arg(None), Ok(None));
}

#[test]
fn parse_port_arg_accepts_a_number() {
    assert_eq!(parse_port_arg(Some("2")), Ok(Some(2)));
    assert_eq!(parse_port_arg(Some("0")), Ok(Some(0)));
}

#[test]
fn parse_port_arg_rejects_non_numeric() {
    let err = parse_port_arg(Some("abc")).expect_err("non-numeric must be rejected");
    assert!(err.contains("invalid port number") && err.contains("abc"), "got: {err}");
    assert!(parse_port_arg(Some("-1")).is_err());
}

#[test]
fn velocity_zero_note_off_unmatched_emits_complete_line() {
    let line = plain(&format_note_off_velocity_zero("C4", 60, 1, None));
    assert!(line.contains("Note OFF"), "must emit a Note OFF line: {line:?}");
    assert!(line.contains("60"), "must name the note number: {line:?}");
    assert!(line.contains("vel=  0"), "must show velocity 0: {line:?}");
    assert!(!line.contains("held"), "an unmatched release must not claim a held duration: {line:?}");
    assert_eq!(line, "Note OFF  C4 ( 60) vel=  0 ch= 1");
}

#[test]
fn velocity_zero_note_off_matched_includes_held_duration() {
    let spans = format_note_off_velocity_zero("C4", 60, 1, Some("0.500"));
    let line = plain(&spans);
    assert!(line.contains("Note OFF") && line.contains("held"), "{line:?}");
    assert!(line.contains("0.500"), "should format the held seconds: {line:?}");
    assert_eq!(spans[0].style, Style::YellowBold);
}

#[test]
fn held_notes_are_tracked_per_channel() {
    let mut held: HashMap<u16, u64> = HashMap::new();
    let t1 = 1_000u64;
    track_note_on(&mut held, 1, 60, t1);
    let t2 = t1 + 10_000;
    track_note_on(&mut held, 2, 60, t2);
    assert_eq!(held.len(), 2, "same note on two channels = two entries");
    let released = track_note_off(&mut held, 1, 60);
    assert_eq!(released, Some(t1), "releasing ch1 returns ch1's own press time");
    assert_eq!(held.get(&key(2, 60)), Some(&t2), "ch2 C4 must remain held with its own press time");
    assert_eq!(track_note_off(&mut held, 1, 60), None);
}

#[test]
fn note_names() {
    assert_eq!(note_to_name(60), "C4");
    assert_eq!(note_to_name(0), "C-1");
    assert_eq!(note_to_name(70), "A#4");
    assert_eq!(note_to_name(127), "G9");
}

#[test]
fn choose_port_prefers_request_then_mikro() {
    let names = vec!["IAC Bus".to_string(), "Maschine Mikro MK3".to_string()];
    assert_eq!(choose_port(Some(0), &names), Some(0));
    assert_eq!(choose_port(Some(5), &names), None);
    assert_eq!(choose_port(None, &names), Some(1));
    assert_eq!(choose_port(None, &vec!["IAC Bus".to_string()]), None);
}

/// What a message is, without its bookkeeping.
fn parse(raw: &[u8]) -> MidiEvent {
    receive_message(&mut HashMap::new(), raw, 0).0
}

#[test]
fn receive_message_tracks_held_notes() {
    let mut held: HashMap<u16, u64> = HashMap::new();
    assert_eq!(
        receive_message(&mut held, &[0x93, 64, 90], 10),
        (MidiEvent::Voice { channel: 3, event: VoiceEvent::NoteOn { note: 64, velocity: 90 } }, None)
    );
    assert_eq!(held.get(&key(4, 64)), Some(&10));
    let (ev, released) = receive_message(&mut held, &[0x83, 64, 0], 25);
    assert_eq!(ev, MidiEvent::Voice { channel: 3, event: VoiceEvent::NoteOff { note: 64, velocity: 0 } });
    assert_eq!(released, Some(10));
    assert!(held.is_empty());
}

#[test]
fn receive_message_sorts_messages() {
    assert_eq!(
        parse(&[0x90, 60, 100]),
        MidiEvent::Voice { channel: 0, event: VoiceEvent::NoteOn { note: 60, velocity: 100 } }
    );
    assert_eq!(
        parse(&[0x81, 60, 0]),
        MidiEvent::Voice { channel: 1, event: VoiceEvent::NoteOff { note: 60, velocity: 0 } }
    );
    assert_eq!(
        parse(&[0xB0, 7, 64]),
        MidiEvent::Voice { channel: 0, event: VoiceEvent::ControlChange { control: 7, value: 64 } }
    );
    assert_eq!(
        parse(&[0xC9, 5]),
        MidiEvent::Voice { channel: 9, event: VoiceEvent::ProgramChange { program: 5 } }
    );
    assert_eq!(parse(&[0xF8]), MidiEvent::System);
    assert_eq!(parse(&[]), MidiEvent::Unknown);
}

#[test]
fn apply_event_presses_and_releases() {
    let mut held: HashMap<u16, u64> = HashMap::new();
    let on = parse(&[0x90, 60, 100]);
    assert_eq!(apply_event(&mut held, &on, 5), None);
    assert_eq!(held.get(&key(1, 60)), Some(&5));
    let off = parse(&[0x90, 60, 0]);
    assert_eq!(apply_event(&mut held, &off, 9), Some(5));
    assert!(held.is_empty());
    let cc = parse(&[0xB0, 7, 64]);
    assert_eq!(apply_event(&mut held, &cc, 9), None);
    assert!(held.is_empty());
}

#[test]
fn event_lines() {
    let on = MidiEvent::Voice { channel: 0, event: VoiceEvent::NoteOn { note: 60, velocity: 127 } };
    assert_eq!(plain(&event_line(&on, &[0x90, 60, 127], None)), format!("Note ON   C4 ( 60) vel=127 ch= 1 {}", "█".repeat(20)));
    let off = MidiEvent::Voice { channel: 2, event: VoiceEvent::NoteOff { note: 61, velocity: 0 } };
    assert_eq!(plain(&event_line(&off, &[0x82, 61, 0], Some("1.250"))), "Note OFF C#4 ( 61)         ch= 3 (held 1.250s)");
    let pc = MidiEvent::Voice { channel: 9, event: VoiceEvent::ProgramChange { program: 5 } };
    assert_eq!(plain(&event_line(&pc, &[0xC9, 5], None)), "ProgChg  prog=  5         ch=10");
    let bend = MidiEvent::Voice { channel: 0, event: VoiceEvent::PitchBend { bend: 8192 } };
    assert_eq!(plain(&event_line(&bend, &[0xE0, 0, 64], None)), "PitchBend value= 8192 (    +0) ch= 1 ◯");
    assert_eq!(plain(&event_line(&MidiEvent::System, &[0xF8], None)), "System   [F8]");
    assert_eq!(plain(&event_line(&MidiEvent::Unknown, &[0x12, 0xAB], None)), "Unknown  [12, AB]");
}
