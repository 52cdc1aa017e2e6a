//! The interactive MIDI simulator's command line: MIDI data bytes, and the
//! reading of each typed command into what to simulate or what to answer.
use vstd::prelude::*;
use crate::text::{
    dec, dec_int, parse_i64, integer_value, is_integer_text, integer_text, lemma_i64_is_integer, parse_u8, parse_u16, parse_u64, parse_unsigned, str_eq,
    split_whitespace, words, to_lowercase, lowercase, trim, trim_spec, append_dec_i64, append_dec,
};

verus! {

// ───────────────────────────── data bytes ─────────────────────────────

/// A MIDI data byte as typed: a number (optionally signed, of any size) in
/// 0–127 is that byte; any other number gets the range message, and only
/// text that is not a number gets "not a valid number".
pub open spec fn data_byte_spec(s: Seq<char>) -> Result<u8, Seq<char>> {
    match integer_value(s) {
        Some(v) => if 0 <= v <= 127 {
            Ok(v as u8)
        } else {
            Err(dec_int(v) + " is out of the MIDI data-byte range 0–127"@)
        },
        None => Err("'"@ + s + "' is not a valid number"@),
    }
}

/// Parse a MIDI data byte, refusing anything outside 0–127: any number out
/// of range (negative or large, however many digits it has) gets the range
/// message, and only text that is not a number gets "not a valid number".
pub fn parse_midi_data_byte(s: &str) -> (r: Result<u8, String>)
    ensures
        match (r, data_byte_spec(s@)) {
            (Ok(v), Ok(w)) => v == w,
            (Err(m), Err(m2)) => m@ == m2,
            _ => false,
        },
{
    proof {
        lemma_i64_is_integer(s@);
    }
    if let Some(v) = parse_i64(s) {
        if 0 <= v && v <= 127 {
            return Ok(v as u8);
        }
    }
    if is_integer_text(s) {
        let mut m = integer_text(s);
        m.append(" is out of the MIDI data-byte range 0–127");
        Err(m)
    } else {
        let mut m = String::from_str("'");
        m.append(s);
        m.append("' is not a valid number");
        Err(m)
    }
}

/// Every accepted data byte is at most 127; every number from 0 to 127 is
/// accepted and its value kept; every other number, of any size, gets the
/// range message, never "not a valid number".
pub proof fn data_bytes_are_seven_bit(s: Seq<char>)
    ensures
        data_byte_spec(s) matches Ok(v) ==> v <= 127,
        integer_value(s) matches Some(v) ==> (0 <= v <= 127 <==> data_byte_spec(s) is Ok),
        integer_value(s) matches Some(v) ==> (data_byte_spec(s) matches Ok(b) ==> b == v),
        integer_value(s) matches Some(v) ==> (!(0 <= v <= 127) ==> data_byte_spec(s) == Err::<u8, Seq<char>>(
            dec_int(v) + " is out of the MIDI data-byte range 0–127"@,
        )),
        integer_value(s) is None ==> data_byte_spec(s) == Err::<u8, Seq<char>>("'"@ + s + "' is not a valid number"@),
{
}

// ───────────────────────────── commands ─────────────────────────────

/// The test scenarios.
#[derive(Clone, Copy, Debug, PartialEq, Eq, Structural)]
pub enum Scenario {
    Velocity,
    Timing,
    DoubleTap,
    Chord,
    Encoder,
    Complex,
}

#[derive(Clone, Copy, Debug, PartialEq, Eq, Structural)]
pub enum EncoderDirection {
    Clockwise,
    CounterClockwise,
}

/// What one typed line asks of the simulator.
#[allow(inconsistent_fields)]
pub enum SimCommand {
    /// An empty line: prompt again.
    Empty,
    Help,
    Quit,
    Clear,
    Events,
    Note { note: u8, velocity: u8 },
    VelocityTest { note: u8 },
    LongPress { note: u8, hold_ms: u64 },
    DoubleTap { note: u8, gap_ms: u64 },
    Chord { notes: Vec<u8> },
    Encoder { cc: u8, direction: EncoderDirection, steps: u8 },
    Aftertouch { pressure: u8 },
    PitchBend { value: u16 },
    ControlChange { cc: u8, value: u8 },
    Demo,
    /// `scenario` with no name: list them.
    ScenarioList,
    Scenario(Scenario),
    /// Nothing to simulate: print these lines (usage or an error).
    Reply(Vec<String>),
}

/// A command, with its lists seen as sequences.
pub enum SimCommandView {
    Empty,
    Help,
    Quit,
    Clear,
    Events,
    Note(u8, u8),
    VelocityTest(u8),
    LongPress(u8, u64),
    DoubleTap(u8, u64),
    Chord(Seq<u8>),
    Encoder(u8, EncoderDirection, u8),
    Aftertouch(u8),
    PitchBend(u16),
    ControlChange(u8, u8),
    Demo,
    ScenarioList,
    Scenario(Scenario),
    Reply(Seq<Seq<char>>),
}

pub open spec fn strings_view(v: Seq<String>) -> Seq<Seq<char>> {
    v.map_values(|s: String| s@)
}

pub open spec fn command_view(c: SimCommand) -> SimCommandView {
    match c {
        SimCommand::Empty => SimCommandView::Empty,
        SimCommand::Help => SimCommandView::Help,
        SimCommand::Quit => SimCommandView::Quit,
        SimCommand::Clear => SimCommandView::Clear,
        SimCommand::Events => SimCommandView::Events,
        SimCommand::Note { note, velocity } => SimCommandView::Note(note, velocity),
        SimCommand::VelocityTest { note } => SimCommandView::VelocityTest(note),
        SimCommand::LongPress { note, hold_ms } => SimCommandView::LongPress(note, hold_ms),
        SimCommand::DoubleTap { note, gap_ms } => SimCommandView::DoubleTap(note, gap_ms),
        SimCommand::Chord { notes } => SimCommandView::Chord(notes@),
        SimCommand::Encoder { cc, direction, steps } => SimCommandView::Encoder(cc, direction, steps),
        SimCommand::Aftertouch { pressure } => SimCommandView::Aftertouch(pressure),
        SimCommand::PitchBend { value } => SimCommandView::PitchBend(value),
        SimCommand::ControlChange { cc, value } => SimCommandView::ControlChange(cc, value),
        SimCommand::Demo => SimCommandView::Demo,
        SimCommand::ScenarioList => SimCommandView::ScenarioList,
        SimCommand::Scenario(s) => SimCommandView::Scenario(s),
        SimCommand::Reply(lines) => SimCommandView::Reply(strings_view(lines@)),
    }
}

pub open spec fn reply1(m: Seq<char>) -> SimCommandView {
    SimCommandView::Reply(seq![m])
}

/// A data-byte argument, or the reply naming what was wrong with it.
pub open spec fn byte_arg(s: Seq<char>, what: Seq<char>) -> Result<u8, SimCommandView> {
    match data_byte_spec(s) {
        Ok(v) => Ok(v),
        Err(e) => Err(reply1("✗ Invalid "@ + what + ": "@ + e)),
    }
}

/// The notes of a chord: all of them, or the first one's error.
pub open spec fn chord_notes(parts: Seq<Seq<char>>) -> Result<Seq<u8>, Seq<char>>
    decreases parts.len(),
{
    if parts.len() == 0 {
        Ok(Seq::empty())
    } else {
        match data_byte_spec(parts[0]) {
            Ok(v) => match chord_notes(parts.drop_first()) {
                Ok(rest) => Ok(seq![v] + rest),
                Err(e) => Err(e),
            },
            Err(e) => Err(e),
        }
    }
}

pub open spec fn is_cmd(c: Seq<char>, a: Seq<char>, b: Seq<char>) -> bool {
    c == a || c == b
}

pub open spec fn note_command(p: Seq<Seq<char>>) -> SimCommandView {
    if p.len() < 3 {
        reply1("Usage: note <number> <velocity>"@)
    } else {
        match byte_arg(p[1], "note number"@) {
            Err(r) => r,
            Ok(n) => match byte_arg(p[2], "velocity"@) {
                Err(r) => r,
                Ok(v) => SimCommandView::Note(n, v),
            },
        }
    }
}

pub open spec fn optional_u64(p: Seq<Seq<char>>, i: int, default: u64) -> Option<u64> {
    if p.len() <= i {
        Some(default)
    } else {
        match parse_unsigned(p[i], u64::MAX as nat) {
            Some(v) => Some(v as u64),
            None => None,
        }
    }
}

pub open spec fn long_command(p: Seq<Seq<char>>) -> SimCommandView {
    if p.len() < 2 {
        reply1("Usage: long <note> [duration_ms]"@)
    } else {
        match byte_arg(p[1], "note number"@) {
            Err(r) => r,
            Ok(n) => match optional_u64(p, 2, 2500) {
                Some(d) => SimCommandView::LongPress(n, d),
                None => reply1("✗ Invalid duration: '"@ + p[2] + "'"@),
            },
        }
    }
}

pub open spec fn double_command(p: Seq<Seq<char>>) -> SimCommandView {
    if p.len() < 2 {
        reply1("Usage: double <note> [gap_ms]"@)
    } else {
        match byte_arg(p[1], "note number"@) {
            Err(r) => r,
            Ok(n) => match optional_u64(p, 2, 200) {
                Some(g) => SimCommandView::DoubleTap(n, g),
                None => reply1("✗ Invalid gap: '"@ + p[2] + "'"@),
            },
        }
    }
}

pub open spec fn chord_command(p: Seq<Seq<char>>) -> SimCommandView {
    if p.len() < 2 {
        reply1("Usage: chord <note1> <note2> [note3] [note4]..."@)
    } else {
        match chord_notes(p.drop_first()) {
            Err(e) => reply1("✗ Invalid note in chord: "@ + e),
            Ok(notes) => if notes.len() < 2 {
                reply1("✗ Need at least 2 notes for a chord"@)
            } else {
                SimCommandView::Chord(notes)
            },
        }
    }
}

pub open spec fn direction_of(s: Seq<char>) -> Option<EncoderDirection> {
    let l = lowercase(s);
    if l == "cw"@ || l == "clockwise"@ {
        Some(EncoderDirection::Clockwise)
    } else if l == "ccw"@ || l == "counterclockwise"@ {
        Some(EncoderDirection::CounterClockwise)
    } else {
        None
    }
}

pub open spec fn encoder_command(p: Seq<Seq<char>>) -> SimCommandView {
    if p.len() < 3 {
        reply1("Usage: encoder <cc> <cw|ccw> [steps]"@)
    } else {
        match byte_arg(p[1], "CC number"@) {
            Err(r) => r,
            Ok(cc) => match direction_of(p[2]) {
                None => reply1("✗ Direction must be 'cw' or 'ccw'"@),
                Some(d) => if p.len() <= 3 {
                    SimCommandView::Encoder(cc, d, 5)
                } else {
                    match parse_unsigned(p[3], u8::MAX as nat) {
                        Some(st) => SimCommandView::Encoder(cc, d, st as u8),
                        None => reply1("✗ Invalid steps: '"@ + p[3] + "'"@),
                    }
                },
            },
        }
    }
}

pub open spec fn pitch_command(p: Seq<Seq<char>>) -> SimCommandView {
    if p.len() < 2 {
        SimCommandView::Reply(seq!["Usage: pitch <value>"@, "  value: 0-16383 (center=8192)"@])
    } else {
        match parse_unsigned(p[1], u16::MAX as nat) {
            Some(v) => if v > 16383 {
                reply1("✗ Pitch bend value must be 0-16383"@)
            } else {
                SimCommandView::PitchBend(v as u16)
            },
            None => reply1("✗ Invalid pitch bend value"@),
        }
    }
}

pub open spec fn cc_command(p: Seq<Seq<char>>) -> SimCommandView {
    if p.len() < 3 {
        reply1("Usage: cc <number> <value>"@)
    } else {
        match byte_arg(p[1], "CC number"@) {
            Err(r) => r,
            Ok(cc) => match byte_arg(p[2], "CC value"@) {
                Err(r) => r,
                Ok(v) => SimCommandView::ControlChange(cc, v),
            },
        }
    }
}

pub open spec fn scenario_of(s: Seq<char>) -> Option<Scenario> {
    if is_cmd(s, "velocity"@, "1"@) {
        Some(Scenario::Velocity)
    } else if is_cmd(s, "timing"@, "2"@) {
        Some(Scenario::Timing)
    } else if is_cmd(s, "doubletap"@, "3"@) {
        Some(Scenario::DoubleTap)
    } else if is_cmd(s, "chord"@, "4"@) {
        Some(Scenario::Chord)
    } else if is_cmd(s, "encoder"@, "5"@) {
        Some(Scenario::Encoder)
    } else if is_cmd(s, "complex"@, "6"@) {
        Some(Scenario::Complex)
    } else {
        None
    }
}

/// What a typed line asks: the first word, lowercased, names the command;
/// the other words are its arguments.
pub open spec fn sim_command_spec(line: Seq<char>) -> SimCommandView {
    let p = words(trim_spec(line));
    if p.len() == 0 {
        SimCommandView::Empty
    } else {
        let c = lowercase(p[0]);
        if c == "help"@ || c == "h"@ || c == "?"@ {
            SimCommandView::Help
        } else if c == "quit"@ || c == "exit"@ || c == "q"@ {
            SimCommandView::Quit
        } else if is_cmd(c, "clear"@, "c"@) {
            SimCommandView::Clear
        } else if is_cmd(c, "events"@, "e"@) {
            SimCommandView::Events
        } else if is_cmd(c, "note"@, "n"@) {
            note_command(p)
        } else if is_cmd(c, "velocity"@, "v"@) {
            if p.len() < 2 {
                reply1("Usage: velocity <note>"@)
            } else {
                match byte_arg(p[1], "note number"@) {
                    Err(r) => r,
                    Ok(n) => SimCommandView::VelocityTest(n),
                }
            }
        } else if is_cmd(c, "long"@, "l"@) {
            long_command(p)
        } else if is_cmd(c, "double"@, "d"@) {
            double_command(p)
        } else if c == "chord"@ {
            chord_command(p)
        } else if is_cmd(c, "encoder"@, "enc"@) {
            encoder_command(p)
        } else if is_cmd(c, "aftertouch"@, "at"@) {
            if p.len() < 2 {
                reply1("Usage: aftertouch <pressure>"@)
            } else {
                match byte_arg(p[1], "pressure"@) {
                    Err(r) => r,
                    Ok(v) => SimCommandView::Aftertouch(v),
                }
            }
        } else if is_cmd(c, "pitch"@, "pb"@) {
            pitch_command(p)
        } else if c == "cc"@ {
            cc_command(p)
        } else if c == "demo"@ {
            SimCommandView::Demo
        } else if is_cmd(c, "scenario"@, "s"@) {
            if p.len() < 2 {
                SimCommandView::ScenarioList
            } else {
                match scenario_of(p[1]) {
                    Some(s) => SimCommandView::Scenario(s),
                    None => reply1("✗ Unknown scenario"@),
                }
            }
        } else {
            reply1("✗ Unknown command '"@ + c + "'. Type 'help' for available commands."@)
        }
    }
}

fn reply(m: String) -> (r: SimCommand)
    ensures
        command_view(r) == reply1(m@),
{
    let mut v: Vec<String> = Vec::new();
    v.push(m);
    proof {
        assert(strings_view(v@) =~= seq![m@]);
    }
    SimCommand::Reply(v)
}

fn reply_str(m: &str) -> (r: SimCommand)
    ensures
        command_view(r) == reply1(m@),
{
    reply(String::from_str(m))
}

fn byte_or_reply(s: &str, what: &str) -> (r: Result<u8, SimCommand>)
    ensures
        match (r, byte_arg(s@, what@)) {
            (Ok(v), Ok(w)) => v == w,
            (Err(c), Err(cv)) => command_view(c) == cv,
            _ => false,
        },
{
    match parse_midi_data_byte(s) {
        Ok(v) => Ok(v),
        Err(e) => {
            let mut m = String::from_str("✗ Invalid ");
            m.append(what);
            m.append(": ");
            m.append(e.as_str());
            Err(reply(m))
        },
    }
}

fn parse_chord_notes(parts: &Vec<&str>) -> (r: Result<Vec<u8>, String>)
    requires
        parts@.len() >= 1,
    ensures
        match (r, chord_notes(parts@.map_values(|w: &str| w@).drop_first())) {
            (Ok(v), Ok(w)) => v@ == w,
            (Err(m), Err(m2)) => m@ == m2,
            _ => false,
        },
{
    let ghost all = parts@.map_values(|w: &str| w@).drop_first();
    let mut notes: Vec<u8> = Vec::new();
    let mut i: usize = 1;
    proof {
        assert(all.skip(0) =~= all);
    }
    while i < parts.len()
        invariant
            1 <= i <= parts@.len(),
            all == parts@.map_values(|w: &str| w@).drop_first(),
            chord_notes(all) == match chord_notes(all.skip(i - 1)) {
                Ok(rest) => Ok(notes@ + rest),
                Err(e) => Err::<Seq<u8>, Seq<char>>(e),
            },
        decreases parts@.len() - i,
    {
        let ghost rest = all.skip(i - 1);
        proof {
            assert(rest[0] == parts@[i as int]@);
            assert(rest.drop_first() =~= all.skip(i as int));
        }
        match parse_midi_data_byte(parts[i]) {
            Ok(v) => {
                let ghost before = notes@;
                notes.push(v);
                proof {
                    match chord_notes(all.skip(i as int)) {
                        Ok(tail) => {
                            assert(before + (seq![v] + tail) =~= notes@ + tail);
                        },
                        Err(_) => {},
                    }
                }
            },
            Err(e) => {
                return Err(e);
            },
        }
        i = i + 1;
    }
    proof {
        assert(all.skip(i - 1) =~= Seq::<Seq<char>>::empty());
        assert(notes@ + Seq::<u8>::empty() =~= notes@);
    }
    Ok(notes)
}

fn is_word(c: &str, a: &str, b: &str) -> (r: bool)
    ensures
        r == is_cmd(c@, a@, b@),
{
    str_eq(c, a) || str_eq(c, b)
}

/// The direction words: `cw` and `clockwise` (any case) turn clockwise,
/// `ccw` and `counterclockwise` counter-clockwise, and no other word is a
/// direction.
pub proof fn direction_words(s: Seq<char>)
    ensures
        direction_of(s) == Some(EncoderDirection::Clockwise) <==> (lowercase(s) == "cw"@ || lowercase(s)
            == "clockwise"@),
        direction_of(s) == Some(EncoderDirection::CounterClockwise) <==> (lowercase(s) == "ccw"@ || lowercase(
            s,
        ) == "counterclockwise"@),
{
    reveal_strlit("cw");
    reveal_strlit("clockwise");
    reveal_strlit("ccw");
    reveal_strlit("counterclockwise");
    assert("cw"@.len() == 2 && "ccw"@.len() == 3 && "clockwise"@.len() == 9 && "counterclockwise"@.len() == 16);
    assert("cw"@ != "ccw"@ && "cw"@ != "counterclockwise"@);
    assert("clockwise"@ != "ccw"@ && "clockwise"@ != "counterclockwise"@);
}

/// A typed encoder command turns the way its direction word says: the
/// command is `encoder <cc> <direction> [steps]`, and it turns clockwise
/// exactly when the word is `cw` or `clockwise` (any case), counter-clockwise
/// when it is `ccw` or `counterclockwise`.
pub proof fn encoder_direction_follows_the_word(line: Seq<char>)
    ensures
        sim_command_spec(line) matches SimCommandView::Encoder(cc, d, steps) ==> {
            let p = words(trim_spec(line));
            &&& p.len() >= 3
            &&& (d == EncoderDirection::Clockwise <==> (lowercase(p[2]) == "cw"@ || lowercase(p[2])
                == "clockwise"@))
            &&& (d == EncoderDirection::CounterClockwise <==> (lowercase(p[2]) == "ccw"@ || lowercase(p[2])
                == "counterclockwise"@))
        },
{
    let p = words(trim_spec(line));
    if p.len() >= 3 {
        direction_words(p[2]);
    }
    if sim_command_spec(line) is Encoder {
        assert(p.len() > 0);
        let c = lowercase(p[0]);
        assert(is_cmd(c, "encoder"@, "enc"@));
        assert(sim_command_spec(line) == encoder_command(p));
    }
}

/// Read one typed line into a simulator command.
pub fn parse_sim_command(input: &str) -> (r: SimCommand)
    ensures
        command_view(r) == sim_command_spec(input@),
{
    let parts = split_whitespace(trim(input));
    let ghost p = parts@.map_values(|w: &str| w@);
    if parts.len() == 0 {
        return SimCommand::Empty;
    }
    proof {
        assert(p[0] == parts@[0]@);
    }
    let lowered = to_lowercase(parts[0]);
    let c = lowered.as_str();
    if str_eq(c, "help") || str_eq(c, "h") || str_eq(c, "?") {
        SimCommand::Help
    } else if str_eq(c, "quit") || str_eq(c, "exit") || str_eq(c, "q") {
        SimCommand::Quit
    } else if is_word(c, "clear", "c") {
        SimCommand::Clear
    } else if is_word(c, "events", "e") {
        SimCommand::Events
    } else if is_word(c, "note", "n") {
        if parts.len() < 3 {
            return reply_str("Usage: note <number> <velocity>");
        }
        proof {
            assert(p[1] == parts@[1]@);
            assert(p[2] == parts@[2]@);
        }
        let note = match byte_or_reply(parts[1], "note number") {
            Ok(v) => v,
            Err(r) => return r,
        };
        let velocity = match byte_or_reply(parts[2], "velocity") {
            Ok(v) => v,
            Err(r) => return r,
        };
        SimCommand::Note { note, velocity }
    } else if is_word(c, "velocity", "v") {
        if parts.len() < 2 {
            return reply_str("Usage: velocity <note>");
        }
        proof {
            assert(p[1] == parts@[1]@);
        }
        match byte_or_reply(parts[1], "note number") {
            Ok(note) => SimCommand::VelocityTest { note },
            Err(r) => r,
        }
    } else if is_word(c, "long", "l") {
        if parts.len() < 2 {
            return reply_str("Usage: long <note> [duration_ms]");
        }
        proof {
            assert(p[1] == parts@[1]@);
        }
        let note = match byte_or_reply(parts[1], "note number") {
            Ok(v) => v,
            Err(r) => return r,
        };
        if parts.len() <= 2 {
            return SimCommand::LongPress { note, hold_ms: 2500 };
        }
        proof {
            assert(p[2] == parts@[2]@);
        }
        match parse_u64(parts[2]) {
            Some(d) => SimCommand::LongPress { note, hold_ms: d },
            None => {
                let mut m = String::from_str("✗ Invalid duration: '");
                m.append(parts[2]);
                m.append("'");
                reply(m)
            },
        }
    } else if is_word(c, "double", "d") {
        if parts.len() < 2 {
            return reply_str("Usage: double <note> [gap_ms]");
        }
        proof {
            assert(p[1] == parts@[1]@);
        }
        let note = match byte_or_reply(parts[1], "note number") {
            Ok(v) => v,
            Err(r) => return r,
        };
        if parts.len() <= 2 {
            return SimCommand::DoubleTap { note, gap_ms: 200 };
        }
        proof {
            assert(p[2] == parts@[2]@);
        }
        match parse_u64(parts[2]) {
            Some(g) => SimCommand::DoubleTap { note, gap_ms: g },
            None => {
                let mut m = String::from_str("✗ Invalid gap: '");
                m.append(parts[2]);
                m.append("'");
                reply(m)
            },
        }
    } else if str_eq(c, "chord") {
        if parts.len() < 2 {
            return reply_str("Usage: chord <note1> <note2> [note3] [note4]...");
        }
        match parse_chord_notes(&parts) {
            Err(e) => {
                let mut m = String::from_str("✗ Invalid note in chord: ");
                m.append(e.as_str());
                reply(m)
            },
            Ok(notes) => if notes.len() < 2 {
                reply_str("✗ Need at least 2 notes for a chord")
            } else {
                SimCommand::Chord { notes }
            },
        }
    } else if is_word(c, "encoder", "enc") {
        if parts.len() < 3 {
            return reply_str("Usage: encoder <cc> <cw|ccw> [steps]");
        }
        proof {
            assert(p[1] == parts@[1]@);
            assert(p[2] == parts@[2]@);
        }
        let cc = match byte_or_reply(parts[1], "CC number") {
            Ok(v) => v,
            Err(r) => return r,
        };
        let dl = to_lowercase(parts[2]);
        let direction = if is_word(dl.as_str(), "cw", "clockwise") {
            EncoderDirection::Clockwise
        } else if is_word(dl.as_str(), "ccw", "counterclockwise") {
            EncoderDirection::CounterClockwise
        } else {
            return reply_str("✗ Direction must be 'cw' or 'ccw'");
        };
        if parts.len() <= 3 {
            return SimCommand::Encoder { cc, direction, steps: 5 };
        }
        proof {
            assert(p[3] == parts@[3]@);
        }
        match parse_u8(parts[3]) {
            Some(steps) => SimCommand::Encoder { cc, direction, steps },
            None => {
                let mut m = String::from_str("✗ Invalid steps: '");
                m.append(parts[3]);
                m.append("'");
                reply(m)
            },
        }
    } else if is_word(c, "aftertouch", "at") {
        if parts.len() < 2 {
            return reply_str("Usage: aftertouch <pressure>");
        }
        proof {
            assert(p[1] == parts@[1]@);
        }
        match byte_or_reply(parts[1], "pressure") {
            Ok(pressure) => SimCommand::Aftertouch { pressure },
            Err(r) => r,
        }
    } else if is_word(c, "pitch", "pb") {
        if parts.len() < 2 {
            let mut v: Vec<String> = Vec::new();
            v.push(String::from_str("Usage: pitch <value>"));
            v.push(String::from_str("  value: 0-16383 (center=8192)"));
            proof {
                assert(strings_view(v@) =~= seq!["Usage: pitch <value>"@, "  value: 0-16383 (center=8192)"@]);
            }
            return SimCommand::Reply(v);
        }
        proof {
            assert(p[1] == parts@[1]@);
        }
        match parse_u16(parts[1]) {
            Some(value) => if value > 16383 {
                reply_str("✗ Pitch bend value must be 0-16383")
            } else {
                SimCommand::PitchBend { value }
            },
            None => reply_str("✗ Invalid pitch bend value"),
        }
    } else if str_eq(c, "cc") {
        if parts.len() < 3 {
            return reply_str("Usage: cc <number> <value>");
        }
        proof {
            assert(p[1] == parts@[1]@);
            assert(p[2] == parts@[2]@);
        }
        let cc = match byte_or_reply(parts[1], "CC number") {
            Ok(v) => v,
            Err(r) => return r,
        };
        let value = match byte_or_reply(parts[2], "CC value") {
            Ok(v) => v,
            Err(r) => return r,
        };
        SimCommand::ControlChange { cc, value }
    } else if str_eq(c, "demo") {
        SimCommand::Demo
    } else if is_word(c, "scenario", "s") {
        if parts.len() < 2 {
            return SimCommand::ScenarioList;
        }
        proof {
            assert(p[1] == parts@[1]@);
        }
        let name = parts[1];
        if is_word(name, "velocity", "1") {
            SimCommand::Scenario(Scenario::Velocity)
        } else if is_word(name, "timing", "2") {
            SimCommand::Scenario(Scenario::Timing)
        } else if is_word(name, "doubletap", "3") {
            SimCommand::Scenario(Scenario::DoubleTap)
        } else if is_word(name, "chord", "4") {
            SimCommand::Scenario(Scenario::Chord)
        } else if is_word(name, "encoder", "5") {
            SimCommand::Scenario(Scenario::Encoder)
        } else if is_word(name, "complex", "6") {
            SimCommand::Scenario(Scenario::Complex)
        } else {
            reply_str("✗ Unknown scenario")
        }
    } else {
        let mut m = String::from_str("✗ Unknown command '");
        m.append(c);
        m.append("'. Type 'help' for available commands.");
        reply(m)
    }
}


// ───────────────────────────── scenarios ─────────────────────────────

/// One step of a scripted run: a line to print, a raw message, a pause, or
/// a gesture of the simulator.
pub enum SimStep {
    Say(&'static str),
    NoteOn { note: u8, velocity: u8 },
    NoteOff { note: u8 },
    ControlChange { cc: u8, value: u8 },
    Aftertouch { pressure: u8 },
    PitchBend { value: u16 },
    Sleep { ms: u64 },
    Tap { note: u8, velocity: u8, duration_ms: u64 },
    LongPress { note: u8, velocity: u8, hold_ms: u64 },
    DoubleTap { note: u8, velocity: u8, tap_ms: u64, gap_ms: u64 },
    Chord { root: u8, third: u8, fifth: u8, velocity: u8, stagger_ms: u64, hold_ms: u64 },
    Encoder { cc: u8, direction: EncoderDirection, steps: u8, step_ms: u64 },
    VelocityRamp { note: u8, min_velocity: u8, max_velocity: u8, steps: u8 },
}

/// A step, with the printed text seen as a character sequence.
pub enum StepView {
    Say(Seq<char>),
    NoteOn(u8, u8),
    NoteOff(u8),
    ControlChange(u8, u8),
    Aftertouch(u8),
    PitchBend(u16),
    Sleep(u64),
    Tap(u8, u8, u64),
    LongPress(u8, u8, u64),
    DoubleTap(u8, u8, u64, u64),
    Chord(u8, u8, u8, u8, u64, u64),
    Encoder(u8, EncoderDirection, u8, u64),
    VelocityRamp(u8, u8, u8, u8),
}

pub open spec fn step_v(s: SimStep) -> StepView {
    match s {
        SimStep::Say(t) => StepView::Say(t@),
        SimStep::NoteOn { note, velocity } => StepView::NoteOn(note, velocity),
        SimStep::NoteOff { note } => StepView::NoteOff(note),
        SimStep::ControlChange { cc, value } => StepView::ControlChange(cc, value),
        SimStep::Aftertouch { pressure } => StepView::Aftertouch(pressure),
        SimStep::PitchBend { value } => StepView::PitchBend(value),
        SimStep::Sleep { ms } => StepView::Sleep(ms),
        SimStep::Tap { note, velocity, duration_ms } => StepView::Tap(note, velocity, duration_ms),
        SimStep::LongPress { note, velocity, hold_ms } => StepView::LongPress(note, velocity, hold_ms),
        SimStep::DoubleTap { note, velocity, tap_ms, gap_ms } => StepView::DoubleTap(note, velocity, tap_ms, gap_ms),
        SimStep::Chord { root, third, fifth, velocity, stagger_ms, hold_ms } => StepView::Chord(
            root,
            third,
            fifth,
            velocity,
            stagger_ms,
            hold_ms,
        ),
        SimStep::Encoder { cc, direction, steps, step_ms } => StepView::Encoder(cc, direction, steps, step_ms),
        SimStep::VelocityRamp { note, min_velocity, max_velocity, steps } => StepView::VelocityRamp(
            note,
            min_velocity,
            max_velocity,
            steps,
        ),
    }
}

pub open spec fn steps_v(s: Seq<SimStep>) -> Seq<StepView> {
    s.map_values(|x: SimStep| step_v(x))
}

/// A note played soft (30), medium (70) and hard (110), each held 100 ms
/// with 200 ms between them.
pub open spec fn velocity_levels_spec(note: u8) -> Seq<StepView> {
    seq![
        StepView::NoteOn(note, 30),
        StepView::Sleep(100),
        StepView::NoteOff(note),
        StepView::Sleep(200),
        StepView::NoteOn(note, 70),
        StepView::Sleep(100),
        StepView::NoteOff(note),
        StepView::Sleep(200),
        StepView::NoteOn(note, 110),
        StepView::Sleep(100),
        StepView::NoteOff(note),
    ]
}

fn push_step(v: &mut Vec<SimStep>, s: SimStep)
    ensures
        steps_v(final(v)@) == steps_v(old(v)@).push(step_v(s)),
{
    v.push(s);
    proof {
        assert(steps_v(final(v)@) =~= steps_v(old(v)@).push(step_v(s)));
    }
}

fn push_velocity_levels(v: &mut Vec<SimStep>, note: u8)
    ensures
        steps_v(final(v)@) == steps_v(old(v)@) + velocity_levels_spec(note),
{
    push_step(v, SimStep::NoteOn { note, velocity: 30 });
    push_step(v, SimStep::Sleep { ms: 100 });
    push_step(v, SimStep::NoteOff { note });
    push_step(v, SimStep::Sleep { ms: 200 });
    push_step(v, SimStep::NoteOn { note, velocity: 70 });
    push_step(v, SimStep::Sleep { ms: 100 });
    push_step(v, SimStep::NoteOff { note });
    push_step(v, SimStep::Sleep { ms: 200 });
    push_step(v, SimStep::NoteOn { note, velocity: 110 });
    push_step(v, SimStep::Sleep { ms: 100 });
    push_step(v, SimStep::NoteOff { note });
    proof {
        assert(steps_v(final(v)@) =~= steps_v(old(v)@) + velocity_levels_spec(note));
    }
}

/// The `velocity <note>` test.
pub fn velocity_test_steps(note: u8) -> (r: Vec<SimStep>)
    ensures
        steps_v(r@) == seq![StepView::Say("Simulating velocity levels (soft, medium, hard)..."@)]
            + velocity_levels_spec(note) + seq![StepView::Say("✓ Velocity test complete"@)],
{
    let mut v: Vec<SimStep> = Vec::new();
    push_step(&mut v, SimStep::Say("Simulating velocity levels (soft, medium, hard)..."));
    push_velocity_levels(&mut v, note);
    push_step(&mut v, SimStep::Say("✓ Velocity test complete"));
    proof {
        assert(steps_v(v@) =~= seq![StepView::Say("Simulating velocity levels (soft, medium, hard)..."@)]
            + velocity_levels_spec(note) + seq![StepView::Say("✓ Velocity test complete"@)]);
    }
    v
}

/// The C major chord the scenarios play: 60, 64, 67 at velocity 80,
/// staggered 10 ms and held 500 ms.
pub open spec fn c_major_spec() -> StepView {
    StepView::Chord(60, 64, 67, 80, 10, 500)
}

/// The steps of each test scenario.
pub open spec fn scenario_spec(s: Scenario) -> Seq<StepView> {
    match s {
        Scenario::Velocity => seq![
            StepView::Say("Testing velocity levels: Soft (30), Medium (70), Hard (110)"@),
        ] + velocity_levels_spec(60) + seq![StepView::Say("✓ Velocity scenario complete"@)],
        Scenario::Timing => seq![
            StepView::Say("Testing press durations: Short (100ms), Medium (500ms), Long (2500ms)"@),
            StepView::Tap(60, 80, 100),
            StepView::Sleep(300),
            StepView::Tap(60, 80, 500),
            StepView::Sleep(300),
            StepView::LongPress(60, 80, 2500),
            StepView::Say("✓ Timing scenario complete"@),
        ],
        Scenario::DoubleTap => seq![
            StepView::Say("Testing double-tap with 200ms gap"@),
            StepView::DoubleTap(60, 80, 50, 200),
            StepView::Say("✓ Double-tap scenario complete"@),
        ],
        Scenario::Chord => seq![
            StepView::Say("Testing chord detection: C major (60, 64, 67)"@),
            c_major_spec(),
            StepView::Say("✓ Chord scenario complete"@),
        ],
        Scenario::Encoder => seq![
            StepView::Say("Testing encoder: 5 steps CW, then 5 steps CCW"@),
            StepView::Encoder(1, EncoderDirection::Clockwise, 5, 50),
            StepView::Sleep(500),
            StepView::Encoder(1, EncoderDirection::CounterClockwise, 5, 50),
            StepView::Say("✓ Encoder scenario complete"@),
        ],
        Scenario::Complex => seq![
            StepView::Say("Running complex scenario: mixed events..."@),
            StepView::NoteOn(60, 80),
            StepView::Sleep(100),
            StepView::ControlChange(1, 70),
            StepView::Sleep(100),
            StepView::NoteOff(60),
            StepView::Sleep(300),
            StepView::NoteOn(60, 80),
            StepView::NoteOn(64, 80),
            StepView::NoteOn(67, 80),
            StepView::Sleep(200),
            StepView::Aftertouch(100),
            StepView::Sleep(300),
            StepView::NoteOff(60),
            StepView::NoteOff(64),
            StepView::NoteOff(67),
            StepView::Sleep(300),
            StepView::PitchBend(8192),
            StepView::Sleep(100),
            StepView::NoteOn(72, 100),
            StepView::Sleep(100),
            StepView::PitchBend(12000),
            StepView::Sleep(100),
            StepView::PitchBend(8192),
            StepView::Sleep(100),
            StepView::NoteOff(72),
            StepView::Say("✓ Complex scenario complete"@),
        ],
    }
}

fn chord_c_major() -> (r: SimStep)
    ensures
        step_v(r) == c_major_spec(),
{
    SimStep::Chord { root: 60, third: 64, fifth: 67, velocity: 80, stagger_ms: 10, hold_ms: 500 }
}

/// The script of a test scenario.
pub fn scenario_steps(s: Scenario) -> (r: Vec<SimStep>)
    ensures
        steps_v(r@) == scenario_spec(s),
{
    let mut v: Vec<SimStep> = Vec::new();
    match s {
        Scenario::Velocity => {
            push_step(&mut v, SimStep::Say("Testing velocity levels: Soft (30), Medium (70), Hard (110)"));
            push_velocity_levels(&mut v, 60);
            push_step(&mut v, SimStep::Say("✓ Velocity scenario complete"));
        },
        Scenario::Timing => {
            push_step(&mut v, SimStep::Say("Testing press durations: Short (100ms), Medium (500ms), Long (2500ms)"));
            push_step(&mut v, SimStep::Tap { note: 60, velocity: 80, duration_ms: 100 });
            push_step(&mut v, SimStep::Sleep { ms: 300 });
            push_step(&mut v, SimStep::Tap { note: 60, velocity: 80, duration_ms: 500 });
            push_step(&mut v, SimStep::Sleep { ms: 300 });
            push_step(&mut v, SimStep::LongPress { note: 60, velocity: 80, hold_ms: 2500 });
            push_step(&mut v, SimStep::Say("✓ Timing scenario complete"));
        },
        Scenario::DoubleTap => {
            push_step(&mut v, SimStep::Say("Testing double-tap with 200ms gap"));
            push_step(&mut v, SimStep::DoubleTap { note: 60, velocity: 80, tap_ms: 50, gap_ms: 200 });
            push_step(&mut v, SimStep::Say("✓ Double-tap scenario complete"));
        },
        Scenario::Chord => {
            push_step(&mut v, SimStep::Say("Testing chord detection: C major (60, 64, 67)"));
            push_step(&mut v, chord_c_major());
            push_step(&mut v, SimStep::Say("✓ Chord scenario complete"));
        },
        Scenario::Encoder => {
            push_step(&mut v, SimStep::Say("Testing encoder: 5 steps CW, then 5 steps CCW"));
            push_step(
                &mut v,
                SimStep::Encoder { cc: 1, direction: EncoderDirection::Clockwise, steps: 5, step_ms: 50 },
            );
            push_step(&mut v, SimStep::Sleep { ms: 500 });
            push_step(
                &mut v,
                SimStep::Encoder { cc: 1, direction: EncoderDirection::CounterClockwise, steps: 5, step_ms: 50 },
            );
            push_step(&mut v, SimStep::Say("✓ Encoder scenario complete"));
        },
        Scenario::Complex => {
            push_step(&mut v, SimStep::Say("Running complex scenario: mixed events..."));
            push_step(&mut v, SimStep::NoteOn { note: 60, velocity: 80 });
            push_step(&mut v, SimStep::Sleep { ms: 100 });
            push_step(&mut v, SimStep::ControlChange { cc: 1, value: 70 });
            push_step(&mut v, SimStep::Sleep { ms: 100 });
            push_step(&mut v, SimStep::NoteOff { note: 60 });
            push_step(&mut v, SimStep::Sleep { ms: 300 });
            push_step(&mut v, SimStep::NoteOn { note: 60, velocity: 80 });
            push_step(&mut v, SimStep::NoteOn { note: 64, velocity: 80 });
            push_step(&mut v, SimStep::NoteOn { note: 67, velocity: 80 });
            push_step(&mut v, SimStep::Sleep { ms: 200 });
            push_step(&mut v, SimStep::Aftertouch { pressure: 100 });
            push_step(&mut v, SimStep::Sleep { ms: 300 });
            push_step(&mut v, SimStep::NoteOff { note: 60 });
            push_step(&mut v, SimStep::NoteOff { note: 64 });
            push_step(&mut v, SimStep::NoteOff { note: 67 });
            push_step(&mut v, SimStep::Sleep { ms: 300 });
            push_step(&mut v, SimStep::PitchBend { value: 8192 });
            push_step(&mut v, SimStep::Sleep { ms: 100 });
            push_step(&mut v, SimStep::NoteOn { note: 72, velocity: 100 });
            push_step(&mut v, SimStep::Sleep { ms: 100 });
            push_step(&mut v, SimStep::PitchBend { value: 12000 });
            push_step(&mut v, SimStep::Sleep { ms: 100 });
            push_step(&mut v, SimStep::PitchBend { value: 8192 });
            push_step(&mut v, SimStep::Sleep { ms: 100 });
            push_step(&mut v, SimStep::NoteOff { note: 72 });
            push_step(&mut v, SimStep::Say("✓ Complex scenario complete"));
        },
    }
    proof {
        assert(steps_v(v@) =~= scenario_spec(s));
    }
    v
}

/// The `demo` run: a velocity ramp, a long press, a double tap, a chord and
/// an encoder turn, each announced.
pub open spec fn demo_spec() -> Seq<StepView> {
    seq![
        StepView::Say("1. Testing velocity levels..."@),
        StepView::VelocityRamp(60, 20, 120, 3),
        StepView::Sleep(500),
        StepView::Say("2. Testing long press..."@),
        StepView::LongPress(61, 80, 2500),
        StepView::Say("3. Testing double-tap..."@),
        StepView::DoubleTap(62, 80, 50, 200),
        StepView::Say("4. Testing chord..."@),
        c_major_spec(),
        StepView::Say("5. Testing encoder..."@),
        StepView::Encoder(1, EncoderDirection::Clockwise, 10, 30),
    ]
}

/// The script of the `demo` command.
pub fn demo_steps() -> (r: Vec<SimStep>)
    ensures
        steps_v(r@) == demo_spec(),
{
    let mut v: Vec<SimStep> = Vec::new();
    push_step(&mut v, SimStep::Say("1. Testing velocity levels..."));
    push_step(&mut v, SimStep::VelocityRamp { note: 60, min_velocity: 20, max_velocity: 120, steps: 3 });
    push_step(&mut v, SimStep::Sleep { ms: 500 });
    push_step(&mut v, SimStep::Say("2. Testing long press..."));
    push_step(&mut v, SimStep::LongPress { note: 61, velocity: 80, hold_ms: 2500 });
    push_step(&mut v, SimStep::Say("3. Testing double-tap..."));
    push_step(&mut v, SimStep::DoubleTap { note: 62, velocity: 80, tap_ms: 50, gap_ms: 200 });
    push_step(&mut v, SimStep::Say("4. Testing chord..."));
    push_step(&mut v, chord_c_major());
    push_step(&mut v, SimStep::Say("5. Testing encoder..."));
    push_step(&mut v, SimStep::Encoder { cc: 1, direction: EncoderDirection::Clockwise, steps: 10, step_ms: 30 });
    proof {
        assert(steps_v(v@) =~= demo_spec());
    }
    v
}

/// Every note a scenario presses is released again, on the same note, before
/// the script ends (no note is left hanging).
pub open spec fn presses_released(st: Seq<StepView>) -> bool {
    forall|i: int|
        0 <= i < st.len() && (#[trigger] st[i]) is NoteOn ==> exists|j: int|
            i < j < st.len() && st[j] == StepView::NoteOff(st[i]->NoteOn_0)
}

/// How far a script turns the encoders: each clockwise turn counts its
/// steps forward, each counter-clockwise turn its steps back.
pub open spec fn encoder_net_turn(st: Seq<StepView>) -> int
    decreases st.len(),
{
    if st.len() == 0 {
        0
    } else {
        encoder_net_turn(st.drop_last()) + match st.last() {
            StepView::Encoder(_, EncoderDirection::Clockwise, n, _) => n as int,
            StepView::Encoder(_, EncoderDirection::CounterClockwise, n, _) => -(n as int),
            _ => 0,
        }
    }
}

/// A step that turns an encoder at least one step in direction `d`.
pub open spec fn turns(v: StepView, d: EncoderDirection) -> bool {
    match v {
        StepView::Encoder(_, e, n, _) => e == d && n > 0,
        _ => false,
    }
}

/// The encoder scenario turns the encoder back as far as it turned it
/// forward: it turns both ways, and the turns cancel.
pub proof fn encoder_scenario_turns_back()
    ensures
        encoder_net_turn(scenario_spec(Scenario::Encoder)) == 0,
        exists|i: int|
            0 <= i < scenario_spec(Scenario::Encoder).len() && turns(
                #[trigger] scenario_spec(Scenario::Encoder)[i],
                EncoderDirection::Clockwise,
            ),
        exists|i: int|
            0 <= i < scenario_spec(Scenario::Encoder).len() && turns(
                #[trigger] scenario_spec(Scenario::Encoder)[i],
                EncoderDirection::CounterClockwise,
            ),
{
    let st = scenario_spec(Scenario::Encoder);
    assert(st.len() == 5);
    assert(st.take(0) =~= Seq::<StepView>::empty());
    assert(st.take(1).drop_last() =~= st.take(0));
    assert(st.take(2).drop_last() =~= st.take(1));
    assert(st.take(3).drop_last() =~= st.take(2));
    assert(st.take(4).drop_last() =~= st.take(3));
    assert(st.take(5).drop_last() =~= st.take(4));
    assert(st.take(1).last() == st[0] && st.take(2).last() == st[1] && st.take(3).last() == st[2]);
    assert(st.take(4).last() == st[3] && st.take(5).last() == st[4]);
    assert(st[0] is Say && st[2] is Sleep && st[4] is Say);
    assert(encoder_net_turn(st.take(0)) == 0);
    assert(encoder_net_turn(st.take(1)) == 0);
    assert(encoder_net_turn(st.take(2)) == 5);
    assert(encoder_net_turn(st.take(3)) == 5);
    assert(encoder_net_turn(st.take(4)) == 0);
    assert(encoder_net_turn(st.take(5)) == 0);
    assert(st.take(5) =~= st);
    assert(turns(st[1], EncoderDirection::Clockwise));
    assert(turns(st[3], EncoderDirection::CounterClockwise));
}

/// No scripted scenario leaves a note held.
pub proof fn scenarios_release_every_note(s: Scenario)
    ensures
        presses_released(scenario_spec(s)),
{
    let st = scenario_spec(s);
    assert forall|i: int| 0 <= i < st.len() && (#[trigger] st[i]) is NoteOn implies exists|j: int|
        i < j < st.len() && st[j] == StepView::NoteOff(st[i]->NoteOn_0) by {
        match s {
            Scenario::Velocity => {
                assert(st[3] == StepView::NoteOff(60));
                assert(st[7] == StepView::NoteOff(60));
                assert(st[11] == StepView::NoteOff(60));
            },
            Scenario::Complex => {
                assert(st[5] == StepView::NoteOff(60));
                assert(st[13] == StepView::NoteOff(60));
                assert(st[14] == StepView::NoteOff(64));
                assert(st[15] == StepView::NoteOff(67));
                assert(st[25] == StepView::NoteOff(72));
            },
            _ => {},
        }
    }
}

} // verus!
