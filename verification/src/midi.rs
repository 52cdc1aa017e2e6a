//! The MIDI diagnostic: note names, which notes are held (per channel), the
//! port argument, and the line printed for each incoming MIDI message.
use vstd::prelude::*;
use std::collections::HashMap;
use crate::text::{
    append_dec, append_dec_i64, append_hex2_upper, append_pad_left, contains_str, contains_seq, dec,
    dec_int, hex2_upper, pad_left, parse_usize, parse_unsigned,
};
use crate::styled::{Span, Style, line_v, span, span_owned, push_span};
use midi_msg::{ChannelVoiceMsg as V, ControlChange as CC, MidiMsg};

verus! {

broadcast use vstd::std_specs::hash::group_hash_axioms;

// ───────────────────────────── note names ─────────────────────────────

pub open spec fn pitch_class_name(k: int) -> Seq<char> {
    if k == 0 {
        "C"@
    } else if k == 1 {
        "C#"@
    } else if k == 2 {
        "D"@
    } else if k == 3 {
        "D#"@
    } else if k == 4 {
        "E"@
    } else if k == 5 {
        "F"@
    } else if k == 6 {
        "F#"@
    } else if k == 7 {
        "G"@
    } else if k == 8 {
        "G#"@
    } else if k == 9 {
        "A"@
    } else if k == 10 {
        "A#"@
    } else {
        "B"@
    }
}

/// The musical name of a MIDI note: its pitch class and octave, with
/// note 60 as `C4`.
pub open spec fn note_name_spec(note: u8) -> Seq<char> {
    pitch_class_name(note as int % 12) + dec_int(note as int / 12 - 1)
}

fn pitch_class(k: u8) -> (r: &'static str)
    requires
        k < 12,
    ensures
        r@ == pitch_class_name(k as int),
{
    if k == 0 {
        "C"
    } else if k == 1 {
        "C#"
    } else if k == 2 {
        "D"
    } else if k == 3 {
        "D#"
    } else if k == 4 {
        "E"
    } else if k == 5 {
        "F"
    } else if k == 6 {
        "F#"
    } else if k == 7 {
        "G"
    } else if k == 8 {
        "G#"
    } else if k == 9 {
        "A"
    } else if k == 10 {
        "A#"
    } else {
        "B"
    }
}

/// Convert a MIDI note number to its musical note name (e.g. "C4", "A#3").
pub fn note_to_name(note: u8) -> (r: String)
    ensures
        r@ == note_name_spec(note),
{
    let mut s = String::from_str(pitch_class(note % 12));
    let octave: i64 = (note / 12) as i64 - 1;
    append_dec_i64(&mut s, octave);
    s
}

// ───────────────────────────── held notes ─────────────────────────────

/// The key of a held note: its channel and note number together, so the
/// same note on two channels is two keys.
pub open spec fn note_key(ch: u8, note: u8) -> u16 {
    (ch as int * 256 + note as int) as u16
}

fn key_of(ch: u8, note: u8) -> (r: u16)
    ensures
        r == note_key(ch, note),
{
    (ch as u16) * 256 + (note as u16)
}

/// Two channel/note pairs share a key only when they are the same pair.
pub proof fn note_keys_distinct(c1: u8, n1: u8, c2: u8, n2: u8)
    ensures
        note_key(c1, n1) == note_key(c2, n2) <==> (c1 == c2 && n1 == n2),
{
}

/// Record a note press for `(ch, note)` at time `at` (microseconds).
pub fn track_note_on(held: &mut HashMap<u16, u64>, ch: u8, note: u8, at: u64)
    ensures
        final(held)@ == old(held)@.insert(note_key(ch, note), at),
{
    held.insert(key_of(ch, note), at);
}

/// Remove the press of `(ch, note)`, returning its own press time if it was
/// held. A release on one channel leaves the same note on another channel
/// held.
pub fn track_note_off(held: &mut HashMap<u16, u64>, ch: u8, note: u8) -> (r: Option<u64>)
    ensures
        final(held)@ == old(held)@.remove(note_key(ch, note)),
        r == if old(held)@.contains_key(note_key(ch, note)) {
            Some(old(held)@[note_key(ch, note)])
        } else {
            None
        },
{
    let k = key_of(ch, note);
    held.remove(&k)
}

/// Pressing then releasing a note gives back that press's time and leaves
/// every other channel/note as it was; a release never disturbs the same
/// note held on another channel.
pub proof fn press_then_release(held: Map<u16, u64>, ch: u8, note: u8, at: u64, other_ch: u8, other_note: u8)
    requires
        !(other_ch == ch && other_note == note),
    ensures
        held.insert(note_key(ch, note), at).contains_key(note_key(ch, note)),
        held.insert(note_key(ch, note), at)[note_key(ch, note)] == at,
        !held.insert(note_key(ch, note), at).remove(note_key(ch, note)).contains_key(note_key(ch, note)),
        held.remove(note_key(ch, note)).contains_key(note_key(other_ch, other_note)) == held.contains_key(
            note_key(other_ch, other_note),
        ),
        held.contains_key(note_key(other_ch, other_note)) ==> held.remove(note_key(ch, note))[note_key(
            other_ch,
            other_note,
        )] == held[note_key(other_ch, other_note)],
{
}

// ───────────────────────────── the port argument ─────────────────────────────

pub open spec fn port_arg_spec(arg: Option<Seq<char>>) -> Result<Option<nat>, Seq<char>> {
    match arg {
        None => Ok(None),
        Some(s) => match parse_unsigned(s, usize::MAX as nat) {
            Some(v) => Ok(Some(v)),
            None => Err("invalid port number '"@ + s + "': expected a non-negative integer (e.g. 2)"@),
        },
    }
}

/// Resolve the optional port-index argument: none → `Ok(None)` (the tool
/// may pick a port itself); a number → that port; anything else is refused
/// rather than silently ignored.
pub fn parse_port_arg(arg: Option<&str>) -> (r: Result<Option<usize>, String>)
    ensures
        match (r, port_arg_spec(match arg {
            Some(s) => Some(s@),
            None => None,
        })) {
            (Ok(None), Ok(None)) => true,
            (Ok(Some(v)), Ok(Some(w))) => v as nat == w,
            (Err(m), Err(m2)) => m@ == m2,
            _ => false,
        },
{
    match arg {
        None => Ok(None),
        Some(s) => match parse_usize(s) {
            Some(v) => Ok(Some(v)),
            None => {
                let mut m = String::from_str("invalid port number '");
                m.append(s);
                m.append("': expected a non-negative integer (e.g. 2)");
                Err(m)
            },
        },
    }
}

/// The port to open: the requested one, else the first whose name contains
/// `Mikro`; `None` when that is not a valid port.
pub fn choose_port(requested: Option<usize>, port_names: &Vec<String>) -> (r: Option<usize>)
    ensures
        match requested {
            Some(i) => r == if i < port_names@.len() {
                Some(i)
            } else {
                None
            },
            None => match r {
                Some(i) => i < port_names@.len() && contains_seq(port_names@[i as int]@, "Mikro"@)
                    && forall|k: int| 0 <= k < i ==> !contains_seq(#[trigger] port_names@[k]@, "Mikro"@),
                None => forall|k: int|
                    0 <= k < port_names@.len() ==> !contains_seq(#[trigger] port_names@[k]@, "Mikro"@),
            },
        },
{
    match requested {
        Some(i) => if i < port_names.len() {
            Some(i)
        } else {
            None
        },
        None => {
            let mut k: usize = 0;
            while k < port_names.len()
                invariant
                    requested is None,
                    k <= port_names@.len(),
                    forall|j: int| 0 <= j < k ==> !contains_seq(#[trigger] port_names@[j]@, "Mikro"@),
                decreases port_names@.len() - k,
            {
                if contains_str(port_names[k].as_str(), "Mikro") {
                    return Some(k);
                }
                k = k + 1;
            }
            None
        },
    }
}

// ───────────────────────────── MIDI messages ─────────────────────────────

/// A channel voice message, as the diagnostic tells them apart.
#[derive(Clone, Copy, Debug, PartialEq, Eq, Structural)]
pub enum VoiceEvent {
    NoteOn { note: u8, velocity: u8 },
    NoteOff { note: u8, velocity: u8 },
    /// A plain control change (controller number and value).
    ControlChange { control: u8, value: u8 },
    /// Any other kind of control change (high-resolution, RPN, ...).
    OtherControl,
    PolyPressure { note: u8, pressure: u8 },
    ChannelPressure { pressure: u8 },
    PitchBend { bend: u16 },
    ProgramChange { program: u8 },
    /// Any other voice message.
    OtherVoice,
}

/// A parsed MIDI message.
#[derive(Clone, Copy, Debug, PartialEq, Eq, Structural)]
pub enum MidiEvent {
    /// A channel voice message (with or without running status) on a
    /// 0-based channel.
    Voice { channel: u8, event: VoiceEvent },
    /// A system common or real-time message.
    System,
    /// Anything that did not parse as one of the above.
    Unknown,
}

/// A voice message's channel is one of the sixteen MIDI channels.
pub open spec fn valid_event(ev: MidiEvent) -> bool {
    ev matches MidiEvent::Voice { channel, .. } ==> channel < 16
}

/// What `midi_msg` makes of a raw message (`MidiMsg::from_midi`).
pub uninterp spec fn midi_msg_parse(bytes: Seq<u8>) -> MidiEvent;

/// The channel voice message type of `midi_msg`.
#[verifier::external_type_specification]
#[verifier::external_body]
pub struct ExChannelVoiceMsg(midi_msg::ChannelVoiceMsg);

/// Sort a `midi_msg` channel voice message into the cases the diagnostic
/// prints, moving its fields over unchanged.
#[verifier::external_body]
fn voice_event(msg: midi_msg::ChannelVoiceMsg) -> VoiceEvent {
    match msg {
        V::NoteOn { note, velocity } => VoiceEvent::NoteOn { note, velocity },
        V::NoteOff { note, velocity } => VoiceEvent::NoteOff { note, velocity },
        V::ControlChange { control: CC::CC { control, value } } => VoiceEvent::ControlChange { control, value },
        V::ControlChange { .. } => VoiceEvent::OtherControl,
        V::PolyPressure { note, pressure } => VoiceEvent::PolyPressure { note, pressure },
        V::ChannelPressure { pressure } => VoiceEvent::ChannelPressure { pressure },
        V::PitchBend { bend } => VoiceEvent::PitchBend { bend },
        V::ProgramChange { program } => VoiceEvent::ProgramChange { program },
        _ => VoiceEvent::OtherVoice,
    }
}

/// `MidiMsg::from_midi(bytes)`, with its result sorted into the cases the
/// diagnostic prints: a channel voice message (running status or not) with
/// its 0-based channel (`Channel::Ch1` is 0, so always below 16), a system
/// common or real-time message, or anything else.
#[verifier::external_body]
fn parse_midi(bytes: &[u8]) -> (r: MidiEvent)
    ensures
        r == midi_msg_parse(bytes@),
        valid_event(r),
{
    match MidiMsg::from_midi(bytes) {
        Ok((MidiMsg::ChannelVoice { channel, msg }, _))
        | Ok((MidiMsg::RunningChannelVoice { channel, msg }, _)) => MidiEvent::Voice { channel: channel as u8, event: voice_event(msg) },
        Ok((MidiMsg::SystemCommon { .. }, _)) | Ok((MidiMsg::SystemRealTime { .. }, _)) => MidiEvent::System,
        _ => MidiEvent::Unknown,
    }
}

/// The held-note bookkeeping of one message, from the notes held `before`
/// to those held `after`, and the press time it gives back: a Note On with
/// velocity presses; a Note Off, or a Note On with velocity 0, releases
/// (giving back the press time, if the note was held); anything else leaves
/// the held notes alone.
pub open spec fn bookkeeping(before: Map<u16, u64>, after: Map<u16, u64>, ev: MidiEvent, now_us: u64, released: Option<u64>) -> bool {
    match ev {
        MidiEvent::Voice { channel, event: VoiceEvent::NoteOn { note, velocity } } => if velocity > 0 {
            after == before.insert(note_key((channel + 1) as u8, note), now_us) && released is None
        } else {
            after == before.remove(note_key((channel + 1) as u8, note)) && released == if before.contains_key(note_key((channel + 1) as u8, note)) {
                Some(before[note_key((channel + 1) as u8, note)])
            } else {
                None
            }
        },
        MidiEvent::Voice { channel, event: VoiceEvent::NoteOff { note, .. } } => after == before.remove(note_key((channel + 1) as u8, note)) && released == if before.contains_key(
            note_key((channel + 1) as u8, note),
        ) {
            Some(before[note_key((channel + 1) as u8, note)])
        } else {
            None
        },
        _ => after == before && released is None,
    }
}

/// The held-note bookkeeping of one message.
pub fn apply_event(held: &mut HashMap<u16, u64>, ev: &MidiEvent, now_us: u64) -> (r: Option<u64>)
    requires
        valid_event(*ev),
    ensures
        bookkeeping(old(held)@, final(held)@, *ev, now_us, r),
{
    match *ev {
        MidiEvent::Voice { channel, event } => {
            let ch = channel + 1;
            match event {
                VoiceEvent::NoteOn { note, velocity } => {
                    if velocity > 0 {
                        track_note_on(held, ch, note, now_us);
                        None
                    } else {
                        track_note_off(held, ch, note)
                    }
                },
                VoiceEvent::NoteOff { note, .. } => track_note_off(held, ch, note),
                _ => None,
            }
        },
        _ => None,
    }
}

/// One incoming message: what it is (as `midi_msg` reads it) and its
/// held-note bookkeeping.
pub fn receive_message(held: &mut HashMap<u16, u64>, raw: &[u8], now_us: u64) -> (r: (MidiEvent, Option<u64>))
    ensures
        r.0 == midi_msg_parse(raw@),
        valid_event(r.0),
        bookkeeping(old(held)@, final(held)@, r.0, now_us, r.1),
{
    let ev = parse_midi(raw);
    let released = apply_event(held, &ev, now_us);
    (ev, released)
}

// ───────────────────────────── the printed line ─────────────────────────────

/// `s` repeated `n` times.
pub open spec fn repeat(s: Seq<char>, n: nat) -> Seq<char>
    decreases n,
{
    if n == 0 {
        Seq::empty()
    } else {
        repeat(s, (n - 1) as nat) + s
    }
}

fn append_repeat(out: &mut String, s: &str, n: usize)
    ensures
        final(out)@ == old(out)@ + repeat(s@, n as nat),
{
    let mut i: usize = 0;
    while i < n
        invariant
            i <= n,
            out@ == old(out)@ + repeat(s@, i as nat),
        decreases n - i,
    {
        out.append(s);
        i = i + 1;
        proof {
            assert(out@ =~= old(out)@ + repeat(s@, i as nat));
        }
    }
}

/// The level bar of a 7-bit value: one block per 127/20 of it.
pub open spec fn bar_len(v: u8) -> nat {
    (v as nat * 20) / 127
}

/// Raw bytes as `{:02X?}` shows them: `[90, 3C, 64]`.
pub open spec fn hex_list(b: Seq<u8>) -> Seq<char>
    decreases b.len(),
{
    if b.len() == 0 {
        "[]"@
    } else {
        "["@ + hex_items(b) + "]"@
    }
}

pub open spec fn hex_items(b: Seq<u8>) -> Seq<char>
    decreases b.len(),
{
    if b.len() <= 1 {
        if b.len() == 1 {
            hex2_upper(b[0])
        } else {
            Seq::empty()
        }
    } else {
        hex_items(b.drop_last()) + ", "@ + hex2_upper(b.last())
    }
}

fn hex_list_text(b: &[u8]) -> (r: String)
    ensures
        r@ == hex_list(b@),
{
    let n = b.len();
    let mut s = String::from_str("[");
    let mut i: usize = 0;
    while i < n
        invariant
            n == b@.len(),
            i <= n,
            s@ == "["@ + hex_items(b@.take(i as int)),
        decreases n - i,
    {
        proof {
            assert(b@.take(i + 1).drop_last() =~= b@.take(i as int));
        }
        if i > 0 {
            s.append(", ");
        }
        append_hex2_upper(&mut s, b[i]);
        i = i + 1;
        proof {
            if i == 1 {
                assert(hex_items(b@.take(1)) == hex2_upper(b@[0]));
            }
            assert(s@ =~= "["@ + hex_items(b@.take(i as int)));
        }
    }
    s.append("]");
    proof {
        assert(b@.take(n as int) =~= b@);
        if n == 0 {
            reveal_strlit("[]");
            reveal_strlit("[");
            reveal_strlit("]");
            assert(s@ =~= "[]"@);
        }
    }
    s
}

fn padded_dec(n: u64, width: usize) -> (r: String)
    ensures
        r@ == pad_left(dec(n as nat), width as nat),
{
    let mut t = String::new();
    append_dec(&mut t, n);
    let mut s = String::new();
    append_pad_left(&mut s, t.as_str(), width);
    proof {
        assert(t@ =~= dec(n as nat));
        assert(s@ =~= pad_left(dec(n as nat), width as nat));
    }
    s
}

pub open spec fn pl(n: nat, w: nat) -> Seq<char> {
    pad_left(dec(n), w)
}

/// `{:+6}` of an integer: the sign always shown, right-aligned to 6.
pub open spec fn signed6(v: int) -> Seq<char> {
    pad_left(if v < 0 {
        dec_int(v)
    } else {
        "+"@ + dec(v as nat)
    }, 6)
}

/// The line printed for one message (after its timestamp and count), as
/// styled pieces. `held` is the rendered hold time of a released note.
pub open spec fn event_line_spec(ev: MidiEvent, raw: Seq<u8>, names: spec_fn(u8) -> Seq<char>, held: Option<
    Seq<char>,
>) -> Seq<(Seq<char>, Style)> {
    match ev {
        MidiEvent::Voice { channel, event } => {
            let ch = (channel + 1) as nat;
            match event {
                VoiceEvent::NoteOn { note, velocity } => if velocity > 0 {
                    seq![
                        ("Note ON "@, Style::GreenBold),
                        (" "@, Style::Plain),
                        (pad_left(names(note), 3), Style::Cyan),
                        (" ("@ + pl(note as nat, 3) + ") vel="@ + pl(velocity as nat, 3) + " ch="@ + pl(ch, 2)
                            + " "@, Style::Plain),
                        (repeat("█"@, bar_len(velocity)), Style::Green),
                    ]
                } else {
                    seq![
                        ("Note OFF"@, Style::YellowBold),
                        (" "@, Style::Plain),
                        (pad_left(names(note), 3), Style::Cyan),
                        (" ("@ + pl(note as nat, 3) + ") vel=  0 ch="@ + pl(ch, 2) + match held {
                            Some(h) => " (held "@ + h + "s)"@,
                            None => Seq::empty(),
                        }, Style::Plain),
                    ]
                },
                VoiceEvent::NoteOff { note, .. } => seq![
                    ("Note OFF"@, Style::YellowBold),
                    (" "@, Style::Plain),
                    (pad_left(names(note), 3), Style::Cyan),
                    (" ("@ + pl(note as nat, 3) + ")         ch="@ + pl(ch, 2) + match held {
                        Some(h) => " (held "@ + h + "s)"@,
                        None => Seq::empty(),
                    }, Style::Plain),
                ],
                VoiceEvent::ControlChange { control, value } => seq![
                    ("CC      "@, Style::BlueBold),
                    ("   cc="@ + pl(control as nat, 3) + " val="@ + pl(value as nat, 3) + " ch="@ + pl(ch, 2)
                        + " "@, Style::Plain),
                    (repeat("▬"@, bar_len(value)), Style::Blue),
                ],
                VoiceEvent::OtherControl => seq![
                    ("CC      "@, Style::BlueBold),
                    (" "@ + hex_list(raw), Style::Plain),
                ],
                VoiceEvent::PolyPressure { note, pressure } => seq![
                    ("PolyAT  "@, Style::PurpleBold),
                    (" "@, Style::Plain),
                    (pad_left(names(note), 3), Style::Cyan),
                    (" ("@ + pl(note as nat, 3) + ") pres="@ + pl(pressure as nat, 3) + " ch="@ + pl(ch, 2)
                        + " "@, Style::Plain),
                    (repeat("▓"@, bar_len(pressure)), Style::Purple),
                ],
                VoiceEvent::ChannelPressure { pressure } => seq![
                    ("ChanAT  "@, Style::PurpleBold),
                    (" pres="@ + pl(pressure as nat, 3) + "         ch="@ + pl(ch, 2) + " "@, Style::Plain),
                    (repeat("▓"@, bar_len(pressure)), Style::Purple),
                ],
                VoiceEvent::PitchBend { bend } => seq![
                    ("PitchBend"@, Style::MagentaBold),
                    (" value="@ + pl(bend as nat, 5) + " ("@ + signed6(bend - 8192) + ") ch="@ + pl(ch, 2)
                        + " "@ + if bend > 8192 {
                        "↑"@
                    } else if bend < 8192 {
                        "↓"@
                    } else {
                        "◯"@
                    }, Style::Plain),
                ],
                VoiceEvent::ProgramChange { program } => seq![
                    ("ProgChg "@, Style::CyanBold),
                    (" prog="@ + pl(program as nat, 3) + "         ch="@ + pl(ch, 2), Style::Plain),
                ],
                VoiceEvent::OtherVoice => seq![
                    ("Voice   "@, Style::CyanBold),
                    (" "@ + hex_list(raw), Style::Plain),
                ],
            }
        },
        MidiEvent::System => seq![("System  "@, Style::WhiteBold), (" "@ + hex_list(raw), Style::Plain)],
        MidiEvent::Unknown => seq![("Unknown "@, Style::RedBold), (" "@ + hex_list(raw), Style::Plain)],
    }
}

/// The arrow that ends a pitch-bend line points the way of the bend: up
/// above the centre (8192), down below it, a circle at the centre.
pub proof fn pitch_bend_arrow_points_the_way(
    channel: u8,
    bend: u16,
    raw: Seq<u8>,
    names: spec_fn(u8) -> Seq<char>,
    held: Option<Seq<char>>,
)
    ensures
        ({
            let line = event_line_spec(
                MidiEvent::Voice { channel, event: VoiceEvent::PitchBend { bend } },
                raw,
                names,
                held,
            );
            &&& line.len() >= 1
            &&& line.last().0.len() >= 1
            &&& bend > 8192 ==> line.last().0.last() == '↑'
            &&& bend < 8192 ==> line.last().0.last() == '↓'
            &&& bend == 8192 ==> line.last().0.last() == '◯'
        }),
{
    reveal_strlit("↑");
    reveal_strlit("↓");
    reveal_strlit("◯");
}

fn push_note_name(line: &mut Vec<Span>, note: u8)
    ensures
        line_v(final(line)@) == line_v(old(line)@) + seq![
            (" "@, Style::Plain),
            (pad_left(note_name_spec(note), 3), Style::Cyan),
        ],
{
    push_span(line, span(" ", Style::Plain));
    let name = note_to_name(note);
    let mut padded = String::new();
    append_pad_left(&mut padded, name.as_str(), 3);
    proof {
        assert(padded@ =~= pad_left(note_name_spec(note), 3));
    }
    push_span(line, span_owned(padded, Style::Cyan));
    proof {
        assert(line_v(final(line)@) =~= line_v(old(line)@) + seq![
            (" "@, Style::Plain),
            (pad_left(note_name_spec(note), 3), Style::Cyan),
        ]);
    }
}

fn push_bar(line: &mut Vec<Span>, block: &str, v: u8, style: Style)
    ensures
        line_v(final(line)@) == line_v(old(line)@).push((repeat(block@, bar_len(v)), style)),
{
    let n: usize = ((v as usize) * 20) / 127;
    let mut bar = String::new();
    append_repeat(&mut bar, block, n);
    proof {
        assert(bar@ =~= repeat(block@, bar_len(v)));
    }
    push_span(line, span_owned(bar, style));
}

fn held_suffix(t: &mut String, held: Option<&str>)
    ensures
        final(t)@ == old(t)@ + match held {
            Some(h) => " (held "@ + h@ + "s)"@,
            None => Seq::<char>::empty(),
        },
{
    match held {
        Some(h) => {
            t.append(" (held ");
            t.append(h);
            t.append("s)");
        },
        None => {
            proof {
                assert(old(t)@ + Seq::<char>::empty() =~= old(t)@);
            }
        },
    }
}

/// The styled line printed for one message.
pub fn event_line(ev: &MidiEvent, raw: &[u8], held: Option<&str>) -> (r: Vec<Span>)
    requires
        valid_event(*ev),
    ensures
        line_v(r@) == event_line_spec(
            *ev,
            raw@,
            |n: u8| note_name_spec(n),
            match held {
                Some(h) => Some(h@),
                None => None,
            },
        ),
{
    let mut line: Vec<Span> = Vec::new();
    match *ev {
        MidiEvent::Voice { channel, event } => {
            let ch: u64 = channel as u64 + 1;
            match event {
                VoiceEvent::NoteOn { note, velocity } => {
                    if velocity > 0 {
                        push_span(&mut line, span("Note ON ", Style::GreenBold));
                        push_note_name(&mut line, note);
                        let mut t = String::from_str(" (");
                        t.append(padded_dec(note as u64, 3).as_str());
                        t.append(") vel=");
                        t.append(padded_dec(velocity as u64, 3).as_str());
                        t.append(" ch=");
                        t.append(padded_dec(ch, 2).as_str());
                        t.append(" ");
                        push_span(&mut line, span_owned(t, Style::Plain));
                        push_bar(&mut line, "█", velocity, Style::Green);
                    } else {
                        push_span(&mut line, span("Note OFF", Style::YellowBold));
                        push_note_name(&mut line, note);
                        let mut t = String::from_str(" (");
                        t.append(padded_dec(note as u64, 3).as_str());
                        t.append(") vel=  0 ch=");
                        t.append(padded_dec(ch, 2).as_str());
                        held_suffix(&mut t, held);
                        push_span(&mut line, span_owned(t, Style::Plain));
                    }
                },
                VoiceEvent::NoteOff { note, .. } => {
                    push_span(&mut line, span("Note OFF", Style::YellowBold));
                    push_note_name(&mut line, note);
                    let mut t = String::from_str(" (");
                    t.append(padded_dec(note as u64, 3).as_str());
                    t.append(")         ch=");
                    t.append(padded_dec(ch, 2).as_str());
                    held_suffix(&mut t, held);
                    push_span(&mut line, span_owned(t, Style::Plain));
                },
                VoiceEvent::ControlChange { control, value } => {
                    push_span(&mut line, span("CC      ", Style::BlueBold));
                    let mut t = String::from_str("   cc=");
                    t.append(padded_dec(control as u64, 3).as_str());
                    t.append(" val=");
                    t.append(padded_dec(value as u64, 3).as_str());
                    t.append(" ch=");
                    t.append(padded_dec(ch, 2).as_str());
                    t.append(" ");
                    push_span(&mut line, span_owned(t, Style::Plain));
                    push_bar(&mut line, "▬", value, Style::Blue);
                },
                VoiceEvent::OtherControl => {
                    push_span(&mut line, span("CC      ", Style::BlueBold));
                    let mut t = String::from_str(" ");
                    t.append(hex_list_text(raw).as_str());
                    push_span(&mut line, span_owned(t, Style::Plain));
                },
                VoiceEvent::PolyPressure { note, pressure } => {
                    push_span(&mut line, span("PolyAT  ", Style::PurpleBold));
                    push_note_name(&mut line, note);
                    let mut t = String::from_str(" (");
                    t.append(padded_dec(note as u64, 3).as_str());
                    t.append(") pres=");
                    t.append(padded_dec(pressure as u64, 3).as_str());
                    t.append(" ch=");
                    t.append(padded_dec(ch, 2).as_str());
                    t.append(" ");
                    push_span(&mut line, span_owned(t, Style::Plain));
                    push_bar(&mut line, "▓", pressure, Style::Purple);
                },
                VoiceEvent::ChannelPressure { pressure } => {
                    push_span(&mut line, span("ChanAT  ", Style::PurpleBold));
                    let mut t = String::from_str(" pres=");
                    t.append(padded_dec(pressure as u64, 3).as_str());
                    t.append("         ch=");
                    t.append(padded_dec(ch, 2).as_str());
                    t.append(" ");
                    push_span(&mut line, span_owned(t, Style::Plain));
                    push_bar(&mut line, "▓", pressure, Style::Purple);
                },
                VoiceEvent::PitchBend { bend } => {
                    push_span(&mut line, span("PitchBend", Style::MagentaBold));
                    let centered: i64 = bend as i64 - 8192;
                    let mut t = String::from_str(" value=");
                    t.append(padded_dec(bend as u64, 5).as_str());
                    t.append(" (");
                    let mut sgn = String::new();
                    if centered < 0 {
                        append_dec_i64(&mut sgn, centered);
                    } else {
                        sgn.append("+");
                        append_dec(&mut sgn, centered as u64);
                    }
                    append_pad_left(&mut t, sgn.as_str(), 6);
                    t.append(") ch=");
                    t.append(padded_dec(ch, 2).as_str());
                    t.append(" ");
                    if centered > 0 {
                        t.append("↑");
                    } else if centered < 0 {
                        t.append("↓");
                    } else {
                        t.append("◯");
                    }
                    proof {
                        assert(sgn@ =~= if bend - 8192 < 0 {
                            dec_int(bend - 8192)
                        } else {
                            "+"@ + dec((bend - 8192) as nat)
                        });
                    }
                    push_span(&mut line, span_owned(t, Style::Plain));
                },
                VoiceEvent::ProgramChange { program } => {
                    push_span(&mut line, span("ProgChg ", Style::CyanBold));
                    let mut t = String::from_str(" prog=");
                    t.append(padded_dec(program as u64, 3).as_str());
                    t.append("         ch=");
                    t.append(padded_dec(ch, 2).as_str());
                    push_span(&mut line, span_owned(t, Style::Plain));
                },
                VoiceEvent::OtherVoice => {
                    push_span(&mut line, span("Voice   ", Style::CyanBold));
                    let mut t = String::from_str(" ");
                    t.append(hex_list_text(raw).as_str());
                    push_span(&mut line, span_owned(t, Style::Plain));
                },
            }
        },
        MidiEvent::System => {
            push_span(&mut line, span("System  ", Style::WhiteBold));
            let mut t = String::from_str(" ");
            t.append(hex_list_text(raw).as_str());
            push_span(&mut line, span_owned(t, Style::Plain));
        },
        MidiEvent::Unknown => {
            push_span(&mut line, span("Unknown ", Style::RedBold));
            let mut t = String::from_str(" ");
            t.append(hex_list_text(raw).as_str());
            push_span(&mut line, span_owned(t, Style::Plain));
        },
    }
    proof {
        assert(line_v(line@) =~= event_line_spec(
            *ev,
            raw@,
            |n: u8| note_name_spec(n),
            match held {
                Some(h) => Some(h@),
                None => None,
            },
        ));
    }
    line
}

/// The `Note OFF` line of a velocity-0 Note On: always a complete line,
/// with the hold time only when the press was tracked.
pub fn format_note_off_velocity_zero(note_name: &str, note: u8, ch: u8, held: Option<&str>) -> (r: Vec<Span>)
    ensures
        line_v(r@) == seq![
            ("Note OFF"@, Style::YellowBold),
            (" "@, Style::Plain),
            (pad_left(note_name@, 3), Style::Cyan),
            (" ("@ + pl(note as nat, 3) + ") vel=  0 ch="@ + pl(ch as nat, 2) + match held {
                Some(h) => " (held "@ + h@ + "s)"@,
                None => Seq::<char>::empty(),
            }, Style::Plain),
        ],
{
    let mut line: Vec<Span> = Vec::new();
    push_span(&mut line, span("Note OFF", Style::YellowBold));
    push_span(&mut line, span(" ", Style::Plain));
    let mut padded = String::new();
    append_pad_left(&mut padded, note_name, 3);
    push_span(&mut line, span_owned(padded, Style::Cyan));
    let mut t = String::from_str(" (");
    t.append(padded_dec(note as u64, 3).as_str());
    t.append(") vel=  0 ch=");
    t.append(padded_dec(ch as u64, 2).as_str());
    held_suffix(&mut t, held);
    push_span(&mut line, span_owned(t, Style::Plain));
    proof {
        assert(line_v(line@) =~= seq![
            ("Note OFF"@, Style::YellowBold),
            (" "@, Style::Plain),
            (pad_left(note_name@, 3), Style::Cyan),
            (" ("@ + pl(note as nat, 3) + ") vel=  0 ch="@ + pl(ch as nat, 2) + match held {
                Some(h) => " (held "@ + h@ + "s)"@,
                None => Seq::<char>::empty(),
            }, Style::Plain),
        ]);
    }
    line
}

} // verus!
