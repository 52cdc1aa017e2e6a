//! The Mikro MK3 LED tools: the HID reports that light or clear a pad LED,
//! the pad addresses probed, the candidate address rules of the LED finder,
//! and the summary of discovered note-to-address mappings.
use vstd::prelude::*;
use std::collections::HashMap;
use crate::text::{append_dec, append_hex2_upper, dec, hex2_upper, trim, trim_spec, eq_ignore_ascii_case, ascii_ci_eq, to_lowercase, lowercase, str_eq};

verus! {

broadcast use vstd::std_specs::hash::group_hash_axioms;

/// Native Instruments' USB vendor id.
pub const NI_VENDOR_ID: u16 = 0x17CC;

/// The Maschine Mikro MK3's USB product id.
pub const MIKRO_MK3_PRODUCT_ID: u16 = 0x1700;

/// The report id of an LED HID report.
pub const LED_REPORT_ID: u8 = 0x80;

/// The length of the LED report the diagnostic writes: the highest probed
/// address is 0x4B, whose RGB triplet ends at byte 77.
pub const LED_REPORT_LEN: usize = 80;

/// The MIDI client name of the LED finder (its binary's name).
pub const MIDI_CLIENT_NAME: &'static str = "led_tester";

/// Byte `i` of the report that lights the LED at `addr` bright red: red at
/// `addr`, green and blue (0) after it, the report id at 0, all else off.
pub open spec fn led_report_byte(addr: int, i: int) -> u8 {
    if i == addr {
        255
    } else if i == addr + 1 || i == addr + 2 {
        0
    } else if i == 0 {
        LED_REPORT_ID
    } else {
        0
    }
}

fn report_of_len(len: usize) -> (r: Vec<u8>)
    requires
        len >= 1,
    ensures
        r@.len() == len,
        r@[0] == LED_REPORT_ID,
        forall|i: int| 1 <= i < len ==> r@[i] == 0,
{
    let mut v: Vec<u8> = Vec::new();
    v.push(LED_REPORT_ID);
    while v.len() < len
        invariant
            1 <= v@.len() <= len,
            v@[0] == LED_REPORT_ID,
            forall|i: int| 1 <= i < v@.len() ==> v@[i] == 0,
        decreases len - v@.len(),
    {
        v.push(0);
    }
    v
}

/// Build the LED HID report that lights the LED at `addr` bright red, at
/// the full report length so high addresses are not cut off.
pub fn build_led_report(addr: u8) -> (r: Vec<u8>)
    requires
        addr as int + 2 < LED_REPORT_LEN,
    ensures
        r@.len() == LED_REPORT_LEN,
        forall|i: int| 0 <= i < LED_REPORT_LEN ==> r@[i] == led_report_byte(addr as int, i),
{
    let i = addr as usize;
    let mut buffer = report_of_len(LED_REPORT_LEN);
    buffer.set(i, 255);
    buffer.set(i + 1, 0);
    buffer.set(i + 2, 0);
    buffer
}

/// Build the all-off LED report: the report id, then zeros, at the same
/// length as a lit report.
pub fn build_clear_report() -> (r: Vec<u8>)
    ensures
        r@.len() == LED_REPORT_LEN,
        r@[0] == LED_REPORT_ID,
        forall|i: int| 1 <= i < LED_REPORT_LEN ==> r@[i] == 0,
{
    report_of_len(LED_REPORT_LEN)
}

/// The pad LED addresses the diagnostic probes, each with its description,
/// in probing order.
pub fn pad_test_addresses() -> (r: Vec<(u8, &'static str)>)
    ensures
        r@.len() == 16,
        forall|k: int| 0 <= k < 16 ==> #[trigger] r@[k].0 == 0x1E + 3 * k,
{
    let mut v: Vec<(u8, &'static str)> = Vec::new();
    v.push((0x1E, "LED_PAD13 (0x1E) - should be pad index 0"));
    v.push((0x21, "LED_PAD14 (0x21) - should be pad index 1"));
    v.push((0x24, "LED_PAD15 (0x24) - should be pad index 2"));
    v.push((0x27, "LED_PAD16 (0x27) - should be pad index 3"));
    v.push((0x2A, "LED_PAD09 (0x2A) - should be pad index 4"));
    v.push((0x2D, "LED_PAD10 (0x2D) - should be pad index 5"));
    v.push((0x30, "LED_PAD11 (0x30) - should be pad index 6"));
    v.push((0x33, "LED_PAD12 (0x33) - should be pad index 7"));
    v.push((0x36, "LED_PAD05 (0x36) - should be pad index 8"));
    v.push((0x39, "LED_PAD06 (0x39) - should be pad index 9"));
    v.push((0x3C, "LED_PAD07 (0x3C) - should be pad index 10"));
    v.push((0x3F, "LED_PAD08 (0x3F) - should be pad index 11"));
    v.push((0x42, "LED_PAD01 (0x42) - should be pad index 12"));
    v.push((0x45, "LED_PAD02 (0x45) - should be pad index 13"));
    v.push((0x48, "LED_PAD03 (0x48) - should be pad index 14"));
    v.push((0x4B, "LED_PAD04 (0x4B) - should be pad index 15"));
    v
}

/// Every probed address fits its RGB triplet in the report, so the report
/// builder accepts all of them.
pub proof fn probed_addresses_fit(k: int)
    requires
        0 <= k < 16,
    ensures
        0x1E + 3 * k + 2 < LED_REPORT_LEN,
{
}

/// One line of the discovered-mapping summary.
pub open spec fn mapping_line(note: u8, addr: u8) -> Seq<char> {
    "MIDI Note "@ + dec(note as nat) + " → LED address 0x"@ + hex2_upper(addr)
}

/// The summary lines for the notes below `n` that have a discovered
/// address, in ascending note order.
pub open spec fn mapping_lines(m: Map<u8, u8>, n: nat) -> Seq<Seq<char>>
    decreases n,
{
    if n == 0 {
        Seq::empty()
    } else {
        let note = (n - 1) as u8;
        mapping_lines(m, (n - 1) as nat) + if m.contains_key(note) {
            seq![mapping_line(note, m[note])]
        } else {
            Seq::empty()
        }
    }
}

pub open spec fn strings_view(v: Seq<String>) -> Seq<Seq<char>> {
    v.map_values(|s: String| s@)
}

/// Format the discovered `MIDI note → LED address` mappings, one line per
/// note, sorted by note number.
pub fn format_discovered_mapping(results: &HashMap<u8, u8>) -> (r: Vec<String>)
    ensures
        strings_view(r@) == mapping_lines(results@, 256),
{
    let mut out: Vec<String> = Vec::new();
    let mut n: u16 = 0;
    while n < 256
        invariant
            n <= 256,
            strings_view(out@) == mapping_lines(results@, n as nat),
        decreases 256 - n,
    {
        let note = n as u8;
        let ghost before = out@;
        match results.get(&note) {
            Some(addr) => {
                let mut line = String::from_str("MIDI Note ");
                append_dec(&mut line, note as u64);
                line.append(" → LED address 0x");
                append_hex2_upper(&mut line, *addr);
                out.push(line);
                proof {
                    assert(strings_view(out@) =~= strings_view(before).push(mapping_line(note, results@[note])));
                }
            },
            None => {},
        }
        n = n + 1;
        proof {
            assert(((n - 1) as u8) == note);
            assert(strings_view(out@) =~= mapping_lines(results@, n as nat));
        }
    }
    out
}

/// A pad press in a raw MIDI message: a Note On (status `0x9n`) with
/// non-zero velocity, as `(note, velocity)`.
pub open spec fn pad_press_spec(m: Seq<u8>) -> Option<(u8, u8)> {
    if m.len() >= 3 && (m[0] & 0xF0u8) == 0x90u8 && m[2] > 0 {
        Some((m[1], m[2]))
    } else {
        None
    }
}

pub fn pad_press(message: &[u8]) -> (r: Option<(u8, u8)>)
    ensures
        r == pad_press_spec(message@),
{
    if message.len() >= 3 && (message[0] & 0xF0) == 0x90 && message[2] > 0 {
        Some((message[1], message[2]))
    } else {
        None
    }
}

/// One poll of the wait for a pad press.
#[derive(Clone, Copy, Debug, PartialEq, Eq, Structural)]
pub enum WaitStep {
    /// A pad was captured.
    Pad(u8, u8),
    /// No pad before the timeout.
    Timeout,
    /// Sleep one step and poll again.
    Poll,
}

/// The wait for a pad: a capture ends it, otherwise the timeout does, and
/// until then it keeps polling.
pub fn wait_step(captured: Option<(u8, u8)>, elapsed_ms: u64, timeout_ms: u64) -> (r: WaitStep)
    ensures
        captured matches Some((n, v)) ==> r == WaitStep::Pad(n, v),
        captured is None ==> r == if elapsed_ms >= timeout_ms {
            WaitStep::Timeout
        } else {
            WaitStep::Poll
        },
{
    match captured {
        Some((n, v)) => WaitStep::Pad(n, v),
        None => if elapsed_ms >= timeout_ms {
            WaitStep::Timeout
        } else {
            WaitStep::Poll
        },
    }
}

/// The diagnostic's prompts take `y`/`Y` as yes (whitespace ignored).
pub fn answer_is_yes(input: &str) -> (r: bool)
    ensures
        r == ascii_ci_eq(trim_spec(input@), "y"@),
{
    eq_ignore_ascii_case(trim(input), "y")
}

/// After a timeout, only an explicit `q` or `n` (either case) quits.
pub fn answer_is_quit(input: &str) -> (r: bool)
    ensures
        r == (ascii_ci_eq(trim_spec(input@), "q"@) || ascii_ci_eq(trim_spec(input@), "n"@)),
{
    let a = trim(input);
    eq_ignore_ascii_case(a, "q") || eq_ignore_ascii_case(a, "n")
}

/// The LED finder's yes: the trimmed answer lowercases to `y`.
pub fn finder_answer_is_yes(input: &str) -> (r: bool)
    ensures
        r == (lowercase(trim_spec(input@)) == "y"@),
{
    let l = to_lowercase(trim(input));
    str_eq(l.as_str(), "y")
}

// ───────────────────────────── LED finder ─────────────────────────────

/// The candidate LED offsets for a note, each with the rule that gave it:
/// `note * 3`; for notes from 12 on, `(note - 12) * 3` and one past it; the
/// note itself; and `note + 16`.
pub fn led_address_strategies(note: u8) -> (r: Vec<(&'static str, usize)>)
    ensures
        note >= 12 ==> r@.len() == 5 && r@[0].0@ == "Direct: note * 3"@ && r@[0].1 == note * 3 && r@[1].0@
            == "Offset from 12: (note - 12) * 3"@ && r@[1].1 == (note - 12) * 3 && r@[2].0@
            == "Offset from 12 + 1"@ && r@[2].1 == (note - 12) * 3 + 1 && r@[3].0@
            == "Note value as offset"@ && r@[3].1 == note && r@[4].0@ == "Note + 16"@ && r@[4].1 == note
            + 16,
        note < 12 ==> r@.len() == 3 && r@[0].0@ == "Direct: note * 3"@ && r@[0].1 == note * 3 && r@[1].0@
            == "Note value as offset"@ && r@[1].1 == note && r@[2].0@ == "Note + 16"@ && r@[2].1 == note
            + 16,
{
    let mut v: Vec<(&'static str, usize)> = Vec::new();
    v.push(("Direct: note * 3", (note as usize) * 3));
    if note >= 12 {
        let offset = ((note - 12) as usize) * 3;
        v.push(("Offset from 12: (note - 12) * 3", offset));
        v.push(("Offset from 12 + 1", offset + 1));
    }
    v.push(("Note value as offset", note as usize));
    v.push(("Note + 16", (note as usize) + 16));
    v
}

/// Whether the finder tries an offset: its RGB triplet must fit in the
/// 65-byte report it writes.
pub fn finder_tries_offset(offset: usize) -> (r: bool)
    ensures
        r == (offset < 62),
{
    offset < 62
}

/// Byte `i` of the finder's 65-byte report lighting `offset` red.
pub open spec fn finder_report_byte(offset: int, i: int) -> u8 {
    led_report_byte(offset, i)
}

/// The finder's report for an offset: built at 80 bytes, then cut to the 65
/// bytes it writes.
pub fn finder_report(offset: usize) -> (r: Vec<u8>)
    requires
        offset < 62,
    ensures
        r@.len() == 65,
        forall|i: int| 0 <= i < 65 ==> r@[i] == finder_report_byte(offset as int, i),
{
    let mut buffer = report_of_len(80);
    buffer.set(offset, 255);
    buffer.set(offset + 1, 0);
    buffer.set(offset + 2, 0);
    buffer.truncate(65);
    buffer
}

/// The finder's all-off report: the report id and 64 zeros.
pub fn finder_clear_report() -> (r: Vec<u8>)
    ensures
        r@.len() == 65,
        r@[0] == LED_REPORT_ID,
        forall|i: int| 1 <= i < 65 ==> r@[i] == 0,
{
    report_of_len(65)
}

// ───────────────────────────── tray icon ─────────────────────────────

/// The colour of pixel `(x, y)` of the 32×32 tray icon: a blue disc of
/// radius 14 around (16, 16), a white ring out to radius 15, transparent
/// outside (distances compared squared: `d < 14` is `d² < 196`).
pub open spec fn icon_pixel(x: int, y: int) -> Seq<u8> {
    let d2 = (x - 16) * (x - 16) + (y - 16) * (y - 16);
    if d2 < 196 {
        seq![0x3Bu8, 0x82u8, 0xF6u8, 0xFFu8]
    } else if d2 < 225 {
        seq![0xFFu8, 0xFFu8, 0xFFu8, 0xFFu8]
    } else {
        seq![0u8, 0u8, 0u8, 0u8]
    }
}

/// The RGBA bytes of the tray icon, row by row.
pub fn icon_rgba() -> (r: Vec<u8>)
    ensures
        r@.len() == 32 * 32 * 4,
        forall|y: int, x: int, c: int|
            0 <= y < 32 && 0 <= x < 32 && 0 <= c < 4 ==> r@[(y * 32 + x) * 4 + c] == icon_pixel(x, y)[c],
{
    let mut rgba: Vec<u8> = Vec::new();
    let mut y: usize = 0;
    while y < 32
        invariant
            y <= 32,
            rgba@.len() == y * 128,
            forall|yy: int, x: int, c: int|
                0 <= yy < y && 0 <= x < 32 && 0 <= c < 4 ==> rgba@[(yy * 32 + x) * 4 + c] == icon_pixel(
                    x,
                    yy,
                )[c],
        decreases 32 - y,
    {
        let mut x: usize = 0;
        while x < 32
            invariant
                y < 32,
                x <= 32,
                rgba@.len() == y * 128 + x * 4,
                forall|yy: int, xx: int, c: int|
                    0 <= yy < y && 0 <= xx < 32 && 0 <= c < 4 ==> rgba@[(yy * 32 + xx) * 4 + c]
                        == icon_pixel(xx, yy)[c],
                forall|xx: int, c: int|
                    0 <= xx < x && 0 <= c < 4 ==> rgba@[(y * 32 + xx) * 4 + c] == icon_pixel(
                        xx,
                        y as int,
                    )[c],
            decreases 32 - x,
        {
            let dx: i32 = x as i32 - 16;
            let dy: i32 = y as i32 - 16;
            proof {
                assert(0 <= dx * dx <= 256) by (nonlinear_arith)
                    requires
                        -16 <= dx <= 16,
                ;
                assert(0 <= dy * dy <= 256) by (nonlinear_arith)
                    requires
                        -16 <= dy <= 16,
                ;
            }
            let d2: i32 = dx * dx + dy * dy;
            let (r, g, b, a): (u8, u8, u8, u8) = if d2 < 196 {
                (0x3B, 0x82, 0xF6, 0xFF)
            } else if d2 < 225 {
                (0xFF, 0xFF, 0xFF, 0xFF)
            } else {
                (0, 0, 0, 0)
            };
            let ghost base = rgba@.len();
            rgba.push(r);
            rgba.push(g);
            rgba.push(b);
            rgba.push(a);
            proof {
                assert(base == (y * 32 + x) * 4) by (nonlinear_arith)
                    requires
                        base == y * 128 + x * 4,
                ;
                assert forall|yy: int, xx: int, c: int|
                    0 <= yy < y && 0 <= xx < 32 && 0 <= c < 4 implies rgba@[(yy * 32 + xx) * 4 + c]
                        == icon_pixel(xx, yy)[c] by {
                    assert((yy * 32 + xx) * 4 + c < y * 128) by (nonlinear_arith)
                        requires
                            0 <= yy < y,
                            0 <= xx < 32,
                            0 <= c < 4,
                    ;
                }
                assert forall|xx: int, c: int|
                    0 <= xx < x + 1 && 0 <= c < 4 implies rgba@[(y * 32 + xx) * 4 + c] == icon_pixel(
                        xx,
                        y as int,
                    )[c] by {
                    if xx < x {
                        assert((y * 32 + xx) * 4 + c < base) by (nonlinear_arith)
                            requires
                                base == (y * 32 + x) * 4,
                                0 <= xx < x,
                                0 <= c < 4,
                        ;
                    } else {
                        assert((y * 32 + xx) * 4 + c == base + c) by (nonlinear_arith)
                            requires
                                base == (y * 32 + x) * 4,
                                xx == x,
                        ;
                    }
                }
            }
            x = x + 1;
        }
        y = y + 1;
        proof {
            assert forall|yy: int, xx: int, c: int|
                0 <= yy < y && 0 <= xx < 32 && 0 <= c < 4 implies rgba@[(yy * 32 + xx) * 4 + c] == icon_pixel(
                    xx,
                    yy,
                )[c] by {
                if yy < y - 1 {
                } else {
                    assert(yy == y - 1);
                }
            }
        }
    }
    rgba
}

/// The items of the legacy tray menu.
#[derive(Clone, Copy, Debug, PartialEq, Eq, Structural)]
pub enum LegacyMenuAction {
    ReloadConfiguration,
    OpenConfigFile,
    QuitDaemon,
}

/// The action of a legacy tray menu item, by its id; other ids do nothing.
pub fn legacy_menu_action(id: &str) -> (r: Option<LegacyMenuAction>)
    ensures
        r == if id@ == "Reload Configuration"@ {
            Some(LegacyMenuAction::ReloadConfiguration)
        } else if id@ == "Open Config File"@ {
            Some(LegacyMenuAction::OpenConfigFile)
        } else if id@ == "Quit Daemon"@ {
            Some(LegacyMenuAction::QuitDaemon)
        } else {
            None
        },
{
    if str_eq(id, "Reload Configuration") {
        Some(LegacyMenuAction::ReloadConfiguration)
    } else if str_eq(id, "Open Config File") {
        Some(LegacyMenuAction::OpenConfigFile)
    } else if str_eq(id, "Quit Daemon") {
        Some(LegacyMenuAction::QuitDaemon)
    } else {
        None
    }
}

} // verus!
