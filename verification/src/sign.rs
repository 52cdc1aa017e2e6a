//! `conductor-sign`: terminal-safe display of untrusted signature fields,
//! hex keys, Ed25519 signing, and the checks around a plugin's signing-key
//! rotation chain.
use vstd::prelude::*;
use crate::text::{is_control, is_control_spec, push_char, trim, trim_spec, contains_str, contains_seq, str_eq};
use crate::json::{JsonValue, spec_get, json_text_value, parse_json_text};

verus! {

// ───────────────────────────── terminal sanitizing ─────────────────────────────

/// `s` without its control characters.
pub open spec fn strip_controls(s: Seq<char>) -> Seq<char>
    decreases s.len(),
{
    if s.len() == 0 {
        Seq::empty()
    } else {
        let rest = strip_controls(s.drop_last());
        if is_control_spec(s.last()) {
            rest
        } else {
            rest.push(s.last())
        }
    }
}

/// Strip control / escape characters before printing an untrusted string
/// (e.g. a plugin author's name or timestamp read from a `.sig`) to the
/// terminal, so it cannot inject ANSI escape sequences and spoof output.
pub fn sanitize_for_terminal(s: &str) -> (r: String)
    ensures
        r@ == strip_controls(s@),
{
    let mut out = String::new();
    let n = s.unicode_len();
    let mut i: usize = 0;
    while i < n
        invariant
            n == s@.len(),
            i <= n,
            out@ == strip_controls(s@.take(i as int)),
        decreases n - i,
    {
        let c = s.get_char(i);
        proof {
            assert(s@.take(i + 1).drop_last() =~= s@.take(i as int));
            assert(s@.take(i + 1).last() == c);
        }
        if !is_control(c) {
            push_char(&mut out, c);
        }
        i = i + 1;
    }
    proof {
        assert(s@.take(n as int) =~= s@);
    }
    out
}

proof fn lemma_strip_no_controls(s: Seq<char>)
    ensures
        forall|i: int| 0 <= i < strip_controls(s).len() ==> !is_control_spec(#[trigger] strip_controls(s)[i]),
    decreases s.len(),
{
    if s.len() > 0 {
        lemma_strip_no_controls(s.drop_last());
        let rest = strip_controls(s.drop_last());
        if !is_control_spec(s.last()) {
            assert forall|i: int| 0 <= i < rest.push(s.last()).len() implies !is_control_spec(
                #[trigger] rest.push(s.last())[i],
            ) by {
                if i < rest.len() {
                    assert(rest.push(s.last())[i] == rest[i]);
                }
            }
        }
    }
}

proof fn lemma_strip_clean(s: Seq<char>)
    requires
        forall|i: int| 0 <= i < s.len() ==> !is_control_spec(#[trigger] s[i]),
    ensures
        strip_controls(s) == s,
    decreases s.len(),
{
    if s.len() > 0 {
        assert(forall|i: int|
            0 <= i < s.drop_last().len() ==> s.drop_last()[i] == s[i]);
        lemma_strip_clean(s.drop_last());
        assert(s.drop_last().push(s.last()) =~= s);
    }
}

/// What is printed from an untrusted field holds no control character, so
/// it can carry no escape sequence; a field without control characters is
/// printed unchanged, and sanitizing twice changes nothing more.
pub proof fn sanitized_text_is_inert(s: Seq<char>)
    ensures
        forall|i: int|
            0 <= i < strip_controls(s).len() ==> !is_control_spec(#[trigger] strip_controls(s)[i]),
        (forall|i: int| 0 <= i < s.len() ==> !is_control_spec(#[trigger] s[i])) ==> strip_controls(s)
            == s,
        strip_controls(strip_controls(s)) == strip_controls(s),
{
    lemma_strip_no_controls(s);
    if forall|i: int| 0 <= i < s.len() ==> !is_control_spec(#[trigger] s[i]) {
        lemma_strip_clean(s);
    }
    lemma_strip_clean(strip_controls(s));
}

// ───────────────────────────── hex ─────────────────────────────

/// The lowercase hex digit for `d` (0..=15).
pub open spec fn hex_digit_lower(d: int) -> char {
    if d < 10 {
        (('0' as int) + d) as char
    } else {
        (('a' as int) + d - 10) as char
    }
}

/// Lowercase hex of a byte string, two digits per byte, high nibble first.
pub open spec fn hex_lower(bytes: Seq<u8>) -> Seq<char>
    decreases bytes.len(),
{
    if bytes.len() == 0 {
        Seq::empty()
    } else {
        hex_lower(bytes.drop_last()) + seq![
            hex_digit_lower(bytes.last() as int / 16),
            hex_digit_lower(bytes.last() as int % 16),
        ]
    }
}

/// The value of a hex digit of either case.
pub open spec fn hex_value(c: char) -> Option<int> {
    if '0' <= c && c <= '9' {
        Some(c as int - '0' as int)
    } else if 'a' <= c && c <= 'f' {
        Some(c as int - 'a' as int + 10)
    } else if 'A' <= c && c <= 'F' {
        Some(c as int - 'A' as int + 10)
    } else {
        None
    }
}

/// Whether every character is a hex digit of either case.
pub open spec fn all_hex(s: Seq<char>) -> bool {
    forall|i: int| 0 <= i < s.len() ==> (#[trigger] hex_value(s[i])) is Some
}

/// The bytes an even-length hex string stands for, two digits per byte.
pub open spec fn hex_bytes(s: Seq<char>) -> Seq<u8>
    decreases s.len(),
{
    if s.len() < 2 {
        Seq::empty()
    } else {
        hex_bytes(s.subrange(0, s.len() - 2)).push(
            (hex_value(s[s.len() - 2])->0 * 16 + hex_value(s[s.len() - 1])->0) as u8,
        )
    }
}

/// `hex::decode` succeeds on exactly the even-length strings of hex digits.
pub open spec fn hex_decodable(s: Seq<char>) -> bool {
    s.len() % 2 == 0 && all_hex(s)
}

fn hex_digit_lower_char(d: u8) -> (c: char)
    requires
        d < 16,
    ensures
        c == hex_digit_lower(d as int),
{
    if d == 0 {
        '0'
    } else if d == 1 {
        '1'
    } else if d == 2 {
        '2'
    } else if d == 3 {
        '3'
    } else if d == 4 {
        '4'
    } else if d == 5 {
        '5'
    } else if d == 6 {
        '6'
    } else if d == 7 {
        '7'
    } else if d == 8 {
        '8'
    } else if d == 9 {
        '9'
    } else if d == 10 {
        'a'
    } else if d == 11 {
        'b'
    } else if d == 12 {
        'c'
    } else if d == 13 {
        'd'
    } else if d == 14 {
        'e'
    } else {
        'f'
    }
}

/// Lowercase hex of the bytes, two digits per byte, high nibble first (what
/// `hex::encode` gives).
pub fn hex_encode(bytes: &[u8]) -> (r: String)
    ensures
        r@ == hex_lower(bytes@),
{
    let mut s = String::new();
    let n = bytes.len();
    let mut i: usize = 0;
    while i < n
        invariant
            n == bytes@.len(),
            i <= n,
            s@ == hex_lower(bytes@.subrange(0, i as int)),
        decreases n - i,
    {
        let b = bytes[i];
        let hi = hex_digit_lower_char(b / 16);
        let lo = hex_digit_lower_char(b % 16);
        let ghost before = s@;
        push_char(&mut s, hi);
        push_char(&mut s, lo);
        proof {
            let x = bytes@.subrange(0, i + 1);
            assert(x.drop_last() =~= bytes@.subrange(0, i as int));
            assert(x.last() == b);
            assert(s@ =~= before + seq![hi, lo]);
        }
        i = i + 1;
    }
    proof {
        assert(bytes@.subrange(0, n as int) =~= bytes@);
    }
    s
}

/// `hex::decode`: `Some` with the bytes when the string is an even number of
/// hex digits (either case), `None` otherwise.
#[verifier::external_body]
fn hex_decode(s: &str) -> (r: Option<Vec<u8>>)
    ensures
        match r {
            Some(v) => hex_decodable(s@) && v@ == hex_bytes(s@),
            None => !hex_decodable(s@),
        },
{
    hex::decode(s).ok()
}

/// Why a hex-encoded 32-byte key was refused.
#[derive(Clone, Copy, Debug, PartialEq, Eq, Structural)]
pub enum KeyHexError {
    /// Not an even-length string of hex digits.
    NotHex,
    /// Hex, but not 32 bytes long.
    WrongLength,
}

pub open spec fn decode_key_spec(s: Seq<char>) -> Result<Seq<u8>, KeyHexError> {
    let t = trim_spec(s);
    if !hex_decodable(t) {
        Err(KeyHexError::NotHex)
    } else if hex_bytes(t).len() != 32 {
        Err(KeyHexError::WrongLength)
    } else {
        Ok(hex_bytes(t))
    }
}

fn to_array32(v: &Vec<u8>) -> (r: [u8; 32])
    requires
        v@.len() == 32,
    ensures
        r@ == v@,
{
    let mut a = [0u8; 32];
    let mut i: usize = 0;
    while i < 32
        invariant
            v@.len() == 32,
            i <= 32,
            forall|j: int| 0 <= j < i ==> a@[j] == v@[j],
        decreases 32 - i,
    {
        a[i] = v[i];
        i = i + 1;
    }
    proof {
        assert(a@ =~= v@);
    }
    a
}

/// Decode a hex public key (surrounding whitespace ignored) into its 32
/// bytes.
pub fn decode_key_hex(s: &str) -> (r: Result<[u8; 32], KeyHexError>)
    ensures
        match (r, decode_key_spec(s@)) {
            (Ok(a), Ok(b)) => a@ == b,
            (Err(e), Err(f)) => e == f,
            _ => false,
        },
{
    let t = trim(s);
    match hex_decode(t) {
        None => Err(KeyHexError::NotHex),
        Some(v) => {
            if v.len() != 32 {
                Err(KeyHexError::WrongLength)
            } else {
                Ok(to_array32(&v))
            }
        },
    }
}

/// The message for a trusted key that does not decode.
pub open spec fn trusted_key_error_spec(hex_pk: Seq<char>, e: KeyHexError) -> Seq<char> {
    match e {
        KeyHexError::NotHex => "trusted key is not valid hex: "@ + hex_pk,
        KeyHexError::WrongLength => "trusted key is not 32 bytes: "@ + hex_pk,
    }
}

/// Decode one trust-store key, with the trust-store error messages.
pub fn decode_trusted_key(hex_pk: &str) -> (r: Result<[u8; 32], String>)
    ensures
        match (r, decode_key_spec(hex_pk@)) {
            (Ok(a), Ok(b)) => a@ == b,
            (Err(m), Err(e)) => m@ == trusted_key_error_spec(hex_pk@, e),
            _ => false,
        },
{
    match decode_key_hex(hex_pk) {
        Ok(a) => Ok(a),
        Err(e) => {
            let mut m = match e {
                KeyHexError::NotHex => String::from_str("trusted key is not valid hex: "),
                KeyHexError::WrongLength => String::from_str("trusted key is not 32 bytes: "),
            };
            m.append(hex_pk);
            Err(m)
        },
    }
}

/// The message for a `.public` key file that does not decode.
pub open spec fn public_key_error_spec(path: Seq<char>, e: KeyHexError) -> Seq<char> {
    match e {
        KeyHexError::NotHex => "public key "@ + path + " is not valid hex"@,
        KeyHexError::WrongLength => "public key "@ + path + " is not 32 bytes"@,
    }
}

/// The public key held in the text of a `.public` file at `path`.
pub fn parse_public_key_file(path: &str, contents: &str) -> (r: Result<[u8; 32], String>)
    ensures
        match (r, decode_key_spec(contents@)) {
            (Ok(a), Ok(b)) => a@ == b,
            (Err(m), Err(e)) => m@ == public_key_error_spec(path@, e),
            _ => false,
        },
{
    match decode_key_hex(contents) {
        Ok(a) => Ok(a),
        Err(e) => {
            let mut m = String::from_str("public key ");
            m.append(path);
            match e {
                KeyHexError::NotHex => m.append(" is not valid hex"),
                KeyHexError::WrongLength => m.append(" is not 32 bytes"),
            }
            Err(m)
        },
    }
}

/// The private key held in the bytes of a `.private` file at `path`: exactly
/// 32 raw bytes.
pub fn parse_private_key_file(path: &str, bytes: &Vec<u8>) -> (r: Result<[u8; 32], String>)
    ensures
        bytes@.len() == 32 <==> r is Ok,
        r matches Ok(a) ==> a@ == bytes@,
        r matches Err(m) ==> m@ == "private key "@ + path@ + " is not 32 bytes"@,
{
    if bytes.len() == 32 {
        Ok(to_array32(bytes))
    } else {
        let mut m = String::from_str("private key ");
        m.append(path);
        m.append(" is not 32 bytes");
        Err(m)
    }
}

// ───────────────────────────── Ed25519 ─────────────────────────────

/// The Ed25519 public key of a 32-byte secret key.
pub uninterp spec fn ed25519_public(secret: Seq<u8>) -> Seq<u8>;

/// The Ed25519 signature of `msg` under a 32-byte secret key (Ed25519
/// signing is deterministic).
pub uninterp spec fn ed25519_signature(secret: Seq<u8>, msg: Seq<u8>) -> Seq<u8>;

/// `SigningKey::from_bytes(secret).verifying_key().to_bytes()`.
#[verifier::external_body]
pub(crate) fn public_key_of(secret: &[u8; 32]) -> (r: [u8; 32])
    ensures
        r@ == ed25519_public(secret@),
{
    ed25519_dalek::SigningKey::from_bytes(secret).verifying_key().to_bytes()
}

/// `SigningKey::from_bytes(secret).sign(msg).to_bytes()`.
#[verifier::external_body]
pub(crate) fn sign_message(secret: &[u8; 32], msg: &[u8]) -> (r: [u8; 64])
    ensures
        r@ == ed25519_signature(secret@, msg@),
{
    let key = ed25519_dalek::SigningKey::from_bytes(secret);
    ed25519_dalek::Signer::sign(&key, msg).to_bytes()
}

/// `OsRng.try_fill_bytes` on a 32-byte buffer: `Some` with the bytes the
/// operating system's random source gave (the Ed25519 secret key that
/// `SigningKey::generate` would take), `None` when that source failed.
/// Nothing is promised of the bytes, nor of which outcome comes.
#[verifier::external_body]
fn random_secret_key() -> (r: Option<[u8; 32]>) {
    let mut secret = [0u8; 32];
    match rand::RngCore::try_fill_bytes(&mut rand::rngs::OsRng, &mut secret) {
        Ok(()) => Some(secret),
        Err(_) => None,
    }
}

/// A freshly generated key pair, with the hex of its public half as written
/// to the `.public` file.
pub struct GeneratedKeypair {
    pub private_key: [u8; 32],
    pub public_key: [u8; 32],
    pub public_hex: String,
}

/// The key pair of a 32-byte Ed25519 secret key: the secret itself, its
/// public key, and the public key's lowercase hex (what goes to the
/// `.public` file).
pub fn keypair_from_secret(private_key: [u8; 32]) -> (r: GeneratedKeypair)
    ensures
        r.private_key == private_key,
        r.public_key@ == ed25519_public(private_key@),
        r.public_hex@ == hex_lower(r.public_key@),
{
    let public_key = public_key_of(&private_key);
    let public_hex = hex_encode(&public_key);
    GeneratedKeypair { private_key, public_key, public_hex }
}

/// Generate an Ed25519 keypair: a secret key drawn from the operating
/// system's random source, and the key pair `keypair_from_secret` builds
/// from it; `None` when the random source fails. Which bytes are drawn, and
/// whether the source fails, rest on the machine: whatever comes back, a
/// result holds a secret with its own public key and hex.
pub fn generate_keypair() -> (r: Option<GeneratedKeypair>)
    ensures
        r matches Some(k) ==> k.public_key@ == ed25519_public(k.private_key@) && k.public_hex@ == hex_lower(
            k.public_key@,
        ),
{
    match random_secret_key() {
        Some(private_key) => Some(keypair_from_secret(private_key)),
        None => None,
    }
}

/// The `signature` field of a signed-registry envelope: the Ed25519
/// signature of the registry's signed message under `private_key`, in
/// lowercase hex.
pub fn registry_signature_hex(private_key: &[u8; 32], message: &[u8]) -> (r: String)
    ensures
        r@ == hex_lower(ed25519_signature(private_key@, message@)),
{
    let signature = sign_message(private_key, message);
    hex_encode(&signature)
}

/// The two files a keypair is written to: `<output>.private` and
/// `<output>.public`.
pub fn keypair_paths(output_path: &str) -> (r: (String, String))
    ensures
        r.0@ == output_path@ + ".private"@,
        r.1@ == output_path@ + ".public"@,
{
    let mut p = String::from_str(output_path);
    p.append(".private");
    let mut q = String::from_str(output_path);
    q.append(".public");
    (p, q)
}

// ───────────────────────────── plugin verification ─────────────────────────────

/// How `verify` ends after the signature check.
#[derive(Clone, Copy, Debug, PartialEq, Eq, Structural)]
pub enum VerifyVerdict {
    /// Valid signature by a trusted key (exit 0).
    Trusted,
    /// Valid signature, but the key is not trusted (exit 1, with guidance).
    UntrustedKey,
    /// The signature did not verify (exit 1).
    Failed,
}

/// Classify the outcome of the signature check from its error text, if any:
/// an error that mentions `untrusted key` is a valid signature by an
/// unknown key.
pub fn verify_verdict(error: Option<&str>) -> (r: VerifyVerdict)
    ensures
        error is None ==> r == VerifyVerdict::Trusted,
        error matches Some(e) ==> (r == if contains_seq(e@, "untrusted key"@) {
            VerifyVerdict::UntrustedKey
        } else {
            VerifyVerdict::Failed
        }),
{
    match error {
        None => VerifyVerdict::Trusted,
        Some(e) => if contains_str(e, "untrusted key") {
            VerifyVerdict::UntrustedKey
        } else {
            VerifyVerdict::Failed
        },
    }
}

/// The command that would trust the signer of an untrusted plugin, with
/// both untrusted fields sanitized.
pub fn trust_add_hint(public_key: &str, developer: &str) -> (r: String)
    ensures
        r@ == "  conductor-sign trust add "@ + strip_controls(public_key@) + " \""@ + strip_controls(
            developer@,
        ) + "\""@,
{
    let mut s = String::from_str("  conductor-sign trust add ");
    let k = sanitize_for_terminal(public_key);
    s.append(k.as_str());
    s.append(" \"");
    let d = sanitize_for_terminal(developer);
    s.append(d.as_str());
    s.append("\"");
    s
}

// ───────────────────────────── registry signing ─────────────────────────────

/// The advisory warnings for a registry payload (already parsed as JSON):
/// one for a missing `sequence_number`, one for a missing `published_at`.
pub open spec fn rollback_warnings_spec(v: JsonValue) -> Seq<Seq<char>> {
    (if spec_get(v, "sequence_number"@) is None {
        seq![missing_sequence_warning()]
    } else {
        Seq::empty()
    }) + (if spec_get(v, "published_at"@) is None {
        seq![missing_published_warning()]
    } else {
        Seq::empty()
    })
}

pub open spec fn missing_sequence_warning() -> Seq<char> {
    "Warning: payload has no `sequence_number` — the client requires a strictly-increasing sequence_number for rollback protection"@
}

pub open spec fn missing_published_warning() -> Seq<char> {
    "Warning: payload has no `published_at` — the client REQUIRES published_at (RFC 3339); this document would be rejected on fetch"@
}

pub open spec fn strings_view(v: Seq<String>) -> Seq<Seq<char>> {
    v.map_values(|s: String| s@)
}

/// Advisory check: the client requires `sequence_number` and `published_at`
/// inside the payload; the warnings to print when either is absent. A
/// payload that is not JSON gets none (`payload` is `None`).
pub fn rollback_field_warnings(payload: Option<&JsonValue>) -> (r: Vec<String>)
    ensures
        match payload {
            Some(v) => strings_view(r@) == rollback_warnings_spec(*v),
            None => r@.len() == 0,
        },
{
    let mut out: Vec<String> = Vec::new();
    if let Some(v) = payload {
        if v.get("sequence_number").is_none() {
            out.push(
                String::from_str(
                    "Warning: payload has no `sequence_number` — the client requires a strictly-increasing sequence_number for rollback protection",
                ),
            );
        }
        if v.get("published_at").is_none() {
            out.push(
                String::from_str(
                    "Warning: payload has no `published_at` — the client REQUIRES published_at (RFC 3339); this document would be rejected on fetch",
                ),
            );
        }
        proof {
            assert(strings_view(out@) =~= rollback_warnings_spec(*v));
        }
    }
    out
}

/// The rollback-field warnings of a registry payload as written: read as
/// JSON, then checked; a payload that is not JSON gets none.
pub fn payload_rollback_warnings(payload: &str) -> (r: Vec<String>)
    ensures
        match json_text_value(payload@) {
            Ok(v) => strings_view(r@) == rollback_warnings_spec(v),
            Err(_) => r@.len() == 0,
        },
{
    match parse_json_text(payload) {
        Ok(v) => rollback_field_warnings(Some(&v)),
        Err(_) => rollback_field_warnings(None),
    }
}


// ───────────────────────────── trust store ─────────────────────────────

/// A record of the trust store: the key and the metadata kept with it.
pub struct TrustedKey {
    pub public_key: String,
    pub name: String,
    pub email: String,
    pub added_at: String,
}

/// The records whose key is not `key`, in their order, each kept whole.
pub open spec fn retain_other_keys(keys: Seq<TrustedKey>, key: Seq<char>) -> Seq<TrustedKey>
    decreases keys.len(),
{
    if keys.len() == 0 {
        Seq::empty()
    } else {
        let rest = retain_other_keys(keys.drop_last(), key);
        if keys.last().public_key@ == key {
            rest
        } else {
            rest.push(keys.last())
        }
    }
}

proof fn lemma_retain_len(keys: Seq<TrustedKey>, key: Seq<char>)
    ensures
        retain_other_keys(keys, key).len() <= keys.len(),
        retain_other_keys(keys, key).len() == keys.len() <==> forall|i: int|
            0 <= i < keys.len() ==> (#[trigger] keys[i]).public_key@ != key,
    decreases keys.len(),
{
    if keys.len() > 0 {
        lemma_retain_len(keys.drop_last(), key);
        assert forall|i: int| 0 <= i < keys.len() - 1 implies #[trigger] keys.drop_last()[i] == keys[i] by {}
        if forall|i: int| 0 <= i < keys.len() ==> (#[trigger] keys[i]).public_key@ != key {
            assert forall|i: int| 0 <= i < keys.drop_last().len() implies (
            #[trigger] keys.drop_last()[i]).public_key@ != key by {
                assert(keys.drop_last()[i] == keys[i]);
            }
        }
        if retain_other_keys(keys, key).len() == keys.len() {
            assert forall|i: int| 0 <= i < keys.len() implies (#[trigger] keys[i]).public_key@ != key by {
                if i < keys.len() - 1 {
                    assert(keys.drop_last()[i] == keys[i]);
                }
            }
        }
    }
}

/// Removing a key from the trust store drops exactly that key's records:
/// no record of it is left, and every other record (with its name, email
/// and date) is still there.
pub proof fn removal_keeps_other_records(keys: Seq<TrustedKey>, key: Seq<char>)
    ensures
        forall|j: int|
            0 <= j < retain_other_keys(keys, key).len() ==> (#[trigger] retain_other_keys(keys, key)[j]).public_key@
                != key,
        forall|i: int| 0 <= i < keys.len() && (#[trigger] keys[i]).public_key@ != key ==> retain_other_keys(
            keys,
            key,
        ).contains(keys[i]),
    decreases keys.len(),
{
    if keys.len() > 0 {
        let init = keys.drop_last();
        removal_keeps_other_records(init, key);
        let rest = retain_other_keys(init, key);
        let cur = retain_other_keys(keys, key);
        assert forall|j: int| 0 <= j < cur.len() implies (#[trigger] cur[j]).public_key@ != key by {
            if j < rest.len() {
                assert(cur[j] == rest[j]);
            }
        }
        assert forall|i: int| 0 <= i < keys.len() && (#[trigger] keys[i]).public_key@ != key implies cur.contains(
            keys[i],
        ) by {
            if i < keys.len() - 1 {
                assert(init[i] == keys[i]);
                assert(rest.contains(init[i]));
                let j = choose|j: int| 0 <= j < rest.len() && #[trigger] rest[j] == init[i];
                assert(cur[j] == rest[j]);
            } else {
                assert(cur[cur.len() - 1] == keys[i]);
            }
        }
    }
}

/// `trust remove`: drop every record of `key`, keeping the other records
/// (and their metadata) as they were; an error when no record has the key.
pub fn remove_trusted_key(keys: Vec<TrustedKey>, key: &str) -> (r: Result<Vec<TrustedKey>, String>)
    ensures
        r is Ok <==> exists|i: int| 0 <= i < keys@.len() && (#[trigger] keys@[i]).public_key@ == key@,
        r matches Ok(kept) ==> kept@ == retain_other_keys(keys@, key@),
        r matches Err(m) ==> m@ == "Error: Key not found in trusted list"@,
{
    let ghost all = keys@;
    let n = keys.len();
    let mut input = keys;
    let mut back: Vec<TrustedKey> = Vec::new();
    while input.len() > 0
        invariant
            n == all.len(),
            input@.len() <= n,
            input@ == all.take(input@.len() as int),
            retain_other_keys(all, key@) == retain_other_keys(input@, key@) + back@.reverse(),
        decreases input@.len(),
    {
        let ghost before_in = input@;
        let ghost before_back = back@;
        let k = input.pop().unwrap();
        proof {
            assert(before_in =~= input@.push(k));
            assert(input@ =~= all.take(input@.len() as int));
            assert(before_in.drop_last() == input@);
            assert(before_in.last() == k);
        }
        if !str_eq(k.public_key.as_str(), key) {
            back.push(k);
            proof {
                assert(back@.reverse() =~= seq![k] + before_back.reverse());
                assert(retain_other_keys(before_in, key@) == retain_other_keys(input@, key@).push(k));
                assert(retain_other_keys(input@, key@).push(k) + before_back.reverse() =~= retain_other_keys(
                    input@,
                    key@,
                ) + back@.reverse());
            }
        }
    }
    let mut kept: Vec<TrustedKey> = Vec::new();
    let ghost rev = back@;
    while back.len() > 0
        invariant
            back@ == rev.take(back@.len() as int),
            back@.len() <= rev.len(),
            kept@ == rev.skip(back@.len() as int).reverse(),
        decreases back@.len(),
    {
        let ghost b = back@;
        let x = back.pop().unwrap();
        proof {
            assert(b =~= back@.push(x));
            assert(back@ =~= rev.take(back@.len() as int));
            assert(rev.skip(back@.len() as int) =~= seq![x] + rev.skip(b.len() as int));
        }
        kept.push(x);
        proof {
            assert(kept@ =~= rev.skip(back@.len() as int).reverse());
        }
    }
    proof {
        assert(input@ =~= Seq::<TrustedKey>::empty());
        assert(rev.skip(0) =~= rev);
        assert(retain_other_keys(all, key@) =~= kept@);
        lemma_retain_len(all, key@);
    }
    if kept.len() == n {
        proof {
            assert forall|i: int| 0 <= i < all.len() implies (#[trigger] all[i]).public_key@ != key@ by {}
        }
        Err(String::from_str("Error: Key not found in trusted list"))
    } else {
        Ok(kept)
    }
}

/// The lines of `trust list`.
pub fn trusted_key_lines(keys: &Vec<String>) -> (r: Vec<String>)
    ensures
        keys@.len() == 0 ==> strings_view(r@) == seq!["No trusted keys configured"@],
        keys@.len() > 0 ==> strings_view(r@) == seq!["Trusted keys ("@ + crate::text::dec(keys@.len() as nat) + "):"@]
            + keys@.map_values(|k: String| "  "@ + k@),
{
    let mut out: Vec<String> = Vec::new();
    if keys.len() == 0 {
        out.push(String::from_str("No trusted keys configured"));
        proof {
            assert(strings_view(out@) =~= seq!["No trusted keys configured"@]);
        }
        return out;
    }
    let mut h = String::from_str("Trusted keys (");
    crate::text::append_dec(&mut h, keys.len() as u64);
    h.append("):");
    out.push(h);
    let mut i: usize = 0;
    while i < keys.len()
        invariant
            i <= keys@.len(),
            strings_view(out@) == seq!["Trusted keys ("@ + crate::text::dec(keys@.len() as nat) + "):"@]
                + keys@.take(i as int).map_values(|k: String| "  "@ + k@),
        decreases keys@.len() - i,
    {
        let ghost before = out@;
        let mut line = String::from_str("  ");
        line.append(keys[i].as_str());
        out.push(line);
        proof {
            assert(keys@.take(i + 1).map_values(|k: String| "  "@ + k@) =~= keys@.take(i as int).map_values(
                |k: String| "  "@ + k@,
            ).push("  "@ + keys@[i as int]@));
            assert(strings_view(out@) =~= strings_view(before).push(line@));
        }
        i = i + 1;
    }
    proof {
        assert(keys@.take(keys@.len() as int) =~= keys@);
    }
    out
}

/// `sign` needs both `--name` and `--email`, and a 32-byte private key.
pub fn check_signing_inputs(name: Option<&str>, email: Option<&str>, key_len: usize) -> (r: Result<(), String>)
    ensures
        r is Ok <==> (name is Some && email is Some && key_len == 32),
        name is None ==> (r matches Err(m) && m@ == "Error: --name is required"@),
        name is Some && email is None ==> (r matches Err(m) && m@ == "Error: --email is required"@),
        name is Some && email is Some && key_len != 32 ==> (r matches Err(m) && m@
            == "Error: Invalid private key size (expected 32 bytes, got "@ + crate::text::dec(key_len as nat)
            + ")"@),
{
    if name.is_none() {
        return Err(String::from_str("Error: --name is required"));
    }
    if email.is_none() {
        return Err(String::from_str("Error: --email is required"));
    }
    if key_len != 32 {
        let mut m = String::from_str("Error: Invalid private key size (expected 32 bytes, got ");
        crate::text::append_dec(&mut m, key_len as u64);
        m.append(")");
        return Err(m);
    }
    Ok(())
}

} // verus!
