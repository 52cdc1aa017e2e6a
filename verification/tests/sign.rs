use conductor_tools::sign::{
    decode_key_hex, decode_trusted_key, hex_encode, keypair_paths, parse_private_key_file,
    parse_public_key_file, generate_keypair, keypair_from_secret, registry_signature_hex, sanitize_for_terminal, trust_add_hint,
    verify_verdict, KeyHexError, VerifyVerdict,
};

fn unhex(s: &str) -> Vec<u8> {
    (0..s.len() / 2)
        .map(|i| u8::from_str_radix(&s[2 * i..2 * i + 2], 16).unwrap())
        .collect()
}

fn key32(s: &str) -> [u8; 32] {
    let v = unhex(s);
    let mut a = [0u8; 32];
    a.copy_from_slice(&v);
    a
}

#[test]
fn terminal_sanitizer_strips_control_and_escape_sequences() {
    let evil = "Author\x1b[2K\x1b[31mFAKE\x07\ninjected";
    let safe = sanitize_for_terminal(evil);
    assert!(!safe.contains('\x1b'), "no ESC");
    assert!(!safe.contains('\x07'), "no BEL");
    assert!(!safe.contains('\n'), "no newline");
    assert!(safe.contains("Author") && safe.contains("FAKE") && safe.contains("injected"));
}

#[test]
fn sanitizer_keeps_printable_text_exactly() {
    assert_eq!(sanitize_for_terminal("Author\x1b[2KX\ty"), "Author[2KXy");
    assert_eq!(sanitize_for_terminal("plain text ü"), "plain text ü");
    assert_eq!(sanitize_for_terminal(""), "");
}

#[test]
fn hex_encode_is_lowercase_two_digits_per_byte() {
    assert_eq!(hex_encode(&[0x00, 0x0f, 0xab, 0xff]), "000fabff");
    assert_eq!(hex_encode(&[]), "");
}

#[test]
fn decode_key_hex_checks_hex_then_length() {
    let good = "d75a980182b10ab7d54bfed3c964073a0ee172f3daa62325af021a68f707511a";
    assert_eq!(decode_key_hex(good), Ok(key32(good)));
    assert_eq!(decode_key_hex(&format!("  {good}\n")), Ok(key32(good)));
    assert_eq!(decode_key_hex("zz"), Err(KeyHexError::NotHex));
    assert_eq!(decode_key_hex("abc"), Err(KeyHexError::NotHex));
    assert_eq!(decode_key_hex("abcd"), Err(KeyHexError::WrongLength));
}

#[test]
fn trusted_key_errors_name_the_key() {
    assert_eq!(decode_trusted_key("nothex").unwrap_err(), "trusted key is not valid hex: nothex");
    assert_eq!(decode_trusted_key("abcd").unwrap_err(), "trusted key is not 32 bytes: abcd");
}

#[test]
fn key_file_errors_name_the_file() {
    assert_eq!(
        parse_public_key_file("k.public", "00").unwrap_err(),
        "public key k.public is not 32 bytes"
    );
    assert_eq!(
        parse_public_key_file("k.public", "xyz").unwrap_err(),
        "public key k.public is not valid hex"
    );
    assert_eq!(
        parse_private_key_file("k.private", &vec![1u8; 31]).unwrap_err(),
        "private key k.private is not 32 bytes"
    );
    assert_eq!(parse_private_key_file("k.private", &vec![7u8; 32]), Ok([7u8; 32]));
}

#[test]
fn registry_signature_matches_the_rfc_test_vector() {
    let secret = key32("9d61b19deffd5a60ba844af492ec2cc44449c5697b326919703bac031cae7f60");
    assert_eq!(
        registry_signature_hex(&secret, &[]),
        "e5564300c360ac729086e2cc806e828a84877f1eb8e5d974d873e065\
         224901555fb8821590a33bacc61e39701cf9b46bd25bf5f0595bbe24655141438e7a100b"
    );
}

#[test]
fn generated_keypair_is_consistent() {
    let kp = generate_keypair().expect("the random source works here");
    let expected = ed25519_dalek::SigningKey::from_bytes(&kp.private_key).verifying_key().to_bytes();
    assert_eq!(kp.public_key, expected);
    assert_ne!(kp.public_key, kp.private_key);
    assert_eq!(kp.public_hex, hex_encode(&expected));
    assert_eq!(kp.public_hex.len(), 64);
}

#[test]
fn keypair_paths_add_suffixes() {
    let (private, public) = keypair_paths("out/dev");
    assert_eq!(private, "out/dev.private");
    assert_eq!(public, "out/dev.public");
}

#[test]
fn verify_verdict_separates_untrusted_from_invalid() {
    assert_eq!(verify_verdict(None), VerifyVerdict::Trusted);
    assert_eq!(verify_verdict(Some("signed by an untrusted key")), VerifyVerdict::UntrustedKey);
    assert_eq!(verify_verdict(Some("bad signature")), VerifyVerdict::Failed);
}

#[test]
fn trust_add_hint_is_sanitized() {
    let hint = trust_add_hint("ab\x1bcd", "Dev\nName");
    assert!(!hint.contains('\x1b'));
    assert!(!hint.contains('\n'));
    assert_eq!(hint, "  conductor-sign trust add abcd \"DevName\"");
}

#[test]
fn keypair_from_secret_matches_the_rfc_test_vector() {
    let secret = key32("9d61b19deffd5a60ba844af492ec2cc44449c5697b326919703bac031cae7f60");
    let kp = keypair_from_secret(secret);
    assert_eq!(kp.private_key, secret);
    assert_eq!(kp.public_hex, "d75a980182b10ab7d54bfed3c964073a0ee172f3daa62325af021a68f707511a");
    assert_eq!(hex_encode(&kp.public_key), kp.public_hex);
}
