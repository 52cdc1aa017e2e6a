use conductor_tools::sign_args::{parse_sign_args, SignArgError, SignCommand};

fn parse(args: &[&str]) -> Result<SignCommand, SignArgError> {
    let v: Vec<String> = std::iter::once("conductor-sign").chain(args.iter().copied()).map(String::from).collect();
    parse_sign_args(&v)
}

fn error_of(args: &[&str]) -> (Option<String>, bool) {
    match parse(args) {
        Err(e) => (e.message, e.show_usage),
        Ok(_) => panic!("expected an error for {args:?}"),
    }
}

#[test]
fn no_command_shows_usage_only() {
    assert_eq!(error_of(&[]), (None, true));
}

#[test]
fn sign_with_options() {
    match parse(&["sign", "plug", "key", "--name", "Ann", "--email", "a@b", "--name", "Bo"]) {
        Ok(SignCommand::Sign { plugin, key, name, email }) => {
            assert_eq!(plugin, "plug");
            assert_eq!(key, "key");
            assert_eq!(name.as_deref(), Some("Bo"));
            assert_eq!(email.as_deref(), Some("a@b"));
        }
        _ => panic!("expected sign"),
    }
    assert_eq!(error_of(&["sign", "plug"]), (Some("Error: Missing arguments".to_string()), true));
    assert_eq!(error_of(&["sign", "p", "k", "--name"]), (Some("Error: --name requires a value".to_string()), false));
    assert_eq!(error_of(&["sign", "p", "k", "--bogus"]), (Some("Error: Unknown option: --bogus".to_string()), false));
}

#[test]
fn registry_key_id_defaults_and_overrides() {
    match parse(&["sign-registry", "r.json", "k", "o.json"]) {
        Ok(SignCommand::SignRegistry { key_id, output, .. }) => {
            assert_eq!(key_id, "conductor-registry-v1");
            assert_eq!(output, "o.json");
        }
        _ => panic!("expected sign-registry"),
    }
    match parse(&["sign-registry", "r.json", "k", "o.json", "extra", "--key-id", "v2"]) {
        Ok(SignCommand::SignRegistry { key_id, .. }) => assert_eq!(key_id, "v2"),
        _ => panic!("expected sign-registry"),
    }
    assert_eq!(
        error_of(&["sign-registry", "r", "k", "o", "--key-id"]),
        (Some("Error: --key-id requires a value".to_string()), false)
    );
}

#[test]
fn trust_subcommands() {
    assert!(matches!(parse(&["trust", "list"]), Ok(SignCommand::TrustList)));
    match parse(&["trust", "add", "abcd", "Dev"]) {
        Ok(SignCommand::TrustAdd { public_key, name }) => {
            assert_eq!(public_key, "abcd");
            assert_eq!(name, "Dev");
        }
        _ => panic!("expected trust add"),
    }
    assert_eq!(error_of(&["trust"]), (Some("Error: Missing trust command".to_string()), true));
    assert_eq!(
        error_of(&["trust", "add", "abcd"]),
        (Some("Error: trust add requires <public-key> <name>".to_string()), false)
    );
    assert_eq!(error_of(&["trust", "zap"]), (Some("Error: Unknown trust command: zap".to_string()), true));
}

#[test]
fn other_commands() {
    assert!(matches!(parse(&["--help"]), Ok(SignCommand::Help)));
    assert!(matches!(parse(&["verify", "p"]), Ok(SignCommand::Verify { .. })));
    assert!(matches!(parse(&["rotate-key", "a", "b", "m.json"]), Ok(SignCommand::RotateKey { .. })));
    assert_eq!(
        error_of(&["rotate-key", "a", "b"]),
        (Some("Error: rotate-key requires <old-key> <new-key> <manifest-file>".to_string()), true)
    );
    assert_eq!(error_of(&["frobnicate"]), (Some("Error: Unknown command: frobnicate".to_string()), true));
}
