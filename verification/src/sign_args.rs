//! The command line of `conductor-sign`: which command the arguments name,
//! and the refusals (with or without the usage text) for arguments that name
//! none.
use vstd::prelude::*;
use crate::text::str_eq;

verus! {

/// A `conductor-sign` command with its arguments.
#[allow(inconsistent_fields)]
pub enum SignCommand {
    Help,
    GenerateKey { output: String },
    Sign { plugin: String, key: String, name: Option<String>, email: Option<String> },
    Verify { plugin: String },
    MigrateKeys { plugin: String },
    RotateKey { old_key: String, new_key: String, manifest: String },
    SignRegistry { registry: String, key: String, output: String, key_id: String },
    TrustAdd { public_key: String, name: String },
    TrustList,
    TrustRemove { public_key: String },
    TrustVerify { manifest: String },
}

/// Arguments that name no command: the message to print (if any) and
/// whether the usage text follows it. Either way the tool exits with 1.
pub struct SignArgError {
    pub message: Option<String>,
    pub show_usage: bool,
}

/// A command, with its strings seen as character sequences.
pub enum SignCommandView {
    Help,
    GenerateKey(Seq<char>),
    Sign(Seq<char>, Seq<char>, Option<Seq<char>>, Option<Seq<char>>),
    Verify(Seq<char>),
    MigrateKeys(Seq<char>),
    RotateKey(Seq<char>, Seq<char>, Seq<char>),
    SignRegistry(Seq<char>, Seq<char>, Seq<char>, Seq<char>),
    TrustAdd(Seq<char>, Seq<char>),
    TrustList,
    TrustRemove(Seq<char>),
    TrustVerify(Seq<char>),
}

pub open spec fn ov(s: Option<String>) -> Option<Seq<char>> {
    match s {
        Some(x) => Some(x@),
        None => None,
    }
}

impl SignCommand {
    pub open spec fn view_cmd(self) -> SignCommandView {
        match self {
            SignCommand::Help => SignCommandView::Help,
            SignCommand::GenerateKey { output } => SignCommandView::GenerateKey(output@),
            SignCommand::Sign { plugin, key, name, email } => SignCommandView::Sign(
                plugin@,
                key@,
                ov(name),
                ov(email),
            ),
            SignCommand::Verify { plugin } => SignCommandView::Verify(plugin@),
            SignCommand::MigrateKeys { plugin } => SignCommandView::MigrateKeys(plugin@),
            SignCommand::RotateKey { old_key, new_key, manifest } => SignCommandView::RotateKey(
                old_key@,
                new_key@,
                manifest@,
            ),
            SignCommand::SignRegistry { registry, key, output, key_id } => SignCommandView::SignRegistry(
                registry@,
                key@,
                output@,
                key_id@,
            ),
            SignCommand::TrustAdd { public_key, name } => SignCommandView::TrustAdd(public_key@, name@),
            SignCommand::TrustList => SignCommandView::TrustList,
            SignCommand::TrustRemove { public_key } => SignCommandView::TrustRemove(public_key@),
            SignCommand::TrustVerify { manifest } => SignCommandView::TrustVerify(manifest@),
        }
    }
}

pub open spec fn args_view(args: Seq<String>) -> Seq<Seq<char>> {
    args.map_values(|s: String| s@)
}

pub open spec fn err(msg: Seq<char>, usage: bool) -> Result<SignCommandView, (Option<Seq<char>>, bool)> {
    Err((Some(msg), usage))
}

/// The `--name` / `--email` options of `sign`, read from position `i` on,
/// a later occurrence replacing an earlier one.
pub open spec fn sign_options(
    args: Seq<Seq<char>>,
    i: nat,
    name: Option<Seq<char>>,
    email: Option<Seq<char>>,
) -> Result<(Option<Seq<char>>, Option<Seq<char>>), Seq<char>>
    decreases args.len() - i,
{
    if i >= args.len() {
        Ok((name, email))
    } else if args[i as int] == "--name"@ {
        if i + 1 < args.len() {
            sign_options(args, i + 2, Some(args[i + 1 as int]), email)
        } else {
            Err("Error: --name requires a value"@)
        }
    } else if args[i as int] == "--email"@ {
        if i + 1 < args.len() {
            sign_options(args, i + 2, name, Some(args[i + 1 as int]))
        } else {
            Err("Error: --email requires a value"@)
        }
    } else {
        Err("Error: Unknown option: "@ + args[i as int])
    }
}

/// The `--key-id` option of `sign-registry`, read from position `i` on;
/// other arguments are skipped.
pub open spec fn registry_key_id(args: Seq<Seq<char>>, i: nat, key_id: Seq<char>) -> Result<
    Seq<char>,
    Seq<char>,
>
    decreases args.len() - i,
{
    if i >= args.len() {
        Ok(key_id)
    } else if args[i as int] == "--key-id"@ {
        if i + 1 < args.len() {
            registry_key_id(args, i + 2, args[i + 1 as int])
        } else {
            Err("Error: --key-id requires a value"@)
        }
    } else {
        registry_key_id(args, i + 1, key_id)
    }
}

/// The default `--key-id` of `sign-registry`.
pub open spec fn default_registry_key_id() -> Seq<char> {
    "conductor-registry-v1"@
}

/// What the arguments (program name first) ask of `conductor-sign`.
pub open spec fn sign_args_spec(a: Seq<Seq<char>>) -> Result<SignCommandView, (Option<Seq<char>>, bool)> {
    if a.len() < 2 {
        Err((None, true))
    } else {
        let c = a[1];
        if c == "generate-key"@ {
            if a.len() < 3 {
                err("Error: Missing output path"@, true)
            } else {
                Ok(SignCommandView::GenerateKey(a[2]))
            }
        } else if c == "sign"@ {
            if a.len() < 4 {
                err("Error: Missing arguments"@, true)
            } else {
                match sign_options(a, 4, None, None) {
                    Ok((n, e)) => Ok(SignCommandView::Sign(a[2], a[3], n, e)),
                    Err(m) => err(m, false),
                }
            }
        } else if c == "verify"@ {
            if a.len() < 3 {
                err("Error: Missing plugin path"@, true)
            } else {
                Ok(SignCommandView::Verify(a[2]))
            }
        } else if c == "migrate-keys"@ {
            if a.len() < 3 {
                err("Error: Missing plugin path"@, true)
            } else {
                Ok(SignCommandView::MigrateKeys(a[2]))
            }
        } else if c == "rotate-key"@ {
            if a.len() < 5 {
                err("Error: rotate-key requires <old-key> <new-key> <manifest-file>"@, true)
            } else {
                Ok(SignCommandView::RotateKey(a[2], a[3], a[4]))
            }
        } else if c == "sign-registry"@ {
            if a.len() < 5 {
                err("Error: sign-registry requires <registry.json> <key> <output.json>"@, true)
            } else {
                match registry_key_id(a, 5, default_registry_key_id()) {
                    Ok(k) => Ok(SignCommandView::SignRegistry(a[2], a[3], a[4], k)),
                    Err(m) => err(m, false),
                }
            }
        } else if c == "trust"@ {
            if a.len() < 3 {
                err("Error: Missing trust command"@, true)
            } else if a[2] == "add"@ {
                if a.len() < 5 {
                    err("Error: trust add requires <public-key> <name>"@, false)
                } else {
                    Ok(SignCommandView::TrustAdd(a[3], a[4]))
                }
            } else if a[2] == "list"@ {
                Ok(SignCommandView::TrustList)
            } else if a[2] == "remove"@ {
                if a.len() < 4 {
                    err("Error: trust remove requires <public-key>"@, false)
                } else {
                    Ok(SignCommandView::TrustRemove(a[3]))
                }
            } else if a[2] == "verify"@ {
                if a.len() < 4 {
                    err("Error: trust verify requires <manifest-file>"@, false)
                } else {
                    Ok(SignCommandView::TrustVerify(a[3]))
                }
            } else {
                err("Error: Unknown trust command: "@ + a[2], true)
            }
        } else if c == "--help"@ || c == "-h"@ || c == "help"@ {
            Ok(SignCommandView::Help)
        } else {
            err("Error: Unknown command: "@ + c, true)
        }
    }
}

pub open spec fn parse_result_view(r: Result<SignCommand, SignArgError>) -> Result<
    SignCommandView,
    (Option<Seq<char>>, bool),
> {
    match r {
        Ok(c) => Ok(c.view_cmd()),
        Err(e) => Err((ov(e.message), e.show_usage)),
    }
}

fn arg_error(msg: &str, show_usage: bool) -> (r: SignArgError)
    ensures
        r.message matches Some(m) && m@ == msg@,
        r.show_usage == show_usage,
{
    SignArgError { message: Some(String::from_str(msg)), show_usage }
}

fn arg_error_with(msg: &str, arg: &str, show_usage: bool) -> (r: SignArgError)
    ensures
        r.message matches Some(m) && m@ == msg@ + arg@,
        r.show_usage == show_usage,
{
    let mut m = String::from_str(msg);
    m.append(arg);
    SignArgError { message: Some(m), show_usage }
}

fn copy(s: &String) -> (r: String)
    ensures
        r@ == s@,
{
    String::from_str(s.as_str())
}

fn parse_sign_options(args: &Vec<String>) -> (r: Result<(Option<String>, Option<String>), String>)
    requires
        args@.len() >= 4,
    ensures
        match (r, sign_options(args_view(args@), 4, None, None)) {
            (Ok((n, e)), Ok((n2, e2))) => ov(n) == n2 && ov(e) == e2,
            (Err(m), Err(m2)) => m@ == m2,
            _ => false,
        },
{
    let ghost a = args_view(args@);
    let mut name: Option<String> = None;
    let mut email: Option<String> = None;
    let n = args.len();
    let mut i: usize = 4;
    while i < n
        invariant
            n == args@.len(),
            a == args_view(args@),
            4 <= i,
            sign_options(a, i as nat, ov(name), ov(email)) == sign_options(a, 4, None, None),
        decreases n - i,
    {
        let arg = args[i].as_str();
        proof {
            assert(a[i as int] == args@[i as int]@);
        }
        if str_eq(arg, "--name") {
            if i + 1 < n {
                proof {
                    assert(a[i + 1] == args@[i + 1]@);
                }
                name = Some(copy(&args[i + 1]));
                i = i + 2;
            } else {
                return Err(String::from_str("Error: --name requires a value"));
            }
        } else if str_eq(arg, "--email") {
            if i + 1 < n {
                proof {
                    assert(a[i + 1] == args@[i + 1]@);
                }
                email = Some(copy(&args[i + 1]));
                i = i + 2;
            } else {
                return Err(String::from_str("Error: --email requires a value"));
            }
        } else {
            let mut m = String::from_str("Error: Unknown option: ");
            m.append(arg);
            return Err(m);
        }
    }
    Ok((name, email))
}

fn parse_registry_key_id(args: &Vec<String>) -> (r: Result<String, String>)
    requires
        args@.len() >= 5,
    ensures
        match (r, registry_key_id(args_view(args@), 5, default_registry_key_id())) {
            (Ok(k), Ok(k2)) => k@ == k2,
            (Err(m), Err(m2)) => m@ == m2,
            _ => false,
        },
{
    let ghost a = args_view(args@);
    let mut key_id = String::from_str("conductor-registry-v1");
    let n = args.len();
    let mut i: usize = 5;
    while i < n
        invariant
            n == args@.len(),
            a == args_view(args@),
            5 <= i,
            registry_key_id(a, i as nat, key_id@) == registry_key_id(a, 5, default_registry_key_id()),
        decreases n - i,
    {
        proof {
            assert(a[i as int] == args@[i as int]@);
        }
        if str_eq(args[i].as_str(), "--key-id") {
            if i + 1 < n {
                proof {
                    assert(a[i + 1] == args@[i + 1]@);
                }
                key_id = copy(&args[i + 1]);
                i = i + 2;
            } else {
                return Err(String::from_str("Error: --key-id requires a value"));
            }
        } else {
            i = i + 1;
        }
    }
    Ok(key_id)
}

/// Read the command line of `conductor-sign` (program name first).
pub fn parse_sign_args(args: &Vec<String>) -> (r: Result<SignCommand, SignArgError>)
    ensures
        parse_result_view(r) == sign_args_spec(args_view(args@)),
{
    let ghost a = args_view(args@);
    if args.len() < 2 {
        return Err(SignArgError { message: None, show_usage: true });
    }
    proof {
        assert(a[1] == args@[1]@);
    }
    let c = args[1].as_str();
    if str_eq(c, "generate-key") {
        if args.len() < 3 {
            return Err(arg_error("Error: Missing output path", true));
        }
        proof {
            assert(a[2] == args@[2]@);
        }
        Ok(SignCommand::GenerateKey { output: copy(&args[2]) })
    } else if str_eq(c, "sign") {
        if args.len() < 4 {
            return Err(arg_error("Error: Missing arguments", true));
        }
        proof {
            assert(a[2] == args@[2]@);
            assert(a[3] == args@[3]@);
        }
        match parse_sign_options(args) {
            Ok((name, email)) => Ok(
                SignCommand::Sign { plugin: copy(&args[2]), key: copy(&args[3]), name, email },
            ),
            Err(m) => Err(SignArgError { message: Some(m), show_usage: false }),
        }
    } else if str_eq(c, "verify") {
        if args.len() < 3 {
            return Err(arg_error("Error: Missing plugin path", true));
        }
        proof {
            assert(a[2] == args@[2]@);
        }
        Ok(SignCommand::Verify { plugin: copy(&args[2]) })
    } else if str_eq(c, "migrate-keys") {
        if args.len() < 3 {
            return Err(arg_error("Error: Missing plugin path", true));
        }
        proof {
            assert(a[2] == args@[2]@);
        }
        Ok(SignCommand::MigrateKeys { plugin: copy(&args[2]) })
    } else if str_eq(c, "rotate-key") {
        if args.len() < 5 {
            return Err(arg_error("Error: rotate-key requires <old-key> <new-key> <manifest-file>", true));
        }
        proof {
            assert(a[2] == args@[2]@);
            assert(a[3] == args@[3]@);
            assert(a[4] == args@[4]@);
        }
        Ok(
            SignCommand::RotateKey {
                old_key: copy(&args[2]),
                new_key: copy(&args[3]),
                manifest: copy(&args[4]),
            },
        )
    } else if str_eq(c, "sign-registry") {
        if args.len() < 5 {
            return Err(
                arg_error("Error: sign-registry requires <registry.json> <key> <output.json>", true),
            );
        }
        proof {
            assert(a[2] == args@[2]@);
            assert(a[3] == args@[3]@);
            assert(a[4] == args@[4]@);
        }
        match parse_registry_key_id(args) {
            Ok(key_id) => Ok(
                SignCommand::SignRegistry {
                    registry: copy(&args[2]),
                    key: copy(&args[3]),
                    output: copy(&args[4]),
                    key_id,
                },
            ),
            Err(m) => Err(SignArgError { message: Some(m), show_usage: false }),
        }
    } else if str_eq(c, "trust") {
        if args.len() < 3 {
            return Err(arg_error("Error: Missing trust command", true));
        }
        proof {
            assert(a[2] == args@[2]@);
        }
        let sub = args[2].as_str();
        if str_eq(sub, "add") {
            if args.len() < 5 {
                return Err(arg_error("Error: trust add requires <public-key> <name>", false));
            }
            proof {
                assert(a[3] == args@[3]@);
                assert(a[4] == args@[4]@);
            }
            Ok(SignCommand::TrustAdd { public_key: copy(&args[3]), name: copy(&args[4]) })
        } else if str_eq(sub, "list") {
            Ok(SignCommand::TrustList)
        } else if str_eq(sub, "remove") {
            if args.len() < 4 {
                return Err(arg_error("Error: trust remove requires <public-key>", false));
            }
            proof {
                assert(a[3] == args@[3]@);
            }
            Ok(SignCommand::TrustRemove { public_key: copy(&args[3]) })
        } else if str_eq(sub, "verify") {
            if args.len() < 4 {
                return Err(arg_error("Error: trust verify requires <manifest-file>", false));
            }
            proof {
                assert(a[3] == args@[3]@);
            }
            Ok(SignCommand::TrustVerify { manifest: copy(&args[3]) })
        } else {
            Err(arg_error_with("Error: Unknown trust command: ", sub, true))
        }
    } else if str_eq(c, "--help") || str_eq(c, "-h") || str_eq(c, "help") {
        Ok(SignCommand::Help)
    } else {
        Err(arg_error_with("Error: Unknown command: ", c, true))
    }
}

} // verus!
