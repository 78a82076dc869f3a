use serverbox::capabilities::parse_capabilities_probe;
use serverbox::exec::{
    authenticate, bastion_failure, bastion_missing, AuthAction, AuthEvent, CommandRun, RoundAction,
    SecretKind, StreamRead,
};
use serverbox::models::{AuthMethod, ServerProfile};
use serverbox::privilege::{
    execute_privileged_finish, execute_privileged_step, Invocation, PrivilegeAction,
    PrivilegeEvent, PrivilegedRequest, Route,
};
use serverbox::ssh::{
    append_output, bounded_output, command_error, command_output, expand_path, is_permission_error,
    is_permission_message, is_retryable_connection_error, join_path, output_limit,
    posix_script_command, profile_key, quote_shell, sanitize_remote_message, sudo_password_command,
    sudo_password_input, sudo_password_rejected_error, sudo_password_was_rejected,
    validate_script_output, validate_sudo_password, ExecOutput, DEFAULT_OUTPUT_LIMIT,
    MAX_LOG_OUTPUT_BYTES, OPERATION_CANCELLED,
};

fn output(stdout: &str, stderr: &str, exit_code: i32) -> ExecOutput {
    ExecOutput { stdout: stdout.to_string(), stderr: stderr.to_string(), exit_code }
}

fn profile(id: &str, method: AuthMethod) -> ServerProfile {
    ServerProfile {
        id: id.to_string(),
        name: format!("Server {id}"),
        host: "example.org".to_string(),
        username: "admin".to_string(),
        port: 2222,
        auth_method: method,
        key_path: None,
        jump_host_id: None,
        group_name: None,
        tags: Vec::new(),
        notes: String::new(),
        favorite: false,
        created_at: String::new(),
        updated_at: String::new(),
        last_connected_at: None,
    }
}

fn texts(items: &[&str]) -> Vec<String> {
    items.iter().map(|item| item.to_string()).collect()
}

#[test]
fn quoting_keeps_every_character() {
    assert_eq!(quote_shell(""), "''");
    assert_eq!(quote_shell("plain"), "'plain'");
    assert_eq!(quote_shell("it's $HOME"), "'it'\\''s $HOME'");
    assert_eq!(quote_shell("''"), "''\\'''\\'''");
}

#[test]
fn scripts_take_quoted_arguments() {
    assert_eq!(posix_script_command("LC_ALL=C sh -s", &[]), "LC_ALL=C sh -s");
    assert_eq!(
        posix_script_command("LC_ALL=C sh -s", &texts(&["a b", "c"])),
        "LC_ALL=C sh -s -- 'a b' 'c'"
    );
}

#[test]
fn remote_text_cannot_forge_a_marker() {
    assert_eq!(sanitize_remote_message("plain"), "plain");
    assert_eq!(sanitize_remote_message("a HOST_KEY_MISMATCH:{} b"), "a {} b");
    let nested = sanitize_remote_message("HOST_KEY_UNHOST_KEY_UNKNOWN:KNOWN:{}");
    assert!(!nested.contains("HOST_KEY_UNKNOWN:"));
    let crossed = sanitize_remote_message("HOST_KEY_MISMASTER_PASSWORD_REQUIRED:MATCH:{}");
    assert!(!crossed.contains("HOST_KEY_MISMATCH:"));
    for marker in [
        "HOST_KEY_MISMATCH:", "HOST_KEY_UNKNOWN:", "MASTER_PASSWORD_REQUIRED:",
        "MASTER_PASSWORD_SETUP_REQUIRED:", "MASTER_PASSWORD_INVALID:",
    ] {
        assert_eq!(sanitize_remote_message(marker), "");
    }
}

#[test]
fn failed_commands_are_explained() {
    assert_eq!(command_error(&output("out", " err \n", 1)), "err");
    assert_eq!(command_error(&output(" out ", "  ", 1)), "out");
    assert_eq!(
        command_error(&output("", "", 127)),
        "The remote command was not found (exit status 127). The required program may not be installed or available in PATH."
    );
    assert_eq!(
        command_error(&output("", "", 126)),
        "The remote program exists but could not be executed (exit status 126). Check its permissions and architecture."
    );
    assert_eq!(command_error(&output("", "", 130)), "The remote command was interrupted (exit status 130).");
    assert_eq!(
        command_error(&output("", "", 137)),
        "The remote command was killed, commonly because the system ran out of memory (exit status 137)."
    );
    assert_eq!(command_error(&output("", "", 143)), "The remote command was terminated (exit status 143).");
    assert_eq!(
        command_error(&output("", "", -1)),
        "The remote command failed with exit status -1 and returned no diagnostic output."
    );
    assert_eq!(command_error(&output("fallback", "HOST_KEY_UNKNOWN:", 1)), "fallback");
    assert_eq!(command_output(output("fine", "noise", 0)), Ok("fine".to_string()));
    assert_eq!(command_output(output("x", "broken", 2)), Err("broken".to_string()));
}

#[test]
fn script_output_is_bounded() {
    assert_eq!(validate_script_output(output("1234", "", 0), 4), Ok("1234".to_string()));
    assert_eq!(
        validate_script_output(output("12345", "", 0), 4),
        Err("Remote script output exceeded the 4 byte limit".to_string())
    );
    assert_eq!(
        validate_script_output(output("", "\u{20ac}\u{20ac}", 1), 5),
        Err("Remote script output exceeded the 5 byte limit".to_string())
    );
    assert_eq!(validate_script_output(output("", "no", 1), 4), Err("no".to_string()));
}

#[test]
fn permission_errors_are_recognised() {
    assert!(is_permission_message("Permission DENIED"));
    assert!(is_permission_message("you must be root to do this"));
    assert!(!is_permission_message("no such file"));
    assert!(is_permission_error(&output("Operation not permitted", "", 1)));
    assert!(is_permission_error(&output("", "access denied", 1)));
    assert!(!is_permission_error(&output("permission", "denied", 1)));
}

#[test]
fn lasting_connection_errors_are_told_apart() {
    assert!(is_retryable_connection_error("Could not reach host: timed out"));
    assert!(!is_retryable_connection_error("Password Authentication failed for x: y"));
    assert!(!is_retryable_connection_error("HOST_KEY_UNKNOWN:{}"));
    assert!(!is_retryable_connection_error("MASTER_PASSWORD_REQUIRED:locked"));
    assert!(!is_retryable_connection_error("Choose an SSH private key for x"));
}

#[test]
fn sudo_reads_the_password_first() {
    assert_eq!(sudo_password_input("p\u{e9}", b"rest"), b"p\xc3\xa9\nrest".to_vec());
    assert_eq!(
        sudo_password_command("id"),
        "LC_ALL=C sh -c 'IFS= read -r serverbox_sudo_password || exit 1\nif printf '\\''%s\\n'\\'' \"$serverbox_sudo_password\" | sudo -S -k -p '\\'''\\'' -v; then\nunset serverbox_sudo_password\nid\nelse\nunset serverbox_sudo_password\nexit 1\nfi'"
    );
    assert!(sudo_password_was_rejected(&output("", "Sorry, try again.", 1)));
    assert!(sudo_password_was_rejected(&output("sudo: no password was provided", "", 1)));
    assert!(sudo_password_was_rejected(&output("", "1 incorrect password attempt", 1)));
    assert!(!sudo_password_was_rejected(&output("", "sudo: not found", 1)));
    assert_eq!(validate_sudo_password(&output("", "Sorry, try again", 0)), Ok(()));
    assert_eq!(
        validate_sudo_password(&output("", "Sorry, try again", 1)),
        Err(sudo_password_rejected_error())
    );
    assert_eq!(validate_sudo_password(&output("", "no tty", 1)), Err("no tty".to_string()));
}

#[test]
fn output_is_kept_up_to_its_bound() {
    let mut buffer: Vec<u8> = Vec::new();
    append_output(&mut buffer, b"abc", Some(4));
    append_output(&mut buffer, b"def", Some(4));
    assert_eq!(buffer, b"abcd".to_vec());
    append_output(&mut buffer, b"ghi", None);
    assert_eq!(buffer, b"abcdghi".to_vec());
    append_output(&mut buffer, b"j", Some(2));
    assert_eq!(buffer, b"abcdghi".to_vec());
    assert_eq!(output_limit(None), DEFAULT_OUTPUT_LIMIT);
    assert_eq!(output_limit(Some(3)), 3);
    assert_eq!(DEFAULT_OUTPUT_LIMIT, 16 * 1024 * 1024);
}

#[test]
fn shown_output_is_cut_at_a_character() {
    assert_eq!(bounded_output("short".to_string()), "short");
    let exact = "x".repeat(MAX_LOG_OUTPUT_BYTES);
    assert_eq!(bounded_output(exact.clone()), exact);
    let mut long = "x".repeat(MAX_LOG_OUTPUT_BYTES - 1);
    long.push_str("\u{e9}yz");
    let cut = bounded_output(long);
    assert_eq!(cut.len(), MAX_LOG_OUTPUT_BYTES - 1 + "\n\n[Output truncated at 1 MB by Serverbox]".len());
    assert!(cut.ends_with("x\n\n[Output truncated at 1 MB by Serverbox]"));
}

#[test]
fn profile_keys_hold_what_a_connection_rests_on() {
    let mut one = profile("a", AuthMethod::PrivateKey);
    one.key_path = Some("~/.ssh/id".to_string());
    one.jump_host_id = Some("b".to_string());
    assert_eq!(profile_key(&one), "example.org:2222:admin:PrivateKey:~/.ssh/id:b");
    let two = profile("a", AuthMethod::Password);
    assert_eq!(profile_key(&two), "example.org:2222:admin:Password::");
    one.name = "Another".to_string();
    one.tags = texts(&["x"]);
    assert_eq!(profile_key(&one), "example.org:2222:admin:PrivateKey:~/.ssh/id:b");
}

#[test]
fn key_paths_begin_at_home() {
    assert_eq!(expand_path("~/.ssh/id", Some("/home/me")), "/home/me/.ssh/id");
    assert_eq!(expand_path("~/.ssh/id", None), "~/.ssh/id");
    assert_eq!(expand_path("/etc/key", Some("/home/me")), "/etc/key");
    assert_eq!(expand_path("~", Some("/home/me")), "~");
    assert_eq!(join_path("/a", "b"), "/a/b");
    assert_eq!(join_path("/a/", "b"), "/a/b");
    assert_eq!(join_path("/a", "/b"), "/b");
    assert_eq!(join_path("", "b"), "b");
}

#[test]
fn capabilities_are_read_from_the_probe() {
    let probe = "distro\tDebian GNU/Linux 12\narchitecture\tx86_64\ncommand\tsystemctl\ncommand\tdocker\ncommand\tsudo\ncommand\tss\ncommand\tnetstat\ncommand\tjournalctl\nroot\tfalse\nlogread\ttrue\ncoreutils\tGNU\npackageManager\tapt-get";
    let found = parse_capabilities_probe(probe);
    assert_eq!(found.distro.as_deref(), Some("Debian GNU/Linux 12"));
    assert_eq!(found.architecture, "x86_64");
    assert_eq!(found.init_system.as_deref(), Some("systemd"));
    assert!(found.systemd && found.docker && found.sudo && found.journalctl && found.logread);
    assert!(!found.podman && !found.cron && !found.root);
    assert_eq!(found.network_tool.as_deref(), Some("ss"));
    assert_eq!(found.coreutils_variant, "GNU");
    assert_eq!(found.package_manager.as_deref(), Some("apt-get"));
    let none = parse_capabilities_probe("distro\t  \nnonsense\nroot\ttrue\npackageManager\t");
    assert_eq!(none.distro, None);
    assert_eq!(none.architecture, "unknown");
    assert_eq!(none.coreutils_variant, "POSIX/other");
    assert_eq!(none.package_manager, None);
    assert_eq!(none.init_system, None);
    assert!(none.root);
}

#[test]
fn root_needs_no_sudo() {
    let request = PrivilegedRequest::Command { command: "ls".to_string(), max_output: Some(9) };
    assert_eq!(
        execute_privileged_step(&request, PrivilegeEvent::Uid(Some("0\n".to_string()))),
        PrivilegeAction::Run {
            invocation: Invocation { command: "ls".to_string(), input: None, limit: Some(10) },
            route: Route::Direct,
        }
    );
    assert_eq!(
        execute_privileged_step(&request, PrivilegeEvent::Uid(Some("1000".to_string()))),
        PrivilegeAction::ProbeSudo
    );
    assert_eq!(execute_privileged_step(&request, PrivilegeEvent::Uid(None)), PrivilegeAction::ProbeSudo);
}

#[test]
fn passwords_come_last() {
    let command = PrivilegedRequest::Command { command: "it's".to_string(), max_output: None };
    assert_eq!(
        execute_privileged_step(&command, PrivilegeEvent::SudoProbe { exit_code: 0 }),
        PrivilegeAction::Run {
            invocation: Invocation {
                command: "sudo -n sh -c 'it'\\''s'".to_string(),
                input: None,
                limit: None,
            },
            route: Route::Direct,
        }
    );
    assert_eq!(
        execute_privileged_step(&command, PrivilegeEvent::SudoProbe { exit_code: 1 }),
        PrivilegeAction::ReadPassword
    );
    let missing = "This action needs sudo. Add a sudo password to the server connection, or use the terminal to authenticate interactively.";
    assert_eq!(
        execute_privileged_step(&command, PrivilegeEvent::Stored(None)),
        PrivilegeAction::Fail(missing.to_string())
    );
    assert_eq!(
        execute_privileged_step(&command, PrivilegeEvent::Stored(Some(String::new()))),
        PrivilegeAction::Fail(missing.to_string())
    );
    assert_eq!(
        execute_privileged_step(&command, PrivilegeEvent::Stored(Some("pw".to_string()))),
        PrivilegeAction::Run {
            invocation: Invocation {
                command: "LC_ALL=C sudo -S -k -p '' sh -c 'it'\\''s'".to_string(),
                input: Some(b"pw\n".to_vec()),
                limit: None,
            },
            route: Route::Password,
        }
    );
    let script = PrivilegedRequest::Script {
        script: b"echo".to_vec(),
        arguments: texts(&["x"]),
        max_output: 5,
    };
    assert_eq!(
        execute_privileged_step(&script, PrivilegeEvent::Stored(Some("pw".to_string()))),
        PrivilegeAction::Run {
            invocation: Invocation {
                command: sudo_password_command("sudo -n env LC_ALL=C sh -s -- 'x'"),
                input: Some(b"pw\necho".to_vec()),
                limit: Some(6),
            },
            route: Route::Password,
        }
    );
    let input = PrivilegedRequest::WithInput { command: "tee".to_string(), input: b"in".to_vec() };
    assert_eq!(
        execute_privileged_step(&input, PrivilegeEvent::Stored(None)),
        PrivilegeAction::Fail(
            "This action needs sudo. Add a sudo password to the server connection first.".to_string()
        )
    );
    assert_eq!(
        execute_privileged_step(&input, PrivilegeEvent::Uid(Some("0".to_string()))),
        PrivilegeAction::Run {
            invocation: Invocation {
                command: "tee".to_string(),
                input: Some(b"in".to_vec()),
                limit: None,
            },
            route: Route::Direct,
        }
    );
}

#[test]
fn rejected_passwords_are_told() {
    let request = PrivilegedRequest::Command { command: "ls".to_string(), max_output: None };
    assert_eq!(
        execute_privileged_finish(&request, Route::Password, output("", "Sorry, try again.", 1)),
        Err("The stored sudo password was rejected. Update it in the server connection settings.".to_string())
    );
    assert_eq!(
        execute_privileged_finish(&request, Route::Direct, output("", "Sorry, try again.", 1)),
        Err("Sorry, try again.".to_string())
    );
    assert_eq!(
        execute_privileged_finish(&request, Route::Password, output("done", "", 0)),
        Ok("done".to_string())
    );
    let script = PrivilegedRequest::Script { script: Vec::new(), arguments: Vec::new(), max_output: 2 };
    assert_eq!(
        execute_privileged_finish(&script, Route::Direct, output("abc", "", 0)),
        Err("Remote script output exceeded the 2 byte limit".to_string())
    );
}

#[test]
fn commands_are_read_to_their_end() {
    let mut run = CommandRun::start(Some(4), 2000, 100);
    assert_eq!(run.check(2100, false), Ok(()));
    assert_eq!(
        run.check(2101, false),
        Err("Remote command timed out after 2 seconds without output".to_string())
    );
    assert_eq!(run.check(100, true), Err(OPERATION_CANCELLED.to_string()));
    assert_eq!(
        run.round(2000, StreamRead::Data(b"abc".to_vec()), StreamRead::Nothing, false),
        RoundAction::Again
    );
    assert_eq!(run.check(4000, false), Ok(()));
    assert_eq!(run.round(4000, StreamRead::Nothing, StreamRead::Nothing, false), RoundAction::Pause);
    assert_eq!(run.last_progress, 2000);
    assert_eq!(
        run.round(4000, StreamRead::Data(b"def".to_vec()), StreamRead::Data(b"e".to_vec()), true),
        RoundAction::Ended
    );
    let done = run.finish(None);
    assert_eq!((done.stdout.as_str(), done.stderr.as_str(), done.exit_code), ("abcd", "e", -1));
}

#[test]
fn broken_streams_end_a_command() {
    let mut run = CommandRun::start(None, 1000, 0);
    assert_eq!(run.limit, DEFAULT_OUTPUT_LIMIT);
    assert_eq!(
        run.round(0, StreamRead::Failed("eof".to_string()), StreamRead::Nothing, false),
        RoundAction::Fail("Could not read remote output: eof".to_string())
    );
    assert_eq!(
        run.round(0, StreamRead::Nothing, StreamRead::Failed("eof".to_string()), true),
        RoundAction::Fail("Could not read remote error output: eof".to_string())
    );
    assert_eq!(run.finish(Some(3)).exit_code, 3);
}

#[test]
fn passwords_sign_in() {
    let server = profile("a", AuthMethod::Password);
    assert_eq!(
        authenticate(&server, None, AuthEvent::Started),
        AuthAction::ReadSecret(SecretKind::Password)
    );
    assert_eq!(
        authenticate(&server, None, AuthEvent::Secret(None)),
        AuthAction::Fail("No password is stored for Server a. Edit its connection to add it.".to_string())
    );
    assert_eq!(
        authenticate(&server, None, AuthEvent::Secret(Some("pw".to_string()))),
        AuthAction::SendPassword("pw".to_string())
    );
    assert_eq!(
        authenticate(&server, None, AuthEvent::Refused("no".to_string())),
        AuthAction::Fail("Password authentication failed for Server a: no".to_string())
    );
    assert_eq!(authenticate(&server, None, AuthEvent::Accepted { authenticated: true }), AuthAction::Done);
    assert_eq!(
        authenticate(&server, None, AuthEvent::Accepted { authenticated: false }),
        AuthAction::Fail("SSH authentication was rejected by Server a".to_string())
    );
}

#[test]
fn keys_sign_in() {
    let mut server = profile("a", AuthMethod::PrivateKey);
    assert_eq!(
        authenticate(&server, None, AuthEvent::Started),
        AuthAction::Fail("Choose an SSH private key for Server a".to_string())
    );
    server.key_path = Some("~/k".to_string());
    assert_eq!(
        authenticate(&server, Some("/home/me"), AuthEvent::Started),
        AuthAction::CheckKey("/home/me/k".to_string())
    );
    assert_eq!(
        authenticate(&server, Some("/home/me"), AuthEvent::KeyChecked { found: false }),
        AuthAction::Fail("The SSH private key does not exist: /home/me/k".to_string())
    );
    assert_eq!(
        authenticate(&server, Some("/home/me"), AuthEvent::KeyChecked { found: true }),
        AuthAction::ReadSecret(SecretKind::KeyPassphrase)
    );
    assert_eq!(
        authenticate(&server, Some("/home/me"), AuthEvent::Secret(None)),
        AuthAction::SendKey { path: "/home/me/k".to_string(), passphrase: None }
    );
    assert_eq!(
        authenticate(&server, None, AuthEvent::Refused("bad".to_string())),
        AuthAction::Fail("SSH key authentication failed for Server a: bad".to_string())
    );
    assert_eq!(bastion_missing("web"), "The bastion selected for web no longer exists");
    assert_eq!(bastion_failure("gate", "refused"), "Could not connect through gate: refused");
}
