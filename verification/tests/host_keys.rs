use serverbox::app_error::{classify, host_key_mismatch, host_key_unknown, upload_conflict, AppError};
use serverbox::host_keys::{
    accept_host_key, bastion_chain, enter_hop, find_profile, fingerprint_of_saved,
    host_key_algorithm, host_key_fingerprint, host_label, judge_replacement, known_host_line,
    mismatched_fingerprints, next_candidate, replace_host_key, verify_host_key, HostKeyCheck,
    ReplaceStep, CHAIN_CYCLE, CHAIN_TOO_LONG, NO_HOST_KEY, SERVER_GONE,
};
use serverbox::json::{
    get_field, get_text, get_texts, list_of, parse_json, parse_yaml, render_json, Json,
};
use serverbox::models::{AuthMethod, ServerProfile};

fn server(id: &str, jump: Option<&str>) -> ServerProfile {
    ServerProfile {
        id: id.to_string(),
        name: format!("Server {id}"),
        host: format!("{id}.example.org"),
        username: "admin".to_string(),
        port: 22,
        auth_method: AuthMethod::Password,
        key_path: None,
        jump_host_id: jump.map(|value| value.to_string()),
        group_name: None,
        tags: Vec::new(),
        notes: String::new(),
        favorite: false,
        created_at: String::new(),
        updated_at: String::new(),
        last_connected_at: None,
    }
}

fn key() -> Vec<u8> {
    let mut bytes = vec![0u8, 0, 0, 11];
    bytes.extend_from_slice(b"ssh-ed25519");
    bytes.extend_from_slice(&[0, 0, 0, 1, 7]);
    bytes
}

#[test]
fn fingerprints_are_those_of_openssh() {
    assert_eq!(host_key_fingerprint(b""), "SHA256:47DEQpj8HBSa+/TImW+5JCeuQeRkm5NMpJWZG3hSuFU");
    assert_eq!(host_key_fingerprint(b"abc"), "SHA256:ungWv48Bz+pBQUDeXa4iI7ADYaOWF3qctBD/YfIAFa0");
    assert_eq!(fingerprint_of_saved("YWJj"), Some(host_key_fingerprint(b"abc")));
    assert_eq!(fingerprint_of_saved("YWI="), Some(host_key_fingerprint(b"ab")));
    assert_eq!(fingerprint_of_saved("YWI"), None);
    assert_eq!(fingerprint_of_saved("not base64"), None);
    assert_eq!(
        mismatched_fingerprints(&["YWJj".to_string(), "%%".to_string(), String::new()]),
        vec![host_key_fingerprint(b"abc"), host_key_fingerprint(b"")]
    );
}

#[test]
fn algorithms_are_read_from_the_key() {
    assert_eq!(host_key_algorithm(&key()), Some("ssh-ed25519".to_string()));
    assert_eq!(host_key_algorithm(&[0, 0, 0]), None);
    assert_eq!(host_key_algorithm(&[0, 0, 0, 0, 65]), None);
    assert_eq!(host_key_algorithm(&[0, 0, 0, 3, 65, 66]), None);
    assert_eq!(host_key_algorithm(&[0, 0, 0, 2, 0xff, 0xfe]), None);
    assert_eq!(host_key_algorithm(&[0xff, 0xff, 0xff, 0xff, 65]), None);
}

#[test]
fn known_host_lines_name_the_port() {
    assert_eq!(host_label("h", 22), "h");
    assert_eq!(host_label("h", 2222), "[h]:2222");
    assert_eq!(
        known_host_line("h", 2200, &key()),
        Ok("[h]:2200 ssh-ed25519 AAAAC3NzaC1lZDI1NTE5AAAAAQc= added by Serverbox\n".to_string())
    );
    assert_eq!(
        known_host_line("h", 22, b"x"),
        Err("Could not determine the SSH host key algorithm".to_string())
    );
}

#[test]
fn only_saved_keys_are_trusted() {
    let old = vec!["SHA256:old".to_string()];
    assert_eq!(verify_host_key("h", 22, "Ed25519", b"abc", HostKeyCheck::Match, &old), Ok(()));
    assert_eq!(
        verify_host_key("h", 22, "Ed25519", b"abc", HostKeyCheck::Failure, &old),
        Err("Could not verify the SSH host key for h".to_string())
    );
    let unknown = verify_host_key("h", 22, "Ed25519", b"abc", HostKeyCheck::NotFound, &old).unwrap_err();
    assert_eq!(
        unknown,
        "HOST_KEY_UNKNOWN:{\"fingerprint\":\"SHA256:ungWv48Bz+pBQUDeXa4iI7ADYaOWF3qctBD/YfIAFa0\",\"host\":\"h\",\"keyType\":\"Ed25519\",\"port\":22}"
    );
    assert_eq!(
        classify(unknown),
        AppError::HostKeyUnknown {
            host: "h".to_string(),
            port: 22,
            key_type: "Ed25519".to_string(),
            fingerprint: host_key_fingerprint(b"abc"),
        }
    );
    let changed = verify_host_key("h", 22, "Rsa", b"abc", HostKeyCheck::Mismatch, &old).unwrap_err();
    assert_eq!(
        classify(changed),
        AppError::HostKeyMismatch {
            host: "h".to_string(),
            port: 22,
            key_type: "Rsa".to_string(),
            old_fingerprints: old,
            new_fingerprint: host_key_fingerprint(b"abc"),
        }
    );
}

#[test]
fn errors_are_told_apart() {
    let text = host_key_unknown("h\"x", 65535, "Ed25519", "SHA256:f");
    assert_eq!(
        classify(text),
        AppError::HostKeyUnknown {
            host: "h\"x".to_string(),
            port: 65535,
            key_type: "Ed25519".to_string(),
            fingerprint: "SHA256:f".to_string(),
        }
    );
    let text = host_key_mismatch("h", 1, "Rsa", &["a".to_string(), "b".to_string()], "c");
    assert_eq!(
        text,
        "HOST_KEY_MISMATCH:{\"host\":\"h\",\"keyType\":\"Rsa\",\"newFingerprint\":\"c\",\"oldFingerprints\":[\"a\",\"b\"],\"port\":1}"
    );
    let conflict = upload_conflict(&["/a".to_string()], 7);
    assert_eq!(conflict, "UPLOAD_CONFLICT:{\"count\":7,\"paths\":[\"/a\"]}");
    assert_eq!(
        classify(conflict),
        AppError::UploadConflict { paths: vec!["/a".to_string()], count: 7 }
    );
    assert_eq!(
        classify("MASTER_PASSWORD_REQUIRED: Unlock it. ".to_string()),
        AppError::MasterPasswordRequired { message: "Unlock it.".to_string() }
    );
    assert_eq!(
        classify("MASTER_PASSWORD_SETUP_REQUIRED:x".to_string()),
        AppError::MasterPasswordSetupRequired { message: "x".to_string() }
    );
    assert_eq!(
        classify("MASTER_PASSWORD_INVALID:".to_string()),
        AppError::MasterPasswordInvalid { message: String::new() }
    );
    for plain in [
        "nothing special",
        " HOST_KEY_UNKNOWN:{}",
        "HOST_KEY_UNKNOWN:not json",
        "HOST_KEY_UNKNOWN:{\"host\":\"h\",\"port\":70000,\"keyType\":\"x\",\"fingerprint\":\"y\"}",
        "UPLOAD_CONFLICT:{\"paths\":[1],\"count\":1}",
    ] {
        assert_eq!(classify(plain.to_string()), AppError::Message { message: plain.to_string() });
    }
    assert_eq!(
        classify("HOST_KEY_MISMATCH:{\"host\":\"h\",\"port\":1,\"keyType\":\"x\",\"newFingerprint\":\"y\"}".to_string()),
        AppError::HostKeyMismatch {
            host: "h".to_string(),
            port: 1,
            key_type: "x".to_string(),
            old_fingerprints: Vec::new(),
            new_fingerprint: "y".to_string(),
        }
    );
}

#[test]
fn documents_are_read_and_written() {
    let json = parse_json("{\"b\":[1,-2,null],\"a\":\"x\",\"c\":true}").unwrap();
    assert_eq!(get_text(&json, "a"), Some("x".to_string()));
    assert_eq!(get_text(&json, "b"), None);
    assert_eq!(get_field(&json, "c"), Some(&Json::Flag(true)));
    assert_eq!(get_field(&json, "d"), None);
    assert_eq!(
        get_field(&json, "b"),
        Some(&Json::List(vec![Json::Whole(1), Json::Number("-2".to_string()), Json::Null]))
    );
    assert_eq!(parse_json("{"), None);
    let items = vec!["x".to_string(), "\"y\"\n".to_string()];
    let text = render_json(list_of(&items));
    assert_eq!(text, "[\"x\",\"\\\"y\\\"\\n\"]");
    assert_eq!(get_texts(&parse_json(&text).unwrap()), Some(items));
    let yaml = parse_yaml("services:\n  web:\n    image: nginx\n").unwrap();
    let services = get_field(&yaml, "services").unwrap();
    assert_eq!(get_text(get_field(services, "web").unwrap(), "image"), Some("nginx".to_string()));
    assert_eq!(parse_yaml("a: [1"), None);
}

#[test]
fn chains_go_from_the_server_to_the_outermost_bastion() {
    let profiles = vec![server("a", Some("b")), server("c", None), server("b", Some("c"))];
    assert_eq!(find_profile(&profiles, "b"), 2);
    assert_eq!(find_profile(&profiles, "z"), 3);
    assert_eq!(bastion_chain(&profiles, "a"), Ok(vec![0, 2, 1]));
    assert_eq!(bastion_chain(&profiles, "c"), Ok(vec![1]));
    assert_eq!(bastion_chain(&profiles, "z"), Err(SERVER_GONE.to_string()));
    let gone = vec![server("a", Some("x"))];
    assert_eq!(bastion_chain(&gone, "a"), Err(SERVER_GONE.to_string()));
    let round = vec![server("a", Some("b")), server("b", Some("a"))];
    assert_eq!(bastion_chain(&round, "a"), Err(CHAIN_CYCLE.to_string()));
}

#[test]
fn hops_are_not_entered_twice() {
    let visited: Vec<String> = (0..15).map(|n| n.to_string()).collect();
    assert_eq!(enter_hop(&visited, "x"), Ok(()));
    assert_eq!(enter_hop(&visited, "3"), Err(CHAIN_CYCLE.to_string()));
    let full: Vec<String> = (0..16).map(|n| n.to_string()).collect();
    assert_eq!(enter_hop(&full, "x"), Err(CHAIN_TOO_LONG.to_string()));
    assert_eq!(CHAIN_TOO_LONG, "Bastion chains are limited to 16 profiles");
}

#[test]
fn candidates_are_tried_from_the_outermost() {
    let mut profiles = vec![server("a", Some("b")), server("b", None)];
    profiles[1].host = "a.example.org".to_string();
    let chain = bastion_chain(&profiles, "a").unwrap();
    assert_eq!(next_candidate(&profiles, &chain, 2, "a.example.org", 22), Some(1));
    assert_eq!(next_candidate(&profiles, &chain, 1, "a.example.org", 22), Some(0));
    assert_eq!(next_candidate(&profiles, &chain, 0, "a.example.org", 22), None);
    assert_eq!(next_candidate(&profiles, &chain, 2, "a.example.org", 23), None);
}

#[test]
fn accepted_keys_are_those_that_were_shown() {
    let shown = host_key_fingerprint(&key());
    assert_eq!(accept_host_key("h", 22, None, &shown), Err(NO_HOST_KEY.to_string()));
    assert_eq!(
        accept_host_key("h", 22, Some(&key()), &shown),
        Ok("h ssh-ed25519 AAAAC3NzaC1lZDI1NTE5AAAAAQc= added by Serverbox\n".to_string())
    );
    assert_eq!(
        accept_host_key("h", 22, Some(b"abc"), "SHA256:seen"),
        Err("The SSH host key for h changed before it could be accepted. Expected SHA256:seen, but the server now presents SHA256:ungWv48Bz+pBQUDeXa4iI7ADYaOWF3qctBD/YfIAFa0. Connect again to review it.".to_string())
    );
    assert_eq!(judge_replacement(None, &shown), Err(NO_HOST_KEY.to_string()));
    assert_eq!(judge_replacement(Some(&key()), &shown), Ok(ReplaceStep::Selected));
    assert_eq!(judge_replacement(Some(b"abc"), &shown), Ok(ReplaceStep::VerifyAndContinue));
}

#[test]
fn keys_are_replaced_only_where_one_is_saved() {
    let shown = host_key_fingerprint(&key());
    assert_eq!(replace_host_key("h", 22, &key(), &shown, HostKeyCheck::Mismatch), Ok("h".to_string()));
    assert_eq!(replace_host_key("h", 2200, &key(), &shown, HostKeyCheck::Match), Ok("[h]:2200".to_string()));
    assert_eq!(
        replace_host_key("h", 22, &key(), &shown, HostKeyCheck::NotFound),
        Err("The saved SSH host key for h changed before it could be replaced. Connect again to review it.".to_string())
    );
    assert_eq!(
        replace_host_key("h", 22, b"abc", &shown, HostKeyCheck::Match),
        Err(format!("The SSH host key changed again. Expected {shown}, but the server now presents SHA256:ungWv48Bz+pBQUDeXa4iI7ADYaOWF3qctBD/YfIAFa0."))
    );
}

#[test]
fn payloads_may_be_lists() {
    assert_eq!(
        classify("HOST_KEY_UNKNOWN:[\"h\",22,\"t\",\"f\"]".to_string()),
        AppError::HostKeyUnknown {
            host: "h".to_string(),
            port: 22,
            key_type: "t".to_string(),
            fingerprint: "f".to_string(),
        }
    );
    assert_eq!(
        classify("HOST_KEY_MISMATCH:[\"h\",22,\"t\",[\"o\"],\"n\"]".to_string()),
        AppError::HostKeyMismatch {
            host: "h".to_string(),
            port: 22,
            key_type: "t".to_string(),
            old_fingerprints: vec!["o".to_string()],
            new_fingerprint: "n".to_string(),
        }
    );
    assert_eq!(
        classify("UPLOAD_CONFLICT:[[\"/a\"],1]".to_string()),
        AppError::UploadConflict { paths: vec!["/a".to_string()], count: 1 }
    );
    for plain in [
        "HOST_KEY_UNKNOWN:[\"h\",22,\"t\"]",
        "HOST_KEY_UNKNOWN:[\"h\",22,\"t\",\"f\",\"g\"]",
        "HOST_KEY_MISMATCH:[\"h\",22,\"t\",\"n\"]",
        "UPLOAD_CONFLICT:[1,[\"/a\"]]",
        "UPLOAD_CONFLICT:7",
    ] {
        assert_eq!(classify(plain.to_string()), AppError::Message { message: plain.to_string() });
    }
}
