use serverbox::models::{
    AuthMethod, SavedCommandInput, ServerDraft, ServerProfile, TunnelInput,
};
use serverbox::profiles::{affected_server_ids, connection_changed, invalidated_server_ids};
use serverbox::sorting::{dedup_texts, precedes, sort_texts};
use serverbox::ssh_config::{classify_key, parse_ssh_config, sort_keys};
use serverbox::storage::{
    clean_tags, duplicate_draft, method_from_text, method_to_text, plan_save, plan_saved_command,
    plan_tunnel, required, row_to_server, save_saved_command, save_server, save_tunnel,
    server_to_row, tags_from_json, tags_to_json, validate_jump_host, BASTION_CYCLE, BASTION_GONE,
};
use serverbox::window::{
    clamp_position, constrained_window_geometry, target_inner_size, WindowGeometry,
};

fn draft() -> ServerDraft {
    ServerDraft {
        id: None,
        name: " Web ".to_string(),
        host: " example.org ".to_string(),
        username: " root".to_string(),
        port: 22,
        auth_method: AuthMethod::Password,
        key_path: None,
        jump_host_id: None,
        group_name: Some("  ".to_string()),
        tags: vec![" #Prod ".to_string(), "##".to_string(), "DB".to_string()],
        notes: "n".to_string(),
        favorite: true,
        password: None,
        key_passphrase: None,
        sudo_password: None,
    }
}

fn stored(id: &str, jump: Option<&str>) -> ServerProfile {
    ServerProfile {
        id: id.to_string(),
        name: id.to_string(),
        host: "h".to_string(),
        username: "u".to_string(),
        port: 22,
        auth_method: AuthMethod::PrivateKey,
        key_path: Some("~/k".to_string()),
        jump_host_id: jump.map(|value| value.to_string()),
        group_name: None,
        tags: vec!["a".to_string(), "b \"c\"".to_string()],
        notes: "note".to_string(),
        favorite: true,
        created_at: "then".to_string(),
        updated_at: "later".to_string(),
        last_connected_at: Some("last".to_string()),
    }
}

#[test]
fn required_values_are_trimmed() {
    assert_eq!(required(" x ", "host"), Ok("x".to_string()));
    assert_eq!(required(" \t", "server name"), Err("Enter a server name".to_string()));
}

#[test]
fn tags_are_cleaned_and_read_back() {
    let tags = clean_tags(&draft().tags);
    assert_eq!(tags, vec!["prod", "db"]);
    assert_eq!(clean_tags(&["\u{c4}#".to_string()]), vec!["\u{e4}#"]);
    assert_eq!(tags_to_json(&tags), "[\"prod\",\"db\"]");
    assert_eq!(tags_from_json(&tags_to_json(&tags)), tags);
    assert_eq!(tags_from_json("broken"), Vec::<String>::new());
    assert_eq!(tags_from_json("[1]"), Vec::<String>::new());
}

#[test]
fn methods_are_read_back() {
    for method in [AuthMethod::Password, AuthMethod::PrivateKey] {
        assert_eq!(method_from_text(&method_to_text(method)), method);
    }
    assert_eq!(method_to_text(AuthMethod::PrivateKey), "privateKey");
    assert_eq!(method_from_text("anything"), AuthMethod::Password);
}

#[test]
fn rows_hold_a_whole_server() {
    let profile = stored("a", Some("b"));
    let row = server_to_row(&profile);
    assert_eq!(row.favorite, 1);
    assert_eq!(row.auth_method, "privateKey");
    assert_eq!(row.tags_json, "[\"a\",\"b \\\"c\\\"\"]");
    assert_eq!(row_to_server(row), profile);
    let mut row = server_to_row(&profile);
    row.favorite = -3;
    assert!(row_to_server(row).favorite);
}

#[test]
fn saved_servers_are_valid() {
    let save = plan_save(&draft(), &[], "fresh", "now").unwrap();
    assert_eq!(save.profile.id, "fresh");
    assert_eq!(save.profile.name, "Web");
    assert_eq!(save.profile.host, "example.org");
    assert_eq!(save.profile.username, "root");
    assert_eq!(save.profile.group_name, None);
    assert_eq!(save.profile.tags, vec!["prod", "db"]);
    assert_eq!(save.tags_json, "[\"prod\",\"db\"]");
    assert_eq!(save.profile.created_at, "now");
    assert_eq!(save.profile.updated_at, "now");
    assert!(save.is_new && !save.updates_credentials);
    let random = save_server(&draft(), &[]).unwrap();
    assert_eq!(random.profile.id.len(), 36);
    assert!(random.profile.created_at.contains('T'));
    assert_ne!(save_server(&draft(), &[]).unwrap().profile.id, random.profile.id);
}

#[test]
fn drafts_are_refused_in_order() {
    let mut bad = draft();
    bad.name = " ".to_string();
    bad.host = String::new();
    assert_eq!(plan_save(&bad, &[], "f", "n").map(|_| ()), Err("Enter a server name".to_string()));
    bad.name = "x".to_string();
    assert_eq!(plan_save(&bad, &[], "f", "n").map(|_| ()), Err("Enter a host".to_string()));
    bad.host = "h".to_string();
    bad.username = String::new();
    assert_eq!(plan_save(&bad, &[], "f", "n").map(|_| ()), Err("Enter a username".to_string()));
    bad.username = "u".to_string();
    for port in [0, 65536, u32::MAX] {
        bad.port = port;
        assert_eq!(
            plan_save(&bad, &[], "f", "n").map(|_| ()),
            Err("Port must be between 1 and 65535".to_string())
        );
    }
    bad.port = 65535;
    bad.jump_host_id = Some("none".to_string());
    assert_eq!(plan_save(&bad, &[], "f", "n").map(|_| ()), Err(BASTION_GONE.to_string()));
    bad.jump_host_id = Some("  ".to_string());
    bad.notes = "x".repeat(100_001);
    assert_eq!(
        plan_save(&bad, &[], "f", "n").map(|_| ()),
        Err("Server notes are limited to 100 KB".to_string())
    );
    bad.notes = "x".repeat(100_000);
    assert!(plan_save(&bad, &[], "f", "n").is_ok());
}

#[test]
fn edits_keep_the_identity() {
    let known = vec![stored("a", None)];
    let mut edit = draft();
    edit.id = Some("a".to_string());
    let save = plan_save(&edit, &known, "fresh", "now").unwrap();
    assert_eq!(save.profile.id, "a");
    assert_eq!(save.profile.created_at, "then");
    assert_eq!(save.profile.last_connected_at, Some("last".to_string()));
    assert!(!save.is_new && !save.updates_credentials);
    edit.password = Some(String::new());
    assert!(plan_save(&edit, &known, "fresh", "now").unwrap().updates_credentials);
    edit.id = Some("b".to_string());
    edit.password = None;
    let save = plan_save(&edit, &known, "fresh", "now").unwrap();
    assert!(save.is_new && save.updates_credentials);
    edit.id = None;
    edit.sudo_password = Some(String::new());
    assert!(!plan_save(&edit, &known, "fresh", "now").unwrap().updates_credentials);
    edit.sudo_password = Some("x".to_string());
    assert!(plan_save(&edit, &known, "fresh", "now").unwrap().updates_credentials);
}

#[test]
fn bastions_do_not_go_round() {
    let known = vec![stored("a", Some("b")), stored("b", None), stored("c", Some("gone"))];
    assert_eq!(validate_jump_host(&known, "x", &None), Ok(()));
    assert_eq!(validate_jump_host(&known, "x", &Some("a".to_string())), Ok(()));
    assert_eq!(
        validate_jump_host(&known, "b", &Some("a".to_string())),
        Err(BASTION_CYCLE.to_string())
    );
    assert_eq!(
        validate_jump_host(&known, "x", &Some("x".to_string())),
        Err(BASTION_CYCLE.to_string())
    );
    assert_eq!(
        validate_jump_host(&known, "x", &Some("c".to_string())),
        Err(BASTION_GONE.to_string())
    );
}

#[test]
fn copies_carry_the_secrets() {
    let copy = duplicate_draft(stored("a", Some("b")), Some("pw".to_string()), None, None);
    assert_eq!(copy.id, None);
    assert_eq!(copy.name, "a copy");
    assert_eq!(copy.jump_host_id, Some("b".to_string()));
    assert!(!copy.favorite);
    assert_eq!(copy.password, Some("pw".to_string()));
}

#[test]
fn saved_commands_are_bounded() {
    let mut input = SavedCommandInput {
        id: None,
        server_id: None,
        name: " list ".to_string(),
        command: " ls ".to_string(),
    };
    let saved = plan_saved_command(&input, false, "f").unwrap();
    assert_eq!((saved.id.as_str(), saved.name.as_str(), saved.command.as_str()), ("f", "list", "ls"));
    assert_eq!(save_saved_command(&input, true).unwrap().id.len(), 36);
    input.server_id = Some("s".to_string());
    assert_eq!(
        plan_saved_command(&input, false, "f").map(|_| ()),
        Err("That server no longer exists".to_string())
    );
    input.command = "x".repeat(20_001);
    assert_eq!(
        plan_saved_command(&input, true, "f").map(|_| ()),
        Err("Saved commands are limited to 20 KB".to_string())
    );
    input.command = String::new();
    assert_eq!(plan_saved_command(&input, true, "f").map(|_| ()), Err("Enter a command".to_string()));
}

#[test]
fn tunnels_name_both_ends() {
    let mut input = TunnelInput {
        id: Some(" ".to_string()),
        server_id: "s".to_string(),
        name: "db".to_string(),
        kind: "local".to_string(),
        bind_host: " 127.0.0.1 ".to_string(),
        bind_port: 1,
        target_host: " db ".to_string(),
        target_port: 65535,
    };
    let tunnel = plan_tunnel(&input, true, "f").unwrap();
    assert_eq!((tunnel.id.as_str(), tunnel.bind_host.as_str(), tunnel.target_host.as_str()), ("f", "127.0.0.1", "db"));
    assert_eq!(save_tunnel(&input, true).unwrap().id.len(), 36);
    assert_eq!(
        plan_tunnel(&input, false, "f").map(|_| ()),
        Err("That server no longer exists".to_string())
    );
    input.target_host = " ".to_string();
    assert_eq!(plan_tunnel(&input, true, "f").map(|_| ()), Err("Enter a target host".to_string()));
    input.kind = "socks".to_string();
    assert_eq!(plan_tunnel(&input, true, "f").unwrap().target_host, "");
    input.bind_port = 0;
    assert_eq!(
        plan_tunnel(&input, true, "f").map(|_| ()),
        Err("Tunnel ports must be between 1 and 65535".to_string())
    );
    input.kind = "udp".to_string();
    assert_eq!(
        plan_tunnel(&input, true, "f").map(|_| ()),
        Err("Tunnel kind must be local, remote, or socks".to_string())
    );
}

#[test]
fn servers_behind_a_bastion_are_affected() {
    let known = vec![stored("d", Some("c")), stored("c", Some("a")), stored("a", None), stored("b", None)];
    assert_eq!(affected_server_ids(&known, "a"), vec!["a", "c", "d"]);
    assert_eq!(affected_server_ids(&known, "b"), vec!["b"]);
    assert_eq!(affected_server_ids(&known, "gone"), vec!["gone"]);
    assert_eq!(invalidated_server_ids(true, &known, "c"), vec!["c", "d"]);
    assert!(invalidated_server_ids(false, &known, "c").is_empty());
}

#[test]
fn descriptions_disturb_nothing() {
    let old = stored("a", None);
    let mut new = stored("a", None);
    new.name = "Other".to_string();
    new.notes = String::new();
    assert!(!connection_changed(false, false, Some(&old), &new));
    assert!(connection_changed(true, false, Some(&old), &new));
    assert!(connection_changed(false, true, Some(&old), &new));
    assert!(connection_changed(false, false, None, &new));
    new.port = 23;
    assert!(connection_changed(false, false, Some(&old), &new));
}

#[test]
fn texts_are_sorted_as_std_does() {
    let items: Vec<String> = ["b", "", "a", "\u{e9}", "B", "ab", "a", "\u{1f600}", "\u{fffd}"]
        .iter()
        .map(|item| item.to_string())
        .collect();
    let mut theirs = items.clone();
    theirs.sort();
    assert_eq!(sort_texts(items.clone()), theirs);
    theirs.dedup();
    assert_eq!(dedup_texts(sort_texts(items)), theirs);
    assert!(precedes("a", "ab") && !precedes("b", "ab"));
}

#[test]
fn keys_are_known_by_their_names() {
    let key = |name: &str| classify_key("/p", name, 9);
    assert_eq!(key("id_ed25519").map(|found| found.kind), Some("Ed25519".to_string()));
    assert_eq!(key("id_rsa_old").map(|found| found.kind), Some("RSA".to_string()));
    assert_eq!(key("id_ecdsa").map(|found| found.kind), Some("ECDSA".to_string()));
    assert_eq!(key("aws.pem").map(|found| found.kind), Some("Private key".to_string()));
    assert_eq!(key("x.key").map(|found| found.size_bytes), Some(9));
    for name in ["id_ed25519.pub", "config", "known_hosts", "authorized_keys", "notes", "x.pem.pub"] {
        assert!(key(name).is_none(), "{name}");
    }
    let sorted = sort_keys(vec![key("id_rsa").unwrap(), key("a.key").unwrap()]);
    assert_eq!(sorted[0].name, "a.key");
}

#[test]
fn ssh_configurations_are_read() {
    let content = "# comment\nHost web db # two\n  HostName example.org\n  user admin\n  Port 2222\n  IdentityFile ~/.ssh/id\nHost *.lan !x a?\n  User nobody\nhost alone\n  Port many\n";
    let entries = parse_ssh_config(content, Some("/home/me"));
    let names: Vec<&str> = entries.iter().map(|entry| entry.alias.as_str()).collect();
    assert_eq!(names, vec!["alone", "db", "web"]);
    assert_eq!(entries[0].port, None);
    assert_eq!(entries[0].host, None);
    assert_eq!(entries[1].host, Some("example.org".to_string()));
    assert_eq!(entries[1].username, Some("admin".to_string()));
    assert_eq!(entries[2].port, Some(2222));
    assert_eq!(entries[2].key_path, Some("/home/me/.ssh/id".to_string()));
    assert_eq!(
        parse_ssh_config("Host a\nIdentityFile ~/k", None)[0].key_path,
        Some("~/k".to_string())
    );
    assert!(parse_ssh_config("", None).is_empty());
}

#[test]
fn windows_fit_the_work_area() {
    let area = WindowGeometry { x: 100, y: 50, width: 800, height: 600 };
    let large = WindowGeometry { x: -5000, y: 9000, width: 1000, height: 400 };
    let centred = constrained_window_geometry(large, area, true);
    assert_eq!((centred.x, centred.y, centred.width, centred.height), (100, 150, 800, 400));
    let moved = constrained_window_geometry(large, area, false);
    assert_eq!((moved.x, moved.y, moved.width, moved.height), (100, 250, 800, 400));
    assert_eq!(clamp_position(i64::MAX), i32::MAX);
    assert_eq!(clamp_position(i64::MIN), i32::MIN);
    assert_eq!(clamp_position(-7), -7);
    assert_eq!(target_inner_size(800, 820, 800), 780);
    assert_eq!(target_inner_size(10, 900, 800), 1);
}
