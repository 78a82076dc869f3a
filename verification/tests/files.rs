use serverbox::providers::files::{
    check_content, delete_failure, file_action, file_action_failure, is_directory,
    log_directory_closed, permissions_string, read_chunk, read_file, remote_file, DeleteAction,
    DeleteStage, DeleteWalk, FileAction, FileLister, LogWalk, RemoteStat, FILE_IS_BINARY,
    FILE_TOO_LARGE, MAX_EDITOR_BYTES,
};
use serverbox::providers::transfer_runs::{
    upload_directory, DownloadAction, DownloadEvent, DownloadPath, FileDownload, FileEvent,
    FileState, UploadAction, UploadEntry, UploadEvent, UploadPath,
};
use serverbox::providers::transfers::{
    add_totals, download_cleanup, download_directory_name, download_file_name, download_name,
    download_verdict, ensure_remote_directory, keep_bits, staging_for, upload_destination,
    upload_file, upload_staging_for, upload_verdict, write_file, CleanupStep, DirectoryAction,
    DirectorySearch, DownloadWalk, FolderProbe, LocalProbe, RemoteEntry, StagedWrite, Totals,
    Transfer, UploadConflicts, WriteEvent, WritePurpose, WriteState,
};
use serverbox::ssh::{ExecOutput, OPERATION_CANCELLED};
use serverbox::tier3::admin::{
    authorized_key, authorized_key_action, authorized_keys, check_command, firewall,
    firewall_action, firewall_status_source, format_hex, parse_security, plan_firewall_action,
    quick_action, run_command, security, FirewallPlan, StatusSource, FIREWALLD_STATUS_COMMAND,
    UFW_STATUS_COMMAND,
};
use serverbox::text::chars_of;

fn stat(perm: Option<u32>) -> RemoteStat {
    RemoteStat { size: Some(5), mtime: Some(9), perm, uid: Some(1), gid: None }
}

fn some(text: &str) -> Option<String> {
    Some(text.to_string())
}

#[test]
fn modes_tell_the_kind() {
    assert!(is_directory(Some(0o040755)));
    assert!(!is_directory(Some(0o100755)));
    assert!(!is_directory(None));
    assert_eq!(permissions_string(0o100754), "rwxr-xr--");
    assert_eq!(permissions_string(0), "---------");
    let link = remote_file("/a/l", &stat(Some(0o120777)), false);
    assert_eq!((link.name.as_str(), link.kind.as_str()), ("l", "symlink"));
    let plain = remote_file("/a/f", &stat(None), true);
    assert_eq!((plain.kind.as_str(), plain.permissions), ("file", None));
    assert_eq!((plain.size_bytes, plain.modified_at, plain.hidden), (5, Some(9), true));
    assert_eq!(remote_file("/", &stat(Some(0o040755)), false).name, "/");
}

#[test]
fn pages_show_visible_files() {
    let mut lister = FileLister::new("/d", false, 1, 2);
    for name in [".", "..", ".hidden", "a", "b", "c"] {
        assert!(lister.offer(name, &stat(None)));
    }
    assert!(!lister.offer("d", &stat(None)));
    let page = lister.finish();
    let paths: Vec<&str> = page.items.iter().map(|file| file.path.as_str()).collect();
    assert_eq!(paths, vec!["/d/b", "/d/c"]);
    assert!(page.has_more);
    let mut all = FileLister::new("/d", true, 0, 5);
    all.offer(".hidden", &stat(None));
    assert!(all.finish().items[0].hidden);
}

#[test]
fn log_searches_are_bounded() {
    let mut walk = LogWalk::new(1);
    let top = walk.next().unwrap();
    assert_eq!((top.handle, top.depth), (1, 0));
    assert!(walk.entry(0, true, 2, "/var/log/x".to_string()));
    assert!(walk.entry(4, true, 3, "/deep".to_string()));
    assert!(walk.entry(0, false, 4, "/var/log/b".to_string()));
    assert!(walk.entry(0, false, 5, "/var/log/a".to_string()));
    assert_eq!(walk.next().unwrap().handle, 2);
    assert!(walk.next().is_none());
    for n in 0..497u64 {
        assert!(walk.entry(1, false, n, format!("/f{n:03}")));
    }
    walk.entry(1, true, 9, "/pending".to_string());
    assert!(!walk.entry(1, false, 7, "/last".to_string()));
    assert!(walk.next().is_none());
    let files = walk.finish();
    assert_eq!(files.len(), 500);
    assert_eq!((files[0].as_str(), files[499].as_str()), ("/f000", "/var/log/b"));
    assert_eq!(log_directory_closed(1), Ok(()));
    assert_eq!(
        log_directory_closed(0),
        Err("The remote /var/log directory is unavailable".to_string())
    );
}

#[test]
fn the_editor_reads_small_texts() {
    let mut bytes = vec![0x61u8; MAX_EDITOR_BYTES];
    assert_eq!(read_chunk(&mut bytes, b"x"), Err(FILE_TOO_LARGE.to_string()));
    let mut small: Vec<u8> = Vec::new();
    assert_eq!(read_chunk(&mut small, b"ab\xff"), Ok(()));
    assert_eq!(read_file(&small), Ok("ab\u{fffd}".to_string()));
    assert_eq!(read_file(b"a\0b"), Err(FILE_IS_BINARY.to_string()));
    assert_eq!(check_content(&"x".repeat(MAX_EDITOR_BYTES)), Ok(()));
    assert_eq!(check_content(&"x".repeat(MAX_EDITOR_BYTES + 1)), Err(FILE_TOO_LARGE.to_string()));
}

#[test]
fn file_actions_are_checked() {
    assert_eq!(file_action("mkdir", "/a", &None, &None), Ok(FileAction::MakeDirectory));
    assert_eq!(file_action("touch", "/a", &None, &None), Ok(FileAction::Touch));
    assert_eq!(file_action("delete", "/a", &None, &None), Ok(FileAction::Delete));
    assert_eq!(
        file_action("rename", "/a/b", &some("c"), &None),
        Ok(FileAction::Rename { destination: "/a/c".to_string() })
    );
    assert_eq!(
        file_action("rename", "/", &some("c"), &None),
        Ok(FileAction::Rename { destination: "/c".to_string() })
    );
    assert_eq!(file_action("rename", "/a", &None, &None), Err("Choose a new name".to_string()));
    assert_eq!(
        file_action("chmod", "/a", &None, &some(" 0755 ")),
        Ok(FileAction::ChangeMode { mode: 0o755 })
    );
    for bad in ["", "000", "8", "x", "77777777777777"] {
        assert_eq!(
            file_action("chmod", "/a", &None, &some(bad)),
            Err("Permission mode must be octal, such as 644 or 755".to_string()),
            "{bad}"
        );
    }
    assert_eq!(
        file_action("chmod", "/a", &None, &None),
        Err("Enter a permission mode such as 644".to_string())
    );
    assert_eq!(
        file_action("chown", "/it's", &some("1:2"), &None),
        Ok(FileAction::ChangeOwner { command: "chown 1:2 '/it'\\''s'".to_string() })
    );
    assert_eq!(file_action("chown", "/a", &None, &None), Err("Enter an owner as uid:gid".to_string()));
    assert_eq!(
        file_action("chown", "/a", &some("root:root"), &None),
        Err("Owner must use numeric uid:gid values".to_string())
    );
    assert_eq!(
        file_action("chown", "/a", &some("1"), &None),
        Err("Owner must use numeric uid:gid values".to_string())
    );
    assert_eq!(file_action("chown", "/a", &some("1:2:3"), &None), Err("Owner must use uid:gid".to_string()));
    assert_eq!(file_action("cp", "/a", &None, &None), Err("Unsupported file action".to_string()));
    assert_eq!(file_action_failure(&FileAction::Touch, "x"), "Could not create file: x");
    assert_eq!(file_action_failure(&FileAction::MakeDirectory, "x"), "Could not create folder: x");
}

#[test]
fn directories_are_deleted_last() {
    let mut walk = DeleteWalk::new(1);
    assert_eq!(walk.next(false), DeleteAction::Inspect(1));
    walk.listed(1, &[2, 3]);
    assert_eq!(walk.next(false), DeleteAction::Inspect(2));
    walk.removed();
    assert_eq!(walk.next(true), DeleteAction::Fail(OPERATION_CANCELLED.to_string()));
    assert_eq!(walk.next(false), DeleteAction::Inspect(3));
    walk.removed();
    assert_eq!(walk.next(false), DeleteAction::RemoveDirectory(1));
    walk.removed();
    assert_eq!(walk.next(false), DeleteAction::Finished);
    assert_eq!(delete_failure(DeleteStage::Inspect, "x"), "Could not inspect remote path: x");
    assert_eq!(delete_failure(DeleteStage::List, "x"), "Could not read remote folder: x");
    assert_eq!(delete_failure(DeleteStage::RemoveDirectory, "x"), "Could not delete remote folder: x");
    assert_eq!(delete_failure(DeleteStage::Unlink, "x"), "Could not delete remote file: x");
}

#[test]
fn files_take_their_name_when_they_are_whole() {
    assert_eq!(staging_for("/a/b.txt", "ID"), Ok("/a/.b.txt.serverbox-ID.tmp".to_string()));
    assert_eq!(staging_for("/", "ID"), Err("Choose a file to save".to_string()));
    assert_eq!(
        upload_staging_for("/a/b", "ID"),
        Ok("/a/.b.serverbox-upload-ID.part".to_string())
    );
    assert_eq!(upload_staging_for("..", "ID"), Err("Choose a remote file destination".to_string()));
    assert_eq!(keep_bits(Some(0o100644)), Some(0o644));
    let mut write = write_file("/a/b", Some(0o100600)).unwrap();
    assert!(write.staging.starts_with("/a/.b.serverbox-") && write.staging.ends_with(".tmp"));
    assert_eq!(write.state, WriteState::Creating);
    write.advance(WriteEvent::Succeeded { more: true });
    assert_eq!(write.state, WriteState::Checking);
    write.advance(WriteEvent::Checked { cancelled: false });
    assert_eq!(write.state, WriteState::Copying);
    write.advance(WriteEvent::Succeeded { more: false });
    assert_eq!(write.state, WriteState::Flushing);
    write.advance(WriteEvent::Succeeded { more: false });
    assert_eq!(write.state, WriteState::Keeping(0o600));
    write.advance(WriteEvent::Succeeded { more: false });
    assert_eq!(write.state, WriteState::Confirming);
    write.advance(WriteEvent::Checked { cancelled: false });
    assert_eq!(write.state, WriteState::Renaming);
    write.advance(WriteEvent::Succeeded { more: false });
    assert_eq!(write.state, WriteState::Done);
}

#[test]
fn failed_writes_remove_their_staging() {
    let start = || {
        StagedWrite::new(
            WritePurpose::Upload { source: "/src".to_string() },
            "/dst",
            "/.dst.part".to_string(),
            None,
        )
    };
    let mut write = start();
    write.advance(WriteEvent::Failed("x".to_string()));
    assert_eq!(
        write.state,
        WriteState::Removing("Could not create upload staging file /.dst.part: x".to_string())
    );
    write.advance(WriteEvent::Failed("y".to_string()));
    assert_eq!(
        write.state,
        WriteState::Failed("Could not create upload staging file /.dst.part: x".to_string())
    );
    let mut write = start();
    write.advance(WriteEvent::Succeeded { more: true });
    write.advance(WriteEvent::Checked { cancelled: true });
    assert_eq!(write.state, WriteState::Removing(OPERATION_CANCELLED.to_string()));
    let mut write = start();
    write.advance(WriteEvent::Succeeded { more: true });
    write.advance(WriteEvent::Checked { cancelled: false });
    write.advance(WriteEvent::ReadFailed("io".to_string()));
    assert_eq!(write.state, WriteState::Removing("Could not read /src: io".to_string()));
    let replaced = upload_file("/src", "/d/f", true, Some(0o100755)).unwrap();
    assert_eq!(replaced.permissions, Some(0o755));
    assert_eq!(upload_file("/src", "/d/f", false, Some(0o755)).unwrap().permissions, None);
    assert!(upload_file("/src", "/", false, None).is_err());
}

#[test]
fn remote_folders_may_exist() {
    assert_eq!(ensure_remote_directory("/d", None, FolderProbe::Missing), Ok(()));
    assert_eq!(ensure_remote_directory("/d", Some("x"), FolderProbe::Found(Some(0o040755))), Ok(()));
    assert_eq!(
        ensure_remote_directory("/d", Some("x"), FolderProbe::Found(Some(0o100644))),
        Err("Could not create remote folder /d: a non-folder entry already exists".to_string())
    );
    assert_eq!(
        ensure_remote_directory("/d", Some("x"), FolderProbe::Missing),
        Err("Could not create remote folder /d: x".to_string())
    );
    assert_eq!(upload_destination("/r", false, Some("f")), Ok("/r/f".to_string()));
    assert_eq!(upload_destination("/r", true, None), Ok("/r".to_string()));
    assert_eq!(upload_destination("/r", false, None), Err("Choose a local file to upload".to_string()));
    assert_eq!(upload_directory("/r", "", true, false), UploadEntry::Skip);
    assert_eq!(upload_directory("/r", "a/b", true, false), UploadEntry::MakeDirectory("/r/a/b".to_string()));
    assert_eq!(upload_directory("/r", "a/f", false, false), UploadEntry::SendFile("/r/a/f".to_string()));
    assert_eq!(
        upload_directory("/r", "a", false, true),
        UploadEntry::Fail(OPERATION_CANCELLED.to_string())
    );
}

#[test]
fn conflicts_are_counted_and_some_named() {
    let mut conflicts = UploadConflicts::new();
    assert_eq!(upload_verdict(&conflicts, false), Ok(()));
    for n in 0..7 {
        conflicts.record(&format!("/f{n}"), true);
        conflicts.record("/free", false);
    }
    assert_eq!((conflicts.count, conflicts.paths.len()), (7, 5));
    assert_eq!(upload_verdict(&conflicts, true), Ok(()));
    assert_eq!(
        upload_verdict(&conflicts, false),
        Err("UPLOAD_CONFLICT:{\"count\":7,\"paths\":[\"/f0\",\"/f1\",\"/f2\",\"/f3\",\"/f4\"]}".to_string())
    );
}

#[test]
fn uploads_ask_before_they_overwrite() {
    let mut run = UploadPath::new("~/f", " /r ", false);
    let found = UploadEvent::Found {
        directory: false,
        total: Totals { bytes: 10, files: 1 },
        name: some("f"),
    };
    match run.upload_path(found) {
        UploadAction::Connect(progress) => {
            assert_eq!((progress.total_bytes, progress.done), (10, false));
            assert_eq!((progress.direction.as_str(), progress.path.as_str()), ("upload", "~/f"));
            assert_eq!(progress.transfer_id.len(), 36);
        }
        other => panic!("{other:?}"),
    }
    assert_eq!(
        run.upload_path(UploadEvent::Connected { cancelled: false }),
        UploadAction::Search("/r/f".to_string())
    );
    assert_eq!(
        run.upload_path(UploadEvent::Searched(UploadConflicts::new())),
        UploadAction::Send("/r/f".to_string())
    );
    run.transfer.copied(10);
    run.transfer.finished_file();
    match run.upload_path(UploadEvent::Sent) {
        UploadAction::Done(progress) => {
            assert_eq!((progress.completed_bytes, progress.completed_files), (10, 1));
            assert!(progress.done && progress.error.is_none());
        }
        other => panic!("{other:?}"),
    }
    assert_eq!(run.upload_path(UploadEvent::Sent), UploadAction::Nothing);
}

#[test]
fn uploads_that_fail_are_told() {
    let mut missing = UploadPath::new("/x", "/r", true);
    assert_eq!(
        missing.upload_path(UploadEvent::Missing),
        UploadAction::Refuse("The local upload source does not exist".to_string())
    );
    let mut run = UploadPath::new("/x", "/r", true);
    run.upload_path(UploadEvent::Found {
        directory: true,
        total: Totals { bytes: 4, files: 2 },
        name: None,
    });
    assert_eq!(
        run.upload_path(UploadEvent::Connected { cancelled: false }),
        UploadAction::Send("/r".to_string())
    );
    match run.upload_path(UploadEvent::Failed("broken".to_string())) {
        UploadAction::Fail { progress, error } => {
            assert_eq!(error, "broken");
            assert_eq!(progress.error, some("broken"));
            assert_eq!((progress.completed_bytes, progress.total_bytes, progress.total_files), (0, 4, 2));
        }
        other => panic!("{other:?}"),
    }
    let mut conflicting = UploadPath::new("/x", "/r", false);
    conflicting.upload_path(UploadEvent::Found {
        directory: true,
        total: Totals { bytes: 0, files: 0 },
        name: None,
    });
    conflicting.upload_path(UploadEvent::Connected { cancelled: false });
    let mut conflicts = UploadConflicts::new();
    conflicts.record("/r/a", true);
    match conflicting.upload_path(UploadEvent::Searched(conflicts)) {
        UploadAction::Fail { error, .. } => assert!(error.starts_with("UPLOAD_CONFLICT:")),
        other => panic!("{other:?}"),
    }
}

#[test]
fn transfers_are_counted() {
    let sum = add_totals(Totals { bytes: 1, files: 2 }, Totals { bytes: 3, files: 4 });
    assert_eq!((sum.bytes, sum.files), (4, 6));
    let mut transfer = Transfer::start("download");
    transfer.set_total(Totals { bytes: 9, files: 1 });
    transfer.copied(4);
    let progress = transfer.progress("/p", false);
    assert_eq!((progress.completed_bytes, progress.total_bytes, progress.completed_files), (4, 9, 0));
    let failed = transfer.failed("/p", "x");
    assert_eq!((failed.completed_bytes, failed.total_bytes, failed.done), (0, 0, true));
}

#[test]
fn downloads_never_replace_anything() {
    assert_eq!(download_verdict("/d", false), Ok(()));
    assert_eq!(
        download_verdict("/d", true),
        Err("The download destination already exists: /d".to_string())
    );
    assert_eq!(download_name("/a/b/"), "b");
    assert_eq!(download_name("/"), "root");
    assert_eq!(download_file_name("T"), ".serverbox-download-T.part");
    assert_eq!(download_directory_name("T"), ".serverbox-download-T");
    let mut run = DownloadPath::new(" ");
    assert_eq!(run.source, ".");
    assert_eq!(run.download_path(DownloadEvent::Connected { cancelled: false }), DownloadAction::Inspect);
    assert_eq!(
        run.download_path(DownloadEvent::Inspected(Some(0o040755))),
        DownloadAction::Count { directory: true }
    );
    assert!(matches!(
        run.download_path(DownloadEvent::Counted(Totals { bytes: 1, files: 1 })),
        DownloadAction::Look(_)
    ));
    match run.download_path(DownloadEvent::Looked { occupied: true, destination: "/d".to_string() }) {
        DownloadAction::Undo { steps, error, .. } => {
            assert!(steps.is_empty());
            assert_eq!(error, "The download destination already exists: /d");
        }
        other => panic!("{other:?}"),
    }
}

#[test]
fn downloads_end_with_their_name() {
    let mut run = DownloadPath::new("/d");
    run.download_path(DownloadEvent::Connected { cancelled: false });
    run.download_path(DownloadEvent::Inspected(Some(0o040755)));
    run.download_path(DownloadEvent::Counted(Totals { bytes: 1, files: 1 }));
    assert_eq!(
        run.download_path(DownloadEvent::Looked { occupied: false, destination: String::new() }),
        DownloadAction::Prepare { directory: true }
    );
    run.download_path(DownloadEvent::Made(1));
    run.download_path(DownloadEvent::Made(2));
    assert_eq!(run.download_path(DownloadEvent::Prepared), DownloadAction::MakeStaging);
    assert_eq!(run.download_path(DownloadEvent::Staged), DownloadAction::Receive { directory: true });
    assert_eq!(run.download_path(DownloadEvent::Received), DownloadAction::Rename { directory: true });
    match run.download_path(DownloadEvent::Failed("x".to_string())) {
        DownloadAction::Undo { steps, progress, error } => {
            assert_eq!(
                steps,
                vec![
                    CleanupStep::RemoveStagingDirectory,
                    CleanupStep::RemoveDirectory(2),
                    CleanupStep::RemoveDirectory(1)
                ]
            );
            assert_eq!(error, "Could not finish download: x");
            assert!(progress.done);
        }
        other => panic!("{other:?}"),
    }
    let mut file = DownloadPath::new("/f");
    file.download_path(DownloadEvent::Connected { cancelled: false });
    file.download_path(DownloadEvent::Inspected(Some(0o100644)));
    file.download_path(DownloadEvent::Counted(Totals { bytes: 1, files: 1 }));
    file.download_path(DownloadEvent::Looked { occupied: false, destination: String::new() });
    assert_eq!(file.download_path(DownloadEvent::Prepared), DownloadAction::Receive { directory: false });
    assert_eq!(file.download_path(DownloadEvent::Received), DownloadAction::Rename { directory: false });
    assert_eq!(file.download_path(DownloadEvent::Renamed), DownloadAction::Settle);
    assert!(matches!(file.download_path(DownloadEvent::Settled), DownloadAction::Done(_)));
}

#[test]
fn local_directories_are_made_from_the_top() {
    let mut search = DirectorySearch::new();
    assert_eq!(
        search.ensure_local_directory(3, "/a/b/c", "/a/b/c", LocalProbe::Missing { parent: Some(2) }),
        DirectoryAction::Look(2)
    );
    assert_eq!(
        search.ensure_local_directory(2, "/a/b/c", "/a/b", LocalProbe::Missing { parent: Some(1) }),
        DirectoryAction::Look(1)
    );
    assert_eq!(
        search.ensure_local_directory(1, "/a/b/c", "/a", LocalProbe::Directory),
        DirectoryAction::Create(vec![2, 3])
    );
    let mut other = DirectorySearch::new();
    assert_eq!(
        other.ensure_local_directory(1, "/a", "/a", LocalProbe::Other),
        DirectoryAction::Fail("The download parent is not a folder: /a".to_string())
    );
    assert_eq!(
        other.ensure_local_directory(1, "x", "x", LocalProbe::Missing { parent: None }),
        DirectoryAction::Fail("Could not find a parent folder for x".to_string())
    );
    assert_eq!(
        other.ensure_local_directory(1, "/a", "/a", LocalProbe::Failed("io".to_string())),
        DirectoryAction::Fail("Could not inspect download directory /a: io".to_string())
    );
    assert_eq!(
        download_cleanup(&[2, 3], true, false),
        vec![
            CleanupStep::RemoveStagingFile,
            CleanupStep::RemoveDirectory(3),
            CleanupStep::RemoveDirectory(2)
        ]
    );
}

#[test]
fn remote_directories_are_walked_in_order() {
    let entry = |handle: u64, directory: bool| RemoteEntry { handle, directory };
    let mut walk = DownloadWalk::new(entry(1, true));
    assert_eq!(walk.next(false), Ok(Some(entry(1, true))));
    walk.listed(&[entry(2, false), entry(3, true)]);
    assert_eq!(walk.next(false), Ok(Some(entry(2, false))));
    assert_eq!(walk.next(true), Err(OPERATION_CANCELLED.to_string()));
    assert_eq!(walk.next(false), Ok(Some(entry(3, true))));
    assert_eq!(walk.next(false), Ok(None));
}

#[test]
fn files_are_read_to_their_end() {
    let mut file = FileDownload::new("/r/f", "/l/f", some("/l"), false);
    assert_eq!(file.state, FileState::Placing);
    file.download_file(FileEvent::Succeeded);
    file.download_file(FileEvent::Succeeded);
    file.download_file(FileEvent::Succeeded);
    file.download_file(FileEvent::Checked { cancelled: false });
    file.download_file(FileEvent::Read { bytes: 3 });
    assert_eq!(file.state, FileState::Writing);
    file.download_file(FileEvent::Succeeded);
    file.download_file(FileEvent::Checked { cancelled: false });
    file.download_file(FileEvent::Read { bytes: 0 });
    assert_eq!(file.state, FileState::Confirming);
    file.download_file(FileEvent::Checked { cancelled: true });
    assert_eq!(file.state, FileState::Failed(OPERATION_CANCELLED.to_string()));
    let mut broken = FileDownload::new("/r/f", "/l/f", None, false);
    broken.download_file(FileEvent::Failed("x".to_string()));
    assert_eq!(broken.state, FileState::Failed("Could not read /r/f: x".to_string()));
    let mut closed = FileDownload::new("/r/f", "/l/f", some("/l"), false);
    closed.download_file(FileEvent::Failed("x".to_string()));
    assert_eq!(closed.state, FileState::Failed("Could not create /l: x".to_string()));
    assert_eq!(
        FileDownload::new("/r/f", "/l/f", None, true).state,
        FileState::Failed(OPERATION_CANCELLED.to_string())
    );
}

#[test]
fn firewalls_are_asked_for_their_status() {
    assert_eq!(firewall_status_source(" \n"), StatusSource::Nothing);
    assert_eq!(firewall_status_source("ufw\n"), StatusSource::Privileged(UFW_STATUS_COMMAND));
    assert_eq!(firewall_status_source("firewalld\n"), StatusSource::Plain(FIREWALLD_STATUS_COMMAND));
}

#[test]
fn firewalls_are_read() {
    let none = firewall("\n", "");
    assert_eq!((none.provider, none.enabled), (None, false));
    let ufw = firewall("ufw\n", " Status: ACTIVE\n\n [ 1] 22/tcp ALLOW IN\n");
    assert_eq!((ufw.provider.as_deref(), ufw.enabled), (Some("ufw"), true));
    assert_eq!(ufw.rules, vec!["[ 1] 22/tcp ALLOW IN"]);
    let firewalld = firewall("firewalld", "running\npublic\n");
    assert!(firewalld.enabled);
    assert!(!firewall("firewalld", "Running\n").enabled);
}

#[test]
fn firewall_rules_are_sound() {
    let plan = |action: &str, port: Option<u32>, protocol: Option<&str>, source: Option<&str>| {
        plan_firewall_action(
            action,
            port,
            &protocol.map(|text| text.to_string()),
            &source.map(|text| text.to_string()),
        )
    };
    assert_eq!(plan("flush", None, None, None).map(|_| ()), Err("Unsupported firewall action".to_string()));
    for port in [None, Some(0), Some(65536)] {
        assert_eq!(
            plan("allow", port, None, None).map(|_| ()),
            Err("Port must be between 1 and 65535".to_string())
        );
    }
    assert_eq!(
        plan("deny", Some(1), Some("icmp"), None).map(|_| ()),
        Err("Protocol must be TCP or UDP".to_string())
    );
    assert_eq!(
        plan("deny", Some(1), None, Some("10.0.0.1; rm")).map(|_| ()),
        Err("Source must be an IP address or CIDR".to_string())
    );
    let allow = plan("allow", Some(80), None, None).unwrap();
    assert_eq!(firewall_action("ufw\n", &allow), Ok("ufw allow 80/tcp".to_string()));
    assert_eq!(
        firewall_action("firewalld", &allow),
        Ok("firewall-cmd --permanent --add-port=80/tcp && firewall-cmd --reload".to_string())
    );
    let deny = plan("deny", Some(53), Some("udp"), Some("10.0.0.0/8")).unwrap();
    assert_eq!(
        firewall_action("ufw", &deny),
        Ok("ufw deny from 10.0.0.0/8 to any port 53 proto udp".to_string())
    );
    assert_eq!(
        firewall_action("firewalld", &deny),
        Ok("firewall-cmd --permanent --add-rich-rule='rule source address=10.0.0.0/8 port port=53 protocol=udp drop' && firewall-cmd --reload".to_string())
    );
    assert_eq!(firewall_action("ufw", &FirewallPlan::Enable), Ok("ufw --force enable".to_string()));
    assert_eq!(
        firewall_action("firewalld", &FirewallPlan::Disable),
        Ok("systemctl disable --now firewalld".to_string())
    );
    assert_eq!(
        firewall_action("", &FirewallPlan::Enable),
        Err("Neither UFW nor firewalld is installed".to_string())
    );
}

#[test]
fn authorized_keys_are_listed() {
    assert_eq!(format_hex(0), "0000000000000000");
    assert_eq!(format_hex(0xdead_beef), "00000000deadbeef");
    let record = "SHA256:f\tno-pty ssh-ed25519 AAAA me@host now";
    let key = authorized_key(&chars_of(record), 255).unwrap();
    assert_eq!(key.id, "00000000000000ff");
    assert_eq!((key.kind.as_str(), key.fingerprint.as_str(), key.comment.as_str()), ("ssh-ed25519", "SHA256:f", "me@host now"));
    assert_eq!(key.key, "no-pty ssh-ed25519 AAAA me@host now");
    assert!(authorized_key(&chars_of("SHA256:f\tssh-rsa"), 0).is_none());
    assert!(authorized_key(&chars_of("no tab"), 0).is_none());
    let keys = authorized_keys(&format!("{record}\nbad\nSHA256:g\tsk-x BBBB\n{record}\n"));
    assert_eq!(keys.len(), 3);
    assert_eq!(keys[0].id.len(), 16);
    assert!(keys[0].id.chars().all(|c| c.is_ascii_hexdigit() && !c.is_ascii_uppercase()));
    assert_eq!(keys[0].id, keys[2].id);
    assert_eq!(keys[0], authorized_keys(record)[0]);
    assert_ne!(keys[0].id, keys[1].id);
}

#[test]
fn authorized_keys_are_changed() {
    assert_eq!(authorized_key_action("list", "x"), Err("Invalid SSH key action".to_string()));
    assert_eq!(authorized_key_action("remove", "a\nb"), Err("Invalid SSH key action".to_string()));
    assert_eq!(authorized_key_action("add", &"ssh-".repeat(6000)), Err("Invalid SSH key action".to_string()));
    assert_eq!(authorized_key_action("add", "hello"), Err("Enter a valid OpenSSH public key".to_string()));
    assert_eq!(
        authorized_key_action("add", "ssh-rsa A"),
        Ok("umask 077; mkdir -p ~/.ssh; touch ~/.ssh/authorized_keys; grep -Fqx -- 'ssh-rsa A' ~/.ssh/authorized_keys || printf '%s\\n' 'ssh-rsa A' >> ~/.ssh/authorized_keys".to_string())
    );
    assert_eq!(
        authorized_key_action("remove", "x"),
        Ok("test ! -f ~/.ssh/authorized_keys || { tmp=$(mktemp); grep -Fvx -- 'x' ~/.ssh/authorized_keys > \"$tmp\" || true; cat \"$tmp\" > ~/.ssh/authorized_keys; rm -f \"$tmp\"; }".to_string())
    );
}

#[test]
fn security_is_summed_up() {
    let found = parse_security("3\t1\t1\t6.1\t2024-01-01\t0\t1\nDocker version 24\n");
    assert_eq!((found.updates, found.security_updates, found.reboot_required), (3, 1, true));
    assert_eq!(found.kernel_version, "6.1");
    assert_eq!(found.last_package_update, some("2024-01-01"));
    assert_eq!(found.container_version, some("Docker version 24"));
    assert!(!found.container_update_available && found.package_updates_available);
    let none = parse_security("");
    assert_eq!((none.updates, none.kernel_version.as_str()), (0, "unknown"));
    assert_eq!((none.last_package_update, none.container_version), (None, None));
    let failed = ExecOutput { stdout: String::new(), stderr: "x".to_string(), exit_code: 1 };
    assert_eq!(security(&failed).map(|_| ()), Err("x".to_string()));
}

#[test]
fn quick_actions_are_known() {
    assert_eq!(quick_action("clear-cache"), Ok("sync; echo 3 > /proc/sys/vm/drop_caches".to_string()));
    for action in ["reboot", "shutdown", "restart-ssh", "restart-docker", "update-index", "install-tools"] {
        assert!(quick_action(action).is_ok(), "{action}");
    }
    assert!(quick_action("reboot").unwrap().contains("shutdown -r +1 'Scheduled by Serverbox'"));
    assert_eq!(quick_action("format"), Err("Unsupported server action".to_string()));
    assert_eq!(check_command("ls"), Ok(()));
    let refused = Err("Enter a command no larger than 20 KB".to_string());
    assert_eq!(check_command(" "), refused);
    assert_eq!(check_command(&"x".repeat(20_001)), refused);
    let result = run_command(
        "s",
        "web",
        ExecOutput { stdout: "o".to_string(), stderr: "e".to_string(), exit_code: 3 },
    );
    assert_eq!((result.server_name.as_str(), result.stdout.as_str(), result.exit_code), ("web", "o", 3));
    assert_eq!(result.error, None);
}
