use serverbox::connections::{
    connection_is_usable, operation_outcome, settle, with_client_step, ClientAction, ClientEvent,
    Connections, Lookup, OperationOutcome, Settlement, CACHED_UNUSABLE,
};
use serverbox::log_stream;
use serverbox::log_stream::{
    access_probe_command, log_access, probe_value, stream_closing_message, stream_identifier,
    FollowStage, LogAccess, LogSessions, LogWorker,
};
use serverbox::models::{TerminalResize, TunnelStatus};
use serverbox::operations::{
    ensure_not_cancelled, Cancellation, Operations, MAX_PENDING_CANCELLATIONS,
};
use serverbox::registry::Registry;
use serverbox::ssh::{ExecOutput, OPERATION_CANCELLED};
use serverbox::stream::{drop_front, keepalive_step, KeepAlive, Relay, RELAY_BUFFER_BYTES};
use serverbox::terminal;
use serverbox::terminal::{
    closing_message, release_input_bytes, reserve_input_bytes, session_identifier,
    terminal_command, terminal_size, ChannelOutcome, Flow, OpenAction, OpenEvent, TerminalCommand,
    TerminalOpening, TerminalSessions, TerminalWorker, MAX_PENDING_INPUT_BYTES, NOT_CONNECTED,
    QUEUE_FULL,
};
use serverbox::tunnels;
use serverbox::tunnels::{
    loopback, loopback_bind_addresses, socks_granted, socks_start, socks_target, BindAddress,
    Runtimes, SocksHost, SocksStage, SocksStep,
};

const SESSION: &str = "67e55044-10b1-426f-9247-bb680e5fe0c8";

fn said(stdout: &str, stderr: &str, exit_code: i32) -> ExecOutput {
    ExecOutput { stdout: stdout.to_string(), stderr: stderr.to_string(), exit_code }
}

#[test]
fn registries_hold_one_value_under_a_name() {
    let mut registry: Registry<u32> = Registry::new();
    registry.insert("a", 1);
    registry.insert("b", 2);
    registry.insert("a", 3);
    assert!(registry.has("a") && !registry.has("c"));
    assert_eq!(registry.get("a"), Some(&3));
    assert_eq!(registry.remove("a"), Some(3));
    assert_eq!(registry.remove("a"), None);
    assert_eq!(registry.names(), vec!["b".to_string()]);
}

#[test]
fn a_cancellation_may_come_before_its_operation() {
    let mut operations = Operations::new();
    assert_eq!(
        operations.cancel_operation("x", 0, 7),
        Cancellation { flag: 7, dropped: Vec::new() }
    );
    let handle = operations.begin_operation("x", 8);
    assert_eq!(handle.cancellation(), 7);
    assert!(handle.cancelled);
    operations.finish_operation(handle);
    let again = operations.begin_operation("x", 9);
    assert!(!again.cancelled);
    assert_eq!(again.cancellation(), 9);
    assert_eq!(ensure_not_cancelled(again.cancelled), Ok(()));
    assert_eq!(ensure_not_cancelled(true), Err(OPERATION_CANCELLED.to_string()));
}

#[test]
fn running_operations_are_cancelled_by_their_flag() {
    let mut operations = Operations::new();
    let one = operations.begin_operation("x", 1);
    let two = operations.begin_operation("y", 2);
    assert_eq!(operations.cancel_operation("x", 5, 3).flag, 1);
    assert!(!two.cancelled);
    operations.finish_operation(one);
    operations.finish_operation(two);
    assert_eq!(operations.cancel_operation("x", 6, 4).flag, 4);
}

#[test]
fn waiting_cancellations_expire_and_are_bounded() {
    let mut operations = Operations::new();
    operations.cancel_operation("early", 0, 1);
    operations.cancel_operation("late", 59_999, 2);
    assert_eq!(operations.prune_pending_cancellations(60_000), vec![1]);
    assert!(!operations.begin_operation("early", 3).cancelled);
    assert!(operations.begin_operation("late", 4).cancelled);
    let mut crowded = Operations::new();
    for n in 0..1030u64 {
        let cancelled = crowded.cancel_operation(&n.to_string(), 10 + n, n);
        let dropped = if n < 1024 { Vec::new() } else { vec![n - 1024] };
        assert_eq!(cancelled, Cancellation { flag: n, dropped });
    }
    assert_eq!(crowded.pending.len(), MAX_PENDING_CANCELLATIONS);
    assert!(!crowded.begin_operation("5", 2000).cancelled);
    assert!(crowded.begin_operation("6", 2001).cancelled);
    assert!(crowded.begin_operation("1029", 2002).cancelled);
}

#[test]
fn cancellations_wait_for_a_minute_among_others() {
    let mut operations = Operations::new();
    operations.cancel_operation("x", 5, 7000);
    for n in 0..1023u64 {
        operations.cancel_operation(&n.to_string(), 6 + n, n);
        if n % 3 == 0 {
            let begun = operations.begin_operation(&n.to_string(), 8000 + n);
            operations.finish_operation(begun);
        }
    }
    operations.cancel_operation("x", 60_004, 7001);
    let handle = operations.begin_operation("x", 7002);
    assert!(handle.cancelled);
    assert_eq!(handle.cancellation(), 7000);
    operations.finish_operation(handle);
    assert!(!operations.begin_operation("x", 7003).cancelled);

    let mut repeated = Operations::new();
    repeated.cancel_operation("x", 0, 1);
    repeated.cancel_operation("x", 59_000, 2);
    repeated.cancel_operation("y", 60_000, 3);
    assert!(!repeated.begin_operation("x", 4).cancelled);
}

#[test]
fn edited_profiles_are_connected_anew() {
    let mut connections = Connections::new();
    assert_eq!(connections.keep("s", "key", 4), None);
    assert_eq!(connections.cached_client("s", "key"), Lookup::Reuse(4));
    assert_eq!(connections.cached_client("s", "other"), Lookup::Connect { given_up: Some(4) });
    assert_eq!(connections.cached_client("s", "key"), Lookup::Connect { given_up: None });
    connections.keep("s", "key", 3);
    assert_eq!(connections.keep("s", "key", 5), Some(3));
    connections.invalidate_cached("s", "key", 4);
    assert_eq!(connections.cached_client("s", "key"), Lookup::Reuse(5));
    connections.invalidate_cached("s", "key", 5);
    assert_eq!(connections.disconnect_server("s"), None);
    connections.keep("a", "k", 1);
    connections.keep("b", "k", 2);
    assert_eq!(connections.disconnect_server("a"), Some(1));
    assert_eq!(connections.disconnect_all().len(), 1);
    assert_eq!(connections.disconnect_all().len(), 0);
}

#[test]
fn a_connection_is_attempted_twice_at_most() {
    assert_eq!(
        with_client_step(0, ClientEvent::ConnectFailed("timed out".to_string())),
        ClientAction::Retry { pause: 220, invalidate: false }
    );
    assert_eq!(
        with_client_step(1, ClientEvent::ConnectFailed("timed out".to_string())),
        ClientAction::Fail { error: "timed out".to_string(), invalidate: false }
    );
    assert_eq!(
        with_client_step(0, ClientEvent::ConnectFailed("HOST_KEY_UNKNOWN:{}".to_string())),
        ClientAction::Fail { error: "HOST_KEY_UNKNOWN:{}".to_string(), invalidate: false }
    );
    assert_eq!(
        with_client_step(0, ClientEvent::Probed { usable: false }),
        ClientAction::Retry { pause: 0, invalidate: true }
    );
    assert_eq!(
        with_client_step(1, ClientEvent::Probed { usable: false }),
        ClientAction::Fail { error: CACHED_UNUSABLE.to_string(), invalidate: true }
    );
    assert_eq!(with_client_step(0, ClientEvent::Reused), ClientAction::Probe);
    assert_eq!(with_client_step(1, ClientEvent::Connected), ClientAction::Operate);
    assert_eq!(
        with_client_step(0, ClientEvent::Attempt { cancelled: true }),
        ClientAction::Fail { error: OPERATION_CANCELLED.to_string(), invalidate: false }
    );
    assert_eq!(with_client_step(0, ClientEvent::Attempt { cancelled: false }), ClientAction::Acquire);
    assert_eq!(
        with_client_step(0, ClientEvent::LockFailed("poisoned".to_string())),
        ClientAction::Fail { error: "poisoned".to_string(), invalidate: false }
    );
}

#[test]
fn connections_are_kept_where_they_still_work() {
    assert_eq!(operation_outcome(None, false), OperationOutcome::Succeeded);
    assert_eq!(operation_outcome(None, true), OperationOutcome::Cancelled);
    assert_eq!(operation_outcome(Some("x"), true), OperationOutcome::Failed);
    assert_eq!(operation_outcome(Some(OPERATION_CANCELLED), false), OperationOutcome::Cancelled);
    assert_eq!(settle(OperationOutcome::Succeeded, true), Settlement::MarkConnected);
    assert_eq!(settle(OperationOutcome::Cancelled, false), Settlement::Keep);
    assert_eq!(settle(OperationOutcome::Failed, false), Settlement::Invalidate);
    assert_eq!(settle(OperationOutcome::Failed, true), Settlement::Keep);
    assert!(connection_is_usable(true, true, false));
    assert!(connection_is_usable(true, false, true));
    assert!(!connection_is_usable(true, false, false));
    assert!(!connection_is_usable(false, true, false));
}

#[test]
fn identifiers_are_uuids() {
    assert_eq!(session_identifier(SESSION), Ok(SESSION.to_string()));
    assert_eq!(
        session_identifier("{67E55044-10B1-426F-9247-BB680E5FE0C8}"),
        Ok(SESSION.to_string())
    );
    assert_eq!(session_identifier("67e5504410b1426f9247bb680e5fe0c8"), Ok(SESSION.to_string()));
    assert_eq!(session_identifier("x"), Err("Invalid terminal session identifier".to_string()));
    assert_eq!(stream_identifier(SESSION), Ok(SESSION.to_string()));
    assert_eq!(stream_identifier(""), Err("Invalid log stream identifier".to_string()));
}

#[test]
fn terminals_have_a_least_size() {
    assert_eq!(terminal_size(0, 0), (20, 5));
    assert_eq!(terminal_size(80, 24), (80, 24));
    assert_eq!(terminal_command(Some("  ".to_string())), None);
    assert_eq!(terminal_command(Some(" top ".to_string())), Some(" top ".to_string()));
    assert_eq!(terminal_command(None), None);
}

#[test]
fn input_waits_in_a_bounded_queue() {
    assert_eq!(reserve_input_bytes(5, 6), Ok(11));
    assert_eq!(
        reserve_input_bytes(MAX_PENDING_INPUT_BYTES - 1, 1),
        Ok(MAX_PENDING_INPUT_BYTES)
    );
    assert_eq!(reserve_input_bytes(MAX_PENDING_INPUT_BYTES, 1), Err(QUEUE_FULL.to_string()));
    assert_eq!(reserve_input_bytes(usize::MAX, 1), Err(QUEUE_FULL.to_string()));
    let mut sessions = TerminalSessions::new();
    sessions.open("t", "s", 3);
    assert_eq!(
        terminal::input(&mut sessions, "t", "h\u{e9}".to_string()),
        Ok((3, TerminalCommand::Input(vec![0x68, 0xc3, 0xa9])))
    );
    let big = "x".repeat(MAX_PENDING_INPUT_BYTES);
    assert_eq!(terminal::input(&mut sessions, "t", big.clone()), Err(QUEUE_FULL.to_string()));
    release_input_bytes(&mut sessions, "t", 3);
    assert!(terminal::input(&mut sessions, "t", big).is_ok());
}

#[test]
fn closed_terminals_take_no_input() {
    let mut sessions = TerminalSessions::new();
    sessions.open("one", "s", 1);
    sessions.open("two", "s", 2);
    sessions.open("three", "t", 3);
    assert_eq!(terminal::close(&sessions, "two"), Some(2));
    assert_eq!(terminal::close(&sessions, "none"), None);
    let size = TerminalResize { session_id: "three".to_string(), cols: 1, rows: 2 };
    assert_eq!(terminal::resize(&sessions, &size), Ok((3, TerminalCommand::Resize(1, 2))));
    assert_eq!(terminal::close_server(&mut sessions, "s").len(), 2);
    assert_eq!(
        terminal::input(&mut sessions, "one", "x".to_string()),
        Err(NOT_CONNECTED.to_string())
    );
    assert!(terminal::input(&mut sessions, "three", "x".to_string()).is_ok());
    assert_eq!(terminal::close_all(&mut sessions).len(), 1);
    assert_eq!(terminal::resize(&sessions, &size), Err(NOT_CONNECTED.to_string()));
    sessions.open("four", "t", 4);
    sessions.forget("four");
    assert_eq!(terminal::close(&sessions, "four"), None);
}

#[test]
fn typed_bytes_are_written_in_order() {
    let mut worker = TerminalWorker::new();
    worker.receive(TerminalCommand::Input(b"abc".to_vec()));
    worker.receive(TerminalCommand::Input(Vec::new()));
    worker.receive(TerminalCommand::Input(b"de".to_vec()));
    worker.receive(TerminalCommand::Resize(1, 1));
    assert_eq!(worker.resize_due(), Some((20, 5)));
    assert_eq!(worker.resized(ChannelOutcome::Retry), Flow::NextRound);
    assert_eq!(worker.resized(ChannelOutcome::Done(0)), Flow::Continue);
    assert_eq!(worker.resize_due(), None);
    assert_eq!(worker.input_due(), Some(b"abc".to_vec()));
    assert_eq!(worker.written(ChannelOutcome::Done(2)), Flow::Continue);
    assert_eq!(worker.input_due(), Some(b"c".to_vec()));
    assert_eq!(worker.written(ChannelOutcome::Retry), Flow::NextRound);
    worker.receive(TerminalCommand::Resize(90, 30));
    assert_eq!(worker.resize_due(), None);
    assert_eq!(worker.written(ChannelOutcome::Done(0)), Flow::NextRound);
    assert_eq!(worker.written(ChannelOutcome::Done(1)), Flow::Continue);
    assert_eq!(worker.input_due(), Some(b"de".to_vec()));
    assert_eq!(worker.resize_due(), Some((90, 30)));
    assert_eq!(worker.written(ChannelOutcome::Failed("gone".to_string())), Flow::Stop);
    assert!(worker.closed);
    assert_eq!(
        worker.close_message,
        Some("Terminal connection lost while sending input: gone".to_string())
    );
}

#[test]
fn terminals_close_for_a_reason() {
    let mut worker = TerminalWorker::new();
    worker.receive(TerminalCommand::Resize(30, 30));
    assert_eq!(worker.resized(ChannelOutcome::Failed("x".to_string())), Flow::Stop);
    assert_eq!(
        worker.close_message,
        Some("Terminal connection lost while resizing: x".to_string())
    );
    let mut worker = TerminalWorker::new();
    assert_eq!(worker.output(&[0x61, 0xc3]), "a");
    worker.read_failed("reset");
    assert_eq!(
        worker.close_message,
        Some("Terminal connection lost while reading output: reset".to_string())
    );
    assert_eq!(worker.finish(), "\u{fffd}");
    let mut worker = TerminalWorker::new();
    worker.receive(TerminalCommand::Close);
    assert!(worker.closed);
    assert_eq!(closing_message(None, false, Some(1)), "Remote shell exited");
    assert_eq!(closing_message(None, true, Some(0)), "Remote command finished");
    assert_eq!(closing_message(None, true, Some(-2)), "Remote command exited with status -2");
    assert_eq!(closing_message(None, true, None), "Remote shell exited");
    assert_eq!(closing_message(Some("lost".to_string()), true, Some(0)), "lost");
}

#[test]
fn three_failed_keepalives_lose_a_connection() {
    assert_eq!(keepalive_step(2, &KeepAlive::Sent(0)), (0, Some(1000)));
    assert_eq!(keepalive_step(1, &KeepAlive::Sent(15)), (0, Some(15000)));
    assert_eq!(keepalive_step(1, &KeepAlive::WouldBlock), (1, Some(250)));
    assert_eq!(keepalive_step(1, &KeepAlive::Failed("x".to_string())), (2, Some(1000)));
    assert_eq!(keepalive_step(2, &KeepAlive::Failed("x".to_string())), (3, None));
    let mut worker = TerminalWorker::new();
    assert_eq!(worker.keepalive(KeepAlive::Failed("x".to_string())), Some(1000));
    assert_eq!(worker.keepalive(KeepAlive::Failed("x".to_string())), Some(1000));
    assert_eq!(worker.keepalive(KeepAlive::Failed("y".to_string())), None);
    assert_eq!(worker.close_message, Some("SSH connection lost: y".to_string()));
    let mut stream = LogWorker::new();
    stream.keepalive(KeepAlive::Failed("x".to_string()));
    stream.keepalive(KeepAlive::Failed("x".to_string()));
    assert_eq!(stream.keepalive(KeepAlive::Failed("y".to_string())), None);
    assert_eq!(stream.close_message, Some("Live log connection lost: y".to_string()));
    assert!(stream.stopped);
}

#[test]
fn terminals_are_opened_step_by_step() {
    let ok = || OpenEvent::Succeeded { cancelled: false };
    let mut opening = TerminalOpening::new(1, 100, Some("htop".to_string()));
    assert_eq!(opening.start(ok()), OpenAction::OpenChannel);
    assert_eq!(opening.start(ok()), OpenAction::RequestPty { cols: 20, rows: 100 });
    assert_eq!(opening.start(ok()), OpenAction::StartCommand("htop".to_string()));
    assert_eq!(opening.start(ok()), OpenAction::Merge);
    assert_eq!(opening.start(ok()), OpenAction::Register);
    assert_eq!(opening.start(ok()), OpenAction::Run);
    assert_eq!(opening.start(ok()), OpenAction::Nothing);
    let mut cancelled = TerminalOpening::new(80, 24, None);
    cancelled.start(ok());
    cancelled.start(ok());
    assert_eq!(cancelled.start(ok()), OpenAction::StartShell);
    cancelled.start(ok());
    cancelled.start(ok());
    assert_eq!(
        cancelled.start(OpenEvent::Succeeded { cancelled: true }),
        OpenAction::Withdraw(OPERATION_CANCELLED.to_string())
    );
    let mut early = TerminalOpening::new(80, 24, None);
    early.start(ok());
    assert_eq!(
        early.start(OpenEvent::Succeeded { cancelled: true }),
        OpenAction::Fail(OPERATION_CANCELLED.to_string())
    );
    let mut broken = TerminalOpening::new(80, 24, None);
    broken.start(ok());
    broken.start(ok());
    assert_eq!(
        broken.start(OpenEvent::Failed("no".to_string())),
        OpenAction::Fail("Could not allocate a remote terminal: no".to_string())
    );
}

#[test]
fn logs_are_followed_with_the_rights_that_they_need() {
    let probe = |status: &str, uid: &str, sudo: &str| {
        format!("noise\n__SERVERBOX_LOG_ACCESS_STATUS__\t{status}\n__SERVERBOX_LOG_UID__\t{uid}\n__SERVERBOX_LOG_PASSWORDLESS_SUDO__\t{sudo}\n")
    };
    assert_eq!(probe_value(&probe("0", "5", "x"), "__SERVERBOX_LOG_UID__"), Some("5".to_string()));
    assert_eq!(probe_value("nothing", "__SERVERBOX_LOG_UID__"), None);
    assert_eq!(
        log_access(&said(&probe("0", "1000", "false"), "", 0), "tail"),
        Ok(LogAccess::Run("tail".to_string()))
    );
    assert_eq!(
        log_access(&said(&probe("1", "0", "false"), "Permission denied", 0), "tail"),
        Ok(LogAccess::Run("tail".to_string()))
    );
    assert_eq!(
        log_access(&said(&probe("1", "1000", "true"), "Permission denied", 0), "tail"),
        Ok(LogAccess::Run("sudo -n sh -c 'tail'".to_string()))
    );
    assert_eq!(
        log_access(&said(&probe("1", "1000", "false"), "Permission denied", 0), "tail"),
        Ok(LogAccess::RunWithPassword("LC_ALL=C sudo -S -k -p '' sh -c 'tail'".to_string()))
    );
    assert_eq!(
        log_access(&said(&probe("1", "1000", "true"), "no such file", 0), "tail"),
        Err("no such file".to_string())
    );
    assert_eq!(
        log_access(&said("", "", 0), "tail"),
        Err("The server returned an invalid live-log access probe".to_string())
    );
    assert_eq!(
        access_probe_command("true"),
        "( true ); access_status=$?; printf '\\n__SERVERBOX_LOG_ACCESS_STATUS__\\t%s\\n' \"$access_status\"; printf '__SERVERBOX_LOG_UID__\\t%s\\n' \"$(id -u 2>/dev/null)\"; if sudo -n true >/dev/null 2>&1; then printf '__SERVERBOX_LOG_PASSWORDLESS_SUDO__\\ttrue\\n'; else printf '__SERVERBOX_LOG_PASSWORDLESS_SUDO__\\tfalse\\n'; fi"
    );
}

#[test]
fn followed_logs_are_closed_by_their_channel() {
    let mut sessions = LogSessions::new();
    sessions.open("one", "s", 1);
    sessions.open("two", "t", 2);
    assert_eq!(log_stream::close(&sessions, "one"), Some(1));
    assert_eq!(log_stream::close(&sessions, "none"), None);
    assert_eq!(log_stream::close_server(&sessions, "t"), vec![("two".to_string(), 2)]);
    assert_eq!(log_stream::close_all(&sessions).len(), 2);
    sessions.forget("one");
    assert_eq!(log_stream::close_all(&sessions).len(), 1);
    let mut worker = LogWorker::new();
    assert_eq!(worker.output(b"line\n"), "line\n");
    worker.read_failed("x");
    assert_eq!(worker.close_message, Some("Live log connection lost: x".to_string()));
    assert_eq!(worker.finish(), "");
    assert_eq!(stream_closing_message(None, None), "Live log stream stopped");
    assert_eq!(stream_closing_message(None, Some(0)), "Live log stream stopped");
    assert_eq!(stream_closing_message(None, Some(2)), "Live log command exited with status 2");
    assert_eq!(stream_closing_message(Some("m".to_string()), Some(2)), "m");
    assert_eq!(log_stream::start(FollowStage::Channel, true, None), Ok(Some(FollowStage::Starting)));
    assert_eq!(log_stream::start(FollowStage::Starting, false, None), Ok(Some(FollowStage::Merging)));
    assert_eq!(log_stream::start(FollowStage::Starting, true, None), Ok(Some(FollowStage::Password)));
    assert_eq!(log_stream::start(FollowStage::Merging, true, None), Ok(None));
    assert_eq!(
        log_stream::start(FollowStage::Password, true, Some("x")),
        Err("Could not send the sudo password for live logs: x".to_string())
    );
}

#[test]
fn relayed_bytes_keep_their_order() {
    let mut relay = Relay::new();
    assert!(relay.wants_local() && relay.wants_remote());
    relay.local_read(b"abc");
    relay.local_read(b"de");
    relay.remote_written(2);
    assert_eq!(relay.to_remote, b"cde".to_vec());
    assert!(!relay.end_due());
    relay.local_read(b"");
    assert!(!relay.wants_local());
    relay.remote_written(3);
    assert!(relay.end_due());
    assert!(!relay.end_due());
    relay.remote_read(b"xy");
    assert!(!relay.finished(true));
    relay.local_written(2);
    assert!(relay.finished(true));
    assert!(!relay.finished(false));
    let mut full = Relay::new();
    full.local_read(&vec![0u8; RELAY_BUFFER_BYTES]);
    assert!(!full.wants_local());
    let mut bytes = vec![1u8, 2, 3];
    drop_front(&mut bytes, 2);
    assert_eq!(bytes, vec![3]);
}

#[test]
fn stopped_tunnels_do_not_run() {
    let mut runtimes = Runtimes::new();
    let (status, before) = tunnels::start(&mut runtimes, "t", 1);
    assert_eq!(status, TunnelStatus { id: "t".to_string(), running: true, error: None });
    assert_eq!(before, None);
    let (_, before) = tunnels::start(&mut runtimes, "t", 2);
    assert_eq!(before, Some(1));
    runtimes.ended("t", 1, Some("old".to_string()));
    let names = vec!["t".to_string(), "u".to_string()];
    let found = tunnels::statuses(&runtimes, &names);
    assert!(found[0].running && found[0].error.is_none() && !found[1].running);
    runtimes.ended("t", 2, Some("broken".to_string()));
    let found = tunnels::statuses(&runtimes, &names);
    assert_eq!(found[0].error, Some("broken".to_string()));
    assert!(!found[0].running);
    tunnels::start(&mut runtimes, "v", 3);
    assert_eq!(tunnels::stop(&mut runtimes, "v"), Some(3));
    assert_eq!(tunnels::stop(&mut runtimes, "w"), None);
    assert!(!tunnels::statuses(&runtimes, &["v".to_string()])[0].running);
    tunnels::start(&mut runtimes, "x", 4);
    assert!(tunnels::stop_all(&mut runtimes).contains(&4));
    assert!(!tunnels::statuses(&runtimes, &["x".to_string()])[0].running);
}

#[test]
fn proxies_bind_to_loopback_alone() {
    assert!(loopback(&BindAddress::V4([127, 9, 9, 9])));
    assert!(!loopback(&BindAddress::V4([128, 0, 0, 1])));
    assert!(loopback(&BindAddress::V6([0, 0, 0, 0, 0, 0, 0, 1])));
    assert!(!loopback(&BindAddress::V6([0, 0, 0, 0, 0, 0xffff, 0x7f00, 1])));
    let here = [BindAddress::V4([127, 0, 0, 1])];
    assert_eq!(loopback_bind_addresses("localhost", &here), Ok(()));
    assert_eq!(
        loopback_bind_addresses("x", &[]),
        Err("Tunnel bind host x did not resolve to an address".to_string())
    );
    let both = [BindAddress::V4([127, 0, 0, 1]), BindAddress::V4([10, 0, 0, 1])];
    assert_eq!(
        loopback_bind_addresses("x", &both),
        Err("SOCKS5 proxies must bind to a loopback address (127.0.0.1 or ::1). Binding x would expose an unauthenticated proxy to other machines.".to_string())
    );
}

fn socks(chunks: &[&[u8]]) -> SocksStep {
    let (mut stage, mut length) = socks_start();
    for chunk in chunks {
        assert_eq!(chunk.len(), length);
        match socks_target(stage, chunk) {
            SocksStep::Read { stage: next, length: wanted, .. } => {
                stage = next;
                length = wanted;
            }
            end => return end,
        }
    }
    panic!("the request is not over")
}

#[test]
fn socks_requests_are_granted() {
    assert_eq!(socks_granted().to_vec(), vec![5u8, 0, 0, 1, 0, 0, 0, 0, 0, 0]);
}

#[test]
fn socks_requests_name_a_target() {
    assert_eq!(
        socks(&[&[5, 1], &[0], &[5, 1, 0, 1], &[10, 0, 0, 7], &[0x1f, 0x90]]),
        SocksStep::Target { host: SocksHost::Text("10.0.0.7".to_string()), port: 8080 }
    );
    assert_eq!(
        socks(&[&[5, 1], &[0], &[5, 1, 0, 3], &[2], b"ab", &[0, 80]]),
        SocksStep::Target { host: SocksHost::Text("ab".to_string()), port: 80 }
    );
    let mut six = [0u8; 16];
    six[15] = 1;
    assert_eq!(
        socks(&[&[5, 1], &[0], &[5, 1, 0, 4], &six, &[0, 80]]),
        SocksStep::Target { host: SocksHost::V6(six.to_vec()), port: 80 }
    );
}

#[test]
fn other_socks_requests_are_refused() {
    let refuse = |error: &str, reply: Vec<u8>| SocksStep::Refuse { reply, error: error.to_string() };
    assert_eq!(socks(&[&[4, 1]]), refuse("Only SOCKS5 is supported", Vec::new()));
    assert_eq!(
        socks(&[&[5, 1], &[2]]),
        refuse("SOCKS client requires authentication", vec![5, 0xff])
    );
    assert_eq!(
        socks(&[&[5, 1], &[0], &[5, 2, 0, 1]]),
        refuse("Only SOCKS CONNECT is supported", Vec::new())
    );
    assert_eq!(
        socks(&[&[5, 1], &[0], &[5, 1, 0, 9]]),
        refuse("Invalid SOCKS address", Vec::new())
    );
    assert_eq!(
        socks(&[&[5, 1], &[0], &[5, 1, 0, 3], &[1], &[0xff]]),
        refuse("Invalid SOCKS host", Vec::new())
    );
    match socks_target(SocksStage::Methods, &[0, 2]) {
        SocksStep::Read { reply, .. } => assert_eq!(reply, vec![5, 0]),
        other => panic!("{other:?}"),
    }
}
