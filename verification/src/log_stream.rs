//! Followed logs: the table of those that are open, how a log is reached, and when
//! following it ends.
use crate::identifiers::{canonical_uuid, uuid_text};
use crate::numbers::{format_signed, parse_signed, signed_decimal, signed_of};
use crate::registry::{as_map, names_differ, Registry};
use crate::ssh::{
    command_error, failure_text, is_permission_error, names_permission, quote_shell, quoted,
    text_result, ExecOutput,
};
use crate::stream::{after_keepalive, keepalive_step, KeepAlive, MAX_KEEPALIVE_FAILURES};
use crate::text::{
    after_prefix, copy, glue2, lines_of, lines_str, opt_view, same, starts_with, string_of,
    strip_prefix, views,
};
use crate::utf8::{decode_chunk, flush, left_of, lossy_text, text_of};
use vstd::prelude::*;

verus! {

broadcast use vstd::string::group_string_axioms;

/// The pause between two rounds of the worker, in milliseconds.
pub const STREAM_POLL_INTERVAL: u64 = 20;

pub const ACCESS_STATUS_MARKER: &'static str = "__SERVERBOX_LOG_ACCESS_STATUS__";

pub const UID_MARKER: &'static str = "__SERVERBOX_LOG_UID__";

pub const PASSWORDLESS_SUDO_MARKER: &'static str = "__SERVERBOX_LOG_PASSWORDLESS_SUDO__";

/// A followed log. `close` names the channel to its worker.
#[derive(Debug, PartialEq, Eq)]
pub struct LogSession {
    pub server_id: String,
    pub close: u64,
}

/// The followed logs.
pub struct LogSessions {
    pub sessions: Registry<LogSession>,
}

impl LogSessions {
    pub fn new() -> (res: Self)
        ensures
            res.sessions@ == Map::<Seq<char>, LogSession>::empty(),
    {
        LogSessions { sessions: Registry::new() }
    }

    /// Puts a new session into the table.
    pub fn open(&mut self, session_id: &str, server_id: &str, channel: u64)
        ensures
            final(self).sessions@.dom() == old(self).sessions@.dom().insert(session_id@),
            final(self).sessions@[session_id@].server_id@ == server_id@,
            final(self).sessions@[session_id@].close == channel,
            forall|other: Seq<char>|
                other != session_id@ && old(self).sessions@.dom().contains(other)
                    ==> #[trigger] final(self).sessions@[other] == old(self).sessions@[other],
    {
        self.sessions.insert(
            session_id,
            LogSession { server_id: copy(server_id), close: channel },
        );
    }

    /// Takes a session out of the table.
    pub fn forget(&mut self, session_id: &str)
        ensures
            final(self).sessions@ == old(self).sessions@.remove(session_id@),
    {
        let _ = self.sessions.remove(session_id);
    }
}

/// The session identifier that a request gives, in its usual form.
pub fn stream_identifier(text: &str) -> (res: Result<String, String>)
    ensures
        text_result(res) == (match uuid_text(text@) {
            Some(id) => Ok::<Seq<char>, Seq<char>>(id),
            None => Err("Invalid log stream identifier"@),
        }),
{
    match canonical_uuid(text) {
        Some(id) => Ok(id),
        None => Err(copy("Invalid log stream identifier")),
    }
}

/// The worker that is told to close; a session that is gone needs none.
pub fn close(sessions: &LogSessions, session_id: &str) -> (res: Option<u64>)
    ensures
        match res {
            Some(channel) => sessions.sessions@.dom().contains(session_id@) && channel
                == sessions.sessions@[session_id@].close,
            None => !sessions.sessions@.dom().contains(session_id@),
        },
{
    match sessions.sessions.get(session_id) {
        Some(session) => Some(session.close),
        None => None,
    }
}

/// The workers of the sessions in `wanted`, by session.
pub open spec fn workers_of(
    sessions: Map<Seq<char>, LogSession>,
    workers: Seq<(String, u64)>,
    wanted: spec_fn(LogSession) -> bool,
) -> bool {
    &&& names_differ(workers)
    &&& forall|id: Seq<char>| #[trigger]
        as_map(workers).dom().contains(id) <==> sessions.dom().contains(id) && wanted(sessions[id])
    &&& forall|id: Seq<char>|
        as_map(workers).dom().contains(id) ==> #[trigger] as_map(workers)[id] == sessions[id].close
}

/// Whether a session belongs to the server.
pub open spec fn belongs_to(server_id: Seq<char>) -> spec_fn(LogSession) -> bool {
    |session: LogSession| session.server_id@ == server_id
}

/// Every session.
pub open spec fn any_session() -> spec_fn(LogSession) -> bool {
    |session: LogSession| true
}

fn pick_workers(
    sessions: &LogSessions,
    test: impl Fn(&LogSession) -> bool,
    Ghost(wanted): Ghost<spec_fn(LogSession) -> bool>,
) -> (res: Vec<(String, u64)>)
    requires
        forall|session: &LogSession| test.requires((session,)),
        forall|session: &LogSession, b: bool| #[trigger]
            test.ensures((session,), b) ==> b == wanted(*session),
    ensures
        workers_of(sessions.sessions@, res@, wanted),
{
    let names = sessions.sessions.names();
    let ghost all = views(names@);
    let ghost held = sessions.sessions@;
    let mut out: Vec<(String, u64)> = Vec::new();
    let mut i: usize = 0;
    while i < names.len()
        invariant
            i <= names@.len(),
            all == views(names@),
            all.no_duplicates(),
            held == sessions.sessions@,
            forall|name: Seq<char>| #[trigger] all.contains(name) <==> held.dom().contains(name),
            forall|session: &LogSession| test.requires((session,)),
            forall|session: &LogSession, b: bool| #[trigger]
                test.ensures((session,), b) ==> b == wanted(*session),
            names_differ(out@),
            forall|k: int|
                0 <= k < out@.len() ==> exists|j: int| 0 <= j < i && all[j] == (#[trigger] out@[k]).0@,
            forall|id: Seq<char>| #[trigger]
                as_map(out@).dom().contains(id) <==> (exists|j: int| 0 <= j < i && all[j] == id)
                    && wanted(held[id]),
            forall|id: Seq<char>|
                as_map(out@).dom().contains(id) ==> #[trigger] as_map(out@)[id] == held[id].close,
        decreases names@.len() - i,
    {
        let ghost before = out@;
        let ghost name = all[i as int];
        assert(all.contains(name));
        match sessions.sessions.get(names[i].as_str()) {
            Some(session) => {
                if test(session) {
                    out.push((names[i].clone(), session.close));
                    proof {
                        assert(out@.drop_last() =~= before);
                        assert(as_map(out@) == as_map(before).insert(name, session.close));
                        assert forall|id: Seq<char>|
                            as_map(out@).dom().contains(id) implies #[trigger] as_map(out@)[id]
                            == held[id].close by {
                            if id != name {
                                assert(as_map(before).dom().contains(id));
                                assert(as_map(before)[id] == held[id].close);
                            }
                        }
                        assert forall|k: int| 0 <= k < out@.len() implies exists|j: int|
                            0 <= j < i + 1 && all[j] == (#[trigger] out@[k]).0@ by {
                            if k < before.len() {
                                assert(out@[k] == before[k]);
                                let j = choose|j: int| 0 <= j < i && all[j] == before[k].0@;
                                assert(all[j] == out@[k].0@);
                            } else {
                                assert(all[i as int] == out@[k].0@);
                            }
                        }
                        assert forall|a: int, b: int| 0 <= a < b < out@.len() implies (
                        #[trigger] out@[a]).0@ != (#[trigger] out@[b]).0@ by {
                            assert(out@[a] == before[a]);
                            let j = choose|j: int| 0 <= j < i && all[j] == before[a].0@;
                            if b < before.len() {
                                assert(out@[b] == before[b]);
                            } else {
                                assert(all[j] != all[i as int]);
                            }
                        }
                    }
                }
            },
            None => {},
        }
        proof {
            assert forall|id: Seq<char>| #[trigger]
                as_map(out@).dom().contains(id) <==> (exists|j: int| 0 <= j < i + 1 && all[j] == id)
                    && wanted(held[id]) by {
                assert(as_map(before).dom().contains(id) <==> (exists|j: int|
                    0 <= j < i && all[j] == id) && wanted(held[id]));
                if exists|j: int| 0 <= j < i && all[j] == id {
                    let j = choose|j: int| 0 <= j < i && all[j] == id;
                    assert(0 <= j < i + 1 && all[j] == id);
                }
                if id == name {
                    assert(0 <= i < i + 1 && all[i as int] == id);
                }
                if exists|j: int| 0 <= j < i + 1 && all[j] == id {
                    let j = choose|j: int| 0 <= j < i + 1 && all[j] == id;
                    if j < i {
                        assert(0 <= j < i && all[j] == id);
                    }
                }
            }
        }
        i += 1;
    }
    proof {
        assert forall|id: Seq<char>| #[trigger]
            as_map(out@).dom().contains(id) <==> held.dom().contains(id) && wanted(held[id]) by {
            assert(all.contains(id) <==> held.dom().contains(id));
        }
    }
    out
}

/// The workers of a server's sessions, which are told to close.
pub fn close_server(sessions: &LogSessions, server_id: &str) -> (res: Vec<(String, u64)>)
    ensures
        workers_of(sessions.sessions@, res@, belongs_to(server_id@)),
{
    let test = |session: &LogSession| -> (b: bool)
        ensures
            b == (session.server_id@ == server_id@),
        {
            same(session.server_id.as_str(), server_id)
        };
    pick_workers(sessions, test, Ghost(belongs_to(server_id@)))
}

/// The workers of all sessions, which are told to close.
pub fn close_all(sessions: &LogSessions) -> (res: Vec<(String, u64)>)
    ensures
        workers_of(sessions.sessions@, res@, any_session()),
{
    let every = |session: &LogSession| -> (b: bool)
        ensures
            b,
        {
            true
        };
    pick_workers(sessions, every, Ghost(any_session()))
}

// ---------------------------------------------------------------------------
// Reaching a log
// ---------------------------------------------------------------------------

/// The value of the first line that begins with `marker` and a tab.
pub open spec fn marked_value(lines: Seq<Seq<char>>, marker: Seq<char>) -> Option<Seq<char>>
    decreases lines.len(),
{
    if lines.len() == 0 {
        None
    } else {
        match strip_prefix(lines[0], marker) {
            Some(rest) => match strip_prefix(rest, "\t"@) {
                Some(value) => Some(value),
                None => marked_value(lines.skip(1), marker),
            },
            None => marked_value(lines.skip(1), marker),
        }
    }
}

pub fn probe_value(output: &str, marker: &str) -> (res: Option<String>)
    ensures
        opt_view(res) == marked_value(lines_of(output@), marker@),
{
    let lines = lines_str(output);
    let ghost all = views(lines@);
    let mut i: usize = 0;
    assert(all.skip(0) =~= all);
    while i < lines.len()
        invariant
            i <= lines@.len(),
            all == views(lines@),
            all == lines_of(output@),
            marked_value(all, marker@) == marked_value(all.skip(i as int), marker@),
        decreases lines@.len() - i,
    {
        assert(all.skip(i as int)[0] == lines@[i as int]@);
        assert(all.skip(i as int).skip(1) =~= all.skip(i + 1));
        if let Some(rest) = after_prefix(lines[i].as_slice(), marker) {
            if let Some(value) = after_prefix(&rest, "\t") {
                return Some(string_of(&value));
            }
        }
        i += 1;
    }
    None
}

/// Runs the access check, and prints its status, the user id and whether sudo asks for no
/// password, each on a marked line.
pub open spec fn access_probe(access: Seq<char>) -> Seq<char> {
    "( "@ + access + " ); access_status=$?; printf '\\n"@ + ACCESS_STATUS_MARKER@
        + "\\t%s\\n' \"$access_status\"; printf '"@ + UID_MARKER@
        + "\\t%s\\n' \"$(id -u 2>/dev/null)\"; if sudo -n true >/dev/null 2>&1; then printf '"@
        + PASSWORDLESS_SUDO_MARKER@ + "\\ttrue\\n'; else printf '"@ + PASSWORDLESS_SUDO_MARKER@
        + "\\tfalse\\n'; fi"@
}

pub fn access_probe_command(access_command: &str) -> (res: String)
    ensures
        res@ == access_probe(access_command@),
{
    let mut out = copy("( ");
    out.append(access_command);
    out.append(" ); access_status=$?; printf '\\n");
    out.append(ACCESS_STATUS_MARKER);
    out.append("\\t%s\\n' \"$access_status\"; printf '");
    out.append(UID_MARKER);
    out.append("\\t%s\\n' \"$(id -u 2>/dev/null)\"; if sudo -n true >/dev/null 2>&1; then printf '");
    out.append(PASSWORDLESS_SUDO_MARKER);
    out.append("\\ttrue\\n'; else printf '");
    out.append(PASSWORDLESS_SUDO_MARKER);
    out.append("\\tfalse\\n'; fi");
    out
}

/// How a log is followed.
#[derive(Debug, PartialEq, Eq)]
pub enum LogAccess {
    /// With the command as it is, or through sudo without a password.
    Run(String),
    /// With the stored sudo password, which has to be checked first.
    RunWithPassword(String),
}

#[verifier::ext_equal]
pub enum LogAccessView {
    Run(Seq<char>),
    RunWithPassword(Seq<char>),
}

impl View for LogAccess {
    type V = LogAccessView;

    open spec fn view(&self) -> LogAccessView {
        match *self {
            LogAccess::Run(command) => LogAccessView::Run(command@),
            LogAccess::RunWithPassword(command) => LogAccessView::RunWithPassword(command@),
        }
    }
}

/// What the access probe leads to. Sudo is taken only where rights were missing.
pub open spec fn access_of(access: ExecOutput, direct: Seq<char>) -> Result<
    LogAccessView,
    Seq<char>,
> {
    let lines = lines_of(access.stdout@);
    let status = match marked_value(lines, ACCESS_STATUS_MARKER@) {
        Some(value) => signed_of(value, 0x7fff_ffff),
        None => None,
    };
    match status {
        None => Err("The server returned an invalid live-log access probe"@),
        Some(status) => if status == 0 {
            Ok(LogAccessView::Run(direct))
        } else if names_permission(access.stderr@ + "\n"@ + access.stdout@) {
            if marked_value(lines, UID_MARKER@) == Some("0"@) {
                Ok(LogAccessView::Run(direct))
            } else if marked_value(lines, PASSWORDLESS_SUDO_MARKER@) == Some("true"@) {
                Ok(LogAccessView::Run("sudo -n sh -c "@ + quoted(direct)))
            } else {
                Ok(
                    LogAccessView::RunWithPassword(
                        "LC_ALL=C sudo -S -k -p '' sh -c "@ + quoted(direct),
                    ),
                )
            }
        } else {
            Err(failure_text(access))
        },
    }
}

fn is_value(value: &Option<String>, expected: &str) -> (res: bool)
    ensures
        res == (opt_view(*value) == Some(expected@)),
{
    match value {
        Some(text) => same(text.as_str(), expected),
        None => false,
    }
}

pub fn log_access(access: &ExecOutput, direct_command: &str) -> (res: Result<LogAccess, String>)
    ensures
        match res {
            Ok(way) => access_of(*access, direct_command@) == Ok::<LogAccessView, Seq<char>>(way@),
            Err(error) => access_of(*access, direct_command@) == Err::<LogAccessView, Seq<char>>(
                error@,
            ),
        },
{
    let status = match probe_value(access.stdout.as_str(), ACCESS_STATUS_MARKER) {
        Some(value) => parse_signed(
            crate::text::chars_of(value.as_str()).as_slice(),
            0x7fff_ffff,
        ),
        None => None,
    };
    match status {
        None => Err(copy("The server returned an invalid live-log access probe")),
        Some(status) => {
            if status == 0 {
                Ok(LogAccess::Run(copy(direct_command)))
            } else if is_permission_error(access) {
                if is_value(&probe_value(access.stdout.as_str(), UID_MARKER), "0") {
                    Ok(LogAccess::Run(copy(direct_command)))
                } else if is_value(
                    &probe_value(access.stdout.as_str(), PASSWORDLESS_SUDO_MARKER),
                    "true",
                ) {
                    let mut command = copy("sudo -n sh -c ");
                    command.append(quote_shell(direct_command).as_str());
                    Ok(LogAccess::Run(command))
                } else {
                    let mut command = copy("LC_ALL=C sudo -S -k -p '' sh -c ");
                    command.append(quote_shell(direct_command).as_str());
                    Ok(LogAccess::RunWithPassword(command))
                }
            } else {
                Err(command_error(access))
            }
        },
    }
}

pub const LOG_SUDO_MISSING: &'static str =
    "Live logs need sudo. Add a sudo password to the server connection first.";

/// A step on the way to a followed log.
#[derive(Clone, Copy, Debug, PartialEq, Eq, Structural)]
pub enum FollowStage {
    Channel,
    /// The command is started.
    Starting,
    /// The sudo password is sent.
    Password,
    /// The input is ended behind it.
    Authentication,
    /// Errors are put among the output.
    Merging,
}

/// The step behind another. A password is sent only where one is needed.
pub open spec fn stage_behind(stage: FollowStage, password: bool) -> Option<FollowStage> {
    match stage {
        FollowStage::Channel => Some(FollowStage::Starting),
        FollowStage::Starting => Some(
            if password {
                FollowStage::Password
            } else {
                FollowStage::Merging
            },
        ),
        FollowStage::Password => Some(FollowStage::Authentication),
        FollowStage::Authentication => Some(FollowStage::Merging),
        FollowStage::Merging => None,
    }
}

/// Why a step failed.
pub open spec fn follow_error(stage: FollowStage, detail: Seq<char>) -> Seq<char> {
    (match stage {
        FollowStage::Channel => "Could not open SSH terminal channel: "@,
        FollowStage::Starting => "Could not start live logs: "@,
        FollowStage::Password => "Could not send the sudo password for live logs: "@,
        FollowStage::Authentication => "Could not finish live-log authentication: "@,
        FollowStage::Merging => "Could not prepare live log output: "@,
    }) + detail
}

/// The step behind one that succeeded, or why it failed.
pub fn start(stage: FollowStage, password: bool, failure: Option<&str>) -> (res: Result<
    Option<FollowStage>,
    String,
>)
    ensures
        match failure {
            None => res == Ok::<Option<FollowStage>, String>(stage_behind(stage, password)),
            Some(detail) => res matches Err(error) && error@ == follow_error(stage, detail@),
        },
{
    match failure {
        None => Ok(
            match stage {
                FollowStage::Channel => Some(FollowStage::Starting),
                FollowStage::Starting => Some(
                    if password {
                        FollowStage::Password
                    } else {
                        FollowStage::Merging
                    },
                ),
                FollowStage::Password => Some(FollowStage::Authentication),
                FollowStage::Authentication => Some(FollowStage::Merging),
                FollowStage::Merging => None,
            },
        ),
        Some(detail) => Err(
            glue2(
                match stage {
                    FollowStage::Channel => "Could not open SSH terminal channel: ",
                    FollowStage::Starting => "Could not start live logs: ",
                    FollowStage::Password => "Could not send the sudo password for live logs: ",
                    FollowStage::Authentication => "Could not finish live-log authentication: ",
                    FollowStage::Merging => "Could not prepare live log output: ",
                },
                detail,
            ),
        ),
    }
}

// ---------------------------------------------------------------------------
// The worker
// ---------------------------------------------------------------------------

/// What goes on between a followed log and the interface.
pub struct LogWorker {
    pub keepalive_failures: u8,
    pub stopped: bool,
    pub close_message: Option<String>,
    /// The bytes of a character that has not arrived whole.
    pub partial: Vec<u8>,
}

impl LogWorker {
    /// The keep-alive messages have not failed too often.
    pub open spec fn well_formed(self) -> bool {
        !self.stopped ==> self.keepalive_failures < MAX_KEEPALIVE_FAILURES
    }

    pub fn new() -> (res: Self)
        ensures
            res.well_formed(),
            !res.stopped,
            res.close_message is None,
            res.partial@.len() == 0,
            res.keepalive_failures == 0,
    {
        LogWorker { keepalive_failures: 0, stopped: false, close_message: None, partial: Vec::new() }
    }

    /// Takes bytes that were read; the result is the text to show.
    pub fn output(&mut self, data: &[u8]) -> (res: String)
        requires
            old(self).well_formed(),
        ensures
            final(self).well_formed(),
            res@ == text_of(old(self).partial@ + data@),
            final(self).partial@ == left_of(old(self).partial@ + data@),
            final(self).stopped == old(self).stopped,
            final(self).close_message == old(self).close_message,
            final(self).keepalive_failures == old(self).keepalive_failures,
    {
        decode_chunk(&mut self.partial, data)
    }

    /// Notes that reading failed for good.
    pub fn read_failed(&mut self, error: &str)
        ensures
            final(self).well_formed(),
            final(self).stopped,
            opt_view(final(self).close_message) == Some("Live log connection lost: "@ + error@),
            final(self).partial@ == old(self).partial@,
            final(self).keepalive_failures == old(self).keepalive_failures,
    {
        let mut message = copy("Live log connection lost: ");
        message.append(error);
        self.close_message = Some(message);
        self.stopped = true;
    }

    /// Notes how a keep-alive message ended: the milliseconds to the next one, or nothing
    /// where the connection is lost.
    pub fn keepalive(&mut self, outcome: KeepAlive) -> (res: Option<u64>)
        requires
            old(self).well_formed(),
            !old(self).stopped,
        ensures
            final(self).well_formed(),
            (final(self).keepalive_failures as int, res) == after_keepalive(
                old(self).keepalive_failures,
                outcome,
            ),
            final(self).stopped == (res is None),
            res is Some ==> final(self).close_message == old(self).close_message,
            res is None ==> (outcome matches KeepAlive::Failed(error) && opt_view(
                final(self).close_message,
            ) == Some("Live log connection lost: "@ + error@)),
            final(self).partial@ == old(self).partial@,
    {
        let (failures, due) = keepalive_step(self.keepalive_failures, &outcome);
        self.keepalive_failures = failures;
        if due.is_none() {
            match outcome {
                KeepAlive::Failed(error) => {
                    self.read_failed(error.as_str());
                },
                _ => {},
            }
        }
        due
    }

    /// Ends the stream; the result is the text that is still to be shown.
    pub fn finish(&mut self) -> (res: String)
        ensures
            res@ == lossy_text(old(self).partial@),
            final(self).partial@.len() == 0,
    {
        flush(&mut self.partial)
    }
}

/// What is said when following a log ends.
pub open spec fn stream_closing_text(message: Option<Seq<char>>, exit_status: Option<i32>) -> Seq<
    char,
> {
    match message {
        Some(text) => text,
        None => match exit_status {
            Some(status) => if status == 0 {
                "Live log stream stopped"@
            } else {
                "Live log command exited with status "@ + signed_decimal(status as int)
            },
            None => "Live log stream stopped"@,
        },
    }
}

pub fn stream_closing_message(message: Option<String>, exit_status: Option<i32>) -> (res: String)
    ensures
        res@ == stream_closing_text(opt_view(message), exit_status),
{
    if let Some(text) = message {
        return text;
    }
    match exit_status {
        Some(status) => {
            if status == 0 {
                copy("Live log stream stopped")
            } else {
                let mut out = copy("Live log command exited with status ");
                out.append(format_signed(status as i64).as_str());
                out
            }
        },
        None => copy("Live log stream stopped"),
    }
}

/// Live logs are run as the user where that works, and only where rights are lacking through
/// sudo: as they are for root, without a password where sudo asks for none, and with it
/// otherwise. What is run is the same command.
pub proof fn live_logs_run_the_same_command(access: ExecOutput, direct: Seq<char>)
    ensures
        ({
            let lines = lines_of(access.stdout@);
            let denied = names_permission(access.stderr@ + "\n"@ + access.stdout@);
            let status = marked_value(lines, "__SERVERBOX_LOG_ACCESS_STATUS__"@);
            let root = marked_value(lines, "__SERVERBOX_LOG_UID__"@) == Some("0"@);
            let free = marked_value(lines, "__SERVERBOX_LOG_PASSWORDLESS_SUDO__"@) == Some(
                "true"@,
            );
            &&& status is None ==> access_of(access, direct) is Err
            &&& status matches Some(text) ==> signed_of(text, 2147483647) matches Some(code) ==> {
                &&& code == 0 ==> access_of(access, direct) == Ok::<LogAccessView, Seq<char>>(
                    LogAccessView::Run(direct),
                )
                &&& code != 0 && !denied ==> access_of(access, direct) == Err::<
                    LogAccessView,
                    Seq<char>,
                >(failure_text(access))
                &&& code != 0 && denied && root ==> access_of(access, direct) == Ok::<
                    LogAccessView,
                    Seq<char>,
                >(LogAccessView::Run(direct))
                &&& code != 0 && denied && !root && free ==> access_of(access, direct) == Ok::<
                    LogAccessView,
                    Seq<char>,
                >(LogAccessView::Run("sudo -n sh -c "@ + quoted(direct)))
                &&& code != 0 && denied && !root && !free ==> access_of(access, direct) == Ok::<
                    LogAccessView,
                    Seq<char>,
                >(
                    LogAccessView::RunWithPassword(
                        "LC_ALL=C sudo -S -k -p '' sh -c "@ + quoted(direct),
                    ),
                )
            }
        }),
{
}

/// The value behind a marker is that of the first line with the marker and a tab.
pub proof fn marked_values_read_back(marker: Seq<char>, value: Seq<char>, lines: Seq<Seq<char>>, line: Seq<char>)
    ensures
        marked_value(seq![marker + "\t"@ + value] + lines, marker) == Some(value),
        !starts_with(line, marker) ==> marked_value(seq![line] + lines, marker) == marked_value(
            lines,
            marker,
        ),
        marked_value(Seq::empty(), marker) is None,
{
    let first = marker + "\t"@ + value;
    let all = seq![first] + lines;
    assert(all[0] == first);
    assert(first.take(marker.len() as int) =~= marker);
    assert(first.skip(marker.len() as int) =~= "\t"@ + value);
    let rest = "\t"@ + value;
    assert(rest.take("\t"@.len() as int) =~= "\t"@);
    assert(rest.skip("\t"@.len() as int) =~= value);
    assert((seq![line] + lines).skip(1) =~= lines);
}

/// The stream is started step by step; the password is sent only where there is one, and
/// before anything is read.
pub proof fn live_logs_are_started(password: bool)
    ensures
        stage_behind(FollowStage::Channel, password) == Some(FollowStage::Starting),
        stage_behind(FollowStage::Starting, true) == Some(FollowStage::Password),
        stage_behind(FollowStage::Starting, false) == Some(FollowStage::Merging),
        stage_behind(FollowStage::Password, password) == Some(FollowStage::Authentication),
        stage_behind(FollowStage::Authentication, password) == Some(FollowStage::Merging),
        stage_behind(FollowStage::Merging, password) is None,
{
}

/// What is said at the end of a stream: why it was lost, or how its command ended.
pub proof fn stream_endings_are_told(message: Seq<char>, status: i32)
    ensures
        stream_closing_text(Some(message), Some(status)) == message,
        stream_closing_text(None, Some(0)) == "Live log stream stopped"@,
        stream_closing_text(None, None) == "Live log stream stopped"@,
        status != 0 ==> stream_closing_text(None, Some(status))
            == "Live log command exited with status "@ + signed_decimal(status as int),
{
}

/// The probe runs the command that is to be read, and then tells how it ended and what rights
/// there are.
pub proof fn probes_run_what_is_to_be_read(access: Seq<char>)
    ensures
        starts_with(access_probe(access), "( "@ + access + " ); access_status=$?; "@),
{
    reveal_strlit(" ); access_status=$?; printf '\\n");
    reveal_strlit(" ); access_status=$?; ");
    let head = "( "@ + access + " ); access_status=$?; "@;
    let text = access_probe(access);
    let more = " ); access_status=$?; printf '\\n"@;
    assert(more.take(" ); access_status=$?; "@.len() as int) =~= " ); access_status=$?; "@);
    assert(text.take(head.len() as int) =~= head);
}

} // verus!
