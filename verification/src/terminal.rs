//! Terminal sessions: the table of those that are open, and the worker that passes
//! input, output and sizes between one of them and the interface.
use crate::identifiers::{canonical_uuid, uuid_text};
use crate::models::TerminalResize;
use crate::numbers::{format_signed, signed_decimal};
use crate::registry::{as_map, names_differ, Registry};
use crate::ssh::{error_result, text_result, OPERATION_CANCELLED};
use crate::stream::{
    after_keepalive, keepalive_step, queue_step, KeepAlive, QueueStep, MAX_KEEPALIVE_FAILURES,
};
use crate::text::{copy, ends_with, glue2, opt_view, same, trim, trim_str};
use crate::utf8::{decode_chunk, extend, flush, left_of, lossy_text, text_of};
use vstd::prelude::*;
use vstd::utf8::encode_utf8;

verus! {

broadcast use vstd::string::group_string_axioms;

/// How many bytes of input may wait for the remote host.
pub const MAX_PENDING_INPUT_BYTES: usize = 1_048_576;

/// The pause between two rounds of the worker, in milliseconds.
pub const TERMINAL_POLL_INTERVAL: u64 = 12;

pub const NOT_CONNECTED: &'static str = "That terminal session is no longer connected";

pub const QUEUE_FULL: &'static str =
    "Terminal input queue is full; wait for the remote host to catch up";

/// What the interface asks of a terminal.
#[derive(Debug, PartialEq, Eq)]
pub enum TerminalCommand {
    Input(Vec<u8>),
    Resize(u32, u32),
    Close,
}

/// An open terminal. `sender` names the channel to its worker.
#[derive(Debug, PartialEq, Eq)]
pub struct TerminalSession {
    pub server_id: String,
    pub sender: u64,
    pub pending_input_bytes: usize,
}

/// The open terminals.
pub struct TerminalSessions {
    pub sessions: Registry<TerminalSession>,
}

/// The session identifier that a request gives, in its usual form.
pub fn session_identifier(text: &str) -> (res: Result<String, String>)
    ensures
        text_result(res) == (match uuid_text(text@) {
            Some(id) => Ok::<Seq<char>, Seq<char>>(id),
            None => Err("Invalid terminal session identifier"@),
        }),
{
    match canonical_uuid(text) {
        Some(id) => Ok(id),
        None => Err(copy("Invalid terminal session identifier")),
    }
}

/// The size of a terminal is never less than 20 columns and 5 rows.
pub fn terminal_size(cols: u32, rows: u32) -> (res: (u32, u32))
    ensures
        res.0 == (if cols < 20 {
            20
        } else {
            cols
        }),
        res.1 == (if rows < 5 {
            5
        } else {
            rows
        }),
{
    (
        if cols < 20 {
            20
        } else {
            cols
        },
        if rows < 5 {
            5
        } else {
            rows
        },
    )
}

/// The command to run in place of a shell; a blank one is none.
pub fn terminal_command(command: Option<String>) -> (res: Option<String>)
    ensures
        opt_view(res) == (match command {
            Some(text) => if trim(text@).len() == 0 {
                None
            } else {
                Some(text@)
            },
            None => None,
        }),
{
    match command {
        Some(text) => if trim_str(text.as_str()).as_str().is_empty() {
            None
        } else {
            Some(text)
        },
        None => None,
    }
}

/// The waiting bytes after `length` more were reserved.
pub open spec fn reserved(current: usize, length: int) -> Result<usize, Seq<char>> {
    if current + length > MAX_PENDING_INPUT_BYTES {
        Err(QUEUE_FULL@)
    } else {
        Ok((current + length) as usize)
    }
}

/// Reserves room for `length` bytes of input.
pub fn reserve_input_bytes(current: usize, length: usize) -> (res: Result<usize, String>)
    ensures
        error_result(res) == reserved(current, length as int),
{
    match current.checked_add(length) {
        Some(next) => if next > MAX_PENDING_INPUT_BYTES {
            Err(copy(QUEUE_FULL))
        } else {
            Ok(next)
        },
        None => Err(copy(QUEUE_FULL)),
    }
}

/// A session with another number of waiting bytes.
pub open spec fn is_session_with(a: TerminalSession, b: TerminalSession, pending: int) -> bool {
    a.server_id@ == b.server_id@ && a.sender == b.sender && a.pending_input_bytes == pending
}

/// Whether the tables differ in the session `id` alone.
pub open spec fn same_but(
    a: Map<Seq<char>, TerminalSession>,
    b: Map<Seq<char>, TerminalSession>,
    id: Seq<char>,
) -> bool {
    a.dom() == b.dom() && forall|other: Seq<char>|
        other != id && a.dom().contains(other) ==> #[trigger] a[other] == b[other]
}

impl TerminalSessions {
    pub fn new() -> (res: Self)
        ensures
            res.sessions@ == Map::<Seq<char>, TerminalSession>::empty(),
    {
        TerminalSessions { sessions: Registry::new() }
    }

    /// Puts a new session into the table.
    pub fn open(&mut self, session_id: &str, server_id: &str, sender: u64)
        ensures
            final(self).sessions@.dom() == old(self).sessions@.dom().insert(session_id@),
            final(self).sessions@[session_id@].server_id@ == server_id@,
            final(self).sessions@[session_id@].sender == sender,
            final(self).sessions@[session_id@].pending_input_bytes == 0,
            forall|other: Seq<char>|
                other != session_id@ && old(self).sessions@.dom().contains(other)
                    ==> #[trigger] final(self).sessions@[other] == old(self).sessions@[other],
    {
        self.sessions.insert(
            session_id,
            TerminalSession { server_id: copy(server_id), sender, pending_input_bytes: 0 },
        );
    }

    /// Takes a session out of the table.
    pub fn forget(&mut self, session_id: &str)
        ensures
            final(self).sessions@ == old(self).sessions@.remove(session_id@),
    {
        let _ = self.sessions.remove(session_id);
    }

    fn set_pending(&mut self, session_id: &str, pending: usize)
        requires
            old(self).sessions@.dom().contains(session_id@),
        ensures
            same_but(final(self).sessions@, old(self).sessions@, session_id@),
            is_session_with(
                final(self).sessions@[session_id@],
                old(self).sessions@[session_id@],
                pending as int,
            ),
    {
        let ghost before = self.sessions@;
        match self.sessions.remove(session_id) {
            Some(mut session) => {
                session.pending_input_bytes = pending;
                self.sessions.insert(session_id, session);
                assert(self.sessions@.dom() =~= before.dom());
            },
            None => {},
        }
    }
}

/// What input to a session comes to: it is refused where the session is gone or too much
/// waits already; else its bytes go to the session's worker and are counted.
pub open spec fn input_outcome(
    before: Map<Seq<char>, TerminalSession>,
    after: Map<Seq<char>, TerminalSession>,
    id: Seq<char>,
    bytes: Seq<u8>,
    res: Result<(u64, TerminalCommand), String>,
) -> bool {
    let full = before.dom().contains(id) && before[id].pending_input_bytes + bytes.len()
        > MAX_PENDING_INPUT_BYTES;
    match res {
        Err(error) => {
            &&& after == before
            &&& !before.dom().contains(id) && error@ == NOT_CONNECTED@ || full && error@
                == QUEUE_FULL@
        },
        Ok((sender, command)) => {
            &&& before.dom().contains(id) && !full
            &&& sender == before[id].sender
            &&& command matches TerminalCommand::Input(sent) && sent@ == bytes
            &&& same_but(after, before, id)
            &&& is_session_with(
                after[id],
                before[id],
                before[id].pending_input_bytes + bytes.len(),
            )
        },
    }
}

/// Reserves room for input and says to which worker it goes.
pub fn input(sessions: &mut TerminalSessions, session_id: &str, data: String) -> (res: Result<
    (u64, TerminalCommand),
    String,
>)
    ensures
        input_outcome(
            old(sessions).sessions@,
            final(sessions).sessions@,
            session_id@,
            encode_utf8(data@),
            res,
        ),
{
    let (sender, current) = match sessions.sessions.get(session_id) {
        Some(session) => (session.sender, session.pending_input_bytes),
        None => {
            return Err(copy(NOT_CONNECTED));
        },
    };
    let mut bytes: Vec<u8> = Vec::new();
    extend(&mut bytes, data.as_str().as_bytes());
    assert(bytes@ =~= encode_utf8(data@));
    match reserve_input_bytes(current, bytes.len()) {
        Ok(next) => {
            sessions.set_pending(session_id, next);
            Ok((sender, TerminalCommand::Input(bytes)))
        },
        Err(error) => Err(error),
    }
}

/// Gives room back: for input that was written, or could not be delivered.
pub fn release_input_bytes(sessions: &mut TerminalSessions, session_id: &str, size: usize)
    ensures
        ({
            let before = old(sessions).sessions@;
            let after = final(sessions).sessions@;
            if !before.dom().contains(session_id@) {
                after == before
            } else {
                let held = before[session_id@].pending_input_bytes;
                same_but(after, before, session_id@) && is_session_with(
                    after[session_id@],
                    before[session_id@],
                    if held >= size {
                        held - size
                    } else {
                        0
                    },
                )
            }
        }),
{
    let held = match sessions.sessions.get(session_id) {
        Some(session) => session.pending_input_bytes,
        None => {
            return;
        },
    };
    sessions.set_pending(session_id, held.saturating_sub(size));
}

/// Says to which worker a new size goes.
pub fn resize(sessions: &TerminalSessions, request: &TerminalResize) -> (res: Result<
    (u64, TerminalCommand),
    String,
>)
    ensures
        match res {
            Ok((sender, command)) => sessions.sessions@.dom().contains(request.session_id@)
                && sender == sessions.sessions@[request.session_id@].sender && command
                == TerminalCommand::Resize(request.cols, request.rows),
            Err(error) => !sessions.sessions@.dom().contains(request.session_id@) && error@
                == NOT_CONNECTED@,
        },
{
    match sessions.sessions.get(request.session_id.as_str()) {
        Some(session) => Ok((session.sender, TerminalCommand::Resize(request.cols, request.rows))),
        None => Err(copy(NOT_CONNECTED)),
    }
}

/// The worker that is told to close; a session that is gone needs none.
pub fn close(sessions: &TerminalSessions, session_id: &str) -> (res: Option<u64>)
    ensures
        match res {
            Some(sender) => sessions.sessions@.dom().contains(session_id@) && sender
                == sessions.sessions@[session_id@].sender,
            None => !sessions.sessions@.dom().contains(session_id@),
        },
{
    match sessions.sessions.get(session_id) {
        Some(session) => Some(session.sender),
        None => None,
    }
}

/// Whether a session belongs to the server.
pub open spec fn belongs_to(server_id: Seq<char>) -> spec_fn(TerminalSession) -> bool {
    |session: TerminalSession| session.server_id@ == server_id
}

/// Whether `after` are the sessions of `before` that do not belong to the server.
pub open spec fn without_server(
    before: Map<Seq<char>, TerminalSession>,
    after: Map<Seq<char>, TerminalSession>,
    server_id: Seq<char>,
) -> bool {
    &&& forall|id: Seq<char>| #[trigger]
        after.dom().contains(id) <==> before.dom().contains(id) && before[id].server_id@
            != server_id
    &&& forall|id: Seq<char>|
        after.dom().contains(id) ==> #[trigger] after[id] == before[id]
}

/// Takes the sessions of a server out of the table; their workers are told to close.
pub fn close_server(sessions: &mut TerminalSessions, server_id: &str) -> (res: Vec<
    (String, TerminalSession),
>)
    ensures
        without_server(old(sessions).sessions@, final(sessions).sessions@, server_id@),
        names_differ(res@),
        forall|id: Seq<char>| #[trigger]
            as_map(res@).dom().contains(id) <==> old(sessions).sessions@.dom().contains(id)
                && old(sessions).sessions@[id].server_id@ == server_id@,
        forall|id: Seq<char>|
            as_map(res@).dom().contains(id) ==> #[trigger] as_map(res@)[id] == old(sessions).sessions@[id],
{
    let test = |session: &TerminalSession| -> (b: bool)
        ensures
            b == (session.server_id@ == server_id@),
        {
            same(session.server_id.as_str(), server_id)
        };
    sessions.sessions.take_where(test, Ghost(belongs_to(server_id@)))
}

/// Takes all sessions out of the table; their workers are told to close.
pub fn close_all(sessions: &mut TerminalSessions) -> (res: Vec<(String, TerminalSession)>)
    ensures
        names_differ(res@),
        as_map(res@) == old(sessions).sessions@,
        final(sessions).sessions@ == Map::<Seq<char>, TerminalSession>::empty(),
{
    let ghost before = sessions.sessions@;
    let every = |session: &TerminalSession| -> (b: bool)
        ensures
            b,
        {
            true
        };
    let taken = sessions.sessions.take_where(every, Ghost(|session: TerminalSession| true));
    assert forall|id: Seq<char>| !(#[trigger] sessions.sessions@.dom().contains(id)) by {}
    assert(sessions.sessions@ =~= Map::<Seq<char>, TerminalSession>::empty());
    assert forall|id: Seq<char>| #[trigger]
        as_map(taken@).dom().contains(id) <==> before.dom().contains(id) by {}
    assert(as_map(taken@) =~= before);
    taken
}

/// A session that was closed with its server takes no more input: it is refused, and
/// nothing is counted.
pub proof fn closed_sessions_take_no_input(
    before: Map<Seq<char>, TerminalSession>,
    after: Map<Seq<char>, TerminalSession>,
    later: Map<Seq<char>, TerminalSession>,
    id: Seq<char>,
    server_id: Seq<char>,
    bytes: Seq<u8>,
    res: Result<(u64, TerminalCommand), String>,
)
    requires
        before.dom().contains(id),
        before[id].server_id@ == server_id,
        without_server(before, after, server_id),
        input_outcome(after, later, id, bytes, res),
    ensures
        res matches Err(error) && error@ == NOT_CONNECTED@,
        later == after,
{
}

// ---------------------------------------------------------------------------
// Opening
// ---------------------------------------------------------------------------

/// How far the opening of a terminal has come.
#[derive(Clone, Copy, Debug, PartialEq, Eq, Structural)]
pub enum OpenStage {
    Connecting,
    /// A channel is opened.
    Channel,
    /// A terminal is asked for.
    Sizing,
    /// The shell or the command is started.
    Starting,
    /// Errors are put among the output.
    Merging,
    /// The session is entered in the table.
    Registering,
    Ended,
}

/// A terminal that is opened.
#[derive(Debug, PartialEq, Eq)]
pub struct TerminalOpening {
    pub cols: u32,
    pub rows: u32,
    /// What is run in place of a shell.
    pub command: Option<String>,
    pub stage: OpenStage,
}

#[verifier::ext_equal]
pub struct TerminalOpeningView {
    pub cols: u32,
    pub rows: u32,
    pub command: Option<Seq<char>>,
    pub stage: OpenStage,
}

impl View for TerminalOpening {
    type V = TerminalOpeningView;

    open spec fn view(&self) -> TerminalOpeningView {
        TerminalOpeningView {
            cols: self.cols,
            rows: self.rows,
            command: opt_view(self.command),
            stage: self.stage,
        }
    }
}

/// What came of the last step.
#[derive(Debug, PartialEq, Eq)]
pub enum OpenEvent {
    /// It succeeded; `cancelled` tells whether the operation was cancelled meanwhile.
    Succeeded { cancelled: bool },
    Failed(String),
}

/// What is done next.
#[derive(Debug, PartialEq, Eq)]
pub enum OpenAction {
    OpenChannel,
    RequestPty { cols: u32, rows: u32 },
    StartShell,
    StartCommand(String),
    Merge,
    Register,
    /// The worker is started.
    Run,
    Fail(String),
    /// The session is taken out of the table again, and the channel closed.
    Withdraw(String),
    /// There is nothing left to do.
    Nothing,
}

#[verifier::ext_equal]
pub enum OpenActionView {
    OpenChannel,
    RequestPty { cols: u32, rows: u32 },
    StartShell,
    StartCommand(Seq<char>),
    Merge,
    Register,
    Run,
    Fail(Seq<char>),
    Withdraw(Seq<char>),
    Nothing,
}

impl View for OpenAction {
    type V = OpenActionView;

    open spec fn view(&self) -> OpenActionView {
        match *self {
            OpenAction::OpenChannel => OpenActionView::OpenChannel,
            OpenAction::RequestPty { cols, rows } => OpenActionView::RequestPty { cols, rows },
            OpenAction::StartShell => OpenActionView::StartShell,
            OpenAction::StartCommand(command) => OpenActionView::StartCommand(command@),
            OpenAction::Merge => OpenActionView::Merge,
            OpenAction::Register => OpenActionView::Register,
            OpenAction::Run => OpenActionView::Run,
            OpenAction::Fail(error) => OpenActionView::Fail(error@),
            OpenAction::Withdraw(error) => OpenActionView::Withdraw(error@),
            OpenAction::Nothing => OpenActionView::Nothing,
        }
    }
}

/// Why a step failed.
pub open spec fn open_error(opening: TerminalOpeningView, detail: Seq<char>) -> Seq<char> {
    match opening.stage {
        OpenStage::Channel => "Could not open SSH terminal channel: "@ + detail,
        OpenStage::Sizing => "Could not allocate a remote terminal: "@ + detail,
        OpenStage::Starting => if opening.command is Some {
            "Could not start the remote command: "@ + detail
        } else {
            "Could not start the remote shell: "@ + detail
        },
        OpenStage::Merging => "Could not prepare terminal output: "@ + detail,
        _ => detail,
    }
}

/// The stage after a step, and what is done next. It is asked twice whether the operation
/// was cancelled: before a terminal is asked for, and when the session is in the table.
pub open spec fn open_step(opening: TerminalOpeningView, event: OpenEvent) -> (
    OpenStage,
    OpenActionView,
) {
    match (opening.stage, event) {
        (OpenStage::Ended, _) => (OpenStage::Ended, OpenActionView::Nothing),
        (_, OpenEvent::Failed(detail)) => (
            OpenStage::Ended,
            OpenActionView::Fail(open_error(opening, detail@)),
        ),
        (OpenStage::Connecting, _) => (OpenStage::Channel, OpenActionView::OpenChannel),
        (OpenStage::Channel, OpenEvent::Succeeded { cancelled }) => if cancelled {
            (OpenStage::Ended, OpenActionView::Fail(OPERATION_CANCELLED@))
        } else {
            (
                OpenStage::Sizing,
                OpenActionView::RequestPty { cols: opening.cols, rows: opening.rows },
            )
        },
        (OpenStage::Sizing, _) => (
            OpenStage::Starting,
            match opening.command {
                Some(command) => OpenActionView::StartCommand(command),
                None => OpenActionView::StartShell,
            },
        ),
        (OpenStage::Starting, _) => (OpenStage::Merging, OpenActionView::Merge),
        (OpenStage::Merging, _) => (OpenStage::Registering, OpenActionView::Register),
        (OpenStage::Registering, OpenEvent::Succeeded { cancelled }) => if cancelled {
            (OpenStage::Ended, OpenActionView::Withdraw(OPERATION_CANCELLED@))
        } else {
            (OpenStage::Ended, OpenActionView::Run)
        },
    }
}

impl TerminalOpening {
    /// A terminal whose opening has not begun.
    pub fn new(cols: u32, rows: u32, command: Option<String>) -> (res: Self)
        ensures
            res@.cols == if cols < 20 {
                20
            } else {
                cols
            },
            res@.rows == if rows < 5 {
                5
            } else {
                rows
            },
            res@.command == (match command {
                Some(text) => if trim(text@).len() == 0 {
                    None
                } else {
                    Some(text@)
                },
                None => None,
            }),
            res@.stage == OpenStage::Connecting,
    {
        let size = terminal_size(cols, rows);
        TerminalOpening {
            cols: size.0,
            rows: size.1,
            command: terminal_command(command),
            stage: OpenStage::Connecting,
        }
    }

    fn failure(&self, detail: String) -> (res: String)
        ensures
            res@ == open_error(self@, detail@),
    {
        match self.stage {
            OpenStage::Channel => glue2("Could not open SSH terminal channel: ", detail.as_str()),
            OpenStage::Sizing => glue2("Could not allocate a remote terminal: ", detail.as_str()),
            OpenStage::Starting => if self.command.is_some() {
                glue2("Could not start the remote command: ", detail.as_str())
            } else {
                glue2("Could not start the remote shell: ", detail.as_str())
            },
            OpenStage::Merging => glue2("Could not prepare terminal output: ", detail.as_str()),
            _ => detail,
        }
    }

    /// Takes what came of the last step, and says what is done next.
    pub fn start(&mut self, event: OpenEvent) -> (res: OpenAction)
        ensures
            final(self)@ == (TerminalOpeningView {
                stage: open_step(old(self)@, event).0,
                ..old(self)@
            }),
            res@ == open_step(old(self)@, event).1,
    {
        match (self.stage, event) {
            (OpenStage::Ended, _) => OpenAction::Nothing,
            (_, OpenEvent::Failed(detail)) => {
                let error = self.failure(detail);
                self.stage = OpenStage::Ended;
                OpenAction::Fail(error)
            },
            (OpenStage::Connecting, _) => {
                self.stage = OpenStage::Channel;
                OpenAction::OpenChannel
            },
            (OpenStage::Channel, OpenEvent::Succeeded { cancelled }) => if cancelled {
                self.stage = OpenStage::Ended;
                OpenAction::Fail(copy(OPERATION_CANCELLED))
            } else {
                self.stage = OpenStage::Sizing;
                OpenAction::RequestPty { cols: self.cols, rows: self.rows }
            },
            (OpenStage::Sizing, _) => {
                self.stage = OpenStage::Starting;
                match &self.command {
                    Some(command) => OpenAction::StartCommand(command.clone()),
                    None => OpenAction::StartShell,
                }
            },
            (OpenStage::Starting, _) => {
                self.stage = OpenStage::Merging;
                OpenAction::Merge
            },
            (OpenStage::Merging, _) => {
                self.stage = OpenStage::Registering;
                OpenAction::Register
            },
            (OpenStage::Registering, OpenEvent::Succeeded { cancelled }) => {
                self.stage = OpenStage::Ended;
                if cancelled {
                    OpenAction::Withdraw(copy(OPERATION_CANCELLED))
                } else {
                    OpenAction::Run
                }
            },
        }
    }
}

/// A terminal that was cancelled while it was opened does not run, and stays in no table.
pub proof fn cancelled_terminals_do_not_run(opening: TerminalOpeningView, event: OpenEvent)
    ensures
        open_step(opening, event).1 is Run ==> opening.stage == OpenStage::Registering && event == (
        OpenEvent::Succeeded { cancelled: false }),
        opening.stage == OpenStage::Registering && event == (OpenEvent::Succeeded {
            cancelled: true,
        }) ==> open_step(opening, event).1 is Withdraw,
        open_step(opening, event).1 is Fail ==> open_step(opening, event).0 == OpenStage::Ended,
{
}

// ---------------------------------------------------------------------------
// The worker
// ---------------------------------------------------------------------------

/// What goes on between a terminal channel and the interface.
pub struct TerminalWorker {
    /// Input that is to be written, each part with the position it was written up to.
    pub pending_input: Vec<(Vec<u8>, usize)>,
    pub pending_resize: Option<(u32, u32)>,
    /// Whether a write is to be repeated before anything else goes over the channel.
    pub retrying_input: bool,
    pub keepalive_failures: u8,
    pub closed: bool,
    pub close_message: Option<String>,
    /// The bytes of a character that has not arrived whole.
    pub partial: Vec<u8>,
}

/// The bytes that are still to be written, in order.
pub open spec fn unwritten(parts: Seq<(Vec<u8>, usize)>) -> Seq<u8>
    decreases parts.len(),
{
    if parts.len() == 0 {
        Seq::empty()
    } else {
        parts[0].0@.skip(parts[0].1 as int) + unwritten(parts.skip(1))
    }
}

/// How a write or a change of size ended.
#[derive(Debug, PartialEq, Eq)]
pub enum ChannelOutcome {
    /// So many bytes were written, or the size was changed.
    Done(usize),
    /// It is to be tried again.
    Retry,
    Failed(String),
}

/// What the worker does next.
#[derive(Clone, Copy, Debug, PartialEq, Eq, Structural)]
pub enum Flow {
    /// Go on in this round.
    Continue,
    /// Begin the next round after a pause.
    NextRound,
    /// Leave the loop.
    Stop,
}

proof fn lemma_unwritten_push(parts: Seq<(Vec<u8>, usize)>, part: (Vec<u8>, usize))
    requires
        part.1 == 0,
    ensures
        unwritten(parts.push(part)) == unwritten(parts) + part.0@,
    decreases parts.len(),
{
    let all = parts.push(part);
    if parts.len() == 0 {
        assert(all.skip(1) =~= Seq::empty());
        assert(part.0@.skip(0) =~= part.0@);
        assert(unwritten(all.skip(1)) =~= Seq::empty());
        assert(unwritten(all) =~= part.0@);
    } else {
        assert(all.skip(1) =~= parts.skip(1).push(part));
        lemma_unwritten_push(parts.skip(1), part);
        assert(unwritten(all) =~= unwritten(parts) + part.0@);
    }
}

impl TerminalWorker {
    /// No part is written out, and the keep-alive messages have not failed too often.
    pub open spec fn well_formed(self) -> bool {
        &&& forall|i: int|
            0 <= i < self.pending_input@.len() ==> (#[trigger] self.pending_input@[i]).1
                < self.pending_input@[i].0@.len()
        &&& !self.closed ==> self.keepalive_failures < MAX_KEEPALIVE_FAILURES
    }

    /// Whether everything but the input parts is the same.
    pub open spec fn same_state(self, other: Self) -> bool {
        &&& self.pending_resize == other.pending_resize
        &&& self.retrying_input == other.retrying_input
        &&& self.keepalive_failures == other.keepalive_failures
        &&& self.closed == other.closed
        &&& self.close_message == other.close_message
        &&& self.partial@ == other.partial@
    }

    pub fn new() -> (res: Self)
        ensures
            res.well_formed(),
            unwritten(res.pending_input@).len() == 0,
            res.pending_resize is None,
            !res.retrying_input,
            !res.closed,
            res.close_message is None,
            res.partial@.len() == 0,
            res.keepalive_failures == 0,
    {
        TerminalWorker {
            pending_input: Vec::new(),
            pending_resize: None,
            retrying_input: false,
            keepalive_failures: 0,
            closed: false,
            close_message: None,
            partial: Vec::new(),
        }
    }

    /// Takes a command. Input is put behind the input that waits, a size replaces an
    /// earlier one.
    pub fn receive(&mut self, command: TerminalCommand)
        requires
            old(self).well_formed(),
        ensures
            final(self).well_formed(),
            match command {
                TerminalCommand::Input(data) => unwritten(final(self).pending_input@)
                    == queue_step(unwritten(old(self).pending_input@), QueueStep::In(data@))
                    && final(self).same_state(*old(self)),
                TerminalCommand::Resize(cols, rows) => final(self).pending_resize == Some(
                    (
                        if cols < 20 {
                            20u32
                        } else {
                            cols
                        },
                        if rows < 5 {
                            5u32
                        } else {
                            rows
                        },
                    ),
                ) && final(self).pending_input@ == old(self).pending_input@ && final(self).retrying_input == old(self).retrying_input && final(self).closed == old(self).closed && final(self).keepalive_failures == old(self).keepalive_failures && final(self).close_message == old(self).close_message && final(self).partial@ == old(self).partial@,
                TerminalCommand::Close => final(self).closed && final(self).pending_input@ == old(self).pending_input@ && final(self).close_message == old(self).close_message && final(self).partial@ == old(self).partial@ && final(self).keepalive_failures == old(self).keepalive_failures && final(self).pending_resize == old(self).pending_resize
                    && final(self).retrying_input == old(self).retrying_input,
            },
    {
        match command {
            TerminalCommand::Input(data) => {
                if data.len() > 0 {
                    let ghost before = self.pending_input@;
                    self.pending_input.push((data, 0));
                    proof {
                        lemma_unwritten_push(before, (data, 0));
                    }
                } else {
                    assert(unwritten(self.pending_input@) + data@ =~= unwritten(
                        self.pending_input@,
                    ));
                }
            },
            TerminalCommand::Resize(cols, rows) => {
                self.pending_resize = Some(terminal_size(cols, rows));
            },
            TerminalCommand::Close => {
                self.closed = true;
            },
        }
    }

    /// The size to ask for in this round: none while a write has to be repeated.
    pub fn resize_due(&self) -> (res: Option<(u32, u32)>)
        ensures
            res == (if self.retrying_input {
                None
            } else {
                self.pending_resize
            }),
    {
        if self.retrying_input {
            None
        } else {
            self.pending_resize
        }
    }

    /// Notes how a change of size ended.
    pub fn resized(&mut self, outcome: ChannelOutcome) -> (res: Flow)
        requires
            old(self).well_formed(),
            !old(self).closed,
        ensures
            final(self).well_formed(),
            final(self).pending_input@ == old(self).pending_input@,
            final(self).partial@ == old(self).partial@,
            final(self).retrying_input == old(self).retrying_input,
            final(self).keepalive_failures == old(self).keepalive_failures,
            match outcome {
                ChannelOutcome::Done(_) => res == Flow::Continue && final(self).pending_resize is None && !final(self).closed && final(self).close_message
                    == old(self).close_message,
                ChannelOutcome::Retry => res == Flow::NextRound && *final(self) == *old(self),
                ChannelOutcome::Failed(error) => res == Flow::Stop && final(self).closed && opt_view(
                    final(self).close_message,
                ) == Some("Terminal connection lost while resizing: "@ + error@) && final(self).pending_resize == old(self).pending_resize,
            },
    {
        match outcome {
            ChannelOutcome::Done(_) => {
                self.pending_resize = None;
                Flow::Continue
            },
            ChannelOutcome::Retry => Flow::NextRound,
            ChannelOutcome::Failed(error) => {
                let mut message = copy("Terminal connection lost while resizing: ");
                message.append(error.as_str());
                self.close_message = Some(message);
                self.closed = true;
                Flow::Stop
            },
        }
    }

    /// The bytes to write in this round: the rest of the first part.
    pub fn input_due(&self) -> (res: Option<Vec<u8>>)
        requires
            self.well_formed(),
        ensures
            match res {
                Some(bytes) => self.pending_input@.len() > 0 && bytes@.len() > 0 && bytes@
                    == self.pending_input@[0].0@.skip(self.pending_input@[0].1 as int),
                None => self.pending_input@.len() == 0,
            },
    {
        if self.pending_input.len() == 0 {
            return None;
        }
        let mut out: Vec<u8> = Vec::new();
        let data = &self.pending_input[0].0;
        let from: usize = self.pending_input[0].1;
        let mut i: usize = from;
        while i < data.len()
            invariant
                from <= i <= data@.len(),
                out@ == data@.subrange(from as int, i as int),
            decreases data@.len() - i,
        {
            out.push(data[i]);
            i += 1;
        }
        assert(out@ =~= data@.skip(from as int));
        Some(out)
    }

    /// Notes how a write ended. What was written is dropped from the front of what waits.
    pub fn written(&mut self, outcome: ChannelOutcome) -> (res: Flow)
        requires
            old(self).well_formed(),
            !old(self).closed,
            old(self).pending_input@.len() > 0,
            outcome matches ChannelOutcome::Done(size) ==> size <= old(self).pending_input@[0].0@.len() - old(self).pending_input@[0].1,
        ensures
            final(self).well_formed(),
            final(self).pending_resize == old(self).pending_resize,
            final(self).partial@ == old(self).partial@,
            final(self).keepalive_failures == old(self).keepalive_failures,
            match outcome {
                ChannelOutcome::Done(size) => if size > 0 {
                    res == Flow::Continue && !final(self).retrying_input && !final(self).closed
                        && unwritten(final(self).pending_input@) == queue_step(
                        unwritten(old(self).pending_input@),
                        QueueStep::Out(size as nat),
                    ) && final(self).close_message == old(self).close_message
                } else {
                    res == Flow::NextRound && final(self).retrying_input && !final(self).closed
                        && final(self).pending_input@ == old(self).pending_input@ && final(self).close_message == old(self).close_message
                },
                ChannelOutcome::Retry => res == Flow::NextRound && final(self).retrying_input
                    && !final(self).closed && final(self).pending_input@ == old(self).pending_input@ && final(self).close_message == old(self).close_message,
                ChannelOutcome::Failed(error) => res == Flow::Stop && final(self).closed && opt_view(
                    final(self).close_message,
                ) == Some("Terminal connection lost while sending input: "@ + error@) && final(self).pending_input@ == old(self).pending_input@,
            },
    {
        match outcome {
            ChannelOutcome::Done(size) => {
                if size == 0 {
                    self.retrying_input = true;
                    return Flow::NextRound;
                }
                self.retrying_input = false;
                let ghost before = self.pending_input@;
                let (data, offset) = self.pending_input.remove(0);
                assert(self.pending_input@ =~= before.skip(1));
                let length: usize = data.len();
                let next: usize = offset + size;
                let ghost all = unwritten(before);
                proof {
                    assert forall|i: int| 0 <= i < self.pending_input@.len() implies (
                    #[trigger] self.pending_input@[i]).1 < self.pending_input@[i].0@.len() by {
                        assert(self.pending_input@[i] == before[i + 1]);
                    }
                }
                if next < length {
                    let ghost rest = self.pending_input@;
                    self.pending_input.insert(0, (data, next));
                    proof {
                        assert(self.pending_input@.skip(1) =~= rest);
                        assert(self.pending_input@[0] == (data, next));
                        assert(unwritten(self.pending_input@) =~= all.skip(size as int));
                        assert forall|i: int| 0 <= i < self.pending_input@.len() implies (
                        #[trigger] self.pending_input@[i]).1 < self.pending_input@[i].0@.len() by {
                            if i > 0 {
                                assert(self.pending_input@[i] == rest[i - 1]);
                            }
                        }
                    }
                } else {
                    assert(unwritten(self.pending_input@) =~= all.skip(size as int));
                }
                Flow::Continue
            },
            ChannelOutcome::Retry => {
                self.retrying_input = true;
                Flow::NextRound
            },
            ChannelOutcome::Failed(error) => {
                let mut message = copy("Terminal connection lost while sending input: ");
                message.append(error.as_str());
                self.close_message = Some(message);
                self.closed = true;
                Flow::Stop
            },
        }
    }

    /// Takes bytes that were read; the result is the text to show.
    pub fn output(&mut self, data: &[u8]) -> (res: String)
        requires
            old(self).well_formed(),
        ensures
            final(self).well_formed(),
            res@ == text_of(old(self).partial@ + data@),
            final(self).partial@ == left_of(old(self).partial@ + data@),
            final(self).pending_input@ == old(self).pending_input@,
            final(self).pending_resize == old(self).pending_resize,
            final(self).retrying_input == old(self).retrying_input,
            final(self).keepalive_failures == old(self).keepalive_failures,
            final(self).closed == old(self).closed,
            final(self).close_message == old(self).close_message,
    {
        decode_chunk(&mut self.partial, data)
    }

    /// Notes that reading failed for good.
    pub fn read_failed(&mut self, error: &str)
        requires
            old(self).well_formed(),
        ensures
            final(self).well_formed(),
            final(self).closed,
            opt_view(final(self).close_message) == Some(
                "Terminal connection lost while reading output: "@ + error@,
            ),
            final(self).partial@ == old(self).partial@,
            final(self).pending_input@ == old(self).pending_input@,
            final(self).keepalive_failures == old(self).keepalive_failures,
            final(self).pending_resize == old(self).pending_resize,
            final(self).retrying_input == old(self).retrying_input,
    {
        let mut message = copy("Terminal connection lost while reading output: ");
        message.append(error);
        self.close_message = Some(message);
        self.closed = true;
    }

    /// Notes how a keep-alive message ended: the milliseconds to the next one, or nothing
    /// where the connection is lost.
    pub fn keepalive(&mut self, outcome: KeepAlive) -> (res: Option<u64>)
        requires
            old(self).well_formed(),
            old(self).keepalive_failures < MAX_KEEPALIVE_FAILURES,
        ensures
            final(self).well_formed(),
            (final(self).keepalive_failures as int, res) == after_keepalive(
                old(self).keepalive_failures,
                outcome,
            ),
            final(self).closed == (old(self).closed || res is None),
            res is Some ==> final(self).close_message == old(self).close_message,
            res is None ==> (outcome matches KeepAlive::Failed(error) && opt_view(
                final(self).close_message,
            ) == Some("SSH connection lost: "@ + error@)),
            final(self).partial@ == old(self).partial@,
            final(self).pending_input@ == old(self).pending_input@,
            final(self).pending_resize == old(self).pending_resize,
            final(self).retrying_input == old(self).retrying_input,
    {
        let (failures, due) = keepalive_step(self.keepalive_failures, &outcome);
        self.keepalive_failures = failures;
        if due.is_none() {
            self.closed = true;
            match outcome {
                KeepAlive::Failed(error) => {
                    let mut message = copy("SSH connection lost: ");
                    message.append(error.as_str());
                    self.close_message = Some(message);
                },
                _ => {},
            }
        }
        due
    }

    /// Ends the stream; the result is the text that is still to be shown.
    pub fn finish(&mut self) -> (res: String)
        ensures
            res@ == lossy_text(old(self).partial@),
            final(self).partial@.len() == 0,
    {
        flush(&mut self.partial)
    }
}

/// What is said when a terminal ends.
pub open spec fn closing_text(
    message: Option<Seq<char>>,
    had_command: bool,
    exit_status: Option<i32>,
) -> Seq<char> {
    match message {
        Some(text) => text,
        None => match exit_status {
            Some(status) => if !had_command {
                "Remote shell exited"@
            } else if status == 0 {
                "Remote command finished"@
            } else {
                "Remote command exited with status "@ + signed_decimal(status as int)
            },
            None => "Remote shell exited"@,
        },
    }
}

/// What is said when a terminal ends. The exit status counts where a command ran.
pub fn closing_message(
    message: Option<String>,
    had_command: bool,
    exit_status: Option<i32>,
) -> (res: String)
    ensures
        res@ == closing_text(opt_view(message), had_command, exit_status),
{
    if let Some(text) = message {
        return text;
    }
    match exit_status {
        Some(status) => {
            if !had_command {
                copy("Remote shell exited")
            } else if status == 0 {
                copy("Remote command finished")
            } else {
                let mut out = copy("Remote command exited with status ");
                out.append(format_signed(status as i64).as_str());
                out
            }
        },
        None => copy("Remote shell exited"),
    }
}

/// A terminal is opened step by step: the channel, its size, the shell or the command that
/// was asked for, its output; and then it runs.
pub proof fn terminals_go_on(opening: TerminalOpeningView, cancelled: bool)
    ensures
        ({
            let (stage, action) = open_step(opening, OpenEvent::Succeeded { cancelled });
            &&& opening.stage == OpenStage::Connecting ==> stage == OpenStage::Channel && action
                is OpenChannel
            &&& opening.stage == OpenStage::Channel && !cancelled ==> stage == OpenStage::Sizing
                && action == (OpenActionView::RequestPty { cols: opening.cols, rows: opening.rows })
            &&& opening.stage == OpenStage::Channel && cancelled ==> action is Fail
            &&& opening.stage == OpenStage::Sizing ==> stage == OpenStage::Starting && match opening.command {
                Some(command) => action == OpenActionView::StartCommand(command),
                None => action is StartShell,
            }
            &&& opening.stage == OpenStage::Starting ==> stage == OpenStage::Merging && action
                is Merge
            &&& opening.stage == OpenStage::Merging ==> stage == OpenStage::Registering && action
                is Register
            &&& opening.stage == OpenStage::Registering && !cancelled ==> stage == OpenStage::Ended
                && action is Run
        }),
{
}

/// A terminal that fails to open says why, and opens no more.
pub proof fn failed_terminals_say_why(opening: TerminalOpeningView, detail: String, event: OpenEvent)
    requires
        opening.stage != OpenStage::Ended,
    ensures
        open_step(opening, OpenEvent::Failed(detail)).0 == OpenStage::Ended,
        open_step(opening, OpenEvent::Failed(detail)).1 matches OpenActionView::Fail(error)
            && ends_with(error, detail@),
        open_step(TerminalOpeningView { stage: OpenStage::Ended, ..opening }, event) == (
            OpenStage::Ended,
            OpenActionView::Nothing,
        ),
{
    let d = detail@;
    let channel = "Could not open SSH terminal channel: "@;
    let sizing = "Could not allocate a remote terminal: "@;
    let command = "Could not start the remote command: "@;
    let shell = "Could not start the remote shell: "@;
    let merging = "Could not prepare terminal output: "@;
    assert((channel + d).skip(channel.len() as int) =~= d);
    assert((sizing + d).skip(sizing.len() as int) =~= d);
    assert((command + d).skip(command.len() as int) =~= d);
    assert((shell + d).skip(shell.len() as int) =~= d);
    assert((merging + d).skip(merging.len() as int) =~= d);
    assert(d.skip(0) =~= d);
}

/// What is said at the end of a terminal: why the connection was lost, or how the command
/// ended.
pub proof fn endings_are_told(message: Seq<char>, status: i32, had_command: bool)
    ensures
        closing_text(Some(message), had_command, Some(status)) == message,
        closing_text(None, false, Some(status)) == "Remote shell exited"@,
        closing_text(None, true, Some(0)) == "Remote command finished"@,
        status != 0 ==> closing_text(None, true, Some(status))
            == "Remote command exited with status "@ + signed_decimal(status as int),
        closing_text(None, had_command, None) == "Remote shell exited"@,
{
}

/// Input is taken up to a mebibyte that waits; what would go beyond it is refused.
pub proof fn waiting_input_is_bounded(current: usize, length: int)
    requires
        current <= 1048576,
        length >= 0,
    ensures
        reserved(current, length) is Ok <==> current + length <= 1048576,
        reserved(current, length) matches Ok(waiting) ==> waiting == current + length,
{
}

} // verus!
