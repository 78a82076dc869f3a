//! Running a command over a connection, and signing in.
use crate::models::{AuthMethod, ServerProfile, ServerProfileView};
use crate::numbers::{decimal, format_unsigned};
use crate::paging::at_most;
use crate::ssh::{
    append_output, expand_path, expanded, fitting, output_limit, ExecOutput, DEFAULT_OUTPUT_LIMIT,
    OPERATION_CANCELLED,
};
use crate::ssh_config::home_view;
use crate::text::{copy, ends_with, glue2, glue3, opt_view};
use crate::utf8::{decode_lossy, lossy_text};
use vstd::prelude::*;

verus! {

broadcast use vstd::string::group_string_axioms;

// ---------------------------------------------------------------------------
// Commands
// ---------------------------------------------------------------------------

/// What a stream gave when it was read. Nothing is there where it is at its end, or would
/// block.
#[derive(Debug, PartialEq, Eq)]
pub enum StreamRead {
    Data(Vec<u8>),
    Nothing,
    Failed(String),
}

/// A command whose output is read. Times are milliseconds of the caller's clock.
#[derive(Debug, PartialEq, Eq)]
pub struct CommandRun {
    pub stdout: Vec<u8>,
    pub stderr: Vec<u8>,
    pub limit: usize,
    /// How long the command may be silent.
    pub idle_timeout: u64,
    /// When it last gave output.
    pub last_progress: u64,
}

#[verifier::ext_equal]
pub struct CommandRunView {
    pub stdout: Seq<u8>,
    pub stderr: Seq<u8>,
    pub limit: usize,
    pub idle_timeout: u64,
    pub last_progress: u64,
}

impl View for CommandRun {
    type V = CommandRunView;

    open spec fn view(&self) -> CommandRunView {
        CommandRunView {
            stdout: self.stdout@,
            stderr: self.stderr@,
            limit: self.limit,
            idle_timeout: self.idle_timeout,
            last_progress: self.last_progress,
        }
    }
}

/// What is done after a round.
#[derive(Debug, PartialEq, Eq)]
pub enum RoundAction {
    /// Read on at once.
    Again,
    /// Read on after a pause.
    Pause,
    /// The command has ended.
    Ended,
    Fail(String),
}

#[verifier::ext_equal]
pub enum RoundActionView {
    Again,
    Pause,
    Ended,
    Fail(Seq<char>),
}

impl View for RoundAction {
    type V = RoundActionView;

    open spec fn view(&self) -> RoundActionView {
        match *self {
            RoundAction::Again => RoundActionView::Again,
            RoundAction::Pause => RoundActionView::Pause,
            RoundAction::Ended => RoundActionView::Ended,
            RoundAction::Fail(error) => RoundActionView::Fail(error@),
        }
    }
}

/// The bytes that a stream gave.
pub open spec fn given(read: StreamRead) -> Seq<u8> {
    match read {
        StreamRead::Data(bytes) => bytes@,
        _ => Seq::empty(),
    }
}

/// A buffer with what fits of more output.
pub open spec fn with_output(held: Seq<u8>, more: Seq<u8>, limit: usize) -> Seq<u8> {
    held + more.take(fitting(held.len(), more.len(), Some(limit)))
}

pub open spec fn progressed(stdout: StreamRead, stderr: StreamRead) -> bool {
    given(stdout).len() > 0 || given(stderr).len() > 0
}

/// What is done after a round.
pub open spec fn round_action(stdout: StreamRead, stderr: StreamRead, eof: bool) -> RoundActionView {
    match (stdout, stderr) {
        (StreamRead::Failed(detail), _) => RoundActionView::Fail(
            "Could not read remote output: "@ + detail@,
        ),
        (_, StreamRead::Failed(detail)) => RoundActionView::Fail(
            "Could not read remote error output: "@ + detail@,
        ),
        _ => if eof {
            RoundActionView::Ended
        } else if progressed(stdout, stderr) {
            RoundActionView::Again
        } else {
            RoundActionView::Pause
        },
    }
}

/// The command after a round that was read at `now`. Silence lasts from the last round that
/// gave output.
pub open spec fn after_round(
    run: CommandRunView,
    now: u64,
    stdout: StreamRead,
    stderr: StreamRead,
    eof: bool,
) -> CommandRunView {
    CommandRunView {
        stdout: with_output(run.stdout, given(stdout), run.limit),
        stderr: with_output(run.stderr, given(stderr), run.limit),
        last_progress: if round_action(stdout, stderr, eof) is Again {
            now
        } else {
            run.last_progress
        },
        ..run
    }
}

fn take_output(buffer: &mut Vec<u8>, read: &StreamRead, limit: usize) -> (gave: bool)
    ensures
        final(buffer)@ == with_output(old(buffer)@, given(*read), limit),
        gave == (given(*read).len() > 0),
{
    let ghost before = buffer@;
    match read {
        StreamRead::Data(bytes) => {
            append_output(buffer, bytes.as_slice(), Some(limit));
            bytes.len() > 0
        },
        _ => {
            assert(Seq::<u8>::empty().take(0) =~= Seq::empty());
            assert(before =~= before + Seq::<u8>::empty());
            false
        },
    }
}

/// Whether a command is read on.
pub open spec fn run_verdict(run: CommandRunView, now: u64, cancelled: bool) -> Result<(), Seq<char>> {
    if cancelled {
        Err(OPERATION_CANCELLED@)
    } else if now - run.last_progress > run.idle_timeout {
        Err(
            "Remote command timed out after "@ + decimal((run.idle_timeout / 1000) as nat)
                + " seconds without output"@,
        )
    } else {
        Ok(())
    }
}

impl CommandRun {
    /// A command that was just started. One without a bound on its output gets the common
    /// one.
    pub fn start(limit: Option<usize>, idle_timeout: u64, now: u64) -> (res: Self)
        ensures
            res@ == (CommandRunView {
                stdout: Seq::empty(),
                stderr: Seq::empty(),
                limit: match limit {
                    Some(bound) => bound,
                    None => DEFAULT_OUTPUT_LIMIT,
                },
                idle_timeout,
                last_progress: now,
            }),
    {
        let none: Vec<u8> = Vec::new();
        let more: Vec<u8> = Vec::new();
        assert(none@ =~= Seq::empty() && more@ =~= Seq::empty());
        CommandRun {
            stdout: none,
            stderr: more,
            limit: output_limit(limit),
            idle_timeout,
            last_progress: now,
        }
    }

    /// Asks before a round whether to go on: not once the command was cancelled, or has
    /// been silent for too long.
    pub fn check(&self, now: u64, cancelled: bool) -> (res: Result<(), String>)
        ensures
            crate::ssh::error_result(res) == run_verdict(self@, now, cancelled),
    {
        if cancelled {
            return Err(copy(OPERATION_CANCELLED));
        }
        if now > self.last_progress && now - self.last_progress > self.idle_timeout {
            return Err(
                glue3(
                    "Remote command timed out after ",
                    format_unsigned(self.idle_timeout / 1000).as_str(),
                    " seconds without output",
                ),
            );
        }
        Ok(())
    }

    /// Takes what the streams gave in a round. Behind a stream that failed nothing is read.
    pub fn round(&mut self, now: u64, stdout: StreamRead, stderr: StreamRead, eof: bool) -> (res:
        RoundAction)
        ensures
            res@ == round_action(stdout, stderr, eof),
            final(self)@ == after_round(old(self)@, now, stdout, stderr, eof),
    {
        let a = take_output(&mut self.stdout, &stdout, self.limit);
        let b = take_output(&mut self.stderr, &stderr, self.limit);
        match stdout {
            StreamRead::Failed(detail) => {
                return RoundAction::Fail(
                    glue2("Could not read remote output: ", detail.as_str()),
                );
            },
            _ => {},
        }
        match stderr {
            StreamRead::Failed(detail) => {
                return RoundAction::Fail(
                    glue2("Could not read remote error output: ", detail.as_str()),
                );
            },
            _ => {},
        }
        if eof {
            return RoundAction::Ended;
        }
        if a || b {
            self.last_progress = now;
            RoundAction::Again
        } else {
            RoundAction::Pause
        }
    }

    /// What a command that has ended printed.
    pub fn finish(self, exit_code: Option<i32>) -> (res: ExecOutput)
        ensures
            res.stdout@ == lossy_text(self@.stdout),
            res.stderr@ == lossy_text(self@.stderr),
            res.exit_code == match exit_code {
                Some(code) => code,
                None => -1i32,
            },
    {
        ExecOutput {
            stdout: decode_lossy(self.stdout.as_slice()),
            stderr: decode_lossy(self.stderr.as_slice()),
            exit_code: match exit_code {
                Some(code) => code,
                None => -1,
            },
        }
    }
}

/// However the output comes, the first bytes of it are kept, up to the bound, and nothing
/// else.
pub proof fn the_first_output_is_kept(all: Seq<u8>, more: Seq<u8>, limit: usize)
    ensures
        with_output(at_most(all, limit as nat), more, limit) == at_most(all + more, limit as nat),
        with_output(at_most(all, limit as nat), more, limit).len() <= limit,
{
    let held = at_most(all, limit as nat);
    let after = with_output(held, more, limit);
    if all.len() >= limit {
        assert(more.take(0) =~= Seq::empty());
        assert(after =~= held);
        assert(at_most(all + more, limit as nat) =~= all.take(limit as int));
        assert(held =~= all.take(limit as int));
    } else {
        assert(held =~= all);
        if more.len() <= limit - all.len() {
            assert(more.take(more.len() as int) =~= more);
            assert(after =~= all + more);
        } else {
            assert(after =~= (all + more).take(limit as int));
        }
    }
}

/// A command that gives output is not silent: what it is allowed begins anew.
pub proof fn output_resets_the_clock(
    run: CommandRunView,
    now: u64,
    stdout: StreamRead,
    stderr: StreamRead,
)
    requires
        stdout !is Failed,
        stderr !is Failed,
        progressed(stdout, stderr),
    ensures
        after_round(run, now, stdout, stderr, false).last_progress == now,
{
}

// ---------------------------------------------------------------------------
// Signing in
// ---------------------------------------------------------------------------

/// A secret of a server.
#[derive(Clone, Copy, Debug, PartialEq, Eq, Structural)]
pub enum SecretKind {
    Password,
    KeyPassphrase,
}

/// What happened to the last step.
#[derive(Debug, PartialEq, Eq)]
pub enum AuthEvent {
    Started,
    /// Whether the key is there.
    KeyChecked { found: bool },
    /// The secret that is stored.
    Secret(Option<String>),
    /// The server refused what was sent.
    Refused(String),
    /// The server took what was sent, and says whether that is enough.
    Accepted { authenticated: bool },
}

/// What is done next.
#[derive(Debug, PartialEq, Eq)]
pub enum AuthAction {
    ReadSecret(SecretKind),
    CheckKey(String),
    SendPassword(String),
    SendKey { path: String, passphrase: Option<String> },
    Done,
    Fail(String),
}

#[verifier::ext_equal]
pub enum AuthActionView {
    ReadSecret(SecretKind),
    CheckKey(Seq<char>),
    SendPassword(Seq<char>),
    SendKey { path: Seq<char>, passphrase: Option<Seq<char>> },
    Done,
    Fail(Seq<char>),
}

impl View for AuthAction {
    type V = AuthActionView;

    open spec fn view(&self) -> AuthActionView {
        match *self {
            AuthAction::ReadSecret(kind) => AuthActionView::ReadSecret(kind),
            AuthAction::CheckKey(path) => AuthActionView::CheckKey(path@),
            AuthAction::SendPassword(password) => AuthActionView::SendPassword(password@),
            AuthAction::SendKey { path, passphrase } => AuthActionView::SendKey {
                path: path@,
                passphrase: opt_view(passphrase),
            },
            AuthAction::Done => AuthActionView::Done,
            AuthAction::Fail(error) => AuthActionView::Fail(error@),
        }
    }
}

/// The path of the key of a profile.
pub open spec fn key_path_of(profile: ServerProfileView, home: Option<Seq<char>>) -> Seq<char> {
    match profile.key_path {
        Some(path) => expanded(path, home),
        None => Seq::empty(),
    }
}

/// The next step of signing in.
pub open spec fn auth_step(
    profile: ServerProfileView,
    home: Option<Seq<char>>,
    event: AuthEvent,
) -> AuthActionView {
    let by_key = profile.auth_method == AuthMethod::PrivateKey;
    match event {
        AuthEvent::Started => if !by_key {
            AuthActionView::ReadSecret(SecretKind::Password)
        } else if profile.key_path is None {
            AuthActionView::Fail("Choose an SSH private key for "@ + profile.name)
        } else {
            AuthActionView::CheckKey(key_path_of(profile, home))
        },
        AuthEvent::KeyChecked { found } => if found {
            AuthActionView::ReadSecret(SecretKind::KeyPassphrase)
        } else {
            AuthActionView::Fail(
                "The SSH private key does not exist: "@ + key_path_of(profile, home),
            )
        },
        AuthEvent::Secret(secret) => if by_key {
            AuthActionView::SendKey {
                path: key_path_of(profile, home),
                passphrase: opt_view(secret),
            }
        } else {
            match secret {
                Some(password) => AuthActionView::SendPassword(password@),
                None => AuthActionView::Fail(
                    "No password is stored for "@ + profile.name
                        + ". Edit its connection to add it."@,
                ),
            }
        },
        AuthEvent::Refused(detail) => AuthActionView::Fail(
            (if by_key {
                "SSH key authentication failed for "@
            } else {
                "Password authentication failed for "@
            }) + profile.name + ": "@ + detail@,
        ),
        AuthEvent::Accepted { authenticated } => if authenticated {
            AuthActionView::Done
        } else {
            AuthActionView::Fail("SSH authentication was rejected by "@ + profile.name)
        },
    }
}

fn key_path(profile: &ServerProfile, home: Option<&str>) -> (res: String)
    ensures
        res@ == key_path_of(profile@, home_view(home)),
{
    match &profile.key_path {
        Some(path) => expand_path(path.as_str(), home),
        None => String::new(),
    }
}

/// The next step of signing in.
pub fn authenticate(profile: &ServerProfile, home: Option<&str>, event: AuthEvent) -> (res:
    AuthAction)
    ensures
        res@ == auth_step(profile@, home_view(home), event),
{
    let by_key = profile.auth_method == AuthMethod::PrivateKey;
    let name = profile.name.as_str();
    match event {
        AuthEvent::Started => if !by_key {
            AuthAction::ReadSecret(SecretKind::Password)
        } else if profile.key_path.is_none() {
            AuthAction::Fail(glue2("Choose an SSH private key for ", name))
        } else {
            AuthAction::CheckKey(key_path(profile, home))
        },
        AuthEvent::KeyChecked { found } => if found {
            AuthAction::ReadSecret(SecretKind::KeyPassphrase)
        } else {
            AuthAction::Fail(
                glue2("The SSH private key does not exist: ", key_path(profile, home).as_str()),
            )
        },
        AuthEvent::Secret(secret) => if by_key {
            AuthAction::SendKey { path: key_path(profile, home), passphrase: secret }
        } else {
            match secret {
                Some(password) => AuthAction::SendPassword(password),
                None => AuthAction::Fail(
                    glue3(
                        "No password is stored for ",
                        name,
                        ". Edit its connection to add it.",
                    ),
                ),
            }
        },
        AuthEvent::Refused(detail) => {
            let mut out = glue3(
                if by_key {
                    "SSH key authentication failed for "
                } else {
                    "Password authentication failed for "
                },
                name,
                ": ",
            );
            out.append(detail.as_str());
            AuthAction::Fail(out)
        },
        AuthEvent::Accepted { authenticated } => if authenticated {
            AuthAction::Done
        } else {
            AuthAction::Fail(glue2("SSH authentication was rejected by ", name))
        },
    }
}

/// A password goes only to a server that takes passwords, and a key only to one that takes
/// keys; and no connection counts as signed in before the server says so.
pub proof fn secrets_go_where_they_belong(
    profile: ServerProfileView,
    home: Option<Seq<char>>,
    event: AuthEvent,
)
    ensures
        auth_step(profile, home, event) is SendPassword ==> profile.auth_method
            == AuthMethod::Password && event is Secret,
        auth_step(profile, home, event) is SendKey ==> profile.auth_method
            == AuthMethod::PrivateKey && event is Secret,
        auth_step(profile, home, event) is Done ==> event == (AuthEvent::Accepted {
            authenticated: true,
        }),
{
}

/// The secret that was read is the one that is sent, and nothing else is: a password as it
/// is stored, or the key of the profile with its passphrase where one is stored. Without a
/// stored password nothing is sent.
pub proof fn read_secrets_are_sent(
    profile: ServerProfileView,
    home: Option<Seq<char>>,
    secret: Option<String>,
)
    ensures
        ({
            let action = auth_step(profile, home, AuthEvent::Secret(secret));
            &&& profile.auth_method == AuthMethod::PrivateKey ==> (action matches
                AuthActionView::SendKey { path, passphrase } && passphrase == opt_view(secret) && (
            profile.key_path matches Some(key) ==> path == expanded(key, home)))
            &&& profile.auth_method == AuthMethod::Password ==> match secret {
                Some(password) => action == AuthActionView::SendPassword(password@),
                None => action is Fail,
            }
        }),
{
}

/// Signing in goes on until the server has decided: the secret of the method is read, a
/// key only once it is there, and the key that is checked is the one that is sent.
pub proof fn signing_in_goes_on(
    profile: ServerProfileView,
    home: Option<Seq<char>>,
    secret: Option<String>,
    detail: String,
)
    ensures
        profile.auth_method == AuthMethod::Password ==> auth_step(profile, home, AuthEvent::Started)
            == AuthActionView::ReadSecret(SecretKind::Password),
        profile.auth_method == AuthMethod::PrivateKey ==> match profile.key_path {
            None => auth_step(profile, home, AuthEvent::Started) is Fail,
            Some(_) => auth_step(profile, home, AuthEvent::Started) matches AuthActionView::CheckKey(
                checked,
            ) && auth_step(profile, home, AuthEvent::Secret(secret)) matches
                AuthActionView::SendKey { path, .. } && checked == path,
        },
        auth_step(profile, home, AuthEvent::KeyChecked { found: true })
            == AuthActionView::ReadSecret(SecretKind::KeyPassphrase),
        auth_step(profile, home, AuthEvent::KeyChecked { found: false }) is Fail,
        auth_step(profile, home, AuthEvent::Refused(detail)) matches AuthActionView::Fail(error)
            && ends_with(error, profile.name + ": "@ + detail@),
        auth_step(profile, home, AuthEvent::Accepted { authenticated: true }) is Done,
        auth_step(profile, home, AuthEvent::Accepted { authenticated: false }) matches
            AuthActionView::Fail(error) && ends_with(error, profile.name),
{
    let tail = profile.name + ": "@ + detail@;
    let key = "SSH key authentication failed for "@;
    let password = "Password authentication failed for "@;
    let rejected = "SSH authentication was rejected by "@;
    assert((key + profile.name + ": "@ + detail@).skip(key.len() as int) =~= tail);
    assert((password + profile.name + ": "@ + detail@).skip(password.len() as int) =~= tail);
    assert((rejected + profile.name).skip(rejected.len() as int) =~= profile.name);
}

/// Why a connection through a bastion failed.
pub fn bastion_failure(bastion: &str, error: &str) -> (res: String)
    ensures
        res@ == "Could not connect through "@ + bastion@ + ": "@ + error@,
{
    let mut out = glue3("Could not connect through ", bastion, ": ");
    out.append(error);
    out
}

/// Why there is no connection where the bastion of a server is gone.
pub fn bastion_missing(server: &str) -> (res: String)
    ensures
        res@ == "The bastion selected for "@ + server@ + " no longer exists"@,
{
    glue3("The bastion selected for ", server, " no longer exists")
}

/// A command is read until both streams are at their end: what gave output is read on at
/// once, what is silent after a pause; and a stream that fails ends the command with its
/// error.
pub proof fn commands_are_read_to_the_end(
    run: CommandRunView,
    now: u64,
    stdout: StreamRead,
    stderr: StreamRead,
    eof: bool,
)
    ensures
        stdout !is Failed && stderr !is Failed ==> {
            let gave = (stdout matches StreamRead::Data(bytes) && bytes@.len() > 0) || (
            stderr matches StreamRead::Data(bytes) && bytes@.len() > 0);
            &&& eof ==> round_action(stdout, stderr, eof) is Ended
            &&& !eof && gave ==> round_action(stdout, stderr, eof) is Again
            &&& !eof && !gave ==> round_action(stdout, stderr, eof) is Pause
        },
        stdout matches StreamRead::Failed(detail) ==> round_action(stdout, stderr, eof)
            == RoundActionView::Fail("Could not read remote output: "@ + detail@),
        stderr matches StreamRead::Failed(detail) ==> stdout !is Failed ==> round_action(
            stdout,
            stderr,
            eof,
        ) == RoundActionView::Fail("Could not read remote error output: "@ + detail@),
        ({
            let after = after_round(run, now, stdout, stderr, eof);
            &&& after.limit == run.limit && after.idle_timeout == run.idle_timeout
            &&& round_action(stdout, stderr, eof) is Pause ==> after.last_progress
                == run.last_progress && after.stdout == run.stdout && after.stderr == run.stderr
            &&& stdout matches StreamRead::Data(bytes) ==> run.stdout.len() + bytes@.len()
                <= run.limit ==> after.stdout == run.stdout + bytes@
            &&& stderr matches StreamRead::Data(bytes) ==> run.stderr.len() + bytes@.len()
                <= run.limit ==> after.stderr == run.stderr + bytes@
        }),
{
    assert(Seq::<u8>::empty().take(0) =~= Seq::empty());
    assert(run.stdout + Seq::<u8>::empty() =~= run.stdout);
    assert(run.stderr + Seq::<u8>::empty() =~= run.stderr);
    if let StreamRead::Data(bytes) = stdout {
        assert(bytes@.take(bytes@.len() as int) =~= bytes@);
        assert(bytes@.len() == 0 ==> bytes@.take(0) =~= Seq::empty());
    }
    if let StreamRead::Data(bytes) = stderr {
        assert(bytes@.take(bytes@.len() as int) =~= bytes@);
        assert(bytes@.len() == 0 ==> bytes@.take(0) =~= Seq::empty());
    }
}

/// A command is read on as long as nobody cancelled it and it was not silent for longer than
/// it may be.
pub proof fn silent_commands_are_given_up(run: CommandRunView, now: u64)
    ensures
        run_verdict(run, now, true) == Err::<(), Seq<char>>("Operation cancelled"@),
        now <= run.last_progress + run.idle_timeout ==> run_verdict(run, now, false) is Ok,
        now > run.last_progress + run.idle_timeout ==> run_verdict(run, now, false) == Err::<
            (),
            Seq<char>,
        >(
            "Remote command timed out after "@ + decimal((run.idle_timeout / 1000) as nat)
                + " seconds without output"@,
        ),
{
}

} // verus!
