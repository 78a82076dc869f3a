//! How an action that needs root rights is run: directly as root, through sudo
//! without a password, or with the stored one.
use crate::ssh::{
    command_output, output_or_error, password_rejected, posix_script_command, quote_shell, quoted,
    quoted_all, script_command, script_result, sudo_command, sudo_password_command, sudo_password_input,
    sudo_password_rejected_error, sudo_password_was_rejected, text_result, validate_script_output,
    ExecOutput, SUDO_PASSWORD_REJECTED,
};
use crate::text::{copy, join, opt_view, same, starts_with, trim, trim_str, views};
use crate::wiping::wipe_text;
use vstd::prelude::*;
use vstd::utf8::encode_utf8;

verus! {

broadcast use vstd::string::group_string_axioms;

/// Tells whether the session is root already.
pub const UID_PROBE: &'static str = "id -u";

/// Tells whether sudo asks for no password.
pub const SUDO_PROBE: &'static str = "sudo -n true";

/// An action that needs root rights.
#[derive(Debug, PartialEq, Eq)]
pub enum PrivilegedRequest {
    /// A command, with a bound on its output where there is one.
    Command { command: String, max_output: Option<usize> },
    /// A POSIX script with its arguments, and a bound on its output.
    Script { script: Vec<u8>, arguments: Vec<String>, max_output: usize },
    /// A command that reads `input`.
    WithInput { command: String, input: Vec<u8> },
}

/// A command to run. `limit` is the bound on each output stream.
#[derive(Debug, PartialEq, Eq)]
pub struct Invocation {
    pub command: String,
    pub input: Option<Vec<u8>>,
    pub limit: Option<usize>,
}

#[verifier::ext_equal]
pub struct InvocationView {
    pub command: Seq<char>,
    pub input: Option<Seq<u8>>,
    pub limit: Option<usize>,
}

impl View for Invocation {
    type V = InvocationView;

    open spec fn view(&self) -> InvocationView {
        InvocationView {
            command: self.command@,
            input: opt_view(self.input),
            limit: self.limit,
        }
    }
}

/// One more than the bound, so that an overrun shows.
pub open spec fn one_more(limit: usize) -> usize {
    if limit < usize::MAX {
        (limit + 1) as usize
    } else {
        limit
    }
}

pub open spec fn one_more_of(limit: Option<usize>) -> Option<usize> {
    match limit {
        Some(bound) => Some(one_more(bound)),
        None => None,
    }
}

/// What is run where the session is root.
pub open spec fn as_root(request: PrivilegedRequest) -> InvocationView {
    match request {
        PrivilegedRequest::Command { command, max_output } => InvocationView {
            command: command@,
            input: None,
            limit: one_more_of(max_output),
        },
        PrivilegedRequest::Script { script, arguments, max_output } => InvocationView {
            command: script_command("LC_ALL=C sh -s"@, views(arguments@)),
            input: Some(script@),
            limit: Some(one_more(max_output)),
        },
        PrivilegedRequest::WithInput { command, input } => InvocationView {
            command: command@,
            input: Some(input@),
            limit: None,
        },
    }
}

/// What is run where sudo asks for no password.
pub open spec fn through_sudo(request: PrivilegedRequest) -> InvocationView {
    match request {
        PrivilegedRequest::Command { command, max_output } => InvocationView {
            command: "sudo -n sh -c "@ + quoted(command@),
            input: None,
            limit: one_more_of(max_output),
        },
        PrivilegedRequest::Script { script, arguments, max_output } => InvocationView {
            command: script_command("sudo -n env LC_ALL=C sh -s"@, views(arguments@)),
            input: Some(script@),
            limit: Some(one_more(max_output)),
        },
        PrivilegedRequest::WithInput { command, input } => InvocationView {
            command: "sudo -n sh -c "@ + quoted(command@),
            input: Some(input@),
            limit: None,
        },
    }
}

/// The password on a line of its own, before the payload.
pub open spec fn password_line(password: Seq<char>, payload: Seq<u8>) -> Seq<u8> {
    encode_utf8(password) + seq![10u8] + payload
}

/// What is run with the stored password. A command without input takes the password
/// from its own standard input; the others leave the input to the command.
pub open spec fn with_password(request: PrivilegedRequest, password: Seq<char>) -> InvocationView {
    match request {
        PrivilegedRequest::Command { command, max_output } => InvocationView {
            command: "LC_ALL=C sudo -S -k -p '' sh -c "@ + quoted(command@),
            input: Some(password_line(password, Seq::empty())),
            limit: one_more_of(max_output),
        },
        PrivilegedRequest::Script { script, arguments, max_output } => InvocationView {
            command: sudo_command(
                script_command("sudo -n env LC_ALL=C sh -s"@, views(arguments@)),
            ),
            input: Some(password_line(password, script@)),
            limit: Some(one_more(max_output)),
        },
        PrivilegedRequest::WithInput { command, input } => InvocationView {
            command: sudo_command("sudo -n sh -c "@ + quoted(command@)),
            input: Some(password_line(password, input@)),
            limit: None,
        },
    }
}

/// What is said where no password is stored.
pub open spec fn no_password_text(request: PrivilegedRequest) -> Seq<char> {
    match request {
        PrivilegedRequest::Command { .. } =>
            "This action needs sudo. Add a sudo password to the server connection, or use the terminal to authenticate interactively."@,
        _ => "This action needs sudo. Add a sudo password to the server connection first."@,
    }
}

/// Whether a stored password can be used: for a plain command an empty one counts as
/// none.
pub open spec fn usable_password(
    request: PrivilegedRequest,
    stored: Option<Seq<char>>,
) -> Option<Seq<char>> {
    match (request, stored) {
        (PrivilegedRequest::Command { .. }, Some(password)) => if password.len() == 0 {
            None
        } else {
            Some(password)
        },
        _ => stored,
    }
}

/// Where the way to root rights stands.
#[derive(Clone, Copy, Debug, PartialEq, Eq, Structural)]
pub enum Route {
    /// The command runs as root or through sudo without a password.
    Direct,
    /// The command runs with the stored password.
    Password,
}

/// What happened on the way.
#[derive(Debug, PartialEq, Eq)]
pub enum PrivilegeEvent {
    /// What the user-id probe printed; nothing where it failed.
    Uid(Option<String>),
    /// How the sudo probe ended.
    SudoProbe { exit_code: i32 },
    /// The stored sudo password, where there is one.
    Stored(Option<String>),
}

/// What is to be done next.
#[derive(Debug, PartialEq, Eq)]
pub enum PrivilegeAction {
    ProbeSudo,
    ReadPassword,
    Run { invocation: Invocation, route: Route },
    Fail(String),
}

#[verifier::ext_equal]
pub enum PrivilegeActionView {
    ProbeSudo,
    ReadPassword,
    Run { invocation: InvocationView, route: Route },
    Fail(Seq<char>),
}

impl View for PrivilegeAction {
    type V = PrivilegeActionView;

    open spec fn view(&self) -> PrivilegeActionView {
        match *self {
            PrivilegeAction::ProbeSudo => PrivilegeActionView::ProbeSudo,
            PrivilegeAction::ReadPassword => PrivilegeActionView::ReadPassword,
            PrivilegeAction::Run { invocation, route } => PrivilegeActionView::Run {
                invocation: invocation@,
                route,
            },
            PrivilegeAction::Fail(error) => PrivilegeActionView::Fail(error@),
        }
    }
}

/// The next step to root rights.
pub open spec fn privilege_step(
    request: PrivilegedRequest,
    event: PrivilegeEvent,
) -> PrivilegeActionView {
    match event {
        PrivilegeEvent::Uid(printed) => match printed {
            Some(text) => if trim(text@) == "0"@ {
                PrivilegeActionView::Run { invocation: as_root(request), route: Route::Direct }
            } else {
                PrivilegeActionView::ProbeSudo
            },
            None => PrivilegeActionView::ProbeSudo,
        },
        PrivilegeEvent::SudoProbe { exit_code } => if exit_code == 0 {
            PrivilegeActionView::Run { invocation: through_sudo(request), route: Route::Direct }
        } else {
            PrivilegeActionView::ReadPassword
        },
        PrivilegeEvent::Stored(stored) => match usable_password(request, opt_view(stored)) {
            Some(password) => PrivilegeActionView::Run {
                invocation: with_password(request, password),
                route: Route::Password,
            },
            None => PrivilegeActionView::Fail(no_password_text(request)),
        },
    }
}

fn plus_one(limit: usize) -> (res: usize)
    ensures
        res == one_more(limit),
{
    limit.saturating_add(1)
}

fn plus_one_of(limit: Option<usize>) -> (res: Option<usize>)
    ensures
        res == one_more_of(limit),
{
    match limit {
        Some(bound) => Some(plus_one(bound)),
        None => None,
    }
}

fn copy_bytes(bytes: &[u8]) -> (res: Vec<u8>)
    ensures
        res@ == bytes@,
{
    let mut out: Vec<u8> = Vec::new();
    crate::utf8::extend(&mut out, bytes);
    assert(out@ =~= bytes@);
    out
}

fn sudo_shell(command: &str) -> (res: String)
    ensures
        res@ == "sudo -n sh -c "@ + quoted(command@),
{
    let mut out = copy("sudo -n sh -c ");
    out.append(quote_shell(command).as_str());
    out
}

fn root_invocation(request: &PrivilegedRequest) -> (res: Invocation)
    ensures
        res@ == as_root(*request),
{
    match request {
        PrivilegedRequest::Command { command, max_output } => Invocation {
            command: command.clone(),
            input: None,
            limit: plus_one_of(*max_output),
        },
        PrivilegedRequest::Script { script, arguments, max_output } => Invocation {
            command: posix_script_command("LC_ALL=C sh -s", arguments.as_slice()),
            input: Some(copy_bytes(script.as_slice())),
            limit: Some(plus_one(*max_output)),
        },
        PrivilegedRequest::WithInput { command, input } => Invocation {
            command: command.clone(),
            input: Some(copy_bytes(input.as_slice())),
            limit: None,
        },
    }
}

fn sudo_invocation(request: &PrivilegedRequest) -> (res: Invocation)
    ensures
        res@ == through_sudo(*request),
{
    match request {
        PrivilegedRequest::Command { command, max_output } => Invocation {
            command: sudo_shell(command.as_str()),
            input: None,
            limit: plus_one_of(*max_output),
        },
        PrivilegedRequest::Script { script, arguments, max_output } => Invocation {
            command: posix_script_command("sudo -n env LC_ALL=C sh -s", arguments.as_slice()),
            input: Some(copy_bytes(script.as_slice())),
            limit: Some(plus_one(*max_output)),
        },
        PrivilegedRequest::WithInput { command, input } => Invocation {
            command: sudo_shell(command.as_str()),
            input: Some(copy_bytes(input.as_slice())),
            limit: None,
        },
    }
}

fn password_invocation(request: &PrivilegedRequest, password: &str) -> (res: Invocation)
    ensures
        res@ == with_password(*request, password@),
{
    match request {
        PrivilegedRequest::Command { command, max_output } => {
            let mut line = copy("LC_ALL=C sudo -S -k -p '' sh -c ");
            line.append(quote_shell(command.as_str()).as_str());
            let nothing: Vec<u8> = Vec::new();
            Invocation {
                command: line,
                input: Some(sudo_password_input(password, nothing.as_slice())),
                limit: plus_one_of(*max_output),
            }
        },
        PrivilegedRequest::Script { script, arguments, max_output } => {
            let inner = posix_script_command("sudo -n env LC_ALL=C sh -s", arguments.as_slice());
            Invocation {
                command: sudo_password_command(inner.as_str()),
                input: Some(sudo_password_input(password, script.as_slice())),
                limit: Some(plus_one(*max_output)),
            }
        },
        PrivilegedRequest::WithInput { command, input } => {
            let inner = sudo_shell(command.as_str());
            Invocation {
                command: sudo_password_command(inner.as_str()),
                input: Some(sudo_password_input(password, input.as_slice())),
                limit: None,
            }
        },
    }
}

/// The next step to root rights. The first event is what `UID_PROBE` printed.
pub fn execute_privileged_step(request: &PrivilegedRequest, event: PrivilegeEvent) -> (res:
    PrivilegeAction)
    ensures
        res@ == privilege_step(*request, event),
{
    match event {
        PrivilegeEvent::Uid(printed) => {
            if let Some(text) = printed {
                if same(trim_str(text.as_str()).as_str(), "0") {
                    return PrivilegeAction::Run {
                        invocation: root_invocation(request),
                        route: Route::Direct,
                    };
                }
            }
            PrivilegeAction::ProbeSudo
        },
        PrivilegeEvent::SudoProbe { exit_code } => if exit_code == 0 {
            PrivilegeAction::Run { invocation: sudo_invocation(request), route: Route::Direct }
        } else {
            PrivilegeAction::ReadPassword
        },
        PrivilegeEvent::Stored(stored) => {
            let plain = match request {
                PrivilegedRequest::Command { .. } => true,
                _ => false,
            };
            match stored {
                Some(mut password) => {
                    if plain && password.as_str().is_empty() {
                        return PrivilegeAction::Fail(no_password_error(request));
                    }
                    let invocation = password_invocation(request, password.as_str());
                    wipe_text(&mut password);
                    PrivilegeAction::Run { invocation, route: Route::Password }
                },
                None => PrivilegeAction::Fail(no_password_error(request)),
            }
        },
    }
}

fn no_password_error(request: &PrivilegedRequest) -> (res: String)
    ensures
        res@ == no_password_text(*request),
{
    match request {
        PrivilegedRequest::Command { .. } => copy(
            "This action needs sudo. Add a sudo password to the server connection, or use the terminal to authenticate interactively.",
        ),
        _ => copy(
            "This action needs sudo. Add a sudo password to the server connection first.",
        ),
    }
}

/// What the run of a request comes to.
pub open spec fn privileged_result(
    request: PrivilegedRequest,
    route: Route,
    output: ExecOutput,
) -> Result<Seq<char>, Seq<char>> {
    if route == Route::Password && password_rejected(output) {
        Err(SUDO_PASSWORD_REJECTED@)
    } else {
        match request {
            PrivilegedRequest::Script { max_output, .. } => script_result(output, max_output),
            _ => output_or_error(output),
        }
    }
}

/// Reads the output of a request that was run.
pub fn execute_privileged_finish(
    request: &PrivilegedRequest,
    route: Route,
    output: ExecOutput,
) -> (res: Result<String, String>)
    ensures
        text_result(res) == privileged_result(*request, route, output),
{
    if route == Route::Password && sudo_password_was_rejected(&output) {
        return Err(sudo_password_rejected_error());
    }
    match request {
        PrivilegedRequest::Script { max_output, .. } => validate_script_output(output, *max_output),
        _ => command_output(output),
    }
}

/// A password is read, and sent, only after root and sudo without a password were ruled
/// out.
pub proof fn passwords_are_a_last_resort(request: PrivilegedRequest, event: PrivilegeEvent)
    ensures
        privilege_step(request, event) matches PrivilegeActionView::Run { route, .. } ==> route
            == Route::Password ==> event is Stored,
        privilege_step(request, event) is ReadPassword ==> (event matches PrivilegeEvent::SudoProbe {
            exit_code,
        } && exit_code != 0),
{
}

/// Root rights are looked for in one order: as root the request runs as it is; else sudo is
/// asked, and then the stored password. Where there is none, nothing runs.
pub proof fn root_rights_are_looked_for(
    request: PrivilegedRequest,
    printed: Option<String>,
    exit_code: i32,
    stored: Option<String>,
)
    ensures
        privilege_step(request, PrivilegeEvent::Uid(printed)) is Run <==> (printed matches Some(
            text,
        ) && trim(text@) == "0"@),
        privilege_step(request, PrivilegeEvent::Uid(printed)) is Run
            || privilege_step(request, PrivilegeEvent::Uid(printed)) is ProbeSudo,
        privilege_step(request, PrivilegeEvent::SudoProbe { exit_code }) is Run <==> exit_code == 0,
        exit_code != 0 ==> privilege_step(request, PrivilegeEvent::SudoProbe { exit_code })
            is ReadPassword,
        privilege_step(request, PrivilegeEvent::Stored(stored)) is Run <==> (stored matches Some(
            password,
        ) && (password@.len() > 0 || request !is Command)),
        privilege_step(request, PrivilegeEvent::Stored(stored)) is Run
            || privilege_step(request, PrivilegeEvent::Stored(stored)) is Fail,
{
}

/// As root, a command runs as it was asked for, with the input that was asked for; and a
/// script is read by a shell that gets each argument as one word.
pub proof fn root_runs_what_was_asked_for(request: PrivilegedRequest)
    ensures
        privilege_step(request, PrivilegeEvent::Uid(None)) !is Run,
        forall|printed: Option<String>|
            #![trigger privilege_step(request, PrivilegeEvent::Uid(printed))]
            privilege_step(request, PrivilegeEvent::Uid(printed)) matches PrivilegeActionView::Run {
                invocation,
                route,
            } ==> route == Route::Direct && match request {
                PrivilegedRequest::Command { command, max_output } => {
                    &&& invocation.command == command@
                    &&& invocation.input is None
                    &&& invocation.limit is Some <==> max_output is Some
                    &&& max_output matches Some(bound) ==> bound < usize::MAX ==> invocation.limit
                        == Some((bound + 1) as usize)
                },
                PrivilegedRequest::Script { script, arguments, max_output } => {
                    &&& arguments@.len() == 0 ==> invocation.command == "LC_ALL=C sh -s"@
                    &&& arguments@.len() > 0 ==> invocation.command == "LC_ALL=C sh -s -- "@ + join(
                        quoted_all(views(arguments@)),
                        " "@,
                    )
                    &&& invocation.input == Some(script@)
                    &&& max_output < usize::MAX ==> invocation.limit == Some(
                        (max_output + 1) as usize,
                    )
                },
                PrivilegedRequest::WithInput { command, input } => {
                    &&& invocation.command == command@
                    &&& invocation.input == Some(input@)
                    &&& invocation.limit is None
                },
            },
{
    if let PrivilegedRequest::Script { arguments, .. } = request {
        reveal_strlit("LC_ALL=C sh -s");
        reveal_strlit(" -- ");
        reveal_strlit("LC_ALL=C sh -s -- ");
        assert("LC_ALL=C sh -s"@ + " -- "@ =~= "LC_ALL=C sh -s -- "@);
        lemma_joined_arguments(views(arguments@));
    }
}

proof fn lemma_joined_arguments(arguments: Seq<Seq<char>>)
    ensures
        join(quoted_all(arguments), " "@).len() > 0 <==> arguments.len() > 0,
{
    let all = quoted_all(arguments);
    if all.len() > 0 {
        reveal_strlit("'");
        assert(all.last().len() >= 2);
    }
}

/// Without root rights nothing runs but through sudo, and what sudo runs is what root would
/// have run, with the same input and the same bound. With a stored password, the password
/// goes to sudo on the first line of the input and nowhere else; sudo checks it before
/// anything runs.
pub proof fn sudo_runs_what_root_would_run(
    request: PrivilegedRequest,
    event: PrivilegeEvent,
    root: InvocationView,
)
    requires
        event !is Uid,
        root == as_root(request),
    ensures
        privilege_step(request, event) matches PrivilegeActionView::Run { invocation, route } ==> {
            let plain = if request is Script {
                "sudo -n env "@ + root.command
            } else {
                "sudo -n sh -c "@ + quoted(root.command)
            };
            &&& invocation.limit == root.limit
            &&& route == Route::Direct ==> {
                &&& event == (PrivilegeEvent::SudoProbe { exit_code: 0 })
                &&& starts_with(invocation.command, "sudo -n "@)
                &&& invocation.command == plain
                &&& invocation.input == root.input
            }
            &&& route == Route::Password ==> {
                &&& event matches PrivilegeEvent::Stored(Some(password))
                &&& invocation.input == Some(
                    encode_utf8(password@) + seq![10u8] + (match root.input {
                        Some(input) => input,
                        None => Seq::empty(),
                    }),
                )
                &&& invocation.command == if request is Command {
                    "LC_ALL=C sudo -S -k -p '' sh -c "@ + quoted(root.command)
                } else {
                    "LC_ALL=C sh -c "@ + quoted(
                        "IFS= read -r serverbox_sudo_password || exit 1\nif printf '%s\\n' \"$serverbox_sudo_password\" | sudo -S -k -p '' -v; then\nunset serverbox_sudo_password\n"@
                            + plain + "\nelse\nunset serverbox_sudo_password\nexit 1\nfi"@,
                    )
                }
            }
        },
{
    reveal_strlit("sudo -n ");
    reveal_strlit("sudo -n sh -c ");
    reveal_strlit("sudo -n env ");
    reveal_strlit("LC_ALL=C sh -s");
    reveal_strlit("sudo -n env LC_ALL=C sh -s");
    let direct = through_sudo(request).command;
    if let PrivilegedRequest::Script { arguments, .. } = request {
        assert("sudo -n env "@ + "LC_ALL=C sh -s"@ =~= "sudo -n env LC_ALL=C sh -s"@);
        assert(direct =~= "sudo -n env "@ + root.command);
    }
    assert(direct.take(8) =~= "sudo -n "@);
}

/// A password that sudo refused is told as such, and only where one was sent; else the run
/// comes to what the command printed, or to its error.
pub proof fn refused_passwords_are_told(
    request: PrivilegedRequest,
    route: Route,
    output: ExecOutput,
)
    ensures
        privileged_result(request, route, output) is Ok ==> output.exit_code == 0 && !(route
            == Route::Password && password_rejected(output)) && privileged_result(
            request,
            route,
            output,
        ) == Ok::<Seq<char>, Seq<char>>(output.stdout@),
        route == Route::Password && password_rejected(output) ==> privileged_result(
            request,
            route,
            output,
        ) == Err::<Seq<char>, Seq<char>>(
            "The stored sudo password was rejected. Update it in the server connection settings."@,
        ),
        output.exit_code == 0 && !password_rejected(output) && request !is Script ==> privileged_result(
            request,
            route,
            output,
        ) is Ok,
        privileged_result(request, Route::Direct, output) == match request {
            PrivilegedRequest::Script { max_output, .. } => script_result(output, max_output),
            _ => output_or_error(output),
        },
{
}

/// How it is found out what rights a session has: nothing is changed by it.
pub proof fn rights_are_probed()
    ensures
        UID_PROBE@ == "id -u"@,
        SUDO_PROBE@ == "sudo -n true"@,
{
}

/// A password goes first, on a line of its own, and what the command reads follows unchanged;
/// a command is not given an empty one.
pub proof fn passwords_go_first(
    request: PrivilegedRequest,
    password: Seq<char>,
    payload: Seq<u8>,
)
    ensures
        password_line(password, payload).take(encode_utf8(password).len() as int) == encode_utf8(
            password,
        ),
        password_line(password, payload)[encode_utf8(password).len() as int] == 10,
        password_line(password, payload).skip(encode_utf8(password).len() as int + 1) == payload,
        password.len() > 0 ==> usable_password(request, Some(password)) == Some(password),
        request is Command ==> usable_password(request, Some(Seq::empty())) is None,
        usable_password(request, None) is None,
{
}

} // verus!
