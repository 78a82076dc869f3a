//! Which container runtime a server has, and which shell a container has.
use crate::models::{ContainerExec, ContainerExecView};
use crate::providers::docker::lacks_rights;
use crate::ssh::{
    command_error, error_result, failure_text, is_permission_error, quote_shell, quoted,
    text_result, ExecOutput,
};
use crate::text::{
    contains_str, contains_text, copy, glue2, glue3, glue5, join, join_strings, lemma_views_push,
    opt_view, same, trim, trim_str, views,
};
use vstd::prelude::*;

verus! {

broadcast use vstd::string::group_string_axioms;

/// The most output that is kept of a probe.
pub const MAX_RUNTIME_PROBE_OUTPUT_BYTES: usize = 65536;

/// How long a probe may be silent, in seconds.
pub const RUNTIME_PROBE_TIMEOUT_SECONDS: u64 = 8;

pub const NO_RUNTIME: &'static str = "Docker or Podman is not installed on this server";

pub const NO_SHELL: &'static str = "No supported command shell was found in this container. It may use a distroless image.";

pub const CONTAINER_NOT_RUNNING: &'static str = "Start the container before opening an exec shell.";

pub const CONTAINER_PERMISSION: &'static str = "Container Exec requires direct access to the Docker/Podman socket or passwordless sudo. Add the SSH user to the runtime's group, enable rootless Podman, or use the server terminal with sudo.";

// ---------------------------------------------------------------------------
// Runtimes
// ---------------------------------------------------------------------------

/// The runtimes that are tried, in order.
pub open spec fn candidates(docker: bool, podman: bool) -> Seq<Seq<char>> {
    (if docker {
        seq!["docker"@]
    } else {
        Seq::empty()
    }) + (if podman {
        seq!["podman"@]
    } else {
        Seq::empty()
    })
}

/// The runtimes that are tried, in order.
pub fn runtime_candidates(docker: bool, podman: bool) -> (res: Vec<String>)
    ensures
        views(res@) == candidates(docker, podman),
{
    let mut out: Vec<String> = Vec::new();
    if docker {
        out.push(copy("docker"));
    }
    if podman {
        out.push(copy("podman"));
    }
    assert(views(out@) =~= candidates(docker, podman));
    out
}

/// Asks a runtime whether it answers.
pub open spec fn probe_text(runtime: Seq<char>) -> Seq<char> {
    runtime + " info >/dev/null"@
}

/// Tells whether a runtime can be used.
pub fn runtime_probe(runtime: &str) -> (res: String)
    ensures
        res@ == probe_text(runtime@),
{
    glue2(runtime, " info >/dev/null")
}

/// What the probe of a runtime told.
#[derive(Debug, PartialEq, Eq)]
pub enum ProbeVerdict {
    Usable,
    /// The runtime can be used with root rights.
    NeedsRoot,
    /// The runtime cannot be used, and why.
    Broken(String),
}

#[verifier::ext_equal]
pub enum ProbeVerdictView {
    Usable,
    NeedsRoot,
    Broken(Seq<char>),
}

impl View for ProbeVerdict {
    type V = ProbeVerdictView;

    open spec fn view(&self) -> ProbeVerdictView {
        match *self {
            ProbeVerdict::Usable => ProbeVerdictView::Usable,
            ProbeVerdict::NeedsRoot => ProbeVerdictView::NeedsRoot,
            ProbeVerdict::Broken(why) => ProbeVerdictView::Broken(why@),
        }
    }
}

pub open spec fn verdict_of(runtime: Seq<char>, probe: Result<ExecOutput, String>) -> ProbeVerdictView {
    match probe {
        Ok(output) => if output.exit_code == 0 {
            ProbeVerdictView::Usable
        } else if lacks_rights(output) {
            ProbeVerdictView::NeedsRoot
        } else {
            ProbeVerdictView::Broken(runtime + ": "@ + failure_text(output))
        },
        Err(error) => ProbeVerdictView::Broken(runtime + ": "@ + error@),
    }
}

/// What the probe of a runtime told. An error is one of the connection.
pub fn judge_runtime(runtime: &str, probe: Result<ExecOutput, String>) -> (res: ProbeVerdict)
    ensures
        res@ == verdict_of(runtime@, probe),
{
    match probe {
        Ok(output) => if output.exit_code == 0 {
            ProbeVerdict::Usable
        } else if is_permission_error(&output) {
            ProbeVerdict::NeedsRoot
        } else {
            ProbeVerdict::Broken(glue3(runtime, ": ", command_error(&output).as_str()))
        },
        Err(error) => ProbeVerdict::Broken(glue3(runtime, ": ", error.as_str())),
    }
}

/// A runtime that was probed.
#[derive(Debug, PartialEq, Eq)]
pub struct RuntimeProbe {
    pub runtime: String,
    pub verdict: ProbeVerdict,
}

#[verifier::ext_equal]
pub struct RuntimeProbeView {
    pub runtime: Seq<char>,
    pub verdict: ProbeVerdictView,
}

impl View for RuntimeProbe {
    type V = RuntimeProbeView;

    open spec fn view(&self) -> RuntimeProbeView {
        RuntimeProbeView { runtime: self.runtime@, verdict: self.verdict@ }
    }
}

/// The first runtime with this verdict.
pub open spec fn first_with(probes: Seq<RuntimeProbeView>, verdict: ProbeVerdictView) -> Option<
    Seq<char>,
>
    decreases probes.len(),
{
    if probes.len() == 0 {
        None
    } else {
        match first_with(probes.drop_last(), verdict) {
            Some(runtime) => Some(runtime),
            None => if probes.last().verdict == verdict {
                Some(probes.last().runtime)
            } else {
                None
            },
        }
    }
}

/// Why the runtimes that cannot be used cannot.
pub open spec fn diagnostics(probes: Seq<RuntimeProbeView>) -> Seq<Seq<char>>
    decreases probes.len(),
{
    if probes.len() == 0 {
        Seq::empty()
    } else {
        let before = diagnostics(probes.drop_last());
        match probes.last().verdict {
            ProbeVerdictView::Broken(why) => before.push(why),
            _ => before,
        }
    }
}

/// The runtime to use: the first that can be used, or else the first that can be with root
/// rights.
pub open spec fn chosen_runtime(probes: Seq<RuntimeProbeView>) -> Result<Seq<char>, Seq<char>> {
    match first_with(probes, ProbeVerdictView::Usable) {
        Some(runtime) => Ok(runtime),
        None => match first_with(probes, ProbeVerdictView::NeedsRoot) {
            Some(runtime) => Ok(runtime),
            None => if diagnostics(probes).len() == 0 {
                Err(NO_RUNTIME@)
            } else {
                Err(
                    "No usable container runtime is available. "@ + join(
                        diagnostics(probes),
                        "; "@,
                    ),
                )
            },
        },
    }
}

/// The runtime to use, by what the probes told. Nothing is probed behind one that can be
/// used.
pub fn docker_runtime(probes: &[RuntimeProbe]) -> (res: Result<String, String>)
    ensures
        text_result(res) == chosen_runtime(views(probes@)),
{
    let ghost all = views(probes@);
    let mut usable: Option<String> = None;
    let mut fallback: Option<String> = None;
    let mut why: Vec<String> = Vec::new();
    let mut i: usize = 0;
    assert(all.take(0) =~= Seq::empty());
    assert(views(why@) =~= Seq::empty());
    while i < probes.len()
        invariant
            i <= probes@.len(),
            all == views(probes@),
            opt_view(usable) == first_with(all.take(i as int), ProbeVerdictView::Usable),
            opt_view(fallback) == first_with(all.take(i as int), ProbeVerdictView::NeedsRoot),
            views(why@) == diagnostics(all.take(i as int)),
        decreases probes@.len() - i,
    {
        broadcast use lemma_views_push;

        assert(all.take(i + 1).drop_last() =~= all.take(i as int));
        assert(all.take(i + 1).last() == probes@[i as int]@);
        match &probes[i].verdict {
            ProbeVerdict::Usable => {
                if usable.is_none() {
                    usable = Some(probes[i].runtime.clone());
                }
            },
            ProbeVerdict::NeedsRoot => {
                if fallback.is_none() {
                    fallback = Some(probes[i].runtime.clone());
                }
            },
            ProbeVerdict::Broken(text) => {
                why.push(text.clone());
            },
        }
        i += 1;
    }
    assert(all.take(probes@.len() as int) =~= all);
    if let Some(runtime) = usable {
        return Ok(runtime);
    }
    if let Some(runtime) = fallback {
        return Ok(runtime);
    }
    if why.len() == 0 {
        Err(copy(NO_RUNTIME))
    } else {
        Err(
            glue2(
                "No usable container runtime is available. ",
                join_strings(why.as_slice(), "; ").as_str(),
            ),
        )
    }
}

/// Probing stops at a runtime that can be used: those behind it do not matter.
pub proof fn usable_runtimes_end_the_search(
    probes: Seq<RuntimeProbeView>,
    more: Seq<RuntimeProbeView>,
)
    requires
        first_with(probes, ProbeVerdictView::Usable) is Some,
    ensures
        chosen_runtime(probes + more) == chosen_runtime(probes),
    decreases more.len(),
{
    lemma_first_stays(probes, more, ProbeVerdictView::Usable);
}

proof fn lemma_first_stays(
    probes: Seq<RuntimeProbeView>,
    more: Seq<RuntimeProbeView>,
    verdict: ProbeVerdictView,
)
    requires
        first_with(probes, verdict) is Some,
    ensures
        first_with(probes + more, verdict) == first_with(probes, verdict),
    decreases more.len(),
{
    if more.len() == 0 {
        assert(probes + more =~= probes);
    } else {
        lemma_first_stays(probes, more.drop_last(), verdict);
        assert((probes + more).drop_last() =~= probes + more.drop_last());
    }
}

// ---------------------------------------------------------------------------
// Shells
// ---------------------------------------------------------------------------

/// The shells that are tried, in order.
pub open spec fn shells() -> Seq<Seq<char>> {
    seq!["/bin/sh"@, "/bin/bash"@, "/bin/ash"@, "/bin/zsh"@]
}

/// How many shells are tried.
pub const SHELL_COUNT: usize = 4;

/// The shell at a place in the order.
pub fn shell_at(index: usize) -> (res: &'static str)
    requires
        index < SHELL_COUNT,
    ensures
        res@ == shells()[index as int],
{
    if index == 0 {
        "/bin/sh"
    } else if index == 1 {
        "/bin/bash"
    } else if index == 2 {
        "/bin/ash"
    } else {
        "/bin/zsh"
    }
}

/// Tells whether a container has a shell.
pub open spec fn shell_probe_text(runtime: Seq<char>, container: Seq<char>, shell: Seq<char>) -> Seq<
    char,
> {
    runtime + " exec "@ + quoted(container) + " "@ + quoted(shell) + " -c "@ + quoted("exit"@)
}

pub fn runtime_shell_probe(runtime: &str, container: &str, shell: &str) -> (res: String)
    ensures
        res@ == shell_probe_text(runtime@, container@, shell@),
{
    let mut out = glue5(
        runtime,
        " exec ",
        quote_shell(container).as_str(),
        " ",
        quote_shell(shell).as_str(),
    );
    out.append(" -c ");
    out.append(quote_shell("exit").as_str());
    out
}

/// What happened to the probe of a shell.
pub enum ShellEvent {
    Ran(ExecOutput),
    /// The probe was run with root rights.
    RanAsRoot(Result<String, String>),
}

/// What is done next. Shells go by their place in the order.
#[derive(Debug, PartialEq, Eq)]
pub enum ShellAction {
    Probe(usize),
    ProbeAsRoot(usize),
    Found(usize),
    Fail(String),
}

#[verifier::ext_equal]
pub enum ShellActionView {
    Probe(usize),
    ProbeAsRoot(usize),
    Found(usize),
    Fail(Seq<char>),
}

impl View for ShellAction {
    type V = ShellActionView;

    open spec fn view(&self) -> ShellActionView {
        match *self {
            ShellAction::Probe(index) => ShellActionView::Probe(index),
            ShellAction::ProbeAsRoot(index) => ShellActionView::ProbeAsRoot(index),
            ShellAction::Found(index) => ShellActionView::Found(index),
            ShellAction::Fail(error) => ShellActionView::Fail(error@),
        }
    }
}

/// The shell behind one that the container does not have.
pub open spec fn next_shell(index: usize) -> ShellActionView {
    if index + 1 < SHELL_COUNT {
        ShellActionView::Probe((index + 1) as usize)
    } else {
        ShellActionView::Fail(NO_SHELL@)
    }
}

/// Whether a probe says that there is no such shell.
pub open spec fn has_no_shell(exit_code: i32) -> bool {
    exit_code == 126 || exit_code == 127
}

/// The next step of the search for a shell, with root rights where they are needed. It
/// begins with the first shell.
pub open spec fn shell_step(index: usize, event: ShellEvent) -> ShellActionView {
    match event {
        ShellEvent::Ran(output) => if output.exit_code == 0 {
            ShellActionView::Found(index)
        } else if lacks_rights(output) {
            ShellActionView::ProbeAsRoot(index)
        } else if has_no_shell(output.exit_code) {
            next_shell(index)
        } else {
            ShellActionView::Fail(failure_text(output))
        },
        ShellEvent::RanAsRoot(result) => match result {
            Ok(_) => ShellActionView::Found(index),
            Err(error) => if contains_text(error@, "status 126"@) || contains_text(
                error@,
                "status 127"@,
            ) {
                next_shell(index)
            } else {
                ShellActionView::Fail(error@)
            },
        },
    }
}

fn advance(index: usize) -> (res: ShellAction)
    ensures
        res@ == next_shell(index),
{
    if index < SHELL_COUNT - 1 {
        ShellAction::Probe(index + 1)
    } else {
        ShellAction::Fail(copy(NO_SHELL))
    }
}

/// The next step of the search for a shell, with root rights where they are needed.
pub fn resolve_container_shell_privileged(index: usize, event: ShellEvent) -> (res: ShellAction)
    ensures
        res@ == shell_step(index, event),
{
    match event {
        ShellEvent::Ran(output) => if output.exit_code == 0 {
            ShellAction::Found(index)
        } else if is_permission_error(&output) {
            ShellAction::ProbeAsRoot(index)
        } else if output.exit_code == 126 || output.exit_code == 127 {
            advance(index)
        } else {
            ShellAction::Fail(command_error(&output))
        },
        ShellEvent::RanAsRoot(result) => match result {
            Ok(_) => ShellAction::Found(index),
            Err(error) => if contains_str(error.as_str(), "status 126") || contains_str(
                error.as_str(),
                "status 127",
            ) {
                advance(index)
            } else {
                ShellAction::Fail(error)
            },
        },
    }
}

/// The next step of the search for a shell for a terminal.
pub open spec fn terminal_shell_step(index: usize, output: ExecOutput) -> ShellActionView {
    if output.exit_code == 0 {
        ShellActionView::Found(index)
    } else if lacks_rights(output) {
        ShellActionView::Fail(CONTAINER_PERMISSION@)
    } else if has_no_shell(output.exit_code) {
        next_shell(index)
    } else {
        ShellActionView::Fail(failure_text(output))
    }
}

/// The next step of the search for a shell for a terminal.
pub fn resolve_container_terminal_shell(index: usize, output: &ExecOutput) -> (res: ShellAction)
    ensures
        res@ == terminal_shell_step(index, *output),
{
    if output.exit_code == 0 {
        ShellAction::Found(index)
    } else if is_permission_error(output) {
        ShellAction::Fail(copy(CONTAINER_PERMISSION))
    } else if output.exit_code == 126 || output.exit_code == 127 {
        advance(index)
    } else {
        ShellAction::Fail(command_error(output))
    }
}

/// The search tries each shell at most once, in order, and ends behind the last.
pub proof fn shells_are_tried_in_order(index: usize, event: ShellEvent)
    requires
        index < SHELL_COUNT,
    ensures
        match shell_step(index, event) {
            ShellActionView::Probe(next) => next == index + 1 && next < SHELL_COUNT,
            ShellActionView::ProbeAsRoot(next) => next == index && event is Ran,
            ShellActionView::Found(found) => found == index,
            ShellActionView::Fail(_) => true,
        },
{
}

// ---------------------------------------------------------------------------
// A shell in a container
// ---------------------------------------------------------------------------

/// How the runtime is reached.
#[derive(Clone, Copy, Debug, PartialEq, Eq, Structural)]
pub enum ContainerRuntimeAccess {
    Direct,
    PasswordlessSudo,
}

/// A command as it is run: as it is, or through sudo.
pub open spec fn accessed(command: Seq<char>, access: ContainerRuntimeAccess) -> Seq<char> {
    match access {
        ContainerRuntimeAccess::Direct => command,
        ContainerRuntimeAccess::PasswordlessSudo => "sudo -n sh -c "@ + quoted(command),
    }
}

pub fn access_command(command: &str, access: ContainerRuntimeAccess) -> (res: String)
    ensures
        res@ == accessed(command@, access),
{
    match access {
        ContainerRuntimeAccess::Direct => copy(command),
        ContainerRuntimeAccess::PasswordlessSudo => glue2(
            "sudo -n sh -c ",
            quote_shell(command).as_str(),
        ),
    }
}

/// Tells whether a container runs.
pub open spec fn running_text(runtime: Seq<char>, container: Seq<char>) -> Seq<char> {
    runtime + " inspect --format "@ + quoted("{{.State.Running}}"@) + " "@ + quoted(container)
}

pub fn running_probe(runtime: &str, container: &str) -> (res: String)
    ensures
        res@ == running_text(runtime@, container@),
{
    glue5(
        runtime,
        " inspect --format ",
        quote_shell("{{.State.Running}}").as_str(),
        " ",
        quote_shell(container).as_str(),
    )
}

/// What happened to the question whether a container runs.
pub enum RunningEvent {
    Inspected(ExecOutput),
    SudoProbed { exit_code: i32 },
    InspectedAsRoot(ExecOutput),
}

/// What is done next.
#[derive(Debug, PartialEq, Eq)]
pub enum RunningAction {
    ProbeSudo,
    InspectAsRoot,
    Running(ContainerRuntimeAccess),
    Fail(String),
}

#[verifier::ext_equal]
pub enum RunningActionView {
    ProbeSudo,
    InspectAsRoot,
    Running(ContainerRuntimeAccess),
    Fail(Seq<char>),
}

impl View for RunningAction {
    type V = RunningActionView;

    open spec fn view(&self) -> RunningActionView {
        match *self {
            RunningAction::ProbeSudo => RunningActionView::ProbeSudo,
            RunningAction::InspectAsRoot => RunningActionView::InspectAsRoot,
            RunningAction::Running(access) => RunningActionView::Running(access),
            RunningAction::Fail(error) => RunningActionView::Fail(error@),
        }
    }
}

pub open spec fn running_verdict(stdout: Seq<char>, access: ContainerRuntimeAccess) -> RunningActionView {
    if trim(stdout) == "true"@ {
        RunningActionView::Running(access)
    } else {
        RunningActionView::Fail(CONTAINER_NOT_RUNNING@)
    }
}

/// The next step of the question whether a container runs.
pub open spec fn running_step(event: RunningEvent) -> RunningActionView {
    match event {
        RunningEvent::Inspected(output) => if output.exit_code == 0 {
            running_verdict(output.stdout@, ContainerRuntimeAccess::Direct)
        } else if lacks_rights(output) {
            RunningActionView::ProbeSudo
        } else {
            RunningActionView::Fail(failure_text(output))
        },
        RunningEvent::SudoProbed { exit_code } => if exit_code == 0 {
            RunningActionView::InspectAsRoot
        } else {
            RunningActionView::Fail(CONTAINER_PERMISSION@)
        },
        RunningEvent::InspectedAsRoot(output) => if output.exit_code == 0 {
            running_verdict(output.stdout@, ContainerRuntimeAccess::PasswordlessSudo)
        } else {
            RunningActionView::Fail(failure_text(output))
        },
    }
}

fn judge_running(stdout: &str, access: ContainerRuntimeAccess) -> (res: RunningAction)
    ensures
        res@ == running_verdict(stdout@, access),
{
    if same(trim_str(stdout).as_str(), "true") {
        RunningAction::Running(access)
    } else {
        RunningAction::Fail(copy(CONTAINER_NOT_RUNNING))
    }
}

/// The next step of the question whether a container runs.
pub fn ensure_container_running(event: RunningEvent) -> (res: RunningAction)
    ensures
        res@ == running_step(event),
{
    match event {
        RunningEvent::Inspected(output) => if output.exit_code == 0 {
            judge_running(output.stdout.as_str(), ContainerRuntimeAccess::Direct)
        } else if is_permission_error(&output) {
            RunningAction::ProbeSudo
        } else {
            RunningAction::Fail(command_error(&output))
        },
        RunningEvent::SudoProbed { exit_code } => if exit_code == 0 {
            RunningAction::InspectAsRoot
        } else {
            RunningAction::Fail(copy(CONTAINER_PERMISSION))
        },
        RunningEvent::InspectedAsRoot(output) => if output.exit_code == 0 {
            judge_running(output.stdout.as_str(), ContainerRuntimeAccess::PasswordlessSudo)
        } else {
            RunningAction::Fail(command_error(&output))
        },
    }
}

/// Sudo is used only where the runtime was closed to the session.
pub proof fn sudo_is_used_where_needed(event: RunningEvent)
    ensures
        running_step(event) == RunningActionView::Running(ContainerRuntimeAccess::PasswordlessSudo)
            ==> event is InspectedAsRoot,
        running_step(event) is ProbeSudo ==> (match event {
            RunningEvent::Inspected(output) => output.exit_code != 0 && lacks_rights(output),
            _ => false,
        }),
{
}

pub fn check_container(container: &str) -> (res: Result<(), String>)
    ensures
        error_result(res) == if trim(container@).len() == 0 {
            Err::<(), Seq<char>>("Choose a container first"@)
        } else {
            Ok(())
        },
{
    if trim_str(container).as_str().is_empty() {
        Err(copy("Choose a container first"))
    } else {
        Ok(())
    }
}

/// The command of a terminal in a container.
pub open spec fn exec_text(
    runtime: Seq<char>,
    container: Seq<char>,
    shell: Seq<char>,
    access: ContainerRuntimeAccess,
) -> Seq<char> {
    "exec "@ + (match access {
        ContainerRuntimeAccess::Direct => Seq::empty(),
        ContainerRuntimeAccess::PasswordlessSudo => "sudo -n "@,
    }) + runtime + " exec -it "@ + quoted(container) + " "@ + quoted(shell)
}

/// The command of a terminal in a container.
pub fn container_exec(runtime: &str, container: &str, shell: &str, access: ContainerRuntimeAccess) -> (res:
    ContainerExec)
    ensures
        res@ == (ContainerExecView {
            command: exec_text(runtime@, container@, shell@, access),
            shell: shell@,
        }),
{
    proof {
        reveal_strlit("");
        assert(""@ =~= Seq::empty());
    }
    let privilege = match access {
        ContainerRuntimeAccess::Direct => "",
        ContainerRuntimeAccess::PasswordlessSudo => "sudo -n ",
    };
    let mut command = glue3("exec ", privilege, runtime);
    command.append(" exec -it ");
    command.append(quote_shell(container).as_str());
    command.append(" ");
    command.append(quote_shell(shell).as_str());
    ContainerExec { command, shell: copy(shell) }
}

/// The runtime that is chosen is one that was probed and can be used; one that needs root is
/// chosen only where none can be used without. Without any, the reasons are told.
pub proof fn chosen_runtimes_were_probed(probes: Seq<RuntimeProbeView>)
    ensures
        chosen_runtime(probes) matches Ok(runtime) ==> exists|i: int|
            0 <= i < probes.len() && (#[trigger] probes[i]).runtime == runtime && (probes[i].verdict
                is Usable || (probes[i].verdict is NeedsRoot && forall|j: int|
                0 <= j < probes.len() ==> (#[trigger] probes[j]).verdict !is Usable)),
        chosen_runtime(probes) is Err ==> forall|i: int|
            0 <= i < probes.len() ==> (#[trigger] probes[i]).verdict is Broken,
        chosen_runtime(Seq::empty()) == Err::<Seq<char>, Seq<char>>(
            "Docker or Podman is not installed on this server"@,
        ),
{
    lemma_first_with(probes, ProbeVerdictView::Usable);
    lemma_first_with(probes, ProbeVerdictView::NeedsRoot);
    assert forall|i: int| 0 <= i < probes.len() && chosen_runtime(probes) is Err implies (
    #[trigger] probes[i]).verdict is Broken by {
        assert(probes[i].verdict != ProbeVerdictView::Usable);
        assert(probes[i].verdict != ProbeVerdictView::NeedsRoot);
    }
    if let Some(runtime) = first_with(probes, ProbeVerdictView::Usable) {
        let i = choose|i: int|
            0 <= i < probes.len() && (#[trigger] probes[i]).runtime == runtime && probes[i].verdict
                == ProbeVerdictView::Usable;
        assert(probes[i].verdict is Usable);
    } else if let Some(runtime) = first_with(probes, ProbeVerdictView::NeedsRoot) {
        let i = choose|i: int|
            0 <= i < probes.len() && (#[trigger] probes[i]).runtime == runtime && probes[i].verdict
                == ProbeVerdictView::NeedsRoot;
        assert(probes[i].verdict is NeedsRoot);
        assert forall|j: int| 0 <= j < probes.len() implies (#[trigger] probes[j]).verdict
            !is Usable by {
            assert(probes[j].verdict != ProbeVerdictView::Usable);
        }
    }
}

proof fn lemma_first_with(probes: Seq<RuntimeProbeView>, verdict: ProbeVerdictView)
    ensures
        match first_with(probes, verdict) {
            Some(runtime) => exists|i: int|
                0 <= i < probes.len() && (#[trigger] probes[i]).runtime == runtime
                    && probes[i].verdict == verdict,
            None => forall|i: int|
                0 <= i < probes.len() ==> (#[trigger] probes[i]).verdict != verdict,
        },
    decreases probes.len(),
{
    if probes.len() > 0 {
        let rest = probes.drop_last();
        lemma_first_with(rest, verdict);
        match first_with(rest, verdict) {
            Some(runtime) => {
                let i = choose|i: int|
                    0 <= i < rest.len() && (#[trigger] rest[i]).runtime == runtime
                        && rest[i].verdict == verdict;
                assert(probes[i] == rest[i]);
            },
            None => {
                assert(probes[probes.len() - 1] == probes.last());
                assert forall|i: int| 0 <= i < rest.len() implies (#[trigger] probes[i]).verdict
                    != verdict by {
                    assert(rest[i] == probes[i]);
                }
            },
        }
    }
}

/// A runtime is usable where it answers, needs root where it refuses for lack of rights, and
/// is broken otherwise. Docker is tried before Podman, and only what is installed is tried.
pub proof fn runtimes_are_judged(runtime: Seq<char>, output: ExecOutput, error: String)
    ensures
        verdict_of(runtime, Ok(output)) is Usable <==> output.exit_code == 0,
        verdict_of(runtime, Ok(output)) is NeedsRoot <==> output.exit_code != 0 && lacks_rights(
            output,
        ),
        verdict_of(runtime, Err(error)) == ProbeVerdictView::Broken(runtime + ": "@ + error@),
        candidates(true, true) == seq!["docker"@, "podman"@],
        candidates(true, false) == seq!["docker"@],
        candidates(false, true) == seq!["podman"@],
        candidates(false, false).len() == 0,
{
    assert(candidates(true, true) =~= seq!["docker"@, "podman"@]);
    assert(candidates(true, false) =~= seq!["docker"@]);
    assert(candidates(false, true) =~= seq!["podman"@]);
}

/// A shell that answers is taken; one that is not there is followed by the next, until there
/// is none; where rights are lacking the same shell is tried as root, and a terminal, which
/// cannot be, fails.
pub proof fn shells_are_found(index: usize, output: ExecOutput, text: String)
    requires
        index < 4,
    ensures
        output.exit_code == 0 ==> shell_step(index, ShellEvent::Ran(output))
            == ShellActionView::Found(index) && terminal_shell_step(index, output)
            == ShellActionView::Found(index),
        output.exit_code != 0 && lacks_rights(output) ==> shell_step(index, ShellEvent::Ran(output))
            == ShellActionView::ProbeAsRoot(index) && terminal_shell_step(index, output) is Fail,
        (output.exit_code == 126 || output.exit_code == 127) && !lacks_rights(output) ==> {
            &&& shell_step(index, ShellEvent::Ran(output)) == terminal_shell_step(index, output)
            &&& index < 3 ==> terminal_shell_step(index, output) == ShellActionView::Probe(
                (index + 1) as usize,
            )
            &&& index == 3 ==> terminal_shell_step(index, output) is Fail
        },
        shell_step(index, ShellEvent::RanAsRoot(Ok(text))) == ShellActionView::Found(index),
        shells() == seq!["/bin/sh"@, "/bin/bash"@, "/bin/ash"@, "/bin/zsh"@],
{
}

/// What is run in a container names the container and the shell, each as one word; and
/// where sudo is needed it is sudo that runs the same.
pub proof fn containers_are_entered_by_name(
    runtime: Seq<char>,
    container: Seq<char>,
    shell: Seq<char>,
    command: Seq<char>,
)
    ensures
        exec_text(runtime, container, shell, ContainerRuntimeAccess::Direct) == "exec "@ + (runtime
            + " exec -it "@ + quoted(container) + " "@ + quoted(shell)),
        exec_text(runtime, container, shell, ContainerRuntimeAccess::PasswordlessSudo) == "exec "@
            + "sudo -n "@ + (runtime + " exec -it "@ + quoted(container) + " "@ + quoted(shell)),
        accessed(command, ContainerRuntimeAccess::Direct) == command,
        accessed(command, ContainerRuntimeAccess::PasswordlessSudo) == "sudo -n sh -c "@ + quoted(
            command,
        ),
        shell_probe_text(runtime, container, shell) == runtime + " exec "@ + quoted(container)
            + " "@ + quoted(shell) + " -c "@ + quoted("exit"@),
        running_text(runtime, container) == runtime + " inspect --format "@ + quoted(
            "{{.State.Running}}"@,
        ) + " "@ + quoted(container),
{
    let none = Seq::<char>::empty();
    let rest = runtime + " exec -it "@ + quoted(container) + " "@ + quoted(shell);
    assert("exec "@ + none + runtime + " exec -it "@ + quoted(container) + " "@ + quoted(shell)
        =~= "exec "@ + rest);
    assert("exec "@ + "sudo -n "@ + runtime + " exec -it "@ + quoted(container) + " "@ + quoted(
        shell,
    ) =~= "exec "@ + "sudo -n "@ + rest);
}

/// A container is entered only where the runtime says that it runs, with the access by
/// which that was found out.
pub proof fn only_running_containers_are_entered(output: ExecOutput, exit_code: i32)
    ensures
        running_step(RunningEvent::Inspected(output)) == RunningActionView::Running(
            ContainerRuntimeAccess::Direct,
        ) <==> output.exit_code == 0 && trim(output.stdout@) == "true"@,
        running_step(RunningEvent::InspectedAsRoot(output)) == RunningActionView::Running(
            ContainerRuntimeAccess::PasswordlessSudo,
        ) <==> output.exit_code == 0 && trim(output.stdout@) == "true"@,
        output.exit_code != 0 && lacks_rights(output) ==> running_step(
            RunningEvent::Inspected(output),
        ) is ProbeSudo,
        running_step(RunningEvent::SudoProbed { exit_code }) is InspectAsRoot <==> exit_code == 0,
        running_step(RunningEvent::SudoProbed { exit_code }) !is Running,
{
}

/// A runtime is asked for its information, which changes nothing.
pub proof fn runtimes_are_asked(runtime: Seq<char>)
    ensures
        probe_text(runtime) == runtime + " info >/dev/null"@,
        RUNTIME_PROBE_TIMEOUT_SECONDS == 8,
        SHELL_COUNT == 4,
{
}

} // verus!
