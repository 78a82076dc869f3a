//! Where logs come from, and the commands that read them.
use crate::models::{LogsRequest, LogsRequestView};
use crate::numbers::{decimal, format_unsigned};
use crate::providers::services::{is_unit_name, validate_unit_name};
use crate::ssh::{error_result, quote_shell, quoted, text_result};
use crate::text::{
    all_chars, begins_with, chars_of, copy, every_char, glue2, glue3, glue5, has_char,
    is_alphanumeric, is_space, opt_view, same, starts_with, string_of, trim, trim_str,
    trimming_takes_off_spaces,
};
use crate::tier3::compose::{compose_command, compose_text};
use vstd::prelude::*;

verus! {

broadcast use vstd::string::group_string_axioms;

pub const MAX_LOG_LINES: u32 = 5000;

// ---------------------------------------------------------------------------
// Values
// ---------------------------------------------------------------------------

/// The trimmed text, where there is one that is not blank.
pub open spec fn present(value: Option<Seq<char>>) -> Option<Seq<char>> {
    match value {
        Some(text) => if trim(text).len() > 0 {
            Some(trim(text))
        } else {
            None
        },
        None => None,
    }
}

fn present_value(value: &Option<String>) -> (res: Option<String>)
    ensures
        opt_view(res) == present(opt_view(*value)),
{
    match value {
        Some(text) => {
            let text = trim_str(text.as_str());
            if text.as_str().is_empty() {
                None
            } else {
                Some(text)
            }
        },
        None => None,
    }
}

/// Where the log is: a file, a project or a container that is named goes before the source
/// that was chosen.
pub open spec fn log_source(request: LogsRequestView) -> Seq<char> {
    if present(request.file_path) is Some {
        "file"@
    } else if present(request.compose_path) is Some {
        "compose"@
    } else if present(request.container) is Some {
        "container"@
    } else {
        request.source
    }
}

pub fn resolved_log_source(request: &LogsRequest) -> (res: String)
    ensures
        res@ == log_source(request@),
{
    if present_value(&request.file_path).is_some() {
        copy("file")
    } else if present_value(&request.compose_path).is_some() {
        copy("compose")
    } else if present_value(&request.container).is_some() {
        copy("container")
    } else {
        request.source.clone()
    }
}

pub open spec fn breaks_line(s: Seq<char>) -> bool {
    s.contains('\n') || s.contains('\r') || s.contains('\0')
}

fn has_line_break(s: &[char]) -> (res: bool)
    ensures
        res == breaks_line(s@),
{
    has_char(s, '\n') || has_char(s, '\r') || has_char(s, '\0')
}

pub open spec fn log_path_verdict(path: Seq<char>) -> Result<(), Seq<char>> {
    if !starts_with(path, "/"@) || breaks_line(path) {
        Err("Enter an absolute log file path"@)
    } else {
        Ok(())
    }
}

pub fn validate_log_path(path: &str) -> (res: Result<(), String>)
    ensures
        error_result(res) == log_path_verdict(path@),
{
    let chars = chars_of(path);
    if !begins_with(&chars, "/") || has_line_break(&chars) {
        Err(copy("Enter an absolute log file path"))
    } else {
        Ok(())
    }
}

pub open spec fn simple_char() -> spec_fn(char) -> bool {
    |c: char| is_alphanumeric(c) || c == '_' || c == '-' || c == '.'
}

pub open spec fn simple_name_verdict(name: Seq<char>, label: Seq<char>) -> Result<(), Seq<char>> {
    if every_char(name, simple_char()) {
        Ok(())
    } else {
        Err("Invalid "@ + label)
    }
}

pub fn validate_simple_log_name(name: &str, label: &str) -> (res: Result<(), String>)
    ensures
        error_result(res) == simple_name_verdict(name@, label@),
{
    let test = |c: char| -> (r: bool)
        ensures
            r == simple_char()(c),
        { crate::text::alphanumeric(c) || c == '_' || c == '-' || c == '.' };
    if all_chars(&chars_of(name), test, Ghost(simple_char())) {
        Ok(())
    } else {
        Err(glue2("Invalid ", label))
    }
}

/// Whether a character has a meaning in a pattern.
pub open spec fn is_pattern_char(c: char) -> bool {
    c == '\\' || c == '.' || c == '^' || c == '$' || c == '|' || c == '(' || c == ')' || c == '['
        || c == ']' || c == '{' || c == '}' || c == '*' || c == '+' || c == '?'
}

/// A pattern that matches a text as it stands.
pub open spec fn literal_pattern(text: Seq<char>) -> Seq<char>
    decreases text.len(),
{
    if text.len() == 0 {
        Seq::empty()
    } else {
        let before = literal_pattern(text.drop_last());
        if is_pattern_char(text.last()) {
            before.push('\\').push(text.last())
        } else {
            before.push(text.last())
        }
    }
}

pub fn journal_grep_pattern(text: &str) -> (res: String)
    ensures
        res@ == literal_pattern(text@),
{
    let chars = chars_of(text);
    let mut out: Vec<char> = Vec::new();
    let mut i: usize = 0;
    assert(chars@.take(0) =~= Seq::empty());
    while i < chars.len()
        invariant
            i <= chars@.len(),
            out@ == literal_pattern(chars@.take(i as int)),
        decreases chars@.len() - i,
    {
        assert(chars@.take(i + 1).drop_last() =~= chars@.take(i as int));
        assert(chars@.take(i + 1).last() == chars@[i as int]);
        let c = chars[i];
        if c == '\\' || c == '.' || c == '^' || c == '$' || c == '|' || c == '(' || c == ')' || c
            == '[' || c == ']' || c == '{' || c == '}' || c == '*' || c == '+' || c == '?' {
            out.push('\\');
        }
        out.push(c);
        i += 1;
    }
    assert(chars@.take(chars@.len() as int) =~= chars@);
    string_of(&out)
}

/// The text that a pattern without operators matches: each escaped character for itself.
pub open spec fn unescaped(pattern: Seq<char>) -> Option<Seq<char>>
    decreases pattern.len(),
{
    if pattern.len() == 0 {
        Some(Seq::empty())
    } else if pattern.last() == '\\' || is_pattern_char(pattern.last()) {
        if pattern.len() >= 2 && pattern[pattern.len() - 2] == '\\' {
            match unescaped(pattern.take(pattern.len() - 2)) {
                Some(text) => Some(text.push(pattern.last())),
                None => None,
            }
        } else {
            None
        }
    } else {
        match unescaped(pattern.drop_last()) {
            Some(text) => Some(text.push(pattern.last())),
            None => None,
        }
    }
}

/// A text that is searched for is matched as it stands, whatever characters it has.
pub proof fn searches_are_literal(text: Seq<char>)
    ensures
        unescaped(literal_pattern(text)) == Some(text),
    decreases text.len(),
{
    if text.len() > 0 {
        searches_are_literal(text.drop_last());
        let before = literal_pattern(text.drop_last());
        let whole = literal_pattern(text);
        assert(text.drop_last().push(text.last()) =~= text);
        if is_pattern_char(text.last()) {
            assert(whole.take(whole.len() - 2) =~= before);
        } else {
            assert(whole.drop_last() =~= before);
        }
    }
}

// ---------------------------------------------------------------------------
// Times
// ---------------------------------------------------------------------------

/// Today's midnight, as the server's shell computes it.
pub const TODAY: &'static str = "\"$(date '+%Y-%m-%dT00:00:00%z' | sed 's/\\([+-][0-9][0-9]\\)\\([0-9][0-9]\\)$/\\1:\\2/')\"";

/// The time filter of a runtime.
pub open spec fn since_value(since: Option<Seq<char>>) -> Result<Option<Seq<char>>, Seq<char>> {
    match present(since) {
        None => Ok(None),
        Some(value) => if breaks_line(value) {
            Err("Invalid log time filter"@)
        } else if value == "1 hour ago"@ {
            Ok(Some("1h"@))
        } else {
            Ok(Some(value))
        },
    }
}

pub open spec fn optional_result(res: Result<Option<String>, String>) -> Result<
    Option<Seq<char>>,
    Seq<char>,
> {
    match res {
        Ok(value) => Ok(opt_view(value)),
        Err(error) => Err(error@),
    }
}

/// The time filter of a runtime.
pub fn docker_since_argument(since: &Option<String>) -> (res: Result<Option<String>, String>)
    ensures
        optional_result(res) == since_value(opt_view(*since)),
{
    match present_value(since) {
        None => Ok(None),
        Some(value) => if has_line_break(&chars_of(value.as_str())) {
            Err(copy("Invalid log time filter"))
        } else if same(value.as_str(), "1 hour ago") {
            Ok(Some(copy("1h")))
        } else {
            Ok(Some(value))
        },
    }
}

/// The time filter as it stands in a command.
pub open spec fn since_word(since: Option<Seq<char>>) -> Result<Option<Seq<char>>, Seq<char>> {
    match since_value(since) {
        Err(error) => Err(error),
        Ok(None) => Ok(None),
        Ok(Some(value)) => if value == "today"@ {
            Ok(Some(TODAY@))
        } else {
            Ok(Some(quoted(value)))
        },
    }
}

/// The time filter as it stands in a command.
pub fn docker_since_shell_argument(since: &Option<String>) -> (res: Result<Option<String>, String>)
    ensures
        optional_result(res) == since_word(opt_view(*since)),
{
    match docker_since_argument(since) {
        Err(error) => Err(error),
        Ok(None) => Ok(None),
        Ok(Some(value)) => if same(value.as_str(), "today") {
            Ok(Some(copy(TODAY)))
        } else {
            Ok(Some(quote_shell(value.as_str())))
        },
    }
}

/// A time filter with its flag.
pub open spec fn since_flag(word: Option<Seq<char>>) -> Seq<char> {
    match word {
        Some(word) => " --since "@ + word,
        None => Seq::empty(),
    }
}

pub(crate) fn append_since(out: &mut String, word: &Option<String>)
    ensures
        final(out)@ == old(out)@ + since_flag(opt_view(*word)),
{
    let ghost before = out@;
    match word {
        Some(word) => {
            out.append(" --since ");
            out.append(word.as_str());
            assert(out@ =~= before + (" --since "@ + word@));
        },
        None => {
            assert(out@ =~= before + Seq::<char>::empty());
        },
    }
}

/// How many lines are asked for: at least one, unless the log is followed.
pub open spec fn line_count(lines: u32, follow: bool) -> u32 {
    if lines > MAX_LOG_LINES {
        MAX_LOG_LINES
    } else if lines < 1 && !follow {
        1
    } else {
        lines
    }
}

pub fn log_lines(lines: u32, follow: bool) -> (res: u32)
    ensures
        res == line_count(lines, follow),
        res <= MAX_LOG_LINES,
{
    if lines > MAX_LOG_LINES {
        MAX_LOG_LINES
    } else if lines < 1 && !follow {
        1
    } else {
        lines
    }
}

// ---------------------------------------------------------------------------
// Commands
// ---------------------------------------------------------------------------

/// Reads the log of a container, or follows it.
pub open spec fn container_log_text(
    runtime: Seq<char>,
    container: Seq<char>,
    lines: u32,
    since: Option<Seq<char>>,
    follow: bool,
) -> Result<Seq<char>, Seq<char>> {
    match since_word(since) {
        Err(error) => Err(error),
        Ok(word) => Ok(
            runtime + (if follow {
                " logs --follow --tail "@
            } else {
                " logs --tail "@
            }) + decimal(line_count(lines, follow) as nat) + since_flag(word) + " "@ + quoted(
                container,
            ),
        ),
    }
}

/// Reads the log of a container, or follows it.
pub fn docker_logs_command(
    runtime: &str,
    container: &str,
    lines: u32,
    since: &Option<String>,
    follow: bool,
) -> (res: Result<String, String>)
    ensures
        text_result(res) == container_log_text(
            runtime@,
            container@,
            lines,
            opt_view(*since),
            follow,
        ),
{
    let word = match docker_since_shell_argument(since) {
        Err(error) => {
            return Err(error);
        },
        Ok(word) => word,
    };
    let mut out = copy(runtime);
    out.append(
        if follow {
            " logs --follow --tail "
        } else {
            " logs --tail "
        },
    );
    out.append(format_unsigned(log_lines(lines, follow) as u64).as_str());
    append_since(&mut out, &word);
    out.append(" ");
    out.append(quote_shell(container).as_str());
    Ok(out)
}

/// The arguments that read the logs of a project, or of one of its services.
pub open spec fn compose_log_arguments(
    lines: u32,
    since: Option<Seq<char>>,
    service: Option<Seq<char>>,
    follow: bool,
) -> Result<Seq<char>, Seq<char>> {
    match since_word(since) {
        Err(error) => Err(error),
        Ok(word) => {
            let start = "logs --tail "@ + decimal(line_count(lines, follow) as nat) + (if follow {
                " --follow"@
            } else {
                Seq::empty()
            }) + since_flag(word);
            match present(service) {
                Some(name) => match simple_name_verdict(name, "Compose service"@) {
                    Err(error) => Err(error),
                    Ok(()) => Ok(start + " "@ + quoted(name)),
                },
                None => Ok(start),
            }
        },
    }
}

pub fn compose_logs_arguments(
    lines: u32,
    since: &Option<String>,
    service: &Option<String>,
    follow: bool,
) -> (res: Result<String, String>)
    ensures
        text_result(res) == compose_log_arguments(
            lines,
            opt_view(*since),
            opt_view(*service),
            follow,
        ),
{
    let word = match docker_since_shell_argument(since) {
        Err(error) => {
            return Err(error);
        },
        Ok(word) => word,
    };
    proof {
        reveal_strlit("");
        assert(""@ =~= Seq::empty());
    }
    let mut out = glue3(
        "logs --tail ",
        format_unsigned(log_lines(lines, follow) as u64).as_str(),
        if follow {
            " --follow"
        } else {
            ""
        },
    );
    append_since(&mut out, &word);
    match present_value(service) {
        Some(name) => match validate_simple_log_name(name.as_str(), "Compose service") {
            Err(error) => Err(error),
            Ok(()) => {
                out.append(" ");
                out.append(quote_shell(name.as_str()).as_str());
                Ok(out)
            },
        },
        None => Ok(out),
    }
}

/// Reads the end of a file, or follows it.
pub open spec fn tail_text(path: Seq<char>, lines: u32, follow: bool) -> Seq<char> {
    "tail -n "@ + decimal(line_count(lines, follow) as nat) + (if follow {
        " -F -- "@
    } else {
        "  -- "@
    }) + quoted(path)
}

pub fn tail_command(path: &str, lines: u32, follow: bool) -> (res: String)
    ensures
        res@ == tail_text(path@, lines, follow),
{
    let mut out = glue3(
        "tail -n ",
        format_unsigned(log_lines(lines, follow) as u64).as_str(),
        if follow {
            " -F -- "
        } else {
            "  -- "
        },
    );
    out.append(quote_shell(path).as_str());
    out
}

/// Runs a command in a container.
pub open spec fn inside_text(
    runtime: Seq<char>,
    container: Seq<char>,
    shell: Seq<char>,
    command: Seq<char>,
) -> Seq<char> {
    runtime + " exec "@ + quoted(container) + " "@ + quoted(shell) + " -c "@ + quoted(command)
}

pub fn inside_container(runtime: &str, container: &str, shell: &str, command: &str) -> (res: String)
    ensures
        res@ == inside_text(runtime@, container@, shell@, command@),
{
    let mut out = glue5(
        runtime,
        " exec ",
        quote_shell(container).as_str(),
        " ",
        quote_shell(shell).as_str(),
    );
    out.append(" -c ");
    out.append(quote_shell(command).as_str());
    out
}

/// A flag with the quoted trimmed value, where there is one.
pub open spec fn present_flag(flag: Seq<char>, value: Option<Seq<char>>) -> Seq<char> {
    match present(value) {
        Some(text) => flag + quoted(text),
        None => Seq::empty(),
    }
}

fn append_present(out: &mut String, flag: &str, value: &Option<String>)
    ensures
        final(out)@ == old(out)@ + present_flag(flag@, opt_view(*value)),
{
    let ghost before = out@;
    match present_value(value) {
        Some(text) => {
            out.append(flag);
            out.append(quote_shell(text.as_str()).as_str());
            assert(out@ =~= before + (flag@ + quoted(text@)));
        },
        None => {
            assert(out@ =~= before + Seq::<char>::empty());
        },
    }
}

pub open spec fn severity_text(severity: Option<Seq<char>>) -> Result<Seq<char>, Seq<char>> {
    match severity {
        None => Ok(Seq::empty()),
        Some(level) => if level == "error"@ {
            Ok(" -p err"@)
        } else if level == "warn"@ {
            Ok(" -p warning"@)
        } else if level == "all"@ {
            Ok(Seq::empty())
        } else {
            Err("Unsupported log severity"@)
        },
    }
}

fn severity_flag(severity: &Option<String>) -> (res: Result<String, String>)
    ensures
        text_result(res) == severity_text(opt_view(*severity)),
{
    match severity {
        None => Ok(String::new()),
        Some(level) => if same(level.as_str(), "error") {
            Ok(copy(" -p err"))
        } else if same(level.as_str(), "warn") {
            Ok(copy(" -p warning"))
        } else if same(level.as_str(), "all") {
            Ok(String::new())
        } else {
            Err(copy("Unsupported log severity"))
        },
    }
}

/// Reads the journal, or follows it.
pub open spec fn journal_log_text(request: LogsRequestView, follow: bool) -> Result<
    Seq<char>,
    Seq<char>,
> {
    let unit_is_bad = match present(request.service) {
        Some(name) => !is_unit_name(name),
        None => false,
    };
    if unit_is_bad {
        Err("Invalid systemd service name"@)
    } else {
        match severity_text(request.severity) {
            Err(error) => Err(error),
            Ok(severity) => Ok(
                "journalctl -n "@ + decimal(line_count(request.lines, follow) as nat)
                    + " --no-pager -o short-iso"@ + (if follow {
                    " --follow"@
                } else {
                    Seq::empty()
                }) + present_flag(" -u "@, request.service) + present_flag(
                    " --since "@,
                    request.since,
                ) + (match present(request.query) {
                    Some(query) => " --grep "@ + quoted(literal_pattern(query)),
                    None => Seq::empty(),
                }) + severity,
            ),
        }
    }
}

fn journal_log_command(request: &LogsRequest, follow: bool) -> (res: Result<String, String>)
    ensures
        text_result(res) == journal_log_text(request@, follow),
{
    match present_value(&request.service) {
        Some(name) => {
            match validate_unit_name(name.as_str()) {
                Err(error) => {
                    return Err(error);
                },
                Ok(()) => {},
            }
        },
        None => {},
    }
    let severity = match severity_flag(&request.severity) {
        Err(error) => {
            return Err(error);
        },
        Ok(severity) => severity,
    };
    proof {
        reveal_strlit("");
        assert(""@ =~= Seq::empty());
    }
    let mut out = glue3(
        "journalctl -n ",
        format_unsigned(log_lines(request.lines, follow) as u64).as_str(),
        " --no-pager -o short-iso",
    );
    out.append(
        if follow {
            " --follow"
        } else {
            ""
        },
    );
    append_present(&mut out, " -u ", &request.service);
    append_present(&mut out, " --since ", &request.since);
    let ghost before = out@;
    match present_value(&request.query) {
        Some(query) => {
            out.append(" --grep ");
            out.append(quote_shell(journal_grep_pattern(query.as_str()).as_str()).as_str());
            assert(out@ =~= before + (" --grep "@ + quoted(literal_pattern(query@))));
        },
        None => {
            assert(out@ =~= before + Seq::<char>::empty());
        },
    }
    out.append(severity.as_str());
    Ok(out)
}

/// Reads the system's log, by what the server offers.
pub open spec fn system_log_text(
    request: LogsRequestView,
    journalctl: bool,
    logread: bool,
    follow: bool,
) -> Result<Seq<char>, Seq<char>> {
    if journalctl {
        journal_log_text(request, follow)
    } else if logread {
        if follow {
            Err("Live streaming is unavailable for this syslog buffer"@)
        } else {
            Ok("logread -l "@ + decimal(line_count(request.lines, follow) as nat))
        }
    } else {
        Err("No supported system log source is available on this server"@)
    }
}

/// Reads the system's log, by what the server offers.
pub fn system_log_command(
    request: &LogsRequest,
    journalctl: bool,
    logread: bool,
    follow: bool,
) -> (res: Result<String, String>)
    ensures
        text_result(res) == system_log_text(request@, journalctl, logread, follow),
{
    if journalctl {
        journal_log_command(request, follow)
    } else if logread {
        if follow {
            Err(copy("Live streaming is unavailable for this syslog buffer"))
        } else {
            Ok(
                glue2(
                    "logread -l ",
                    format_unsigned(log_lines(request.lines, follow) as u64).as_str(),
                ),
            )
        }
    } else {
        Err(copy("No supported system log source is available on this server"))
    }
}

/// What has to be known of the server before the command of a log can be written.
#[derive(Debug, PartialEq, Eq)]
pub enum LogPlan {
    /// Nothing: this is the command.
    Ready(String),
    /// The runtime, for the log of a container.
    Runtime { container: String },
    /// The runtime and a shell of the container, for a file in it.
    Shell { container: String, command: String },
    /// What the server offers, for the system's log.
    Capabilities,
}

#[verifier::ext_equal]
pub enum LogPlanView {
    Ready(Seq<char>),
    Runtime { container: Seq<char> },
    Shell { container: Seq<char>, command: Seq<char> },
    Capabilities,
}

impl View for LogPlan {
    type V = LogPlanView;

    open spec fn view(&self) -> LogPlanView {
        match *self {
            LogPlan::Ready(command) => LogPlanView::Ready(command@),
            LogPlan::Runtime { container } => LogPlanView::Runtime { container: container@ },
            LogPlan::Shell { container, command } => LogPlanView::Shell {
                container: container@,
                command: command@,
            },
            LogPlan::Capabilities => LogPlanView::Capabilities,
        }
    }
}

pub open spec fn plan_result(res: Result<LogPlan, String>) -> Result<LogPlanView, Seq<char>> {
    match res {
        Ok(plan) => Ok(plan@),
        Err(error) => Err(error@),
    }
}

/// A command for a file, on the server or in the container that is named.
pub open spec fn file_plan(container: Option<Seq<char>>, command: Seq<char>) -> LogPlanView {
    match present(container) {
        Some(container) => LogPlanView::Shell { container, command },
        None => LogPlanView::Ready(command),
    }
}

fn plan_file(container: &Option<String>, command: String) -> (res: LogPlan)
    ensures
        res@ == file_plan(opt_view(*container), command@),
{
    match present_value(container) {
        Some(container) => LogPlan::Shell { container, command },
        None => LogPlan::Ready(command),
    }
}

/// The command of a log, or what it takes to write it.
pub open spec fn log_plan(request: LogsRequestView, follow: bool) -> Result<LogPlanView, Seq<char>> {
    let source = log_source(request);
    if source == "container"@ || source == "docker"@ {
        match present(request.container) {
            Some(container) => Ok(LogPlanView::Runtime { container }),
            None => Err("Choose a container first"@),
        }
    } else if source == "compose"@ {
        match present(request.compose_path) {
            None => Err("Choose a Compose project first"@),
            Some(path) => if breaks_line(path) {
                Err("Choose a valid Compose file"@)
            } else {
                match compose_log_arguments(request.lines, request.since, request.service, follow) {
                    Err(error) => Err(error),
                    Ok(arguments) => Ok(LogPlanView::Ready(compose_text(path, arguments))),
                }
            },
        }
    } else if source == "file"@ {
        match present(request.file_path) {
            None => Err("Choose a log file first"@),
            Some(path) => match log_path_verdict(path) {
                Err(error) => Err(error),
                Ok(()) => Ok(
                    file_plan(request.container, tail_text(path, request.lines, follow)),
                ),
            },
        }
    } else if source == "system"@ {
        Ok(LogPlanView::Capabilities)
    } else {
        Err("Unsupported log source"@)
    }
}

/// The command of a log, or what it takes to write it.
pub fn log_command(request: &LogsRequest, follow: bool) -> (res: Result<LogPlan, String>)
    ensures
        plan_result(res) == log_plan(request@, follow),
{
    let source = resolved_log_source(request);
    let source: &str = source.as_str();
    if same(source, "container") || same(source, "docker") {
        match present_value(&request.container) {
            Some(container) => Ok(LogPlan::Runtime { container }),
            None => Err(copy("Choose a container first")),
        }
    } else if same(source, "compose") {
        match present_value(&request.compose_path) {
            None => Err(copy("Choose a Compose project first")),
            Some(path) => {
                if has_line_break(&chars_of(path.as_str())) {
                    return Err(copy("Choose a valid Compose file"));
                }
                match compose_logs_arguments(
                    request.lines,
                    &request.since,
                    &request.service,
                    follow,
                ) {
                    Err(error) => Err(error),
                    Ok(arguments) => Ok(
                        LogPlan::Ready(compose_command(path.as_str(), arguments.as_str())),
                    ),
                }
            },
        }
    } else if same(source, "file") {
        match present_value(&request.file_path) {
            None => Err(copy("Choose a log file first")),
            Some(path) => match validate_log_path(path.as_str()) {
                Err(error) => Err(error),
                Ok(()) => Ok(
                    plan_file(
                        &request.container,
                        tail_command(path.as_str(), request.lines, follow),
                    ),
                ),
            },
        }
    } else if same(source, "system") {
        Ok(LogPlan::Capabilities)
    } else {
        Err(copy("Unsupported log source"))
    }
}

/// Tells whether a file can be read.
pub open spec fn readable_text(path: Seq<char>) -> Seq<char> {
    "if [ ! -e "@ + quoted(path) + " ] || [ -r "@ + quoted(path)
        + " ]; then exit 0; else echo 'Permission denied' >&2; exit 1; fi"@
}

fn readable_command(path: &str) -> (res: String)
    ensures
        res@ == readable_text(path@),
{
    let quoted_path = quote_shell(path);
    glue5(
        "if [ ! -e ",
        quoted_path.as_str(),
        " ] || [ -r ",
        quoted_path.as_str(),
        " ]; then exit 0; else echo 'Permission denied' >&2; exit 1; fi",
    )
}

/// The command that tells whether a log can be read, or what it takes to write it.
pub open spec fn access_plan(request: LogsRequestView) -> Result<LogPlanView, Seq<char>> {
    let source = log_source(request);
    if source == "system"@ {
        Ok(LogPlanView::Ready("journalctl -n 1 --no-pager >/dev/null"@))
    } else if source == "container"@ || source == "docker"@ {
        match present(request.container) {
            Some(container) => Ok(LogPlanView::Runtime { container }),
            None => Err("Choose a container first"@),
        }
    } else if source == "compose"@ {
        match present(request.compose_path) {
            None => Err("Choose a Compose project first"@),
            Some(path) => Ok(LogPlanView::Ready(compose_text(path, "ps"@) + " >/dev/null"@)),
        }
    } else if source == "file"@ {
        match present(request.file_path) {
            None => Err("Choose a log file first"@),
            Some(path) => match log_path_verdict(path) {
                Err(error) => Err(error),
                Ok(()) => Ok(file_plan(request.container, readable_text(path))),
            },
        }
    } else {
        Err("Unsupported log source"@)
    }
}

/// The command that tells whether a log can be read, or what it takes to write it.
pub fn log_access_command(request: &LogsRequest) -> (res: Result<LogPlan, String>)
    ensures
        plan_result(res) == access_plan(request@),
{
    let source = resolved_log_source(request);
    let source: &str = source.as_str();
    if same(source, "system") {
        Ok(LogPlan::Ready(copy("journalctl -n 1 --no-pager >/dev/null")))
    } else if same(source, "container") || same(source, "docker") {
        match present_value(&request.container) {
            Some(container) => Ok(LogPlan::Runtime { container }),
            None => Err(copy("Choose a container first")),
        }
    } else if same(source, "compose") {
        match present_value(&request.compose_path) {
            None => Err(copy("Choose a Compose project first")),
            Some(path) => Ok(
                LogPlan::Ready(
                    glue2(compose_command(path.as_str(), "ps").as_str(), " >/dev/null"),
                ),
            ),
        }
    } else if same(source, "file") {
        match present_value(&request.file_path) {
            None => Err(copy("Choose a log file first")),
            Some(path) => match validate_log_path(path.as_str()) {
                Err(error) => Err(error),
                Ok(()) => Ok(plan_file(&request.container, readable_command(path.as_str()))),
            },
        }
    } else {
        Err(copy("Unsupported log source"))
    }
}

/// Asks whether a container can be read.
pub open spec fn container_access_text(runtime: Seq<char>, container: Seq<char>) -> Seq<char> {
    runtime + " inspect "@ + quoted(container) + " >/dev/null"@
}

/// Tells whether the log of a container can be read.
pub fn container_access_command(runtime: &str, container: &str) -> (res: String)
    ensures
        res@ == container_access_text(runtime@, container@),
{
    let mut out = glue3(runtime, " inspect ", quote_shell(container).as_str());
    out.append(" >/dev/null");
    out
}

/// A log is followed where it is read: both need the same to be known, and a command that
/// needs nothing stands ready in both.
pub proof fn followed_logs_come_from_the_same_place(request: LogsRequestView)
    ensures
        log_plan(request, true) is Ok <==> log_plan(request, false) is Ok,
        log_plan(request, true) is Ok ==> match (
            log_plan(request, true)->Ok_0,
            log_plan(request, false)->Ok_0,
        ) {
            (LogPlanView::Ready(_), LogPlanView::Ready(_)) => true,
            (LogPlanView::Runtime { container: a }, LogPlanView::Runtime { container: b }) => a == b,
            (
                LogPlanView::Shell { container: a, .. },
                LogPlanView::Shell { container: b, .. },
            ) => a == b,
            (LogPlanView::Capabilities, LogPlanView::Capabilities) => true,
            _ => false,
        },
{
}

/// Logs come from the source that was asked for: a file before a Compose project, a project
/// before a container, and only then what the source names.
pub proof fn logs_come_from_what_was_asked_for(request: LogsRequestView, follow: bool)
    ensures
        request.file_path matches Some(path) ==> trim(path).len() > 0 ==> log_source(request)
            == "file"@,
        present(request.file_path) is None ==> present(request.compose_path) is Some ==> log_source(
            request,
        ) == "compose"@,
        present(request.file_path) is None && present(request.compose_path) is None && present(
            request.container,
        ) is Some ==> log_source(request) == "container"@,
        present(request.file_path) is None && present(request.compose_path) is None && present(
            request.container,
        ) is None ==> log_source(request) == request.source,
        log_plan(request, follow) matches Ok(plan) ==> match plan {
            LogPlanView::Runtime { container } => present(request.container) == Some(container)
                && present(request.file_path) is None && present(request.compose_path) is None,
            LogPlanView::Shell { container, command } => present(request.container) == Some(
                container,
            ) && (present(request.file_path) matches Some(path) && command == tail_text(
                path,
                request.lines,
                follow,
            )),
            LogPlanView::Ready(command) => match present(request.file_path) {
                Some(path) => present(request.container) is None && command == tail_text(
                    path,
                    request.lines,
                    follow,
                ),
                None => present(request.compose_path) matches Some(path) && starts_with(
                    command,
                    "if command -v docker >/dev/null 2>&1 && docker compose version >/dev/null 2>&1; then docker compose -f "@
                        + quoted(path),
                ),
            },
            LogPlanView::Capabilities => log_source(request) == "system"@,
        },
{
    reveal_strlit("container");
    reveal_strlit("docker");
    reveal_strlit("compose");
    reveal_strlit("file");
    reveal_strlit("system");
    assert("container"@.len() == 9);
    assert("docker"@.len() == 6);
    assert("compose"@.len() == 7);
    assert("file"@.len() == 4);
    assert("system"@.len() == 6);
    assert("docker"@[0] == 'd');
    assert("system"@[0] == 's');
    if let Some(path) = present(request.compose_path) {
        if let Ok(arguments) = compose_log_arguments(
            request.lines,
            request.since,
            request.service,
            follow,
        ) {
            let head = "if command -v docker >/dev/null 2>&1 && docker compose version >/dev/null 2>&1; then docker compose -f "@
                + quoted(path);
            let text = compose_text(path, arguments);
            assert(text.take(head.len() as int) =~= head);
        }
    }
}

/// A value counts where it is more than blanks, and then without the blanks around it.
pub proof fn blanks_count_as_nothing(value: Seq<char>)
    ensures
        present(None) is None,
        present(Some(value)) is Some <==> trim(value).len() > 0,
        present(Some(value)) matches Some(text) ==> text == trim(value),
{
}

/// The command of a file's or a container's log names it as one word, shows the lines that
/// were asked for, at most five thousand, and follows only where that was asked for.
pub proof fn log_commands_name_their_source(
    runtime: Seq<char>,
    container: Seq<char>,
    path: Seq<char>,
    lines: u32,
)
    requires
        1 <= lines <= 5000,
    ensures
        container_log_text(runtime, container, lines, None, false) == Ok::<Seq<char>, Seq<char>>(
            runtime + " logs --tail "@ + decimal(lines as nat) + " "@ + quoted(container),
        ),
        container_log_text(runtime, container, lines, None, true) == Ok::<Seq<char>, Seq<char>>(
            runtime + " logs --follow --tail "@ + decimal(lines as nat) + " "@ + quoted(container),
        ),
        tail_text(path, lines, false) == "tail -n "@ + decimal(lines as nat) + "  -- "@ + quoted(
            path,
        ),
        tail_text(path, lines, true) == "tail -n "@ + decimal(lines as nat) + " -F -- "@ + quoted(
            path,
        ),
        forall|more: u32| more > 5000 ==> #[trigger] line_count(more, false) == 5000,
        line_count(0, false) == 1,
        line_count(0, true) == 0,
{
    let none = Seq::<char>::empty();
    assert(present(None) is None);
    let a = runtime + " logs --tail "@ + decimal(lines as nat);
    let b = runtime + " logs --follow --tail "@ + decimal(lines as nat);
    assert(a + none =~= a);
    assert(b + none =~= b);
}

/// A path of a log is absolute and stands on one line; the names of services are plain.
pub proof fn log_names_are_checked(path: Seq<char>, name: Seq<char>, label: Seq<char>)
    ensures
        log_path_verdict(path) is Ok <==> path.len() > 0 && path[0] == '/' && !path.contains('\n')
            && !path.contains('\r') && !path.contains('\0'),
        simple_name_verdict(name, label) is Ok <==> forall|i: int|
            0 <= i < name.len() ==> is_alphanumeric(#[trigger] name[i]) || name[i] == '_' || name[i]
                == '-' || name[i] == '.',
{
    reveal_strlit("/");
    if path.len() > 0 {
        assert(path.take(1)[0] == path[0]);
        if path[0] == '/' {
            assert(path.take(1) =~= "/"@);
        }
    }
    if simple_name_verdict(name, label) is Ok {
        assert forall|i: int| 0 <= i < name.len() implies is_alphanumeric(#[trigger] name[i])
            || name[i] == '_' || name[i] == '-' || name[i] == '.' by {
            assert(simple_char()(name[i]));
        }
    }
}

/// The journal is asked for the unit, the time, the text and the severity that were asked
/// for, each as one word, and for nothing where nothing was.
pub proof fn journals_are_filtered_as_asked(request: LogsRequestView, follow: bool)
    ensures
        severity_text(Some("error"@)) == Ok::<Seq<char>, Seq<char>>(" -p err"@),
        severity_text(Some("warn"@)) == Ok::<Seq<char>, Seq<char>>(" -p warning"@),
        severity_text(Some("all"@)) == Ok::<Seq<char>, Seq<char>>(Seq::empty()),
        severity_text(None) == Ok::<Seq<char>, Seq<char>>(Seq::empty()),
        present(request.service) is None && present(request.since) is None && present(
            request.query,
        ) is None && request.severity is None ==> system_log_text(request, true, true, follow)
            == Ok::<Seq<char>, Seq<char>>(
            "journalctl -n "@ + decimal(line_count(request.lines, follow) as nat)
                + " --no-pager -o short-iso"@ + (if follow {
                " --follow"@
            } else {
                Seq::empty()
            }),
        ),
        present(request.service) matches Some(unit) ==> present(request.since) matches Some(since)
            ==> present(request.query) matches Some(query) ==> is_unit_name(unit)
            && request.severity == Some("error"@) ==> system_log_text(request, true, true, follow)
            == Ok::<Seq<char>, Seq<char>>(
            "journalctl -n "@ + decimal(line_count(request.lines, follow) as nat)
                + " --no-pager -o short-iso"@ + (if follow {
                " --follow"@
            } else {
                Seq::empty()
            }) + (" -u "@ + quoted(unit)) + (" --since "@ + quoted(since)) + (" --grep "@ + quoted(
                literal_pattern(query),
            )) + " -p err"@,
        ),
        present(request.service) matches Some(unit) ==> !is_unit_name(unit) ==> system_log_text(
            request,
            true,
            true,
            follow,
        ) is Err,
        system_log_text(request, false, true, false) == Ok::<Seq<char>, Seq<char>>(
            "logread -l "@ + decimal(line_count(request.lines, false) as nat),
        ),
        system_log_text(request, false, true, true) is Err,
        system_log_text(request, false, false, follow) is Err,
{
    reveal_strlit("error");
    reveal_strlit("warn");
    reveal_strlit("all");
    assert("error"@.len() == 5);
    assert("warn"@.len() == 4);
    assert("all"@.len() == 3);
    let none = Seq::<char>::empty();
    let head = "journalctl -n "@ + decimal(line_count(request.lines, follow) as nat)
        + " --no-pager -o short-iso"@ + (if follow {
        " --follow"@
    } else {
        none
    });
    assert(head + none =~= head);
}

/// A time filter is passed on as it was typed, as one word; today begins at midnight.
pub proof fn time_filters_are_passed_on(value: Seq<char>)
    requires
        value.len() > 0,
        !is_space(value[0]) && !is_space(value.last()),
        !value.contains('\n') && !value.contains('\r') && !value.contains('\0'),
    ensures
        value != "1 hour ago"@ && value != "today"@ ==> since_word(Some(value)) == Ok::<
            Option<Seq<char>>,
            Seq<char>,
        >(Some(quoted(value))),
        value == "1 hour ago"@ ==> since_word(Some(value)) == Ok::<Option<Seq<char>>, Seq<char>>(
            Some(quoted("1h"@)),
        ),
        value == "today"@ ==> since_word(Some(value)) == Ok::<Option<Seq<char>>, Seq<char>>(
            Some(TODAY@),
        ),
        since_word(None) == Ok::<Option<Seq<char>>, Seq<char>>(None),
{
    reveal_strlit("1 hour ago");
    reveal_strlit("today");
    reveal_strlit("1h");
    assert("1 hour ago"@.len() == 10);
    assert("today"@.len() == 5);
    assert("1h"@.len() == 2);
    let none = Seq::<char>::empty();
    assert(none + value + none =~= value);
    trimming_takes_off_spaces(none, value, none);
}

/// Whether a log can be read is asked of the log itself, and changes nothing.
pub proof fn access_is_asked_of_the_log(request: LogsRequestView, runtime: Seq<char>, container: Seq<char>)
    ensures
        container_access_text(runtime, container) == runtime + " inspect "@ + quoted(container)
            + " >/dev/null"@,
        log_source(request) == "system"@ ==> access_plan(request) == Ok::<LogPlanView, Seq<char>>(
            LogPlanView::Ready("journalctl -n 1 --no-pager >/dev/null"@),
        ),
        present(request.file_path) matches Some(path) ==> log_path_verdict(path) is Ok ==> present(
            request.container,
        ) is None ==> access_plan(request) == Ok::<LogPlanView, Seq<char>>(
            LogPlanView::Ready(
                "if [ ! -e "@ + quoted(path) + " ] || [ -r "@ + quoted(path)
                    + " ]; then exit 0; else echo 'Permission denied' >&2; exit 1; fi"@,
            ),
        ),
        present(request.container) matches Some(name) ==> log_source(request) == "container"@
            ==> access_plan(request) == Ok::<LogPlanView, Seq<char>>(
            LogPlanView::Runtime { container: name },
        ),
        inside_text(runtime, container, "sh"@, "x"@) == runtime + " exec "@ + quoted(container)
            + " "@ + quoted("sh"@) + " -c "@ + quoted("x"@),
{
    reveal_strlit("container");
    reveal_strlit("docker");
    reveal_strlit("compose");
    reveal_strlit("file");
    reveal_strlit("system");
    assert("container"@.len() == 9);
    assert("docker"@.len() == 6);
    assert("compose"@.len() == 7);
    assert("file"@.len() == 4);
    assert("system"@.len() == 6);
    assert("docker"@[0] == 'd');
    assert("system"@[0] == 's');
}

} // verus!
