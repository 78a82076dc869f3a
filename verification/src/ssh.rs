//! Remote commands: how they are quoted, how their output is bounded and read,
//! and what is reported when they fail.
use crate::models::{AuthMethod, ServerProfile, ServerProfileView};
use crate::numbers::{decimal, format_signed, format_unsigned, signed_decimal};
use crate::text::{
    after_prefix, chars_of, contains, contains_text, copy, find_text, join, join_strings,
    lemma_find_from, lemma_views_push, lower, lowered, matches_at, opt_view, piece, replace,
    replaced, starts_with, string_of, strip_prefix, trim, trim_str, views,
};
use crate::utf8::{byte_len, byte_length, lemma_byte_len_take, width_of};
use vstd::prelude::*;

verus! {

broadcast use vstd::string::group_string_axioms;

/// How long a command may stay silent, in seconds.
pub const COMMAND_TIMEOUT_SECONDS: u64 = 35;

/// How long a build, a pull or a package operation may stay silent, in seconds.
pub const LONG_COMMAND_TIMEOUT_SECONDS: u64 = 300;

/// How long the probe of a cached connection may stay silent, in seconds.
pub const CONNECTION_PROBE_TIMEOUT_SECONDS: u64 = 8;

/// How long a connection attempt may take, in seconds.
pub const CONNECT_TIMEOUT_SECONDS: u64 = 12;

/// Seconds between two keep-alive messages.
pub const KEEPALIVE_INTERVAL_SECONDS: u32 = 15;

/// The bound on each output stream of a command that sets none.
pub const DEFAULT_OUTPUT_LIMIT: usize = 16_777_216;

/// The bound on log output, in bytes.
pub const MAX_LOG_OUTPUT_BYTES: usize = 1_048_576;

pub const OPERATION_CANCELLED: &'static str = "Operation cancelled";

/// What a remote command printed, and how it ended.
#[derive(Debug, PartialEq, Eq)]
pub struct ExecOutput {
    pub stdout: String,
    pub stderr: String,
    pub exit_code: i32,
}

// ---------------------------------------------------------------------------
// Quoting
// ---------------------------------------------------------------------------

/// `value` as one word of a POSIX shell: between single quotes, each single quote
/// in it written as `'\''`.
pub open spec fn quoted(value: Seq<char>) -> Seq<char> {
    "'"@ + replace(value, "'"@, "'\\''"@) + "'"@
}

/// The word that a POSIX shell reads from `s`, where `s` is made of quoted parts
/// and escaped characters alone. `inside` says whether a quote is open.
pub open spec fn shell_word(s: Seq<char>, inside: bool) -> Option<Seq<char>>
    decreases s.len(),
{
    if s.len() == 0 {
        if inside {
            None
        } else {
            Some(Seq::empty())
        }
    } else if s[0] == '\'' {
        shell_word(s.skip(1), !inside)
    } else if inside {
        match shell_word(s.skip(1), true) {
            Some(rest) => Some(seq![s[0]] + rest),
            None => None,
        }
    } else if s[0] == '\\' && s.len() > 1 {
        match shell_word(s.skip(2), false) {
            Some(rest) => Some(seq![s[1]] + rest),
            None => None,
        }
    } else {
        None
    }
}

/// A quoted value is one word, and the shell reads it back as the value: nothing in
/// it is taken for syntax.
pub proof fn quoting_is_exact(value: Seq<char>)
    ensures
        shell_word(quoted(value), false) == Some(value),
{
    reveal_strlit("'");
    reveal_strlit("'\\''");
    let inner = replace(value, "'"@, "'\\''"@);
    assert(quoted(value).skip(1) =~= inner + "'"@);
    assert(quoted(value)[0] == '\'');
    lemma_quoted_inside(value);
}

proof fn lemma_quoted_inside(value: Seq<char>)
    ensures
        shell_word(replace(value, "'"@, "'\\''"@) + "'"@, true) == Some(value),
    decreases value.len(),
{
    reveal_strlit("'");
    reveal_strlit("'\\''");
    let quote = "'"@;
    let escape = "'\\''"@;
    lemma_find_from(value, quote, 0);
    match find_text(value, quote) {
        None => {
            assert forall|i: int| 0 <= i < value.len() implies value[i] != '\'' by {
                if value[i] == '\'' {
                    assert(value.subrange(i, i + 1) =~= quote);
                    assert(matches_at(value, quote, i));
                }
            }
            lemma_plain_inside(value, quote);
            assert(shell_word(quote, true) == Some(Seq::<char>::empty())) by {
                assert(quote.skip(1) =~= Seq::empty());
                assert(shell_word(quote.skip(1), false) == Some(Seq::<char>::empty()));
            }
            assert(value + Seq::<char>::empty() =~= value);
        },
        Some(k) => {
            let head = value.take(k);
            let tail = value.skip(k + 1);
            let rest = replace(tail, quote, escape) + quote;
            assert forall|i: int| 0 <= i < head.len() implies head[i] != '\'' by {
                if head[i] == '\'' {
                    assert(value.subrange(i, i + 1) =~= quote);
                    assert(matches_at(value, quote, i));
                }
            }
            lemma_quoted_inside(tail);
            let after = escape + rest;
            assert(replace(value, quote, escape) + quote =~= head + after);
            assert(after.skip(1)[0] == '\\');
            assert(after.skip(1)[1] == '\'');
            assert(after.skip(1).skip(2)[0] == '\'');
            assert(after.skip(1).skip(2).skip(1) =~= rest);
            assert(shell_word(after.skip(1).skip(2), false) == Some(tail));
            assert(shell_word(after.skip(1), false) == Some(seq!['\''] + tail));
            assert(shell_word(after, true) == Some(seq!['\''] + tail));
            lemma_plain_inside(head, after);
            assert(value.subrange(k, k + 1)[0] == value[k]);
            assert(head + (seq!['\''] + tail) =~= value);
        },
    }
}

/// Characters other than the quote stand for themselves inside quotes.
proof fn lemma_plain_inside(plain: Seq<char>, rest: Seq<char>)
    requires
        forall|i: int| 0 <= i < plain.len() ==> plain[i] != '\'',
    ensures
        shell_word(plain + rest, true) == match shell_word(rest, true) {
            Some(word) => Some(plain + word),
            None => None,
        },
    decreases plain.len(),
{
    if plain.len() == 0 {
        assert(plain + rest =~= rest);
        match shell_word(rest, true) {
            Some(word) => {
                assert(plain + word =~= word);
            },
            None => {},
        }
    } else {
        let next = plain.skip(1);
        assert((plain + rest).skip(1) =~= next + rest);
        assert((plain + rest)[0] == plain[0]);
        lemma_plain_inside(next, rest);
        match shell_word(rest, true) {
            Some(word) => {
                assert(seq![plain[0]] + (next + word) =~= plain + word);
            },
            None => {},
        }
    }
}

/// `value` as one word of a POSIX shell.
pub fn quote_shell(value: &str) -> (res: String)
    ensures
        res@ == quoted(value@),
{
    proof {
        reveal_strlit("'");
    }
    let chars = chars_of(value);
    let quote = chars_of("'");
    let escape = chars_of("'\\''");
    let inner = replaced(&chars, &quote, &escape);
    let mut out = copy("'");
    out.append(string_of(&inner).as_str());
    out.append("'");
    out
}

/// The quoted forms of `arguments`, in order.
pub open spec fn quoted_all(arguments: Seq<Seq<char>>) -> Seq<Seq<char>> {
    Seq::new(arguments.len(), |i: int| quoted(arguments[i]))
}

/// Each argument quoted, with spaces between them.
pub fn quote_all(arguments: &[String]) -> (res: String)
    ensures
        res@ == join(quoted_all(views(arguments@)), " "@),
{
    let mut out: Vec<String> = Vec::new();
    let mut i: usize = 0;
    while i < arguments.len()
        invariant
            i <= arguments@.len(),
            views(out@) == quoted_all(views(arguments@)).take(i as int),
        decreases arguments@.len() - i,
    {
        broadcast use lemma_views_push;

        out.push(quote_shell(arguments[i].as_str()));
        assert(quoted_all(views(arguments@)).take(i + 1) =~= quoted_all(views(arguments@)).take(
            i as int,
        ).push(quoted(arguments@[i as int]@)));
        i += 1;
    }
    assert(quoted_all(views(arguments@)).take(arguments@.len() as int) =~= quoted_all(
        views(arguments@),
    ));
    join_strings(&out, " ")
}

/// The shell `command`, followed by the script's arguments where there are any.
pub open spec fn script_command(command: Seq<char>, arguments: Seq<Seq<char>>) -> Seq<char> {
    let joined = join(quoted_all(arguments), " "@);
    if joined.len() == 0 {
        command
    } else {
        command + " -- "@ + joined
    }
}

pub fn posix_script_command(command: &str, arguments: &[String]) -> (res: String)
    ensures
        res@ == script_command(command@, views(arguments@)),
{
    let joined = quote_all(arguments);
    let mut out = copy(command);
    if joined.as_str().is_empty() {
        out
    } else {
        out.append(" -- ");
        out.append(joined.as_str());
        out
    }
}

// ---------------------------------------------------------------------------
// Sudo
// ---------------------------------------------------------------------------

/// A shell that reads the password from the first line of its input, has sudo check
/// it, and then runs `command` with the rest of the input.
pub open spec fn sudo_command(command: Seq<char>) -> Seq<char> {
    let script = "IFS= read -r serverbox_sudo_password || exit 1\nif printf '%s\\n' \"$serverbox_sudo_password\" | sudo -S -k -p '' -v; then\nunset serverbox_sudo_password\n"@
        + command + "\nelse\nunset serverbox_sudo_password\nexit 1\nfi"@;
    "LC_ALL=C sh -c "@ + quoted(script)
}

pub fn sudo_password_command(command: &str) -> (res: String)
    ensures
        res@ == sudo_command(command@),
{
    let mut script = copy(
        "IFS= read -r serverbox_sudo_password || exit 1\nif printf '%s\\n' \"$serverbox_sudo_password\" | sudo -S -k -p '' -v; then\nunset serverbox_sudo_password\n",
    );
    script.append(command);
    script.append("\nelse\nunset serverbox_sudo_password\nexit 1\nfi");
    let mut out = copy("LC_ALL=C sh -c ");
    out.append(quote_shell(script.as_str()).as_str());
    out
}

/// The password on a line of its own, and then the payload untouched. There is room for all
/// of it from the start, so that no copy of the password is left behind.
pub fn sudo_password_input(password: &str, payload: &[u8]) -> (res: Vec<u8>)
    ensures
        res@ == vstd::utf8::encode_utf8(password@) + seq![10u8] + payload@,
{
    let line = password.as_bytes();
    let room: usize = line.len().saturating_add(1).saturating_add(payload.len());
    let mut input: Vec<u8> = Vec::with_capacity(room);
    crate::utf8::extend(&mut input, line);
    input.push(10u8);
    crate::utf8::extend(&mut input, payload);
    assert(input@ =~= vstd::utf8::encode_utf8(password@) + seq![10u8] + payload@);
    input
}

/// Both streams in lower case, the error stream first.
pub open spec fn all_output(output: ExecOutput) -> Seq<char> {
    lower(output.stderr@ + "\n"@ + output.stdout@)
}

fn lowered_output(output: &ExecOutput) -> (res: Vec<char>)
    ensures
        res@ == all_output(*output),
{
    let mut message = output.stderr.clone();
    message.append("\n");
    message.append(output.stdout.as_str());
    lowered(&chars_of(message.as_str()))
}

/// Whether sudo said that the password was wrong.
pub open spec fn password_rejected(output: ExecOutput) -> bool {
    let message = all_output(output);
    contains_text(message, "sorry, try again"@) || contains_text(
        message,
        "no password was provided"@,
    ) || contains_text(message, "incorrect password"@)
}

pub fn sudo_password_was_rejected(output: &ExecOutput) -> (res: bool)
    ensures
        res == password_rejected(*output),
{
    let message = lowered_output(output);
    holds(&message, "sorry, try again") || holds(&message, "no password was provided") || holds(
        &message,
        "incorrect password",
    )
}

/// Whether `part` stands somewhere in `s`.
pub fn holds(s: &[char], part: &str) -> (res: bool)
    ensures
        res == contains_text(s@, part@),
{
    let p = chars_of(part);
    contains(s, &p)
}

pub const SUDO_PASSWORD_REJECTED: &'static str =
    "The stored sudo password was rejected. Update it in the server connection settings.";

pub fn sudo_password_rejected_error() -> (res: String)
    ensures
        res@ == SUDO_PASSWORD_REJECTED@,
{
    copy(SUDO_PASSWORD_REJECTED)
}

/// Whether a message says that rights are missing. The message is taken in lower
/// case.
pub open spec fn names_permission(message: Seq<char>) -> bool {
    let m = lower(message);
    contains_text(m, "permission denied"@) || contains_text(m, "insufficient permissions"@)
        || contains_text(m, "operation not permitted"@) || contains_text(m, "not authorized"@)
        || contains_text(m, "access denied"@) || contains_text(m, "must be root"@)
}

pub fn is_permission_message(message: &str) -> (res: bool)
    ensures
        res == names_permission(message@),
{
    let m = lowered(&chars_of(message));
    holds(&m, "permission denied") || holds(&m, "insufficient permissions") || holds(
        &m,
        "operation not permitted",
    ) || holds(&m, "not authorized") || holds(&m, "access denied") || holds(&m, "must be root")
}

pub fn is_permission_error(output: &ExecOutput) -> (res: bool)
    ensures
        res == names_permission(output.stderr@ + "\n"@ + output.stdout@),
{
    let mut message = output.stderr.clone();
    message.append("\n");
    message.append(output.stdout.as_str());
    is_permission_message(message.as_str())
}

/// Whether another attempt may succeed: not where the credentials, the host key or
/// the vault stand in the way.
pub open spec fn may_retry(error: Seq<char>) -> bool {
    let e = lower(error);
    !(contains_text(e, "authentication failed"@) || contains_text(
        e,
        "authentication was rejected"@,
    ) || contains_text(e, "no password is stored"@) || contains_text(
        e,
        "private key does not exist"@,
    ) || contains_text(e, "choose an ssh private key"@) || contains_text(e, "host_key_"@)
        || contains_text(e, "master_password_"@))
}

pub fn is_retryable_connection_error(error: &str) -> (res: bool)
    ensures
        res == may_retry(error@),
{
    let e = lowered(&chars_of(error));
    !(holds(&e, "authentication failed") || holds(&e, "authentication was rejected") || holds(
        &e,
        "no password is stored",
    ) || holds(&e, "private key does not exist") || holds(&e, "choose an ssh private key") || holds(
        &e,
        "host_key_",
    ) || holds(&e, "master_password_"))
}

// ---------------------------------------------------------------------------
// Error text
// ---------------------------------------------------------------------------

/// The prefixes by which an error asks for a host-key review, a password or a
/// decision on an upload. None of them may come out of remote output.
pub open spec fn control_markers() -> Seq<Seq<char>> {
    seq![
        "HOST_KEY_MISMATCH:"@,
        "HOST_KEY_UNKNOWN:"@,
        "MASTER_PASSWORD_REQUIRED:"@,
        "MASTER_PASSWORD_SETUP_REQUIRED:"@,
        "MASTER_PASSWORD_INVALID:"@,
        "UPLOAD_CONFLICT:"@,
    ]
}

/// Whether a control marker stands in `s`.
pub open spec fn has_marker(s: Seq<char>) -> bool {
    exists|i: int| 0 <= i < control_markers().len() && contains_text(s, #[trigger] control_markers()[i])
}

/// `s` with the first `n` markers taken out, one after the other.
pub open spec fn without_markers(s: Seq<char>, n: nat) -> Seq<char>
    decreases n,
{
    if n == 0 {
        s
    } else {
        replace(without_markers(s, (n - 1) as nat), control_markers()[n - 1], Seq::empty())
    }
}

/// `s` with the markers taken out until none is left: taking one out may put
/// another together.
pub open spec fn sanitized(s: Seq<char>) -> Seq<char>
    decreases s.len(),
{
    if has_marker(s) {
        proof {
            lemma_markers_shrink(s);
        }
        sanitized(without_markers(s, 6))
    } else {
        s
    }
}

proof fn lemma_markers_len()
    ensures
        control_markers().len() == 6,
        forall|i: int| 0 <= i < 6 ==> (#[trigger] control_markers()[i]).len() > 0,
{
    reveal_strlit("HOST_KEY_MISMATCH:");
    reveal_strlit("HOST_KEY_UNKNOWN:");
    reveal_strlit("MASTER_PASSWORD_REQUIRED:");
    reveal_strlit("MASTER_PASSWORD_SETUP_REQUIRED:");
    reveal_strlit("MASTER_PASSWORD_INVALID:");
    reveal_strlit("UPLOAD_CONFLICT:");
}

/// Taking a text out makes `s` shorter where it stands in it, and else leaves `s`
/// as it is.
proof fn lemma_removal(s: Seq<char>, part: Seq<char>)
    requires
        part.len() > 0,
    ensures
        contains_text(s, part) ==> replace(s, part, Seq::empty()).len() < s.len(),
        !contains_text(s, part) ==> replace(s, part, Seq::empty()) == s,
        replace(s, part, Seq::empty()).len() <= s.len(),
    decreases s.len(),
{
    lemma_find_from(s, part, 0);
    match find_text(s, part) {
        Some(k) => {
            lemma_removal(s.skip(k + part.len()), part);
        },
        None => {
            assert forall|at: int| !matches_at(s, part, at) by {}
        },
    }
}

proof fn lemma_without_markers(s: Seq<char>, n: nat)
    requires
        n <= 6,
    ensures
        without_markers(s, n).len() < s.len() || (without_markers(s, n) == s && forall|i: int|
            0 <= i < n ==> !contains_text(s, #[trigger] control_markers()[i])),
    decreases n,
{
    lemma_markers_len();
    if n > 0 {
        lemma_without_markers(s, (n - 1) as nat);
        lemma_removal(without_markers(s, (n - 1) as nat), control_markers()[n - 1]);
    }
}

pub proof fn lemma_markers_shrink(s: Seq<char>)
    requires
        has_marker(s),
    ensures
        without_markers(s, 6).len() < s.len(),
{
    lemma_markers_len();
    lemma_without_markers(s, 6);
}

/// Sanitized text holds no control marker; text that held none is not changed.
pub proof fn sanitized_text_has_no_marker(s: Seq<char>)
    ensures
        !has_marker(sanitized(s)),
        !has_marker(s) ==> sanitized(s) == s,
    decreases s.len(),
{
    if has_marker(s) {
        lemma_markers_shrink(s);
        sanitized_text_has_no_marker(without_markers(s, 6));
    }
}

fn has_control_marker(s: &[char]) -> (res: bool)
    ensures
        res == has_marker(s@),
{
    let a = holds(s, "HOST_KEY_MISMATCH:");
    let b = holds(s, "HOST_KEY_UNKNOWN:");
    let c = holds(s, "MASTER_PASSWORD_REQUIRED:");
    let d = holds(s, "MASTER_PASSWORD_SETUP_REQUIRED:");
    let e = holds(s, "MASTER_PASSWORD_INVALID:");
    let f = holds(s, "UPLOAD_CONFLICT:");
    assert(a ==> contains_text(s@, control_markers()[0]));
    assert(b ==> contains_text(s@, control_markers()[1]));
    assert(c ==> contains_text(s@, control_markers()[2]));
    assert(d ==> contains_text(s@, control_markers()[3]));
    assert(e ==> contains_text(s@, control_markers()[4]));
    assert(f ==> contains_text(s@, control_markers()[5]));
    a || b || c || d || e || f
}

fn take_out(s: Vec<char>, marker: &str) -> (res: Vec<char>)
    requires
        marker@.len() > 0,
    ensures
        res@ == replace(s@, marker@, Seq::empty()),
{
    let part = chars_of(marker);
    let nothing: Vec<char> = Vec::new();
    replaced(&s, &part, &nothing)
}

/// `message` without control markers.
pub fn sanitize_remote_message(message: &str) -> (res: String)
    ensures
        res@ == sanitized(message@),
        !has_marker(res@),
{
    proof {
        lemma_markers_len();
        sanitized_text_has_no_marker(message@);
    }
    let mut s = chars_of(message);
    while has_control_marker(&s)
        invariant
            sanitized(message@) == sanitized(s@),
        decreases s@.len(),
    {
        let ghost start = s@;
        proof {
            lemma_markers_len();
            lemma_markers_shrink(start);
            reveal_with_fuel(without_markers, 7);
        }
        s = take_out(s, "HOST_KEY_MISMATCH:");
        s = take_out(s, "HOST_KEY_UNKNOWN:");
        s = take_out(s, "MASTER_PASSWORD_REQUIRED:");
        s = take_out(s, "MASTER_PASSWORD_SETUP_REQUIRED:");
        s = take_out(s, "MASTER_PASSWORD_INVALID:");
        s = take_out(s, "UPLOAD_CONFLICT:");
        assert(s@ == without_markers(start, 6));
    }
    string_of(&s)
}

/// What is said of a command that printed nothing.
pub open spec fn status_text(exit_code: i32) -> Seq<char> {
    if exit_code == 126 {
        "The remote program exists but could not be executed (exit status 126). Check its permissions and architecture."@
    } else if exit_code == 127 {
        "The remote command was not found (exit status 127). The required program may not be installed or available in PATH."@
    } else if exit_code == 130 {
        "The remote command was interrupted (exit status 130)."@
    } else if exit_code == 137 {
        "The remote command was killed, commonly because the system ran out of memory (exit status 137)."@
    } else if exit_code == 143 {
        "The remote command was terminated (exit status 143)."@
    } else {
        "The remote command failed with exit status "@ + signed_decimal(exit_code as int)
            + " and returned no diagnostic output."@
    }
}

/// The error of a failed command: what it said on its error stream, else what it
/// said at all, else its status.
pub open spec fn failure_text(output: ExecOutput) -> Seq<char> {
    let error = sanitized(trim(output.stderr@));
    let said = sanitized(trim(output.stdout@));
    if error.len() > 0 {
        error
    } else if said.len() > 0 {
        said
    } else {
        status_text(output.exit_code)
    }
}

pub fn command_error(output: &ExecOutput) -> (res: String)
    ensures
        res@ == failure_text(*output),
{
    let message = sanitize_remote_message(trim_str(output.stderr.as_str()).as_str());
    if !message.as_str().is_empty() {
        return message;
    }
    let stdout = sanitize_remote_message(trim_str(output.stdout.as_str()).as_str());
    if !stdout.as_str().is_empty() {
        return stdout;
    }
    if output.exit_code == 126 {
        copy(
            "The remote program exists but could not be executed (exit status 126). Check its permissions and architecture.",
        )
    } else if output.exit_code == 127 {
        copy(
            "The remote command was not found (exit status 127). The required program may not be installed or available in PATH.",
        )
    } else if output.exit_code == 130 {
        copy("The remote command was interrupted (exit status 130).")
    } else if output.exit_code == 137 {
        copy(
            "The remote command was killed, commonly because the system ran out of memory (exit status 137).",
        )
    } else if output.exit_code == 143 {
        copy("The remote command was terminated (exit status 143).")
    } else {
        let mut out = copy("The remote command failed with exit status ");
        out.append(format_signed(output.exit_code as i64).as_str());
        out.append(" and returned no diagnostic output.");
        out
    }
}

/// The output of a command that succeeded, the error of one that did not.
pub open spec fn output_or_error(output: ExecOutput) -> Result<Seq<char>, Seq<char>> {
    if output.exit_code == 0 {
        Ok(output.stdout@)
    } else {
        Err(failure_text(output))
    }
}

/// The texts of a result.
pub open spec fn text_result(result: Result<String, String>) -> Result<Seq<char>, Seq<char>> {
    match result {
        Ok(text) => Ok(text@),
        Err(error) => Err(error@),
    }
}

/// The error text of a result.
pub open spec fn error_result<T>(result: Result<T, String>) -> Result<T, Seq<char>> {
    match result {
        Ok(value) => Ok(value),
        Err(error) => Err(error@),
    }
}

pub fn command_output(output: ExecOutput) -> (res: Result<String, String>)
    ensures
        text_result(res) == output_or_error(output),
{
    if output.exit_code == 0 {
        Ok(output.stdout)
    } else {
        Err(command_error(&output))
    }
}

/// The output of a script, refused where a stream is longer than `max` bytes.
pub open spec fn script_result(output: ExecOutput, max: usize) -> Result<Seq<char>, Seq<char>> {
    if byte_len(output.stdout@) > max || byte_len(output.stderr@) > max {
        Err("Remote script output exceeded the "@ + decimal(max as nat) + " byte limit"@)
    } else {
        output_or_error(output)
    }
}

pub fn validate_script_output(output: ExecOutput, max_output_bytes: usize) -> (res: Result<
    String,
    String,
>)
    ensures
        text_result(res) == script_result(output, max_output_bytes),
{
    if byte_length(output.stdout.as_str()) > max_output_bytes || byte_length(
        output.stderr.as_str(),
    ) > max_output_bytes {
        let mut message = copy("Remote script output exceeded the ");
        message.append(format_unsigned(max_output_bytes as u64).as_str());
        message.append(" byte limit");
        return Err(message);
    }
    command_output(output)
}

/// The answer to a sudo password that is being stored: accepted, refused, or an
/// error of its own.
pub open spec fn sudo_check_result(output: ExecOutput) -> Result<(), Seq<char>> {
    if output.exit_code == 0 {
        Ok(())
    } else if password_rejected(output) {
        Err(SUDO_PASSWORD_REJECTED@)
    } else {
        Err(failure_text(output))
    }
}

/// What the check of a sudo password showed. The check itself runs
/// `SUDO_CHECK_COMMAND` with the password as its input.
pub fn validate_sudo_password(output: &ExecOutput) -> (res: Result<(), String>)
    ensures
        error_result(res) == sudo_check_result(*output),
{
    if output.exit_code == 0 {
        Ok(())
    } else if sudo_password_was_rejected(output) {
        Err(sudo_password_rejected_error())
    } else {
        Err(command_error(output))
    }
}

pub const SUDO_CHECK_COMMAND: &'static str = "LC_ALL=C sudo -S -k -p '' -v";

pub const SUDO_CHECK_OUTPUT_LIMIT: usize = 65_536;

// ---------------------------------------------------------------------------
// Bounded output
// ---------------------------------------------------------------------------

/// How much of a chunk still fits under `limit`.
pub open spec fn fitting(held: nat, chunk: nat, limit: Option<usize>) -> int {
    match limit {
        None => chunk as int,
        Some(limit) => if held >= limit {
            0
        } else if chunk <= limit - held {
            chunk as int
        } else {
            limit - held
        },
    }
}

/// Appends what fits of `chunk`: a bounded buffer never grows past its bound.
pub fn append_output(buffer: &mut Vec<u8>, chunk: &[u8], limit: Option<usize>)
    ensures
        final(buffer)@ == old(buffer)@ + chunk@.take(
            fitting(old(buffer)@.len(), chunk@.len(), limit),
        ),
        limit matches Some(bound) ==> old(buffer)@.len() <= bound ==> final(buffer)@.len() <= bound,
{
    let take: usize = match limit {
        None => chunk.len(),
        Some(bound) => {
            let remaining: usize = bound.saturating_sub(buffer.len());
            if chunk.len() <= remaining {
                chunk.len()
            } else {
                remaining
            }
        },
    };
    let ghost start = buffer@;
    let mut i: usize = 0;
    assert(start + chunk@.take(0) =~= start);
    while i < take
        invariant
            i <= take <= chunk@.len(),
            buffer@ == start + chunk@.take(i as int),
        decreases take - i,
    {
        buffer.push(chunk[i]);
        assert(start + chunk@.take(i + 1) =~= (start + chunk@.take(i as int)).push(
            chunk@[i as int],
        ));
        i += 1;
    }
}

/// The bound of a command that may have set none.
pub fn output_limit(limit: Option<usize>) -> (res: usize)
    ensures
        res == (match limit {
            Some(bound) => bound,
            None => DEFAULT_OUTPUT_LIMIT,
        }),
{
    match limit {
        Some(bound) => bound,
        None => DEFAULT_OUTPUT_LIMIT,
    }
}

/// The longest prefix of `s`, in whole characters, that has at most `max` bytes.
pub open spec fn prefix_within(s: Seq<char>, max: int) -> Seq<char>
    decreases s.len(),
{
    if byte_len(s) <= max || s.len() == 0 {
        s
    } else {
        prefix_within(s.drop_last(), max)
    }
}

/// Log output, cut at its bound with a note.
pub open spec fn bounded(s: Seq<char>) -> Seq<char> {
    if byte_len(s) <= MAX_LOG_OUTPUT_BYTES {
        s
    } else {
        prefix_within(s, MAX_LOG_OUTPUT_BYTES as int)
            + "\n\n[Output truncated at 1 MB by Serverbox]"@
    }
}

/// Bounded output has at most the bound and the note.
pub proof fn bounded_output_is_bounded(s: Seq<char>)
    ensures
        byte_len(bounded(s)) <= MAX_LOG_OUTPUT_BYTES + 41,
{
    if byte_len(s) > MAX_LOG_OUTPUT_BYTES {
        reveal_strlit("\n\n[Output truncated at 1 MB by Serverbox]");
        lemma_prefix_within(s, MAX_LOG_OUTPUT_BYTES as int);
        let note = "\n\n[Output truncated at 1 MB by Serverbox]"@;
        lemma_byte_len_ascii(note);
        lemma_byte_len_add(prefix_within(s, MAX_LOG_OUTPUT_BYTES as int), note);
    }
}

proof fn lemma_prefix_within(s: Seq<char>, max: int)
    requires
        0 <= max,
    ensures
        byte_len(prefix_within(s, max)) <= max,
    decreases s.len(),
{
    if byte_len(s) <= max || s.len() == 0 {
    } else {
        lemma_prefix_within(s.drop_last(), max);
    }
}

proof fn lemma_byte_len_ascii(s: Seq<char>)
    requires
        forall|i: int| 0 <= i < s.len() ==> s[i] <= '\u{7f}',
    ensures
        byte_len(s) == s.len(),
    decreases s.len(),
{
    if s.len() > 0 {
        lemma_byte_len_ascii(s.drop_last());
    }
}

proof fn lemma_byte_len_add(a: Seq<char>, b: Seq<char>)
    ensures
        byte_len(a + b) == byte_len(a) + byte_len(b),
    decreases b.len(),
{
    if b.len() == 0 {
        assert(a + b =~= a);
    } else {
        assert((a + b).drop_last() =~= a + b.drop_last());
        lemma_byte_len_add(a, b.drop_last());
    }
}

proof fn lemma_prefix_is(s: Seq<char>, k: int, max: int)
    requires
        0 <= k < s.len(),
        byte_len(s.take(k)) <= max,
        byte_len(s.take(k + 1)) > max,
    ensures
        prefix_within(s, max) == s.take(k),
    decreases s.len(),
{
    lemma_byte_len_take(s, k + 1);
    if s.len() == k + 1 {
        assert(s.take(k + 1) =~= s);
        assert(s.drop_last() =~= s.take(k));
        assert(prefix_within(s.take(k), max) == s.take(k));
    } else {
        assert(s.drop_last().take(k) =~= s.take(k));
        assert(s.drop_last().take(k + 1) =~= s.take(k + 1));
        lemma_prefix_is(s.drop_last(), k, max);
    }
}

/// How many characters of `s` fit in `max` bytes.
pub(crate) fn prefix_length(s: &[char], max: usize) -> (res: usize)
    ensures
        res <= s@.len(),
        prefix_within(s@, max as int) == s@.take(res as int),
{
    let mut size: usize = 0;
    let mut i: usize = 0;
    while i < s.len()
        invariant
            i <= s@.len(),
            size == byte_len(s@.take(i as int)),
            size <= max,
        decreases s@.len() - i,
    {
        let width = width_of(s[i]);
        assert(s@.take(i + 1).drop_last() =~= s@.take(i as int));
        if width > max - size {
            proof {
                lemma_prefix_is(s@, i as int, max as int);
            }
            return i;
        }
        size += width;
        i += 1;
    }
    assert(s@.take(s@.len() as int) =~= s@);
    i
}

pub fn bounded_output(value: String) -> (res: String)
    ensures
        res@ == bounded(value@),
{
    if byte_length(value.as_str()) <= MAX_LOG_OUTPUT_BYTES {
        return value;
    }
    let s = chars_of(value.as_str());
    let end = prefix_length(&s, MAX_LOG_OUTPUT_BYTES);
    let kept = piece(&s, 0, end);
    assert(kept@ =~= s@.take(end as int));
    let mut out = string_of(&kept);
    out.append("\n\n[Output truncated at 1 MB by Serverbox]");
    out
}

// ---------------------------------------------------------------------------
// Profiles
// ---------------------------------------------------------------------------

pub open spec fn method_text(method: AuthMethod) -> Seq<char> {
    match method {
        AuthMethod::Password => "Password"@,
        AuthMethod::PrivateKey => "PrivateKey"@,
    }
}

pub open spec fn or_empty(value: Option<Seq<char>>) -> Seq<char> {
    match value {
        Some(text) => text,
        None => Seq::empty(),
    }
}

/// What a connection depends on. Two profiles with the same key share a connection:
/// names, groups, tags and notes are not in it.
pub open spec fn connection_key(profile: ServerProfileView) -> Seq<char> {
    profile.host + ":"@ + decimal(profile.port as nat) + ":"@ + profile.username + ":"@
        + method_text(profile.auth_method) + ":"@ + or_empty(profile.key_path) + ":"@ + or_empty(
        profile.jump_host_id,
    )
}

pub fn profile_key(profile: &ServerProfile) -> (res: String)
    ensures
        res@ == connection_key(profile@),
{
    let mut out = profile.host.clone();
    out.append(":");
    out.append(format_unsigned(profile.port as u64).as_str());
    out.append(":");
    out.append(profile.username.as_str());
    out.append(":");
    match profile.auth_method {
        AuthMethod::Password => out.append("Password"),
        AuthMethod::PrivateKey => out.append("PrivateKey"),
    }
    out.append(":");
    append_optional(&mut out, &profile.key_path);
    out.append(":");
    append_optional(&mut out, &profile.jump_host_id);
    out
}

fn append_optional(out: &mut String, value: &Option<String>)
    ensures
        final(out)@ == old(out)@ + or_empty(opt_view(*value)),
{
    match value {
        Some(text) => out.append(text.as_str()),
        None => {
            assert(out@ + Seq::<char>::empty() =~= out@);
        },
    }
}

/// Changing what only describes a server keeps its connection.
pub proof fn description_does_not_matter(a: ServerProfileView, b: ServerProfileView)
    requires
        a.host == b.host,
        a.port == b.port,
        a.username == b.username,
        a.auth_method == b.auth_method,
        a.key_path == b.key_path,
        a.jump_host_id == b.jump_host_id,
    ensures
        connection_key(a) == connection_key(b),
{
}

/// A path that begins with the home directory's sign, with the home directory put in.
pub open spec fn expanded(path: Seq<char>, home: Option<Seq<char>>) -> Seq<char> {
    match (strip_prefix(path, "~/"@), home) {
        (Some(rest), Some(home)) => joined_path(home, rest),
        _ => path,
    }
}

/// `name` below `base`, or `name` itself where it is absolute.
pub open spec fn joined_path(base: Seq<char>, name: Seq<char>) -> Seq<char> {
    if name.len() > 0 && name[0] == '/' {
        name
    } else if base.len() == 0 || base.last() == '/' {
        base + name
    } else {
        base + "/"@ + name
    }
}

pub fn expand_path(path: &str, home: Option<&str>) -> (res: String)
    ensures
        res@ == expanded(
            path@,
            match home {
                Some(h) => Some(h@),
                None => None,
            },
        ),
{
    let s = chars_of(path);
    match (after_prefix(&s, "~/"), home) {
        (Some(rest), Some(home)) => join_path(home, string_of(&rest).as_str()),
        _ => copy(path),
    }
}

pub fn join_path(base: &str, name: &str) -> (res: String)
    ensures
        res@ == joined_path(base@, name@),
{
    let b = chars_of(base);
    let n = chars_of(name);
    if n.len() > 0 && n[0] == '/' {
        return copy(name);
    }
    let mut out = copy(base);
    if !(b.len() == 0 || b[b.len() - 1] == '/') {
        out.append("/");
    }
    out.append(name);
    out
}

/// A path that begins with the home directory's sign lies in the home directory; any other is
/// taken as it is.
pub proof fn home_paths_are_written_out(home: Seq<char>, rest: Seq<char>, path: Seq<char>)
    requires
        home.len() > 0 && home.last() != '/',
        rest.len() > 0 && rest[0] != '/',
    ensures
        expanded("~/"@ + rest, Some(home)) == home + "/"@ + rest,
        expanded("~/"@ + rest, None) == "~/"@ + rest,
        !starts_with(path, "~/"@) ==> expanded(path, Some(home)) == path,
{
    reveal_strlit("~/");
    let all = "~/"@ + rest;
    assert(all.take(2) =~= "~/"@);
    assert(all.skip(2) =~= rest);
}

/// What a command comes to: its output where it succeeded, and otherwise what it said of its
/// failure, on its error stream before its output, or how it ended where it said nothing.
pub proof fn failures_are_told(output: ExecOutput, max: usize)
    ensures
        output.exit_code == 0 ==> output_or_error(output) == Ok::<Seq<char>, Seq<char>>(
            output.stdout@,
        ),
        output.exit_code != 0 ==> output_or_error(output) == Err::<Seq<char>, Seq<char>>(
            failure_text(output),
        ),
        sanitized(trim(output.stderr@)).len() > 0 ==> failure_text(output) == sanitized(
            trim(output.stderr@),
        ),
        sanitized(trim(output.stderr@)).len() == 0 && sanitized(trim(output.stdout@)).len() > 0
            ==> failure_text(output) == sanitized(trim(output.stdout@)),
        sanitized(trim(output.stderr@)).len() == 0 && sanitized(trim(output.stdout@)).len() == 0
            ==> failure_text(output) == status_text(output.exit_code),
        byte_len(output.stdout@) <= max && byte_len(output.stderr@) <= max ==> script_result(
            output,
            max,
        ) == output_or_error(output),
        byte_len(output.stdout@) > max || byte_len(output.stderr@) > max ==> script_result(
            output,
            max,
        ) is Err,
        status_text(127)
            == "The remote command was not found (exit status 127). The required program may not be installed or available in PATH."@,
        status_text(126)
            == "The remote program exists but could not be executed (exit status 126). Check its permissions and architecture."@,
        status_text(1) == "The remote command failed with exit status "@ + signed_decimal(1)
            + " and returned no diagnostic output."@,
{
}

/// A sudo password is accepted where sudo took it, refused where sudo says so, and otherwise
/// the error is told.
pub proof fn sudo_passwords_are_checked(output: ExecOutput)
    ensures
        sudo_check_result(output) is Ok <==> output.exit_code == 0,
        output.exit_code != 0 && password_rejected(output) ==> sudo_check_result(output) == Err::<
            (),
            Seq<char>,
        >("The stored sudo password was rejected. Update it in the server connection settings."@),
        output.exit_code != 0 && !password_rejected(output) ==> sudo_check_result(output) == Err::<
            (),
            Seq<char>,
        >(failure_text(output)),
{
}

/// Which messages say that rights are missing, and which that a password was refused: those
/// that hold one of these phrases, in any case.
pub proof fn refusals_are_recognised(message: Seq<char>, output: ExecOutput)
    ensures
        contains_text(lower(message), "permission denied"@) || contains_text(
            lower(message),
            "operation not permitted"@,
        ) || contains_text(lower(message), "access denied"@) || contains_text(
            lower(message),
            "must be root"@,
        ) || contains_text(lower(message), "insufficient permissions"@) || contains_text(
            lower(message),
            "not authorized"@,
        ) <==> names_permission(message),
        contains_text(lower(output.stderr@ + "\n"@ + output.stdout@), "sorry, try again"@)
            || contains_text(
            lower(output.stderr@ + "\n"@ + output.stdout@),
            "incorrect password"@,
        ) || contains_text(
            lower(output.stderr@ + "\n"@ + output.stdout@),
            "no password was provided"@,
        ) <==> password_rejected(output),
{
}

/// Another attempt is made unless a password, a key, the host key or the vault stands in the
/// way.
pub proof fn attempts_are_repeated_where_that_helps(error: Seq<char>)
    ensures
        may_retry(error) <==> !contains_text(lower(error), "authentication failed"@)
            && !contains_text(lower(error), "authentication was rejected"@) && !contains_text(
            lower(error),
            "no password is stored"@,
        ) && !contains_text(lower(error), "private key does not exist"@) && !contains_text(
            lower(error),
            "choose an ssh private key"@,
        ) && !contains_text(lower(error), "host_key_"@) && !contains_text(
            lower(error),
            "master_password_"@,
        ),
{
}

/// A script gets each of its arguments as one word, in order.
pub proof fn scripts_get_their_arguments(command: Seq<char>, first: Seq<char>, second: Seq<char>)
    ensures
        script_command(command, Seq::empty()) == command,
        script_command(command, seq![first]) == command + " -- "@ + quoted(first),
        script_command(command, seq![first, second]) == command + " -- "@ + (quoted(first) + " "@
            + quoted(second)),
{
    reveal_strlit("'");
    let none = quoted_all(Seq::empty());
    assert(none =~= Seq::empty());
    let one = quoted_all(seq![first]);
    assert(one =~= seq![quoted(first)]);
    assert(quoted(first).len() >= 2);
    let two = quoted_all(seq![first, second]);
    assert(two.drop_last() =~= seq![quoted(first)]);
    assert(two.last() == quoted(second));
    reveal_with_fuel(join, 2);
    assert(join(two, " "@) == quoted(first) + " "@ + quoted(second));
}

/// Output that fits is kept whole, and of what does not fit the beginning is kept, in whole
/// characters, with a note.
pub proof fn long_output_keeps_its_beginning(s: Seq<char>)
    ensures
        byte_len(s) <= 1048576 ==> bounded(s) == s,
        byte_len(s) > 1048576 ==> exists|kept: Seq<char>| #[trigger]
            starts_with(s, kept) && byte_len(kept) <= 1048576 && bounded(s) == kept
                + "\n\n[Output truncated at 1 MB by Serverbox]"@,
{
    if byte_len(s) > MAX_LOG_OUTPUT_BYTES {
        lemma_prefix_within(s, MAX_LOG_OUTPUT_BYTES as int);
        lemma_prefix_is_prefix(s, MAX_LOG_OUTPUT_BYTES as int);
        let kept = prefix_within(s, MAX_LOG_OUTPUT_BYTES as int);
        assert(starts_with(s, kept));
    }
}

proof fn lemma_prefix_is_prefix(s: Seq<char>, max: int)
    ensures
        starts_with(s, prefix_within(s, max)),
    decreases s.len(),
{
    if !(byte_len(s) <= max || s.len() == 0) {
        lemma_prefix_is_prefix(s.drop_last(), max);
        let p = prefix_within(s, max);
        assert(s.take(p.len() as int) =~= s.drop_last().take(p.len() as int));
    } else {
        assert(s.take(s.len() as int) =~= s);
    }
}

/// The markers by which an error asks for a decision are these, and none of them is left in
/// what a server said.
pub proof fn no_server_asks_for_a_decision(s: Seq<char>)
    ensures
        !contains_text(sanitized(s), "HOST_KEY_MISMATCH:"@),
        !contains_text(sanitized(s), "HOST_KEY_UNKNOWN:"@),
        !contains_text(sanitized(s), "MASTER_PASSWORD_REQUIRED:"@),
        !contains_text(sanitized(s), "MASTER_PASSWORD_SETUP_REQUIRED:"@),
        !contains_text(sanitized(s), "MASTER_PASSWORD_INVALID:"@),
        !contains_text(sanitized(s), "UPLOAD_CONFLICT:"@),
{
    sanitized_text_has_no_marker(s);
    assert(!contains_text(sanitized(s), control_markers()[0]));
    assert(!contains_text(sanitized(s), control_markers()[1]));
    assert(!contains_text(sanitized(s), control_markers()[2]));
    assert(!contains_text(sanitized(s), control_markers()[3]));
    assert(!contains_text(sanitized(s), control_markers()[4]));
    assert(!contains_text(sanitized(s), control_markers()[5]));
}

/// The times and the sizes that hold for every command.
pub proof fn commands_are_bounded()
    ensures
        COMMAND_TIMEOUT_SECONDS == 35,
        LONG_COMMAND_TIMEOUT_SECONDS == 300,
        CONNECTION_PROBE_TIMEOUT_SECONDS == 8,
        CONNECT_TIMEOUT_SECONDS == 12,
        KEEPALIVE_INTERVAL_SECONDS == 15,
        DEFAULT_OUTPUT_LIMIT == 16777216,
        SUDO_CHECK_OUTPUT_LIMIT == 65536,
        SUDO_CHECK_COMMAND@ == "LC_ALL=C sudo -S -k -p '' -v"@,
        OPERATION_CANCELLED@ == "Operation cancelled"@,
{
}

} // verus!
