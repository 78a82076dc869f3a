//! Firewalls, authorized keys, updates, quick actions and commands.
use crate::models::{
    AuthorizedKey, AuthorizedKeyView, CommandResult, CommandResultView, FirewallSnapshot,
    FirewallSnapshotView, SecuritySnapshot, SecuritySnapshotView,
};
use crate::numbers::{decimal, format_unsigned, parse_unsigned, unsigned_of};
use crate::ssh::{
    bounded, bounded_output, command_error, error_result, failure_text, quote_shell, quoted,
    text_result, ExecOutput,
};
use crate::text::{
    all_chars, begins_with, chars_of, collect, contains_str, contains_text, copy, every_char,
    find_index, glue3, glue5, glue7, has_char, index_where, is_digit, is_line, is_space, is_text,
    is_word, join, join_from, joined_lines_read_back, joined_parts_read_back,
    joined_words_read_back, lines_of, lines_str, lower, opt_view, parts, parts_of, same,
    same_ignoring_case, split_at_char, split_char, splits_read_back, starts_with, string_of, trim,
    trim_str, trimmed, trimming_takes_off_spaces, views, words, words_of,
};
use crate::disk::below_heading;
use crate::paging::{at_most, keep_first};
use crate::providers::ports::rest_of;
use crate::tier3::compose::filled_line;
use crate::utf8::{byte_len, byte_length};
use vstd::prelude::*;

verus! {

broadcast use vstd::string::group_string_axioms;

// ---------------------------------------------------------------------------
// Firewalls
// ---------------------------------------------------------------------------

/// Names the firewall of a server.
pub const FIREWALL_PROBE: &'static str = "if command -v ufw >/dev/null 2>&1; then echo ufw; elif command -v firewall-cmd >/dev/null 2>&1; then echo firewalld; fi";

pub const UFW_STATUS_COMMAND: &'static str = "LC_ALL=C ufw status numbered";

pub const FIREWALLD_STATUS_COMMAND: &'static str = "firewall-cmd --state 2>/dev/null; firewall-cmd --list-all 2>/dev/null";

/// Where the status of a firewall comes from.
#[derive(Clone, Copy, Debug, PartialEq, Eq)]
pub enum StatusSource {
    /// There is no firewall to ask.
    Nothing,
    /// A command that needs root rights.
    Privileged(&'static str),
    /// A command that everyone may run.
    Plain(&'static str),
}

/// The command that tells the status of a firewall, and whether it needs root rights.
pub open spec fn status_command(probe: Seq<char>) -> Option<(bool, Seq<char>)> {
    if trim(probe).len() == 0 {
        None
    } else if trim(probe) == "ufw"@ {
        Some((true, UFW_STATUS_COMMAND@))
    } else {
        Some((false, FIREWALLD_STATUS_COMMAND@))
    }
}

/// Where the status comes from, by the firewall that the probe names.
pub fn firewall_status_source(probe: &str) -> (res: StatusSource)
    ensures
        match res {
            StatusSource::Nothing => status_command(probe@) is None,
            StatusSource::Privileged(command) => status_command(probe@) == Some((true, command@)),
            StatusSource::Plain(command) => status_command(probe@) == Some((false, command@)),
        },
{
    let provider = trim_str(probe);
    if provider.as_str().is_empty() {
        StatusSource::Nothing
    } else if same(provider.as_str(), "ufw") {
        StatusSource::Privileged(UFW_STATUS_COMMAND)
    } else {
        StatusSource::Plain(FIREWALLD_STATUS_COMMAND)
    }
}

/// Whether the first line of a status says that the firewall is on.
pub open spec fn is_enabled(provider: Seq<char>, lines: Seq<Seq<char>>) -> bool {
    lines.len() > 0 && if provider == "ufw"@ {
        lower(trim(lines[0])) == lower("Status: active"@)
    } else {
        trim(lines[0]) == "running"@
    }
}

/// The firewall of a server. `probe` names it, and is blank where there is none.
pub open spec fn firewall_of(probe: Seq<char>, status: Seq<char>) -> FirewallSnapshotView {
    let provider = trim(probe);
    if provider.len() == 0 {
        FirewallSnapshotView { provider: None, enabled: false, rules: Seq::empty() }
    } else {
        FirewallSnapshotView {
            provider: Some(provider),
            enabled: is_enabled(provider, lines_of(status)),
            rules: below_heading(status).filter_map(|line: Seq<char>| filled_line(line)),
        }
    }
}

fn read_rule(line: &[char]) -> (res: Option<String>)
    ensures
        opt_view(res) == filled_line(line@),
{
    let text = trimmed(line);
    if text.len() > 0 {
        Some(string_of(&text))
    } else {
        None
    }
}

/// The firewall of a server.
pub fn firewall(probe: &str, status: &str) -> (res: FirewallSnapshot)
    ensures
        res@ == firewall_of(probe@, status@),
{
    let provider = trim_str(probe);
    if provider.as_str().is_empty() {
        let none: Vec<String> = Vec::new();
        assert(views(none@) =~= Seq::empty());
        return FirewallSnapshot { provider: None, enabled: false, rules: none };
    }
    let lines = lines_str(status);
    assert(lines@.len() > 0 ==> views(lines@)[0] == lines@[0]@);
    let enabled = if lines.len() == 0 {
        false
    } else {
        let first = trimmed(lines[0].as_slice());
        if same(provider.as_str(), "ufw") {
            same_ignoring_case(&first, "Status: active")
        } else {
            is_text(&first, "running")
        }
    };
    let rules = crate::disk::collect_below(
        status,
        read_rule,
        Ghost(|line: Seq<char>| filled_line(line)),
    );
    FirewallSnapshot { provider: Some(provider), enabled, rules }
}

/// A change of a firewall.
#[derive(Debug, PartialEq, Eq)]
pub enum FirewallPlan {
    Enable,
    Disable,
    Rule { allow: bool, port: u16, protocol: String, source: Option<String> },
}

#[verifier::ext_equal]
pub enum FirewallPlanView {
    Enable,
    Disable,
    Rule { allow: bool, port: u16, protocol: Seq<char>, source: Option<Seq<char>> },
}

impl View for FirewallPlan {
    type V = FirewallPlanView;

    open spec fn view(&self) -> FirewallPlanView {
        match *self {
            FirewallPlan::Enable => FirewallPlanView::Enable,
            FirewallPlan::Disable => FirewallPlanView::Disable,
            FirewallPlan::Rule { allow, port, protocol, source } => FirewallPlanView::Rule {
                allow,
                port,
                protocol: protocol@,
                source: opt_view(source),
            },
        }
    }
}

pub open spec fn plan_view(res: Result<FirewallPlan, String>) -> Result<FirewallPlanView, Seq<char>> {
    match res {
        Ok(plan) => Ok(plan@),
        Err(error) => Err(error@),
    }
}

pub open spec fn address_char() -> spec_fn(char) -> bool {
    |c: char|
        is_digit(c) || ('a' <= c && c <= 'f') || ('A' <= c && c <= 'F') || c == '.' || c == ':' || c
            == '/'
}

/// The change that is asked for.
pub open spec fn firewall_plan(
    action: Seq<char>,
    port: Option<u32>,
    protocol: Option<Seq<char>>,
    source: Option<Seq<char>>,
) -> Result<FirewallPlanView, Seq<char>> {
    let rule = action == "allow"@ || action == "deny"@;
    let named = match protocol {
        Some(name) => name,
        None => "tcp"@,
    };
    let port_is_bad = match port {
        Some(n) => !(1 <= n <= 65535),
        None => true,
    };
    let source_is_bad = match source {
        Some(text) => !every_char(text, address_char()),
        None => false,
    };
    if !(rule || action == "enable"@ || action == "disable"@) {
        Err("Unsupported firewall action"@)
    } else if rule && port_is_bad {
        Err("Port must be between 1 and 65535"@)
    } else if !(named == "tcp"@ || named == "udp"@) {
        Err("Protocol must be TCP or UDP"@)
    } else if source_is_bad {
        Err("Source must be an IP address or CIDR"@)
    } else if action == "enable"@ {
        Ok(FirewallPlanView::Enable)
    } else if action == "disable"@ {
        Ok(FirewallPlanView::Disable)
    } else {
        Ok(
            FirewallPlanView::Rule {
                allow: action == "allow"@,
                port: port->0 as u16,
                protocol: named,
                source,
            },
        )
    }
}

/// The change that is asked for.
pub fn plan_firewall_action(
    action: &str,
    port: Option<u32>,
    protocol: &Option<String>,
    source: &Option<String>,
) -> (res: Result<FirewallPlan, String>)
    ensures
        plan_view(res) == firewall_plan(action@, port, opt_view(*protocol), opt_view(*source)),
{
    let rule = same(action, "allow") || same(action, "deny");
    if !(rule || same(action, "enable") || same(action, "disable")) {
        return Err(copy("Unsupported firewall action"));
    }
    let number: u32 = match port {
        Some(n) => n,
        None => 0,
    };
    if rule && !(1 <= number && number <= 65535) {
        return Err(copy("Port must be between 1 and 65535"));
    }
    let named = match protocol {
        Some(name) => name.clone(),
        None => copy("tcp"),
    };
    if !(same(named.as_str(), "tcp") || same(named.as_str(), "udp")) {
        return Err(copy("Protocol must be TCP or UDP"));
    }
    match source {
        Some(text) => {
            let test = |c: char| -> (r: bool)
                ensures
                    r == address_char()(c),
                {
                    crate::text::digit(c) || ('a' <= c && c <= 'f') || ('A' <= c && c <= 'F') || c
                        == '.' || c == ':' || c == '/'
                };
            if !all_chars(&chars_of(text.as_str()), test, Ghost(address_char())) {
                return Err(copy("Source must be an IP address or CIDR"));
            }
        },
        None => {},
    }
    if same(action, "enable") {
        return Ok(FirewallPlan::Enable);
    }
    if same(action, "disable") {
        return Ok(FirewallPlan::Disable);
    }
    Ok(
        FirewallPlan::Rule {
            allow: same(action, "allow"),
            port: number as u16,
            protocol: named,
            source: crate::credentials::copy_optional(source),
        },
    )
}

/// The command of a change, for the firewall that the server has.
pub open spec fn firewall_text(probe: Seq<char>, plan: FirewallPlanView) -> Result<
    Seq<char>,
    Seq<char>,
> {
    let provider = trim(probe);
    if provider == "ufw"@ {
        Ok(
            match plan {
                FirewallPlanView::Enable => "ufw --force enable"@,
                FirewallPlanView::Disable => "ufw disable"@,
                FirewallPlanView::Rule { allow, port, protocol, source } => {
                    let effect = if allow {
                        "ufw allow "@
                    } else {
                        "ufw deny "@
                    };
                    match source {
                        Some(address) => effect + "from "@ + address + " to any port "@ + decimal(
                            port as nat,
                        ) + " proto "@ + protocol,
                        None => effect + decimal(port as nat) + "/"@ + protocol,
                    }
                },
            },
        )
    } else if provider == "firewalld"@ {
        Ok(
            match plan {
                FirewallPlanView::Enable => "systemctl enable --now firewalld"@,
                FirewallPlanView::Disable => "systemctl disable --now firewalld"@,
                FirewallPlanView::Rule { allow, port, protocol, source } => match source {
                    Some(address) =>
                    "firewall-cmd --permanent --add-rich-rule='rule source address="@ + address
                        + " port port="@ + decimal(port as nat) + " protocol="@ + protocol + (
                    if allow {
                        " accept' && firewall-cmd --reload"@
                    } else {
                        " drop' && firewall-cmd --reload"@
                    }),
                    None => (if allow {
                        "firewall-cmd --permanent --add-port="@
                    } else {
                        "firewall-cmd --permanent --remove-port="@
                    }) + decimal(port as nat) + "/"@ + protocol + " && firewall-cmd --reload"@,
                },
            },
        )
    } else {
        Err("Neither UFW nor firewalld is installed"@)
    }
}

/// The command of a change, for the firewall that the server has.
pub fn firewall_action(probe: &str, plan: &FirewallPlan) -> (res: Result<String, String>)
    ensures
        text_result(res) == firewall_text(probe@, plan@),
{
    let provider = trim_str(probe);
    if same(provider.as_str(), "ufw") {
        match plan {
            FirewallPlan::Enable => Ok(copy("ufw --force enable")),
            FirewallPlan::Disable => Ok(copy("ufw disable")),
            FirewallPlan::Rule { allow, port, protocol, source } => {
                let effect = if *allow {
                    "ufw allow "
                } else {
                    "ufw deny "
                };
                let number = format_unsigned(*port as u64);
                match source {
                    Some(address) => Ok(
                        glue7(
                            effect,
                            "from ",
                            address.as_str(),
                            " to any port ",
                            number.as_str(),
                            " proto ",
                            protocol.as_str(),
                        ),
                    ),
                    None => {
                        let mut out = glue3(effect, number.as_str(), "/");
                        out.append(protocol.as_str());
                        Ok(out)
                    },
                }
            },
        }
    } else if same(provider.as_str(), "firewalld") {
        match plan {
            FirewallPlan::Enable => Ok(copy("systemctl enable --now firewalld")),
            FirewallPlan::Disable => Ok(copy("systemctl disable --now firewalld")),
            FirewallPlan::Rule { allow, port, protocol, source } => {
                let number = format_unsigned(*port as u64);
                match source {
                    Some(address) => Ok(
                        glue7(
                            "firewall-cmd --permanent --add-rich-rule='rule source address=",
                            address.as_str(),
                            " port port=",
                            number.as_str(),
                            " protocol=",
                            protocol.as_str(),
                            if *allow {
                                " accept' && firewall-cmd --reload"
                            } else {
                                " drop' && firewall-cmd --reload"
                            },
                        ),
                    ),
                    None => Ok(
                        glue5(
                            if *allow {
                                "firewall-cmd --permanent --add-port="
                            } else {
                                "firewall-cmd --permanent --remove-port="
                            },
                            number.as_str(),
                            "/",
                            protocol.as_str(),
                            " && firewall-cmd --reload",
                        ),
                    ),
                }
            },
        }
    } else {
        Err(copy("Neither UFW nor firewalld is installed"))
    }
}

// ---------------------------------------------------------------------------
// Authorized keys
// ---------------------------------------------------------------------------

/// Prints each key behind its fingerprint.
pub const AUTHORIZED_KEYS_COMMAND: &'static str = r#"if ! command -v ssh-keygen >/dev/null 2>&1; then echo 'SSH key inspection requires ssh-keygen, which is not installed on this server' >&2; exit 69; fi; test ! -f ~/.ssh/authorized_keys || while IFS= read -r line; do case "$line" in ''|'#'*) continue;; esac; fingerprint=$(printf '%s\n' "$line" | ssh-keygen -lf - 2>/dev/null | awk '{print $2}'); [ -n "$fingerprint" ] && printf '%s\t%s\n' "$fingerprint" "$line"; done < ~/.ssh/authorized_keys"#;

pub const MAX_AUTHORIZED_KEYS: usize = 1000;

/// What a hasher made by `std::hash::DefaultHasher::new` makes of a text.
pub uninterp spec fn text_hash(text: Seq<char>) -> u64;

/// `std::hash::DefaultHasher::new`, fed a text: all hashers that it makes agree, so the
/// number depends on the text alone. Which number it is, is not stated: the algorithm is not
/// documented.
#[verifier::external_body]
fn hash_text(text: &str) -> (res: u64)
    ensures
        res == text_hash(text@),
{
    let mut hasher = std::collections::hash_map::DefaultHasher::new();
    std::hash::Hash::hash(text, &mut hasher);
    std::hash::Hasher::finish(&hasher)
}

pub open spec fn hex_digit(d: nat) -> char {
    if d < 10 {
        (48 + d) as char
    } else {
        (87 + d) as char
    }
}

/// The last `count` hexadecimal digits of a number.
pub open spec fn hex_text(n: nat, count: nat) -> Seq<char>
    decreases count,
{
    if count == 0 {
        Seq::empty()
    } else {
        hex_text(n / 16, (count - 1) as nat).push(hex_digit(n % 16))
    }
}

fn hex_char(d: u64) -> (res: char)
    requires
        d < 16,
    ensures
        res == hex_digit(d as nat),
{
    if d < 10 {
        (48 + d as u8) as char
    } else {
        (87 + d as u8) as char
    }
}

/// A number in sixteen hexadecimal digits.
pub fn format_hex(n: u64) -> (res: String)
    ensures
        res@ == hex_text(n as nat, 16),
        res@.len() == 16,
{
    let mut out: Vec<char> = Vec::new();
    let mut left: u64 = n;
    let mut count: usize = 0;
    assert(hex_text(n as nat, 16) =~= hex_text(left as nat, 16) + Seq::empty());
    while count < 16
        invariant
            count <= 16,
            out@.len() == count,
            hex_text(n as nat, 16) == hex_text(left as nat, (16 - count) as nat) + out@.reverse(),
        decreases 16 - count,
    {
        let ghost before = out@;
        let d: u64 = left % 16;
        let ghost more = hex_text((left / 16) as nat, (15 - count) as nat);
        out.push(hex_char(d));
        assert(hex_text(left as nat, (16 - count) as nat) == more.push(hex_digit(d as nat)));
        assert(out@.reverse() =~= seq![hex_digit(d as nat)] + before.reverse());
        assert(more.push(hex_digit(d as nat)) + before.reverse() =~= more + out@.reverse());
        left = left / 16;
        count += 1;
    }
    let mut text: Vec<char> = Vec::new();
    let mut i: usize = 16;
    while i > 0
        invariant
            i <= 16,
            out@.len() == 16,
            text@ == out@.reverse().take(16 - i),
        decreases i,
    {
        i -= 1;
        text.push(out[i]);
        assert(out@.reverse().take(16 - i) =~= out@.reverse().take(15 - i).push(out@[i as int]));
    }
    assert(out@.reverse().take(16) =~= out@.reverse());
    assert(hex_text(left as nat, 0) =~= Seq::empty());
    assert(Seq::<char>::empty() + out@.reverse() =~= out@.reverse());
    string_of(&text)
}

/// Whether a word names the kind of a key.
pub open spec fn is_key_kind() -> spec_fn(Seq<char>) -> bool {
    |word: Seq<char>|
        starts_with(word, "ssh-"@) || starts_with(word, "ecdsa-"@) || starts_with(word, "sk-"@)
}

/// The key on a line behind its fingerprint. Its id is a number made of the line.
pub open spec fn key_of(record: Seq<char>, id: u64) -> Option<AuthorizedKeyView> {
    match split_at_char(record, '\t') {
        Some((fingerprint, line)) => {
            let fields = words_of(line);
            let at = index_where(fields, is_key_kind());
            if at + 1 >= fields.len() {
                None
            } else {
                Some(
                    AuthorizedKeyView {
                        id: hex_text(id as nat, 16),
                        kind: fields[at],
                        fingerprint,
                        comment: rest_of(fields, at + 2),
                        key: line,
                    },
                )
            }
        },
        None => None,
    }
}

fn key_kind(word: &[char]) -> (res: bool)
    ensures
        res == is_key_kind()(word@),
{
    begins_with(word, "ssh-") || begins_with(word, "ecdsa-") || begins_with(word, "sk-")
}

/// The key on a line behind its fingerprint, with a given number for its id.
pub fn authorized_key(record: &[char], id: u64) -> (res: Option<AuthorizedKey>)
    ensures
        opt_view(res) == key_of(record@, id),
{
    match split_char(record, '\t') {
        Some((fingerprint, line)) => {
            let fields = words(&line);
            let n: usize = fields.len();
            let at = find_index(&fields, key_kind, Ghost(is_key_kind()));
            if n == 0 || at >= n - 1 {
                return None;
            }
            assert(views(fields@)[at as int] == fields@[at as int]@);
            Some(
                AuthorizedKey {
                    id: format_hex(id),
                    kind: string_of(fields[at].as_slice()),
                    fingerprint: string_of(&fingerprint),
                    comment: string_of(&join_from(&fields, at + 2)),
                    key: string_of(&line),
                },
            )
        },
        None => None,
    }
}

/// The number of a key: the hash of its line.
pub open spec fn record_hash(record: Seq<char>) -> u64 {
    match split_at_char(record, '\t') {
        Some((_, line)) => text_hash(line),
        None => 0,
    }
}

/// The keys of an account: those on the first lines, each with the hash of its line for its
/// id.
pub open spec fn account_keys(text: Seq<char>) -> Seq<AuthorizedKeyView> {
    at_most(lines_of(text), MAX_AUTHORIZED_KEYS as nat).filter_map(
        |record: Seq<char>| key_of(record, record_hash(record)),
    )
}

fn read_record(record: &[char]) -> (res: Option<AuthorizedKey>)
    ensures
        opt_view(res) == key_of(record@, record_hash(record@)),
{
    match split_char(record, '\t') {
        Some((_, line)) => authorized_key(record, hash_text(string_of(&line).as_str())),
        None => None,
    }
}

/// The keys of an account.
pub fn authorized_keys(text: &str) -> (res: Vec<AuthorizedKey>)
    ensures
        views(res@) == account_keys(text@),
{
    let lines = keep_first(lines_str(text), MAX_AUTHORIZED_KEYS);
    collect(
        &lines,
        read_record,
        Ghost(|record: Seq<char>| key_of(record, record_hash(record))),
    )
}

/// The command that adds or removes a key.
pub open spec fn key_action_text(action: Seq<char>, key: Seq<char>) -> Result<Seq<char>, Seq<char>> {
    if !(action == "add"@ || action == "remove"@) || key.contains('\n') || byte_len(key) > 20_000 {
        Err("Invalid SSH key action"@)
    } else if action == "add"@ && !(contains_text(key, "ssh-"@) || contains_text(key, "ecdsa-"@)
        || contains_text(key, "sk-"@)) {
        Err("Enter a valid OpenSSH public key"@)
    } else if action == "add"@ {
        Ok(
            "umask 077; mkdir -p ~/.ssh; touch ~/.ssh/authorized_keys; grep -Fqx -- "@ + quoted(key)
                + " ~/.ssh/authorized_keys || printf '%s\\n' "@ + quoted(key)
                + " >> ~/.ssh/authorized_keys"@,
        )
    } else {
        Ok(
            "test ! -f ~/.ssh/authorized_keys || { tmp=$(mktemp); grep -Fvx -- "@ + quoted(key)
                + " ~/.ssh/authorized_keys > \"$tmp\" || true; cat \"$tmp\" > ~/.ssh/authorized_keys; rm -f \"$tmp\"; }"@,
        )
    }
}

pub fn authorized_key_action(action: &str, key: &str) -> (res: Result<String, String>)
    ensures
        text_result(res) == key_action_text(action@, key@),
{
    let add = same(action, "add");
    if !(add || same(action, "remove")) || has_char(&chars_of(key), '\n') || byte_length(key)
        > 20_000 {
        return Err(copy("Invalid SSH key action"));
    }
    if add && !(contains_str(key, "ssh-") || contains_str(key, "ecdsa-") || contains_str(
        key,
        "sk-",
    )) {
        return Err(copy("Enter a valid OpenSSH public key"));
    }
    let word = quote_shell(key);
    if add {
        Ok(
            glue5(
                "umask 077; mkdir -p ~/.ssh; touch ~/.ssh/authorized_keys; grep -Fqx -- ",
                word.as_str(),
                " ~/.ssh/authorized_keys || printf '%s\\n' ",
                word.as_str(),
                " >> ~/.ssh/authorized_keys",
            ),
        )
    } else {
        Ok(
            glue3(
                "test ! -f ~/.ssh/authorized_keys || { tmp=$(mktemp); grep -Fvx -- ",
                word.as_str(),
                " ~/.ssh/authorized_keys > \"$tmp\" || true; cat \"$tmp\" > ~/.ssh/authorized_keys; rm -f \"$tmp\"; }",
            ),
        )
    }
}

// ---------------------------------------------------------------------------
// Updates
// ---------------------------------------------------------------------------

/// Prints one line of counts, flags and times, and one with the version of the container
/// runtime.
pub const SECURITY_SCRIPT: &'static str = r#"
updates=0
security=0
container_update=0
package_supported=0
last=
lines=

if command -v apt-get >/dev/null 2>&1; then
  package_supported=1
  lines=$(LC_ALL=C apt list --upgradable 2>/dev/null | sed '1d')
  updates=$(printf '%s\n' "$lines" | awk 'NF {n++} END {print n+0}')
  security=$(printf '%s\n' "$lines" | grep -Eic 'security|ubuntu.*-security' || true)
  last=$(stat -c %y /var/lib/apt/periodic/update-success-stamp 2>/dev/null || stat -c %y /var/lib/apt/lists 2>/dev/null || true)
elif command -v dnf >/dev/null 2>&1 || command -v yum >/dev/null 2>&1; then
  package_supported=1
  if command -v dnf >/dev/null 2>&1; then manager=dnf; else manager=yum; fi
  lines=$(LC_ALL=C "$manager" -q check-update 2>/dev/null || true)
  updates=$(printf '%s\n' "$lines" | awk 'NF >= 3 && $1 !~ /^Last/ {n++} END {print n+0}')
  security=$(LC_ALL=C "$manager" -q updateinfo list security updates 2>/dev/null | awk 'NF >= 3 {n++} END {print n+0}')
  last=$(stat -c %y "/var/cache/$manager" 2>/dev/null || true)
elif command -v zypper >/dev/null 2>&1; then
  package_supported=1
  lines=$(LC_ALL=C zypper --non-interactive list-updates 2>/dev/null || true)
  updates=$(printf '%s\n' "$lines" | awk -F '|' '$1 ~ /^[[:space:]]*v[[:space:]]*$/ {n++} END {print n+0}')
  security=$(LC_ALL=C zypper --non-interactive list-patches --category security 2>/dev/null | awk -F '|' '$1 ~ /^[[:space:]]*needed[[:space:]]*$/ {n++} END {print n+0}')
  last=$(stat -c %y /var/cache/zypp 2>/dev/null || true)
elif command -v pacman >/dev/null 2>&1; then
  package_supported=1
  lines=$(LC_ALL=C pacman -Qu 2>/dev/null || true)
  updates=$(printf '%s\n' "$lines" | awk 'NF {n++} END {print n+0}')
  last=$(stat -c %y /var/lib/pacman/sync 2>/dev/null || true)
elif command -v apk >/dev/null 2>&1; then
  package_supported=1
  lines=$(LC_ALL=C apk version -l '<' 2>/dev/null || true)
  updates=$(printf '%s\n' "$lines" | awk 'NF {n++} END {print n+0}')
  if apk audit --help >/dev/null 2>&1; then security=$(LC_ALL=C apk audit 2>/dev/null | awk 'NF {n++} END {print n+0}'); fi
  last=$(stat -c %y /var/cache/apk 2>/dev/null || true)
fi

printf '%s\n' "$lines" | grep -Eiq '^(docker|containerd|podman)' && container_update=1
reboot=0
if [ -e /var/run/reboot-required ]; then reboot=1
elif command -v needs-restarting >/dev/null 2>&1; then needs-restarting -r >/dev/null 2>&1 || reboot=1
fi
printf '%s\t%s\t%s\t%s\t%s\t%s\t%s\n' "$updates" "$security" "$reboot" "$(uname -r 2>/dev/null || printf unknown)" "$last" "$container_update" "$package_supported"
(docker --version 2>/dev/null || podman --version 2>/dev/null || true)
"#;

pub open spec fn count_in(fields: Seq<Seq<char>>, at: int) -> usize {
    if at < fields.len() {
        match unsigned_of(fields[at], usize::MAX as int) {
            Some(n) => n as usize,
            None => 0,
        }
    } else {
        0
    }
}

pub open spec fn flag_in(fields: Seq<Seq<char>>, at: int) -> bool {
    at < fields.len() && fields[at] == "1"@
}

/// A text that is not blank.
pub open spec fn filled_in(items: Seq<Seq<char>>, at: int) -> Option<Seq<char>> {
    if at < items.len() && trim(items[at]).len() > 0 {
        Some(items[at])
    } else {
        None
    }
}

/// The state of a server's updates.
pub open spec fn security_of(text: Seq<char>) -> SecuritySnapshotView {
    let lines = lines_of(text);
    let fields = if lines.len() > 0 {
        parts_of(lines[0], '\t')
    } else {
        parts_of(Seq::empty(), '\t')
    };
    SecuritySnapshotView {
        updates: count_in(fields, 0),
        security_updates: count_in(fields, 1),
        reboot_required: flag_in(fields, 2),
        last_package_update: filled_in(fields, 4),
        kernel_version: if fields.len() > 3 {
            fields[3]
        } else {
            "unknown"@
        },
        container_version: filled_in(lines, 1),
        container_update_available: flag_in(fields, 5),
        package_updates_available: flag_in(fields, 6),
    }
}

fn read_count(fields: &[Vec<char>], at: usize) -> (res: usize)
    ensures
        res == count_in(views(fields@), at as int),
{
    if at < fields.len() {
        assert(views(fields@)[at as int] == fields@[at as int]@);
        match parse_unsigned(fields[at].as_slice(), usize::MAX as u64) {
            Some(n) => n as usize,
            None => 0,
        }
    } else {
        0
    }
}

fn read_flag(fields: &[Vec<char>], at: usize) -> (res: bool)
    ensures
        res == flag_in(views(fields@), at as int),
{
    if at < fields.len() {
        assert(views(fields@)[at as int] == fields@[at as int]@);
        is_text(fields[at].as_slice(), "1")
    } else {
        false
    }
}

fn read_text(items: &[Vec<char>], at: usize) -> (res: Option<String>)
    ensures
        opt_view(res) == filled_in(views(items@), at as int),
{
    if at < items.len() {
        assert(views(items@)[at as int] == items@[at as int]@);
        if trimmed(items[at].as_slice()).len() > 0 {
            return Some(string_of(items[at].as_slice()));
        }
    }
    None
}

/// The state of a server's updates.
pub fn parse_security(text: &str) -> (res: SecuritySnapshot)
    ensures
        res@ == security_of(text@),
{
    let lines = lines_str(text);
    let none: Vec<char> = Vec::new();
    assert(none@ =~= Seq::empty());
    let fields = if lines.len() > 0 {
        assert(views(lines@)[0] == lines@[0]@);
        parts(lines[0].as_slice(), '\t')
    } else {
        parts(&none, '\t')
    };
    let kernel_version = if fields.len() > 3 {
        assert(views(fields@)[3] == fields@[3]@);
        string_of(fields[3].as_slice())
    } else {
        copy("unknown")
    };
    SecuritySnapshot {
        updates: read_count(&fields, 0),
        security_updates: read_count(&fields, 1),
        reboot_required: read_flag(&fields, 2),
        last_package_update: read_text(&fields, 4),
        kernel_version,
        container_version: read_text(&lines, 1),
        container_update_available: read_flag(&fields, 5),
        package_updates_available: read_flag(&fields, 6),
    }
}

pub open spec fn security_result(res: Result<SecuritySnapshot, String>) -> Result<
    SecuritySnapshotView,
    Seq<char>,
> {
    match res {
        Ok(snapshot) => Ok(snapshot@),
        Err(error) => Err(error@),
    }
}

/// The state of a server's updates, where the script ran.
pub fn security(output: &ExecOutput) -> (res: Result<SecuritySnapshot, String>)
    ensures
        security_result(res) == if output.exit_code == 0 {
            Ok::<SecuritySnapshotView, Seq<char>>(security_of(output.stdout@))
        } else {
            Err(failure_text(*output))
        },
{
    if output.exit_code == 0 {
        Ok(parse_security(output.stdout.as_str()))
    } else {
        Err(command_error(output))
    }
}

// ---------------------------------------------------------------------------
// Quick actions and commands
// ---------------------------------------------------------------------------

pub const REBOOT_COMMAND: &'static str = "if command -v shutdown >/dev/null 2>&1; then shutdown -r +1 'Scheduled by Serverbox'; elif command -v systemctl >/dev/null 2>&1 && [ -d /run/systemd/system ]; then systemctl reboot; elif command -v reboot >/dev/null 2>&1; then reboot; else echo 'No supported reboot command is installed' >&2; exit 69; fi";

pub const SHUTDOWN_COMMAND: &'static str = "if command -v shutdown >/dev/null 2>&1; then shutdown -h +1 'Scheduled by Serverbox'; elif command -v systemctl >/dev/null 2>&1 && [ -d /run/systemd/system ]; then systemctl poweroff; elif command -v poweroff >/dev/null 2>&1; then poweroff; else echo 'No supported shutdown command is installed' >&2; exit 69; fi";

pub const CLEAR_CACHE_COMMAND: &'static str = "sync; echo 3 > /proc/sys/vm/drop_caches";

pub const RESTART_SSH_COMMAND: &'static str = "if ! { command -v systemctl >/dev/null 2>&1 && [ -d /run/systemd/system ]; } && ! command -v rc-service >/dev/null 2>&1 && ! command -v service >/dev/null 2>&1; then echo 'No supported service manager is available to restart SSH' >&2; exit 69; fi; nohup sh -c 'sleep 1; if command -v systemctl >/dev/null 2>&1 && [ -d /run/systemd/system ]; then systemctl restart ssh.service 2>/dev/null || systemctl restart sshd.service; elif command -v rc-service >/dev/null 2>&1; then rc-service sshd restart 2>/dev/null || rc-service ssh restart; else service ssh restart 2>/dev/null || service sshd restart; fi' >/dev/null 2>&1 &";

pub const RESTART_DOCKER_COMMAND: &'static str = "if command -v systemctl >/dev/null 2>&1 && [ -d /run/systemd/system ]; then systemctl restart docker.service 2>/dev/null || systemctl restart podman.service; elif command -v rc-service >/dev/null 2>&1; then rc-service docker restart 2>/dev/null || rc-service podman restart; elif command -v service >/dev/null 2>&1; then service docker restart 2>/dev/null || service podman restart; else echo 'No supported service manager is available to restart the container runtime' >&2; exit 69; fi";

pub const UPDATE_INDEX_COMMAND: &'static str = "if command -v apt-get >/dev/null 2>&1; then apt-get update; elif command -v dnf >/dev/null 2>&1; then dnf makecache; elif command -v yum >/dev/null 2>&1; then yum makecache; elif command -v zypper >/dev/null 2>&1; then zypper --non-interactive refresh; elif command -v pacman >/dev/null 2>&1; then pacman -Sy --noconfirm; elif command -v apk >/dev/null 2>&1; then apk update; else echo 'No supported package manager is installed (APT, DNF, YUM, Zypper, Pacman, or APK)' >&2; exit 69; fi";

pub const INSTALL_TOOLS_COMMAND: &'static str = "if command -v apt-get >/dev/null 2>&1; then DEBIAN_FRONTEND=noninteractive apt-get install -y curl git htop jq; elif command -v dnf >/dev/null 2>&1; then dnf install -y curl git htop jq; elif command -v yum >/dev/null 2>&1; then yum install -y curl git htop jq; elif command -v zypper >/dev/null 2>&1; then zypper --non-interactive install curl git htop jq; elif command -v pacman >/dev/null 2>&1; then pacman -S --needed --noconfirm curl git htop jq; elif command -v apk >/dev/null 2>&1; then apk add curl git htop jq; else echo 'No supported package manager is installed (APT, DNF, YUM, Zypper, Pacman, or APK)' >&2; exit 69; fi";

/// The command of a quick action.
pub open spec fn quick_text(action: Seq<char>) -> Result<Seq<char>, Seq<char>> {
    if action == "reboot"@ {
        Ok(REBOOT_COMMAND@)
    } else if action == "shutdown"@ {
        Ok(SHUTDOWN_COMMAND@)
    } else if action == "clear-cache"@ {
        Ok(CLEAR_CACHE_COMMAND@)
    } else if action == "restart-ssh"@ {
        Ok(RESTART_SSH_COMMAND@)
    } else if action == "restart-docker"@ {
        Ok(RESTART_DOCKER_COMMAND@)
    } else if action == "update-index"@ {
        Ok(UPDATE_INDEX_COMMAND@)
    } else if action == "install-tools"@ {
        Ok(INSTALL_TOOLS_COMMAND@)
    } else {
        Err("Unsupported server action"@)
    }
}

pub fn quick_action(action: &str) -> (res: Result<String, String>)
    ensures
        text_result(res) == quick_text(action@),
{
    if same(action, "reboot") {
        Ok(copy(REBOOT_COMMAND))
    } else if same(action, "shutdown") {
        Ok(copy(SHUTDOWN_COMMAND))
    } else if same(action, "clear-cache") {
        Ok(copy(CLEAR_CACHE_COMMAND))
    } else if same(action, "restart-ssh") {
        Ok(copy(RESTART_SSH_COMMAND))
    } else if same(action, "restart-docker") {
        Ok(copy(RESTART_DOCKER_COMMAND))
    } else if same(action, "update-index") {
        Ok(copy(UPDATE_INDEX_COMMAND))
    } else if same(action, "install-tools") {
        Ok(copy(INSTALL_TOOLS_COMMAND))
    } else {
        Err(copy("Unsupported server action"))
    }
}

/// The most bytes of a command.
pub const MAX_COMMAND_BYTES: usize = 20000;

pub fn check_command(command: &str) -> (res: Result<(), String>)
    ensures
        error_result(res) == if trim(command@).len() == 0 || byte_len(command@)
            > MAX_COMMAND_BYTES {
            Err::<(), Seq<char>>("Enter a command no larger than 20 KB"@)
        } else {
            Ok(())
        },
{
    if trim_str(command).as_str().is_empty() || byte_length(command) > MAX_COMMAND_BYTES {
        Err(copy("Enter a command no larger than 20 KB"))
    } else {
        Ok(())
    }
}

/// What a command that was run on a server printed, bounded.
pub fn run_command(server_id: &str, server_name: &str, output: ExecOutput) -> (res: CommandResult)
    ensures
        res@ == (CommandResultView {
            server_id: server_id@,
            server_name: server_name@,
            stdout: bounded(output.stdout@),
            stderr: bounded(output.stderr@),
            exit_code: output.exit_code,
            error: None,
        }),
{
    CommandResult {
        server_id: copy(server_id),
        server_name: copy(server_name),
        stdout: bounded_output(output.stdout),
        stderr: bounded_output(output.stderr),
        exit_code: output.exit_code,
        error: None,
    }
}

/// A rule is written only for a port that there is, and for TCP or UDP.
pub proof fn rules_are_sound(
    action: Seq<char>,
    port: Option<u32>,
    protocol: Option<Seq<char>>,
    source: Option<Seq<char>>,
)
    ensures
        firewall_plan(action, port, protocol, source) matches Ok(FirewallPlanView::Rule {
            allow,
            port: number,
            protocol: named,
            source: from,
        }) ==> {
            &&& number >= 1 && port == Some(number as u32)
            &&& named == "tcp"@ || named == "udp"@
            &&& from == source
            &&& allow == (action == "allow"@)
            &&& from matches Some(text) ==> every_char(text, address_char())
        },
{
}

/// Which requests to a firewall are taken, and what each comes to: a rule for one port that
/// is a port, over TCP unless UDP was asked for, from anywhere or from one address.
pub proof fn firewall_requests_are_taken_as_meant(
    action: Seq<char>,
    port: Option<u32>,
    protocol: Option<Seq<char>>,
    source: Option<Seq<char>>,
)
    requires
        protocol is None || protocol == Some("tcp"@) || protocol == Some("udp"@),
        source matches Some(text) ==> forall|i: int|
            0 <= i < text.len() ==> is_digit(#[trigger] text[i]) || 'a' <= text[i] <= 'f' || 'A'
                <= text[i] <= 'F' || text[i] == '.' || text[i] == ':' || text[i] == '/',
    ensures
        firewall_plan("enable"@, port, protocol, source) == Ok::<FirewallPlanView, Seq<char>>(
            FirewallPlanView::Enable,
        ),
        firewall_plan("disable"@, port, protocol, source) == Ok::<FirewallPlanView, Seq<char>>(
            FirewallPlanView::Disable,
        ),
        port matches Some(n) ==> 1 <= n <= 65535 ==> {
            &&& firewall_plan("allow"@, port, protocol, source) matches Ok(FirewallPlanView::Rule {
                allow,
                port: number,
                protocol: named,
                source: from,
            }) && allow && number == n && from == source && named == (match protocol {
                Some(name) => name,
                None => "tcp"@,
            })
            &&& firewall_plan("deny"@, port, protocol, source) matches Ok(FirewallPlanView::Rule {
                allow,
                port: number,
                protocol: named,
                source: from,
            }) && !allow && number == n && from == source && named == (match protocol {
                Some(name) => name,
                None => "tcp"@,
            })
        },
        !(port matches Some(n) && 1 <= n <= 65535) ==> firewall_plan(
            "allow"@,
            port,
            protocol,
            source,
        ) is Err && firewall_plan("deny"@, port, protocol, source) is Err,
        action != "enable"@ && action != "disable"@ && action != "allow"@ && action != "deny"@
            ==> firewall_plan(action, port, protocol, source) is Err,
{
    reveal_strlit("enable");
    reveal_strlit("disable");
    reveal_strlit("allow");
    reveal_strlit("deny");
    assert("enable"@.len() == 6);
    assert("disable"@.len() == 7);
    assert("allow"@.len() == 5);
    assert("deny"@.len() == 4);
    reveal_strlit("tcp");
    reveal_strlit("udp");
    assert("tcp"@.len() == 3);
    assert("udp"@.len() == 3);
    assert("tcp"@[0] == 't');
    assert("udp"@[0] == 'u');
    if let Some(text) = source {
        assert forall|i: int| 0 <= i < text.len() implies address_char()(#[trigger] text[i]) by {
        }
    }
}

/// Each firewall is told what the plan says, in its own words: what is allowed is allowed and
/// what is denied is not.
pub proof fn firewalls_are_told_the_plan(port: u16, protocol: Seq<char>, address: Seq<char>)
    ensures
        firewall_text("ufw"@, FirewallPlanView::Enable) == Ok::<Seq<char>, Seq<char>>(
            "ufw --force enable"@,
        ),
        firewall_text("ufw"@, FirewallPlanView::Disable) == Ok::<Seq<char>, Seq<char>>(
            "ufw disable"@,
        ),
        firewall_text(
            "ufw"@,
            FirewallPlanView::Rule { allow: true, port, protocol, source: None },
        ) == Ok::<Seq<char>, Seq<char>>("ufw allow "@ + decimal(port as nat) + "/"@ + protocol),
        firewall_text(
            "ufw"@,
            FirewallPlanView::Rule { allow: false, port, protocol, source: None },
        ) == Ok::<Seq<char>, Seq<char>>("ufw deny "@ + decimal(port as nat) + "/"@ + protocol),
        firewall_text(
            "ufw"@,
            FirewallPlanView::Rule { allow: true, port, protocol, source: Some(address) },
        ) == Ok::<Seq<char>, Seq<char>>(
            "ufw allow "@ + "from "@ + address + " to any port "@ + decimal(port as nat)
                + " proto "@ + protocol,
        ),
        firewall_text(
            "ufw"@,
            FirewallPlanView::Rule { allow: false, port, protocol, source: Some(address) },
        ) == Ok::<Seq<char>, Seq<char>>(
            "ufw deny "@ + "from "@ + address + " to any port "@ + decimal(port as nat)
                + " proto "@ + protocol,
        ),
        firewall_text("firewalld"@, FirewallPlanView::Enable) == Ok::<Seq<char>, Seq<char>>(
            "systemctl enable --now firewalld"@,
        ),
        firewall_text("firewalld"@, FirewallPlanView::Disable) == Ok::<Seq<char>, Seq<char>>(
            "systemctl disable --now firewalld"@,
        ),
        firewall_text(
            "firewalld"@,
            FirewallPlanView::Rule { allow: true, port, protocol, source: None },
        ) == Ok::<Seq<char>, Seq<char>>(
            "firewall-cmd --permanent --add-port="@ + decimal(port as nat) + "/"@ + protocol
                + " && firewall-cmd --reload"@,
        ),
        firewall_text(
            "firewalld"@,
            FirewallPlanView::Rule { allow: false, port, protocol, source: None },
        ) == Ok::<Seq<char>, Seq<char>>(
            "firewall-cmd --permanent --remove-port="@ + decimal(port as nat) + "/"@ + protocol
                + " && firewall-cmd --reload"@,
        ),
        firewall_text(
            "firewalld"@,
            FirewallPlanView::Rule { allow: true, port, protocol, source: Some(address) },
        ) == Ok::<Seq<char>, Seq<char>>(
            "firewall-cmd --permanent --add-rich-rule='rule source address="@ + address
                + " port port="@ + decimal(port as nat) + " protocol="@ + protocol
                + " accept' && firewall-cmd --reload"@,
        ),
        firewall_text(
            "firewalld"@,
            FirewallPlanView::Rule { allow: false, port, protocol, source: Some(address) },
        ) == Ok::<Seq<char>, Seq<char>>(
            "firewall-cmd --permanent --add-rich-rule='rule source address="@ + address
                + " port port="@ + decimal(port as nat) + " protocol="@ + protocol
                + " drop' && firewall-cmd --reload"@,
        ),
        firewall_text(Seq::empty(), FirewallPlanView::Enable) is Err,
{
    reveal_strlit("ufw");
    reveal_strlit("firewalld");
    assert("ufw"@.len() == 3);
    assert("firewalld"@.len() == 9);
    let none = Seq::<char>::empty();
    assert(none + "ufw"@ + none =~= "ufw"@);
    assert(none + "firewalld"@ + none =~= "firewalld"@);
    assert(none + none + none =~= none);
    assert(!is_space("ufw"@[0]) && !is_space("ufw"@[2]));
    assert(!is_space("firewalld"@[0]) && !is_space("firewalld"@[8]));
    trimming_takes_off_spaces(none, "ufw"@, none);
    trimming_takes_off_spaces(none, "firewalld"@, none);
    trimming_takes_off_spaces(none, none, none);
}

/// A firewall is shown as the one that answered, on where the first line of its status says
/// so; without one there is nothing to show.
pub proof fn firewalls_are_shown_as_they_are(probe: Seq<char>, status: Seq<char>)
    ensures
        trim(probe).len() == 0 ==> firewall_of(probe, status).provider is None && !firewall_of(
            probe,
            status,
        ).enabled && firewall_of(probe, status).rules.len() == 0,
        trim(probe).len() > 0 ==> firewall_of(probe, status).provider == Some(trim(probe)),
        trim(probe) == "ufw"@ ==> (firewall_of(probe, status).enabled <==> lines_of(status).len()
            > 0 && lower(trim(lines_of(status)[0])) == lower("Status: active"@)),
        trim(probe) == "firewalld"@ ==> (firewall_of(probe, status).enabled <==> lines_of(
            status,
        ).len() > 0 && trim(lines_of(status)[0]) == "running"@),
{
    reveal_strlit("ufw");
    reveal_strlit("firewalld");
    assert("ufw"@.len() == 3);
    assert("firewalld"@.len() == 9);
}

/// A key is read back from its record: its fingerprint, its kind, its comment and the whole
/// line, by which it can be removed again.
pub proof fn keys_read_back(
    fingerprint: Seq<char>,
    kind: Seq<char>,
    blob: Seq<char>,
    comment: Seq<Seq<char>>,
    id: u64,
)
    requires
        !fingerprint.contains('\t'),
        is_word(kind),
        is_word(blob),
        starts_with(kind, "ssh-"@) || starts_with(kind, "ecdsa-"@) || starts_with(kind, "sk-"@),
        forall|i: int| 0 <= i < comment.len() ==> is_word(#[trigger] comment[i]),
    ensures
        key_of(
            fingerprint + seq!['\t'] + join(seq![kind, blob] + comment, " "@),
            id,
        ) matches Some(key) && {
            &&& key.fingerprint == fingerprint
            &&& key.kind == kind
            &&& key.comment == join(comment, " "@)
            &&& key.key == join(seq![kind, blob] + comment, " "@)
            &&& key.id == hex_text(id as nat, 16)
        },
{
    let fields = seq![kind, blob] + comment;
    splits_read_back(fingerprint, '\t', join(fields, " "@));
    assert forall|i: int| 0 <= i < fields.len() implies is_word(#[trigger] fields[i]) by {
        if i >= 2 {
            assert(fields[i] == comment[i - 2]);
        }
    }
    joined_words_read_back(fields);
    assert(fields.skip(2) =~= comment);
    assert(is_key_kind()(fields[0]));
}

/// A key is added once, and removed by its whole line: the command names it as one word and
/// touches no other line.
pub proof fn keys_are_changed_by_their_line(action: Seq<char>, key: Seq<char>)
    ensures
        key_action_text("add"@, key) matches Ok(command) ==> {
            &&& command
                == "umask 077; mkdir -p ~/.ssh; touch ~/.ssh/authorized_keys; grep -Fqx -- "@
                + quoted(key) + " ~/.ssh/authorized_keys || printf '%s\\n' "@ + quoted(key)
                + " >> ~/.ssh/authorized_keys"@
            &&& contains_text(key, "ssh-"@) || contains_text(key, "ecdsa-"@) || contains_text(
                key,
                "sk-"@,
            )
        },
        key_action_text("remove"@, key) matches Ok(command) ==> command
            == "test ! -f ~/.ssh/authorized_keys || { tmp=$(mktemp); grep -Fvx -- "@ + quoted(key)
            + " ~/.ssh/authorized_keys > \"$tmp\" || true; cat \"$tmp\" > ~/.ssh/authorized_keys; rm -f \"$tmp\"; }"@,
        key_action_text(action, key) is Ok ==> !key.contains('\n') && byte_len(key) <= 20000 && (
        action == "add"@ || action == "remove"@),
        !key.contains('\n') && byte_len(key) <= 20000 ==> key_action_text("remove"@, key) is Ok,
        !key.contains('\n') && byte_len(key) <= 20000 && contains_text(key, "ssh-"@)
            ==> key_action_text("add"@, key) is Ok,
{
    reveal_strlit("add");
    reveal_strlit("remove");
    assert("add"@.len() == 3);
    assert("remove"@.len() == 6);
}

/// What is known of a server's updates is read back from the line that tells it.
pub proof fn security_reads_back(fields: Seq<Seq<char>>, updates: usize, urgent: usize, version: Seq<char>)
    requires
        fields.len() == 7,
        forall|i: int| 0 <= i < fields.len() ==> !(#[trigger] fields[i]).contains('\t'),
        is_line(join(fields, seq!['\t'])),
        is_line(version),
        unsigned_of(fields[0], usize::MAX as int) == Some(updates as int),
        unsigned_of(fields[1], usize::MAX as int) == Some(urgent as int),
    ensures
        ({
            let told = security_of(
                join(seq![join(fields, seq!['\t']), version], "\n"@) + "\n"@,
            );
            &&& told.updates == updates
            &&& told.security_updates == urgent
            &&& told.reboot_required <==> fields[2] == "1"@
            &&& told.kernel_version == fields[3]
            &&& trim(fields[4]).len() > 0 ==> told.last_package_update == Some(fields[4])
            &&& told.container_update_available <==> fields[5] == "1"@
            &&& told.package_updates_available <==> fields[6] == "1"@
            &&& trim(version).len() > 0 ==> told.container_version == Some(version)
        }),
{
    joined_parts_read_back(fields, '\t');
    joined_lines_read_back(seq![join(fields, seq!['\t']), version]);
}

/// What each of the maintenance actions runs.
pub proof fn maintenance_runs_these_commands(action: Seq<char>)
    ensures
        quick_text("reboot"@) == Ok::<Seq<char>, Seq<char>>(
            "if command -v shutdown >/dev/null 2>&1; then shutdown -r +1 'Scheduled by Serverbox'; elif command -v systemctl >/dev/null 2>&1 && [ -d /run/systemd/system ]; then systemctl reboot; elif command -v reboot >/dev/null 2>&1; then reboot; else echo 'No supported reboot command is installed' >&2; exit 69; fi"@,
        ),
        quick_text("shutdown"@) == Ok::<Seq<char>, Seq<char>>(
            "if command -v shutdown >/dev/null 2>&1; then shutdown -h +1 'Scheduled by Serverbox'; elif command -v systemctl >/dev/null 2>&1 && [ -d /run/systemd/system ]; then systemctl poweroff; elif command -v poweroff >/dev/null 2>&1; then poweroff; else echo 'No supported shutdown command is installed' >&2; exit 69; fi"@,
        ),
        quick_text("clear-cache"@) == Ok::<Seq<char>, Seq<char>>(
            "sync; echo 3 > /proc/sys/vm/drop_caches"@,
        ),
        quick_text("restart-ssh"@) == Ok::<Seq<char>, Seq<char>>(
            "if ! { command -v systemctl >/dev/null 2>&1 && [ -d /run/systemd/system ]; } && ! command -v rc-service >/dev/null 2>&1 && ! command -v service >/dev/null 2>&1; then echo 'No supported service manager is available to restart SSH' >&2; exit 69; fi; nohup sh -c 'sleep 1; if command -v systemctl >/dev/null 2>&1 && [ -d /run/systemd/system ]; then systemctl restart ssh.service 2>/dev/null || systemctl restart sshd.service; elif command -v rc-service >/dev/null 2>&1; then rc-service sshd restart 2>/dev/null || rc-service ssh restart; else service ssh restart 2>/dev/null || service sshd restart; fi' >/dev/null 2>&1 &"@,
        ),
        quick_text("restart-docker"@) == Ok::<Seq<char>, Seq<char>>(
            "if command -v systemctl >/dev/null 2>&1 && [ -d /run/systemd/system ]; then systemctl restart docker.service 2>/dev/null || systemctl restart podman.service; elif command -v rc-service >/dev/null 2>&1; then rc-service docker restart 2>/dev/null || rc-service podman restart; elif command -v service >/dev/null 2>&1; then service docker restart 2>/dev/null || service podman restart; else echo 'No supported service manager is available to restart the container runtime' >&2; exit 69; fi"@,
        ),
        quick_text("update-index"@) == Ok::<Seq<char>, Seq<char>>(
            "if command -v apt-get >/dev/null 2>&1; then apt-get update; elif command -v dnf >/dev/null 2>&1; then dnf makecache; elif command -v yum >/dev/null 2>&1; then yum makecache; elif command -v zypper >/dev/null 2>&1; then zypper --non-interactive refresh; elif command -v pacman >/dev/null 2>&1; then pacman -Sy --noconfirm; elif command -v apk >/dev/null 2>&1; then apk update; else echo 'No supported package manager is installed (APT, DNF, YUM, Zypper, Pacman, or APK)' >&2; exit 69; fi"@,
        ),
        quick_text("install-tools"@) == Ok::<Seq<char>, Seq<char>>(
            "if command -v apt-get >/dev/null 2>&1; then DEBIAN_FRONTEND=noninteractive apt-get install -y curl git htop jq; elif command -v dnf >/dev/null 2>&1; then dnf install -y curl git htop jq; elif command -v yum >/dev/null 2>&1; then yum install -y curl git htop jq; elif command -v zypper >/dev/null 2>&1; then zypper --non-interactive install curl git htop jq; elif command -v pacman >/dev/null 2>&1; then pacman -S --needed --noconfirm curl git htop jq; elif command -v apk >/dev/null 2>&1; then apk add curl git htop jq; else echo 'No supported package manager is installed (APT, DNF, YUM, Zypper, Pacman, or APK)' >&2; exit 69; fi"@,
        ),
        quick_text(action) is Ok ==> action == "reboot"@ || action == "shutdown"@ || action == "clear-cache"@ || action == "restart-ssh"@ || action == "restart-docker"@ || action == "update-index"@ || action == "install-tools"@,
        UFW_STATUS_COMMAND@ == "LC_ALL=C ufw status numbered"@,
        FIREWALLD_STATUS_COMMAND@ == "firewall-cmd --state 2>/dev/null; firewall-cmd --list-all 2>/dev/null"@,
{
    reveal_strlit("reboot");
    reveal_strlit("shutdown");
    reveal_strlit("clear-cache");
    reveal_strlit("restart-ssh");
    reveal_strlit("restart-docker");
    reveal_strlit("update-index");
    reveal_strlit("install-tools");
    assert("reboot"@.len() == 6);
    assert("shutdown"@.len() == 8);
    assert("clear-cache"@.len() == 11);
    assert("restart-ssh"@.len() == 11);
    assert("restart-docker"@.len() == 14);
    assert("update-index"@.len() == 12);
    assert("install-tools"@.len() == 13);
    assert("clear-cache"@[0] == 'c');
    assert("restart-ssh"@[0] == 'r');
}

/// Hexadecimal digits are those of the number: each stands for sixteen times what stands
/// behind it.
pub proof fn hexadecimal_reads_back(n: nat, count: nat)
    ensures
        hex_text(n, count).len() == count,
        n < 16 ==> hex_text(n, count + 1).last() == "0123456789abcdef"@[n as int],
        hex_text(n, count + 1) == hex_text(n / 16, count).push("0123456789abcdef"@[(n % 16) as int]),
    decreases count,
{
    reveal_strlit("0123456789abcdef");
    let d = n % 16;
    assert(hex_digit(d) == "0123456789abcdef"@[d as int]);
    if count > 0 {
        hexadecimal_reads_back(n / 16, (count - 1) as nat);
    }
}

/// A firewall is asked for its status by its own tool, UFW with root rights; without a
/// firewall nothing is asked.
pub proof fn firewalls_are_asked_by_their_tool(probe: Seq<char>)
    ensures
        trim(probe).len() == 0 <==> status_command(probe) is None,
        trim(probe) == "ufw"@ && trim(probe).len() > 0 ==> status_command(probe) == Some(
            (true, "LC_ALL=C ufw status numbered"@),
        ),
        trim(probe) == "firewalld"@ && trim(probe).len() > 0 ==> status_command(probe) == Some(
            (false, "firewall-cmd --state 2>/dev/null; firewall-cmd --list-all 2>/dev/null"@),
        ),
        FIREWALL_PROBE@ == "if command -v ufw >/dev/null 2>&1; then echo ufw; elif command -v firewall-cmd >/dev/null 2>&1; then echo firewalld; fi"@,
        MAX_AUTHORIZED_KEYS == 1000,
        MAX_COMMAND_BYTES == 20000,
{
    reveal_strlit("ufw");
    reveal_strlit("firewalld");
    assert("ufw"@.len() == 3);
    assert("firewalld"@.len() == 9);
}

} // verus!
