//! The probe of what a server offers.
use crate::models::{ServerCapabilities, ServerCapabilitiesView};
use crate::text::{
    copy, is_space, is_text, lines_of, lines_str, split_at_char, split_char, splits_read_back,
    string_of, trim, trimmed, trimming_takes_off_spaces, views,
};
use vstd::prelude::*;

verus! {

broadcast use vstd::string::group_string_axioms;

/// Prints one `field<TAB>value` line for each thing found.
pub const CAPABILITIES_PROBE: &'static str = r#"printf 'distro\t'; os_release=; if [ -r /etc/os-release ]; then os_release=/etc/os-release; elif [ -r /usr/lib/os-release ]; then os_release=/usr/lib/os-release; fi; if [ -n "$os_release" ]; then . "$os_release"; printf '%s' "${PRETTY_NAME:-${NAME:-Linux}}"; else uname -s 2>/dev/null || printf Linux; fi; printf '\narchitecture\t'; uname -m 2>/dev/null || printf unknown; if command -v systemctl >/dev/null 2>&1 && [ -d /run/systemd/system ]; then printf '\ncommand\tsystemctl'; fi; for name in docker podman sudo ss netstat journalctl crontab; do if command -v "$name" >/dev/null 2>&1; then printf '\ncommand\t%s' "$name"; fi; done; printf '\nroot\t'; if [ "$(id -u 2>/dev/null)" = 0 ]; then printf true; else printf false; fi; printf '\nlogread\t'; if command -v logread >/dev/null 2>&1 && logread -l 1 >/dev/null 2>&1; then printf true; else printf false; fi; printf '\ncoreutils\t'; case "$(ls --version 2>/dev/null | head -n 1)" in *'GNU coreutils'*) printf GNU ;; *) if command -v busybox >/dev/null 2>&1; then printf BusyBox; else printf POSIX/other; fi ;; esac; printf '\npackageManager\t'; for name in apt-get dnf yum zypper pacman apk; do if command -v "$name" >/dev/null 2>&1; then printf '%s' "$name"; break; fi; done"#;

/// The trimmed value of a `field<TAB>value` line.
pub open spec fn field_value(line: Seq<char>, field: Seq<char>) -> Option<Seq<char>> {
    match split_at_char(line, '\t') {
        Some((name, value)) => if name == field {
            Some(trim(value))
        } else {
            None
        },
        None => None,
    }
}

/// The last value of `field` that is not blank.
pub open spec fn last_value(lines: Seq<Seq<char>>, field: Seq<char>) -> Option<Seq<char>>
    decreases lines.len(),
{
    if lines.len() == 0 {
        None
    } else {
        match field_value(lines.last(), field) {
            Some(value) => if value.len() > 0 {
                Some(value)
            } else {
                last_value(lines.drop_last(), field)
            },
            None => last_value(lines.drop_last(), field),
        }
    }
}

/// Whether the last line of `field` says `true`.
pub open spec fn last_flag(lines: Seq<Seq<char>>, field: Seq<char>) -> bool
    decreases lines.len(),
{
    if lines.len() == 0 {
        false
    } else {
        match field_value(lines.last(), field) {
            Some(value) => value == "true"@,
            None => last_flag(lines.drop_last(), field),
        }
    }
}

/// Whether the command `name` was found.
pub open spec fn offers(lines: Seq<Seq<char>>, name: Seq<char>) -> bool {
    exists|i: int|
        0 <= i < lines.len() && field_value(#[trigger] lines[i], "command"@) == Some(name)
}

/// The first of the two socket tools that was found.
pub open spec fn first_tool(lines: Seq<Seq<char>>) -> Option<Seq<char>>
    decreases lines.len(),
{
    if lines.len() == 0 {
        None
    } else {
        match first_tool(lines.drop_last()) {
            Some(tool) => Some(tool),
            None => match field_value(lines.last(), "command"@) {
                Some(name) => if name == "ss"@ || name == "netstat"@ {
                    Some(name)
                } else {
                    None
                },
                None => None,
            },
        }
    }
}

pub open spec fn or_text(value: Option<Seq<char>>, other: Seq<char>) -> Seq<char> {
    match value {
        Some(text) => text,
        None => other,
    }
}

/// The capabilities that a probe's output shows.
pub open spec fn probed(lines: Seq<Seq<char>>) -> ServerCapabilitiesView {
    ServerCapabilitiesView {
        distro: last_value(lines, "distro"@),
        package_manager: last_value(lines, "packageManager"@),
        init_system: if offers(lines, "systemctl"@) {
            Some("systemd"@)
        } else {
            None
        },
        systemd: offers(lines, "systemctl"@),
        docker: offers(lines, "docker"@),
        podman: offers(lines, "podman"@),
        sudo: offers(lines, "sudo"@),
        network_tool: first_tool(lines),
        journalctl: offers(lines, "journalctl"@),
        logread: last_flag(lines, "logread"@),
        cron: offers(lines, "crontab"@),
        architecture: or_text(last_value(lines, "architecture"@), "unknown"@),
        coreutils_variant: or_text(last_value(lines, "coreutils"@), "POSIX/other"@),
        root: last_flag(lines, "root"@),
    }
}

/// The last value of `field` that is not blank.
fn find_value(lines: &[Vec<char>], field: &str) -> (res: Option<String>)
    ensures
        crate::text::opt_view(res) == last_value(views(lines@), field@),
{
    let mut n: usize = lines.len();
    assert(views(lines@).take(lines@.len() as int) =~= views(lines@));
    while n > 0
        invariant
            n <= lines@.len(),
            last_value(views(lines@), field@) == last_value(
                views(lines@).take(n as int),
                field@,
            ),
        decreases n,
    {
        assert(views(lines@).take(n as int).drop_last() =~= views(lines@).take(n - 1));
        assert(views(lines@).take(n as int).last() == lines@[n - 1]@);
        match value_of(lines[n - 1].as_slice(), field) {
            Some(value) => {
                if value.len() > 0 {
                    return Some(string_of(&value));
                }
            },
            None => {},
        }
        n -= 1;
    }
    None
}

fn value_of(line: &[char], field: &str) -> (res: Option<Vec<char>>)
    ensures
        crate::text::opt_view(res) == field_value(line@, field@),
{
    match split_char(line, '\t') {
        Some((name, value)) => if is_text(&name, field) {
            Some(trimmed(&value))
        } else {
            None
        },
        None => None,
    }
}

fn find_flag(lines: &[Vec<char>], field: &str) -> (res: bool)
    ensures
        res == last_flag(views(lines@), field@),
{
    let mut n: usize = lines.len();
    assert(views(lines@).take(lines@.len() as int) =~= views(lines@));
    while n > 0
        invariant
            n <= lines@.len(),
            last_flag(views(lines@), field@) == last_flag(views(lines@).take(n as int), field@),
        decreases n,
    {
        assert(views(lines@).take(n as int).drop_last() =~= views(lines@).take(n - 1));
        assert(views(lines@).take(n as int).last() == lines@[n - 1]@);
        match value_of(lines[n - 1].as_slice(), field) {
            Some(value) => {
                return is_text(&value, "true");
            },
            None => {},
        }
        n -= 1;
    }
    false
}

fn find_command(lines: &[Vec<char>], name: &str) -> (res: bool)
    ensures
        res == offers(views(lines@), name@),
{
    let mut i: usize = 0;
    while i < lines.len()
        invariant
            i <= lines@.len(),
            forall|j: int|
                0 <= j < i ==> field_value(#[trigger] views(lines@)[j], "command"@) != Some(name@),
        decreases lines@.len() - i,
    {
        assert(views(lines@)[i as int] == lines@[i as int]@);
        match value_of(lines[i].as_slice(), "command") {
            Some(value) => {
                if is_text(&value, name) {
                    return true;
                }
            },
            None => {},
        }
        i += 1;
    }
    false
}

fn find_tool(lines: &[Vec<char>]) -> (res: Option<String>)
    ensures
        crate::text::opt_view(res) == first_tool(views(lines@)),
{
    let mut i: usize = 0;
    assert(views(lines@).take(0) =~= Seq::empty());
    while i < lines.len()
        invariant
            i <= lines@.len(),
            first_tool(views(lines@).take(i as int)) is None,
        decreases lines@.len() - i,
    {
        assert(views(lines@).take(i + 1).drop_last() =~= views(lines@).take(i as int));
        assert(views(lines@).take(i + 1).last() == lines@[i as int]@);
        match value_of(lines[i].as_slice(), "command") {
            Some(value) => {
                if is_text(&value, "ss") || is_text(&value, "netstat") {
                    proof {
                        lemma_first_tool(views(lines@), i + 1);
                    }
                    return Some(string_of(&value));
                }
            },
            None => {},
        }
        i += 1;
    }
    assert(views(lines@).take(lines@.len() as int) =~= views(lines@));
    None
}

proof fn lemma_first_tool(lines: Seq<Seq<char>>, n: int)
    requires
        0 <= n <= lines.len(),
        first_tool(lines.take(n)) is Some,
    ensures
        first_tool(lines) == first_tool(lines.take(n)),
    decreases lines.len() - n,
{
    if n == lines.len() {
        assert(lines.take(n) =~= lines);
    } else {
        assert(lines.take(n + 1).drop_last() =~= lines.take(n));
        lemma_first_tool(lines, n + 1);
    }
}

fn or_else(value: Option<String>, other: &str) -> (res: String)
    ensures
        res@ == or_text(crate::text::opt_view(value), other@),
{
    match value {
        Some(text) => text,
        None => copy(other),
    }
}

pub fn parse_capabilities_probe(probe: &str) -> (res: ServerCapabilities)
    ensures
        res@ == probed(lines_of(probe@)),
{
    let lines = lines_str(probe);
    let systemd = find_command(&lines, "systemctl");
    ServerCapabilities {
        distro: find_value(&lines, "distro"),
        package_manager: find_value(&lines, "packageManager"),
        init_system: if systemd {
            Some(copy("systemd"))
        } else {
            None
        },
        systemd,
        docker: find_command(&lines, "docker"),
        podman: find_command(&lines, "podman"),
        sudo: find_command(&lines, "sudo"),
        network_tool: find_tool(&lines),
        journalctl: find_command(&lines, "journalctl"),
        logread: find_flag(&lines, "logread"),
        cron: find_command(&lines, "crontab"),
        architecture: or_else(find_value(&lines, "architecture"), "unknown"),
        coreutils_variant: or_else(find_value(&lines, "coreutils"), "POSIX/other"),
        root: find_flag(&lines, "root"),
    }
}

/// What a probe prints of a server is read back: a value under its own name, the last one
/// that is not blank; a flag as it was printed last; and a tool where it was named.
pub proof fn probes_read_back(
    lines: Seq<Seq<char>>,
    field: Seq<char>,
    value: Seq<char>,
    other: Seq<char>,
)
    requires
        !field.contains('\t'),
        value.len() > 0,
        !is_space(value[0]) && !is_space(value.last()),
    ensures
        ({
            let more = lines.push(field + seq!['\t'] + value);
            &&& last_value(more, field) == Some(value)
            &&& last_flag(more, field) <==> value == "true"@
            &&& other != field ==> last_value(more, other) == last_value(lines, other)
                && last_flag(more, other) == last_flag(lines, other)
            &&& field == "command"@ ==> offers(more, value)
            &&& field != "command"@ ==> (offers(more, other) <==> offers(lines, other))
            &&& field == "command"@ && other != value ==> (offers(more, other) <==> offers(
                lines,
                other,
            ))
        }),
{
    let line = field + seq!['\t'] + value;
    let more = lines.push(line);
    let none = Seq::<char>::empty();
    splits_read_back(field, '\t', value);
    assert(none + value + none =~= value);
    trimming_takes_off_spaces(none, value, none);
    assert(more.drop_last() =~= lines);
    assert(more[lines.len() as int] == line);
    assert forall|name: Seq<char>| #[trigger] offers(lines, name) implies offers(more, name) by {
        let i = choose|i: int|
            0 <= i < lines.len() && field_value(#[trigger] lines[i], "command"@) == Some(name);
        assert(more[i] == lines[i]);
    }
    if offers(more, other) && !(field == "command"@ && other == value) {
        let i = choose|i: int|
            0 <= i < more.len() && field_value(#[trigger] more[i], "command"@) == Some(other);
        if i < lines.len() {
            assert(lines[i] == more[i]);
            assert(offers(lines, other));
        } else {
            assert(field_value(line, "command"@) == if field == "command"@ {
                Some(value)
            } else {
                None
            });
        }
    }
}

/// A server is taken for what its probe says: systemd where there is `systemctl`, and each
/// tool where it was found.
pub proof fn servers_are_taken_as_probed(lines: Seq<Seq<char>>)
    ensures
        ({
            let found = probed(lines);
            &&& found.systemd <==> offers(lines, "systemctl"@)
            &&& found.init_system == if found.systemd {
                Some("systemd"@)
            } else {
                None
            }
            &&& found.docker <==> offers(lines, "docker"@)
            &&& found.podman <==> offers(lines, "podman"@)
            &&& found.sudo <==> offers(lines, "sudo"@)
            &&& found.journalctl <==> offers(lines, "journalctl"@)
            &&& found.cron <==> offers(lines, "crontab"@)
            &&& found.logread <==> last_flag(lines, "logread"@)
            &&& found.root <==> last_flag(lines, "root"@)
            &&& found.distro == last_value(lines, "distro"@)
            &&& found.package_manager == last_value(lines, "packageManager"@)
            &&& found.network_tool is Some <==> offers(lines, "ss"@) || offers(lines, "netstat"@)
            &&& found.network_tool matches Some(tool) ==> (tool == "ss"@ || tool == "netstat"@)
                && offers(lines, tool)
            &&& last_value(lines, "architecture"@) matches Some(name) ==> found.architecture == name
            &&& last_value(lines, "coreutils"@) matches Some(name) ==> found.coreutils_variant
                == name
        }),
{
    lemma_tool_offered(lines);
}

proof fn lemma_tool_offered(lines: Seq<Seq<char>>)
    ensures
        first_tool(lines) is Some <==> offers(lines, "ss"@) || offers(lines, "netstat"@),
        first_tool(lines) matches Some(tool) ==> (tool == "ss"@ || tool == "netstat"@) && offers(
            lines,
            tool,
        ),
    decreases lines.len(),
{
    if lines.len() > 0 {
        let rest = lines.drop_last();
        lemma_tool_offered(rest);
        assert forall|name: Seq<char>| #[trigger] offers(rest, name) implies offers(lines, name) by {
            let i = choose|i: int|
                0 <= i < rest.len() && field_value(#[trigger] rest[i], "command"@) == Some(name);
            assert(lines[i] == rest[i]);
        }
        assert(lines[lines.len() - 1] == lines.last());
        assert forall|name: Seq<char>| #[trigger] offers(lines, name) implies offers(rest, name)
            || field_value(lines.last(), "command"@) == Some(name) by {
            let i = choose|i: int|
                0 <= i < lines.len() && field_value(#[trigger] lines[i], "command"@) == Some(name);
            if i < rest.len() {
                assert(rest[i] == lines[i]);
            }
        }
    }
}

} // verus!
