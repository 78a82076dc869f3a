//! The sockets of a server.
use crate::models::{Page, PortInfo, PortInfoView};
use crate::numbers::{decimal, decimal_reads_back, format_unsigned, parse_u32, u32_in};
use crate::paging::{first_line, last_line, page, page_limit, page_size, shows};
use crate::text::{
    begins_with, collect, contains_text, copy, digit, find_text, first_where, glue2, glue5,
    is_digit, is_text, is_word, join, join_from, joined_words_read_back, lemma_first_where,
    lines_of, lines_str, matches_at, opt_view, parts, parts_of, piece, same, split_at_text,
    split_text, starts_with, string_of, views, words, words_of,
};
use vstd::prelude::*;

verus! {

broadcast use vstd::string::group_string_axioms;

/// The tool that lists the sockets of a server.
#[derive(Clone, Copy, Debug, PartialEq, Eq, Structural)]
pub enum SocketTool {
    Ss,
    Netstat,
}

pub open spec fn tool_of(tool: Option<Seq<char>>) -> Result<SocketTool, Seq<char>> {
    match tool {
        Some(name) => if name == "ss"@ {
            Ok(SocketTool::Ss)
        } else if name == "netstat"@ {
            Ok(SocketTool::Netstat)
        } else {
            Err("Unsupported network tool: "@ + name)
        },
        None => Err("No supported network socket tool is available on this server"@),
    }
}

/// The tool to use, by what the server offers.
pub fn socket_tool(tool: &Option<String>) -> (res: Result<SocketTool, String>)
    ensures
        crate::ssh::error_result(res) == tool_of(opt_view(*tool)),
{
    match tool {
        Some(name) => if same(name.as_str(), "ss") {
            Ok(SocketTool::Ss)
        } else if same(name.as_str(), "netstat") {
            Ok(SocketTool::Netstat)
        } else {
            Err(glue2("Unsupported network tool: ", name.as_str()))
        },
        None => Err(copy("No supported network socket tool is available on this server")),
    }
}

/// Lists a page of sockets. `netstat` prints two lines of headings first.
pub open spec fn ports_text(tool: SocketTool, offset: usize, limit: usize) -> Seq<char> {
    let end = last_line(offset, page_size(limit));
    match tool {
        SocketTool::Ss => "ss -H -tunap 2>/dev/null | sed -n '"@ + decimal(
            first_line(offset) as nat,
        ) + ","@ + decimal(end as nat) + "p'"@,
        SocketTool::Netstat => "netstat -tunap 2>/dev/null | sed -n '"@ + decimal(
            offset.saturating_add(3) as nat,
        ) + ","@ + decimal(end.saturating_add(2) as nat) + "p'"@,
    }
}

pub fn ports_command(tool: SocketTool, offset: usize, limit: usize) -> (res: String)
    ensures
        res@ == ports_text(tool, offset, limit),
{
    let end = offset.saturating_add(page_limit(limit)).saturating_add(1);
    match tool {
        SocketTool::Ss => glue5(
            "ss -H -tunap 2>/dev/null | sed -n '",
            format_unsigned(offset.saturating_add(1) as u64).as_str(),
            ",",
            format_unsigned(end as u64).as_str(),
            "p'",
        ),
        SocketTool::Netstat => glue5(
            "netstat -tunap 2>/dev/null | sed -n '",
            format_unsigned(offset.saturating_add(3) as u64).as_str(),
            ",",
            format_unsigned(end.saturating_add(2) as u64).as_str(),
            "p'",
        ),
    }
}

// ---------------------------------------------------------------------------
// Reading
// ---------------------------------------------------------------------------

pub open spec fn not_digit() -> spec_fn(char) -> bool {
    |c: char| !is_digit(c)
}

/// The digits that a text begins with.
pub open spec fn leading_digits(s: Seq<char>) -> Seq<char> {
    s.take(first_where(s, not_digit()))
}

pub open spec fn digit_fn() -> spec_fn(char) -> bool {
    |c: char| is_digit(c)
}

/// The first run of digits in a text; empty where it has none.
pub open spec fn first_number(s: Seq<char>) -> Seq<char> {
    leading_digits(s.skip(first_where(s, digit_fn())))
}

/// What stands between the first and the second `pid=`.
pub open spec fn behind_pid(process: Seq<char>) -> Option<Seq<char>> {
    match split_at_text(process, "pid="@) {
        Some((_, rest)) => match split_at_text(rest, "pid="@) {
            Some((value, _)) => Some(value),
            None => Some(rest),
        },
        None => None,
    }
}

/// The process number that `ss` writes.
pub open spec fn ss_pid(process: Seq<char>) -> Option<u32> {
    match behind_pid(process) {
        Some(value) => u32_in(leading_digits(value)),
        None => None,
    }
}

/// The fields from `from` on, with spaces between them.
pub open spec fn rest_of(fields: Seq<Seq<char>>, from: int) -> Seq<char> {
    if from <= fields.len() {
        join(fields.skip(from), " "@)
    } else {
        Seq::empty()
    }
}

/// The socket on a line of `ss`.
pub open spec fn ss_port(line: Seq<char>) -> Option<PortInfoView> {
    let fields = words_of(line);
    if fields.len() < 5 {
        None
    } else {
        let process = rest_of(fields, 6);
        Some(
            PortInfoView {
                protocol: fields[0],
                state: fields[1],
                local_address: fields[4],
                remote_address: if fields.len() > 5 {
                    fields[5]
                } else {
                    fields[4]
                },
                process,
                pid: ss_pid(process),
            },
        )
    }
}

pub open spec fn is_socket_state(word: Seq<char>) -> bool {
    word == "LISTEN"@ || word == "ESTABLISHED"@ || word == "SYN_SENT"@ || word == "SYN_RECV"@
        || word == "FIN_WAIT1"@ || word == "FIN_WAIT2"@ || word == "TIME_WAIT"@ || word
        == "CLOSE_WAIT"@ || word == "LAST_ACK"@ || word == "CLOSING"@ || word == "CLOSED"@ || word
        == "UNKNOWN"@
}

/// The process number that `netstat` writes: behind `pid=`, or else before the first slash.
pub open spec fn netstat_pid(process: Seq<char>) -> Option<u32> {
    let value = match split_at_text(process, "pid="@) {
        Some((_, rest)) => rest,
        None => parts_of(process, '/')[0],
    };
    u32_in(first_number(value))
}

/// The socket on a line of `netstat`.
pub open spec fn netstat_port(line: Seq<char>) -> Option<PortInfoView> {
    let fields = words_of(line);
    if fields.len() < 5 || (!starts_with(fields[0], "tcp"@) && !starts_with(fields[0], "udp"@)) {
        None
    } else {
        let stated = fields.len() > 5 && is_socket_state(fields[5]);
        let process = rest_of(
            fields,
            if stated {
                6
            } else {
                5
            },
        );
        Some(
            PortInfoView {
                protocol: fields[0],
                state: if stated {
                    fields[5]
                } else {
                    "—"@
                },
                local_address: fields[3],
                remote_address: fields[4],
                process,
                pid: netstat_pid(process),
            },
        )
    }
}

pub open spec fn ports_of(tool: SocketTool, output: Seq<char>) -> Seq<PortInfoView> {
    match tool {
        SocketTool::Ss => lines_of(output).filter_map(|line: Seq<char>| ss_port(line)),
        SocketTool::Netstat => lines_of(output).filter_map(|line: Seq<char>| netstat_port(line)),
    }
}

fn take_digits(s: &[char]) -> (res: Vec<char>)
    ensures
        res@ == leading_digits(s@),
{
    let mut i: usize = 0;
    while i < s.len() && digit(s[i])
        invariant
            i <= s@.len(),
            forall|j: int| 0 <= j < i ==> !not_digit()(#[trigger] s@[j]),
        decreases s@.len() - i,
    {
        i += 1;
    }
    proof {
        lemma_first_where(s@, not_digit(), i as int);
    }
    let out = piece(s, 0, i);
    assert(out@ =~= s@.take(i as int));
    out
}

fn find_number(s: &[char]) -> (res: Vec<char>)
    ensures
        res@ == first_number(s@),
{
    let mut i: usize = 0;
    while i < s.len() && !digit(s[i])
        invariant
            i <= s@.len(),
            forall|j: int| 0 <= j < i ==> !digit_fn()(#[trigger] s@[j]),
        decreases s@.len() - i,
    {
        i += 1;
    }
    proof {
        lemma_first_where(s@, digit_fn(), i as int);
    }
    let rest = piece(s, i, s.len());
    assert(rest@ =~= s@.skip(i as int));
    take_digits(&rest)
}

fn read_ss_pid(process: &[char]) -> (res: Option<u32>)
    ensures
        res == ss_pid(process@),
{
    match split_text(process, "pid=") {
        Some((_, rest)) => {
            let value = match split_text(&rest, "pid=") {
                Some((value, _)) => value,
                None => rest,
            };
            parse_u32(&take_digits(&value))
        },
        None => None,
    }
}

fn read_rest(fields: &Vec<Vec<char>>, from: usize) -> (res: Vec<char>)
    ensures
        res@ == rest_of(views(fields@), from as int),
{
    if from <= fields.len() {
        join_from(fields, from)
    } else {
        Vec::new()
    }
}

fn read_ss(line: &[char]) -> (res: Option<PortInfo>)
    ensures
        opt_view(res) == ss_port(line@),
{
    let fields = words(line);
    let ghost all = views(fields@);
    if fields.len() < 5 {
        return None;
    }
    assert(all[0] == fields@[0]@ && all[1] == fields@[1]@ && all[4] == fields@[4]@);
    let process = read_rest(&fields, 6);
    let remote_address = if fields.len() > 5 {
        assert(all[5] == fields@[5]@);
        string_of(fields[5].as_slice())
    } else {
        string_of(fields[4].as_slice())
    };
    Some(
        PortInfo {
            protocol: string_of(fields[0].as_slice()),
            state: string_of(fields[1].as_slice()),
            local_address: string_of(fields[4].as_slice()),
            remote_address,
            pid: read_ss_pid(&process),
            process: string_of(&process),
        },
    )
}

fn socket_state(word: &[char]) -> (res: bool)
    ensures
        res == is_socket_state(word@),
{
    is_text(word, "LISTEN") || is_text(word, "ESTABLISHED") || is_text(word, "SYN_SENT") || is_text(
        word,
        "SYN_RECV",
    ) || is_text(word, "FIN_WAIT1") || is_text(word, "FIN_WAIT2") || is_text(word, "TIME_WAIT")
        || is_text(word, "CLOSE_WAIT") || is_text(word, "LAST_ACK") || is_text(word, "CLOSING")
        || is_text(word, "CLOSED") || is_text(word, "UNKNOWN")
}

fn parse_netstat_pid(process: &[char]) -> (res: Option<u32>)
    ensures
        res == netstat_pid(process@),
{
    let value = match split_text(process, "pid=") {
        Some((_, rest)) => rest,
        None => {
            let mut before = parts(process, '/');
            assert(views(before@)[0] == before@[0]@);
            before.remove(0)
        },
    };
    parse_u32(&find_number(&value))
}

fn read_netstat(line: &[char]) -> (res: Option<PortInfo>)
    ensures
        opt_view(res) == netstat_port(line@),
{
    let fields = words(line);
    let ghost all = views(fields@);
    if fields.len() < 5 {
        return None;
    }
    assert(all[0] == fields@[0]@ && all[3] == fields@[3]@ && all[4] == fields@[4]@);
    let protocol: &[char] = fields[0].as_slice();
    if !begins_with(protocol, "tcp") && !begins_with(protocol, "udp") {
        return None;
    }
    assert(fields@.len() > 5 ==> all[5] == fields@[5]@);
    let stated = fields.len() > 5 && socket_state(fields[5].as_slice());
    let process = read_rest(
        &fields,
        if stated {
            6
        } else {
            5
        },
    );
    let state = if stated {
        string_of(fields[5].as_slice())
    } else {
        copy("—")
    };
    Some(
        PortInfo {
            protocol: string_of(protocol),
            state,
            local_address: string_of(fields[3].as_slice()),
            remote_address: string_of(fields[4].as_slice()),
            pid: parse_netstat_pid(&process),
            process: string_of(&process),
        },
    )
}

/// The page of sockets that a listing shows.
pub fn ports(tool: SocketTool, output: &str, limit: usize) -> (res: Page<PortInfo>)
    ensures
        shows(res, ports_of(tool, output@), page_size(limit)),
{
    let lines = lines_str(output);
    let items = match tool {
        SocketTool::Ss => collect(&lines, read_ss, Ghost(|line: Seq<char>| ss_port(line))),
        SocketTool::Netstat => collect(
            &lines,
            read_netstat,
            Ghost(|line: Seq<char>| netstat_port(line)),
        ),
    };
    page(items, page_limit(limit))
}

/// A socket that `ss` lists is read back: its protocol and state, both ends, and who holds it.
pub proof fn ss_lines_read_back(fields: Seq<Seq<char>>)
    requires
        fields.len() >= 6,
        forall|i: int| 0 <= i < fields.len() ==> is_word(#[trigger] fields[i]),
    ensures
        ss_port(join(fields, " "@)) matches Some(port) && {
            &&& port.protocol == fields[0]
            &&& port.state == fields[1]
            &&& port.local_address == fields[4]
            &&& port.remote_address == fields[5]
            &&& port.process == join(fields.skip(6), " "@)
        },
{
    joined_words_read_back(fields);
}

/// A socket that `netstat` lists is read back, with its state where it has one. Lines of
/// other protocols are left out.
pub proof fn netstat_lines_read_back(fields: Seq<Seq<char>>)
    requires
        fields.len() >= 6,
        forall|i: int| 0 <= i < fields.len() ==> is_word(#[trigger] fields[i]),
    ensures
        netstat_port(join(fields, " "@)) is Some <==> starts_with(fields[0], "tcp"@)
            || starts_with(fields[0], "udp"@),
        netstat_port(join(fields, " "@)) matches Some(port) ==> {
            &&& port.protocol == fields[0]
            &&& port.local_address == fields[3]
            &&& port.remote_address == fields[4]
            &&& fields[5] == "LISTEN"@ || fields[5] == "ESTABLISHED"@ || fields[5] == "TIME_WAIT"@
                || fields[5] == "CLOSE_WAIT"@ ==> port.state == fields[5] && port.process == join(
                fields.skip(6),
                " "@,
            )
            &&& port.state == fields[5] || port.process == join(fields.skip(5), " "@)
        },
{
    joined_words_read_back(fields);
}

/// The process that holds a socket is the number behind `pid=`.
pub proof fn holders_read_back(pid: u32, after: Seq<char>)
    requires
        after.len() > 0,
        !is_digit(after[0]),
        !contains_text(decimal(pid as nat) + after, "pid="@),
    ensures
        ss_pid("pid="@ + decimal(pid as nat) + after) == Some(pid),
{
    let digits = decimal(pid as nat);
    let rest = digits + after;
    let process = "pid="@ + digits + after;
    reveal_strlit("pid=");
    assert(process =~= "pid="@ + rest);
    assert(process.subrange(0, 4) =~= "pid="@);
    assert(matches_at(process, "pid="@, 0));
    assert(find_text(process, "pid="@) == Some(0int));
    assert(process.take(0) =~= Seq::empty());
    assert(process.skip(4) =~= rest);
    crate::text::lemma_find_from(rest, "pid="@, 0);
    assert(find_text(rest, "pid="@) is None);
    decimal_reads_back(pid as nat, u32::MAX as int);
    assert forall|j: int| 0 <= j < digits.len() implies !not_digit()(#[trigger] rest[j]) by {
        assert(rest[j] == digits[j]);
    }
    assert(rest[digits.len() as int] == after[0]);
    crate::text::lemma_first_where(rest, not_digit(), digits.len() as int);
    assert(rest.take(digits.len() as int) =~= digits);
}

/// The sockets are listed by the tool that is there, a page at a time; and each tool's
/// lines are read as that tool writes them.
pub proof fn tools_are_told_apart(name: Seq<char>, output: Seq<char>)
    ensures
        tool_of(Some("ss"@)) == Ok::<SocketTool, Seq<char>>(SocketTool::Ss),
        tool_of(Some("netstat"@)) == Ok::<SocketTool, Seq<char>>(SocketTool::Netstat),
        tool_of(Some(name)) is Ok <==> name == "ss"@ || name == "netstat"@,
        tool_of(None) is Err,
        ports_of(SocketTool::Ss, output) == lines_of(output).filter_map(
            |line: Seq<char>| ss_port(line),
        ),
        ports_of(SocketTool::Netstat, output) == lines_of(output).filter_map(
            |line: Seq<char>| netstat_port(line),
        ),
{
    reveal_strlit("ss");
    reveal_strlit("netstat");
    assert("ss"@.len() == 2);
    assert("netstat"@.len() == 7);
}

/// A page of sockets is a page of the lines that the tool lists, below its headings, and one
/// line more.
pub proof fn ports_are_listed_by_page(offset: usize, limit: usize)
    requires
        1 <= limit <= 5000,
        offset + 5003 <= usize::MAX,
    ensures
        ports_text(SocketTool::Ss, offset, limit) == "ss -H -tunap 2>/dev/null | sed -n '"@
            + decimal((offset + 1) as nat) + ","@ + decimal((offset + limit + 1) as nat) + "p'"@,
        ports_text(SocketTool::Netstat, offset, limit) == "netstat -tunap 2>/dev/null | sed -n '"@
            + decimal((offset + 3) as nat) + ","@ + decimal((offset + limit + 3) as nat) + "p'"@,
{
}

} // verus!
