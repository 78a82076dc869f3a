//! The processes of a server.
use crate::models::Page;
use crate::numbers::{
    decimal, format_unsigned, kib, kib_bytes, parse_u32, parse_u64, u32_in, u64_in,
};
use crate::paging::{first_line, last_line, page, page_limit, page_size, shows};
use crate::ssh::{command_error, failure_text, is_permission_error, names_permission, ExecOutput};
use crate::text::{
    collect, copy, find_index, index_where, is_line, is_text, is_word, join, join_from,
    joined_lines_read_back, joined_words_read_back, lines_of, lines_str, lower, opt_view,
    same_ignoring_case, string_of, views, words, words_of,
};
use vstd::prelude::*;
use vstd::slice::slice_subrange;

verus! {

broadcast use vstd::string::group_string_axioms;

/// A process. Percentages stand as the server writes them; one that it does not tell is
/// empty.
#[derive(Debug, PartialEq, Eq)]
pub struct ProcessInfo {
    pub pid: u32,
    pub user: String,
    pub cpu_percent: String,
    pub memory_percent: String,
    pub rss_bytes: u64,
    pub runtime_seconds: u64,
    pub command: String,
}

#[verifier::ext_equal]
pub struct ProcessInfoView {
    pub pid: u32,
    pub user: Seq<char>,
    pub cpu_percent: Seq<char>,
    pub memory_percent: Seq<char>,
    pub rss_bytes: u64,
    pub runtime_seconds: u64,
    pub command: Seq<char>,
}

impl View for ProcessInfo {
    type V = ProcessInfoView;

    open spec fn view(&self) -> ProcessInfoView {
        ProcessInfoView {
            pid: self.pid,
            user: self.user@,
            cpu_percent: self.cpu_percent@,
            memory_percent: self.memory_percent@,
            rss_bytes: self.rss_bytes,
            runtime_seconds: self.runtime_seconds,
            command: self.command@,
        }
    }
}

// ---------------------------------------------------------------------------
// Listing
// ---------------------------------------------------------------------------

/// Lists a page of processes, the busiest first. The first line of the output names the
/// layout of the others.
pub open spec fn listing_command(offset: usize, limit: usize) -> Seq<char> {
    let start = first_line(offset);
    let end = last_line(offset, page_size(limit));
    "if ps -eo pid=,user=,%cpu=,%mem=,rss=,etimes=,args= --sort=-%cpu >/dev/null 2>&1; then printf 'serverbox-eo\\n'; ps -eo pid=,user=,%cpu=,%mem=,rss=,etimes=,args= --sort=-%cpu | sed -n '"@
        + decimal(start as nat) + ","@ + decimal(end as nat)
        + "p'; else printf 'serverbox-aux\\n'; ps aux | sed -n '1p;"@ + decimal(
        start.saturating_add(1) as nat,
    ) + ","@ + decimal(end.saturating_add(1) as nat) + "p'; fi"@
}

pub fn processes_command(offset: usize, limit: usize) -> (res: String)
    ensures
        res@ == listing_command(offset, limit),
{
    let limit = page_limit(limit);
    let start = offset.saturating_add(1);
    let end = offset.saturating_add(limit).saturating_add(1);
    let mut out = copy(
        "if ps -eo pid=,user=,%cpu=,%mem=,rss=,etimes=,args= --sort=-%cpu >/dev/null 2>&1; then printf 'serverbox-eo\\n'; ps -eo pid=,user=,%cpu=,%mem=,rss=,etimes=,args= --sort=-%cpu | sed -n '",
    );
    out.append(format_unsigned(start as u64).as_str());
    out.append(",");
    out.append(format_unsigned(end as u64).as_str());
    out.append("p'; else printf 'serverbox-aux\\n'; ps aux | sed -n '1p;");
    out.append(format_unsigned(start.saturating_add(1) as u64).as_str());
    out.append(",");
    out.append(format_unsigned(end.saturating_add(1) as u64).as_str());
    out.append("p'; fi");
    out
}

/// Where the columns of a table of processes stand, by its headings. A column that is not
/// there has the number of headings.
#[derive(Clone, Copy, Debug, PartialEq, Eq, Structural)]
pub struct Columns {
    pub count: usize,
    pub pid: usize,
    pub user: usize,
    pub cpu: usize,
    pub memory: usize,
    pub rss: usize,
    pub command: usize,
}

pub open spec fn named(a: Seq<char>, b: Seq<char>) -> spec_fn(Seq<char>) -> bool {
    |heading: Seq<char>| lower(heading) == lower(a) || lower(heading) == lower(b)
}

pub open spec fn columns_of(headings: Seq<Seq<char>>) -> Columns {
    let command = index_where(headings, named("COMMAND"@, "CMD"@));
    Columns {
        count: headings.len() as usize,
        pid: index_where(headings, named("PID"@, "PID"@)) as usize,
        user: index_where(headings, named("USER"@, "USER"@)) as usize,
        cpu: index_where(headings, named("%CPU"@, "CPU"@)) as usize,
        memory: index_where(headings, named("%MEM"@, "MEM"@)) as usize,
        rss: index_where(headings, named("RSS"@, "RSS"@)) as usize,
        command: if command < headings.len() {
            command as usize
        } else if headings.len() > 0 {
            (headings.len() - 1) as usize
        } else {
            0
        },
    }
}

/// The field in a column; nothing where the table or the line has no such column.
pub open spec fn field_at(columns: Columns, fields: Seq<Seq<char>>, at: usize) -> Option<Seq<char>> {
    if at < columns.count && at < fields.len() {
        Some(fields[at as int])
    } else {
        None
    }
}

pub open spec fn or_blank(field: Option<Seq<char>>) -> Seq<char> {
    match field {
        Some(text) => text,
        None => Seq::empty(),
    }
}

pub open spec fn u64_or_zero(field: Option<Seq<char>>) -> u64 {
    match field {
        Some(text) => match u64_in(text) {
            Some(n) => n,
            None => 0,
        },
        None => 0,
    }
}

/// The process on a line of a table with these columns.
pub open spec fn tabled_process(columns: Columns, line: Seq<char>) -> Option<ProcessInfoView> {
    let fields = words_of(line);
    match (field_at(columns, fields, columns.pid), field_at(columns, fields, columns.user)) {
        (Some(pid), Some(user)) => match u32_in(pid) {
            Some(pid) => Some(
                ProcessInfoView {
                    pid,
                    user,
                    cpu_percent: or_blank(field_at(columns, fields, columns.cpu)),
                    memory_percent: or_blank(field_at(columns, fields, columns.memory)),
                    rss_bytes: kib(u64_or_zero(field_at(columns, fields, columns.rss))),
                    runtime_seconds: 0,
                    command: if columns.command <= fields.len() {
                        join(fields.skip(columns.command as int), " "@)
                    } else {
                        Seq::empty()
                    },
                },
            ),
            None => None,
        },
        _ => None,
    }
}

/// The process on a line of seven fields or more.
pub open spec fn plain_process(line: Seq<char>) -> Option<ProcessInfoView> {
    let fields = words_of(line);
    if fields.len() < 7 {
        None
    } else {
        match u32_in(fields[0]) {
            Some(pid) => Some(
                ProcessInfoView {
                    pid,
                    user: fields[1],
                    cpu_percent: fields[2],
                    memory_percent: fields[3],
                    rss_bytes: kib(u64_or_zero(Some(fields[4]))),
                    runtime_seconds: u64_or_zero(Some(fields[5])),
                    command: join(fields.skip(6), " "@),
                },
            ),
            None => None,
        }
    }
}

/// The processes of a listing. One in the form of a table has its headings on the second
/// line; without headings for the process and its user it shows none.
pub open spec fn listed(output: Seq<char>) -> Seq<ProcessInfoView> {
    let lines = lines_of(output);
    if lines.len() == 0 {
        Seq::empty()
    } else if lines[0] == "serverbox-aux"@ {
        if lines.len() == 1 {
            Seq::empty()
        } else {
            let columns = columns_of(words_of(lines[1]));
            lines.skip(2).filter_map(|line: Seq<char>| tabled_process(columns, line))
        }
    } else {
        lines.skip(1).filter_map(|line: Seq<char>| plain_process(line))
    }
}

fn find_column(headings: &[Vec<char>], a: &str, b: &str) -> (res: usize)
    ensures
        res == index_where(views(headings@), named(a@, b@)),
        res <= headings@.len(),
{
    let test = |heading: &[char]| -> (r: bool)
        ensures
            r == named(a@, b@)(heading@),
        { same_ignoring_case(heading, a) || same_ignoring_case(heading, b) };
    find_index(headings, test, Ghost(named(a@, b@)))
}

fn read_columns(headings: &[Vec<char>]) -> (res: Columns)
    ensures
        res == columns_of(views(headings@)),
{
    let count: usize = headings.len();
    let command = find_column(headings, "COMMAND", "CMD");
    Columns {
        count,
        pid: find_column(headings, "PID", "PID"),
        user: find_column(headings, "USER", "USER"),
        cpu: find_column(headings, "%CPU", "CPU"),
        memory: find_column(headings, "%MEM", "MEM"),
        rss: find_column(headings, "RSS", "RSS"),
        command: if command < count {
            command
        } else if count > 0 {
            count - 1
        } else {
            0
        },
    }
}

fn text_at(columns: &Columns, fields: &[Vec<char>], at: usize) -> (res: Option<String>)
    ensures
        opt_view(res) == field_at(*columns, views(fields@), at),
{
    if at < columns.count && at < fields.len() {
        assert(views(fields@)[at as int] == fields@[at as int]@);
        Some(string_of(fields[at].as_slice()))
    } else {
        None
    }
}

fn blank_if_none(field: Option<String>) -> (res: String)
    ensures
        res@ == or_blank(opt_view(field)),
{
    match field {
        Some(text) => text,
        None => String::new(),
    }
}

fn zero_if_none(field: Option<String>) -> (res: u64)
    ensures
        res == u64_or_zero(opt_view(field)),
{
    match field {
        Some(text) => match parse_u64(&crate::text::chars_of(text.as_str())) {
            Some(n) => n,
            None => 0,
        },
        None => 0,
    }
}

fn read_tabled(columns: &Columns, line: &[char]) -> (res: Option<ProcessInfo>)
    ensures
        opt_view(res) == tabled_process(*columns, line@),
{
    let fields = words(line);
    match (text_at(columns, &fields, columns.pid), text_at(columns, &fields, columns.user)) {
        (Some(pid), Some(user)) => match parse_u32(&crate::text::chars_of(pid.as_str())) {
            Some(pid) => {
                let command = if columns.command <= fields.len() {
                    string_of(&join_from(&fields, columns.command))
                } else {
                    String::new()
                };
                Some(
                    ProcessInfo {
                        pid,
                        user,
                        cpu_percent: blank_if_none(text_at(columns, &fields, columns.cpu)),
                        memory_percent: blank_if_none(text_at(columns, &fields, columns.memory)),
                        rss_bytes: kib_bytes(
                            zero_if_none(text_at(columns, &fields, columns.rss)),
                        ),
                        runtime_seconds: 0,
                        command,
                    },
                )
            },
            None => None,
        },
        _ => None,
    }
}

fn read_plain(line: &[char]) -> (res: Option<ProcessInfo>)
    ensures
        opt_view(res) == plain_process(line@),
{
    let fields = words(line);
    if fields.len() < 7 {
        return None;
    }
    let ghost all = views(fields@);
    assert(all[0] == fields@[0]@ && all[1] == fields@[1]@ && all[2] == fields@[2]@ && all[3]
        == fields@[3]@ && all[4] == fields@[4]@ && all[5] == fields@[5]@);
    match parse_u32(fields[0].as_slice()) {
        Some(pid) => Some(
            ProcessInfo {
                pid,
                user: string_of(fields[1].as_slice()),
                cpu_percent: string_of(fields[2].as_slice()),
                memory_percent: string_of(fields[3].as_slice()),
                rss_bytes: kib_bytes(zero_if_none(Some(string_of(fields[4].as_slice())))),
                runtime_seconds: zero_if_none(Some(string_of(fields[5].as_slice()))),
                command: string_of(&join_from(&fields, 6)),
            },
        ),
        None => None,
    }
}

/// The page of processes that a listing shows.
pub fn processes(output: &str, limit: usize) -> (res: Page<ProcessInfo>)
    ensures
        shows(res, listed(output@), page_size(limit)),
{
    let limit = page_limit(limit);
    let lines = lines_str(output);
    let ghost all = views(lines@);
    if lines.len() == 0 {
        let none: Vec<ProcessInfo> = Vec::new();
        assert(views(none@) =~= Seq::empty());
        return page(none, limit);
    }
    assert(all[0] == lines@[0]@);
    if is_text(lines[0].as_slice(), "serverbox-aux") {
        if lines.len() == 1 {
            let none: Vec<ProcessInfo> = Vec::new();
            assert(views(none@) =~= Seq::empty());
            return page(none, limit);
        }
        assert(all[1] == lines@[1]@);
        let columns = read_columns(&words(lines[1].as_slice()));
        let rest = slice_subrange(lines.as_slice(), 2, lines.len());
        assert(views(rest@) =~= all.skip(2));
        let pick = |line: &[char]| -> (r: Option<ProcessInfo>)
            ensures
                opt_view(r) == tabled_process(columns, line@),
            { read_tabled(&columns, line) };
        let items = collect(rest, pick, Ghost(|line: Seq<char>| tabled_process(columns, line)));
        return page(items, limit);
    }
    let rest = slice_subrange(lines.as_slice(), 1, lines.len());
    assert(views(rest@) =~= all.skip(1));
    page(collect(rest, read_plain, Ghost(|line: Seq<char>| plain_process(line))), limit)
}

// ---------------------------------------------------------------------------
// Signals
// ---------------------------------------------------------------------------

/// The command that signals a process. Process 0 is never signalled.
pub open spec fn signal_text(pid: u32, force: bool) -> Result<Seq<char>, Seq<char>> {
    if pid == 0 {
        Err("Refusing to signal PID 0"@)
    } else {
        Ok((if force {
            "kill -KILL "@
        } else {
            "kill -TERM "@
        }) + decimal(pid as nat))
    }
}

pub fn signal_process(pid: u32, force: bool) -> (res: Result<String, String>)
    ensures
        crate::ssh::text_result(res) == signal_text(pid, force),
{
    if pid == 0 {
        return Err(copy("Refusing to signal PID 0"));
    }
    let mut out = if force {
        copy("kill -KILL ")
    } else {
        copy("kill -TERM ")
    };
    out.append(format_unsigned(pid as u64).as_str());
    Ok(out)
}

/// What follows a command that was first tried without root rights.
#[derive(Debug, PartialEq, Eq)]
pub enum DirectOutcome {
    Done,
    /// The command lacked rights: it is run again with them.
    NeedsRoot,
    Failed(String),
}

#[verifier::ext_equal]
pub enum DirectOutcomeView {
    Done,
    NeedsRoot,
    Failed(Seq<char>),
}

impl View for DirectOutcome {
    type V = DirectOutcomeView;

    open spec fn view(&self) -> DirectOutcomeView {
        match *self {
            DirectOutcome::Done => DirectOutcomeView::Done,
            DirectOutcome::NeedsRoot => DirectOutcomeView::NeedsRoot,
            DirectOutcome::Failed(error) => DirectOutcomeView::Failed(error@),
        }
    }
}

pub open spec fn outcome_of(output: ExecOutput) -> DirectOutcomeView {
    if output.exit_code == 0 {
        DirectOutcomeView::Done
    } else if names_permission(output.stderr@ + "\n"@ + output.stdout@) {
        DirectOutcomeView::NeedsRoot
    } else {
        DirectOutcomeView::Failed(failure_text(output))
    }
}

/// What follows a command that was first tried without root rights.
pub fn direct_outcome(output: &ExecOutput) -> (res: DirectOutcome)
    ensures
        res@ == outcome_of(*output),
{
    if output.exit_code == 0 {
        DirectOutcome::Done
    } else if is_permission_error(output) {
        DirectOutcome::NeedsRoot
    } else {
        DirectOutcome::Failed(command_error(output))
    }
}

/// A process is read back from its line: its number, its owner, its shares, its memory in
/// kibibytes, its age and its command.
pub proof fn process_lines_read_back(fields: Seq<Seq<char>>, pid: u32, rss: u64, age: u64)
    requires
        fields.len() >= 7,
        forall|i: int| 0 <= i < fields.len() ==> is_word(#[trigger] fields[i]),
        u32_in(fields[0]) == Some(pid),
        u64_in(fields[4]) == Some(rss),
        u64_in(fields[5]) == Some(age),
    ensures
        plain_process(join(fields, " "@)) matches Some(process) && {
            &&& process.pid == pid
            &&& process.user == fields[1]
            &&& process.cpu_percent == fields[2]
            &&& process.memory_percent == fields[3]
            &&& rss * 1024 <= u64::MAX ==> process.rss_bytes == rss * 1024
            &&& process.runtime_seconds == age
            &&& process.command == join(fields.skip(6), " "@)
        },
{
    joined_words_read_back(fields);
}

/// Only the process that was named is signalled: asked to end, or killed where that was
/// asked for. Process 0, which would be all of them, is refused.
pub proof fn signals_go_to_one_process(pid: u32)
    ensures
        pid == 0 <==> signal_text(pid, false) is Err,
        pid == 0 <==> signal_text(pid, true) is Err,
        pid != 0 ==> signal_text(pid, false) == Ok::<Seq<char>, Seq<char>>(
            "kill -TERM "@ + decimal(pid as nat),
        ),
        pid != 0 ==> signal_text(pid, true) == Ok::<Seq<char>, Seq<char>>(
            "kill -KILL "@ + decimal(pid as nat),
        ),
{
}

/// A command that ran is done; one that lacks rights is run with root rights; and of any
/// other the error is told.
pub proof fn failed_runs_are_not_done(output: ExecOutput)
    ensures
        outcome_of(output) is Done <==> output.exit_code == 0,
        outcome_of(output) is NeedsRoot <==> output.exit_code != 0 && names_permission(
            output.stderr@ + "\n"@ + output.stdout@,
        ),
        outcome_of(output) matches DirectOutcomeView::Failed(error) ==> error == failure_text(
            output,
        ),
{
}

/// A page of processes is a page of the lines that `ps` lists, those that use the processor
/// most first, and one line more.
pub proof fn processes_are_listed_by_page(offset: usize, limit: usize)
    requires
        1 <= limit <= 5000,
        offset + 5002 <= usize::MAX,
    ensures
        listing_command(offset, limit)
            == "if ps -eo pid=,user=,%cpu=,%mem=,rss=,etimes=,args= --sort=-%cpu >/dev/null 2>&1; then printf 'serverbox-eo\\n'; ps -eo pid=,user=,%cpu=,%mem=,rss=,etimes=,args= --sort=-%cpu | sed -n '"@
            + decimal((offset + 1) as nat) + ","@ + decimal((offset + limit + 1) as nat)
            + "p'; else printf 'serverbox-aux\\n'; ps aux | sed -n '1p;"@ + decimal(
            (offset + 2) as nat,
        ) + ","@ + decimal((offset + limit + 2) as nat) + "p'; fi"@,
{
}

/// The columns of a table are found by their headings; and a process is read from the column
/// of each.
pub proof fn tabled_processes_read_back(fields: Seq<Seq<char>>, pid: u32, rss: u64)
    requires
        fields.len() >= 11,
        forall|i: int| 0 <= i < fields.len() ==> is_word(#[trigger] fields[i]),
        u32_in(fields[1]) == Some(pid),
        u64_in(fields[5]) == Some(rss),
        rss * 1024 <= u64::MAX,
    ensures
        tabled_process(
            Columns { count: 11, pid: 1, user: 0, cpu: 2, memory: 3, rss: 5, command: 10 },
            join(fields, " "@),
        ) matches Some(process) && {
            &&& process.pid == pid
            &&& process.user == fields[0]
            &&& process.cpu_percent == fields[2]
            &&& process.memory_percent == fields[3]
            &&& process.rss_bytes == rss * 1024
            &&& process.command == join(fields.skip(10), " "@)
        },
{
    joined_words_read_back(fields);
}

/// What `ps` printed is read as the kind of list that its first line names.
pub proof fn lists_are_read_by_their_kind(head: Seq<char>, rows: Seq<Seq<char>>)
    requires
        is_line(head),
        forall|i: int| 0 <= i < rows.len() ==> is_line(#[trigger] rows[i]),
    ensures
        head != "serverbox-aux"@ ==> listed(join(seq![head] + rows, "\n"@) + "\n"@)
            == rows.filter_map(|line: Seq<char>| plain_process(line)),
        head == "serverbox-aux"@ && rows.len() > 0 ==> listed(join(seq![head] + rows, "\n"@) + "\n"@)
            == rows.skip(1).filter_map(
            |line: Seq<char>| tabled_process(columns_of(words_of(rows[0])), line),
        ),
{
    let lines = seq![head] + rows;
    assert forall|i: int| 0 <= i < lines.len() implies is_line(#[trigger] lines[i]) by {
        if i > 0 {
            assert(lines[i] == rows[i - 1]);
        }
    }
    joined_lines_read_back(lines);
    assert(lines.skip(1) =~= rows);
    if rows.len() > 0 {
        assert(lines.skip(2) =~= rows.skip(1));
        assert(lines[1] == rows[0]);
    }
}

} // verus!
