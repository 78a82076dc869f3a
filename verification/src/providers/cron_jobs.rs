//! The scheduled jobs of a server.
use crate::identifiers::{is_uuid, now_text, random_uuid};
use crate::models::{CronJob, CronJobInput, CronJobInputView, CronJobView};
use crate::numbers::{decimal, format_unsigned};
use crate::ssh::{error_result, text_result};
use crate::text::{
    after_prefix, begins_with, chars_of, contains_text, copy, ends_with, ends_with_str, glue2,
    glue3, has_char, is_line, is_space, is_text, is_word, join, join_chars, join_from, join_strings,
    joined_lines_read_back, joined_words_read_back, lemma_find_from, lemma_join_concat,
    lemma_join_front, lemma_trim_end_len, lemma_trim_start_len, lemma_views_push, lines_of,
    lines_str, matches_at, opt_view, same, space_fn, split_at_char, split_at_last, split_at_text,
    split_char, split_last, split_text, splits_read_back, starts_with, string_of, strip_prefix,
    trim, trim_end, trim_start, trim_str, trimmed, trimming_takes_off_spaces, views, words,
    words_of,
};
use vstd::prelude::*;
use vstd::slice::slice_subrange;

verus! {

broadcast use vstd::string::group_string_axioms;

/// Prints the user's table.
pub const CRONTAB_COMMAND: &'static str = "crontab -l 2>/dev/null || true";

/// Prints the system's tables, each line behind the file it stands in.
pub const SYSTEM_CRON_COMMAND: &'static str = "for f in /etc/crontab /etc/cron.d/*; do [ -r \"$f\" ] || continue; awk -v f=\"$f\" 'NF { print f \"\\t\" $0 }' \"$f\"; done";

/// Replaces the user's table by its input.
pub const CRONTAB_WRITE_COMMAND: &'static str = "crontab -";

/// What a line that was switched off begins with.
pub const DISABLED_PREFIX: &'static str = "# SERVERBOX_DISABLED ";

/// What stands before the id of a job on its line.
pub const ID_MARKER: &'static str = " # serverbox:";

pub const CRON_JOB_GONE: &'static str = "That cron job no longer exists";

// ---------------------------------------------------------------------------
// Schedules
// ---------------------------------------------------------------------------

#[verifier::external_type_specification]
#[verifier::external_body]
pub struct ExSchedule(cron::Schedule);

/// Whether the `cron` crate reads an expression as a schedule.
pub uninterp spec fn is_schedule(expression: Seq<char>) -> bool;

/// `<cron::Schedule as FromStr>::from_str`: the schedule that an expression writes, where
/// it writes one. What times it names is not stated.
#[verifier::external_body]
fn read_schedule(expression: &str) -> (res: Option<cron::Schedule>)
    ensures
        res is Some == is_schedule(expression@),
{
    <cron::Schedule as std::str::FromStr>::from_str(expression).ok()
}

/// The first time of a schedule behind a time, both as RFC 3339 text, as
/// `cron::Schedule::after` gives it; nothing where one of the texts cannot be read or no
/// time is left.
pub uninterp spec fn run_after(expression: Seq<char>, now: Seq<char>) -> Option<Seq<char>>;

/// `cron::Schedule::after`, of which `cron::Schedule::upcoming` is the one from the present
/// on: the first time of the schedule that `expression` writes behind the time that `now`
/// writes. It is not said which time that is, only that it depends on the two texts alone.
#[verifier::external_body]
fn next_after(expression: &str, now: &str) -> (res: Option<String>)
    ensures
        opt_view(res) == run_after(expression@, now@),
{
    let schedule = <cron::Schedule as std::str::FromStr>::from_str(expression).ok()?;
    let now = chrono::DateTime::parse_from_rfc3339(now).ok()?.with_timezone(&chrono::Utc);
    schedule.after(&now).next().map(|time| time.to_rfc3339())
}

/// A schedule of five fields, with the seconds that the reader wants.
pub open spec fn with_seconds(schedule: Seq<char>) -> Seq<char> {
    "0 "@ + schedule
}

pub open spec fn schedule_verdict(schedule: Seq<char>) -> Result<(), Seq<char>> {
    if words_of(schedule).len() != 5 {
        Err("Cron schedules need exactly five fields"@)
    } else if !is_schedule(with_seconds(schedule)) {
        Err("That cron expression is not valid"@)
    } else {
        Ok(())
    }
}

/// Accepts a schedule of five fields that names times.
pub fn validate_cron(schedule: &str) -> (res: Result<(), String>)
    ensures
        error_result(res) == schedule_verdict(schedule@),
{
    if words(&chars_of(schedule)).len() != 5 {
        return Err(copy("Cron schedules need exactly five fields"));
    }
    match read_schedule(glue2("0 ", schedule).as_str()) {
        Some(_) => Ok(()),
        None => Err(copy("That cron expression is not valid")),
    }
}

/// When a job of this schedule runs next, asked at the time `now`. One whose schedule is
/// not valid never does.
pub open spec fn next_run(schedule: Seq<char>, now: Seq<char>) -> Option<Seq<char>> {
    if is_schedule(with_seconds(schedule)) {
        run_after(with_seconds(schedule), now)
    } else {
        None
    }
}

/// When a job runs next, asked at the time `now`.
pub fn next_cron_run_after(schedule: &str, now: &str) -> (res: Option<String>)
    ensures
        opt_view(res) == next_run(schedule@, now@),
{
    let expression = glue2("0 ", schedule);
    match read_schedule(expression.as_str()) {
        Some(_) => next_after(expression.as_str(), now),
        None => None,
    }
}

/// Whether `run` is when a job of this schedule runs next, asked at some time.
pub open spec fn runs_next(schedule: Seq<char>, run: Option<Seq<char>>) -> bool {
    exists|now: Seq<char>| #[trigger] next_run(schedule, now) == run
}

/// When a job runs next, asked at the present.
pub fn next_cron_run(schedule: &str) -> (res: Option<String>)
    ensures
        runs_next(schedule@, opt_view(res)),
{
    let now = now_text();
    let run = next_cron_run_after(schedule, now.as_str());
    assert(next_run(schedule@, now@) == opt_view(run));
    run
}

/// A schedule in words.
pub open spec fn schedule_in_words(schedule: Seq<char>) -> Seq<char> {
    let s = trim(schedule);
    if s == "* * * * *"@ {
        "Every minute"@
    } else if s == "0 * * * *"@ {
        "Every hour"@
    } else if s == "0 0 * * *"@ {
        "Every day at midnight"@
    } else if s == "0 0 * * 0"@ {
        "Every Sunday at midnight"@
    } else if s == "0 0 1 * *"@ {
        "On the first day of every month"@
    } else if starts_with(s, "*/"@) && ends_with(s, " * * * *"@) {
        "At a regular minute interval"@
    } else {
        "Custom schedule"@
    }
}

pub fn human_cron(schedule: &str) -> (res: String)
    ensures
        res@ == schedule_in_words(schedule@),
{
    let s = trimmed(&chars_of(schedule));
    if is_text(&s, "* * * * *") {
        copy("Every minute")
    } else if is_text(&s, "0 * * * *") {
        copy("Every hour")
    } else if is_text(&s, "0 0 * * *") {
        copy("Every day at midnight")
    } else if is_text(&s, "0 0 * * 0") {
        copy("Every Sunday at midnight")
    } else if is_text(&s, "0 0 1 * *") {
        copy("On the first day of every month")
    } else if begins_with(&s, "*/") && ends_with_str(&s, " * * * *") {
        copy("At a regular minute interval")
    } else {
        copy("Custom schedule")
    }
}

// ---------------------------------------------------------------------------
// Lines
// ---------------------------------------------------------------------------

/// The id of the job on a line: the one written behind it, or else one made of its number.
pub open spec fn line_id(line: Seq<char>, index: nat) -> Seq<char> {
    match split_at_last(line, ID_MARKER@) {
        Some((_, id)) => if starts_with(trim(id), "user:"@) {
            trim(id)
        } else {
            "user:line:"@ + decimal(index)
        },
        None => "user:line:"@ + decimal(index),
    }
}

pub fn cron_line_id(line: &[char], index: usize) -> (res: String)
    ensures
        res@ == line_id(line@, index as nat),
{
    match split_last(line, ID_MARKER) {
        Some((_, id)) => {
            let id = trimmed(&id);
            if begins_with(&id, "user:") {
                return string_of(&id);
            }
        },
        None => {},
    }
    glue2("user:line:", format_unsigned(index as u64).as_str())
}

/// The line of a job.
pub open spec fn job_line(
    id: Seq<char>,
    schedule: Seq<char>,
    command: Seq<char>,
    enabled: bool,
) -> Seq<char> {
    let line = trim(schedule) + " "@ + trim(command) + ID_MARKER@ + id;
    if enabled {
        line
    } else {
        DISABLED_PREFIX@ + line
    }
}

pub fn cron_job_line(id: &str, schedule: &str, command: &str, enabled: bool) -> (res: String)
    ensures
        res@ == job_line(id@, schedule@, command@, enabled),
{
    let mut line = trim_str(schedule);
    line.append(" ");
    line.append(trim_str(command).as_str());
    line.append(ID_MARKER);
    line.append(id);
    if enabled {
        line
    } else {
        glue2(DISABLED_PREFIX, line.as_str())
    }
}

/// Whether a line holds no job: a blank one, a comment, or a setting.
pub open spec fn holds_no_job(line: Seq<char>) -> bool {
    line.len() == 0 || starts_with(line, "#"@) || (line.contains('=') && !line.contains(' '))
}

fn has_no_job(line: &[char]) -> (res: bool)
    ensures
        res == holds_no_job(line@),
{
    line.len() == 0 || begins_with(line, "#") || (has_char(line, '=') && !has_char(line, ' '))
}

/// The job on a line of the user's table, without the time of its next run.
pub open spec fn user_job(line: Seq<char>, index: nat, user: Seq<char>) -> Option<CronJobView> {
    let off = strip_prefix(trim(line), DISABLED_PREFIX@);
    let text = match off {
        Some(rest) => rest,
        None => trim(line),
    };
    let fields = words_of(text);
    if holds_no_job(text) || fields.len() < 6 {
        None
    } else {
        let schedule = join(fields.take(5), " "@);
        let rest = join(fields.skip(5), " "@);
        Some(
            CronJobView {
                id: line_id(line, index),
                source: "User crontab"@,
                user,
                schedule,
                command: trim(
                    match split_at_text(rest, ID_MARKER@) {
                        Some((command, _)) => command,
                        None => rest,
                    },
                ),
                enabled: off is None,
                human_schedule: schedule_in_words(schedule),
                next_run: None,
                editable: true,
            },
        )
    }
}

/// The job on a line of the system's tables, without the time of its next run.
pub open spec fn system_job(line: Seq<char>, index: nat) -> Option<CronJobView> {
    match split_at_char(line, '\t') {
        Some((source, rest)) => {
            let text = trim(rest);
            let fields = words_of(text);
            if holds_no_job(text) || fields.len() < 7 {
                None
            } else {
                let schedule = join(fields.take(5), " "@);
                Some(
                    CronJobView {
                        id: "system:"@ + source + ":"@ + decimal(index),
                        source,
                        user: fields[5],
                        schedule,
                        command: join(fields.skip(6), " "@),
                        enabled: true,
                        human_schedule: schedule_in_words(schedule),
                        next_run: None,
                        editable: false,
                    },
                )
            }
        },
        None => None,
    }
}

pub open spec fn user_jobs(lines: Seq<Seq<char>>, user: Seq<char>) -> Seq<CronJobView>
    decreases lines.len(),
{
    if lines.len() == 0 {
        Seq::empty()
    } else {
        let before = user_jobs(lines.drop_last(), user);
        match user_job(lines.last(), (lines.len() - 1) as nat, user) {
            Some(job) => before.push(job),
            None => before,
        }
    }
}

pub open spec fn system_jobs(lines: Seq<Seq<char>>) -> Seq<CronJobView>
    decreases lines.len(),
{
    if lines.len() == 0 {
        Seq::empty()
    } else {
        let before = system_jobs(lines.drop_last());
        match system_job(lines.last(), (lines.len() - 1) as nat) {
            Some(job) => before.push(job),
            None => before,
        }
    }
}

/// The job without the time of its next run.
pub open spec fn undated(job: CronJobView) -> CronJobView {
    CronJobView { next_run: None, ..job }
}

/// Whether `jobs` are `expected` with the times of their next runs.
pub open spec fn dated(jobs: Seq<CronJobView>, expected: Seq<CronJobView>) -> bool {
    &&& jobs.len() == expected.len()
    &&& forall|i: int|
        0 <= i < jobs.len() ==> undated(#[trigger] jobs[i]) == expected[i] && runs_next(
            jobs[i].schedule,
            jobs[i].next_run,
        )
}

fn first_five(fields: &Vec<Vec<char>>) -> (res: String)
    requires
        fields@.len() >= 5,
    ensures
        res@ == join(views(fields@).take(5), " "@),
{
    let part = slice_subrange(fields.as_slice(), 0, 5);
    assert(views(part@) =~= views(fields@).take(5));
    string_of(&join_chars(part, " "))
}

fn read_user_job(line: &[char], index: usize, user: &str) -> (res: Option<CronJob>)
    ensures
        res is Some == user_job(line@, index as nat, user@) is Some,
        res matches Some(job) ==> undated(job@) == user_job(line@, index as nat, user@)->0
            && runs_next(job@.schedule, job@.next_run),
{
    let whole = trimmed(line);
    let off = after_prefix(&whole, DISABLED_PREFIX);
    let enabled = off.is_none();
    let text = match off {
        Some(rest) => rest,
        None => whole,
    };
    if has_no_job(&text) {
        return None;
    }
    let fields = words(&text);
    if fields.len() < 6 {
        return None;
    }
    let schedule = first_five(&fields);
    let rest = join_from(&fields, 5);
    let command = match split_text(&rest, ID_MARKER) {
        Some((command, _)) => command,
        None => rest,
    };
    Some(
        CronJob {
            id: cron_line_id(line, index),
            source: copy("User crontab"),
            user: copy(user),
            human_schedule: human_cron(schedule.as_str()),
            next_run: next_cron_run(schedule.as_str()),
            schedule,
            command: string_of(&trimmed(&command)),
            enabled,
            editable: true,
        },
    )
}

fn read_system_job(line: &[char], index: usize) -> (res: Option<CronJob>)
    ensures
        res is Some == system_job(line@, index as nat) is Some,
        res matches Some(job) ==> undated(job@) == system_job(line@, index as nat)->0
            && runs_next(job@.schedule, job@.next_run),
{
    match split_char(line, '\t') {
        Some((source, rest)) => {
            let text = trimmed(&rest);
            if has_no_job(&text) {
                return None;
            }
            let fields = words(&text);
            if fields.len() < 7 {
                return None;
            }
            assert(views(fields@)[5] == fields@[5]@);
            let schedule = first_five(&fields);
            let source = string_of(&source);
            let mut id = glue3("system:", source.as_str(), ":");
            id.append(format_unsigned(index as u64).as_str());
            Some(
                CronJob {
                    id,
                    source,
                    user: string_of(fields[5].as_slice()),
                    command: string_of(&join_from(&fields, 6)),
                    enabled: true,
                    human_schedule: human_cron(schedule.as_str()),
                    next_run: next_cron_run(schedule.as_str()),
                    schedule,
                    editable: false,
                },
            )
        },
        None => None,
    }
}

proof fn lemma_dated_push(jobs: Seq<CronJobView>, expected: Seq<CronJobView>, job: CronJobView)
    requires
        dated(jobs, expected),
        runs_next(job.schedule, job.next_run),
    ensures
        dated(jobs.push(job), expected.push(undated(job))),
{
}

/// The jobs of the user's table.
pub fn parse_user_crontab(text: &str, user: &str) -> (res: Vec<CronJob>)
    ensures
        dated(views(res@), user_jobs(lines_of(text@), user@)),
{
    let lines = lines_str(text);
    let ghost all = views(lines@);
    let mut jobs: Vec<CronJob> = Vec::new();
    let mut i: usize = 0;
    assert(all.take(0) =~= Seq::empty());
    assert(views(jobs@) =~= Seq::empty());
    while i < lines.len()
        invariant
            i <= lines@.len(),
            all == views(lines@),
            dated(views(jobs@), user_jobs(all.take(i as int), user@)),
        decreases lines@.len() - i,
    {
        broadcast use lemma_views_push;

        let ghost next = all.take(i + 1);
        assert(next.drop_last() =~= all.take(i as int));
        assert(next.last() == lines@[i as int]@);
        match read_user_job(lines[i].as_slice(), i, user) {
            Some(job) => {
                proof {
                    lemma_dated_push(views(jobs@), user_jobs(all.take(i as int), user@), job@);
                }
                jobs.push(job);
            },
            None => {},
        }
        i += 1;
    }
    assert(all.take(lines@.len() as int) =~= all);
    jobs
}

fn parse_system_tables(text: &str) -> (res: Vec<CronJob>)
    ensures
        dated(views(res@), system_jobs(lines_of(text@))),
{
    let lines = lines_str(text);
    let ghost all = views(lines@);
    let mut jobs: Vec<CronJob> = Vec::new();
    let mut i: usize = 0;
    assert(all.take(0) =~= Seq::empty());
    assert(views(jobs@) =~= Seq::empty());
    while i < lines.len()
        invariant
            i <= lines@.len(),
            all == views(lines@),
            dated(views(jobs@), system_jobs(all.take(i as int))),
        decreases lines@.len() - i,
    {
        broadcast use lemma_views_push;

        let ghost next = all.take(i + 1);
        assert(next.drop_last() =~= all.take(i as int));
        assert(next.last() == lines@[i as int]@);
        match read_system_job(lines[i].as_slice(), i) {
            Some(job) => {
                proof {
                    lemma_dated_push(views(jobs@), system_jobs(all.take(i as int)), job@);
                }
                jobs.push(job);
            },
            None => {},
        }
        i += 1;
    }
    assert(all.take(lines@.len() as int) =~= all);
    jobs
}

/// The jobs of a server: the user's, then the system's.
pub fn cron_jobs(user_text: &str, user: &str, system_text: &str) -> (res: Vec<CronJob>)
    ensures
        dated(
            views(res@),
            user_jobs(lines_of(user_text@), user@) + system_jobs(lines_of(system_text@)),
        ),
{
    let mut jobs = parse_user_crontab(user_text, user);
    let mut more = parse_system_tables(system_text);
    let ghost a = views(jobs@);
    let ghost b = views(more@);
    jobs.append(&mut more);
    assert(views(jobs@) =~= a + b);
    jobs
}

// ---------------------------------------------------------------------------
// Changes
// ---------------------------------------------------------------------------

/// What speaks against a job before the server is asked.
pub open spec fn job_verdict(input: CronJobInputView) -> Result<(), Seq<char>> {
    match schedule_verdict(input.schedule) {
        Err(error) => Err(error),
        Ok(()) => if trim(input.command).len() == 0 || input.command.contains('\n')
            || input.command.contains('\r') {
            Err("Enter a single-line cron command"@)
        } else {
            Ok(())
        },
    }
}

pub fn check_cron_job(input: &CronJobInput) -> (res: Result<(), String>)
    ensures
        error_result(res) == job_verdict(input@),
{
    match validate_cron(input.schedule.as_str()) {
        Err(error) => {
            return Err(error);
        },
        Ok(()) => {},
    }
    let command = chars_of(input.command.as_str());
    if trimmed(&command).len() == 0 || has_char(&command, '\n') || has_char(&command, '\r') {
        return Err(copy("Enter a single-line cron command"));
    }
    Ok(())
}

/// The lines with `replacement` in place of the job `id`; without a replacement the job is
/// left out.
pub open spec fn replaced_lines(
    lines: Seq<Seq<char>>,
    id: Seq<char>,
    replacement: Option<Seq<char>>,
) -> Seq<Seq<char>>
    decreases lines.len(),
{
    if lines.len() == 0 {
        Seq::empty()
    } else {
        let before = replaced_lines(lines.drop_last(), id, replacement);
        if line_id(lines.last(), (lines.len() - 1) as nat) == id {
            match replacement {
                Some(line) => before.push(line),
                None => before,
            }
        } else {
            before.push(lines.last())
        }
    }
}

pub open spec fn has_job(lines: Seq<Seq<char>>, id: Seq<char>) -> bool {
    exists|i: int| 0 <= i < lines.len() && line_id(#[trigger] lines[i], i as nat) == id
}

/// The table as it is written: its lines, with a newline behind the last.
pub open spec fn table_text(lines: Seq<Seq<char>>) -> Seq<char> {
    join(lines, "\n"@) + "\n"@
}

/// The table with `replacement` in place of the job `id`, or behind the others where there
/// is no id.
pub open spec fn replaced_table(
    existing: Seq<char>,
    id: Option<Seq<char>>,
    replacement: Option<Seq<char>>,
) -> Result<Seq<char>, Seq<char>> {
    let lines = lines_of(existing);
    match id {
        Some(id) => if has_job(lines, id) {
            Ok(table_text(replaced_lines(lines, id, replacement)))
        } else {
            Err(CRON_JOB_GONE@)
        },
        None => Ok(
            table_text(
                match replacement {
                    Some(line) => lines.push(line),
                    None => lines,
                },
            ),
        ),
    }
}

fn write_table(lines: &[String]) -> (res: String)
    ensures
        res@ == table_text(views(lines@)),
{
    glue2(join_strings(lines, "\n").as_str(), "\n")
}

pub open spec fn str_view(text: Option<&str>) -> Option<Seq<char>> {
    match text {
        Some(s) => Some(s@),
        None => None,
    }
}

fn replace_job(lines: &[Vec<char>], id: &str, replacement: Option<&str>) -> (res: (
    bool,
    Vec<String>,
))
    ensures
        res.0 == has_job(views(lines@), id@),
        views(res.1@) == replaced_lines(views(lines@), id@, str_view(replacement)),
{
    let ghost all = views(lines@);
    let mut found = false;
    let mut out: Vec<String> = Vec::new();
    let mut i: usize = 0;
    assert(all.take(0) =~= Seq::empty());
    assert(views(out@) =~= Seq::empty());
    while i < lines.len()
        invariant
            i <= lines@.len(),
            all == views(lines@),
            found == has_job(all.take(i as int), id@),
            views(out@) == replaced_lines(all.take(i as int), id@, str_view(replacement)),
        decreases lines@.len() - i,
    {
        broadcast use lemma_views_push;

        let ghost next = all.take(i + 1);
        assert(next.drop_last() =~= all.take(i as int));
        assert(next.last() == lines@[i as int]@);
        let matches_id = same(cron_line_id(lines[i].as_slice(), i).as_str(), id);
        proof {
            assert(next[i as int] == lines@[i as int]@);
            if has_job(all.take(i as int), id@) {
                let k = choose|k: int|
                    0 <= k < i && line_id(#[trigger] all.take(i as int)[k], k as nat) == id@;
                assert(next[k] == all.take(i as int)[k]);
            }
            if has_job(next, id@) {
                let k = choose|k: int|
                    0 <= k < next.len() && line_id(#[trigger] next[k], k as nat) == id@;
                if k < i {
                    assert(all.take(i as int)[k] == next[k]);
                }
            }
        }
        if matches_id {
            found = true;
            match replacement {
                Some(line) => {
                    out.push(copy(line));
                },
                None => {},
            }
        } else {
            out.push(string_of(lines[i].as_slice()));
        }
        i += 1;
    }
    assert(all.take(lines@.len() as int) =~= all);
    (found, out)
}

/// The table with `replacement` in place of the job `id`, or behind the others.
pub fn replace_cron_line(existing: &str, id: Option<&str>, replacement: Option<&str>) -> (res:
    Result<String, String>)
    ensures
        text_result(res) == replaced_table(existing@, str_view(id), str_view(replacement)),
{
    let lines = lines_str(existing);
    match id {
        Some(id) => {
            let (found, out) = replace_job(&lines, id, replacement);
            if !found {
                return Err(copy(CRON_JOB_GONE));
            }
            Ok(write_table(&out))
        },
        None => {
            broadcast use lemma_views_push;

            let mut out = crate::text::strings_of(&lines);
            match replacement {
                Some(line) => {
                    out.push(copy(line));
                },
                None => {},
            }
            Ok(write_table(&out))
        },
    }
}

/// The id that a job is saved under: its own where it stands in the user's table, or else
/// `fresh`.
pub open spec fn saved_id(id: Option<Seq<char>>, fresh: Seq<char>) -> Seq<char> {
    match id {
        Some(id) => if starts_with(id, "user:"@) {
            id
        } else {
            "user:"@ + fresh
        },
        None => "user:"@ + fresh,
    }
}

/// The user's table after a job was saved in it.
pub open spec fn saved_table(
    input: CronJobInputView,
    existing: Seq<char>,
    fresh: Seq<char>,
) -> Result<Seq<char>, Seq<char>> {
    replaced_table(
        existing,
        input.id,
        Some(job_line(saved_id(input.id, fresh), input.schedule, input.command, input.enabled)),
    )
}

/// The user's table after a job was saved in it, with a given id for a new one.
pub fn plan_cron_job(input: &CronJobInput, existing: &str, fresh: &str) -> (res: Result<
    String,
    String,
>)
    ensures
        text_result(res) == saved_table(input@, existing@, fresh@),
{
    let id = match &input.id {
        Some(id) => if begins_with(&chars_of(id.as_str()), "user:") {
            id.clone()
        } else {
            glue2("user:", fresh)
        },
        None => glue2("user:", fresh),
    };
    let line = cron_job_line(
        id.as_str(),
        input.schedule.as_str(),
        input.command.as_str(),
        input.enabled,
    );
    let old_id: Option<&str> = match &input.id {
        Some(id) => Some(id.as_str()),
        None => None,
    };
    replace_cron_line(existing, old_id, Some(line.as_str()))
}

/// The user's table after a job was saved in it. A new one gets a random id.
pub fn save_cron_job(input: &CronJobInput, existing: &str) -> (res: Result<String, String>)
    ensures
        exists|fresh: Seq<char>|
            is_uuid(fresh) && #[trigger] saved_table(input@, existing@, fresh) == text_result(
                res,
            ),
{
    let fresh = random_uuid();
    plan_cron_job(input, existing, fresh.as_str())
}

/// What speaks against an action before the server is asked.
pub open spec fn action_verdict(id: Seq<char>, action: Seq<char>) -> Result<(), Seq<char>> {
    if starts_with(id, "user:"@) && (action == "delete"@ || action == "enable"@ || action
        == "disable"@) {
        Ok(())
    } else {
        Err("Unsupported cron action"@)
    }
}

pub fn check_cron_action(id: &str, action: &str) -> (res: Result<(), String>)
    ensures
        error_result(res) == action_verdict(id@, action@),
{
    if begins_with(&chars_of(id), "user:") && (same(action, "delete") || same(action, "enable")
        || same(action, "disable")) {
        Ok(())
    } else {
        Err(copy("Unsupported cron action"))
    }
}

/// A line without the sign that it is switched off.
pub open spec fn switched_on(line: Seq<char>) -> Seq<char> {
    match strip_prefix(trim(line), DISABLED_PREFIX@) {
        Some(rest) => rest,
        None => trim(line),
    }
}

/// A line with the sign that it is switched off.
pub open spec fn switched_off(line: Seq<char>) -> Seq<char> {
    DISABLED_PREFIX@ + switched_on(line)
}

/// What an action makes of the line of a job; nothing where it deletes it.
pub open spec fn acted_line(line: Seq<char>, action: Seq<char>) -> Option<Seq<char>> {
    if action == "delete"@ {
        None
    } else if action == "disable"@ {
        Some(switched_off(line))
    } else {
        Some(switched_on(line))
    }
}

/// The lines after an action on the job `id`.
pub open spec fn acted_lines(lines: Seq<Seq<char>>, id: Seq<char>, action: Seq<char>) -> Seq<
    Seq<char>,
>
    decreases lines.len(),
{
    if lines.len() == 0 {
        Seq::empty()
    } else {
        let before = acted_lines(lines.drop_last(), id, action);
        if line_id(lines.last(), (lines.len() - 1) as nat) == id {
            match acted_line(lines.last(), action) {
                Some(line) => before.push(line),
                None => before,
            }
        } else {
            before.push(lines.last())
        }
    }
}

/// The user's table after an action on the job `id`.
pub open spec fn acted_table(existing: Seq<char>, id: Seq<char>, action: Seq<char>) -> Result<
    Seq<char>,
    Seq<char>,
> {
    if has_job(lines_of(existing), id) {
        Ok(table_text(acted_lines(lines_of(existing), id, action)))
    } else {
        Err(CRON_JOB_GONE@)
    }
}

fn act_on_line(line: &[char], action: &str) -> (res: Option<String>)
    ensures
        opt_view(res) == acted_line(line@, action@),
{
    if same(action, "delete") {
        return None;
    }
    let whole = trimmed(line);
    let raw = match after_prefix(&whole, DISABLED_PREFIX) {
        Some(rest) => string_of(&rest),
        None => string_of(&whole),
    };
    if same(action, "disable") {
        Some(glue2(DISABLED_PREFIX, raw.as_str()))
    } else {
        Some(raw)
    }
}

/// The user's table after an action on the job `id`.
pub fn cron_action(id: &str, action: &str, existing: &str) -> (res: Result<String, String>)
    ensures
        text_result(res) == acted_table(existing@, id@, action@),
{
    let lines = lines_str(existing);
    let ghost all = views(lines@);
    let mut found = false;
    let mut out: Vec<String> = Vec::new();
    let mut i: usize = 0;
    assert(all.take(0) =~= Seq::empty());
    assert(views(out@) =~= Seq::empty());
    while i < lines.len()
        invariant
            i <= lines@.len(),
            all == views(lines@),
            found == has_job(all.take(i as int), id@),
            views(out@) == acted_lines(all.take(i as int), id@, action@),
        decreases lines@.len() - i,
    {
        broadcast use lemma_views_push;

        let ghost next = all.take(i + 1);
        assert(next.drop_last() =~= all.take(i as int));
        assert(next.last() == lines@[i as int]@);
        let matches_id = same(cron_line_id(lines[i].as_slice(), i).as_str(), id);
        proof {
            assert(next[i as int] == lines@[i as int]@);
            if has_job(all.take(i as int), id@) {
                let k = choose|k: int|
                    0 <= k < i && line_id(#[trigger] all.take(i as int)[k], k as nat) == id@;
                assert(next[k] == all.take(i as int)[k]);
            }
            if has_job(next, id@) {
                let k = choose|k: int|
                    0 <= k < next.len() && line_id(#[trigger] next[k], k as nat) == id@;
                if k < i {
                    assert(all.take(i as int)[k] == next[k]);
                }
            }
        }
        if matches_id {
            found = true;
            match act_on_line(lines[i].as_slice(), action) {
                Some(line) => {
                    out.push(line);
                },
                None => {},
            }
        } else {
            out.push(string_of(lines[i].as_slice()));
        }
        i += 1;
    }
    assert(all.take(lines@.len() as int) =~= all);
    if !found {
        return Err(copy(CRON_JOB_GONE));
    }
    Ok(write_table(&out))
}

// ---------------------------------------------------------------------------
// Laws
// ---------------------------------------------------------------------------

/// Whether an id can be told on a line: it is one of the user's table, without white space
/// at its ends and without the marker of ids.
pub open spec fn is_plain_id(id: Seq<char>) -> bool {
    starts_with(id, "user:"@) && trim(id) == id && !contains_text(id, ID_MARKER@)
}

/// Where no part of a marker but its third character begins like it, and that part does
/// not go on like it, the last marker on a line is the one before the id.
proof fn lemma_last_marker(start: Seq<char>, marker: Seq<char>, id: Seq<char>)
    requires
        marker.len() > 3,
        forall|k: int| 1 <= k < marker.len() && k != 2 ==> #[trigger] marker[k] != marker[0],
        marker[3] != marker[1],
        !contains_text(id, marker),
    ensures
        split_at_last(start + marker + id, marker) == Some((start, id)),
{
    let line = start + marker + id;
    let p = start.len() as int;
    let n = marker.len() as int;
    assert(line.subrange(p, p + n) =~= marker);
    assert forall|j: int| p < j <= line.len() - n implies !matches_at(line, marker, j) by {
        if matches_at(line, marker, j) {
            let seen = line.subrange(j, j + n);
            assert(seen[0] == line[j] && seen[1] == line[j + 1]);
            if j < p + n {
                assert(line[j] == marker[j - p]);
                assert(j == p + 2);
                assert(line[j + 1] == marker[3]);
            } else {
                assert(id.subrange(j - p - n, j - p) =~= seen);
                assert(matches_at(id, marker, j - p - n));
            }
        }
    }
    crate::text::lemma_find_last(line, marker, line.len() - n, p);
    assert(line.take(p) =~= start);
    assert(line.skip(p + n) =~= id);
}

/// The id that is written behind a job is read back from its line.
pub proof fn written_ids_are_read_back(
    id: Seq<char>,
    schedule: Seq<char>,
    command: Seq<char>,
    enabled: bool,
    index: nat,
)
    requires
        is_plain_id(id),
    ensures
        line_id(job_line(id, schedule, command, enabled), index) == id,
{
    let plain = trim(schedule) + " "@ + trim(command);
    assert(ID_MARKER@.len() == 13 && ID_MARKER@[3] != ID_MARKER@[1] && (forall|k: int|
        1 <= k < 13 && k != 2 ==> #[trigger] ID_MARKER@[k] != ID_MARKER@[0])) by {
        reveal_strlit(" # serverbox:");
    }
    if enabled {
        lemma_last_marker(plain, ID_MARKER@, id);
    } else {
        lemma_last_marker(DISABLED_PREFIX@ + plain, ID_MARKER@, id);
        assert(DISABLED_PREFIX@ + (plain + ID_MARKER@ + id) =~= DISABLED_PREFIX@ + plain + ID_MARKER@
            + id);
    }
}

/// Switching a job off and on again gives its line back. (A line with nothing on it but
/// the sign that it is switched off holds no job.)
pub proof fn switching_off_is_undone(line: Seq<char>)
    requires
        switched_on(line).len() > 0,
    ensures
        switched_on(switched_off(line)) == switched_on(line),
{
    let p = space_fn();
    let on = switched_on(line);
    let off = switched_off(line);
    reveal_strlit("# SERVERBOX_DISABLED ");
    assert(DISABLED_PREFIX@[0] == '#');
    lemma_trim_end_len(trim_start(line), p);
    assert(trim(line).len() > 0);
    assert(on.last() == trim(line).last());
    assert(off[0] == '#');
    assert(off.last() == on.last());
    assert(trim_start(off) == off);
    assert(trim_end(off) == off);
    assert(off.subrange(0, DISABLED_PREFIX@.len() as int) =~= DISABLED_PREFIX@);
    assert(off.skip(DISABLED_PREFIX@.len() as int) =~= on);
}

/// A job that was added stands in the table under its new id, and the lines before it are
/// as they were.
pub proof fn added_jobs_are_found(input: CronJobInputView, existing: Seq<char>, fresh: Seq<char>)
    requires
        input.id is None,
        !input.schedule.contains('\n') && !input.command.contains('\n'),
        is_plain_id("user:"@ + fresh),
        !fresh.contains('\n'),
        forall|i: int| 0 <= i < lines_of(existing).len() ==> is_line(#[trigger] lines_of(existing)[i]),
    ensures
        saved_table(input, existing, fresh) is Ok,
        ({
            let lines = lines_of(saved_table(input, existing, fresh)->Ok_0);
            &&& has_job(lines, "user:"@ + fresh)
            &&& lines.len() == lines_of(existing).len() + 1
            &&& lines.drop_last() == lines_of(existing)
        }),
{
    let id = "user:"@ + fresh;
    let line = job_line(id, input.schedule, input.command, input.enabled);
    let lines = lines_of(existing).push(line);
    lemma_trim_keeps_out(input.schedule, '\n');
    lemma_trim_keeps_out(input.command, '\n');
    reveal_strlit("user:");
    reveal_strlit(" ");
    reveal_strlit(" # serverbox:");
    reveal_strlit("# SERVERBOX_DISABLED ");
    assert(!line.contains('\n')) by {
        if line.contains('\n') {
            let k = choose|k: int| 0 <= k < line.len() && line[k] == '\n';
            let plain = trim(input.schedule) + " "@ + trim(input.command) + ID_MARKER@ + id;
            let shift: int = if input.enabled {
                0
            } else {
                DISABLED_PREFIX@.len() as int
            };
            if k >= shift {
                let j = k - shift;
                assert(line[k] == plain[j]);
                let a = trim(input.schedule).len() as int;
                let b = trim(input.command).len() as int;
                if j < a {
                    assert(trim(input.schedule)[j] == '\n');
                } else if j < a + 1 {
                    assert(" "@[j - a] == '\n');
                } else if j < a + 1 + b {
                    assert(trim(input.command)[j - a - 1] == '\n');
                } else if j < a + 1 + b + 13 {
                    assert(ID_MARKER@[j - a - 1 - b] == '\n');
                } else if j < a + 1 + b + 13 + 5 {
                    assert("user:"@[j - a - 1 - b - 13] == '\n');
                } else {
                    assert(fresh[j - a - 1 - b - 18] == '\n');
                }
            } else {
                assert(DISABLED_PREFIX@[k] == '\n');
            }
        }
    }
    lemma_trim_end_len(trim_start(id), space_fn());
    assert(id.len() > 0 && line.last() == id.last());
    assert(is_line(line));
    assert forall|i: int| 0 <= i < lines.len() implies is_line(#[trigger] lines[i]) by {
        if i < lines.len() - 1 {
            assert(lines[i] == lines_of(existing)[i]);
        }
    }
    joined_lines_read_back(lines);
    written_ids_are_read_back(id, input.schedule, input.command, input.enabled, (lines.len() - 1) as nat);
    assert(line_id(lines[lines.len() - 1], (lines.len() - 1) as nat) == id);
    assert(lines.drop_last() =~= lines_of(existing));
}

/// Trimming brings no character in.
proof fn lemma_trim_keeps_out(s: Seq<char>, c: char)
    requires
        !s.contains(c),
    ensures
        !trim(s).contains(c),
{
    lemma_trim_start_len(s, space_fn());
    let t = trim_start(s);
    lemma_trim_end_len(t, space_fn());
    let u = trim(s);
    assert forall|j: int| 0 <= j < u.len() implies u[j] != c by {
        assert(u[j] == t[j]);
        assert(t[j] == s[j + (s.len() - t.len())]);
        assert(s.contains(s[j + (s.len() - t.len())]));
    }
}

/// A job that was written is read back: when it runs, what it runs, and whether it is on.
pub proof fn written_jobs_read_back(
    id: Seq<char>,
    times: Seq<Seq<char>>,
    words: Seq<Seq<char>>,
    enabled: bool,
    index: nat,
    user: Seq<char>,
)
    requires
        is_plain_id(id),
        is_word("serverbox:"@ + id),
        times.len() == 5,
        words.len() > 0,
        forall|i: int| 0 <= i < times.len() ==> is_word(#[trigger] times[i]),
        forall|i: int| 0 <= i < words.len() ==> is_word(#[trigger] words[i]),
        times[0][0] != '#',
        forall|k: int|
            0 <= k < join(words, " "@).len() ==> !matches_at(
                join(words, " "@) + " # serverbox:"@ + id,
                " # serverbox:"@,
                k,
            ),
    ensures
        user_job(
            job_line(id, join(times, " "@), join(words, " "@), enabled),
            index,
            user,
        ) matches Some(job) && {
            &&& job.id == id
            &&& job.user == user
            &&& job.schedule == join(times, " "@)
            &&& job.command == join(words, " "@)
            &&& job.enabled == enabled
            &&& job.editable
        },
{
    let schedule = join(times, " "@);
    let command = join(words, " "@);
    let text = schedule + " "@ + command + ID_MARKER@ + id;
    let rest = command + ID_MARKER@ + id;
    let line = job_line(id, schedule, command, enabled);
    lemma_word_ends(times);
    lemma_word_ends(words);
    lemma_trimmed(schedule);
    lemma_trimmed(command);
    lemma_line_words(id, times, words);
    assert(line == if enabled {
        text
    } else {
        DISABLED_PREFIX@ + text
    });
    lemma_switched(text);
    assert(!holds_no_job(text)) by {
        reveal_strlit("#");
        assert(text.take(1)[0] == text[0]);
        assert("#"@[0] == '#');
    }
    lemma_command_ends(command, id);
    written_ids_are_read_back(id, schedule, command, enabled, index);
}

proof fn lemma_trimmed(s: Seq<char>)
    requires
        s.len() > 0,
        !is_space(s[0]) && !is_space(s.last()),
    ensures
        trim(s) == s,
{
    let none = Seq::<char>::empty();
    assert(none + s + none =~= s);
    trimming_takes_off_spaces(none, s, none);
}

proof fn lemma_switched(text: Seq<char>)
    requires
        text.len() > 0,
        !is_space(text[0]) && !is_space(text.last()),
        text[0] != '#',
    ensures
        trim(text) == text,
        strip_prefix(text, DISABLED_PREFIX@) is None,
        trim(DISABLED_PREFIX@ + text) == DISABLED_PREFIX@ + text,
        strip_prefix(DISABLED_PREFIX@ + text, DISABLED_PREFIX@) == Some(text),
{
    let off = DISABLED_PREFIX@ + text;
    reveal_strlit("# SERVERBOX_DISABLED ");
    assert(off[0] == '#');
    assert(off.last() == text.last());
    lemma_trimmed(text);
    lemma_trimmed(off);
    assert(off.take(DISABLED_PREFIX@.len() as int) =~= DISABLED_PREFIX@);
    assert(off.skip(DISABLED_PREFIX@.len() as int) =~= text);
    if text.len() >= DISABLED_PREFIX@.len() {
        assert(text.take(DISABLED_PREFIX@.len() as int)[0] == text[0]);
    }
}

proof fn lemma_command_ends(command: Seq<char>, id: Seq<char>)
    requires
        forall|k: int|
            0 <= k < command.len() ==> !matches_at(
                command + " # serverbox:"@ + id,
                " # serverbox:"@,
                k,
            ),
    ensures
        split_at_text(command + ID_MARKER@ + id, ID_MARKER@) == Some((command, id)),
{
    let rest = command + ID_MARKER@ + id;
    let k = command.len() as int;
    let n = ID_MARKER@.len();
    assert(rest.subrange(k, k + n) =~= ID_MARKER@);
    assert(matches_at(rest, ID_MARKER@, k));
    lemma_find_from(rest, ID_MARKER@, 0);
    assert(rest.take(k) =~= command);
    assert(rest.skip(k + n) =~= id);
}

proof fn lemma_marker_words(id: Seq<char>)
    ensures
        " "@ + join(seq!["#"@, "serverbox:"@ + id], " "@) == ID_MARKER@ + id,
        is_word("#"@),
{
    let mark = seq!["#"@, "serverbox:"@ + id];
    reveal_strlit(" ");
    reveal_strlit("#");
    reveal_strlit("serverbox:");
    reveal_strlit(" # serverbox:");
    lemma_join_front(mark, " "@);
    assert(mark.skip(1) =~= seq!["serverbox:"@ + id]);
    assert(join(mark.skip(1), " "@) == "serverbox:"@ + id);
    assert(" "@ + "#"@ + " "@ + "serverbox:"@ =~= " # serverbox:"@);
    assert(" "@ + ("#"@ + " "@ + ("serverbox:"@ + id)) =~= " "@ + "#"@ + " "@ + "serverbox:"@
        + id);
}

proof fn lemma_line_words(id: Seq<char>, times: Seq<Seq<char>>, words: Seq<Seq<char>>)
    requires
        is_word("serverbox:"@ + id),
        times.len() == 5,
        words.len() > 0,
        forall|i: int| 0 <= i < times.len() ==> is_word(#[trigger] times[i]),
        forall|i: int| 0 <= i < words.len() ==> is_word(#[trigger] words[i]),
    ensures
        ({
            let schedule = join(times, " "@);
            let command = join(words, " "@);
            let text = schedule + " "@ + command + ID_MARKER@ + id;
            let fields = words_of(text);
            &&& fields.len() >= 6
            &&& join(fields.take(5), " "@) == schedule
            &&& join(fields.skip(5), " "@) == command + ID_MARKER@ + id
            &&& text.len() > 0
            &&& text[0] == times[0][0]
            &&& !is_space(text[0]) && !is_space(text.last())
            &&& text.contains(' ')
        }),
{
    let schedule = join(times, " "@);
    let command = join(words, " "@);
    let mark = seq!["#"@, "serverbox:"@ + id];
    let fields = times + (words + mark);
    let text = schedule + " "@ + command + ID_MARKER@ + id;
    lemma_marker_words(id);
    lemma_join_concat(words, mark, " "@);
    lemma_join_concat(times, words + mark, " "@);
    assert(command + " "@ + join(mark, " "@) =~= command + (" "@ + join(mark, " "@)));
    assert(command + (ID_MARKER@ + id) =~= command + ID_MARKER@ + id);
    assert(schedule + " "@ + (command + ID_MARKER@ + id) =~= text);
    assert(text == join(fields, " "@));
    assert forall|i: int| 0 <= i < fields.len() implies is_word(#[trigger] fields[i]) by {
        if i < 5 {
            assert(fields[i] == times[i]);
        } else if i < 5 + words.len() {
            assert(fields[i] == words[i - 5]);
        } else if i == 5 + words.len() {
            assert(fields[i] == "#"@);
        } else {
            assert(fields[i] == "serverbox:"@ + id);
        }
    }
    joined_words_read_back(fields);
    assert(fields.take(5) =~= times);
    assert(fields.skip(5) =~= words + mark);
    lemma_word_ends(fields);
    assert(fields[0] == times[0]);
    reveal_strlit(" ");
    assert(text[schedule.len() as int] == ' ');
}

proof fn lemma_word_ends(words: Seq<Seq<char>>)
    requires
        words.len() > 0,
        forall|i: int| 0 <= i < words.len() ==> is_word(#[trigger] words[i]),
    ensures
        join(words, " "@).len() > 0,
        !is_space(join(words, " "@)[0]),
        !is_space(join(words, " "@).last()),
        join(words, " "@)[0] == words[0][0],
{
    let s = join(words, " "@);
    assert(is_word(words[0]) && is_word(words[words.len() - 1]));
    if words.len() > 1 {
        lemma_join_front(words, " "@);
        assert(s[0] == words[0][0]);
        assert(s.last() == words.last()[words.last().len() - 1]);
    }
}

/// A job of the system is read back from its line: where it stands, who runs it, when, and
/// what.
pub proof fn system_jobs_read_back(source: Seq<char>, fields: Seq<Seq<char>>, index: nat)
    requires
        !source.contains('\t'),
        fields.len() >= 7,
        forall|i: int| 0 <= i < fields.len() ==> is_word(#[trigger] fields[i]),
        fields[0][0] != '#',
    ensures
        system_job(source + seq!['\t'] + join(fields, " "@), index) matches Some(job) && {
            &&& job.source == source
            &&& job.schedule == join(fields.take(5), " "@)
            &&& job.user == fields[5]
            &&& job.command == join(fields.skip(6), " "@)
            &&& job.enabled
            &&& !job.editable
        },
{
    let text = join(fields, " "@);
    reveal_strlit(" ");
    reveal_strlit("#");
    splits_read_back(source, '\t', text);
    lemma_word_ends(fields);
    let none = Seq::<char>::empty();
    assert(none + text + none =~= text);
    trimming_takes_off_spaces(none, text, none);
    joined_words_read_back(fields);
    assert(text.take(1)[0] == text[0]);
    lemma_join_front(fields, " "@);
    assert(text[fields[0].len() as int] == ' ');
    assert(text.contains(' '));
}

/// An action touches the lines of its job and no others: deleting takes them out, disabling
/// puts the mark before them, enabling takes it off.
pub proof fn only_the_named_job_is_touched(
    lines: Seq<Seq<char>>,
    line: Seq<char>,
    id: Seq<char>,
    action: Seq<char>,
    replacement: Seq<char>,
)
    ensures
        line_id(line, lines.len()) != id ==> {
            &&& acted_lines(lines.push(line), id, action) == acted_lines(lines, id, action).push(
                line,
            )
            &&& replaced_lines(lines.push(line), id, Some(replacement)) == replaced_lines(
                lines,
                id,
                Some(replacement),
            ).push(line)
        },
        line_id(line, lines.len()) == id ==> {
            &&& acted_lines(lines.push(line), id, "delete"@) == acted_lines(lines, id, "delete"@)
            &&& acted_lines(lines.push(line), id, "disable"@) == acted_lines(
                lines,
                id,
                "disable"@,
            ).push("# SERVERBOX_DISABLED "@ + switched_on(line))
            &&& acted_lines(lines.push(line), id, "enable"@) == acted_lines(
                lines,
                id,
                "enable"@,
            ).push(switched_on(line))
            &&& replaced_lines(lines.push(line), id, Some(replacement)) == replaced_lines(
                lines,
                id,
                Some(replacement),
            ).push(replacement)
            &&& replaced_lines(lines.push(line), id, None) == replaced_lines(lines, id, None)
        },
        acted_lines(Seq::empty(), id, action).len() == 0,
        replaced_lines(Seq::empty(), id, Some(replacement)).len() == 0,
{
    reveal_strlit("delete");
    reveal_strlit("enable");
    reveal_strlit("disable");
    assert("delete"@.len() == 6);
    assert("enable"@.len() == 6);
    assert("disable"@.len() == 7);
    assert("delete"@[0] == 'd');
    assert("enable"@[0] == 'e');
    assert(lines.push(line).drop_last() =~= lines);
}

/// A line that is off is switched on by taking its mark off; one that is on stays as it is.
pub proof fn switching_on_takes_the_mark_off(text: Seq<char>)
    requires
        text.len() > 0,
        !is_space(text[0]) && !is_space(text.last()),
    ensures
        switched_on("# SERVERBOX_DISABLED "@ + text) == text,
        !starts_with(text, "# SERVERBOX_DISABLED "@) ==> switched_on(text) == text,
{
    let none = Seq::<char>::empty();
    let off = DISABLED_PREFIX@ + text;
    reveal_strlit("# SERVERBOX_DISABLED ");
    assert(off[0] == '#');
    assert(off.last() == text.last());
    assert(none + off + none =~= off);
    assert(none + text + none =~= text);
    trimming_takes_off_spaces(none, off, none);
    trimming_takes_off_spaces(none, text, none);
    assert(off.take(DISABLED_PREFIX@.len() as int) =~= DISABLED_PREFIX@);
    assert(off.skip(DISABLED_PREFIX@.len() as int) =~= text);
}

/// Only the user's own jobs are acted on, and only where they are there; a job is saved only
/// with five fields that are a schedule and one line of command. It keeps its id.
pub proof fn cron_requests_are_checked(
    input: CronJobInputView,
    id: Seq<char>,
    action: Seq<char>,
    existing: Seq<char>,
    fresh: Seq<char>,
)
    ensures
        action_verdict(id, action) is Ok <==> starts_with(id, "user:"@) && (action == "delete"@
            || action == "enable"@ || action == "disable"@),
        acted_table(existing, id, action) is Ok <==> has_job(lines_of(existing), id),
        acted_table(existing, id, action) matches Ok(table) ==> table == join(
            acted_lines(lines_of(existing), id, action),
            "\n"@,
        ) + "\n"@,
        job_verdict(input) is Ok <==> words_of(input.schedule).len() == 5 && is_schedule(
            "0 "@ + input.schedule,
        ) && trim(input.command).len() > 0 && !input.command.contains('\n')
            && !input.command.contains('\r'),
        starts_with(id, "user:"@) ==> saved_id(Some(id), fresh) == id,
        saved_id(None, fresh) == "user:"@ + fresh,
        input.id == Some(id) ==> (saved_table(input, existing, fresh) is Ok <==> has_job(
            lines_of(existing),
            id,
        )),
        next_run(id, fresh) is Some ==> is_schedule("0 "@ + id) && next_run(id, fresh) == run_after(
            "0 "@ + id,
            fresh,
        ),
        is_schedule("0 "@ + id) ==> next_run(id, fresh) == run_after("0 "@ + id, fresh),
{
}

/// What a server is asked of its jobs, word for word, and how they are written back.
pub proof fn cron_tables_are_asked_for()
    ensures
        CRONTAB_COMMAND@ == "crontab -l 2>/dev/null || true"@,
        SYSTEM_CRON_COMMAND@ == "for f in /etc/crontab /etc/cron.d/*; do [ -r \"$f\" ] || continue; awk -v f=\"$f\" 'NF { print f \"\\t\" $0 }' \"$f\"; done"@,
        CRONTAB_WRITE_COMMAND@ == "crontab -"@,
        DISABLED_PREFIX@ == "# SERVERBOX_DISABLED "@,
        ID_MARKER@ == " # serverbox:"@,
        CRON_JOB_GONE@ == "That cron job no longer exists"@,
{
}

/// The schedules that have words of their own.
pub proof fn schedules_are_put_in_words(schedule: Seq<char>)
    ensures
        trim(schedule) == "* * * * *"@ ==> schedule_in_words(schedule) == "Every minute"@,
        trim(schedule) == "0 * * * *"@ ==> schedule_in_words(schedule) == "Every hour"@,
        trim(schedule) == "0 0 * * *"@ ==> schedule_in_words(schedule) == "Every day at midnight"@,
        trim(schedule) == "0 0 * * 0"@ ==> schedule_in_words(schedule)
            == "Every Sunday at midnight"@,
        trim(schedule) == "0 0 1 * *"@ ==> schedule_in_words(schedule)
            == "On the first day of every month"@,
{
    reveal_strlit("* * * * *");
    reveal_strlit("0 * * * *");
    reveal_strlit("0 0 * * *");
    reveal_strlit("0 0 * * 0");
    reveal_strlit("0 0 1 * *");
    assert("* * * * *"@.len() == 9);
    assert("0 * * * *"@.len() == 9);
    assert("0 0 * * *"@.len() == 9);
    assert("0 0 * * 0"@.len() == 9);
    assert("0 0 1 * *"@.len() == 9);
    assert("* * * * *"@[0] == '*');
    assert("0 * * * *"@[0] == '0');
    assert("0 0 * * *"@[0] == '0');
    assert("0 0 * * 0"@[0] == '0');
    assert("0 0 1 * *"@[0] == '0');
    assert("0 * * * *"@[2] == '*');
    assert("0 0 * * *"@[2] == '0');
    assert("0 0 * * 0"@[2] == '0');
    assert("0 0 1 * *"@[2] == '0');
    assert("0 0 * * *"@[8] == '*');
    assert("0 0 * * 0"@[8] == '0');
    assert("0 0 * * *"@[4] == '*');
    assert("0 0 1 * *"@[4] == '1');
    assert("0 0 * * 0"@[4] == '*');
}

} // verus!
