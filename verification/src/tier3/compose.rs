//! Compose projects.
use crate::json::{
    field_of, get, get_field, json_document, parse_json, parse_yaml, yaml_document, Json, Tree,
};
use crate::models::{ComposeProject, ComposeProjectView};
use crate::providers::docker::{lacks_rights, RunOutcome, RunOutcomeView};
use crate::providers::logs::{append_since, docker_since_shell_argument, since_flag, since_word};
use crate::numbers::{decimal, format_unsigned};
use crate::paths::{
    file_name, file_name_of, joined_directories_are_read_back, joined_names_are_read_back, parent,
    parent_of,
};
use crate::sorting::{dedup_texts, deduped, repeats_are_left_out, sort_texts, sorted_texts};
use crate::ssh::{
    bounded, bounded_output, command_error, error_result, failure_text, is_permission_error,
    joined_path, quote_shell, quoted, ExecOutput,
};
use crate::text::{
    after_prefix, all_chars, chars_of, collect, copy, every_char, glue2, glue3, glue5, has_char,
    is_alphanumeric, is_space, is_text, lemma_lines_concat, lemma_views_push, lines_of, lines_str,
    lower, opt_view, parts, parts_of, same, same_ignoring_case, splits_read_back, string_of,
    strip_prefix, trim, trim_str, trimmed, trimming_takes_off_spaces, views,
};
use vstd::prelude::*;

verus! {

broadcast use vstd::string::group_string_axioms;

pub const COMPOSE_MODE_MARKER: &'static str = "__SERVERBOX_COMPOSE_MODE__";

pub const COMPOSE_PROJECT_MARKER: &'static str = "__SERVERBOX_COMPOSE_PROJECT__";

pub const COMPOSE_SERVICES_MARKER: &'static str = "__SERVERBOX_COMPOSE_SERVICES__";

pub const COMPOSE_CONFIG_MARKER: &'static str = "__SERVERBOX_COMPOSE_CONFIG__";

pub const COMPOSE_RUNNING_MARKER: &'static str = "__SERVERBOX_COMPOSE_RUNNING__";

/// The most output that is kept of a scan.
pub const COMPOSE_SCAN_OUTPUT_LIMIT: usize = 16777216;

/// How long a scan may be silent, in seconds: longer than the deadline that the scan sets
/// itself, so that a stalled one ends by that deadline.
pub const COMPOSE_SCAN_IDLE_TIMEOUT_SECONDS: u64 = 150;

/// Gathers the services, the configuration and the state of every project, each part
/// behind a marker.
pub const COMPOSE_SCAN_SCRIPT: &'static str = r#"runner=''; mode='none'
if command -v docker >/dev/null 2>&1 && docker compose version >/dev/null 2>&1; then runner='docker compose'; mode='services'; elif command -v docker-compose >/dev/null 2>&1; then runner='docker-compose'; mode='services'; elif command -v podman-compose >/dev/null 2>&1; then runner='podman-compose'; mode='states'; fi
printf '__SERVERBOX_COMPOSE_MODE__\t%s\n' "$mode"
[ -n "$runner" ] || exit 0
guard=''
command -v timeout >/dev/null 2>&1 && guard='timeout 15'
deadline=$(( $(date +%s 2>/dev/null || echo 0) + 120 ))
for root in "$HOME" /opt /srv /var/www; do [ -d "$root" ] && find "$root" -maxdepth 5 -type f \( -iname 'compose.yml' -o -iname 'compose.yaml' -o -iname 'docker-compose.yml' -o -iname 'docker-compose.yaml' -o -iname '*compose*.yml' -o -iname '*compose*.yaml' \) ! -iname '*override*.yml' ! -iname '*override*.yaml' 2>/dev/null; done | awk '!seen[$0]++' | head -100 | while IFS= read -r path; do
  now=$(date +%s 2>/dev/null || echo 0)
  [ "$now" -ge "$deadline" ] && break
  printf '\n__SERVERBOX_COMPOSE_PROJECT__\t%s\n' "$path"
  printf '\n__SERVERBOX_COMPOSE_SERVICES__\n'
  $guard $runner -f "$path" config --services 2>/dev/null || true
  printf '\n__SERVERBOX_COMPOSE_CONFIG__\n'
  $guard $runner -f "$path" config --format json 2>/dev/null || $guard $runner -f "$path" config 2>/dev/null || true
  printf '\n__SERVERBOX_COMPOSE_RUNNING__\n'
  if [ "$mode" = 'states' ]; then $guard $runner -f "$path" ps --format '{{.State}}' 2>/dev/null || true; else $guard $runner -f "$path" ps --services 2>/dev/null || true; fi
done
exit 0"#;

// ---------------------------------------------------------------------------
// The scan
// ---------------------------------------------------------------------------

/// What stands behind a marker and a tab.
pub open spec fn behind_marker(line: Seq<char>, marker: Seq<char>) -> Option<Seq<char>> {
    match strip_prefix(line, marker) {
        Some(rest) => strip_prefix(rest, "\t"@),
        None => None,
    }
}

fn marker_value(line: &[char], marker: &str) -> (res: Option<Vec<char>>)
    ensures
        opt_view(res) == behind_marker(line@, marker@),
{
    match after_prefix(line, marker) {
        Some(rest) => after_prefix(&rest, "\t"),
        None => None,
    }
}

/// How the running state of a project is printed.
#[derive(Clone, Copy, Debug, PartialEq, Eq, Structural)]
pub enum ScanMode {
    /// The names of the services that run.
    Services,
    /// The state of each service.
    States,
}

/// How the scan prints the running state; nothing where there is no Compose.
pub open spec fn mode_of(lines: Seq<Seq<char>>) -> Option<ScanMode> {
    if lines.len() == 0 {
        None
    } else {
        match behind_marker(lines[0], COMPOSE_MODE_MARKER@) {
            Some(mode) => if trim(mode) == "services"@ {
                Some(ScanMode::Services)
            } else if trim(mode) == "states"@ {
                Some(ScanMode::States)
            } else {
                None
            },
            None => None,
        }
    }
}

/// A part of a project's record.
#[derive(Clone, Copy, Debug, PartialEq, Eq, Structural)]
pub enum ComposeScanSection {
    Services,
    Config,
    Running,
}

/// What the scan printed of a project.
#[derive(Debug, PartialEq, Eq)]
pub struct ScanRecord {
    pub path: String,
    pub services: String,
    pub config: String,
    pub running: String,
}

#[verifier::ext_equal]
pub struct ScanRecordView {
    pub path: Seq<char>,
    pub services: Seq<char>,
    pub config: Seq<char>,
    pub running: Seq<char>,
}

impl View for ScanRecord {
    type V = ScanRecordView;

    open spec fn view(&self) -> ScanRecordView {
        ScanRecordView {
            path: self.path@,
            services: self.services@,
            config: self.config@,
            running: self.running@,
        }
    }
}

/// The records read so far, and the part that the next line belongs to.
#[verifier::ext_equal]
pub struct ScanState {
    pub records: Seq<ScanRecordView>,
    pub section: Option<ComposeScanSection>,
}

pub open spec fn line_below(text: Seq<char>, line: Seq<char>) -> Seq<char> {
    text + line + "\n"@
}

/// A record with one more line in the part that is open.
pub open spec fn with_line(record: ScanRecordView, section: ComposeScanSection, line: Seq<char>) -> ScanRecordView {
    match section {
        ComposeScanSection::Services => ScanRecordView {
            services: line_below(record.services, line),
            ..record
        },
        ComposeScanSection::Config => ScanRecordView {
            config: line_below(record.config, line),
            ..record
        },
        ComposeScanSection::Running => ScanRecordView {
            running: line_below(record.running, line),
            ..record
        },
    }
}

/// The state after one more line. A marker of a part counts only within a project.
pub open spec fn scan_step(state: ScanState, line: Seq<char>) -> ScanState {
    let begun = state.records.len() > 0;
    match behind_marker(line, COMPOSE_PROJECT_MARKER@) {
        Some(path) => ScanState {
            records: state.records.push(
                ScanRecordView {
                    path,
                    services: Seq::empty(),
                    config: Seq::empty(),
                    running: Seq::empty(),
                },
            ),
            section: None,
        },
        None => if line == COMPOSE_SERVICES_MARKER@ && begun {
            ScanState { section: Some(ComposeScanSection::Services), ..state }
        } else if line == COMPOSE_CONFIG_MARKER@ && begun {
            ScanState { section: Some(ComposeScanSection::Config), ..state }
        } else if line == COMPOSE_RUNNING_MARKER@ && begun {
            ScanState { section: Some(ComposeScanSection::Running), ..state }
        } else {
            match state.section {
                Some(section) => if begun {
                    ScanState {
                        records: state.records.drop_last().push(
                            with_line(state.records.last(), section, line),
                        ),
                        ..state
                    }
                } else {
                    state
                },
                None => state,
            }
        },
    }
}

pub open spec fn scan_after(lines: Seq<Seq<char>>) -> ScanState
    decreases lines.len(),
{
    if lines.len() == 0 {
        ScanState { records: Seq::empty(), section: None }
    } else {
        scan_step(scan_after(lines.drop_last()), lines.last())
    }
}

/// The trimmed lines that are not blank.
pub open spec fn filled_line(line: Seq<char>) -> Option<Seq<char>> {
    if trim(line).len() > 0 {
        Some(trim(line))
    } else {
        None
    }
}

pub open spec fn filled_lines(text: Seq<char>) -> Seq<Seq<char>> {
    lines_of(text).filter_map(|line: Seq<char>| filled_line(line))
}

pub open spec fn says_running() -> spec_fn(Seq<char>) -> bool {
    |line: Seq<char>| lower(line) == lower("running"@)
}

/// How many services of a project run.
pub open spec fn running_count(text: Seq<char>, mode: ScanMode) -> nat {
    match mode {
        ScanMode::Services => filled_lines(text).len(),
        ScanMode::States => filled_lines(text).filter(says_running()).len(),
    }
}

/// The name of a project: that of the directory its file lies in.
pub open spec fn project_name(path: Seq<char>) -> Seq<char> {
    match parent_of(path) {
        Some(dir) => match file_name_of(dir) {
            Some(name) => name,
            None => "compose"@,
        },
        None => "compose"@,
    }
}

/// The project of a record; one without services is left out.
pub open spec fn project_of(record: ScanRecordView, mode: ScanMode) -> Option<ComposeProjectView> {
    if filled_lines(record.services).len() == 0 {
        None
    } else {
        Some(
            ComposeProjectView {
                name: project_name(record.path),
                path: record.path,
                services: filled_lines(record.services),
                running: running_count(record.running, mode) as usize,
                topology: topology_of(config_of(record.config)),
                environment: environment_of(config_of(record.config)),
            },
        )
    }
}

/// The projects that a scan found.
pub open spec fn projects_of(text: Seq<char>) -> Seq<ComposeProjectView> {
    let lines = lines_of(text);
    match mode_of(lines) {
        Some(mode) => scan_after(lines.skip(1)).records.filter_map(
            |record: ScanRecordView| project_of(record, mode),
        ),
        None => Seq::empty(),
    }
}

// ---------------------------------------------------------------------------
// Configurations
// ---------------------------------------------------------------------------

/// The document of a configuration, in JSON or in YAML.
pub open spec fn config_of(text: Seq<char>) -> Option<Tree> {
    match json_document(text) {
        Some(tree) => Some(tree),
        None => yaml_document(text),
    }
}

/// The names and the contents of the services of a configuration.
pub open spec fn services_in(config: Option<Tree>) -> Seq<(Seq<char>, Tree)> {
    match config {
        Some(tree) => match get(tree, "services"@) {
            Some(Tree::Object(fields)) => fields,
            _ => Seq::empty(),
        },
        None => Seq::empty(),
    }
}

pub open spec fn keys_of(fields: Seq<(Seq<char>, Tree)>) -> Seq<Seq<char>> {
    fields.map_values(|field: (Seq<char>, Tree)| field.0)
}

pub open spec fn text_in(tree: Tree) -> Option<Seq<char>> {
    match tree {
        Tree::Text(text) => Some(text),
        _ => None,
    }
}

/// The keys of an object, or the texts of a list.
pub open spec fn entries_of(tree: Option<Tree>) -> Seq<Seq<char>> {
    match tree {
        Some(Tree::Object(fields)) => keys_of(fields),
        Some(Tree::List(items)) => items.filter_map(|item: Tree| text_in(item)),
        _ => Seq::empty(),
    }
}

/// The names of the variables: of an object its keys, of a list what stands before the
/// first `=` of each text.
pub open spec fn variables_of(tree: Option<Tree>) -> Seq<Seq<char>> {
    match tree {
        Some(Tree::List(_)) => entries_of(tree).map_values(
            |entry: Seq<char>| parts_of(entry, '=')[0],
        ),
        _ => entries_of(tree),
    }
}

/// Each text behind a name and a sign.
pub open spec fn labelled_all(name: Seq<char>, sign: Seq<char>, items: Seq<Seq<char>>) -> Seq<
    Seq<char>,
> {
    items.map_values(|item: Seq<char>| name + sign + item)
}

/// What each service depends on.
pub open spec fn dependencies(services: Seq<(Seq<char>, Tree)>) -> Seq<Seq<char>>
    decreases services.len(),
{
    if services.len() == 0 {
        Seq::empty()
    } else {
        dependencies(services.drop_last()) + labelled_all(
            services.last().0,
            " → "@,
            entries_of(get(services.last().1, "depends_on"@)),
        )
    }
}

/// The variables of each service.
pub open spec fn variables(services: Seq<(Seq<char>, Tree)>) -> Seq<Seq<char>>
    decreases services.len(),
{
    if services.len() == 0 {
        Seq::empty()
    } else {
        variables(services.drop_last()) + labelled_all(
            services.last().0,
            ": "@,
            variables_of(get(services.last().1, "environment"@)),
        )
    }
}

/// What depends on what, in order and each once.
pub open spec fn topology_of(config: Option<Tree>) -> Seq<Seq<char>> {
    deduped(sorted_texts(dependencies(services_in(config))))
}

/// Which variables are set, in order and each once. Their values are not shown.
pub open spec fn environment_of(config: Option<Tree>) -> Seq<Seq<char>> {
    deduped(sorted_texts(variables(services_in(config))))
}

fn read_entries(json: Option<&Json>) -> (res: Vec<String>)
    ensures
        views(res@) == entries_of(
            match json {
                Some(item) => Some(item@),
                None => None,
            },
        ),
{
    let mut out: Vec<String> = Vec::new();
    assert(views(out@) =~= Seq::empty());
    match json {
        Some(Json::Object(fields)) => {
            proof {
                crate::json::lemma_fields(fields@);
            }
            let ghost keys = keys_of(crate::json::fields_of(fields@));
            let mut i: usize = 0;
            while i < fields.len()
                invariant
                    i <= fields@.len(),
                    keys.len() == fields@.len(),
                    forall|k: int| 0 <= k < fields@.len() ==> #[trigger] keys[k] == fields@[k].0@,
                    views(out@) == keys.take(i as int),
                decreases fields@.len() - i,
            {
                broadcast use lemma_views_push;

                out.push(fields[i].0.clone());
                assert(keys.take(i + 1) =~= keys.take(i as int).push(keys[i as int]));
                i += 1;
            }
            assert(keys.take(fields@.len() as int) =~= keys);
        },
        Some(Json::List(items)) => {
            proof {
                crate::json::lemma_trees(items@);
            }
            let ghost trees = crate::json::trees_of(items@);
            let ghost pick = |item: Tree| text_in(item);
            let mut i: usize = 0;
            assert(trees.take(0) =~= Seq::empty());
            assert(views(out@) =~= trees.take(0).filter_map(pick));
            while i < items.len()
                invariant
                    i <= items@.len(),
                    trees.len() == items@.len(),
                    pick == (|item: Tree| text_in(item)),
                    forall|k: int| 0 <= k < items@.len() ==> #[trigger] trees[k] == items@[k]@,
                    views(out@) == trees.take(i as int).filter_map(pick),
                decreases items@.len() - i,
            {
                broadcast use lemma_views_push;

                let ghost before = views(out@);
                assert(trees.take(i + 1).drop_last() =~= trees.take(i as int));
                assert(trees.take(i + 1).last() == trees[i as int]);
                match &items[i] {
                    Json::Text(text) => {
                        out.push(text.clone());
                        assert(before + seq![text@] =~= before.push(text@));
                    },
                    _ => {},
                }
                i += 1;
            }
            assert(trees.take(items@.len() as int) =~= trees);
        },
        _ => {},
    }
    out
}

fn label_all(name: &str, sign: &str, items: &[String], out: &mut Vec<String>)
    ensures
        views(final(out)@) == views(old(out)@) + labelled_all(name@, sign@, views(items@)),
{
    let ghost before = views(out@);
    let ghost all = labelled_all(name@, sign@, views(items@));
    let mut i: usize = 0;
    assert(before + all.take(0) =~= before);
    while i < items.len()
        invariant
            i <= items@.len(),
            all == labelled_all(name@, sign@, views(items@)),
            views(out@) == before + all.take(i as int),
        decreases items@.len() - i,
    {
        broadcast use lemma_views_push;

        out.push(glue3(name, sign, items[i].as_str()));
        assert(all[i as int] == name@ + sign@ + items@[i as int]@);
        assert(before + all.take(i + 1) =~= (before + all.take(i as int)).push(all[i as int]));
        i += 1;
    }
    assert(all.take(items@.len() as int) =~= all);
}

fn read_variables(json: Option<&Json>) -> (res: Vec<String>)
    ensures
        views(res@) == variables_of(
            match json {
                Some(item) => Some(item@),
                None => None,
            },
        ),
{
    let entries = read_entries(json);
    match json {
        Some(Json::List(_)) => {
            let ghost names = views(entries@).map_values(
                |entry: Seq<char>| parts_of(entry, '=')[0],
            );
            let mut out: Vec<String> = Vec::new();
            let mut i: usize = 0;
            assert(views(out@) =~= names.take(0));
            while i < entries.len()
                invariant
                    i <= entries@.len(),
                    names == views(entries@).map_values(
                        |entry: Seq<char>| parts_of(entry, '=')[0],
                    ),
                    views(out@) == names.take(i as int),
                decreases entries@.len() - i,
            {
                broadcast use lemma_views_push;

                let halves = parts(&chars_of(entries[i].as_str()), '=');
                assert(views(halves@)[0] == halves@[0]@);
                out.push(string_of(halves[0].as_slice()));
                assert(names[i as int] == parts_of(entries@[i as int]@, '=')[0]);
                assert(names.take(i + 1) =~= names.take(i as int).push(names[i as int]));
                i += 1;
            }
            assert(names.take(entries@.len() as int) =~= names);
            out
        },
        _ => entries,
    }
}

/// What depends on what in a configuration, and which variables it sets.
pub fn metadata_of(config: &Option<Json>) -> (res: (Vec<String>, Vec<String>))
    ensures
        views(res.0@) == topology_of(opt_view(*config)),
        views(res.1@) == environment_of(opt_view(*config)),
{
    let mut topology: Vec<String> = Vec::new();
    let mut environment: Vec<String> = Vec::new();
    assert(views(topology@) =~= Seq::empty());
    assert(views(environment@) =~= Seq::empty());
    let services: Option<&Json> = match config {
        Some(json) => get_field(json, "services"),
        None => None,
    };
    match services {
        Some(Json::Object(fields)) => {
            proof {
                crate::json::lemma_fields(fields@);
            }
            let ghost all = crate::json::fields_of(fields@);
            let mut i: usize = 0;
            assert(all.take(0) =~= Seq::empty());
            while i < fields.len()
                invariant
                    i <= fields@.len(),
                    all.len() == fields@.len(),
                    forall|k: int|
                        0 <= k < fields@.len() ==> #[trigger] all[k] == (
                            fields@[k].0@,
                            fields@[k].1@,
                        ),
                    views(topology@) == dependencies(all.take(i as int)),
                    views(environment@) == variables(all.take(i as int)),
                decreases fields@.len() - i,
            {
                assert(all.take(i + 1).drop_last() =~= all.take(i as int));
                assert(all.take(i + 1).last() == all[i as int]);
                let service: &Json = &fields[i].1;
                let name = fields[i].0.as_str();
                label_all(
                    name,
                    " → ",
                    read_entries(get_field(service, "depends_on")).as_slice(),
                    &mut topology,
                );
                label_all(
                    name,
                    ": ",
                    read_variables(get_field(service, "environment")).as_slice(),
                    &mut environment,
                );
                i += 1;
            }
            assert(all.take(fields@.len() as int) =~= all);
        },
        _ => {},
    }
    (dedup_texts(sort_texts(topology)), dedup_texts(sort_texts(environment)))
}

/// What depends on what in the text of a configuration, and which variables it sets.
pub fn compose_metadata(text: &str) -> (res: (Vec<String>, Vec<String>))
    ensures
        views(res.0@) == topology_of(config_of(text@)),
        views(res.1@) == environment_of(config_of(text@)),
{
    let config = match parse_json(text) {
        Some(json) => Some(json),
        None => parse_yaml(text),
    };
    metadata_of(&config)
}

// ---------------------------------------------------------------------------
// Reading the scan
// ---------------------------------------------------------------------------

fn read_filled(line: &[char]) -> (res: Option<String>)
    ensures
        opt_view(res) == filled_line(line@),
{
    let text = trimmed(line);
    if text.len() > 0 {
        Some(string_of(&text))
    } else {
        None
    }
}

fn read_filled_lines(text: &str) -> (res: Vec<String>)
    ensures
        views(res@) == filled_lines(text@),
{
    collect(&lines_str(text), read_filled, Ghost(|line: Seq<char>| filled_line(line)))
}

fn count_running(text: &str, mode: ScanMode) -> (res: usize)
    ensures
        res == running_count(text@, mode),
{
    let lines = read_filled_lines(text);
    match mode {
        ScanMode::Services => {
            assert(views(lines@).len() == lines@.len());
            lines.len()
        },
        ScanMode::States => {
            let ghost all = views(lines@);
            let mut n: usize = 0;
            let mut i: usize = 0;
            assert(all.take(0).filter(says_running()).len() == 0) by {
                reveal(Seq::filter);
            }
            while i < lines.len()
                invariant
                    i <= lines@.len(),
                    n <= i,
                    all == views(lines@),
                    n == all.take(i as int).filter(says_running()).len(),
                decreases lines@.len() - i,
            {
                proof {
                    reveal(Seq::filter);
                    assert(all.take(i + 1).drop_last() =~= all.take(i as int));
                    assert(all.take(i + 1).last() == lines@[i as int]@);
                }
                if same_ignoring_case(&chars_of(lines[i].as_str()), "running") {
                    n += 1;
                }
                i += 1;
            }
            assert(all.take(lines@.len() as int) =~= all);
            n
        },
    }
}

fn read_project_name(path: &str) -> (res: String)
    ensures
        res@ == project_name(path@),
{
    match parent(path) {
        Some(dir) => match file_name(dir.as_str()) {
            Some(name) => name,
            None => copy("compose"),
        },
        None => copy("compose"),
    }
}

fn append_line(text: &mut String, line: &[char])
    ensures
        final(text)@ == line_below(old(text)@, line@),
{
    text.append(string_of(line).as_str());
    text.append("\n");
}

fn step_scan(
    records: &mut Vec<ScanRecord>,
    section: Option<ComposeScanSection>,
    line: &[char],
) -> (res: Option<ComposeScanSection>)
    ensures
        (ScanState { records: views(final(records)@), section: res }) == scan_step(
            ScanState { records: views(old(records)@), section },
            line@,
        ),
{
    let ghost before = records@;
    match marker_value(line, COMPOSE_PROJECT_MARKER) {
        Some(path) => {
            broadcast use lemma_views_push;

            records.push(
                ScanRecord {
                    path: string_of(&path),
                    services: String::new(),
                    config: String::new(),
                    running: String::new(),
                },
            );
            None
        },
        None => {
            if records.len() == 0 {
                return section;
            }
            if is_text(line, COMPOSE_SERVICES_MARKER) {
                return Some(ComposeScanSection::Services);
            }
            if is_text(line, COMPOSE_CONFIG_MARKER) {
                return Some(ComposeScanSection::Config);
            }
            if is_text(line, COMPOSE_RUNNING_MARKER) {
                return Some(ComposeScanSection::Running);
            }
            match section {
                Some(part) => {
                    let n: usize = records.len();
                    let mut record = records.remove(n - 1);
                    assert(record == before[n - 1]);
                    assert(views(records@) =~= views(before).drop_last());
                    match part {
                        ComposeScanSection::Services => {
                            append_line(&mut record.services, line);
                        },
                        ComposeScanSection::Config => {
                            append_line(&mut record.config, line);
                        },
                        ComposeScanSection::Running => {
                            append_line(&mut record.running, line);
                        },
                    }
                    assert(record@ =~= with_line(views(before).last(), part, line@));
                    let ghost seen = record@;
                    records.push(record);
                    assert(views(records@) =~= views(before).drop_last().push(seen));
                },
                None => {},
            }
            section
        },
    }
}

fn read_records(lines: &[Vec<char>]) -> (res: Vec<ScanRecord>)
    ensures
        views(res@) == scan_after(views(lines@)).records,
{
    let ghost all = views(lines@);
    let mut records: Vec<ScanRecord> = Vec::new();
    let mut section: Option<ComposeScanSection> = None;
    let mut i: usize = 0;
    assert(all.take(0) =~= Seq::empty());
    assert(views(records@) =~= Seq::empty());
    while i < lines.len()
        invariant
            i <= lines@.len(),
            all == views(lines@),
            (ScanState { records: views(records@), section }) == scan_after(all.take(i as int)),
        decreases lines@.len() - i,
    {
        assert(all.take(i + 1).drop_last() =~= all.take(i as int));
        assert(all.take(i + 1).last() == lines@[i as int]@);
        section = step_scan(&mut records, section, lines[i].as_slice());
        i += 1;
    }
    assert(all.take(lines@.len() as int) =~= all);
    records
}

fn read_project(record: &ScanRecord, mode: ScanMode) -> (res: Option<ComposeProject>)
    ensures
        opt_view(res) == project_of(record@, mode),
{
    let services = read_filled_lines(record.services.as_str());
    assert(views(services@).len() == services@.len());
    if services.len() == 0 {
        return None;
    }
    let (topology, environment) = compose_metadata(record.config.as_str());
    Some(
        ComposeProject {
            name: read_project_name(record.path.as_str()),
            path: record.path.clone(),
            services,
            running: count_running(record.running.as_str(), mode),
            topology,
            environment,
        },
    )
}

fn read_mode(lines: &Vec<Vec<char>>) -> (res: Option<ScanMode>)
    ensures
        res == mode_of(views(lines@)),
{
    if lines.len() == 0 {
        return None;
    }
    assert(views(lines@)[0] == lines@[0]@);
    match marker_value(lines[0].as_slice(), COMPOSE_MODE_MARKER) {
        Some(mode) => {
            let mode = trimmed(&mode);
            if is_text(&mode, "services") {
                Some(ScanMode::Services)
            } else if is_text(&mode, "states") {
                Some(ScanMode::States)
            } else {
                None
            }
        },
        None => None,
    }
}

/// The projects that a scan found.
pub fn parse_compose_scan(text: &str) -> (res: Vec<ComposeProject>)
    ensures
        views(res@) == projects_of(text@),
{
    let lines = lines_str(text);
    let mut projects: Vec<ComposeProject> = Vec::new();
    assert(views(projects@) =~= Seq::empty());
    let mode = match read_mode(&lines) {
        Some(mode) => mode,
        None => {
            return projects;
        },
    };
    let rest = vstd::slice::slice_subrange(lines.as_slice(), 1, lines.len());
    assert(views(rest@) =~= lines_of(text@).skip(1));
    let records = read_records(rest);
    let ghost all = views(records@);
    let ghost pick = |record: ScanRecordView| project_of(record, mode);
    let mut i: usize = 0;
    assert(all.take(0) =~= Seq::empty());
    assert(views(projects@) =~= all.take(0).filter_map(pick));
    while i < records.len()
        invariant
            i <= records@.len(),
            all == views(records@),
            pick == (|record: ScanRecordView| project_of(record, mode)),
            views(projects@) == all.take(i as int).filter_map(pick),
        decreases records@.len() - i,
    {
        broadcast use lemma_views_push;

        let ghost before = views(projects@);
        assert(all.take(i + 1).drop_last() =~= all.take(i as int));
        assert(all.take(i + 1).last() == records@[i as int]@);
        match read_project(&records[i], mode) {
            Some(project) => {
                projects.push(project);
                assert(before + seq![project@] =~= before.push(project@));
            },
            None => {},
        }
        i += 1;
    }
    assert(all.take(records@.len() as int) =~= all);
    projects
}

// ---------------------------------------------------------------------------
// Commands
// ---------------------------------------------------------------------------

/// Runs Compose, by whichever tool the server has.
pub open spec fn compose_text(path: Seq<char>, arguments: Seq<char>) -> Seq<char> {
    let run = quoted(path) + " "@ + arguments;
    "if command -v docker >/dev/null 2>&1 && docker compose version >/dev/null 2>&1; then docker compose -f "@
        + run
        + "; elif command -v docker-compose >/dev/null 2>&1; then docker-compose -f "@
        + run
        + "; elif command -v podman-compose >/dev/null 2>&1; then podman-compose -f "@
        + run + "; else echo 'Docker Compose is unavailable' >&2; exit 127; fi"@
}

pub fn compose_command(path: &str, arguments: &str) -> (res: String)
    ensures
        res@ == compose_text(path@, arguments@),
{
    let run = glue3(quote_shell(path).as_str(), " ", arguments);
    crate::text::glue7(
        "if command -v docker >/dev/null 2>&1 && docker compose version >/dev/null 2>&1; then docker compose -f ",
        run.as_str(),
        "; elif command -v docker-compose >/dev/null 2>&1; then docker-compose -f ",
        run.as_str(),
        "; elif command -v podman-compose >/dev/null 2>&1; then podman-compose -f ",
        run.as_str(),
        "; else echo 'Docker Compose is unavailable' >&2; exit 127; fi",
    )
}

pub open spec fn is_compose_action(action: Seq<char>) -> bool {
    action == "up"@ || action == "down"@ || action == "restart"@ || action == "pull"@ || action
        == "rebuild"@ || action == "logs"@ || action == "exec"@ || action == "scale"@
}

pub open spec fn service_char() -> spec_fn(char) -> bool {
    |c: char| is_alphanumeric(c) || c == '_' || c == '.' || c == '-'
}

pub open spec fn is_service_name(name: Seq<char>) -> bool {
    name.len() > 0 && every_char(name, service_char())
}

fn service_name(name: &str) -> (res: bool)
    ensures
        res == is_service_name(name@),
{
    let test = |c: char| -> (r: bool)
        ensures
            r == service_char()(c),
        { crate::text::alphanumeric(c) || c == '_' || c == '.' || c == '-' };
    let chars = chars_of(name);
    chars.len() > 0 && all_chars(&chars, test, Ghost(service_char()))
}

/// What speaks against an action before the server is asked.
pub open spec fn compose_verdict(path: Seq<char>, action: Seq<char>, service: Option<Seq<char>>) -> Result<
    (),
    Seq<char>,
> {
    if trim(path).len() == 0 || path.contains('\n') {
        Err("Choose a valid Compose file"@)
    } else if !is_compose_action(action) {
        Err("Unsupported Compose action"@)
    } else {
        match service {
            Some(name) => if is_service_name(name) {
                Ok(())
            } else {
                Err("Invalid service name"@)
            },
            None => Ok(()),
        }
    }
}

pub fn check_compose_action(path: &str, action: &str, service: &Option<String>) -> (res: Result<
    (),
    String,
>)
    ensures
        error_result(res) == compose_verdict(path@, action@, opt_view(*service)),
{
    if trim_str(path).as_str().is_empty() || has_char(&chars_of(path), '\n') {
        return Err(copy("Choose a valid Compose file"));
    }
    if !(same(action, "up") || same(action, "down") || same(action, "restart") || same(
        action,
        "pull",
    ) || same(action, "rebuild") || same(action, "logs") || same(action, "exec") || same(
        action,
        "scale",
    )) {
        return Err(copy("Unsupported Compose action"));
    }
    match service {
        Some(name) => if service_name(name.as_str()) {
            Ok(())
        } else {
            Err(copy("Invalid service name"))
        },
        None => Ok(()),
    }
}

/// What an action runs: Compose with these arguments, or a command in a service whose
/// shell is still to be found.
#[derive(Debug, PartialEq, Eq)]
pub enum ComposePlan {
    Run(String),
    Exec { service: String, command: String },
}

#[verifier::ext_equal]
pub enum ComposePlanView {
    Run(Seq<char>),
    Exec { service: Seq<char>, command: Seq<char> },
}

impl View for ComposePlan {
    type V = ComposePlanView;

    open spec fn view(&self) -> ComposePlanView {
        match *self {
            ComposePlan::Run(arguments) => ComposePlanView::Run(arguments@),
            ComposePlan::Exec { service, command } => ComposePlanView::Exec {
                service: service@,
                command: command@,
            },
        }
    }
}

pub open spec fn compose_result(res: Result<ComposePlan, String>) -> Result<
    ComposePlanView,
    Seq<char>,
> {
    match res {
        Ok(plan) => Ok(plan@),
        Err(error) => Err(error@),
    }
}

pub open spec fn quoted_or_empty(value: Option<Seq<char>>) -> Seq<char> {
    match value {
        Some(text) => quoted(text),
        None => Seq::empty(),
    }
}

fn quote_or_empty(value: &Option<String>) -> (res: String)
    ensures
        res@ == quoted_or_empty(opt_view(*value)),
{
    match value {
        Some(text) => quote_shell(text.as_str()),
        None => String::new(),
    }
}

/// How many lines of logs are shown.
pub open spec fn shown_lines(lines: Option<u32>) -> u32 {
    match lines {
        None => 300,
        Some(n) => if n < 1 {
            1
        } else if n > 5000 {
            5000
        } else {
            n
        },
    }
}

/// What an action runs.
pub open spec fn compose_plan(
    action: Seq<char>,
    service: Option<Seq<char>>,
    command: Option<Seq<char>>,
    lines: Option<u32>,
    since: Option<Seq<char>>,
) -> Result<ComposePlanView, Seq<char>> {
    if action == "up"@ {
        Ok(ComposePlanView::Run("up -d"@))
    } else if action == "down"@ {
        Ok(ComposePlanView::Run("down"@))
    } else if action == "restart"@ {
        Ok(ComposePlanView::Run("restart "@ + quoted_or_empty(service)))
    } else if action == "pull"@ {
        Ok(ComposePlanView::Run("pull"@))
    } else if action == "rebuild"@ {
        Ok(ComposePlanView::Run("up -d --build"@))
    } else if action == "logs"@ {
        match since_word(since) {
            Err(error) => Err(error),
            Ok(word) => Ok(
                ComposePlanView::Run(
                    "logs --tail "@ + decimal(shown_lines(lines) as nat) + since_flag(word) + " "@
                        + quoted_or_empty(service),
                ),
            ),
        }
    } else if action == "exec"@ {
        match service {
            None => Err("Choose a Compose service"@),
            Some(service) => match command {
                Some(command) => if trim(command).len() > 0 {
                    Ok(ComposePlanView::Exec { service, command })
                } else {
                    Err("Enter a command"@)
                },
                None => Err("Enter a command"@),
            },
        }
    } else if action == "scale"@ {
        match command {
            Some(command) => if command.contains('=') {
                Ok(ComposePlanView::Run("up -d --scale "@ + quoted(command)))
            } else {
                Err("Enter scale as service=count"@)
            },
            None => Err("Enter scale as service=count"@),
        }
    } else {
        Err("Unsupported Compose action"@)
    }
}

/// What an action runs.
pub fn compose_action(
    action: &str,
    service: &Option<String>,
    command: &Option<String>,
    lines: Option<u32>,
    since: &Option<String>,
) -> (res: Result<ComposePlan, String>)
    ensures
        compose_result(res) == compose_plan(
            action@,
            opt_view(*service),
            opt_view(*command),
            lines,
            opt_view(*since),
        ),
{
    if same(action, "up") {
        return Ok(ComposePlan::Run(copy("up -d")));
    }
    if same(action, "down") {
        return Ok(ComposePlan::Run(copy("down")));
    }
    if same(action, "restart") {
        return Ok(ComposePlan::Run(glue2("restart ", quote_or_empty(service).as_str())));
    }
    if same(action, "pull") {
        return Ok(ComposePlan::Run(copy("pull")));
    }
    if same(action, "rebuild") {
        return Ok(ComposePlan::Run(copy("up -d --build")));
    }
    if same(action, "logs") {
        let word = match docker_since_shell_argument(since) {
            Err(error) => {
                return Err(error);
            },
            Ok(word) => word,
        };
        let count: u32 = match lines {
            None => 300,
            Some(n) => if n < 1 {
                1
            } else if n > 5000 {
                5000
            } else {
                n
            },
        };
        let mut out = glue2("logs --tail ", format_unsigned(count as u64).as_str());
        append_since(&mut out, &word);
        out.append(" ");
        out.append(quote_or_empty(service).as_str());
        return Ok(ComposePlan::Run(out));
    }
    if same(action, "exec") {
        return match service {
            None => Err(copy("Choose a Compose service")),
            Some(service) => match command {
                Some(command) => if trim_str(command.as_str()).as_str().is_empty() {
                    Err(copy("Enter a command"))
                } else {
                    Ok(ComposePlan::Exec { service: service.clone(), command: command.clone() })
                },
                None => Err(copy("Enter a command")),
            },
        };
    }
    if same(action, "scale") {
        return match command {
            Some(command) => if has_char(&chars_of(command.as_str()), '=') {
                Ok(
                    ComposePlan::Run(
                        glue2("up -d --scale ", quote_shell(command.as_str()).as_str()),
                    ),
                )
            } else {
                Err(copy("Enter scale as service=count"))
            },
            None => Err(copy("Enter scale as service=count")),
        };
    }
    Err(copy("Unsupported Compose action"))
}

/// The arguments that run a command in a service.
pub open spec fn exec_arguments(service: Seq<char>, shell: Seq<char>, command: Seq<char>) -> Seq<
    char,
> {
    "exec -T "@ + quoted(service) + " "@ + quoted(shell) + " -c "@ + quoted(command)
}

pub fn compose_exec_arguments(service: &str, shell: &str, command: &str) -> (res: String)
    ensures
        res@ == exec_arguments(service@, shell@, command@),
{
    let mut out = glue5(
        "exec -T ",
        quote_shell(service).as_str(),
        " ",
        quote_shell(shell).as_str(),
        " -c ",
    );
    out.append(quote_shell(command).as_str());
    out
}

/// Asks for the containers of a service.
pub open spec fn service_probe_text(path: Seq<char>, service: Seq<char>) -> Seq<char> {
    compose_text(path, "ps -q "@ + quoted(service))
}

/// Tells whether a service runs.
pub fn service_probe(path: &str, service: &str) -> (res: String)
    ensures
        res@ == service_probe_text(path@, service@),
{
    compose_command(path, glue2("ps -q ", quote_shell(service).as_str()).as_str())
}

/// Whether a service runs, by the containers that were printed of it.
pub open spec fn running_verdict(service: Seq<char>, printed: Seq<char>) -> Result<(), Seq<char>> {
    if trim(printed).len() == 0 {
        Err("Start "@ + service + " before running a command."@)
    } else {
        Ok(())
    }
}

/// Accepts a service of which the probe printed a container.
pub fn ensure_compose_service_running(service: &str, printed: &str) -> (res: Result<(), String>)
    ensures
        error_result(res) == running_verdict(service@, printed@),
{
    if trim_str(printed).as_str().is_empty() {
        Err(glue3("Start ", service, " before running a command."))
    } else {
        Ok(())
    }
}

/// What an action comes to. Logs are bounded; of the others both streams are shown.
pub open spec fn action_result(action: Seq<char>, output: ExecOutput) -> RunOutcomeView {
    if output.exit_code == 0 {
        if action == "logs"@ {
            RunOutcomeView::Done(bounded(output.stdout@))
        } else {
            RunOutcomeView::Done(output.stdout@ + output.stderr@)
        }
    } else if lacks_rights(output) {
        RunOutcomeView::NeedsRoot
    } else {
        RunOutcomeView::Failed(failure_text(output))
    }
}

pub fn compose_outcome(action: &str, output: ExecOutput) -> (res: RunOutcome)
    ensures
        res@ == action_result(action@, output),
{
    if output.exit_code == 0 {
        if same(action, "logs") {
            RunOutcome::Done(bounded_output(output.stdout))
        } else {
            RunOutcome::Done(glue2(output.stdout.as_str(), output.stderr.as_str()))
        }
    } else if is_permission_error(&output) {
        RunOutcome::NeedsRoot
    } else {
        RunOutcome::Failed(command_error(&output))
    }
}

// ---------------------------------------------------------------------------
// Laws
// ---------------------------------------------------------------------------

proof fn lemma_scan_concat(first: Seq<Seq<char>>, second: Seq<Seq<char>>)
    requires
        second.len() > 0,
        behind_marker(second[0], COMPOSE_PROJECT_MARKER@) is Some,
    ensures
        scan_after(first + second) == (ScanState {
            records: scan_after(first).records + scan_after(second).records,
            section: scan_after(second).section,
        }),
        scan_after(second).records.len() > 0,
    decreases second.len(),
{
    let before = second.drop_last();
    let all = first + second;
    assert(all.drop_last() =~= first + before);
    assert(all.last() == second.last());
    let start = scan_after(first).records;
    if before.len() == 0 {
        assert(all.drop_last() =~= first);
        assert(scan_after(before).records =~= Seq::empty());
        assert(second.last() == second[0]);
        assert(scan_after(all).records =~= start + scan_after(second).records);
    } else {
        assert(before[0] == second[0]);
        lemma_scan_concat(first, before);
        let part = scan_after(before).records;
        assert((start + part).drop_last() =~= start + part.drop_last());
        assert((start + part).last() == part.last());
        assert(scan_after(all).records =~= start + scan_after(second).records);
    }
}

proof fn lemma_filter_map_concat<A, B>(a: Seq<A>, b: Seq<A>, f: spec_fn(A) -> Option<B>)
    ensures
        (a + b).filter_map(f) == a.filter_map(f) + b.filter_map(f),
    decreases b.len(),
{
    if b.len() == 0 {
        assert(a + b =~= a);
        assert(b.filter_map(f) =~= Seq::empty());
        assert(a.filter_map(f) + b.filter_map(f) =~= a.filter_map(f));
    } else {
        let before = b.drop_last();
        assert((a + b).drop_last() =~= a + before);
        assert((a + b).last() == b.last());
        lemma_filter_map_concat(a, before, f);
        assert((a + b).filter_map(f) =~= a.filter_map(f) + b.filter_map(f));
    }
}

/// Projects are reported independently, in the order in which they were printed: a scan of
/// two blocks of projects is the scan of the first with that of the second behind it. The
/// first block is whole lines, and the second begins with a project.
pub proof fn blocks_are_read_apart(head: Seq<char>, a: Seq<char>, b: Seq<char>)
    requires
        !head.contains('\n'),
        a.len() > 0 ==> a.last() == '\n',
        b.len() > 0 ==> behind_marker(lines_of(b)[0], COMPOSE_PROJECT_MARKER@) is Some,
    ensures
        projects_of(head + "\n"@ + a + b) == projects_of(head + "\n"@ + a) + projects_of(
            head + "\n"@ + b,
        ),
{
    reveal_strlit("\n");
    let h = head + "\n"@;
    let newline = crate::text::is_char('\n');
    assert forall|j: int| 0 <= j < head.len() implies !newline(#[trigger] h[j]) by {
        assert(h[j] == head[j]);
        assert(head.contains(head[j]));
    }
    crate::text::lemma_first_where(h, newline, head.len() as int);
    assert(h.skip(head.len() as int + 1) =~= Seq::empty());
    assert(lines_of(Seq::<char>::empty()) =~= Seq::empty());
    let top = lines_of(h);
    assert(top.len() == 1);
    lemma_lines_concat(h, a);
    lemma_lines_concat(h, b);
    assert((h + a).last() == '\n');
    lemma_lines_concat(h + a, b);
    let first = lines_of(a);
    let second = lines_of(b);
    assert((top + first).skip(1) =~= first);
    assert((top + second).skip(1) =~= second);
    assert((top + first + second).skip(1) =~= first + second);
    if let Some(mode) = mode_of(top) {
        let pick = |record: ScanRecordView| project_of(record, mode);
        assert(mode_of(top + first) == Some(mode));
        assert(mode_of(top + second) == Some(mode));
        assert(mode_of(top + first + second) == Some(mode));
        if b.len() == 0 {
            assert(first + second =~= first);
            assert(scan_after(second).records.filter_map(pick) =~= Seq::empty());
            assert(projects_of(h + a + b) =~= projects_of(h + a) + projects_of(h + b));
        } else {
            assert(second.len() > 0);
            lemma_scan_concat(first, second);
            lemma_filter_map_concat(
                scan_after(first).records,
                scan_after(second).records,
                pick,
            );
        }
    } else {
        assert(projects_of(h + a + b) =~= projects_of(h + a) + projects_of(h + b));
    }
}

/// What is listed of a list of settings ends before the first `=`.
proof fn lemma_first_part(entry: Seq<char>)
    ensures
        !parts_of(entry, '=')[0].contains('='),
        parts_of(parts_of(entry, '=')[0], '=')[0] == parts_of(entry, '=')[0],
{
    let sign = crate::text::is_char('=');
    crate::text::lemma_first_where_found(entry, sign);
    let k = crate::text::first_where(entry, sign);
    let name = parts_of(entry, '=')[0];
    if k < entry.len() {
        assert(name == entry.take(k));
    } else {
        assert(name == entry);
    }
    assert forall|i: int| 0 <= i < name.len() implies name[i] != '=' by {
        assert(name[i] == entry[i]);
    }
    crate::text::lemma_first_where_found(name, sign);
}

/// An entry of a list of settings without its value.
pub open spec fn bare_entry(item: Tree) -> Tree {
    match item {
        Tree::Text(text) => Tree::Text(parts_of(text, '=')[0]),
        _ => item,
    }
}

/// Settings without their values: the names alone.
pub open spec fn bare_settings(tree: Tree) -> Tree {
    match tree {
        Tree::Object(fields) => Tree::Object(
            fields.map_values(|field: (Seq<char>, Tree)| (field.0, Tree::Null)),
        ),
        Tree::List(items) => Tree::List(items.map_values(|item: Tree| bare_entry(item))),
        _ => tree,
    }
}

/// A field of a service, where it is the settings without their values.
pub open spec fn bare_field(field: (Seq<char>, Tree)) -> (Seq<char>, Tree) {
    if field.0 == "environment"@ {
        (field.0, bare_settings(field.1))
    } else {
        field
    }
}

/// A service without the values of its settings.
pub open spec fn bare_service(service: (Seq<char>, Tree)) -> (Seq<char>, Tree) {
    match service.1 {
        Tree::Object(fields) => (
            service.0,
            Tree::Object(fields.map_values(|field: (Seq<char>, Tree)| bare_field(field))),
        ),
        _ => service,
    }
}

/// The fields of a configuration, the services without the values of their settings.
pub open spec fn bare_services(field: (Seq<char>, Tree)) -> (Seq<char>, Tree) {
    match field.1 {
        Tree::Object(fields) => if field.0 == "services"@ {
            (
                field.0,
                Tree::Object(
                    fields.map_values(|service: (Seq<char>, Tree)| bare_service(service)),
                ),
            )
        } else {
            field
        },
        _ => field,
    }
}

/// A configuration without the values of its environment variables.
pub open spec fn without_values(config: Option<Tree>) -> Option<Tree> {
    match config {
        Some(Tree::Object(fields)) => Some(
            Tree::Object(
                fields.map_values(|field: (Seq<char>, Tree)| bare_services(field)),
            ),
        ),
        _ => config,
    }
}

/// A field that is found in mapped fields is the mapped field, where the names are kept.
proof fn lemma_mapped_field(
    fields: Seq<(Seq<char>, Tree)>,
    f: spec_fn((Seq<char>, Tree)) -> (Seq<char>, Tree),
    key: Seq<char>,
)
    requires
        forall|field: (Seq<char>, Tree)| (#[trigger] f(field)).0 == field.0,
    ensures
        field_of(fields.map_values(f), key) == (match field_of(fields, key) {
            Some(item) => Some(f((key, item)).1),
            None => None,
        }),
    decreases fields.len(),
{
    if fields.len() > 0 {
        let mapped = fields.map_values(f);
        assert(mapped[0] == f(fields[0]));
        assert(mapped.skip(1) =~= fields.skip(1).map_values(f));
        lemma_mapped_field(fields.skip(1), f, key);
    }
}

proof fn lemma_bare_variables(items: Seq<Tree>)
    ensures
        variables_of(Some(bare_settings(Tree::List(items)))) == variables_of(
            Some(Tree::List(items)),
        ),
    decreases items.len(),
{
    let pick = |item: Tree| text_in(item);
    let bare = |item: Tree| bare_entry(item);
    let name = |entry: Seq<char>| parts_of(entry, '=')[0];
    let mapped = items.map_values(bare);
    if items.len() == 0 {
        assert(mapped =~= items);
    } else {
        let before = items.drop_last();
        lemma_bare_variables(before);
        assert(mapped.drop_last() =~= before.map_values(bare));
        assert(mapped.last() == bare_entry(items.last()));
        let one = before.filter_map(pick);
        let two = before.map_values(bare).filter_map(pick);
        assert(one.map_values(name) == two.map_values(name));
        match items.last() {
            Tree::Text(text) => {
                lemma_first_part(text);
                let short = parts_of(text, '=')[0];
                assert(items.filter_map(pick) =~= one.push(text));
                assert(mapped.filter_map(pick) =~= two.push(short));
                assert(one.push(text).map_values(name) =~= one.map_values(name).push(name(text)));
                assert(two.push(short).map_values(name) =~= two.map_values(name).push(
                    name(short),
                ));
            },
            _ => {},
        }
    }
}

proof fn lemma_bare_service(service: (Seq<char>, Tree))
    ensures
        bare_service(service).0 == service.0,
        get(bare_service(service).1, "depends_on"@) == get(service.1, "depends_on"@),
        variables_of(get(bare_service(service).1, "environment"@)) == variables_of(
            get(service.1, "environment"@),
        ),
{
    reveal_strlit("depends_on");
    reveal_strlit("environment");
    assert("depends_on"@[0] != "environment"@[0]);
    if let Tree::Object(fields) = service.1 {
        let f = |field: (Seq<char>, Tree)| bare_field(field);
        lemma_mapped_field(fields, f, "depends_on"@);
        lemma_mapped_field(fields, f, "environment"@);
        match field_of(fields, "environment"@) {
            Some(Tree::List(items)) => {
                lemma_bare_variables(items);
            },
            Some(Tree::Object(settings)) => {
                let null = |field: (Seq<char>, Tree)| (field.0, Tree::Null);
                assert(keys_of(settings.map_values(null)) =~= keys_of(settings));
            },
            _ => {},
        }
    }
}

proof fn lemma_bare_services(services: Seq<(Seq<char>, Tree)>)
    ensures
        dependencies(
            services.map_values(|service: (Seq<char>, Tree)| bare_service(service)),
        ) == dependencies(services),
        variables(
            services.map_values(|service: (Seq<char>, Tree)| bare_service(service)),
        ) == variables(services),
    decreases services.len(),
{
    let f = |service: (Seq<char>, Tree)| bare_service(service);
    let mapped = services.map_values(f);
    if services.len() == 0 {
        assert(mapped =~= services);
    } else {
        lemma_bare_services(services.drop_last());
        assert(mapped.drop_last() =~= services.drop_last().map_values(f));
        assert(mapped.last() == bare_service(services.last()));
        lemma_bare_service(services.last());
    }
}

proof fn lemma_without_values(config: Option<Tree>)
    ensures
        topology_of(without_values(config)) == topology_of(config),
        environment_of(without_values(config)) == environment_of(config),
{
    if let Some(Tree::Object(fields)) = config {
        let f = |field: (Seq<char>, Tree)| bare_services(field);
        lemma_mapped_field(fields, f, "services"@);
        lemma_bare_services(services_in(config));
    }
}

/// The values of environment variables are never shown: configurations that differ in these
/// values alone give the same lists.
pub proof fn values_are_not_shown(first: Seq<char>, second: Seq<char>)
    requires
        without_values(config_of(first)) == without_values(config_of(second)),
    ensures
        topology_of(config_of(first)) == topology_of(config_of(second)),
        environment_of(config_of(first)) == environment_of(config_of(second)),
{
    lemma_without_values(config_of(first));
    lemma_without_values(config_of(second));
}

/// What each action runs, word for word, whatever else was filled in: taking a project down
/// removes neither volumes nor images, and only what names a service or a scale holds more
/// than these words, each as one word of the shell.
pub proof fn actions_run_these_words(
    service: Option<Seq<char>>,
    command: Option<Seq<char>>,
    lines: Option<u32>,
    since: Option<Seq<char>>,
)
    ensures
        compose_plan("up"@, service, command, lines, since) == Ok::<ComposePlanView, Seq<char>>(
            ComposePlanView::Run("up -d"@),
        ),
        compose_plan("down"@, service, command, lines, since) == Ok::<ComposePlanView, Seq<char>>(
            ComposePlanView::Run("down"@),
        ),
        compose_plan("pull"@, service, command, lines, since) == Ok::<ComposePlanView, Seq<char>>(
            ComposePlanView::Run("pull"@),
        ),
        compose_plan("rebuild"@, service, command, lines, since) == Ok::<
            ComposePlanView,
            Seq<char>,
        >(ComposePlanView::Run("up -d --build"@)),
        compose_plan("restart"@, service, command, lines, since) == Ok::<
            ComposePlanView,
            Seq<char>,
        >(
            ComposePlanView::Run(
                match service {
                    Some(name) => "restart "@ + quoted(name),
                    None => "restart "@,
                },
            ),
        ),
        compose_plan("scale"@, service, command, lines, since) == match command {
            Some(scale) => if scale.contains('=') {
                Ok(ComposePlanView::Run("up -d --scale "@ + quoted(scale)))
            } else {
                Err("Enter scale as service=count"@)
            },
            None => Err("Enter scale as service=count"@),
        },
        compose_plan("exec"@, service, command, lines, since) matches Ok(plan) ==> {
            &&& service matches Some(name)
            &&& command matches Some(line)
            &&& trim(line).len() > 0
            &&& plan == (ComposePlanView::Exec { service: name, command: line })
        },
        service is Some && (command matches Some(line) && trim(line).len() > 0) ==> compose_plan(
            "exec"@,
            service,
            command,
            lines,
            since,
        ) is Ok,
        compose_plan("logs"@, service, command, lines, None) == Ok::<ComposePlanView, Seq<char>>(
            ComposePlanView::Run(
                "logs --tail "@ + decimal(shown_lines(lines) as nat) + " "@ + (match service {
                    Some(name) => quoted(name),
                    None => Seq::empty(),
                }),
            ),
        ),
        forall|action: Seq<char>| !#[trigger] is_compose_action(action) ==> compose_plan(
            action,
            service,
            command,
            lines,
            since,
        ) is Err,
{
    lemma_action_names();
    assert("restart "@ + Seq::<char>::empty() =~= "restart "@);
    let head = "logs --tail "@ + decimal(shown_lines(lines) as nat);
    assert(head + since_flag(None) =~= head);
}

proof fn lemma_action_names()
    ensures
        "down"@ != "up"@,
        "restart"@ != "up"@ && "restart"@ != "down"@,
        "pull"@ != "up"@ && "pull"@ != "down"@ && "pull"@ != "restart"@,
        "rebuild"@ != "up"@ && "rebuild"@ != "down"@ && "rebuild"@ != "restart"@ && "rebuild"@
            != "pull"@,
        "logs"@ != "up"@ && "logs"@ != "down"@ && "logs"@ != "restart"@ && "logs"@ != "pull"@
            && "logs"@ != "rebuild"@,
        "exec"@ != "up"@ && "exec"@ != "down"@ && "exec"@ != "restart"@ && "exec"@ != "pull"@
            && "exec"@ != "rebuild"@ && "exec"@ != "logs"@,
        "scale"@ != "up"@ && "scale"@ != "down"@ && "scale"@ != "restart"@ && "scale"@ != "pull"@
            && "scale"@ != "rebuild"@ && "scale"@ != "logs"@ && "scale"@ != "exec"@,
{
    reveal_strlit("up");
    reveal_strlit("down");
    reveal_strlit("restart");
    reveal_strlit("pull");
    reveal_strlit("rebuild");
    reveal_strlit("logs");
    reveal_strlit("exec");
    reveal_strlit("scale");
    assert("up"@.len() == 2);
    assert("down"@.len() == 4);
    assert("restart"@.len() == 7);
    assert("pull"@.len() == 4);
    assert("rebuild"@.len() == 7);
    assert("logs"@.len() == 4);
    assert("exec"@.len() == 4);
    assert("scale"@.len() == 5);
    assert("down"@[0] == 'd');
    assert("pull"@[0] == 'p');
    assert("logs"@[0] == 'l');
    assert("exec"@[0] == 'e');
    assert("restart"@[2] == 's');
    assert("rebuild"@[2] == 'b');
}

/// Compose is run on the file that was chosen, by whichever tool is there, with the same
/// arguments.
pub proof fn every_tool_gets_the_same_arguments(path: Seq<char>, arguments: Seq<char>)
    ensures
        compose_text(path, arguments)
            == "if command -v docker >/dev/null 2>&1 && docker compose version >/dev/null 2>&1; then docker compose -f "@
            + (quoted(path) + " "@ + arguments)
            + "; elif command -v docker-compose >/dev/null 2>&1; then docker-compose -f "@ + (quoted(
            path,
        ) + " "@ + arguments)
            + "; elif command -v podman-compose >/dev/null 2>&1; then podman-compose -f "@ + (quoted(
            path,
        ) + " "@ + arguments) + "; else echo 'Docker Compose is unavailable' >&2; exit 127; fi"@,
{
}

/// A command is run in the service that was named, by the shell that was found, each as one
/// word.
pub proof fn services_are_entered_by_name(service: Seq<char>, shell: Seq<char>, command: Seq<char>)
    ensures
        exec_arguments(service, shell, command) == "exec -T "@ + quoted(service) + " "@ + quoted(
            shell,
        ) + " -c "@ + quoted(command),
{
}

/// An action is refused where its file, its name or its service is none.
pub proof fn compose_requests_are_checked(path: Seq<char>, action: Seq<char>, service: Option<Seq<char>>)
    ensures
        compose_verdict(path, action, service) is Ok <==> trim(path).len() > 0 && !path.contains(
            '\n',
        ) && (action == "up"@ || action == "down"@ || action == "restart"@ || action == "pull"@
            || action == "rebuild"@ || action == "logs"@ || action == "exec"@ || action
            == "scale"@) && (service matches Some(name) ==> name.len() > 0 && forall|i: int|
            0 <= i < name.len() ==> is_alphanumeric(#[trigger] name[i]) || name[i] == '_' || name[i]
                == '.' || name[i] == '-'),
{
    if let Some(name) = service {
        if is_service_name(name) {
            assert forall|i: int| 0 <= i < name.len() implies is_alphanumeric(#[trigger] name[i])
                || name[i] == '_' || name[i] == '.' || name[i] == '-' by {
                assert(service_char()(name[i]));
            }
        } else if name.len() > 0 {
            let i = choose|i: int| 0 <= i < name.len() && !service_char()(#[trigger] name[i]);
            assert(!(is_alphanumeric(name[i]) || name[i] == '_' || name[i] == '.' || name[i] == '-'));
        }
    }
}

/// An action that succeeded gives what it printed, one that lacks rights is run as root, and
/// of any other the error is told.
pub proof fn compose_actions_are_judged(action: Seq<char>, output: ExecOutput)
    ensures
        output.exit_code == 0 && action != "logs"@ ==> action_result(action, output)
            == RunOutcomeView::Done(output.stdout@ + output.stderr@),
        output.exit_code == 0 ==> action_result("logs"@, output) == RunOutcomeView::Done(
            bounded(output.stdout@),
        ),
        output.exit_code != 0 && lacks_rights(output) ==> action_result(action, output)
            is NeedsRoot,
        output.exit_code != 0 && !lacks_rights(output) ==> action_result(action, output)
            == RunOutcomeView::Failed(failure_text(output)),
{
}

/// The number of lines that is shown is the one that was asked for, from one to five
/// thousand, and three hundred where none was.
pub proof fn shown_lines_are_bounded(lines: u32)
    ensures
        1 <= lines <= 5000 ==> shown_lines(Some(lines)) == lines,
        lines > 5000 ==> shown_lines(Some(lines)) == 5000,
        shown_lines(Some(0)) == 1,
        shown_lines(None) == 300,
{
}

/// A project is shown as it was scanned: its file, its services and how many of them run.
/// One without services is left out.
pub proof fn projects_are_shown_as_scanned(record: ScanRecordView, mode: ScanMode)
    ensures
        project_of(record, mode) is None <==> filled_lines(record.services).len() == 0,
        project_of(record, mode) matches Some(project) ==> {
            &&& project.path == record.path
            &&& project.name == project_name(record.path)
            &&& project.services == filled_lines(record.services)
            &&& mode == ScanMode::Services && filled_lines(record.running).len() <= usize::MAX
                ==> project.running == filled_lines(record.running).len()
            &&& project.topology == topology_of(config_of(record.config))
            &&& project.environment == environment_of(config_of(record.config))
        },
{
}

/// A project is named after the directory that its file lies in.
pub proof fn projects_are_named_after_their_directory(dir: Seq<char>, name: Seq<char>, file: Seq<char>)
    requires
        dir.len() > 0,
        name.len() > 0 && !name.contains('/') && name != "."@ && name != ".."@ && name.last() != '.',
        file.len() > 0 && !file.contains('/') && file != "."@ && file != ".."@,
    ensures
        project_name(joined_path(dir, name) + "/"@ + file) == name,
{
    reveal_strlit("/");
    let parent = joined_path(dir, name);
    assert(name.contains(name[0]));
    assert(name.contains(name[name.len() - 1]));
    assert(parent.last() == name.last());
    joined_names_are_read_back(dir, name);
    joined_directories_are_read_back(parent, file, file);
}

/// A scan is read line by line: a project's marker begins a project, the markers of its parts
/// open them, and every other line goes to the part that is open.
pub proof fn scans_are_read_line_by_line(state: ScanState, path: Seq<char>, line: Seq<char>)
    requires
        state.records.len() > 0,
    ensures
        scan_step(state, "__SERVERBOX_COMPOSE_PROJECT__"@ + "\t"@ + path) == (ScanState {
            records: state.records.push(
                ScanRecordView {
                    path,
                    services: Seq::empty(),
                    config: Seq::empty(),
                    running: Seq::empty(),
                },
            ),
            section: None,
        }),
        behind_marker(line, "__SERVERBOX_COMPOSE_PROJECT__"@) is None ==> {
            &&& line == "__SERVERBOX_COMPOSE_SERVICES__"@ ==> scan_step(state, line) == (ScanState {
                section: Some(ComposeScanSection::Services),
                ..state
            })
            &&& line != "__SERVERBOX_COMPOSE_SERVICES__"@ && line != "__SERVERBOX_COMPOSE_CONFIG__"@
                && line != "__SERVERBOX_COMPOSE_RUNNING__"@ ==> {
                let after = scan_step(state, line);
                &&& after.section == state.section
                &&& state.section is None ==> after == state
                &&& state.section is Some ==> after.records.len() == state.records.len()
                    && after.records.drop_last() == state.records.drop_last()
                    && after.records.last().path == state.records.last().path
                &&& state.section == Some(ComposeScanSection::Services)
                    ==> after.records.last().services == state.records.last().services + line
                    + "\n"@ && after.records.last().config == state.records.last().config
                    && after.records.last().running == state.records.last().running
                &&& state.section == Some(ComposeScanSection::Config)
                    ==> after.records.last().config == state.records.last().config + line + "\n"@
                    && after.records.last().services == state.records.last().services
                    && after.records.last().running == state.records.last().running
                &&& state.section == Some(ComposeScanSection::Running)
                    ==> after.records.last().running == state.records.last().running + line
                    + "\n"@ && after.records.last().services == state.records.last().services
                    && after.records.last().config == state.records.last().config
            }
        },
{
    let mark = COMPOSE_PROJECT_MARKER@;
    let first = mark + "\t"@ + path;
    assert(first.take(mark.len() as int) =~= mark);
    assert(first.skip(mark.len() as int) =~= "\t"@ + path);
    let rest = "\t"@ + path;
    assert(rest.take("\t"@.len() as int) =~= "\t"@);
    assert(rest.skip("\t"@.len() as int) =~= path);
    if state.section is Some {
        let last = with_line(state.records.last(), state.section->0, line);
        assert(state.records.drop_last().push(last).drop_last() =~= state.records.drop_last());
    }
}

/// The parts of a project's record are opened by their own markers.
pub proof fn parts_are_opened_by_their_markers(state: ScanState)
    requires
        state.records.len() > 0,
    ensures
        scan_step(state, "__SERVERBOX_COMPOSE_SERVICES__"@).section == Some(
            ComposeScanSection::Services,
        ),
        scan_step(state, "__SERVERBOX_COMPOSE_CONFIG__"@).section == Some(
            ComposeScanSection::Config,
        ),
        scan_step(state, "__SERVERBOX_COMPOSE_RUNNING__"@).section == Some(
            ComposeScanSection::Running,
        ),
{
    reveal_strlit("__SERVERBOX_COMPOSE_SERVICES__");
    reveal_strlit("__SERVERBOX_COMPOSE_CONFIG__");
    reveal_strlit("__SERVERBOX_COMPOSE_RUNNING__");
    reveal_strlit("__SERVERBOX_COMPOSE_PROJECT__");
    assert("__SERVERBOX_COMPOSE_SERVICES__"@.len() == 30);
    assert("__SERVERBOX_COMPOSE_CONFIG__"@.len() == 28);
    assert("__SERVERBOX_COMPOSE_RUNNING__"@.len() == 29);
    assert("__SERVERBOX_COMPOSE_PROJECT__"@.len() == 29);
    assert("__SERVERBOX_COMPOSE_RUNNING__"@[20] == 'R');
    assert("__SERVERBOX_COMPOSE_PROJECT__"@[20] == 'P');
    lemma_no_project("__SERVERBOX_COMPOSE_SERVICES__"@, 'S');
    lemma_no_project("__SERVERBOX_COMPOSE_CONFIG__"@, 'C');
    lemma_no_project("__SERVERBOX_COMPOSE_RUNNING__"@, 'R');
}

proof fn lemma_no_project(line: Seq<char>, letter: char)
    requires
        line.len() > 20,
        line[20] == letter,
        letter != 'P',
    ensures
        behind_marker(line, COMPOSE_PROJECT_MARKER@) is None,
{
    reveal_strlit("__SERVERBOX_COMPOSE_PROJECT__");
    assert(COMPOSE_PROJECT_MARKER@[20] == 'P');
    if line.len() >= COMPOSE_PROJECT_MARKER@.len() {
        assert(line.take(COMPOSE_PROJECT_MARKER@.len() as int)[20] == line[20]);
    }
}

/// What runs is told by how the scan prints it: the names of the services, or their states.
pub proof fn modes_are_told_first(rest: Seq<Seq<char>>)
    ensures
        mode_of(seq!["__SERVERBOX_COMPOSE_MODE__"@ + "\t"@ + "services"@] + rest) == Some(
            ScanMode::Services,
        ),
        mode_of(seq!["__SERVERBOX_COMPOSE_MODE__"@ + "\t"@ + "states"@] + rest) == Some(
            ScanMode::States,
        ),
        mode_of(seq!["__SERVERBOX_COMPOSE_MODE__"@ + "\t"@ + "none"@] + rest) is None,
        mode_of(Seq::empty()) is None,
{
    reveal_strlit("services");
    reveal_strlit("states");
    reveal_strlit("none");
    assert("services"@.len() == 8);
    assert("states"@.len() == 6);
    assert("none"@.len() == 4);
    lemma_mode_line("services"@);
    lemma_mode_line("states"@);
    lemma_mode_line("none"@);
}

proof fn lemma_mode_line(mode: Seq<char>)
    requires
        mode == "services"@ || mode == "states"@ || mode == "none"@,
    ensures
        behind_marker(COMPOSE_MODE_MARKER@ + "\t"@ + mode, COMPOSE_MODE_MARKER@) == Some(mode),
        trim(mode) == mode,
{
    reveal_strlit("services");
    reveal_strlit("states");
    reveal_strlit("none");
    let mark = COMPOSE_MODE_MARKER@;
    let first = mark + "\t"@ + mode;
    assert(first.take(mark.len() as int) =~= mark);
    assert(first.skip(mark.len() as int) =~= "\t"@ + mode);
    let rest = "\t"@ + mode;
    assert(rest.take("\t"@.len() as int) =~= "\t"@);
    assert(rest.skip("\t"@.len() as int) =~= mode);
    let none = Seq::<char>::empty();
    assert(none + mode + none =~= mode);
    assert(!is_space(mode[0]) && !is_space(mode.last()));
    trimming_takes_off_spaces(none, mode, none);
}

/// What a service depends on, and which variables it has, stands behind its own name.
pub proof fn dependencies_stand_behind_their_service(
    services: Seq<(Seq<char>, Tree)>,
    name: Seq<char>,
    tree: Tree,
)
    ensures
        dependencies(services.push((name, tree))) == dependencies(services) + labelled_all(
            name,
            " \u{2192} "@,
            entries_of(get(tree, "depends_on"@)),
        ),
        variables(services.push((name, tree))) == variables(services) + labelled_all(
            name,
            ": "@,
            variables_of(get(tree, "environment"@)),
        ),
        dependencies(Seq::empty()).len() == 0,
        variables(Seq::empty()).len() == 0,
        forall|items: Seq<Seq<char>>, sign: Seq<char>, i: int|
            0 <= i < items.len() ==> #[trigger] labelled_all(name, sign, items)[i] == name + sign
                + items[i],
{
    let all = services.push((name, tree));
    assert(all.drop_last() =~= services);
}

/// The services are those of the configuration; what they depend on, and their variables, are
/// shown each once.
pub proof fn services_are_those_of_the_configuration(
    config: Tree,
    fields: Seq<(Seq<char>, Tree)>,
    shown: Seq<char>,
)
    requires
        get(config, "services"@) == Some(Tree::Object(fields)),
    ensures
        services_in(Some(config)) == fields,
        services_in(None).len() == 0,
        topology_of(Some(config)).contains(shown) <==> dependencies(fields).contains(shown),
        environment_of(Some(config)).contains(shown) <==> variables(fields).contains(shown),
        topology_of(Some(config)).no_duplicates(),
        environment_of(Some(config)).no_duplicates(),
{
    repeats_are_left_out(dependencies(fields), shown);
    repeats_are_left_out(variables(fields), shown);
}

/// The names of an object are its keys, and those of a list its texts; a variable is what
/// stands before the first `=`.
pub proof fn entries_are_names(fields: Seq<(Seq<char>, Tree)>, i: int, name: Seq<char>, value: Seq<char>)
    requires
        0 <= i < fields.len(),
        !name.contains('='),
    ensures
        entries_of(Some(Tree::Object(fields)))[i] == fields[i].0,
        entries_of(Some(Tree::Object(fields))).len() == fields.len(),
        variables_of(Some(Tree::Object(fields))) == entries_of(Some(Tree::Object(fields))),
        entries_of(None).len() == 0,
        variables_of(Some(Tree::List(seq![Tree::Text(name + "="@ + value)]))) == seq![name],
{
    reveal_strlit("=");
    let entry = name + "="@ + value;
    assert("="@ =~= seq!['=']);
    let items = seq![Tree::Text(entry)];
    assert(items.drop_last() =~= Seq::empty());
    reveal(Seq::filter_map);
    assert(Seq::<Tree>::empty().filter_map(|item: Tree| text_in(item)) =~= Seq::empty());
    assert(items.last() == Tree::Text(entry));
    assert(items.filter_map(|item: Tree| text_in(item)) =~= seq![entry]);
    splits_read_back(name, '=', value);
    assert(parts_of(entry, '=')[0] == name);
    assert(variables_of(Some(Tree::List(items))) =~= seq![name]);
}

/// A command is run only in a service that runs: one of which a container is printed.
pub proof fn only_running_services_are_entered(path: Seq<char>, service: Seq<char>, printed: Seq<char>)
    ensures
        running_verdict(service, printed) is Ok <==> trim(printed).len() > 0,
        service_probe_text(path, service) == compose_text(path, "ps -q "@ + quoted(service)),
        COMPOSE_SCAN_IDLE_TIMEOUT_SECONDS == 150,
        COMPOSE_SCAN_OUTPUT_LIMIT == 16777216,
{
}

/// A service of a project is named by letters, digits and three marks, and by at least one of them.
pub proof fn compose_services_have_plain_names(name: Seq<char>)
    ensures
        is_service_name(name) <==> name.len() > 0 && forall|i: int|
            0 <= i < name.len() ==> (is_alphanumeric(#[trigger] name[i])
                || name[i] == '_' || name[i] == '.' || name[i] == '-'),
{
    let is_plain = service_char();
    assert forall|i: int| 0 <= i < name.len() implies is_plain(#[trigger] name[i]) == (
    is_alphanumeric(name[i]) || name[i] == '_' || name[i] == '.' || name[i] == '-') by {
    }
}

} // verus!
