//! Containers, images, volumes and networks: what is listed of them and how they are made
//! and changed.
use crate::disk::{SizeText, SizeTextView};
use crate::json::{get_text, json_document, parse_json, text_field, Json, Tree};
use crate::models::{
    DockerCreateInput, DockerCreateInputView, DockerImage, DockerImageView, DockerNetwork,
    DockerNetworkView, DockerVolume, DockerVolumeView,
};
use crate::numbers::{decimal, format_unsigned};
use crate::paging::{at_most, page, page_limit, page_size, shows};
use crate::providers::accounts::flag_text;
use crate::ssh::{
    command_error, error_result, failure_text, is_permission_error, names_permission, quote_shell,
    quoted, ExecOutput,
};
use crate::text::{
    after_prefix, before_suffix, chars_of, contains_text, copy, ends_with, find_text, glue2, glue3,
    glue5, is_char, is_digit, is_space, join, joined_parts_read_back, lemma_find_from,
    lemma_views_push, lines_of, lines_str, lower, lower_char, lowered, matches_at, opt_view, parts,
    parts_of, replace, replaced, same, split_at_text, split_text, starts_with, string_of,
    strip_prefix, strip_suffix, trim, trim_end_where, trim_str, trimmed, trimmed_end_of,
    trimming_takes_off_spaces, views,
};
use vstd::prelude::*;

verus! {

broadcast use vstd::string::group_string_axioms;

/// The most output that is kept of a page.
pub const MAX_DOCKER_PAGE_OUTPUT_BYTES: usize = 4194304;

pub const DOCKER_ITEMS_MARKER: &'static str = "__SERVERBOX_DOCKER_ITEMS_V1__";

pub const DOCKER_STATS_MARKER: &'static str = "__SERVERBOX_DOCKER_STATS_V1__";

/// Prints a page of one kind of thing, and for containers what they use.
pub const DOCKER_COLLECTION_SCRIPT: &'static str = r#"
runtime=$1
section=$2
offset=$3
limit=$4
case "$offset:$limit" in *[!0-9:]*|:*) printf 'Invalid page bounds\n' >&2; exit 64 ;; esac
start=$((offset + 1))
end=$((offset + limit + 1))

case "$section" in
  containers)
    "$runtime" ps -a --format '{{json .}}' >/dev/null || exit $?
    items=$("$runtime" ps -a --format '{{json .}}' | sed -n "${start},${end}p")
    ;;
  images)
    "$runtime" image ls --format '{{json .}}' >/dev/null || exit $?
    items=$("$runtime" image ls --format '{{json .}}' | sed -n "${start},${end}p")
    ;;
  volumes)
    "$runtime" volume ls --format '{{json .}}' >/dev/null || exit $?
    items=$("$runtime" volume ls --format '{{json .}}' | sed -n "${start},${end}p")
    ;;
  networks)
    "$runtime" network ls --format '{{json .}}' >/dev/null || exit $?
    items=$("$runtime" network ls --format '{{json .}}' | sed -n "${start},${end}p")
    ;;
  *) printf 'Unknown container resource section\n' >&2; exit 64 ;;
esac

printf '__SERVERBOX_DOCKER_ITEMS_V1__\n%s\n' "$items"
printf '__SERVERBOX_DOCKER_STATS_V1__\n'
if [ "$section" = containers ] && [ -n "$items" ]; then
  ids=$(printf '%s\n' "$items" | sed -n 's/.*"ID"[[:space:]]*:[[:space:]]*"\([^"]*\)".*/\1/p' | sed -n '/^[[:alnum:]_.:-][[:alnum:]_.:-]*$/p' | sed -n "1,${limit}p")
  if [ -n "$ids" ]; then
    # Identifiers are allowlisted above, so intentional field splitting passes
    # the page as individual runtime arguments without evaluating shell syntax.
    "$runtime" stats --no-stream --format '{{json .}}' $ids 2>/dev/null || true
  fi
fi
"#;

// ---------------------------------------------------------------------------
// Sizes and percentages
// ---------------------------------------------------------------------------

/// A text without the ending `suffix` and what the suffix multiplies by, where it has it.
pub open spec fn sized(text: Seq<char>, suffix: Seq<char>, multiplier: u64) -> Option<SizeTextView> {
    match strip_suffix(text, suffix) {
        Some(number) => Some(SizeTextView { number, multiplier }),
        None => None,
    }
}

pub open spec fn or_size(first: Option<SizeTextView>, second: Option<SizeTextView>) -> Option<
    SizeTextView,
> {
    match first {
        Some(size) => Some(size),
        None => second,
    }
}

/// The size that a runtime writes of what a container uses: `1.5MiB`, `12kB`.
pub open spec fn human_size(text: Seq<char>) -> SizeTextView {
    let s = lower(replace(trim(text), " "@, Seq::empty()));
    let found = or_size(
        sized(s, "tib"@, 1_099_511_627_776),
        or_size(
            sized(s, "tb"@, 1_000_000_000_000),
            or_size(
                sized(s, "gib"@, 1_073_741_824),
                or_size(
                    sized(s, "gb"@, 1_000_000_000),
                    or_size(
                        sized(s, "mib"@, 1_048_576),
                        or_size(
                            sized(s, "mb"@, 1_000_000),
                            or_size(
                                sized(s, "kib"@, 1_024),
                                or_size(sized(s, "kb"@, 1_000), sized(s, "b"@, 1)),
                            ),
                        ),
                    ),
                ),
            ),
        ),
    );
    match found {
        Some(size) => size,
        None => SizeTextView { number: s, multiplier: 1 },
    }
}

fn strip_size(s: &[char], suffix: &str, multiplier: u64) -> (res: Option<SizeText>)
    ensures
        opt_view(res) == sized(s@, suffix@, multiplier),
{
    match before_suffix(s, suffix) {
        Some(number) => Some(SizeText { number: string_of(&number), multiplier }),
        None => None,
    }
}

/// The size that a runtime writes of what a container uses.
pub fn parse_human_size(text: &[char]) -> (res: SizeText)
    ensures
        res@ == human_size(text@),
{
    let gap = chars_of(" ");
    proof {
        reveal_strlit(" ");
    }
    let none: Vec<char> = Vec::new();
    assert(none@ =~= Seq::empty());
    let s = lowered(&replaced(&trimmed(text), &gap, &none));
    if let Some(size) = strip_size(&s, "tib", 1_099_511_627_776) {
        return size;
    }
    if let Some(size) = strip_size(&s, "tb", 1_000_000_000_000) {
        return size;
    }
    if let Some(size) = strip_size(&s, "gib", 1_073_741_824) {
        return size;
    }
    if let Some(size) = strip_size(&s, "gb", 1_000_000_000) {
        return size;
    }
    if let Some(size) = strip_size(&s, "mib", 1_048_576) {
        return size;
    }
    if let Some(size) = strip_size(&s, "mb", 1_000_000) {
        return size;
    }
    if let Some(size) = strip_size(&s, "kib", 1_024) {
        return size;
    }
    if let Some(size) = strip_size(&s, "kb", 1_000) {
        return size;
    }
    if let Some(size) = strip_size(&s, "b", 1) {
        return size;
    }
    SizeText { number: string_of(&s), multiplier: 1 }
}

/// The size before a slash.
pub open spec fn first_size(text: Seq<char>) -> SizeTextView {
    human_size(parts_of(text, '/')[0])
}

/// The size behind the first slash.
pub open spec fn second_size(text: Seq<char>) -> Option<SizeTextView> {
    if parts_of(text, '/').len() > 1 {
        Some(human_size(parts_of(text, '/')[1]))
    } else {
        None
    }
}

/// The two sizes around a slash.
pub fn parse_pair_sizes(text: &str) -> (res: (SizeText, Option<SizeText>))
    ensures
        res.0@ == first_size(text@),
        opt_view(res.1) == second_size(text@),
{
    let halves = parts(&chars_of(text), '/');
    assert(views(halves@)[0] == halves@[0]@);
    let first = parse_human_size(halves[0].as_slice());
    let second = if halves.len() > 1 {
        assert(views(halves@)[1] == halves@[1]@);
        Some(parse_human_size(halves[1].as_slice()))
    } else {
        None
    };
    (first, second)
}

/// A percentage without its sign.
pub open spec fn percent_text(text: Seq<char>) -> Seq<char> {
    trim_end_where(trim(text), is_char('%'))
}

// ---------------------------------------------------------------------------
// What is listed
// ---------------------------------------------------------------------------

/// A container, and what it uses where that is known. Numbers stand as the runtime writes
/// them.
#[derive(Debug, PartialEq, Eq)]
pub struct ContainerInfo {
    pub id: String,
    pub name: String,
    pub image: String,
    pub state: String,
    pub status: String,
    pub ports: String,
    pub usage: Option<ContainerUsage>,
}

/// What a container uses.
#[derive(Debug, PartialEq, Eq)]
pub struct ContainerUsage {
    pub cpu_percent: String,
    pub memory_usage: SizeText,
    pub memory_limit: Option<SizeText>,
    pub memory_percent: String,
    pub network_rx: SizeText,
    pub network_tx: Option<SizeText>,
    pub block_read: SizeText,
    pub block_write: Option<SizeText>,
}

#[verifier::ext_equal]
pub struct ContainerUsageView {
    pub cpu_percent: Seq<char>,
    pub memory_usage: SizeTextView,
    pub memory_limit: Option<SizeTextView>,
    pub memory_percent: Seq<char>,
    pub network_rx: SizeTextView,
    pub network_tx: Option<SizeTextView>,
    pub block_read: SizeTextView,
    pub block_write: Option<SizeTextView>,
}

impl View for ContainerUsage {
    type V = ContainerUsageView;

    open spec fn view(&self) -> ContainerUsageView {
        ContainerUsageView {
            cpu_percent: self.cpu_percent@,
            memory_usage: self.memory_usage@,
            memory_limit: opt_view(self.memory_limit),
            memory_percent: self.memory_percent@,
            network_rx: self.network_rx@,
            network_tx: opt_view(self.network_tx),
            block_read: self.block_read@,
            block_write: opt_view(self.block_write),
        }
    }
}

#[verifier::ext_equal]
pub struct ContainerInfoView {
    pub id: Seq<char>,
    pub name: Seq<char>,
    pub image: Seq<char>,
    pub state: Seq<char>,
    pub status: Seq<char>,
    pub ports: Seq<char>,
    pub usage: Option<ContainerUsageView>,
}

impl View for ContainerInfo {
    type V = ContainerInfoView;

    open spec fn view(&self) -> ContainerInfoView {
        ContainerInfoView {
            id: self.id@,
            name: self.name@,
            image: self.image@,
            state: self.state@,
            status: self.status@,
            ports: self.ports@,
            usage: opt_view(self.usage),
        }
    }
}

/// What a container of this id and name uses.
#[derive(Debug, PartialEq, Eq)]
pub struct ContainerStats {
    pub id: String,
    pub name: String,
    pub usage: ContainerUsage,
}

#[verifier::ext_equal]
pub struct ContainerStatsView {
    pub id: Seq<char>,
    pub name: Seq<char>,
    pub usage: ContainerUsageView,
}

impl View for ContainerStats {
    type V = ContainerStatsView;

    open spec fn view(&self) -> ContainerStatsView {
        ContainerStatsView { id: self.id@, name: self.name@, usage: self.usage@ }
    }
}

/// The text of a field; empty where there is none.
pub open spec fn json_text(tree: Tree, key: Seq<char>) -> Seq<char> {
    match text_field(tree, key) {
        Some(text) => text,
        None => Seq::empty(),
    }
}

/// The text of the first of two fields that is there.
pub open spec fn json_either(tree: Tree, a: Seq<char>, b: Seq<char>) -> Seq<char> {
    match text_field(tree, a) {
        Some(text) => text,
        None => json_text(tree, b),
    }
}

fn text_or_empty(json: &Json, key: &str) -> (res: String)
    ensures
        res@ == json_text(json@, key@),
{
    match get_text(json, key) {
        Some(text) => text,
        None => String::new(),
    }
}

fn either_text(json: &Json, a: &str, b: &str) -> (res: String)
    ensures
        res@ == json_either(json@, a@, b@),
{
    match get_text(json, a) {
        Some(text) => text,
        None => text_or_empty(json, b),
    }
}

pub open spec fn container_in(tree: Tree) -> ContainerInfoView {
    ContainerInfoView {
        id: json_either(tree, "ID"@, "Id"@),
        name: json_either(tree, "Names"@, "Name"@),
        image: json_text(tree, "Image"@),
        state: json_text(tree, "State"@),
        status: json_text(tree, "Status"@),
        ports: json_text(tree, "Ports"@),
        usage: None,
    }
}

/// The container that a document describes.
pub fn container_of(json: &Json) -> (res: ContainerInfo)
    ensures
        res@ == container_in(json@),
{
    ContainerInfo {
        id: either_text(json, "ID", "Id"),
        name: either_text(json, "Names", "Name"),
        image: text_or_empty(json, "Image"),
        state: text_or_empty(json, "State"),
        status: text_or_empty(json, "Status"),
        ports: text_or_empty(json, "Ports"),
        usage: None,
    }
}

pub open spec fn stats_in(tree: Tree) -> ContainerStatsView {
    let memory = json_text(tree, "MemUsage"@);
    let network = json_text(tree, "NetIO"@);
    let block = json_text(tree, "BlockIO"@);
    ContainerStatsView {
        id: json_either(tree, "ID"@, "Id"@),
        name: json_either(tree, "Name"@, "Names"@),
        usage: ContainerUsageView {
            cpu_percent: percent_text(json_either(tree, "CPUPerc"@, "CPU"@)),
            memory_usage: first_size(memory),
            memory_limit: second_size(memory),
            memory_percent: percent_text(json_text(tree, "MemPerc"@)),
            network_rx: first_size(network),
            network_tx: second_size(network),
            block_read: first_size(block),
            block_write: second_size(block),
        },
    }
}

fn strip_percent(text: &str) -> (res: String)
    ensures
        res@ == percent_text(text@),
{
    string_of(&trimmed_end_of(&trimmed(&chars_of(text)), '%'))
}

/// The usage that a document describes.
pub fn stats_of(json: &Json) -> (res: ContainerStats)
    ensures
        res@ == stats_in(json@),
{
    let (memory_usage, memory_limit) = parse_pair_sizes(text_or_empty(json, "MemUsage").as_str());
    let (network_rx, network_tx) = parse_pair_sizes(text_or_empty(json, "NetIO").as_str());
    let (block_read, block_write) = parse_pair_sizes(text_or_empty(json, "BlockIO").as_str());
    ContainerStats {
        id: either_text(json, "ID", "Id"),
        name: either_text(json, "Name", "Names"),
        usage: ContainerUsage {
            cpu_percent: strip_percent(either_text(json, "CPUPerc", "CPU").as_str()),
            memory_usage,
            memory_limit,
            memory_percent: strip_percent(text_or_empty(json, "MemPerc").as_str()),
            network_rx,
            network_tx,
            block_read,
            block_write,
        },
    }
}

pub open spec fn image_in(tree: Tree) -> DockerImageView {
    DockerImageView {
        id: json_either(tree, "ID"@, "Id"@),
        repository: json_text(tree, "Repository"@),
        tag: json_text(tree, "Tag"@),
        size: json_text(tree, "Size"@),
        created: match text_field(tree, "CreatedSince"@) {
            Some(text) => text,
            None => json_either(tree, "CreatedAt"@, "Created"@),
        },
    }
}

/// The image that a document describes.
pub fn image_of(json: &Json) -> (res: DockerImage)
    ensures
        res@ == image_in(json@),
{
    DockerImage {
        id: either_text(json, "ID", "Id"),
        repository: text_or_empty(json, "Repository"),
        tag: text_or_empty(json, "Tag"),
        size: text_or_empty(json, "Size"),
        created: match get_text(json, "CreatedSince") {
            Some(text) => text,
            None => either_text(json, "CreatedAt", "Created"),
        },
    }
}

pub open spec fn volume_in(tree: Tree) -> DockerVolumeView {
    DockerVolumeView {
        name: json_text(tree, "Name"@),
        driver: json_text(tree, "Driver"@),
        mountpoint: Seq::empty(),
    }
}

/// The volume that a document describes.
pub fn volume_of(json: &Json) -> (res: DockerVolume)
    ensures
        res@ == volume_in(json@),
{
    DockerVolume {
        name: text_or_empty(json, "Name"),
        driver: text_or_empty(json, "Driver"),
        mountpoint: String::new(),
    }
}

pub open spec fn network_in(tree: Tree) -> DockerNetworkView {
    DockerNetworkView {
        id: json_either(tree, "ID"@, "Id"@),
        name: json_text(tree, "Name"@),
        driver: json_text(tree, "Driver"@),
        scope: json_text(tree, "Scope"@),
    }
}

/// The network that a document describes.
pub fn network_of(json: &Json) -> (res: DockerNetwork)
    ensures
        res@ == network_in(json@),
{
    DockerNetwork {
        id: either_text(json, "ID", "Id"),
        name: text_or_empty(json, "Name"),
        driver: text_or_empty(json, "Driver"),
        scope: text_or_empty(json, "Scope"),
    }
}

/// What `make` reads from the document on a line; nothing where it holds none.
pub open spec fn line_item<V>(line: Seq<char>, make: spec_fn(Tree) -> V) -> Option<V> {
    match json_document(line) {
        Some(tree) => Some(make(tree)),
        None => None,
    }
}

/// What `make` reads from the documents of an output, one on each line.
pub open spec fn items_of<V>(output: Seq<char>, make: spec_fn(Tree) -> V) -> Seq<V> {
    lines_of(output).filter_map(|line: Seq<char>| line_item(line, make))
}

fn read_items<T: View>(
    output: &str,
    make: impl Fn(&Json) -> T,
    Ghost(spec): Ghost<spec_fn(Tree) -> T::V>,
) -> (res: Vec<T>)
    requires
        forall|json: &Json| make.requires((json,)),
        forall|json: &Json, out: T| #[trigger] make.ensures((json,), out) ==> out@ == spec(json@),
    ensures
        views(res@) == items_of(output@, spec),
{
    let lines = lines_str(output);
    let ghost all = views(lines@);
    let ghost pick = |line: Seq<char>| line_item(line, spec);
    let mut out: Vec<T> = Vec::new();
    let mut i: usize = 0;
    assert(all.take(0) =~= Seq::empty());
    assert(views(out@) =~= all.take(0).filter_map(pick));
    while i < lines.len()
        invariant
            i <= lines@.len(),
            all == views(lines@),
            pick == (|line: Seq<char>| line_item(line, spec)),
            forall|json: &Json| make.requires((json,)),
            forall|json: &Json, out: T| #[trigger]
                make.ensures((json,), out) ==> out@ == spec(json@),
            views(out@) == all.take(i as int).filter_map(pick),
        decreases lines@.len() - i,
    {
        broadcast use lemma_views_push;

        let ghost before = views(out@);
        let ghost next = all.take(i + 1);
        assert(next.drop_last() =~= all.take(i as int));
        assert(next.last() == lines@[i as int]@);
        match parse_json(string_of(lines[i].as_slice()).as_str()) {
            Some(json) => {
                let item = make(&json);
                out.push(item);
                assert(before + seq![item@] =~= before.push(item@));
            },
            None => {},
        }
        i += 1;
    }
    assert(all.take(lines@.len() as int) =~= all);
    out
}

/// The first usage of a container of this id or name.
pub open spec fn usage_for(stats: Seq<ContainerStatsView>, id: Seq<char>, name: Seq<char>) -> Option<
    ContainerUsageView,
>
    decreases stats.len(),
{
    if stats.len() == 0 {
        None
    } else if stats[0].id == id || stats[0].name == name {
        Some(stats[0].usage)
    } else {
        usage_for(stats.skip(1), id, name)
    }
}

/// A container with what it uses.
pub open spec fn with_usage(container: ContainerInfoView, stats: Seq<ContainerStatsView>) -> ContainerInfoView {
    ContainerInfoView { usage: usage_for(stats, container.id, container.name), ..container }
}

fn copy_size(size: &SizeText) -> (res: SizeText)
    ensures
        res@ == size@,
{
    SizeText { number: size.number.clone(), multiplier: size.multiplier }
}

fn copy_size_option(size: &Option<SizeText>) -> (res: Option<SizeText>)
    ensures
        opt_view(res) == opt_view(*size),
{
    match size {
        Some(size) => Some(copy_size(size)),
        None => None,
    }
}

fn copy_usage(usage: &ContainerUsage) -> (res: ContainerUsage)
    ensures
        res@ == usage@,
{
    ContainerUsage {
        cpu_percent: usage.cpu_percent.clone(),
        memory_usage: copy_size(&usage.memory_usage),
        memory_limit: copy_size_option(&usage.memory_limit),
        memory_percent: usage.memory_percent.clone(),
        network_rx: copy_size(&usage.network_rx),
        network_tx: copy_size_option(&usage.network_tx),
        block_read: copy_size(&usage.block_read),
        block_write: copy_size_option(&usage.block_write),
    }
}

fn find_usage(stats: &[ContainerStats], id: &str, name: &str) -> (res: Option<ContainerUsage>)
    ensures
        opt_view(res) == usage_for(views(stats@), id@, name@),
{
    let ghost all = views(stats@);
    let mut i: usize = 0;
    assert(all.skip(0) =~= all);
    while i < stats.len()
        invariant
            i <= stats@.len(),
            all == views(stats@),
            usage_for(all, id@, name@) == usage_for(all.skip(i as int), id@, name@),
        decreases stats@.len() - i,
    {
        assert(all.skip(i as int)[0] == stats@[i as int]@);
        assert(all.skip(i as int).skip(1) =~= all.skip(i + 1));
        if same(stats[i].id.as_str(), id) || same(stats[i].name.as_str(), name) {
            return Some(copy_usage(&stats[i].usage));
        }
        i += 1;
    }
    None
}

/// The containers with what they use.
pub fn attach_usage(containers: Vec<ContainerInfo>, stats: &[ContainerStats]) -> (res: Vec<
    ContainerInfo,
>)
    ensures
        views(res@) == views(containers@).map_values(
            |container: ContainerInfoView| with_usage(container, views(stats@)),
        ),
{
    let ghost all = views(containers@);
    let ghost set = |container: ContainerInfoView| with_usage(container, views(stats@));
    let mut rest = containers;
    let mut out: Vec<ContainerInfo> = Vec::new();
    assert(all.skip(0) =~= all);
    while rest.len() > 0
        invariant
            out@.len() <= all.len(),
            set == (|container: ContainerInfoView| with_usage(container, views(stats@))),
            views(rest@) == all.skip(out@.len() as int),
            views(out@) == all.take(out@.len() as int).map_values(set),
        decreases rest@.len(),
    {
        broadcast use lemma_views_push;

        let ghost before = rest@;
        let n: usize = out.len();
        let mut container = rest.remove(0);
        assert(views(before)[0] == container@);
        assert(views(rest@) =~= views(before).skip(1));
        assert(all.skip(n as int).skip(1) =~= all.skip(n + 1));
        assert(all[n as int] == container@);
        container.usage = find_usage(stats, container.id.as_str(), container.name.as_str());
        assert(all.take(n + 1).map_values(set) =~= all.take(n as int).map_values(set).push(
            container@,
        ));
        out.push(container);
    }
    assert(all.take(out@.len() as int) =~= all);
    out
}

// ---------------------------------------------------------------------------
// Pages
// ---------------------------------------------------------------------------

/// A page of one kind of thing; the lists of the other kinds are empty.
#[derive(Debug, PartialEq, Eq)]
pub struct DockerPage {
    pub runtime: String,
    pub section: String,
    pub containers: Vec<ContainerInfo>,
    pub images: Vec<DockerImage>,
    pub volumes: Vec<DockerVolume>,
    pub networks: Vec<DockerNetwork>,
    pub has_more: bool,
}

pub open spec fn is_section(section: Seq<char>) -> bool {
    section == "containers"@ || section == "images"@ || section == "volumes"@ || section
        == "networks"@
}

pub fn check_section(section: &str) -> (res: Result<(), String>)
    ensures
        error_result(res) == if is_section(section@) {
            Ok::<(), Seq<char>>(())
        } else {
            Err("Unknown Docker section"@)
        },
{
    if same(section, "containers") || same(section, "images") || same(section, "volumes") || same(
        section,
        "networks",
    ) {
        Ok(())
    } else {
        Err(copy("Unknown Docker section"))
    }
}

/// What the collection script is told: the runtime, the section and the page.
pub open spec fn collection_words(
    runtime: Seq<char>,
    section: Seq<char>,
    offset: usize,
    limit: usize,
) -> Seq<Seq<char>> {
    seq![runtime, section, decimal(offset as nat), decimal(page_size(limit) as nat)]
}

/// The arguments of the script that prints a page.
pub fn collection_arguments(runtime: &str, section: &str, offset: usize, limit: usize) -> (res: Vec<
    String,
>)
    ensures
        views(res@) == collection_words(runtime@, section@, offset, limit),
{
    let mut out: Vec<String> = Vec::new();
    out.push(copy(runtime));
    out.push(copy(section));
    out.push(format_unsigned(offset as u64));
    out.push(format_unsigned(page_limit(limit) as u64));
    assert(views(out@) =~= seq![
        runtime@,
        section@,
        decimal(offset as nat),
        decimal(page_size(limit) as nat),
    ]);
    out
}

/// The items and the usage in the output of the script.
pub open spec fn collected(output: Seq<char>) -> Result<(Seq<char>, Seq<char>), Seq<char>> {
    let start = match strip_prefix(output, DOCKER_ITEMS_MARKER@) {
        Some(rest) => strip_prefix(rest, "\n"@),
        None => None,
    };
    match start {
        None => Err("The container runtime returned an invalid resource response"@),
        Some(items) => match split_at_text(items, "\n"@ + DOCKER_STATS_MARKER@ + "\n"@) {
            Some(halves) => Ok(halves),
            None => Err("The container runtime returned an incomplete resource response"@),
        },
    }
}

/// The items and the usage in the output of the script.
pub fn parse_docker_collection(output: &str) -> (res: Result<(String, String), String>)
    ensures
        match res {
            Ok((items, stats)) => collected(output@) == Ok::<(Seq<char>, Seq<char>), Seq<char>>(
                (items@, stats@),
            ),
            Err(error) => collected(output@) == Err::<(Seq<char>, Seq<char>), Seq<char>>(error@),
        },
{
    let start = match after_prefix(&chars_of(output), DOCKER_ITEMS_MARKER) {
        Some(rest) => after_prefix(&rest, "\n"),
        None => None,
    };
    match start {
        None => Err(copy("The container runtime returned an invalid resource response")),
        Some(items) => {
            let marker = glue3("\n", DOCKER_STATS_MARKER, "\n");
            match split_text(&items, marker.as_str()) {
                Some((items, stats)) => Ok((string_of(&items), string_of(&stats))),
                None => Err(
                    copy("The container runtime returned an incomplete resource response"),
                ),
            }
        },
    }
}

/// The containers of an output.
pub open spec fn containers_of(items: Seq<char>) -> Seq<ContainerInfoView> {
    items_of(items, |tree: Tree| container_in(tree))
}

/// Whether a page shows the things of its section.
pub open spec fn is_docker_page(
    page: DockerPage,
    runtime: Seq<char>,
    section: Seq<char>,
    items: Seq<char>,
    stats: Seq<char>,
    limit: usize,
) -> bool {
    let size = page_size(limit) as nat;
    let containers = containers_of(items);
    let images = items_of(items, |tree: Tree| image_in(tree));
    let volumes = items_of(items, |tree: Tree| volume_in(tree));
    let networks = items_of(items, |tree: Tree| network_in(tree));
    let usage = items_of(stats, |tree: Tree| stats_in(tree));
    &&& page.runtime@ == runtime && page.section@ == section
    &&& views(page.containers@) == if section == "containers"@ {
        at_most(containers, size).map_values(
            |container: ContainerInfoView| with_usage(container, usage),
        )
    } else {
        Seq::empty()
    }
    &&& views(page.images@) == if section == "images"@ {
        at_most(images, size)
    } else {
        Seq::empty()
    }
    &&& views(page.volumes@) == if section == "volumes"@ {
        at_most(volumes, size)
    } else {
        Seq::empty()
    }
    &&& views(page.networks@) == if section == "networks"@ {
        at_most(networks, size)
    } else {
        Seq::empty()
    }
    &&& page.has_more == if section == "containers"@ {
        containers.len() > size
    } else if section == "images"@ {
        images.len() > size
    } else if section == "volumes"@ {
        volumes.len() > size
    } else {
        section == "networks"@ && networks.len() > size
    }
}

/// The page of a section.
pub fn docker_snapshot(runtime: &str, section: &str, items: &str, stats: &str, limit: usize) -> (res:
    DockerPage)
    ensures
        is_docker_page(res, runtime@, section@, items@, stats@, limit),
{
    let limit = page_limit(limit);
    proof {
        reveal_strlit("containers");
        reveal_strlit("images");
        reveal_strlit("volumes");
        reveal_strlit("networks");
        assert("containers"@.len() == 10 && "images"@.len() == 6 && "volumes"@.len() == 7
            && "networks"@.len() == 8);
    }
    let mut res = DockerPage {
        runtime: copy(runtime),
        section: copy(section),
        containers: Vec::new(),
        images: Vec::new(),
        volumes: Vec::new(),
        networks: Vec::new(),
        has_more: false,
    };
    assert(views(res.containers@) =~= Seq::empty());
    assert(views(res.images@) =~= Seq::empty());
    assert(views(res.volumes@) =~= Seq::empty());
    assert(views(res.networks@) =~= Seq::empty());
    if same(section, "containers") {
        let shown = page(
            read_items(items, container_of, Ghost(|tree: Tree| container_in(tree))),
            limit,
        );
        let usage = read_items(stats, stats_of, Ghost(|tree: Tree| stats_in(tree)));
        res.containers = attach_usage(shown.items, usage.as_slice());
        res.has_more = shown.has_more;
    } else if same(section, "images") {
        let shown = page(read_items(items, image_of, Ghost(|tree: Tree| image_in(tree))), limit);
        res.images = shown.items;
        res.has_more = shown.has_more;
    } else if same(section, "volumes") {
        let shown = page(read_items(items, volume_of, Ghost(|tree: Tree| volume_in(tree))), limit);
        res.volumes = shown.items;
        res.has_more = shown.has_more;
    } else if same(section, "networks") {
        let shown = page(
            read_items(items, network_of, Ghost(|tree: Tree| network_in(tree))),
            limit,
        );
        res.networks = shown.items;
        res.has_more = shown.has_more;
    }
    res
}

// ---------------------------------------------------------------------------
// Actions
// ---------------------------------------------------------------------------

pub open spec fn is_docker_action(action: Seq<char>) -> bool {
    action == "start"@ || action == "stop"@ || action == "restart"@ || action == "pause"@ || action
        == "unpause"@ || action == "rm"@ || action == "rmi"@ || action == "volume-rm"@ || action
        == "network-rm"@ || action == "volume-create"@ || action == "network-create"@
}

/// What speaks against an action before the server is asked.
pub open spec fn docker_action_verdict(action: Seq<char>, target: Seq<char>) -> Result<
    (),
    Seq<char>,
> {
    if !is_docker_action(action) {
        Err("Unsupported Docker action"@)
    } else if trim(target).len() == 0 {
        Err("Choose a Docker resource first"@)
    } else {
        Ok(())
    }
}

pub fn check_docker_action(action: &str, target: &str) -> (res: Result<(), String>)
    ensures
        error_result(res) == docker_action_verdict(action@, target@),
{
    if !(same(action, "start") || same(action, "stop") || same(action, "restart") || same(
        action,
        "pause",
    ) || same(action, "unpause") || same(action, "rm") || same(action, "rmi") || same(
        action,
        "volume-rm",
    ) || same(action, "network-rm") || same(action, "volume-create") || same(
        action,
        "network-create",
    )) {
        return Err(copy("Unsupported Docker action"));
    }
    if trim_str(target).as_str().is_empty() {
        return Err(copy("Choose a Docker resource first"));
    }
    Ok(())
}

/// The words of the runtime for an action.
pub open spec fn action_words(action: Seq<char>) -> Seq<char> {
    if action == "volume-create"@ {
        "volume create"@
    } else if action == "network-create"@ {
        "network create"@
    } else if action == "volume-rm"@ {
        "volume rm"@
    } else if action == "network-rm"@ {
        "network rm"@
    } else if action == "rmi"@ {
        "image rm"@
    } else {
        action
    }
}

/// The command of an action.
pub open spec fn docker_action_text(runtime: Seq<char>, action: Seq<char>, target: Seq<char>) -> Seq<
    char,
> {
    runtime + " "@ + action_words(action) + " "@ + quoted(target)
}

pub fn docker_action(runtime: &str, action: &str, target: &str) -> (res: String)
    ensures
        res@ == docker_action_text(runtime@, action@, target@),
{
    let verb = if same(action, "volume-create") {
        "volume create"
    } else if same(action, "network-create") {
        "network create"
    } else if same(action, "volume-rm") {
        "volume rm"
    } else if same(action, "network-rm") {
        "network rm"
    } else if same(action, "rmi") {
        "image rm"
    } else {
        action
    };
    glue5(runtime, " ", verb, " ", quote_shell(target).as_str())
}

pub open spec fn inspect_verdict(target: Seq<char>, kind: Seq<char>) -> Result<(), Seq<char>> {
    if trim(target).len() == 0 {
        Err("Choose a Docker resource first"@)
    } else if kind == "container"@ || kind == "image"@ || kind == "volume"@ || kind == "network"@ {
        Ok(())
    } else {
        Err("Unsupported Docker resource"@)
    }
}

pub fn check_inspect(target: &str, kind: &str) -> (res: Result<(), String>)
    ensures
        error_result(res) == inspect_verdict(target@, kind@),
{
    if trim_str(target).as_str().is_empty() {
        return Err(copy("Choose a Docker resource first"));
    }
    if same(kind, "container") || same(kind, "image") || same(kind, "volume") || same(
        kind,
        "network",
    ) {
        Ok(())
    } else {
        Err(copy("Unsupported Docker resource"))
    }
}

pub open spec fn inspect_text(runtime: Seq<char>, target: Seq<char>, kind: Seq<char>) -> Seq<char> {
    if kind == "container"@ {
        runtime + " inspect "@ + quoted(target)
    } else {
        runtime + " "@ + kind + " inspect "@ + quoted(target)
    }
}

pub fn docker_inspect(runtime: &str, target: &str, kind: &str) -> (res: String)
    ensures
        res@ == inspect_text(runtime@, target@, kind@),
{
    if same(kind, "container") {
        glue3(runtime, " inspect ", quote_shell(target).as_str())
    } else {
        glue5(runtime, " ", kind, " inspect ", quote_shell(target).as_str())
    }
}

/// Whether a name was filled in.
pub open spec fn named_verdict(name: Seq<char>, error: Seq<char>) -> Result<(), Seq<char>> {
    if trim(name).len() == 0 {
        Err(error)
    } else {
        Ok(())
    }
}

pub fn check_image(image: &str) -> (res: Result<(), String>)
    ensures
        error_result(res) == named_verdict(image@, "Enter an image name"@),
{
    if trim_str(image).as_str().is_empty() {
        Err(copy("Enter an image name"))
    } else {
        Ok(())
    }
}

/// The command that fetches an image.
pub open spec fn pull_text(runtime: Seq<char>, image: Seq<char>) -> Seq<char> {
    runtime + " pull "@ + quoted(image)
}

/// The command that fetches an image.
pub fn docker_pull(runtime: &str, image: &str) -> (res: String)
    ensures
        res@ == pull_text(runtime@, image@),
{
    glue3(runtime, " pull ", quote_shell(image).as_str())
}

// ---------------------------------------------------------------------------
// New containers
// ---------------------------------------------------------------------------

pub open spec fn is_restart_policy(policy: Seq<char>) -> bool {
    policy == "no"@ || policy == "always"@ || policy == "unless-stopped"@ || policy == "on-failure"@
}

pub open spec fn restart_text(policy: Option<Seq<char>>) -> Seq<char> {
    match policy {
        Some(policy) => if is_restart_policy(policy) {
            " --restart "@ + quoted(policy)
        } else {
            Seq::empty()
        },
        None => Seq::empty(),
    }
}

/// A flag for each value that is not blank.
pub open spec fn flags_text(flag: Seq<char>, values: Seq<Seq<char>>) -> Seq<char>
    decreases values.len(),
{
    if values.len() == 0 {
        Seq::empty()
    } else {
        flags_text(flag, values.drop_last()) + flag_text(flag, Some(values.last()))
    }
}

/// The command that makes a container and runs it.
pub open spec fn create_text(runtime: Seq<char>, input: DockerCreateInputView) -> Seq<char> {
    runtime + " run"@ + (if input.detached {
        " -d"@
    } else {
        Seq::empty()
    }) + (if input.remove_on_exit {
        " --rm"@
    } else {
        Seq::empty()
    }) + flag_text(" --name "@, input.name) + restart_text(input.restart_policy) + flag_text(
        " --memory "@,
        input.memory_limit,
    ) + flag_text(" --cpus "@, input.cpu_limit) + flags_text(" -p "@, input.ports) + flags_text(
        " -e "@,
        input.environment,
    ) + flags_text(" -v "@, input.volumes) + flags_text(" --network "@, input.networks) + " "@
        + quoted(input.image) + flag_text(" sh -lc "@, input.command)
}

fn one_flag(flag: &str, value: &Option<String>) -> (res: String)
    ensures
        res@ == flag_text(flag@, opt_view(*value)),
{
    match value {
        Some(text) => if trim_str(text.as_str()).as_str().is_empty() {
            String::new()
        } else {
            glue2(flag, quote_shell(text.as_str()).as_str())
        },
        None => String::new(),
    }
}

fn all_flags(flag: &str, values: &[String]) -> (res: String)
    ensures
        res@ == flags_text(flag@, views(values@)),
{
    let ghost all = views(values@);
    let mut out = String::new();
    let mut i: usize = 0;
    assert(all.take(0) =~= Seq::empty());
    while i < values.len()
        invariant
            i <= values@.len(),
            all == views(values@),
            out@ == flags_text(flag@, all.take(i as int)),
        decreases values@.len() - i,
    {
        assert(all.take(i + 1).drop_last() =~= all.take(i as int));
        assert(all.take(i + 1).last() == values@[i as int]@);
        let ghost before = out@;
        if !trim_str(values[i].as_str()).as_str().is_empty() {
            out.append(glue2(flag, quote_shell(values[i].as_str()).as_str()).as_str());
        } else {
            assert(before =~= before + Seq::<char>::empty());
        }
        i += 1;
    }
    assert(all.take(values@.len() as int) =~= all);
    out
}

fn restart_flag(policy: &Option<String>) -> (res: String)
    ensures
        res@ == restart_text(opt_view(*policy)),
{
    match policy {
        Some(policy) => {
            let p = policy.as_str();
            if same(p, "no") || same(p, "always") || same(p, "unless-stopped") || same(
                p,
                "on-failure",
            ) {
                glue2(" --restart ", quote_shell(p).as_str())
            } else {
                String::new()
            }
        },
        None => String::new(),
    }
}

pub fn check_create(input: &DockerCreateInput) -> (res: Result<(), String>)
    ensures
        error_result(res) == named_verdict(input@.image, "Enter a Docker image"@),
{
    if trim_str(input.image.as_str()).as_str().is_empty() {
        Err(copy("Enter a Docker image"))
    } else {
        Ok(())
    }
}

/// The command that makes a container and runs it.
pub fn docker_create(runtime: &str, input: &DockerCreateInput) -> (res: String)
    ensures
        res@ == create_text(runtime@, input@),
{
    let mut out = glue2(runtime, " run");
    out.append(
        if input.detached {
            " -d"
        } else {
            ""
        },
    );
    out.append(
        if input.remove_on_exit {
            " --rm"
        } else {
            ""
        },
    );
    proof {
        reveal_strlit("");
        assert(""@ =~= Seq::empty());
    }
    out.append(one_flag(" --name ", &input.name).as_str());
    out.append(restart_flag(&input.restart_policy).as_str());
    out.append(one_flag(" --memory ", &input.memory_limit).as_str());
    out.append(one_flag(" --cpus ", &input.cpu_limit).as_str());
    out.append(all_flags(" -p ", input.ports.as_slice()).as_str());
    out.append(all_flags(" -e ", input.environment.as_slice()).as_str());
    out.append(all_flags(" -v ", input.volumes.as_slice()).as_str());
    out.append(all_flags(" --network ", input.networks.as_slice()).as_str());
    out.append(" ");
    out.append(quote_shell(input.image.as_str()).as_str());
    out.append(one_flag(" sh -lc ", &input.command).as_str());
    out
}

// ---------------------------------------------------------------------------
// Outcomes
// ---------------------------------------------------------------------------

/// What a command that was first tried without root rights comes to.
#[derive(Debug, PartialEq, Eq)]
pub enum RunOutcome {
    Done(String),
    /// The command lacked rights: it is run again with them.
    NeedsRoot,
    Failed(String),
}

#[verifier::ext_equal]
pub enum RunOutcomeView {
    Done(Seq<char>),
    NeedsRoot,
    Failed(Seq<char>),
}

impl View for RunOutcome {
    type V = RunOutcomeView;

    open spec fn view(&self) -> RunOutcomeView {
        match *self {
            RunOutcome::Done(text) => RunOutcomeView::Done(text@),
            RunOutcome::NeedsRoot => RunOutcomeView::NeedsRoot,
            RunOutcome::Failed(error) => RunOutcomeView::Failed(error@),
        }
    }
}

pub open spec fn lacks_rights(output: ExecOutput) -> bool {
    names_permission(output.stderr@ + "\n"@ + output.stdout@)
}

pub open spec fn pull_result(output: ExecOutput) -> RunOutcomeView {
    if output.exit_code == 0 {
        RunOutcomeView::Done(output.stdout@)
    } else if lacks_rights(output) {
        RunOutcomeView::NeedsRoot
    } else {
        RunOutcomeView::Failed(failure_text(output))
    }
}

/// What a command comes to whose output is taken as it is, such as one that fetches an
/// image.
pub fn pull_outcome(output: ExecOutput) -> (res: RunOutcome)
    ensures
        res@ == pull_result(output),
{
    if output.exit_code == 0 {
        RunOutcome::Done(output.stdout)
    } else if is_permission_error(&output) {
        RunOutcome::NeedsRoot
    } else {
        RunOutcome::Failed(command_error(&output))
    }
}

/// What making a container comes to. A container whose command could not be found may have
/// no shell.
pub open spec fn create_result(input: DockerCreateInputView, output: ExecOutput) -> RunOutcomeView {
    if output.exit_code == 0 {
        RunOutcomeView::Done(trim(output.stdout@))
    } else if lacks_rights(output) {
        RunOutcomeView::NeedsRoot
    } else if output.exit_code == 127 && (match input.command {
        Some(command) => trim(command).len() > 0,
        None => false,
    }) {
        RunOutcomeView::Failed(
            "The image could not run the requested command through sh (exit status 127). It may be a shell-less/distroless image. Runtime detail: "@
                + failure_text(output),
        )
    } else {
        RunOutcomeView::Failed(failure_text(output))
    }
}

pub fn create_outcome(input: &DockerCreateInput, output: &ExecOutput) -> (res: RunOutcome)
    ensures
        res@ == create_result(input@, *output),
{
    if output.exit_code == 0 {
        return RunOutcome::Done(trim_str(output.stdout.as_str()));
    }
    if is_permission_error(output) {
        return RunOutcome::NeedsRoot;
    }
    let error = command_error(output);
    let asked = match &input.command {
        Some(command) => !trim_str(command.as_str()).as_str().is_empty(),
        None => false,
    };
    if output.exit_code == 127 && asked {
        RunOutcome::Failed(
            glue2(
                "The image could not run the requested command through sh (exit status 127). It may be a shell-less/distroless image. Runtime detail: ",
                error.as_str(),
            ),
        )
    } else {
        RunOutcome::Failed(error)
    }
}

/// What a command for logs comes to. The output is bounded.
pub open spec fn log_result(output: ExecOutput) -> RunOutcomeView {
    if output.exit_code == 0 {
        RunOutcomeView::Done(crate::ssh::bounded(output.stdout@))
    } else if lacks_rights(output) {
        RunOutcomeView::NeedsRoot
    } else {
        RunOutcomeView::Failed(failure_text(output))
    }
}

pub fn log_outcome(output: ExecOutput) -> (res: RunOutcome)
    ensures
        res@ == log_result(output),
{
    if output.exit_code == 0 {
        RunOutcome::Done(crate::ssh::bounded_output(output.stdout))
    } else if is_permission_error(&output) {
        RunOutcome::NeedsRoot
    } else {
        RunOutcome::Failed(command_error(&output))
    }
}

/// A size is a number and its unit: powers of 1024 with an `i`, powers of 1000 without.
pub proof fn sizes_read_back(number: Seq<char>, unit: Seq<char>, multiplier: u64)
    requires
        number.len() > 0,
        forall|i: int| 0 <= i < number.len() ==> is_digit(#[trigger] number[i]) || number[i] == '.',
        (unit == "tib"@ && multiplier == 1_099_511_627_776) || (unit == "tb"@ && multiplier == 1_000_000_000_000) || (unit == "gib"@ && multiplier == 1_073_741_824) || (unit == "gb"@ && multiplier == 1_000_000_000) || (unit == "mib"@ && multiplier == 1_048_576) || (unit == "mb"@ && multiplier == 1_000_000) || (unit == "kib"@ && multiplier == 1_024) || (unit == "kb"@ && multiplier == 1_000) || (unit == "b"@ && multiplier == 1),
    ensures
        human_size(number + unit) == (SizeTextView { number, multiplier }),
{
    let s = number + unit;
    reveal_strlit("tib");
    reveal_strlit("tb");
    reveal_strlit("gib");
    reveal_strlit("gb");
    reveal_strlit("mib");
    reveal_strlit("mb");
    reveal_strlit("kib");
    reveal_strlit("kb");
    reveal_strlit("b");
    assert("tib"@.len() == 3 && "tib"@[0] == 't' && "tib"@[1] == 'i' && "tib"@[2] == 'b');
    assert("tb"@.len() == 2 && "tb"@[0] == 't' && "tb"@[1] == 'b');
    assert("gib"@.len() == 3 && "gib"@[0] == 'g' && "gib"@[1] == 'i' && "gib"@[2] == 'b');
    assert("gb"@.len() == 2 && "gb"@[0] == 'g' && "gb"@[1] == 'b');
    assert("mib"@.len() == 3 && "mib"@[0] == 'm' && "mib"@[1] == 'i' && "mib"@[2] == 'b');
    assert("mb"@.len() == 2 && "mb"@[0] == 'm' && "mb"@[1] == 'b');
    assert("kib"@.len() == 3 && "kib"@[0] == 'k' && "kib"@[1] == 'i' && "kib"@[2] == 'b');
    assert("kb"@.len() == 2 && "kb"@[0] == 'k' && "kb"@[1] == 'b');
    assert("b"@.len() == 1 && "b"@[0] == 'b');
    assert forall|i: int| 0 <= i < s.len() implies !is_space(#[trigger] s[i]) && lower_char(s[i])
        == s[i] by {
        if i < number.len() {
            assert(s[i] == number[i]);
        } else {
            assert(s[i] == unit[i - number.len()]);
        }
    }
    let none = Seq::<char>::empty();
    assert(none + s + none =~= s);
    trimming_takes_off_spaces(none, s, none);
    reveal_strlit(" ");
    assert(find_text(s, " "@) is None) by {
        lemma_find_from(s, " "@, 0);
        if find_text(s, " "@) is Some {
            let k = find_text(s, " "@)->0;
            assert(s.subrange(k, k + 1)[0] == s[k]);
        }
    }
    assert(lower(s) =~= s);
    if unit == "tib"@ {
        assert(s.skip(s.len() - 3) =~= "tib"@);
        assert(s.take(s.len() - 3) =~= number);
    }
    if unit == "tb"@ {
        lemma_other_unit(number, "tb"@, "tib"@);
        assert(s.skip(s.len() - 2) =~= "tb"@);
        assert(s.take(s.len() - 2) =~= number);
    }
    if unit == "gib"@ {
        lemma_other_unit(number, "gib"@, "tib"@);
        lemma_other_unit(number, "gib"@, "tb"@);
        assert(s.skip(s.len() - 3) =~= "gib"@);
        assert(s.take(s.len() - 3) =~= number);
    }
    if unit == "gb"@ {
        lemma_other_unit(number, "gb"@, "tib"@);
        lemma_other_unit(number, "gb"@, "tb"@);
        lemma_other_unit(number, "gb"@, "gib"@);
        assert(s.skip(s.len() - 2) =~= "gb"@);
        assert(s.take(s.len() - 2) =~= number);
    }
    if unit == "mib"@ {
        lemma_other_unit(number, "mib"@, "tib"@);
        lemma_other_unit(number, "mib"@, "tb"@);
        lemma_other_unit(number, "mib"@, "gib"@);
        lemma_other_unit(number, "mib"@, "gb"@);
        assert(s.skip(s.len() - 3) =~= "mib"@);
        assert(s.take(s.len() - 3) =~= number);
    }
    if unit == "mb"@ {
        lemma_other_unit(number, "mb"@, "tib"@);
        lemma_other_unit(number, "mb"@, "tb"@);
        lemma_other_unit(number, "mb"@, "gib"@);
        lemma_other_unit(number, "mb"@, "gb"@);
        lemma_other_unit(number, "mb"@, "mib"@);
        assert(s.skip(s.len() - 2) =~= "mb"@);
        assert(s.take(s.len() - 2) =~= number);
    }
    if unit == "kib"@ {
        lemma_other_unit(number, "kib"@, "tib"@);
        lemma_other_unit(number, "kib"@, "tb"@);
        lemma_other_unit(number, "kib"@, "gib"@);
        lemma_other_unit(number, "kib"@, "gb"@);
        lemma_other_unit(number, "kib"@, "mib"@);
        lemma_other_unit(number, "kib"@, "mb"@);
        assert(s.skip(s.len() - 3) =~= "kib"@);
        assert(s.take(s.len() - 3) =~= number);
    }
    if unit == "kb"@ {
        lemma_other_unit(number, "kb"@, "tib"@);
        lemma_other_unit(number, "kb"@, "tb"@);
        lemma_other_unit(number, "kb"@, "gib"@);
        lemma_other_unit(number, "kb"@, "gb"@);
        lemma_other_unit(number, "kb"@, "mib"@);
        lemma_other_unit(number, "kb"@, "mb"@);
        lemma_other_unit(number, "kb"@, "kib"@);
        assert(s.skip(s.len() - 2) =~= "kb"@);
        assert(s.take(s.len() - 2) =~= number);
    }
    if unit == "b"@ {
        lemma_other_unit(number, "b"@, "tib"@);
        lemma_other_unit(number, "b"@, "tb"@);
        lemma_other_unit(number, "b"@, "gib"@);
        lemma_other_unit(number, "b"@, "gb"@);
        lemma_other_unit(number, "b"@, "mib"@);
        lemma_other_unit(number, "b"@, "mb"@);
        lemma_other_unit(number, "b"@, "kib"@);
        lemma_other_unit(number, "b"@, "kb"@);
        assert(s.skip(s.len() - 1) =~= "b"@);
        assert(s.take(s.len() - 1) =~= number);
    }
}

proof fn lemma_other_unit(number: Seq<char>, unit: Seq<char>, other: Seq<char>)
    requires
        number.len() > 0,
        is_digit(number.last()) || number.last() == '.',
        1 <= unit.len() <= 3,
        unit.len() <= other.len() <= unit.len() + 2 || other.len() < unit.len(),
        other.len() >= 1,
        other.len() == unit.len() ==> other[0] != unit[0],
        other.len() < unit.len() ==> exists|i: int|
            0 <= i < other.len() && #[trigger] other[i] != unit[i + unit.len() - other.len()],
        other.len() > unit.len() ==> {
            let c = other[other.len() - unit.len() - 1];
            !is_digit(c) && c != '.'
        },
    ensures
        strip_suffix(number + unit, other) is None,
{
    let s = number + unit;
    if ends_with(s, other) {
        let tail = s.skip(s.len() - other.len());
        if other.len() > unit.len() {
            let k = other.len() - unit.len() - 1;
            assert(tail[k] == s[number.len() - 1]);
        } else if other.len() == unit.len() {
            assert(tail[0] == s[number.len() as int]);
        } else {
            let i = choose|i: int|
                0 <= i < other.len() && #[trigger] other[i] != unit[i + unit.len() - other.len()];
            assert(tail[i] == s[s.len() - other.len() + i]);
        }
    }
}

/// Each action runs its own command of the runtime on the one resource that was named, as
/// one word, and takes no option that removes more.
pub proof fn resources_are_acted_on_by_name(runtime: Seq<char>, action: Seq<char>, target: Seq<char>)
    ensures
        action == "start"@ || action == "stop"@ || action == "restart"@ || action == "pause"@
            || action == "unpause"@ || action == "rm"@ ==> docker_action_text(
            runtime,
            action,
            target,
        ) == runtime + " "@ + action + " "@ + quoted(target),
        docker_action_text(runtime, "rmi"@, target) == runtime + " "@ + "image rm"@ + " "@ + quoted(
            target,
        ),
        docker_action_text(runtime, "volume-rm"@, target) == runtime + " "@ + "volume rm"@ + " "@
            + quoted(target),
        docker_action_text(runtime, "network-rm"@, target) == runtime + " "@ + "network rm"@ + " "@
            + quoted(target),
        docker_action_text(runtime, "volume-create"@, target) == runtime + " "@ + "volume create"@
            + " "@ + quoted(target),
        docker_action_text(runtime, "network-create"@, target) == runtime + " "@
            + "network create"@ + " "@ + quoted(target),
        docker_action_verdict(action, target) is Ok <==> trim(target).len() > 0 && (action
            == "start"@ || action == "stop"@ || action == "restart"@ || action == "pause"@ || action
            == "unpause"@ || action == "rm"@ || action == "rmi"@ || action == "volume-rm"@ || action
            == "network-rm"@ || action == "volume-create"@ || action == "network-create"@),
        pull_text(runtime, target) == runtime + " pull "@ + quoted(target),
{
    reveal_strlit("start");
    reveal_strlit("stop");
    reveal_strlit("restart");
    reveal_strlit("pause");
    reveal_strlit("unpause");
    reveal_strlit("rm");
    reveal_strlit("rmi");
    reveal_strlit("volume-rm");
    reveal_strlit("network-rm");
    reveal_strlit("volume-create");
    reveal_strlit("network-create");
    assert("start"@.len() == 5);
    assert("stop"@.len() == 4);
    assert("restart"@.len() == 7);
    assert("pause"@.len() == 5);
    assert("unpause"@.len() == 7);
    assert("rm"@.len() == 2);
    assert("rmi"@.len() == 3);
    assert("volume-rm"@.len() == 9);
    assert("network-rm"@.len() == 10);
    assert("volume-create"@.len() == 13);
    assert("network-create"@.len() == 14);
    assert("start"@[0] == 's');
    assert("pause"@[0] == 'p');
    assert("restart"@[0] == 'r');
    assert("unpause"@[0] == 'u');
}

/// A resource is looked at by its kind and its name.
pub proof fn resources_are_inspected_by_name(runtime: Seq<char>, target: Seq<char>, kind: Seq<char>)
    ensures
        inspect_text(runtime, target, "container"@) == runtime + " inspect "@ + quoted(target),
        kind == "image"@ || kind == "volume"@ || kind == "network"@ ==> inspect_text(
            runtime,
            target,
            kind,
        ) == runtime + " "@ + kind + " inspect "@ + quoted(target),
        inspect_verdict(target, kind) is Ok <==> trim(target).len() > 0 && (kind == "container"@
            || kind == "image"@ || kind == "volume"@ || kind == "network"@),
{
    reveal_strlit("container");
    reveal_strlit("image");
    reveal_strlit("volume");
    reveal_strlit("network");
    assert("container"@.len() == 9);
    assert("image"@.len() == 5);
    assert("volume"@.len() == 6);
    assert("network"@.len() == 7);
}

/// A new container is made from the image that was asked for, as the last thing before its
/// command; and it gets what was filled in and nothing else.
pub proof fn new_containers_get_what_was_asked_for(runtime: Seq<char>, input: DockerCreateInputView)
    ensures
        input.name is None && input.restart_policy is None && input.memory_limit is None
            && input.cpu_limit is None && input.ports.len() == 0 && input.environment.len() == 0
            && input.volumes.len() == 0 && input.networks.len() == 0 && input.command is None
            ==> create_text(runtime, input) == runtime + " run"@ + (if input.detached {
            " -d"@
        } else {
            Seq::empty()
        }) + (if input.remove_on_exit {
            " --rm"@
        } else {
            Seq::empty()
        }) + " "@ + quoted(input.image),
        starts_with(create_text(runtime, input), runtime + " run"@),
        input.command is None ==> ends_with(create_text(runtime, input), " "@ + quoted(input.image)),
        input.command matches Some(command) ==> trim(command).len() > 0 ==> ends_with(
            create_text(runtime, input),
            " "@ + quoted(input.image) + " sh -lc "@ + quoted(command),
        ),
{
    let none = Seq::<char>::empty();
    let text = create_text(runtime, input);
    let i = head_text(runtime, input, 10);
    let image = " "@ + quoted(input.image);
    let tail = flag_text(" sh -lc "@, input.command);
    lemma_heads(runtime, input);
    lemma_glued(i, " "@, quoted(input.image), tail);
    assert(text.skip(i.len() as int) =~= image + tail);
    assert(image + none =~= image);
    if input.name is None && input.restart_policy is None && input.memory_limit is None
        && input.cpu_limit is None && input.ports.len() == 0 && input.environment.len() == 0
        && input.volumes.len() == 0 && input.networks.len() == 0 && input.command is None {
        let begin = head_text(runtime, input, 2);
        assert(begin + none =~= begin);
        reveal_with_fuel(head_text, 11);
        assert(i == begin);
        assert(begin + " "@ + quoted(input.image) + none =~= begin + " "@ + quoted(input.image));
    }
    if let Some(command) = input.command {
        if trim(command).len() > 0 {
            lemma_glued(" "@, quoted(input.image), " sh -lc "@, quoted(command));
            assert(image + (" sh -lc "@ + quoted(command)) =~= " "@ + quoted(input.image)
                + " sh -lc "@ + quoted(command));
        }
    }
}

proof fn lemma_glued(a: Seq<char>, b: Seq<char>, c: Seq<char>, d: Seq<char>)
    ensures
        a + b + c + d == a + (b + c + d),
        (a + b + c + d).skip(a.len() as int) == b + c + d,
        starts_with(a + b + c + d, a),
{
    assert(a + b + c + d =~= a + (b + c + d));
    assert((a + b + c + d).skip(a.len() as int) =~= b + c + d);
    assert((a + b + c + d).take(a.len() as int) =~= a);
}

/// The command up to one of its parts.
spec fn head_text(runtime: Seq<char>, input: DockerCreateInputView, parts: nat) -> Seq<char>
    decreases parts,
{
    if parts == 0 {
        runtime + " run"@
    } else {
        head_text(runtime, input, (parts - 1) as nat) + part_text(input, parts)
    }
}

spec fn part_text(input: DockerCreateInputView, part: nat) -> Seq<char> {
    if part == 1 {
        if input.detached {
            " -d"@
        } else {
            Seq::empty()
        }
    } else if part == 2 {
        if input.remove_on_exit {
            " --rm"@
        } else {
            Seq::empty()
        }
    } else if part == 3 {
        flag_text(" --name "@, input.name)
    } else if part == 4 {
        restart_text(input.restart_policy)
    } else if part == 5 {
        flag_text(" --memory "@, input.memory_limit)
    } else if part == 6 {
        flag_text(" --cpus "@, input.cpu_limit)
    } else if part == 7 {
        flags_text(" -p "@, input.ports)
    } else if part == 8 {
        flags_text(" -e "@, input.environment)
    } else if part == 9 {
        flags_text(" -v "@, input.volumes)
    } else {
        flags_text(" --network "@, input.networks)
    }
}

proof fn lemma_heads(runtime: Seq<char>, input: DockerCreateInputView)
    ensures
        create_text(runtime, input) == head_text(runtime, input, 10) + " "@ + quoted(input.image)
            + flag_text(" sh -lc "@, input.command),
        forall|n: nat| n <= 10 ==> starts_with(create_text(runtime, input), #[trigger] head_text(runtime, input, n)),
        starts_with(create_text(runtime, input), runtime + " run"@),
{
    reveal_with_fuel(head_text, 11);
    let all = create_text(runtime, input);
    lemma_glued(
        head_text(runtime, input, 10),
        " "@,
        quoted(input.image),
        flag_text(" sh -lc "@, input.command),
    );
    assert forall|n: nat| n <= 10 implies starts_with(all, #[trigger] head_text(runtime, input, n)) by {
        lemma_head(runtime, input, n, all);
    }
    assert(starts_with(all, head_text(runtime, input, 0)));
}

proof fn lemma_head(runtime: Seq<char>, input: DockerCreateInputView, n: nat, all: Seq<char>)
    requires
        n <= 10,
        starts_with(all, head_text(runtime, input, 10)),
    ensures
        starts_with(all, head_text(runtime, input, n)),
    decreases 10 - n,
{
    if n < 10 {
        lemma_head(runtime, input, n + 1, all);
        let x = head_text(runtime, input, n);
        let y = head_text(runtime, input, n + 1);
        assert(y == x + part_text(input, n + 1));
        assert(all.take(x.len() as int) =~= all.take(y.len() as int).take(x.len() as int));
        assert(y.take(x.len() as int) =~= x);
    }
}

/// What is filled in stands in the command behind the flag that is its own, one flag for
/// each value, as one word; blanks are left out.
pub proof fn each_setting_has_its_flag(
    runtime: Seq<char>,
    input: DockerCreateInputView,
    value: Seq<char>,
)
    requires
        trim(value).len() > 0,
    ensures
        input.name == Some(value) ==> contains_text(
            create_text(runtime, input),
            " --name "@ + quoted(value),
        ),
        input.memory_limit == Some(value) ==> contains_text(
            create_text(runtime, input),
            " --memory "@ + quoted(value),
        ),
        input.cpu_limit == Some(value) ==> contains_text(
            create_text(runtime, input),
            " --cpus "@ + quoted(value),
        ),
        input.ports.contains(value) ==> contains_text(
            create_text(runtime, input),
            " -p "@ + quoted(value),
        ),
        input.environment.contains(value) ==> contains_text(
            create_text(runtime, input),
            " -e "@ + quoted(value),
        ),
        input.volumes.contains(value) ==> contains_text(
            create_text(runtime, input),
            " -v "@ + quoted(value),
        ),
        input.networks.contains(value) ==> contains_text(
            create_text(runtime, input),
            " --network "@ + quoted(value),
        ),
        input.restart_policy == Some(value) && (value == "no"@ || value == "always"@ || value
            == "unless-stopped"@ || value == "on-failure"@) ==> contains_text(
            create_text(runtime, input),
            " --restart "@ + quoted(value),
        ),
{
    let all = create_text(runtime, input);
    lemma_heads(runtime, input);
    lemma_part(runtime, input, 3);
    lemma_part(runtime, input, 4);
    lemma_part(runtime, input, 5);
    lemma_part(runtime, input, 6);
    if input.ports.contains(value) {
        lemma_flag_stands(" -p "@, input.ports, value);
        lemma_part(runtime, input, 7);
        lemma_stands_within(all, part_text(input, 7), " -p "@ + quoted(value));
    }
    if input.environment.contains(value) {
        lemma_flag_stands(" -e "@, input.environment, value);
        lemma_part(runtime, input, 8);
        lemma_stands_within(all, part_text(input, 8), " -e "@ + quoted(value));
    }
    if input.volumes.contains(value) {
        lemma_flag_stands(" -v "@, input.volumes, value);
        lemma_part(runtime, input, 9);
        lemma_stands_within(all, part_text(input, 9), " -v "@ + quoted(value));
    }
    if input.networks.contains(value) {
        lemma_flag_stands(" --network "@, input.networks, value);
        lemma_part(runtime, input, 10);
        lemma_stands_within(all, part_text(input, 10), " --network "@ + quoted(value));
    }
}

proof fn lemma_part(runtime: Seq<char>, input: DockerCreateInputView, n: nat)
    requires
        1 <= n <= 10,
    ensures
        contains_text(create_text(runtime, input), part_text(input, n)),
{
    let all = create_text(runtime, input);
    let before = head_text(runtime, input, (n - 1) as nat);
    let part = part_text(input, n);
    lemma_heads(runtime, input);
    assert(head_text(runtime, input, n) == before + part);
    lemma_within(before, part, all);
}

proof fn lemma_within(before: Seq<char>, part: Seq<char>, all: Seq<char>)
    requires
        starts_with(all, before + part),
    ensures
        contains_text(all, part),
{
    let k = before.len() as int;
    let both = before + part;
    assert(all.subrange(k, k + part.len()) =~= all.take(both.len() as int).skip(k));
    assert(both.skip(k) =~= part);
    assert(matches_at(all, part, k));
}

proof fn lemma_stands_within(all: Seq<char>, part: Seq<char>, word: Seq<char>)
    requires
        contains_text(all, part),
        contains_text(part, word),
    ensures
        contains_text(all, word),
{
    let at = choose|at: int| matches_at(part, word, at);
    let k = choose|k: int| matches_at(all, part, k);
    assert(all.subrange(k + at, k + at + word.len()) =~= all.subrange(k, k + part.len()).subrange(
        at,
        at + word.len(),
    ));
    assert(matches_at(all, word, k + at));
}

proof fn lemma_flag_stands(flag: Seq<char>, values: Seq<Seq<char>>, value: Seq<char>)
    requires
        values.contains(value),
        trim(value).len() > 0,
    ensures
        contains_text(flags_text(flag, values), flag + quoted(value)),
    decreases values.len(),
{
    let all = flags_text(flag, values);
    let before = flags_text(flag, values.drop_last());
    let word = flag + quoted(value);
    if values.last() == value {
        assert(all =~= before + word);
        assert(all.take(all.len() as int) =~= all);
        lemma_within(before, word, all);
    } else {
        let k = choose|k: int| 0 <= k < values.len() && values[k] == value;
        assert(values.drop_last()[k] == value);
        lemma_flag_stands(flag, values.drop_last(), value);
        let none = Seq::<char>::empty();
        assert(none + before =~= before);
        assert(all.take(before.len() as int) =~= before);
        lemma_within(none, before, all);
        lemma_stands_within(all, before, word);
    }
}

/// A run counts as done where it succeeded, and then gives what was printed; one that lacks
/// rights is run again as root; of any other the error is told.
pub proof fn runs_are_judged_alike(input: DockerCreateInputView, output: ExecOutput)
    ensures
        output.exit_code == 0 ==> pull_result(output) == RunOutcomeView::Done(output.stdout@)
            && create_result(input, output) == RunOutcomeView::Done(trim(output.stdout@))
            && log_result(output) is Done,
        output.exit_code != 0 ==> pull_result(output) !is Done && create_result(input, output)
            !is Done && log_result(output) !is Done,
        output.exit_code != 0 && names_permission(output.stderr@ + "\n"@ + output.stdout@)
            ==> pull_result(output) is NeedsRoot && create_result(input, output) is NeedsRoot
            && log_result(output) is NeedsRoot,
        output.exit_code != 0 && !names_permission(output.stderr@ + "\n"@ + output.stdout@)
            ==> pull_result(output) == RunOutcomeView::Failed(failure_text(output)) && log_result(
            output,
        ) == RunOutcomeView::Failed(failure_text(output)) && (create_result(input, output) matches
            RunOutcomeView::Failed(error) && ends_with(error, failure_text(output))),
{
    let note = "The image could not run the requested command through sh (exit status 127). It may be a shell-less/distroless image. Runtime detail: "@;
    let why = failure_text(output);
    assert((note + why).skip(note.len() as int) =~= why);
    assert(why.skip(0) =~= why);
}

/// What the runtime prints of a resource is shown under its own name.
pub proof fn resources_read_back(tree: Tree, text: Seq<char>)
    ensures
        text_field(tree, "ID"@) == Some(text) ==> container_in(tree).id == text && image_in(tree).id
            == text && network_in(tree).id == text && stats_in(tree).id == text,
        text_field(tree, "ID"@) is None && text_field(tree, "Id"@) == Some(text) ==> container_in(
            tree,
        ).id == text && image_in(tree).id == text && network_in(tree).id == text && stats_in(
            tree,
        ).id == text,
        text_field(tree, "Names"@) == Some(text) ==> container_in(tree).name == text,
        text_field(tree, "Image"@) == Some(text) ==> container_in(tree).image == text,
        text_field(tree, "State"@) == Some(text) ==> container_in(tree).state == text,
        text_field(tree, "Status"@) == Some(text) ==> container_in(tree).status == text,
        text_field(tree, "Ports"@) == Some(text) ==> container_in(tree).ports == text,
        text_field(tree, "Repository"@) == Some(text) ==> image_in(tree).repository == text,
        text_field(tree, "Tag"@) == Some(text) ==> image_in(tree).tag == text,
        text_field(tree, "Size"@) == Some(text) ==> image_in(tree).size == text,
        text_field(tree, "CreatedSince"@) == Some(text) ==> image_in(tree).created == text,
        text_field(tree, "Name"@) == Some(text) ==> volume_in(tree).name == text && network_in(
            tree,
        ).name == text && stats_in(tree).name == text,
        text_field(tree, "Driver"@) == Some(text) ==> volume_in(tree).driver == text && network_in(
            tree,
        ).driver == text,
        text_field(tree, "Scope"@) == Some(text) ==> network_in(tree).scope == text,
        text_field(tree, "MemUsage"@) == Some(text) ==> stats_in(tree).usage.memory_usage
            == first_size(text) && stats_in(tree).usage.memory_limit == second_size(text),
        text_field(tree, "NetIO"@) == Some(text) ==> stats_in(tree).usage.network_rx == first_size(
            text,
        ) && stats_in(tree).usage.network_tx == second_size(text),
        text_field(tree, "BlockIO"@) == Some(text) ==> stats_in(tree).usage.block_read
            == first_size(text) && stats_in(tree).usage.block_write == second_size(text),
        text_field(tree, "CPUPerc"@) == Some(text) ==> stats_in(tree).usage.cpu_percent
            == percent_text(text),
        text_field(tree, "MemPerc"@) == Some(text) ==> stats_in(tree).usage.memory_percent
            == percent_text(text),
{
}

/// A pair of sizes is read as the one before the slash and the one behind it.
pub proof fn size_pairs_read_back(first: Seq<char>, second: Seq<char>)
    requires
        !first.contains('/'),
        !second.contains('/'),
    ensures
        first_size(join(seq![first, second], seq!['/'])) == human_size(first),
        second_size(join(seq![first, second], seq!['/'])) == Some(human_size(second)),
        second_size(first) is None,
{
    joined_parts_read_back(seq![first, second], '/');
    joined_parts_read_back(seq![first], '/');
    assert(join(seq![first], seq!['/']) == first);
}

/// The usage of a container is that of its id or its name, and of no other container.
pub proof fn usage_belongs_to_its_container(
    container: ContainerInfoView,
    stats: Seq<ContainerStatsView>,
)
    ensures
        with_usage(container, stats) == (ContainerInfoView {
            usage: with_usage(container, stats).usage,
            ..container
        }),
        with_usage(container, stats).usage matches Some(usage) ==> exists|i: int|
            0 <= i < stats.len() && (#[trigger] stats[i]).usage == usage && (stats[i].id
                == container.id || stats[i].name == container.name),
        with_usage(container, stats).usage is None ==> forall|i: int|
            0 <= i < stats.len() ==> (#[trigger] stats[i]).id != container.id && stats[i].name
                != container.name,
    decreases stats.len(),
{
    if stats.len() > 0 && !(stats[0].id == container.id || stats[0].name == container.name) {
        let rest = stats.skip(1);
        usage_belongs_to_its_container(container, rest);
        if let Some(usage) = with_usage(container, stats).usage {
            let i = choose|i: int|
                0 <= i < rest.len() && (#[trigger] rest[i]).usage == usage && (rest[i].id
                    == container.id || rest[i].name == container.name);
            assert(stats[i + 1] == rest[i]);
        } else {
            assert forall|i: int| 0 <= i < stats.len() implies (#[trigger] stats[i]).id
                != container.id && stats[i].name != container.name by {
                if i > 0 {
                    assert(rest[i - 1] == stats[i]);
                }
            }
        }
    } else if stats.len() > 0 {
        assert(stats[0].usage == stats[0].usage);
    }
}

/// What the collection script prints is taken apart where it was put together.
pub proof fn collections_read_back(items: Seq<char>, stats: Seq<char>)
    requires
        forall|k: int|
            0 <= k < items.len() ==> !matches_at(
                items + "\n__SERVERBOX_DOCKER_STATS_V1__\n"@ + stats,
                "\n__SERVERBOX_DOCKER_STATS_V1__\n"@,
                k,
            ),
    ensures
        collected(
            "__SERVERBOX_DOCKER_ITEMS_V1__\n"@ + items + "\n__SERVERBOX_DOCKER_STATS_V1__\n"@
                + stats,
        ) == Ok::<(Seq<char>, Seq<char>), Seq<char>>((items, stats)),
{
    let mark = "\n__SERVERBOX_DOCKER_STATS_V1__\n"@;
    reveal_strlit("\n");
    reveal_strlit("__SERVERBOX_DOCKER_ITEMS_V1__");
    reveal_strlit("__SERVERBOX_DOCKER_ITEMS_V1__\n");
    reveal_strlit("__SERVERBOX_DOCKER_STATS_V1__");
    reveal_strlit("\n__SERVERBOX_DOCKER_STATS_V1__\n");
    assert("\n"@ + DOCKER_STATS_MARKER@ + "\n"@ =~= mark);
    assert(DOCKER_ITEMS_MARKER@ + "\n"@ =~= "__SERVERBOX_DOCKER_ITEMS_V1__\n"@);
    let rest = items + mark + stats;
    let all = "__SERVERBOX_DOCKER_ITEMS_V1__\n"@ + items + mark + stats;
    assert(all =~= DOCKER_ITEMS_MARKER@ + ("\n"@ + rest));
    assert(all.take(DOCKER_ITEMS_MARKER@.len() as int) =~= DOCKER_ITEMS_MARKER@);
    assert(all.skip(DOCKER_ITEMS_MARKER@.len() as int) =~= "\n"@ + rest);
    assert(("\n"@ + rest).take(1) =~= "\n"@);
    assert(("\n"@ + rest).skip(1) =~= rest);
    assert(rest.subrange(items.len() as int, items.len() as int + mark.len()) =~= mark);
    assert(matches_at(rest, mark, items.len() as int));
    lemma_find_from(rest, mark, 0);
    assert(rest.take(items.len() as int) =~= items);
    assert(rest.skip(items.len() as int + mark.len()) =~= stats);
}

/// A page of resources is asked for by runtime, section, offset and size; and an image is
/// fetched or run only where one was named.
pub proof fn collections_are_asked_for_by_page(
    runtime: Seq<char>,
    section: Seq<char>,
    offset: usize,
    limit: usize,
    name: Seq<char>,
    error: Seq<char>,
)
    ensures
        1 <= limit <= 5000 ==> collection_words(runtime, section, offset, limit) == seq![
            runtime,
            section,
            decimal(offset as nat),
            decimal(limit as nat),
        ],
        is_section(section) <==> section == "containers"@ || section == "images"@ || section
            == "volumes"@ || section == "networks"@,
        named_verdict(name, error) is Ok <==> trim(name).len() > 0,
        named_verdict(name, error) matches Err(said) ==> said == error,
{
}

} // verus!
