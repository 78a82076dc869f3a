//! The overview of a server: one script's output, read into cards.
use crate::capabilities::{parse_capabilities_probe, probed};
use crate::disk::{below_heading, collect_below, mount_of, read_mount};
use crate::identifiers::now_text;
use crate::models::{
    ConnectionSummary, ConnectionSummaryView, NetworkInterface, NetworkInterfaceView,
    ServerConnection,
};
use crate::numbers::{kib, kib_bytes, parse_u32, parse_u64, u32_in, u64_in};
use crate::paging::{at_most, keep_first};
use crate::sections::{find_keyed, keyed_value, parse_sections, section_text};
use crate::text::{
    collect, copy, find_index, index_where, is_line, is_space, is_text, is_word, join,
    joined_lines_read_back, joined_words_read_back, lemma_views_push, lines_of, lines_str, opt_view,
    string_of, strings_of, trim, trimmed, trimming_takes_off_spaces, views, words, words_of,
};
use vstd::prelude::*;

verus! {

broadcast use vstd::string::group_string_axioms;

/// What a line that opens a section of the overview begins with.
pub const OVERVIEW_SECTION_MARKER: &'static str = "__SERVERBOX_OVERVIEW_V1__";

/// The most output that is kept of the overview.
pub const MAX_OVERVIEW_OUTPUT_BYTES: usize = 262144;

pub const MAX_DISKS: usize = 20;

/// Gathers what the overview shows, each part in a section of its own.
pub const OVERVIEW_SCRIPT: &'static str = r#"
marker() { printf '\n__SERVERBOX_OVERVIEW_V1__%s\n' "$1"; }

cpu_before=$(awk '/^cpu / {print $2,$3,$4,$5,$6,$7,$8,$9; exit}' /proc/stat 2>/dev/null)

marker profile
hostname_value=$(hostname 2>/dev/null || uname -n 2>/dev/null)
kernel_value=$(uname -r 2>/dev/null)
printf 'hostname\t%s\n' "${hostname_value:-unknown}"
printf 'kernel\t%s\n' "${kernel_value:-unknown}"

marker capabilities
printf 'distro\t'
os_release=
if [ -r /etc/os-release ]; then os_release=/etc/os-release
elif [ -r /usr/lib/os-release ]; then os_release=/usr/lib/os-release
fi
if [ -n "$os_release" ]; then
  . "$os_release"
  printf '%s' "${PRETTY_NAME:-${NAME:-Linux}}"
else
  uname -s 2>/dev/null || printf Linux
fi
printf '\narchitecture\t'
uname -m 2>/dev/null || printf unknown
if command -v systemctl >/dev/null 2>&1 && [ -d /run/systemd/system ]; then
  printf 'command\tsystemctl\n'
fi
for name in docker podman sudo ss netstat journalctl crontab; do
  if command -v "$name" >/dev/null 2>&1; then printf 'command\t%s\n' "$name"; fi
done
printf 'root\t'
if [ "$(id -u 2>/dev/null)" = 0 ]; then printf true; else printf false; fi
printf '\nlogread\t'
if command -v logread >/dev/null 2>&1 && logread -l 1 >/dev/null 2>&1; then printf true; else printf false; fi
printf '\ncoreutils\t'
case "$(ls --version 2>/dev/null | sed -n '1p')" in
  *'GNU coreutils'*) printf GNU ;;
  *) if command -v busybox >/dev/null 2>&1; then printf BusyBox; else printf POSIX/other; fi ;;
esac
printf '\npackageManager\t'
for name in apt-get dnf yum zypper pacman apk; do
  if command -v "$name" >/dev/null 2>&1; then printf '%s' "$name"; break; fi
done
printf '\n'

marker memory
cat /proc/meminfo 2>/dev/null || true

marker storage
df -Pk 2>/dev/null || df -kP 2>/dev/null || true

marker uptime
awk '{print int($1); exit}' /proc/uptime 2>/dev/null || printf '0\n'
cat /proc/loadavg 2>/dev/null || printf '0 0 0\n'

marker network
network_value=
if command -v ip >/dev/null 2>&1; then
  network_value=$(ip -o addr show scope global 2>/dev/null || true)
fi
if [ -z "$network_value" ]; then network_value=$(hostname -I 2>/dev/null || true); fi
printf '%s\n' "$network_value"

if ! sleep 0.25 2>/dev/null; then sleep 1 2>/dev/null || true; fi
marker cpu
printf 'before\t%s\n' "$cpu_before"
printf 'after\t'
awk '/^cpu / {print $2,$3,$4,$5,$6,$7,$8,$9; exit}' /proc/stat 2>/dev/null
printf '\n'
printf 'cores\t'
(nproc 2>/dev/null || getconf _NPROCESSORS_ONLN 2>/dev/null || awk '/^processor[[:space:]]*:/ {count++} END {print count+0}' /proc/cpuinfo 2>/dev/null || printf 1)
printf 'model\t'
awk -F: '/model name|Hardware|Processor/ {gsub(/^[[:space:]]+/, "", $2); if ($2 != "") {print $2; exit}}' /proc/cpuinfo 2>/dev/null
"#;

// ---------------------------------------------------------------------------
// Connecting
// ---------------------------------------------------------------------------

/// The connection to a server that has just been made.
pub fn connect(server_id: &str) -> (res: ServerConnection)
    ensures
        res@.server_id == server_id@,
{
    ServerConnection { server_id: copy(server_id), connected_at: now_text() }
}

// ---------------------------------------------------------------------------
// Processor
// ---------------------------------------------------------------------------

/// The processor time between two readings, and how much of it was spent.
#[derive(Clone, Copy, Debug, PartialEq, Eq, Structural)]
pub struct CpuTime {
    pub busy: u64,
    pub total: u64,
}

/// The counters of a reading.
pub open spec fn counters(row: Seq<char>) -> Seq<u64> {
    words_of(row).filter_map(|word: Seq<char>| u64_in(word))
}

/// The counters together, modulo two to the power of 64.
pub open spec fn counter_sum(row: Seq<u64>) -> u64
    decreases row.len(),
{
    if row.len() == 0 {
        0
    } else {
        counter_sum(row.drop_last()).wrapping_add(row.last())
    }
}

/// The processor time between two readings; none where a reading has fewer than five
/// counters. The fourth and fifth count idle time.
pub open spec fn cpu_time(before: Seq<char>, after: Seq<char>) -> CpuTime {
    let a = counters(before);
    let b = counters(after);
    if a.len() < 5 || b.len() < 5 {
        CpuTime { busy: 0, total: 0 }
    } else {
        let total = counter_sum(b).saturating_sub(counter_sum(a));
        let idle = b[3].wrapping_add(b[4]).saturating_sub(a[3].wrapping_add(a[4]));
        CpuTime { busy: total.saturating_sub(idle), total }
    }
}

fn read_counter(word: &[char]) -> (res: Option<u64>)
    ensures
        opt_view(res) == u64_in(word@),
{
    parse_u64(word)
}

fn read_counters(row: &str) -> (res: Vec<u64>)
    ensures
        res@ == counters(row@),
{
    let fields = words(crate::text::chars_of(row).as_slice());
    let res = collect(&fields, read_counter, Ghost(|word: Seq<char>| u64_in(word)));
    assert(views(res@) =~= res@);
    res
}

fn sum_counters(row: &[u64]) -> (res: u64)
    ensures
        res == counter_sum(row@),
{
    let mut sum: u64 = 0;
    let mut i: usize = 0;
    while i < row.len()
        invariant
            i <= row@.len(),
            sum == counter_sum(row@.take(i as int)),
        decreases row@.len() - i,
    {
        assert(row@.take(i + 1).drop_last() =~= row@.take(i as int));
        sum = sum.wrapping_add(row[i]);
        i += 1;
    }
    assert(row@.take(row@.len() as int) =~= row@);
    sum
}

/// The processor time between two readings.
pub fn parse_cpu_time(before: &str, after: &str) -> (res: CpuTime)
    ensures
        res == cpu_time(before@, after@),
        res.busy <= res.total,
{
    let a = read_counters(before);
    let b = read_counters(after);
    if a.len() < 5 || b.len() < 5 {
        return CpuTime { busy: 0, total: 0 };
    }
    let total = sum_counters(&b).saturating_sub(sum_counters(&a));
    let idle = b[3].wrapping_add(b[4]).saturating_sub(a[3].wrapping_add(a[4]));
    CpuTime { busy: total.saturating_sub(idle), total }
}

// ---------------------------------------------------------------------------
// Memory
// ---------------------------------------------------------------------------

#[derive(Clone, Copy, Debug, PartialEq, Eq, Structural)]
pub struct MemoryStats {
    pub used_bytes: u64,
    pub free_bytes: u64,
    pub total_bytes: u64,
}

#[derive(Clone, Copy, Debug, PartialEq, Eq, Structural)]
pub struct SwapStats {
    pub used_bytes: u64,
    pub total_bytes: u64,
}

/// The amount on a line with this label, in bytes.
pub open spec fn labelled(line: Seq<char>, label: Seq<char>) -> Option<u64> {
    let fields = words_of(line);
    if fields.len() == 0 || fields[0] != label {
        None
    } else if fields.len() == 1 {
        Some(0)
    } else {
        match u64_in(fields[1]) {
            Some(n) => Some(kib(n)),
            None => Some(0),
        }
    }
}

/// The amount on the last line with this label, in bytes.
pub open spec fn amount_of(lines: Seq<Seq<char>>, label: Seq<char>) -> u64
    decreases lines.len(),
{
    if lines.len() == 0 {
        0
    } else {
        match labelled(lines.last(), label) {
            Some(n) => n,
            None => amount_of(lines.drop_last(), label),
        }
    }
}

pub open spec fn smaller(a: u64, b: u64) -> u64 {
    if a < b {
        a
    } else {
        b
    }
}

/// The memory of a server. Where the kernel does not say what is available, it is taken to
/// be what is free or can be given back, and not shared.
pub open spec fn memory_of(text: Seq<char>) -> MemoryStats {
    let lines = lines_of(text);
    let total = amount_of(lines, "MemTotal:"@);
    let told = amount_of(lines, "MemAvailable:"@);
    let available = if told == 0 {
        smaller(
            amount_of(lines, "MemFree:"@).saturating_add(
                amount_of(lines, "Buffers:"@),
            ).saturating_add(amount_of(lines, "Cached:"@)).saturating_add(
                amount_of(lines, "SReclaimable:"@),
            ).saturating_sub(amount_of(lines, "Shmem:"@)),
            total,
        )
    } else {
        told
    };
    MemoryStats {
        used_bytes: total.saturating_sub(available),
        free_bytes: available,
        total_bytes: total,
    }
}

pub open spec fn swap_of(text: Seq<char>) -> SwapStats {
    let lines = lines_of(text);
    let total = amount_of(lines, "SwapTotal:"@);
    SwapStats {
        used_bytes: total.saturating_sub(amount_of(lines, "SwapFree:"@)),
        total_bytes: total,
    }
}

fn read_labelled(line: &[char], label: &str) -> (res: Option<u64>)
    ensures
        res == labelled(line@, label@),
{
    let fields = words(line);
    let ghost all = views(fields@);
    if fields.len() == 0 {
        return None;
    }
    assert(all[0] == fields@[0]@);
    if !is_text(fields[0].as_slice(), label) {
        return None;
    }
    if fields.len() == 1 {
        return Some(0);
    }
    assert(all[1] == fields@[1]@);
    match parse_u64(fields[1].as_slice()) {
        Some(n) => Some(kib_bytes(n)),
        None => Some(0),
    }
}

fn find_amount(lines: &[Vec<char>], label: &str) -> (res: u64)
    ensures
        res == amount_of(views(lines@), label@),
{
    let ghost all = views(lines@);
    let mut n: usize = lines.len();
    assert(all.take(all.len() as int) =~= all);
    while n > 0
        invariant
            n <= lines@.len(),
            all == views(lines@),
            amount_of(all, label@) == amount_of(all.take(n as int), label@),
        decreases n,
    {
        assert(all.take(n as int).drop_last() =~= all.take(n - 1));
        assert(all.take(n as int).last() == lines@[n - 1]@);
        match read_labelled(lines[n - 1].as_slice(), label) {
            Some(amount) => {
                return amount;
            },
            None => {},
        }
        n -= 1;
    }
    0
}

/// The memory of a server.
pub fn parse_memory(text: &str) -> (res: MemoryStats)
    ensures
        res == memory_of(text@),
        res.used_bytes <= res.total_bytes,
{
    let lines = lines_str(text);
    let total_bytes = find_amount(&lines, "MemTotal:");
    let told = find_amount(&lines, "MemAvailable:");
    let free_bytes = if told == 0 {
        let sum = find_amount(&lines, "MemFree:").saturating_add(
            find_amount(&lines, "Buffers:"),
        ).saturating_add(find_amount(&lines, "Cached:")).saturating_add(
            find_amount(&lines, "SReclaimable:"),
        ).saturating_sub(find_amount(&lines, "Shmem:"));
        if sum < total_bytes {
            sum
        } else {
            total_bytes
        }
    } else {
        told
    };
    MemoryStats { used_bytes: total_bytes.saturating_sub(free_bytes), free_bytes, total_bytes }
}

/// The swap space of a server.
pub fn parse_swap(text: &str) -> (res: SwapStats)
    ensures
        res == swap_of(text@),
        res.used_bytes <= res.total_bytes,
{
    let lines = lines_str(text);
    let total_bytes = find_amount(&lines, "SwapTotal:");
    SwapStats {
        used_bytes: total_bytes.saturating_sub(find_amount(&lines, "SwapFree:")),
        total_bytes,
    }
}

// ---------------------------------------------------------------------------
// Storage
// ---------------------------------------------------------------------------

/// A filesystem. The percentage stands as the server writes it, without the sign.
#[derive(Debug, PartialEq, Eq)]
pub struct DiskUsage {
    pub mount: String,
    pub filesystem: String,
    pub used_bytes: u64,
    pub available_bytes: u64,
    pub total_bytes: u64,
    pub percent: String,
}

#[verifier::ext_equal]
pub struct DiskUsageView {
    pub mount: Seq<char>,
    pub filesystem: Seq<char>,
    pub used_bytes: u64,
    pub available_bytes: u64,
    pub total_bytes: u64,
    pub percent: Seq<char>,
}

impl View for DiskUsage {
    type V = DiskUsageView;

    open spec fn view(&self) -> DiskUsageView {
        DiskUsageView {
            mount: self.mount@,
            filesystem: self.filesystem@,
            used_bytes: self.used_bytes,
            available_bytes: self.available_bytes,
            total_bytes: self.total_bytes,
            percent: self.percent@,
        }
    }
}

/// The filesystem that a line of `df` describes. One without room is left out.
pub open spec fn disk_of(line: Seq<char>) -> Option<DiskUsageView> {
    match mount_of(line) {
        Some(row) => Some(
            DiskUsageView {
                mount: row.mount,
                filesystem: row.filesystem,
                used_bytes: row.used_bytes,
                available_bytes: row.available_bytes,
                total_bytes: row.total_bytes,
                percent: row.percent,
            },
        ),
        None => None,
    }
}

pub open spec fn disks_of(table: Seq<char>) -> Seq<DiskUsageView> {
    at_most(
        below_heading(table).filter_map(|line: Seq<char>| disk_of(line)),
        MAX_DISKS as nat,
    )
}

fn read_disk(line: &[char]) -> (res: Option<DiskUsage>)
    ensures
        opt_view(res) == disk_of(line@),
{
    match read_mount(line) {
        Some(row) => Some(
            DiskUsage {
                mount: row.mount,
                filesystem: row.filesystem,
                used_bytes: row.used_bytes,
                available_bytes: row.available_bytes,
                total_bytes: row.total_bytes,
                percent: row.percent,
            },
        ),
        None => None,
    }
}

/// The first filesystems of a `df` table.
pub fn parse_disks(table: &str) -> (res: Vec<DiskUsage>)
    ensures
        views(res@) == disks_of(table@),
        res@.len() <= MAX_DISKS,
{
    let disks = collect_below(table, read_disk, Ghost(|line: Seq<char>| disk_of(line)));
    keep_first(disks, MAX_DISKS)
}

// ---------------------------------------------------------------------------
// Uptime
// ---------------------------------------------------------------------------

/// How long a server has been up, in seconds.
pub open spec fn uptime_of(text: Seq<char>) -> u64 {
    if lines_of(text).len() == 0 {
        0
    } else {
        match u64_in(trim(lines_of(text)[0])) {
            Some(n) => n,
            None => 0,
        }
    }
}

/// The load averages, as the server writes them.
pub open spec fn loads_of(text: Seq<char>) -> Seq<Seq<char>> {
    if lines_of(text).len() < 2 {
        Seq::empty()
    } else {
        at_most(words_of(lines_of(text)[1]), 3)
    }
}

/// How long a server has been up, and its load averages.
pub fn parse_uptime(text: &str) -> (res: (u64, Vec<String>))
    ensures
        res.0 == uptime_of(text@),
        views(res.1@) == loads_of(text@),
{
    let lines = lines_str(text);
    let ghost all = views(lines@);
    if lines.len() == 0 {
        let none: Vec<String> = Vec::new();
        assert(views(none@) =~= Seq::empty());
        return (0, none);
    }
    assert(all[0] == lines@[0]@);
    let seconds: u64 = match parse_u64(&trimmed(lines[0].as_slice())) {
        Some(n) => n,
        None => 0,
    };
    if lines.len() < 2 {
        let none: Vec<String> = Vec::new();
        assert(views(none@) =~= Seq::empty());
        return (seconds, none);
    }
    assert(all[1] == lines@[1]@);
    let fields = keep_first(words(lines[1].as_slice()), 3);
    (seconds, strings_of(&fields))
}

// ---------------------------------------------------------------------------
// Network
// ---------------------------------------------------------------------------

pub open spec fn is_family() -> spec_fn(Seq<char>) -> bool {
    |word: Seq<char>| word == "inet"@ || word == "inet6"@
}

/// The interface and the address that a line names.
pub open spec fn address_of(line: Seq<char>) -> Option<(Seq<char>, Seq<char>)> {
    let fields = words_of(line);
    let family = index_where(fields, is_family());
    if fields.len() < 4 || family + 1 >= fields.len() {
        None
    } else {
        Some((fields[1], fields[family + 1]))
    }
}

pub open spec fn interface_index(items: Seq<NetworkInterfaceView>, name: Seq<char>) -> int
    decreases items.len(),
{
    if items.len() == 0 || items[0].name == name {
        0
    } else {
        1 + interface_index(items.skip(1), name)
    }
}

/// The interfaces with one more address.
pub open spec fn with_address(
    items: Seq<NetworkInterfaceView>,
    name: Seq<char>,
    address: Seq<char>,
) -> Seq<NetworkInterfaceView> {
    let at = interface_index(items, name);
    if at < items.len() {
        items.update(
            at,
            NetworkInterfaceView { name, addresses: items[at].addresses.push(address) },
        )
    } else {
        items.push(NetworkInterfaceView { name, addresses: seq![address] })
    }
}

/// The interfaces that the lines name, each with its addresses in order.
pub open spec fn interfaces_of(lines: Seq<Seq<char>>) -> Seq<NetworkInterfaceView>
    decreases lines.len(),
{
    if lines.len() == 0 {
        Seq::empty()
    } else {
        let before = interfaces_of(lines.drop_last());
        match address_of(lines.last()) {
            Some((name, address)) => with_address(before, name, address),
            None => before,
        }
    }
}

/// The interfaces of a server. Where no line names one, all words are taken for addresses.
pub open spec fn network_of(text: Seq<char>) -> Seq<NetworkInterfaceView> {
    let items = interfaces_of(lines_of(text));
    if items.len() == 0 && words_of(text).len() > 0 {
        seq![NetworkInterfaceView { name: "network"@, addresses: words_of(text) }]
    } else {
        items
    }
}

fn family_word(word: &[char]) -> (res: bool)
    ensures
        res == is_family()(word@),
{
    is_text(word, "inet") || is_text(word, "inet6")
}

fn find_interface(items: &[NetworkInterface], name: &[char]) -> (res: usize)
    ensures
        res == interface_index(views(items@), name@),
        res <= items@.len(),
        res < items@.len() ==> items@[res as int]@.name == name@,
{
    let ghost all = views(items@);
    let mut i: usize = 0;
    assert(all.skip(0) =~= all);
    while i < items.len()
        invariant
            i <= items@.len(),
            all == views(items@),
            interface_index(all, name@) == i + interface_index(all.skip(i as int), name@),
        decreases items@.len() - i,
    {
        assert(all.skip(i as int)[0] == items@[i as int]@);
        assert(all.skip(i as int).skip(1) =~= all.skip(i + 1));
        if is_text(name, items[i].name.as_str()) {
            return i;
        }
        i += 1;
    }
    i
}

fn add_address(items: &mut Vec<NetworkInterface>, name: &[char], address: &[char])
    ensures
        views(final(items)@) == with_address(views(old(items)@), name@, address@),
{
    broadcast use lemma_views_push;

    let ghost before = items@;
    let at = find_interface(items.as_slice(), name);
    let address = string_of(address);
    if at < items.len() {
        let mut item = items.remove(at);
        let ghost was = item.addresses@;
        assert(before[at as int]@.name == name@);
        item.addresses.push(address);
        let ghost seen = item@;
        assert(seen.addresses =~= views(was).push(address@));
        items.insert(at, item);
        assert(views(items@) =~= views(before).update(at as int, seen));
    } else {
        let mut addresses: Vec<String> = Vec::new();
        addresses.push(address);
        assert(views(addresses@) =~= seq![address@]);
        items.push(NetworkInterface { name: string_of(name), addresses });
    }
}

fn parse_interfaces(text: &str) -> (res: Vec<NetworkInterface>)
    ensures
        views(res@) == interfaces_of(lines_of(text@)),
{
    let lines = lines_str(text);
    let ghost all = views(lines@);
    let mut out: Vec<NetworkInterface> = Vec::new();
    let mut i: usize = 0;
    assert(all.take(0) =~= Seq::empty());
    assert(views(out@) =~= Seq::empty());
    while i < lines.len()
        invariant
            i <= lines@.len(),
            all == views(lines@),
            views(out@) == interfaces_of(all.take(i as int)),
        decreases lines@.len() - i,
    {
        assert(all.take(i + 1).drop_last() =~= all.take(i as int));
        assert(all.take(i + 1).last() == lines@[i as int]@);
        let fields = words(lines[i].as_slice());
        let n: usize = fields.len();
        if n >= 4 {
            let family = find_index(&fields, family_word, Ghost(is_family()));
            if family < n - 1 {
                assert(views(fields@)[1] == fields@[1]@);
                assert(views(fields@)[family + 1] == fields@[family + 1]@);
                add_address(&mut out, fields[1].as_slice(), fields[family + 1].as_slice());
            }
        }
        i += 1;
    }
    assert(all.take(lines@.len() as int) =~= all);
    out
}

/// The interfaces of a server.
pub fn parse_network(text: &str) -> (res: Vec<NetworkInterface>)
    ensures
        views(res@) == network_of(text@),
{
    let mut items = parse_interfaces(text);
    if items.len() == 0 {
        let addresses = strings_of(&words(&crate::text::chars_of(text)));
        if addresses.len() > 0 {
            items.push(NetworkInterface { name: copy("network"), addresses });
            assert(views(items@) =~= network_of(text@));
        }
    }
    items
}

// ---------------------------------------------------------------------------
// The cards
// ---------------------------------------------------------------------------

/// A part of the overview.
#[derive(Debug, PartialEq, Eq)]
pub enum DashboardCard {
    Profile { summary: ConnectionSummary },
    Cpu { time: CpuTime, cpu_cores: u32, cpu_model: String },
    Memory { memory: MemoryStats, swap: SwapStats },
    Storage { disks: Vec<DiskUsage> },
    Uptime { uptime_seconds: u64, load_averages: Vec<String> },
    Network { interfaces: Vec<NetworkInterface> },
}

#[verifier::ext_equal]
pub enum DashboardCardView {
    Profile { summary: ConnectionSummaryView },
    Cpu { time: CpuTime, cpu_cores: u32, cpu_model: Seq<char> },
    Memory { memory: MemoryStats, swap: SwapStats },
    Storage { disks: Seq<DiskUsageView> },
    Uptime { uptime_seconds: u64, load_averages: Seq<Seq<char>> },
    Network { interfaces: Seq<NetworkInterfaceView> },
}

impl View for DashboardCard {
    type V = DashboardCardView;

    open spec fn view(&self) -> DashboardCardView {
        match *self {
            DashboardCard::Profile { summary } => DashboardCardView::Profile { summary: summary@ },
            DashboardCard::Cpu { time, cpu_cores, cpu_model } => DashboardCardView::Cpu {
                time,
                cpu_cores,
                cpu_model: cpu_model@,
            },
            DashboardCard::Memory { memory, swap } => DashboardCardView::Memory { memory, swap },
            DashboardCard::Storage { disks } => DashboardCardView::Storage { disks: views(disks@) },
            DashboardCard::Uptime { uptime_seconds, load_averages } => DashboardCardView::Uptime {
                uptime_seconds,
                load_averages: views(load_averages@),
            },
            DashboardCard::Network { interfaces } => DashboardCardView::Network {
                interfaces: views(interfaces@),
            },
        }
    }
}

pub open spec fn overview_section(output: Seq<char>, name: Seq<char>) -> Seq<char> {
    section_text(lines_of(output), OVERVIEW_SECTION_MARKER@, name)
}

/// The value of a key, or another text where there is none.
pub open spec fn value_or(text: Seq<char>, key: Seq<char>, other: Seq<char>) -> Seq<char> {
    match keyed_value(lines_of(text), key) {
        Some(value) => value,
        None => other,
    }
}

pub open spec fn cores_of(text: Seq<char>) -> u32 {
    match keyed_value(lines_of(text), "cores"@) {
        Some(value) => match u32_in(trim(value)) {
            Some(n) => if n > 0 {
                n
            } else {
                1
            },
            None => 1,
        },
        None => 1,
    }
}

pub open spec fn model_of(text: Seq<char>) -> Seq<char> {
    let model = trim(value_or(text, "model"@, Seq::empty()));
    if model.len() == 0 {
        "Unknown CPU"@
    } else {
        model
    }
}

/// Who the server says that it is.
pub open spec fn summary_of(server_id: Seq<char>, output: Seq<char>, now: Seq<char>) -> ConnectionSummaryView {
    let capabilities = probed(lines_of(overview_section(output, "capabilities"@)));
    let profile = overview_section(output, "profile"@);
    ConnectionSummaryView {
        server_id,
        hostname: trim(value_or(profile, "hostname"@, "unknown"@)),
        os: match capabilities.distro {
            Some(distro) => distro,
            None => "Linux"@,
        },
        kernel: trim(value_or(profile, "kernel"@, "unknown"@)),
        architecture: capabilities.architecture,
        capabilities,
        connected_at: now,
    }
}

/// The cards of an overview.
pub open spec fn cards_of(server_id: Seq<char>, output: Seq<char>, now: Seq<char>) -> Seq<
    DashboardCardView,
> {
    let cpu = overview_section(output, "cpu"@);
    let memory = overview_section(output, "memory"@);
    let uptime = overview_section(output, "uptime"@);
    seq![
        DashboardCardView::Profile { summary: summary_of(server_id, output, now) },
        DashboardCardView::Cpu {
            time: cpu_time(
                value_or(cpu, "before"@, Seq::empty()),
                value_or(cpu, "after"@, Seq::empty()),
            ),
            cpu_cores: cores_of(cpu),
            cpu_model: model_of(cpu),
        },
        DashboardCardView::Memory { memory: memory_of(memory), swap: swap_of(memory) },
        DashboardCardView::Storage { disks: disks_of(overview_section(output, "storage"@)) },
        DashboardCardView::Uptime {
            uptime_seconds: uptime_of(uptime),
            load_averages: loads_of(uptime),
        },
        DashboardCardView::Network {
            interfaces: network_of(overview_section(output, "network"@)),
        },
    ]
}

fn find_or(text: &str, key: &str, other: &str) -> (res: String)
    ensures
        res@ == value_or(text@, key@, other@),
{
    match find_keyed(text, key) {
        Some(value) => value,
        None => copy(other),
    }
}

fn parse_cores(text: &str) -> (res: u32)
    ensures
        res == cores_of(text@),
{
    match find_keyed(text, "cores") {
        Some(value) => match parse_u32(&trimmed(&crate::text::chars_of(value.as_str()))) {
            Some(n) => if n > 0 {
                n
            } else {
                1
            },
            None => 1,
        },
        None => 1,
    }
}

/// The cards of an overview that was taken at a given time.
pub fn dashboard_at(server_id: &str, output: &str, now: &str) -> (res: Vec<DashboardCard>)
    ensures
        views(res@) == cards_of(server_id@, output@, now@),
{
    let sections = parse_sections(output, OVERVIEW_SECTION_MARKER);
    let capabilities = parse_capabilities_probe(sections.section("capabilities").as_str());
    let profile = sections.section("profile");
    let cpu = sections.section("cpu");
    let memory = sections.section("memory");
    let (uptime_seconds, load_averages) = parse_uptime(sections.section("uptime").as_str());
    let os = match &capabilities.distro {
        Some(distro) => distro.clone(),
        None => copy("Linux"),
    };
    let model = crate::text::trim_str(find_or(cpu.as_str(), "model", "").as_str());
    proof {
        reveal_strlit("");
        assert(""@ =~= Seq::empty());
    }
    let cpu_model = if same_empty(model.as_str()) {
        copy("Unknown CPU")
    } else {
        model
    };
    let mut cards: Vec<DashboardCard> = Vec::new();
    cards.push(
        DashboardCard::Profile {
            summary: ConnectionSummary {
                server_id: copy(server_id),
                hostname: crate::text::trim_str(
                    find_or(profile.as_str(), "hostname", "unknown").as_str(),
                ),
                os,
                kernel: crate::text::trim_str(
                    find_or(profile.as_str(), "kernel", "unknown").as_str(),
                ),
                architecture: capabilities.architecture.clone(),
                capabilities,
                connected_at: copy(now),
            },
        },
    );
    cards.push(
        DashboardCard::Cpu {
            time: parse_cpu_time(
                find_or(cpu.as_str(), "before", "").as_str(),
                find_or(cpu.as_str(), "after", "").as_str(),
            ),
            cpu_cores: parse_cores(cpu.as_str()),
            cpu_model,
        },
    );
    cards.push(
        DashboardCard::Memory {
            memory: parse_memory(memory.as_str()),
            swap: parse_swap(memory.as_str()),
        },
    );
    cards.push(
        DashboardCard::Storage { disks: parse_disks(sections.section("storage").as_str()) },
    );
    cards.push(DashboardCard::Uptime { uptime_seconds, load_averages });
    cards.push(
        DashboardCard::Network { interfaces: parse_network(sections.section("network").as_str()) },
    );
    assert(views(cards@) =~= cards_of(server_id@, output@, now@));
    cards
}

fn same_empty(text: &str) -> (res: bool)
    ensures
        res == (text@.len() == 0),
{
    text.unicode_len() == 0
}

/// The cards of an overview that was just taken.
pub fn dashboard(server_id: &str, output: &str) -> (res: Vec<DashboardCard>)
    ensures
        exists|now: Seq<char>| views(res@) == #[trigger] cards_of(server_id@, output@, now),
{
    let now = now_text();
    dashboard_at(server_id, output, now.as_str())
}

/// The processor was busy for the time that passed and was not idle: only the fourth and the
/// fifth counter tell of idleness.
pub proof fn busy_time_is_what_was_not_idle(before: Seq<char>, after: Seq<char>)
    requires
        counters(before).len() >= 5,
        counters(after).len() >= 5,
        plain_sum(counters(before)) <= plain_sum(counters(after)) <= u64::MAX,
        counters(before)[3] <= counters(after)[3],
        counters(before)[4] <= counters(after)[4],
        counters(after)[3] + counters(after)[4] <= u64::MAX,
    ensures
        ({
            let passed = plain_sum(counters(after)) - plain_sum(counters(before));
            let idle = (counters(after)[3] - counters(before)[3]) + (counters(after)[4] - counters(
                before,
            )[4]);
            &&& cpu_time(before, after).total == passed
            &&& idle <= passed ==> cpu_time(before, after).busy == passed - idle
        }),
{
    lemma_plain_sum(counters(before));
    lemma_plain_sum(counters(after));
}

/// The sum of counters.
pub open spec fn plain_sum(row: Seq<u64>) -> int
    decreases row.len(),
{
    if row.len() == 0 {
        0
    } else {
        plain_sum(row.drop_last()) + row.last()
    }
}

proof fn lemma_plain_sum(row: Seq<u64>)
    ensures
        plain_sum(row) >= 0,
        plain_sum(row) <= u64::MAX ==> counter_sum(row) == plain_sum(row),
    decreases row.len(),
{
    if row.len() > 0 {
        lemma_plain_sum(row.drop_last());
    }
}

/// Memory is what its lines say: what is available is free, and the rest is used. Where
/// nothing says what is available, it is what is free or can be freed.
pub proof fn memory_is_told_as_it_is(text: Seq<char>)
    ensures
        ({
            let lines = lines_of(text);
            let told = memory_of(text);
            &&& told.total_bytes == amount_of(lines, "MemTotal:"@)
            &&& amount_of(lines, "MemAvailable:"@) > 0 ==> told.free_bytes == amount_of(
                lines,
                "MemAvailable:"@,
            )
            &&& told.free_bytes <= told.total_bytes ==> told.used_bytes + told.free_bytes
                == told.total_bytes
            &&& amount_of(lines, "MemAvailable:"@) == 0 ==> {
                let free = amount_of(lines, "MemFree:"@) + amount_of(lines, "Buffers:"@)
                    + amount_of(lines, "Cached:"@) + amount_of(lines, "SReclaimable:"@);
                let shared = amount_of(lines, "Shmem:"@);
                free <= u64::MAX && shared <= free && free - shared <= told.total_bytes
                    ==> told.free_bytes == free - shared
            }
            &&& swap_of(text).total_bytes == amount_of(lines, "SwapTotal:"@)
            &&& amount_of(lines, "SwapFree:"@) <= swap_of(text).total_bytes ==> swap_of(
                text,
            ).used_bytes == swap_of(text).total_bytes - amount_of(lines, "SwapFree:"@)
        }),
{
}

/// An amount of memory is read back from its line, in kibibytes; other lines do not count.
pub proof fn amounts_read_back(
    lines: Seq<Seq<char>>,
    label: Seq<char>,
    number: Seq<char>,
    other: Seq<char>,
    n: u64,
)
    requires
        is_word(label),
        is_word(number),
        u64_in(number) == Some(n),
        n * 1024 <= u64::MAX,
    ensures
        amount_of(lines.push(join(seq![label, number], " "@)), label) == n * 1024,
        other != label ==> amount_of(lines.push(join(seq![label, number], " "@)), other)
            == amount_of(lines, other),
        amount_of(Seq::empty(), label) == 0,
{
    let line = join(seq![label, number], " "@);
    joined_words_read_back(seq![label, number]);
    assert(lines.push(line).drop_last() =~= lines);
}

/// The age and the load of a server are read back.
pub proof fn uptimes_read_back(seconds: Seq<char>, loads: Seq<Seq<char>>, n: u64)
    requires
        u64_in(seconds) == Some(n),
        is_word(seconds),
        loads.len() >= 3,
        forall|i: int| 0 <= i < loads.len() ==> is_word(#[trigger] loads[i]),
        is_line(seconds),
        is_line(join(loads, " "@)),
    ensures
        uptime_of(join(seq![seconds, join(loads, " "@)], "\n"@) + "\n"@) == n,
        loads_of(join(seq![seconds, join(loads, " "@)], "\n"@) + "\n"@) == loads.take(3),
{
    joined_lines_read_back(seq![seconds, join(loads, " "@)]);
    joined_words_read_back(loads);
    let none = Seq::<char>::empty();
    assert(none + seconds + none =~= seconds);
    assert(!is_space(seconds[0]) && !is_space(seconds[seconds.len() - 1]));
    trimming_takes_off_spaces(none, seconds, none);
    assert(loads.take(3) =~= if loads.len() > 3 { loads.take(3) } else { loads });
}

/// An address belongs to the interface that it was printed for, behind those that the
/// interface had; the others keep theirs.
pub proof fn addresses_belong_to_their_interface(
    items: Seq<NetworkInterfaceView>,
    name: Seq<char>,
    address: Seq<char>,
)
    ensures
        ({
            let at = interface_index(items, name);
            let after = with_address(items, name, address);
            &&& 0 <= at <= items.len()
            &&& at < items.len() ==> items[at].name == name && after.len() == items.len()
                && after[at].name == name && after[at].addresses == items[at].addresses.push(address)
            &&& at == items.len() ==> after.len() == items.len() + 1 && after.last().name == name
                && after.last().addresses == seq![address]
            &&& forall|i: int| 0 <= i < items.len() && i != at ==> after[i] == #[trigger] items[i]
        }),
{
    lemma_interface_index(items, name);
}

proof fn lemma_interface_index(items: Seq<NetworkInterfaceView>, name: Seq<char>)
    ensures
        0 <= interface_index(items, name) <= items.len(),
        interface_index(items, name) < items.len() ==> items[interface_index(items, name)].name
            == name,
    decreases items.len(),
{
    if items.len() > 0 && items[0].name != name {
        lemma_interface_index(items.skip(1), name);
    }
}

/// Each card of the dashboard is made of its own part of the output.
pub proof fn cards_show_their_own_part(server_id: Seq<char>, output: Seq<char>, now: Seq<char>)
    ensures
        ({
            let cards = cards_of(server_id, output, now);
            let cpu = overview_section(output, "cpu"@);
            &&& cards.len() == 6
            &&& cards[0] matches DashboardCardView::Profile { summary } && summary.server_id
                == server_id && summary.connected_at == now && summary.capabilities == probed(
                lines_of(overview_section(output, "capabilities"@)),
            ) && summary.hostname == trim(
                value_or(overview_section(output, "profile"@), "hostname"@, "unknown"@),
            ) && summary.kernel == trim(
                value_or(overview_section(output, "profile"@), "kernel"@, "unknown"@),
            )
            &&& cards[1] matches DashboardCardView::Cpu { time, cpu_cores, cpu_model } && time
                == cpu_time(
                value_or(cpu, "before"@, Seq::empty()),
                value_or(cpu, "after"@, Seq::empty()),
            ) && cpu_cores == cores_of(cpu) && cpu_model == model_of(cpu)
            &&& cards[2] matches DashboardCardView::Memory { memory, swap } && memory == memory_of(
                overview_section(output, "memory"@),
            ) && swap == swap_of(overview_section(output, "memory"@))
            &&& cards[3] matches DashboardCardView::Storage { disks } && disks == disks_of(
                overview_section(output, "storage"@),
            )
            &&& cards[4] matches DashboardCardView::Uptime { uptime_seconds, load_averages }
                && uptime_seconds == uptime_of(overview_section(output, "uptime"@))
                && load_averages == loads_of(overview_section(output, "uptime"@))
            &&& cards[5] matches DashboardCardView::Network { interfaces } && interfaces
                == network_of(overview_section(output, "network"@))
        }),
        overview_section(output, now) == section_text(
            lines_of(output),
            "__SERVERBOX_OVERVIEW_V1__"@,
            now,
        ),
{
}

} // verus!
