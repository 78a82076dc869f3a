//! What takes up the disks of a server: mounts, the largest files and directories, and
//! the container runtime.
use crate::models::{
    DockerDiskUsage, LargestDirectory, LargestDirectoryView, LargestFile, LargestFileView,
};
use crate::numbers::{i64_in, kib, kib_bytes, parse_i64, parse_u64, u64_in};
use crate::paging::{at_most, keep_first};
use crate::sections::{parse_sections, section_text};
use crate::sorting::{lemma_sorted_views, sort_by, sorted_by, sorting_sorts};
use crate::text::{
    collect, digit, first_where, is_char, is_digit, is_letter, is_space, is_text, is_word, join,
    join_from, joined_parts_read_back, joined_words_read_back, lemma_first_where, lemma_views_push,
    limited_parts_read_back, lines_of, lines_str, lower, lowered, opt_view, parts, parts_limited,
    parts_of, parts_up_to, piece, same, string_of, trim, trim_end_where, trim_start, trimmed,
    trimmed_end_of, trimmed_start, trimming_takes_off_spaces, views, words, words_of,
};
use vstd::prelude::*;
use vstd::slice::slice_subrange;

verus! {

broadcast use vstd::string::group_string_axioms;

/// What a line that opens a section of the scan begins with.
pub const DISK_SECTION_MARKER: &'static str = "__SERVERBOX_DISK_V1__";

/// The most output that is kept of a scan.
pub const MAX_DISK_OUTPUT_BYTES: usize = 2097152;

/// How long a scan may be silent, in seconds: longer than the deadline that the scan sets
/// itself, so that a stalled one ends by that deadline.
pub const DISK_SCAN_IDLE_TIMEOUT_SECONDS: u64 = 150;

/// The most output that is kept of the scan of the logs.
pub const MAX_VARLOG_OUTPUT_BYTES: usize = 131072;

pub const MAX_MOUNTS: usize = 24;

pub const MAX_LARGEST: usize = 60;

/// Gathers mounts, inode figures, the largest files and directories and the usage of a
/// container runtime, each in a section of its own.
pub const DISK_SCAN_SCRIPT: &'static str = r#"marker() { printf '\n__SERVERBOX_DISK_V1__%s\n' "$1"; }
guard=''
command -v timeout >/dev/null 2>&1 && guard='timeout 25'
deadline=$(( $(date +%s 2>/dev/null || echo 0) + 120 ))

marker mounts
df -Pk 2>/dev/null || df -kP 2>/dev/null || true

marker inodes
# Inodes are only meaningful on local filesystems; skip virtual/special mounts.
for dev in $(df -Pk 2>/dev/null | awk 'NR>1 && $1 !~ /^(tmpfs|devtmpfs|overlay|squashfs|proc|sysfs|devpts|mqueue|debugfs|configfs|binfmt_misc|nsfs|cgroup|pstore|bpf|tracefs|securityfs|hugetlbfs|ramfs|autofs|efivarfs|fusectl)/ {print $1}'); do
  df -i -P "$dev" 2>/dev/null | awk -v dev="$dev" 'NR==2 && $1 == dev {m=$6; for(i=7;i<=NF;i++) m=m" " $i; printf "inode\t%s\t%s\t%s\t%s\t%s\n", $1, $2, $3, $5, m}'
done

marker largest_files
if find / -maxdepth 0 -printf '' >/dev/null 2>&1; then
  for root in /var /opt /srv /home /usr/local /root; do
    now=$(date +%s 2>/dev/null || echo 0)
    [ "$deadline" -gt 0 ] && [ "$now" -ge "$deadline" ] && break
    [ -d "$root" ] || continue
    $guard find "$root" -xdev -maxdepth 4 -type f -printf '%s\t%T@\t%p\n' 2>/dev/null || true
  done | sort -rn | head -n 80
else
  # No GNU find: batched ls is slower but portable. Modified times are omitted.
  for root in /var /opt /srv /home /usr/local /root; do
    now=$(date +%s 2>/dev/null || echo 0)
    [ "$deadline" -gt 0 ] && [ "$now" -ge "$deadline" ] && break
    [ -d "$root" ] || continue
    $guard find "$root" -xdev -maxdepth 4 -type f -exec ls -dn {} + 2>/dev/null | awk '{name=""; for(i=9;i<=NF;i++) name=name (name?" ":"")$i; if(name!="") printf "%s\t0\t%s\n", $5, name}' || true
  done | sort -rn | head -n 80
fi

marker largest_dirs
for root in /var /opt /srv /home /usr/local /tmp; do
  now=$(date +%s 2>/dev/null || echo 0)
  [ "$deadline" -gt 0 ] && [ "$now" -ge "$deadline" ] && break
  [ -d "$root" ] || continue
  # Depth is limited here (not via du flags) because every implementation of
  # du walks the whole tree regardless; printing fewer lines keeps it bounded.
  $guard du -xk "$root" 2>/dev/null | awk -v base="$root" '
    {
      i = index($0, "\t")
      if (!i) next
      size = substr($0, 1, i - 1) + 0
      path = substr($0, i + 1)
      if (substr(path, 1, length(base)) != base) next
      rest = substr(path, length(base) + 1)
      n = 0
      for (j = 1; j <= length(rest); j++) if (substr(rest, j, 1) == "/") n++
      if (n <= 3 && size >= 10240) print size "\t" path
    }' || true
done | sort -rn | head -n 80

marker docker_usage
if command -v docker >/dev/null 2>&1 && docker info >/dev/null 2>&1; then
  $guard docker system df --format '{{.Type}}\t{{.TotalCount}}\t{{.Active}}\t{{.Size}}\t{{.Reclaimable}}' 2>/dev/null || true
fi
exit 0"#;

/// Gathers the directories of the logs with their sizes.
pub const VARLOG_SCRIPT: &'static str = r#"guard=''
command -v timeout >/dev/null 2>&1 && guard='timeout 20'
$guard du -xk /var/log 2>/dev/null | awk '
  {
    i = index($0, "\t")
    if (!i) next
    size = substr($0, 1, i - 1) + 0
    path = substr($0, i + 1)
    n = -1
    for (j = 2; j <= length(path); j++) if (substr(path, j, 1) == "/") n++
    if (path == "/var/log" || (n >= 0 && n <= 2)) print size "\t" path
  }' | sort -rn | head -n 40
exit 0"#;

// ---------------------------------------------------------------------------
// Mounts
// ---------------------------------------------------------------------------

/// A mounted filesystem. Percentages stand as the server writes them, without the sign.
#[derive(Debug, PartialEq, Eq)]
pub struct DiskMount {
    pub mount: String,
    pub filesystem: String,
    pub used_bytes: u64,
    pub available_bytes: u64,
    pub total_bytes: u64,
    pub percent: String,
    pub inode_used: Option<u64>,
    pub inode_total: Option<u64>,
    pub inode_percent: Option<String>,
}

#[verifier::ext_equal]
pub struct DiskMountView {
    pub mount: Seq<char>,
    pub filesystem: Seq<char>,
    pub used_bytes: u64,
    pub available_bytes: u64,
    pub total_bytes: u64,
    pub percent: Seq<char>,
    pub inode_used: Option<u64>,
    pub inode_total: Option<u64>,
    pub inode_percent: Option<Seq<char>>,
}

impl View for DiskMount {
    type V = DiskMountView;

    open spec fn view(&self) -> DiskMountView {
        DiskMountView {
            mount: self.mount@,
            filesystem: self.filesystem@,
            used_bytes: self.used_bytes,
            available_bytes: self.available_bytes,
            total_bytes: self.total_bytes,
            percent: self.percent@,
            inode_used: self.inode_used,
            inode_total: self.inode_total,
            inode_percent: opt_view(self.inode_percent),
        }
    }
}

/// A percentage without its sign.
pub open spec fn without_percent(s: Seq<char>) -> Seq<char> {
    trim_end_where(s, is_char('%'))
}

/// The mount that a line of `df` describes.
pub open spec fn mount_of(line: Seq<char>) -> Option<DiskMountView> {
    let fields = words_of(line);
    if fields.len() < 6 {
        None
    } else {
        match (u64_in(fields[1]), u64_in(fields[2]), u64_in(fields[3])) {
            (Some(total), Some(used), Some(available)) => if kib(total) == 0 {
                None
            } else {
                Some(
                    DiskMountView {
                        mount: join(fields.skip(5), " "@),
                        filesystem: fields[0],
                        used_bytes: kib(used),
                        available_bytes: kib(available),
                        total_bytes: kib(total),
                        percent: without_percent(fields[4]),
                        inode_used: None,
                        inode_total: None,
                        inode_percent: None,
                    },
                )
            },
            _ => None,
        }
    }
}

pub(crate) fn read_mount(line: &[char]) -> (res: Option<DiskMount>)
    ensures
        opt_view(res) == mount_of(line@),
{
    let fields = words(line);
    let ghost all = views(fields@);
    if fields.len() < 6 {
        return None;
    }
    assert(all[0] == fields@[0]@ && all[1] == fields@[1]@ && all[2] == fields@[2]@ && all[3]
        == fields@[3]@ && all[4] == fields@[4]@);
    match (
        parse_u64(fields[1].as_slice()),
        parse_u64(fields[2].as_slice()),
        parse_u64(fields[3].as_slice()),
    ) {
        (Some(total), Some(used), Some(available)) => {
            let total_bytes = kib_bytes(total);
            if total_bytes == 0 {
                return None;
            }
            Some(
                DiskMount {
                    mount: string_of(&join_from(&fields, 5)),
                    filesystem: string_of(fields[0].as_slice()),
                    used_bytes: kib_bytes(used),
                    available_bytes: kib_bytes(available),
                    total_bytes,
                    percent: string_of(&trimmed_end_of(fields[4].as_slice(), '%')),
                    inode_used: None,
                    inode_total: None,
                    inode_percent: None,
                },
            )
        },
        _ => None,
    }
}

/// The first mount of this filesystem at this place.
pub open spec fn first_mount(
    mounts: Seq<DiskMountView>,
    filesystem: Seq<char>,
    mount: Seq<char>,
) -> int
    decreases mounts.len(),
{
    if mounts.len() == 0 || (mounts[0].filesystem == filesystem && mounts[0].mount == mount) {
        0
    } else {
        1 + first_mount(mounts.skip(1), filesystem, mount)
    }
}

/// The mounts after the inode figures of a line have been entered in the first mount that
/// it names. Another line changes nothing.
pub open spec fn with_inodes(mounts: Seq<DiskMountView>, line: Seq<char>) -> Seq<DiskMountView> {
    let fields = parts_of(line, '\t');
    if fields.len() < 6 || fields[0] != "inode"@ {
        mounts
    } else {
        let at = first_mount(mounts, fields[1], join(fields.skip(5), " "@));
        if at < mounts.len() {
            mounts.update(
                at,
                DiskMountView {
                    inode_total: u64_in(fields[2]),
                    inode_used: u64_in(fields[3]),
                    inode_percent: Some(without_percent(fields[4])),
                    ..mounts[at]
                },
            )
        } else {
            mounts
        }
    }
}

pub open spec fn with_all_inodes(mounts: Seq<DiskMountView>, lines: Seq<Seq<char>>) -> Seq<
    DiskMountView,
>
    decreases lines.len(),
{
    if lines.len() == 0 {
        mounts
    } else {
        with_inodes(with_all_inodes(mounts, lines.drop_last()), lines.last())
    }
}

/// The mounts of a `df` table, whose first line is a heading, with their inode figures.
pub open spec fn mounts_of(table: Seq<char>, inodes: Seq<char>) -> Seq<DiskMountView> {
    with_all_inodes(
        below_heading(table).filter_map(|line: Seq<char>| mount_of(line)),
        lines_of(inodes),
    )
}

/// The lines below the first.
pub open spec fn below_heading(table: Seq<char>) -> Seq<Seq<char>> {
    if lines_of(table).len() == 0 {
        lines_of(table)
    } else {
        lines_of(table).skip(1)
    }
}

/// What `pick` finds in each of the lines below the first.
pub(crate) fn collect_below<T: View>(
    table: &str,
    pick: impl Fn(&[char]) -> Option<T>,
    Ghost(spec): Ghost<spec_fn(Seq<char>) -> Option<T::V>>,
) -> (res: Vec<T>)
    requires
        forall|line: &[char]| pick.requires((line,)),
        forall|line: &[char], out: Option<T>|
            #[trigger] pick.ensures((line,), out) ==> opt_view(out) == spec(line@),
    ensures
        views(res@) == below_heading(table@).filter_map(spec),
{
    let lines = lines_str(table);
    if lines.len() == 0 {
        assert(views(lines@) =~= Seq::empty());
        return collect(&lines, pick, Ghost(spec));
    }
    let rest = slice_subrange(lines.as_slice(), 1, lines.len());
    assert(views(rest@) =~= views(lines@).skip(1));
    collect(rest, pick, Ghost(spec))
}

fn find_mount(mounts: &[DiskMount], filesystem: &[char], mount: &[char]) -> (res: usize)
    ensures
        res == first_mount(views(mounts@), filesystem@, mount@),
        res <= mounts@.len(),
{
    let mut i: usize = 0;
    let ghost all = views(mounts@);
    assert(all.skip(0) =~= all);
    while i < mounts.len()
        invariant
            i <= mounts@.len(),
            all == views(mounts@),
            first_mount(all, filesystem@, mount@) == i + first_mount(
                all.skip(i as int),
                filesystem@,
                mount@,
            ),
        decreases mounts@.len() - i,
    {
        assert(all.skip(i as int)[0] == mounts@[i as int]@);
        assert(all.skip(i as int).skip(1) =~= all.skip(i + 1));
        if is_text(filesystem, mounts[i].filesystem.as_str()) && is_text(
            mount,
            mounts[i].mount.as_str(),
        ) {
            return i;
        }
        i += 1;
    }
    i
}

fn enter_inodes(mounts: &mut Vec<DiskMount>, line: &[char])
    ensures
        views(final(mounts)@) == with_inodes(views(old(mounts)@), line@),
{
    let fields = parts(line, '\t');
    let ghost all = views(fields@);
    if fields.len() < 6 {
        return ;
    }
    assert(all[0] == fields@[0]@ && all[1] == fields@[1]@ && all[2] == fields@[2]@ && all[3]
        == fields@[3]@ && all[4] == fields@[4]@);
    if !is_text(fields[0].as_slice(), "inode") {
        return ;
    }
    let mount = join_from(&fields, 5);
    let at = find_mount(mounts.as_slice(), fields[1].as_slice(), &mount);
    if at < mounts.len() {
        let ghost before = mounts@;
        let entry = DiskMount {
            mount: mounts[at].mount.clone(),
            filesystem: mounts[at].filesystem.clone(),
            used_bytes: mounts[at].used_bytes,
            available_bytes: mounts[at].available_bytes,
            total_bytes: mounts[at].total_bytes,
            percent: mounts[at].percent.clone(),
            inode_used: parse_u64(fields[3].as_slice()),
            inode_total: parse_u64(fields[2].as_slice()),
            inode_percent: Some(string_of(&trimmed_end_of(fields[4].as_slice(), '%'))),
        };
        let ghost seen = entry@;
        mounts.set(at, entry);
        assert(views(mounts@) =~= views(before).update(at as int, seen));
    }
}

/// The mounts of a `df` table with their inode figures.
pub fn parse_mounts(table: &str, inodes: &str) -> (res: Vec<DiskMount>)
    ensures
        views(res@) == mounts_of(table@, inodes@),
{
    let mut mounts = collect_below(table, read_mount, Ghost(|line: Seq<char>| mount_of(line)));
    let ghost start = views(mounts@);
    let lines = lines_str(inodes);
    let ghost all = views(lines@);
    let mut i: usize = 0;
    assert(all.take(0) =~= Seq::empty());
    while i < lines.len()
        invariant
            i <= lines@.len(),
            all == views(lines@),
            views(mounts@) == with_all_inodes(start, all.take(i as int)),
        decreases lines@.len() - i,
    {
        assert(all.take(i + 1).drop_last() =~= all.take(i as int));
        assert(all.take(i + 1).last() == lines@[i as int]@);
        enter_inodes(&mut mounts, lines[i].as_slice());
        i += 1;
    }
    assert(all.take(lines@.len() as int) =~= all);
    mounts
}

/// A mount with a number that grows with how full it is.
pub struct RankedMount {
    pub mount: DiskMount,
    pub rank: i64,
}

#[verifier::ext_equal]
pub struct RankedMountView {
    pub mount: DiskMountView,
    pub rank: i64,
}

impl View for RankedMount {
    type V = RankedMountView;

    open spec fn view(&self) -> RankedMountView {
        RankedMountView { mount: self.mount@, rank: self.rank }
    }
}

pub open spec fn fuller() -> spec_fn(RankedMountView, RankedMountView) -> bool {
    |a: RankedMountView, b: RankedMountView| a.rank > b.rank
}

/// The fullest mounts, the fullest first. Those that are equally full keep their order.
pub fn fullest_mounts(mounts: Vec<RankedMount>) -> (res: Vec<DiskMount>)
    ensures
        views(res@) == at_most(sorted_by(views(mounts@), fuller()), MAX_MOUNTS as nat).map_values(
            |ranked: RankedMountView| ranked.mount,
        ),
{
    let ghost lt = |a: RankedMount, b: RankedMount| a.rank > b.rank;
    let less = |a: &RankedMount, b: &RankedMount| -> (r: bool)
        ensures
            r == (a.rank > b.rank),
        {
            a.rank > b.rank
        };
    proof {
        lemma_sorted_views(mounts@, lt, fuller());
    }
    let sorted = sort_by(mounts, less, Ghost(lt));
    let ghost kept = at_most(views(sorted@), MAX_MOUNTS as nat);
    let mut sorted = keep_first(sorted, MAX_MOUNTS);
    let ghost strip = |ranked: RankedMountView| ranked.mount;
    let mut out: Vec<DiskMount> = Vec::new();
    assert(kept.skip(0) =~= kept);
    while sorted.len() > 0
        invariant
            out@.len() <= kept.len(),
            views(sorted@) == kept.skip(out@.len() as int),
            views(out@) == kept.take(out@.len() as int).map_values(strip),
            strip == (|ranked: RankedMountView| ranked.mount),
        decreases sorted@.len(),
    {
        broadcast use lemma_views_push;

        let ghost before = sorted@;
        let n: usize = out.len();
        let first = sorted.remove(0);
        assert(views(before)[0] == first@);
        assert(views(sorted@) =~= views(before).skip(1));
        assert(kept.skip(n as int).skip(1) =~= kept.skip(n + 1));
        assert(kept.take(n + 1).map_values(strip) =~= kept.take(n as int).map_values(strip).push(
            first@.mount,
        ));
        out.push(first.mount);
    }
    assert(kept.take(out@.len() as int) =~= kept);
    out
}

// ---------------------------------------------------------------------------
// Files and directories
// ---------------------------------------------------------------------------

/// The time of a file in whole seconds, where it is known.
pub open spec fn modified_of(text: Seq<char>) -> Option<i64> {
    match i64_in(parts_of(trim(text), '.')[0]) {
        Some(n) => if n > 0 {
            Some(n)
        } else {
            None
        },
        None => None,
    }
}

/// The file that a line of size, time and path describes.
pub open spec fn largest_file_of(line: Seq<char>) -> Option<LargestFileView> {
    let fields = parts_up_to(line, '\t', 3);
    if fields.len() < 3 || trim(fields[2]).len() == 0 {
        None
    } else {
        match u64_in(fields[0]) {
            Some(size) => Some(
                LargestFileView {
                    path: trim(fields[2]),
                    size_bytes: size,
                    modified_at: modified_of(fields[1]),
                },
            ),
            None => None,
        }
    }
}

fn read_largest_file(line: &[char]) -> (res: Option<LargestFile>)
    ensures
        opt_view(res) == largest_file_of(line@),
{
    let fields = parts_limited(line, '\t', 3);
    let ghost all = views(fields@);
    if fields.len() < 3 {
        return None;
    }
    assert(all[0] == fields@[0]@ && all[1] == fields@[1]@ && all[2] == fields@[2]@);
    let path = trimmed(fields[2].as_slice());
    if path.len() == 0 {
        return None;
    }
    match parse_u64(fields[0].as_slice()) {
        Some(size_bytes) => {
            let time = parts(&trimmed(fields[1].as_slice()), '.');
            assert(views(time@)[0] == time@[0]@);
            let modified_at = match parse_i64(time[0].as_slice()) {
                Some(n) => if n > 0 {
                    Some(n)
                } else {
                    None
                },
                None => None,
            };
            Some(LargestFile { path: string_of(&path), size_bytes, modified_at })
        },
        None => None,
    }
}

/// The files of a listing of size, time and path.
pub fn parse_largest_files(text: &str) -> (res: Vec<LargestFile>)
    ensures
        views(res@) == lines_of(text@).filter_map(|line: Seq<char>| largest_file_of(line)),
{
    collect(&lines_str(text), read_largest_file, Ghost(|line: Seq<char>| largest_file_of(line)))
}

/// Whether a text is one component of a path.
pub open spec fn is_component() -> spec_fn(Seq<char>) -> bool {
    |part: Seq<char>| part.len() > 0
}

/// How deep a path lies: `/var` is at depth 0, `/var/log` at depth 1.
pub open spec fn depth_of(path: Seq<char>) -> u32 {
    let n = parts_of(path, '/').filter(is_component()).len();
    if n == 0 {
        0
    } else {
        (n - 1) as u32
    }
}

/// How deep a path lies.
pub fn path_depth(path: &[char]) -> (res: u32)
    ensures
        res == depth_of(path@),
{
    let components = parts(path, '/');
    let ghost all = views(components@);
    let mut n: usize = 0;
    let mut i: usize = 0;
    assert(all.take(0).filter(is_component()).len() == 0) by {
        reveal(Seq::filter);
    }
    while i < components.len()
        invariant
            i <= components@.len(),
            n <= i,
            all == views(components@),
            n == all.take(i as int).filter(is_component()).len(),
        decreases components@.len() - i,
    {
        proof {
            reveal(Seq::filter);
            assert(all.take(i + 1).drop_last() =~= all.take(i as int));
            assert(all.take(i + 1).last() == components@[i as int]@);
        }
        if components[i].len() > 0 {
            n += 1;
        }
        i += 1;
    }
    assert(all.take(components@.len() as int) =~= all);
    if n == 0 {
        0
    } else {
        (n - 1) as u32
    }
}

/// The directory that a line of size and path describes.
pub open spec fn directory_of(line: Seq<char>) -> Option<LargestDirectoryView> {
    let fields = parts_up_to(line, '\t', 2);
    if fields.len() < 2 || trim(fields[1]).len() == 0 {
        None
    } else {
        match u64_in(fields[0]) {
            Some(size) => Some(
                LargestDirectoryView {
                    path: trim(fields[1]),
                    size_bytes: kib(size),
                    depth: depth_of(trim(fields[1])),
                },
            ),
            None => None,
        }
    }
}

/// The directories without those that repeat the path before them.
pub open spec fn without_repeats(items: Seq<LargestDirectoryView>) -> Seq<LargestDirectoryView>
    decreases items.len(),
{
    if items.len() == 0 {
        items
    } else {
        let before = without_repeats(items.drop_last());
        if before.len() > 0 && before.last().path == items.last().path {
            before
        } else {
            before.push(items.last())
        }
    }
}

/// The directories of a listing of sizes in kibibytes and paths.
pub open spec fn directories_of(text: Seq<char>) -> Seq<LargestDirectoryView> {
    without_repeats(lines_of(text).filter_map(|line: Seq<char>| directory_of(line)))
}

fn read_directory(line: &[char]) -> (res: Option<LargestDirectory>)
    ensures
        opt_view(res) == directory_of(line@),
{
    let fields = parts_limited(line, '\t', 2);
    let ghost all = views(fields@);
    if fields.len() < 2 {
        return None;
    }
    assert(all[0] == fields@[0]@ && all[1] == fields@[1]@);
    let path = trimmed(fields[1].as_slice());
    if path.len() == 0 {
        return None;
    }
    match parse_u64(fields[0].as_slice()) {
        Some(size) => Some(
            LargestDirectory {
                depth: path_depth(&path),
                path: string_of(&path),
                size_bytes: kib_bytes(size),
            },
        ),
        None => None,
    }
}

/// The directories of a listing of sizes in kibibytes and paths.
pub fn parse_directories(text: &str) -> (res: Vec<LargestDirectory>)
    ensures
        views(res@) == directories_of(text@),
{
    let mut rows = collect(
        &lines_str(text),
        read_directory,
        Ghost(|line: Seq<char>| directory_of(line)),
    );
    let ghost all = views(rows@);
    let mut done: Ghost<int> = Ghost(0);
    let mut out: Vec<LargestDirectory> = Vec::new();
    assert(all.take(0) =~= Seq::empty());
    assert(all.skip(0) =~= all);
    while rows.len() > 0
        invariant
            0 <= done@ <= all.len(),
            views(rows@) == all.skip(done@),
            views(out@) == without_repeats(all.take(done@)),
        decreases rows@.len(),
    {
        broadcast use lemma_views_push;

        let ghost before = rows@;
        let ghost next = all.take(done@ + 1);
        let row = rows.remove(0);
        assert(views(before)[0] == row@);
        assert(views(rows@) =~= views(before).skip(1));
        assert(all.skip(done@).skip(1) =~= all.skip(done@ + 1));
        assert(next.drop_last() =~= all.take(done@));
        assert(next.last() == row@);
        let n: usize = out.len();
        let repeats = n > 0 && same(out[n - 1].path.as_str(), row.path.as_str());
        assert(n > 0 ==> views(out@).last() == out@[n - 1]@);
        if !repeats {
            out.push(row);
        }
        proof {
            done@ = done@ + 1;
        }
    }
    assert(all.take(done@) =~= all);
    out
}

// ---------------------------------------------------------------------------
// The container runtime
// ---------------------------------------------------------------------------

/// A size as a runtime writes it: a decimal number and what its unit multiplies it by.
#[derive(Debug, PartialEq, Eq)]
pub struct SizeText {
    pub number: String,
    pub multiplier: u64,
}

#[verifier::ext_equal]
pub struct SizeTextView {
    pub number: Seq<char>,
    pub multiplier: u64,
}

impl View for SizeText {
    type V = SizeTextView;

    open spec fn view(&self) -> SizeTextView {
        SizeTextView { number: self.number@, multiplier: self.multiplier }
    }
}

pub open spec fn not_in_number() -> spec_fn(char) -> bool {
    |c: char| !is_digit(c) && c != '.'
}

pub open spec fn not_a_letter() -> spec_fn(char) -> bool {
    |c: char| !is_letter(c)
}

/// The digits and points that a text begins with.
pub open spec fn number_part(s: Seq<char>) -> Seq<char> {
    s.take(first_where(s, not_in_number()))
}

/// The letters that a text begins with, in lower case.
pub open spec fn unit_part(s: Seq<char>) -> Seq<char> {
    lower(s.take(first_where(s, not_a_letter())))
}

/// What a unit of a container runtime multiplies by. Units are decimal; those with an `i`
/// are binary.
pub open spec fn docker_unit(unit: Seq<char>) -> u64 {
    if unit == "k"@ || unit == "kb"@ {
        1_000
    } else if unit == "m"@ || unit == "mb"@ {
        1_000_000
    } else if unit == "g"@ || unit == "gb"@ {
        1_000_000_000
    } else if unit == "t"@ || unit == "tb"@ {
        1_000_000_000_000
    } else if unit == "p"@ || unit == "pb"@ {
        1_000_000_000_000_000
    } else if unit == "e"@ || unit == "eb"@ {
        1_000_000_000_000_000_000
    } else if unit == "ki"@ || unit == "kib"@ {
        1_024
    } else if unit == "mi"@ || unit == "mib"@ {
        1_048_576
    } else if unit == "gi"@ || unit == "gib"@ {
        1_073_741_824
    } else if unit == "ti"@ || unit == "tib"@ {
        1_099_511_627_776
    } else {
        1
    }
}

/// The size that a runtime writes: `12.34kB`, `1.5GB`, `208.4MB (45%)`.
pub open spec fn docker_size(text: Seq<char>) -> SizeTextView {
    let value = trim(text);
    let number = number_part(value);
    SizeTextView {
        number,
        multiplier: docker_unit(unit_part(trim_start(value.skip(number.len() as int)))),
    }
}

pub(crate) fn number_length(s: &[char]) -> (res: usize)
    ensures
        res == first_where(s@, not_in_number()),
        res <= s@.len(),
{
    let mut i: usize = 0;
    while i < s.len() && (digit(s[i]) || s[i] == '.')
        invariant
            i <= s@.len(),
            forall|j: int| 0 <= j < i ==> !not_in_number()(#[trigger] s@[j]),
        decreases s@.len() - i,
    {
        i += 1;
    }
    proof {
        lemma_first_where(s@, not_in_number(), i as int);
    }
    i
}

pub(crate) fn unit_of(s: &[char]) -> (res: Vec<char>)
    ensures
        res@ == unit_part(s@),
{
    let mut i: usize = 0;
    while i < s.len() && (('a' <= s[i] && s[i] <= 'z') || ('A' <= s[i] && s[i] <= 'Z'))
        invariant
            i <= s@.len(),
            forall|j: int| 0 <= j < i ==> !not_a_letter()(#[trigger] s@[j]),
        decreases s@.len() - i,
    {
        i += 1;
    }
    proof {
        lemma_first_where(s@, not_a_letter(), i as int);
    }
    let letters = piece(s, 0, i);
    assert(letters@ =~= s@.take(i as int));
    lowered(&letters)
}

/// The size that a runtime writes.
pub fn parse_docker_size(text: &[char]) -> (res: SizeText)
    ensures
        res@ == docker_size(text@),
{
    let value = trimmed(text);
    let split = number_length(&value);
    let number = piece(&value, 0, split);
    assert(number@ =~= value@.take(split as int));
    let rest = piece(&value, split, value.len());
    assert(rest@ =~= value@.skip(split as int));
    let unit = unit_of(&trimmed_start(&rest));
    let multiplier: u64 = if is_text(&unit, "k") || is_text(&unit, "kb") {
        1_000
    } else if is_text(&unit, "m") || is_text(&unit, "mb") {
        1_000_000
    } else if is_text(&unit, "g") || is_text(&unit, "gb") {
        1_000_000_000
    } else if is_text(&unit, "t") || is_text(&unit, "tb") {
        1_000_000_000_000
    } else if is_text(&unit, "p") || is_text(&unit, "pb") {
        1_000_000_000_000_000
    } else if is_text(&unit, "e") || is_text(&unit, "eb") {
        1_000_000_000_000_000_000
    } else if is_text(&unit, "ki") || is_text(&unit, "kib") {
        1_024
    } else if is_text(&unit, "mi") || is_text(&unit, "mib") {
        1_048_576
    } else if is_text(&unit, "gi") || is_text(&unit, "gib") {
        1_073_741_824
    } else if is_text(&unit, "ti") || is_text(&unit, "tib") {
        1_099_511_627_776
    } else {
        1
    };
    SizeText { number: string_of(&number), multiplier }
}

/// A line of the usage of a runtime.
#[derive(Debug, PartialEq, Eq)]
pub struct UsageRow {
    pub kind: String,
    pub size: SizeText,
    pub reclaimable: SizeText,
}

#[verifier::ext_equal]
pub struct UsageRowView {
    pub kind: Seq<char>,
    pub size: SizeTextView,
    pub reclaimable: SizeTextView,
}

impl View for UsageRow {
    type V = UsageRowView;

    open spec fn view(&self) -> UsageRowView {
        UsageRowView { kind: self.kind@, size: self.size@, reclaimable: self.reclaimable@ }
    }
}

pub open spec fn usage_row_of(line: Seq<char>) -> Option<UsageRowView> {
    let fields = parts_of(line, '\t');
    if fields.len() < 5 {
        None
    } else {
        Some(
            UsageRowView {
                kind: fields[0],
                size: docker_size(fields[3]),
                reclaimable: docker_size(fields[4]),
            },
        )
    }
}

fn read_usage_row(line: &[char]) -> (res: Option<UsageRow>)
    ensures
        opt_view(res) == usage_row_of(line@),
{
    let fields = parts(line, '\t');
    let ghost all = views(fields@);
    if fields.len() < 5 {
        return None;
    }
    assert(all[0] == fields@[0]@ && all[3] == fields@[3]@ && all[4] == fields@[4]@);
    Some(
        UsageRow {
            kind: string_of(fields[0].as_slice()),
            size: parse_docker_size(fields[3].as_slice()),
            reclaimable: parse_docker_size(fields[4].as_slice()),
        },
    )
}

/// The usage of a runtime, line by line.
pub fn parse_usage_rows(text: &str) -> (res: Vec<UsageRow>)
    ensures
        views(res@) == lines_of(text@).filter_map(|line: Seq<char>| usage_row_of(line)),
{
    collect(&lines_str(text), read_usage_row, Ghost(|line: Seq<char>| usage_row_of(line)))
}

/// What one kind of thing takes up, in bytes.
#[derive(Debug, PartialEq, Eq)]
pub struct KindUsage {
    pub kind: String,
    pub size: u64,
    pub reclaimable: u64,
}

#[verifier::ext_equal]
pub struct KindUsageView {
    pub kind: Seq<char>,
    pub size: u64,
    pub reclaimable: u64,
}

impl View for KindUsage {
    type V = KindUsageView;

    open spec fn view(&self) -> KindUsageView {
        KindUsageView { kind: self.kind@, size: self.size, reclaimable: self.reclaimable }
    }
}

/// The size of the last row of this kind.
pub open spec fn last_size(rows: Seq<KindUsageView>, kind: Seq<char>) -> u64
    decreases rows.len(),
{
    if rows.len() == 0 {
        0
    } else if rows.last().kind == kind {
        rows.last().size
    } else {
        last_size(rows.drop_last(), kind)
    }
}

pub open spec fn known_kind(kind: Seq<char>) -> bool {
    kind == "Images"@ || kind == "Containers"@ || kind == "Local Volumes"@ || kind == "Build Cache"@
}

/// The sizes of the rows of other kinds together, modulo two to the power of 64.
pub open spec fn other_size(rows: Seq<KindUsageView>) -> u64
    decreases rows.len(),
{
    if rows.len() == 0 {
        0
    } else if known_kind(rows.last().kind) {
        other_size(rows.drop_last())
    } else {
        other_size(rows.drop_last()).wrapping_add(rows.last().size)
    }
}

/// What could be freed, modulo two to the power of 64.
pub open spec fn reclaimable_size(rows: Seq<KindUsageView>) -> u64
    decreases rows.len(),
{
    if rows.len() == 0 {
        0
    } else {
        reclaimable_size(rows.drop_last()).wrapping_add(rows.last().reclaimable)
    }
}

/// The usage of a runtime; none where it named no kind. No more can be freed than is used.
pub open spec fn usage_of(rows: Seq<KindUsageView>) -> Option<DockerDiskUsage> {
    if rows.len() == 0 {
        None
    } else {
        let images = last_size(rows, "Images"@);
        let containers = last_size(rows, "Containers"@);
        let volumes = last_size(rows, "Local Volumes"@);
        let cache = last_size(rows, "Build Cache"@);
        let other = other_size(rows);
        let total = images.wrapping_add(containers).wrapping_add(volumes).wrapping_add(
            cache,
        ).wrapping_add(other);
        let reclaimable = reclaimable_size(rows);
        Some(
            DockerDiskUsage {
                images_bytes: images,
                containers_bytes: containers,
                volumes_bytes: volumes,
                build_cache_bytes: cache,
                other_bytes: other,
                total_bytes: total,
                reclaimable_bytes: if reclaimable < total {
                    reclaimable
                } else {
                    total
                },
            },
        )
    }
}

/// The usage of a runtime.
pub fn docker_usage(rows: &[KindUsage]) -> (res: Option<DockerDiskUsage>)
    ensures
        res == usage_of(views(rows@)),
{
    let ghost all = views(rows@);
    if rows.len() == 0 {
        return None;
    }
    let mut images: u64 = 0;
    let mut containers: u64 = 0;
    let mut volumes: u64 = 0;
    let mut cache: u64 = 0;
    let mut other: u64 = 0;
    let mut reclaimable: u64 = 0;
    let mut i: usize = 0;
    proof {
        reveal_strlit("Images");
        reveal_strlit("Containers");
        reveal_strlit("Local Volumes");
        reveal_strlit("Build Cache");
        assert("Images"@.len() == 6 && "Containers"@.len() == 10 && "Local Volumes"@.len() == 13
            && "Build Cache"@.len() == 11);
    }
    assert(all.take(0) =~= Seq::empty());
    while i < rows.len()
        invariant
            i <= rows@.len(),
            all == views(rows@),
            "Images"@.len() == 6 && "Containers"@.len() == 10 && "Local Volumes"@.len() == 13
                && "Build Cache"@.len() == 11,
            images == last_size(all.take(i as int), "Images"@),
            containers == last_size(all.take(i as int), "Containers"@),
            volumes == last_size(all.take(i as int), "Local Volumes"@),
            cache == last_size(all.take(i as int), "Build Cache"@),
            other == other_size(all.take(i as int)),
            reclaimable == reclaimable_size(all.take(i as int)),
        decreases rows@.len() - i,
    {
        assert(all.take(i + 1).drop_last() =~= all.take(i as int));
        assert(all.take(i + 1).last() == rows@[i as int]@);
        let kind = rows[i].kind.as_str();
        if same(kind, "Images") {
            images = rows[i].size;
        } else if same(kind, "Containers") {
            containers = rows[i].size;
        } else if same(kind, "Local Volumes") {
            volumes = rows[i].size;
        } else if same(kind, "Build Cache") {
            cache = rows[i].size;
        } else {
            other = other.wrapping_add(rows[i].size);
        }
        reclaimable = reclaimable.wrapping_add(rows[i].reclaimable);
        i += 1;
    }
    assert(all.take(rows@.len() as int) =~= all);
    let total_bytes = images.wrapping_add(containers).wrapping_add(volumes).wrapping_add(
        cache,
    ).wrapping_add(other);
    Some(
        DockerDiskUsage {
            images_bytes: images,
            containers_bytes: containers,
            volumes_bytes: volumes,
            build_cache_bytes: cache,
            other_bytes: other,
            total_bytes,
            reclaimable_bytes: if reclaimable < total_bytes {
                reclaimable
            } else {
                total_bytes
            },
        },
    )
}

/// No more is said to be reclaimable than is used.
pub proof fn no_more_is_freed_than_is_used(rows: Seq<KindUsageView>)
    ensures
        match usage_of(rows) {
            Some(usage) => usage.reclaimable_bytes <= usage.total_bytes,
            None => rows.len() == 0,
        },
{
}

// ---------------------------------------------------------------------------
// The scan
// ---------------------------------------------------------------------------

/// What a scan found. The mounts stand in the order of the table, and the usage of the
/// runtime in the rows that it printed.
#[derive(Debug, PartialEq, Eq)]
pub struct DiskExplorerSnapshot {
    pub mounts: Vec<DiskMount>,
    pub largest_files: Vec<LargestFile>,
    pub largest_dirs: Vec<LargestDirectory>,
    pub docker_usage: Vec<UsageRow>,
}

#[verifier::ext_equal]
pub struct DiskExplorerSnapshotView {
    pub mounts: Seq<DiskMountView>,
    pub largest_files: Seq<LargestFileView>,
    pub largest_dirs: Seq<LargestDirectoryView>,
    pub docker_usage: Seq<UsageRowView>,
}

impl View for DiskExplorerSnapshot {
    type V = DiskExplorerSnapshotView;

    open spec fn view(&self) -> DiskExplorerSnapshotView {
        DiskExplorerSnapshotView {
            mounts: views(self.mounts@),
            largest_files: views(self.largest_files@),
            largest_dirs: views(self.largest_dirs@),
            docker_usage: views(self.docker_usage@),
        }
    }
}

pub open spec fn disk_section(output: Seq<char>, name: Seq<char>) -> Seq<char> {
    section_text(lines_of(output), DISK_SECTION_MARKER@, name)
}

/// What the output of a scan says.
pub open spec fn scanned(output: Seq<char>) -> DiskExplorerSnapshotView {
    DiskExplorerSnapshotView {
        mounts: mounts_of(disk_section(output, "mounts"@), disk_section(output, "inodes"@)),
        largest_files: at_most(
            lines_of(disk_section(output, "largest_files"@)).filter_map(
                |line: Seq<char>| largest_file_of(line),
            ),
            MAX_LARGEST as nat,
        ),
        largest_dirs: at_most(
            directories_of(disk_section(output, "largest_dirs"@)),
            MAX_LARGEST as nat,
        ),
        docker_usage: lines_of(disk_section(output, "docker_usage"@)).filter_map(
            |line: Seq<char>| usage_row_of(line),
        ),
    }
}

/// What the output of a scan says.
pub fn parse_disk_scan(output: &str) -> (res: DiskExplorerSnapshot)
    ensures
        res@ == scanned(output@),
{
    let sections = parse_sections(output, DISK_SECTION_MARKER);
    let mounts = parse_mounts(
        sections.section("mounts").as_str(),
        sections.section("inodes").as_str(),
    );
    let largest_files = keep_first(
        parse_largest_files(sections.section("largest_files").as_str()),
        MAX_LARGEST,
    );
    let largest_dirs = keep_first(
        parse_directories(sections.section("largest_dirs").as_str()),
        MAX_LARGEST,
    );
    let docker_usage = parse_usage_rows(sections.section("docker_usage").as_str());
    DiskExplorerSnapshot { mounts, largest_files, largest_dirs, docker_usage }
}

/// A mounted file system is read back from its line, with its sizes in kibibytes.
pub proof fn mounts_read_back(fields: Seq<Seq<char>>, total: u64, used: u64, available: u64)
    requires
        fields.len() >= 6,
        forall|i: int| 0 <= i < fields.len() ==> is_word(#[trigger] fields[i]),
        u64_in(fields[1]) == Some(total),
        u64_in(fields[2]) == Some(used),
        u64_in(fields[3]) == Some(available),
        0 < total * 1024 <= u64::MAX,
        used * 1024 <= u64::MAX,
        available * 1024 <= u64::MAX,
    ensures
        mount_of(join(fields, " "@)) matches Some(mount) && {
            &&& mount.filesystem == fields[0]
            &&& mount.total_bytes == total * 1024
            &&& mount.used_bytes == used * 1024
            &&& mount.available_bytes == available * 1024
            &&& mount.percent == without_percent(fields[4])
            &&& mount.mount == join(fields.skip(5), " "@)
        },
{
    joined_words_read_back(fields);
}

/// The inodes of a file system are told of the one that they were printed for, and change
/// nothing else.
pub proof fn inodes_go_to_their_mount(mounts: Seq<DiskMountView>, fields: Seq<Seq<char>>, at: int)
    requires
        fields.len() == 6,
        fields[0] == "inode"@,
        forall|i: int| 0 <= i < fields.len() ==> !(#[trigger] fields[i]).contains('\t'),
        0 <= at < mounts.len(),
        mounts[at].filesystem == fields[1] && mounts[at].mount == fields[5],
        forall|i: int|
            0 <= i < at ==> (#[trigger] mounts[i]).filesystem != fields[1] || mounts[i].mount
                != fields[5],
    ensures
        with_inodes(mounts, join(fields, seq!['\t'])) == mounts.update(
            at,
            DiskMountView {
                inode_total: u64_in(fields[2]),
                inode_used: u64_in(fields[3]),
                inode_percent: Some(without_percent(fields[4])),
                ..mounts[at]
            },
        ),
{
    joined_parts_read_back(fields, '\t');
    assert(fields.skip(5) =~= seq![fields[5]]);
    assert(join(fields.skip(5), " "@) == fields[5]);
    lemma_first_mount(mounts, fields[1], fields[5], at);
}

proof fn lemma_first_mount(
    mounts: Seq<DiskMountView>,
    filesystem: Seq<char>,
    mount: Seq<char>,
    at: int,
)
    requires
        0 <= at < mounts.len(),
        mounts[at].filesystem == filesystem && mounts[at].mount == mount,
        forall|i: int|
            0 <= i < at ==> (#[trigger] mounts[i]).filesystem != filesystem || mounts[i].mount
                != mount,
    ensures
        first_mount(mounts, filesystem, mount) == at,
    decreases mounts.len(),
{
    if at > 0 {
        assert(mounts[0].filesystem != filesystem || mounts[0].mount != mount);
        let rest = mounts.skip(1);
        assert forall|i: int| 0 <= i < at - 1 implies (#[trigger] rest[i]).filesystem != filesystem
            || rest[i].mount != mount by {
            assert(rest[i] == mounts[i + 1]);
        }
        lemma_first_mount(rest, filesystem, mount, at - 1);
    }
}

/// A large file is read back from its line, and so is a large directory, with its size in
/// kibibytes.
pub proof fn large_entries_read_back(
    number: Seq<char>,
    time: Seq<char>,
    path: Seq<char>,
    size: u64,
)
    requires
        u64_in(number) == Some(size),
        !number.contains('\t'),
        !time.contains('\t'),
        path.len() > 0,
        !is_space(path[0]) && !is_space(path.last()),
    ensures
        largest_file_of(join(seq![number, time, path], seq!['\t'])) matches Some(file)
            && file.path == path && file.size_bytes == size && file.modified_at == modified_of(time),
        directory_of(join(seq![number, path], seq!['\t'])) matches Some(directory) && {
            &&& directory.path == path
            &&& size * 1024 <= u64::MAX ==> directory.size_bytes == size * 1024
            &&& directory.depth == depth_of(path)
        },
{
    limited_parts_read_back(seq![number, time, path], '\t');
    limited_parts_read_back(seq![number, path], '\t');
    let none = Seq::<char>::empty();
    assert(none + path + none =~= path);
    trimming_takes_off_spaces(none, path, none);
}

/// What each unit that Docker prints is worth.
pub proof fn docker_units_are_worth(unit: Seq<char>)
    ensures
        docker_unit("k"@) == 1000,
        docker_unit("kb"@) == 1000,
        docker_unit("m"@) == 1000000,
        docker_unit("mb"@) == 1000000,
        docker_unit("g"@) == 1000000000,
        docker_unit("gb"@) == 1000000000,
        docker_unit("t"@) == 1000000000000,
        docker_unit("tb"@) == 1000000000000,
        docker_unit("p"@) == 1000000000000000,
        docker_unit("pb"@) == 1000000000000000,
        docker_unit("e"@) == 1000000000000000000,
        docker_unit("eb"@) == 1000000000000000000,
        docker_unit("ki"@) == 1024,
        docker_unit("kib"@) == 1024,
        docker_unit("mi"@) == 1048576,
        docker_unit("mib"@) == 1048576,
        docker_unit("gi"@) == 1073741824,
        docker_unit("gib"@) == 1073741824,
        docker_unit("ti"@) == 1099511627776,
        docker_unit("tib"@) == 1099511627776,
        docker_unit("b"@) == 1,
        docker_unit(Seq::empty()) == 1,
{
    reveal_strlit("k");
    reveal_strlit("kb");
    reveal_strlit("m");
    reveal_strlit("mb");
    reveal_strlit("g");
    reveal_strlit("gb");
    reveal_strlit("t");
    reveal_strlit("tb");
    reveal_strlit("p");
    reveal_strlit("pb");
    reveal_strlit("e");
    reveal_strlit("eb");
    reveal_strlit("ki");
    reveal_strlit("kib");
    reveal_strlit("mi");
    reveal_strlit("mib");
    reveal_strlit("gi");
    reveal_strlit("gib");
    reveal_strlit("ti");
    reveal_strlit("tib");
    reveal_strlit("b");
    assert("k"@.len() == 1);
    assert("kb"@.len() == 2);
    assert("m"@.len() == 1);
    assert("mb"@.len() == 2);
    assert("g"@.len() == 1);
    assert("gb"@.len() == 2);
    assert("t"@.len() == 1);
    assert("tb"@.len() == 2);
    assert("p"@.len() == 1);
    assert("pb"@.len() == 2);
    assert("e"@.len() == 1);
    assert("eb"@.len() == 2);
    assert("ki"@.len() == 2);
    assert("kib"@.len() == 3);
    assert("mi"@.len() == 2);
    assert("mib"@.len() == 3);
    assert("gi"@.len() == 2);
    assert("gib"@.len() == 3);
    assert("ti"@.len() == 2);
    assert("tib"@.len() == 3);
    assert("b"@.len() == 1);
    assert("k"@[0] == 'k');
    assert("m"@[0] == 'm');
    assert("g"@[0] == 'g');
    assert("t"@[0] == 't');
    assert("p"@[0] == 'p');
    assert("e"@[0] == 'e');
    assert("b"@[0] == 'b');
    assert("kb"@[0] == 'k');
    assert("mb"@[0] == 'm');
    assert("gb"@[0] == 'g');
    assert("tb"@[0] == 't');
    assert("pb"@[0] == 'p');
    assert("eb"@[0] == 'e');
    assert("kb"@[1] == 'b');
    assert("ki"@[1] == 'i');
    assert("mi"@[0] == 'm');
    assert("gi"@[0] == 'g');
    assert("ti"@[0] == 't');
    assert("ki"@[0] == 'k');
    assert("mb"@[1] == 'b');
    assert("mi"@[1] == 'i');
    assert("gb"@[1] == 'b');
    assert("gi"@[1] == 'i');
    assert("tb"@[1] == 'b');
    assert("ti"@[1] == 'i');
    assert("kib"@[0] == 'k');
    assert("mib"@[0] == 'm');
    assert("gib"@[0] == 'g');
    assert("tib"@[0] == 't');
}

/// Every kind of Docker's storage is counted once: what is known under its own name, and
/// everything else together; and what can be freed is added up.
pub proof fn docker_storage_adds_up(
    rows: Seq<KindUsageView>,
    row: KindUsageView,
)
    ensures
        row.kind == "Images"@ ==> (usage_of(rows.push(row)) matches Some(usage)
            && usage.images_bytes == row.size),
        row.kind == "Containers"@ ==> (usage_of(rows.push(row)) matches Some(usage)
            && usage.containers_bytes == row.size),
        row.kind == "Local Volumes"@ ==> (usage_of(rows.push(row)) matches Some(usage)
            && usage.volumes_bytes == row.size),
        row.kind == "Build Cache"@ ==> (usage_of(rows.push(row)) matches Some(usage)
            && usage.build_cache_bytes == row.size),
        row.kind != "Images"@ && row.kind != "Containers"@ && row.kind != "Local Volumes"@
            && row.kind != "Build Cache"@ && other_size(rows) + row.size <= u64::MAX ==> (usage_of(
            rows.push(row),
        ) matches Some(usage) && usage.other_bytes == other_size(rows) + row.size),
        usage_of(rows) matches Some(usage) ==> usage.images_bytes + usage.containers_bytes
            + usage.volumes_bytes + usage.build_cache_bytes + usage.other_bytes <= u64::MAX
            ==> usage.total_bytes == usage.images_bytes + usage.containers_bytes
            + usage.volumes_bytes + usage.build_cache_bytes + usage.other_bytes,
        reclaimable_size(rows) + row.reclaimable <= u64::MAX ==> reclaimable_size(rows.push(row))
            == reclaimable_size(rows) + row.reclaimable,
        usage_of(rows) matches Some(usage) ==> usage.reclaimable_bytes == usage.total_bytes
            || usage.reclaimable_bytes == reclaimable_size(rows),
        reclaimable_size(Seq::empty()) == 0,
        other_size(Seq::empty()) == 0,
{
    assert(rows.push(row).drop_last() =~= rows);
    reveal_strlit("Images");
    reveal_strlit("Containers");
    reveal_strlit("Local Volumes");
    reveal_strlit("Build Cache");
    assert("Images"@.len() == 6);
    assert("Containers"@.len() == 10);
    assert("Local Volumes"@.len() == 13);
    assert("Build Cache"@.len() == 11);
}

/// A row of Docker's storage is read back, with what it holds and what can be freed of it.
pub proof fn usage_rows_read_back(fields: Seq<Seq<char>>)
    requires
        fields.len() == 5,
        forall|i: int| 0 <= i < fields.len() ==> !(#[trigger] fields[i]).contains('\t'),
    ensures
        usage_row_of(join(fields, seq!['\t'])) == Some(
            UsageRowView {
                kind: fields[0],
                size: docker_size(fields[3]),
                reclaimable: docker_size(fields[4]),
            },
        ),
{
    joined_parts_read_back(fields, '\t');
}

/// The parts of a scan are shown where they belong.
pub proof fn scans_are_shown_in_their_places(output: Seq<char>)
    ensures
        scanned(output).mounts == mounts_of(
            section_text(lines_of(output), "__SERVERBOX_DISK_V1__"@, "mounts"@),
            section_text(lines_of(output), "__SERVERBOX_DISK_V1__"@, "inodes"@),
        ),
        scanned(output).largest_files.len() <= 60,
        scanned(output).largest_dirs.len() <= 60,
        scanned(output).largest_dirs == at_most(
            directories_of(
                section_text(lines_of(output), "__SERVERBOX_DISK_V1__"@, "largest_dirs"@),
            ),
            60,
        ),
        scanned(output).largest_files == at_most(
            lines_of(
                section_text(lines_of(output), "__SERVERBOX_DISK_V1__"@, "largest_files"@),
            ).filter_map(|line: Seq<char>| largest_file_of(line)),
            60,
        ),
        scanned(output).docker_usage == lines_of(
            section_text(lines_of(output), "__SERVERBOX_DISK_V1__"@, "docker_usage"@),
        ).filter_map(|line: Seq<char>| usage_row_of(line)),
{
}

/// The fullest file systems come first.
pub proof fn the_fullest_come_first(mounts: Seq<RankedMountView>)
    ensures
        forall|i: int, j: int|
            0 <= i < j < sorted_by(mounts, fuller()).len() ==> (#[trigger] sorted_by(
                mounts,
                fuller(),
            )[i]).rank >= (#[trigger] sorted_by(mounts, fuller())[j]).rank,
        sorted_by(mounts, fuller()).to_multiset() == mounts.to_multiset(),
{
    sorting_sorts(mounts, fuller());
    let sorted = sorted_by(mounts, fuller());
    assert forall|i: int, j: int| 0 <= i < j < sorted.len() implies (#[trigger] sorted[i]).rank >= (
    #[trigger] sorted[j]).rank by {
        assert(!fuller()(sorted[j], sorted[i]));
    }
}

} // verus!
