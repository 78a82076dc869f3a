//! Files of a server: listing, reading, changing and deleting them.
use crate::models::{Page, RemoteFile, RemoteFileView};
use crate::paging::{at_most, page, page_limit, page_size, shows};
use crate::paths::{
    file_name, file_name_of, joined_directories_are_read_back, joined_names_are_read_back, parent,
    parent_of,
};
use crate::providers::packages::behind;
use crate::sorting::{sort_texts, sorted_texts};
use crate::ssh::{join_path, joined_path, quote_shell, quoted, text_result, OPERATION_CANCELLED};
use crate::text::{
    all_chars, begins_with, chars_of, copy, every_char, glue2, glue5, is_char, is_digit, is_space,
    join, joined_parts_read_back, lemma_views_push, opt_view, parts, parts_of, piece, same,
    starts_with, string_of, trim, trim_start_where, trimmed, trimmed_start_of,
    trimming_takes_off_spaces, views,
};
use crate::utf8::{decode_lossy, lossy_text, valid_text_is_kept};
use vstd::utf8::{valid_utf8, decode_utf8};
use vstd::prelude::*;

verus! {

broadcast use vstd::string::group_string_axioms;

// ---------------------------------------------------------------------------
// Modes
// ---------------------------------------------------------------------------

/// Whether a mode is that of a directory. A file without a mode is none.
pub open spec fn is_directory_mode(mode: Option<u32>) -> bool {
    match mode {
        Some(bits) => bits & 0o170000 == 0o040000,
        None => false,
    }
}

pub fn is_directory(mode: Option<u32>) -> (res: bool)
    ensures
        res == is_directory_mode(mode),
{
    match mode {
        Some(bits) => bits & 0o170000 == 0o040000,
        None => false,
    }
}

/// A character where a bit is set, and a dash where it is not.
pub open spec fn bit_char(bits: u32, bit: u32, c: char) -> char {
    if bits & bit != 0 {
        c
    } else {
        '-'
    }
}

/// The rights of a mode, as `ls` prints them.
pub open spec fn rights_of(bits: u32) -> Seq<char> {
    seq![
        bit_char(bits, 0o400, 'r'),
        bit_char(bits, 0o200, 'w'),
        bit_char(bits, 0o100, 'x'),
        bit_char(bits, 0o040, 'r'),
        bit_char(bits, 0o020, 'w'),
        bit_char(bits, 0o010, 'x'),
        bit_char(bits, 0o004, 'r'),
        bit_char(bits, 0o002, 'w'),
        bit_char(bits, 0o001, 'x'),
    ]
}

fn show_bit(bits: u32, bit: u32, c: char) -> (res: char)
    ensures
        res == bit_char(bits, bit, c),
{
    if bits & bit != 0 {
        c
    } else {
        '-'
    }
}

pub fn permissions_string(bits: u32) -> (res: String)
    ensures
        res@ == rights_of(bits),
{
    let mut out: Vec<char> = Vec::new();
    out.push(show_bit(bits, 0o400, 'r'));
    out.push(show_bit(bits, 0o200, 'w'));
    out.push(show_bit(bits, 0o100, 'x'));
    out.push(show_bit(bits, 0o040, 'r'));
    out.push(show_bit(bits, 0o020, 'w'));
    out.push(show_bit(bits, 0o010, 'x'));
    out.push(show_bit(bits, 0o004, 'r'));
    out.push(show_bit(bits, 0o002, 'w'));
    out.push(show_bit(bits, 0o001, 'x'));
    assert(out@ =~= rights_of(bits));
    string_of(&out)
}

/// What the server says of a file.
#[derive(Clone, Copy, Debug, PartialEq, Eq, Structural)]
pub struct RemoteStat {
    pub size: Option<u64>,
    pub mtime: Option<u64>,
    pub perm: Option<u32>,
    pub uid: Option<u32>,
    pub gid: Option<u32>,
}

/// What kind of file a mode is.
pub open spec fn kind_of(mode: Option<u32>) -> Seq<char> {
    let bits: u32 = match mode {
        Some(bits) => bits,
        None => 0,
    };
    if bits & 0o170000 == 0o040000 {
        "directory"@
    } else if bits & 0o170000 == 0o120000 {
        "symlink"@
    } else {
        "file"@
    }
}

/// A file as it is shown.
pub open spec fn shown_file(path: Seq<char>, stat: RemoteStat, hidden: bool) -> RemoteFileView {
    RemoteFileView {
        name: match file_name_of(path) {
            Some(name) => name,
            None => path,
        },
        path,
        kind: kind_of(stat.perm),
        size_bytes: match stat.size {
            Some(size) => size,
            None => 0,
        },
        modified_at: match stat.mtime {
            Some(time) => Some(time as i64),
            None => None,
        },
        permissions: match stat.perm {
            Some(bits) => Some(rights_of(bits)),
            None => None,
        },
        uid: stat.uid,
        gid: stat.gid,
        hidden,
    }
}

/// A file as it is shown.
pub fn remote_file(path: &str, stat: &RemoteStat, hidden: bool) -> (res: RemoteFile)
    ensures
        res@ == shown_file(path@, *stat, hidden),
{
    let bits: u32 = match stat.perm {
        Some(bits) => bits,
        None => 0,
    };
    let kind = if bits & 0o170000 == 0o040000 {
        copy("directory")
    } else if bits & 0o170000 == 0o120000 {
        copy("symlink")
    } else {
        copy("file")
    };
    RemoteFile {
        name: match file_name(path) {
            Some(name) => name,
            None => copy(path),
        },
        path: copy(path),
        kind,
        size_bytes: match stat.size {
            Some(size) => size,
            None => 0,
        },
        modified_at: match stat.mtime {
            Some(time) => Some(time as i64),
            None => None,
        },
        permissions: match stat.perm {
            Some(bits) => Some(permissions_string(bits)),
            None => None,
        },
        uid: stat.uid,
        gid: stat.gid,
        hidden,
    }
}

// ---------------------------------------------------------------------------
// Listing
// ---------------------------------------------------------------------------

/// An entry of a directory.
#[verifier::ext_equal]
pub struct EntryView {
    pub name: Seq<char>,
    pub stat: RemoteStat,
}

/// The file that an entry of a directory is shown as. The directory itself and the one
/// above it are not shown, and hidden files only where they are asked for.
pub open spec fn visible_file(dir: Seq<char>, show_hidden: bool, entry: EntryView) -> Option<
    RemoteFileView,
> {
    if entry.name == "."@ || entry.name == ".."@ {
        None
    } else {
        match file_name_of(entry.name) {
            None => None,
            Some(name) => {
                let hidden = starts_with(name, "."@);
                if hidden && !show_hidden {
                    None
                } else {
                    Some(shown_file(joined_path(dir, entry.name), entry.stat, hidden))
                }
            },
        }
    }
}

/// The files of a directory that are shown.
pub open spec fn visible_files(dir: Seq<char>, show_hidden: bool, entries: Seq<EntryView>) -> Seq<
    RemoteFileView,
> {
    entries.filter_map(|entry: EntryView| visible_file(dir, show_hidden, entry))
}

/// A page of a directory that is read entry by entry.
pub struct FileLister {
    pub dir: String,
    pub show_hidden: bool,
    pub offset: usize,
    pub limit: usize,
    pub seen: usize,
    pub items: Vec<RemoteFile>,
}

#[verifier::ext_equal]
pub struct FileListerView {
    pub dir: Seq<char>,
    pub show_hidden: bool,
    pub offset: usize,
    pub limit: usize,
    pub seen: usize,
    pub items: Seq<RemoteFileView>,
}

impl View for FileLister {
    type V = FileListerView;

    open spec fn view(&self) -> FileListerView {
        FileListerView {
            dir: self.dir@,
            show_hidden: self.show_hidden,
            offset: self.offset,
            limit: self.limit,
            seen: self.seen,
            items: views(self.items@),
        }
    }
}

/// A lister that has read nothing.
pub open spec fn fresh_lister(dir: Seq<char>, show_hidden: bool, offset: usize, limit: usize) -> FileListerView {
    FileListerView {
        dir,
        show_hidden,
        offset,
        limit: page_size(limit),
        seen: 0,
        items: Seq::empty(),
    }
}

/// The lister after one more entry. Once it has one file more than the page shows, it takes
/// no more.
pub open spec fn lister_step(lister: FileListerView, entry: EntryView) -> FileListerView {
    if lister.items.len() > lister.limit {
        lister
    } else {
        match visible_file(lister.dir, lister.show_hidden, entry) {
            None => lister,
            Some(file) => if lister.seen < lister.offset {
                FileListerView { seen: (lister.seen + 1) as usize, ..lister }
            } else {
                FileListerView { items: lister.items.push(file), ..lister }
            },
        }
    }
}

pub open spec fn lister_after(start: FileListerView, entries: Seq<EntryView>) -> FileListerView
    decreases entries.len(),
{
    if entries.len() == 0 {
        start
    } else {
        lister_step(lister_after(start, entries.drop_last()), entries.last())
    }
}

impl FileLister {
    /// A lister that has read nothing.
    pub fn new(dir: &str, show_hidden: bool, offset: usize, limit: usize) -> (res: Self)
        ensures
            res@ == fresh_lister(dir@, show_hidden, offset, limit),
    {
        let items: Vec<RemoteFile> = Vec::new();
        assert(views(items@) =~= Seq::empty());
        FileLister {
            dir: copy(dir),
            show_hidden,
            offset,
            limit: page_limit(limit),
            seen: 0,
            items,
        }
    }

    /// Takes the next entry of the directory, and tells whether more are wanted.
    pub fn offer(&mut self, name: &str, stat: &RemoteStat) -> (more: bool)
        ensures
            final(self)@ == lister_step(old(self)@, EntryView { name: name@, stat: *stat }),
            more == (final(self)@.items.len() <= final(self)@.limit),
    {
        broadcast use lemma_views_push;

        if self.items.len() > self.limit {
            return false;
        }
        if same(name, ".") || same(name, "..") {
            return true;
        }
        let base = match file_name(name) {
            None => {
                return true;
            },
            Some(base) => base,
        };
        let hidden = begins_with(&chars_of(base.as_str()), ".");
        if hidden && !self.show_hidden {
            return true;
        }
        if self.seen < self.offset {
            self.seen = self.seen + 1;
            return true;
        }
        let file = remote_file(join_path(self.dir.as_str(), name).as_str(), stat, hidden);
        self.items.push(file);
        self.items.len() <= self.limit
    }

    /// The page.
    pub fn finish(self) -> (res: Page<RemoteFile>)
        ensures
            shows(res, self@.items, self@.limit),
    {
        page(self.items, self.limit)
    }
}

proof fn lemma_lister(start: FileListerView, entries: Seq<EntryView>)
    requires
        start.seen == 0,
        start.items.len() == 0,
    ensures
        ({
            let files = visible_files(start.dir, start.show_hidden, entries);
            let after = lister_after(start, entries);
            &&& after.dir == start.dir && after.show_hidden == start.show_hidden && after.offset
                == start.offset && after.limit == start.limit
            &&& after.items == at_most(behind(files, start.offset), (start.limit + 1) as nat)
            &&& after.seen == if files.len() < start.offset {
                files.len() as int
            } else {
                start.offset as int
            }
        }),
    decreases entries.len(),
{
    let pick = |entry: EntryView| visible_file(start.dir, start.show_hidden, entry);
    if entries.len() == 0 {
        assert(entries.filter_map(pick) =~= Seq::empty());
        assert(start.items =~= Seq::empty());
        assert(behind(Seq::<RemoteFileView>::empty(), start.offset) =~= Seq::empty());
    } else {
        let before = entries.drop_last();
        lemma_lister(start, before);
        let files = visible_files(start.dir, start.show_hidden, before);
        match pick(entries.last()) {
            Some(file) => {
                let more = visible_files(start.dir, start.show_hidden, entries);
                assert(more =~= files.push(file));
                if files.len() < start.offset {
                    assert(behind(more, start.offset) =~= Seq::empty());
                    assert(behind(files, start.offset) =~= Seq::empty());
                } else {
                    assert(behind(more, start.offset) =~= behind(files, start.offset).push(file));
                    let a = behind(files, start.offset);
                    let n = (start.limit + 1) as nat;
                    if a.len() > n {
                        assert(at_most(a.push(file), n) =~= at_most(a, n));
                    } else if a.len() == n {
                        assert(at_most(a.push(file), n) =~= a);
                    } else {
                        assert(at_most(a.push(file), n) =~= a.push(file));
                    }
                }
            },
            None => {
                assert(visible_files(start.dir, start.show_hidden, entries) =~= files);
            },
        }
    }
}

/// A page of a directory shows the visible files behind its offset, in the order in which
/// the server lists them, and says whether there are more.
pub proof fn pages_show_visible_files(
    dir: Seq<char>,
    show_hidden: bool,
    offset: usize,
    limit: usize,
    entries: Seq<EntryView>,
    res: Page<RemoteFile>,
)
    requires
        ({
            let after = lister_after(fresh_lister(dir, show_hidden, offset, limit), entries);
            shows(res, after.items, after.limit)
        }),
    ensures
        shows(res, behind(visible_files(dir, show_hidden, entries), offset), page_size(limit)),
{
    let start = fresh_lister(dir, show_hidden, offset, limit);
    lemma_lister(start, entries);
    let files = behind(visible_files(dir, show_hidden, entries), offset);
    let size = page_size(limit) as nat;
    assert(at_most(at_most(files, size + 1), size) =~= at_most(files, size));
}

// ---------------------------------------------------------------------------
// Log files
// ---------------------------------------------------------------------------

/// How deep below the first directory log files are looked for.
pub const MAX_LOG_DEPTH: u8 = 4;

pub const MAX_LOG_FILES: usize = 500;

/// A directory that is still to be read. `handle` is what the caller knows it by.
#[derive(Clone, Copy, Debug, PartialEq, Eq, Structural)]
pub struct PendingDirectory {
    pub handle: u64,
    pub depth: u8,
}

/// A search for log files, breadth first.
pub struct LogWalk {
    pub pending: Vec<PendingDirectory>,
    pub files: Vec<String>,
}

#[verifier::ext_equal]
pub struct LogWalkView {
    pub pending: Seq<PendingDirectory>,
    pub files: Seq<Seq<char>>,
}

impl View for LogWalk {
    type V = LogWalkView;

    open spec fn view(&self) -> LogWalkView {
        LogWalkView { pending: self.pending@, files: views(self.files@) }
    }
}

/// The search after one more entry of a directory at `depth`.
pub open spec fn walk_step(
    walk: LogWalkView,
    depth: u8,
    directory: bool,
    handle: u64,
    path: Seq<char>,
) -> LogWalkView {
    if directory {
        if depth < MAX_LOG_DEPTH {
            LogWalkView {
                pending: walk.pending.push(PendingDirectory { handle, depth: (depth + 1) as u8 }),
                ..walk
            }
        } else {
            walk
        }
    } else {
        let files = walk.files.push(path);
        LogWalkView {
            pending: if files.len() >= MAX_LOG_FILES {
                Seq::empty()
            } else {
                walk.pending
            },
            files,
        }
    }
}

impl LogWalk {
    /// A search that begins at a directory.
    pub fn new(handle: u64) -> (res: Self)
        ensures
            res@.pending == seq![PendingDirectory { handle, depth: 0 }],
            res@.files == Seq::<Seq<char>>::empty(),
    {
        let mut pending: Vec<PendingDirectory> = Vec::new();
        pending.push(PendingDirectory { handle, depth: 0 });
        let files: Vec<String> = Vec::new();
        assert(views(files@) =~= Seq::empty());
        assert(pending@ =~= seq![PendingDirectory { handle, depth: 0 }]);
        LogWalk { pending, files }
    }

    /// The directory to read next.
    pub fn next(&mut self) -> (res: Option<PendingDirectory>)
        ensures
            match res {
                Some(directory) => old(self)@.pending.len() > 0 && directory
                    == old(self)@.pending[0] && final(self)@ == (LogWalkView {
                    pending: old(self)@.pending.skip(1),
                    ..old(self)@
                }),
                None => old(self)@.pending.len() == 0 && final(self)@ == old(self)@,
            },
    {
        if self.pending.len() == 0 {
            return None;
        }
        let ghost before = self.pending@;
        let directory = self.pending.remove(0);
        assert(self.pending@ =~= before.skip(1));
        Some(directory)
    }

    /// Takes an entry of a directory at `depth`, and tells whether the directory is read on.
    pub fn entry(&mut self, depth: u8, directory: bool, handle: u64, path: String) -> (more: bool)
        ensures
            final(self)@ == walk_step(old(self)@, depth, directory, handle, path@),
            more == (directory || final(self)@.files.len() < MAX_LOG_FILES),
    {
        broadcast use lemma_views_push;

        if directory {
            if depth < MAX_LOG_DEPTH {
                self.pending.push(PendingDirectory { handle, depth: depth + 1 });
            }
            return true;
        }
        self.files.push(path);
        if self.files.len() >= MAX_LOG_FILES {
            self.pending = Vec::new();
            assert(self.pending@ =~= Seq::empty());
            return false;
        }
        true
    }

    /// The files that were found, in order.
    pub fn finish(self) -> (res: Vec<String>)
        ensures
            views(res@) == sorted_texts(self@.files),
    {
        sort_texts(self.files)
    }
}

/// A directory that cannot be opened is passed over, unless it is the first.
pub fn log_directory_closed(depth: u8) -> (res: Result<(), String>)
    ensures
        crate::ssh::error_result(res) == if depth == 0 {
            Err::<(), Seq<char>>("The remote /var/log directory is unavailable"@)
        } else {
            Ok(())
        },
{
    if depth == 0 {
        Err(copy("The remote /var/log directory is unavailable"))
    } else {
        Ok(())
    }
}

/// Whether a search keeps to its bounds.
pub open spec fn within_bounds(walk: LogWalkView) -> bool {
    &&& walk.files.len() <= MAX_LOG_FILES
    &&& walk.files.len() == MAX_LOG_FILES ==> walk.pending.len() == 0
    &&& forall|i: int|
        0 <= i < walk.pending.len() ==> (#[trigger] walk.pending[i]).depth <= MAX_LOG_DEPTH
}

/// The search keeps to its bounds: it finds no more files than it may, looks no deeper than
/// it may, and ends once it has found enough.
pub proof fn searches_are_bounded(
    walk: LogWalkView,
    depth: u8,
    directory: bool,
    handle: u64,
    path: Seq<char>,
)
    requires
        within_bounds(walk),
        walk.files.len() < MAX_LOG_FILES,
        depth <= MAX_LOG_DEPTH,
    ensures
        within_bounds(walk_step(walk, depth, directory, handle, path)),
{
    let after = walk_step(walk, depth, directory, handle, path);
    assert forall|i: int| 0 <= i < after.pending.len() implies (
    #[trigger] after.pending[i]).depth <= MAX_LOG_DEPTH by {
        if i < walk.pending.len() {
            assert(after.pending[i] == walk.pending[i]);
        }
    }
}

// ---------------------------------------------------------------------------
// The editor
// ---------------------------------------------------------------------------

/// The most bytes of a file in the editor.
pub const MAX_EDITOR_BYTES: usize = 5242880;

pub const FILE_TOO_LARGE: &'static str = "This editor is limited to files smaller than 5 MB";

pub const FILE_IS_BINARY: &'static str = "That file looks binary and cannot be previewed in the editor";

/// Whether a file of so many bytes can be edited.
pub open spec fn size_verdict(bytes: nat) -> Result<(), Seq<char>> {
    if bytes > MAX_EDITOR_BYTES {
        Err(FILE_TOO_LARGE@)
    } else {
        Ok(())
    }
}

/// Takes the next bytes of a file that is read.
pub fn read_chunk(bytes: &mut Vec<u8>, chunk: &[u8]) -> (res: Result<(), String>)
    ensures
        final(bytes)@ == old(bytes)@ + chunk@,
        crate::ssh::error_result(res) == size_verdict(final(bytes)@.len()),
{
    crate::utf8::extend(bytes, chunk);
    if bytes.len() > MAX_EDITOR_BYTES {
        Err(copy(FILE_TOO_LARGE))
    } else {
        Ok(())
    }
}

/// The text of a file; one with a zero byte is no text.
pub open spec fn file_text(bytes: Seq<u8>) -> Result<Seq<char>, Seq<char>> {
    if bytes.contains(0u8) {
        Err(FILE_IS_BINARY@)
    } else {
        Ok(lossy_text(bytes))
    }
}

/// The text of a file that was read.
pub fn read_file(bytes: &[u8]) -> (res: Result<String, String>)
    ensures
        text_result(res) == file_text(bytes@),
{
    let mut i: usize = 0;
    while i < bytes.len()
        invariant
            i <= bytes@.len(),
            forall|j: int| 0 <= j < i ==> bytes@[j] != 0,
        decreases bytes@.len() - i,
    {
        if bytes[i] == 0 {
            assert(bytes@[i as int] == 0u8);
            return Err(copy(FILE_IS_BINARY));
        }
        i += 1;
    }
    Ok(decode_lossy(bytes))
}

/// Accepts a text that the editor may save.
pub fn check_content(content: &str) -> (res: Result<(), String>)
    ensures
        crate::ssh::error_result(res) == size_verdict(crate::utf8::byte_len(content@)),
{
    if crate::utf8::byte_length(content) > MAX_EDITOR_BYTES {
        Err(copy(FILE_TOO_LARGE))
    } else {
        Ok(())
    }
}

// ---------------------------------------------------------------------------
// Actions
// ---------------------------------------------------------------------------

/// The number that octal digits write.
pub open spec fn octal_value(s: Seq<char>) -> nat
    decreases s.len(),
{
    if s.len() == 0 {
        0
    } else {
        octal_value(s.drop_last()) * 8 + (s.last() as nat - 48) as nat
    }
}

pub open spec fn octal_digit() -> spec_fn(char) -> bool {
    |c: char| '0' <= c && c <= '7'
}

/// The mode that a text writes in octal digits, without leading zeros.
pub open spec fn mode_of(text: Seq<char>) -> Option<u32> {
    let s = trim_start_where(trim(text), is_char('0'));
    let digits = if s.len() > 0 && s[0] == '+' {
        s.skip(1)
    } else {
        s
    };
    if digits.len() > 0 && every_char(digits, octal_digit()) && octal_value(digits) <= u32::MAX {
        Some(octal_value(digits) as u32)
    } else {
        None
    }
}

proof fn lemma_octal_grows(s: Seq<char>, k: int)
    requires
        0 <= k <= s.len(),
    ensures
        octal_value(s.take(k)) <= octal_value(s),
    decreases s.len(),
{
    if k == s.len() {
        assert(s.take(k) =~= s);
    } else {
        lemma_octal_grows(s.drop_last(), k);
        assert(s.drop_last().take(k) =~= s.take(k));
    }
}

fn parse_mode(text: &str) -> (res: Option<u32>)
    ensures
        res == mode_of(text@),
{
    let s = trimmed_start_of(&trimmed(&chars_of(text)), '0');
    let start: usize = if s.len() > 0 && s[0] == '+' {
        1
    } else {
        0
    };
    let digits = piece(&s, start, s.len());
    assert(digits@ =~= if s@.len() > 0 && s@[0] == '+' {
        s@.skip(1)
    } else {
        s@
    });
    if digits.len() == 0 {
        return None;
    }
    let mut value: u32 = 0;
    let mut i: usize = 0;
    assert(digits@.take(0) =~= Seq::empty());
    while i < digits.len()
        invariant
            i <= digits@.len(),
            forall|j: int| 0 <= j < i ==> octal_digit()(#[trigger] digits@[j]),
            value == octal_value(digits@.take(i as int)),
            mode_of(text@) == if digits@.len() > 0 && every_char(digits@, octal_digit())
                && octal_value(digits@) <= u32::MAX {
                Some(octal_value(digits@) as u32)
            } else {
                None
            },
        decreases digits@.len() - i,
    {
        let c = digits[i];
        if !('0' <= c && c <= '7') {
            assert(!octal_digit()(digits@[i as int]));
            return None;
        }
        let d: u32 = c as u32 - 48;
        proof {
            assert(digits@.take(i + 1).drop_last() =~= digits@.take(i as int));
            assert(octal_value(digits@.take(i + 1)) == value * 8 + d);
            lemma_octal_grows(digits@, i + 1);
        }
        if value > 0x1fff_ffff || value * 8 > 0xffff_ffff - d {
            return None;
        }
        value = value * 8 + d;
        i += 1;
    }
    assert(digits@.take(digits@.len() as int) =~= digits@);
    Some(value)
}

pub open spec fn digit_char() -> spec_fn(char) -> bool {
    |c: char| is_digit(c)
}

/// The user and the group that a text names by numbers.
pub open spec fn owner_of(text: Seq<char>) -> Result<(Seq<char>, Seq<char>), Seq<char>> {
    let fields = parts_of(text, ':');
    if !every_char(fields[0], digit_char()) || fields.len() < 2 || !every_char(
        fields[1],
        digit_char(),
    ) {
        Err("Owner must use numeric uid:gid values"@)
    } else if fields.len() > 2 {
        Err("Owner must use uid:gid"@)
    } else {
        Ok((fields[0], fields[1]))
    }
}

fn all_digits(s: &[char]) -> (res: bool)
    ensures
        res == every_char(s@, digit_char()),
{
    let test = |c: char| -> (r: bool)
        ensures
            r == digit_char()(c),
        { crate::text::digit(c) };
    all_chars(s, test, Ghost(digit_char()))
}

/// A change of a file.
#[derive(Debug, PartialEq, Eq)]
pub enum FileAction {
    MakeDirectory,
    Touch,
    Rename { destination: String },
    Delete,
    ChangeMode { mode: u32 },
    /// The command that changes the owner, with root rights.
    ChangeOwner { command: String },
}

#[verifier::ext_equal]
pub enum FileActionView {
    MakeDirectory,
    Touch,
    Rename { destination: Seq<char> },
    Delete,
    ChangeMode { mode: u32 },
    ChangeOwner { command: Seq<char> },
}

impl View for FileAction {
    type V = FileActionView;

    open spec fn view(&self) -> FileActionView {
        match *self {
            FileAction::MakeDirectory => FileActionView::MakeDirectory,
            FileAction::Touch => FileActionView::Touch,
            FileAction::Rename { destination } => FileActionView::Rename {
                destination: destination@,
            },
            FileAction::Delete => FileActionView::Delete,
            FileAction::ChangeMode { mode } => FileActionView::ChangeMode { mode },
            FileAction::ChangeOwner { command } => FileActionView::ChangeOwner {
                command: command@,
            },
        }
    }
}

pub open spec fn action_result(res: Result<FileAction, String>) -> Result<FileActionView, Seq<char>> {
    match res {
        Ok(action) => Ok(action@),
        Err(error) => Err(error@),
    }
}

/// The change that is asked for, of the file at `path`.
pub open spec fn file_action_of(
    action: Seq<char>,
    path: Seq<char>,
    target: Option<Seq<char>>,
    mode: Option<Seq<char>>,
) -> Result<FileActionView, Seq<char>> {
    if action == "mkdir"@ {
        Ok(FileActionView::MakeDirectory)
    } else if action == "touch"@ {
        Ok(FileActionView::Touch)
    } else if action == "rename"@ {
        match target {
            None => Err("Choose a new name"@),
            Some(name) => Ok(
                FileActionView::Rename {
                    destination: joined_path(
                        match parent_of(path) {
                            Some(dir) => dir,
                            None => "/"@,
                        },
                        name,
                    ),
                },
            ),
        }
    } else if action == "delete"@ {
        Ok(FileActionView::Delete)
    } else if action == "chmod"@ {
        match mode {
            None => Err("Enter a permission mode such as 644"@),
            Some(text) => match mode_of(text) {
                Some(mode) => Ok(FileActionView::ChangeMode { mode }),
                None => Err("Permission mode must be octal, such as 644 or 755"@),
            },
        }
    } else if action == "chown"@ {
        match target {
            None => Err("Enter an owner as uid:gid"@),
            Some(owner) => match owner_of(owner) {
                Err(error) => Err(error),
                Ok((uid, gid)) => Ok(
                    FileActionView::ChangeOwner {
                        command: "chown "@ + uid + ":"@ + gid + " "@ + quoted(path),
                    },
                ),
            },
        }
    } else {
        Err("Unsupported file action"@)
    }
}

fn plan_owner(path: &str, owner: &str) -> (res: Result<FileAction, String>)
    ensures
        action_result(res) == match owner_of(owner@) {
            Err(error) => Err(error),
            Ok((uid, gid)) => Ok(
                FileActionView::ChangeOwner {
                    command: "chown "@ + uid + ":"@ + gid + " "@ + quoted(path@),
                },
            ),
        },
{
    let fields = parts(&chars_of(owner), ':');
    assert(views(fields@)[0] == fields@[0]@);
    if !all_digits(fields[0].as_slice()) || fields.len() < 2 {
        return Err(copy("Owner must use numeric uid:gid values"));
    }
    assert(views(fields@)[1] == fields@[1]@);
    if !all_digits(fields[1].as_slice()) {
        return Err(copy("Owner must use numeric uid:gid values"));
    }
    if fields.len() > 2 {
        return Err(copy("Owner must use uid:gid"));
    }
    let mut command = glue5(
        "chown ",
        string_of(fields[0].as_slice()).as_str(),
        ":",
        string_of(fields[1].as_slice()).as_str(),
        " ",
    );
    command.append(quote_shell(path).as_str());
    Ok(FileAction::ChangeOwner { command })
}

/// The change that is asked for.
pub fn file_action(
    action: &str,
    path: &str,
    target: &Option<String>,
    mode: &Option<String>,
) -> (res: Result<FileAction, String>)
    ensures
        action_result(res) == file_action_of(action@, path@, opt_view(*target), opt_view(*mode)),
{
    if same(action, "mkdir") {
        Ok(FileAction::MakeDirectory)
    } else if same(action, "touch") {
        Ok(FileAction::Touch)
    } else if same(action, "rename") {
        match target {
            None => Err(copy("Choose a new name")),
            Some(name) => {
                let dir = match parent(path) {
                    Some(dir) => dir,
                    None => copy("/"),
                };
                Ok(FileAction::Rename { destination: join_path(dir.as_str(), name.as_str()) })
            },
        }
    } else if same(action, "delete") {
        Ok(FileAction::Delete)
    } else if same(action, "chmod") {
        match mode {
            None => Err(copy("Enter a permission mode such as 644")),
            Some(text) => match parse_mode(text.as_str()) {
                Some(mode) => Ok(FileAction::ChangeMode { mode }),
                None => Err(copy("Permission mode must be octal, such as 644 or 755")),
            },
        }
    } else if same(action, "chown") {
        match target {
            None => Err(copy("Enter an owner as uid:gid")),
            Some(owner) => plan_owner(path, owner.as_str()),
        }
    } else {
        Err(copy("Unsupported file action"))
    }
}

/// Why a change failed.
pub open spec fn failure_of(action: FileActionView, detail: Seq<char>) -> Seq<char> {
    match action {
        FileActionView::MakeDirectory => "Could not create folder: "@ + detail,
        FileActionView::Touch => "Could not create file: "@ + detail,
        FileActionView::Rename { .. } => "Could not rename file: "@ + detail,
        FileActionView::Delete => detail,
        FileActionView::ChangeMode { .. } => "Could not change permissions: "@ + detail,
        FileActionView::ChangeOwner { .. } => detail,
    }
}

pub fn file_action_failure(action: &FileAction, detail: &str) -> (res: String)
    ensures
        res@ == failure_of(action@, detail@),
{
    match action {
        FileAction::MakeDirectory => glue2("Could not create folder: ", detail),
        FileAction::Touch => glue2("Could not create file: ", detail),
        FileAction::Rename { .. } => glue2("Could not rename file: ", detail),
        FileAction::Delete => copy(detail),
        FileAction::ChangeMode { .. } => glue2("Could not change permissions: ", detail),
        FileAction::ChangeOwner { .. } => copy(detail),
    }
}

// ---------------------------------------------------------------------------
// Deleting
// ---------------------------------------------------------------------------

/// What is still to be done of a deletion. Paths go by the handles that the caller gave
/// them.
#[derive(Clone, Copy, Debug, PartialEq, Eq, Structural)]
pub enum DeleteTask {
    /// A path that has not been looked at.
    Visit(u64),
    /// A directory whose entries have been seen to.
    RemoveDirectory(u64),
}

/// What is done next.
#[derive(Debug, PartialEq, Eq)]
pub enum DeleteAction {
    /// Look at the path: list it where it is a directory, and unlink it where it is not.
    Inspect(u64),
    RemoveDirectory(u64),
    Finished,
    Fail(String),
}

#[verifier::ext_equal]
pub enum DeleteActionView {
    Inspect(u64),
    RemoveDirectory(u64),
    Finished,
    Fail(Seq<char>),
}

impl View for DeleteAction {
    type V = DeleteActionView;

    open spec fn view(&self) -> DeleteActionView {
        match *self {
            DeleteAction::Inspect(handle) => DeleteActionView::Inspect(handle),
            DeleteAction::RemoveDirectory(handle) => DeleteActionView::RemoveDirectory(handle),
            DeleteAction::Finished => DeleteActionView::Finished,
            DeleteAction::Fail(error) => DeleteActionView::Fail(error@),
        }
    }
}

/// A deletion: what is still to be done, the next at the end.
pub struct DeleteWalk {
    pub tasks: Vec<DeleteTask>,
}

impl View for DeleteWalk {
    type V = Seq<DeleteTask>;

    open spec fn view(&self) -> Seq<DeleteTask> {
        self.tasks@
    }
}

/// What is done next. A cancelled deletion goes no further where it would look at another
/// path.
pub open spec fn delete_next(tasks: Seq<DeleteTask>, cancelled: bool) -> DeleteActionView {
    if tasks.len() == 0 {
        DeleteActionView::Finished
    } else {
        match tasks.last() {
            DeleteTask::Visit(handle) => if cancelled {
                DeleteActionView::Fail(OPERATION_CANCELLED@)
            } else {
                DeleteActionView::Inspect(handle)
            },
            DeleteTask::RemoveDirectory(handle) => DeleteActionView::RemoveDirectory(handle),
        }
    }
}

pub open spec fn visits(children: Seq<u64>) -> Seq<DeleteTask> {
    children.map_values(|handle: u64| DeleteTask::Visit(handle))
}

/// What is still to be done after a directory was listed: its entries in order, and then
/// the directory.
pub open spec fn with_children(tasks: Seq<DeleteTask>, handle: u64, children: Seq<u64>) -> Seq<
    DeleteTask,
> {
    tasks.drop_last().push(DeleteTask::RemoveDirectory(handle)) + visits(children.reverse())
}

impl DeleteWalk {
    /// The deletion of a path.
    pub fn new(handle: u64) -> (res: Self)
        ensures
            res@ == seq![DeleteTask::Visit(handle)],
    {
        let mut tasks: Vec<DeleteTask> = Vec::new();
        tasks.push(DeleteTask::Visit(handle));
        assert(tasks@ =~= seq![DeleteTask::Visit(handle)]);
        DeleteWalk { tasks }
    }

    /// What is done next.
    pub fn next(&self, cancelled: bool) -> (res: DeleteAction)
        ensures
            res@ == delete_next(self@, cancelled),
    {
        let n: usize = self.tasks.len();
        if n == 0 {
            return DeleteAction::Finished;
        }
        match self.tasks[n - 1] {
            DeleteTask::Visit(handle) => if cancelled {
                DeleteAction::Fail(copy(OPERATION_CANCELLED))
            } else {
                DeleteAction::Inspect(handle)
            },
            DeleteTask::RemoveDirectory(handle) => DeleteAction::RemoveDirectory(handle),
        }
    }

    /// The path that was looked at is a directory with these entries.
    pub fn listed(&mut self, handle: u64, children: &[u64])
        requires
            old(self)@.len() > 0,
        ensures
            final(self)@ == with_children(old(self)@, handle, children@),
    {
        let ghost before = self.tasks@;
        let ghost all = visits(children@.reverse());
        self.tasks.pop();
        self.tasks.push(DeleteTask::RemoveDirectory(handle));
        let ghost start = self.tasks@;
        assert(start =~= before.drop_last().push(DeleteTask::RemoveDirectory(handle)));
        let mut i: usize = children.len();
        assert(start + all.take(0) =~= start);
        while i > 0
            invariant
                i <= children@.len(),
                all == visits(children@.reverse()),
                self.tasks@ == start + all.take(children@.len() - i),
            decreases i,
        {
            let ghost k = children@.len() - i;
            i -= 1;
            self.tasks.push(DeleteTask::Visit(children[i]));
            assert(all[k] == DeleteTask::Visit(children@[i as int]));
            assert(start + all.take(k + 1) =~= (start + all.take(k)).push(all[k]));
        }
        assert(all.take(children@.len() as int) =~= all);
    }

    /// The path on top is gone.
    pub fn removed(&mut self)
        requires
            old(self)@.len() > 0,
        ensures
            final(self)@ == old(self)@.drop_last(),
    {
        let ghost before = self.tasks@;
        self.tasks.pop();
        assert(self.tasks@ =~= before.drop_last());
    }
}

/// Why a deletion failed.
pub fn delete_failure(stage: DeleteStage, detail: &str) -> (res: String)
    ensures
        res@ == delete_failure_text(stage, detail@),
{
    match stage {
        DeleteStage::Inspect => glue2("Could not inspect remote path: ", detail),
        DeleteStage::List => glue2("Could not read remote folder: ", detail),
        DeleteStage::RemoveDirectory => glue2("Could not delete remote folder: ", detail),
        DeleteStage::Unlink => glue2("Could not delete remote file: ", detail),
    }
}

/// Where a deletion failed.
#[derive(Clone, Copy, Debug, PartialEq, Eq, Structural)]
pub enum DeleteStage {
    Inspect,
    List,
    RemoveDirectory,
    Unlink,
}

pub open spec fn delete_failure_text(stage: DeleteStage, detail: Seq<char>) -> Seq<char> {
    match stage {
        DeleteStage::Inspect => "Could not inspect remote path: "@ + detail,
        DeleteStage::List => "Could not read remote folder: "@ + detail,
        DeleteStage::RemoveDirectory => "Could not delete remote folder: "@ + detail,
        DeleteStage::Unlink => "Could not delete remote file: "@ + detail,
    }
}

/// A directory is removed only after its entries: while one of them is still to be visited,
/// the removal of the directory is not next.
pub proof fn directories_go_last(tasks: Seq<DeleteTask>, handle: u64, children: Seq<u64>, cancelled: bool)
    requires
        tasks.len() > 0,
        children.len() > 0,
    ensures
        ({
            let after = with_children(tasks, handle, children);
            &&& after.last() == DeleteTask::Visit(children[0])
            &&& after[tasks.len() - 1] == DeleteTask::RemoveDirectory(handle)
            &&& forall|i: int|
                tasks.len() <= i < after.len() ==> (#[trigger] after[i]) is Visit
            &&& delete_next(after, cancelled) !is RemoveDirectory
        }),
{
    let after = with_children(tasks, handle, children);
    assert(after.last() == visits(children.reverse()).last());
    assert forall|i: int| tasks.len() <= i < after.len() implies (#[trigger] after[i]) is Visit by {
        assert(after[i] == visits(children.reverse())[i - tasks.len()]);
    }
}

/// The nine letters of the rights of a file are its nine lowest bits: a letter where the bit
/// is set, a dash where it is not.
pub proof fn rights_are_the_bits(bits: u32)
    ensures
        rights_of(bits).len() == 9,
        rights_of(bits)[0] == if bits & 0x100 != 0 { 'r' } else { '-' },
        rights_of(bits)[1] == if bits & 0x80 != 0 { 'w' } else { '-' },
        rights_of(bits)[2] == if bits & 0x40 != 0 { 'x' } else { '-' },
        rights_of(bits)[3] == if bits & 0x20 != 0 { 'r' } else { '-' },
        rights_of(bits)[4] == if bits & 0x10 != 0 { 'w' } else { '-' },
        rights_of(bits)[5] == if bits & 0x8 != 0 { 'x' } else { '-' },
        rights_of(bits)[6] == if bits & 0x4 != 0 { 'r' } else { '-' },
        rights_of(bits)[7] == if bits & 0x2 != 0 { 'w' } else { '-' },
        rights_of(bits)[8] == if bits & 0x1 != 0 { 'x' } else { '-' },
{
}

/// What a file is, is told by the highest bits of its mode: a directory, a link, or a file.
pub proof fn kinds_are_told_by_the_mode(bits: u32)
    ensures
        bits & 0xf000 == 0x4000 <==> is_directory_mode(Some(bits)),
        bits & 0xf000 == 0x4000 ==> kind_of(Some(bits)) == "directory"@,
        bits & 0xf000 == 0xa000 ==> kind_of(Some(bits)) == "symlink"@,
        bits & 0xf000 != 0x4000 && bits & 0xf000 != 0xa000 ==> kind_of(Some(bits)) == "file"@,
        !is_directory_mode(None),
        kind_of(None) == "file"@,
{
    assert(0u32 & 0o170000 == 0) by (bit_vector);
}

/// A file is shown as it is: under its own name, with its size, its time, its rights and its
/// owner.
pub proof fn files_are_shown_as_they_are(
    dir: Seq<char>,
    name: Seq<char>,
    stat: RemoteStat,
    show_hidden: bool,
)
    requires
        name.len() > 0,
        !name.contains('/'),
        name != "."@ && name != ".."@,
    ensures
        visible_file(dir, show_hidden, EntryView { name, stat }) is Some <==> show_hidden || name[0]
            != '.',
        visible_file(dir, show_hidden, EntryView { name, stat }) matches Some(file) ==> {
            &&& file.name == name
            &&& file.path == joined_path(dir, name)
            &&& file.hidden <==> name[0] == '.'
            &&& file.kind == kind_of(stat.perm)
            &&& file.uid == stat.uid && file.gid == stat.gid
            &&& stat.size matches Some(size) ==> file.size_bytes == size
            &&& stat.perm matches Some(bits) ==> file.permissions == Some(rights_of(bits))
        },
        visible_file(dir, show_hidden, EntryView { name: "."@, stat }) is None,
        visible_file(dir, show_hidden, EntryView { name: ".."@, stat }) is None,
{
    joined_names_are_read_back(dir, name);
    joined_names_are_read_back(Seq::empty(), name);
    reveal_strlit("/");
    assert(joined_path(Seq::empty(), name) =~= name) by {
        assert(name.contains(name[0]));
    }
    reveal_strlit(".");
    assert(name.take(1)[0] == name[0]);
    if name[0] == '.' {
        assert(name.take(1) =~= "."@);
    }
}

/// A text file is opened as it is; one that holds a zero byte is not opened.
pub proof fn text_files_are_opened(bytes: Seq<u8>)
    ensures
        bytes.contains(0u8) <==> file_text(bytes) is Err,
        valid_utf8(bytes) && !bytes.contains(0u8) ==> file_text(bytes) == Ok::<Seq<char>, Seq<char>>(
            decode_utf8(bytes),
        ),
{
    if valid_utf8(bytes) {
        valid_text_is_kept(bytes);
    }
}

/// Each action does what it is named for, to the file that was named: renaming leaves it in
/// its directory, and nothing but deleting deletes.
pub proof fn file_actions_do_what_they_are_named_for(
    action: Seq<char>,
    path: Seq<char>,
    target: Option<Seq<char>>,
    mode: Option<Seq<char>>,
)
    ensures
        file_action_of("mkdir"@, path, target, mode) == Ok::<FileActionView, Seq<char>>(
            FileActionView::MakeDirectory,
        ),
        file_action_of("touch"@, path, target, mode) == Ok::<FileActionView, Seq<char>>(
            FileActionView::Touch,
        ),
        file_action_of("delete"@, path, target, mode) == Ok::<FileActionView, Seq<char>>(
            FileActionView::Delete,
        ),
        file_action_of(action, path, target, mode) matches Ok(plan) ==> {
            &&& plan is MakeDirectory <==> action == "mkdir"@
            &&& plan is Touch <==> action == "touch"@
            &&& plan is Delete <==> action == "delete"@
            &&& plan is Rename <==> action == "rename"@
            &&& plan is ChangeMode <==> action == "chmod"@
            &&& plan is ChangeOwner <==> action == "chown"@
        },
        target is None ==> file_action_of("rename"@, path, target, mode) is Err,
        file_action_of("chmod"@, path, target, mode) is Ok <==> (mode matches Some(text) && mode_of(
            text,
        ) is Some),
        file_action_of("chmod"@, path, target, mode) matches Ok(FileActionView::ChangeMode { mode: bits })
            ==> (mode matches Some(text) && mode_of(text) == Some(bits)),
        file_action_of("chown"@, path, target, mode) is Ok <==> (target matches Some(owner)
            && owner_of(owner) is Ok),
{
    reveal_strlit("mkdir");
    reveal_strlit("touch");
    reveal_strlit("rename");
    reveal_strlit("delete");
    reveal_strlit("chmod");
    reveal_strlit("chown");
    assert("mkdir"@.len() == 5);
    assert("touch"@.len() == 5);
    assert("rename"@.len() == 6);
    assert("delete"@.len() == 6);
    assert("chmod"@.len() == 5);
    assert("chown"@.len() == 5);
    assert("mkdir"@[0] == 'm');
    assert("touch"@[0] == 't');
    assert("chmod"@[0] == 'c');
    assert("chown"@[0] == 'c');
    assert("rename"@[0] == 'r');
    assert("delete"@[0] == 'd');
    assert("chmod"@[2] == 'm');
    assert("chown"@[2] == 'o');
}

/// A file that is renamed stays in its directory, under the new name.
pub proof fn renamed_files_stay_in_their_directory(
    dir: Seq<char>,
    name: Seq<char>,
    new: Seq<char>,
    mode: Option<Seq<char>>,
)
    requires
        dir.len() > 0,
        dir.last() != '/' && dir.last() != '.',
        name.len() > 0 && !name.contains('/') && name != "."@ && name != ".."@,
        new.len() > 0 && !new.contains('/') && new != "."@ && new != ".."@,
    ensures
        file_action_of("rename"@, dir + "/"@ + name, Some(new), mode) == Ok::<
            FileActionView,
            Seq<char>,
        >(FileActionView::Rename { destination: dir + "/"@ + new }),
{
    reveal_strlit("mkdir");
    reveal_strlit("touch");
    reveal_strlit("rename");
    reveal_strlit("delete");
    reveal_strlit("chmod");
    reveal_strlit("chown");
    assert("mkdir"@.len() == 5);
    assert("touch"@.len() == 5);
    assert("rename"@.len() == 6);
    assert("delete"@.len() == 6);
    assert("chmod"@.len() == 5);
    assert("chown"@.len() == 5);
    assert("mkdir"@[0] == 'm');
    assert("touch"@[0] == 't');
    assert("chmod"@[0] == 'c');
    assert("chown"@[0] == 'c');
    assert("rename"@[0] == 'r');
    assert("delete"@[0] == 'd');
    assert("chmod"@[2] == 'm');
    assert("chown"@[2] == 'o');
    joined_directories_are_read_back(dir, name, new);
    joined_directories_are_read_back(dir, new, name);
}

/// An owner is changed to the two numbers that were given, on the one file that was named.
pub proof fn owners_are_numbers(
    path: Seq<char>,
    uid: Seq<char>,
    gid: Seq<char>,
    mode: Option<Seq<char>>,
    owner: Seq<char>,
)
    requires
        forall|i: int| 0 <= i < uid.len() ==> is_digit(#[trigger] uid[i]),
        forall|i: int| 0 <= i < gid.len() ==> is_digit(#[trigger] gid[i]),
    ensures
        file_action_of("chown"@, path, Some(join(seq![uid, gid], seq![':'])), mode) == Ok::<
            FileActionView,
            Seq<char>,
        >(
            FileActionView::ChangeOwner {
                command: "chown "@ + uid + ":"@ + gid + " "@ + quoted(path),
            },
        ),
        owner_of(owner) matches Ok((user, group)) ==> (forall|i: int|
            0 <= i < user.len() ==> is_digit(#[trigger] user[i])) && (forall|i: int|
            0 <= i < group.len() ==> is_digit(#[trigger] group[i])),
{
    reveal_strlit("mkdir");
    reveal_strlit("touch");
    reveal_strlit("rename");
    reveal_strlit("delete");
    reveal_strlit("chmod");
    reveal_strlit("chown");
    assert("mkdir"@.len() == 5);
    assert("touch"@.len() == 5);
    assert("rename"@.len() == 6);
    assert("delete"@.len() == 6);
    assert("chmod"@.len() == 5);
    assert("chown"@.len() == 5);
    assert("mkdir"@[0] == 'm');
    assert("touch"@[0] == 't');
    assert("chmod"@[0] == 'c');
    assert("chown"@[0] == 'c');
    assert("rename"@[0] == 'r');
    assert("delete"@[0] == 'd');
    assert("chmod"@[2] == 'm');
    assert("chown"@[2] == 'o');
    assert(!uid.contains(':') && !gid.contains(':'));
    joined_parts_read_back(seq![uid, gid], ':');
    if let Ok((user, group)) = owner_of(owner) {
        assert forall|i: int| 0 <= i < user.len() implies is_digit(#[trigger] user[i]) by {
            assert(digit_char()(user[i]));
        }
        assert forall|i: int| 0 <= i < group.len() implies is_digit(#[trigger] group[i]) by {
            assert(digit_char()(group[i]));
        }
    }
}

/// A mode is read as an octal number: each digit more counts eight times what stands before
/// it.
pub proof fn modes_are_octal(digits: Seq<char>, digit: char)
    requires
        digits.len() > 0,
        '1' <= digits[0] <= '7',
        forall|i: int| 0 <= i < digits.len() ==> '0' <= #[trigger] digits[i] <= '7',
        '0' <= digit <= '7',
        octal_value(digits.push(digit)) <= u32::MAX,
    ensures
        mode_of(digits) matches Some(bits) && mode_of(digits.push(digit)) == Some(
            (bits * 8 + (digit as u32 - 48)) as u32,
        ),
        digits.len() == 1 ==> mode_of(digits) == Some((digits[0] as u32 - 48) as u32),
{
    lemma_plain_mode(digits);
    let more = digits.push(digit);
    assert(more[0] == digits[0]);
    assert forall|i: int| 0 <= i < more.len() implies '0' <= #[trigger] more[i] <= '7' by {
        if i < digits.len() {
            assert(more[i] == digits[i]);
        }
    }
    lemma_plain_mode(more);
    assert(more.drop_last() =~= digits);
    if digits.len() == 1 {
        assert(octal_value(digits.drop_last()) == 0);
    }
}

proof fn lemma_plain_mode(digits: Seq<char>)
    requires
        digits.len() > 0,
        '1' <= digits[0] <= '7',
        forall|i: int| 0 <= i < digits.len() ==> '0' <= #[trigger] digits[i] <= '7',
    ensures
        octal_value(digits) <= u32::MAX ==> mode_of(digits) == Some(octal_value(digits) as u32),
{
    let none = Seq::<char>::empty();
    assert(none + digits + none =~= digits);
    assert(!is_space(digits[0]) && !is_space(digits[digits.len() - 1]));
    trimming_takes_off_spaces(none, digits, none);
    assert(trim_start_where(digits, is_char('0')) == digits);
    assert forall|i: int| 0 <= i < digits.len() implies octal_digit()(#[trigger] digits[i]) by {
    }
}

/// Deleting goes through what was listed: what is on top is looked at, a folder is removed
/// once it is reached again, and it ends when nothing is left. Nothing more is looked at once
/// it was cancelled.
pub proof fn deleting_goes_through_everything(tasks: Seq<DeleteTask>, handle: u64)
    ensures
        delete_next(tasks, false) is Finished <==> tasks.len() == 0,
        delete_next(tasks.push(DeleteTask::Visit(handle)), false) == DeleteActionView::Inspect(
            handle,
        ),
        delete_next(tasks.push(DeleteTask::Visit(handle)), true) == DeleteActionView::Fail(
            "Operation cancelled"@,
        ),
        delete_next(tasks.push(DeleteTask::RemoveDirectory(handle)), false)
            == DeleteActionView::RemoveDirectory(handle),
        forall|children: Seq<u64>, i: int|
            #![trigger with_children(tasks.push(DeleteTask::Visit(handle)), handle, children), children[i]]
            0 <= i < children.len() ==> with_children(
                tasks.push(DeleteTask::Visit(handle)),
                handle,
                children,
            ).contains(DeleteTask::Visit(children[i])),
{
    assert forall|children: Seq<u64>, i: int|
        #![trigger with_children(tasks.push(DeleteTask::Visit(handle)), handle, children), children[i]]
        0 <= i < children.len() implies with_children(
        tasks.push(DeleteTask::Visit(handle)),
        handle,
        children,
    ).contains(DeleteTask::Visit(children[i])) by {
        let after = with_children(tasks.push(DeleteTask::Visit(handle)), handle, children);
        let at = tasks.len() + 1 + (children.len() - 1 - i);
        assert(after[at] == visits(children.reverse())[children.len() - 1 - i]);
    }
}

/// A search for logs takes every file that it meets, and goes into every folder down to four
/// levels.
pub proof fn searches_take_every_log(walk: LogWalkView, depth: u8, handle: u64, path: Seq<char>)
    requires
        depth <= 4,
    ensures
        walk_step(walk, depth, false, handle, path).files == walk.files.push(path),
        depth < 4 ==> walk_step(walk, depth, true, handle, path).pending == walk.pending.push(
            PendingDirectory { handle, depth: (depth + 1) as u8 },
        ),
        depth == 4 ==> walk_step(walk, depth, true, handle, path) == walk,
        walk.files.len() < 499 ==> walk_step(walk, depth, false, handle, path).pending
            == walk.pending,
{
}

/// A file is edited up to five mebibytes.
pub proof fn large_files_are_not_edited(bytes: nat)
    ensures
        size_verdict(bytes) is Ok <==> bytes <= 5242880,
        bytes > 5242880 ==> size_verdict(bytes) == Err::<(), Seq<char>>(
            "This editor is limited to files smaller than 5 MB"@,
        ),
{
}

} // verus!
