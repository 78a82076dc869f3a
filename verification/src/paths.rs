//! Paths of a POSIX server as text.
use crate::ssh::{join_path, joined_path};
use crate::text::{after_prefix, chars_of, copy, is_text, opt_view, piece, string_of, strip_prefix, trim, trimmed};
use vstd::prelude::*;

verus! {

broadcast use vstd::string::group_string_axioms;

/// Where a path ends that is cut off at `n`: separators at the end, and components that
/// stand for the same directory, do not count.
pub open spec fn path_end(s: Seq<char>, n: int) -> int
    decreases n,
{
    if n <= 0 || n > s.len() {
        0
    } else if s[n - 1] == '/' {
        path_end(s, n - 1)
    } else if n > 1 && s[n - 1] == '.' && s[n - 2] == '/' {
        path_end(s, n - 1)
    } else {
        n
    }
}

/// Where the component that ends at `n` begins.
pub open spec fn component_start(s: Seq<char>, n: int) -> int
    decreases n,
{
    if n <= 0 || n > s.len() || s[n - 1] == '/' {
        n
    } else {
        component_start(s, n - 1)
    }
}

/// The last component of a path; empty where it has none.
pub open spec fn last_component(s: Seq<char>) -> Seq<char> {
    let end = path_end(s, s.len() as int);
    s.subrange(component_start(s, end), end)
}

/// The name of the file that a path leads to. The root, and a path that ends with `..` or
/// is `.`, has none.
pub open spec fn file_name_of(s: Seq<char>) -> Option<Seq<char>> {
    let name = last_component(s);
    if name.len() == 0 || name == "."@ || name == ".."@ {
        None
    } else {
        Some(name)
    }
}

/// The directory that a path lies in: what stands before its last component.
pub open spec fn parent_of(s: Seq<char>) -> Option<Seq<char>> {
    let end = path_end(s, s.len() as int);
    let start = component_start(s, end);
    if start == end {
        None
    } else {
        let cut = path_end(s, start);
        if cut == 0 && s[0] == '/' {
            Some("/"@)
        } else {
            Some(s.take(cut))
        }
    }
}

/// A path with another name in place of its own; behind it where it has none.
pub open spec fn renamed_path(s: Seq<char>, name: Seq<char>) -> Seq<char> {
    match (file_name_of(s), parent_of(s)) {
        (Some(_), Some(parent)) => joined_path(parent, name),
        _ => joined_path(s, name),
    }
}

pub proof fn lemma_path_bounds(s: Seq<char>, n: int)
    requires
        0 <= n <= s.len(),
    ensures
        0 <= path_end(s, n) <= n,
        0 <= component_start(s, n) <= n,
    decreases n,
{
    if n > 0 {
        lemma_path_bounds(s, n - 1);
    }
}

fn find_end(s: &[char], n: usize) -> (res: usize)
    requires
        n <= s@.len(),
    ensures
        res == path_end(s@, n as int),
        res <= n,
{
    let mut i: usize = n;
    while i > 0 && (s[i - 1] == '/' || (i > 1 && s[i - 1] == '.' && s[i - 2] == '/'))
        invariant
            i <= n <= s@.len(),
            path_end(s@, n as int) == path_end(s@, i as int),
        decreases i,
    {
        i -= 1;
    }
    i
}

fn find_start(s: &[char], n: usize) -> (res: usize)
    requires
        n <= s@.len(),
    ensures
        res == component_start(s@, n as int),
        res <= n,
{
    let mut i: usize = n;
    while i > 0 && s[i - 1] != '/'
        invariant
            i <= n <= s@.len(),
            component_start(s@, n as int) == component_start(s@, i as int),
        decreases i,
    {
        i -= 1;
    }
    i
}

/// The name of the file that a path leads to.
pub fn file_name(path: &str) -> (res: Option<String>)
    ensures
        opt_view(res) == file_name_of(path@),
{
    let s = chars_of(path);
    let end = find_end(&s, s.len());
    let start = find_start(&s, end);
    let name = piece(&s, start, end);
    if name.len() == 0 || is_text(&name, ".") || is_text(&name, "..") {
        None
    } else {
        Some(string_of(&name))
    }
}

/// The directory that a path lies in.
pub fn parent(path: &str) -> (res: Option<String>)
    ensures
        opt_view(res) == parent_of(path@),
{
    let s = chars_of(path);
    let end = find_end(&s, s.len());
    let start = find_start(&s, end);
    if start == end {
        return None;
    }
    let cut = find_end(&s, start);
    if cut == 0 && s[0] == '/' {
        return Some(copy("/"));
    }
    let dir = piece(&s, 0, cut);
    assert(dir@ =~= s@.take(cut as int));
    Some(string_of(&dir))
}

/// A path with another name in place of its own.
pub fn with_file_name(path: &str, name: &str) -> (res: String)
    ensures
        res@ == renamed_path(path@, name@),
{
    match (file_name(path), parent(path)) {
        (Some(_), Some(dir)) => join_path(dir.as_str(), name),
        _ => join_path(path, name),
    }
}

/// The path that a request means: the directory of the session where it is blank.
pub open spec fn asked_path(value: Seq<char>) -> Seq<char> {
    if trim(value).len() == 0 {
        "."@
    } else {
        trim(value)
    }
}

pub fn remote_path(value: &str) -> (res: String)
    ensures
        res@ == asked_path(value@),
{
    let path = trimmed(&chars_of(value));
    if path.len() == 0 {
        copy(".")
    } else {
        string_of(&path)
    }
}

/// A path of this machine: its home directory in place of a leading tilde.
#[derive(Debug, PartialEq, Eq)]
pub enum LocalPath {
    Home,
    BelowHome(String),
    Plain(String),
}

#[verifier::ext_equal]
pub enum LocalPathView {
    Home,
    BelowHome(Seq<char>),
    Plain(Seq<char>),
}

impl View for LocalPath {
    type V = LocalPathView;

    open spec fn view(&self) -> LocalPathView {
        match *self {
            LocalPath::Home => LocalPathView::Home,
            LocalPath::BelowHome(rest) => LocalPathView::BelowHome(rest@),
            LocalPath::Plain(path) => LocalPathView::Plain(path@),
        }
    }
}

/// What a path of this machine means. Without a home directory it stands for itself.
pub open spec fn local_path(value: Seq<char>, has_home: bool) -> LocalPathView {
    let path = trim(value);
    if has_home && path == "~"@ {
        LocalPathView::Home
    } else {
        match (has_home, strip_prefix(path, "~/"@), strip_prefix(path, "~\\"@)) {
            (true, Some(rest), _) => LocalPathView::BelowHome(rest),
            (true, None, Some(rest)) => LocalPathView::BelowHome(rest),
            _ => LocalPathView::Plain(path),
        }
    }
}

pub fn resolve_local_path(value: &str, has_home: bool) -> (res: LocalPath)
    ensures
        res@ == local_path(value@, has_home),
{
    let path = trimmed(&chars_of(value));
    if !has_home {
        return LocalPath::Plain(string_of(&path));
    }
    if is_text(&path, "~") {
        return LocalPath::Home;
    }
    match after_prefix(&path, "~/") {
        Some(rest) => {
            return LocalPath::BelowHome(string_of(&rest));
        },
        None => {},
    }
    match after_prefix(&path, "~\\") {
        Some(rest) => LocalPath::BelowHome(string_of(&rest)),
        None => LocalPath::Plain(string_of(&path)),
    }
}

/// A file name behind a directory is read back from the path.
pub proof fn joined_names_are_read_back(dir: Seq<char>, name: Seq<char>)
    requires
        name.len() > 0,
        !name.contains('/'),
        name != "."@ && name != ".."@,
    ensures
        file_name_of(joined_path(dir, name)) == Some(name),
{
    let path = joined_path(dir, name);
    reveal_strlit("/");
    reveal_strlit(".");
    assert(name[0] != '/') by {
        assert(name.contains(name[0]));
    }
    let n = path.len() as int;
    let k = n - name.len();
    assert(path.subrange(k, n) =~= name);
    assert(path[n - 1] == name[name.len() - 1]);
    assert(name.contains(name[name.len() - 1]));
    if n > 1 && path[n - 1] == '.' && path[n - 2] == '/' {
        if name.len() > 1 {
            assert(path[n - 2] == name[name.len() - 2]);
            assert(name.contains(name[name.len() - 2]));
        } else {
            assert(name =~= "."@);
        }
    }
    assert(path_end(path, n) == n);
    assert(k == 0 || path[k - 1] == '/');
    lemma_start_at(path, name, k, n);
}

proof fn lemma_start_at(path: Seq<char>, name: Seq<char>, k: int, n: int)
    requires
        0 <= k <= n <= path.len(),
        forall|i: int| k <= i < n ==> path[i] == #[trigger] name[i - k],
        forall|i: int| 0 <= i < n - k ==> #[trigger] name[i] != '/',
        k == 0 || path[k - 1] == '/',
    ensures
        component_start(path, n) == k,
    decreases n,
{
    if n > k {
        assert(path[n - 1] == name[n - 1 - k]);
        lemma_start_at(path, name, k, n - 1);
    }
}

/// The directory of a name that was joined to one is that directory; and a path with another
/// name lies in the same directory.
pub proof fn joined_directories_are_read_back(dir: Seq<char>, name: Seq<char>, other: Seq<char>)
    requires
        dir.len() > 0,
        dir.last() != '/' && dir.last() != '.',
        name.len() > 0,
        !name.contains('/'),
        name != "."@ && name != ".."@,
    ensures
        parent_of(joined_path(dir, name)) == Some(dir),
        renamed_path(joined_path(dir, name), other) == joined_path(dir, other),
        joined_path(dir, name) == dir + "/"@ + name,
        joined_path("/"@, name) == "/"@ + name,
        parent_of("/"@ + name) == Some("/"@),
{
    reveal_strlit("/");
    reveal_strlit(".");
    assert(name[0] != '/') by {
        assert(name.contains(name[0]));
    }
    joined_names_are_read_back(dir, name);
    assert((dir + "/"@ + name).skip(dir.len() as int + 1) =~= name);
    assert(("/"@ + name).skip(1) =~= name);
    lemma_last_component(dir + "/"@ + name, name);
    lemma_last_component("/"@ + name, name);
    let path = dir + "/"@ + name;
    let k = dir.len() as int;
    assert(path[k] == '/');
    assert(path[k - 1] == dir[k - 1]);
    assert(path_end(path, k + 1) == path_end(path, k));
    assert(path_end(path, k) == k);
    assert(path.take(k) =~= dir);
    let top = "/"@ + name;
    assert(top[0] == '/');
    assert(path_end(top, 1) == path_end(top, 0));
}

proof fn lemma_last_component(path: Seq<char>, name: Seq<char>)
    requires
        name.len() > 0,
        !name.contains('/'),
        name != "."@ && name != ".."@,
        path.len() > name.len(),
        path.skip(path.len() - name.len()) == name,
        path[path.len() - name.len() - 1] == '/',
    ensures
        path_end(path, path.len() as int) == path.len(),
        component_start(path, path.len() as int) == path.len() - name.len(),
{
    reveal_strlit(".");
    let n = path.len() as int;
    let k = n - name.len();
    assert forall|j: int| k <= j < n implies #[trigger] path[j] != '/' by {
        assert(path.skip(k)[j - k] == path[j]);
        assert(name.contains(name[j - k]));
    }
    assert(path.skip(k)[name.len() - 1] == path[n - 1]);
    if name.len() == 1 && path[n - 1] == '.' {
        assert(name =~= "."@);
    }
    lemma_start(path, k, n);
}

proof fn lemma_start(path: Seq<char>, k: int, n: int)
    requires
        0 < k <= n <= path.len(),
        path[k - 1] == '/',
        forall|j: int| k <= j < n ==> #[trigger] path[j] != '/',
    ensures
        component_start(path, n) == k,
    decreases n,
{
    if n > k {
        lemma_start(path, k, n - 1);
    }
}

} // verus!
