//! The accounts of a server.
use crate::disk::below_heading;
use crate::models::{
    AccountSnapshot, LinuxGroup, LinuxGroupView, LinuxUser, LinuxUserView, UserCreateInput,
    UserCreateInputView,
};
use crate::numbers::{parse_u32, u32_in};
use crate::ssh::{error_result, prefix_within, quote_shell, quoted, text_result};
use crate::text::{
    all_chars, begins_with, chars_of, collect, contains_str, contains_text, copy, every_char, glue2,
    glue3, glue5, is_alphanumeric, join, join_strings, joined_parts_read_back, lemma_views_push,
    lines_of, lines_str, opt_view, parts, parts_of, piece, same, starts_with, string_of, trim,
    trim_str, trimmed, views, words, words_of,
};
use crate::utf8::{byte_len, byte_length};
use vstd::prelude::*;

verus! {

broadcast use vstd::string::group_string_axioms;

pub const PASSWD_COMMAND: &'static str = "if command -v getent >/dev/null 2>&1; then getent passwd; elif [ -r /etc/passwd ]; then cat /etc/passwd; else echo 'Neither getent nor a readable /etc/passwd is available' >&2; exit 69; fi";

pub const GROUP_COMMAND: &'static str = "if command -v getent >/dev/null 2>&1; then getent group; elif [ -r /etc/group ]; then cat /etc/group; else echo 'Neither getent nor a readable /etc/group is available' >&2; exit 69; fi";

pub const LASTLOG_COMMAND: &'static str = "LC_ALL=C lastlog 2>/dev/null || true";

pub const SHADOW_COMMAND: &'static str = "if command -v getent >/dev/null 2>&1; then getent shadow; elif [ -r /etc/shadow ]; then cat /etc/shadow; fi";

/// Sets the passwords of its input, one `name:password` on each line.
pub const CHPASSWD_COMMAND: &'static str = "if command -v chpasswd >/dev/null 2>&1; then chpasswd; else echo 'Password changes require chpasswd, which is not installed on this server' >&2; exit 69; fi";

// ---------------------------------------------------------------------------
// Last logins and locks
// ---------------------------------------------------------------------------

/// Characters that are kept of a login.
pub open spec fn is_kept() -> spec_fn(char) -> bool {
    |c: char| c != '<' && c != '>' && c != '&' && c != '"' && c != '\''
}

/// Whose login a line tells.
pub open spec fn login_name(line: Seq<char>) -> Option<Seq<char>> {
    if words_of(line).len() == 0 || contains_text(line, "Never logged in"@) {
        None
    } else {
        Some(words_of(line)[0])
    }
}

/// What a line says of a login: the text behind as many bytes as the name takes up.
pub open spec fn login_text(line: Seq<char>, name: Seq<char>) -> Seq<char> {
    trim(line.skip(prefix_within(line, byte_len(name) as int).len() as int)).filter(is_kept())
}

/// The last login of an account.
pub open spec fn last_login(lines: Seq<Seq<char>>, name: Seq<char>) -> Option<Seq<char>>
    decreases lines.len(),
{
    if lines.len() == 0 {
        None
    } else if login_name(lines.last()) == Some(name) {
        Some(login_text(lines.last(), name))
    } else {
        last_login(lines.drop_last(), name)
    }
}

/// Whether a line says that the password of an account is locked.
pub open spec fn locks(line: Seq<char>, name: Seq<char>) -> bool {
    let fields = parts_of(line, ':');
    fields.len() > 1 && fields[0] == name && (starts_with(fields[1], "!"@) || starts_with(
        fields[1],
        "*"@,
    ))
}

pub open spec fn is_locked(lines: Seq<Seq<char>>, name: Seq<char>) -> bool {
    exists|i: int| 0 <= i < lines.len() && locks(#[trigger] lines[i], name)
}

fn keep_chars(s: &[char]) -> (res: Vec<char>)
    ensures
        res@ == s@.filter(is_kept()),
{
    let mut out: Vec<char> = Vec::new();
    let mut i: usize = 0;
    proof {
        reveal(Seq::filter);
    }
    assert(s@.take(0) =~= Seq::empty());
    while i < s.len()
        invariant
            i <= s@.len(),
            out@ == s@.take(i as int).filter(is_kept()),
        decreases s@.len() - i,
    {
        proof {
            reveal(Seq::filter);
            assert(s@.take(i + 1).drop_last() =~= s@.take(i as int));
            assert(s@.take(i + 1).last() == s@[i as int]);
        }
        let c = s[i];
        if c != '<' && c != '>' && c != '&' && c != '"' && c != '\'' {
            out.push(c);
        }
        i += 1;
    }
    assert(s@.take(s@.len() as int) =~= s@);
    out
}

fn read_login(line: &[char], name: &[char]) -> (res: Option<String>)
    ensures
        opt_view(res) == if login_name(line@) == Some(name@) {
            Some(login_text(line@, name@))
        } else {
            None
        },
{
    let fields = words(line);
    if fields.len() == 0 || crate::ssh::holds(line, "Never logged in") {
        return None;
    }
    assert(views(fields@)[0] == fields@[0]@);
    if !crate::text::equal(fields[0].as_slice(), name) {
        return None;
    }
    let cut = crate::ssh::prefix_length(line, byte_length(string_of(name).as_str()));
    let rest = piece(line, cut, line.len());
    assert(rest@ =~= line@.skip(cut as int));
    Some(string_of(&keep_chars(&trimmed(&rest))))
}

fn find_login(lines: &[Vec<char>], name: &[char]) -> (res: Option<String>)
    ensures
        opt_view(res) == last_login(views(lines@), name@),
{
    let ghost all = views(lines@);
    let mut n: usize = lines.len();
    assert(all.take(all.len() as int) =~= all);
    while n > 0
        invariant
            n <= lines@.len(),
            all == views(lines@),
            last_login(all, name@) == last_login(all.take(n as int), name@),
        decreases n,
    {
        assert(all.take(n as int).drop_last() =~= all.take(n - 1));
        assert(all.take(n as int).last() == lines@[n - 1]@);
        match read_login(lines[n - 1].as_slice(), name) {
            Some(text) => {
                return Some(text);
            },
            None => {},
        }
        n -= 1;
    }
    None
}

fn find_lock(lines: &[Vec<char>], name: &[char]) -> (res: bool)
    ensures
        res == is_locked(views(lines@), name@),
{
    let mut i: usize = 0;
    while i < lines.len()
        invariant
            i <= lines@.len(),
            forall|j: int| 0 <= j < i ==> !locks(#[trigger] views(lines@)[j], name@),
        decreases lines@.len() - i,
    {
        assert(views(lines@)[i as int] == lines@[i as int]@);
        let fields = parts(lines[i].as_slice(), ':');
        if fields.len() > 1 {
            assert(views(fields@)[0] == fields@[0]@ && views(fields@)[1] == fields@[1]@);
            if crate::text::equal(fields[0].as_slice(), name) && (begins_with(
                fields[1].as_slice(),
                "!",
            ) || begins_with(fields[1].as_slice(), "*")) {
                return true;
            }
        }
        i += 1;
    }
    false
}

// ---------------------------------------------------------------------------
// Groups and users
// ---------------------------------------------------------------------------

pub open spec fn is_member() -> spec_fn(Seq<char>) -> bool {
    |name: Seq<char>| name.len() > 0
}

/// The group on a line.
pub open spec fn group_of(line: Seq<char>) -> Option<LinuxGroupView> {
    let fields = parts_of(line, ':');
    if fields.len() < 4 {
        None
    } else {
        match u32_in(fields[2]) {
            Some(gid) => Some(
                LinuxGroupView {
                    name: fields[0],
                    gid,
                    members: parts_of(fields[3], ',').filter(is_member()),
                },
            ),
            None => None,
        }
    }
}

/// The names of the groups that list an account.
pub open spec fn groups_listing(groups: Seq<LinuxGroupView>, name: Seq<char>) -> Seq<Seq<char>>
    decreases groups.len(),
{
    if groups.len() == 0 {
        Seq::empty()
    } else {
        let before = groups_listing(groups.drop_last(), name);
        if groups.last().members.contains(name) {
            before.push(groups.last().name)
        } else {
            before
        }
    }
}

/// The name of the last group with this number.
pub open spec fn group_name(groups: Seq<LinuxGroupView>, gid: u32) -> Option<Seq<char>>
    decreases groups.len(),
{
    if groups.len() == 0 {
        None
    } else if groups.last().gid == gid {
        Some(groups.last().name)
    } else {
        group_name(groups.drop_last(), gid)
    }
}

/// The groups of an account: its own first, unless another entry names it already.
pub open spec fn memberships(groups: Seq<LinuxGroupView>, name: Seq<char>, gid: u32) -> Seq<
    Seq<char>,
> {
    let listed = groups_listing(groups, name);
    match group_name(groups, gid) {
        Some(primary) => if listed.contains(primary) {
            listed
        } else {
            seq![primary] + listed
        },
        None => listed,
    }
}

/// The account on a line.
pub open spec fn user_of(
    line: Seq<char>,
    groups: Seq<LinuxGroupView>,
    logins: Seq<Seq<char>>,
    shadow: Seq<Seq<char>>,
) -> Option<LinuxUserView> {
    let fields = parts_of(line, ':');
    if fields.len() < 7 {
        None
    } else {
        match (u32_in(fields[2]), u32_in(fields[3])) {
            (Some(uid), Some(gid)) => Some(
                LinuxUserView {
                    name: fields[0],
                    uid,
                    gid,
                    home: fields[5],
                    shell: fields[6],
                    groups: memberships(groups, fields[0], gid),
                    last_login: last_login(logins, fields[0]),
                    locked: is_locked(shadow, fields[0]),
                },
            ),
            _ => None,
        }
    }
}

pub open spec fn groups_of(text: Seq<char>) -> Seq<LinuxGroupView> {
    lines_of(text).filter_map(|line: Seq<char>| group_of(line))
}

/// The accounts of a server. `lastlog` has a heading.
pub open spec fn users_of(
    passwd: Seq<char>,
    group_text: Seq<char>,
    lastlog: Seq<char>,
    shadow: Seq<char>,
) -> Seq<LinuxUserView> {
    lines_of(passwd).filter_map(
        |line: Seq<char>|
            user_of(line, groups_of(group_text), below_heading(lastlog), lines_of(shadow)),
    )
}

fn read_members(text: &[char]) -> (res: Vec<String>)
    ensures
        views(res@) == parts_of(text@, ',').filter(is_member()),
{
    let names = parts(text, ',');
    let ghost all = views(names@);
    let mut out: Vec<String> = Vec::new();
    let mut i: usize = 0;
    proof {
        reveal(Seq::filter);
    }
    assert(all.take(0) =~= Seq::empty());
    assert(views(out@) =~= Seq::empty());
    while i < names.len()
        invariant
            i <= names@.len(),
            all == views(names@),
            views(out@) == all.take(i as int).filter(is_member()),
        decreases names@.len() - i,
    {
        broadcast use lemma_views_push;

        proof {
            reveal(Seq::filter);
            assert(all.take(i + 1).drop_last() =~= all.take(i as int));
            assert(all.take(i + 1).last() == names@[i as int]@);
        }
        if names[i].len() > 0 {
            out.push(string_of(names[i].as_slice()));
        }
        i += 1;
    }
    assert(all.take(names@.len() as int) =~= all);
    out
}

fn read_group(line: &[char]) -> (res: Option<LinuxGroup>)
    ensures
        opt_view(res) == group_of(line@),
{
    let fields = parts(line, ':');
    let ghost all = views(fields@);
    if fields.len() < 4 {
        return None;
    }
    assert(all[0] == fields@[0]@ && all[2] == fields@[2]@ && all[3] == fields@[3]@);
    match parse_u32(fields[2].as_slice()) {
        Some(gid) => Some(
            LinuxGroup {
                name: string_of(fields[0].as_slice()),
                gid,
                members: read_members(fields[3].as_slice()),
            },
        ),
        None => None,
    }
}

fn has_text(items: &[String], text: &str) -> (res: bool)
    ensures
        res == views(items@).contains(text@),
{
    let mut i: usize = 0;
    while i < items.len()
        invariant
            i <= items@.len(),
            forall|j: int| 0 <= j < i ==> #[trigger] views(items@)[j] != text@,
        decreases items@.len() - i,
    {
        assert(views(items@)[i as int] == items@[i as int]@);
        if same(items[i].as_str(), text) {
            return true;
        }
        i += 1;
    }
    false
}

fn list_groups(groups: &[LinuxGroup], name: &str) -> (res: Vec<String>)
    ensures
        views(res@) == groups_listing(views(groups@), name@),
{
    let ghost all = views(groups@);
    let mut out: Vec<String> = Vec::new();
    let mut i: usize = 0;
    assert(all.take(0) =~= Seq::empty());
    assert(views(out@) =~= Seq::empty());
    while i < groups.len()
        invariant
            i <= groups@.len(),
            all == views(groups@),
            views(out@) == groups_listing(all.take(i as int), name@),
        decreases groups@.len() - i,
    {
        broadcast use lemma_views_push;

        assert(all.take(i + 1).drop_last() =~= all.take(i as int));
        assert(all.take(i + 1).last() == groups@[i as int]@);
        if has_text(groups[i].members.as_slice(), name) {
            out.push(groups[i].name.clone());
        }
        i += 1;
    }
    assert(all.take(groups@.len() as int) =~= all);
    out
}

fn find_group(groups: &[LinuxGroup], gid: u32) -> (res: Option<String>)
    ensures
        opt_view(res) == group_name(views(groups@), gid),
{
    let ghost all = views(groups@);
    let mut n: usize = groups.len();
    assert(all.take(all.len() as int) =~= all);
    while n > 0
        invariant
            n <= groups@.len(),
            all == views(groups@),
            group_name(all, gid) == group_name(all.take(n as int), gid),
        decreases n,
    {
        assert(all.take(n as int).drop_last() =~= all.take(n - 1));
        assert(all.take(n as int).last() == groups@[n - 1]@);
        if groups[n - 1].gid == gid {
            return Some(groups[n - 1].name.clone());
        }
        n -= 1;
    }
    None
}

fn read_memberships(groups: &[LinuxGroup], name: &str, gid: u32) -> (res: Vec<String>)
    ensures
        views(res@) == memberships(views(groups@), name@, gid),
{
    let mut listed = list_groups(groups, name);
    let ghost before = views(listed@);
    match find_group(groups, gid) {
        Some(primary) => {
            if !has_text(listed.as_slice(), primary.as_str()) {
                let ghost added = primary@;
                listed.insert(0, primary);
                assert(views(listed@) =~= seq![added] + before);
            }
        },
        None => {},
    }
    listed
}

fn read_user(line: &[char], groups: &[LinuxGroup], logins: &[Vec<char>], shadow: &[Vec<char>]) -> (res:
    Option<LinuxUser>)
    ensures
        opt_view(res) == user_of(line@, views(groups@), views(logins@), views(shadow@)),
{
    let fields = parts(line, ':');
    let ghost all = views(fields@);
    if fields.len() < 7 {
        return None;
    }
    assert(all[0] == fields@[0]@ && all[2] == fields@[2]@ && all[3] == fields@[3]@ && all[5]
        == fields@[5]@ && all[6] == fields@[6]@);
    match (parse_u32(fields[2].as_slice()), parse_u32(fields[3].as_slice())) {
        (Some(uid), Some(gid)) => {
            let name = string_of(fields[0].as_slice());
            Some(
                LinuxUser {
                    uid,
                    gid,
                    home: string_of(fields[5].as_slice()),
                    shell: string_of(fields[6].as_slice()),
                    groups: read_memberships(groups, name.as_str(), gid),
                    last_login: find_login(logins, fields[0].as_slice()),
                    locked: find_lock(shadow, fields[0].as_slice()),
                    name,
                },
            )
        },
        _ => None,
    }
}

/// The accounts of a server.
pub fn accounts(passwd: &str, group_text: &str, lastlog: &str, shadow: &str) -> (res:
    AccountSnapshot)
    ensures
        views(res.users@) == users_of(passwd@, group_text@, lastlog@, shadow@),
        views(res.groups@) == groups_of(group_text@),
{
    let groups = collect(
        &lines_str(group_text),
        read_group,
        Ghost(|line: Seq<char>| group_of(line)),
    );
    let logins_all = lines_str(lastlog);
    let shadow_all = lines_str(shadow);
    let known: &[LinuxGroup] = groups.as_slice();
    let from: usize = if logins_all.len() == 0 {
        0
    } else {
        1
    };
    let logins: &[Vec<char>] = vstd::slice::slice_subrange(
        logins_all.as_slice(),
        from,
        logins_all.len(),
    );
    assert(views(logins@) =~= below_heading(lastlog@));
    let locks: &[Vec<char>] = shadow_all.as_slice();
    let pick = |line: &[char]| -> (r: Option<LinuxUser>)
        ensures
            opt_view(r) == user_of(line@, views(known@), views(logins@), views(locks@)),
        { read_user(line, known, logins, locks) };
    let users = collect(
        &lines_str(passwd),
        pick,
        Ghost(
            |line: Seq<char>|
                user_of(
                    line,
                    groups_of(group_text@),
                    below_heading(lastlog@),
                    lines_of(shadow@),
                ),
        ),
    );
    AccountSnapshot { users, groups }
}

// ---------------------------------------------------------------------------
// Changes
// ---------------------------------------------------------------------------

pub open spec fn account_char() -> spec_fn(char) -> bool {
    |c: char| is_alphanumeric(c) || c == '_' || c == '-' || c == '+' || c == '.'
}

pub open spec fn is_account_name(name: Seq<char>) -> bool {
    name.len() > 0 && every_char(name, account_char())
}

pub open spec fn account_name_verdict(name: Seq<char>, label: Seq<char>) -> Result<(), Seq<char>> {
    if is_account_name(name) {
        Ok(())
    } else {
        Err("Invalid "@ + label)
    }
}

pub fn validate_account_name(name: &str, label: &str) -> (res: Result<(), String>)
    ensures
        error_result(res) == account_name_verdict(name@, label@),
{
    let test = |c: char| -> (r: bool)
        ensures
            r == account_char()(c),
        { crate::text::alphanumeric(c) || c == '_' || c == '-' || c == '+' || c == '.' };
    let chars = chars_of(name);
    if chars.len() > 0 && all_chars(&chars, test, Ghost(account_char())) {
        Ok(())
    } else {
        Err(glue2("Invalid ", label))
    }
}

/// A flag with its quoted value, where there is a value that is not blank.
pub open spec fn flag_text(flag: Seq<char>, value: Option<Seq<char>>) -> Seq<char> {
    match value {
        Some(text) => if trim(text).len() > 0 {
            flag + quoted(text)
        } else {
            Seq::empty()
        },
        None => Seq::empty(),
    }
}

/// Puts an account into groups, one after the other.
pub open spec fn addgroup_text(name: Seq<char>, groups: Seq<Seq<char>>) -> Seq<char>
    decreases groups.len(),
{
    if groups.len() == 0 {
        Seq::empty()
    } else {
        addgroup_text(name, groups.drop_last()) + " && addgroup "@ + quoted(name) + " "@ + quoted(
            groups.last(),
        )
    }
}

pub open spec fn useradd_text(input: UserCreateInputView) -> Seq<char> {
    let groups = if input.groups.len() > 0 {
        " -G "@ + quoted(join(input.groups, ","@))
    } else {
        Seq::empty()
    };
    "useradd -m"@ + flag_text(" -d "@, input.home) + flag_text(" -s "@, input.shell) + groups + " "@
        + quoted(input.name)
}

pub open spec fn adduser_text(input: UserCreateInputView) -> Seq<char> {
    "adduser -D"@ + flag_text(" -h "@, input.home) + flag_text(" -s "@, input.shell) + " "@
        + quoted(input.name) + addgroup_text(input.name, input.groups)
}

/// Makes an account, by whichever tool the server has.
pub open spec fn create_text(input: UserCreateInputView) -> Result<Seq<char>, Seq<char>> {
    if !is_account_name(input.name) {
        Err("Invalid username"@)
    } else if exists|i: int| 0 <= i < input.groups.len() && !is_account_name(
        #[trigger] input.groups[i],
    ) {
        Err("Invalid group"@)
    } else {
        Ok(
            "if command -v useradd >/dev/null 2>&1; then "@ + useradd_text(input)
                + "; elif [ -e /etc/alpine-release ] && command -v adduser >/dev/null 2>&1 && command -v addgroup >/dev/null 2>&1; then "@
                + adduser_text(input)
                + "; else echo 'User creation requires shadow-utils/useradd or Alpine BusyBox adduser/addgroup' >&2; exit 69; fi"@,
        )
    }
}

fn append_flag(out: &mut String, flag: &str, value: &Option<String>)
    ensures
        final(out)@ == old(out)@ + flag_text(flag@, opt_view(*value)),
{
    match value {
        Some(text) => {
            if !trim_str(text.as_str()).as_str().is_empty() {
                let ghost before = out@;
                out.append(flag);
                out.append(quote_shell(text.as_str()).as_str());
                assert(out@ =~= before + (flag@ + quoted(text@)));
            } else {
                assert(out@ =~= out@ + Seq::<char>::empty());
            }
        },
        None => {
            assert(out@ =~= out@ + Seq::<char>::empty());
        },
    }
}

fn build_useradd(input: &UserCreateInput) -> (res: String)
    ensures
        res@ == useradd_text(input@),
{
    let mut out = copy("useradd -m");
    append_flag(&mut out, " -d ", &input.home);
    append_flag(&mut out, " -s ", &input.shell);
    let ghost before = out@;
    if input.groups.len() > 0 {
        out.append(" -G ");
        out.append(quote_shell(join_strings(input.groups.as_slice(), ",").as_str()).as_str());
        assert(out@ =~= before + (" -G "@ + quoted(join(views(input.groups@), ","@))));
    } else {
        assert(out@ =~= before + Seq::<char>::empty());
    }
    out.append(" ");
    out.append(quote_shell(input.name.as_str()).as_str());
    out
}

fn build_addgroup(name: &str, groups: &[String]) -> (res: String)
    ensures
        res@ == addgroup_text(name@, views(groups@)),
{
    let ghost all = views(groups@);
    let mut out = String::new();
    let mut i: usize = 0;
    assert(all.take(0) =~= Seq::empty());
    while i < groups.len()
        invariant
            i <= groups@.len(),
            all == views(groups@),
            out@ == addgroup_text(name@, all.take(i as int)),
        decreases groups@.len() - i,
    {
        assert(all.take(i + 1).drop_last() =~= all.take(i as int));
        assert(all.take(i + 1).last() == groups@[i as int]@);
        out.append(" && addgroup ");
        out.append(quote_shell(name).as_str());
        out.append(" ");
        out.append(quote_shell(groups[i].as_str()).as_str());
        i += 1;
    }
    assert(all.take(groups@.len() as int) =~= all);
    out
}

fn build_adduser(input: &UserCreateInput) -> (res: String)
    ensures
        res@ == adduser_text(input@),
{
    let mut out = copy("adduser -D");
    append_flag(&mut out, " -h ", &input.home);
    append_flag(&mut out, " -s ", &input.shell);
    out.append(" ");
    out.append(quote_shell(input.name.as_str()).as_str());
    out.append(build_addgroup(input.name.as_str(), input.groups.as_slice()).as_str());
    out
}

/// The command that makes an account.
pub fn create_user(input: &UserCreateInput) -> (res: Result<String, String>)
    ensures
        text_result(res) == create_text(input@),
{
    match validate_account_name(input.name.as_str(), "username") {
        Err(error) => {
            proof {
                reveal_strlit("Invalid ");
                reveal_strlit("username");
                reveal_strlit("Invalid username");
                assert("Invalid "@ + "username"@ =~= "Invalid username"@);
            }
            return Err(error);
        },
        Ok(()) => {},
    }
    let mut i: usize = 0;
    while i < input.groups.len()
        invariant
            i <= input.groups@.len(),
            is_account_name(input@.name),
            forall|j: int| 0 <= j < i ==> is_account_name(#[trigger] input@.groups[j]),
        decreases input.groups@.len() - i,
    {
        assert(input@.groups[i as int] == input.groups@[i as int]@);
        match validate_account_name(input.groups[i].as_str(), "group") {
            Err(error) => {
                proof {
                    reveal_strlit("Invalid ");
                    reveal_strlit("group");
                    reveal_strlit("Invalid group");
                    assert("Invalid "@ + "group"@ =~= "Invalid group"@);
                }
                return Err(error);
            },
            Ok(()) => {},
        }
        i += 1;
    }
    Ok(
        glue5(
            "if command -v useradd >/dev/null 2>&1; then ",
            build_useradd(input).as_str(),
            "; elif [ -e /etc/alpine-release ] && command -v adduser >/dev/null 2>&1 && command -v addgroup >/dev/null 2>&1; then ",
            build_adduser(input).as_str(),
            "; else echo 'User creation requires shadow-utils/useradd or Alpine BusyBox adduser/addgroup' >&2; exit 69; fi",
        ),
    )
}

/// The input that sets a password.
pub open spec fn password_text(name: Seq<char>, password: Seq<char>) -> Seq<char> {
    name + ":"@ + password + "\n"@
}

fn password_input(name: &str, password: &str) -> (res: String)
    ensures
        res@ == password_text(name@, password@),
{
    let mut out = glue3(name, ":", password);
    out.append("\n");
    out
}

/// The input that sets the password of a new account, where it gets one.
pub fn new_password(input: &UserCreateInput) -> (res: Option<String>)
    ensures
        opt_view(res) == match input@.password {
            Some(password) => if password.len() > 0 {
                Some(password_text(input@.name, password))
            } else {
                None
            },
            None => None,
        },
{
    match &input.password {
        Some(password) => if password.as_str().is_empty() {
            None
        } else {
            Some(password_input(input.name.as_str(), password.as_str()))
        },
        None => None,
    }
}

/// The input that sets another password.
pub open spec fn reset_text(name: Seq<char>, password: Seq<char>) -> Result<Seq<char>, Seq<char>> {
    if !is_account_name(name) {
        Err("Invalid username"@)
    } else if password.len() == 0 || password.contains('\n') {
        Err("Enter a password"@)
    } else {
        Ok(password_text(name, password))
    }
}

pub fn reset_user_password(name: &str, password: &str) -> (res: Result<String, String>)
    ensures
        text_result(res) == reset_text(name@, password@),
{
    match validate_account_name(name, "username") {
        Err(error) => {
            proof {
                reveal_strlit("Invalid ");
                reveal_strlit("username");
                reveal_strlit("Invalid username");
                assert("Invalid "@ + "username"@ =~= "Invalid username"@);
            }
            return Err(error);
        },
        Ok(()) => {},
    }
    if password.is_empty() || crate::text::holds_char(password, '\n') {
        return Err(copy("Enter a password"));
    }
    Ok(password_input(name, password))
}

/// The command of an action on an account or a group.
pub open spec fn account_text(action: Seq<char>, name: Seq<char>, value: Option<Seq<char>>) -> Result<
    Seq<char>,
    Seq<char>,
> {
    let n = quoted(name);
    if !is_account_name(name) {
        if contains_text(action, "group"@) {
            Err("Invalid group"@)
        } else {
            Err("Invalid username"@)
        }
    } else if action == "delete-user"@ {
        Ok(
            "if command -v userdel >/dev/null 2>&1; then userdel -r "@ + n
                + "; elif command -v deluser >/dev/null 2>&1; then deluser --remove-home "@ + n
                + "; else echo 'User deletion requires userdel or deluser' >&2; exit 69; fi"@,
        )
    } else if action == "lock"@ {
        Ok(
            "if command -v usermod >/dev/null 2>&1; then usermod -L "@ + n
                + "; elif command -v passwd >/dev/null 2>&1; then passwd -l "@ + n
                + "; else echo 'Account locking requires usermod or passwd' >&2; exit 69; fi"@,
        )
    } else if action == "unlock"@ {
        Ok(
            "if command -v usermod >/dev/null 2>&1; then usermod -U "@ + n
                + "; elif command -v passwd >/dev/null 2>&1; then passwd -u "@ + n
                + "; else echo 'Account locking requires usermod or passwd' >&2; exit 69; fi"@,
        )
    } else if action == "shell"@ {
        match value {
            None => Err("Enter a shell"@),
            Some(shell) => Ok(
                "if command -v usermod >/dev/null 2>&1; then usermod -s "@ + quoted(shell) + " "@
                    + n + "; elif command -v chsh >/dev/null 2>&1; then chsh -s "@ + quoted(shell)
                    + " "@ + n
                    + "; else echo 'Changing login shells requires usermod or chsh' >&2; exit 69; fi"@,
            ),
        }
    } else if action == "groups"@ {
        Ok(
            "if command -v usermod >/dev/null 2>&1; then usermod -G "@ + quoted(
                crate::ssh::or_empty(value),
            ) + " "@ + n
                + "; else echo 'Replacing supplementary groups requires usermod on this Linux distribution' >&2; exit 69; fi"@,
        )
    } else if action == "create-group"@ {
        Ok(
            "if command -v groupadd >/dev/null 2>&1; then groupadd "@ + n
                + "; elif [ -e /etc/alpine-release ] && command -v addgroup >/dev/null 2>&1; then addgroup -S "@
                + n
                + "; else echo 'Group creation requires groupadd or Alpine BusyBox addgroup' >&2; exit 69; fi"@,
        )
    } else if action == "delete-group"@ {
        Ok(
            "if command -v groupdel >/dev/null 2>&1; then groupdel "@ + n
                + "; elif command -v delgroup >/dev/null 2>&1; then delgroup "@ + n
                + "; else echo 'Group deletion requires groupdel or delgroup' >&2; exit 69; fi"@,
        )
    } else {
        Err("Unsupported account action"@)
    }
}

fn check_account_name(action: &str, name: &str) -> (res: Result<(), String>)
    ensures
        error_result(res) == if is_account_name(name@) {
            Ok::<(), Seq<char>>(())
        } else if contains_text(action@, "group"@) {
            Err("Invalid group"@)
        } else {
            Err("Invalid username"@)
        },
{
    proof {
        reveal_strlit("Invalid ");
        reveal_strlit("username");
        reveal_strlit("Invalid username");
        reveal_strlit("group");
        reveal_strlit("Invalid group");
        assert("Invalid "@ + "username"@ =~= "Invalid username"@);
        assert("Invalid "@ + "group"@ =~= "Invalid group"@);
    }
    if contains_str(action, "group") {
        validate_account_name(name, "group")
    } else {
        validate_account_name(name, "username")
    }
}

/// The command of an action on an account or a group.
pub fn account_action(action: &str, name: &str, value: Option<&str>) -> (res: Result<
    String,
    String,
>)
    ensures
        text_result(res) == account_text(
            action@,
            name@,
            match value {
                Some(text) => Some(text@),
                None => None,
            },
        ),
{
    match check_account_name(action, name) {
        Err(error) => {
            return Err(error);
        },
        Ok(()) => {},
    }
    let quoted_name = quote_shell(name);
    let n: &str = quoted_name.as_str();
    if same(action, "delete-user") {
        Ok(
            glue5(
                "if command -v userdel >/dev/null 2>&1; then userdel -r ",
                n,
                "; elif command -v deluser >/dev/null 2>&1; then deluser --remove-home ",
                n,
                "; else echo 'User deletion requires userdel or deluser' >&2; exit 69; fi",
            ),
        )
    } else if same(action, "lock") {
        Ok(
            glue5(
                "if command -v usermod >/dev/null 2>&1; then usermod -L ",
                n,
                "; elif command -v passwd >/dev/null 2>&1; then passwd -l ",
                n,
                "; else echo 'Account locking requires usermod or passwd' >&2; exit 69; fi",
            ),
        )
    } else if same(action, "unlock") {
        Ok(
            glue5(
                "if command -v usermod >/dev/null 2>&1; then usermod -U ",
                n,
                "; elif command -v passwd >/dev/null 2>&1; then passwd -u ",
                n,
                "; else echo 'Account locking requires usermod or passwd' >&2; exit 69; fi",
            ),
        )
    } else if same(action, "shell") {
        match value {
            None => Err(copy("Enter a shell")),
            Some(shell) => {
                let quoted_shell = quote_shell(shell);
                let mut out = glue5(
                    "if command -v usermod >/dev/null 2>&1; then usermod -s ",
                    quoted_shell.as_str(),
                    " ",
                    n,
                    "; elif command -v chsh >/dev/null 2>&1; then chsh -s ",
                );
                out.append(quoted_shell.as_str());
                out.append(" ");
                out.append(n);
                out.append(
                    "; else echo 'Changing login shells requires usermod or chsh' >&2; exit 69; fi",
                );
                Ok(out)
            },
        }
    } else if same(action, "groups") {
        proof {
            reveal_strlit("");
            assert(""@ =~= Seq::empty());
        }
        let groups = match value {
            Some(text) => text,
            None => "",
        };
        Ok(
            glue5(
                "if command -v usermod >/dev/null 2>&1; then usermod -G ",
                quote_shell(groups).as_str(),
                " ",
                n,
                "; else echo 'Replacing supplementary groups requires usermod on this Linux distribution' >&2; exit 69; fi",
            ),
        )
    } else if same(action, "create-group") {
        Ok(
            glue5(
                "if command -v groupadd >/dev/null 2>&1; then groupadd ",
                n,
                "; elif [ -e /etc/alpine-release ] && command -v addgroup >/dev/null 2>&1; then addgroup -S ",
                n,
                "; else echo 'Group creation requires groupadd or Alpine BusyBox addgroup' >&2; exit 69; fi",
            ),
        )
    } else if same(action, "delete-group") {
        Ok(
            glue5(
                "if command -v groupdel >/dev/null 2>&1; then groupdel ",
                n,
                "; elif command -v delgroup >/dev/null 2>&1; then delgroup ",
                n,
                "; else echo 'Group deletion requires groupdel or delgroup' >&2; exit 69; fi",
            ),
        )
    } else {
        Err(copy("Unsupported account action"))
    }
}

/// Whether an action would shut the way in: root, or the account of the session.
pub open spec fn shuts_out(action: Seq<char>, name: Seq<char>, username: Seq<char>) -> bool {
    (action == "delete-user"@ || action == "lock"@) && (name == "root"@ || name == username)
}

/// Refuses an action that would shut the way in.
pub fn guard_account_action(action: &str, name: &str, username: &str) -> (res: Result<(), String>)
    ensures
        error_result(res) == if shuts_out(action@, name@, username@) {
            Err::<(), Seq<char>>("Refusing to delete or lock root or the active SSH user"@)
        } else {
            Ok(())
        },
{
    if (same(action, "delete-user") || same(action, "lock")) && (same(name, "root") || same(
        name,
        username,
    )) {
        Err(copy("Refusing to delete or lock root or the active SSH user"))
    } else {
        Ok(())
    }
}

/// Each action runs its own command on the account or the group that was named, as one
/// word: locking does not unlock, and only deleting deletes.
pub proof fn accounts_are_acted_on_by_name(action: Seq<char>, name: Seq<char>, value: Option<Seq<char>>)
    requires
        is_account_name(name),
    ensures
        account_text("delete-user"@, name, value) == Ok::<Seq<char>, Seq<char>>(
            "if command -v userdel >/dev/null 2>&1; then userdel -r "@ + quoted(name)
                + "; elif command -v deluser >/dev/null 2>&1; then deluser --remove-home "@
                + quoted(name)
                + "; else echo 'User deletion requires userdel or deluser' >&2; exit 69; fi"@,
        ),
        account_text("lock"@, name, value) == Ok::<Seq<char>, Seq<char>>(
            "if command -v usermod >/dev/null 2>&1; then usermod -L "@ + quoted(name)
                + "; elif command -v passwd >/dev/null 2>&1; then passwd -l "@ + quoted(name)
                + "; else echo 'Account locking requires usermod or passwd' >&2; exit 69; fi"@,
        ),
        account_text("unlock"@, name, value) == Ok::<Seq<char>, Seq<char>>(
            "if command -v usermod >/dev/null 2>&1; then usermod -U "@ + quoted(name)
                + "; elif command -v passwd >/dev/null 2>&1; then passwd -u "@ + quoted(name)
                + "; else echo 'Account locking requires usermod or passwd' >&2; exit 69; fi"@,
        ),
        account_text("shell"@, name, value) == match value {
            None => Err("Enter a shell"@),
            Some(shell) => Ok(
                "if command -v usermod >/dev/null 2>&1; then usermod -s "@ + quoted(shell) + " "@
                    + quoted(name) + "; elif command -v chsh >/dev/null 2>&1; then chsh -s "@
                    + quoted(shell) + " "@ + quoted(name)
                    + "; else echo 'Changing login shells requires usermod or chsh' >&2; exit 69; fi"@,
            ),
        },
        account_text("groups"@, name, value) == Ok::<Seq<char>, Seq<char>>(
            "if command -v usermod >/dev/null 2>&1; then usermod -G "@ + quoted(
                match value {
                    Some(groups) => groups,
                    None => Seq::empty(),
                },
            ) + " "@ + quoted(name)
                + "; else echo 'Replacing supplementary groups requires usermod on this Linux distribution' >&2; exit 69; fi"@,
        ),
        account_text("create-group"@, name, value) == Ok::<Seq<char>, Seq<char>>(
            "if command -v groupadd >/dev/null 2>&1; then groupadd "@ + quoted(name)
                + "; elif [ -e /etc/alpine-release ] && command -v addgroup >/dev/null 2>&1; then addgroup -S "@
                + quoted(name)
                + "; else echo 'Group creation requires groupadd or Alpine BusyBox addgroup' >&2; exit 69; fi"@,
        ),
        account_text("delete-group"@, name, value) == Ok::<Seq<char>, Seq<char>>(
            "if command -v groupdel >/dev/null 2>&1; then groupdel "@ + quoted(name)
                + "; elif command -v delgroup >/dev/null 2>&1; then delgroup "@ + quoted(name)
                + "; else echo 'Group deletion requires groupdel or delgroup' >&2; exit 69; fi"@,
        ),
        account_text(action, name, value) is Ok ==> action == "delete-user"@ || action == "lock"@
            || action == "unlock"@ || action == "shell"@ || action == "groups"@ || action
            == "create-group"@ || action == "delete-group"@,
{
    reveal_strlit("delete-user");
    reveal_strlit("lock");
    reveal_strlit("unlock");
    reveal_strlit("shell");
    reveal_strlit("groups");
    reveal_strlit("create-group");
    reveal_strlit("delete-group");
    assert("delete-user"@.len() == 11);
    assert("lock"@.len() == 4);
    assert("unlock"@.len() == 6);
    assert("shell"@.len() == 5);
    assert("groups"@.len() == 6);
    assert("create-group"@.len() == 12);
    assert("delete-group"@.len() == 12);
    assert("unlock"@[0] == 'u');
    assert("groups"@[0] == 'g');
    assert("create-group"@[0] == 'c');
    assert("delete-group"@[0] == 'd');
}

/// No action runs on a name that a shell or another tool could take for anything else: the
/// names are ASCII letters, digits, `_`, `-`, `+` and `.`.
pub proof fn accounts_have_plain_names(
    action: Seq<char>,
    name: Seq<char>,
    value: Option<Seq<char>>,
    password: Seq<char>,
    input: UserCreateInputView,
)
    ensures
        account_text(action, name, value) is Ok || reset_text(name, password) is Ok
            ==> is_plain_name(name),
        create_text(input) is Ok ==> is_plain_name(input.name) && forall|i: int|
            0 <= i < input.groups.len() ==> is_plain_name(#[trigger] input.groups[i]),
        is_plain_name(name) ==> is_account_name(name),
{
    assert forall|s: Seq<char>| is_account_name(s) implies #[trigger] is_plain_name(s) by {
        assert forall|i: int| 0 <= i < s.len() implies is_alphanumeric(#[trigger] s[i]) || s[i]
            == '_' || s[i] == '-' || s[i] == '+' || s[i] == '.' by {
            assert(account_char()(s[i]));
        }
    }
    if create_text(input) is Ok {
        assert forall|i: int| 0 <= i < input.groups.len() implies is_plain_name(
            #[trigger] input.groups[i],
        ) by {
            assert(is_account_name(input.groups[i]));
        }
    }
}

/// Whether a name holds nothing but ASCII letters, digits, `_`, `-`, `+` and `.`, and at
/// least one of them.
pub open spec fn is_plain_name(name: Seq<char>) -> bool {
    name.len() > 0 && forall|i: int|
        0 <= i < name.len() ==> is_alphanumeric(#[trigger] name[i]) || name[i] == '_' || name[i]
            == '-' || name[i] == '+' || name[i] == '.'
}

/// A new account gets the home, the shell and the groups that were asked for, and no others,
/// each as one word.
pub proof fn new_accounts_get_what_was_asked_for(input: UserCreateInputView)
    requires
        create_text(input) is Ok,
    ensures
        input.home is None && input.shell is None && input.groups.len() == 0 ==> create_text(input)
            == Ok::<Seq<char>, Seq<char>>(
            "if command -v useradd >/dev/null 2>&1; then "@ + ("useradd -m"@ + " "@ + quoted(
                input.name,
            ))
                + "; elif [ -e /etc/alpine-release ] && command -v adduser >/dev/null 2>&1 && command -v addgroup >/dev/null 2>&1; then "@
                + ("adduser -D"@ + " "@ + quoted(input.name))
                + "; else echo 'User creation requires shadow-utils/useradd or Alpine BusyBox adduser/addgroup' >&2; exit 69; fi"@,
        ),
        input.home matches Some(home) ==> input.shell matches Some(shell) ==> trim(home).len() > 0
            && trim(shell).len() > 0 && input.groups.len() > 0 ==> useradd_text(input)
            == "useradd -m"@ + (" -d "@ + quoted(home)) + (" -s "@ + quoted(shell)) + (" -G "@
            + quoted(join(input.groups, ","@))) + " "@ + quoted(input.name) && starts_with(
            adduser_text(input),
            "adduser -D"@ + (" -h "@ + quoted(home)) + (" -s "@ + quoted(shell)) + " "@ + quoted(
                input.name,
            ),
        ),
{
    let none = Seq::<char>::empty();
    if input.home is None && input.shell is None && input.groups.len() == 0 {
        assert("useradd -m"@ + none + none + none =~= "useradd -m"@);
        assert("adduser -D"@ + none + none =~= "adduser -D"@);
        assert("adduser -D"@ + " "@ + quoted(input.name) + none =~= "adduser -D"@ + " "@ + quoted(
            input.name,
        ));
    }
    let base = "adduser -D"@ + flag_text(" -h "@, input.home) + flag_text(" -s "@, input.shell)
        + " "@ + quoted(input.name);
    assert((base + addgroup_text(input.name, input.groups)).take(base.len() as int) =~= base);
}

/// On Alpine a new account joins each of its groups, one after the other.
pub proof fn new_accounts_join_their_groups(name: Seq<char>, groups: Seq<Seq<char>>, group: Seq<char>)
    ensures
        addgroup_text(name, groups.push(group)) == addgroup_text(name, groups) + " && addgroup "@
            + quoted(name) + " "@ + quoted(group),
        addgroup_text(name, Seq::empty()).len() == 0,
{
    assert(groups.push(group).drop_last() =~= groups);
}

/// A password is set for the account that was named and for no other: the line that sets
/// it names the account and holds the whole password, and nothing below it.
pub proof fn passwords_are_set_by_name(name: Seq<char>, password: Seq<char>)
    ensures
        reset_text(name, password) matches Ok(line) ==> {
            &&& line == name + ":"@ + password + "\n"@
            &&& password.len() > 0
            &&& !password.contains('\n')
        },
        is_plain_name(name) && password.len() > 0 && !password.contains('\n') ==> reset_text(
            name,
            password,
        ) is Ok,
        password_text(name, password) == name + ":"@ + password + "\n"@,
{
}

/// Root and the user that is signed in are neither deleted nor locked; whatever else is done
/// is let through.
pub proof fn nobody_is_shut_out(action: Seq<char>, name: Seq<char>, username: Seq<char>)
    ensures
        shuts_out("delete-user"@, "root"@, username),
        shuts_out("lock"@, "root"@, username),
        shuts_out("delete-user"@, username, username),
        shuts_out("lock"@, username, username),
        name != "root"@ && name != username ==> !shuts_out(action, name, username),
        action != "delete-user"@ && action != "lock"@ ==> !shuts_out(action, name, username),
{
}

/// A group is read back from its line, with each of its members.
pub proof fn groups_read_back(fields: Seq<Seq<char>>, members: Seq<Seq<char>>, gid: u32)
    requires
        fields.len() == 4,
        forall|i: int| 0 <= i < fields.len() ==> !(#[trigger] fields[i]).contains(':'),
        members.len() > 0,
        forall|i: int|
            0 <= i < members.len() ==> !(#[trigger] members[i]).contains(',') && members[i].len()
                > 0,
        u32_in(fields[2]) == Some(gid),
        fields[3] == join(members, seq![',']),
    ensures
        group_of(join(fields, seq![':'])) == Some(
            LinuxGroupView { name: fields[0], gid, members },
        ),
{
    joined_parts_read_back(fields, ':');
    joined_parts_read_back(members, ',');
    lemma_all_kept(members);
}

proof fn lemma_all_kept(members: Seq<Seq<char>>)
    requires
        forall|i: int| 0 <= i < members.len() ==> (#[trigger] members[i]).len() > 0,
    ensures
        members.filter(is_member()) == members,
    decreases members.len(),
{
    reveal(Seq::filter);
    if members.len() > 0 {
        lemma_all_kept(members.drop_last());
        assert(members[members.len() - 1].len() > 0);
        assert(members.drop_last().push(members.last()) =~= members);
    }
}

/// An account is read back from its line: its name and numbers, its home and its shell; and
/// what the other files say is what they say of this name.
pub proof fn accounts_read_back(
    fields: Seq<Seq<char>>,
    uid: u32,
    gid: u32,
    groups: Seq<LinuxGroupView>,
    logins: Seq<Seq<char>>,
    shadow: Seq<Seq<char>>,
)
    requires
        fields.len() == 7,
        forall|i: int| 0 <= i < fields.len() ==> !(#[trigger] fields[i]).contains(':'),
        u32_in(fields[2]) == Some(uid),
        u32_in(fields[3]) == Some(gid),
    ensures
        user_of(join(fields, seq![':']), groups, logins, shadow) matches Some(user) && {
            &&& user.name == fields[0]
            &&& user.uid == uid
            &&& user.gid == gid
            &&& user.home == fields[5]
            &&& user.shell == fields[6]
            &&& user.groups == memberships(groups, fields[0], gid)
            &&& user.locked <==> is_locked(shadow, fields[0])
            &&& user.last_login == last_login(logins, fields[0])
        },
{
    joined_parts_read_back(fields, ':');
}

/// An account counts as locked where its hash begins with `!` or `*`, and not by the line of
/// another account.
pub proof fn locked_accounts_are_told(fields: Seq<Seq<char>>, name: Seq<char>)
    requires
        fields.len() >= 2,
        forall|i: int| 0 <= i < fields.len() ==> !(#[trigger] fields[i]).contains(':'),
    ensures
        locks(join(fields, seq![':']), name) <==> fields[0] == name && fields[1].len() > 0 && (
        fields[1][0] == '!' || fields[1][0] == '*'),
{
    joined_parts_read_back(fields, ':');
    reveal_strlit("!");
    reveal_strlit("*");
    let hash = fields[1];
    if hash.len() > 0 {
        assert(hash.take(1)[0] == hash[0]);
        if hash[0] == '!' {
            assert(hash.take(1) =~= "!"@);
        }
        if hash[0] == '*' {
            assert(hash.take(1) =~= "*"@);
        }
    }
}

/// The groups of an account are the group of its number and those that list it, and no
/// others.
pub proof fn memberships_are_complete(
    groups: Seq<LinuxGroupView>,
    name: Seq<char>,
    gid: u32,
    group: Seq<char>,
)
    ensures
        memberships(groups, name, gid).contains(group) <==> (exists|i: int|
            0 <= i < groups.len() && (#[trigger] groups[i]).name == group
                && groups[i].members.contains(name)) || group_name(groups, gid) == Some(group),
        group_name(groups, gid) matches Some(primary) ==> exists|i: int|
            0 <= i < groups.len() && (#[trigger] groups[i]).name == primary && groups[i].gid == gid,
{
    lemma_listing(groups, name, group);
    lemma_group_name(groups, gid);
    let listed = groups_listing(groups, name);
    if let Some(primary) = group_name(groups, gid) {
        if !listed.contains(primary) {
            let all = seq![primary] + listed;
            assert(all[0] == primary);
            if listed.contains(group) {
                let k = choose|k: int| 0 <= k < listed.len() && listed[k] == group;
                assert(all[k + 1] == group);
            }
            if all.contains(group) && group != primary {
                let k = choose|k: int| 0 <= k < all.len() && all[k] == group;
                assert(listed[k - 1] == group);
            }
        }
    }
}

proof fn lemma_group_name(groups: Seq<LinuxGroupView>, gid: u32)
    ensures
        group_name(groups, gid) matches Some(primary) ==> exists|i: int|
            0 <= i < groups.len() && (#[trigger] groups[i]).name == primary && groups[i].gid == gid,
    decreases groups.len(),
{
    if groups.len() > 0 {
        if groups.last().gid == gid {
            assert(groups[groups.len() - 1].gid == gid);
        } else {
            lemma_group_name(groups.drop_last(), gid);
            if group_name(groups, gid) is Some {
                let rest = groups.drop_last();
                let primary = group_name(groups, gid)->0;
                let i = choose|i: int|
                    0 <= i < rest.len() && (#[trigger] rest[i]).name == primary && rest[i].gid
                        == gid;
                assert(groups[i] == rest[i]);
            }
        }
    }
}

proof fn lemma_listing(groups: Seq<LinuxGroupView>, name: Seq<char>, group: Seq<char>)
    ensures
        groups_listing(groups, name).contains(group) <==> exists|i: int|
            0 <= i < groups.len() && (#[trigger] groups[i]).name == group
                && groups[i].members.contains(name),
    decreases groups.len(),
{
    if groups.len() > 0 {
        let rest = groups.drop_last();
        let last = groups.last();
        lemma_listing(rest, name, group);
        let before = groups_listing(rest, name);
        assert(groups[groups.len() - 1] == last);
        if last.members.contains(name) {
            let after = before.push(last.name);
            assert(after[before.len() as int] == last.name);
            if before.contains(group) {
                let k = choose|k: int| 0 <= k < before.len() && before[k] == group;
                assert(after[k] == group);
            }
            if after.contains(group) && group != last.name {
                let k = choose|k: int| 0 <= k < after.len() && after[k] == group;
                assert(before[k] == group);
            }
        }
        if exists|i: int|
            0 <= i < rest.len() && (#[trigger] rest[i]).name == group && rest[i].members.contains(
                name,
            ) {
            let i = choose|i: int|
                0 <= i < rest.len() && (#[trigger] rest[i]).name == group
                    && rest[i].members.contains(name);
            assert(groups[i] == rest[i]);
        }
        if exists|i: int|
            0 <= i < groups.len() && (#[trigger] groups[i]).name == group
                && groups[i].members.contains(name) {
            let i = choose|i: int|
                0 <= i < groups.len() && (#[trigger] groups[i]).name == group
                    && groups[i].members.contains(name);
            if i < rest.len() {
                assert(rest[i] == groups[i]);
            }
        }
    }
}

/// What a server is asked of its accounts, word for word; only setting a password writes.
pub proof fn accounts_are_asked_for()
    ensures
        PASSWD_COMMAND@ == "if command -v getent >/dev/null 2>&1; then getent passwd; elif [ -r /etc/passwd ]; then cat /etc/passwd; else echo 'Neither getent nor a readable /etc/passwd is available' >&2; exit 69; fi"@,
        GROUP_COMMAND@ == "if command -v getent >/dev/null 2>&1; then getent group; elif [ -r /etc/group ]; then cat /etc/group; else echo 'Neither getent nor a readable /etc/group is available' >&2; exit 69; fi"@,
        LASTLOG_COMMAND@ == "LC_ALL=C lastlog 2>/dev/null || true"@,
        SHADOW_COMMAND@ == "if command -v getent >/dev/null 2>&1; then getent shadow; elif [ -r /etc/shadow ]; then cat /etc/shadow; fi"@,
        CHPASSWD_COMMAND@ == "if command -v chpasswd >/dev/null 2>&1; then chpasswd; else echo 'Password changes require chpasswd, which is not installed on this server' >&2; exit 69; fi"@,
{
}

/// A last login is told of the account that it was printed for, as it was printed behind the
/// name; one that never came is not.
pub proof fn logins_are_told_by_name(lines: Seq<Seq<char>>, line: Seq<char>, name: Seq<char>)
    ensures
        login_name(line) == Some(name) ==> last_login(lines.push(line), name) == Some(
            login_text(line, name),
        ),
        login_name(line) != Some(name) ==> last_login(lines.push(line), name) == last_login(
            lines,
            name,
        ),
        contains_text(line, "Never logged in"@) ==> login_name(line) is None,
        !contains_text(line, "Never logged in"@) && words_of(line).len() > 0 ==> login_name(line)
            == Some(words_of(line)[0]),
        last_login(Seq::empty(), name) is None,
{
    assert(lines.push(line).drop_last() =~= lines);
}

} // verus!
