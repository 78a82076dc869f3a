//! The packages of a server with APT.
use crate::disk::{below_heading, collect_below};
use crate::models::{PackageInfo, PackageInfoView, PackagePage};
use crate::paging::{page, page_limit, page_size, shows};
use crate::ssh::{error_result, quote_shell, quoted, text_result};
use crate::text::{
    all_chars, chars_of, collect, copy, every_char, glue3, is_alphanumeric, is_text, is_word, join,
    joined_words_read_back, lemma_find_from, limited_parts_read_back, lines_of, lines_str,
    matches_at, opt_view, parts_limited, parts_up_to, same, split_at_char, split_at_text,
    split_char, split_text, splits_read_back, string_of, trim, trim_str, views, words, words_of,
};
use vstd::prelude::*;

verus! {

broadcast use vstd::string::group_string_axioms;

/// Lists the packages with newer versions.
pub const UPGRADABLE_COMMAND: &'static str = "LC_ALL=C apt list --upgradable 2>/dev/null || true";

/// Lists the installed packages.
pub const INSTALLED_COMMAND: &'static str = "dpkg-query -W -f='${binary:Package}\\t${Version}\\t${Architecture}\\t${binary:Summary}\\n' 2>/dev/null || true";

/// Lists the names of the installed packages.
pub const INSTALLED_NAMES_COMMAND: &'static str = "dpkg-query -W -f='${binary:Package}\\n' 2>/dev/null || true";

// ---------------------------------------------------------------------------
// Commands
// ---------------------------------------------------------------------------

pub open spec fn manager_verdict(manager: Option<Seq<char>>) -> Result<(), Seq<char>> {
    if manager == Some("apt-get"@) {
        Ok(())
    } else {
        Err("Package management currently supports Debian and Ubuntu APT servers"@)
    }
}

/// Accepts a server whose package manager is APT.
pub fn check_manager(manager: &Option<String>) -> (res: Result<(), String>)
    ensures
        error_result(res) == manager_verdict(opt_view(*manager)),
{
    match manager {
        Some(name) => {
            if same(name.as_str(), "apt-get") {
                return Ok(());
            }
        },
        None => {},
    }
    Err(copy("Package management currently supports Debian and Ubuntu APT servers"))
}

/// Lists what a query asks for: the installed packages where it is blank, or else those
/// whose names match.
pub open spec fn listing_of(query: Seq<char>) -> Seq<char> {
    if trim(query).len() == 0 {
        INSTALLED_COMMAND@
    } else {
        "apt-cache search --names-only "@ + quoted(trim(query)) + " 2>/dev/null || true"@
    }
}

pub fn packages_command(query: &str) -> (res: String)
    ensures
        res@ == listing_of(query@),
{
    let query = trim_str(query);
    if query.as_str().is_empty() {
        copy(INSTALLED_COMMAND)
    } else {
        glue3(
            "apt-cache search --names-only ",
            quote_shell(query.as_str()).as_str(),
            " 2>/dev/null || true",
        )
    }
}

pub open spec fn name_char() -> spec_fn(char) -> bool {
    |c: char| is_alphanumeric(c) || c == '+' || c == '-' || c == '.' || c == ':'
}

pub open spec fn package_name_verdict(name: Seq<char>) -> Result<(), Seq<char>> {
    if name.len() > 0 && every_char(name, name_char()) {
        Ok(())
    } else {
        Err("Invalid package name"@)
    }
}

pub fn validate_package_name(name: &str) -> (res: Result<(), String>)
    ensures
        error_result(res) == package_name_verdict(name@),
{
    let test = |c: char| -> (r: bool)
        ensures
            r == name_char()(c),
        { crate::text::alphanumeric(c) || c == '+' || c == '-' || c == '.' || c == ':' };
    let chars = chars_of(name);
    if chars.len() > 0 && all_chars(&chars, test, Ghost(name_char())) {
        Ok(())
    } else {
        Err(copy("Invalid package name"))
    }
}

/// Shows a package.
pub open spec fn details_text(name: Seq<char>) -> Result<Seq<char>, Seq<char>> {
    match package_name_verdict(name) {
        Ok(()) => Ok("apt-cache show "@ + quoted(name) + " 2>/dev/null | sed -n '1,100p'"@),
        Err(error) => Err(error),
    }
}

pub fn package_details(name: &str) -> (res: Result<String, String>)
    ensures
        text_result(res) == details_text(name@),
{
    match validate_package_name(name) {
        Ok(()) => Ok(
            glue3(
                "apt-cache show ",
                quote_shell(name).as_str(),
                " 2>/dev/null | sed -n '1,100p'",
            ),
        ),
        Err(error) => Err(error),
    }
}

/// Runs APT without asking back.
pub open spec fn apt_text(verb: Seq<char>, name: Seq<char>) -> Seq<char> {
    "DEBIAN_FRONTEND=noninteractive apt-get -y "@ + verb + " "@ + quoted(name)
}

/// The command of an action on packages.
pub open spec fn package_action_text(action: Seq<char>, name: Option<Seq<char>>) -> Result<
    Seq<char>,
    Seq<char>,
> {
    if action == "update"@ {
        Ok("DEBIAN_FRONTEND=noninteractive apt-get update"@)
    } else if action == "upgrade-all"@ {
        Ok("DEBIAN_FRONTEND=noninteractive apt-get -y upgrade"@)
    } else if action == "install"@ || action == "remove"@ || action == "upgrade"@ {
        match name {
            None => Err("Choose a package"@),
            Some(name) => match package_name_verdict(name) {
                Err(error) => Err(error),
                Ok(()) => Ok(
                    apt_text(
                        if action == "upgrade"@ {
                            "install --only-upgrade"@
                        } else {
                            action
                        },
                        name,
                    ),
                ),
            },
        }
    } else {
        Err("Unsupported package action"@)
    }
}

pub fn package_action(action: &str, name: Option<&str>) -> (res: Result<String, String>)
    ensures
        text_result(res) == package_action_text(
            action@,
            match name {
                Some(text) => Some(text@),
                None => None,
            },
        ),
{
    if same(action, "update") {
        return Ok(copy("DEBIAN_FRONTEND=noninteractive apt-get update"));
    }
    if same(action, "upgrade-all") {
        return Ok(copy("DEBIAN_FRONTEND=noninteractive apt-get -y upgrade"));
    }
    if same(action, "install") || same(action, "remove") || same(action, "upgrade") {
        match name {
            None => {
                return Err(copy("Choose a package"));
            },
            Some(name) => {
                match validate_package_name(name) {
                    Err(error) => {
                        return Err(error);
                    },
                    Ok(()) => {},
                }
                let verb = if same(action, "upgrade") {
                    copy("install --only-upgrade")
                } else {
                    copy(action)
                };
                let mut out = glue3(
                    "DEBIAN_FRONTEND=noninteractive apt-get -y ",
                    verb.as_str(),
                    " ",
                );
                out.append(quote_shell(name).as_str());
                return Ok(out);
            },
        }
    }
    Err(copy("Unsupported package action"))
}

// ---------------------------------------------------------------------------
// Reading
// ---------------------------------------------------------------------------

/// A newer version of a package. The name may carry the architecture behind a colon.
#[derive(Debug, PartialEq, Eq)]
pub struct Upgrade {
    pub name: String,
    pub version: String,
}

#[verifier::ext_equal]
pub struct UpgradeView {
    pub name: Seq<char>,
    pub version: Seq<char>,
}

impl View for Upgrade {
    type V = UpgradeView;

    open spec fn view(&self) -> UpgradeView {
        UpgradeView { name: self.name@, version: self.version@ }
    }
}

/// The upgrade that a line names.
pub open spec fn upgrade_row(line: Seq<char>) -> Option<UpgradeView> {
    match split_at_char(line, '/') {
        Some((name, rest)) => if name.len() > 0 && words_of(rest).len() > 1 {
            Some(UpgradeView { name, version: words_of(rest)[1] })
        } else {
            None
        },
        None => None,
    }
}

/// The upgrades of a listing, whose first line is a heading.
pub open spec fn upgrades_of(output: Seq<char>) -> Seq<UpgradeView> {
    below_heading(output).filter_map(|line: Seq<char>| upgrade_row(line))
}

pub open spec fn names_upgrade(rows: Seq<UpgradeView>, name: Seq<char>) -> bool {
    exists|i: int| 0 <= i < rows.len() && (#[trigger] rows[i]).name == name
}

/// How many packages have upgrades.
pub open spec fn upgrade_count(rows: Seq<UpgradeView>) -> nat
    decreases rows.len(),
{
    if rows.len() == 0 {
        0
    } else if names_upgrade(rows.drop_last(), rows.last().name) {
        upgrade_count(rows.drop_last())
    } else {
        upgrade_count(rows.drop_last()) + 1
    }
}

/// The version that the last row of this very name has.
pub open spec fn named_upgrade(rows: Seq<UpgradeView>, name: Seq<char>) -> Option<Seq<char>>
    decreases rows.len(),
{
    if rows.len() == 0 {
        None
    } else if rows.last().name == name {
        Some(rows.last().version)
    } else {
        named_upgrade(rows.drop_last(), name)
    }
}

/// Whether a name is `name` with an architecture behind it.
pub open spec fn is_qualified(qualified: Seq<char>, name: Seq<char>) -> bool {
    match split_at_char(qualified, ':') {
        Some((base, _)) => base == name,
        None => false,
    }
}

/// The version that the last row of this name with an architecture has.
pub open spec fn qualified_upgrade(rows: Seq<UpgradeView>, name: Seq<char>) -> Option<Seq<char>>
    decreases rows.len(),
{
    if rows.len() == 0 {
        None
    } else if is_qualified(rows.last().name, name) {
        Some(rows.last().version)
    } else {
        qualified_upgrade(rows.drop_last(), name)
    }
}

/// The version that a package can be upgraded to.
pub open spec fn upgrade_for(rows: Seq<UpgradeView>, name: Seq<char>) -> Option<Seq<char>> {
    match named_upgrade(rows, name) {
        Some(version) => Some(version),
        None => qualified_upgrade(rows, name),
    }
}

/// The package on a line of the installed ones.
pub open spec fn installed_row(line: Seq<char>, rows: Seq<UpgradeView>) -> Option<
    PackageInfoView,
> {
    let fields = parts_up_to(line, '\t', 4);
    if fields.len() < 4 {
        None
    } else {
        Some(
            PackageInfoView {
                name: fields[0],
                version: fields[1],
                architecture: fields[2],
                description: fields[3],
                installed: true,
                upgrade_version: upgrade_for(rows, fields[0]),
            },
        )
    }
}

/// The package on a line of a search.
pub open spec fn found_row(line: Seq<char>, installed: Seq<Seq<char>>, rows: Seq<UpgradeView>) -> Option<
    PackageInfoView,
> {
    match split_at_text(line, " - "@) {
        Some((name, description)) => Some(
            PackageInfoView {
                name,
                version: Seq::empty(),
                architecture: Seq::empty(),
                description,
                installed: installed.contains(name),
                upgrade_version: upgrade_for(rows, name),
            },
        ),
        None => None,
    }
}

/// A package, unless only those with upgrades are asked for and it has none.
pub open spec fn wanted(row: Option<PackageInfoView>, upgrades_only: bool) -> Option<
    PackageInfoView,
> {
    match row {
        Some(info) => if upgrades_only && info.upgrade_version is None {
            None
        } else {
            Some(info)
        },
        None => None,
    }
}

/// What the server answered to the commands of a listing.
pub struct PackageOutput {
    pub upgradable: String,
    pub listing: String,
    pub installed_names: String,
}

/// The packages of a listing.
pub open spec fn package_rows(query: Seq<char>, upgrades_only: bool, output: PackageOutput) -> Seq<
    PackageInfoView,
> {
    let rows = upgrades_of(output.upgradable@);
    let installed = lines_of(output.installed_names@);
    if trim(query).len() == 0 {
        lines_of(output.listing@).filter_map(
            |line: Seq<char>| wanted(installed_row(line, rows), upgrades_only),
        )
    } else {
        lines_of(output.listing@).filter_map(
            |line: Seq<char>| wanted(found_row(line, installed, rows), upgrades_only),
        )
    }
}

/// What is left behind `offset` items.
pub open spec fn behind<T>(items: Seq<T>, offset: usize) -> Seq<T> {
    if offset <= items.len() {
        items.skip(offset as int)
    } else {
        Seq::empty()
    }
}

fn read_upgrade(line: &[char]) -> (res: Option<Upgrade>)
    ensures
        opt_view(res) == upgrade_row(line@),
{
    match split_char(line, '/') {
        Some((name, rest)) => {
            let fields = words(&rest);
            if name.len() > 0 && fields.len() > 1 {
                assert(views(fields@)[1] == fields@[1]@);
                Some(
                    Upgrade { name: string_of(&name), version: string_of(fields[1].as_slice()) },
                )
            } else {
                None
            }
        },
        None => None,
    }
}

fn find_named(rows: &[Upgrade], name: &[char]) -> (res: Option<String>)
    ensures
        opt_view(res) == named_upgrade(views(rows@), name@),
{
    let ghost all = views(rows@);
    let mut n: usize = rows.len();
    assert(all.take(all.len() as int) =~= all);
    while n > 0
        invariant
            n <= rows@.len(),
            all == views(rows@),
            named_upgrade(all, name@) == named_upgrade(all.take(n as int), name@),
        decreases n,
    {
        assert(all.take(n as int).drop_last() =~= all.take(n - 1));
        assert(all.take(n as int).last() == rows@[n - 1]@);
        if is_text(name, rows[n - 1].name.as_str()) {
            return Some(rows[n - 1].version.clone());
        }
        n -= 1;
    }
    None
}

fn qualifies(qualified: &str, name: &[char]) -> (res: bool)
    ensures
        res == is_qualified(qualified@, name@),
{
    match split_char(&chars_of(qualified), ':') {
        Some((base, _)) => crate::text::equal(&base, name),
        None => false,
    }
}

fn find_qualified(rows: &[Upgrade], name: &[char]) -> (res: Option<String>)
    ensures
        opt_view(res) == qualified_upgrade(views(rows@), name@),
{
    let ghost all = views(rows@);
    let mut n: usize = rows.len();
    assert(all.take(all.len() as int) =~= all);
    while n > 0
        invariant
            n <= rows@.len(),
            all == views(rows@),
            qualified_upgrade(all, name@) == qualified_upgrade(all.take(n as int), name@),
        decreases n,
    {
        assert(all.take(n as int).drop_last() =~= all.take(n - 1));
        assert(all.take(n as int).last() == rows@[n - 1]@);
        if qualifies(rows[n - 1].name.as_str(), name) {
            return Some(rows[n - 1].version.clone());
        }
        n -= 1;
    }
    None
}

fn find_upgrade(rows: &[Upgrade], name: &[char]) -> (res: Option<String>)
    ensures
        opt_view(res) == upgrade_for(views(rows@), name@),
{
    match find_named(rows, name) {
        Some(version) => Some(version),
        None => find_qualified(rows, name),
    }
}

fn count_upgrades(rows: &[Upgrade]) -> (res: usize)
    ensures
        res == upgrade_count(views(rows@)),
{
    let ghost all = views(rows@);
    let mut count: usize = 0;
    let mut i: usize = 0;
    assert(all.take(0) =~= Seq::empty());
    while i < rows.len()
        invariant
            i <= rows@.len(),
            all == views(rows@),
            count <= i,
            count == upgrade_count(all.take(i as int)),
        decreases rows@.len() - i,
    {
        let ghost before = all.take(i as int);
        assert(all.take(i + 1).drop_last() =~= before);
        assert(all.take(i + 1).last() == rows@[i as int]@);
        let mut known = false;
        let mut j: usize = 0;
        while j < i
            invariant
                j <= i < rows@.len(),
                all == views(rows@),
                before == all.take(i as int),
                known == exists|k: int| 0 <= k < j && (#[trigger] before[k]).name == rows@[i as int].name@,
            decreases i - j,
        {
            assert(before[j as int] == rows@[j as int]@);
            if same(rows[j].name.as_str(), rows[i].name.as_str()) {
                known = true;
            }
            j += 1;
        }
        if !known {
            count += 1;
        }
        i += 1;
    }
    assert(all.take(rows@.len() as int) =~= all);
    count
}

fn has_line(lines: &[Vec<char>], text: &[char]) -> (res: bool)
    ensures
        res == views(lines@).contains(text@),
{
    let mut i: usize = 0;
    while i < lines.len()
        invariant
            i <= lines@.len(),
            forall|j: int| 0 <= j < i ==> #[trigger] views(lines@)[j] != text@,
        decreases lines@.len() - i,
    {
        assert(views(lines@)[i as int] == lines@[i as int]@);
        if crate::text::equal(lines[i].as_slice(), text) {
            return true;
        }
        i += 1;
    }
    false
}

fn keep_wanted(row: Option<PackageInfo>, upgrades_only: bool) -> (res: Option<PackageInfo>)
    ensures
        opt_view(res) == wanted(opt_view(row), upgrades_only),
{
    match row {
        Some(info) => if upgrades_only && info.upgrade_version.is_none() {
            None
        } else {
            Some(info)
        },
        None => None,
    }
}

fn read_installed(line: &[char], rows: &[Upgrade]) -> (res: Option<PackageInfo>)
    ensures
        opt_view(res) == installed_row(line@, views(rows@)),
{
    let fields = parts_limited(line, '\t', 4);
    let ghost all = views(fields@);
    if fields.len() < 4 {
        return None;
    }
    assert(all[0] == fields@[0]@ && all[1] == fields@[1]@ && all[2] == fields@[2]@ && all[3]
        == fields@[3]@);
    Some(
        PackageInfo {
            name: string_of(fields[0].as_slice()),
            version: string_of(fields[1].as_slice()),
            architecture: string_of(fields[2].as_slice()),
            description: string_of(fields[3].as_slice()),
            installed: true,
            upgrade_version: find_upgrade(rows, fields[0].as_slice()),
        },
    )
}

fn read_found(line: &[char], installed: &[Vec<char>], rows: &[Upgrade]) -> (res: Option<
    PackageInfo,
>)
    ensures
        opt_view(res) == found_row(line@, views(installed@), views(rows@)),
{
    match split_text(line, " - ") {
        Some((name, description)) => Some(
            PackageInfo {
                name: string_of(&name),
                version: String::new(),
                architecture: String::new(),
                description: string_of(&description),
                installed: has_line(installed, &name),
                upgrade_version: find_upgrade(rows, &name),
            },
        ),
        None => None,
    }
}

/// The page of packages that a query asks for.
pub fn packages(
    query: &str,
    upgrades_only: bool,
    offset: usize,
    limit: usize,
    output: &PackageOutput,
) -> (res: PackagePage)
    ensures
        res.manager@ == "APT"@,
        shows(
            res.packages,
            behind(package_rows(query@, upgrades_only, *output), offset),
            page_size(limit),
        ),
        res.pending_upgrades == upgrade_count(upgrades_of(output.upgradable@)),
{
    let upgrades = collect_below(
        output.upgradable.as_str(),
        read_upgrade,
        Ghost(|line: Seq<char>| upgrade_row(line)),
    );
    let rows: &[Upgrade] = upgrades.as_slice();
    let lines = lines_str(output.listing.as_str());
    let names = lines_str(output.installed_names.as_str());
    let installed: &[Vec<char>] = names.as_slice();
    let mut items = if trim_str(query).as_str().is_empty() {
        let pick = |line: &[char]| -> (r: Option<PackageInfo>)
            ensures
                opt_view(r) == wanted(installed_row(line@, views(rows@)), upgrades_only),
            { keep_wanted(read_installed(line, rows), upgrades_only) };
        collect(
            &lines,
            pick,
            Ghost(|line: Seq<char>| wanted(installed_row(line, views(rows@)), upgrades_only)),
        )
    } else {
        let pick = |line: &[char]| -> (r: Option<PackageInfo>)
            ensures
                opt_view(r) == wanted(
                    found_row(line@, views(installed@), views(rows@)),
                    upgrades_only,
                ),
            { keep_wanted(read_found(line, installed, rows), upgrades_only) };
        collect(
            &lines,
            pick,
            Ghost(
                |line: Seq<char>|
                    wanted(found_row(line, views(installed@), views(rows@)), upgrades_only),
            ),
        )
    };
    let ghost all = package_rows(query@, upgrades_only, *output);
    assert(views(items@) == all);
    let shown = if offset <= items.len() {
        items.split_off(offset)
    } else {
        Vec::new()
    };
    assert(views(shown@) =~= behind(all, offset));
    PackagePage {
        manager: copy("APT"),
        packages: page(shown, page_limit(limit)),
        pending_upgrades: count_upgrades(rows),
    }
}

/// Each action runs `apt-get` with its own verb, on the one package that was named, as one
/// word: installing never removes, and upgrading one package installs no other.
pub proof fn packages_are_acted_on_by_name(action: Seq<char>, name: Option<Seq<char>>)
    ensures
        package_action_text("update"@, name) == Ok::<Seq<char>, Seq<char>>(
            "DEBIAN_FRONTEND=noninteractive apt-get update"@,
        ),
        package_action_text("upgrade-all"@, name) == Ok::<Seq<char>, Seq<char>>(
            "DEBIAN_FRONTEND=noninteractive apt-get -y upgrade"@,
        ),
        package_action_text("install"@, name) matches Ok(command) ==> (name matches Some(package)
            && command == "DEBIAN_FRONTEND=noninteractive apt-get -y "@ + "install"@ + " "@
            + quoted(package)),
        package_action_text("remove"@, name) matches Ok(command) ==> (name matches Some(package)
            && command == "DEBIAN_FRONTEND=noninteractive apt-get -y "@ + "remove"@ + " "@ + quoted(
            package,
        )),
        package_action_text("upgrade"@, name) matches Ok(command) ==> (name matches Some(package)
            && command == "DEBIAN_FRONTEND=noninteractive apt-get -y "@ + "install --only-upgrade"@
            + " "@ + quoted(package)),
        action == "install"@ || action == "remove"@ || action == "upgrade"@ ==> (
        package_action_text(action, name) is Ok <==> (name matches Some(package)
            && is_package_name(package))),
        package_action_text(action, name) is Ok ==> action == "update"@ || action == "upgrade-all"@
            || action == "install"@ || action == "remove"@ || action == "upgrade"@,
{
    reveal_strlit("update");
    reveal_strlit("upgrade-all");
    reveal_strlit("install");
    reveal_strlit("remove");
    reveal_strlit("upgrade");
    assert("update"@.len() == 6);
    assert("upgrade-all"@.len() == 11);
    assert("install"@.len() == 7);
    assert("remove"@.len() == 6);
    assert("upgrade"@.len() == 7);
    assert("update"@[0] == 'u');
    assert("remove"@[0] == 'r');
    assert("install"@[0] == 'i');
    assert("upgrade"@[0] == 'u');
    if let Some(package) = name {
        lemma_package_name(package);
    }
}

/// Whether a text can be the name of a package: ASCII letters and digits, `+`, `-`, `.` and
/// `:`, and at least one of them.
pub open spec fn is_package_name(name: Seq<char>) -> bool {
    name.len() > 0 && forall|i: int|
        0 <= i < name.len() ==> is_alphanumeric(#[trigger] name[i]) || name[i] == '+' || name[i]
            == '-' || name[i] == '.' || name[i] == ':'
}

proof fn lemma_package_name(name: Seq<char>)
    ensures
        is_package_name(name) <==> package_name_verdict(name) is Ok,
{
    if package_name_verdict(name) is Ok {
        assert forall|i: int| 0 <= i < name.len() implies is_alphanumeric(#[trigger] name[i])
            || name[i] == '+' || name[i] == '-' || name[i] == '.' || name[i] == ':' by {
            assert(name_char()(name[i]));
        }
    }
}

/// Packages are looked up by what was typed, as one word; without it, those that are
/// installed are listed.
pub proof fn packages_are_looked_up_by_name(query: Seq<char>, name: Seq<char>)
    ensures
        trim(query).len() > 0 ==> listing_of(query) == "apt-cache search --names-only "@ + quoted(
            trim(query),
        ) + " 2>/dev/null || true"@,
        trim(query).len() == 0 ==> listing_of(query)
            == "dpkg-query -W -f='${binary:Package}\\t${Version}\\t${Architecture}\\t${binary:Summary}\\n' 2>/dev/null || true"@,
        details_text(name) is Ok <==> is_package_name(name),
        details_text(name) matches Ok(command) ==> command == "apt-cache show "@ + quoted(name)
            + " 2>/dev/null | sed -n '1,100p'"@,
        manager_verdict(Some("apt-get"@)) is Ok,
        forall|manager: Option<Seq<char>>| #[trigger]
            manager_verdict(manager) is Ok ==> manager == Some("apt-get"@),
{
    lemma_package_name(name);
}

/// An installed package is read back from its line.
pub proof fn installed_packages_read_back(
    name: Seq<char>,
    version: Seq<char>,
    architecture: Seq<char>,
    description: Seq<char>,
    rows: Seq<UpgradeView>,
)
    requires
        !name.contains('\t'),
        !version.contains('\t'),
        !architecture.contains('\t'),
    ensures
        installed_row(
            join(seq![name, version, architecture, description], seq!['\t']),
            rows,
        ) matches Some(package) && {
            &&& package.name == name
            &&& package.version == version
            &&& package.architecture == architecture
            &&& package.description == description
            &&& package.installed
            &&& package.upgrade_version == upgrade_for(rows, name)
        },
{
    limited_parts_read_back(seq![name, version, architecture, description], '\t');
}

/// A package that a search found counts as installed where it is among those that are, and
/// as not installed otherwise.
pub proof fn found_packages_read_back(
    name: Seq<char>,
    description: Seq<char>,
    installed: Seq<Seq<char>>,
    rows: Seq<UpgradeView>,
)
    requires
        forall|k: int| 0 <= k < name.len() ==> !matches_at(name + " - "@ + description, " - "@, k),
    ensures
        found_row(name + " - "@ + description, installed, rows) matches Some(package) && {
            &&& package.name == name
            &&& package.description == description
            &&& package.installed <==> installed.contains(name)
            &&& package.upgrade_version == upgrade_for(rows, name)
        },
{
    let line = name + " - "@ + description;
    reveal_strlit(" - ");
    assert(line.subrange(name.len() as int, name.len() as int + 3) =~= " - "@);
    assert(matches_at(line, " - "@, name.len() as int));
    lemma_find_from(line, " - "@, 0);
    assert(line.take(name.len() as int) =~= name);
    assert(line.skip(name.len() as int + 3) =~= description);
}

/// A pending upgrade is read back, and told of the package of that name and of no other.
pub proof fn upgrades_are_told_by_name(
    rows: Seq<UpgradeView>,
    name: Seq<char>,
    source: Seq<char>,
    version: Seq<char>,
    rest: Seq<Seq<char>>,
    other: Seq<char>,
)
    requires
        name.len() > 0,
        !name.contains('/'),
        is_word(source),
        is_word(version),
        forall|i: int| 0 <= i < rest.len() ==> is_word(#[trigger] rest[i]),
    ensures
        upgrade_row(name + seq!['/'] + join(seq![source, version] + rest, " "@)) == Some(
            UpgradeView { name, version },
        ),
        upgrade_for(rows.push(UpgradeView { name, version }), name) == Some(version),
        other != name && !is_qualified(name, other) ==> upgrade_for(
            rows.push(UpgradeView { name, version }),
            other,
        ) == upgrade_for(rows, other),
        upgrade_for(Seq::empty(), other) is None,
{
    let fields = seq![source, version] + rest;
    assert forall|i: int| 0 <= i < fields.len() implies is_word(#[trigger] fields[i]) by {
        if i >= 2 {
            assert(fields[i] == rest[i - 2]);
        }
    }
    joined_words_read_back(fields);
    splits_read_back(name, '/', join(fields, " "@));
    let more = rows.push(UpgradeView { name, version });
    assert(more.drop_last() =~= rows);
    assert(more.last().name == name);
}

/// Where only upgrades are asked for, every package that is shown has one.
pub proof fn only_upgrades_are_shown(row: Option<PackageInfoView>)
    ensures
        wanted(row, true) matches Some(package) ==> package.upgrade_version is Some && row == Some(
            package,
        ),
        row matches Some(package) ==> package.upgrade_version is Some ==> wanted(row, true) == row,
        wanted(row, false) == row,
{
}

/// What a server is asked of its packages, word for word, besides what was searched for.
pub proof fn package_lists_are_asked_for()
    ensures
        UPGRADABLE_COMMAND@ == "LC_ALL=C apt list --upgradable 2>/dev/null || true"@,
        INSTALLED_NAMES_COMMAND@ == "dpkg-query -W -f='${binary:Package}\\n' 2>/dev/null || true"@,
{
}

/// Every package with an upgrade is counted once, and pages begin behind what was shown.
pub proof fn upgrades_are_counted_once(rows: Seq<UpgradeView>, row: UpgradeView, offset: usize)
    ensures
        upgrade_count(rows.push(row)) == if exists|i: int|
            0 <= i < rows.len() && (#[trigger] rows[i]).name == row.name {
            upgrade_count(rows)
        } else {
            upgrade_count(rows) + 1
        },
        upgrade_count(Seq::empty()) == 0,
        offset <= rows.len() ==> behind(rows, offset) == rows.skip(offset as int),
        offset > rows.len() ==> behind(rows, offset).len() == 0,
{
    assert(rows.push(row).drop_last() =~= rows);
}

/// A package is named by letters, digits and four marks, and by at least one of them.
pub proof fn packages_have_plain_names(name: Seq<char>)
    ensures
        package_name_verdict(name) is Ok <==> name.len() > 0 && forall|i: int|
            0 <= i < name.len() ==> (is_alphanumeric(#[trigger] name[i])
                || name[i] == '+' || name[i] == '-' || name[i] == '.' || name[i] == ':'),
        package_name_verdict(name) matches Err(said) ==> said == "Invalid package name"@,
{
    let is_plain = name_char();
    assert forall|i: int| 0 <= i < name.len() implies is_plain(#[trigger] name[i]) == (
    is_alphanumeric(name[i]) || name[i] == '+' || name[i] == '-' || name[i] == '.' || name[i] == ':') by {
    }
}

} // verus!
