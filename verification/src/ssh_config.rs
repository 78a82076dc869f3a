//! Private keys and the aliases of an SSH client configuration.
use crate::credentials::copy_optional;
use crate::models::{SshConfigEntry, SshConfigEntryView, SshKey, SshKeyView};
use crate::numbers::{parse_unsigned, unsigned_of};
use crate::sorting::{
    lemma_sorted_views, precedes, sort_by, sorted_by, sorting_sorts, text_before, text_order,
};
use crate::ssh::{expanded, expand_path};
use crate::text::{
    begins_with, chars_of, copy, ends_with, ends_with_str, has_char, is_text, join, join_from,
    lemma_views_push, lines_of, lines_str, lower, lowered, opt_view, parts, parts_of, starts_with,
    string_of, strings_of, trim, trimmed, views, words, words_of,
};
use vstd::prelude::*;

verus! {

broadcast use vstd::string::group_string_axioms;

// ---------------------------------------------------------------------------
// Keys
// ---------------------------------------------------------------------------

/// Whether a file in the SSH directory is taken for a private key by its name.
pub open spec fn is_key_name(name: Seq<char>) -> bool {
    &&& !ends_with(name, ".pub"@)
    &&& name != "config"@ && name != "known_hosts"@ && name != "authorized_keys"@
    &&& starts_with(name, "id_"@) || ends_with(name, ".pem"@) || ends_with(name, ".key"@)
}

/// The kind of a key, by its name.
pub open spec fn key_kind_of(name: Seq<char>) -> Seq<char> {
    if starts_with(name, "id_ed25519"@) {
        "Ed25519"@
    } else if starts_with(name, "id_rsa"@) {
        "RSA"@
    } else if starts_with(name, "id_ecdsa"@) {
        "ECDSA"@
    } else {
        "Private key"@
    }
}

/// The private key that a file is, where it is one.
pub open spec fn key_of(path: Seq<char>, name: Seq<char>, size: u64) -> Option<SshKeyView> {
    if is_key_name(name) {
        Some(SshKeyView { path, name, kind: key_kind_of(name), size_bytes: size })
    } else {
        None
    }
}

/// The private key that a file is, where it is one.
pub fn classify_key(path: &str, name: &str, size_bytes: u64) -> (res: Option<SshKey>)
    ensures
        opt_view(res) == key_of(path@, name@, size_bytes),
{
    let n = chars_of(name);
    if ends_with_str(&n, ".pub") || is_text(&n, "config") || is_text(&n, "known_hosts") || is_text(
        &n,
        "authorized_keys",
    ) {
        return None;
    }
    if !(begins_with(&n, "id_") || ends_with_str(&n, ".pem") || ends_with_str(&n, ".key")) {
        return None;
    }
    let kind = if begins_with(&n, "id_ed25519") {
        copy("Ed25519")
    } else if begins_with(&n, "id_rsa") {
        copy("RSA")
    } else if begins_with(&n, "id_ecdsa") {
        copy("ECDSA")
    } else {
        copy("Private key")
    };
    Some(SshKey { path: copy(path), name: copy(name), kind, size_bytes })
}

pub open spec fn key_before() -> spec_fn(SshKeyView, SshKeyView) -> bool {
    |a: SshKeyView, b: SshKeyView| text_before(a.name, b.name)
}

/// Keys in the order of their names.
pub fn sort_keys(keys: Vec<SshKey>) -> (res: Vec<SshKey>)
    ensures
        views(res@) == sorted_by(views(keys@), key_before()),
{
    let ghost lt = |a: SshKey, b: SshKey| text_before(a.name@, b.name@);
    let less = |a: &SshKey, b: &SshKey| -> (r: bool)
        ensures
            r == text_before(a.name@, b.name@),
        {
            precedes(a.name.as_str(), b.name.as_str())
        };
    proof {
        lemma_sorted_views(keys@, lt, key_before());
    }
    sort_by(keys, less, Ghost(lt))
}

// ---------------------------------------------------------------------------
// The configuration
// ---------------------------------------------------------------------------

/// The settings read so far: the aliases of the present `Host` line and what follows it,
/// and the entries before.
pub struct ConfigState {
    pub aliases: Vec<String>,
    pub host: Option<String>,
    pub username: Option<String>,
    pub port: Option<u16>,
    pub key_path: Option<String>,
    pub entries: Vec<SshConfigEntry>,
}

#[verifier::ext_equal]
pub struct ConfigStateView {
    pub aliases: Seq<Seq<char>>,
    pub host: Option<Seq<char>>,
    pub username: Option<Seq<char>>,
    pub port: Option<u16>,
    pub key_path: Option<Seq<char>>,
    pub entries: Seq<SshConfigEntryView>,
}

impl View for ConfigState {
    type V = ConfigStateView;

    open spec fn view(&self) -> ConfigStateView {
        ConfigStateView {
            aliases: views(self.aliases@),
            host: opt_view(self.host),
            username: opt_view(self.username),
            port: self.port,
            key_path: opt_view(self.key_path),
            entries: views(self.entries@),
        }
    }
}

/// Whether an alias names one host: a pattern does not.
pub open spec fn is_alias(alias: Seq<char>) -> bool {
    !alias.contains('*') && !alias.contains('?') && !starts_with(alias, "!"@)
}

/// The entries of the aliases, with the settings that follow them.
pub open spec fn entries_of(
    state: ConfigStateView,
    aliases: Seq<Seq<char>>,
    home: Option<Seq<char>>,
) -> Seq<SshConfigEntryView>
    decreases aliases.len(),
{
    if aliases.len() == 0 {
        Seq::empty()
    } else {
        let before = entries_of(state, aliases.drop_last(), home);
        if is_alias(aliases.last()) {
            before.push(
                SshConfigEntryView {
                    alias: aliases.last(),
                    host: state.host,
                    username: state.username,
                    port: state.port,
                    key_path: match state.key_path {
                        Some(path) => Some(expanded(path, home)),
                        None => None,
                    },
                },
            )
        } else {
            before
        }
    }
}

/// The state after a `Host` block has ended.
pub open spec fn flushed(state: ConfigStateView, home: Option<Seq<char>>) -> ConfigStateView {
    ConfigStateView {
        aliases: Seq::empty(),
        host: None,
        username: None,
        port: None,
        key_path: None,
        entries: state.entries + entries_of(state, state.aliases, home),
    }
}

/// The state after one more line.
pub open spec fn config_step(
    state: ConfigStateView,
    line: Seq<char>,
    home: Option<Seq<char>>,
) -> ConfigStateView {
    let fields = words_of(trim(parts_of(line, '#')[0]));
    if fields.len() == 0 {
        state
    } else {
        let key = lower(fields[0]);
        let value = join(fields.skip(1), " "@);
        if key == "host"@ {
            ConfigStateView { aliases: words_of(value), ..flushed(state, home) }
        } else if key == "hostname"@ {
            ConfigStateView { host: Some(value), ..state }
        } else if key == "user"@ {
            ConfigStateView { username: Some(value), ..state }
        } else if key == "port"@ {
            ConfigStateView {
                port: match unsigned_of(value, 0xffff) {
                    Some(n) => Some(n as u16),
                    None => None,
                },
                ..state
            }
        } else if key == "identityfile"@ {
            ConfigStateView { key_path: Some(value), ..state }
        } else {
            state
        }
    }
}

pub open spec fn no_config() -> ConfigStateView {
    ConfigStateView {
        aliases: Seq::empty(),
        host: None,
        username: None,
        port: None,
        key_path: None,
        entries: Seq::empty(),
    }
}

pub open spec fn config_after(lines: Seq<Seq<char>>, home: Option<Seq<char>>) -> ConfigStateView
    decreases lines.len(),
{
    if lines.len() == 0 {
        no_config()
    } else {
        config_step(config_after(lines.drop_last(), home), lines.last(), home)
    }
}

pub open spec fn entry_before() -> spec_fn(SshConfigEntryView, SshConfigEntryView) -> bool {
    |a: SshConfigEntryView, b: SshConfigEntryView| text_before(a.alias, b.alias)
}

/// The entries of a configuration, in the order of their aliases.
pub open spec fn config_entries(content: Seq<char>, home: Option<Seq<char>>) -> Seq<
    SshConfigEntryView,
> {
    sorted_by(flushed(config_after(lines_of(content), home), home).entries, entry_before())
}

pub open spec fn home_view(home: Option<&str>) -> Option<Seq<char>> {
    match home {
        Some(path) => Some(path@),
        None => None,
    }
}

fn plain_alias(alias: &str) -> (res: bool)
    ensures
        res == is_alias(alias@),
{
    let s = chars_of(alias);
    !has_char(&s, '*') && !has_char(&s, '?') && !begins_with(&s, "!")
}

fn flush_config(state: ConfigState, home: Option<&str>) -> (res: ConfigState)
    ensures
        res@ == flushed(state@, home_view(home)),
{
    let ghost start = state@;
    let mut entries = state.entries;
    let aliases = state.aliases;
    let mut i: usize = 0;
    let ghost names = views(aliases@);
    assert(names.take(0) =~= Seq::empty());
    assert(start.entries + entries_of(start, names.take(0), home_view(home)) =~= start.entries);
    while i < aliases.len()
        invariant
            i <= aliases@.len(),
            names == views(aliases@),
            start.host == opt_view(state.host),
            start.username == opt_view(state.username),
            start.port == state.port,
            start.key_path == opt_view(state.key_path),
            views(entries@) == start.entries + entries_of(
                start,
                names.take(i as int),
                home_view(home),
            ),
        decreases aliases@.len() - i,
    {
        broadcast use lemma_views_push;

        let ghost before = views(entries@);
        let ghost next = names.take(i + 1);
        assert(next.drop_last() =~= names.take(i as int));
        assert(next.last() == aliases@[i as int]@);
        if plain_alias(aliases[i].as_str()) {
            let entry = SshConfigEntry {
                alias: aliases[i].clone(),
                host: copy_optional(&state.host),
                username: copy_optional(&state.username),
                port: state.port,
                key_path: match &state.key_path {
                    Some(path) => Some(expand_path(path.as_str(), home)),
                    None => None,
                },
            };
            entries.push(entry);
            assert(views(entries@) =~= start.entries + entries_of(start, next, home_view(home)));
        }
        i += 1;
    }
    assert(names.take(aliases@.len() as int) =~= names);
    let none: Vec<String> = Vec::new();
    assert(views(none@) =~= Seq::empty());
    ConfigState { aliases: none, host: None, username: None, port: None, key_path: None, entries }
}

fn step_config(state: ConfigState, line: &[char], home: Option<&str>) -> (res: ConfigState)
    ensures
        res@ == config_step(state@, line@, home_view(home)),
{
    let segments = parts(line, '#');
    assert(views(segments@)[0] == segments@[0]@);
    let fields = words(&trimmed(segments[0].as_slice()));
    if fields.len() == 0 {
        return state;
    }
    assert(views(fields@)[0] == fields@[0]@);
    let key = lowered(fields[0].as_slice());
    let value = join_from(&fields, 1);
    let mut state = state;
    if is_text(&key, "host") {
        state = flush_config(state, home);
        state.aliases = strings_of(&words(&value));
    } else if is_text(&key, "hostname") {
        state.host = Some(string_of(&value));
    } else if is_text(&key, "user") {
        state.username = Some(string_of(&value));
    } else if is_text(&key, "port") {
        state.port = match parse_unsigned(&value, 0xffff) {
            Some(n) => Some(n as u16),
            None => None,
        };
    } else if is_text(&key, "identityfile") {
        state.key_path = Some(string_of(&value));
    }
    state
}

/// The entries of a configuration. Patterns are left out, and a path that begins with the
/// home directory's sign is written out.
pub fn parse_ssh_config(content: &str, home: Option<&str>) -> (res: Vec<SshConfigEntry>)
    ensures
        views(res@) == config_entries(content@, home_view(home)),
{
    let lines = lines_str(content);
    let ghost all = views(lines@);
    let mut state = ConfigState {
        aliases: Vec::new(),
        host: None,
        username: None,
        port: None,
        key_path: None,
        entries: Vec::new(),
    };
    let mut i: usize = 0;
    assert(all.take(0) =~= Seq::empty());
    assert(state@ =~= no_config());
    while i < lines.len()
        invariant
            i <= lines@.len(),
            all == views(lines@),
            state@ == config_after(all.take(i as int), home_view(home)),
        decreases lines@.len() - i,
    {
        assert(all.take(i + 1).drop_last() =~= all.take(i as int));
        assert(all.take(i + 1).last() == lines@[i as int]@);
        state = step_config(state, lines[i].as_slice(), home);
        i += 1;
    }
    assert(all.take(lines@.len() as int) =~= all);
    let state = flush_config(state, home);
    let entries = state.entries;
    let ghost lt = |a: SshConfigEntry, b: SshConfigEntry| text_before(a.alias@, b.alias@);
    let less = |a: &SshConfigEntry, b: &SshConfigEntry| -> (r: bool)
        ensures
            r == text_before(a.alias@, b.alias@),
        {
            precedes(a.alias.as_str(), b.alias.as_str())
        };
    proof {
        lemma_sorted_views(entries@, lt, entry_before());
    }
    sort_by(entries, less, Ghost(lt))
}

/// No pattern becomes an entry.
pub proof fn patterns_are_no_entries(
    state: ConfigStateView,
    aliases: Seq<Seq<char>>,
    home: Option<Seq<char>>,
)
    ensures
        forall|i: int|
            0 <= i < entries_of(state, aliases, home).len() ==> is_alias(
                (#[trigger] entries_of(state, aliases, home)[i]).alias,
            ),
    decreases aliases.len(),
{
    if aliases.len() > 0 {
        patterns_are_no_entries(state, aliases.drop_last(), home);
    }
}

/// What a line sets, in lower case, and to what: the words before the first `#`.
pub open spec fn setting_of(line: Seq<char>) -> Option<(Seq<char>, Seq<char>)> {
    let fields = words_of(trim(parts_of(line, '#')[0]));
    if fields.len() == 0 {
        None
    } else {
        Some((lower(fields[0]), join(fields.skip(1), " "@)))
    }
}

/// Whether a line begins a `Host` block.
pub open spec fn begins_block(line: Seq<char>) -> bool {
    setting_of(line) matches Some((key, _)) && key == "host"@
}

/// The names on a `Host` line.
pub open spec fn names_on(line: Seq<char>) -> Seq<Seq<char>> {
    match setting_of(line) {
        Some((_, value)) => words_of(value),
        None => Seq::empty(),
    }
}

/// What the last of the lines that set `key` sets it to.
pub open spec fn last_set(lines: Seq<Seq<char>>, key: Seq<char>) -> Option<Seq<char>>
    decreases lines.len(),
{
    if lines.len() == 0 {
        None
    } else {
        match setting_of(lines.last()) {
            Some((name, value)) => if name == key {
                Some(value)
            } else {
                last_set(lines.drop_last(), key)
            },
            None => last_set(lines.drop_last(), key),
        }
    }
}

/// The entries that lines come to, in the order of the lines.
pub open spec fn entries_in(lines: Seq<Seq<char>>, home: Option<Seq<char>>) -> Seq<
    SshConfigEntryView,
> {
    flushed(config_after(lines, home), home).entries
}

proof fn lemma_read_apart(
    before: Seq<Seq<char>>,
    rest: Seq<Seq<char>>,
    home: Option<Seq<char>>,
)
    requires
        rest.len() > 0,
        begins_block(rest[0]),
    ensures
        config_after(before + rest, home) == (ConfigStateView {
            entries: entries_in(before, home) + config_after(rest, home).entries,
            ..config_after(rest, home)
        }),
    decreases rest.len(),
{
    let all = before + rest;
    assert(all.drop_last() =~= before + rest.drop_last());
    assert(all.last() == rest.last());
    if rest.len() == 1 {
        assert(before + rest.drop_last() =~= before);
        assert(rest.drop_last() =~= Seq::empty());
        let alone = config_after(rest, home);
        assert(alone == config_step(no_config(), rest[0], home));
        assert(entries_of(no_config(), Seq::empty(), home) =~= Seq::empty());
        assert(alone.entries =~= Seq::empty());
        assert(entries_in(before, home) + alone.entries =~= entries_in(before, home));
    } else {
        lemma_read_apart(before, rest.drop_last(), home);
        assert(rest.drop_last()[0] == rest[0]);
        let a = config_after(before + rest.drop_last(), home);
        let b = config_after(rest.drop_last(), home);
        lemma_same_entries(a, b, a.aliases, home);
        assert(a.entries + entries_of(a, a.aliases, home) =~= entries_in(before, home) + (b.entries
            + entries_of(b, b.aliases, home)));
    }
}

proof fn lemma_same_entries(
    a: ConfigStateView,
    b: ConfigStateView,
    aliases: Seq<Seq<char>>,
    home: Option<Seq<char>>,
)
    requires
        a.host == b.host,
        a.username == b.username,
        a.port == b.port,
        a.key_path == b.key_path,
    ensures
        entries_of(a, aliases, home) == entries_of(b, aliases, home),
    decreases aliases.len(),
{
    if aliases.len() > 0 {
        lemma_same_entries(a, b, aliases.drop_last(), home);
    }
}

/// The entries of a `Host` block depend on the lines of the block alone: whatever stands
/// before the line that begins it, what follows gives the entries that it gives by itself,
/// and the entries before stay.
pub proof fn blocks_are_read_apart(
    before: Seq<Seq<char>>,
    rest: Seq<Seq<char>>,
    home: Option<Seq<char>>,
)
    requires
        rest.len() > 0,
        begins_block(rest[0]),
    ensures
        entries_in(before + rest, home) == entries_in(before, home) + entries_in(rest, home),
{
    lemma_read_apart(before, rest, home);
    let a = config_after(before + rest, home);
    let b = config_after(rest, home);
    lemma_same_entries(a, b, a.aliases, home);
    assert(a.entries + entries_of(a, a.aliases, home) =~= entries_in(before, home) + (b.entries
        + entries_of(b, b.aliases, home)));
}

proof fn lemma_block(line: Seq<char>, settings: Seq<Seq<char>>, home: Option<Seq<char>>)
    requires
        begins_block(line),
        forall|i: int| 0 <= i < settings.len() ==> !begins_block(#[trigger] settings[i]),
    ensures
        config_after(seq![line] + settings, home) == (ConfigStateView {
            aliases: names_on(line),
            host: last_set(settings, "hostname"@),
            username: last_set(settings, "user"@),
            port: port_set(last_set(settings, "port"@)),
            key_path: last_set(settings, "identityfile"@),
            entries: Seq::empty(),
        }),
    decreases settings.len(),
{
    reveal_strlit("host");
    reveal_strlit("hostname");
    reveal_strlit("user");
    reveal_strlit("port");
    reveal_strlit("identityfile");
    assert("host"@.len() == 4);
    assert("hostname"@.len() == 8);
    assert("user"@.len() == 4);
    assert("port"@.len() == 4);
    assert("identityfile"@.len() == 12);
    assert("host"@[0] == 'h');
    assert("user"@[0] == 'u');
    assert("port"@[0] == 'p');
    let all = seq![line] + settings;
    if settings.len() == 0 {
        assert(all =~= seq![line]);
        assert(all.drop_last() =~= Seq::empty());
        assert(entries_of(no_config(), Seq::empty(), home) =~= Seq::empty());
        assert(flushed(no_config(), home).entries =~= Seq::empty());
        assert(all.last() == line);
        assert(config_after(all.drop_last(), home) == no_config());
    } else {
        assert(all.drop_last() =~= seq![line] + settings.drop_last());
        assert(all.last() == settings.last());
        lemma_block(line, settings.drop_last(), home);
        assert(!begins_block(settings[settings.len() - 1]));
    }
}

/// The port that a text sets: a number of at most 65535, or none.
pub open spec fn port_set(value: Option<Seq<char>>) -> Option<u16> {
    match value {
        Some(text) => match unsigned_of(text, 65535) {
            Some(n) => Some(n as u16),
            None => None,
        },
        None => None,
    }
}

/// A `Host` block gives one entry for each of its aliases that is no pattern, in order. The
/// settings of each are those of the last lines of the block that set them: a block that
/// does not set a host name, a user, a port or a key gives entries without one.
pub proof fn blocks_give_their_settings(
    line: Seq<char>,
    settings: Seq<Seq<char>>,
    home: Option<Seq<char>>,
)
    requires
        begins_block(line),
        forall|i: int| 0 <= i < settings.len() ==> !begins_block(#[trigger] settings[i]),
    ensures
        ({
            let entries = entries_in(seq![line] + settings, home);
            let names = names_on(line).filter(
                |name: Seq<char>|
                    !name.contains('*') && !name.contains('?') && !(name.len() > 0 && name[0]
                        == '!'),
            );
            &&& entries.len() == names.len()
            &&& forall|i: int|
                0 <= i < entries.len() ==> {
                    let entry = #[trigger] entries[i];
                    &&& entry.alias == names[i]
                    &&& entry.host == last_set(settings, "hostname"@)
                    &&& entry.username == last_set(settings, "user"@)
                    &&& entry.port == port_set(last_set(settings, "port"@))
                    &&& match last_set(settings, "identityfile"@) {
                        Some(path) => entry.key_path == Some(expanded(path, home)),
                        None => entry.key_path is None,
                    }
                }
        }),
{
    lemma_block(line, settings, home);
    let state = config_after(seq![line] + settings, home);
    lemma_entries(state, state.aliases, home);
    assert(entries_in(seq![line] + settings, home) =~= entries_of(state, state.aliases, home));
}

proof fn lemma_entries(
    state: ConfigStateView,
    aliases: Seq<Seq<char>>,
    home: Option<Seq<char>>,
)
    ensures
        ({
            let entries = entries_of(state, aliases, home);
            let names = aliases.filter(
                |name: Seq<char>|
                    !name.contains('*') && !name.contains('?') && !(name.len() > 0 && name[0]
                        == '!'),
            );
            &&& entries.len() == names.len()
            &&& forall|i: int|
                0 <= i < entries.len() ==> {
                    let entry = #[trigger] entries[i];
                    &&& entry.alias == names[i]
                    &&& entry.host == state.host
                    &&& entry.username == state.username
                    &&& entry.port == state.port
                    &&& match state.key_path {
                        Some(path) => entry.key_path == Some(expanded(path, home)),
                        None => entry.key_path is None,
                    }
                }
        }),
    decreases aliases.len(),
{
    let test = |name: Seq<char>|
        !name.contains('*') && !name.contains('?') && !(name.len() > 0 && name[0] == '!');
    reveal(Seq::filter);
    if aliases.len() > 0 {
        lemma_entries(state, aliases.drop_last(), home);
        let last = aliases.last();
        reveal_strlit("!");
        if last.len() > 0 {
            assert(last.take(1)[0] == last[0]);
            if last[0] == '!' {
                assert(last.take(1) =~= "!"@);
            }
        }
        assert(is_alias(last) == test(last));
    }
}

/// What is imported are the entries of the lines, none left out or doubled, in the order of
/// their aliases.
pub proof fn imported_entries_are_those_of_the_lines(content: Seq<char>, home: Option<Seq<char>>)
    ensures
        config_entries(content, home).to_multiset() == entries_in(
            lines_of(content),
            home,
        ).to_multiset(),
        forall|i: int, j: int|
            0 <= i < j < config_entries(content, home).len() ==> !text_before(
                (#[trigger] config_entries(content, home)[j]).alias,
                (#[trigger] config_entries(content, home)[i]).alias,
            ),
{
    let lt = entry_before();
    assert forall|a: SshConfigEntryView, b: SshConfigEntryView| #[trigger]
        lt(a, b) implies !lt(b, a) by {
        text_order(a.alias, b.alias, a.alias);
    }
    assert forall|a: SshConfigEntryView, b: SshConfigEntryView, c: SshConfigEntryView|
        !(#[trigger] lt(b, a)) && !(#[trigger] lt(c, b)) implies !lt(c, a) by {
        text_order(a.alias, b.alias, c.alias);
    }
    let items = entries_in(lines_of(content), home);
    sorting_sorts(items, lt);
    let sorted = config_entries(content, home);
    assert forall|i: int, j: int| 0 <= i < j < sorted.len() implies !text_before(
        (#[trigger] sorted[j]).alias,
        (#[trigger] sorted[i]).alias,
    ) by {
        assert(!lt(sorted[j], sorted[i]));
    }
}

/// A file is taken for a private key by its name alone: public keys and the other files of
/// the directory are not.
pub proof fn only_private_keys_are_listed(path: Seq<char>, name: Seq<char>, size: u64)
    ensures
        key_of(path, name, size) matches Some(key) ==> {
            &&& key.path == path
            &&& key.name == name
            &&& key.size_bytes == size
            &&& !ends_with(name, ".pub"@)
            &&& name != "config"@ && name != "known_hosts"@ && name != "authorized_keys"@
        },
        starts_with(name, "id_"@) && !ends_with(name, ".pub"@) ==> key_of(path, name, size) is Some,
        ends_with(name, ".pem"@) || ends_with(name, ".key"@) ==> key_of(path, name, size) is Some,
        !starts_with(name, "id_"@) && !ends_with(name, ".pem"@) && !ends_with(name, ".key"@)
            ==> key_of(path, name, size) is None,
        starts_with(name, "id_ed25519"@) ==> (key_of(path, name, size) matches Some(key) ==> key.kind
            == "Ed25519"@),
        starts_with(name, "id_rsa"@) ==> (key_of(path, name, size) matches Some(key) ==> key.kind
            == "RSA"@),
        starts_with(name, "id_ecdsa"@) ==> (key_of(path, name, size) matches Some(key) ==> key.kind
            == "ECDSA"@),
{
    reveal_strlit("id_");
    reveal_strlit(".pub");
    reveal_strlit(".pem");
    reveal_strlit(".key");
    reveal_strlit("config");
    reveal_strlit("known_hosts");
    reveal_strlit("authorized_keys");
    reveal_strlit("id_ed25519");
    reveal_strlit("id_rsa");
    reveal_strlit("id_ecdsa");
    if starts_with(name, "id_"@) {
        assert(name.take(3)[0] == name[0] && name.take(3)[1] == name[1] && name.take(3)[2] == name[2]);
    }
    if ends_with(name, ".pub"@) || ends_with(name, ".pem"@) || ends_with(name, ".key"@) {
        let tail = name.skip(name.len() - 4);
        assert(tail[0] == name[name.len() - 4] && tail[1] == name[name.len() - 3] && tail[2]
            == name[name.len() - 2] && tail[3] == name[name.len() - 1]);
        assert("config"@[2] == 'n' && "known_hosts"@[7] == 'o' && "authorized_keys"@[11] == 'k');
        assert(".pem"@[1] == 'p' && ".key"@[1] == 'k' && ".pub"@[1] == 'p' && ".pub"@[2] == 'u');
        assert(".pem"@[0] == '.' && ".key"@[0] == '.');
    }
    if starts_with(name, "id_ed25519"@) {
        assert(name.take(10)[3] == name[3] && name.take(10)[4] == name[4]);
    }
    if starts_with(name, "id_rsa"@) {
        assert(name.take(6)[3] == name[3]);
    }
    if starts_with(name, "id_ecdsa"@) {
        assert(name.take(8)[3] == name[3] && name.take(8)[4] == name[4]);
    }
}

} // verus!
