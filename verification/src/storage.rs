//! What is saved, and what has to hold of it: servers, quick actions and tunnels.
use crate::credentials::copy_optional;
use crate::host_keys::{
    chain_behind, chain_of, find_profile, lemma_profile_at, profile_at, SERVER_GONE,
};
use crate::identifiers::{is_uuid, now_text, random_uuid};
use crate::json::{
    json_document, json_rendering, lemma_plain_deeper, list_of, list_tree, lists_read_back,
    parse_json, render_json, texts, get_texts,
};
use crate::models::{
    AuthMethod, SavedCommand, SavedCommandInput, SavedCommandInputView, SavedCommandView,
    ServerDraft, ServerDraftView, ServerProfile, ServerProfileView, TunnelConfig, TunnelConfigView,
    TunnelInput, TunnelInputView,
};
use crate::ssh::text_result;
use crate::text::{
    chars_of, copy, is_char, is_space, lemma_views_push, opt_view, same, string_of, trim,
    trim_start_where, trim_str, trimmed, trimmed_start_of, trimming_takes_off_spaces, views,
};
use crate::utf8::{byte_len, byte_length};
use vstd::prelude::*;

verus! {

broadcast use vstd::string::group_string_axioms;

pub const BASTION_CYCLE: &'static str = "Bastion profiles cannot contain a connection cycle";

pub const BASTION_GONE: &'static str = "The selected bastion profile no longer exists";

/// The lower-case form of a text, as `str::to_lowercase` gives it.
pub uninterp spec fn lower_case(text: Seq<char>) -> Seq<char>;

/// `str::to_lowercase`: the lower-case form by the rules of Unicode.
#[verifier::external_body]
fn to_lower_case(text: &str) -> (res: String)
    ensures
        res@ == lower_case(text@),
{
    text.to_lowercase()
}

// ---------------------------------------------------------------------------
// Fields
// ---------------------------------------------------------------------------

/// A field that must not be blank, trimmed.
pub open spec fn required_text(value: Seq<char>, label: Seq<char>) -> Result<Seq<char>, Seq<char>> {
    if trim(value).len() == 0 {
        Err("Enter a "@ + label)
    } else {
        Ok(trim(value))
    }
}

pub fn required(value: &str, label: &str) -> (res: Result<String, String>)
    ensures
        text_result(res) == required_text(value@, label@),
{
    let text = trim_str(value);
    if text.as_str().is_empty() {
        let mut message = copy("Enter a ");
        message.append(label);
        return Err(message);
    }
    Ok(text)
}

/// A given identifier that is not blank, or a fresh one.
pub open spec fn id_or(id: Option<Seq<char>>, fresh: Seq<char>) -> Seq<char> {
    match id {
        Some(text) => if trim(text).len() == 0 {
            fresh
        } else {
            text
        },
        None => fresh,
    }
}

fn given_id(id: &Option<String>, fresh: &str) -> (res: String)
    ensures
        res@ == id_or(opt_view(*id), fresh@),
{
    match id {
        Some(text) => if trim_str(text.as_str()).as_str().is_empty() {
            copy(fresh)
        } else {
            text.clone()
        },
        None => copy(fresh),
    }
}

/// A text that is not blank.
pub open spec fn not_blank(value: Option<Seq<char>>) -> Option<Seq<char>> {
    match value {
        Some(text) => if trim(text).len() == 0 {
            None
        } else {
            Some(text)
        },
        None => None,
    }
}

fn keep_not_blank(value: &Option<String>) -> (res: Option<String>)
    ensures
        opt_view(res) == not_blank(opt_view(*value)),
{
    match value {
        Some(text) => if trim_str(text.as_str()).as_str().is_empty() {
            None
        } else {
            Some(text.clone())
        },
        None => None,
    }
}

/// The trimmed text, where it is not blank.
pub open spec fn trimmed_or_none(value: Option<Seq<char>>) -> Option<Seq<char>> {
    match value {
        Some(text) => if trim(text).len() == 0 {
            None
        } else {
            Some(trim(text))
        },
        None => None,
    }
}

fn keep_trimmed(value: &Option<String>) -> (res: Option<String>)
    ensures
        opt_view(res) == trimmed_or_none(opt_view(*value)),
{
    match value {
        Some(text) => {
            let t = trim_str(text.as_str());
            if t.as_str().is_empty() {
                None
            } else {
                Some(t)
            }
        },
        None => None,
    }
}

/// A tag: trimmed, without leading `#`, in lower case; a blank one is none.
pub open spec fn tag_of(text: Seq<char>) -> Option<Seq<char>> {
    let tag = lower_case(trim_start_where(trim(text), is_char('#')));
    if tag.len() == 0 {
        None
    } else {
        Some(tag)
    }
}

pub open spec fn tag_fn() -> spec_fn(Seq<char>) -> Option<Seq<char>> {
    |text: Seq<char>| tag_of(text)
}

/// The tags of a draft.
pub fn clean_tags(tags: &[String]) -> (res: Vec<String>)
    ensures
        views(res@) == views(tags@).filter_map(tag_fn()),
{
    let mut out: Vec<String> = Vec::new();
    let mut i: usize = 0;
    let ghost all = views(tags@);
    assert(all.take(0) =~= Seq::empty());
    while i < tags.len()
        invariant
            i <= tags@.len(),
            all == views(tags@),
            views(out@) == all.take(i as int).filter_map(tag_fn()),
        decreases tags@.len() - i,
    {
        broadcast use lemma_views_push;

        let ghost before = views(out@);
        assert(all.take(i + 1).drop_last() =~= all.take(i as int));
        assert(all.take(i + 1).last() == tags@[i as int]@);
        let t = trimmed(&chars_of(tags[i].as_str()));
        let bare = trimmed_start_of(&t, '#');
        let tag = to_lower_case(string_of(&bare).as_str());
        if !tag.as_str().is_empty() {
            out.push(tag);
            assert(before + seq![tag@] =~= before.push(tag@));
        }
        i += 1;
    }
    assert(all.take(tags@.len() as int) =~= all);
    out
}

/// Tags as they are stored.
pub fn tags_to_json(tags: &[String]) -> (res: String)
    ensures
        res@ == json_rendering(list_tree(views(tags@))),
        stored_tags(res@) == views(tags@),
{
    let list = list_of(tags);
    proof {
        lists_read_back(views(tags@));
        lemma_plain_deeper(list_tree(views(tags@)), 1, 16);
    }
    render_json(list)
}

/// Tags as they are read: what is no list of texts counts as none.
pub open spec fn stored_tags(text: Seq<char>) -> Seq<Seq<char>> {
    match json_document(text) {
        Some(tree) => match texts(tree) {
            Some(items) => items,
            None => Seq::empty(),
        },
        None => Seq::empty(),
    }
}

pub fn tags_from_json(text: &str) -> (res: Vec<String>)
    ensures
        views(res@) == stored_tags(text@),
{
    match parse_json(text) {
        Some(json) => match get_texts(&json) {
            Some(items) => items,
            None => {
                let none: Vec<String> = Vec::new();
                assert(views(none@) =~= Seq::empty());
                none
            },
        },
        None => {
            let none: Vec<String> = Vec::new();
            assert(views(none@) =~= Seq::empty());
            none
        },
    }
}

/// How a method of authentication is stored.
pub open spec fn stored_method(method: AuthMethod) -> Seq<char> {
    match method {
        AuthMethod::Password => "password"@,
        AuthMethod::PrivateKey => "privateKey"@,
    }
}

pub fn method_to_text(method: AuthMethod) -> (res: String)
    ensures
        res@ == stored_method(method),
{
    match method {
        AuthMethod::Password => copy("password"),
        AuthMethod::PrivateKey => copy("privateKey"),
    }
}

pub open spec fn read_method(text: Seq<char>) -> AuthMethod {
    if text == "privateKey"@ {
        AuthMethod::PrivateKey
    } else {
        AuthMethod::Password
    }
}

pub fn method_from_text(text: &str) -> (res: AuthMethod)
    ensures
        res == read_method(text@),
{
    if same(text, "privateKey") {
        AuthMethod::PrivateKey
    } else {
        AuthMethod::Password
    }
}

/// A server as it is stored.
#[derive(Debug, PartialEq, Eq)]
pub struct StoredServer {
    pub id: String,
    pub name: String,
    pub host: String,
    pub username: String,
    pub port: u16,
    pub auth_method: String,
    pub key_path: Option<String>,
    pub group_name: Option<String>,
    pub tags_json: String,
    pub favorite: i64,
    pub created_at: String,
    pub updated_at: String,
    pub last_connected_at: Option<String>,
    pub jump_host_id: Option<String>,
    pub notes: String,
}

/// The server that a row holds. A flag counts as set unless it is zero.
pub open spec fn row_profile(row: StoredServer) -> ServerProfileView {
    ServerProfileView {
        id: row.id@,
        name: row.name@,
        host: row.host@,
        username: row.username@,
        port: row.port,
        auth_method: read_method(row.auth_method@),
        key_path: opt_view(row.key_path),
        jump_host_id: opt_view(row.jump_host_id),
        group_name: opt_view(row.group_name),
        tags: stored_tags(row.tags_json@),
        notes: row.notes@,
        favorite: row.favorite != 0,
        created_at: row.created_at@,
        updated_at: row.updated_at@,
        last_connected_at: opt_view(row.last_connected_at),
    }
}

/// The server that a row holds.
pub fn row_to_server(row: StoredServer) -> (res: ServerProfile)
    ensures
        res@ == row_profile(row),
{
    ServerProfile {
        auth_method: method_from_text(row.auth_method.as_str()),
        tags: tags_from_json(row.tags_json.as_str()),
        favorite: row.favorite != 0,
        id: row.id,
        name: row.name,
        host: row.host,
        username: row.username,
        port: row.port,
        key_path: row.key_path,
        jump_host_id: row.jump_host_id,
        group_name: row.group_name,
        notes: row.notes,
        created_at: row.created_at,
        updated_at: row.updated_at,
        last_connected_at: row.last_connected_at,
    }
}

/// The row of a server. What is read back from it is the server.
pub fn server_to_row(profile: &ServerProfile) -> (res: StoredServer)
    ensures
        row_profile(res) == profile@,
        res.auth_method@ == stored_method(profile.auth_method),
        res.tags_json@ == json_rendering(list_tree(views(profile.tags@))),
        res.favorite == 0 || res.favorite == 1,
{
    proof {
        methods_read_back(profile.auth_method);
    }
    StoredServer {
        id: profile.id.clone(),
        name: profile.name.clone(),
        host: profile.host.clone(),
        username: profile.username.clone(),
        port: profile.port,
        auth_method: method_to_text(profile.auth_method),
        key_path: copy_optional(&profile.key_path),
        group_name: copy_optional(&profile.group_name),
        tags_json: tags_to_json(profile.tags.as_slice()),
        favorite: if profile.favorite {
            1
        } else {
            0
        },
        created_at: profile.created_at.clone(),
        updated_at: profile.updated_at.clone(),
        last_connected_at: copy_optional(&profile.last_connected_at),
        jump_host_id: copy_optional(&profile.jump_host_id),
        notes: profile.notes.clone(),
    }
}

/// A stored method is read back.
pub proof fn methods_read_back(method: AuthMethod)
    ensures
        read_method(stored_method(method)) == method,
{
    reveal_strlit("password");
    reveal_strlit("privateKey");
    assert("password"@.len() != "privateKey"@.len());
}

// ---------------------------------------------------------------------------
// Bastions
// ---------------------------------------------------------------------------

/// Whether the way from the bastion `id` comes to an end without meeting one of the
/// servers in `visited`, or itself.
pub open spec fn bastion_walk(
    profiles: Seq<ServerProfileView>,
    id: Seq<char>,
    visited: Seq<Seq<char>>,
) -> Result<(), Seq<char>>
    decreases profiles.len() + 2 - visited.len(),
{
    if visited.contains(id) || visited.len() > profiles.len() + 1 {
        Err(BASTION_CYCLE@)
    } else {
        let at = profile_at(profiles, id);
        if at >= profiles.len() {
            Err(BASTION_GONE@)
        } else {
            match profiles[at].jump_host_id {
                None => Ok(()),
                Some(next) => bastion_walk(profiles, next, visited.push(id)),
            }
        }
    }
}

/// Whether a server may use this bastion.
pub open spec fn bastion_verdict(
    profiles: Seq<ServerProfileView>,
    server_id: Seq<char>,
    jump_host_id: Option<Seq<char>>,
) -> Result<(), Seq<char>> {
    match jump_host_id {
        None => Ok(()),
        Some(id) => bastion_walk(profiles, id, seq![server_id]),
    }
}

fn holds_text(items: &[String], text: &str) -> (res: bool)
    ensures
        res == views(items@).contains(text@),
{
    let mut i: usize = 0;
    while i < items.len()
        invariant
            i <= items@.len(),
            forall|j: int| 0 <= j < i ==> items@[j]@ != text@,
        decreases items@.len() - i,
    {
        if same(items[i].as_str(), text) {
            assert(views(items@)[i as int] == text@);
            return true;
        }
        i += 1;
    }
    false
}

pub fn validate_jump_host(
    profiles: &[ServerProfile],
    server_id: &str,
    jump_host_id: &Option<String>,
) -> (res: Result<(), String>)
    ensures
        crate::ssh::error_result(res) == bastion_verdict(
            views(profiles@),
            server_id@,
            opt_view(*jump_host_id),
        ),
{
    let mut current = match jump_host_id {
        Some(id) => id.clone(),
        None => {
            return Ok(());
        },
    };
    let mut visited: Vec<String> = Vec::new();
    visited.push(copy(server_id));
    assert(views(visited@) =~= seq![server_id@]);
    let count: usize = profiles.len();
    loop
        invariant
            count == profiles@.len(),
            0 < visited@.len() <= profiles@.len() + 2,
            bastion_verdict(views(profiles@), server_id@, opt_view(*jump_host_id)) == bastion_walk(
                views(profiles@),
                current@,
                views(visited@),
            ),
        decreases profiles@.len() + 2 - visited@.len(),
    {
        broadcast use lemma_views_push;

        if holds_text(&visited, current.as_str()) || visited.len() - 1 > count {
            return Err(copy(BASTION_CYCLE));
        }
        let at = find_profile(profiles, current.as_str());
        if at >= profiles.len() {
            return Err(copy(BASTION_GONE));
        }
        assert(views(profiles@)[at as int] == profiles@[at as int]@);
        match &profiles[at].jump_host_id {
            None => {
                return Ok(());
            },
            Some(next) => {
                visited.push(current);
                current = next.clone();
            },
        }
    }
}

/// The profiles after `profile` was saved.
pub open spec fn with_profile(profiles: Seq<ServerProfileView>, profile: ServerProfileView) -> Seq<
    ServerProfileView,
> {
    let at = profile_at(profiles, profile.id);
    if at < profiles.len() {
        profiles.update(at, profile)
    } else {
        profiles.push(profile)
    }
}

proof fn lemma_found(profiles: Seq<ServerProfileView>, id: Seq<char>)
    ensures
        0 <= profile_at(profiles, id) <= profiles.len(),
        forall|j: int| 0 <= j < profile_at(profiles, id) ==> (#[trigger] profiles[j]).id != id,
        profile_at(profiles, id) < profiles.len() ==> profiles[profile_at(profiles, id)].id == id,
    decreases profiles.len(),
{
    if profiles.len() > 0 && profiles[0].id != id {
        let rest = profiles.skip(1);
        lemma_found(rest, id);
        let k = profile_at(rest, id);
        assert forall|j: int| 0 <= j < k + 1 implies (#[trigger] profiles[j]).id != id by {
            if j > 0 {
                assert(profiles[j] == rest[j - 1]);
            }
        }
        if k < rest.len() {
            assert(rest[k] == profiles[k + 1]);
        }
    }
}

/// Saving one profile does not move another.
proof fn lemma_other_profile(
    profiles: Seq<ServerProfileView>,
    profile: ServerProfileView,
    id: Seq<char>,
)
    requires
        id != profile.id,
        profile_at(profiles, id) < profiles.len(),
    ensures
        profile_at(with_profile(profiles, profile), id) == profile_at(profiles, id),
        with_profile(profiles, profile)[profile_at(profiles, id)] == profiles[profile_at(
            profiles,
            id,
        )],
{
    let all = with_profile(profiles, profile);
    let at = profile_at(profiles, profile.id);
    let k = profile_at(profiles, id);
    lemma_found(profiles, id);
    lemma_found(profiles, profile.id);
    assert forall|j: int| 0 <= j < k implies (#[trigger] all[j]).id != id by {
        if j != at {
            assert(all[j] == profiles[j]);
        }
    }
    assert(all[k] == profiles[k]);
    lemma_profile_at(all, id, k);
}

/// Positions that differ and lie below `n` are at most `n`.
proof fn lemma_few_positions(visited: Seq<int>, n: int)
    requires
        visited.no_duplicates(),
        forall|i: int| 0 <= i < visited.len() ==> 0 <= #[trigger] visited[i] < n,
        0 <= n,
    ensures
        visited.len() <= n,
{
    visited.unique_seq_to_set();
    let range = vstd::set_lib::set_int_range(0, n);
    vstd::set_lib::lemma_int_range(0, n);
    assert(visited.to_set().subset_of(range)) by {
        assert forall|x: int| visited.to_set().contains(x) implies range.contains(x) by {
            let i = choose|i: int| 0 <= i < visited.len() && visited[i] == x;
            assert(0 <= visited[i] < n);
        }
    }
    vstd::set_lib::lemma_len_subset(visited.to_set(), range);
}

proof fn lemma_walk_is_chain(
    profiles: Seq<ServerProfileView>,
    profile: ServerProfileView,
    id: Seq<char>,
    names: Seq<Seq<char>>,
    visited: Seq<int>,
)
    requires
        bastion_walk(profiles, id, names) is Ok,
        names.contains(profile.id),
        visited.no_duplicates(),
        forall|i: int|
            0 <= i < visited.len() ==> 0 <= #[trigger] visited[i] < with_profile(
                profiles,
                profile,
            ).len() && names.contains(with_profile(profiles, profile)[visited[i]].id),
    ensures
        chain_behind(with_profile(profiles, profile), id, visited) is Ok,
    decreases profiles.len() + 2 - names.len(),
{
    let all = with_profile(profiles, profile);
    let at = profile_at(profiles, id);
    lemma_found(profiles, id);
    assert(id != profile.id);
    lemma_other_profile(profiles, profile, id);
    lemma_found(profiles, profile.id);
    assert(at < profiles.len() <= all.len());
    assert(all[at].id == id);
    assert(!visited.contains(at)) by {
        if visited.contains(at) {
            let i = choose|i: int| 0 <= i < visited.len() && visited[i] == at;
            assert(names.contains(all[visited[i]].id));
        }
    }
    lemma_few_positions(visited, all.len() as int);
    match profiles[at].jump_host_id {
        None => {},
        Some(next) => {
            let more = names.push(id);
            let further = visited.push(at);
            let k = choose|k: int| 0 <= k < names.len() && names[k] == profile.id;
            assert(more[k] == profile.id);
            assert forall|i: int| 0 <= i < further.len() implies 0 <= #[trigger] further[i]
                < all.len() && more.contains(all[further[i]].id) by {
                if i < visited.len() {
                    assert(further[i] == visited[i]);
                    let j = choose|j: int|
                        0 <= j < names.len() && names[j] == all[visited[i]].id;
                    assert(more[j] == all[further[i]].id);
                } else {
                    assert(further[i] == at);
                    assert(more[names.len() as int] == id);
                }
            }
            lemma_walk_is_chain(profiles, profile, next, more, further);
        },
    }
}

/// A bastion that was accepted never leads into a cycle: once the server is saved with
/// it, the chain from the server comes to its end.
pub proof fn accepted_bastions_end(profiles: Seq<ServerProfileView>, profile: ServerProfileView)
    requires
        bastion_verdict(profiles, profile.id, profile.jump_host_id) is Ok,
    ensures
        chain_of(with_profile(profiles, profile), profile.id) is Ok,
{
    let all = with_profile(profiles, profile);
    let at = profile_at(profiles, profile.id);
    lemma_found(profiles, profile.id);
    assert forall|j: int| 0 <= j < at implies (#[trigger] all[j]).id != profile.id by {
        assert(all[j] == profiles[j]);
    }
    lemma_profile_at(all, profile.id, at);
    match profile.jump_host_id {
        None => {},
        Some(next) => {
            let visited = Seq::<int>::empty().push(at);
            assert(seq![profile.id][0] == profile.id);
            assert(visited[0] == at);
            lemma_walk_is_chain(profiles, profile, next, seq![profile.id], visited);
        },
    }
}

// ---------------------------------------------------------------------------
// Servers
// ---------------------------------------------------------------------------

/// A server that is to be saved.
#[derive(Debug, PartialEq, Eq)]
pub struct ServerSave {
    pub profile: ServerProfile,
    /// The tags as they are stored.
    pub tags_json: String,
    /// Whether the server was not there before.
    pub is_new: bool,
    /// Whether its secrets are to be stored too, for which the vault has to be open.
    pub updates_credentials: bool,
}

#[verifier::ext_equal]
pub struct ServerSaveView {
    pub profile: ServerProfileView,
    pub tags_json: Seq<char>,
    pub is_new: bool,
    pub updates_credentials: bool,
}

impl View for ServerSave {
    type V = ServerSaveView;

    open spec fn view(&self) -> ServerSaveView {
        ServerSaveView {
            profile: self.profile@,
            tags_json: self.tags_json@,
            is_new: self.is_new,
            updates_credentials: self.updates_credentials,
        }
    }
}

pub open spec fn save_result(res: Result<ServerSave, String>) -> Result<ServerSaveView, Seq<char>> {
    match res {
        Ok(save) => Ok(save@),
        Err(error) => Err(error@),
    }
}

/// Whether a secret is given that is not empty.
pub open spec fn is_secret(secret: Option<Seq<char>>) -> bool {
    secret matches Some(text) && text.len() > 0
}

/// Whether a draft changes stored secrets: it gives a new one, it is given one for a
/// server that is known, or it makes a server under an id that may have had some.
pub open spec fn changes_secrets(draft: ServerDraftView, is_new: bool) -> bool {
    ||| is_secret(draft.password) || is_secret(draft.key_passphrase) || is_secret(
        draft.sudo_password,
    )
    ||| !is_new && (draft.password is Some || draft.key_passphrase is Some
        || draft.sudo_password is Some)
    ||| is_new && draft.id is Some
}

/// The server that a draft describes, for the id `id` at the time `now`.
pub open spec fn drafted_profile(
    draft: ServerDraftView,
    profiles: Seq<ServerProfileView>,
    id: Seq<char>,
    now: Seq<char>,
) -> ServerProfileView {
    let at = profile_at(profiles, id);
    let known = at < profiles.len();
    ServerProfileView {
        id,
        name: trim(draft.name),
        host: trim(draft.host),
        username: trim(draft.username),
        port: draft.port as u16,
        auth_method: draft.auth_method,
        key_path: draft.key_path,
        jump_host_id: trimmed_or_none(draft.jump_host_id),
        group_name: not_blank(draft.group_name),
        tags: draft.tags.filter_map(tag_fn()),
        notes: draft.notes,
        favorite: draft.favorite,
        created_at: if known {
            profiles[at].created_at
        } else {
            now
        },
        updated_at: now,
        last_connected_at: if known {
            profiles[at].last_connected_at
        } else {
            None
        },
    }
}

/// What saving a draft comes to. `fresh` is the id of a new server.
pub open spec fn save_plan(
    draft: ServerDraftView,
    profiles: Seq<ServerProfileView>,
    fresh: Seq<char>,
    now: Seq<char>,
) -> Result<ServerSaveView, Seq<char>> {
    let id = id_or(draft.id, fresh);
    let is_new = profile_at(profiles, id) >= profiles.len();
    if let Err(error) = required_text(draft.name, "server name"@) {
        Err(error)
    } else if let Err(error) = required_text(draft.host, "host"@) {
        Err(error)
    } else if let Err(error) = required_text(draft.username, "username"@) {
        Err(error)
    } else if !(1 <= draft.port <= 65535) {
        Err("Port must be between 1 and 65535"@)
    } else if let Err(error) = bastion_verdict(profiles, id, trimmed_or_none(draft.jump_host_id)) {
        Err(error)
    } else if byte_len(draft.notes) > 100_000 {
        Err("Server notes are limited to 100 KB"@)
    } else {
        let profile = drafted_profile(draft, profiles, id, now);
        Ok(
            ServerSaveView {
                profile,
                tags_json: json_rendering(list_tree(profile.tags)),
                is_new,
                updates_credentials: changes_secrets(draft, is_new),
            },
        )
    }
}

fn has_secret(secret: &Option<String>) -> (res: bool)
    ensures
        res == is_secret(opt_view(*secret)),
{
    match secret {
        Some(text) => !text.as_str().is_empty(),
        None => false,
    }
}

/// Plans the saving of a draft among the saved profiles.
pub fn plan_save(draft: &ServerDraft, profiles: &[ServerProfile], fresh_id: &str, now: &str) -> (res:
    Result<ServerSave, String>)
    ensures
        save_result(res) == save_plan(draft@, views(profiles@), fresh_id@, now@),
{
    let name = match required(draft.name.as_str(), "server name") {
        Ok(text) => text,
        Err(error) => {
            return Err(error);
        },
    };
    let host = match required(draft.host.as_str(), "host") {
        Ok(text) => text,
        Err(error) => {
            return Err(error);
        },
    };
    let username = match required(draft.username.as_str(), "username") {
        Ok(text) => text,
        Err(error) => {
            return Err(error);
        },
    };
    if draft.port < 1 || draft.port > 65535 {
        return Err(copy("Port must be between 1 and 65535"));
    }
    let id = given_id(&draft.id, fresh_id);
    let jump_host_id = keep_trimmed(&draft.jump_host_id);
    match validate_jump_host(profiles, id.as_str(), &jump_host_id) {
        Ok(()) => {},
        Err(error) => {
            return Err(error);
        },
    }
    let at = find_profile(profiles, id.as_str());
    let is_new = at >= profiles.len();
    let (created_at, last_connected_at) = if is_new {
        (copy(now), None)
    } else {
        assert(views(profiles@)[at as int] == profiles@[at as int]@);
        (profiles[at].created_at.clone(), copy_optional(&profiles[at].last_connected_at))
    };
    let tags = clean_tags(draft.tags.as_slice());
    let tags_json = tags_to_json(&tags);
    if byte_length(draft.notes.as_str()) > 100_000 {
        return Err(copy("Server notes are limited to 100 KB"));
    }
    let new_secret = has_secret(&draft.password) || has_secret(&draft.key_passphrase) || has_secret(
        &draft.sudo_password,
    );
    let given = draft.password.is_some() || draft.key_passphrase.is_some()
        || draft.sudo_password.is_some();
    let updates_credentials = new_secret || (!is_new && given) || (is_new && draft.id.is_some());
    Ok(
        ServerSave {
            profile: ServerProfile {
                id,
                name,
                host,
                username,
                port: draft.port as u16,
                auth_method: draft.auth_method,
                key_path: copy_optional(&draft.key_path),
                jump_host_id,
                group_name: keep_not_blank(&draft.group_name),
                tags,
                notes: draft.notes.clone(),
                favorite: draft.favorite,
                created_at,
                updated_at: copy(now),
                last_connected_at,
            },
            tags_json,
            is_new,
            updates_credentials,
        },
    )
}

/// Plans the saving of a draft, with a random id for a new server and the time of day.
pub fn save_server(draft: &ServerDraft, profiles: &[ServerProfile]) -> (res: Result<
    ServerSave,
    String,
>)
    ensures
        exists|fresh: Seq<char>, now: Seq<char>|
            is_uuid(fresh) && #[trigger] save_plan(draft@, views(profiles@), fresh, now)
                == save_result(res),
{
    let fresh = random_uuid();
    let now = now_text();
    plan_save(draft, profiles, fresh.as_str(), now.as_str())
}

/// What is saved is valid, and what is read back of it is what was saved: the method, the
/// tags and the bastion.
pub proof fn saved_servers_are_valid(
    draft: ServerDraftView,
    profiles: Seq<ServerProfileView>,
    fresh: Seq<char>,
    now: Seq<char>,
)
    requires
        save_plan(draft, profiles, fresh, now) is Ok,
    ensures
        ({
            let saved = save_plan(draft, profiles, fresh, now)->Ok_0.profile;
            &&& saved.name.len() > 0 && saved.host.len() > 0 && saved.username.len() > 0
            &&& saved.port >= 1
            &&& read_method(stored_method(saved.auth_method)) == saved.auth_method
            &&& chain_of(with_profile(profiles, saved), saved.id) is Ok
        }),
{
    let saved = save_plan(draft, profiles, fresh, now)->Ok_0.profile;
    methods_read_back(saved.auth_method);
    accepted_bastions_end(profiles, saved);
}

/// A server that is known keeps its id, the time it was made and the time it was last
/// connected.
pub proof fn saving_keeps_the_identity(
    draft: ServerDraftView,
    profiles: Seq<ServerProfileView>,
    fresh: Seq<char>,
    now: Seq<char>,
)
    requires
        save_plan(draft, profiles, fresh, now) is Ok,
        draft.id matches Some(id) && trim(id).len() > 0 && profile_at(profiles, id)
            < profiles.len(),
    ensures
        ({
            let saved = save_plan(draft, profiles, fresh, now)->Ok_0.profile;
            let before = profiles[profile_at(profiles, draft.id->Some_0)];
            saved.id == draft.id->Some_0 && saved.created_at == before.created_at
                && saved.last_connected_at == before.last_connected_at
        }),
{
}

/// The draft of a copy: another name, the same settings and secrets, no favourite.
pub open spec fn copy_draft(
    source: ServerProfileView,
    password: Option<Seq<char>>,
    key_passphrase: Option<Seq<char>>,
    sudo_password: Option<Seq<char>>,
) -> ServerDraftView {
    ServerDraftView {
        id: None,
        name: source.name + " copy"@,
        host: source.host,
        username: source.username,
        port: source.port as u32,
        auth_method: source.auth_method,
        key_path: source.key_path,
        jump_host_id: source.jump_host_id,
        group_name: source.group_name,
        tags: source.tags,
        notes: source.notes,
        favorite: false,
        password,
        key_passphrase,
        sudo_password,
    }
}

pub fn duplicate_draft(
    source: ServerProfile,
    password: Option<String>,
    key_passphrase: Option<String>,
    sudo_password: Option<String>,
) -> (res: ServerDraft)
    ensures
        res@ == copy_draft(
            source@,
            opt_view(password),
            opt_view(key_passphrase),
            opt_view(sudo_password),
        ),
{
    let mut name = source.name;
    name.append(" copy");
    ServerDraft {
        id: None,
        name,
        host: source.host,
        username: source.username,
        port: source.port as u32,
        auth_method: source.auth_method,
        key_path: source.key_path,
        jump_host_id: source.jump_host_id,
        group_name: source.group_name,
        tags: source.tags,
        notes: source.notes,
        favorite: false,
        password,
        key_passphrase,
        sudo_password,
    }
}

// ---------------------------------------------------------------------------
// Quick actions and tunnels
// ---------------------------------------------------------------------------

/// What saving a quick action comes to. `known` says whether its server exists, where it
/// has one.
pub open spec fn command_plan(input: SavedCommandInputView, known: bool, fresh: Seq<char>) -> Result<
    SavedCommandView,
    Seq<char>,
> {
    if let Err(error) = required_text(input.name, "command name"@) {
        Err(error)
    } else if let Err(error) = required_text(input.command, "command"@) {
        Err(error)
    } else if byte_len(trim(input.command)) > 20_000 {
        Err("Saved commands are limited to 20 KB"@)
    } else if input.server_id is Some && !known {
        Err(SERVER_GONE@)
    } else {
        Ok(
            SavedCommandView {
                id: id_or(input.id, fresh),
                server_id: input.server_id,
                name: trim(input.name),
                command: trim(input.command),
            },
        )
    }
}

pub open spec fn command_result(res: Result<SavedCommand, String>) -> Result<
    SavedCommandView,
    Seq<char>,
> {
    match res {
        Ok(command) => Ok(command@),
        Err(error) => Err(error@),
    }
}

pub fn plan_saved_command(input: &SavedCommandInput, known: bool, fresh_id: &str) -> (res: Result<
    SavedCommand,
    String,
>)
    ensures
        command_result(res) == command_plan(input@, known, fresh_id@),
{
    let name = match required(input.name.as_str(), "command name") {
        Ok(text) => text,
        Err(error) => {
            return Err(error);
        },
    };
    let command = match required(input.command.as_str(), "command") {
        Ok(text) => text,
        Err(error) => {
            return Err(error);
        },
    };
    if byte_length(command.as_str()) > 20_000 {
        return Err(copy("Saved commands are limited to 20 KB"));
    }
    if input.server_id.is_some() && !known {
        return Err(copy(SERVER_GONE));
    }
    Ok(
        SavedCommand {
            id: given_id(&input.id, fresh_id),
            server_id: copy_optional(&input.server_id),
            name,
            command,
        },
    )
}

/// Plans the saving of a quick action, with a random id for a new one.
pub fn save_saved_command(input: &SavedCommandInput, known: bool) -> (res: Result<
    SavedCommand,
    String,
>)
    ensures
        exists|fresh: Seq<char>|
            is_uuid(fresh) && #[trigger] command_plan(input@, known, fresh) == command_result(
                res,
            ),
{
    let fresh = random_uuid();
    plan_saved_command(input, known, fresh.as_str())
}

/// Whether a tunnel's port is one.
pub open spec fn is_port(port: u32) -> bool {
    1 <= port <= 65535
}

/// What saving a tunnel comes to: a SOCKS proxy alone needs no target.
pub open spec fn tunnel_plan(input: TunnelInputView, known: bool, fresh: Seq<char>) -> Result<
    TunnelConfigView,
    Seq<char>,
> {
    let socks = input.kind == "socks"@;
    if !known {
        Err(SERVER_GONE@)
    } else if input.kind != "local"@ && input.kind != "remote"@ && !socks {
        Err("Tunnel kind must be local, remote, or socks"@)
    } else if !is_port(input.bind_port) || !is_port(input.target_port) {
        Err("Tunnel ports must be between 1 and 65535"@)
    } else if let Err(error) = required_text(input.name, "tunnel name"@) {
        Err(error)
    } else if let Err(error) = required_text(input.bind_host, "bind host"@) {
        Err(error)
    } else if !socks && trim(input.target_host).len() == 0 {
        Err("Enter a "@ + "target host"@)
    } else {
        Ok(
            TunnelConfigView {
                id: id_or(input.id, fresh),
                server_id: input.server_id,
                name: trim(input.name),
                kind: input.kind,
                bind_host: trim(input.bind_host),
                bind_port: input.bind_port as u16,
                target_host: trim(input.target_host),
                target_port: input.target_port as u16,
            },
        )
    }
}

pub open spec fn tunnel_result(res: Result<TunnelConfig, String>) -> Result<
    TunnelConfigView,
    Seq<char>,
> {
    match res {
        Ok(tunnel) => Ok(tunnel@),
        Err(error) => Err(error@),
    }
}

pub fn plan_tunnel(input: &TunnelInput, known: bool, fresh_id: &str) -> (res: Result<
    TunnelConfig,
    String,
>)
    ensures
        tunnel_result(res) == tunnel_plan(input@, known, fresh_id@),
{
    if !known {
        return Err(copy(SERVER_GONE));
    }
    let kind = input.kind.as_str();
    let socks = same(kind, "socks");
    if !same(kind, "local") && !same(kind, "remote") && !socks {
        return Err(copy("Tunnel kind must be local, remote, or socks"));
    }
    if input.bind_port < 1 || input.bind_port > 65535 || input.target_port < 1 || input.target_port
        > 65535 {
        return Err(copy("Tunnel ports must be between 1 and 65535"));
    }
    let name = match required(input.name.as_str(), "tunnel name") {
        Ok(text) => text,
        Err(error) => {
            return Err(error);
        },
    };
    let bind_host = match required(input.bind_host.as_str(), "bind host") {
        Ok(text) => text,
        Err(error) => {
            return Err(error);
        },
    };
    let target_host = if socks {
        trim_str(input.target_host.as_str())
    } else {
        match required(input.target_host.as_str(), "target host") {
            Ok(text) => text,
            Err(error) => {
                return Err(error);
            },
        }
    };
    Ok(
        TunnelConfig {
            id: given_id(&input.id, fresh_id),
            server_id: input.server_id.clone(),
            name,
            kind: input.kind.clone(),
            bind_host,
            bind_port: input.bind_port as u16,
            target_host,
            target_port: input.target_port as u16,
        },
    )
}

/// Plans the saving of a tunnel, with a random id for a new one.
pub fn save_tunnel(input: &TunnelInput, known: bool) -> (res: Result<TunnelConfig, String>)
    ensures
        exists|fresh: Seq<char>|
            is_uuid(fresh) && #[trigger] tunnel_plan(input@, known, fresh) == tunnel_result(res),
{
    let fresh = random_uuid();
    plan_tunnel(input, known, fresh.as_str())
}

/// What is saved of a server is what was filled in, without the blanks around it: each field
/// in its own place, under the id that it had or a fresh one.
pub proof fn servers_are_saved_as_filled_in(
    draft: ServerDraftView,
    profiles: Seq<ServerProfileView>,
    fresh: Seq<char>,
    now: Seq<char>,
)
    requires
        save_plan(draft, profiles, fresh, now) is Ok,
    ensures
        ({
            let save = save_plan(draft, profiles, fresh, now)->Ok_0;
            let saved = save.profile;
            &&& saved.name == trim(draft.name)
            &&& saved.host == trim(draft.host)
            &&& saved.username == trim(draft.username)
            &&& saved.port == draft.port
            &&& saved.auth_method == draft.auth_method
            &&& saved.key_path == draft.key_path
            &&& saved.notes == draft.notes
            &&& saved.favorite == draft.favorite
            &&& saved.updated_at == now
            &&& saved.tags == draft.tags.filter_map(|text: Seq<char>| tag_of(text))
            &&& draft.jump_host_id is None ==> saved.jump_host_id is None
            &&& draft.jump_host_id matches Some(id) ==> if trim(id).len() > 0 {
                saved.jump_host_id == Some(trim(id))
            } else {
                saved.jump_host_id is None
            }
            &&& draft.group_name is None ==> saved.group_name is None
            &&& draft.group_name matches Some(name) ==> if trim(name).len() > 0 {
                saved.group_name == Some(name)
            } else {
                saved.group_name is None
            }
            &&& draft.id is None ==> saved.id == fresh
            &&& draft.id matches Some(id) ==> saved.id == if trim(id).len() > 0 {
                id
            } else {
                fresh
            }
            &&& save.is_new <==> forall|i: int|
                0 <= i < profiles.len() ==> (#[trigger] profiles[i]).id != saved.id
            &&& save.is_new ==> saved.created_at == now && saved.last_connected_at is None
        }),
{
    let save = save_plan(draft, profiles, fresh, now)->Ok_0;
    lemma_profile_found(profiles, save.profile.id);
    assert(draft.tags.filter_map(tag_fn()) == draft.tags.filter_map(
        |text: Seq<char>| tag_of(text),
    )) by {
        assert(tag_fn() =~= |text: Seq<char>| tag_of(text));
    }
}

proof fn lemma_profile_found(profiles: Seq<ServerProfileView>, id: Seq<char>)
    ensures
        0 <= profile_at(profiles, id) <= profiles.len(),
        profile_at(profiles, id) < profiles.len() ==> profiles[profile_at(profiles, id)].id == id,
        profile_at(profiles, id) == profiles.len() ==> forall|i: int|
            0 <= i < profiles.len() ==> (#[trigger] profiles[i]).id != id,
    decreases profiles.len(),
{
    if profiles.len() > 0 && profiles[0].id != id {
        let rest = profiles.skip(1);
        lemma_profile_found(rest, id);
        if profile_at(rest, id) == rest.len() {
            assert forall|i: int| 0 <= i < profiles.len() implies (#[trigger] profiles[i]).id
                != id by {
                if i > 0 {
                    assert(rest[i - 1] == profiles[i]);
                }
            }
        }
    }
}

/// A server is saved where its name, its host and its user are filled in, its port is a port,
/// its bastion leads somewhere and its notes are short; and in no other case.
pub proof fn only_whole_servers_are_saved(
    draft: ServerDraftView,
    profiles: Seq<ServerProfileView>,
    fresh: Seq<char>,
    now: Seq<char>,
)
    ensures
        save_plan(draft, profiles, fresh, now) is Ok <==> trim(draft.name).len() > 0 && trim(
            draft.host,
        ).len() > 0 && trim(draft.username).len() > 0 && 1 <= draft.port <= 65535
            && bastion_verdict(
            profiles,
            id_or(draft.id, fresh),
            trimmed_or_none(draft.jump_host_id),
        ) is Ok && byte_len(draft.notes) <= 100000,
{
}

/// The vault is touched where a secret was filled in, where one of a known server is to be
/// cleared, and where a server comes back under an id that it had.
pub proof fn filled_in_secrets_are_stored(draft: ServerDraftView, is_new: bool, secret: Seq<char>)
    ensures
        secret.len() > 0 && (draft.password == Some(secret) || draft.key_passphrase == Some(secret)
            || draft.sudo_password == Some(secret)) ==> changes_secrets(draft, is_new),
        draft.password == Some(Seq::<char>::empty()) || draft.key_passphrase == Some(
            Seq::<char>::empty(),
        ) || draft.sudo_password == Some(Seq::<char>::empty()) ==> changes_secrets(draft, false),
        draft.password is None && draft.key_passphrase is None && draft.sudo_password is None
            ==> !changes_secrets(draft, false),
        draft.password is None && draft.key_passphrase is None && draft.sudo_password is None
            && draft.id is None ==> !changes_secrets(draft, true),
        draft.id is Some ==> changes_secrets(draft, true),
{
}

/// A row of the database is read back field by field.
pub proof fn rows_read_back(row: StoredServer)
    ensures
        ({
            let profile = row_profile(row);
            &&& profile.id == row.id@
            &&& profile.name == row.name@
            &&& profile.host == row.host@
            &&& profile.username == row.username@
            &&& profile.port == row.port
            &&& row.auth_method@ == "privateKey"@ <==> profile.auth_method == AuthMethod::PrivateKey
            &&& profile.key_path == opt_view(row.key_path)
            &&& profile.jump_host_id == opt_view(row.jump_host_id)
            &&& profile.group_name == opt_view(row.group_name)
            &&& profile.notes == row.notes@
            &&& profile.favorite <==> row.favorite != 0
            &&& profile.created_at == row.created_at@
            &&& profile.updated_at == row.updated_at@
            &&& profile.last_connected_at == opt_view(row.last_connected_at)
        }),
        stored_method(AuthMethod::PrivateKey) == "privateKey"@,
        stored_method(AuthMethod::Password) == "password"@,
{
}

/// A copy of a server is a new server with all that the other has, under a name that says
/// so, and with its secrets.
pub proof fn copies_are_new_servers(
    source: ServerProfileView,
    password: Option<Seq<char>>,
    phrase: Option<Seq<char>>,
    sudo: Option<Seq<char>>,
)
    ensures
        ({
            let copied = copy_draft(source, password, phrase, sudo);
            &&& copied.id is None
            &&& copied.name == source.name + " copy"@
            &&& copied.host == source.host
            &&& copied.username == source.username
            &&& copied.port == source.port
            &&& copied.auth_method == source.auth_method
            &&& copied.key_path == source.key_path
            &&& copied.jump_host_id == source.jump_host_id
            &&& copied.group_name == source.group_name
            &&& copied.tags == source.tags
            &&& copied.notes == source.notes
            &&& !copied.favorite
            &&& copied.password == password
            &&& copied.key_passphrase == phrase
            &&& copied.sudo_password == sudo
        }),
{
}

/// A command is saved as it was typed, for the server that it was typed for; one that is
/// blank, too long, or for a server that is gone is not.
pub proof fn commands_are_saved_as_typed(input: SavedCommandInputView, known: bool, fresh: Seq<char>)
    ensures
        command_plan(input, known, fresh) is Ok <==> trim(input.name).len() > 0 && trim(
            input.command,
        ).len() > 0 && byte_len(trim(input.command)) <= 20000 && (input.server_id is None || known),
        command_plan(input, known, fresh) matches Ok(saved) ==> {
            &&& saved.name == trim(input.name)
            &&& saved.command == trim(input.command)
            &&& saved.server_id == input.server_id
            &&& input.id is None ==> saved.id == fresh
            &&& input.id matches Some(id) ==> trim(id).len() > 0 ==> saved.id == id
        },
{
}

/// A tunnel is saved as it was filled in: its kind, both its ends and its server. Only a
/// SOCKS proxy goes without a target.
pub proof fn tunnels_are_saved_as_filled_in(input: TunnelInputView, known: bool, fresh: Seq<char>)
    ensures
        tunnel_plan(input, known, fresh) is Ok <==> known && (input.kind == "local"@ || input.kind
            == "remote"@ || input.kind == "socks"@) && 1 <= input.bind_port <= 65535 && 1
            <= input.target_port <= 65535 && trim(input.name).len() > 0 && trim(
            input.bind_host,
        ).len() > 0 && (input.kind == "socks"@ || trim(input.target_host).len() > 0),
        tunnel_plan(input, known, fresh) matches Ok(saved) ==> {
            &&& saved.server_id == input.server_id
            &&& saved.name == trim(input.name)
            &&& saved.kind == input.kind
            &&& saved.bind_host == trim(input.bind_host)
            &&& saved.bind_port == input.bind_port
            &&& saved.target_host == trim(input.target_host)
            &&& saved.target_port == input.target_port
            &&& input.id is None ==> saved.id == fresh
            &&& input.id matches Some(id) ==> trim(id).len() > 0 ==> saved.id == id
        },
{
}

/// A bastion is accepted only where it is there, and where it leads, from one to the next, to
/// a server without one; a server is never its own bastion.
pub proof fn bastions_lead_somewhere(
    profiles: Seq<ServerProfileView>,
    server_id: Seq<char>,
    bastion: Seq<char>,
)
    ensures
        bastion_verdict(profiles, server_id, None) is Ok,
        bastion_verdict(profiles, server_id, Some(server_id)) == Err::<(), Seq<char>>(
            "Bastion profiles cannot contain a connection cycle"@,
        ),
        bastion != server_id && profile_at(profiles, bastion) >= profiles.len() ==> bastion_verdict(
            profiles,
            server_id,
            Some(bastion),
        ) == Err::<(), Seq<char>>("The selected bastion profile no longer exists"@),
        bastion != server_id && profile_at(profiles, bastion) < profiles.len() && profiles[profile_at(
            profiles,
            bastion,
        )].jump_host_id is None ==> bastion_verdict(profiles, server_id, Some(bastion)) is Ok,
        profile_at(profiles, bastion) < profiles.len() && profiles[profile_at(
            profiles,
            bastion,
        )].jump_host_id == Some(server_id) ==> bastion_verdict(profiles, server_id, Some(bastion))
            is Err,
{
    let start = seq![server_id];
    assert(start[0] == server_id);
    if bastion != server_id {
        assert(!start.contains(bastion));
        let more = start.push(bastion);
        assert(more[0] == server_id);
        assert(more.contains(server_id));
        reveal_with_fuel(bastion_walk, 2);
    }
}

/// A tag is what was typed, in lower case, without the sign before it.
pub proof fn tags_lose_their_sign(name: Seq<char>)
    requires
        name.len() > 0,
        !is_space(name[0]) && !is_space(name.last()),
        name[0] != '#',
        lower_case(name).len() > 0,
    ensures
        tag_of(name) == Some(lower_case(name)),
        tag_of("#"@ + name) == Some(lower_case(name)),
{
    reveal_strlit("#");
    let none = Seq::<char>::empty();
    let signed = "#"@ + name;
    assert(none + name + none =~= name);
    assert(none + signed + none =~= signed);
    assert(signed[0] == '#' && signed.last() == name.last());
    trimming_takes_off_spaces(none, name, none);
    trimming_takes_off_spaces(none, signed, none);
    assert(signed.skip(1) =~= name);
    assert(trim_start_where(name, is_char('#')) == name);
    assert(trim_start_where(signed, is_char('#')) == trim_start_where(name, is_char('#')));
}

} // verus!
