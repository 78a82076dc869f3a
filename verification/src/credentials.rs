//! The credential store: the secrets of each server, locked under a master password.
use crate::json::{
    entries_are, entry, field_of, fields_of, get_entry, has_entries, json_document, json_rendering,
    lemma_fields, parse_json, plain, render_secrets, tree_of, wipe_json, Json, Tree,
};
use crate::models::CredentialStatus;
use crate::registry::Registry;
use crate::sorting::{before_fn, in_order, sort_texts, text_before, text_order, texts_sort};
use crate::ssh::error_result;
use crate::text::{copy, opt_view, same, views};
use crate::utf8::borrowed_text;
use crate::vault::{
    aes_opened, derive_key, open_parts, opened_file, parse_file, parsed_file, random_bytes, seal,
    vault_key, KEY_LENGTH, NONCE_LENGTH, SALT_LENGTH,
};
use crate::wiping::{wipe_bytes, wipe_held_bytes, wipe_held_text, wipe_text};
use vstd::prelude::*;
use vstd::utf8::{
    decode_utf8, encode_utf8, encode_utf8_decode_utf8, encode_utf8_valid_utf8, valid_utf8,
};

verus! {

broadcast use vstd::string::group_string_axioms;

pub const MIN_MASTER_PASSWORD_LENGTH: usize = 8;

pub const VAULT_LOCKED: &'static str =
    "MASTER_PASSWORD_REQUIRED: Unlock the credential vault to continue.";

pub const VAULT_MISSING: &'static str =
    "MASTER_PASSWORD_SETUP_REQUIRED: Create a master password to protect saved credentials.";

pub const NOTHING_TO_CHANGE: &'static str =
    "MASTER_PASSWORD_NOT_CONFIGURED: There is no saved credential vault to change.";

pub const UNDECODABLE: &'static str = "The encrypted credential vault could not be decoded.";

pub const PASSWORD_TOO_SHORT: &'static str =
    "A master password must be at least 8 characters long.";

/// The secrets of a server.
#[derive(Debug, PartialEq, Eq)]
pub struct ServerCredentials {
    pub password: Option<String>,
    pub key_passphrase: Option<String>,
    pub sudo_password: Option<String>,
}

#[verifier::ext_equal]
pub struct ServerCredentialsView {
    pub password: Option<Seq<char>>,
    pub key_passphrase: Option<Seq<char>>,
    pub sudo_password: Option<Seq<char>>,
}

impl View for ServerCredentials {
    type V = ServerCredentialsView;

    open spec fn view(&self) -> ServerCredentialsView {
        ServerCredentialsView {
            password: opt_view(self.password),
            key_passphrase: opt_view(self.key_passphrase),
            sudo_password: opt_view(self.sudo_password),
        }
    }
}

/// The secrets of all servers.
pub type Secrets = Map<Seq<char>, ServerCredentialsView>;

/// The secrets in a table.
pub open spec fn secrets_of(servers: Map<Seq<char>, ServerCredentials>) -> Secrets {
    Map::new(|id: Seq<char>| servers.dom().contains(id), |id: Seq<char>| servers[id]@)
}

/// A copy of an optional text.
pub fn copy_optional(value: &Option<String>) -> (res: Option<String>)
    ensures
        opt_view(res) == opt_view(*value),
{
    match value {
        Some(text) => Some(text.clone()),
        None => None,
    }
}

fn copy_credentials(value: &ServerCredentials) -> (res: ServerCredentials)
    ensures
        res@ == value@,
{
    ServerCredentials {
        password: copy_optional(&value.password),
        key_passphrase: copy_optional(&value.key_passphrase),
        sudo_password: copy_optional(&value.sudo_password),
    }
}

// ---------------------------------------------------------------------------
// Giving secrets up
// ---------------------------------------------------------------------------

/// Wipes the secrets of a server.
fn wipe_credentials(credentials: &mut ServerCredentials)
    ensures
        final(credentials)@ == (ServerCredentialsView {
            password: None,
            key_passphrase: None,
            sudo_password: None,
        }),
{
    wipe_held_text(&mut credentials.password);
    wipe_held_text(&mut credentials.key_passphrase);
    wipe_held_text(&mut credentials.sudo_password);
}

/// Takes the secrets of a server out of a table and wipes them.
fn drop_credentials(servers: &mut Registry<ServerCredentials>, id: &str)
    ensures
        final(servers)@ == old(servers)@.remove(id@),
{
    match servers.remove(id) {
        Some(mut credentials) => {
            wipe_credentials(&mut credentials);
        },
        None => {},
    }
}

/// Puts the secrets of a server into a table; those that were there are wiped.
fn put_credentials(
    servers: &mut Registry<ServerCredentials>,
    id: &str,
    credentials: ServerCredentials,
)
    ensures
        final(servers)@ == old(servers)@.insert(id@, credentials),
{
    drop_credentials(servers, id);
    servers.insert(id, credentials);
    assert(servers@ =~= old(servers)@.insert(id@, credentials));
}

/// Empties a table and wipes what it held.
fn wipe_servers(servers: &mut Registry<ServerCredentials>)
    ensures
        final(servers)@ == Map::<Seq<char>, ServerCredentials>::empty(),
{
    let every = |credentials: &ServerCredentials| -> (b: bool)
        ensures
            b,
        {
            true
        };
    let mut taken = servers.take_where(every, Ghost(|credentials: ServerCredentials| true));
    assert(servers@ =~= Map::<Seq<char>, ServerCredentials>::empty());
    while taken.len() > 0
        decreases taken@.len(),
    {
        match taken.pop() {
            Some((_, mut credentials)) => {
                wipe_credentials(&mut credentials);
            },
            None => {},
        }
    }
}

// ---------------------------------------------------------------------------
// The document
// ---------------------------------------------------------------------------

pub open spec fn secret_tree(secret: Option<Seq<char>>) -> Tree {
    match secret {
        Some(text) => Tree::Text(text),
        None => Tree::Null,
    }
}

pub open spec fn credentials_tree(credentials: ServerCredentialsView) -> Tree {
    Tree::Object(
        seq![
            ("key_passphrase"@, secret_tree(credentials.key_passphrase)),
            ("password"@, secret_tree(credentials.password)),
            ("sudo_password"@, secret_tree(credentials.sudo_password)),
        ],
    )
}

/// The secrets of the servers `ids` as fields.
pub open spec fn server_fields(secrets: Secrets, ids: Seq<Seq<char>>) -> Seq<(Seq<char>, Tree)> {
    Seq::new(ids.len(), |i: int| (ids[i], credentials_tree(secrets[ids[i]])))
}

/// The document that holds the secrets, its servers in the order `ids`.
pub open spec fn document_tree(secrets: Secrets, ids: Seq<Seq<char>>) -> Tree {
    Tree::Object(seq![("servers"@, Tree::Object(server_fields(secrets, ids)))])
}

/// A secret in a document: missing or null is none, a text is one, and nothing else is
/// accepted.
pub open spec fn secret_in(tree: Tree, key: Seq<char>, index: int) -> Option<
    Option<Seq<char>>,
> {
    match entry(tree, key, index) {
        None => Some(None),
        Some(Tree::Null) => Some(None),
        Some(Tree::Text(text)) => Some(Some(text)),
        _ => None,
    }
}

/// The secrets of a server in a document, by their names or as a list of three.
pub open spec fn credentials_in(tree: Tree) -> Option<ServerCredentialsView> {
    if !has_entries(tree, 3) {
        None
    } else {
        match (
            secret_in(tree, "password"@, 0),
            secret_in(tree, "key_passphrase"@, 1),
            secret_in(tree, "sudo_password"@, 2),
        ) {
            (Some(password), Some(key_passphrase), Some(sudo_password)) => Some(
                ServerCredentialsView { password, key_passphrase, sudo_password },
            ),
            _ => None,
        }
    }
}

/// The secrets in the fields of a document, a later field before an earlier one.
pub open spec fn secrets_in(fields: Seq<(Seq<char>, Tree)>) -> Option<Secrets>
    decreases fields.len(),
{
    if fields.len() == 0 {
        Some(Map::empty())
    } else {
        match (secrets_in(fields.drop_last()), credentials_in(fields.last().1)) {
            (Some(secrets), Some(credentials)) => Some(
                secrets.insert(fields.last().0, credentials),
            ),
            _ => None,
        }
    }
}

/// The secrets in a document: an object, or a list of at most one entry. Where the servers
/// are missing there are none.
pub open spec fn document_in(tree: Tree) -> Option<Secrets> {
    if !has_entries(tree, 0) && !has_entries(tree, 1) {
        None
    } else {
        match entry(tree, "servers"@, 0) {
            None => Some(Map::empty()),
            Some(Tree::Object(fields)) => secrets_in(fields),
            _ => None,
        }
    }
}

/// The secrets that a decrypted vault holds.
pub open spec fn decoded(plaintext: Seq<u8>) -> Option<Secrets> {
    if !valid_utf8(plaintext) {
        None
    } else {
        match json_document(decode_utf8(plaintext)) {
            Some(tree) => document_in(tree),
            None => None,
        }
    }
}

proof fn lemma_credentials_read_back(credentials: ServerCredentialsView)
    ensures
        credentials_in(credentials_tree(credentials)) == Some(credentials),
        plain(credentials_tree(credentials), 14),
{
    let fields = credentials_tree(credentials)->Object_0;
    reveal_strlit("key_passphrase");
    reveal_strlit("password");
    reveal_strlit("sudo_password");
    reveal_with_fuel(field_of, 4);
    reveal_with_fuel(plain, 3);
    assert("key_passphrase"@[0] == 'k' && "password"@[0] == 'p' && "sudo_password"@[0] == 's');
    assert(fields.skip(1)[0] == fields[1]);
    assert(fields.skip(1).skip(1)[0] == fields[2]);
    assert(text_before("key_passphrase"@, "password"@));
    assert(text_before("key_passphrase"@, "sudo_password"@));
    assert(text_before("password"@, "sudo_password"@));
}

proof fn lemma_fields_read_back(secrets: Secrets, ids: Seq<Seq<char>>)
    requires
        ids.no_duplicates(),
    ensures
        secrets_in(server_fields(secrets, ids)) matches Some(read) && (forall|id: Seq<char>|
            #[trigger] read.dom().contains(id) <==> ids.contains(id)) && (forall|id: Seq<char>|
            #[trigger] read.dom().contains(id) ==> read[id] == secrets[id]),
    decreases ids.len(),
{
    let fields = server_fields(secrets, ids);
    if ids.len() > 0 {
        let rest = ids.drop_last();
        assert(fields.drop_last() =~= server_fields(secrets, rest));
        lemma_fields_read_back(secrets, rest);
        lemma_credentials_read_back(secrets[ids.last()]);
        let before = secrets_in(server_fields(secrets, rest))->Some_0;
        let read = secrets_in(fields)->Some_0;
        assert(read == before.insert(ids.last(), secrets[ids.last()]));
        assert forall|id: Seq<char>| #[trigger] read.dom().contains(id) <==> ids.contains(id) by {
            assert(before.dom().contains(id) <==> rest.contains(id));
            if rest.contains(id) {
                let k = choose|k: int| 0 <= k < rest.len() && rest[k] == id;
                assert(ids[k] == id);
            }
            if ids.contains(id) {
                let k = choose|k: int| 0 <= k < ids.len() && ids[k] == id;
                if k < rest.len() {
                    assert(rest[k] == id);
                }
            }
            if id == ids.last() {
                assert(ids[ids.len() - 1] == id);
            }
        }
        assert forall|id: Seq<char>| #[trigger] read.dom().contains(id) implies read[id]
            == secrets[id] by {
            if id != ids.last() {
                assert(before.dom().contains(id));
            }
        }
    }
}

/// Whether `ids` are the servers of `secrets`, each once and in order.
pub open spec fn lists_servers(secrets: Secrets, ids: Seq<Seq<char>>) -> bool {
    &&& ids.no_duplicates()
    &&& in_order(ids, before_fn())
    &&& forall|id: Seq<char>| #[trigger] ids.contains(id) <==> secrets.dom().contains(id)
}

/// Secrets are read back from the document that holds them.
pub proof fn documents_read_back(secrets: Secrets, ids: Seq<Seq<char>>)
    requires
        lists_servers(secrets, ids),
    ensures
        document_in(document_tree(secrets, ids)) == Some(secrets),
        plain(document_tree(secrets, ids), 16),
{
    let fields = server_fields(secrets, ids);
    lemma_fields_read_back(secrets, ids);
    let read = secrets_in(fields)->Some_0;
    assert(read =~= secrets);
    reveal_with_fuel(field_of, 2);
    let inner = Tree::Object(fields);
    assert forall|i: int| 0 <= i < fields.len() implies plain((#[trigger] fields[i]).1, 14) by {
        lemma_credentials_read_back(secrets[ids[i]]);
    }
    assert forall|i: int, j: int| 0 <= i < j < fields.len() implies text_before(
        (#[trigger] fields[i]).0,
        (#[trigger] fields[j]).0,
    ) by {
        let lt = before_fn();
        assert(!lt(ids[j], ids[i]));
        assert(ids[i] != ids[j]);
        text_order(ids[i], ids[j], ids[i]);
    }
    assert(plain(inner, 15));
    let all = document_tree(secrets, ids)->Object_0;
    assert(all[0].1 == inner);
}

/// The secrets in a document.
fn read_secret(json: &Json, key: &str, index: usize) -> (res: Option<Option<String>>)
    ensures
        match res {
            Some(secret) => secret_in(json@, key@, index as int) == Some(opt_view(secret)),
            None => secret_in(json@, key@, index as int) is None,
        },
{
    match get_entry(json, key, index) {
        None => Some(None),
        Some(item) => match item {
            Json::Null => Some(None),
            Json::Text(text) => Some(Some(text.clone())),
            _ => None,
        },
    }
}

fn read_credentials(json: &Json) -> (res: Option<ServerCredentials>)
    ensures
        opt_view(res) == credentials_in(json@),
{
    if !entries_are(json, 3) {
        return None;
    }
    let password = read_secret(json, "password", 0);
    let key_passphrase = read_secret(json, "key_passphrase", 1);
    let sudo_password = read_secret(json, "sudo_password", 2);
    if password.is_some() && key_passphrase.is_some() && sudo_password.is_some() {
        match (password, key_passphrase, sudo_password) {
            (Some(password), Some(key_passphrase), Some(sudo_password)) => Some(
                ServerCredentials { password, key_passphrase, sudo_password },
            ),
            _ => None,
        }
    } else {
        wipe_read(password);
        wipe_read(key_passphrase);
        wipe_read(sudo_password);
        None
    }
}

fn wipe_read(secret: Option<Option<String>>) {
    if let Some(secret) = secret {
        let mut secret = secret;
        wipe_held_text(&mut secret);
    }
}

fn read_document(json: &Json) -> (res: Option<Registry<ServerCredentials>>)
    ensures
        match res {
            Some(servers) => document_in(json@) == Some(secrets_of(servers@)),
            None => document_in(json@) is None,
        },
{
    if !entries_are(json, 0) && !entries_are(json, 1) {
        return None;
    }
    let mut servers: Registry<ServerCredentials> = Registry::new();
    assert(secrets_of(servers@) =~= Map::empty());
    match get_entry(json, "servers", 0) {
        None => Some(servers),
        Some(item) => match item {
            Json::Object(fields) => {
                let ghost all = fields_of(fields@);
                proof {
                    lemma_fields(fields@);
                }
                assert(all.take(0) =~= Seq::empty());
                let mut i: usize = 0;
                while i < fields.len()
                    invariant
                        i <= fields@.len(),
                        all == fields_of(fields@),
                        all.len() == fields@.len(),
                        item@ == Tree::Object(all),
                        has_entries(json@, 0) || has_entries(json@, 1),
                        entry(json@, "servers"@, 0) == Some(item@),
                        forall|j: int|
                            0 <= j < fields@.len() ==> #[trigger] all[j] == (
                                fields@[j].0@,
                                fields@[j].1@,
                            ),
                        secrets_in(all.take(i as int)) == Some(secrets_of(servers@)),
                    decreases fields@.len() - i,
                {
                    let ghost next = all.take(i + 1);
                    let ghost before = servers@;
                    assert(next.drop_last() =~= all.take(i as int));
                    assert(next.last() == (fields@[i as int].0@, fields@[i as int].1@));
                    match read_credentials(&fields[i].1) {
                        Some(credentials) => {
                            put_credentials(&mut servers, fields[i].0.as_str(), credentials);
                            assert(secrets_of(servers@) =~= secrets_of(before).insert(
                                fields@[i as int].0@,
                                credentials@,
                            ));
                        },
                        None => {
                            proof {
                                lemma_bad_field(all, i as int);
                            }
                            wipe_servers(&mut servers);
                            return None;
                        },
                    }
                    i += 1;
                }
                assert(all.take(all.len() as int) =~= all);
                Some(servers)
            },
            _ => None,
        },
    }
}

/// One field that is no server makes the whole document unreadable.
proof fn lemma_bad_field(fields: Seq<(Seq<char>, Tree)>, at: int)
    requires
        0 <= at < fields.len(),
        credentials_in(fields[at].1) is None,
    ensures
        secrets_in(fields) is None,
    decreases fields.len(),
{
    if at < fields.len() - 1 {
        assert(fields.drop_last()[at] == fields[at]);
        lemma_bad_field(fields.drop_last(), at);
    }
}

fn secret_json(secret: &Option<String>) -> (res: Json)
    ensures
        res@ == secret_tree(opt_view(*secret)),
{
    match secret {
        Some(text) => Json::Text(text.clone()),
        None => Json::Null,
    }
}

fn credentials_json(credentials: &ServerCredentials) -> (res: Json)
    ensures
        res@ == credentials_tree(credentials@),
{
    let mut fields: Vec<(String, Json)> = Vec::new();
    fields.push((copy("key_passphrase"), secret_json(&credentials.key_passphrase)));
    fields.push((copy("password"), secret_json(&credentials.password)));
    fields.push((copy("sudo_password"), secret_json(&credentials.sudo_password)));
    proof {
        lemma_fields(fields@);
        assert(fields_of(fields@) =~= credentials_tree(credentials@)->Object_0);
    }
    Json::Object(fields)
}

/// The document that holds the secrets, as text.
fn document_text(servers: &Registry<ServerCredentials>) -> (res: String)
    ensures
        exists|ids: Seq<Seq<char>>| #[trigger]
            lists_servers(secrets_of(servers@), ids) && res@ == json_rendering(
                document_tree(secrets_of(servers@), ids),
            ),
        json_document(res@) matches Some(tree) && document_in(tree) == Some(secrets_of(servers@)),
{
    let names = servers.names();
    let ghost secrets = secrets_of(servers@);
    let ghost unsorted = views(names@);
    let ids = sort_texts(names);
    let ghost sorted = views(ids@);
    proof {
        texts_sort(unsorted);
        unsorted.lemma_multiset_has_no_duplicates();
        sorted.lemma_multiset_has_no_duplicates_conv();
        assert forall|id: Seq<char>| #[trigger]
            sorted.contains(id) <==> secrets.dom().contains(id) by {
            broadcast use vstd::seq_lib::group_to_multiset_ensures;

            assert(sorted.to_multiset().contains(id) <==> unsorted.to_multiset().contains(id));
            assert(unsorted.contains(id) <==> servers@.dom().contains(id));
        }
        documents_read_back(secrets, sorted);
    }
    let mut fields: Vec<(String, Json)> = Vec::new();
    let mut i: usize = 0;
    while i < ids.len()
        invariant
            i <= ids@.len(),
            sorted == views(ids@),
            secrets == secrets_of(servers@),
            forall|id: Seq<char>| #[trigger] sorted.contains(id) <==> secrets.dom().contains(id),
            fields_of(fields@) == server_fields(secrets, sorted).take(i as int),
        decreases ids@.len() - i,
    {
        let ghost before = fields@;
        assert(sorted[i as int] == ids@[i as int]@);
        assert(sorted.contains(sorted[i as int]));
        match servers.get(ids[i].as_str()) {
            Some(credentials) => {
                fields.push((ids[i].clone(), credentials_json(credentials)));
                proof {
                    assert(fields@.drop_last() =~= before);
                    assert(server_fields(secrets, sorted).take(i + 1) =~= server_fields(
                        secrets,
                        sorted,
                    ).take(i as int).push(
                        (ids@[i as int]@, credentials_tree(secrets[ids@[i as int]@])),
                    ));
                }
            },
            None => {},
        }
        i += 1;
    }
    assert(server_fields(secrets, sorted).take(ids@.len() as int) =~= server_fields(
        secrets,
        sorted,
    ));
    let ghost inner = Tree::Object(server_fields(secrets, sorted));
    let mut outer: Vec<(String, Json)> = Vec::new();
    outer.push((copy("servers"), Json::Object(fields)));
    proof {
        lemma_fields(outer@);
        assert(outer@[0].1@ == inner);
        assert(fields_of(outer@) =~= document_tree(secrets, sorted)->Object_0);
        assert(tree_of(Json::Object(outer)) == document_tree(secrets, sorted));
    }
    let text = render_secrets(Json::Object(outer));
    assert(lists_servers(secrets, sorted));
    text
}

// ---------------------------------------------------------------------------
// The store
// ---------------------------------------------------------------------------

/// The credentials in memory: locked without a key.
pub struct CredentialStore {
    pub key: Option<Vec<u8>>,
    pub salt: Option<Vec<u8>>,
    pub servers: Registry<ServerCredentials>,
}

#[verifier::ext_equal]
pub struct CredentialView {
    pub key: Option<Seq<u8>>,
    pub salt: Option<Seq<u8>>,
    pub secrets: Secrets,
}

impl View for CredentialStore {
    type V = CredentialView;

    open spec fn view(&self) -> CredentialView {
        CredentialView {
            key: opt_view(self.key),
            salt: opt_view(self.salt),
            secrets: secrets_of(self.servers@),
        }
    }
}

/// A change that is to be written: the file, and the secrets before the change, to which
/// the store goes back where the file cannot be written.
pub struct PendingWrite {
    pub file: Vec<u8>,
    pub previous: Registry<ServerCredentials>,
}

/// A vault under a new master password, to be taken over once its file is written.
pub struct Rekeyed {
    pub file: Vec<u8>,
    pub key: Vec<u8>,
    pub salt: Vec<u8>,
    pub servers: Registry<ServerCredentials>,
}

impl PendingWrite {
    /// Gives up the secrets before the change, once the file is written.
    pub fn wipe(&mut self)
        ensures
            final(self).file@ == old(self).file@,
            secrets_of(final(self).previous@) == Map::<
                Seq<char>,
                ServerCredentialsView,
            >::empty(),
    {
        wipe_servers(&mut self.previous);
        assert(secrets_of(self.previous@) =~= Map::empty());
    }
}

impl Rekeyed {
    /// Gives up the key and the secrets, where the file could not be written.
    pub fn wipe(&mut self)
        ensures
            final(self).file@ == old(self).file@,
            final(self).salt@ == old(self).salt@,
            final(self).key@.len() == 0,
            secrets_of(final(self).servers@) == Map::<
                Seq<char>,
                ServerCredentialsView,
            >::empty(),
    {
        wipe_bytes(&mut self.key);
        wipe_servers(&mut self.servers);
        assert(secrets_of(self.servers@) =~= Map::empty());
    }
}

pub open spec fn password_verdict(password: Seq<char>) -> Result<(), Seq<char>> {
    if password.len() < MIN_MASTER_PASSWORD_LENGTH {
        Err(PASSWORD_TOO_SHORT@)
    } else {
        Ok(())
    }
}

pub fn validate_password(password: &str) -> (res: Result<(), String>)
    ensures
        error_result(res) == password_verdict(password@),
{
    if password.unicode_len() < MIN_MASTER_PASSWORD_LENGTH {
        Err(copy(PASSWORD_TOO_SHORT))
    } else {
        Ok(())
    }
}

/// An empty secret is none.
pub open spec fn normalized(value: Option<Seq<char>>) -> Option<Seq<char>> {
    match value {
        Some(text) => if text.len() == 0 {
            None
        } else {
            Some(text)
        },
        None => None,
    }
}

pub open spec fn str_view(value: Option<&str>) -> Option<Seq<char>> {
    match value {
        Some(text) => Some(text@),
        None => None,
    }
}

pub fn normalize_secret(value: Option<&str>) -> (res: Option<String>)
    ensures
        opt_view(res) == normalized(str_view(value)),
{
    match value {
        Some(text) => if text.is_empty() {
            None
        } else {
            Some(copy(text))
        },
        None => None,
    }
}

/// Whether the store is open, or why it is not.
pub open spec fn open_verdict(store: CredentialView, exists: bool) -> Result<(), Seq<char>> {
    if store.key is Some {
        Ok(())
    } else if exists {
        Err(VAULT_LOCKED@)
    } else {
        Err(VAULT_MISSING@)
    }
}

/// The secrets that a vault file holds under a password.
pub open spec fn unlocked(password: Seq<char>, file: Seq<u8>) -> Result<
    (Seq<u8>, Seq<u8>, Secrets),
    Seq<char>,
> {
    match parsed_file(file) {
        Err(error) => Err(error),
        Ok(parts) => match vault_key(password, parts.salt) {
            None => Err("Could not derive the credential encryption key: "@),
            Some(key) => match opened_file(file, key) {
                Err(error) => Err(error),
                Ok(plaintext) => match decoded(plaintext) {
                    Some(secrets) => Ok((parts.salt, key, secrets)),
                    None => Err(UNDECODABLE@),
                },
            },
        },
    }
}

/// What opening a vault file came to.
pub struct Opened {
    pub salt: Vec<u8>,
    pub key: Vec<u8>,
    pub servers: Registry<ServerCredentials>,
}

impl Opened {
    /// Gives up the key and the secrets.
    pub fn wipe(&mut self)
        ensures
            final(self).salt@ == old(self).salt@,
            final(self).key@.len() == 0,
            secrets_of(final(self).servers@) == Map::<
                Seq<char>,
                ServerCredentialsView,
            >::empty(),
    {
        wipe_bytes(&mut self.key);
        wipe_servers(&mut self.servers);
        assert(secrets_of(self.servers@) =~= Map::empty());
    }
}

/// Whether an error is the expected one; where no key could be derived, it begins as the
/// expected one does.
pub open spec fn is_error(error: Seq<char>, expected: Seq<char>) -> bool {
    error == expected || expected == "Could not derive the credential encryption key: "@
        && crate::text::starts_with(error, expected)
}

/// Opens a vault file.
pub fn decrypt_file(file: &[u8], password: &str) -> (res: Result<Opened, String>)
    ensures
        match res {
            Ok(opened) => unlocked(password@, file@) == Ok::<
                (Seq<u8>, Seq<u8>, Secrets),
                Seq<char>,
            >((opened.salt@, opened.key@, secrets_of(opened.servers@))) && opened.salt@.len()
                == SALT_LENGTH && opened.key@.len() == KEY_LENGTH,
            Err(error) => unlocked(password@, file@) matches Err(expected) && is_error(
                error@,
                expected,
            ),
        },
{
    let parts = match parse_file(file) {
        Ok(parts) => parts,
        Err(error) => {
            return Err(error);
        },
    };
    let mut key = match derive_key(password, parts.salt.as_slice()) {
        Ok(key) => key,
        Err(error) => {
            return Err(error);
        },
    };
    let mut plaintext = match open_parts(&parts, key.as_slice()) {
        Ok(plaintext) => plaintext,
        Err(error) => {
            wipe_bytes(&mut key);
            return Err(error);
        },
    };
    let json = match borrowed_text(plaintext.as_slice()) {
        Some(text) => parse_json(text),
        None => None,
    };
    wipe_bytes(&mut plaintext);
    let servers = match json {
        Some(json) => {
            let servers = read_document(&json);
            wipe_json(json);
            servers
        },
        None => None,
    };
    match servers {
        Some(servers) => Ok(Opened { salt: parts.salt, key, servers }),
        None => {
            wipe_bytes(&mut key);
            Err(copy(UNDECODABLE))
        },
    }
}

/// Whether the document of these secrets has more than the 64 GiB that can be sealed.
pub open spec fn too_large(secrets: Secrets) -> bool {
    exists|ids: Seq<Seq<char>>| #[trigger]
        lists_servers(secrets, ids) && encode_utf8(
            json_rendering(document_tree(secrets, ids)),
        ).len() > 0x10_0000_0000
}

/// Seals the secrets into a vault file.
fn sealed_file(
    servers: &Registry<ServerCredentials>,
    key: &[u8],
    salt: &[u8],
    nonce: &[u8],
) -> (res: Result<Vec<u8>, String>)
    requires
        key@.len() == KEY_LENGTH,
        salt@.len() == SALT_LENGTH,
        nonce@.len() == NONCE_LENGTH,
    ensures
        match res {
            Ok(file) => holds_secrets(file@, key@, salt@, secrets_of(servers@)),
            Err(error) => too_large(secrets_of(servers@)) && error@
                == "Could not encrypt the credential vault"@,
        },
{
    let mut text = document_text(servers);
    proof {
        encode_utf8_valid_utf8(text@);
        encode_utf8_decode_utf8(text@);
    }
    let file = seal(key, salt, nonce, text.as_str().as_bytes());
    wipe_text(&mut text);
    file
}

/// Whether a vault file, opened with this key, gives back these secrets.
pub open spec fn holds_secrets(
    file: Seq<u8>,
    key: Seq<u8>,
    salt: Seq<u8>,
    secrets: Secrets,
) -> bool {
    &&& parsed_file(file) matches Ok(parts) && parts.salt == salt
    &&& opened_file(file, key) matches Ok(plaintext) && decoded(plaintext) == Some(secrets)
}

/// What was written under a master password is read back under it.
pub proof fn vaults_read_back(password: Seq<char>, file: Seq<u8>, salt: Seq<u8>, secrets: Secrets)
    requires
        vault_key(password, salt) matches Some(key) && holds_secrets(file, key, salt, secrets),
    ensures
        unlocked(password, file) == Ok::<(Seq<u8>, Seq<u8>, Secrets), Seq<char>>(
            (salt, vault_key(password, salt)->Some_0, secrets),
        ),
{
}

/// The secrets of a server after an update: what is given replaces what was there, an
/// empty text takes it away, and for a new server what is not given is none.
pub open spec fn updated_credentials(
    secrets: Secrets,
    id: Seq<char>,
    is_new: bool,
    password: Option<Seq<char>>,
    key_passphrase: Option<Seq<char>>,
    sudo_password: Option<Seq<char>>,
) -> ServerCredentialsView {
    let old = if secrets.dom().contains(id) {
        secrets[id]
    } else {
        ServerCredentialsView { password: None, key_passphrase: None, sudo_password: None }
    };
    ServerCredentialsView {
        password: if is_new || password is Some {
            normalized(password)
        } else {
            old.password
        },
        key_passphrase: if is_new || key_passphrase is Some {
            normalized(key_passphrase)
        } else {
            old.key_passphrase
        },
        sudo_password: if is_new || sudo_password is Some {
            normalized(sudo_password)
        } else {
            old.sudo_password
        },
    }
}

/// A server without secrets has no entry.
pub open spec fn with_server(
    secrets: Secrets,
    id: Seq<char>,
    credentials: ServerCredentialsView,
) -> Secrets {
    if credentials.password is None && credentials.key_passphrase is None
        && credentials.sudo_password is None {
        secrets.remove(id)
    } else {
        secrets.insert(id, credentials)
    }
}

/// The secret of a server in a slot.
pub open spec fn slot_secret(secrets: Secrets, id: Seq<char>, slot: Seq<char>) -> Result<
    Option<Seq<char>>,
    Seq<char>,
> {
    if !secrets.dom().contains(id) {
        Ok(None)
    } else if slot == "password"@ {
        Ok(normalized(secrets[id].password))
    } else if slot == "key-passphrase"@ {
        Ok(normalized(secrets[id].key_passphrase))
    } else if slot == "sudo-password"@ {
        Ok(normalized(secrets[id].sudo_password))
    } else {
        Err("Unknown credential type"@)
    }
}

/// What reading a secret comes to: nothing where no vault was made, and an error where it
/// is locked.
pub open spec fn stored_secret(
    store: CredentialView,
    exists: bool,
    id: Seq<char>,
    slot: Seq<char>,
) -> Result<Option<Seq<char>>, Seq<char>> {
    if store.key is None {
        if exists {
            Err(VAULT_LOCKED@)
        } else {
            Ok(None)
        }
    } else {
        slot_secret(store.secrets, id, slot)
    }
}

pub open spec fn optional_text_result(res: Result<Option<String>, String>) -> Result<
    Option<Seq<char>>,
    Seq<char>,
> {
    match res {
        Ok(value) => Ok(opt_view(value)),
        Err(error) => Err(error@),
    }
}

impl CredentialStore {
    /// An open store has a key and a salt of the right lengths.
    pub open spec fn well_formed(self) -> bool {
        &&& self.key is Some <==> self.salt is Some
        &&& self.key matches Some(key) ==> key@.len() == KEY_LENGTH
        &&& self.salt matches Some(salt) ==> salt@.len() == SALT_LENGTH
    }

    /// A store that is locked and holds nothing.
    pub fn open() -> (res: Self)
        ensures
            res.well_formed(),
            res@ == (CredentialView { key: None, salt: None, secrets: Map::empty() }),
    {
        let servers: Registry<ServerCredentials> = Registry::new();
        assert(secrets_of(servers@) =~= Map::empty());
        CredentialStore { key: None, salt: None, servers }
    }

    /// Whether a vault exists, and whether it is open.
    pub fn status(&self, exists: bool) -> (res: CredentialStatus)
        ensures
            res.configured == exists,
            res.unlocked == (self@.key is Some),
    {
        CredentialStatus { configured: exists, unlocked: self.key.is_some() }
    }

    pub fn ensure_unlocked(&self, exists: bool) -> (res: Result<(), String>)
        ensures
            error_result(res) == open_verdict(self@, exists),
    {
        if self.key.is_some() {
            Ok(())
        } else if exists {
            Err(copy(VAULT_LOCKED))
        } else {
            Err(copy(VAULT_MISSING))
        }
    }

    /// Opens the vault in `file`, or, where there is none, makes a new one with the salt
    /// `fresh_salt`. On an error the store is as it was.
    pub fn unlock_with(&mut self, password: &str, file: Option<&[u8]>, fresh_salt: Vec<u8>) -> (res:
        Result<CredentialStatus, String>)
        requires
            old(self).well_formed(),
            fresh_salt@.len() == SALT_LENGTH,
        ensures
            final(self).well_formed(),
            match unlock_outcome(
                password@,
                match file {
                    Some(bytes) => Some(bytes@),
                    None => None,
                },
                fresh_salt@,
            ) {
                Ok((salt, key, secrets)) => res == Ok::<CredentialStatus, String>(
                    CredentialStatus { configured: file is Some, unlocked: true },
                ) && final(self)@ == (CredentialView {
                    key: Some(key),
                    salt: Some(salt),
                    secrets,
                }),
                Err(expected) => final(self)@ == old(self)@ && (res matches Err(error) && is_error(
                    error@,
                    expected,
                )),
            },
    {
        match validate_password(password) {
            Ok(()) => {},
            Err(error) => {
                return Err(error);
            },
        }
        match file {
            Some(bytes) => match decrypt_file(bytes, password) {
                Ok(opened) => {
                    self.clear();
                    self.salt = Some(opened.salt);
                    self.key = Some(opened.key);
                    self.servers = opened.servers;
                    Ok(CredentialStatus { configured: true, unlocked: true })
                },
                Err(error) => Err(error),
            },
            None => match derive_key(password, fresh_salt.as_slice()) {
                Ok(key) => {
                    self.clear();
                    self.key = Some(key);
                    self.salt = Some(fresh_salt);
                    Ok(CredentialStatus { configured: false, unlocked: true })
                },
                Err(error) => Err(error),
            },
        }
    }

    /// Opens the vault in `file`, or makes a new one with a random salt.
    pub fn unlock(&mut self, password: &str, file: Option<&[u8]>) -> (res: Result<
        CredentialStatus,
        String,
    >)
        requires
            old(self).well_formed(),
        ensures
            final(self).well_formed(),
            password_verdict(password@) matches Err(error) ==> final(self)@ == old(self)@ && (
            res matches Err(said) && said@ == error),
            res matches Ok(status) ==> status.configured == (file is Some) && status.unlocked
                && final(self)@.key is Some,
            res is Err ==> final(self)@ == old(self)@,
            file matches Some(bytes) ==> password_verdict(password@) is Ok ==> match unlocked(
                password@,
                bytes@,
            ) {
                Ok((salt, key, secrets)) => res is Ok && final(self)@ == (CredentialView {
                    key: Some(key),
                    salt: Some(salt),
                    secrets,
                }),
                Err(expected) => res matches Err(error) && is_error(error@, expected),
            },
            file is None && password_verdict(password@) is Ok ==> exists|salt: Seq<u8>|
                salt.len() == SALT_LENGTH && match #[trigger] vault_key(password@, salt) {
                    Some(key) => res == Ok::<CredentialStatus, String>(
                        CredentialStatus { configured: false, unlocked: true },
                    ) && final(self)@ == (CredentialView {
                        key: Some(key),
                        salt: Some(salt),
                        secrets: Map::empty(),
                    }),
                    None => final(self)@ == old(self)@ && (res matches Err(error) && is_error(
                        error@,
                        "Could not derive the credential encryption key: "@,
                    )),
                },
    {
        let salt = random_bytes(SALT_LENGTH);
        proof {
            reveal_strlit("A master password must be at least 8 characters long.");
            reveal_strlit("Could not derive the credential encryption key: ");
            assert(PASSWORD_TOO_SHORT@[0] != "Could not derive the credential encryption key: "@[0]);
        }
        self.unlock_with(password, file, salt)
    }

    /// The secret of a server. `exists` says whether a vault file exists.
    pub fn get(&self, exists: bool, server_id: &str, slot: &str) -> (res: Result<
        Option<String>,
        String,
    >)
        ensures
            optional_text_result(res) == stored_secret(self@, exists, server_id@, slot@),
    {
        if self.key.is_none() {
            if exists {
                return Err(copy(VAULT_LOCKED));
            }
            return Ok(None);
        }
        match self.servers.get(server_id) {
            None => Ok(None),
            Some(credentials) => {
                if same(slot, "password") {
                    Ok(nonempty(&credentials.password))
                } else if same(slot, "key-passphrase") {
                    Ok(nonempty(&credentials.key_passphrase))
                } else if same(slot, "sudo-password") {
                    Ok(nonempty(&credentials.sudo_password))
                } else {
                    Err(copy("Unknown credential type"))
                }
            },
        }
    }

    fn copy_servers(&self) -> (res: Registry<ServerCredentials>)
        ensures
            secrets_of(res@) == self@.secrets,
    {
        let names = self.servers.names();
        let ghost all = views(names@);
        let mut out: Registry<ServerCredentials> = Registry::new();
        let mut i: usize = 0;
        while i < names.len()
            invariant
                i <= names@.len(),
                all == views(names@),
                all.no_duplicates(),
                forall|id: Seq<char>| #[trigger]
                    all.contains(id) <==> self.servers@.dom().contains(id),
                forall|id: Seq<char>| #[trigger]
                    out@.dom().contains(id) <==> all.take(i as int).contains(id),
                forall|id: Seq<char>| #[trigger]
                    out@.dom().contains(id) ==> out@[id]@ == self.servers@[id]@,
            decreases names@.len() - i,
        {
            let ghost id = all[i as int];
            let ghost before = out@;
            assert(all.contains(id));
            match self.servers.get(names[i].as_str()) {
                Some(credentials) => {
                    out.insert(names[i].as_str(), copy_credentials(credentials));
                },
                None => {},
            }
            proof {
                let done = all.take(i as int);
                let next = all.take(i + 1);
                assert(next =~= done.push(id));
                assert forall|other: Seq<char>| #[trigger]
                    out@.dom().contains(other) <==> next.contains(other) by {
                    assert(before.dom().contains(other) <==> done.contains(other));
                    if done.contains(other) {
                        let k = choose|k: int| 0 <= k < done.len() && done[k] == other;
                        assert(next[k] == other);
                    }
                    if next.contains(other) {
                        let k = choose|k: int| 0 <= k < next.len() && next[k] == other;
                        if k < done.len() {
                            assert(done[k] == other);
                        }
                    }
                    if other == id {
                        assert(next[i as int] == other);
                    }
                }
            }
            i += 1;
        }
        assert(all.take(names@.len() as int) =~= all);
        assert(secrets_of(out@) =~= self@.secrets);
        out
    }

    /// Goes back to the secrets before a change whose file could not be written.
    pub fn rollback(&mut self, pending: PendingWrite)
        requires
            old(self).well_formed(),
        ensures
            final(self).well_formed(),
            final(self)@ == (CredentialView {
                key: old(self)@.key,
                salt: old(self)@.salt,
                secrets: secrets_of(pending.previous@),
            }),
    {
        wipe_servers(&mut self.servers);
        self.servers = pending.previous;
    }

    /// Seals the secrets under the nonce.
    fn persist(&self, nonce: &[u8]) -> (res: Result<Vec<u8>, String>)
        requires
            self.well_formed(),
            self.key is Some,
            nonce@.len() == NONCE_LENGTH,
        ensures
            match res {
                Ok(file) => holds_secrets(
                    file@,
                    self@.key->Some_0,
                    self@.salt->Some_0,
                    self@.secrets,
                ),
                Err(error) => too_large(self@.secrets) && error@
                    == "Could not encrypt the credential vault"@,
            },
    {
        match (&self.key, &self.salt) {
            (Some(key), Some(salt)) => sealed_file(
                &self.servers,
                key.as_slice(),
                salt.as_slice(),
                nonce,
            ),
            _ => {
                assert(false);
                Err(String::new())
            },
        }
    }

    /// Changes the secrets of a server. The file that holds the change is to be written;
    /// where that fails, the change is rolled back.
    pub fn update_server(
        &mut self,
        exists: bool,
        server_id: &str,
        is_new: bool,
        password: Option<&str>,
        key_passphrase: Option<&str>,
        sudo_password: Option<&str>,
    ) -> (res: Result<PendingWrite, String>)
        requires
            old(self).well_formed(),
        ensures
            final(self).well_formed(),
            final(self)@.key == old(self)@.key,
            final(self)@.salt == old(self)@.salt,
            match res {
                Ok(pending) => {
                    &&& open_verdict(old(self)@, exists) is Ok
                    &&& final(self)@.secrets == with_server(
                        old(self)@.secrets,
                        server_id@,
                        updated_credentials(
                            old(self)@.secrets,
                            server_id@,
                            is_new,
                            str_view(password),
                            str_view(key_passphrase),
                            str_view(sudo_password),
                        ),
                    )
                    &&& secrets_of(pending.previous@) == old(self)@.secrets
                    &&& holds_secrets(
                        pending.file@,
                        old(self)@.key->Some_0,
                        old(self)@.salt->Some_0,
                        final(self)@.secrets,
                    )
                },
                Err(error) => final(self)@ == old(self)@ && (open_verdict(old(self)@, exists)
                    == Err::<(), Seq<char>>(error@) || error@
                    == "Could not encrypt the credential vault"@ && too_large(
                    with_server(
                        old(self)@.secrets,
                        server_id@,
                        updated_credentials(
                            old(self)@.secrets,
                            server_id@,
                            is_new,
                            str_view(password),
                            str_view(key_passphrase),
                            str_view(sudo_password),
                        ),
                    ),
                )),
            },
    {
        match self.ensure_unlocked(exists) {
            Ok(()) => {},
            Err(error) => {
                return Err(error);
            },
        }
        let previous = self.copy_servers();
        let ghost before = self@.secrets;
        let ghost table = self.servers@;
        let mut credentials = match self.servers.get(server_id) {
            Some(found) => copy_credentials(found),
            None => ServerCredentials { password: None, key_passphrase: None, sudo_password: None },
        };
        if is_new || password.is_some() {
            wipe_held_text(&mut credentials.password);
            credentials.password = normalize_secret(password);
        }
        if is_new || key_passphrase.is_some() {
            wipe_held_text(&mut credentials.key_passphrase);
            credentials.key_passphrase = normalize_secret(key_passphrase);
        }
        if is_new || sudo_password.is_some() {
            wipe_held_text(&mut credentials.sudo_password);
            credentials.sudo_password = normalize_secret(sudo_password);
        }
        assert(credentials@ == updated_credentials(
            before,
            server_id@,
            is_new,
            str_view(password),
            str_view(key_passphrase),
            str_view(sudo_password),
        ));
        if credentials.password.is_none() && credentials.key_passphrase.is_none()
            && credentials.sudo_password.is_none() {
            drop_credentials(&mut self.servers, server_id);
        } else {
            put_credentials(&mut self.servers, server_id, credentials);
        }
        assert(self@.secrets =~= with_server(before, server_id@, credentials@));
        let nonce = random_bytes(NONCE_LENGTH);
        match self.persist(nonce.as_slice()) {
            Ok(file) => Ok(PendingWrite { file, previous }),
            Err(error) => {
                wipe_servers(&mut self.servers);
                self.servers = previous;
                Err(error)
            },
        }
    }

    /// Takes the secrets of a server away. Without a vault file there is nothing to write.
    pub fn remove_server(&mut self, exists: bool, server_id: &str) -> (res: Result<
        Option<PendingWrite>,
        String,
    >)
        requires
            old(self).well_formed(),
        ensures
            final(self).well_formed(),
            final(self)@.key == old(self)@.key,
            final(self)@.salt == old(self)@.salt,
            match res {
                Ok(None) => !exists && final(self)@.secrets == old(self)@.secrets.remove(server_id@),
                Ok(Some(pending)) => {
                    &&& exists && old(self)@.key is Some
                    &&& final(self)@.secrets == old(self)@.secrets.remove(server_id@)
                    &&& secrets_of(pending.previous@) == old(self)@.secrets
                    &&& holds_secrets(
                        pending.file@,
                        old(self)@.key->Some_0,
                        old(self)@.salt->Some_0,
                        final(self)@.secrets,
                    )
                },
                Err(error) => exists && final(self)@ == old(self)@ && (open_verdict(
                    old(self)@,
                    exists,
                ) == Err::<(), Seq<char>>(error@) || error@
                    == "Could not encrypt the credential vault"@ && too_large(
                    old(self)@.secrets.remove(server_id@),
                )),
            },
    {
        let ghost before = self@.secrets;
        if !exists {
            drop_credentials(&mut self.servers, server_id);
            assert(self@.secrets =~= before.remove(server_id@));
            return Ok(None);
        }
        match self.ensure_unlocked(exists) {
            Ok(()) => {},
            Err(error) => {
                return Err(error);
            },
        }
        let previous = self.copy_servers();
        drop_credentials(&mut self.servers, server_id);
        assert(self@.secrets =~= before.remove(server_id@));
        let nonce = random_bytes(NONCE_LENGTH);
        match self.persist(nonce.as_slice()) {
            Ok(file) => Ok(Some(PendingWrite { file, previous })),
            Err(error) => {
                wipe_servers(&mut self.servers);
                self.servers = previous;
                Err(error)
            },
        }
    }

    /// Takes over a vault whose file was written.
    pub fn adopt(&mut self, rekeyed: Rekeyed) -> (res: CredentialStatus)
        requires
            rekeyed.key@.len() == KEY_LENGTH,
            rekeyed.salt@.len() == SALT_LENGTH,
        ensures
            final(self).well_formed(),
            final(self)@ == (CredentialView {
                key: Some(rekeyed.key@),
                salt: Some(rekeyed.salt@),
                secrets: secrets_of(rekeyed.servers@),
            }),
            res == (CredentialStatus { configured: true, unlocked: true }),
    {
        self.clear();
        self.key = Some(rekeyed.key);
        self.salt = Some(rekeyed.salt);
        self.servers = rekeyed.servers;
        CredentialStatus { configured: true, unlocked: true }
    }

    /// Locks the store and forgets everything, as after the vault was removed.
    pub fn clear(&mut self)
        ensures
            final(self).well_formed(),
            final(self)@ == (CredentialView { key: None, salt: None, secrets: Map::empty() }),
    {
        wipe_held_bytes(&mut self.key);
        self.salt = None;
        wipe_servers(&mut self.servers);
        assert(secrets_of(self.servers@) =~= Map::empty());
    }
}

fn nonempty(value: &Option<String>) -> (res: Option<String>)
    ensures
        opt_view(res) == normalized(opt_view(*value)),
{
    match value {
        Some(text) => if text.as_str().is_empty() {
            None
        } else {
            Some(text.clone())
        },
        None => None,
    }
}

/// What unlocking comes to.
pub open spec fn unlock_outcome(
    password: Seq<char>,
    file: Option<Seq<u8>>,
    fresh_salt: Seq<u8>,
) -> Result<(Seq<u8>, Seq<u8>, Secrets), Seq<char>> {
    match password_verdict(password) {
        Err(error) => Err(error),
        Ok(()) => match file {
            Some(bytes) => unlocked(password, bytes),
            None => match vault_key(password, fresh_salt) {
                Some(key) => Ok((fresh_salt, key, Map::empty())),
                None => Err("Could not derive the credential encryption key: "@),
            },
        },
    }
}

/// Whether a vault was sealed anew under this password, salt and key: it holds the secrets,
/// and its file opens to them.
pub open spec fn rekeyed_to(
    rekeyed: Rekeyed,
    password: Seq<char>,
    salt: Seq<u8>,
    key: Seq<u8>,
    secrets: Secrets,
) -> bool {
    &&& rekeyed.salt@ == salt
    &&& rekeyed.key@ == key && key.len() == KEY_LENGTH
    &&& secrets_of(rekeyed.servers@) == secrets
    &&& unlocked(password, rekeyed.file@) == Ok::<(Seq<u8>, Seq<u8>, Secrets), Seq<char>>(
        (salt, key, secrets),
    )
}

/// Seals the vault in `file` under a new master password. That the old one does not open
/// the new file is not stated: it rests on the strength of the key derivation and the cipher.
pub fn change_master_password(current: &str, new: &str, file: Option<&[u8]>) -> (res: Result<
    Rekeyed,
    String,
>)
    ensures
        match (password_verdict(current@), password_verdict(new@)) {
            (Err(short), _) => res matches Err(error) && error@ == short,
            (_, Err(short)) => res matches Err(error) && error@ == short,
            _ => match file {
                None => res matches Err(error) && error@ == NOTHING_TO_CHANGE@,
                Some(bytes) => match unlocked(current@, bytes@) {
                    Err(expected) => res matches Err(error) && is_error(error@, expected),
                    Ok((_, _, secrets)) => exists|salt: Seq<u8>|
                        salt.len() == SALT_LENGTH && match #[trigger] vault_key(new@, salt) {
                            Some(key) => match res {
                                Ok(rekeyed) => rekeyed_to(rekeyed, new@, salt, key, secrets),
                                Err(error) => too_large(secrets) && error@
                                    == "Could not encrypt the credential vault"@,
                            },
                            None => res matches Err(error) && is_error(
                                error@,
                                "Could not derive the credential encryption key: "@,
                            ),
                        },
                },
            },
        },
{
    match validate_password(current) {
        Ok(()) => {},
        Err(error) => {
            return Err(error);
        },
    }
    match validate_password(new) {
        Ok(()) => {},
        Err(error) => {
            return Err(error);
        },
    }
    let bytes = match file {
        Some(bytes) => bytes,
        None => {
            return Err(copy(NOTHING_TO_CHANGE));
        },
    };
    let mut opened = match decrypt_file(bytes, current) {
        Ok(opened) => opened,
        Err(error) => {
            return Err(error);
        },
    };
    wipe_bytes(&mut opened.key);
    let salt = random_bytes(SALT_LENGTH);
    let mut key = match derive_key(new, salt.as_slice()) {
        Ok(key) => key,
        Err(error) => {
            opened.wipe();
            return Err(error);
        },
    };
    let nonce = random_bytes(NONCE_LENGTH);
    match sealed_file(&opened.servers, key.as_slice(), salt.as_slice(), nonce.as_slice()) {
        Ok(file) => {
            proof {
                vaults_read_back(new@, file@, salt@, secrets_of(opened.servers@));
            }
            Ok(Rekeyed { file, key, salt, servers: opened.servers })
        },
        Err(error) => {
            wipe_bytes(&mut key);
            opened.wipe();
            Err(error)
        },
    }
}

/// Whether the vault may be removed: only by who knows its master password. Without a
/// vault there is nothing to remove. The result says whether there is a file to remove.
pub fn reset(password: &str, file: Option<&[u8]>) -> (res: Result<bool, String>)
    ensures
        match password_verdict(password@) {
            Err(short) => res matches Err(error) && error@ == short,
            Ok(()) => match file {
                None => res == Ok::<bool, String>(false),
                Some(bytes) => match unlocked(password@, bytes@) {
                    Ok(_) => res == Ok::<bool, String>(true),
                    Err(expected) => res matches Err(error) && is_error(error@, expected),
                },
            },
        },
{
    match validate_password(password) {
        Ok(()) => {},
        Err(error) => {
            return Err(error);
        },
    }
    match file {
        None => Ok(false),
        Some(bytes) => match decrypt_file(bytes, password) {
            Ok(mut opened) => {
                opened.wipe();
                Ok(true)
            },
            Err(error) => Err(error),
        },
    }
}

// ---------------------------------------------------------------------------
// Laws
// ---------------------------------------------------------------------------

/// A secret that was stored is given back, in each slot, until it is changed.
pub proof fn stored_secrets_are_given_back(
    secrets: Secrets,
    id: Seq<char>,
    is_new: bool,
    password: Seq<char>,
    key_passphrase: Seq<char>,
    sudo_password: Seq<char>,
)
    requires
        password.len() > 0,
        key_passphrase.len() > 0,
        sudo_password.len() > 0,
    ensures
        ({
            let after = with_server(
                secrets,
                id,
                updated_credentials(
                    secrets,
                    id,
                    is_new,
                    Some(password),
                    Some(key_passphrase),
                    Some(sudo_password),
                ),
            );
            &&& slot_secret(after, id, "password"@) == Ok::<Option<Seq<char>>, Seq<char>>(
                Some(password),
            )
            &&& slot_secret(after, id, "key-passphrase"@) == Ok::<Option<Seq<char>>, Seq<char>>(
                Some(key_passphrase),
            )
            &&& slot_secret(after, id, "sudo-password"@) == Ok::<Option<Seq<char>>, Seq<char>>(
                Some(sudo_password),
            )
        }),
{
    reveal_strlit("password");
    reveal_strlit("key-passphrase");
    reveal_strlit("sudo-password");
    assert("password"@.len() != "key-passphrase"@.len());
    assert("password"@.len() != "sudo-password"@.len());
    assert("key-passphrase"@.len() != "sudo-password"@.len());
}

/// Storing the secrets of one server leaves those of every other as they were.
pub proof fn other_servers_keep_their_secrets(
    secrets: Secrets,
    id: Seq<char>,
    credentials: ServerCredentialsView,
    other: Seq<char>,
    slot: Seq<char>,
)
    requires
        other != id,
    ensures
        slot_secret(with_server(secrets, id, credentials), other, slot) == slot_secret(
            secrets,
            other,
            slot,
        ),
{
}

/// After a server was removed, none of its secrets is left.
pub proof fn removed_servers_have_no_secrets(secrets: Secrets, id: Seq<char>, slot: Seq<char>)
    ensures
        slot_secret(secrets.remove(id), id, slot) == Ok::<Option<Seq<char>>, Seq<char>>(None),
{
}

/// A secret that is not named stays, one that is left blank is taken out, and another takes
/// its place, each in its own slot; a new server begins without any.
pub proof fn only_named_secrets_change(
    secrets: Secrets,
    id: Seq<char>,
    secret: Seq<char>,
)
    requires
        secret.len() > 0,
    ensures
        ({
            let none = Option::<Seq<char>>::None;
            let blank = Some(Seq::<char>::empty());
            let old = if secrets.dom().contains(id) {
                secrets[id]
            } else {
                ServerCredentialsView { password: None, key_passphrase: None, sudo_password: None }
            };
            &&& updated_credentials(secrets, id, false, none, none, none) == old
            &&& updated_credentials(secrets, id, false, Some(secret), none, none) == (
            ServerCredentialsView { password: Some(secret), ..old })
            &&& updated_credentials(secrets, id, false, none, Some(secret), none) == (
            ServerCredentialsView { key_passphrase: Some(secret), ..old })
            &&& updated_credentials(secrets, id, false, none, none, Some(secret)) == (
            ServerCredentialsView { sudo_password: Some(secret), ..old })
            &&& updated_credentials(secrets, id, false, blank, none, none) == (
            ServerCredentialsView { password: None, ..old })
            &&& updated_credentials(secrets, id, false, none, blank, none) == (
            ServerCredentialsView { key_passphrase: None, ..old })
            &&& updated_credentials(secrets, id, false, none, none, blank) == (
            ServerCredentialsView { sudo_password: None, ..old })
            &&& updated_credentials(secrets, id, true, none, none, none) == (
            ServerCredentialsView { password: None, key_passphrase: None, sudo_password: None })
            &&& updated_credentials(secrets, id, true, Some(secret), none, none) == (
            ServerCredentialsView {
                password: Some(secret),
                key_passphrase: None,
                sudo_password: None,
            })
        }),
{
}

/// Without the master password nothing is given away: a locked vault is said to be locked,
/// and where there is none there are no secrets. A master password has at least eight
/// characters.
pub proof fn locked_vaults_give_nothing_away(
    store: CredentialView,
    id: Seq<char>,
    slot: Seq<char>,
    password: Seq<char>,
    file: Option<Seq<u8>>,
    salt: Seq<u8>,
)
    ensures
        store.key is None ==> stored_secret(store, true, id, slot) == Err::<
            Option<Seq<char>>,
            Seq<char>,
        >("MASTER_PASSWORD_REQUIRED: Unlock the credential vault to continue."@),
        store.key is None ==> stored_secret(store, false, id, slot) == Ok::<
            Option<Seq<char>>,
            Seq<char>,
        >(None),
        store.key is None ==> open_verdict(store, true) == Err::<(), Seq<char>>(
            "MASTER_PASSWORD_REQUIRED: Unlock the credential vault to continue."@,
        ),
        store.key is None ==> open_verdict(store, false) == Err::<(), Seq<char>>(
            "MASTER_PASSWORD_SETUP_REQUIRED: Create a master password to protect saved credentials."@,
        ),
        store.key is Some ==> open_verdict(store, true) is Ok && open_verdict(store, false) is Ok,
        store.key is Some && store.secrets.dom().contains(id) ==> (stored_secret(
            store,
            true,
            id,
            slot,
        ) is Ok <==> slot == "password"@ || slot == "key-passphrase"@ || slot == "sudo-password"@),
        password_verdict(password) is Ok <==> password.len() >= 8,
        password.len() < 8 ==> unlock_outcome(password, file, salt) is Err,
        password.len() >= 8 && file is None && vault_key(password, salt) is Some
            ==> unlock_outcome(password, file, salt) == Ok::<
            (Seq<u8>, Seq<u8>, Secrets),
            Seq<char>,
        >((salt, vault_key(password, salt)->Some_0, Map::empty())),
{
}

/// A vault opens to what it holds under the key of the password and its own salt, and to
/// nothing else: where the key does not fit it stays shut.
pub proof fn vaults_open_under_their_key(password: Seq<char>, file: Seq<u8>)
    ensures
        unlocked(password, file) matches Ok((salt, key, secrets)) ==> {
            &&& file.len() > 50
            &&& salt == file.subrange(22, 38)
            &&& vault_key(password, salt) == Some(key)
            &&& aes_opened(key, file.subrange(38, 50), file.skip(50)) matches Some(plaintext)
                && decoded(plaintext) == Some(secrets)
        },
        file.len() > 50 && file.take(21) == encode_utf8("SERVERBOX-CREDENTIALS"@) && file[21] == 1
            ==> (vault_key(password, file.subrange(22, 38)) matches Some(key) ==> aes_opened(
            key,
            file.subrange(38, 50),
            file.skip(50),
        ) is None ==> unlocked(password, file) == Err::<(Seq<u8>, Seq<u8>, Secrets), Seq<char>>(
            "MASTER_PASSWORD_INVALID: The master password is incorrect or the credential vault is damaged."@,
        )),
{
}

/// Each secret stands in the document under its own name.
pub proof fn secrets_stand_under_their_names(credentials: ServerCredentialsView)
    ensures
        credentials_tree(credentials) matches Tree::Object(fields) && {
            &&& fields.len() == 3
            &&& fields[0] == ("key_passphrase"@, secret_tree(credentials.key_passphrase))
            &&& fields[1] == ("password"@, secret_tree(credentials.password))
            &&& fields[2] == ("sudo_password"@, secret_tree(credentials.sudo_password))
        },
        secret_tree(None) is Null,
        forall|text: Seq<char>| #[trigger] secret_tree(Some(text)) == Tree::Text(text),
{
}

} // verus!
