//! The errors that the interface tells apart. Whether an error asks for a host-key
//! review, the master password or a decision on an upload is a kind of its own, and
//! text from a server can never be taken for one of these.
use crate::json::{
    entries_are, entry, field_of, fields_of, get_entry, get_texts, has_entries, json_document,
    json_rendering, lemma_plain_deeper, list_of, list_tree, lists_read_back, parse_json, plain,
    render_json, texts, tree_of, Json, Tree,
};
use crate::sorting::text_before;
use crate::ssh::{control_markers, has_marker};
use crate::text::{
    after_prefix, chars_of, contains_text, copy, is_space, matches_at, opt_view, starts_with,
    string_of, strip_prefix, trim, trim_str, trimming_takes_off_spaces, views,
};
use vstd::prelude::*;

verus! {

broadcast use vstd::string::group_string_axioms;

#[derive(Debug, PartialEq, Eq)]
pub enum AppError {
    Message { message: String },
    MasterPasswordRequired { message: String },
    MasterPasswordSetupRequired { message: String },
    MasterPasswordInvalid { message: String },
    HostKeyMismatch {
        host: String,
        port: u16,
        key_type: String,
        old_fingerprints: Vec<String>,
        new_fingerprint: String,
    },
    HostKeyUnknown { host: String, port: u16, key_type: String, fingerprint: String },
    UploadConflict { paths: Vec<String>, count: usize },
}

#[verifier::ext_equal]
pub enum AppErrorView {
    Message { message: Seq<char> },
    MasterPasswordRequired { message: Seq<char> },
    MasterPasswordSetupRequired { message: Seq<char> },
    MasterPasswordInvalid { message: Seq<char> },
    HostKeyMismatch {
        host: Seq<char>,
        port: u16,
        key_type: Seq<char>,
        old_fingerprints: Seq<Seq<char>>,
        new_fingerprint: Seq<char>,
    },
    HostKeyUnknown { host: Seq<char>, port: u16, key_type: Seq<char>, fingerprint: Seq<char> },
    UploadConflict { paths: Seq<Seq<char>>, count: usize },
}

impl View for AppError {
    type V = AppErrorView;

    open spec fn view(&self) -> AppErrorView {
        match *self {
            AppError::Message { message } => AppErrorView::Message { message: message@ },
            AppError::MasterPasswordRequired { message } => AppErrorView::MasterPasswordRequired {
                message: message@,
            },
            AppError::MasterPasswordSetupRequired { message } =>
                AppErrorView::MasterPasswordSetupRequired { message: message@ },
            AppError::MasterPasswordInvalid { message } => AppErrorView::MasterPasswordInvalid {
                message: message@,
            },
            AppError::HostKeyMismatch {
                host,
                port,
                key_type,
                old_fingerprints,
                new_fingerprint,
            } => AppErrorView::HostKeyMismatch {
                host: host@,
                port,
                key_type: key_type@,
                old_fingerprints: views(old_fingerprints@),
                new_fingerprint: new_fingerprint@,
            },
            AppError::HostKeyUnknown { host, port, key_type, fingerprint } =>
                AppErrorView::HostKeyUnknown {
                    host: host@,
                    port,
                    key_type: key_type@,
                    fingerprint: fingerprint@,
                },
            AppError::UploadConflict { paths, count } => AppErrorView::UploadConflict {
                paths: views(paths@),
                count,
            },
        }
    }
}

/// The text of an entry.
pub open spec fn text_field_at(tree: Tree, key: Seq<char>, index: int) -> Option<Seq<char>> {
    match entry(tree, key, index) {
        Some(Tree::Text(text)) => Some(text),
        _ => None,
    }
}

/// A whole number of an entry that is at most `max`.
pub open spec fn whole_field(tree: Tree, key: Seq<char>, index: int, max: int) -> Option<u64> {
    match entry(tree, key, index) {
        Some(Tree::Whole(n)) => if n <= max {
            Some(n)
        } else {
            None
        },
        _ => None,
    }
}

/// The list of texts in an entry.
pub open spec fn texts_field(tree: Tree, key: Seq<char>, index: int) -> Option<Seq<Seq<char>>> {
    match entry(tree, key, index) {
        Some(item) => texts(item),
        None => None,
    }
}

/// The payload of a host-key mismatch, by names or as a list of five; among names the old
/// fingerprints may be missing.
pub open spec fn mismatch_payload(tree: Tree) -> Option<AppErrorView> {
    if !has_entries(tree, 5) {
        None
    } else {
        let old = if entry(tree, "oldFingerprints"@, 3) is None {
            Some(Seq::empty())
        } else {
            texts_field(tree, "oldFingerprints"@, 3)
        };
        match (
            text_field_at(tree, "host"@, 0),
            whole_field(tree, "port"@, 1, 0xffff),
            text_field_at(tree, "keyType"@, 2),
            old,
            text_field_at(tree, "newFingerprint"@, 4),
        ) {
            (Some(host), Some(port), Some(key_type), Some(old_fingerprints), Some(new_fingerprint)) =>
                Some(
                AppErrorView::HostKeyMismatch {
                    host,
                    port: port as u16,
                    key_type,
                    old_fingerprints,
                    new_fingerprint,
                },
            ),
            _ => None,
        }
    }
}

/// The payload of a first contact, by names or as a list of four.
pub open spec fn unknown_payload(tree: Tree) -> Option<AppErrorView> {
    if !has_entries(tree, 4) {
        None
    } else {
        match (
            text_field_at(tree, "host"@, 0),
            whole_field(tree, "port"@, 1, 0xffff),
            text_field_at(tree, "keyType"@, 2),
            text_field_at(tree, "fingerprint"@, 3),
        ) {
            (Some(host), Some(port), Some(key_type), Some(fingerprint)) => Some(
                AppErrorView::HostKeyUnknown { host, port: port as u16, key_type, fingerprint },
            ),
            _ => None,
        }
    }
}

/// The payload of an upload that would overwrite files, by names or as a list of two.
pub open spec fn conflict_payload(tree: Tree) -> Option<AppErrorView> {
    if !has_entries(tree, 2) {
        None
    } else {
        match (texts_field(tree, "paths"@, 0), whole_field(tree, "count"@, 1, usize::MAX as int)) {
            (Some(paths), Some(count)) => Some(
                AppErrorView::UploadConflict { paths, count: count as usize },
            ),
            _ => None,
        }
    }
}

/// The document behind `marker`.
pub open spec fn marked(value: Seq<char>, marker: Seq<char>) -> Option<Tree> {
    match strip_prefix(value, marker) {
        Some(payload) => json_document(payload),
        None => None,
    }
}

/// The kind of an error text.
pub open spec fn kind_of(value: Seq<char>) -> AppErrorView {
    let mismatch = match marked(value, "HOST_KEY_MISMATCH:"@) {
        Some(tree) => mismatch_payload(tree),
        None => None,
    };
    let unknown = match marked(value, "HOST_KEY_UNKNOWN:"@) {
        Some(tree) => unknown_payload(tree),
        None => None,
    };
    let conflict = match marked(value, "UPLOAD_CONFLICT:"@) {
        Some(tree) => conflict_payload(tree),
        None => None,
    };
    if mismatch is Some {
        mismatch->Some_0
    } else if unknown is Some {
        unknown->Some_0
    } else if conflict is Some {
        conflict->Some_0
    } else if let Some(rest) = strip_prefix(value, "MASTER_PASSWORD_SETUP_REQUIRED:"@) {
        AppErrorView::MasterPasswordSetupRequired { message: trim(rest) }
    } else if let Some(rest) = strip_prefix(value, "MASTER_PASSWORD_REQUIRED:"@) {
        AppErrorView::MasterPasswordRequired { message: trim(rest) }
    } else if let Some(rest) = strip_prefix(value, "MASTER_PASSWORD_INVALID:"@) {
        AppErrorView::MasterPasswordInvalid { message: trim(rest) }
    } else {
        AppErrorView::Message { message: value }
    }
}

fn text_of(json: &Json, key: &str, index: usize) -> (res: Option<String>)
    ensures
        opt_view(res) == text_field_at(json@, key@, index as int),
{
    match get_entry(json, key, index) {
        Some(item) => match item {
            Json::Text(text) => Some(text.clone()),
            _ => None,
        },
        None => None,
    }
}

fn whole_of(json: &Json, key: &str, index: usize, max: u64) -> (res: Option<u64>)
    ensures
        res == whole_field(json@, key@, index as int, max as int),
{
    match get_entry(json, key, index) {
        Some(item) => match item {
            Json::Whole(n) => if *n <= max {
                Some(*n)
            } else {
                None
            },
            _ => None,
        },
        None => None,
    }
}

fn texts_of(json: &Json, key: &str, index: usize) -> (res: Option<Vec<String>>)
    ensures
        match res {
            Some(items) => texts_field(json@, key@, index as int) == Some(views(items@)),
            None => texts_field(json@, key@, index as int) is None,
        },
{
    match get_entry(json, key, index) {
        Some(item) => get_texts(item),
        None => None,
    }
}

/// The document behind `marker`.
fn marked_document(s: &[char], marker: &str) -> (res: Option<Json>)
    ensures
        opt_view(res) == marked(s@, marker@),
{
    match after_prefix(s, marker) {
        Some(payload) => parse_json(string_of(&payload).as_str()),
        None => None,
    }
}

fn read_mismatch(json: &Json) -> (res: Option<AppError>)
    ensures
        opt_view(res) == mismatch_payload(json@),
{
    if !entries_are(json, 5) {
        return None;
    }
    let old = match get_entry(json, "oldFingerprints", 3) {
        None => {
            let none: Vec<String> = Vec::new();
            assert(views(none@) =~= Seq::empty());
            Some(none)
        },
        Some(item) => get_texts(item),
    };
    match (
        text_of(json, "host", 0),
        whole_of(json, "port", 1, 0xffff),
        text_of(json, "keyType", 2),
        old,
        text_of(json, "newFingerprint", 4),
    ) {
        (Some(host), Some(port), Some(key_type), Some(old_fingerprints), Some(new_fingerprint)) => {
            Some(
                AppError::HostKeyMismatch {
                    host,
                    port: port as u16,
                    key_type,
                    old_fingerprints,
                    new_fingerprint,
                },
            )
        },
        _ => None,
    }
}

fn read_unknown(json: &Json) -> (res: Option<AppError>)
    ensures
        opt_view(res) == unknown_payload(json@),
{
    if !entries_are(json, 4) {
        return None;
    }
    match (
        text_of(json, "host", 0),
        whole_of(json, "port", 1, 0xffff),
        text_of(json, "keyType", 2),
        text_of(json, "fingerprint", 3),
    ) {
        (Some(host), Some(port), Some(key_type), Some(fingerprint)) => Some(
            AppError::HostKeyUnknown { host, port: port as u16, key_type, fingerprint },
        ),
        _ => None,
    }
}

fn read_conflict(json: &Json) -> (res: Option<AppError>)
    ensures
        opt_view(res) == conflict_payload(json@),
{
    if !entries_are(json, 2) {
        return None;
    }
    match (texts_of(json, "paths", 0), whole_of(json, "count", 1, usize::MAX as u64)) {
        (Some(paths), Some(count)) => Some(
            AppError::UploadConflict { paths, count: count as usize },
        ),
        _ => None,
    }
}

/// The kind of an error text.
pub fn classify(value: String) -> (res: AppError)
    ensures
        res@ == kind_of(value@),
{
    let s = chars_of(value.as_str());
    if let Some(json) = marked_document(&s, "HOST_KEY_MISMATCH:") {
        if let Some(error) = read_mismatch(&json) {
            return error;
        }
    }
    if let Some(json) = marked_document(&s, "HOST_KEY_UNKNOWN:") {
        if let Some(error) = read_unknown(&json) {
            return error;
        }
    }
    if let Some(json) = marked_document(&s, "UPLOAD_CONFLICT:") {
        if let Some(error) = read_conflict(&json) {
            return error;
        }
    }
    if let Some(rest) = after_prefix(&s, "MASTER_PASSWORD_SETUP_REQUIRED:") {
        return AppError::MasterPasswordSetupRequired {
            message: trim_str(string_of(&rest).as_str()),
        };
    }
    if let Some(rest) = after_prefix(&s, "MASTER_PASSWORD_REQUIRED:") {
        return AppError::MasterPasswordRequired { message: trim_str(string_of(&rest).as_str()) };
    }
    if let Some(rest) = after_prefix(&s, "MASTER_PASSWORD_INVALID:") {
        return AppError::MasterPasswordInvalid { message: trim_str(string_of(&rest).as_str()) };
    }
    AppError::Message { message: value }
}

/// Text without a control marker, as all text from a server is, is a plain message.
pub proof fn remote_text_is_a_message(value: Seq<char>)
    requires
        !has_marker(value),
    ensures
        kind_of(value) == (AppErrorView::Message { message: value }),
{
    assert forall|i: int| 0 <= i < control_markers().len() implies !starts_with(
        value,
        #[trigger] control_markers()[i],
    ) by {
        let marker = control_markers()[i];
        if starts_with(value, marker) {
            assert(value.subrange(0, marker.len() as int) =~= value.take(marker.len() as int));
            assert(matches_at(value, marker, 0));
            assert(contains_text(value, marker));
        }
    }
    assert(!starts_with(value, control_markers()[0]));
    assert(!starts_with(value, control_markers()[1]));
    assert(!starts_with(value, control_markers()[2]));
    assert(!starts_with(value, control_markers()[3]));
    assert(!starts_with(value, control_markers()[4]));
    assert(!starts_with(value, control_markers()[5]));
}

// ---------------------------------------------------------------------------
// Prompts
// ---------------------------------------------------------------------------

/// The payload of a first contact as a document.
pub open spec fn unknown_tree(
    host: Seq<char>,
    port: u16,
    key_type: Seq<char>,
    fingerprint: Seq<char>,
) -> Tree {
    Tree::Object(
        seq![
            ("fingerprint"@, Tree::Text(fingerprint)),
            ("host"@, Tree::Text(host)),
            ("keyType"@, Tree::Text(key_type)),
            ("port"@, Tree::Whole(port as u64)),
        ],
    )
}

/// The payload of a host-key mismatch as a document.
pub open spec fn mismatch_tree(
    host: Seq<char>,
    port: u16,
    key_type: Seq<char>,
    old: Seq<Seq<char>>,
    new: Seq<char>,
) -> Tree {
    Tree::Object(
        seq![
            ("host"@, Tree::Text(host)),
            ("keyType"@, Tree::Text(key_type)),
            ("newFingerprint"@, Tree::Text(new)),
            ("oldFingerprints"@, list_tree(old)),
            ("port"@, Tree::Whole(port as u64)),
        ],
    )
}

/// The payload of an upload conflict as a document.
pub open spec fn conflict_tree(paths: Seq<Seq<char>>, count: usize) -> Tree {
    Tree::Object(seq![("count"@, Tree::Whole(count as u64)), ("paths"@, list_tree(paths))])
}

pub open spec fn unknown_text(
    host: Seq<char>,
    port: u16,
    key_type: Seq<char>,
    fingerprint: Seq<char>,
) -> Seq<char> {
    "HOST_KEY_UNKNOWN:"@ + json_rendering(unknown_tree(host, port, key_type, fingerprint))
}

pub open spec fn mismatch_text(
    host: Seq<char>,
    port: u16,
    key_type: Seq<char>,
    old: Seq<Seq<char>>,
    new: Seq<char>,
) -> Seq<char> {
    "HOST_KEY_MISMATCH:"@ + json_rendering(mismatch_tree(host, port, key_type, old, new))
}

pub open spec fn conflict_text(paths: Seq<Seq<char>>, count: usize) -> Seq<char> {
    "UPLOAD_CONFLICT:"@ + json_rendering(conflict_tree(paths, count))
}

proof fn lemma_names_in_order()
    ensures
        text_before("fingerprint"@, "host"@),
        text_before("fingerprint"@, "keyType"@),
        text_before("fingerprint"@, "port"@),
        text_before("host"@, "keyType"@),
        text_before("host"@, "newFingerprint"@),
        text_before("host"@, "oldFingerprints"@),
        text_before("host"@, "port"@),
        text_before("keyType"@, "newFingerprint"@),
        text_before("keyType"@, "oldFingerprints"@),
        text_before("keyType"@, "port"@),
        text_before("newFingerprint"@, "oldFingerprints"@),
        text_before("newFingerprint"@, "port"@),
        text_before("oldFingerprints"@, "port"@),
        text_before("count"@, "paths"@),
{
    reveal_strlit("fingerprint");
    reveal_strlit("host");
    reveal_strlit("keyType");
    reveal_strlit("newFingerprint");
    reveal_strlit("oldFingerprints");
    reveal_strlit("port");
    reveal_strlit("count");
    reveal_strlit("paths");
}

/// The prompt for a key that was never seen.
pub fn host_key_unknown(host: &str, port: u16, key_type: &str, fingerprint: &str) -> (res: String)
    ensures
        res@ == unknown_text(host@, port, key_type@, fingerprint@),
        kind_of(res@) == (AppErrorView::HostKeyUnknown {
            host: host@,
            port,
            key_type: key_type@,
            fingerprint: fingerprint@,
        }),
{
    let mut fields: Vec<(String, Json)> = Vec::new();
    fields.push(text_entry("fingerprint", fingerprint));
    fields.push(text_entry("host", host));
    fields.push(text_entry("keyType", key_type));
    fields.push((copy("port"), Json::Whole(port as u64)));
    let ghost tree = unknown_tree(host@, port, key_type@, fingerprint@);
    proof {
        lemma_names_in_order();
        crate::json::lemma_fields(fields@);
        assert(tree_of(fields@[3].1) == Tree::Whole(port as u64));
        assert(fields_of(fields@) =~= tree->Object_0);
        reveal_with_fuel(plain, 3);
        assert(plain(tree, 16));
        lemma_unknown_reads_back(host@, port, key_type@, fingerprint@);
    }
    let payload = render_json(Json::Object(fields));
    let mut out = copy("HOST_KEY_UNKNOWN:");
    out.append(payload.as_str());
    proof {
        lemma_prefix(out@, "HOST_KEY_UNKNOWN:"@, payload@);
        reveal_strlit("HOST_KEY_UNKNOWN:");
        reveal_strlit("HOST_KEY_MISMATCH:");
        lemma_other_marker(out@, "HOST_KEY_MISMATCH:"@, 9);
    }
    out
}

fn text_entry(name: &str, value: &str) -> (res: (String, Json))
    ensures
        res.0@ == name@,
        res.1@ == Tree::Text(value@),
{
    (copy(name), Json::Text(copy(value)))
}

proof fn lemma_other_marker(all: Seq<char>, marker: Seq<char>, at: int)
    requires
        0 <= at < marker.len(),
        at < all.len(),
        all[at] != marker[at],
    ensures
        strip_prefix(all, marker) is None,
{
    if starts_with(all, marker) {
        assert(all.take(marker.len() as int)[at] == all[at]);
    }
}

/// The prompt for a key that is not the saved one.
pub fn host_key_mismatch(
    host: &str,
    port: u16,
    key_type: &str,
    old_fingerprints: &[String],
    new_fingerprint: &str,
) -> (res: String)
    ensures
        res@ == mismatch_text(
            host@,
            port,
            key_type@,
            views(old_fingerprints@),
            new_fingerprint@,
        ),
        kind_of(res@) == (AppErrorView::HostKeyMismatch {
            host: host@,
            port,
            key_type: key_type@,
            old_fingerprints: views(old_fingerprints@),
            new_fingerprint: new_fingerprint@,
        }),
{
    let mut fields: Vec<(String, Json)> = Vec::new();
    fields.push(text_entry("host", host));
    fields.push(text_entry("keyType", key_type));
    fields.push(text_entry("newFingerprint", new_fingerprint));
    fields.push((copy("oldFingerprints"), list_of(old_fingerprints)));
    fields.push((copy("port"), Json::Whole(port as u64)));
    let ghost old = views(old_fingerprints@);
    let ghost tree = mismatch_tree(host@, port, key_type@, old, new_fingerprint@);
    proof {
        lemma_names_in_order();
        crate::json::lemma_fields(fields@);
        assert(tree_of(fields@[4].1) == Tree::Whole(port as u64));
        assert(fields_of(fields@) =~= tree->Object_0);
        lists_read_back(old);
        lemma_plain_deeper(list_tree(old), 1, 15);
        reveal_with_fuel(plain, 3);
        assert(plain(tree, 16));
        lemma_mismatch_reads_back(host@, port, key_type@, old, new_fingerprint@);
    }
    let payload = render_json(Json::Object(fields));
    let mut out = copy("HOST_KEY_MISMATCH:");
    out.append(payload.as_str());
    proof {
        lemma_prefix(out@, "HOST_KEY_MISMATCH:"@, payload@);
    }
    out
}

proof fn lemma_mismatch_reads_back(
    host: Seq<char>,
    port: u16,
    key_type: Seq<char>,
    old: Seq<Seq<char>>,
    new: Seq<char>,
)
    ensures
        mismatch_payload(mismatch_tree(host, port, key_type, old, new)) == Some(
            AppErrorView::HostKeyMismatch {
                host,
                port,
                key_type,
                old_fingerprints: old,
                new_fingerprint: new,
            },
        ),
{
    let fields = mismatch_tree(host, port, key_type, old, new)->Object_0;
    lists_read_back(old);
    reveal_strlit("host");
    reveal_strlit("keyType");
    reveal_strlit("newFingerprint");
    reveal_strlit("oldFingerprints");
    reveal_strlit("port");
    reveal_with_fuel(field_of, 6);
    assert("host"@[0] == 'h' && "keyType"@[0] == 'k' && "newFingerprint"@[0] == 'n'
        && "oldFingerprints"@[0] == 'o' && "port"@[0] == 'p');
    assert(fields.skip(1)[0] == fields[1]);
    assert(fields.skip(1).skip(1)[0] == fields[2]);
    assert(fields.skip(1).skip(1).skip(1)[0] == fields[3]);
    assert(fields.skip(1).skip(1).skip(1).skip(1)[0] == fields[4]);
}

/// The question whether an upload may overwrite `paths`, of `count` in all.
pub fn upload_conflict(paths: &[String], count: usize) -> (res: String)
    ensures
        res@ == conflict_text(views(paths@), count),
        kind_of(res@) == (AppErrorView::UploadConflict { paths: views(paths@), count }),
{
    let mut fields: Vec<(String, Json)> = Vec::new();
    fields.push((copy("count"), Json::Whole(count as u64)));
    fields.push((copy("paths"), list_of(paths)));
    let ghost items = views(paths@);
    let ghost tree = conflict_tree(items, count);
    proof {
        lemma_names_in_order();
        crate::json::lemma_fields(fields@);
        assert(tree_of(fields@[0].1) == Tree::Whole(count as u64));
        assert(fields_of(fields@) =~= tree->Object_0);
        lists_read_back(items);
        lemma_plain_deeper(list_tree(items), 1, 15);
        reveal_with_fuel(plain, 3);
        assert(plain(tree, 16));
        reveal_strlit("count");
        reveal_strlit("paths");
        reveal_with_fuel(field_of, 3);
        assert("count"@[0] == 'c' && "paths"@[0] == 'p');
        assert(tree->Object_0.skip(1)[0] == tree->Object_0[1]);
        assert(conflict_payload(tree) == Some(
            AppErrorView::UploadConflict { paths: items, count },
        ));
    }
    let payload = render_json(Json::Object(fields));
    let mut out = copy("UPLOAD_CONFLICT:");
    out.append(payload.as_str());
    proof {
        lemma_prefix(out@, "UPLOAD_CONFLICT:"@, payload@);
        reveal_strlit("UPLOAD_CONFLICT:");
        reveal_strlit("HOST_KEY_UNKNOWN:");
        reveal_strlit("HOST_KEY_MISMATCH:");
        lemma_other_marker(out@, "HOST_KEY_MISMATCH:"@, 0);
        lemma_other_marker(out@, "HOST_KEY_UNKNOWN:"@, 0);
    }
    out
}

proof fn lemma_prefix(all: Seq<char>, prefix: Seq<char>, rest: Seq<char>)
    requires
        all == prefix + rest,
    ensures
        strip_prefix(all, prefix) == Some(rest),
{
    assert(all.take(prefix.len() as int) =~= prefix);
    assert(all.skip(prefix.len() as int) =~= rest);
}

proof fn lemma_unknown_reads_back(
    host: Seq<char>,
    port: u16,
    key_type: Seq<char>,
    fingerprint: Seq<char>,
)
    ensures
        unknown_payload(unknown_tree(host, port, key_type, fingerprint)) == Some(
            AppErrorView::HostKeyUnknown { host, port, key_type, fingerprint },
        ),
{
    let fields = unknown_tree(host, port, key_type, fingerprint)->Object_0;
    lemma_names_in_order();
    reveal_strlit("fingerprint");
    reveal_strlit("host");
    reveal_strlit("keyType");
    reveal_strlit("port");
    reveal_with_fuel(field_of, 5);
    assert("fingerprint"@[0] == 'f' && "host"@[0] == 'h' && "keyType"@[0] == 'k' && "port"@[0]
        == 'p');
    assert(fields.skip(1)[0] == fields[1]);
    assert(fields.skip(1).skip(1)[0] == fields[2]);
    assert(fields.skip(1).skip(1).skip(1)[0] == fields[3]);
}

/// What an error asks for is told by its marker: a master password to be set, given or given
/// again. What stands behind the marker is shown.
pub proof fn errors_ask_by_their_marker(text: Seq<char>)
    requires
        text.len() > 0,
        !is_space(text[0]) && !is_space(text.last()),
    ensures
        kind_of("MASTER_PASSWORD_REQUIRED: "@ + text) == (AppErrorView::MasterPasswordRequired {
            message: text,
        }),
        kind_of("MASTER_PASSWORD_INVALID: "@ + text) == (AppErrorView::MasterPasswordInvalid {
            message: text,
        }),
        kind_of("MASTER_PASSWORD_SETUP_REQUIRED: "@ + text) == (
        AppErrorView::MasterPasswordSetupRequired { message: text }),
{
    lemma_first_letters();
    lemma_marked_message("MASTER_PASSWORD_REQUIRED:"@, "MASTER_PASSWORD_REQUIRED: "@, text);
    lemma_marked_message("MASTER_PASSWORD_INVALID:"@, "MASTER_PASSWORD_INVALID: "@, text);
    lemma_marked_message(
        "MASTER_PASSWORD_SETUP_REQUIRED:"@,
        "MASTER_PASSWORD_SETUP_REQUIRED: "@,
        text,
    );
    let a = "MASTER_PASSWORD_REQUIRED: "@ + text;
    let b = "MASTER_PASSWORD_INVALID: "@ + text;
    let c = "MASTER_PASSWORD_SETUP_REQUIRED: "@ + text;
    lemma_other_marker(a, "HOST_KEY_MISMATCH:"@, 0);
    lemma_other_marker(a, "HOST_KEY_UNKNOWN:"@, 0);
    lemma_other_marker(a, "UPLOAD_CONFLICT:"@, 0);
    lemma_other_marker(a, "MASTER_PASSWORD_SETUP_REQUIRED:"@, 16);
    lemma_other_marker(b, "HOST_KEY_MISMATCH:"@, 0);
    lemma_other_marker(b, "HOST_KEY_UNKNOWN:"@, 0);
    lemma_other_marker(b, "UPLOAD_CONFLICT:"@, 0);
    lemma_other_marker(b, "MASTER_PASSWORD_SETUP_REQUIRED:"@, 16);
    lemma_other_marker(b, "MASTER_PASSWORD_REQUIRED:"@, 16);
    lemma_other_marker(c, "HOST_KEY_MISMATCH:"@, 0);
    lemma_other_marker(c, "HOST_KEY_UNKNOWN:"@, 0);
    lemma_other_marker(c, "UPLOAD_CONFLICT:"@, 0);
}

proof fn lemma_first_letters()
    ensures
        "HOST_KEY_MISMATCH:"@.len() == 18 && "HOST_KEY_MISMATCH:"@[0] == 'H',
        "HOST_KEY_UNKNOWN:"@.len() == 17 && "HOST_KEY_UNKNOWN:"@[0] == 'H',
        "UPLOAD_CONFLICT:"@.len() == 16 && "UPLOAD_CONFLICT:"@[0] == 'U',
        "MASTER_PASSWORD_SETUP_REQUIRED:"@.len() == 31 && "MASTER_PASSWORD_SETUP_REQUIRED:"@[16]
            == 'S',
        "MASTER_PASSWORD_REQUIRED:"@.len() == 25 && "MASTER_PASSWORD_REQUIRED:"@[16] == 'R',
        "MASTER_PASSWORD_REQUIRED: "@ == "MASTER_PASSWORD_REQUIRED:"@ + " "@,
        "MASTER_PASSWORD_REQUIRED: "@.len() == 26 && "MASTER_PASSWORD_REQUIRED: "@[0] == 'M'
            && "MASTER_PASSWORD_REQUIRED: "@[16] == 'R',
        "MASTER_PASSWORD_INVALID: "@ == "MASTER_PASSWORD_INVALID:"@ + " "@,
        "MASTER_PASSWORD_INVALID: "@.len() == 25 && "MASTER_PASSWORD_INVALID: "@[0] == 'M'
            && "MASTER_PASSWORD_INVALID: "@[16] == 'I',
        "MASTER_PASSWORD_SETUP_REQUIRED: "@ == "MASTER_PASSWORD_SETUP_REQUIRED:"@ + " "@,
        "MASTER_PASSWORD_SETUP_REQUIRED: "@.len() == 32 && "MASTER_PASSWORD_SETUP_REQUIRED: "@[0]
            == 'M',
        " "@ == seq![' '],
{
    reveal_strlit(" ");
    reveal_strlit("HOST_KEY_MISMATCH:");
    reveal_strlit("HOST_KEY_UNKNOWN:");
    reveal_strlit("UPLOAD_CONFLICT:");
    reveal_strlit("MASTER_PASSWORD_SETUP_REQUIRED:");
    reveal_strlit("MASTER_PASSWORD_REQUIRED:");
    reveal_strlit("MASTER_PASSWORD_INVALID:");
    reveal_strlit("MASTER_PASSWORD_SETUP_REQUIRED: ");
    reveal_strlit("MASTER_PASSWORD_REQUIRED: ");
    reveal_strlit("MASTER_PASSWORD_INVALID: ");
    assert("MASTER_PASSWORD_REQUIRED: "@ =~= "MASTER_PASSWORD_REQUIRED:"@ + " "@);
    assert("MASTER_PASSWORD_INVALID: "@ =~= "MASTER_PASSWORD_INVALID:"@ + " "@);
    assert("MASTER_PASSWORD_SETUP_REQUIRED: "@ =~= "MASTER_PASSWORD_SETUP_REQUIRED:"@ + " "@);
    assert(" "@ =~= seq![' ']);
}

proof fn lemma_marked_message(marker: Seq<char>, head: Seq<char>, text: Seq<char>)
    requires
        head == marker + seq![' '],
        text.len() > 0,
        !is_space(text[0]) && !is_space(text.last()),
    ensures
        strip_prefix(head + text, marker) matches Some(rest) && trim(rest) == text,
{
    let value = head + text;
    let none = Seq::<char>::empty();
    assert(value.take(marker.len() as int) =~= marker);
    assert(value.skip(marker.len() as int) =~= seq![' '] + text + none);
    trimming_takes_off_spaces(seq![' '], text, none);
}

} // verus!
