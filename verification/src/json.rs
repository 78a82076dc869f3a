//! JSON and YAML documents as plain values.
use crate::sorting::text_before;
use crate::text::{opt_view, same, views};
use crate::wiping::wipe_text;
use vstd::prelude::*;

verus! {

broadcast use vstd::string::group_string_axioms;

/// A document. A number that is no `u64` is kept as text.
#[derive(Debug, PartialEq, Eq)]
pub enum Json {
    Null,
    Flag(bool),
    Whole(u64),
    Number(String),
    Text(String),
    List(Vec<Json>),
    Object(Vec<(String, Json)>),
}

/// What a document says.
#[verifier::ext_equal]
pub enum Tree {
    Null,
    Flag(bool),
    Whole(u64),
    Number(Seq<char>),
    Text(Seq<char>),
    List(Seq<Tree>),
    Object(Seq<(Seq<char>, Tree)>),
}

pub open spec fn tree_of(json: Json) -> Tree
    decreases json,
{
    match json {
        Json::Null => Tree::Null,
        Json::Flag(flag) => Tree::Flag(flag),
        Json::Whole(n) => Tree::Whole(n),
        Json::Number(text) => Tree::Number(text@),
        Json::Text(text) => Tree::Text(text@),
        Json::List(items) => Tree::List(trees_of(items@)),
        Json::Object(fields) => Tree::Object(fields_of(fields@)),
    }
}

pub open spec fn trees_of(items: Seq<Json>) -> Seq<Tree>
    decreases items,
{
    if items.len() == 0 {
        Seq::empty()
    } else {
        trees_of(items.drop_last()).push(tree_of(items.last()))
    }
}

pub open spec fn fields_of(fields: Seq<(String, Json)>) -> Seq<(Seq<char>, Tree)>
    decreases fields,
{
    if fields.len() == 0 {
        Seq::empty()
    } else {
        fields_of(fields.drop_last()).push((fields.last().0@, tree_of(fields.last().1)))
    }
}

impl View for Json {
    type V = Tree;

    open spec fn view(&self) -> Tree {
        tree_of(*self)
    }
}

pub proof fn lemma_trees(items: Seq<Json>)
    ensures
        trees_of(items).len() == items.len(),
        forall|i: int| 0 <= i < items.len() ==> #[trigger] trees_of(items)[i] == items[i]@,
    decreases items.len(),
{
    if items.len() > 0 {
        lemma_trees(items.drop_last());
    }
}

pub proof fn lemma_fields(fields: Seq<(String, Json)>)
    ensures
        fields_of(fields).len() == fields.len(),
        forall|i: int|
            0 <= i < fields.len() ==> #[trigger] fields_of(fields)[i] == (
                fields[i].0@,
                fields[i].1@,
            ),
    decreases fields.len(),
{
    if fields.len() > 0 {
        lemma_fields(fields.drop_last());
    }
}

/// A document that nests at most `depth` deep, whose numbers are whole and whose
/// fields stand in the order of their names.
pub open spec fn plain(tree: Tree, depth: nat) -> bool
    decreases depth,
{
    match tree {
        Tree::Number(_) => false,
        Tree::List(items) => depth > 0 && forall|i: int|
            0 <= i < items.len() ==> plain(#[trigger] items[i], (depth - 1) as nat),
        Tree::Object(fields) => depth > 0 && (forall|i: int|
            0 <= i < fields.len() ==> plain((#[trigger] fields[i]).1, (depth - 1) as nat)) && (
        forall|i: int, j: int|
            0 <= i < j < fields.len() ==> text_before(
                (#[trigger] fields[i]).0,
                (#[trigger] fields[j]).0,
            )),
        _ => true,
    }
}

// ---------------------------------------------------------------------------
// serde_json and serde_yaml
// ---------------------------------------------------------------------------

#[verifier::external_type_specification]
#[verifier::external_body]
pub struct ExValue(serde_json::Value);

/// What a `serde_json::Value` holds.
pub uninterp spec fn contents(value: serde_json::Value) -> Tree;

/// What `serde_json::from_str` reads from a text.
pub uninterp spec fn json_document(text: Seq<char>) -> Option<Tree>;

/// What `serde_yaml::from_str` reads from a text.
pub uninterp spec fn yaml_document(text: Seq<char>) -> Option<Tree>;

/// What a document is as JSON text, as `serde_json::Value` is displayed.
pub uninterp spec fn json_rendering(tree: Tree) -> Seq<char>;

/// `serde_json::from_str` into a `Value`: the document that the text writes, or
/// nothing where it writes none.
#[verifier::external_body]
fn read_value(text: &str) -> (res: Option<serde_json::Value>)
    ensures
        match res {
            Some(value) => json_document(text@) == Some(contents(value)),
            None => json_document(text@) is None,
        },
{
    serde_json::from_str::<serde_json::Value>(text).ok()
}

/// `serde_yaml::from_str` into a `Value`: the document that the text writes, or
/// nothing where it writes none that JSON can hold.
#[verifier::external_body]
fn read_yaml_value(text: &str) -> (res: Option<serde_json::Value>)
    ensures
        match res {
            Some(value) => yaml_document(text@) == Some(contents(value)),
            None => yaml_document(text@) is None,
        },
{
    serde_yaml::from_str::<serde_json::Value>(text).ok()
}

/// Takes a `serde_json::Value` apart, variant by variant.
#[verifier::external_body]
fn json_of(value: serde_json::Value) -> (res: Json)
    ensures
        res@ == contents(value),
{
    match value {
        serde_json::Value::Null => Json::Null,
        serde_json::Value::Bool(flag) => Json::Flag(flag),
        serde_json::Value::Number(n) => n.as_u64().map_or(Json::Number(n.to_string()), Json::Whole),
        serde_json::Value::String(text) => Json::Text(text),
        serde_json::Value::Array(items) => Json::List(items.into_iter().map(json_of).collect()),
        serde_json::Value::Object(fields) => {
            Json::Object(fields.into_iter().map(|(name, item)| (name, json_of(item))).collect())
        },
    }
}

/// Puts a `serde_json::Value` together, variant by variant. Its map keeps the fields
/// in the order of their names.
#[verifier::external_body]
fn value_of(json: Json) -> (res: serde_json::Value)
    requires
        plain(json@, 16),
    ensures
        contents(res) == json@,
{
    match json {
        Json::Null => serde_json::Value::Null,
        Json::Flag(flag) => serde_json::Value::Bool(flag),
        Json::Whole(n) => serde_json::Value::from(n),
        Json::Number(text) | Json::Text(text) => serde_json::Value::String(text),
        Json::List(items) => serde_json::Value::Array(items.into_iter().map(value_of).collect()),
        Json::Object(fields) => {
            fields.into_iter().map(|(name, item)| (name, value_of(item))).collect()
        },
    }
}

/// `serde_json::Value::to_string`: the document as JSON text. Reading the text gives
/// the document back, where it is plain.
#[verifier::external_body]
fn render_value(value: &serde_json::Value) -> (res: String)
    ensures
        res@ == json_rendering(contents(*value)),
        plain(contents(*value), 16) ==> json_document(res@) == Some(contents(*value)),
{
    value.to_string()
}

/// The document that `text` writes in JSON. Of two fields of an object with one name the
/// last is kept.
pub fn parse_json(text: &str) -> (res: Option<Json>)
    ensures
        opt_view(res) == json_document(text@),
{
    match read_value(text) {
        Some(value) => Some(json_of(value)),
        None => None,
    }
}

/// The document that `text` writes in YAML.
pub fn parse_yaml(text: &str) -> (res: Option<Json>)
    ensures
        opt_view(res) == yaml_document(text@),
{
    match read_yaml_value(text) {
        Some(value) => Some(json_of(value)),
        None => None,
    }
}

/// `json` as JSON text, which reads back as `json`.
pub fn render_json(json: Json) -> (res: String)
    requires
        plain(json@, 16),
    ensures
        res@ == json_rendering(json@),
        json_document(res@) == Some(json@),
{
    let value = value_of(json);
    render_value(&value)
}

/// Gives up a document; the texts in it are wiped.
pub(crate) fn wipe_json(json: Json)
    decreases json,
{
    match json {
        Json::Number(text) | Json::Text(text) => {
            let mut text = text;
            wipe_text(&mut text);
        },
        Json::List(items) => {
            let ghost start = items;
            let mut items = items;
            assert(items@ =~= start@.take(items@.len() as int));
            while items.len() > 0
                invariant
                    json == Json::List(start),
                    items@.len() <= start@.len(),
                    items@ == start@.take(items@.len() as int),
                decreases items@.len(),
            {
                let ghost last = items@.len() - 1;
                assert(items@[last] == start@[last]);
                match items.pop() {
                    Some(item) => {
                        assert(items@ =~= start@.take(last));
                        assert(decreases_to!(json => json->List_0));
                        assert(decreases_to!(start => start@));
                        assert(decreases_to!(start@ => start@[last]));
                        wipe_json(item);
                    },
                    None => {},
                }
            }
        },
        Json::Object(fields) => {
            let ghost start = fields;
            let mut fields = fields;
            assert(fields@ =~= start@.take(fields@.len() as int));
            while fields.len() > 0
                invariant
                    json == Json::Object(start),
                    fields@.len() <= start@.len(),
                    fields@ == start@.take(fields@.len() as int),
                decreases fields@.len(),
            {
                let ghost last = fields@.len() - 1;
                assert(fields@[last] == start@[last]);
                match fields.pop() {
                    Some((name, item)) => {
                        assert(fields@ =~= start@.take(last));
                        assert(decreases_to!(json => json->Object_0));
                        assert(decreases_to!(start => start@));
                        assert(decreases_to!(start@ => start@[last]));
                        assert(decreases_to!(start@[last] => start@[last].1));
                        let mut name = name;
                        wipe_text(&mut name);
                        wipe_json(item);
                    },
                    None => {},
                }
            }
        },
        _ => {},
    }
}

/// As `render_json`, for a document with secrets: what is no longer needed is wiped.
pub(crate) fn render_secrets(json: Json) -> (res: String)
    requires
        plain(json@, 16),
    ensures
        res@ == json_rendering(json@),
        json_document(res@) == Some(json@),
{
    let value = value_of(json);
    let text = render_value(&value);
    wipe_json(json_of(value));
    text
}

// ---------------------------------------------------------------------------
// Reading documents
// ---------------------------------------------------------------------------

/// The first field named `key`.
pub open spec fn field_of(fields: Seq<(Seq<char>, Tree)>, key: Seq<char>) -> Option<Tree>
    decreases fields.len(),
{
    if fields.len() == 0 {
        None
    } else if fields[0].0 == key {
        Some(fields[0].1)
    } else {
        field_of(fields.skip(1), key)
    }
}

/// The field `key` of an object; other documents have no fields.
pub open spec fn get(tree: Tree, key: Seq<char>) -> Option<Tree> {
    match tree {
        Tree::Object(fields) => field_of(fields, key),
        _ => None,
    }
}

/// The text of the field `key`.
pub open spec fn text_field(tree: Tree, key: Seq<char>) -> Option<Seq<char>> {
    match get(tree, key) {
        Some(Tree::Text(text)) => Some(text),
        _ => None,
    }
}

/// The field `key` of an object.
pub fn get_field<'a>(json: &'a Json, key: &str) -> (res: Option<&'a Json>)
    ensures
        match res {
            Some(item) => get(json@, key@) == Some(item@),
            None => get(json@, key@) is None,
        },
{
    match json {
        Json::Object(fields) => {
            let mut i: usize = 0;
            proof {
                lemma_fields(fields@);
            }
            assert(fields_of(fields@).skip(0) =~= fields_of(fields@));
            while i < fields.len()
                invariant
                    i <= fields@.len(),
                    fields_of(fields@).len() == fields@.len(),
                    json@ == Tree::Object(fields_of(fields@)),
                    forall|j: int|
                        0 <= j < fields@.len() ==> #[trigger] fields_of(fields@)[j] == (
                            fields@[j].0@,
                            fields@[j].1@,
                        ),
                    field_of(fields_of(fields@), key@) == field_of(
                        fields_of(fields@).skip(i as int),
                        key@,
                    ),
                decreases fields@.len() - i,
            {
                let ghost rest = fields_of(fields@).skip(i as int);
                assert(rest[0] == fields_of(fields@)[i as int]);
                assert(rest.skip(1) =~= fields_of(fields@).skip(i + 1));
                if same(fields[i].0.as_str(), key) {
                    return Some(&fields[i].1);
                }
                i += 1;
            }
            None
        },
        _ => None,
    }
}

/// The text of the field `key`.
pub fn get_text(json: &Json, key: &str) -> (res: Option<String>)
    ensures
        opt_view(res) == text_field(json@, key@),
{
    match get_field(json, key) {
        Some(item) => match item {
            Json::Text(text) => Some(text.clone()),
            _ => None,
        },
        None => None,
    }
}

/// Whether a document is a record: an object, or a list of so many entries.
pub open spec fn has_entries(tree: Tree, count: int) -> bool {
    match tree {
        Tree::Object(_) => true,
        Tree::List(items) => items.len() == count,
        _ => false,
    }
}

/// An entry of a record: the field `key` of an object, or what stands at `index` in a list.
pub open spec fn entry(tree: Tree, key: Seq<char>, index: int) -> Option<Tree> {
    match tree {
        Tree::List(items) => if 0 <= index < items.len() {
            Some(items[index])
        } else {
            None
        },
        _ => get(tree, key),
    }
}

/// Whether a document is a record: an object, or a list of so many entries.
pub fn entries_are(json: &Json, count: usize) -> (res: bool)
    ensures
        res == has_entries(json@, count as int),
{
    match json {
        Json::Object(_) => true,
        Json::List(items) => {
            proof {
                lemma_trees(items@);
            }
            items.len() == count
        },
        _ => false,
    }
}

/// An entry of a record.
pub fn get_entry<'a>(json: &'a Json, key: &str, index: usize) -> (res: Option<&'a Json>)
    ensures
        match res {
            Some(item) => entry(json@, key@, index as int) == Some(item@),
            None => entry(json@, key@, index as int) is None,
        },
{
    match json {
        Json::List(items) => {
            proof {
                lemma_trees(items@);
            }
            if index < items.len() {
                assert(trees_of(items@)[index as int] == items@[index as int]@);
                Some(&items[index])
            } else {
                None
            }
        },
        _ => get_field(json, key),
    }
}

/// The texts of a list, where it is one and holds nothing else.
pub open spec fn texts(tree: Tree) -> Option<Seq<Seq<char>>> {
    match tree {
        Tree::List(items) => if forall|i: int|
            0 <= i < items.len() ==> (#[trigger] items[i]) is Text {
            Some(Seq::new(items.len(), |i: int| items[i]->Text_0))
        } else {
            None
        },
        _ => None,
    }
}

/// The texts of a list of texts.
pub fn get_texts(json: &Json) -> (res: Option<Vec<String>>)
    ensures
        match res {
            Some(items) => texts(json@) == Some(views(items@)),
            None => texts(json@) is None,
        },
{
    match json {
        Json::List(items) => {
            let mut out: Vec<String> = Vec::new();
            let mut i: usize = 0;
            proof {
                lemma_trees(items@);
            }
            while i < items.len()
                invariant
                    i <= items@.len(),
                    out@.len() == i,
                    trees_of(items@).len() == items@.len(),
                    json@ == Tree::List(trees_of(items@)),
                    forall|j: int|
                        0 <= j < items@.len() ==> #[trigger] trees_of(items@)[j] == items@[j]@,
                    forall|j: int| 0 <= j < i ==> trees_of(items@)[j] == Tree::Text(out@[j]@),
                decreases items@.len() - i,
            {
                assert(trees_of(items@)[i as int] == items@[i as int]@);
                match &items[i] {
                    Json::Text(text) => out.push(text.clone()),
                    _ => {
                        assert(!(trees_of(items@)[i as int] is Text));
                        return None;
                    },
                }
                i += 1;
            }
            assert(views(out@) =~= Seq::new(
                trees_of(items@).len(),
                |j: int| trees_of(items@)[j]->Text_0,
            ));
            Some(out)
        },
        _ => None,
    }
}

/// A list of texts as a document.
pub open spec fn list_tree(items: Seq<Seq<char>>) -> Tree {
    Tree::List(Seq::new(items.len(), |i: int| Tree::Text(items[i])))
}

/// A list of texts as a document.
pub fn list_of(items: &[String]) -> (res: Json)
    ensures
        res@ == list_tree(views(items@)),
        plain(res@, 1),
{
    let mut out: Vec<Json> = Vec::new();
    let mut i: usize = 0;
    while i < items.len()
        invariant
            i <= items@.len(),
            trees_of(out@) == list_tree(views(items@.take(i as int)))->List_0,
        decreases items@.len() - i,
    {
        let ghost before = out@;
        out.push(Json::Text(items[i].clone()));
        proof {
            reveal_with_fuel(tree_of, 2);
            reveal_with_fuel(trees_of, 2);
            assert(out@.drop_last() =~= before);
            assert(trees_of(out@) =~= list_tree(views(items@.take(i + 1)))->List_0);
        }
        i += 1;
    }
    assert(items@.take(items@.len() as int) =~= items@);
    proof {
        lists_read_back(views(items@));
    }
    Json::List(out)
}

/// What is stored as a list of texts is read back.
pub proof fn lists_read_back(items: Seq<Seq<char>>)
    ensures
        texts(list_tree(items)) == Some(items),
        plain(list_tree(items), 1),
{
    reveal_with_fuel(plain, 2);
    let list = Seq::new(items.len(), |i: int| Tree::Text(items[i]));
    assert(Seq::new(list.len(), |i: int| list[i]->Text_0) =~= items);
}

/// A document that nests less is plain at any greater depth too.
pub proof fn lemma_plain_deeper(tree: Tree, depth: nat, deeper: nat)
    requires
        plain(tree, depth),
        depth <= deeper,
    ensures
        plain(tree, deeper),
    decreases depth,
{
    match tree {
        Tree::List(items) => {
            assert forall|i: int| 0 <= i < items.len() implies plain(
                #[trigger] items[i],
                (deeper - 1) as nat,
            ) by {
                lemma_plain_deeper(items[i], (depth - 1) as nat, (deeper - 1) as nat);
            }
        },
        Tree::Object(fields) => {
            assert forall|i: int| 0 <= i < fields.len() implies plain(
                (#[trigger] fields[i]).1,
                (deeper - 1) as nat,
            ) by {
                lemma_plain_deeper(fields[i].1, (depth - 1) as nat, (deeper - 1) as nat);
            }
        },
        _ => {},
    }
}

/// A field is found under its name, the first of that name, and in an object alone.
pub proof fn fields_are_found_by_name(
    fields: Seq<(Seq<char>, Tree)>,
    key: Seq<char>,
    value: Tree,
    other: Seq<char>,
)
    ensures
        get(Tree::Object(seq![(key, value)] + fields), key) == Some(value),
        other != key ==> get(Tree::Object(seq![(key, value)] + fields), other) == get(
            Tree::Object(fields),
            other,
        ),
        get(Tree::Object(Seq::empty()), key) is None,
        get(value, key) is Some ==> value is Object,
        forall|text: Seq<char>|
            value == Tree::Text(text) ==> #[trigger] text_field(
                Tree::Object(seq![(key, Tree::Text(text))] + fields),
                key,
            ) == Some(text),
        value !is Text ==> text_field(Tree::Object(seq![(key, value)] + fields), key) is None,
{
    let all = seq![(key, value)] + fields;
    assert(all[0] == (key, value));
    assert(all.skip(1) =~= fields);
}

} // verus!
