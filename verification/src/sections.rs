//! Output in sections: a line that begins with a marker names the section of the lines
//! that follow it.
use crate::registry::Registry;
use crate::text::{
    after_prefix, lines_of, lines_str, opt_view, split_at_char, split_char, splits_read_back,
    string_of, strip_prefix, trim, trim_str, views,
};
use vstd::prelude::*;

verus! {

broadcast use vstd::string::group_string_axioms;

/// The section that a line opens.
pub open spec fn opened(line: Seq<char>, marker: Seq<char>) -> Option<Seq<char>> {
    match strip_prefix(line, marker) {
        Some(name) => Some(trim(name)),
        None => None,
    }
}

/// The section that is open behind `lines`.
pub open spec fn open_section(lines: Seq<Seq<char>>, marker: Seq<char>) -> Option<Seq<char>>
    decreases lines.len(),
{
    if lines.len() == 0 {
        None
    } else {
        match opened(lines.last(), marker) {
            Some(name) => Some(name),
            None => open_section(lines.drop_last(), marker),
        }
    }
}

/// Whether one of `lines` opens the section `name`.
pub open spec fn is_opened(lines: Seq<Seq<char>>, marker: Seq<char>, name: Seq<char>) -> bool {
    exists|i: int| 0 <= i < lines.len() && opened(#[trigger] lines[i], marker) == Some(name)
}

proof fn lemma_is_opened(lines: Seq<Seq<char>>, marker: Seq<char>, name: Seq<char>)
    requires
        lines.len() > 0,
    ensures
        is_opened(lines, marker, name) == (is_opened(lines.drop_last(), marker, name) || opened(
            lines.last(),
            marker,
        ) == Some(name)),
{
    let before = lines.drop_last();
    if is_opened(before, marker, name) {
        let i = choose|i: int|
            0 <= i < before.len() && opened(#[trigger] before[i], marker) == Some(name);
        assert(lines[i] == before[i]);
    }
    if opened(lines.last(), marker) == Some(name) {
        assert(opened(lines[lines.len() - 1], marker) == Some(name));
    }
    if is_opened(lines, marker, name) {
        let i = choose|i: int|
            0 <= i < lines.len() && opened(#[trigger] lines[i], marker) == Some(name);
        if i < before.len() {
            assert(before[i] == lines[i]);
        }
    }
}

proof fn lemma_open_section(lines: Seq<Seq<char>>, marker: Seq<char>)
    ensures
        open_section(lines, marker) matches Some(name) ==> is_opened(lines, marker, name),
    decreases lines.len(),
{
    if lines.len() > 0 {
        lemma_open_section(lines.drop_last(), marker);
        if let Some(name) = open_section(lines, marker) {
            lemma_is_opened(lines, marker, name);
        }
    }
}

/// The lines of the section `name`, each with a newline behind it.
pub open spec fn section_text(lines: Seq<Seq<char>>, marker: Seq<char>, name: Seq<char>) -> Seq<
    char,
>
    decreases lines.len(),
{
    if lines.len() == 0 {
        Seq::empty()
    } else {
        let before = section_text(lines.drop_last(), marker, name);
        if opened(lines.last(), marker) is None && open_section(lines.drop_last(), marker) == Some(
            name,
        ) {
            before + lines.last() + seq!['\n']
        } else {
            before
        }
    }
}

/// The sections of an output.
pub struct Sections {
    pub texts: Registry<String>,
}

/// What a table of sections says of the section `name`; of one that is not there, that it
/// is empty.
pub open spec fn text_in(texts: Map<Seq<char>, String>, name: Seq<char>) -> Seq<char> {
    if texts.dom().contains(name) {
        texts[name]@
    } else {
        Seq::empty()
    }
}

impl Sections {
    /// The text of a section.
    pub open spec fn text(self, name: Seq<char>) -> Seq<char> {
        text_in(self.texts@, name)
    }

    /// The text of a section, empty where it is not there.
    pub fn section(&self, name: &str) -> (res: String)
        ensures
            res@ == self.text(name@),
    {
        match self.texts.get(name) {
            Some(text) => text.clone(),
            None => String::new(),
        }
    }
}

/// Splits an output into its sections. One that was opened is there, though it be empty.
pub fn parse_sections(output: &str, marker: &str) -> (res: Sections)
    ensures
        forall|name: Seq<char>| #[trigger]
            res.texts@.dom().contains(name) <==> is_opened(lines_of(output@), marker@, name),
        forall|name: Seq<char>| #[trigger]
            res.text(name) == section_text(lines_of(output@), marker@, name),
{
    let lines = lines_str(output);
    let ghost all = views(lines@);
    let mut texts: Registry<String> = Registry::new();
    let mut current: Option<String> = None;
    let mut i: usize = 0;
    assert(all.take(0) =~= Seq::empty());
    while i < lines.len()
        invariant
            i <= lines@.len(),
            all == views(lines@),
            opt_view(current) == open_section(all.take(i as int), marker@),
            forall|name: Seq<char>| #[trigger]
                texts@.dom().contains(name) <==> is_opened(all.take(i as int), marker@, name),
            forall|name: Seq<char>| #[trigger]
                text_in(texts@, name) == section_text(all.take(i as int), marker@, name),
        decreases lines@.len() - i,
    {
        let ghost next = all.take(i + 1);
        let ghost before = texts@;
        assert(next.drop_last() =~= all.take(i as int));
        assert(next.last() == lines@[i as int]@);
        match after_prefix(lines[i].as_slice(), marker) {
            Some(rest) => {
                let name = trim_str(string_of(&rest).as_str());
                if !texts.has(name.as_str()) {
                    texts.insert(name.as_str(), String::new());
                }
                assert forall|other: Seq<char>| #[trigger]
                    text_in(texts@, other) == section_text(next, marker@, other) by {
                    assert(text_in(before, other) == section_text(
                        all.take(i as int),
                        marker@,
                        other,
                    ));
                    assert(text_in(texts@, other) =~= text_in(before, other));
                }
                current = Some(name);
            },
            None => {
                match &current {
                    Some(name) => {
                        let mut text = match texts.get(name.as_str()) {
                            Some(held) => held.clone(),
                            None => String::new(),
                        };
                        text.append(string_of(lines[i].as_slice()).as_str());
                        text.push('\n');
                        let ghost full = text@;
                        texts.insert(name.as_str(), text);
                        assert forall|other: Seq<char>| #[trigger]
                            text_in(texts@, other) == section_text(next, marker@, other) by {
                            assert(text_in(before, other) == section_text(
                                all.take(i as int),
                                marker@,
                                other,
                            ));
                            if other == name@ {
                                assert(full =~= text_in(before, other) + lines@[i as int]@
                                    + seq!['\n']);
                            }
                        }
                    },
                    None => {
                        assert forall|other: Seq<char>| #[trigger]
                            text_in(texts@, other) == section_text(next, marker@, other) by {
                            assert(text_in(before, other) == section_text(
                                all.take(i as int),
                                marker@,
                                other,
                            ));
                        }
                    },
                }
            },
        }
        assert forall|name: Seq<char>| #[trigger]
            texts@.dom().contains(name) <==> is_opened(next, marker@, name) by {
            assert(before.dom().contains(name) <==> is_opened(
                all.take(i as int),
                marker@,
                name,
            ));
            lemma_is_opened(next, marker@, name);
            lemma_open_section(all.take(i as int), marker@);
        }
        i += 1;
    }
    assert(all.take(lines@.len() as int) =~= all);
    assert forall|name: Seq<char>| #[trigger]
        (Sections { texts }).text(name) == section_text(lines_of(output@), marker@, name) by {
        assert(text_in(texts@, name) == section_text(all, marker@, name));
    }
    Sections { texts }
}

/// The value of the last `key<TAB>value` line with this key.
pub open spec fn keyed_value(lines: Seq<Seq<char>>, key: Seq<char>) -> Option<Seq<char>>
    decreases lines.len(),
{
    if lines.len() == 0 {
        None
    } else {
        match split_at_char(lines.last(), '\t') {
            Some((name, value)) => if name == key {
                Some(value)
            } else {
                keyed_value(lines.drop_last(), key)
            },
            None => keyed_value(lines.drop_last(), key),
        }
    }
}

/// The value of the last line with this key.
pub fn find_keyed(text: &str, key: &str) -> (res: Option<String>)
    ensures
        opt_view(res) == keyed_value(lines_of(text@), key@),
{
    let lines = lines_str(text);
    let ghost all = views(lines@);
    let mut n: usize = lines.len();
    assert(all.take(all.len() as int) =~= all);
    while n > 0
        invariant
            n <= lines@.len(),
            all == views(lines@),
            all == lines_of(text@),
            keyed_value(all, key@) == keyed_value(all.take(n as int), key@),
        decreases n,
    {
        assert(all.take(n as int).drop_last() =~= all.take(n - 1));
        assert(all.take(n as int).last() == lines@[n - 1]@);
        match split_char(lines[n - 1].as_slice(), '\t') {
            Some((name, value)) => {
                if crate::text::is_text(&name, key) {
                    return Some(string_of(&value));
                }
            },
            None => {},
        }
        n -= 1;
    }
    None
}

/// The lines of a `key<TAB>value` section as a table.
pub fn parse_keyed_section(text: &str) -> (res: Registry<String>)
    ensures
        forall|key: Seq<char>|
            #![trigger res@.dom().contains(key)]
            {
                &&& res@.dom().contains(key) <==> keyed_value(lines_of(text@), key) is Some
                &&& res@.dom().contains(key) ==> Some(res@[key]@) == keyed_value(
                    lines_of(text@),
                    key,
                )
            },
{
    let lines = lines_str(text);
    let ghost all = views(lines@);
    let mut out: Registry<String> = Registry::new();
    let mut i: usize = 0;
    assert(all.take(0) =~= Seq::empty());
    while i < lines.len()
        invariant
            i <= lines@.len(),
            all == views(lines@),
            forall|key: Seq<char>|
                #![trigger out@.dom().contains(key)]
                {
                    &&& out@.dom().contains(key) <==> keyed_value(all.take(i as int), key) is Some
                    &&& out@.dom().contains(key) ==> Some(out@[key]@) == keyed_value(
                        all.take(i as int),
                        key,
                    )
                },
        decreases lines@.len() - i,
    {
        let ghost before = out@;
        let ghost next = all.take(i + 1);
        assert(next.drop_last() =~= all.take(i as int));
        assert(next.last() == lines@[i as int]@);
        match split_char(lines[i].as_slice(), '\t') {
            Some((name, value)) => {
                out.insert(string_of(&name).as_str(), string_of(&value));
            },
            None => {},
        }
        assert forall|key: Seq<char>|
            #![trigger out@.dom().contains(key)]
            {
                &&& out@.dom().contains(key) <==> keyed_value(next, key) is Some
                &&& out@.dom().contains(key) ==> Some(out@[key]@) == keyed_value(next, key)
            } by {
            assert(before.dom().contains(key) <==> keyed_value(all.take(i as int), key) is Some);
        }
        i += 1;
    }
    assert(all.take(lines@.len() as int) =~= all);
    out
}

/// A section holds the lines from its marker to the next one, and no others: a line belongs
/// to the section that is open, a marker to none.
pub proof fn sections_are_read_apart(
    lines: Seq<Seq<char>>,
    line: Seq<char>,
    marker: Seq<char>,
    name: Seq<char>,
    other: Seq<char>,
)
    ensures
        opened(line, marker) is None && open_section(lines, marker) == Some(name) ==> section_text(
            lines.push(line),
            marker,
            name,
        ) == section_text(lines, marker, name) + line + "\n"@,
        opened(line, marker) is None && open_section(lines, marker) != Some(name) ==> section_text(
            lines.push(line),
            marker,
            name,
        ) == section_text(lines, marker, name),
        opened(line, marker) is Some ==> section_text(lines.push(line), marker, name)
            == section_text(lines, marker, name),
        section_text(Seq::empty(), marker, name).len() == 0,
        open_section(lines.push(marker + other), marker) == Some(trim(other)),
        opened(line, marker) is None ==> open_section(lines.push(line), marker) == open_section(
            lines,
            marker,
        ),
        open_section(Seq::empty(), marker) is None,
{
    reveal_strlit("\n");
    assert("\n"@ =~= seq!['\n']);
    assert(lines.push(line).drop_last() =~= lines);
    assert(lines.push(marker + other).drop_last() =~= lines);
    assert((marker + other).take(marker.len() as int) =~= marker);
    assert((marker + other).skip(marker.len() as int) =~= other);
}

/// The value of a key is that of the last line that has it.
pub proof fn keyed_values_read_back(
    lines: Seq<Seq<char>>,
    key: Seq<char>,
    value: Seq<char>,
    other: Seq<char>,
)
    requires
        !key.contains('\t'),
    ensures
        keyed_value(lines.push(key + seq!['\t'] + value), key) == Some(value),
        other != key ==> keyed_value(lines.push(key + seq!['\t'] + value), other) == keyed_value(
            lines,
            other,
        ),
        keyed_value(Seq::empty(), key) is None,
{
    let line = key + seq!['\t'] + value;
    assert(lines.push(line).drop_last() =~= lines);
    splits_read_back(key, '\t', value);
}

} // verus!
