//! Text as a sequence of characters, and the operations on it that the parsers
//! and the command builders share.
use vstd::prelude::*;

verus! {

broadcast use vstd::string::group_string_axioms;

/// `String::push`: the character is put at the end of the text.
pub assume_specification[ String::push ](text: &mut String, c: char)
    ensures
        final(text)@ == old(text)@.push(c),
;

// ---------------------------------------------------------------------------
// Views of containers
// ---------------------------------------------------------------------------

/// The views of the elements, in order.
pub open spec fn views<T: View>(items: Seq<T>) -> Seq<T::V> {
    Seq::new(items.len(), |i: int| items[i]@)
}

/// The view of an optional value.
pub open spec fn opt_view<T: View>(item: Option<T>) -> Option<T::V> {
    match item {
        Some(value) => Some(value@),
        None => None,
    }
}

pub broadcast proof fn lemma_views_push<T: View>(items: Seq<T>, item: T)
    ensures
        #[trigger] views(items.push(item)) == views(items).push(item@),
{
    assert(views(items.push(item)) =~= views(items).push(item@));
}

// ---------------------------------------------------------------------------
// Characters
// ---------------------------------------------------------------------------

/// White space, as Unicode defines it.
pub open spec fn is_space(c: char) -> bool {
    ||| '\u{9}' <= c <= '\u{d}'
    ||| c == ' '
    ||| c == '\u{85}'
    ||| c == '\u{a0}'
    ||| c == '\u{1680}'
    ||| '\u{2000}' <= c <= '\u{200a}'
    ||| c == '\u{2028}'
    ||| c == '\u{2029}'
    ||| c == '\u{202f}'
    ||| c == '\u{205f}'
    ||| c == '\u{3000}'
}

pub open spec fn is_digit(c: char) -> bool {
    '0' <= c <= '9'
}

pub open spec fn is_letter(c: char) -> bool {
    ('a' <= c <= 'z') || ('A' <= c <= 'Z')
}

pub open spec fn is_alphanumeric(c: char) -> bool {
    is_letter(c) || is_digit(c)
}

/// The ASCII lower-case form of a character; other characters are kept.
pub open spec fn lower_char(c: char) -> char {
    if 'A' <= c <= 'Z' {
        ((c as u8) + 32) as char
    } else {
        c
    }
}

pub fn space(c: char) -> (res: bool)
    ensures
        res == is_space(c),
{
    ('\u{9}' <= c && c <= '\u{d}') || c == ' ' || c == '\u{85}' || c == '\u{a0}' || c == '\u{1680}'
        || ('\u{2000}' <= c && c <= '\u{200a}') || c == '\u{2028}' || c == '\u{2029}' || c
        == '\u{202f}' || c == '\u{205f}' || c == '\u{3000}'
}

pub fn digit(c: char) -> (res: bool)
    ensures
        res == is_digit(c),
{
    '0' <= c && c <= '9'
}

pub fn alphanumeric(c: char) -> (res: bool)
    ensures
        res == is_alphanumeric(c),
{
    ('a' <= c && c <= 'z') || ('A' <= c && c <= 'Z') || ('0' <= c && c <= '9')
}

pub fn lower_of(c: char) -> (res: char)
    ensures
        res == lower_char(c),
{
    if 'A' <= c && c <= 'Z' {
        ((c as u8) + 32) as char
    } else {
        c
    }
}

// Predicates on characters, as values.
pub open spec fn is_char(c: char) -> spec_fn(char) -> bool {
    |x: char| x == c
}

pub open spec fn space_fn() -> spec_fn(char) -> bool {
    |x: char| is_space(x)
}

// ---------------------------------------------------------------------------
// Searching
// ---------------------------------------------------------------------------

/// The first position at which `p` holds, or the length of `s`.
pub open spec fn first_where(s: Seq<char>, p: spec_fn(char) -> bool) -> int
    decreases s.len(),
{
    if s.len() == 0 || p(s[0]) {
        0
    } else {
        1 + first_where(s.skip(1), p)
    }
}

pub proof fn lemma_first_where(s: Seq<char>, p: spec_fn(char) -> bool, k: int)
    requires
        0 <= k <= s.len(),
        forall|j: int| 0 <= j < k ==> !p(#[trigger] s[j]),
        k < s.len() ==> p(s[k]),
    ensures
        first_where(s, p) == k,
    decreases s.len(),
{
    if s.len() > 0 && k > 0 {
        assert(!p(s[0]));
        assert forall|j: int| 0 <= j < k - 1 implies !p(#[trigger] s.skip(1)[j]) by {
            assert(s.skip(1)[j] == s[j + 1]);
        }
        lemma_first_where(s.skip(1), p, k - 1);
    }
}

pub proof fn lemma_first_where_found(s: Seq<char>, p: spec_fn(char) -> bool)
    ensures
        0 <= first_where(s, p) <= s.len(),
        forall|j: int| 0 <= j < first_where(s, p) ==> !p(#[trigger] s[j]),
        first_where(s, p) < s.len() ==> p(s[first_where(s, p)]),
    decreases s.len(),
{
    if s.len() > 0 && !p(s[0]) {
        let rest = s.skip(1);
        lemma_first_where_found(rest, p);
        let k = first_where(rest, p);
        assert forall|j: int| 0 <= j < k + 1 implies !p(#[trigger] s[j]) by {
            if j > 0 {
                assert(s[j] == rest[j - 1]);
            }
        }
        if k < rest.len() {
            assert(rest[k] == s[k + 1]);
        }
    }
}

/// The position of the first `c` at or after `from`, or the length.
pub fn position(s: &[char], from: usize, c: char) -> (res: usize)
    requires
        from <= s@.len(),
    ensures
        from <= res <= s@.len(),
        res == from + first_where(s@.skip(from as int), is_char(c)),
        res < s@.len() ==> s@[res as int] == c,
        forall|j: int| from <= j < res ==> s@[j] != c,
{
    let mut i: usize = from;
    while i < s.len() && s[i] != c
        invariant
            from <= i <= s@.len(),
            forall|j: int| from <= j < i ==> s@[j] != c,
        decreases s@.len() - i,
    {
        i += 1;
    }
    proof {
        let t = s@.skip(from as int);
        assert forall|j: int| 0 <= j < i - from implies !is_char(c)(#[trigger] t[j]) by {
            assert(t[j] == s@[from + j]);
        }
        lemma_first_where(t, is_char(c), i - from);
    }
    i
}

/// Whether the text `part` stands in `s` at position `at`.
pub open spec fn matches_at(s: Seq<char>, part: Seq<char>, at: int) -> bool {
    0 <= at && at + part.len() <= s.len() && s.subrange(at, at + part.len()) == part
}

/// Whether the text `part` stands somewhere in `s`.
pub open spec fn contains_text(s: Seq<char>, part: Seq<char>) -> bool {
    exists|at: int| matches_at(s, part, at)
}

/// The first position at or after `from` at which `part` stands in `s`.
pub open spec fn find_from(s: Seq<char>, part: Seq<char>, from: int) -> Option<int>
    decreases s.len() + 1 - from,
{
    if from + part.len() > s.len() {
        None
    } else if matches_at(s, part, from) {
        Some(from)
    } else {
        find_from(s, part, from + 1)
    }
}

pub open spec fn find_text(s: Seq<char>, part: Seq<char>) -> Option<int> {
    find_from(s, part, 0)
}

pub proof fn lemma_find_from(s: Seq<char>, part: Seq<char>, from: int)
    requires
        0 <= from,
    ensures
        match find_from(s, part, from) {
            Some(k) => from <= k && matches_at(s, part, k) && (forall|j: int|
                from <= j < k ==> !matches_at(s, part, j)),
            None => forall|j: int| from <= j ==> !matches_at(s, part, j),
        },
    decreases s.len() + 1 - from,
{
    if from + part.len() > s.len() {
    } else if matches_at(s, part, from) {
    } else {
        lemma_find_from(s, part, from + 1);
    }
}

/// Whether `part` stands in `s` at `at`.
pub fn stands_at(s: &[char], part: &[char], at: usize) -> (res: bool)
    requires
        at <= s@.len(),
    ensures
        res == matches_at(s@, part@, at as int),
{
    let length: usize = s.len();
    if part.len() > length - at {
        return false;
    }
    let mut i: usize = 0;
    while i < part.len()
        invariant
            i <= part@.len(),
            length == s@.len(),
            at + part@.len() <= length,
            forall|j: int| 0 <= j < i ==> s@[at + j] == part@[j],
        decreases part@.len() - i,
    {
        if s[at + i] != part[i] {
            assert(s@.subrange(at as int, at + part@.len())[i as int] == s@[at + i]);
            return false;
        }
        i += 1;
    }
    assert(s@.subrange(at as int, at + part@.len()) =~= part@);
    true
}

/// The first position of `part` in `s` at or after `from`.
pub fn find(s: &[char], part: &[char], from: usize) -> (res: Option<usize>)
    requires
        from <= s@.len(),
    ensures
        match res {
            Some(k) => find_from(s@, part@, from as int) == Some(k as int) && from <= k && k
                + part@.len() <= s@.len(),
            None => find_from(s@, part@, from as int) is None,
        },
{
    let mut i: usize = from;
    while i <= s.len() && part.len() <= s.len() - i
        invariant
            from <= i <= s@.len() + 1,
            find_from(s@, part@, from as int) == find_from(s@, part@, i as int),
        decreases s@.len() + 1 - i,
    {
        if stands_at(s, part, i) {
            return Some(i);
        }
        if i == s.len() {
            assert(find_from(s@, part@, i + 1) is None);
            return None;
        }
        i += 1;
    }
    None
}

/// Whether `part` stands somewhere in `s`.
pub fn contains(s: &[char], part: &[char]) -> (res: bool)
    ensures
        res == contains_text(s@, part@),
{
    proof {
        lemma_find_from(s@, part@, 0);
    }
    match find(s, part, 0) {
        Some(k) => {
            assert(matches_at(s@, part@, k as int));
            true
        },
        None => {
            assert forall|at: int| !matches_at(s@, part@, at) by {}
            false
        },
    }
}

/// Whether `text` holds `part`.
pub fn contains_str(text: &str, part: &str) -> (res: bool)
    ensures
        res == contains_text(text@, part@),
{
    let s = chars_of(text);
    let p = chars_of(part);
    contains(&s, &p)
}

/// Whether the character `c` occurs in `s`.
pub fn has_char(s: &[char], c: char) -> (res: bool)
    ensures
        res == s@.contains(c),
{
    let k = position(s, 0, c);
    if k < s.len() {
        assert(s@[k as int] == c);
        true
    } else {
        false
    }
}

pub open spec fn starts_with(s: Seq<char>, part: Seq<char>) -> bool {
    part.len() <= s.len() && s.take(part.len() as int) == part
}

pub open spec fn ends_with(s: Seq<char>, part: Seq<char>) -> bool {
    part.len() <= s.len() && s.skip(s.len() - part.len()) == part
}

/// What follows the prefix `part`, where `s` begins with it.
pub open spec fn strip_prefix(s: Seq<char>, part: Seq<char>) -> Option<Seq<char>> {
    if starts_with(s, part) {
        Some(s.skip(part.len() as int))
    } else {
        None
    }
}

/// What stands before the suffix `part`, where `s` ends with it.
pub open spec fn strip_suffix(s: Seq<char>, part: Seq<char>) -> Option<Seq<char>> {
    if ends_with(s, part) {
        Some(s.take(s.len() - part.len()))
    } else {
        None
    }
}

pub fn begins(s: &[char], part: &[char]) -> (res: bool)
    ensures
        res == starts_with(s@, part@),
{
    assert(part@.len() <= s@.len() ==> s@.subrange(0, part@.len() as int) == s@.take(
        part@.len() as int,
    ));
    stands_at(s, part, 0)
}

pub fn begins_with(s: &[char], part: &str) -> (res: bool)
    ensures
        res == starts_with(s@, part@),
{
    let p = chars_of(part);
    begins(s, &p)
}

pub fn ends(s: &[char], part: &[char]) -> (res: bool)
    ensures
        res == ends_with(s@, part@),
{
    if part.len() > s.len() {
        return false;
    }
    assert(s@.subrange(s@.len() - part@.len(), s@.len() as int) == s@.skip(s@.len() - part@.len()));
    stands_at(s, part, s.len() - part.len())
}

pub fn ends_with_str(s: &[char], part: &str) -> (res: bool)
    ensures
        res == ends_with(s@, part@),
{
    let p = chars_of(part);
    ends(s, &p)
}

pub fn after_prefix(s: &[char], part: &str) -> (res: Option<Vec<char>>)
    ensures
        opt_view(res) == strip_prefix(s@, part@),
{
    let p = chars_of(part);
    if begins(s, &p) {
        Some(piece(s, p.len(), s.len()))
    } else {
        None
    }
}

pub fn before_suffix(s: &[char], part: &str) -> (res: Option<Vec<char>>)
    ensures
        opt_view(res) == strip_suffix(s@, part@),
{
    let p = chars_of(part);
    if ends(s, &p) {
        Some(piece(s, 0, s.len() - p.len()))
    } else {
        None
    }
}

// ---------------------------------------------------------------------------
// Building
// ---------------------------------------------------------------------------

/// The characters of `text`.
pub fn chars_of(text: &str) -> (res: Vec<char>)
    ensures
        res@ == text@,
{
    let mut out: Vec<char> = Vec::new();
    for c in iter: text.chars()
        invariant
            out@ == text@.take(iter.index()),
            iter.seq() == text@,
    {
        out.push(c);
    }
    assert(text@.take(text@.len() as int) == text@);
    out
}

/// Whether a text holds the character. The text is not copied.
pub fn holds_char(text: &str, c: char) -> (res: bool)
    ensures
        res == text@.contains(c),
{
    for one in iter: text.chars()
        invariant
            iter.seq() == text@,
            forall|i: int| 0 <= i < iter.index() ==> text@[i] != c,
    {
        if one == c {
            assert(text@[iter.index()] == c);
            return true;
        }
    }
    false
}

/// The text made of `chars`.
pub fn string_of(chars: &[char]) -> (res: String)
    ensures
        res@ == chars@,
{
    let mut out = String::new();
    let mut i: usize = 0;
    while i < chars.len()
        invariant
            i <= chars@.len(),
            out@ == chars@.take(i as int),
        decreases chars@.len() - i,
    {
        out.push(chars[i]);
        assert(chars@.take(i + 1) == chars@.take(i as int).push(chars@[i as int]));
        i += 1;
    }
    assert(chars@.take(chars@.len() as int) == chars@);
    out
}

/// The part of `s` from `from` up to, not including, `to`.
pub fn piece(s: &[char], from: usize, to: usize) -> (res: Vec<char>)
    requires
        from <= to <= s@.len(),
    ensures
        res@ == s@.subrange(from as int, to as int),
        from == 0 ==> res@ == s@.take(to as int),
        to == s@.len() ==> res@ == s@.skip(from as int),
{
    let mut out: Vec<char> = Vec::new();
    let mut i: usize = from;
    while i < to
        invariant
            from <= i <= to <= s@.len(),
            out@ == s@.subrange(from as int, i as int),
        decreases to - i,
    {
        out.push(s[i]);
        i += 1;
    }
    assert(from == 0 ==> out@ =~= s@.take(to as int));
    assert(to == s@.len() ==> out@ =~= s@.skip(from as int));
    out
}

/// A copy of `text`.
pub fn copy(text: &str) -> (res: String)
    ensures
        res@ == text@,
{
    text.to_owned()
}

/// Whether two texts are the same.
pub fn same(a: &str, b: &str) -> (res: bool)
    ensures
        res == (a@ == b@),
{
    let left: String = a.to_owned();
    let right: String = b.to_owned();
    left == right
}

/// Whether `s` is the text `other`.
pub fn is_text(s: &[char], other: &str) -> (res: bool)
    ensures
        res == (s@ == other@),
{
    let o = chars_of(other);
    equal(s, &o)
}

/// Whether two runs of characters are the same.
pub fn equal(a: &[char], b: &[char]) -> (res: bool)
    ensures
        res == (a@ == b@),
{
    if a.len() != b.len() {
        return false;
    }
    let mut i: usize = 0;
    while i < a.len()
        invariant
            i <= a@.len(),
            a@.len() == b@.len(),
            forall|j: int| 0 <= j < i ==> a@[j] == b@[j],
        decreases a@.len() - i,
    {
        if a[i] != b[i] {
            return false;
        }
        i += 1;
    }
    assert(a@ =~= b@);
    true
}

// ---------------------------------------------------------------------------
// Trimming
// ---------------------------------------------------------------------------

/// `s` without the leading characters for which `p` holds.
pub open spec fn trim_start_where(s: Seq<char>, p: spec_fn(char) -> bool) -> Seq<char>
    decreases s.len(),
{
    if s.len() > 0 && p(s[0]) {
        trim_start_where(s.skip(1), p)
    } else {
        s
    }
}

/// `s` without the trailing characters for which `p` holds.
pub open spec fn trim_end_where(s: Seq<char>, p: spec_fn(char) -> bool) -> Seq<char>
    decreases s.len(),
{
    if s.len() > 0 && p(s.last()) {
        trim_end_where(s.drop_last(), p)
    } else {
        s
    }
}

pub open spec fn trim_start(s: Seq<char>) -> Seq<char> {
    trim_start_where(s, space_fn())
}

pub open spec fn trim_end(s: Seq<char>) -> Seq<char> {
    trim_end_where(s, space_fn())
}

/// `s` without white space at either end.
pub open spec fn trim(s: Seq<char>) -> Seq<char> {
    trim_end(trim_start(s))
}

/// Trimming the start drops a prefix.
pub proof fn lemma_trim_start_len(s: Seq<char>, p: spec_fn(char) -> bool)
    ensures
        trim_start_where(s, p).len() <= s.len(),
        trim_start_where(s, p).len() > 0 ==> !p(trim_start_where(s, p)[0]),
        trim_start_where(s, p) == s.skip(s.len() - trim_start_where(s, p).len()),
    decreases s.len(),
{
    if s.len() > 0 && p(s[0]) {
        lemma_trim_start_len(s.skip(1), p);
        let t = trim_start_where(s.skip(1), p);
        assert(s.skip(1).skip(s.skip(1).len() - t.len()) =~= s.skip(s.len() - t.len()));
    } else {
        assert(s.skip(0) =~= s);
    }
}

/// Trimming the end drops a suffix.
pub proof fn lemma_trim_end_len(s: Seq<char>, p: spec_fn(char) -> bool)
    ensures
        trim_end_where(s, p).len() <= s.len(),
        trim_end_where(s, p).len() > 0 ==> !p(trim_end_where(s, p).last()),
        trim_end_where(s, p) == s.take(trim_end_where(s, p).len() as int),
    decreases s.len(),
{
    if s.len() > 0 && p(s.last()) {
        lemma_trim_end_len(s.drop_last(), p);
        let t = trim_end_where(s.drop_last(), p);
        assert(s.drop_last().take(t.len() as int) =~= s.take(t.len() as int));
    } else {
        assert(s.take(s.len() as int) =~= s);
    }
}

/// `s` without leading white space.
pub fn trimmed_start(s: &[char]) -> (res: Vec<char>)
    ensures
        res@ == trim_start(s@),
{
    let mut i: usize = 0;
    assert(s@.skip(0) =~= s@);
    while i < s.len() && space(s[i])
        invariant
            i <= s@.len(),
            trim_start(s@) == trim_start(s@.skip(i as int)),
        decreases s@.len() - i,
    {
        assert(s@.skip(i as int)[0] == s@[i as int]);
        assert(s@.skip(i as int).skip(1) =~= s@.skip(i + 1));
        i += 1;
    }
    proof {
        if i < s@.len() {
            assert(s@.skip(i as int)[0] == s@[i as int]);
        }
    }
    piece(s, i, s.len())
}

/// `s` without the trailing copies of `c`.
pub fn trimmed_end_of(s: &[char], c: char) -> (res: Vec<char>)
    ensures
        res@ == trim_end_where(s@, is_char(c)),
{
    let mut n: usize = s.len();
    assert(s@.take(s@.len() as int) =~= s@);
    while n > 0 && s[n - 1] == c
        invariant
            n <= s@.len(),
            trim_end_where(s@, is_char(c)) == trim_end_where(s@.take(n as int), is_char(c)),
        decreases n,
    {
        assert(s@.take(n as int).last() == s@[n - 1]);
        assert(s@.take(n as int).drop_last() =~= s@.take(n - 1));
        n -= 1;
    }
    proof {
        if n > 0 {
            assert(s@.take(n as int).last() == s@[n - 1]);
        }
    }
    piece(s, 0, n)
}

/// `s` without the leading copies of `c`.
pub fn trimmed_start_of(s: &[char], c: char) -> (res: Vec<char>)
    ensures
        res@ == trim_start_where(s@, is_char(c)),
{
    let mut i: usize = 0;
    assert(s@.skip(0) =~= s@);
    while i < s.len() && s[i] == c
        invariant
            i <= s@.len(),
            trim_start_where(s@, is_char(c)) == trim_start_where(s@.skip(i as int), is_char(c)),
        decreases s@.len() - i,
    {
        assert(s@.skip(i as int)[0] == s@[i as int]);
        assert(s@.skip(i as int).skip(1) =~= s@.skip(i + 1));
        i += 1;
    }
    proof {
        if i < s@.len() {
            assert(s@.skip(i as int)[0] == s@[i as int]);
        }
    }
    piece(s, i, s.len())
}

/// `s` without trailing white space.
pub fn trimmed_end(s: &[char]) -> (res: Vec<char>)
    ensures
        res@ == trim_end(s@),
{
    let mut n: usize = s.len();
    assert(s@.take(s@.len() as int) =~= s@);
    while n > 0 && space(s[n - 1])
        invariant
            n <= s@.len(),
            trim_end(s@) == trim_end(s@.take(n as int)),
        decreases n,
    {
        assert(s@.take(n as int).last() == s@[n - 1]);
        assert(s@.take(n as int).drop_last() =~= s@.take(n - 1));
        n -= 1;
    }
    proof {
        if n > 0 {
            assert(s@.take(n as int).last() == s@[n - 1]);
        }
    }
    piece(s, 0, n)
}

/// `s` without white space at either end.
pub fn trimmed(s: &[char]) -> (res: Vec<char>)
    ensures
        res@ == trim(s@),
{
    let t = trimmed_start(s);
    trimmed_end(&t)
}

/// `text` without white space at either end.
pub fn trim_str(text: &str) -> (res: String)
    ensures
        res@ == trim(text@),
{
    let s = chars_of(text);
    let t = trimmed(&s);
    string_of(&t)
}

// ---------------------------------------------------------------------------
// Splitting
// ---------------------------------------------------------------------------

/// A line without the carriage return that ends it.
pub open spec fn strip_return(s: Seq<char>) -> Seq<char> {
    if s.len() > 0 && s.last() == '\r' {
        s.drop_last()
    } else {
        s
    }
}

/// The lines of `s`: a line ends with a newline, or a carriage return and a
/// newline; the last one may end with the text.
pub open spec fn lines_of(s: Seq<char>) -> Seq<Seq<char>>
    decreases s.len(),
{
    if s.len() == 0 {
        Seq::empty()
    } else {
        let k = first_where(s, is_char('\n'));
        proof {
            lemma_first_where_found(s, is_char('\n'));
        }
        if k >= s.len() {
            seq![s]
        } else {
            seq![strip_return(s.take(k))] + lines_of(s.skip(k + 1))
        }
    }
}

/// The parts of `s` between the separators `c`; there is always one.
pub open spec fn parts_of(s: Seq<char>, c: char) -> Seq<Seq<char>>
    decreases s.len(),
{
    let k = first_where(s, is_char(c));
    proof {
        lemma_first_where_found(s, is_char(c));
    }
    if k >= s.len() {
        seq![s]
    } else {
        seq![s.take(k)] + parts_of(s.skip(k + 1), c)
    }
}

/// As `parts_of`, with at most `limit` parts: the last one keeps the separators.
pub open spec fn parts_up_to(s: Seq<char>, c: char, limit: nat) -> Seq<Seq<char>>
    decreases limit,
{
    let k = first_where(s, is_char(c));
    if limit == 0 {
        Seq::empty()
    } else if limit == 1 || k >= s.len() {
        seq![s]
    } else {
        seq![s.take(k)] + parts_up_to(s.skip(k + 1), c, (limit - 1) as nat)
    }
}

/// The words of `s`: the longest runs without white space.
pub open spec fn words_of(s: Seq<char>) -> Seq<Seq<char>>
    decreases s.len(),
{
    let t = trim_start(s);
    if t.len() == 0 {
        Seq::empty()
    } else {
        let k = first_where(t, space_fn());
        proof {
            lemma_first_where_found(t, space_fn());
            lemma_trim_start_len(s, space_fn());
        }
        seq![t.take(k)] + words_of(t.skip(k))
    }
}

/// What stands before and after the first `c`.
pub open spec fn split_at_char(s: Seq<char>, c: char) -> Option<(Seq<char>, Seq<char>)> {
    let k = first_where(s, is_char(c));
    if k >= s.len() {
        None
    } else {
        Some((s.take(k), s.skip(k + 1)))
    }
}

/// What stands before and after the first occurrence of `part`.
pub open spec fn split_at_text(s: Seq<char>, part: Seq<char>) -> Option<(Seq<char>, Seq<char>)> {
    match find_text(s, part) {
        Some(k) => Some((s.take(k), s.skip(k + part.len()))),
        None => None,
    }
}

/// The last position at which `part` stands in `s`, among those up to `at`.
pub open spec fn find_last(s: Seq<char>, part: Seq<char>, at: int) -> Option<int>
    decreases at + 1,
{
    if at < 0 {
        None
    } else if matches_at(s, part, at) {
        Some(at)
    } else {
        find_last(s, part, at - 1)
    }
}

/// What stands before and after the last occurrence of `part`.
pub open spec fn split_at_last(s: Seq<char>, part: Seq<char>) -> Option<(Seq<char>, Seq<char>)> {
    match find_last(s, part, s.len() - part.len()) {
        Some(k) => Some((s.take(k), s.skip(k + part.len()))),
        None => None,
    }
}

pub fn lines(s: &[char]) -> (res: Vec<Vec<char>>)
    ensures
        views(res@) == lines_of(s@),
{
    let mut out: Vec<Vec<char>> = Vec::new();
    let mut start: usize = 0;
    assert(s@.skip(0) =~= s@);
    assert(views(out@) + lines_of(s@) =~= lines_of(s@));
    while start < s.len()
        invariant
            start <= s@.len(),
            views(out@) + lines_of(s@.skip(start as int)) == lines_of(s@),
        decreases s@.len() - start,
    {
        broadcast use lemma_views_push;

        let ghost rest = s@.skip(start as int);
        let ghost done = views(out@);
        let end = position(s, start, '\n');
        if end == s.len() {
            let line = piece(s, start, end);
            assert(line@ == rest);
            assert(lines_of(rest) == seq![rest]);
            out.push(line);
            assert(views(out@) + lines_of(s@.skip(end as int)) =~= done + seq![rest]);
            start = end;
        } else {
            let stop: usize = if end > start && s[end - 1] == '\r' {
                end - 1
            } else {
                end
            };
            let line = piece(s, start, stop);
            proof {
                let k = end - start;
                assert(rest.take(k) =~= s@.subrange(start as int, end as int));
                if k > 0 {
                    assert(rest.take(k).last() == s@[end - 1]);
                }
                assert(line@ =~= strip_return(rest.take(k)));
                assert(rest.skip(k + 1) =~= s@.skip(end + 1));
                assert(lines_of(rest) == seq![line@] + lines_of(s@.skip(end + 1)));
            }
            out.push(line);
            assert(views(out@) + lines_of(s@.skip(end + 1)) =~= done + (seq![line@] + lines_of(
                s@.skip(end + 1),
            )));
            start = end + 1;
        }
    }
    assert(s@.skip(start as int) =~= Seq::empty());
    assert(views(out@) + Seq::<Seq<char>>::empty() =~= views(out@));
    out
}

pub fn lines_str(text: &str) -> (res: Vec<Vec<char>>)
    ensures
        views(res@) == lines_of(text@),
{
    let s = chars_of(text);
    lines(&s)
}

pub fn parts(s: &[char], c: char) -> (res: Vec<Vec<char>>)
    ensures
        views(res@) == parts_of(s@, c),
        res@.len() > 0,
{
    broadcast use lemma_views_push;

    let mut out: Vec<Vec<char>> = Vec::new();
    let mut start: usize = 0;
    let mut end = position(s, 0, c);
    assert(s@.skip(0) =~= s@);
    assert(views(out@) + parts_of(s@, c) =~= parts_of(s@, c));
    while end < s.len()
        invariant
            start <= end <= s@.len(),
            end == start + first_where(s@.skip(start as int), is_char(c)),
            views(out@) + parts_of(s@.skip(start as int), c) == parts_of(s@, c),
        decreases s@.len() - end,
    {
        broadcast use lemma_views_push;

        let ghost rest = s@.skip(start as int);
        let ghost done = views(out@);
        let part = piece(s, start, end);
        proof {
            let k = end - start;
            assert(rest.take(k) =~= s@.subrange(start as int, end as int));
            assert(rest.skip(k + 1) =~= s@.skip(end + 1));
        }
        out.push(part);
        assert(views(out@) + parts_of(s@.skip(end + 1), c) =~= done + (seq![part@] + parts_of(
            s@.skip(end + 1),
            c,
        )));
        start = end + 1;
        end = position(s, start, c);
    }
    let ghost done = views(out@);
    let part = piece(s, start, s.len());
    out.push(part);
    assert(done + seq![part@] =~= done.push(part@));
    out
}

/// At most `limit` parts, the last one with the rest of the text.
pub fn parts_limited(s: &[char], c: char, limit: usize) -> (res: Vec<Vec<char>>)
    requires
        limit > 0,
    ensures
        views(res@) == parts_up_to(s@, c, limit as nat),
        0 < res@.len() <= limit,
{
    let mut out: Vec<Vec<char>> = Vec::new();
    let mut start: usize = 0;
    let mut left: usize = limit;
    let mut end = position(s, 0, c);
    assert(s@.skip(0) =~= s@);
    assert(views(out@) + parts_up_to(s@, c, limit as nat) =~= parts_up_to(s@, c, limit as nat));
    while end < s.len() && left > 1
        invariant
            start <= end <= s@.len(),
            1 <= left <= limit,
            out@.len() == limit - left,
            end == start + first_where(s@.skip(start as int), is_char(c)),
            views(out@) + parts_up_to(s@.skip(start as int), c, left as nat) == parts_up_to(
                s@,
                c,
                limit as nat,
            ),
        decreases left,
    {
        broadcast use lemma_views_push;

        let ghost rest = s@.skip(start as int);
        let ghost done = views(out@);
        let part = piece(s, start, end);
        proof {
            let k = end - start;
            assert(rest.take(k) =~= s@.subrange(start as int, end as int));
            assert(rest.skip(k + 1) =~= s@.skip(end + 1));
        }
        out.push(part);
        assert(views(out@) + parts_up_to(s@.skip(end + 1), c, (left - 1) as nat) =~= done + (
        seq![part@] + parts_up_to(s@.skip(end + 1), c, (left - 1) as nat)));
        start = end + 1;
        left -= 1;
        end = position(s, start, c);
    }
    let ghost done = views(out@);
    let part = piece(s, start, s.len());
    assert(parts_up_to(s@.skip(start as int), c, left as nat) == seq![part@]);
    proof {
        lemma_views_push(out@, part);
    }
    out.push(part);
    assert(done + seq![part@] =~= done.push(part@));
    out
}

pub fn words(s: &[char]) -> (res: Vec<Vec<char>>)
    ensures
        views(res@) == words_of(s@),
{
    let mut out: Vec<Vec<char>> = Vec::new();
    let mut rest = trimmed_start(s);
    assert(views(out@) + words_of(s@) =~= words_of(s@));
    proof {
        lemma_trim_start_idem(s@);
    }
    while rest.len() > 0
        invariant
            rest@ == trim_start(rest@),
            views(out@) + words_of(rest@) == words_of(s@),
        decreases rest@.len(),
    {
        broadcast use lemma_views_push;

        let ghost done = views(out@);
        let ghost before = rest@;
        let mut k: usize = 0;
        while k < rest.len() && !space(rest[k])
            invariant
                k <= rest@.len(),
                forall|j: int| 0 <= j < k ==> !is_space(rest@[j]),
            decreases rest@.len() - k,
        {
            k += 1;
        }
        proof {
            lemma_first_where(rest@, space_fn(), k as int);
            lemma_trim_start_len(rest@, space_fn());
            assert(k > 0);
        }
        let word = piece(&rest, 0, k);
        let tail = piece(&rest, k, rest.len());
        let next = trimmed_start(&tail);
        proof {
            lemma_trim_start_idem(tail@);
            lemma_trim_start_len(tail@, space_fn());
            assert(words_of(before) == seq![word@] + words_of(tail@));
        }
        out.push(word);
        assert(views(out@) + words_of(next@) =~= done + (seq![word@] + words_of(next@)));
        rest = next;
    }
    assert(words_of(rest@) == Seq::<Seq<char>>::empty());
    assert(views(out@) + Seq::<Seq<char>>::empty() =~= views(out@));
    out
}

proof fn lemma_trim_start_idem(s: Seq<char>)
    ensures
        trim_start(trim_start(s)) == trim_start(s),
        words_of(trim_start(s)) == words_of(s),
    decreases s.len(),
{
    lemma_trim_start_len(s, space_fn());
    let t = trim_start(s);
    assert(trim_start(t) == t);
}

/// What stands before and after the first `c`.
pub fn split_char(s: &[char], c: char) -> (res: Option<(Vec<char>, Vec<char>)>)
    ensures
        pair_view(res) == split_at_char(s@, c),
{
    let k = position(s, 0, c);
    assert(s@.skip(0) =~= s@);
    if k == s.len() {
        None
    } else {
        Some((piece(s, 0, k), piece(s, k + 1, s.len())))
    }
}

/// The views of an optional pair of texts.
pub open spec fn pair_view(pair: Option<(Vec<char>, Vec<char>)>) -> Option<
    (Seq<char>, Seq<char>),
> {
    match pair {
        Some((a, b)) => Some((a@, b@)),
        None => None,
    }
}

/// What stands before and after the first occurrence of `part`.
pub fn split_text(s: &[char], part: &str) -> (res: Option<(Vec<char>, Vec<char>)>)
    ensures
        pair_view(res) == split_at_text(s@, part@),
{
    let p = chars_of(part);
    let length: usize = s.len();
    match find(s, &p, 0) {
        Some(k) => Some((piece(s, 0, k), piece(s, k + p.len(), length))),
        None => None,
    }
}

/// What stands before and after the last occurrence of `part`.
pub fn split_last(s: &[char], part: &str) -> (res: Option<(Vec<char>, Vec<char>)>)
    ensures
        pair_view(res) == split_at_last(s@, part@),
{
    let p = chars_of(part);
    let length: usize = s.len();
    if p.len() > length {
        return None;
    }
    let mut at: usize = length - p.len();
    loop
        invariant
            length == s@.len(),
            at + p@.len() <= length,
            p@ == part@,
            find_last(s@, p@, s@.len() - p@.len()) == find_last(s@, p@, at as int),
        decreases at,
    {
        if stands_at(s, &p, at) {
            return Some((piece(s, 0, at), piece(s, at + p.len(), length)));
        }
        if at == 0 {
            assert(find_last(s@, p@, -1) is None);
            return None;
        }
        at -= 1;
    }
}

// ---------------------------------------------------------------------------
// Rewriting and joining
// ---------------------------------------------------------------------------

/// `s` with every occurrence of `part` replaced, from the left.
pub open spec fn replace(s: Seq<char>, part: Seq<char>, with: Seq<char>) -> Seq<char>
    decreases s.len(),
{
    if part.len() == 0 {
        s
    } else {
        match find_text(s, part) {
            Some(k) => {
                proof {
                    lemma_find_from(s, part, 0);
                }
                s.take(k) + with + replace(s.skip(k + part.len()), part, with)
            },
            None => s,
        }
    }
}

/// Replaces every occurrence of `part`, which is not empty.
pub fn replaced(s: &[char], part: &[char], with: &[char]) -> (res: Vec<char>)
    requires
        part@.len() > 0,
    ensures
        res@ == replace(s@, part@, with@),
{
    let mut out: Vec<char> = Vec::new();
    let mut rest: Vec<char> = piece(s, 0, s.len());
    assert(rest@ =~= s@);
    assert(out@ + replace(rest@, part@, with@) =~= replace(s@, part@, with@));
    loop
        invariant
            part@.len() > 0,
            out@ + replace(rest@, part@, with@) == replace(s@, part@, with@),
        decreases rest@.len(),
    {
        let length: usize = rest.len();
        match find(&rest, part, 0) {
            None => {
                assert(replace(rest@, part@, with@) == rest@);
                push_all(&mut out, &rest);
                return out;
            },
            Some(k) => {
                let ghost before = out@;
                let head = piece(&rest, 0, k);
                let tail = piece(&rest, k + part.len(), length);
                push_all(&mut out, &head);
                push_all(&mut out, with);
                assert(out@ + replace(tail@, part@, with@) =~= before + (head@ + with@ + replace(
                    tail@,
                    part@,
                    with@,
                )));
                rest = tail;
            },
        }
    }
}

/// Puts the characters of `more` at the end of `out`.
pub fn push_all(out: &mut Vec<char>, more: &[char])
    ensures
        final(out)@ == old(out)@ + more@,
{
    let mut i: usize = 0;
    let ghost start = out@;
    assert(start + more@.take(0) =~= start);
    while i < more.len()
        invariant
            i <= more@.len(),
            out@ == start + more@.take(i as int),
        decreases more@.len() - i,
    {
        out.push(more[i]);
        assert(start + more@.take(i + 1) =~= (start + more@.take(i as int)).push(more@[i as int]));
        i += 1;
    }
    assert(more@.take(more@.len() as int) =~= more@);
}

/// `s` with its ASCII letters in lower case.
pub open spec fn lower(s: Seq<char>) -> Seq<char> {
    Seq::new(s.len(), |i: int| lower_char(s[i]))
}

pub fn lowered(s: &[char]) -> (res: Vec<char>)
    ensures
        res@ == lower(s@),
{
    let mut out: Vec<char> = Vec::new();
    let mut i: usize = 0;
    while i < s.len()
        invariant
            i <= s@.len(),
            out@.len() == i,
            forall|j: int| 0 <= j < i ==> out@[j] == lower_char(s@[j]),
        decreases s@.len() - i,
    {
        out.push(lower_of(s[i]));
        i += 1;
    }
    assert(out@ =~= lower(s@));
    out
}

/// Whether two texts are the same but for the case of ASCII letters.
pub fn same_ignoring_case(a: &[char], b: &str) -> (res: bool)
    ensures
        res == (lower(a@) == lower(b@)),
{
    let left = lowered(a);
    let other = chars_of(b);
    let right = lowered(&other);
    equal(&left, &right)
}

/// The texts of `items` with `between` between each two.
pub open spec fn join(items: Seq<Seq<char>>, between: Seq<char>) -> Seq<char>
    decreases items.len(),
{
    if items.len() == 0 {
        Seq::empty()
    } else if items.len() == 1 {
        items[0]
    } else {
        join(items.drop_last(), between) + between + items.last()
    }
}

pub fn join_chars(items: &[Vec<char>], between: &str) -> (res: Vec<char>)
    ensures
        res@ == join(views(items@), between@),
{
    let gap = chars_of(between);
    let mut out: Vec<char> = Vec::new();
    let mut i: usize = 0;
    while i < items.len()
        invariant
            i <= items@.len(),
            gap@ == between@,
            out@ == join(views(items@.take(i as int)), between@),
        decreases items@.len() - i,
    {
        proof {
            let next = views(items@.take(i + 1));
            assert(next.drop_last() =~= views(items@.take(i as int)));
            assert(next.last() == items@[i as int]@);
            if i == 0 {
                assert(Seq::<char>::empty() + items@[0]@ =~= items@[0]@);
            }
        }
        if i > 0 {
            push_all(&mut out, &gap);
        }
        push_all(&mut out, &items[i]);
        i += 1;
    }
    assert(items@.take(items@.len() as int) =~= items@);
    out
}

pub fn join_strings(items: &[String], between: &str) -> (res: String)
    ensures
        res@ == join(views(items@), between@),
{
    let mut out = String::new();
    let mut i: usize = 0;
    while i < items.len()
        invariant
            i <= items@.len(),
            out@ == join(views(items@.take(i as int)), between@),
        decreases items@.len() - i,
    {
        proof {
            let next = views(items@.take(i + 1));
            assert(next.drop_last() =~= views(items@.take(i as int)));
            assert(next.last() == items@[i as int]@);
            if i == 0 {
                assert(Seq::<char>::empty() + items@[0]@ =~= items@[0]@);
            }
        }
        if i > 0 {
            out.append(between);
        }
        out.append(items[i].as_str());
        i += 1;
    }
    assert(items@.take(items@.len() as int) =~= items@);
    out
}

/// The texts made of runs of characters.
pub fn strings_of(items: &[Vec<char>]) -> (res: Vec<String>)
    ensures
        views(res@) == views(items@),
{
    let mut out: Vec<String> = Vec::new();
    let mut i: usize = 0;
    while i < items.len()
        invariant
            i <= items@.len(),
            views(out@) == views(items@).take(i as int),
        decreases items@.len() - i,
    {
        broadcast use lemma_views_push;

        out.push(string_of(&items[i]));
        assert(views(items@).take(i + 1) =~= views(items@).take(i as int).push(items@[i as int]@));
        i += 1;
    }
    assert(views(items@).take(items@.len() as int) =~= views(items@));
    out
}

/// The texts from position `from` on, with spaces between them.
pub fn join_from(items: &[Vec<char>], from: usize) -> (res: Vec<char>)
    requires
        from <= items@.len(),
    ensures
        res@ == join(views(items@).skip(from as int), " "@),
{
    let mut rest: Vec<Vec<char>> = Vec::new();
    let mut i: usize = from;
    while i < items.len()
        invariant
            from <= i <= items@.len(),
            views(rest@) == views(items@).subrange(from as int, i as int),
        decreases items@.len() - i,
    {
        broadcast use lemma_views_push;

        let word = piece(items[i].as_slice(), 0, items[i].len());
        assert(word@ =~= items@[i as int]@);
        rest.push(word);
        assert(views(items@).subrange(from as int, i + 1) =~= views(items@).subrange(
            from as int,
            i as int,
        ).push(items@[i as int]@));
        i += 1;
    }
    assert(views(items@).subrange(from as int, items@.len() as int) =~= views(items@).skip(
        from as int,
    ));
    join_chars(&rest, " ")
}

/// Text behind a whole number of lines adds its own lines.
pub proof fn lemma_lines_concat(a: Seq<char>, b: Seq<char>)
    requires
        a.len() > 0,
        a.last() == '\n',
    ensures
        lines_of(a + b) == lines_of(a) + lines_of(b),
    decreases a.len(),
{
    let p = is_char('\n');
    lemma_first_where_found(a, p);
    let k = first_where(a, p);
    assert(p(a[a.len() - 1]));
    let s = a + b;
    assert forall|j: int| 0 <= j < k implies !p(#[trigger] s[j]) by {
        assert(s[j] == a[j]);
    }
    assert(s[k] == a[k]);
    lemma_first_where(s, p, k);
    assert(s.take(k) =~= a.take(k));
    let rest = a.skip(k + 1);
    assert(s.skip(k + 1) =~= rest + b);
    if rest.len() > 0 {
        lemma_lines_concat(rest, b);
    } else {
        assert(rest + b =~= b);
        assert(lines_of(rest) =~= Seq::empty());
    }
    assert(lines_of(s) =~= lines_of(a) + lines_of(b));
}

/// Whether a text can stand as a line: it holds no newline and does not end with a
/// carriage return.
pub open spec fn is_line(s: Seq<char>) -> bool {
    !s.contains('\n') && (s.len() > 0 ==> s.last() != '\r')
}

/// Lines that are written one below the other are read back as they were.
pub proof fn joined_lines_read_back(items: Seq<Seq<char>>)
    requires
        items.len() > 0,
        forall|i: int| 0 <= i < items.len() ==> is_line(#[trigger] items[i]),
    ensures
        lines_of(join(items, "\n"@) + "\n"@) == items,
    decreases items.len(),
{
    reveal_strlit("\n");
    let last = items.last();
    let end = last + "\n"@;
    let p = is_char('\n');
    assert(is_line(items[items.len() - 1]));
    assert forall|j: int| 0 <= j < last.len() implies !p(#[trigger] end[j]) by {
        assert(end[j] == last[j]);
    }
    assert(end[last.len() as int] == '\n');
    lemma_first_where(end, p, last.len() as int);
    assert(end.take(last.len() as int) =~= last);
    assert(end.skip(last.len() as int + 1) =~= Seq::empty());
    assert(lines_of(Seq::<char>::empty()) =~= Seq::empty());
    assert(lines_of(end) =~= seq![last]);
    if items.len() == 1 {
        assert(items =~= seq![last]);
    } else {
        let before = items.drop_last();
        assert forall|i: int| 0 <= i < before.len() implies is_line(#[trigger] before[i]) by {
            assert(before[i] == items[i]);
        }
        joined_lines_read_back(before);
        let start = join(before, "\n"@) + "\n"@;
        lemma_lines_concat(start, end);
        assert(join(items, "\n"@) + "\n"@ =~= start + end);
        assert(before + seq![last] =~= items);
    }
}

/// A line of a text holds no newline.
pub proof fn lemma_lines_hold_no_newline(s: Seq<char>, i: int)
    requires
        0 <= i < lines_of(s).len(),
    ensures
        !lines_of(s)[i].contains('\n'),
    decreases s.len(),
{
    let p = is_char('\n');
    lemma_first_where_found(s, p);
    let k = first_where(s, p);
    if k >= s.len() {
        assert(lines_of(s) =~= seq![s]);
    } else {
        let first = strip_return(s.take(k));
        assert(lines_of(s) =~= seq![first] + lines_of(s.skip(k + 1)));
        if i == 0 {
            assert forall|j: int| 0 <= j < first.len() implies first[j] != '\n' by {
                assert(first[j] == s[j]);
            }
        } else {
            lemma_lines_hold_no_newline(s.skip(k + 1), i - 1);
            assert(lines_of(s)[i] == lines_of(s.skip(k + 1))[i - 1]);
        }
    }
}

pub proof fn lemma_find_last(s: Seq<char>, part: Seq<char>, at: int, k: int)
    requires
        0 <= k <= at,
        matches_at(s, part, k),
        forall|j: int| k < j <= at ==> !matches_at(s, part, j),
    ensures
        find_last(s, part, at) == Some(k),
    decreases at,
{
    if at > k {
        lemma_find_last(s, part, at - 1, k);
    }
}

// ---------------------------------------------------------------------------
// Putting texts together
// ---------------------------------------------------------------------------

pub fn glue2(a: &str, b: &str) -> (res: String)
    ensures
        res@ == a@ + b@,
{
    let mut out = copy(a);
    out.append(b);
    out
}

pub fn glue3(a: &str, b: &str, c: &str) -> (res: String)
    ensures
        res@ == a@ + b@ + c@,
{
    let mut out = glue2(a, b);
    out.append(c);
    out
}

pub fn glue5(a: &str, b: &str, c: &str, d: &str, e: &str) -> (res: String)
    ensures
        res@ == a@ + b@ + c@ + d@ + e@,
{
    let mut out = glue3(a, b, c);
    out.append(d);
    out.append(e);
    out
}

pub fn glue7(a: &str, b: &str, c: &str, d: &str, e: &str, f: &str, g: &str) -> (res: String)
    ensures
        res@ == a@ + b@ + c@ + d@ + e@ + f@ + g@,
{
    let mut out = glue5(a, b, c, d, e);
    out.append(f);
    out.append(g);
    out
}

/// The index of the first text that `p` holds of; the number of texts where there is none.
pub open spec fn index_where(items: Seq<Seq<char>>, p: spec_fn(Seq<char>) -> bool) -> int
    decreases items.len(),
{
    if items.len() == 0 || p(items[0]) {
        0
    } else {
        1 + index_where(items.skip(1), p)
    }
}

/// The index of the first text that `test` holds of; the number of texts where there is
/// none.
pub(crate) fn find_index(
    items: &[Vec<char>],
    test: impl Fn(&[char]) -> bool,
    Ghost(p): Ghost<spec_fn(Seq<char>) -> bool>,
) -> (res: usize)
    requires
        forall|item: &[char]| test.requires((item,)),
        forall|item: &[char], b: bool| #[trigger] test.ensures((item,), b) ==> b == p(item@),
    ensures
        res == index_where(views(items@), p),
        res <= items@.len(),
{
    let ghost all = views(items@);
    let mut i: usize = 0;
    assert(all.skip(0) =~= all);
    while i < items.len()
        invariant
            i <= items@.len(),
            all == views(items@),
            forall|item: &[char]| test.requires((item,)),
            forall|item: &[char], b: bool| #[trigger] test.ensures((item,), b) ==> b == p(item@),
            index_where(all, p) == i + index_where(all.skip(i as int), p),
        decreases items@.len() - i,
    {
        assert(all.skip(i as int)[0] == items@[i as int]@);
        assert(all.skip(i as int).skip(1) =~= all.skip(i + 1));
        if test(items[i].as_slice()) {
            return i;
        }
        i += 1;
    }
    i
}

/// What `pick` finds in each of the lines, in order.
pub(crate) fn collect<T: View>(
    lines: &[Vec<char>],
    pick: impl Fn(&[char]) -> Option<T>,
    Ghost(spec): Ghost<spec_fn(Seq<char>) -> Option<T::V>>,
) -> (res: Vec<T>)
    requires
        forall|line: &[char]| pick.requires((line,)),
        forall|line: &[char], out: Option<T>|
            #[trigger] pick.ensures((line,), out) ==> opt_view(out) == spec(line@),
    ensures
        views(res@) == views(lines@).filter_map(spec),
{
    let mut out: Vec<T> = Vec::new();
    let mut i: usize = 0;
    assert(views(lines@).take(0) =~= Seq::empty());
    while i < lines.len()
        invariant
            i <= lines@.len(),
            forall|line: &[char]| pick.requires((line,)),
            forall|line: &[char], out: Option<T>|
                #[trigger] pick.ensures((line,), out) ==> opt_view(out) == spec(line@),
            views(out@) == views(lines@).take(i as int).filter_map(spec),
        decreases lines@.len() - i,
    {
        broadcast use lemma_views_push;

        let ghost before = views(out@);
        let ghost next = views(lines@).take(i + 1);
        assert(next.drop_last() =~= views(lines@).take(i as int));
        assert(next.last() == lines@[i as int]@);
        match pick(lines[i].as_slice()) {
            Some(item) => {
                out.push(item);
                assert(before + seq![item@] =~= before.push(item@));
            },
            None => {},
        }
        i += 1;
    }
    assert(views(lines@).take(lines@.len() as int) =~= views(lines@));
    out
}

/// Whether `p` holds of every character of `s`.
pub open spec fn every_char(s: Seq<char>, p: spec_fn(char) -> bool) -> bool {
    forall|i: int| 0 <= i < s.len() ==> p(#[trigger] s[i])
}

/// Whether `test` holds of every character.
pub(crate) fn all_chars(
    s: &[char],
    test: impl Fn(char) -> bool,
    Ghost(p): Ghost<spec_fn(char) -> bool>,
) -> (res: bool)
    requires
        forall|c: char| test.requires((c,)),
        forall|c: char, b: bool| #[trigger] test.ensures((c,), b) ==> b == p(c),
    ensures
        res == every_char(s@, p),
{
    let mut i: usize = 0;
    while i < s.len()
        invariant
            i <= s@.len(),
            forall|c: char| test.requires((c,)),
            forall|c: char, b: bool| #[trigger] test.ensures((c,), b) ==> b == p(c),
            forall|j: int| 0 <= j < i ==> p(#[trigger] s@[j]),
        decreases s@.len() - i,
    {
        if !test(s[i]) {
            return false;
        }
        i += 1;
    }
    true
}

/// Joined items begin with the first.
pub proof fn lemma_join_front(items: Seq<Seq<char>>, between: Seq<char>)
    requires
        items.len() > 1,
    ensures
        join(items, between) == items[0] + between + join(items.skip(1), between),
    decreases items.len(),
{
    let rest = items.skip(1);
    if items.len() == 2 {
        assert(items.drop_last() =~= seq![items[0]]);
        assert(join(items.drop_last(), between) == items[0]);
        assert(rest =~= seq![items[1]]);
    } else {
        lemma_join_front(items.drop_last(), between);
        assert(items.drop_last().skip(1) =~= rest.drop_last());
        assert(join(items, between) =~= items[0] + between + (join(rest.drop_last(), between)
            + between + items.last()));
    }
}

/// Whether a text is one word: not empty, and without white space.
pub open spec fn is_word(s: Seq<char>) -> bool {
    s.len() > 0 && forall|i: int| 0 <= i < s.len() ==> !is_space(#[trigger] s[i])
}

/// Words that are joined by blanks are read back.
pub proof fn joined_words_read_back(items: Seq<Seq<char>>)
    requires
        forall|i: int| 0 <= i < items.len() ==> is_word(#[trigger] items[i]),
    ensures
        words_of(join(items, " "@)) == items,
    decreases items.len(),
{
    reveal_strlit(" ");
    let s = join(items, " "@);
    if items.len() == 0 {
        assert(trim_start(s) == s);
        assert(words_of(s) =~= items);
    } else {
        let first = items[0];
        assert(is_word(items[0]));
        if items.len() == 1 {
            assert(trim_start(s) == s);
            lemma_first_where(s, space_fn(), s.len() as int);
            assert(s.take(s.len() as int) =~= s);
            assert(s.skip(s.len() as int) =~= Seq::empty());
            assert(words_of(Seq::empty()) =~= Seq::empty()) by {
                assert(trim_start(Seq::empty()) == Seq::<char>::empty());
            }
            assert(words_of(s) =~= items);
        } else {
            let rest = items.skip(1);
            lemma_join_front(items, " "@);
            let tail = join(rest, " "@);
            assert(s == first + " "@ + tail);
            assert(s[0] == first[0]);
            assert(trim_start(s) == s);
            assert forall|j: int| 0 <= j < first.len() implies !space_fn()(#[trigger] s[j]) by {
                assert(s[j] == first[j]);
            }
            assert(s[first.len() as int] == ' ');
            lemma_first_where(s, space_fn(), first.len() as int);
            assert(s.take(first.len() as int) =~= first);
            assert(s.skip(first.len() as int) =~= " "@ + tail);
            assert forall|i: int| 0 <= i < rest.len() implies is_word(#[trigger] rest[i]) by {
                assert(rest[i] == items[i + 1]);
            }
            joined_words_read_back(rest);
            assert((" "@ + tail).skip(1) =~= tail);
            assert(trim_start(" "@ + tail) == trim_start(tail));
            lemma_trim_start_idem(tail);
            lemma_trim_start_idem(" "@ + tail);
            assert(words_of(" "@ + tail) == words_of(tail));
            assert(words_of(s) =~= items);
        }
    }
}

/// Parts that are joined by a separator that none of them holds are read back.
pub proof fn joined_parts_read_back(items: Seq<Seq<char>>, c: char)
    requires
        items.len() > 0,
        forall|i: int| 0 <= i < items.len() ==> !(#[trigger] items[i]).contains(c),
    ensures
        parts_of(join(items, seq![c]), c) == items,
    decreases items.len(),
{
    let s = join(items, seq![c]);
    let first = items[0];
    assert forall|j: int| 0 <= j < first.len() implies !is_char(c)(#[trigger] first[j]) by {
        if first[j] == c {
            assert(items[0].contains(c));
        }
    }
    if items.len() == 1 {
        lemma_first_where(s, is_char(c), s.len() as int);
        assert(parts_of(s, c) =~= items);
    } else {
        let rest = items.skip(1);
        lemma_join_front(items, seq![c]);
        let tail = join(rest, seq![c]);
        assert(s == first + seq![c] + tail);
        assert forall|j: int| 0 <= j < first.len() implies !is_char(c)(#[trigger] s[j]) by {
            assert(s[j] == first[j]);
        }
        assert(s[first.len() as int] == c);
        lemma_first_where(s, is_char(c), first.len() as int);
        assert(s.take(first.len() as int) =~= first);
        assert(s.skip(first.len() as int + 1) =~= tail);
        assert forall|i: int| 0 <= i < rest.len() implies !(#[trigger] rest[i]).contains(c) by {
            assert(rest[i] == items[i + 1]);
        }
        joined_parts_read_back(rest, c);
        assert(parts_of(s, c) =~= items);
    }
}

/// Trimming takes off white space and nothing else: a text that neither begins nor ends
/// with it stays as it is, whatever white space stands around it.
pub proof fn trimming_takes_off_spaces(before: Seq<char>, s: Seq<char>, after: Seq<char>)
    requires
        forall|i: int| 0 <= i < before.len() ==> is_space(#[trigger] before[i]),
        forall|i: int| 0 <= i < after.len() ==> is_space(#[trigger] after[i]),
        s.len() > 0 ==> !is_space(s[0]) && !is_space(s.last()),
    ensures
        trim(before + s + after) == s,
    decreases before.len() + after.len(),
{
    let all = before + s + after;
    if before.len() > 0 {
        assert(is_space(before[0]));
        assert(all.skip(1) =~= before.skip(1) + s + after);
        assert(all[0] == before[0]);
        trimming_takes_off_spaces(before.skip(1), s, after);
    } else if s.len() > 0 {
        assert(all =~= s + after);
        assert(all[0] == s[0]);
        assert(trim_start(all) == all);
        lemma_trim_tail(s, after);
    } else {
        assert(all =~= after);
        if after.len() > 0 {
            assert(is_space(after[0]));
            assert(after.skip(1) =~= Seq::<char>::empty() + Seq::<char>::empty() + after.skip(1));
            trimming_takes_off_spaces(Seq::empty(), Seq::empty(), after.skip(1));
        }
        assert(trim(all) =~= s);
    }
}

proof fn lemma_trim_tail(s: Seq<char>, after: Seq<char>)
    requires
        s.len() > 0,
        !is_space(s.last()),
        forall|i: int| 0 <= i < after.len() ==> is_space(#[trigger] after[i]),
    ensures
        trim_end(s + after) == s,
    decreases after.len(),
{
    if after.len() > 0 {
        assert(is_space(after[after.len() - 1]));
        assert((s + after).drop_last() =~= s + after.drop_last());
        assert((s + after).last() == after.last());
        lemma_trim_tail(s, after.drop_last());
    } else {
        assert(s + after =~= s);
    }
}

/// A text is split at the first separator: what stands before and behind it is read back.
pub proof fn splits_read_back(before: Seq<char>, c: char, after: Seq<char>)
    requires
        !before.contains(c),
    ensures
        split_at_char(before + seq![c] + after, c) == Some((before, after)),
{
    let s = before + seq![c] + after;
    assert forall|j: int| 0 <= j < before.len() implies !is_char(c)(#[trigger] s[j]) by {
        assert(s[j] == before[j]);
        assert(before.contains(before[j]));
    }
    assert(s[before.len() as int] == c);
    lemma_first_where(s, is_char(c), before.len() as int);
    assert(s.take(before.len() as int) =~= before);
    assert(s.skip(before.len() as int + 1) =~= after);
}

/// Parts up to a limit are read back: the last keeps what it holds, separators too.
pub proof fn limited_parts_read_back(items: Seq<Seq<char>>, c: char)
    requires
        items.len() > 0,
        forall|i: int| 0 <= i < items.len() - 1 ==> !(#[trigger] items[i]).contains(c),
    ensures
        parts_up_to(join(items, seq![c]), c, items.len()) == items,
    decreases items.len(),
{
    let s = join(items, seq![c]);
    if items.len() == 1 {
        assert(parts_up_to(s, c, 1) =~= items);
    } else {
        let rest = items.skip(1);
        lemma_join_front(items, seq![c]);
        assert(!items[0].contains(c));
        splits_read_back(items[0], c, join(rest, seq![c]));
        assert forall|i: int| 0 <= i < rest.len() - 1 implies !(#[trigger] rest[i]).contains(c) by {
            assert(rest[i] == items[i + 1]);
        }
        limited_parts_read_back(rest, c);
        assert(parts_up_to(s, c, items.len()) =~= items);
    }
}

/// Joining goes on where it was left.
pub proof fn lemma_join_concat(a: Seq<Seq<char>>, b: Seq<Seq<char>>, between: Seq<char>)
    requires
        a.len() > 0,
        b.len() > 0,
    ensures
        join(a + b, between) == join(a, between) + between + join(b, between),
    decreases a.len(),
{
    lemma_join_front(a + b, between);
    if a.len() == 1 {
        assert((a + b).skip(1) =~= b);
    } else {
        lemma_join_front(a, between);
        lemma_join_concat(a.skip(1), b, between);
        assert((a + b).skip(1) =~= a.skip(1) + b);
        assert(a[0] + between + (join(a.skip(1), between) + between + join(b, between)) =~= a[0]
            + between + join(a.skip(1), between) + between + join(b, between));
    }
}

/// Letters and digits are those of ASCII; lower case changes the twenty-six capitals and
/// nothing else; blanks are those of Unicode.
pub proof fn characters_are_told_apart(c: char)
    ensures
        is_digit(c) <==> 48 <= c as u32 <= 57,
        is_letter(c) <==> 65 <= c as u32 <= 90 || 97 <= c as u32 <= 122,
        is_alphanumeric(c) <==> is_digit(c) || is_letter(c),
        65 <= c as u32 <= 90 ==> lower_char(c) as u32 == c as u32 + 32,
        !(65 <= c as u32 <= 90) ==> lower_char(c) == c,
        is_space(' ') && is_space('\t') && is_space('\n') && is_space('\r'),
        33 <= c as u32 <= 126 ==> !is_space(c),
{
}

/// What is replaced is gone, and what stands around it stays.
pub proof fn replacing_keeps_the_rest(before: Seq<char>, part: Seq<char>, with: Seq<char>, after: Seq<char>)
    requires
        part.len() > 0,
        forall|k: int| 0 <= k < before.len() ==> !matches_at(before + part + after, part, k),
    ensures
        replace(before + part + after, part, with) == before + with + replace(after, part, with),
        !contains_text(before, part) ==> replace(before, part, with) == before,
{
    let s = before + part + after;
    let k = before.len() as int;
    assert(s.subrange(k, k + part.len()) =~= part);
    assert(matches_at(s, part, k));
    lemma_find_from(s, part, 0);
    lemma_find_from(before, part, 0);
    assert(s.take(k) =~= before);
    assert(s.skip(k + part.len()) =~= after);
}

} // verus!
