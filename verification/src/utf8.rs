//! Decoding of UTF-8 that arrives in chunks: a character may be cut in two by
//! the end of a chunk, and bytes that are no UTF-8 become replacement characters.
use vstd::prelude::*;
use vstd::utf8::*;

verus! {

broadcast use vstd::string::group_string_axioms;

/// `char::from_u32`: the character of a Unicode scalar value, and nothing for a
/// number that is none.
pub assume_specification[ char::from_u32 ](value: u32) -> (res: Option<char>)
    ensures
        match res {
            Some(c) => is_scalar(value) && c as u32 == value,
            None => !is_scalar(value),
        },
;

/// What stands at the front of a run of bytes.
pub enum Front {
    /// A character of so many bytes.
    Scalar(int),
    /// So many bytes that no continuation can make a character.
    Broken(int),
    /// The beginning of a character whose rest is not there yet.
    Cut,
}

/// How many bytes a character with this first byte has; 0 where none has it.
pub open spec fn width(first: u8) -> int {
    if first < 0x80 {
        1
    } else if 0xc2 <= first <= 0xdf {
        2
    } else if 0xe0 <= first <= 0xef {
        3
    } else if 0xf0 <= first <= 0xf4 {
        4
    } else {
        0
    }
}

/// Whether `second` can follow `first`.
pub open spec fn follows(first: u8, second: u8) -> bool {
    if first == 0xe0 {
        0xa0 <= second <= 0xbf
    } else if first == 0xed {
        0x80 <= second <= 0x9f
    } else if first == 0xf0 {
        0x90 <= second <= 0xbf
    } else if first == 0xf4 {
        0x80 <= second <= 0x8f
    } else {
        0x80 <= second <= 0xbf
    }
}

pub open spec fn front(bytes: Seq<u8>) -> Front {
    let w = width(bytes[0]);
    if w == 0 {
        Front::Broken(1)
    } else if w == 1 {
        Front::Scalar(1)
    } else if bytes.len() < 2 {
        Front::Cut
    } else if !follows(bytes[0], bytes[1]) {
        Front::Broken(1)
    } else if w == 2 {
        Front::Scalar(2)
    } else if bytes.len() < 3 {
        Front::Cut
    } else if !is_continuation_byte(bytes[2]) {
        Front::Broken(2)
    } else if w == 3 {
        Front::Scalar(3)
    } else if bytes.len() < 4 {
        Front::Cut
    } else if !is_continuation_byte(bytes[3]) {
        Front::Broken(3)
    } else {
        Front::Scalar(4)
    }
}

/// The text of `bytes`, up to a character that is cut off at their end.
pub open spec fn text_of(bytes: Seq<u8>) -> Seq<char>
    decreases bytes.len(),
{
    if bytes.len() == 0 {
        Seq::empty()
    } else {
        match front(bytes) {
            Front::Scalar(n) => seq![decode_first_scalar(bytes) as char] + text_of(bytes.skip(n)),
            Front::Broken(n) => seq!['\u{FFFD}'] + text_of(bytes.skip(n)),
            Front::Cut => Seq::empty(),
        }
    }
}

/// The bytes of a character that is cut off at the end of `bytes`.
pub open spec fn left_of(bytes: Seq<u8>) -> Seq<u8>
    decreases bytes.len(),
{
    if bytes.len() == 0 {
        bytes
    } else {
        match front(bytes) {
            Front::Scalar(n) => left_of(bytes.skip(n)),
            Front::Broken(n) => left_of(bytes.skip(n)),
            Front::Cut => bytes,
        }
    }
}

/// The text of `bytes` where nothing follows them: a character that is cut off
/// is a replacement character.
pub open spec fn lossy_text(bytes: Seq<u8>) -> Seq<char> {
    if left_of(bytes).len() == 0 {
        text_of(bytes)
    } else {
        text_of(bytes).push('\u{FFFD}')
    }
}

proof fn lemma_two_bytes(a: u8, b: u8)
    requires
        is_leading_byte_width_2(a),
        is_continuation_byte(b),
    ensures
        0x80 <= codepoint_width_2(a, b) <==> width(a) == 2,
        codepoint_width_2(a, b) < 0x800,
{
    assert(0xc0 <= a <= 0xdf && 0x80 <= b <= 0xbf ==> (0x80u32 <= ((((a & 0x1f) as u32) << 6u32) | ((b
        & 0x3f) as u32)) <==> 0xc2 <= a)) by (bit_vector);
    assert(((((a & 0x1f) as u32) << 6u32) | ((b & 0x3f) as u32)) < 0x800u32) by (bit_vector);
}

proof fn lemma_three_bytes(a: u8, b: u8, c: u8)
    requires
        is_leading_byte_width_3(a),
        is_continuation_byte(b),
        is_continuation_byte(c),
    ensures
        (0x800 <= codepoint_width_3(a, b, c) && not_surrogate(codepoint_width_3(a, b, c)))
            <==> follows(a, b),
        codepoint_width_3(a, b, c) < 0x10000,
{
    assert(0xe0 <= a <= 0xef && 0x80 <= b <= 0xbf && 0x80 <= c <= 0xbf ==> ({
        let v: u32 = (((a & 0x0f) as u32) << 12u32) | (((b & 0x3f) as u32) << 6u32) | ((c
            & 0x3f) as u32);
        v < 0x10000u32 && ((0x800u32 <= v && !(0xD800u32 <= v && v <= 0xDFFFu32)) <==> (if a
            == 0xe0 {
            0xa0 <= b
        } else if a == 0xed {
            b <= 0x9f
        } else {
            true
        }))
    })) by (bit_vector);
}

proof fn lemma_four_bytes(a: u8, b: u8, c: u8, d: u8)
    requires
        is_leading_byte_width_4(a),
        is_continuation_byte(b),
        is_continuation_byte(c),
        is_continuation_byte(d),
    ensures
        (0x10000 <= codepoint_width_4(a, b, c, d) <= 0x10ffff) <==> (width(a) == 4 && follows(
            a,
            b,
        )),
{
    assert(0xf0 <= a <= 0xf7 && 0x80 <= b <= 0xbf && 0x80 <= c <= 0xbf && 0x80 <= d <= 0xbf ==> ({
        let v: u32 = (((a & 0x07) as u32) << 18u32) | (((b & 0x3f) as u32) << 12u32) | (((c
            & 0x3f) as u32) << 6u32) | ((d & 0x3f) as u32);
        (0x10000u32 <= v && v <= 0x10ffffu32) <==> (a <= 0xf4 && (if a == 0xf0 {
            0x90 <= b
        } else if a == 0xf4 {
            b <= 0x8f
        } else {
            true
        }))
    })) by (bit_vector);
}

/// A character stands at the front exactly where UTF-8 says so.
proof fn lemma_front(bytes: Seq<u8>)
    requires
        bytes.len() > 0,
    ensures
        front(bytes) is Scalar <==> valid_first_scalar(bytes),
        front(bytes) is Scalar ==> front(bytes)->Scalar_0 == length_of_first_scalar(bytes)
            && is_scalar(decode_first_scalar(bytes)),
        match front(bytes) {
            Front::Scalar(n) => 0 < n <= bytes.len(),
            Front::Broken(n) => 0 < n <= bytes.len(),
            Front::Cut => bytes.len() < 4,
        },
{
    let a = bytes[0];
    if is_leading_byte_width_1(a) {
        assert(a < 0x80 ==> ((a & 0x7f) as u32) < 0x80u32) by (bit_vector);
    } else if is_leading_byte_width_2(a) {
        if bytes.len() >= 2 && is_continuation_byte(bytes[1]) {
            lemma_two_bytes(a, bytes[1]);
        }
    } else if is_leading_byte_width_3(a) {
        if bytes.len() >= 3 && is_continuation_byte(bytes[1]) && is_continuation_byte(bytes[2]) {
            lemma_three_bytes(a, bytes[1], bytes[2]);
        }
    } else if is_leading_byte_width_4(a) {
        if bytes.len() >= 4 && is_continuation_byte(bytes[1]) && is_continuation_byte(bytes[2])
            && is_continuation_byte(bytes[3]) {
            lemma_four_bytes(a, bytes[1], bytes[2], bytes[3]);
        }
    }
}

/// Well-formed UTF-8 is decoded to the text it encodes, with nothing left over.
pub proof fn valid_text_is_kept(bytes: Seq<u8>)
    requires
        valid_utf8(bytes),
    ensures
        text_of(bytes) == decode_utf8(bytes),
        left_of(bytes).len() == 0,
        lossy_text(bytes) == decode_utf8(bytes),
    decreases bytes.len(),
{
    if bytes.len() > 0 {
        lemma_front(bytes);
        assert(bytes.skip(length_of_first_scalar(bytes)) =~= pop_first_scalar(bytes));
        valid_text_is_kept(pop_first_scalar(bytes));
    }
}

/// Where the bytes are cut into chunks makes no difference: decoding a chunk, and
/// then the next one behind what was left, gives the text of both together.
pub proof fn chunks_do_not_matter(first: Seq<u8>, next: Seq<u8>)
    ensures
        text_of(first + next) == text_of(first) + text_of(left_of(first) + next),
        left_of(first + next) == left_of(left_of(first) + next),
    decreases first.len(),
{
    let both = first + next;
    if first.len() == 0 {
        assert(both =~= next);
        assert(left_of(first) + next =~= next);
    } else {
        lemma_front(first);
        match front(first) {
            Front::Cut => {},
            Front::Scalar(n) => {
                assert(both.skip(n) =~= first.skip(n) + next);
                chunks_do_not_matter(first.skip(n), next);
            },
            Front::Broken(n) => {
                assert(both.skip(n) =~= first.skip(n) + next);
                chunks_do_not_matter(first.skip(n), next);
            },
        }
    }
}

/// Decodes `bytes` from `at` on by one step: the character, or nothing where it
/// is cut off, and how many bytes it takes.
fn step(bytes: &[u8], at: usize) -> (res: Option<(char, usize)>)
    requires
        at < bytes@.len(),
    ensures
        match res {
            Some((c, n)) => 0 < n <= bytes@.len() - at && match front(bytes@.skip(at as int)) {
                Front::Scalar(k) => k == n && c == decode_first_scalar(
                    bytes@.skip(at as int),
                ) as char,
                Front::Broken(k) => k == n && c == '\u{FFFD}',
                Front::Cut => false,
            },
            None => front(bytes@.skip(at as int)) is Cut,
        },
{
    let ghost rest = bytes@.skip(at as int);
    proof {
        lemma_front(rest);
    }
    let left: usize = bytes.len() - at;
    let a = bytes[at];
    assert(rest[0] == a);
    if a < 0x80 {
        let value: u32 = (a & 0x7f) as u32;
        return Some((scalar(value), 1));
    }
    if a < 0xc2 || a > 0xf4 {
        return Some(('\u{FFFD}', 1));
    }
    if left < 2 {
        return None;
    }
    let b = bytes[at + 1];
    assert(rest[1] == b);
    let low: u8 = if a == 0xe0 {
        0xa0
    } else if a == 0xf0 {
        0x90
    } else {
        0x80
    };
    let high: u8 = if a == 0xed {
        0x9f
    } else if a == 0xf4 {
        0x8f
    } else {
        0xbf
    };
    if b < low || b > high {
        return Some(('\u{FFFD}', 1));
    }
    if a < 0xe0 {
        let value: u32 = (((a & 0x1f) as u32) << 6u32) | ((b & 0x3f) as u32);
        return Some((scalar(value), 2));
    }
    if left < 3 {
        return None;
    }
    let c = bytes[at + 2];
    assert(rest[2] == c);
    if c < 0x80 || c > 0xbf {
        return Some(('\u{FFFD}', 2));
    }
    if a < 0xf0 {
        let value: u32 = (((a & 0x0f) as u32) << 12u32) | (((b & 0x3f) as u32) << 6u32) | ((c
            & 0x3f) as u32);
        return Some((scalar(value), 3));
    }
    if left < 4 {
        return None;
    }
    let d = bytes[at + 3];
    assert(rest[3] == d);
    if d < 0x80 || d > 0xbf {
        return Some(('\u{FFFD}', 3));
    }
    let value: u32 = (((a & 0x07) as u32) << 18u32) | (((b & 0x3f) as u32) << 12u32) | (((c
        & 0x3f) as u32) << 6u32) | ((d & 0x3f) as u32);
    Some((scalar(value), 4))
}

/// The character of a scalar value.
fn scalar(value: u32) -> (res: char)
    requires
        is_scalar(value),
    ensures
        res == value as char,
{
    match char::from_u32(value) {
        Some(c) => {
            proof {
                char_u32_cast(c, value);
            }
            c
        },
        None => '\u{FFFD}',
    }
}

/// Decodes what `pending` and `data` hold together. The bytes of a character that
/// is cut off at the end stay in `pending`.
pub fn decode_chunk(pending: &mut Vec<u8>, data: &[u8]) -> (res: String)
    ensures
        res@ == text_of(old(pending)@ + data@),
        final(pending)@ == left_of(old(pending)@ + data@),
{
    let mut bytes: Vec<u8> = Vec::new();
    bytes.append(pending);
    extend(&mut bytes, data);
    let ghost all = bytes@;
    let mut out = String::new();
    let mut at: usize = 0;
    assert(all.skip(0) =~= all);
    assert(out@ + text_of(all) =~= text_of(all));
    while at < bytes.len()
        invariant
            at <= bytes@.len(),
            all == bytes@,
            out@ + text_of(all.skip(at as int)) == text_of(all),
            left_of(all.skip(at as int)) == left_of(all),
        ensures
            text_of(all.skip(at as int)).len() == 0,
            left_of(all.skip(at as int)) == all.skip(at as int),
            at <= bytes@.len(),
            out@ + text_of(all.skip(at as int)) == text_of(all),
            left_of(all.skip(at as int)) == left_of(all),
        decreases bytes@.len() - at,
    {
        let ghost rest = all.skip(at as int);
        match step(bytes.as_slice(), at) {
            Some((c, n)) => {
                let ghost before = out@;
                out.push(c);
                assert(rest.skip(n as int) =~= all.skip(at + n));
                assert(out@ + text_of(all.skip(at + n)) =~= before + (seq![c] + text_of(
                    all.skip(at + n),
                )));
                at += n;
            },
            None => {
                break;
            },
        }
    }
    assert(out@ + text_of(all.skip(at as int)) =~= out@);
    let mut left = bytes.split_off(at);
    pending.append(&mut left);
    assert(pending@ =~= all.skip(at as int));
    out
}

/// Decodes `bytes`, with replacement characters for what is no UTF-8.
pub fn decode_lossy(bytes: &[u8]) -> (res: String)
    ensures
        res@ == lossy_text(bytes@),
{
    let mut left: Vec<u8> = Vec::new();
    let mut out = decode_chunk(&mut left, bytes);
    assert(Seq::<u8>::empty() + bytes@ =~= bytes@);
    if left.len() > 0 {
        out.push('\u{FFFD}');
    }
    out
}

/// Ends a stream: a character that is still incomplete becomes a replacement
/// character.
pub fn flush(pending: &mut Vec<u8>) -> (res: String)
    ensures
        res@ == lossy_text(old(pending)@),
        final(pending)@.len() == 0,
{
    let out = decode_lossy(pending.as_slice());
    pending.clear();
    out
}

/// `std::str::from_utf8`: the bytes as the text that they encode, which is not copied, where
/// they are valid UTF-8.
#[verifier::external_body]
pub(crate) fn borrowed_text(bytes: &[u8]) -> (res: Option<&str>)
    ensures
        match res {
            Some(text) => valid_utf8(bytes@) && text@ == decode_utf8(bytes@),
            None => !valid_utf8(bytes@),
        },
{
    std::str::from_utf8(bytes).ok()
}

/// The text that `bytes` encode, where they are UTF-8.
pub fn decode_strict(bytes: &[u8]) -> (res: Option<String>)
    ensures
        match res {
            Some(text) => valid_utf8(bytes@) && text@ == decode_utf8(bytes@),
            None => !valid_utf8(bytes@),
        },
{
    let mut out = String::new();
    let mut at: usize = 0;
    assert(bytes@.skip(0) =~= bytes@);
    proof {
        if valid_utf8(bytes@) {
            assert(out@ + decode_utf8(bytes@) =~= decode_utf8(bytes@));
        }
    }
    while at < bytes.len()
        invariant
            at <= bytes@.len(),
            valid_utf8(bytes@.skip(at as int)) == valid_utf8(bytes@),
            valid_utf8(bytes@) ==> out@ + decode_utf8(bytes@.skip(at as int)) == decode_utf8(
                bytes@,
            ),
        decreases bytes@.len() - at,
    {
        let ghost rest = bytes@.skip(at as int);
        proof {
            lemma_front(rest);
        }
        match step(bytes, at) {
            Some((c, n)) => {
                if c == '\u{FFFD}' && !(n == 3 && bytes[at] == 0xef) {
                    assert(!valid_first_scalar(rest)) by {
                        lemma_replacement(rest);
                    }
                    return None;
                }
                proof {
                    lemma_replacement(rest);
                    assert(pop_first_scalar(rest) =~= bytes@.skip(at + n));
                    if valid_utf8(bytes@) {
                        assert((out@.push(c)) + decode_utf8(bytes@.skip(at + n)) =~= out@ + (seq![c]
                            + decode_utf8(bytes@.skip(at + n))));
                    }
                }
                out.push(c);
                at += n;
            },
            None => {
                return None;
            },
        }
    }
    proof {
        if valid_utf8(bytes@) {
            assert(bytes@.skip(at as int).len() == 0);
            assert(out@ + decode_utf8(bytes@.skip(at as int)) =~= out@);
        }
    }
    Some(out)
}

/// The replacement character itself has three bytes, the first of them 0xef; a
/// broken run of three bytes begins otherwise.
proof fn lemma_replacement(bytes: Seq<u8>)
    requires
        bytes.len() > 0,
    ensures
        valid_first_scalar(bytes) && decode_first_scalar(bytes) == 0xfffd ==> bytes[0] == 0xef
            && length_of_first_scalar(bytes) == 3,
        bytes[0] == 0xef ==> front(bytes) != Front::Broken(3),
{
    lemma_front(bytes);
    let a = bytes[0];
    if valid_first_scalar(bytes) {
        if is_leading_byte_width_1(a) {
            assert(((a & 0x7f) as u32) < 0x80u32) by (bit_vector);
        } else if is_leading_byte_width_2(a) {
            lemma_two_bytes(a, bytes[1]);
        } else if is_leading_byte_width_3(a) {
            let b = bytes[1];
            let c = bytes[2];
            assert(0xe0 <= a <= 0xef && ((((a & 0x0f) as u32) << 12u32) | (((b & 0x3f) as u32)
                << 6u32) | ((c & 0x3f) as u32)) == 0xfffdu32 ==> a == 0xef) by (bit_vector);
        } else {
            lemma_four_bytes(a, bytes[1], bytes[2], bytes[3]);
        }
    }
}

/// Puts `more` at the end of `bytes`.
pub fn extend(bytes: &mut Vec<u8>, more: &[u8])
    ensures
        final(bytes)@ == old(bytes)@ + more@,
{
    let ghost start = bytes@;
    let mut i: usize = 0;
    assert(start + more@.take(0) =~= start);
    while i < more.len()
        invariant
            i <= more@.len(),
            bytes@ == start + more@.take(i as int),
        decreases more@.len() - i,
    {
        bytes.push(more[i]);
        assert(start + more@.take(i + 1) =~= (start + more@.take(i as int)).push(more@[i as int]));
        i += 1;
    }
    assert(more@.take(more@.len() as int) =~= more@);
}

// ---------------------------------------------------------------------------
// Lengths in bytes
// ---------------------------------------------------------------------------

/// How many bytes the UTF-8 form of a character has.
pub open spec fn char_width(c: char) -> nat {
    if c <= '\u{7f}' {
        1
    } else if c <= '\u{7ff}' {
        2
    } else if c <= '\u{ffff}' {
        3
    } else {
        4
    }
}

/// How many bytes the UTF-8 form of a text has.
pub open spec fn byte_len(s: Seq<char>) -> nat
    decreases s.len(),
{
    if s.len() == 0 {
        0
    } else {
        byte_len(s.drop_last()) + char_width(s.last())
    }
}

pub proof fn lemma_byte_len(s: Seq<char>)
    ensures
        encode_utf8(s).len() == byte_len(s),
    decreases s.len(),
{
    if s.len() > 0 {
        lemma_encode_push(s.drop_last(), s.last());
        assert(s.drop_last().push(s.last()) =~= s);
        lemma_byte_len(s.drop_last());
    }
}

proof fn lemma_encode_push(s: Seq<char>, c: char)
    ensures
        encode_utf8(s.push(c)).len() == encode_utf8(s).len() + char_width(c),
    decreases s.len(),
{
    broadcast use char_is_scalar;

    if s.len() == 0 {
        assert(s.push(c).drop_first() =~= Seq::<char>::empty());
        assert(s.push(c)[0] == c);
        reveal_with_fuel(encode_utf8, 2);
    } else {
        lemma_encode_push(s.drop_first(), c);
        assert(s.push(c).drop_first() =~= s.drop_first().push(c));
        assert(s.push(c)[0] == s[0]);
    }
}

/// A longer text has more bytes.
pub proof fn lemma_byte_len_take(s: Seq<char>, k: int)
    requires
        0 <= k <= s.len(),
    ensures
        byte_len(s.take(k)) <= byte_len(s),
    decreases s.len() - k,
{
    if k == s.len() {
        assert(s.take(k) =~= s);
    } else {
        assert(s.take(k + 1).drop_last() =~= s.take(k));
        lemma_byte_len_take(s, k + 1);
    }
}

/// How many bytes `text` has.
pub fn byte_length(text: &str) -> (res: usize)
    ensures
        res == byte_len(text@),
{
    proof {
        lemma_byte_len(text@);
    }
    text.as_bytes().len()
}

/// How many bytes a character has.
pub fn width_of(c: char) -> (res: usize)
    ensures
        res == char_width(c),
{
    if c <= '\u{7f}' {
        1
    } else if c <= '\u{7ff}' {
        2
    } else if c <= '\u{ffff}' {
        3
    } else {
        4
    }
}

} // verus!
