//! Digests and base64.
use vstd::prelude::*;

verus! {

broadcast use vstd::string::group_string_axioms;

/// The base64 character of a number below 64.
pub open spec fn base64_char(n: int) -> char {
    if n < 26 {
        (('A' as int) + n) as char
    } else if n < 52 {
        (('a' as int) + (n - 26)) as char
    } else if n < 62 {
        (('0' as int) + (n - 52)) as char
    } else if n == 62 {
        '+'
    } else {
        '/'
    }
}

/// Bytes in base64: each three of them are four characters of six bits. `padded`
/// says whether the last group is filled up with `=`.
pub open spec fn base64_text(bytes: Seq<u8>, padded: bool) -> Seq<char>
    decreases bytes.len(),
{
    if bytes.len() == 0 {
        Seq::empty()
    } else {
        let a = bytes[0] as int;
        if bytes.len() == 1 {
            seq![base64_char(a / 4), base64_char((a % 4) * 16)] + (if padded {
                seq!['=', '=']
            } else {
                seq![]
            })
        } else {
            let b = bytes[1] as int;
            let first = seq![base64_char(a / 4), base64_char((a % 4) * 16 + b / 16)];
            if bytes.len() == 2 {
                first + seq![base64_char((b % 16) * 4)] + (if padded {
                    seq!['=']
                } else {
                    seq![]
                })
            } else {
                let c = bytes[2] as int;
                first + seq![base64_char((b % 16) * 4 + c / 64), base64_char(c % 64)]
                    + base64_text(bytes.skip(3), padded)
            }
        }
    }
}

/// The SHA-256 digest of bytes, as `sha2::Sha256` computes it.
pub uninterp spec fn sha256_digest(bytes: Seq<u8>) -> Seq<u8>;

/// `sha2::Sha256::digest`: the digest of the bytes, which has 32 bytes.
#[verifier::external_body]
pub(crate) fn sha256(bytes: &[u8]) -> (res: Vec<u8>)
    ensures
        res@ == sha256_digest(bytes@),
        res@.len() == 32,
{
    <sha2::Sha256 as sha2::Digest>::digest(bytes).to_vec()
}

/// `base64::Engine::encode` of `STANDARD_NO_PAD`: base64 without padding.
#[verifier::external_body]
pub(crate) fn encode_unpadded(bytes: &[u8]) -> (res: String)
    ensures
        res@ == base64_text(bytes@, false),
{
    base64::Engine::encode(&base64::engine::general_purpose::STANDARD_NO_PAD, bytes)
}

/// `base64::Engine::encode` of `STANDARD`: base64 with padding.
#[verifier::external_body]
pub(crate) fn encode_padded(bytes: &[u8]) -> (res: String)
    ensures
        res@ == base64_text(bytes@, true),
{
    base64::Engine::encode(&base64::engine::general_purpose::STANDARD, bytes)
}

/// `base64::Engine::decode` of `STANDARD`: the bytes that a text is the padded base64
/// of. A text that no bytes have as their padded base64 is refused.
#[verifier::external_body]
pub(crate) fn decode_padded(text: &str) -> (res: Option<Vec<u8>>)
    ensures
        match res {
            Some(bytes) => base64_text(bytes@, true) == text@,
            None => forall|bytes: Seq<u8>| #[trigger] base64_text(bytes, true) != text@,
        },
{
    base64::Engine::decode(&base64::engine::general_purpose::STANDARD, text).ok()
}

/// The characters of base64, by what they stand for; and each three bytes are four of them,
/// which hold the same twenty-four bits.
pub proof fn base64_holds_the_bits(a: u8, b: u8, c: u8, rest: Seq<u8>, padded: bool)
    ensures
        ({
            let table = "ABCDEFGHIJKLMNOPQRSTUVWXYZabcdefghijklmnopqrstuvwxyz0123456789+/"@;
            let n = a * 65536 + b * 256 + c;
            let text = base64_text(seq![a, b, c] + rest, padded);
            &&& text.len() >= 4
            &&& text[0] == table[n / 262144]
            &&& text[1] == table[n / 4096 % 64]
            &&& text[2] == table[n / 64 % 64]
            &&& text[3] == table[n % 64]
            &&& text.skip(4) == base64_text(rest, padded)
        }),
{
    let all = seq![a, b, c] + rest;
    assert(all.skip(3) =~= rest);
    lemma_base64_char((a / 4) as int);
    lemma_base64_char((a % 4) * 16 + b / 16);
    lemma_base64_char((b % 16) * 4 + c / 64);
    lemma_base64_char((c % 64) as int);
    let text = base64_text(all, padded);
    assert(text.skip(4) =~= base64_text(rest, padded));
}

proof fn lemma_base64_char(n: int)
    requires
        0 <= n < 64,
    ensures
        base64_char(n)
            == "ABCDEFGHIJKLMNOPQRSTUVWXYZabcdefghijklmnopqrstuvwxyz0123456789+/"@[n],
{
    reveal_strlit("ABCDEFGHIJKLMNOPQRSTUVWXYZabcdefghijklmnopqrstuvwxyz0123456789+/");
}

} // verus!
