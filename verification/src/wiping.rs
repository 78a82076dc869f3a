//! Secrets that are given up are overwritten before their memory is.
use vstd::prelude::*;

verus! {

broadcast use vstd::string::group_string_axioms;

/// `<Vec<u8> as zeroize::Zeroize>::zeroize`: no bytes are left. That their memory is
/// overwritten is not stated: memory has no place in a contract.
#[verifier::external_body]
pub(crate) fn wipe_bytes(bytes: &mut Vec<u8>)
    ensures
        final(bytes)@.len() == 0,
{
    zeroize::Zeroize::zeroize(bytes);
}

/// `<String as zeroize::Zeroize>::zeroize`: no text is left. That its memory is overwritten
/// is not stated: memory has no place in a contract.
#[verifier::external_body]
pub(crate) fn wipe_text(text: &mut String)
    ensures
        final(text)@.len() == 0,
{
    zeroize::Zeroize::zeroize(text);
}

/// Gives up bytes where there are some.
pub(crate) fn wipe_held_bytes(bytes: &mut Option<Vec<u8>>)
    ensures
        *final(bytes) is None,
{
    match bytes.take() {
        Some(mut held) => {
            wipe_bytes(&mut held);
        },
        None => {},
    }
}

/// Gives up a text where there is one.
pub(crate) fn wipe_held_text(text: &mut Option<String>)
    ensures
        *final(text) is None,
{
    match text.take() {
        Some(mut held) => {
            wipe_text(&mut held);
        },
        None => {},
    }
}

} // verus!
