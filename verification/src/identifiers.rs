//! Identifiers and times from outside.
use crate::text::opt_view;
use vstd::prelude::*;

verus! {

broadcast use vstd::string::group_string_axioms;

/// The hyphenated form of the UUID that a text writes, as `uuid::Uuid` reads it.
pub uninterp spec fn uuid_text(text: Seq<char>) -> Option<Seq<char>>;

/// Whether a text is a UUID in its hyphenated form.
pub open spec fn is_uuid(text: Seq<char>) -> bool {
    text.len() == 36 && uuid_text(text) == Some(text)
}

/// `uuid::Uuid::parse_str`, and its hyphenated form, which has 36 characters and writes
/// the same UUID.
#[verifier::external_body]
pub(crate) fn canonical_uuid(text: &str) -> (res: Option<String>)
    ensures
        opt_view(res) == uuid_text(text@),
        res matches Some(form) ==> form@.len() == 36 && uuid_text(form@) == Some(form@),
{
    uuid::Uuid::parse_str(text).ok().map(|id| id.to_string())
}

/// `uuid::Uuid::new_v4`: a random UUID in its hyphenated form.
#[verifier::external_body]
pub(crate) fn random_uuid() -> (res: String)
    ensures
        res@.len() == 36,
        uuid_text(res@) == Some(res@),
{
    uuid::Uuid::new_v4().to_string()
}

/// `chrono::Utc::now` as RFC 3339 text. Nothing is claimed of it: it is the time.
#[verifier::external_body]
pub(crate) fn now_text() -> (res: String)
{
    chrono::Utc::now().to_rfc3339()
}

} // verus!
