//! Trusted, thin views of the outside calls the core leans on: fresh task
//! identifiers, the clock, Unicode lowercasing and URL resolution.  Each
//! wrapper's contract states only what the outside source documents.
use vstd::prelude::*;

verus! {

/// Relies on `uuid::Uuid::new_v4` and its hyphenated form, which is
/// documented as exactly 36 characters.  The value itself is random, so
/// nothing more is stated of it.
#[verifier::external_body]
pub(crate) fn new_uuid() -> (r: String)
    ensures
        r@.len() == 36,
{
    uuid::Uuid::new_v4().hyphenated().to_string()
}

/// Relies on `chrono::Utc::now`; the clock's reading cannot be pinned down,
/// so nothing is stated of it.
#[verifier::external_body]
pub(crate) fn now_timestamp() -> i64 {
    chrono::Utc::now().timestamp()
}

/// What `str::to_lowercase` returns: a function of the characters alone.
pub uninterp spec fn lower_of(s: Seq<char>) -> Seq<char>;

/// Relies on `str::to_lowercase`: the result depends only on the input's
/// characters.
#[verifier::external_body]
pub(crate) fn lowercase(s: &str) -> (r: String)
    ensures
        r@ == lower_of(s@),
{
    s.to_lowercase()
}

/// Whether resolving `rel` against the base URL `base` succeeds: a function
/// of the two strings alone.
pub uninterp spec fn url_joins(base: Seq<char>, rel: Seq<char>) -> bool;

/// The resolved URL where `url_joins(base, rel)` holds.
pub uninterp spec fn url_join_of(base: Seq<char>, rel: Seq<char>) -> Seq<char>;

/// Relies on `url::Url::parse` and `url::Url::join`: resolution follows the
/// URL standard and depends only on the two strings.
#[verifier::external_body]
pub(crate) fn resolve_url(base: &str, rel: &str) -> (r: Option<String>)
    ensures
        r is Some <==> url_joins(base@, rel@),
        r matches Some(s) ==> s@ == url_join_of(base@, rel@),
{
    match url::Url::parse(base) {
        Ok(u) => match u.join(rel) {
            Ok(joined) => Some(joined.to_string()),
            Err(_) => None,
        },
        Err(_) => None,
    }
}

} // verus!
