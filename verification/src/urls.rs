//! URL validation for the lifecycle manager. Parsing is done by the `url`
//! crate; this module gives its outcome a name that contracts can speak of:
//! a string either is accepted as an absolute URL and has one normalized
//! serialization, or it is rejected with the parser's message.

use vstd::prelude::*;

verus! {

/// Whether the `url` crate accepts the string as an absolute URL; a function
/// of the characters alone.
pub uninterp spec fn url_accepted(s: Seq<char>) -> bool;

/// The parser's normalized serialization of an accepted URL string (for
/// example a bare authority gains a trailing slash); a function of the
/// characters alone.
pub uninterp spec fn url_normalized(s: Seq<char>) -> Seq<char>;

/// Relies on `url::Url::parse` (and the `From<Url> for String` serialization
/// accessor): whether parsing succeeds, and the normalized serialization when
/// it does, depend only on the input string. On failure the parser's own
/// message is handed back.
#[verifier::external_body]
pub(crate) fn parse_url(input: &str) -> (r: Result<String, String>)
    ensures
        r is Ok <==> url_accepted(input@),
        r matches Ok(n) ==> n@ == url_normalized(input@),
{
    match input.parse::<url::Url>() {
        Ok(u) => Ok(String::from(u)),
        Err(e) => Err(e.to_string()),
    }
}

} // verus!
