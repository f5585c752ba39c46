//! Validation and canonical form of long URLs.
use vstd::prelude::*;

verus! {

/// The canonical text of `s` when it parses as a URL, `None` when it does not
/// (the result of the `url` crate's parser followed by `Url::as_str`).
pub uninterp spec fn parsed_url(s: Seq<char>) -> Option<Seq<char>>;

/// Relies on `url::Url::parse` and `url::Url::as_str`: the serialization of the
/// parsed URL, or the parser's error message. Parsing depends on the text alone.
#[verifier::external_body]
fn parse_url(s: &str) -> (r: Result<String, String>)
    ensures
        match r {
            Ok(c) => parsed_url(s@) == Some(c@),
            Err(_) => parsed_url(s@) is None,
        },
{
    match url::Url::parse(s) {
        Ok(u) => Ok(u.as_str().to_string()),
        Err(e) => Err(e.to_string()),
    }
}

/// Checks that `raw` is a well-formed URL and returns its canonical text;
/// the error holds the parser's message.
pub fn canonicalize(raw: &str) -> (r: Result<String, String>)
    ensures
        r is Ok <==> parsed_url(raw@) is Some,
        r is Ok ==> parsed_url(raw@) == Some(r->Ok_0@),
{
    parse_url(raw)
}

} // verus!
