//! Reading a long URL: the text of a request is parsed as an absolute URL and
//! replaced by the parser's serialization of it, its canonical form.

use vstd::prelude::*;

verus! {

/// What `url::Url::parse` makes of a text: `Ok` with the serialization of the
/// URL that it read, or `Err` with the message of the error that it reported.
pub uninterp spec fn parsed_url(raw: Seq<char>) -> Result<Seq<char>, Seq<char>>;

/// A parsing result as contracts see it.
pub open spec fn parsed_view(parsed: Result<String, String>) -> Result<Seq<char>, Seq<char>> {
    match parsed {
        Ok(url) => Ok(url@),
        Err(message) => Err(message@),
    }
}

/// Parses `raw` by `url::Url::parse`. A URL that was read is handed back as
/// its serialization, the string that `Url::as_str` shows; an error as the
/// text that its `Display` writes. The parser works on its argument alone, so
/// the outcome is a function of `raw`; what that function is, is not stated.
#[verifier::external_body]
pub(crate) fn parse_url(raw: &str) -> (parsed: Result<String, String>)
    ensures
        parsed_view(parsed) == parsed_url(raw@),
{
    match url::Url::parse(raw) {
        Ok(url) => Ok(String::from(url)),
        Err(err) => Err(err.to_string()),
    }
}

} // verus!
