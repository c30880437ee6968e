//! The outside matchers that the library calls: regular expressions and the
//! parser of addresses. Verus does not read them: what is stated of them here
//! is believed, not proved.

use vstd::prelude::*;

verus! {

#[verifier::external_type_specification]
#[verifier::external_body]
pub struct ExRegexError(regex::Error);

#[verifier::external_type_specification]
#[verifier::external_body]
pub struct ExUrlParseError(url::ParseError);

/// What the regex crate captures in a text: nothing where the pattern is no
/// regular expression; else the text of the given group of the leftmost match,
/// if there is a match and the group took part in it.
pub uninterp spec fn regex_capture(pattern: Seq<char>, text: Seq<char>, group: usize) -> Option<
    Option<Seq<char>>,
>;

/// What the url crate finds as the host of an address: nothing where the
/// text is no absolute address; else the host, if the address has one.
pub uninterp spec fn url_host(url: Seq<char>) -> Option<Option<Seq<char>>>;

/// The text of an optional string.
pub open spec fn text_of(s: Option<String>) -> Option<Seq<char>> {
    match s {
        Some(t) => Some(t@),
        None => None,
    }
}

/// `Regex::new`, then `Regex::captures` and `Captures::get` of the regex
/// crate: the text of one group of the leftmost match.
#[verifier::external_body]
pub(crate) fn capture_group(pattern: &str, text: &str, group: usize) -> (r: Result<
    Option<String>,
    regex::Error,
>)
    ensures
        match r {
            Ok(found) => regex_capture(pattern@, text@, group) == Some(text_of(found)),
            Err(_) => regex_capture(pattern@, text@, group) is None,
        },
{
    let regex = regex::Regex::new(pattern)?;
    Ok(regex.captures(text).and_then(|c| c.get(group)).map(|m| m.as_str().to_string()))
}

/// `Url::parse`, then `Url::host_str` of the url crate: the host of an
/// absolute address.
#[verifier::external_body]
pub(crate) fn host_of(url: &str) -> (r: Result<Option<String>, url::ParseError>)
    ensures
        match r {
            Ok(host) => url_host(url@) == Some(text_of(host)),
            Err(_) => url_host(url@) is None,
        },
{
    let parsed = url::Url::parse(url)?;
    Ok(parsed.host_str().map(|h| h.to_string()))
}

/// What the regex crate makes of a text in which every match of the pattern
/// is replaced by the replacement: nothing where the pattern is no regular
/// expression.
pub uninterp spec fn regex_replaced(pattern: Seq<char>, text: Seq<char>, replacement: Seq<char>) -> Option<
    Seq<char>,
>;

/// `Regex::new`, then `Regex::replace_all` of the regex crate with a text as
/// the replacement.
#[verifier::external_body]
pub(crate) fn replace_all(pattern: &str, text: &str, replacement: &str) -> (r: Result<
    String,
    regex::Error,
>)
    ensures
        match r {
            Ok(out) => regex_replaced(pattern@, text@, replacement@) == Some(out@),
            Err(_) => regex_replaced(pattern@, text@, replacement@) is None,
        },
{
    let regex = regex::Regex::new(pattern)?;
    Ok(regex.replace_all(text, replacement).into_owned())
}

} // verus!
