//! The consent wall: how a page shows it, and the cookie that passes it.

use crate::error::Error;
use crate::text::{chars_of, contains_text, occurs};
use vstd::prelude::*;
use vstd::string::StringExecFns;

verus! {

/// The text that marks a page as the consent form.
pub const CONSENT_MARKER: &'static str = "action=\"https://consent.youtube.com/s\"";

/// The pattern that finds the token of the consent form; its first group
/// takes the token.
pub const TOKEN_PATTERN: &'static str = "name=\"v\" value=\"(.*?)\"";

/// What stands before the token in the cookie.
pub const COOKIE_PREFIX: &'static str = "CONSENT=YES+";

/// What stands behind the token in the cookie.
pub const COOKIE_SUFFIX: &'static str = ";Domain=.youtube.com";

/// `regex::Regex`, carried through as an opaque value.
#[verifier::external_type_specification]
#[verifier::external_body]
pub struct ExRegex(regex::Regex);

/// Whether the `regex` crate takes `pattern` as a pattern.
pub uninterp spec fn is_pattern(pattern: Seq<char>) -> bool;

/// The pattern that a compiled expression was made from.
pub uninterp spec fn pattern_of(expression: regex::Regex) -> Seq<char>;

/// What capture group `group` takes in the leftmost match of `pattern` in
/// `text`, as the `regex` crate finds it; `None` where nothing matches and
/// where the group takes no part in the match.
pub uninterp spec fn first_capture(pattern: Seq<char>, text: Seq<char>, group: int) -> Option<
    Seq<char>,
>;

/// `Regex::new`: compiles `pattern`, or fails where it is no pattern or too
/// large a one.
#[verifier::external_body]
fn compile(pattern: &str) -> (expression: Option<regex::Regex>)
    ensures
        match expression {
            Some(e) => is_pattern(pattern@) && pattern_of(e) == pattern@,
            None => !is_pattern(pattern@),
        },
{
    regex::Regex::new(pattern).ok()
}

/// `Regex::captures`: searches `text` for the leftmost match and hands out
/// what the group numbered `group` took in it.
#[verifier::external_body]
fn capture(expression: &regex::Regex, text: &str, group: usize) -> (taken: Option<String>)
    ensures
        match taken {
            Some(t) => first_capture(pattern_of(*expression), text@, group as int) == Some(t@),
            None => first_capture(pattern_of(*expression), text@, group as int) is None,
        },
{
    expression.captures(text)?.get(group).map(|m| m.as_str().to_owned())
}

/// Whether a page is the consent form.
pub open spec fn is_consent_wall(html: Seq<char>) -> bool {
    occurs(html, CONSENT_MARKER@)
}

/// The cookie that carries `token`.
pub open spec fn cookie_for(token: Seq<char>) -> Seq<char> {
    COOKIE_PREFIX@ + token + COOKIE_SUFFIX@
}

/// The token of the consent form in `html`: what the first group of
/// `TOKEN_PATTERN` takes.
pub open spec fn consent_token(html: Seq<char>) -> Option<Seq<char>> {
    if is_pattern(TOKEN_PATTERN@) {
        first_capture(TOKEN_PATTERN@, html, 1)
    } else {
        None
    }
}

/// The cookie that passes the consent form in `html`: the one that carries
/// the token of the form. A form without a token gives none.
pub open spec fn consent_cookie(html: Seq<char>) -> Result<Seq<char>, Error> {
    match consent_token(html) {
        Some(token) => Ok(cookie_for(token)),
        None => Err(Error::FailedToCreateConsentCookie),
    }
}

/// Whether a page is the consent form.
pub fn shows_consent_wall(html: &str) -> (r: bool)
    ensures
        r == is_consent_wall(html@),
{
    let page = chars_of(html);
    let marker = chars_of(CONSENT_MARKER);
    contains_text(&page, &marker)
}

/// Makes the cookie that carries `token`.
pub fn cookie_from_token(token: &str) -> (r: String)
    ensures
        r@ == cookie_for(token@),
{
    let mut cookie = String::from_str(COOKIE_PREFIX);
    cookie.append(token);
    cookie.append(COOKIE_SUFFIX);
    cookie
}

/// Makes the cookie that passes the consent form in `html`.
pub fn extract_consent_cookie(html: &str) -> (r: Result<String, Error>)
    ensures
        match consent_cookie(html@) {
            Ok(cookie) => r is Ok && r.unwrap()@ == cookie,
            Err(error) => r == Err::<String, Error>(error),
        },
{
    let expression = match compile(TOKEN_PATTERN) {
        Some(expression) => expression,
        None => {
            return Err(Error::FailedToCreateConsentCookie);
        },
    };
    match capture(&expression, html, 1) {
        Some(token) => Ok(cookie_from_token(token.as_str())),
        None => Err(Error::FailedToCreateConsentCookie),
    }
}

} // verus!
