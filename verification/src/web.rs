//! Addresses and headers of the web.

use vstd::prelude::*;

verus! {

/// The scheme and the host, if any, of an absolute URL; `None` where the text is
/// no such URL.
pub uninterp spec fn url_parts(text: Seq<char>) -> Option<(Seq<char>, Option<Seq<char>>)>;

/// `url::Url::parse`, which `reqwest` exports, then `Url::scheme` and
/// `Url::host_str`: the result is a function of the text.
#[verifier::external_body]
pub(crate) fn scheme_and_host(text: &str) -> (parts: Option<(String, Option<String>)>)
    ensures
        match (parts, url_parts(text@)) {
            (Some((scheme, host)), Some((s, h))) => scheme@ == s && crate::text::maybe(host) == h,
            (None, None) => true,
            _ => false,
        },
{
    match reqwest::Url::parse(text) {
        Ok(url) => Some((url.scheme().to_string(), url.host_str().map(|host| host.to_string()))),
        Err(_) => None,
    }
}

/// A character that may stand in the value of an HTTP header.
pub open spec fn header_char(c: char) -> bool {
    c == '\t' || (c as u32 >= 0x20 && c as u32 != 0x7f)
}

/// A text that may stand as the value of an HTTP header.
pub open spec fn header_text(text: Seq<char>) -> bool {
    forall|i: int| 0 <= i < text.len() ==> header_char(#[trigger] text[i])
}

/// `http::HeaderValue::from_str`, which `reqwest` exports: it accepts a text
/// whose bytes are all either a tab or 32 and up, but not 127; a character
/// beyond ASCII has only bytes from 128 on.
#[verifier::external_body]
pub(crate) fn is_header_text(text: &str) -> (r: bool)
    ensures
        r == header_text(text@),
{
    reqwest::header::HeaderValue::from_str(text).is_ok()
}

}
