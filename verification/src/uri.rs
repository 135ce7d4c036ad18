//! The parts of a URI that the proxy looks at.

use vstd::prelude::*;

verus! {

/// The parts of a URI.
pub struct UriParts {
    /// The scheme, such as `https`.
    pub scheme: Option<String>,
    /// The authority, such as `user@example.com:443`.
    pub authority: Option<String>,
    /// The host within the authority, such as `example.com` or `[::1]`.
    pub host: Option<String>,
    /// The port within the authority.
    pub port: Option<u16>,
    /// The path, which may be empty.
    pub path: String,
    /// The path with the query behind it.
    pub path_and_query: Option<String>,
}

/// The contents of [`UriParts`].
pub struct UriView {
    pub scheme: Option<Seq<char>>,
    pub authority: Option<Seq<char>>,
    pub host: Option<Seq<char>>,
    pub port: Option<u16>,
    pub path: Seq<char>,
    pub path_and_query: Option<Seq<char>>,
}

/// The contents of a string that may be missing.
pub open spec fn maybe_text(s: Option<String>) -> Option<Seq<char>> {
    match s {
        Some(text) => Some(text@),
        None => None,
    }
}

impl View for UriParts {
    type V = UriView;

    open spec fn view(&self) -> UriView {
        UriView {
            scheme: maybe_text(self.scheme),
            authority: maybe_text(self.authority),
            host: maybe_text(self.host),
            port: self.port,
            path: self.path@,
            path_and_query: maybe_text(self.path_and_query),
        }
    }
}

/// Each character is a visible ASCII character.
pub open spec fn is_visible(s: Seq<char>) -> bool {
    forall|i: int| 0 <= i < s.len() ==> '!' <= #[trigger] s[i] && s[i] <= '~'
}

/// The parts of the URI that a text stands for, as the http crate reads it, or the words
/// with which it refuses the text.
pub uninterp spec fn uri_parts(text: Seq<char>) -> Result<UriView, Seq<char>>;

/// `http::Uri::from_str`, with `scheme_str`, `authority`, `host`, `port_u16`, `path`
/// and `path_and_query` of what it gives, or the words of its error. Both are a function
/// of the text, and a host is made of visible ASCII characters.
#[verifier::external_body]
fn read_uri(text: &str) -> (r: Result<UriParts, String>)
    ensures
        r is Ok ==> uri_parts(text@) is Ok && uri_parts(text@)->Ok_0 == r->Ok_0@,
        r is Err ==> uri_parts(text@) is Err && uri_parts(text@)->Err_0 == r->Err_0@,
        r is Ok && r->Ok_0.host is Some ==> is_visible(r->Ok_0.host->0@),
{
    match text.parse::<http::Uri>() {
        Ok(uri) => Ok(UriParts {
            scheme: uri.scheme_str().map(|s| s.to_string()),
            authority: uri.authority().map(|a| a.as_str().to_string()),
            host: uri.host().map(|h| h.to_string()),
            port: uri.port_u16(),
            path: uri.path().to_string(),
            path_and_query: uri.path_and_query().map(|p| p.as_str().to_string()),
        }),
        Err(e) => Err(e.to_string()),
    }
}

/// Reads a text as a URI; for a text that is none, says why.
pub fn parse_uri(text: &str) -> (r: Result<UriParts, String>)
    ensures
        r matches Ok(parts) ==> {
            &&& uri_parts(text@) == Ok::<UriView, Seq<char>>(parts@)
            &&& (parts.host matches Some(host) ==> is_visible(host@))
        },
        r matches Err(words) ==> uri_parts(text@) == Err::<UriView, Seq<char>>(words@),
{
    read_uri(text)
}

} // verus!
