//! What can go wrong by the proxy's own judgement.

use vstd::prelude::*;

use crate::headers::HeaderError;

verus! {

/// Why a request, a client or a server cannot be carried on. Where another crate has
/// refused something, its words are handed on.
#[derive(Debug)]
pub enum ProxyError {
    /// A text that should be a URI is none.
    Uri(String),
    /// The header fields cannot be taken over.
    Header(HeaderError),
    /// The root certificate at this place of the list is not a certificate.
    Root(usize, String),
    /// A file of certificates or keys is not well formed.
    Pem(String),
    /// A chain of certificates and a key do not make an identity.
    Identity(String),
}

/// The contents of a [`ProxyError`].
pub enum ErrorView {
    Uri(Seq<char>),
    Header(HeaderError),
    Root(usize, Seq<char>),
    Pem(Seq<char>),
    Identity(Seq<char>),
}

impl View for ProxyError {
    type V = ErrorView;

    open spec fn view(&self) -> ErrorView {
        match *self {
            ProxyError::Uri(words) => ErrorView::Uri(words@),
            ProxyError::Header(e) => ErrorView::Header(e),
            ProxyError::Root(i, words) => ErrorView::Root(i, words@),
            ProxyError::Pem(words) => ErrorView::Pem(words@),
            ProxyError::Identity(words) => ErrorView::Identity(words@),
        }
    }
}

impl ErrorView {
    /// The error in words.
    pub open spec fn words(self) -> Seq<char> {
        match self {
            ErrorView::Uri(words) => words,
            ErrorView::Header(HeaderError::Name) => "invalid HTTP header name"@,
            ErrorView::Header(HeaderError::Value) => "failed to parse header value"@,
            ErrorView::Header(HeaderError::Full) => "max size reached"@,
            ErrorView::Root(_, words) => words,
            ErrorView::Pem(words) => words,
            ErrorView::Identity(words) => words,
        }
    }
}

impl ProxyError {
    /// The error in words.
    pub fn message(&self) -> (r: String)
        ensures
            r@ == self@.words(),
    {
        match self {
            ProxyError::Uri(words) => words.clone(),
            ProxyError::Header(HeaderError::Name) => "invalid HTTP header name".to_owned(),
            ProxyError::Header(HeaderError::Value) => "failed to parse header value".to_owned(),
            ProxyError::Header(HeaderError::Full) => "max size reached".to_owned(),
            ProxyError::Root(_, words) => words.clone(),
            ProxyError::Pem(words) => words.clone(),
            ProxyError::Identity(words) => words.clone(),
        }
    }
}

/// Where another crate has refused something, its words are the words of the error.
pub proof fn law_words_are_handed_on(words: Seq<char>, i: usize)
    ensures
        ErrorView::Uri(words).words() == words,
        ErrorView::Root(i, words).words() == words,
        ErrorView::Pem(words).words() == words,
        ErrorView::Identity(words).words() == words,
{
}

} // verus!
