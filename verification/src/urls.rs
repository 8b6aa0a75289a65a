//! Addresses: their parts and what is resolved against them.
use crate::text;
use vstd::prelude::*;

verus! {

/// The parts of an address.
#[derive(Debug, Clone, PartialEq, Eq)]
pub struct UrlParts {
    pub scheme: String,
    pub host: Option<String>,
    pub username: String,
    pub password: Option<String>,
    pub path: String,
    pub query: Option<String>,
    pub fragment: Option<String>,
}

/// The mathematical content of [`UrlParts`].
#[verifier::ext_equal]
pub struct UrlView {
    pub scheme: Seq<char>,
    pub host: Option<Seq<char>>,
    pub username: Seq<char>,
    pub password: Option<Seq<char>>,
    pub path: Seq<char>,
    pub query: Option<Seq<char>>,
    pub fragment: Option<Seq<char>>,
}

impl View for UrlParts {
    type V = UrlView;

    open spec fn view(&self) -> UrlView {
        UrlView {
            scheme: self.scheme@,
            host: text::opt_view(self.host),
            username: self.username@,
            password: text::opt_view(self.password),
            path: self.path@,
            query: text::opt_view(self.query),
            fragment: text::opt_view(self.fragment),
        }
    }
}

pub open spec fn opt_url_view(parts: Option<UrlParts>) -> Option<UrlView> {
    match parts {
        Some(parts) => Some(parts@),
        None => None,
    }
}

/// The parts that `reqwest::Url::parse` reads from a text.
pub uninterp spec fn url_parts_of(text: Seq<char>) -> Option<UrlView>;

/// `reqwest::Url::parse`, then `scheme`, `host_str`, `username`, `password`, `path`, `query` and
/// `fragment`: the parts of an address, or nothing where the text is not one. A function of the
/// text alone.
#[verifier::external_body]
pub(crate) fn url_parts(text: &str) -> (parts: Option<UrlParts>)
    ensures
        opt_url_view(parts) == url_parts_of(text@),
{
    reqwest::Url::parse(text).ok().map(|url| UrlParts {
        scheme: url.scheme().to_owned(),
        host: url.host_str().map(str::to_owned),
        username: url.username().to_owned(),
        password: url.password().map(str::to_owned),
        path: url.path().to_owned(),
        query: url.query().map(str::to_owned),
        fragment: url.fragment().map(str::to_owned),
    })
}

/// The origin that `reqwest::Url::origin` finds in the address that a text holds.
pub uninterp spec fn url_origin_of(text: Seq<char>) -> Option<Seq<char>>;

/// `reqwest::Url::parse`, `origin` and `ascii_serialization`: scheme, host and port of an address
/// as one text, or nothing where the text is not an address. A function of the text alone.
#[verifier::external_body]
pub(crate) fn url_origin(text: &str) -> (origin: Option<String>)
    ensures
        text::opt_view(origin) == url_origin_of(text@),
{
    reqwest::Url::parse(text).ok().map(|url| url.origin().ascii_serialization())
}

/// What `reqwest::Url::join` makes of an address and a reference.
pub uninterp spec fn url_joined_of(base: Seq<char>, reference: Seq<char>) -> Option<Seq<char>>;

/// `reqwest::Url::parse` and `join`: the address that a reference names when it is resolved against
/// `base`, or nothing where that fails. A function of the two texts.
#[verifier::external_body]
pub(crate) fn url_joined(base: &str, reference: &str) -> (url: Option<String>)
    ensures
        text::opt_view(url) == url_joined_of(base@, reference@),
{
    reqwest::Url::parse(base).ok().and_then(|url| url.join(reference).ok()).map(String::from)
}

} // verus!
