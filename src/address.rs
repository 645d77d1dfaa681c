//! URLs as the crawler reads them: each component that its logic needs is held as
//! plain text, taken from the `url` crate's parser.
use vstd::prelude::*;
use vstd::string::*;

use crate::text::{begins_with, starts_with};

verus! {

/// The components of a parsed URL.
pub struct UrlView {
    /// The whole URL as the parser serialises it.
    pub serialization: Seq<char>,
    pub scheme: Seq<char>,
    pub host: Option<Seq<char>>,
    /// The explicit port, or else the scheme's well-known port.
    pub port: Option<u16>,
    pub path: Seq<char>,
    pub query: Option<Seq<char>>,
    pub fragment: Option<Seq<char>>,
}

/// A parsed absolute URL.
#[derive(Debug, Clone, PartialEq, Eq)]
pub struct Url {
    serialization: String,
    scheme: String,
    host: Option<String>,
    port: Option<u16>,
    path: String,
    query: Option<String>,
    fragment: Option<String>,
}

pub open spec fn opt_text_view(o: Option<String>) -> Option<Seq<char>> {
    match o {
        Some(s) => Some(s@),
        None => None,
    }
}

pub open spec fn opt_url_view(o: Option<Url>) -> Option<UrlView> {
    match o {
        Some(u) => Some(u@),
        None => None,
    }
}

impl View for Url {
    type V = UrlView;

    closed spec fn view(&self) -> UrlView {
        UrlView {
            serialization: self.serialization@,
            scheme: self.scheme@,
            host: opt_text_view(self.host),
            port: self.port,
            path: self.path@,
            query: opt_text_view(self.query),
            fragment: opt_text_view(self.fragment),
        }
    }
}

/// The shape of every URL that the `url` crate produces: the scheme holds no ':'; a
/// host holds no '/' or '?', which end the authority; the path holds no '?', which
/// starts the query; and where there is a host the path is empty or begins with '/'.
pub open spec fn url_shape(u: UrlView) -> bool {
    &&& forall|i: int| 0 <= i < u.scheme.len() ==> #[trigger] u.scheme[i] != ':'
    &&& u.host.is_some() ==> forall|i: int|
        0 <= i < u.host.unwrap().len() ==> #[trigger] u.host.unwrap()[i] != '/'
            && u.host.unwrap()[i] != '?'
    &&& forall|i: int| 0 <= i < u.path.len() ==> #[trigger] u.path[i] != '?'
    &&& u.host.is_some() ==> u.path.len() == 0 || u.path[0] == '/'
}

/// What the `url` crate makes of a text read as an absolute URL.
pub uninterp spec fn parsed_url(input: Seq<char>) -> Option<UrlView>;

/// What the `url` crate makes of a text read against a base URL, given by its
/// serialisation.
pub uninterp spec fn joined_url(base: Seq<char>, input: Seq<char>) -> Option<UrlView>;

/// Relies on `url::Url::parse`: parses `input` as an absolute URL. The components are
/// read off with `as_str`, `scheme`, `host_str`, `port_or_known_default`, `path`,
/// `query` and `fragment`; the parser gives them the shape `url_shape` states.
#[verifier::external_body]
fn parse_url(input: &str) -> (r: Option<Url>)
    ensures
        opt_url_view(r) == parsed_url(input@),
        r.is_some() ==> url_shape(r.unwrap()@),
{
    match url::Url::parse(input) {
        Ok(u) => Some(Url {
            serialization: u.as_str().to_string(),
            scheme: u.scheme().to_string(),
            host: u.host_str().map(str::to_string),
            port: u.port_or_known_default(),
            path: u.path().to_string(),
            query: u.query().map(str::to_string),
            fragment: u.fragment().map(str::to_string),
        }),
        Err(_) => None,
    }
}

/// Relies on `url::Url::join`: resolves `input` against `base` (an absolute `input`
/// stands for itself). The base is brought back from its serialisation; the result is
/// read off as in `parse_url`, with the same shape.
#[verifier::external_body]
fn join_url(base: &Url, input: &str) -> (r: Option<Url>)
    ensures
        opt_url_view(r) == joined_url(base@.serialization, input@),
        r.is_some() ==> url_shape(r.unwrap()@),
{
    match url::Url::parse(&base.serialization).and_then(|b| b.join(input)) {
        Ok(u) => Some(Url {
            serialization: u.as_str().to_string(),
            scheme: u.scheme().to_string(),
            host: u.host_str().map(str::to_string),
            port: u.port_or_known_default(),
            path: u.path().to_string(),
            query: u.query().map(str::to_string),
            fragment: u.fragment().map(str::to_string),
        }),
        Err(_) => None,
    }
}

impl Url {
    /// Parses an absolute URL.
    pub fn parse(input: &str) -> (r: Option<Url>)
        ensures
            opt_url_view(r) == parsed_url(input@),
            r.is_some() ==> url_shape(r.unwrap()@),
    {
        parse_url(input)
    }

    /// Resolves `input` against this URL; an absolute `input` stands for itself.
    pub fn join(&self, input: &str) -> (r: Option<Url>)
        ensures
            opt_url_view(r) == joined_url(self@.serialization, input@),
            r.is_some() ==> url_shape(r.unwrap()@),
    {
        join_url(self, input)
    }

    pub fn as_str(&self) -> (r: &str)
        ensures
            r@ == self@.serialization,
    {
        self.serialization.as_str()
    }

    pub fn scheme(&self) -> (r: &str)
        ensures
            r@ == self@.scheme,
    {
        self.scheme.as_str()
    }

    pub fn host_str(&self) -> (r: Option<&str>)
        ensures
            r.is_some() == self@.host.is_some(),
            r.is_some() ==> r.unwrap()@ == self@.host.unwrap(),
    {
        match &self.host {
            Some(h) => Some(h.as_str()),
            None => None,
        }
    }

    pub fn port_or_known_default(&self) -> (r: Option<u16>)
        ensures
            r == self@.port,
    {
        self.port
    }

    pub fn path(&self) -> (r: &str)
        ensures
            r@ == self@.path,
    {
        self.path.as_str()
    }

    pub fn query(&self) -> (r: Option<&str>)
        ensures
            r.is_some() == self@.query.is_some(),
            r.is_some() ==> r.unwrap()@ == self@.query.unwrap(),
    {
        match &self.query {
            Some(q) => Some(q.as_str()),
            None => None,
        }
    }

    pub fn fragment(&self) -> (r: Option<&str>)
        ensures
            r.is_some() == self@.fragment.is_some(),
            r.is_some() ==> r.unwrap()@ == self@.fragment.unwrap(),
    {
        match &self.fragment {
            Some(f) => Some(f.as_str()),
            None => None,
        }
    }
}

/// The text that a seed line stands for: itself where it names the `http` or `https`
/// scheme, else the same text under `http://`.
pub open spec fn seed_text(seed: Seq<char>) -> Seq<char> {
    if begins_with(seed, "http://"@) || begins_with(seed, "https://"@) {
        seed
    } else {
        "http://"@ + seed
    }
}

/// Reads one seed: a URL, or a host name to be fetched over `http`.
pub fn parse_seed(seed: &str) -> (r: Option<Url>)
    ensures
        opt_url_view(r) == parsed_url(seed_text(seed@)),
        r.is_some() ==> url_shape(r.unwrap()@),
{
    if starts_with(seed, "http://") || starts_with(seed, "https://") {
        parse_url(seed)
    } else {
        let mut url = String::from_str("http://");
        url.append(seed);
        parse_url(url.as_str())
    }
}

} // verus!
