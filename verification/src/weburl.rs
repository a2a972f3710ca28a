//! Absolute URLs, parsed by the `url` crate (WHATWG rules) and kept here as
//! the plain parts the library reads.

use vstd::prelude::*;

verus! {

#[verifier::external_type_specification]
#[verifier::external_body]
pub struct ExUrl(url::Url);

/// `<url::Url as Clone>::clone`: a copy of the parsed URL. Nothing is said
/// of the copy here; the parts that describe it are copied beside it.
#[verifier::external_body]
fn copy_url(u: &url::Url) -> url::Url {
    u.clone()
}

/// The parts of a parsed URL that the library reads.
pub struct UrlV {
    /// The whole serialization, `Url::as_str`.
    pub href: Seq<char>,
    pub scheme: Seq<char>,
    pub host: Option<Seq<char>>,
    /// The explicit port, else the scheme's default one.
    pub port: Option<u16>,
    pub path: Seq<char>,
    pub query: Option<Seq<char>>,
}

/// An absolute URL. Only the parsing functions of this module make one, so
/// its parts always describe the URL it carries.
#[derive(Debug)]
pub struct WebUrl {
    inner: url::Url,
    href: String,
    scheme: String,
    host: Option<String>,
    port: Option<u16>,
    path: String,
    query: Option<String>,
}

pub open spec fn opt_view(o: Option<String>) -> Option<Seq<char>> {
    match o {
        Some(s) => Some(s@),
        None => None,
    }
}

impl View for WebUrl {
    type V = UrlV;

    closed spec fn view(&self) -> UrlV {
        UrlV {
            href: self.href@,
            scheme: self.scheme@,
            host: opt_view(self.host),
            port: self.port,
            path: self.path@,
            query: opt_view(self.query),
        }
    }
}

/// What `Url::parse` makes of `input`: the URL's parts, or the text of the
/// `ParseError` it refuses the input with.
pub uninterp spec fn whatwg_parse(input: Seq<char>) -> Result<UrlV, Seq<char>>;

/// What `Url::join` makes of `input` against the URL whose parts are
/// `base`. Named over all the parts, not the serialization alone: a URL
/// made by `set_path` can serialize as another URL parses differently.
pub uninterp spec fn whatwg_join(base: UrlV, input: Seq<char>) -> Result<UrlV, Seq<char>>;

/// The URL whose parts are `base` after `Url::set_path(path)`.
pub uninterp spec fn whatwg_with_path(base: UrlV, path: Seq<char>) -> UrlV;

pub open spec fn url_result_view(r: Result<WebUrl, String>) -> Result<UrlV, Seq<char>> {
    match r {
        Ok(u) => Ok(u@),
        Err(e) => Err(e@),
    }
}

impl WebUrl {
    /// `Url::parse`: an absolute URL, or the parse error's text.
    #[verifier::external_body]
    pub fn parse(input: &str) -> (r: Result<WebUrl, String>)
        ensures
            url_result_view(r) == whatwg_parse(input@),
    {
        match url::Url::parse(input) {
            Ok(u) => Ok(WebUrl {
                href: u.as_str().to_string(),
                scheme: u.scheme().to_string(),
                host: u.host_str().map(|h| h.to_string()),
                port: u.port_or_known_default(),
                path: u.path().to_string(),
                query: u.query().map(|q| q.to_string()),
                inner: u,
            }),
            Err(e) => Err(e.to_string()),
        }
    }

    /// `Url::join`: `input` resolved against this URL.
    #[verifier::external_body]
    pub fn join(&self, input: &str) -> (r: Result<WebUrl, String>)
        ensures
            url_result_view(r) == whatwg_join(self@, input@),
    {
        match self.inner.join(input) {
            Ok(u) => Ok(WebUrl {
                href: u.as_str().to_string(),
                scheme: u.scheme().to_string(),
                host: u.host_str().map(|h| h.to_string()),
                port: u.port_or_known_default(),
                path: u.path().to_string(),
                query: u.query().map(|q| q.to_string()),
                inner: u,
            }),
            Err(e) => Err(e.to_string()),
        }
    }

    /// `Url::set_path`, on a copy.
    #[verifier::external_body]
    pub fn with_path(&self, path: &str) -> (r: WebUrl)
        ensures
            r@ == whatwg_with_path(self@, path@),
    {
        let mut u = copy_url(&self.inner);
        u.set_path(path);
        WebUrl {
            href: u.as_str().to_string(),
            scheme: u.scheme().to_string(),
            host: u.host_str().map(|h| h.to_string()),
            port: u.port_or_known_default(),
            path: u.path().to_string(),
            query: u.query().map(|q| q.to_string()),
            inner: u,
        }
    }

    pub fn as_str(&self) -> (r: &str)
        ensures
            r@ == self@.href,
    {
        self.href.as_str()
    }

    pub fn scheme(&self) -> (r: &str)
        ensures
            r@ == self@.scheme,
    {
        self.scheme.as_str()
    }

    pub fn path(&self) -> (r: &str)
        ensures
            r@ == self@.path,
    {
        self.path.as_str()
    }

    pub fn has_host(&self) -> (r: bool)
        ensures
            r == self@.host is Some,
    {
        self.host.is_some()
    }

    pub fn host_str(&self) -> (r: Option<&str>)
        ensures
            match r {
                Some(h) => self@.host == Some(h@),
                None => self@.host is None,
            },
    {
        match &self.host {
            Some(h) => Some(h.as_str()),
            None => None,
        }
    }

    pub fn port_or_known_default(&self) -> (r: Option<u16>)
        ensures
            r == self@.port,
    {
        self.port
    }

    pub fn query(&self) -> (r: Option<&str>)
        ensures
            match r {
                Some(q) => self@.query == Some(q@),
                None => self@.query is None,
            },
    {
        match &self.query {
            Some(q) => Some(q.as_str()),
            None => None,
        }
    }

    /// A copy of this URL.
    pub fn duplicate(&self) -> (r: WebUrl)
        ensures
            r@ == self@,
    {
        WebUrl {
            inner: copy_url(&self.inner),
            href: self.href.clone(),
            scheme: self.scheme.clone(),
            host: match &self.host {
                Some(h) => Some(h.clone()),
                None => None,
            },
            port: self.port,
            path: self.path.clone(),
            query: match &self.query {
                Some(q) => Some(q.clone()),
                None => None,
            },
        }
    }
}

} // verus!
