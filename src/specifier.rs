//! Parsed resource specifiers (absolute URLs).
use vstd::prelude::*;

verus! {

/// Whether the URL parser accepts the text as an absolute URL.
pub uninterp spec fn parses_as_url(text: Seq<char>) -> bool;

/// The serialization of the URL that the text parses to.
pub uninterp spec fn url_serialization(text: Seq<char>) -> Seq<char>;

/// The scheme of the URL that the text parses to.
pub uninterp spec fn url_scheme(text: Seq<char>) -> Seq<char>;

/// The host of the URL that the text parses to, if it has one.
pub uninterp spec fn url_host(text: Seq<char>) -> Option<Seq<char>>;

/// The path of the URL that the text parses to.
pub uninterp spec fn url_path(text: Seq<char>) -> Seq<char>;

/// The query of the URL that the text parses to, if it has one.
pub uninterp spec fn url_query(text: Seq<char>) -> Option<Seq<char>>;

/// The characters of an optional string.
pub open spec fn opt_view(o: Option<String>) -> Option<Seq<char>> {
    match o {
        Some(s) => Some(s@),
        None => None,
    }
}

/// An absolute URL, held as the parts that the cache and the loader read.
/// A value is only made by parsing, so its parts are those of its source.
#[derive(Clone)]
pub struct Specifier {
    text: String,
    scheme: String,
    host: Option<String>,
    path: String,
    query: Option<String>,
    source: Ghost<Seq<char>>,
}

/// Relies on url::Url::parse, which accepts the text exactly when it is an
/// absolute URL, and on `as_str`, `scheme`, `host_str`, `path` and `query` of
/// the parsed URL. Its serialization parses again (checked by
/// `Url::check_invariants`).
#[verifier::external_body]
fn parse_url(text: &str) -> (r: Option<Specifier>)
    ensures
        r is Some <==> parses_as_url(text@),
        r is Some ==> r->0.text@ == url_serialization(text@),
        r is Some ==> r->0.scheme@ == url_scheme(text@),
        r is Some ==> opt_view(r->0.host) == url_host(text@),
        r is Some ==> r->0.path@ == url_path(text@),
        r is Some ==> opt_view(r->0.query) == url_query(text@),
        r is Some ==> r->0.source@ == text@,
        r is Some ==> parses_as_url(r->0.text@),
{
    url::Url::parse(text).ok().map(|u| Specifier {
        text: u.as_str().to_string(),
        scheme: u.scheme().to_string(),
        host: u.host_str().map(|h| h.to_string()),
        path: u.path().to_string(),
        query: u.query().map(|q| q.to_string()),
        source: Ghost(text@),
    })
}

/// Whether the text parses as an absolute URL.
pub(crate) fn url_parses(text: &str) -> (r: bool)
    ensures
        r == parses_as_url(text@),
{
    parse_url(text).is_some()
}

impl Specifier {
    /// The text this specifier was parsed from.
    pub closed spec fn source(&self) -> Seq<char> {
        self.source@
    }

    /// The URL's serialization.
    pub closed spec fn text_view(&self) -> Seq<char> {
        self.text@
    }

    pub closed spec fn scheme_view(&self) -> Seq<char> {
        self.scheme@
    }

    pub closed spec fn host_view(&self) -> Option<Seq<char>> {
        opt_view(self.host)
    }

    pub closed spec fn path_view(&self) -> Seq<char> {
        self.path@
    }

    pub closed spec fn query_view(&self) -> Option<Seq<char>> {
        opt_view(self.query)
    }

    /// The parts are those of the URL parsed from `source`, and the
    /// serialization parses again.
    pub open spec fn wf(&self) -> bool {
        &&& parses_as_url(self.source())
        &&& self.text_view() == url_serialization(self.source())
        &&& self.scheme_view() == url_scheme(self.source())
        &&& self.host_view() == url_host(self.source())
        &&& self.path_view() == url_path(self.source())
        &&& self.query_view() == url_query(self.source())
        &&& parses_as_url(self.text_view())
    }

    /// Parses an absolute URL; `None` exactly when the text is not one.
    pub fn parse(text: &str) -> (r: Option<Specifier>)
        ensures
            r is Some <==> parses_as_url(text@),
            r is Some ==> r->0.wf() && r->0.source() == text@,
    {
        parse_url(text)
    }

    /// The URL's serialization; two specifiers denote the same resource
    /// exactly when their serializations are equal.
    pub fn text(&self) -> (r: &str)
        ensures
            r@ == self.text_view(),
    {
        self.text.as_str()
    }

    pub fn scheme(&self) -> (r: &str)
        ensures
            r@ == self.scheme_view(),
    {
        self.scheme.as_str()
    }

    pub fn host(&self) -> (r: &Option<String>)
        ensures
            opt_view(*r) == self.host_view(),
    {
        &self.host
    }

    pub fn path(&self) -> (r: &str)
        ensures
            r@ == self.path_view(),
    {
        self.path.as_str()
    }

    pub fn query(&self) -> (r: &Option<String>)
        ensures
            opt_view(*r) == self.query_view(),
    {
        &self.query
    }

    /// Whether two specifiers denote the same resource.
    pub fn same_as(&self, other: &Specifier) -> (r: bool)
        ensures
            r == (self.text_view() == other.text_view()),
    {
        self.text == other.text
    }
}

} // verus!
