//! The URL model: a URL string parsed into domain, path and full string.
//!
//! Parsing itself is done by the `url` crate; what it returns for a given
//! string is given names here, and everything downstream is stated over
//! those names.  Parsing is fail-soft by design: a malformed URL becomes
//! the all-empty value, never an error visible to callers.

use vstd::prelude::*;

verus! {

/// Whether `url::Url::parse` accepts the string as an absolute URL.
pub uninterp spec fn url_parse_ok(s: Seq<char>) -> bool;

/// The host `url::Url::host_str` reports for an accepted URL, if it has one.
pub uninterp spec fn url_host(s: Seq<char>) -> Option<Seq<char>>;

/// The path `url::Url::path` reports for an accepted URL.
pub uninterp spec fn url_path(s: Seq<char>) -> Seq<char>;

/// Relies on `url::Url::parse`, `Url::host_str` and `Url::path`: whether
/// parsing succeeds, and the host and path of the parsed URL, are functions
/// of the input string alone.
#[verifier::external_body]
fn parse_parts(s: &str) -> (r: Option<(Option<String>, String)>)
    ensures
        r is Some <==> url_parse_ok(s@),
        r matches Some(p) ==> {
            &&& (p.0 matches Some(h) ==> url_host(s@) == Some(h@))
            &&& (p.0 is None ==> url_host(s@) is None)
            &&& p.1@ == url_path(s@)
        },
{
    match url::Url::parse(s) {
        Ok(u) => Some((u.host_str().map(|h| h.to_string()), u.path().to_string())),
        Err(_) => None,
    }
}

/// The mathematical value of a parsed URL.
pub ghost struct UrlView {
    pub path: Seq<char>,
    pub domain: Seq<char>,
    pub full_url: Seq<char>,
}

impl UrlView {
    /// The all-empty value, produced when parsing fails.
    pub open spec fn empty() -> UrlView {
        UrlView {
            path: Seq::<char>::empty(),
            domain: Seq::<char>::empty(),
            full_url: Seq::<char>::empty(),
        }
    }
}

/// What `parse_url` derives from a URL string: the parsed domain (empty
/// where the URL has no host), the parsed path, and the string itself; or
/// the all-empty value where the string is not an absolute URL.
pub open spec fn spec_parse_url(s: Seq<char>) -> UrlView {
    if url_parse_ok(s) {
        UrlView {
            path: url_path(s),
            domain: match url_host(s) {
                Some(h) => h,
                None => Seq::<char>::empty(),
            },
            full_url: s,
        }
    } else {
        UrlView::empty()
    }
}

/// The parsed domain of a URL string, under the fail-soft policy.
pub open spec fn spec_domain_of(s: Seq<char>) -> Seq<char> {
    spec_parse_url(s).domain
}

/// A URL broken into the parts the matcher reads.
pub struct URL {
    path: String,
    domain: String,
    full_url: String,
}

impl View for URL {
    type V = UrlView;

    closed spec fn view(&self) -> UrlView {
        UrlView { path: self.path@, domain: self.domain@, full_url: self.full_url@ }
    }
}

impl URL {
    pub fn get_subpath(&self) -> (r: String)
        ensures
            r@ == self@.path,
    {
        self.path.clone()
    }

    pub fn get_domain(&self) -> (r: String)
        ensures
            r@ == self@.domain,
    {
        self.domain.clone()
    }

    pub fn get_full_url(&self) -> (r: String)
        ensures
            r@ == self@.full_url,
    {
        self.full_url.clone()
    }

    pub fn default() -> (r: URL)
        ensures
            r@ == UrlView::empty(),
    {
        URL { path: String::new(), domain: String::new(), full_url: String::new() }
    }
}

/// Parse a URL string into its domain, path and full string; fail-soft on
/// malformed input.
pub fn parse_url(url: &str) -> (r: URL)
    ensures
        r@ == spec_parse_url(url@),
{
    match parse_parts(url) {
        Some((host, path)) => {
            let domain = match host {
                Some(h) => h,
                None => String::new(),
            };
            URL { path, domain, full_url: url.to_owned() }
        },
        None => URL::default(),
    }
}

} // verus!
