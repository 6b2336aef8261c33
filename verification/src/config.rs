//! Match rules: the strategy enum, pattern construction and URL matching,
//! and the `RefreshConfig` value that holds one auto-refresh schedule.

use vstd::prelude::*;
use vstd::string::*;

use crate::strutil::{starts_with_seq, str_eq, str_starts_with};
use crate::url_model::{parse_url, spec_parse_url};

verus! {

/// The strategy used to derive and evaluate a match pattern.
#[derive(Clone, Copy, Debug, PartialEq, Eq, Structural)]
pub enum UrlType {
    Domain,
    Subpath,
    FullUrl,
}

impl UrlType {
    /// The wire code of the strategy, as the persistence layer stores it.
    pub open spec fn spec_code(self) -> u8 {
        match self {
            UrlType::Domain => 0,
            UrlType::Subpath => 1,
            UrlType::FullUrl => 2,
        }
    }

    pub fn code(&self) -> (r: u8)
        ensures
            r == self.spec_code(),
    {
        match self {
            UrlType::Domain => 0,
            UrlType::Subpath => 1,
            UrlType::FullUrl => 2,
        }
    }

    /// The strategy a wire code denotes, if any.
    pub open spec fn spec_from_code(code: u8) -> Option<UrlType> {
        if code == 0 {
            Some(UrlType::Domain)
        } else if code == 1 {
            Some(UrlType::Subpath)
        } else if code == 2 {
            Some(UrlType::FullUrl)
        } else {
            None
        }
    }

    pub fn from_code(code: u8) -> (r: Option<UrlType>)
        ensures
            r == UrlType::spec_from_code(code),
    {
        if code == 0 {
            Some(UrlType::Domain)
        } else if code == 1 {
            Some(UrlType::Subpath)
        } else if code == 2 {
            Some(UrlType::FullUrl)
        } else {
            None
        }
    }
}

/// Why a pause was requested.
#[derive(Clone, Copy, Debug, PartialEq, Eq, Structural)]
pub enum PauseReason {
    /// The user started typing in a matching tab.
    TypingEvent,
    /// The user pressed the pause button.
    ManualButton,
}

/// The position of the `k`-th slash of `path` at or after `i`, or the
/// path's length where it has fewer than `k` of them.
pub open spec fn slash_cut(path: Seq<char>, k: nat, i: nat) -> nat
    decreases path.len() - i,
{
    if i >= path.len() {
        path.len()
    } else if path[i as int] == '/' {
        if k <= 1 {
            i
        } else {
            slash_cut(path, (k - 1) as nat, i + 1)
        }
    } else {
        slash_cut(path, k, i + 1)
    }
}

pub proof fn lemma_slash_cut_bounds(path: Seq<char>, k: nat, i: nat)
    requires
        i <= path.len(),
    ensures
        i <= slash_cut(path, k, i) <= path.len(),
    decreases path.len() - i,
{
    if i >= path.len() {
    } else if path[i as int] == '/' {
        if k <= 1 {
        } else {
            lemma_slash_cut_bounds(path, (k - 1) as nat, i + 1);
        }
    } else {
        lemma_slash_cut_bounds(path, k, i + 1);
    }
}

/// The pattern of a subpath rule: the domain followed by the leading piece
/// of the path.  A path's first split part is the empty part before its
/// leading slash; the pattern keeps it and the first `depth + 1` named
/// segments, i.e. the path up to just before its `(depth + 2)`-th slash —
/// the whole path where it has fewer, so a depth beyond the available
/// segments clamps instead of faulting.
pub open spec fn spec_subpath_pattern(domain: Seq<char>, path: Seq<char>, depth: u32) -> Seq<char> {
    domain + path.take(slash_cut(path, depth as nat + 2, 0) as int)
}

/// The shape a domain pattern wraps a domain in.
pub open spec fn spec_domain_pattern(domain: Seq<char>) -> Seq<char> {
    "*://"@ + domain + "/*"@
}

/// The pattern derived from a site URL under a strategy:
/// - `Domain`: `"*://" + domain + "/*"`;
/// - `Subpath`: the domain followed by the kept piece of the path;
/// - `FullUrl`: the original input string unchanged.
pub open spec fn spec_build_pattern(site: Seq<char>, t: UrlType, depth: u32) -> Seq<char> {
    match t {
        UrlType::Domain => spec_domain_pattern(spec_parse_url(site).domain),
        UrlType::Subpath => spec_subpath_pattern(
            spec_parse_url(site).domain,
            spec_parse_url(site).path,
            depth,
        ),
        UrlType::FullUrl => site,
    }
}

/// Whether a candidate URL satisfies a rule pattern under a strategy:
/// - `Domain`: the candidate's parsed domain equals the domain the pattern
///   wraps — stated as equality of the two patterns, which wrap a domain
///   between fixed pieces;
/// - `Subpath`: the pattern begins with the domain, so the candidate's
///   domain-and-path string must begin with the pattern;
/// - `FullUrl`: exact equality with the candidate string itself.
pub open spec fn spec_match_url(pattern: Seq<char>, t: UrlType, candidate: Seq<char>) -> bool {
    match t {
        UrlType::Domain => pattern == spec_domain_pattern(spec_parse_url(candidate).domain),
        UrlType::Subpath => starts_with_seq(
            spec_parse_url(candidate).domain + spec_parse_url(candidate).path,
            pattern,
        ),
        UrlType::FullUrl => pattern == candidate,
    }
}

/// The mathematical value of a `RefreshConfig`.
pub ghost struct ConfigView {
    pub site: Seq<char>,
    pub url_pattern: Seq<char>,
    pub url_type: UrlType,
    pub subpath_depth: u32,
    pub refresh_time: u32,
    pub pause_on_typing: bool,
    pub paused: bool,
    pub sticky_reload: bool,
    pub timer: i32,
    pub enabled: bool,
}

/// One auto-refresh schedule: the site it was created from, the pattern
/// precomputed from it, the strategy and interval, the behavioural flags,
/// and the current timer/pause state.  `timer == 0` means no timer is
/// armed.
#[derive(Debug)]
pub struct RefreshConfig {
    pub site: String,
    pub url_pattern: String,
    pub url_type: UrlType,
    pub subpath_depth: u32,
    pub refresh_time: u32,
    pub pause_on_typing: bool,
    pub paused: bool,
    pub sticky_reload: bool,
    pub timer: i32,
    pub enabled: bool,
}

impl View for RefreshConfig {
    type V = ConfigView;

    open spec fn view(&self) -> ConfigView {
        ConfigView {
            site: self.site@,
            url_pattern: self.url_pattern@,
            url_type: self.url_type,
            subpath_depth: self.subpath_depth,
            refresh_time: self.refresh_time,
            pause_on_typing: self.pause_on_typing,
            paused: self.paused,
            sticky_reload: self.sticky_reload,
            timer: self.timer,
            enabled: self.enabled,
        }
    }
}

impl Clone for RefreshConfig {
    fn clone(&self) -> (r: Self)
        ensures
            r == *self,
    {
        RefreshConfig {
            site: self.site.clone(),
            url_pattern: self.url_pattern.clone(),
            url_type: self.url_type,
            subpath_depth: self.subpath_depth,
            refresh_time: self.refresh_time,
            pause_on_typing: self.pause_on_typing,
            paused: self.paused,
            sticky_reload: self.sticky_reload,
            timer: self.timer,
            enabled: self.enabled,
        }
    }
}

/// The default schedule for a URL: full-URL strategy, 30 second interval,
/// disabled, no timer.
pub open spec fn spec_default_config(u: Seq<char>) -> ConfigView {
    ConfigView {
        site: u,
        url_pattern: u,
        url_type: UrlType::FullUrl,
        subpath_depth: 0,
        refresh_time: 30,
        pause_on_typing: false,
        paused: false,
        sticky_reload: false,
        timer: 0,
        enabled: false,
    }
}

impl RefreshConfig {
    pub fn get_site(&self) -> (r: String)
        ensures
            r@ == self@.site,
    {
        self.site.clone()
    }

    pub fn get_url_pattern(&self) -> (r: String)
        ensures
            r@ == self@.url_pattern,
    {
        self.url_pattern.clone()
    }

    /// Recompute `url_pattern` from `site`, the strategy and the depth.
    /// Total: a depth beyond the path's segments clamps to what is there.
    pub fn set_url_pattern(&mut self)
        ensures
            final(self)@ == (ConfigView {
                url_pattern: spec_build_pattern(
                    old(self)@.site,
                    old(self)@.url_type,
                    old(self)@.subpath_depth,
                ),
                ..old(self)@
            }),
    {
        let u = parse_url(self.site.as_str());
        match self.url_type {
            UrlType::Domain => {
                let mut w: String = ("*://").to_owned();
                w.append(u.get_domain().as_str());
                w.append("/*");
                self.url_pattern = w;
            },
            UrlType::Subpath => {
                let domain = u.get_domain();
                let path = u.get_subpath();
                let k: u64 = self.subpath_depth as u64 + 2;
                let cut = find_slash_cut(path.as_str(), k);
                proof {
                    lemma_slash_cut_bounds(path@, k as nat, 0);
                }
                let piece = path.as_str().substring_char(0, cut);
                self.url_pattern = domain.concat(piece);
            },
            UrlType::FullUrl => {
                self.url_pattern = self.site.clone();
            },
        }
    }

    /// Whether `url` satisfies this rule's pattern under its strategy.
    pub fn match_url(&self, url: &str) -> (r: bool)
        ensures
            r == spec_match_url(self@.url_pattern, self@.url_type, url@),
    {
        match self.url_type {
            UrlType::Domain => {
                let u = parse_url(url);
                let mut w: String = ("*://").to_owned();
                w.append(u.get_domain().as_str());
                w.append("/*");
                w.eq(&self.url_pattern)
            },
            UrlType::Subpath => {
                let u = parse_url(url);
                let c = u.get_domain().concat(u.get_subpath().as_str());
                str_starts_with(c.as_str(), self.url_pattern.as_str())
            },
            UrlType::FullUrl => str_eq(self.url_pattern.as_str(), url),
        }
    }

    pub fn default() -> (r: RefreshConfig)
        ensures
            r@ == spec_default_config(Seq::<char>::empty()),
    {
        proof {
            reveal_strlit("");
            assert(""@ =~= Seq::<char>::empty());
        }
        RefreshConfig::default_with_url("")
    }

    pub fn default_with_url(url: &str) -> (r: RefreshConfig)
        ensures
            r@ == spec_default_config(url@),
    {
        RefreshConfig {
            site: url.to_owned(),
            url_pattern: url.to_owned(),
            url_type: UrlType::FullUrl,
            subpath_depth: 0,
            refresh_time: 30,
            pause_on_typing: false,
            paused: false,
            sticky_reload: false,
            timer: 0,
            enabled: false,
        }
    }
}

/// The default schedule with an empty site.
pub fn default_refresh_config() -> (r: RefreshConfig)
    ensures
        r@ == spec_default_config(Seq::<char>::empty()),
{
    RefreshConfig::default()
}

/// The position of the `k`-th slash of `path`, or its length where it has
/// fewer.
fn find_slash_cut(path: &str, k: u64) -> (r: usize)
    ensures
        r == slash_cut(path@, k as nat, 0),
{
    let len = path.unicode_len();
    let mut i: usize = 0;
    let mut rem: u64 = k;
    while i < len
        invariant
            i <= len,
            len == path@.len(),
            slash_cut(path@, k as nat, 0) == slash_cut(path@, rem as nat, i as nat),
        decreases len - i,
    {
        if path.get_char(i) == '/' {
            if rem <= 1 {
                return i;
            }
            rem = rem - 1;
        }
        i += 1;
    }
    i
}

} // verus!
