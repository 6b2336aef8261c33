//! URL parsing, pattern construction and matching.

use rrefresh::config::{default_refresh_config, RefreshConfig, UrlType};
use rrefresh::url_model::{parse_url, URL};

fn rule(site: &str, url_type: UrlType, depth: u32) -> RefreshConfig {
    let mut cfg = RefreshConfig::default_with_url(site);
    cfg.url_type = url_type;
    cfg.subpath_depth = depth;
    cfg.set_url_pattern();
    cfg
}

#[test]
fn parse_url_splits_domain_and_path() {
    let u = parse_url("https://news.example.com/a/b?x=1");
    assert_eq!(u.get_domain(), "news.example.com");
    assert_eq!(u.get_subpath(), "/a/b");
    assert_eq!(u.get_full_url(), "https://news.example.com/a/b?x=1");
}

#[test]
fn parse_url_is_fail_soft_on_malformed_input() {
    let u = parse_url("not a url at all");
    assert_eq!(u.get_domain(), "");
    assert_eq!(u.get_subpath(), "");
    assert_eq!(u.get_full_url(), "");
}

#[test]
fn parse_url_without_host_has_empty_domain() {
    let u = parse_url("mailto:someone@example.com");
    assert_eq!(u.get_domain(), "");
}

#[test]
fn default_url_is_all_empty() {
    let u = URL::default();
    assert_eq!(u.get_domain(), "");
    assert_eq!(u.get_subpath(), "");
    assert_eq!(u.get_full_url(), "");
}

#[test]
fn domain_pattern_wraps_the_domain() {
    let cfg = rule("https://news.example.com/a/b", UrlType::Domain, 0);
    assert_eq!(cfg.get_url_pattern(), "*://news.example.com/*");
}

#[test]
fn full_url_pattern_is_the_input_unchanged() {
    let cfg = rule("https://news.example.com/a/b?x=1", UrlType::FullUrl, 0);
    assert_eq!(cfg.get_url_pattern(), "https://news.example.com/a/b?x=1");
}

#[test]
fn every_strategy_matches_its_own_url() {
    let site = "https://news.example.com/a/b";
    for (t, d) in [
        (UrlType::Domain, 0),
        (UrlType::Subpath, 0),
        (UrlType::Subpath, 1),
        (UrlType::Subpath, 9),
        (UrlType::FullUrl, 0),
    ] {
        let cfg = rule(site, t, d);
        assert!(cfg.match_url(site), "strategy {:?} depth {} failed", t, d);
    }
}

#[test]
fn domain_match_ignores_path_and_query() {
    let cfg = rule("https://news.example.com/a/b", UrlType::Domain, 0);
    assert!(cfg.match_url("https://news.example.com/zzz?q=7"));
    assert!(cfg.match_url("https://news.example.com/"));
    assert!(!cfg.match_url("https://other.example.com/a/b"));
}

#[test]
fn subpath_depth_one_keeps_two_segments() {
    let cfg = rule("https://news.example.com/a/b/c", UrlType::Subpath, 1);
    assert_eq!(cfg.get_url_pattern(), "news.example.com/a/b");
    assert!(cfg.match_url("https://news.example.com/a/b/x"));
    assert!(!cfg.match_url("https://news.example.com/a/x"));
}

#[test]
fn subpath_scenario_matches_deeper_paths_only() {
    let cfg = rule("https://news.example.com/a/b", UrlType::Subpath, 1);
    assert_eq!(cfg.get_url_pattern(), "news.example.com/a/b");
    assert!(cfg.match_url("https://news.example.com/a/b/c?x=1"));
    assert!(!cfg.match_url("https://news.example.com/z"));
}

#[test]
fn subpath_depth_beyond_segments_clamps_without_fault() {
    let cfg = rule("https://news.example.com/only", UrlType::Subpath, 5);
    assert_eq!(cfg.get_url_pattern(), "news.example.com/only");
    assert!(cfg.match_url("https://news.example.com/only/deeper"));
}

#[test]
fn subpath_depth_zero_keeps_one_segment() {
    let cfg = rule("https://news.example.com/a/b/c", UrlType::Subpath, 0);
    assert_eq!(cfg.get_url_pattern(), "news.example.com/a");
    assert!(cfg.match_url("https://news.example.com/a/zz"));
    assert!(!cfg.match_url("https://news.example.com/b"));
}

#[test]
fn full_url_match_is_exact() {
    let cfg = rule("https://news.example.com/a", UrlType::FullUrl, 0);
    assert!(cfg.match_url("https://news.example.com/a"));
    assert!(!cfg.match_url("https://news.example.com/a?x=1"));
    assert!(!cfg.match_url("https://news.example.com/a/b"));
}

#[test]
fn default_config_is_disabled_full_url_thirty_seconds() {
    let cfg = default_refresh_config();
    assert_eq!(cfg.get_site(), "");
    assert_eq!(cfg.get_url_pattern(), "");
    assert_eq!(cfg.url_type, UrlType::FullUrl);
    assert_eq!(cfg.subpath_depth, 0);
    assert_eq!(cfg.refresh_time, 30);
    assert!(!cfg.pause_on_typing);
    assert!(!cfg.paused);
    assert!(!cfg.sticky_reload);
    assert_eq!(cfg.timer, 0);
    assert!(!cfg.enabled);
}

#[test]
fn default_with_url_seeds_site_and_pattern() {
    let cfg = RefreshConfig::default_with_url("https://x.example/");
    assert_eq!(cfg.get_site(), "https://x.example/");
    assert_eq!(cfg.get_url_pattern(), "https://x.example/");
    assert!(!cfg.enabled);
}

#[test]
fn strategy_codes_round_trip() {
    for t in [UrlType::Domain, UrlType::Subpath, UrlType::FullUrl] {
        assert_eq!(UrlType::from_code(t.code()), Some(t));
    }
    assert_eq!(UrlType::from_code(3), None);
    assert_eq!(UrlType::from_code(255), None);
}
