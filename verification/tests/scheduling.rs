//! The schedule registry, the timer life cycle, and the tab registry.

use rrefresh::config::{PauseReason, RefreshConfig, UrlType};
use rrefresh::scheduler::{
    get_all_configs, get_config_by_url, is_sticky, load_refresh_config, refresh_tab,
    remove_pause, remove_refresh, restore_refresh_config, set_pause, set_refresh, Scheduler,
};
use rrefresh::tabs::{bulk_refresh, remove_tab, update_tabs, Tab, TabRegistry};

const SITE: &str = "https://news.example.com/a/b";

fn make(sched: &mut Scheduler, enabled: bool, pause_on_typing: bool) -> RefreshConfig {
    set_refresh(
        sched,
        SITE.to_string(),
        UrlType::Subpath,
        1,
        30,
        pause_on_typing,
        false,
        enabled,
    )
}

fn fields_equal_but_timer(a: &RefreshConfig, b: &RefreshConfig) -> bool {
    a.get_site() == b.get_site() && a.get_url_pattern() == b.get_url_pattern()
        && a.url_type == b.url_type && a.subpath_depth == b.subpath_depth
        && a.refresh_time == b.refresh_time && a.pause_on_typing == b.pause_on_typing
        && a.paused == b.paused && a.sticky_reload == b.sticky_reload && a.enabled == b.enabled
}

#[test]
fn create_enabled_rule_arms_a_timer() {
    let mut sched = Scheduler::new();
    let cfg = make(&mut sched, true, false);
    assert_eq!(cfg.get_site(), SITE);
    assert_eq!(cfg.get_url_pattern(), "news.example.com/a/b");
    assert!(cfg.enabled);
    assert!(!cfg.paused);
    assert_ne!(cfg.timer, 0);
}

#[test]
fn create_disabled_rule_arms_nothing() {
    let mut sched = Scheduler::new();
    let cfg = make(&mut sched, false, false);
    assert!(!cfg.enabled);
    assert_eq!(cfg.timer, 0);
}

#[test]
fn replacing_a_rule_keeps_one_entry() {
    let mut sched = Scheduler::new();
    make(&mut sched, true, false);
    let cfg = set_refresh(
        &mut sched,
        SITE.to_string(),
        UrlType::Domain,
        0,
        60,
        true,
        true,
        true,
    );
    let all = get_all_configs(&sched);
    assert_eq!(all.len(), 1);
    assert_eq!(all[0].refresh_time, 60);
    assert_eq!(all[0].url_type, UrlType::Domain);
    assert_eq!(all[0].timer, cfg.timer);
}

#[test]
fn remove_twice_yields_ok_then_not_found() {
    let mut sched = Scheduler::new();
    make(&mut sched, true, false);
    assert!(remove_refresh(&mut sched, SITE).is_ok());
    let second = remove_refresh(&mut sched, SITE);
    assert!(second.is_err());
    assert_eq!(
        second.unwrap_err().description(),
        format!("{} not found in storage", SITE)
    );
    assert_eq!(get_all_configs(&sched).len(), 0);
}

#[test]
fn pause_resume_round_trip_restores_the_rule() {
    let mut sched = Scheduler::new();
    let tabs = TabRegistry::new();
    let created = make(&mut sched, true, false);

    assert!(set_pause(&mut sched, SITE, PauseReason::ManualButton).is_ok());
    let paused = load_refresh_config(&sched, &tabs, SITE);
    assert!(paused.paused);
    assert_eq!(paused.timer, 0);

    assert!(remove_pause(&mut sched, SITE).is_ok());
    let restored = load_refresh_config(&sched, &tabs, SITE);
    assert!(!restored.paused);
    assert_ne!(restored.timer, 0);
    assert!(fields_equal_but_timer(&created, &restored));
}

#[test]
fn typing_pause_is_no_op_when_pause_on_typing_is_off() {
    let mut sched = Scheduler::new();
    let tabs = TabRegistry::new();
    let created = make(&mut sched, true, false);
    assert!(set_pause(&mut sched, SITE, PauseReason::TypingEvent).is_ok());
    let after = load_refresh_config(&sched, &tabs, SITE);
    assert!(!after.paused);
    assert_eq!(after.timer, created.timer);
    assert!(fields_equal_but_timer(&created, &after));
}

#[test]
fn typing_pause_applies_when_pause_on_typing_is_on() {
    let mut sched = Scheduler::new();
    let tabs = TabRegistry::new();
    make(&mut sched, true, true);
    assert!(set_pause(&mut sched, SITE, PauseReason::TypingEvent).is_ok());
    let after = load_refresh_config(&sched, &tabs, SITE);
    assert!(after.paused);
    assert_eq!(after.timer, 0);
}

#[test]
fn pausing_twice_is_a_no_op() {
    let mut sched = Scheduler::new();
    let tabs = TabRegistry::new();
    make(&mut sched, true, false);
    assert!(set_pause(&mut sched, SITE, PauseReason::ManualButton).is_ok());
    let once = load_refresh_config(&sched, &tabs, SITE);
    assert!(set_pause(&mut sched, SITE, PauseReason::ManualButton).is_ok());
    let twice = load_refresh_config(&sched, &tabs, SITE);
    assert!(twice.paused);
    assert_eq!(twice.timer, 0);
    assert!(fields_equal_but_timer(&once, &twice));
}

#[test]
fn resume_on_unpaused_rule_changes_nothing() {
    let mut sched = Scheduler::new();
    let tabs = TabRegistry::new();
    let created = make(&mut sched, true, false);
    assert!(remove_pause(&mut sched, SITE).is_ok());
    let after = load_refresh_config(&sched, &tabs, SITE);
    assert!(!after.paused);
    assert_eq!(after.timer, created.timer);
    assert!(fields_equal_but_timer(&created, &after));
}

#[test]
fn pause_and_resume_on_missing_site_report_not_found() {
    let mut sched = Scheduler::new();
    let p = set_pause(&mut sched, "https://missing.example/", PauseReason::ManualButton);
    assert!(p.is_err());
    assert_eq!(
        p.unwrap_err().description(),
        "https://missing.example/ not found in storage"
    );
    let r = remove_pause(&mut sched, "https://missing.example/");
    assert!(r.is_err());
}

#[test]
fn pausing_a_disabled_rule_is_a_no_op() {
    let mut sched = Scheduler::new();
    let tabs = TabRegistry::new();
    make(&mut sched, false, false);
    assert!(set_pause(&mut sched, SITE, PauseReason::ManualButton).is_ok());
    let after = load_refresh_config(&sched, &tabs, SITE);
    assert!(!after.paused);
    assert_eq!(after.timer, 0);
}

#[test]
fn load_returns_stored_rule() {
    let mut sched = Scheduler::new();
    let tabs = TabRegistry::new();
    let created = make(&mut sched, true, false);
    let loaded = load_refresh_config(&sched, &tabs, SITE);
    assert!(fields_equal_but_timer(&created, &loaded));
    assert_eq!(created.timer, loaded.timer);
}

#[test]
fn load_of_unknown_site_defaults_to_active_tab() {
    let sched = Scheduler::new();
    let mut tabs = TabRegistry::new();
    update_tabs(&mut tabs, 1, "https://idle.example/".to_string(), false);
    update_tabs(&mut tabs, 2, "https://active.example/".to_string(), true);
    let cfg = load_refresh_config(&sched, &tabs, "https://unknown.example/");
    assert_eq!(cfg.get_site(), "https://active.example/");
    assert_eq!(cfg.url_type, UrlType::FullUrl);
    assert_eq!(cfg.refresh_time, 30);
    assert!(!cfg.enabled);
    assert_eq!(cfg.timer, 0);
}

#[test]
fn load_of_unknown_site_without_active_tab_is_empty() {
    let sched = Scheduler::new();
    let mut tabs = TabRegistry::new();
    update_tabs(&mut tabs, 1, "https://idle.example/".to_string(), false);
    let cfg = load_refresh_config(&sched, &tabs, "https://unknown.example/");
    assert_eq!(cfg.get_site(), "");
}

#[test]
fn restore_rearms_enabled_unpaused_rules_only() {
    let mut sched = Scheduler::new();
    let tabs = TabRegistry::new();

    restore_refresh_config(
        &mut sched,
        "https://a.example/x".to_string(),
        UrlType::FullUrl,
        0,
        45,
        true,
        false,
        true,
        true,
    );
    let a = load_refresh_config(&sched, &tabs, "https://a.example/x");
    assert!(a.enabled && !a.paused);
    assert_eq!(a.refresh_time, 45);
    assert!(a.pause_on_typing && a.sticky_reload);
    assert_ne!(a.timer, 0);

    restore_refresh_config(
        &mut sched,
        "https://b.example/x".to_string(),
        UrlType::FullUrl,
        0,
        45,
        false,
        true,
        false,
        true,
    );
    let b = load_refresh_config(&sched, &tabs, "https://b.example/x");
    assert!(b.enabled && b.paused);
    assert_eq!(b.timer, 0);

    restore_refresh_config(
        &mut sched,
        "https://c.example/x".to_string(),
        UrlType::FullUrl,
        0,
        45,
        false,
        false,
        false,
        false,
    );
    let c = load_refresh_config(&sched, &tabs, "https://c.example/x");
    assert!(!c.enabled && !c.paused);
    assert_eq!(c.timer, 0);
}

#[test]
fn get_all_configs_snapshots_every_rule() {
    let mut sched = Scheduler::new();
    make(&mut sched, true, false);
    set_refresh(
        &mut sched,
        "https://other.example/".to_string(),
        UrlType::Domain,
        0,
        10,
        false,
        false,
        false,
    );
    let mut sites: Vec<String> = get_all_configs(&sched).iter().map(|c| c.get_site()).collect();
    sites.sort();
    assert_eq!(sites, vec![SITE.to_string(), "https://other.example/".to_string()]);
}

#[test]
fn get_config_by_url_returns_matching_rules_only() {
    let mut sched = Scheduler::new();
    make(&mut sched, true, false);
    set_refresh(
        &mut sched,
        "https://other.example/".to_string(),
        UrlType::Domain,
        0,
        10,
        false,
        false,
        false,
    );
    let hits = get_config_by_url(&sched, "https://news.example.com/a/b/c");
    assert_eq!(hits.len(), 1);
    assert_eq!(hits[0].get_site(), SITE);
    assert_eq!(
        get_config_by_url(&sched, "https://elsewhere.example/").len(),
        0
    );
}

#[test]
fn is_sticky_reports_matching_sticky_rules() {
    let mut sched = Scheduler::new();
    set_refresh(
        &mut sched,
        "https://pin.example/page".to_string(),
        UrlType::Domain,
        0,
        30,
        false,
        true,
        true,
    );
    make(&mut sched, true, false);
    assert!(is_sticky(&sched, "https://pin.example/other"));
    assert!(!is_sticky(&sched, "https://news.example.com/a/b"));
    assert!(!is_sticky(&sched, "https://elsewhere.example/"));
}

#[test]
fn refresh_tab_reloads_exactly_the_matching_tabs() {
    let mut sched = Scheduler::new();
    let cfg = make(&mut sched, true, false);
    let mut tabs = TabRegistry::new();
    update_tabs(&mut tabs, 1, "https://news.example.com/a/b/c".to_string(), false);
    update_tabs(&mut tabs, 2, "https://news.example.com/z".to_string(), false);
    update_tabs(&mut tabs, 3, "https://news.example.com/a/b".to_string(), true);
    let mut ids = refresh_tab(&cfg, &tabs);
    ids.sort();
    assert_eq!(ids, vec![1, 3]);
}

#[test]
fn tab_registry_upserts_and_removes() {
    let mut tabs = TabRegistry::new();
    update_tabs(&mut tabs, 7, "https://a.example/".to_string(), false);
    update_tabs(&mut tabs, 7, "https://b.example/".to_string(), true);
    let sched = Scheduler::new();
    let cfg = load_refresh_config(&sched, &tabs, "https://unknown.example/");
    assert_eq!(cfg.get_site(), "https://b.example/");
    remove_tab(&mut tabs, 7);
    let cfg = load_refresh_config(&sched, &tabs, "https://unknown.example/");
    assert_eq!(cfg.get_site(), "");
}

#[test]
fn error_carries_its_description() {
    let e = rrefresh::rr_error::RrError::new("something went wrong");
    assert_eq!(e.description(), "something went wrong");
}

#[test]
fn bulk_refresh_merges_a_snapshot() {
    let mut tabs = TabRegistry::new();
    update_tabs(&mut tabs, 1, "https://old.example/".to_string(), false);
    bulk_refresh(
        &mut tabs,
        vec![
            Tab::new(1, "https://new.example/", false),
            Tab::new(2, "https://two.example/", true),
        ],
    );
    assert_eq!(Tab::new(9, "https://nine.example/", true).get_url(), "https://nine.example/");
    let sched = Scheduler::new();
    let cfg = load_refresh_config(&sched, &tabs, "https://unknown.example/");
    assert_eq!(cfg.get_site(), "https://two.example/");
}
