//! The refresh scheduler: the registry of all schedules, and the state
//! machine that arms, disarms, pauses and resumes each rule's timer.
//!
//! Every mutating operation is stated as a pure transition on the
//! scheduler's mathematical state (`SchedulerView`), and the executable
//! operation is proved to realize exactly that transition.

use vstd::prelude::*;
use vstd::string::*;

use crate::config::{
    spec_build_pattern, spec_default_config, spec_match_url, ConfigView, PauseReason,
    RefreshConfig, UrlType,
};
use crate::rr_error::RrError;
use crate::strutil::str_eq;
use crate::tabs::{lemma_tabs_map_contains, lemma_tabs_map_get, tabs_map, TabRegistry, TabView};
use crate::timers::{create_window_timer, remove_window_timer, spec_arm, timers_wf, TimersView, WindowTimers};

verus! {

// ---------------------------------------------------------------------
// The registry read as a map
// ---------------------------------------------------------------------

/// No two entries share a site key.
pub open spec fn rule_keys_unique(s: Seq<(String, RefreshConfig)>) -> bool {
    forall|i: int, j: int| 0 <= i < j < s.len() ==> s[i].0@ != s[j].0@
}

/// The rule store read as a map from site key to rule.
pub open spec fn rules_map(s: Seq<(String, RefreshConfig)>) -> Map<Seq<char>, ConfigView>
    decreases s.len(),
{
    if s.len() == 0 {
        Map::empty()
    } else {
        rules_map(s.drop_last()).insert(s.last().0@, s.last().1@)
    }
}

pub proof fn lemma_rules_map_contains(s: Seq<(String, RefreshConfig)>, k: Seq<char>)
    ensures
        rules_map(s).dom().contains(k) <==> exists|i: int| 0 <= i < s.len() && s[i].0@ == k,
    decreases s.len(),
{
    if s.len() == 0 {
    } else {
        let pre = s.drop_last();
        lemma_rules_map_contains(pre, k);
        if rules_map(s).dom().contains(k) {
            if s.last().0@ == k {
                assert(s[s.len() - 1].0@ == k);
            } else {
                let i = choose|i: int| 0 <= i < pre.len() && pre[i].0@ == k;
                assert(s[i].0@ == k);
            }
        }
        if exists|i: int| 0 <= i < s.len() && s[i].0@ == k {
            let i = choose|i: int| 0 <= i < s.len() && s[i].0@ == k;
            if i < s.len() - 1 {
                assert(pre[i].0@ == k);
            }
        }
    }
}

pub proof fn lemma_rules_map_get(s: Seq<(String, RefreshConfig)>, i: int)
    requires
        rule_keys_unique(s),
        0 <= i < s.len(),
    ensures
        rules_map(s).dom().contains(s[i].0@),
        rules_map(s)[s[i].0@] == s[i].1@,
    decreases s.len(),
{
    let pre = s.drop_last();
    if i == s.len() - 1 {
    } else {
        lemma_rules_map_get(pre, i);
        assert(s.last().0@ != s[i].0@);
    }
}

pub proof fn lemma_rules_map_push(s: Seq<(String, RefreshConfig)>, e: (String, RefreshConfig))
    ensures
        rules_map(s.push(e)) == rules_map(s).insert(e.0@, e.1@),
{
    assert(s.push(e).drop_last() =~= s);
    assert(s.push(e).last() == e);
}

pub proof fn lemma_rules_map_remove(s: Seq<(String, RefreshConfig)>, i: int)
    requires
        rule_keys_unique(s),
        0 <= i < s.len(),
    ensures
        rules_map(s.remove(i)) == rules_map(s).remove(s[i].0@),
    decreases s.len(),
{
    let k = s[i].0@;
    if i == s.len() - 1 {
        assert(s.remove(i) =~= s.drop_last());
        lemma_rules_map_contains(s.drop_last(), k);
        assert(forall|j: int| 0 <= j < s.len() - 1 ==> s.drop_last()[j].0@ != k);
        assert(!rules_map(s.drop_last()).dom().contains(k));
        assert(rules_map(s.remove(i)) =~= rules_map(s).remove(k));
    } else {
        let pre = s.drop_last();
        assert(s.remove(i).drop_last() =~= pre.remove(i));
        assert(s.remove(i).last() == s.last());
        lemma_rules_map_remove(pre, i);
        assert(s.last().0@ != k);
        assert(rules_map(s.remove(i)) =~= rules_map(s).remove(k));
    }
}

// ---------------------------------------------------------------------
// The scheduler and its state
// ---------------------------------------------------------------------

/// The scheduler's mathematical state: the schedule registry and the
/// timer collaborator's state.
pub ghost struct SchedulerView {
    pub rules: Map<Seq<char>, ConfigView>,
    pub timers: TimersView,
}

/// The schedule registry together with the timers it owns.
pub struct Scheduler {
    rules: Vec<(String, RefreshConfig)>,
    timers: WindowTimers,
}

impl View for Scheduler {
    type V = SchedulerView;

    closed spec fn view(&self) -> SchedulerView {
        SchedulerView { rules: rules_map(self.rules@), timers: self.timers@ }
    }
}

impl Scheduler {
    /// Well-formedness of the store: keys are unique, each stored rule
    /// carries its own key as its site, and the timer state is sound.
    pub closed spec fn inv(self) -> bool {
        &&& rule_keys_unique(self.rules@)
        &&& forall|i: int|
            0 <= i < self.rules@.len() ==> self.rules@[i].1@.site == self.rules@[i].0@
        &&& timers_wf(self.timers@)
    }

    pub fn new() -> (s: Scheduler)
        ensures
            s.inv(),
            s@ == (SchedulerView {
                rules: Map::<Seq<char>, ConfigView>::empty(),
                timers: (TimersView { next: 1int, armed: Map::<i32, u32>::empty() }),
            }),
    {
        Scheduler { rules: Vec::new(), timers: WindowTimers::new() }
    }
}

/// The index of the rule stored for `site`, where there is one.
fn find_rule_index(sched: &Scheduler, site: &str) -> (r: Option<usize>)
    ensures
        match r {
            Some(i) => i < sched.rules@.len() && sched.rules@[i as int].0@ == site@,
            None => forall|j: int| 0 <= j < sched.rules@.len() ==> sched.rules@[j].0@ != site@,
        },
{
    let n = sched.rules.len();
    let mut i: usize = 0;
    while i < n
        invariant
            i <= n,
            n == sched.rules@.len(),
            forall|j: int| 0 <= j < i ==> sched.rules@[j].0@ != site@,
        decreases n - i,
    {
        if str_eq(sched.rules[i].0.as_str(), site) {
            return Some(i);
        }
        i += 1;
    }
    None
}

// ---------------------------------------------------------------------
// Transitions
// ---------------------------------------------------------------------

/// What a rule created by `set_refresh` or restored from storage holds.
pub open spec fn spec_new_config(
    site: Seq<char>,
    url_type: UrlType,
    subpath_depth: u32,
    refresh_time: u32,
    pause_on_typing: bool,
    paused: bool,
    sticky_reload: bool,
    timer: i32,
    enabled: bool,
) -> ConfigView {
    ConfigView {
        site,
        url_pattern: spec_build_pattern(site, url_type, subpath_depth),
        url_type,
        subpath_depth,
        refresh_time,
        pause_on_typing,
        paused,
        sticky_reload,
        timer,
        enabled,
    }
}

/// What `remove_refresh` does: disarm the stored rule's timer and delete
/// the entry; nothing where no rule is stored for `site`.
pub open spec fn spec_remove_refresh(s: SchedulerView, site: Seq<char>) -> SchedulerView {
    if s.rules.dom().contains(site) {
        SchedulerView {
            rules: s.rules.remove(site),
            timers: TimersView {
                next: s.timers.next,
                armed: s.timers.armed.remove(s.rules[site].timer),
            },
        }
    } else {
        s
    }
}

/// What `set_refresh` does: drop any prior rule for `site` (disarming its
/// timer), build the new rule with its precomputed pattern, arm a timer
/// iff the rule is enabled, and store it.
pub open spec fn spec_set_refresh(
    s: SchedulerView,
    site: Seq<char>,
    url_type: UrlType,
    subpath_depth: u32,
    time_in_sec: u32,
    pause_on_typing: bool,
    sticky_reload: bool,
    refresh_enabled: bool,
) -> SchedulerView {
    let s1 = spec_remove_refresh(s, site);
    let ar = if refresh_enabled {
        spec_arm(s1.timers, time_in_sec)
    } else {
        (s1.timers, 0i32)
    };
    SchedulerView {
        rules: s1.rules.insert(
            site,
            spec_new_config(
                site,
                url_type,
                subpath_depth,
                time_in_sec,
                pause_on_typing,
                false,
                sticky_reload,
                ar.1,
                refresh_enabled,
            ),
        ),
        timers: ar.0,
    }
}

/// What restoring a stored rule does: like `set_refresh`, but the paused
/// flag is kept (a disabled rule is never paused) and a timer is armed
/// only for an enabled, unpaused rule.
pub open spec fn spec_restore_refresh(
    s: SchedulerView,
    site: Seq<char>,
    url_type: UrlType,
    subpath_depth: u32,
    time_in_sec: u32,
    pause_on_typing: bool,
    paused: bool,
    sticky_reload: bool,
    refresh_enabled: bool,
) -> SchedulerView {
    let s1 = spec_remove_refresh(s, site);
    let kept_paused = paused && refresh_enabled;
    let ar = if refresh_enabled && !kept_paused {
        spec_arm(s1.timers, time_in_sec)
    } else {
        (s1.timers, 0i32)
    };
    SchedulerView {
        rules: s1.rules.insert(
            site,
            spec_new_config(
                site,
                url_type,
                subpath_depth,
                time_in_sec,
                pause_on_typing,
                kept_paused,
                sticky_reload,
                ar.1,
                refresh_enabled,
            ),
        ),
        timers: ar.0,
    }
}

/// Whether a pause request takes effect on a rule with the given
/// pause-on-typing flag.
pub open spec fn spec_pause_applies(reason: PauseReason, pause_on_typing: bool) -> bool {
    (reason == PauseReason::TypingEvent && pause_on_typing) || reason == PauseReason::ManualButton
}

/// What `set_pause` does: where the reason applies and the rule is armed
/// and not yet paused, disarm the timer and mark the rule paused; in every
/// other case, nothing.
pub open spec fn spec_set_pause(s: SchedulerView, site: Seq<char>, reason: PauseReason) -> SchedulerView {
    if s.rules.dom().contains(site) {
        let c = s.rules[site];
        if spec_pause_applies(reason, c.pause_on_typing) && c.timer != 0 && !c.paused {
            SchedulerView {
                rules: s.rules.insert(site, (ConfigView { timer: 0, paused: true, ..c })),
                timers: TimersView {
                    next: s.timers.next,
                    armed: s.timers.armed.remove(c.timer),
                },
            }
        } else {
            s
        }
    } else {
        s
    }
}

/// What `remove_pause` does: where the rule is paused (so its timer is
/// absent), re-arm a timer with the rule's original interval and clear the
/// paused flag — the rule keeps no timer where arming fails; in every
/// other case, nothing.
pub open spec fn spec_remove_pause(s: SchedulerView, site: Seq<char>) -> SchedulerView {
    if s.rules.dom().contains(site) {
        let c = s.rules[site];
        if c.timer == 0 && c.paused {
            let ar = spec_arm(s.timers, c.refresh_time);
            SchedulerView {
                rules: s.rules.insert(site, (ConfigView { timer: ar.1, paused: false, ..c })),
                timers: ar.0,
            }
        } else {
            s
        }
    } else {
        s
    }
}

// ---------------------------------------------------------------------
// Operations
// ---------------------------------------------------------------------

/// Arm a timer for `cfg` iff it is enabled, returning the new handle, or 0
/// where nothing was armed or arming failed.
pub fn apply_refresh(timers: &mut WindowTimers, time: u32, cfg: &RefreshConfig) -> (r: i32)
    requires
        timers_wf(old(timers)@),
    ensures
        timers_wf(final(timers)@),
        cfg@.enabled ==> final(timers)@ == spec_arm(old(timers)@, time).0 && r == spec_arm(
            old(timers)@,
            time,
        ).1,
        !cfg@.enabled ==> final(timers)@ == old(timers)@ && r == 0,
{
    if cfg.enabled {
        match create_window_timer(timers, time, cfg) {
            Ok(t) => t,
            Err(_) => 0,
        }
    } else {
        0
    }
}

/// Disarm the timer of the rule stored for `site` and delete the rule.
/// Fails with `NotFound` — and changes nothing — exactly when no rule is
/// stored for `site`.
pub fn remove_refresh(sched: &mut Scheduler, site: &str) -> (r: Result<(), RrError>)
    requires
        old(sched).inv(),
    ensures
        final(sched).inv(),
        final(sched)@ == spec_remove_refresh(old(sched)@, site@),
        r is Ok <==> old(sched)@.rules.dom().contains(site@),
        r matches Err(e) ==> e@ == site@ + " not found in storage"@,
{
    let ghost s0 = sched.rules@;
    match find_rule_index(sched, site) {
        Some(i) => {
            proof {
                lemma_rules_map_get(s0, i as int);
            }
            let kv = sched.rules.remove(i);
            remove_window_timer(&mut sched.timers, kv.1.timer);
            proof {
                lemma_rules_map_remove(s0, i as int);
                assert(rule_keys_unique(sched.rules@));
            }
            Ok(())
        },
        None => {
            proof {
                lemma_rules_map_contains(s0, site@);
            }
            let mut msg: String = site.to_owned();
            msg.append(" not found in storage");
            Err(RrError::new(msg.as_str()))
        },
    }
}

/// Create, or replace, the rule for `site`: any prior rule is first
/// disarmed and dropped (its absence is not an error), the pattern is
/// computed from `site` and the strategy, a timer is armed iff the rule is
/// enabled, and the stored rule is returned.
pub fn set_refresh(
    sched: &mut Scheduler,
    site: String,
    url_type: UrlType,
    subpath_depth: u32,
    time_in_sec: u32,
    pause_on_typing: bool,
    sticky_reload: bool,
    refresh_enabled: bool,
) -> (r: RefreshConfig)
    requires
        old(sched).inv(),
    ensures
        final(sched).inv(),
        final(sched)@ == spec_set_refresh(
            old(sched)@,
            site@,
            url_type,
            subpath_depth,
            time_in_sec,
            pause_on_typing,
            sticky_reload,
            refresh_enabled,
        ),
        r@ == final(sched)@.rules[site@],
{
    let _ = remove_refresh(sched, site.as_str());
    let ghost s1 = sched.rules@;
    let mut config = RefreshConfig {
        site: site.clone(),
        url_pattern: String::new(),
        url_type,
        subpath_depth,
        refresh_time: time_in_sec,
        pause_on_typing,
        paused: false,
        sticky_reload,
        timer: 0,
        enabled: refresh_enabled,
    };
    config.set_url_pattern();
    config.timer = apply_refresh(&mut sched.timers, time_in_sec, &config);
    let r = config.clone();
    proof {
        lemma_rules_map_contains(s1, site@);
        lemma_rules_map_push(s1, (site, config));
    }
    sched.rules.push((site, config));
    r
}

/// Restore a rule loaded from the persistent store: every field is kept
/// except the transient timer handle, which is recomputed — a timer is
/// re-armed iff the rule is enabled and not paused.
pub fn restore_refresh_config(
    sched: &mut Scheduler,
    site: String,
    url_type: UrlType,
    subpath_depth: u32,
    time_in_sec: u32,
    pause_on_typing: bool,
    paused: bool,
    sticky_reload: bool,
    refresh_enabled: bool,
)
    requires
        old(sched).inv(),
    ensures
        final(sched).inv(),
        final(sched)@ == spec_restore_refresh(
            old(sched)@,
            site@,
            url_type,
            subpath_depth,
            time_in_sec,
            pause_on_typing,
            paused,
            sticky_reload,
            refresh_enabled,
        ),
{
    let _ = remove_refresh(sched, site.as_str());
    let ghost s1 = sched.rules@;
    let kept_paused = paused && refresh_enabled;
    let mut config = RefreshConfig {
        site: site.clone(),
        url_pattern: String::new(),
        url_type,
        subpath_depth,
        refresh_time: time_in_sec,
        pause_on_typing,
        paused: kept_paused,
        sticky_reload,
        timer: 0,
        enabled: refresh_enabled,
    };
    config.set_url_pattern();
    if refresh_enabled && !kept_paused {
        match create_window_timer(&mut sched.timers, time_in_sec, &config) {
            Ok(t) => {
                config.timer = t;
            },
            Err(_) => {
                config.timer = 0;
            },
        }
    }
    proof {
        lemma_rules_map_contains(s1, site@);
        lemma_rules_map_push(s1, (site, config));
    }
    sched.rules.push((site, config));
}

/// Pause the rule stored for `site` for the given reason.  A no-op unless
/// the reason applies and the rule is armed and unpaused; fails with
/// `NotFound` exactly when no rule is stored for `site`.
pub fn set_pause(sched: &mut Scheduler, site: &str, pause_reason: PauseReason) -> (r: Result<
    (),
    RrError,
>)
    requires
        old(sched).inv(),
    ensures
        final(sched).inv(),
        final(sched)@ == spec_set_pause(old(sched)@, site@, pause_reason),
        r is Ok <==> old(sched)@.rules.dom().contains(site@),
        r matches Err(e) ==> e@ == site@ + " not found in storage"@,
{
    let ghost s0 = sched.rules@;
    match find_rule_index(sched, site) {
        Some(i) => {
            proof {
                lemma_rules_map_get(s0, i as int);
            }
            let applies = match pause_reason {
                PauseReason::TypingEvent => sched.rules[i].1.pause_on_typing,
                PauseReason::ManualButton => true,
            };
            if applies && sched.rules[i].1.timer != 0 && !sched.rules[i].1.paused {
                let kv = sched.rules.remove(i);
                let k = kv.0;
                let mut cfg = kv.1;
                remove_window_timer(&mut sched.timers, cfg.timer);
                cfg.timer = 0;
                cfg.paused = true;
                proof {
                    lemma_rules_map_remove(s0, i as int);
                    assert(rule_keys_unique(sched.rules@));
                    lemma_rules_map_push(sched.rules@, (k, cfg));
                }
                sched.rules.push((k, cfg));
                proof {
                    assert(final(sched)@.rules =~= spec_set_pause(
                        old(sched)@,
                        site@,
                        pause_reason,
                    ).rules);
                }
            }
            Ok(())
        },
        None => {
            proof {
                lemma_rules_map_contains(s0, site@);
            }
            let mut msg: String = site.to_owned();
            msg.append(" not found in storage");
            Err(RrError::new(msg.as_str()))
        },
    }
}

/// Resume the rule stored for `site`.  A no-op unless the rule is paused;
/// where it is, a timer is re-armed with the rule's original interval and
/// the paused flag cleared — the rule keeps no timer where arming fails.
/// Fails with `NotFound` exactly when no rule is stored for `site`.
pub fn remove_pause(sched: &mut Scheduler, site: &str) -> (r: Result<(), RrError>)
    requires
        old(sched).inv(),
    ensures
        final(sched).inv(),
        final(sched)@ == spec_remove_pause(old(sched)@, site@),
        r is Ok <==> old(sched)@.rules.dom().contains(site@),
        r matches Err(e) ==> e@ == site@ + " not found in storage"@,
{
    let ghost s0 = sched.rules@;
    match find_rule_index(sched, site) {
        Some(i) => {
            proof {
                lemma_rules_map_get(s0, i as int);
            }
            if sched.rules[i].1.timer == 0 && sched.rules[i].1.paused {
                let kv = sched.rules.remove(i);
                let k = kv.0;
                let mut cfg = kv.1;
                match create_window_timer(&mut sched.timers, cfg.refresh_time, &cfg) {
                    Ok(t) => {
                        cfg.timer = t;
                    },
                    Err(_) => {
                        cfg.timer = 0;
                    },
                }
                cfg.paused = false;
                proof {
                    lemma_rules_map_remove(s0, i as int);
                    assert(rule_keys_unique(sched.rules@));
                    lemma_rules_map_push(sched.rules@, (k, cfg));
                }
                sched.rules.push((k, cfg));
                proof {
                    assert(final(sched)@.rules =~= spec_remove_pause(old(sched)@, site@).rules);
                }
            }
            Ok(())
        },
        None => {
            proof {
                lemma_rules_map_contains(s0, site@);
            }
            let mut msg: String = site.to_owned();
            msg.append(" not found in storage");
            Err(RrError::new(msg.as_str()))
        },
    }
}

// ---------------------------------------------------------------------
// Reads
// ---------------------------------------------------------------------

/// The URL of the first active tab, or the empty string where none is
/// known.
pub open spec fn spec_active_url(s: Seq<TabView>) -> Seq<char>
    decreases s.len(),
{
    if s.len() == 0 {
        Seq::<char>::empty()
    } else if s[0].active {
        s[0].url
    } else {
        spec_active_url(s.drop_first())
    }
}

/// The stored rule for `site`, or — never stored, a read has no side
/// effect — the default rule seeded with the active tab's URL, where one
/// is known.
pub fn load_refresh_config(sched: &Scheduler, tabs: &TabRegistry, site: &str) -> (r: RefreshConfig)
    requires
        sched.inv(),
        tabs.inv(),
    ensures
        sched@.rules.dom().contains(site@) ==> r@ == sched@.rules[site@],
        !sched@.rules.dom().contains(site@) ==> r@ == spec_default_config(spec_active_url(tabs@)),
{
    let ghost s0 = sched.rules@;
    match find_rule_index(sched, site) {
        Some(i) => {
            proof {
                lemma_rules_map_get(s0, i as int);
            }
            sched.rules[i].1.clone()
        },
        None => {
            proof {
                lemma_rules_map_contains(s0, site@);
                assert(tabs@.skip(0) =~= tabs@);
            }
            let n = tabs.len();
            let mut i: usize = 0;
            while i < n
                invariant
                    i <= n,
                    n == tabs@.len(),
                    !sched@.rules.dom().contains(site@),
                    spec_active_url(tabs@) == spec_active_url(tabs@.skip(i as int)),
                decreases n - i,
            {
                let t = tabs.get(i);
                proof {
                    assert(tabs@.skip(i as int)[0] == tabs@[i as int]);
                    assert(tabs@.skip(i as int).drop_first() =~= tabs@.skip(i + 1));
                }
                if t.active {
                    return RefreshConfig::default_with_url(t.url.as_str());
                }
                i += 1;
            }
            proof {
                assert(tabs@.skip(n as int) =~= Seq::<TabView>::empty());
                reveal_strlit("");
                assert(""@ =~= Seq::<char>::empty());
            }
            RefreshConfig::default_with_url("")
        },
    }
}

/// A snapshot of every stored rule: one copy per stored site, each equal
/// to its stored rule.
pub fn get_all_configs(sched: &Scheduler) -> (r: Vec<RefreshConfig>)
    requires
        sched.inv(),
    ensures
        forall|i: int|
            0 <= i < r@.len() ==> sched@.rules.dom().contains(#[trigger] r@[i]@.site)
                && sched@.rules[r@[i]@.site] == r@[i]@,
        forall|k: Seq<char>|
            sched@.rules.dom().contains(k) ==> exists|i: int| 0 <= i < r@.len() && r@[i]@.site == k,
        forall|i: int, j: int| 0 <= i < j < r@.len() ==> r@[i]@.site != r@[j]@.site,
{
    let ghost s0 = sched.rules@;
    let n = sched.rules.len();
    let mut r: Vec<RefreshConfig> = Vec::new();
    let mut i: usize = 0;
    while i < n
        invariant
            i <= n,
            n == s0.len(),
            sched.rules@ == s0,
            sched.inv(),
            r@.len() == i,
            forall|j: int| 0 <= j < i ==> r@[j]@ == s0[j].1@ && r@[j]@.site == s0[j].0@,
        decreases n - i,
    {
        r.push(sched.rules[i].1.clone());
        i += 1;
    }
    proof {
        assert forall|i2: int| 0 <= i2 < r@.len() implies sched@.rules.dom().contains(
            #[trigger] r@[i2]@.site,
        ) && sched@.rules[r@[i2]@.site] == r@[i2]@ by {
            lemma_rules_map_get(s0, i2);
        }
        assert forall|k: Seq<char>| sched@.rules.dom().contains(k) implies exists|i2: int|
            0 <= i2 < r@.len() && r@[i2]@.site == k by {
            lemma_rules_map_contains(s0, k);
            let j = choose|j: int| 0 <= j < s0.len() && s0[j].0@ == k;
            assert(r@[j]@.site == k);
        }
    }
    r
}

/// Every stored rule whose pattern the given URL satisfies, one copy per
/// matching site.
#[verifier::rlimit(60)]
pub fn get_config_by_url(sched: &Scheduler, url: &str) -> (r: Vec<RefreshConfig>)
    requires
        sched.inv(),
    ensures
        forall|i: int|
            0 <= i < r@.len() ==> sched@.rules.dom().contains(#[trigger] r@[i]@.site)
                && sched@.rules[r@[i]@.site] == r@[i]@ && spec_match_url(
                r@[i]@.url_pattern,
                r@[i]@.url_type,
                url@,
            ),
        forall|k: Seq<char>|
            sched@.rules.dom().contains(k) && spec_match_url(
                sched@.rules[k].url_pattern,
                sched@.rules[k].url_type,
                url@,
            ) ==> exists|i: int| 0 <= i < r@.len() && r@[i]@.site == k,
        forall|i: int, j: int| 0 <= i < j < r@.len() ==> r@[i]@.site != r@[j]@.site,
{
    let ghost s0 = sched.rules@;
    let n = sched.rules.len();
    let mut r: Vec<RefreshConfig> = Vec::new();
    let mut i: usize = 0;
    while i < n
        invariant
            i <= n,
            n == s0.len(),
            sched.rules@ == s0,
            sched.inv(),
            forall|l: int|
                0 <= l < r@.len() ==> exists|j: int|
                    0 <= j < i && #[trigger] r@[l]@ == s0[j].1@ && r@[l]@.site == s0[j].0@
                        && spec_match_url(r@[l]@.url_pattern, r@[l]@.url_type, url@),
            forall|j: int|
                0 <= j < i && spec_match_url(s0[j].1@.url_pattern, s0[j].1@.url_type, url@)
                    ==> exists|l: int| 0 <= l < r@.len() && #[trigger] r@[l]@.site == s0[j].0@,
            forall|l1: int, l2: int| 0 <= l1 < l2 < r@.len() ==> r@[l1]@.site != r@[l2]@.site,
        decreases n - i,
    {
        let ghost old_r = r@;
        if sched.rules[i].1.match_url(url) {
            r.push(sched.rules[i].1.clone());
            proof {
                assert(r@ =~= old_r.push(r@[r@.len() - 1]));
                assert(r@[r@.len() - 1]@ == s0[i as int].1@);
                assert(r@[r@.len() - 1]@.site == s0[i as int].0@);
                assert forall|l: int| 0 <= l < r@.len() implies exists|j: int|
                    0 <= j < i + 1 && #[trigger] r@[l]@ == s0[j].1@ && r@[l]@.site == s0[j].0@
                        && spec_match_url(r@[l]@.url_pattern, r@[l]@.url_type, url@) by {
                    if l < r@.len() - 1 {
                        assert(r@[l] == old_r[l]);
                        let j = choose|j: int|
                            0 <= j < i && old_r[l]@ == s0[j].1@ && old_r[l]@.site == s0[j].0@
                                && spec_match_url(
                                old_r[l]@.url_pattern,
                                old_r[l]@.url_type,
                                url@,
                            );
                        assert(0 <= j < i + 1 && r@[l]@ == s0[j].1@ && r@[l]@.site == s0[j].0@
                            && spec_match_url(r@[l]@.url_pattern, r@[l]@.url_type, url@));
                    } else {
                        let j = i as int;
                        assert(0 <= j < i + 1 && r@[l]@ == s0[j].1@ && r@[l]@.site == s0[j].0@
                            && spec_match_url(r@[l]@.url_pattern, r@[l]@.url_type, url@));
                    }
                }
                assert forall|j: int|
                    0 <= j < i + 1 && spec_match_url(
                        s0[j].1@.url_pattern,
                        s0[j].1@.url_type,
                        url@,
                    ) implies exists|l: int| 0 <= l < r@.len() && #[trigger] r@[l]@.site
                    == s0[j].0@ by {
                    if j < i {
                        let l = choose|l: int| 0 <= l < old_r.len() && old_r[l]@.site == s0[j].0@;
                        assert(r@[l]@.site == s0[j].0@);
                    } else {
                        assert(r@[r@.len() - 1]@.site == s0[j].0@);
                    }
                }
                assert forall|l1: int, l2: int| 0 <= l1 < l2 < r@.len() implies r@[l1]@.site
                    != r@[l2]@.site by {
                    if l2 < r@.len() - 1 {
                        assert(r@[l1] == old_r[l1] && r@[l2] == old_r[l2]);
                    } else {
                        assert(r@[l1] == old_r[l1]);
                        let j = choose|j: int|
                            0 <= j < i && old_r[l1]@ == s0[j].1@ && old_r[l1]@.site == s0[j].0@
                                && spec_match_url(
                                old_r[l1]@.url_pattern,
                                old_r[l1]@.url_type,
                                url@,
                            );
                        assert(s0[j].0@ != s0[i as int].0@);
                    }
                }
            }
        } else {
            proof {
                assert forall|j: int|
                    0 <= j < i + 1 && spec_match_url(
                        s0[j].1@.url_pattern,
                        s0[j].1@.url_type,
                        url@,
                    ) implies exists|l: int| 0 <= l < r@.len() && #[trigger] r@[l]@.site
                    == s0[j].0@ by {
                    if j < i {
                        let l = choose|l: int| 0 <= l < old_r.len() && old_r[l]@.site == s0[j].0@;
                        assert(r@[l]@.site == s0[j].0@);
                    }
                }
            }
        }
        i += 1;
    }
    proof {
        assert forall|i2: int| 0 <= i2 < r@.len() implies sched@.rules.dom().contains(
            #[trigger] r@[i2]@.site,
        ) && sched@.rules[r@[i2]@.site] == r@[i2]@ && spec_match_url(
            r@[i2]@.url_pattern,
            r@[i2]@.url_type,
            url@,
        ) by {
            let j = choose|j: int|
                0 <= j < n && r@[i2]@ == s0[j].1@ && r@[i2]@.site == s0[j].0@ && spec_match_url(
                    r@[i2]@.url_pattern,
                    r@[i2]@.url_type,
                    url@,
                );
            lemma_rules_map_get(s0, j);
        }
        assert forall|k: Seq<char>|
            sched@.rules.dom().contains(k) && spec_match_url(
                sched@.rules[k].url_pattern,
                sched@.rules[k].url_type,
                url@,
            ) implies exists|i2: int| 0 <= i2 < r@.len() && r@[i2]@.site == k by {
            lemma_rules_map_contains(s0, k);
            let j = choose|j: int| 0 <= j < s0.len() && s0[j].0@ == k;
            lemma_rules_map_get(s0, j);
        }
    }
    r
}

/// Whether some stored rule both matches `url` and asks for a sticky
/// reload.
pub fn is_sticky(sched: &Scheduler, url: &str) -> (r: bool)
    requires
        sched.inv(),
    ensures
        r == exists|k: Seq<char>|
            sched@.rules.dom().contains(k) && #[trigger] sched@.rules[k].sticky_reload
                && spec_match_url(sched@.rules[k].url_pattern, sched@.rules[k].url_type, url@),
{
    let configs = get_config_by_url(sched, url);
    let n = configs.len();
    let mut i: usize = 0;
    while i < n
        invariant
            i <= n,
            n == configs@.len(),
            forall|l: int|
                0 <= l < configs@.len() ==> sched@.rules.dom().contains(#[trigger] configs@[l]@.site)
                    && sched@.rules[configs@[l]@.site] == configs@[l]@ && spec_match_url(
                    configs@[l]@.url_pattern,
                    configs@[l]@.url_type,
                    url@,
                ),
            forall|k: Seq<char>|
                sched@.rules.dom().contains(k) && spec_match_url(
                    sched@.rules[k].url_pattern,
                    sched@.rules[k].url_type,
                    url@,
                ) ==> exists|l: int| 0 <= l < configs@.len() && configs@[l]@.site == k,
            forall|l: int| 0 <= l < i ==> !(#[trigger] configs@[l]@.sticky_reload),
        decreases n - i,
    {
        if configs[i].sticky_reload {
            let ghost k = configs@[i as int]@.site;
            assert(sched@.rules.dom().contains(k) && sched@.rules[k].sticky_reload
                && spec_match_url(sched@.rules[k].url_pattern, sched@.rules[k].url_type, url@));
            return true;
        }
        i += 1;
    }
    proof {
        if exists|k: Seq<char>|
            sched@.rules.dom().contains(k) && #[trigger] sched@.rules[k].sticky_reload
                && spec_match_url(sched@.rules[k].url_pattern, sched@.rules[k].url_type, url@) {
            let k = choose|k: Seq<char>|
                sched@.rules.dom().contains(k) && #[trigger] sched@.rules[k].sticky_reload
                    && spec_match_url(sched@.rules[k].url_pattern, sched@.rules[k].url_type, url@);
            let l = choose|l: int| 0 <= l < configs@.len() && configs@[l]@.site == k;
            assert(!configs@[l]@.sticky_reload);
        }
    }
    false
}

/// The tabs a firing rule reloads: exactly the open tabs whose URL the
/// rule's pattern matches, each id once, in no promised order.
pub fn refresh_tab(cfg: &RefreshConfig, tabs: &TabRegistry) -> (r: Vec<u32>)
    requires
        tabs.inv(),
    ensures
        forall|id: u32|
            #[trigger] r@.contains(id) <==> (tabs_map(tabs@).dom().contains(id) && spec_match_url(
                cfg@.url_pattern,
                cfg@.url_type,
                tabs_map(tabs@)[id].url,
            )),
        r@.no_duplicates(),
{
    let n = tabs.len();
    let mut r: Vec<u32> = Vec::new();
    let mut i: usize = 0;
    while i < n
        invariant
            i <= n,
            n == tabs@.len(),
            tabs.inv(),
            r@.no_duplicates(),
            forall|l: int|
                0 <= l < r@.len() ==> exists|j: int|
                    0 <= j < i && #[trigger] r@[l] == tabs@[j].id && spec_match_url(
                        cfg@.url_pattern,
                        cfg@.url_type,
                        tabs@[j].url,
                    ),
            forall|j: int|
                0 <= j < i && spec_match_url(cfg@.url_pattern, cfg@.url_type, tabs@[j].url)
                    ==> r@.contains(#[trigger] tabs@[j].id),
        decreases n - i,
    {
        let t = tabs.get(i);
        if cfg.match_url(t.url.as_str()) {
            let ghost old_r = r@;
            proof {
                if old_r.contains(t.id) {
                    let l = choose|l: int| 0 <= l < old_r.len() && old_r[l] == t.id;
                    let j = choose|j: int|
                        0 <= j < i && old_r[l] == tabs@[j].id && spec_match_url(
                            cfg@.url_pattern,
                            cfg@.url_type,
                            tabs@[j].url,
                        );
                    assert(tabs@[j].id == tabs@[i as int].id);
                    assert(false);
                }
            }
            r.push(t.id);
            proof {
                assert(r@ == old_r.push(tabs@[i as int].id));
                assert forall|j: int|
                    0 <= j < i + 1 && spec_match_url(
                        cfg@.url_pattern,
                        cfg@.url_type,
                        tabs@[j].url,
                    ) implies r@.contains(#[trigger] tabs@[j].id) by {
                    if j < i {
                        let l = choose|l: int| 0 <= l < old_r.len() && old_r[l] == tabs@[j].id;
                        assert(r@[l] == tabs@[j].id);
                    } else {
                        assert(r@[r@.len() - 1] == tabs@[i as int].id);
                    }
                }
            }
        }
        i += 1;
    }
    proof {
        assert forall|id: u32| #[trigger] r@.contains(id) implies (tabs_map(
            tabs@,
        ).dom().contains(id) && spec_match_url(
            cfg@.url_pattern,
            cfg@.url_type,
            tabs_map(tabs@)[id].url,
        )) by {
            let l = choose|l: int| 0 <= l < r@.len() && r@[l] == id;
            let j = choose|j: int|
                0 <= j < n && r@[l] == tabs@[j].id && spec_match_url(
                    cfg@.url_pattern,
                    cfg@.url_type,
                    tabs@[j].url,
                );
            lemma_tabs_map_get(tabs@, j);
        }
        assert forall|id: u32|
            tabs_map(tabs@).dom().contains(id) && spec_match_url(
                cfg@.url_pattern,
                cfg@.url_type,
                tabs_map(tabs@)[id].url,
            ) implies r@.contains(id) by {
            lemma_tabs_map_contains(tabs@, id);
            let j = choose|j: int| 0 <= j < tabs@.len() && tabs@[j].id == id;
            lemma_tabs_map_get(tabs@, j);
        }
    }
    r
}

} // verus!
