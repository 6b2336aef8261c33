//! Laws of the engine, proved once and for all over the mathematical
//! state: pattern/matching round trips, and the schedule state machine's
//! promised behaviours.

use vstd::prelude::*;

use crate::config::{
    lemma_slash_cut_bounds, slash_cut, spec_build_pattern, spec_match_url, ConfigView,
    PauseReason, UrlType,
};
use crate::scheduler::{
    spec_remove_pause, spec_remove_refresh, spec_restore_refresh, spec_set_pause,
    spec_set_refresh, SchedulerView,
};
use crate::timers::{timers_wf, TimersView};
use crate::url_model::{spec_domain_of, spec_parse_url};

verus! {

/// What every reachable scheduler state promises of one stored rule: it
/// carries its own key as its site; a live timer handle is held only while
/// the rule is enabled; a paused rule is enabled and holds no handle; and
/// a held handle is armed with the rule's own interval.
pub open spec fn rule_state_ok(s: SchedulerView, k: Seq<char>) -> bool {
    let c = s.rules[k];
    &&& c.site == k
    &&& (c.timer != 0 ==> c.enabled)
    &&& (c.paused ==> c.timer == 0 && c.enabled)
    &&& (c.timer != 0 ==> s.timers.armed.dom().contains(c.timer) && s.timers.armed[c.timer]
        == c.refresh_time)
}

/// The scheduler's state invariant: sound timer state, every stored rule
/// in a lawful state, and no live timer handle shared by two rules.
pub open spec fn state_inv(s: SchedulerView) -> bool {
    &&& timers_wf(s.timers)
    &&& forall|k: Seq<char>| #[trigger] s.rules.dom().contains(k) ==> rule_state_ok(s, k)
    &&& forall|k1: Seq<char>, k2: Seq<char>|
        s.rules.dom().contains(k1) && s.rules.dom().contains(k2) && k1 != k2 && #[trigger] s.rules[k1].timer
            != 0 ==> s.rules[k1].timer != #[trigger] s.rules[k2].timer
}

/// A fresh scheduler satisfies the state invariant.
pub proof fn lemma_state_inv_init()
    ensures
        state_inv(
            SchedulerView {
                rules: Map::<Seq<char>, ConfigView>::empty(),
                timers: (TimersView { next: 1int, armed: Map::<i32, u32>::empty() }),
            },
        ),
{
}

/// Removing a rule preserves the state invariant.
pub proof fn lemma_remove_refresh_preserves_state_inv(s: SchedulerView, site: Seq<char>)
    requires
        state_inv(s),
    ensures
        state_inv(spec_remove_refresh(s, site)),
{
    if s.rules.dom().contains(site) {
        let h = s.rules[site].timer;
        let s1 = spec_remove_refresh(s, site);
        assert forall|k: Seq<char>| #[trigger] s1.rules.dom().contains(k) implies rule_state_ok(
            s1,
            k,
        ) by {
            assert(s.rules.dom().contains(k));
            assert(rule_state_ok(s, k));
            let c = s.rules[k];
            if c.timer != 0 {
                assert(c.timer != h);
            }
        }
    }
}

/// Creating or replacing a rule preserves the state invariant.
pub proof fn lemma_set_refresh_preserves_state_inv(
    s: SchedulerView,
    site: Seq<char>,
    url_type: UrlType,
    subpath_depth: u32,
    time_in_sec: u32,
    pause_on_typing: bool,
    sticky_reload: bool,
    refresh_enabled: bool,
)
    requires
        state_inv(s),
    ensures
        state_inv(
            spec_set_refresh(
                s,
                site,
                url_type,
                subpath_depth,
                time_in_sec,
                pause_on_typing,
                sticky_reload,
                refresh_enabled,
            ),
        ),
{
    lemma_remove_refresh_preserves_state_inv(s, site);
    let s1 = spec_remove_refresh(s, site);
    let s2 = spec_set_refresh(
        s,
        site,
        url_type,
        subpath_depth,
        time_in_sec,
        pause_on_typing,
        sticky_reload,
        refresh_enabled,
    );
    assert forall|k: Seq<char>| #[trigger] s2.rules.dom().contains(k) implies rule_state_ok(
        s2,
        k,
    ) by {
        if k != site {
            assert(s1.rules.dom().contains(k));
            assert(rule_state_ok(s1, k));
            let c = s1.rules[k];
            if c.timer != 0 {
                assert(s1.timers.armed.dom().contains(c.timer));
            }
        }
    }
    assert forall|k1: Seq<char>, k2: Seq<char>|
        s2.rules.dom().contains(k1) && s2.rules.dom().contains(k2) && k1 != k2
            && #[trigger] s2.rules[k1].timer != 0 implies s2.rules[k1].timer
        != #[trigger] s2.rules[k2].timer by {
        if k1 != site && k2 != site {
            assert(rule_state_ok(s1, k1));
            assert(rule_state_ok(s1, k2));
        } else if k1 == site {
            assert(s1.rules.dom().contains(k2));
            assert(rule_state_ok(s1, k2));
        } else {
            assert(s1.rules.dom().contains(k1));
            assert(rule_state_ok(s1, k1));
        }
    }
}

/// Restoring a stored rule preserves the state invariant.
pub proof fn lemma_restore_refresh_preserves_state_inv(
    s: SchedulerView,
    site: Seq<char>,
    url_type: UrlType,
    subpath_depth: u32,
    time_in_sec: u32,
    pause_on_typing: bool,
    paused: bool,
    sticky_reload: bool,
    refresh_enabled: bool,
)
    requires
        state_inv(s),
    ensures
        state_inv(
            spec_restore_refresh(
                s,
                site,
                url_type,
                subpath_depth,
                time_in_sec,
                pause_on_typing,
                paused,
                sticky_reload,
                refresh_enabled,
            ),
        ),
{
    lemma_remove_refresh_preserves_state_inv(s, site);
    let s1 = spec_remove_refresh(s, site);
    let s2 = spec_restore_refresh(
        s,
        site,
        url_type,
        subpath_depth,
        time_in_sec,
        pause_on_typing,
        paused,
        sticky_reload,
        refresh_enabled,
    );
    assert forall|k: Seq<char>| #[trigger] s2.rules.dom().contains(k) implies rule_state_ok(
        s2,
        k,
    ) by {
        if k != site {
            assert(s1.rules.dom().contains(k));
            assert(rule_state_ok(s1, k));
            let c = s1.rules[k];
            if c.timer != 0 {
                assert(s1.timers.armed.dom().contains(c.timer));
            }
        }
    }
    assert forall|k1: Seq<char>, k2: Seq<char>|
        s2.rules.dom().contains(k1) && s2.rules.dom().contains(k2) && k1 != k2
            && #[trigger] s2.rules[k1].timer != 0 implies s2.rules[k1].timer
        != #[trigger] s2.rules[k2].timer by {
        if k1 != site && k2 != site {
            assert(rule_state_ok(s1, k1));
            assert(rule_state_ok(s1, k2));
        } else if k1 == site {
            assert(s1.rules.dom().contains(k2));
            assert(rule_state_ok(s1, k2));
        } else {
            assert(s1.rules.dom().contains(k1));
            assert(rule_state_ok(s1, k1));
        }
    }
}

/// Pausing a rule preserves the state invariant.
pub proof fn lemma_set_pause_preserves_state_inv(
    s: SchedulerView,
    site: Seq<char>,
    reason: PauseReason,
)
    requires
        state_inv(s),
    ensures
        state_inv(spec_set_pause(s, site, reason)),
{
    let s2 = spec_set_pause(s, site, reason);
    if s2 != s {
        let h = s.rules[site].timer;
        assert forall|k: Seq<char>| #[trigger] s2.rules.dom().contains(k) implies rule_state_ok(
            s2,
            k,
        ) by {
            if k != site {
                assert(s.rules.dom().contains(k));
                assert(rule_state_ok(s, k));
                let c = s.rules[k];
                if c.timer != 0 {
                    assert(c.timer != h);
                }
            } else {
                assert(rule_state_ok(s, site));
            }
        }
    }
}

/// Resuming a rule preserves the state invariant.
pub proof fn lemma_remove_pause_preserves_state_inv(s: SchedulerView, site: Seq<char>)
    requires
        state_inv(s),
    ensures
        state_inv(spec_remove_pause(s, site)),
{
    let s2 = spec_remove_pause(s, site);
    if s2 != s {
        assert(rule_state_ok(s, site));
        assert forall|k: Seq<char>| #[trigger] s2.rules.dom().contains(k) implies rule_state_ok(
            s2,
            k,
        ) by {
            if k != site {
                assert(s.rules.dom().contains(k));
                assert(rule_state_ok(s, k));
            }
        }
        assert forall|k1: Seq<char>, k2: Seq<char>|
            s2.rules.dom().contains(k1) && s2.rules.dom().contains(k2) && k1 != k2
                && #[trigger] s2.rules[k1].timer != 0 implies s2.rules[k1].timer
            != #[trigger] s2.rules[k2].timer by {
            if k1 != site && k2 != site {
                assert(rule_state_ok(s, k1));
                assert(rule_state_ok(s, k2));
            } else if k1 == site {
                assert(s.rules.dom().contains(k2));
                assert(rule_state_ok(s, k2));
            } else {
                assert(s.rules.dom().contains(k1));
                assert(rule_state_ok(s, k1));
            }
        }
    }
}

/// A rule always matches the URL it was built from: for every strategy and
/// depth, the pattern built from a URL matches that same URL.
pub proof fn lemma_rule_matches_own_url(u: Seq<char>, url_type: UrlType, depth: u32)
    ensures
        spec_match_url(spec_build_pattern(u, url_type, depth), url_type, u),
{
    match url_type {
        UrlType::Domain => {
        },
        UrlType::Subpath => {
            let dom = spec_parse_url(u).domain;
            let path = spec_parse_url(u).path;
            let cut = slash_cut(path, depth as nat + 2, 0);
            lemma_slash_cut_bounds(path, depth as nat + 2, 0);
            let pattern = dom + path.take(cut as int);
            assert((dom + path).subrange(0, pattern.len() as int) =~= pattern);
        },
        UrlType::FullUrl => {
        },
    }
}

/// Domain matching only reads the candidate's parsed domain: two URLs with
/// the same parsed domain — however their paths or queries differ — fare
/// alike against every domain pattern.
pub proof fn lemma_domain_match_ignores_path(pattern: Seq<char>, u1: Seq<char>, u2: Seq<char>)
    requires
        spec_domain_of(u1) == spec_domain_of(u2),
    ensures
        spec_match_url(pattern, UrlType::Domain, u1) == spec_match_url(
            pattern,
            UrlType::Domain,
            u2,
        ),
{
}

/// Removing a rule twice succeeds once and then finds nothing: after one
/// removal the key is gone — so a second `remove_refresh` reports
/// `NotFound` and changes nothing.
pub proof fn lemma_remove_twice(s: SchedulerView, site: Seq<char>)
    requires
        s.rules.dom().contains(site),
    ensures
        !spec_remove_refresh(s, site).rules.dom().contains(site),
        spec_remove_refresh(spec_remove_refresh(s, site), site) == spec_remove_refresh(s, site),
{
}

/// Pause/resume round trip: creating an enabled rule, pausing it by the
/// manual button and resuming it restores a rule that is not paused, holds
/// a live timer handle — armed with the rule's original interval — and is
/// equal to the created rule in every other field.
pub proof fn lemma_pause_resume_round_trip(
    s: SchedulerView,
    site: Seq<char>,
    url_type: UrlType,
    subpath_depth: u32,
    time_in_sec: u32,
    pause_on_typing: bool,
    sticky_reload: bool,
)
    requires
        s.timers.next + 1 < i32::MAX,
        1 <= s.timers.next,
    ensures
        ({
            let s1 = spec_set_refresh(
                s,
                site,
                url_type,
                subpath_depth,
                time_in_sec,
                pause_on_typing,
                sticky_reload,
                true,
            );
            let s2 = spec_set_pause(s1, site, PauseReason::ManualButton);
            let s3 = spec_remove_pause(s2, site);
            let created = s1.rules[site];
            let restored = s3.rules[site];
            &&& s3.rules.dom().contains(site)
            &&& restored.paused == false
            &&& restored.timer != 0
            &&& s3.timers.armed.dom().contains(restored.timer)
            &&& s3.timers.armed[restored.timer] == time_in_sec
            &&& (ConfigView { timer: 0, ..restored }) == (ConfigView { timer: 0, ..created })
        }),
{
    let s1 = spec_set_refresh(
        s,
        site,
        url_type,
        subpath_depth,
        time_in_sec,
        pause_on_typing,
        sticky_reload,
        true,
    );
    let created = s1.rules[site];
    assert(created.timer == s.timers.next as i32);
    assert(created.timer != 0 && !created.paused);
    let s2 = spec_set_pause(s1, site, PauseReason::ManualButton);
    let paused_rule = s2.rules[site];
    assert(paused_rule.timer == 0 && paused_rule.paused);
    assert(s2.timers.next == s.timers.next + 1);
    let s3 = spec_remove_pause(s2, site);
    assert(s3.rules[site].timer == (s.timers.next + 1) as i32);
}

/// A stored rule survives the save/load boundary: restoring a rule from
/// its own fields — as the persistence layer hands them back — yields a
/// stored rule equal to it in every field but the transient timer handle,
/// which is recomputed.  The hypotheses hold of every rule the scheduler
/// ever stores: its pattern is the one built from its site, and only an
/// enabled rule is ever paused.
pub proof fn lemma_restore_round_trip(s: SchedulerView, c: ConfigView)
    requires
        c.url_pattern == spec_build_pattern(c.site, c.url_type, c.subpath_depth),
        c.paused ==> c.enabled,
    ensures
        ({
            let s2 = spec_restore_refresh(
                s,
                c.site,
                c.url_type,
                c.subpath_depth,
                c.refresh_time,
                c.pause_on_typing,
                c.paused,
                c.sticky_reload,
                c.enabled,
            );
            &&& s2.rules.dom().contains(c.site)
            &&& (ConfigView { timer: 0, ..s2.rules[c.site] }) == (ConfigView { timer: 0, ..c })
        }),
{
}

/// A typing-event pause is a no-op on a rule that does not pause on
/// typing: the whole state — registry and timers — is unchanged.
pub proof fn lemma_pause_on_typing_off_no_op(s: SchedulerView, site: Seq<char>)
    requires
        s.rules.dom().contains(site),
        !s.rules[site].pause_on_typing,
    ensures
        spec_set_pause(s, site, PauseReason::TypingEvent) == s,
{
}

/// Resuming a rule that is not currently paused is a no-op: the whole
/// state — the rule's timer handle included — is unchanged.
pub proof fn lemma_resume_unpaused_no_op(s: SchedulerView, site: Seq<char>)
    requires
        s.rules.dom().contains(site),
        !s.rules[site].paused,
    ensures
        spec_remove_pause(s, site) == s,
{
}

} // verus!
