//! The tab registry: the open browser tabs the engine knows about, keyed
//! by tab id, updated by tab-lifecycle notifications.

use vstd::prelude::*;

verus! {

/// The mathematical value of one tab record.
pub ghost struct TabView {
    pub id: u32,
    pub url: Seq<char>,
    pub active: bool,
}

/// The data of one browser tab that the engine stores.
#[derive(Debug)]
pub struct Tab {
    pub id: u32,
    pub url: String,
    pub active: bool,
}

impl View for Tab {
    type V = TabView;

    open spec fn view(&self) -> TabView {
        TabView { id: self.id, url: self.url@, active: self.active }
    }
}

impl Clone for Tab {
    fn clone(&self) -> (r: Self)
        ensures
            r == *self,
    {
        Tab { id: self.id, url: self.url.clone(), active: self.active }
    }
}

impl Tab {
    pub fn new(id: u32, url: &str, active: bool) -> (t: Tab)
        ensures
            t@ == (TabView { id, url: url@, active }),
    {
        Tab { id, url: url.to_owned(), active }
    }

    pub fn get_url(&self) -> (r: String)
        ensures
            r@ == self@.url,
    {
        self.url.clone()
    }
}

/// No two records share a tab id.
pub open spec fn tab_ids_unique(s: Seq<TabView>) -> bool {
    forall|i: int, j: int| 0 <= i < j < s.len() ==> s[i].id != s[j].id
}

/// The registry read as a map from tab id to record.
pub open spec fn tabs_map(s: Seq<TabView>) -> Map<u32, TabView>
    decreases s.len(),
{
    if s.len() == 0 {
        Map::empty()
    } else {
        tabs_map(s.drop_last()).insert(s.last().id, s.last())
    }
}

pub proof fn lemma_tabs_map_contains(s: Seq<TabView>, id: u32)
    ensures
        tabs_map(s).dom().contains(id) <==> exists|i: int| 0 <= i < s.len() && s[i].id == id,
    decreases s.len(),
{
    if s.len() == 0 {
    } else {
        let pre = s.drop_last();
        lemma_tabs_map_contains(pre, id);
        if tabs_map(s).dom().contains(id) {
            if s.last().id == id {
                assert(s[s.len() - 1].id == id);
            } else {
                let i = choose|i: int| 0 <= i < pre.len() && pre[i].id == id;
                assert(s[i].id == id);
            }
        }
        if exists|i: int| 0 <= i < s.len() && s[i].id == id {
            let i = choose|i: int| 0 <= i < s.len() && s[i].id == id;
            if i < s.len() - 1 {
                assert(pre[i].id == id);
            }
        }
    }
}

pub proof fn lemma_tabs_map_get(s: Seq<TabView>, i: int)
    requires
        tab_ids_unique(s),
        0 <= i < s.len(),
    ensures
        tabs_map(s).dom().contains(s[i].id),
        tabs_map(s)[s[i].id] == s[i],
    decreases s.len(),
{
    let pre = s.drop_last();
    if i == s.len() - 1 {
    } else {
        lemma_tabs_map_get(pre, i);
        assert(s.last().id != s[i].id);
    }
}

pub proof fn lemma_tabs_map_push(s: Seq<TabView>, t: TabView)
    ensures
        tabs_map(s.push(t)) == tabs_map(s).insert(t.id, t),
{
    assert(s.push(t).drop_last() =~= s);
    assert(s.push(t).last() == t);
}

pub proof fn lemma_tabs_map_remove(s: Seq<TabView>, i: int)
    requires
        tab_ids_unique(s),
        0 <= i < s.len(),
    ensures
        tabs_map(s.remove(i)) == tabs_map(s).remove(s[i].id),
    decreases s.len(),
{
    let id = s[i].id;
    if i == s.len() - 1 {
        assert(s.remove(i) =~= s.drop_last());
        lemma_tabs_map_contains(s.drop_last(), id);
        assert(forall|j: int| 0 <= j < s.len() - 1 ==> s.drop_last()[j].id != id);
        assert(!tabs_map(s.drop_last()).dom().contains(id));
        assert(tabs_map(s.remove(i)) =~= tabs_map(s).remove(id));
    } else {
        let pre = s.drop_last();
        assert(s.remove(i).drop_last() =~= pre.remove(i));
        assert(s.remove(i).last() == s.last());
        lemma_tabs_map_remove(pre, i);
        assert(s.last().id != id);
        assert(tabs_map(s.remove(i)) =~= tabs_map(s).remove(id));
    }
}

/// The registry of open tabs.
pub struct TabRegistry {
    tabs: Vec<Tab>,
}

impl View for TabRegistry {
    type V = Seq<TabView>;

    closed spec fn view(&self) -> Seq<TabView> {
        self.tabs@.map_values(|t: Tab| t@)
    }
}

impl TabRegistry {
    /// The registry holds at most one record per tab id.
    pub open spec fn inv(self) -> bool {
        tab_ids_unique(self@)
    }

    pub fn new() -> (r: TabRegistry)
        ensures
            r@ == Seq::<TabView>::empty(),
            r.inv(),
    {
        let r = TabRegistry { tabs: Vec::new() };
        proof {
            assert(r@ =~= Seq::<TabView>::empty());
        }
        r
    }

    pub fn len(&self) -> (n: usize)
        ensures
            n == self@.len(),
    {
        self.tabs.len()
    }

    pub fn get(&self, i: usize) -> (t: &Tab)
        requires
            i < self@.len(),
        ensures
            t@ == self@[i as int],
    {
        &self.tabs[i]
    }
}

/// The index of the record for `tab_id`, where there is one.
fn find_tab_index(reg: &TabRegistry, tab_id: u32) -> (r: Option<usize>)
    ensures
        match r {
            Some(i) => i < reg@.len() && reg@[i as int].id == tab_id,
            None => forall|j: int| 0 <= j < reg@.len() ==> reg@[j].id != tab_id,
        },
{
    let n = reg.len();
    let mut i: usize = 0;
    while i < n
        invariant
            i <= n,
            n == reg@.len(),
            forall|j: int| 0 <= j < i ==> reg@[j].id != tab_id,
        decreases n - i,
    {
        if reg.get(i).id == tab_id {
            return Some(i);
        }
        i += 1;
    }
    None
}

/// Insert or overwrite the record for `tab_id`.
pub fn update_tabs(reg: &mut TabRegistry, tab_id: u32, site: String, active: bool)
    requires
        old(reg).inv(),
    ensures
        final(reg).inv(),
        tabs_map(final(reg)@) == tabs_map(old(reg)@).insert(
            tab_id,
            (TabView { id: tab_id, url: site@, active }),
        ),
{
    let ghost tv = TabView { id: tab_id, url: site@, active };
    let ghost s0 = reg@;
    match find_tab_index(reg, tab_id) {
        Some(i) => {
            reg.tabs.remove(i);
            proof {
                assert(reg@ =~= s0.remove(i as int));
                lemma_tabs_map_remove(s0, i as int);
                assert(forall|j: int| 0 <= j < reg@.len() ==> reg@[j].id != tab_id);
            }
        },
        None => {},
    }
    let ghost s1 = reg@;
    proof {
        assert(forall|j: int| 0 <= j < s1.len() ==> s1[j].id != tab_id);
        assert(tab_ids_unique(s1));
        lemma_tabs_map_contains(s1, tab_id);
    }
    reg.tabs.push(Tab::new(tab_id, site.as_str(), active));
    proof {
        assert(reg@ =~= s1.push(tv));
        lemma_tabs_map_push(s1, tv);
        assert(tab_ids_unique(reg@));
        assert(tabs_map(reg@) =~= tabs_map(s0).insert(tab_id, tv));
    }
}

/// Delete the record for `tab_id`, if there is one.
pub fn remove_tab(reg: &mut TabRegistry, tab_id: u32)
    requires
        old(reg).inv(),
    ensures
        final(reg).inv(),
        tabs_map(final(reg)@) == tabs_map(old(reg)@).remove(tab_id),
{
    let ghost s0 = reg@;
    match find_tab_index(reg, tab_id) {
        Some(i) => {
            reg.tabs.remove(i);
            proof {
                assert(reg@ =~= s0.remove(i as int));
                lemma_tabs_map_remove(s0, i as int);
                assert(tab_ids_unique(reg@));
            }
        },
        None => {
            proof {
                lemma_tabs_map_contains(s0, tab_id);
                assert(tabs_map(reg@) =~= tabs_map(s0).remove(tab_id));
            }
        },
    }
}

/// What replaying an authoritative snapshot does: every listed record is
/// upserted, in order.
pub open spec fn spec_upsert_all(m: Map<u32, TabView>, s: Seq<TabView>) -> Map<u32, TabView>
    decreases s.len(),
{
    if s.len() == 0 {
        m
    } else {
        spec_upsert_all(m, s.drop_last()).insert(s.last().id, s.last())
    }
}

/// Merge an authoritative snapshot of the open tabs into the registry,
/// used for periodic resynchronization.
pub fn bulk_refresh(reg: &mut TabRegistry, tabs: Vec<Tab>)
    requires
        old(reg).inv(),
    ensures
        final(reg).inv(),
        tabs_map(final(reg)@) == spec_upsert_all(
            tabs_map(old(reg)@),
            tabs@.map_values(|t: Tab| t@),
        ),
{
    let ghost m0 = tabs_map(reg@);
    let ghost views = tabs@.map_values(|t: Tab| t@);
    let n = tabs.len();
    let mut i: usize = 0;
    while i < n
        invariant
            i <= n,
            n == tabs@.len(),
            views == tabs@.map_values(|t: Tab| t@),
            reg.inv(),
            tabs_map(reg@) == spec_upsert_all(m0, views.take(i as int)),
        decreases n - i,
    {
        let t = tabs[i].clone();
        update_tabs(reg, t.id, t.get_url(), t.active);
        proof {
            assert(views.take(i + 1).drop_last() =~= views.take(i as int));
            assert(views.take(i + 1).last() == views[i as int]);
            assert(views[i as int] == tabs@[i as int]@);
        }
        i += 1;
    }
    proof {
        assert(views.take(n as int) =~= views);
    }
}

} // verus!
