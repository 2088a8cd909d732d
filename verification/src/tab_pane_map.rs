//! Tabs, panes, and what follows from them: where each terminal pane is, and
//! which pane's title each tab mirrors.

use std::collections::{BTreeMap, HashMap};

use vstd::prelude::*;

use crate::rename_guard::{pick_title_pane, CandidateView};
use crate::session::{SessionInfo, SessionView};

verus! {

/// A tab, as the host reports it.
#[derive(Debug, PartialEq, Eq)]
pub struct TabInfo {
    /// Zero-based position, as of when the report was made.
    pub position: usize,
    pub name: String,
    /// Whether the tab has the focus.
    pub active: bool,
}

/// A pane, as the host reports it.
#[derive(Debug, PartialEq, Eq)]
pub struct PaneInfo {
    /// Unique among the panes of its kind.
    pub id: u32,
    /// A plugin pane, as opposed to a terminal.
    pub is_plugin: bool,
    pub title: String,
}

/// The panes of each tab, by tab position.
#[derive(Debug)]
pub struct PaneManifest {
    pub panes: HashMap<usize, Vec<PaneInfo>>,
}

/// A [`TabInfo`], its name taken as text.
pub struct TabView {
    pub position: usize,
    pub name: Seq<char>,
    pub active: bool,
}

/// A [`PaneInfo`], its title taken as text.
pub struct PaneView {
    pub id: u32,
    pub is_plugin: bool,
    pub title: Seq<char>,
}

impl View for TabInfo {
    type V = TabView;

    open spec fn view(&self) -> TabView {
        TabView { position: self.position, name: self.name@, active: self.active }
    }
}

impl View for PaneInfo {
    type V = PaneView;

    open spec fn view(&self) -> PaneView {
        PaneView { id: self.id, is_plugin: self.is_plugin, title: self.title@ }
    }
}

/// Tabs, each taken by its view.
pub open spec fn tabs_view(tabs: Seq<TabInfo>) -> Seq<TabView> {
    tabs.map_values(|t: TabInfo| t@)
}

/// Panes, each taken by its view.
pub open spec fn panes_view(panes: Seq<PaneInfo>) -> Seq<PaneView> {
    panes.map_values(|p: PaneInfo| p@)
}

impl View for PaneManifest {
    type V = Map<usize, Seq<PaneView>>;

    open spec fn view(&self) -> Map<usize, Seq<PaneView>> {
        self.panes@.map_values(|panes: Vec<PaneInfo>| panes_view(panes@))
    }
}

/// The name of the tab at `position`: of the last one listed there, or no name
/// where none is listed.
pub open spec fn tab_name_at(tabs: Seq<TabView>, position: usize) -> Seq<char>
    decreases tabs.len(),
{
    if tabs.len() == 0 {
        Seq::empty()
    } else if tabs.last().position == position {
        tabs.last().name
    } else {
        tab_name_at(tabs.drop_last(), position)
    }
}

/// A terminal pane with the given id is among `panes`.
pub open spec fn has_terminal(panes: Seq<PaneView>, id: u32) -> bool {
    exists|i: int| 0 <= i < panes.len() && !(#[trigger] panes[i]).is_plugin && panes[i].id == id
}

/// A terminal pane with the given id is on the tab at `position`.
pub open spec fn on_tab(manifest: Map<usize, Seq<PaneView>>, position: usize, id: u32) -> bool {
    manifest.contains_key(position) && has_terminal(manifest[position], id)
}

/// A terminal pane with the given id is on some tab.
pub open spec fn on_some_tab(manifest: Map<usize, Seq<PaneView>>, id: u32) -> bool {
    exists|position: usize| #[trigger] on_tab(manifest, position, id)
}

/// The title of the last terminal pane with the given id among `panes`.
pub open spec fn last_title(panes: Seq<PaneView>, id: u32) -> Seq<char>
    decreases panes.len(),
{
    if panes.len() == 0 {
        Seq::empty()
    } else if !panes.last().is_plugin && panes.last().id == id {
        panes.last().title
    } else {
        last_title(panes.drop_last(), id)
    }
}

/// A map from pane ids to tab positions and names, the names taken as text.
pub open spec fn pane_to_tab_view(map: Map<u32, (usize, String)>) -> Map<u32, (usize, Seq<char>)> {
    map.map_values(|entry: (usize, String)| (entry.0, entry.1@))
}

/// A map from pane ids to titles, the titles taken as text.
pub open spec fn titles_view(map: Map<u32, String>) -> Map<u32, Seq<char>> {
    map.map_values(|title: String| title@)
}

/// `map` holds exactly the terminal panes of `manifest`, each with a tab that it is
/// on and that tab's name.
///
/// An id that several tabs list may go with any of them.
pub open spec fn pane_to_tab_map(
    tabs: Seq<TabView>,
    manifest: Map<usize, Seq<PaneView>>,
    map: Map<u32, (usize, Seq<char>)>,
) -> bool {
    &&& forall|id: u32| #[trigger] map.contains_key(id) <==> on_some_tab(manifest, id)
    &&& forall|id: u32| #[trigger]
        map.contains_key(id) ==> on_tab(manifest, map[id].0, id) && map[id].1 == tab_name_at(
            tabs,
            map[id].0,
        )
}

/// `map` holds exactly the terminal panes of `manifest`, each with its title.
///
/// An id that several tabs list may go with its title on any of them; one that a
/// single tab lists several times goes with the last title there.
pub open spec fn pane_titles(
    manifest: Map<usize, Seq<PaneView>>,
    map: Map<u32, Seq<char>>,
) -> bool {
    &&& forall|id: u32| #[trigger] map.contains_key(id) <==> on_some_tab(manifest, id)
    &&& forall|id: u32| #[trigger]
        map.contains_key(id) ==> exists|position: usize| #[trigger]
            on_tab(manifest, position, id) && map[id] == last_title(manifest[position], id)
}

/// The last activity known of a pane, 0 where none is.
pub open spec fn activity_of(sessions: Map<u32, SessionView>, id: u32) -> u64 {
    if sessions.contains_key(id) {
        sessions[id].last_event_ts
    } else {
        0
    }
}

/// The candidates for one tab's title: its terminal panes, in order.
pub open spec fn candidates(
    panes: Seq<PaneView>,
    sessions: Map<u32, SessionView>,
) -> Seq<CandidateView> {
    panes.filter(|p: PaneView| !p.is_plugin).map_values(
        |p: PaneView| (p.id, p.title, activity_of(sessions, p.id)),
    )
}

/// `chosen` holds, for each tab of `manifest` on which some terminal pane has a
/// title, the pane whose title the tab mirrors, and nothing else.
pub open spec fn title_panes(
    manifest: Map<usize, Seq<PaneView>>,
    sessions: Map<u32, SessionView>,
    chosen: Map<usize, u32>,
) -> bool {
    &&& forall|position: usize| #[trigger]
        chosen.contains_key(position) ==> manifest.contains_key(position)
    &&& forall|position: usize| #[trigger]
        manifest.contains_key(position) ==> crate::rename_guard::title_pick(
            candidates(manifest[position], sessions),
            chosen.get(position),
        )
}

/// The tabs' names by position; of two tabs at one position the later one counts.
fn tab_names_by_position(tabs: &[TabInfo]) -> (names: HashMap<usize, String>)
    ensures
        forall|p: usize|
            #![trigger names@.contains_key(p)]
            (if names@.contains_key(p) {
                names@[p]@
            } else {
                Seq::empty()
            }) == tab_name_at(tabs_view(tabs@), p),
{
    let mut names: HashMap<usize, String> = HashMap::new();
    let mut i: usize = 0;
    let ghost views = tabs_view(tabs@);
    while i < tabs.len()
        invariant
            i <= tabs.len(),
            views == tabs_view(tabs@),
            forall|p: usize|
                #![trigger names@.contains_key(p)]
                (if names@.contains_key(p) {
                    names@[p]@
                } else {
                    Seq::empty()
                }) == tab_name_at(views.take(i as int), p),
        decreases tabs.len() - i,
    {
        let ghost before = names@;
        names.insert(tabs[i].position, tabs[i].name.clone());
        proof {
            let now = views.take(i + 1);
            assert(now.drop_last() =~= views.take(i as int));
            assert(now.last() == tabs@[i as int]@);
            assert forall|p: usize| #![trigger names@.contains_key(p)] (if names@.contains_key(p) {
                names@[p]@
            } else {
                Seq::empty()
            }) == tab_name_at(now, p) by {
                assert(before.contains_key(p) || !before.contains_key(p));
            }
        }
        i += 1;
    }
    proof {
        assert(views.take(views.len() as int) =~= views);
    }
    names
}

/// Build a mapping from terminal pane id to tab index and tab name.
/// Uses the pane manifest (keyed by tab index) cross-referenced with the tab list.
pub fn build_pane_to_tab_map(
    tabs: &[TabInfo],
    manifest: &PaneManifest,
) -> (map: HashMap<u32, (usize, String)>)
    ensures
        pane_to_tab_map(tabs_view(tabs@), manifest@, pane_to_tab_view(map@)),
{
    let names = tab_names_by_position(tabs);
    let mut map: HashMap<u32, (usize, String)> = HashMap::new();
    let ghost all = tabs_view(tabs@);
    for entry in it: manifest.panes.iter()
        invariant
            all == tabs_view(tabs@),
            forall|i: int|
                0 <= i < it.seq().len() ==> manifest.panes@.contains_key(*(#[trigger] it.seq()[i]).0)
                    && manifest.panes@[*it.seq()[i].0] == *it.seq()[i].1,
            forall|p: usize|
                #![trigger names@.contains_key(p)]
                (if names@.contains_key(p) {
                    names@[p]@
                } else {
                    Seq::empty()
                }) == tab_name_at(all, p),
            forall|id: u32, i: int|
                0 <= i < it.index() && #[trigger] has_terminal(
                    panes_view((#[trigger] it.seq()[i]).1@),
                    id,
                ) ==> map@.contains_key(id),
            forall|id: u32| #[trigger]
                map@.contains_key(id) ==> on_tab(manifest@, map@[id].0, id) && map@[id].1@
                    == tab_name_at(all, map@[id].0),
    {
        let position: usize = *entry.0;
        let panes: &Vec<PaneInfo> = entry.1;
        let name: String = match names.get(&position) {
            Some(name) => name.clone(),
            None => String::new(),
        };
        proof {
            assert(names@.contains_key(position) || !names@.contains_key(position));
            assert(manifest@[position] == panes_view(panes@));
        }
        let mut j: usize = 0;
        let ghost before = map@;
        while j < panes.len()
            invariant
                j <= panes.len(),
                manifest@.contains_key(position),
                manifest@[position] == panes_view(panes@),
                name@ == tab_name_at(all, position),
                forall|id: u32| #[trigger] before.contains_key(id) ==> map@.contains_key(id),
                forall|k: int|
                    0 <= k < j && !(#[trigger] panes_view(panes@)[k]).is_plugin
                        ==> map@.contains_key(panes_view(panes@)[k].id),
                forall|id: u32| #[trigger]
                    map@.contains_key(id) ==> on_tab(manifest@, map@[id].0, id) && map@[id].1@
                        == tab_name_at(all, map@[id].0),
            decreases panes.len() - j,
        {
            let pane = &panes[j];
            proof {
                assert(panes_view(panes@)[j as int] == pane@);
            }
            if !pane.is_plugin {
                proof {
                    assert(has_terminal(manifest@[position], pane.id));
                }
                map.insert(pane.id, (position, name.clone()));
            }
            j += 1;
        }
    }
    proof {
        let view = pane_to_tab_view(map@);
        assert forall|id: u32| #[trigger] view.contains_key(id) <==> on_some_tab(manifest@, id) by {
            if on_some_tab(manifest@, id) {
                let position = choose|position: usize| #[trigger] on_tab(manifest@, position, id);
                assert(manifest.panes@.contains_key(position));
            }
            assert(view.contains_key(id) == map@.contains_key(id));
        }
        assert forall|id: u32| #[trigger] view.contains_key(id) implies on_tab(
            manifest@,
            view[id].0,
            id,
        ) && view[id].1 == tab_name_at(all, view[id].0) by {
            assert(map@.contains_key(id));
        }
    }
    map
}

/// Choose, per tab index, which terminal pane's title the tab should mirror.
///
/// Driven by the pane manifest so it works even when no hook has fired yet
/// (`sessions` empty), which is the normal state right after a server restart.
/// Session activity is only a tiebreak for tabs holding more than one candidate pane.
///
/// Selection per tab, in order:
/// 1. Panes with a non-blank title are the only candidates.
/// 2. If several qualify, prefer the one with the most recent session activity,
///    so a tab running several agents follows the active one.
/// 3. Otherwise take the lowest pane id, so the choice is stable across updates
///    rather than flapping with map iteration order.
pub fn pick_title_panes(
    manifest: &PaneManifest,
    sessions: &BTreeMap<u32, SessionInfo>,
) -> (chosen: HashMap<usize, u32>)
    ensures
        title_panes(manifest@, crate::session::sessions_view(sessions@), chosen@),
{
    let mut chosen: HashMap<usize, u32> = HashMap::new();
    let ghost known = crate::session::sessions_view(sessions@);
    for entry in it: manifest.panes.iter()
        invariant
            known == crate::session::sessions_view(sessions@),
            it.seq().no_duplicates(),
            forall|i: int|
                0 <= i < it.seq().len() ==> manifest.panes@.contains_key(*(#[trigger] it.seq()[i]).0)
                    && manifest.panes@[*it.seq()[i].0] == *it.seq()[i].1,
            forall|position: usize| #[trigger]
                chosen@.contains_key(position) ==> exists|i: int|
                    0 <= i < it.index() && *(#[trigger] it.seq()[i]).0 == position,
            forall|i: int|
                0 <= i < it.index() ==> crate::rename_guard::title_pick(
                    candidates(panes_view((#[trigger] it.seq()[i]).1@), known),
                    chosen@.get(*it.seq()[i].0),
                ),
    {
        let position: usize = *entry.0;
        let panes: &Vec<PaneInfo> = entry.1;
        let cs = collect_candidates(panes.as_slice(), sessions);
        let ghost before = chosen@;
        proof {
            assert(!before.contains_key(position)) by {
                if before.contains_key(position) {
                    let i = choose|i: int|
                        0 <= i < it.index() && *(#[trigger] it.seq()[i]).0 == position;
                    assert(it.seq()[i] == it.seq()[it.index()]);
                }
            }
        }
        if let Some(pane_id) = pick_title_pane(cs.as_slice()) {
            chosen.insert(position, pane_id);
        }
        proof {
            assert forall|i: int| 0 <= i < it.index() implies chosen@.get(
                *(#[trigger] it.seq()[i]).0,
            ) == before.get(*it.seq()[i].0) by {
                if *it.seq()[i].0 == position {
                    assert(it.seq()[i] == it.seq()[it.index()]);
                }
            }
        }
    }
    proof {
        assert forall|position: usize| #[trigger] manifest@.contains_key(
            position,
        ) implies crate::rename_guard::title_pick(
            candidates(manifest@[position], known),
            chosen@.get(position),
        ) by {
            assert(manifest.panes@.contains_key(position));
        }
    }
    chosen
}

/// The candidates for one tab's title: its terminal panes with their titles and
/// last known activity.
fn collect_candidates(
    panes: &[PaneInfo],
    sessions: &BTreeMap<u32, SessionInfo>,
) -> (found: Vec<(u32, String, u64)>)
    ensures
        found@.map_values(
            |c: (u32, String, u64)| crate::rename_guard::candidate_view(c),
        ) == candidates(panes_view(panes@), crate::session::sessions_view(sessions@)),
{
    let mut found: Vec<(u32, String, u64)> = Vec::new();
    let mut j: usize = 0;
    let ghost views = panes_view(panes@);
    let ghost known = crate::session::sessions_view(sessions@);
    let ghost terminal = |p: PaneView| !p.is_plugin;
    let ghost as_candidate = |p: PaneView| (p.id, p.title, activity_of(known, p.id));
    let ghost seen = |c: (u32, String, u64)| crate::rename_guard::candidate_view(c);
    proof {
        reveal(Seq::filter);
        assert(views.take(0).filter(terminal).map_values(as_candidate) =~= Seq::empty());
        assert(found@.map_values(seen) =~= Seq::empty());
    }
    while j < panes.len()
        invariant
            j <= panes.len(),
            views == panes_view(panes@),
            known == crate::session::sessions_view(sessions@),
            terminal == (|p: PaneView| !p.is_plugin),
            as_candidate == (|p: PaneView| (p.id, p.title, activity_of(known, p.id))),
            seen == (|c: (u32, String, u64)| crate::rename_guard::candidate_view(c)),
            found@.map_values(seen) == views.take(j as int).filter(terminal).map_values(
                as_candidate,
            ),
        decreases panes.len() - j,
    {
        let pane = &panes[j];
        let ghost before = found@;
        proof {
            assert(views.take(j + 1) =~= views.take(j as int).push(pane@));
            views.take(j as int).lemma_filter_push(pane@, terminal);
        }
        if !pane.is_plugin {
            let activity: u64 = match sessions.get(&pane.id) {
                Some(session) => session.last_event_ts,
                None => 0,
            };
            found.push((pane.id, pane.title.clone(), activity));
            proof {
                assert(activity == activity_of(known, pane.id)) by {
                    assert(known.contains_key(pane.id) == sessions@.contains_key(pane.id));
                }
                assert(found@.map_values(seen) =~= before.map_values(seen).push(
                    as_candidate(pane@),
                ));
                assert(views.take(j + 1).filter(terminal).map_values(as_candidate)
                    =~= views.take(j as int).filter(terminal).map_values(as_candidate).push(
                    as_candidate(pane@),
                ));
            }
        }
        j += 1;
    }
    proof {
        assert(views.take(views.len() as int) =~= views);
    }
    found
}

/// Build a mapping from terminal pane id to the pane's current title (the title
/// set by the running program, as it appears in the UI).
pub fn build_pane_titles(manifest: &PaneManifest) -> (map: HashMap<u32, String>)
    ensures
        pane_titles(manifest@, titles_view(map@)),
{
    let mut map: HashMap<u32, String> = HashMap::new();
    for entry in it: manifest.panes.iter()
        invariant
            forall|i: int|
                0 <= i < it.seq().len() ==> manifest.panes@.contains_key(*(#[trigger] it.seq()[i]).0)
                    && manifest.panes@[*it.seq()[i].0] == *it.seq()[i].1,
            forall|id: u32, i: int|
                0 <= i < it.index() && #[trigger] has_terminal(
                    panes_view((#[trigger] it.seq()[i]).1@),
                    id,
                ) ==> map@.contains_key(id),
            forall|id: u32| #[trigger]
                map@.contains_key(id) ==> exists|position: usize| #[trigger]
                    on_tab(manifest@, position, id) && map@[id]@ == last_title(
                        manifest@[position],
                        id,
                    ),
    {
        let panes: &Vec<PaneInfo> = entry.1;
        let ghost position = *entry.0;
        let ghost views = panes_view(panes@);
        let ghost before = map@;
        let mut j: usize = 0;
        while j < panes.len()
            invariant
                j <= panes.len(),
                views == panes_view(panes@),
                forall|id: u32| #[trigger]
                    map@.contains_key(id) <==> before.contains_key(id) || has_terminal(
                        views.take(j as int),
                        id,
                    ),
                forall|id: u32|
                    #![trigger map@.contains_key(id)]
                    map@.contains_key(id) ==> if has_terminal(views.take(j as int), id) {
                        map@[id]@ == last_title(views.take(j as int), id)
                    } else {
                        map@[id] == before[id]
                    },
            decreases panes.len() - j,
        {
            let pane = &panes[j];
            let ghost last = map@;
            let ghost was = views.take(j as int);
            let ghost now = views.take(j + 1);
            if !pane.is_plugin {
                map.insert(pane.id, pane.title.clone());
            }
            proof {
                assert(now.drop_last() =~= was);
                assert(now.last() == pane@);
                assert forall|id: u32| #[trigger] has_terminal(now, id) <==> has_terminal(was, id)
                    || (!pane.is_plugin && pane.id == id) by {
                    lemma_has_terminal_push(was, pane@, id);
                    assert(was.push(pane@) =~= now);
                }
                assert forall|id: u32| #[trigger] map@.contains_key(id) implies if has_terminal(
                    now,
                    id,
                ) {
                    map@[id]@ == last_title(now, id)
                } else {
                    map@[id] == before[id]
                } by {
                    assert(last.contains_key(id) || (!pane.is_plugin && pane.id == id));
                }
                assert forall|id: u32| #[trigger] map@.contains_key(id) <==> before.contains_key(id)
                    || has_terminal(now, id) by {
                    assert(last.contains_key(id) || !last.contains_key(id));
                }
            }
            j += 1;
        }
        proof {
            assert(views.take(views.len() as int) =~= views);
            assert(manifest@[position] == views);
            assert forall|id: u32| #[trigger] map@.contains_key(id) implies exists|p: usize| #[trigger]
                on_tab(manifest@, p, id) && map@[id]@ == last_title(manifest@[p], id) by {
                if has_terminal(views, id) {
                    assert(on_tab(manifest@, position, id));
                } else {
                    assert(before.contains_key(id));
                }
            }
        }
    }
    proof {
        let view = titles_view(map@);
        assert forall|id: u32| #[trigger] view.contains_key(id) <==> on_some_tab(manifest@, id) by {
            if on_some_tab(manifest@, id) {
                let position = choose|position: usize| #[trigger] on_tab(manifest@, position, id);
                assert(manifest.panes@.contains_key(position));
            }
            assert(view.contains_key(id) == map@.contains_key(id));
        }
        assert forall|id: u32| #[trigger] view.contains_key(id) implies exists|p: usize| #[trigger]
            on_tab(manifest@, p, id) && view[id] == last_title(manifest@[p], id) by {
            assert(map@.contains_key(id));
        }
    }
    map
}

proof fn lemma_has_terminal_push(panes: Seq<PaneView>, pane: PaneView, id: u32)
    ensures
        has_terminal(panes.push(pane), id) <==> has_terminal(panes, id) || (!pane.is_plugin
            && pane.id == id),
{
    let all = panes.push(pane);
    if has_terminal(panes, id) {
        let i = choose|i: int|
            0 <= i < panes.len() && !(#[trigger] panes[i]).is_plugin && panes[i].id == id;
        assert(all[i] == panes[i]);
    }
    if !pane.is_plugin && pane.id == id {
        assert(all[panes.len() as int] == pane);
    }
    if has_terminal(all, id) {
        let i = choose|i: int|
            0 <= i < all.len() && !(#[trigger] all[i]).is_plugin && all[i].id == id;
        if i < panes.len() {
            assert(panes[i] == all[i]);
        }
    }
}

/// No terminal pane id is on two tabs.
pub open spec fn each_on_one_tab(manifest: Map<usize, Seq<PaneView>>) -> bool {
    forall|p: usize, q: usize, id: u32| #[trigger]
        on_tab(manifest, p, id) && #[trigger] on_tab(manifest, q, id) ==> p == q
}

/// A terminal pane that is on two tabs has the same title on both.
pub open spec fn one_title_each(manifest: Map<usize, Seq<PaneView>>) -> bool {
    forall|p: usize, q: usize, id: u32| #[trigger]
        on_tab(manifest, p, id) && #[trigger] on_tab(manifest, q, id) ==> last_title(
            manifest[p],
            id,
        ) == last_title(manifest[q], id)
}

/// `pane` is a terminal pane with a title.
pub open spec fn titled_terminal(pane: PaneView) -> bool {
    !pane.is_plugin && !crate::text::blank(pane.title)
}

/// No tab has two titled terminal panes: those that it lists share one id.
pub open spec fn no_ties(manifest: Map<usize, Seq<PaneView>>) -> bool {
    forall|p: usize, i: int, j: int|
        #![trigger manifest[p][i], manifest[p][j]]
        manifest.contains_key(p) && 0 <= i < manifest[p].len() && 0 <= j < manifest[p].len()
            && titled_terminal(manifest[p][i]) && titled_terminal(manifest[p][j])
            ==> manifest[p][i].id == manifest[p][j].id
}

/// Where no terminal pane is on two tabs, the map from panes to tabs is determined
/// by the tabs and the manifest: the order in which the manifest is walked does not
/// show.
pub proof fn law_pane_to_tab_map_is_determined(
    tabs: Seq<TabView>,
    manifest: Map<usize, Seq<PaneView>>,
    a: Map<u32, (usize, Seq<char>)>,
    b: Map<u32, (usize, Seq<char>)>,
)
    requires
        each_on_one_tab(manifest),
        pane_to_tab_map(tabs, manifest, a),
        pane_to_tab_map(tabs, manifest, b),
    ensures
        a == b,
{
    assert forall|id: u32| #[trigger] a.contains_key(id) implies b.contains_key(id) && a[id]
        == b[id] by {
        assert(b.contains_key(id));
        assert(on_tab(manifest, a[id].0, id) && on_tab(manifest, b[id].0, id));
    }
    assert forall|id: u32| #[trigger] b.contains_key(id) implies a.contains_key(id) by {}
    assert(a =~= b);
}

/// Where no terminal pane has different titles on two tabs, the map from panes to titles
/// is determined by the manifest.
pub proof fn law_pane_titles_are_determined(
    manifest: Map<usize, Seq<PaneView>>,
    a: Map<u32, Seq<char>>,
    b: Map<u32, Seq<char>>,
)
    requires
        one_title_each(manifest),
        pane_titles(manifest, a),
        pane_titles(manifest, b),
    ensures
        a == b,
{
    assert forall|id: u32| #[trigger] a.contains_key(id) implies b.contains_key(id) && a[id]
        == b[id] by {
        assert(b.contains_key(id));
        let p = choose|p: usize| #[trigger]
            on_tab(manifest, p, id) && a[id] == last_title(manifest[p], id);
        let q = choose|q: usize| #[trigger]
            on_tab(manifest, q, id) && b[id] == last_title(manifest[q], id);
        assert(on_tab(manifest, p, id) && on_tab(manifest, q, id));
    }
    assert forall|id: u32| #[trigger] b.contains_key(id) implies a.contains_key(id) by {}
    assert(a =~= b);
}

/// The choice of title panes is determined by the manifest and the sessions, in
/// whatever order the manifest is walked.
pub proof fn law_title_panes_are_determined(
    manifest: Map<usize, Seq<PaneView>>,
    sessions: Map<u32, SessionView>,
    a: Map<usize, u32>,
    b: Map<usize, u32>,
)
    requires
        title_panes(manifest, sessions, a),
        title_panes(manifest, sessions, b),
    ensures
        a == b,
{
    assert forall|p: usize| #[trigger] manifest.contains_key(p) implies a.get(p) == b.get(p) by {
        let cs = candidates(manifest[p], sessions);
        crate::rename_guard::law_pick_does_not_depend_on_order(cs, cs, a.get(p), b.get(p));
    }
    assert forall|p: usize| #[trigger] a.contains_key(p) implies b.contains_key(p) && a[p]
        == b[p] by {
        assert(manifest.contains_key(p));
    }
    assert forall|p: usize| #[trigger] b.contains_key(p) implies a.contains_key(p) by {
        assert(manifest.contains_key(p));
    }
    assert(a =~= b);
}

/// Titles do not wait for hooks: whatever sessions are known, and with none known at
/// all, a tab on which a terminal pane has a non-blank title gets a title pane, one
/// of its own.
pub proof fn law_titles_need_no_sessions(
    manifest: Map<usize, Seq<PaneView>>,
    sessions: Map<u32, SessionView>,
    position: usize,
    i: int,
    chosen: Map<usize, u32>,
)
    requires
        manifest.contains_key(position),
        0 <= i < manifest[position].len(),
        !manifest[position][i].is_plugin,
        !crate::text::blank(manifest[position][i].title),
        title_panes(manifest, sessions, chosen),
    ensures
        chosen.contains_key(position),
        has_terminal(manifest[position], chosen[position]),
{
    let panes = manifest[position];
    let cs = candidates(panes, sessions);
    let terminal = |p: PaneView| !p.is_plugin;
    let as_candidate = |p: PaneView| (p.id, p.title, activity_of(sessions, p.id));
    panes.lemma_filter_contains(terminal, i);
    let j = choose|j: int|
        0 <= j < panes.filter(terminal).len() && panes.filter(terminal)[j] == panes[i];
    assert(cs[j] == as_candidate(panes[i]));
    assert(cs.contains(as_candidate(panes[i])));
    crate::rename_guard::law_a_titled_pane_is_always_picked(
        cs,
        as_candidate(panes[i]),
        chosen.get(position),
    );
    lemma_picked_pane_is_on_the_tab(panes, sessions, chosen[position]);
}

/// The pane picked among a tab's candidates is one of the tab's titled terminal panes.
proof fn lemma_picked_pane(
    panes: Seq<PaneView>,
    sessions: Map<u32, SessionView>,
    id: u32,
) -> (i: int)
    requires
        crate::rename_guard::title_pick(candidates(panes, sessions), Some(id)),
    ensures
        0 <= i < panes.len(),
        titled_terminal(panes[i]),
        panes[i].id == id,
{
    let cs = candidates(panes, sessions);
    let terminal = |p: PaneView| !p.is_plugin;
    let c = choose|c: CandidateView| #[trigger]
        crate::rename_guard::best_candidate(cs, c) && c.0 == id;
    let k = choose|k: int| 0 <= k < cs.len() && cs[k] == c;
    let pane = panes.filter(terminal)[k];
    panes.lemma_filter_pred(terminal, k);
    assert(panes.filter(terminal).contains(pane));
    panes.lemma_filter_contains_rev(terminal, pane);
    choose|m: int| 0 <= m < panes.len() && panes[m] == pane
}

/// The pane picked among a tab's candidates is on the tab.
pub proof fn lemma_picked_pane_is_on_the_tab(
    panes: Seq<PaneView>,
    sessions: Map<u32, SessionView>,
    id: u32,
)
    requires
        crate::rename_guard::title_pick(candidates(panes, sessions), Some(id)),
    ensures
        has_terminal(panes, id),
{
    let i = lemma_picked_pane(panes, sessions, id);
    assert(!panes[i].is_plugin);
}

/// Session activity is a tiebreak only: where no tab has two titled terminal panes, the
/// choice of title panes does not depend on the sessions.
pub proof fn law_sessions_only_break_ties(
    manifest: Map<usize, Seq<PaneView>>,
    sessions_a: Map<u32, SessionView>,
    sessions_b: Map<u32, SessionView>,
    a: Map<usize, u32>,
    b: Map<usize, u32>,
)
    requires
        no_ties(manifest),
        title_panes(manifest, sessions_a, a),
        title_panes(manifest, sessions_b, b),
    ensures
        a == b,
{
    assert forall|p: usize| #[trigger] a.contains_key(p) implies b.contains_key(p) && a[p]
        == b[p] by {
        lemma_picked_without_ties(manifest, sessions_a, sessions_b, a, b, p);
    }
    assert forall|p: usize| #[trigger] b.contains_key(p) implies a.contains_key(p) by {
        lemma_picked_without_ties(manifest, sessions_b, sessions_a, b, a, p);
    }
    assert(a =~= b);
}

proof fn lemma_picked_without_ties(
    manifest: Map<usize, Seq<PaneView>>,
    sessions_a: Map<u32, SessionView>,
    sessions_b: Map<u32, SessionView>,
    a: Map<usize, u32>,
    b: Map<usize, u32>,
    position: usize,
)
    requires
        no_ties(manifest),
        title_panes(manifest, sessions_a, a),
        title_panes(manifest, sessions_b, b),
        a.contains_key(position),
    ensures
        b.contains_key(position),
        a[position] == b[position],
{
    assert(manifest.contains_key(position));
    let panes = manifest[position];
    let i = lemma_picked_pane(panes, sessions_a, a[position]);
    law_titles_need_no_sessions(manifest, sessions_b, position, i, b);
    let j = lemma_picked_pane(panes, sessions_b, b[position]);
    assert(manifest[position][i].id == manifest[position][j].id);
}

/// The map from panes to tabs holds exactly the terminal panes that some tab lists, each
/// with a tab that lists it, and with the name that the last tab reported at that position
/// has, or no name where none is reported there.
pub proof fn law_panes_are_mapped_to_the_tabs_that_list_them(
    tabs: Seq<TabView>,
    manifest: Map<usize, Seq<PaneView>>,
    map: Map<u32, (usize, Seq<char>)>,
    id: u32,
)
    requires
        pane_to_tab_map(tabs, manifest, map),
    ensures
        map.contains_key(id) <==> exists|p: usize, k: int|
            #![trigger manifest[p][k]]
            manifest.contains_key(p) && 0 <= k < manifest[p].len() && !manifest[p][k].is_plugin
                && manifest[p][k].id == id,
        map.contains_key(id) ==> manifest.contains_key(map[id].0) && exists|k: int|
            0 <= k < manifest[map[id].0].len() && !(#[trigger] manifest[map[id].0][k]).is_plugin
                && manifest[map[id].0][k].id == id,
        map.contains_key(id) ==> (map[id].1.len() == 0 && forall|j: int|
            0 <= j < tabs.len() ==> (#[trigger] tabs[j]).position != map[id].0) || exists|j: int|
            0 <= j < tabs.len() && (#[trigger] tabs[j]).position == map[id].0 && tabs[j].name
                == map[id].1 && forall|l: int|
                j < l < tabs.len() ==> (#[trigger] tabs[l]).position != map[id].0,
{
    if map.contains_key(id) {
        let p = map[id].0;
        assert(on_tab(manifest, p, id));
        let k = choose|k: int|
            0 <= k < manifest[p].len() && !(#[trigger] manifest[p][k]).is_plugin
                && manifest[p][k].id == id;
        assert(manifest[p][k].id == id);
        lemma_tab_name_at(tabs, p);
    }
    if exists|p: usize, k: int|
        #![trigger manifest[p][k]]
        manifest.contains_key(p) && 0 <= k < manifest[p].len() && !manifest[p][k].is_plugin
            && manifest[p][k].id == id {
        let (p, k) = choose|p: usize, k: int|
            #![trigger manifest[p][k]]
            manifest.contains_key(p) && 0 <= k < manifest[p].len() && !manifest[p][k].is_plugin
                && manifest[p][k].id == id;
        assert(has_terminal(manifest[p], id));
        assert(on_tab(manifest, p, id));
    }
}

proof fn lemma_tab_name_at(tabs: Seq<TabView>, position: usize)
    ensures
        (tab_name_at(tabs, position).len() == 0 && forall|j: int|
            0 <= j < tabs.len() ==> (#[trigger] tabs[j]).position != position) || exists|j: int|
            0 <= j < tabs.len() && (#[trigger] tabs[j]).position == position && tabs[j].name
                == tab_name_at(tabs, position) && forall|l: int|
                j < l < tabs.len() ==> (#[trigger] tabs[l]).position != position,
    decreases tabs.len(),
{
    if tabs.len() > 0 {
        let n = tabs.len() - 1;
        if tabs.last().position == position {
            assert(tabs[n].position == position);
        } else {
            let t = tabs.drop_last();
            lemma_tab_name_at(t, position);
            assert(forall|j: int| 0 <= j < n ==> t[j] == tabs[j]);
            if exists|j: int|
                0 <= j < t.len() && (#[trigger] t[j]).position == position && t[j].name
                    == tab_name_at(t, position) && forall|l: int|
                    j < l < t.len() ==> (#[trigger] t[l]).position != position {
                let j = choose|j: int|
                    0 <= j < t.len() && (#[trigger] t[j]).position == position && t[j].name
                        == tab_name_at(t, position) && forall|l: int|
                        j < l < t.len() ==> (#[trigger] t[l]).position != position;
                assert(tabs[j].position == position);
                assert forall|l: int| j < l < tabs.len() implies (
                #[trigger] tabs[l]).position != position by {
                    if l < n {
                        assert(t[l].position != position);
                    }
                }
            } else {
                assert forall|j: int| 0 <= j < tabs.len() implies (
                #[trigger] tabs[j]).position != position by {
                    if j < n {
                        assert(t[j].position != position);
                    }
                }
            }
        }
    }
}

proof fn lemma_last_title(panes: Seq<PaneView>, id: u32) -> (k: int)
    requires
        has_terminal(panes, id),
    ensures
        0 <= k < panes.len(),
        !panes[k].is_plugin,
        panes[k].id == id,
        panes[k].title == last_title(panes, id),
        forall|l: int|
            k < l < panes.len() ==> (#[trigger] panes[l]).is_plugin || panes[l].id != id,
    decreases panes.len(),
{
    let n = panes.len() - 1;
    if !panes.last().is_plugin && panes.last().id == id {
        n
    } else {
        let t = panes.drop_last();
        let i = choose|i: int|
            0 <= i < panes.len() && !(#[trigger] panes[i]).is_plugin && panes[i].id == id;
        assert(t[i] == panes[i]);
        let k = lemma_last_title(t, id);
        assert(t[k] == panes[k]);
        assert forall|l: int| k < l < panes.len() implies (#[trigger] panes[l]).is_plugin
            || panes[l].id != id by {
            if l < n {
                assert(t[l] == panes[l]);
            }
        }
        k
    }
}

/// The titles are the terminal panes' own: each pane that some tab lists has the title
/// that a tab lists for it, in the last place where that tab lists it.
pub proof fn law_titles_are_those_that_panes_have(
    manifest: Map<usize, Seq<PaneView>>,
    map: Map<u32, Seq<char>>,
    id: u32,
) -> (at: (usize, int))
    requires
        pane_titles(manifest, map),
        map.contains_key(id),
    ensures
        manifest.contains_key(at.0),
        0 <= at.1 < manifest[at.0].len(),
        !manifest[at.0][at.1].is_plugin,
        manifest[at.0][at.1].id == id,
        map[id] == manifest[at.0][at.1].title,
        forall|l: int|
            at.1 < l < manifest[at.0].len() ==> (#[trigger] manifest[at.0][l]).is_plugin
                || manifest[at.0][l].id != id,
{
    let p = choose|p: usize| #[trigger]
        on_tab(manifest, p, id) && map[id] == last_title(manifest[p], id);
    let k = lemma_last_title(manifest[p], id);
    (p, k)
}

/// Every terminal pane that some tab lists has a title in the map.
pub proof fn law_every_terminal_pane_has_its_title(
    manifest: Map<usize, Seq<PaneView>>,
    map: Map<u32, Seq<char>>,
    p: usize,
    k: int,
)
    requires
        pane_titles(manifest, map),
        manifest.contains_key(p),
        0 <= k < manifest[p].len(),
        !manifest[p][k].is_plugin,
    ensures
        map.contains_key(manifest[p][k].id),
{
    let id = manifest[p][k].id;
    assert(has_terminal(manifest[p], id));
    assert(on_tab(manifest, p, id));
}

/// The candidate that a terminal pane makes, and that every candidate is made so.
proof fn lemma_candidate_of(panes: Seq<PaneView>, sessions: Map<u32, SessionView>, j: int) -> (k:
    int)
    requires
        0 <= j < panes.len(),
        !panes[j].is_plugin,
    ensures
        0 <= k < candidates(panes, sessions).len(),
        candidates(panes, sessions)[k] == (
            panes[j].id,
            panes[j].title,
            activity_of(sessions, panes[j].id),
        ),
{
    let terminal = |p: PaneView| !p.is_plugin;
    panes.lemma_filter_contains(terminal, j);
    choose|k: int| 0 <= k < panes.filter(terminal).len() && panes.filter(terminal)[k] == panes[j]
}

/// The title pane of a tab leads: it has a session, or other activity, at least as late as
/// any other terminal pane of the tab with a title, whatever any session is doing, and
/// where two are as late it has the lower id. A pane without a session was last active at
/// time 0. A tab with such a pane always has a title pane.
pub proof fn law_the_title_pane_was_active_last(
    manifest: Map<usize, Seq<PaneView>>,
    sessions: Map<u32, SessionView>,
    chosen: Map<usize, u32>,
    position: usize,
    j: int,
    c: int,
)
    requires
        title_panes(manifest, sessions, chosen),
        manifest.contains_key(position),
        0 <= j < manifest[position].len(),
        !manifest[position][j].is_plugin,
        0 <= c < manifest[position][j].title.len(),
        !crate::text::white_space(manifest[position][j].title[c]),
    ensures
        chosen.contains_key(position),
        ({
            let p = chosen[position];
            let q = manifest[position][j].id;
            &&& sessions.contains_key(p) && sessions.contains_key(q) ==> sessions[p].last_event_ts
                > sessions[q].last_event_ts || (sessions[p].last_event_ts
                == sessions[q].last_event_ts && p <= q)
            &&& sessions.contains_key(p) && !sessions.contains_key(q) ==> sessions[p].last_event_ts
                > 0 || p <= q
            &&& !sessions.contains_key(p) && sessions.contains_key(q) ==> sessions[q].last_event_ts
                == 0 && p <= q
            &&& !sessions.contains_key(p) && !sessions.contains_key(q) ==> p <= q
        }),
{
    let panes = manifest[position];
    let cs = candidates(panes, sessions);
    let pick = chosen.get(position);
    let k = lemma_candidate_of(panes, sessions, j);
    assert(cs[k].1[c] == panes[j].title[c]);
    let p = crate::rename_guard::law_the_picked_candidate_leads(cs, pick, k, c);
    assert(chosen.contains_key(position));
    let terminal = |p: PaneView| !p.is_plugin;
    assert(cs[p].2 == activity_of(sessions, panes.filter(terminal)[p].id));
}

/// The title pane of a tab is a terminal pane that the tab lists, with a character of its
/// title that is not white space: `at` says which.
pub proof fn law_the_title_pane_is_a_titled_terminal(
    manifest: Map<usize, Seq<PaneView>>,
    sessions: Map<u32, SessionView>,
    chosen: Map<usize, u32>,
    position: usize,
) -> (at: (int, int))
    requires
        title_panes(manifest, sessions, chosen),
        chosen.contains_key(position),
    ensures
        manifest.contains_key(position),
        0 <= at.0 < manifest[position].len(),
        !manifest[position][at.0].is_plugin,
        manifest[position][at.0].id == chosen[position],
        0 <= at.1 < manifest[position][at.0].title.len(),
        !crate::text::white_space(manifest[position][at.0].title[at.1]),
{
    assert(manifest.contains_key(position));
    let panes = manifest[position];
    let i = lemma_picked_pane(panes, sessions, chosen[position]);
    let c = choose|c: int|
        0 <= c < panes[i].title.len() && !crate::text::white_space(#[trigger] panes[i].title[c]);
    (i, c)
}

/// The views of tabs and panes leave nothing out.
pub proof fn law_tab_and_pane_views_are_faithful(
    tabs: Seq<TabInfo>,
    panes: Seq<PaneInfo>,
    manifest: PaneManifest,
    i: int,
    p: usize,
)
    ensures
        tabs_view(tabs).len() == tabs.len(),
        0 <= i < tabs.len() ==> tabs_view(tabs)[i].position == tabs[i].position && tabs_view(
            tabs,
        )[i].name == tabs[i].name@ && tabs_view(tabs)[i].active == tabs[i].active,
        panes_view(panes).len() == panes.len(),
        0 <= i < panes.len() ==> panes_view(panes)[i].id == panes[i].id && panes_view(
            panes,
        )[i].is_plugin == panes[i].is_plugin && panes_view(panes)[i].title == panes[i].title@,
        manifest@.contains_key(p) <==> manifest.panes@.contains_key(p),
        manifest@.contains_key(p) ==> manifest@[p] == panes_view(manifest.panes@[p]@),
{
}

} // verus!
