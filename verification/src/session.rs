//! Agent sessions, one per terminal pane.

use std::collections::{BTreeMap, HashMap};

use vstd::prelude::*;

verus! {

/// For how long a finished session is shown as finished, in seconds.
pub const DONE_TIMEOUT: u64 = 30;

/// What a session is doing.
#[derive(Debug, PartialEq, Eq)]
pub enum Activity {
    /// Nothing.
    Idle,
    /// It has finished its turn.
    Done,
    /// One of its sub-agents has finished.
    AgentDone,
    /// Anything else, by the name the host has for it.
    Other(String),
}

/// What hook events have told of one session.
#[derive(Debug, PartialEq, Eq)]
pub struct SessionInfo {
    /// The terminal pane that the session runs in.
    pub pane_id: u32,
    pub activity: Activity,
    /// When the last hook event came, in seconds.
    pub last_event_ts: u64,
    pub tab_index: Option<usize>,
    pub tab_name: Option<String>,
    /// What else the host records of the session. Carried along, never read.
    pub details: String,
}

/// An [`Activity`], its name taken as text.
pub enum ActivityView {
    Idle,
    Done,
    AgentDone,
    Other(Seq<char>),
}

/// A [`SessionInfo`], its strings taken as text.
pub struct SessionView {
    pub pane_id: u32,
    pub activity: ActivityView,
    pub last_event_ts: u64,
    pub tab_index: Option<usize>,
    pub tab_name: Option<Seq<char>>,
    pub details: Seq<char>,
}

/// An optional string, taken as text.
pub open spec fn text_view(s: Option<String>) -> Option<Seq<char>> {
    match s {
        Some(s) => Some(s@),
        None => None,
    }
}

impl View for Activity {
    type V = ActivityView;

    open spec fn view(&self) -> ActivityView {
        match *self {
            Activity::Idle => ActivityView::Idle,
            Activity::Done => ActivityView::Done,
            Activity::AgentDone => ActivityView::AgentDone,
            Activity::Other(name) => ActivityView::Other(name@),
        }
    }
}

impl View for SessionInfo {
    type V = SessionView;

    open spec fn view(&self) -> SessionView {
        SessionView {
            pane_id: self.pane_id,
            activity: self.activity@,
            last_event_ts: self.last_event_ts,
            tab_index: self.tab_index,
            tab_name: text_view(self.tab_name),
            details: self.details@,
        }
    }
}

/// Sessions by pane id, each taken by its view.
pub open spec fn sessions_view(sessions: Map<u32, SessionInfo>) -> Map<u32, SessionView> {
    sessions.map_values(|s: SessionInfo| s@)
}

/// `session` with the tab that `pane_to_tab` has for pane `id`, where it has one.
pub open spec fn located(
    session: SessionView,
    pane_to_tab: Map<u32, (usize, Seq<char>)>,
    id: u32,
) -> SessionView {
    if pane_to_tab.contains_key(id) {
        SessionView {
            tab_index: Some(pane_to_tab[id].0),
            tab_name: Some(pane_to_tab[id].1),
            ..session
        }
    } else {
        session
    }
}

/// Each session with the tab that its pane is on now.
pub open spec fn refreshed(
    sessions: Map<u32, SessionView>,
    pane_to_tab: Map<u32, (usize, Seq<char>)>,
) -> Map<u32, SessionView> {
    sessions.map_values(|s: SessionView| located(s, pane_to_tab, s.pane_id))
}

/// A session that has finished, and finished long enough ago.
pub open spec fn stale(session: SessionView, now: u64) -> bool {
    &&& session.activity is Done || session.activity is AgentDone
    &&& now - session.last_event_ts >= DONE_TIMEOUT
}

/// `session`, idle if it was stale.
pub open spec fn settled(session: SessionView, now: u64) -> SessionView {
    if stale(session, now) {
        SessionView { activity: ActivityView::Idle, ..session }
    } else {
        session
    }
}

/// A session for which elapsed time is on show: not idle, and last heard of long
/// enough ago.
pub open spec fn shows_elapsed(session: SessionView, now: u64) -> bool {
    !(session.activity is Idle) && now - session.last_event_ts >= DONE_TIMEOUT
}

/// What another instance knows of `id` replaces what is known here: nothing is, or
/// theirs is newer.
pub open spec fn dominated(
    sessions: Map<u32, SessionView>,
    incoming: Map<u32, SessionView>,
    id: u32,
) -> bool {
    &&& incoming.contains_key(id)
    &&& sessions.contains_key(id) ==> incoming[id].last_event_ts > sessions[id].last_event_ts
}

/// The sessions of two instances, for each pane the newer one, and this instance's
/// where neither is newer. What comes from the other instance gets the tab that the
/// pane is on here.
pub open spec fn merged(
    sessions: Map<u32, SessionView>,
    incoming: Map<u32, SessionView>,
    pane_to_tab: Map<u32, (usize, Seq<char>)>,
) -> Map<u32, SessionView> {
    Map::new(
        |id: u32| sessions.contains_key(id) || incoming.contains_key(id),
        |id: u32|
            if dominated(sessions, incoming, id) {
                located(incoming[id], pane_to_tab, id)
            } else {
                sessions[id]
            },
    )
}

/// The panes whose sessions are on the tab at `position`.
pub open spec fn panes_on_tab(sessions: Map<u32, SessionView>, position: usize) -> Set<u32> {
    Set::new(
        |pane_id: u32|
            exists|id: u32| #[trigger]
                sessions.contains_key(id) && sessions[id].tab_index == Some(position)
                    && sessions[id].pane_id == pane_id,
    )
}

/// The keys of `sessions`, each once.
fn session_ids(sessions: &BTreeMap<u32, SessionInfo>) -> (ids: Vec<u32>)
    ensures
        ids@.no_duplicates(),
        forall|id: u32| #[trigger] ids@.contains(id) <==> sessions@.contains_key(id),
        forall|i: int| 0 <= i < ids@.len() ==> sessions@.contains_key(#[trigger] ids@[i]),
{
    let mut ids: Vec<u32> = Vec::new();
    let ghost keys = vstd::std_specs::iter::IteratorSpec::remaining(
        &vstd::std_specs::btree::spec_keys_iter(sessions),
    );
    for id in it: sessions.keys()
        invariant
            it.seq() == keys,
            ids@ == keys.take(it.index()).unref(),
    {
        ids.push(*id);
    }
    proof {
        assert(ids@ =~= keys.unref());
        assert forall|id: u32| #[trigger] ids@.contains(id) <==> sessions@.contains_key(id) by {
            assert(keys.unref().to_set().contains(id) == sessions@.contains_key(id));
        }
        assert forall|i: int| 0 <= i < ids@.len() implies sessions@.contains_key(
            #[trigger] ids@[i],
        ) by {
            assert(ids@.contains(ids@[i]));
        }
    }
    ids
}

/// The same activity again.
fn copy_activity(activity: &Activity) -> (copy: Activity)
    ensures
        copy@ == activity@,
{
    match activity {
        Activity::Idle => Activity::Idle,
        Activity::Done => Activity::Done,
        Activity::AgentDone => Activity::AgentDone,
        Activity::Other(name) => Activity::Other(name.clone()),
    }
}

/// The same sessions again.
pub fn copy_sessions(sessions: &BTreeMap<u32, SessionInfo>) -> (copy: BTreeMap<u32, SessionInfo>)
    ensures
        sessions_view(copy@) == sessions_view(sessions@),
{
    let ids = session_ids(sessions);
    let mut copy: BTreeMap<u32, SessionInfo> = BTreeMap::new();
    let mut i: usize = 0;
    while i < ids.len()
        invariant
            i <= ids.len(),
            forall|id: u32| #[trigger] ids@.contains(id) <==> sessions@.contains_key(id),
            forall|id: u32| #[trigger]
                copy@.contains_key(id) ==> sessions@.contains_key(id) && copy@[id]@
                    == sessions@[id]@,
            forall|j: int| 0 <= j < i ==> copy@.contains_key(#[trigger] ids@[j]),
        decreases ids.len() - i,
    {
        let id: u32 = ids[i];
        proof {
            assert(ids@.contains(id));
        }
        if let Some(session) = sessions.get(&id) {
            copy.insert(
                id,
                SessionInfo {
                    pane_id: session.pane_id,
                    activity: copy_activity(&session.activity),
                    last_event_ts: session.last_event_ts,
                    tab_index: session.tab_index,
                    tab_name: session.tab_name.clone(),
                    details: session.details.clone(),
                },
            );
        }
        i += 1;
    }
    proof {
        assert forall|id: u32| #[trigger] sessions@.contains_key(id) implies copy@.contains_key(
            id,
        ) by {
            assert(ids@.contains(id));
        }
        assert(sessions_view(copy@) =~= sessions_view(sessions@));
    }
    copy
}

/// Give each session the tab that its pane is on now, where that is known.
pub fn refresh_tabs(
    sessions: &mut BTreeMap<u32, SessionInfo>,
    pane_to_tab: &HashMap<u32, (usize, String)>,
)
    ensures
        sessions_view(final(sessions)@) == refreshed(
            sessions_view(old(sessions)@),
            crate::tab_pane_map::pane_to_tab_view(pane_to_tab@),
        ),
{
    let ids = session_ids(sessions);
    let ghost before = sessions_view(sessions@);
    let ghost map = crate::tab_pane_map::pane_to_tab_view(pane_to_tab@);
    let mut i: usize = 0;
    while i < ids.len()
        invariant
            i <= ids.len(),
            ids@.no_duplicates(),
            map == crate::tab_pane_map::pane_to_tab_view(pane_to_tab@),
            forall|id: u32| #[trigger] ids@.contains(id) <==> before.contains_key(id),
            forall|id: u32| #[trigger] sessions@.contains_key(id) <==> before.contains_key(id),
            forall|j: int|
                0 <= j < i ==> sessions@[#[trigger] ids@[j]]@ == located(
                    before[ids@[j]],
                    map,
                    before[ids@[j]].pane_id,
                ),
            forall|j: int| i <= j < ids.len() ==> sessions@[#[trigger] ids@[j]]@ == before[ids@[j]],
        decreases ids.len() - i,
    {
        let id: u32 = ids[i];
        let ghost last = sessions@;
        proof {
            assert(ids@.contains(id));
            assert(last.contains_key(id));
        }
        if let Some(mut session) = sessions.remove(&id) {
            proof {
                assert(session == last[id]);
                assert(map.contains_key(session.pane_id) == pane_to_tab@.contains_key(
                    session.pane_id,
                ));
            }
            if let Some(tab) = pane_to_tab.get(&session.pane_id) {
                session.tab_index = Some(tab.0);
                session.tab_name = Some(tab.1.clone());
            }
            sessions.insert(id, session);
        }
        i += 1;
    }
    proof {
        let after = sessions_view(sessions@);
        let expected = refreshed(before, map);
        assert forall|id: u32| #[trigger] after.contains_key(id) implies after[id]
            == expected[id] by {
            assert(sessions@.contains_key(id));
            assert(ids@.contains(id));
        }
        assert(after.dom() =~= expected.dom());
        assert(after =~= expected);
    }
}

/// Drop the sessions whose pane is gone.
pub fn drop_dead(
    sessions: &mut BTreeMap<u32, SessionInfo>,
    pane_to_tab: &HashMap<u32, (usize, String)>,
)
    ensures
        sessions_view(final(sessions)@) == sessions_view(old(sessions)@).restrict(
            crate::tab_pane_map::pane_to_tab_view(pane_to_tab@).dom(),
        ),
{
    let ids = session_ids(sessions);
    let ghost before = sessions@;
    let ghost map = crate::tab_pane_map::pane_to_tab_view(pane_to_tab@);
    let mut i: usize = 0;
    while i < ids.len()
        invariant
            i <= ids.len(),
            map == crate::tab_pane_map::pane_to_tab_view(pane_to_tab@),
            forall|id: u32| #[trigger] ids@.contains(id) <==> before.contains_key(id),
            forall|id: u32| #[trigger]
                sessions@.contains_key(id) ==> before.contains_key(id) && sessions@[id]
                    == before[id],
            forall|id: u32| #[trigger]
                before.contains_key(id) && !sessions@.contains_key(id) ==> !map.contains_key(id),
            forall|j: int|
                0 <= j < i && sessions@.contains_key(#[trigger] ids@[j]) ==> map.contains_key(
                    ids@[j],
                ),
        decreases ids.len() - i,
    {
        let id: u32 = ids[i];
        proof {
            assert(map.contains_key(id) == pane_to_tab@.contains_key(id));
        }
        if !pane_to_tab.contains_key(&id) {
            sessions.remove(&id);
        }
        i += 1;
    }
    proof {
        let after = sessions_view(sessions@);
        let expected = sessions_view(before).restrict(map.dom());
        assert forall|id: u32| #[trigger] after.contains_key(id) <==> expected.contains_key(id) by {
            if sessions@.contains_key(id) {
                assert(ids@.contains(id));
            }
            assert(before.contains_key(id) || !before.contains_key(id));
        }
        assert forall|id: u32| #[trigger] after.contains_key(id) implies after[id]
            == expected[id] by {
            assert(sessions@.contains_key(id));
        }
        assert(after =~= expected);
    }
}

/// Put every stale session to idle. Returns whether there was any.
pub fn settle_stale(sessions: &mut BTreeMap<u32, SessionInfo>, now: u64) -> (changed: bool)
    ensures
        sessions_view(final(sessions)@) == sessions_view(old(sessions)@).map_values(
            |s: SessionView| settled(s, now),
        ),
        changed == exists|id: u32| #[trigger]
            sessions_view(old(sessions)@).contains_key(id) && stale(
                sessions_view(old(sessions)@)[id],
                now,
            ),
{
    let ids = session_ids(sessions);
    let ghost before = sessions_view(sessions@);
    let mut changed: bool = false;
    let mut i: usize = 0;
    while i < ids.len()
        invariant
            i <= ids.len(),
            ids@.no_duplicates(),
            forall|id: u32| #[trigger] ids@.contains(id) <==> before.contains_key(id),
            forall|id: u32| #[trigger] sessions@.contains_key(id) <==> before.contains_key(id),
            forall|j: int|
                0 <= j < i ==> sessions@[#[trigger] ids@[j]]@ == settled(before[ids@[j]], now),
            forall|j: int| i <= j < ids.len() ==> sessions@[#[trigger] ids@[j]]@ == before[ids@[j]],
            changed ==> exists|id: u32| #[trigger]
                before.contains_key(id) && stale(before[id], now),
            !changed ==> forall|j: int| 0 <= j < i ==> !stale(before[#[trigger] ids@[j]], now),
        decreases ids.len() - i,
    {
        let id: u32 = ids[i];
        let ghost last = sessions@;
        proof {
            assert(ids@.contains(id));
            assert(last.contains_key(id));
        }
        if let Some(mut session) = sessions.remove(&id) {
            proof {
                assert(session == last[id]);
            }
            let finished: bool = match session.activity {
                Activity::Done | Activity::AgentDone => true,
                _ => false,
            };
            if finished && now.saturating_sub(session.last_event_ts) >= DONE_TIMEOUT {
                session.activity = Activity::Idle;
                changed = true;
                proof {
                    assert(before.contains_key(id) && stale(before[id], now));
                }
            }
            sessions.insert(id, session);
        }
        i += 1;
    }
    proof {
        let after = sessions_view(sessions@);
        let expected = before.map_values(|s: SessionView| settled(s, now));
        assert forall|id: u32| #[trigger] after.contains_key(id) implies after[id]
            == expected[id] by {
            assert(sessions@.contains_key(id));
            assert(ids@.contains(id));
        }
        assert(after.dom() =~= expected.dom());
        assert(after =~= expected);
        assert forall|id: u32| #[trigger] before.contains_key(id) && stale(
            before[id],
            now,
        ) implies changed by {
            assert(ids@.contains(id));
        }
    }
    changed
}

/// Whether elapsed time is on show for any session.
pub fn any_shows_elapsed(sessions: &BTreeMap<u32, SessionInfo>, now: u64) -> (any: bool)
    ensures
        any == exists|id: u32| #[trigger]
            sessions_view(sessions@).contains_key(id) && shows_elapsed(
                sessions_view(sessions@)[id],
                now,
            ),
{
    let ghost views = sessions_view(sessions@);
    let ids = session_ids(sessions);
    let mut i: usize = 0;
    while i < ids.len()
        invariant
            i <= ids.len(),
            views == sessions_view(sessions@),
            forall|id: u32| #[trigger] ids@.contains(id) <==> sessions@.contains_key(id),
            forall|j: int| 0 <= j < i ==> !shows_elapsed(views[#[trigger] ids@[j]], now),
        decreases ids.len() - i,
    {
        let id: u32 = ids[i];
        proof {
            assert(ids@.contains(id));
            assert(views.contains_key(id));
        }
        if let Some(session) = sessions.get(&id) {
            let idle: bool = match session.activity {
                Activity::Idle => true,
                _ => false,
            };
            if !idle && now.saturating_sub(session.last_event_ts) >= DONE_TIMEOUT {
                proof {
                    assert(shows_elapsed(views[id], now));
                }
                return true;
            }
        }
        i += 1;
    }
    proof {
        assert forall|id: u32| #[trigger] views.contains_key(id) implies !shows_elapsed(
            views[id],
            now,
        ) by {
            assert(ids@.contains(id));
        }
    }
    false
}

/// Take over what another instance knows better.
pub fn merge_into(
    sessions: &mut BTreeMap<u32, SessionInfo>,
    incoming: BTreeMap<u32, SessionInfo>,
    pane_to_tab: &HashMap<u32, (usize, String)>,
)
    ensures
        sessions_view(final(sessions)@) == merged(
            sessions_view(old(sessions)@),
            sessions_view(incoming@),
            crate::tab_pane_map::pane_to_tab_view(pane_to_tab@),
        ),
{
    let mut incoming = incoming;
    let ids = session_ids(&incoming);
    let ghost mine = sessions_view(sessions@);
    let ghost theirs = sessions_view(incoming@);
    let ghost map = crate::tab_pane_map::pane_to_tab_view(pane_to_tab@);
    let ghost goal = merged(mine, theirs, map);
    let mut i: usize = 0;
    while i < ids.len()
        invariant
            i <= ids.len(),
            ids@.no_duplicates(),
            map == crate::tab_pane_map::pane_to_tab_view(pane_to_tab@),
            goal == merged(mine, theirs, map),
            forall|id: u32| #[trigger] ids@.contains(id) <==> theirs.contains_key(id),
            forall|j: int|
                i <= j < ids.len() ==> incoming@.contains_key(#[trigger] ids@[j])
                    && incoming@[ids@[j]]@ == theirs[ids@[j]],
            forall|j: int|
                i <= j < ids.len() ==> sessions@.contains_key(#[trigger] ids@[j])
                    == mine.contains_key(ids@[j]),
            forall|id: u32| #[trigger] mine.contains_key(id) ==> sessions@.contains_key(id),
            forall|id: u32| #[trigger]
                sessions@.contains_key(id) ==> mine.contains_key(id) || theirs.contains_key(id),
            forall|id: u32| #[trigger]
                sessions@.contains_key(id) ==> (sessions@[id]@ == goal[id] || (
                mine.contains_key(id) && sessions@[id]@ == mine[id])),
            forall|j: int|
                i <= j < ids.len() && mine.contains_key(#[trigger] ids@[j]) ==> sessions@[ids@[j]]@
                    == mine[ids@[j]],
            forall|j: int|
                0 <= j < i ==> sessions@.contains_key(#[trigger] ids@[j]) && sessions@[ids@[j]]@
                    == goal[ids@[j]],
        decreases ids.len() - i,
    {
        let id: u32 = ids[i];
        let ghost last = sessions@;
        proof {
            assert(ids@.contains(id));
            assert(incoming@.contains_key(id));
        }
        if let Some(mut session) = incoming.remove(&id) {
            let newer: bool = match sessions.get(&id) {
                Some(existing) => session.last_event_ts > existing.last_event_ts,
                None => true,
            };
            proof {
                assert(newer == dominated(mine, theirs, id));
                assert(map.contains_key(id) == pane_to_tab@.contains_key(id));
            }
            if newer {
                if let Some(tab) = pane_to_tab.get(&id) {
                    session.tab_index = Some(tab.0);
                    session.tab_name = Some(tab.1.clone());
                }
                sessions.insert(id, session);
                proof {
                    assert(sessions@[id]@ == goal[id]);
                }
            }
        }
        i += 1;
    }
    proof {
        let after = sessions_view(sessions@);
        assert forall|id: u32| #[trigger] goal.contains_key(id) implies after.contains_key(id)
            && after[id] == goal[id] by {
            if theirs.contains_key(id) {
                assert(ids@.contains(id));
                let j = choose|j: int| 0 <= j < ids@.len() && ids@[j] == id;
                assert(sessions@.contains_key(ids@[j]));
            } else {
                assert(mine.contains_key(id));
                assert(sessions@.contains_key(id));
            }
        }
        assert(after.dom() =~= goal.dom());
        assert(after =~= goal);
    }
}

/// The panes whose sessions are on the tab at `position`.
pub fn list_panes_on_tab(
    sessions: &BTreeMap<u32, SessionInfo>,
    position: usize,
) -> (panes: Vec<u32>)
    ensures
        panes@.to_set() == panes_on_tab(sessions_view(sessions@), position),
{
    let ghost views = sessions_view(sessions@);
    let ids = session_ids(sessions);
    let mut panes: Vec<u32> = Vec::new();
    let mut i: usize = 0;
    while i < ids.len()
        invariant
            i <= ids.len(),
            views == sessions_view(sessions@),
            forall|id: u32| #[trigger] ids@.contains(id) <==> sessions@.contains_key(id),
            forall|pane_id: u32| #[trigger]
                panes@.contains(pane_id) ==> panes_on_tab(views, position).contains(pane_id),
            forall|j: int|
                0 <= j < i && views[#[trigger] ids@[j]].tab_index == Some(position)
                    ==> panes@.contains(views[ids@[j]].pane_id),
        decreases ids.len() - i,
    {
        let id: u32 = ids[i];
        proof {
            assert(ids@.contains(id));
            assert(views.contains_key(id));
        }
        if let Some(session) = sessions.get(&id) {
            let here: bool = match session.tab_index {
                Some(index) => index == position,
                None => false,
            };
            if here {
                let ghost before = panes@;
                panes.push(session.pane_id);
                proof {
                    assert(panes@.last() == session.pane_id);
                    assert forall|p: u32| before.contains(p) implies #[trigger] panes@.contains(
                        p,
                    ) by {
                        let k = choose|k: int| 0 <= k < before.len() && before[k] == p;
                        assert(panes@[k] == p);
                    }
                    assert forall|p: u32| #[trigger] panes@.contains(p) implies before.contains(p)
                        || p == session.pane_id by {
                        let k = choose|k: int| 0 <= k < panes@.len() && panes@[k] == p;
                        if k < before.len() {
                            assert(before[k] == p);
                        }
                    }
                    assert(panes_on_tab(views, position).contains(session.pane_id)) by {
                        assert(views.contains_key(id) && views[id].tab_index == Some(position));
                    }
                }
            }
        }
        i += 1;
    }
    proof {
        assert forall|pane_id: u32| panes_on_tab(views, position).contains(
            pane_id,
        ) implies #[trigger] panes@.contains(pane_id) by {
            let id = choose|id: u32| #[trigger]
                views.contains_key(id) && views[id].tab_index == Some(position)
                    && views[id].pane_id == pane_id;
            assert(ids@.contains(id));
            let j = choose|j: int| 0 <= j < ids@.len() && ids@[j] == id;
            assert(views[ids@[j]].pane_id == pane_id);
        }
        assert(panes@.to_set() =~= panes_on_tab(views, position));
    }
    panes
}

/// Of two instances' sessions the newer one of each pane is kept, and none is lost.
pub proof fn law_merge_keeps_the_newest(
    mine: Map<u32, SessionView>,
    theirs: Map<u32, SessionView>,
    pane_to_tab: Map<u32, (usize, Seq<char>)>,
    id: u32,
)
    ensures
        ({
            let all = merged(mine, theirs, pane_to_tab);
            &&& all.contains_key(id) <==> mine.contains_key(id) || theirs.contains_key(id)
            &&& mine.contains_key(id) ==> all[id].last_event_ts >= mine[id].last_event_ts
            &&& theirs.contains_key(id) ==> all[id].last_event_ts >= theirs[id].last_event_ts
            &&& all.contains_key(id) ==> (mine.contains_key(id) && all[id] == mine[id]) || (
            theirs.contains_key(id) && all[id] == located(
                theirs[id],
                pane_to_tab,
                id,
            ))
        }),
{
}

/// Taking over the same sessions a second time changes nothing.
pub proof fn law_merging_twice_is_merging_once(
    mine: Map<u32, SessionView>,
    theirs: Map<u32, SessionView>,
    pane_to_tab: Map<u32, (usize, Seq<char>)>,
)
    ensures
        merged(
            merged(mine, theirs, pane_to_tab),
            theirs,
            pane_to_tab,
        ) == merged(mine, theirs, pane_to_tab),
{
    let once = merged(mine, theirs, pane_to_tab);
    let twice = merged(once, theirs, pane_to_tab);
    assert forall|id: u32| #[trigger] twice.contains_key(id) implies twice[id] == once[id] by {
        law_merge_keeps_the_newest(mine, theirs, pane_to_tab, id);
    }
    assert(twice =~= once);
}

/// Two instances that take over each other's sessions end up with the same panes, each
/// as of the same time.
pub proof fn law_instances_converge(
    a: Map<u32, SessionView>,
    b: Map<u32, SessionView>,
    tabs_a: Map<u32, (usize, Seq<char>)>,
    tabs_b: Map<u32, (usize, Seq<char>)>,
    id: u32,
)
    ensures
        merged(a, b, tabs_a).contains_key(id) == merged(
            b,
            a,
            tabs_b,
        ).contains_key(id),
        merged(a, b, tabs_a).contains_key(id) ==> merged(
            a,
            b,
            tabs_a,
        )[id].last_event_ts == merged(b, a, tabs_b)[id].last_event_ts,
{
}

/// Giving sessions their tabs changes nothing but their tabs, and these only where the
/// session's pane is on a tab.
pub proof fn law_only_the_tab_of_a_session_changes(
    sessions: Map<u32, SessionView>,
    pane_to_tab: Map<u32, (usize, Seq<char>)>,
    id: u32,
)
    ensures
        ({
            let after = refreshed(sessions, pane_to_tab);
            &&& after.contains_key(id) <==> sessions.contains_key(id)
            &&& sessions.contains_key(id) ==> {
                let s = sessions[id];
                let t = after[id];
                &&& t.pane_id == s.pane_id
                &&& t.activity == s.activity
                &&& t.last_event_ts == s.last_event_ts
                &&& t.details == s.details
                &&& pane_to_tab.contains_key(s.pane_id) ==> t.tab_index == Some(
                    pane_to_tab[s.pane_id].0,
                ) && t.tab_name == Some(pane_to_tab[s.pane_id].1)
                &&& !pane_to_tab.contains_key(s.pane_id) ==> t.tab_index == s.tab_index
                    && t.tab_name == s.tab_name
            }
        }),
{
}

/// Merging takes over what is not known here, and what was sent with a later time, as it
/// was sent but for its tab, which is the one that the pane is on here if it is on one.
/// Anything else stays as it was, and nothing is lost.
pub proof fn law_merging_takes_over_what_is_newer(
    mine: Map<u32, SessionView>,
    theirs: Map<u32, SessionView>,
    pane_to_tab: Map<u32, (usize, Seq<char>)>,
    id: u32,
)
    ensures
        ({
            let all = merged(mine, theirs, pane_to_tab);
            &&& all.contains_key(id) <==> mine.contains_key(id) || theirs.contains_key(id)
            &&& theirs.contains_key(id) && (!mine.contains_key(id) || theirs[id].last_event_ts
                > mine[id].last_event_ts) ==> {
                let sent = theirs[id];
                let got = all[id];
                &&& got.pane_id == sent.pane_id
                &&& got.activity == sent.activity
                &&& got.last_event_ts == sent.last_event_ts
                &&& got.details == sent.details
                &&& pane_to_tab.contains_key(id) ==> got.tab_index == Some(pane_to_tab[id].0)
                    && got.tab_name == Some(pane_to_tab[id].1)
                &&& !pane_to_tab.contains_key(id) ==> got.tab_index == sent.tab_index
                    && got.tab_name == sent.tab_name
            }
            &&& mine.contains_key(id) && (!theirs.contains_key(id) || theirs[id].last_event_ts
                <= mine[id].last_event_ts) ==> all[id] == mine[id]
        }),
{
}

/// A session goes idle exactly when it has finished and that was `DONE_TIMEOUT` ago or
/// longer; nothing else of it changes.
pub proof fn law_finished_sessions_go_idle_in_time(session: SessionView, now: u64)
    ensures
        ({
            let after = settled(session, now);
            let over = (session.activity == ActivityView::Done || session.activity
                == ActivityView::AgentDone) && now >= session.last_event_ts + 30;
            &&& over <==> stale(session, now)
            &&& over ==> after.activity == ActivityView::Idle
            &&& !over ==> after.activity == session.activity
            &&& after.pane_id == session.pane_id
            &&& after.last_event_ts == session.last_event_ts
            &&& after.tab_index == session.tab_index
            &&& after.tab_name == session.tab_name
            &&& after.details == session.details
        }),
{
}

/// Elapsed time is shown exactly for a session that is not idle and was last heard of
/// `DONE_TIMEOUT` ago or longer.
pub proof fn law_elapsed_time_is_shown_of_what_goes_on(session: SessionView, now: u64)
    ensures
        shows_elapsed(session, now) <==> session.activity != ActivityView::Idle && now
            >= session.last_event_ts + 30,
{
}

/// The panes on a tab are those of the sessions that are on it.
pub proof fn law_panes_on_a_tab_are_its_sessions_panes(
    sessions: Map<u32, SessionView>,
    position: usize,
    pane_id: u32,
)
    ensures
        panes_on_tab(sessions, position).contains(pane_id) <==> exists|id: u32| #[trigger]
            sessions.contains_key(id) && sessions[id].pane_id == pane_id && sessions[id].tab_index
                == Some(position),
{
}

/// The view of a session leaves nothing out.
pub proof fn law_session_views_are_faithful(sessions: Map<u32, SessionInfo>, id: u32)
    ensures
        sessions_view(sessions).contains_key(id) <==> sessions.contains_key(id),
        sessions.contains_key(id) ==> {
            let s = sessions[id];
            let v = sessions_view(sessions)[id];
            &&& v.pane_id == s.pane_id
            &&& v.last_event_ts == s.last_event_ts
            &&& v.tab_index == s.tab_index
            &&& v.details == s.details@
            &&& s.tab_name is None ==> v.tab_name is None
            &&& s.tab_name is Some ==> v.tab_name == Some(s.tab_name->0@)
            &&& match s.activity {
                Activity::Idle => v.activity == ActivityView::Idle,
                Activity::Done => v.activity == ActivityView::Done,
                Activity::AgentDone => v.activity == ActivityView::AgentDone,
                Activity::Other(name) => v.activity == ActivityView::Other(name@),
            }
        },
{
}

} // verus!
