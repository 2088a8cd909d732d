//! What holds of the plugin as a whole, over any event or over many.

use vstd::prelude::*;

use crate::event::{ActionView, Clock, EventView, OutcomeView, PayloadView, PipeTopic};
use crate::model::{StateView, CONFIG_LOAD_MAX_ATTEMPTS, CONFIG_LOAD_RETRY_SECS};
use crate::settings::MenuAction;
use crate::tab_pane_map::{PaneView, TabView};
use crate::titles::RENAME_COOLDOWN_MS;

verus! {

/// A rename is among `actions`.
pub open spec fn renames_something(actions: Seq<ActionView>) -> bool {
    exists|k: int| 0 <= k < actions.len() && (#[trigger] actions[k]) is RenameTab
}

/// `action` is a rename of the tab at index `i`: the tab says that it is there, and the
/// new name is clean and not the one it has.
pub open spec fn renames_tab(action: ActionView, tabs: Seq<TabView>, i: int) -> bool {
    &&& 0 <= i < tabs.len()
    &&& tabs[i].position == i
    &&& action matches ActionView::RenameTab { tab, name } && tab == crate::titles::tab_number(
        tabs[i].position,
    ) && name != tabs[i].name && 0 < name.len() <= crate::text::MAX_TAB_TITLE && (forall|j: int|
        0 <= j < name.len() ==> !crate::text::control_code(#[trigger] name[j]))
}

/// `action` is such a rename of some tab.
pub open spec fn renames_some_tab(action: ActionView, tabs: Seq<TabView>) -> bool {
    exists|i: int| #[trigger] renames_tab(action, tabs, i)
}

/// The tab that one of the renames due is for.
pub(crate) proof fn lemma_renames_due(
    tabs: Seq<TabView>,
    n: int,
    titles: Map<u32, Seq<char>>,
    source: Map<usize, u32>,
    pending: Map<(Seq<char>, Seq<char>), u8>,
    k: int,
) -> (i: int)
    requires
        0 <= n <= tabs.len(),
        0 <= k < crate::titles::renames_due(tabs, n, titles, source, pending).len(),
    ensures
        0 <= i < n,
        ({
            let r = crate::titles::renames_due(tabs, n, titles, source, pending)[k];
            &&& crate::titles::due(tabs[i], i, titles, source, pending) == Some(r.desired)
            &&& r.observed == tabs[i].name
            &&& r.tab == crate::titles::tab_number(tabs[i].position)
        }),
    decreases n,
{
    let before = crate::titles::renames_due(tabs, n - 1, titles, source, pending);
    if k < before.len() {
        lemma_renames_due(tabs, n - 1, titles, source, pending, k)
    } else {
        n - 1
    }
}

/// The titles, and the panes they are taken from, of a round over `manifest`.
pub(crate) proof fn lemma_round_maps(
    s0: StateView,
    manifest: Map<usize, Seq<PaneView>>,
    now_ms: u64,
    s1: StateView,
    actions: Seq<ActionView>,
) -> (maps: (Map<u32, Seq<char>>, Map<usize, u32>))
    requires
        crate::model::titles_mirrored(s0, manifest, now_ms, s1, actions),
    ensures
        crate::tab_pane_map::pane_titles(manifest, maps.0),
        crate::tab_pane_map::title_panes(manifest, s0.sessions, maps.1),
        crate::model::title_round(s0, maps.0, maps.1, now_ms) == (s1, actions),
{
    choose|titles: Map<u32, Seq<char>>, source: Map<usize, u32>|
        crate::tab_pane_map::pane_titles(manifest, titles) && crate::tab_pane_map::title_panes(
            manifest,
            s0.sessions,
            source,
        ) && #[trigger] crate::model::title_round(s0, titles, source, now_ms) == (s1, actions)
}

/// What mirroring titles sends out and how it moves the clock of the last batch.
pub(crate) proof fn lemma_titles_applied(
    s0: StateView,
    now_ms: u64,
    s1: StateView,
    actions: Seq<ActionView>,
)
    requires
        crate::model::titles_applied(s0, now_ms, s1, actions),
    ensures
        s1 == (StateView {
            pending_renames: s1.pending_renames,
            last_rename_ms: s1.last_rename_ms,
            ..s0
        }),
        forall|k: int|
            0 <= k < actions.len() ==> renames_some_tab(#[trigger] actions[k], s0.tabs),
        actions.len() > 0 ==> s0.settings.tab_titles && s1.last_rename_ms == now_ms && now_ms
            >= s0.last_rename_ms + RENAME_COOLDOWN_MS,
        actions.len() == 0 ==> s1.last_rename_ms == s0.last_rename_ms,
{
    if s0.settings.tab_titles && s0.pane_manifest is Some {
        let (titles, source) = lemma_round_maps(
            s0,
            s0.pane_manifest->0,
            now_ms,
            s1,
            actions,
        );
        let kept = crate::titles::retained(s0.pending_renames, s0.tabs);
        let n = s0.tabs.len() as int;
        assert forall|k: int| 0 <= k < actions.len() implies renames_some_tab(
            #[trigger] actions[k],
            s0.tabs,
        ) by {
            let i = lemma_renames_due(s0.tabs, n, titles, source, kept, k);
            crate::text::law_sanitized_is_clean(titles[source[s0.tabs[i].position]]);
            assert(renames_tab(actions[k], s0.tabs, i));
        }
    }
}

/// The setting that a click in column `col` changes, if it changes one.
pub open spec fn setting_clicked(s: StateView, col: usize) -> Option<crate::settings::SettingKey> {
    if crate::click::in_stretch(s.prefix_click_region, col) || s.view_mode is Normal {
        None
    } else {
        match crate::click::menu_action_at(s.menu_click_regions, col) {
            Some(MenuAction::ToggleSetting(key)) => Some(key),
            _ => None,
        }
    }
}

/// The state from which `event` has titles mirrored onto the tabs, if it has, with the
/// panes where `pane_to_tab` has them: new tabs or panes do, settings that arrive do, and
/// a setting that is changed does.
pub open spec fn mirrored_from(
    s0: StateView,
    event: EventView,
    pane_to_tab: Map<u32, (usize, Seq<char>)>,
) -> Option<StateView> {
    match event {
        EventView::TabUpdate(tabs) => if s0.pane_manifest is Some {
            Some(crate::model::relocated(crate::model::retabbed(s0, tabs), pane_to_tab))
        } else {
            None
        },
        EventView::PaneUpdate(manifest) => Some(
            crate::model::relocated(
                StateView { pane_manifest: Some(manifest), ..s0 },
                pane_to_tab,
            ),
        ),
        EventView::LeftClick(col) => match setting_clicked(s0, col) {
            Some(key) => Some(StateView { settings: s0.settings.toggled(key), ..s0 }),
            None => None,
        },
        EventView::RunCommandResult { exit_code, command, settings } => if command == Some(
            "load_config"@,
        ) && exit_code == Some(0i32) {
            Some(crate::model::configured(s0, settings))
        } else {
            None
        },
        _ => None,
    }
}

/// What `event` does besides renaming, where it has titles mirrored: it saves the settings
/// with the one that was changed.
pub open spec fn leading_actions(s0: StateView, event: EventView) -> Seq<ActionView> {
    match event {
        EventView::LeftClick(col) => match setting_clicked(s0, col) {
            Some(key) => crate::model::save_actions(s0.config_loaded, s0.settings.toggled(key)),
            None => Seq::empty(),
        },
        _ => Seq::empty(),
    }
}

/// The renames among what comes of an event, which are what mirroring titles sends out.
pub(crate) proof fn lemma_event_renames(
    s0: StateView,
    event: EventView,
    clock: Clock,
    s1: StateView,
    out: OutcomeView,
) -> (renames: Seq<ActionView>)
    requires
        crate::model::updated(s0, event, clock, s1, out),
    ensures
        match mirrored_from(s0, event, s1.pane_to_tab) {
            Some(s) => {
                &&& crate::model::titles_applied(s, clock.millis, s1, renames)
                &&& out.actions == leading_actions(s0, event) + renames
            },
            None => {
                &&& renames.len() == 0
                &&& s1.pending_renames == s0.pending_renames
                &&& s1.last_rename_ms == s0.last_rename_ms
            },
        },
        renames_something(out.actions) <==> renames.len() > 0,
        forall|k: int|
            0 <= k < out.actions.len() && (#[trigger] out.actions[k]) is RenameTab
                ==> renames.contains(out.actions[k]),
        forall|k: int|
            0 <= k < renames.len() ==> out.actions.contains(#[trigger] renames[k])
                && renames_some_tab(renames[k], s1.tabs),
{
    let entry = mirrored_from(s0, event, s1.pane_to_tab);
    let lead = leading_actions(s0, event);
    let renames = match event {
        EventView::LeftClick(col) => match setting_clicked(s0, col) {
            Some(key) => choose|renames: Seq<ActionView>|
                #![trigger crate::model::titles_applied(StateView { settings: s0.settings.toggled(key), ..s0 }, clock.millis, s1, renames)]
                crate::model::titles_applied(
                    StateView { settings: s0.settings.toggled(key), ..s0 },
                    clock.millis,
                    s1,
                    renames,
                ) && out.actions == lead + renames,
            None => Seq::empty(),
        },
        _ => if entry is Some {
            out.actions
        } else {
            Seq::empty()
        },
    };
    if let Some(s) = entry {
        assert(out.actions =~= lead + renames);
        lemma_titles_applied(s, clock.millis, s1, renames);
        assert forall|k: int| 0 <= k < renames.len() implies out.actions.contains(
            #[trigger] renames[k],
        ) && renames_some_tab(renames[k], s1.tabs) by {
            assert(out.actions[lead.len() + k] == renames[k]);
        }
        assert forall|k: int|
            0 <= k < out.actions.len() && (
            #[trigger] out.actions[k]) is RenameTab implies renames.contains(out.actions[k]) by {
            assert(k >= lead.len());
            assert(out.actions[k] == renames[k - lead.len()]);
        }
        if renames.len() > 0 {
            assert(renames_some_tab(renames[0], s1.tabs));
            assert(out.actions[lead.len() as int] is RenameTab);
        }
    }
    renames
}

/// What any event does to the renames and to what they rest on.
pub(crate) proof fn lemma_updated(
    s0: StateView,
    event: EventView,
    clock: Clock,
    s1: StateView,
    out: OutcomeView,
)
    requires
        crate::model::updated(s0, event, clock, s1, out),
    ensures
        forall|k: int|
            0 <= k < out.actions.len() && (#[trigger] out.actions[k]) is RenameTab
                ==> renames_some_tab(out.actions[k], s1.tabs),
        renames_something(out.actions) ==> s1.settings.tab_titles && s1.last_rename_ms
            == clock.millis && clock.millis >= s0.last_rename_ms + RENAME_COOLDOWN_MS,
        !renames_something(out.actions) ==> s1.last_rename_ms == s0.last_rename_ms,
        s1.tabs == (if event is TabUpdate {
            event->TabUpdate_0
        } else {
            s0.tabs
        }),
        s1.pane_manifest == manifest_after(s0, event),
        s0.config_loaded ==> s1.config_loaded,
        !(event is Timer) ==> s1.config_load_attempts == s0.config_load_attempts,
        forall|k: int|
            0 <= k < out.actions.len() && (#[trigger] out.actions[k]) is SaveConfig
                ==> s0.config_loaded,
        forall|k: int|
            0 <= k < out.actions.len() && (#[trigger] out.actions[k]) is LoadConfig
                ==> !s0.config_loaded,
{
    let renames = lemma_event_renames(s0, event, clock, s1, out);
    if let Some(s) = mirrored_from(s0, event, s1.pane_to_tab) {
        lemma_titles_applied(s, clock.millis, s1, renames);
        let lead = leading_actions(s0, event);
        assert forall|k: int| 0 <= k < out.actions.len() && k >= lead.len() implies (
        #[trigger] out.actions[k]) is RenameTab by {
            assert(out.actions[k] == renames[k - lead.len()]);
        }
    }
}

/// The panes that `event` leaves known, if any are.
pub open spec fn manifest_after(
    s0: StateView,
    event: EventView,
) -> Option<Map<usize, Seq<PaneView>>> {
    match event {
        EventView::PaneUpdate(manifest) => Some(manifest),
        _ => s0.pane_manifest,
    }
}

/// One event handled: the state before and after, and what came of it.
pub struct Handled {
    pub before: StateView,
    pub event: EventView,
    pub clock: Clock,
    pub after: StateView,
    pub out: OutcomeView,
}

/// A state whose tabs can all be addressed stays so.
pub proof fn law_update_keeps_well_formed(
    s0: StateView,
    event: EventView,
    clock: Clock,
    s1: StateView,
    out: OutcomeView,
)
    requires
        crate::model::well_formed(s0),
        crate::model::event_well_formed(s0, event),
        crate::model::updated(s0, event, clock, s1, out),
    ensures
        crate::model::well_formed(s1),
{
    lemma_updated(s0, event, clock, s1, out);
}

/// What new tabs or panes do to the sessions.
proof fn lemma_rebuilt(
    s0: StateView,
    event: EventView,
    clock: Clock,
    s1: StateView,
    out: OutcomeView,
)
    requires
        crate::model::updated(s0, event, clock, s1, out),
        event is TabUpdate || event is PaneUpdate,
    ensures
        s1.flash_deadlines == (match event {
            EventView::TabUpdate(tabs) => crate::model::retabbed(s0, tabs).flash_deadlines,
            _ => s0.flash_deadlines,
        }),
        s1.active_tab_index == (match event {
            EventView::TabUpdate(tabs) => crate::model::active_position(tabs),
            _ => s0.active_tab_index,
        }),
        s1.pane_manifest is Some ==> s1.sessions == crate::session::refreshed(
            s0.sessions,
            s1.pane_to_tab,
        ).restrict(s1.pane_to_tab.dom()),
{
    lemma_updated(s0, event, clock, s1, out);
    let renames = lemma_event_renames(s0, event, clock, s1, out);
    if let Some(s) = mirrored_from(s0, event, s1.pane_to_tab) {
        lemma_titles_applied(s, clock.millis, s1, renames);
    }
}

/// After new tabs or panes, every session left is on a terminal pane that is still
/// there, and no session on such a pane was lost. A session kept under its own pane's id
/// is on the tab, and has the tab's name, that the pane map says.
pub proof fn law_sessions_follow_their_panes(
    s0: StateView,
    event: EventView,
    clock: Clock,
    s1: StateView,
    out: OutcomeView,
    id: u32,
)
    requires
        crate::model::updated(s0, event, clock, s1, out),
        event is TabUpdate || event is PaneUpdate,
        s1.pane_manifest is Some,
    ensures
        s1.sessions.contains_key(id) <==> s0.sessions.contains_key(id)
            && crate::tab_pane_map::on_some_tab(s1.pane_manifest->0, id),
        s1.sessions.contains_key(id) && s1.sessions[id].pane_id == id ==> s1.pane_to_tab.contains_key(
            id,
        ) && s1.sessions[id].tab_index == Some(s1.pane_to_tab[id].0) && s1.sessions[id].tab_name
            == Some(s1.pane_to_tab[id].1),
{
    lemma_rebuilt(s0, event, clock, s1, out);
    lemma_updated(s0, event, clock, s1, out);
    assert(s1.pane_to_tab.contains_key(id) <==> crate::tab_pane_map::on_some_tab(
        s1.pane_manifest->0,
        id,
    ));
}

/// Going to another tab stops the flashes of the sessions there.
pub proof fn law_focus_stops_flashes(
    s0: StateView,
    tabs: Seq<TabView>,
    clock: Clock,
    s1: StateView,
    out: OutcomeView,
    id: u32,
)
    requires
        crate::model::updated(s0, EventView::TabUpdate(tabs), clock, s1, out),
        s1.active_tab_index is Some,
        s1.active_tab_index != s0.active_tab_index,
        s0.sessions.contains_key(id),
        s0.sessions[id].tab_index == s1.active_tab_index,
    ensures
        !s1.flash_deadlines.contains_key(s0.sessions[id].pane_id),
{
    lemma_rebuilt(s0, EventView::TabUpdate(tabs), clock, s1, out);
    let position = s1.active_tab_index->0;
    let pane_id = s0.sessions[id].pane_id;
    assert(crate::session::panes_on_tab(s0.sessions, position).contains(pane_id)) by {
        assert(s0.sessions.contains_key(id) && s0.sessions[id].tab_index == Some(position));
    }
}

/// The settings file is never written before it was read.
pub proof fn law_settings_are_not_saved_before_they_are_loaded(
    s0: StateView,
    event: EventView,
    clock: Clock,
    s1: StateView,
    out: OutcomeView,
    k: int,
)
    requires
        crate::model::updated(s0, event, clock, s1, out),
        0 <= k < out.actions.len(),
        out.actions[k] is SaveConfig,
    ensures
        s0.config_loaded,
{
    lemma_updated(s0, event, clock, s1, out);
}

/// Once the settings are loaded they stay so, and are not loaded again.
pub proof fn law_loading_stops_once_loaded(
    s0: StateView,
    event: EventView,
    clock: Clock,
    s1: StateView,
    out: OutcomeView,
    k: int,
)
    requires
        crate::model::updated(s0, event, clock, s1, out),
        s0.config_loaded,
    ensures
        s1.config_loaded,
        0 <= k < out.actions.len() ==> !(out.actions[k] is LoadConfig),
{
    lemma_updated(s0, event, clock, s1, out);
}

/// Settings that are saved are sent to the other instances first, and are those that are
/// in force afterwards.
pub proof fn law_saving_broadcasts_first(
    s0: StateView,
    event: EventView,
    clock: Clock,
    s1: StateView,
    out: OutcomeView,
    k: int,
)
    requires
        crate::model::updated(s0, event, clock, s1, out),
        0 <= k < out.actions.len(),
        out.actions[k] is SaveConfig,
    ensures
        out.actions[k] == ActionView::SaveConfig(s1.settings),
        k > 0,
        out.actions[k - 1] == ActionView::BroadcastSettings(s1.settings),
{
    let renames = lemma_event_renames(s0, event, clock, s1, out);
    if let Some(s) = mirrored_from(s0, event, s1.pane_to_tab) {
        lemma_titles_applied(s, clock.millis, s1, renames);
        let lead = leading_actions(s0, event);
        if k >= lead.len() {
            assert(out.actions[k] == renames[k - lead.len()]);
            assert(renames_some_tab(renames[k - lead.len()], s1.tabs));
        }
    }
}

/// A request is answered with the sessions as they are.
pub proof fn law_requests_are_answered(s: StateView, payload: PayloadView)
    ensures
        crate::model::piped(s, PipeTopic::Request, payload) == (
            s,
            (OutcomeView {
                actions: seq![ActionView::BroadcastSessions(s.sessions)],
                render: false,
            }),
        ),
{
}

/// The timer retries the load: `actions` hold a load.
pub open spec fn loads(actions: Seq<ActionView>) -> bool {
    exists|k: int| 0 <= k < actions.len() && (#[trigger] actions[k]) is LoadConfig
}

/// A retry of the load is counted, comes at least `CONFIG_LOAD_RETRY_SECS` after the
/// last, and only while the settings have not arrived.
pub proof fn law_load_retries_are_spaced(
    s0: StateView,
    clock: Clock,
    s1: StateView,
    out: OutcomeView,
)
    requires
        crate::model::updated(s0, EventView::Timer, clock, s1, out),
    ensures
        loads(out.actions) ==> !s0.config_loaded && clock.secs >= s0.last_config_load_ts
            + CONFIG_LOAD_RETRY_SECS && s1.last_config_load_ts == clock.secs
            && s1.config_load_attempts == s0.config_load_attempts + 1 && s1.config_load_attempts
            <= CONFIG_LOAD_MAX_ATTEMPTS,
        !loads(out.actions) ==> s1.config_load_attempts == s0.config_load_attempts
            && s1.last_config_load_ts == s0.last_config_load_ts,
{
    if crate::model::load_retry_due(s0, clock.secs) {
        assert(out.actions[0] is LoadConfig);
    } else {
        assert(out.actions =~= crate::model::timer_outcome(s0, clock).actions);
        assert(out.actions.len() == 1);
    }
}

/// How many of the first `n` events were timer events that retried the load.
pub open spec fn times_retried(run: Seq<Handled>, n: int) -> int
    decreases n,
{
    if n <= 0 {
        0
    } else {
        times_retried(run, n - 1) + (if run[n - 1].event is Timer && loads(
            run[n - 1].out.actions,
        ) {
            1int
        } else {
            0
        })
    }
}

/// Events handled one after the other. Between two of them anything may change but how
/// many load retries were counted.
pub open spec fn retries_counted_in_turn(run: Seq<Handled>) -> bool {
    &&& forall|k: int|
        0 <= k < run.len() ==> crate::model::updated(
            (#[trigger] run[k]).before,
            run[k].event,
            run[k].clock,
            run[k].after,
            run[k].out,
        )
    &&& forall|k: int, l: int|
        0 <= k < run.len() && l == k + 1 && l < run.len() ==> (
        #[trigger] run[l]).before.config_load_attempts == (
        #[trigger] run[k]).after.config_load_attempts
}

proof fn lemma_times_retried(run: Seq<Handled>, n: int)
    requires
        retries_counted_in_turn(run),
        0 < n <= run.len(),
    ensures
        times_retried(run, n) == run[n - 1].after.config_load_attempts
            - run[0].before.config_load_attempts,
        times_retried(run, n) > 0 ==> run[n - 1].after.config_load_attempts
            <= CONFIG_LOAD_MAX_ATTEMPTS,
    decreases n,
{
    let h = run[n - 1];
    lemma_updated(h.before, h.event, h.clock, h.after, h.out);
    if h.event is Timer {
        law_load_retries_are_spaced(h.before, h.clock, h.after, h.out);
    }
    if n > 1 {
        lemma_times_retried(run, n - 1);
        assert(run[n - 1].before.config_load_attempts == run[n - 2].after.config_load_attempts);
    } else {
        assert(times_retried(run, 0) == 0);
    }
}

/// Loading is given up in the end: over any run of events the timer retries it at most
/// `CONFIG_LOAD_MAX_ATTEMPTS` times.
pub proof fn law_load_retries_are_bounded(run: Seq<Handled>)
    requires
        retries_counted_in_turn(run),
    ensures
        times_retried(run, run.len() as int) <= CONFIG_LOAD_MAX_ATTEMPTS,
{
    if run.len() > 0 {
        lemma_times_retried(run, run.len() as int);
    }
}

/// A timer event leaves nothing for another at the same time: no session is stale and
/// no flash has run out, and the other changes neither sessions nor flashes.
pub proof fn law_timer_leaves_nothing_stale(s: StateView, clock: Clock)
    ensures
        !crate::model::any_stale(crate::model::timed(s, clock), clock.secs),
        !crate::flash::any_expired(crate::model::timed(s, clock).flash_deadlines, clock.millis),
        crate::model::timed(crate::model::timed(s, clock), clock).sessions == crate::model::timed(
            s,
            clock,
        ).sessions,
        crate::model::timed(crate::model::timed(s, clock), clock).flash_deadlines
            == crate::model::timed(s, clock).flash_deadlines,
{
    let once = crate::model::timed(s, clock);
    let twice = crate::model::timed(once, clock);
    assert forall|id: u32| #[trigger] once.sessions.contains_key(id) implies !crate::session::stale(
        once.sessions[id],
        clock.secs,
    ) by {
        assert(once.sessions[id] == crate::session::settled(s.sessions[id], clock.secs));
    }
    assert(twice.sessions =~= once.sessions);
    assert(twice.flash_deadlines =~= once.flash_deadlines);
}

/// A second click on the prefix undoes the first.
pub proof fn law_second_prefix_click_undoes_the_first(
    s0: StateView,
    col: usize,
    first: Clock,
    s1: StateView,
    out1: OutcomeView,
    second: Clock,
    s2: StateView,
    out2: OutcomeView,
)
    requires
        crate::click::in_stretch(s0.prefix_click_region, col),
        crate::model::updated(s0, EventView::LeftClick(col), first, s1, out1),
        crate::model::updated(s1, EventView::LeftClick(col), second, s2, out2),
    ensures
        s1 != s0,
        s2 == s0,
{
    assert(s1.view_mode != s0.view_mode);
}

/// A pipe message never sends out a rename or writes the settings file, and leaves
/// tabs, panes and the renames in flight alone.
pub proof fn law_messages_leave_tabs_alone(
    s: StateView,
    topic: PipeTopic,
    payload: PayloadView,
    k: int,
)
    ensures
        ({
            let (after, out) = crate::model::piped(s, topic, payload);
            &&& after == (StateView { settings: after.settings, sessions: after.sessions, ..s })
            &&& 0 <= k < out.actions.len() ==> !(out.actions[k] is RenameTab)
                && !(out.actions[k] is SaveConfig)
        }),
{
}

proof fn lemma_titles_applied_is_determined(
    s: StateView,
    now_ms: u64,
    a: StateView,
    actions_a: Seq<ActionView>,
    b: StateView,
    actions_b: Seq<ActionView>,
)
    requires
        crate::model::titles_applied(s, now_ms, a, actions_a),
        crate::model::titles_applied(s, now_ms, b, actions_b),
        s.pane_manifest matches Some(manifest) ==> crate::tab_pane_map::one_title_each(manifest),
    ensures
        a == b,
        actions_a == actions_b,
{
    if s.settings.tab_titles && s.pane_manifest is Some {
        let manifest = s.pane_manifest->0;
        let (titles_a, source_a) = lemma_round_maps(s, manifest, now_ms, a, actions_a);
        let (titles_b, source_b) = lemma_round_maps(s, manifest, now_ms, b, actions_b);
        crate::tab_pane_map::law_pane_titles_are_determined(manifest, titles_a, titles_b);
        crate::tab_pane_map::law_title_panes_are_determined(
            manifest,
            s.sessions,
            source_a,
            source_b,
        );
    } else {
        assert(actions_a =~= actions_b);
    }
}

/// The same event at the same time does the same to the same state, as long as no
/// terminal pane is reported on two tabs: no order of walking a map shows.
pub proof fn law_update_is_determined(
    s0: StateView,
    event: EventView,
    clock: Clock,
    a: StateView,
    out_a: OutcomeView,
    b: StateView,
    out_b: OutcomeView,
)
    requires
        crate::model::updated(s0, event, clock, a, out_a),
        crate::model::updated(s0, event, clock, b, out_b),
        manifest_after(s0, event) matches Some(manifest)
            ==> crate::tab_pane_map::each_on_one_tab(manifest),
    ensures
        a == b,
        out_a == out_b,
{
    let renames_a = lemma_event_renames(s0, event, clock, a, out_a);
    let renames_b = lemma_event_renames(s0, event, clock, b, out_b);
    if event is TabUpdate || event is PaneUpdate {
        if let Some(manifest) = manifest_after(s0, event) {
            let tabs = match event {
                EventView::TabUpdate(tabs) => tabs,
                _ => s0.tabs,
            };
            crate::tab_pane_map::law_pane_to_tab_map_is_determined(
                tabs,
                manifest,
                a.pane_to_tab,
                b.pane_to_tab,
            );
        }
    }
    match mirrored_from(s0, event, a.pane_to_tab) {
        Some(s) => {
            assert(mirrored_from(s0, event, b.pane_to_tab) == Some(s));
            lemma_titles_applied_is_determined(s, clock.millis, a, renames_a, b, renames_b);
            assert(out_a.actions =~= out_b.actions);
        },
        None => {
            assert(out_a.actions =~= out_b.actions);
        },
    }
}

} // verus!
