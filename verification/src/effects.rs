//! What each event and each message does, said field by field.

use vstd::prelude::*;

use crate::click::ViewMode;
use crate::event::{
    ActionView, Clock, EventView, InputMode, OutcomeView, PayloadView, PipeTopic, Tick,
};
use crate::model::StateView;
use crate::session::{ActivityView, SessionView};
use crate::settings::{MenuAction, SettingKey, Settings};
use crate::tab_pane_map::{PaneView, TabView};

verus! {

/// New tabs are taken over as they are, the bar is drawn again, and nothing is asked of
/// the host but renames. The focus is on the first active tab. Where it has moved to
/// another tab, exactly the flashes of the sessions there stop. As long as no panes are
/// known, nothing else changes; and settings, panes and what the bar shows never do.
pub proof fn law_what_new_tabs_do(
    s0: StateView,
    tabs: Seq<TabView>,
    clock: Clock,
    s1: StateView,
    out: OutcomeView,
    id: u32,
)
    requires
        crate::model::updated(s0, EventView::TabUpdate(tabs), clock, s1, out),
    ensures
        out.render,
        forall|k: int|
            0 <= k < out.actions.len() ==> (#[trigger] out.actions[k]) is RenameTab,
        s1 == (StateView {
            tabs,
            active_tab_index: s1.active_tab_index,
            flash_deadlines: s1.flash_deadlines,
            pane_to_tab: s1.pane_to_tab,
            sessions: s1.sessions,
            pending_renames: s1.pending_renames,
            last_rename_ms: s1.last_rename_ms,
            ..s0
        }),
        s0.pane_manifest is None ==> out.actions.len() == 0 && s1.pane_to_tab == s0.pane_to_tab
            && s1.sessions == s0.sessions && s1.pending_renames == s0.pending_renames
            && s1.last_rename_ms == s0.last_rename_ms,
        s1.flash_deadlines.contains_key(id) <==> s0.flash_deadlines.contains_key(id) && !(
        s1.active_tab_index is Some && s1.active_tab_index != s0.active_tab_index && exists|k: u32|
            #[trigger]
            s0.sessions.contains_key(k) && s0.sessions[k].pane_id == id && s0.sessions[k].tab_index
                == s1.active_tab_index),
        s1.flash_deadlines.contains_key(id) ==> s1.flash_deadlines[id] == s0.flash_deadlines[id],
{
    if s0.pane_manifest is Some {
        lemma_only_renames(s0, EventView::TabUpdate(tabs), clock, s1, out);
    }
    if s1.active_tab_index is Some {
        crate::session::law_panes_on_a_tab_are_its_sessions_panes(
            s0.sessions,
            s1.active_tab_index->0,
            id,
        );
    }
}

/// An event that only has titles mirrored asks for nothing but renames.
proof fn lemma_only_renames(
    s0: StateView,
    event: EventView,
    clock: Clock,
    s1: StateView,
    out: OutcomeView,
)
    requires
        crate::model::updated(s0, event, clock, s1, out),
        crate::laws::mirrored_from(s0, event, s1.pane_to_tab) is Some,
        crate::laws::leading_actions(s0, event).len() == 0,
    ensures
        forall|k: int|
            0 <= k < out.actions.len() ==> (#[trigger] out.actions[k]) is RenameTab,
        ({
            let s = crate::laws::mirrored_from(s0, event, s1.pane_to_tab)->0;
            s1 == (StateView {
                pending_renames: s1.pending_renames,
                last_rename_ms: s1.last_rename_ms,
                ..s
            })
        }),
{
    let renames = crate::laws::lemma_event_renames(s0, event, clock, s1, out);
    let s = crate::laws::mirrored_from(s0, event, s1.pane_to_tab)->0;
    crate::laws::lemma_titles_applied(s, clock.millis, s1, renames);
    assert forall|k: int| 0 <= k < out.actions.len() implies (
    #[trigger] out.actions[k]) is RenameTab by {
        assert(out.actions[k] == renames[k]);
        assert(crate::laws::renames_some_tab(renames[k], s1.tabs));
    }
}

/// The focus is on the first tab that is active, at the position that it reports, and
/// nowhere where none is.
pub proof fn law_the_first_active_tab_has_the_focus(
    s0: StateView,
    tabs: Seq<TabView>,
    clock: Clock,
    s1: StateView,
    out: OutcomeView,
    i: int,
)
    requires
        crate::model::updated(s0, EventView::TabUpdate(tabs), clock, s1, out),
    ensures
        0 <= i < tabs.len() && tabs[i].active && (forall|j: int|
            0 <= j < i ==> !(#[trigger] tabs[j]).active) ==> s1.active_tab_index == Some(
            tabs[i].position,
        ),
        (forall|j: int| 0 <= j < tabs.len() ==> !(#[trigger] tabs[j]).active)
            ==> s1.active_tab_index is None,
{
    law_what_new_tabs_do(s0, tabs, clock, s1, out, 0);
    let event = EventView::TabUpdate(tabs);
    if s0.pane_manifest is Some {
        lemma_only_renames(s0, event, clock, s1, out);
    }
    assert(s1.active_tab_index == crate::model::active_position(tabs));
    lemma_active_position(tabs, i);
}

proof fn lemma_active_position(tabs: Seq<TabView>, i: int)
    ensures
        0 <= i < tabs.len() && tabs[i].active && (forall|j: int|
            0 <= j < i ==> !(#[trigger] tabs[j]).active) ==> crate::model::active_position(tabs)
            == Some(tabs[i].position),
        (forall|j: int| 0 <= j < tabs.len() ==> !(#[trigger] tabs[j]).active)
            ==> crate::model::active_position(tabs) is None,
    decreases tabs.len(),
{
    if tabs.len() > 0 && !tabs[0].active {
        let rest = tabs.skip(1);
        lemma_active_position(rest, i - 1);
        assert(forall|j: int| 0 <= j < rest.len() ==> rest[j] == tabs[j + 1]);
        if 0 <= i < tabs.len() && tabs[i].active && (forall|j: int|
            0 <= j < i ==> !(#[trigger] tabs[j]).active) {
            assert(i > 0);
            assert forall|j: int| 0 <= j < i - 1 implies !(#[trigger] rest[j]).active by {
                assert(!tabs[j + 1].active);
            }
        }
        if forall|j: int| 0 <= j < tabs.len() ==> !(#[trigger] tabs[j]).active {
            assert forall|j: int| 0 <= j < rest.len() implies !(#[trigger] rest[j]).active by {
                assert(!tabs[j + 1].active);
            }
        }
    }
}

/// New panes are taken over as they are, the bar is drawn again, and nothing is asked of
/// the host but renames. Tabs, focus, flashes, settings and what the bar shows stay.
pub proof fn law_what_new_panes_do(
    s0: StateView,
    manifest: Map<usize, Seq<PaneView>>,
    clock: Clock,
    s1: StateView,
    out: OutcomeView,
)
    requires
        crate::model::updated(s0, EventView::PaneUpdate(manifest), clock, s1, out),
    ensures
        out.render,
        forall|k: int|
            0 <= k < out.actions.len() ==> (#[trigger] out.actions[k]) is RenameTab,
        s1 == (StateView {
            pane_manifest: Some(manifest),
            pane_to_tab: s1.pane_to_tab,
            sessions: s1.sessions,
            pending_renames: s1.pending_renames,
            last_rename_ms: s1.last_rename_ms,
            ..s0
        }),
{
    lemma_only_renames(s0, EventView::PaneUpdate(manifest), clock, s1, out);
}

/// After new tabs or panes the sessions left are those whose key is a terminal pane that
/// some tab lists. Each is as it was, but for its tab; and that too stays, unless its pane
/// is in the pane map, where it is what the map has.
pub proof fn law_sessions_keep_all_but_their_tab(
    s0: StateView,
    event: EventView,
    clock: Clock,
    s1: StateView,
    out: OutcomeView,
    id: u32,
)
    requires
        crate::model::updated(s0, event, clock, s1, out),
        event is TabUpdate || event is PaneUpdate,
        s1.pane_manifest is Some,
    ensures
        s1.sessions.contains_key(id) <==> s0.sessions.contains_key(id)
            && s1.pane_to_tab.contains_key(id),
        s1.sessions.contains_key(id) ==> {
            let before = s0.sessions[id];
            let after = s1.sessions[id];
            &&& after.pane_id == before.pane_id
            &&& after.activity == before.activity
            &&& after.last_event_ts == before.last_event_ts
            &&& after.details == before.details
            &&& s1.pane_to_tab.contains_key(before.pane_id) ==> after.tab_index == Some(
                s1.pane_to_tab[before.pane_id].0,
            ) && after.tab_name == Some(s1.pane_to_tab[before.pane_id].1)
            &&& !s1.pane_to_tab.contains_key(before.pane_id) ==> after.tab_index
                == before.tab_index && after.tab_name == before.tab_name
        },
{
    crate::laws::lemma_updated(s0, event, clock, s1, out);
    lemma_only_renames(s0, event, clock, s1, out);
    crate::session::law_only_the_tab_of_a_session_changes(s0.sessions, s1.pane_to_tab, id);
}

/// After new tabs or panes the pane map holds exactly the terminal panes that some tab
/// lists, each with a tab that lists it, and with the name that the last tab reported at
/// that position has, or no name where none is reported there.
pub proof fn law_the_pane_map_is_what_tabs_list(
    s0: StateView,
    event: EventView,
    clock: Clock,
    s1: StateView,
    out: OutcomeView,
    id: u32,
)
    requires
        crate::model::updated(s0, event, clock, s1, out),
        event is TabUpdate || event is PaneUpdate,
        s1.pane_manifest is Some,
    ensures
        ({
            let manifest = s1.pane_manifest->0;
            let map = s1.pane_to_tab;
            &&& map.contains_key(id) <==> exists|p: usize, k: int|
                #![trigger manifest[p][k]]
                manifest.contains_key(p) && 0 <= k < manifest[p].len() && !manifest[p][k].is_plugin
                    && manifest[p][k].id == id
            &&& map.contains_key(id) ==> manifest.contains_key(map[id].0) && exists|k: int|
                0 <= k < manifest[map[id].0].len() && !(
                #[trigger] manifest[map[id].0][k]).is_plugin && manifest[map[id].0][k].id == id
            &&& map.contains_key(id) ==> (map[id].1.len() == 0 && forall|j: int|
                0 <= j < s1.tabs.len() ==> (#[trigger] s1.tabs[j]).position != map[id].0)
                || exists|j: int|
                0 <= j < s1.tabs.len() && (#[trigger] s1.tabs[j]).position == map[id].0
                    && s1.tabs[j].name == map[id].1 && forall|l: int|
                    j < l < s1.tabs.len() ==> (#[trigger] s1.tabs[l]).position != map[id].0
        }),
{
    crate::laws::lemma_updated(s0, event, clock, s1, out);
    crate::tab_pane_map::law_panes_are_mapped_to_the_tabs_that_list_them(
        s1.tabs,
        s1.pane_manifest->0,
        s1.pane_to_tab,
        id,
    );
}

/// A new input mode is taken over, and a session name if there is one; nothing else
/// changes, and the bar is drawn again.
pub proof fn law_what_a_new_mode_does(
    s0: StateView,
    mode: InputMode,
    session_name: Option<Seq<char>>,
    clock: Clock,
    s1: StateView,
    out: OutcomeView,
)
    requires
        crate::model::updated(s0, EventView::ModeUpdate { mode, session_name }, clock, s1, out),
    ensures
        out.render,
        out.actions.len() == 0,
        s1.input_mode == mode,
        session_name is Some ==> s1.zellij_session_name == session_name,
        session_name is None ==> s1.zellij_session_name == s0.zellij_session_name,
        s1 == (StateView {
            input_mode: s1.input_mode,
            zellij_session_name: s1.zellij_session_name,
            ..s0
        }),
{
}

/// A click on the bar's prefix switches between sessions and settings and does nothing
/// else, whatever else is there.
pub proof fn law_what_a_click_on_the_prefix_does(
    s0: StateView,
    col: usize,
    clock: Clock,
    s1: StateView,
    out: OutcomeView,
)
    requires
        crate::model::updated(s0, EventView::LeftClick(col), clock, s1, out),
        s0.prefix_click_region is Some,
        (s0.prefix_click_region->0).0 <= col,
        col < (s0.prefix_click_region->0).1,
    ensures
        out.render,
        out.actions.len() == 0,
        s0.view_mode == ViewMode::Normal ==> s1.view_mode == ViewMode::Settings,
        s0.view_mode == ViewMode::Settings ==> s1.view_mode == ViewMode::Normal,
        s1 == (StateView { view_mode: s1.view_mode, ..s0 }),
{
}

/// Off the prefix, with the sessions on show, a click goes to the first session whose
/// columns it is in: to its pane if it waits, to its tab if not. Nothing changes, nothing
/// is drawn, and a click in no session's columns does nothing at all.
pub proof fn law_what_a_click_on_a_session_does(
    s0: StateView,
    col: usize,
    clock: Clock,
    s1: StateView,
    out: OutcomeView,
    i: int,
)
    requires
        crate::model::updated(s0, EventView::LeftClick(col), clock, s1, out),
        s0.view_mode == ViewMode::Normal,
        s0.prefix_click_region is None || col < (s0.prefix_click_region->0).0
            || (s0.prefix_click_region->0).1 <= col,
    ensures
        s1 == s0,
        !out.render,
        0 <= i < s0.click_regions.len() && s0.click_regions[i].start_col <= col && col
            < s0.click_regions[i].end_col && (forall|j: int|
            0 <= j < i ==> !((#[trigger] s0.click_regions[j]).start_col <= col && col
                < s0.click_regions[j].end_col)) ==> {
            &&& out.actions.len() == 1
            &&& s0.click_regions[i].is_waiting ==> out.actions[0] == ActionView::FocusPane(
                s0.click_regions[i].pane_id,
            )
            &&& !s0.click_regions[i].is_waiting && s0.click_regions[i].tab_index < u32::MAX
                ==> out.actions[0] == ActionView::SwitchTab(
                (s0.click_regions[i].tab_index + 1) as u32,
            )
        },
        (forall|j: int|
            0 <= j < s0.click_regions.len() ==> !((#[trigger] s0.click_regions[j]).start_col <= col
                && col < s0.click_regions[j].end_col)) ==> out.actions.len() == 0,
{
    let k = crate::click::law_a_click_is_on_the_first_session_there(s0.click_regions, col);
    if 0 <= i < s0.click_regions.len() && s0.click_regions[i].start_col <= col && col
        < s0.click_regions[i].end_col && (forall|j: int|
        0 <= j < i ==> !((#[trigger] s0.click_regions[j]).start_col <= col && col
            < s0.click_regions[j].end_col)) {
        if crate::click::region_at(s0.click_regions, col) is Some {
            assert(s0.click_regions[k].start_col <= col);
            assert(i == k);
        }
        if s0.click_regions[i].tab_index < u32::MAX {
            crate::titles::law_tabs_are_numbered_from_one(s0.click_regions[i].tab_index);
        }
    }
}

/// Off the prefix, with the settings on show, a click acts on the first menu entry whose
/// columns it is in. The closing entry goes back to the sessions and does nothing else. A
/// setting changes, and no other; the settings as they are then are sent out and saved if
/// the file was read; and renames may follow, nothing else. A click in no entry's columns
/// does nothing at all.
pub proof fn law_what_a_click_in_the_menu_does(
    s0: StateView,
    col: usize,
    clock: Clock,
    s1: StateView,
    out: OutcomeView,
    i: int,
)
    requires
        crate::model::updated(s0, EventView::LeftClick(col), clock, s1, out),
        s0.view_mode == ViewMode::Settings,
        s0.prefix_click_region is None || col < (s0.prefix_click_region->0).0
            || (s0.prefix_click_region->0).1 <= col,
    ensures
        0 <= i < s0.menu_click_regions.len() && s0.menu_click_regions[i].start_col <= col && col
            < s0.menu_click_regions[i].end_col && (forall|j: int|
            0 <= j < i ==> !((#[trigger] s0.menu_click_regions[j]).start_col <= col && col
                < s0.menu_click_regions[j].end_col)) ==> {
            &&& out.render
            &&& s0.menu_click_regions[i].action == MenuAction::CloseMenu ==> {
                &&& s1 == (StateView { view_mode: ViewMode::Normal, ..s0 })
                &&& out.actions.len() == 0
            }
            &&& s0.menu_click_regions[i].action matches MenuAction::ToggleSetting(key) ==> {
                &&& s1 == (StateView {
                    settings: s1.settings,
                    pending_renames: s1.pending_renames,
                    last_rename_ms: s1.last_rename_ms,
                    ..s0
                })
                &&& changed(s0.settings, key, s1.settings)
                &&& s0.config_loaded ==> {
                    &&& out.actions.len() >= 2
                    &&& out.actions[0] == ActionView::BroadcastSettings(s1.settings)
                    &&& out.actions[1] == ActionView::SaveConfig(s1.settings)
                    &&& forall|k: int|
                        2 <= k < out.actions.len() ==> (#[trigger] out.actions[k]) is RenameTab
                }
                &&& !s0.config_loaded ==> forall|k: int|
                    0 <= k < out.actions.len() ==> (#[trigger] out.actions[k]) is RenameTab
            }
        },
        (forall|j: int|
            0 <= j < s0.menu_click_regions.len() ==> !((
            #[trigger] s0.menu_click_regions[j]).start_col <= col && col
                < s0.menu_click_regions[j].end_col)) ==> s1 == s0 && !out.render
            && out.actions.len() == 0,
{
    let regions = s0.menu_click_regions;
    let k = crate::click::law_a_click_is_on_the_first_entry_there(regions, col);
    if 0 <= i < regions.len() && regions[i].start_col <= col && col < regions[i].end_col && (forall|
        j: int,
    |
        0 <= j < i ==> !((#[trigger] regions[j]).start_col <= col && col < regions[j].end_col)) {
        if crate::click::menu_action_at(regions, col) is Some {
            assert(regions[k].start_col <= col);
            assert(i == k);
        }
        if let MenuAction::ToggleSetting(key) = regions[i].action {
            let event = EventView::LeftClick(col);
            let renames = crate::laws::lemma_event_renames(s0, event, clock, s1, out);
            let s = crate::laws::mirrored_from(s0, event, s1.pane_to_tab)->0;
            crate::laws::lemma_titles_applied(s, clock.millis, s1, renames);
            crate::settings::law_a_click_changes_one_setting(s0.settings, key);
            let lead = crate::laws::leading_actions(s0, event);
            assert forall|k: int| lead.len() <= k < out.actions.len() implies (
            #[trigger] out.actions[k]) is RenameTab by {
                assert(out.actions[k] == renames[k - lead.len()]);
                assert(crate::laws::renames_some_tab(renames[k - lead.len()], s1.tabs));
            }
        }
    }
}

/// `t` is `s` with the setting `key` changed and no other: switched if it is on or off,
/// and else gone to its next mode, or from the last to the first.
pub open spec fn changed(s: Settings, key: SettingKey, t: Settings) -> bool {
    &&& t.elapsed_time == (s.elapsed_time != (key == SettingKey::ElapsedTime))
    &&& t.mode_indicator == (s.mode_indicator != (key == SettingKey::ModeIndicator))
    &&& t.tab_titles == (s.tab_titles != (key == SettingKey::TabTitles))
    &&& t.notifications.modes == s.notifications.modes
    &&& t.flash.modes == s.flash.modes
    &&& key != SettingKey::Notifications ==> t.notifications == s.notifications
    &&& key != SettingKey::Flash ==> t.flash == s.flash
    &&& key == SettingKey::Notifications && s.notifications.mode + 1 < s.notifications.modes
        ==> t.notifications.mode == s.notifications.mode + 1
    &&& key == SettingKey::Notifications && s.notifications.mode + 1 >= s.notifications.modes
        ==> t.notifications.mode == 0
    &&& key == SettingKey::Flash && s.flash.mode + 1 < s.flash.modes ==> t.flash.mode
        == s.flash.mode + 1
    &&& key == SettingKey::Flash && s.flash.mode + 1 >= s.flash.modes ==> t.flash.mode == 0
}

/// When the load command has ended well, the settings in force are those that its output
/// reads as, in every field, or those before where it reads as none; they count as loaded
/// either way; the bar is drawn again; and renames may follow, nothing else.
pub proof fn law_loaded_settings_are_in_force(
    s0: StateView,
    settings: Option<Settings>,
    clock: Clock,
    s1: StateView,
    out: OutcomeView,
)
    requires
        crate::model::updated(
            s0,
            EventView::RunCommandResult {
                exit_code: Some(0),
                command: Some("load_config"@),
                settings,
            },
            clock,
            s1,
            out,
        ),
    ensures
        settings is Some ==> s1.settings == settings->0,
        settings is None ==> s1.settings == s0.settings,
        s1.config_loaded,
        out.render,
        forall|k: int|
            0 <= k < out.actions.len() ==> (#[trigger] out.actions[k]) is RenameTab,
        s1 == (StateView {
            settings: s1.settings,
            config_loaded: true,
            pending_renames: s1.pending_renames,
            last_rename_ms: s1.last_rename_ms,
            ..s0
        }),
{
    let event = EventView::RunCommandResult {
        exit_code: Some(0),
        command: Some("load_config"@),
        settings,
    };
    lemma_only_renames(s0, event, clock, s1, out);
}

/// When the install command has ended, well or not, the hooks count as installed, and
/// nothing else changes. The end of any other command, and of a load command that failed,
/// changes nothing. Neither asks for anything.
pub proof fn law_what_the_end_of_another_command_does(
    s0: StateView,
    exit_code: Option<i32>,
    command: Option<Seq<char>>,
    settings: Option<Settings>,
    clock: Clock,
    s1: StateView,
    out: OutcomeView,
)
    requires
        crate::model::updated(
            s0,
            EventView::RunCommandResult { exit_code, command, settings },
            clock,
            s1,
            out,
        ),
        command != Some("load_config"@) || exit_code != Some(0i32),
    ensures
        !out.render,
        out.actions.len() == 0,
        command == Some("install_hooks"@) ==> s1 == (StateView { hooks_installed: true, ..s0 }),
        command != Some("install_hooks"@) ==> s1 == s0,
{
}

/// What the timer does to the state: a finished session is idle once it has been so for
/// `DONE_TIMEOUT`, a flash is gone once its deadline is there, and a load that is due is
/// counted. Nothing else changes.
pub proof fn law_what_the_timer_changes(
    s0: StateView,
    clock: Clock,
    s1: StateView,
    out: OutcomeView,
    id: u32,
)
    requires
        crate::model::updated(s0, EventView::Timer, clock, s1, out),
    ensures
        s1 == (StateView {
            sessions: s1.sessions,
            flash_deadlines: s1.flash_deadlines,
            config_load_attempts: s1.config_load_attempts,
            last_config_load_ts: s1.last_config_load_ts,
            ..s0
        }),
        s1.sessions.contains_key(id) <==> s0.sessions.contains_key(id),
        s0.sessions.contains_key(id) ==> {
            let over = (s0.sessions[id].activity == ActivityView::Done || s0.sessions[id].activity
                == ActivityView::AgentDone) && clock.secs >= s0.sessions[id].last_event_ts + 30;
            &&& over ==> s1.sessions[id] == (SessionView {
                activity: ActivityView::Idle,
                ..s0.sessions[id]
            })
            &&& !over ==> s1.sessions[id] == s0.sessions[id]
        },
        s1.flash_deadlines.contains_key(id) <==> s0.flash_deadlines.contains_key(id)
            && s0.flash_deadlines[id] > clock.millis,
        s1.flash_deadlines.contains_key(id) ==> s1.flash_deadlines[id] == s0.flash_deadlines[id],
        ({
            let load = !s0.config_loaded && s0.config_load_attempts < 12 && clock.secs
                >= s0.last_config_load_ts + 5;
            &&& load ==> s1.config_load_attempts == s0.config_load_attempts + 1
                && s1.last_config_load_ts == clock.secs
            &&& !load ==> s1.config_load_attempts == s0.config_load_attempts
                && s1.last_config_load_ts == s0.last_config_load_ts
        }),
{
    if s0.sessions.contains_key(id) {
        crate::session::law_finished_sessions_go_idle_in_time(s0.sessions[id], clock.secs);
    }
    crate::flash::law_a_flash_is_on_until_its_deadline(s0.flash_deadlines, clock.millis, id);
}

/// What the timer asks for: a load if one is due, and then the next timer, soon exactly if
/// some flash is still on.
pub proof fn law_what_the_timer_asks_for(
    s0: StateView,
    clock: Clock,
    s1: StateView,
    out: OutcomeView,
)
    requires
        crate::model::updated(s0, EventView::Timer, clock, s1, out),
    ensures
        ({
            let load = !s0.config_loaded && s0.config_load_attempts < 12 && clock.secs
                >= s0.last_config_load_ts + 5;
            let flashing = exists|id: u32| #[trigger]
                s0.flash_deadlines.contains_key(id) && s0.flash_deadlines[id] > clock.millis;
            let next = ActionView::SetTimeout(
                if flashing {
                    Tick::Flash
                } else {
                    Tick::Normal
                },
            );
            &&& load ==> out.actions == seq![ActionView::LoadConfig, next]
            &&& !load ==> out.actions == seq![next]
        }),
{
    assert(crate::flash::any_unexpired(s0.flash_deadlines, clock.millis) <==> exists|id: u32|
        #[trigger]
        s0.flash_deadlines.contains_key(id) && s0.flash_deadlines[id] > clock.millis);
}

/// The timer has the bar drawn again exactly where there is something new to see: some
/// flash is on or has just run out, some session has just gone idle, or elapsed time is
/// switched on and some session is not idle, and was last heard of `DONE_TIMEOUT` ago or
/// longer.
pub proof fn law_when_the_timer_draws(s0: StateView, clock: Clock, s1: StateView, out: OutcomeView)
    requires
        crate::model::updated(s0, EventView::Timer, clock, s1, out),
    ensures
        out.render <==> {
            ||| exists|id: u32| #[trigger] s0.flash_deadlines.contains_key(id)
            ||| exists|id: u32| #[trigger]
                s0.sessions.contains_key(id) && s1.sessions[id].activity
                    != s0.sessions[id].activity
            ||| s0.settings.elapsed_time && exists|id: u32| #[trigger]
                s0.sessions.contains_key(id) && s1.sessions[id].activity != ActivityView::Idle
                    && clock.secs >= s0.sessions[id].last_event_ts + 30
        },
{
    let timed = crate::model::timed(s0, clock);
    assert(forall|id: u32|
        timed.sessions.contains_key(id) <==> #[trigger] s0.sessions.contains_key(id));
    if exists|id: u32| #[trigger] s0.flash_deadlines.contains_key(id) {
        let id = choose|id: u32| #[trigger] s0.flash_deadlines.contains_key(id);
        crate::flash::law_a_flash_is_on_until_its_deadline(s0.flash_deadlines, clock.millis, id);
    }
    let told = crate::flash::law_a_flash_that_is_told_of_is_there(
        s0.flash_deadlines,
        clock.millis,
    );
    assert forall|id: u32| #[trigger] s0.sessions.contains_key(id) implies (
    s1.sessions[id].activity != s0.sessions[id].activity <==> crate::session::stale(
        s0.sessions[id],
        clock.secs,
    )) && s1.sessions[id].last_event_ts == s0.sessions[id].last_event_ts by {
        law_what_the_timer_changes(s0, clock, s1, out, id);
        crate::session::law_finished_sessions_go_idle_in_time(s0.sessions[id], clock.secs);
    }
    assert(crate::model::elapsed_displayed(timed, clock.secs) <==> s0.settings.elapsed_time
        && exists|id: u32| #[trigger]
        s0.sessions.contains_key(id) && s1.sessions[id].activity != ActivityView::Idle
            && clock.secs >= s0.sessions[id].last_event_ts + 30) by {
        if crate::model::elapsed_displayed(timed, clock.secs) {
            let id = choose|id: u32| #[trigger]
                timed.sessions.contains_key(id) && crate::session::shows_elapsed(
                    timed.sessions[id],
                    clock.secs,
                );
            assert(s0.sessions.contains_key(id));
        }
        if exists|id: u32| #[trigger]
            s0.sessions.contains_key(id) && s1.sessions[id].activity != ActivityView::Idle
                && clock.secs >= s0.sessions[id].last_event_ts + 30 {
            let id = choose|id: u32| #[trigger]
                s0.sessions.contains_key(id) && s1.sessions[id].activity != ActivityView::Idle
                    && clock.secs >= s0.sessions[id].last_event_ts + 30;
            assert(timed.sessions.contains_key(id));
        }
    }
}

/// An answer to the permission request makes the bar unselectable, asks other instances
/// for their sessions, loads the settings unless they are there, and installs the hooks
/// unless they are, in this order. An event of no interest does nothing. Neither changes
/// anything or has the bar drawn.
pub proof fn law_what_permission_leads_to(
    s0: StateView,
    clock: Clock,
    event: EventView,
    s1: StateView,
    out: OutcomeView,
)
    requires
        crate::model::updated(s0, event, clock, s1, out),
        event is PermissionRequestResult || event is Other,
    ensures
        s1 == s0,
        !out.render,
        event is Other ==> out.actions.len() == 0,
        event is PermissionRequestResult ==> {
            let first = ActionView::SetSelectable(false);
            let second = ActionView::RequestSync;
            &&& !s0.config_loaded && !s0.hooks_installed ==> out.actions == seq![
                first,
                second,
                ActionView::LoadConfig,
                ActionView::InstallHooks,
            ]
            &&& !s0.config_loaded && s0.hooks_installed ==> out.actions == seq![
                first,
                second,
                ActionView::LoadConfig,
            ]
            &&& s0.config_loaded && !s0.hooks_installed ==> out.actions == seq![
                first,
                second,
                ActionView::InstallHooks,
            ]
            &&& s0.config_loaded && s0.hooks_installed ==> out.actions == seq![first, second]
        },
{
}

/// After a message with another instance's sessions, whatever is known here: every session
/// known or sent is known; one that was not known, or was sent with a later time, is as it
/// was sent, but for its tab, which is the one that the pane is on here if it is on one;
/// any other is as it was. Nothing else changes, nothing is asked for, and the bar is
/// drawn again.
pub proof fn law_sessions_that_are_sent_are_taken_over(
    s: StateView,
    incoming: Map<u32, SessionView>,
    id: u32,
)
    ensures
        ({
            let (after, out) = crate::model::piped(
                s,
                crate::event::topic_of("zellaude:sync"@),
                PayloadView::Sessions(incoming),
            );
            &&& out.render
            &&& out.actions.len() == 0
            &&& after == (StateView { sessions: after.sessions, ..s })
            &&& after.sessions.contains_key(id) <==> s.sessions.contains_key(id)
                || incoming.contains_key(id)
            &&& incoming.contains_key(id) && (!s.sessions.contains_key(id)
                || incoming[id].last_event_ts > s.sessions[id].last_event_ts) ==> {
                let sent = incoming[id];
                let got = after.sessions[id];
                &&& got.pane_id == sent.pane_id
                &&& got.activity == sent.activity
                &&& got.last_event_ts == sent.last_event_ts
                &&& got.details == sent.details
                &&& s.pane_to_tab.contains_key(id) ==> got.tab_index == Some(s.pane_to_tab[id].0)
                    && got.tab_name == Some(s.pane_to_tab[id].1)
                &&& !s.pane_to_tab.contains_key(id) ==> got.tab_index == sent.tab_index
                    && got.tab_name == sent.tab_name
            }
            &&& s.sessions.contains_key(id) && (!incoming.contains_key(id)
                || incoming[id].last_event_ts <= s.sessions[id].last_event_ts)
                ==> after.sessions[id] == s.sessions[id]
        }),
{
    crate::event::law_messages_are_told_by_their_names(Seq::empty());
    crate::session::law_merging_takes_over_what_is_newer(s.sessions, incoming, s.pane_to_tab, id);
}

/// After a message with another instance's settings those are in force, in every field;
/// nothing else changes, nothing is asked for, and the bar is drawn again.
pub proof fn law_settings_that_are_sent_are_in_force(s: StateView, settings: Settings)
    ensures
        ({
            let (after, out) = crate::model::piped(
                s,
                crate::event::topic_of("zellaude:settings"@),
                PayloadView::Settings(settings),
            );
            &&& after == (StateView { settings, ..s })
            &&& out.render
            &&& out.actions.len() == 0
        }),
{
    crate::event::law_messages_are_told_by_their_names(Seq::empty());
}

/// A request is answered with all the sessions as they are, whatever came with it, and
/// changes nothing.
pub proof fn law_a_request_is_answered_with_the_sessions(s: StateView, payload: PayloadView)
    ensures
        ({
            let (after, out) = crate::model::piped(
                s,
                crate::event::topic_of("zellaude:request"@),
                payload,
            );
            &&& after == s
            &&& !out.render
            &&& out.actions == seq![ActionView::BroadcastSessions(s.sessions)]
        }),
{
    crate::event::law_messages_are_told_by_their_names(Seq::empty());
}

/// A hook event that can be read is handed on, and the bar is drawn again; nothing changes
/// by that alone.
pub proof fn law_a_hook_event_is_handed_on(s: StateView)
    ensures
        ({
            let (after, out) = crate::model::piped(
                s,
                crate::event::topic_of("zellaude"@),
                PayloadView::Hook,
            );
            &&& after == s
            &&& out.render
            &&& out.actions == seq![ActionView::HandleHook]
        }),
{
    crate::event::law_messages_are_told_by_their_names(Seq::empty());
}

/// A focus message with a number, and any white space around it, focuses the pane with
/// that number and does nothing else. One whose text without the white space around it is
/// no number does nothing.
pub proof fn law_a_focus_message_names_a_pane(
    s: StateView,
    before: Seq<char>,
    text: Seq<char>,
    after_text: Seq<char>,
)
    requires
        forall|i: int|
            0 <= i < before.len() ==> crate::text::white_space(#[trigger] before[i]),
        forall|i: int|
            0 <= i < after_text.len() ==> crate::text::white_space(#[trigger] after_text[i]),
        text.len() > 0 ==> !crate::text::white_space(text[0]) && !crate::text::white_space(
            text[text.len() - 1],
        ),
    ensures
        ({
            let (after, out) = crate::model::piped(
                s,
                crate::event::topic_of("zellaude:focus"@),
                PayloadView::Text(before + text + after_text),
            );
            &&& after == s
            &&& !out.render
            &&& match crate::text::parsed_u32(text) {
                Some(id) => out.actions == seq![ActionView::FocusPane(id)],
                None => out.actions.len() == 0,
            }
        }),
{
    crate::event::law_messages_are_told_by_their_names(Seq::empty());
    crate::text::lemma_trimmed_of_padded(before, text, after_text);
}

/// A message that no instance sends, and one that brings what its name does not ask for,
/// does nothing.
pub proof fn law_other_messages_do_nothing(s: StateView, name: Seq<char>, payload: PayloadView)
    requires
        name == "zellaude"@ ==> !(payload is Hook),
        name == "zellaude:focus"@ ==> !(payload is Text),
        name != "zellaude:request"@,
        name == "zellaude:settings"@ ==> !(payload is Settings),
        name == "zellaude:sync"@ ==> !(payload is Sessions),
    ensures
        ({
            let (after, out) = crate::model::piped(s, crate::event::topic_of(name), payload);
            &&& after == s
            &&& !out.render
            &&& out.actions.len() == 0
        }),
{
    crate::event::law_messages_are_told_by_their_names(name);
}

/// A new plugin has the settings that it was given, and knows of nothing else: no tabs,
/// panes, sessions, flashes or renames; nothing is loaded or installed, and nothing was
/// tried; and the bar shows the sessions.
pub proof fn law_a_new_plugin_knows_only_its_settings(settings: Settings, id: u32)
    ensures
        ({
            let s = crate::model::initial(settings);
            &&& s.settings == settings
            &&& s.tabs.len() == 0 && s.active_tab_index is None && s.pane_manifest is None
            &&& s.click_regions.len() == 0 && s.menu_click_regions.len() == 0
            &&& s.prefix_click_region is None && s.zellij_session_name is None
            &&& !s.pane_to_tab.contains_key(id) && !s.sessions.contains_key(id)
            &&& !s.flash_deadlines.contains_key(id)
            &&& s.pending_renames.dom() == Set::<(Seq<char>, Seq<char>)>::empty()
            &&& !s.config_loaded && !s.hooks_installed
            &&& s.config_load_attempts == 0 && s.last_config_load_ts == 0 && s.last_rename_ms == 0
            &&& s.input_mode == InputMode::Normal && s.view_mode == ViewMode::Normal
        }),
{
    assert(crate::model::initial(settings).pending_renames.dom() =~= Set::empty());
}

/// Titles are looked at when new tabs come and panes are known, when new panes come, when
/// the load command has ended well, and when a click changes a setting: one off the prefix,
/// with the settings on show, whose first menu entry is a setting's. No other event looks
/// at them.
pub proof fn law_when_titles_are_looked_at(
    s0: StateView,
    event: EventView,
    pane_to_tab: Map<u32, (usize, Seq<char>)>,
    i: int,
)
    ensures
        ({
            let looks = crate::laws::mirrored_from(s0, event, pane_to_tab) is Some;
            match event {
                EventView::TabUpdate(_) => looks <==> s0.pane_manifest is Some,
                EventView::PaneUpdate(_) => looks,
                EventView::RunCommandResult { exit_code, command, settings } => looks <==> command
                    == Some("load_config"@) && exit_code == Some(0i32),
                EventView::LeftClick(col) => {
                    &&& looks ==> s0.view_mode == ViewMode::Settings && !(s0.prefix_click_region
                        is Some && (s0.prefix_click_region->0).0 <= col && col < (
                    s0.prefix_click_region->0).1)
                    &&& s0.view_mode == ViewMode::Settings && !(s0.prefix_click_region is Some && (
                    s0.prefix_click_region->0).0 <= col && col < (s0.prefix_click_region->0).1)
                        && 0 <= i < s0.menu_click_regions.len() && s0.menu_click_regions[i].start_col
                        <= col && col < s0.menu_click_regions[i].end_col && (forall|j: int|
                        0 <= j < i ==> !((#[trigger] s0.menu_click_regions[j]).start_col <= col
                            && col < s0.menu_click_regions[j].end_col)) ==> (looks
                        <==> s0.menu_click_regions[i].action is ToggleSetting)
                },
                _ => !looks,
            }
        }),
{
    if let EventView::LeftClick(col) = event {
        let regions = s0.menu_click_regions;
        let k = crate::click::law_a_click_is_on_the_first_entry_there(regions, col);
        if 0 <= i < regions.len() && regions[i].start_col <= col && col < regions[i].end_col && (
        forall|j: int|
            0 <= j < i ==> !((#[trigger] regions[j]).start_col <= col && col
                < regions[j].end_col)) {
            if crate::click::menu_action_at(regions, col) is Some {
                assert(regions[k].start_col <= col);
                assert(i == k);
            }
        }
    }
}

} // verus!
