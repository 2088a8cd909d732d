//! What the plugin does, said over plain mathematical values: the state, and what each
//! event and message does to it.

use vstd::prelude::*;

use crate::click::{ClickRegion, MenuClickRegion, ViewMode};
use crate::event::{
    ActionView, Clock, EventView, InputMode, OutcomeView, PayloadView, PipeTopic, Tick,
};
use crate::session::SessionView;
use crate::settings::{MenuAction, SettingKey, Settings};
use crate::tab_pane_map::{PaneView, TabView};
use crate::titles::{RenameView, RENAME_COOLDOWN_MS};

verus! {

/// Gap between config-load retries while the load keeps failing, in seconds.
pub const CONFIG_LOAD_RETRY_SECS: u64 = 5;

/// How many config-load retries before giving up until the next reload.
pub const CONFIG_LOAD_MAX_ATTEMPTS: u8 = 12;

/// A [`State`], its parts taken by their views.
#[verifier::ext_equal]
pub struct StateView {
    pub tabs: Seq<TabView>,
    pub active_tab_index: Option<usize>,
    pub pane_manifest: Option<Map<usize, Seq<PaneView>>>,
    pub pane_to_tab: Map<u32, (usize, Seq<char>)>,
    pub sessions: Map<u32, SessionView>,
    pub flash_deadlines: Map<u32, u64>,
    pub pending_renames: Map<(Seq<char>, Seq<char>), u8>,
    pub last_rename_ms: u64,
    pub settings: Settings,
    pub config_loaded: bool,
    pub config_load_attempts: u8,
    pub last_config_load_ts: u64,
    pub hooks_installed: bool,
    pub input_mode: InputMode,
    pub zellij_session_name: Option<Seq<char>>,
    pub view_mode: ViewMode,
    pub prefix_click_region: Option<(usize, usize)>,
    pub click_regions: Seq<ClickRegion>,
    pub menu_click_regions: Seq<MenuClickRegion>,
}

/// The state of a plugin that has not heard of anything yet.
pub open spec fn initial(settings: Settings) -> StateView {
    StateView {
        tabs: Seq::empty(),
        active_tab_index: None,
        pane_manifest: None,
        pane_to_tab: Map::empty(),
        sessions: Map::empty(),
        flash_deadlines: Map::empty(),
        pending_renames: Map::empty(),
        last_rename_ms: 0,
        settings,
        config_loaded: false,
        config_load_attempts: 0,
        last_config_load_ts: 0,
        hooks_installed: false,
        input_mode: InputMode::Normal,
        zellij_session_name: None,
        view_mode: ViewMode::Normal,
        prefix_click_region: None,
        click_regions: Seq::empty(),
        menu_click_regions: Seq::empty(),
    }
}

/// The renames as actions, in order.
pub open spec fn rename_actions(renames: Seq<RenameView>) -> Seq<ActionView> {
    renames.map_values(|r: RenameView| ActionView::RenameTab { tab: r.tab, name: r.desired })
}

/// One round of mirroring `titles` onto the tabs, `source` saying which pane's title
/// each tab mirrors: the state afterwards, and the renames that go out.
///
/// Nothing happens within `RENAME_COOLDOWN_MS` of the last batch. Otherwise renames
/// that have landed or lost their tab are retired, and those now due go out, each
/// counted as one more attempt.
pub open spec fn title_round(
    s: StateView,
    titles: Map<u32, Seq<char>>,
    source: Map<usize, u32>,
    now_ms: u64,
) -> (StateView, Seq<ActionView>) {
    if now_ms - s.last_rename_ms < RENAME_COOLDOWN_MS {
        (s, Seq::empty())
    } else {
        let kept = crate::titles::retained(s.pending_renames, s.tabs);
        let renames = crate::titles::renames_due(
            s.tabs,
            s.tabs.len() as int,
            titles,
            source,
            kept,
        );
        if renames.len() == 0 {
            (StateView { pending_renames: kept, ..s }, Seq::empty())
        } else {
            (
                StateView {
                    pending_renames: crate::titles::counted(
                        kept,
                        s.tabs,
                        titles,
                        source,
                        renames,
                    ),
                    last_rename_ms: now_ms,
                    ..s
                },
                rename_actions(renames),
            )
        }
    }
}

/// `s1` and `actions` are what one round over the titles in `manifest` comes to.
pub open spec fn titles_mirrored(
    s0: StateView,
    manifest: Map<usize, Seq<PaneView>>,
    now_ms: u64,
    s1: StateView,
    actions: Seq<ActionView>,
) -> bool {
    exists|titles: Map<u32, Seq<char>>, source: Map<usize, u32>|
        crate::tab_pane_map::pane_titles(manifest, titles) && crate::tab_pane_map::title_panes(
            manifest,
            s0.sessions,
            source,
        ) && #[trigger] title_round(s0, titles, source, now_ms) == (s1, actions)
}

/// `s1` and `actions` are what mirroring titles comes to: with the setting off, no
/// rename stays in flight; with no panes reported yet, nothing happens.
pub open spec fn titles_applied(
    s0: StateView,
    now_ms: u64,
    s1: StateView,
    actions: Seq<ActionView>,
) -> bool {
    if !s0.settings.tab_titles {
        s1 == (StateView { pending_renames: Map::empty(), ..s0 }) && actions.len() == 0
    } else {
        match s0.pane_manifest {
            None => s1 == s0 && actions.len() == 0,
            Some(manifest) => titles_mirrored(s0, manifest, now_ms, s1, actions),
        }
    }
}

/// `s` with the panes where `pane_to_tab` has them: sessions follow their panes, and
/// those whose pane is gone are dropped.
pub open spec fn relocated(s: StateView, pane_to_tab: Map<u32, (usize, Seq<char>)>) -> StateView {
    StateView {
        pane_to_tab,
        sessions: crate::session::refreshed(s.sessions, pane_to_tab).restrict(pane_to_tab.dom()),
        ..s
    }
}

/// `s1` and `actions` are what new tabs or panes come to.
pub open spec fn pane_map_rebuilt(
    s0: StateView,
    now_ms: u64,
    s1: StateView,
    actions: Seq<ActionView>,
) -> bool {
    match s0.pane_manifest {
        None => s1 == s0 && actions.len() == 0,
        Some(manifest) => {
            &&& crate::tab_pane_map::pane_to_tab_map(s0.tabs, manifest, s1.pane_to_tab)
            &&& titles_applied(relocated(s0, s1.pane_to_tab), now_ms, s1, actions)
        },
    }
}

/// Where the focused tab is: the position of the first active one.
pub open spec fn active_position(tabs: Seq<TabView>) -> Option<usize>
    decreases tabs.len(),
{
    if tabs.len() == 0 {
        None
    } else if tabs[0].active {
        Some(tabs[0].position)
    } else {
        active_position(tabs.skip(1))
    }
}

/// The flashes once the focus is at `new_active`: those of the sessions on a newly
/// focused tab stop.
pub open spec fn flashes_after_focus(s: StateView, new_active: Option<usize>) -> Map<u32, u64> {
    match new_active {
        Some(position) => if new_active != s.active_tab_index {
            s.flash_deadlines.remove_keys(crate::session::panes_on_tab(s.sessions, position))
        } else {
            s.flash_deadlines
        },
        None => s.flash_deadlines,
    }
}

/// `s` with the given tabs: the focus is where they have it, and the flashes on a newly
/// focused tab stop.
pub open spec fn retabbed(s: StateView, tabs: Seq<TabView>) -> StateView {
    let active = active_position(tabs);
    StateView {
        tabs,
        active_tab_index: active,
        flash_deadlines: flashes_after_focus(s, active),
        ..s
    }
}

/// What saving the settings takes: nothing as long as they have not been loaded, so
/// that defaults never overwrite the file.
pub open spec fn save_actions(config_loaded: bool, settings: Settings) -> Seq<ActionView> {
    if config_loaded {
        seq![ActionView::BroadcastSettings(settings), ActionView::SaveConfig(settings)]
    } else {
        Seq::empty()
    }
}

/// `s1` and `actions` are what a click on `key` in the menu comes to: the setting
/// changes and is saved, and titles are applied at once.
pub open spec fn setting_toggled(
    s0: StateView,
    key: SettingKey,
    now_ms: u64,
    s1: StateView,
    actions: Seq<ActionView>,
) -> bool {
    exists|renames: Seq<ActionView>|
        #![trigger titles_applied(StateView { settings: s0.settings.toggled(key), ..s0 }, now_ms, s1, renames)]
        titles_applied(
            StateView { settings: s0.settings.toggled(key), ..s0 },
            now_ms,
            s1,
            renames,
        ) && actions == save_actions(
            s0.config_loaded,
            s0.settings.toggled(key),
        ) + renames
}

/// `s1` and `out` are what a left click in column `col` comes to.
///
/// On the prefix it switches between the sessions and the settings. Elsewhere it goes
/// to the session clicked, to its pane if the session waits and to its tab if not, or
/// does what the menu entry clicked says.
pub open spec fn clicked(
    s0: StateView,
    col: usize,
    now_ms: u64,
    s1: StateView,
    out: OutcomeView,
) -> bool {
    if crate::click::in_stretch(s0.prefix_click_region, col) {
        let view_mode = if s0.view_mode is Normal {
            ViewMode::Settings
        } else {
            ViewMode::Normal
        };
        s1 == (StateView { view_mode, ..s0 }) && out == (OutcomeView {
            actions: Seq::empty(),
            render: true,
        })
    } else if s0.view_mode is Normal {
        &&& s1 == s0
        &&& !out.render
        &&& match crate::click::region_at(s0.click_regions, col) {
            Some(region) => out.actions == (if region.is_waiting {
                seq![ActionView::FocusPane(region.pane_id)]
            } else {
                seq![ActionView::SwitchTab(crate::titles::tab_number(region.tab_index))]
            }),
            None => out.actions.len() == 0,
        }
    } else {
        match crate::click::menu_action_at(s0.menu_click_regions, col) {
            Some(MenuAction::ToggleSetting(key)) => out.render && setting_toggled(
                s0,
                key,
                now_ms,
                s1,
                out.actions,
            ),
            Some(MenuAction::CloseMenu) => s1 == (StateView { view_mode: ViewMode::Normal, ..s0 })
                && out == (OutcomeView { actions: Seq::empty(), render: true }),
            None => s1 == s0 && out == (OutcomeView { actions: Seq::empty(), render: false }),
        }
    }
}

/// Settings have arrived: `s` with them, if they could be read, and marked as loaded
/// either way.
pub open spec fn configured(s: StateView, settings: Option<Settings>) -> StateView {
    StateView {
        settings: match settings {
            Some(settings) => settings,
            None => s.settings,
        },
        config_loaded: true,
        ..s
    }
}

/// `s1` and `out` are what the end of a command comes to.
pub open spec fn command_finished(
    s0: StateView,
    exit_code: Option<i32>,
    command: Option<Seq<char>>,
    settings: Option<Settings>,
    now_ms: u64,
    s1: StateView,
    out: OutcomeView,
) -> bool {
    if command == Some("load_config"@) && exit_code == Some(0i32) {
        out.render && titles_applied(configured(s0, settings), now_ms, s1, out.actions)
    } else {
        &&& out == (OutcomeView { actions: Seq::empty(), render: false })
        &&& s1 == (if command == Some("install_hooks"@) {
            StateView { hooks_installed: true, ..s0 }
        } else {
            s0
        })
    }
}

/// Another attempt at loading the settings is due.
pub open spec fn load_retry_due(s: StateView, secs: u64) -> bool {
    &&& !s.config_loaded
    &&& s.config_load_attempts < CONFIG_LOAD_MAX_ATTEMPTS
    &&& secs - s.last_config_load_ts >= CONFIG_LOAD_RETRY_SECS
}

/// Elapsed time is on show for some session.
pub open spec fn elapsed_displayed(s: StateView, secs: u64) -> bool {
    s.settings.elapsed_time && exists|id: u32| #[trigger]
        s.sessions.contains_key(id) && crate::session::shows_elapsed(s.sessions[id], secs)
}

/// Some session is stale.
pub open spec fn any_stale(s: StateView, secs: u64) -> bool {
    exists|id: u32| #[trigger]
        s.sessions.contains_key(id) && crate::session::stale(s.sessions[id], secs)
}

/// `s` after a timer event: a due attempt at loading the settings is counted, stale
/// sessions are idle, and flashes that have run out are gone.
pub open spec fn timed(s: StateView, clock: Clock) -> StateView {
    let retry = load_retry_due(s, clock.secs);
    StateView {
        config_load_attempts: if retry {
            (s.config_load_attempts + 1) as u8
        } else {
            s.config_load_attempts
        },
        last_config_load_ts: if retry {
            clock.secs
        } else {
            s.last_config_load_ts
        },
        sessions: s.sessions.map_values(
            |session: SessionView| crate::session::settled(session, clock.secs),
        ),
        flash_deadlines: crate::flash::unexpired(s.flash_deadlines, clock.millis),
        ..s
    }
}

/// What a timer event comes to: a due attempt at loading the settings, and the next
/// timer, soon if anything flashes. The bar is drawn again if anything flashes, has
/// just stopped flashing or gone idle, or shows elapsed time.
pub open spec fn timer_outcome(s: StateView, clock: Clock) -> OutcomeView {
    let flashing = crate::flash::any_unexpired(s.flash_deadlines, clock.millis);
    OutcomeView {
        actions: (if load_retry_due(s, clock.secs) {
            seq![ActionView::LoadConfig]
        } else {
            Seq::empty()
        }) + seq![
            ActionView::SetTimeout(
                if flashing {
                    Tick::Flash
                } else {
                    Tick::Normal
                },
            ),
        ],
        render: flashing || any_stale(s, clock.secs) || crate::flash::any_expired(
            s.flash_deadlines,
            clock.millis,
        ) || elapsed_displayed(timed(s, clock), clock.secs),
    }
}

/// What the answer to the permission request comes to: the bar stays visible, other
/// instances are asked for their sessions, and the settings and the hooks are seen to
/// where they still have to be.
pub open spec fn permission_actions(s: StateView) -> Seq<ActionView> {
    seq![ActionView::SetSelectable(false), ActionView::RequestSync] + (if s.config_loaded {
        Seq::empty()
    } else {
        seq![ActionView::LoadConfig]
    }) + (if s.hooks_installed {
        Seq::empty()
    } else {
        seq![ActionView::InstallHooks]
    })
}

/// `s1` and `out` are what `event`, handled at `clock`, comes to.
pub open spec fn updated(
    s0: StateView,
    event: EventView,
    clock: Clock,
    s1: StateView,
    out: OutcomeView,
) -> bool {
    match event {
        EventView::TabUpdate(tabs) => {
            &&& out.render
            &&& pane_map_rebuilt(retabbed(s0, tabs), clock.millis, s1, out.actions)
        },
        EventView::PaneUpdate(manifest) => {
            &&& out.render
            &&& pane_map_rebuilt(
                StateView { pane_manifest: Some(manifest), ..s0 },
                clock.millis,
                s1,
                out.actions,
            )
        },
        EventView::ModeUpdate { mode, session_name } => {
            &&& out == (OutcomeView { actions: Seq::empty(), render: true })
            &&& s1 == (StateView {
                input_mode: mode,
                zellij_session_name: if session_name is Some {
                    session_name
                } else {
                    s0.zellij_session_name
                },
                ..s0
            })
        },
        EventView::LeftClick(col) => clicked(s0, col, clock.millis, s1, out),
        EventView::RunCommandResult { exit_code, command, settings } => command_finished(
            s0,
            exit_code,
            command,
            settings,
            clock.millis,
            s1,
            out,
        ),
        EventView::Timer => s1 == timed(s0, clock) && out == timer_outcome(s0, clock),
        EventView::PermissionRequestResult => s1 == s0 && out == (OutcomeView {
            actions: permission_actions(s0),
            render: false,
        }),
        EventView::Other => s1 == s0 && out == (OutcomeView {
            actions: Seq::empty(),
            render: false,
        }),
    }
}

/// A click in column `col` that goes to a tab goes to one with a number: always so where
/// positions are 32 bits wide and short of the very last.
pub open spec fn click_numbered(s: StateView, col: usize) -> bool {
    !crate::click::in_stretch(s.prefix_click_region, col) && s.view_mode is Normal ==> (
    crate::click::region_at(s.click_regions, col) matches Some(region) ==> region.is_waiting || (
    region.tab_index as u32) < u32::MAX)
}

/// All tabs that may be renamed have a number.
pub open spec fn well_formed(s: StateView) -> bool {
    crate::titles::tabs_numbered(s.tabs)
}

/// All tabs that `event` may address have a number.
pub open spec fn event_well_formed(s: StateView, event: EventView) -> bool {
    match event {
        EventView::TabUpdate(tabs) => crate::titles::tabs_numbered(tabs),
        EventView::LeftClick(col) => click_numbered(s, col),
        _ => true,
    }
}

/// The state after a pipe message, and what the message comes to. A payload that does
/// not fit the topic is ignored.
pub open spec fn piped(
    s0: StateView,
    topic: PipeTopic,
    payload: PayloadView,
) -> (StateView, OutcomeView) {
    let nothing = OutcomeView { actions: Seq::empty(), render: false };
    match (topic, payload) {
        (PipeTopic::Hook, PayloadView::Hook) => (
            s0,
            OutcomeView { actions: seq![ActionView::HandleHook], render: true },
        ),
        (PipeTopic::Focus, PayloadView::Text(text)) => (
            s0,
            match crate::text::parsed_u32(crate::text::trimmed(text)) {
                Some(id) => OutcomeView {
                    actions: seq![ActionView::FocusPane(id)],
                    render: false,
                },
                None => nothing,
            },
        ),
        (PipeTopic::Request, _) => (
            s0,
            OutcomeView {
                actions: seq![ActionView::BroadcastSessions(s0.sessions)],
                render: false,
            },
        ),
        (PipeTopic::Settings, PayloadView::Settings(settings)) => (
            StateView { settings, ..s0 },
            OutcomeView { actions: Seq::empty(), render: true },
        ),
        (PipeTopic::Sync, PayloadView::Sessions(incoming)) => (
            StateView {
                sessions: crate::session::merged(s0.sessions, incoming, s0.pane_to_tab),
                ..s0
            },
            OutcomeView { actions: Seq::empty(), render: true },
        ),
        _ => (s0, nothing),
    }
}

} // verus!
