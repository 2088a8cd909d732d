//! The plugin's state, and the code that handles each event and message.

use std::collections::{BTreeMap, HashMap};

use vstd::prelude::*;

use crate::click::{find_menu_action, find_region, ClickRegion, MenuClickRegion, ViewMode};
use crate::event::{
    pipe_topic, Action, Clock, Event, InputMode, Outcome, OutcomeView, PipePayload, PipeTopic,
    Tick,
};
use crate::flash::{any_active, clear_panes, drop_expired};
use crate::model::{StateView, CONFIG_LOAD_MAX_ATTEMPTS, CONFIG_LOAD_RETRY_SECS};
use crate::session::{
    any_shows_elapsed, copy_sessions, drop_dead, list_panes_on_tab, merge_into, refresh_tabs, settle_stale,
    SessionInfo, SessionView,
};
use crate::settings::{MenuAction, SettingKey, Settings};
use crate::tab_pane_map::{
    build_pane_titles, build_pane_to_tab_map, pick_title_panes, PaneManifest, PaneView, TabInfo,
};
use crate::text::{parse_u32, trim};
use crate::titles::{
    collect_renames, record_attempts, retire_pending, PendingRename, RENAME_COOLDOWN_MS,
};

verus! {

/// Everything the plugin knows.
pub struct State {
    /// The tabs, as last reported.
    pub tabs: Vec<TabInfo>,
    pub active_tab_index: Option<usize>,
    /// The panes, as last reported.
    pub pane_manifest: Option<PaneManifest>,
    /// The tab that each terminal pane is on, and the tab's name.
    pub pane_to_tab: HashMap<u32, (usize, String)>,
    /// Sessions by pane id.
    pub sessions: BTreeMap<u32, SessionInfo>,
    /// Until when each flashing pane flashes, in milliseconds.
    pub flash_deadlines: HashMap<u32, u64>,
    /// Renames in flight, each once, by the name that the tab had and the name it should
    /// have.
    pub pending_renames: Vec<PendingRename>,
    /// When the last batch of renames went out, in milliseconds.
    pub last_rename_ms: u64,
    pub settings: Settings,
    pub config_loaded: bool,
    pub config_load_attempts: u8,
    /// When the last config-load retry went out, in seconds.
    pub last_config_load_ts: u64,
    pub hooks_installed: bool,
    pub input_mode: InputMode,
    pub zellij_session_name: Option<String>,
    pub view_mode: ViewMode,
    /// The columns of the bar's prefix.
    pub prefix_click_region: Option<(usize, usize)>,
    pub click_regions: Vec<ClickRegion>,
    pub menu_click_regions: Vec<MenuClickRegion>,
}

/// A manifest, if there is one, taken by its view.
pub open spec fn manifest_view(
    manifest: Option<PaneManifest>,
) -> Option<Map<usize, Seq<PaneView>>> {
    match manifest {
        Some(manifest) => Some(manifest@),
        None => None,
    }
}

impl View for State {
    type V = StateView;

    open spec fn view(&self) -> StateView {
        StateView {
            tabs: crate::tab_pane_map::tabs_view(self.tabs@),
            active_tab_index: self.active_tab_index,
            pane_manifest: manifest_view(self.pane_manifest),
            pane_to_tab: crate::tab_pane_map::pane_to_tab_view(self.pane_to_tab@),
            sessions: crate::session::sessions_view(self.sessions@),
            flash_deadlines: self.flash_deadlines@,
            pending_renames: crate::titles::pending_view(self.pending_renames@),
            last_rename_ms: self.last_rename_ms,
            settings: self.settings,
            config_loaded: self.config_loaded,
            config_load_attempts: self.config_load_attempts,
            last_config_load_ts: self.last_config_load_ts,
            hooks_installed: self.hooks_installed,
            input_mode: self.input_mode,
            zellij_session_name: crate::session::text_view(self.zellij_session_name),
            view_mode: self.view_mode,
            prefix_click_region: self.prefix_click_region,
            click_regions: self.click_regions@,
            menu_click_regions: self.menu_click_regions@,
        }
    }
}

impl State {
    /// A plugin that has not heard of anything yet.
    pub fn new(settings: Settings) -> (state: State)
        ensures
            state@ == crate::model::initial(settings),
            state@ == (StateView {
                tabs: Seq::empty(),
                active_tab_index: None,
                pane_manifest: None,
                pane_to_tab: Map::empty(),
                sessions: Map::empty(),
                flash_deadlines: Map::empty(),
                pending_renames: Map::empty(),
                last_rename_ms: 0,
                settings,
                config_loaded: false,
                config_load_attempts: 0,
                last_config_load_ts: 0,
                hooks_installed: false,
                input_mode: InputMode::Normal,
                zellij_session_name: None,
                view_mode: ViewMode::Normal,
                prefix_click_region: None,
                click_regions: Seq::empty(),
                menu_click_regions: Seq::empty(),
            }),
            crate::model::well_formed(state@),
    {
        State {
            tabs: Vec::new(),
            active_tab_index: None,
            pane_manifest: None,
            pane_to_tab: HashMap::new(),
            sessions: BTreeMap::new(),
            flash_deadlines: HashMap::new(),
            pending_renames: Vec::new(),
            last_rename_ms: 0,
            settings,
            config_loaded: false,
            config_load_attempts: 0,
            last_config_load_ts: 0,
            hooks_installed: false,
            input_mode: InputMode::Normal,
            zellij_session_name: None,
            view_mode: ViewMode::Normal,
            prefix_click_region: None,
            click_regions: Vec::new(),
            menu_click_regions: Vec::new(),
        }
    }

    /// One round of mirroring the given titles onto the tabs; `source` says which
    /// pane's title each tab mirrors. Returns the renames that go out.
    pub fn mirror_titles(
        &mut self,
        titles: &HashMap<u32, String>,
        source: &HashMap<usize, u32>,
        now_ms: u64,
    ) -> (actions: Vec<Action>)
        requires
            crate::model::well_formed(old(self)@),
        ensures
            (final(self)@, crate::event::actions_view(actions@)) == crate::model::title_round(
                old(self)@,
                crate::tab_pane_map::titles_view(titles@),
                source@,
                now_ms,
            ),
    {
        let mut actions: Vec<Action> = Vec::new();
        // Rate limit. Renames are cosmetic, so dropping a batch costs nothing but a
        // slightly stale label until the next update.
        if now_ms.saturating_sub(self.last_rename_ms) < RENAME_COOLDOWN_MS {
            proof {
                assert(crate::event::actions_view(actions@) =~= Seq::empty());
            }
            return actions;
        }
        self.pending_renames = retire_pending(&self.pending_renames, self.tabs.as_slice());
        let renames = collect_renames(self.tabs.as_slice(), titles, source, &self.pending_renames);
        if renames.len() == 0 {
            proof {
                assert(crate::event::actions_view(actions@) =~= Seq::empty());
            }
            return actions;
        }
        self.last_rename_ms = now_ms;
        self.pending_renames = record_attempts(
            &self.pending_renames,
            self.tabs.as_slice(),
            titles,
            source,
            &renames,
        );
        let ghost views = crate::titles::renames_view(renames@);
        let mut i: usize = 0;
        while i < renames.len()
            invariant
                i <= renames.len(),
                views == crate::titles::renames_view(renames@),
                crate::event::actions_view(actions@) == crate::model::rename_actions(views.take(i as int)),
            decreases renames.len() - i,
        {
            let ghost before = actions@;
            let action = Action::RenameTab {
                tab: renames[i].tab,
                name: renames[i].desired.clone(),
            };
            actions.push(action);
            proof {
                assert(views.take(i + 1) =~= views.take(i as int).push(renames@[i as int]@));
                assert(crate::event::actions_view(actions@) =~= crate::event::actions_view(
                    before,
                ).push(action@));
                assert(crate::model::rename_actions(views.take(i + 1)) =~= crate::model::rename_actions(
                    views.take(i as int),
                ).push(action@));
            }
            i += 1;
        }
        proof {
            assert(views.take(views.len() as int) =~= views);
        }
        actions
    }

    /// When enabled, name each tab after its pane's title. Unopinionated: the label
    /// content is whatever set the pane title. Returns the renames that go out.
    ///
    /// # Why this is defensive
    ///
    /// A rename addresses a tab by position, and the host's idea of positions can
    /// drift after tabs are closed, so a rename can land on the wrong tab or on none.
    /// One that never lands leaves the tab's name unchanged, which reads as "still
    /// needs renaming"; and each attempt provokes another update. Three independent
    /// brakes keep that from spinning:
    ///
    /// 1. A rename only goes out where the tab's position is its index in the list.
    /// 2. One that has not landed within `RENAME_MAX_ATTEMPTS` is abandoned. Attempts are
    ///    counted for each old name and new name, as long as any tab has the old one,
    ///    wherever that tab is and whatever other tabs are called.
    /// 3. At most one batch goes out per `RENAME_COOLDOWN_MS`.
    ///
    /// The worst case is a tab that keeps its old label.
    pub fn apply_tab_titles(&mut self, now_ms: u64) -> (actions: Vec<Action>)
        requires
            crate::model::well_formed(old(self)@),
        ensures
            crate::model::titles_applied(
                old(self)@,
                now_ms,
                final(self)@,
                crate::event::actions_view(actions@),
            ),
    {
        if !self.settings.tab_titles {
            self.pending_renames = Vec::new();
            proof {
                assert(crate::titles::pending_view(self.pending_renames@) =~= Map::empty());
            }
            return Vec::new();
        }
        // Titles come from the manifest, not from the sessions: no hook may have fired
        // yet. Session activity is a tiebreak only.
        let (titles, source) = match &self.pane_manifest {
            Some(manifest) => (
                build_pane_titles(manifest),
                pick_title_panes(manifest, &self.sessions),
            ),
            None => {
                return Vec::new();
            },
        };
        let actions = self.mirror_titles(&titles, &source, now_ms);
        proof {
            let manifest = old(self)@.pane_manifest->0;
            assert(crate::model::titles_mirrored(
                old(self)@,
                manifest,
                now_ms,
                self@,
                crate::event::actions_view(actions@),
            ));
        }
        actions
    }

    /// Give each session the tab that its pane is on now.
    pub fn refresh_session_tab_names(&mut self)
        ensures
            final(self)@ == (StateView {
                sessions: crate::session::refreshed(old(self)@.sessions, old(self)@.pane_to_tab),
                ..old(self)@
            }),
    {
        refresh_tabs(&mut self.sessions, &self.pane_to_tab);
    }

    /// Drop the sessions whose pane is gone.
    pub fn remove_dead_panes(&mut self)
        ensures
            final(self)@ == (StateView {
                sessions: old(self)@.sessions.restrict(old(self)@.pane_to_tab.dom()),
                ..old(self)@
            }),
    {
        drop_dead(&mut self.sessions, &self.pane_to_tab);
    }

    /// Work out anew where the panes are, and what follows from it. Returns the renames
    /// that go out.
    pub fn rebuild_pane_map(&mut self, now_ms: u64) -> (actions: Vec<Action>)
        requires
            crate::model::well_formed(old(self)@),
        ensures
            crate::model::pane_map_rebuilt(
                old(self)@,
                now_ms,
                final(self)@,
                crate::event::actions_view(actions@),
            ),
    {
        let map = match &self.pane_manifest {
            Some(manifest) => build_pane_to_tab_map(self.tabs.as_slice(), manifest),
            None => {
                return Vec::new();
            },
        };
        self.pane_to_tab = map;
        self.refresh_session_tab_names();
        self.remove_dead_panes();
        proof {
            assert(self@ =~= crate::model::relocated(old(self)@, self@.pane_to_tab));
        }
        self.apply_tab_titles(now_ms)
    }
}

/// The position of the first active tab.
fn find_active(tabs: &Vec<TabInfo>) -> (position: Option<usize>)
    ensures
        position == crate::model::active_position(crate::tab_pane_map::tabs_view(tabs@)),
{
    let ghost views = crate::tab_pane_map::tabs_view(tabs@);
    let mut i: usize = 0;
    proof {
        assert(views.skip(0) =~= views);
    }
    while i < tabs.len()
        invariant
            i <= tabs.len(),
            views == crate::tab_pane_map::tabs_view(tabs@),
            crate::model::active_position(views.skip(i as int)) == crate::model::active_position(views),
        decreases tabs.len() - i,
    {
        proof {
            assert(views.skip(i as int).skip(1) =~= views.skip(i + 1));
            assert(views.skip(i as int)[0] == tabs@[i as int]@);
        }
        if tabs[i].active {
            return Some(tabs[i].position);
        }
        i += 1;
    }
    None
}

/// Whether `command` is there and is `name`.
fn is_command(command: &Option<String>, name: &str) -> (yes: bool)
    ensures
        yes == (crate::session::text_view(*command) == Some(name@)),
{
    match command {
        Some(command) => *command.as_str() == *name,
        None => false,
    }
}

/// An outcome with no actions.
fn no_actions(render: bool) -> (out: Outcome)
    ensures
        out@ == (OutcomeView { actions: Seq::empty(), render }),
{
    Outcome { actions: Vec::new(), render }
}

/// An outcome with one action.
fn one_action(action: Action, render: bool) -> (out: Outcome)
    ensures
        out@ == (OutcomeView { actions: seq![action@], render }),
{
    let mut actions: Vec<Action> = Vec::new();
    actions.push(action);
    Outcome { actions, render }
}

impl State {
    /// Put to idle the sessions that finished `DONE_TIMEOUT` ago or longer. Returns
    /// whether there was any.
    pub fn cleanup_stale_sessions(&mut self, now: u64) -> (changed: bool)
        ensures
            final(self)@ == (StateView {
                sessions: old(self)@.sessions.map_values(
                    |session: SessionView| crate::session::settled(session, now),
                ),
                ..old(self)@
            }),
            changed == crate::model::any_stale(old(self)@, now),
    {
        settle_stale(&mut self.sessions, now)
    }

    /// Stop the flashes of the sessions on the tab at `tab_idx`.
    pub fn clear_flashes_on_tab(&mut self, tab_idx: usize)
        ensures
            final(self)@ == (StateView {
                flash_deadlines: old(self)@.flash_deadlines.remove_keys(
                    crate::session::panes_on_tab(old(self)@.sessions, tab_idx),
                ),
                ..old(self)@
            }),
    {
        let panes = list_panes_on_tab(&self.sessions, tab_idx);
        clear_panes(&mut self.flash_deadlines, &panes);
    }

    /// Whether any flash is on.
    pub fn has_active_flashes(&self, now_ms: u64) -> (any: bool)
        ensures
            any == crate::flash::any_unexpired(self@.flash_deadlines, now_ms),
    {
        any_active(&self.flash_deadlines, now_ms)
    }

    /// Drop the flashes that have run out. Returns whether there was any.
    pub fn cleanup_expired_flashes(&mut self, now_ms: u64) -> (changed: bool)
        ensures
            final(self)@ == (StateView {
                flash_deadlines: crate::flash::unexpired(old(self)@.flash_deadlines, now_ms),
                ..old(self)@
            }),
            changed == crate::flash::any_expired(old(self)@.flash_deadlines, now_ms),
    {
        drop_expired(&mut self.flash_deadlines, now_ms)
    }

    /// Whether elapsed time is on show for any session.
    pub fn has_elapsed_display(&self, now: u64) -> (any: bool)
        ensures
            any == crate::model::elapsed_displayed(self@, now),
    {
        if !self.settings.elapsed_time {
            return false;
        }
        let any: bool = any_shows_elapsed(&self.sessions, now);
        proof {
            let sessions = self@.sessions;
            assert(sessions == crate::session::sessions_view(self.sessions@));
            if any {
                let id = choose|id: u32| #[trigger]
                    sessions.contains_key(id) && crate::session::shows_elapsed(sessions[id], now);
                assert(self@.sessions.contains_key(id));
            }
        }
        any
    }

    /// What saving the settings takes.
    pub fn save_config(&self) -> (actions: Vec<Action>)
        ensures
            crate::event::actions_view(actions@) == crate::model::save_actions(
                self@.config_loaded,
                self@.settings,
            ),
    {
        let mut actions: Vec<Action> = Vec::new();
        if self.config_loaded {
            actions.push(Action::BroadcastSettings(self.settings));
            actions.push(Action::SaveConfig(self.settings));
        }
        proof {
            assert(crate::event::actions_view(actions@) =~= crate::model::save_actions(
                self@.config_loaded,
                self@.settings,
            ));
        }
        actions
    }

    /// Take over what another instance knows better.
    pub fn merge_sessions(&mut self, incoming: BTreeMap<u32, SessionInfo>)
        ensures
            final(self)@ == (StateView {
                sessions: crate::session::merged(
                    old(self)@.sessions,
                    crate::session::sessions_view(incoming@),
                    old(self)@.pane_to_tab,
                ),
                ..old(self)@
            }),
    {
        merge_into(&mut self.sessions, incoming, &self.pane_to_tab);
    }

    /// A click on a setting in the menu.
    pub fn toggle_setting(&mut self, key: SettingKey, now_ms: u64) -> (actions: Vec<Action>)
        requires
            crate::model::well_formed(old(self)@),
        ensures
            crate::model::setting_toggled(
                old(self)@,
                key,
                now_ms,
                final(self)@,
                crate::event::actions_view(actions@),
            ),
    {
        self.settings.toggle(key);
        let ghost toggled = self@;
        proof {
            assert(toggled =~= StateView {
                settings: old(self)@.settings.toggled(key),
                ..old(self)@
            });
        }
        let mut actions = self.save_config();
        let ghost saving = actions@;
        // Apply immediately so the toggle takes effect without waiting for the next
        // pane or tab update.
        let mut renames = self.apply_tab_titles(now_ms);
        let ghost renaming = renames@;
        actions.append(&mut renames);
        proof {
            assert(crate::model::titles_applied(
                toggled,
                now_ms,
                self@,
                crate::event::actions_view(renaming),
            ));
            assert(crate::event::actions_view(actions@) =~= crate::event::actions_view(saving)
                + crate::event::actions_view(renaming));
        }
        actions
    }

    /// A left click in column `col`.
    pub fn on_left_click(&mut self, col: usize, now_ms: u64) -> (out: Outcome)
        requires
            crate::model::well_formed(old(self)@),
            crate::model::click_numbered(old(self)@, col),
        ensures
            crate::model::clicked(old(self)@, col, now_ms, final(self)@, out@),
    {
        let on_prefix: bool = match self.prefix_click_region {
            Some((start, end)) => col >= start && col < end,
            None => false,
        };
        if on_prefix {
            self.view_mode = match self.view_mode {
                ViewMode::Normal => ViewMode::Settings,
                ViewMode::Settings => ViewMode::Normal,
            };
            return no_actions(true);
        }
        match self.view_mode {
            ViewMode::Normal => match find_region(&self.click_regions, col) {
                Some(region) => if region.is_waiting {
                    one_action(Action::FocusPane(region.pane_id), false)
                } else {
                    one_action(Action::SwitchTab(region.tab_index as u32 + 1), false)
                },
                None => no_actions(false),
            },
            ViewMode::Settings => match find_menu_action(&self.menu_click_regions, col) {
                Some(MenuAction::ToggleSetting(key)) => {
                    let actions = self.toggle_setting(key, now_ms);
                    Outcome { actions, render: true }
                },
                Some(MenuAction::CloseMenu) => {
                    self.view_mode = ViewMode::Normal;
                    no_actions(true)
                },
                None => no_actions(false),
            },
        }
    }

    /// A command has finished.
    pub fn on_command_result(
        &mut self,
        exit_code: Option<i32>,
        command: Option<String>,
        settings: Option<Settings>,
        now_ms: u64,
    ) -> (out: Outcome)
        requires
            crate::model::well_formed(old(self)@),
        ensures
            crate::model::command_finished(
                old(self)@,
                exit_code,
                crate::session::text_view(command),
                settings,
                now_ms,
                final(self)@,
                out@,
            ),
    {
        let succeeded: bool = match exit_code {
            Some(code) => code == 0,
            None => false,
        };
        if is_command(&command, "load_config") && succeeded {
            if let Some(settings) = settings {
                self.settings = settings;
            }
            self.config_loaded = true;
            proof {
                assert(self@ =~= crate::model::configured(old(self)@, settings));
            }
            // A setting that gates behaviour may have flipped from its default. Apply
            // now rather than waiting for the next tab or pane update.
            let actions = self.apply_tab_titles(now_ms);
            Outcome { actions, render: true }
        } else {
            if is_command(&command, "install_hooks") {
                self.hooks_installed = true;
            }
            proof {
                reveal_strlit("load_config");
                reveal_strlit("install_hooks");
                assert("load_config"@.len() != "install_hooks"@.len());
            }
            no_actions(false)
        }
    }

    /// The timer went off.
    ///
    /// Loading the settings goes through a command that is silently dropped while its
    /// permission is missing, so it is retried from here: a bounded number of times,
    /// and slowly, since each blocked attempt makes the host log a denial.
    pub fn on_timer(&mut self, clock: Clock) -> (out: Outcome)
        ensures
            final(self)@ == crate::model::timed(old(self)@, clock),
            out@ == crate::model::timer_outcome(old(self)@, clock),
    {
        let mut actions: Vec<Action> = Vec::new();
        if !self.config_loaded && self.config_load_attempts < CONFIG_LOAD_MAX_ATTEMPTS
            && clock.secs.saturating_sub(self.last_config_load_ts) >= CONFIG_LOAD_RETRY_SECS {
            self.config_load_attempts = self.config_load_attempts.saturating_add(1);
            self.last_config_load_ts = clock.secs;
            actions.push(Action::LoadConfig);
        }
        let stale_changed: bool = self.cleanup_stale_sessions(clock.secs);
        let flash_changed: bool = self.cleanup_expired_flashes(clock.millis);
        let has_flashes: bool = self.has_active_flashes(clock.millis);
        let ghost before = actions@;
        if has_flashes {
            actions.push(Action::SetTimeout(Tick::Flash));
        } else {
            actions.push(Action::SetTimeout(Tick::Normal));
        }
        let elapsed: bool = self.has_elapsed_display(clock.secs);
        let out = Outcome {
            actions,
            render: has_flashes || stale_changed || flash_changed || elapsed,
        };
        proof {
            let all = old(self)@.flash_deadlines;
            let left = crate::flash::unexpired(all, clock.millis);
            assert(crate::flash::any_unexpired(left, clock.millis) == crate::flash::any_unexpired(
                all,
                clock.millis,
            )) by {
                if crate::flash::any_unexpired(all, clock.millis) {
                    let id = choose|id: u32| #[trigger]
                        all.contains_key(id) && clock.millis < all[id];
                    assert(left.contains_key(id));
                }
                if crate::flash::any_unexpired(left, clock.millis) {
                    let id = choose|id: u32| #[trigger]
                        left.contains_key(id) && clock.millis < left[id];
                    assert(all.contains_key(id));
                }
            }
            assert(self@ =~= crate::model::timed(old(self)@, clock));
            assert(out@.actions =~= crate::model::timer_outcome(old(self)@, clock).actions);
        }
        out
    }

    /// The permission request was answered.
    pub fn on_permission_result(&self) -> (out: Outcome)
        ensures
            out@ == (OutcomeView { actions: crate::model::permission_actions(self@), render: false }),
    {
        let mut actions: Vec<Action> = Vec::new();
        // Not selectable, so that the bar stays visible during fullscreen.
        actions.push(Action::SetSelectable(false));
        actions.push(Action::RequestSync);
        if !self.config_loaded {
            actions.push(Action::LoadConfig);
        }
        if !self.hooks_installed {
            actions.push(Action::InstallHooks);
        }
        proof {
            assert(crate::event::actions_view(actions@) =~= crate::model::permission_actions(self@));
        }
        Outcome { actions, render: false }
    }

    /// New tabs.
    pub fn on_tab_update(&mut self, tabs: Vec<TabInfo>, now_ms: u64) -> (actions: Vec<Action>)
        requires
            crate::titles::tabs_numbered(crate::tab_pane_map::tabs_view(tabs@)),
        ensures
            crate::model::pane_map_rebuilt(
                crate::model::retabbed(old(self)@, crate::tab_pane_map::tabs_view(tabs@)),
                now_ms,
                final(self)@,
                crate::event::actions_view(actions@),
            ),
    {
        let new_active = find_active(&tabs);
        let changed: bool = match (new_active, self.active_tab_index) {
            (Some(new), Some(last)) => new != last,
            (None, None) => false,
            _ => true,
        };
        if changed {
            // The focus moved: stop the flashes on the newly focused tab.
            if let Some(idx) = new_active {
                self.clear_flashes_on_tab(idx);
            }
        }
        self.active_tab_index = new_active;
        self.tabs = tabs;
        proof {
            assert(self@ =~= crate::model::retabbed(
                old(self)@,
                crate::tab_pane_map::tabs_view(tabs@),
            ));
        }
        self.rebuild_pane_map(now_ms)
    }

    /// Handle one event from the host.
    pub fn update(&mut self, event: Event, clock: Clock) -> (out: Outcome)
        requires
            crate::model::well_formed(old(self)@),
            crate::model::event_well_formed(old(self)@, event@),
        ensures
            crate::model::updated(old(self)@, event@, clock, final(self)@, out@),
            crate::model::well_formed(final(self)@),
    {
        let ghost happened = event@;
        let out = match event {
            Event::TabUpdate(tabs) => {
                let actions = self.on_tab_update(tabs, clock.millis);
                Outcome { actions, render: true }
            },
            Event::PaneUpdate(manifest) => {
                self.pane_manifest = Some(manifest);
                let actions = self.rebuild_pane_map(clock.millis);
                Outcome { actions, render: true }
            },
            Event::ModeUpdate { mode, session_name } => {
                self.input_mode = mode;
                if let Some(name) = session_name {
                    self.zellij_session_name = Some(name);
                }
                no_actions(true)
            },
            Event::LeftClick(col) => self.on_left_click(col, clock.millis),
            Event::RunCommandResult { exit_code, command, settings } => self.on_command_result(
                exit_code,
                command,
                settings,
                clock.millis,
            ),
            Event::Timer => self.on_timer(clock),
            Event::PermissionRequestResult => self.on_permission_result(),
            Event::Other => no_actions(false),
        };
        proof {
            crate::laws::law_update_keeps_well_formed(old(self)@, happened, clock, self@, out@);
        }
        out
    }

    /// Handle one pipe message. `payload` is what came with it, read as the message's
    /// topic asks, or as it stands where it could not be read so.
    pub fn pipe(&mut self, name: &str, payload: PipePayload) -> (out: Outcome)
        ensures
            (final(self)@, out@) == crate::model::piped(old(self)@, crate::event::topic_of(name@), payload@),
            crate::model::well_formed(old(self)@) ==> crate::model::well_formed(final(self)@),
    {
        match (pipe_topic(name), payload) {
            (PipeTopic::Hook, PipePayload::Hook) => one_action(Action::HandleHook, true),
            (PipeTopic::Focus, PipePayload::Text(text)) => match parse_u32(trim(text.as_str())) {
                Some(id) => one_action(Action::FocusPane(id), false),
                None => no_actions(false),
            },
            (PipeTopic::Request, _) => one_action(
                Action::BroadcastSessions(copy_sessions(&self.sessions)),
                false,
            ),
            (PipeTopic::Settings, PipePayload::Settings(settings)) => {
                self.settings = settings;
                no_actions(true)
            },
            (PipeTopic::Sync, PipePayload::Sessions(sessions)) => {
                self.merge_sessions(sessions);
                no_actions(true)
            },
            _ => no_actions(false),
        }
    }
}

/// The view of the state leaves nothing out.
pub proof fn law_state_views_are_faithful(state: State)
    ensures
        state@.tabs == crate::tab_pane_map::tabs_view(state.tabs@),
        state@.active_tab_index == state.active_tab_index,
        state.pane_manifest is Some ==> state@.pane_manifest == Some(state.pane_manifest->0@),
        state.pane_manifest is None ==> state@.pane_manifest is None,
        state@.pane_to_tab.dom() == state.pane_to_tab@.dom(),
        forall|id: u32| #[trigger]
            state.pane_to_tab@.contains_key(id) ==> state@.pane_to_tab[id].0
                == state.pane_to_tab@[id].0 && state@.pane_to_tab[id].1
                == state.pane_to_tab@[id].1@,
        state@.sessions == crate::session::sessions_view(state.sessions@),
        state@.flash_deadlines == state.flash_deadlines@,
        state@.pending_renames == crate::titles::pending_view(state.pending_renames@),
        state@.last_rename_ms == state.last_rename_ms,
        state@.settings == state.settings,
        state@.config_loaded == state.config_loaded,
        state@.config_load_attempts == state.config_load_attempts,
        state@.last_config_load_ts == state.last_config_load_ts,
        state@.hooks_installed == state.hooks_installed,
        state@.input_mode == state.input_mode,
        state.zellij_session_name is Some ==> state@.zellij_session_name == Some(
            state.zellij_session_name->0@,
        ),
        state.zellij_session_name is None ==> state@.zellij_session_name is None,
        state@.view_mode == state.view_mode,
        state@.prefix_click_region == state.prefix_click_region,
        state@.click_regions == state.click_regions@,
        state@.menu_click_regions == state.menu_click_regions@,
{
    assert(state@.pane_to_tab.dom() =~= state.pane_to_tab@.dom());
}

} // verus!
