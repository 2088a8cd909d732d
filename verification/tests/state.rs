use std::collections::{BTreeMap, HashMap};

use zellaude::click::{ClickRegion, MenuClickRegion, ViewMode};
use zellaude::event::{pipe_topic, Action, Clock, Event, InputMode, Outcome, PipePayload, PipeTopic, Tick};
use zellaude::model::{CONFIG_LOAD_MAX_ATTEMPTS, CONFIG_LOAD_RETRY_SECS};
use zellaude::session::{Activity, SessionInfo, DONE_TIMEOUT};
use zellaude::settings::{MenuAction, ModeSetting, SettingKey, Settings};
use zellaude::state::State;
use zellaude::tab_pane_map::{PaneInfo, PaneManifest, TabInfo};

fn settings() -> Settings {
    Settings {
        notifications: ModeSetting { mode: 0, modes: 3 },
        flash: ModeSetting { mode: 1, modes: 3 },
        elapsed_time: false,
        mode_indicator: true,
        tab_titles: false,
    }
}

fn fresh() -> State {
    State::new(settings())
}

fn at(secs: u64) -> Clock {
    Clock { secs, millis: secs * 1000 }
}

fn session(pane_id: u32, activity: Activity, last_event_ts: u64) -> SessionInfo {
    SessionInfo {
        pane_id,
        activity,
        last_event_ts,
        tab_index: None,
        tab_name: None,
        details: "d".to_string(),
    }
}

fn working() -> Activity {
    Activity::Other("Thinking".to_string())
}

fn tab(position: usize, name: &str, active: bool) -> TabInfo {
    TabInfo { position, name: name.to_string(), active }
}

fn manifest(tabs: &[(usize, &[u32])]) -> PaneManifest {
    let mut panes = HashMap::new();
    for (position, ids) in tabs {
        let mut on_tab: Vec<PaneInfo> = Vec::new();
        for id in ids.iter() {
            on_tab.push(PaneInfo { id: *id, is_plugin: false, title: String::new() });
        }
        panes.insert(*position, on_tab);
    }
    PaneManifest { panes }
}

fn outcome(actions: Vec<Action>, render: bool) -> Outcome {
    Outcome { actions, render }
}

fn finished(exit_code: Option<i32>, command: Option<&str>, settings: Option<Settings>) -> Event {
    Event::RunCommandResult { exit_code, command: command.map(|s| s.to_string()), settings }
}

// Tabs, panes and sessions.

#[test]
fn the_first_active_tab_has_the_focus() {
    let mut state = fresh();
    let list = vec![tab(0, "a", false), tab(7, "b", true), tab(2, "c", true)];
    let out = state.update(Event::TabUpdate(list), at(1));
    assert_eq!(out, outcome(vec![], true));
    assert_eq!(state.active_tab_index, Some(7));
    state.update(Event::TabUpdate(vec![tab(0, "a", false)]), at(2));
    assert_eq!(state.active_tab_index, None);
}

#[test]
fn sessions_follow_their_panes() {
    let mut state = fresh();
    state.sessions.insert(5, session(5, working(), 1));
    state.sessions.insert(6, session(6, working(), 1));
    state.update(Event::TabUpdate(vec![tab(0, "zero", true), tab(1, "one", false)]), at(1));
    assert_eq!(state.sessions.len(), 2);
    let out = state.update(Event::PaneUpdate(manifest(&[(1, &[5])])), at(1));
    assert_eq!(out, outcome(vec![], true));
    assert_eq!(state.sessions.len(), 1);
    let left = state.sessions.get(&5).unwrap();
    assert_eq!(left.tab_index, Some(1));
    assert_eq!(left.tab_name, Some("one".to_string()));
    assert_eq!(left.details, "d");
    state.update(Event::PaneUpdate(manifest(&[(0, &[5])])), at(1));
    assert_eq!(state.sessions.get(&5).unwrap().tab_name, Some("zero".to_string()));
}

#[test]
fn a_session_kept_under_another_pane_id_goes_by_both() {
    let mut state = fresh();
    state.sessions.insert(5, session(6, working(), 1));
    state.tabs = vec![tab(0, "zero", true), tab(1, "one", false)];
    state.update(Event::PaneUpdate(manifest(&[(0, &[5]), (1, &[6])])), at(1));
    assert_eq!(state.sessions.get(&5).unwrap().tab_index, Some(1));
    state.update(Event::PaneUpdate(manifest(&[(1, &[6])])), at(1));
    assert_eq!(state.sessions.len(), 0);
}

#[test]
fn going_to_a_tab_stops_its_flashes() {
    let mut state = fresh();
    state.update(Event::PaneUpdate(manifest(&[(0, &[5]), (1, &[6])])), at(1));
    state.sessions.insert(5, session(5, working(), 1));
    state.sessions.insert(6, session(6, working(), 1));
    state.flash_deadlines.insert(5, 99);
    state.flash_deadlines.insert(6, 99);
    state.update(Event::TabUpdate(vec![tab(0, "a", true), tab(1, "b", false)]), at(1));
    // The sessions were not on any tab yet when the focus moved.
    assert_eq!(state.flash_deadlines.len(), 2);
    state.update(Event::TabUpdate(vec![tab(0, "a", true), tab(1, "b", false)]), at(1));
    assert_eq!(state.flash_deadlines.len(), 2);
    state.update(Event::TabUpdate(vec![tab(0, "a", false), tab(1, "b", true)]), at(1));
    assert_eq!(state.flash_deadlines.get(&5), Some(&99));
    assert_eq!(state.flash_deadlines.get(&6), None);
}

#[test]
fn mode_updates_keep_the_last_session_name() {
    let mut state = fresh();
    let out = state.update(
        Event::ModeUpdate { mode: InputMode::Locked, session_name: Some("main".to_string()) },
        at(1),
    );
    assert_eq!(out, outcome(vec![], true));
    state.update(Event::ModeUpdate { mode: InputMode::Pane, session_name: None }, at(1));
    assert_eq!(state.input_mode, InputMode::Pane);
    assert_eq!(state.zellij_session_name, Some("main".to_string()));
}

// Clicks.

#[test]
fn a_click_on_the_prefix_opens_and_closes_the_settings() {
    let mut state = fresh();
    state.prefix_click_region = Some((2, 4));
    assert_eq!(state.update(Event::LeftClick(1), at(1)), outcome(vec![], false));
    assert_eq!(state.update(Event::LeftClick(2), at(1)), outcome(vec![], true));
    assert_eq!(state.view_mode, ViewMode::Settings);
    assert_eq!(state.update(Event::LeftClick(4), at(1)), outcome(vec![], false));
    assert_eq!(state.update(Event::LeftClick(3), at(1)), outcome(vec![], true));
    assert_eq!(state.view_mode, ViewMode::Normal);
}

#[test]
fn a_click_on_a_session_goes_to_it() {
    let mut state = fresh();
    state.prefix_click_region = Some((0, 3));
    state.click_regions = vec![
        ClickRegion { start_col: 2, end_col: 6, tab_index: 4, pane_id: 40, is_waiting: false },
        ClickRegion { start_col: 5, end_col: 9, tab_index: 1, pane_id: 10, is_waiting: true },
    ];
    assert_eq!(state.update(Event::LeftClick(3), at(1)), outcome(vec![Action::SwitchTab(5)], false));
    assert_eq!(state.update(Event::LeftClick(5), at(1)), outcome(vec![Action::SwitchTab(5)], false));
    assert_eq!(state.update(Event::LeftClick(6), at(1)), outcome(vec![Action::FocusPane(10)], false));
    assert_eq!(state.update(Event::LeftClick(9), at(1)), outcome(vec![], false));
    // The prefix comes first.
    assert_eq!(state.update(Event::LeftClick(2), at(1)), outcome(vec![], true));
    // And the settings hide the sessions.
    assert_eq!(state.update(Event::LeftClick(6), at(1)), outcome(vec![], false));
}

#[test]
fn menu_clicks_change_settings_and_save_them() {
    let keys = [
        SettingKey::Notifications,
        SettingKey::Flash,
        SettingKey::ElapsedTime,
        SettingKey::ModeIndicator,
        SettingKey::TabTitles,
    ];
    let mut state = fresh();
    state.view_mode = ViewMode::Settings;
    state.config_loaded = true;
    let mut col: usize = 0;
    for key in keys {
        state.menu_click_regions.push(MenuClickRegion {
            start_col: col,
            end_col: col + 1,
            action: MenuAction::ToggleSetting(key),
        });
        col += 1;
    }
    state.menu_click_regions.push(MenuClickRegion {
        start_col: 5,
        end_col: 6,
        action: MenuAction::CloseMenu,
    });
    col = 0;
    while col < 5 {
        let out = state.update(Event::LeftClick(col), at(1));
        let now = state.settings;
        assert_eq!(
            out,
            outcome(vec![Action::BroadcastSettings(now), Action::SaveConfig(now)], true)
        );
        col += 1;
    }
    assert_eq!(
        state.settings,
        Settings {
            notifications: ModeSetting { mode: 1, modes: 3 },
            flash: ModeSetting { mode: 2, modes: 3 },
            elapsed_time: true,
            mode_indicator: false,
            tab_titles: true,
        }
    );
    assert_eq!(state.view_mode, ViewMode::Settings);
    assert_eq!(state.update(Event::LeftClick(6), at(1)), outcome(vec![], false));
    assert_eq!(state.update(Event::LeftClick(5), at(1)), outcome(vec![], true));
    assert_eq!(state.view_mode, ViewMode::Normal);
}

#[test]
fn settings_are_not_saved_before_they_are_loaded() {
    let mut state = fresh();
    state.view_mode = ViewMode::Settings;
    state.menu_click_regions = vec![MenuClickRegion {
        start_col: 0,
        end_col: 1,
        action: MenuAction::ToggleSetting(SettingKey::ElapsedTime),
    }];
    assert_eq!(state.update(Event::LeftClick(0), at(1)), outcome(vec![], true));
    assert!(state.settings.elapsed_time);
    assert_eq!(state.save_config(), vec![]);
    state.config_loaded = true;
    let mut changed = settings();
    changed.elapsed_time = true;
    assert_eq!(
        state.save_config(),
        vec![Action::BroadcastSettings(changed), Action::SaveConfig(changed)]
    );
}

#[test]
fn modes_are_stepped_through_in_a_ring() {
    let start = ModeSetting { mode: 1, modes: 3 };
    assert_eq!(start.cycle(), ModeSetting { mode: 2, modes: 3 });
    assert_eq!(start.cycle().cycle(), ModeSetting { mode: 0, modes: 3 });
    assert_eq!(start.cycle().cycle().cycle(), start);
    assert_eq!(ModeSetting { mode: 255, modes: 255 }.cycle().mode, 0);
}

#[test]
fn switching_a_setting_twice_changes_nothing() {
    for key in [SettingKey::ElapsedTime, SettingKey::ModeIndicator, SettingKey::TabTitles] {
        let mut changed = settings();
        changed.toggle(key);
        assert_ne!(changed, settings());
        changed.toggle(key);
        assert_eq!(changed, settings());
    }
}

// Commands.

#[test]
fn loaded_settings_are_taken_over() {
    let mut state = fresh();
    let mut other = settings();
    other.elapsed_time = true;
    let out = state.update(finished(Some(0), Some("load_config"), Some(other)), at(1));
    assert_eq!(out, outcome(vec![], true));
    assert_eq!(state.settings, other);
    assert!(state.config_loaded);
}

#[test]
fn unreadable_settings_leave_the_old_ones_in_force() {
    let mut state = fresh();
    let out = state.update(finished(Some(0), Some("load_config"), None), at(1));
    assert_eq!(out, outcome(vec![], true));
    assert_eq!(state.settings, settings());
    assert!(state.config_loaded);
}

#[test]
fn a_failed_load_changes_nothing() {
    let mut state = fresh();
    let mut other = settings();
    other.elapsed_time = true;
    for exit_code in [Some(1), Some(-1), None] {
        let out = state.update(finished(exit_code, Some("load_config"), Some(other)), at(1));
        assert_eq!(out, outcome(vec![], false));
        assert_eq!(state.settings, settings());
        assert!(!state.config_loaded);
    }
}

#[test]
fn hooks_are_installed_whatever_the_exit_code() {
    for exit_code in [Some(0), Some(1), None] {
        let mut state = fresh();
        let out = state.update(finished(exit_code, Some("install_hooks"), None), at(1));
        assert_eq!(out, outcome(vec![], false));
        assert!(state.hooks_installed);
    }
}

#[test]
fn other_commands_are_ignored() {
    for command in [None, Some("save_config"), Some("")] {
        let mut state = fresh();
        let out = state.update(finished(Some(0), command, Some(settings())), at(1));
        assert_eq!(out, outcome(vec![], false));
        assert!(!state.config_loaded && !state.hooks_installed);
    }
}

// The timer.

#[test]
fn the_load_is_retried_slowly_and_not_forever() {
    let mut state = fresh();
    let mut tries: Vec<u64> = Vec::new();
    let mut now: u64 = 1000;
    while now < 1200 {
        let out = state.update(Event::Timer, at(now));
        if out.actions.len() == 2 {
            assert_eq!(out.actions[0], Action::LoadConfig);
            tries.push(now);
        }
        assert_eq!(out.actions[out.actions.len() - 1], Action::SetTimeout(Tick::Normal));
        now += 1;
    }
    assert_eq!(tries.len(), CONFIG_LOAD_MAX_ATTEMPTS as usize);
    assert_eq!(tries.len(), 12);
    assert_eq!(tries[0], 1000);
    assert_eq!(tries[1], 1000 + CONFIG_LOAD_RETRY_SECS);
    assert_eq!(tries[11], 1055);
    assert_eq!(state.config_load_attempts, 12);
    assert_eq!(state.last_config_load_ts, 1055);
}

#[test]
fn the_load_is_not_retried_once_it_landed() {
    let mut state = fresh();
    state.update(finished(Some(0), Some("load_config"), None), at(1));
    let out = state.update(Event::Timer, at(1000));
    assert_eq!(out, outcome(vec![Action::SetTimeout(Tick::Normal)], false));
    assert_eq!(state.config_load_attempts, 0);
}

#[test]
fn finished_sessions_go_idle() {
    let mut state = fresh();
    state.config_loaded = true;
    state.sessions.insert(1, session(1, Activity::Done, 100));
    state.sessions.insert(2, session(2, Activity::AgentDone, 101));
    state.sessions.insert(3, session(3, working(), 0));
    let out = state.update(Event::Timer, at(100 + DONE_TIMEOUT - 1));
    assert_eq!(out, outcome(vec![Action::SetTimeout(Tick::Normal)], false));
    let out = state.update(Event::Timer, at(100 + DONE_TIMEOUT));
    assert!(out.render);
    assert_eq!(state.sessions.get(&1).unwrap().activity, Activity::Idle);
    assert_eq!(state.sessions.get(&2).unwrap().activity, Activity::AgentDone);
    assert_eq!(state.sessions.get(&3).unwrap().activity, working());
    // A second timer at the same time finds nothing to do.
    let out = state.update(Event::Timer, at(100 + DONE_TIMEOUT));
    assert!(!out.render);
    assert!(state.cleanup_stale_sessions(131));
    assert!(!state.cleanup_stale_sessions(131));
}

#[test]
fn flashes_run_out() {
    let mut state = fresh();
    state.config_loaded = true;
    state.flash_deadlines.insert(1, 5000);
    state.flash_deadlines.insert(2, 6000);
    let out = state.update(Event::Timer, at(5));
    assert_eq!(out, outcome(vec![Action::SetTimeout(Tick::Flash)], true));
    assert_eq!(state.flash_deadlines.len(), 1);
    assert!(state.has_active_flashes(5999));
    assert!(!state.has_active_flashes(6000));
    let out = state.update(Event::Timer, at(6));
    assert_eq!(out, outcome(vec![Action::SetTimeout(Tick::Normal)], true));
    assert_eq!(state.flash_deadlines.len(), 0);
    let out = state.update(Event::Timer, at(6));
    assert_eq!(out, outcome(vec![Action::SetTimeout(Tick::Normal)], false));
}

#[test]
fn elapsed_time_is_drawn_when_switched_on() {
    let mut state = fresh();
    state.config_loaded = true;
    state.sessions.insert(3, session(3, working(), 100));
    assert!(!state.update(Event::Timer, at(130)).render);
    state.settings.elapsed_time = true;
    assert!(!state.has_elapsed_display(129));
    assert!(state.has_elapsed_display(130));
    assert!(state.update(Event::Timer, at(130)).render);
    state.sessions.insert(3, session(3, Activity::Idle, 100));
    assert!(!state.update(Event::Timer, at(130)).render);
}

#[test]
fn a_clock_behind_the_events_makes_nothing_stale() {
    let mut state = fresh();
    state.settings.elapsed_time = true;
    state.config_loaded = true;
    state.sessions.insert(1, session(1, Activity::Done, 1000));
    assert!(!state.update(Event::Timer, at(5)).render);
}

// Permissions.

#[test]
fn permission_is_followed_by_what_is_still_missing() {
    let mut state = fresh();
    assert_eq!(
        state.update(Event::PermissionRequestResult, at(1)),
        outcome(
            vec![
                Action::SetSelectable(false),
                Action::RequestSync,
                Action::LoadConfig,
                Action::InstallHooks,
            ],
            false
        )
    );
    state.config_loaded = true;
    state.hooks_installed = true;
    assert_eq!(
        state.update(Event::PermissionRequestResult, at(1)),
        outcome(vec![Action::SetSelectable(false), Action::RequestSync], false)
    );
    assert_eq!(state.update(Event::Other, at(1)), outcome(vec![], false));
}

// Messages.

#[test]
fn topics_go_by_the_whole_name() {
    assert_eq!(pipe_topic("zellaude"), PipeTopic::Hook);
    assert_eq!(pipe_topic("zellaude:focus"), PipeTopic::Focus);
    assert_eq!(pipe_topic("zellaude:request"), PipeTopic::Request);
    assert_eq!(pipe_topic("zellaude:settings"), PipeTopic::Settings);
    assert_eq!(pipe_topic("zellaude:sync"), PipeTopic::Sync);
    for name in ["", "zellaud", "zellaude:", "Zellaude", "zellaude:focus "] {
        assert_eq!(pipe_topic(name), PipeTopic::Unknown);
    }
}

#[test]
fn hook_messages_are_handed_on_if_they_can_be_read() {
    let mut state = fresh();
    assert_eq!(
        state.pipe("zellaude", PipePayload::Hook),
        outcome(vec![Action::HandleHook], true)
    );
    let out = state.pipe("zellaude", PipePayload::Text("x".to_string()));
    assert_eq!(out, outcome(vec![], false));
    assert_eq!(state.pipe("zellaude", PipePayload::Absent), outcome(vec![], false));
}

#[test]
fn focus_messages_name_a_pane() {
    let mut state = fresh();
    let mut focus = |text: &str| state.pipe("zellaude:focus", PipePayload::Text(text.to_string()));
    assert_eq!(focus(" 17\n"), outcome(vec![Action::FocusPane(17)], false));
    assert_eq!(focus("+4"), outcome(vec![Action::FocusPane(4)], false));
    for text in ["", "-1", "4294967296", "1 2", "pane"] {
        assert_eq!(focus(text), outcome(vec![], false));
    }
    assert_eq!(state.pipe("zellaude:focus", PipePayload::Absent), outcome(vec![], false));
}

#[test]
fn requests_are_answered_with_the_sessions() {
    let mut state = fresh();
    let empty = outcome(vec![Action::BroadcastSessions(BTreeMap::new())], false);
    assert_eq!(state.pipe("zellaude:request", PipePayload::Absent), empty);
    state.merge_sessions(theirs());
    state.sessions.insert(9, session(9, working(), 4));
    let mut known = theirs();
    known.insert(9, session(9, working(), 4));
    let answer = outcome(vec![Action::BroadcastSessions(known)], false);
    assert_eq!(state.pipe("zellaude:request", PipePayload::Text("x".to_string())), answer);
    assert_eq!(state.sessions.len(), 4);
}

#[test]
fn settings_of_another_instance_are_taken_over() {
    let mut state = fresh();
    let mut other = settings();
    other.mode_indicator = false;
    assert_eq!(
        state.pipe("zellaude:settings", PipePayload::Settings(other)),
        outcome(vec![], true)
    );
    assert_eq!(state.settings, other);
    assert!(!state.config_loaded);
    let out = state.pipe("zellaude:settings", PipePayload::Text("{".to_string()));
    assert_eq!(out, outcome(vec![], false));
    let out = state.pipe("zellaude:sync", PipePayload::Settings(settings()));
    assert_eq!(out, outcome(vec![], false));
    assert_eq!(state.settings, other);
}

fn theirs() -> BTreeMap<u32, SessionInfo> {
    let mut incoming = BTreeMap::new();
    incoming.insert(1, session(1, Activity::Done, 5));
    incoming.insert(2, session(2, Activity::Done, 6));
    incoming.insert(3, session(3, Activity::Done, 7));
    incoming
}

#[test]
fn newer_sessions_of_another_instance_are_taken_over() {
    let mut state = fresh();
    state.update(Event::TabUpdate(vec![tab(0, "zero", true)]), at(1));
    state.update(Event::PaneUpdate(manifest(&[(0, &[1, 2])])), at(1));
    state.sessions.insert(1, session(1, working(), 5));
    state.sessions.insert(2, session(2, working(), 5));
    state.sessions.insert(4, session(4, working(), 1));
    let out = state.pipe("zellaude:sync", PipePayload::Sessions(theirs()));
    assert_eq!(out, outcome(vec![], true));
    assert_eq!(state.sessions.len(), 4);
    // As old as ours: ours stays.
    assert_eq!(state.sessions.get(&1).unwrap().activity, working());
    let second = state.sessions.get(&2).unwrap();
    assert_eq!(second.activity, Activity::Done);
    assert_eq!(second.last_event_ts, 6);
    assert_eq!(second.tab_index, Some(0));
    assert_eq!(second.tab_name, Some("zero".to_string()));
    // Not on a pane known here.
    assert_eq!(state.sessions.get(&3).unwrap().tab_index, None);
    assert_eq!(state.sessions.get(&4).unwrap().last_event_ts, 1);
}

#[test]
fn merging_twice_is_merging_once() {
    let mut state = fresh();
    state.sessions.insert(1, session(1, working(), 9));
    state.merge_sessions(theirs());
    let mut once: Vec<(u32, u64)> = Vec::new();
    for (id, s) in &state.sessions {
        once.push((*id, s.last_event_ts));
    }
    state.merge_sessions(theirs());
    let mut twice: Vec<(u32, u64)> = Vec::new();
    for (id, s) in &state.sessions {
        twice.push((*id, s.last_event_ts));
    }
    assert_eq!(once, vec![(1, 9), (2, 6), (3, 7)]);
    assert_eq!(twice, once);
}

#[test]
fn instances_end_up_with_the_same_sessions() {
    let mut a = fresh();
    let mut b = fresh();
    a.merge_sessions(theirs());
    let mut others = BTreeMap::new();
    others.insert(1, session(1, working(), 8));
    others.insert(9, session(9, working(), 1));
    b.sessions = others;
    let mut from_b = BTreeMap::new();
    from_b.insert(1, session(1, working(), 8));
    from_b.insert(9, session(9, working(), 1));
    a.merge_sessions(from_b);
    b.merge_sessions(theirs());
    assert_eq!(a.sessions, b.sessions);
}
