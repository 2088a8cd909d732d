use std::collections::HashMap;

use zellaude::click::{MenuClickRegion, ViewMode};
use zellaude::event::{Action, Clock, Event, Outcome};
use zellaude::session::{Activity, SessionInfo};
use zellaude::settings::{MenuAction, ModeSetting, SettingKey, Settings};
use zellaude::state::State;
use zellaude::tab_pane_map::{PaneInfo, PaneManifest, TabInfo};
use zellaude::titles::{pending_attempts, RENAME_COOLDOWN_MS, RENAME_MAX_ATTEMPTS};

fn settings(tab_titles: bool) -> Settings {
    Settings {
        notifications: ModeSetting { mode: 0, modes: 3 },
        flash: ModeSetting { mode: 0, modes: 3 },
        elapsed_time: true,
        mode_indicator: true,
        tab_titles,
    }
}

fn at(millis: u64) -> Clock {
    Clock { secs: millis / 1000, millis }
}

fn tabs(names: &[&str]) -> Vec<TabInfo> {
    let mut list: Vec<TabInfo> = Vec::new();
    for name in names {
        list.push(TabInfo { position: list.len(), name: name.to_string(), active: false });
    }
    list
}

fn panes(titles: &[&str]) -> PaneManifest {
    let mut panes = HashMap::new();
    let mut position: usize = 0;
    for title in titles {
        panes.insert(
            position,
            vec![PaneInfo {
                id: 10 + position as u32,
                is_plugin: false,
                title: title.to_string(),
            }],
        );
        position += 1;
    }
    PaneManifest { panes }
}

fn rename(tab: u32, name: &str) -> Action {
    Action::RenameTab { tab, name: name.to_string() }
}

fn drawn(actions: Vec<Action>) -> Outcome {
    Outcome { actions, render: true }
}

#[test]
fn tabs_are_named_after_their_panes() {
    let mut state = State::new(settings(true));
    let out = state.update(Event::TabUpdate(tabs(&["Tab #1", "Tab #2", "Tab #3"])), at(1000));
    assert_eq!(out, drawn(vec![]));
    let out = state.update(Event::PaneUpdate(panes(&[" build\u{7} ", "Tab #2", "  "])), at(1001));
    assert_eq!(out, drawn(vec![rename(1, "build")]));
    assert_eq!(state.last_rename_ms, 1001);
    assert_eq!(state.pending_renames.len(), 1);
    let pending = &state.pending_renames[0];
    assert_eq!(pending.observed, "Tab #1");
    assert_eq!(pending.desired, "build");
    assert_eq!(pending.attempts, 1);
}

#[test]
fn renames_go_out_in_tab_order() {
    let mut state = State::new(settings(true));
    state.update(Event::TabUpdate(tabs(&["a", "b", "c"])), at(1000));
    let out = state.update(Event::PaneUpdate(panes(&["x", "y", "z"])), at(2000));
    assert_eq!(out, drawn(vec![rename(1, "x"), rename(2, "y"), rename(3, "z")]));
}

#[test]
fn nothing_is_renamed_with_the_setting_off() {
    let mut state = State::new(settings(false));
    state.update(Event::TabUpdate(tabs(&["a"])), at(1000));
    let out = state.update(Event::PaneUpdate(panes(&["x"])), at(2000));
    assert_eq!(out, drawn(vec![]));
    assert_eq!(state.last_rename_ms, 0);
}

#[test]
fn drifted_positions_are_left_alone() {
    let mut state = State::new(settings(true));
    state.update(Event::PaneUpdate(panes(&["x", "y", "z"])), at(1000));
    let mut list = tabs(&["a", "b"]);
    list[1].position = 2;
    let out = state.update(Event::TabUpdate(list), at(2000));
    assert_eq!(out, drawn(vec![rename(1, "x")]));
}

#[test]
fn batches_keep_their_distance() {
    let mut state = State::new(settings(true));
    state.update(Event::TabUpdate(tabs(&["a"])), at(1000));
    let out = state.update(Event::PaneUpdate(panes(&["x"])), at(5000));
    assert_eq!(out.actions.len(), 1);
    let too_soon: u64 = 5000 + RENAME_COOLDOWN_MS - 1;
    let out = state.update(Event::PaneUpdate(panes(&["y"])), at(too_soon));
    assert_eq!(out, drawn(vec![]));
    let out = state.update(Event::PaneUpdate(panes(&["y"])), at(too_soon + 1));
    assert_eq!(out, drawn(vec![rename(1, "y")]));
    assert_eq!(RENAME_COOLDOWN_MS, 400);
}

#[test]
fn a_clock_that_goes_back_holds_renames_up() {
    let mut state = State::new(settings(true));
    state.update(Event::TabUpdate(tabs(&["a"])), at(9000));
    state.update(Event::PaneUpdate(panes(&["x"])), at(9000));
    let out = state.update(Event::PaneUpdate(panes(&["x"])), at(3000));
    assert_eq!(out, drawn(vec![]));
}

#[test]
fn a_rename_that_never_lands_is_abandoned() {
    let mut state = State::new(settings(true));
    state.update(Event::TabUpdate(tabs(&["a"])), at(1000));
    let mut asked: u8 = 0;
    let mut now: u64 = 2000;
    while now < 20000 {
        let out = state.update(Event::PaneUpdate(panes(&["x"])), at(now));
        if out.actions.len() > 0 {
            assert_eq!(out.actions, vec![rename(1, "x")]);
            asked += 1;
        }
        now += 1000;
    }
    assert_eq!(asked, RENAME_MAX_ATTEMPTS);
    assert_eq!(asked, 3);
    assert_eq!(state.pending_renames.len(), 1);
    let pending = &state.pending_renames[0];
    assert_eq!(pending.observed, "a");
    assert_eq!(pending.desired, "x");
    assert_eq!(pending.attempts, 3);
}

#[test]
fn a_new_title_is_asked_for_after_the_old_was_given_up() {
    let mut state = State::new(settings(true));
    state.update(Event::TabUpdate(tabs(&["a"])), at(1000));
    let mut now: u64 = 2000;
    while now < 10000 {
        state.update(Event::PaneUpdate(panes(&["x"])), at(now));
        now += 1000;
    }
    let out = state.update(Event::PaneUpdate(panes(&["y"])), at(now));
    assert_eq!(out, drawn(vec![rename(1, "y")]));
    let pending = &state.pending_renames[0];
    assert_eq!(pending.desired, "y");
    assert_eq!(pending.attempts, 1);
}

#[test]
fn a_rename_that_landed_is_forgotten() {
    let mut state = State::new(settings(true));
    state.update(Event::TabUpdate(tabs(&["a"])), at(1000));
    state.update(Event::PaneUpdate(panes(&["x"])), at(2000));
    assert_eq!(state.pending_renames.len(), 1);
    let out = state.update(Event::TabUpdate(tabs(&["x"])), at(3000));
    assert_eq!(out, drawn(vec![]));
    assert_eq!(state.pending_renames.len(), 0);
}

#[test]
fn a_rename_whose_tab_is_gone_is_forgotten() {
    let mut state = State::new(settings(true));
    state.update(Event::TabUpdate(tabs(&["a"])), at(1000));
    state.update(Event::PaneUpdate(panes(&["x"])), at(2000));
    let out = state.update(Event::TabUpdate(tabs(&["other"])), at(3000));
    assert_eq!(out, drawn(vec![rename(1, "x")]));
    assert_eq!(state.pending_renames.len(), 1);
    let pending = &state.pending_renames[0];
    assert_eq!(pending.observed, "other");
    assert_eq!(pending.attempts, 1);
}

/// How often each of `wanted` went out, and that nothing else did, over rounds a second
/// apart in which the tabs never change.
fn count_renames(names: &[&str], titles: &[&str], rounds: u64, wanted: &[Action]) -> Vec<usize> {
    let mut state = State::new(settings(true));
    state.tabs = tabs(names);
    state.pane_manifest = Some(panes(titles));
    let mut counts: Vec<usize> = vec![0; wanted.len()];
    let mut round: u64 = 1;
    while round <= rounds {
        for action in state.apply_tab_titles(round * 1000) {
            let index: usize = wanted.iter().position(|w| *w == action).unwrap();
            counts[index] += 1;
        }
        round += 1;
    }
    counts
}

#[test]
fn a_name_that_another_tab_has_is_asked_for_three_times() {
    let counts = count_renames(&["x", "Tab #2"], &["x", "x"], 5, &[rename(2, "x")]);
    assert_eq!(counts, vec![3]);
}

#[test]
fn two_tabs_of_one_name_have_three_attempts_each() {
    let wanted = [rename(1, "a"), rename(2, "b")];
    assert_eq!(count_renames(&["dup", "dup"], &["a", "b"], 5, &wanted), vec![3, 3]);
    let wanted = [rename(1, "a"), rename(2, "a")];
    assert_eq!(count_renames(&["dup", "dup"], &["a", "a"], 5, &wanted), vec![3, 3]);
}

#[test]
fn two_tabs_may_want_to_swap_names() {
    let wanted = [rename(1, "b"), rename(2, "a")];
    assert_eq!(count_renames(&["a", "b"], &["b", "a"], 9, &wanted), vec![3, 3]);
}

#[test]
fn a_third_tab_is_not_touched_by_two_of_one_name() {
    let wanted = [rename(1, "a"), rename(2, "b"), rename(3, "c")];
    let counts = count_renames(&["dup", "dup", "lone"], &["a", "b", "c"], 7, &wanted);
    assert_eq!(counts, vec![3, 3, 3]);
}

#[test]
fn landing_is_judged_at_the_tab_itself() {
    let mut state = State::new(settings(true));
    state.update(Event::TabUpdate(tabs(&["dup", "dup"])), at(1000));
    state.update(Event::PaneUpdate(panes(&["a", "a"])), at(2000));
    assert_eq!(state.pending_renames.len(), 1);
    let out = state.update(Event::TabUpdate(tabs(&["a", "dup"])), at(3000));
    assert_eq!(out, drawn(vec![rename(2, "a")]));
    assert_eq!(state.pending_renames.len(), 1);
    let pending = &state.pending_renames[0];
    assert_eq!(pending.observed, "dup");
    assert_eq!(pending.attempts, 2);
}

#[test]
fn a_tab_that_moves_takes_its_count_along() {
    let mut state = State::new(settings(true));
    state.update(Event::TabUpdate(tabs(&["other", "a"])), at(1000));
    let mut now: u64 = 2000;
    while now < 8000 {
        state.update(Event::PaneUpdate(panes(&["", "x"])), at(now));
        now += 1000;
    }
    assert_eq!(state.pending_renames[0].attempts, 3);
    state.update(Event::PaneUpdate(panes(&["x"])), at(now));
    let out = state.update(Event::TabUpdate(tabs(&["a"])), at(now + 1000));
    assert_eq!(out, drawn(vec![]));
    assert_eq!(state.pending_renames.len(), 1);
    assert_eq!(state.pending_renames[0].attempts, 3);
}

/// A state in which a tab called `a`, at `position` after other tabs, was asked in vain to
/// be called `x` as often as it ever is.
fn given_up(position: usize) -> State {
    let mut state = State::new(settings(true));
    let mut names: Vec<&str> = vec!["other"; position];
    names.push("a");
    let mut titles: Vec<&str> = vec![""; position];
    titles.push("x");
    state.update(Event::TabUpdate(tabs(&names)), at(1000));
    let mut now: u64 = 2000;
    while now < 8000 {
        state.update(Event::PaneUpdate(panes(&titles)), at(now));
        now += 1000;
    }
    assert_eq!(state.pending_renames.len(), 1);
    assert_eq!(state.pending_renames[0].observed, "a");
    assert_eq!(state.pending_renames[0].desired, "x");
    assert_eq!(state.pending_renames[0].attempts, 3);
    state
}

#[test]
fn a_count_survives_any_drift() {
    for kept in [0, 1, 2] {
        for reported in [0, 1, 2, 7] {
            let mut state = given_up(kept);
            let mut drifted = tabs(&["a"]);
            drifted[0].position = reported;
            let out = state.update(Event::TabUpdate(drifted), at(9000));
            assert_eq!(out, drawn(vec![]));
            assert_eq!(state.pending_renames.len(), 1);
            state.update(Event::PaneUpdate(panes(&["x"])), at(10000));
            let out = state.update(Event::TabUpdate(tabs(&["a"])), at(11000));
            assert_eq!(out, drawn(vec![]));
            assert_eq!(state.pending_renames[0].attempts, 3);
        }
    }
}

#[test]
fn a_count_is_kept_though_the_new_name_shows_elsewhere() {
    let mut state = given_up(1);
    let out = state.update(Event::TabUpdate(tabs(&["x", "a"])), at(9000));
    assert_eq!(out, drawn(vec![]));
    assert_eq!(state.pending_renames.len(), 1);
    assert_eq!(state.pending_renames[0].attempts, 3);
}

#[test]
fn a_tab_of_a_shared_name_that_moves_is_not_asked_again() {
    let mut state = State::new(settings(true));
    state.update(Event::TabUpdate(tabs(&["dup", "dup"])), at(1000));
    let mut now: u64 = 2000;
    while now < 8000 {
        state.update(Event::PaneUpdate(panes(&["x", ""])), at(now));
        now += 1000;
    }
    state.update(Event::PaneUpdate(panes(&["", "x", ""])), at(now));
    let out = state.update(Event::TabUpdate(tabs(&["new", "dup", "dup"])), at(now + 1000));
    assert_eq!(out, drawn(vec![]));
    assert_eq!(state.pending_renames[0].attempts, 3);
}

#[test]
fn a_new_target_leaves_what_another_tab_of_the_name_still_wants() {
    let mut state = State::new(settings(true));
    state.update(Event::TabUpdate(tabs(&["dup", "dup"])), at(1000));
    let mut now: u64 = 2000;
    while now < 8000 {
        state.update(Event::PaneUpdate(panes(&["x", "y"])), at(now));
        now += 1000;
    }
    assert_eq!(state.pending_renames.len(), 2);
    // One tab gets a new title, the other keeps its own.
    let out = state.update(Event::PaneUpdate(panes(&["z", "y"])), at(now));
    assert_eq!(out, drawn(vec![rename(1, "z")]));
    assert_eq!(pending_attempts(&state.pending_renames, "dup", "x"), None);
    assert_eq!(pending_attempts(&state.pending_renames, "dup", "y"), Some(3));
    assert_eq!(pending_attempts(&state.pending_renames, "dup", "z"), Some(1));
}

#[test]
fn a_title_that_goes_away_does_not_refill_the_budget() {
    let mut state = given_up(0);
    state.update(Event::PaneUpdate(panes(&[""])), at(9000));
    state.update(Event::PaneUpdate(panes(&["a"])), at(10000));
    let out = state.update(Event::PaneUpdate(panes(&["x"])), at(11000));
    assert_eq!(out, drawn(vec![]));
}

#[test]
fn sessions_break_ties_and_nothing_else() {
    for ts in [0, 5, 9] {
        let mut state = State::new(settings(true));
        if ts > 0 {
            for id in [10, 11] {
                state.sessions.insert(
                    id,
                    SessionInfo {
                        pane_id: id,
                        activity: Activity::Done,
                        last_event_ts: ts + id as u64,
                        tab_index: None,
                        tab_name: None,
                        details: String::new(),
                    },
                );
            }
        }
        state.update(Event::TabUpdate(tabs(&["a", "b"])), at(1000));
        let out = state.update(Event::PaneUpdate(panes(&["x", "y"])), at(2000));
        assert_eq!(out, drawn(vec![rename(1, "x"), rename(2, "y")]));
    }
}

#[test]
fn switching_titles_on_applies_them_at_once() {
    let mut state = State::new(settings(false));
    state.update(Event::TabUpdate(tabs(&["a"])), at(1000));
    state.update(Event::PaneUpdate(panes(&["x"])), at(2000));
    state.view_mode = ViewMode::Settings;
    state.menu_click_regions = vec![MenuClickRegion {
        start_col: 5,
        end_col: 9,
        action: MenuAction::ToggleSetting(SettingKey::TabTitles),
    }];
    let out = state.update(Event::LeftClick(5), at(3000));
    assert_eq!(out, drawn(vec![rename(1, "x")]));
    assert!(state.settings.tab_titles);
    let out = state.update(Event::LeftClick(8), at(4000));
    assert_eq!(out, drawn(vec![]));
    assert_eq!(state.pending_renames.len(), 0);
}

#[test]
fn settings_that_arrive_apply_titles_at_once() {
    let mut state = State::new(settings(false));
    state.update(Event::TabUpdate(tabs(&["a"])), at(1000));
    state.update(Event::PaneUpdate(panes(&["x"])), at(2000));
    let out = state.update(
        Event::RunCommandResult {
            exit_code: Some(0),
            command: Some("load_config".to_string()),
            settings: Some(settings(true)),
        },
        at(3000),
    );
    assert_eq!(out, drawn(vec![rename(1, "x")]));
    assert!(state.config_loaded);
}

#[test]
fn mirroring_takes_titles_and_their_panes() {
    let mut state = State::new(settings(true));
    state.tabs = tabs(&["a", "b", "c"]);
    let mut titles = HashMap::new();
    titles.insert(1, "x".to_string());
    titles.insert(2, "c".to_string());
    let mut source = HashMap::new();
    source.insert(0, 1);
    source.insert(1, 7);
    source.insert(2, 2);
    assert_eq!(state.mirror_titles(&titles, &source, 400), vec![rename(1, "x")]);
    assert_eq!(state.last_rename_ms, 400);
}
