use std::collections::{BTreeMap, HashMap};

use zellaude::rename_guard::pick_title_pane;
use zellaude::session::{Activity, SessionInfo};
use zellaude::tab_pane_map::{
    build_pane_titles, build_pane_to_tab_map, pick_title_panes, PaneInfo, PaneManifest, TabInfo,
};

fn tab(position: usize, name: &str) -> TabInfo {
    TabInfo { position, name: name.to_string(), active: false }
}

fn pane(id: u32, title: &str) -> PaneInfo {
    PaneInfo { id, is_plugin: false, title: title.to_string() }
}

fn plugin(id: u32, title: &str) -> PaneInfo {
    PaneInfo { id, is_plugin: true, title: title.to_string() }
}

fn manifest(tabs: Vec<(usize, Vec<PaneInfo>)>) -> PaneManifest {
    let mut panes = HashMap::new();
    for (position, on_tab) in tabs {
        panes.insert(position, on_tab);
    }
    PaneManifest { panes }
}

fn session(pane_id: u32, last_event_ts: u64) -> SessionInfo {
    SessionInfo {
        pane_id,
        activity: Activity::Idle,
        last_event_ts,
        tab_index: None,
        tab_name: None,
        details: String::new(),
    }
}

#[test]
fn terminal_panes_are_mapped_to_their_tabs() {
    let tabs = vec![tab(0, "zero"), tab(1, "one")];
    let map = build_pane_to_tab_map(
        &tabs,
        &manifest(vec![
            (0, vec![pane(1, "a"), plugin(1, "bar"), plugin(9, "bar")]),
            (1, vec![pane(2, "b"), pane(3, "c")]),
        ]),
    );
    assert_eq!(map.len(), 3);
    assert_eq!(map.get(&1), Some(&(0, "zero".to_string())));
    assert_eq!(map.get(&2), Some(&(1, "one".to_string())));
    assert_eq!(map.get(&3), Some(&(1, "one".to_string())));
}

#[test]
fn a_tab_that_is_not_listed_has_no_name() {
    let map = build_pane_to_tab_map(&[tab(0, "zero")], &manifest(vec![(4, vec![pane(1, "a")])]));
    assert_eq!(map.get(&1), Some(&(4, String::new())));
}

#[test]
fn of_two_tabs_at_one_position_the_later_name_counts() {
    let map = build_pane_to_tab_map(
        &[tab(0, "first"), tab(0, "second")],
        &manifest(vec![(0, vec![pane(1, "a")])]),
    );
    assert_eq!(map.get(&1), Some(&(0, "second".to_string())));
}

#[test]
fn titles_are_those_of_terminal_panes() {
    let titles = build_pane_titles(&manifest(vec![
        (0, vec![pane(1, "a"), plugin(2, "bar")]),
        (3, vec![pane(4, ""), pane(5, "x"), pane(5, "y")]),
    ]));
    assert_eq!(titles.len(), 3);
    assert_eq!(titles.get(&1).map(|s| s.as_str()), Some("a"));
    assert_eq!(titles.get(&4).map(|s| s.as_str()), Some(""));
    assert_eq!(titles.get(&5).map(|s| s.as_str()), Some("y"));
}

#[test]
fn title_panes_are_found_without_sessions() {
    let chosen = pick_title_panes(
        &manifest(vec![
            (0, vec![pane(3, "later"), pane(2, "earlier"), plugin(1, "bar")]),
            (1, vec![pane(4, "  ")]),
            (2, vec![]),
        ]),
        &BTreeMap::new(),
    );
    assert_eq!(chosen.len(), 1);
    assert_eq!(chosen.get(&0), Some(&2));
}

#[test]
fn title_panes_follow_the_active_session() {
    let mut sessions = BTreeMap::new();
    sessions.insert(3, session(3, 7));
    sessions.insert(2, session(2, 5));
    sessions.insert(9, session(9, 99));
    let chosen = pick_title_panes(
        &manifest(vec![(0, vec![pane(1, "a"), pane(2, "b"), pane(3, "c"), pane(9, "")])]),
        &sessions,
    );
    assert_eq!(chosen.get(&0), Some(&3));
}

#[test]
fn the_pick_does_not_depend_on_order() {
    let a = (5u32, "a".to_string(), 3u64);
    let b = (4u32, "b".to_string(), 3u64);
    let c = (1u32, "c".to_string(), 2u64);
    let pick = Some(4u32);
    assert_eq!(pick_title_pane(&[a.clone(), b.clone(), c.clone()]), pick);
    assert_eq!(pick_title_pane(&[c.clone(), b.clone(), a.clone()]), pick);
    assert_eq!(pick_title_pane(&[b.clone(), a, c, b]), pick);
    assert_eq!(pick_title_pane(&[]), None);
}
