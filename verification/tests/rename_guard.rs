use zellaude::rename_guard::{pick_title_pane, position_is_addressable, rename_budget_exhausted};

#[test]
fn titles_work_with_no_session_activity_at_all() {
    // After a server restart no hook has fired yet, so every activity stamp is 0.
    // Titles must still be applied.
    let candidates = vec![(7, "Assess OpenBao status".to_string(), 0)];
    assert_eq!(pick_title_pane(&candidates), Some(7));
}

#[test]
fn panes_without_a_title_are_not_candidates() {
    let candidates = vec![(1, "".to_string(), 99), (2, "   ".to_string(), 50)];
    assert_eq!(pick_title_pane(&candidates), None);
}

#[test]
fn most_recently_active_pane_wins_when_several_have_titles() {
    let candidates = vec![
        (1, "older task".to_string(), 100),
        (2, "newer task".to_string(), 200),
    ];
    assert_eq!(pick_title_pane(&candidates), Some(2));
}

#[test]
fn ties_resolve_to_lowest_pane_id_for_stability() {
    // Equal activity (e.g. both 0) must not depend on iteration order.
    let candidates = vec![(9, "a".to_string(), 0), (4, "b".to_string(), 0)];
    assert_eq!(pick_title_pane(&candidates), Some(4));
}

#[test]
fn an_untitled_pane_never_beats_a_titled_one_on_activity() {
    // A busy pane with no title must not suppress a quiet titled pane.
    let candidates = vec![(1, "".to_string(), 999), (2, "real title".to_string(), 0)];
    assert_eq!(pick_title_pane(&candidates), Some(2));
}

#[test]
fn position_trusted_when_snapshot_agrees_with_list_order() {
    assert!(position_is_addressable(0, 0));
    assert!(position_is_addressable(7, 7));
}

#[test]
fn position_rejected_when_positions_have_drifted() {
    // A close happened, so the reported position no longer matches where the tab
    // actually sits in the fresh list.
    assert!(!position_is_addressable(5, 4));
    assert!(!position_is_addressable(0, 3));
}

#[test]
fn first_attempt_at_a_name_is_always_allowed() {
    assert!(!rename_budget_exhausted(None, "build", 0, 3));
}

#[test]
fn retries_allowed_up_to_the_budget_then_abandoned() {
    assert!(!rename_budget_exhausted(Some("build"), "build", 1, 3));
    assert!(!rename_budget_exhausted(Some("build"), "build", 2, 3));
    // Budget reached: stop re-issuing.
    assert!(rename_budget_exhausted(Some("build"), "build", 3, 3));
    assert!(rename_budget_exhausted(Some("build"), "build", 9, 3));
}

#[test]
fn a_new_target_resets_the_budget() {
    // A changed title is a fresh intent, not a retry, so an exhausted budget for
    // the old name must not suppress it.
    assert!(!rename_budget_exhausted(Some("build"), "deploy", 9, 3));
}
