//! The clickable stretches of the status bar.

use vstd::prelude::*;

use crate::settings::MenuAction;

verus! {

/// What the bar shows.
#[derive(Clone, Copy, Debug, PartialEq, Eq, Structural)]
pub enum ViewMode {
    Normal,
    Settings,
}

/// The columns of a session, and what a click on it leads to.
#[derive(Clone, Copy, Debug, PartialEq, Eq, Structural)]
pub struct ClickRegion {
    pub start_col: usize,
    /// One past the last column.
    pub end_col: usize,
    pub tab_index: usize,
    pub pane_id: u32,
    /// Whether the session waits for the user.
    pub is_waiting: bool,
}

/// The columns of a menu entry, and what a click on it does.
#[derive(Clone, Copy, Debug, PartialEq, Eq, Structural)]
pub struct MenuClickRegion {
    pub start_col: usize,
    /// One past the last column.
    pub end_col: usize,
    pub action: MenuAction,
}

/// The first of `regions` that column `col` is in.
pub open spec fn region_at(regions: Seq<ClickRegion>, col: usize) -> Option<ClickRegion>
    decreases regions.len(),
{
    if regions.len() == 0 {
        None
    } else if regions[0].start_col <= col < regions[0].end_col {
        Some(regions[0])
    } else {
        region_at(regions.skip(1), col)
    }
}

/// What the first of `regions` that column `col` is in does.
pub open spec fn menu_action_at(regions: Seq<MenuClickRegion>, col: usize) -> Option<MenuAction>
    decreases regions.len(),
{
    if regions.len() == 0 {
        None
    } else if regions[0].start_col <= col < regions[0].end_col {
        Some(regions[0].action)
    } else {
        menu_action_at(regions.skip(1), col)
    }
}

/// Column `col` is in the stretch `region`, which ends before its second number.
pub open spec fn in_stretch(region: Option<(usize, usize)>, col: usize) -> bool {
    region matches Some(r) && r.0 <= col < r.1
}

/// The first of `regions` that column `col` is in.
pub fn find_region(regions: &Vec<ClickRegion>, col: usize) -> (found: Option<ClickRegion>)
    ensures
        found == region_at(regions@, col),
{
    let mut i: usize = 0;
    proof {
        assert(regions@.skip(0) =~= regions@);
    }
    while i < regions.len()
        invariant
            i <= regions.len(),
            region_at(regions@.skip(i as int), col) == region_at(regions@, col),
        decreases regions.len() - i,
    {
        let region = regions[i];
        proof {
            assert(regions@.skip(i as int).skip(1) =~= regions@.skip(i + 1));
        }
        if col >= region.start_col && col < region.end_col {
            return Some(region);
        }
        i += 1;
    }
    None
}

/// What the first of `regions` that column `col` is in does.
pub fn find_menu_action(regions: &Vec<MenuClickRegion>, col: usize) -> (found: Option<MenuAction>)
    ensures
        found == menu_action_at(regions@, col),
{
    let mut i: usize = 0;
    proof {
        assert(regions@.skip(0) =~= regions@);
    }
    while i < regions.len()
        invariant
            i <= regions.len(),
            menu_action_at(regions@.skip(i as int), col) == menu_action_at(regions@, col),
        decreases regions.len() - i,
    {
        let region = regions[i];
        proof {
            assert(regions@.skip(i as int).skip(1) =~= regions@.skip(i + 1));
        }
        if col >= region.start_col && col < region.end_col {
            return Some(region.action);
        }
        i += 1;
    }
    None
}

/// A click is on the first session whose columns it is in, and on none only where it is
/// in none's.
pub proof fn law_a_click_is_on_the_first_session_there(
    regions: Seq<ClickRegion>,
    col: usize,
) -> (i: int)
    ensures
        match region_at(regions, col) {
            Some(region) => {
                &&& 0 <= i < regions.len()
                &&& region == regions[i]
                &&& regions[i].start_col <= col && col < regions[i].end_col
                &&& forall|j: int|
                    0 <= j < i ==> !((#[trigger] regions[j]).start_col <= col && col
                        < regions[j].end_col)
            },
            None => forall|j: int|
                0 <= j < regions.len() ==> !((#[trigger] regions[j]).start_col <= col && col
                    < regions[j].end_col),
        },
    decreases regions.len(),
{
    if regions.len() == 0 || (regions[0].start_col <= col < regions[0].end_col) {
        0
    } else {
        let rest = regions.skip(1);
        let i = law_a_click_is_on_the_first_session_there(rest, col);
        assert(forall|j: int| 0 <= j < rest.len() ==> rest[j] == regions[j + 1]);
        assert forall|j: int|
            0 <= j < regions.len() && (region_at(regions, col) is None || j < i
                + 1) implies !((#[trigger] regions[j]).start_col <= col && col
            < regions[j].end_col) by {
            if j > 0 {
                assert(rest[j - 1] == regions[j]);
            }
        }
        i + 1
    }
}

/// A click is on the first menu entry whose columns it is in, and on none only where it is
/// in none's.
pub proof fn law_a_click_is_on_the_first_entry_there(
    regions: Seq<MenuClickRegion>,
    col: usize,
) -> (i: int)
    ensures
        match menu_action_at(regions, col) {
            Some(action) => {
                &&& 0 <= i < regions.len()
                &&& action == regions[i].action
                &&& regions[i].start_col <= col && col < regions[i].end_col
                &&& forall|j: int|
                    0 <= j < i ==> !((#[trigger] regions[j]).start_col <= col && col
                        < regions[j].end_col)
            },
            None => forall|j: int|
                0 <= j < regions.len() ==> !((#[trigger] regions[j]).start_col <= col && col
                    < regions[j].end_col),
        },
    decreases regions.len(),
{
    if regions.len() == 0 || (regions[0].start_col <= col < regions[0].end_col) {
        0
    } else {
        let rest = regions.skip(1);
        let i = law_a_click_is_on_the_first_entry_there(rest, col);
        assert(forall|j: int| 0 <= j < rest.len() ==> rest[j] == regions[j + 1]);
        assert forall|j: int|
            0 <= j < regions.len() && (menu_action_at(regions, col) is None || j < i
                + 1) implies !((#[trigger] regions[j]).start_col <= col && col
            < regions[j].end_col) by {
            if j > 0 {
                assert(rest[j - 1] == regions[j]);
            }
        }
        i + 1
    }
}

} // verus!
