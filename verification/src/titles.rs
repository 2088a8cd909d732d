//! Mirroring pane titles onto tabs: which renames are due, and which of those in
//! flight have landed, been lost, or been tried often enough.

use std::collections::HashMap;

use vstd::prelude::*;

use crate::rename_guard::{position_is_addressable, rename_budget_exhausted};
use crate::tab_pane_map::{TabInfo, TabView};
use crate::text::sanitize_tab_title;

verus! {

/// Minimum gap between tab-rename batches, in milliseconds.
pub const RENAME_COOLDOWN_MS: u64 = 400;

/// How many times a single desired rename is re-issued before being abandoned.
pub const RENAME_MAX_ATTEMPTS: u8 = 3;

/// A rename that was asked for and has not shown yet.
#[derive(Debug, PartialEq, Eq)]
pub struct PendingRename {
    /// The name that the tab had.
    pub observed: String,
    pub desired: String,
    /// In how many batches it was asked for.
    pub attempts: u8,
}

/// A rename to ask for.
#[derive(Debug, PartialEq, Eq)]
pub struct Rename {
    /// One-based position of the tab.
    pub tab: u32,
    pub desired: String,
    /// The name that the tab has now.
    pub observed: String,
}

/// A [`PendingRename`], its names taken as text.
pub struct PendingView {
    pub observed: Seq<char>,
    pub desired: Seq<char>,
    pub attempts: u8,
}

/// A [`Rename`], its names taken as text.
pub struct RenameView {
    pub tab: u32,
    pub desired: Seq<char>,
    pub observed: Seq<char>,
}

impl View for PendingRename {
    type V = PendingView;

    open spec fn view(&self) -> PendingView {
        PendingView {
            observed: self.observed@,
            desired: self.desired@,
            attempts: self.attempts,
        }
    }
}

impl View for Rename {
    type V = RenameView;

    open spec fn view(&self) -> RenameView {
        RenameView { tab: self.tab, desired: self.desired@, observed: self.observed@ }
    }
}

/// Renames, each taken by its view.
pub open spec fn renames_view(renames: Seq<Rename>) -> Seq<RenameView> {
    renames.map_values(|r: Rename| r@)
}

/// The attempts at calling a tab `desired` that was called `observed`, as listed in
/// `entries`, if any are.
pub open spec fn listed(
    entries: Seq<PendingRename>,
    observed: Seq<char>,
    desired: Seq<char>,
) -> Option<u8>
    decreases entries.len(),
{
    if entries.len() == 0 {
        None
    } else {
        let before = listed(entries.drop_last(), observed, desired);
        let last = entries.last()@;
        if before is Some {
            before
        } else if last.observed == observed && last.desired == desired {
            Some(last.attempts)
        } else {
            None
        }
    }
}

/// Pending renames as a map: from the name that a tab had and the name it should have to
/// the number of attempts.
pub open spec fn pending_view(
    entries: Seq<PendingRename>,
) -> Map<(Seq<char>, Seq<char>), u8> {
    Map::new(
        |key: (Seq<char>, Seq<char>)| listed(entries, key.0, key.1) is Some,
        |key: (Seq<char>, Seq<char>)| listed(entries, key.0, key.1)->0,
    )
}

/// No rename is listed twice.
pub open spec fn listed_once(entries: Seq<PendingRename>) -> bool {
    forall|i: int, j: int|
        0 <= i < j < entries.len() ==> (#[trigger] entries[i])@.observed != (
        #[trigger] entries[j])@.observed || entries[i]@.desired != entries[j]@.desired
}

/// Some tab has the given name.
pub open spec fn live(tabs: Seq<TabView>, name: Seq<char>) -> bool {
    exists|i: int| 0 <= i < tabs.len() && (#[trigger] tabs[i]).name == name
}

/// The one-based number of the tab at zero-based `position`.
pub open spec fn tab_number(position: usize) -> u32 {
    (position as u32 + 1) as u32
}

/// Every tab that can be renamed has a number: always so where positions are 32 bits
/// wide.
pub open spec fn tabs_numbered(tabs: Seq<TabView>) -> bool {
    forall|i: int|
        0 <= i < tabs.len() && (#[trigger] tabs[i]).position == i ==> (tabs[i].position as u32)
            < u32::MAX
}

/// The pending renames worth keeping: those whose old name some tab still has. A rename
/// that has landed on the only tab of that name, or whose tab is gone, is not among them.
/// What other tabs are called, and where any tab is, does not count.
pub open spec fn retained(
    pending: Map<(Seq<char>, Seq<char>), u8>,
    tabs: Seq<TabView>,
) -> Map<(Seq<char>, Seq<char>), u8> {
    Map::new(
        |key: (Seq<char>, Seq<char>)| pending.contains_key(key) && live(tabs, key.0),
        |key: (Seq<char>, Seq<char>)| pending[key],
    )
}

/// How often a tab called `name` was asked to be called `desired`, as far as `pending`
/// knows.
pub open spec fn attempts_at(
    pending: Map<(Seq<char>, Seq<char>), u8>,
    name: Seq<char>,
    desired: Seq<char>,
) -> u8 {
    if pending.contains_key((name, desired)) {
        pending[(name, desired)]
    } else {
        0
    }
}

/// The name that `tab` should have, if it should have another: the one that the title of
/// its picked pane gives, if it has such a pane and the title gives a name.
pub open spec fn want(
    tab: TabView,
    titles: Map<u32, Seq<char>>,
    source: Map<usize, u32>,
) -> Option<Seq<char>> {
    if !source.contains_key(tab.position) || !titles.contains_key(source[tab.position]) {
        None
    } else {
        let desired = crate::text::sanitized(titles[source[tab.position]]);
        if desired.len() == 0 || desired == tab.name {
            None
        } else {
            Some(desired)
        }
    }
}

/// The name that `tab`, at `index` in the tab list, should be renamed to now, if any: the
/// one that it should have, unless the tab's position has drifted, or the name was asked
/// for often enough.
pub open spec fn due(
    tab: TabView,
    index: int,
    titles: Map<u32, Seq<char>>,
    source: Map<usize, u32>,
    pending: Map<(Seq<char>, Seq<char>), u8>,
) -> Option<Seq<char>> {
    if tab.position != index {
        None
    } else {
        match want(tab, titles, source) {
            Some(desired) => if attempts_at(pending, tab.name, desired) >= RENAME_MAX_ATTEMPTS {
                None
            } else {
                Some(desired)
            },
            None => None,
        }
    }
}

/// The renames due among the first `n` tabs, in the tabs' order.
pub open spec fn renames_due(
    tabs: Seq<TabView>,
    n: int,
    titles: Map<u32, Seq<char>>,
    source: Map<usize, u32>,
    pending: Map<(Seq<char>, Seq<char>), u8>,
) -> Seq<RenameView>
    decreases n,
{
    if n <= 0 {
        Seq::empty()
    } else {
        let before = renames_due(tabs, n - 1, titles, source, pending);
        let tab = tabs[n - 1];
        match due(tab, n - 1, titles, source, pending) {
            Some(desired) => before.push(
                RenameView { tab: tab_number(tab.position), desired, observed: tab.name },
            ),
            None => before,
        }
    }
}

/// A tab called `name` is asked to be called `desired`.
pub open spec fn asks(renames: Seq<RenameView>, name: Seq<char>, desired: Seq<char>) -> bool {
    exists|i: int|
        0 <= i < renames.len() && (#[trigger] renames[i]).observed == name && renames[i].desired
            == desired
}

/// A tab called `name` is asked to be called something that none of that name was asked
/// for so far.
pub open spec fn asks_anew(
    renames: Seq<RenameView>,
    pending: Map<(Seq<char>, Seq<char>), u8>,
    name: Seq<char>,
) -> bool {
    exists|i: int|
        0 <= i < renames.len() && (#[trigger] renames[i]).observed == name
            && !pending.contains_key((name, renames[i].desired))
}

/// A tab called `name` should be called `desired`.
pub open spec fn wants(
    tabs: Seq<TabView>,
    titles: Map<u32, Seq<char>>,
    source: Map<usize, u32>,
    name: Seq<char>,
    desired: Seq<char>,
) -> bool {
    exists|i: int|
        0 <= i < tabs.len() && (#[trigger] tabs[i]).name == name && want(tabs[i], titles, source)
            == Some(desired)
}

/// `pending` once `renames` have gone out: each rename counts as one more attempt, however
/// many tabs of the same name it went out for. A new target drives out the old ones of its
/// name that no tab of that name should have any more.
pub open spec fn counted(
    pending: Map<(Seq<char>, Seq<char>), u8>,
    tabs: Seq<TabView>,
    titles: Map<u32, Seq<char>>,
    source: Map<usize, u32>,
    renames: Seq<RenameView>,
) -> Map<(Seq<char>, Seq<char>), u8> {
    Map::new(
        |key: (Seq<char>, Seq<char>)|
            asks(renames, key.0, key.1) || (pending.contains_key(key) && (wants(
                tabs,
                titles,
                source,
                key.0,
                key.1,
            ) || !asks_anew(renames, pending, key.0))),
        |key: (Seq<char>, Seq<char>)|
            if asks(renames, key.0, key.1) {
                one_more(attempts_at(pending, key.0, key.1))
            } else {
                pending[key]
            },
    )
}

/// One attempt more, as far as can be counted.
pub open spec fn one_more(attempts: u8) -> u8 {
    if attempts < u8::MAX {
        (attempts + 1) as u8
    } else {
        u8::MAX
    }
}

/// Whether some tab has the given name.
pub fn name_is_live(tabs: &[TabInfo], name: &str) -> (yes: bool)
    ensures
        yes == live(crate::tab_pane_map::tabs_view(tabs@), name@),
{
    let ghost views = crate::tab_pane_map::tabs_view(tabs@);
    let mut i: usize = 0;
    while i < tabs.len()
        invariant
            i <= tabs.len(),
            views == crate::tab_pane_map::tabs_view(tabs@),
            forall|j: int| 0 <= j < i ==> (#[trigger] views[j]).name != name@,
        decreases tabs.len() - i,
    {
        proof {
            assert(views[i as int] == tabs@[i as int]@);
        }
        if *tabs[i].name.as_str() == *name {
            return true;
        }
        i += 1;
    }
    false
}

/// The attempts at calling a tab `desired` that was called `observed`, if any are pending.
pub fn pending_attempts(
    pending: &Vec<PendingRename>,
    observed: &str,
    desired: &str,
) -> (attempts: Option<u8>)
    ensures
        attempts == pending_view(pending@).get((observed@, desired@)),
        attempts == listed(pending@, observed@, desired@),
{
    let mut i: usize = 0;
    let mut attempts: Option<u8> = None;
    while i < pending.len()
        invariant
            i <= pending.len(),
            attempts == listed(pending@.take(i as int), observed@, desired@),
        decreases pending.len() - i,
    {
        let entry = &pending[i];
        proof {
            assert(pending@.take(i + 1).drop_last() =~= pending@.take(i as int));
        }
        if attempts.is_none() && *entry.observed.as_str() == *observed && *entry.desired.as_str()
            == *desired {
            attempts = Some(entry.attempts);
        }
        i += 1;
    }
    proof {
        assert(pending@.take(pending@.len() as int) =~= pending@);
        assert(pending_view(pending@).contains_key((observed@, desired@)) == (listed(
            pending@,
            observed@,
            desired@,
        ) is Some));
    }
    attempts
}

/// The list with one entry more.
proof fn lemma_listed_push(
    entries: Seq<PendingRename>,
    entry: PendingRename,
    observed: Seq<char>,
    desired: Seq<char>,
)
    ensures
        listed(entries.push(entry), observed, desired) == (if listed(
            entries,
            observed,
            desired,
        ) is Some {
            listed(entries, observed, desired)
        } else if entry@.observed == observed && entry@.desired == desired {
            Some(entry@.attempts)
        } else {
            None
        }),
{
    assert(entries.push(entry).drop_last() =~= entries);
}

/// What is not listed stands nowhere in the list.
proof fn lemma_listed_covers(entries: Seq<PendingRename>, i: int)
    requires
        0 <= i < entries.len(),
    ensures
        listed(entries, entries[i]@.observed, entries[i]@.desired) is Some,
    decreases entries.len(),
{
    if i < entries.len() - 1 {
        lemma_listed_covers(entries.drop_last(), i);
        assert(entries.drop_last()[i] == entries[i]);
    }
}

/// A list stays free of repetitions where something is added that is not listed.
proof fn lemma_listed_once_push(entries: Seq<PendingRename>, entry: PendingRename)
    requires
        listed_once(entries),
        listed(entries, entry@.observed, entry@.desired) is None,
    ensures
        listed_once(entries.push(entry)),
{
    let all = entries.push(entry);
    assert forall|i: int, j: int| 0 <= i < j < all.len() implies (#[trigger] all[i])@.observed != (
    #[trigger] all[j])@.observed || all[i]@.desired != all[j]@.desired by {
        lemma_listed_covers(entries, i);
        if j < entries.len() {
            assert(entries[i] == all[i] && entries[j] == all[j]);
        }
    }
}

/// Retire the pending renames that have landed, or whose tab is gone.
pub fn retire_pending(pending: &Vec<PendingRename>, tabs: &[TabInfo]) -> (kept: Vec<PendingRename>)
    ensures
        pending_view(kept@) == retained(
            pending_view(pending@),
            crate::tab_pane_map::tabs_view(tabs@),
        ),
        listed_once(kept@),
{
    let mut kept: Vec<PendingRename> = Vec::new();
    let ghost views = crate::tab_pane_map::tabs_view(tabs@);
    let mut i: usize = 0;
    while i < pending.len()
        invariant
            i <= pending.len(),
            views == crate::tab_pane_map::tabs_view(tabs@),
            listed_once(kept@),
            forall|n: Seq<char>, d: Seq<char>| #[trigger]
                listed(kept@, n, d) == (if live(views, n) {
                    listed(pending@.take(i as int), n, d)
                } else {
                    None
                }),
        decreases pending.len() - i,
    {
        let entry = &pending[i];
        let ghost before = kept@;
        proof {
            assert(pending@.take(i + 1) =~= pending@.take(i as int).push(*entry));
        }
        if name_is_live(tabs, entry.observed.as_str()) && pending_attempts(
            &kept,
            entry.observed.as_str(),
            entry.desired.as_str(),
        ).is_none() {
            let copy = PendingRename {
                observed: entry.observed.clone(),
                desired: entry.desired.clone(),
                attempts: entry.attempts,
            };
            kept.push(copy);
            proof {
                lemma_listed_once_push(before, copy);
            }
        }
        proof {
            assert forall|n: Seq<char>, d: Seq<char>| #[trigger] listed(kept@, n, d) == (if live(
                views,
                n,
            ) {
                listed(pending@.take(i + 1), n, d)
            } else {
                None
            }) by {
                lemma_listed_push(pending@.take(i as int), *entry, n, d);
                assert(listed(before, n, d) == (if live(views, n) {
                    listed(pending@.take(i as int), n, d)
                } else {
                    None
                }));
                if kept@.len() > before.len() {
                    lemma_listed_push(before, kept@.last(), n, d);
                    assert(kept@ =~= before.push(kept@.last()));
                }
            }
        }
        i += 1;
    }
    proof {
        assert(pending@.take(pending@.len() as int) =~= pending@);
        let goal = retained(pending_view(pending@), views);
        assert forall|key: (Seq<char>, Seq<char>)| #[trigger]
            pending_view(kept@).contains_key(key) <==> goal.contains_key(key) by {
            assert(listed(kept@, key.0, key.1) is Some <==> live(views, key.0) && listed(
                pending@,
                key.0,
                key.1,
            ) is Some);
        }
        assert forall|key: (Seq<char>, Seq<char>)| #[trigger]
            goal.contains_key(key) implies pending_view(kept@)[key] == goal[key] by {
            assert(listed(kept@, key.0, key.1) == listed(pending@, key.0, key.1));
        }
        assert(pending_view(kept@) =~= goal);
    }
    kept
}

/// The name that a tab should have, if it should have another.
fn name_wanted(
    tab: &TabInfo,
    titles: &HashMap<u32, String>,
    source: &HashMap<usize, u32>,
) -> (desired: Option<String>)
    ensures
        match want(tab@, crate::tab_pane_map::titles_view(titles@), source@) {
            Some(name) => desired matches Some(d) && d@ == name,
            None => desired is None,
        },
{
    let pane_id: u32 = match source.get(&tab.position) {
        Some(pane_id) => *pane_id,
        None => {
            return None;
        },
    };
    proof {
        assert(crate::tab_pane_map::titles_view(titles@).contains_key(pane_id)
            == titles@.contains_key(pane_id));
    }
    let title: &String = match titles.get(&pane_id) {
        Some(title) => title,
        None => {
            return None;
        },
    };
    let desired = sanitize_tab_title(title.as_str());
    if desired.as_str().is_empty() || desired == tab.name {
        None
    } else {
        Some(desired)
    }
}

/// The rename due for one tab, if any.
fn rename_for(
    tab: &TabInfo,
    index: usize,
    titles: &HashMap<u32, String>,
    source: &HashMap<usize, u32>,
    pending: &Vec<PendingRename>,
) -> (rename: Option<Rename>)
    requires
        tab.position == index ==> (tab.position as u32) < u32::MAX,
    ensures
        match due(
            tab@,
            index as int,
            crate::tab_pane_map::titles_view(titles@),
            source@,
            pending_view(pending@),
        ) {
            Some(desired) => rename matches Some(r) && r@ == (RenameView {
                tab: tab_number(tab.position),
                desired,
                observed: tab.name@,
            }),
            None => rename is None,
        },
{
    // A position that disagrees with the tab's index in the list just received is
    // mid-drift: skip the tab rather than write to a position nobody can vouch for.
    if !position_is_addressable(tab.position, index) {
        return None;
    }
    let desired = match name_wanted(tab, titles, source) {
        Some(desired) => desired,
        None => {
            return None;
        },
    };
    // Once the budget is exhausted, the tab keeps its current name rather than the
    // rename going out forever.
    let exhausted: bool = match pending_attempts(pending, tab.name.as_str(), desired.as_str()) {
        Some(attempts) => rename_budget_exhausted(
            Some(desired.as_str()),
            desired.as_str(),
            attempts,
            RENAME_MAX_ATTEMPTS,
        ),
        None => rename_budget_exhausted(None, desired.as_str(), 0, RENAME_MAX_ATTEMPTS),
    };
    if exhausted {
        return None;
    }
    Some(Rename { tab: tab.position as u32 + 1, desired, observed: tab.name.clone() })
}

/// The renames due, in the tabs' order.
pub fn collect_renames(
    tabs: &[TabInfo],
    titles: &HashMap<u32, String>,
    source: &HashMap<usize, u32>,
    pending: &Vec<PendingRename>,
) -> (renames: Vec<Rename>)
    requires
        tabs_numbered(crate::tab_pane_map::tabs_view(tabs@)),
    ensures
        renames_view(renames@) == renames_due(
            crate::tab_pane_map::tabs_view(tabs@),
            tabs@.len() as int,
            crate::tab_pane_map::titles_view(titles@),
            source@,
            pending_view(pending@),
        ),
{
    let mut renames: Vec<Rename> = Vec::new();
    let ghost views = crate::tab_pane_map::tabs_view(tabs@);
    let mut i: usize = 0;
    while i < tabs.len()
        invariant
            i <= tabs.len(),
            views == crate::tab_pane_map::tabs_view(tabs@),
            tabs_numbered(views),
            renames_view(renames@) == renames_due(
                views,
                i as int,
                crate::tab_pane_map::titles_view(titles@),
                source@,
                pending_view(pending@),
            ),
        decreases tabs.len() - i,
    {
        proof {
            assert(views[i as int] == tabs@[i as int]@);
        }
        let ghost before = renames@;
        if let Some(rename) = rename_for(&tabs[i], i, titles, source, pending) {
            renames.push(rename);
            proof {
                assert(renames_view(renames@) =~= renames_view(before).push(rename@));
            }
        }
        i += 1;
    }
    renames
}

/// Whether a tab called `name` is asked to be called `desired`.
fn is_asked(renames: &Vec<Rename>, name: &str, desired: &str) -> (yes: bool)
    ensures
        yes == asks(renames_view(renames@), name@, desired@),
{
    let ghost views = renames_view(renames@);
    let mut i: usize = 0;
    while i < renames.len()
        invariant
            i <= renames.len(),
            views == renames_view(renames@),
            forall|j: int|
                0 <= j < i ==> !((#[trigger] views[j]).observed == name@ && views[j].desired
                    == desired@),
        decreases renames.len() - i,
    {
        proof {
            assert(views[i as int] == renames@[i as int]@);
        }
        if *renames[i].observed.as_str() == *name && *renames[i].desired.as_str() == *desired {
            return true;
        }
        i += 1;
    }
    false
}

/// Whether a tab called `name` is asked for something new.
fn is_asked_anew(renames: &Vec<Rename>, pending: &Vec<PendingRename>, name: &str) -> (yes: bool)
    ensures
        yes == asks_anew(renames_view(renames@), pending_view(pending@), name@),
{
    let ghost views = renames_view(renames@);
    let mut i: usize = 0;
    while i < renames.len()
        invariant
            i <= renames.len(),
            views == renames_view(renames@),
            forall|j: int|
                0 <= j < i ==> !((#[trigger] views[j]).observed == name@ && !pending_view(
                    pending@,
                ).contains_key((name@, views[j].desired))),
        decreases renames.len() - i,
    {
        proof {
            assert(views[i as int] == renames@[i as int]@);
        }
        if *renames[i].observed.as_str() == *name && pending_attempts(
            pending,
            name,
            renames[i].desired.as_str(),
        ).is_none() {
            return true;
        }
        i += 1;
    }
    false
}

/// Whether a tab called `name` should be called `desired`.
fn is_wanted(
    tabs: &[TabInfo],
    titles: &HashMap<u32, String>,
    source: &HashMap<usize, u32>,
    name: &str,
    desired: &str,
) -> (yes: bool)
    ensures
        yes == wants(
            crate::tab_pane_map::tabs_view(tabs@),
            crate::tab_pane_map::titles_view(titles@),
            source@,
            name@,
            desired@,
        ),
{
    let ghost views = crate::tab_pane_map::tabs_view(tabs@);
    let ghost texts = crate::tab_pane_map::titles_view(titles@);
    let mut i: usize = 0;
    while i < tabs.len()
        invariant
            i <= tabs.len(),
            views == crate::tab_pane_map::tabs_view(tabs@),
            texts == crate::tab_pane_map::titles_view(titles@),
            forall|j: int|
                0 <= j < i ==> !((#[trigger] views[j]).name == name@ && want(
                    views[j],
                    texts,
                    source@,
                ) == Some(desired@)),
        decreases tabs.len() - i,
    {
        proof {
            assert(views[i as int] == tabs@[i as int]@);
        }
        if *tabs[i].name.as_str() == *name {
            if let Some(wanted) = name_wanted(&tabs[i], titles, source) {
                if *wanted.as_str() == *desired {
                    return true;
                }
            }
        }
        i += 1;
    }
    false
}

/// What `counted` makes of one rename.
spec fn count_of(
    pending: Map<(Seq<char>, Seq<char>), u8>,
    tabs: Seq<TabView>,
    titles: Map<u32, Seq<char>>,
    source: Map<usize, u32>,
    renames: Seq<RenameView>,
    name: Seq<char>,
    desired: Seq<char>,
) -> Option<u8> {
    counted(pending, tabs, titles, source, renames).get((name, desired))
}

/// Count one more attempt at each of `renames`.
pub fn record_attempts(
    pending: &Vec<PendingRename>,
    tabs: &[TabInfo],
    titles: &HashMap<u32, String>,
    source: &HashMap<usize, u32>,
    renames: &Vec<Rename>,
) -> (after: Vec<PendingRename>)
    ensures
        pending_view(after@) == counted(
            pending_view(pending@),
            crate::tab_pane_map::tabs_view(tabs@),
            crate::tab_pane_map::titles_view(titles@),
            source@,
            renames_view(renames@),
        ),
        listed_once(after@),
{
    let ghost all = pending_view(pending@);
    let ghost views = crate::tab_pane_map::tabs_view(tabs@);
    let ghost texts = crate::tab_pane_map::titles_view(titles@);
    let ghost asked = renames_view(renames@);
    let mut after: Vec<PendingRename> = Vec::new();
    let mut i: usize = 0;
    while i < pending.len()
        invariant
            i <= pending.len(),
            all == pending_view(pending@),
            views == crate::tab_pane_map::tabs_view(tabs@),
            texts == crate::tab_pane_map::titles_view(titles@),
            asked == renames_view(renames@),
            listed_once(after@),
            forall|n: Seq<char>, d: Seq<char>| #[trigger]
                listed(after@, n, d) == (if listed(pending@.take(i as int), n, d) is Some {
                    count_of(all, views, texts, source@, asked, n, d)
                } else {
                    None
                }),
        decreases pending.len() - i,
    {
        let entry = &pending[i];
        let ghost before = after@;
        let name = entry.observed.as_str();
        let desired = entry.desired.as_str();
        proof {
            assert(pending@.take(i + 1) =~= pending@.take(i as int).push(*entry));
            lemma_listed_covers(pending@, i as int);
            assert(all.contains_key((name@, desired@)));
        }
        let prior: Option<u8> = pending_attempts(pending, name, desired);
        let count: Option<u8> = if let Some(attempts) = prior {
            if is_asked(renames, name, desired) {
                Some(attempts.saturating_add(1))
            } else if is_wanted(tabs, titles, source, name, desired) || !is_asked_anew(
                renames,
                pending,
                name,
            ) {
                Some(attempts)
            } else {
                None
            }
        } else {
            None
        };
        proof {
            assert(count == count_of(all, views, texts, source@, asked, name@, desired@));
        }
        if let Some(attempts) = count {
            if pending_attempts(&after, name, desired).is_none() {
                let next = PendingRename {
                    observed: entry.observed.clone(),
                    desired: entry.desired.clone(),
                    attempts,
                };
                after.push(next);
                proof {
                    lemma_listed_once_push(before, next);
                }
            }
        }
        proof {
            assert forall|n: Seq<char>, d: Seq<char>| #[trigger] listed(after@, n, d) == (if listed(
                pending@.take(i + 1),
                n,
                d,
            ) is Some {
                count_of(all, views, texts, source@, asked, n, d)
            } else {
                None
            }) by {
                lemma_listed_push(pending@.take(i as int), *entry, n, d);
                assert(listed(before, n, d) == (if listed(pending@.take(i as int), n, d) is Some {
                    count_of(all, views, texts, source@, asked, n, d)
                } else {
                    None
                }));
                if after@.len() > before.len() {
                    lemma_listed_push(before, after@.last(), n, d);
                    assert(after@ =~= before.push(after@.last()));
                }
            }
        }
        i += 1;
    }
    let mut j: usize = 0;
    proof {
        assert(pending@.take(pending@.len() as int) =~= pending@);
    }
    while j < renames.len()
        invariant
            j <= renames.len(),
            all == pending_view(pending@),
            asked == renames_view(renames@),
            listed_once(after@),
            forall|n: Seq<char>, d: Seq<char>| #[trigger]
                listed(after@, n, d) == (if all.contains_key((n, d)) || asks(
                    asked.take(j as int),
                    n,
                    d,
                ) {
                    count_of(all, views, texts, source@, asked, n, d)
                } else {
                    None
                }),
        decreases renames.len() - j,
    {
        let rename = &renames[j];
        let ghost before = after@;
        let name = rename.observed.as_str();
        let desired = rename.desired.as_str();
        proof {
            assert(asked[j as int] == rename@);
            assert(asks(asked, name@, desired@));
        }
        if pending_attempts(&after, name, desired).is_none() {
            let next = PendingRename {
                observed: rename.observed.clone(),
                desired: rename.desired.clone(),
                attempts: 1,
            };
            after.push(next);
            proof {
                lemma_listed_once_push(before, next);
                assert(listed(before, name@, desired@) is None);
                assert(!all.contains_key((name@, desired@)));
                assert(count_of(all, views, texts, source@, asked, name@, desired@) == Some(1u8));
            }
        }
        proof {
            assert forall|n: Seq<char>, d: Seq<char>| #[trigger] listed(after@, n, d) == (if all.contains_key(
                (n, d),
            ) || asks(asked.take(j + 1), n, d) {
                count_of(all, views, texts, source@, asked, n, d)
            } else {
                None
            }) by {
                lemma_asks_take(asked, j as int, n, d);
                assert(listed(before, n, d) == (if all.contains_key((n, d)) || asks(
                    asked.take(j as int),
                    n,
                    d,
                ) {
                    count_of(all, views, texts, source@, asked, n, d)
                } else {
                    None
                }));
                if after@.len() > before.len() {
                    lemma_listed_push(before, after@.last(), n, d);
                    assert(after@ =~= before.push(after@.last()));
                }
            }
        }
        j += 1;
    }
    proof {
        assert(asked.take(asked.len() as int) =~= asked);
        let goal = counted(all, views, texts, source@, asked);
        assert forall|key: (Seq<char>, Seq<char>)| #[trigger]
            pending_view(after@).contains_key(key) <==> goal.contains_key(key) by {
            assert(listed(after@, key.0, key.1) is Some <==> goal.contains_key((key.0, key.1)));
            assert((key.0, key.1) == key);
        }
        assert forall|key: (Seq<char>, Seq<char>)| #[trigger]
            goal.contains_key(key) implies pending_view(after@)[key] == goal[key] by {
            assert((key.0, key.1) == key);
            assert(listed(after@, key.0, key.1) == Some(goal[key]));
        }
        assert(pending_view(after@) =~= goal);
    }
    after
}

proof fn lemma_asks_take(renames: Seq<RenameView>, n: int, name: Seq<char>, desired: Seq<char>)
    requires
        0 <= n < renames.len(),
    ensures
        asks(renames.take(n + 1), name, desired) <==> asks(renames.take(n), name, desired) || (
        renames[n].observed == name && renames[n].desired == desired),
{
    let more = renames.take(n + 1);
    let less = renames.take(n);
    assert(more[n] == renames[n]);
    if asks(less, name, desired) {
        let i = choose|i: int|
            0 <= i < less.len() && (#[trigger] less[i]).observed == name && less[i].desired
                == desired;
        assert(more[i] == less[i]);
    }
    if asks(more, name, desired) {
        let i = choose|i: int|
            0 <= i < more.len() && (#[trigger] more[i]).observed == name && more[i].desired
                == desired;
        if i < n {
            assert(less[i] == more[i]);
        }
    }
}

/// A tab should be called what the title of its picked pane gives, if that is a name and
/// another than the tab has.
pub proof fn law_a_tab_should_be_called_after_its_pane(
    tab: TabView,
    titles: Map<u32, Seq<char>>,
    source: Map<usize, u32>,
    desired: Seq<char>,
)
    ensures
        want(tab, titles, source) == Some(desired) <==> source.contains_key(tab.position)
            && titles.contains_key(source[tab.position]) && desired == crate::text::sanitized(
            titles[source[tab.position]],
        ) && desired.len() > 0 && desired != tab.name,
{
}

/// The number of a tab is one more than its position.
pub proof fn law_tabs_are_numbered_from_one(position: usize)
    requires
        position < u32::MAX,
    ensures
        tab_number(position) == position + 1,
{
}

/// The list of pending renames says of each how often it was asked for.
pub proof fn law_pending_renames_are_what_is_listed(
    entries: Seq<PendingRename>,
    i: int,
    name: Seq<char>,
    desired: Seq<char>,
)
    requires
        listed_once(entries),
    ensures
        0 <= i < entries.len() ==> pending_view(entries).contains_key(
            (entries[i].observed@, entries[i].desired@),
        ) && pending_view(entries)[(entries[i].observed@, entries[i].desired@)]
            == entries[i].attempts,
        pending_view(entries).contains_key((name, desired)) ==> exists|j: int|
            0 <= j < entries.len() && (#[trigger] entries[j]).observed@ == name
                && entries[j].desired@ == desired,
    decreases entries.len(),
{
    if entries.len() > 0 {
        let before = entries.drop_last();
        let n = entries.len() - 1;
        assert(forall|j: int| 0 <= j < n ==> before[j] == entries[j]);
        assert(listed_once(before));
        law_pending_renames_are_what_is_listed(before, i, name, desired);
        if 0 <= i < n {
            assert(pending_view(before).contains_key(
                (entries[i].observed@, entries[i].desired@),
            ));
        }
        if i == n {
            law_pending_renames_are_what_is_listed(
                before,
                0,
                entries[n].observed@,
                entries[n].desired@,
            );
            if pending_view(before).contains_key((entries[n].observed@, entries[n].desired@)) {
                let j = choose|j: int|
                    0 <= j < before.len() && (#[trigger] before[j]).observed@
                        == entries[n].observed@ && before[j].desired@ == entries[n].desired@;
                assert(entries[j]@.observed != entries[n]@.observed || entries[j]@.desired
                    != entries[n]@.desired);
            }
        }
        if pending_view(entries).contains_key((name, desired)) {
            if pending_view(before).contains_key((name, desired)) {
                let j = choose|j: int|
                    0 <= j < before.len() && (#[trigger] before[j]).observed@ == name
                        && before[j].desired@ == desired;
                assert(entries[j].observed@ == name);
            } else {
                assert(entries[n].observed@ == name);
            }
        }
    }
}

} // verus!
