//! What holds of the renames that go out, over any event or over many: the three brakes,
//! and that titles reach their tabs all the same.

use vstd::prelude::*;

use crate::event::{ActionView, Clock, EventView, OutcomeView};
use crate::laws::Handled;
use crate::model::StateView;
use crate::session::SessionView;
use crate::tab_pane_map::TabView;
use crate::titles::{RENAME_COOLDOWN_MS, RENAME_MAX_ATTEMPTS};

verus! {

/// Whatever the event, a rename that goes out addresses a tab by a position that the tab
/// itself reports and really has, asks for a name that the tab does not have, and that
/// name is not empty, not over-long, and free of control codes.
pub proof fn law_renames_address_the_right_tab(
    s0: StateView,
    event: EventView,
    clock: Clock,
    s1: StateView,
    out: OutcomeView,
    k: int,
)
    requires
        crate::model::updated(s0, event, clock, s1, out),
        0 <= k < out.actions.len(),
        out.actions[k] is RenameTab,
    ensures
        crate::laws::renames_some_tab(out.actions[k], s1.tabs),
{
    crate::laws::lemma_updated(s0, event, clock, s1, out);
}

/// With the setting off, no rename goes out.
pub proof fn law_no_renames_while_switched_off(
    s0: StateView,
    event: EventView,
    clock: Clock,
    s1: StateView,
    out: OutcomeView,
)
    requires
        crate::model::updated(s0, event, clock, s1, out),
        !s1.settings.tab_titles,
    ensures
        !crate::laws::renames_something(out.actions),
{
    crate::laws::lemma_updated(s0, event, clock, s1, out);
}

/// Events handled one after the other. Between two of them anything may change but
/// when the last batch of renames went out.
pub open spec fn handled_in_turn(run: Seq<Handled>) -> bool {
    &&& forall|k: int|
        0 <= k < run.len() ==> crate::model::updated(
            (#[trigger] run[k]).before,
            run[k].event,
            run[k].clock,
            run[k].after,
            run[k].out,
        )
    &&& forall|k: int, l: int|
        0 <= k < run.len() && l == k + 1 && l < run.len() ==> (#[trigger] run[l]).before.last_rename_ms
            == (#[trigger] run[k]).after.last_rename_ms
}

proof fn lemma_last_rename_never_falls(run: Seq<Handled>, i: int, j: int)
    requires
        handled_in_turn(run),
        0 <= i <= j < run.len(),
    ensures
        run[i].after.last_rename_ms <= run[j].after.last_rename_ms,
        i < j ==> run[i].after.last_rename_ms <= run[j].before.last_rename_ms,
    decreases j - i,
{
    if i < j {
        lemma_last_rename_never_falls(run, i, j - 1);
        let h = run[j];
        assert(run[j].before.last_rename_ms == run[j - 1].after.last_rename_ms);
        crate::laws::lemma_updated(h.before, h.event, h.clock, h.after, h.out);
    }
}

/// Renames cannot flood the host: however events come, two batches of renames are at
/// least `RENAME_COOLDOWN_MS` apart.
pub proof fn law_rename_batches_are_spaced(run: Seq<Handled>, i: int, j: int)
    requires
        handled_in_turn(run),
        0 <= i < j < run.len(),
        crate::laws::renames_something(run[i].out.actions),
        crate::laws::renames_something(run[j].out.actions),
    ensures
        run[j].clock.millis >= run[i].clock.millis + RENAME_COOLDOWN_MS,
{
    lemma_last_rename_never_falls(run, i, j);
    let a = run[i];
    let b = run[j];
    crate::laws::lemma_updated(a.before, a.event, a.clock, a.after, a.out);
    crate::laws::lemma_updated(b.before, b.event, b.clock, b.after, b.out);
}

/// One round of mirroring titles, as it was entered.
pub struct Round {
    pub before: StateView,
    pub titles: Map<u32, Seq<char>>,
    pub source: Map<usize, u32>,
    pub now_ms: u64,
}

impl Round {
    /// The state after the round.
    pub open spec fn after(self) -> StateView {
        crate::model::title_round(self.before, self.titles, self.source, self.now_ms).0
    }

    /// The renames that go out.
    pub open spec fn sends(self) -> Seq<ActionView> {
        crate::model::title_round(self.before, self.titles, self.source, self.now_ms).1
    }

    /// The round comes too soon after the last batch to do anything.
    pub open spec fn too_soon(self) -> bool {
        self.now_ms - self.before.last_rename_ms < RENAME_COOLDOWN_MS
    }

    /// The pending renames that the round starts from.
    pub open spec fn kept(self) -> Map<(Seq<char>, Seq<char>), u8> {
        crate::titles::retained(self.before.pending_renames, self.before.tabs)
    }

    /// The round asks the tab at `i`, called `name`, to be called `desired`.
    pub open spec fn asks_at(self, i: int, name: Seq<char>, desired: Seq<char>) -> bool {
        &&& !self.too_soon()
        &&& 0 <= i < self.before.tabs.len()
        &&& self.before.tabs[i].name == name
        &&& crate::titles::due(
            self.before.tabs[i],
            i,
            self.titles,
            self.source,
            self.kept(),
        ) == Some(desired)
    }

    /// The round asks a tab called `name` to be called `desired`.
    pub open spec fn asks(self, name: Seq<char>, desired: Seq<char>) -> bool {
        exists|i: int| #[trigger] self.asks_at(i, name, desired)
    }

    /// A tab called `name` should be called `desired`.
    pub open spec fn wants(self, name: Seq<char>, desired: Seq<char>) -> bool {
        crate::titles::wants(self.before.tabs, self.titles, self.source, name, desired)
    }

    /// Some tab is called `name`, and if one is asked to be called anything but `desired`,
    /// some tab of that name should still be called `desired`.
    pub open spec fn stuck(self, name: Seq<char>, desired: Seq<char>) -> bool {
        &&& crate::titles::live(self.before.tabs, name)
        &&& forall|other: Seq<char>|
            other != desired && #[trigger] self.asks(name, other) ==> self.wants(name, desired)
    }
}

/// Every pending rename whose old name some tab has is kept, with its count, and no other
/// is. No tab's position matters, nor does any other name.
pub proof fn law_a_count_is_kept_while_its_name_is_there(r: Round, name: Seq<char>, desired: Seq<char>)
    ensures
        r.kept().get((name, desired)) == (if crate::titles::live(r.before.tabs, name) {
            r.before.pending_renames.get((name, desired))
        } else {
            None
        }),
{
}

/// What a round asks for, as the renames that are due say it.
proof fn lemma_asks(r: Round, name: Seq<char>, desired: Seq<char>)
    requires
        !r.too_soon(),
    ensures
        ({
            let tabs = r.before.tabs;
            let n = tabs.len() as int;
            let renames = crate::titles::renames_due(tabs, n, r.titles, r.source, r.kept());
            &&& crate::titles::asks(renames, name, desired) <==> r.asks(name, desired)
            &&& crate::titles::asks_anew(renames, r.kept(), name) ==> exists|other: Seq<char>|
                #[trigger] r.asks(name, other) && !r.kept().contains_key((name, other))
        }),
{
    let tabs = r.before.tabs;
    let n = tabs.len() as int;
    let kept = r.kept();
    let renames = crate::titles::renames_due(tabs, n, r.titles, r.source, kept);
    if crate::titles::asks(renames, name, desired) {
        let k = choose|k: int|
            0 <= k < renames.len() && (#[trigger] renames[k]).observed == name
                && renames[k].desired == desired;
        let i = crate::laws::lemma_renames_due(tabs, n, r.titles, r.source, kept, k);
        assert(r.asks_at(i, name, desired));
    }
    if r.asks(name, desired) {
        let i = choose|i: int| #[trigger] r.asks_at(i, name, desired);
        let k = lemma_due_is_among_renames_due(tabs, n, r.titles, r.source, kept, i);
        assert(renames[k].observed == name);
    }
    if crate::titles::asks_anew(renames, kept, name) {
        let k = choose|k: int|
            0 <= k < renames.len() && (#[trigger] renames[k]).observed == name
                && !kept.contains_key((name, renames[k].desired));
        let i = crate::laws::lemma_renames_due(tabs, n, r.titles, r.source, kept, k);
        assert(r.asks_at(i, name, renames[k].desired));
        assert(r.asks(name, renames[k].desired));
    }
}

/// Every old name and new name have a count of their own: a round counts one more attempt
/// at what it asks for, from 1 if that is new, however many tabs it asks, and leaves any
/// other count as it was kept, unless something new is asked for under its old name and
/// no tab of that name should have its new name any more.
pub proof fn law_each_target_has_its_own_count(r: Round, name: Seq<char>, desired: Seq<char>)
    requires
        !r.too_soon(),
    ensures
        r.asks(name, desired) ==> r.after().pending_renames.contains_key((name, desired))
            && r.after().pending_renames[(name, desired)] == crate::titles::attempts_at(
            r.kept(),
            name,
            desired,
        ) + 1,
        !r.asks(name, desired) ==> r.after().pending_renames.get((name, desired))
            == r.kept().get((name, desired)) || (!r.after().pending_renames.contains_key(
            (name, desired),
        ) && !r.wants(name, desired) && exists|other: Seq<char>| #[trigger]
            r.asks(name, other) && !r.kept().contains_key((name, other))),
{
    let tabs = r.before.tabs;
    let n = tabs.len() as int;
    let kept = r.kept();
    let renames = crate::titles::renames_due(tabs, n, r.titles, r.source, kept);
    lemma_asks(r, name, desired);
    let counted = crate::titles::counted(kept, tabs, r.titles, r.source, renames);
    if r.asks(name, desired) {
        let i = choose|i: int| #[trigger] r.asks_at(i, name, desired);
        assert(crate::titles::asks(renames, name, desired));
        assert(renames.len() > 0);
    }
    if renames.len() > 0 {
        assert(r.after().pending_renames == counted);
        assert(counted.contains_key((name, desired)) || !counted.contains_key((name, desired)));
    } else {
        assert(r.after().pending_renames == kept);
    }
}

/// A rename that has landed, on the only tab of its old name, is forgotten, and so is one
/// whose tab is gone: a round in which no tab has the old name keeps no count under it.
pub proof fn law_landed_and_lost_renames_are_retired(r: Round, name: Seq<char>, desired: Seq<char>)
    requires
        !r.too_soon(),
        !crate::titles::live(r.before.tabs, name),
    ensures
        !r.after().pending_renames.contains_key((name, desired)),
{
    if r.asks(name, desired) {
        let i = choose|i: int| #[trigger] r.asks_at(i, name, desired);
        assert(r.before.tabs[i].name == name);
    }
    law_each_target_has_its_own_count(r, name, desired);
    assert(!r.kept().contains_key((name, desired)));
    assert(r.kept().get((name, desired)) is None);
}

/// A new title is a fresh start: where a tab is asked for something new, its count starts
/// at 1, and what no tab of that name should be called any more is forgotten.
pub proof fn law_a_new_target_starts_anew(
    r: Round,
    name: Seq<char>,
    old_target: Seq<char>,
    new_target: Seq<char>,
)
    requires
        r.asks(name, new_target),
        !r.before.pending_renames.contains_key((name, new_target)),
        !r.wants(name, old_target),
    ensures
        r.after().pending_renames.contains_key((name, new_target)),
        r.after().pending_renames[(name, new_target)] == 1,
        !r.after().pending_renames.contains_key((name, old_target)),
{
    let tabs = r.before.tabs;
    let n = tabs.len() as int;
    let kept = r.kept();
    let renames = crate::titles::renames_due(tabs, n, r.titles, r.source, kept);
    let i = choose|i: int| #[trigger] r.asks_at(i, name, new_target);
    law_each_target_has_its_own_count(r, name, new_target);
    lemma_asks(r, name, new_target);
    lemma_asks(r, name, old_target);
    let k = choose|k: int|
        0 <= k < renames.len() && (#[trigger] renames[k]).observed == name && renames[k].desired
            == new_target;
    assert(!kept.contains_key((name, renames[k].desired)));
    assert(crate::titles::asks_anew(renames, kept, name));
    if r.asks(name, old_target) {
        let j = choose|j: int| #[trigger] r.asks_at(j, name, old_target);
        assert(tabs[j].name == name);
        assert(r.wants(name, old_target));
    }
}

/// In how many of the first `n` rounds a tab called `name` was asked to be called
/// `desired`.
pub open spec fn times_asked(
    rounds: Seq<Round>,
    name: Seq<char>,
    desired: Seq<char>,
    n: int,
) -> int
    decreases n,
{
    if n <= 0 {
        0
    } else {
        times_asked(rounds, name, desired, n - 1) + (if rounds[n - 1].asks(name, desired) {
            1int
        } else {
            0
        })
    }
}

/// Each round starts from the count that the one before it left.
pub open spec fn rounds_in_turn(rounds: Seq<Round>, name: Seq<char>, desired: Seq<char>) -> bool {
    forall|k: int, l: int|
        0 <= k < rounds.len() && l == k + 1 && l < rounds.len() ==> (
        #[trigger] rounds[l]).before.pending_renames.get((name, desired)) == (
        #[trigger] rounds[k]).after().pending_renames.get((name, desired))
}

/// One round on a stuck rename: the count never falls, it grows with each attempt, and no
/// attempt is made once the budget is spent.
proof fn lemma_stuck_round(r: Round, name: Seq<char>, desired: Seq<char>)
    requires
        r.stuck(name, desired),
    ensures
        ({
            let before = crate::titles::attempts_at(r.before.pending_renames, name, desired);
            let after = crate::titles::attempts_at(r.after().pending_renames, name, desired);
            &&& before <= after
            &&& r.asks(name, desired) ==> before < after <= RENAME_MAX_ATTEMPTS
        }),
{
    law_a_count_is_kept_while_its_name_is_there(r, name, desired);
    lemma_same_attempts(r.before.pending_renames, r.kept(), name, desired);
    if r.too_soon() {
        if r.asks(name, desired) {
            let i = choose|i: int| #[trigger] r.asks_at(i, name, desired);
        }
    } else {
        law_each_target_has_its_own_count(r, name, desired);
        if r.asks(name, desired) {
            let i = choose|i: int| #[trigger] r.asks_at(i, name, desired);
        } else if r.after().pending_renames.get((name, desired)) == r.kept().get((name, desired)) {
            lemma_same_attempts(r.after().pending_renames, r.kept(), name, desired);
        } else {
            let other = choose|other: Seq<char>| #[trigger]
                r.asks(name, other) && !r.kept().contains_key((name, other));
            assert(other != desired);
            assert(false);
        }
    }
}

proof fn lemma_same_attempts(
    a: Map<(Seq<char>, Seq<char>), u8>,
    b: Map<(Seq<char>, Seq<char>), u8>,
    name: Seq<char>,
    desired: Seq<char>,
)
    requires
        a.get((name, desired)) == b.get((name, desired)),
    ensures
        crate::titles::attempts_at(a, name, desired) == crate::titles::attempts_at(
            b,
            name,
            desired,
        ),
{
    assert(a.contains_key((name, desired)) == b.contains_key((name, desired)));
}

proof fn lemma_times_asked(rounds: Seq<Round>, name: Seq<char>, desired: Seq<char>, n: int)
    requires
        rounds_in_turn(rounds, name, desired),
        forall|k: int| 0 <= k < rounds.len() ==> (#[trigger] rounds[k]).stuck(name, desired),
        0 < n <= rounds.len(),
    ensures
        times_asked(rounds, name, desired, n) <= crate::titles::attempts_at(
            rounds[n - 1].after().pending_renames,
            name,
            desired,
        ),
        times_asked(rounds, name, desired, n) <= RENAME_MAX_ATTEMPTS,
    decreases n,
{
    lemma_stuck_round(rounds[n - 1], name, desired);
    if n > 1 {
        lemma_times_asked(rounds, name, desired, n - 1);
        lemma_same_attempts(
            rounds[n - 2].after().pending_renames,
            rounds[n - 1].before.pending_renames,
            name,
            desired,
        );
    } else {
        assert(times_asked(rounds, name, desired, 0) == 0);
    }
}

/// A rename that never lands is abandoned: as long as some tab has the old name, and
/// either nothing else is asked of a tab of that name or one of them should still have
/// the new name, the rename goes out in at most `RENAME_MAX_ATTEMPTS` rounds. Where the
/// tabs are, and what others are called, does not matter.
pub proof fn law_a_stuck_rename_is_abandoned(
    rounds: Seq<Round>,
    name: Seq<char>,
    desired: Seq<char>,
)
    requires
        rounds_in_turn(rounds, name, desired),
        forall|k: int| 0 <= k < rounds.len() ==> (#[trigger] rounds[k]).stuck(name, desired),
    ensures
        times_asked(rounds, name, desired, rounds.len() as int) <= RENAME_MAX_ATTEMPTS,
{
    if rounds.len() > 0 {
        lemma_times_asked(rounds, name, desired, rounds.len() as int);
    }
}

/// Nor is it abandoned early: a tab that is where it says it is, and should be called
/// `desired`, is asked for that as long as it was asked for in fewer than
/// `RENAME_MAX_ATTEMPTS` batches.
pub proof fn law_a_rename_within_its_budget_is_asked_for(r: Round, i: int, desired: Seq<char>)
    requires
        !r.too_soon(),
        0 <= i < r.before.tabs.len(),
        r.before.tabs[i].position == i,
        crate::titles::want(r.before.tabs[i], r.titles, r.source) == Some(desired),
        crate::titles::attempts_at(r.before.pending_renames, r.before.tabs[i].name, desired)
            < RENAME_MAX_ATTEMPTS,
    ensures
        r.asks_at(i, r.before.tabs[i].name, desired),
{
    let name = r.before.tabs[i].name;
    law_a_count_is_kept_while_its_name_is_there(r, name, desired);
    assert(crate::titles::live(r.before.tabs, name));
    lemma_same_attempts(r.before.pending_renames, r.kept(), name, desired);
}

/// Two states that have titles mirrored alike but for their sessions.
pub open spec fn alike_but_for_sessions(a: StateView, b: StateView) -> bool {
    &&& a.settings == b.settings
    &&& a.tabs == b.tabs
    &&& a.pane_manifest == b.pane_manifest
    &&& a.pending_renames == b.pending_renames
    &&& a.last_rename_ms == b.last_rename_ms
}

proof fn lemma_titles_applied_without_ties(
    a0: StateView,
    b0: StateView,
    now_ms: u64,
    a: StateView,
    actions_a: Seq<ActionView>,
    b: StateView,
    actions_b: Seq<ActionView>,
)
    requires
        alike_but_for_sessions(a0, b0),
        crate::model::titles_applied(a0, now_ms, a, actions_a),
        crate::model::titles_applied(b0, now_ms, b, actions_b),
        a0.pane_manifest matches Some(manifest) ==> crate::tab_pane_map::one_title_each(manifest)
            && crate::tab_pane_map::no_ties(manifest),
    ensures
        actions_a == actions_b,
        a.pending_renames == b.pending_renames,
        a.last_rename_ms == b.last_rename_ms,
{
    if a0.settings.tab_titles && a0.pane_manifest is Some {
        let manifest = a0.pane_manifest->0;
        let (titles_a, source_a) = crate::laws::lemma_round_maps(a0, manifest, now_ms, a, actions_a);
        let (titles_b, source_b) = crate::laws::lemma_round_maps(b0, manifest, now_ms, b, actions_b);
        crate::tab_pane_map::law_pane_titles_are_determined(manifest, titles_a, titles_b);
        crate::tab_pane_map::law_sessions_only_break_ties(
            manifest,
            a0.sessions,
            b0.sessions,
            source_a,
            source_b,
        );
    } else {
        assert(actions_a =~= actions_b);
    }
}

/// Session activity is a tiebreak only: where no tab has two titled terminal panes, and
/// no terminal pane has different titles on two tabs, what an event asks of the host does
/// not depend on the sessions, nor does what is then in flight.
pub proof fn law_renames_need_no_sessions(
    a0: StateView,
    b0: StateView,
    event: EventView,
    clock: Clock,
    a: StateView,
    out_a: OutcomeView,
    b: StateView,
    out_b: OutcomeView,
)
    requires
        b0 == (StateView { sessions: b0.sessions, ..a0 }),
        crate::model::updated(a0, event, clock, a, out_a),
        crate::model::updated(b0, event, clock, b, out_b),
        crate::laws::manifest_after(a0, event) matches Some(manifest) ==> crate::tab_pane_map::one_title_each(
            manifest,
        ) && crate::tab_pane_map::no_ties(manifest),
    ensures
        out_a.actions == out_b.actions,
        a.pending_renames == b.pending_renames,
        a.last_rename_ms == b.last_rename_ms,
{
    let renames_a = crate::laws::lemma_event_renames(a0, event, clock, a, out_a);
    let renames_b = crate::laws::lemma_event_renames(b0, event, clock, b, out_b);
    match crate::laws::mirrored_from(a0, event, a.pane_to_tab) {
        Some(from_a) => {
            let from_b = crate::laws::mirrored_from(b0, event, b.pane_to_tab)->0;
            lemma_titles_applied_without_ties(
                from_a,
                from_b,
                clock.millis,
                a,
                renames_a,
                b,
                renames_b,
            );
        },
        None => {
            assert(out_a.actions =~= out_b.actions);
        },
    }
}

proof fn lemma_due_is_among_renames_due(
    tabs: Seq<TabView>,
    n: int,
    titles: Map<u32, Seq<char>>,
    source: Map<usize, u32>,
    pending: Map<(Seq<char>, Seq<char>), u8>,
    i: int,
) -> (k: int)
    requires
        0 <= i < n <= tabs.len(),
        crate::titles::due(tabs[i], i, titles, source, pending) is Some,
    ensures
        ({
            let renames = crate::titles::renames_due(tabs, n, titles, source, pending);
            &&& 0 <= k < renames.len()
            &&& renames[k].tab == crate::titles::tab_number(tabs[i].position)
            &&& renames[k].observed == tabs[i].name
            &&& Some(renames[k].desired) == crate::titles::due(
                tabs[i],
                i,
                titles,
                source,
                pending,
            )
        }),
    decreases n,
{
    let before = crate::titles::renames_due(tabs, n - 1, titles, source, pending);
    if i == n - 1 {
        before.len() as int
    } else {
        lemma_due_is_among_renames_due(tabs, n - 1, titles, source, pending, i)
    }
}

/// Titles reach their tabs: with the setting on and the last batch long enough ago, new
/// tabs or panes, settings that arrive, and a setting that is changed make a rename go out
/// at once for every tab that is where it says it is, whose picked pane has a title that
/// gives a name, and another one than the tab has, unless a tab of that name was asked to
/// have that new name often enough already.
pub proof fn law_titles_reach_their_tabs(
    s0: StateView,
    event: EventView,
    clock: Clock,
    s1: StateView,
    out: OutcomeView,
    position: usize,
    id: u32,
)
    requires
        crate::model::updated(s0, event, clock, s1, out),
        crate::laws::mirrored_from(s0, event, s1.pane_to_tab) is Some,
        s1.settings.tab_titles,
        clock.millis >= s0.last_rename_ms + RENAME_COOLDOWN_MS,
        s1.pane_manifest is Some,
        crate::tab_pane_map::one_title_each(s1.pane_manifest->0),
        s1.pane_manifest->0.contains_key(position),
        position < s1.tabs.len(),
        s1.tabs[position as int].position == position,
        crate::rename_guard::title_pick(
            crate::tab_pane_map::candidates(s1.pane_manifest->0[position], s1.sessions),
            Some(id),
        ),
        ({
            let name = s1.tabs[position as int].name;
            let desired = crate::text::sanitized(
                crate::tab_pane_map::last_title(s1.pane_manifest->0[position], id),
            );
            &&& desired.len() > 0
            &&& desired != name
            &&& crate::titles::attempts_at(s0.pending_renames, name, desired) < RENAME_MAX_ATTEMPTS
        }),
    ensures
        out.actions.contains(
            ActionView::RenameTab {
                tab: crate::titles::tab_number(position),
                name: crate::text::sanitized(
                    crate::tab_pane_map::last_title(s1.pane_manifest->0[position], id),
                ),
            },
        ),
{
    let renames = crate::laws::lemma_event_renames(s0, event, clock, s1, out);
    let s = crate::laws::mirrored_from(s0, event, s1.pane_to_tab)->0;
    crate::laws::lemma_titles_applied(s, clock.millis, s1, renames);
    let manifest = s.pane_manifest->0;
    let (titles, source) = crate::laws::lemma_round_maps(s, manifest, clock.millis, s1, renames);
    let panes = manifest[position];
    let among = crate::tab_pane_map::candidates(panes, s1.sessions);
    crate::rename_guard::law_pick_does_not_depend_on_order(
        among,
        among,
        source.get(position),
        Some(id),
    );
    crate::tab_pane_map::lemma_picked_pane_is_on_the_tab(panes, s1.sessions, id);
    assert(crate::tab_pane_map::on_tab(manifest, position, id));
    assert(titles.contains_key(id));
    let other = choose|p: usize| #[trigger]
        crate::tab_pane_map::on_tab(manifest, p, id) && titles[id]
            == crate::tab_pane_map::last_title(manifest[p], id);
    assert(crate::tab_pane_map::on_tab(manifest, other, id));
    let kept = crate::titles::retained(s.pending_renames, s.tabs);
    let n = s.tabs.len() as int;
    assert(crate::titles::live(s.tabs, s.tabs[position as int].name));
    let k = lemma_due_is_among_renames_due(s.tabs, n, titles, source, kept, position as int);
    assert(out.actions.contains(renames[k]));
}

/// `r` is a round that takes what was pending in `s0` to `s1`, at the given time, over
/// the tabs, panes and sessions known then.
pub open spec fn round_between(r: Round, s0: StateView, clock: Clock, s1: StateView) -> bool {
    &&& r.before.pending_renames == s0.pending_renames
    &&& r.before.last_rename_ms == s0.last_rename_ms
    &&& r.before.tabs == s1.tabs
    &&& r.now_ms == clock.millis
    &&& s1.pane_manifest is Some
    &&& crate::tab_pane_map::pane_titles(s1.pane_manifest->0, r.titles)
    &&& crate::tab_pane_map::title_panes(s1.pane_manifest->0, s1.sessions, r.source)
    &&& r.after() == s1
}

/// What was pending in `s0` is pending in `s1`, or was all dropped with the setting off.
pub open spec fn kept_or_dropped(s0: StateView, s1: StateView) -> bool {
    ||| s1.pending_renames == s0.pending_renames
    ||| !s1.settings.tab_titles && s1.pending_renames == Map::<(Seq<char>, Seq<char>), u8>::empty()
}

/// The round that an event makes, if it makes one; no rename goes out otherwise.
proof fn lemma_event_round(
    s0: StateView,
    event: EventView,
    clock: Clock,
    s1: StateView,
    out: OutcomeView,
) -> (r: Option<Round>)
    requires
        crate::model::updated(s0, event, clock, s1, out),
    ensures
        match r {
            Some(r) => round_between(r, s0, clock, s1) && (forall|k: int|
                0 <= k < out.actions.len() && (#[trigger] out.actions[k]) is RenameTab
                    ==> r.sends().contains(out.actions[k])) && (forall|k: int|
                0 <= k < r.sends().len() ==> out.actions.contains(#[trigger] r.sends()[k])),
            None => kept_or_dropped(s0, s1) && !crate::laws::renames_something(out.actions),
        },
{
    let renames = crate::laws::lemma_event_renames(s0, event, clock, s1, out);
    match crate::laws::mirrored_from(s0, event, s1.pane_to_tab) {
        Some(s) => {
            crate::laws::lemma_titles_applied(s, clock.millis, s1, renames);
            if s.settings.tab_titles && s.pane_manifest is Some {
                let manifest = s.pane_manifest->0;
                let (titles, source) = crate::laws::lemma_round_maps(s, manifest, clock.millis, s1, renames);
                Some(Round { before: s, titles, source, now_ms: clock.millis })
            } else {
                None
            }
        },
        None => None,
    }
}

/// The count of attempts is only ever touched by a round: whatever the event, the
/// pending renames stay, or are all dropped because the setting is off, or go through
/// one round of mirroring titles. No rename goes out but by a round.
pub proof fn law_renames_go_through_rounds(
    s0: StateView,
    event: EventView,
    clock: Clock,
    s1: StateView,
    out: OutcomeView,
)
    requires
        crate::model::updated(s0, event, clock, s1, out),
    ensures
        kept_or_dropped(s0, s1) || exists|r: Round| #[trigger] round_between(r, s0, clock, s1),
        crate::laws::renames_something(out.actions) ==> exists|r: Round| #[trigger]
            round_between(r, s0, clock, s1),
{
    let r = lemma_event_round(s0, event, clock, s1, out);
}

/// A rename to `desired` of a tab called `name` went out: it addresses a tab of that name
/// that is where it says it is.
pub open spec fn renamed(h: Handled, name: Seq<char>, desired: Seq<char>) -> bool {
    exists|i: int|
        0 <= i < h.after.tabs.len() && (#[trigger] h.after.tabs[i]).position == i
            && h.after.tabs[i].name == name && h.out.actions.contains(
            ActionView::RenameTab {
                tab: crate::titles::tab_number(h.after.tabs[i].position),
                name: desired,
            },
        )
}

/// In how many of the first `n` events a rename to `desired` of a tab called `name` went
/// out.
pub open spec fn times_renamed(
    run: Seq<Handled>,
    name: Seq<char>,
    desired: Seq<char>,
    n: int,
) -> int
    decreases n,
{
    if n <= 0 {
        0
    } else {
        times_renamed(run, name, desired, n - 1) + (if renamed(run[n - 1], name, desired) {
            1int
        } else {
            0
        })
    }
}

/// Some tab called `name` should be called `desired`, going by any titles that the panes
/// can be said to have.
pub open spec fn wants_after(s: StateView, name: Seq<char>, desired: Seq<char>) -> bool {
    s.pane_manifest matches Some(manifest) ==> forall|
        titles: Map<u32, Seq<char>>,
        source: Map<usize, u32>,
    |
        crate::tab_pane_map::pane_titles(manifest, titles) && crate::tab_pane_map::title_panes(
            manifest,
            s.sessions,
            source,
        ) ==> #[trigger] crate::titles::wants(s.tabs, titles, source, name, desired)
}

/// The event leaves some tab called `name`, and the setting on. If it sends a rename of a
/// tab of that name to anything but `desired`, some tab of that name should still be called
/// `desired`. Tabs can be counted in 32 bits.
pub open spec fn leaves_stuck(h: Handled, name: Seq<char>, desired: Seq<char>) -> bool {
    &&& h.after.settings.tab_titles
    &&& h.after.tabs.len() <= u32::MAX
    &&& crate::titles::live(h.after.tabs, name)
    &&& forall|other: Seq<char>|
        other != desired && #[trigger] renamed(h, name, other) ==> wants_after(
            h.after,
            name,
            desired,
        )
}

/// Events handled one after the other, each starting from the count that the one before
/// it left, and each leaving the rename stuck.
pub open spec fn stuck_throughout(run: Seq<Handled>, name: Seq<char>, desired: Seq<char>) -> bool {
    &&& forall|k: int|
        0 <= k < run.len() ==> leaves_stuck(#[trigger] run[k], name, desired)
            && crate::model::updated(
            run[k].before,
            run[k].event,
            run[k].clock,
            run[k].after,
            run[k].out,
        )
    &&& forall|k: int, l: int|
        0 <= k < run.len() && l == k + 1 && l < run.len() ==> (
        #[trigger] run[l]).before.pending_renames.get((name, desired)) == (
        #[trigger] run[k]).after.pending_renames.get((name, desired))
}

/// The renames that go out are those that the event's round asks for.
proof fn lemma_renamed_is_asked(h: Handled, r: Round, name: Seq<char>, desired: Seq<char>)
    requires
        h.after.tabs.len() <= u32::MAX,
        r.before.tabs == h.after.tabs,
        forall|k: int|
            0 <= k < h.out.actions.len() && (#[trigger] h.out.actions[k]) is RenameTab
                ==> r.sends().contains(h.out.actions[k]),
        forall|k: int|
            0 <= k < r.sends().len() ==> h.out.actions.contains(#[trigger] r.sends()[k]),
    ensures
        renamed(h, name, desired) <==> r.asks(name, desired),
{
    let tabs = r.before.tabs;
    let n = tabs.len() as int;
    let renames = crate::titles::renames_due(tabs, n, r.titles, r.source, r.kept());
    if renamed(h, name, desired) {
        let i = choose|i: int|
            0 <= i < tabs.len() && (#[trigger] tabs[i]).position == i && tabs[i].name == name
                && h.out.actions.contains(
                ActionView::RenameTab {
                    tab: crate::titles::tab_number(tabs[i].position),
                    name: desired,
                },
            );
        let action = ActionView::RenameTab {
            tab: crate::titles::tab_number(tabs[i].position),
            name: desired,
        };
        let k = choose|k: int| 0 <= k < h.out.actions.len() && h.out.actions[k] == action;
        assert(h.out.actions[k] is RenameTab);
        let m = choose|m: int| 0 <= m < r.sends().len() && r.sends()[m] == action;
        let j = crate::laws::lemma_renames_due(tabs, n, r.titles, r.source, r.kept(), m);
        assert(j == i);
        assert(r.asks_at(i, name, desired));
    }
    if r.asks(name, desired) {
        let i = choose|i: int| #[trigger] r.asks_at(i, name, desired);
        let k = lemma_due_is_among_renames_due(tabs, n, r.titles, r.source, r.kept(), i);
        assert(h.out.actions.contains(r.sends()[k]));
        assert(h.after.tabs[i].position == i);
    }
}

/// One event that leaves a rename stuck: if it goes out, an attempt is counted.
proof fn lemma_stuck_event(h: Handled, name: Seq<char>, desired: Seq<char>)
    requires
        leaves_stuck(h, name, desired),
        crate::model::updated(h.before, h.event, h.clock, h.after, h.out),
    ensures
        ({
            let before = crate::titles::attempts_at(h.before.pending_renames, name, desired);
            let after = crate::titles::attempts_at(h.after.pending_renames, name, desired);
            &&& before <= after
            &&& renamed(h, name, desired) ==> before < after <= RENAME_MAX_ATTEMPTS
        }),
{
    let made = lemma_event_round(h.before, h.event, h.clock, h.after, h.out);
    match made {
        Some(r) => {
            lemma_renamed_is_asked(h, r, name, desired);
            assert forall|other: Seq<char>|
                other != desired && #[trigger] r.asks(name, other) implies r.wants(
                name,
                desired,
            ) by {
                lemma_renamed_is_asked(h, r, name, other);
                assert(wants_after(h.after, name, desired));
                assert(crate::titles::wants(h.after.tabs, r.titles, r.source, name, desired));
            }
            lemma_stuck_round(r, name, desired);
        },
        None => {
            if renamed(h, name, desired) {
                lemma_renamed_renames_something(h, name, desired);
            }
        },
    }
}

proof fn lemma_times_renamed(run: Seq<Handled>, name: Seq<char>, desired: Seq<char>, n: int)
    requires
        stuck_throughout(run, name, desired),
        0 < n <= run.len(),
    ensures
        times_renamed(run, name, desired, n) <= crate::titles::attempts_at(
            run[n - 1].after.pending_renames,
            name,
            desired,
        ),
        times_renamed(run, name, desired, n) <= RENAME_MAX_ATTEMPTS,
    decreases n,
{
    lemma_stuck_event(run[n - 1], name, desired);
    if n > 1 {
        lemma_times_renamed(run, name, desired, n - 1);
        lemma_same_attempts(
            run[n - 2].after.pending_renames,
            run[n - 1].before.pending_renames,
            name,
            desired,
        );
    } else {
        assert(times_renamed(run, name, desired, 0) == 0);
    }
}

/// Renaming cannot go on forever: over any run of events that leave some tab with the old
/// name, at most `RENAME_MAX_ATTEMPTS` of them send a rename of a tab of that name to the
/// same new name, as long as nothing else is asked of a tab of that name, or one of them
/// should still have the new name when something else is. Where the tabs are, whether
/// their positions are in drift, and what others are called does not matter.
pub proof fn law_renames_of_a_stuck_tab_are_bounded(
    run: Seq<Handled>,
    name: Seq<char>,
    desired: Seq<char>,
)
    requires
        stuck_throughout(run, name, desired),
    ensures
        times_renamed(run, name, desired, run.len() as int) <= RENAME_MAX_ATTEMPTS,
{
    if run.len() > 0 {
        lemma_times_renamed(run, name, desired, run.len() as int);
    }
}

/// What a round asks a tab to be called: what the title of its picked pane gives, if that
/// is a name and another than the tab has, the tab is where it says it is, the last batch
/// was at least `RENAME_COOLDOWN_MS` ago, and a tab of that name was asked for it in fewer
/// than `RENAME_MAX_ATTEMPTS` batches.
pub proof fn law_what_a_round_asks_for(r: Round, i: int, desired: Seq<char>)
    requires
        0 <= i < r.before.tabs.len(),
    ensures
        r.asks_at(i, r.before.tabs[i].name, desired) <==> {
            let tab = r.before.tabs[i];
            let key = (tab.name, desired);
            &&& r.now_ms >= r.before.last_rename_ms + 400
            &&& tab.position == i
            &&& r.source.contains_key(tab.position)
            &&& r.titles.contains_key(r.source[tab.position])
            &&& desired == crate::text::sanitized(r.titles[r.source[tab.position]])
            &&& desired.len() > 0
            &&& desired != tab.name
            &&& r.before.pending_renames.contains_key(key) ==> r.before.pending_renames[key] < 3
        },
{
    let tab = r.before.tabs[i];
    crate::titles::law_a_tab_should_be_called_after_its_pane(tab, r.titles, r.source, desired);
    assert(crate::titles::live(r.before.tabs, tab.name));
}

/// Every rename that a round sends is one that it asks for, of the tab that `i` says.
pub proof fn law_a_round_sends_only_what_it_asks_for(r: Round, k: int) -> (i: int)
    requires
        0 <= k < r.sends().len(),
    ensures
        0 <= i < r.before.tabs.len(),
        r.sends()[k] matches ActionView::RenameTab { tab, name } && r.asks_at(
            i,
            r.before.tabs[i].name,
            name,
        ) && tab == (i as usize as u32 + 1) as u32,
{
    let tabs = r.before.tabs;
    let n = tabs.len() as int;
    crate::laws::lemma_renames_due(tabs, n, r.titles, r.source, r.kept(), k)
}

/// What a round asks of a tab is sent.
pub proof fn law_a_round_sends_all_that_it_asks_for(r: Round, i: int, desired: Seq<char>)
    requires
        0 <= i < r.before.tabs.len(),
        r.asks_at(i, r.before.tabs[i].name, desired),
    ensures
        r.sends().contains(
            ActionView::RenameTab { tab: (i as usize as u32 + 1) as u32, name: desired },
        ),
{
    let tabs = r.before.tabs;
    let n = tabs.len() as int;
    let k = lemma_due_is_among_renames_due(tabs, n, r.titles, r.source, r.kept(), i);
    assert(r.sends()[k] == (ActionView::RenameTab {
        tab: crate::titles::tab_number(tabs[i].position),
        name: desired,
    }));
}

/// The tabs of two renames due, in the order in which the renames stand.
proof fn lemma_renames_due_in_order(
    tabs: Seq<TabView>,
    n: int,
    titles: Map<u32, Seq<char>>,
    source: Map<usize, u32>,
    pending: Map<(Seq<char>, Seq<char>), u8>,
    k: int,
    l: int,
) -> (at: (int, int))
    requires
        0 <= n <= tabs.len(),
        0 <= k < l < crate::titles::renames_due(tabs, n, titles, source, pending).len(),
    ensures
        0 <= at.0 < at.1 < n,
        ({
            let renames = crate::titles::renames_due(tabs, n, titles, source, pending);
            &&& tabs[at.0].position == at.0
            &&& tabs[at.1].position == at.1
            &&& renames[k].tab == crate::titles::tab_number(tabs[at.0].position)
            &&& renames[l].tab == crate::titles::tab_number(tabs[at.1].position)
        }),
    decreases n,
{
    let before = crate::titles::renames_due(tabs, n - 1, titles, source, pending);
    if l < before.len() {
        lemma_renames_due_in_order(tabs, n - 1, titles, source, pending, k, l)
    } else {
        let i = crate::laws::lemma_renames_due(tabs, n - 1, titles, source, pending, k);
        (i, n - 1)
    }
}

/// Renames go out in the order of the tabs, at most one for each.
pub proof fn law_renames_go_out_in_the_tabs_order(
    s0: StateView,
    event: EventView,
    clock: Clock,
    s1: StateView,
    out: OutcomeView,
    k: int,
    l: int,
) -> (at: (int, int))
    requires
        crate::model::updated(s0, event, clock, s1, out),
        0 <= k < l < out.actions.len(),
        out.actions[k] is RenameTab,
        out.actions[l] is RenameTab,
    ensures
        0 <= at.0 < at.1 < s1.tabs.len(),
        s1.tabs[at.0].position == at.0,
        s1.tabs[at.1].position == at.1,
        out.actions[k]->tab == (at.0 as usize as u32 + 1) as u32,
        out.actions[l]->tab == (at.1 as usize as u32 + 1) as u32,
{
    let renames = crate::laws::lemma_event_renames(s0, event, clock, s1, out);
    assert(renames.contains(out.actions[k]));
    let s = crate::laws::mirrored_from(s0, event, s1.pane_to_tab)->0;
    crate::laws::lemma_titles_applied(s, clock.millis, s1, renames);
    let lead = crate::laws::leading_actions(s0, event).len() as int;
    assert(k >= lead);
    assert(out.actions[k] == renames[k - lead]);
    assert(out.actions[l] == renames[l - lead]);
    let (titles, source) = crate::laws::lemma_round_maps(
        s,
        s.pane_manifest->0,
        clock.millis,
        s1,
        renames,
    );
    let kept = crate::titles::retained(s.pending_renames, s.tabs);
    lemma_renames_due_in_order(
        s.tabs,
        s.tabs.len() as int,
        titles,
        source,
        kept,
        k - lead,
        l - lead,
    )
}

/// The time of the last batch is now if a rename goes out, and else what it was.
pub proof fn law_the_last_batch_is_that_of_the_last_rename(
    s0: StateView,
    event: EventView,
    clock: Clock,
    s1: StateView,
    out: OutcomeView,
    k: int,
)
    requires
        crate::model::updated(s0, event, clock, s1, out),
    ensures
        0 <= k < out.actions.len() && out.actions[k] is RenameTab ==> s1.last_rename_ms
            == clock.millis && clock.millis >= s0.last_rename_ms + 400 && s1.settings.tab_titles,
        (forall|l: int|
            0 <= l < out.actions.len() ==> !((#[trigger] out.actions[l]) is RenameTab))
            ==> s1.last_rename_ms == s0.last_rename_ms,
{
    crate::laws::lemma_updated(s0, event, clock, s1, out);
}

/// Where a rename that went out came from: the tab, the pane of that tab whose title it
/// mirrors, and a place where a tab lists that pane with the title.
pub struct Origin {
    pub tab: usize,
    pub pane: int,
    pub char: int,
    pub listed_on: usize,
    pub listed_at: int,
}

/// A rename that goes out mirrors a title. It addresses a tab that is where it says it is;
/// one of that tab's terminal panes has a title that is not blank, and no other such pane
/// of the tab was active after it, or as late with a lower id; and the new name is what a
/// tab lists as that pane's title, made a tab name. The tab has another name, and one of
/// its name was asked for this one in fewer than `RENAME_MAX_ATTEMPTS` batches.
pub proof fn law_a_rename_mirrors_a_title(
    s0: StateView,
    event: EventView,
    clock: Clock,
    s1: StateView,
    out: OutcomeView,
    k: int,
    j: int,
    c: int,
) -> (from: Origin)
    requires
        crate::model::updated(s0, event, clock, s1, out),
        0 <= k < out.actions.len(),
        out.actions[k] is RenameTab,
    ensures
        s1.pane_manifest is Some,
        from.tab < s1.tabs.len(),
        s1.tabs[from.tab as int].position == from.tab,
        out.actions[k]->tab == (from.tab as u32 + 1) as u32,
        s1.pane_manifest->0.contains_key(from.tab),
        s1.pane_manifest->0.contains_key(from.listed_on),
        ({
            let manifest = s1.pane_manifest->0;
            let panes = manifest[from.tab];
            let name = s1.tabs[from.tab as int].name;
            let desired = out.actions[k]->name;
            let id = panes[from.pane].id;
            let listed = manifest[from.listed_on][from.listed_at];
            &&& 0 <= from.pane < panes.len()
            &&& !panes[from.pane].is_plugin
            &&& 0 <= from.char < panes[from.pane].title.len()
            &&& !crate::text::white_space(panes[from.pane].title[from.char])
            &&& 0 <= from.listed_at < manifest[from.listed_on].len()
            &&& !listed.is_plugin
            &&& listed.id == id
            &&& desired == crate::text::sanitized(listed.title)
            &&& desired.len() > 0
            &&& desired != name
            &&& s0.pending_renames.contains_key((name, desired))
                ==> s0.pending_renames[(name, desired)] < 3
            &&& 0 <= j < panes.len() && !panes[j].is_plugin && 0 <= c < panes[j].title.len()
                && !crate::text::white_space(panes[j].title[c]) ==> leads(
                s1.sessions,
                id,
                panes[j].id,
            )
        }),
{
    let made = lemma_event_round(s0, event, clock, s1, out);
    assert(crate::laws::renames_something(out.actions));
    let r = made->0;
    assert(r.sends().contains(out.actions[k]));
    let m = choose|m: int| 0 <= m < r.sends().len() && r.sends()[m] == out.actions[k];
    let i = law_a_round_sends_only_what_it_asks_for(r, m);
    law_what_a_round_asks_for(r, i, out.actions[k]->name);
    let manifest = s1.pane_manifest->0;
    let tab = i as usize;
    let id = r.source[tab];
    let (pane, char) = crate::tab_pane_map::law_the_title_pane_is_a_titled_terminal(
        manifest,
        s1.sessions,
        r.source,
        tab,
    );
    let (listed_on, listed_at) = crate::tab_pane_map::law_titles_are_those_that_panes_have(
        manifest,
        r.titles,
        id,
    );
    let panes = manifest[tab];
    if 0 <= j < panes.len() && !panes[j].is_plugin && 0 <= c < panes[j].title.len()
        && !crate::text::white_space(panes[j].title[c]) {
        crate::tab_pane_map::law_the_title_pane_was_active_last(
            manifest,
            s1.sessions,
            r.source,
            tab,
            j,
            c,
        );
    }
    Origin { tab, pane, char, listed_on, listed_at }
}

/// Pane `p` comes before pane `q`: it was active later, or as late and it has no higher
/// id. A pane without a session was last active at time 0.
pub open spec fn leads(sessions: Map<u32, SessionView>, p: u32, q: u32) -> bool {
    let at_p: int = if sessions.contains_key(p) {
        sessions[p].last_event_ts as int
    } else {
        0
    };
    let at_q: int = if sessions.contains_key(q) {
        sessions[q].last_event_ts as int
    } else {
        0
    };
    at_p > at_q || (at_p == at_q && p <= q)
}

/// A title is mirrored at once. With the setting on and the last batch at least
/// `RENAME_COOLDOWN_MS` ago, new tabs or panes, settings that arrive, and a setting that is
/// changed make a rename go out for every tab that is where it says it is, to the title of
/// the terminal pane that leads among those of the tab with a title, made a tab name, if
/// that is a name and another than the tab has, and was asked for in fewer than
/// `RENAME_MAX_ATTEMPTS` batches. The pane has one title, wherever it is listed.
pub proof fn law_a_title_is_mirrored_at_once(
    s0: StateView,
    event: EventView,
    clock: Clock,
    s1: StateView,
    out: OutcomeView,
    tab: usize,
    pane: int,
    c: int,
)
    requires
        crate::model::updated(s0, event, clock, s1, out),
        crate::laws::mirrored_from(s0, event, s1.pane_to_tab) is Some,
        s1.settings.tab_titles,
        clock.millis >= s0.last_rename_ms + 400,
        s1.pane_manifest is Some,
        s1.pane_manifest->0.contains_key(tab),
        tab < s1.tabs.len(),
        s1.tabs[tab as int].position == tab,
        ({
            let manifest = s1.pane_manifest->0;
            let panes = manifest[tab];
            let name = s1.tabs[tab as int].name;
            let desired = crate::text::sanitized(panes[pane].title);
            &&& 0 <= pane < panes.len()
            &&& !panes[pane].is_plugin
            &&& 0 <= c < panes[pane].title.len()
            &&& !crate::text::white_space(panes[pane].title[c])
            &&& forall|j: int, d: int|
                #![trigger panes[j].title[d]]
                0 <= j < panes.len() && !panes[j].is_plugin && 0 <= d < panes[j].title.len()
                    && !crate::text::white_space(panes[j].title[d]) ==> leads(
                    s1.sessions,
                    panes[pane].id,
                    panes[j].id,
                )
            &&& forall|p: usize, j: int|
                #![trigger manifest[p][j]]
                manifest.contains_key(p) && 0 <= j < manifest[p].len() && !manifest[p][j].is_plugin
                    && manifest[p][j].id == panes[pane].id ==> manifest[p][j].title
                    == panes[pane].title
            &&& desired.len() > 0
            &&& desired != name
            &&& s0.pending_renames.contains_key((name, desired))
                ==> s0.pending_renames[(name, desired)] < 3
        }),
    ensures
        out.actions.contains(
            ActionView::RenameTab {
                tab: (tab as u32 + 1) as u32,
                name: crate::text::sanitized(s1.pane_manifest->0[tab][pane].title),
            },
        ),
{
    let renames = crate::laws::lemma_event_renames(s0, event, clock, s1, out);
    let s = crate::laws::mirrored_from(s0, event, s1.pane_to_tab)->0;
    crate::laws::lemma_titles_applied(s, clock.millis, s1, renames);
    let manifest = s.pane_manifest->0;
    let panes = manifest[tab];
    let id = panes[pane].id;
    let (titles, source) = crate::laws::lemma_round_maps(s, manifest, clock.millis, s1, renames);
    crate::tab_pane_map::law_the_title_pane_was_active_last(
        manifest,
        s1.sessions,
        source,
        tab,
        pane,
        c,
    );
    let (j, d) = crate::tab_pane_map::law_the_title_pane_is_a_titled_terminal(
        manifest,
        s1.sessions,
        source,
        tab,
    );
    assert(!crate::text::white_space(panes[j].title[d]));
    assert(source[tab] == id);
    crate::tab_pane_map::law_every_terminal_pane_has_its_title(manifest, titles, tab, pane);
    let (p, l) = crate::tab_pane_map::law_titles_are_those_that_panes_have(manifest, titles, id);
    assert(manifest[p][l].title == panes[pane].title);
    let desired = crate::text::sanitized(panes[pane].title);
    let r = Round { before: s, titles, source, now_ms: clock.millis };
    law_what_a_round_asks_for(r, tab as int, desired);
    law_a_round_sends_all_that_it_asks_for(r, tab as int, desired);
    let action = ActionView::RenameTab { tab: (tab as u32 + 1) as u32, name: desired };
    assert(renames.contains(action));
    let m = choose|m: int| 0 <= m < renames.len() && renames[m] == action;
    assert(out.actions.contains(renames[m]));
}

/// What any event does to a count, by what it sends. A rename that goes out is counted
/// once; no other count grows or appears. With the setting on, a count is kept as long as
/// some tab has its old name and nothing else is asked of a tab of that name.
pub proof fn law_what_is_sent_is_counted(h: Handled, name: Seq<char>, desired: Seq<char>)
    requires
        crate::model::updated(h.before, h.event, h.clock, h.after, h.out),
        h.after.tabs.len() <= u32::MAX,
    ensures
        ({
            let key = (name, desired);
            let before = h.before.pending_renames;
            let after = h.after.pending_renames;
            &&& renamed(h, name, desired) ==> after.contains_key(key) && after[key] == (
            if before.contains_key(key) {
                before[key] + 1
            } else {
                1
            })
            &&& !renamed(h, name, desired) && after.contains_key(key) ==> before.contains_key(key)
                && after[key] == before[key]
            &&& h.after.settings.tab_titles && before.contains_key(key) && (exists|i: int|
                0 <= i < h.after.tabs.len() && (#[trigger] h.after.tabs[i]).name == name) && (
            forall|other: Seq<char>|
                other != desired ==> !#[trigger] renamed(h, name, other)) ==> after.contains_key(
                key,
            )
        }),
{
    let made = lemma_event_round(h.before, h.event, h.clock, h.after, h.out);
    let key = (name, desired);
    match made {
        Some(r) => {
            lemma_renamed_is_asked(h, r, name, desired);
            law_a_count_is_kept_while_its_name_is_there(r, name, desired);
            assert(r.kept().contains_key(key) == (r.kept().get(key) is Some));
            assert(r.before.pending_renames.contains_key(key) == (r.before.pending_renames.get(
                key,
            ) is Some));
            if r.asks(name, desired) {
                let i = choose|i: int| #[trigger] r.asks_at(i, name, desired);
                assert(crate::titles::live(r.before.tabs, name)) by {
                    assert(r.before.tabs[i].name == name);
                }
                law_each_target_has_its_own_count(r, name, desired);
            } else if !r.too_soon() {
                law_each_target_has_its_own_count(r, name, desired);
                let after = r.after().pending_renames;
                assert(after.contains_key(key) == (after.get(key) is Some));
                if exists|other: Seq<char>| #[trigger]
                    r.asks(name, other) && !r.kept().contains_key((name, other)) {
                    let other = choose|other: Seq<char>| #[trigger]
                        r.asks(name, other) && !r.kept().contains_key((name, other));
                    lemma_renamed_is_asked(h, r, name, other);
                    if r.kept().contains_key(key) {
                        assert(other != desired);
                    }
                }
            }
        },
        None => {
            if renamed(h, name, desired) {
                lemma_renamed_renames_something(h, name, desired);
            }
        },
    }
}

proof fn lemma_renamed_renames_something(h: Handled, name: Seq<char>, desired: Seq<char>)
    requires
        renamed(h, name, desired),
    ensures
        crate::laws::renames_something(h.out.actions),
{
    let i = choose|i: int|
        0 <= i < h.after.tabs.len() && (#[trigger] h.after.tabs[i]).position == i
            && h.after.tabs[i].name == name && h.out.actions.contains(
            ActionView::RenameTab {
                tab: crate::titles::tab_number(h.after.tabs[i].position),
                name: desired,
            },
        );
    let k = choose|k: int|
        0 <= k < h.out.actions.len() && h.out.actions[k] == (ActionView::RenameTab {
            tab: crate::titles::tab_number(h.after.tabs[i].position),
            name: desired,
        });
    assert(h.out.actions[k] is RenameTab);
}

/// Where titles are looked at, the renames in flight are looked after: with the setting
/// off all are dropped, and with it on, panes known and the last batch long enough ago, no
/// count is left under a name that no tab has. An event that does not look at titles
/// leaves them as they are.
pub proof fn law_counts_are_dropped_with_their_names(
    s0: StateView,
    event: EventView,
    clock: Clock,
    s1: StateView,
    out: OutcomeView,
    name: Seq<char>,
    desired: Seq<char>,
)
    requires
        crate::model::updated(s0, event, clock, s1, out),
    ensures
        ({
            let looks = crate::laws::mirrored_from(s0, event, s1.pane_to_tab) is Some;
            &&& looks && !s1.settings.tab_titles ==> !s1.pending_renames.contains_key(
                (name, desired),
            )
            &&& looks && s1.settings.tab_titles && s1.pane_manifest is Some && clock.millis
                >= s0.last_rename_ms + 400 && (forall|i: int|
                0 <= i < s1.tabs.len() ==> (#[trigger] s1.tabs[i]).name != name)
                ==> !s1.pending_renames.contains_key((name, desired))
            &&& !looks ==> s1.pending_renames == s0.pending_renames
            &&& clock.millis < s0.last_rename_ms + 400 && s1.settings.tab_titles
                ==> s1.pending_renames == s0.pending_renames
        }),
{
    let renames = crate::laws::lemma_event_renames(s0, event, clock, s1, out);
    if let Some(s) = crate::laws::mirrored_from(s0, event, s1.pane_to_tab) {
        crate::laws::lemma_titles_applied(s, clock.millis, s1, renames);
        if s.settings.tab_titles && s.pane_manifest is Some {
            let (titles, source) = crate::laws::lemma_round_maps(
                s,
                s.pane_manifest->0,
                clock.millis,
                s1,
                renames,
            );
            let r = Round { before: s, titles, source, now_ms: clock.millis };
            if !r.too_soon() && !crate::titles::live(s.tabs, name) {
                law_landed_and_lost_renames_are_retired(r, name, desired);
            }
        }
    }
}

/// A round changes nothing but the renames in flight and the time of the last batch, which
/// is now if it sends any rename and else stays. One within `RENAME_COOLDOWN_MS` of the
/// last batch does nothing.
pub proof fn law_a_round_changes_only_its_own_counts(r: Round)
    ensures
        r.after() == (StateView {
            pending_renames: r.after().pending_renames,
            last_rename_ms: if r.sends().len() > 0 {
                r.now_ms
            } else {
                r.before.last_rename_ms
            },
            ..r.before
        }),
        r.now_ms < r.before.last_rename_ms + 400 ==> r.after() == r.before && r.sends().len() == 0,
{
}

} // verus!
