//! The rules that decide which title a tab mirrors and whether a rename may go out.

use vstd::prelude::*;

use crate::text::is_blank;

verus! {

/// A candidate pane: its id, its title, and when it was last active.
pub type CandidateView = (u32, Seq<char>, u64);

/// The candidate's title, taken as text.
pub open spec fn candidate_view(c: (u32, String, u64)) -> CandidateView {
    (c.0, c.1@, c.2)
}

/// A candidate that has something to show: only these are eligible, whatever
/// their activity.
pub open spec fn titled(c: CandidateView) -> bool {
    !crate::text::blank(c.1)
}

/// `a` is preferred over `b`: it was active later, or at the same time and its
/// pane id is lower.
pub open spec fn preferred(a: CandidateView, b: CandidateView) -> bool {
    a.2 > b.2 || (a.2 == b.2 && a.0 < b.0)
}

/// `c` is a titled candidate over which no titled candidate is preferred.
pub open spec fn best_candidate(candidates: Seq<CandidateView>, c: CandidateView) -> bool {
    &&& candidates.contains(c)
    &&& titled(c)
    &&& forall|other: CandidateView| #[trigger]
        candidates.contains(other) && titled(other) ==> !preferred(other, c)
}

/// `pick` is the right choice among `candidates`: the id of the best one, or none
/// when no candidate is titled.
pub open spec fn title_pick(candidates: Seq<CandidateView>, pick: Option<u32>) -> bool {
    match pick {
        Some(id) => exists|c: CandidateView| #[trigger]
            best_candidate(candidates, c) && c.0 == id,
        None => forall|c: CandidateView| #[trigger] candidates.contains(c) ==> !titled(c),
    }
}

/// Pick which pane, of the candidates on one tab, should supply the tab title.
///
/// Each candidate is `(pane_id, title, last_event_ts)`, where `last_event_ts` is
/// 0 when no hook activity is known for that pane. Returns `None` when no
/// candidate has a usable title.
///
/// The rule that matters: a candidate with a title is eligible even when its
/// activity timestamp is 0. Right after a server restart panes come back from the
/// serialized layout before any hook has fired, and their titles count all the same.
///
/// Ties broken by lowest pane id so the choice is stable across updates rather
/// than flapping with map iteration order.
pub fn pick_title_pane(candidates: &[(u32, String, u64)]) -> (pick: Option<u32>)
    ensures
        title_pick(candidates@.map_values(|c: (u32, String, u64)| candidate_view(c)), pick),
{
    let ghost views = candidates@.map_values(|c: (u32, String, u64)| candidate_view(c));
    let mut best: Option<(u32, u64)> = None;
    let ghost mut chosen: CandidateView = (0, Seq::empty(), 0);
    let mut i: usize = 0;
    while i < candidates.len()
        invariant
            i <= candidates.len(),
            views == candidates@.map_values(|c: (u32, String, u64)| candidate_view(c)),
            best is None ==> forall|j: int| 0 <= j < i ==> !titled(#[trigger] views[j]),
            best matches Some(b) ==> {
                &&& views.contains(chosen)
                &&& titled(chosen)
                &&& b == (chosen.0, chosen.2)
                &&& forall|j: int|
                    0 <= j < i && titled(#[trigger] views[j]) ==> !preferred(views[j], chosen)
            },
        decreases candidates.len() - i,
    {
        let c = &candidates[i];
        proof {
            assert(views[i as int] == candidate_view(*c));
        }
        if !is_blank(c.1.as_str()) {
            let better: bool = match best {
                None => true,
                Some(b) => c.2 > b.1 || (c.2 == b.1 && c.0 < b.0),
            };
            if better {
                best = Some((c.0, c.2));
                proof {
                    chosen = views[i as int];
                }
            }
        }
        i += 1;
    }
    proof {
        if best is Some {
            assert(best_candidate(views, chosen));
        }
    }
    match best {
        Some(b) => Some(b.0),
        None => None,
    }
}

/// The choice is determined: two right choices among the same candidates agree,
/// in whatever order the candidates are listed and however often.
pub proof fn law_pick_does_not_depend_on_order(
    a: Seq<CandidateView>,
    b: Seq<CandidateView>,
    pick_a: Option<u32>,
    pick_b: Option<u32>,
)
    requires
        forall|c: CandidateView| #[trigger] a.contains(c) <==> b.contains(c),
        title_pick(a, pick_a),
        title_pick(b, pick_b),
    ensures
        pick_a == pick_b,
{
    if let Some(x) = pick_a {
        let c = choose|c: CandidateView| #[trigger] best_candidate(a, c) && c.0 == x;
        assert(b.contains(c));
        if let Some(y) = pick_b {
            let d = choose|d: CandidateView| #[trigger] best_candidate(b, d) && d.0 == y;
            assert(a.contains(d));
            assert(b.contains(c));
        }
    } else if let Some(y) = pick_b {
        let d = choose|d: CandidateView| #[trigger] best_candidate(b, d) && d.0 == y;
        assert(a.contains(d));
    }
}

/// A title is always found where there is one: among candidates of which at least
/// one is titled, some titled pane is picked, even with no activity known at all.
pub proof fn law_a_titled_pane_is_always_picked(
    candidates: Seq<CandidateView>,
    c: CandidateView,
    pick: Option<u32>,
)
    requires
        candidates.contains(c),
        titled(c),
        title_pick(candidates, pick),
    ensures
        pick is Some,
        exists|d: CandidateView| #[trigger]
            candidates.contains(d) && titled(d) && Some(d.0) == pick && d.2 >= c.2,
{
    let d = choose|d: CandidateView| #[trigger] best_candidate(candidates, d) && Some(d.0) == pick;
    assert(!preferred(c, d));
}

/// Whether a tab's reported position can be trusted enough to address a rename at it.
///
/// A tab's position arrives in a snapshot that may predate a tab close. When it
/// disagrees with the tab's actual index in the list that was just received,
/// positions are mid-drift and a rename could land on the wrong tab.
pub fn position_is_addressable(reported_position: usize, index_in_list: usize) -> (yes: bool)
    ensures
        yes == (reported_position == index_in_list),
{
    reported_position == index_in_list
}

/// The same name was asked for at least `max_attempts` times before, to no effect.
pub open spec fn budget_exhausted(
    prior_desired: Option<Seq<char>>,
    desired: Seq<char>,
    attempts: u8,
    max_attempts: u8,
) -> bool {
    prior_desired == Some(desired) && attempts >= max_attempts
}

/// Whether a desired rename has exhausted its retry budget.
///
/// Returns true when the same desired name has already been issued
/// `max_attempts` times without landing, meaning it should be abandoned rather
/// than re-issued forever. A different target resets the budget.
pub fn rename_budget_exhausted(
    prior_desired: Option<&str>,
    desired: &str,
    attempts: u8,
    max_attempts: u8,
) -> (exhausted: bool)
    ensures
        exhausted == budget_exhausted(
            match prior_desired {
                Some(prior) => Some(prior@),
                None => None,
            },
            desired@,
            attempts,
            max_attempts,
        ),
{
    match prior_desired {
        Some(prior) => *prior == *desired && attempts >= max_attempts,
        None => false,
    }
}

/// A first attempt is never refused, nor one at a name other than the one last asked
/// for, and a budget once spent stays spent.
pub proof fn law_budget_is_per_target(
    prior: Option<Seq<char>>,
    desired: Seq<char>,
    attempts: u8,
    more: u8,
    max_attempts: u8,
)
    requires
        attempts <= more,
    ensures
        prior != Some(desired) ==> !budget_exhausted(prior, desired, attempts, max_attempts),
        budget_exhausted(prior, desired, attempts, max_attempts) ==> budget_exhausted(
            prior,
            desired,
            more,
            max_attempts,
        ),
{
}

/// The picked pane leads: no candidate with a character of its title that is not white
/// space was active after it, or at the same time with a lower id. `p` is where the picked
/// pane stands among the candidates.
pub proof fn law_the_picked_candidate_leads(
    candidates: Seq<CandidateView>,
    pick: Option<u32>,
    j: int,
    c: int,
) -> (p: int)
    requires
        title_pick(candidates, pick),
        0 <= j < candidates.len(),
        0 <= c < candidates[j].1.len(),
        !crate::text::white_space(candidates[j].1[c]),
    ensures
        0 <= p < candidates.len(),
        pick == Some(candidates[p].0),
        candidates[p].2 > candidates[j].2 || (candidates[p].2 == candidates[j].2
            && candidates[p].0 <= candidates[j].0),
{
    assert(candidates.contains(candidates[j]));
    assert(!crate::text::blank(candidates[j].1));
    let best = choose|b: CandidateView| #[trigger]
        best_candidate(candidates, b) && Some(b.0) == pick;
    assert(!preferred(candidates[j], best));
    choose|p: int| 0 <= p < candidates.len() && candidates[p] == best
}

/// The picked pane has a title: `at` is where it stands among the candidates, and which
/// character of its title is not white space.
pub proof fn law_the_picked_candidate_has_a_title(
    candidates: Seq<CandidateView>,
    id: u32,
) -> (at: (int, int))
    requires
        title_pick(candidates, Some(id)),
    ensures
        0 <= at.0 < candidates.len(),
        candidates[at.0].0 == id,
        0 <= at.1 < candidates[at.0].1.len(),
        !crate::text::white_space(candidates[at.0].1[at.1]),
{
    let best = choose|b: CandidateView| #[trigger] best_candidate(candidates, b) && b.0 == id;
    let p = choose|p: int| 0 <= p < candidates.len() && candidates[p] == best;
    let c = choose|c: int|
        0 <= c < best.1.len() && !crate::text::white_space(#[trigger] best.1[c]);
    (p, c)
}

/// A budget is spent exactly when the same name was asked for as often as it allows.
pub proof fn law_a_budget_is_spent_by_attempts_at_the_same_name(
    prior: Option<Seq<char>>,
    desired: Seq<char>,
    attempts: u8,
    max_attempts: u8,
)
    ensures
        budget_exhausted(prior, desired, attempts, max_attempts) <==> prior is Some && prior->0
            == desired && attempts >= max_attempts,
{
}

} // verus!
