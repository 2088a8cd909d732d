//! Flashing panes and when each stops.

use std::collections::HashMap;

use vstd::prelude::*;

verus! {

/// The flashes that are still on at `now`.
pub open spec fn unexpired(deadlines: Map<u32, u64>, now: u64) -> Map<u32, u64> {
    Map::new(
        |pane_id: u32| deadlines.contains_key(pane_id) && now < deadlines[pane_id],
        |pane_id: u32| deadlines[pane_id],
    )
}

/// A flash is on at `now`.
pub open spec fn any_unexpired(deadlines: Map<u32, u64>, now: u64) -> bool {
    exists|pane_id: u32| #[trigger] deadlines.contains_key(pane_id) && now < deadlines[pane_id]
}

/// A flash has run out by `now`.
pub open spec fn any_expired(deadlines: Map<u32, u64>, now: u64) -> bool {
    exists|pane_id: u32| #[trigger] deadlines.contains_key(pane_id) && deadlines[pane_id] <= now
}

/// The panes that have a deadline, each once.
fn flashing_panes(deadlines: &HashMap<u32, u64>) -> (ids: Vec<u32>)
    ensures
        forall|id: u32| #[trigger] ids@.contains(id) <==> deadlines@.contains_key(id),
        forall|i: int| 0 <= i < ids@.len() ==> deadlines@.contains_key(#[trigger] ids@[i]),
{
    let mut ids: Vec<u32> = Vec::new();
    let ghost keys = vstd::std_specs::iter::IteratorSpec::remaining(
        &vstd::std_specs::hash::spec_keys_iter(deadlines),
    );
    for id in it: deadlines.keys()
        invariant
            it.seq() == keys,
            ids@ == keys.take(it.index()).unref(),
    {
        ids.push(*id);
    }
    proof {
        assert(ids@ =~= keys.unref());
        assert forall|id: u32| #[trigger] ids@.contains(id) <==> deadlines@.contains_key(id) by {
            assert(keys.unref().to_set().contains(id) == deadlines@.contains_key(id));
        }
        assert forall|i: int| 0 <= i < ids@.len() implies deadlines@.contains_key(
            #[trigger] ids@[i],
        ) by {
            assert(ids@.contains(ids@[i]));
        }
    }
    ids
}

/// Drop the flashes that have run out. Returns whether there was any.
pub fn drop_expired(deadlines: &mut HashMap<u32, u64>, now: u64) -> (changed: bool)
    ensures
        final(deadlines)@ == unexpired(old(deadlines)@, now),
        changed == any_expired(old(deadlines)@, now),
{
    let ids = flashing_panes(deadlines);
    let ghost before = deadlines@;
    let mut changed: bool = false;
    let mut i: usize = 0;
    while i < ids.len()
        invariant
            i <= ids.len(),
            forall|id: u32| #[trigger] ids@.contains(id) <==> before.contains_key(id),
            forall|j: int| 0 <= j < ids@.len() ==> before.contains_key(#[trigger] ids@[j]),
            forall|id: u32| #[trigger]
                deadlines@.contains_key(id) ==> before.contains_key(id) && deadlines@[id]
                    == before[id],
            forall|id: u32| #[trigger]
                before.contains_key(id) && !deadlines@.contains_key(id) ==> before[id] <= now,
            forall|j: int|
                0 <= j < i && deadlines@.contains_key(#[trigger] ids@[j]) ==> now < before[ids@[j]],
            changed ==> any_expired(before, now),
            !changed ==> deadlines@ == before,
        decreases ids.len() - i,
    {
        let id: u32 = ids[i];
        let expired: bool = match deadlines.get(&id) {
            Some(deadline) => !(now < *deadline),
            None => false,
        };
        if expired {
            proof {
                assert(before.contains_key(id) && before[id] <= now);
            }
            deadlines.remove(&id);
            changed = true;
        }
        i += 1;
    }
    proof {
        let goal = unexpired(before, now);
        assert forall|id: u32| #[trigger] deadlines@.contains_key(id) <==> goal.contains_key(
            id,
        ) by {
            if deadlines@.contains_key(id) {
                assert(ids@.contains(id));
            }
            assert(before.contains_key(id) || !before.contains_key(id));
        }
        assert(deadlines@ =~= goal);
        if any_expired(before, now) {
            let id = choose|id: u32| #[trigger] before.contains_key(id) && before[id] <= now;
            assert(!goal.contains_key(id));
            assert(deadlines@ != before);
        }
    }
    changed
}

/// Whether any flash is on.
pub fn any_active(deadlines: &HashMap<u32, u64>, now: u64) -> (any: bool)
    ensures
        any == any_unexpired(deadlines@, now),
{
    let ids = flashing_panes(deadlines);
    let mut i: usize = 0;
    while i < ids.len()
        invariant
            i <= ids.len(),
            forall|id: u32| #[trigger] ids@.contains(id) <==> deadlines@.contains_key(id),
            forall|j: int|
                0 <= j < ids@.len() ==> deadlines@.contains_key(#[trigger] ids@[j]),
            forall|j: int| 0 <= j < i ==> deadlines@[#[trigger] ids@[j]] <= now,
        decreases ids.len() - i,
    {
        let id: u32 = ids[i];
        if let Some(deadline) = deadlines.get(&id) {
            if now < *deadline {
                proof {
                    assert(deadlines@.contains_key(id) && now < deadlines@[id]);
                }
                return true;
            }
        }
        i += 1;
    }
    proof {
        assert forall|id: u32| #[trigger] deadlines@.contains_key(id) implies deadlines@[id]
            <= now by {
            assert(ids@.contains(id));
        }
    }
    false
}

/// Stop the flashes of the given panes.
pub fn clear_panes(deadlines: &mut HashMap<u32, u64>, panes: &Vec<u32>)
    ensures
        final(deadlines)@ == old(deadlines)@.remove_keys(panes@.to_set()),
{
    let ghost before = deadlines@;
    let mut i: usize = 0;
    while i < panes.len()
        invariant
            i <= panes.len(),
            deadlines@ == before.remove_keys(panes@.take(i as int).to_set()),
        decreases panes.len() - i,
    {
        deadlines.remove(&panes[i]);
        proof {
            let was = panes@.take(i as int);
            let now = panes@.take(i + 1);
            assert(now =~= was.push(panes@[i as int]));
            assert(now.to_set() =~= was.to_set().insert(panes@[i as int])) by {
                broadcast use vstd::seq_lib::group_seq_properties;
            }
            assert(before.remove_keys(now.to_set()) =~= before.remove_keys(was.to_set()).remove(
                panes@[i as int],
            ));
        }
        i += 1;
    }
    proof {
        assert(panes@.take(panes@.len() as int) =~= panes@);
    }
}

/// A flash is on until its deadline: dropping those that have run out keeps every other
/// one, with its deadline.
pub proof fn law_a_flash_is_on_until_its_deadline(deadlines: Map<u32, u64>, now: u64, id: u32)
    ensures
        unexpired(deadlines, now).contains_key(id) <==> deadlines.contains_key(id) && deadlines[id]
            > now,
        unexpired(deadlines, now).contains_key(id) ==> unexpired(deadlines, now)[id]
            == deadlines[id],
        deadlines.contains_key(id) && deadlines[id] > now ==> any_unexpired(deadlines, now),
        deadlines.contains_key(id) && deadlines[id] <= now ==> any_expired(deadlines, now),
{
}

/// Where some flash is said to be on, or to have run out, there is one.
pub proof fn law_a_flash_that_is_told_of_is_there(deadlines: Map<u32, u64>, now: u64) -> (ids: (
    u32,
    u32,
))
    ensures
        any_unexpired(deadlines, now) ==> deadlines.contains_key(ids.0) && deadlines[ids.0] > now,
        any_expired(deadlines, now) ==> deadlines.contains_key(ids.1) && deadlines[ids.1] <= now,
{
    (
        choose|id: u32| #[trigger] deadlines.contains_key(id) && now < deadlines[id],
        choose|id: u32| #[trigger] deadlines.contains_key(id) && deadlines[id] <= now,
    )
}

} // verus!
