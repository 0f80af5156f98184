//! Experience orbs: the pickups that destroyed enemies leave behind.

use crate::units::{closer_than, Position};
use vstd::prelude::*;

verus! {

/// Distance below which the player collects an orb: 0.3 world units.
pub const PICKUP_RADIUS: u32 = 300_000;

/// A dropped pickup that is worth `value` experience.
#[derive(Clone, Copy, Debug, PartialEq, Eq, Structural)]
pub struct ExpOrb {
    /// Handle of the orb, never given to another one.
    pub id: u64,
    pub position: Position,
    pub value: u64,
    /// Set once the orb has touched the player's shape; never unset.
    pub collecting: bool,
}

impl ExpOrb {
    /// The orb is close enough to a player at `player` to be collected.
    pub open spec fn in_reach(self, player: Position) -> bool {
        closer_than(self.position, player, PICKUP_RADIUS as int)
    }

    /// The same orb, marked as being attracted.
    pub open spec fn attracted(self) -> ExpOrb {
        ExpOrb { id: self.id, position: self.position, value: self.value, collecting: true }
    }

    /// Decides [`ExpOrb::in_reach`].
    pub fn is_in_reach(&self, player: &Position) -> (near: bool)
        ensures
            near == self.in_reach(*player),
    {
        self.position.is_closer_than(player, PICKUP_RADIUS)
    }
}

/// The orbs that a player at `player` collects.
pub open spec fn reachable_from(player: Position) -> spec_fn(ExpOrb) -> bool {
    |orb: ExpOrb| orb.in_reach(player)
}

/// The orbs that a player at `player` leaves where they are.
pub open spec fn out_of_reach_from(player: Position) -> spec_fn(ExpOrb) -> bool {
    |orb: ExpOrb| !orb.in_reach(player)
}

/// The orbs with the handle `id`.
pub open spec fn known_as(id: u64) -> spec_fn(ExpOrb) -> bool {
    |orb: ExpOrb| orb.id == id
}

/// The orbs with another handle than `id`.
pub open spec fn not_known_as(id: u64) -> spec_fn(ExpOrb) -> bool {
    |orb: ExpOrb| orb.id != id
}

/// Sum of the values of some orbs.
pub open spec fn total_value(orbs: Seq<ExpOrb>) -> nat
    decreases orbs.len(),
{
    if orbs.len() == 0 {
        0
    } else {
        total_value(orbs.drop_last()) + orbs.last().value as nat
    }
}

/// The handles grow along the sequence and stay below `bound`.
pub open spec fn ascending_below(orbs: Seq<ExpOrb>, bound: u64) -> bool {
    &&& forall|i: int, j: int| 0 <= i < j < orbs.len() ==> orbs[i].id < orbs[j].id
    &&& forall|i: int| 0 <= i < orbs.len() ==> (#[trigger] orbs[i]).id < bound
}

/// Marks every orb whose handle is among `handles`.
pub open spec fn attract(orbs: Seq<ExpOrb>, handles: Seq<u64>) -> Seq<ExpOrb> {
    Seq::new(
        orbs.len(),
        |i: int|
            if handles.contains(orbs[i].id) {
                orbs[i].attracted()
            } else {
                orbs[i]
            },
    )
}

/// All orbs that lie in the match, oldest first.
#[derive(Clone, Debug)]
pub struct OrbField {
    pub orbs: Vec<ExpOrb>,
    /// Handle of the next orb.
    pub next_id: u64,
}

impl OrbField {
    /// No two orbs share a handle, and no handle will be given out twice.
    pub open spec fn wf(self) -> bool {
        ascending_below(self.orbs@, self.next_id)
    }

    /// A field without orbs.
    pub fn new() -> (field: OrbField)
        ensures
            field.wf(),
            field.orbs@.len() == 0,
            field.next_id == 0,
    {
        OrbField { orbs: Vec::new(), next_id: 0 }
    }

    /// Drops an orb worth `value` at `position` and returns its handle.
    pub fn spawn(&mut self, position: Position, value: u64) -> (id: u64)
        requires
            old(self).wf(),
            old(self).next_id < u64::MAX,
        ensures
            final(self).wf(),
            id == old(self).next_id,
            final(self).next_id == old(self).next_id + 1,
            final(self).orbs@ == old(self).orbs@.push(
                ExpOrb { id, position, value, collecting: false },
            ),
    {
        let id = self.next_id;
        self.orbs.push(ExpOrb { id, position, value, collecting: false });
        self.next_id = id + 1;
        id
    }

    /// Takes the orb with the handle `id` out of the field and returns it. A
    /// handle that no orb has changes nothing.
    pub fn destroy(&mut self, id: u64) -> (gone: Option<ExpOrb>)
        requires
            old(self).wf(),
        ensures
            final(self).wf(),
            final(self).next_id == old(self).next_id,
            final(self).orbs@ == old(self).orbs@.filter(not_known_as(id)),
            ({
                let found = old(self).orbs@.filter(known_as(id));
                &&& found.len() <= 1
                &&& found.len() == 0 ==> gone.is_none()
                &&& found.len() == 1 ==> gone == Some(found[0])
            }),
    {
        let mut kept: Vec<ExpOrb> = Vec::new();
        let mut gone: Option<ExpOrb> = None;
        let count = self.orbs.len();
        let ghost all = self.orbs@;
        let mut i: usize = 0;
        while i < count
            invariant
                0 <= i <= count,
                count == all.len(),
                self.orbs@ == all,
                ascending_below(all, self.next_id),
                kept@ == all.take(i as int).filter(not_known_as(id)),
                ascending_below(kept@, self.next_id),
                forall|a: int, j: int|
                    0 <= a < kept@.len() && i <= j < count ==> kept@[a].id < all[j].id,
                ({
                    let found = all.take(i as int).filter(known_as(id));
                    &&& found.len() <= 1
                    &&& found.len() == 0 ==> gone.is_none()
                    &&& found.len() == 1 ==> gone == Some(found[0])
                    &&& found.len() == 1 ==> forall|j: int| i <= j < count ==> all[j].id > id
                }),
            decreases count - i,
        {
            let orb = self.orbs[i];
            proof {
                reveal(Seq::filter);
                assert(all.take(i as int + 1).drop_last() =~= all.take(i as int));
                assert(all.take(i as int + 1).last() == orb);
            }
            if orb.id == id {
                gone = Some(orb);
            } else {
                kept.push(orb);
            }
            i += 1;
        }
        proof {
            assert(all.take(count as int) =~= all);
        }
        self.orbs = kept;
        gone
    }

    /// Removes every orb. Handles already given out stay used.
    pub fn clear(&mut self)
        requires
            old(self).wf(),
        ensures
            final(self).wf(),
            final(self).orbs@.len() == 0,
            final(self).next_id == old(self).next_id,
    {
        self.orbs.clear();
    }
}

/// Removing a handle a second time removes nothing: no orb with that handle
/// is left after the first time.
pub proof fn lemma_destroy_is_idempotent(orbs: Seq<ExpOrb>, id: u64)
    ensures
        orbs.filter(not_known_as(id)).filter(not_known_as(id)) == orbs.filter(not_known_as(id)),
        orbs.filter(not_known_as(id)).filter(known_as(id)) == Seq::<ExpOrb>::empty(),
        total_value(orbs.filter(not_known_as(id)).filter(known_as(id))) == 0,
    decreases orbs.len(),
{
    reveal(Seq::filter);
    if orbs.len() > 0 {
        lemma_destroy_is_idempotent(orbs.drop_last(), id);
        let front = orbs.drop_last().filter(not_known_as(id));
        if orbs.last().id != id {
            assert(front.push(orbs.last()).drop_last() =~= front);
        }
    }
    assert(orbs.filter(not_known_as(id)).filter(not_known_as(id)) =~= orbs.filter(
        not_known_as(id),
    ));
    assert(orbs.filter(not_known_as(id)).filter(known_as(id)) =~= Seq::<ExpOrb>::empty());
}

/// Taking orbs out of a field keeps the order of the handles that stay.
pub proof fn lemma_filter_keeps_order(orbs: Seq<ExpOrb>, chosen: spec_fn(ExpOrb) -> bool, bound: u64)
    requires
        ascending_below(orbs, bound),
    ensures
        ascending_below(orbs.filter(chosen), bound),
    decreases orbs.len(),
{
    reveal(Seq::filter);
    if orbs.len() > 0 {
        let front = orbs.drop_last();
        let last = orbs.last();
        assert(ascending_below(front, bound)) by {
            assert forall|i: int| 0 <= i < front.len() implies (#[trigger] front[i]).id < bound by {
                assert(front[i] == orbs[i]);
            }
        }
        lemma_filter_keeps_order(front, chosen, bound);
        if chosen(last) {
            let kept = front.filter(chosen);
            assert forall|i: int| 0 <= i < kept.len() implies (#[trigger] kept[i]).id < last.id by {
                assert(kept.contains(kept[i]));
                front.lemma_filter_contains_rev(chosen, kept[i]);
                let j = choose|j: int| 0 <= j < front.len() && front[j] == kept[i];
                assert(orbs[j].id < orbs[orbs.len() - 1].id);
            }
        }
    }
}

} // verus!
