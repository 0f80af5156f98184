//! The live enemies of a match.

use crate::units::Position;
use crate::wave::{SpawnRequest, SpawnTemplate};
use vstd::prelude::*;

verus! {

/// A live enemy. Its statistics were copied from its archetype when it was
/// spawned and are its own from then on.
#[derive(Clone, Copy, Debug, PartialEq, Eq, Structural)]
pub struct Enemy {
    /// Handle of the enemy, never given to another one.
    pub id: u64,
    pub position: Position,
    pub speed: u32,
    /// Current health; an enemy is removed when it would fall to zero or
    /// below.
    pub health: i64,
    pub max_health: i64,
    pub damage_per_second: u32,
}

/// A request to drop an experience orb where an enemy died.
#[derive(Clone, Copy, Debug, PartialEq, Eq, Structural)]
pub struct OrbDrop {
    pub position: Position,
}

impl Enemy {
    /// A fresh enemy of the archetype `template`.
    pub open spec fn fresh(template: SpawnTemplate, id: u64, position: Position) -> Enemy {
        Enemy {
            id,
            position,
            speed: template.speed,
            health: template.max_health,
            max_health: template.max_health,
            damage_per_second: template.damage_per_second,
        }
    }

    /// `amount` of damage would kill the enemy.
    pub open spec fn dies_of(self, amount: u64) -> bool {
        self.health - amount <= 0
    }

    /// The enemy with `amount` less health.
    pub open spec fn hurt(self, amount: u64) -> Enemy {
        Enemy { health: (self.health - amount) as i64, ..self }
    }
}

/// What `amount` of damage to the enemy with the handle `id` makes of each
/// enemy: the others stay as they are, the one hit loses health or is gone.
pub open spec fn hit(id: u64, amount: u64) -> spec_fn(Enemy) -> Option<Enemy> {
    |enemy: Enemy|
        if enemy.id != id {
            Some(enemy)
        } else if enemy.dies_of(amount) {
            None
        } else {
            Some(enemy.hurt(amount))
        }
}

/// The enemies with the handle `id` that `amount` of damage kills.
pub open spec fn slain(id: u64, amount: u64) -> spec_fn(Enemy) -> bool {
    |enemy: Enemy| enemy.id == id && enemy.dies_of(amount)
}

/// The handles grow along the sequence and stay below `bound`.
pub open spec fn enemies_ascending_below(enemies: Seq<Enemy>, bound: int) -> bool {
    &&& forall|i: int, j: int| 0 <= i < j < enemies.len() ==> enemies[i].id < enemies[j].id
    &&& forall|i: int| 0 <= i < enemies.len() ==> (#[trigger] enemies[i]).id < bound
}

/// All live enemies, oldest first.
#[derive(Clone, Debug)]
pub struct EnemyPopulation {
    pub enemies: Vec<Enemy>,
    /// Handle of the next enemy.
    pub next_id: u64,
}

impl EnemyPopulation {
    /// No two enemies share a handle, and no handle will be given out twice.
    pub open spec fn wf(self) -> bool {
        enemies_ascending_below(self.enemies@, self.next_id as int)
    }

    /// A population without enemies.
    pub fn new() -> (population: EnemyPopulation)
        ensures
            population.wf(),
            population.enemies@.len() == 0,
            population.next_id == 0,
    {
        EnemyPopulation { enemies: Vec::new(), next_id: 0 }
    }

    /// Whether [`EnemyPopulation::spawn_batch`] has `count` handles left.
    pub fn has_room(&self, count: u32) -> (ok: bool)
        ensures
            ok == (self.next_id + count <= u64::MAX),
    {
        count as u64 <= u64::MAX - self.next_id
    }

    /// Brings `count` enemies of the archetype `template` to life, each at a
    /// position that `choose_spawn_position` gives, each with the statistics
    /// of the archetype as they are now. Returns the handle of the first; the
    /// others follow it one by one.
    pub fn spawn_batch<F: Fn() -> Position>(
        &mut self,
        template: &SpawnTemplate,
        count: u32,
        choose_spawn_position: &F,
    ) -> (first: u64)
        requires
            old(self).wf(),
            old(self).next_id + count <= u64::MAX,
            choose_spawn_position.requires(()),
        ensures
            final(self).wf(),
            first == old(self).next_id,
            final(self).next_id == old(self).next_id + count,
            final(self).enemies@.len() == old(self).enemies@.len() + count,
            final(self).enemies@.take(old(self).enemies@.len() as int) == old(self).enemies@,
            forall|k: int|
                0 <= k < count ==> {
                    let enemy = #[trigger] final(self).enemies@[old(self).enemies@.len() + k];
                    &&& enemy == Enemy::fresh(*template, (first + k) as u64, enemy.position)
                    &&& choose_spawn_position.ensures((), enemy.position)
                },
    {
        let first = self.next_id;
        let ghost before = self.enemies@;
        let mut k: u32 = 0;
        while k < count
            invariant
                0 <= k <= count,
                first + count <= u64::MAX,
                self.next_id == first + k,
                self.wf(),
                choose_spawn_position.requires(()),
                self.enemies@.len() == before.len() + k,
                self.enemies@.take(before.len() as int) == before,
                forall|n: int|
                    0 <= n < k ==> {
                        let enemy = #[trigger] self.enemies@[before.len() + n];
                        &&& enemy == Enemy::fresh(*template, (first + n) as u64, enemy.position)
                        &&& choose_spawn_position.ensures((), enemy.position)
                    },
            decreases count - k,
        {
            let position = choose_spawn_position();
            let enemy = Enemy {
                id: self.next_id,
                position,
                speed: template.speed,
                health: template.max_health,
                max_health: template.max_health,
                damage_per_second: template.damage_per_second,
            };
            let ghost so_far = self.enemies@;
            self.enemies.push(enemy);
            self.next_id = self.next_id + 1;
            proof {
                assert(self.enemies@.take(before.len() as int) =~= so_far.take(
                    before.len() as int,
                ));
                assert forall|n: int| 0 <= n < k + 1 implies {
                    let enemy = #[trigger] self.enemies@[before.len() + n];
                    &&& enemy == Enemy::fresh(*template, (first + n) as u64, enemy.position)
                    &&& choose_spawn_position.ensures((), enemy.position)
                } by {
                    if n < k {
                        assert(self.enemies@[before.len() + n] == so_far[before.len() + n]);
                    }
                }
            }
            k += 1;
        }
        first
    }

    /// Takes `amount` of health from the enemy with the handle `enemy_id`. If
    /// that leaves it no health, the enemy is removed and an orb is requested
    /// where it stood. A handle that no enemy has changes nothing.
    pub fn apply_damage(&mut self, enemy_id: u64, amount: u64) -> (drop: Option<OrbDrop>)
        requires
            old(self).wf(),
        ensures
            final(self).wf(),
            final(self).next_id == old(self).next_id,
            final(self).enemies@ == old(self).enemies@.filter_map(hit(enemy_id, amount)),
            ({
                let dead = old(self).enemies@.filter(slain(enemy_id, amount));
                &&& dead.len() <= 1
                &&& dead.len() == 0 ==> drop.is_none()
                &&& dead.len() == 1 ==> drop == Some(OrbDrop { position: dead[0].position })
            }),
    {
        let mut kept: Vec<Enemy> = Vec::new();
        let mut drop: Option<OrbDrop> = None;
        let count = self.enemies.len();
        let ghost all = self.enemies@;
        let ghost bound = self.next_id as int;
        let mut i: usize = 0;
        while i < count
            invariant
                0 <= i <= count,
                count == all.len(),
                self.enemies@ == all,
                bound == self.next_id,
                enemies_ascending_below(all, bound),
                kept@ == all.take(i as int).filter_map(hit(enemy_id, amount)),
                enemies_ascending_below(kept@, bound),
                forall|a: int, j: int|
                    0 <= a < kept@.len() && i <= j < count ==> kept@[a].id < all[j].id,
                ({
                    let dead = all.take(i as int).filter(slain(enemy_id, amount));
                    &&& dead.len() <= 1
                    &&& dead.len() == 0 ==> drop.is_none()
                    &&& dead.len() == 1 ==> drop == Some(OrbDrop { position: dead[0].position })
                    &&& dead.len() == 1 ==> forall|j: int| i <= j < count ==> all[j].id > enemy_id
                }),
            decreases count - i,
        {
            let enemy = self.enemies[i];
            proof {
                reveal(Seq::filter);
                assert(all.take(i as int + 1).drop_last() =~= all.take(i as int));
                assert(all.take(i as int + 1).last() == enemy);
            }
            if enemy.id != enemy_id {
                kept.push(enemy);
            } else if amount >= i64::MAX as u64 || enemy.health <= amount as i64 {
                drop = Some(OrbDrop { position: enemy.position });
            } else {
                let mut hurt = enemy;
                hurt.health = enemy.health - amount as i64;
                kept.push(hurt);
            }
            i += 1;
        }
        proof {
            assert(all.take(count as int) =~= all);
        }
        self.enemies = kept;
        drop
    }

    /// Removes every enemy. Handles already given out stay used.
    pub fn despawn_all(&mut self)
        requires
            old(self).wf(),
        ensures
            final(self).wf(),
            final(self).enemies@.len() == 0,
            final(self).next_id == old(self).next_id,
    {
        self.enemies.clear();
    }
}

/// The archetypes of the enemies that some requests ask for, one entry for
/// each enemy, request by request.
pub open spec fn batch_templates(requests: Seq<SpawnRequest>) -> Seq<SpawnTemplate>
    decreases requests.len(),
{
    if requests.len() == 0 {
        Seq::empty()
    } else {
        batch_templates(requests.drop_last()) + Seq::new(
            requests.last().batch_size as nat,
            |k: int| requests.last().template,
        )
    }
}

/// `after` is `before` with the enemies of `requests` added behind the others:
/// one fresh enemy for each entry of [`batch_templates`], with the next
/// handles in order, each at a position that `choose_spawn_position` gave.
pub open spec fn realized<F: Fn() -> Position>(
    before: EnemyPopulation,
    after: EnemyPopulation,
    requests: Seq<SpawnRequest>,
    choose_spawn_position: F,
) -> bool {
    let templates = batch_templates(requests);
    &&& after.next_id == before.next_id + templates.len()
    &&& after.enemies@.len() == before.enemies@.len() + templates.len()
    &&& after.enemies@.take(before.enemies@.len() as int) == before.enemies@
    &&& forall|k: int|
        0 <= k < templates.len() ==> {
            let enemy = #[trigger] after.enemies@[before.enemies@.len() + k];
            &&& enemy == Enemy::fresh(templates[k], (before.next_id + k) as u64, enemy.position)
            &&& choose_spawn_position.ensures((), enemy.position)
        }
}

impl EnemyPopulation {
    /// Serves `requests` one after the other, each by
    /// [`EnemyPopulation::spawn_batch`].
    pub fn spawn_requests<F: Fn() -> Position>(
        &mut self,
        requests: &Vec<SpawnRequest>,
        choose_spawn_position: &F,
    )
        requires
            old(self).wf(),
            old(self).next_id + batch_templates(requests@).len() <= u64::MAX,
            choose_spawn_position.requires(()),
        ensures
            final(self).wf(),
            realized(*old(self), *final(self), requests@, *choose_spawn_position),
    {
        let ghost before = *self;
        let mut i: usize = 0;
        proof {
            assert(self.enemies@.take(before.enemies@.len() as int) =~= before.enemies@);
        }
        while i < requests.len()
            invariant
                0 <= i <= requests@.len(),
                before == *old(self),
                before.next_id + batch_templates(requests@).len() <= u64::MAX,
                choose_spawn_position.requires(()),
                self.wf(),
                realized(before, *self, requests@.take(i as int), *choose_spawn_position),
            decreases requests@.len() - i,
        {
            let ghost so_far = *self;
            let ghost done = batch_templates(requests@.take(i as int));
            proof {
                lemma_batch_of_prefix(requests@, i as int + 1);
                assert(requests@.take(i as int + 1).drop_last() =~= requests@.take(i as int));
            }
            let request = &requests[i];
            let first = self.spawn_batch(&request.template, request.batch_size, choose_spawn_position);
            proof {
                let now = batch_templates(requests@.take(i as int + 1));
                assert(self.enemies@.take(before.enemies@.len() as int) =~= so_far.enemies@.take(
                    before.enemies@.len() as int,
                ));
                assert forall|k: int| 0 <= k < now.len() implies {
                    let enemy = #[trigger] self.enemies@[before.enemies@.len() + k];
                    &&& enemy == Enemy::fresh(now[k], (before.next_id + k) as u64, enemy.position)
                    &&& choose_spawn_position.ensures((), enemy.position)
                } by {
                    if k < done.len() {
                        assert(self.enemies@[before.enemies@.len() + k] == self.enemies@.take(
                            so_far.enemies@.len() as int,
                        )[before.enemies@.len() + k]);
                        assert(so_far.enemies@[before.enemies@.len() + k] == self.enemies@[before.enemies@.len()
                            + k]);
                    } else {
                        let n = k - done.len();
                        assert(self.enemies@[so_far.enemies@.len() + n] == self.enemies@[before.enemies@.len()
                            + k]);
                    }
                }
            }
            i += 1;
        }
        proof {
            assert(requests@.take(requests@.len() as int) =~= requests@);
        }
    }
}

/// The first `upto` requests ask for no more enemies than all of them.
pub proof fn lemma_batch_of_prefix(requests: Seq<SpawnRequest>, upto: int)
    requires
        0 <= upto <= requests.len(),
    ensures
        batch_templates(requests.take(upto)).len() <= batch_templates(requests).len(),
    decreases requests.len() - upto,
{
    if upto < requests.len() {
        lemma_batch_of_prefix(requests, upto + 1);
        assert(requests.take(upto + 1).drop_last() =~= requests.take(upto));
    } else {
        assert(requests.take(upto) =~= requests);
    }
}

} // verus!
