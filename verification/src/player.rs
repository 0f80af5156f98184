//! The player: movement, experience, levels, and the pickup of orbs.

use crate::exp::{attract, out_of_reach_from, reachable_from, total_value, ExpOrb, OrbField};
use crate::exp::{known_as, lemma_destroy_is_idempotent, lemma_filter_keeps_order, not_known_as};
use crate::units::{clamp_coordinate, clamped, distance_travelled, travel, Position};
use vstd::prelude::*;

verus! {

/// Experience that the first level-up takes.
pub const FIRST_LEVEL_EXP: u64 = 5;

/// Speed of a new player: 3 world units per second.
pub const PLAYER_SPEED: u32 = 3_000_000;

/// Health of a new player: 100 health points.
pub const PLAYER_HEALTH: i64 = 100_000_000;

/// The side the player looks to.
#[derive(Clone, Copy, Debug, PartialEq, Eq, Structural)]
pub enum Facing {
    Left,
    Right,
}

/// The four movement intents of one tick, each independent of the others.
#[derive(Clone, Copy, Debug, PartialEq, Eq, Structural)]
pub struct MoveIntents {
    pub up: bool,
    pub down: bool,
    pub left: bool,
    pub right: bool,
}

/// The one player of a match.
#[derive(Clone, Copy, Debug, PartialEq, Eq, Structural)]
pub struct Player {
    pub position: Position,
    /// Movement speed, in millionths of a world unit per second.
    pub speed: u32,
    /// Health, in millionths of a health point. The player is dead at zero
    /// or below.
    pub health: i64,
    pub max_health: i64,
    pub facing: Facing,
    /// Experience gathered since the last level-up.
    pub exp: u64,
    /// Experience at which the next level is reached.
    pub next_level_exp: u64,
    pub level: u32,
}

/// The threshold that follows `threshold`: 1.4 times as much, rounded down,
/// and never more than can be represented.
pub open spec fn grown_threshold(threshold: u64) -> u64 {
    if threshold * 14 / 10 > u64::MAX {
        u64::MAX
    } else {
        (threshold * 14 / 10) as u64
    }
}

/// Computes [`grown_threshold`].
pub fn grow_threshold(threshold: u64) -> (grown: u64)
    ensures
        grown == grown_threshold(threshold),
{
    let wide: u128 = threshold as u128 * 14 / 10;
    if wide > u64::MAX as u128 {
        u64::MAX
    } else {
        wide as u64
    }
}

impl Player {
    /// The threshold is positive and the level at least one.
    pub open spec fn wf(self) -> bool {
        self.next_level_exp >= 1 && self.level >= 1
    }

    /// The player as a match starts with it.
    pub open spec fn initial() -> Player {
        Player {
            position: Position { x: 0, y: 0 },
            speed: PLAYER_SPEED,
            health: PLAYER_HEALTH,
            max_health: PLAYER_HEALTH,
            facing: Facing::Left,
            exp: 0,
            next_level_exp: FIRST_LEVEL_EXP,
            level: 1,
        }
    }

    /// The player after a tick of `dt_ns` nanoseconds with the given intents.
    ///
    /// Every intent moves the player by the length its speed covers in that
    /// time; opposite intents cancel. Left and right turn the player, right
    /// winning over left. Coordinates stop at the largest that can be
    /// represented.
    pub open spec fn moved(self, intents: MoveIntents, dt_ns: u64) -> Player {
        let step = travel(self.speed as int, dt_ns as int);
        let dx = (if intents.right { step } else { 0 }) - (if intents.left { step } else { 0 });
        let dy = (if intents.up { step } else { 0 }) - (if intents.down { step } else { 0 });
        Player {
            position: Position {
                x: clamp_coordinate(self.position.x + dx),
                y: clamp_coordinate(self.position.y + dy),
            },
            facing: if intents.right {
                Facing::Right
            } else if intents.left {
                Facing::Left
            } else {
                self.facing
            },
            ..self
        }
    }

    /// The player with `amount` more experience.
    pub open spec fn with_experience(self, amount: int) -> Player {
        Player { exp: (self.exp + amount) as u64, ..self }
    }

    /// The experience has reached the threshold of the next level.
    pub open spec fn reaches_threshold(self) -> bool {
        self.exp >= self.next_level_exp
    }

    /// The player one level up: the experience starts again at zero, whatever
    /// it exceeded the threshold by, and the threshold has grown.
    pub open spec fn leveled_up(self) -> Player {
        Player {
            exp: 0,
            next_level_exp: grown_threshold(self.next_level_exp),
            level: (self.level + 1) as u32,
            ..self
        }
    }

    /// The player after the level check of one tick: at most one level up.
    pub open spec fn after_level_check(self) -> Player {
        if self.reaches_threshold() {
            self.leveled_up()
        } else {
            self
        }
    }

    /// The player is dead.
    pub open spec fn is_dead(self) -> bool {
        self.health <= 0
    }

    /// Adds `amount` to the experience. The threshold is not looked at here:
    /// the experience may exceed it until the next level check.
    pub fn gain_experience(&mut self, amount: u64)
        requires
            old(self).exp + amount <= u64::MAX,
        ensures
            *final(self) == old(self).with_experience(amount as int),
    {
        self.exp = self.exp + amount;
    }
}

/// Creates the player of a new match.
pub fn spawn_player() -> (player: Player)
    ensures
        player == Player::initial(),
        player.wf(),
{
    Player {
        position: Position { x: 0, y: 0 },
        speed: PLAYER_SPEED,
        health: PLAYER_HEALTH,
        max_health: PLAYER_HEALTH,
        facing: Facing::Left,
        exp: 0,
        next_level_exp: FIRST_LEVEL_EXP,
        level: 1,
    }
}

/// Moves and turns the player by the intents of one tick.
pub fn player_movement(player: &mut Player, intents: MoveIntents, dt_ns: u64)
    ensures
        *final(player) == old(player).moved(intents, dt_ns),
{
    let step: u128 = distance_travelled(player.speed, dt_ns);
    assert(step <= 0xffff_ffff * 0xffff_ffff_ffff_ffff) by (nonlinear_arith)
        requires
            step == travel(player.speed as int, dt_ns as int),
            0 <= player.speed <= 0xffff_ffff,
            0 <= dt_ns <= 0xffff_ffff_ffff_ffff,
    ;
    let step: i128 = step as i128;
    let mut x: i128 = player.position.x as i128;
    let mut y: i128 = player.position.y as i128;
    if intents.up {
        y = y + step;
    }
    if intents.down {
        y = y - step;
    }
    if intents.left {
        x = x - step;
        player.facing = Facing::Left;
    }
    if intents.right {
        x = x + step;
        player.facing = Facing::Right;
    }
    player.position = Position { x: clamped(x), y: clamped(y) };
}

/// The level check of one tick: a player whose experience has reached the
/// threshold goes up one level, and the result says so.
pub fn player_level_up(player: &mut Player) -> (leveled: bool)
    requires
        old(player).reaches_threshold() ==> old(player).level < u32::MAX,
    ensures
        leveled == old(player).reaches_threshold(),
        *final(player) == old(player).after_level_check(),
        old(player).wf() ==> final(player).wf(),
{
    if player.exp >= player.next_level_exp {
        player.exp = 0;
        player.next_level_exp = grow_threshold(player.next_level_exp);
        player.level = player.level + 1;
        true
    } else {
        false
    }
}

/// Whether `handle` is among `handles`.
pub fn has_handle(handles: &Vec<u64>, handle: u64) -> (found: bool)
    ensures
        found == handles@.contains(handle),
{
    let mut i: usize = 0;
    while i < handles.len()
        invariant
            0 <= i <= handles@.len(),
            forall|j: int| 0 <= j < i ==> handles@[j] != handle,
        decreases handles@.len() - i,
    {
        if handles[i] == handle {
            return true;
        }
        i += 1;
    }
    false
}

/// First step of the pickup: every orb whose handle is among `overlaps`, the
/// handles that touch the player's shape, is marked as being attracted. A
/// handle that no orb has is passed over; no mark is ever taken back.
pub fn player_exp_start_pickup(field: &mut OrbField, overlaps: &Vec<u64>)
    ensures
        final(field).orbs@ == attract(old(field).orbs@, overlaps@),
        final(field).next_id == old(field).next_id,
        old(field).wf() ==> final(field).wf(),
{
    let count = field.orbs.len();
    let mut i: usize = 0;
    while i < count
        invariant
            0 <= i <= count,
            count == old(field).orbs@.len(),
            field.orbs@.len() == count,
            field.next_id == old(field).next_id,
            forall|j: int|
                0 <= j < i ==> #[trigger] field.orbs@[j] == attract(old(field).orbs@, overlaps@)[j],
            forall|j: int| i <= j < count ==> #[trigger] field.orbs@[j] == old(field).orbs@[j],
        decreases count - i,
    {
        if has_handle(overlaps, field.orbs[i].id) {
            field.orbs[i].collecting = true;
        }
        i += 1;
    }
    assert(field.orbs@ =~= attract(old(field).orbs@, overlaps@));
}

/// Second step of the pickup: every orb within reach of the player, marked or
/// not, is taken from the field and its value added to the player's
/// experience. Returns the orbs collected, oldest first.
pub fn player_gain_exp(player: &mut Player, field: &mut OrbField) -> (collected: Vec<ExpOrb>)
    requires
        old(player).exp + total_value(
            old(field).orbs@.filter(reachable_from(old(player).position)),
        ) <= u64::MAX,
    ensures
        old(field).wf() ==> final(field).wf(),
        final(field).next_id == old(field).next_id,
        final(field).orbs@ == old(field).orbs@.filter(out_of_reach_from(old(player).position)),
        collected@ == old(field).orbs@.filter(reachable_from(old(player).position)),
        *final(player) == old(player).with_experience(total_value(collected@) as int),
{
    let mut kept: Vec<ExpOrb> = Vec::new();
    let mut collected: Vec<ExpOrb> = Vec::new();
    let count = field.orbs.len();
    let ghost all = field.orbs@;
    let ghost at = player.position;
    let mut i: usize = 0;
    while i < count
        invariant
            0 <= i <= count,
            count == all.len(),
            field.orbs@ == all,
            at == old(player).position,
            field.next_id == old(field).next_id,
            kept@ == all.take(i as int).filter(out_of_reach_from(at)),
            collected@ == all.take(i as int).filter(reachable_from(at)),
            *player == old(player).with_experience(total_value(collected@) as int),
            old(player).exp + total_value(all.filter(reachable_from(at))) <= u64::MAX,
        decreases count - i,
    {
        let orb = field.orbs[i];
        proof {
            reveal(Seq::filter);
            assert(all.take(i as int + 1).drop_last() =~= all.take(i as int));
            assert(all.take(i as int + 1).last() == orb);
            lemma_value_of_prefix(all, i as int + 1, reachable_from(at));
        }
        if orb.is_in_reach(&player.position) {
            assert(collected@.push(orb).drop_last() =~= collected@);
            collected.push(orb);
            player.gain_experience(orb.value);
        } else {
            kept.push(orb);
        }
        i += 1;
    }
    proof {
        assert(all.take(count as int) =~= all);
        if old(field).wf() {
            lemma_filter_keeps_order(all, out_of_reach_from(at), field.next_id);
        }
    }
    field.orbs = kept;
    collected
}

/// The chosen orbs among the first `upto` are worth no more than the chosen
/// orbs among all.
pub proof fn lemma_value_of_prefix(orbs: Seq<ExpOrb>, upto: int, chosen: spec_fn(ExpOrb) -> bool)
    requires
        0 <= upto <= orbs.len(),
    ensures
        total_value(orbs.take(upto).filter(chosen)) <= total_value(orbs.filter(chosen)),
    decreases orbs.len() - upto,
{
    if upto < orbs.len() {
        reveal(Seq::filter);
        lemma_value_of_prefix(orbs, upto + 1, chosen);
        let longer = orbs.take(upto + 1);
        assert(longer.drop_last() =~= orbs.take(upto));
        if chosen(longer.last()) {
            let front = orbs.take(upto).filter(chosen);
            assert(front.push(longer.last()).drop_last() =~= front);
        }
    } else {
        assert(orbs.take(upto) =~= orbs);
    }
}

/// Marking orbs as attracted changes neither which of them are in reach nor
/// what they are worth.
pub proof fn lemma_attract_keeps_values(orbs: Seq<ExpOrb>, handles: Seq<u64>, at: Position)
    ensures
        total_value(attract(orbs, handles).filter(reachable_from(at))) == total_value(
            orbs.filter(reachable_from(at)),
        ),
        attract(orbs, handles).filter(reachable_from(at)).len() == orbs.filter(
            reachable_from(at),
        ).len(),
    decreases orbs.len(),
{
    reveal(Seq::filter);
    if orbs.len() > 0 {
        lemma_attract_keeps_values(orbs.drop_last(), handles, at);
        let marked = attract(orbs, handles);
        assert(marked.drop_last() =~= attract(orbs.drop_last(), handles));
        assert(marked.last().in_reach(at) == orbs.last().in_reach(at));
        if orbs.last().in_reach(at) {
            let front = orbs.drop_last().filter(reachable_from(at));
            let marked_front = marked.drop_last().filter(reachable_from(at));
            assert(front.push(orbs.last()).drop_last() =~= front);
            assert(marked_front.push(marked.last()).drop_last() =~= marked_front);
        }
    }
}

/// Whether the orbs within reach of `at` can be added to `base` experience.
pub fn reach_fits(field: &OrbField, at: &Position, base: u64) -> (fits: bool)
    ensures
        fits == (base + total_value(field.orbs@.filter(reachable_from(*at))) <= u64::MAX),
{
    let ghost all = field.orbs@;
    let mut sum: u64 = base;
    let mut i: usize = 0;
    while i < field.orbs.len()
        invariant
            0 <= i <= all.len(),
            all == field.orbs@,
            sum == base + total_value(all.take(i as int).filter(reachable_from(*at))),
        decreases all.len() - i,
    {
        let orb = field.orbs[i];
        proof {
            reveal(Seq::filter);
            assert(all.take(i as int + 1).drop_last() =~= all.take(i as int));
            assert(all.take(i as int + 1).last() == orb);
            lemma_value_of_prefix(all, i as int + 1, reachable_from(*at));
            if orb.in_reach(*at) {
                let front = all.take(i as int).filter(reachable_from(*at));
                assert(front.push(orb).drop_last() =~= front);
            }
        }
        if orb.is_in_reach(at) {
            if orb.value > u64::MAX - sum {
                return false;
            }
            sum = sum + orb.value;
        }
        i += 1;
    }
    proof {
        assert(all.take(all.len() as int) =~= all);
    }
    true
}

/// Collects the orb with the handle `id`, wherever it lies: its value is
/// added to the player's experience and the orb leaves the field. Returns the
/// experience granted, which is zero where no orb has that handle.
pub fn collect_orb(player: &mut Player, field: &mut OrbField, id: u64) -> (granted: u64)
    requires
        old(field).wf(),
        old(player).exp + total_value(old(field).orbs@.filter(known_as(id))) <= u64::MAX,
    ensures
        final(field).wf(),
        final(field).next_id == old(field).next_id,
        final(field).orbs@ == old(field).orbs@.filter(not_known_as(id)),
        granted == total_value(old(field).orbs@.filter(known_as(id))),
        *final(player) == old(player).with_experience(granted as int),
{
    let ghost found = field.orbs@.filter(known_as(id));
    match field.destroy(id) {
        Some(orb) => {
            assert(total_value(found.drop_last()) == 0);
            player.gain_experience(orb.value);
            orb.value
        },
        None => {
            player.gain_experience(0);
            0
        },
    }
}

/// Collecting the same orb twice is collecting it once: the second time
/// grants no experience and leaves the player and the field as they were.
pub proof fn lemma_collect_twice(player: Player, orbs: Seq<ExpOrb>, id: u64)
    requires
        player.exp + total_value(orbs.filter(known_as(id))) <= u64::MAX,
    ensures
        ({
            let once_orbs = orbs.filter(not_known_as(id));
            let once_player = player.with_experience(
                total_value(orbs.filter(known_as(id))) as int,
            );
            &&& total_value(once_orbs.filter(known_as(id))) == 0
            &&& once_orbs.filter(not_known_as(id)) == once_orbs
            &&& once_player.with_experience(total_value(once_orbs.filter(known_as(id))) as int)
                == once_player
        }),
{
    lemma_destroy_is_idempotent(orbs, id);
}

/// From a threshold of three on, every level takes more experience than the
/// one before, as long as the threshold can still be represented.
pub proof fn lemma_threshold_grows(threshold: u64)
    ensures
        grown_threshold(threshold) >= threshold,
        3 <= threshold < u64::MAX ==> grown_threshold(threshold) > threshold,
        threshold * 14 / 10 <= u64::MAX ==> grown_threshold(threshold) * 10 <= threshold * 14 < (
        grown_threshold(threshold) + 1) * 10,
{
}

/// A gain that brings the experience to the threshold or beyond leads to
/// exactly one level-up at the next check: the level goes up by one, the
/// threshold grows by the factor 1.4, rounded down, and the experience starts
/// again at zero, the excess being dropped. A second check changes nothing.
pub proof fn lemma_gain_then_level_up(player: Player, amount: u64)
    requires
        player.wf(),
        player.exp + amount <= u64::MAX,
        player.level < u32::MAX,
        player.exp + amount >= player.next_level_exp,
    ensures
        ({
            let after = player.with_experience(amount as int).after_level_check();
            &&& after.wf()
            &&& after.level == player.level + 1
            &&& after.next_level_exp == grown_threshold(player.next_level_exp)
            &&& after.exp == 0
            &&& !after.reaches_threshold()
            &&& after.after_level_check() == after
        }),
{
}

/// What one tick did to the player.
#[derive(Clone, Debug)]
pub struct PlayerUpdate {
    /// The orbs collected in this tick, oldest first.
    pub collected: Vec<ExpOrb>,
    /// Whether the player went up a level in this tick.
    pub leveled_up: bool,
}

/// The player's part of a match: what happens to the player when the match
/// starts and in every tick of play.
#[derive(Clone, Copy, Debug)]
pub struct PlayerPlugin;

impl PlayerPlugin {
    /// The experience collected at the place the player moves to fits, and so
    /// does the level that it may lead to.
    pub open spec fn can_update(player: Player, orbs: Seq<ExpOrb>, intents: MoveIntents, dt_ns: u64) -> bool {
        let at = player.moved(intents, dt_ns).position;
        let gain = total_value(orbs.filter(reachable_from(at)));
        &&& player.exp + gain <= u64::MAX
        &&& player.exp + gain >= player.next_level_exp ==> player.level < u32::MAX
    }

    /// Creates the player of a new match.
    pub fn startup(&self) -> (player: Player)
        ensures
            player == Player::initial(),
    {
        spawn_player()
    }

    /// Decides [`PlayerPlugin::can_update`].
    pub fn ready(&self, player: &Player, field: &OrbField, intents: MoveIntents, dt_ns: u64) -> (ok:
        bool)
        ensures
            ok == Self::can_update(*player, field.orbs@, intents, dt_ns),
    {
        let mut moved = *player;
        player_movement(&mut moved, intents, dt_ns);
        if !reach_fits(field, &moved.position, player.exp) {
            return false;
        }
        if player.level < u32::MAX {
            return true;
        }
        // At the highest level the experience must stay below the threshold.
        if player.exp >= player.next_level_exp {
            return false;
        }
        reach_fits(field, &moved.position, u64::MAX - (player.next_level_exp - 1 - player.exp))
    }

    /// One tick of play for the player, in this order: movement, marking of
    /// the orbs that touch the player, collection of the orbs in reach, level
    /// check. The collection comes before the level check, so experience
    /// gained in a tick can raise the level in the same tick, by one level at
    /// most.
    pub fn update(
        &self,
        player: &mut Player,
        field: &mut OrbField,
        intents: MoveIntents,
        dt_ns: u64,
        overlaps: &Vec<u64>,
    ) -> (done: PlayerUpdate)
        requires
            Self::can_update(*old(player), old(field).orbs@, intents, dt_ns),
        ensures
            old(field).wf() ==> final(field).wf(),
            final(field).next_id == old(field).next_id,
            ({
                let moved = old(player).moved(intents, dt_ns);
                let marked = attract(old(field).orbs@, overlaps@);
                let fed = moved.with_experience(total_value(done.collected@) as int);
                &&& done.collected@ == marked.filter(reachable_from(moved.position))
                &&& final(field).orbs@ == marked.filter(out_of_reach_from(moved.position))
                &&& done.leveled_up == fed.reaches_threshold()
                &&& *final(player) == fed.after_level_check()
            }),
    {
        player_movement(player, intents, dt_ns);
        player_exp_start_pickup(field, overlaps);
        proof {
            lemma_attract_keeps_values(old(field).orbs@, overlaps@, player.position);
        }
        let collected = player_gain_exp(player, field);
        let leveled_up = player_level_up(player);
        PlayerUpdate { collected, leveled_up }
    }
}

} // verus!
