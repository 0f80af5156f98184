//! A whole match: the phase, the schedule, the player, the enemies and the
//! orbs, and the tick that moves all of them.

use crate::enemy::{batch_templates, realized, EnemyPopulation};
use crate::exp::{attract, out_of_reach_from, reachable_from, total_value, ExpOrb, OrbField};
use crate::player::{
    lemma_attract_keeps_values, player_exp_start_pickup, player_gain_exp, player_level_up,
    player_movement, MoveIntents, Player, PlayerPlugin,
};
use crate::state::{
    despawn_game_play, gameplay_trigger, next_state, transition, trigger_of, Effect, GameState,
    Trigger,
};
use crate::units::Position;
use crate::error::CoreError;
use crate::wave::{
    configured, first_fault_is, requests_of, waves_after, SpawnRequest, SpawnTemplate, WaveConfig,
    WaveDirector,
};
use vstd::prelude::*;

verus! {

/// The state of a match. It is owned by whoever drives the ticks and handed
/// to [`Game::tick`] for each of them.
#[derive(Clone, Debug)]
pub struct Game {
    pub phase: GameState,
    pub director: WaveDirector,
    pub player: Player,
    pub enemies: EnemyPopulation,
    pub orbs: OrbField,
}

/// What the world hands to one tick.
#[derive(Clone, Debug)]
pub struct TickInput {
    /// Time since the last tick.
    pub dt_ns: u64,
    pub intents: MoveIntents,
    /// Handles of everything that touches the player's shape.
    pub overlaps: Vec<u64>,
    /// The player has chosen an upgrade since the last tick.
    pub upgrade_chosen: bool,
}

/// What one tick did, for whoever shows and sounds it.
#[derive(Clone, Debug)]
pub struct TickReport {
    /// The requests that were raised and served in this tick.
    pub requests: Vec<SpawnRequest>,
    /// The orbs that the player collected in this tick.
    pub collected: Vec<ExpOrb>,
    /// The effect of the transition taken at the end of this tick.
    pub effect: Effect,
}

/// The tick of a match in play.
///
/// In this order: the director advances and raises requests; the requests are
/// served; the player moves, the orbs that touch the player are marked and the
/// orbs in reach collected; then the phase machine gets the trigger that the
/// player gives rise to, and the effect of its transition is carried out.
pub open spec fn played<F: Fn() -> Position>(
    before: Game,
    after: Game,
    input: TickInput,
    report: TickReport,
    choose_spawn_position: F,
) -> bool {
    let moved = before.player.moved(input.intents, input.dt_ns);
    let marked = attract(before.orbs.orbs@, input.overlaps@);
    let fed = moved.with_experience(total_value(report.collected@) as int);
    let step = next_state(GameState::Gameplay, trigger_of(fed));
    &&& after.director.clock_ns == before.director.clock_ns + input.dt_ns
    &&& after.director.waves@ == waves_after(before.director.waves@, input.dt_ns as int)
    &&& report.requests@ == requests_of(before.director.waves@, input.dt_ns as int)
    &&& report.collected@ == marked.filter(reachable_from(moved.position))
    &&& report.effect == step.1
    &&& after.phase == step.0
    &&& after.player == fed.after_level_check()
    &&& after.orbs.next_id == before.orbs.next_id
    &&& after.enemies.next_id == before.enemies.next_id + batch_templates(report.requests@).len()
    &&& if step.1 == Effect::DespawnAll {
        after.enemies.enemies@.len() == 0 && after.orbs.orbs@.len() == 0
    } else {
        &&& realized(before.enemies, after.enemies, report.requests@, choose_spawn_position)
        &&& after.orbs.orbs@ == marked.filter(out_of_reach_from(moved.position))
    }
}

/// The tick of a match that is not in play: the phase machine gets the
/// upgrade, if one was chosen, or else the bare tick. Nothing moves but the
/// phase and, on the way into play, the clock.
pub open spec fn idled(before: Game, after: Game, input: TickInput, report: TickReport) -> bool {
    let trigger = if input.upgrade_chosen {
        Trigger::UpgradeChosen
    } else {
        Trigger::Tick
    };
    let step = next_state(before.phase, trigger);
    &&& report.requests@.len() == 0
    &&& report.collected@.len() == 0
    &&& report.effect == step.1
    &&& after.phase == step.0
    &&& after.director.waves == before.director.waves
    &&& after.director.clock_ns == if step.1 == Effect::ResetClock {
        0
    } else {
        before.director.clock_ns
    }
    &&& after.player == before.player
    &&& after.enemies == before.enemies
    &&& after.orbs == before.orbs
}

impl Game {
    /// The schedule, the enemies and the orbs are sound.
    pub open spec fn wf(self) -> bool {
        self.director.wf() && self.enemies.wf() && self.orbs.wf()
    }

    /// In play, the numbers of the tick fit: the clock and the timers can take
    /// the time, there are handles for the enemies requested, and the
    /// experience and the level of the player stay in range.
    pub open spec fn can_tick(self, input: TickInput) -> bool {
        self.phase == GameState::Gameplay ==> {
            &&& self.director.can_advance(input.dt_ns)
            &&& self.enemies.next_id + batch_templates(
                requests_of(self.director.waves@, input.dt_ns as int),
            ).len() <= u64::MAX
            &&& PlayerPlugin::can_update(self.player, self.orbs.orbs@, input.intents, input.dt_ns)
        }
    }

    /// A match about to start, with the one player of `players` and the
    /// schedule that `configs` describes.
    ///
    /// Fails with `InvariantViolation` unless there is exactly one player;
    /// with one player, fails with the fault of the first entry of the
    /// configuration that has one.
    pub fn new(
        players: &Vec<Player>,
        templates: &Vec<SpawnTemplate>,
        configs: &Vec<WaveConfig>,
    ) -> (made: Result<Game, CoreError>)
        ensures
            match made {
                Ok(game) => {
                    &&& players@.len() == 1
                    &&& game.wf()
                    &&& game.phase == GameState::StartingLoop
                    &&& configured(templates@, configs@, game.director)
                    &&& game.player == players@[0]
                    &&& game.enemies.enemies@.len() == 0
                    &&& game.enemies.next_id == 0
                    &&& game.orbs.orbs@.len() == 0
                    &&& game.orbs.next_id == 0
                },
                Err(error) => if players@.len() != 1 {
                    error == CoreError::InvariantViolation
                } else {
                    first_fault_is(templates@, configs@, error)
                },
            },
    {
        if players.len() != 1 {
            return Err(CoreError::InvariantViolation);
        }
        match WaveDirector::from_config(templates, configs) {
            Err(error) => Err(error),
            Ok(director) => Ok(
                Game {
                    phase: GameState::StartingLoop,
                    director,
                    player: players[0],
                    enemies: EnemyPopulation::new(),
                    orbs: OrbField::new(),
                },
            ),
        }
    }

    /// Decides [`Game::can_tick`].
    pub fn ready(&self, input: &TickInput) -> (ok: bool)
        requires
            self.wf(),
        ensures
            ok == self.can_tick(*input),
    {
        match self.phase {
            GameState::Gameplay => {
                if !self.director.ready(input.dt_ns) {
                    return false;
                }
                let requests = self.director.pending(input.dt_ns);
                let mut wanted: u128 = 0;
                let mut i: usize = 0;
                while i < requests.len()
                    invariant
                        0 <= i <= requests@.len(),
                        wanted == batch_templates(requests@.take(i as int)).len(),
                        wanted <= i * 0xffff_ffff,
                    decreases requests@.len() - i,
                {
                    proof {
                        assert(requests@.take(i as int + 1).drop_last() =~= requests@.take(
                            i as int,
                        ));
                    }
                    wanted = wanted + requests[i].batch_size as u128;
                    i += 1;
                }
                proof {
                    assert(requests@.take(requests@.len() as int) =~= requests@);
                }
                if wanted > (u64::MAX - self.enemies.next_id) as u128 {
                    return false;
                }
                PlayerPlugin.ready(&self.player, &self.orbs, input.intents, input.dt_ns)
            },
            _ => true,
        }
    }

    /// One tick of the match.
    ///
    /// In play the tick is [`played`]. In `StartingLoop` and `LevelUp` it is
    /// [`idled`]. In `GameOver` nothing happens any more: the match stays as
    /// it is and no request is raised.
    pub fn tick<F: Fn() -> Position>(&mut self, input: &TickInput, choose_spawn_position: &F) -> (report:
        TickReport)
        requires
            old(self).wf(),
            old(self).can_tick(*input),
            choose_spawn_position.requires(()),
        ensures
            final(self).wf(),
            old(self).phase == GameState::Gameplay ==> played(
                *old(self),
                *final(self),
                *input,
                report,
                *choose_spawn_position,
            ),
            old(self).phase != GameState::Gameplay ==> idled(
                *old(self),
                *final(self),
                *input,
                report,
            ),
            old(self).phase == GameState::GameOver ==> *final(self) == *old(self),
    {
        match self.phase {
            GameState::Gameplay => {
                let requests = self.director.advance(input.dt_ns);
                self.enemies.spawn_requests(&requests, choose_spawn_position);
                player_movement(&mut self.player, input.intents, input.dt_ns);
                player_exp_start_pickup(&mut self.orbs, &input.overlaps);
                proof {
                    lemma_attract_keeps_values(
                        old(self).orbs.orbs@,
                        input.overlaps@,
                        self.player.position,
                    );
                }
                let collected = player_gain_exp(&mut self.player, &mut self.orbs);
                let trigger = gameplay_trigger(&self.player);
                let (phase, effect) = transition(self.phase, trigger);
                match effect {
                    Effect::LevelUpPlayer => {
                        player_level_up(&mut self.player);
                    },
                    Effect::DespawnAll => {
                        despawn_game_play(&mut self.enemies, &mut self.orbs);
                    },
                    _ => {},
                }
                self.phase = phase;
                TickReport { requests, collected, effect }
            },
            _ => {
                let trigger = if input.upgrade_chosen {
                    Trigger::UpgradeChosen
                } else {
                    Trigger::Tick
                };
                let (phase, effect) = transition(self.phase, trigger);
                match effect {
                    Effect::ResetClock => {
                        self.director.reset();
                    },
                    _ => {},
                }
                self.phase = phase;
                TickReport { requests: Vec::new(), collected: Vec::new(), effect }
            },
        }
    }
}

/// A tick that enters play started in `StartingLoop` or in `LevelUp`; it set
/// the director's clock to zero and left every wave, with its timer, as it
/// was.
pub proof fn lemma_entering_play_resets_clock(
    before: Game,
    after: Game,
    input: TickInput,
    report: TickReport,
)
    requires
        before.phase != GameState::Gameplay,
        idled(before, after, input, report),
        after.phase == GameState::Gameplay,
    ensures
        before.phase == GameState::StartingLoop || before.phase == GameState::LevelUp,
        after.director.clock_ns == 0,
        after.director.waves == before.director.waves,
{
}

/// A tick of play after which the experience has reached the threshold ends
/// in `LevelUp`, with the player exactly one level up: the experience is
/// zero, whatever was collected beyond the threshold, and the threshold has
/// grown.
pub proof fn lemma_level_up_in_play<F: Fn() -> Position>(
    before: Game,
    after: Game,
    input: TickInput,
    report: TickReport,
    choose_spawn_position: F,
)
    requires
        before.phase == GameState::Gameplay,
        before.can_tick(input),
        played(before, after, input, report, choose_spawn_position),
        before.player.exp + total_value(report.collected@) >= before.player.next_level_exp,
    ensures
        after.phase == GameState::LevelUp,
        report.effect == Effect::LevelUpPlayer,
        after.player.exp == 0,
        after.player.level == before.player.level + 1,
        after.player.next_level_exp == crate::player::grown_threshold(
            before.player.next_level_exp,
        ),
{
    lemma_attract_keeps_values(
        before.orbs.orbs@,
        input.overlaps@,
        before.player.moved(input.intents, input.dt_ns).position,
    );
}

/// A tick of play that ends in `GameOver` leaves no enemy and no orb behind,
/// those spawned in that tick included; and a tick in `GameOver` raises no
/// request and changes nothing.
pub proof fn lemma_death_ends_the_match<F: Fn() -> Position>(
    before: Game,
    after: Game,
    later: Game,
    input: TickInput,
    report: TickReport,
    next_input: TickInput,
    next_report: TickReport,
    choose_spawn_position: F,
)
    requires
        before.phase == GameState::Gameplay,
        played(before, after, input, report, choose_spawn_position),
        after.phase == GameState::GameOver,
        idled(after, later, next_input, next_report),
    ensures
        after.player.is_dead(),
        after.enemies.enemies@.len() == 0,
        after.orbs.orbs@.len() == 0,
        next_report.requests@.len() == 0,
        later.phase == GameState::GameOver,
        later.director == after.director,
        later.enemies == after.enemies,
        later.orbs == after.orbs,
{
}

} // verus!
