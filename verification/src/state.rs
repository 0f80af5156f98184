//! The phases of a match and the transitions between them.

use crate::enemy::EnemyPopulation;
use crate::exp::OrbField;
use crate::player::Player;
use crate::wave::WaveDirector;
use vstd::prelude::*;

verus! {

/// The phase a match is in. A match starts in `StartingLoop`.
#[derive(Clone, Copy, Debug, PartialEq, Eq, Structural)]
pub enum GameState {
    /// One tick before play begins or resumes.
    StartingLoop,
    Gameplay,
    /// The player went up a level and chooses an upgrade.
    LevelUp,
    /// The player is dead. No phase follows.
    GameOver,
}

/// What a tick reports to the phase machine.
#[derive(Clone, Copy, Debug, PartialEq, Eq, Structural)]
pub enum Trigger {
    /// A tick went by and nothing else happened.
    Tick,
    /// The player's experience has reached the threshold of the next level.
    LevelReached,
    /// The player has chosen an upgrade.
    UpgradeChosen,
    /// The player's health is at zero or below.
    PlayerDied,
}

/// What has to be done once when a transition is taken.
#[derive(Clone, Copy, Debug, PartialEq, Eq, Structural)]
pub enum Effect {
    Nothing,
    /// The clock of the wave director goes back to zero.
    ResetClock,
    /// The player goes up one level.
    LevelUpPlayer,
    /// Every enemy and every orb is removed.
    DespawnAll,
}

/// The transition table: the phase that follows `state` on `trigger`, and the
/// effect of getting there.
///
/// `StartingLoop` lasts one tick, whatever the trigger. `GameOver` is never
/// left. Every pair that the table does not name keeps the phase and has no
/// effect.
pub open spec fn next_state(state: GameState, trigger: Trigger) -> (GameState, Effect) {
    match (state, trigger) {
        (GameState::StartingLoop, _) => (GameState::Gameplay, Effect::ResetClock),
        (GameState::Gameplay, Trigger::LevelReached) => (GameState::LevelUp, Effect::LevelUpPlayer),
        (GameState::Gameplay, Trigger::PlayerDied) => (GameState::GameOver, Effect::DespawnAll),
        (GameState::LevelUp, Trigger::UpgradeChosen) => (GameState::Gameplay, Effect::ResetClock),
        _ => (state, Effect::Nothing),
    }
}

/// What a tick of play reports for `player`: a level-up if the experience has
/// reached the threshold, else the player's death if the health is used up,
/// else nothing.
pub open spec fn trigger_of(player: Player) -> Trigger {
    if player.reaches_threshold() {
        Trigger::LevelReached
    } else if player.is_dead() {
        Trigger::PlayerDied
    } else {
        Trigger::Tick
    }
}

/// Computes [`next_state`].
pub fn transition(state: GameState, trigger: Trigger) -> (next: (GameState, Effect))
    ensures
        next == next_state(state, trigger),
{
    match state {
        GameState::StartingLoop => (GameState::Gameplay, Effect::ResetClock),
        GameState::Gameplay => match trigger {
            Trigger::LevelReached => (GameState::LevelUp, Effect::LevelUpPlayer),
            Trigger::PlayerDied => (GameState::GameOver, Effect::DespawnAll),
            _ => (state, Effect::Nothing),
        },
        GameState::LevelUp => match trigger {
            Trigger::UpgradeChosen => (GameState::Gameplay, Effect::ResetClock),
            _ => (state, Effect::Nothing),
        },
        GameState::GameOver => (state, Effect::Nothing),
    }
}

/// Computes [`trigger_of`].
pub fn gameplay_trigger(player: &Player) -> (trigger: Trigger)
    ensures
        trigger == trigger_of(*player),
{
    if player.exp >= player.next_level_exp {
        Trigger::LevelReached
    } else if player.health <= 0 {
        Trigger::PlayerDied
    } else {
        Trigger::Tick
    }
}

/// Ends the one tick of `StartingLoop`: play begins and the director's clock
/// starts again at zero, while the waves and their timers stay as they are.
/// In any other phase nothing changes.
pub fn advance_state(state: &mut GameState, director: &mut WaveDirector)
    ensures
        final(director).waves == old(director).waves,
        *old(state) == GameState::StartingLoop ==> *final(state) == GameState::Gameplay,
        *old(state) == GameState::StartingLoop ==> final(director).clock_ns == 0,
        *old(state) != GameState::StartingLoop ==> *final(state) == *old(state),
        *old(state) != GameState::StartingLoop ==> *final(director) == *old(director),
{
    match *state {
        GameState::StartingLoop => {
            director.reset();
            *state = GameState::Gameplay;
        },
        _ => {},
    }
}

/// Removes everything that belongs to a stretch of play: every enemy and
/// every orb. Handles already given out stay used.
pub fn despawn_game_play(enemies: &mut EnemyPopulation, orbs: &mut OrbField)
    requires
        old(enemies).wf(),
        old(orbs).wf(),
    ensures
        final(enemies).wf(),
        final(orbs).wf(),
        final(enemies).enemies@.len() == 0,
        final(orbs).orbs@.len() == 0,
        final(enemies).next_id == old(enemies).next_id,
        final(orbs).next_id == old(orbs).next_id,
{
    enemies.despawn_all();
    orbs.clear();
}

/// `GameOver` is left on no trigger, and its ticks have no effect.
pub proof fn lemma_game_over_is_terminal(trigger: Trigger)
    ensures
        next_state(GameState::GameOver, trigger) == (GameState::GameOver, Effect::Nothing),
{
}

/// Play is entered from `StartingLoop` and from `LevelUp` only, and every
/// transition into it from there resets the clock.
pub proof fn lemma_entering_gameplay_resets_clock(state: GameState, trigger: Trigger)
    requires
        state != GameState::Gameplay,
        next_state(state, trigger).0 == GameState::Gameplay,
    ensures
        state == GameState::StartingLoop || state == GameState::LevelUp,
        next_state(state, trigger).1 == Effect::ResetClock,
{
}

} // verus!
