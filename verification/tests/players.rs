use pizza_survivor::exp::{ExpOrb, OrbField, PICKUP_RADIUS};
use pizza_survivor::player::{
    collect_orb, grow_threshold, has_handle, player_exp_start_pickup, player_gain_exp,
    player_level_up, player_movement, reach_fits, spawn_player, Facing, MoveIntents, Player,
    PlayerPlugin,
};
use pizza_survivor::units::{clamped, distance_travelled, Position};

const NONE: MoveIntents = MoveIntents { up: false, down: false, left: false, right: false };

fn at(x: i64, y: i64) -> Position {
    Position { x, y }
}

fn field_with(orbs: &[(i64, i64, u64)]) -> OrbField {
    let mut field = OrbField::new();
    for &(x, y, value) in orbs {
        field.spawn(at(x, y), value);
    }
    field
}

#[test]
fn new_player_has_the_starting_values() {
    let player = spawn_player();
    assert_eq!(
        player,
        Player {
            position: at(0, 0),
            speed: 3_000_000,
            health: 100_000_000,
            max_health: 100_000_000,
            facing: Facing::Left,
            exp: 0,
            next_level_exp: 5,
            level: 1,
        }
    );
    assert_eq!(PlayerPlugin.startup(), player);
}

#[test]
fn threshold_grows_by_1_4_rounded_down() {
    assert_eq!(grow_threshold(5), 7);
    assert_eq!(grow_threshold(7), 9);
    assert_eq!(grow_threshold(9), 12);
    assert_eq!(grow_threshold(12), 16);
    assert_eq!(grow_threshold(10), 14);
    assert_eq!(grow_threshold(3), 4);
    assert_eq!(grow_threshold(2), 2);
    assert_eq!(grow_threshold(1), 1);
    assert_eq!(grow_threshold(0), 0);
}

#[test]
fn threshold_stops_at_the_largest_number() {
    assert_eq!(grow_threshold(u64::MAX), u64::MAX);
    assert_eq!(grow_threshold(u64::MAX / 14 * 10 + 10), u64::MAX);
    assert_eq!(grow_threshold(10_000_000_000_000_000_000), 14_000_000_000_000_000_000);
}

#[test]
fn five_experience_at_threshold_five() {
    let mut player = spawn_player();
    player.gain_experience(5);
    assert_eq!(player.exp, 5);
    assert!(player_level_up(&mut player));
    assert_eq!(player.level, 2);
    assert_eq!(player.next_level_exp, 7);
    assert_eq!(player.exp, 0);
}

#[test]
fn level_up_drops_the_excess() {
    let mut player = spawn_player();
    player.gain_experience(100);
    assert!(player_level_up(&mut player));
    assert_eq!(player.level, 2);
    assert_eq!(player.next_level_exp, 7);
    assert_eq!(player.exp, 0);
    assert!(!player_level_up(&mut player));
    assert_eq!(player.level, 2);
    assert_eq!(player.next_level_exp, 7);
}

#[test]
fn below_the_threshold_nothing_happens() {
    let mut player = spawn_player();
    player.gain_experience(4);
    let before = player;
    assert!(!player_level_up(&mut player));
    assert_eq!(player, before);
}

#[test]
fn gain_experience_does_not_clamp() {
    let mut player = spawn_player();
    player.gain_experience(3);
    player.gain_experience(9);
    assert_eq!(player.exp, 12);
    assert_eq!(player.level, 1);
    assert_eq!(player.next_level_exp, 5);
}

#[test]
fn level_up_keeps_everything_else() {
    let mut player = spawn_player();
    player.position = at(4, -9);
    player.health = 17;
    player.facing = Facing::Right;
    player.exp = 6;
    assert!(player_level_up(&mut player));
    assert_eq!(player.position, at(4, -9));
    assert_eq!(player.health, 17);
    assert_eq!(player.max_health, 100_000_000);
    assert_eq!(player.speed, 3_000_000);
    assert_eq!(player.facing, Facing::Right);
}

#[test]
fn distance_travelled_rounds_down() {
    assert_eq!(distance_travelled(3_000_000, 16_666_667), 50_000);
    assert_eq!(distance_travelled(3_000_000, 1_000_000_000), 3_000_000);
    assert_eq!(distance_travelled(1, 999_999_999), 0);
    assert_eq!(distance_travelled(0, u64::MAX), 0);
    assert_eq!(distance_travelled(u32::MAX, u64::MAX), 79_228_162_495_817_593_515);
}

#[test]
fn clamped_stops_at_the_limits() {
    assert_eq!(clamped(0), 0);
    assert_eq!(clamped(i64::MAX as i128 + 1), i64::MAX);
    assert_eq!(clamped(i64::MIN as i128 - 1), i64::MIN);
    assert_eq!(clamped(-5), -5);
}

#[test]
fn movement_follows_each_intent() {
    let second = 1_000_000_000;
    let mut player = spawn_player();
    player_movement(&mut player, MoveIntents { up: true, ..NONE }, second);
    assert_eq!(player.position, at(0, 3_000_000));
    assert_eq!(player.facing, Facing::Left);
    player_movement(&mut player, MoveIntents { right: true, ..NONE }, second);
    assert_eq!(player.position, at(3_000_000, 3_000_000));
    assert_eq!(player.facing, Facing::Right);
    player_movement(&mut player, MoveIntents { down: true, ..NONE }, 2 * second);
    assert_eq!(player.position, at(3_000_000, -3_000_000));
    assert_eq!(player.facing, Facing::Right);
    player_movement(&mut player, MoveIntents { left: true, ..NONE }, second / 2);
    assert_eq!(player.position, at(1_500_000, -3_000_000));
    assert_eq!(player.facing, Facing::Left);
}

#[test]
fn opposite_intents_cancel_and_right_wins_the_facing() {
    let mut player = spawn_player();
    let all = MoveIntents { up: true, down: true, left: true, right: true };
    player_movement(&mut player, all, 1_000_000_000);
    assert_eq!(player.position, at(0, 0));
    assert_eq!(player.facing, Facing::Right);
}

#[test]
fn no_intent_no_movement() {
    let mut player = spawn_player();
    let before = player;
    player_movement(&mut player, NONE, 1_000_000_000);
    assert_eq!(player, before);
}

#[test]
fn movement_stops_at_the_edge_of_the_plane() {
    let mut player = spawn_player();
    player.position = at(i64::MAX - 1, i64::MIN + 1);
    player_movement(&mut player, MoveIntents { right: true, down: true, ..NONE }, 1_000_000_000);
    assert_eq!(player.position, at(i64::MAX, i64::MIN));
    player.speed = u32::MAX;
    player_movement(&mut player, MoveIntents { left: true, up: true, ..NONE }, u64::MAX);
    assert_eq!(player.position, at(i64::MIN, i64::MAX));
}

#[test]
fn reach_is_strictly_below_the_radius() {
    assert_eq!(PICKUP_RADIUS, 300_000);
    let origin = at(0, 0);
    assert!(at(299_999, 0).is_closer_than(&origin, PICKUP_RADIUS));
    assert!(!at(300_000, 0).is_closer_than(&origin, PICKUP_RADIUS));
    assert!(!at(0, -300_000).is_closer_than(&origin, PICKUP_RADIUS));
    assert!(at(-212_000, 212_000).is_closer_than(&origin, PICKUP_RADIUS));
    assert!(!at(212_133, 212_133).is_closer_than(&origin, PICKUP_RADIUS));
    assert!(at(212_132, 212_132).is_closer_than(&origin, PICKUP_RADIUS));
    assert!(!at(i64::MAX, i64::MAX).is_closer_than(&at(i64::MIN, i64::MIN), u32::MAX));
    assert!(!origin.is_closer_than(&origin, 0));
    assert!(origin.is_closer_than(&origin, 1));
}

#[test]
fn orb_at_0_29_is_collected() {
    let mut player = spawn_player();
    let mut field = field_with(&[(290_000, 0, 3)]);
    let collected = player_gain_exp(&mut player, &mut field);
    assert_eq!(collected.len(), 1);
    assert_eq!(collected[0].value, 3);
    assert_eq!(player.exp, 3);
    assert!(field.orbs.is_empty());
}

#[test]
fn orb_at_0_31_stays_and_keeps_its_mark() {
    let mut player = spawn_player();
    let mut field = field_with(&[(310_000, 0, 3)]);
    let id = field.orbs[0].id;
    player_exp_start_pickup(&mut field, &vec![id]);
    assert!(field.orbs[0].collecting);
    let collected = player_gain_exp(&mut player, &mut field);
    assert!(collected.is_empty());
    assert_eq!(player.exp, 0);
    assert_eq!(field.orbs.len(), 1);
    assert!(field.orbs[0].collecting);
    player_exp_start_pickup(&mut field, &vec![]);
    assert!(field.orbs[0].collecting);
    assert_eq!(field.orbs[0].value, 3);
    assert_eq!(field.orbs[0].position, at(310_000, 0));
}

#[test]
fn collection_ignores_the_mark() {
    let mut player = spawn_player();
    let mut field = field_with(&[(100, 100, 2), (1_000_000, 0, 7)]);
    let far = field.orbs[1].id;
    player_exp_start_pickup(&mut field, &vec![far]);
    assert!(!field.orbs[0].collecting);
    assert!(field.orbs[1].collecting);
    let collected = player_gain_exp(&mut player, &mut field);
    assert_eq!(collected.len(), 1);
    assert!(!collected[0].collecting);
    assert_eq!(player.exp, 2);
    assert_eq!(field.orbs.len(), 1);
    assert_eq!(field.orbs[0].id, far);
}

#[test]
fn start_pickup_passes_over_unknown_handles() {
    let mut field = field_with(&[(0, 0, 1), (5, 5, 1)]);
    let before = field.orbs.clone();
    player_exp_start_pickup(&mut field, &vec![77, 78, u64::MAX]);
    assert_eq!(field.orbs, before);
    assert_eq!(field.next_id, 2);
}

#[test]
fn orbs_at_one_place_are_all_collected_in_one_tick() {
    let mut player = spawn_player();
    let mut field = field_with(&[(10, 10, 1), (10, 10, 2), (900_000, 0, 50), (10, 10, 4)]);
    let collected = player_gain_exp(&mut player, &mut field);
    let ids: Vec<u64> = collected.iter().map(|o| o.id).collect();
    assert_eq!(ids, vec![0, 1, 3]);
    assert_eq!(player.exp, 7);
    assert_eq!(field.orbs.len(), 1);
    assert_eq!(field.orbs[0].id, 2);
    assert_eq!(field.next_id, 4);
}

#[test]
fn collection_measures_from_the_player() {
    let mut player = spawn_player();
    player.position = at(5_000_000, -5_000_000);
    let mut field = field_with(&[(0, 0, 1), (5_000_000, -4_700_001, 2), (5_000_000, -4_700_000, 4)]);
    player_gain_exp(&mut player, &mut field);
    assert_eq!(player.exp, 2);
    assert_eq!(field.orbs.len(), 2);
}

#[test]
fn collecting_an_orb_twice_grants_its_value_once() {
    let mut player = spawn_player();
    let mut field = field_with(&[(9_000_000, 0, 6), (0, 0, 1)]);
    assert_eq!(collect_orb(&mut player, &mut field, 0), 6);
    let after_first = (player, field.orbs.clone(), field.next_id);
    assert_eq!(collect_orb(&mut player, &mut field, 0), 0);
    assert_eq!((player, field.orbs.clone(), field.next_id), after_first);
    assert_eq!(player.exp, 6);
    assert_eq!(field.orbs.len(), 1);
    assert_eq!(field.orbs[0].id, 1);
}

#[test]
fn destroying_an_orb_twice_is_destroying_it_once() {
    let mut field = field_with(&[(0, 0, 1), (1, 1, 2), (2, 2, 3)]);
    let gone = field.destroy(1);
    assert_eq!(gone, Some(ExpOrb { id: 1, position: at(1, 1), value: 2, collecting: false }));
    let once = field.orbs.clone();
    assert_eq!(field.destroy(1), None);
    assert_eq!(field.orbs, once);
    assert_eq!(field.destroy(99), None);
    assert_eq!(field.orbs, once);
    assert_eq!(field.next_id, 3);
    assert_eq!(field.spawn(at(0, 0), 1), 3);
}

#[test]
fn field_hands_out_fresh_handles() {
    let mut field = OrbField::new();
    assert_eq!(field.spawn(at(1, 2), 10), 0);
    assert_eq!(field.spawn(at(3, 4), 20), 1);
    assert_eq!(
        field.orbs,
        vec![
            ExpOrb { id: 0, position: at(1, 2), value: 10, collecting: false },
            ExpOrb { id: 1, position: at(3, 4), value: 20, collecting: false },
        ]
    );
    field.clear();
    assert!(field.orbs.is_empty());
    assert_eq!(field.spawn(at(0, 0), 1), 2);
}

#[test]
fn has_handle_finds_what_is_there() {
    assert!(has_handle(&vec![4, 9, 2], 2));
    assert!(has_handle(&vec![4, 9, 2], 4));
    assert!(!has_handle(&vec![4, 9, 2], 3));
    assert!(!has_handle(&vec![], 0));
}

#[test]
fn reach_fits_adds_only_what_is_in_reach() {
    let field = field_with(&[(0, 0, 10), (5_000_000, 0, u64::MAX), (1, 1, 5)]);
    assert!(reach_fits(&field, &at(0, 0), u64::MAX - 15));
    assert!(!reach_fits(&field, &at(0, 0), u64::MAX - 14));
    assert!(!reach_fits(&field, &at(5_000_000, 0), 1));
    assert!(reach_fits(&field, &at(5_000_000, 0), 0));
    assert!(reach_fits(&field, &at(-9_000_000, 0), u64::MAX));
}

#[test]
fn update_moves_marks_collects_and_levels_in_that_order() {
    let mut player = spawn_player();
    let mut field = field_with(&[(3_000_000, 0, 5), (0, 0, 9), (3_200_000, 0, 1)]);
    let intents = MoveIntents { right: true, ..NONE };
    assert!(PlayerPlugin.ready(&player, &field, intents, 1_000_000_000));
    let done = PlayerPlugin.update(&mut player, &mut field, intents, 1_000_000_000, &vec![1, 2]);
    assert_eq!(player.position, at(3_000_000, 0));
    assert_eq!(player.facing, Facing::Right);
    let ids: Vec<u64> = done.collected.iter().map(|o| o.id).collect();
    assert_eq!(ids, vec![0, 2]);
    assert!(done.collected[1].collecting);
    assert!(!done.collected[0].collecting);
    assert!(done.leveled_up);
    assert_eq!(player.level, 2);
    assert_eq!(player.exp, 0);
    assert_eq!(player.next_level_exp, 7);
    assert_eq!(field.orbs.len(), 1);
    assert_eq!(field.orbs[0].id, 1);
    assert!(field.orbs[0].collecting);
}

#[test]
fn update_raises_one_level_at_most() {
    let mut player = spawn_player();
    let mut field = field_with(&[(0, 0, 50), (0, 0, 50)]);
    let done = PlayerPlugin.update(&mut player, &mut field, NONE, 16_000_000, &vec![]);
    assert!(done.leveled_up);
    assert_eq!(player.level, 2);
    let again = PlayerPlugin.update(&mut player, &mut field, NONE, 16_000_000, &vec![]);
    assert!(!again.leveled_up);
    assert_eq!(player.level, 2);
    assert_eq!(player.exp, 0);
}

#[test]
fn plugin_ready_refuses_what_does_not_fit() {
    let mut player = spawn_player();
    let field = field_with(&[(0, 0, 10)]);
    player.exp = u64::MAX - 9;
    assert!(!PlayerPlugin.ready(&player, &field, NONE, 0));
    player.exp = 0;
    player.level = u32::MAX;
    assert!(!PlayerPlugin.ready(&player, &field, NONE, 0));
    player.next_level_exp = 11;
    assert!(PlayerPlugin.ready(&player, &field, NONE, 0));
    player.next_level_exp = 10;
    assert!(!PlayerPlugin.ready(&player, &field, NONE, 0));
    assert!(PlayerPlugin.ready(&player, &field, MoveIntents { up: true, ..NONE }, 1_000_000_000));
}
