use pizza_survivor::enemy::{Enemy, EnemyPopulation, OrbDrop};
use pizza_survivor::units::Position;
use pizza_survivor::wave::{SpawnRequest, SpawnTemplate};
use std::cell::Cell;

fn at(x: i64, y: i64) -> Position {
    Position { x, y }
}

fn student() -> SpawnTemplate {
    SpawnTemplate {
        asset: "student".to_string(),
        speed: 1_300_000,
        max_health: 5_000_000,
        damage_per_second: 10_000_000,
    }
}

#[test]
fn spawn_batch_copies_the_template() {
    let mut population = EnemyPopulation::new();
    let next = Cell::new(0i64);
    let place = || {
        next.set(next.get() + 1);
        at(next.get(), -next.get())
    };
    let mut template = student();
    let first = population.spawn_batch(&template, 3, &place);
    assert_eq!(first, 0);
    assert_eq!(population.next_id, 3);
    assert_eq!(population.enemies.len(), 3);
    for (k, enemy) in population.enemies.iter().enumerate() {
        assert_eq!(
            *enemy,
            Enemy {
                id: k as u64,
                position: at(k as i64 + 1, -(k as i64) - 1),
                speed: 1_300_000,
                health: 5_000_000,
                max_health: 5_000_000,
                damage_per_second: 10_000_000,
            }
        );
    }
    template.max_health = 1;
    template.speed = 1;
    assert_eq!(population.enemies[0].health, 5_000_000);
    assert_eq!(population.enemies[0].speed, 1_300_000);
    let second = population.spawn_batch(&template, 1, &place);
    assert_eq!(second, 3);
    assert_eq!(population.enemies[3].health, 1);
    assert_eq!(population.enemies[3].max_health, 1);
    assert_eq!(population.enemies[2].health, 5_000_000);
}

#[test]
fn spawn_batch_of_zero_spawns_nothing() {
    let mut population = EnemyPopulation::new();
    let first = population.spawn_batch(&student(), 0, &|| at(0, 0));
    assert_eq!(first, 0);
    assert!(population.enemies.is_empty());
    assert_eq!(population.next_id, 0);
}

#[test]
fn has_room_counts_the_handles_left() {
    let mut population = EnemyPopulation::new();
    assert!(population.has_room(u32::MAX));
    population.next_id = u64::MAX - 2;
    assert!(population.has_room(2));
    assert!(!population.has_room(3));
}

#[test]
fn damage_below_health_hurts() {
    let mut population = EnemyPopulation::new();
    population.spawn_batch(&student(), 2, &|| at(7, 8));
    assert_eq!(population.apply_damage(1, 4_999_999), None);
    assert_eq!(population.enemies.len(), 2);
    assert_eq!(population.enemies[1].health, 1);
    assert_eq!(population.enemies[1].max_health, 5_000_000);
    assert_eq!(population.enemies[0].health, 5_000_000);
}

#[test]
fn damage_to_zero_kills_and_drops_an_orb() {
    let mut population = EnemyPopulation::new();
    let next = Cell::new(0i64);
    let place = || {
        next.set(next.get() + 10);
        at(next.get(), 1)
    };
    population.spawn_batch(&student(), 3, &place);
    assert_eq!(population.apply_damage(1, 5_000_000), Some(OrbDrop { position: at(20, 1) }));
    let ids: Vec<u64> = population.enemies.iter().map(|e| e.id).collect();
    assert_eq!(ids, vec![0, 2]);
    assert_eq!(population.next_id, 3);
}

#[test]
fn damage_beyond_health_kills() {
    let mut population = EnemyPopulation::new();
    population.spawn_batch(&student(), 1, &|| at(-3, 4));
    assert_eq!(population.apply_damage(0, u64::MAX), Some(OrbDrop { position: at(-3, 4) }));
    assert!(population.enemies.is_empty());
}

#[test]
fn damage_adds_up_over_hits() {
    let mut population = EnemyPopulation::new();
    population.spawn_batch(&student(), 1, &|| at(0, 0));
    assert_eq!(population.apply_damage(0, 2_000_000), None);
    assert_eq!(population.apply_damage(0, 2_000_000), None);
    assert_eq!(population.enemies[0].health, 1_000_000);
    assert_eq!(population.apply_damage(0, 0), None);
    assert_eq!(population.enemies[0].health, 1_000_000);
    assert!(population.apply_damage(0, 1_000_000).is_some());
}

#[test]
fn damage_to_a_missing_enemy_is_passed_over() {
    let mut population = EnemyPopulation::new();
    population.spawn_batch(&student(), 2, &|| at(0, 0));
    assert!(population.apply_damage(0, 9_000_000).is_some());
    let once = population.enemies.clone();
    assert_eq!(population.apply_damage(0, 9_000_000), None);
    assert_eq!(population.apply_damage(55, 9_000_000), None);
    assert_eq!(population.enemies, once);
}

#[test]
fn an_enemy_without_health_dies_of_any_hit() {
    let mut population = EnemyPopulation::new();
    let mut ghost = student();
    ghost.max_health = 0;
    population.spawn_batch(&ghost, 1, &|| at(1, 1));
    assert_eq!(population.enemies[0].health, 0);
    assert_eq!(population.apply_damage(0, 0), Some(OrbDrop { position: at(1, 1) }));
}

#[test]
fn despawn_all_removes_everyone_and_keeps_the_handles_used() {
    let mut population = EnemyPopulation::new();
    population.spawn_batch(&student(), 4, &|| at(0, 0));
    population.despawn_all();
    assert!(population.enemies.is_empty());
    assert_eq!(population.next_id, 4);
    population.despawn_all();
    assert!(population.enemies.is_empty());
    assert_eq!(population.spawn_batch(&student(), 1, &|| at(0, 0)), 4);
}

#[test]
fn spawn_requests_serves_each_request_in_turn() {
    let mut population = EnemyPopulation::new();
    let mut strong = student();
    strong.asset = "strong".to_string();
    strong.max_health = 30_000_000;
    let requests = vec![
        SpawnRequest { template: student(), batch_size: 2 },
        SpawnRequest { template: strong, batch_size: 1 },
        SpawnRequest { template: student(), batch_size: 2 },
    ];
    population.spawn_requests(&requests, &|| at(9, 9));
    let healths: Vec<i64> = population.enemies.iter().map(|e| e.health).collect();
    assert_eq!(healths, vec![5_000_000, 5_000_000, 30_000_000, 5_000_000, 5_000_000]);
    let ids: Vec<u64> = population.enemies.iter().map(|e| e.id).collect();
    assert_eq!(ids, vec![0, 1, 2, 3, 4]);
    assert_eq!(population.next_id, 5);
    assert!(population.enemies.iter().all(|e| e.position == at(9, 9)));
    population.spawn_requests(&vec![], &|| at(0, 0));
    assert_eq!(population.enemies.len(), 5);
}
