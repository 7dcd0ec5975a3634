use wave_crossing::components::{DespawnCause, MonsterState};
use wave_crossing::definitions::{MonsterDefinition, MonsterDefinitions, MonsterKind, SpecialBehavior};
use wave_crossing::item::{rotation_tile_effect_system, RotationTile};
use wave_crossing::monster::{
    collision_detection_system, despawn_expired_monsters_system, monster_movement_system,
    update_wait_meter_system, Monster,
};
use wave_crossing::obstacle::{apply_swamp_effect_system, detect_swamp_system, spawn_obstacles_from_stage, ObstacleDefinition, ObstacleKind};
use wave_crossing::simulation::Simulation;
use wave_crossing::spawn::{spawn_monster, MonsterSpawnQueue, SpawnDefinition, StageLevelAsset, WaveDefinition};
use wave_crossing::types::{grid_to_world, Color, Direction, GridPosition, FIELD_HEIGHT, FIELD_WIDTH, GRID_SIZE};

fn kappa(speed: u32, wait_threshold: u32) -> MonsterDefinition {
    MonsterDefinition {
        kind: MonsterKind::Kappa,
        speed,
        size: 800,
        color: Color { r: 1000, g: 300, b: 300 },
        wait_threshold,
        special_behavior: SpecialBehavior::Plain,
    }
}

fn table(def: MonsterDefinition) -> MonsterDefinitions {
    let mut defs = MonsterDefinitions::new();
    defs.insert(def);
    defs
}

fn walker(def: MonsterDefinition, direction: Direction, cell: GridPosition, id: u64) -> Monster {
    let defs = table(def);
    let sd = SpawnDefinition { kind: def.kind, direction, grid_pos: 0, delay: 0 };
    let mut m = spawn_monster(&sd, &defs, id);
    m.state = MonsterState::Moving;
    m.position = grid_to_world(cell, GRID_SIZE, FIELD_WIDTH, FIELD_HEIGHT);
    m
}

fn spawn(kind: MonsterKind, direction: Direction, lane: i32, delay: u64) -> SpawnDefinition {
    SpawnDefinition { kind, direction, grid_pos: lane, delay }
}

#[test]
fn head_on_pair_blocks_before_touching_and_resumes_when_one_leaves() {
    let defs = table(kappa(100_000, 60_000));
    let wave = WaveDefinition {
        start_time: 0,
        monsters: vec![spawn(MonsterKind::Kappa, Direction::Right, 5, 0), spawn(MonsterKind::Kappa, Direction::Left, 5, 0)],
    };
    let stage = StageLevelAsset { stage: 1, level: 1, waves: vec![wave], obstacles: vec![] };
    let mut sim = Simulation::new(defs, stage).ok().unwrap();
    let mut blocked_at = None;
    for step in 0..1000 {
        sim.tick(16);
        if sim.monsters.len() == 2 && sim.monsters[0].collision.is_colliding {
            blocked_at = Some(step);
            break;
        }
    }
    assert!(blocked_at.is_some());
    let a = sim.monsters[0];
    let b = sim.monsters[1];
    assert!(b.collision.is_colliding);
    // the boxes themselves do not overlap yet
    let dx = (a.position.x - b.position.x).abs();
    assert!(2 * dx >= a.collision_box.width + b.collision_box.width);
    // both stand still while blocked
    sim.tick(16);
    assert_eq!(sim.monsters[0].position, a.position);
    assert_eq!(sim.monsters[1].position, b.position);
    // once one is gone the other walks on
    sim.monsters.remove(1);
    sim.tick(16);
    assert!(!sim.monsters[0].collision.is_colliding);
    assert!(sim.monsters[0].position.x > a.position.x);
    assert_eq!(sim.monsters[0].wait_meter.current, 0);
}

#[test]
fn blocked_for_full_threshold_expires() {
    let def = kappa(100_000, 10_000);
    let mut monsters = vec![walker(def, Direction::Right, GridPosition::new(4, 5), 1)];
    monsters[0].collision.is_colliding = true;
    for _ in 0..999 {
        update_wait_meter_system(&mut monsters, 10);
    }
    assert_eq!(monsters[0].wait_meter.current, 9_990);
    let events = despawn_expired_monsters_system(&mut monsters);
    assert!(events.is_empty());
    assert_eq!(monsters.len(), 1);
    update_wait_meter_system(&mut monsters, 10);
    assert_eq!(monsters[0].wait_meter.current, 10_000);
    let events = despawn_expired_monsters_system(&mut monsters);
    assert_eq!(events.len(), 1);
    assert_eq!(events[0].entity, 1);
    assert_eq!(events[0].cause, DespawnCause::WaitExpired);
    assert!(monsters.is_empty());
}

#[test]
fn blocked_monster_in_simulation_expires_after_threshold() {
    let defs = table(kappa(100_000, 10_000));
    let wave = WaveDefinition {
        start_time: 0,
        monsters: vec![spawn(MonsterKind::Kappa, Direction::Right, 5, 0), spawn(MonsterKind::Kappa, Direction::Left, 5, 0)],
    };
    let stage = StageLevelAsset { stage: 1, level: 1, waves: vec![wave], obstacles: vec![] };
    let mut sim = Simulation::new(defs, stage).ok().unwrap();
    let mut expired = Vec::new();
    for _ in 0..2000 {
        let events = sim.tick(10);
        for e in events {
            expired.push(e);
        }
        if !expired.is_empty() {
            break;
        }
    }
    assert_eq!(expired.len(), 2);
    assert!(expired.iter().all(|e| e.cause == DespawnCause::WaitExpired));
    assert!(sim.monsters.is_empty());
}

#[test]
fn slow_zone_halves_speed_inside_only() {
    let def = kappa(100, 10_000);
    let terrain = spawn_obstacles_from_stage(&vec![ObstacleDefinition {
        kind: ObstacleKind::Swamp,
        grid_pos: GridPosition::new(5, 5),
    }]);
    let mut monsters = vec![walker(def, Direction::Right, GridPosition::new(5, 5), 1)];
    detect_swamp_system(&mut monsters, &terrain);
    apply_swamp_effect_system(&mut monsters);
    assert_eq!(monsters[0].movement.speed, 50);
    assert!(monsters[0].on_swamp.is_some());
    monsters[0].position = grid_to_world(GridPosition::new(6, 5), GRID_SIZE, FIELD_WIDTH, FIELD_HEIGHT);
    detect_swamp_system(&mut monsters, &terrain);
    apply_swamp_effect_system(&mut monsters);
    assert_eq!(monsters[0].movement.speed, 100);
    assert!(monsters[0].on_swamp.is_none());
}

#[test]
fn wave_spawn_arrives_at_start_plus_delay() {
    let wave = WaveDefinition { start_time: 2_000, monsters: vec![spawn(MonsterKind::Kappa, Direction::Up, 3, 1_500)] };
    let mut queue = MonsterSpawnQueue::new(vec![wave]);
    for _ in 0..6 {
        let out = queue.advance(500);
        assert!(out.is_empty());
    }
    assert_eq!(queue.timer, 3_000);
    assert_eq!(queue.spawns.len(), 1);
    assert_eq!(queue.spawns[0].delay, 3_500);
    let out = queue.advance(500);
    assert_eq!(out.len(), 1);
    assert_eq!(out[0].delay, 3_500);
    assert_eq!(queue.timer, 3_500);
    assert!(queue.spawns.is_empty());
    assert!(queue.advance(10_000).is_empty());
}

#[test]
fn wave_spawn_appears_in_simulation_at_three_and_a_half_seconds() {
    let defs = table(kappa(100_000, 10_000));
    let wave = WaveDefinition { start_time: 2_000, monsters: vec![spawn(MonsterKind::Kappa, Direction::Up, 3, 1_500)] };
    let stage = StageLevelAsset { stage: 1, level: 1, waves: vec![wave], obstacles: vec![] };
    let mut sim = Simulation::new(defs, stage).ok().unwrap();
    for _ in 0..349 {
        sim.tick(10);
        assert!(sim.monsters.is_empty());
    }
    sim.tick(10);
    assert_eq!(sim.queue.timer, 3_500);
    assert_eq!(sim.monsters.len(), 1);
    assert_eq!(sim.monsters[0].state, MonsterState::Staging);
    assert_eq!(sim.monsters[0].id, 0);
}

#[test]
fn rotation_tile_turns_clockwise_and_releases_one_cell_away() {
    let def = kappa(100_000, 10_000);
    let tiles = vec![RotationTile { grid_pos: GridPosition::new(5, 5) }];
    let mut monsters = vec![walker(def, Direction::Right, GridPosition::new(5, 5), 1)];
    rotation_tile_effect_system(&mut monsters, &tiles);
    assert_eq!(monsters[0].movement.direction, Direction::Down);
    monsters[0].position = grid_to_world(GridPosition::new(6, 5), GRID_SIZE, FIELD_WIDTH, FIELD_HEIGHT);
    rotation_tile_effect_system(&mut monsters, &tiles);
    assert_eq!(monsters[0].movement.direction, Direction::Right);
}

#[test]
fn pass_through_pair_never_blocks() {
    let mut ghost_def = kappa(100_000, 10_000);
    ghost_def.kind = MonsterKind::Yurei;
    ghost_def.special_behavior = SpecialBehavior::PassThrough;
    let a = walker(ghost_def, Direction::Right, GridPosition::new(4, 5), 1);
    let b = walker(kappa(100_000, 10_000), Direction::Left, GridPosition::new(4, 5), 2);
    let mut monsters = vec![a, b];
    collision_detection_system(&mut monsters);
    assert!(!monsters[0].collision.is_colliding);
    assert!(!monsters[1].collision.is_colliding);
    let mut both = vec![a, a];
    both[1].id = 2;
    collision_detection_system(&mut both);
    assert!(!both[0].collision.is_colliding);
}

#[test]
fn blocked_monsters_stand_still_and_accrue() {
    let def = kappa(100_000, 10_000);
    let mut a = walker(def, Direction::Right, GridPosition::new(4, 5), 1);
    let mut b = walker(def, Direction::Left, GridPosition::new(4, 5), 2);
    a.position.x -= 28_000;
    b.position.x += 28_000;
    let mut monsters = vec![a, b];
    collision_detection_system(&mut monsters);
    assert!(monsters[0].collision.is_colliding && monsters[1].collision.is_colliding);
    monster_movement_system(&mut monsters, 100);
    update_wait_meter_system(&mut monsters, 100);
    assert_eq!(monsters[0].position, a.position);
    assert_eq!(monsters[1].position, b.position);
    assert_eq!(monsters[0].wait_meter.current, 100);
    assert_eq!(monsters[1].wait_meter.current, 100);
}
