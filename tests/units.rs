use wave_crossing::components::{
    DespawnCause, MonsterDespawnEvent, MonsterState, MyPaceTimer, StagingTimer, WaitMeter, STAGING_DURATION,
    WAIT_THRESHOLD,
};
use wave_crossing::definitions::{MonsterDefinition, MonsterDefinitions, MonsterDefinitionsAsset, MonsterKind, SpecialBehavior};
use wave_crossing::gauges::{
    check_game_over_system, update_gauges_on_monster_event_system, GameState, PlayerGauges, SpiritGauge, VoidGauge,
};
use wave_crossing::item::place_item;
use wave_crossing::monster::{
    despawn_reached_monsters, monster_movement_system, my_pace_system, staging_timer_system,
    update_monster_color_system, Monster,
};
use wave_crossing::obstacle::{
    spawn_obstacles_from_stage, wind_effect_system, wind_push_system, ObstacleDefinition, ObstacleKind,
    ObstacleVisualConfig, SwampEffect, WIND_PUSH_DURATION,
};
use wave_crossing::simulation::Simulation;
use wave_crossing::spawn::{spawn_monster, validate_stage, ConfigError, SpawnDefinition, StageLevelAsset, WaveDefinition};
use wave_crossing::types::{
    grid_to_world, is_valid_grid_position, world_to_grid, Color, Direction, GridPosition, WorldPosition,
    FIELD_HEIGHT, FIELD_WIDTH, GRID_SIZE,
};

fn def(kind: MonsterKind, speed: u32, behavior: SpecialBehavior) -> MonsterDefinition {
    MonsterDefinition {
        kind,
        speed,
        size: 800,
        color: Color { r: 1000, g: 1000, b: 1000 },
        wait_threshold: 10_000,
        special_behavior: behavior,
    }
}

fn one(d: MonsterDefinition, direction: Direction, lane: i32) -> Monster {
    let mut defs = MonsterDefinitions::new();
    defs.insert(d);
    spawn_monster(&SpawnDefinition { kind: d.kind, direction, grid_pos: lane, delay: 0 }, &defs, 7)
}

#[test]
fn grid_to_world_centres_cells() {
    let p = grid_to_world(GridPosition::new(0, 9), GRID_SIZE, FIELD_WIDTH, FIELD_HEIGHT);
    assert_eq!(p, WorldPosition { x: -288_000, y: 288_000 });
    let q = grid_to_world(GridPosition::new(3, 4), 7, 5, 4);
    // (3 - 2.5 + 0.5) * 7 = 7 and (4 - 2 + 0.5) * 7 = 17.5, rounded down
    assert_eq!(q, WorldPosition { x: 7, y: 17 });
}

#[test]
fn world_to_grid_floors_and_saturates() {
    assert_eq!(world_to_grid(WorldPosition { x: 0, y: -1 }, GRID_SIZE, FIELD_WIDTH, FIELD_HEIGHT), GridPosition::new(5, 4));
    assert_eq!(
        world_to_grid(WorldPosition { x: -320_000, y: 319_999 }, GRID_SIZE, FIELD_WIDTH, FIELD_HEIGHT),
        GridPosition::new(0, 9)
    );
    assert_eq!(
        world_to_grid(WorldPosition { x: i64::MAX, y: i64::MIN }, 1, FIELD_WIDTH, FIELD_HEIGHT),
        GridPosition::new(i32::MAX, i32::MIN)
    );
}

#[test]
fn grid_world_round_trip_on_field() {
    for g in [1i64, 7, 64_000] {
        for x in 0..FIELD_WIDTH {
            for y in 0..FIELD_HEIGHT {
                let p = GridPosition::new(x, y);
                assert_eq!(world_to_grid(grid_to_world(p, g, FIELD_WIDTH, FIELD_HEIGHT), g, FIELD_WIDTH, FIELD_HEIGHT), p);
            }
        }
    }
}

#[test]
fn grid_validity() {
    assert!(is_valid_grid_position(GridPosition::new(0, 0), 10, 10));
    assert!(is_valid_grid_position(GridPosition::new(9, 9), 10, 10));
    assert!(!is_valid_grid_position(GridPosition::new(10, 0), 10, 10));
    assert!(!is_valid_grid_position(GridPosition::new(0, -1), 10, 10));
}

#[test]
fn directions() {
    assert_eq!(Direction::Up.to_vector(), (0, 1));
    assert_eq!(Direction::Left.to_vector(), (-1, 0));
    assert_eq!(Direction::Up.rotate_clockwise(), Direction::Right);
    assert_eq!(Direction::Right.rotate_clockwise(), Direction::Down);
    assert_eq!(Direction::Down.rotate_clockwise(), Direction::Left);
    assert_eq!(Direction::Left.rotate_clockwise(), Direction::Up);
}

#[test]
fn definitions_later_entry_wins() {
    let a = def(MonsterKind::Kappa, 1, SpecialBehavior::Plain);
    let b = def(MonsterKind::Kappa, 2, SpecialBehavior::Plain);
    let asset = MonsterDefinitionsAsset { definitions: vec![a, b] };
    let table = asset.to_hashmap();
    assert!(table.contains(MonsterKind::Kappa));
    assert!(!table.contains(MonsterKind::Bakeneko));
    assert_eq!(table.get(MonsterKind::Kappa).speed, 2);
}

#[test]
fn unknown_kind_is_rejected() {
    let mut defs = MonsterDefinitions::new();
    defs.insert(def(MonsterKind::Kappa, 1, SpecialBehavior::Plain));
    let waves = vec![WaveDefinition {
        start_time: 0,
        monsters: vec![SpawnDefinition { kind: MonsterKind::Bakeneko, direction: Direction::Up, grid_pos: 1, delay: 0 }],
    }];
    assert_eq!(validate_stage(&defs, &waves), Err(ConfigError::UnknownKind(MonsterKind::Bakeneko)));
    let stage = StageLevelAsset { stage: 1, level: 2, waves, obstacles: vec![] };
    assert!(matches!(Simulation::new(defs, stage), Err(ConfigError::UnknownKind(MonsterKind::Bakeneko))));
}

#[test]
fn stage_copy_keeps_waves() {
    let waves = vec![WaveDefinition {
        start_time: 5,
        monsters: vec![SpawnDefinition { kind: MonsterKind::Kappa, direction: Direction::Up, grid_pos: 1, delay: 3 }],
    }];
    let stage = StageLevelAsset { stage: 1, level: 2, waves, obstacles: vec![] };
    let level = stage.to_stage_level();
    assert_eq!((level.stage, level.level), (1, 2));
    assert_eq!(level.waves.len(), 1);
    assert_eq!(level.waves[0].start_time, 5);
    assert_eq!(level.waves[0].monsters, stage.waves[0].monsters);
}

#[test]
fn staging_counts_down_then_walks() {
    let mut monsters = vec![one(def(MonsterKind::Kappa, 1, SpecialBehavior::Plain), Direction::Right, 2)];
    assert_eq!(monsters[0].staging_timer, StagingTimer::new(STAGING_DURATION));
    assert_eq!(monsters[0].position, WorldPosition { x: -416_000, y: -160_000 });
    staging_timer_system(&mut monsters, 600);
    assert_eq!(monsters[0].state, MonsterState::Staging);
    assert_eq!(monsters[0].staging_timer.remaining, 400);
    staging_timer_system(&mut monsters, 600);
    assert_eq!(monsters[0].state, MonsterState::Moving);
    assert_eq!(monsters[0].staging_timer.remaining, 0);
    staging_timer_system(&mut monsters, 600);
    assert_eq!(monsters[0].state, MonsterState::Moving);
}

#[test]
fn walking_off_the_field_reaches_the_goal() {
    let mut m = one(def(MonsterKind::Kappa, 100_000, SpecialBehavior::Plain), Direction::Left, 0);
    m.state = MonsterState::Moving;
    m.position = WorldPosition { x: -447_000, y: 0 };
    let mut monsters = vec![m];
    monster_movement_system(&mut monsters, 10);
    assert_eq!(monsters[0].position.x, -448_000);
    assert_eq!(monsters[0].state, MonsterState::Moving);
    monster_movement_system(&mut monsters, 10);
    assert_eq!(monsters[0].position.x, -449_000);
    assert_eq!(monsters[0].state, MonsterState::Reached);
    let events = despawn_reached_monsters(&mut monsters);
    assert_eq!(events, vec![MonsterDespawnEvent { entity: 7, cause: DespawnCause::ReachedGoal }]);
    assert!(monsters.is_empty());
}

#[test]
fn my_pace_stops_and_resumes() {
    let mut m = one(
        def(MonsterKind::Bakeneko, 1_000, SpecialBehavior::MyPace { stop_interval: 1_000, stop_duration: 500 }),
        Direction::Up,
        0,
    );
    m.state = MonsterState::Moving;
    assert!(m.pace_timer.is_some());
    let mut monsters = vec![m];
    my_pace_system(&mut monsters, 600);
    assert!(monsters[0].movement.enabled);
    my_pace_system(&mut monsters, 600);
    assert!(!monsters[0].movement.enabled);
    assert_eq!(monsters[0].pace_timer.unwrap().interval_elapsed, 200);
    my_pace_system(&mut monsters, 400);
    assert!(!monsters[0].movement.enabled);
    my_pace_system(&mut monsters, 100);
    assert!(monsters[0].movement.enabled);
}

#[test]
fn pace_timer_alone() {
    let mut t = MyPaceTimer::new(100, 50);
    assert!(t.tick(true, 99));
    assert!(!t.tick(true, 1));
    assert!(t.is_stopped);
    assert!(t.tick(false, 50));
    assert!(!t.is_stopped);
}

#[test]
fn wait_meter_ratio_and_colour() {
    let mut w = WaitMeter::new(10_000);
    assert_eq!(w.progress_ratio(), 0);
    assert_eq!(w.brightness(), 1000);
    w.update(true, 2_500);
    assert_eq!(w.progress_ratio(), 250);
    assert_eq!(w.brightness(), 825);
    assert!(w.was_stopped);
    w.update(true, 10_000);
    assert_eq!(w.progress_ratio(), 1000);
    assert_eq!(w.brightness(), 300);
    assert!(w.is_expired());
    w.update(false, 10);
    assert_eq!(w.current, 0);
    assert!(!w.was_stopped);
    assert_eq!(WaitMeter::default().threshold, WAIT_THRESHOLD);
    let mut m = one(def(MonsterKind::Kappa, 1, SpecialBehavior::Plain), Direction::Right, 0);
    m.wait_meter.current = 5_000;
    assert_eq!(update_monster_color_system(&vec![m]), vec![650]);
}

#[test]
fn wind_pushes_to_a_neighbour_cell() {
    let terrain = spawn_obstacles_from_stage(&vec![
        ObstacleDefinition { kind: ObstacleKind::Wind, grid_pos: GridPosition::new(4, 4) },
        ObstacleDefinition { kind: ObstacleKind::Swamp, grid_pos: GridPosition::new(1, 1) },
    ]);
    assert_eq!(terrain.winds.len(), 1);
    assert_eq!(terrain.swamps.len(), 1);
    assert_eq!(terrain.swamps[0].effect, SwampEffect::default());
    let mut m = one(def(MonsterKind::Kappa, 1, SpecialBehavior::Plain), Direction::Right, 4);
    m.state = MonsterState::Moving;
    let start = grid_to_world(GridPosition::new(4, 4), GRID_SIZE, FIELD_WIDTH, FIELD_HEIGHT);
    m.position = start;
    let mut monsters = vec![m];
    wind_effect_system(&mut monsters, &terrain);
    let push = monsters[0].wind_push.unwrap();
    assert!(!monsters[0].movement.enabled);
    assert_eq!(push.start_pos, start);
    let neighbours: Vec<WorldPosition> = [(5, 4), (3, 4), (4, 5), (4, 3)]
        .iter()
        .map(|&(x, y)| grid_to_world(GridPosition::new(x, y), GRID_SIZE, FIELD_WIDTH, FIELD_HEIGHT))
        .collect();
    assert!(neighbours.contains(&push.target_pos));
    wind_push_system(&mut monsters, WIND_PUSH_DURATION / 2);
    assert_eq!(monsters[0].position.x, (start.x + push.target_pos.x).div_euclid(2));
    assert_eq!(monsters[0].position.y, (start.y + push.target_pos.y).div_euclid(2));
    wind_push_system(&mut monsters, WIND_PUSH_DURATION / 2);
    assert_eq!(monsters[0].position, push.target_pos);
    assert!(monsters[0].wind_push.is_none());
    assert!(monsters[0].movement.enabled);
}

#[test]
fn obstacle_visuals() {
    let c = ObstacleVisualConfig::get_config(ObstacleKind::Swamp);
    assert_eq!(c.size, 900);
    assert_eq!(ObstacleVisualConfig::get_config(ObstacleKind::Wind).color, Color { r: 600, g: 900, b: 1000 });
}

#[test]
fn gauges() {
    let mut s = SpiritGauge::new(100, 150);
    assert_eq!(s.current, 100);
    assert!(!s.consume(101));
    assert!(s.consume(30));
    assert_eq!(s.current, 70);
    s.add(50);
    assert_eq!(s.current, 100);
    assert_eq!(s.ratio(), 1000);
    let mut v = VoidGauge::new(20);
    v.add(5);
    assert_eq!(v.ratio(), 250);
    assert!(!v.is_full());
    v.add(100);
    assert!(v.is_full());
    let mut g = PlayerGauges::default();
    let events = vec![
        MonsterDespawnEvent { entity: 1, cause: DespawnCause::ReachedGoal },
        MonsterDespawnEvent { entity: 2, cause: DespawnCause::WaitExpired },
        MonsterDespawnEvent { entity: 3, cause: DespawnCause::WaitExpired },
    ];
    update_gauges_on_monster_event_system(&mut g, &events);
    assert_eq!(g.spirit.current, 60);
    assert_eq!(g.void.current, 20);
    assert_eq!(check_game_over_system(&g), GameState::InGame);
    g.void.add(1_000);
    assert_eq!(check_game_over_system(&g), GameState::GameOver);
}

#[test]
fn placing_items() {
    let mut tiles = Vec::new();
    let mut spirit = SpiritGauge::new(100, 25);
    assert!(!place_item(&mut tiles, &mut spirit, GridPosition::new(10, 0), 10));
    assert_eq!(spirit.current, 25);
    assert!(place_item(&mut tiles, &mut spirit, GridPosition::new(2, 3), 10));
    assert!(place_item(&mut tiles, &mut spirit, GridPosition::new(2, 3), 10));
    assert_eq!(tiles.len(), 1);
    assert_eq!(spirit.current, 5);
    assert!(!place_item(&mut tiles, &mut spirit, GridPosition::new(4, 4), 10));
    assert_eq!(tiles.len(), 1);
}
