use echos_in_the_dark::ai::ActionState;
use echos_in_the_dark::gamemap::GameMap;
use echos_in_the_dark::gen_config::GenConfig;
use echos_in_the_dark::ai::{AIAction, AIBehaviorType, AIState};
use echos_in_the_dark::pathfinding::{
    apply_pathfinding_config, enhanced_chase_step, enhanced_flee_step, AIPathfinding,
    AIPathfindingConfig, EnhancedAIBundle, PathfindingAlgorithm,
};
use echos_in_the_dark::position::{Direction, Position};
use echos_in_the_dark::procgen::Rect;
use echos_in_the_dark::tile::{TileType, UndergroundType};
use echos_in_the_dark::turn_actor::TurnActor;

fn pos(x: i32, y: i32) -> Position {
    Position::new(x, y)
}

fn line(y: i32, from: i32, to: i32) -> Vec<Position> {
    (from..=to).map(|x| pos(x, y)).collect()
}

#[test]
fn next_step_follows_the_path() {
    let mut pf = AIPathfinding::new(PathfindingAlgorithm::AStar);
    assert_eq!(pf.get_next_step(pos(0, 0)), None);
    pf.current_path = line(0, 0, 3);
    assert_eq!(pf.get_next_step(pos(1, 0)), Some(pos(2, 0)));
    assert_eq!(pf.get_next_step(pos(3, 0)), None);
    assert_eq!(pf.get_next_step(pos(9, 9)), Some(pos(0, 0)));
}

#[test]
fn recalculation_is_due_after_the_threshold() {
    let mut pf = AIPathfinding::new(PathfindingAlgorithm::AStar);
    pf.last_recalculation = 10;
    assert!(!pf.needs_recalculation(14));
    assert!(pf.needs_recalculation(15));
    assert!(!pf.needs_recalculation(3));
}

#[test]
fn path_validity_checks_the_remaining_cells() {
    let mut pf = AIPathfinding::new(PathfindingAlgorithm::AStar);
    let open = |_p: Position| true;
    let nobody = |_p: Position| false;
    assert!(!pf.is_path_valid(pos(0, 0), &open, &nobody));
    pf.current_path = line(0, 0, 3);
    pf.target_position = Some(pos(3, 0));
    assert!(pf.is_path_valid(pos(1, 0), &open, &nobody));
    assert!(!pf.is_path_valid(pos(5, 5), &open, &nobody));
    let wall_at_2 = |p: Position| p != pos(2, 0);
    assert!(!pf.is_path_valid(pos(0, 0), &wall_at_2, &nobody));
    assert!(pf.is_path_valid(pos(2, 0), &wall_at_2, &nobody));
    let actor_on_target = |p: Position| p == pos(3, 0);
    assert!(pf.is_path_valid(pos(0, 0), &open, &actor_on_target));
    let actor_at_1 = |p: Position| p == pos(1, 0);
    assert!(!pf.is_path_valid(pos(0, 0), &open, &actor_at_1));
}

#[test]
fn calculate_path_falls_back_to_a_nearby_cell() {
    let mut pf = AIPathfinding::new(PathfindingAlgorithm::AStar);
    let none = |_a: Position, _b: Position| Vec::new();
    let near = |a: Position, _b: Position| vec![a, pos(a.x + 1, a.y)];
    assert!(pf.calculate_path(pos(0, 0), pos(5, 0), 7, &none, &near));
    assert_eq!(pf.current_path, vec![pos(0, 0), pos(1, 0)]);
    assert_eq!(pf.target_position, Some(pos(5, 0)));
    assert_eq!(pf.last_recalculation, 7);
    assert!(!pf.calculate_path(pos(0, 0), pos(5, 0), 8, &none, &none));
    assert!(pf.current_path.is_empty());
}

#[test]
fn enhanced_chase_steps_along_the_path() {
    let mut st = AIState { current_action: AIAction::Idle, target_position: None };
    let mut pf = AIPathfinding::new(PathfindingAlgorithm::AStar);
    let mut actor = TurnActor::new(100);
    let open = |_p: Position| true;
    let nobody = |_p: Position| false;
    let straight = |a: Position, b: Position| line(a.y, a.x, b.x);
    let none = |_a: Position, _b: Position| Vec::new();
    assert_eq!(
        enhanced_chase_step(ActionState::Init, &mut pf, &mut st, &mut actor, pos(0, 0), pos(3, 0), 0, &open, &nobody, &straight, &none),
        ActionState::Requested
    );
    let s = enhanced_chase_step(ActionState::Requested, &mut pf, &mut st, &mut actor, pos(0, 0), pos(3, 0), 0, &open, &nobody, &straight, &none);
    assert_eq!(s, ActionState::Executing);
    assert_eq!(st.current_action, AIAction::ChasePlayer);
    assert!(!actor.has_action());
    let s = enhanced_chase_step(ActionState::Executing, &mut pf, &mut st, &mut actor, pos(0, 0), pos(3, 0), 0, &open, &nobody, &straight, &none);
    assert_eq!(s, ActionState::Executing);
    assert!(actor.has_action());
    let mut actor2 = TurnActor::new(100);
    let s = enhanced_chase_step(ActionState::Executing, &mut pf, &mut st, &mut actor2, pos(2, 0), pos(3, 0), 0, &open, &nobody, &straight, &none);
    assert_eq!(s, ActionState::Success);
    let mut lost = AIPathfinding::new(PathfindingAlgorithm::AStar);
    let mut actor3 = TurnActor::new(100);
    let s = enhanced_chase_step(ActionState::Executing, &mut lost, &mut st, &mut actor3, pos(0, 0), pos(3, 0), 0, &open, &nobody, &none, &none);
    assert_eq!(s, ActionState::Failure);
    assert!(!actor3.has_action());
    let s = enhanced_chase_step(ActionState::Failure, &mut pf, &mut st, &mut actor3, pos(0, 0), pos(3, 0), 0, &open, &nobody, &none, &none);
    assert_eq!(s, ActionState::Init);
    assert!(pf.current_path.is_empty());
}

#[test]
fn enhanced_flee_without_a_target_steps_away() {
    let mut st = AIState { current_action: AIAction::Idle, target_position: None };
    let mut pf = AIPathfinding::new(PathfindingAlgorithm::AStar);
    let mut actor = TurnActor::new(100);
    let open = |_p: Position| true;
    let nobody = |_p: Position| false;
    let none = |_a: Position, _b: Position| Vec::new();
    let safe = |_p: Position| false;
    assert_eq!(
        enhanced_flee_step(ActionState::Requested, &mut pf, &mut st, &mut actor, pos(0, 0), None, None, 0, &open, &nobody, &none, &none, &safe),
        ActionState::Executing
    );
    assert_eq!(st.current_action, AIAction::FleeFromPlayer);
    let s = enhanced_flee_step(ActionState::Executing, &mut pf, &mut st, &mut actor, pos(0, 0), None, Some(Direction::West), 0, &open, &nobody, &none, &none, &safe);
    assert_eq!(s, ActionState::Success);
    assert!(actor.has_action());
}

#[test]
fn gen_config_settings_follow_depth() {
    let c = GenConfig::new(2, 40, 30);
    assert_eq!(c.underground_type, UndergroundType::Mine);
    assert_eq!(c.room_count, (3, 6));
    assert_eq!(c.ore_density, 30);
    let c = GenConfig::new(9, 40, 30);
    assert_eq!(c.underground_type, UndergroundType::Cave);
    assert_eq!(c.room_size, (3, 6));
    let c = GenConfig::new(20, 40, 30);
    assert_eq!(c.room_count, (8, 12));
    assert_eq!(c.echo_chamber_chance, 40);
}

fn floor_rooms(rooms: &[Rect]) -> GameMap {
    let mut level = GameMap::new(30, 20, 1, None);
    for r in rooms {
        for y in r.y1..=r.y2 {
            for x in r.x1..=r.x2 {
                level.set_tile(x, y, TileType::Floor);
            }
        }
    }
    level
}

#[test]
fn place_stairs_needs_two_rooms() {
    let mut c = GenConfig::new(1, 30, 20);
    c.rooms = vec![Rect::new(2, 2, 6, 6)];
    let mut level = floor_rooms(&c.rooms);
    let before = level.map.clone();
    let mut rng = fastrand::Rng::with_seed(7);
    c.place_stairs(&mut level, &mut rng);
    assert_eq!(level.map, before);
}

#[test]
fn place_stairs_puts_up_in_first_and_down_in_last_room() {
    let mut c = GenConfig::new(1, 30, 20);
    let late = Rect::new(18, 10, 6, 6);
    let early = Rect::new(2, 2, 6, 6);
    c.rooms = vec![late, early];
    let mut level = floor_rooms(&c.rooms);
    let mut rng = fastrand::Rng::with_seed(7);
    c.place_stairs(&mut level, &mut rng);
    let mut ups = Vec::new();
    let mut downs = Vec::new();
    for y in 0..20 {
        for x in 0..30 {
            match level.get_tile(x, y) {
                TileType::StairsUp => ups.push((x, y)),
                TileType::StairsDown => downs.push((x, y)),
                _ => {}
            }
        }
    }
    assert_eq!(ups.len(), 1);
    assert_eq!(downs.len(), 1);
    let (ux, uy) = ups[0];
    assert!(early.x1 < ux && ux < early.x2 && early.y1 < uy && uy < early.y2);
    let (dx, dy) = downs[0];
    assert!(late.x1 < dx && dx < late.x2 && late.y1 < dy && dy < late.y2);
}

#[test]
fn test_enhanced_ai_bundle_creation() {
    let position = Position::new(5, 5);
    let bundle = EnhancedAIBundle::hostile(position, 6, 100);

    assert_eq!(bundle.position, position);
    assert_eq!(bundle.ai_behavior.behavior_type, AIBehaviorType::Hostile);
    assert_eq!(bundle.ai_behavior.detection_range, 6);
    assert_eq!(bundle.turn_actor.speed, 100);
}

#[test]
fn test_pathfinding_config() {
    let config = AIPathfindingConfig::default();

    assert_eq!(config.default_algorithm, PathfindingAlgorithm::AStar);
    assert_eq!(config.max_iterations, 1000);
    assert!(!config.allow_diagonal);
    assert_eq!(config.recalculation_threshold, 5);
    assert!(config.enable_path_caching);
}

#[test]
fn config_applies_to_searches_and_bundles_choose_algorithms() {
    let mut pf = AIPathfinding::new(PathfindingAlgorithm::Dijkstra);
    let config = AIPathfindingConfig {
        default_algorithm: PathfindingAlgorithm::AStar,
        max_iterations: 50,
        allow_diagonal: true,
        recalculation_threshold: 9,
        enable_path_caching: false,
    };
    apply_pathfinding_config(&config, &mut pf);
    assert_eq!(pf.max_iterations, 50);
    assert!(pf.allow_diagonal);
    assert_eq!(pf.recalculate_threshold, 9);
    assert_eq!(pf.algorithm, PathfindingAlgorithm::Dijkstra);
    let b = EnhancedAIBundle::neutral(Position::new(1, 1), 4, 80);
    assert_eq!(b.ai_pathfinding.algorithm, PathfindingAlgorithm::Dijkstra);
    let b = b.with_pathfinding_config(PathfindingAlgorithm::AStar, true, 10);
    assert_eq!(b.ai_pathfinding.algorithm, PathfindingAlgorithm::AStar);
    assert_eq!(b.ai_pathfinding.max_iterations, 10);
    assert!(b.ai_pathfinding.allow_diagonal);
}

#[test]
fn corridor_goes_row_first_from_an_even_start() {
    let c = GenConfig::new(1, 10, 10);
    let mut g = GameMap::new(10, 10, 1, None);
    c.carve_corridor(&mut g, (1, 1), (4, 3));
    for (x, y) in [(2, 1), (3, 1), (4, 1), (4, 2), (4, 3)] {
        assert_eq!(g.get_tile(x, y), TileType::Floor);
    }
    assert_eq!(g.get_tile(1, 1), TileType::Wall);
    assert_eq!(g.get_tile(1, 2), TileType::Wall);
    assert_eq!(g.get_tile(2, 2), TileType::Wall);
}

#[test]
fn corridor_goes_column_first_from_an_odd_start() {
    let c = GenConfig::new(1, 10, 10);
    let mut g = GameMap::new(10, 10, 1, None);
    c.carve_corridor(&mut g, (3, 4), (1, 2));
    for (x, y) in [(3, 3), (3, 2), (2, 2), (1, 2)] {
        assert_eq!(g.get_tile(x, y), TileType::Floor);
    }
    assert_eq!(g.get_tile(3, 4), TileType::Wall);
    assert_eq!(g.get_tile(2, 4), TileType::Wall);
}

#[test]
fn corridor_off_the_map_is_skipped() {
    let c = GenConfig::new(1, 5, 5);
    let mut g = GameMap::new(5, 5, 1, None);
    c.carve_corridor(&mut g, (2, 2), (7, 2));
    assert_eq!(g.get_tile(3, 2), TileType::Floor);
    assert_eq!(g.get_tile(4, 2), TileType::Floor);
    assert_eq!(g.map.len(), 25);
}
