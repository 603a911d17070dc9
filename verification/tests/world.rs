use echos_in_the_dark::action::{ActionCategory, ActionType};
use echos_in_the_dark::gamemap::GameMap;
use echos_in_the_dark::player::{decide_player_input, KeyInput, PlayerAction};
use echos_in_the_dark::position::{
    calculate_direction_away_from_target, calculate_direction_to_target, in_attack_range,
    is_diagonal_adjacent, position_to_direction, signum, Direction, Position,
};
use echos_in_the_dark::procgen::{
    count_walls, generate_cave, generate_dark_adventure, generate_mine, generate_surface_level,
    generate_underground_levels, Rect,
};
use echos_in_the_dark::tile::{TileType, UndergroundType};

fn pos(x: i32, y: i32) -> Position {
    Position::new(x, y)
}

fn ring_is(level: &GameMap, t: TileType) -> bool {
    for x in 0..level.width {
        if level.get_tile(x, 0) != t || level.get_tile(x, level.height - 1) != t {
            return false;
        }
    }
    for y in 0..level.height {
        if level.get_tile(0, y) != t || level.get_tile(level.width - 1, y) != t {
            return false;
        }
    }
    true
}

#[test]
fn attack_range_is_distance_one() {
    assert!(in_attack_range(&pos(3, 3), &pos(3, 4)));
    assert!(in_attack_range(&pos(3, 3), &pos(3, 3)));
    assert!(!in_attack_range(&pos(3, 3), &pos(4, 4)));
    assert!(!in_attack_range(&pos(0, 0), &pos(0, 2)));
}

#[test]
fn diagonal_adjacency() {
    assert!(is_diagonal_adjacent(&pos(0, 0), &pos(1, 1)));
    assert!(is_diagonal_adjacent(&pos(5, 5), &pos(4, 6)));
    assert!(!is_diagonal_adjacent(&pos(0, 0), &pos(1, 0)));
    assert!(!is_diagonal_adjacent(&pos(0, 0), &pos(2, 2)));
}

#[test]
fn directions_toward_and_away() {
    assert_eq!(calculate_direction_to_target(&pos(0, 0), &pos(3, -2)), Some(Direction::NorthEast));
    assert_eq!(calculate_direction_to_target(&pos(0, 0), &pos(0, 9)), Some(Direction::South));
    assert_eq!(calculate_direction_to_target(&pos(2, 2), &pos(2, 2)), None);
    assert_eq!(
        calculate_direction_to_target(&pos(i32::MIN, 0), &pos(i32::MAX, 0)),
        Some(Direction::East)
    );
    assert_eq!(calculate_direction_away_from_target(&pos(1, 1), &pos(1, 1)), Some(Direction::North));
    assert_eq!(calculate_direction_away_from_target(&pos(0, 0), &pos(1, 0)), Some(Direction::West));
    assert_eq!(calculate_direction_away_from_target(&pos(0, 0), &pos(-4, -4)), Some(Direction::SouthEast));
}

#[test]
fn cardinal_step_direction() {
    assert_eq!(position_to_direction(pos(0, 0), pos(0, -1)), Some(Direction::North));
    assert_eq!(position_to_direction(pos(0, 0), pos(5, 0)), Some(Direction::East));
    assert_eq!(position_to_direction(pos(0, 0), pos(1, 1)), None);
    assert_eq!(position_to_direction(pos(0, 0), pos(0, 0)), None);
}

#[test]
fn direction_offsets_round_trip() {
    for d in [
        Direction::North,
        Direction::NorthEast,
        Direction::East,
        Direction::SouthEast,
        Direction::South,
        Direction::SouthWest,
        Direction::West,
        Direction::NorthWest,
    ] {
        let (dx, dy) = d.coord();
        assert_eq!(Direction::from_coord(dx, dy), d);
        let p = pos(10, 10).step(d);
        assert_eq!(p, pos(10 + dx, 10 + dy));
    }
    assert_eq!(signum(-7), -1);
    assert_eq!(signum(0), 0);
    assert_eq!(pos(1, 2).distance_squared(&pos(4, 6)), 25);
    assert_eq!(pos(3, 4).x(), 3);
    assert_eq!(pos(3, 4).y(), 4);
}

#[test]
fn action_categories() {
    assert_eq!(ActionType::Wait.category(), ActionCategory::Wait);
    assert_eq!(ActionType::MoveDelta(Direction::East).category(), ActionCategory::Movement);
    assert_eq!(ActionType::Move(pos(1, 1)).category(), ActionCategory::Movement);
    assert_eq!(ActionType::Attack(pos(1, 1)).category(), ActionCategory::Attack);
    assert!(!ActionType::Attack(pos(1, 1)).can_interrupt());
}

#[test]
fn tile_properties() {
    assert_eq!(TileType::Wall.texture_index(), 0);
    assert_eq!(TileType::CaveFloor.texture_index(), 5);
    assert_eq!(TileType::UnstableWall.texture_index(), 16);
    assert!(TileType::MineFloor.is_walkable());
    assert!(TileType::StairsDown.is_walkable());
    assert!(!TileType::GasPocket.is_walkable());
    assert!(TileType::IronOre.is_ore());
    assert!(!TileType::CaveWall.is_ore());
    assert!(TileType::UnstableWall.is_mineable());
    assert!(!TileType::Floor.is_mineable());
}

#[test]
fn map_reads_and_writes() {
    let mut level = GameMap::new(4, 3, 2, Some(UndergroundType::Cave));
    assert_eq!(level.map.len(), 12);
    assert!(level.in_bounds(3, 2));
    assert!(!level.in_bounds(4, 0));
    assert_eq!(level.get_index(1, 2), 9);
    level.set_tile(1, 2, TileType::Floor);
    assert_eq!(level.get_tile(1, 2), TileType::Floor);
    assert_eq!(level.map[9], TileType::Floor);
    level.set_tile(-1, 0, TileType::Floor);
    assert_eq!(level.get_tile(-1, 0), TileType::Wall);
    assert_eq!(level.get_tile(0, 0), TileType::Wall);
}

#[test]
fn rectangles() {
    let r = Rect::new(2, 3, 4, 6);
    assert_eq!((r.x1, r.y1, r.x2, r.y2), (2, 3, 6, 9));
    assert_eq!(r.center(), (4, 6));
    assert!(r.intersect(&Rect::new(6, 9, 2, 2)));
    assert!(!r.intersect(&Rect::new(7, 0, 2, 2)));
    assert_eq!(Rect::new(-5, -5, 2, 2).center(), (-4, -4));
    let mut rng = rand::rng();
    for _ in 0..20 {
        let (x, y) = r.random_point(&mut rng);
        assert!(2 < x && x < 6 && 3 < y && y < 9);
    }
}

#[test]
fn wall_counting() {
    let mut level = GameMap::new(5, 5, 0, None);
    for y in 1..4 {
        for x in 1..4 {
            level.set_tile(x, y, TileType::CaveFloor);
        }
    }
    assert_eq!(count_walls(&level, 2, 2), 0);
    assert_eq!(count_walls(&level, 1, 1), 5);
    assert_eq!(count_walls(&level, 0, 0), 7);
}

#[test]
fn mines_are_ringed_by_mine_walls() {
    let mut rng = rand::rng();
    for _ in 0..5 {
        let mut level = GameMap::new(48, 48, 1, Some(UndergroundType::Mine));
        generate_mine(&mut level, &mut rng, 5, 1);
        assert!(ring_is(&level, TileType::MineWall));
        assert_eq!(level.map.len(), 48 * 48);
        assert!(level.map.iter().any(|t| t.is_walkable()));
    }
}

#[test]
fn caves_are_ringed_by_cave_walls() {
    let mut rng = rand::rng();
    for _ in 0..5 {
        let mut level = GameMap::new(40, 30, 2, Some(UndergroundType::Cave));
        generate_cave(&mut level, &mut rng, 7, 2);
        assert!(ring_is(&level, TileType::CaveWall));
    }
}

#[test]
fn dark_adventures_are_ringed_by_cave_walls() {
    let mut rng = rand::rng();
    for _ in 0..5 {
        let mut level = GameMap::new(30, 30, 3, Some(UndergroundType::DarkAdventure));
        generate_dark_adventure(&mut level, &mut rng, 3);
        assert!(ring_is(&level, TileType::CaveWall));
        assert!(!level.map.contains(&TileType::MineWall));
        assert!(!level.map.contains(&TileType::MineFloor));
    }
}

#[test]
fn surface_level_layout() {
    let mut rng = rand::rng();
    let level = generate_surface_level(&mut rng, 80, 50);
    assert_eq!((level.width, level.height, level.depth), (80, 50, 0));
    assert!(ring_is(&level, TileType::Wall));
    let stairs: Vec<(i32, i32)> = (0..50)
        .flat_map(|y| (0..80).map(move |x| (x, y)))
        .filter(|&(x, y)| level.get_tile(x, y) == TileType::StairsDown)
        .collect();
    assert_eq!(stairs.len(), 1);
    let (sx, sy) = stairs[0];
    assert!((5..75).contains(&sx) && (5..45).contains(&sy));
    let floors = level.map.iter().filter(|&&t| t == TileType::Floor).count();
    assert_eq!(floors, 78 * 48 - 1);
}

#[test]
fn underground_levels() {
    let mut rng = rand::rng();
    let (mine, cave, dark) = generate_underground_levels(&mut rng);
    assert_eq!((mine.width, mine.height, mine.depth), (48, 48, 1));
    assert_eq!(mine.underground_type, Some(UndergroundType::Mine));
    assert!(ring_is(&mine, TileType::MineWall));
    assert_eq!((cave.width, cave.height, cave.depth), (64, 64, 2));
    assert!(ring_is(&cave, TileType::CaveWall));
    assert_eq!((dark.width, dark.height, dark.depth), (80, 80, 3));
    assert_eq!(dark.underground_type, Some(UndergroundType::DarkAdventure));
    assert!(ring_is(&dark, TileType::CaveWall));
}

#[test]
fn player_action_directions() {
    assert_eq!(PlayerAction::NorthWest.direction(), Some(Direction::NorthWest));
    assert_eq!(PlayerAction::South.direction(), Some(Direction::South));
    assert_eq!(PlayerAction::Wait.direction(), None);
    let all = PlayerAction::directions();
    assert_eq!(all.len(), 8);
    assert_eq!(all[0], PlayerAction::NorthWest);
    assert_eq!(all[7], PlayerAction::West);
    assert!(all.iter().all(|a| a.direction().is_some()));
}

fn keys(pressed: &[(usize, bool, bool)]) -> Vec<KeyInput> {
    let mut v = vec![KeyInput { just_pressed: false, held_long: false }; 8];
    for &(i, just, held) in pressed {
        v[i] = KeyInput { just_pressed: just, held_long: held };
    }
    v
}

#[test]
fn player_input_choice() {
    assert_eq!(decide_player_input(false, &keys(&[]), true), (None, false));
    assert_eq!(decide_player_input(true, &keys(&[]), false), (Some(ActionType::Wait), false));
    assert_eq!(
        decide_player_input(true, &keys(&[(1, true, false)]), false),
        (Some(ActionType::MoveDelta(Direction::North)), true)
    );
    assert_eq!(
        decide_player_input(false, &keys(&[(3, false, true)]), false),
        (None, false)
    );
    assert_eq!(
        decide_player_input(false, &keys(&[(3, false, true)]), true),
        (Some(ActionType::MoveDelta(Direction::East)), true)
    );
    assert_eq!(
        decide_player_input(false, &keys(&[(2, false, true), (6, false, true)]), true),
        (Some(ActionType::MoveDelta(Direction::NorthEast)), true)
    );
    assert_eq!(
        decide_player_input(false, &keys(&[(0, true, false), (5, true, false)]), false),
        (Some(ActionType::MoveDelta(Direction::South)), true)
    );
}

fn count_tiles(level: &GameMap, t: TileType) -> usize {
    level.map.iter().filter(|&&x| x == t).count()
}

#[test]
fn mine_holds_mine_tiles_and_one_stairs_up() {
    let mut rng = rand::rng();
    for _ in 0..5 {
        let mut level = GameMap::new(48, 48, 1, Some(UndergroundType::Mine));
        generate_mine(&mut level, &mut rng, 5, 1);
        for &t in level.map.iter() {
            assert!(matches!(
                t,
                TileType::MineWall | TileType::MineFloor | TileType::IronOre | TileType::CopperOre
                    | TileType::SonoriteOre | TileType::GlimmerstoneOre | TileType::WhisperingIronOre
                    | TileType::UnstableWall | TileType::GasPocket | TileType::StairsUp
                    | TileType::StairsDown
            ));
        }
        assert_eq!(count_tiles(&level, TileType::StairsUp), 1);
        assert!(count_tiles(&level, TileType::StairsDown) <= 1);
    }
}

#[test]
fn cave_and_dark_levels_hold_at_most_one_of_each_stairs() {
    let mut rng = rand::rng();
    let (_, cave, dark) = generate_underground_levels(&mut rng);
    for level in [&cave, &dark] {
        assert!(count_tiles(level, TileType::StairsUp) <= 1);
        assert!(count_tiles(level, TileType::StairsDown) <= 1);
        assert_eq!(count_tiles(level, TileType::MineWall), 0);
        assert_eq!(count_tiles(level, TileType::MineFloor), 0);
        assert_eq!(count_tiles(level, TileType::Floor), 0);
    }
}
