use sprite_game::actor::{Actor, ActorType};
use sprite_game::constants::{GROUND_TILE_HEIGHT, GROUND_TILE_WIDTH, UNIT, WORLD_LIMIT};
use sprite_game::level_handler::{LevelBuilder, LevelError, LevelHandler, LevelTiles, TileType};
use sprite_game::primitives::{Direction, Rect, Vec2};

fn px(n: i64) -> i64 {
    n * UNIT
}

fn lines(text: &[&str]) -> Vec<String> {
    text.iter().map(|s| s.to_string()).collect()
}

fn tile_size() -> Vec2 {
    Vec2 { x: GROUND_TILE_WIDTH, y: GROUND_TILE_HEIGHT }
}

#[test]
fn tile_type_new_keeps_its_parts() {
    let t = TileType::new("GROUND", '#', 11, 1);
    assert_eq!(t.name, "GROUND");
    assert_eq!(t.char, '#');
    assert_eq!((t.x, t.y), (11, 1));
}

#[test]
fn tiles_are_found_by_their_character() {
    let tiles = LevelTiles::new();
    let expected = [
        ("EMPTY", ' ', 0, 0),
        ("GROUND", '#', 11, 1),
        ("TOP", '^', 1, 0),
        ("BOTTOM", 'v', 8, 4),
        ("LEFT", '<', 0, 1),
        ("RIGHT", '>', 3, 1),
        ("LEFT_RIGHT", 'H', 4, 1),
        ("TOP_LEFT", '\u{250c}', 0, 0),
        ("TOP_RIGHT", '\u{2510}', 2, 0),
        ("TOP_BOTTOM", '=', 1, 4),
        ("BOTTOM_LEFT", '\u{2514}', 7, 4),
        ("BOTTOM_RIGHT", '\u{2518}', 9, 4),
        ("TOP_BOTTOM_LEFT", '\u{251c}', 0, 4),
        ("TOP_BOTTOM_RIGHT", '\u{2524}', 2, 4),
        ("TOP_RIGHT_LEFT", '\u{252c}', 4, 0),
        ("BOTTOM_RIGHT_LEFT", '\u{2534}', 8, 4),
        ("ALL_BORDERS", '\u{253c}', 5, 2),
    ];
    for (name, c, x, y) in expected.iter() {
        let t = tiles.for_char(*c).unwrap();
        assert_eq!(t.name, *name);
        assert_eq!(t.char, *c);
        assert_eq!((t.x, t.y), (*x, *y));
    }
    assert_eq!(tiles.empty().char, ' ');
    assert_eq!(tiles.empty().name, "EMPTY");
}

#[test]
fn unknown_character_has_no_tile() {
    let tiles = LevelTiles::new();
    assert!(tiles.for_char('x').is_none());
    assert!(tiles.for_char('\n').is_none());
    assert!(tiles.for_char('\u{2500}').is_none());
}

#[test]
fn read_row_fills_a_short_line_with_empty_tiles() {
    let tiles = LevelTiles::new();
    let row = LevelBuilder::read_row(&tiles, "#^", 5).unwrap();
    let chars: Vec<char> = row.iter().map(|t| t.char).collect();
    assert_eq!(chars, vec!['#', '^', ' ', ' ', ' ']);
    let names: Vec<&str> = row.iter().map(|t| t.name).collect();
    assert_eq!(names, vec!["GROUND", "TOP", "EMPTY", "EMPTY", "EMPTY"]);
}

#[test]
fn read_row_drops_what_is_past_the_width() {
    let tiles = LevelTiles::new();
    let row = LevelBuilder::read_row(&tiles, "#^v<>", 3).unwrap();
    let chars: Vec<char> = row.iter().map(|t| t.char).collect();
    assert_eq!(chars, vec!['#', '^', 'v']);
    // an unknown character past the width is never looked at
    let row = LevelBuilder::read_row(&tiles, "##x", 2).unwrap();
    assert_eq!(row.len(), 2);
    assert_eq!(LevelBuilder::read_row(&tiles, "anything", 0).unwrap().len(), 0);
}

#[test]
fn read_row_counts_characters_not_bytes() {
    let tiles = LevelTiles::new();
    let row = LevelBuilder::read_row(&tiles, "\u{250c}=\u{2510}#", 3).unwrap();
    let names: Vec<&str> = row.iter().map(|t| t.name).collect();
    assert_eq!(names, vec!["TOP_LEFT", "TOP_BOTTOM", "TOP_RIGHT"]);
}

#[test]
fn read_row_reports_the_first_unknown_character() {
    let tiles = LevelTiles::new();
    assert_eq!(
        LevelBuilder::read_row(&tiles, "#?#!", 4).err(),
        Some(LevelError::UnknownTile('?'))
    );
    assert_eq!(
        LevelBuilder::read_row(&tiles, "##!?", 3).err(),
        Some(LevelError::UnknownTile('!'))
    );
}

#[test]
fn load_level_reads_at_most_height_lines() {
    let tiles = LevelTiles::new();
    let text = lines(&["#", "^^", "", "vvvv", "?"]);
    let grid = LevelBuilder::load_level(&text, &tiles, 3, 4).unwrap();
    assert_eq!(grid.len(), 4);
    let shown: Vec<String> =
        grid.iter().map(|row| row.iter().map(|t| t.char).collect()).collect();
    assert_eq!(shown, vec!["#  ", "^^ ", "   ", "vvv"]);
    let grid = LevelBuilder::load_level(&text, &tiles, 1, 10);
    assert_eq!(grid.err(), Some(LevelError::UnknownTile('?')));
    let short = LevelBuilder::load_level(&lines(&["#"]), &tiles, 2, 5).unwrap();
    assert_eq!(short.len(), 1);
}

#[test]
fn load_level_reports_the_first_line_in_error() {
    let tiles = LevelTiles::new();
    let text = lines(&["##", "#a", "b#", "#c"]);
    assert_eq!(
        LevelBuilder::load_level(&text, &tiles, 2, 4).err(),
        Some(LevelError::UnknownTile('a'))
    );
    assert_eq!(
        LevelBuilder::load_level(&text, &tiles, 1, 4).err(),
        Some(LevelError::UnknownTile('b'))
    );
    assert!(LevelBuilder::load_level(&text, &tiles, 1, 2).is_ok());
    assert!(LevelBuilder::load_level(&text, &tiles, 2, 1).is_ok());
}

#[test]
fn create_ground_places_a_block_on_the_grid() {
    let tile = TileType::new("TOP", '^', 1, 0);
    let a: Actor = Actor::create_ground(&tile, 3, 2, tile_size());
    assert_eq!(a.tag, ActorType::GroundBlock { x: 1, y: 0 });
    assert_eq!(a.pos, Vec2 { x: px(96), y: px(64) });
    assert_eq!(a.bbox, Rect { x: px(96), y: px(64), w: px(32), h: px(32) });
    assert_eq!(a.sprite_size, tile_size());
    assert_eq!(a.draw_offset, Vec2 { x: 0, y: 0 });
    assert_eq!(a.facing, Direction::Right);
    assert_eq!(a.draw_rect(), a.bbox);
    assert_eq!(a.tile_offset(5), (1, 0));
}

#[test]
fn actor_type_is_written_as_text() {
    assert_eq!(ActorType::Player.to_string(), "Player");
    assert_eq!(ActorType::GroundBlock { x: 11, y: 1 }.to_string(), "Ground(11,1)");
    assert_eq!(ActorType::GroundBlock { x: 0, y: 0 }.to_string(), "Ground(0,0)");
    assert_eq!(ActorType::GroundBlock { x: 10, y: 909 }.to_string(), "Ground(10,909)");
    assert_eq!(
        ActorType::GroundBlock { x: usize::MAX, y: 1234567890 }.to_string(),
        format!("Ground({},1234567890)", usize::MAX)
    );
}

#[test]
fn create_tile_skips_the_empty_tile() {
    let tiles = LevelTiles::new();
    assert!(LevelBuilder::create_tile(&tiles.empty(), 0, 0, tile_size()).is_none());
    let ground = tiles.for_char('#').unwrap();
    let a = LevelBuilder::create_tile(&ground, 1, 1, tile_size()).unwrap();
    assert_eq!(a.tag, ActorType::GroundBlock { x: 11, y: 1 });
    assert_eq!(a.pos, Vec2 { x: px(32), y: px(32) });
}

#[test]
fn create_actors_turns_the_text_upside_down() {
    let tiles = LevelTiles::new();
    let grid = LevelBuilder::load_level(&lines(&["^ ", " #", "#v"]), &tiles, 2, 3).unwrap();
    let actors = LevelBuilder::create_actors(&grid, tile_size());
    let placed: Vec<(ActorType, i64, i64)> =
        actors.iter().map(|a| (a.tag, a.pos.x / UNIT, a.pos.y / UNIT)).collect();
    assert_eq!(
        placed,
        vec![
            (ActorType::GroundBlock { x: 1, y: 0 }, 0, 64),
            (ActorType::GroundBlock { x: 11, y: 1 }, 32, 32),
            (ActorType::GroundBlock { x: 11, y: 1 }, 0, 0),
            (ActorType::GroundBlock { x: 8, y: 4 }, 32, 0),
        ]
    );
    for a in actors.iter() {
        assert_eq!(a.bbox, Rect { x: a.pos.x, y: a.pos.y, w: px(32), h: px(32) });
    }
}

#[test]
fn place_actors_counts_rows_from_the_top_of_the_level() {
    let tiles = LevelTiles::new();
    let grid = LevelBuilder::load_level(&lines(&["^ ", " #"]), &tiles, 2, 5).unwrap();
    assert_eq!(grid.len(), 2);
    let actors = LevelBuilder::place_actors(&grid, 5, tile_size());
    let placed: Vec<(i64, i64)> =
        actors.iter().map(|a| (a.pos.x / UNIT, a.pos.y / UNIT)).collect();
    assert_eq!(placed, vec![(0, 128), (32, 96)]);
    let same: Vec<(i64, i64)> = LevelBuilder::place_actors(&grid, 2, tile_size())
        .iter()
        .map(|a| (a.pos.x / UNIT, a.pos.y / UNIT))
        .collect();
    let created: Vec<(i64, i64)> = LevelBuilder::create_actors(&grid, tile_size())
        .iter()
        .map(|a| (a.pos.x / UNIT, a.pos.y / UNIT))
        .collect();
    assert_eq!(same, vec![(0, 32), (32, 0)]);
    assert_eq!(created, same);
}

#[test]
fn level_new_builds_blocks_of_ground_tile_size() {
    let level = LevelHandler::new(&lines(&["", "##"]), 40, 2).unwrap();
    assert_eq!(level.actors.len(), 2);
    assert_eq!(level.actors[0].bbox, Rect { x: 0, y: 0, w: px(32), h: px(32) });
    assert_eq!(level.actors[1].bbox, Rect { x: px(32), y: 0, w: px(32), h: px(32) });
}

#[test]
fn first_line_is_the_top_row_of_the_level() {
    // one line in a level of 23 rows: the block is in the top row
    let level = LevelHandler::new(&lines(&["#"]), 40, 23).unwrap();
    assert_eq!(level.actors.len(), 1);
    assert_eq!(level.actors[0].bbox, Rect { x: 0, y: px(22 * 32), w: px(32), h: px(32) });
    assert!(level.is_valid());
    // a short text and the same text filled up with empty lines agree
    let short = LevelHandler::new(&lines(&["", "##"]), 40, 23).unwrap();
    let mut text = vec!["", "##"];
    text.resize(23, "");
    let full = LevelHandler::new(&lines(&text), 40, 23).unwrap();
    assert_eq!(short.actors.len(), 2);
    assert_eq!(full.actors.len(), 2);
    for (a, b) in short.actors.iter().zip(full.actors.iter()) {
        assert_eq!(a.bbox, b.bbox);
        assert_eq!(a.tag, b.tag);
    }
    assert_eq!(short.actors[0].bbox, Rect { x: 0, y: px(21 * 32), w: px(32), h: px(32) });
    assert_eq!(short.actors[1].bbox, Rect { x: px(32), y: px(21 * 32), w: px(32), h: px(32) });
    // lines past the height are not read: the last line read is the bottom row
    let long = LevelHandler::new(&lines(&["#", " #", "  #"]), 40, 2).unwrap();
    assert_eq!(long.actors.len(), 2);
    assert_eq!(long.actors[0].pos, Vec2 { x: 0, y: px(32) });
    assert_eq!(long.actors[1].pos, Vec2 { x: px(32), y: 0 });
}

#[test]
fn validity_of_a_level_can_be_tested() {
    let mut level = LevelHandler::new(&lines(&["# #", "###"]), 3, 2).unwrap();
    assert!(level.is_valid());
    assert!(level.actors.iter().all(|a| a.is_valid()));
    level.actors[1].pos.x += 1;
    assert!(!level.is_valid());
    level.actors[1].update_bbox();
    // the block now reaches out of the level by one unit
    assert!(level.actors[1].is_valid());
    assert!(!level.is_valid());
    level.actors[1].pos.x -= 2;
    level.actors[1].update_bbox();
    assert!(level.is_valid());
    assert!(LevelHandler::new(&lines(&[]), 0, 0).unwrap().is_valid());
}

#[test]
fn level_with_missing_tile_fails_to_load() {
    let level = LevelHandler::new(&lines(&["##", "#@"]), 40, 23);
    assert_eq!(level.err(), Some(LevelError::UnknownTile('@')));
}

#[test]
fn level_with_bad_tile_size_fails_to_load() {
    let text = lines(&["#"]);
    for size in [Vec2 { x: 0, y: 10 }, Vec2 { x: 10, y: 0 }, Vec2 { x: -1, y: 5 }, Vec2 { x: 5, y: -5 }] {
        assert_eq!(
            LevelHandler::with_tile_size(&text, 1, 1, size).err(),
            Some(LevelError::InvalidTileSize)
        );
    }
    // the tile size is looked at before the text
    assert_eq!(
        LevelHandler::with_tile_size(&lines(&["?"]), 1, 1, Vec2 { x: 0, y: 0 }).err(),
        Some(LevelError::InvalidTileSize)
    );
}

#[test]
fn level_larger_than_the_world_fails_to_load() {
    let text = lines(&["#"]);
    let size = Vec2 { x: WORLD_LIMIT / 10, y: 1 };
    assert!(LevelHandler::with_tile_size(&text, 10, 1, size).is_ok());
    assert_eq!(
        LevelHandler::with_tile_size(&text, 11, 1, size).err(),
        Some(LevelError::TooLarge)
    );
    let size = Vec2 { x: 1, y: WORLD_LIMIT };
    assert!(LevelHandler::with_tile_size(&text, 1, 1, size).is_ok());
    assert_eq!(
        LevelHandler::with_tile_size(&text, 1, 2, size).err(),
        Some(LevelError::TooLarge)
    );
    assert_eq!(
        LevelHandler::with_tile_size(&lines(&["?"]), usize::MAX, usize::MAX, Vec2 { x: i64::MAX, y: i64::MAX })
            .err(),
        Some(LevelError::TooLarge)
    );
}

#[test]
fn get_collisions_returns_overlapping_blocks_in_level_order() {
    let level = LevelHandler::new(&lines(&["####", "#  #", "####"]), 4, 3).unwrap();
    assert_eq!(level.actors.len(), 10);
    let probe = Rect { x: px(20), y: px(20), w: px(30), h: px(30) };
    let hits = level.get_collisions(&probe);
    let at: Vec<(i64, i64)> = hits.iter().map(|a| (a.pos.x / UNIT, a.pos.y / UNIT)).collect();
    assert_eq!(at, vec![(0, 32), (0, 0), (32, 0)]);
    let everything = Rect { x: px(-10), y: px(-10), w: px(500), h: px(500) };
    let all = level.get_collisions(&everything);
    assert_eq!(all.len(), 10);
    for (hit, actor) in all.iter().zip(level.actors.iter()) {
        assert_eq!(hit.bbox, actor.bbox);
        assert_eq!(hit.tag, actor.tag);
    }
}

#[test]
fn queries_miss_what_they_only_touch() {
    let level = LevelHandler::new(&lines(&["#"]), 1, 1).unwrap();
    let above = Rect { x: 0, y: px(32), w: px(32), h: px(32) };
    assert!(level.get_collisions(&above).is_empty());
    assert!(!level.collides_with(&above));
    let beside = Rect { x: px(32), y: 0, w: px(5), h: px(5) };
    assert!(level.get_collisions(&beside).is_empty());
    assert!(!level.collides_with(&beside));
    let inside = Rect { x: px(31), y: px(31), w: px(5), h: px(5) };
    assert_eq!(level.get_collisions(&inside).len(), 1);
    assert!(level.collides_with(&inside));
}

#[test]
fn queries_in_the_hole_and_outside_the_level_find_nothing() {
    let level = LevelHandler::new(&lines(&["####", "#  #", "####"]), 4, 3).unwrap();
    let hole = Rect { x: px(40), y: px(33), w: px(40), h: px(30) };
    assert!(level.get_collisions(&hole).is_empty());
    assert!(!level.collides_with(&hole));
    let far = Rect { x: px(1000), y: px(1000), w: px(10), h: px(10) };
    assert!(level.get_collisions(&far).is_empty());
    assert!(!level.collides_with(&far));
    let below = Rect { x: 0, y: px(-50), w: px(10), h: px(50) };
    assert!(!level.collides_with(&below));
    let empty = LevelHandler::new(&lines(&[]), 0, 0).unwrap();
    assert!(!empty.collides_with(&far));
    assert!(empty.get_collisions(&hole).is_empty());
}

#[test]
fn collides_with_agrees_with_get_collisions() {
    let level = LevelHandler::new(&lines(&["# # ", "", " ## "]), 4, 3).unwrap();
    let mut y = -40;
    while y < 140 {
        let mut x = -40;
        while x < 180 {
            let probe = Rect { x: px(x), y: px(y), w: px(20), h: px(12) };
            assert_eq!(level.collides_with(&probe), !level.get_collisions(&probe).is_empty());
            x += 7;
        }
        y += 7;
    }
}
