use kl_lords::terrain_painter::brush::{brush_step, BrushStep, TerrainTool};
use kl_lords::terrain_painter::chunk_text::{format_chunk_key, parse_chunk_key, parse_i32_range};
use kl_lords::terrain_painter::sculpt_map::{
    deserialize, serialize, vertex_cell, ChunkCoord, SculptMap, VertexCell,
};
use kl_lords::terrain_painter::undo_redo::{history_command, HistoryCommand, UndoStack, MAX_UNDO_ENTRIES};

fn offsets(value: f32) -> Vec<Vec<u32>> {
    vec![vec![value.to_bits(); 3]; 3]
}

#[test]
fn chunk_key_text_round_trip() {
    assert_eq!(format_chunk_key(3, -4), "3,-4");
    assert_eq!(parse_chunk_key("3,-4"), Some((3, -4)));
    assert_eq!(format_chunk_key(i32::MIN, i32::MAX), "-2147483648,2147483647");
    assert_eq!(parse_chunk_key(&format_chunk_key(i32::MIN, i32::MAX)), Some((i32::MIN, i32::MAX)));
    assert_eq!(parse_chunk_key("0,0"), Some((0, 0)));
}

#[test]
fn chunk_key_text_rejects_bad_keys() {
    assert_eq!(parse_chunk_key("a,b"), None);
    assert_eq!(parse_chunk_key("12"), None);
    assert_eq!(parse_chunk_key("1,2,3"), None);
    assert_eq!(parse_chunk_key("2147483648,0"), None);
    assert_eq!(parse_chunk_key(",5"), None);
    assert_eq!(parse_chunk_key("+5,-0"), Some((5, 0)));
    assert_eq!(parse_i32_range("x-17y", 1, 4), Some(-17));
    assert_eq!(parse_i32_range("-", 0, 1), None);
}

#[test]
fn sculpt_map_save_and_load() {
    let mut map = SculptMap::new();
    map.insert(ChunkCoord::new(0, 0), offsets(1.5));
    map.insert(ChunkCoord::new(-2, 7), offsets(-0.25));
    let pairs = serialize(&map.chunks);
    assert_eq!(pairs.len(), 2);
    let keys: Vec<&str> = pairs.iter().map(|(k, _)| k.as_str()).collect();
    assert!(keys.contains(&"0,0"));
    assert!(keys.contains(&"-2,7"));
    let loaded = deserialize(pairs);
    assert_eq!(loaded, map.chunks);
}

#[test]
fn sculpt_map_load_skips_bad_keys_and_keeps_last() {
    let pairs = vec![
        ("1,1".to_string(), offsets(1.0)),
        ("bad".to_string(), offsets(2.0)),
        ("1,1".to_string(), offsets(3.0)),
    ];
    let loaded = deserialize(pairs);
    assert_eq!(loaded.len(), 1);
    assert_eq!(loaded[&ChunkCoord::new(1, 1).key()], offsets(3.0));
}

#[test]
fn undo_restores_and_redo_reapplies() {
    let mut map = SculptMap::new();
    map.insert(ChunkCoord::new(0, 0), offsets(1.0));
    let coords = vec![ChunkCoord::new(0, 0), ChunkCoord::new(1, 0)];
    let entry = map.snapshot(&coords);
    map.insert(ChunkCoord::new(0, 0), offsets(2.0));
    map.insert(ChunkCoord::new(1, 0), offsets(5.0));
    let after = map.chunks.clone();
    let mut stack = UndoStack::default();
    stack.push(entry);
    assert!(stack.can_undo());
    assert!(!stack.can_redo());
    let changed = stack.undo(&mut map).unwrap();
    assert_eq!(changed.len(), 2);
    assert_eq!(map.get(ChunkCoord::new(0, 0)), Some(&offsets(1.0)));
    assert_eq!(map.get(ChunkCoord::new(1, 0)), None);
    assert!(stack.can_redo());
    let changed = stack.redo(&mut map).unwrap();
    assert_eq!(changed.len(), 2);
    assert_eq!(map.chunks, after);
    assert!(stack.redo(&mut map).is_none());
}

#[test]
fn undo_on_empty_history_changes_nothing() {
    let mut map = SculptMap::new();
    map.insert(ChunkCoord::new(4, 4), offsets(1.0));
    let mut stack = UndoStack::default();
    assert!(stack.undo(&mut map).is_none());
    assert_eq!(map.chunks.len(), 1);
}

#[test]
fn push_drops_redo_and_caps_history() {
    let map = SculptMap::new();
    let mut stack = UndoStack::default();
    for _ in 0..(MAX_UNDO_ENTRIES + 5) {
        stack.push(map.snapshot(&vec![ChunkCoord::new(0, 0)]));
    }
    assert_eq!(stack.undo_entries.len(), MAX_UNDO_ENTRIES);
    let mut working = SculptMap::new();
    stack.undo(&mut working);
    assert_eq!(stack.redo_entries.len(), 1);
    stack.push(map.snapshot(&vec![]));
    assert_eq!(stack.redo_entries.len(), 0);
}

#[test]
fn vertex_cell_finds_chunk_and_index() {
    // chunks 240 vertices apart, vertices numbered from 120 left of the centre
    let cell = vertex_cell(0, 0, 240, 120);
    assert_eq!(cell, VertexCell { chunk: ChunkCoord::new(0, 0), index_x: 120, index_z: 121 });
    let cell = vertex_cell(-121, 130, 240, 120);
    assert_eq!(cell.chunk, ChunkCoord::new(-1, 1));
    assert_eq!(cell.index_x, 239);
    assert_eq!(cell.index_z, 231);
}

#[test]
fn offset_lookup_in_sculpt_map() {
    let mut map = SculptMap::new();
    let mut grid = offsets(0.0);
    grid[2][1] = 4.0f32.to_bits();
    map.insert(ChunkCoord::new(0, 0), grid);
    let cell = VertexCell { chunk: ChunkCoord::new(0, 0), index_x: 1, index_z: 2 };
    assert_eq!(map.offset_at(cell), Some(4.0f32.to_bits()));
    let outside = VertexCell { chunk: ChunkCoord::new(0, 0), index_x: 3, index_z: 0 };
    assert_eq!(map.offset_at(outside), None);
    let elsewhere = VertexCell { chunk: ChunkCoord::new(1, 0), index_x: 0, index_z: 0 };
    assert_eq!(map.offset_at(elsewhere), None);
}

#[test]
fn brush_decisions() {
    assert_eq!(brush_step(false, false, false, true, true, false, TerrainTool::Raise), BrushStep::Idle);
    assert_eq!(brush_step(true, true, false, true, true, false, TerrainTool::Raise), BrushStep::Idle);
    assert_eq!(brush_step(true, false, true, true, true, false, TerrainTool::Flatten), BrushStep::SampleFlattenTarget);
    assert_eq!(brush_step(true, false, true, false, true, false, TerrainTool::Flatten), BrushStep::Idle);
    assert_eq!(brush_step(true, false, false, false, false, false, TerrainTool::Raise), BrushStep::Idle);
    assert_eq!(brush_step(true, false, false, false, true, false, TerrainTool::Raise), BrushStep::Paint { invert: false });
    assert_eq!(brush_step(true, false, false, false, false, true, TerrainTool::Lower), BrushStep::Paint { invert: true });
    assert_eq!(brush_step(true, false, false, false, false, true, TerrainTool::Smooth), BrushStep::Paint { invert: false });
}

#[test]
fn history_keys() {
    assert_eq!(history_command(true, false, true, false, true), HistoryCommand::Undo);
    assert_eq!(history_command(true, false, true, true, true), HistoryCommand::Redo);
    assert_eq!(history_command(true, false, false, false, true), HistoryCommand::Nothing);
    assert_eq!(history_command(true, true, true, false, true), HistoryCommand::Nothing);
    assert_eq!(history_command(false, false, true, false, true), HistoryCommand::Nothing);
    assert_eq!(history_command(true, false, true, false, false), HistoryCommand::Nothing);
}
