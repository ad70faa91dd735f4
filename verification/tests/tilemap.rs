use platformer_core::tilemap::{Block, TileMap, DEBUG_MAP};

#[test]
fn debug_map_holds_the_debug_cells() {
    let map = TileMap::default();
    assert_eq!(map.elements.len(), 20);
    for cell in DEBUG_MAP.iter() {
        assert_eq!(map.get(*cell), Some(Block {}));
    }
    assert_eq!(map.get((-6, 4)), Some(Block {}));
    assert_eq!(map.get((0, 0)), Some(Block {}));
    assert_eq!(map.get((5, 4)), Some(Block {}));
    assert_eq!(map.get((0, 1)), None);
    assert_eq!(map.get((4, -6)), None);
    assert_eq!(map.get((6, 0)), None);
}

#[test]
fn empty_map_holds_nothing() {
    let map = TileMap::new();
    assert!(map.elements.is_empty());
    assert_eq!(map.get((0, 0)), None);
}

#[test]
fn insert_keeps_one_block_per_cell() {
    let mut map = TileMap::new();
    map.insert((1, -1), Block {});
    map.insert((1, -1), Block {});
    map.insert((-1, 1), Block {});
    assert_eq!(map.elements, vec![((1, -1), Block {}), ((-1, 1), Block {})]);
    assert_eq!(map.get((1, -1)), Some(Block {}));
    assert_eq!(map.get((-1, 1)), Some(Block {}));
    assert_eq!(map.get((1, 1)), None);
}
