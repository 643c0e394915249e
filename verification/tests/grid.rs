use tile_overlay::grid::TileGrid;

#[test]
fn new_grid_is_empty() {
    let g = TileGrid::new(4, 3);
    assert_eq!(g.width(), 4);
    assert_eq!(g.height(), 3);
    for y in 0..3 {
        for x in 0..4 {
            assert_eq!(g.get(x, y), None);
        }
    }
}

#[test]
fn set_then_get() {
    let mut g = TileGrid::new(4, 3);
    g.set_tile(2, 1, 42);
    assert_eq!(g.get(2, 1), Some(42));
    assert_eq!(g.get(1, 2), None);
    assert_eq!(g.get(0, 0), None);
}

#[test]
fn set_overwrites() {
    let mut g = TileGrid::new(2, 2);
    g.set_tile(1, 1, 7);
    g.set_tile(1, 1, 8);
    assert_eq!(g.get(1, 1), Some(8));
}

#[test]
fn other_slots_keep_their_tiles() {
    let mut g = TileGrid::new(3, 3);
    g.set_tile(0, 2, 10);
    g.set_tile(2, 0, 11);
    assert_eq!(g.get(0, 2), Some(10));
    assert_eq!(g.get(2, 0), Some(11));
    assert_eq!(g.get(1, 1), None);
}

#[test]
fn checked_get_inside_the_map() {
    let mut g = TileGrid::new(3, 2);
    g.set_tile(1, 0, 5);
    assert_eq!(g.checked_get(1, 0), Some(5));
    assert_eq!(g.checked_get(0, 0), None);
}

#[test]
fn checked_get_off_the_map() {
    let mut g = TileGrid::new(3, 2);
    g.set_tile(0, 0, 9);
    assert_eq!(g.checked_get(-1, 0), None);
    assert_eq!(g.checked_get(0, -1), None);
    assert_eq!(g.checked_get(3, 0), None);
    assert_eq!(g.checked_get(0, 2), None);
    assert_eq!(g.checked_get(i64::MIN, i64::MAX), None);
}

#[test]
fn zero_sized_grid_has_no_tiles() {
    let g = TileGrid::new(0, 0);
    assert_eq!(g.checked_get(0, 0), None);
}
