use tile_overlay::grid::TileGrid;
use tile_overlay::label::{plan_tile_labels, tile_label_text, u32_to_decimal};

#[test]
fn decimal_single_digits() {
    assert_eq!(u32_to_decimal(0), "0");
    assert_eq!(u32_to_decimal(7), "7");
    assert_eq!(u32_to_decimal(9), "9");
}

#[test]
fn decimal_multi_digits() {
    assert_eq!(u32_to_decimal(10), "10");
    assert_eq!(u32_to_decimal(105), "105");
    assert_eq!(u32_to_decimal(1000), "1000");
    assert_eq!(u32_to_decimal(u32::MAX), "4294967295");
}

#[test]
fn label_text_origin() {
    assert_eq!(tile_label_text(0, 0), "0, 0");
}

#[test]
fn label_text_mixed_widths() {
    assert_eq!(tile_label_text(12, 345), "12, 345");
    assert_eq!(tile_label_text(345, 12), "345, 12");
    assert_eq!(tile_label_text(u32::MAX, 1), "4294967295, 1");
}

#[test]
fn labels_distinguish_tiles() {
    // Same digit streams, different splits: the separator keeps them apart.
    assert_ne!(tile_label_text(1, 23), tile_label_text(12, 3));
    assert_ne!(tile_label_text(0, 1), tile_label_text(1, 0));
}

#[test]
fn plan_skipped_once_spawned() {
    let mut g = TileGrid::new(2, 2);
    g.set_tile(0, 0, 1);
    let mut spawned = true;
    assert!(plan_tile_labels(&g, &mut spawned).is_none());
    assert!(spawned);
}

#[test]
fn plan_of_empty_grid_spawns_nothing() {
    let g = TileGrid::new(3, 3);
    let mut spawned = false;
    let plan = plan_tile_labels(&g, &mut spawned).unwrap();
    assert!(plan.is_empty());
    assert!(!spawned);
}

#[test]
fn plan_lists_stored_tiles_in_row_major_order() {
    let mut g = TileGrid::new(3, 2);
    g.set_tile(2, 0, 20);
    g.set_tile(0, 1, 30);
    g.set_tile(1, 1, 31);
    let mut spawned = false;
    let plan = plan_tile_labels(&g, &mut spawned).unwrap();
    assert!(spawned);
    assert_eq!(plan.len(), 3);
    assert_eq!(plan[0].tile, 20);
    assert_eq!((plan[0].x, plan[0].y), (2, 0));
    assert_eq!(plan[0].text, "2, 0");
    assert_eq!(plan[1].tile, 30);
    assert_eq!((plan[1].x, plan[1].y), (0, 1));
    assert_eq!(plan[1].text, "0, 1");
    assert_eq!(plan[2].tile, 31);
    assert_eq!((plan[2].x, plan[2].y), (1, 1));
    assert_eq!(plan[2].text, "1, 1");
}

#[test]
fn plan_of_full_single_row() {
    let mut g = TileGrid::new(2, 1);
    g.set_tile(0, 0, 4);
    g.set_tile(1, 0, 5);
    let mut spawned = false;
    let plan = plan_tile_labels(&g, &mut spawned).unwrap();
    assert!(spawned);
    assert_eq!(plan.len(), 2);
    assert_eq!(plan[0].text, "0, 0");
    assert_eq!(plan[1].text, "1, 0");
}
