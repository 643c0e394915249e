use tile_overlay::cursor::latest_position;
use tile_overlay::highlight::HighlightState;

#[test]
fn no_events_keep_the_position() {
    let r = latest_position((10i64, 20i64), vec![]);
    assert_eq!(r, (10, 20));
}

#[test]
fn failed_projections_keep_the_position() {
    let r = latest_position(5u64, vec![None, None, None]);
    assert_eq!(r, 5);
}

#[test]
fn last_successful_projection_wins() {
    let r = latest_position(5u64, vec![None, Some(7), Some(9), None]);
    assert_eq!(r, 9);
    let r = latest_position(5u64, vec![Some(1)]);
    assert_eq!(r, 1);
    let r = latest_position((0i64, 0i64), vec![Some((1, 2)), Some((3, 4))]);
    assert_eq!(r, (3, 4));
}

#[test]
fn nothing_highlighted_at_start() {
    let s = HighlightState::new();
    assert!(s.currently_highlighted().is_empty());
}

#[test]
fn hovering_highlights_one_tile() {
    let mut s = HighlightState::new();
    let reset = s.retarget(Some(3));
    assert!(reset.is_empty());
    assert_eq!(s.currently_highlighted(), vec![3]);
}

#[test]
fn moving_the_hover_resets_the_old_label() {
    let mut s = HighlightState::new();
    s.retarget(Some(3));
    let reset = s.retarget(Some(4));
    assert_eq!(reset, vec![3]);
    assert_eq!(s.currently_highlighted(), vec![4]);
}

#[test]
fn leaving_the_map_clears_the_highlight() {
    let mut s = HighlightState::new();
    s.retarget(Some(3));
    let reset = s.retarget(None);
    assert_eq!(reset, vec![3]);
    assert!(s.currently_highlighted().is_empty());
}

#[test]
fn hovering_the_same_tile_repaints_it() {
    let mut s = HighlightState::new();
    s.retarget(Some(3));
    let reset = s.retarget(Some(3));
    assert_eq!(reset, vec![3]);
    assert_eq!(s.currently_highlighted(), vec![3]);
}
