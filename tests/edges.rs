use surfboard::candidate::{Message, SearchHandler};
use surfboard::dictionary::{DictionaryIndex, QueryAnswer};
use surfboard::geometry::{
    contains, distance_squared, distance_squared_to_center, gaussian_falloff, turning_angle,
    unit_normal, Point, Rect,
};
use surfboard::trace::GestureHandler;

#[test]
fn empty_word_lists_match_nothing() {
    for text in [&b""[..], &b"  \n\t "[..]] {
        let dict = DictionaryIndex::build(text);
        let mut session = dict.inc_search();
        assert_eq!(session.query_incremental(b"a"), QueryAnswer::NoMatch);
        assert!(session.position().is_empty());
        assert!(!dict.is_strict_prefix(b""));
    }
}

#[test]
fn repeated_words_are_one_word() {
    let dict = DictionaryIndex::build(b"cat cat\ncat");
    let mut session = dict.inc_search();
    assert_eq!(session.query_incremental(b"cat"), QueryAnswer::Exact);
}

#[test]
fn extreme_coordinates() {
    let lo = Point::new(i32::MIN, i32::MIN);
    let hi = Point::new(i32::MAX, i32::MAX);
    let span = (i32::MAX as i128) - (i32::MIN as i128);
    assert_eq!(distance_squared(lo, hi), 2 * span * span);
    assert_eq!(
        turning_angle(Point::new(i32::MIN, 0), Point::new(i32::MAX, 0), Point::new(i32::MIN, 0)),
        0
    );
    assert_eq!(unit_normal(span as i64, 0), Point::new(0, 1000));
    assert_eq!(unit_normal(-(span as i64), -(span as i64)), Point::new(707, -707));
    assert_eq!(unit_normal(i64::MIN, i64::MIN), Point::new(707, -707));
    assert_eq!(unit_normal(i64::MAX, 0), Point::new(0, 1000));
    assert_eq!(gaussian_falloff(2 * span * span), 0);
    let r = Rect { x: i32::MAX, y: i32::MIN, width: u32::MAX, height: u32::MAX };
    assert!(contains(&r, Point::new(i32::MAX, 0)));
    assert!(!contains(&r, Point::new(i32::MAX, i32::MAX)));
    assert!(!contains(&r, Point::new(i32::MAX - 1, 0)));
    let cx = i32::MAX as i128 + (u32::MAX / 2) as i128;
    let dx = i32::MIN as i128 - cx;
    let cy = i32::MIN as i128 + (u32::MAX / 2) as i128;
    let dy = i32::MIN as i128 - cy;
    assert_eq!(distance_squared_to_center(&r, lo), dx * dx + dy * dy);
}

#[test]
fn trace_with_extreme_points() {
    let mut h = GestureHandler::new();
    h.update_move(Point::new(i32::MIN, i32::MIN), 0);
    h.update_move(Point::new(i32::MAX, i32::MAX), 1);
    h.update_move(Point::new(i32::MIN, i32::MAX), u64::MAX);
    let buffer = &h.current_gesture.as_ref().unwrap().buffer;
    assert_eq!(buffer.len(), 3);
    assert_eq!(buffer[1].tangent.dx, 0);
    assert_eq!(h.end(u64::MAX), None);
    assert_eq!(h.render_segments(0).len(), 1);
}

#[test]
fn closed_candidate_is_not_reopened() {
    let mut engine = SearchHandler::new();
    engine.update(Message::Update(b"a".to_vec(), Rect { x: 0, y: 0, width: 40, height: 40 }));
    engine.start();
    engine.update_move(Point::new(10, 10));
    engine.end();
    engine.update_move(Point::new(30, 30));
    assert_eq!(engine.weighted_items.len(), 2);
    assert!(engine.weighted_items[0].is_complete);
    assert!(!engine.weighted_items[1].is_complete);
}
