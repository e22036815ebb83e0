use surfboard::candidate::{Message, SearchHandler};
use surfboard::dictionary::{DictionaryIndex, QueryAnswer};
use surfboard::geometry::{
    distance_squared, gaussian_falloff, isqrt, turning_angle, unit_normal, Point, Rect,
};
use surfboard::trace::{action_direction, ActionDirection, GestureHandler, FADE_DURATION};

fn key(engine: &mut SearchHandler, text: &str, x: i32) {
    engine.update(Message::Update(
        text.as_bytes().to_vec(),
        Rect { x, y: 0, width: 40, height: 40 },
    ));
}

#[test]
fn dictionary_prefix_then_exact() {
    let dict = DictionaryIndex::build(b"cat car can");
    let mut session = dict.inc_search();
    assert_eq!(session.query_incremental(b"ca"), QueryAnswer::Prefix);
    session.reset();
    assert_eq!(session.query_incremental(b"cat"), QueryAnswer::Exact);
}

#[test]
fn dictionary_incremental_cursor_keeps_position() {
    let dict = DictionaryIndex::build(b"cat car can");
    let mut session = dict.inc_search();
    assert_eq!(session.query_incremental(b"c"), QueryAnswer::Prefix);
    assert_eq!(session.query_incremental(b"a"), QueryAnswer::Prefix);
    assert_eq!(session.query_incremental(b"n"), QueryAnswer::Exact);
    assert_eq!(session.position(), b"can".to_vec());
}

#[test]
fn dictionary_no_match_stops_cursor() {
    let dict = DictionaryIndex::build(b"cat car can");
    let mut session = dict.inc_search();
    assert_eq!(session.query_incremental(b"cx"), QueryAnswer::NoMatch);
    assert_eq!(session.position(), b"c".to_vec());
    session.reset();
    assert_eq!(session.query_incremental(b""), QueryAnswer::NoMatch);
    assert!(session.position().is_empty());
}

#[test]
fn dictionary_prefix_and_exact() {
    let dict = DictionaryIndex::build(b"app apple\n\tbetter");
    let mut session = dict.inc_search();
    assert_eq!(session.query_incremental(b"app"), QueryAnswer::PrefixAndExact);
    assert!(dict.contains(b"better"));
    assert!(!dict.contains(b"bet"));
    assert!(!dict.contains(b""));
    assert!(dict.is_strict_prefix(b"bet"));
    assert!(!dict.is_strict_prefix(b"better"));
}

#[test]
fn dictionary_every_word_round_trips() {
    let text = b"cat car can dog apple app a";
    let dict = DictionaryIndex::build(text);
    for word in ["cat", "car", "can", "dog", "apple", "app", "a"] {
        let mut session = dict.inc_search();
        let answer = session.query_incremental(word.as_bytes());
        assert!(answer.is_exact(), "{word}");
    }
}

#[test]
fn trace_rejects_close_point() {
    let mut handler = GestureHandler::new();
    assert!(handler.update_move(Point::new(100, 100), 0));
    assert!(!handler.update_move(Point::new(102, 100), 5));
    assert_eq!(handler.current_gesture.as_ref().unwrap().buffer.len(), 1);
}

#[test]
fn trace_tap_is_discarded() {
    let mut handler = GestureHandler::new();
    handler.start(0);
    assert_eq!(handler.end(30), None);
    assert!(handler.history.is_empty());
    assert!(handler.current_gesture.is_none());
    let mut engine = SearchHandler::new();
    engine.start();
    engine.end();
    assert!(engine.weighted_items.is_empty());
}

#[test]
fn trace_points_are_spaced_and_smoothed() {
    let mut handler = GestureHandler::new();
    for (i, x) in [0, 5, 20, 40, 41, 60].iter().enumerate() {
        handler.update_move(Point::new(*x, 0), i as u64);
    }
    let buffer = &handler.current_gesture.as_ref().unwrap().buffer;
    let xs: Vec<i32> = buffer.iter().map(|d| d.point.x).collect();
    assert_eq!(xs, vec![0, 20, 40, 60]);
    for pair in buffer.windows(2) {
        assert!(distance_squared(pair[0].point, pair[1].point) >= 225);
    }
    assert_eq!(buffer[0].normal, Point::new(0, 0));
    assert_eq!(buffer[1].tangent.dx, 40);
    assert_eq!(buffer[1].normal, Point::new(0, 1000));
    assert_eq!(buffer[3].tangent.dx, 20);
}

#[test]
fn trace_history_fades() {
    let mut handler = GestureHandler::new();
    handler.update_move(Point::new(0, 0), 0);
    handler.update_move(Point::new(50, 0), 300);
    assert_eq!(handler.end(400), None);
    assert_eq!(handler.history.len(), 1);
    let ribbons = handler.render_segments(500);
    assert_eq!(ribbons.len(), 1);
    assert_eq!(ribbons[0].len(), 2);
    assert_eq!(ribbons[0][0].width, 25000 * 300 / 800);
    assert_eq!(ribbons[0][0].opacity, 500 * 300 / 800);
    handler.render_segments(400 + FADE_DURATION);
    assert!(handler.history.is_empty());
}

#[test]
fn trace_history_kept_within_fade() {
    let mut handler = GestureHandler::new();
    handler.update_move(Point::new(0, 0), 1000);
    handler.end(1300);
    handler.update_move(Point::new(0, 0), 1500);
    handler.end(1900);
    handler.clear_history(2150);
    for g in &handler.history {
        assert!(2150 - g.end_instant.unwrap() < FADE_DURATION);
    }
    assert_eq!(handler.history.len(), 1);
}

#[test]
fn trace_short_trace_is_a_flick() {
    let mut handler = GestureHandler::new();
    handler.update_move(Point::new(100, 100), 0);
    handler.update_move(Point::new(100, 40), 50);
    assert_eq!(handler.end(100), Some(ActionDirection::Top));
    handler.update_move(Point::new(100, 100), 1000);
    handler.update_move(Point::new(160, 100), 1050);
    assert_eq!(handler.end(1100), Some(ActionDirection::Right));
    handler.update_move(Point::new(100, 100), 2000);
    handler.update_move(Point::new(160, 100), 2050);
    assert_eq!(handler.end(2400), None);
}

#[test]
fn geometry_exact_values() {
    assert_eq!(gaussian_falloff(0), 100);
    assert_eq!(gaussian_falloff(450), 36);
    assert_eq!(gaussian_falloff(2072), 1);
    assert_eq!(gaussian_falloff(2073), 0);
    assert_eq!(turning_angle(Point::new(-10, 0), Point::new(0, 0), Point::new(10, 0)), 180);
    assert_eq!(turning_angle(Point::new(-10, 0), Point::new(0, 0), Point::new(0, 10)), 270);
    assert_eq!(turning_angle(Point::new(-10, 0), Point::new(0, 0), Point::new(0, -10)), 90);
    assert_eq!(turning_angle(Point::new(10, 0), Point::new(0, 0), Point::new(10, 10)), 45);
    assert_eq!(unit_normal(3, 4), Point::new(-800, 600));
    assert_eq!(unit_normal(0, 0), Point::new(0, 0));
    assert_eq!(isqrt(10), 3);
    assert_eq!(isqrt(16), 4);
    assert_eq!(action_direction(Point::new(0, 0), Point::new(0, 50)), ActionDirection::Bottom);
    assert_eq!(action_direction(Point::new(0, 0), Point::new(-50, 0)), ActionDirection::Left);
    assert_eq!(action_direction(Point::new(0, 0), Point::new(50, -50)), ActionDirection::TopRight);
}

#[test]
fn engine_two_keys_scenario() {
    let mut engine = SearchHandler::new();
    key(&mut engine, "q", 0);
    key(&mut engine, "w", 40);
    engine.start();
    for y in [2, 10, 18, 26, 34] {
        assert!(engine.update_move(Point::new(20, y)));
    }
    for y in [5, 20, 35] {
        assert!(engine.update_move(Point::new(60, y)));
    }
    engine.end();
    let items = &engine.weighted_items;
    assert_eq!(items.len(), 2);
    assert!(items.iter().all(|c| c.is_complete));
    assert_eq!(items[0].text, b"q".to_vec());
    assert!(items[0].first_or_last_weight);
    assert_eq!(items[1].text, b"w".to_vec());
    assert!(items[1].first_or_last_weight);
    assert_eq!(items[0].points.len(), 5);
    assert_eq!(items[1].points.len(), 3);
}

#[test]
fn engine_single_open_candidate() {
    let mut engine = SearchHandler::new();
    key(&mut engine, "a", 0);
    key(&mut engine, "b", 40);
    key(&mut engine, "c", 80);
    engine.start();
    for x in [10, 50, 90, 50, 10] {
        engine.update_move(Point::new(x, 20));
        let open = engine.weighted_items.iter().filter(|c| !c.is_complete).count();
        assert_eq!(open, 1);
        assert!(!engine.weighted_items.last().unwrap().is_complete);
    }
    assert_eq!(engine.weighted_items.len(), 5);
}

#[test]
fn engine_weight_never_falls() {
    let mut engine = SearchHandler::new();
    key(&mut engine, "a", 0);
    engine.start();
    let mut previous = 0;
    for (x, y) in [(20, 20), (2, 2), (38, 2), (20, 20), (2, 38), (38, 38)] {
        engine.update_move(Point::new(x, y));
        let w = engine.weighted_items[0].weight;
        assert!(w >= previous);
        previous = w;
    }
    assert_eq!(engine.weighted_items[0].position_weight, 100);
}

#[test]
fn engine_miss_is_ignored() {
    let mut engine = SearchHandler::new();
    key(&mut engine, "a", 0);
    engine.start();
    assert!(!engine.update_move(Point::new(500, 500)));
    assert!(engine.weighted_items.is_empty());
    key(&mut engine, "a", 400);
    assert_eq!(engine.components.len(), 1);
    assert!(engine.update_move(Point::new(410, 10)));
    engine.update(Message::Reset);
    assert!(engine.components.is_empty());
    assert!(engine.weighted_items.is_empty());
}

#[test]
fn engine_search_answer_spells_word() {
    let mut engine = SearchHandler::with_dictionary(DictionaryIndex::build(b"cat car can"));
    key(&mut engine, "c", 0);
    key(&mut engine, "a", 40);
    key(&mut engine, "t", 80);
    engine.start();
    for x in [20, 20, 60, 60, 100, 100] {
        engine.update_move(Point::new(x, 20));
    }
    engine.end();
    assert_eq!(engine.answer, b"cat".to_vec());
    assert_eq!(engine.weighted_items[0].weight, 301);
}

#[test]
fn engine_low_weight_skipped() {
    let mut engine = SearchHandler::with_dictionary(DictionaryIndex::build(b"cat ct"));
    key(&mut engine, "c", 0);
    key(&mut engine, "a", 40);
    key(&mut engine, "t", 80);
    engine.start();
    // The "a" key is only grazed at its corner: too light to count.
    for (x, y) in [(20, 20), (20, 20), (41, 1), (100, 20), (100, 20)] {
        engine.update_move(Point::new(x, y));
    }
    engine.end();
    assert!(engine.weighted_items[1].weight < 100);
    assert_eq!(engine.answer, b"ct".to_vec());
}
