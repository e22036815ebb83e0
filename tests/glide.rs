use surfboard::dictionary::DictionaryIndex;
use surfboard::geometry::{Point, Rect};
use surfboard::glide::GlideTyping;

fn engine(words: &[u8]) -> GlideTyping {
    let mut g = GlideTyping::new(DictionaryIndex::build(words));
    for (i, key) in ["q", "w", "e", "r", "t", "y"].iter().enumerate() {
        g.report_key_region(
            key.as_bytes().to_vec(),
            Rect { x: 40 * i as i32, y: 0, width: 40, height: 40 },
        );
    }
    g
}

#[test]
fn glide_two_keys_both_complete_with_endpoint_bonus() {
    let mut g = engine(b"we wet");
    g.on_pointer_down(0);
    let mut t = 0;
    for y in [2, 10, 18, 26, 34] {
        t += 40;
        assert!(g.on_pointer_move(Point::new(20, y), t));
    }
    for y in [5, 20, 35] {
        t += 40;
        assert!(g.on_pointer_move(Point::new(60, y), t));
    }
    assert_eq!(g.on_pointer_up(t + 40), None);
    let items = &g.engine.weighted_items;
    assert_eq!(items.len(), 2);
    assert!(items[0].is_complete && items[1].is_complete);
    assert_eq!(items[0].text, b"q".to_vec());
    assert!(items[0].first_or_last_weight);
    assert_eq!(items[1].text, b"w".to_vec());
    assert!(items[1].first_or_last_weight);
    assert_eq!(g.trace.history.len(), 1);
}

#[test]
fn glide_tap_leaves_no_trace() {
    let mut g = engine(b"we");
    g.on_pointer_down(100);
    assert_eq!(g.on_pointer_up(140), None);
    assert!(g.trace.history.is_empty());
    assert!(g.trace.current_gesture.is_none());
    assert!(g.engine.weighted_items.is_empty());
    assert!(g.render_segments(150).is_empty());
}

#[test]
fn glide_predictions_and_ribbons() {
    let mut g = engine(b"wet we");
    g.on_pointer_down(0);
    for (i, x) in [60, 60, 100, 100, 180, 180].iter().enumerate() {
        g.on_pointer_move(Point::new(*x, 20), 10 * i as u64);
    }
    g.on_pointer_up(400);
    assert_eq!(g.engine.answer, b"wet".to_vec());
    let predictions = g.current_predictions();
    assert!(predictions.len() <= 3);
    assert!(predictions.iter().all(|w| w == &b"we".to_vec() || w == &b"wet".to_vec()));
    let ribbons = g.render_segments(450);
    assert_eq!(ribbons.len(), 1);
    assert_eq!(ribbons[0].len(), 3);
    assert!(g.render_segments(400 + 800).is_empty());
    g.clear_key_regions();
    assert!(g.engine.components.is_empty());
}
