use surfboard::beam::beam_search;
use surfboard::candidate::{Message, SearchHandler};
use surfboard::components::{has_root_table, App, KeyButton, Shortcut};
use surfboard::dictionary::DictionaryIndex;
use surfboard::geometry::{Point, Rect};
use surfboard::input::{Button, InputAction, InputEvent, InputHandler, NamedKey, PressType};
use surfboard::svg::{set_svg_fill, Path};
use surfboard::trace::{ActionDirection, GestureHandler};
use surfboard::window::{
    matching_listeners, Dock, ScreenEdge, Target, ViewHandler, ViewKind, WindowHandler,
};

fn lines(text: &[&str]) -> Vec<String> {
    text.iter().map(|l| l.to_string()).collect()
}

#[test]
fn svg_fill_inserted_before_tag_end() {
    let svg = b"<svg><path d=\"M0 0\"/></svg>";
    let out = set_svg_fill(svg, String::from("White"));
    assert_eq!(out, b"<svg><path d=\"M0 0\" fill=\"White\"/></svg>".to_vec());
}

#[test]
fn svg_invalid_utf8_is_replaced() {
    assert_eq!(set_svg_fill(&[0xff], String::from("red")), vec![0xef, 0xbf, 0xbd]);
    let out = set_svg_fill(b"<path\xff/>", String::from("red"));
    assert_eq!(out, b"<path\xef\xbf\xbd fill=\"red\"/>".to_vec());
}

#[test]
fn svg_without_path_is_unchanged() {
    let svg = b"<svg><rect/></svg>";
    assert_eq!(set_svg_fill(svg, String::from("red")), svg.to_vec());
    let svg = b"<svg/><path d=\"M0 0\">";
    assert_eq!(set_svg_fill(svg, String::from("red")), svg.to_vec());
}

#[test]
fn path_rules_and_command() {
    let mut path = Path::new();
    path.add_point([1, 2]);
    path.add_point([3, 4]);
    assert_eq!(path.rules, vec!["M 1 2 ".to_string(), "L 3 4 ".to_string()]);
    assert_eq!(path.create_command(), "M 1 2 L 3 4 ");
    path.length = 2;
    path.add_point([5, 60]);
    assert_eq!(path.create_command(), "M 3 4 L 5 60 ");
    path.remove_last();
    assert_eq!(path.rules.len(), 1);
    path.remove_first();
    assert!(path.rules.is_empty());
    path.move_to([7, 8]);
    path.line_to([9, 10]);
    path.replace(1);
    assert_eq!(path.rules[1], "M 7 8 ");
    path.remove_all();
    assert!(path.rules.is_empty());
}

#[test]
fn shortcut_icon_is_white() {
    let s = Shortcut::new("Settings".to_string(), b"<path/>", None);
    assert_eq!(s.icon, b"<path fill=\"White\"/>".to_vec());
    assert_eq!(s.name, "Settings");
    let b = KeyButton::new("a".to_string());
    assert_eq!(b.label, "a");
}

#[test]
fn desktop_entry_values() {
    let entry = lines(&[
        "[Desktop Entry]",
        "Name = Firefox",
        "Icon=firefox",
        "Exec=/usr/bin/firefox %u",
    ]);
    assert!(!has_root_table(&entry));
    let app = App::new("/usr/share/applications/firefox.desktop".to_string(), entry);
    assert_eq!(app.name, "Firefox");
    assert_eq!(app.icon, None);
    assert_eq!(app.icon_name, Some("firefox".to_string()));
    assert_eq!(app.executable, Some("/usr/bin/firefox".to_string()));
    assert_eq!(app.desktop, "/usr/share/applications/firefox.desktop");
}

#[test]
fn desktop_entry_icon_path_and_missing_values() {
    let entry = lines(&["[Desktop Entry]", "Icon=/opt/app/icon.png", "Exec=run"]);
    let app = App::new("a.desktop".to_string(), entry);
    assert_eq!(app.name, "");
    assert_eq!(app.icon, Some("/opt/app/icon.png".to_string()));
    assert_eq!(app.icon_name, None);
    assert_eq!(app.executable, Some("run".to_string()));
    assert!(has_root_table(&lines(&["[ root ]"])));
    assert!(!has_root_table(&lines(&["[roots]", "root=1"])));
}

#[test]
fn window_drag_moves_margins() {
    let mut w = WindowHandler::new();
    w.start_move();
    w.append_move(Point::new(100, 100));
    assert_eq!(w.margin, (0, 0, 0, 0));
    w.append_move(Point::new(110, 90));
    assert_eq!(w.margin, (0, 0, -10, 10));
    w.end_move();
    assert!(!w.moving);
}

#[test]
fn views_and_names() {
    assert_eq!(Dock::default_dock(), Dock::Bottom);
    assert_eq!(Dock::Left.name(), "Left");
    assert_eq!(ScreenEdge::all()[1].name(), "Bottom");
    assert_eq!(ViewKind::CompactQwerty.name(), "Compact QWERTY");
    assert_eq!(ViewKind::all().len(), 5);
    let mut v = ViewHandler::new();
    v.action_gesture(ActionDirection::Top);
    assert_eq!(v.current_view, ViewKind::Settings);
    v.action_gesture(ActionDirection::LongPress);
    assert_eq!(v.current_view, ViewKind::Pick);
    v.action_gesture(ActionDirection::Left);
    assert_eq!(v.current_view, ViewKind::CompactQwerty);
}

#[test]
fn input_tap_then_gesture() {
    let mut input = InputHandler::new();
    let mut gesture = GestureHandler::new();
    let mut window = WindowHandler::new();
    let mut t = 0;
    let mut send = |input: &mut InputHandler, gesture: &mut GestureHandler, e: InputEvent| {
        t += 20;
        input.update_event(e, t, gesture, &mut window)
    };
    send(&mut input, &mut gesture, InputEvent::CursorMoved(Point::new(100, 100)));
    send(&mut input, &mut gesture, InputEvent::ButtonPressed(Button::Left));
    assert_eq!(input.left_mouse, PressType::Tap);
    send(&mut input, &mut gesture, InputEvent::CursorMoved(Point::new(103, 100)));
    send(&mut input, &mut gesture, InputEvent::CursorMoved(Point::new(105, 100)));
    assert_eq!(input.left_mouse, PressType::Tap);
    send(&mut input, &mut gesture, InputEvent::CursorMoved(Point::new(140, 100)));
    assert_eq!(input.left_mouse, PressType::Tap);
    send(&mut input, &mut gesture, InputEvent::CursorMoved(Point::new(180, 100)));
    assert_eq!(input.left_mouse, PressType::Gesture);
    send(&mut input, &mut gesture, InputEvent::CursorMoved(Point::new(220, 100)));
    assert!(gesture.current_gesture.is_some());
    assert_eq!(gesture.current_gesture.as_ref().unwrap().buffer.len(), 3);
    let a = send(&mut input, &mut gesture, InputEvent::ButtonReleased(Button::Left));
    assert_eq!(a, InputAction::Action(ActionDirection::Right));
    assert_eq!(input.left_mouse, PressType::Idle);
    assert!(gesture.current_gesture.is_none());
    assert_eq!(gesture.history.len(), 1);
}

#[test]
fn input_long_press_and_escape() {
    let mut input = InputHandler::new();
    let mut gesture = GestureHandler::new();
    let mut window = WindowHandler::new();
    input.update_event(InputEvent::ButtonPressed(Button::Left), 0, &mut gesture, &mut window);
    assert_eq!(input.long_press_tick(), InputAction::Action(ActionDirection::LongPress));
    assert_eq!(input.left_mouse, PressType::LongPress);
    assert_eq!(input.long_press_tick(), InputAction::Nothing);
    let a = input.update_event(InputEvent::KeyPressed(NamedKey::Escape), 1, &mut gesture, &mut window);
    assert_eq!(a, InputAction::Exit);
}

#[test]
fn input_touch_and_right_drag() {
    let mut input = InputHandler::new();
    let mut gesture = GestureHandler::new();
    let mut window = WindowHandler::new();
    input.update_event(
        InputEvent::FingerPressed { id: 1, position: Point::new(0, 0) },
        0,
        &mut gesture,
        &mut window,
    );
    assert_eq!(input.finger_presses.len(), 1);
    input.update_event(
        InputEvent::FingerMoved { id: 1, position: Point::new(0, 0) },
        10,
        &mut gesture,
        &mut window,
    );
    input.update_event(
        InputEvent::FingerMoved { id: 1, position: Point::new(0, 80) },
        20,
        &mut gesture,
        &mut window,
    );
    let a = input.update_event(InputEvent::FingerLifted { id: 1 }, 30, &mut gesture, &mut window);
    assert_eq!(a, InputAction::Action(ActionDirection::Bottom));
    assert!(input.finger_presses.is_empty());
    input.update_event(InputEvent::ButtonPressed(Button::Right), 40, &mut gesture, &mut window);
    input.update_event(InputEvent::CursorMoved(Point::new(5, 5)), 50, &mut gesture, &mut window);
    input.update_event(InputEvent::CursorMoved(Point::new(25, 0)), 60, &mut gesture, &mut window);
    assert_eq!(window.margin, (0, 0, -5, 20));
    input.update_event(InputEvent::ButtonReleased(Button::Right), 70, &mut gesture, &mut window);
    assert!(!input.rmouse_down);
}

#[test]
fn beam_search_finds_word() {
    let dict = DictionaryIndex::build(b"cat car");
    let mut engine = SearchHandler::with_dictionary(DictionaryIndex::build(b"cat car"));
    for (text, x) in [("c", 0), ("a", 40), ("t", 80)] {
        engine.update(Message::Update(
            text.as_bytes().to_vec(),
            Rect { x, y: 0, width: 40, height: 40 },
        ));
    }
    engine.start();
    for x in [20, 20, 60, 60, 100, 100] {
        engine.update_move(Point::new(x, 20));
    }
    engine.end();
    let words = beam_search(&dict, &engine.weighted_items, 3, 100);
    assert_eq!(words, vec![b"cat".to_vec()]);
    assert!(beam_search(&dict, &engine.weighted_items, 2, 100).is_empty());
    assert!(beam_search(&dict, &engine.weighted_items, 3, 1).is_empty());
    assert!(SearchHandler::new().current_predictions().is_empty());
}

#[test]
fn bus_listeners_in_order() {
    let subs = vec![Target::ObjectA, Target::ObjectB, Target::ObjectA];
    assert_eq!(matching_listeners(&subs, Target::ObjectA), vec![0, 2]);
    assert_eq!(matching_listeners(&subs, Target::ObjectB), vec![1]);
    assert!(matching_listeners(&Vec::new(), Target::ObjectA).is_empty());
}
