//! The input state machine: raw mouse, touch and key events decide between
//! a tap, a long press, a glide gesture and a window drag, and drive the
//! gesture trace and the window mover accordingly.

use vstd::prelude::*;
use crate::geometry::{Point, dist2, distance_squared};
use crate::trace::{ActionDirection, GestureHandler, moved_to, released, started};
use crate::window::WindowHandler;

verus! {

/// How far, in pixels, a press must travel before it becomes a gesture.
pub const MOVE_THRESHOLD: i128 = 10;

/// How a left press is being read.
#[derive(Clone, Copy, Debug, PartialEq, Eq, Structural)]
pub enum PressType {
    Idle,
    Tap,
    LongPress,
    Gesture,
}

/// A mouse button.
#[derive(Clone, Copy, Debug, PartialEq, Eq, Structural)]
pub enum Button {
    Left,
    Right,
    Other,
}

/// A key of the physical keyboard.
#[derive(Clone, Copy, Debug, PartialEq, Eq, Structural)]
pub enum NamedKey {
    Escape,
    Backspace,
    Other,
}

/// An input event, with the time it arrived in milliseconds.
#[derive(Clone, Copy, Debug, PartialEq, Eq, Structural)]
pub enum InputEvent {
    KeyPressed(NamedKey),
    ButtonPressed(Button),
    CursorMoved(Point),
    ButtonReleased(Button),
    FingerPressed { id: u64, position: Point },
    FingerMoved { id: u64, position: Point },
    FingerLifted { id: u64 },
    Other,
}

/// What the caller is asked to do after an event.
#[derive(Clone, Copy, Debug, PartialEq, Eq, Structural)]
pub enum InputAction {
    Nothing,
    /// Quit the application.
    Exit,
    /// A flick or a long press to be turned into a view change.
    Action(ActionDirection),
}

/// A finger on the screen: its id, where it went down, and when.
#[derive(Clone, Copy, Debug, PartialEq, Eq, Structural)]
pub struct FingerPress {
    pub id: u64,
    pub position: Point,
    pub instant: u64,
}

/// The state of the user's inputs.
#[derive(Debug)]
pub struct InputHandler {
    pub left_mouse: PressType,
    pub rmouse_down: bool,
    pub finger_presses: Vec<FingerPress>,
    pub long_press_timer_enabled: bool,
    /// Where the current left press began.
    pub start_cursor_position: Option<Point>,
    /// The position last used for the move threshold.
    pub last_cursor_position: Option<Point>,
    /// The latest cursor position.
    pub cursor_position: Option<Point>,
}

/// The press has travelled further than the move threshold.
pub open spec fn beyond_threshold(start: Point, last: Point) -> bool {
    dist2(start, last) > MOVE_THRESHOLD * MOVE_THRESHOLD
}

/// The press has travelled beyond the move threshold, as far as the
/// recorded start and last positions tell.
pub open spec fn threshold_passed(h: InputHandler) -> bool {
    match (h.start_cursor_position, h.last_cursor_position) {
        (Some(s), Some(l)) => beyond_threshold(s, l),
        _ => false,
    }
}

/// `n` is `o` after the trace was seeded with the last recorded cursor
/// position, if there is one.
pub open spec fn seeded(o: GestureHandler, n: GestureHandler, last: Option<Point>, now: u64) -> bool {
    match last {
        Some(l) => exists|accepted: bool| #[trigger] moved_to(o, n, l, now, accepted),
        None => n == o,
    }
}

/// `n` is `o` after a press turned into a gesture at `p`: a trace was begun
/// at `now`, seeded with `last`, and extended to `p`.
pub open spec fn opened_and_seeded(
    o: GestureHandler,
    n: GestureHandler,
    last: Option<Point>,
    p: Point,
    now: u64,
) -> bool {
    exists|g0: GestureHandler, g1: GestureHandler, accepted: bool|
        #![trigger started(o, g0, now), seeded(g0, g1, last, now), moved_to(g1, n, p, now, accepted)]
        started(o, g0, now) && seeded(g0, g1, last, now) && moved_to(g1, n, p, now, accepted)
}

/// What the caller is asked to do once a gesture ended, flick or not.
pub open spec fn action_of(flick: Option<ActionDirection>) -> InputAction {
    match flick {
        Some(d) => InputAction::Action(d),
        None => InputAction::Nothing,
    }
}

/// The fingers other than `id`.
pub open spec fn without_finger(fs: Seq<FingerPress>, id: u64) -> Seq<FingerPress> {
    fs.filter(|f: FingerPress| f.id != id)
}

impl InputHandler {
    pub fn new() -> (h: InputHandler)
        ensures
            h.left_mouse == PressType::Idle,
            !h.rmouse_down,
            h.finger_presses@.len() == 0,
            !h.long_press_timer_enabled,
            h.start_cursor_position is None,
            h.last_cursor_position is None,
            h.cursor_position is None,
    {
        InputHandler {
            left_mouse: PressType::Idle,
            rmouse_down: false,
            finger_presses: Vec::new(),
            long_press_timer_enabled: false,
            start_cursor_position: None,
            last_cursor_position: None,
            cursor_position: None,
        }
    }

    /// The long-press timer fired: if it is still armed, the press becomes
    /// a long press.
    pub fn long_press_tick(&mut self) -> (a: InputAction)
        ensures
            old(self).long_press_timer_enabled ==> {
                &&& a == InputAction::Action(ActionDirection::LongPress)
                &&& final(self).left_mouse == PressType::LongPress
                &&& !final(self).long_press_timer_enabled
            },
            !old(self).long_press_timer_enabled ==> a == InputAction::Nothing && final(self).left_mouse
                == old(self).left_mouse && !final(self).long_press_timer_enabled,
            final(self).cursor_position == old(self).cursor_position,
            final(self).start_cursor_position == old(self).start_cursor_position,
            final(self).last_cursor_position == old(self).last_cursor_position,
            final(self).rmouse_down == old(self).rmouse_down,
            final(self).finger_presses == old(self).finger_presses,
    {
        if !self.long_press_timer_enabled {
            return InputAction::Nothing;
        }
        self.long_press_timer_enabled = false;
        self.left_mouse = PressType::LongPress;
        InputAction::Action(ActionDirection::LongPress)
    }

    /// Whether the press has travelled beyond the move threshold. The first
    /// call of a press only records the cursor; until the threshold is
    /// passed each call records the latest cursor position. Without a
    /// recorded start the press has not travelled.
    pub fn is_above_move_threshold(&mut self) -> (r: bool)
        ensures
            final(self).left_mouse == old(self).left_mouse,
            final(self).cursor_position == old(self).cursor_position,
            final(self).start_cursor_position == old(self).start_cursor_position,
            final(self).rmouse_down == old(self).rmouse_down,
            final(self).long_press_timer_enabled == old(self).long_press_timer_enabled,
            final(self).finger_presses == old(self).finger_presses,
            match (old(self).start_cursor_position, old(self).last_cursor_position) {
                (_, None) => !r && final(self).last_cursor_position == old(self).cursor_position,
                (Some(s), Some(l)) => r == beyond_threshold(s, l) && final(self).last_cursor_position == if r {
                    old(self).last_cursor_position
                } else {
                    old(self).cursor_position
                },
                (None, Some(_)) => !r && final(self).last_cursor_position == old(self).cursor_position,
            },
    {
        match self.last_cursor_position {
            None => {
                self.last_cursor_position = self.cursor_position;
                false
            },
            Some(last) => match self.start_cursor_position {
                Some(start) => {
                    let result = distance_squared(start, last) > MOVE_THRESHOLD * MOVE_THRESHOLD;
                    if !result {
                        self.last_cursor_position = self.cursor_position;
                    }
                    result
                },
                None => {
                    self.last_cursor_position = self.cursor_position;
                    false
                },
            },
        }
    }

    /// Reads one input event that arrived at `now`, and drives the gesture
    /// trace and the window mover:
    /// - Escape asks to quit.
    /// - A left press is a tap until it travels beyond the move threshold;
    ///   then it becomes a gesture, which opens a trace seeded with the last
    ///   recorded cursor position and the current one; later moves extend the
    ///   trace, and the release closes it (a short trace is a flick).
    /// - A right press drags the window until it is released.
    /// - A finger opens a trace, its moves extend it, and lifting it closes it.
    pub fn update_event(
        &mut self,
        event: InputEvent,
        now: u64,
        gesture: &mut GestureHandler,
        window: &mut WindowHandler,
    ) -> (a: InputAction)
        requires
            old(gesture).wf(),
        ensures
            final(gesture).wf(),
            match event {
                InputEvent::KeyPressed(NamedKey::Escape) => a == InputAction::Exit,
                InputEvent::ButtonPressed(Button::Left) => {
                    &&& a == InputAction::Nothing
                    &&& final(self).left_mouse == PressType::Tap
                    &&& final(self).long_press_timer_enabled
                    &&& final(self).start_cursor_position == old(self).cursor_position
                },
                InputEvent::ButtonPressed(Button::Right) => {
                    &&& a == InputAction::Nothing
                    &&& final(self).rmouse_down
                    &&& final(window).moving
                    &&& final(window).move_start is None
                },
                InputEvent::CursorMoved(p) => {
                    &&& a == InputAction::Nothing
                    &&& final(self).cursor_position == Some(p)
                    &&& final(self).rmouse_down == old(self).rmouse_down
                    &&& match old(self).left_mouse {
                        PressType::Tap => if threshold_passed(*old(self)) {
                            // The press becomes a gesture: a trace is begun, seeded
                            // with the last recorded cursor position, then the new one.
                            &&& final(self).left_mouse == PressType::Gesture
                            &&& !final(self).long_press_timer_enabled
                            &&& final(self).last_cursor_position == old(self).last_cursor_position
                            &&& opened_and_seeded(
                                *old(gesture),
                                *final(gesture),
                                old(self).last_cursor_position,
                                p,
                                now,
                            )
                            &&& *final(window) == *old(window)
                        } else {
                            // Still a tap: nothing is drawn yet.
                            &&& final(self).left_mouse == PressType::Tap
                            &&& *final(gesture) == *old(gesture)
                            &&& *final(window) == *old(window)
                        },
                        PressType::Gesture => {
                            &&& final(self).left_mouse == PressType::Gesture
                            &&& exists|accepted: bool| #[trigger] moved_to(
                                *old(gesture),
                                *final(gesture),
                                p,
                                now,
                                accepted,
                            )
                            &&& *final(window) == *old(window)
                        },
                        _ => {
                            &&& final(self).left_mouse == old(self).left_mouse
                            &&& *final(gesture) == *old(gesture)
                            &&& old(self).rmouse_down ==> final(window).move_start == Some(p)
                            &&& !old(self).rmouse_down ==> *final(window) == *old(window)
                        },
                    }
                },
                InputEvent::ButtonReleased(Button::Left) => {
                    &&& final(self).left_mouse == PressType::Idle
                    &&& !final(self).long_press_timer_enabled
                    &&& final(self).last_cursor_position is None
                    &&& old(self).left_mouse == PressType::Gesture ==> exists|f: Option<ActionDirection>|
                        #[trigger] released(*old(gesture), *final(gesture), now, f) && a == action_of(f)
                    &&& old(self).left_mouse != PressType::Gesture ==> a == InputAction::Nothing
                        && *final(gesture) == *old(gesture)
                    &&& *final(window) == *old(window)
                },
                InputEvent::ButtonReleased(Button::Right) => {
                    &&& a == InputAction::Nothing
                    &&& !final(self).rmouse_down
                    &&& !final(window).moving
                },
                InputEvent::FingerPressed { id, position } => {
                    &&& a == InputAction::Nothing
                    &&& final(self).finger_presses@ == old(self).finger_presses@.push(
                        FingerPress { id, position, instant: now },
                    )
                    &&& final(self).long_press_timer_enabled
                    &&& final(gesture).current_gesture is Some
                },
                InputEvent::FingerMoved { id, position } => {
                    &&& a == InputAction::Nothing
                    &&& !final(self).long_press_timer_enabled
                    &&& exists|accepted: bool| #[trigger] moved_to(
                        *old(gesture),
                        *final(gesture),
                        position,
                        now,
                        accepted,
                    )
                },
                InputEvent::FingerLifted { id } => {
                    &&& final(self).finger_presses@ == without_finger(old(self).finger_presses@, id)
                    &&& exists|f: Option<ActionDirection>|
                        #[trigger] released(*old(gesture), *final(gesture), now, f) && a == action_of(f)
                },
                _ => a == InputAction::Nothing,
            },
    {
        match event {
            InputEvent::KeyPressed(key) => match key {
                NamedKey::Escape => InputAction::Exit,
                _ => InputAction::Nothing,
            },
            InputEvent::ButtonPressed(button) => match button {
                Button::Left => {
                    self.left_mouse = PressType::Tap;
                    self.long_press_timer_enabled = true;
                    self.start_cursor_position = self.cursor_position;
                    InputAction::Nothing
                },
                Button::Right => {
                    self.rmouse_down = true;
                    window.start_move();
                    InputAction::Nothing
                },
                Button::Other => InputAction::Nothing,
            },
            InputEvent::CursorMoved(position) => {
                self.cursor_position = Some(position);
                match self.left_mouse {
                    PressType::Tap => {
                        if !self.is_above_move_threshold() {
                            return InputAction::Nothing;
                        }
                        self.long_press_timer_enabled = false;
                        self.left_mouse = PressType::Gesture;
                        gesture.start(now);
                        let ghost g0 = *gesture;
                        if let Some(last) = self.last_cursor_position {
                            let a1 = gesture.update_move(last, now);
                            assert(moved_to(g0, *gesture, last, now, a1));
                        }
                        let ghost g1 = *gesture;
                        let a2 = gesture.update_move(position, now);
                        proof {
                            assert(seeded(g0, g1, self.last_cursor_position, now));
                            assert(moved_to(g1, *gesture, position, now, a2));
                            assert(started(*old(gesture), g0, now));
                        }
                        return InputAction::Nothing;
                    },
                    PressType::Gesture => {
                        gesture.update_move(position, now);
                        return InputAction::Nothing;
                    },
                    _ => {},
                }
                if self.rmouse_down {
                    window.append_move(position);
                }
                InputAction::Nothing
            },
            InputEvent::ButtonReleased(button) => match button {
                Button::Left => {
                    let mut result = InputAction::Nothing;
                    if self.left_mouse == PressType::Gesture {
                        if let Some(d) = gesture.end(now) {
                            result = InputAction::Action(d);
                        }
                    }
                    self.left_mouse = PressType::Idle;
                    self.long_press_timer_enabled = false;
                    self.last_cursor_position = None;
                    result
                },
                Button::Right => {
                    self.rmouse_down = false;
                    window.end_move();
                    InputAction::Nothing
                },
                Button::Other => InputAction::Nothing,
            },
            InputEvent::FingerPressed { id, position } => {
                self.finger_presses.push(FingerPress { id, position, instant: now });
                self.long_press_timer_enabled = true;
                gesture.start(now);
                InputAction::Nothing
            },
            InputEvent::FingerMoved { id, position } => {
                self.long_press_timer_enabled = false;
                gesture.update_move(position, now);
                InputAction::Nothing
            },
            InputEvent::FingerLifted { id } => {
                self.remove_finger(id);
                match gesture.end(now) {
                    Some(d) => InputAction::Action(d),
                    None => InputAction::Nothing,
                }
            },
            InputEvent::Other => InputAction::Nothing,
        }
    }

    fn remove_finger(&mut self, id: u64)
        ensures
            final(self).finger_presses@ == without_finger(old(self).finger_presses@, id),
            final(self).left_mouse == old(self).left_mouse,
            final(self).long_press_timer_enabled == old(self).long_press_timer_enabled,
            final(self).rmouse_down == old(self).rmouse_down,
            final(self).cursor_position == old(self).cursor_position,
            final(self).start_cursor_position == old(self).start_cursor_position,
            final(self).last_cursor_position == old(self).last_cursor_position,
    {
        let ghost orig = self.finger_presses@;
        let mut kept: Vec<FingerPress> = Vec::new();
        let mut i: usize = 0;
        assert(orig.subrange(0, 0) =~= Seq::<FingerPress>::empty());
        while i < self.finger_presses.len()
            invariant
                self.finger_presses@ == orig,
                i <= orig.len(),
                kept@ == without_finger(orig.subrange(0, i as int), id),
            decreases orig.len() - i,
        {
            let f = self.finger_presses[i];
            proof {
                let s = orig.subrange(0, i + 1);
                assert(s.drop_last() =~= orig.subrange(0, i as int));
                assert(s.last() == f);
                assert(without_finger(s, id) == if f.id != id {
                    without_finger(orig.subrange(0, i as int), id).push(f)
                } else {
                    without_finger(orig.subrange(0, i as int), id)
                }) by {
                    reveal(Seq::filter);
                }
            }
            if f.id != id {
                kept.push(f);
            }
            i = i + 1;
        }
        proof {
            assert(orig.subrange(0, orig.len() as int) =~= orig);
        }
        self.finger_presses = kept;
    }
}

} // verus!
