//! Window placement and view selection: where the keyboard docks, how a
//! right-button drag moves the window, and which view a flick opens.

use vstd::prelude::*;
use crate::geometry::Point;
use crate::trace::ActionDirection;

verus! {

/// The screen side a docked window sticks to.
#[derive(Clone, Copy, Debug, PartialEq, Eq, Structural)]
pub enum Dock {
    Top,
    Bottom,
    Left,
    Right,
}

/// The screen edge the keyboard is shown on.
#[derive(Clone, Copy, Debug, PartialEq, Eq, Structural)]
pub enum ScreenEdge {
    Top,
    Bottom,
    Left,
    Right,
}

/// The views the window can show.
#[derive(Clone, Copy, Debug, PartialEq, Eq, Structural)]
pub enum ViewKind {
    CompactQwerty,
    Settings,
    Launcher,
    QuickPick,
    Pick,
}

/// The keyboard layouts.
#[derive(Clone, Copy, Debug, PartialEq, Eq, Structural)]
pub enum LayoutType {
    Compact,
    Qwerty,
}

/// A message of the compact layout.
#[derive(Debug)]
pub enum CompactMessage {
    KeyPressed(String),
    Debug(String),
}

/// A message of the QWERTY layout.
#[derive(Clone, Copy, Debug, PartialEq, Eq, Structural)]
pub enum QwertyMessage {
    KeyPress(char),
}

/// A listener of the event bus.
#[derive(Clone, Copy, Debug, PartialEq, Eq, Structural)]
pub enum Target {
    ObjectA,
    ObjectB,
}

/// The positions, in order, of the subscriptions made for `target`.
pub open spec fn listeners_for(subs: Seq<Target>, target: Target) -> Seq<usize>
    decreases subs.len(),
{
    if subs.len() == 0 {
        Seq::empty()
    } else {
        let r = listeners_for(subs.drop_last(), target);
        if subs.last() == target {
            r.push((subs.len() - 1) as usize)
        } else {
            r
        }
    }
}

/// The positions, in order, of the subscriptions made for `target`: the
/// listeners an event for `target` is dispatched to.
pub fn matching_listeners(subs: &Vec<Target>, target: Target) -> (r: Vec<usize>)
    ensures
        r@ == listeners_for(subs@, target),
{
    let mut r: Vec<usize> = Vec::new();
    let mut i: usize = 0;
    while i < subs.len()
        invariant
            i <= subs@.len(),
            r@ == listeners_for(subs@.subrange(0, i as int), target),
        decreases subs@.len() - i,
    {
        proof {
            assert(subs@.subrange(0, i + 1).drop_last() =~= subs@.subrange(0, i as int));
            assert(subs@.subrange(0, i + 1).last() == subs@[i as int]);
        }
        if subs[i] == target {
            r.push(i);
        }
        i = i + 1;
    }
    proof {
        assert(subs@.subrange(0, subs@.len() as int) =~= subs@);
    }
    r
}

pub open spec fn dock_name(d: Dock) -> Seq<char> {
    match d {
        Dock::Top => seq!['T', 'o', 'p'],
        Dock::Bottom => seq!['B', 'o', 't', 't', 'o', 'm'],
        Dock::Left => seq!['L', 'e', 'f', 't'],
        Dock::Right => seq!['R', 'i', 'g', 'h', 't'],
    }
}

pub open spec fn edge_name(e: ScreenEdge) -> Seq<char> {
    match e {
        ScreenEdge::Top => seq!['T', 'o', 'p'],
        ScreenEdge::Bottom => seq!['B', 'o', 't', 't', 'o', 'm'],
        ScreenEdge::Left => seq!['L', 'e', 'f', 't'],
        ScreenEdge::Right => seq!['R', 'i', 'g', 'h', 't'],
    }
}

impl Dock {
    /// Every dock side, top first.
    pub fn all() -> (r: [Dock; 4])
        ensures
            r@ == seq![Dock::Top, Dock::Bottom, Dock::Left, Dock::Right],
    {
        let r = [Dock::Top, Dock::Bottom, Dock::Left, Dock::Right];
        assert(r@ =~= seq![Dock::Top, Dock::Bottom, Dock::Left, Dock::Right]);
        r
    }

    /// The side a window docks to unless told otherwise.
    pub fn default_dock() -> (r: Dock)
        ensures
            r == Dock::Bottom,
    {
        Dock::Bottom
    }

    /// The name of the side, as shown to the user.
    pub fn name(&self) -> (s: String)
        ensures
            s@ == dock_name(*self),
    {
        let s = match self {
            Dock::Top => "Top",
            Dock::Bottom => "Bottom",
            Dock::Left => "Left",
            Dock::Right => "Right",
        };
        proof {
            reveal_strlit("Top");
            reveal_strlit("Bottom");
            reveal_strlit("Left");
            reveal_strlit("Right");
        }
        let r = String::from_str(s);
        assert(r@ =~= dock_name(*self));
        r
    }
}

impl ScreenEdge {
    /// Every edge, top first.
    pub fn all() -> (r: [ScreenEdge; 4])
        ensures
            r@ == seq![ScreenEdge::Top, ScreenEdge::Bottom, ScreenEdge::Left, ScreenEdge::Right],
    {
        let r = [ScreenEdge::Top, ScreenEdge::Bottom, ScreenEdge::Left, ScreenEdge::Right];
        assert(r@ =~= seq![ScreenEdge::Top, ScreenEdge::Bottom, ScreenEdge::Left, ScreenEdge::Right]);
        r
    }

    /// The edge the keyboard is shown on unless told otherwise.
    pub fn default_edge() -> (r: ScreenEdge)
        ensures
            r == ScreenEdge::Top,
    {
        ScreenEdge::Top
    }

    /// The name of the edge, as shown to the user.
    pub fn name(&self) -> (s: String)
        ensures
            s@ == edge_name(*self),
    {
        let s = match self {
            ScreenEdge::Top => "Top",
            ScreenEdge::Bottom => "Bottom",
            ScreenEdge::Left => "Left",
            ScreenEdge::Right => "Right",
        };
        proof {
            reveal_strlit("Top");
            reveal_strlit("Bottom");
            reveal_strlit("Left");
            reveal_strlit("Right");
        }
        let r = String::from_str(s);
        assert(r@ =~= edge_name(*self));
        r
    }
}

pub open spec fn view_name(v: ViewKind) -> Seq<char> {
    match v {
        ViewKind::CompactQwerty => seq!['C', 'o', 'm', 'p', 'a', 'c', 't', ' ', 'Q', 'W', 'E', 'R', 'T', 'Y'],
        ViewKind::Settings => seq!['S', 'e', 't', 't', 'i', 'n', 'g', 's'],
        ViewKind::Launcher => seq!['L', 'a', 'u', 'n', 'c', 'h', 'e', 'r'],
        ViewKind::QuickPick => seq!['Q', 'u', 'i', 'c', 'k', ' ', 'P', 'i', 'c', 'k'],
        ViewKind::Pick => seq!['P', 'i', 'c', 'k'],
    }
}

/// The view that a flick or a long press opens.
pub open spec fn view_for(direction: ActionDirection) -> ViewKind {
    match direction {
        ActionDirection::Top => ViewKind::Settings,
        ActionDirection::Bottom => ViewKind::Launcher,
        ActionDirection::LongPress => ViewKind::Pick,
        _ => ViewKind::CompactQwerty,
    }
}

impl ViewKind {
    /// Every view, in the order they are offered.
    pub fn all() -> (r: [ViewKind; 5])
        ensures
            r@ == seq![ViewKind::CompactQwerty, ViewKind::Settings, ViewKind::Launcher, ViewKind::QuickPick, ViewKind::Pick],
    {
        let r = [ViewKind::CompactQwerty, ViewKind::Settings, ViewKind::Launcher, ViewKind::QuickPick, ViewKind::Pick];
        assert(r@ =~= seq![ViewKind::CompactQwerty, ViewKind::Settings, ViewKind::Launcher, ViewKind::QuickPick, ViewKind::Pick]);
        r
    }

    /// The name of the view, as shown to the user.
    pub fn name(&self) -> (s: String)
        ensures
            s@ == view_name(*self),
    {
        let s = match self {
            ViewKind::CompactQwerty => "Compact QWERTY",
            ViewKind::Settings => "Settings",
            ViewKind::Launcher => "Launcher",
            ViewKind::QuickPick => "Quick Pick",
            ViewKind::Pick => "Pick",
        };
        proof {
            reveal_strlit("Compact QWERTY");
            reveal_strlit("Settings");
            reveal_strlit("Launcher");
            reveal_strlit("Quick Pick");
            reveal_strlit("Pick");
        }
        let r = String::from_str(s);
        assert(r@ =~= view_name(*self));
        r
    }

    /// The view that a flick in `direction`, or a long press, opens.
    pub fn for_action(direction: ActionDirection) -> (v: ViewKind)
        ensures
            v == view_for(direction),
    {
        match direction {
            ActionDirection::Top => ViewKind::Settings,
            ActionDirection::Bottom => ViewKind::Launcher,
            ActionDirection::LongPress => ViewKind::Pick,
            _ => ViewKind::CompactQwerty,
        }
    }
}

/// The view state: which view is shown.
#[derive(Debug)]
pub struct ViewHandler {
    pub current_view: ViewKind,
}

impl ViewHandler {
    /// Starts on the compact QWERTY view.
    pub fn new() -> (h: ViewHandler)
        ensures
            h.current_view == ViewKind::CompactQwerty,
    {
        ViewHandler { current_view: ViewKind::CompactQwerty }
    }

    /// Shows `view`.
    pub fn change_view(&mut self, view: ViewKind)
        ensures
            final(self).current_view == view,
    {
        self.current_view = view;
    }

    /// Shows the view that a flick or a long press opens.
    pub fn action_gesture(&mut self, direction: ActionDirection)
        ensures
            final(self).current_view == view_for(direction),
    {
        self.current_view = ViewKind::for_action(direction);
    }
}

// ---------------------------------------------------------------------------
// Moving the window
// ---------------------------------------------------------------------------
/// `v` clamped to the range of `i32`.
pub open spec fn clamp_i32(v: int) -> int {
    if v < i32::MIN {
        i32::MIN as int
    } else if v > i32::MAX {
        i32::MAX as int
    } else {
        v
    }
}

fn clamped(v: i64) -> (r: i32)
    ensures
        r == clamp_i32(v as int),
{
    if v < i32::MIN as i64 {
        i32::MIN
    } else if v > i32::MAX as i64 {
        i32::MAX
    } else {
        v as i32
    }
}

/// The window: where it docks, its size and margins, and a drag in progress.
#[derive(Debug)]
pub struct WindowHandler {
    pub dock: Dock,
    pub windowed: bool,
    pub size: (u32, u32),
    /// Top, right, bottom and left margins.
    pub margin: (i32, i32, i32, i32),
    pub moving: bool,
    pub move_start: Option<Point>,
}

impl WindowHandler {
    /// A floating 600 by 250 window with no margins.
    pub fn new() -> (w: WindowHandler)
        ensures
            w.dock == Dock::Top,
            w.windowed,
            w.size == (600u32, 250u32),
            w.margin == (0i32, 0i32, 0i32, 0i32),
            !w.moving,
            w.move_start is None,
    {
        WindowHandler {
            dock: Dock::Top,
            windowed: true,
            size: (600, 250),
            margin: (0, 0, 0, 0),
            moving: false,
            move_start: None,
        }
    }

    /// Begins a drag of the window.
    pub fn start_move(&mut self)
        ensures
            final(self).moving,
            final(self).move_start is None,
            final(self).margin == old(self).margin,
    {
        self.moving = true;
        self.move_start = None;
    }

    /// Ends a drag of the window.
    pub fn end_move(&mut self)
        ensures
            !final(self).moving,
            final(self).move_start == old(self).move_start,
            final(self).margin == old(self).margin,
    {
        self.moving = false;
    }

    /// Follows the pointer during a drag: the first position only anchors
    /// the drag; each later one moves the bottom and left margins by the
    /// pointer's travel since the previous position (clamped to `i32`).
    pub fn append_move(&mut self, position: Point)
        ensures
            final(self).move_start == Some(position),
            final(self).moving == old(self).moving,
            match old(self).move_start {
                None => final(self).margin == old(self).margin,
                Some(s) => {
                    &&& final(self).margin.0 == old(self).margin.0
                    &&& final(self).margin.1 == old(self).margin.1
                    &&& final(self).margin.2 == clamp_i32(
                        old(self).margin.2 + position.y - s.y,
                    )
                    &&& final(self).margin.3 == clamp_i32(
                        old(self).margin.3 + position.x - s.x,
                    )
                },
            },
    {
        match self.move_start {
            None => {
                self.move_start = Some(position);
            },
            Some(s) => {
                let y = clamped(self.margin.2 as i64 + position.y as i64 - s.y as i64);
                let x = clamped(self.margin.3 as i64 + position.x as i64 - s.x as i64);
                self.move_start = Some(position);
                self.margin.2 = y;
                self.margin.3 = x;
            },
        }
    }
}

} // verus!
