//! The gesture trace: the distance-gated, smoothed geometry of one pointer
//! drag, and a short history of finished drags that fades away.

use vstd::prelude::*;
use crate::geometry::{
    Point, dist2, direction, direction_degrees, distance_squared, unit_normal, unit_normal_of,
};

verus! {

/// How long a finished trace stays visible, in milliseconds.
pub const FADE_DURATION: u64 = 800;

/// A trace shorter than this, in milliseconds, is an action gesture.
pub const ACTION_GESTURE_DURATION: u64 = 250;

/// The least distance, in pixels, between two retained points of a trace.
pub const MIN_SPACING: i128 = 15;

/// The widest ribbon, for a point drawn just now, in thousandths of a pixel.
pub const MAX_WIDTH: u64 = 25000;

/// The narrowest ribbon, in thousandths of a pixel.
pub const MIN_WIDTH: u64 = 1000;

/// The opacity of a point drawn just now, in thousandths.
pub const MAX_OPACITY: u64 = 500;

/// A difference of two points.
#[derive(Clone, Copy, Debug, PartialEq, Eq, Structural)]
pub struct Offset {
    pub dx: i64,
    pub dy: i64,
}

/// One retained sample of a trace, with its smoothing data.
#[derive(Clone, Copy, Debug, PartialEq, Eq, Structural)]
pub struct GestureData {
    pub point: Point,
    /// When the sample was taken, in milliseconds.
    pub instant: u64,
    /// The difference to the sample from its predecessor (or, once the next
    /// sample has arrived, between its two neighbours).
    pub tangent: Offset,
    /// The tangent turned a quarter and scaled to length `UNIT`.
    pub normal: Point,
}

/// One continuous pointer-down to pointer-up interaction.
#[derive(Debug)]
pub struct Gesture {
    pub start_instant: u64,
    pub end_instant: Option<u64>,
    pub buffer: Vec<GestureData>,
}

/// A direction of a short flick, or a long press.
#[derive(Clone, Copy, Debug, PartialEq, Eq, Structural)]
pub enum ActionDirection {
    TopLeft,
    Top,
    TopRight,
    Right,
    BottomRight,
    Bottom,
    BottomLeft,
    Left,
    LongPress,
}

/// One point of a fading ribbon, ready to be drawn.
#[derive(Clone, Copy, Debug, PartialEq, Eq, Structural)]
pub struct RibbonPoint {
    pub point: Point,
    pub normal: Point,
    /// Width of the ribbon here, in thousandths of a pixel.
    pub width: u64,
    /// Opacity here, in thousandths.
    pub opacity: u64,
}

/// The trace and its history.
#[derive(Debug)]
pub struct GestureHandler {
    pub history: Vec<Gesture>,
    pub current_gesture: Option<Gesture>,
}

// ---------------------------------------------------------------------------
// The model
// ---------------------------------------------------------------------------
/// Milliseconds from `then` to `now`; zero if `then` is later.
pub open spec fn age(now: u64, then: u64) -> int {
    if now >= then {
        now - then
    } else {
        0
    }
}

/// Two points are far enough apart to both be retained.
pub open spec fn spaced(a: Point, b: Point) -> bool {
    dist2(a, b) >= MIN_SPACING * MIN_SPACING
}

/// Each retained point is at least the minimum spacing from its predecessor.
pub open spec fn is_gated(buf: Seq<GestureData>) -> bool {
    forall|i: int| 0 < i < buf.len() ==> spaced(buf[i - 1].point, #[trigger] buf[i].point)
}

/// The normal of a difference, as a point.
pub open spec fn normal_of(dx: int, dy: int) -> Point {
    Point { x: unit_normal_of(dx, dy).0 as i32, y: unit_normal_of(dx, dy).1 as i32 }
}

/// The smoothing data of `p` computed from its neighbour `from`.
pub open spec fn record(p: Point, now: u64, from: Point) -> GestureData {
    GestureData {
        point: p,
        instant: now,
        tangent: Offset { dx: (p.x - from.x) as i64, dy: (p.y - from.y) as i64 },
        normal: normal_of(p.x - from.x, p.y - from.y),
    }
}

/// The record of a point that has no smoothing data yet.
pub open spec fn bare_record(p: Point, now: u64) -> GestureData {
    GestureData { point: p, instant: now, tangent: Offset { dx: 0, dy: 0 }, normal: Point { x: 0, y: 0 } }
}

/// The buffer after `p` is appended: from the third point on, the new record
/// takes its data from its predecessor, and the predecessor's data is
/// recomputed between its two neighbours.
pub open spec fn appended(buf: Seq<GestureData>, p: Point, now: u64) -> Seq<GestureData> {
    if buf.len() >= 2 {
        let prev = buf[buf.len() - 1];
        let before = buf[buf.len() - 2].point;
        let fixed = GestureData {
            tangent: Offset { dx: (p.x - before.x) as i64, dy: (p.y - before.y) as i64 },
            normal: normal_of(p.x - before.x, p.y - before.y),
            ..prev
        };
        buf.update(buf.len() - 2 + 1, fixed).push(record(p, now, prev.point))
    } else {
        buf.push(bare_record(p, now))
    }
}

/// The point passes the distance gate of the buffer.
pub open spec fn accepts(buf: Seq<GestureData>, p: Point) -> bool {
    buf.len() == 0 || spaced(buf.last().point, p)
}

/// A finished trace: closed, with at least one point, gated.
pub open spec fn is_archived(g: Gesture) -> bool {
    &&& g.end_instant is Some
    &&& g.buffer@.len() > 0
    &&& is_gated(g.buffer@)
}

/// A finished trace is still visible at `now`; an open one always is.
pub open spec fn is_fresh(g: Gesture, now: u64) -> bool {
    match g.end_instant {
        Some(e) => age(now, e) < FADE_DURATION,
        None => true,
    }
}

/// The entries of `h` that are still visible at `now`, in order.
pub open spec fn fresh_entries(h: Seq<Gesture>, now: u64) -> Seq<Gesture>
    decreases h.len(),
{
    if h.len() == 0 {
        Seq::empty()
    } else {
        let r = fresh_entries(h.drop_last(), now);
        if is_fresh(h.last(), now) {
            r.push(h.last())
        } else {
            r
        }
    }
}

/// The direction of a flick, by the angle of `end - start` turned a quarter
/// so that up is zero: 50-degree sectors around the four sides and
/// 40-degree sectors around the diagonals.
pub open spec fn direction_of_degrees(a: int) -> ActionDirection {
    let n = (a + 90) % 360;
    if n < 20 || n >= 340 {
        ActionDirection::Top
    } else if n < 70 {
        ActionDirection::TopRight
    } else if n < 110 {
        ActionDirection::Right
    } else if n < 160 {
        ActionDirection::BottomRight
    } else if n < 200 {
        ActionDirection::Bottom
    } else if n < 250 {
        ActionDirection::BottomLeft
    } else if n < 290 {
        ActionDirection::Left
    } else {
        ActionDirection::TopLeft
    }
}

pub open spec fn flick_direction(start: Point, end: Point) -> ActionDirection {
    direction_of_degrees(direction_degrees(end.x - start.x, end.y - start.y) as int)
}

/// What is left of the fade at `age`: 1 - age / FADE_DURATION, scaled by `m`.
pub open spec fn faded(m: int, age: int) -> int {
    m * (FADE_DURATION - age) / (FADE_DURATION as int)
}

/// How a retained point is drawn at `now`.
pub open spec fn ribbon_point(d: GestureData, now: u64) -> RibbonPoint {
    let a = age(now, d.instant);
    let w = faded(MAX_WIDTH as int, a);
    RibbonPoint {
        point: d.point,
        normal: d.normal,
        width: (if w < MIN_WIDTH { MIN_WIDTH as int } else { w }) as u64,
        opacity: faded(MAX_OPACITY as int, a) as u64,
    }
}

/// The drawn points of a trace: those no older than the fade duration.
pub open spec fn ribbon_of(buf: Seq<GestureData>, now: u64) -> Seq<RibbonPoint>
    decreases buf.len(),
{
    if buf.len() == 0 {
        Seq::empty()
    } else {
        let r = ribbon_of(buf.drop_last(), now);
        if age(now, buf.last().instant) <= FADE_DURATION {
            r.push(ribbon_point(buf.last(), now))
        } else {
            r
        }
    }
}

/// The ribbons of a list of traces: one for each trace with two or more
/// drawn points.
pub open spec fn ribbons_of(traces: Seq<Seq<GestureData>>, now: u64) -> Seq<Seq<RibbonPoint>>
    decreases traces.len(),
{
    if traces.len() == 0 {
        Seq::empty()
    } else {
        let r = ribbons_of(traces.drop_last(), now);
        if ribbon_of(traces.last(), now).len() >= 2 {
            r.push(ribbon_of(traces.last(), now))
        } else {
            r
        }
    }
}

/// `n` is the handler `o` after a trace was begun at `now`: an open trace
/// is kept as it is, otherwise an empty one is opened.
pub open spec fn started(o: GestureHandler, n: GestureHandler, now: u64) -> bool {
    &&& n.history@ == o.history@
    &&& o.current_gesture is Some ==> n.current_gesture == o.current_gesture
    &&& o.current_gesture is None ==> (n.current_gesture matches Some(g) && g.start_instant == now
        && g.end_instant is None && g.buffer@.len() == 0)
}

/// `n` is the handler `o` after the pointer moved to `p` at `now`: the faded
/// history is dropped, a trace is open, and the point was appended to it
/// exactly when `accepted`, that is when it passes the distance gate.
pub open spec fn moved_to(o: GestureHandler, n: GestureHandler, p: Point, now: u64, accepted: bool) -> bool {
    &&& n.history@ == fresh_entries(o.history@, now)
    &&& n.current_gesture matches Some(g) && ({
        let before = match o.current_gesture {
            Some(c) => c.buffer@,
            None => Seq::empty(),
        };
        &&& accepted == accepts(before, p)
        &&& g.buffer@ == if accepted {
            appended(before, p, now)
        } else {
            before
        }
        &&& g.start_instant == match o.current_gesture {
            Some(c) => c.start_instant,
            None => now,
        }
    })
}

/// `n` is the handler `o` after the pointer was released at `now`: no trace
/// is open; a trace without points is dropped, any other is archived, and a
/// short one is a flick in the direction `flick`.
pub open spec fn released(o: GestureHandler, n: GestureHandler, now: u64, flick: Option<ActionDirection>) -> bool {
    &&& n.current_gesture is None
    &&& match o.current_gesture {
        None => n.history@ == o.history@ && flick is None,
        Some(g) => if g.buffer@.len() == 0 {
            n.history@ == o.history@ && flick is None
        } else {
            &&& n.history@.len() == o.history@.len() + 1
            &&& n.history@.drop_last() == o.history@
            &&& n.history@.last().buffer@ == g.buffer@
            &&& n.history@.last().start_instant == g.start_instant
            &&& n.history@.last().end_instant == Some(now)
            &&& flick == if age(now, g.start_instant) < ACTION_GESTURE_DURATION {
                Some(flick_direction(g.buffer@[0].point, g.buffer@.last().point))
            } else {
                None
            }
        },
    }
}

// ---------------------------------------------------------------------------
// Lemmas
// ---------------------------------------------------------------------------
proof fn lemma_appended_gated(buf: Seq<GestureData>, p: Point, now: u64)
    requires
        is_gated(buf),
        accepts(buf, p),
    ensures
        is_gated(appended(buf, p, now)),
        appended(buf, p, now).len() == buf.len() + 1,
        appended(buf, p, now).last().point == p,
        forall|i: int| 0 <= i < buf.len() ==> #[trigger] appended(buf, p, now)[i].point == buf[i].point,
{
    let r = appended(buf, p, now);
    assert forall|i: int| 0 <= i < buf.len() implies #[trigger] r[i].point == buf[i].point by {}
    assert forall|i: int| 0 < i < r.len() implies spaced(r[i - 1].point, #[trigger] r[i].point) by {
        if i < buf.len() {
            assert(r[i - 1].point == buf[i - 1].point);
            assert(r[i].point == buf[i].point);
            assert(spaced(buf[i - 1].point, buf[i].point));
        } else {
            assert(r[i - 1].point == buf.last().point);
        }
    }
}

/// In a well-formed handler, any two consecutive retained points of the
/// current trace or of a trace in the history lie at least the minimum
/// spacing apart.
pub proof fn lemma_traces_spaced(h: GestureHandler, t: int, i: int)
    requires
        h.wf(),
        0 <= t < h.traces().len(),
        0 < i < h.traces()[t].len(),
    ensures
        dist2(h.traces()[t][i - 1].point, h.traces()[t][i].point) >= MIN_SPACING * MIN_SPACING,
{
    let buf = h.traces()[t];
    if t < h.history@.len() {
        assert(is_archived(h.history@[t]));
        assert(buf == h.history@[t].buffer@);
    }
    assert(spaced(buf[i - 1].point, buf[i].point));
}

/// Every entry kept at `now` is still visible then, and comes from the
/// history it was kept from.
pub proof fn lemma_fresh_entries_all(h: Seq<Gesture>, now: u64)
    ensures
        forall|i: int|
            0 <= i < fresh_entries(h, now).len() ==> is_fresh(
                #[trigger] fresh_entries(h, now)[i],
                now,
            ) && exists|j: int| 0 <= j < h.len() && h[j] == fresh_entries(h, now)[i],
    decreases h.len(),
{
    if h.len() > 0 {
        lemma_fresh_entries_all(h.drop_last(), now);
        let r = fresh_entries(h.drop_last(), now);
        assert forall|i: int| 0 <= i < fresh_entries(h, now).len() implies is_fresh(
            #[trigger] fresh_entries(h, now)[i],
            now,
        ) && exists|j: int| 0 <= j < h.len() && h[j] == fresh_entries(h, now)[i] by {
            if i < r.len() {
                assert(fresh_entries(h, now)[i] == r[i]);
                let j = choose|j: int| 0 <= j < h.drop_last().len() && h.drop_last()[j] == r[i];
                assert(h[j] == r[i]);
            } else {
                assert(h[h.len() - 1] == fresh_entries(h, now)[i]);
            }
        }
    }
}

// ---------------------------------------------------------------------------
// Operations
// ---------------------------------------------------------------------------
fn elapsed(now: u64, then: u64) -> (r: u64)
    ensures
        r == age(now, then),
{
    if now >= then {
        now - then
    } else {
        0
    }
}

/// The data of `p` computed from its neighbour `from`.
fn make_record(p: Point, now: u64, from: Point) -> (d: GestureData)
    ensures
        d == record(p, now, from),
{
    let dx: i64 = p.x as i64 - from.x as i64;
    let dy: i64 = p.y as i64 - from.y as i64;
    let normal = unit_normal(dx, dy);
    GestureData { point: p, instant: now, tangent: Offset { dx, dy }, normal }
}

/// The flick direction from `start` to `end`.
pub fn action_direction(start: Point, end: Point) -> (d: ActionDirection)
    ensures
        d == flick_direction(start, end),
{
    let a = direction(end.x as i128 - start.x as i128, end.y as i128 - start.y as i128);
    let n: u32 = (a + 90) % 360;
    if n < 20 || n >= 340 {
        ActionDirection::Top
    } else if n < 70 {
        ActionDirection::TopRight
    } else if n < 110 {
        ActionDirection::Right
    } else if n < 160 {
        ActionDirection::BottomRight
    } else if n < 200 {
        ActionDirection::Bottom
    } else if n < 250 {
        ActionDirection::BottomLeft
    } else if n < 290 {
        ActionDirection::Left
    } else {
        ActionDirection::TopLeft
    }
}

impl Gesture {
    /// An open trace begun at `now`, with no points.
    pub fn new(now: u64) -> (g: Gesture)
        ensures
            g.start_instant == now,
            g.end_instant is None,
            g.buffer@.len() == 0,
    {
        Gesture { start_instant: now, end_instant: None, buffer: Vec::new() }
    }

    /// Appends `p`, sampled at `now`, unless it lies closer than the minimum
    /// spacing to the last retained point. Returns whether it was retained.
    pub fn append(&mut self, p: Point, now: u64) -> (accepted: bool)
        requires
            is_gated(old(self).buffer@),
        ensures
            accepted == accepts(old(self).buffer@, p),
            final(self).buffer@ == if accepted {
                appended(old(self).buffer@, p, now)
            } else {
                old(self).buffer@
            },
            is_gated(final(self).buffer@),
            final(self).start_instant == old(self).start_instant,
            final(self).end_instant == old(self).end_instant,
    {
        let len = self.buffer.len();
        if len > 0 {
            let last = self.buffer[len - 1].point;
            if distance_squared(last, p) < MIN_SPACING * MIN_SPACING {
                return false;
            }
        }
        proof {
            lemma_appended_gated(self.buffer@, p, now);
        }
        if len >= 2 {
            let before = self.buffer[len - 2].point;
            let prev = self.buffer[len - 1];
            let fixed = GestureData {
                tangent: Offset { dx: p.x as i64 - before.x as i64, dy: p.y as i64 - before.y as i64 },
                normal: unit_normal(p.x as i64 - before.x as i64, p.y as i64 - before.y as i64),
                ..prev
            };
            self.buffer.set(len - 1, fixed);
            let fresh = make_record(p, now, prev.point);
            self.buffer.push(fresh);
        } else {
            self.buffer.push(GestureData {
                point: p,
                instant: now,
                tangent: Offset { dx: 0, dy: 0 },
                normal: Point::zero(),
            });
        }
        true
    }
}

impl GestureHandler {
    /// The handler's invariant: the history holds finished traces only, the
    /// current trace is open, and every buffer is gated.
    pub open spec fn wf(&self) -> bool {
        &&& forall|i: int| 0 <= i < self.history@.len() ==> is_archived(#[trigger] self.history@[i])
        &&& match self.current_gesture {
            Some(g) => g.end_instant is None && is_gated(g.buffer@),
            None => true,
        }
    }

    pub fn new() -> (h: GestureHandler)
        ensures
            h.wf(),
            h.history@.len() == 0,
            h.current_gesture is None,
    {
        GestureHandler { history: Vec::new(), current_gesture: None }
    }

    /// Opens a trace at `now`; does nothing while one is open.
    pub fn start(&mut self, now: u64)
        requires
            old(self).wf(),
        ensures
            final(self).wf(),
            started(*old(self), *final(self), now),
    {
        if self.current_gesture.is_none() {
            self.current_gesture = Some(Gesture::new(now));
        }
    }

    /// Drops the finished traces that have faded at `now`.
    pub fn clear_history(&mut self, now: u64)
        requires
            old(self).wf(),
        ensures
            final(self).wf(),
            final(self).history@ == fresh_entries(old(self).history@, now),
            final(self).current_gesture == old(self).current_gesture,
            forall|i: int|
                0 <= i < final(self).history@.len() ==> (#[trigger] final(self).history@[i].end_instant
                    matches Some(e) && age(now, e) < FADE_DURATION),
    {
        let ghost orig = self.history@;
        let mut rest: Vec<Gesture> = Vec::new();
        std::mem::swap(&mut rest, &mut self.history);
        let mut kept: Vec<Gesture> = Vec::new();
        let n: usize = rest.len();
        let mut i: usize = 0;
        assert(orig.subrange(0, 0) =~= Seq::<Gesture>::empty());
        assert(orig.subrange(0, n as int) =~= orig);
        while rest.len() > 0
            invariant
                i <= n,
                orig.len() == n,
                rest@ == orig.subrange(i as int, n as int),
                rest@.len() == n - i,
                kept@ == fresh_entries(orig.subrange(0, i as int), now),
            decreases rest@.len(),
        {
            let g = rest.remove(0);
            proof {
                assert(g == orig[i as int]);
                assert(orig.subrange(0, i + 1).drop_last() =~= orig.subrange(0, i as int));
                assert(orig.subrange(0, i + 1).last() == orig[i as int]);
                assert(orig.subrange(i as int, n as int).remove(0) =~= orig.subrange(i + 1, n as int));
            }
            let keep = match g.end_instant {
                Some(e) => elapsed(now, e) < FADE_DURATION,
                None => true,
            };
            if keep {
                kept.push(g);
            }
            i = i + 1;
        }
        proof {
            assert(i == n);
            lemma_fresh_entries_all(orig, now);
            assert forall|k: int| 0 <= k < kept@.len() implies is_archived(#[trigger] kept@[k]) by {
                let j = choose|j: int| 0 <= j < orig.len() && orig[j] == fresh_entries(orig, now)[k];
                assert(is_archived(orig[j]));
            }
        }
        self.history = kept;
    }

    /// Feeds a pointer position sampled at `now`: faded history is dropped,
    /// a trace is opened if none is, and the point is appended to it unless it
    /// lies closer than the minimum spacing to the last retained point.
    /// Returns whether the point was retained.
    pub fn update_move(&mut self, p: Point, now: u64) -> (accepted: bool)
        requires
            old(self).wf(),
        ensures
            final(self).wf(),
            moved_to(*old(self), *final(self), p, now, accepted),
    {
        self.clear_history(now);
        let mut g = match self.current_gesture.take() {
            Some(g) => g,
            None => Gesture::new(now),
        };
        proof {
            assert(g.buffer@ =~= match old(self).current_gesture {
                Some(o) => o.buffer@,
                None => Seq::<GestureData>::empty(),
            });
        }
        let accepted = g.append(p, now);
        self.current_gesture = Some(g);
        accepted
    }

    /// Closes the current trace at `now`. A trace without points (a tap) is
    /// discarded; any other is archived in the history. A trace that lasted
    /// less than the action-gesture duration is a flick, whose direction
    /// from its first to its last point is returned.
    pub fn end(&mut self, now: u64) -> (flick: Option<ActionDirection>)
        requires
            old(self).wf(),
        ensures
            final(self).wf(),
            released(*old(self), *final(self), now, flick),
    {
        match self.current_gesture.take() {
            None => None,
            Some(mut g) => {
                if g.buffer.len() == 0 {
                    return None;
                }
                g.end_instant = Some(now);
                let duration = elapsed(now, g.start_instant);
                let first = g.buffer[0].point;
                let last = g.buffer[g.buffer.len() - 1].point;
                self.history.push(g);
                proof {
                    assert(self.history@.drop_last() =~= old(self).history@);
                }
                if duration < ACTION_GESTURE_DURATION {
                    Some(action_direction(first, last))
                } else {
                    None
                }
            },
        }
    }

    /// The ribbon points of one trace at `now`.
    fn ribbon(buf: &Vec<GestureData>, now: u64) -> (r: Vec<RibbonPoint>)
        ensures
            r@ == ribbon_of(buf@, now),
    {
        let mut r: Vec<RibbonPoint> = Vec::new();
        let mut i: usize = 0;
        while i < buf.len()
            invariant
                i <= buf@.len(),
                r@ == ribbon_of(buf@.subrange(0, i as int), now),
            decreases buf@.len() - i,
        {
            proof {
                assert(buf@.subrange(0, i + 1).drop_last() =~= buf@.subrange(0, i as int));
            }
            let d = buf[i];
            let a = elapsed(now, d.instant);
            if a <= FADE_DURATION {
                let w: u64 = MAX_WIDTH * (FADE_DURATION - a) / FADE_DURATION;
                let o: u64 = MAX_OPACITY * (FADE_DURATION - a) / FADE_DURATION;
                let width = if w < MIN_WIDTH {
                    MIN_WIDTH
                } else {
                    w
                };
                r.push(RibbonPoint { point: d.point, normal: d.normal, width, opacity: o });
            }
            i = i + 1;
        }
        proof {
            assert(buf@.subrange(0, buf@.len() as int) =~= buf@);
        }
        r
    }

    /// The buffers of all retained traces: the history, oldest first, then
    /// the current trace.
    pub open spec fn traces(&self) -> Seq<Seq<GestureData>> {
        let h = self.history@.map_values(|g: Gesture| g.buffer@);
        match self.current_gesture {
            Some(g) => h.push(g.buffer@),
            None => h,
        }
    }

    /// Drops the faded history, then returns one ribbon for each retained
    /// trace with at least two points younger than the fade duration. Each
    /// drawn point fades linearly with its age: its width from `MAX_WIDTH`
    /// down to no less than `MIN_WIDTH`, its opacity from `MAX_OPACITY` down
    /// to zero.
    pub fn render_segments(&mut self, now: u64) -> (r: Vec<Vec<RibbonPoint>>)
        requires
            old(self).wf(),
        ensures
            final(self).wf(),
            final(self).history@ == fresh_entries(old(self).history@, now),
            final(self).current_gesture == old(self).current_gesture,
            r@.map_values(|v: Vec<RibbonPoint>| v@) == ribbons_of(final(self).traces(), now),
    {
        self.clear_history(now);
        let ghost traces = self.traces();
        let mut r: Vec<Vec<RibbonPoint>> = Vec::new();
        let mut i: usize = 0;
        let hl = self.history.len();
        assert(traces.subrange(0, 0) =~= Seq::<Seq<GestureData>>::empty());
        while i < hl
            invariant
                traces == self.traces(),
                hl == self.history@.len(),
                i <= hl,
                r@.map_values(|v: Vec<RibbonPoint>| v@) == ribbons_of(traces.subrange(0, i as int), now),
            decreases hl - i,
        {
            proof {
                assert(traces.subrange(0, i + 1).drop_last() =~= traces.subrange(0, i as int));
                assert(traces.subrange(0, i + 1).last() == traces[i as int]);
                assert(traces[i as int] == self.history@[i as int].buffer@);
            }
            let strip = Self::ribbon(&self.history[i].buffer, now);
            if strip.len() >= 2 {
                let ghost before = r@;
                let ghost sv = strip@;
                r.push(strip);
                proof {
                    assert(r@.map_values(|v: Vec<RibbonPoint>| v@) =~= before.map_values(
                        |v: Vec<RibbonPoint>| v@,
                    ).push(sv));
                }
            }
            i = i + 1;
        }
        match &self.current_gesture {
            Some(g) => {
                proof {
                    assert(traces.drop_last() =~= traces.subrange(0, hl as int));
                    assert(traces.last() == g.buffer@);
                }
                let strip = Self::ribbon(&g.buffer, now);
                if strip.len() >= 2 {
                    let ghost before = r@;
                    let ghost sv = strip@;
                    r.push(strip);
                    proof {
                        assert(r@.map_values(|v: Vec<RibbonPoint>| v@) =~= before.map_values(
                            |v: Vec<RibbonPoint>| v@,
                        ).push(sv));
                    }
                }
            },
            None => {
                proof {
                    assert(traces.subrange(0, hl as int) =~= traces);
                }
            },
        }
        r
    }
}

} // verus!
