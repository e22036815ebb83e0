//! The engine's boundary: the host forwards every pointer event here, and
//! both consumers, the gesture trace and the candidate engine, see it.

use vstd::prelude::*;
use crate::beam::{MAX_SEARCH_DEPTH, MAX_SEARCH_STEPS, ranked_words, words_view};
use crate::candidate::{Message, SearchHandler, ended, fed, region_reported};
use crate::dictionary::DictionaryIndex;
use crate::geometry::{Point, Rect};
use crate::trace::{
    ActionDirection, GestureHandler, RibbonPoint, fresh_entries, moved_to, released, ribbons_of,
};

verus! {

/// The glide-typing engine: the trace of the current gesture, its fading
/// history, and the candidates and predictions it yields.
#[derive(Debug)]
pub struct GlideTyping {
    pub trace: GestureHandler,
    pub engine: SearchHandler,
}

impl GlideTyping {
    pub open spec fn wf(&self) -> bool {
        self.trace.wf() && self.engine.wf()
    }

    /// An engine with no keys, no gesture and the dictionary `dict`.
    pub fn new(dict: DictionaryIndex) -> (g: GlideTyping)
        ensures
            g.wf(),
            g.trace.history@.len() == 0,
            g.trace.current_gesture is None,
            g.engine.components@.len() == 0,
            g.engine.weighted_items@.len() == 0,
            g.engine.dictionary == Some(dict),
    {
        GlideTyping { trace: GestureHandler::new(), engine: SearchHandler::with_dictionary(dict) }
    }

    /// The layout reports that the key `key_id` is drawn at `bounds`.
    pub fn report_key_region(&mut self, key_id: Vec<u8>, bounds: Rect)
        requires
            old(self).wf(),
        ensures
            final(self).wf(),
            final(self).trace == old(self).trace,
            final(self).engine.weighted_items == old(self).engine.weighted_items,
            final(self).engine.dictionary == old(self).engine.dictionary,
            region_reported(old(self).engine.components@, final(self).engine.components@, key_id@, bounds),
    {
        self.engine.update(Message::Update(key_id, bounds));
    }

    /// The layout is gone: all key regions and candidates are forgotten.
    pub fn clear_key_regions(&mut self)
        requires
            old(self).wf(),
        ensures
            final(self).wf(),
            final(self).trace == old(self).trace,
            final(self).engine.components@.len() == 0,
            final(self).engine.weighted_items@.len() == 0,
            final(self).engine.dictionary == old(self).engine.dictionary,
    {
        self.engine.update(Message::Reset);
    }

    /// The pointer went down at `now`: a trace is opened (unless one is
    /// open) and the candidate sequence is cleared.
    pub fn on_pointer_down(&mut self, now: u64)
        requires
            old(self).wf(),
        ensures
            final(self).wf(),
            final(self).trace.history@ == old(self).trace.history@,
            old(self).trace.current_gesture is Some ==> final(self).trace.current_gesture == old(self).trace.current_gesture,
            old(self).trace.current_gesture is None ==> (final(self).trace.current_gesture matches Some(g)
                && g.start_instant == now && g.end_instant is None && g.buffer@.len() == 0),
            final(self).engine.weighted_items@.len() == 0,
            final(self).engine.components == old(self).engine.components,
            final(self).engine.dictionary == old(self).engine.dictionary,
    {
        self.trace.start(now);
        self.engine.start();
    }

    /// The pointer moved to `p` at `now`: the sample goes to the trace and to
    /// the candidate engine. Returns whether a key region holds it.
    pub fn on_pointer_move(&mut self, p: Point, now: u64) -> (hit: bool)
        requires
            old(self).wf(),
        ensures
            final(self).wf(),
            exists|accepted: bool| #[trigger] moved_to(old(self).trace, final(self).trace, p, now, accepted),
            fed(old(self).engine, final(self).engine, p, hit),
    {
        let _accepted = self.trace.update_move(p, now);
        self.engine.update_move(p)
    }

    /// The pointer went up at `now`: the trace is closed (or dropped if it
    /// has no points) and the last candidate closed. Returns the direction
    /// of a flick, if the gesture was one.
    pub fn on_pointer_up(&mut self, now: u64) -> (flick: Option<ActionDirection>)
        requires
            old(self).wf(),
        ensures
            final(self).wf(),
            released(old(self).trace, final(self).trace, now, flick),
            ended(old(self).engine, final(self).engine),
    {
        let flick = self.trace.end(now);
        self.engine.end();
        flick
    }

    /// The predicted words for the current candidates, at most three.
    pub fn current_predictions(&self) -> (r: Vec<Vec<u8>>)
        ensures
            words_view(r@) == match self.engine.dictionary {
                Some(d) => ranked_words(
                    d@,
                    self.engine.weighted_items@,
                    MAX_SEARCH_DEPTH as int,
                    MAX_SEARCH_STEPS as nat,
                ),
                None => Seq::empty(),
            },
    {
        self.engine.current_predictions()
    }

    /// The fading ribbons of the current and recent traces at `now`; faded
    /// traces are dropped from the history first.
    pub fn render_segments(&mut self, now: u64) -> (r: Vec<Vec<RibbonPoint>>)
        requires
            old(self).wf(),
        ensures
            final(self).wf(),
            final(self).engine == old(self).engine,
            final(self).trace.history@ == fresh_entries(old(self).trace.history@, now),
            final(self).trace.current_gesture == old(self).trace.current_gesture,
            r@.map_values(|v: Vec<RibbonPoint>| v@) == ribbons_of(final(self).trace.traces(), now),
    {
        self.trace.render_segments(now)
    }
}

} // verus!
