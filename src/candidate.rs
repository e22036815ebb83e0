//! The candidate engine: live pointer samples are hit-tested against the key
//! regions of the layout and folded into a sequence of weighted key
//! candidates, which drive an incremental dictionary search.

use vstd::prelude::*;
use crate::dictionary::{
    DictionaryIndex, QueryAnswer, advance, query_answer,
};
use crate::geometry::{
    Point, Rect, center_dist2, contains, dist2, distance_squared, distance_squared_to_center,
    gaussian_falloff, gaussian_score, turn_degrees, turning_angle,
};

verus! {

/// The least distance, in pixels, between two filtered points of a candidate.
pub const CANDIDATE_MIN_SPACING: i128 = 15;

/// Candidates weighing less than this take no part in the search.
pub const RELEVANCE_THRESHOLD: u32 = 100;

/// The weight added to the first and the last candidate of a gesture.
pub const ENDPOINT_BONUS: u32 = 200;

/// The largest weight; sums saturate there.
pub const MAX_WEIGHT: u32 = 0xffff_ffff;

/// A key of the layout: its text and where it is drawn.
#[derive(Debug)]
pub struct KeyRegion {
    pub text: Vec<u8>,
    pub bounds: Rect,
}

/// A hypothesised key press: one contiguous dwell of the pointer over a key.
#[derive(Debug)]
pub struct Candidate {
    /// The text of the key, in UTF-8.
    pub text: Vec<u8>,
    pub bounds: Rect,
    /// Every sample taken over the key.
    pub points: Vec<Point>,
    /// The samples that pass the distance gate.
    pub filtered_points: Vec<Point>,
    pub weight: u32,
    pub position_weight: u32,
    pub first_or_last_weight: bool,
    pub angles_change_weight: u32,
    pub is_complete: bool,
}

// ---------------------------------------------------------------------------
// The model of a candidate
// ---------------------------------------------------------------------------
pub open spec fn max(a: int, b: int) -> int {
    if a >= b {
        a
    } else {
        b
    }
}

pub open spec fn min(a: int, b: int) -> int {
    if a <= b {
        a
    } else {
        b
    }
}

/// Two points are far enough apart to both be kept as filtered points.
pub open spec fn far_enough(a: Point, b: Point) -> bool {
    dist2(a, b) >= CANDIDATE_MIN_SPACING * CANDIDATE_MIN_SPACING
}

/// Each filtered point is at least the minimum spacing from its predecessor.
pub open spec fn is_spaced(s: Seq<Point>) -> bool {
    forall|i: int| 0 < i < s.len() ==> far_enough(s[i - 1], #[trigger] s[i])
}

/// The filtered points after a sample `p`: it is kept when there is no
/// earlier one or it lies far enough from the last.
pub open spec fn gated(s: Seq<Point>, p: Point) -> Seq<Point> {
    if s.len() == 0 || far_enough(s.last(), p) {
        s.push(p)
    } else {
        s
    }
}

/// The position component that the latest sample earns: the Gaussian falloff
/// of its distance to the key's centre, once there are two samples or more.
pub open spec fn position_score(c: Candidate) -> int {
    if c.points@.len() > 1 {
        gaussian_score(center_dist2(c.bounds, c.points@.last())) as int
    } else {
        0
    }
}

/// The turning angle of the last three filtered points, when there are three.
pub open spec fn angle_score(c: Candidate) -> int {
    let f = c.filtered_points@;
    if f.len() > 2 {
        turn_degrees(f[f.len() - 3], f[f.len() - 2], f[f.len() - 1]) as int
    } else {
        0
    }
}

/// The sum of the four components: position, point count, angle change and
/// endpoint bonus, saturating at `MAX_WEIGHT`.
pub open spec fn derived_weight(c: Candidate) -> int {
    min(
        c.position_weight + c.filtered_points@.len() + c.angles_change_weight + if c.first_or_last_weight {
            ENDPOINT_BONUS as int
        } else {
            0
        },
        MAX_WEIGHT as int,
    )
}

/// `n` carries the weights recomputed from the running maxima `pos`, `ang`
/// and the weight `w` that the candidate had before: each component keeps
/// its maximum, and the weight never falls.
pub open spec fn reweighed(pos: u32, ang: u32, w: u32, n: Candidate) -> bool {
    &&& n.position_weight == max(pos as int, position_score(n))
    &&& n.angles_change_weight == max(ang as int, angle_score(n))
    &&& n.weight == max(w as int, derived_weight(n))
}

/// `n` is `o` with its text, bounds, samples and flags.
pub open spec fn same_shape(o: Candidate, n: Candidate) -> bool {
    &&& n.text@ == o.text@
    &&& n.bounds == o.bounds
    &&& n.points@ == o.points@
    &&& n.filtered_points@ == o.filtered_points@
    &&& n.first_or_last_weight == o.first_or_last_weight
    &&& n.is_complete == o.is_complete
}

/// `n` is `o` with the sample `p` taken.
pub open spec fn point_added(o: Candidate, n: Candidate, p: Point) -> bool {
    &&& n.text@ == o.text@
    &&& n.bounds == o.bounds
    &&& n.points@ == o.points@.push(p)
    &&& n.filtered_points@ == gated(o.filtered_points@, p)
    &&& n.first_or_last_weight == o.first_or_last_weight
    &&& n.is_complete == o.is_complete
}

/// A candidate's own invariant: its filtered points are spaced.
pub open spec fn candidate_wf(c: Candidate) -> bool {
    is_spaced(c.filtered_points@)
}

/// The weight never falls when it is recomputed.
pub proof fn lemma_weight_monotonic(pos: u32, ang: u32, w: u32, n: Candidate)
    requires
        reweighed(pos, ang, w, n),
    ensures
        n.weight >= w,
        n.position_weight >= pos,
        n.angles_change_weight >= ang,
{
}

fn sat_add(a: u32, b: u32) -> (r: u32)
    ensures
        r == min(a + b, MAX_WEIGHT as int),
{
    if a > MAX_WEIGHT - b {
        MAX_WEIGHT
    } else {
        a + b
    }
}

/// A copy of a byte string.
pub fn copy_bytes(v: &Vec<u8>) -> (r: Vec<u8>)
    ensures
        r@ == v@,
{
    let r = v.clone();
    assert(r@ =~= v@);
    r
}

/// Whether two byte strings are equal.
pub fn bytes_eq(a: &Vec<u8>, b: &Vec<u8>) -> (r: bool)
    ensures
        r == (a@ == b@),
{
    if a.len() != b.len() {
        return false;
    }
    let mut i: usize = 0;
    while i < a.len()
        invariant
            a@.len() == b@.len(),
            i <= a@.len(),
            forall|k: int| 0 <= k < i ==> a@[k] == b@[k],
        decreases a@.len() - i,
    {
        if a[i] != b[i] {
            return false;
        }
        i = i + 1;
    }
    assert(a@ =~= b@);
    true
}

impl Candidate {
    /// A candidate for `region`, with no samples and no weight.
    pub fn new(region: &KeyRegion) -> (c: Candidate)
        ensures
            c.text@ == region.text@,
            c.bounds == region.bounds,
            c.points@.len() == 0,
            c.filtered_points@.len() == 0,
            c.weight == 0,
            c.position_weight == 0,
            c.angles_change_weight == 0,
            !c.first_or_last_weight,
            !c.is_complete,
            candidate_wf(c),
    {
        Candidate {
            text: copy_bytes(&region.text),
            bounds: region.bounds,
            points: Vec::new(),
            filtered_points: Vec::new(),
            weight: 0,
            position_weight: 0,
            first_or_last_weight: false,
            angles_change_weight: 0,
            is_complete: false,
        }
    }

    /// Takes the sample `p`: it is always recorded, and kept as a filtered
    /// point unless it lies closer than the minimum spacing to the last one.
    pub fn add_point(&mut self, p: Point)
        requires
            candidate_wf(*old(self)),
        ensures
            candidate_wf(*final(self)),
            point_added(*old(self), *final(self), p),
            final(self).weight == old(self).weight,
            final(self).position_weight == old(self).position_weight,
            final(self).angles_change_weight == old(self).angles_change_weight,
    {
        self.points.push(p);
        let n = self.filtered_points.len();
        if n > 0 {
            let last = self.filtered_points[n - 1];
            if distance_squared(last, p) < CANDIDATE_MIN_SPACING * CANDIDATE_MIN_SPACING {
                return ;
            }
        }
        let ghost before = self.filtered_points@;
        self.filtered_points.push(p);
        proof {
            assert forall|i: int| 0 < i < self.filtered_points@.len() implies far_enough(
                self.filtered_points@[i - 1],
                #[trigger] self.filtered_points@[i],
            ) by {
                if i < before.len() {
                    assert(self.filtered_points@[i - 1] == before[i - 1]);
                    assert(self.filtered_points@[i] == before[i]);
                }
            }
        }
    }

    /// Recomputes the weight: each component keeps its running maximum, the
    /// weight becomes the larger of its old value and the sum of the
    /// components. Returns whether the weight rose.
    pub fn update_weight(&mut self) -> (rose: bool)
        ensures
            same_shape(*old(self), *final(self)),
            reweighed(
                old(self).position_weight,
                old(self).angles_change_weight,
                old(self).weight,
                *final(self),
            ),
            rose == (final(self).weight > old(self).weight),
    {
        let np = self.points.len();
        if np > 1 {
            let falloff = gaussian_falloff(distance_squared_to_center(&self.bounds, self.points[np - 1]));
            if falloff > self.position_weight {
                self.position_weight = falloff;
            }
        }
        let nf = self.filtered_points.len();
        if nf > 2 {
            let angle = turning_angle(
                self.filtered_points[nf - 3],
                self.filtered_points[nf - 2],
                self.filtered_points[nf - 1],
            );
            if angle > self.angles_change_weight {
                self.angles_change_weight = angle;
            }
        }
        let count: u32 = if nf as u64 > MAX_WEIGHT as u64 {
            MAX_WEIGHT
        } else {
            nf as u32
        };
        let mut w = sat_add(self.position_weight, count);
        w = sat_add(w, self.angles_change_weight);
        if self.first_or_last_weight {
            w = sat_add(w, ENDPOINT_BONUS);
        }
        if w > self.weight {
            self.weight = w;
            true
        } else {
            false
        }
    }
}

// ---------------------------------------------------------------------------
// The search over a candidate sequence
// ---------------------------------------------------------------------------
/// The byte length of a UTF-8 character, from its first byte.
pub open spec fn utf8_len(b: u8) -> int {
    if b < 0x80 {
        1
    } else if b < 0xe0 {
        2
    } else if b < 0xf0 {
        3
    } else {
        4
    }
}

/// The bytes of the first character of a non-empty text.
pub open spec fn first_char(t: Seq<u8>) -> Seq<u8> {
    t.subrange(0, min(utf8_len(t[0]), t.len() as int))
}

/// The cursor and the answer after the search has been fed the candidates
/// `items`: each candidate with a non-empty text and a weight of at least the
/// relevance threshold feeds its first character; one that the cursor
/// follows adds its text to the answer.
pub open spec fn search_run(words: Set<Seq<u8>>, items: Seq<Candidate>) -> (Seq<u8>, Seq<u8>)
    decreases items.len(),
{
    if items.len() == 0 {
        (Seq::empty(), Seq::empty())
    } else {
        let (at, answer) = search_run(words, items.drop_last());
        let it = items.last();
        if it.weight < RELEVANCE_THRESHOLD || it.text@.len() == 0 {
            (at, answer)
        } else {
            let q = first_char(it.text@);
            let next = advance(words, at, q);
            if query_answer(words, at, q) != QueryAnswer::NoMatch {
                (next, answer + it.text@)
            } else {
                (next, answer)
            }
        }
    }
}

/// The answer of a search over `items`.
pub open spec fn search_answer(words: Set<Seq<u8>>, items: Seq<Candidate>) -> Seq<u8> {
    search_run(words, items).1
}

fn first_char_bytes(t: &Vec<u8>) -> (r: Vec<u8>)
    requires
        t@.len() > 0,
    ensures
        r@ == first_char(t@),
{
    let b = t[0];
    let want: usize = if b < 0x80 {
        1
    } else if b < 0xe0 {
        2
    } else if b < 0xf0 {
        3
    } else {
        4
    };
    let n: usize = if want < t.len() {
        want
    } else {
        t.len()
    };
    let mut r: Vec<u8> = Vec::new();
    let mut i: usize = 0;
    while i < n
        invariant
            n <= t@.len(),
            i <= n,
            r@ == t@.subrange(0, i as int),
        decreases n - i,
    {
        r.push(t[i]);
        proof {
            assert(r@ =~= t@.subrange(0, i + 1));
        }
        i = i + 1;
    }
    r
}

/// Appends the bytes of `src` to `dst`.
pub fn append_bytes(dst: &mut Vec<u8>, src: &Vec<u8>)
    ensures
        final(dst)@ == old(dst)@ + src@,
{
    let mut i: usize = 0;
    while i < src.len()
        invariant
            i <= src@.len(),
            dst@ == old(dst)@ + src@.subrange(0, i as int),
        decreases src@.len() - i,
    {
        dst.push(src[i]);
        proof {
            assert(dst@ =~= old(dst)@ + src@.subrange(0, i + 1));
        }
        i = i + 1;
    }
    proof {
        assert(src@.subrange(0, src@.len() as int) =~= src@);
    }
}

/// Feeds the candidates to a fresh search of `dict` and returns the answer:
/// the texts of the relevant candidates that the cursor could follow.
pub fn search_word(dict: &DictionaryIndex, items: &Vec<Candidate>) -> (answer: Vec<u8>)
    ensures
        answer@ == search_answer(dict@, items@),
{
    let mut session = dict.inc_search();
    let mut answer: Vec<u8> = Vec::new();
    let mut i: usize = 0;
    assert(items@.subrange(0, 0) =~= Seq::<Candidate>::empty());
    while i < items.len()
        invariant
            i <= items@.len(),
            session.wf(),
            session.words() == dict@,
            (session@, answer@) == search_run(dict@, items@.subrange(0, i as int)),
        decreases items@.len() - i,
    {
        proof {
            assert(items@.subrange(0, i + 1).drop_last() =~= items@.subrange(0, i as int));
            assert(items@.subrange(0, i + 1).last() == items@[i as int]);
        }
        let item = &items[i];
        if item.weight >= RELEVANCE_THRESHOLD && item.text.len() > 0 {
            let q = first_char_bytes(&item.text);
            let res = session.query_incremental(q.as_slice());
            if res != QueryAnswer::NoMatch {
                append_bytes(&mut answer, &item.text);
            }
        }
        i = i + 1;
    }
    proof {
        assert(items@.subrange(0, items@.len() as int) =~= items@);
    }
    session.reset();
    answer
}

// ---------------------------------------------------------------------------
// The engine
// ---------------------------------------------------------------------------
/// A message from the layout.
#[derive(Debug)]
pub enum Message {
    /// A key is drawn at these bounds in this layout pass.
    Update(Vec<u8>, Rect),
    /// The layout is gone: forget the keys and the candidates.
    Reset,
}

/// The first region, in the order given, that holds the point.
pub open spec fn first_hit(regions: Seq<KeyRegion>, p: Point) -> Option<int> {
    if exists|k: int| 0 <= k < regions.len() && crate::geometry::rect_contains(regions[k].bounds, p) {
        let k = choose|k: int|
            0 <= k < regions.len() && crate::geometry::rect_contains(regions[k].bounds, p) && forall|
                j: int,
            |
                0 <= j < k ==> !crate::geometry::rect_contains(#[trigger] regions[j].bounds, p);
        Some(k)
    } else {
        None
    }
}

/// `n` is the engine `o` after a pointer sample at `p`; `hit` tells whether
/// a key region holds it. Without a hit nothing changes. On the key of the
/// open candidate the sample is folded into it; otherwise the last
/// candidate is closed and a new one opened, seeded with the sample, with the
/// endpoint bonus if it is the first of the gesture. Each touched candidate
/// is reweighed, and the answer is that of a new search.
pub open spec fn fed(o: SearchHandler, n: SearchHandler, p: Point, hit: bool) -> bool {
    &&& n.components == o.components
    &&& n.dictionary == o.dictionary
    &&& hit == first_hit(o.components@, p) is Some
    &&& !hit ==> n.weighted_items == o.weighted_items && n.answer == o.answer
    &&& hit ==> n.answer@ == n.expected_answer(n.weighted_items@)
    &&& hit ==> ({
        let region = o.components@[first_hit(o.components@, p)->Some_0];
        let old_items = o.weighted_items@;
        let items = n.weighted_items@;
        let len = old_items.len();
        if len > 0 && !old_items.last().is_complete && old_items.last().text@ == region.text@ {
            &&& items.len() == len
            &&& items.drop_last() == old_items.drop_last()
            &&& point_added(old_items.last(), items.last(), p)
            &&& reweighed(
                old_items.last().position_weight,
                old_items.last().angles_change_weight,
                old_items.last().weight,
                items.last(),
            )
        } else {
            &&& items.len() == len + 1
            &&& len > 0 ==> items.subrange(0, len - 1) == old_items.subrange(0, len - 1)
            &&& len > 0 ==> {
                let last = old_items.last();
                let c = items[len - 1];
                &&& c.text@ == last.text@
                &&& c.bounds == last.bounds
                &&& c.points@ == last.points@
                &&& c.filtered_points@ == last.filtered_points@
                &&& c.first_or_last_weight == last.first_or_last_weight
                &&& c.is_complete
                &&& reweighed(last.position_weight, last.angles_change_weight, last.weight, c)
            }
            &&& items.last().text@ == region.text@
            &&& items.last().bounds == region.bounds
            &&& items.last().points@ == seq![p]
            &&& items.last().filtered_points@ == seq![p]
            &&& items.last().first_or_last_weight == (len == 0)
            &&& !items.last().is_complete
            &&& reweighed(0, 0, 0, items.last())
        }
    })
}

/// `n` is the engine `o` after the gesture ended: the last candidate, if
/// any, is closed, given the endpoint bonus and reweighed, and the answer is
/// that of a new search; without candidates nothing changes.
pub open spec fn ended(o: SearchHandler, n: SearchHandler) -> bool {
    &&& n.components == o.components
    &&& n.dictionary == o.dictionary
    &&& o.weighted_items@.len() == 0 ==> n.weighted_items == o.weighted_items && n.answer == o.answer
    &&& o.weighted_items@.len() > 0 ==> ({
        let old_items = o.weighted_items@;
        let items = n.weighted_items@;
        let last = old_items.last();
        let c = items.last();
        &&& items.len() == old_items.len()
        &&& items.drop_last() == old_items.drop_last()
        &&& c.text@ == last.text@
        &&& c.bounds == last.bounds
        &&& c.points@ == last.points@
        &&& c.filtered_points@ == last.filtered_points@
        &&& c.first_or_last_weight
        &&& c.is_complete
        &&& reweighed(last.position_weight, last.angles_change_weight, last.weight, c)
        &&& n.answer@ == n.expected_answer(items)
    })
}

/// `n` is the key list `o` after the key `text` was reported at `bounds`:
/// the bounds of every key with that text are replaced, or the key is added
/// at the end when there is none.
pub open spec fn region_reported(o: Seq<KeyRegion>, n: Seq<KeyRegion>, text: Seq<u8>, bounds: Rect) -> bool {
    if exists|k: int| 0 <= k < o.len() && (#[trigger] o[k]).text@ == text {
        &&& n.len() == o.len()
        &&& forall|k: int|
            0 <= k < o.len() ==> (if o[k].text@ == text {
                (#[trigger] n[k]).bounds == bounds && n[k].text@ == text
            } else {
                n[k] == o[k]
            })
    } else {
        &&& n.len() == o.len() + 1
        &&& n.drop_last() == o
        &&& n.last().text@ == text
        &&& n.last().bounds == bounds
    }
}

/// No two key regions have the same id.
pub open spec fn distinct_keys(regions: Seq<KeyRegion>) -> bool {
    forall|i: int, j: int|
        0 <= i < j < regions.len() ==> (#[trigger] regions[i]).text@ != (#[trigger] regions[j]).text@
}

/// The state of glide typing for the current gesture.
#[derive(Debug)]
pub struct SearchHandler {
    /// The key regions reported by the layout, in the order reported.
    pub components: Vec<KeyRegion>,
    /// The candidate sequence of the current gesture.
    pub weighted_items: Vec<Candidate>,
    /// The dictionary, once it is loaded.
    pub dictionary: Option<DictionaryIndex>,
    /// The answer of the latest search.
    pub answer: Vec<u8>,
}

impl SearchHandler {
    /// The engine's invariant: the key regions have distinct ids, only the
    /// last candidate may be open, and every candidate's filtered points are
    /// spaced.
    pub open spec fn wf(&self) -> bool {
        &&& distinct_keys(self.components@)
        &&& forall|i: int|
            0 <= i < self.weighted_items@.len() - 1 ==> (#[trigger] self.weighted_items@[i]).is_complete
        &&& forall|i: int|
            0 <= i < self.weighted_items@.len() ==> candidate_wf(#[trigger] self.weighted_items@[i])
    }

    /// The answer that a search over the candidates gives.
    pub open spec fn expected_answer(&self, items: Seq<Candidate>) -> Seq<u8> {
        match self.dictionary {
            Some(d) => search_answer(d@, items),
            None => Seq::empty(),
        }
    }

    /// An engine with no keys, no candidates and no dictionary.
    pub fn new() -> (h: SearchHandler)
        ensures
            h.wf(),
            h.components@.len() == 0,
            h.weighted_items@.len() == 0,
            h.dictionary is None,
            h.answer@.len() == 0,
    {
        SearchHandler {
            components: Vec::new(),
            weighted_items: Vec::new(),
            dictionary: None,
            answer: Vec::new(),
        }
    }

    /// An engine that searches `dict`.
    pub fn with_dictionary(dict: DictionaryIndex) -> (h: SearchHandler)
        ensures
            h.wf(),
            h.components@.len() == 0,
            h.weighted_items@.len() == 0,
            h.dictionary == Some(dict),
            h.answer@.len() == 0,
    {
        SearchHandler {
            components: Vec::new(),
            weighted_items: Vec::new(),
            dictionary: Some(dict),
            answer: Vec::new(),
        }
    }

    /// Builds the dictionary from a word list, unless one is loaded already.
    pub fn load_dictionary(&mut self, text: &[u8])
        ensures
            final(self).components == old(self).components,
            final(self).weighted_items == old(self).weighted_items,
            final(self).answer == old(self).answer,
            old(self).dictionary is Some ==> final(self).dictionary == old(self).dictionary,
            old(self).dictionary is None ==> (final(self).dictionary matches Some(d) && d@
                == crate::dictionary::word_set(text@)),
    {
        if self.dictionary.is_none() {
            self.dictionary = Some(DictionaryIndex::build(text));
        }
    }

    /// Records a key region reported by the layout (replacing the bounds of
    /// a key with the same text), or forgets all keys and candidates.
    pub fn update(&mut self, message: Message)
        requires
            old(self).wf(),
        ensures
            final(self).wf(),
            final(self).dictionary == old(self).dictionary,
            match message {
                Message::Reset => final(self).components@.len() == 0
                    && final(self).weighted_items@.len() == 0,
                Message::Update(text, bounds) => final(self).weighted_items == old(self).weighted_items
                    && region_reported(old(self).components@, final(self).components@, text@, bounds),
            },
    {
        match message {
            Message::Reset => {
                self.components.clear();
                self.weighted_items.clear();
            },
            Message::Update(text, bounds) => {
                let ghost orig = self.components@;
                let mut found = false;
                let mut i: usize = 0;
                let n = self.components.len();
                while i < n
                    invariant
                        n == orig.len(),
                        i <= n,
                        self.components@.len() == n,
                        self.weighted_items == old(self).weighted_items,
                        self.dictionary == old(self).dictionary,
                        self.wf(),
                        found == exists|k: int| 0 <= k < i && (#[trigger] orig[k]).text@ == text@,
                        forall|k: int|
                            0 <= k < n ==> (if k < i && orig[k].text@ == text@ {
                                (#[trigger] self.components@[k]).bounds == bounds
                                    && self.components@[k].text@ == text@
                            } else {
                                self.components@[k] == orig[k]
                            }),
                    decreases n - i,
                {
                    if bytes_eq(&self.components[i].text, &text) {
                        let t = copy_bytes(&text);
                        self.components.set(i, KeyRegion { text: t, bounds });
                        found = true;
                    }
                    i = i + 1;
                }
                if !found {
                    self.components.push(KeyRegion { text, bounds });
                    proof {
                        assert(self.components@.drop_last() =~= orig);
                    }
                }
            },
        }
    }

    /// Begins a gesture: forgets the candidates.
    pub fn start(&mut self)
        requires
            old(self).wf(),
        ensures
            final(self).wf(),
            final(self).weighted_items@.len() == 0,
            final(self).components == old(self).components,
            final(self).dictionary == old(self).dictionary,
    {
        self.weighted_items.clear();
    }

    fn hit_test(&self, p: Point) -> (r: Option<usize>)
        ensures
            match r {
                Some(k) => first_hit(self.components@, p) == Some(k as int) && k < self.components@.len(),
                None => first_hit(self.components@, p) is None,
            },
    {
        let mut i: usize = 0;
        while i < self.components.len()
            invariant
                i <= self.components@.len(),
                forall|j: int|
                    0 <= j < i ==> !crate::geometry::rect_contains(
                        #[trigger] self.components@[j].bounds,
                        p,
                    ),
            decreases self.components@.len() - i,
        {
            if contains(&self.components[i].bounds, p) {
                proof {
                    let regions = self.components@;
                    assert(crate::geometry::rect_contains(regions[i as int].bounds, p));
                    let k = choose|k: int|
                        0 <= k < regions.len() && crate::geometry::rect_contains(regions[k].bounds, p)
                            && forall|j: int|
                            0 <= j < k ==> !crate::geometry::rect_contains(
                                #[trigger] regions[j].bounds,
                                p,
                            );
                    if k < i {
                    } else if k > i {
                        assert(!crate::geometry::rect_contains(regions[i as int].bounds, p));
                    }
                }
                return Some(i);
            }
            i = i + 1;
        }
        None
    }

    fn refresh_answer(&mut self)
        ensures
            final(self).answer@ == old(self).expected_answer(old(self).weighted_items@),
            final(self).components == old(self).components,
            final(self).weighted_items == old(self).weighted_items,
            final(self).dictionary == old(self).dictionary,
    {
        let answer = match &self.dictionary {
            Some(d) => search_word(d, &self.weighted_items),
            None => Vec::new(),
        };
        self.answer = answer;
    }

    /// Feeds a pointer position. The first key region that holds it is
    /// looked up; if there is none, nothing happens. If it is the key of the
    /// open candidate, the sample is folded into that candidate. Otherwise the
    /// open candidate is closed and a new one is opened for the key, seeded
    /// with the sample, with the endpoint bonus if it is the first of the
    /// gesture. Each touched candidate's weight is recomputed, and the search
    /// is run again. Returns whether a key was hit.
    pub fn update_move(&mut self, p: Point) -> (hit: bool)
        requires
            old(self).wf(),
        ensures
            final(self).wf(),
            fed(*old(self), *final(self), p, hit),
    {
        let hit = self.hit_test(p);
        let k = match hit {
            None => {
                return false;
            },
            Some(k) => k,
        };
        let n = self.weighted_items.len();
        let same = n > 0 && !self.weighted_items[n - 1].is_complete && bytes_eq(
            &self.weighted_items[n - 1].text,
            &self.components[k].text,
        );
        if same {
            let mut last = self.weighted_items.pop().unwrap();
            let ghost o = last;
            last.add_point(p);
            last.update_weight();
            let ghost before = self.weighted_items@;
            self.weighted_items.push(last);
            proof {
                assert(self.weighted_items@.drop_last() =~= before);
                assert(before =~= old(self).weighted_items@.drop_last());
            }
        } else {
            if n > 0 {
                let mut last = self.weighted_items.pop().unwrap();
                last.is_complete = true;
                last.update_weight();
                let ghost before = self.weighted_items@;
                self.weighted_items.push(last);
                proof {
                    assert(before =~= old(self).weighted_items@.drop_last());
                    assert(self.weighted_items@.drop_last() =~= before);
                }
            }
            let mut item = Candidate::new(&self.components[k]);
            item.add_point(p);
            if n == 0 {
                item.first_or_last_weight = true;
            }
            item.update_weight();
            let ghost mid = self.weighted_items@;
            self.weighted_items.push(item);
            proof {
                assert(self.weighted_items@.drop_last() =~= mid);
                if n > 0 {
                    assert(mid.drop_last() =~= old(self).weighted_items@.drop_last());
                    assert(self.weighted_items@.subrange(0, n - 1) =~= mid.drop_last());
                    assert(old(self).weighted_items@.subrange(0, n - 1) =~= old(self).weighted_items@.drop_last());
                }
                assert(item.points@ =~= seq![p]);
                assert(item.filtered_points@ =~= seq![p]);
            }
        }
        self.refresh_answer();
        true
    }

    /// Ends the gesture: the last candidate is closed and given the endpoint
    /// bonus, its weight is recomputed, and the search is run a last time.
    /// Without candidates nothing happens.
    pub fn end(&mut self)
        requires
            old(self).wf(),
        ensures
            final(self).wf(),
            ended(*old(self), *final(self)),
    {
        if self.weighted_items.len() == 0 {
            return ;
        }
        let mut last = self.weighted_items.pop().unwrap();
        last.is_complete = true;
        last.first_or_last_weight = true;
        last.update_weight();
        let ghost before = self.weighted_items@;
        self.weighted_items.push(last);
        proof {
            assert(self.weighted_items@.drop_last() =~= before);
        }
        self.refresh_answer();
    }
}

/// In a well-formed engine, any two consecutive filtered points of a
/// candidate lie at least the minimum spacing apart.
pub proof fn lemma_candidates_spaced(h: SearchHandler, c: int, i: int)
    requires
        h.wf(),
        0 <= c < h.weighted_items@.len(),
        0 < i < h.weighted_items@[c].filtered_points@.len(),
    ensures
        dist2(
            h.weighted_items@[c].filtered_points@[i - 1],
            h.weighted_items@[c].filtered_points@[i],
        ) >= CANDIDATE_MIN_SPACING * CANDIDATE_MIN_SPACING,
{
    assert(candidate_wf(h.weighted_items@[c]));
    assert(far_enough(
        h.weighted_items@[c].filtered_points@[i - 1],
        h.weighted_items@[c].filtered_points@[i],
    ));
}

/// At any time at most one candidate of a well-formed engine is open, and
/// it is the last one.
pub proof fn lemma_single_open(h: SearchHandler, i: int, j: int)
    requires
        h.wf(),
        0 <= i < h.weighted_items@.len(),
        0 <= j < h.weighted_items@.len(),
        !h.weighted_items@[i].is_complete,
        !h.weighted_items@[j].is_complete,
    ensures
        i == j,
        i == h.weighted_items@.len() - 1,
{
}

} // verus!
