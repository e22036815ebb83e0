//! Best-first ranking of whole words spelled by the candidates of a gesture.
//!
//! A frontier of partial spellings is kept, each a sequence of candidates
//! with its summed weight. The heaviest is taken out; if its letters spell a
//! dictionary word, the word is a result, otherwise it is extended by every
//! candidate once more (letters may repeat). The search stops at three
//! results, when the frontier is empty, or after a fixed number of steps;
//! spellings are never extended beyond a fixed depth.

use vstd::prelude::*;
use crate::candidate::{Candidate, SearchHandler, append_bytes};
use crate::dictionary::DictionaryIndex;

verus! {

/// How many words a search returns at most.
pub const BEAM_WIDTH: usize = 3;

/// The deepest spelling a search extends, in candidates.
pub const MAX_SEARCH_DEPTH: usize = 12;

/// How many spellings a search takes out of the frontier at most.
pub const MAX_SEARCH_STEPS: usize = 2000;

/// A partial spelling: the candidates chosen, by index, and their weight.
#[derive(Debug)]
pub struct Hypothesis {
    pub sequence: Vec<usize>,
    pub score: u64,
}

/// A spelling in the model: candidate indices and summed weight.
pub type Spelling = (Seq<usize>, int);

/// The state of a search: the frontier and the words found so far.
pub type SearchState = (Seq<Spelling>, Seq<Seq<u8>>);

/// The text spelled by a sequence of candidates.
pub open spec fn spelled(items: Seq<Candidate>, s: Seq<usize>) -> Seq<u8>
    decreases s.len(),
{
    if s.len() == 0 {
        Seq::empty()
    } else {
        let j = s.last() as int;
        spelled(items, s.drop_last()) + if 0 <= j < items.len() {
            items[j].text@
        } else {
            Seq::empty()
        }
    }
}

/// The first spelling of greatest weight in a non-empty frontier.
pub open spec fn best_from(f: Seq<Spelling>, k: int) -> int
    decreases k,
{
    if k <= 0 {
        0
    } else {
        let b = best_from(f, k - 1);
        if f[k].1 > f[b].1 {
            k
        } else {
            b
        }
    }
}

pub open spec fn best(f: Seq<Spelling>) -> int {
    best_from(f, f.len() - 1)
}

pub open spec fn sat_u64(v: int) -> int {
    if v > u64::MAX {
        u64::MAX as int
    } else {
        v
    }
}

/// The spellings that extend `s` by one candidate each, in order.
pub open spec fn children(items: Seq<Candidate>, s: Spelling) -> Seq<Spelling> {
    Seq::new(items.len(), |j: int| (s.0.push(j as usize), sat_u64(s.1 + items[j].weight)))
}

/// The frontier a search starts from: every candidate alone.
pub open spec fn initial(items: Seq<Candidate>) -> Seq<Spelling> {
    Seq::new(items.len(), |j: int| (seq![j as usize], items[j].weight as int))
}

/// One step of the search.
pub open spec fn step(
    words: Set<Seq<u8>>,
    items: Seq<Candidate>,
    max_depth: int,
    st: SearchState,
) -> SearchState {
    let (f, found) = st;
    if f.len() == 0 || found.len() >= BEAM_WIDTH {
        st
    } else {
        let k = best(f);
        let s = f[k];
        let rest = f.remove(k);
        let w = spelled(items, s.0);
        if w.len() > 0 && words.contains(w) {
            (rest, found.push(w))
        } else if s.0.len() < max_depth {
            (rest + children(items, s), found)
        } else {
            (rest, found)
        }
    }
}

/// The state after `n` steps.
pub open spec fn run(
    words: Set<Seq<u8>>,
    items: Seq<Candidate>,
    max_depth: int,
    st: SearchState,
    n: nat,
) -> SearchState
    decreases n,
{
    if n == 0 {
        st
    } else {
        step(words, items, max_depth, run(words, items, max_depth, st, (n - 1) as nat))
    }
}

/// The words that a search of `steps` steps finds.
pub open spec fn ranked_words(
    words: Set<Seq<u8>>,
    items: Seq<Candidate>,
    max_depth: int,
    steps: nat,
) -> Seq<Seq<u8>> {
    run(words, items, max_depth, (initial(items), Seq::empty()), steps).1
}

impl View for Hypothesis {
    type V = Spelling;

    open spec fn view(&self) -> Spelling {
        (self.sequence@, self.score as int)
    }
}

pub open spec fn frontier_view(f: Seq<Hypothesis>) -> Seq<Spelling> {
    f.map_values(|h: Hypothesis| h@)
}

pub open spec fn words_view(r: Seq<Vec<u8>>) -> Seq<Seq<u8>> {
    r.map_values(|v: Vec<u8>| v@)
}

fn copy_indices(v: &Vec<usize>) -> (r: Vec<usize>)
    ensures
        r@ == v@,
{
    let r = v.clone();
    assert(r@ =~= v@);
    r
}

fn spell(items: &Vec<Candidate>, s: &Vec<usize>) -> (w: Vec<u8>)
    ensures
        w@ == spelled(items@, s@),
{
    let mut w: Vec<u8> = Vec::new();
    let mut i: usize = 0;
    while i < s.len()
        invariant
            i <= s@.len(),
            w@ == spelled(items@, s@.subrange(0, i as int)),
        decreases s@.len() - i,
    {
        proof {
            assert(s@.subrange(0, i + 1).drop_last() =~= s@.subrange(0, i as int));
            assert(s@.subrange(0, i + 1).last() == s@[i as int]);
        }
        let j = s[i];
        if j < items.len() {
            append_bytes(&mut w, &items[j].text);
        } else {
            assert(w@ + Seq::<u8>::empty() =~= w@);
        }
        i = i + 1;
    }
    proof {
        assert(s@.subrange(0, s@.len() as int) =~= s@);
    }
    w
}

fn best_hypothesis(f: &Vec<Hypothesis>) -> (k: usize)
    requires
        f@.len() > 0,
    ensures
        k == best(frontier_view(f@)),
        k < f@.len(),
{
    let ghost fv = frontier_view(f@);
    let mut b: usize = 0;
    let mut k: usize = 1;
    while k < f.len()
        invariant
            fv == frontier_view(f@),
            fv.len() == f@.len(),
            1 <= k <= f@.len(),
            b < k,
            b == best_from(fv, k - 1),
        decreases f@.len() - k,
    {
        if f[k].score > f[b].score {
            b = k;
        }
        k = k + 1;
    }
    b
}

/// Ranks up to three dictionary words spelled by the candidates, best
/// first as the search meets them. Spellings are extended to at most
/// `max_depth` candidates, and at most `max_steps` spellings are examined.
pub fn beam_search(
    dict: &DictionaryIndex,
    items: &Vec<Candidate>,
    max_depth: usize,
    max_steps: usize,
) -> (r: Vec<Vec<u8>>)
    ensures
        words_view(r@) == ranked_words(dict@, items@, max_depth as int, max_steps as nat),
        r@.len() <= BEAM_WIDTH,
{
    let n = items.len();
    let mut frontier: Vec<Hypothesis> = Vec::new();
    let mut j: usize = 0;
    while j < n
        invariant
            n == items@.len(),
            j <= n,
            frontier_view(frontier@) == initial(items@).subrange(0, j as int),
        decreases n - j,
    {
        let ghost before = frontier@;
        frontier.push(Hypothesis { sequence: vec![j], score: items[j].weight as u64 });
        proof {
            assert(frontier@.last().sequence@ =~= seq![j]);
            assert(frontier@.last()@ == (seq![j], items@[j as int].weight as int));
            assert(frontier@.drop_last() =~= before);
            assert(frontier_view(frontier@) =~= frontier_view(before).push(
                (seq![j], items@[j as int].weight as int),
            ));
            assert(initial(items@).subrange(0, j + 1) =~= initial(items@).subrange(0, j as int).push(
                (seq![j], items@[j as int].weight as int),
            ));
        }
        j = j + 1;
    }
    proof {
        assert(initial(items@).subrange(0, n as int) =~= initial(items@));
    }
    let mut found: Vec<Vec<u8>> = Vec::new();
    let mut steps: usize = 0;
    assert(words_view(found@) =~= Seq::<Seq<u8>>::empty());
    while steps < max_steps
        invariant
            n == items@.len(),
            steps <= max_steps,
            (frontier_view(frontier@), words_view(found@)) == run(
                dict@,
                items@,
                max_depth as int,
                (initial(items@), Seq::empty()),
                steps as nat,
            ),
            found@.len() <= BEAM_WIDTH,
        decreases max_steps - steps,
    {
        let ghost st = (frontier_view(frontier@), words_view(found@));
        if frontier.len() == 0 || found.len() >= BEAM_WIDTH {
            proof {
                assert(step(dict@, items@, max_depth as int, st) == st);
            }
        } else {
            let k = best_hypothesis(&frontier);
            let ghost fv = frontier_view(frontier@);
            let h = frontier.remove(k);
            proof {
                assert(frontier_view(frontier@) =~= fv.remove(k as int));
            }
            let w = spell(items, &h.sequence);
            if dict.contains(w.as_slice()) {
                let ghost before = found@;
                found.push(w);
                proof {
                    assert(words_view(found@) =~= words_view(before).push(found@.last()@));
                }
            } else if h.sequence.len() < max_depth {
                let ghost rest = frontier_view(frontier@);
                let mut c: usize = 0;
                while c < n
                    invariant
                        n == items@.len(),
                        c <= n,
                        frontier_view(frontier@) == rest + children(items@, h@).subrange(0, c as int),
                    decreases n - c,
                {
                    let mut seq = copy_indices(&h.sequence);
                    seq.push(c);
                    let w = items[c].weight as u64;
                    let score = if h.score > u64::MAX - w {
                        u64::MAX
                    } else {
                        h.score + w
                    };
                    let ghost before = frontier@;
                    frontier.push(Hypothesis { sequence: seq, score });
                    proof {
                        assert(frontier_view(frontier@) =~= frontier_view(before).push(
                            frontier@.last()@,
                        ));
                        assert(children(items@, h@).subrange(0, c + 1) =~= children(
                            items@,
                            h@,
                        ).subrange(0, c as int).push(children(items@, h@)[c as int]));
                    }
                    c = c + 1;
                }
                proof {
                    assert(children(items@, h@).subrange(0, n as int) =~= children(items@, h@));
                }
            }
        }
        steps = steps + 1;
    }
    found
}

impl SearchHandler {
    /// The words predicted for the current gesture: a search over its
    /// candidates with the default depth and step caps; none without a
    /// dictionary.
    pub fn current_predictions(&self) -> (r: Vec<Vec<u8>>)
        ensures
            words_view(r@) == match self.dictionary {
                Some(d) => ranked_words(
                    d@,
                    self.weighted_items@,
                    MAX_SEARCH_DEPTH as int,
                    MAX_SEARCH_STEPS as nat,
                ),
                None => Seq::empty(),
            },
    {
        match &self.dictionary {
            Some(d) => beam_search(d, &self.weighted_items, MAX_SEARCH_DEPTH, MAX_SEARCH_STEPS),
            None => {
                let r: Vec<Vec<u8>> = Vec::new();
                assert(words_view(r@) =~= Seq::<Seq<u8>>::empty());
                r
            },
        }
    }
}

} // verus!
