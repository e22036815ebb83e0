//! The dictionary index: a prefix trie over a fixed word list, with an
//! incremental search cursor that is fed a few bytes at a time.

use vstd::prelude::*;
use trie_rs::{Trie, TrieBuilder};
use trie_rs::inc_search::{Answer, IncSearch, Position};

verus! {

#[verifier::external_type_specification]
#[verifier::external_body]
#[verifier::reject_recursive_types(Label)]
pub struct ExTrie<Label>(Trie<Label>);

#[verifier::external_type_specification]
#[verifier::external_body]
#[verifier::reject_recursive_types(Label)]
pub struct ExTrieBuilder<Label>(TrieBuilder<Label>);

#[verifier::external_type_specification]
#[verifier::external_body]
pub struct ExPosition(Position);

#[verifier::external_type_specification]
#[verifier::external_body]
pub struct ExAnswer(Answer);

/// The bytes on the path from the root of a trie to the node of a search
/// position.
pub uninterp spec fn position_path(t: Trie<u8>, p: Position) -> Seq<u8>;

/// The position is a node of the trie.
pub uninterp spec fn is_position_of(t: Trie<u8>, p: Position) -> bool;

/// Relies on `trie_rs::Trie::inc_search` and `From<IncSearch> for Position`:
/// a fresh incremental search stands at the root.
#[verifier::external_body]
fn root_position(t: &Trie<u8>) -> (p: Position)
    ensures
        is_position_of(*t, p),
        position_path(*t, p) == Seq::<u8>::empty(),
{
    Position::from(t.inc_search())
}

/// Relies on `trie_rs::inc_search::IncSearch::query_until`, on a search
/// resumed at `p` (`IncSearch::resume`, then `From<IncSearch>` for the new
/// position): it follows each byte to a child node and stops at the first
/// byte without one, reporting `Err`; at the end it reports whether the node
/// reached has children and whether it ends a word. An empty query is `Err`.
#[verifier::external_body]
fn query_from(t: &Trie<u8>, p: Position, q: &[u8]) -> (r: (QueryAnswer, Position))
    requires
        is_position_of(*t, p),
    ensures
        is_position_of(*t, r.1),
        position_path(*t, r.1) == advance(trie_words(*t), position_path(*t, p), q@),
        r.0 == query_answer(trie_words(*t), position_path(*t, p), q@),
{
    let mut search = IncSearch::resume(&t.0, p);
    let answer = match search.query_until(q) {
        Ok(Answer::Prefix) => QueryAnswer::Prefix,
        Ok(Answer::Match) => QueryAnswer::Exact,
        Ok(Answer::PrefixAndMatch) => QueryAnswer::PrefixAndExact,
        Err(_) => QueryAnswer::NoMatch,
    };
    (answer, Position::from(search))
}

/// Relies on `trie_rs::inc_search::IncSearch::prefix`, on a search resumed
/// at `p`: the labels on the path from the root to its node.
#[verifier::external_body]
fn position_bytes(t: &Trie<u8>, p: Position) -> (r: Vec<u8>)
    requires
        is_position_of(*t, p),
    ensures
        r@ == position_path(*t, p),
{
    IncSearch::resume(&t.0, p).prefix::<Vec<u8>, _>()
}

/// The words that a trie holds.
pub uninterp spec fn trie_words(t: Trie<u8>) -> Set<Seq<u8>>;

/// The words that have been pushed into a trie builder.
pub uninterp spec fn builder_words(b: TrieBuilder<u8>) -> Set<Seq<u8>>;

/// Relies on `trie_rs::TrieBuilder::new`: a builder that holds no word yet.
#[verifier::external_body]
fn builder_new() -> (b: TrieBuilder<u8>)
    ensures
        builder_words(b) == Set::<Seq<u8>>::empty(),
{
    TrieBuilder::new()
}

/// Relies on `trie_rs::TrieBuilder::push`: adds one word to the builder. It
/// panics on an empty word, which is therefore excluded.
#[verifier::external_body]
fn builder_push(b: &mut TrieBuilder<u8>, word: &[u8])
    requires
        word@.len() > 0,
    ensures
        builder_words(*final(b)) == builder_words(*old(b)).insert(word@),
{
    b.push(word)
}

/// Relies on `trie_rs::TrieBuilder::build`: the trie holds exactly the words
/// that were pushed.
#[verifier::external_body]
fn builder_build(b: TrieBuilder<u8>) -> (t: Trie<u8>)
    ensures
        trie_words(t) == builder_words(b),
{
    b.build()
}

/// Relies on `trie_rs::Trie::exact_match`: whether the (non-empty) query is one
/// of the words. The walk from the root never ends on the root itself, so an
/// empty query is no match.
#[verifier::external_body]
fn trie_exact_match(t: &Trie<u8>, q: &[u8]) -> (r: bool)
    ensures
        r == (q@.len() > 0 && trie_words(*t).contains(q@)),
{
    t.exact_match(q)
}

/// Relies on `trie_rs::Trie::is_prefix`: whether the node reached by the query
/// has children, that is, whether some word strictly extends the query.
#[verifier::external_body]
fn trie_is_prefix(t: &Trie<u8>, q: &[u8]) -> (r: bool)
    ensures
        r == has_extension(trie_words(*t), q@),
{
    t.is_prefix(q)
}

/// `p` is a prefix of `w` (possibly all of it).
pub open spec fn is_prefix_of(p: Seq<u8>, w: Seq<u8>) -> bool {
    p.len() <= w.len() && w.subrange(0, p.len() as int) == p
}

/// Some word starts with `p`: `p` names a node of the trie.
pub open spec fn is_node(words: Set<Seq<u8>>, p: Seq<u8>) -> bool {
    exists|w: Seq<u8>| #[trigger] words.contains(w) && is_prefix_of(p, w)
}

/// Some word strictly extends `p`.
pub open spec fn has_extension(words: Set<Seq<u8>>, p: Seq<u8>) -> bool {
    exists|w: Seq<u8>| #[trigger] words.contains(w) && p.len() < w.len() && is_prefix_of(p, w)
}

/// What an incremental query reports.
#[derive(Clone, Copy, Debug, PartialEq, Eq, Structural)]
pub enum QueryAnswer {
    /// The cursor cannot follow the bytes.
    NoMatch,
    /// The bytes so far start some longer word, and are no word themselves.
    Prefix,
    /// The bytes so far are a word, and no longer word starts with them.
    Exact,
    /// The bytes so far are a word, and a longer word starts with them.
    PrefixAndExact,
}

impl QueryAnswer {
    /// The answer is a prefix of a longer word.
    pub open spec fn spec_is_prefix(self) -> bool {
        self == QueryAnswer::Prefix || self == QueryAnswer::PrefixAndExact
    }

    /// The answer is an exact word.
    pub open spec fn spec_is_exact(self) -> bool {
        self == QueryAnswer::Exact || self == QueryAnswer::PrefixAndExact
    }

    pub fn is_prefix(&self) -> (r: bool)
        ensures
            r == self.spec_is_prefix(),
    {
        match self {
            QueryAnswer::Prefix | QueryAnswer::PrefixAndExact => true,
            _ => false,
        }
    }

    pub fn is_exact(&self) -> (r: bool)
        ensures
            r == self.spec_is_exact(),
    {
        match self {
            QueryAnswer::Exact | QueryAnswer::PrefixAndExact => true,
            _ => false,
        }
    }
}

pub open spec fn answer_of(prefix: bool, exact: bool) -> QueryAnswer {
    if prefix && exact {
        QueryAnswer::PrefixAndExact
    } else if prefix {
        QueryAnswer::Prefix
    } else if exact {
        QueryAnswer::Exact
    } else {
        QueryAnswer::NoMatch
    }
}

/// Where the cursor stands after following the bytes `q` from `at`: it takes
/// each byte for which a node exists, and stops at the first that has none.
pub open spec fn advance(words: Set<Seq<u8>>, at: Seq<u8>, q: Seq<u8>) -> Seq<u8>
    decreases q.len(),
{
    if q.len() == 0 {
        at
    } else if is_node(words, at.push(q[0])) {
        advance(words, at.push(q[0]), q.drop_first())
    } else {
        at
    }
}

/// What a query of the bytes `q` from `at` reports: no match when `q` is empty
/// or cannot be followed to its end, otherwise whether the node reached is
/// extended by a longer word and whether it is a word.
pub open spec fn query_answer(words: Set<Seq<u8>>, at: Seq<u8>, q: Seq<u8>) -> QueryAnswer {
    if q.len() == 0 || advance(words, at, q) != at + q {
        QueryAnswer::NoMatch
    } else {
        answer_of(has_extension(words, at + q), words.contains(at + q))
    }
}

// ---------------------------------------------------------------------------
// Tokenising a word list
// ---------------------------------------------------------------------------
/// ASCII white space: tab, line feed, vertical tab, form feed, carriage
/// return and space.
pub open spec fn is_space(b: u8) -> bool {
    (9 <= b && b <= 13) || b == 32
}

/// The words finished within the first `i` bytes of `text`, and the word
/// still being read at that point.
pub open spec fn split_state(text: Seq<u8>, i: int) -> (Seq<Seq<u8>>, Seq<u8>)
    decreases i,
{
    if i <= 0 {
        (Seq::empty(), Seq::empty())
    } else {
        let (done, cur) = split_state(text, i - 1);
        if is_space(text[i - 1]) {
            if cur.len() > 0 {
                (done.push(cur), Seq::empty())
            } else {
                (done, Seq::empty())
            }
        } else {
            (done, cur.push(text[i - 1]))
        }
    }
}

/// The maximal runs of non-space bytes of `text`, in order.
pub open spec fn tokens(text: Seq<u8>) -> Seq<Seq<u8>> {
    let (done, cur) = split_state(text, text.len() as int);
    if cur.len() > 0 {
        done.push(cur)
    } else {
        done
    }
}

/// The words of a word list.
pub open spec fn word_set(text: Seq<u8>) -> Set<Seq<u8>> {
    tokens(text).to_set()
}

proof fn lemma_split_state_nonempty(text: Seq<u8>, i: int)
    ensures
        forall|k: int|
            0 <= k < split_state(text, i).0.len() ==> #[trigger] split_state(text, i).0[k].len()
                > 0,
    decreases i,
{
    if i > 0 {
        lemma_split_state_nonempty(text, i - 1);
        let done = split_state(text, i - 1).0;
        assert forall|k: int| 0 <= k < split_state(text, i).0.len() implies #[trigger] split_state(
            text,
            i,
        ).0[k].len() > 0 by {
            if k < done.len() {
                assert(split_state(text, i).0[k] == done[k]);
            }
        }
    }
}

proof fn lemma_tokens_nonempty(text: Seq<u8>)
    ensures
        forall|k: int| 0 <= k < tokens(text).len() ==> #[trigger] tokens(text)[k].len() > 0,
{
    lemma_split_state_nonempty(text, text.len() as int);
}

/// Every word of a word list is non-empty.
pub proof fn lemma_words_nonempty(text: Seq<u8>, w: Seq<u8>)
    requires
        word_set(text).contains(w),
    ensures
        w.len() > 0,
{
    lemma_tokens_nonempty(text);
    let k = choose|k: int| 0 <= k < tokens(text).len() && tokens(text)[k] == w;
    assert(tokens(text)[k].len() > 0);
}

// ---------------------------------------------------------------------------
// The index and its search cursor
// ---------------------------------------------------------------------------
/// An immutable prefix trie built once from a word list.
#[derive(Debug)]
pub struct DictionaryIndex {
    trie: Trie<u8>,
}

/// An incremental search of a dictionary: a cursor that stands on a node
/// of its trie and is moved a few bytes at a time.
#[derive(Debug)]
pub struct SearchSession<'a> {
    dict: &'a DictionaryIndex,
    at: Position,
}

impl<'a> View for SearchSession<'a> {
    type V = Seq<u8>;

    /// The bytes on the path from the root to the cursor.
    closed spec fn view(&self) -> Seq<u8> {
        position_path(self.dict.trie, self.at)
    }
}

impl<'a> SearchSession<'a> {
    /// The cursor stands on a node of its dictionary's trie.
    pub closed spec fn wf(&self) -> bool {
        is_position_of(self.dict.trie, self.at)
    }

    /// The words of the dictionary searched.
    pub closed spec fn words(&self) -> Set<Seq<u8>> {
        self.dict@
    }

    /// Rewinds the cursor to the root.
    pub fn reset(&mut self)
        ensures
            final(self).wf(),
            final(self).words() == old(self).words(),
            final(self)@ == Seq::<u8>::empty(),
    {
        self.at = root_position(&self.dict.trie);
    }

    /// Advances the cursor by the bytes `q` and reports where it stands. The
    /// cursor follows each byte for which a node exists and stops at the
    /// first that has none; an empty query reports no match.
    pub fn query_incremental(&mut self, q: &[u8]) -> (r: QueryAnswer)
        requires
            old(self).wf(),
        ensures
            final(self).wf(),
            final(self).words() == old(self).words(),
            final(self)@ == advance(old(self).words(), old(self)@, q@),
            r == query_answer(old(self).words(), old(self)@, q@),
    {
        let (r, at) = query_from(&self.dict.trie, self.at, q);
        self.at = at;
        r
    }

    /// The bytes followed so far.
    pub fn position(&self) -> (r: Vec<u8>)
        requires
            self.wf(),
        ensures
            r@ == self@,
    {
        position_bytes(&self.dict.trie, self.at)
    }
}

/// Following a prefix of a word always succeeds.
proof fn lemma_advance_word(words: Set<Seq<u8>>, w: Seq<u8>, at: Seq<u8>, q: Seq<u8>)
    requires
        words.contains(w),
        is_prefix_of(at + q, w),
    ensures
        advance(words, at, q) == at + q,
    decreases q.len(),
{
    if q.len() == 0 {
        assert(at + q =~= at);
    } else {
        let next = at.push(q[0]);
        assert(w.subrange(0, next.len() as int) =~= next) by {
            assert forall|k: int| 0 <= k < next.len() implies w[k] == next[k] by {
                assert(w.subrange(0, (at + q).len() as int)[k] == (at + q)[k]);
            }
        }
        assert(is_node(words, next));
        assert(next + q.drop_first() =~= at + q);
        lemma_advance_word(words, w, next, q.drop_first());
    }
}

proof fn lemma_push_to_set(done: Seq<Seq<u8>>, w: Seq<u8>)
    ensures
        done.push(w).to_set() == done.to_set().insert(w),
{
    assert(done.push(w).to_set() =~= done.to_set().insert(w)) by {
        assert forall|x: Seq<u8>| done.push(w).to_set().contains(x) implies done.to_set().insert(
            w,
        ).contains(x) by {
            let k = choose|k: int| 0 <= k < done.push(w).len() && done.push(w)[k] == x;
            if k < done.len() {
                assert(done[k] == x);
            }
        }
        assert forall|x: Seq<u8>| done.to_set().insert(w).contains(x) implies done.push(
            w,
        ).to_set().contains(x) by {
            if x == w {
                assert(done.push(w)[done.len() as int] == x);
            } else {
                let k = choose|k: int| 0 <= k < done.len() && done[k] == x;
                assert(done.push(w)[k] == x);
            }
        }
    }
}

impl View for DictionaryIndex {
    type V = Set<Seq<u8>>;

    closed spec fn view(&self) -> Set<Seq<u8>> {
        trie_words(self.trie)
    }
}

impl DictionaryIndex {
    /// Builds the index from a word list: the words are the runs of bytes
    /// between ASCII white space.
    pub fn build(text: &[u8]) -> (d: DictionaryIndex)
        ensures
            d@ == word_set(text@),
    {
        let mut builder = builder_new();
        let mut cur: Vec<u8> = Vec::new();
        let mut i: usize = 0;
        while i < text.len()
            invariant
                i <= text@.len(),
                split_state(text@, i as int).1 == cur@,
                builder_words(builder) == split_state(text@, i as int).0.to_set(),
            decreases text@.len() - i,
        {
            let b = text[i];
            proof {
                lemma_split_state_nonempty(text@, i as int);
            }
            if (9 <= b && b <= 13) || b == 32 {
                if cur.len() > 0 {
                    builder_push(&mut builder, cur.as_slice());
                    proof {
                        lemma_push_to_set(split_state(text@, i as int).0, cur@);
                    }
                    cur = Vec::new();
                } else {
                    cur = Vec::new();
                }
            } else {
                cur.push(b);
            }
            i = i + 1;
        }
        if cur.len() > 0 {
            builder_push(&mut builder, cur.as_slice());
            proof {
                lemma_push_to_set(split_state(text@, text@.len() as int).0, cur@);
            }
        }
        DictionaryIndex { trie: builder_build(builder) }
    }

    /// Whether `w` is a word of the index.
    pub fn contains(&self, w: &[u8]) -> (r: bool)
        ensures
            r == (w@.len() > 0 && self@.contains(w@)),
    {
        trie_exact_match(&self.trie, w)
    }

    /// Whether some word strictly extends `p`.
    pub fn is_strict_prefix(&self, p: &[u8]) -> (r: bool)
        ensures
            r == has_extension(self@, p@),
    {
        trie_is_prefix(&self.trie, p)
    }

    /// A new incremental search, at the root.
    pub fn inc_search(&self) -> (s: SearchSession<'_>)
        ensures
            s.wf(),
            s.words() == self@,
            s@ == Seq::<u8>::empty(),
    {
        SearchSession { dict: self, at: root_position(&self.trie) }
    }
}

/// A query of a whole word of the word list, from the root, reports an exact
/// match (possibly also a prefix of a longer word).
pub proof fn lemma_word_round_trip(text: Seq<u8>, w: Seq<u8>)
    requires
        word_set(text).contains(w),
    ensures
        advance(word_set(text), Seq::empty(), w) == w,
        query_answer(word_set(text), Seq::empty(), w).spec_is_exact(),
{
    let words = word_set(text);
    lemma_words_nonempty(text, w);
    assert(Seq::<u8>::empty() + w =~= w);
    assert(w.subrange(0, w.len() as int) =~= w);
    lemma_advance_word(words, w, Seq::empty(), w);
}

} // verus!
