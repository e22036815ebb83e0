//! SVG helpers: a bounded path of move and line rules, and the fill colour
//! of an icon.

use vstd::prelude::*;
use vstd::utf8::encode_utf8;

verus! {

// ---------------------------------------------------------------------------
// Path
// ---------------------------------------------------------------------------
/// The decimal digits of `n`.
pub open spec fn decimal(n: nat) -> Seq<char>
    decreases n,
{
    let d = ((n % 10) + ('0' as nat)) as char;
    if n < 10 {
        seq![d]
    } else {
        decimal(n / 10).push(d)
    }
}

/// The text of one rule: the command letter, then the two coordinates, each
/// followed by a space.
pub open spec fn rule_text(cmd: char, x: nat, y: nat) -> Seq<char> {
    seq![cmd, ' '] + decimal(x) + seq![' '] + decimal(y) + seq![' ']
}

/// The text with every `L` turned into `M`.
pub open spec fn line_to_move(s: Seq<char>) -> Seq<char> {
    s.map_values(|c: char| if c == 'L' { 'M' } else { c })
}

/// The rules written one after another.
pub open spec fn joined(rules: Seq<String>) -> Seq<char>
    decreases rules.len(),
{
    if rules.len() == 0 {
        Seq::empty()
    } else {
        joined(rules.drop_last()) + rules.last()@
    }
}

/// Relies on `format!` with `{}`: a `char` is written as itself and a `usize`
/// in decimal digits.
#[verifier::external_body]
fn format_rule(cmd: char, x: usize, y: usize) -> (r: String)
    ensures
        r@ == rule_text(cmd, x as nat, y as nat),
{
    format!("{} {} {} ", cmd, x, y)
}

/// Relies on `str::replace`: every `L` is replaced by `M`.
#[verifier::external_body]
fn replace_line_with_move(s: &String) -> (r: String)
    ensures
        r@ == line_to_move(s@),
{
    s.replace("L", "M")
}

/// The bytes of `b` read as UTF-8 text, with each invalid sequence replaced
/// by U+FFFD.
pub uninterp spec fn lossy_of(b: Seq<u8>) -> Seq<u8>;

/// Relies on `String::from_utf8_lossy`: invalid sequences become U+FFFD, and
/// valid UTF-8 comes back unchanged.
#[verifier::external_body]
fn utf8_lossy(b: &[u8]) -> (r: Vec<u8>)
    ensures
        r@ == lossy_of(b@),
        forall|s: Seq<char>| #[trigger] encode_utf8(s) == b@ ==> r@ == b@,
{
    String::from_utf8_lossy(b).into_owned().into_bytes()
}

/// An SVG path that keeps at most `length` rules: the oldest fall off the
/// front as new points arrive.
#[derive(Debug)]
pub struct Path {
    pub rules: Vec<String>,
    pub length: usize,
}

impl Path {
    /// An empty path that keeps ten rules.
    pub fn new() -> (p: Path)
        ensures
            p.rules@.len() == 0,
            p.length == 10,
    {
        Path { rules: Vec::new(), length: 10 }
    }

    /// Adds the rule `M x y`.
    pub fn move_to(&mut self, pos: [usize; 2])
        ensures
            final(self).length == old(self).length,
            final(self).rules@.len() == old(self).rules@.len() + 1,
            final(self).rules@.drop_last() == old(self).rules@,
            final(self).rules@.last()@ == rule_text('M', pos[0] as nat, pos[1] as nat),
    {
        let r = format_rule('M', pos[0], pos[1]);
        self.rules.push(r);
        proof {
            assert(self.rules@.drop_last() =~= old(self).rules@);
        }
    }

    /// Adds the rule `L x y`.
    pub fn line_to(&mut self, pos: [usize; 2])
        ensures
            final(self).length == old(self).length,
            final(self).rules@.len() == old(self).rules@.len() + 1,
            final(self).rules@.drop_last() == old(self).rules@,
            final(self).rules@.last()@ == rule_text('L', pos[0] as nat, pos[1] as nat),
    {
        let r = format_rule('L', pos[0], pos[1]);
        self.rules.push(r);
        proof {
            assert(self.rules@.drop_last() =~= old(self).rules@);
        }
    }

    /// Replaces the rule at `index` by the first rule with its line commands
    /// turned into moves.
    pub fn replace(&mut self, index: usize)
        requires
            index < old(self).rules@.len(),
        ensures
            final(self).length == old(self).length,
            final(self).rules@.len() == old(self).rules@.len(),
            forall|i: int|
                0 <= i < old(self).rules@.len() && i != index ==> #[trigger] final(self).rules@[i]
                    == old(self).rules@[i],
            final(self).rules@[index as int]@ == line_to_move(old(self).rules@[0]@),
    {
        let r = replace_line_with_move(&self.rules[0]);
        self.rules.set(index, r);
    }

    /// Removes the last rule, if any.
    pub fn remove_last(&mut self)
        ensures
            final(self).length == old(self).length,
            old(self).rules@.len() == 0 ==> final(self).rules@.len() == 0,
            old(self).rules@.len() > 0 ==> final(self).rules@ == old(self).rules@.drop_last(),
    {
        self.rules.pop();
    }

    /// Removes the first rule.
    pub fn remove_first(&mut self)
        requires
            old(self).rules@.len() > 0,
        ensures
            final(self).length == old(self).length,
            final(self).rules@ == old(self).rules@.drop_first(),
    {
        self.rules.remove(0);
        proof {
            assert(old(self).rules@.remove(0) =~= old(self).rules@.drop_first());
        }
    }

    /// Removes every rule.
    pub fn remove_all(&mut self)
        ensures
            final(self).length == old(self).length,
            final(self).rules@.len() == 0,
    {
        self.rules.clear();
    }

    /// Extends the path to `pos`: an empty path starts with a move; a full
    /// one drops its first rule and turns its new first rule into a move;
    /// then a line to `pos` is added.
    pub fn add_point(&mut self, pos: [usize; 2])
        requires
            !(old(self).rules@.len() == 1 && old(self).length <= 1),
        ensures
            final(self).length == old(self).length,
            old(self).rules@.len() == 0 ==> final(self).rules@.len() == 1 && final(self).rules@[0]@
                == rule_text('M', pos[0] as nat, pos[1] as nat),
            0 < old(self).rules@.len() < old(self).length ==> {
                &&& final(self).rules@.len() == old(self).rules@.len() + 1
                &&& final(self).rules@.drop_last() == old(self).rules@
                &&& final(self).rules@.last()@ == rule_text('L', pos[0] as nat, pos[1] as nat)
            },
            0 < old(self).rules@.len() && old(self).rules@.len() >= old(self).length ==> {
                let kept = old(self).rules@.drop_first();
                &&& final(self).rules@.len() == old(self).rules@.len()
                &&& final(self).rules@[0]@ == line_to_move(kept[0]@)
                &&& forall|i: int|
                    1 <= i < kept.len() ==> #[trigger] final(self).rules@[i] == kept[i]
                &&& final(self).rules@.last()@ == rule_text('L', pos[0] as nat, pos[1] as nat)
            },
    {
        if self.rules.len() == 0 {
            self.move_to(pos);
            return ;
        }
        if self.rules.len() >= self.length {
            self.remove_first();
            self.replace(0);
        }
        let ghost mid = self.rules@;
        self.line_to(pos);
        proof {
            assert forall|i: int| 0 <= i < mid.len() implies #[trigger] self.rules@[i] == mid[i] by {
                assert(self.rules@.drop_last()[i] == mid[i]);
            }
        }
    }

    /// The whole path: every rule, in order.
    pub fn create_command(&mut self) -> (path: String)
        ensures
            path@ == joined(final(self).rules@),
            final(self).rules == old(self).rules,
            final(self).length == old(self).length,
    {
        let mut path = String::new();
        let mut i: usize = 0;
        while i < self.rules.len()
            invariant
                i <= self.rules@.len(),
                path@ == joined(self.rules@.subrange(0, i as int)),
            decreases self.rules@.len() - i,
        {
            proof {
                assert(self.rules@.subrange(0, i + 1).drop_last() =~= self.rules@.subrange(
                    0,
                    i as int,
                ));
            }
            path.append(self.rules[i].as_str());
            i = i + 1;
        }
        proof {
            assert(self.rules@.subrange(0, self.rules@.len() as int) =~= self.rules@);
        }
        path
    }
}

// ---------------------------------------------------------------------------
// Fill colour
// ---------------------------------------------------------------------------
/// The first position at or after `from` where `pat` occurs in `s`.
pub open spec fn find_from(s: Seq<u8>, pat: Seq<u8>, from: int) -> Option<int>
    decreases s.len() + 1 - from,
{
    if from < 0 || from + pat.len() > s.len() {
        None
    } else if s.subrange(from, from + pat.len()) == pat {
        Some(from)
    } else {
        find_from(s, pat, from + 1)
    }
}

pub open spec fn path_tag() -> Seq<u8> {
    seq![60u8, 112, 97, 116, 104]
}

pub open spec fn tag_end() -> Seq<u8> {
    seq![47u8, 62]
}

/// The attribute ` fill="<colour>"`.
pub open spec fn fill_attribute(color: Seq<u8>) -> Seq<u8> {
    seq![32u8, 102, 105, 108, 108, 61, 34] + color + seq![34u8]
}

/// The icon with its first path given the fill colour: the attribute is
/// written just before the first `/>` that follows the first `<path`; an
/// icon without both is left as it is.
pub open spec fn filled(svg: Seq<u8>, color: Seq<u8>) -> Seq<u8> {
    match find_from(svg, path_tag(), 0) {
        Some(start) => match find_from(svg, tag_end(), start) {
            Some(end) => svg.subrange(0, end) + fill_attribute(color) + svg.subrange(
                end,
                svg.len() as int,
            ),
            None => svg,
        },
        None => svg,
    }
}

fn matches_at(s: &[u8], pat: &Vec<u8>, i: usize) -> (r: bool)
    requires
        i + pat@.len() <= s@.len(),
    ensures
        r == (s@.subrange(i as int, i + pat@.len()) == pat@),
{
    let sl = s.len();
    let mut k: usize = 0;
    while k < pat.len()
        invariant
            sl == s@.len(),
            i + pat@.len() <= s@.len(),
            k <= pat@.len(),
            forall|j: int| 0 <= j < k ==> s@[i + j] == pat@[j],
        decreases pat@.len() - k,
    {
        if s[i + k] != pat[k] {
            assert(s@.subrange(i as int, i + pat@.len())[k as int] != pat@[k as int]);
            return false;
        }
        k = k + 1;
    }
    assert(s@.subrange(i as int, i + pat@.len()) =~= pat@);
    true
}

/// The first position at or after `from` where `pat` occurs in `s`.
pub fn find_bytes(s: &[u8], pat: &Vec<u8>, from: usize) -> (r: Option<usize>)
    requires
        pat@.len() > 0,
    ensures
        match r {
            Some(i) => find_from(s@, pat@, from as int) == Some(i as int) && from <= i && i
                + pat@.len() <= s@.len(),
            None => find_from(s@, pat@, from as int) is None,
        },
{
    if pat.len() > s.len() {
        return None;
    }
    let last = s.len() - pat.len();
    let mut i: usize = from;
    while i <= last
        invariant
            pat@.len() > 0,
            last + pat@.len() == s@.len(),
            s@.len() <= usize::MAX,
            from <= i,
            find_from(s@, pat@, from as int) == find_from(s@, pat@, i as int),
        decreases last + 1 - i,
    {
        if matches_at(s, pat, i) {
            return Some(i);
        }
        i = i + 1;
    }
    None
}

/// Appends the bytes `src[lo..hi]` to `out`.
fn extend_range(out: &mut Vec<u8>, src: &[u8], lo: usize, hi: usize)
    requires
        lo <= hi <= src@.len(),
    ensures
        final(out)@ == old(out)@ + src@.subrange(lo as int, hi as int),
{
    let mut i: usize = lo;
    while i < hi
        invariant
            lo <= i <= hi,
            hi <= src@.len(),
            out@ == old(out)@ + src@.subrange(lo as int, i as int),
        decreases hi - i,
    {
        out.push(src[i]);
        proof {
            assert(out@ =~= old(out)@ + src@.subrange(lo as int, i + 1));
        }
        i = i + 1;
    }
}

/// The icon with the attribute ` fill="<c>"` written just before the first
/// `/>` that follows the first `<path`.
fn fill_bytes(svg_bytes: &[u8], c: &[u8]) -> (r: Vec<u8>)
    ensures
        r@ == filled(svg_bytes@, c@),
{
    let tag: Vec<u8> = vec![60u8, 112, 97, 116, 104];
    let close: Vec<u8> = vec![47u8, 62];
    assert(tag@ =~= path_tag());
    assert(close@ =~= tag_end());
    let n = svg_bytes.len();
    let mut out: Vec<u8> = Vec::new();
    let end = match find_bytes(svg_bytes, &tag, 0) {
        Some(start) => find_bytes(svg_bytes, &close, start),
        None => None,
    };
    match end {
        Some(e) => {
            let attr_head: Vec<u8> = vec![32u8, 102, 105, 108, 108, 61, 34];
            let quote: Vec<u8> = vec![34u8];
            extend_range(&mut out, svg_bytes, 0, e);
            extend_range(&mut out, attr_head.as_slice(), 0, attr_head.len());
            extend_range(&mut out, c, 0, c.len());
            extend_range(&mut out, quote.as_slice(), 0, 1);
            extend_range(&mut out, svg_bytes, e, n);
            proof {
                assert(attr_head@.subrange(0, attr_head@.len() as int) =~= seq![32u8, 102, 105, 108, 108, 61, 34]);
                assert(quote@.subrange(0, 1) =~= seq![34u8]);
                assert(c@.subrange(0, c@.len() as int) =~= c@);
                assert(Seq::<u8>::empty() + svg_bytes@.subrange(0, e as int) =~= svg_bytes@.subrange(0, e as int));
                assert(out@ =~= svg_bytes@.subrange(0, e as int) + fill_attribute(c@)
                    + svg_bytes@.subrange(e as int, svg_bytes@.len() as int));
            }
            out
        },
        None => {
            extend_range(&mut out, svg_bytes, 0, n);
            proof {
                assert(out@ =~= svg_bytes@);
            }
            out
        },
    }
}

/// Gives the first path of an SVG icon the fill colour `color`. The icon is
/// read as UTF-8 text first, each invalid sequence becoming U+FFFD; then the
/// attribute ` fill="<colour>"` is written just before the first `/>` that
/// follows the first `<path`.
pub fn set_svg_fill(svg_bytes: &[u8], color: String) -> (r: Vec<u8>)
    ensures
        r@ == filled(lossy_of(svg_bytes@), encode_utf8(color@)),
{
    let text = utf8_lossy(svg_bytes);
    fill_bytes(text.as_slice(), color.as_str().as_bytes())
}

} // verus!
