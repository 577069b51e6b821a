//! From raw text to logical segments.
//!
//! A source text is cut into lines; each line loses its inline comment and
//! its surrounding white space, and blank lines are dropped. The lines that
//! remain are grouped into segments: a line that ends in a backslash is
//! continued by the next one, and a line that consists of the sentinel ends
//! the readable part of the text.

use crate::text::{
    chars_of, find, find_in, find_space, is_space_char, same, string_of, trim, trim_bounds,
};
use vstd::prelude::*;
use vstd::string::StrSliceExecFns;

verus! {

/// A kept line: its number in the source, counted from zero, and its text.
pub type Line = (usize, Seq<char>);

/// The marker that opens an inline comment.
pub open spec fn comment_mark() -> Seq<char> {
    "* "@
}

/// The line that ends the readable part of a text.
pub open spec fn sentinel() -> Seq<char> {
    "***"@
}

/// A line without its inline comment and without surrounding white space.
pub open spec fn strip_ignored(line: Seq<char>) -> Seq<char> {
    trim(line.take(find(line, comment_mark())))
}

/// The line as it is kept, or nothing where it is blank.
pub open spec fn kept(number: usize, line: Seq<char>) -> Seq<Line> {
    let t = strip_ignored(line);
    if t.len() > 0 {
        seq![(number, t)]
    } else {
        Seq::empty()
    }
}

/// The kept lines of `s` from position `at` on, where the line that holds
/// `at` starts at `start` and has the number `number`. Lines end at a line
/// feed; a carriage return before it is white space and falls to `trim`.
pub open spec fn lines_from(s: Seq<char>, at: int, start: int, number: usize) -> Seq<Line>
    decreases s.len() - at,
{
    if start < 0 || at < start {
        Seq::empty()
    } else if at >= s.len() {
        kept(number, s.subrange(start, s.len() as int))
    } else if s[at] == '\n' {
        kept(number, s.subrange(start, at)) + lines_from(s, at + 1, at + 1, (number + 1) as usize)
    } else {
        lines_from(s, at + 1, start, number)
    }
}

/// The kept lines of a source text, each with its number.
pub open spec fn lines_of(s: Seq<char>) -> Seq<Line> {
    lines_from(s, 0, 0, 0)
}

/// Whether a line asks to be continued by the next one.
pub open spec fn continued(line: Seq<char>) -> bool {
    line.len() > 0 && line.last() == '\\'
}

/// What one reading of the line stream gives: the number and the fragments of
/// the next segment, if there is one, and the lines that remain.
pub struct Pulled {
    pub item: Option<(usize, Seq<Seq<char>>)>,
    pub rest: Seq<Line>,
}

/// The fragments of the segment that starts with the first line of `rest`,
/// and the lines that remain after it. There are no fragments where the lines
/// run out while a continuation is open.
pub open spec fn gather(rest: Seq<Line>) -> (Option<Seq<Seq<char>>>, Seq<Line>)
    decreases rest.len(),
{
    if rest.len() == 0 {
        (None, Seq::empty())
    } else if !continued(rest[0].1) {
        (Some(seq![rest[0].1]), rest.drop_first())
    } else {
        let frag = trim(rest[0].1.drop_last());
        let tail = rest.drop_first();
        if tail.len() == 0 {
            (None, Seq::empty())
        } else if tail[0].1 == sentinel() {
            (Some(seq![frag]), Seq::empty())
        } else {
            let g = gather(tail);
            (
                match g.0 {
                    Some(more) => Some(seq![frag] + more),
                    None => None,
                },
                g.1,
            )
        }
    }
}

/// One reading of the line stream. A sentinel ends the stream for good:
/// nothing remains after it.
pub open spec fn pull(rest: Seq<Line>) -> Pulled {
    if rest.len() == 0 || rest[0].1 == sentinel() {
        Pulled { item: None, rest: Seq::empty() }
    } else {
        let g = gather(rest);
        Pulled {
            item: match g.0 {
                Some(frags) => Some(((rest[0].0 + 1) as usize, frags)),
                None => None,
            },
            rest: g.1,
        }
    }
}

/// Reading a segment never leaves more lines than there were.
pub proof fn lemma_gather_shrinks(rest: Seq<Line>)
    ensures
        gather(rest).1.len() <= rest.len(),
        gather(rest).0 is Some ==> gather(rest).1.len() < rest.len(),
        gather(rest).0 matches Some(frags) ==> frags.len() > 0,
    decreases rest.len(),
{
    if rest.len() > 0 && continued(rest[0].1) {
        let tail = rest.drop_first();
        if tail.len() > 0 && tail[0].1 != sentinel() {
            lemma_gather_shrinks(tail);
        }
    }
}

/// A reading that gives a segment consumes at least one line, and the
/// segment has at least one fragment.
pub proof fn lemma_pull_shrinks(rest: Seq<Line>)
    ensures
        pull(rest).rest.len() <= rest.len(),
        pull(rest).item is Some ==> pull(rest).rest.len() < rest.len(),
        pull(rest).item matches Some(whole) ==> whole.1.len() > 0,
{
    lemma_gather_shrinks(rest);
}

/// Strips the inline comment and the surrounding white space from a numbered
/// line. The number passes through.
pub fn trim_ignored<'a>(entry: (usize, &'a str)) -> (r: (usize, &'a str))
    ensures
        r.0 == entry.0,
        r.1@ == strip_ignored(entry.1@),
{
    let chars = chars_of(entry.1);
    let mark = chars_of("* ");
    let cut = find_in(chars.as_slice(), mark.as_slice(), 0, chars.len());
    let (lo, hi) = trim_bounds(chars.as_slice(), 0, cut);
    assert(chars@.subrange(0, chars@.len() as int) == chars@);
    (entry.0, entry.1.substring_char(lo, hi))
}

/// One logical unit of the source: the 1-based number of its first line, its
/// mode keyword and its text fragments.
#[derive(Debug, Clone, PartialEq, Eq)]
pub struct Segment {
    pub line: usize,
    pub mode: String,
    pub text: Vec<String>,
}

/// A segment as contracts speak of it.
pub struct SegmentView {
    pub line: usize,
    pub mode: Seq<char>,
    pub text: Seq<Seq<char>>,
}

impl View for Segment {
    type V = SegmentView;

    open spec fn view(&self) -> SegmentView {
        SegmentView { line: self.line, mode: self.mode@, text: self.text.deep_view() }
    }
}

/// The segment made of a line number and fragments: the first fragment is cut
/// at its first white-space character into the mode keyword and a remainder.
/// A first fragment without white space is the keyword, and the segment has no
/// text at all.
pub open spec fn segment_of(line: usize, frags: Seq<Seq<char>>) -> SegmentView {
    let first = frags[0];
    let k = find_space(first, 0);
    if k < first.len() {
        SegmentView {
            line,
            mode: first.take(k),
            text: seq![trim(first.skip(k + 1))] + frags.drop_first(),
        }
    } else {
        SegmentView { line, mode: first, text: Seq::empty() }
    }
}

/// The next segment of the line stream, if there is one.
pub open spec fn next_segment(rest: Seq<Line>) -> Option<SegmentView> {
    match pull(rest).item {
        Some((line, frags)) => Some(segment_of(line, frags)),
        None => None,
    }
}

/// The forward-only stream of segments of one source text.
pub struct Segments {
    lines: Vec<(usize, Vec<char>)>,
    pos: usize,
    term: bool,
}

impl View for Segments {
    type V = Seq<Line>;

    /// The lines that are still to be read.
    closed spec fn view(&self) -> Seq<Line> {
        if self.term || self.pos >= self.lines@.len() {
            Seq::empty()
        } else {
            Seq::new(
                (self.lines@.len() - self.pos) as nat,
                |i: int| (self.lines@[self.pos + i].0, self.lines@[self.pos + i].1@),
            )
        }
    }
}

impl Segments {
    #[verifier::type_invariant]
    spec fn numbers_fit(&self) -> bool {
        forall|i: int| 0 <= i < self.lines@.len() ==> (#[trigger] self.lines@[i]).0 < usize::MAX
    }

    /// The stream over the kept lines of `src`.
    pub fn new(src: &str) -> (r: Segments)
        ensures
            r@ == lines_of(src@),
    {
        let chars = chars_of(src);
        let mark = chars_of("* ");
        let mut lines: Vec<(usize, Vec<char>)> = Vec::new();
        let mut at: usize = 0;
        let mut start: usize = 0;
        let mut number: usize = 0;
        let ghost s = chars@;
        let ghost shown = Seq::<Line>::empty();
        loop
            invariant_except_break
                at <= s.len(),
                lines_of(s) == shown + lines_from(s, at as int, start as int, number),
            invariant
                s == chars@,
                s == src@,
                mark@ == comment_mark(),
                start <= at,
                number <= start,
                shown.len() == lines@.len(),
                forall|i: int|
                    0 <= i < shown.len() ==> shown[i] == ((#[trigger] lines@[i]).0, lines@[i].1@),
                forall|i: int| 0 <= i < lines@.len() ==> (#[trigger] lines@[i]).0 < usize::MAX,
            ensures
                lines_of(s) == shown,
            decreases s.len() - at,
        {
            if at >= chars.len() || chars[at] == '\n' {
                let cut = find_in(chars.as_slice(), mark.as_slice(), start, at);
                let (lo, hi) = trim_bounds(chars.as_slice(), start, cut);
                let ghost line = s.subrange(start as int, at as int);
                proof {
                    assert(line.take(cut - start) == s.subrange(start as int, cut as int));
                }
                if lo < hi {
                    let mut copy: Vec<char> = Vec::new();
                    let mut k: usize = lo;
                    while k < hi
                        invariant
                            lo <= k <= hi <= chars.len(),
                            copy@ == chars@.subrange(lo as int, k as int),
                        decreases hi - k,
                    {
                        copy.push(chars[k]);
                        k += 1;
                    }
                    lines.push((number, copy));
                    proof {
                        shown = shown.push((number, strip_ignored(line)));
                    }
                }
                if at >= chars.len() {
                    break ;
                }
                at += 1;
                start = at;
                number += 1;
            } else {
                at += 1;
            }
        }
        let r = Segments { lines, pos: 0, term: false };
        r
    }

    /// Reads the next segment as it stands in the source: the 1-based number
    /// of its first line and its fragments, of which there is at least one.
    /// Gives nothing at the end of the lines, at a sentinel, and where the
    /// lines run out while a continuation is open.
    pub fn next_whole(&mut self) -> (r: Option<(usize, Vec<String>)>)
        ensures
            r.deep_view() == pull(old(self)@).item,
            final(self)@ == pull(old(self)@).rest,
            r matches Some(w) ==> w.1@.len() > 0,
    {
        proof {
            use_type_invariant(&*self);
        }
        if self.term || self.pos >= self.lines.len() {
            return None;
        }
        let mark = chars_of("***");
        if same(self.lines[self.pos].1.as_slice(), mark.as_slice()) {
            self.term = true;
            return None;
        }
        let ghost before = self@;
        let line = self.lines[self.pos].0 + 1;
        let mut text: Vec<String> = Vec::new();
        loop
            invariant_except_break
                !self.term,
                self.pos < self.lines@.len(),
                self@.len() > 0,
                before.len() > 0,
                gather(before) == (
                    match gather(self@).0 {
                        Some(more) => Some(text.deep_view() + more),
                        None => None,
                    },
                    gather(self@).1,
                ),
            invariant
                mark@ == sentinel(),
                before == old(self)@,
                self.lines@.len() <= usize::MAX,
                line == (before[0].0 + 1) as usize,
                before[0].1 != sentinel(),
            ensures
                gather(before).1 == self@,
                gather(before).0 == Some(text.deep_view()),
                text@.len() > 0,
            decreases self.lines@.len() - self.pos,
        {
            proof {
                use_type_invariant(&*self);
            }
            let ghost here = self@;
            let n = self.lines[self.pos].1.len();
            if n > 0 && self.lines[self.pos].1[n - 1] == '\\' {
                let (lo, hi) = trim_bounds(self.lines[self.pos].1.as_slice(), 0, n - 1);
                let frag = string_of(self.lines[self.pos].1.as_slice(), lo, hi);
                text.push(frag);
                self.pos = self.pos + 1;
                if self.pos >= self.lines.len() {
                    return None;
                }
                assert(self@ =~= here.drop_first());
                if same(self.lines[self.pos].1.as_slice(), mark.as_slice()) {
                    self.term = true;
                    break ;
                }
            } else {
                let whole = string_of(self.lines[self.pos].1.as_slice(), 0, n);
                assert(whole@ == here[0].1);
                text.push(whole);
                self.pos = self.pos + 1;
                break ;
            }
        }
        Some((line, text))
    }

    /// Reads the next segment, its first fragment cut into the mode keyword
    /// and the start of the text.
    pub fn next(&mut self) -> (r: Option<Segment>)
        ensures
            (match r {
                Some(seg) => Some(seg@),
                None => None,
            }) == next_segment(old(self)@),
            final(self)@ == pull(old(self)@).rest,
    {
        match self.next_whole() {
            None => None,
            Some((line, mut text)) => {
                let ghost frags = text.deep_view();
                let first = text.remove(0);
                let chars = chars_of(first.as_str());
                let k = space_in(chars.as_slice(), 0);
                if k < chars.len() {
                    let mode = string_of(chars.as_slice(), 0, k);
                    let (lo, hi) = trim_bounds(chars.as_slice(), k + 1, chars.len());
                    let rest = string_of(chars.as_slice(), lo, hi);
                    text.insert(0, rest);
                    assert(text.deep_view() == seq![rest@] + frags.drop_first());
                    Some(Segment { line, mode, text })
                } else {
                    let none: Vec<String> = Vec::new();
                    assert(none.deep_view() == Seq::<Seq<char>>::empty());
                    Some(Segment { line, mode: first, text: none })
                }
            },
        }
    }
}

/// The first position at or after `from` that holds a white-space character,
/// the length of `v` where there is none.
pub fn space_in(v: &[char], from: usize) -> (r: usize)
    requires
        from <= v.len(),
    ensures
        from <= r <= v.len(),
        r == find_space(v@, from as int),
{
    let mut i: usize = from;
    while i < v.len() && !is_space_char(v[i])
        invariant
            from <= i <= v.len(),
            find_space(v@, from as int) == find_space(v@, i as int),
        decreases v.len() - i,
    {
        i += 1;
    }
    i
}

} // verus!
