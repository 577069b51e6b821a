//! The conversion of a source text into a document: its errors, its state,
//! and the assembly of the fragments.

use crate::block::{classify, classify_spec, render, render_spec, scene_after, BlockView};
use crate::segment::{
    lemma_pull_shrinks, lines_of, next_segment, pull, Line, Segment, SegmentView, Segments,
};
use crate::text::{decimal, join, joined, push_decimal};
use crate::CmdInfo;
use std::ops::Range;
use vstd::prelude::*;
use vstd::string::StringExecFns;

verus! {

/// Why a conversion failed.
#[derive(Debug, Clone, PartialEq, Eq)]
pub enum HtmlError {
    /// The source text could not be read; the payload says why.
    IoError(String),
    /// A fragment could not be put together.
    FormatError,
    /// A segment is not what the markup allows at its place.
    SyntaxError { line: usize, expected: String, after: String },
    /// Any other failure: a pattern that is no regular expression, or a scene
    /// beyond the last number the counter can hold.
    Unknown,
}

/// An error as contracts speak of it.
pub enum HtmlErrorView {
    IoError(Seq<char>),
    FormatError,
    SyntaxError { line: usize, expected: Seq<char>, after: Seq<char> },
    Unknown,
}

impl View for HtmlError {
    type V = HtmlErrorView;

    open spec fn view(&self) -> HtmlErrorView {
        match self {
            HtmlError::IoError(why) => HtmlErrorView::IoError(why@),
            HtmlError::FormatError => HtmlErrorView::FormatError,
            HtmlError::SyntaxError { line, expected, after } => HtmlErrorView::SyntaxError {
                line: *line,
                expected: expected@,
                after: after@,
            },
            HtmlError::Unknown => HtmlErrorView::Unknown,
        }
    }
}

/// The message of an error, as it is shown to the author.
pub open spec fn message_of(e: HtmlErrorView) -> Seq<char> {
    match e {
        HtmlErrorView::IoError(why) => why,
        HtmlErrorView::FormatError => "an error occurred when formatting an argument"@,
        HtmlErrorView::SyntaxError { line, expected, after } => "line "@ + decimal(line as nat)
            + " - invalid syntax (expected "@ + expected + " after "@ + after + ")"@,
        HtmlErrorView::Unknown => "unknown html conversion error"@,
    }
}

impl HtmlError {
    /// The message of the error.
    pub fn message(&self) -> (r: String)
        ensures
            r@ == message_of(self@),
    {
        match self {
            HtmlError::IoError(why) => why.clone(),
            HtmlError::FormatError => String::from_str("an error occurred when formatting an argument"),
            HtmlError::SyntaxError { line, expected, after } => {
                let mut r = String::from_str("line ");
                push_decimal(&mut r, *line as u64);
                r.append(" - invalid syntax (expected ");
                r.append(expected.as_str());
                r.append(" after ");
                r.append(after.as_str());
                r.append(")");
                r
            },
            HtmlError::Unknown => String::from_str("unknown html conversion error"),
        }
    }
}

/// The state that is threaded through the classification of one document.
#[derive(Debug, Clone, PartialEq, Eq)]
pub struct Context {
    /// The number of scene headings accepted so far.
    pub scene: u32,
    pub title: String,
    pub subtitle: String,
}

/// A context as contracts speak of it.
pub struct ContextView {
    pub scene: u32,
    pub title: Seq<char>,
    pub subtitle: Seq<char>,
}

impl View for Context {
    type V = ContextView;

    open spec fn view(&self) -> ContextView {
        ContextView { scene: self.scene, title: self.title@, subtitle: self.subtitle@ }
    }
}

/// The view of a fragment or its failure.
pub open spec fn text_outcome(r: Result<String, HtmlError>) -> Result<Seq<char>, HtmlErrorView> {
    match r {
        Ok(text) => Ok(text@),
        Err(e) => Err(e@),
    }
}

/// The markup fragment of a segment in a context, or the failure of its
/// classification.
pub open spec fn get_line_spec(seg: SegmentView, ctx: ContextView) -> Result<
    Seq<char>,
    HtmlErrorView,
> {
    match classify_spec(seg, ctx) {
        Ok(block) => Ok(render_spec(block)),
        Err(e) => Err(e),
    }
}

/// The context once a segment is classified in it.
pub open spec fn context_after(seg: SegmentView, ctx: ContextView) -> ContextView {
    ContextView {
        scene: scene_after(ctx.scene, classify_spec(seg, ctx)),
        title: ctx.title,
        subtitle: ctx.subtitle,
    }
}

/// Classifies a segment and sets it as a markup fragment. A scene heading
/// moves the scene counter of the context on by one; nothing else changes the
/// context, and a failure leaves it as it was.
pub fn get_line(segment: Segment, ctx: &mut Context) -> (r: Result<String, HtmlError>)
    ensures
        text_outcome(r) == get_line_spec(segment@, old(ctx)@),
        final(ctx)@ == context_after(segment@, old(ctx)@),
{
    match classify(&segment, ctx) {
        Ok(block) => Ok(render(&block)),
        Err(e) => Err(e),
    }
}

/// Whether fragments are kept while the scene counter stands at `scene`.
pub open spec fn keeps(range: Option<Range<u32>>, scene: u32) -> bool {
    match range {
        None => true,
        Some(r) => r.start <= scene < r.end,
    }
}

/// Whether the scene counter has left the range behind for good.
pub open spec fn past(range: Option<Range<u32>>, scene: u32) -> bool {
    match range {
        None => false,
        Some(r) => scene > r.end,
    }
}

/// What streaming the lines through the classifier gives: the blocks that are
/// kept, the scene counter at the end, and the failure that ended it, if any.
pub struct Run {
    pub blocks: Seq<BlockView>,
    pub scene: u32,
    pub failure: Option<HtmlErrorView>,
}

/// Streams the segments of `rest` through the classifier. A block is kept
/// where the scene counter, once the block is classified, is in the range;
/// the stream ends at the first failure, and as soon as the counter is
/// beyond the end of the range.
pub open spec fn run(rest: Seq<Line>, ctx: ContextView, range: Option<Range<u32>>) -> Run
    decreases rest.len(),
{
    match next_segment(rest) {
        None => Run { blocks: Seq::empty(), scene: ctx.scene, failure: None },
        Some(seg) => match classify_spec(seg, ctx) {
            Err(e) => Run { blocks: Seq::empty(), scene: ctx.scene, failure: Some(e) },
            Ok(block) => {
                let next = context_after(seg, ctx);
                if keeps(range, next.scene) {
                    proof {
                        lemma_pull_shrinks(rest);
                    }
                    let more = run(pull(rest).rest, next, range);
                    Run {
                        blocks: seq![block] + more.blocks,
                        scene: more.scene,
                        failure: more.failure,
                    }
                } else if past(range, next.scene) {
                    Run { blocks: Seq::empty(), scene: next.scene, failure: None }
                } else {
                    proof {
                        lemma_pull_shrinks(rest);
                    }
                    run(pull(rest).rest, next, range)
                }
            },
        },
    }
}

/// The fragments of the blocks, one after another.
pub open spec fn render_all(blocks: Seq<BlockView>) -> Seq<char>
    decreases blocks.len(),
{
    if blocks.len() == 0 {
        Seq::empty()
    } else {
        render_all(blocks.drop_last()) + render_spec(blocks.last())
    }
}

/// The opening of every document.
pub open spec fn page_open() -> Seq<char> {
    "<html><head><link rel=\"stylesheet\" href=\"../res/style.css\"/></head><body><div class=\"page\">\n"@
}

/// The closing of every document.
pub open spec fn page_close() -> Seq<char> {
    "</div></body></html>"@
}

/// What stands before the fragments: the opening, and the title block where
/// the whole document is asked for.
pub open spec fn preamble(range: Option<Range<u32>>, title: Seq<char>, subtitle: Seq<char>) -> Seq<
    char,
> {
    if range is Some {
        page_open()
    } else {
        page_open() + "<div class=\"title\"><h1>"@ + title
            + "</h1></div>\n<div class=\"subtitle\"><h2>"@ + subtitle + "</h2></div>\n"@
    }
}

/// The failure of a text without a title.
pub open spec fn missing_title() -> HtmlErrorView {
    HtmlErrorView::SyntaxError { line: 1, expected: "title"@, after: "beginning"@ }
}

/// The failure of a text without a subtitle.
pub open spec fn missing_subtitle() -> HtmlErrorView {
    HtmlErrorView::SyntaxError { line: 2, expected: "subtitle"@, after: "title"@ }
}

/// The context in which the first segment after title and subtitle is
/// classified, and the lines that start there; the failure where title or
/// subtitle is missing.
pub open spec fn opening(lines: Seq<Line>) -> Result<(ContextView, Seq<Line>), HtmlErrorView> {
    let first = pull(lines);
    match first.item {
        None => Err(missing_title()),
        Some(title) => {
            let second = pull(first.rest);
            match second.item {
                None => Err(missing_subtitle()),
                Some(subtitle) => Ok(
                    (
                        ContextView { scene: 0, title: join(title.1), subtitle: join(subtitle.1) },
                        second.rest,
                    ),
                ),
            }
        },
    }
}

/// The document of the kept lines of a text: the preamble, the fragments of
/// the kept blocks in their order, and the closing; or the first failure.
pub open spec fn assemble(lines: Seq<Line>, range: Option<Range<u32>>) -> Result<
    Seq<char>,
    HtmlErrorView,
> {
    match opening(lines) {
        Err(e) => Err(e),
        Ok((ctx, rest)) => {
            let r = run(rest, ctx, range);
            match r.failure {
                Some(e) => Err(e),
                None => Ok(
                    preamble(range, ctx.title, ctx.subtitle) + render_all(r.blocks) + page_close(),
                ),
            }
        },
    }
}

/// The document of a source text.
pub open spec fn document(src: Seq<char>, range: Option<Range<u32>>) -> Result<
    Seq<char>,
    HtmlErrorView,
> {
    assemble(lines_of(src), range)
}

/// Converts a source text into a document. The first two segments are the
/// title and the subtitle; every later segment is classified and set. With a
/// scene range in `cmd`, the title block is left out and only the fragments
/// of the scenes in the range are kept.
pub fn gen_html(src: &str, cmd: &CmdInfo) -> (r: Result<String, HtmlError>)
    ensures
        text_outcome(r) == document(src@, cmd.range),
{
    let mut segments = Segments::new(src);
    let title = match segments.next_whole() {
        Some(whole) => joined(&whole.1),
        None => {
            return Err(
                HtmlError::SyntaxError {
                    line: 1,
                    expected: String::from_str("title"),
                    after: String::from_str("beginning"),
                },
            );
        },
    };
    let subtitle = match segments.next_whole() {
        Some(whole) => joined(&whole.1),
        None => {
            return Err(
                HtmlError::SyntaxError {
                    line: 2,
                    expected: String::from_str("subtitle"),
                    after: String::from_str("title"),
                },
            );
        },
    };
    let mut result = String::from_str(
        "<html><head><link rel=\"stylesheet\" href=\"../res/style.css\"/></head><body><div class=\"page\">\n",
    );
    if cmd.range.is_none() {
        result.append("<div class=\"title\"><h1>");
        result.append(title.as_str());
        result.append("</h1></div>\n<div class=\"subtitle\"><h2>");
        result.append(subtitle.as_str());
        result.append("</h2></div>\n");
    }
    let mut ctx = Context { scene: 0, title, subtitle };
    let ghost first = ctx@;
    let ghost start = segments@;
    let ghost head = result@;
    let ghost shown = Seq::<BlockView>::empty();
    loop
        invariant_except_break
            run(start, first, cmd.range).failure == run(segments@, ctx@, cmd.range).failure,
            run(start, first, cmd.range).blocks == shown + run(segments@, ctx@, cmd.range).blocks,
        invariant
            opening(lines_of(src@)) == Ok::<_, HtmlErrorView>((first, start)),
            head == preamble(cmd.range, first.title, first.subtitle),
            result@ == head + render_all(shown),
        ensures
            run(start, first, cmd.range).failure is None,
            run(start, first, cmd.range).blocks == shown,
        decreases segments@.len(),
    {
        let ghost rest = segments@;
        let ghost before = ctx@;
        proof {
            lemma_pull_shrinks(rest);
        }
        match segments.next() {
            None => {
                break ;
            },
            Some(segment) => {
                let ghost seg = segment@;
                match get_line(segment, &mut ctx) {
                    Err(e) => {
                        return Err(e);
                    },
                    Ok(line) => {
                        let ghost block = classify_spec(seg, before)->Ok_0;
                        let kept = match &cmd.range {
                            None => true,
                            Some(range) => range.start <= ctx.scene && ctx.scene < range.end,
                        };
                        let done = match &cmd.range {
                            None => false,
                            Some(range) => ctx.scene > range.end,
                        };
                        if kept {
                            result.append(line.as_str());
                            proof {
                                assert(shown.push(block).drop_last() == shown);
                                shown = shown.push(block);
                            }
                        } else if done {
                            break ;
                        }
                    },
                }
            },
        }
    }
    result.append("</div></body></html>");
    Ok(result)
}

} // verus!
