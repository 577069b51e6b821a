//! What holds of every conversion.

use crate::block::{classify_spec, pad_width, BlockView};
use crate::html::{
    assemble, context_after, document, keeps, opening, past, run, text_outcome, ContextView,
    HtmlError,
};
use crate::segment::{
    comment_mark, continued, gather, kept, lemma_pull_shrinks, lines_from, next_segment, pull,
    sentinel, strip_ignored, Line, SegmentView,
};
use crate::text::{
    decimal, find, find_from, is_space, occurs_at, trim, trim_end, trim_start,
};
use std::ops::Range;
use vstd::prelude::*;

verus! {

/// The ordinals of the scene headings among the blocks, in their order.
pub open spec fn scene_ordinals(blocks: Seq<BlockView>) -> Seq<int>
    decreases blocks.len(),
{
    if blocks.len() == 0 {
        Seq::empty()
    } else {
        let rest = scene_ordinals(blocks.drop_first());
        match blocks[0] {
            BlockView::Scene { ordinal, .. } => seq![ordinal as int] + rest,
            _ => rest,
        }
    }
}

/// A segment that is classified as a scene heading has the ordinal that
/// follows the counter, and only a scene heading moves the counter. A
/// segment that fails leaves the counter where it was.
pub proof fn lemma_scene_takes_next(seg: SegmentView, ctx: ContextView)
    ensures
        classify_spec(seg, ctx) matches Ok(BlockView::Scene { ordinal, .. }) ==> ordinal
            == ctx.scene + 1,
        !(classify_spec(seg, ctx) matches Ok(BlockView::Scene { .. })) ==> context_after(
            seg,
            ctx,
        ).scene == ctx.scene,
        context_after(seg, ctx).scene >= ctx.scene,
{
}

/// The scene headings that a conversion keeps carry consecutive ordinals in
/// the order of the document: each is one more than the one before it. The
/// first is beyond the counter the conversion started with, and it is the
/// very next number wherever that number is in the range.
pub proof fn lemma_scene_ordinals_consecutive(
    rest: Seq<Line>,
    ctx: ContextView,
    range: Option<Range<u32>>,
)
    ensures
        ({
            let kept = scene_ordinals(run(rest, ctx, range).blocks);
            &&& forall|k: int| 0 <= k < kept.len() ==> #[trigger] kept[k] == kept[0] + k
            &&& kept.len() > 0 ==> kept[0] > ctx.scene && kept[0] <= u32::MAX && keeps(
                range,
                kept[0] as u32,
            )
            &&& kept.len() > 0 && ctx.scene < u32::MAX && keeps(range, (ctx.scene + 1) as u32)
                ==> kept[0] == ctx.scene + 1
        }),
    decreases rest.len(),
{
    match next_segment(rest) {
        None => {},
        Some(seg) => match classify_spec(seg, ctx) {
            Err(e) => {},
            Ok(block) => {
                lemma_scene_takes_next(seg, ctx);
                lemma_pull_shrinks(rest);
                let next = context_after(seg, ctx);
                if keeps(range, next.scene) {
                    lemma_scene_ordinals_consecutive(pull(rest).rest, next, range);
                    let more = run(pull(rest).rest, next, range);
                    let blocks = seq![block] + more.blocks;
                    assert(blocks.drop_first() == more.blocks);
                    if block is Scene {
                        let kept = scene_ordinals(blocks);
                        assert forall|k: int| 0 <= k < kept.len() implies #[trigger] kept[k]
                            == kept[0] + k by {}
                    }
                } else if !past(range, next.scene) {
                    lemma_scene_ordinals_consecutive(pull(rest).rest, next, range);
                }
            },
        },
    }
}

/// With a range, every scene heading that a conversion keeps has its
/// ordinal in the range.
pub proof fn lemma_kept_scenes_are_in_range(
    rest: Seq<Line>,
    ctx: ContextView,
    range: Option<Range<u32>>,
)
    ensures
        ({
            let kept = scene_ordinals(run(rest, ctx, range).blocks);
            forall|k: int|
                0 <= k < kept.len() ==> 0 <= #[trigger] kept[k] <= u32::MAX && keeps(
                    range,
                    kept[k] as u32,
                )
        }),
    decreases rest.len(),
{
    match next_segment(rest) {
        None => {},
        Some(seg) => match classify_spec(seg, ctx) {
            Err(e) => {},
            Ok(block) => {
                lemma_pull_shrinks(rest);
                let next = context_after(seg, ctx);
                if keeps(range, next.scene) {
                    lemma_kept_scenes_are_in_range(pull(rest).rest, next, range);
                    let more = run(pull(rest).rest, next, range);
                    let blocks = seq![block] + more.blocks;
                    assert(blocks.drop_first() == more.blocks);
                    let later = scene_ordinals(more.blocks);
                    let kept = scene_ordinals(blocks);
                    assert(kept == later || kept == seq![next.scene as int] + later);
                    assert forall|k: int| 0 <= k < kept.len() implies 0 <= #[trigger] kept[k]
                        <= u32::MAX && keeps(range, kept[k] as u32) by {}
                } else if !past(range, next.scene) {
                    lemma_kept_scenes_are_in_range(pull(rest).rest, next, range);
                }
            },
        },
    }
}

/// Reading stops as soon as the counter is beyond the end of the range: a
/// conversion that starts at or before the end never counts further than one
/// scene beyond it.
pub proof fn lemma_run_stops_beyond_range(rest: Seq<Line>, ctx: ContextView, range: Range<u32>)
    requires
        ctx.scene <= range.end,
    ensures
        run(rest, ctx, Some(range)).scene <= range.end + 1,
    decreases rest.len(),
{
    match next_segment(rest) {
        None => {},
        Some(seg) => match classify_spec(seg, ctx) {
            Err(e) => {},
            Ok(block) => {
                lemma_scene_takes_next(seg, ctx);
                lemma_pull_shrinks(rest);
                let next = context_after(seg, ctx);
                if !past(Some(range), next.scene) {
                    lemma_run_stops_beyond_range(pull(rest).rest, next, range);
                }
            },
        },
    }
}

/// Without a range every block is kept, and then the scene headings of a
/// conversion are as many as the counter has moved, and their ordinals are
/// the numbers that follow the counter it started with, one by one.
pub proof fn lemma_scene_ordinals_count(rest: Seq<Line>, ctx: ContextView)
    ensures
        ({
            let r = run(rest, ctx, None);
            let kept = scene_ordinals(r.blocks);
            &&& r.scene >= ctx.scene
            &&& kept.len() == r.scene - ctx.scene
            &&& forall|k: int| 0 <= k < kept.len() ==> #[trigger] kept[k] == ctx.scene + 1 + k
        }),
    decreases rest.len(),
{
    match next_segment(rest) {
        None => {},
        Some(seg) => match classify_spec(seg, ctx) {
            Err(e) => {},
            Ok(block) => {
                lemma_scene_takes_next(seg, ctx);
                lemma_pull_shrinks(rest);
                let next = context_after(seg, ctx);
                lemma_scene_ordinals_count(pull(rest).rest, next);
                let more = run(pull(rest).rest, next, None);
                let blocks = seq![block] + more.blocks;
                assert(blocks.drop_first() == more.blocks);
                if block is Scene {
                    let kept = scene_ordinals(blocks);
                    assert forall|k: int| 0 <= k < kept.len() implies #[trigger] kept[k]
                        == ctx.scene + 1 + k by {}
                }
            },
        },
    }
}

/// From a counter of zero, as every document starts, the scene headings of a
/// whole document carry the ordinals 1, 2, 3 and so on, in their order.
pub proof fn lemma_document_scenes_count_from_one(lines: Seq<Line>)
    ensures
        opening(lines) matches Ok((ctx, rest)) ==> ctx.scene == 0 && forall|k: int|
            0 <= k < scene_ordinals(run(rest, ctx, None).blocks).len() ==> #[trigger] scene_ordinals(
                run(rest, ctx, None).blocks,
            )[k] == k + 1,
{
    if let Ok((ctx, rest)) = opening(lines) {
        lemma_scene_ordinals_count(rest, ctx);
    }
}

/// The numeral of a number below ten has one digit, below a hundred two,
/// below a thousand three, and from a thousand on at least four.
pub proof fn lemma_decimal_len(n: nat)
    ensures
        n < 10 ==> decimal(n).len() == 1,
        10 <= n < 100 ==> decimal(n).len() == 2,
        100 <= n < 1000 ==> decimal(n).len() == 3,
        1000 <= n ==> decimal(n).len() >= 4,
    decreases n,
{
    if n >= 10 {
        lemma_decimal_len(n / 10);
    }
}

/// The filler before a scene ordinal brings its numeral to a width of four:
/// three glyphs before one digit, two before two, one before three, and none
/// from a thousand on.
pub proof fn lemma_pad_width(ordinal: nat)
    ensures
        pad_width(ordinal) + decimal(ordinal).len() >= 4,
        pad_width(ordinal) == if ordinal < 10 {
            3nat
        } else if ordinal < 100 {
            2nat
        } else if ordinal < 1000 {
            1nat
        } else {
            0nat
        },
{
    lemma_decimal_len(ordinal);
}

/// What is left of a text without its leading white space does not start
/// with white space.
proof fn lemma_trim_start_is_trimmed(s: Seq<char>)
    ensures
        trim_start(s).len() > 0 ==> !is_space(trim_start(s)[0]),
    decreases s.len(),
{
    if s.len() > 0 && is_space(s[0]) {
        lemma_trim_start_is_trimmed(s.drop_first());
    }
}

/// What is left of a text without its trailing white space is a start of
/// the text that does not end with white space.
proof fn lemma_trim_end_is_trimmed(s: Seq<char>)
    ensures
        trim_end(s).len() <= s.len(),
        trim_end(s) == s.take(trim_end(s).len() as int),
        trim_end(s).len() > 0 ==> !is_space(trim_end(s).last()),
    decreases s.len(),
{
    if s.len() > 0 && is_space(s.last()) {
        lemma_trim_end_is_trimmed(s.drop_last());
    }
}

/// A trimmed text neither starts nor ends with white space.
pub proof fn lemma_trim_is_trimmed(s: Seq<char>)
    ensures
        trim(s).len() > 0 ==> !is_space(trim(s)[0]) && !is_space(trim(s).last()),
{
    lemma_trim_start_is_trimmed(s);
    lemma_trim_end_is_trimmed(trim_start(s));
}

/// Whether a line holds something and neither starts nor ends with white
/// space.
pub open spec fn is_neat(line: Seq<char>) -> bool {
    line.len() > 0 && !is_space(line[0]) && !is_space(line.last())
}

/// Every kept line holds something, and neither starts nor ends with white
/// space.
pub proof fn lemma_kept_lines_are_neat(s: Seq<char>, at: int, start: int, number: usize)
    ensures
        forall|i: int|
            0 <= i < lines_from(s, at, start, number).len() ==> is_neat(
                (#[trigger] lines_from(s, at, start, number)[i]).1,
            ),
    decreases s.len() - at,
{
    let lines = lines_from(s, at, start, number);
    if 0 <= start <= at {
        if at < s.len() && s[at] != '\n' {
            lemma_kept_lines_are_neat(s, at + 1, start, number);
            assert(lines == lines_from(s, at + 1, start, number));
        } else {
            let end = if at >= s.len() {
                s.len() as int
            } else {
                at
            };
            let whole = s.subrange(start, end);
            let here = kept(number, whole);
            lemma_trim_is_trimmed(whole.take(find(whole, comment_mark())));
            if at < s.len() {
                let next = (number + 1) as usize;
                lemma_kept_lines_are_neat(s, at + 1, at + 1, next);
                assert(lines == here + lines_from(s, at + 1, at + 1, next));
            }
        }
    }
}

/// A search ends inside the text or at its end.
proof fn lemma_find_in_range(s: Seq<char>, pat: Seq<char>, from: int)
    requires
        0 <= from <= s.len(),
    ensures
        from <= find_from(s, pat, from) <= s.len(),
    decreases s.len() - from,
{
    if from + pat.len() <= s.len() && !occurs_at(s, pat, from) && from < s.len() {
        lemma_find_in_range(s, pat, from + 1);
    }
}

/// Where the comment mark is found in a line that holds it after `before`:
/// where it is found in `before`, and at the end of `before` otherwise.
proof fn lemma_find_comment(before: Seq<char>, after: Seq<char>, from: int)
    requires
        0 <= from <= before.len(),
    ensures
        find_from(before + comment_mark() + after, comment_mark(), from) == if find_from(
            before,
            comment_mark(),
            from,
        ) < before.len() {
            find_from(before, comment_mark(), from)
        } else {
            before.len() as int
        },
    decreases before.len() - from,
{
    reveal_strlit("* ");
    let mark = comment_mark();
    assert(mark.len() == 2 && mark[0] == '*' && mark[1] == ' ');
    if from + 2 > before.len() {
        if from < before.len() {
            lemma_find_comment(before, after, from + 1);
        }
    } else if !occurs_at(before, mark, from) {
        lemma_find_comment(before, after, from + 1);
    }
}

/// A comment changes nothing of what a line holds before it: with the mark
/// and whatever follows it, the line is kept as it is kept without them.
pub proof fn lemma_comment_is_ignored(before: Seq<char>, after: Seq<char>)
    ensures
        strip_ignored(before + comment_mark() + after) == strip_ignored(before),
{
    let line = before + comment_mark() + after;
    lemma_find_comment(before, after, 0);
    lemma_find_in_range(before, comment_mark(), 0);
    let cut = find(before, comment_mark());
    if cut < before.len() {
        assert(line.take(cut) == before.take(cut));
    } else {
        assert(line.take(before.len() as int) == before);
        assert(before.take(cut) == before);
    }
}

/// A line that holds nothing but a comment is dropped.
pub proof fn lemma_comment_line_is_dropped(number: usize, comment: Seq<char>)
    ensures
        kept(number, comment_mark() + comment) == Seq::<Line>::empty(),
{
    lemma_comment_is_ignored(Seq::<char>::empty(), comment);
}

/// The fragments of `count` continued lines and the line that ends them:
/// each continued line without its backslash and the white space around it,
/// and the last line as it is.
pub open spec fn joined_fragments(rest: Seq<Line>, count: int) -> Seq<Seq<char>> {
    Seq::new(
        (count + 1) as nat,
        |i: int|
            if i < count {
                trim(rest[i].1.drop_last())
            } else {
                rest[count].1
            },
    )
}

proof fn lemma_gather_joins(rest: Seq<Line>, count: int)
    requires
        0 <= count < rest.len(),
        forall|i: int| 0 <= i < count ==> continued(#[trigger] rest[i].1),
        !continued(rest[count].1),
        forall|i: int| 1 <= i <= count ==> (#[trigger] rest[i]).1 != sentinel(),
    ensures
        gather(rest) == (Some(joined_fragments(rest, count)), rest.skip(count + 1)),
    decreases count,
{
    if count > 0 {
        let tail = rest.drop_first();
        assert forall|i: int| 0 <= i < count - 1 implies continued(#[trigger] tail[i].1) by {}
        assert forall|i: int| 1 <= i <= count - 1 implies (#[trigger] tail[i]).1 != sentinel() by {}
        lemma_gather_joins(tail, count - 1);
    }
}

/// Lines that end in a backslash are joined with the line that follows them
/// into one segment, fragment by fragment in their order, and the lines after
/// it remain.
pub proof fn lemma_continuation_joins(rest: Seq<Line>, count: int)
    requires
        0 <= count < rest.len(),
        forall|i: int| 0 <= i < count ==> continued(#[trigger] rest[i].1),
        !continued(rest[count].1),
        forall|i: int| 0 <= i <= count ==> (#[trigger] rest[i]).1 != sentinel(),
    ensures
        pull(rest).item == Some(((rest[0].0 + 1) as usize, joined_fragments(rest, count))),
        pull(rest).rest == rest.skip(count + 1),
{
    lemma_gather_joins(rest, count);
}

/// What a segment gathers does not depend on the lines after a sentinel.
/// The result tells what remains: nothing, or the lines before the sentinel
/// that are still unread.
proof fn lemma_gather_stops_at_sentinel(
    before: Seq<Line>,
    number: usize,
    after: Seq<Line>,
) -> (left: Option<Seq<Line>>)
    requires
        before.len() > 0,
    ensures
        gather(before + seq![(number, sentinel())] + after).0 == gather(
            before + seq![(number, sentinel())],
        ).0,
        match left {
            None => gather(before + seq![(number, sentinel())] + after).1.len() == 0 && gather(
                before + seq![(number, sentinel())],
            ).1.len() == 0,
            Some(unread) => unread.len() < before.len() && gather(
                before + seq![(number, sentinel())] + after,
            ).1 == unread + seq![(number, sentinel())] + after && gather(
                before + seq![(number, sentinel())],
            ).1 == unread + seq![(number, sentinel())],
        },
    decreases before.len(),
{
    let mark = (number, sentinel());
    let unread = before.drop_first();
    assert((before + seq![mark] + after).drop_first() == unread + seq![mark] + after);
    assert((before + seq![mark]).drop_first() == unread + seq![mark]);
    if !continued(before[0].1) {
        Some(unread)
    } else if unread.len() == 0 || unread[0].1 == sentinel() {
        None
    } else {
        lemma_gather_stops_at_sentinel(unread, number, after)
    }
}

/// One reading of the lines does not depend on the lines after a sentinel.
/// The result tells what remains, as above.
proof fn lemma_pull_stops_at_sentinel(before: Seq<Line>, number: usize, after: Seq<Line>) -> (left:
    Option<Seq<Line>>)
    ensures
        pull(before + seq![(number, sentinel())] + after).item == pull(
            before + seq![(number, sentinel())],
        ).item,
        match left {
            None => pull(before + seq![(number, sentinel())] + after).rest.len() == 0 && pull(
                before + seq![(number, sentinel())],
            ).rest.len() == 0,
            Some(unread) => unread.len() < before.len() && pull(
                before + seq![(number, sentinel())] + after,
            ).rest == unread + seq![(number, sentinel())] + after && pull(
                before + seq![(number, sentinel())],
            ).rest == unread + seq![(number, sentinel())],
        },
{
    if before.len() == 0 || before[0].1 == sentinel() {
        None
    } else {
        lemma_gather_stops_at_sentinel(before, number, after)
    }
}

/// The classifier never sees what follows a sentinel: whatever lines stand
/// after it, at the start of a segment or in the middle of a continuation,
/// the blocks, the counter and the failure of the conversion are the same.
pub proof fn lemma_run_stops_at_sentinel(
    before: Seq<Line>,
    number: usize,
    after: Seq<Line>,
    ctx: ContextView,
    range: Option<Range<u32>>,
)
    ensures
        run(before + seq![(number, sentinel())] + after, ctx, range) == run(
            before + seq![(number, sentinel())],
            ctx,
            range,
        ),
    decreases before.len(),
{
    let long = before + seq![(number, sentinel())] + after;
    let short = before + seq![(number, sentinel())];
    let left = lemma_pull_stops_at_sentinel(before, number, after);
    if let Some(seg) = next_segment(long) {
        match left {
            None => {
                assert(pull(long).rest =~= pull(short).rest);
            },
            Some(unread) => {
                lemma_run_stops_at_sentinel(unread, number, after, context_after(seg, ctx), range);
            },
        }
    }
}

/// A document does not depend on the lines after a sentinel, wherever the
/// sentinel stands: before the title, between title and subtitle, or later.
pub proof fn lemma_document_stops_at_sentinel(
    before: Seq<Line>,
    number: usize,
    after: Seq<Line>,
    range: Option<Range<u32>>,
)
    ensures
        assemble(before + seq![(number, sentinel())] + after, range) == assemble(
            before + seq![(number, sentinel())],
            range,
        ),
{
    let long = before + seq![(number, sentinel())] + after;
    if let Some(unread) = lemma_pull_stops_at_sentinel(before, number, after) {
        if let Some(still) = lemma_pull_stops_at_sentinel(unread, number, after) {
            if let Ok((ctx, rest)) = opening(long) {
                lemma_run_stops_at_sentinel(still, number, after, ctx, range);
            }
        }
    }
}

/// The sentinel is kept as a line of its own.
proof fn lemma_sentinel_is_kept(number: usize)
    ensures
        kept(number, sentinel()) == seq![(number, sentinel())],
{
    reveal_strlit("***");
    reveal_strlit("* ");
    let stars = sentinel();
    assert(stars.len() == 3 && stars[0] == '*' && stars[1] == '*' && stars[2] == '*');
    reveal_with_fuel(find_from, 3);
    assert(stars.take(3) == stars);
}

/// The kept lines of a text that holds the sentinel as a line of its own,
/// read from inside what stands before it. The result names the lines before
/// the sentinel, the number of the sentinel's line, and the lines after it.
proof fn lemma_lines_up_to_sentinel(
    head: Seq<char>,
    tail: Seq<char>,
    at: int,
    start: int,
    number: usize,
) -> (found: (Seq<Line>, usize, Seq<Line>))
    requires
        0 <= start <= at <= head.len(),
    ensures
        lines_from(head + "\n***\n"@ + tail, at, start, number) == found.0 + seq![
            (found.1, sentinel()),
        ] + found.2,
        lines_from(head + "\n***"@, at, start, number) == found.0 + seq![(found.1, sentinel())],
    decreases head.len() - at,
{
    reveal_strlit("\n***\n");
    reveal_strlit("\n***");
    reveal_strlit("***");
    let long = head + "\n***\n"@ + tail;
    let short = head + "\n***"@;
    let n = head.len() as int;
    if at < n && head[at] != '\n' {
        lemma_lines_up_to_sentinel(head, tail, at + 1, start, number)
    } else {
        assert(long.subrange(start, at) == head.subrange(start, at));
        assert(short.subrange(start, at) == head.subrange(start, at));
        let here = kept(number, head.subrange(start, at));
        let next = (number + 1) as usize;
        if at < n {
            let more = lemma_lines_up_to_sentinel(head, tail, at + 1, at + 1, next);
            (here + more.0, more.1, more.2)
        } else {
            assert(long.subrange(n + 1, n + 4) == sentinel());
            assert(short.subrange(n + 1, short.len() as int) == sentinel());
            lemma_sentinel_is_kept(next);
            reveal_with_fuel(lines_from, 5);
            (here, next, lines_from(long, n + 5, n + 5, (next + 1) as usize))
        }
    }
}

/// Whatever text follows a line that consists of the sentinel, the document
/// is the one of the text that ends with the sentinel.
pub proof fn lemma_text_after_sentinel_is_ignored(
    head: Seq<char>,
    tail: Seq<char>,
    range: Option<Range<u32>>,
)
    ensures
        document(head + "\n***\n"@ + tail, range) == document(head + "\n***"@, range),
{
    let found = lemma_lines_up_to_sentinel(head, tail, 0, 0, 0);
    lemma_document_stops_at_sentinel(found.0, found.1, found.2, range);
}

/// Converting one text twice gives one result: two outcomes that both meet
/// the contract of the conversion are the same document, character for
/// character, or the same failure.
pub proof fn lemma_conversion_repeats(
    src: Seq<char>,
    range: Option<Range<u32>>,
    first: Result<String, HtmlError>,
    second: Result<String, HtmlError>,
)
    requires
        text_outcome(first) == document(src, range),
        text_outcome(second) == document(src, range),
    ensures
        text_outcome(first) == text_outcome(second),
        first is Ok <==> second is Ok,
        first matches Ok(a) ==> second matches Ok(b) && a@ == b@,
{
}

} // verus!
