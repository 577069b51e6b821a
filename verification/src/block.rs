//! Semantic blocks: what a segment is classified as, and how it is set.

use crate::html::{Context, ContextView, HtmlError, HtmlErrorView};
use crate::pattern::{
    captures, is_match, regex_captures, regex_is_match, PAT_EXTRACT, PAT_HEAD, PAT_SCENE,
    PAT_SPEECH,
};
use crate::segment::{Segment, SegmentView};
use crate::text::{
    ascii_upper, ascii_upper_of, char_in, chars_of, decimal, find_char, join, joined,
    push_decimal, push_repeated, repeat, replace, replaced, string_of, to_upper, trim,
    trim_bounds, uppercase,
};
use vstd::prelude::*;
use vstd::string::{StrSliceExecFns, StringExecFns};

verus! {

/// One run of a named speech.
#[derive(Debug, Clone, PartialEq, Eq)]
pub enum Part {
    /// A parenthetical, with its parentheses.
    Aside(String),
    /// Spoken words.
    Spoken(String),
}

/// A run of a named speech as contracts speak of it.
pub enum PartView {
    Aside(Seq<char>),
    Spoken(Seq<char>),
}

impl View for Part {
    type V = PartView;

    open spec fn view(&self) -> PartView {
        match self {
            Part::Aside(t) => PartView::Aside(t@),
            Part::Spoken(t) => PartView::Spoken(t@),
        }
    }
}

/// A classified segment, with the text that is set for it.
#[derive(Debug, Clone, PartialEq, Eq)]
pub enum Block {
    /// A header announced by a keyword.
    Header(String),
    /// An all-capitals line, set as a header that ends no line.
    Caps(String),
    Direction(String),
    Parenthetical(String),
    Speech(String),
    Subheading(String),
    Transition(String),
    Chyron(String),
    /// A scene heading with the ordinal it was given.
    Scene { ordinal: u32, heading: String },
    /// A character's name and what follows it, in the order of the source.
    NamedSpeech { name: String, parts: Vec<Part> },
}

/// A block as contracts speak of it.
pub enum BlockView {
    Header(Seq<char>),
    Caps(Seq<char>),
    Direction(Seq<char>),
    Parenthetical(Seq<char>),
    Speech(Seq<char>),
    Subheading(Seq<char>),
    Transition(Seq<char>),
    Chyron(Seq<char>),
    Scene { ordinal: u32, heading: Seq<char> },
    NamedSpeech { name: Seq<char>, parts: Seq<PartView> },
}

/// The runs as contracts speak of them.
pub open spec fn part_views(parts: Seq<Part>) -> Seq<PartView> {
    Seq::new(parts.len(), |i: int| parts[i]@)
}

impl View for Block {
    type V = BlockView;

    open spec fn view(&self) -> BlockView {
        match self {
            Block::Header(t) => BlockView::Header(t@),
            Block::Caps(t) => BlockView::Caps(t@),
            Block::Direction(t) => BlockView::Direction(t@),
            Block::Parenthetical(t) => BlockView::Parenthetical(t@),
            Block::Speech(t) => BlockView::Speech(t@),
            Block::Subheading(t) => BlockView::Subheading(t@),
            Block::Transition(t) => BlockView::Transition(t@),
            Block::Chyron(t) => BlockView::Chyron(t@),
            Block::Scene { ordinal, heading } => BlockView::Scene {
                ordinal: *ordinal,
                heading: heading@,
            },
            Block::NamedSpeech { name, parts } => BlockView::NamedSpeech {
                name: name@,
                parts: part_views(parts@),
            },
        }
    }
}

/// The number of filler glyphs before a scene ordinal: what its numeral lacks
/// to a width of four, and none where it is wider.
pub open spec fn pad_width(ordinal: nat) -> nat {
    let digits = decimal(ordinal).len();
    if digits >= 4 {
        0
    } else {
        (4 - digits) as nat
    }
}

/// The filler glyphs before a scene ordinal.
pub open spec fn padding(ordinal: nat) -> Seq<char> {
    repeat("&nbsp;"@, pad_width(ordinal))
}

/// The markup of one run of a named speech.
pub open spec fn render_part(part: PartView) -> Seq<char> {
    match part {
        PartView::Aside(t) => "<div class=\"parens\">"@ + t + "</div>\n"@,
        PartView::Spoken(t) => "<div class=\"speech\">"@ + t + "</div>\n"@,
    }
}

/// The markup of the runs of a named speech, in their order.
pub open spec fn render_parts(parts: Seq<PartView>) -> Seq<char>
    decreases parts.len(),
{
    if parts.len() == 0 {
        Seq::empty()
    } else {
        render_parts(parts.drop_last()) + render_part(parts.last())
    }
}

/// The markup fragment of a block.
pub open spec fn render_spec(block: BlockView) -> Seq<char> {
    match block {
        BlockView::Header(t) => "<div class=\"header\">"@ + t + "</div>\n"@,
        BlockView::Caps(t) => "<div class=\"header\">"@ + t + "</div>"@,
        BlockView::Direction(t) => "<div class=\"direct\">"@ + t + "</div>\n"@,
        BlockView::Parenthetical(t) => "<div class=\"parens\">("@ + t + ")</div>\n"@,
        BlockView::Speech(t) => "<div class=\"speech\">"@ + t + "</div>\n"@,
        BlockView::Subheading(t) => "<div class=\"header\"><h2>"@ + t + "</h2></div>\n"@,
        BlockView::Transition(t) => "<div class=\"trans\">"@ + t + "</div>\n"@,
        BlockView::Chyron(t) => "<div class=\"direct\">CHYRON: "@ + t + "</div>\n"@,
        BlockView::Scene { ordinal, heading } => "<div class=\"scene\"><h1>"@ + padding(
            ordinal as nat,
        ) + decimal(ordinal as nat) + " "@ + heading + "</h1></div>\n"@,
        BlockView::NamedSpeech { name, parts } => "<div class=\"name\">"@ + name + "</div>\n"@
            + render_parts(parts),
    }
}

/// `open`, `text` and `close`, one after another.
fn wrapped(open: &str, text: &str, close: &str) -> (r: String)
    ensures
        r@ == open@ + text@ + close@,
{
    let mut r = String::from_str(open);
    r.append(text);
    r.append(close);
    r
}

/// The filler glyphs and the numeral of a scene ordinal.
pub fn numbered(ordinal: u32) -> (r: String)
    ensures
        r@ == padding(ordinal as nat) + decimal(ordinal as nat),
{
    let mut numeral = String::new();
    push_decimal(&mut numeral, ordinal as u64);
    let digits = numeral.as_str().unicode_len();
    let fill: usize = if digits >= 4 {
        0
    } else {
        4 - digits
    };
    let mut r = String::new();
    push_repeated(&mut r, "&nbsp;", fill);
    r.append(numeral.as_str());
    r
}

/// Sets a block as a markup fragment.
pub fn render(block: &Block) -> (r: String)
    ensures
        r@ == render_spec(block@),
{
    match block {
        Block::Header(t) => wrapped("<div class=\"header\">", t.as_str(), "</div>\n"),
        Block::Caps(t) => wrapped("<div class=\"header\">", t.as_str(), "</div>"),
        Block::Direction(t) => wrapped("<div class=\"direct\">", t.as_str(), "</div>\n"),
        Block::Parenthetical(t) => wrapped("<div class=\"parens\">(", t.as_str(), ")</div>\n"),
        Block::Speech(t) => wrapped("<div class=\"speech\">", t.as_str(), "</div>\n"),
        Block::Subheading(t) => wrapped("<div class=\"header\"><h2>", t.as_str(), "</h2></div>\n"),
        Block::Transition(t) => wrapped("<div class=\"trans\">", t.as_str(), "</div>\n"),
        Block::Chyron(t) => wrapped("<div class=\"direct\">CHYRON: ", t.as_str(), "</div>\n"),
        Block::Scene { ordinal, heading } => {
            let mut r = String::from_str("<div class=\"scene\"><h1>");
            let number = numbered(*ordinal);
            r.append(number.as_str());
            r.append(" ");
            r.append(heading.as_str());
            r.append("</h1></div>\n");
            r
        },
        Block::NamedSpeech { name, parts } => {
            let mut r = wrapped("<div class=\"name\">", name.as_str(), "</div>\n");
            let ghost head = r@;
            let ghost all = part_views(parts@);
            let mut i: usize = 0;
            while i < parts.len()
                invariant
                    i <= parts.len(),
                    all == part_views(parts@),
                    r@ == head + render_parts(all.take(i as int)),
                decreases parts.len() - i,
            {
                let piece = match &parts[i] {
                    Part::Aside(t) => wrapped("<div class=\"parens\">", t.as_str(), "</div>\n"),
                    Part::Spoken(t) => wrapped("<div class=\"speech\">", t.as_str(), "</div>\n"),
                };
                r.append(piece.as_str());
                assert(all.take(i + 1).drop_last() == all.take(i as int));
                i += 1;
            }
            assert(all.take(parts.len() as int) == all);
            r
        },
    }
}

/// The mode keywords.
#[derive(Clone, Copy, Debug, PartialEq, Eq, Structural)]
pub enum Keyword {
    Montage,
    MonEnd,
    Todo,
    Direct,
    Parens,
    Speech,
    Subhead,
    Trans,
    Chyron,
    Scene,
}

/// The keyword that a mode spells, compared letter for letter.
pub open spec fn keyword_of(mode: Seq<char>) -> Option<Keyword> {
    if mode == "montage"@ {
        Some(Keyword::Montage)
    } else if mode == "mon-end"@ {
        Some(Keyword::MonEnd)
    } else if mode == "TODO"@ {
        Some(Keyword::Todo)
    } else if mode == "direct"@ {
        Some(Keyword::Direct)
    } else if mode == "parens"@ {
        Some(Keyword::Parens)
    } else if mode == "speech"@ {
        Some(Keyword::Speech)
    } else if mode == "subhead"@ {
        Some(Keyword::Subhead)
    } else if mode == "trans"@ {
        Some(Keyword::Trans)
    } else if mode == "chyron"@ {
        Some(Keyword::Chyron)
    } else if mode == "scene"@ {
        Some(Keyword::Scene)
    } else {
        None
    }
}

/// The keyword that a mode spells, if it spells one.
pub fn keyword(mode: &str) -> (r: Option<Keyword>)
    ensures
        r == keyword_of(mode@),
{
    if mode.eq("montage") {
        Some(Keyword::Montage)
    } else if mode.eq("mon-end") {
        Some(Keyword::MonEnd)
    } else if mode.eq("TODO") {
        Some(Keyword::Todo)
    } else if mode.eq("direct") {
        Some(Keyword::Direct)
    } else if mode.eq("parens") {
        Some(Keyword::Parens)
    } else if mode.eq("speech") {
        Some(Keyword::Speech)
    } else if mode.eq("subhead") {
        Some(Keyword::Subhead)
    } else if mode.eq("trans") {
        Some(Keyword::Trans)
    } else if mode.eq("chyron") {
        Some(Keyword::Chyron)
    } else if mode.eq("scene") {
        Some(Keyword::Scene)
    } else {
        None
    }
}

/// The text of a segment: its fragments joined by spaces, with the title and
/// the subtitle in the place of their placeholders.
pub open spec fn body_text(seg: SegmentView, ctx: ContextView) -> Seq<char> {
    replace(replace(join(seg.text), "$title"@, ctx.title), "$subtitle"@, ctx.subtitle)
}

/// Mode and text as one line, for a segment without a keyword.
pub open spec fn whole_text(mode: Seq<char>, text: Seq<char>) -> Seq<char> {
    trim(mode + seq![' '] + text)
}

/// Whether a line holds a colon.
pub open spec fn has_colon(whole: Seq<char>) -> bool {
    find_char(whole, ':', 0) < whole.len()
}

/// What stands before the first colon of a line.
pub open spec fn before_colon(whole: Seq<char>) -> Seq<char> {
    whole.take(find_char(whole, ':', 0))
}

/// What stands after the first colon of a line; nothing where there is none.
pub open spec fn after_colon(whole: Seq<char>) -> Seq<char> {
    if has_colon(whole) {
        whole.skip(find_char(whole, ':', 0) + 1)
    } else {
        Seq::empty()
    }
}

/// What the patterns say of one segment.
#[derive(Debug, Clone, PartialEq, Eq)]
pub struct Verdicts {
    /// Whether the scene-heading pattern matches: the text after the keyword
    /// `scene`, the whole line without a keyword.
    pub scene: Option<bool>,
    /// Whether the whole line is all capitals.
    pub head: Option<bool>,
    /// Whether the whole line is a named speech.
    pub speech: Option<bool>,
    /// The runs of what follows the colon, each with its capture groups.
    pub groups: Option<Vec<Vec<Option<String>>>>,
}

/// The verdicts as contracts speak of them.
pub struct VerdictsView {
    pub scene: Option<bool>,
    pub head: Option<bool>,
    pub speech: Option<bool>,
    pub groups: Option<Seq<Seq<Option<Seq<char>>>>>,
}

impl View for Verdicts {
    type V = VerdictsView;

    open spec fn view(&self) -> VerdictsView {
        VerdictsView {
            scene: self.scene,
            head: self.head,
            speech: self.speech,
            groups: self.groups.deep_view(),
        }
    }
}

/// What the patterns say of a segment with this mode and text.
pub open spec fn verdicts_of(mode: Seq<char>, text: Seq<char>) -> VerdictsView {
    let whole = whole_text(mode, text);
    VerdictsView {
        scene: regex_is_match(
            PAT_SCENE@,
            if keyword_of(mode) == Some(Keyword::Scene) {
                text
            } else {
                whole
            },
        ),
        head: regex_is_match(PAT_HEAD@, whole),
        speech: regex_is_match(PAT_SPEECH@, whole),
        groups: regex_captures(PAT_EXTRACT@, after_colon(whole)),
    }
}

/// The run that a captured text stands for: a parenthetical where it opens
/// with a parenthesis, spoken words otherwise.
pub open spec fn part_of(t: Seq<char>) -> PartView {
    if t.len() > 0 && t[0] == '(' {
        PartView::Aside(trim(t))
    } else {
        PartView::Spoken(trim(t))
    }
}

/// The runs of the capture groups of one match from group 1 up to `upto`,
/// those that took part.
pub open spec fn parts_in(groups: Seq<Option<Seq<char>>>, upto: int) -> Seq<PartView>
    decreases upto,
{
    if upto <= 1 {
        Seq::empty()
    } else {
        parts_in(groups, upto - 1) + (match groups[upto - 1] {
            Some(t) => seq![part_of(t)],
            None => Seq::empty(),
        })
    }
}

/// The runs of the first `upto` matches, in their order.
pub open spec fn parts_upto(found: Seq<Seq<Option<Seq<char>>>>, upto: int) -> Seq<PartView>
    decreases upto,
{
    if upto <= 0 {
        Seq::empty()
    } else {
        parts_upto(found, upto - 1) + parts_in(found[upto - 1], found[upto - 1].len() as int)
    }
}

/// The runs of all matches.
pub open spec fn parts_of(found: Seq<Seq<Option<Seq<char>>>>) -> Seq<PartView> {
    parts_upto(found, found.len() as int)
}

/// The failure of a keyword that takes no content and has some.
pub open spec fn unexpected_content(line: usize, mode: Seq<char>) -> HtmlErrorView {
    HtmlErrorView::SyntaxError {
        line,
        expected: "newline"@,
        after: "mode declaration '"@ + mode + "'"@,
    }
}

/// The failure of a keyword that takes content and has none.
pub open spec fn missing_content(line: usize, mode: Seq<char>) -> HtmlErrorView {
    HtmlErrorView::SyntaxError {
        line,
        expected: "content"@,
        after: "mode declaration '"@ + mode + "'"@,
    }
}

/// The failure of the keyword `scene` without a scene heading.
pub open spec fn missing_heading(line: usize) -> HtmlErrorView {
    HtmlErrorView::SyntaxError {
        line,
        expected: "scene heading"@,
        after: "scene declaration"@,
    }
}

/// The failure of a line that is nothing the markup knows.
pub open spec fn missing_mode(line: usize) -> HtmlErrorView {
    HtmlErrorView::SyntaxError { line, expected: "mode declaration"@, after: "new line"@ }
}

/// A scene heading takes the next ordinal. There is none after the last
/// number the counter can hold.
pub open spec fn accept_scene(scene: u32, heading: Seq<char>) -> Result<BlockView, HtmlErrorView> {
    if scene < u32::MAX {
        Ok(BlockView::Scene { ordinal: (scene + 1) as u32, heading })
    } else {
        Err(HtmlErrorView::Unknown)
    }
}

/// A keyword that wants content: the block made of it, or the failure.
pub open spec fn with_content(
    line: usize,
    mode: Seq<char>,
    text: Seq<char>,
    block: BlockView,
) -> Result<BlockView, HtmlErrorView> {
    if text.len() > 0 {
        Ok(block)
    } else {
        Err(missing_content(line, mode))
    }
}

/// A keyword that wants no content: its header, or the failure.
pub open spec fn without_content(
    line: usize,
    mode: Seq<char>,
    text: Seq<char>,
    header: Seq<char>,
) -> Result<BlockView, HtmlErrorView> {
    if text.len() == 0 {
        Ok(BlockView::Header(header))
    } else {
        Err(unexpected_content(line, mode))
    }
}

/// The block of a line without a keyword. The patterns are asked in a fixed
/// order: scene heading, all capitals, named speech. A pattern that has no
/// answer ends the classification at its turn.
pub open spec fn implicit(line: usize, whole: Seq<char>, scene: u32, v: VerdictsView) -> Result<
    BlockView,
    HtmlErrorView,
> {
    match v.scene {
        None => Err(HtmlErrorView::Unknown),
        Some(true) => accept_scene(scene, whole),
        Some(false) => match v.head {
            None => Err(HtmlErrorView::Unknown),
            Some(true) => Ok(BlockView::Caps(whole)),
            Some(false) => match v.speech {
                None => Err(HtmlErrorView::Unknown),
                Some(false) => Err(missing_mode(line)),
                Some(true) => if !has_colon(whole) {
                    Err(missing_mode(line))
                } else {
                    match v.groups {
                        None => Err(HtmlErrorView::Unknown),
                        Some(found) => Ok(
                            BlockView::NamedSpeech {
                                name: ascii_upper(before_colon(whole)),
                                parts: parts_of(found),
                            },
                        ),
                    }
                },
            },
        },
    }
}

/// The block of a segment with mode `mode` and text `text` that starts on
/// line `line`, after `scene` scene headings, given what the patterns say.
pub open spec fn decide_spec(
    line: usize,
    mode: Seq<char>,
    text: Seq<char>,
    scene: u32,
    v: VerdictsView,
) -> Result<BlockView, HtmlErrorView> {
    match keyword_of(mode) {
        Some(Keyword::Montage) => without_content(line, mode, text, "BEGIN MONTAGE:"@),
        Some(Keyword::MonEnd) => without_content(line, mode, text, "END MONTAGE."@),
        Some(Keyword::Todo) => if text.len() == 0 {
            Ok(BlockView::Header("TODO =============================="@))
        } else {
            Ok(BlockView::Header("TODO == "@ + uppercase(text)))
        },
        Some(Keyword::Direct) => with_content(line, mode, text, BlockView::Direction(text)),
        Some(Keyword::Parens) => with_content(line, mode, text, BlockView::Parenthetical(text)),
        Some(Keyword::Speech) => with_content(line, mode, text, BlockView::Speech(text)),
        Some(Keyword::Subhead) => with_content(
            line,
            mode,
            text,
            BlockView::Subheading(uppercase(text)),
        ),
        Some(Keyword::Trans) => with_content(
            line,
            mode,
            text,
            BlockView::Transition(uppercase(text)),
        ),
        Some(Keyword::Chyron) => with_content(line, mode, text, BlockView::Chyron(uppercase(text))),
        Some(Keyword::Scene) => if text.len() == 0 {
            Err(missing_heading(line))
        } else {
            match v.scene {
                None => Err(HtmlErrorView::Unknown),
                Some(false) => Err(missing_heading(line)),
                Some(true) => accept_scene(scene, uppercase(text)),
            }
        },
        None => implicit(line, whole_text(mode, text), scene, v),
    }
}

/// The classification of a segment in a context.
pub open spec fn classify_spec(seg: SegmentView, ctx: ContextView) -> Result<
    BlockView,
    HtmlErrorView,
> {
    let text = body_text(seg, ctx);
    decide_spec(seg.line, seg.mode, text, ctx.scene, verdicts_of(seg.mode, text))
}

/// The number of scene headings accepted once a segment is classified.
pub open spec fn scene_after(scene: u32, outcome: Result<BlockView, HtmlErrorView>) -> u32 {
    match outcome {
        Ok(BlockView::Scene { ordinal, .. }) => ordinal,
        _ => scene,
    }
}

/// The view of a classification's outcome.
pub open spec fn block_outcome(r: Result<Block, HtmlError>) -> Result<BlockView, HtmlErrorView> {
    match r {
        Ok(block) => Ok(block@),
        Err(e) => Err(e@),
    }
}

fn syntax_error(line: usize, expected: &str, after: String) -> (e: HtmlError)
    ensures
        e@ == (HtmlErrorView::SyntaxError { line, expected: expected@, after: after@ }),
{
    HtmlError::SyntaxError { line, expected: String::from_str(expected), after }
}

fn after_mode(mode: &str) -> (r: String)
    ensures
        r@ == "mode declaration '"@ + mode@ + "'"@,
{
    wrapped("mode declaration '", mode, "'")
}

/// Mode and text as one line.
pub fn whole_of(mode: &str, text: &str) -> (r: String)
    ensures
        r@ == whole_text(mode@, text@),
{
    let mut line = String::from_str(mode);
    line.push(' ');
    line.append(text);
    assert(line@ == mode@ + seq![' '] + text@);
    let chars = chars_of(line.as_str());
    let (lo, hi) = trim_bounds(chars.as_slice(), 0, chars.len());
    assert(chars@.subrange(0, chars@.len() as int) == chars@);
    string_of(chars.as_slice(), lo, hi)
}

/// The runs of a named speech from the matches of its content.
pub fn speech_parts(found: &Vec<Vec<Option<String>>>) -> (r: Vec<Part>)
    ensures
        part_views(r@) == parts_of(found.deep_view()),
{
    let ghost all = found.deep_view();
    let mut parts: Vec<Part> = Vec::new();
    let mut i: usize = 0;
    while i < found.len()
        invariant
            i <= found.len(),
            all == found.deep_view(),
            part_views(parts@) == parts_upto(all, i as int),
        decreases found.len() - i,
    {
        let groups = &found[i];
        let ghost shown = part_views(parts@);
        let ghost these = all[i as int];
        let mut k: usize = 1;
        while k < groups.len()
            invariant
                1 <= k,
                k <= groups.len() || k == 1,
                these == groups.deep_view(),
                part_views(parts@) == shown + parts_in(these, k as int),
            decreases groups.len() - k,
        {
            if let Some(t) = &groups[k] {
                let ghost sofar = part_views(parts@);
                let chars = chars_of(t.as_str());
                let (lo, hi) = trim_bounds(chars.as_slice(), 0, chars.len());
                assert(chars@.subrange(0, chars@.len() as int) == chars@);
                let trimmed = string_of(chars.as_slice(), lo, hi);
                let part = if chars.len() > 0 && chars[0] == '(' {
                    Part::Aside(trimmed)
                } else {
                    Part::Spoken(trimmed)
                };
                parts.push(part);
                assert(part_views(parts@) == sofar.push(part@));
            }
            k += 1;
        }
        i += 1;
    }
    parts
}

/// The text of a segment in a context.
pub fn body_of(segment: &Segment, ctx: &Context) -> (r: String)
    ensures
        r@ == body_text(segment@, ctx@),
{
    let text = joined(&segment.text);
    let chars = chars_of(text.as_str());
    let title_mark = chars_of("$title");
    let title = chars_of(ctx.title.as_str());
    let first = replaced(chars.as_slice(), title_mark.as_slice(), title.as_slice());
    let subtitle_mark = chars_of("$subtitle");
    let subtitle = chars_of(ctx.subtitle.as_str());
    let second = replaced(first.as_slice(), subtitle_mark.as_slice(), subtitle.as_slice());
    string_of(second.as_slice(), 0, second.len())
}

fn scene_block(scene: u32, heading: String) -> (r: Result<Block, HtmlError>)
    ensures
        block_outcome(r) == accept_scene(scene, heading@),
{
    if scene < u32::MAX {
        Ok(Block::Scene { ordinal: scene + 1, heading })
    } else {
        Err(HtmlError::Unknown)
    }
}

fn content_block(line: usize, mode: &str, text: &str, block: Block) -> (r: Result<
    Block,
    HtmlError,
>)
    ensures
        block_outcome(r) == with_content(line, mode@, text@, block@),
{
    if !text.is_empty() {
        Ok(block)
    } else {
        Err(syntax_error(line, "content", after_mode(mode)))
    }
}

fn bare_block(line: usize, mode: &str, text: &str, header: &str) -> (r: Result<Block, HtmlError>)
    ensures
        block_outcome(r) == without_content(line, mode@, text@, header@),
{
    if text.is_empty() {
        Ok(Block::Header(String::from_str(header)))
    } else {
        Err(syntax_error(line, "newline", after_mode(mode)))
    }
}

/// Classifies a line without a keyword, given what the patterns say of it.
pub fn decide_implicit(line: usize, whole: String, scene: u32, v: &Verdicts) -> (r: Result<
    Block,
    HtmlError,
>)
    ensures
        block_outcome(r) == implicit(line, whole@, scene, v@),
{
    match v.scene {
        None => Err(HtmlError::Unknown),
        Some(true) => scene_block(scene, whole),
        Some(false) => match v.head {
            None => Err(HtmlError::Unknown),
            Some(true) => Ok(Block::Caps(whole)),
            Some(false) => match v.speech {
                None => Err(HtmlError::Unknown),
                Some(false) => Err(
                    syntax_error(line, "mode declaration", String::from_str("new line")),
                ),
                Some(true) => {
                    let chars = chars_of(whole.as_str());
                    let colon = char_in(chars.as_slice(), ':', 0);
                    if colon >= chars.len() {
                        Err(syntax_error(line, "mode declaration", String::from_str("new line")))
                    } else {
                        match &v.groups {
                            None => Err(HtmlError::Unknown),
                            Some(found) => {
                                let name = ascii_upper_of(chars.as_slice(), 0, colon);
                                let parts = speech_parts(found);
                                Ok(Block::NamedSpeech { name, parts })
                            },
                        }
                    }
                },
            },
        },
    }
}

/// Classifies a segment with mode `mode` and text `text` that starts on line
/// `line`, after `scene` scene headings, given what the patterns say of it.
pub fn decide(line: usize, mode: &str, text: &str, scene: u32, v: &Verdicts) -> (r: Result<
    Block,
    HtmlError,
>)
    ensures
        block_outcome(r) == decide_spec(line, mode@, text@, scene, v@),
{
    match keyword(mode) {
        Some(Keyword::Montage) => bare_block(line, mode, text, "BEGIN MONTAGE:"),
        Some(Keyword::MonEnd) => bare_block(line, mode, text, "END MONTAGE."),
        Some(Keyword::Todo) => if text.is_empty() {
            Ok(Block::Header(String::from_str("TODO ==============================")))
        } else {
            let upper = to_upper(text);
            Ok(Block::Header(String::from_str("TODO == ").concat(upper.as_str())))
        },
        Some(Keyword::Direct) => content_block(
            line,
            mode,
            text,
            Block::Direction(String::from_str(text)),
        ),
        Some(Keyword::Parens) => content_block(
            line,
            mode,
            text,
            Block::Parenthetical(String::from_str(text)),
        ),
        Some(Keyword::Speech) => content_block(
            line,
            mode,
            text,
            Block::Speech(String::from_str(text)),
        ),
        Some(Keyword::Subhead) => content_block(
            line,
            mode,
            text,
            Block::Subheading(to_upper(text)),
        ),
        Some(Keyword::Trans) => content_block(line, mode, text, Block::Transition(to_upper(text))),
        Some(Keyword::Chyron) => content_block(line, mode, text, Block::Chyron(to_upper(text))),
        Some(Keyword::Scene) => if text.is_empty() {
            Err(syntax_error(line, "scene heading", String::from_str("scene declaration")))
        } else {
            match v.scene {
                None => Err(HtmlError::Unknown),
                Some(false) => Err(
                    syntax_error(line, "scene heading", String::from_str("scene declaration")),
                ),
                Some(true) => scene_block(scene, to_upper(text)),
            }
        },
        None => decide_implicit(line, whole_of(mode, text), scene, v),
    }
}

/// Asks the patterns what `decide` needs to know of a segment, and no more:
/// a keyword other than `scene` asks nothing, and a line without a keyword
/// asks each pattern only when the one before it has said no.
fn consult(line: usize, mode: &str, text: &str, scene: u32) -> (v: Verdicts)
    ensures
        decide_spec(line, mode@, text@, scene, v@) == decide_spec(
            line,
            mode@,
            text@,
            scene,
            verdicts_of(mode@, text@),
        ),
{
    let mut v = Verdicts { scene: None, head: None, speech: None, groups: None };
    match keyword(mode) {
        Some(Keyword::Scene) => {
            if !text.is_empty() {
                v.scene = is_match(PAT_SCENE, text);
            }
        },
        Some(_) => {},
        None => {
            let whole = whole_of(mode, text);
            v.scene = is_match(PAT_SCENE, whole.as_str());
            if let Some(false) = v.scene {
                v.head = is_match(PAT_HEAD, whole.as_str());
                if let Some(false) = v.head {
                    v.speech = is_match(PAT_SPEECH, whole.as_str());
                    if let Some(true) = v.speech {
                        let chars = chars_of(whole.as_str());
                        let colon = char_in(chars.as_slice(), ':', 0);
                        if colon < chars.len() {
                            let content = string_of(chars.as_slice(), colon + 1, chars.len());
                            v.groups = captures(PAT_EXTRACT, content.as_str());
                        }
                    }
                }
            }
        },
    }
    v
}

/// Classifies a segment. A scene heading takes the next ordinal and moves the
/// counter of the context to it; nothing else changes the context.
pub fn classify(segment: &Segment, ctx: &mut Context) -> (r: Result<Block, HtmlError>)
    ensures
        block_outcome(r) == classify_spec(segment@, old(ctx)@),
        final(ctx)@ == (ContextView {
            scene: scene_after(old(ctx).scene, classify_spec(segment@, old(ctx)@)),
            title: old(ctx).title@,
            subtitle: old(ctx).subtitle@,
        }),
{
    let text = body_of(segment, ctx);
    let v = consult(segment.line, segment.mode.as_str(), text.as_str(), ctx.scene);
    let r = decide(segment.line, segment.mode.as_str(), text.as_str(), ctx.scene, &v);
    if let Ok(Block::Scene { ordinal, .. }) = &r {
        ctx.scene = *ordinal;
    }
    r
}

} // verus!
