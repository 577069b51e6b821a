use scripts::{gen_html, CmdInfo, HtmlError};

const OPEN: &str =
    "<html><head><link rel=\"stylesheet\" href=\"../res/style.css\"/></head><body><div class=\"page\">\n";
const CLOSE: &str = "</div></body></html>";

fn whole() -> CmdInfo {
    CmdInfo::default()
}

fn scenes(start: u32, end: u32) -> CmdInfo {
    CmdInfo { range: Some(start..end), ..CmdInfo::default() }
}

fn syntax(line: usize, expected: &str, after: &str) -> HtmlError {
    HtmlError::SyntaxError { line, expected: expected.to_string(), after: after.to_string() }
}

fn scene(ordinal: u32, heading: &str) -> String {
    format!("<div class=\"scene\"><h1>&nbsp;&nbsp;&nbsp;{ordinal} {heading}</h1></div>\n")
}

fn direct(text: &str) -> String {
    format!("<div class=\"direct\">{text}</div>\n")
}

const THREE: &str = "Title\nSubtitle\n\
    direct before\n\
    EXT. A - DAY\ndirect one\n\
    EXT. B - DAY\ndirect two\n\
    EXT. C - DAY\ndirect three";

#[test]
fn whole_document() {
    let src = "My Title \\\n  of two lines\n\n* a note\nMy Subtitle * not this\n\
               EXT. PARK - DAY\n\
               direct A man walks.\n\
               alex: Hello $title\n\
               FADE OUT\n";
    let expected = format!(
        "{OPEN}<div class=\"title\"><h1>My Title of two lines</h1></div>\n\
         <div class=\"subtitle\"><h2>My Subtitle</h2></div>\n\
         {}{}<div class=\"name\">ALEX</div>\n\
         <div class=\"speech\">Hello My Title of two lines</div>\n\
         <div class=\"header\">FADE OUT</div>{CLOSE}",
        scene(1, "EXT. PARK - DAY"),
        direct("A man walks.")
    );
    assert_eq!(gen_html(src, &whole()), Ok(expected));
}

#[test]
fn title_and_subtitle_alone() {
    let expected = format!(
        "{OPEN}<div class=\"title\"><h1>T</h1></div>\n<div class=\"subtitle\"><h2>S</h2></div>\n{CLOSE}"
    );
    assert_eq!(gen_html("T\nS", &whole()), Ok(expected));
    assert_eq!(gen_html("T\nS", &scenes(1, 2)), Ok(format!("{OPEN}{CLOSE}")));
}

#[test]
fn missing_title() {
    assert_eq!(gen_html("", &whole()), Err(syntax(1, "title", "beginning")));
    assert_eq!(gen_html("\n * only a note\n", &whole()), Err(syntax(1, "title", "beginning")));
    assert_eq!(gen_html("***\nTitle\nSubtitle", &whole()), Err(syntax(1, "title", "beginning")));
    assert_eq!(gen_html("Title \\", &scenes(1, 2)), Err(syntax(1, "title", "beginning")));
}

#[test]
fn missing_subtitle() {
    assert_eq!(gen_html("Title", &whole()), Err(syntax(2, "subtitle", "title")));
    assert_eq!(gen_html("Title\n***\nSubtitle", &whole()), Err(syntax(2, "subtitle", "title")));
    assert_eq!(gen_html("Title \\\n***\nSubtitle", &whole()), Err(syntax(2, "subtitle", "title")));
}

#[test]
fn first_failure_ends_the_conversion() {
    let src = "T\nS\ndirect fine\n\nwhat is this\ndirect\n";
    assert_eq!(gen_html(src, &whole()), Err(syntax(5, "mode declaration", "new line")));
    let src = "T\nS\ndirect fine\ndirect\nwhat is this\n";
    assert_eq!(gen_html(src, &whole()), Err(syntax(4, "content", "mode declaration 'direct'")));
}

#[test]
fn scenes_are_numbered_in_order() {
    let expected = format!(
        "{OPEN}<div class=\"title\"><h1>Title</h1></div>\n<div class=\"subtitle\"><h2>Subtitle</h2></div>\n\
         {}{}{}{}{}{}{}{CLOSE}",
        direct("before"),
        scene(1, "EXT. A - DAY"),
        direct("one"),
        scene(2, "EXT. B - DAY"),
        direct("two"),
        scene(3, "EXT. C - DAY"),
        direct("three")
    );
    assert_eq!(gen_html(THREE, &whole()), Ok(expected));
}

#[test]
fn range_keeps_one_scene() {
    let expected = format!("{OPEN}{}{}{CLOSE}", scene(2, "EXT. B - DAY"), direct("two"));
    assert_eq!(gen_html(THREE, &scenes(2, 3)), Ok(expected));
}

#[test]
fn range_keeps_several_scenes() {
    let expected = format!(
        "{OPEN}{}{}{}{}{CLOSE}",
        scene(2, "EXT. B - DAY"),
        direct("two"),
        scene(3, "EXT. C - DAY"),
        direct("three")
    );
    assert_eq!(gen_html(THREE, &scenes(2, 4)), Ok(expected.clone()));
    assert_eq!(gen_html(THREE, &scenes(2, 100)), Ok(expected));
}

#[test]
fn range_from_zero_keeps_what_stands_before_the_first_scene() {
    let expected = format!("{OPEN}{}{}{}{CLOSE}", direct("before"), scene(1, "EXT. A - DAY"), direct("one"));
    assert_eq!(gen_html(THREE, &scenes(0, 2)), Ok(expected));
}

#[test]
fn empty_range_keeps_nothing() {
    assert_eq!(gen_html(THREE, &scenes(2, 2)), Ok(format!("{OPEN}{CLOSE}")));
    assert_eq!(gen_html(THREE, &scenes(3, 1)), Ok(format!("{OPEN}{CLOSE}")));
    assert_eq!(gen_html(THREE, &scenes(7, 9)), Ok(format!("{OPEN}{CLOSE}")));
}

#[test]
fn reading_stops_beyond_the_range() {
    let src = "T\nS\nEXT. A - DAY\nEXT. B - DAY\nEXT. C - DAY\nthis is no line of the markup";
    assert_eq!(gen_html(src, &scenes(1, 2)), Ok(format!("{OPEN}{}{CLOSE}", scene(1, "EXT. A - DAY"))));
    assert_eq!(gen_html(src, &whole()), Err(syntax(6, "mode declaration", "new line")));
}

#[test]
fn reading_goes_on_at_the_end_of_the_range() {
    let src = "T\nS\nEXT. A - DAY\nEXT. B - DAY\nthis is no line of the markup\nEXT. C - DAY";
    assert_eq!(gen_html(src, &scenes(1, 2)), Err(syntax(5, "mode declaration", "new line")));
}

#[test]
fn failure_before_the_range_is_reported() {
    let src = "T\nS\ndirect\nEXT. A - DAY";
    assert_eq!(gen_html(src, &scenes(1, 2)), Err(syntax(3, "content", "mode declaration 'direct'")));
}

#[test]
fn nothing_after_the_sentinel_is_read() {
    let seen = "T\nS\nEXT. A - DAY\ndirect one\n";
    let expected = gen_html(seen, &whole());
    assert!(expected.is_ok());
    assert_eq!(gen_html(&format!("{seen}***\nthis is no line of the markup\nEXT. B - DAY"), &whole()), expected);
    assert_eq!(gen_html(&format!("{seen}\n\t***\r\ndirect"), &whole()), expected);
    assert_eq!(gen_html(&format!("{seen}***"), &whole()), expected);
}

#[test]
fn sentinel_closes_the_last_segment() {
    let expected = gen_html("T\nS\ndirect one two", &whole());
    assert_eq!(gen_html("T\nS\ndirect one \\\ntwo \\\n***\nthree", &whole()), expected);
}

#[test]
fn same_text_gives_the_same_document() {
    for cmd in [whole(), scenes(2, 3)] {
        let first = gen_html(THREE, &cmd);
        let second = gen_html(THREE, &cmd);
        assert!(first.is_ok());
        assert_eq!(first, second);
    }
    let bad = "T\nS\nnothing known";
    assert_eq!(gen_html(bad, &whole()), gen_html(bad, &whole()));
}

#[test]
fn default_command_asks_for_everything() {
    let cmd = CmdInfo::default();
    assert_eq!(cmd.range, None);
    assert!(!cmd.temp && !cmd.nopen);
    assert!(cmd.infile.is_empty() && cmd.outfile.is_empty() && cmd.html.is_empty());
    assert!(cmd.file_root.is_empty() && cmd.exe_loc.is_empty());
}

#[test]
fn range_that_ends_where_it_starts() {
    let cmd = scenes(2, 2);
    assert_eq!(gen_html(THREE, &cmd), Ok(format!("{OPEN}{CLOSE}")));
    let stops = format!("{THREE}\nthis is no line of the markup");
    assert_eq!(gen_html(&stops, &cmd), Ok(format!("{OPEN}{CLOSE}")));
    let goes_on = "T\nS\nEXT. A - DAY\nEXT. B - DAY\nthis is no line of the markup\nEXT. C - DAY";
    assert_eq!(gen_html(goes_on, &cmd), Err(syntax(5, "mode declaration", "new line")));
}
