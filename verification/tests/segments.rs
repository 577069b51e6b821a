use scripts::Segments;

fn whole(line: usize, text: &[&str]) -> Option<(usize, Vec<String>)> {
    Some((line, text.iter().map(|t| t.to_string()).collect()))
}

#[test]
fn comments() {
    let mut case = Segments::new(" \
        \n\
        line with content\n\
        line with comment * comment\n\
        \n\
        \n\
        * another comment");

    assert_eq!(case.next_whole(), whole(2, &["line with content"]));
    assert_eq!(case.next_whole(), whole(3, &["line with comment"]));
    assert_eq!(case.next_whole(), None);
}

#[test]
fn line_reach() {
    let mut case = Segments::new(" \
        line with content \n\
        \n\
        line with some content \\ \n\
        and here some more content\n\
        \n\
        line with content \\ \n\
        more content \\ \n\
        last bit of content\n\
        \n\
        line with some content \\ * same as 2 but with comments \n\
        and here some more content \n\
        \n\
        line with some content * 2 lines because of comment \\ \n\
        and here some more content");

    assert_eq!(case.next_whole(), whole(1, &["line with content"]));
    assert_eq!(case.next_whole(), whole(3, &["line with some content", "and here some more content"]));
    assert_eq!(case.next_whole(), whole(6, &["line with content", "more content", "last bit of content"]));
    assert_eq!(case.next_whole(), whole(10, &["line with some content", "and here some more content"]));
    assert_eq!(case.next_whole(), whole(13, &["line with some content"]));
    assert_eq!(case.next_whole(), whole(14, &["and here some more content"]));
    assert_eq!(case.next_whole(), None);
}

#[test]
fn comment_is_cut_from_a_line() {
    assert_eq!(scripts::trim_ignored((5, "line with comment * comment")), (5, "line with comment"));
    assert_eq!(scripts::trim_ignored((0, "x * y * z")), (0, "x"));
    assert_eq!(scripts::trim_ignored((9, "   plain text \t")), (9, "plain text"));
}

#[test]
fn comment_alone_leaves_nothing() {
    assert_eq!(scripts::trim_ignored((7, "* comment")), (7, ""));
    assert_eq!(scripts::trim_ignored((7, "   * comment")), (7, ""));
    assert_eq!(scripts::trim_ignored((7, "")), (7, ""));
    assert_eq!(scripts::trim_ignored((7, " \t ")), (7, ""));
}

#[test]
fn star_without_space_is_no_comment() {
    assert_eq!(scripts::trim_ignored((1, "a*b")), (1, "a*b"));
    assert_eq!(scripts::trim_ignored((1, "a *b")), (1, "a *b"));
    assert_eq!(scripts::trim_ignored((1, "a *")), (1, "a *"));
    assert_eq!(scripts::trim_ignored((1, "***")), (1, "***"));
    assert_eq!(scripts::trim_ignored((1, "*** ")), (1, "**"));
}

#[test]
fn unicode_white_space_is_trimmed() {
    assert_eq!(scripts::trim_ignored((1, "\u{3000}x y\u{a0}\u{2003}")), (1, "x y"));
    assert_eq!(scripts::trim_ignored((1, "\u{200b}x")), (1, "\u{200b}x"));
}

#[test]
fn white_space_is_what_std_says() {
    for code in 0..=0x10FFFFu32 {
        if let Some(c) = char::from_u32(code) {
            assert_eq!(scripts::text::is_space_char(c), c.is_whitespace(), "U+{code:04X}");
        }
    }
}

#[test]
fn comment_only_line_is_dropped() {
    let mut case = Segments::new("* comment\nnext");
    assert_eq!(case.next_whole(), whole(2, &["next"]));
    assert_eq!(case.next_whole(), None);
}

#[test]
fn continuation_joins_lines() {
    let mut case = Segments::new("a \\\nb \\\nc");
    assert_eq!(case.next_whole(), whole(1, &["a", "b", "c"]));
    assert_eq!(case.next_whole(), None);
}

#[test]
fn continuation_skips_blank_lines() {
    let mut case = Segments::new("a \\\n\n  * note\nb\nc");
    assert_eq!(case.next_whole(), whole(1, &["a", "b"]));
    assert_eq!(case.next_whole(), whole(5, &["c"]));
    assert_eq!(case.next_whole(), None);
}

#[test]
fn lone_backslash_is_an_empty_fragment() {
    let mut case = Segments::new("\\\nb");
    assert_eq!(case.next_whole(), whole(1, &["", "b"]));
    assert_eq!(case.next_whole(), None);
}

#[test]
fn carriage_returns_fall_to_trimming() {
    let mut case = Segments::new("a\r\n\r\nb \\\r\nc\r\n");
    assert_eq!(case.next_whole(), whole(1, &["a"]));
    assert_eq!(case.next_whole(), whole(3, &["b", "c"]));
    assert_eq!(case.next_whole(), None);
}

#[test]
fn empty_text_has_no_segment() {
    assert_eq!(Segments::new("").next_whole(), None);
    assert_eq!(Segments::new("\n\n  \n").next_whole(), None);
    assert!(Segments::new("").next().is_none());
}

#[test]
fn sentinel_at_the_start_ends_the_stream() {
    let mut case = Segments::new("***\nnever seen");
    assert_eq!(case.next_whole(), None);
    assert_eq!(case.next_whole(), None);
    assert!(case.next().is_none());
}

#[test]
fn sentinel_after_a_segment_ends_the_stream() {
    let mut case = Segments::new("seen\n \t***\r\nnever seen\nnor this");
    assert_eq!(case.next_whole(), whole(1, &["seen"]));
    assert_eq!(case.next_whole(), None);
    assert_eq!(case.next_whole(), None);
}

#[test]
fn sentinel_closes_an_open_continuation() {
    let mut case = Segments::new("a \\\nb \\\n***\nnever seen");
    assert_eq!(case.next_whole(), whole(1, &["a", "b"]));
    assert_eq!(case.next_whole(), None);
    assert_eq!(case.next_whole(), None);
}

#[test]
fn stars_before_a_space_are_a_comment_and_no_sentinel() {
    let mut case = Segments::new("seen\n*** \nseen too\n*** * notes\n***\nnever seen");
    assert_eq!(case.next_whole(), whole(1, &["seen"]));
    assert_eq!(case.next_whole(), whole(2, &["**"]));
    assert_eq!(case.next_whole(), whole(3, &["seen too"]));
    assert_eq!(case.next_whole(), whole(4, &["**"]));
    assert_eq!(case.next_whole(), None);
    assert_eq!(case.next_whole(), None);
}

#[test]
fn open_continuation_at_the_end_is_dropped() {
    let mut case = Segments::new("kept\nlost \\");
    assert_eq!(case.next_whole(), whole(1, &["kept"]));
    assert_eq!(case.next_whole(), None);
    assert_eq!(case.next_whole(), None);
}

#[test]
fn first_line_is_cut_into_mode_and_text() {
    let mut case = Segments::new("direct   hello  there \\\nand more");
    let segment = case.next().unwrap();
    assert_eq!(segment.line, 1);
    assert_eq!(segment.mode, "direct");
    assert_eq!(segment.text, vec!["hello  there".to_string(), "and more".to_string()]);
    assert!(case.next().is_none());
}

#[test]
fn mode_ends_at_any_white_space() {
    let mut case = Segments::new("trans\tCUT TO\nspeech\u{3000}hi");
    let first = case.next().unwrap();
    assert_eq!((first.mode.as_str(), first.text), ("trans", vec!["CUT TO".to_string()]));
    let second = case.next().unwrap();
    assert_eq!((second.line, second.mode.as_str(), second.text), (2, "speech", vec!["hi".to_string()]));
}

#[test]
fn bare_keyword_has_no_text() {
    let mut case = Segments::new("\n\nmontage\n");
    let segment = case.next().unwrap();
    assert_eq!(segment.line, 3);
    assert_eq!(segment.mode, "montage");
    assert!(segment.text.is_empty());
}

#[test]
fn bare_keyword_loses_its_continuation() {
    let mut case = Segments::new("montage\\\nof many things\nnext one");
    let segment = case.next().unwrap();
    assert_eq!(segment.mode, "montage");
    assert!(segment.text.is_empty());
    let segment = case.next().unwrap();
    assert_eq!((segment.line, segment.mode.as_str()), (3, "next"));
    assert_eq!(segment.text, vec!["one".to_string()]);
}

/// The segments of a text, worked out with the string functions of std.
fn model(src: &str) -> Vec<(usize, Vec<String>)> {
    let mut lines = src
        .lines()
        .enumerate()
        .map(|(number, line)| match line.find("* ") {
            Some(at) => (number, line[..at].trim()),
            None => (number, line.trim()),
        })
        .filter(|(_, line)| !line.is_empty());
    let mut segments = Vec::new();
    while let Some((number, mut line)) = lines.next() {
        if line == "***" {
            break;
        }
        let mut text = Vec::new();
        while let Some(open) = line.strip_suffix('\\') {
            text.push(open.trim().to_string());
            match lines.next() {
                Some((_, next)) => line = next,
                None => return segments,
            }
            if line == "***" {
                segments.push((number + 1, text));
                return segments;
            }
        }
        text.push(line.to_string());
        segments.push((number + 1, text));
    }
    segments
}

fn all_of(src: &str) -> Vec<(usize, Vec<String>)> {
    let mut case = Segments::new(src);
    let mut segments = Vec::new();
    while let Some(segment) = case.next_whole() {
        segments.push(segment);
    }
    assert_eq!(case.next_whole(), None);
    segments
}

#[test]
fn segments_agree_with_the_model() {
    let pieces = [
        "a", "b c", " ", "  ", "\t", "\n", "\n", "\r\n", "\r", "*", "* ", "***", "***\n", "\n***\n",
        "\\", "\\\n", " \\ \n", "\u{a0}", "\u{3000}", "\u{e9}", "* note", "x * y",
    ];
    let mut state: u64 = 0x2545F4914F6CDD1D;
    for _ in 0..4000 {
        let mut src = String::new();
        state = state.wrapping_mul(6364136223846793005).wrapping_add(1442695040888963407);
        let length = (state >> 33) % 14;
        for _ in 0..length {
            state = state.wrapping_mul(6364136223846793005).wrapping_add(1442695040888963407);
            src.push_str(pieces[((state >> 33) % pieces.len() as u64) as usize]);
        }
        assert_eq!(all_of(&src), model(&src), "{src:?}");
    }
}

#[test]
fn lines_are_cut_as_the_model_cuts_them() {
    for src in [
        "", "\n", "a", "a\n", "a\n\nb", "\r\n", "a\rb", "a\r\nb\r", "\na", "a\n\n\n", " a \n b ",
        "one * two\nthree *four\n* five", "a\u{2028}b", "a\u{85}\nb",
    ] {
        assert_eq!(all_of(src), model(src), "{src:?}");
    }
}
