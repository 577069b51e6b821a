//! From the options of a command line to what the program is asked to do.

use crate::text::{char_in, chars_of, find_char, matches_at, occurs_at, string_of};
use crate::{CmdInfo, Command};
use std::ops::Range;
use vstd::prelude::*;
use vstd::string::StringExecFns;

verus! {

/// The options of a command line, as they were found on it.
#[derive(Debug, Clone, PartialEq, Eq)]
pub struct Options {
    /// Whether the version is asked for.
    pub version: bool,
    /// Whether the help text is asked for.
    pub help: bool,
    /// The path of the source text.
    pub infile: Option<String>,
    /// The path of the document to produce.
    pub outfile: Option<String>,
    /// Whether the intermediate markup is kept beside the source.
    pub temp: bool,
    /// Whether the finished document stays unopened.
    pub nopen: bool,
    /// The scenes to keep: one number, or two with a dash between them.
    pub scenes: Option<String>,
}

/// A conversion as contracts speak of it.
pub struct CmdInfoView {
    pub infile: Seq<char>,
    pub outfile: Seq<char>,
    pub html: Seq<char>,
    pub file_root: Seq<char>,
    pub exe_loc: Seq<char>,
    pub range: Option<Range<u32>>,
    pub temp: bool,
    pub nopen: bool,
}

impl View for CmdInfo {
    type V = CmdInfoView;

    open spec fn view(&self) -> CmdInfoView {
        CmdInfoView {
            infile: self.infile@,
            outfile: self.outfile@,
            html: self.html@,
            file_root: self.file_root@,
            exe_loc: self.exe_loc@,
            range: self.range,
            temp: self.temp,
            nopen: self.nopen,
        }
    }
}

/// A command as contracts speak of it.
pub enum CommandView {
    Help,
    Version,
    Convert(CmdInfoView),
}

impl View for Command {
    type V = CommandView;

    open spec fn view(&self) -> CommandView {
        match self {
            Command::Help => CommandView::Help,
            Command::Version => CommandView::Version,
            Command::Convert(cmd) => CommandView::Convert(cmd@),
        }
    }
}

/// Whether `c` is a decimal digit.
pub open spec fn is_digit(c: char) -> bool {
    '0' <= c && c <= '9'
}

/// The value of a decimal digit; zero for any other character.
pub open spec fn digit_value(c: char) -> nat {
    if is_digit(c) {
        (c as u32 - 48) as nat
    } else {
        0
    }
}

/// The number that a run of decimal digits spells.
pub open spec fn digits_value(s: Seq<char>) -> nat
    decreases s.len(),
{
    if s.len() == 0 {
        0
    } else {
        digits_value(s.drop_last()) * 10 + digit_value(s.last())
    }
}

/// Whether `s` holds decimal digits only.
pub open spec fn all_digits(s: Seq<char>) -> bool {
    forall|i: int| 0 <= i < s.len() ==> is_digit(#[trigger] s[i])
}

/// The number that a text spells: decimal digits, at least one, after an
/// optional plus sign, and nothing else. There is none where the text is
/// anything else or the number is beyond `u32`.
pub open spec fn parse_u32(s: Seq<char>) -> Option<u32> {
    let digits = if s.len() > 0 && s[0] == '+' {
        s.drop_first()
    } else {
        s
    };
    if digits.len() > 0 && all_digits(digits) && digits_value(digits) <= u32::MAX {
        Some(digits_value(digits) as u32)
    } else {
        None
    }
}

/// The range of one scene, or of a first and a last scene.
pub open spec fn range_of(first: Option<u32>, last: Option<u32>) -> Option<Range<u32>> {
    match (first, last) {
        (Some(start), Some(stop)) => if stop < u32::MAX {
            Some(Range { start, end: (stop + 1) as u32 })
        } else {
            None
        },
        _ => None,
    }
}

/// The range that a scene argument asks for: `n` for the one scene, `n-m`
/// for the scenes from `n` to `m`, both ends included. The last scene must
/// be below the largest number, so that the range can end after it.
pub open spec fn scene_range(arg: Seq<char>) -> Result<Range<u32>, Seq<char>> {
    let dash = find_char(arg, '-', 0);
    if dash < arg.len() {
        match range_of(parse_u32(arg.take(dash)), parse_u32(arg.skip(dash + 1))) {
            Some(range) => Ok(range),
            None => Err("ERROR: range argument was not integer"@),
        }
    } else {
        match range_of(parse_u32(arg), parse_u32(arg)) {
            Some(range) => Ok(range),
            None => Err("ERROR: scene argument was not integer"@),
        }
    }
}

/// Whether `s` ends in `suffix`.
pub open spec fn ends_with(s: Seq<char>, suffix: Seq<char>) -> bool {
    occurs_at(s, suffix, s.len() - suffix.len())
}

/// The options as contracts speak of them.
pub struct OptionsView {
    pub version: bool,
    pub help: bool,
    pub infile: Option<Seq<char>>,
    pub outfile: Option<Seq<char>>,
    pub temp: bool,
    pub nopen: bool,
    pub scenes: Option<Seq<char>>,
}

impl View for Options {
    type V = OptionsView;

    open spec fn view(&self) -> OptionsView {
        OptionsView {
            version: self.version,
            help: self.help,
            infile: self.infile.deep_view(),
            outfile: self.outfile.deep_view(),
            temp: self.temp,
            nopen: self.nopen,
            scenes: self.scenes.deep_view(),
        }
    }
}

/// The range that the options ask for: none where no scenes are named.
pub open spec fn asked_range(scenes: Option<Seq<char>>) -> Result<Option<Range<u32>>, Seq<char>> {
    match scenes {
        None => Ok(None),
        Some(arg) => match scene_range(arg) {
            Ok(range) => Ok(Some(range)),
            Err(e) => Err(e),
        },
    }
}

/// The conversion that the options ask for, for a program that runs in the
/// directory `exe_loc`.
pub open spec fn conversion_of(o: OptionsView, exe_loc: Seq<char>) -> Result<
    CmdInfoView,
    Seq<char>,
> {
    match (o.infile, o.outfile) {
        (None, _) => Err("ERROR: input file not provided"@),
        (Some(_), None) => Err("ERROR: output file not provided"@),
        (Some(infile), Some(outfile)) => match asked_range(o.scenes) {
            Err(e) => Err(e),
            Ok(range) => if !ends_with(infile, ".txt"@) {
                Err("ERROR: expected '.txt' file as input"@)
            } else {
                Ok(
                    CmdInfoView {
                        infile,
                        outfile,
                        html: exe_loc + "/../../user/temp.html"@,
                        file_root: infile.take(infile.len() - ".txt"@.len()),
                        exe_loc,
                        range,
                        temp: o.temp,
                        nopen: o.nopen,
                    },
                )
            },
        },
    }
}

/// What the options ask for. The version goes before the help, and both go
/// before a conversion.
pub open spec fn command_of(o: OptionsView, exe_loc: Seq<char>) -> Result<CommandView, Seq<char>> {
    if o.version {
        Ok(CommandView::Version)
    } else if o.help {
        Ok(CommandView::Help)
    } else {
        match conversion_of(o, exe_loc) {
            Ok(cmd) => Ok(CommandView::Convert(cmd)),
            Err(e) => Err(e),
        }
    }
}

/// The view of a command or of the message of its failure.
pub open spec fn command_outcome(r: Result<Command, String>) -> Result<CommandView, Seq<char>> {
    match r {
        Ok(command) => Ok(command@),
        Err(e) => Err(e@),
    }
}

/// A longer run of digits spells no smaller number.
proof fn lemma_digits_grow(s: Seq<char>, k: int)
    requires
        0 <= k <= s.len(),
    ensures
        digits_value(s.take(k)) <= digits_value(s),
    decreases s.len(),
{
    if k < s.len() {
        assert(s.drop_last().take(k) == s.take(k));
        lemma_digits_grow(s.drop_last(), k);
    } else {
        assert(s.take(k) == s);
    }
}

/// Reads the number that `v[lo..hi]` spells.
pub fn parse_number(v: &[char], lo: usize, hi: usize) -> (r: Option<u32>)
    requires
        lo <= hi <= v.len(),
    ensures
        r == parse_u32(v@.subrange(lo as int, hi as int)),
{
    let ghost s = v@.subrange(lo as int, hi as int);
    let mut i: usize = lo;
    if i < hi && v[i] == '+' {
        i += 1;
    }
    let first: usize = i;
    let ghost digits = v@.subrange(first as int, hi as int);
    if first >= hi {
        return None;
    }
    let mut value: u64 = 0;
    while i < hi
        invariant
            lo <= first <= i <= hi <= v.len(),
            s == v@.subrange(lo as int, hi as int),
            digits == v@.subrange(first as int, hi as int),
            digits == if s.len() > 0 && s[0] == '+' {
                s.drop_first()
            } else {
                s
            },
            value == digits_value(digits.take(i - first)),
            value <= u32::MAX,
            all_digits(digits.take(i - first)),
        decreases hi - i,
    {
        let c = v[i];
        assert(digits[i - first] == c);
        if !('0' <= c && c <= '9') {
            return None;
        }
        let ghost upto = digits.take(i - first + 1);
        assert(upto.drop_last() == digits.take(i - first));
        value = value * 10 + ((c as u32) as u64 - 48);
        if value > u32::MAX as u64 {
            proof {
                lemma_digits_grow(digits, i - first + 1);
            }
            return None;
        }
        i += 1;
    }
    assert(digits.take(hi - first) == digits);
    Some(value as u32)
}

fn range_from(first: Option<u32>, last: Option<u32>) -> (r: Option<Range<u32>>)
    ensures
        r == range_of(first, last),
{
    match (first, last) {
        (Some(start), Some(stop)) => if stop < u32::MAX {
            Some(Range { start, end: stop + 1 })
        } else {
            None
        },
        _ => None,
    }
}

/// Reads a scene argument.
pub fn parse_scenes(arg: &str) -> (r: Result<Range<u32>, String>)
    ensures
        match r {
            Ok(range) => scene_range(arg@) == Ok::<_, Seq<char>>(range),
            Err(e) => scene_range(arg@) == Err::<Range<u32>, _>(e@),
        },
{
    let chars = chars_of(arg);
    let dash = char_in(chars.as_slice(), '-', 0);
    if dash < chars.len() {
        let start = parse_number(chars.as_slice(), 0, dash);
        let stop = parse_number(chars.as_slice(), dash + 1, chars.len());
        match range_from(start, stop) {
            Some(range) => Ok(range),
            None => Err(String::from_str("ERROR: range argument was not integer")),
        }
    } else {
        let start = parse_number(chars.as_slice(), 0, chars.len());
        assert(chars@ == chars@.subrange(0, chars@.len() as int));
        match range_from(start, start) {
            Some(range) => Ok(range),
            None => Err(String::from_str("ERROR: scene argument was not integer")),
        }
    }
}

/// Decides what the options of a command line ask for. A conversion needs
/// an input path that ends in `.txt` and an output path; the intermediate
/// markup goes to a fixed place relative to `exe_loc`.
pub fn get_command(options: &Options, exe_loc: &str) -> (r: Result<Command, String>)
    ensures
        command_outcome(r) == command_of(options@, exe_loc@),
{
    if options.version {
        return Ok(Command::Version);
    }
    if options.help {
        return Ok(Command::Help);
    }
    let infile = match &options.infile {
        Some(path) => path.clone(),
        None => {
            return Err(String::from_str("ERROR: input file not provided"));
        },
    };
    let outfile = match &options.outfile {
        Some(path) => path.clone(),
        None => {
            return Err(String::from_str("ERROR: output file not provided"));
        },
    };
    let range = match &options.scenes {
        Some(arg) => match parse_scenes(arg.as_str()) {
            Ok(range) => Some(range),
            Err(e) => {
                return Err(e);
            },
        },
        None => None,
    };
    let chars = chars_of(infile.as_str());
    let suffix = chars_of(".txt");
    if suffix.len() > chars.len() || !matches_at(
        chars.as_slice(),
        suffix.as_slice(),
        chars.len() - suffix.len(),
    ) {
        return Err(String::from_str("ERROR: expected '.txt' file as input"));
    }
    let file_root = string_of(chars.as_slice(), 0, chars.len() - suffix.len());
    let html = String::from_str(exe_loc).concat("/../../user/temp.html");
    Ok(
        Command::Convert(
            CmdInfo {
                infile,
                outfile,
                html,
                file_root,
                exe_loc: String::from_str(exe_loc),
                range,
                temp: options.temp,
                nopen: options.nopen,
            },
        ),
    )
}

/// The path of the markup that is kept beside the source.
pub open spec fn temp_path(cmd: CmdInfoView) -> Seq<char> {
    cmd.file_root + ".html"@
}

/// The program that sets the markup as a document, and its arguments.
pub open spec fn pdf_invocation(cmd: CmdInfoView) -> (Seq<char>, Seq<Seq<char>>) {
    (
        cmd.exe_loc + "/../../wkhtmltopdf.exe"@,
        seq![
            "--margin-top"@,
            "1in"@,
            "--margin-bottom"@,
            "1in"@,
            "--margin-left"@,
            "0in"@,
            "--margin-right"@,
            "0in"@,
            "--grayscale"@,
            cmd.html,
            "--encoding"@,
            "utf-8"@,
            "--disable-smart-shrinking"@,
            "--enable-local-file-access"@,
            cmd.outfile,
        ],
    )
}

impl CmdInfo {
    /// The path of the markup that is kept beside the source.
    pub fn temp_file(&self) -> (r: String)
        ensures
            r@ == temp_path(self@),
    {
        self.file_root.clone().concat(".html")
    }
}

/// The command line that sets the markup of a conversion as a document: the
/// program and its arguments.
pub fn pdf_command(cmd: &CmdInfo) -> (r: (String, Vec<String>))
    ensures
        (r.0@, r.1.deep_view()) == pdf_invocation(cmd@),
{
    let program = cmd.exe_loc.clone().concat("/../../wkhtmltopdf.exe");
    let mut args: Vec<String> = Vec::new();
    args.push(String::from_str("--margin-top"));
    args.push(String::from_str("1in"));
    args.push(String::from_str("--margin-bottom"));
    args.push(String::from_str("1in"));
    args.push(String::from_str("--margin-left"));
    args.push(String::from_str("0in"));
    args.push(String::from_str("--margin-right"));
    args.push(String::from_str("0in"));
    args.push(String::from_str("--grayscale"));
    args.push(cmd.html.clone());
    args.push(String::from_str("--encoding"));
    args.push(String::from_str("utf-8"));
    args.push(String::from_str("--disable-smart-shrinking"));
    args.push(String::from_str("--enable-local-file-access"));
    args.push(cmd.outfile.clone());
    (program, args)
}

} // verus!
