//! Converts a screenplay written in a small line-oriented markup into a
//! document of semantic blocks.
//!
//! A source text passes through the modules in this order:
//!
//! - `segment` cuts it into lines, drops comments and blank lines, and groups
//!   the lines into segments;
//! - `block` classifies each segment, by its keyword or by the patterns of
//!   `pattern`, and sets the block as a markup fragment;
//! - `html` threads the scene counter through the segments and assembles the
//!   document.
//!
//! `text` holds the character-level primitives that the others share,
//! `command` turns the options of a command line into a request, and `laws`
//! states what holds of every conversion.

pub mod block;
pub mod command;
pub mod html;
pub mod laws;
pub mod pattern;
pub mod segment;
pub mod text;

pub use block::{classify, decide, render, Block, Keyword, Part, Verdicts};
pub use command::{get_command, pdf_command, Options};
pub use html::{gen_html, get_line, Context, HtmlError};
pub use segment::{trim_ignored, Segment, Segments};

use std::ops::Range;
use vstd::prelude::*;

verus! {

/// What one conversion is asked to do.
#[derive(Debug, Clone, PartialEq, Eq)]
pub struct CmdInfo {
    /// The path of the source text.
    pub infile: String,
    /// The path of the document to produce.
    pub outfile: String,
    /// The path of the intermediate markup.
    pub html: String,
    /// The path of the source text without its extension.
    pub file_root: String,
    /// The directory of the running program.
    pub exe_loc: String,
    /// The scenes to keep, from `start` up to but without `end`; all of them
    /// where there is no range.
    pub range: Option<Range<u32>>,
    /// Whether the intermediate markup is kept beside the source.
    pub temp: bool,
    /// Whether the finished document stays unopened.
    pub nopen: bool,
}

impl Default for CmdInfo {
    fn default() -> (r: CmdInfo)
        ensures
            r.infile@.len() == 0,
            r.outfile@.len() == 0,
            r.html@.len() == 0,
            r.file_root@.len() == 0,
            r.exe_loc@.len() == 0,
            r.range is None,
            !r.temp,
            !r.nopen,
    {
        CmdInfo {
            infile: String::new(),
            outfile: String::new(),
            html: String::new(),
            file_root: String::new(),
            exe_loc: String::new(),
            range: None,
            temp: false,
            nopen: false,
        }
    }
}

/// What the program is asked to do.
#[derive(Debug, Clone, PartialEq, Eq)]
pub enum Command {
    Help,
    Version,
    Convert(CmdInfo),
}

} // verus!
