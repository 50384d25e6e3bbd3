//! What the engine asks of the language that is read.

use crate::text::{byte_offset, leading_blank_bytes, leading_blanks, lines_view};
use vstd::prelude::*;
use vstd::slice::*;

verus! {

/// The two things that depend on the language: how a line is shown, and how
/// far the line after it is indented.
pub trait LangInterface {
    /// The text to show for line `index` of `lines`, which may be dressed
    /// with highlighting. All lines are given, so that one that continues a
    /// construct of an earlier line can be shown as such; only the line at
    /// `index` is to be returned.
    fn print_line(lines: &[String], index: usize) -> (text: String)
        requires
            index < lines@.len(),
    ;

    /// The number of spaces that start the line after `lines`, which are the
    /// lines of the command up to the one that was just completed. A result
    /// of zero after the last line says that the command is complete.
    fn get_indent(lines: &[String]) -> (indent: usize)
    ;
}

/// The indentation that [`DefaultLangInterface`] gives to the line that
/// follows `lines`: as many spaces as the whitespace at the start of the last
/// line takes bytes.
pub open spec fn default_indent(lines: Seq<Seq<char>>) -> nat {
    if lines.len() == 0 {
        0
    } else {
        byte_offset(lines.last(), leading_blanks(lines.last()) as int)
    }
}

/// Shows lines as they are and keeps the indentation of the last line.
pub struct DefaultLangInterface;

impl LangInterface for DefaultLangInterface {
    fn print_line(lines: &[String], index: usize) -> (text: String)
        ensures
            text@ == lines@[index as int]@,
    {
        lines[index].clone()
    }

    fn get_indent(lines: &[String]) -> (indent: usize)
        ensures
            indent == default_indent(lines_view(lines@)),
    {
        let n = lines.len();
        if n > 0 {
            leading_blank_bytes(lines[n - 1].as_str())
        } else {
            0
        }
    }
}

} // verus!
