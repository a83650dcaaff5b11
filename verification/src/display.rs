use vstd::prelude::*;
use vstd::string::StringExecFns;

verus! {

/// A terminal color.
#[derive(PartialEq, Eq, Structural, Clone, Copy, Debug)]
pub enum Color {
    Blue,
    Cyan,
    Green,
    Red,
    Yellow,
}

/// A piece of text shown in one style.
pub struct Segment {
    pub text: String,
    pub color: Option<Color>,
    pub bold: bool,
}

/// Text shown to the user: styled pieces, ended by a line break or not
/// (a prompt stays on its line).
pub struct Line {
    pub segments: Vec<Segment>,
    pub ends_line: bool,
}

pub open spec fn segment_is(s: Segment, text: Seq<char>, color: Option<Color>, bold: bool) -> bool {
    s.text@ == text && s.color == color && s.bold == bold
}

/// A line of one plain piece of text.
pub open spec fn is_plain_line(l: Line, text: Seq<char>) -> bool {
    &&& l.ends_line
    &&& l.segments@.len() == 1
    &&& segment_is(l.segments@[0], text, None, false)
}

/// A line of a styled label, a space, and a text in another style.
pub open spec fn is_labelled_line(
    l: Line,
    label: Seq<char>,
    label_color: Color,
    label_bold: bool,
    text: Seq<char>,
    text_color: Option<Color>,
) -> bool {
    &&& l.ends_line
    &&& l.segments@.len() == 3
    &&& segment_is(l.segments@[0], label, Some(label_color), label_bold)
    &&& segment_is(l.segments@[1], " "@, None, false)
    &&& segment_is(l.segments@[2], text, text_color, false)
}

/// A piece of text in the given style.
pub fn segment(text: String, color: Option<Color>, bold: bool) -> (s: Segment)
    ensures
        segment_is(s, text@, color, bold),
{
    Segment { text, color, bold }
}

/// A line of one piece of text in the given style.
pub fn single_line(text: String, color: Option<Color>, bold: bool, ends_line: bool) -> (l: Line)
    ensures
        l.ends_line == ends_line,
        l.segments@.len() == 1,
        segment_is(l.segments@[0], text@, color, bold),
{
    let mut segments: Vec<Segment> = Vec::new();
    segments.push(segment(text, color, bold));
    Line { segments, ends_line }
}

/// A line of a styled label, a space, and a text in another style.
pub fn labelled_line(
    label: &str,
    label_color: Color,
    label_bold: bool,
    text: String,
    text_color: Option<Color>,
) -> (l: Line)
    ensures
        is_labelled_line(l, label@, label_color, label_bold, text@, text_color),
{
    let mut segments: Vec<Segment> = Vec::new();
    segments.push(segment(String::from_str(label), Some(label_color), label_bold));
    segments.push(segment(String::from_str(" "), None, false));
    segments.push(segment(text, text_color, false));
    Line { segments, ends_line: true }
}

} // verus!
