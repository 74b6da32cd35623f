//! From styles back to markers: the code character of a palette colour or
//! of a format, and styled text written out with its markers.

use vstd::prelude::*;
use vstd::string::StringExecFns;

use crate::color_parser::{color_of_code, format_of_code, ESCAPE, RESET_CODE};
use crate::text::{Color, FormatCode, NamedColor, RunView, StyledRun, StyledText};

verus! {

/// The code character of a palette colour.
pub open spec fn code_of_color(color: NamedColor) -> char {
    match color {
        NamedColor::Black => '0',
        NamedColor::DarkBlue => '1',
        NamedColor::DarkGreen => '2',
        NamedColor::DarkAqua => '3',
        NamedColor::DarkRed => '4',
        NamedColor::DarkPurple => '5',
        NamedColor::Gold => '6',
        NamedColor::Gray => '7',
        NamedColor::DarkGray => '8',
        NamedColor::Blue => '9',
        NamedColor::Green => 'a',
        NamedColor::Aqua => 'b',
        NamedColor::Red => 'c',
        NamedColor::LightPurple => 'd',
        NamedColor::Yellow => 'e',
        NamedColor::White => 'f',
    }
}

/// The code character of a format.
pub open spec fn code_of_format(format: FormatCode) -> char {
    match format {
        FormatCode::Bold => 'l',
        FormatCode::Underlined => 'n',
        FormatCode::Italic => 'o',
        FormatCode::Strikethrough => 'm',
        FormatCode::Obfuscated => 'k',
    }
}

/// The code character that selects `color`: the one character that the
/// parser reads back as this colour.
pub fn color_to_code(color: NamedColor) -> (code: char)
    ensures
        code == code_of_color(color),
        color_of_code(code) == Some(color),
{
    match color {
        NamedColor::Black => '0',
        NamedColor::DarkBlue => '1',
        NamedColor::DarkGreen => '2',
        NamedColor::DarkAqua => '3',
        NamedColor::DarkRed => '4',
        NamedColor::DarkPurple => '5',
        NamedColor::Gold => '6',
        NamedColor::Gray => '7',
        NamedColor::DarkGray => '8',
        NamedColor::Blue => '9',
        NamedColor::Green => 'a',
        NamedColor::Aqua => 'b',
        NamedColor::Red => 'c',
        NamedColor::LightPurple => 'd',
        NamedColor::Yellow => 'e',
        NamedColor::White => 'f',
    }
}

/// The palette and its codes correspond one to one: a character is the code
/// of a colour exactly when the parser reads it as that colour.
pub proof fn lemma_color_codes_bijective(color: NamedColor, ch: char)
    ensures
        color_of_code(ch) == Some(color) <==> code_of_color(color) == ch,
{
}

/// The formats and their codes correspond one to one, and no format code is
/// a colour code.
pub proof fn lemma_format_codes_bijective(format: FormatCode, ch: char)
    ensures
        format_of_code(ch) == Some(format) <==> code_of_format(format) == ch,
        color_of_code(code_of_format(format)) is None,
{
}

/// The code character that selects `format`: the one character that the
/// parser reads back as this format.
pub fn format_to_code(format: FormatCode) -> (code: char)
    ensures
        code == code_of_format(format),
        format_of_code(code) == Some(format),
{
    match format {
        FormatCode::Bold => 'l',
        FormatCode::Underlined => 'n',
        FormatCode::Italic => 'o',
        FormatCode::Strikethrough => 'm',
        FormatCode::Obfuscated => 'k',
    }
}

/// The marker that selects the colour of `run`, empty where it has none.
pub open spec fn color_marker(run: RunView) -> Seq<char> {
    match run.color {
        Some(Color::Named(c)) => seq![ESCAPE, code_of_color(c)],
        _ => Seq::empty(),
    }
}

/// The marker that selects the format of `run`, empty where it has none.
pub open spec fn format_marker(run: RunView) -> Seq<char> {
    match run.format {
        Some(f) => seq![ESCAPE, code_of_format(f)],
        None => Seq::empty(),
    }
}

/// The markers that set the style of `run` whatever was active before: a
/// reset, then its colour, then its format.
pub open spec fn run_markers(run: RunView) -> Seq<char> {
    seq![ESCAPE, RESET_CODE] + color_marker(run) + format_marker(run)
}

/// The text of the runs, in order, each behind the markers of its style.
pub open spec fn marked_text(runs: Seq<RunView>) -> Seq<char>
    decreases runs.len(),
{
    if runs.len() == 0 {
        Seq::empty()
    } else {
        run_markers(runs[0]) + runs[0].text + marked_text(runs.skip(1))
    }
}

/// Appends the markers of the run's style and its text to `out`.
fn push_marked_run(out: &mut String, run: &StyledRun)
    ensures
        final(out)@ == old(out)@ + run_markers(run@) + run@.text,
{
    out.push(ESCAPE);
    out.push(RESET_CODE);
    if let Some(Color::Named(c)) = run.color {
        out.push(ESCAPE);
        out.push(color_to_code(c));
    }
    if let Some(f) = run.format {
        out.push(ESCAPE);
        out.push(format_to_code(f));
    }
    assert(out@ =~= old(out)@ + run_markers(run@));
    out.append(run.text.as_str());
}

impl StyledText {
    /// The text written out with markers: each run behind a reset and the
    /// markers of its colour and format. An exact colour has no marker and
    /// is left out.
    pub fn to_marked_string(&self) -> (marked: String)
        ensures
            marked@ == marked_text(self@),
    {
        let mut marked = String::new();
        let mut i: usize = 0;
        assert(self@.skip(0) =~= self@);
        assert(marked@ + marked_text(self@.skip(0)) =~= marked_text(self@));
        while i < self.runs.len()
            invariant
                i <= self.runs.len(),
                marked@ + marked_text(self@.skip(i as int)) == marked_text(self@),
            decreases self.runs.len() - i,
        {
            let ghost rest = self@.skip(i as int);
            let ghost before = marked@;
            assert(rest[0] == self.runs@[i as int]@);
            assert(rest.skip(1) =~= self@.skip(i + 1));
            push_marked_run(&mut marked, &self.runs[i]);
            assert(marked@ + marked_text(self@.skip(i + 1)) =~= before + marked_text(rest));
            i += 1;
        }
        assert(marked_text(self@.skip(i as int)) =~= Seq::empty());
        assert(marked@ + Seq::<char>::empty() =~= marked@);
        marked
    }
}

} // verus!
