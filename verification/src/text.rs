//! The styled-text data model shared by the marker parser and the gradient
//! generators.

use vstd::prelude::*;
use vstd::string::StringExecFns;

verus! {

/// The sixteen fixed palette colours.
#[derive(Clone, Copy, Debug, PartialEq, Eq, Hash, Structural)]
pub enum NamedColor {
    Black,
    DarkBlue,
    DarkGreen,
    DarkAqua,
    DarkRed,
    DarkPurple,
    Gold,
    Gray,
    DarkGray,
    Blue,
    Green,
    Aqua,
    Red,
    LightPurple,
    Yellow,
    White,
}

/// The five format flags a run can carry.
#[derive(Clone, Copy, Debug, PartialEq, Eq, Hash, Structural)]
pub enum FormatCode {
    Bold,
    Underlined,
    Italic,
    Strikethrough,
    Obfuscated,
}

/// An exact colour, one byte per channel.
#[derive(Clone, Copy, Debug, PartialEq, Eq, Hash, Structural)]
pub struct RGBColor {
    pub red: u8,
    pub green: u8,
    pub blue: u8,
}

impl RGBColor {
    /// The colour with the given channels.
    pub fn new(red: u8, green: u8, blue: u8) -> (color: Self)
        ensures
            color == (RGBColor { red, green, blue }),
    {
        RGBColor { red, green, blue }
    }
}

/// The colour of a run: a palette entry or an exact RGB triple.
#[derive(Clone, Copy, Debug, PartialEq, Eq, Hash, Structural)]
pub enum Color {
    Named(NamedColor),
    Rgb(RGBColor),
}

/// What a [`StyledRun`] is, as a mathematical value.
pub struct RunView {
    pub text: Seq<char>,
    pub color: Option<Color>,
    pub format: Option<FormatCode>,
}

/// An indivisible piece of text with at most one colour and one format.
#[derive(Clone, Debug, PartialEq, Eq)]
pub struct StyledRun {
    pub text: String,
    pub color: Option<Color>,
    pub format: Option<FormatCode>,
}

impl View for StyledRun {
    type V = RunView;

    open spec fn view(&self) -> RunView {
        RunView { text: self.text@, color: self.color, format: self.format }
    }
}

/// The run with the given text and neither colour nor format.
pub open spec fn plain_run(text: Seq<char>) -> RunView {
    RunView { text, color: None, format: None }
}

/// Runs in reading order. The empty sequence is the value "no text".
#[derive(Clone, Debug, PartialEq, Eq)]
pub struct StyledText {
    pub runs: Vec<StyledRun>,
}

/// The views of `runs`, in the same order.
pub open spec fn run_views(runs: Seq<StyledRun>) -> Seq<RunView> {
    Seq::new(runs.len(), |i: int| runs[i]@)
}

impl View for StyledText {
    type V = Seq<RunView>;

    open spec fn view(&self) -> Seq<RunView> {
        run_views(self.runs@)
    }
}

/// The texts of the runs, one after the other.
pub open spec fn joined_text(runs: Seq<RunView>) -> Seq<char>
    decreases runs.len(),
{
    if runs.len() == 0 {
        Seq::empty()
    } else {
        joined_text(runs.drop_last()) + runs.last().text
    }
}

impl StyledRun {
    /// The run with the given text and neither colour nor format.
    pub fn text(text: String) -> (run: Self)
        ensures
            run@ == plain_run(text@),
    {
        StyledRun { text, color: None, format: None }
    }
}

impl StyledText {
    /// What the text reads without its styles.
    pub fn get_text(&self) -> (text: String)
        ensures
            text@ == joined_text(self@),
    {
        let mut text = String::new();
        let mut i: usize = 0;
        while i < self.runs.len()
            invariant
                i <= self.runs.len(),
                text@ == joined_text(self@.take(i as int)),
            decreases self.runs.len() - i,
        {
            text.append(self.runs[i].text.as_str());
            assert(self@.take(i + 1).drop_last() =~= self@.take(i as int));
            i += 1;
        }
        assert(self@.take(i as int) =~= self@);
        text
    }
}

} // verus!
