//! The marker parser: `&` followed by a one-character code selects a colour,
//! a format, or a reset; everything else is text.

use vstd::prelude::*;

use crate::color_utils::marked_text;
use crate::marker_laws::{lemma_parse_plain, lemma_parse_roundtrip};
use crate::strings::chars_of;
use crate::text::{
    plain_run, run_views, Color, FormatCode, NamedColor, RunView, StyledRun, StyledText,
};

verus! {

/// The character that introduces a marker.
pub const ESCAPE: char = '&';

/// The code that clears both colour and format.
pub const RESET_CODE: char = 'r';

/// The palette colour that a code character selects, if it is a colour code.
pub open spec fn color_of_code(ch: char) -> Option<NamedColor> {
    match ch {
        '0' => Some(NamedColor::Black),
        '1' => Some(NamedColor::DarkBlue),
        '2' => Some(NamedColor::DarkGreen),
        '3' => Some(NamedColor::DarkAqua),
        '4' => Some(NamedColor::DarkRed),
        '5' => Some(NamedColor::DarkPurple),
        '6' => Some(NamedColor::Gold),
        '7' => Some(NamedColor::Gray),
        '8' => Some(NamedColor::DarkGray),
        '9' => Some(NamedColor::Blue),
        'a' => Some(NamedColor::Green),
        'b' => Some(NamedColor::Aqua),
        'c' => Some(NamedColor::Red),
        'd' => Some(NamedColor::LightPurple),
        'e' => Some(NamedColor::Yellow),
        'f' => Some(NamedColor::White),
        _ => None,
    }
}

/// The format that a code character selects, if it is a format code.
pub open spec fn format_of_code(ch: char) -> Option<FormatCode> {
    match ch {
        'l' => Some(FormatCode::Bold),
        'n' => Some(FormatCode::Underlined),
        'o' => Some(FormatCode::Italic),
        'm' => Some(FormatCode::Strikethrough),
        'k' => Some(FormatCode::Obfuscated),
        _ => None,
    }
}

/// Whether `ch` after the escape character makes a marker.
pub open spec fn is_marker_code(ch: char) -> bool {
    color_of_code(ch) is Some || format_of_code(ch) is Some || ch == RESET_CODE
}

/// The parser between two characters: the runs emitted so far, the text
/// gathered since the last marker, and the active colour and format.
pub struct ScanState {
    pub runs: Seq<RunView>,
    pub text: Seq<char>,
    pub color: Option<NamedColor>,
    pub format: Option<FormatCode>,
}

/// The state before the first character.
pub open spec fn initial_state() -> ScanState {
    ScanState { runs: Seq::empty(), text: Seq::empty(), color: None, format: None }
}

/// The run that the gathered text makes under the active style.
pub open spec fn pending_run(st: ScanState) -> RunView {
    RunView {
        text: st.text,
        color: match st.color {
            Some(c) => Some(Color::Named(c)),
            None => None,
        },
        format: st.format,
    }
}

/// Emits the gathered text as a run, unless there is none.
pub open spec fn flush(st: ScanState) -> ScanState {
    if st.text.len() == 0 {
        st
    } else {
        ScanState { runs: st.runs.push(pending_run(st)), text: Seq::empty(), ..st }
    }
}

/// The state after the marker with code `code`: the gathered text is
/// emitted, then a colour code replaces the colour, a format code replaces
/// the format, and the reset code clears both.
pub open spec fn apply_marker(st: ScanState, code: char) -> ScanState {
    let flushed = flush(st);
    match color_of_code(code) {
        Some(c) => ScanState { color: Some(c), ..flushed },
        None => match format_of_code(code) {
            Some(f) => ScanState { format: Some(f), ..flushed },
            None => ScanState { color: None, format: None, ..flushed },
        },
    }
}

/// Whether `rest` begins with a marker.
pub open spec fn starts_with_marker(rest: Seq<char>) -> bool {
    rest.len() >= 2 && rest[0] == ESCAPE && is_marker_code(rest[1])
}

/// The runs that come out when the parser in state `st` reads `rest` to its
/// end. A marker takes two characters; any other character, an escape
/// character without a code behind it included, is text.
pub open spec fn scan(rest: Seq<char>, st: ScanState) -> Seq<RunView>
    decreases rest.len(),
{
    if rest.len() == 0 {
        flush(st).runs
    } else if starts_with_marker(rest) {
        scan(rest.skip(2), apply_marker(st, rest[1]))
    } else {
        scan(rest.skip(1), ScanState { text: st.text.push(rest[0]), ..st })
    }
}

/// The styled text that `input` stands for: at least one run, the empty
/// plain run where the scan emits none.
pub open spec fn parse_spec(input: Seq<char>) -> Seq<RunView> {
    let runs = scan(input, initial_state());
    if runs.len() == 0 {
        seq![plain_run(Seq::empty())]
    } else {
        runs
    }
}

/// The palette colour for a colour code, `None` for any other character.
pub fn parse_color_code(ch: char) -> (color: Option<NamedColor>)
    ensures
        color == color_of_code(ch),
{
    match ch {
        '0' => Some(NamedColor::Black),
        '1' => Some(NamedColor::DarkBlue),
        '2' => Some(NamedColor::DarkGreen),
        '3' => Some(NamedColor::DarkAqua),
        '4' => Some(NamedColor::DarkRed),
        '5' => Some(NamedColor::DarkPurple),
        '6' => Some(NamedColor::Gold),
        '7' => Some(NamedColor::Gray),
        '8' => Some(NamedColor::DarkGray),
        '9' => Some(NamedColor::Blue),
        'a' => Some(NamedColor::Green),
        'b' => Some(NamedColor::Aqua),
        'c' => Some(NamedColor::Red),
        'd' => Some(NamedColor::LightPurple),
        'e' => Some(NamedColor::Yellow),
        'f' => Some(NamedColor::White),
        _ => None,
    }
}

/// The format for a format code, `None` for any other character.
pub fn parse_format_code(ch: char) -> (format: Option<FormatCode>)
    ensures
        format == format_of_code(ch),
{
    match ch {
        'l' => Some(FormatCode::Bold),
        'n' => Some(FormatCode::Underlined),
        'o' => Some(FormatCode::Italic),
        'm' => Some(FormatCode::Strikethrough),
        'k' => Some(FormatCode::Obfuscated),
        _ => None,
    }
}

/// The run with its format replaced by `format`.
pub fn apply_format_code(component: StyledRun, format: FormatCode) -> (styled: StyledRun)
    ensures
        styled@ == (RunView { format: Some(format), ..component@ }),
{
    StyledRun { text: component.text, color: component.color, format: Some(format) }
}

/// The parser's state as the executable loop holds it.
pub open spec fn state_of(
    runs: Seq<StyledRun>,
    text: Seq<char>,
    color: Option<NamedColor>,
    format: Option<FormatCode>,
) -> ScanState {
    ScanState { runs: run_views(runs), text, color, format }
}

/// Moves the gathered text, if any, into a new run at the end of `runs`.
fn flush_text(
    runs: &mut Vec<StyledRun>,
    text: &mut String,
    color: Option<NamedColor>,
    format: Option<FormatCode>,
)
    ensures
        state_of(final(runs)@, final(text)@, color, format) == flush(
            state_of(old(runs)@, old(text)@, color, format),
        ),
{
    if !text.as_str().is_empty() {
        let mut taken = String::new();
        std::mem::swap(text, &mut taken);
        let mut component = StyledRun::text(taken);
        if let Some(c) = color {
            component.color = Some(Color::Named(c));
        }
        if let Some(f) = format {
            component = apply_format_code(component, f);
        }
        runs.push(component);
        assert(run_views(runs@) =~= run_views(old(runs)@).push(
            pending_run(state_of(old(runs)@, old(text)@, color, format)),
        ));
    }
}

/// Whether `ch` after the escape character makes a marker.
fn is_marker(ch: char) -> (marker: bool)
    ensures
        marker == is_marker_code(ch),
{
    parse_color_code(ch).is_some() || parse_format_code(ch).is_some() || ch == RESET_CODE
}

/// Whether the escape character occurs in `chars`.
pub(crate) fn contains_escape(chars: &Vec<char>) -> (found: bool)
    ensures
        found == chars@.contains(ESCAPE),
{
    let mut i: usize = 0;
    while i < chars.len()
        invariant
            i <= chars.len(),
            forall|j: int| 0 <= j < i ==> chars@[j] != ESCAPE,
        decreases chars.len() - i,
    {
        if chars[i] == ESCAPE {
            return true;
        }
        i += 1;
    }
    false
}

/// Parses the markers in `input` into styled text.
///
/// The result is never empty: an input that yields no run gives the empty
/// plain run. Input without the escape character comes back as one plain
/// run. Written out again with its markers, the result parses to itself.
pub fn parse_color_codes(input: &str) -> (result: StyledText)
    ensures
        result@ == parse_spec(input@),
        result@.len() >= 1,
        !input@.contains(ESCAPE) ==> result@ == seq![plain_run(input@)],
        parse_spec(marked_text(result@)) == result@,
{
    proof {
        lemma_parse_roundtrip(input@);
    }
    let chars = chars_of(input);
    if !contains_escape(&chars) {
        proof {
            lemma_parse_plain(input@);
        }
        let mut runs: Vec<StyledRun> = Vec::new();
        runs.push(StyledRun::text(input.to_owned()));
        assert(run_views(runs@) =~= seq![plain_run(input@)]);
        return StyledText { runs };
    }
    let mut runs: Vec<StyledRun> = Vec::new();
    let mut current_text = String::new();
    let mut current_color: Option<NamedColor> = None;
    let mut current_format: Option<FormatCode> = None;
    let mut i: usize = 0;
    assert(input@.skip(0) =~= input@);
    assert(run_views(runs@) =~= Seq::empty());
    while i < chars.len()
        invariant
            i <= chars.len(),
            chars@ == input@,
            scan(input@, initial_state()) == scan(
                input@.skip(i as int),
                state_of(runs@, current_text@, current_color, current_format),
            ),
        decreases chars.len() - i,
    {
        let ghost rest = input@.skip(i as int);
        let ch = chars[i];
        if ch == ESCAPE && i + 1 < chars.len() && is_marker(chars[i + 1]) {
            let code = chars[i + 1];
            flush_text(&mut runs, &mut current_text, current_color, current_format);
            if let Some(c) = parse_color_code(code) {
                current_color = Some(c);
            } else if let Some(f) = parse_format_code(code) {
                current_format = Some(f);
            } else {
                current_color = None;
                current_format = None;
            }
            assert(rest.skip(2) =~= input@.skip(i + 2));
            i += 2;
        } else {
            current_text.push(ch);
            assert(rest.skip(1) =~= input@.skip(i + 1));
            i += 1;
        }
    }
    flush_text(&mut runs, &mut current_text, current_color, current_format);
    if runs.len() == 0 {
        runs.push(StyledRun::text(String::new()));
        assert(run_views(runs@) =~= seq![plain_run(Seq::empty())]);
    }
    StyledText { runs }
}

} // verus!
