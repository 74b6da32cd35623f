//! What holds of the marker parser on every input.

use vstd::prelude::*;

use crate::color_parser::{
    apply_marker, flush, initial_state, is_marker_code, parse_spec, pending_run, scan,
    starts_with_marker, ScanState, ESCAPE, RESET_CODE,
};
use crate::color_utils::{
    code_of_color, code_of_format, color_marker, format_marker, lemma_color_codes_bijective,
    lemma_format_codes_bijective, marked_text, run_markers,
};
use crate::text::{joined_text, plain_run, Color, NamedColor, RunView};

verus! {

/// Text that the parser reads as text throughout: no escape character in it
/// has a marker code behind it.
pub open spec fn is_literal_text(text: Seq<char>) -> bool {
    forall|j: int|
        0 <= j && j + 1 < text.len() && #[trigger] text[j] == ESCAPE ==> !is_marker_code(
            text[j + 1],
        )
}

/// Whether what follows `text` leaves its last character text as well.
pub open spec fn literal_before(text: Seq<char>, rest: Seq<char>) -> bool {
    text.len() > 0 && text.last() == ESCAPE && rest.len() > 0 ==> !is_marker_code(rest[0])
}

/// Literal text in front of `rest` is gathered character by character.
pub proof fn lemma_scan_literal(text: Seq<char>, rest: Seq<char>, st: ScanState)
    requires
        is_literal_text(text),
        literal_before(text, rest),
    ensures
        scan(text + rest, st) == scan(rest, ScanState { text: st.text + text, ..st }),
    decreases text.len(),
{
    if text.len() == 0 {
        assert(text + rest =~= rest);
        assert(st.text + text =~= st.text);
    } else {
        let all = text + rest;
        let tail = text.skip(1);
        let next = ScanState { text: st.text.push(text[0]), ..st };
        assert(all[0] == text[0]);
        if text.len() >= 2 {
            assert(all[1] == text[1]);
        } else if rest.len() > 0 {
            assert(all[1] == rest[0]);
            assert(text.last() == text[0]);
        }
        assert(!starts_with_marker(all));
        assert(all.skip(1) =~= tail + rest);
        assert forall|j: int|
            0 <= j && j + 1 < tail.len() && #[trigger] tail[j] == ESCAPE implies !is_marker_code(
            tail[j + 1],
        ) by {
            assert(text[j + 1] == ESCAPE);
        }
        if tail.len() > 0 {
            assert(tail.last() == text.last());
        }
        lemma_scan_literal(tail, rest, next);
        assert(next.text + tail =~= st.text + text);
    }
}

/// Input without the escape character is one plain run holding the input.
pub proof fn lemma_parse_plain(input: Seq<char>)
    requires
        !input.contains(ESCAPE),
    ensures
        parse_spec(input) == seq![plain_run(input)],
{
    assert forall|j: int|
        0 <= j && j + 1 < input.len() && #[trigger] input[j] == ESCAPE implies !is_marker_code(
        input[j + 1],
    ) by {
        assert(input.contains(input[j]));
    }
    if input.len() > 0 {
        assert(input.contains(input.last()));
    }
    let none = Seq::<char>::empty();
    lemma_scan_literal(input, none, initial_state());
    assert(input + none =~= input);
    assert(initial_state().text + input =~= input);
    let gathered = ScanState { text: input, ..initial_state() };
    assert(scan(none, gathered) == flush(gathered).runs);
    if input.len() == 0 {
        assert(input =~= none);
    } else {
        assert(flush(gathered).runs =~= seq![plain_run(input)]);
    }
}

/// A run that markers can describe: its text is not empty and reads as
/// text, and its colour, if it has one, is a palette colour.
pub open spec fn is_markable(run: RunView) -> bool {
    &&& run.text.len() > 0
    &&& is_literal_text(run.text)
    &&& !(run.color matches Some(Color::Rgb(_)))
}

/// Whether every run of `runs` is markable.
pub open spec fn all_markable(runs: Seq<RunView>) -> bool {
    forall|k: int| 0 <= k < runs.len() ==> is_markable(#[trigger] runs[k])
}

/// The state in which the text of `run` is gathered under its style, the
/// runs of `st` and its own gathered text emitted before.
pub open spec fn gathering(st: ScanState, run: RunView) -> ScanState {
    ScanState {
        runs: flush(st).runs,
        text: run.text,
        color: match run.color {
            Some(Color::Named(c)) => Some(c),
            _ => None,
        },
        format: run.format,
    }
}

/// Reading the markers of a markable run and its text leaves the parser
/// gathering that text under that style.
proof fn lemma_scan_marked_run(run: RunView, rest: Seq<char>, st: ScanState)
    requires
        is_markable(run),
        rest.len() > 0 ==> !is_marker_code(rest[0]),
    ensures
        scan(run_markers(run) + run.text + rest, st) == scan(rest, gathering(st, run)),
{
    let reset = seq![ESCAPE, RESET_CODE];
    let cm = color_marker(run);
    let fm = format_marker(run);
    let after_format = run.text + rest;
    let after_color = fm + after_format;
    let after_reset = cm + after_color;
    let all = reset + after_reset;
    assert(all =~= run_markers(run) + run.text + rest);
    let cleared = ScanState { runs: flush(st).runs, text: Seq::empty(), color: None, format: None };
    assert(scan(all, st) == scan(after_reset, cleared)) by {
        assert(all[0] == ESCAPE && all[1] == RESET_CODE);
        assert(starts_with_marker(all));
        assert(all.skip(2) =~= after_reset);
        assert(flush(st).text =~= Seq::empty());
        assert(apply_marker(st, RESET_CODE) == cleared);
    }
    let colored = ScanState { color: gathering(st, run).color, ..cleared };
    assert(scan(after_reset, cleared) == scan(after_color, colored)) by {
        match run.color {
            Some(Color::Named(c)) => {
                lemma_color_codes_bijective(c, code_of_color(c));
                assert(after_reset[0] == ESCAPE && after_reset[1] == code_of_color(c));
                assert(starts_with_marker(after_reset));
                assert(after_reset.skip(2) =~= after_color);
                assert(apply_marker(cleared, code_of_color(c)) == colored);
            },
            _ => {
                assert(after_reset =~= after_color);
            },
        }
    }
    let styled = ScanState { format: run.format, ..colored };
    assert(scan(after_color, colored) == scan(after_format, styled)) by {
        match run.format {
            Some(f) => {
                lemma_format_codes_bijective(f, code_of_format(f));
                assert(after_color[0] == ESCAPE && after_color[1] == code_of_format(f));
                assert(starts_with_marker(after_color));
                assert(after_color.skip(2) =~= after_format);
                assert(apply_marker(colored, code_of_format(f)) == styled);
            },
            None => {
                assert(after_color =~= after_format);
            },
        }
    }
    lemma_scan_literal(run.text, rest, styled);
    assert(styled.text + run.text =~= run.text);
}

/// Reading the marked text of markable runs emits what was gathered before
/// and then those runs.
pub proof fn lemma_scan_marked_text(runs: Seq<RunView>, st: ScanState)
    requires
        all_markable(runs),
    ensures
        scan(marked_text(runs), st) == flush(st).runs + runs,
    decreases runs.len(),
{
    if runs.len() == 0 {
        assert(flush(st).runs + runs =~= flush(st).runs);
    } else {
        let run = runs[0];
        let later = runs.skip(1);
        let rest = marked_text(later);
        assert(is_markable(run));
        assert forall|k: int| 0 <= k < later.len() implies is_markable(#[trigger] later[k]) by {
            assert(later[k] == runs[k + 1]);
        }
        if later.len() > 0 {
            assert(rest[0] == ESCAPE);
        } else {
            assert(rest.len() == 0);
        }
        lemma_scan_marked_run(run, rest, st);
        let gathered = gathering(st, run);
        lemma_scan_marked_text(later, gathered);
        assert(pending_run(gathered) == run);
        assert(flush(gathered).runs + later =~= flush(st).runs + runs);
    }
}

/// The runs that the parser can give: markable runs, at least one, or the
/// empty plain run alone.
pub open spec fn is_parsed_form(runs: Seq<RunView>) -> bool {
    (runs.len() > 0 && all_markable(runs)) || runs == seq![plain_run(Seq::empty())]
}

/// Runs that the parser can give come back from their marked text
/// unchanged.
pub proof fn lemma_parse_marked_text(runs: Seq<RunView>)
    requires
        is_parsed_form(runs),
    ensures
        parse_spec(marked_text(runs)) == runs,
{
    if runs.len() > 0 && all_markable(runs) {
        lemma_scan_marked_text(runs, initial_state());
        assert(flush(initial_state()).runs + runs =~= runs);
    } else {
        let blank = plain_run(Seq::empty());
        let marked = run_markers(blank) + blank.text + marked_text(runs.skip(1));
        assert(marked_text(runs) == marked);
        assert(marked_text(runs.skip(1)) =~= Seq::empty());
        assert(marked =~= seq![ESCAPE, RESET_CODE]);
        assert(starts_with_marker(marked));
        assert(marked.skip(2) =~= Seq::empty());
        assert(scan(marked.skip(2), apply_marker(initial_state(), RESET_CODE)).len() == 0);
    }
}

/// Whatever the parser emits from a state whose runs are markable and whose
/// gathered text is literal is markable.
pub proof fn lemma_scan_markable(rest: Seq<char>, st: ScanState)
    requires
        all_markable(st.runs),
        is_literal_text(st.text),
        literal_before(st.text, rest),
    ensures
        all_markable(scan(rest, st)),
    decreases rest.len(),
{
    let flushed = flush(st);
    assert(all_markable(flushed.runs)) by {
        if st.text.len() > 0 {
            assert(is_markable(pending_run(st)));
        }
    }
    assert(flushed.text =~= Seq::empty());
    if rest.len() == 0 {
    } else if starts_with_marker(rest) {
        lemma_scan_markable(rest.skip(2), apply_marker(st, rest[1]));
    } else {
        let text = st.text.push(rest[0]);
        let later = rest.skip(1);
        assert forall|j: int|
            0 <= j && j + 1 < text.len() && #[trigger] text[j] == ESCAPE implies !is_marker_code(
            text[j + 1],
        ) by {
            if j + 1 < st.text.len() {
                assert(st.text[j] == ESCAPE);
            } else {
                assert(st.text.last() == ESCAPE);
            }
        }
        if later.len() > 0 {
            assert(later[0] == rest[1]);
        }
        lemma_scan_markable(later, ScanState { text, ..st });
    }
}

/// What the parser gives is in the form that comes back from marked text.
pub proof fn lemma_parse_gives_parsed_form(input: Seq<char>)
    ensures
        is_parsed_form(parse_spec(input)),
{
    lemma_scan_markable(input, initial_state());
}

/// Parsing is idempotent through marked text: the parser's runs, written
/// out again each behind the markers of its style, parse to the same runs.
pub proof fn lemma_parse_roundtrip(input: Seq<char>)
    ensures
        parse_spec(marked_text(parse_spec(input))) == parse_spec(input),
{
    lemma_parse_gives_parsed_form(input);
    lemma_parse_marked_text(parse_spec(input));
}

/// Text without the escape character, behind the marker of a colour, is
/// one run of that text in that colour.
pub proof fn lemma_parse_color_prefix(color: NamedColor, text: Seq<char>)
    requires
        text.len() > 0,
        !text.contains(ESCAPE),
    ensures
        parse_spec(seq![ESCAPE, code_of_color(color)] + text) == seq![
            RunView { text, color: Some(Color::Named(color)), format: None },
        ],
{
    let run = RunView { text, color: Some(Color::Named(color)), format: None };
    let all = seq![ESCAPE, code_of_color(color)] + text;
    let none = Seq::<char>::empty();
    lemma_color_codes_bijective(color, code_of_color(color));
    assert(all[0] == ESCAPE && all[1] == code_of_color(color));
    assert(starts_with_marker(all));
    assert(all.skip(2) =~= text + none);
    let colored = ScanState { color: Some(color), ..initial_state() };
    assert(apply_marker(initial_state(), code_of_color(color)) == colored);
    assert forall|j: int|
        0 <= j && j + 1 < text.len() && #[trigger] text[j] == ESCAPE implies !is_marker_code(
        text[j + 1],
    ) by {
        assert(text.contains(text[j]));
    }
    assert(text.contains(text.last()));
    lemma_scan_literal(text, none, colored);
    assert(colored.text + text =~= text);
    let gathered = ScanState { text, ..colored };
    assert(flush(gathered).runs =~= seq![run]);
}

/// What is left of `input` when its markers are taken out.
pub open spec fn visible_text(input: Seq<char>) -> Seq<char>
    decreases input.len(),
{
    if input.len() == 0 {
        Seq::empty()
    } else if starts_with_marker(input) {
        visible_text(input.skip(2))
    } else {
        seq![input[0]] + visible_text(input.skip(1))
    }
}

/// The runs emitted from a state read as what was emitted and gathered
/// before, and then the rest without its markers.
proof fn lemma_scan_keeps_text(rest: Seq<char>, st: ScanState)
    ensures
        joined_text(scan(rest, st)) == joined_text(st.runs) + st.text + visible_text(rest),
    decreases rest.len(),
{
    let flushed = flush(st);
    assert(joined_text(flushed.runs) + flushed.text =~= joined_text(st.runs) + st.text) by {
        if st.text.len() > 0 {
            assert(flushed.runs.drop_last() =~= st.runs);
        }
    }
    if rest.len() == 0 {
        assert(flushed.text =~= Seq::empty());
    } else if starts_with_marker(rest) {
        let next = apply_marker(st, rest[1]);
        lemma_scan_keeps_text(rest.skip(2), next);
        assert(next.runs == flushed.runs && next.text == flushed.text);
    } else {
        let next = ScanState { text: st.text.push(rest[0]), ..st };
        lemma_scan_keeps_text(rest.skip(1), next);
        assert(next.text + visible_text(rest.skip(1)) =~= st.text + visible_text(rest));
    }
}

/// The parser changes styles only: its runs read as the input without its
/// markers.
pub proof fn lemma_parse_keeps_text(input: Seq<char>)
    ensures
        joined_text(parse_spec(input)) == visible_text(input),
{
    lemma_scan_keeps_text(input, initial_state());
    let runs = scan(input, initial_state());
    assert(joined_text(initial_state().runs) =~= Seq::empty());
    assert(Seq::<char>::empty() + Seq::<char>::empty() + visible_text(input) =~= visible_text(
        input,
    ));
    if runs.len() == 0 {
        let blank = seq![plain_run(Seq::empty())];
        assert(joined_text(blank.drop_last()) =~= Seq::empty());
        assert(joined_text(blank) =~= Seq::empty());
    }
}

} // verus!
