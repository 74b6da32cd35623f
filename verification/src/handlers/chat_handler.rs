//! What becomes of a chat line: how the message and the sender's name are
//! styled by the styles that the sender has chosen.

use vstd::prelude::*;
use vstd::string::StringExecFns;

use crate::color_parser::{contains_escape, parse_color_codes, parse_spec, ESCAPE};
use crate::color_utils::{code_of_color, color_to_code};
use crate::config::{
    config_stops, gradient_index, sweep_of, ChatColorStyle, GradientConfig, GradientMethod,
    PluginConfig, StyleView,
};
use crate::gradient::{
    apply_fire_gradient, apply_gradient, apply_rainbow_gradient, fire_stops, hsv_sweep_runs,
    rainbow_runs, stops_runs,
};
use crate::marker_laws::lemma_parse_color_prefix;
use crate::strings::chars_of;
use crate::text::{Color, NamedColor, RunView, StyledText};

verus! {

/// `text` behind the marker that selects `color`.
pub open spec fn color_prefixed(color: NamedColor, text: Seq<char>) -> Seq<char> {
    seq![ESCAPE, code_of_color(color)] + text
}

/// The runs that a configured gradient makes of `text`.
pub open spec fn configured_runs(text: Seq<char>, gradient: GradientConfig) -> Seq<RunView> {
    match gradient.method {
        GradientMethod::Hsv => hsv_sweep_runs(text, sweep_of(gradient)),
        GradientMethod::RgbInterpolation => stops_runs(text, config_stops(gradient)),
    }
}

/// The runs that the gradient configured under `name` makes of `text`;
/// where none is configured under that name, `text` is parsed for markers.
pub open spec fn custom_gradient_runs(
    text: Seq<char>,
    name: Seq<char>,
    config: Option<PluginConfig>,
) -> Seq<RunView> {
    match config {
        Some(config) => match gradient_index(config.gradients@, name) {
            Some(i) => configured_runs(text, config.gradients@[i].1),
            None => parse_spec(text),
        },
        None => parse_spec(text),
    }
}

/// `text` in the style `style`. A colour is put in front of the text as a
/// marker and the whole is parsed; with `keep_markers`, text that holds the
/// escape character is parsed as it stands, so that its own markers decide.
pub open spec fn styled_runs(
    text: Seq<char>,
    style: Option<StyleView>,
    keep_markers: bool,
    config: Option<PluginConfig>,
) -> Seq<RunView> {
    match style {
        None => parse_spec(text),
        Some(StyleView::Simple(color)) => if keep_markers && text.contains(ESCAPE) {
            parse_spec(text)
        } else {
            parse_spec(color_prefixed(color, text))
        },
        Some(StyleView::Rainbow) => rainbow_runs(text),
        Some(StyleView::Fire) => stops_runs(text, fire_stops()),
        Some(StyleView::CustomGradient(name)) => custom_gradient_runs(text, name, config),
    }
}

/// The view of a style that may be absent.
pub open spec fn chosen(style: Option<&ChatColorStyle>) -> Option<StyleView> {
    match style {
        Some(s) => Some(s@),
        None => None,
    }
}

/// The configuration behind a reference that may be absent.
pub open spec fn given(config: Option<&PluginConfig>) -> Option<PluginConfig> {
    match config {
        Some(c) => Some(*c),
        None => None,
    }
}

/// Colours `text` letter by letter with the gradient configured under
/// `gradient_name`; where none is configured under that name, `text` is
/// parsed for markers.
pub fn apply_custom_gradient(text: &str, gradient_name: &str, config: Option<&PluginConfig>) -> (result:
    StyledText)
    ensures
        result@ == custom_gradient_runs(text@, gradient_name@, given(config)),
{
    match config {
        Some(config) => match config.gradient(gradient_name) {
            Some(gradient) => {
                let spec = gradient.to_spec();
                apply_gradient(text, &spec)
            },
            None => parse_color_codes(text),
        },
        None => parse_color_codes(text),
    }
}

/// `text` in the one colour `color`: the colour's marker is put in front
/// and the whole is parsed, so that markers in `text` still count. Text
/// without the escape character comes back as one run in that colour.
pub fn apply_simple_color(text: &str, color: NamedColor) -> (result: StyledText)
    ensures
        result@ == parse_spec(color_prefixed(color, text@)),
        text@.len() > 0 && !text@.contains(ESCAPE) ==> result@ == seq![
            RunView { text: text@, color: Some(Color::Named(color)), format: None },
        ],
{
    let mut marked = String::new();
    marked.push(ESCAPE);
    marked.push(color_to_code(color));
    marked.append(text);
    assert(marked@ =~= color_prefixed(color, text@));
    proof {
        if text@.len() > 0 && !text@.contains(ESCAPE) {
            lemma_parse_color_prefix(color, text@);
        }
    }
    parse_color_codes(marked.as_str())
}

/// `text` in the style `style`; see [`styled_runs`].
pub fn apply_style(
    text: &str,
    style: Option<&ChatColorStyle>,
    keep_markers: bool,
    config: Option<&PluginConfig>,
) -> (result: StyledText)
    ensures
        result@ == styled_runs(text@, chosen(style), keep_markers, given(config)),
{
    match style {
        None => parse_color_codes(text),
        Some(ChatColorStyle::Simple(color)) => {
            if keep_markers && contains_escape(&chars_of(text)) {
                parse_color_codes(text)
            } else {
                apply_simple_color(text, *color)
            }
        },
        Some(ChatColorStyle::Rainbow) => apply_rainbow_gradient(text),
        Some(ChatColorStyle::Fire) => apply_fire_gradient(text),
        Some(ChatColorStyle::CustomGradient(name)) => apply_custom_gradient(
            text,
            name.as_str(),
            config,
        ),
    }
}

/// A chat line as it goes out: the styled message and the styled name of
/// its sender.
#[derive(Clone, Debug, PartialEq, Eq)]
pub struct ChatLine {
    pub message: StyledText,
    pub name: StyledText,
}

/// The handler of chat events.
#[derive(Clone, Copy, Debug, PartialEq, Eq, Structural)]
pub struct ChatEventHandler;

impl ChatEventHandler {
    /// What goes out in place of a chat line, `None` where the line is left
    /// as it is: that is, where the sender has chosen a style neither for
    /// the chat nor for the name. Else the message is styled by the chat
    /// style, its own markers deciding where it has any, and the name by
    /// the name style.
    pub fn format(
        &self,
        chat_style: Option<&ChatColorStyle>,
        name_style: Option<&ChatColorStyle>,
        message: &str,
        player_name: &str,
        config: Option<&PluginConfig>,
    ) -> (line: Option<ChatLine>)
        ensures
            line is None <==> chat_style is None && name_style is None,
            line matches Some(l) ==> {
                &&& l.message@ == styled_runs(message@, chosen(chat_style), true, given(config))
                &&& l.name@ == styled_runs(player_name@, chosen(name_style), false, given(config))
            },
    {
        if chat_style.is_none() && name_style.is_none() {
            return None;
        }
        let message = apply_style(message, chat_style, true, config);
        let name = apply_style(player_name, name_style, false, config);
        Some(ChatLine { message, name })
    }
}

} // verus!
