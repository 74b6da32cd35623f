//! The `/chatcolor` command, and the styles of the configuration.

use vstd::prelude::*;

use crate::color_parser::{color_of_code, parse_color_code};
use crate::commands::{command_outcome, decide, texts, CommandOutcome};
use crate::config::{
    color_index, gradient_index, style_view, ChatColorStyle, PluginConfig, StyleView,
};
use crate::strings::{chars_of, lowercase_text, to_lowercase};
use crate::text::NamedColor;

verus! {

/// The character that introduces a colour code in the configuration.
pub const SECTION_SIGN: char = '§';

/// The colour that a configured code stands for: the section sign and one
/// colour code character, nothing else.
pub open spec fn section_color(code: Seq<char>) -> Option<NamedColor> {
    if code.len() == 2 && code[0] == SECTION_SIGN {
        color_of_code(code[1])
    } else {
        None
    }
}

/// The palette colour of a configured code such as `§c`.
pub fn parse_color_code_section(code: &str) -> (color: Option<NamedColor>)
    ensures
        color == section_color(code@),
{
    let chars = chars_of(code);
    if chars.len() != 2 || chars[0] != SECTION_SIGN {
        return None;
    }
    parse_color_code(chars[1])
}

/// The style that the configuration gives the lower-case name `name`: the
/// colour of its code where it names a colour with a well-formed code, else
/// the gradient of that name where there is one.
pub open spec fn config_style(name: Seq<char>, config: Option<PluginConfig>) -> Option<StyleView> {
    match config {
        None => None,
        Some(config) => {
            let simple = match color_index(config.simple_colors@, name) {
                Some(i) => section_color(config.simple_colors@[i].1@),
                None => None,
            };
            match simple {
                Some(c) => Some(StyleView::Simple(c)),
                None => if gradient_index(config.gradients@, name) is Some {
                    Some(StyleView::CustomGradient(name))
                } else {
                    None
                },
            }
        },
    }
}

/// The style that the configuration gives the lower-case name `name`.
pub fn style_in_config(name: &str, config: Option<&PluginConfig>) -> (style: Option<
    ChatColorStyle,
>)
    ensures
        style_view(style) == config_style(
            name@,
            match config {
                Some(c) => Some(*c),
                None => None,
            },
        ),
{
    match config {
        None => None,
        Some(config) => {
            if let Some(code) = config.color_code(name) {
                if let Some(c) = parse_color_code_section(code.as_str()) {
                    return Some(ChatColorStyle::Simple(c));
                }
            }
            if config.gradient(name).is_some() {
                Some(ChatColorStyle::CustomGradient(name.to_owned()))
            } else {
                None
            }
        },
    }
}

/// The style that the configuration gives `color_name`, whatever its case.
pub fn get_style_from_config(color_name: &str, config: Option<&PluginConfig>) -> (style: Option<
    ChatColorStyle,
>)
    ensures
        style_view(style) == config_style(
            lowercase_text(color_name@),
            match config {
                Some(c) => Some(*c),
                None => None,
            },
        ),
{
    let lowered = to_lowercase(color_name);
    style_in_config(lowered.as_str(), config)
}

/// The names that the configuration knows: its colours, then its
/// gradients.
pub open spec fn config_names(config: Option<PluginConfig>) -> Seq<Seq<char>> {
    match config {
        None => Seq::empty(),
        Some(config) => Seq::new(config.simple_colors@.len(), |i: int| config.simple_colors@[i].0@)
            + Seq::new(config.gradients@.len(), |i: int| config.gradients@[i].0@),
    }
}

/// The names that the configuration knows.
pub fn get_available_colors(config: Option<&PluginConfig>) -> (colors: Vec<String>)
    ensures
        texts(colors@) == config_names(
            match config {
                Some(c) => Some(*c),
                None => None,
            },
        ),
{
    let mut colors: Vec<String> = Vec::new();
    if let Some(config) = config {
        let ghost simple = Seq::new(
            config.simple_colors@.len(),
            |i: int| config.simple_colors@[i].0@,
        );
        let ghost custom = Seq::new(config.gradients@.len(), |i: int| config.gradients@[i].0@);
        let mut i: usize = 0;
        while i < config.simple_colors.len()
            invariant
                i <= config.simple_colors.len(),
                simple == Seq::new(
                    config.simple_colors@.len(),
                    |i: int| config.simple_colors@[i].0@,
                ),
                texts(colors@) =~= simple.take(i as int),
            decreases config.simple_colors.len() - i,
        {
            let ghost before = colors@;
            colors.push(config.simple_colors[i].0.clone());
            assert(texts(colors@) =~= texts(before).push(simple[i as int]));
            i += 1;
        }
        assert(simple.take(i as int) =~= simple);
        let mut j: usize = 0;
        while j < config.gradients.len()
            invariant
                j <= config.gradients.len(),
                simple.len() == config.simple_colors@.len(),
                custom == Seq::new(config.gradients@.len(), |i: int| config.gradients@[i].0@),
                texts(colors@) =~= simple + custom.take(j as int),
            decreases config.gradients.len() - j,
        {
            let ghost before = colors@;
            colors.push(config.gradients[j].0.clone());
            assert(texts(colors@) =~= texts(before).push(custom[j as int]));
            j += 1;
        }
        assert(custom.take(j as int) =~= custom);
    } else {
        assert(texts(colors@) =~= Seq::empty());
    }
    colors
}

/// The `/chatcolor` command.
#[derive(Clone, Copy, Debug, PartialEq, Eq, Structural)]
pub struct ChatColorExecutor;

impl ChatColorExecutor {
    /// What the command does for a sender who is or is not a player, at a
    /// permission level, with the name `color_str` in any case.
    pub fn decide(&self, is_player: bool, level: u8, color_str: &str) -> (outcome: CommandOutcome)
        ensures
            outcome@ == command_outcome("chat"@, is_player, level, lowercase_text(color_str@)),
    {
        decide("chat", is_player, level, color_str)
    }
}

} // verus!
