//! The `/namecolor` command.

use vstd::prelude::*;

use crate::commands::{
    color_by_name, command_outcome, decide, known_colors, known_names, named_color, texts,
    CommandOutcome,
};
use crate::config::{style_view, ChatColorStyle, StyleView};
use crate::strings::{lowercase_text, to_lowercase};

verus! {

/// The colour style that a lower-case name stands for.
pub open spec fn default_style(name: Seq<char>) -> Option<StyleView> {
    match color_by_name(name) {
        Some(c) => Some(StyleView::Simple(c)),
        None => None,
    }
}

/// The colour style that the lower-case name `color_name` stands for.
pub fn style_for_name(color_name: &str) -> (style: Option<ChatColorStyle>)
    ensures
        style_view(style) == default_style(color_name@),
{
    match named_color(color_name) {
        Some(c) => Some(ChatColorStyle::Simple(c)),
        None => None,
    }
}

/// The colour style that `color_name` stands for, whatever its case.
pub fn get_style_from_config(color_name: &str) -> (style: Option<ChatColorStyle>)
    ensures
        style_view(style) == default_style(lowercase_text(color_name@)),
{
    let lowered = to_lowercase(color_name);
    style_for_name(lowered.as_str())
}

/// The names that the command knows.
pub fn get_available_colors() -> (colors: Vec<String>)
    ensures
        texts(colors@) == known_names(),
{
    known_colors()
}

/// The `/namecolor` command.
#[derive(Clone, Copy, Debug, PartialEq, Eq, Structural)]
pub struct NameColorExecutor;

impl NameColorExecutor {
    /// What the command does for a sender who is or is not a player, at a
    /// permission level, with the name `color_str` in any case.
    pub fn decide(&self, is_player: bool, level: u8, color_str: &str) -> (outcome: CommandOutcome)
        ensures
            outcome@ == command_outcome("name"@, is_player, level, lowercase_text(color_str@)),
    {
        decide("name", is_player, level, color_str)
    }
}

} // verus!
