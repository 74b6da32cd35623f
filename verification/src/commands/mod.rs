//! What the `/chatcolor` and `/namecolor` commands decide: which style a
//! name stands for, who may set one, and what the sender is told.

pub mod chatcolor;
pub mod namecolor;

use vstd::prelude::*;
use vstd::string::StringExecFns;

use crate::config::{style_view, ChatColorStyle, StyleView};
use crate::strings::{lowercase_text, same_text, to_lowercase};
use crate::text::NamedColor;

verus! {

/// The colour that a lower-case name stands for in the commands.
pub open spec fn color_by_name(name: Seq<char>) -> Option<NamedColor> {
    if name == "red"@ {
        Some(NamedColor::Red)
    } else if name == "blue"@ {
        Some(NamedColor::Blue)
    } else if name == "green"@ {
        Some(NamedColor::Green)
    } else if name == "yellow"@ {
        Some(NamedColor::Yellow)
    } else if name == "purple"@ {
        Some(NamedColor::LightPurple)
    } else if name == "aqua"@ {
        Some(NamedColor::Aqua)
    } else if name == "white"@ {
        Some(NamedColor::White)
    } else if name == "gray"@ {
        Some(NamedColor::Gray)
    } else {
        None
    }
}

/// The style that a lower-case name stands for in the commands: one of the
/// two built-in gradients, or a colour.
pub open spec fn style_by_name(name: Seq<char>) -> Option<StyleView> {
    if name == "rainbow"@ {
        Some(StyleView::Rainbow)
    } else if name == "fire"@ {
        Some(StyleView::Fire)
    } else {
        match color_by_name(name) {
            Some(c) => Some(StyleView::Simple(c)),
            None => None,
        }
    }
}

/// The colour that the lower-case name `name` stands for in the commands.
pub fn named_color(name: &str) -> (color: Option<NamedColor>)
    ensures
        color == color_by_name(name@),
{
    if same_text(name, "red") {
        Some(NamedColor::Red)
    } else if same_text(name, "blue") {
        Some(NamedColor::Blue)
    } else if same_text(name, "green") {
        Some(NamedColor::Green)
    } else if same_text(name, "yellow") {
        Some(NamedColor::Yellow)
    } else if same_text(name, "purple") {
        Some(NamedColor::LightPurple)
    } else if same_text(name, "aqua") {
        Some(NamedColor::Aqua)
    } else if same_text(name, "white") {
        Some(NamedColor::White)
    } else if same_text(name, "gray") {
        Some(NamedColor::Gray)
    } else {
        None
    }
}

/// The style that the lower-case name `name` stands for in the commands.
pub fn named_style(name: &str) -> (style: Option<ChatColorStyle>)
    ensures
        style_view(style) == style_by_name(name@),
{
    if same_text(name, "rainbow") {
        Some(ChatColorStyle::Rainbow)
    } else if same_text(name, "fire") {
        Some(ChatColorStyle::Fire)
    } else {
        match named_color(name) {
            Some(c) => Some(ChatColorStyle::Simple(c)),
            None => None,
        }
    }
}

/// The name of a palette colour as the sender reads it.
pub open spec fn color_label(color: NamedColor) -> Seq<char> {
    match color {
        NamedColor::Black => "Black"@,
        NamedColor::DarkBlue => "DarkBlue"@,
        NamedColor::DarkGreen => "DarkGreen"@,
        NamedColor::DarkAqua => "DarkAqua"@,
        NamedColor::DarkRed => "DarkRed"@,
        NamedColor::DarkPurple => "DarkPurple"@,
        NamedColor::Gold => "Gold"@,
        NamedColor::Gray => "Gray"@,
        NamedColor::DarkGray => "DarkGray"@,
        NamedColor::Blue => "Blue"@,
        NamedColor::Green => "Green"@,
        NamedColor::Aqua => "Aqua"@,
        NamedColor::Red => "Red"@,
        NamedColor::LightPurple => "LightPurple"@,
        NamedColor::Yellow => "Yellow"@,
        NamedColor::White => "White"@,
    }
}

/// The name of a palette colour as the sender reads it.
pub fn color_name(color: NamedColor) -> (name: &'static str)
    ensures
        name@ == color_label(color),
{
    match color {
        NamedColor::Black => "Black",
        NamedColor::DarkBlue => "DarkBlue",
        NamedColor::DarkGreen => "DarkGreen",
        NamedColor::DarkAqua => "DarkAqua",
        NamedColor::DarkRed => "DarkRed",
        NamedColor::DarkPurple => "DarkPurple",
        NamedColor::Gold => "Gold",
        NamedColor::Gray => "Gray",
        NamedColor::DarkGray => "DarkGray",
        NamedColor::Blue => "Blue",
        NamedColor::Green => "Green",
        NamedColor::Aqua => "Aqua",
        NamedColor::Red => "Red",
        NamedColor::LightPurple => "LightPurple",
        NamedColor::Yellow => "Yellow",
        NamedColor::White => "White",
    }
}

/// How the feedback names a style.
pub open spec fn style_label(style: StyleView) -> Seq<char> {
    match style {
        StyleView::Simple(c) => color_label(c),
        StyleView::Rainbow => "RAINBOW! 🌈"@,
        StyleView::Fire => "FIRE! 🔥"@,
        StyleView::CustomGradient(name) => name + " gradient!"@,
    }
}

/// What a sender is told who has set the style of `target`, which is the
/// chat or the name.
pub open spec fn feedback_text(target: Seq<char>, style: StyleView) -> Seq<char> {
    "Your "@ + target + " color is now set to "@ + style_label(style)
}

/// What a sender is told who has set the style of `target`.
pub fn feedback(target: &str, style: &ChatColorStyle) -> (text: String)
    ensures
        text@ == feedback_text(target@, style@),
{
    let mut text = "Your ".to_owned();
    text.append(target);
    text.append(" color is now set to ");
    match style {
        ChatColorStyle::Simple(c) => {
            text.append(color_name(*c));
        },
        ChatColorStyle::Rainbow => {
            text.append("RAINBOW! 🌈");
        },
        ChatColorStyle::Fire => {
            text.append("FIRE! 🔥");
        },
        ChatColorStyle::CustomGradient(name) => {
            text.append(name.as_str());
            text.append(" gradient!");
            assert(text@ =~= feedback_text(target@, style@));
        },
    }
    text
}

/// The texts of `names`, in the same order.
pub open spec fn texts(names: Seq<String>) -> Seq<Seq<char>> {
    Seq::new(names.len(), |i: int| names[i]@)
}

/// The names one after the other, a comma and a space between two.
pub open spec fn joined_names(names: Seq<Seq<char>>) -> Seq<char>
    decreases names.len(),
{
    if names.len() == 0 {
        Seq::empty()
    } else if names.len() == 1 {
        names[0]
    } else {
        joined_names(names.drop_last()) + ", "@ + names.last()
    }
}

/// The names one after the other, a comma and a space between two.
pub fn join_names(names: &Vec<String>) -> (joined: String)
    ensures
        joined@ == joined_names(texts(names@)),
{
    let mut joined = String::new();
    let mut i: usize = 0;
    while i < names.len()
        invariant
            i <= names.len(),
            joined@ == joined_names(texts(names@).take(i as int)),
        decreases names.len() - i,
    {
        let ghost before = texts(names@).take(i as int);
        let ghost after = texts(names@).take(i + 1);
        assert(after.drop_last() =~= before);
        assert(after.last() == names@[i as int]@);
        if i > 0 {
            joined.append(", ");
        }
        joined.append(names[i].as_str());
        assert(joined@ =~= joined_names(after));
        i += 1;
    }
    assert(texts(names@).take(i as int) =~= texts(names@));
    joined
}

/// The names that the commands know, in the order in which the sender
/// reads them.
pub open spec fn known_names() -> Seq<Seq<char>> {
    seq![
        "red"@,
        "blue"@,
        "green"@,
        "yellow"@,
        "purple"@,
        "aqua"@,
        "white"@,
        "gray"@,
        "rainbow"@,
        "fire"@,
    ]
}

/// What a sender is told whose name stands for no style.
pub open spec fn unknown_text(names: Seq<Seq<char>>) -> Seq<char> {
    "Unknown color or style. Available: "@ + joined_names(names)
}

/// What a sender is told who may not use the command.
pub open spec fn denied_text() -> Seq<char> {
    "You must be OP to use this command."@
}

/// The lowest permission level that may use the commands.
pub const REQUIRED_LEVEL: u8 = 1;

/// What a command does with a request, as a mathematical value.
pub enum OutcomeView {
    NotAPlayer,
    Reply(Seq<char>),
    SetStyle { style: StyleView, feedback: Seq<char> },
}

/// What a command does with a request.
#[derive(Clone, Debug, PartialEq, Eq)]
pub enum CommandOutcome {
    /// The sender is no player: the command fails.
    NotAPlayer,
    /// The sender is told this; nothing changes.
    Reply(String),
    /// The style becomes the player's, who is told so.
    SetStyle { style: ChatColorStyle, feedback: String },
}

impl View for CommandOutcome {
    type V = OutcomeView;

    open spec fn view(&self) -> OutcomeView {
        match self {
            CommandOutcome::NotAPlayer => OutcomeView::NotAPlayer,
            CommandOutcome::Reply(text) => OutcomeView::Reply(text@),
            CommandOutcome::SetStyle { style, feedback } => OutcomeView::SetStyle {
                style: style@,
                feedback: feedback@,
            },
        }
    }
}

/// What a command for the style of `target` does for a sender who is or is
/// not a player, at a permission level, with the lower-case name `name`:
/// it fails for one who is no player, turns away a player below the
/// required level, sets the style that the name stands for, and lists the
/// known names where it stands for none.
pub open spec fn command_outcome(
    target: Seq<char>,
    is_player: bool,
    level: u8,
    name: Seq<char>,
) -> OutcomeView {
    if !is_player {
        OutcomeView::NotAPlayer
    } else if level < REQUIRED_LEVEL {
        OutcomeView::Reply(denied_text())
    } else {
        match style_by_name(name) {
            Some(style) => OutcomeView::SetStyle { style, feedback: feedback_text(target, style) },
            None => OutcomeView::Reply(unknown_text(known_names())),
        }
    }
}

/// The names that the commands know.
pub fn known_colors() -> (names: Vec<String>)
    ensures
        texts(names@) == known_names(),
{
    let mut names: Vec<String> = Vec::new();
    names.push("red".to_owned());
    names.push("blue".to_owned());
    names.push("green".to_owned());
    names.push("yellow".to_owned());
    names.push("purple".to_owned());
    names.push("aqua".to_owned());
    names.push("white".to_owned());
    names.push("gray".to_owned());
    names.push("rainbow".to_owned());
    names.push("fire".to_owned());
    assert(texts(names@) =~= known_names());
    names
}

/// What the sender is told whose name stands for none of `names`.
pub fn unknown_reply(names: &Vec<String>) -> (text: String)
    ensures
        text@ == unknown_text(texts(names@)),
{
    let mut text = "Unknown color or style. Available: ".to_owned();
    let list = join_names(names);
    text.append(list.as_str());
    text
}

/// Decides a request whose name is in lower case already.
pub fn decide_named(target: &str, is_player: bool, level: u8, name: &str) -> (outcome:
    CommandOutcome)
    ensures
        outcome@ == command_outcome(target@, is_player, level, name@),
{
    if !is_player {
        return CommandOutcome::NotAPlayer;
    }
    if level < REQUIRED_LEVEL {
        return CommandOutcome::Reply("You must be OP to use this command.".to_owned());
    }
    match named_style(name) {
        Some(style) => {
            let feedback = feedback(target, &style);
            CommandOutcome::SetStyle { style, feedback }
        },
        None => {
            let names = known_colors();
            CommandOutcome::Reply(unknown_reply(&names))
        },
    }
}

/// Decides a request: the name counts whatever its case.
pub fn decide(target: &str, is_player: bool, level: u8, color_str: &str) -> (outcome:
    CommandOutcome)
    ensures
        outcome@ == command_outcome(target@, is_player, level, lowercase_text(color_str@)),
{
    let lowered = to_lowercase(color_str);
    decide_named(target, is_player, level, lowered.as_str())
}

} // verus!
