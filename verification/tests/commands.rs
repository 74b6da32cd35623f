use chat_color::commands::chatcolor::{
    get_available_colors, get_style_from_config, parse_color_code_section, style_in_config,
    ChatColorExecutor,
};
use chat_color::commands::namecolor::{
    get_available_colors as name_colors, get_style_from_config as name_style, style_for_name,
    NameColorExecutor,
};
use chat_color::commands::{
    color_name, decide, decide_named, feedback, join_names, known_colors, named_color,
    named_style, unknown_reply, CommandOutcome, REQUIRED_LEVEL,
};
use chat_color::config::{ChatColorStyle, PluginConfig};
use chat_color::text::NamedColor;

const UNKNOWN: &str = "Unknown color or style. Available: \
    red, blue, green, yellow, purple, aqua, white, gray, rainbow, fire";
const DENIED: &str = "You must be OP to use this command.";

#[test]
fn section_codes_are_read() {
    assert_eq!(parse_color_code_section("§c"), Some(NamedColor::Red));
    assert_eq!(parse_color_code_section("§0"), Some(NamedColor::Black));
    assert_eq!(parse_color_code_section("§f"), Some(NamedColor::White));
    assert_eq!(parse_color_code_section("§d"), Some(NamedColor::LightPurple));
}

#[test]
fn malformed_section_codes_are_refused() {
    assert_eq!(parse_color_code_section(""), None);
    assert_eq!(parse_color_code_section("§"), None);
    assert_eq!(parse_color_code_section("c"), None);
    assert_eq!(parse_color_code_section("&c"), None);
    assert_eq!(parse_color_code_section("§x"), None);
    assert_eq!(parse_color_code_section("§l"), None);
    assert_eq!(parse_color_code_section("§C"), None);
    assert_eq!(parse_color_code_section("§cc"), None);
    assert_eq!(parse_color_code_section("c§"), None);
}

#[test]
fn names_of_the_commands() {
    assert_eq!(named_color("red"), Some(NamedColor::Red));
    assert_eq!(named_color("blue"), Some(NamedColor::Blue));
    assert_eq!(named_color("green"), Some(NamedColor::Green));
    assert_eq!(named_color("yellow"), Some(NamedColor::Yellow));
    assert_eq!(named_color("purple"), Some(NamedColor::LightPurple));
    assert_eq!(named_color("aqua"), Some(NamedColor::Aqua));
    assert_eq!(named_color("white"), Some(NamedColor::White));
    assert_eq!(named_color("gray"), Some(NamedColor::Gray));
    assert_eq!(named_color("rainbow"), None);
    assert_eq!(named_color("Red"), None);
    assert_eq!(named_color("re"), None);
    assert_eq!(named_color("redd"), None);
    assert_eq!(named_color(""), None);
    assert_eq!(named_color("black"), None);
}

#[test]
fn styles_of_the_commands() {
    assert_eq!(named_style("rainbow"), Some(ChatColorStyle::Rainbow));
    assert_eq!(named_style("fire"), Some(ChatColorStyle::Fire));
    assert_eq!(named_style("aqua"), Some(ChatColorStyle::Simple(NamedColor::Aqua)));
    assert_eq!(named_style("ocean"), None);
    assert_eq!(named_style("FIRE"), None);
    assert_eq!(style_for_name("rainbow"), None);
    assert_eq!(style_for_name("gray"), Some(ChatColorStyle::Simple(NamedColor::Gray)));
}

#[test]
fn name_style_ignores_case() {
    assert_eq!(name_style("PURPLE"), Some(ChatColorStyle::Simple(NamedColor::LightPurple)));
    assert_eq!(name_style("Red"), Some(ChatColorStyle::Simple(NamedColor::Red)));
    assert_eq!(name_style("red"), Some(ChatColorStyle::Simple(NamedColor::Red)));
    assert_eq!(name_style("rainbow"), None);
    assert_eq!(name_style(""), None);
}

#[test]
fn config_style_of_a_color() {
    let config = PluginConfig::defaults();
    assert_eq!(
        get_style_from_config("red", Some(&config)),
        Some(ChatColorStyle::Simple(NamedColor::Red))
    );
    assert_eq!(
        get_style_from_config("Dark_Red", Some(&config)),
        Some(ChatColorStyle::Simple(NamedColor::DarkRed))
    );
    assert_eq!(
        get_style_from_config("PURPLE", Some(&config)),
        Some(ChatColorStyle::Simple(NamedColor::DarkPurple))
    );
    assert_eq!(style_in_config("PURPLE", Some(&config)), None);
}

#[test]
fn config_style_of_a_gradient() {
    let config = PluginConfig::defaults();
    assert_eq!(
        get_style_from_config("Ocean", Some(&config)),
        Some(ChatColorStyle::CustomGradient("ocean".to_string()))
    );
    assert_eq!(
        get_style_from_config("fire", Some(&config)),
        Some(ChatColorStyle::CustomGradient("fire".to_string()))
    );
    assert_eq!(get_style_from_config("nothing", Some(&config)), None);
    assert_eq!(get_style_from_config("", Some(&config)), None);
    assert_eq!(get_style_from_config("red", None), None);
}

#[test]
fn config_color_with_a_bad_code_falls_to_the_gradient() {
    let mut config = PluginConfig::defaults();
    config.simple_colors.insert(0, ("ocean".to_string(), "blue".to_string()));
    config.simple_colors.insert(0, ("odd".to_string(), "§z".to_string()));
    assert_eq!(
        get_style_from_config("ocean", Some(&config)),
        Some(ChatColorStyle::CustomGradient("ocean".to_string()))
    );
    assert_eq!(get_style_from_config("odd", Some(&config)), None);
}

#[test]
fn first_entry_of_a_name_counts() {
    let mut config = PluginConfig::defaults();
    config.simple_colors.push(("red".to_string(), "§9".to_string()));
    assert_eq!(
        get_style_from_config("red", Some(&config)),
        Some(ChatColorStyle::Simple(NamedColor::Red))
    );
    config.simple_colors.insert(0, ("red".to_string(), "§1".to_string()));
    assert_eq!(
        get_style_from_config("red", Some(&config)),
        Some(ChatColorStyle::Simple(NamedColor::DarkBlue))
    );
}

#[test]
fn available_colors_of_the_config() {
    let config = PluginConfig::defaults();
    let names = get_available_colors(Some(&config));
    assert_eq!(
        names,
        vec![
            "red", "dark_red", "blue", "dark_blue", "green", "dark_green", "yellow", "gold",
            "purple", "light_purple", "aqua", "dark_aqua", "white", "gray", "dark_gray", "black",
            "rainbow", "fire", "ocean", "sunset", "forest",
        ]
    );
    assert_eq!(get_available_colors(None), Vec::<String>::new());
}

#[test]
fn available_colors_of_the_commands() {
    let expected =
        vec!["red", "blue", "green", "yellow", "purple", "aqua", "white", "gray", "rainbow", "fire"];
    assert_eq!(name_colors(), expected);
    assert_eq!(known_colors(), expected);
}

#[test]
fn names_are_joined_with_commas() {
    assert_eq!(join_names(&vec![]), "");
    assert_eq!(join_names(&vec!["a".to_string()]), "a");
    assert_eq!(join_names(&vec!["a".to_string(), "b".to_string()]), "a, b");
    assert_eq!(join_names(&vec!["a".to_string(), "".to_string(), "c".to_string()]), "a, , c");
    assert_eq!(unknown_reply(&known_colors()), UNKNOWN);
    assert_eq!(unknown_reply(&vec![]), "Unknown color or style. Available: ");
}

#[test]
fn color_names_for_the_sender() {
    let all = [
        (NamedColor::Black, "Black"),
        (NamedColor::DarkBlue, "DarkBlue"),
        (NamedColor::DarkGreen, "DarkGreen"),
        (NamedColor::DarkAqua, "DarkAqua"),
        (NamedColor::DarkRed, "DarkRed"),
        (NamedColor::DarkPurple, "DarkPurple"),
        (NamedColor::Gold, "Gold"),
        (NamedColor::Gray, "Gray"),
        (NamedColor::DarkGray, "DarkGray"),
        (NamedColor::Blue, "Blue"),
        (NamedColor::Green, "Green"),
        (NamedColor::Aqua, "Aqua"),
        (NamedColor::Red, "Red"),
        (NamedColor::LightPurple, "LightPurple"),
        (NamedColor::Yellow, "Yellow"),
        (NamedColor::White, "White"),
    ];
    for (color, name) in all {
        assert_eq!(color_name(color), name);
        assert_eq!(format!("{:?}", color), name);
    }
}

#[test]
fn feedback_names_the_style() {
    assert_eq!(
        feedback("chat", &ChatColorStyle::Simple(NamedColor::LightPurple)),
        "Your chat color is now set to LightPurple"
    );
    assert_eq!(
        feedback("chat", &ChatColorStyle::Rainbow),
        "Your chat color is now set to RAINBOW! 🌈"
    );
    assert_eq!(feedback("name", &ChatColorStyle::Fire), "Your name color is now set to FIRE! 🔥");
    assert_eq!(
        feedback("name", &ChatColorStyle::CustomGradient("ocean".to_string())),
        "Your name color is now set to ocean gradient!"
    );
}

#[test]
fn a_sender_who_is_no_player_fails() {
    assert_eq!(ChatColorExecutor.decide(false, 4, "red"), CommandOutcome::NotAPlayer);
    assert_eq!(NameColorExecutor.decide(false, 0, "red"), CommandOutcome::NotAPlayer);
    assert_eq!(NameColorExecutor.decide(false, 4, ""), CommandOutcome::NotAPlayer);
}

#[test]
fn a_player_below_the_level_is_turned_away() {
    assert_eq!(REQUIRED_LEVEL, 1);
    assert_eq!(ChatColorExecutor.decide(true, 0, "red"), CommandOutcome::Reply(DENIED.to_string()));
    assert_eq!(
        NameColorExecutor.decide(true, 0, "nothing"),
        CommandOutcome::Reply(DENIED.to_string())
    );
}

#[test]
fn chat_command_sets_a_style() {
    assert_eq!(
        ChatColorExecutor.decide(true, 1, "Red"),
        CommandOutcome::SetStyle {
            style: ChatColorStyle::Simple(NamedColor::Red),
            feedback: "Your chat color is now set to Red".to_string(),
        }
    );
    assert_eq!(
        ChatColorExecutor.decide(true, 4, "RAINBOW"),
        CommandOutcome::SetStyle {
            style: ChatColorStyle::Rainbow,
            feedback: "Your chat color is now set to RAINBOW! 🌈".to_string(),
        }
    );
    assert_eq!(
        ChatColorExecutor.decide(true, 2, "fire"),
        CommandOutcome::SetStyle {
            style: ChatColorStyle::Fire,
            feedback: "Your chat color is now set to FIRE! 🔥".to_string(),
        }
    );
}

#[test]
fn name_command_sets_a_style() {
    assert_eq!(
        NameColorExecutor.decide(true, 1, "purple"),
        CommandOutcome::SetStyle {
            style: ChatColorStyle::Simple(NamedColor::LightPurple),
            feedback: "Your name color is now set to LightPurple".to_string(),
        }
    );
    assert_eq!(
        NameColorExecutor.decide(true, 1, "Fire"),
        CommandOutcome::SetStyle {
            style: ChatColorStyle::Fire,
            feedback: "Your name color is now set to FIRE! 🔥".to_string(),
        }
    );
}

#[test]
fn an_unknown_name_lists_the_known_ones() {
    assert_eq!(ChatColorExecutor.decide(true, 1, ""), CommandOutcome::Reply(UNKNOWN.to_string()));
    assert_eq!(
        ChatColorExecutor.decide(true, 1, "black"),
        CommandOutcome::Reply(UNKNOWN.to_string())
    );
    assert_eq!(
        NameColorExecutor.decide(true, 3, "ocean"),
        CommandOutcome::Reply(UNKNOWN.to_string())
    );
}

#[test]
fn the_name_counts_in_lower_case() {
    assert_eq!(decide("chat", true, 1, "GrAy"), decide_named("chat", true, 1, "gray"));
    assert_eq!(
        decide_named("chat", true, 1, "GrAy"),
        CommandOutcome::Reply(UNKNOWN.to_string())
    );
    assert_eq!(
        decide("chat", true, 1, "GrAy"),
        CommandOutcome::SetStyle {
            style: ChatColorStyle::Simple(NamedColor::Gray),
            feedback: "Your chat color is now set to Gray".to_string(),
        }
    );
}
