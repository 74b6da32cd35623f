use chat_color::color_parser::parse_color_codes;
use chat_color::config::{ChatColorStyle, PluginConfig};
use chat_color::gradient::{apply_fire_gradient, apply_rainbow_gradient, rgb_stops};
use chat_color::handlers::chat_handler::{
    apply_custom_gradient, apply_simple_color, apply_style, ChatEventHandler, ChatLine,
};
use chat_color::text::{Color, FormatCode, NamedColor, StyledRun, StyledText};

fn run(text: &str, color: Option<NamedColor>, format: Option<FormatCode>) -> StyledRun {
    StyledRun { text: text.to_string(), color: color.map(Color::Named), format }
}

fn text(runs: Vec<StyledRun>) -> StyledText {
    StyledText { runs }
}

#[test]
fn a_line_without_styles_is_left_alone() {
    assert_eq!(ChatEventHandler.format(None, None, "&ahello", "Steve", None), None);
    let config = PluginConfig::defaults();
    assert_eq!(ChatEventHandler.format(None, None, "", "", Some(&config)), None);
}

#[test]
fn a_chat_color_colors_the_message() {
    let style = ChatColorStyle::Simple(NamedColor::Red);
    let line = ChatEventHandler.format(Some(&style), None, "hello", "Steve", None);
    assert_eq!(
        line,
        Some(ChatLine {
            message: text(vec![run("hello", Some(NamedColor::Red), None)]),
            name: text(vec![run("Steve", None, None)]),
        })
    );
}

#[test]
fn markers_in_the_message_decide() {
    let style = ChatColorStyle::Simple(NamedColor::Red);
    let line = ChatEventHandler.format(Some(&style), None, "a&bb", "Steve", None).unwrap();
    assert_eq!(
        line.message,
        text(vec![run("a", None, None), run("b", Some(NamedColor::Aqua), None)])
    );
    let line = ChatEventHandler.format(Some(&style), None, "100 & more", "Steve", None).unwrap();
    assert_eq!(line.message, text(vec![run("100 & more", None, None)]));
}

#[test]
fn a_name_color_is_always_put_in_front() {
    let style = ChatColorStyle::Simple(NamedColor::Gold);
    let line = ChatEventHandler.format(None, Some(&style), "&lhi", "St&eve", None).unwrap();
    assert_eq!(line.message, text(vec![run("hi", None, Some(FormatCode::Bold))]));
    assert_eq!(
        line.name,
        text(vec![run("St", Some(NamedColor::Gold), None), run("ve", Some(NamedColor::Yellow), None)])
    );
}

#[test]
fn gradients_style_message_and_name() {
    let line = ChatEventHandler
        .format(Some(&ChatColorStyle::Rainbow), Some(&ChatColorStyle::Fire), "hello", "Alex", None)
        .unwrap();
    assert_eq!(line.message, apply_rainbow_gradient("hello"));
    assert_eq!(line.name, apply_fire_gradient("Alex"));
}

#[test]
fn a_configured_gradient_is_applied() {
    let config = PluginConfig::defaults();
    let ocean = ChatColorStyle::CustomGradient("ocean".to_string());
    let line = ChatEventHandler.format(Some(&ocean), Some(&ocean), "waves", "Alex", Some(&config));
    let stops = vec![(0, 119, 190), (0, 191, 255), (135, 206, 235)];
    assert_eq!(
        line,
        Some(ChatLine { message: rgb_stops("waves", &stops), name: rgb_stops("Alex", &stops) })
    );
    assert_eq!(
        apply_custom_gradient("ab", "rainbow", Some(&config)),
        apply_rainbow_gradient("ab")
    );
}

#[test]
fn a_missing_gradient_leaves_the_markers_to_decide() {
    let config = PluginConfig::defaults();
    assert_eq!(
        apply_custom_gradient("&ahello", "nothing", Some(&config)),
        parse_color_codes("&ahello")
    );
    assert_eq!(apply_custom_gradient("&ahello", "ocean", None), parse_color_codes("&ahello"));
    let style = ChatColorStyle::CustomGradient("nothing".to_string());
    assert_eq!(
        apply_style("plain", Some(&style), true, Some(&config)),
        text(vec![run("plain", None, None)])
    );
}

#[test]
fn a_simple_color_goes_through_the_parser() {
    assert_eq!(
        apply_simple_color("hello", NamedColor::Blue),
        text(vec![run("hello", Some(NamedColor::Blue), None)])
    );
    assert_eq!(apply_simple_color("", NamedColor::Blue), text(vec![run("", None, None)]));
    assert_eq!(
        apply_simple_color("a&rb", NamedColor::Blue),
        text(vec![run("a", Some(NamedColor::Blue), None), run("b", None, None)])
    );
    // The text's first character can complete a marker of its own.
    assert_eq!(
        apply_simple_color("&x", NamedColor::Blue),
        text(vec![run("&x", Some(NamedColor::Blue), None)])
    );
}

#[test]
fn style_with_and_without_kept_markers() {
    let style = ChatColorStyle::Simple(NamedColor::Green);
    assert_eq!(
        apply_style("a&lb", Some(&style), true, None),
        text(vec![run("a", None, None), run("b", None, Some(FormatCode::Bold))])
    );
    assert_eq!(
        apply_style("a&lb", Some(&style), false, None),
        text(vec![
            run("a", Some(NamedColor::Green), None),
            run("b", Some(NamedColor::Green), Some(FormatCode::Bold)),
        ])
    );
    assert_eq!(apply_style("a&lb", None, false, None), parse_color_codes("a&lb"));
}
