use chat_color::color_parser::{
    apply_format_code, parse_color_code, parse_color_codes, parse_format_code,
};
use chat_color::color_utils::{color_to_code, format_to_code};
use chat_color::text::{Color, FormatCode, NamedColor, RGBColor, StyledRun, StyledText};

fn run(text: &str, color: Option<NamedColor>, format: Option<FormatCode>) -> StyledRun {
    StyledRun { text: text.to_string(), color: color.map(Color::Named), format }
}

#[test]
fn test_parse_color_codes() {
    let result = parse_color_codes("&aHello &bWorld!");
    assert!(!result.get_text().is_empty());

    let result = parse_color_codes("&lBold &nUnderlined");
    assert!(!result.get_text().is_empty());

    let result = parse_color_codes("&aColored &rNormal");
    assert!(!result.get_text().is_empty());

    let result = parse_color_codes("&xInvalid");
    assert!(!result.get_text().is_empty());

    let result = parse_color_codes("Plain text");
    assert_eq!(result.get_text(), "Plain text");
}

#[test]
fn test_parse_color_code() {
    assert_eq!(parse_color_code('a'), Some(NamedColor::Green));
    assert_eq!(parse_color_code('b'), Some(NamedColor::Aqua));
    assert_eq!(parse_color_code('c'), Some(NamedColor::Red));
    assert_eq!(parse_color_code('x'), None);
}

#[test]
fn test_parse_format_code() {
    assert_eq!(parse_format_code('l'), Some(FormatCode::Bold));
    assert_eq!(parse_format_code('n'), Some(FormatCode::Underlined));
    assert_eq!(parse_format_code('o'), Some(FormatCode::Italic));
    assert_eq!(parse_format_code('x'), None);
}

#[test]
fn every_color_code_is_read() {
    let table = [
        ('0', NamedColor::Black),
        ('1', NamedColor::DarkBlue),
        ('2', NamedColor::DarkGreen),
        ('3', NamedColor::DarkAqua),
        ('4', NamedColor::DarkRed),
        ('5', NamedColor::DarkPurple),
        ('6', NamedColor::Gold),
        ('7', NamedColor::Gray),
        ('8', NamedColor::DarkGray),
        ('9', NamedColor::Blue),
        ('a', NamedColor::Green),
        ('b', NamedColor::Aqua),
        ('c', NamedColor::Red),
        ('d', NamedColor::LightPurple),
        ('e', NamedColor::Yellow),
        ('f', NamedColor::White),
    ];
    for (code, color) in table {
        assert_eq!(parse_color_code(code), Some(color));
        assert_eq!(color_to_code(color), code);
    }
}

#[test]
fn every_format_code_is_read() {
    assert_eq!(parse_format_code('l'), Some(FormatCode::Bold));
    assert_eq!(parse_format_code('n'), Some(FormatCode::Underlined));
    assert_eq!(parse_format_code('o'), Some(FormatCode::Italic));
    assert_eq!(parse_format_code('m'), Some(FormatCode::Strikethrough));
    assert_eq!(parse_format_code('k'), Some(FormatCode::Obfuscated));
    assert_eq!(parse_format_code('r'), None);
    assert_eq!(parse_format_code('a'), None);
}

#[test]
fn upper_case_codes_are_text() {
    assert_eq!(parse_color_code('A'), None);
    assert_eq!(parse_color_code('F'), None);
    assert_eq!(parse_format_code('L'), None);
    assert_eq!(parse_color_codes("&AHello").runs, vec![run("&AHello", None, None)]);
    assert_eq!(parse_color_codes("&RHello").runs, vec![run("&RHello", None, None)]);
}

#[test]
fn plain_input_is_one_plain_run() {
    for s in ["Plain text", "a", "hello world 123", "émoji ☃ ok", " "] {
        assert_eq!(parse_color_codes(s).runs, vec![run(s, None, None)]);
    }
}

#[test]
fn empty_input_is_one_empty_run() {
    assert_eq!(parse_color_codes("").runs, vec![run("", None, None)]);
}

#[test]
fn color_marker_colors_the_text() {
    assert_eq!(
        parse_color_codes("&aHello").runs,
        vec![run("Hello", Some(NamedColor::Green), None)]
    );
}

#[test]
fn two_colors_make_two_runs() {
    assert_eq!(
        parse_color_codes("&aHello &bWorld!").runs,
        vec![
            run("Hello ", Some(NamedColor::Green), None),
            run("World!", Some(NamedColor::Aqua), None),
        ]
    );
}

#[test]
fn format_replaces_format() {
    assert_eq!(
        parse_color_codes("&lBold &nUnderlined").runs,
        vec![
            run("Bold ", None, Some(FormatCode::Bold)),
            run("Underlined", None, Some(FormatCode::Underlined)),
        ]
    );
    assert_eq!(
        parse_color_codes("&l&nX").runs,
        vec![run("X", None, Some(FormatCode::Underlined))]
    );
}

#[test]
fn color_keeps_the_format() {
    assert_eq!(
        parse_color_codes("&lA&cB").runs,
        vec![
            run("A", None, Some(FormatCode::Bold)),
            run("B", Some(NamedColor::Red), Some(FormatCode::Bold)),
        ]
    );
    assert_eq!(
        parse_color_codes("&cA&lB").runs,
        vec![
            run("A", Some(NamedColor::Red), None),
            run("B", Some(NamedColor::Red), Some(FormatCode::Bold)),
        ]
    );
}

#[test]
fn reset_clears_color_and_format() {
    assert_eq!(
        parse_color_codes("&aColored &rNormal").runs,
        vec![run("Colored ", Some(NamedColor::Green), None), run("Normal", None, None)]
    );
    assert_eq!(
        parse_color_codes("&a&lX&rY").runs,
        vec![run("X", Some(NamedColor::Green), Some(FormatCode::Bold)), run("Y", None, None)]
    );
}

#[test]
fn unknown_code_is_text() {
    assert_eq!(parse_color_codes("&xInvalid").runs, vec![run("&xInvalid", None, None)]);
}

#[test]
fn lone_escape_is_text() {
    assert_eq!(parse_color_codes("&").runs, vec![run("&", None, None)]);
    assert_eq!(parse_color_codes("abc&").runs, vec![run("abc&", None, None)]);
    assert_eq!(parse_color_codes("&x").runs, vec![run("&x", None, None)]);
}

#[test]
fn escape_before_a_marker_is_text() {
    assert_eq!(parse_color_codes("&&aX").runs, vec![
        run("&", None, None),
        run("X", Some(NamedColor::Green), None),
    ]);
    assert_eq!(parse_color_codes("&&").runs, vec![run("&&", None, None)]);
}

#[test]
fn last_of_consecutive_colors_wins() {
    assert_eq!(
        parse_color_codes("&a&bHello").runs,
        vec![run("Hello", Some(NamedColor::Aqua), None)]
    );
}

#[test]
fn markers_without_text_give_the_empty_run() {
    assert_eq!(parse_color_codes("&r").runs, vec![run("", None, None)]);
    assert_eq!(parse_color_codes("&a").runs, vec![run("", None, None)]);
    assert_eq!(parse_color_codes("&a&l&r").runs, vec![run("", None, None)]);
}

#[test]
fn reset_without_style_emits_nothing() {
    assert_eq!(parse_color_codes("&rHello").runs, vec![run("Hello", None, None)]);
    assert_eq!(
        parse_color_codes("A&rB").runs,
        vec![run("A", None, None), run("B", None, None)]
    );
}

#[test]
fn text_reads_without_markers() {
    assert_eq!(parse_color_codes("&aHello &bWorld!").get_text(), "Hello World!");
    assert_eq!(parse_color_codes("&xInvalid").get_text(), "&xInvalid");
    assert_eq!(parse_color_codes("").get_text(), "");
    assert_eq!(StyledText { runs: vec![] }.get_text(), "");
}

#[test]
fn marked_text_parses_back() {
    for s in [
        "&aHello &bWorld!",
        "&lBold &nUnderlined",
        "&aColored &rNormal",
        "&xInvalid",
        "Plain text",
        "",
        "&",
        "a&&bc&",
        "&a&lX&rY&kZ&",
        "&aX&aY",
        "&r",
        "x&",
    ] {
        let first = parse_color_codes(s);
        let again = parse_color_codes(&first.to_marked_string());
        assert_eq!(again, first);
    }
}

#[test]
fn marked_runs_parse_back() {
    let runs = vec![
        run("one", Some(NamedColor::Gold), Some(FormatCode::Italic)),
        run("two&", None, Some(FormatCode::Strikethrough)),
        run("&three", Some(NamedColor::Black), None),
        run("&three", Some(NamedColor::Black), None),
        run("4", None, None),
    ];
    let text = StyledText { runs };
    assert_eq!(text.to_marked_string(), "&r&6&oone&r&mtwo&&r&0&three&r&0&three&r4");
    assert_eq!(parse_color_codes(&text.to_marked_string()), text);
}

#[test]
fn color_prefix_is_read_back() {
    let message = "hello there";
    for color in [NamedColor::Red, NamedColor::DarkGray, NamedColor::White] {
        let prefixed = format!("&{}{}", color_to_code(color), message);
        assert_eq!(parse_color_codes(&prefixed).runs, vec![run(message, Some(color), None)]);
    }
}

#[test]
fn format_is_applied_to_a_run() {
    let styled = apply_format_code(run("x", Some(NamedColor::Red), None), FormatCode::Bold);
    assert_eq!(styled, run("x", Some(NamedColor::Red), Some(FormatCode::Bold)));
    let again = apply_format_code(styled, FormatCode::Italic);
    assert_eq!(again, run("x", Some(NamedColor::Red), Some(FormatCode::Italic)));
}

#[test]
fn plain_run_constructor() {
    assert_eq!(StyledRun::text("abc".to_string()), run("abc", None, None));
}

#[test]
fn every_format_has_its_code() {
    let table = [
        (FormatCode::Bold, 'l'),
        (FormatCode::Underlined, 'n'),
        (FormatCode::Italic, 'o'),
        (FormatCode::Strikethrough, 'm'),
        (FormatCode::Obfuscated, 'k'),
    ];
    for (format, code) in table {
        assert_eq!(format_to_code(format), code);
        assert_eq!(parse_format_code(code), Some(format));
    }
}

#[test]
fn marked_text_of_special_cases() {
    assert_eq!(StyledText { runs: vec![] }.to_marked_string(), "");
    assert_eq!(parse_color_codes("").to_marked_string(), "&r");
    assert_eq!(parse_color_codes("plain").to_marked_string(), "&rplain");
    let exact = StyledRun {
        text: "x".to_string(),
        color: Some(Color::Rgb(RGBColor::new(1, 2, 3))),
        format: Some(FormatCode::Obfuscated),
    };
    assert_eq!(StyledText { runs: vec![exact] }.to_marked_string(), "&r&kx");
}

#[test]
fn text_is_the_input_without_markers() {
    for (input, visible) in [
        ("&aHello &bWorld!", "Hello World!"),
        ("&&a&", "&&"),
        ("&x&y&z", "&x&y&z"),
        ("&r&r&r", ""),
        ("a&lb&rc&", "abc&"),
    ] {
        assert_eq!(parse_color_codes(input).get_text(), visible);
    }
}
