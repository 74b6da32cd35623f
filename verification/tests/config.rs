use chat_color::config::{
    ChatColorStyle, GradientConfig, GradientMethod, PlayerData, PluginConfig, PluginData, Settings,
};
use chat_color::gradient::{GradientSpec, HsvSweep};
use chat_color::text::NamedColor;

fn hsv(
    start_hue: Option<u16>,
    end_hue: Option<u16>,
    saturation: Option<u16>,
    value: Option<u16>,
) -> GradientConfig {
    GradientConfig {
        method: GradientMethod::Hsv,
        start_hue,
        end_hue,
        saturation,
        value,
        colors: None,
    }
}

fn rgb(colors: Option<Vec<[u8; 3]>>) -> GradientConfig {
    GradientConfig {
        method: GradientMethod::RgbInterpolation,
        start_hue: None,
        end_hue: None,
        saturation: None,
        value: None,
        colors,
    }
}

#[test]
fn defaults_of_the_plugin() {
    let config = PluginConfig::defaults();
    assert_eq!(config.save_interval, 300);
    assert!(config.auto_save);
    assert_eq!(
        config.settings,
        Settings {
            default_chat_color: "white".to_string(),
            default_name_color: "white".to_string(),
        }
    );
    let colors: Vec<(&str, &str)> =
        config.simple_colors.iter().map(|(n, c)| (n.as_str(), c.as_str())).collect();
    assert_eq!(
        colors,
        vec![
            ("red", "§c"),
            ("dark_red", "§4"),
            ("blue", "§9"),
            ("dark_blue", "§1"),
            ("green", "§a"),
            ("dark_green", "§2"),
            ("yellow", "§e"),
            ("gold", "§6"),
            ("purple", "§5"),
            ("light_purple", "§d"),
            ("aqua", "§b"),
            ("dark_aqua", "§3"),
            ("white", "§f"),
            ("gray", "§7"),
            ("dark_gray", "§8"),
            ("black", "§0"),
        ]
    );
    assert_eq!(
        config.gradients,
        vec![
            ("rainbow".to_string(), hsv(Some(0), Some(360), Some(1000), Some(1000))),
            ("fire".to_string(), rgb(Some(vec![[255, 0, 0], [255, 165, 0], [255, 255, 0]]))),
            ("ocean".to_string(), rgb(Some(vec![[0, 119, 190], [0, 191, 255], [135, 206, 235]]))),
            (
                "sunset".to_string(),
                rgb(Some(vec![[255, 69, 0], [255, 140, 0], [255, 215, 0], [255, 20, 147]]))
            ),
            (
                "forest".to_string(),
                rgb(Some(vec![[34, 139, 34], [50, 205, 50], [144, 238, 144]]))
            ),
        ]
    );
}

#[test]
fn color_codes_are_found_by_name() {
    let config = PluginConfig::defaults();
    assert_eq!(config.color_code("red"), Some(&"§c".to_string()));
    assert_eq!(config.color_code("black"), Some(&"§0".to_string()));
    assert_eq!(config.color_code("Red"), None);
    assert_eq!(config.color_code("rainbow"), None);
    assert_eq!(config.color_code(""), None);
}

#[test]
fn gradients_are_found_by_name() {
    let config = PluginConfig::defaults();
    assert_eq!(
        config.gradient("rainbow"),
        Some(&hsv(Some(0), Some(360), Some(1000), Some(1000)))
    );
    assert_eq!(
        config.gradient("forest"),
        Some(&rgb(Some(vec![[34, 139, 34], [50, 205, 50], [144, 238, 144]])))
    );
    assert_eq!(config.gradient("red"), None);
    assert_eq!(config.gradient("Forest"), None);
}

#[test]
fn gradient_of_a_sweep() {
    assert_eq!(
        hsv(Some(10), Some(200), Some(500), Some(750)).to_spec(),
        GradientSpec::Hsv(HsvSweep { start_hue: 10, end_hue: 200, saturation: 500, value: 750 })
    );
    assert_eq!(
        hsv(None, None, None, None).to_spec(),
        GradientSpec::Hsv(HsvSweep { start_hue: 0, end_hue: 360, saturation: 1000, value: 1000 })
    );
    assert_eq!(
        hsv(None, Some(90), None, Some(1)).to_spec(),
        GradientSpec::Hsv(HsvSweep { start_hue: 0, end_hue: 90, saturation: 1000, value: 1 })
    );
}

#[test]
fn gradient_of_stops() {
    assert_eq!(
        rgb(Some(vec![[1, 2, 3], [4, 5, 6]])).to_spec(),
        GradientSpec::Rgb(vec![(1, 2, 3), (4, 5, 6)])
    );
    assert_eq!(rgb(Some(vec![])).to_spec(), GradientSpec::Rgb(vec![]));
    assert_eq!(rgb(None).to_spec(), GradientSpec::Rgb(vec![]));
}

#[test]
fn styles_are_copied() {
    for style in [
        ChatColorStyle::Simple(NamedColor::Gold),
        ChatColorStyle::Rainbow,
        ChatColorStyle::Fire,
        ChatColorStyle::CustomGradient("sunset".to_string()),
    ] {
        assert_eq!(style.duplicate(), style);
    }
}

#[test]
fn stored_data_holds_its_entries() {
    let entry = PlayerData {
        uuid: "936da01f-9abd-4d9d-80c7-02af85c822a8".to_string(),
        chat_color: Some(ChatColorStyle::Rainbow),
        name_color: None,
    };
    let data = PluginData { players: vec![entry.clone()] };
    assert_eq!(data.players[0], entry);
}
