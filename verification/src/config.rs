//! The styles a player can choose, and the plugin's configuration.

use vstd::prelude::*;

use crate::gradient::{GradientSpec, HsvSweep};
use crate::strings::same_text;
use crate::text::NamedColor;

verus! {

/// What a [`ChatColorStyle`] is, as a mathematical value.
pub enum StyleView {
    Simple(NamedColor),
    Rainbow,
    Fire,
    CustomGradient(Seq<char>),
}

/// The style that a player has chosen for the chat or for the name.
#[derive(Clone, Debug, PartialEq, Eq)]
pub enum ChatColorStyle {
    /// One palette colour.
    Simple(NamedColor),
    /// The hues from red round to red.
    Rainbow,
    /// From yellow over orange to red.
    Fire,
    /// A gradient of the configuration, by its name.
    CustomGradient(String),
}

impl View for ChatColorStyle {
    type V = StyleView;

    open spec fn view(&self) -> StyleView {
        match self {
            ChatColorStyle::Simple(c) => StyleView::Simple(*c),
            ChatColorStyle::Rainbow => StyleView::Rainbow,
            ChatColorStyle::Fire => StyleView::Fire,
            ChatColorStyle::CustomGradient(name) => StyleView::CustomGradient(name@),
        }
    }
}

impl ChatColorStyle {
    /// A copy of the style.
    pub fn duplicate(&self) -> (copy: Self)
        ensures
            copy == *self,
    {
        match self {
            ChatColorStyle::Simple(c) => ChatColorStyle::Simple(*c),
            ChatColorStyle::Rainbow => ChatColorStyle::Rainbow,
            ChatColorStyle::Fire => ChatColorStyle::Fire,
            ChatColorStyle::CustomGradient(name) => ChatColorStyle::CustomGradient(name.clone()),
        }
    }
}

/// The view of a style that may be absent.
pub open spec fn style_view(style: Option<ChatColorStyle>) -> Option<StyleView> {
    match style {
        Some(s) => Some(s@),
        None => None,
    }
}

/// What is stored of one player: the identifier as text and the two styles.
#[derive(Clone, Debug, PartialEq, Eq)]
pub struct PlayerData {
    pub uuid: String,
    pub chat_color: Option<ChatColorStyle>,
    pub name_color: Option<ChatColorStyle>,
}

/// What is stored of all players, one entry for each.
#[derive(Clone, Debug, PartialEq, Eq)]
pub struct PluginData {
    pub players: Vec<PlayerData>,
}

/// How a configured gradient finds its colours.
#[derive(Clone, Copy, Debug, PartialEq, Eq, Structural)]
pub enum GradientMethod {
    Hsv,
    RgbInterpolation,
}

/// A gradient as the configuration describes it. Hues are in degrees,
/// saturation and value in thousandths.
#[derive(Clone, Debug, PartialEq, Eq)]
pub struct GradientConfig {
    pub method: GradientMethod,
    pub start_hue: Option<u16>,
    pub end_hue: Option<u16>,
    pub saturation: Option<u16>,
    pub value: Option<u16>,
    pub colors: Option<Vec<[u8; 3]>>,
}

/// The names under which a player's defaults are configured.
#[derive(Clone, Debug, PartialEq, Eq)]
pub struct Settings {
    pub default_chat_color: String,
    pub default_name_color: String,
}

/// The plugin's configuration. A name is looked up from the front: of two
/// entries with one name the first counts.
#[derive(Clone, Debug, PartialEq, Eq)]
pub struct PluginConfig {
    /// Seconds between two saves.
    pub save_interval: u64,
    pub auto_save: bool,
    /// Colour names with their codes.
    pub simple_colors: Vec<(String, String)>,
    /// Gradient names with their descriptions.
    pub gradients: Vec<(String, GradientConfig)>,
    pub settings: Settings,
}

/// The stops that a list of configured colours stands for.
pub open spec fn stops_of(colors: Seq<[u8; 3]>) -> Seq<(u8, u8, u8)> {
    Seq::new(colors.len(), |i: int| (colors[i]@[0], colors[i]@[1], colors[i]@[2]))
}

/// The sweep that a configuration describes: what it leaves out is the full
/// circle at full saturation and value.
pub open spec fn sweep_of(config: GradientConfig) -> HsvSweep {
    HsvSweep {
        start_hue: match config.start_hue {
            Some(h) => h,
            None => 0,
        },
        end_hue: match config.end_hue {
            Some(h) => h,
            None => 360,
        },
        saturation: match config.saturation {
            Some(s) => s,
            None => 1000,
        },
        value: match config.value {
            Some(v) => v,
            None => 1000,
        },
    }
}

/// The stops of a configuration, none where it lists no colours.
pub open spec fn config_stops(config: GradientConfig) -> Seq<(u8, u8, u8)> {
    match config.colors {
        Some(colors) => stops_of(colors@),
        None => Seq::empty(),
    }
}

impl GradientConfig {
    /// The gradient that this configuration describes.
    pub fn to_spec(&self) -> (spec: GradientSpec)
        ensures
            self.method == GradientMethod::Hsv ==> spec == GradientSpec::Hsv(sweep_of(*self)),
            self.method == GradientMethod::RgbInterpolation ==> (spec matches GradientSpec::Rgb(
                stops,
            ) && stops@ == config_stops(*self)),
    {
        match self.method {
            GradientMethod::Hsv => {
                let start_hue = match self.start_hue {
                    Some(h) => h,
                    None => 0,
                };
                let end_hue = match self.end_hue {
                    Some(h) => h,
                    None => 360,
                };
                let saturation = match self.saturation {
                    Some(s) => s,
                    None => 1000,
                };
                let value = match self.value {
                    Some(v) => v,
                    None => 1000,
                };
                GradientSpec::Hsv(HsvSweep { start_hue, end_hue, saturation, value })
            },
            GradientMethod::RgbInterpolation => {
                let mut stops: Vec<(u8, u8, u8)> = Vec::new();
                if let Some(colors) = &self.colors {
                    let mut i: usize = 0;
                    while i < colors.len()
                        invariant
                            i <= colors.len(),
                            stops@ =~= stops_of(colors@).take(i as int),
                        decreases colors.len() - i,
                    {
                        let c = &colors[i];
                        stops.push((c[0], c[1], c[2]));
                        i += 1;
                    }
                }
                GradientSpec::Rgb(stops)
            },
        }
    }
}

/// The place of the first colour named `name`, if there is one.
pub open spec fn color_index(entries: Seq<(String, String)>, name: Seq<char>) -> Option<int>
    decreases entries.len(),
{
    if entries.len() == 0 {
        None
    } else if entries[0].0@ == name {
        Some(0)
    } else {
        match color_index(entries.skip(1), name) {
            Some(i) => Some(i + 1),
            None => None,
        }
    }
}

/// The place of the first gradient named `name`, if there is one.
pub open spec fn gradient_index(entries: Seq<(String, GradientConfig)>, name: Seq<char>) -> Option<
    int,
>
    decreases entries.len(),
{
    if entries.len() == 0 {
        None
    } else if entries[0].0@ == name {
        Some(0)
    } else {
        match gradient_index(entries.skip(1), name) {
            Some(i) => Some(i + 1),
            None => None,
        }
    }
}

impl PluginConfig {
    /// The code configured for the colour `name`.
    pub fn color_code(&self, name: &str) -> (code: Option<&String>)
        ensures
            match color_index(self.simple_colors@, name@) {
                Some(i) => 0 <= i < self.simple_colors@.len() && code == Some(
                    &self.simple_colors@[i].1,
                ),
                None => code is None,
            },
    {
        let mut i: usize = 0;
        assert(self.simple_colors@.skip(0) =~= self.simple_colors@);
        while i < self.simple_colors.len()
            invariant
                i <= self.simple_colors.len(),
                color_index(self.simple_colors@, name@) == match color_index(
                    self.simple_colors@.skip(i as int),
                    name@,
                ) {
                    Some(k) => Some(k + i),
                    None => None,
                },
            decreases self.simple_colors.len() - i,
        {
            let ghost rest = self.simple_colors@.skip(i as int);
            assert(rest.skip(1) =~= self.simple_colors@.skip(i + 1));
            if same_text(self.simple_colors[i].0.as_str(), name) {
                return Some(&self.simple_colors[i].1);
            }
            i += 1;
        }
        None
    }

    /// The gradient configured under `name`.
    pub fn gradient(&self, name: &str) -> (found: Option<&GradientConfig>)
        ensures
            match gradient_index(self.gradients@, name@) {
                Some(i) => 0 <= i < self.gradients@.len() && found == Some(&self.gradients@[i].1),
                None => found is None,
            },
    {
        let mut i: usize = 0;
        assert(self.gradients@.skip(0) =~= self.gradients@);
        while i < self.gradients.len()
            invariant
                i <= self.gradients.len(),
                gradient_index(self.gradients@, name@) == match gradient_index(
                    self.gradients@.skip(i as int),
                    name@,
                ) {
                    Some(k) => Some(k + i),
                    None => None,
                },
            decreases self.gradients.len() - i,
        {
            let ghost rest = self.gradients@.skip(i as int);
            assert(rest.skip(1) =~= self.gradients@.skip(i + 1));
            if same_text(self.gradients[i].0.as_str(), name) {
                return Some(&self.gradients[i].1);
            }
            i += 1;
        }
        None
    }
}

/// What a [`GradientConfig`] is, as a mathematical value.
pub struct GradientView {
    pub method: GradientMethod,
    pub start_hue: Option<u16>,
    pub end_hue: Option<u16>,
    pub saturation: Option<u16>,
    pub value: Option<u16>,
    pub colors: Option<Seq<(u8, u8, u8)>>,
}

impl View for GradientConfig {
    type V = GradientView;

    open spec fn view(&self) -> GradientView {
        GradientView {
            method: self.method,
            start_hue: self.start_hue,
            end_hue: self.end_hue,
            saturation: self.saturation,
            value: self.value,
            colors: match self.colors {
                Some(colors) => Some(stops_of(colors@)),
                None => None,
            },
        }
    }
}

/// The colour names of a configuration with their codes, as texts.
pub open spec fn color_table(entries: Seq<(String, String)>) -> Seq<(Seq<char>, Seq<char>)> {
    Seq::new(entries.len(), |i: int| (entries[i].0@, entries[i].1@))
}

/// The gradient names of a configuration with their descriptions.
pub open spec fn gradient_table(entries: Seq<(String, GradientConfig)>) -> Seq<
    (Seq<char>, GradientView),
> {
    Seq::new(entries.len(), |i: int| (entries[i].0@, entries[i].1@))
}

/// The colours of the configuration that is written where none is found.
pub open spec fn default_colors() -> Seq<(Seq<char>, Seq<char>)> {
    seq![
        ("red"@, "§c"@),
        ("dark_red"@, "§4"@),
        ("blue"@, "§9"@),
        ("dark_blue"@, "§1"@),
        ("green"@, "§a"@),
        ("dark_green"@, "§2"@),
        ("yellow"@, "§e"@),
        ("gold"@, "§6"@),
        ("purple"@, "§5"@),
        ("light_purple"@, "§d"@),
        ("aqua"@, "§b"@),
        ("dark_aqua"@, "§3"@),
        ("white"@, "§f"@),
        ("gray"@, "§7"@),
        ("dark_gray"@, "§8"@),
        ("black"@, "§0"@),
    ]
}

/// The description of a walk along three stops.
pub open spec fn three_stops(a: (u8, u8, u8), b: (u8, u8, u8), c: (u8, u8, u8)) -> GradientView {
    GradientView {
        method: GradientMethod::RgbInterpolation,
        start_hue: None,
        end_hue: None,
        saturation: None,
        value: None,
        colors: Some(seq![a, b, c]),
    }
}

/// The gradients of the configuration that is written where none is found.
pub open spec fn default_gradients() -> Seq<(Seq<char>, GradientView)> {
    seq![
        (
            "rainbow"@,
            GradientView {
                method: GradientMethod::Hsv,
                start_hue: Some(0u16),
                end_hue: Some(360u16),
                saturation: Some(1000u16),
                value: Some(1000u16),
                colors: None,
            },
        ),
        ("fire"@, three_stops((255, 0, 0), (255, 165, 0), (255, 255, 0))),
        ("ocean"@, three_stops((0, 119, 190), (0, 191, 255), (135, 206, 235))),
        (
            "sunset"@,
            GradientView {
                method: GradientMethod::RgbInterpolation,
                start_hue: None,
                end_hue: None,
                saturation: None,
                value: None,
                colors: Some(seq![(255u8, 69u8, 0u8), (255, 140, 0), (255, 215, 0), (255, 20, 147)]),
            },
        ),
        ("forest"@, three_stops((34, 139, 34), (50, 205, 50), (144, 238, 144))),
    ]
}

fn color_entry(name: &str, code: &str) -> (entry: (String, String))
    ensures
        entry.0@ == name@,
        entry.1@ == code@,
{
    (name.to_owned(), code.to_owned())
}

fn stops_entry(name: &str, colors: Vec<[u8; 3]>) -> (entry: (String, GradientConfig))
    ensures
        entry.0@ == name@,
        entry.1@ == (GradientView {
            method: GradientMethod::RgbInterpolation,
            start_hue: None,
            end_hue: None,
            saturation: None,
            value: None,
            colors: Some(stops_of(colors@)),
        }),
{
    (
        name.to_owned(),
        GradientConfig {
            method: GradientMethod::RgbInterpolation,
            start_hue: None,
            end_hue: None,
            saturation: None,
            value: None,
            colors: Some(colors),
        },
    )
}

fn three(a: [u8; 3], b: [u8; 3], c: [u8; 3]) -> (colors: Vec<[u8; 3]>)
    ensures
        colors@.len() == 3,
        stops_of(colors@) == seq![(a@[0], a@[1], a@[2]), (b@[0], b@[1], b@[2]), (c@[0], c@[1], c@[2])],
{
    let mut colors: Vec<[u8; 3]> = Vec::new();
    colors.push(a);
    colors.push(b);
    colors.push(c);
    assert(stops_of(colors@) =~= seq![
        (a@[0], a@[1], a@[2]),
        (b@[0], b@[1], b@[2]),
        (c@[0], c@[1], c@[2]),
    ]);
    colors
}

impl PluginConfig {
    /// The configuration that is written where none is found: a save every
    /// five minutes, the sixteen palette colours under their names, five
    /// gradients, and white as the default for chat and name.
    pub fn defaults() -> (config: Self)
        ensures
            config.save_interval == 300,
            config.auto_save,
            color_table(config.simple_colors@) == default_colors(),
            gradient_table(config.gradients@) == default_gradients(),
            config.settings.default_chat_color@ == "white"@,
            config.settings.default_name_color@ == "white"@,
    {
        let mut simple_colors: Vec<(String, String)> = Vec::new();
        simple_colors.push(color_entry("red", "§c"));
        simple_colors.push(color_entry("dark_red", "§4"));
        simple_colors.push(color_entry("blue", "§9"));
        simple_colors.push(color_entry("dark_blue", "§1"));
        simple_colors.push(color_entry("green", "§a"));
        simple_colors.push(color_entry("dark_green", "§2"));
        simple_colors.push(color_entry("yellow", "§e"));
        simple_colors.push(color_entry("gold", "§6"));
        simple_colors.push(color_entry("purple", "§5"));
        simple_colors.push(color_entry("light_purple", "§d"));
        simple_colors.push(color_entry("aqua", "§b"));
        simple_colors.push(color_entry("dark_aqua", "§3"));
        simple_colors.push(color_entry("white", "§f"));
        simple_colors.push(color_entry("gray", "§7"));
        simple_colors.push(color_entry("dark_gray", "§8"));
        simple_colors.push(color_entry("black", "§0"));
        assert(color_table(simple_colors@) =~= default_colors());

        let mut gradients: Vec<(String, GradientConfig)> = Vec::new();
        gradients.push(
            (
                "rainbow".to_owned(),
                GradientConfig {
                    method: GradientMethod::Hsv,
                    start_hue: Some(0),
                    end_hue: Some(360),
                    saturation: Some(1000),
                    value: Some(1000),
                    colors: None,
                },
            ),
        );
        gradients.push(stops_entry("fire", three([255, 0, 0], [255, 165, 0], [255, 255, 0])));
        gradients.push(stops_entry("ocean", three([0, 119, 190], [0, 191, 255], [135, 206, 235])));
        let ghost early = seq![(255u8, 69u8, 0u8), (255u8, 140u8, 0u8), (255u8, 215u8, 0u8)];
        let mut sunset = three([255, 69, 0], [255, 140, 0], [255, 215, 0]);
        let ghost before = sunset@;
        sunset.push([255, 20, 147]);
        assert(stops_of(sunset@) =~= stops_of(before).push((255u8, 20u8, 147u8))) by {
            assert forall|i: int| 0 <= i < 3 implies stops_of(sunset@)[i] == stops_of(before)[i] by {
                assert(sunset@[i] == before[i]);
            }
        }
        assert(early.push((255u8, 20u8, 147u8)) =~= seq![
            (255u8, 69u8, 0u8),
            (255, 140, 0),
            (255, 215, 0),
            (255, 20, 147),
        ]);
        gradients.push(stops_entry("sunset", sunset));
        gradients.push(stops_entry("forest", three([34, 139, 34], [50, 205, 50], [144, 238, 144])));
        assert(gradient_table(gradients@) =~= default_gradients());

        PluginConfig {
            save_interval: 300,
            auto_save: true,
            simple_colors,
            gradients,
            settings: Settings {
                default_chat_color: "white".to_owned(),
                default_name_color: "white".to_owned(),
            },
        }
    }
}

} // verus!
