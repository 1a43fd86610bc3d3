use zjstatus_hints::color::{parse_hex_color, Rgb, ThemeColors};
use zjstatus_hints::config::{parse_bool, parse_flag, parse_usize, Configuration, Settings};

fn rgb(r: u8, g: u8, b: u8) -> Rgb {
    Rgb { r, g, b }
}

fn config(pairs: &[(&str, &str)]) -> Configuration {
    let mut c = Configuration::new();
    for (k, v) in pairs {
        c.insert(k.to_string(), v.to_string());
    }
    c
}

#[test]
fn hex_colors_with_and_without_hash() {
    assert_eq!(parse_hex_color("#45475a"), rgb(0x45, 0x47, 0x5a));
    assert_eq!(parse_hex_color("c6d0f5"), rgb(0xc6, 0xd0, 0xf5));
    assert_eq!(parse_hex_color("#FFAA00"), rgb(0xff, 0xaa, 0x00));
    assert_eq!(parse_hex_color("###010203"), rgb(1, 2, 3));
}

#[test]
fn hex_pairs_accept_a_plus_sign() {
    assert_eq!(parse_hex_color("#+f+f+f"), rgb(15, 15, 15));
}

#[test]
fn bad_hex_colors_fall_back() {
    let fallback = rgb(0x45, 0x47, 0x5a);
    assert_eq!(parse_hex_color("#fff"), fallback);
    assert_eq!(parse_hex_color("#gg0000"), fallback);
    assert_eq!(parse_hex_color("#-f0000"), fallback);
    assert_eq!(parse_hex_color("#12345678"), fallback);
    assert_eq!(parse_hex_color(""), fallback);
    assert_eq!(parse_hex_color("é1234"), fallback);
    assert_eq!(parse_hex_color("aé123"), fallback);
    assert_eq!(parse_hex_color("#1é2ab"), fallback);
}

#[test]
fn default_theme_colors() {
    let t = ThemeColors::default();
    assert_eq!(t.key_bg, rgb(0x45, 0x47, 0x5a));
    assert_eq!(t.key_fg, rgb(0xc6, 0xd0, 0xf5));
    assert_eq!(t.desc_bg, rgb(0x31, 0x32, 0x44));
    assert_eq!(t.desc_fg, rgb(0xba, 0xc2, 0xde));
}

#[test]
fn theme_from_config_overrides_given_colors() {
    let c = config(&[("key_bg", "#000000"), ("desc_fg", "nonsense")]);
    let t = ThemeColors::from_config(&c);
    assert_eq!(t.key_bg, rgb(0, 0, 0));
    assert_eq!(t.key_fg, rgb(0xc6, 0xd0, 0xf5));
    assert_eq!(t.desc_bg, rgb(0x31, 0x32, 0x44));
    assert_eq!(t.desc_fg, rgb(0x45, 0x47, 0x5a));
}

#[test]
fn theme_options_that_cut_characters_fall_back() {
    let c = config(&[("key_bg", "aé123"), ("desc_bg", "#ab€d")]);
    let t = ThemeColors::from_config(&c);
    assert_eq!(t.key_bg, rgb(0x45, 0x47, 0x5a));
    assert_eq!(t.desc_bg, rgb(0x45, 0x47, 0x5a));
    let s = Settings::from_config(&c);
    assert_eq!(s.theme, t);
}

#[test]
fn other_options_leave_the_theme_alone() {
    let plain = ThemeColors::from_config(&config(&[("key_fg", "#010203")]));
    let more = ThemeColors::from_config(&config(&[("key_fg", "#010203"), ("max_length", "3"), ("colour", "#000000")]));
    assert_eq!(plain, more);
}

#[test]
fn usize_parsing() {
    assert_eq!(parse_usize("42"), Some(42));
    assert_eq!(parse_usize("+7"), Some(7));
    assert_eq!(parse_usize("007"), Some(7));
    assert_eq!(parse_usize(""), None);
    assert_eq!(parse_usize("+"), None);
    assert_eq!(parse_usize("-1"), None);
    assert_eq!(parse_usize("12a"), None);
    assert_eq!(parse_usize(" 1"), None);
    assert_eq!(parse_usize(&usize::MAX.to_string()), Some(usize::MAX));
    assert_eq!(parse_usize(&format!("{}0", usize::MAX)), None);
}

#[test]
fn bool_parsing() {
    assert_eq!(parse_bool("true"), Some(true));
    assert_eq!(parse_bool("false"), Some(false));
    assert_eq!(parse_bool("True"), None);
    assert_eq!(parse_bool(""), None);
}

#[test]
fn flags_ignore_case() {
    assert!(parse_flag("true"));
    assert!(parse_flag("TRUE"));
    assert!(parse_flag("True"));
    assert!(!parse_flag("false"));
    assert!(!parse_flag("yes"));
    assert!(!parse_flag(""));
}

#[test]
fn configuration_get_after_insert() {
    let mut c = Configuration::new();
    assert!(c.get("a").is_none());
    c.insert("a".to_string(), "1".to_string());
    c.insert("b".to_string(), "2".to_string());
    c.insert("a".to_string(), "3".to_string());
    assert_eq!(c.get("a").map(|s| s.as_str()), Some("3"));
    assert_eq!(c.get("b").map(|s| s.as_str()), Some("2"));
    assert!(c.get("c").is_none());
}

#[test]
fn settings_defaults() {
    let s = Settings::from_config(&Configuration::new());
    assert_eq!(s.max_length, 0);
    assert_eq!(s.overflow_str, "...");
    assert_eq!(s.pipe_name, "zjstatus_hints");
    assert!(!s.hide_in_base_mode);
    assert_eq!(s.theme, ThemeColors::default());
}

#[test]
fn settings_from_options() {
    let c = config(&[
        ("max_length", "40"),
        ("overflow_str", "~"),
        ("pipe_name", "hints"),
        ("hide_in_base_mode", "TRUE"),
        ("key_fg", "#010203"),
    ]);
    let s = Settings::from_config(&c);
    assert_eq!(s.max_length, 40);
    assert_eq!(s.overflow_str, "~");
    assert_eq!(s.pipe_name, "hints");
    assert!(s.hide_in_base_mode);
    assert_eq!(s.theme.key_fg, rgb(1, 2, 3));
}

#[test]
fn unreadable_max_length_means_no_limit() {
    let s = Settings::from_config(&config(&[("max_length", "forty")]));
    assert_eq!(s.max_length, 0);
}
