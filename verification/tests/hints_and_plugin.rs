use zjstatus_hints::actions::{Action, InputMode, ModeInfo};
use zjstatus_hints::ansi::calculate_visible_length;
use zjstatus_hints::color::{Rgb, ThemeColors};
use zjstatus_hints::config::Configuration;
use zjstatus_hints::hints::{add_hint, style_description, style_key_with_modifier, StyledText};
use zjstatus_hints::keys::{BareKey, KeyModifiers, KeyWithModifier};
use zjstatus_hints::modes::{mode_hint_list, render_hints_for_mode, Hint};
use zjstatus_hints::plugin::{status_line, PluginEvent, State};

fn ctrl(c: char) -> KeyWithModifier {
    KeyWithModifier {
        bare_key: BareKey::Char(c),
        key_modifiers: KeyModifiers { ctrl: true, alt: false, shift: false, superkey: false },
    }
}

fn plain(c: char) -> KeyWithModifier {
    KeyWithModifier::new(BareKey::Char(c))
}

fn texts(parts: &[StyledText]) -> Vec<(String, bool)> {
    parts.iter().map(|p| (p.text.clone(), p.bold)).collect()
}

fn owned(pairs: &[(&str, bool)]) -> Vec<(String, bool)> {
    pairs.iter().map(|(s, b)| (s.to_string(), *b)).collect()
}

#[test]
fn shared_modifier_shown_once_and_hjkl_unseparated() {
    let theme = ThemeColors::default();
    let parts = style_key_with_modifier(&[ctrl('h'), ctrl('j'), ctrl('k'), ctrl('l')], &theme);
    assert_eq!(
        texts(&parts),
        owned(&[(" ", false), ("^", true), ("h", true), ("j", true), ("k", true), ("l", true), (" ", false)])
    );
    assert!(parts.iter().all(|p| p.fg == theme.key_fg && p.bg == theme.key_bg));
}

#[test]
fn other_keys_are_separated() {
    let theme = ThemeColors::default();
    let parts = style_key_with_modifier(&[plain('n'), plain('x')], &theme);
    assert_eq!(
        texts(&parts),
        owned(&[(" ", false), ("n", true), ("|", false), ("x", true), (" ", false)])
    );
    assert!(style_key_with_modifier(&[], &theme).is_empty());
}

#[test]
fn description_is_padded() {
    let theme = ThemeColors::default();
    let parts = style_description("quit", &theme);
    assert_eq!(texts(&parts), owned(&[(" quit ", false)]));
    assert_eq!(parts[0].fg, theme.desc_fg);
    assert_eq!(parts[0].bg, theme.desc_bg);
}

#[test]
fn hint_without_keys_adds_nothing() {
    let theme = ThemeColors::default();
    let mut parts = Vec::new();
    let prev = Some(Rgb { r: 1, g: 2, b: 3 });
    assert_eq!(add_hint(&mut parts, &[], "none", &theme, prev), prev);
    assert!(parts.is_empty());
}

#[test]
fn hint_after_another_starts_with_an_arrow() {
    let theme = ThemeColors::default();
    let mut parts = Vec::new();
    let prev = Some(Rgb { r: 1, g: 2, b: 3 });
    let next = add_hint(&mut parts, &[plain('q')], "quit", &theme, prev);
    assert_eq!(next, Some(theme.desc_bg));
    assert_eq!(
        texts(&parts),
        owned(&[("\u{e0b0}", false), (" ", false), ("q", true), (" ", false), ("\u{e0b0}", false), (" quit ", false)])
    );
    assert_eq!(parts[0].fg, Rgb { r: 1, g: 2, b: 3 });
    assert_eq!(parts[0].bg, theme.key_bg);
    assert_eq!(parts[4].fg, theme.key_bg);
    assert_eq!(parts[4].bg, theme.desc_bg);
}

fn normal_keymap() -> Vec<(KeyWithModifier, Vec<Action>)> {
    vec![
        (ctrl('p'), vec![Action::SwitchToMode(InputMode::Pane)]),
        (ctrl('t'), vec![Action::SwitchToMode(InputMode::Tab)]),
        (ctrl('q'), vec![Action::Quit]),
    ]
}

fn labels(hints: &[Hint]) -> Vec<String> {
    hints
        .iter()
        .map(|h| match h {
            Hint::Keys(keys, label) => format!("{}:{}", keys.len(), label),
            Hint::Combined(text, label) => format!("[{}]:{}", text, label),
        })
        .collect()
}

#[test]
fn normal_mode_hints() {
    let hints = mode_hint_list(InputMode::Normal, &normal_keymap(), 120);
    assert_eq!(
        labels(&hints),
        vec!["1:pane", "1:tab", "0:resize", "0:move", "0:scroll", "0:search", "0:session", "1:quit"]
    );
    let parts = render_hints_for_mode(InputMode::Normal, &normal_keymap(), &ThemeColors::default(), 120);
    let all: String = parts.iter().map(|p| p.text.clone()).collect();
    assert_eq!(all, " ^p \u{e0b0} pane \u{e0b0} ^t \u{e0b0} tab \u{e0b0} ^q \u{e0b0} quit ");
}

fn tmux_keymap() -> Vec<(KeyWithModifier, Vec<Action>)> {
    vec![
        (ctrl('s'), vec![Action::SwitchToMode(InputMode::Scroll)]),
        (plain('['), vec![Action::SwitchToMode(InputMode::Scroll)]),
        (plain('p'), vec![Action::SwitchToMode(InputMode::Pane)]),
        (KeyWithModifier::new(BareKey::Esc), vec![Action::SwitchToMode(InputMode::Normal)]),
    ]
}

#[test]
fn tmux_scroll_hint_combines_two_keys() {
    let wide = mode_hint_list(InputMode::Tmux, &tmux_keymap(), 120);
    assert_eq!(labels(&wide), vec!["1:pane", "[^s | []:scroll", "1:select"]);
    let narrow = mode_hint_list(InputMode::Tmux, &tmux_keymap(), 40);
    assert_eq!(labels(&narrow), vec!["1:pane", "[^s|[]:scroll"]);
    let parts = render_hints_for_mode(InputMode::Tmux, &tmux_keymap(), &ThemeColors::default(), 40);
    let all: String = parts.iter().map(|p| p.text.clone()).collect();
    assert_eq!(all, " p \u{e0b0} pane \u{e0b0} ^s|[ \u{e0b0} scroll");
}

#[test]
fn other_modes_show_the_way_back() {
    let km = vec![(KeyWithModifier::new(BareKey::Esc), vec![Action::SwitchToMode(InputMode::Normal)])];
    let hints = mode_hint_list(InputMode::Locked, &km, 80);
    assert_eq!(labels(&hints), vec!["1:normal"]);
}

#[test]
fn tab_mode_prefers_arrows() {
    let km = vec![
        (plain('h'), vec![Action::GoToPreviousTab]),
        (KeyWithModifier::new(BareKey::Left), vec![Action::GoToPreviousTab]),
        (KeyWithModifier::new(BareKey::Right), vec![Action::GoToNextTab]),
        (plain('l'), vec![Action::GoToNextTab]),
    ];
    let hints = mode_hint_list(InputMode::Tab, &km, 80);
    match &hints[5] {
        Hint::Keys(keys, label) => {
            assert_eq!(label, "move");
            assert_eq!(
                keys,
                &vec![KeyWithModifier::new(BareKey::Left), KeyWithModifier::new(BareKey::Right)]
            );
        }
        _ => panic!("expected a keys hint"),
    }
}

#[test]
fn status_line_truncates_to_max_length() {
    let line = status_line("abcdefghij", 6, "...");
    assert_eq!(line, " ab...");
    assert_eq!(status_line("abc", 0, "..."), " abc");
    assert_eq!(status_line("abc", 10, "..."), " abc");
}

fn loaded_state(options: &[(&str, &str)]) -> State {
    let mut c = Configuration::new();
    for (k, v) in options {
        c.insert(k.to_string(), v.to_string());
    }
    let mut state = State::new();
    state.load(&c);
    state
}

fn normal_mode_info(base_mode: Option<InputMode>) -> ModeInfo {
    ModeInfo { mode: InputMode::Normal, base_mode, keybinds: vec![(InputMode::Normal, normal_keymap())] }
}

#[test]
fn first_update_always_renders() {
    let mut state = loaded_state(&[]);
    assert!(state.update(PluginEvent::Other));
    assert!(state.update(PluginEvent::ModeUpdate { mode_info: normal_mode_info(None), changed: false }));
    assert!(!state.base_mode_is_locked);
    assert!(state.update(PluginEvent::ModeUpdate {
        mode_info: normal_mode_info(Some(InputMode::Locked)),
        changed: true
    }));
    assert!(state.base_mode_is_locked);
}

#[test]
fn render_outside_base_mode_initializes() {
    let mut state = loaded_state(&[]);
    state.update(PluginEvent::ModeUpdate { mode_info: normal_mode_info(Some(InputMode::Locked)), changed: true });
    let output = state.render(5, 120);
    assert!(output.starts_with(' '));
    assert!(output.contains('\x1b'));
    assert_eq!(calculate_visible_length(&output), 1 + " ^p \u{e0b0} pane \u{e0b0} ^t \u{e0b0} tab \u{e0b0} ^q \u{e0b0} quit ".chars().count());
    assert!(state.initialized);
    assert!(!state.update(PluginEvent::Other));
    assert!(state.update(PluginEvent::ModeUpdate { mode_info: normal_mode_info(Some(InputMode::Locked)), changed: true }));
}

#[test]
fn render_in_base_mode_does_not_initialize() {
    let mut state = loaded_state(&[]);
    state.update(PluginEvent::ModeUpdate { mode_info: normal_mode_info(Some(InputMode::Normal)), changed: true });
    let output = state.render(5, 120);
    assert!(!output.is_empty());
    assert!(!state.initialized);
}

#[test]
fn hidden_in_base_mode() {
    let mut state = loaded_state(&[("hide_in_base_mode", "true")]);
    state.update(PluginEvent::ModeUpdate { mode_info: normal_mode_info(Some(InputMode::Normal)), changed: true });
    assert_eq!(state.render(5, 120), "");
    assert!(!state.initialized);
}

#[test]
fn render_respects_max_length() {
    let mut state = loaded_state(&[("max_length", "10"), ("overflow_str", "..")]);
    state.update(PluginEvent::ModeUpdate { mode_info: normal_mode_info(None), changed: true });
    let output = state.render(5, 120);
    assert_eq!(calculate_visible_length(&output), 10);
    assert!(output.ends_with(".."));
}

#[test]
fn pipe_payload_names_the_pipe() {
    let state = loaded_state(&[("pipe_name", "bar")]);
    assert_eq!(state.pipe_payload("hello"), "zjstatus::pipe::pipe_bar::hello");
    let default = loaded_state(&[]);
    assert_eq!(default.pipe_payload(""), "zjstatus::pipe::pipe_zjstatus_hints::");
}

#[test]
fn initialized_survives_later_renders() {
    let mut state = loaded_state(&[("hide_in_base_mode", "true")]);
    state.update(PluginEvent::ModeUpdate { mode_info: normal_mode_info(None), changed: true });
    assert!(!state.render(5, 120).is_empty());
    assert!(state.initialized);
    state.update(PluginEvent::ModeUpdate { mode_info: normal_mode_info(Some(InputMode::Normal)), changed: true });
    assert_eq!(state.render(5, 120), "");
    assert!(state.initialized);
}
