use zjstatus_hints::actions::{
    find_keys_for_action_groups, find_keys_for_actions, get_keymap_for_mode, get_select_key,
    plugin_key, Action, Direction, InputMode, ModeInfo,
};
use zjstatus_hints::keys::{
    format_bare_key, format_key_display, format_key_short, format_modifier_short,
    format_modifier_string, get_common_modifiers, get_key_separator, BareKey, KeyModifier,
    KeyModifiers, KeyWithModifier,
};

fn mods(ctrl: bool, alt: bool, shift: bool, superkey: bool) -> KeyModifiers {
    KeyModifiers { ctrl, alt, shift, superkey }
}

fn key(bare_key: BareKey, key_modifiers: KeyModifiers) -> KeyWithModifier {
    KeyWithModifier { bare_key, key_modifiers }
}

fn plain(c: char) -> KeyWithModifier {
    KeyWithModifier::new(BareKey::Char(c))
}

#[test]
fn bare_keys_are_named() {
    assert_eq!(format_bare_key(BareKey::PageDown), "PgDn");
    assert_eq!(format_bare_key(BareKey::Left), "←");
    assert_eq!(format_bare_key(BareKey::F(5)), "F5");
    assert_eq!(format_bare_key(BareKey::F(12)), "F12");
    assert_eq!(format_bare_key(BareKey::F(255)), "F255");
    assert_eq!(format_bare_key(BareKey::Char(' ')), "SPACE");
    assert_eq!(format_bare_key(BareKey::Char('x')), "x");
    assert_eq!(format_bare_key(BareKey::CapsLock), "CAPSlOCK");
    assert_eq!(format_bare_key(BareKey::Enter), "ENTER");
}

#[test]
fn modifiers_in_short_form() {
    assert_eq!(format_modifier_short(&KeyModifier::Ctrl), "^");
    assert_eq!(format_modifier_short(&KeyModifier::Alt), "M-");
    assert_eq!(format_modifier_short(&KeyModifier::Shift), "S-");
    assert_eq!(format_modifier_short(&KeyModifier::Super), "Super-");
    assert_eq!(format_modifier_string(&[]), "");
    assert_eq!(
        format_modifier_string(&[KeyModifier::Ctrl, KeyModifier::Super]),
        "^Super-"
    );
}

#[test]
fn keys_in_short_form() {
    assert_eq!(format_key_short(&key(BareKey::Char('n'), mods(true, false, false, false))), "^n");
    assert_eq!(
        format_key_short(&key(BareKey::Left, mods(true, true, true, false))),
        "^M-S-←"
    );
    assert_eq!(format_key_short(&plain('[')), "[");
}

#[test]
fn common_modifiers_are_shared_by_all() {
    let keys = [
        key(BareKey::Char('h'), mods(true, true, false, false)),
        key(BareKey::Char('j'), mods(true, false, false, false)),
        key(BareKey::Char('k'), mods(true, false, true, false)),
    ];
    assert_eq!(get_common_modifiers(&keys), vec![KeyModifier::Ctrl]);
    assert_eq!(get_common_modifiers(&[]), Vec::<KeyModifier>::new());
    let one = [key(BareKey::Char('x'), mods(false, true, true, true))];
    assert_eq!(
        get_common_modifiers(&one),
        vec![KeyModifier::Alt, KeyModifier::Shift, KeyModifier::Super]
    );
}

#[test]
fn key_display_drops_shared_modifiers() {
    let keys = [
        key(BareKey::Char('h'), mods(true, true, false, false)),
        key(BareKey::Char('j'), mods(true, false, false, false)),
    ];
    let shown = format_key_display(&keys, &[KeyModifier::Ctrl]);
    assert_eq!(shown, vec!["M-h".to_string(), "j".to_string()]);
}

#[test]
fn separators() {
    let hjkl: Vec<String> = ["h", "j", "k", "l"].iter().map(|s| s.to_string()).collect();
    assert_eq!(get_key_separator(&hjkl), "");
    let arrows: Vec<String> = ["←", "→"].iter().map(|s| s.to_string()).collect();
    assert_eq!(get_key_separator(&arrows), "");
    let other: Vec<String> = ["n", "x"].iter().map(|s| s.to_string()).collect();
    assert_eq!(get_key_separator(&other), "|");
    assert_eq!(get_key_separator(&[]), "|");
}

#[test]
fn shallow_equality() {
    assert!(Action::NewTab.shallow_eq(&Action::NewTab));
    assert!(Action::LaunchPlugin("a".to_string()).shallow_eq(&Action::LaunchPlugin("b".to_string())));
    assert!(!Action::LaunchPlugin("a".to_string())
        .shallow_eq(&Action::LaunchOrFocusPlugin("a".to_string())));
    assert!(Action::NewPane(None, None, false).shallow_eq(&Action::NewPane(None, None, false)));
    assert!(!Action::NewPane(None, Some("x".to_string()), false)
        .shallow_eq(&Action::NewPane(None, None, false)));
    assert!(!Action::PaneNameInput(vec![0]).shallow_eq(&Action::PaneNameInput(vec![1])));
    assert!(Action::PaneNameInput(vec![0]).shallow_eq(&Action::PaneNameInput(vec![0])));
    assert!(!Action::Other.shallow_eq(&Action::Other));
    assert!(!Action::Quit.shallow_eq(&Action::Detach));
}

#[test]
fn plugin_launches() {
    let a = Action::LaunchOrFocusPlugin("session-manager".to_string());
    assert!(a.launches_plugin("session-manager"));
    assert!(!a.launches_plugin("configuration"));
    assert!(!Action::Quit.launches_plugin("session-manager"));
}

fn sample_keymap() -> Vec<(KeyWithModifier, Vec<Action>)> {
    vec![
        (plain('n'), vec![Action::NewPane(None, None, false), Action::SwitchToMode(InputMode::Normal)]),
        (plain('x'), vec![Action::CloseFocus, Action::SwitchToMode(InputMode::Normal)]),
        (plain('h'), vec![Action::MoveFocus(Direction::Left)]),
        (plain('l'), vec![Action::MoveFocus(Direction::Right)]),
        (KeyWithModifier::new(BareKey::Esc), vec![Action::SwitchToMode(InputMode::Normal)]),
        (KeyWithModifier::new(BareKey::Enter), vec![Action::SwitchToMode(InputMode::Normal)]),
        (plain('w'), vec![Action::LaunchOrFocusPlugin("session-manager".to_string())]),
        (plain('m'), vec![Action::NewPane(None, None, false)]),
    ]
}

#[test]
fn exact_and_first_action_matching() {
    let km = sample_keymap();
    let exact = find_keys_for_actions(&km, &[Action::NewPane(None, None, false)], true);
    assert_eq!(exact, vec![plain('m')]);
    let loose = find_keys_for_actions(
        &km,
        &[Action::NewPane(None, None, false), Action::SwitchToMode(InputMode::Normal)],
        false,
    );
    assert_eq!(loose, vec![plain('n'), plain('m')]);
    let none = find_keys_for_actions(&km, &[], false);
    assert!(none.is_empty());
}

#[test]
fn groups_keep_group_order() {
    let km = sample_keymap();
    let keys = find_keys_for_action_groups(
        &km,
        &[vec![Action::MoveFocus(Direction::Right)], vec![Action::MoveFocus(Direction::Left)]],
    );
    assert_eq!(keys, vec![plain('l'), plain('h')]);
}

#[test]
fn plugin_key_finds_first_launcher() {
    let km = sample_keymap();
    assert_eq!(plugin_key(&km, "session-manager"), Some(plain('w')));
    assert_eq!(plugin_key(&km, "zellij:about"), None);
}

#[test]
fn select_prefers_enter() {
    let km = sample_keymap();
    assert_eq!(get_select_key(&km), vec![KeyWithModifier::new(BareKey::Enter)]);
    let no_enter: Vec<(KeyWithModifier, Vec<Action>)> = vec![
        (plain('q'), vec![Action::SwitchToMode(InputMode::Normal)]),
        (KeyWithModifier::new(BareKey::Esc), vec![Action::SwitchToMode(InputMode::Normal)]),
    ];
    assert_eq!(get_select_key(&no_enter), vec![plain('q')]);
    assert!(get_select_key(&[]).is_empty());
}

#[test]
fn keymap_of_the_current_mode() {
    let info = ModeInfo {
        mode: InputMode::Pane,
        base_mode: None,
        keybinds: vec![
            (InputMode::Normal, vec![(plain('p'), vec![Action::SwitchToMode(InputMode::Pane)])]),
            (InputMode::Pane, sample_keymap()),
            (InputMode::Pane, vec![]),
        ],
    };
    assert_eq!(get_keymap_for_mode(&info).len(), 8);
    let other = ModeInfo { mode: InputMode::Tab, base_mode: None, keybinds: vec![] };
    assert!(get_keymap_for_mode(&other).is_empty());
}

#[test]
fn exact_matches_are_among_first_action_matches() {
    let km = sample_keymap();
    let targets = [Action::NewPane(None, None, false), Action::SwitchToMode(InputMode::Normal)];
    let exact = find_keys_for_actions(&km, &targets, true);
    let loose = find_keys_for_actions(&km, &targets, false);
    assert_eq!(exact, vec![plain('n')]);
    assert_eq!(loose, vec![plain('n'), plain('m')]);
    let mut rest = loose.iter();
    for k in &exact {
        assert!(rest.any(|l| l == k));
    }
}
