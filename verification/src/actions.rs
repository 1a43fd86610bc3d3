//! Input modes, the actions that keys are bound to, and finding the keys
//! bound to given actions.
use vstd::prelude::*;

use crate::config::same_text;
use crate::keys::{no_modifiers, BareKey, KeyWithModifier};

verus! {

/// The input modes of the terminal multiplexer.
#[derive(Clone, Copy, Debug, PartialEq, Eq, Structural)]
pub enum InputMode {
    Normal,
    Locked,
    Resize,
    Pane,
    Tab,
    Scroll,
    EnterSearch,
    Search,
    RenameTab,
    RenamePane,
    Session,
    Move,
    Prompt,
    Tmux,
}

#[derive(Clone, Copy, Debug, PartialEq, Eq, Structural)]
pub enum Direction {
    Left,
    Right,
    Up,
    Down,
}

#[derive(Clone, Copy, Debug, PartialEq, Eq, Structural)]
pub enum Resize {
    Increase,
    Decrease,
}

#[derive(Clone, Copy, Debug, PartialEq, Eq, Structural)]
pub enum SearchDirection {
    Down,
    Up,
}

/// An action that a key can be bound to. The plugin looks for the actions
/// named here; every other action is `Other`, which matches nothing.
/// A plugin action holds the location of the plugin it starts.
#[derive(Debug)]
pub enum Action {
    Quit,
    SwitchToMode(InputMode),
    Resize(Resize, Option<Direction>),
    MoveFocus(Direction),
    MovePane(Option<Direction>),
    EditScrollback,
    ScrollUp,
    ScrollDown,
    PageScrollUp,
    PageScrollDown,
    HalfPageScrollUp,
    HalfPageScrollDown,
    ToggleFocusFullscreen,
    ToggleActiveSyncTab,
    NewPane(Option<Direction>, Option<String>, bool),
    TogglePaneEmbedOrFloating,
    ToggleFloatingPanes,
    CloseFocus,
    PaneNameInput(Vec<u8>),
    NewTab,
    GoToNextTab,
    GoToPreviousTab,
    CloseTab,
    TabNameInput(Vec<u8>),
    Detach,
    LaunchOrFocusPlugin(String),
    LaunchPlugin(String),
    SearchInput(Vec<u8>),
    Search(SearchDirection),
    BreakPane,
    Other,
}

/// What an action is, as the hints compare it.
pub enum ActionView {
    Quit,
    SwitchToMode(InputMode),
    Resize(Resize, Option<Direction>),
    MoveFocus(Direction),
    MovePane(Option<Direction>),
    EditScrollback,
    ScrollUp,
    ScrollDown,
    PageScrollUp,
    PageScrollDown,
    HalfPageScrollUp,
    HalfPageScrollDown,
    ToggleFocusFullscreen,
    ToggleActiveSyncTab,
    NewPane(Option<Direction>, Option<Seq<char>>, bool),
    TogglePaneEmbedOrFloating,
    ToggleFloatingPanes,
    CloseFocus,
    PaneNameInput(Seq<u8>),
    NewTab,
    GoToNextTab,
    GoToPreviousTab,
    CloseTab,
    TabNameInput(Seq<u8>),
    Detach,
    LaunchOrFocusPlugin(Seq<char>),
    LaunchPlugin(Seq<char>),
    SearchInput(Seq<u8>),
    Search(SearchDirection),
    BreakPane,
    Other,
}

/// The view of an optional string.
pub open spec fn opt_text(o: Option<String>) -> Option<Seq<char>> {
    match o {
        Some(s) => Some(s@),
        None => None,
    }
}

impl View for Action {
    type V = ActionView;

    open spec fn view(&self) -> ActionView {
        match self {
            Action::Quit => ActionView::Quit,
            Action::SwitchToMode(m) => ActionView::SwitchToMode(*m),
            Action::Resize(r, d) => ActionView::Resize(*r, *d),
            Action::MoveFocus(d) => ActionView::MoveFocus(*d),
            Action::MovePane(d) => ActionView::MovePane(*d),
            Action::EditScrollback => ActionView::EditScrollback,
            Action::ScrollUp => ActionView::ScrollUp,
            Action::ScrollDown => ActionView::ScrollDown,
            Action::PageScrollUp => ActionView::PageScrollUp,
            Action::PageScrollDown => ActionView::PageScrollDown,
            Action::HalfPageScrollUp => ActionView::HalfPageScrollUp,
            Action::HalfPageScrollDown => ActionView::HalfPageScrollDown,
            Action::ToggleFocusFullscreen => ActionView::ToggleFocusFullscreen,
            Action::ToggleActiveSyncTab => ActionView::ToggleActiveSyncTab,
            Action::NewPane(d, n, b) => ActionView::NewPane(*d, opt_text(*n), *b),
            Action::TogglePaneEmbedOrFloating => ActionView::TogglePaneEmbedOrFloating,
            Action::ToggleFloatingPanes => ActionView::ToggleFloatingPanes,
            Action::CloseFocus => ActionView::CloseFocus,
            Action::PaneNameInput(v) => ActionView::PaneNameInput(v@),
            Action::NewTab => ActionView::NewTab,
            Action::GoToNextTab => ActionView::GoToNextTab,
            Action::GoToPreviousTab => ActionView::GoToPreviousTab,
            Action::CloseTab => ActionView::CloseTab,
            Action::TabNameInput(v) => ActionView::TabNameInput(v@),
            Action::Detach => ActionView::Detach,
            Action::LaunchOrFocusPlugin(p) => ActionView::LaunchOrFocusPlugin(p@),
            Action::LaunchPlugin(p) => ActionView::LaunchPlugin(p@),
            Action::SearchInput(v) => ActionView::SearchInput(v@),
            Action::Search(d) => ActionView::Search(*d),
            Action::BreakPane => ActionView::BreakPane,
            Action::Other => ActionView::Other,
        }
    }
}

/// The views of a sequence of actions.
pub open spec fn actions_view(v: Seq<Action>) -> Seq<ActionView> {
    v.map_values(|a: Action| a@)
}

/// Whether two actions match: a new tab matches any new tab, a plugin launch
/// any launch of the same kind, `Other` nothing, and any other action only the
/// same action with the same arguments.
pub open spec fn shallow_eq_spec(a: ActionView, b: ActionView) -> bool {
    match (a, b) {
        (ActionView::NewTab, ActionView::NewTab) => true,
        (ActionView::LaunchOrFocusPlugin(_), ActionView::LaunchOrFocusPlugin(_)) => true,
        (ActionView::LaunchPlugin(_), ActionView::LaunchPlugin(_)) => true,
        (ActionView::Other, _) => false,
        (_, ActionView::Other) => false,
        _ => a == b,
    }
}

/// Whether the action starts the plugin at `location`.
pub open spec fn launches_plugin_spec(a: ActionView, location: Seq<char>) -> bool {
    match a {
        ActionView::LaunchPlugin(p) => p == location,
        ActionView::LaunchOrFocusPlugin(p) => p == location,
        _ => false,
    }
}

fn same_bytes(a: &Vec<u8>, b: &Vec<u8>) -> (r: bool)
    ensures
        r == (a@ == b@),
{
    if a.len() != b.len() {
        return false;
    }
    for i in 0..a.len()
        invariant
            a@.len() == b@.len(),
            forall|j: int| 0 <= j < i ==> a@[j] == b@[j],
    {
        if a[i] != b[i] {
            return false;
        }
    }
    assert(a@ =~= b@);
    true
}

fn same_opt_text(a: &Option<String>, b: &Option<String>) -> (r: bool)
    ensures
        r == (opt_text(*a) == opt_text(*b)),
{
    match (a, b) {
        (Some(x), Some(y)) => same_text(x.as_str(), y.as_str()),
        (None, None) => true,
        _ => false,
    }
}

impl Action {
    /// Whether the two actions match, ignoring the arguments of a new tab and
    /// of a plugin launch; `Other` matches nothing.
    pub fn shallow_eq(&self, other_action: &Action) -> (r: bool)
        ensures
            r == shallow_eq_spec(self@, other_action@),
    {
        match (self, other_action) {
            (Action::NewTab, Action::NewTab) => true,
            (Action::LaunchOrFocusPlugin(_), Action::LaunchOrFocusPlugin(_)) => true,
            (Action::LaunchPlugin(_), Action::LaunchPlugin(_)) => true,
            (Action::Quit, Action::Quit) => true,
            (Action::SwitchToMode(x), Action::SwitchToMode(y)) => *x == *y,
            (Action::Resize(r1, d1), Action::Resize(r2, d2)) => *r1 == *r2 && *d1 == *d2,
            (Action::MoveFocus(d1), Action::MoveFocus(d2)) => *d1 == *d2,
            (Action::MovePane(d1), Action::MovePane(d2)) => *d1 == *d2,
            (Action::EditScrollback, Action::EditScrollback) => true,
            (Action::ScrollUp, Action::ScrollUp) => true,
            (Action::ScrollDown, Action::ScrollDown) => true,
            (Action::PageScrollUp, Action::PageScrollUp) => true,
            (Action::PageScrollDown, Action::PageScrollDown) => true,
            (Action::HalfPageScrollUp, Action::HalfPageScrollUp) => true,
            (Action::HalfPageScrollDown, Action::HalfPageScrollDown) => true,
            (Action::ToggleFocusFullscreen, Action::ToggleFocusFullscreen) => true,
            (Action::ToggleActiveSyncTab, Action::ToggleActiveSyncTab) => true,
            (Action::NewPane(d1, n1, s1), Action::NewPane(d2, n2, s2)) => *d1 == *d2
                && same_opt_text(n1, n2) && *s1 == *s2,
            (Action::TogglePaneEmbedOrFloating, Action::TogglePaneEmbedOrFloating) => true,
            (Action::ToggleFloatingPanes, Action::ToggleFloatingPanes) => true,
            (Action::CloseFocus, Action::CloseFocus) => true,
            (Action::PaneNameInput(v1), Action::PaneNameInput(v2)) => same_bytes(v1, v2),
            (Action::GoToNextTab, Action::GoToNextTab) => true,
            (Action::GoToPreviousTab, Action::GoToPreviousTab) => true,
            (Action::CloseTab, Action::CloseTab) => true,
            (Action::TabNameInput(v1), Action::TabNameInput(v2)) => same_bytes(v1, v2),
            (Action::Detach, Action::Detach) => true,
            (Action::SearchInput(v1), Action::SearchInput(v2)) => same_bytes(v1, v2),
            (Action::Search(d1), Action::Search(d2)) => *d1 == *d2,
            (Action::BreakPane, Action::BreakPane) => true,
            _ => false,
        }
    }

    /// Whether the action starts the plugin at `plugin_url`.
    pub fn launches_plugin(&self, plugin_url: &str) -> (r: bool)
        ensures
            r == launches_plugin_spec(self@, plugin_url@),
    {
        match self {
            Action::LaunchPlugin(p) => same_text(p.as_str(), plugin_url),
            Action::LaunchOrFocusPlugin(p) => same_text(p.as_str(), plugin_url),
            _ => false,
        }
    }
}

/// Whether a key's actions match the target actions: exactly, action for
/// action, or by their first actions only.
pub open spec fn actions_match(key_actions: Seq<ActionView>, targets: Seq<ActionView>, exact_match: bool) -> bool {
    if exact_match {
        &&& key_actions.len() == targets.len()
        &&& forall|i: int| 0 <= i < targets.len() ==> #[trigger] shallow_eq_spec(key_actions[i], targets[i])
    } else {
        &&& key_actions.len() > 0
        &&& targets.len() > 0
        &&& shallow_eq_spec(key_actions[0], targets[0])
    }
}

/// The keys of `keymap` whose actions match `targets`, in keymap order.
pub open spec fn matching_keys(
    keymap: Seq<(KeyWithModifier, Vec<Action>)>,
    targets: Seq<ActionView>,
    exact_match: bool,
) -> Seq<KeyWithModifier>
    decreases keymap.len(),
{
    if keymap.len() == 0 {
        seq![]
    } else {
        matching_keys(keymap.drop_last(), targets, exact_match) + if actions_match(
            actions_view(keymap.last().1@),
            targets,
            exact_match,
        ) {
            seq![keymap.last().0]
        } else {
            seq![]
        }
    }
}

fn key_actions_match(key_actions: &Vec<Action>, target_actions: &[Action], exact_match: bool) -> (r: bool)
    ensures
        r == actions_match(actions_view(key_actions@), actions_view(target_actions@), exact_match),
{
    if exact_match {
        let n = if key_actions.len() < target_actions.len() {
            key_actions.len()
        } else {
            target_actions.len()
        };
        let mut matching: usize = 0;
        for i in 0..n
            invariant
                n <= key_actions@.len(),
                n <= target_actions@.len(),
                matching <= i,
                matching == i <==> forall|j: int|
                    0 <= j < i ==> #[trigger] shallow_eq_spec(key_actions@[j]@, target_actions@[j]@),
        {
            if key_actions[i].shallow_eq(&target_actions[i]) {
                matching = matching + 1;
            } else {
                assert(!shallow_eq_spec(key_actions@[i as int]@, target_actions@[i as int]@));
            }
        }
        proof {
            let kv = actions_view(key_actions@);
            let tv = actions_view(target_actions@);
            assert forall|j: int| 0 <= j < n implies kv[j] == key_actions@[j]@ && tv[j]
                == target_actions@[j]@ by {}
            if matching == key_actions.len() && matching == target_actions.len() {
                assert forall|j: int| 0 <= j < tv.len() implies #[trigger] shallow_eq_spec(kv[j], tv[j]) by {
                    assert(shallow_eq_spec(key_actions@[j]@, target_actions@[j]@));
                }
            } else if kv.len() == tv.len() {
                assert(n == kv.len());
                let j = choose|j: int| 0 <= j < n && !#[trigger] shallow_eq_spec(key_actions@[j]@, target_actions@[j]@);
                assert(!shallow_eq_spec(kv[j], tv[j]));
            }
        }
        matching == key_actions.len() && matching == target_actions.len()
    } else {
        proof {
            if key_actions@.len() > 0 && target_actions@.len() > 0 {
                assert(actions_view(key_actions@)[0] == key_actions@[0]@);
                assert(actions_view(target_actions@)[0] == target_actions@[0]@);
            }
        }
        if key_actions.len() > 0 && target_actions.len() > 0 {
            key_actions[0].shallow_eq(&target_actions[0])
        } else {
            false
        }
    }
}

/// The keys whose actions match the target actions, in keymap order: with
/// `exact_match` every action must match, else only the first ones.
pub fn find_keys_for_actions(
    keymap: &[(KeyWithModifier, Vec<Action>)],
    target_actions: &[Action],
    exact_match: bool,
) -> (keys: Vec<KeyWithModifier>)
    ensures
        keys@ == matching_keys(keymap@, actions_view(target_actions@), exact_match),
{
    let mut keys: Vec<KeyWithModifier> = Vec::new();
    for i in 0..keymap.len()
        invariant
            keys@ == matching_keys(keymap@.take(i as int), actions_view(target_actions@), exact_match),
    {
        assert(keymap@.take(i + 1).drop_last() =~= keymap@.take(i as int));
        if key_actions_match(&keymap[i].1, target_actions, exact_match) {
            keys.push(keymap[i].0);
        }
        assert(keys@ =~= matching_keys(keymap@.take(i + 1), actions_view(target_actions@), exact_match));
    }
    assert(keymap@.take(keymap@.len() as int) =~= keymap@);
    keys
}

/// The views of a sequence of action groups.
pub open spec fn groups_view(gs: Seq<Vec<Action>>) -> Seq<Seq<ActionView>> {
    gs.map_values(|g: Vec<Action>| actions_view(g@))
}

/// The keys bound exactly to each group of actions, group after group.
pub open spec fn group_keys(keymap: Seq<(KeyWithModifier, Vec<Action>)>, groups: Seq<Seq<ActionView>>) -> Seq<
    KeyWithModifier,
>
    decreases groups.len(),
{
    if groups.len() == 0 {
        seq![]
    } else {
        group_keys(keymap, groups.drop_last()) + matching_keys(keymap, groups.last(), true)
    }
}

/// The keys bound exactly to each group of actions, group after group.
pub fn find_keys_for_action_groups(
    keymap: &[(KeyWithModifier, Vec<Action>)],
    action_groups: &[Vec<Action>],
) -> (keys: Vec<KeyWithModifier>)
    ensures
        keys@ == group_keys(keymap@, groups_view(action_groups@)),
{
    let mut keys: Vec<KeyWithModifier> = Vec::new();
    for i in 0..action_groups.len()
        invariant
            keys@ == group_keys(keymap@, groups_view(action_groups@.take(i as int))),
    {
        assert(groups_view(action_groups@.take(i + 1)).drop_last() =~= groups_view(action_groups@.take(i as int)));
        let mut found = find_keys_for_actions(keymap, action_groups[i].as_slice(), true);
        keys.append(&mut found);
    }
    assert(action_groups@.take(action_groups@.len() as int) =~= action_groups@);
    keys
}

/// Whether one of the actions starts the plugin at `location`.
pub open spec fn any_launches(actions: Seq<Action>, location: Seq<char>) -> bool {
    exists|i: int| 0 <= i < actions.len() && #[trigger] launches_plugin_spec(actions[i]@, location)
}

/// The first key of `keymap` one of whose actions starts the plugin.
pub open spec fn first_plugin_key(keymap: Seq<(KeyWithModifier, Vec<Action>)>, location: Seq<char>) -> Option<
    KeyWithModifier,
>
    decreases keymap.len(),
{
    if keymap.len() == 0 {
        None
    } else if any_launches(keymap[0].1@, location) {
        Some(keymap[0].0)
    } else {
        first_plugin_key(keymap.drop_first(), location)
    }
}

proof fn lemma_first_plugin_key_skip(keymap: Seq<(KeyWithModifier, Vec<Action>)>, location: Seq<char>, i: int)
    requires
        0 <= i <= keymap.len(),
        forall|j: int| 0 <= j < i ==> !any_launches(#[trigger] keymap[j].1@, location),
    ensures
        first_plugin_key(keymap, location) == first_plugin_key(keymap.skip(i), location),
    decreases i,
{
    if i > 0 {
        assert(!any_launches(keymap[0].1@, location));
        lemma_first_plugin_key_skip(keymap.drop_first(), location, i - 1);
        assert(keymap.drop_first().skip(i - 1) =~= keymap.skip(i));
    } else {
        assert(keymap.skip(0) =~= keymap);
    }
}

fn any_action_launches(actions: &Vec<Action>, plugin_name: &str) -> (r: bool)
    ensures
        r == any_launches(actions@, plugin_name@),
{
    for j in 0..actions.len()
        invariant
            forall|k: int| 0 <= k < j ==> !launches_plugin_spec(#[trigger] actions@[k]@, plugin_name@),
    {
        if actions[j].launches_plugin(plugin_name) {
            return true;
        }
    }
    false
}

/// The first key bound to an action that starts the plugin at `plugin_name`.
pub fn plugin_key(keymap: &[(KeyWithModifier, Vec<Action>)], plugin_name: &str) -> (key: Option<
    KeyWithModifier,
>)
    ensures
        key == first_plugin_key(keymap@, plugin_name@),
{
    for i in 0..keymap.len()
        invariant
            forall|j: int| 0 <= j < i ==> !any_launches(#[trigger] keymap@[j].1@, plugin_name@),
    {
        let found = any_action_launches(&keymap[i].1, plugin_name);
        proof {
            lemma_first_plugin_key_skip(keymap@, plugin_name@, i as int);
        }
        if found {
            return Some(keymap[i].0);
        }
    }
    proof {
        lemma_first_plugin_key_skip(keymap@, plugin_name@, keymap@.len() as int);
    }
    None
}

/// The keys that return to normal mode.
pub open spec fn to_normal_keys(keymap: Seq<(KeyWithModifier, Vec<Action>)>) -> Seq<KeyWithModifier> {
    matching_keys(keymap, seq![ActionView::SwitchToMode(InputMode::Normal)], true)
}

/// A plain key with no modifiers.
pub open spec fn plain_key(b: BareKey) -> KeyWithModifier {
    KeyWithModifier { bare_key: b, key_modifiers: no_modifiers() }
}

/// The keys offered for "select": Enter when it returns to normal mode, else
/// the first key that does, if any.
pub open spec fn select_keys(keymap: Seq<(KeyWithModifier, Vec<Action>)>) -> Seq<KeyWithModifier> {
    let keys = to_normal_keys(keymap);
    if keys.contains(plain_key(BareKey::Enter)) {
        seq![plain_key(BareKey::Enter)]
    } else if keys.len() == 0 {
        seq![]
    } else {
        seq![keys[0]]
    }
}

pub(crate) fn contains_key(keys: &Vec<KeyWithModifier>, key: KeyWithModifier) -> (r: bool)
    ensures
        r == keys@.contains(key),
{
    for i in 0..keys.len()
        invariant
            forall|j: int| 0 <= j < i ==> keys@[j] != key,
    {
        if keys[i] == key {
            return true;
        }
    }
    false
}

/// The keys shown for "select": Enter when it returns to normal mode,
/// otherwise the first key that returns to normal mode, if any.
pub fn get_select_key(keymap: &[(KeyWithModifier, Vec<Action>)]) -> (keys: Vec<KeyWithModifier>)
    ensures
        keys@ == select_keys(keymap@),
{
    let target = vec![Action::SwitchToMode(InputMode::Normal)];
    let to_normal = find_keys_for_actions(keymap, target.as_slice(), true);
    assert(actions_view(target@) =~= seq![ActionView::SwitchToMode(InputMode::Normal)]);
    let enter = KeyWithModifier::new(BareKey::Enter);
    if contains_key(&to_normal, enter) {
        let r = vec![KeyWithModifier::new(BareKey::Enter)];
        assert(r@ =~= seq![plain_key(BareKey::Enter)]);
        r
    } else if to_normal.len() == 0 {
        Vec::new()
    } else {
        let r = vec![to_normal[0]];
        assert(r@ =~= seq![to_normal@[0]]);
        r
    }
}

/// What the plugin learns of the current mode: the mode, the base mode, and
/// the keymap of each mode.
pub struct ModeInfo {
    pub mode: InputMode,
    pub base_mode: Option<InputMode>,
    pub keybinds: Vec<(InputMode, Vec<(KeyWithModifier, Vec<Action>)>)>,
}

/// The keymap of `mode`: that of the first entry for it, or none.
pub open spec fn keybinds_for_mode(
    keybinds: Seq<(InputMode, Vec<(KeyWithModifier, Vec<Action>)>)>,
    mode: InputMode,
) -> Seq<(KeyWithModifier, Vec<Action>)>
    decreases keybinds.len(),
{
    if keybinds.len() == 0 {
        seq![]
    } else if keybinds[0].0 == mode {
        keybinds[0].1@
    } else {
        keybinds_for_mode(keybinds.drop_first(), mode)
    }
}

proof fn lemma_keybinds_for_mode_skip(
    keybinds: Seq<(InputMode, Vec<(KeyWithModifier, Vec<Action>)>)>,
    mode: InputMode,
    i: int,
)
    requires
        0 <= i <= keybinds.len(),
        forall|j: int| 0 <= j < i ==> (#[trigger] keybinds[j]).0 != mode,
    ensures
        keybinds_for_mode(keybinds, mode) == keybinds_for_mode(keybinds.skip(i), mode),
    decreases i,
{
    if i > 0 {
        assert(keybinds[0].0 != mode);
        lemma_keybinds_for_mode_skip(keybinds.drop_first(), mode, i - 1);
        assert(keybinds.drop_first().skip(i - 1) =~= keybinds.skip(i));
    } else {
        assert(keybinds.skip(0) =~= keybinds);
    }
}

impl ModeInfo {
    /// The keymap of `mode`: that of the first entry for it, or none.
    pub fn get_keybinds_for_mode(&self, mode: InputMode) -> (keymap: &[(KeyWithModifier, Vec<Action>)])
        ensures
            keymap@ == keybinds_for_mode(self.keybinds@, mode),
    {
        for i in 0..self.keybinds.len()
            invariant
                forall|j: int| 0 <= j < i ==> (#[trigger] self.keybinds@[j]).0 != mode,
        {
            if self.keybinds[i].0 == mode {
                proof {
                    lemma_keybinds_for_mode_skip(self.keybinds@, mode, i as int);
                }
                return self.keybinds[i].1.as_slice();
            }
        }
        proof {
            lemma_keybinds_for_mode_skip(self.keybinds@, mode, self.keybinds@.len() as int);
        }
        &[]
    }
}

/// The keymap of the current mode.
pub fn get_keymap_for_mode(mode_info: &ModeInfo) -> (keymap: &[(KeyWithModifier, Vec<Action>)])
    ensures
        keymap@ == keybinds_for_mode(mode_info.keybinds@, mode_info.mode),
{
    mode_info.get_keybinds_for_mode(mode_info.mode)
}

/// Whether a keymap entry has actions and its first action matches `a`.
pub open spec fn first_action_matches(entry: (KeyWithModifier, Vec<Action>), a: ActionView) -> bool {
    entry.1@.len() > 0 && shallow_eq_spec(entry.1@[0]@, a)
}

/// Matching by first actions finds, in keymap order, the key of every entry
/// whose first action matches the first target, and no other: `positions`
/// lists those entries, each once, in increasing order.
pub proof fn law_first_action_keys(keymap: Seq<(KeyWithModifier, Vec<Action>)>, targets: Seq<ActionView>) -> (positions:
    Seq<int>)
    requires
        targets.len() > 0,
    ensures
        matching_keys(keymap, targets, false) == Seq::new(positions.len(), |k: int| keymap[positions[k]].0),
        forall|k: int|
            0 <= k < positions.len() ==> 0 <= #[trigger] positions[k] < keymap.len() && first_action_matches(
                keymap[positions[k]],
                targets[0],
            ),
        forall|k: int, l: int| 0 <= k < l < positions.len() ==> positions[k] < positions[l],
        forall|j: int|
            0 <= j < keymap.len() && first_action_matches(#[trigger] keymap[j], targets[0]) ==> positions.contains(j),
    decreases keymap.len(),
{
    if keymap.len() == 0 {
        let positions = Seq::<int>::empty();
        assert(matching_keys(keymap, targets, false) =~= Seq::new(positions.len(), |k: int| keymap[positions[k]].0));
        positions
    } else {
        let init = keymap.drop_last();
        let prev = law_first_action_keys(init, targets);
        let n = keymap.len() - 1;
        let last_actions = actions_view(keymap.last().1@);
        assert(last_actions.len() == keymap.last().1@.len());
        if last_actions.len() > 0 {
            assert(last_actions[0] == keymap.last().1@[0]@);
        }
        assert forall|j: int| 0 <= j < n implies #[trigger] init[j] == keymap[j] by {}
        if actions_match(last_actions, targets, false) {
            let positions = prev.push(n);
            assert(matching_keys(keymap, targets, false) =~= Seq::new(positions.len(), |k: int| keymap[positions[k]].0)) by {
                assert forall|k: int| 0 <= k < prev.len() implies init[prev[k]] == keymap[prev[k]] by {
                    assert(0 <= prev[k] < n);
                }
            }
            assert forall|k: int|
                0 <= k < positions.len() implies 0 <= #[trigger] positions[k] < keymap.len() && first_action_matches(
                keymap[positions[k]],
                targets[0],
            ) by {
                if k < prev.len() {
                    assert(positions[k] == prev[k]);
                    assert(init[prev[k]] == keymap[prev[k]]);
                }
            }
            assert forall|j: int|
                0 <= j < keymap.len() && first_action_matches(#[trigger] keymap[j], targets[0]) implies positions.contains(
                j,
            ) by {
                if j < n {
                    assert(init[j] == keymap[j]);
                    assert(prev.contains(j));
                    let k = choose|k: int| 0 <= k < prev.len() && prev[k] == j;
                    assert(positions[k] == j);
                } else {
                    assert(positions[prev.len() as int] == j);
                }
            }
            positions
        } else {
            let positions = prev;
            assert(matching_keys(keymap, targets, false) =~= Seq::new(positions.len(), |k: int| keymap[positions[k]].0)) by {
                assert forall|k: int| 0 <= k < prev.len() implies init[prev[k]] == keymap[prev[k]] by {
                    assert(0 <= prev[k] < n);
                }
            }
            assert forall|k: int|
                0 <= k < positions.len() implies 0 <= #[trigger] positions[k] < keymap.len() && first_action_matches(
                keymap[positions[k]],
                targets[0],
            ) by {
                assert(init[prev[k]] == keymap[prev[k]]);
            }
            assert forall|j: int|
                0 <= j < keymap.len() && first_action_matches(#[trigger] keymap[j], targets[0]) implies positions.contains(
                j,
            ) by {
                if j < n {
                    assert(init[j] == keymap[j]);
                } else {
                    assert(keymap[j] == keymap.last());
                }
            }
            positions
        }
    }
}

/// Whether an action is matched only by itself: every action but a plugin
/// launch (any launch of the same kind matches) and `Other` (nothing does).
pub open spec fn matched_only_by_itself(a: ActionView) -> bool {
    !(a is LaunchOrFocusPlugin || a is LaunchPlugin || a is Other)
}

/// The keys of the entries bound to exactly `actions`, in keymap order.
pub open spec fn keys_bound_to(keymap: Seq<(KeyWithModifier, Vec<Action>)>, actions: Seq<ActionView>) -> Seq<
    KeyWithModifier,
> {
    keymap.filter(|e: (KeyWithModifier, Vec<Action>)| actions_view(e.1@) == actions).map_values(
        |e: (KeyWithModifier, Vec<Action>)| e.0,
    )
}

/// The keys of the entries whose first action is `a`, in keymap order.
pub open spec fn keys_first_bound_to(keymap: Seq<(KeyWithModifier, Vec<Action>)>, a: ActionView) -> Seq<
    KeyWithModifier,
> {
    keymap.filter(first_action_is(a)).map_values(|e: (KeyWithModifier, Vec<Action>)| e.0)
}

/// Whether an entry has actions and its first action is `a`.
pub open spec fn first_action_is(a: ActionView) -> spec_fn((KeyWithModifier, Vec<Action>)) -> bool {
    |e: (KeyWithModifier, Vec<Action>)| e.1@.len() > 0 && e.1@[0]@ == a
}

proof fn lemma_matched_only_by_itself(x: ActionView, a: ActionView)
    requires
        matched_only_by_itself(a),
    ensures
        shallow_eq_spec(x, a) <==> x == a,
{
}

proof fn lemma_filter_keys_push(
    keymap: Seq<(KeyWithModifier, Vec<Action>)>,
    pred: spec_fn((KeyWithModifier, Vec<Action>)) -> bool,
)
    requires
        keymap.len() > 0,
    ensures
        keymap.filter(pred).map_values(|e: (KeyWithModifier, Vec<Action>)| e.0) == keymap.drop_last().filter(
            pred,
        ).map_values(|e: (KeyWithModifier, Vec<Action>)| e.0) + if pred(keymap.last()) {
            seq![keymap.last().0]
        } else {
            seq![]
        },
{
    reveal(Seq::filter);
    let f = |e: (KeyWithModifier, Vec<Action>)| e.0;
    let prev = keymap.drop_last().filter(pred);
    if pred(keymap.last()) {
        assert(keymap.filter(pred) == prev.push(keymap.last()));
        assert(prev.push(keymap.last()).map_values(f) =~= prev.map_values(f) + seq![keymap.last().0]);
    } else {
        assert(prev.map_values(f) =~= prev.map_values(f) + Seq::<KeyWithModifier>::empty());
    }
}

/// Exact matching against actions each matched only by itself finds the
/// keys of exactly the entries bound to those actions, in keymap order.
pub proof fn law_exact_keys_are_bound_keys(keymap: Seq<(KeyWithModifier, Vec<Action>)>, targets: Seq<ActionView>)
    requires
        forall|i: int| 0 <= i < targets.len() ==> matched_only_by_itself(#[trigger] targets[i]),
    ensures
        matching_keys(keymap, targets, true) == keys_bound_to(keymap, targets),
    decreases keymap.len(),
{
    if keymap.len() == 0 {
        reveal(Seq::filter);
        assert(keys_bound_to(keymap, targets) =~= seq![]);
    } else {
        law_exact_keys_are_bound_keys(keymap.drop_last(), targets);
        let pred = |e: (KeyWithModifier, Vec<Action>)| actions_view(e.1@) == targets;
        lemma_filter_keys_push(keymap, pred);
        let av = actions_view(keymap.last().1@);
        if actions_match(av, targets, true) {
            assert forall|i: int| 0 <= i < targets.len() implies av[i] == targets[i] by {
                assert(shallow_eq_spec(av[i], targets[i]));
                lemma_matched_only_by_itself(av[i], targets[i]);
            }
            assert(av =~= targets);
        } else if av == targets {
            assert forall|i: int| 0 <= i < targets.len() implies #[trigger] shallow_eq_spec(av[i], targets[i]) by {
                lemma_matched_only_by_itself(av[i], targets[i]);
            }
        }
    }
}

/// Matching by first actions, with a first target matched only by itself,
/// finds the keys of exactly the entries whose first action is that target,
/// in keymap order.
pub proof fn law_first_keys_are_first_bound_keys(
    keymap: Seq<(KeyWithModifier, Vec<Action>)>,
    targets: Seq<ActionView>,
)
    requires
        targets.len() > 0,
        matched_only_by_itself(targets[0]),
    ensures
        matching_keys(keymap, targets, false) == keys_first_bound_to(keymap, targets[0]),
    decreases keymap.len(),
{
    if keymap.len() == 0 {
        reveal(Seq::filter);
        assert(keys_first_bound_to(keymap, targets[0]) =~= seq![]);
    } else {
        law_first_keys_are_first_bound_keys(keymap.drop_last(), targets);
        let a = targets[0];
        let pred = first_action_is(a);
        lemma_filter_keys_push(keymap, pred);
        let av = actions_view(keymap.last().1@);
        if av.len() > 0 {
            assert(av[0] == keymap.last().1@[0]@);
            lemma_matched_only_by_itself(av[0], a);
        }
        assert(actions_match(av, targets, false) == pred(keymap.last()));
    }
}

/// The keys offered for "select" all return to normal mode, and there is one
/// whenever some key does.
pub proof fn law_select_keys_return_to_normal(keymap: Seq<(KeyWithModifier, Vec<Action>)>)
    ensures
        select_keys(keymap).len() <= 1,
        forall|i: int| 0 <= i < select_keys(keymap).len() ==> to_normal_keys(keymap).contains(
            #[trigger] select_keys(keymap)[i],
        ),
        to_normal_keys(keymap).len() > 0 <==> select_keys(keymap).len() == 1,
{
    let keys = to_normal_keys(keymap);
    if !keys.contains(plain_key(BareKey::Enter)) && keys.len() > 0 {
        assert(keys.contains(keys[0]));
    }
}

/// "select" offers the plain Enter key when it is one of the keys bound to
/// exactly returning to normal mode; otherwise the first such key, if any.
pub proof fn law_select_prefers_enter(keymap: Seq<(KeyWithModifier, Vec<Action>)>)
    ensures
        ({
            let back = keys_bound_to(keymap, seq![ActionView::SwitchToMode(InputMode::Normal)]);
            &&& back.contains(plain_key(BareKey::Enter)) ==> select_keys(keymap) == seq![plain_key(BareKey::Enter)]
            &&& !back.contains(plain_key(BareKey::Enter)) && back.len() > 0 ==> select_keys(keymap) == seq![back[0]]
            &&& back.len() == 0 ==> select_keys(keymap) == Seq::<KeyWithModifier>::empty()
        }),
{
    let t = seq![ActionView::SwitchToMode(InputMode::Normal)];
    assert forall|i: int| 0 <= i < t.len() implies matched_only_by_itself(#[trigger] t[i]) by {}
    law_exact_keys_are_bound_keys(keymap, t);
}

/// Every keymap entry found by exact matching is also found by first-action
/// matching (for non-empty targets); so the keys found exactly are the keys
/// found by first action with some left out, in the same order.
pub proof fn law_exact_keys_within_first_action_keys(
    keymap: Seq<(KeyWithModifier, Vec<Action>)>,
    targets: Seq<ActionView>,
) -> (positions: Seq<int>)
    requires
        targets.len() > 0,
    ensures
        forall|j: int|
            0 <= j < keymap.len() && actions_match(actions_view(keymap[j].1@), targets, true) ==> actions_match(
                actions_view(keymap[j].1@),
                targets,
                false,
            ),
        positions.len() == matching_keys(keymap, targets, true).len(),
        forall|k: int|
            0 <= k < positions.len() ==> 0 <= #[trigger] positions[k] < matching_keys(keymap, targets, false).len()
                && matching_keys(keymap, targets, true)[k] == matching_keys(keymap, targets, false)[positions[k]],
        forall|k: int, l: int| 0 <= k < l < positions.len() ==> positions[k] < positions[l],
    decreases keymap.len(),
{
    assert forall|j: int|
        0 <= j < keymap.len() && actions_match(actions_view(keymap[j].1@), targets, true) implies actions_match(
        actions_view(keymap[j].1@),
        targets,
        false,
    ) by {
        assert(shallow_eq_spec(actions_view(keymap[j].1@)[0], targets[0]));
    }
    if keymap.len() == 0 {
        seq![]
    } else {
        let prev = law_exact_keys_within_first_action_keys(keymap.drop_last(), targets);
        let loose_prev = matching_keys(keymap.drop_last(), targets, false);
        let last_actions = actions_view(keymap.last().1@);
        if actions_match(last_actions, targets, true) {
            assert(shallow_eq_spec(last_actions[0], targets[0]));
            let positions = prev.push(loose_prev.len() as int);
            assert forall|k: int| 0 <= k < positions.len() implies 0 <= #[trigger] positions[k]
                < matching_keys(keymap, targets, false).len() && matching_keys(keymap, targets, true)[k]
                == matching_keys(keymap, targets, false)[positions[k]] by {
                if k < prev.len() {
                    assert(positions[k] == prev[k]);
                }
            }
            positions
        } else {
            prev
        }
    }
}

} // verus!
