//! Which hints each input mode shows, and how a row of hints is drawn.
use vstd::prelude::*;

use crate::actions::{
    actions_view, contains_key, find_keys_for_action_groups, find_keys_for_actions, first_plugin_key, get_select_key,
    group_keys, groups_view, keys_bound_to, keys_first_bound_to, law_exact_keys_are_bound_keys,
    law_first_keys_are_first_bound_keys, matched_only_by_itself, matching_keys, plain_key, plugin_key, select_keys, Action, ActionView,
    Direction, InputMode, Resize, SearchDirection,
};
use crate::color::{Rgb, ThemeColors};
use crate::config::same_text;
use crate::hints::{add_hint, arrow, hint_parts, part, parts_view, push_part, styled, StyledText};
use crate::keys::{format_key_short, key_short_text, no_modifiers, BareKey, KeyWithModifier};
use crate::text::{owned, push_text};

verus! {

/// One hint: keys with a description, or (for a scroll hint with two keys) a
/// ready-made key text with a description.
pub enum Hint {
    Keys(Vec<KeyWithModifier>, String),
    Combined(String, String),
}

/// What a hint holds, as plain values.
pub enum HintView {
    Keys(Seq<KeyWithModifier>, Seq<char>),
    Combined(Seq<char>, Seq<char>),
}

impl View for Hint {
    type V = HintView;

    open spec fn view(&self) -> HintView {
        match self {
            Hint::Keys(keys, label) => HintView::Keys(keys@, label@),
            Hint::Combined(text, label) => HintView::Combined(text@, label@),
        }
    }
}

/// The views of a sequence of hints.
pub open spec fn hints_view(hs: Seq<Hint>) -> Seq<HintView> {
    hs.map_values(|h: Hint| h@)
}

/// The pieces of one hint after a segment of background `prev_bg`.
pub open spec fn one_hint_parts(h: HintView, theme: ThemeColors, prev_bg: Option<Rgb>) -> Seq<
    ((u8, u8, u8), (u8, u8, u8), bool, Seq<char>),
> {
    match h {
        HintView::Keys(keys, label) => hint_parts(keys, label, theme, prev_bg),
        HintView::Combined(text, label) => (match prev_bg {
            Some(p) => seq![part(p, theme.key_bg, false, arrow())],
            None => seq![],
        }) + seq![
            part(theme.key_fg, theme.key_bg, true, " "@ + text + " "@),
            part(theme.key_bg, theme.desc_bg, false, arrow()),
            part(theme.desc_fg, theme.desc_bg, false, " "@ + label),
        ],
    }
}

/// The background after one hint: that of a description, or the previous
/// one when the hint shows nothing.
pub open spec fn one_hint_next(h: HintView, theme: ThemeColors, prev_bg: Option<Rgb>) -> Option<Rgb> {
    match h {
        HintView::Keys(keys, _) => if keys.len() == 0 {
            prev_bg
        } else {
            Some(theme.desc_bg)
        },
        HintView::Combined(_, _) => Some(theme.desc_bg),
    }
}

/// The background after a row of hints.
pub open spec fn chain_end(hs: Seq<HintView>, theme: ThemeColors) -> Option<Rgb>
    decreases hs.len(),
{
    if hs.len() == 0 {
        None
    } else {
        one_hint_next(hs.last(), theme, chain_end(hs.drop_last(), theme))
    }
}

/// The pieces of a row of hints, each joined to the one before by an arrow.
pub open spec fn chain_parts(hs: Seq<HintView>, theme: ThemeColors) -> Seq<
    ((u8, u8, u8), (u8, u8, u8), bool, Seq<char>),
>
    decreases hs.len(),
{
    if hs.len() == 0 {
        seq![]
    } else {
        chain_parts(hs.drop_last(), theme) + one_hint_parts(hs.last(), theme, chain_end(hs.drop_last(), theme))
    }
}

/// The action that returns to normal mode.
pub open spec fn to_normal() -> ActionView {
    ActionView::SwitchToMode(InputMode::Normal)
}

/// The keys bound to exactly `a`.
pub open spec fn keys_for(km: Seq<(KeyWithModifier, Vec<Action>)>, a: ActionView) -> Seq<KeyWithModifier> {
    matching_keys(km, seq![a], true)
}

/// The keys bound to exactly `a` then `b`.
pub open spec fn keys_for_both(km: Seq<(KeyWithModifier, Vec<Action>)>, a: ActionView, b: ActionView) -> Seq<
    KeyWithModifier,
> {
    matching_keys(km, seq![a, b], true)
}

/// The keys whose first action matches `a` (the target being `a` then `b`).
pub open spec fn keys_starting(km: Seq<(KeyWithModifier, Vec<Action>)>, a: ActionView, b: ActionView) -> Seq<
    KeyWithModifier,
> {
    matching_keys(km, seq![a, b], false)
}

/// The keys bound to `a`, then those bound to `b`.
pub open spec fn keys_for_pair(km: Seq<(KeyWithModifier, Vec<Action>)>, a: ActionView, b: ActionView) -> Seq<
    KeyWithModifier,
> {
    group_keys(km, seq![seq![a], seq![b]])
}

/// The keys bound to each of four actions, in turn.
pub open spec fn keys_for_four(
    km: Seq<(KeyWithModifier, Vec<Action>)>,
    a: ActionView,
    b: ActionView,
    c: ActionView,
    d: ActionView,
) -> Seq<KeyWithModifier> {
    group_keys(km, seq![seq![a], seq![b], seq![c], seq![d]])
}

/// A hint for the keys that start the plugin, if one does.
pub open spec fn plugin_hint(km: Seq<(KeyWithModifier, Vec<Action>)>, location: Seq<char>, label: Seq<char>) -> Seq<
    HintView,
> {
    match first_plugin_key(km, location) {
        Some(k) => seq![HintView::Keys(seq![k], label)],
        None => seq![],
    }
}

/// The keys for moving between tabs: just ← and → when both are bound,
/// otherwise all of them.
pub open spec fn tab_move_keys(km: Seq<(KeyWithModifier, Vec<Action>)>) -> Seq<KeyWithModifier> {
    let full = keys_for_pair(km, ActionView::GoToPreviousTab, ActionView::GoToNextTab);
    if full.contains(plain_key(BareKey::Left)) && full.contains(plain_key(BareKey::Right)) {
        seq![plain_key(BareKey::Left), plain_key(BareKey::Right)]
    } else {
        full
    }
}

/// A tmux-mode hint: none without keys; the scroll hint with two or more keys
/// shows the first two in short form around a separator (`|` when narrow,
/// ` | ` otherwise).
pub open spec fn tmux_hint(km: Seq<(KeyWithModifier, Vec<Action>)>, a: ActionView, label: Seq<char>, narrow: bool) -> Seq<
    HintView,
> {
    let keys = keys_for(km, a);
    if keys.len() == 0 {
        seq![]
    } else if label == "scroll"@ && keys.len() >= 2 {
        seq![
            HintView::Combined(
                key_short_text(keys[0]) + (if narrow {
                    "|"@
                } else {
                    " | "@
                }) + key_short_text(keys[1]),
                label,
            ),
        ]
    } else {
        seq![HintView::Keys(keys, label)]
    }
}

/// The hints of normal mode.
pub open spec fn normal_hints(km: Seq<(KeyWithModifier, Vec<Action>)>) -> Seq<HintView> {
    seq![
            HintView::Keys(keys_for(km, ActionView::SwitchToMode(InputMode::Pane)), "pane"@),
            HintView::Keys(keys_for(km, ActionView::SwitchToMode(InputMode::Tab)), "tab"@),
            HintView::Keys(keys_for(km, ActionView::SwitchToMode(InputMode::Resize)), "resize"@),
            HintView::Keys(keys_for(km, ActionView::SwitchToMode(InputMode::Move)), "move"@),
            HintView::Keys(keys_for(km, ActionView::SwitchToMode(InputMode::Scroll)), "scroll"@),
            HintView::Keys(keys_for(km, ActionView::SwitchToMode(InputMode::Search)), "search"@),
            HintView::Keys(keys_for(km, ActionView::SwitchToMode(InputMode::Session)), "session"@),
            HintView::Keys(keys_for(km, ActionView::Quit), "quit"@),
        ]
}

/// The hints of pane mode.
pub open spec fn pane_hints(km: Seq<(KeyWithModifier, Vec<Action>)>) -> Seq<HintView> {
    let select = HintView::Keys(select_keys(km), "select"@);
    seq![
            HintView::Keys(keys_starting(km, ActionView::NewPane(None, None, false), to_normal()), "new"@),
            HintView::Keys(keys_starting(km, ActionView::CloseFocus, to_normal()), "close"@),
            HintView::Keys(keys_starting(km, ActionView::ToggleFocusFullscreen, to_normal()), "fullscreen"@),
            HintView::Keys(keys_starting(km, ActionView::ToggleFloatingPanes, to_normal()), "float"@),
            HintView::Keys(keys_starting(km, ActionView::TogglePaneEmbedOrFloating, to_normal()), "embed"@),
            HintView::Keys(
                keys_starting(km, ActionView::NewPane(Some(Direction::Right), None, false), to_normal()),
                "split right"@,
            ),
            HintView::Keys(
                keys_starting(km, ActionView::NewPane(Some(Direction::Down), None, false), to_normal()),
                "split down"@,
            ),
            HintView::Keys(
                keys_starting(
                    km,
                    ActionView::SwitchToMode(InputMode::RenamePane),
                    ActionView::PaneNameInput(seq![0u8]),
                ),
                "rename"@,
            ),
            HintView::Keys(
                keys_for_four(
                    km,
                    ActionView::MoveFocus(Direction::Left),
                    ActionView::MoveFocus(Direction::Down),
                    ActionView::MoveFocus(Direction::Up),
                    ActionView::MoveFocus(Direction::Right),
                ),
                "move"@,
            ),
            select,
        ]
}

/// The hints of tab mode.
pub open spec fn tab_hints(km: Seq<(KeyWithModifier, Vec<Action>)>) -> Seq<HintView> {
    let select = HintView::Keys(select_keys(km), "select"@);
    seq![
            HintView::Keys(keys_starting(km, ActionView::NewTab, to_normal()), "new"@),
            HintView::Keys(keys_starting(km, ActionView::CloseTab, to_normal()), "close"@),
            HintView::Keys(keys_starting(km, ActionView::BreakPane, to_normal()), "break pane"@),
            HintView::Keys(keys_starting(km, ActionView::ToggleActiveSyncTab, to_normal()), "sync"@),
            HintView::Keys(
                keys_starting(
                    km,
                    ActionView::SwitchToMode(InputMode::RenameTab),
                    ActionView::TabNameInput(seq![0u8]),
                ),
                "rename"@,
            ),
            HintView::Keys(tab_move_keys(km), "move"@),
            select,
        ]
}

/// The hints of resize mode.
pub open spec fn resize_hints(km: Seq<(KeyWithModifier, Vec<Action>)>) -> Seq<HintView> {
    let select = HintView::Keys(select_keys(km), "select"@);
    seq![
            HintView::Keys(
                keys_for_pair(
                    km,
                    ActionView::Resize(Resize::Increase, None),
                    ActionView::Resize(Resize::Decrease, None),
                ),
                "resize"@,
            ),
            HintView::Keys(
                keys_for_four(
                    km,
                    ActionView::Resize(Resize::Increase, Some(Direction::Left)),
                    ActionView::Resize(Resize::Increase, Some(Direction::Down)),
                    ActionView::Resize(Resize::Increase, Some(Direction::Up)),
                    ActionView::Resize(Resize::Increase, Some(Direction::Right)),
                ),
                "increase"@,
            ),
            HintView::Keys(
                keys_for_four(
                    km,
                    ActionView::Resize(Resize::Decrease, Some(Direction::Left)),
                    ActionView::Resize(Resize::Decrease, Some(Direction::Down)),
                    ActionView::Resize(Resize::Decrease, Some(Direction::Up)),
                    ActionView::Resize(Resize::Decrease, Some(Direction::Right)),
                ),
                "decrease"@,
            ),
            select,
        ]
}

/// The hints of move mode.
pub open spec fn move_hints(km: Seq<(KeyWithModifier, Vec<Action>)>) -> Seq<HintView> {
    let select = HintView::Keys(select_keys(km), "select"@);
    seq![
            HintView::Keys(
                keys_for_four(
                    km,
                    ActionView::MovePane(Some(Direction::Left)),
                    ActionView::MovePane(Some(Direction::Down)),
                    ActionView::MovePane(Some(Direction::Up)),
                    ActionView::MovePane(Some(Direction::Right)),
                ),
                "move"@,
            ),
            select,
        ]
}

/// The hints of scroll mode.
pub open spec fn scroll_hints(km: Seq<(KeyWithModifier, Vec<Action>)>) -> Seq<HintView> {
    let select = HintView::Keys(select_keys(km), "select"@);
    seq![
            HintView::Keys(
                keys_for_both(km, ActionView::SwitchToMode(InputMode::EnterSearch), ActionView::SearchInput(seq![0u8])),
                "search"@,
            ),
            HintView::Keys(keys_for_pair(km, ActionView::ScrollDown, ActionView::ScrollUp), "scroll"@),
            HintView::Keys(keys_for_pair(km, ActionView::PageScrollDown, ActionView::PageScrollUp), "page"@),
            HintView::Keys(
                keys_for_pair(km, ActionView::HalfPageScrollDown, ActionView::HalfPageScrollUp),
                "half page"@,
            ),
            HintView::Keys(keys_starting(km, ActionView::EditScrollback, to_normal()), "edit"@),
            select,
        ]
}

/// The hints of search mode.
pub open spec fn search_hints(km: Seq<(KeyWithModifier, Vec<Action>)>) -> Seq<HintView> {
    let select = HintView::Keys(select_keys(km), "select"@);
    seq![
            HintView::Keys(
                keys_for_both(km, ActionView::SwitchToMode(InputMode::EnterSearch), ActionView::SearchInput(seq![0u8])),
                "search"@,
            ),
            HintView::Keys(keys_for_pair(km, ActionView::ScrollDown, ActionView::ScrollUp), "scroll"@),
            HintView::Keys(keys_for_pair(km, ActionView::PageScrollDown, ActionView::PageScrollUp), "page"@),
            HintView::Keys(
                keys_for_pair(km, ActionView::HalfPageScrollDown, ActionView::HalfPageScrollUp),
                "half page"@,
            ),
            HintView::Keys(keys_for(km, ActionView::Search(SearchDirection::Down)), "down"@),
            HintView::Keys(keys_for(km, ActionView::Search(SearchDirection::Up)), "up"@),
            select,
        ]
}

/// The hints of session mode.
pub open spec fn session_hints(km: Seq<(KeyWithModifier, Vec<Action>)>) -> Seq<HintView> {
    let select = HintView::Keys(select_keys(km), "select"@);
    seq![HintView::Keys(keys_for(km, ActionView::Detach), "detach"@)]
            + plugin_hint(km, "session-manager"@, "manager"@) + plugin_hint(km, "configuration"@, "config"@)
            + plugin_hint(km, "plugin-manager"@, "plugins"@) + plugin_hint(km, "zellij:about"@, "about"@)
            + seq![select]
}

/// The hints of tmux mode.
pub open spec fn tmux_hints(km: Seq<(KeyWithModifier, Vec<Action>)>, available_width: usize) -> Seq<HintView> {
    let select = HintView::Keys(select_keys(km), "select"@);
    let narrow = available_width < 60;
    tmux_hint(km, ActionView::SwitchToMode(InputMode::Pane), "pane"@, narrow) + tmux_hint(
        km,
        ActionView::SwitchToMode(InputMode::Tab),
        "tab"@,
        narrow,
    ) + tmux_hint(km, ActionView::SwitchToMode(InputMode::Resize), "resize"@, narrow) + tmux_hint(
        km,
        ActionView::SwitchToMode(InputMode::Move),
        "move"@,
        narrow,
    ) + tmux_hint(km, ActionView::SwitchToMode(InputMode::Scroll), "scroll"@, narrow) + tmux_hint(
        km,
        ActionView::SwitchToMode(InputMode::Session),
        "session"@,
        narrow,
    ) + tmux_hint(km, ActionView::SwitchToMode(InputMode::Locked), "lock"@, narrow) + if narrow {
        seq![]
    } else {
        seq![select]
    }
}

/// The hints of each mode, in order.
pub open spec fn mode_hints(mode: InputMode, km: Seq<(KeyWithModifier, Vec<Action>)>, available_width: usize) -> Seq<
    HintView,
> {
    match mode {
        InputMode::Normal => normal_hints(km),
        InputMode::Pane => pane_hints(km),
        InputMode::Tab => tab_hints(km),
        InputMode::Resize => resize_hints(km),
        InputMode::Move => move_hints(km),
        InputMode::Scroll => scroll_hints(km),
        InputMode::Search => search_hints(km),
        InputMode::Session => session_hints(km),
        InputMode::Tmux => tmux_hints(km, available_width),
        _ => seq![HintView::Keys(keys_for(km, to_normal()), "normal"@)],
    }
}

/// A hint without keys shows nothing and leaves the arrows of the others as
/// they are: a row with one more such hint, anywhere, draws the same pieces.
pub proof fn law_keyless_hint_shows_nothing(hs: Seq<HintView>, i: int, label: Seq<char>, theme: ThemeColors)
    requires
        0 <= i <= hs.len(),
    ensures
        chain_parts(hs.insert(i, HintView::Keys(seq![], label)), theme) == chain_parts(hs, theme),
        chain_end(hs.insert(i, HintView::Keys(seq![], label)), theme) == chain_end(hs, theme),
    decreases hs.len(),
{
    let h = HintView::Keys(Seq::<KeyWithModifier>::empty(), label);
    let t = hs.insert(i, h);
    if i == hs.len() {
        assert(t.drop_last() =~= hs);
        assert(t.last() == h);
        assert(hint_parts(seq![], label, theme, chain_end(hs, theme)) =~= seq![]);
        assert(chain_parts(t, theme) =~= chain_parts(hs, theme));
    } else {
        law_keyless_hint_shows_nothing(hs.drop_last(), i, label, theme);
        assert(t.drop_last() =~= hs.drop_last().insert(i, h));
        assert(t.last() == hs.last());
    }
}

/// Whether a hint shows anything: all but a hint without keys do.
pub open spec fn shows_something(h: HintView) -> bool {
    match h {
        HintView::Keys(keys, _) => keys.len() > 0,
        HintView::Combined(_, _) => true,
    }
}

/// After a row of hints the next arrow starts from the description
/// background when some hint of the row showed something, and there is none
/// otherwise.
pub proof fn law_chain_end_after_shown_hint(hs: Seq<HintView>, theme: ThemeColors)
    ensures
        chain_end(hs, theme) == if exists|j: int| 0 <= j < hs.len() && shows_something(#[trigger] hs[j]) {
            Some(theme.desc_bg)
        } else {
            None
        },
    decreases hs.len(),
{
    if hs.len() > 0 {
        let prev = hs.drop_last();
        law_chain_end_after_shown_hint(prev, theme);
        if exists|j: int| 0 <= j < prev.len() && shows_something(#[trigger] prev[j]) {
            let j = choose|j: int| 0 <= j < prev.len() && shows_something(#[trigger] prev[j]);
            assert(hs[j] == prev[j]);
        }
        if exists|j: int| 0 <= j < hs.len() && shows_something(#[trigger] hs[j]) {
            let j = choose|j: int| 0 <= j < hs.len() && shows_something(#[trigger] hs[j]);
            if j < prev.len() {
                assert(prev[j] == hs[j]);
            }
        }
    }
}

/// A hint that shows something begins with an arrow from the description
/// background to the key background exactly when a hint before it in the
/// row showed something.
pub proof fn law_arrow_before_later_hint(hs: Seq<HintView>, h: HintView, theme: ThemeColors)
    requires
        shows_something(h),
    ensures
        ({
            let ps = chain_parts(hs.push(h), theme);
            let n = chain_parts(hs, theme).len();
            &&& ps.len() > n
            &&& (exists|j: int| 0 <= j < hs.len() && shows_something(#[trigger] hs[j])) <==> ps[n as int] == part(
                theme.desc_bg,
                theme.key_bg,
                false,
                arrow(),
            )
        }),
{
    law_chain_end_after_shown_hint(hs, theme);
    let t = hs.push(h);
    assert(t.drop_last() =~= hs);
    let prev_bg = chain_end(hs, theme);
    let ps = chain_parts(t, theme);
    let n = chain_parts(hs, theme).len();
    let own = one_hint_parts(h, theme, prev_bg);
    assert(ps == chain_parts(hs, theme) + own);
    reveal_strlit(" ");
    reveal_strlit("\u{e0b0}");
    assert(" "@[0] != arrow()[0]);
    match h {
        HintView::Keys(keys, label) => {
            assert(own[0] == ps[n as int]);
            if prev_bg is None {
                assert(own[0] == part(theme.key_fg, theme.key_bg, false, " "@));
            }
        },
        HintView::Combined(text, label) => {
            assert(own[0] == ps[n as int]);
        },
    }
}

proof fn lemma_keys_for(km: Seq<(KeyWithModifier, Vec<Action>)>, a: ActionView)
    requires
        matched_only_by_itself(a),
    ensures
        keys_for(km, a) == keys_bound_to(km, seq![a]),
{
    law_exact_keys_are_bound_keys(km, seq![a]);
}

proof fn lemma_keys_for_both(km: Seq<(KeyWithModifier, Vec<Action>)>, a: ActionView, b: ActionView)
    requires
        matched_only_by_itself(a),
        matched_only_by_itself(b),
    ensures
        keys_for_both(km, a, b) == keys_bound_to(km, seq![a, b]),
{
    let t = seq![a, b];
    assert forall|i: int| 0 <= i < t.len() implies matched_only_by_itself(#[trigger] t[i]) by {}
    law_exact_keys_are_bound_keys(km, t);
}

proof fn lemma_keys_starting(km: Seq<(KeyWithModifier, Vec<Action>)>, a: ActionView, b: ActionView)
    requires
        matched_only_by_itself(a),
    ensures
        keys_starting(km, a, b) == keys_first_bound_to(km, a),
{
    law_first_keys_are_first_bound_keys(km, seq![a, b]);
}

proof fn lemma_group_keys_push(km: Seq<(KeyWithModifier, Vec<Action>)>, gs: Seq<Seq<ActionView>>, g: Seq<ActionView>)
    requires
        forall|i: int| 0 <= i < g.len() ==> matched_only_by_itself(#[trigger] g[i]),
    ensures
        group_keys(km, gs.push(g)) == group_keys(km, gs) + keys_bound_to(km, g),
{
    assert(gs.push(g).drop_last() =~= gs);
    law_exact_keys_are_bound_keys(km, g);
}

proof fn lemma_keys_for_pair(km: Seq<(KeyWithModifier, Vec<Action>)>, a: ActionView, b: ActionView)
    requires
        matched_only_by_itself(a),
        matched_only_by_itself(b),
    ensures
        keys_for_pair(km, a, b) == keys_bound_to(km, seq![a]) + keys_bound_to(km, seq![b]),
{
    let e = Seq::<Seq<ActionView>>::empty();
    assert(group_keys(km, e) =~= Seq::<KeyWithModifier>::empty());
    assert forall|i: int| 0 <= i < seq![a].len() implies matched_only_by_itself(#[trigger] seq![a][i]) by {}
    assert forall|i: int| 0 <= i < seq![b].len() implies matched_only_by_itself(#[trigger] seq![b][i]) by {}
    lemma_group_keys_push(km, e, seq![a]);
    lemma_group_keys_push(km, e.push(seq![a]), seq![b]);
    assert(e.push(seq![a]).push(seq![b]) =~= seq![seq![a], seq![b]]);
    assert(Seq::<KeyWithModifier>::empty() + keys_bound_to(km, seq![a]) =~= keys_bound_to(km, seq![a]));
}

proof fn lemma_keys_for_four(
    km: Seq<(KeyWithModifier, Vec<Action>)>,
    a: ActionView,
    b: ActionView,
    c: ActionView,
    d: ActionView,
)
    requires
        matched_only_by_itself(a),
        matched_only_by_itself(b),
        matched_only_by_itself(c),
        matched_only_by_itself(d),
    ensures
        keys_for_four(km, a, b, c, d) == keys_bound_to(km, seq![a]) + keys_bound_to(km, seq![b]) + keys_bound_to(
            km,
            seq![c],
        ) + keys_bound_to(km, seq![d]),
{
    let e = Seq::<Seq<ActionView>>::empty();
    assert(group_keys(km, e) =~= Seq::<KeyWithModifier>::empty());
    assert forall|i: int| 0 <= i < seq![a].len() implies matched_only_by_itself(#[trigger] seq![a][i]) by {}
    assert forall|i: int| 0 <= i < seq![b].len() implies matched_only_by_itself(#[trigger] seq![b][i]) by {}
    assert forall|i: int| 0 <= i < seq![c].len() implies matched_only_by_itself(#[trigger] seq![c][i]) by {}
    assert forall|i: int| 0 <= i < seq![d].len() implies matched_only_by_itself(#[trigger] seq![d][i]) by {}
    lemma_group_keys_push(km, e, seq![a]);
    lemma_group_keys_push(km, e.push(seq![a]), seq![b]);
    lemma_group_keys_push(km, e.push(seq![a]).push(seq![b]), seq![c]);
    lemma_group_keys_push(km, e.push(seq![a]).push(seq![b]).push(seq![c]), seq![d]);
    assert(e.push(seq![a]).push(seq![b]).push(seq![c]).push(seq![d]) =~= seq![seq![a], seq![b], seq![c], seq![d]]);
    assert(Seq::<KeyWithModifier>::empty() + keys_bound_to(km, seq![a]) =~= keys_bound_to(km, seq![a]));
}

/// In normal mode each hint shows the keys bound to exactly one action, in
/// keymap order: entering pane, tab, resize, move, scroll, search and
/// session mode, and quitting.
pub proof fn law_normal_mode_hints(km: Seq<(KeyWithModifier, Vec<Action>)>, available_width: usize)
    ensures
        mode_hints(InputMode::Normal, km, available_width) == seq![
            HintView::Keys(keys_bound_to(km, seq![ActionView::SwitchToMode(InputMode::Pane)]), "pane"@),
            HintView::Keys(keys_bound_to(km, seq![ActionView::SwitchToMode(InputMode::Tab)]), "tab"@),
            HintView::Keys(keys_bound_to(km, seq![ActionView::SwitchToMode(InputMode::Resize)]), "resize"@),
            HintView::Keys(keys_bound_to(km, seq![ActionView::SwitchToMode(InputMode::Move)]), "move"@),
            HintView::Keys(keys_bound_to(km, seq![ActionView::SwitchToMode(InputMode::Scroll)]), "scroll"@),
            HintView::Keys(keys_bound_to(km, seq![ActionView::SwitchToMode(InputMode::Search)]), "search"@),
            HintView::Keys(keys_bound_to(km, seq![ActionView::SwitchToMode(InputMode::Session)]), "session"@),
            HintView::Keys(keys_bound_to(km, seq![ActionView::Quit]), "quit"@),
        ],
{
    lemma_keys_for(km, ActionView::SwitchToMode(InputMode::Pane));
    lemma_keys_for(km, ActionView::SwitchToMode(InputMode::Tab));
    lemma_keys_for(km, ActionView::SwitchToMode(InputMode::Resize));
    lemma_keys_for(km, ActionView::SwitchToMode(InputMode::Move));
    lemma_keys_for(km, ActionView::SwitchToMode(InputMode::Scroll));
    lemma_keys_for(km, ActionView::SwitchToMode(InputMode::Search));
    lemma_keys_for(km, ActionView::SwitchToMode(InputMode::Session));
    lemma_keys_for(km, ActionView::Quit);
}

/// In pane mode the hints show, in this order: the keys whose first action
/// opens a new pane, closes the focused pane, toggles full screen, toggles
/// floating panes, toggles embedding, opens a pane to the right, opens a
/// pane below, and enters pane renaming; then the keys bound to moving the
/// focus left, down, up and right, group after group; then "select".
pub proof fn law_pane_mode_hints(km: Seq<(KeyWithModifier, Vec<Action>)>, available_width: usize)
    ensures
        mode_hints(InputMode::Pane, km, available_width) == seq![
            HintView::Keys(keys_first_bound_to(km, ActionView::NewPane(None, None, false)), "new"@),
            HintView::Keys(keys_first_bound_to(km, ActionView::CloseFocus), "close"@),
            HintView::Keys(keys_first_bound_to(km, ActionView::ToggleFocusFullscreen), "fullscreen"@),
            HintView::Keys(keys_first_bound_to(km, ActionView::ToggleFloatingPanes), "float"@),
            HintView::Keys(keys_first_bound_to(km, ActionView::TogglePaneEmbedOrFloating), "embed"@),
            HintView::Keys(
                keys_first_bound_to(km, ActionView::NewPane(Some(Direction::Right), None, false)),
                "split right"@,
            ),
            HintView::Keys(
                keys_first_bound_to(km, ActionView::NewPane(Some(Direction::Down), None, false)),
                "split down"@,
            ),
            HintView::Keys(keys_first_bound_to(km, ActionView::SwitchToMode(InputMode::RenamePane)), "rename"@),
            HintView::Keys(
                keys_bound_to(km, seq![ActionView::MoveFocus(Direction::Left)]) + keys_bound_to(
                    km,
                    seq![ActionView::MoveFocus(Direction::Down)],
                ) + keys_bound_to(km, seq![ActionView::MoveFocus(Direction::Up)]) + keys_bound_to(
                    km,
                    seq![ActionView::MoveFocus(Direction::Right)],
                ),
                "move"@,
            ),
            HintView::Keys(select_keys(km), "select"@),
        ],
{
    lemma_keys_starting(km, ActionView::NewPane(None, None, false), to_normal());
    lemma_keys_starting(km, ActionView::CloseFocus, to_normal());
    lemma_keys_starting(km, ActionView::ToggleFocusFullscreen, to_normal());
    lemma_keys_starting(km, ActionView::ToggleFloatingPanes, to_normal());
    lemma_keys_starting(km, ActionView::TogglePaneEmbedOrFloating, to_normal());
    lemma_keys_starting(km, ActionView::NewPane(Some(Direction::Right), None, false), to_normal());
    lemma_keys_starting(km, ActionView::NewPane(Some(Direction::Down), None, false), to_normal());
    lemma_keys_starting(km, ActionView::SwitchToMode(InputMode::RenamePane), ActionView::PaneNameInput(seq![0u8]));
    lemma_keys_for_four(
        km,
        ActionView::MoveFocus(Direction::Left),
        ActionView::MoveFocus(Direction::Down),
        ActionView::MoveFocus(Direction::Up),
        ActionView::MoveFocus(Direction::Right),
    );
}

/// In tab mode the hints show, in this order: the keys whose first action
/// opens a new tab, closes the tab, breaks the pane out, toggles sync, and
/// enters tab renaming; then for moving between tabs just the plain ← and →
/// keys when both are among the keys bound to the previous and the next tab,
/// else all those keys (previous tab first); then "select".
pub proof fn law_tab_mode_hints(km: Seq<(KeyWithModifier, Vec<Action>)>, available_width: usize)
    ensures
        ({
            let full = keys_bound_to(km, seq![ActionView::GoToPreviousTab]) + keys_bound_to(
                km,
                seq![ActionView::GoToNextTab],
            );
            let left = KeyWithModifier { bare_key: BareKey::Left, key_modifiers: no_modifiers() };
            let right = KeyWithModifier { bare_key: BareKey::Right, key_modifiers: no_modifiers() };
            mode_hints(InputMode::Tab, km, available_width) == seq![
                HintView::Keys(keys_first_bound_to(km, ActionView::NewTab), "new"@),
                HintView::Keys(keys_first_bound_to(km, ActionView::CloseTab), "close"@),
                HintView::Keys(keys_first_bound_to(km, ActionView::BreakPane), "break pane"@),
                HintView::Keys(keys_first_bound_to(km, ActionView::ToggleActiveSyncTab), "sync"@),
                HintView::Keys(keys_first_bound_to(km, ActionView::SwitchToMode(InputMode::RenameTab)), "rename"@),
                HintView::Keys(
                    if full.contains(left) && full.contains(right) {
                        seq![left, right]
                    } else {
                        full
                    },
                    "move"@,
                ),
                HintView::Keys(select_keys(km), "select"@),
            ]
        }),
{
    lemma_keys_starting(km, ActionView::NewTab, to_normal());
    lemma_keys_starting(km, ActionView::CloseTab, to_normal());
    lemma_keys_starting(km, ActionView::BreakPane, to_normal());
    lemma_keys_starting(km, ActionView::ToggleActiveSyncTab, to_normal());
    lemma_keys_starting(km, ActionView::SwitchToMode(InputMode::RenameTab), ActionView::TabNameInput(seq![0u8]));
    lemma_keys_for_pair(km, ActionView::GoToPreviousTab, ActionView::GoToNextTab);
}

/// In resize mode the hints show the keys bound to increasing then to
/// decreasing the size; then those that increase towards the left, down,
/// up and right; then those that decrease likewise; then "select".
pub proof fn law_resize_mode_hints(km: Seq<(KeyWithModifier, Vec<Action>)>, available_width: usize)
    ensures
        mode_hints(InputMode::Resize, km, available_width) == seq![
            HintView::Keys(
                keys_bound_to(km, seq![ActionView::Resize(Resize::Increase, None)]) + keys_bound_to(
                    km,
                    seq![ActionView::Resize(Resize::Decrease, None)],
                ),
                "resize"@,
            ),
            HintView::Keys(
                keys_bound_to(km, seq![ActionView::Resize(Resize::Increase, Some(Direction::Left))]) + keys_bound_to(
                    km,
                    seq![ActionView::Resize(Resize::Increase, Some(Direction::Down))],
                ) + keys_bound_to(km, seq![ActionView::Resize(Resize::Increase, Some(Direction::Up))])
                    + keys_bound_to(km, seq![ActionView::Resize(Resize::Increase, Some(Direction::Right))]),
                "increase"@,
            ),
            HintView::Keys(
                keys_bound_to(km, seq![ActionView::Resize(Resize::Decrease, Some(Direction::Left))]) + keys_bound_to(
                    km,
                    seq![ActionView::Resize(Resize::Decrease, Some(Direction::Down))],
                ) + keys_bound_to(km, seq![ActionView::Resize(Resize::Decrease, Some(Direction::Up))])
                    + keys_bound_to(km, seq![ActionView::Resize(Resize::Decrease, Some(Direction::Right))]),
                "decrease"@,
            ),
            HintView::Keys(select_keys(km), "select"@),
        ],
{
    lemma_keys_for_pair(km, ActionView::Resize(Resize::Increase, None), ActionView::Resize(Resize::Decrease, None));
    lemma_keys_for_four(
        km,
        ActionView::Resize(Resize::Increase, Some(Direction::Left)),
        ActionView::Resize(Resize::Increase, Some(Direction::Down)),
        ActionView::Resize(Resize::Increase, Some(Direction::Up)),
        ActionView::Resize(Resize::Increase, Some(Direction::Right)),
    );
    lemma_keys_for_four(
        km,
        ActionView::Resize(Resize::Decrease, Some(Direction::Left)),
        ActionView::Resize(Resize::Decrease, Some(Direction::Down)),
        ActionView::Resize(Resize::Decrease, Some(Direction::Up)),
        ActionView::Resize(Resize::Decrease, Some(Direction::Right)),
    );
}

/// In move mode the hints show the keys bound to moving the pane left, down,
/// up and right, group after group; then "select".
pub proof fn law_move_mode_hints(km: Seq<(KeyWithModifier, Vec<Action>)>, available_width: usize)
    ensures
        mode_hints(InputMode::Move, km, available_width) == seq![
            HintView::Keys(
                keys_bound_to(km, seq![ActionView::MovePane(Some(Direction::Left))]) + keys_bound_to(
                    km,
                    seq![ActionView::MovePane(Some(Direction::Down))],
                ) + keys_bound_to(km, seq![ActionView::MovePane(Some(Direction::Up))]) + keys_bound_to(
                    km,
                    seq![ActionView::MovePane(Some(Direction::Right))],
                ),
                "move"@,
            ),
            HintView::Keys(select_keys(km), "select"@),
        ],
{
    lemma_keys_for_four(
        km,
        ActionView::MovePane(Some(Direction::Left)),
        ActionView::MovePane(Some(Direction::Down)),
        ActionView::MovePane(Some(Direction::Up)),
        ActionView::MovePane(Some(Direction::Right)),
    );
}

/// In scroll and search mode the hints start with the keys bound to entering
/// a search, then those bound to scrolling down then up, by a line, a page
/// and half a page; scroll mode goes on with the keys whose first action
/// edits the scrollback, search mode with those bound to searching down and
/// up; both end with "select".
pub proof fn law_scroll_and_search_mode_hints(km: Seq<(KeyWithModifier, Vec<Action>)>, available_width: usize)
    ensures
        ({
            let common = seq![
                HintView::Keys(
                    keys_bound_to(
                        km,
                        seq![ActionView::SwitchToMode(InputMode::EnterSearch), ActionView::SearchInput(seq![0u8])],
                    ),
                    "search"@,
                ),
                HintView::Keys(
                    keys_bound_to(km, seq![ActionView::ScrollDown]) + keys_bound_to(km, seq![ActionView::ScrollUp]),
                    "scroll"@,
                ),
                HintView::Keys(
                    keys_bound_to(km, seq![ActionView::PageScrollDown]) + keys_bound_to(
                        km,
                        seq![ActionView::PageScrollUp],
                    ),
                    "page"@,
                ),
                HintView::Keys(
                    keys_bound_to(km, seq![ActionView::HalfPageScrollDown]) + keys_bound_to(
                        km,
                        seq![ActionView::HalfPageScrollUp],
                    ),
                    "half page"@,
                ),
            ];
            &&& mode_hints(InputMode::Scroll, km, available_width) == common + seq![
                HintView::Keys(keys_first_bound_to(km, ActionView::EditScrollback), "edit"@),
                HintView::Keys(select_keys(km), "select"@),
            ]
            &&& mode_hints(InputMode::Search, km, available_width) == common + seq![
                HintView::Keys(keys_bound_to(km, seq![ActionView::Search(SearchDirection::Down)]), "down"@),
                HintView::Keys(keys_bound_to(km, seq![ActionView::Search(SearchDirection::Up)]), "up"@),
                HintView::Keys(select_keys(km), "select"@),
            ]
        }),
{
    lemma_keys_for_both(km, ActionView::SwitchToMode(InputMode::EnterSearch), ActionView::SearchInput(seq![0u8]));
    lemma_keys_for_pair(km, ActionView::ScrollDown, ActionView::ScrollUp);
    lemma_keys_for_pair(km, ActionView::PageScrollDown, ActionView::PageScrollUp);
    lemma_keys_for_pair(km, ActionView::HalfPageScrollDown, ActionView::HalfPageScrollUp);
    lemma_keys_starting(km, ActionView::EditScrollback, to_normal());
    lemma_keys_for(km, ActionView::Search(SearchDirection::Down));
    lemma_keys_for(km, ActionView::Search(SearchDirection::Up));
    let scroll = mode_hints(InputMode::Scroll, km, available_width);
    let search = mode_hints(InputMode::Search, km, available_width);
    assert(scroll =~= scroll.take(4) + scroll.skip(4));
    assert(search =~= search.take(4) + search.skip(4));
}

/// In session mode the hints show the keys bound to detaching; then, for the
/// session manager, the configuration, the plugin manager and the about
/// screen in turn, the first key one of whose actions starts that plugin, when
/// there is one; then "select".
pub proof fn law_session_mode_hints(km: Seq<(KeyWithModifier, Vec<Action>)>, available_width: usize)
    ensures
        mode_hints(InputMode::Session, km, available_width) == seq![
            HintView::Keys(keys_bound_to(km, seq![ActionView::Detach]), "detach"@),
        ] + (match first_plugin_key(km, "session-manager"@) {
            Some(k) => seq![HintView::Keys(seq![k], "manager"@)],
            None => seq![],
        }) + (match first_plugin_key(km, "configuration"@) {
            Some(k) => seq![HintView::Keys(seq![k], "config"@)],
            None => seq![],
        }) + (match first_plugin_key(km, "plugin-manager"@) {
            Some(k) => seq![HintView::Keys(seq![k], "plugins"@)],
            None => seq![],
        }) + (match first_plugin_key(km, "zellij:about"@) {
            Some(k) => seq![HintView::Keys(seq![k], "about"@)],
            None => seq![],
        }) + seq![HintView::Keys(select_keys(km), "select"@)],
{
    lemma_keys_for(km, ActionView::Detach);
}

/// In every mode without hints of its own (locked, entering a search,
/// renaming a tab or a pane, a prompt) the one hint shows the keys bound to
/// returning to normal mode.
pub proof fn law_other_mode_hints(mode: InputMode, km: Seq<(KeyWithModifier, Vec<Action>)>, available_width: usize)
    requires
        mode == InputMode::Locked || mode == InputMode::EnterSearch || mode == InputMode::RenameTab || mode
            == InputMode::RenamePane || mode == InputMode::Prompt,
    ensures
        mode_hints(mode, km, available_width) == seq![
            HintView::Keys(keys_bound_to(km, seq![ActionView::SwitchToMode(InputMode::Normal)]), "normal"@),
        ],
{
    lemma_keys_for(km, to_normal());
}

/// The tmux-mode hint for one action: nothing without keys bound to exactly
/// that action; otherwise one hint with the action's label.
pub proof fn law_tmux_hint_label(km: Seq<(KeyWithModifier, Vec<Action>)>, a: ActionView, label: Seq<char>, narrow: bool)
    requires
        matched_only_by_itself(a),
    ensures
        keys_bound_to(km, seq![a]).len() == 0 ==> tmux_hint(km, a, label, narrow) == Seq::<HintView>::empty(),
        keys_bound_to(km, seq![a]).len() > 0 ==> tmux_hint(km, a, label, narrow).len() == 1 && match tmux_hint(
            km,
            a,
            label,
            narrow,
        )[0] {
            HintView::Keys(keys, l) => keys == keys_bound_to(km, seq![a]) && l == label,
            HintView::Combined(_, l) => l == label && keys_bound_to(km, seq![a]).len() >= 2,
        },
{
    lemma_keys_for(km, a);
}

/// The label of a hint.
pub open spec fn hint_label(h: HintView) -> Seq<char> {
    match h {
        HintView::Keys(_, l) => l,
        HintView::Combined(_, l) => l,
    }
}

proof fn lemma_no_select_concat(a: Seq<HintView>, b: Seq<HintView>)
    requires
        forall|j: int| 0 <= j < a.len() ==> hint_label(#[trigger] a[j]) != "select"@,
        forall|j: int| 0 <= j < b.len() ==> hint_label(#[trigger] b[j]) != "select"@,
    ensures
        forall|j: int| 0 <= j < (a + b).len() ==> hint_label(#[trigger] (a + b)[j]) != "select"@,
{
    assert forall|j: int| 0 <= j < (a + b).len() implies hint_label(#[trigger] (a + b)[j]) != "select"@ by {
        if j >= a.len() {
            assert((a + b)[j] == b[j - a.len()]);
        }
    }
}

proof fn lemma_tmux_hint_not_select(km: Seq<(KeyWithModifier, Vec<Action>)>, a: ActionView, label: Seq<char>, narrow: bool)
    requires
        label != "select"@,
    ensures
        forall|j: int|
            0 <= j < tmux_hint(km, a, label, narrow).len() ==> hint_label(#[trigger] tmux_hint(km, a, label, narrow)[j])
                != "select"@,
{
}

proof fn lemma_differs_from_select(label: Seq<char>)
    requires
        label == "pane"@ || label == "tab"@ || label == "resize"@ || label == "move"@ || label == "scroll"@
            || label == "session"@ || label == "lock"@,
    ensures
        label != "select"@,
{
    reveal_strlit("select");
    reveal_strlit("pane");
    reveal_strlit("tab");
    reveal_strlit("resize");
    reveal_strlit("move");
    reveal_strlit("scroll");
    reveal_strlit("session");
    reveal_strlit("lock");
    if label.len() == 6 {
        assert(label[0] != "select"@[0] || label[1] != "select"@[1]);
    }
}

/// In tmux mode the "select" hint comes last when the pane is at least 60
/// columns wide, and no hint is labelled "select" when it is narrower.
pub proof fn law_tmux_select_only_when_wide(km: Seq<(KeyWithModifier, Vec<Action>)>, available_width: usize)
    ensures
        available_width >= 60 ==> mode_hints(InputMode::Tmux, km, available_width).last() == HintView::Keys(
            select_keys(km),
            "select"@,
        ),
        available_width < 60 ==> forall|j: int|
            0 <= j < mode_hints(InputMode::Tmux, km, available_width).len() ==> hint_label(
                #[trigger] mode_hints(InputMode::Tmux, km, available_width)[j],
            ) != "select"@,
{
    if available_width < 60 {
        let narrow = true;
        let p0 = tmux_hint(km, ActionView::SwitchToMode(InputMode::Pane), "pane"@, narrow);
        let p1 = tmux_hint(km, ActionView::SwitchToMode(InputMode::Tab), "tab"@, narrow);
        let p2 = tmux_hint(km, ActionView::SwitchToMode(InputMode::Resize), "resize"@, narrow);
        let p3 = tmux_hint(km, ActionView::SwitchToMode(InputMode::Move), "move"@, narrow);
        let p4 = tmux_hint(km, ActionView::SwitchToMode(InputMode::Scroll), "scroll"@, narrow);
        let p5 = tmux_hint(km, ActionView::SwitchToMode(InputMode::Session), "session"@, narrow);
        let p6 = tmux_hint(km, ActionView::SwitchToMode(InputMode::Locked), "lock"@, narrow);
        lemma_differs_from_select("pane"@);
        lemma_differs_from_select("tab"@);
        lemma_differs_from_select("resize"@);
        lemma_differs_from_select("move"@);
        lemma_differs_from_select("scroll"@);
        lemma_differs_from_select("session"@);
        lemma_differs_from_select("lock"@);
        lemma_tmux_hint_not_select(km, ActionView::SwitchToMode(InputMode::Pane), "pane"@, narrow);
        lemma_tmux_hint_not_select(km, ActionView::SwitchToMode(InputMode::Tab), "tab"@, narrow);
        lemma_tmux_hint_not_select(km, ActionView::SwitchToMode(InputMode::Resize), "resize"@, narrow);
        lemma_tmux_hint_not_select(km, ActionView::SwitchToMode(InputMode::Move), "move"@, narrow);
        lemma_tmux_hint_not_select(km, ActionView::SwitchToMode(InputMode::Scroll), "scroll"@, narrow);
        lemma_tmux_hint_not_select(km, ActionView::SwitchToMode(InputMode::Session), "session"@, narrow);
        lemma_tmux_hint_not_select(km, ActionView::SwitchToMode(InputMode::Locked), "lock"@, narrow);
        lemma_no_select_concat(p0, p1);
        lemma_no_select_concat(p0 + p1, p2);
        lemma_no_select_concat(p0 + p1 + p2, p3);
        lemma_no_select_concat(p0 + p1 + p2 + p3, p4);
        lemma_no_select_concat(p0 + p1 + p2 + p3 + p4, p5);
        lemma_no_select_concat(p0 + p1 + p2 + p3 + p4 + p5, p6);
        lemma_no_select_concat(p0 + p1 + p2 + p3 + p4 + p5 + p6, seq![]);
    }
}

fn one_action(keymap: &[(KeyWithModifier, Vec<Action>)], a: Action) -> (keys: Vec<KeyWithModifier>)
    ensures
        keys@ == keys_for(keymap@, a@),
{
    let ghost av = a@;
    let t = vec![a];
    assert(actions_view(t@) =~= seq![av]);
    find_keys_for_actions(keymap, t.as_slice(), true)
}

fn both_actions(keymap: &[(KeyWithModifier, Vec<Action>)], a: Action, b: Action) -> (keys: Vec<KeyWithModifier>)
    ensures
        keys@ == keys_for_both(keymap@, a@, b@),
{
    let ghost av = a@;
    let ghost bv = b@;
    let t = vec![a, b];
    assert(actions_view(t@) =~= seq![av, bv]);
    find_keys_for_actions(keymap, t.as_slice(), true)
}

fn starting_with(keymap: &[(KeyWithModifier, Vec<Action>)], a: Action, b: Action) -> (keys: Vec<KeyWithModifier>)
    ensures
        keys@ == keys_starting(keymap@, a@, b@),
{
    let ghost av = a@;
    let ghost bv = b@;
    let t = vec![a, b];
    assert(actions_view(t@) =~= seq![av, bv]);
    find_keys_for_actions(keymap, t.as_slice(), false)
}

fn pair_of_actions(keymap: &[(KeyWithModifier, Vec<Action>)], a: Action, b: Action) -> (keys: Vec<KeyWithModifier>)
    ensures
        keys@ == keys_for_pair(keymap@, a@, b@),
{
    let ghost av = a@;
    let ghost bv = b@;
    let ga = vec![a];
    let gb = vec![b];
    assert(actions_view(ga@) =~= seq![av]);
    assert(actions_view(gb@) =~= seq![bv]);
    let groups = vec![ga, gb];
    assert(groups_view(groups@) =~= seq![seq![av], seq![bv]]);
    find_keys_for_action_groups(keymap, groups.as_slice())
}

fn four_actions(keymap: &[(KeyWithModifier, Vec<Action>)], a: Action, b: Action, c: Action, d: Action) -> (keys: Vec<
    KeyWithModifier,
>)
    ensures
        keys@ == keys_for_four(keymap@, a@, b@, c@, d@),
{
    let ghost av = a@;
    let ghost bv = b@;
    let ghost cv = c@;
    let ghost dv = d@;
    let ga = vec![a];
    let gb = vec![b];
    let gc = vec![c];
    let gd = vec![d];
    assert(actions_view(ga@) =~= seq![av]);
    assert(actions_view(gb@) =~= seq![bv]);
    assert(actions_view(gc@) =~= seq![cv]);
    assert(actions_view(gd@) =~= seq![dv]);
    let groups = vec![ga, gb, gc, gd];
    assert(groups_view(groups@) =~= seq![seq![av], seq![bv], seq![cv], seq![dv]]);
    find_keys_for_action_groups(keymap, groups.as_slice())
}

fn push_hint(hints: &mut Vec<Hint>, h: Hint)
    ensures
        hints_view(final(hints)@) == hints_view(old(hints)@).push(h@),
{
    let ghost before = hints@;
    let ghost hv = h@;
    hints.push(h);
    assert(hints_view(hints@) =~= hints_view(before).push(hv));
}

fn push_keys(hints: &mut Vec<Hint>, keys: Vec<KeyWithModifier>, label: &str)
    ensures
        hints_view(final(hints)@) == hints_view(old(hints)@).push(HintView::Keys(keys@, label@)),
{
    push_hint(hints, Hint::Keys(keys, owned(label)));
}

fn push_plugin_hint(hints: &mut Vec<Hint>, keymap: &[(KeyWithModifier, Vec<Action>)], location: &str, label: &str)
    ensures
        hints_view(final(hints)@) == hints_view(old(hints)@) + plugin_hint(keymap@, location@, label@),
{
    if let Some(key) = plugin_key(keymap, location) {
        let keys = vec![key];
        assert(keys@ =~= seq![key]);
        push_keys(hints, keys, label);
    } else {
        assert(hints_view(hints@) =~= hints_view(hints@) + plugin_hint(keymap@, location@, label@));
    }
}

fn push_tmux_hint(hints: &mut Vec<Hint>, keymap: &[(KeyWithModifier, Vec<Action>)], a: Action, label: &str, narrow: bool)
    ensures
        hints_view(final(hints)@) == hints_view(old(hints)@) + tmux_hint(keymap@, a@, label@, narrow),
{
    let ghost av = a@;
    let keys = one_action(keymap, a);
    if keys.len() != 0 {
        if same_text(label, "scroll") && keys.len() >= 2 {
            let separator = if narrow {
                "|"
            } else {
                " | "
            };
            let mut combined_label = format_key_short(&keys[0]);
            push_text(&mut combined_label, separator);
            let second = format_key_short(&keys[1]);
            push_text(&mut combined_label, second.as_str());
            push_hint(hints, Hint::Combined(combined_label, owned(label)));
        } else {
            push_keys(hints, keys, label);
        }
    } else {
        assert(hints_view(hints@) =~= hints_view(hints@) + tmux_hint(keymap@, av, label@, narrow));
    }
}

fn tab_focus_keys(keymap: &[(KeyWithModifier, Vec<Action>)]) -> (keys: Vec<KeyWithModifier>)
    ensures
        keys@ == tab_move_keys(keymap@),
{
    let full = pair_of_actions(keymap, Action::GoToPreviousTab, Action::GoToNextTab);
    let left = KeyWithModifier::new(BareKey::Left);
    let right = KeyWithModifier::new(BareKey::Right);
    let has_left = contains_key(&full, left);
    let has_right = contains_key(&full, right);
    if has_left && has_right {
        let r = vec![left, right];
        assert(r@ =~= seq![plain_key(BareKey::Left), plain_key(BareKey::Right)]);
        r
    } else {
        full
    }
}

fn push_normal_hints(hints: &mut Vec<Hint>, keymap: &[(KeyWithModifier, Vec<Action>)])
    requires
        hints_view(old(hints)@) == Seq::<HintView>::empty(),
    ensures
        hints_view(final(hints)@) == normal_hints(keymap@),
{
    push_keys(hints, one_action(keymap, Action::SwitchToMode(InputMode::Pane)), "pane");
    push_keys(hints, one_action(keymap, Action::SwitchToMode(InputMode::Tab)), "tab");
    push_keys(hints, one_action(keymap, Action::SwitchToMode(InputMode::Resize)), "resize");
    push_keys(hints, one_action(keymap, Action::SwitchToMode(InputMode::Move)), "move");
    push_keys(hints, one_action(keymap, Action::SwitchToMode(InputMode::Scroll)), "scroll");
    push_keys(hints, one_action(keymap, Action::SwitchToMode(InputMode::Search)), "search");
    push_keys(hints, one_action(keymap, Action::SwitchToMode(InputMode::Session)), "session");
    push_keys(hints, one_action(keymap, Action::Quit), "quit");
    assert(hints_view(hints@) =~= normal_hints(keymap@));
}

fn push_pane_hints(hints: &mut Vec<Hint>, keymap: &[(KeyWithModifier, Vec<Action>)], selected: Vec<KeyWithModifier>)
    requires
        hints_view(old(hints)@) == Seq::<HintView>::empty(),
        selected@ == select_keys(keymap@),
    ensures
        hints_view(final(hints)@) == pane_hints(keymap@),
{
    let to_normal = Action::SwitchToMode(InputMode::Normal);
    push_keys(hints, starting_with(keymap, Action::NewPane(None, None, false), to_normal), "new");
    push_keys(
        hints,
        starting_with(keymap, Action::CloseFocus, Action::SwitchToMode(InputMode::Normal)),
        "close",
    );
    push_keys(
        hints,
        starting_with(keymap, Action::ToggleFocusFullscreen, Action::SwitchToMode(InputMode::Normal)),
        "fullscreen",
    );
    push_keys(
        hints,
        starting_with(keymap, Action::ToggleFloatingPanes, Action::SwitchToMode(InputMode::Normal)),
        "float",
    );
    push_keys(
        hints,
        starting_with(
            keymap,
            Action::TogglePaneEmbedOrFloating,
            Action::SwitchToMode(InputMode::Normal),
        ),
        "embed",
    );
    push_keys(
        hints,
        starting_with(
            keymap,
            Action::NewPane(Some(Direction::Right), None, false),
            Action::SwitchToMode(InputMode::Normal),
        ),
        "split right",
    );
    push_keys(
        hints,
        starting_with(
            keymap,
            Action::NewPane(Some(Direction::Down), None, false),
            Action::SwitchToMode(InputMode::Normal),
        ),
        "split down",
    );
    let name = vec![0u8];
    assert(name@ =~= seq![0u8]);
    push_keys(
        hints,
        starting_with(keymap, Action::SwitchToMode(InputMode::RenamePane), Action::PaneNameInput(name)),
        "rename",
    );
    push_keys(
        hints,
        four_actions(
            keymap,
            Action::MoveFocus(Direction::Left),
            Action::MoveFocus(Direction::Down),
            Action::MoveFocus(Direction::Up),
            Action::MoveFocus(Direction::Right),
        ),
        "move",
    );
    push_keys(hints, selected, "select");
    assert(hints_view(hints@) =~= pane_hints(keymap@));
}

fn push_tab_hints(hints: &mut Vec<Hint>, keymap: &[(KeyWithModifier, Vec<Action>)], selected: Vec<KeyWithModifier>)
    requires
        hints_view(old(hints)@) == Seq::<HintView>::empty(),
        selected@ == select_keys(keymap@),
    ensures
        hints_view(final(hints)@) == tab_hints(keymap@),
{
    push_keys(hints, starting_with(keymap, Action::NewTab, Action::SwitchToMode(InputMode::Normal)), "new");
    push_keys(
        hints,
        starting_with(keymap, Action::CloseTab, Action::SwitchToMode(InputMode::Normal)),
        "close",
    );
    push_keys(
        hints,
        starting_with(keymap, Action::BreakPane, Action::SwitchToMode(InputMode::Normal)),
        "break pane",
    );
    push_keys(
        hints,
        starting_with(keymap, Action::ToggleActiveSyncTab, Action::SwitchToMode(InputMode::Normal)),
        "sync",
    );
    let name = vec![0u8];
    assert(name@ =~= seq![0u8]);
    push_keys(
        hints,
        starting_with(keymap, Action::SwitchToMode(InputMode::RenameTab), Action::TabNameInput(name)),
        "rename",
    );
    push_keys(hints, tab_focus_keys(keymap), "move");
    push_keys(hints, selected, "select");
    assert(hints_view(hints@) =~= tab_hints(keymap@));
}

fn push_resize_hints(hints: &mut Vec<Hint>, keymap: &[(KeyWithModifier, Vec<Action>)], selected: Vec<KeyWithModifier>)
    requires
        hints_view(old(hints)@) == Seq::<HintView>::empty(),
        selected@ == select_keys(keymap@),
    ensures
        hints_view(final(hints)@) == resize_hints(keymap@),
{
    push_keys(
        hints,
        pair_of_actions(
            keymap,
            Action::Resize(Resize::Increase, None),
            Action::Resize(Resize::Decrease, None),
        ),
        "resize",
    );
    push_keys(
        hints,
        four_actions(
            keymap,
            Action::Resize(Resize::Increase, Some(Direction::Left)),
            Action::Resize(Resize::Increase, Some(Direction::Down)),
            Action::Resize(Resize::Increase, Some(Direction::Up)),
            Action::Resize(Resize::Increase, Some(Direction::Right)),
        ),
        "increase",
    );
    push_keys(
        hints,
        four_actions(
            keymap,
            Action::Resize(Resize::Decrease, Some(Direction::Left)),
            Action::Resize(Resize::Decrease, Some(Direction::Down)),
            Action::Resize(Resize::Decrease, Some(Direction::Up)),
            Action::Resize(Resize::Decrease, Some(Direction::Right)),
        ),
        "decrease",
    );
    push_keys(hints, selected, "select");
    assert(hints_view(hints@) =~= resize_hints(keymap@));
}

fn push_move_hints(hints: &mut Vec<Hint>, keymap: &[(KeyWithModifier, Vec<Action>)], selected: Vec<KeyWithModifier>)
    requires
        hints_view(old(hints)@) == Seq::<HintView>::empty(),
        selected@ == select_keys(keymap@),
    ensures
        hints_view(final(hints)@) == move_hints(keymap@),
{
    push_keys(
        hints,
        four_actions(
            keymap,
            Action::MovePane(Some(Direction::Left)),
            Action::MovePane(Some(Direction::Down)),
            Action::MovePane(Some(Direction::Up)),
            Action::MovePane(Some(Direction::Right)),
        ),
        "move",
    );
    push_keys(hints, selected, "select");
    assert(hints_view(hints@) =~= move_hints(keymap@));
}

fn push_scroll_hints(hints: &mut Vec<Hint>, keymap: &[(KeyWithModifier, Vec<Action>)], selected: Vec<KeyWithModifier>)
    requires
        hints_view(old(hints)@) == Seq::<HintView>::empty(),
        selected@ == select_keys(keymap@),
    ensures
        hints_view(final(hints)@) == scroll_hints(keymap@),
{
    let query = vec![0u8];
    assert(query@ =~= seq![0u8]);
    push_keys(
        hints,
        both_actions(keymap, Action::SwitchToMode(InputMode::EnterSearch), Action::SearchInput(query)),
        "search",
    );
    push_keys(hints, pair_of_actions(keymap, Action::ScrollDown, Action::ScrollUp), "scroll");
    push_keys(hints, pair_of_actions(keymap, Action::PageScrollDown, Action::PageScrollUp), "page");
    push_keys(
        hints,
        pair_of_actions(keymap, Action::HalfPageScrollDown, Action::HalfPageScrollUp),
        "half page",
    );
    push_keys(
        hints,
        starting_with(keymap, Action::EditScrollback, Action::SwitchToMode(InputMode::Normal)),
        "edit",
    );
    push_keys(hints, selected, "select");
    assert(hints_view(hints@) =~= scroll_hints(keymap@));
}

fn push_search_hints(hints: &mut Vec<Hint>, keymap: &[(KeyWithModifier, Vec<Action>)], selected: Vec<KeyWithModifier>)
    requires
        hints_view(old(hints)@) == Seq::<HintView>::empty(),
        selected@ == select_keys(keymap@),
    ensures
        hints_view(final(hints)@) == search_hints(keymap@),
{
    let query = vec![0u8];
    assert(query@ =~= seq![0u8]);
    push_keys(
        hints,
        both_actions(keymap, Action::SwitchToMode(InputMode::EnterSearch), Action::SearchInput(query)),
        "search",
    );
    push_keys(hints, pair_of_actions(keymap, Action::ScrollDown, Action::ScrollUp), "scroll");
    push_keys(hints, pair_of_actions(keymap, Action::PageScrollDown, Action::PageScrollUp), "page");
    push_keys(
        hints,
        pair_of_actions(keymap, Action::HalfPageScrollDown, Action::HalfPageScrollUp),
        "half page",
    );
    push_keys(hints, one_action(keymap, Action::Search(SearchDirection::Down)), "down");
    push_keys(hints, one_action(keymap, Action::Search(SearchDirection::Up)), "up");
    push_keys(hints, selected, "select");
    assert(hints_view(hints@) =~= search_hints(keymap@));
}

fn push_session_hints(hints: &mut Vec<Hint>, keymap: &[(KeyWithModifier, Vec<Action>)], selected: Vec<KeyWithModifier>)
    requires
        hints_view(old(hints)@) == Seq::<HintView>::empty(),
        selected@ == select_keys(keymap@),
    ensures
        hints_view(final(hints)@) == session_hints(keymap@),
{
    push_keys(hints, one_action(keymap, Action::Detach), "detach");
    push_plugin_hint(hints, keymap, "session-manager", "manager");
    push_plugin_hint(hints, keymap, "configuration", "config");
    push_plugin_hint(hints, keymap, "plugin-manager", "plugins");
    push_plugin_hint(hints, keymap, "zellij:about", "about");
    push_keys(hints, selected, "select");
    assert(hints_view(hints@) =~= session_hints(keymap@));
}

fn push_tmux_hints(hints: &mut Vec<Hint>, keymap: &[(KeyWithModifier, Vec<Action>)], selected: Vec<KeyWithModifier>, available_width: usize)
    requires
        hints_view(old(hints)@) == Seq::<HintView>::empty(),
        selected@ == select_keys(keymap@),
    ensures
        hints_view(final(hints)@) == tmux_hints(keymap@, available_width),
{
    let is_narrow = available_width < 60;
    push_tmux_hint(hints, keymap, Action::SwitchToMode(InputMode::Pane), "pane", is_narrow);
    push_tmux_hint(hints, keymap, Action::SwitchToMode(InputMode::Tab), "tab", is_narrow);
    push_tmux_hint(hints, keymap, Action::SwitchToMode(InputMode::Resize), "resize", is_narrow);
    push_tmux_hint(hints, keymap, Action::SwitchToMode(InputMode::Move), "move", is_narrow);
    push_tmux_hint(hints, keymap, Action::SwitchToMode(InputMode::Scroll), "scroll", is_narrow);
    push_tmux_hint(hints, keymap, Action::SwitchToMode(InputMode::Session), "session", is_narrow);
    push_tmux_hint(hints, keymap, Action::SwitchToMode(InputMode::Locked), "lock", is_narrow);
    if !is_narrow {
        push_keys(hints, selected, "select");
    }
    assert(hints_view(hints@) =~= tmux_hints(keymap@, available_width));
}

/// The hints of a mode, in order (see `mode_hints`).
pub fn mode_hint_list(mode: InputMode, keymap: &[(KeyWithModifier, Vec<Action>)], available_width: usize) -> (hints: Vec<
    Hint,
>)
    ensures
        hints_view(hints@) == mode_hints(mode, keymap@, available_width),
{
    let mut hints: Vec<Hint> = Vec::new();
    let selected = get_select_key(keymap);
    assert(hints_view(hints@) =~= Seq::<HintView>::empty());
    match mode {
        InputMode::Normal => push_normal_hints(&mut hints, keymap),
        InputMode::Pane => push_pane_hints(&mut hints, keymap, selected),
        InputMode::Tab => push_tab_hints(&mut hints, keymap, selected),
        InputMode::Resize => push_resize_hints(&mut hints, keymap, selected),
        InputMode::Move => push_move_hints(&mut hints, keymap, selected),
        InputMode::Scroll => push_scroll_hints(&mut hints, keymap, selected),
        InputMode::Search => push_search_hints(&mut hints, keymap, selected),
        InputMode::Session => push_session_hints(&mut hints, keymap, selected),
        InputMode::Tmux => push_tmux_hints(&mut hints, keymap, selected, available_width),
        _ => {
            push_keys(&mut hints, one_action(keymap, Action::SwitchToMode(InputMode::Normal)), "normal");
            assert(hints_view(hints@) =~= mode_hints(mode, keymap@, available_width));
        },
    }
    hints
}

/// Draws a row of hints: each hint's pieces, joined by arrows.
pub fn render_hints(hints: &[Hint], theme: &ThemeColors) -> (parts: Vec<StyledText>)
    ensures
        parts_view(parts@) == chain_parts(hints_view(hints@), *theme),
{
    let ghost hs = hints_view(hints@);
    let mut parts: Vec<StyledText> = Vec::new();
    let mut prev_bg: Option<Rgb> = None;
    assert(parts_view(parts@) =~= seq![]);
    for i in 0..hints.len()
        invariant
            hs == hints_view(hints@),
            parts_view(parts@) == chain_parts(hs.take(i as int), *theme),
            prev_bg == chain_end(hs.take(i as int), *theme),
    {
        assert(hs.take(i + 1).drop_last() =~= hs.take(i as int));
        assert(hs.take(i + 1).last() == hints@[i as int]@);
        match &hints[i] {
            Hint::Keys(keys, label) => {
                prev_bg = add_hint(&mut parts, keys.as_slice(), label.as_str(), theme, prev_bg);
            },
            Hint::Combined(text, label) => {
                let ghost before = parts_view(parts@);
                if let Some(bg) = prev_bg {
                    push_part(&mut parts, styled(bg, theme.key_bg, false, owned("\u{e0b0}")));
                }
                let mut key_text = owned(" ");
                push_text(&mut key_text, text.as_str());
                push_text(&mut key_text, " ");
                push_part(&mut parts, styled(theme.key_fg, theme.key_bg, true, key_text));
                push_part(&mut parts, styled(theme.key_bg, theme.desc_bg, false, owned("\u{e0b0}")));
                let mut desc = owned(" ");
                push_text(&mut desc, label.as_str());
                push_part(&mut parts, styled(theme.desc_fg, theme.desc_bg, false, desc));
                assert(parts_view(parts@) =~= before + one_hint_parts(hints@[i as int]@, *theme, prev_bg));
                prev_bg = Some(theme.desc_bg);
            },
        }
    }
    assert(hs.take(hints@.len() as int) =~= hs);
    parts
}

/// The styled pieces that show the hints of `mode`.
pub fn render_hints_for_mode(
    mode: InputMode,
    keymap: &[(KeyWithModifier, Vec<Action>)],
    theme: &ThemeColors,
    available_width: usize,
) -> (parts: Vec<StyledText>)
    ensures
        parts_view(parts@) == chain_parts(mode_hints(mode, keymap@, available_width), *theme),
{
    let hints = mode_hint_list(mode, keymap, available_width);
    render_hints(hints.as_slice(), theme)
}

} // verus!
