//! Turning the keys of a mode into styled hint segments.
use vstd::prelude::*;

use crate::color::{Rgb, ThemeColors};
use crate::keys::{
    common_modifier_set, format_key_display, format_modifier_string, get_common_modifiers,
    get_key_separator, joined, key_display_text, modifier_list, modifiers_text, reads_as_unit, separator_text,
    string_views, KeyModifier, KeyWithModifier,
};
use crate::text::{owned, push_text};

verus! {

/// A piece of text with its colours and weight.
pub struct StyledText {
    pub fg: Rgb,
    pub bg: Rgb,
    pub bold: bool,
    pub text: String,
}

/// A colour as a triple of its components.
pub open spec fn rgb_triple(c: Rgb) -> (u8, u8, u8) {
    (c.r, c.g, c.b)
}

/// A styled piece as plain values: foreground, background, bold, text.
pub open spec fn part(fg: Rgb, bg: Rgb, bold: bool, text: Seq<char>) -> ((u8, u8, u8), (u8, u8, u8), bool, Seq<char>) {
    (rgb_triple(fg), rgb_triple(bg), bold, text)
}

impl View for StyledText {
    type V = ((u8, u8, u8), (u8, u8, u8), bool, Seq<char>);

    open spec fn view(&self) -> ((u8, u8, u8), (u8, u8, u8), bool, Seq<char>) {
        part(self.fg, self.bg, self.bold, self.text@)
    }
}

/// The views of styled pieces.
pub open spec fn parts_view(parts: Seq<StyledText>) -> Seq<((u8, u8, u8), (u8, u8, u8), bool, Seq<char>)> {
    parts.map_values(|p: StyledText| p@)
}

/// The arrow that joins hint segments.
pub open spec fn arrow() -> Seq<char> {
    "\u{e0b0}"@
}

/// How each key shows beside the shared modifiers.
pub open spec fn key_displays(keys: Seq<KeyWithModifier>, common: Seq<KeyModifier>) -> Seq<Seq<char>> {
    Seq::new(keys.len(), |i: int| key_display_text(keys[i], common))
}

/// The keys one after the other, in bold, with the separator between them
/// when there is one.
pub open spec fn key_sequence_parts(displays: Seq<Seq<char>>, sep: Seq<char>, theme: ThemeColors) -> Seq<
    ((u8, u8, u8), (u8, u8, u8), bool, Seq<char>),
>
    decreases displays.len(),
{
    if displays.len() == 0 {
        seq![]
    } else {
        key_sequence_parts(displays.drop_last(), sep, theme) + (if displays.len() > 1 && sep.len() > 0 {
            seq![part(theme.key_fg, theme.key_bg, false, sep)]
        } else {
            seq![]
        }) + seq![part(theme.key_fg, theme.key_bg, true, displays.last())]
    }
}

/// The key part of a hint: a space, the shared modifiers in bold, the keys,
/// and a space; nothing for no keys.
pub open spec fn key_parts(keys: Seq<KeyWithModifier>, theme: ThemeColors) -> Seq<
    ((u8, u8, u8), (u8, u8, u8), bool, Seq<char>),
> {
    if keys.len() == 0 {
        seq![]
    } else {
        let common = modifier_list(common_modifier_set(keys));
        let mods = modifiers_text(common);
        let displays = key_displays(keys, common);
        let sep = separator_text(displays);
        seq![part(theme.key_fg, theme.key_bg, false, " "@)] + (if mods.len() > 0 {
            seq![part(theme.key_fg, theme.key_bg, true, mods)]
        } else {
            seq![]
        }) + key_sequence_parts(displays, sep, theme) + seq![part(theme.key_fg, theme.key_bg, false, " "@)]
    }
}

/// The description part of a hint, padded with a space on each side.
pub open spec fn description_parts(description: Seq<char>, theme: ThemeColors) -> Seq<
    ((u8, u8, u8), (u8, u8, u8), bool, Seq<char>),
> {
    seq![part(theme.desc_fg, theme.desc_bg, false, " "@ + description + " "@)]
}

/// The pieces of one hint after a segment of background `prev_bg`: an arrow
/// from the previous segment when there is one, the keys, an arrow, the
/// description; nothing for no keys.
pub open spec fn hint_parts(
    keys: Seq<KeyWithModifier>,
    description: Seq<char>,
    theme: ThemeColors,
    prev_bg: Option<Rgb>,
) -> Seq<((u8, u8, u8), (u8, u8, u8), bool, Seq<char>)> {
    if keys.len() == 0 {
        seq![]
    } else {
        (match prev_bg {
            Some(p) => seq![part(p, theme.key_bg, false, arrow())],
            None => seq![],
        }) + key_parts(keys, theme) + seq![part(theme.key_bg, theme.desc_bg, false, arrow())]
            + description_parts(description, theme)
    }
}

/// The keys in bold, in order, with one separator piece between each two
/// consecutive keys when the separator is not empty, and none otherwise.
pub proof fn law_key_sequence_alternates(displays: Seq<Seq<char>>, sep: Seq<char>, theme: ThemeColors)
    requires
        displays.len() > 0,
    ensures
        sep.len() > 0 ==> {
            let ps = key_sequence_parts(displays, sep, theme);
            &&& ps.len() == 2 * displays.len() - 1
            &&& forall|i: int| 0 <= i < displays.len() ==> ps[2 * i] == part(theme.key_fg, theme.key_bg, true, #[trigger] displays[i])
            &&& forall|i: int| 0 <= i < displays.len() - 1 ==> #[trigger] ps[2 * i + 1] == part(theme.key_fg, theme.key_bg, false, sep)
        },
        sep.len() == 0 ==> {
            let ps = key_sequence_parts(displays, sep, theme);
            &&& ps.len() == displays.len()
            &&& forall|i: int| 0 <= i < displays.len() ==> ps[i] == part(theme.key_fg, theme.key_bg, true, #[trigger] displays[i])
        },
    decreases displays.len(),
{
    let n = displays.len();
    let ps = key_sequence_parts(displays, sep, theme);
    let prev = displays.drop_last();
    if n == 1 {
        assert(key_sequence_parts(prev, sep, theme) == Seq::<((u8, u8, u8), (u8, u8, u8), bool, Seq<char>)>::empty());
        assert(ps =~= seq![part(theme.key_fg, theme.key_bg, true, displays[0])]);
    } else {
        law_key_sequence_alternates(prev, sep, theme);
        let pp = key_sequence_parts(prev, sep, theme);
        if sep.len() > 0 {
            assert(ps =~= pp + seq![part(theme.key_fg, theme.key_bg, false, sep)] + seq![
                part(theme.key_fg, theme.key_bg, true, displays.last()),
            ]);
            assert forall|i: int| 0 <= i < n implies ps[2 * i] == part(theme.key_fg, theme.key_bg, true, #[trigger] displays[i]) by {
                if i < n - 1 {
                    assert(prev[i] == displays[i]);
                }
            }
            assert forall|i: int| 0 <= i < n - 1 implies #[trigger] ps[2 * i + 1] == part(theme.key_fg, theme.key_bg, false, sep) by {
                if i < n - 2 {
                    assert(pp[2 * i + 1] == part(theme.key_fg, theme.key_bg, false, sep));
                }
            }
        } else {
            assert(ps =~= pp + seq![part(theme.key_fg, theme.key_bg, true, displays.last())]);
            assert forall|i: int| 0 <= i < n implies ps[i] == part(theme.key_fg, theme.key_bg, true, #[trigger] displays[i]) by {
                if i < n - 1 {
                    assert(prev[i] == displays[i]);
                }
            }
        }
    }
}

/// The key part of a hint with keys: a space; the shared modifiers in bold
/// when there are any; each key in bold, in order, with a `|` piece between
/// each two consecutive keys unless together they read as a unit; a space.
pub proof fn law_key_parts_layout(keys: Seq<KeyWithModifier>, theme: ThemeColors)
    requires
        keys.len() > 0,
    ensures
        ({
            let common = modifier_list(common_modifier_set(keys));
            let mods = modifiers_text(common);
            let start: int = if mods.len() > 0 { 2 } else { 1 };
            let ps = key_parts(keys, theme);
            let k = keys.len() as int;
            &&& ps[0] == part(theme.key_fg, theme.key_bg, false, " "@)
            &&& mods.len() > 0 ==> ps[1] == part(theme.key_fg, theme.key_bg, true, mods)
            &&& ps.last() == part(theme.key_fg, theme.key_bg, false, " "@)
            &&& !reads_as_unit(joined(key_displays(keys, common))) ==> {
                &&& ps.len() == start + 2 * k
                &&& forall|i: int| 0 <= i < k ==> #[trigger] ps[start + 2 * i] == part(
                    theme.key_fg,
                    theme.key_bg,
                    true,
                    key_display_text(keys[i], common),
                )
                &&& forall|i: int| 0 <= i < k - 1 ==> #[trigger] ps[start + 2 * i + 1] == part(
                    theme.key_fg,
                    theme.key_bg,
                    false,
                    "|"@,
                )
            }
            &&& reads_as_unit(joined(key_displays(keys, common))) ==> {
                &&& ps.len() == start + k + 1
                &&& forall|i: int| 0 <= i < k ==> #[trigger] ps[start + i] == part(
                    theme.key_fg,
                    theme.key_bg,
                    true,
                    key_display_text(keys[i], common),
                )
            }
        }),
{
    let common = modifier_list(common_modifier_set(keys));
    let mods = modifiers_text(common);
    let displays = key_displays(keys, common);
    let sep = separator_text(displays);
    let start: int = if mods.len() > 0 { 2 } else { 1 };
    let head = seq![part(theme.key_fg, theme.key_bg, false, " "@)] + (if mods.len() > 0 {
        seq![part(theme.key_fg, theme.key_bg, true, mods)]
    } else {
        seq![]
    });
    let mid = key_sequence_parts(displays, sep, theme);
    let ps = key_parts(keys, theme);
    assert(ps == head + mid + seq![part(theme.key_fg, theme.key_bg, false, " "@)]);
    assert(head.len() == start);
    reveal_strlit("|");
    law_key_sequence_alternates(displays, sep, theme);
    if !reads_as_unit(joined(displays)) {
        assert(sep == "|"@);
        assert forall|i: int| 0 <= i < keys.len() implies #[trigger] ps[start + 2 * i] == part(
            theme.key_fg,
            theme.key_bg,
            true,
            key_display_text(keys[i], common),
        ) by {
            assert(mid[2 * i] == part(theme.key_fg, theme.key_bg, true, displays[i]));
        }
        assert forall|i: int| 0 <= i < keys.len() - 1 implies #[trigger] ps[start + 2 * i + 1] == part(
            theme.key_fg,
            theme.key_bg,
            false,
            "|"@,
        ) by {
            assert(mid[2 * i + 1] == part(theme.key_fg, theme.key_bg, false, sep));
        }
    } else {
        reveal_strlit("");
        assert(sep.len() == 0);
        assert forall|i: int| 0 <= i < keys.len() implies #[trigger] ps[start + i] == part(
            theme.key_fg,
            theme.key_bg,
            true,
            key_display_text(keys[i], common),
        ) by {
            assert(mid[i] == part(theme.key_fg, theme.key_bg, true, displays[i]));
        }
    }
}

pub(crate) fn styled(fg: Rgb, bg: Rgb, bold: bool, text: String) -> (p: StyledText)
    ensures
        p@ == part(fg, bg, bold, text@),
{
    StyledText { fg, bg, bold, text }
}

proof fn lemma_parts_view_push(parts: Seq<StyledText>, p: StyledText)
    ensures
        parts_view(parts.push(p)) == parts_view(parts).push(p@),
{
    assert(parts_view(parts.push(p)) =~= parts_view(parts).push(p@));
}

/// Appends one piece.
pub(crate) fn push_part(parts: &mut Vec<StyledText>, p: StyledText)
    ensures
        parts_view(final(parts)@) == parts_view(old(parts)@).push(p@),
{
    let ghost before = parts@;
    parts.push(p);
    proof {
        lemma_parts_view_push(before, p);
    }
}

/// Appends pieces.
fn append_parts(parts: &mut Vec<StyledText>, more: Vec<StyledText>)
    ensures
        parts_view(final(parts)@) == parts_view(old(parts)@) + parts_view(more@),
{
    let mut more = more;
    let ghost before = parts@;
    let ghost added = more@;
    parts.append(&mut more);
    assert(parts_view(parts@) =~= parts_view(before) + parts_view(added));
}

/// The key part of a hint: a space, the modifiers that all keys share (bold),
/// each key without them (bold) with a separator between keys unless they
/// read as a unit, and a space; nothing for no keys.
pub fn style_key_with_modifier(key_bindings: &[KeyWithModifier], theme: &ThemeColors) -> (parts: Vec<
    StyledText,
>)
    ensures
        parts_view(parts@) == key_parts(key_bindings@, *theme),
{
    if key_bindings.len() == 0 {
        let parts: Vec<StyledText> = Vec::new();
        assert(parts_view(parts@) =~= seq![]);
        return parts;
    }
    let ghost keys = key_bindings@;
    let mut styled_parts: Vec<StyledText> = Vec::new();
    let common_modifiers = get_common_modifiers(key_bindings);
    let modifier_str = format_modifier_string(common_modifiers.as_slice());
    let key_display = format_key_display(key_bindings, common_modifiers.as_slice());
    let ghost displays = key_displays(keys, common_modifiers@);
    assert(string_views(key_display@) =~= displays);
    let key_separator = get_key_separator(key_display.as_slice());

    push_part(&mut styled_parts, styled(theme.key_fg, theme.key_bg, false, owned(" ")));
    if !modifier_str.as_str().is_empty() {
        push_part(&mut styled_parts, styled(theme.key_fg, theme.key_bg, true, modifier_str));
    }
    let ghost head = parts_view(styled_parts@);
    assert(key_sequence_parts(displays.take(0), key_separator@, *theme) =~= seq![]);
    assert(head + key_sequence_parts(displays.take(0), key_separator@, *theme) =~= head);
    for idx in 0..key_display.len()
        invariant
            key_display@.len() == displays.len(),
            string_views(key_display@) == displays,
            parts_view(styled_parts@) == head + key_sequence_parts(
                displays.take(idx as int),
                key_separator@,
                *theme,
            ),
    {
        assert(displays.take(idx + 1).drop_last() =~= displays.take(idx as int));
        assert(displays[idx as int] == key_display@[idx as int]@);
        if idx > 0 && !key_separator.is_empty() {
            push_part(&mut styled_parts, styled(theme.key_fg, theme.key_bg, false, owned(key_separator)));
        }
        push_part(&mut styled_parts, styled(theme.key_fg, theme.key_bg, true, key_display[idx].clone()));
        assert(parts_view(styled_parts@) =~= head + key_sequence_parts(
            displays.take(idx + 1),
            key_separator@,
            *theme,
        ));
    }
    assert(displays.take(displays.len() as int) =~= displays);
    push_part(&mut styled_parts, styled(theme.key_fg, theme.key_bg, false, owned(" ")));
    assert(parts_view(styled_parts@) =~= key_parts(keys, *theme));
    styled_parts
}

/// The description part of a hint: ` description ` in the description colours.
pub fn style_description(description: &str, theme: &ThemeColors) -> (parts: Vec<StyledText>)
    ensures
        parts_view(parts@) == description_parts(description@, *theme),
{
    let mut text = owned(" ");
    push_text(&mut text, description);
    push_text(&mut text, " ");
    let mut parts: Vec<StyledText> = Vec::new();
    push_part(&mut parts, styled(theme.desc_fg, theme.desc_bg, false, text));
    assert(parts_view(parts@) =~= description_parts(description@, *theme));
    parts
}

/// Appends one hint (nothing when there are no keys) and gives the background
/// that the next hint's arrow starts from.
pub fn add_hint(
    parts: &mut Vec<StyledText>,
    keys: &[KeyWithModifier],
    description: &str,
    theme: &ThemeColors,
    prev_bg: Option<Rgb>,
) -> (next_bg: Option<Rgb>)
    ensures
        parts_view(final(parts)@) == parts_view(old(parts)@) + hint_parts(
            keys@,
            description@,
            *theme,
            prev_bg,
        ),
        next_bg == if keys@.len() == 0 {
            prev_bg
        } else {
            Some(theme.desc_bg)
        },
{
    if keys.len() != 0 {
        let ghost before = parts_view(parts@);
        if let Some(prev) = prev_bg {
            push_part(parts, styled(prev, theme.key_bg, false, owned("\u{e0b0}")));
        }
        let styled_keys = style_key_with_modifier(keys, theme);
        append_parts(parts, styled_keys);
        push_part(parts, styled(theme.key_bg, theme.desc_bg, false, owned("\u{e0b0}")));
        let styled_desc = style_description(description, theme);
        append_parts(parts, styled_desc);
        assert(parts_view(parts@) =~= before + hint_parts(keys@, description@, *theme, prev_bg));
        Some(theme.desc_bg)
    } else {
        assert(parts_view(parts@) =~= parts_view(parts@) + hint_parts(keys@, description@, *theme, prev_bg));
        prev_bg
    }
}

} // verus!
