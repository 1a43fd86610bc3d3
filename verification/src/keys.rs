//! Keys with modifiers, and how the hints write them.
use vstd::prelude::*;

use crate::config::same_text;
use crate::text::{owned, push_char, push_text};

verus! {

/// A modifier key.
#[derive(Clone, Copy, Debug, PartialEq, Eq, Structural)]
pub enum KeyModifier {
    Ctrl,
    Alt,
    Shift,
    Super,
}

/// A set of modifiers.
#[derive(Clone, Copy, Debug, PartialEq, Eq, Structural)]
pub struct KeyModifiers {
    pub ctrl: bool,
    pub alt: bool,
    pub shift: bool,
    pub superkey: bool,
}

/// A key without its modifiers.
#[derive(Clone, Copy, Debug, PartialEq, Eq, Structural)]
pub enum BareKey {
    PageDown,
    PageUp,
    Left,
    Down,
    Up,
    Right,
    Home,
    End,
    Backspace,
    Delete,
    Insert,
    F(u8),
    Char(char),
    Tab,
    Esc,
    Enter,
    CapsLock,
    ScrollLock,
    NumLock,
    PrintScreen,
    Pause,
    Menu,
}

/// A key together with the modifiers held with it.
#[derive(Clone, Copy, Debug, PartialEq, Eq, Structural)]
pub struct KeyWithModifier {
    pub bare_key: BareKey,
    pub key_modifiers: KeyModifiers,
}

/// Whether `m` is in the set `ms`.
pub open spec fn has_modifier(ms: KeyModifiers, m: KeyModifier) -> bool {
    match m {
        KeyModifier::Ctrl => ms.ctrl,
        KeyModifier::Alt => ms.alt,
        KeyModifier::Shift => ms.shift,
        KeyModifier::Super => ms.superkey,
    }
}

/// The modifiers of `ms` that are not in `except`, in the order Ctrl, Alt,
/// Shift, Super.
pub open spec fn modifier_list_except(ms: KeyModifiers, except: Seq<KeyModifier>) -> Seq<KeyModifier> {
    (if ms.ctrl && !except.contains(KeyModifier::Ctrl) { seq![KeyModifier::Ctrl] } else { seq![] })
        + (if ms.alt && !except.contains(KeyModifier::Alt) { seq![KeyModifier::Alt] } else { seq![] })
        + (if ms.shift && !except.contains(KeyModifier::Shift) { seq![KeyModifier::Shift] } else { seq![] })
        + (if ms.superkey && !except.contains(KeyModifier::Super) { seq![KeyModifier::Super] } else { seq![] })
}

/// The modifiers of `ms`, in the order Ctrl, Alt, Shift, Super.
pub open spec fn modifier_list(ms: KeyModifiers) -> Seq<KeyModifier> {
    modifier_list_except(ms, seq![])
}

/// The modifiers that every key of `keys` has; none when there are no keys.
pub open spec fn common_modifier_set(keys: Seq<KeyWithModifier>) -> KeyModifiers {
    KeyModifiers {
        ctrl: keys.len() > 0 && forall|i: int| 0 <= i < keys.len() ==> #[trigger] keys[i].key_modifiers.ctrl,
        alt: keys.len() > 0 && forall|i: int| 0 <= i < keys.len() ==> #[trigger] keys[i].key_modifiers.alt,
        shift: keys.len() > 0 && forall|i: int| 0 <= i < keys.len() ==> #[trigger] keys[i].key_modifiers.shift,
        superkey: keys.len() > 0 && forall|i: int| 0 <= i < keys.len() ==> #[trigger] keys[i].key_modifiers.superkey,
    }
}

/// The short form of a modifier.
pub open spec fn modifier_text(m: KeyModifier) -> Seq<char> {
    match m {
        KeyModifier::Ctrl => "^"@,
        KeyModifier::Alt => "M-"@,
        KeyModifier::Shift => "S-"@,
        KeyModifier::Super => "Super-"@,
    }
}

/// The short forms of modifiers, one after the other.
pub open spec fn modifiers_text(ms: Seq<KeyModifier>) -> Seq<char>
    decreases ms.len(),
{
    if ms.len() == 0 {
        seq![]
    } else {
        modifiers_text(ms.drop_last()) + modifier_text(ms.last())
    }
}

/// The decimal digit for `d < 10`.
pub open spec fn digit_char(d: nat) -> char {
    (('0' as u32) + d) as char
}

/// `n` written in decimal.
pub open spec fn decimal_text(n: nat) -> Seq<char>
    decreases n,
{
    if n < 10 {
        seq![digit_char(n)]
    } else {
        decimal_text(n / 10).push(digit_char(n % 10))
    }
}

/// How a key is shown without its modifiers.
pub open spec fn bare_key_text(k: BareKey) -> Seq<char> {
    match k {
        BareKey::PageDown => "PgDn"@,
        BareKey::PageUp => "PgUp"@,
        BareKey::Left => "←"@,
        BareKey::Down => "↓"@,
        BareKey::Up => "↑"@,
        BareKey::Right => "→"@,
        BareKey::Home => "HOME"@,
        BareKey::End => "END"@,
        BareKey::Backspace => "BACKSPACE"@,
        BareKey::Delete => "DEL"@,
        BareKey::Insert => "INS"@,
        BareKey::F(index) => "F"@ + decimal_text(index as nat),
        BareKey::Char(c) => if c == ' ' { "SPACE"@ } else { seq![c] },
        BareKey::Tab => "TAB"@,
        BareKey::Esc => "ESC"@,
        BareKey::Enter => "ENTER"@,
        BareKey::CapsLock => "CAPSlOCK"@,
        BareKey::ScrollLock => "SCROLLlOCK"@,
        BareKey::NumLock => "NUMLOCK"@,
        BareKey::PrintScreen => "PRINTSCREEN"@,
        BareKey::Pause => "PAUSE"@,
        BareKey::Menu => "MENU"@,
    }
}

/// A key in its short form: its modifiers, then the key.
pub open spec fn key_short_text(key: KeyWithModifier) -> Seq<char> {
    modifiers_text(modifier_list(key.key_modifiers)) + bare_key_text(key.bare_key)
}

/// A key as the hints show it next to the modifiers that all its keys share:
/// the modifiers that are not shared, then the key.
pub open spec fn key_display_text(key: KeyWithModifier, common: Seq<KeyModifier>) -> Seq<char> {
    modifiers_text(modifier_list_except(key.key_modifiers, common)) + bare_key_text(key.bare_key)
}

/// All strings of `ss`, one after the other.
pub open spec fn joined(ss: Seq<Seq<char>>) -> Seq<char>
    decreases ss.len(),
{
    if ss.len() == 0 {
        seq![]
    } else {
        joined(ss.drop_last()) + ss.last()
    }
}

/// Key sequences that read as a unit and are shown without separators.
pub open spec fn reads_as_unit(s: Seq<char>) -> bool {
    s == "HJKL"@ || s == "hjkl"@ || s == "←↓↑→"@ || s == "←→"@ || s == "↓↑"@ || s == "[]"@
}

/// What separates the keys of one hint: nothing when together they read as a
/// unit, `|` otherwise.
pub open spec fn separator_text(displays: Seq<Seq<char>>) -> Seq<char> {
    if reads_as_unit(joined(displays)) {
        ""@
    } else {
        "|"@
    }
}

/// The views of a sequence of strings.
pub open spec fn string_views(ss: Seq<String>) -> Seq<Seq<char>> {
    ss.map_values(|s: String| s@)
}

impl KeyWithModifier {
    /// A key with no modifiers.
    pub fn new(bare_key: BareKey) -> (k: Self)
        ensures
            k.bare_key == bare_key,
            k.key_modifiers == no_modifiers(),
    {
        KeyWithModifier {
            bare_key,
            key_modifiers: KeyModifiers { ctrl: false, alt: false, shift: false, superkey: false },
        }
    }
}

/// The empty set of modifiers.
pub open spec fn no_modifiers() -> KeyModifiers {
    KeyModifiers { ctrl: false, alt: false, shift: false, superkey: false }
}

fn modifier_list_of(ms: KeyModifiers) -> (r: Vec<KeyModifier>)
    ensures
        r@ == modifier_list(ms),
{
    let mut r: Vec<KeyModifier> = Vec::new();
    if ms.ctrl {
        r.push(KeyModifier::Ctrl);
    }
    if ms.alt {
        r.push(KeyModifier::Alt);
    }
    if ms.shift {
        r.push(KeyModifier::Shift);
    }
    if ms.superkey {
        r.push(KeyModifier::Super);
    }
    assert(r@ =~= modifier_list(ms));
    r
}

/// The modifiers that all the given keys share, in the order Ctrl, Alt, Shift,
/// Super; none for no keys.
pub fn get_common_modifiers(key_bindings: &[KeyWithModifier]) -> (r: Vec<KeyModifier>)
    ensures
        r@ == modifier_list(common_modifier_set(key_bindings@)),
{
    let n = key_bindings.len();
    if n == 0 {
        let r: Vec<KeyModifier> = Vec::new();
        assert(r@ =~= modifier_list(common_modifier_set(key_bindings@)));
        return r;
    }
    let mut common = key_bindings[n - 1].key_modifiers;
    let ghost keys = key_bindings@;
    for i in 0..n - 1
        invariant
            n == keys.len(),
            n > 0,
            keys == key_bindings@,
            common.ctrl == (keys[n - 1].key_modifiers.ctrl && forall|j: int|
                0 <= j < i ==> #[trigger] keys[j].key_modifiers.ctrl),
            common.alt == (keys[n - 1].key_modifiers.alt && forall|j: int|
                0 <= j < i ==> #[trigger] keys[j].key_modifiers.alt),
            common.shift == (keys[n - 1].key_modifiers.shift && forall|j: int|
                0 <= j < i ==> #[trigger] keys[j].key_modifiers.shift),
            common.superkey == (keys[n - 1].key_modifiers.superkey && forall|j: int|
                0 <= j < i ==> #[trigger] keys[j].key_modifiers.superkey),
    {
        let m = key_bindings[i].key_modifiers;
        common = KeyModifiers {
            ctrl: common.ctrl && m.ctrl,
            alt: common.alt && m.alt,
            shift: common.shift && m.shift,
            superkey: common.superkey && m.superkey,
        };
    }
    assert(common == common_modifier_set(keys));
    modifier_list_of(common)
}

/// A modifier in its short form: `^`, `M-`, `S-` or `Super-`.
pub fn format_modifier_short(m: &KeyModifier) -> (s: &'static str)
    ensures
        s@ == modifier_text(*m),
{
    match m {
        KeyModifier::Ctrl => "^",
        KeyModifier::Alt => "M-",
        KeyModifier::Shift => "S-",
        KeyModifier::Super => "Super-",
    }
}

/// Modifiers in their short forms, one after the other.
pub fn format_modifier_string(modifiers: &[KeyModifier]) -> (s: String)
    ensures
        s@ == modifiers_text(modifiers@),
{
    let mut s = String::new();
    for i in 0..modifiers.len()
        invariant
            s@ == modifiers_text(modifiers@.take(i as int)),
    {
        push_text(&mut s, format_modifier_short(&modifiers[i]));
        assert(modifiers@.take(i + 1).drop_last() =~= modifiers@.take(i as int));
    }
    assert(modifiers@.take(modifiers@.len() as int) =~= modifiers@);
    s
}

fn digit(d: u8) -> (c: char)
    requires
        d < 10,
    ensures
        c == digit_char(d as nat),
{
    let c = match d {
        0 => '0',
        1 => '1',
        2 => '2',
        3 => '3',
        4 => '4',
        5 => '5',
        6 => '6',
        7 => '7',
        8 => '8',
        _ => '9',
    };
    c
}

proof fn lemma_decimal_text_u8(n: nat)
    requires
        n < 256,
    ensures
        n >= 100 ==> decimal_text(n) == seq![digit_char(n / 100), digit_char((n / 10) % 10), digit_char(n % 10)],
        10 <= n < 100 ==> decimal_text(n) == seq![digit_char(n / 10), digit_char(n % 10)],
        n < 10 ==> decimal_text(n) == seq![digit_char(n)],
{
    if n >= 10 {
        let m = n / 10;
        assert(decimal_text(n) == decimal_text(m).push(digit_char(n % 10)));
        if m >= 10 {
            assert(m / 10 == n / 100) by (nonlinear_arith)
                requires
                    m == n / 10,
                    n < 256,
            ;
            assert(m / 10 < 10);
            assert(decimal_text(m) == decimal_text(m / 10).push(digit_char(m % 10)));
            assert(decimal_text(m / 10) == seq![digit_char(m / 10)]);
            assert(decimal_text(n) =~= seq![digit_char(n / 100), digit_char((n / 10) % 10), digit_char(n % 10)]);
        } else {
            assert(decimal_text(m) == seq![digit_char(m)]);
            assert(decimal_text(n) =~= seq![digit_char(n / 10), digit_char(n % 10)]);
        }
    }
}

/// Appends `n` written in decimal.
fn push_decimal(s: &mut String, n: u8)
    ensures
        final(s)@ == old(s)@ + decimal_text(n as nat),
{
    proof {
        lemma_decimal_text_u8(n as nat);
    }
    if n >= 100 {
        push_char(s, digit(n / 100));
        push_char(s, digit((n / 10) % 10));
        push_char(s, digit(n % 10));
    } else if n >= 10 {
        push_char(s, digit(n / 10));
        push_char(s, digit(n % 10));
    } else {
        push_char(s, digit(n));
    }
    assert(s@ =~= old(s)@ + decimal_text(n as nat));
}

/// How a key is shown without its modifiers.
pub fn format_bare_key(k: BareKey) -> (s: String)
    ensures
        s@ == bare_key_text(k),
{
    match k {
        BareKey::PageDown => owned("PgDn"),
        BareKey::PageUp => owned("PgUp"),
        BareKey::Left => owned("←"),
        BareKey::Down => owned("↓"),
        BareKey::Up => owned("↑"),
        BareKey::Right => owned("→"),
        BareKey::Home => owned("HOME"),
        BareKey::End => owned("END"),
        BareKey::Backspace => owned("BACKSPACE"),
        BareKey::Delete => owned("DEL"),
        BareKey::Insert => owned("INS"),
        BareKey::F(index) => {
            let mut s = owned("F");
            push_decimal(&mut s, index);
            s
        },
        BareKey::Char(c) => {
            if c == ' ' {
                owned("SPACE")
            } else {
                let mut s = String::new();
                push_char(&mut s, c);
                s
            }
        },
        BareKey::Tab => owned("TAB"),
        BareKey::Esc => owned("ESC"),
        BareKey::Enter => owned("ENTER"),
        BareKey::CapsLock => owned("CAPSlOCK"),
        BareKey::ScrollLock => owned("SCROLLlOCK"),
        BareKey::NumLock => owned("NUMLOCK"),
        BareKey::PrintScreen => owned("PRINTSCREEN"),
        BareKey::Pause => owned("PAUSE"),
        BareKey::Menu => owned("MENU"),
    }
}

/// A key in its short form, such as `^n` or `M-S-←`.
pub fn format_key_short(key: &KeyWithModifier) -> (s: String)
    ensures
        s@ == key_short_text(*key),
{
    let modifiers = modifier_list_of(key.key_modifiers);
    let mods = format_modifier_string(modifiers.as_slice());
    let bare = format_bare_key(key.bare_key);
    if mods.unicode_len() == 0 {
        proof {
            assert(mods@ + bare@ =~= bare@);
        }
        bare
    } else {
        let mut s = mods;
        push_text(&mut s, bare.as_str());
        s
    }
}

fn contains_modifier(ms: &[KeyModifier], m: KeyModifier) -> (r: bool)
    ensures
        r == ms@.contains(m),
{
    for i in 0..ms.len()
        invariant
            forall|j: int| 0 <= j < i ==> ms@[j] != m,
    {
        if ms[i] == m {
            return true;
        }
    }
    false
}

/// Each key as shown beside the modifiers they all share: only the modifiers
/// that are not shared, then the key.
pub fn format_key_display(key_bindings: &[KeyWithModifier], common_modifiers: &[KeyModifier]) -> (r: Vec<String>)
    ensures
        r@.len() == key_bindings@.len(),
        forall|i: int|
            0 <= i < r@.len() ==> #[trigger] r@[i]@ == key_display_text(
                key_bindings@[i],
                common_modifiers@,
            ),
{
    let mut r: Vec<String> = Vec::new();
    for i in 0..key_bindings.len()
        invariant
            r@.len() == i,
            forall|j: int|
                0 <= j < i ==> #[trigger] r@[j]@ == key_display_text(key_bindings@[j], common_modifiers@),
    {
        let key = key_bindings[i];
        let ms = key.key_modifiers;
        let mut unique: Vec<KeyModifier> = Vec::new();
        let mut all_common = true;
        if ms.ctrl {
            if contains_modifier(common_modifiers, KeyModifier::Ctrl) {
            } else {
                unique.push(KeyModifier::Ctrl);
                all_common = false;
            }
        }
        if ms.alt {
            if contains_modifier(common_modifiers, KeyModifier::Alt) {
            } else {
                unique.push(KeyModifier::Alt);
                all_common = false;
            }
        }
        if ms.shift {
            if contains_modifier(common_modifiers, KeyModifier::Shift) {
            } else {
                unique.push(KeyModifier::Shift);
                all_common = false;
            }
        }
        if ms.superkey {
            if contains_modifier(common_modifiers, KeyModifier::Super) {
            } else {
                unique.push(KeyModifier::Super);
                all_common = false;
            }
        }
        assert(unique@ =~= modifier_list_except(ms, common_modifiers@));
        let unique_modifiers = format_modifier_string(unique.as_slice());
        let bare = format_bare_key(key.bare_key);
        let text = if all_common {
            proof {
                assert(unique@.len() == 0);
                assert(unique_modifiers@ + bare@ =~= bare@);
            }
            bare
        } else {
            let mut t = unique_modifiers;
            push_text(&mut t, bare.as_str());
            t
        };
        r.push(text);
    }
    r
}

/// The separator between the keys of one hint: empty when the keys together
/// read as `HJKL`, `hjkl`, `←↓↑→`, `←→`, `↓↑` or `[]`, else `|`.
pub fn get_key_separator(key_display: &[String]) -> (sep: &'static str)
    ensures
        sep@ == separator_text(string_views(key_display@)),
{
    let mut key_string = String::new();
    for i in 0..key_display.len()
        invariant
            key_string@ == joined(string_views(key_display@.take(i as int))),
    {
        push_text(&mut key_string, key_display[i].as_str());
        assert(string_views(key_display@.take(i + 1)).drop_last() =~= string_views(
            key_display@.take(i as int),
        ));
    }
    assert(key_display@.take(key_display@.len() as int) =~= key_display@);
    let k = key_string.as_str();
    if same_text(k, "HJKL") || same_text(k, "hjkl") || same_text(k, "←↓↑→") || same_text(k, "←→")
        || same_text(k, "↓↑") || same_text(k, "[]") {
        ""
    } else {
        "|"
    }
}

proof fn lemma_joined_push(ss: Seq<Seq<char>>, x: Seq<char>)
    ensures
        joined(ss.push(x)) == joined(ss) + x,
{
    assert(ss.push(x).drop_last() =~= ss);
}

/// Each arrow key is written as its own arrow, U+2190 to U+2193 (`←`, `↑`,
/// `→`, `↓`); so Left, Down, Up, Right in that order read as the unit `←↓↑→`,
/// as do Left, Right (`←→`) and Down, Up (`↓↑`), while Up, Down do not.
pub proof fn law_arrow_key_texts()
    ensures
        bare_key_text(BareKey::Left) == seq!['\u{2190}'],
        bare_key_text(BareKey::Up) == seq!['\u{2191}'],
        bare_key_text(BareKey::Right) == seq!['\u{2192}'],
        bare_key_text(BareKey::Down) == seq!['\u{2193}'],
        reads_as_unit(
            joined(
                seq![
                    bare_key_text(BareKey::Left),
                    bare_key_text(BareKey::Down),
                    bare_key_text(BareKey::Up),
                    bare_key_text(BareKey::Right),
                ],
            ),
        ),
        reads_as_unit(joined(seq![bare_key_text(BareKey::Left), bare_key_text(BareKey::Right)])),
        reads_as_unit(joined(seq![bare_key_text(BareKey::Down), bare_key_text(BareKey::Up)])),
        !reads_as_unit(joined(seq![bare_key_text(BareKey::Up), bare_key_text(BareKey::Down)])),
{
    reveal_strlit("←");
    reveal_strlit("↓");
    reveal_strlit("↑");
    reveal_strlit("→");
    reveal_strlit("HJKL");
    reveal_strlit("hjkl");
    reveal_strlit("←↓↑→");
    reveal_strlit("←→");
    reveal_strlit("↓↑");
    reveal_strlit("[]");
    let l = bare_key_text(BareKey::Left);
    let d = bare_key_text(BareKey::Down);
    let u = bare_key_text(BareKey::Up);
    let r = bare_key_text(BareKey::Right);
    let e = Seq::<Seq<char>>::empty();
    assert(joined(e) == Seq::<char>::empty());
    lemma_joined_push(e, l);
    lemma_joined_push(e.push(l), d);
    lemma_joined_push(e.push(l).push(d), u);
    lemma_joined_push(e.push(l).push(d).push(u), r);
    lemma_joined_push(e.push(l), r);
    lemma_joined_push(e, d);
    lemma_joined_push(e.push(d), u);
    lemma_joined_push(e, u);
    lemma_joined_push(e.push(u), d);
    assert(e.push(l).push(d).push(u).push(r) =~= seq![l, d, u, r]);
    assert(e.push(l).push(r) =~= seq![l, r]);
    assert(e.push(d).push(u) =~= seq![d, u]);
    assert(e.push(u).push(d) =~= seq![u, d]);
    assert(joined(seq![l, d, u, r]) =~= "←↓↑→"@);
    assert(joined(seq![l, r]) =~= "←→"@);
    assert(joined(seq![d, u]) =~= "↓↑"@);
    let ud = seq![u, d];
    assert(joined(ud) =~= seq!['\u{2191}', '\u{2193}']);
    assert(joined(ud)[0] != "↓↑"@[0]);
    assert(joined(ud)[0] != "←↓↑→"@[0]);
    assert(joined(ud)[0] != "←→"@[0]);
    assert(joined(ud)[0] != "HJKL"@[0]);
    assert(joined(ud)[0] != "hjkl"@[0]);
    assert(joined(ud)[0] != "[]"@[0]);
}

/// A key with no modifiers is shown by its bare name alone.
pub proof fn law_plain_key_short_text(key: KeyWithModifier)
    requires
        key.key_modifiers == no_modifiers(),
    ensures
        key_short_text(key) == bare_key_text(key.bare_key),
{
    assert(modifier_list(key.key_modifiers) =~= seq![]);
    assert(modifiers_text(seq![]) == Seq::<char>::empty());
    assert(Seq::<char>::empty() + bare_key_text(key.bare_key) =~= bare_key_text(key.bare_key));
}

proof fn lemma_digit_char_value(d: nat)
    requires
        d < 10,
    ensures
        crate::config::decimal_digit_value(digit_char(d)) == Some(d),
{
    assert(('0' as u32) == 48);
    assert((48 + d) as u32 as char as u32 == 48 + d);
}

/// A number written in decimal is all digits, and reading the digits back
/// gives the number.
pub proof fn law_decimal_text_reads_back(n: nat)
    ensures
        crate::config::all_decimal_digits(decimal_text(n)),
        crate::config::digits_value(decimal_text(n)) == n,
    decreases n,
{
    let t = decimal_text(n);
    if n < 10 {
        lemma_digit_char_value(n);
        assert(t.drop_last() =~= Seq::<char>::empty());
        assert(crate::config::digits_value(t.drop_last()) == 0);
    } else {
        law_decimal_text_reads_back(n / 10);
        lemma_digit_char_value(n % 10);
        let p = decimal_text(n / 10);
        assert(t == p.push(digit_char(n % 10)));
        assert(t.drop_last() =~= p);
        assert(crate::config::digits_value(t) == crate::config::digits_value(p) * 10 + n % 10);
        assert((n / 10) * 10 + n % 10 == n) by (nonlinear_arith);
        assert forall|i: int| 0 <= i < t.len() implies (#[trigger] crate::config::decimal_digit_value(t[i])) is Some by {
            if i < p.len() {
                assert(t[i] == p[i]);
            }
        }
    }
}

/// A number up to `usize::MAX` written in decimal reads back, as a `usize`
/// option value is read, as that number.
pub proof fn law_decimal_text_parses_back(n: usize)
    ensures
        crate::config::parsed_usize(decimal_text(n as nat)) == Some(n),
{
    let t = decimal_text(n as nat);
    law_decimal_text_reads_back(n as nat);
    assert(t.len() > 0);
    assert(crate::config::decimal_digit_value(t[0]) is Some);
    assert(t[0] != '+');
}

/// A key all of whose modifiers are shared is shown by its bare name alone.
pub proof fn law_all_shared_shows_bare_key(key: KeyWithModifier, common: Seq<KeyModifier>)
    requires
        forall|m: KeyModifier| has_modifier(key.key_modifiers, m) ==> common.contains(m),
    ensures
        key_display_text(key, common) == bare_key_text(key.bare_key),
{
    assert(has_modifier(key.key_modifiers, KeyModifier::Ctrl) ==> common.contains(KeyModifier::Ctrl));
    assert(has_modifier(key.key_modifiers, KeyModifier::Alt) ==> common.contains(KeyModifier::Alt));
    assert(has_modifier(key.key_modifiers, KeyModifier::Shift) ==> common.contains(KeyModifier::Shift));
    assert(has_modifier(key.key_modifiers, KeyModifier::Super) ==> common.contains(KeyModifier::Super));
    assert(modifier_list_except(key.key_modifiers, common) =~= seq![]);
    assert(modifiers_text(seq![]) == Seq::<char>::empty());
    assert(Seq::<char>::empty() + bare_key_text(key.bare_key) =~= bare_key_text(key.bare_key));
}

/// The shared modifiers are exactly those that every one of the keys has.
pub proof fn law_common_modifiers_shared(keys: Seq<KeyWithModifier>, m: KeyModifier)
    requires
        keys.len() > 0,
    ensures
        has_modifier(common_modifier_set(keys), m) <==> forall|i: int|
            0 <= i < keys.len() ==> has_modifier(#[trigger] keys[i].key_modifiers, m),
{
    match m {
        KeyModifier::Ctrl => {
            assert(forall|i: int| 0 <= i < keys.len() ==> (has_modifier(#[trigger] keys[i].key_modifiers, m) == keys[i].key_modifiers.ctrl));
        },
        KeyModifier::Alt => {
            assert(forall|i: int| 0 <= i < keys.len() ==> (has_modifier(#[trigger] keys[i].key_modifiers, m) == keys[i].key_modifiers.alt));
        },
        KeyModifier::Shift => {
            assert(forall|i: int| 0 <= i < keys.len() ==> (has_modifier(#[trigger] keys[i].key_modifiers, m) == keys[i].key_modifiers.shift));
        },
        KeyModifier::Super => {
            assert(forall|i: int| 0 <= i < keys.len() ==> (has_modifier(#[trigger] keys[i].key_modifiers, m) == keys[i].key_modifiers.superkey));
        },
    }
}

} // verus!
