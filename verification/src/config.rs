//! The plugin's configuration: a map from option names to values, and the
//! settings read from it.
use vstd::prelude::*;
use vstd::utf8::encode_utf8;

use crate::color::{hex_color, parse_hex_color, ThemeColors};
use crate::text::{chars_of, owned};

verus! {

/// Whether two strings hold the same characters.
pub fn same_text(a: &str, b: &str) -> (r: bool)
    ensures
        r == (a@ == b@),
{
    let n = a.unicode_len();
    if n != b.unicode_len() {
        return false;
    }
    let mut i: usize = 0;
    while i < n
        invariant
            n == a@.len(),
            n == b@.len(),
            i <= n,
            forall|j: int| 0 <= j < i ==> a@[j] == b@[j],
        decreases n - i,
    {
        if a.get_char(i) != b.get_char(i) {
            return false;
        }
        i = i + 1;
    }
    assert(a@ =~= b@);
    true
}

/// Option names mapped to their values; each name occurs once.
pub struct Configuration {
    entries: Vec<(String, String)>,
    map: Ghost<Map<Seq<char>, Seq<char>>>,
}

impl View for Configuration {
    type V = Map<Seq<char>, Seq<char>>;

    closed spec fn view(&self) -> Map<Seq<char>, Seq<char>> {
        self.map@
    }
}

impl Configuration {
    /// The entries are those of the map, each name once.
    pub closed spec fn wf(&self) -> bool {
        &&& forall|i: int|
            0 <= i < self.entries@.len() ==> #[trigger] self.map@.contains_key(self.entries@[i].0@)
                && self.map@[self.entries@[i].0@] == self.entries@[i].1@
        &&& forall|k: Seq<char>|
            #[trigger] self.map@.contains_key(k) ==> exists|i: int|
                0 <= i < self.entries@.len() && #[trigger] self.entries@[i].0@ == k
        &&& forall|i: int, j: int|
            0 <= i < j < self.entries@.len() ==> self.entries@[i].0@ != self.entries@[j].0@
    }

    /// An empty configuration.
    pub fn new() -> (c: Self)
        ensures
            c.wf(),
            c@ == Map::<Seq<char>, Seq<char>>::empty(),
    {
        Configuration { entries: Vec::new(), map: Ghost(Map::empty()) }
    }

    /// Sets the value of `key`, replacing the one it had.
    pub fn insert(&mut self, key: String, value: String)
        requires
            old(self).wf(),
        ensures
            final(self).wf(),
            final(self)@ == old(self)@.insert(key@, value@),
    {
        let ghost k = key@;
        let ghost v = value@;
        let n = self.entries.len();
        let mut i: usize = 0;
        while i < n
            invariant
                n == self.entries@.len(),
                i <= n,
                self.wf(),
                forall|j: int| 0 <= j < i ==> self.entries@[j].0@ != k,
                key@ == k,
                value@ == v,
                self.map@ == old(self).map@,
            decreases n - i,
        {
            if same_text(self.entries[i].0.as_str(), key.as_str()) {
                let ghost old_entries = self.entries@;
                self.entries.set(i, (key, value));
                self.map = Ghost(self.map@.insert(k, v));
                assert forall|kk: Seq<char>| #[trigger] self.map@.contains_key(kk) implies exists|j: int|
                    0 <= j < self.entries@.len() && #[trigger] self.entries@[j].0@ == kk by {
                    if kk != k {
                        let j = choose|j: int|
                            0 <= j < old_entries.len() && #[trigger] old_entries[j].0@ == kk;
                        assert(self.entries@[j].0@ == kk);
                    } else {
                        assert(self.entries@[i as int].0@ == kk);
                    }
                }
                return;
            }
            i = i + 1;
        }
        let ghost old_entries = self.entries@;
        self.entries.push((key, value));
        self.map = Ghost(self.map@.insert(k, v));
        assert forall|kk: Seq<char>| #[trigger] self.map@.contains_key(kk) implies exists|j: int|
            0 <= j < self.entries@.len() && #[trigger] self.entries@[j].0@ == kk by {
            if kk != k {
                let j = choose|j: int| 0 <= j < old_entries.len() && #[trigger] old_entries[j].0@ == kk;
                assert(self.entries@[j].0@ == kk);
            } else {
                assert(self.entries@[n as int].0@ == kk);
            }
        }
    }

    /// The value of `key`, if it is set.
    pub fn get(&self, key: &str) -> (r: Option<&String>)
        requires
            self.wf(),
        ensures
            match r {
                Some(v) => self@.contains_key(key@) && self@[key@] == v@,
                None => !self@.contains_key(key@),
            },
    {
        let n = self.entries.len();
        let mut i: usize = 0;
        while i < n
            invariant
                n == self.entries@.len(),
                i <= n,
                self.wf(),
                forall|j: int| 0 <= j < i ==> self.entries@[j].0@ != key@,
            decreases n - i,
        {
            if same_text(self.entries[i].0.as_str(), key) {
                return Some(&self.entries[i].1);
            }
            i = i + 1;
        }
        None
    }
}

/// The value of a decimal digit.
pub open spec fn decimal_digit_value(c: char) -> Option<nat> {
    if '0' <= c <= '9' {
        Some((c as u32 - '0' as u32) as nat)
    } else {
        None
    }
}

/// The number that a sequence of decimal digits writes.
pub open spec fn digits_value(ds: Seq<char>) -> nat
    decreases ds.len(),
{
    if ds.len() == 0 {
        0
    } else {
        digits_value(ds.drop_last()) * 10 + decimal_digit_value(ds.last()).unwrap_or(0)
    }
}

pub open spec fn all_decimal_digits(ds: Seq<char>) -> bool {
    forall|i: int| 0 <= i < ds.len() ==> (#[trigger] decimal_digit_value(ds[i])) is Some
}

/// A string read as a `usize` the way `str::parse::<usize>` reads it: an
/// optional `+`, then at least one decimal digit and nothing else, the number
/// fitting in a `usize`.
pub open spec fn parsed_usize(s: Seq<char>) -> Option<usize> {
    let ds = if s.len() > 0 && s[0] == '+' { s.drop_first() } else { s };
    if ds.len() == 0 || !all_decimal_digits(ds) {
        None
    } else if digits_value(ds) <= usize::MAX {
        Some(digits_value(ds) as usize)
    } else {
        None
    }
}

proof fn lemma_digits_value_grows(ds: Seq<char>, i: int)
    requires
        0 <= i <= ds.len(),
    ensures
        digits_value(ds.take(i)) <= digits_value(ds),
    decreases ds.len() - i,
{
    if i < ds.len() {
        lemma_digits_value_grows(ds, i + 1);
        assert(ds.take(i + 1).drop_last() =~= ds.take(i));
    } else {
        assert(ds.take(i) =~= ds);
    }
}

/// Reads a `usize` as `str::parse::<usize>` does; `None` where that fails.
pub fn parse_usize(s: &str) -> (r: Option<usize>)
    ensures
        r == parsed_usize(s@),
{
    let cs = chars_of(s);
    let ghost ds = if s@.len() > 0 && s@[0] == '+' { s@.drop_first() } else { s@ };
    let start: usize = if cs.len() > 0 && cs[0] == '+' { 1 } else { 0 };
    assert(ds =~= cs@.skip(start as int));
    if start >= cs.len() {
        return None;
    }
    let mut value: usize = 0;
    let mut i: usize = start;
    while i < cs.len()
        invariant
            start <= i <= cs@.len(),
            cs@ == s@,
            ds == (if s@.len() > 0 && s@[0] == '+' { s@.drop_first() } else { s@ }),
            ds.len() > 0,
            ds =~= cs@.skip(start as int),
            all_decimal_digits(ds.take(i - start)),
            value == digits_value(ds.take(i - start)),
        decreases cs@.len() - i,
    {
        let c = cs[i];
        if !('0' <= c && c <= '9') {
            assert(decimal_digit_value(ds[i - start]) is None);
            return None;
        }
        let d = (c as u32 - '0' as u32) as usize;
        let ghost prefix = ds.take(i - start + 1);
        assert(prefix.drop_last() =~= ds.take(i - start));
        match value.checked_mul(10) {
            None => {
                proof {
                    lemma_digits_value_grows(ds, i - start + 1);
                }
                return None;
            },
            Some(tens) => match tens.checked_add(d) {
                None => {
                    proof {
                        lemma_digits_value_grows(ds, i - start + 1);
                    }
                    return None;
                },
                Some(next) => {
                    value = next;
                },
            },
        }
        i = i + 1;
    }
    assert(ds.take(i - start) =~= ds);
    Some(value)
}

/// A string read as a `bool` the way `str::parse::<bool>` reads it.
pub open spec fn parsed_bool(s: Seq<char>) -> Option<bool> {
    if s == "true"@ {
        Some(true)
    } else if s == "false"@ {
        Some(false)
    } else {
        None
    }
}

/// Reads a `bool` as `str::parse::<bool>` does: exactly `true` or `false`.
pub fn parse_bool(s: &str) -> (r: Option<bool>)
    ensures
        r == parsed_bool(s@),
{
    if same_text(s, "true") {
        Some(true)
    } else if same_text(s, "false") {
        Some(false)
    } else {
        None
    }
}

/// What `str::to_lowercase` returns for a string: its Unicode lowercase form
/// (the same on every machine: it takes no locale).
pub uninterp spec fn lowercase(s: Seq<char>) -> Seq<char>;

/// Calls `str::to_lowercase`. Claimed: the result is `lowercase` of the
/// argument's characters, which depends on nothing else.
#[verifier::external_body]
fn to_lowercase(s: &str) -> (r: String)
    ensures
        r@ == lowercase(s@),
{
    s.to_lowercase()
}

/// Whether an option value turns a flag on: its lowercase form reads as `true`.
pub open spec fn flag_value(s: Seq<char>) -> bool {
    parsed_bool(lowercase(s)) == Some(true)
}

/// Reads a flag: on when the value, lowercased, reads as `true`; off otherwise.
pub fn parse_flag(s: &str) -> (on: bool)
    ensures
        on == flag_value(s@),
{
    let lower = to_lowercase(s);
    match parse_bool(lower.as_str()) {
        Some(b) => b,
        None => false,
    }
}

/// The colour an option gives, or `default` when it is not set.
pub open spec fn configured_color(cfg: Map<Seq<char>, Seq<char>>, key: Seq<char>, default: crate::color::Rgb) -> crate::color::Rgb {
    if cfg.contains_key(key) {
        hex_color(encode_utf8(cfg[key]))
    } else {
        default
    }
}

/// The theme that a configuration selects: each colour option that is set,
/// read as `#rrggbb`, else the default colour.
pub open spec fn configured_theme(cfg: Map<Seq<char>, Seq<char>>) -> ThemeColors {
    let d = crate::color::default_theme();
    ThemeColors {
        key_bg: configured_color(cfg, "key_bg"@, d.key_bg),
        key_fg: configured_color(cfg, "key_fg"@, d.key_fg),
        desc_bg: configured_color(cfg, "desc_bg"@, d.desc_bg),
        desc_fg: configured_color(cfg, "desc_fg"@, d.desc_fg),
    }
}

fn color_option(configuration: &Configuration, key: &str, default: crate::color::Rgb) -> (c: crate::color::Rgb)
    requires
        configuration.wf(),
    ensures
        c == configured_color(configuration@, key@, default),
{
    match configuration.get(key) {
        Some(s) => parse_hex_color(s.as_str()),
        None => default,
    }
}

impl ThemeColors {
    /// The theme named by the options `key_bg`, `key_fg`, `desc_bg`, `desc_fg`.
    pub fn from_config(configuration: &Configuration) -> (t: Self)
        requires
            configuration.wf(),
        ensures
            t == configured_theme(configuration@),
    {
        let d = ThemeColors::default();
        ThemeColors {
            key_bg: color_option(configuration, "key_bg", d.key_bg),
            key_fg: color_option(configuration, "key_fg", d.key_fg),
            desc_bg: color_option(configuration, "desc_bg", d.desc_bg),
            desc_fg: color_option(configuration, "desc_fg", d.desc_fg),
        }
    }
}

/// What the plugin reads from its configuration.
pub struct Settings {
    /// Longest status line, in visible characters; 0 for no limit.
    pub max_length: usize,
    /// What ends a status line that had to be cut.
    pub overflow_str: String,
    /// The pipe that the status line is sent to.
    pub pipe_name: String,
    /// Whether to show nothing while in the base mode.
    pub hide_in_base_mode: bool,
    pub theme: ThemeColors,
}

/// The value of an option, or `default` when it is not set.
pub open spec fn option_or(cfg: Map<Seq<char>, Seq<char>>, key: Seq<char>, default: Seq<char>) -> Seq<char> {
    if cfg.contains_key(key) {
        cfg[key]
    } else {
        default
    }
}

/// The longest status line that a configuration allows: `max_length` read as
/// a `usize`, or 0 (no limit) when it is not set or does not read.
pub open spec fn configured_max_length(cfg: Map<Seq<char>, Seq<char>>) -> usize {
    if cfg.contains_key("max_length"@) {
        match parsed_usize(cfg["max_length"@]) {
            Some(n) => n,
            None => 0,
        }
    } else {
        0
    }
}

/// Whether a configuration hides the hints in the base mode.
pub open spec fn configured_hide(cfg: Map<Seq<char>, Seq<char>>) -> bool {
    cfg.contains_key("hide_in_base_mode"@) && flag_value(cfg["hide_in_base_mode"@])
}

impl Settings {
    /// The settings before any configuration is read.
    pub fn new() -> (s: Self)
        ensures
            s.max_length == 0,
            s.overflow_str@ == Seq::<char>::empty(),
            s.pipe_name@ == Seq::<char>::empty(),
            !s.hide_in_base_mode,
            s.theme == crate::color::default_theme(),
    {
        Settings {
            max_length: 0,
            overflow_str: String::new(),
            pipe_name: String::new(),
            hide_in_base_mode: false,
            theme: ThemeColors::default(),
        }
    }

    /// Reads the settings: `max_length` (default 0), `overflow_str`
    /// (default `...`), `pipe_name` (default `zjstatus_hints`),
    /// `hide_in_base_mode` (default off) and the theme colours.
    pub fn from_config(configuration: &Configuration) -> (s: Self)
        requires
            configuration.wf(),
        ensures
            s.max_length == configured_max_length(configuration@),
            s.overflow_str@ == option_or(configuration@, "overflow_str"@, "..."@),
            s.pipe_name@ == option_or(configuration@, "pipe_name"@, "zjstatus_hints"@),
            s.hide_in_base_mode == configured_hide(configuration@),
            s.theme == configured_theme(configuration@),
    {
        let max_length = match configuration.get("max_length") {
            Some(v) => match parse_usize(v.as_str()) {
                Some(n) => n,
                None => 0,
            },
            None => 0,
        };
        let overflow_str = match configuration.get("overflow_str") {
            Some(v) => v.clone(),
            None => owned("..."),
        };
        let pipe_name = match configuration.get("pipe_name") {
            Some(v) => v.clone(),
            None => owned("zjstatus_hints"),
        };
        let hide_in_base_mode = match configuration.get("hide_in_base_mode") {
            Some(v) => parse_flag(v.as_str()),
            None => false,
        };
        Settings {
            max_length,
            overflow_str,
            pipe_name,
            hide_in_base_mode,
            theme: ThemeColors::from_config(configuration),
        }
    }
}

} // verus!
