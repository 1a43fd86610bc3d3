//! Colours of the hints: parsing `#rrggbb` strings and the theme.
use vstd::prelude::*;
use vstd::utf8::encode_utf8;

verus! {

/// A 24-bit colour.
#[derive(Clone, Copy, Debug, PartialEq, Eq, Structural)]
pub struct Rgb {
    pub r: u8,
    pub g: u8,
    pub b: u8,
}

/// The colour used when a colour string cannot be read: `#45475a`.
pub open spec fn fallback_color() -> Rgb {
    Rgb { r: 0x45, g: 0x47, b: 0x5a }
}

/// The value of one hexadecimal digit byte.
pub open spec fn hex_digit_value(c: u8) -> Option<u8> {
    if 0x30 <= c <= 0x39 {
        Some((c - 0x30) as u8)
    } else if 0x61 <= c <= 0x66 {
        Some((c - 0x61 + 10) as u8)
    } else if 0x41 <= c <= 0x46 {
        Some((c - 0x41 + 10) as u8)
    } else {
        None
    }
}

/// A two-byte string read as an unsigned base-16 number, as
/// `u8::from_str_radix(_, 16)` reads it: an optional `+` then digits only.
pub open spec fn hex_pair_value(c0: u8, c1: u8) -> Option<u8> {
    if c0 == 0x2b {
        hex_digit_value(c1)
    } else {
        match (hex_digit_value(c0), hex_digit_value(c1)) {
            (Some(h), Some(l)) => Some((h * 16 + l) as u8),
            _ => None,
        }
    }
}

/// The bytes left after removing every leading `#`.
pub open spec fn strip_hashes(bytes: Seq<u8>) -> Seq<u8>
    decreases bytes.len(),
{
    if bytes.len() > 0 && bytes[0] == 0x23 {
        strip_hashes(bytes.drop_first())
    } else {
        bytes
    }
}

/// The colour a string of the given UTF-8 bytes names: after the leading `#`s,
/// exactly six bytes, read as three hexadecimal pairs; the fallback colour
/// otherwise.
pub open spec fn hex_color(bytes: Seq<u8>) -> Rgb {
    let h = strip_hashes(bytes);
    if h.len() == 6 {
        match (hex_pair_value(h[0], h[1]), hex_pair_value(h[2], h[3]), hex_pair_value(h[4], h[5])) {
            (Some(r), Some(g), Some(b)) => Rgb { r, g, b },
            _ => fallback_color(),
        }
    } else {
        fallback_color()
    }
}

fn hex_digit(c: u8) -> (d: Option<u8>)
    ensures
        d == hex_digit_value(c),
{
    if 0x30 <= c && c <= 0x39 {
        Some(c - 0x30)
    } else if 0x61 <= c && c <= 0x66 {
        Some(c - 0x61 + 10)
    } else if 0x41 <= c && c <= 0x46 {
        Some(c - 0x41 + 10)
    } else {
        None
    }
}

/// A two-byte string read as base 16, as `u8::from_str_radix` reads it.
pub fn hex_pair(c0: u8, c1: u8) -> (v: Option<u8>)
    ensures
        v == hex_pair_value(c0, c1),
{
    if c0 == 0x2b {
        hex_digit(c1)
    } else {
        match (hex_digit(c0), hex_digit(c1)) {
            (Some(h), Some(l)) => Some(h * 16 + l),
            _ => None,
        }
    }
}

proof fn lemma_strip_hashes_skip(bytes: Seq<u8>, k: int)
    requires
        0 <= k <= bytes.len(),
        forall|j: int| 0 <= j < k ==> bytes[j] == 0x23,
        k == bytes.len() || bytes[k] != 0x23,
    ensures
        strip_hashes(bytes) == bytes.skip(k),
    decreases k,
{
    if k > 0 {
        lemma_strip_hashes_skip(bytes.drop_first(), k - 1);
        assert(bytes.drop_first().skip(k - 1) =~= bytes.skip(k));
    } else {
        assert(bytes.skip(0) =~= bytes);
    }
}

/// Reads a colour written as `#rrggbb` (any number of leading `#`, or none);
/// anything else gives the fallback colour `#45475a`.
pub fn parse_hex_color(hex: &str) -> (c: Rgb)
    ensures
        c == hex_color(encode_utf8(hex@)),
{
    let bytes = hex.as_bytes();
    let n = bytes.len();
    let mut k: usize = 0;
    while k < n && bytes[k] == 0x23
        invariant
            n == bytes@.len(),
            k <= n,
            forall|j: int| 0 <= j < k ==> bytes@[j] == 0x23,
        decreases n - k,
    {
        k = k + 1;
    }
    proof {
        lemma_strip_hashes_skip(bytes@, k as int);
    }
    if n - k == 6 {
        if let (Some(r), Some(g), Some(b)) = (
            hex_pair(bytes[k], bytes[k + 1]),
            hex_pair(bytes[k + 2], bytes[k + 3]),
            hex_pair(bytes[k + 4], bytes[k + 5]),
        ) {
            return Rgb { r, g, b };
        }
    }
    Rgb { r: 0x45, g: 0x47, b: 0x5a }
}

/// The four colours of a hint: key and description, background and foreground.
#[derive(Clone, Copy, Debug, PartialEq, Eq, Structural)]
pub struct ThemeColors {
    pub key_bg: Rgb,
    pub key_fg: Rgb,
    pub desc_bg: Rgb,
    pub desc_fg: Rgb,
}

/// The default theme (Catppuccin Frappe): key `#45475a` on `#c6d0f5`,
/// description `#313244` on `#bac2de`.
pub open spec fn default_theme() -> ThemeColors {
    ThemeColors {
        key_bg: Rgb { r: 0x45, g: 0x47, b: 0x5a },
        key_fg: Rgb { r: 0xc6, g: 0xd0, b: 0xf5 },
        desc_bg: Rgb { r: 0x31, g: 0x32, b: 0x44 },
        desc_fg: Rgb { r: 0xba, g: 0xc2, b: 0xde },
    }
}

/// A `#` followed by six ASCII characters is encoded byte for byte.
proof fn lemma_seven_ascii_bytes(s: Seq<char>)
    requires
        s.len() == 7,
        vstd::utf8::is_ascii_chars(s),
    ensures
        encode_utf8(s) =~= seq![
            s[0] as u8,
            s[1] as u8,
            s[2] as u8,
            s[3] as u8,
            s[4] as u8,
            s[5] as u8,
            s[6] as u8,
        ],
{
    vstd::utf8::is_ascii_chars_encode_utf8(s);
}

/// What `hex_color` gives for `#` and six hexadecimal bytes.
proof fn lemma_hex_color_seven(bytes: Seq<u8>)
    requires
        bytes.len() == 7,
        bytes[0] == 0x23,
        bytes[1] != 0x23,
    ensures
        strip_hashes(bytes) == bytes.drop_first(),
        hex_color(bytes) == (match (
            hex_pair_value(bytes[1], bytes[2]),
            hex_pair_value(bytes[3], bytes[4]),
            hex_pair_value(bytes[5], bytes[6]),
        ) {
            (Some(r), Some(g), Some(b)) => Rgb { r, g, b },
            _ => fallback_color(),
        }),
{
    assert(strip_hashes(bytes.drop_first()) == bytes.drop_first());
}

/// The hexadecimal digit for `d < 16`: one of `0123456789ABCDEF` when
/// `upper`, else one of `0123456789abcdef`.
pub open spec fn hex_digit_char(d: int, upper: bool) -> char {
    if upper {
        "0123456789ABCDEF"@[d]
    } else {
        "0123456789abcdef"@[d]
    }
}

proof fn lemma_hex_digit_char(d: int, upper: bool)
    requires
        0 <= d < 16,
    ensures
        '\0' <= hex_digit_char(d, upper) <= '\u{7f}',
        hex_digit_value(hex_digit_char(d, upper) as u8) == Some(d as u8),
{
    reveal_strlit("0123456789ABCDEF");
    reveal_strlit("0123456789abcdef");
}

/// Every byte value written as two hexadecimal digits, high digit first,
/// each in either case, reads back as that value.
pub proof fn law_hex_pair_round_trip(v: u8, upper_high: bool, upper_low: bool)
    ensures
        hex_pair_value(
            hex_digit_char(v as int / 16, upper_high) as u8,
            hex_digit_char(v as int % 16, upper_low) as u8,
        ) == Some(v),
{
    lemma_hex_digit_char(v as int / 16, upper_high);
    lemma_hex_digit_char(v as int % 16, upper_low);
    reveal_strlit("0123456789ABCDEF");
    reveal_strlit("0123456789abcdef");
}

/// A pair made of `+` and one hexadecimal digit reads as that digit's value:
/// `u8::from_str_radix` accepts a leading `+`.
pub proof fn law_hex_pair_plus_digit(d: u8, upper: bool)
    requires
        d < 16,
    ensures
        hex_pair_value(0x2b, hex_digit_char(d as int, upper) as u8) == Some(d),
{
    lemma_hex_digit_char(d as int, upper);
}

/// `#` followed by the three components, each as two hexadecimal digits,
/// names exactly that colour.
pub proof fn law_hex_color_round_trip(r: u8, g: u8, b: u8, upper: bool)
    ensures
        hex_color(
            encode_utf8(
                seq![
                    '#',
                    hex_digit_char(r as int / 16, upper),
                    hex_digit_char(r as int % 16, upper),
                    hex_digit_char(g as int / 16, upper),
                    hex_digit_char(g as int % 16, upper),
                    hex_digit_char(b as int / 16, upper),
                    hex_digit_char(b as int % 16, upper),
                ],
            ),
        ) == (Rgb { r, g, b }),
{
    let s = seq![
        '#',
        hex_digit_char(r as int / 16, upper),
        hex_digit_char(r as int % 16, upper),
        hex_digit_char(g as int / 16, upper),
        hex_digit_char(g as int % 16, upper),
        hex_digit_char(b as int / 16, upper),
        hex_digit_char(b as int % 16, upper),
    ];
    lemma_hex_digit_char(r as int / 16, upper);
    lemma_hex_digit_char(r as int % 16, upper);
    lemma_hex_digit_char(g as int / 16, upper);
    lemma_hex_digit_char(g as int % 16, upper);
    lemma_hex_digit_char(b as int / 16, upper);
    lemma_hex_digit_char(b as int % 16, upper);
    assert(vstd::utf8::is_ascii_chars(s));
    lemma_seven_ascii_bytes(s);
    let bytes = encode_utf8(s);
    law_hex_pair_round_trip(r, upper, upper);
    law_hex_pair_round_trip(g, upper, upper);
    law_hex_pair_round_trip(b, upper, upper);
    lemma_hex_color_seven(bytes);
}

/// A `#` in front of a colour string changes nothing: any number of them,
/// or none, name the same colour.
pub proof fn law_hex_color_leading_hash(bytes: Seq<u8>)
    ensures
        hex_color(seq![0x23u8] + bytes) == hex_color(bytes),
{
    let t = seq![0x23u8] + bytes;
    assert(t.drop_first() =~= bytes);
    assert(strip_hashes(t) == strip_hashes(bytes));
}

impl Default for ThemeColors {
    fn default() -> (t: Self)
        ensures
            t == default_theme(),
    {
        proof {
            reveal_strlit("#45475a");
            reveal_strlit("#c6d0f5");
            reveal_strlit("#313244");
            reveal_strlit("#bac2de");
            lemma_seven_ascii_bytes("#45475a"@);
            lemma_seven_ascii_bytes("#c6d0f5"@);
            lemma_seven_ascii_bytes("#313244"@);
            lemma_seven_ascii_bytes("#bac2de"@);
            lemma_hex_color_seven(encode_utf8("#45475a"@));
            lemma_hex_color_seven(encode_utf8("#c6d0f5"@));
            lemma_hex_color_seven(encode_utf8("#313244"@));
            lemma_hex_color_seven(encode_utf8("#bac2de"@));
        }
        ThemeColors {
            key_bg: parse_hex_color("#45475a"),
            key_fg: parse_hex_color("#c6d0f5"),
            desc_bg: parse_hex_color("#313244"),
            desc_fg: parse_hex_color("#bac2de"),
        }
    }
}

} // verus!
