//! The configuration: hex colours, the merge of the user's file over the
//! system's, and the checks and defaults that turn the merged settings into a
//! `Config` and the two widget layers.
//!
//! Reading the files and parsing their TOML stay with the caller, which hands
//! over the parsed settings as [`ConfigProxy`] values.
//!
//! Two settings are floating-point numbers in the files: a widget's width (a
//! percentage) and the font size. They are carried here by their IEEE-754 bit
//! patterns (`f64::to_bits`), untouched. Colours are carried as the three bytes
//! that the file spells out; a colour left `None` in [`WorkspacesConfig`] is
//! the indicator's built-in default colour.

use crate::text::{chars_of, first_word_bounds, trim_start, word_end};
use vstd::prelude::*;
use vstd::utf8::encode_utf8;

verus! {

broadcast use vstd::string::group_string_axioms;

// ---------------------------------------------------------------------------
// Hex colours
// ---------------------------------------------------------------------------

/// The value of an ASCII hex digit.
pub open spec fn hex_digit(b: u8) -> Option<int> {
    if 0x30 <= b <= 0x39 {
        Some(b - 0x30)
    } else if 0x61 <= b <= 0x66 {
        Some(b - 0x61 + 10)
    } else if 0x41 <= b <= 0x46 {
        Some(b - 0x41 + 10)
    } else {
        None
    }
}

/// `u8::from_str_radix(pair, 16)` for a two-byte `pair`: a leading `'+'` is
/// allowed before a single digit.
pub open spec fn hex_pair(x: u8, y: u8) -> Option<u8> {
    if x == 0x2B {
        match hex_digit(y) {
            Some(d) => Some(d as u8),
            None => None,
        }
    } else {
        match (hex_digit(x), hex_digit(y)) {
            (Some(a), Some(b)) => Some((a * 16 + b) as u8),
            _ => None,
        }
    }
}

/// The bytes of a colour string without one leading `'#'`.
pub open spec fn hex_body(bytes: Seq<u8>) -> Seq<u8> {
    if bytes.len() > 0 && bytes[0] == 0x23 {
        bytes.drop_first()
    } else {
        bytes
    }
}

pub open spec fn is_continuation_byte(b: u8) -> bool {
    0x80 <= b <= 0xBF
}

/// Whether slicing the six-byte body of a colour string into pairs would cut
/// a character in two (which panics).
pub open spec fn color_slicing_panics(bytes: Seq<u8>) -> bool {
    let h = hex_body(bytes);
    h.len() == 6 && (is_continuation_byte(h[2]) || is_continuation_byte(h[4]))
}

/// The colour a string spells: an optional `'#'`, then exactly six bytes read
/// as three hex pairs.
pub open spec fn hex_color(bytes: Seq<u8>) -> Option<(u8, u8, u8)> {
    let h = hex_body(bytes);
    if h.len() != 6 {
        None
    } else {
        match (hex_pair(h[0], h[1]), hex_pair(h[2], h[3]), hex_pair(h[4], h[5])) {
            (Some(r), Some(g), Some(b)) => Some((r, g, b)),
            _ => None,
        }
    }
}

fn hex_digit_of(b: u8) -> (r: Option<u8>)
    ensures
        match hex_digit(b) {
            Some(d) => r == Some(d as u8),
            None => r is None,
        },
{
    if 0x30 <= b && b <= 0x39 {
        Some(b - 0x30)
    } else if 0x61 <= b && b <= 0x66 {
        Some(b - 0x61 + 10)
    } else if 0x41 <= b && b <= 0x46 {
        Some(b - 0x41 + 10)
    } else {
        None
    }
}

fn hex_pair_of(x: u8, y: u8) -> (r: Option<u8>)
    ensures
        r == hex_pair(x, y),
{
    if x == 0x2B {
        hex_digit_of(y)
    } else {
        match (hex_digit_of(x), hex_digit_of(y)) {
            (Some(a), Some(b)) => Some(a * 16 + b),
            _ => None,
        }
    }
}

/// Whether [`parse_color_str`] would panic on `s`.
pub fn color_str_panics(s: &str) -> (b: bool)
    ensures
        b == color_slicing_panics(encode_utf8(s@)),
{
    let bytes = s.as_bytes();
    let start: usize = if bytes.len() > 0 && bytes[0] == 0x23 {
        1
    } else {
        0
    };
    assert(hex_body(bytes@) =~= bytes@.subrange(start as int, bytes@.len() as int));
    bytes.len() - start == 6 && ((0x80 <= bytes[start + 2] && bytes[start + 2] <= 0xBF) || (0x80
        <= bytes[start + 4] && bytes[start + 4] <= 0xBF))
}

/// Parse a colour written as six hex digits, with or without a leading `'#'`.
pub fn parse_color_str(s: &str) -> (r: Option<(u8, u8, u8)>)
    requires
        !color_slicing_panics(encode_utf8(s@)),
    ensures
        r == hex_color(encode_utf8(s@)),
{
    let bytes = s.as_bytes();
    let start: usize = if bytes.len() > 0 && bytes[0] == 0x23 {
        1
    } else {
        0
    };
    let ghost h = hex_body(bytes@);
    assert(h =~= bytes@.subrange(start as int, bytes@.len() as int));
    if bytes.len() - start != 6 {
        return None;
    }
    let r = hex_pair_of(bytes[start], bytes[start + 1]);
    let g = hex_pair_of(bytes[start + 2], bytes[start + 3]);
    let b = hex_pair_of(bytes[start + 4], bytes[start + 5]);
    match (r, g, b) {
        (Some(r), Some(g), Some(b)) => Some((r, g, b)),
        _ => None,
    }
}

/// The error a widget's `Color` setting gives when it is not six bytes long.
pub open spec fn color_length_error() -> Seq<char> {
    "Color must be 6 hex digits, e.g. \"FF8800\""@
}

/// The error a widget's `Color` setting gives when a pair is not hex.
pub open spec fn color_digit_error() -> Seq<char> {
    "invalid digit found in string"@
}

/// A widget's `Color` setting: absent is no colour; otherwise six hex digits
/// (an optional `'#'` first), or an error that says what is wrong.
pub fn parse_hex_color(opt: Option<String>) -> (r: Result<Option<(u8, u8, u8)>, String>)
    requires
        opt matches Some(s) ==> !color_slicing_panics(encode_utf8(s@)),
    ensures
        match opt {
            None => r == Ok::<Option<(u8, u8, u8)>, String>(None),
            Some(s) => match r {
                Ok(c) => c is Some && c == hex_color(encode_utf8(s@)),
                Err(e) => hex_color(encode_utf8(s@)) is None && e@ == (if hex_body(
                    encode_utf8(s@),
                ).len() != 6 {
                    color_length_error()
                } else {
                    color_digit_error()
                }),
            },
        },
{
    match opt {
        None => Ok(None),
        Some(s) => {
            let bytes = s.as_str().as_bytes();
            let start: usize = if bytes.len() > 0 && bytes[0] == 0x23 {
                1
            } else {
                0
            };
            assert(hex_body(bytes@) =~= bytes@.subrange(start as int, bytes@.len() as int));
            if bytes.len() - start != 6 {
                return Err("Color must be 6 hex digits, e.g. \"FF8800\"".to_string());
            }
            match parse_color_str(s.as_str()) {
                Some(c) => Ok(Some(c)),
                None => Err("invalid digit found in string".to_string()),
            }
        },
    }
}

// ---------------------------------------------------------------------------
// Settings
// ---------------------------------------------------------------------------

/// The `[Workspaces]` table as the file spells it. `Provider` is accepted and
/// not read: niri is the only provider.
pub struct WorkspacesConfigProxy {
    pub provider: Option<String>,
    pub active_color: Option<String>,
    pub urgent_color: Option<String>,
}

/// Settings of the workspace indicator. A colour left `None` is the
/// indicator's default colour (solarized blue when active, solarized red when
/// urgent).
pub struct WorkspacesConfig {
    pub active_color: Option<(u8, u8, u8)>,
    pub urgent_color: Option<(u8, u8, u8)>,
}

/// The `[Volume]` table as the file spells it.
pub struct VolumeConfigProxy {
    pub pulse_server: Option<String>,
}

/// Settings of the volume widget.
pub struct VolumeConfig {
    pub pulse_server: Option<String>,
}

/// What one widget shows.
pub enum WidgetConfig {
    Text { text: String },
    Icon { icon: String },
    Time { format: String, locale: Option<String> },
    Battery,
    Temperature,
    LoadAvg,
    Memory { sample_interval: Option<u32>, graph_window: Option<u32> },
    Workspaces,
    WindowTitle,
    Volume,
    Spacer,
}

/// One entry of a layer: the keys it sends (Linux input key codes), its width
/// (the bit pattern of a percentage), its colour and what it shows.
pub struct WidgetEntry {
    pub action: Vec<u16>,
    pub width: Option<u64>,
    pub color: Option<(u8, u8, u8)>,
    pub widget: WidgetConfig,
}

/// The settings of one configuration file, each absent when the file does
/// not give it.
pub struct ConfigProxy {
    pub media_layer_default: Option<bool>,
    pub show_button_outlines: Option<bool>,
    pub font_family: Option<String>,
    pub font_size: Option<u64>,
    pub font_style: Option<String>,
    pub adaptive_brightness: Option<bool>,
    pub active_brightness: Option<u32>,
    pub primary_layer_keys: Option<Vec<WidgetEntry>>,
    pub media_layer_keys: Option<Vec<WidgetEntry>>,
    pub workspaces: Option<WorkspacesConfigProxy>,
    pub volume: Option<VolumeConfigProxy>,
}

/// Only the global settings of a file (no layers), for a system file whose
/// layers use an older format.
pub struct BaseConfigProxy {
    pub media_layer_default: Option<bool>,
    pub show_button_outlines: Option<bool>,
    pub font_family: Option<String>,
    pub font_size: Option<u64>,
    pub font_style: Option<String>,
    pub adaptive_brightness: Option<bool>,
    pub active_brightness: Option<u32>,
}

/// The settings the daemon runs with.
pub struct Config {
    pub show_button_outlines: bool,
    pub adaptive_brightness: bool,
    pub active_brightness: u32,
    pub font_family: String,
    /// Bit pattern of the font size in pixels.
    pub font_size: u64,
    pub font_bold: bool,
    pub font_italic: bool,
    pub workspaces: Option<WorkspacesConfig>,
    pub volume: Option<VolumeConfig>,
}

/// Bit pattern of the default font size, 20.0.
pub const DEFAULT_FONT_SIZE_BITS: u64 = 0x4034_0000_0000_0000;

/// Width from which the bar has room for an escape key on both layers.
pub const ESC_MIN_WIDTH: u16 = 2170;

/// Linux input key code of the escape key.
pub const KEY_ESC: u16 = 1;

impl BaseConfigProxy {
    /// The same settings, with no layers, workspaces or volume table.
    pub fn into_config_proxy(self) -> (r: ConfigProxy)
        ensures
            r.media_layer_default == self.media_layer_default,
            r.show_button_outlines == self.show_button_outlines,
            r.font_family == self.font_family,
            r.font_size == self.font_size,
            r.font_style == self.font_style,
            r.adaptive_brightness == self.adaptive_brightness,
            r.active_brightness == self.active_brightness,
            r.primary_layer_keys is None,
            r.media_layer_keys is None,
            r.workspaces is None,
            r.volume is None,
    {
        ConfigProxy {
            media_layer_default: self.media_layer_default,
            show_button_outlines: self.show_button_outlines,
            font_family: self.font_family,
            font_size: self.font_size,
            font_style: self.font_style,
            adaptive_brightness: self.adaptive_brightness,
            active_brightness: self.active_brightness,
            primary_layer_keys: None,
            media_layer_keys: None,
            workspaces: None,
            volume: None,
        }
    }
}

/// `a` when present, else `b` (`Option::or`).
pub open spec fn or_else<T>(a: Option<T>, b: Option<T>) -> Option<T> {
    if a is Some {
        a
    } else {
        b
    }
}

fn or_opt<T>(a: Option<T>, b: Option<T>) -> (r: Option<T>)
    ensures
        r == or_else(a, b),
{
    match a {
        Some(x) => Some(x),
        None => b,
    }
}

impl ConfigProxy {
    /// `user`'s settings over `self`'s: every setting that `user` gives wins,
    /// every other keeps `self`'s value.
    pub fn overlay(self, user: ConfigProxy) -> (r: ConfigProxy)
        ensures
            r.media_layer_default == or_else(user.media_layer_default, self.media_layer_default),
            r.show_button_outlines == or_else(user.show_button_outlines, self.show_button_outlines),
            r.font_family == or_else(user.font_family, self.font_family),
            r.font_size == or_else(user.font_size, self.font_size),
            r.font_style == or_else(user.font_style, self.font_style),
            r.adaptive_brightness == or_else(user.adaptive_brightness, self.adaptive_brightness),
            r.active_brightness == or_else(user.active_brightness, self.active_brightness),
            r.primary_layer_keys == or_else(user.primary_layer_keys, self.primary_layer_keys),
            r.media_layer_keys == or_else(user.media_layer_keys, self.media_layer_keys),
            r.workspaces == or_else(user.workspaces, self.workspaces),
            r.volume == or_else(user.volume, self.volume),
    {
        ConfigProxy {
            media_layer_default: or_opt(user.media_layer_default, self.media_layer_default),
            show_button_outlines: or_opt(user.show_button_outlines, self.show_button_outlines),
            font_family: or_opt(user.font_family, self.font_family),
            font_size: or_opt(user.font_size, self.font_size),
            font_style: or_opt(user.font_style, self.font_style),
            adaptive_brightness: or_opt(user.adaptive_brightness, self.adaptive_brightness),
            media_layer_keys: or_opt(user.media_layer_keys, self.media_layer_keys),
            primary_layer_keys: or_opt(user.primary_layer_keys, self.primary_layer_keys),
            active_brightness: or_opt(user.active_brightness, self.active_brightness),
            workspaces: or_opt(user.workspaces, self.workspaces),
            volume: or_opt(user.volume, self.volume),
        }
    }
}

/// A colour setting of the workspace indicator: a colour string that does
/// not spell a colour leaves the default.
pub open spec fn theme_color(c: Option<String>) -> Option<(u8, u8, u8)> {
    match c {
        Some(s) => hex_color(encode_utf8(s@)),
        None => None,
    }
}

/// Whether reading the colours of a `[Workspaces]` table would panic.
pub open spec fn workspace_colors_panic(p: WorkspacesConfigProxy) -> bool {
    ||| (p.active_color matches Some(s) && color_slicing_panics(encode_utf8(s@)))
    ||| (p.urgent_color matches Some(s) && color_slicing_panics(encode_utf8(s@)))
}

fn theme_color_of(c: Option<String>) -> (r: Option<(u8, u8, u8)>)
    requires
        c matches Some(s) ==> !color_slicing_panics(encode_utf8(s@)),
    ensures
        r == theme_color(c),
{
    match c {
        Some(s) => parse_color_str(s.as_str()),
        None => None,
    }
}

impl WorkspacesConfig {
    /// The indicator's settings from its table.
    pub fn from_proxy(p: WorkspacesConfigProxy) -> (r: WorkspacesConfig)
        requires
            !workspace_colors_panic(p),
        ensures
            r.active_color == theme_color(p.active_color),
            r.urgent_color == theme_color(p.urgent_color),
    {
        WorkspacesConfig {
            active_color: theme_color_of(p.active_color),
            urgent_color: theme_color_of(p.urgent_color),
        }
    }
}

impl VolumeConfig {
    /// The volume widget's settings from its table.
    pub fn from_proxy(p: VolumeConfigProxy) -> (r: VolumeConfig)
        ensures
            r.pulse_server == p.pulse_server,
    {
        VolumeConfig { pulse_server: p.pulse_server }
    }
}

// ---------------------------------------------------------------------------
// Font style words
// ---------------------------------------------------------------------------

/// `c` with an ASCII capital turned small.
pub open spec fn ascii_lower(c: char) -> char {
    if 'A' <= c <= 'Z' {
        ((c as u32) + 32) as char
    } else {
        c
    }
}

/// `eq_ignore_ascii_case`.
pub open spec fn eq_ignore_ascii_case(a: Seq<char>, b: Seq<char>) -> bool {
    a.len() == b.len() && forall|i: int| 0 <= i < a.len() ==> ascii_lower(#[trigger] a[i]) == ascii_lower(b[i])
}

/// The whitespace-delimited words of `s` (`split_whitespace`).
pub open spec fn words(s: Seq<char>) -> Seq<Seq<char>>
    decreases s.len(),
    via words_decreases
{
    let t = trim_start(s);
    if t.len() == 0 {
        Seq::empty()
    } else {
        let e = word_end(t, 0);
        seq![t.subrange(0, e)] + words(t.subrange(e, t.len() as int))
    }
}

#[via_fn]
proof fn words_decreases(s: Seq<char>) {
    let t = trim_start(s);
    lemma_trim_start_len(s);
    if t.len() > 0 {
        lemma_word_end_positive(t);
    }
}

proof fn lemma_trim_start_len(s: Seq<char>)
    ensures
        trim_start(s).len() <= s.len(),
        trim_start(s).len() > 0 ==> !crate::text::is_ws(trim_start(s)[0]),
    decreases s.len(),
{
    if s.len() > 0 && crate::text::is_ws(s[0]) {
        lemma_trim_start_len(s.drop_first());
    }
}

proof fn lemma_word_end_from(t: Seq<char>, i: int)
    requires
        0 <= i <= t.len(),
    ensures
        i <= word_end(t, i) <= t.len(),
        forall|k: int| i <= k < word_end(t, i) ==> !crate::text::is_ws(#[trigger] t[k]),
        word_end(t, i) < t.len() ==> crate::text::is_ws(t[word_end(t, i)]),
    decreases t.len() - i,
{
    if i < t.len() && !crate::text::is_ws(t[i]) {
        lemma_word_end_from(t, i + 1);
    }
}

proof fn lemma_word_end_positive(t: Seq<char>)
    requires
        t.len() > 0,
        !crate::text::is_ws(t[0]),
    ensures
        1 <= word_end(t, 0) <= t.len(),
{
    lemma_word_end_from(t, 0);
    lemma_word_end_from(t, 1);
}

/// Whether one of the words of `s` is `w`, ignoring ASCII case.
pub open spec fn has_word_ignore_case(s: Seq<char>, w: Seq<char>) -> bool {
    exists|i: int| 0 <= i < words(s).len() && eq_ignore_ascii_case(#[trigger] words(s)[i], w)
}

fn ascii_lower_of(c: char) -> (r: char)
    ensures
        r == ascii_lower(c),
{
    if 'A' <= c && c <= 'Z' {
        ((c as u8) + 32) as char
    } else {
        c
    }
}

fn eq_ignore_case_at(s: &Vec<char>, from: usize, to: usize, w: &[char]) -> (b: bool)
    requires
        from <= to <= s@.len(),
    ensures
        b == eq_ignore_ascii_case(s@.subrange(from as int, to as int), w@),
{
    if to - from != w.len() {
        return false;
    }
    let mut i: usize = 0;
    while i < w.len()
        invariant
            from <= to <= s@.len(),
            to - from == w@.len(),
            0 <= i <= w@.len(),
            forall|k: int| 0 <= k < i ==> ascii_lower(s@[from + k]) == ascii_lower(w@[k]),
        decreases w@.len() - i,
    {
        if ascii_lower_of(s[from + i]) != ascii_lower_of(w[i]) {
            assert(ascii_lower(s@.subrange(from as int, to as int)[i as int]) != ascii_lower(w@[i as int]));
            return false;
        }
        i = i + 1;
    }
    assert forall|k: int| 0 <= k < w@.len() implies ascii_lower(
        #[trigger] s@.subrange(from as int, to as int)[k],
    ) == ascii_lower(w@[k]) by {
        assert(s@.subrange(from as int, to as int)[k] == s@[from + k]);
    }
    true
}

proof fn lemma_words_unfold(s: Seq<char>, p: int, lo: int, hi: int)
    requires
        0 <= p <= lo < hi <= s.len(),
        forall|k: int| p <= k < lo ==> crate::text::is_ws(s[k]),
        !crate::text::is_ws(s[lo]),
        forall|k: int| lo <= k < hi ==> !crate::text::is_ws(#[trigger] s[k]),
        hi == s.len() || crate::text::is_ws(s[hi]),
    ensures
        words(s.subrange(p, s.len() as int)) == seq![s.subrange(lo, hi)] + words(
            s.subrange(hi, s.len() as int),
        ),
{
    let u = s.subrange(p, s.len() as int);
    crate::text::lemma_trim_start_skip(s, p, lo);
    let t = s.subrange(lo, s.len() as int);
    assert(trim_start(t) == t);
    lemma_word_end_scan_local(t, 0, hi - lo);
    if hi < s.len() {
        assert(t[hi - lo] == s[hi]);
    }
    assert(word_end(t, hi - lo) == hi - lo);
    assert(t.subrange(0, hi - lo) =~= s.subrange(lo, hi));
    assert(t.subrange(hi - lo, t.len() as int) =~= s.subrange(hi, s.len() as int));
}

proof fn lemma_word_end_scan_local(s: Seq<char>, i: int, j: int)
    requires
        0 <= i <= j <= s.len(),
        forall|k: int| i <= k < j ==> !crate::text::is_ws(s[k]),
    ensures
        word_end(s, i) == word_end(s, j),
    decreases j - i,
{
    if i < j {
        lemma_word_end_scan_local(s, i + 1, j);
    }
}

/// Whether one of the words of `s` is `w`, ignoring ASCII case.
pub fn contains_word_ignore_case(s: &str, w: &[char]) -> (b: bool)
    ensures
        b == has_word_ignore_case(s@, w@),
{
    let cs = chars_of(s);
    let n = cs.len();
    let mut p: usize = 0;
    assert(cs@.subrange(0, n as int) =~= cs@);
    while p < n
        invariant
            n == cs@.len(),
            cs@ == s@,
            0 <= p <= n,
            has_word_ignore_case(s@, w@) == has_word_ignore_case(cs@.subrange(p as int, n as int), w@),
        decreases n - p,
    {
        match first_word_bounds(&cs, p, n) {
            None => {
                proof {
                    let u = cs@.subrange(p as int, n as int);
                    crate::text::lemma_trim_start_skip(cs@, p as int, n as int);
                    assert(cs@.subrange(n as int, n as int).len() == 0);
                    assert(words(u) =~= Seq::<Seq<char>>::empty());
                }
                return false;
            },
            Some((lo, hi)) => {
                proof {
                    lemma_words_unfold(cs@, p as int, lo as int, hi as int);
                    let u = cs@.subrange(p as int, n as int);
                    let ws = words(u);
                    assert(ws[0] == cs@.subrange(lo as int, hi as int));
                    assert forall|i: int| 0 <= i < words(cs@.subrange(hi as int, n as int)).len() implies #[trigger] words(cs@.subrange(hi as int, n as int))[i] == ws[i + 1] by {}
                    if has_word_ignore_case(u, w@) {
                        let i = choose|i: int| 0 <= i < ws.len() && eq_ignore_ascii_case(#[trigger] ws[i], w@);
                        if i > 0 {
                            assert(eq_ignore_ascii_case(words(cs@.subrange(hi as int, n as int))[i - 1], w@));
                        }
                    }
                    if has_word_ignore_case(cs@.subrange(hi as int, n as int), w@) {
                        let i = choose|i: int| 0 <= i < words(cs@.subrange(hi as int, n as int)).len() && eq_ignore_ascii_case(#[trigger] words(cs@.subrange(hi as int, n as int))[i], w@);
                        assert(eq_ignore_ascii_case(ws[i + 1], w@));
                    }
                }
                if eq_ignore_case_at(&cs, lo, hi, w) {
                    return true;
                }
                p = hi;
            },
        }
    }
    proof {
        assert(words(cs@.subrange(n as int, n as int)) =~= Seq::<Seq<char>>::empty());
    }
    false
}

// ---------------------------------------------------------------------------
// Resolving the merged settings
// ---------------------------------------------------------------------------

/// `user`'s settings over `base`'s, as [`ConfigProxy::overlay`] computes them.
pub open spec fn overlay_spec(base: ConfigProxy, user: ConfigProxy) -> ConfigProxy {
    ConfigProxy {
        media_layer_default: or_else(user.media_layer_default, base.media_layer_default),
        show_button_outlines: or_else(user.show_button_outlines, base.show_button_outlines),
        font_family: or_else(user.font_family, base.font_family),
        font_size: or_else(user.font_size, base.font_size),
        font_style: or_else(user.font_style, base.font_style),
        adaptive_brightness: or_else(user.adaptive_brightness, base.adaptive_brightness),
        active_brightness: or_else(user.active_brightness, base.active_brightness),
        primary_layer_keys: or_else(user.primary_layer_keys, base.primary_layer_keys),
        media_layer_keys: or_else(user.media_layer_keys, base.media_layer_keys),
        workspaces: or_else(user.workspaces, base.workspaces),
        volume: or_else(user.volume, base.volume),
    }
}

/// The settings in force: the system's, with the user's over them when the
/// user's file was read.
pub open spec fn merged_settings(system: ConfigProxy, user: Option<ConfigProxy>) -> ConfigProxy {
    match user {
        Some(u) => overlay_spec(system, u),
        None => system,
    }
}

/// The first required setting that is missing, in the order they are
/// checked, as the error that reports it.
pub open spec fn missing_setting(c: ConfigProxy) -> Option<Seq<char>> {
    if c.media_layer_keys is None {
        Some("missing MediaLayerKeys in config"@)
    } else if c.primary_layer_keys is None {
        Some("missing PrimaryLayerKeys in config"@)
    } else if c.media_layer_default is None {
        Some("missing MediaLayerDefault in config"@)
    } else if c.show_button_outlines is None {
        Some("missing ShowButtonOutlines in config"@)
    } else if c.adaptive_brightness is None {
        Some("missing AdaptiveBrightness in config"@)
    } else if c.active_brightness is None {
        Some("missing ActiveBrightness in config"@)
    } else {
        None
    }
}

/// The first required setting that is missing from `c`, as the error that
/// reports it.
pub fn first_missing_setting(c: &ConfigProxy) -> (r: Option<String>)
    ensures
        match r {
            Some(e) => missing_setting(*c) == Some(e@),
            None => missing_setting(*c) is None,
        },
{
    if c.media_layer_keys.is_none() {
        Some("missing MediaLayerKeys in config".to_string())
    } else if c.primary_layer_keys.is_none() {
        Some("missing PrimaryLayerKeys in config".to_string())
    } else if c.media_layer_default.is_none() {
        Some("missing MediaLayerDefault in config".to_string())
    } else if c.show_button_outlines.is_none() {
        Some("missing ShowButtonOutlines in config".to_string())
    } else if c.adaptive_brightness.is_none() {
        Some("missing AdaptiveBrightness in config".to_string())
    } else if c.active_brightness.is_none() {
        Some("missing ActiveBrightness in config".to_string())
    } else {
        None
    }
}

/// Whether the value of a setting is there in the merged settings: given by
/// the user's file, or else by the system's.
fn merged_has<T>(user: Option<&Option<T>>, system: &Option<T>) -> (b: bool)
    ensures
        b == (match user {
            Some(u) => or_else(*u, *system) is Some,
            None => *system is Some,
        }),
{
    match user {
        Some(u) => u.is_some() || system.is_some(),
        None => system.is_some(),
    }
}

/// Whether [`load_config`] of `system` and `user` would read a `[Workspaces]`
/// colour that cuts a character in two (and so panic): every required
/// setting is there, and a colour of the workspaces table in force does.
pub fn workspace_colours_would_panic(system: &ConfigProxy, user: &Option<ConfigProxy>) -> (b: bool)
    ensures
        b == (missing_setting(merged_settings(*system, *user)) is None && (merged_settings(
            *system,
            *user,
        ).workspaces matches Some(p) && workspace_colors_panic(p))),
{
    let u = match user {
        Some(u) => Some(u),
        None => None,
    };
    let complete = merged_has(
        match u {
            Some(u) => Some(&u.media_layer_keys),
            None => None,
        },
        &system.media_layer_keys,
    ) && merged_has(
        match u {
            Some(u) => Some(&u.primary_layer_keys),
            None => None,
        },
        &system.primary_layer_keys,
    ) && merged_has(
        match u {
            Some(u) => Some(&u.media_layer_default),
            None => None,
        },
        &system.media_layer_default,
    ) && merged_has(
        match u {
            Some(u) => Some(&u.show_button_outlines),
            None => None,
        },
        &system.show_button_outlines,
    ) && merged_has(
        match u {
            Some(u) => Some(&u.adaptive_brightness),
            None => None,
        },
        &system.adaptive_brightness,
    ) && merged_has(
        match u {
            Some(u) => Some(&u.active_brightness),
            None => None,
        },
        &system.active_brightness,
    );
    if !complete {
        return false;
    }
    let ws = match u {
        Some(u) => if u.workspaces.is_some() {
            &u.workspaces
        } else {
            &system.workspaces
        },
        None => &system.workspaces,
    };
    match ws {
        Some(p) => {
            let a = match &p.active_color {
                Some(c) => color_str_panics(c.as_str()),
                None => false,
            };
            let r = match &p.urgent_color {
                Some(c) => color_str_panics(c.as_str()),
                None => false,
            };
            a || r
        },
        None => false,
    }
}

/// The escape key entry put first on both layers of a wide bar.
pub open spec fn is_esc_entry(e: WidgetEntry) -> bool {
    &&& e.action@ == seq![KEY_ESC]
    &&& e.width is None
    &&& e.color is None
    &&& e.widget matches WidgetConfig::Text { text } && text@ == "esc"@
}

/// `built` is the layer `given`, with the escape key first when the bar is at
/// least [`ESC_MIN_WIDTH`] wide.
pub open spec fn layer_built(given: Seq<WidgetEntry>, built: Seq<WidgetEntry>, width: u16) -> bool {
    if width >= ESC_MIN_WIDTH {
        built.len() == given.len() + 1 && is_esc_entry(built[0]) && built.subrange(
            1,
            built.len() as int,
        ) == given
    } else {
        built == given
    }
}

pub open spec fn bold_word() -> Seq<char> {
    seq!['b', 'o', 'l', 'd']
}

pub open spec fn italic_word() -> Seq<char> {
    seq!['i', 't', 'a', 'l', 'i', 'c']
}

/// The settings in force are complete, and `cfg` and `layers` are what they
/// say: the layer named by `MediaLayerDefault` first; the font family empty
/// and the size 20 when not given; bold unless a style is given that lacks the
/// word "bold", italic when a given style has the word "italic".
pub open spec fn resolved(c: ConfigProxy, width: u16, cfg: Config, layers: [Vec<WidgetEntry>; 2]) -> bool {
    &&& missing_setting(c) is None
    &&& layer_built(
        if c.media_layer_default->0 {
            c.media_layer_keys->0@
        } else {
            c.primary_layer_keys->0@
        },
        layers[0]@,
        width,
    )
    &&& layer_built(
        if c.media_layer_default->0 {
            c.primary_layer_keys->0@
        } else {
            c.media_layer_keys->0@
        },
        layers[1]@,
        width,
    )
    &&& cfg.show_button_outlines == c.show_button_outlines->0
    &&& cfg.adaptive_brightness == c.adaptive_brightness->0
    &&& cfg.active_brightness == c.active_brightness->0
    &&& cfg.font_family@ == (match c.font_family {
        Some(f) => f@,
        None => Seq::<char>::empty(),
    })
    &&& cfg.font_size == (match c.font_size {
        Some(x) => x,
        None => DEFAULT_FONT_SIZE_BITS,
    })
    &&& cfg.font_bold == (match c.font_style {
        Some(st) => has_word_ignore_case(st@, bold_word()),
        None => true,
    })
    &&& cfg.font_italic == (match c.font_style {
        Some(st) => has_word_ignore_case(st@, italic_word()),
        None => false,
    })
    &&& (cfg.workspaces is Some <==> c.workspaces is Some)
    &&& (c.workspaces matches Some(p) ==> cfg.workspaces->0.active_color == theme_color(p.active_color)
        && cfg.workspaces->0.urgent_color == theme_color(p.urgent_color))
    &&& (cfg.volume is Some <==> c.volume is Some)
    &&& (c.volume matches Some(p) ==> cfg.volume->0.pulse_server == p.pulse_server)
}

fn esc_entry() -> (e: WidgetEntry)
    ensures
        is_esc_entry(e),
{
    let mut action: Vec<u16> = Vec::new();
    action.push(KEY_ESC);
    assert(action@ =~= seq![KEY_ESC]);
    WidgetEntry { action, width: None, color: None, widget: WidgetConfig::Text { text: "esc".to_owned() } }
}

fn build_layer(given: Vec<WidgetEntry>, width: u16) -> (built: Vec<WidgetEntry>)
    ensures
        layer_built(given@, built@, width),
{
    let mut built = given;
    if width >= ESC_MIN_WIDTH {
        built.insert(0, esc_entry());
        assert(built@.subrange(1, built@.len() as int) =~= given@);
    }
    built
}

/// Turn the settings in force into the running configuration and the two
/// layers, or report the first required setting that is missing.
pub fn resolve_config(c: ConfigProxy, width: u16) -> (r: Result<(Config, [Vec<WidgetEntry>; 2]), String>)
    requires
        missing_setting(c) is None ==> (c.workspaces matches Some(p) ==> !workspace_colors_panic(p)),
    ensures
        match r {
            Ok((cfg, layers)) => resolved(c, width, cfg, layers),
            Err(e) => missing_setting(c) == Some(e@),
        },
{
    let ghost c0 = c;
    let ConfigProxy {
        media_layer_default,
        show_button_outlines,
        font_family,
        font_size,
        font_style,
        adaptive_brightness,
        active_brightness,
        primary_layer_keys,
        media_layer_keys,
        workspaces,
        volume,
    } = c;
    let media = match media_layer_keys {
        Some(l) => l,
        None => return Err("missing MediaLayerKeys in config".to_string()),
    };
    let primary = match primary_layer_keys {
        Some(l) => l,
        None => return Err("missing PrimaryLayerKeys in config".to_string()),
    };
    let media = build_layer(media, width);
    let primary = build_layer(primary, width);
    let media_first = match media_layer_default {
        Some(b) => b,
        None => return Err("missing MediaLayerDefault in config".to_string()),
    };
    let layers = if media_first {
        [media, primary]
    } else {
        [primary, media]
    };
    let (font_bold, font_italic) = match &font_style {
        Some(st) => (
            contains_word_ignore_case(st.as_str(), &['b', 'o', 'l', 'd']),
            contains_word_ignore_case(st.as_str(), &['i', 't', 'a', 'l', 'i', 'c']),
        ),
        None => (true, false),
    };
    let show_button_outlines = match show_button_outlines {
        Some(b) => b,
        None => return Err("missing ShowButtonOutlines in config".to_string()),
    };
    let adaptive_brightness = match adaptive_brightness {
        Some(b) => b,
        None => return Err("missing AdaptiveBrightness in config".to_string()),
    };
    let active_brightness = match active_brightness {
        Some(b) => b,
        None => return Err("missing ActiveBrightness in config".to_string()),
    };
    let font_family = match font_family {
        Some(f) => f,
        None => String::new(),
    };
    let font_size = match font_size {
        Some(x) => x,
        None => DEFAULT_FONT_SIZE_BITS,
    };
    let workspaces = match workspaces {
        Some(p) => Some(WorkspacesConfig::from_proxy(p)),
        None => None,
    };
    let volume = match volume {
        Some(p) => Some(VolumeConfig::from_proxy(p)),
        None => None,
    };
    let cfg = Config {
        show_button_outlines,
        adaptive_brightness,
        active_brightness,
        font_family,
        font_size,
        font_bold,
        font_italic,
        workspaces,
        volume,
    };
    Ok((cfg, layers))
}

/// Load the configuration from the system's settings and, when the user's
/// file was read, the user's settings over them.
pub fn load_config(system: ConfigProxy, user: Option<ConfigProxy>, width: u16) -> (r: Result<(Config, [Vec<WidgetEntry>; 2]), String>)
    requires
        missing_setting(merged_settings(system, user)) is None ==> (merged_settings(
            system,
            user,
        ).workspaces matches Some(p) ==> !workspace_colors_panic(p)),
    ensures
        match r {
            Ok((cfg, layers)) => resolved(merged_settings(system, user), width, cfg, layers),
            Err(e) => missing_setting(merged_settings(system, user)) == Some(e@),
        },
{
    let merged = match user {
        Some(u) => system.overlay(u),
        None => system,
    };
    resolve_config(merged, width)
}

/// The configuration file that the user edits: `config.toml` in the working
/// directory when it exists, else the one under `/etc`.
pub fn user_cfg_path(local_exists: bool) -> (p: &'static str)
    ensures
        p@ == (if local_exists {
            "config.toml"@
        } else {
            "/etc/smol-dfr/config.toml"@
        }),
{
    if local_exists {
        "config.toml"
    } else {
        "/etc/smol-dfr/config.toml"
    }
}


/// Whether the last reload of the configuration failed, so that the next
/// successful one is announced.
pub struct ConfigReloadTracker {
    had_error: bool,
}

impl ConfigReloadTracker {
    pub closed spec fn had_error_spec(&self) -> bool {
        self.had_error
    }

    pub fn new() -> (t: Self)
        ensures
            !t.had_error_spec(),
    {
        ConfigReloadTracker { had_error: false }
    }

    /// Record the outcome of a reload. Returns whether a success is to be
    /// announced (it follows a failure).
    pub fn record(&mut self, ok: bool) -> (announce: bool)
        ensures
            announce == (ok && old(self).had_error_spec()),
            final(self).had_error_spec() == !ok,
    {
        let announce = ok && self.had_error;
        self.had_error = !ok;
        announce
    }

    /// Apply the outcome of reloading the configuration: a loaded
    /// configuration replaces the running one and its layers, a failed load
    /// keeps them. Returns whether it replaced them, and whether the success
    /// is to be announced (it follows a failure).
    pub fn apply(
        &mut self,
        cfg: &mut Config,
        layers: &mut [Vec<WidgetEntry>; 2],
        loaded: Result<(Config, [Vec<WidgetEntry>; 2]), String>,
    ) -> (r: (bool, bool))
        ensures
            r.0 == loaded is Ok,
            r.1 == (loaded is Ok && old(self).had_error_spec()),
            final(self).had_error_spec() == loaded is Err,
            loaded matches Ok((c, l)) ==> *final(cfg) == c && *final(layers) == l,
            loaded is Err ==> *final(cfg) == *old(cfg) && *final(layers) == *old(layers),
    {
        match loaded {
            Ok((c, l)) => {
                *cfg = c;
                *layers = l;
                let announce = self.record(true);
                (true, announce)
            },
            Err(_) => {
                let announce = self.record(false);
                (false, announce)
            },
        }
    }
}


/// A file that gives no setting.
pub open spec fn empty_settings() -> ConfigProxy {
    ConfigProxy {
        media_layer_default: None,
        show_button_outlines: None,
        font_family: None,
        font_size: None,
        font_style: None,
        adaptive_brightness: None,
        active_brightness: None,
        primary_layer_keys: None,
        media_layer_keys: None,
        workspaces: None,
        volume: None,
    }
}

/// The user's file only overrides: a user file that gives nothing leaves the
/// system's settings as they are, and whatever the user gives wins over the
/// system's.
pub proof fn lemma_overlay_only_overrides(base: ConfigProxy, user: ConfigProxy)
    ensures
        overlay_spec(base, empty_settings()) == base,
        user.media_layer_default is Some ==> overlay_spec(base, user).media_layer_default
            == user.media_layer_default,
        user.media_layer_keys is Some ==> overlay_spec(base, user).media_layer_keys == user.media_layer_keys,
        user.primary_layer_keys is Some ==> overlay_spec(base, user).primary_layer_keys
            == user.primary_layer_keys,
        user.font_size is Some ==> overlay_spec(base, user).font_size == user.font_size,
        missing_setting(overlay_spec(base, user)) is Some ==> missing_setting(base) is Some,
{
}

/// A leading `'#'` does not change the colour a string spells.
pub proof fn lemma_hash_prefix_optional(body: Seq<u8>)
    requires
        body.len() == 0 || body[0] != 0x23,
    ensures
        hex_color(seq![0x23u8] + body) == hex_color(body),
{
    assert((seq![0x23u8] + body).drop_first() =~= body);
}

/// The escape key is added exactly on bars at least [`ESC_MIN_WIDTH`] wide,
/// first on both layers, and the configured entries follow unchanged.
pub proof fn lemma_esc_only_on_wide_bars(c: ConfigProxy, width: u16, cfg: Config, layers: [Vec<WidgetEntry>; 2])
    requires
        resolved(c, width, cfg, layers),
    ensures
        width >= ESC_MIN_WIDTH ==> is_esc_entry(layers[0]@[0]) && is_esc_entry(layers[1]@[0]),
        width < ESC_MIN_WIDTH ==> layers[0]@.len() + layers[1]@.len() == c.media_layer_keys->0@.len()
            + c.primary_layer_keys->0@.len(),
{
}

/// The hex digits, in value order, small letters.
pub open spec fn lower_hex_digits() -> Seq<char> {
    "0123456789abcdef"@
}

/// The hex digits, in value order, capital letters.
pub open spec fn upper_hex_digits() -> Seq<char> {
    "0123456789ABCDEF"@
}

/// Colour bytes are read in radix 16: the byte of the digit of value `v`
/// (`0`–`9`, `a`–`f` or `A`–`F`) reads as `v`, and no other byte reads as a
/// digit.
pub proof fn lemma_hex_digits_are_radix_16(b: u8, v: int)
    requires
        0 <= v < 16,
    ensures
        hex_digit(lower_hex_digits()[v] as u8) == Some(v),
        hex_digit(upper_hex_digits()[v] as u8) == Some(v),
        hex_digit(b) is Some ==> exists|w: int|
            0 <= w < 16 && (b == lower_hex_digits()[w] as u8 || b == upper_hex_digits()[w] as u8),
{
    reveal_strlit("0123456789abcdef");
    reveal_strlit("0123456789ABCDEF");
    let lo = lower_hex_digits();
    let up = upper_hex_digits();
    assert(lo.len() == 16 && up.len() == 16);
    assert(lo[0] == '0' && lo[1] == '1' && lo[2] == '2' && lo[3] == '3' && lo[4] == '4' && lo[5] == '5');
    assert(lo[6] == '6' && lo[7] == '7' && lo[8] == '8' && lo[9] == '9');
    assert(lo[10] == 'a' && lo[11] == 'b' && lo[12] == 'c' && lo[13] == 'd' && lo[14] == 'e' && lo[15]
        == 'f');
    assert(up[10] == 'A' && up[11] == 'B' && up[12] == 'C' && up[13] == 'D' && up[14] == 'E' && up[15]
        == 'F');
    assert(up[0] == '0' && up[1] == '1' && up[2] == '2' && up[3] == '3' && up[4] == '4' && up[5] == '5');
    assert(up[6] == '6' && up[7] == '7' && up[8] == '8' && up[9] == '9');
    if hex_digit(b) is Some {
        let w: int = if 0x30 <= b <= 0x39 {
            b - 0x30
        } else if 0x61 <= b <= 0x66 {
            b - 0x61 + 10
        } else {
            b - 0x41 + 10
        };
        assert(b == lo[w] as u8 || b == up[w] as u8);
    }
}

/// A six-digit colour reads as three radix-16 pairs: when every byte of
/// `h` is the digit (of either case) of value `d[i]`, with or without a
/// leading `'#'`, the colour is `(16·d0 + d1, 16·d2 + d3, 16·d4 + d5)`.
pub proof fn lemma_six_hex_digits_make_a_colour(h: Seq<u8>, d: Seq<int>)
    requires
        h.len() == 6,
        d.len() == 6,
        forall|i: int|
            0 <= i < 6 ==> 0 <= #[trigger] d[i] < 16 && (h[i] == lower_hex_digits()[d[i]] as u8 || h[i]
                == upper_hex_digits()[d[i]] as u8),
    ensures
        hex_color(h) == Some(
            ((16 * d[0] + d[1]) as u8, (16 * d[2] + d[3]) as u8, (16 * d[4] + d[5]) as u8),
        ),
        hex_color(seq![0x23u8] + h) == hex_color(h),
{
    assert forall|i: int| 0 <= i < 6 implies hex_digit(h[i]) == Some(#[trigger] d[i]) by {
        lemma_hex_digits_are_radix_16(h[i], d[i]);
    }
    assert(hex_digit(h[0]) == Some(d[0]));
    assert(hex_digit(h[1]) == Some(d[1]));
    assert(hex_digit(h[2]) == Some(d[2]));
    assert(hex_digit(h[3]) == Some(d[3]));
    assert(hex_digit(h[4]) == Some(d[4]));
    assert(hex_digit(h[5]) == Some(d[5]));
    assert(h[0] != 0x23);
    lemma_hash_prefix_optional(h);
}

} // verus!
