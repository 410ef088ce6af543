//! Colour themes: the built-in light and dark palettes, custom themes, and
//! the manager that resolves which palette is in use.
use vstd::prelude::*;
use crate::text::{chars_of, opt_view, owned, trim_start_char, trim_start_char_chars};

pub mod manager;
pub mod presets;

verus! {

/// The colours of a theme, each as a `#rrggbb` text.
#[derive(Debug, Clone)]
pub struct ThemeColors {
    /// Primary colour
    pub primary: String,
    /// Text on the primary colour
    pub primary_foreground: String,
    /// Secondary colour
    pub secondary: String,
    /// Text on the secondary colour
    pub secondary_foreground: String,
    /// Background
    pub background: String,
    /// Foreground
    pub foreground: String,
    /// Card background
    pub card: String,
    /// Card foreground
    pub card_foreground: String,
    /// Popover background
    pub popover: String,
    /// Popover foreground
    pub popover_foreground: String,
    /// Border
    pub border: String,
    /// Input background
    pub input: String,
    /// Muted background
    pub muted: String,
    /// Muted text
    pub muted_foreground: String,
    /// Accent
    pub accent: String,
    /// Text on the accent
    pub accent_foreground: String,
    /// Destructive colour
    pub destructive: String,
    /// Text on the destructive colour
    pub destructive_foreground: String,
    /// Success
    pub success: String,
    /// Warning
    pub warning: String,
    /// Error
    pub error: String,
}

/// The colours of `c`, field by field in declaration order.
pub open spec fn palette(c: &ThemeColors) -> Seq<Seq<char>> {
    seq![c.primary@, c.primary_foreground@, c.secondary@, c.secondary_foreground@, c.background@, c.foreground@, c.card@, c.card_foreground@, c.popover@, c.popover_foreground@, c.border@, c.input@, c.muted@, c.muted_foreground@, c.accent@, c.accent_foreground@, c.destructive@, c.destructive_foreground@, c.success@, c.warning@, c.error@]
}

/// The built-in light palette.
pub open spec fn light_palette() -> Seq<Seq<char>> {
    seq!["#0f172a"@, "#f8fafc"@, "#f1f5f9"@, "#0f172a"@, "#ffffff"@, "#0f172a"@, "#ffffff"@, "#0f172a"@, "#ffffff"@, "#0f172a"@, "#e2e8f0"@, "#e2e8f0"@, "#f1f5f9"@, "#64748b"@, "#f1f5f9"@, "#0f172a"@, "#ef4444"@, "#f8fafc"@, "#22c55e"@, "#f59e0b"@, "#ef4444"@]
}

/// The built-in dark palette.
pub open spec fn dark_palette() -> Seq<Seq<char>> {
    seq!["#f8fafc"@, "#0f172a"@, "#1e293b"@, "#f8fafc"@, "#0f172a"@, "#f8fafc"@, "#1e293b"@, "#f8fafc"@, "#1e293b"@, "#f8fafc"@, "#334155"@, "#334155"@, "#1e293b"@, "#94a3b8"@, "#1e293b"@, "#f8fafc"@, "#dc2626"@, "#f8fafc"@, "#16a34a"@, "#d97706"@, "#dc2626"@]
}

impl ThemeColors {
    /// The light palette.
    pub fn light() -> (c: Self)
        ensures
            palette(&c) == light_palette(),
    {
        ThemeColors {
            primary: owned("#0f172a"),
            primary_foreground: owned("#f8fafc"),
            secondary: owned("#f1f5f9"),
            secondary_foreground: owned("#0f172a"),
            background: owned("#ffffff"),
            foreground: owned("#0f172a"),
            card: owned("#ffffff"),
            card_foreground: owned("#0f172a"),
            popover: owned("#ffffff"),
            popover_foreground: owned("#0f172a"),
            border: owned("#e2e8f0"),
            input: owned("#e2e8f0"),
            muted: owned("#f1f5f9"),
            muted_foreground: owned("#64748b"),
            accent: owned("#f1f5f9"),
            accent_foreground: owned("#0f172a"),
            destructive: owned("#ef4444"),
            destructive_foreground: owned("#f8fafc"),
            success: owned("#22c55e"),
            warning: owned("#f59e0b"),
            error: owned("#ef4444"),
        }
    }

    /// The dark palette.
    pub fn dark() -> (c: Self)
        ensures
            palette(&c) == dark_palette(),
    {
        ThemeColors {
            primary: owned("#f8fafc"),
            primary_foreground: owned("#0f172a"),
            secondary: owned("#1e293b"),
            secondary_foreground: owned("#f8fafc"),
            background: owned("#0f172a"),
            foreground: owned("#f8fafc"),
            card: owned("#1e293b"),
            card_foreground: owned("#f8fafc"),
            popover: owned("#1e293b"),
            popover_foreground: owned("#f8fafc"),
            border: owned("#334155"),
            input: owned("#334155"),
            muted: owned("#1e293b"),
            muted_foreground: owned("#94a3b8"),
            accent: owned("#1e293b"),
            accent_foreground: owned("#f8fafc"),
            destructive: owned("#dc2626"),
            destructive_foreground: owned("#f8fafc"),
            success: owned("#16a34a"),
            warning: owned("#d97706"),
            error: owned("#dc2626"),
        }
    }
}

/// The value of a hexadecimal digit.
pub open spec fn hex_value(c: char) -> Option<nat> {
    let u = c as u32;
    if 48 <= u && u <= 57 {
        Some((u - 48) as nat)
    } else if 97 <= u && u <= 102 {
        Some((u - 87) as nat)
    } else if 65 <= u && u <= 70 {
        Some((u - 55) as nat)
    } else {
        None
    }
}

/// The byte that two hexadecimal digits spell, high digit first.
pub open spec fn hex_pair(a: char, b: char) -> Option<u8> {
    match (hex_value(a), hex_value(b)) {
        (Some(x), Some(y)) => Some((x * 16 + y) as u8),
        _ => None,
    }
}

/// Bytes that `c` takes in UTF-8.
pub open spec fn utf8_width(c: char) -> nat {
    let u = c as u32;
    if u < 0x80 { 1 } else if u < 0x800 { 2 } else if u < 0x10000 { 3 } else { 4 }
}

pub open spec fn utf8_len(s: Seq<char>) -> nat
    decreases s.len(),
{
    if s.len() == 0 { 0 } else { utf8_len(s.drop_last()) + utf8_width(s.last()) }
}

/// Longer prefixes take more bytes.
pub proof fn lemma_utf8_len_grows(s: Seq<char>, i: int, j: int)
    requires
        0 <= i < j <= s.len(),
    ensures
        utf8_len(s.take(i)) < utf8_len(s.take(j)),
    decreases j - i,
{
    assert(s.take(j).drop_last() =~= s.take(j - 1));
    if i < j - 1 {
        lemma_utf8_len_grows(s, i, j - 1);
    }
}

/// Byte offset `b` of the UTF-8 form of `s` falls between two characters.
pub open spec fn on_char_boundary(s: Seq<char>, b: nat) -> bool {
    exists|k: int| 0 <= k <= s.len() && utf8_len(s.take(k)) == b
}

/// The digits of a colour text once its leading `#` characters are removed.
pub open spec fn hex_digits(hex: Seq<char>) -> Seq<char> {
    trim_start_char(hex, '#')
}

/// The red, green and blue bytes of a `#rrggbb` text: exactly six ASCII
/// hexadecimal digits after the leading `#`s, read in pairs; `None` for any
/// other text.
pub open spec fn hex_rgb(hex: Seq<char>) -> Option<(u8, u8, u8)> {
    let h = hex_digits(hex);
    if h.len() == 6 {
        match (hex_pair(h[0], h[1]), hex_pair(h[2], h[3]), hex_pair(h[4], h[5])) {
            (Some(r), Some(g), Some(b)) => Some((r, g, b)),
            _ => None,
        }
    } else {
        None
    }
}

fn hex_value_exec(c: char) -> (r: Option<u8>)
    ensures
        match r {
            Some(v) => hex_value(c) == Some(v as nat),
            None => hex_value(c) is None,
        },
{
    let u = c as u32;
    if 48 <= u && u <= 57 {
        Some((u - 48) as u8)
    } else if 97 <= u && u <= 102 {
        Some((u - 87) as u8)
    } else if 65 <= u && u <= 70 {
        Some((u - 55) as u8)
    } else {
        None
    }
}

fn hex_pair_exec(a: char, b: char) -> (r: Option<u8>)
    ensures
        r == hex_pair(a, b),
{
    match (hex_value_exec(a), hex_value_exec(b)) {
        (Some(x), Some(y)) => Some(x * 16 + y),
        _ => None,
    }
}

impl ThemeColors {
    /// The red, green and blue bytes of a `#rrggbb` colour text (the part of
    /// colour parsing that precedes the conversion to hue, saturation and lightness).
    pub fn parse_hex_rgb(hex: &str) -> (r: Option<(u8, u8, u8)>)
        ensures
            r == hex_rgb(hex@),
    {
        let v = chars_of(hex);
        let h = trim_start_char_chars(&v, '#');
        if h.len() != 6 {
            return None;
        }
        match (hex_pair_exec(h[0], h[1]), hex_pair_exec(h[2], h[3]), hex_pair_exec(h[4], h[5])) {
            (Some(r), Some(g), Some(b)) => Some((r, g, b)),
            _ => None,
        }
    }
}

impl Default for ThemeColors {
    /// The light palette.
    fn default() -> (c: Self)
        ensures
            palette(&c) == light_palette(),
    {
        Self::light()
    }
}

/// A named theme with an optional description and author.
#[derive(Debug, Clone)]
pub struct CustomTheme {
    /// Theme name
    pub name: String,
    /// Description
    pub description: Option<String>,
    /// Author
    pub author: Option<String>,
    /// Colours
    pub colors: ThemeColors,
}


impl CustomTheme {
    /// A theme called `name` with the light palette and no description or author.
    pub fn new(name: &str) -> (t: Self)
        ensures
            t.name@ == name@,
            t.description is None,
            t.author is None,
            palette(&t.colors) == light_palette(),
    {
        CustomTheme { name: owned(name), description: None, author: None, colors: ThemeColors::default() }
    }

    /// This theme with the description `description`.
    pub fn with_description(self, description: &str) -> (t: Self)
        ensures
            t.name == self.name,
            opt_view(t.description) == Some(description@),
            t.author == self.author,
            t.colors == self.colors,
    {
        let mut t = self;
        t.description = Some(owned(description));
        t
    }

    /// This theme with the author `author`.
    pub fn with_author(self, author: &str) -> (t: Self)
        ensures
            t.name == self.name,
            t.description == self.description,
            opt_view(t.author) == Some(author@),
            t.colors == self.colors,
    {
        let mut t = self;
        t.author = Some(owned(author));
        t
    }

    /// This theme with the colours `colors`.
    pub fn with_colors(self, colors: ThemeColors) -> (t: Self)
        ensures
            t.name == self.name,
            t.description == self.description,
            t.author == self.author,
            t.colors == colors,
    {
        let mut t = self;
        t.colors = colors;
        t
    }
}

/// The palette in use once a theme setting is resolved.
#[derive(Debug, Clone, Copy, PartialEq, Eq, Structural)]
pub enum ResolvedTheme {
    Light,
    Dark,
}

/// Light or dark mode of a configured custom theme.
#[derive(Debug, Clone, Copy, PartialEq, Eq, Structural)]
pub enum ThemeMode {
    Light,
    Dark,
}

/// A configured custom theme, as far as resolving it needs.
#[derive(Debug, Clone, Copy, PartialEq, Eq, Structural)]
pub struct ThemeConfig {
    pub mode: ThemeMode,
}

/// The theme setting of the application.
#[derive(Debug, Clone, Copy, PartialEq, Eq, Structural)]
pub enum AppTheme {
    Light,
    Dark,
    /// Follow the operating system
    System,
    Custom(ThemeConfig),
}

/// The palette that the setting `theme` resolves to, where `system_is_dark`
/// says whether the operating system is in dark mode.
pub open spec fn resolve(theme: AppTheme, system_is_dark: bool) -> ResolvedTheme {
    match theme {
        AppTheme::Light => ResolvedTheme::Light,
        AppTheme::Dark => ResolvedTheme::Dark,
        AppTheme::System => if system_is_dark { ResolvedTheme::Dark } else { ResolvedTheme::Light },
        AppTheme::Custom(config) => match config.mode {
            ThemeMode::Dark => ResolvedTheme::Dark,
            ThemeMode::Light => ResolvedTheme::Light,
        },
    }
}

/// The palette of a resolved theme.
pub open spec fn resolved_palette(r: ResolvedTheme) -> Seq<Seq<char>> {
    match r {
        ResolvedTheme::Light => light_palette(),
        ResolvedTheme::Dark => dark_palette(),
    }
}

} // verus!
