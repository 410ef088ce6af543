//! The settings: tabs, the download and advanced options, the proxy card
//! and the platform cookies.
use vstd::prelude::*;
use crate::text::{chars_of, owned, push_str, string_of, trim, trim_chars};
use crate::theme::{lemma_utf8_len_grows, on_char_boundary, utf8_len, utf8_width};

verus! {

broadcast use vstd::string::group_string_axioms;

/// The tabs of the settings view.
#[derive(Debug, Clone, Copy, PartialEq, Eq, Structural)]
pub enum SettingsTab {
    Download,
    Tools,
    Appearance,
    Advanced,
}

pub open spec fn tab_label(t: SettingsTab) -> Seq<char> {
    match t {
        SettingsTab::Download => "下载"@,
        SettingsTab::Tools => "工具"@,
        SettingsTab::Appearance => "外观"@,
        SettingsTab::Advanced => "高级"@,
    }
}

pub open spec fn tab_icon(t: SettingsTab) -> Seq<char> {
    match t {
        SettingsTab::Download => "⬇️"@,
        SettingsTab::Tools => "🔧"@,
        SettingsTab::Appearance => "🎨"@,
        SettingsTab::Advanced => "⚙️"@,
    }
}

impl SettingsTab {
    pub fn label(&self) -> (r: String)
        ensures
            r@ == tab_label(*self),
    {
        match self {
            SettingsTab::Download => owned("下载"),
            SettingsTab::Tools => owned("工具"),
            SettingsTab::Appearance => owned("外观"),
            SettingsTab::Advanced => owned("高级"),
        }
    }

    pub fn icon(&self) -> (r: String)
        ensures
            r@ == tab_icon(*self),
    {
        match self {
            SettingsTab::Download => owned("⬇️"),
            SettingsTab::Tools => owned("🔧"),
            SettingsTab::Appearance => owned("🎨"),
            SettingsTab::Advanced => owned("⚙️"),
        }
    }
}

/// The fewest and the most downloads at once.
pub open spec fn min_concurrent() -> nat {
    1
}

pub open spec fn max_concurrent() -> nat {
    10
}

/// One more download at once, but never beyond the most.
pub open spec fn raised(n: int) -> int {
    if n < max_concurrent() {
        n + 1
    } else {
        n
    }
}

/// One download fewer at once, but never below the fewest.
pub open spec fn lowered(n: int) -> int {
    if n > min_concurrent() {
        n - 1
    } else {
        n
    }
}

/// The options of the settings page.
pub struct SettingsState {
    pub max_concurrent: usize,
    pub auto_check_updates: bool,
    pub debug_mode: bool,
}

impl SettingsState {
    /// Three downloads at once, update checks on, debug off.
    pub fn new() -> (s: Self)
        ensures
            s.max_concurrent == 3,
            s.auto_check_updates,
            !s.debug_mode,
    {
        SettingsState { max_concurrent: 3, auto_check_updates: true, debug_mode: false }
    }

    /// One more download at once, up to ten.
    pub fn increment_concurrent(&mut self)
        ensures
            final(self).max_concurrent == raised(old(self).max_concurrent as int),
            final(self).auto_check_updates == old(self).auto_check_updates,
            final(self).debug_mode == old(self).debug_mode,
    {
        if self.max_concurrent < 10 {
            self.max_concurrent = self.max_concurrent + 1;
        }
    }

    /// One download fewer at once, down to one.
    pub fn decrement_concurrent(&mut self)
        ensures
            final(self).max_concurrent == lowered(old(self).max_concurrent as int),
            final(self).auto_check_updates == old(self).auto_check_updates,
            final(self).debug_mode == old(self).debug_mode,
    {
        if self.max_concurrent > 1 {
            self.max_concurrent = self.max_concurrent - 1;
        }
    }

    pub fn toggle_auto_check_updates(&mut self, enabled: bool)
        ensures
            final(self).auto_check_updates == enabled,
            final(self).max_concurrent == old(self).max_concurrent,
            final(self).debug_mode == old(self).debug_mode,
    {
        self.auto_check_updates = enabled;
    }

    pub fn toggle_debug_mode(&mut self, enabled: bool)
        ensures
            final(self).debug_mode == enabled,
            final(self).max_concurrent == old(self).max_concurrent,
            final(self).auto_check_updates == old(self).auto_check_updates,
    {
        self.debug_mode = enabled;
    }
}

/// The minus button is offered above one download at once, the plus
/// button below ten.
pub fn concurrency_buttons(max_concurrent: usize) -> (r: (bool, bool))
    ensures
        r.0 == (max_concurrent > 1),
        r.1 == (max_concurrent < 10),
{
    (max_concurrent > 1, max_concurrent < 10)
}

/// The download options shown on the settings page.
#[derive(Debug, Clone)]
pub struct DownloadSettingsData {
    pub download_path: String,
    pub max_concurrent: usize,
}

/// The advanced options shown on the settings page.
#[derive(Debug, Clone, Copy, PartialEq, Eq, Structural)]
pub struct AdvancedSettingsData {
    pub auto_check_updates: bool,
    pub debug_mode: bool,
}

impl Default for AdvancedSettingsData {
    /// Update checks on, debug off.
    fn default() -> (d: Self)
        ensures
            d.auto_check_updates,
            !d.debug_mode,
    {
        AdvancedSettingsData { auto_check_updates: true, debug_mode: false }
    }
}

/// How downloads reach the network.
#[derive(Debug, Clone, Copy, PartialEq, Eq, Structural)]
pub enum ProxyMode {
    /// No proxy
    NoProxy,
    System,
    Custom,
}

impl Default for ProxyMode {
    fn default() -> (m: Self)
        ensures
            m == ProxyMode::NoProxy,
    {
        ProxyMode::NoProxy
    }
}

/// Where a test of the proxy stands.
#[derive(Debug, Clone, Copy, PartialEq, Eq, Structural)]
pub enum ProxyTestStatus {
    Idle,
    Testing,
    Success,
    Failed,
}

impl Default for ProxyTestStatus {
    fn default() -> (s: Self)
        ensures
            s == ProxyTestStatus::Idle,
    {
        ProxyTestStatus::Idle
    }
}

/// The look of a button.
#[derive(Debug, Clone, Copy, PartialEq, Eq, Structural)]
pub enum ButtonStyle {
    Primary,
    Subtle,
    Danger,
    Outline,
}

/// What the proxy card shows.
pub struct ProxyCardView {
    /// The style of the none, system and custom buttons
    pub none_button: ButtonStyle,
    pub system_button: ButtonStyle,
    pub custom_button: ButtonStyle,
    pub test_label: String,
    pub test_button: ButtonStyle,
    /// The address field, for a custom proxy
    pub address_field: bool,
    /// The note that the system proxy is used
    pub system_note: bool,
    /// The note that the proxy answered
    pub success_note: bool,
    /// The note that the proxy did not answer
    pub failure_note: bool,
}

pub open spec fn mode_button(mode: ProxyMode, of: ProxyMode) -> ButtonStyle {
    if mode == of { ButtonStyle::Primary } else { ButtonStyle::Subtle }
}

pub open spec fn test_label(s: ProxyTestStatus) -> Seq<char> {
    match s {
        ProxyTestStatus::Idle => "测试连接"@,
        ProxyTestStatus::Testing => "测试中..."@,
        ProxyTestStatus::Success => "连接成功"@,
        ProxyTestStatus::Failed => "连接失败"@,
    }
}

pub open spec fn test_style(s: ProxyTestStatus) -> ButtonStyle {
    match s {
        ProxyTestStatus::Testing => ButtonStyle::Subtle,
        ProxyTestStatus::Success => ButtonStyle::Primary,
        ProxyTestStatus::Failed => ButtonStyle::Danger,
        ProxyTestStatus::Idle => ButtonStyle::Outline,
    }
}

/// What the proxy card shows for a mode and a test status: the chosen
/// mode's button stands out; the test button names and styles the status;
/// the address field and the test outcome for a custom proxy; a note for
/// the system proxy.
pub fn proxy_card_view(mode: ProxyMode, status: ProxyTestStatus) -> (v: ProxyCardView)
    ensures
        v.none_button == mode_button(mode, ProxyMode::NoProxy),
        v.system_button == mode_button(mode, ProxyMode::System),
        v.custom_button == mode_button(mode, ProxyMode::Custom),
        v.test_label@ == test_label(status),
        v.test_button == test_style(status),
        v.address_field == (mode == ProxyMode::Custom),
        v.system_note == (mode == ProxyMode::System),
        v.success_note == (mode == ProxyMode::Custom && status == ProxyTestStatus::Success),
        v.failure_note == (mode == ProxyMode::Custom && status == ProxyTestStatus::Failed),
{
    let style = |m: ProxyMode| -> (s: ButtonStyle)
        ensures
            s == mode_button(mode, m),
        {
            if mode == m {
                ButtonStyle::Primary
            } else {
                ButtonStyle::Subtle
            }
        };
    let (label, test): (String, ButtonStyle) = match status {
        ProxyTestStatus::Idle => (owned("测试连接"), ButtonStyle::Outline),
        ProxyTestStatus::Testing => (owned("测试中..."), ButtonStyle::Subtle),
        ProxyTestStatus::Success => (owned("连接成功"), ButtonStyle::Primary),
        ProxyTestStatus::Failed => (owned("连接失败"), ButtonStyle::Danger),
    };
    ProxyCardView {
        none_button: style(ProxyMode::NoProxy),
        system_button: style(ProxyMode::System),
        custom_button: style(ProxyMode::Custom),
        test_label: label,
        test_button: test,
        address_field: mode == ProxyMode::Custom,
        system_note: mode == ProxyMode::System,
        success_note: mode == ProxyMode::Custom && status == ProxyTestStatus::Success,
        failure_note: mode == ProxyMode::Custom && status == ProxyTestStatus::Failed,
    }
}

/// A cookie for a platform.
#[derive(Debug, Clone)]
pub struct PlatformCookie {
    pub platform: String,
    pub cookie: String,
    pub enabled: bool,
}

/// The cookie entered in the form, when platform and cookie are both not
/// blank: trimmed, and enabled.
pub fn cookie_from_form(platform: &str, cookie: &str) -> (r: Option<PlatformCookie>)
    ensures
        (trim(platform@).len() > 0 && trim(cookie@).len() > 0) ==> (r matches Some(c)
            && c.platform@ == trim(platform@) && c.cookie@ == trim(cookie@) && c.enabled),
        !(trim(platform@).len() > 0 && trim(cookie@).len() > 0) ==> r is None,
{
    let p = trim_chars(&chars_of(platform));
    let c = trim_chars(&chars_of(cookie));
    if p.len() > 0 && c.len() > 0 {
        Some(PlatformCookie { platform: string_of(&p), cookie: string_of(&c), enabled: true })
    } else {
        None
    }
}

/// The prefix of `s` that takes `b` bytes in UTF-8.
pub open spec fn byte_prefix(s: Seq<char>, b: nat) -> Seq<char> {
    s.take(choose|k: int| 0 <= k <= s.len() && utf8_len(s.take(k)) == b)
}

/// How a cookie is shown: its first 50 bytes and `...` when it is longer.
pub open spec fn cookie_preview_text(c: Seq<char>) -> Seq<char> {
    if utf8_len(c) > 50 {
        byte_prefix(c, 50) + "..."@
    } else {
        c
    }
}

fn char_width(c: char) -> (w: usize)
    ensures
        w == utf8_width(c),
{
    let u = c as u32;
    if u < 0x80 {
        1
    } else if u < 0x800 {
        2
    } else if u < 0x10000 {
        3
    } else {
        4
    }
}

/// How a cookie is shown (see `cookie_preview_text`). A longer cookie is
/// cut at a byte offset, which must fall between two characters.
pub fn cookie_preview(cookie: &str) -> (r: String)
    requires
        utf8_len(cookie@) > 50 ==> on_char_boundary(cookie@, 50),
    ensures
        r@ == cookie_preview_text(cookie@),
{
    let v = chars_of(cookie);
    let mut bytes: usize = 0;
    let mut k: usize = 0;
    assert(v@.take(0) =~= Seq::<char>::empty());
    while k < v.len() && bytes < 51
        invariant
            k <= v@.len(),
            v@ == cookie@,
            bytes == utf8_len(v@.take(k as int)),
            bytes <= 54,
        decreases v@.len() - k,
    {
        assert(v@.take(k + 1).drop_last() =~= v@.take(k as int));
        bytes = bytes + char_width(v[k]);
        k = k + 1;
    }
    let total_over = bytes > 50;
    if !total_over {
        assert(v@.take(k as int) =~= v@);
        return owned(cookie);
    }
    proof {
        assert(v@.take(v@.len() as int) =~= v@);
        if k < v@.len() {
            lemma_utf8_len_grows(v@, k as int, v@.len() as int);
        }
    }
    assert(utf8_len(v@) > 50);
    assert(on_char_boundary(cookie@, 50));
    let ghost j = choose|j: int| 0 <= j <= v@.len() && utf8_len(v@.take(j)) == 50;
    let mut m: usize = 0;
    let mut b: usize = 0;
    while b < 50
        invariant
            m <= v@.len(),
            v@ == cookie@,
            b == utf8_len(v@.take(m as int)),
            0 <= j <= v@.len(),
            utf8_len(v@.take(j)) == 50,
            m <= j,
            v@.len() == v.len(),
        decreases j - m,
    {
        assert(m < j);
        assert(v@.take(m + 1).drop_last() =~= v@.take(m as int));
        b = b + char_width(v[m]);
        m = m + 1;
        proof {
            if m > j {
                lemma_utf8_len_grows(v@, j, m as int);
            } else if m < j {
                lemma_utf8_len_grows(v@, m as int, j);
            }
        }
    }
    proof {
        if (m as int) < j {
            lemma_utf8_len_grows(v@, m as int, j);
        }
        assert(m as int == j);
    }
    let prefix = crate::text::slice_range(&v, 0, m);
    assert(prefix@ =~= v@.take(m as int));
    proof {
        let c = cookie@;
        let k2 = choose|k: int| 0 <= k <= c.len() && utf8_len(c.take(k)) == 50;
        assert(0 <= k2 <= c.len() && utf8_len(c.take(k2)) == 50);
        if k2 < m {
            lemma_utf8_len_grows(c, k2, m as int);
        } else if k2 > m {
            lemma_utf8_len_grows(c, m as int, k2);
        }
        assert(byte_prefix(c, 50) == c.take(m as int));
    }
    let mut r = string_of(&prefix);
    push_str(&mut r, "...");
    r
}


/// The name a default format is shown under.
pub open spec fn format_display(format: Seq<char>) -> Seq<char> {
    if format == "best"@ {
        "最佳质量"@
    } else if format == "bestvideo+bestaudio"@ {
        "最佳视频+音频"@
    } else if format == "bestvideo"@ {
        "仅最佳视频"@
    } else if format == "bestaudio"@ {
        "仅最佳音频"@
    } else if format == "worst"@ {
        "最低质量"@
    } else {
        format
    }
}

/// The name a default format is shown under (see `format_display`).
pub fn format_display_name(format: &str) -> (r: String)
    ensures
        r@ == format_display(format@),
{
    if crate::record::str_eq(format, "best") {
        owned("最佳质量")
    } else if crate::record::str_eq(format, "bestvideo+bestaudio") {
        owned("最佳视频+音频")
    } else if crate::record::str_eq(format, "bestvideo") {
        owned("仅最佳视频")
    } else if crate::record::str_eq(format, "bestaudio") {
        owned("仅最佳音频")
    } else if crate::record::str_eq(format, "worst") {
        owned("最低质量")
    } else {
        owned(format)
    }
}

/// The name a language code is shown under.
pub open spec fn language_display(lang: Seq<char>) -> Seq<char> {
    if lang == "en"@ {
        "English"@
    } else if lang == "zh"@ {
        "简体中文"@
    } else if lang == "zh-TW"@ {
        "繁體中文"@
    } else if lang == "ja"@ {
        "日本語"@
    } else if lang == "ko"@ {
        "한국어"@
    } else {
        lang
    }
}

/// The name a language code is shown under (see `language_display`).
pub fn language_display_name(lang: &str) -> (r: String)
    ensures
        r@ == language_display(lang@),
{
    if crate::record::str_eq(lang, "en") {
        owned("English")
    } else if crate::record::str_eq(lang, "zh") {
        owned("简体中文")
    } else if crate::record::str_eq(lang, "zh-TW") {
        owned("繁體中文")
    } else if crate::record::str_eq(lang, "ja") {
        owned("日本語")
    } else if crate::record::str_eq(lang, "ko") {
        owned("한국어")
    } else {
        owned(lang)
    }
}

} // verus!
