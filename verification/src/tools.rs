//! The external tools (yt-dlp, ffmpeg): where they are found, which version
//! they report, and how their state is shown.
use vstd::prelude::*;
use crate::download::{contains_lit, strings_of};
use crate::text::{
    chars_of, clone_opt, contains, first_word, first_word_chars, lines_chars, lines_of, opt_view, owned,
    push_str, seqs_of, split_second, split_second_chars, starts_with, starts_with_chars, string_of,
    words, words_chars,
};
use crate::types::{ToolStatus, ToolType};

verus! {

broadcast use vstd::string::group_string_axioms;

/// The program name under which a tool is looked up on the system `PATH`.
pub open spec fn tool_command(t: ToolType) -> Seq<char> {
    match t {
        ToolType::YtDlp => "yt-dlp"@,
        ToolType::Ffmpeg => "ffmpeg"@,
    }
}

/// The program name of `t` (see `tool_command`).
pub fn tool_command_name(t: ToolType) -> (r: String)
    ensures
        r@ == tool_command(t),
{
    match t {
        ToolType::YtDlp => owned("yt-dlp"),
        ToolType::Ffmpeg => owned("ffmpeg"),
    }
}

/// The first word of `ws` that starts with `p`.
pub open spec fn first_with_prefix(ws: Seq<Seq<char>>, p: Seq<char>) -> Option<Seq<char>>
    decreases ws.len(),
{
    if ws.len() == 0 {
        None
    } else if starts_with(ws[0], p) {
        Some(ws[0])
    } else {
        first_with_prefix(ws.drop_first(), p)
    }
}

/// The first line of `ls` that holds `p`.
pub open spec fn first_containing(ls: Seq<Seq<char>>, p: Seq<char>) -> Option<Seq<char>>
    decreases ls.len(),
{
    if ls.len() == 0 {
        None
    } else if contains(ls[0], p) {
        Some(ls[0])
    } else {
        first_containing(ls.drop_first(), p)
    }
}

/// The version that `--version` output reports: for yt-dlp the first word
/// of the first line that starts with `20` (`2023.07.06`); for ffmpeg the
/// first word after `version` on the first line that holds `ffmpeg version`.
pub open spec fn reported_version(t: ToolType, out: Seq<char>) -> Option<Seq<char>> {
    let ls = lines_of(out);
    match t {
        ToolType::YtDlp => if ls.len() == 0 {
            None
        } else {
            first_with_prefix(words(ls[0]), "20"@)
        },
        ToolType::Ffmpeg => match first_containing(ls, "ffmpeg version"@) {
            Some(l) => match split_second(l, "version"@) {
                Some(rest) => first_word(rest),
                None => None,
            },
            None => None,
        },
    }
}

/// The version in the `--version` output of tool `t` (see `reported_version`).
pub fn version_from_output(t: ToolType, output: &str) -> (r: Option<String>)
    ensures
        opt_view(r) == reported_version(t, output@),
{
    let v = chars_of(output);
    let ls = lines_chars(&v);
    let ghost lv = lines_of(output@);
    match t {
        ToolType::YtDlp => {
            if ls.len() == 0 {
                return None;
            }
            let ws = words_chars(&ls[0]);
            let p = chars_of("20");
            let mut k: usize = 0;
            assert(seqs_of(ws@).skip(0) =~= seqs_of(ws@));
            while k < ws.len()
                invariant
                    k <= ws@.len(),
                    seqs_of(ws@) == words(lv[0]),
                    lv == lines_of(output@),
                    t == ToolType::YtDlp,
                    lv.len() > 0,
                    p@ == "20"@,
                    first_with_prefix(words(lv[0]), "20"@) == first_with_prefix(
                        seqs_of(ws@).skip(k as int),
                        "20"@,
                    ),
                decreases ws@.len() - k,
            {
                let ghost rest = seqs_of(ws@).skip(k as int);
                assert(rest[0] == ws@[k as int]@);
                if starts_with_chars(&ws[k], &p) {
                    assert(rest.len() > 0);
                    assert(first_with_prefix(rest, "20"@) == Some(ws@[k as int]@));

                    return Some(string_of(&ws[k]));
                }
                assert(rest.drop_first() =~= seqs_of(ws@).skip(k + 1));
                k = k + 1;
            }
            None
        },
        ToolType::Ffmpeg => {
            let mut k: usize = 0;
            assert(lv.skip(0) =~= lv);
            while k < ls.len()
                invariant
                    k <= ls@.len(),
                    ls@.len() == lv.len(),
                    lv == lines_of(output@),
                    t == ToolType::Ffmpeg,
                    forall|m: int| 0 <= m < ls@.len() ==> #[trigger] ls@[m]@ == lv[m],
                    first_containing(lv, "ffmpeg version"@) == first_containing(
                        lv.skip(k as int),
                        "ffmpeg version"@,
                    ),
                decreases ls@.len() - k,
            {
                let ghost rest = lv.skip(k as int);
                assert(rest[0] == lv[k as int]);
                if contains_lit(&ls[k], "ffmpeg version") {
                    let marker = chars_of("version");
                    proof {
                        reveal_strlit("version");
                        assert(rest.len() > 0);
                        assert(first_containing(rest, "ffmpeg version"@) == Some(lv[k as int]));
                    }
                    return match split_second_chars(&ls[k], &marker) {
                        Some(after) => match first_word_chars(&after) {
                            Some(w) => Some(string_of(&w)),
                            None => None,
                        },
                        None => None,
                    };
                }
                assert(rest.drop_first() =~= lv.skip(k + 1));
                k = k + 1;
            }
            None
        },
    }
}

/// The status of a tool from what was found: an installation in the
/// application's own directory (with the version it recorded) comes first;
/// else a program on the system `PATH` (`Some`, with the version it
/// reported); else none.
pub fn tool_status(
    installed_in_app: bool,
    app_version: Option<String>,
    system_tool: Option<Option<String>>,
) -> (r: ToolStatus)
    ensures
        installed_in_app ==> r == (ToolStatus::Installed { version: app_version, is_system: false }),
        !installed_in_app && system_tool is Some ==> r == (ToolStatus::Installed {
            version: system_tool->0,
            is_system: true,
        }),
        !installed_in_app && system_tool is None ==> r is NotInstalled,
{
    if installed_in_app {
        return ToolStatus::Installed { version: app_version, is_system: false };
    }
    match system_tool {
        Some(version) => ToolStatus::Installed { version, is_system: true },
        None => ToolStatus::NotInstalled,
    }
}

/// The bytes of a tool download so far.
#[derive(Debug, Clone, Copy, PartialEq, Eq, Structural)]
pub struct DownloadProgress {
    /// Bytes downloaded
    pub downloaded: u64,
    /// Total bytes
    pub total: u64,
    /// Bytes per second
    pub speed: u64,
}

/// Where a tool stands, as the tools page shows it.
#[derive(Debug, Clone)]
pub enum ToolInstallState {
    Unknown,
    NotInstalled,
    /// Installed (version, and whether found on the system `PATH`)
    Installed { version: Option<String>, is_system: bool },
    /// Being downloaded
    Downloading(DownloadProgress),
    /// Downloaded, being installed
    Installing,
    Failed(String),
}

impl Default for ToolInstallState {
    fn default() -> (s: Self)
        ensures
            s is Unknown,
    {
        ToolInstallState::Unknown
    }
}

/// A tool as the tools page lists it.
#[derive(Debug, Clone)]
pub struct ToolInfo {
    pub name: String,
    pub description: String,
    pub tool_type: ToolType,
    pub state: ToolInstallState,
    pub icon: String,
}

impl ToolInfo {
    /// yt-dlp, state not yet checked.
    pub fn yt_dlp() -> (t: Self)
        ensures
            t.name@ == "yt-dlp"@,
            t.description@ == "强大的视频下载工具，支持 YouTube、Bilibili 等众多平台"@,
            t.tool_type == ToolType::YtDlp,
            t.state is Unknown,
            t.icon@ == "📥"@,
    {
        ToolInfo {
            name: owned("yt-dlp"),
            description: owned("强大的视频下载工具，支持 YouTube、Bilibili 等众多平台"),
            tool_type: ToolType::YtDlp,
            state: ToolInstallState::Unknown,
            icon: owned("📥"),
        }
    }

    /// FFmpeg, state not yet checked.
    pub fn ffmpeg() -> (t: Self)
        ensures
            t.name@ == "FFmpeg"@,
            t.description@ == "音视频处理工具，用于格式转换和视频合并"@,
            t.tool_type == ToolType::Ffmpeg,
            t.state is Unknown,
            t.icon@ == "🎞️"@,
    {
        ToolInfo {
            name: owned("FFmpeg"),
            description: owned("音视频处理工具，用于格式转换和视频合并"),
            tool_type: ToolType::Ffmpeg,
            state: ToolInstallState::Unknown,
            icon: owned("🎞️"),
        }
    }
}

/// The state shown for a tool once its status is known.
pub fn install_state_of(status: &ToolStatus) -> (s: ToolInstallState)
    ensures
        match *status {
            ToolStatus::NotInstalled => s is NotInstalled,
            (ToolStatus::Installed { version, is_system }) => s == (ToolInstallState::Installed {
                version,
                is_system,
            }),
        },
{
    match status {
        ToolStatus::NotInstalled => ToolInstallState::NotInstalled,
        ToolStatus::Installed { version, is_system } => ToolInstallState::Installed {
            version: clone_opt(version),
            is_system: *is_system,
        },
    }
}

/// The state shown for a tool after installing every tool: a tool still
/// missing is shown as failed when the installation reported an error.
pub fn state_after_install_all(status: &ToolStatus, install_failed: bool) -> (s: ToolInstallState)
    ensures
        match *status {
            ToolStatus::NotInstalled => if install_failed {
                s matches ToolInstallState::Failed(m) && m@ == "安装失败"@
            } else {
                s is NotInstalled
            },
            (ToolStatus::Installed { version, is_system }) => s == (ToolInstallState::Installed {
                version,
                is_system,
            }),
        },
{
    match status {
        ToolStatus::NotInstalled => if install_failed {
            ToolInstallState::Failed(owned("安装失败"))
        } else {
            ToolInstallState::NotInstalled
        },
        ToolStatus::Installed { version, is_system } => ToolInstallState::Installed {
            version: clone_opt(version),
            is_system: *is_system,
        },
    }
}

/// The state reported by a download progress callback: a speed of
/// `u64::MAX` marks the end of the download and the start of installing.
pub fn state_from_progress(downloaded: u64, total: u64, speed: u64) -> (s: ToolInstallState)
    ensures
        speed == u64::MAX ==> s is Installing,
        speed != u64::MAX ==> s == ToolInstallState::Downloading(
            DownloadProgress { downloaded, total, speed },
        ),
{
    if speed == u64::MAX {
        ToolInstallState::Installing
    } else {
        ToolInstallState::Downloading(DownloadProgress { downloaded, total, speed })
    }
}

/// A missing or failed tool waits for installation.
pub open spec fn needs_install(s: ToolInstallState) -> bool {
    s is NotInstalled || s is Failed
}

/// A tool being downloaded or installed.
pub open spec fn is_busy(s: ToolInstallState) -> bool {
    s is Installing || s is Downloading
}

/// The state when installation of every tool starts: tools that need it
/// are shown as installing, the others keep their state.
pub fn state_on_install_all(s: &ToolInstallState) -> (r: ToolInstallState)
    ensures
        needs_install(*s) ==> r is Installing,
        !needs_install(*s) ==> r == *s,
{
    match s {
        ToolInstallState::NotInstalled | ToolInstallState::Failed(_) => ToolInstallState::Installing,
        _ => clone_state(s),
    }
}

fn clone_string(s: &String) -> (r: String)
    ensures
        r == *s,
{
    s.clone()
}

fn clone_state(s: &ToolInstallState) -> (r: ToolInstallState)
    ensures
        r == *s,
{
    match s {
        ToolInstallState::Unknown => ToolInstallState::Unknown,
        ToolInstallState::NotInstalled => ToolInstallState::NotInstalled,
        ToolInstallState::Installed { version, is_system } => ToolInstallState::Installed {
            version: clone_opt(version),
            is_system: *is_system,
        },
        ToolInstallState::Downloading(p) => ToolInstallState::Downloading(*p),
        ToolInstallState::Installing => ToolInstallState::Installing,
        ToolInstallState::Failed(m) => ToolInstallState::Failed(clone_string(m)),
    }
}

/// The colour family of a status text.
#[derive(Debug, Clone, Copy, PartialEq, Eq, Structural)]
pub enum StatusTone {
    Muted,
    Danger,
    Success,
    Primary,
    Warning,
}

/// The status text of a tool card; `None` while downloading, where the text
/// is built from the download percentage.
pub open spec fn status_text(s: ToolInstallState) -> Option<Seq<char>> {
    match s {
        ToolInstallState::Unknown => Some("检查中..."@),
        ToolInstallState::NotInstalled => Some("未安装"@),
        ToolInstallState::Installed { version, is_system } => Some(
            match version {
                Some(v) => if is_system {
                    "v"@ + v@ + " (系统)"@
                } else {
                    "v"@ + v@
                },
                None => if is_system {
                    "已安装 (系统)"@
                } else {
                    "已安装"@
                },
            },
        ),
        ToolInstallState::Downloading(_) => None,
        ToolInstallState::Installing => Some("安装中..."@),
        ToolInstallState::Failed(_) => Some("安装失败"@),
    }
}

pub open spec fn status_tone(s: ToolInstallState) -> StatusTone {
    match s {
        ToolInstallState::Unknown => StatusTone::Muted,
        ToolInstallState::NotInstalled => StatusTone::Danger,
        ToolInstallState::Installed { .. } => StatusTone::Success,
        ToolInstallState::Downloading(_) => StatusTone::Primary,
        ToolInstallState::Installing => StatusTone::Primary,
        ToolInstallState::Failed(_) => StatusTone::Danger,
    }
}

/// The label of a tool card's action button, and whether it is disabled.
pub open spec fn action_button(s: ToolInstallState) -> (Seq<char>, bool) {
    match s {
        ToolInstallState::NotInstalled | ToolInstallState::Failed(_) => ("安装"@, false),
        ToolInstallState::Installed { .. } => ("检查更新"@, false),
        ToolInstallState::Installing | ToolInstallState::Downloading(_) => ("下载中..."@, true),
        ToolInstallState::Unknown => ("..."@, true),
    }
}

/// Only a tool installed in the application's own directory can be deleted.
pub open spec fn can_delete(s: ToolInstallState) -> bool {
    s matches ToolInstallState::Installed { is_system, .. } && !is_system
}

/// What a tool card shows for a state.
pub struct ToolCardView {
    pub status_text: Option<String>,
    pub tone: StatusTone,
    pub busy: bool,
    pub can_delete: bool,
    pub button_label: String,
    pub button_disabled: bool,
}

/// What the card of a tool in state `s` shows.
pub fn tool_card_view(s: &ToolInstallState) -> (v: ToolCardView)
    ensures
        opt_view(v.status_text) == status_text(*s),
        v.tone == status_tone(*s),
        v.busy == is_busy(*s),
        v.can_delete == can_delete(*s),
        v.button_label@ == action_button(*s).0,
        v.button_disabled == action_button(*s).1,
{
    let (text, tone): (Option<String>, StatusTone) = match s {
        ToolInstallState::Unknown => (Some(owned("检查中...")), StatusTone::Muted),
        ToolInstallState::NotInstalled => (Some(owned("未安装")), StatusTone::Danger),
        ToolInstallState::Installed { version, is_system } => {
            let t = match version {
                Some(ver) => {
                    let mut t = owned("v");
                    push_str(&mut t, ver.as_str());
                    if *is_system {
                        push_str(&mut t, " (系统)");
                    }
                    t
                },
                None => if *is_system {
                    owned("已安装 (系统)")
                } else {
                    owned("已安装")
                },
            };
            (Some(t), StatusTone::Success)
        },
        ToolInstallState::Downloading(_) => (None, StatusTone::Primary),
        ToolInstallState::Installing => (Some(owned("安装中...")), StatusTone::Primary),
        ToolInstallState::Failed(_) => (Some(owned("安装失败")), StatusTone::Danger),
    };
    let (label, disabled): (String, bool) = match s {
        ToolInstallState::NotInstalled | ToolInstallState::Failed(_) => (owned("安装"), false),
        ToolInstallState::Installed { .. } => (owned("检查更新"), false),
        ToolInstallState::Installing | ToolInstallState::Downloading(_) => (owned("下载中..."), true),
        ToolInstallState::Unknown => (owned("..."), true),
    };
    let busy = match s {
        ToolInstallState::Installing | ToolInstallState::Downloading(_) => true,
        _ => false,
    };
    let deletable = match s {
        ToolInstallState::Installed { is_system, .. } => !*is_system,
        _ => false,
    };
    ToolCardView {
        status_text: text,
        tone,
        busy,
        can_delete: deletable,
        button_label: label,
        button_disabled: disabled,
    }
}

/// Some tool is missing or failed (the "install all" button is offered).
pub fn any_not_installed(tools: &Vec<ToolInfo>) -> (b: bool)
    ensures
        b == exists|i: int| 0 <= i < tools@.len() && needs_install(#[trigger] tools@[i].state),
{
    let mut k: usize = 0;
    while k < tools.len()
        invariant
            k <= tools@.len(),
            forall|i: int| 0 <= i < k ==> !needs_install(#[trigger] tools@[i].state),
        decreases tools@.len() - k,
    {
        match &tools[k].state {
            ToolInstallState::NotInstalled | ToolInstallState::Failed(_) => {
                return true;
            },
            _ => {},
        }
        k = k + 1;
    }
    false
}

/// Some tool is being downloaded or installed.
pub fn any_installing(tools: &Vec<ToolInfo>) -> (b: bool)
    ensures
        b == exists|i: int| 0 <= i < tools@.len() && is_busy(#[trigger] tools@[i].state),
{
    let mut k: usize = 0;
    while k < tools.len()
        invariant
            k <= tools@.len(),
            forall|i: int| 0 <= i < k ==> !is_busy(#[trigger] tools@[i].state),
        decreases tools@.len() - k,
    {
        match &tools[k].state {
            ToolInstallState::Installing | ToolInstallState::Downloading(_) => {
                return true;
            },
            _ => {},
        }
        k = k + 1;
    }
    false
}


/// Whether the header buttons of the tools page are disabled: refreshing
/// while a check runs; installing everything while a check runs, while a
/// tool is being installed, or when no tool needs it.
pub fn header_buttons_disabled(tools: &Vec<ToolInfo>, is_checking: bool) -> (r: (bool, bool))
    ensures
        r.0 == is_checking,
        r.1 == (!(exists|i: int| 0 <= i < tools@.len() && needs_install(#[trigger] tools@[i].state))
            || (exists|i: int| 0 <= i < tools@.len() && is_busy(#[trigger] tools@[i].state)) || is_checking),
{
    (is_checking, !any_not_installed(tools) || any_installing(tools) || is_checking)
}

/// The error shown when installing the tool `name` failed with `error`.
pub fn install_failed_message(name: &str, error: &str) -> (r: String)
    ensures
        r@ == "安装 "@ + name@ + " 失败: "@ + error@,
{
    let mut s = owned("安装 ");
    push_str(&mut s, name);
    push_str(&mut s, " 失败: ");
    push_str(&mut s, error);
    s
}

/// The error shown when deleting a tool failed with `error`.
pub fn delete_failed_message(error: &str) -> (r: String)
    ensures
        r@ == "删除失败: "@ + error@,
{
    let mut s = owned("删除失败: ");
    push_str(&mut s, error);
    s
}

/// The error shown when installing every tool failed with `error`.
pub fn install_all_failed_message(error: &str) -> (r: String)
    ensures
        r@ == "安装工具失败: "@ + error@,
{
    let mut s = owned("安装工具失败: ");
    push_str(&mut s, error);
    s
}

} // verus!
