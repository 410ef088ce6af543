//! The tool panel: each tool's installed and latest version, the state
//! they imply, and the badge and buttons shown for it.
use vstd::prelude::*;
use crate::settings::ButtonStyle;
use crate::text::{opt_view, owned};
use crate::tools::StatusTone;

verus! {

broadcast use vstd::string::group_string_axioms;

/// Where a tool of the panel stands.
#[derive(Debug, Clone, Copy, PartialEq, Eq, Structural)]
pub enum ToolState {
    NotInstalled,
    Installed,
    Checking,
    Updating,
    UpdateAvailable,
    Installing,
    Error,
}

pub open spec fn state_label(s: ToolState) -> Seq<char> {
    match s {
        ToolState::NotInstalled => "未安装"@,
        ToolState::Installed => "已安装"@,
        ToolState::Checking => "检查中..."@,
        ToolState::Updating => "更新中..."@,
        ToolState::UpdateAvailable => "有更新"@,
        ToolState::Installing => "安装中..."@,
        ToolState::Error => "错误"@,
    }
}

/// A state in which the tool is being worked on.
pub open spec fn state_busy(s: ToolState) -> bool {
    s == ToolState::Checking || s == ToolState::Updating || s == ToolState::Installing
}

pub open spec fn state_tone(s: ToolState) -> StatusTone {
    match s {
        ToolState::NotInstalled => StatusTone::Danger,
        ToolState::Installed => StatusTone::Success,
        ToolState::UpdateAvailable => StatusTone::Warning,
        ToolState::Error => StatusTone::Danger,
        _ => StatusTone::Primary,
    }
}

impl ToolState {
    pub fn label(&self) -> (r: String)
        ensures
            r@ == state_label(*self),
    {
        match self {
            ToolState::NotInstalled => owned("未安装"),
            ToolState::Installed => owned("已安装"),
            ToolState::Checking => owned("检查中..."),
            ToolState::Updating => owned("更新中..."),
            ToolState::UpdateAvailable => owned("有更新"),
            ToolState::Installing => owned("安装中..."),
            ToolState::Error => owned("错误"),
        }
    }

    pub fn is_busy(&self) -> (b: bool)
        ensures
            b == state_busy(*self),
    {
        match self {
            ToolState::Checking | ToolState::Updating | ToolState::Installing => true,
            _ => false,
        }
    }
}

/// A tool as the panel shows it.
#[derive(Debug, Clone)]
pub struct ToolInfo {
    pub name: String,
    pub description: String,
    pub current_version: Option<String>,
    pub latest_version: Option<String>,
    pub status: ToolState,
    pub install_path: Option<String>,
    pub icon: String,
}

/// The tools of the panel.
pub struct ToolPanel {
    pub tools: Vec<ToolInfo>,
}

/// The state implied by the installed and the latest version: not
/// installed without an installed version; an update when a different
/// latest version is known; installed otherwise.
pub open spec fn state_for_versions(current: Option<Seq<char>>, latest: Option<Seq<char>>) -> ToolState {
    if current is None {
        ToolState::NotInstalled
    } else if latest is Some && current != latest {
        ToolState::UpdateAvailable
    } else {
        ToolState::Installed
    }
}

/// The first tool named `name`.
pub open spec fn first_named(s: Seq<ToolInfo>, name: Seq<char>) -> Option<int>
    decreases s.len(),
{
    if s.len() == 0 {
        None
    } else if s[0].name@ == name {
        Some(0)
    } else {
        match first_named(s.drop_first(), name) {
            Some(i) => Some(i + 1),
            None => None,
        }
    }
}

pub proof fn lemma_first_named_at(s: Seq<ToolInfo>, name: Seq<char>, i: int)
    requires
        0 <= i <= s.len(),
        forall|j: int| 0 <= j < i ==> s[j].name@ != name,
        i < s.len() ==> s[i].name@ == name,
    ensures
        first_named(s, name) == (if i < s.len() { Some(i) } else { None::<int> }),
    decreases i,
{
    if i > 0 {
        assert forall|j: int| 0 <= j < i - 1 implies s.drop_first()[j].name@ != name by {
            assert(s.drop_first()[j] == s[j + 1]);
        }
        lemma_first_named_at(s.drop_first(), name, i - 1);
    }
}

/// The panel's tools with the first one named `name` changed to `t`.
pub open spec fn with_tool(s: Seq<ToolInfo>, name: Seq<char>, t: ToolInfo) -> Seq<ToolInfo> {
    match first_named(s, name) {
        Some(i) => s.update(i, t),
        None => s,
    }
}

impl ToolPanel {
    /// yt-dlp and FFmpeg, both being checked.
    pub fn new() -> (p: Self)
        ensures
            p.tools@.len() == 2,
            p.tools@[0].name@ == "yt-dlp"@,
            p.tools@[0].description@ == "视频下载引擎，支持 1000+ 网站"@,
            p.tools@[0].icon@ == "📥"@,
            p.tools@[1].name@ == "FFmpeg"@,
            p.tools@[1].description@ == "音视频处理工具，用于格式转换和合并"@,
            p.tools@[1].icon@ == "🎬"@,
            forall|i: int| 0 <= i < 2 ==> {
                let t = #[trigger] p.tools@[i];
                &&& t.current_version is None
                &&& t.latest_version is None
                &&& t.status == ToolState::Checking
                &&& t.install_path is None
            },
    {
        let tools = vec![
            ToolInfo {
                name: owned("yt-dlp"),
                description: owned("视频下载引擎，支持 1000+ 网站"),
                current_version: None,
                latest_version: None,
                status: ToolState::Checking,
                install_path: None,
                icon: owned("📥"),
            },
            ToolInfo {
                name: owned("FFmpeg"),
                description: owned("音视频处理工具，用于格式转换和合并"),
                current_version: None,
                latest_version: None,
                status: ToolState::Checking,
                install_path: None,
                icon: owned("🎬"),
            },
        ];
        ToolPanel { tools }
    }

    fn position(&self, name: &str) -> (r: Option<usize>)
        ensures
            match r {
                Some(i) => i < self.tools@.len() && first_named(self.tools@, name@) == Some(i as int),
                None => first_named(self.tools@, name@) is None,
            },
    {
        let mut k: usize = 0;
        while k < self.tools.len()
            invariant
                k <= self.tools@.len(),
                forall|j: int| 0 <= j < k ==> self.tools@[j].name@ != name@,
            decreases self.tools@.len() - k,
        {
            if crate::record::str_eq(self.tools[k].name.as_str(), name) {
                proof {
                    lemma_first_named_at(self.tools@, name@, k as int);
                }
                return Some(k);
            }
            k = k + 1;
        }
        proof {
            lemma_first_named_at(self.tools@, name@, k as int);
        }
        None
    }

    /// Replaces the first tool named `name`.
    pub fn update_tool(&mut self, name: &str, info: ToolInfo)
        ensures
            final(self).tools@ == with_tool(old(self).tools@, name@, info),
    {
        match self.position(name) {
            Some(i) => {
                let _ = self.tools.remove(i);
                self.tools.insert(i, info);
                assert(self.tools@ =~= old(self).tools@.update(i as int, info));
            },
            None => {},
        }
    }

    /// Sets the state of the first tool named `name`.
    pub fn set_tool_state(&mut self, name: &str, state: ToolState)
        ensures
            final(self).tools@ == match first_named(old(self).tools@, name@) {
                Some(i) => old(self).tools@.update(i, (ToolInfo { status: state, ..old(self).tools@[i] })),
                None => old(self).tools@,
            },
    {
        match self.position(name) {
            Some(i) => {
                let mut t = self.tools.remove(i);
                t.status = state;
                self.tools.insert(i, t);
                assert(self.tools@ =~= old(self).tools@.update(i as int, (ToolInfo { status: state, ..old(self).tools@[i as int] })));
            },
            None => {},
        }
    }

    /// Sets the installed and latest versions of the first tool named
    /// `name`, and the state they imply (see `state_for_versions`).
    pub fn set_tool_version(&mut self, name: &str, current: Option<String>, latest: Option<String>)
        ensures
            final(self).tools@.len() == old(self).tools@.len(),
            first_named(old(self).tools@, name@) is None ==> final(self).tools@ == old(self).tools@,
            first_named(old(self).tools@, name@) matches Some(i) ==> {
                let o = old(self).tools@[i];
                let n = final(self).tools@[i];
                &&& final(self).tools@ == old(self).tools@.update(i, n)
                &&& n.current_version == current
                &&& n.latest_version == latest
                &&& n.status == state_for_versions(opt_view(current), opt_view(latest))
                &&& n.name == o.name
                &&& n.description == o.description
                &&& n.install_path == o.install_path
                &&& n.icon == o.icon
            },
    {
        match self.position(name) {
            Some(i) => {
                let mut t = self.tools.remove(i);
                let status = match (&current, &latest) {
                    (None, _) => ToolState::NotInstalled,
                    (Some(c), Some(l)) => if *c != *l {
                        ToolState::UpdateAvailable
                    } else {
                        ToolState::Installed
                    },
                    (Some(_), None) => ToolState::Installed,
                };
                t.current_version = current;
                t.latest_version = latest;
                t.status = status;
                let ghost n = t;
                self.tools.insert(i, t);
                assert(self.tools@ =~= old(self).tools@.update(i as int, n));
            },
            None => {},
        }
    }
}

/// The action button of a tool: its label, style, and whether it is disabled.
pub open spec fn action_of(s: ToolState) -> (Seq<char>, ButtonStyle, bool) {
    match s {
        ToolState::NotInstalled => ("安装"@, ButtonStyle::Primary, false),
        ToolState::Installed => ("检查更新"@, ButtonStyle::Subtle, false),
        ToolState::UpdateAvailable => ("更新"@, ButtonStyle::Primary, false),
        ToolState::Checking | ToolState::Updating | ToolState::Installing => (
            "请稍候..."@,
            ButtonStyle::Subtle,
            true,
        ),
        ToolState::Error => ("重试"@, ButtonStyle::Subtle, false),
    }
}

/// What the row of a tool shows.
pub struct ToolRowView {
    pub badge_label: String,
    pub badge_tone: StatusTone,
    /// The spinner beside the badge
    pub spinner: bool,
    pub action_label: String,
    pub action_style: ButtonStyle,
    pub action_disabled: bool,
    /// The button that opens the tool's folder
    pub folder_button: bool,
}

/// What the row of a tool in state `s` shows.
pub fn tool_row_view(s: ToolState) -> (v: ToolRowView)
    ensures
        v.badge_label@ == state_label(s),
        v.badge_tone == state_tone(s),
        v.spinner == state_busy(s),
        v.action_label@ == action_of(s).0,
        v.action_style == action_of(s).1,
        v.action_disabled == action_of(s).2,
        v.folder_button == (s == ToolState::Installed || s == ToolState::UpdateAvailable),
{
    let (label, style, disabled): (String, ButtonStyle, bool) = match s {
        ToolState::NotInstalled => (owned("安装"), ButtonStyle::Primary, false),
        ToolState::Installed => (owned("检查更新"), ButtonStyle::Subtle, false),
        ToolState::UpdateAvailable => (owned("更新"), ButtonStyle::Primary, false),
        ToolState::Checking | ToolState::Updating | ToolState::Installing => (
            owned("请稍候..."),
            ButtonStyle::Subtle,
            true,
        ),
        ToolState::Error => (owned("重试"), ButtonStyle::Subtle, false),
    };
    let tone = match s {
        ToolState::NotInstalled => StatusTone::Danger,
        ToolState::Installed => StatusTone::Success,
        ToolState::UpdateAvailable => StatusTone::Warning,
        ToolState::Error => StatusTone::Danger,
        _ => StatusTone::Primary,
    };
    ToolRowView {
        badge_label: s.label(),
        badge_tone: tone,
        spinner: s.is_busy(),
        action_label: label,
        action_style: style,
        action_disabled: disabled,
        folder_button: s == ToolState::Installed || s == ToolState::UpdateAvailable,
    }
}


/// What the tool panel asks of the page that holds it, for a tool named.
#[derive(Debug, Clone)]
pub enum ToolPanelEvent {
    CheckUpdate(String),
    Install(String),
    Update(String),
    Reinstall(String),
    OpenFolder(String),
    RefreshAll,
}

} // verus!
