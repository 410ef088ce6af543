//! Live-stream recording: the recording settings, the rooms being watched,
//! and how a room is shown.
use vstd::prelude::*;
use crate::download::contains_lit;
use crate::num::{parse_u32, parse_u64, parse_unsigned};
use crate::paths::{path_join, std_path_join};
use crate::text::{chars_of, contains, owned, push_str, string_of, trim, trim_chars};

pub mod board;

verus! {

broadcast use vstd::string::group_string_axioms;

/// Whether a room is live, as the recorder reports it.
#[derive(Debug, Clone, Copy, PartialEq, Eq, Structural)]
pub enum LiveStatus {
    Live,
    Offline,
    Playback,
    Unknown,
}

/// The state of a watched room, as the recording page shows it.
#[derive(Debug, Clone)]
pub enum LiveRoomStatus {
    Unknown,
    Live,
    Offline,
    Playback,
    Recording,
    Checking,
    Error(String),
}

/// The room status for what the recorder reports.
pub open spec fn room_status_of(s: LiveStatus) -> LiveRoomStatus {
    match s {
        LiveStatus::Live => LiveRoomStatus::Live,
        LiveStatus::Offline => LiveRoomStatus::Offline,
        LiveStatus::Playback => LiveRoomStatus::Playback,
        LiveStatus::Unknown => LiveRoomStatus::Unknown,
    }
}

pub fn room_status_from(s: LiveStatus) -> (r: LiveRoomStatus)
    ensures
        r == room_status_of(s),
{
    match s {
        LiveStatus::Live => LiveRoomStatus::Live,
        LiveStatus::Offline => LiveRoomStatus::Offline,
        LiveStatus::Playback => LiveRoomStatus::Playback,
        LiveStatus::Unknown => LiveRoomStatus::Unknown,
    }
}

/// Whether a room of the room list is live.
#[derive(Debug, Clone, Copy, PartialEq, Eq, Structural)]
pub enum RoomListStatus {
    Live,
    Offline,
    Playback,
}

/// The label of a status in the room list.
pub open spec fn list_status_label(s: RoomListStatus) -> Seq<char> {
    match s {
        RoomListStatus::Live => "🔴 直播中"@,
        RoomListStatus::Offline => "⚫ 未开播"@,
        RoomListStatus::Playback => "🟡 轮播中"@,
    }
}

/// The label of a status in the room list (see `list_status_label`).
pub fn status_to_string(s: RoomListStatus) -> (r: String)
    ensures
        r@ == list_status_label(s),
{
    match s {
        RoomListStatus::Live => owned("🔴 直播中"),
        RoomListStatus::Offline => owned("⚫ 未开播"),
        RoomListStatus::Playback => owned("🟡 轮播中"),
    }
}

/// The colours a badge is drawn in.
#[derive(Debug, Clone, Copy, PartialEq, Eq, Structural)]
pub enum BadgeColor {
    Green,
    Gray,
    Yellow,
    Black,
    Pink,
    Orange,
    Blue,
}

/// The colour, icon and text of a live-status badge.
pub open spec fn live_badge(s: RoomListStatus) -> (BadgeColor, Seq<char>, Seq<char>) {
    match s {
        RoomListStatus::Live => (BadgeColor::Green, "🔴"@, "直播中"@),
        RoomListStatus::Offline => (BadgeColor::Gray, "⚫"@, "未开播"@),
        RoomListStatus::Playback => (BadgeColor::Yellow, "🟡"@, "轮播中"@),
    }
}

pub fn live_status_badge(s: RoomListStatus) -> (r: (BadgeColor, String, String))
    ensures
        r.0 == live_badge(s).0,
        r.1@ == live_badge(s).1,
        r.2@ == live_badge(s).2,
{
    match s {
        RoomListStatus::Live => (BadgeColor::Green, owned("🔴"), owned("直播中")),
        RoomListStatus::Offline => (BadgeColor::Gray, owned("⚫"), owned("未开播")),
        RoomListStatus::Playback => (BadgeColor::Yellow, owned("🟡"), owned("轮播中")),
    }
}

/// The colour and icon of a platform badge.
pub open spec fn platform_badge(p: Seq<char>) -> (BadgeColor, Seq<char>) {
    if p == "抖音"@ {
        (BadgeColor::Black, "🎵"@)
    } else if p == "B站"@ {
        (BadgeColor::Pink, "📺"@)
    } else if p == "斗鱼"@ {
        (BadgeColor::Orange, "🐟"@)
    } else if p == "虎牙"@ {
        (BadgeColor::Blue, "🐅"@)
    } else {
        (BadgeColor::Gray, "🎮"@)
    }
}

pub fn platform_status_badge(p: &str) -> (r: (BadgeColor, String))
    ensures
        r.0 == platform_badge(p@).0,
        r.1@ == platform_badge(p@).1,
{
    if str_eq(p, "抖音") {
        (BadgeColor::Black, owned("🎵"))
    } else if str_eq(p, "B站") {
        (BadgeColor::Pink, owned("📺"))
    } else if str_eq(p, "斗鱼") {
        (BadgeColor::Orange, owned("🐟"))
    } else if str_eq(p, "虎牙") {
        (BadgeColor::Blue, owned("🐅"))
    } else {
        (BadgeColor::Gray, owned("🎮"))
    }
}

/// The arguments of the ffmpeg command that copies a recording into an
/// MP4 file beside it: `-i input -c copy -y output`.
pub fn transcode_args(input: &str) -> (r: Vec<String>)
    ensures
        crate::download::strings_of(r@) == seq![
            "-i"@,
            input@,
            "-c"@,
            "copy"@,
            "-y"@,
            crate::paths::std_path_with_extension(input@, "mp4"@),
        ],
{
    proof {
        reveal_strlit("mp4");
        assert(!"mp4"@.contains('/')) by {
            if "mp4"@.contains('/') {
                let i = choose|i: int| 0 <= i < "mp4"@.len() && "mp4"@[i] == '/';
                assert(i == 0 || i == 1 || i == 2);
            }
        }
        assert(!"mp4"@.contains('\\')) by {
            if "mp4"@.contains('\\') {
                let i = choose|i: int| 0 <= i < "mp4"@.len() && "mp4"@[i] == '\\';
                assert(i == 0 || i == 1 || i == 2);
            }
        }
    }
    let out = crate::paths::path_with_extension(input, "mp4");
    let r = vec![owned("-i"), owned(input), owned("-c"), owned("copy"), owned("-y"), out];
    assert(crate::download::strings_of(r@) =~= seq![
        "-i"@,
        input@,
        "-c"@,
        "copy"@,
        "-y"@,
        crate::paths::std_path_with_extension(input@, "mp4"@),
    ]);
    r
}

/// The video quality a recording asks for.
#[derive(Debug, Clone, Copy, PartialEq, Eq, Structural)]
pub enum LiveRecordQuality {
    Original,
    Blue,
    Ultra,
    High,
    Standard,
}

/// How rooms are recorded.
#[derive(Debug, Clone)]
pub struct LiveRecordConfig {
    /// Container of the recording: ts, mkv, flv or mp4
    pub record_format: String,
    pub quality: LiveRecordQuality,
    /// Convert to MP4 once a recording stops
    pub auto_transcode: bool,
    /// Seconds between two checks of the rooms
    pub check_interval: u64,
    /// Seconds per segment, if recordings are split
    pub segment_duration: Option<u64>,
    pub retry_count: u32,
    /// Seconds before reconnecting
    pub reconnect_delay: u64,
    /// Directory of the recordings, below the download directory
    pub output_base_path: String,
}

/// The containers offered in the settings, in their order there.
pub open spec fn record_formats() -> Seq<Seq<char>> {
    seq!["ts"@, "mkv"@, "flv"@, "mp4"@]
}

/// The qualities offered in the settings, in their order there.
pub open spec fn record_qualities() -> Seq<LiveRecordQuality> {
    seq![
        LiveRecordQuality::Original,
        LiveRecordQuality::Blue,
        LiveRecordQuality::Ultra,
        LiveRecordQuality::High,
        LiveRecordQuality::Standard,
    ]
}

/// The position of `f` among the offered containers, or the first one.
pub open spec fn format_index_of(f: Seq<char>) -> nat {
    if f == "ts"@ {
        0
    } else if f == "mkv"@ {
        1
    } else if f == "flv"@ {
        2
    } else if f == "mp4"@ {
        3
    } else {
        0
    }
}

pub open spec fn quality_index_of(q: LiveRecordQuality) -> nat {
    match q {
        LiveRecordQuality::Original => 0,
        LiveRecordQuality::Blue => 1,
        LiveRecordQuality::Ultra => 2,
        LiveRecordQuality::High => 3,
        LiveRecordQuality::Standard => 4,
    }
}

/// The selections the settings dialog opens with: the position of the
/// configured container (the first one where it is not offered) and of the
/// configured quality.
pub fn settings_selection(config: &LiveRecordConfig) -> (r: (usize, usize))
    ensures
        r.0 == format_index_of(config.record_format@),
        r.1 == quality_index_of(config.quality),
        r.0 < 4,
        r.1 < 5,
{
    let f = config.record_format.as_str();
    proof {
        reveal_strlit("ts");
        reveal_strlit("mkv");
        reveal_strlit("flv");
        reveal_strlit("mp4");
    }
    let fi: usize = if str_eq(f, "ts") {
        0
    } else if str_eq(f, "mkv") {
        1
    } else if str_eq(f, "flv") {
        2
    } else if str_eq(f, "mp4") {
        3
    } else {
        0
    };
    let qi: usize = match config.quality {
        LiveRecordQuality::Original => 0,
        LiveRecordQuality::Blue => 1,
        LiveRecordQuality::Ultra => 2,
        LiveRecordQuality::High => 3,
        LiveRecordQuality::Standard => 4,
    };
    (fi, qi)
}

/// Whether two texts are equal.
pub fn str_eq(a: &str, b: &str) -> (r: bool)
    ensures
        r == (a@ == b@),
{
    let va = chars_of(a);
    let vb = chars_of(b);
    crate::text::eq_chars(&va, &vb)
}

/// What the settings dialog holds when it is saved.
pub struct RecordSettingsForm {
    pub format_index: usize,
    pub quality_index: usize,
    pub auto_transcode: bool,
    pub check_interval: String,
    pub segment_duration: String,
    pub retry_count: String,
    pub reconnect_delay: String,
    pub output_path: String,
}

pub open spec fn max_nat(a: nat, b: nat) -> nat {
    if a >= b { a } else { b }
}

/// A number field: its parsed value, or `default` when it does not parse,
/// and at least `least`.
pub open spec fn number_field(text: Seq<char>, max: nat, default: nat, least: nat) -> nat {
    max_nat(
        match parse_unsigned(trim(text), max) {
            Some(v) => v,
            None => default,
        },
        least,
    )
}

/// The container at a position of the offered list.
pub open spec fn format_at(i: nat) -> Seq<char> {
    record_formats()[i as int]
}

/// The directory a saved form names.
pub open spec fn saved_path(f: RecordSettingsForm) -> Seq<char> {
    if trim(f.output_path@).len() == 0 {
        "recordings"@
    } else {
        trim(f.output_path@)
    }
}

fn parse_trimmed_u64(text: &str) -> (r: Option<u64>)
    ensures
        match r {
            Some(x) => parse_unsigned(trim(text@), u64::MAX as nat) == Some(x as nat),
            None => parse_unsigned(trim(text@), u64::MAX as nat) is None,
        },
{
    let t = string_of(&trim_chars(&chars_of(text)));
    parse_u64(t.as_str())
}

/// The configuration saved from the settings dialog: the selected container
/// and quality; the check interval (60 where it does not parse, at least
/// 10); the segment length where it parses; the retry count (3 where it does
/// not parse, at least 1); the reconnect delay (30, at least 5); the trimmed
/// directory, or `recordings` where it is empty.
pub fn apply_settings_form(form: &RecordSettingsForm) -> (c: LiveRecordConfig)
    requires
        form.format_index < 4,
        form.quality_index < 5,
    ensures
        c.record_format@ == format_at(form.format_index as nat),
        c.output_base_path@ == saved_path(*form),
        c.quality == record_qualities()[form.quality_index as int],
        c.auto_transcode == form.auto_transcode,
        c.check_interval == number_field(form.check_interval@, u64::MAX as nat, 60, 10),
        c.segment_duration == match parse_unsigned(trim(form.segment_duration@), u64::MAX as nat) {
            Some(v) => Some(v as u64),
            None => None,
        },
        c.retry_count == number_field(form.retry_count@, u32::MAX as nat, 3, 1),
        c.reconnect_delay == number_field(form.reconnect_delay@, u64::MAX as nat, 30, 5),
{
    let format = if form.format_index == 0 {
        owned("ts")
    } else if form.format_index == 1 {
        owned("mkv")
    } else if form.format_index == 2 {
        owned("flv")
    } else {
        owned("mp4")
    };
    let quality = if form.quality_index == 0 {
        LiveRecordQuality::Original
    } else if form.quality_index == 1 {
        LiveRecordQuality::Blue
    } else if form.quality_index == 2 {
        LiveRecordQuality::Ultra
    } else if form.quality_index == 3 {
        LiveRecordQuality::High
    } else {
        LiveRecordQuality::Standard
    };
    let interval = match parse_trimmed_u64(form.check_interval.as_str()) {
        Some(v) => v,
        None => 60,
    };
    let interval = if interval >= 10 { interval } else { 10 };
    let segment = parse_trimmed_u64(form.segment_duration.as_str());
    let retry_text = string_of(&trim_chars(&chars_of(form.retry_count.as_str())));
    let retry = match parse_u32(retry_text.as_str()) {
        Some(v) => v,
        None => 3,
    };
    let retry = if retry >= 1 { retry } else { 1 };
    let reconnect = match parse_trimmed_u64(form.reconnect_delay.as_str()) {
        Some(v) => v,
        None => 30,
    };
    let reconnect = if reconnect >= 5 { reconnect } else { 5 };
    let path_chars = trim_chars(&chars_of(form.output_path.as_str()));
    let path = if path_chars.len() == 0 {
        owned("recordings")
    } else {
        string_of(&path_chars)
    };
    LiveRecordConfig {
        record_format: format,
        quality,
        auto_transcode: form.auto_transcode,
        check_interval: interval,
        segment_duration: segment,
        retry_count: retry,
        reconnect_delay: reconnect,
        output_base_path: path,
    }
}

/// The platform a room address belongs to, from the names it holds.
pub open spec fn platform_of_url(url: Seq<char>) -> Seq<char> {
    if contains(url, "douyin"@) || contains(url, "live.douyin"@) {
        "抖音直播"@
    } else if contains(url, "bilibili"@) || contains(url, "live.bilibili"@) {
        "B站直播"@
    } else if contains(url, "huya"@) {
        "虎牙直播"@
    } else if contains(url, "douyu"@) {
        "斗鱼直播"@
    } else if contains(url, "kuaishou"@) || contains(url, "live.kuaishou"@) {
        "快手直播"@
    } else if contains(url, "soop"@) || contains(url, "afreeca"@) {
        "SOOP"@
    } else {
        "未知平台"@
    }
}

/// The platform of a room address (see `platform_of_url`).
pub fn infer_platform(url: &str) -> (r: String)
    ensures
        r@ == platform_of_url(url@),
{
    let v = chars_of(url);
    if contains_lit(&v, "douyin") || contains_lit(&v, "live.douyin") {
        owned("抖音直播")
    } else if contains_lit(&v, "bilibili") || contains_lit(&v, "live.bilibili") {
        owned("B站直播")
    } else if contains_lit(&v, "huya") {
        owned("虎牙直播")
    } else if contains_lit(&v, "douyu") {
        owned("斗鱼直播")
    } else if contains_lit(&v, "kuaishou") || contains_lit(&v, "live.kuaishou") {
        owned("快手直播")
    } else if contains_lit(&v, "soop") || contains_lit(&v, "afreeca") {
        owned("SOOP")
    } else {
        owned("未知平台")
    }
}

/// The errors of the recorder that the page explains.
#[derive(Debug, Clone)]
pub enum RecorderErrorKind {
    UnsupportedPlatform(String),
    RoomNotFound(String),
    HttpError(String),
    JsonError(String),
    InvalidResponseFormat(String),
    AuthenticationRequired(String),
    AuthenticationFailed(String),
    NetworkTimeout,
    /// Any other error, with the text the recorder gives it
    Other(String),
}

/// The message shown for a recorder error.
pub open spec fn error_message(e: RecorderErrorKind) -> Seq<char> {
    match e {
        RecorderErrorKind::UnsupportedPlatform(u) => "不支持的平台: "@ + u@
            + "\n支持的平台: 抖音、B站、虎牙、斗鱼、快手、SOOP"@,
        RecorderErrorKind::RoomNotFound(r) => "直播间不存在: "@ + r@,
        RecorderErrorKind::HttpError(m) => "网络错误: "@ + m@,
        RecorderErrorKind::JsonError(m) => "解析错误: "@ + m@,
        RecorderErrorKind::InvalidResponseFormat(m) => "响应格式错误: "@ + m@,
        RecorderErrorKind::AuthenticationRequired(m) => "需要登录: "@ + m@ + "\n请在设置中配置 Cookie"@,
        RecorderErrorKind::AuthenticationFailed(m) => "认证失败: "@ + m@,
        RecorderErrorKind::NetworkTimeout => "网络超时"@,
        RecorderErrorKind::Other(m) => m@,
    }
}

fn prefixed(p: &str, m: &String) -> (r: String)
    ensures
        r@ == p@ + m@,
{
    let mut s = owned(p);
    push_str(&mut s, m.as_str());
    s
}

/// The message shown for a recorder error (see `error_message`).
pub fn format_error(e: &RecorderErrorKind) -> (r: String)
    ensures
        r@ == error_message(*e),
{
    match e {
        RecorderErrorKind::UnsupportedPlatform(u) => {
            let mut s = prefixed("不支持的平台: ", u);
            push_str(&mut s, "\n支持的平台: 抖音、B站、虎牙、斗鱼、快手、SOOP");
            s
        },
        RecorderErrorKind::RoomNotFound(r) => prefixed("直播间不存在: ", r),
        RecorderErrorKind::HttpError(m) => prefixed("网络错误: ", m),
        RecorderErrorKind::JsonError(m) => prefixed("解析错误: ", m),
        RecorderErrorKind::InvalidResponseFormat(m) => prefixed("响应格式错误: ", m),
        RecorderErrorKind::AuthenticationRequired(m) => {
            let mut s = prefixed("需要登录: ", m);
            push_str(&mut s, "\n请在设置中配置 Cookie");
            s
        },
        RecorderErrorKind::AuthenticationFailed(m) => prefixed("认证失败: ", m),
        RecorderErrorKind::NetworkTimeout => owned("网络超时"),
        RecorderErrorKind::Other(m) => m.clone(),
    }
}

/// The file a recording writes, a transport stream:
/// `{download}/record/{platform}/{anchor}/{anchor}_{time}.ts`.
pub open spec fn recording_path(
    download: Seq<char>,
    platform: Seq<char>,
    anchor: Seq<char>,
    time: Seq<char>,
) -> Seq<char> {
    std_path_join(
        std_path_join(std_path_join(std_path_join(download, "record"@), platform), anchor),
        anchor + "_"@ + time + ".ts"@,
    )
}

/// The file a recording of the room writes (see `recording_path`); `time`
/// is the start time as `%Y-%m-%d_%H-%M-%S_%3f` shows it.
pub fn generate_output_path(
    download: &str,
    platform: &str,
    anchor: &str,
    time: &str,
) -> (r: String)
    ensures
        r@ == recording_path(download@, platform@, anchor@, time@),
{
    let base = path_join(download, "record");
    let p = path_join(base.as_str(), platform);
    let a = path_join(p.as_str(), anchor);
    let mut name = owned(anchor);
    push_str(&mut name, "_");
    push_str(&mut name, time);
    push_str(&mut name, ".ts");
    proof {
        reveal_strlit("_");
        reveal_strlit(".ts");
    }
    assert(name@ =~= anchor@ + "_"@ + time@ + ".ts"@);
    path_join(a.as_str(), name.as_str())
}

/// The colour of a room's status dot, as `0xRRGGBB`.
pub open spec fn status_rgb(s: LiveRoomStatus) -> u32 {
    match s {
        LiveRoomStatus::Live => 0x22c55e,
        LiveRoomStatus::Recording => 0xef4444,
        LiveRoomStatus::Playback => 0xeab308,
        LiveRoomStatus::Checking => 0x3b82f6,
        LiveRoomStatus::Error(_) => 0xef4444,
        _ => 0x6b7280,
    }
}

/// The colour of a platform's label, as `0xRRGGBB`.
pub open spec fn platform_rgb(p: Seq<char>) -> u32 {
    if p == "douyin"@ {
        0x000000
    } else if p == "bilibili"@ {
        0xfb7299
    } else if p == "huya"@ {
        0xff9600
    } else if p == "douyu"@ {
        0xff5d23
    } else if p == "kuaishou"@ {
        0xff4906
    } else if p == "soop"@ {
        0x5b6edc
    } else {
        0x6366f1
    }
}

/// The name a platform is shown under.
pub open spec fn platform_label(p: Seq<char>) -> Seq<char> {
    if p == "douyin"@ {
        "抖音"@
    } else if p == "bilibili"@ {
        "B站"@
    } else if p == "huya"@ {
        "虎牙"@
    } else if p == "douyu"@ {
        "斗鱼"@
    } else if p == "kuaishou"@ {
        "快手"@
    } else if p == "soop"@ {
        "SOOP"@
    } else {
        p
    }
}

/// What the card of a room shows.
pub struct RoomCardView {
    pub status_rgb: u32,
    pub platform_rgb: u32,
    pub platform_label: String,
    /// The `LIVE` badge on the cover
    pub live_badge: bool,
    /// The `REC` badge on the cover
    pub rec_badge: bool,
    /// The "paused" badge beside the name
    pub paused_badge: bool,
    pub start_button: bool,
    pub stop_button: bool,
    /// Label of the button that pauses or resumes watching
    pub monitor_label: String,
}

pub open spec fn is_live_status(s: LiveRoomStatus) -> bool {
    s is Live
}

/// What the card of a room shows for its status, recording state,
/// watching state and platform.
pub fn room_card_view(
    status: &LiveRoomStatus,
    is_recording: bool,
    is_monitoring: bool,
    platform: &str,
) -> (v: RoomCardView)
    ensures
        v.status_rgb == status_rgb(*status),
        v.platform_rgb == platform_rgb(platform@),
        v.platform_label@ == platform_label(platform@),
        v.live_badge == is_live_status(*status),
        v.rec_badge == is_recording,
        v.paused_badge == !is_monitoring,
        v.start_button == (is_live_status(*status) && !is_recording),
        v.stop_button == is_recording,
        v.monitor_label@ == (if is_monitoring { "暂停"@ } else { "监控"@ }),
{
    let status_color: u32 = match status {
        LiveRoomStatus::Live => 0x22c55e,
        LiveRoomStatus::Recording => 0xef4444,
        LiveRoomStatus::Playback => 0xeab308,
        LiveRoomStatus::Checking => 0x3b82f6,
        LiveRoomStatus::Error(_) => 0xef4444,
        _ => 0x6b7280,
    };
    let (color, label): (u32, String) = if str_eq(platform, "douyin") {
        (0x000000, owned("抖音"))
    } else if str_eq(platform, "bilibili") {
        (0xfb7299, owned("B站"))
    } else if str_eq(platform, "huya") {
        (0xff9600, owned("虎牙"))
    } else if str_eq(platform, "douyu") {
        (0xff5d23, owned("斗鱼"))
    } else if str_eq(platform, "kuaishou") {
        (0xff4906, owned("快手"))
    } else if str_eq(platform, "soop") {
        (0x5b6edc, owned("SOOP"))
    } else {
        (0x6366f1, owned(platform))
    };
    let is_live = match status {
        LiveRoomStatus::Live => true,
        _ => false,
    };
    RoomCardView {
        status_rgb: status_color,
        platform_rgb: color,
        platform_label: label,
        live_badge: is_live,
        rec_badge: is_recording,
        paused_badge: !is_monitoring,
        start_button: is_live && !is_recording,
        stop_button: is_recording,
        monitor_label: if is_monitoring { owned("暂停") } else { owned("监控") },
    }
}

} // verus!
