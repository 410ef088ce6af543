//! The download page: the quality presets, the choice of video and audio
//! formats, what a finished download leaves the task in, and the texts shown.
use vstd::prelude::*;
use crate::download::contains_lit;
use crate::formats::VideoFormatInfo;
use crate::paths::{path_join, std_path_join};
use crate::text::{chars_of, contains, decimal, owned, push_chars, push_str, trim, trim_chars, u64_to_decimal};
use crate::types::DownloadVideoOptions;

verus! {

broadcast use vstd::string::group_string_axioms;

/// The quality presets of the quick download.
#[derive(Debug, Clone, Copy, PartialEq, Eq, Structural)]
pub enum QualityOption {
    Best,
    P1080,
    P720,
    P480,
    AudioOnly,
}

pub open spec fn quality_label(q: QualityOption) -> Seq<char> {
    match q {
        QualityOption::Best => "最佳"@,
        QualityOption::P1080 => "1080p"@,
        QualityOption::P720 => "720p"@,
        QualityOption::P480 => "480p"@,
        QualityOption::AudioOnly => "仅音频"@,
    }
}

/// The yt-dlp format selector of a preset.
pub open spec fn quality_selector(q: QualityOption) -> Seq<char> {
    match q {
        QualityOption::Best => "bestvideo+bestaudio/best"@,
        QualityOption::P1080 => "bestvideo[height<=1080]+bestaudio/best[height<=1080]"@,
        QualityOption::P720 => "bestvideo[height<=720]+bestaudio/best[height<=720]"@,
        QualityOption::P480 => "bestvideo[height<=480]+bestaudio/best[height<=480]"@,
        QualityOption::AudioOnly => "bestaudio/best"@,
    }
}

impl QualityOption {
    pub fn label(&self) -> (r: String)
        ensures
            r@ == quality_label(*self),
    {
        match self {
            QualityOption::Best => owned("最佳"),
            QualityOption::P1080 => owned("1080p"),
            QualityOption::P720 => owned("720p"),
            QualityOption::P480 => owned("480p"),
            QualityOption::AudioOnly => owned("仅音频"),
        }
    }

    /// Every preset, best first.
    pub fn all() -> (r: Vec<QualityOption>)
        ensures
            r@ == seq![
                QualityOption::Best,
                QualityOption::P1080,
                QualityOption::P720,
                QualityOption::P480,
                QualityOption::AudioOnly,
            ],
    {
        let r = vec![
            QualityOption::Best,
            QualityOption::P1080,
            QualityOption::P720,
            QualityOption::P480,
            QualityOption::AudioOnly,
        ];
        r
    }

    /// The yt-dlp format selector of the preset (see `quality_selector`).
    pub fn format_id(&self) -> (r: String)
        ensures
            r@ == quality_selector(*self),
    {
        match self {
            QualityOption::Best => owned("bestvideo+bestaudio/best"),
            QualityOption::P1080 => owned("bestvideo[height<=1080]+bestaudio/best[height<=1080]"),
            QualityOption::P720 => owned("bestvideo[height<=720]+bestaudio/best[height<=720]"),
            QualityOption::P480 => owned("bestvideo[height<=480]+bestaudio/best[height<=480]"),
            QualityOption::AudioOnly => owned("bestaudio/best"),
        }
    }
}

/// The options of a download started from the page: metadata embedded,
/// audio extracted when only audio is wanted, nothing else.
pub fn page_download_options(audio_only: bool) -> (o: DownloadVideoOptions)
    ensures
        o.embed_metadata,
        !o.embed_thumbnail,
        !o.download_subtitles,
        o.audio_only == audio_only,
{
    DownloadVideoOptions {
        embed_metadata: true,
        embed_thumbnail: false,
        download_subtitles: false,
        audio_only,
    }
}

/// The first offered format with id `id`.
pub open spec fn find_format(fs: Seq<VideoFormatInfo>, id: Seq<char>) -> Option<VideoFormatInfo>
    decreases fs.len(),
{
    if fs.len() == 0 {
        None
    } else if fs[0].format_id@ == id {
        Some(fs[0])
    } else {
        find_format(fs.drop_first(), id)
    }
}

fn find_format_exec(fs: &Vec<VideoFormatInfo>, id: &str) -> (r: Option<usize>)
    ensures
        match r {
            Some(i) => i < fs@.len() && find_format(fs@, id@) == Some(fs@[i as int]),
            None => find_format(fs@, id@) is None,
        },
{
    let mut i: usize = 0;
    assert(fs@.skip(0) =~= fs@);
    while i < fs.len()
        invariant
            i <= fs@.len(),
            find_format(fs@, id@) == find_format(fs@.skip(i as int), id@),
        decreases fs@.len() - i,
    {
        let ghost rest = fs@.skip(i as int);
        assert(rest[0] == fs@[i as int]);
        if crate::record::str_eq(fs[i].format_id.as_str(), id) {
            return Some(i);
        }
        assert(rest.drop_first() =~= fs@.skip(i + 1));
        i = i + 1;
    }
    None
}

/// The format with id `id` is offered and is audio alone (a download of it
/// extracts audio).
pub open spec fn is_audio_format(fs: Seq<VideoFormatInfo>, id: Seq<char>) -> bool {
    find_format(fs, id) matches Some(f) && !f.has_video && f.has_audio
}

pub fn audio_only_format(fs: &Vec<VideoFormatInfo>, id: &str) -> (b: bool)
    ensures
        b == is_audio_format(fs@, id@),
{
    match find_format_exec(fs, id) {
        Some(i) => !fs[i].has_video && fs[i].has_audio,
        None => false,
    }
}

/// What the user picked, as a yt-dlp selection.
#[derive(Debug, Clone)]
pub enum FormatSelection {
    /// A format with video and audio
    Combined(String),
    /// A video format and an audio format, merged
    VideoAndAudio { video_id: String, audio_id: String },
    VideoOnly(String),
    AudioOnly(String),
}

impl FormatSelection {
    /// The yt-dlp format selector of the selection: the id, or the two ids joined by `+`.
    pub fn to_format_string(&self) -> (r: String)
        ensures
            r@ == selection_text(*self),
    {
        match self {
            FormatSelection::Combined(id) => id.clone(),
            FormatSelection::VideoAndAudio { video_id, audio_id } => {
                let mut s = video_id.clone();
                push_str(&mut s, "+");
                push_str(&mut s, audio_id.as_str());
                proof {
                    reveal_strlit("+");
                }
                s
            },
            FormatSelection::VideoOnly(id) => id.clone(),
            FormatSelection::AudioOnly(id) => id.clone(),
        }
    }
}

pub open spec fn selection_text(s: FormatSelection) -> Seq<char> {
    match s {
        FormatSelection::Combined(id) => id@,
        FormatSelection::VideoAndAudio { video_id, audio_id } => video_id@ + seq!['+'] + audio_id@,
        FormatSelection::VideoOnly(id) => id@,
        FormatSelection::AudioOnly(id) => id@,
    }
}

/// A selection as plain values.
pub enum SelectionView {
    Combined(Seq<char>),
    VideoAndAudio(Seq<char>, Seq<char>),
    VideoOnly(Seq<char>),
    AudioOnly(Seq<char>),
}

pub open spec fn selection_view(s: FormatSelection) -> SelectionView {
    match s {
        FormatSelection::Combined(id) => SelectionView::Combined(id@),
        FormatSelection::VideoAndAudio { video_id, audio_id } => SelectionView::VideoAndAudio(
            video_id@,
            audio_id@,
        ),
        FormatSelection::VideoOnly(id) => SelectionView::VideoOnly(id@),
        FormatSelection::AudioOnly(id) => SelectionView::AudioOnly(id@),
    }
}

/// The site offers video and audio only apart (as Bilibili does): no
/// format has both, some have video alone and some audio alone.
pub open spec fn separated_source(fs: Seq<VideoFormatInfo>) -> bool {
    &&& !(exists|i: int| 0 <= i < fs.len() && #[trigger] fs[i].has_video && fs[i].has_audio)
    &&& exists|i: int| 0 <= i < fs.len() && #[trigger] fs[i].has_video && !fs[i].has_audio
    &&& exists|i: int| 0 <= i < fs.len() && !#[trigger] fs[i].has_video && fs[i].has_audio
}

/// The selection for the picked video and audio ids, given the offered
/// formats when a video has been read (`None` otherwise): a picked video
/// that has audio is taken alone; a video and an audio are merged; a video
/// alone gets the best audio merged in on a site that offers them apart;
/// a picked video that is not offered selects nothing.
pub open spec fn selection_for(
    formats: Option<Seq<VideoFormatInfo>>,
    video: Option<Seq<char>>,
    audio: Option<Seq<char>>,
) -> Option<SelectionView> {
    match (video, audio) {
        (Some(v), Some(a)) => match formats {
            Some(fs) => if find_format(fs, v) matches Some(f) && f.has_audio {
                Some(SelectionView::Combined(v))
            } else {
                Some(SelectionView::VideoAndAudio(v, a))
            },
            None => Some(SelectionView::VideoAndAudio(v, a)),
        },
        (Some(v), None) => match formats {
            Some(fs) => match find_format(fs, v) {
                None => None,
                Some(f) => if f.has_audio {
                    Some(SelectionView::Combined(v))
                } else if separated_source(fs) {
                    Some(SelectionView::VideoAndAudio(v, "bestaudio"@))
                } else {
                    Some(SelectionView::VideoOnly(v))
                },
            },
            None => Some(SelectionView::VideoOnly(v)),
        },
        (None, Some(a)) => Some(SelectionView::AudioOnly(a)),
        (None, None) => None,
    }
}

fn separated_source_exec(fs: &Vec<VideoFormatInfo>) -> (b: bool)
    ensures
        b == separated_source(fs@),
{
    let mut combined = false;
    let mut video = false;
    let mut audio = false;
    let mut i: usize = 0;
    while i < fs.len()
        invariant
            i <= fs@.len(),
            combined == exists|k: int| 0 <= k < i && #[trigger] fs@[k].has_video && fs@[k].has_audio,
            video == exists|k: int| 0 <= k < i && #[trigger] fs@[k].has_video && !fs@[k].has_audio,
            audio == exists|k: int| 0 <= k < i && !#[trigger] fs@[k].has_video && fs@[k].has_audio,
        decreases fs@.len() - i,
    {
        let v = fs[i].has_video;
        let a = fs[i].has_audio;
        if v && a {
            combined = true;
        }
        if v && !a {
            video = true;
        }
        if !v && a {
            audio = true;
        }
        i = i + 1;
    }
    !combined && video && audio
}

/// The selection for the picked ids (see `selection_for`).
pub fn get_format_selection(
    formats: Option<&Vec<VideoFormatInfo>>,
    selected_video: &Option<String>,
    selected_audio: &Option<String>,
) -> (r: Option<FormatSelection>)
    ensures
        match r {
            Some(s) => selection_for(
                match formats { Some(fs) => Some(fs@), None => None },
                crate::text::opt_view(*selected_video),
                crate::text::opt_view(*selected_audio),
            ) == Some(selection_view(s)),
            None => selection_for(
                match formats { Some(fs) => Some(fs@), None => None },
                crate::text::opt_view(*selected_video),
                crate::text::opt_view(*selected_audio),
            ) is None,
        },
{
    match (selected_video, selected_audio) {
        (Some(vid), Some(aid)) => {
            match formats {
                Some(fs) => match find_format_exec(fs, vid.as_str()) {
                    Some(i) => if fs[i].has_audio {
                        return Some(FormatSelection::Combined(vid.clone()));
                    },
                    None => {},
                },
                None => {},
            }
            Some(FormatSelection::VideoAndAudio { video_id: vid.clone(), audio_id: aid.clone() })
        },
        (Some(vid), None) => {
            match formats {
                Some(fs) => {
                    match find_format_exec(fs, vid.as_str()) {
                        None => {
                            return None;
                        },
                        Some(i) => {
                            if fs[i].has_audio {
                                return Some(FormatSelection::Combined(vid.clone()));
                            }
                            if separated_source_exec(fs) {
                                return Some(
                                    FormatSelection::VideoAndAudio {
                                        video_id: vid.clone(),
                                        audio_id: owned("bestaudio"),
                                    },
                                );
                            }
                        },
                    }
                },
                None => {},
            }
            Some(FormatSelection::VideoOnly(vid.clone()))
        },
        (None, Some(aid)) => Some(FormatSelection::AudioOnly(aid.clone())),
        (None, None) => None,
    }
}

/// The picked formats of the page.
pub struct FormatPick {
    pub video: Option<String>,
    pub audio: Option<String>,
}

impl FormatPick {
    /// Nothing picked.
    pub fn new() -> (p: Self)
        ensures
            p.video is None,
            p.audio is None,
    {
        FormatPick { video: None, audio: None }
    }

    /// Picks the video format `id`, or unpicks it when it is the one picked;
    /// picking a format that has audio unpicks the audio format.
    pub fn select_video_format(&mut self, formats: Option<&Vec<VideoFormatInfo>>, id: String)
        ensures
            crate::text::opt_view(old(self).video) == Some(id@) ==> final(self).video is None
                && final(self).audio == old(self).audio,
            crate::text::opt_view(old(self).video) != Some(id@) ==> {
                &&& crate::text::opt_view(final(self).video) == Some(id@)
                &&& final(self).audio == (if (formats matches Some(fs) && find_format(fs@, id@) matches Some(f)
                    && f.has_audio) {
                    None
                } else {
                    old(self).audio
                })
            },
    {
        let same = match &self.video {
            Some(v) => *v == id,
            None => false,
        };
        if same {
            self.video = None;
        } else {
            match formats {
                Some(fs) => match find_format_exec(fs, id.as_str()) {
                    Some(i) => if fs[i].has_audio {
                        self.audio = None;
                    },
                    None => {},
                },
                None => {},
            }
            self.video = Some(id);
        }
    }

    /// Picks the audio format `id`, or unpicks it when it is the one picked.
    pub fn select_audio_format(&mut self, id: String)
        ensures
            final(self).video == old(self).video,
            crate::text::opt_view(old(self).audio) == Some(id@) ==> final(self).audio is None,
            crate::text::opt_view(old(self).audio) != Some(id@) ==> crate::text::opt_view(final(self).audio)
                == Some(id@),
    {
        let same = match &self.audio {
            Some(a) => *a == id,
            None => false,
        };
        if same {
            self.audio = None;
        } else {
            self.audio = Some(id);
        }
    }
}

/// How a download ended, for its task.
#[derive(Debug, Clone)]
pub enum DownloadOutcome {
    Completed,
    Paused,
    Cancelled,
    Failed(String),
}

/// The state a task takes when its download returns: completed on
/// success; paused or cancelled where the error says so (`下载已暂停`,
/// `下载已取消`); otherwise failed with the error.
pub fn download_outcome(error: Option<String>) -> (r: DownloadOutcome)
    ensures
        error is None ==> r is Completed,
        error matches Some(e) ==> if contains(e@, "下载已暂停"@) {
            r is Paused
        } else if contains(e@, "下载已取消"@) {
            r is Cancelled
        } else {
            r == DownloadOutcome::Failed(e)
        },
{
    match error {
        None => DownloadOutcome::Completed,
        Some(e) => {
            let v = chars_of(e.as_str());
            if contains_lit(&v, "下载已暂停") {
                DownloadOutcome::Paused
            } else if contains_lit(&v, "下载已取消") {
                DownloadOutcome::Cancelled
            } else {
                DownloadOutcome::Failed(e)
            }
        },
    }
}

/// A number below 100 with two digits.
pub open spec fn two_digits(n: nat) -> Seq<char> {
    if n < 10 {
        seq!['0'] + decimal(n)
    } else {
        decimal(n)
    }
}

/// A duration as `h:mm:ss`, or `m:ss` under an hour; `未知` when unknown.
pub open spec fn duration_text(secs: Option<u64>) -> Seq<char> {
    match secs {
        Some(t) => {
            let h = t as nat / 3600;
            let m = (t as nat % 3600) / 60;
            let s = t as nat % 60;
            if h > 0 {
                decimal(h) + seq![':'] + two_digits(m) + seq![':'] + two_digits(s)
            } else {
                decimal(m) + seq![':'] + two_digits(s)
            }
        },
        None => "未知"@,
    }
}

fn push_two_digits(s: &mut String, n: u64)
    requires
        n < 100,
    ensures
        final(s)@ == old(s)@ + two_digits(n as nat),
{
    if n < 10 {
        s.push('0');
    }
    let d = u64_to_decimal(n);
    push_chars(s, &d);
}

/// A duration in seconds as the page shows it (see `duration_text`).
pub fn format_duration(secs: Option<u64>) -> (r: String)
    ensures
        r@ == duration_text(secs),
{
    match secs {
        Some(t) => {
            let h = t / 3600;
            let m = (t % 3600) / 60;
            let s = t % 60;
            let mut r = String::new();
            if h > 0 {
                let d = u64_to_decimal(h);
                push_chars(&mut r, &d);
                r.push(':');
                push_two_digits(&mut r, m);
                r.push(':');
                push_two_digits(&mut r, s);
            } else {
                let d = u64_to_decimal(m);
                push_chars(&mut r, &d);
                r.push(':');
                push_two_digits(&mut r, s);
            }
            assert(r@ =~= duration_text(secs));
            r
        },
        None => owned("未知"),
    }
}

/// The address typed in, if it is not blank; the message shown otherwise.
pub fn check_url(url: &str) -> (r: Result<(), String>)
    ensures
        trim(url@).len() == 0 ==> (r matches Err(m) && m@ == "请输入视频链接"@),
        trim(url@).len() > 0 ==> r is Ok,
{
    let t = trim_chars(&chars_of(url));
    if t.len() == 0 {
        Err(owned("请输入视频链接"))
    } else {
        Ok(())
    }
}

/// What `char::is_alphanumeric` answers for `c`.
pub uninterp spec fn std_char_is_alphanumeric(c: char) -> bool;

/// `char::is_alphanumeric`: the character is alphabetic or numeric in
/// Unicode's sense. The contract names the answer, and states what the
/// documentation gives for the ASCII letters and digits: they are.
#[verifier::external_body]
fn char_is_alphanumeric(c: char) -> (b: bool)
    ensures
        b == std_char_is_alphanumeric(c),
        ('a' <= c <= 'z' || 'A' <= c <= 'Z' || '0' <= c <= '9') ==> b,
{
    c.is_alphanumeric()
}

/// A character kept in a file name: letters, digits, space, `-` and `_`
/// stay; anything else becomes `_`.
pub open spec fn file_name_char(c: char) -> char {
    if std_char_is_alphanumeric(c) || c == ' ' || c == '-' || c == '_' {
        c
    } else {
        '_'
    }
}

/// A video title made safe for a file name (see `file_name_char`).
pub fn safe_file_title(title: &str) -> (r: String)
    ensures
        r@ == title@.map_values(|c: char| file_name_char(c)),
{
    let v = chars_of(title);
    let mut r = String::new();
    let mut i: usize = 0;
    while i < v.len()
        invariant
            i <= v@.len(),
            v@ == title@,
            r@ == v@.take(i as int).map_values(|c: char| file_name_char(c)),
        decreases v@.len() - i,
    {
        let c = v[i];
        let k = if char_is_alphanumeric(c) || c == ' ' || c == '-' || c == '_' { c } else { '_' };
        let ghost before = r@;
        r.push(k);
        assert(v@.take(i + 1).map_values(|c: char| file_name_char(c)) =~= before.push(k));
        i = i + 1;
    }
    assert(v@.take(v@.len() as int) =~= v@);
    r
}

/// Where the cover of a video is saved: `{title}_thumbnail.jpg`, the title
/// made safe, in the output directory.
pub fn thumbnail_path(output_dir: &str, title: &str) -> (r: String)
    ensures
        r@ == std_path_join(output_dir@, title@.map_values(|c: char| file_name_char(c)) + "_thumbnail.jpg"@),
{
    let mut name = safe_file_title(title);
    push_str(&mut name, "_thumbnail.jpg");
    path_join(output_dir, name.as_str())
}

/// The arguments of the `curl` command that saves a cover: follow
/// redirects, write to `path`.
pub fn cover_download_args(path: &str, url: &str) -> (r: Vec<String>)
    ensures
        crate::download::strings_of(r@) == seq!["-L"@, "-o"@, path@, url@],
{
    let r = vec![owned("-L"), owned("-o"), owned(path), owned(url)];
    assert(crate::download::strings_of(r@) =~= seq!["-L"@, "-o"@, path@, url@]);
    r
}

/// The options of the download options card.
#[derive(Debug, Clone, Copy, PartialEq, Eq, Structural)]
pub struct DownloadOptionsData {
    pub embed_metadata: bool,
    pub embed_thumbnail: bool,
    pub download_subtitles: bool,
    pub audio_only: bool,
}

impl Default for DownloadOptionsData {
    /// Metadata embedded, nothing else.
    fn default() -> (d: Self)
        ensures
            d.embed_metadata,
            !d.embed_thumbnail,
            !d.download_subtitles,
            !d.audio_only,
    {
        DownloadOptionsData {
            embed_metadata: true,
            embed_thumbnail: false,
            download_subtitles: false,
            audio_only: false,
        }
    }
}

/// The parse button of the address card: its label, and whether it is
/// disabled (while reading, or with no address).
pub fn parse_button(is_loading: bool, is_empty: bool) -> (r: (String, bool))
    ensures
        r.0@ == (if is_loading { "获取中..."@ } else { "解析"@ }),
        r.1 == (is_loading || is_empty),
{
    let label = if is_loading { owned("获取中...") } else { owned("解析") };
    (label, is_loading || is_empty)
}

} // verus!
