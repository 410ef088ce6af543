//! The detailed format selector: what kind of download, which resolution
//! and audio quality, which subtitles, and the yt-dlp selector they make.
use vstd::prelude::*;
use crate::download::strings_of;
use crate::text::owned;

verus! {

broadcast use vstd::string::group_string_axioms;

/// What a download keeps.
#[derive(Debug, Clone, Copy, PartialEq, Eq, Structural)]
pub enum FormatType {
    VideoAudio,
    VideoOnly,
    AudioOnly,
}

/// The resolution limit of a download.
#[derive(Debug, Clone, Copy, PartialEq, Eq, Structural)]
pub enum VideoResolution {
    UHD4K,
    QHD,
    FHD,
    HD,
    SD,
    Low,
    Best,
}

/// The audio bit-rate limit of a download.
#[derive(Debug, Clone, Copy, PartialEq, Eq, Structural)]
pub enum AudioQuality {
    Best,
    High,
    Medium,
    Low,
}

/// The audio container a download converts to.
#[derive(Debug, Clone, Copy, PartialEq, Eq, Structural)]
pub enum AudioFormat {
    Mp3,
    Aac,
    Flac,
    Wav,
    Opus,
    Original,
}

pub open spec fn format_type_label(t: FormatType) -> Seq<char> {
    match t {
        FormatType::VideoAudio => "视频+音频"@,
        FormatType::VideoOnly => "仅视频"@,
        FormatType::AudioOnly => "仅音频"@,
    }
}

pub open spec fn resolution_label(r: VideoResolution) -> Seq<char> {
    match r {
        VideoResolution::UHD4K => "4K (2160p)"@,
        VideoResolution::QHD => "2K (1440p)"@,
        VideoResolution::FHD => "1080p"@,
        VideoResolution::HD => "720p"@,
        VideoResolution::SD => "480p"@,
        VideoResolution::Low => "360p"@,
        VideoResolution::Best => "最佳质量"@,
    }
}

/// The yt-dlp video selector of a resolution limit.
pub open spec fn resolution_filter(r: VideoResolution) -> Seq<char> {
    match r {
        VideoResolution::UHD4K => "bestvideo[height<=2160]"@,
        VideoResolution::QHD => "bestvideo[height<=1440]"@,
        VideoResolution::FHD => "bestvideo[height<=1080]"@,
        VideoResolution::HD => "bestvideo[height<=720]"@,
        VideoResolution::SD => "bestvideo[height<=480]"@,
        VideoResolution::Low => "bestvideo[height<=360]"@,
        VideoResolution::Best => "bestvideo"@,
    }
}

pub open spec fn audio_quality_label(q: AudioQuality) -> Seq<char> {
    match q {
        AudioQuality::Best => "最佳"@,
        AudioQuality::High => "320 kbps"@,
        AudioQuality::Medium => "192 kbps"@,
        AudioQuality::Low => "128 kbps"@,
    }
}

/// The yt-dlp audio selector of a bit-rate limit.
pub open spec fn audio_quality_filter(q: AudioQuality) -> Seq<char> {
    match q {
        AudioQuality::Best => "bestaudio"@,
        AudioQuality::High => "bestaudio[abr<=320]"@,
        AudioQuality::Medium => "bestaudio[abr<=192]"@,
        AudioQuality::Low => "bestaudio[abr<=128]"@,
    }
}

pub open spec fn audio_format_label(f: AudioFormat) -> Seq<char> {
    match f {
        AudioFormat::Mp3 => "MP3"@,
        AudioFormat::Aac => "AAC"@,
        AudioFormat::Flac => "FLAC"@,
        AudioFormat::Wav => "WAV"@,
        AudioFormat::Opus => "Opus"@,
        AudioFormat::Original => "原始格式"@,
    }
}

/// The file extension of an audio container; none when the downloaded container is kept.
pub open spec fn audio_extension(f: AudioFormat) -> Option<Seq<char>> {
    match f {
        AudioFormat::Mp3 => Some("mp3"@),
        AudioFormat::Aac => Some("aac"@),
        AudioFormat::Flac => Some("flac"@),
        AudioFormat::Wav => Some("wav"@),
        AudioFormat::Opus => Some("opus"@),
        AudioFormat::Original => None,
    }
}

impl FormatType {
    pub fn label(&self) -> (r: String)
        ensures
            r@ == format_type_label(*self),
    {
        match self {
            FormatType::VideoAudio => owned("视频+音频"),
            FormatType::VideoOnly => owned("仅视频"),
            FormatType::AudioOnly => owned("仅音频"),
        }
    }

    pub fn all() -> (r: Vec<FormatType>)
        ensures
            r@ == seq![FormatType::VideoAudio, FormatType::VideoOnly, FormatType::AudioOnly],
    {
        vec![FormatType::VideoAudio, FormatType::VideoOnly, FormatType::AudioOnly]
    }
}

impl VideoResolution {
    pub fn label(&self) -> (r: String)
        ensures
            r@ == resolution_label(*self),
    {
        match self {
            VideoResolution::UHD4K => owned("4K (2160p)"),
            VideoResolution::QHD => owned("2K (1440p)"),
            VideoResolution::FHD => owned("1080p"),
            VideoResolution::HD => owned("720p"),
            VideoResolution::SD => owned("480p"),
            VideoResolution::Low => owned("360p"),
            VideoResolution::Best => owned("最佳质量"),
        }
    }

    pub fn format_filter(&self) -> (r: String)
        ensures
            r@ == resolution_filter(*self),
    {
        match self {
            VideoResolution::UHD4K => owned("bestvideo[height<=2160]"),
            VideoResolution::QHD => owned("bestvideo[height<=1440]"),
            VideoResolution::FHD => owned("bestvideo[height<=1080]"),
            VideoResolution::HD => owned("bestvideo[height<=720]"),
            VideoResolution::SD => owned("bestvideo[height<=480]"),
            VideoResolution::Low => owned("bestvideo[height<=360]"),
            VideoResolution::Best => owned("bestvideo"),
        }
    }

    /// The limits in the order offered: no limit first, then from the highest.
    pub fn all() -> (r: Vec<VideoResolution>)
        ensures
            r@ == seq![
                VideoResolution::Best,
                VideoResolution::UHD4K,
                VideoResolution::QHD,
                VideoResolution::FHD,
                VideoResolution::HD,
                VideoResolution::SD,
                VideoResolution::Low,
            ],
    {
        vec![
            VideoResolution::Best,
            VideoResolution::UHD4K,
            VideoResolution::QHD,
            VideoResolution::FHD,
            VideoResolution::HD,
            VideoResolution::SD,
            VideoResolution::Low,
        ]
    }
}

impl AudioQuality {
    pub fn label(&self) -> (r: String)
        ensures
            r@ == audio_quality_label(*self),
    {
        match self {
            AudioQuality::Best => owned("最佳"),
            AudioQuality::High => owned("320 kbps"),
            AudioQuality::Medium => owned("192 kbps"),
            AudioQuality::Low => owned("128 kbps"),
        }
    }

    pub fn format_filter(&self) -> (r: String)
        ensures
            r@ == audio_quality_filter(*self),
    {
        match self {
            AudioQuality::Best => owned("bestaudio"),
            AudioQuality::High => owned("bestaudio[abr<=320]"),
            AudioQuality::Medium => owned("bestaudio[abr<=192]"),
            AudioQuality::Low => owned("bestaudio[abr<=128]"),
        }
    }

    pub fn all() -> (r: Vec<AudioQuality>)
        ensures
            r@ == seq![AudioQuality::Best, AudioQuality::High, AudioQuality::Medium, AudioQuality::Low],
    {
        vec![AudioQuality::Best, AudioQuality::High, AudioQuality::Medium, AudioQuality::Low]
    }
}

impl AudioFormat {
    pub fn label(&self) -> (r: String)
        ensures
            r@ == audio_format_label(*self),
    {
        match self {
            AudioFormat::Mp3 => owned("MP3"),
            AudioFormat::Aac => owned("AAC"),
            AudioFormat::Flac => owned("FLAC"),
            AudioFormat::Wav => owned("WAV"),
            AudioFormat::Opus => owned("Opus"),
            AudioFormat::Original => owned("原始格式"),
        }
    }

    pub fn extension(&self) -> (r: Option<String>)
        ensures
            crate::text::opt_view(r) == audio_extension(*self),
    {
        match self {
            AudioFormat::Mp3 => Some(owned("mp3")),
            AudioFormat::Aac => Some(owned("aac")),
            AudioFormat::Flac => Some(owned("flac")),
            AudioFormat::Wav => Some(owned("wav")),
            AudioFormat::Opus => Some(owned("opus")),
            AudioFormat::Original => None,
        }
    }

    /// The containers in the order offered: keeping the downloaded one first.
    pub fn all() -> (r: Vec<AudioFormat>)
        ensures
            r@ == seq![
                AudioFormat::Original,
                AudioFormat::Mp3,
                AudioFormat::Aac,
                AudioFormat::Flac,
                AudioFormat::Wav,
                AudioFormat::Opus,
            ],
    {
        vec![
            AudioFormat::Original,
            AudioFormat::Mp3,
            AudioFormat::Aac,
            AudioFormat::Flac,
            AudioFormat::Wav,
            AudioFormat::Opus,
        ]
    }
}

/// Which subtitles a download fetches.
#[derive(Debug, Clone)]
pub struct SubtitleOptions {
    pub enabled: bool,
    pub languages: Vec<String>,
    pub embed: bool,
    pub auto_generated: bool,
}

impl Default for SubtitleOptions {
    /// Off, with Chinese and English chosen.
    fn default() -> (o: Self)
        ensures
            !o.enabled,
            strings_of(o.languages@) == seq!["zh"@, "en"@],
            !o.embed,
            !o.auto_generated,
    {
        let languages = vec![owned("zh"), owned("en")];
        assert(strings_of(languages@) =~= seq!["zh"@, "en"@]);
        SubtitleOptions { enabled: false, languages, embed: false, auto_generated: false }
    }
}

/// The choices of the format selector; `formats` are yt-dlp's formats.
pub struct FormatSelector<F> {
    pub formats: Vec<F>,
    pub format_type: FormatType,
    pub resolution: VideoResolution,
    pub audio_quality: AudioQuality,
    pub audio_format: AudioFormat,
    pub subtitle_options: SubtitleOptions,
    pub selected_format_id: Option<String>,
    pub show_all_formats: bool,
}

/// The yt-dlp selector of a choice: video and audio as `video+audio/best`,
/// or the video or audio selector alone.
pub open spec fn format_string(t: FormatType, r: VideoResolution, q: AudioQuality) -> Seq<char> {
    match t {
        FormatType::VideoAudio => resolution_filter(r) + seq!['+'] + audio_quality_filter(q) + "/best"@,
        FormatType::VideoOnly => resolution_filter(r),
        FormatType::AudioOnly => audio_quality_filter(q),
    }
}

/// How many formats the list shows: all when expanded, else the first five.
pub open spec fn shown_count(len: nat, show_all: bool) -> nat {
    if show_all || len <= 5 { len } else { 5 }
}

impl<F> FormatSelector<F> {
    /// Video and audio, no limits, the downloaded audio container kept, default
    /// subtitles, nothing selected, the list folded.
    pub fn new() -> (s: Self)
        ensures
            s.formats@.len() == 0,
            s.format_type == FormatType::VideoAudio,
            s.resolution == VideoResolution::Best,
            s.audio_quality == AudioQuality::Best,
            s.audio_format == AudioFormat::Original,
            !s.subtitle_options.enabled,
            strings_of(s.subtitle_options.languages@) == seq!["zh"@, "en"@],
            s.selected_format_id is None,
            !s.show_all_formats,
    {
        FormatSelector {
            formats: Vec::new(),
            format_type: FormatType::VideoAudio,
            resolution: VideoResolution::Best,
            audio_quality: AudioQuality::Best,
            audio_format: AudioFormat::Original,
            subtitle_options: SubtitleOptions::default(),
            selected_format_id: None,
            show_all_formats: false,
        }
    }

    pub fn set_formats(&mut self, formats: Vec<F>)
        ensures
            final(self).formats == formats,
            final(self).format_type == old(self).format_type,
            final(self).resolution == old(self).resolution,
            final(self).audio_quality == old(self).audio_quality,
            final(self).audio_format == old(self).audio_format,
            final(self).selected_format_id == old(self).selected_format_id,
            final(self).show_all_formats == old(self).show_all_formats,
    {
        self.formats = formats;
    }

    pub fn set_format_type(&mut self, format_type: FormatType)
        ensures
            final(self).format_type == format_type,
            final(self).resolution == old(self).resolution,
            final(self).audio_quality == old(self).audio_quality,
            final(self).audio_format == old(self).audio_format,
            final(self).selected_format_id == old(self).selected_format_id,
            final(self).show_all_formats == old(self).show_all_formats,
            final(self).formats == old(self).formats,
    {
        self.format_type = format_type;
    }

    pub fn toggle_show_all(&mut self)
        ensures
            final(self).show_all_formats == !old(self).show_all_formats,
            final(self).format_type == old(self).format_type,
            final(self).resolution == old(self).resolution,
            final(self).audio_quality == old(self).audio_quality,
            final(self).audio_format == old(self).audio_format,
            final(self).selected_format_id == old(self).selected_format_id,
            final(self).formats == old(self).formats,
    {
        self.show_all_formats = !self.show_all_formats;
    }

    pub fn select_format(&mut self, format_id: String)
        ensures
            final(self).selected_format_id == Some(format_id),
            final(self).format_type == old(self).format_type,
            final(self).resolution == old(self).resolution,
            final(self).audio_quality == old(self).audio_quality,
            final(self).audio_format == old(self).audio_format,
            final(self).show_all_formats == old(self).show_all_formats,
            final(self).formats == old(self).formats,
    {
        self.selected_format_id = Some(format_id);
    }

    /// The yt-dlp selector of the current choice (see `format_string`).
    pub fn build_format_string(&self) -> (r: String)
        ensures
            r@ == format_string(self.format_type, self.resolution, self.audio_quality),
    {
        match self.format_type {
            FormatType::VideoAudio => {
                let mut s = self.resolution.format_filter();
                let a = self.audio_quality.format_filter();
                crate::text::push_str(&mut s, "+");
                crate::text::push_str(&mut s, a.as_str());
                crate::text::push_str(&mut s, "/best");
                proof {
                    reveal_strlit("+");
                }
                s
            },
            FormatType::VideoOnly => self.resolution.format_filter(),
            FormatType::AudioOnly => self.audio_quality.format_filter(),
        }
    }

    /// The subtitle languages to fetch: the chosen ones when subtitles are
    /// on and some are chosen, none otherwise.
    pub fn get_subtitle_langs(&self) -> (r: Option<Vec<String>>)
        ensures
            (self.subtitle_options.enabled && self.subtitle_options.languages@.len() > 0) ==> (r matches Some(
                v,
            ) && strings_of(v@) == strings_of(self.subtitle_options.languages@)),
            !(self.subtitle_options.enabled && self.subtitle_options.languages@.len() > 0) ==> r is None,
    {
        if self.subtitle_options.enabled && !self.subtitle_options.languages.is_empty() {
            let mut v: Vec<String> = Vec::new();
            let mut k: usize = 0;
            while k < self.subtitle_options.languages.len()
                invariant
                    k <= self.subtitle_options.languages@.len(),
                    strings_of(v@) == strings_of(self.subtitle_options.languages@).take(k as int),
                decreases self.subtitle_options.languages@.len() - k,
            {
                let ghost before = strings_of(v@);
                let lang = self.subtitle_options.languages[k].clone();
                assert(lang@ == self.subtitle_options.languages@[k as int]@);
                v.push(lang);
                assert(strings_of(v@) =~= before.push(self.subtitle_options.languages@[k as int]@));
                assert(strings_of(v@) =~= strings_of(self.subtitle_options.languages@).take(k + 1));
                k = k + 1;
            }
            assert(strings_of(self.subtitle_options.languages@).take(k as int) =~= strings_of(
                self.subtitle_options.languages@,
            ));
            Some(v)
        } else {
            None
        }
    }

    /// How many formats the list shows (see `shown_count`).
    pub fn shown_format_count(&self) -> (n: usize)
        ensures
            n == shown_count(self.formats@.len(), self.show_all_formats),
    {
        if self.show_all_formats || self.formats.len() <= 5 {
            self.formats.len()
        } else {
            5
        }
    }
}

/// A codec name that stands for no codec: empty or `none`.
pub open spec fn no_codec(c: Seq<char>) -> bool {
    c.len() == 0 || c == "none"@
}

/// The kind badge of a listed format from its codec names (absent ones
/// empty): audio without video, video without audio, else both.
pub open spec fn kind_badge(vcodec: Seq<char>, acodec: Seq<char>) -> Seq<char> {
    if no_codec(vcodec) {
        "音频"@
    } else if no_codec(acodec) {
        "视频"@
    } else {
        "视频+音频"@
    }
}

pub fn format_kind_badge(vcodec: &str, acodec: &str) -> (r: String)
    ensures
        r@ == kind_badge(vcodec@, acodec@),
{
    if vcodec.is_empty() || crate::record::str_eq(vcodec, "none") {
        owned("音频")
    } else if acodec.is_empty() || crate::record::str_eq(acodec, "none") {
        owned("视频")
    } else {
        owned("视频+音频")
    }
}


/// What the format selector reports to the page that holds it.
#[derive(Debug, Clone)]
pub enum FormatSelectorEvent {
    FormatTypeChanged(FormatType),
    ResolutionChanged(VideoResolution),
    AudioQualityChanged(AudioQuality),
    AudioFormatChanged(AudioFormat),
    SubtitleOptionsChanged(SubtitleOptions),
    /// A listed format was picked, by id
    FormatSelected(String),
}

} // verus!
