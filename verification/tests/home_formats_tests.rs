use gui_app::formats::{convert_formats, default_format_id, format_count_label, split_formats, FormatSource, VideoFormatInfo};
use gui_app::home::{
    audio_only_format, check_url, cover_download_args, format_duration, get_format_selection, page_download_options,
    parse_button, safe_file_title, thumbnail_path, DownloadOptionsData, FormatPick, FormatSelection, QualityOption,
};

fn src(id: &str, ext: &str, res: Option<&str>, fps: u32, v: Option<&str>, a: Option<&str>) -> FormatSource {
    FormatSource {
        format_id: id.to_string(),
        ext: ext.to_string(),
        resolution: res.map(|r| r.to_string()),
        fps_floor: fps,
        high_fps: fps > 30,
        fps_rounded: fps,
        vcodec: v.map(|c| c.to_string()),
        acodec: a.map(|c| c.to_string()),
        quality: None,
        filesize: Some(1000),
    }
}

fn sample() -> Vec<FormatSource> {
    vec![
        src("140", "m4a", None, 30, Some("none"), Some("mp4a")),
        src("136", "mp4", Some("1280x720"), 30, Some("avc1"), Some("none")),
        src("18", "mp4", Some("640x360"), 30, Some("avc1"), Some("mp4a")),
        src("299", "mp4", Some("1920x1080"), 60, Some("avc1"), Some("none")),
        src("398", "mp4", Some("1280x720"), 30, Some("av01"), Some("none")),
        src("251", "webm", None, 30, Some("none"), Some("opus")),
        src("249", "webm", None, 30, Some("none"), Some("opus")),
        src("sb0", "mhtml", None, 30, None, None),
    ]
}

#[test]
fn formats_best_first_without_duplicates() {
    let r = convert_formats(sample());
    let ids: Vec<&str> = r.iter().map(|f| f.format_id.as_str()).collect();
    assert_eq!(ids, vec!["299", "136", "18", "251", "140"]);
    let labels: Vec<&str> = r.iter().map(|f| f.label.as_str()).collect();
    assert_eq!(labels, vec!["1080p60", "720p", "360p", "音频", "音频"]);
    let kinds: Vec<(bool, bool)> = r.iter().map(|f| (f.has_video, f.has_audio)).collect();
    assert_eq!(kinds, vec![(true, false), (true, false), (true, true), (false, true), (false, true)]);
    assert_eq!(default_format_id(&r), Some("299".to_string()));
    assert_eq!(split_formats(&r), (vec![0, 1, 2], vec![3, 4]));
}

#[test]
fn at_most_three_audio_formats() {
    let mut s = Vec::new();
    for (i, ext) in ["m4a", "webm", "opus", "mp3", "aac"].iter().enumerate() {
        s.push(src(&format!("a{}", i), ext, None, 30, Some("none"), Some("x")));
    }
    let r = convert_formats(s);
    assert_eq!(r.len(), 3);
    assert!(r.iter().all(|f| !f.has_video && f.has_audio));
}

#[test]
fn no_recognised_format_gives_best_quality() {
    let r = convert_formats(vec![src("sb", "mhtml", None, 30, None, None)]);
    assert_eq!(r.len(), 1);
    assert_eq!(r[0].format_id, "bestvideo+bestaudio/best");
    assert_eq!(r[0].label, "最佳质量");
    assert_eq!(r[0].ext, "mp4");
    assert!(r[0].has_video && r[0].has_audio);
    assert_eq!(default_format_id(&Vec::new()), None);
}

#[test]
fn resolution_without_codecs_counts_as_combined() {
    let r = convert_formats(vec![src("x", "mp4", Some("854x480"), 30, None, None)]);
    assert_eq!(r[0].label, "480p");
    assert!(r[0].has_video && r[0].has_audio);
    let r = convert_formats(vec![src("y", "mp4", Some("audio only"), 30, Some("avc1"), Some("aac"))]);
    assert_eq!(r[0].label, "audio only");
}

#[test]
fn format_count() {
    assert_eq!(format_count_label(12), "📁 12 种格式");
}

fn info(id: &str, v: bool, a: bool) -> VideoFormatInfo {
    VideoFormatInfo { format_id: id.to_string(), label: id.to_string(), ext: "mp4".to_string(), filesize: None, has_video: v, has_audio: a }
}

#[test]
fn format_selection_rules() {
    let mixed = vec![info("18", true, true), info("136", true, false), info("140", false, true)];
    let sep = vec![info("136", true, false), info("140", false, true)];
    let v = |s: &str| Some(s.to_string());
    let text = |r: Option<FormatSelection>| r.map(|s| s.to_format_string());
    assert!(matches!(get_format_selection(Some(&mixed), &v("18"), &None), Some(FormatSelection::Combined(ref i)) if i == "18"));
    assert!(matches!(get_format_selection(Some(&mixed), &v("136"), &None), Some(FormatSelection::VideoOnly(_))));
    assert_eq!(text(get_format_selection(Some(&sep), &v("136"), &None)), Some("136+bestaudio".to_string()));
    assert_eq!(text(get_format_selection(Some(&mixed), &v("136"), &v("140"))), Some("136+140".to_string()));
    assert_eq!(text(get_format_selection(Some(&mixed), &v("18"), &v("140"))), Some("18".to_string()));
    assert!(get_format_selection(Some(&mixed), &v("999"), &None).is_none());
    assert!(matches!(get_format_selection(None, &None, &v("140")), Some(FormatSelection::AudioOnly(_))));
    assert!(get_format_selection(None, &None, &None).is_none());
    assert!(audio_only_format(&mixed, "140"));
    assert!(!audio_only_format(&mixed, "18"));
    assert!(!audio_only_format(&mixed, "nope"));
}

#[test]
fn picking_formats() {
    let fs = vec![info("18", true, true), info("136", true, false), info("140", false, true)];
    let mut p = FormatPick::new();
    p.select_audio_format("140".to_string());
    p.select_video_format(Some(&fs), "136".to_string());
    assert_eq!((p.video.as_deref(), p.audio.as_deref()), (Some("136"), Some("140")));
    p.select_video_format(Some(&fs), "18".to_string());
    assert_eq!((p.video.as_deref(), p.audio.as_deref()), (Some("18"), None));
    p.select_video_format(Some(&fs), "18".to_string());
    assert_eq!(p.video, None);
    p.select_audio_format("140".to_string());
    p.select_audio_format("140".to_string());
    assert_eq!(p.audio, None);
}

#[test]
fn quality_presets() {
    let labels: Vec<String> = QualityOption::all().iter().map(|q| q.label()).collect();
    assert_eq!(labels, vec!["最佳", "1080p", "720p", "480p", "仅音频"]);
    assert_eq!(QualityOption::P720.format_id(), "bestvideo[height<=720]+bestaudio/best[height<=720]");
    assert_eq!(QualityOption::AudioOnly.format_id(), "bestaudio/best");
    let o = page_download_options(true);
    assert!(o.embed_metadata && o.audio_only && !o.embed_thumbnail && !o.download_subtitles);
    assert_eq!(
        DownloadOptionsData::default(),
        DownloadOptionsData { embed_metadata: true, embed_thumbnail: false, download_subtitles: false, audio_only: false }
    );
}

#[test]
fn durations() {
    assert_eq!(format_duration(Some(59)), "0:59");
    assert_eq!(format_duration(Some(605)), "10:05");
    assert_eq!(format_duration(Some(3725)), "1:02:05");
    assert_eq!(format_duration(None), "未知");
}

#[test]
fn url_check_and_button() {
    assert_eq!(check_url("   "), Err("请输入视频链接".to_string()));
    assert_eq!(check_url(" https://x "), Ok(()));
    assert_eq!(parse_button(true, false), ("获取中...".to_string(), true));
    assert_eq!(parse_button(false, true), ("解析".to_string(), true));
    assert_eq!(parse_button(false, false), ("解析".to_string(), false));
}

#[test]
fn safe_titles_and_cover() {
    assert_eq!(safe_file_title("a/b:c d-e_f"), "a_b_c d-e_f");
    assert_eq!(safe_file_title("视频 1"), "视频 1");
    assert_eq!(thumbnail_path("/out", "My: Video"), "/out/My_ Video_thumbnail.jpg");
    assert_eq!(cover_download_args("/p.jpg", "https://c"), vec!["-L", "-o", "/p.jpg", "https://c"]);
}

#[test]
fn common_containers_come_first_among_equals() {
    let r = convert_formats(vec![
        src("k", "mkv", Some("1920x1080"), 30, Some("avc1"), Some("none")),
        src("w", "webm", Some("1920x1080"), 30, Some("vp9"), Some("none")),
        src("m", "mp4", Some("1920x1080"), 30, Some("avc1"), Some("none")),
        src("h", "mkv", Some("2560x1440"), 30, Some("avc1"), Some("none")),
    ]);
    let ids: Vec<&str> = r.iter().map(|f| f.format_id.as_str()).collect();
    assert_eq!(ids, vec!["h", "m", "w", "k"]);
}
