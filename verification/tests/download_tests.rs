use gui_app::download::{
    download_args, effective_format_id, output_path_in_line, DownloadMonitor, ProgressSizes,
};
use gui_app::types::DownloadVideoOptions;

#[test]
fn numeric_format_gets_best_audio() {
    assert_eq!(effective_format_id("137"), "137+bestaudio/best");
    assert_eq!(effective_format_id(""), "+bestaudio/best");
}

#[test]
fn combined_and_best_selectors_are_kept() {
    assert_eq!(effective_format_id("137+140"), "137+140");
    assert_eq!(effective_format_id("bestvideo+bestaudio/best"), "bestvideo+bestaudio/best");
    assert_eq!(effective_format_id("best"), "best");
}

#[test]
fn other_format_ids_get_best_audio() {
    assert_eq!(effective_format_id("hls-720p"), "hls-720p+bestaudio/best");
}

#[test]
fn format_request_twice_is_once() {
    for id in ["137", "", "137+140", "best", "dash-1"] {
        let once = effective_format_id(id);
        assert_eq!(effective_format_id(&once), once);
    }
}

#[test]
fn download_args_plain() {
    let o = DownloadVideoOptions::default();
    let args = download_args("https://x.test/v", "22", "/tmp/out", &o, None);
    assert_eq!(
        args,
        vec![
            "https://x.test/v",
            "--format",
            "22+bestaudio/best",
            "--output",
            "/tmp/out/%(title)s_%(height)sp.%(ext)s",
            "--newline",
            "--progress",
            "--no-mtime",
        ]
    );
}

#[test]
fn download_args_with_every_option() {
    let o = DownloadVideoOptions {
        embed_metadata: true,
        embed_thumbnail: true,
        download_subtitles: true,
        audio_only: true,
    };
    let args = download_args("u", "best", "d", &o, Some("/usr/bin/ffmpeg"));
    assert_eq!(
        args,
        vec![
            "u",
            "--format",
            "best",
            "--output",
            "d/%(title)s_%(height)sp.%(ext)s",
            "--newline",
            "--progress",
            "--no-mtime",
            "--embed-metadata",
            "--embed-thumbnail",
            "--extract-audio",
            "--audio-format",
            "mp3",
            "--write-subs",
            "--write-auto-subs",
            "--ffmpeg-location",
            "/usr/bin/ffmpeg",
        ]
    );
}

#[test]
fn output_path_forms() {
    assert_eq!(
        output_path_in_line("[download] Destination: /tmp/a b.mp4 "),
        Some("/tmp/a b.mp4".to_string())
    );
    assert_eq!(
        output_path_in_line("[Merger] Merging formats into \"/tmp/v.mkv\""),
        Some("/tmp/v.mkv".to_string())
    );
    assert_eq!(
        output_path_in_line("[download] /tmp/done.mp4 has already been downloaded"),
        Some("/tmp/done.mp4".to_string())
    );
    assert_eq!(output_path_in_line("[download]  10.0% of 1.00MiB"), None);
    assert_eq!(output_path_in_line("Merging formats into nothing"), None);
}

#[test]
fn monitor_follows_progress_and_output() {
    let mut m = DownloadMonitor::new();
    let r = m.on_output_line("[download]  10.0% of ~2.00MiB at 1.00KiB/s ETA 00:10");
    assert_eq!(r, Some(ProgressSizes { total: 2 * 1_048_576, speed: 1024 }));
    let r = m.on_output_line("[download]  20.0% of Unknown at 2KiB/s");
    assert_eq!(r, Some(ProgressSizes { total: 2 * 1_048_576, speed: 2048 }));
    assert_eq!(m.on_output_line("[download] Destination: /o/x.mp4"), None);
    assert_eq!(m.output_file, Some("/o/x.mp4".to_string()));
    assert_eq!(m.lines.len(), 3);
    assert_eq!(m.last_total, 2 * 1_048_576);
    assert!(m.unresolved_candidates().is_empty());
}

#[test]
fn monitor_candidates_without_output_line() {
    let mut m = DownloadMonitor::new();
    m.on_output_line("[info] something");
    m.on_output_line("  /tmp/maybe.mp4  ");
    m.on_output_line("50% done.");
    m.on_output_line("plain");
    assert_eq!(m.unresolved_candidates(), vec!["/tmp/maybe.mp4".to_string()]);
}

#[test]
fn failure_message_with_error_lines() {
    let mut m = DownloadMonitor::new();
    m.on_output_line("[info] a");
    m.on_output_line("ERROR: broken");
    m.on_output_line("Warning: slow");
    assert_eq!(
        m.failure_message(Some(1)),
        "下载失败，退出码: Some(1)\n错误信息:\nERROR: broken\nWarning: slow"
    );
}

#[test]
fn failure_message_with_last_lines() {
    let mut m = DownloadMonitor::new();
    for i in 0..7 {
        m.on_output_line(&format!("line {}", i));
    }
    assert_eq!(
        m.failure_message(None),
        "下载失败，退出码: None\n最后输出:\nline 2\nline 3\nline 4\nline 5\nline 6"
    );
    assert_eq!(m.failure_message(Some(-2)).lines().next(), Some("下载失败，退出码: Some(-2)"));
}

#[test]
fn missing_output_message_counts_lines() {
    let mut m = DownloadMonitor::new();
    m.on_output_line("a");
    m.on_output_line("b");
    assert_eq!(
        m.missing_output_message("\"/out\""),
        "无法确定输出文件路径\n输出目录: \"/out\"\nyt-dlp 输出共 2 行"
    );
}

#[test]
fn progress_line_sizes_saturate() {
    let mut m = DownloadMonitor::new();
    let r = m.on_output_line("[download]  1.0% of infGiB at 1.5KiB/s");
    assert_eq!(r, Some(ProgressSizes { total: u64::MAX, speed: 1536 }));
}
