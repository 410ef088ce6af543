use gui_app::channel::{
    channel_ready, check_channel_url, jobs_added_message, parse_requested, parse_returned, position_label,
    video_list_header, ChannelInfo, ChannelState, ChannelVideoEntry,
};
use gui_app::selector::{format_kind_badge, AudioFormat, AudioQuality, FormatSelector, FormatType, SubtitleOptions, VideoResolution};
use gui_app::settings::ButtonStyle;
use gui_app::tool_panel::{tool_row_view, ToolPanel, ToolState};
use gui_app::tools::{
    any_installing, any_not_installed, delete_failed_message, header_buttons_disabled, install_all_failed_message,
    install_failed_message, install_state_of, state_after_install_all, state_from_progress,
    state_on_install_all, tool_card_view, tool_command_name, tool_status, version_from_output, DownloadProgress,
    StatusTone, ToolInfo, ToolInstallState,
};
use gui_app::types::{ToolStatus, ToolType};

#[test]
fn tool_names_and_versions() {
    assert_eq!(tool_command_name(ToolType::YtDlp), "yt-dlp");
    assert_eq!(tool_command_name(ToolType::Ffmpeg), "ffmpeg");
    assert_eq!(version_from_output(ToolType::YtDlp, "2023.07.06\n"), Some("2023.07.06".to_string()));
    assert_eq!(version_from_output(ToolType::YtDlp, "yt-dlp 2024.01.01 extra\nx"), Some("2024.01.01".to_string()));
    assert_eq!(version_from_output(ToolType::YtDlp, ""), None);
    assert_eq!(
        version_from_output(ToolType::Ffmpeg, "ffmpeg version 6.0-static Copyright\nbuilt with gcc"),
        Some("6.0-static".to_string())
    );
    assert_eq!(version_from_output(ToolType::Ffmpeg, "nothing"), None);
}

#[test]
fn status_from_findings() {
    assert!(matches!(
        tool_status(true, Some("1".to_string()), Some(Some("2".to_string()))),
        ToolStatus::Installed { version: Some(ref v), is_system: false } if v == "1"
    ));
    assert!(matches!(
        tool_status(false, None, Some(Some("2".to_string()))),
        ToolStatus::Installed { version: Some(ref v), is_system: true } if v == "2"
    ));
    assert!(matches!(tool_status(false, None, None), ToolStatus::NotInstalled));
}

#[test]
fn install_states() {
    assert!(matches!(install_state_of(&ToolStatus::NotInstalled), ToolInstallState::NotInstalled));
    assert!(matches!(state_after_install_all(&ToolStatus::NotInstalled, true), ToolInstallState::Failed(ref m) if m == "安装失败"));
    assert!(matches!(state_after_install_all(&ToolStatus::NotInstalled, false), ToolInstallState::NotInstalled));
    assert!(matches!(state_from_progress(1, 2, u64::MAX), ToolInstallState::Installing));
    assert!(matches!(
        state_from_progress(1, 2, 3),
        ToolInstallState::Downloading(DownloadProgress { downloaded: 1, total: 2, speed: 3 })
    ));
    assert!(matches!(state_on_install_all(&ToolInstallState::Failed("x".to_string())), ToolInstallState::Installing));
    assert!(matches!(state_on_install_all(&ToolInstallState::Unknown), ToolInstallState::Unknown));
    let mut tools = vec![ToolInfo::yt_dlp(), ToolInfo::ffmpeg()];
    assert_eq!(tools[0].name, "yt-dlp");
    assert_eq!(tools[1].icon, "🎞️");
    assert!(!any_not_installed(&tools) && !any_installing(&tools));
    tools[1].state = ToolInstallState::NotInstalled;
    assert!(any_not_installed(&tools));
    tools[0].state = ToolInstallState::Installing;
    assert!(any_installing(&tools));
}

#[test]
fn tool_cards() {
    let v = tool_card_view(&ToolInstallState::Installed { version: Some("6.0".to_string()), is_system: true });
    assert_eq!(v.status_text.as_deref(), Some("v6.0 (系统)"));
    assert_eq!(v.tone, StatusTone::Success);
    assert!(!v.can_delete && !v.busy);
    assert_eq!((v.button_label.as_str(), v.button_disabled), ("检查更新", false));
    let v = tool_card_view(&ToolInstallState::Installed { version: None, is_system: false });
    assert_eq!(v.status_text.as_deref(), Some("已安装"));
    assert!(v.can_delete);
    let v = tool_card_view(&ToolInstallState::Downloading(DownloadProgress { downloaded: 1, total: 2, speed: 3 }));
    assert_eq!(v.status_text, None);
    assert!(v.busy && v.button_disabled);
    let v = tool_card_view(&ToolInstallState::NotInstalled);
    assert_eq!((v.status_text.as_deref(), v.tone, v.button_label.as_str()), (Some("未安装"), StatusTone::Danger, "安装"));
    let v = tool_card_view(&ToolInstallState::Unknown);
    assert_eq!((v.button_label.as_str(), v.button_disabled), ("...", true));
}

#[test]
fn tool_panel_versions() {
    let mut p = ToolPanel::new();
    assert_eq!(p.tools.len(), 2);
    assert_eq!(p.tools[0].status, ToolState::Checking);
    p.set_tool_version("yt-dlp", Some("1".to_string()), Some("2".to_string()));
    assert_eq!(p.tools[0].status, ToolState::UpdateAvailable);
    p.set_tool_version("yt-dlp", Some("2".to_string()), Some("2".to_string()));
    assert_eq!(p.tools[0].status, ToolState::Installed);
    p.set_tool_version("FFmpeg", None, Some("7".to_string()));
    assert_eq!(p.tools[1].status, ToolState::NotInstalled);
    p.set_tool_state("FFmpeg", ToolState::Installing);
    assert!(p.tools[1].status.is_busy());
    p.set_tool_state("nope", ToolState::Error);
    assert_eq!(p.tools.len(), 2);
    assert_eq!(ToolState::UpdateAvailable.label(), "有更新");
}

#[test]
fn tool_rows() {
    let v = tool_row_view(ToolState::UpdateAvailable);
    assert_eq!((v.badge_label.as_str(), v.badge_tone), ("有更新", StatusTone::Warning));
    assert_eq!((v.action_label.as_str(), v.action_style, v.action_disabled), ("更新", ButtonStyle::Primary, false));
    assert!(v.folder_button && !v.spinner);
    let v = tool_row_view(ToolState::Updating);
    assert!(v.spinner && v.action_disabled);
    assert_eq!(v.action_label, "请稍候...");
}

#[test]
fn selector_strings() {
    let mut s: FormatSelector<u32> = FormatSelector::new();
    assert_eq!(s.build_format_string(), "bestvideo+bestaudio/best");
    s.resolution = VideoResolution::FHD;
    s.audio_quality = AudioQuality::Medium;
    assert_eq!(s.build_format_string(), "bestvideo[height<=1080]+bestaudio[abr<=192]/best");
    s.set_format_type(FormatType::VideoOnly);
    assert_eq!(s.build_format_string(), "bestvideo[height<=1080]");
    s.set_format_type(FormatType::AudioOnly);
    assert_eq!(s.build_format_string(), "bestaudio[abr<=192]");
    assert_eq!(s.get_subtitle_langs(), None);
    s.subtitle_options.enabled = true;
    assert_eq!(s.get_subtitle_langs(), Some(vec!["zh".to_string(), "en".to_string()]));
    s.set_formats((0..8).collect());
    assert_eq!(s.shown_format_count(), 5);
    s.toggle_show_all();
    assert_eq!(s.shown_format_count(), 8);
    s.select_format("22".to_string());
    assert_eq!(s.selected_format_id.as_deref(), Some("22"));
    let d = SubtitleOptions::default();
    assert!(!d.enabled && !d.embed && !d.auto_generated);
}

#[test]
fn selector_labels() {
    assert_eq!(FormatType::all().len(), 3);
    assert_eq!(VideoResolution::UHD4K.label(), "4K (2160p)");
    assert_eq!(VideoResolution::Low.format_filter(), "bestvideo[height<=360]");
    assert_eq!(AudioQuality::High.label(), "320 kbps");
    assert_eq!(AudioFormat::Flac.extension(), Some("flac".to_string()));
    assert_eq!(AudioFormat::Original.extension(), None);
    assert_eq!(AudioFormat::Original.label(), "原始格式");
    assert_eq!(format_kind_badge("none", "mp4a"), "音频");
    assert_eq!(format_kind_badge("avc1", ""), "视频");
    assert_eq!(format_kind_badge("avc1", "mp4a"), "视频+音频");
}

fn entry(n: u32) -> ChannelVideoEntry {
    ChannelVideoEntry { url: format!("u{}", n), title: format!("t{}", n), duration: None, thumbnail: None, selected: false }
}

#[test]
fn channel_choice_and_jobs() {
    let info = ChannelInfo { title: "C".to_string(), entries: vec![entry(1), entry(2), entry(3)] };
    let mut c = channel_ready(info);
    assert_eq!(c.selected_count(), 3);
    c.toggle_video(1);
    c.toggle_video(9);
    assert_eq!(c.selected_count(), 2);
    let jobs = c.download_jobs().unwrap();
    let pairs: Vec<(&str, &str)> = jobs.iter().map(|j| (j.url.as_str(), j.title.as_str())).collect();
    assert_eq!(pairs, vec![("u1", "t1"), ("u3", "t3")]);
    c.choose_all(false);
    assert_eq!(c.download_jobs().err(), Some("请至少选择一个视频".to_string()));
}

#[test]
fn channel_texts() {
    assert_eq!(check_channel_url(" "), Err("请输入频道链接".to_string()));
    assert_eq!(check_channel_url("https://c"), Ok(()));
    let h = video_list_header(2, 5);
    assert_eq!(h.summary, "共 5 个视频，已选择 2");
    assert_eq!(h.select_all_label, "全选");
    assert_eq!(h.download_label, "下载选中 (2)");
    assert!(!h.all_selected && !h.download_disabled);
    let h = video_list_header(3, 3);
    assert!(h.all_selected);
    assert_eq!(h.select_all_label, "取消全选");
    let h = video_list_header(0, 0);
    assert!(!h.all_selected && h.download_disabled);
    assert_eq!(jobs_added_message(4), "已添加 4 个下载任务");
    assert_eq!(position_label(0), "#1");
}

#[test]
fn tools_header_and_messages() {
    let mut tools = vec![ToolInfo::yt_dlp(), ToolInfo::ffmpeg()];
    assert_eq!(header_buttons_disabled(&tools, false), (false, true));
    tools[0].state = ToolInstallState::NotInstalled;
    assert_eq!(header_buttons_disabled(&tools, false), (false, false));
    assert_eq!(header_buttons_disabled(&tools, true), (true, true));
    tools[1].state = ToolInstallState::Installing;
    assert_eq!(header_buttons_disabled(&tools, false), (false, true));
    assert_eq!(install_failed_message("FFmpeg", "net"), "安装 FFmpeg 失败: net");
    assert_eq!(delete_failed_message("busy"), "删除失败: busy");
    assert_eq!(install_all_failed_message("x"), "安装工具失败: x");
}

#[test]
fn channel_page_states() {
    assert!(matches!(ChannelState::default(), ChannelState::Idle));
    match parse_requested("   ") {
        ChannelState::Error(m) => assert_eq!(m, "请输入频道链接"),
        _ => panic!("a blank address is refused"),
    }
    assert!(matches!(parse_requested("https://c"), ChannelState::Parsing));
    let info = ChannelInfo { title: "C".to_string(), entries: vec![entry(1), entry(2)] };
    match parse_returned(Ok(info)) {
        ChannelState::Ready(c) => {
            assert_eq!(c.title, "C");
            assert_eq!(c.selected_count(), 2);
        }
        _ => panic!("a channel read is ready"),
    }
    match parse_returned(Err("boom".to_string())) {
        ChannelState::Error(m) => assert_eq!(m, "boom"),
        _ => panic!("an error is shown"),
    }
}
