use gui_app::record::board::{
    AddRoomError, CheckOutcome, MonitoredRoom, RecordingBoard, RemoveRefusal, RoomInfo, StartRefusal,
};
use gui_app::record::{
    apply_settings_form, format_error, generate_output_path, infer_platform, live_status_badge,
    platform_status_badge, room_card_view, room_status_from, settings_selection, status_to_string,
    transcode_args, BadgeColor, LiveRecordConfig, LiveRecordQuality, LiveRoomStatus, LiveStatus,
    RecordSettingsForm, RecorderErrorKind, RoomListStatus,
};

#[test]
fn platforms_from_addresses() {
    assert_eq!(infer_platform("https://live.douyin.com/123"), "抖音直播");
    assert_eq!(infer_platform("https://live.bilibili.com/9"), "B站直播");
    assert_eq!(infer_platform("https://www.huya.com/x"), "虎牙直播");
    assert_eq!(infer_platform("https://www.douyu.com/x"), "斗鱼直播");
    assert_eq!(infer_platform("https://live.kuaishou.com/u/x"), "快手直播");
    assert_eq!(infer_platform("https://play.afreecatv.com/x"), "SOOP");
    assert_eq!(infer_platform("https://example.com"), "未知平台");
}

#[test]
fn badges_and_labels() {
    assert_eq!(status_to_string(RoomListStatus::Live), "🔴 直播中");
    assert_eq!(status_to_string(RoomListStatus::Playback), "🟡 轮播中");
    let (c, i, t) = live_status_badge(RoomListStatus::Offline);
    assert_eq!((c, i.as_str(), t.as_str()), (BadgeColor::Gray, "⚫", "未开播"));
    assert_eq!(platform_status_badge("B站"), (BadgeColor::Pink, "📺".to_string()));
    assert_eq!(platform_status_badge("其它"), (BadgeColor::Gray, "🎮".to_string()));
    assert!(matches!(room_status_from(LiveStatus::Playback), LiveRoomStatus::Playback));
}

#[test]
fn transcode_command() {
    assert_eq!(
        transcode_args("/r/a/show.flv"),
        vec!["-i", "/r/a/show.flv", "-c", "copy", "-y", "/r/a/show.mp4"]
    );
}

fn config(format: &str, quality: LiveRecordQuality) -> LiveRecordConfig {
    LiveRecordConfig {
        record_format: format.to_string(),
        quality,
        auto_transcode: false,
        check_interval: 60,
        segment_duration: None,
        retry_count: 3,
        reconnect_delay: 30,
        output_base_path: "recordings".to_string(),
    }
}

#[test]
fn settings_dialog_selection() {
    assert_eq!(settings_selection(&config("flv", LiveRecordQuality::High)), (2, 3));
    assert_eq!(settings_selection(&config("avi", LiveRecordQuality::Original)), (0, 0));
    assert_eq!(settings_selection(&config("mp4", LiveRecordQuality::Standard)), (3, 4));
}

#[test]
fn settings_form_defaults_and_bounds() {
    let form = RecordSettingsForm {
        format_index: 1,
        quality_index: 2,
        auto_transcode: true,
        check_interval: " 5 ".to_string(),
        segment_duration: "600".to_string(),
        retry_count: "x".to_string(),
        reconnect_delay: "".to_string(),
        output_path: "   ".to_string(),
    };
    let c = apply_settings_form(&form);
    assert_eq!(c.record_format, "mkv");
    assert_eq!(c.quality, LiveRecordQuality::Ultra);
    assert!(c.auto_transcode);
    assert_eq!(c.check_interval, 10);
    assert_eq!(c.segment_duration, Some(600));
    assert_eq!(c.retry_count, 3);
    assert_eq!(c.reconnect_delay, 30);
    assert_eq!(c.output_base_path, "recordings");
    let form = RecordSettingsForm {
        format_index: 3,
        quality_index: 4,
        auto_transcode: false,
        check_interval: "120".to_string(),
        segment_duration: "no".to_string(),
        retry_count: "0".to_string(),
        reconnect_delay: "2".to_string(),
        output_path: " /data/rec ".to_string(),
    };
    let c = apply_settings_form(&form);
    assert_eq!((c.record_format.as_str(), c.check_interval, c.retry_count, c.reconnect_delay), ("mp4", 120, 1, 5));
    assert_eq!(c.segment_duration, None);
    assert_eq!(c.output_base_path, "/data/rec");
}

#[test]
fn recorder_error_messages() {
    assert_eq!(
        format_error(&RecorderErrorKind::UnsupportedPlatform("x.com".to_string())),
        "不支持的平台: x.com\n支持的平台: 抖音、B站、虎牙、斗鱼、快手、SOOP"
    );
    assert_eq!(format_error(&RecorderErrorKind::RoomNotFound("42".to_string())), "直播间不存在: 42");
    assert_eq!(format_error(&RecorderErrorKind::HttpError("503".to_string())), "网络错误: 503");
    assert_eq!(format_error(&RecorderErrorKind::JsonError("eof".to_string())), "解析错误: eof");
    assert_eq!(format_error(&RecorderErrorKind::InvalidResponseFormat("f".to_string())), "响应格式错误: f");
    assert_eq!(
        format_error(&RecorderErrorKind::AuthenticationRequired("c".to_string())),
        "需要登录: c\n请在设置中配置 Cookie"
    );
    assert_eq!(format_error(&RecorderErrorKind::AuthenticationFailed("d".to_string())), "认证失败: d");
    assert_eq!(format_error(&RecorderErrorKind::NetworkTimeout), "网络超时");
    assert_eq!(format_error(&RecorderErrorKind::Other("other".to_string())), "other");
}

#[test]
fn recording_file_path() {
    assert_eq!(
        generate_output_path("/dl", "抖音直播", "Ann", "2024-01-02_03-04-05_006"),
        "/dl/record/抖音直播/Ann/Ann_2024-01-02_03-04-05_006.ts"
    );
}

#[test]
fn room_cards() {
    let v = room_card_view(&LiveRoomStatus::Live, false, true, "bilibili");
    assert_eq!(v.status_rgb, 0x22c55e);
    assert_eq!(v.platform_rgb, 0xfb7299);
    assert_eq!(v.platform_label, "B站");
    assert!(v.live_badge && v.start_button && !v.stop_button && !v.rec_badge && !v.paused_badge);
    assert_eq!(v.monitor_label, "暂停");
    let v = room_card_view(&LiveRoomStatus::Error("e".to_string()), true, false, "other");
    assert_eq!(v.status_rgb, 0xef4444);
    assert_eq!(v.platform_label, "other");
    assert_eq!(v.platform_rgb, 0x6366f1);
    assert!(v.stop_button && v.rec_badge && v.paused_badge && !v.start_button);
    assert_eq!(v.monitor_label, "监控");
}

fn room(id: u128, url: &str) -> MonitoredRoom {
    MonitoredRoom {
        id,
        url: url.to_string(),
        platform: "B站直播".to_string(),
        room_id: "1".to_string(),
        anchor_name: "Ann".to_string(),
        monitoring_enabled: true,
        cached_title: Some("old".to_string()),
        cached_cover_url: None,
        last_checked: None,
        last_live_at: None,
    }
}

fn live_info() -> RoomInfo {
    RoomInfo {
        status: LiveStatus::Live,
        title: "New title".to_string(),
        cover_url: Some("c.jpg".to_string()),
        anchor_name: "Ann".to_string(),
        room_id: "1".to_string(),
    }
}

#[test]
fn board_starts_with_cached_state() {
    let b = RecordingBoard::new(vec![room(1, "u1"), room(2, "u2")]);
    assert_eq!(b.entries.len(), 2);
    assert!(matches!(b.entries[0].state.status, LiveRoomStatus::Unknown));
    assert_eq!(b.entries[0].state.title.as_deref(), Some("old"));
    assert_eq!(b.rooms_to_check(), vec![1, 2]);
    assert_eq!(b.rooms().len(), 2);
}

#[test]
fn board_add_then_remove_restores() {
    let mut b = RecordingBoard::new(vec![room(1, "https://live.bilibili.com/1")]);
    assert_eq!(b.add_room("https://live.bilibili.com/1".to_string(), 9), Err(AddRoomError::AlreadyWatched));
    assert_eq!(b.entries.len(), 1);
    assert_eq!(b.add_room("https://live.douyin.com/5".to_string(), 7), Ok(()));
    let e = &b.entries[1];
    assert_eq!(e.room.platform, "抖音直播");
    assert_eq!(e.room.anchor_name, "获取中...");
    assert_eq!(e.state.last_error.as_deref(), Some("正在获取直播间信息..."));
    assert_eq!(b.remove_room(7), Ok(true));
    assert_eq!(b.entries.len(), 1);
    assert_eq!(b.entries[0].room.id, 1);
    assert_eq!(b.remove_room(7), Ok(false));
}

#[test]
fn board_toggle_monitoring_twice_restores() {
    let mut b = RecordingBoard::new(vec![room(1, "u1"), room(2, "u2")]);
    assert!(b.toggle_monitoring(2));
    assert_eq!(b.rooms_to_check(), vec![1]);
    assert!(b.toggle_monitoring(2));
    assert_eq!(b.rooms_to_check(), vec![1, 2]);
    assert!(!b.toggle_monitoring(3));
}

#[test]
fn board_check_starts_recording_once() {
    let mut b = RecordingBoard::new(vec![room(1, "u1")]);
    assert_eq!(b.start_refusal(1), Some(StartRefusal::NotLive));
    assert_eq!(b.start_refusal(5), Some(StartRefusal::NoSuchRoom));
    let out = b.apply_check(1, live_info(), 1000);
    assert_eq!(out, CheckOutcome { need_save: true, start_recording: true });
    assert_eq!(b.entries[0].room.last_live_at, Some(1000));
    assert_eq!(b.entries[0].room.cached_title.as_deref(), Some("New title"));
    assert_eq!(b.start_refusal(1), None);
    b.mark_recording(1, "/r/a.flv".to_string());
    assert!(b.is_recording(1));
    assert_eq!(b.start_refusal(1), Some(StartRefusal::AlreadyRecording));
    assert_eq!(b.remove_room(1), Err(RemoveRefusal::Recording));
    let out = b.apply_check(1, live_info(), 1001);
    assert!(!out.start_recording);
    b.update_progress(1, 12, 3456);
    let t = b.entries[0].state.current_task.as_ref().unwrap();
    assert_eq!((t.duration, t.recorded_bytes), (12, 3456));
    let plan = b.stop_recording(1, true);
    assert_eq!(plan.output_path.as_deref(), Some("/r/a.flv"));
    assert!(plan.transcode);
    assert_eq!(plan.anchor_name, "Ann");
    assert!(!b.is_recording(1));
    assert_eq!(b.remove_room(1), Ok(true));
    assert!(b.entries.is_empty());
}

#[test]
fn board_stop_without_task() {
    let mut b = RecordingBoard::new(vec![room(1, "u1")]);
    let plan = b.stop_recording(1, true);
    assert_eq!(plan.output_path, None);
    assert!(!plan.transcode);
    let plan = b.stop_recording(8, true);
    assert_eq!(plan.anchor_name, "");
}

#[test]
fn board_failures_and_refresh() {
    let mut b = RecordingBoard::new(vec![room(1, "u1")]);
    b.mark_recording(1, "/r/x.ts".to_string());
    b.recording_failed(1, Some("disk full".to_string()));
    assert!(!b.is_recording(1));
    assert_eq!(b.entries[0].state.last_error.as_deref(), Some("disk full"));
    b.apply_check_failure(1, "timeout".to_string());
    assert!(matches!(b.entries[0].state.status, LiveRoomStatus::Error(ref m) if m == "timeout"));
    assert!(b.begin_refresh(1));
    assert!(matches!(b.entries[0].state.status, LiveRoomStatus::Checking));
    let offline = RoomInfo { status: LiveStatus::Offline, title: String::new(), cover_url: None, anchor_name: "B".to_string(), room_id: "1".to_string() };
    b.apply_refresh(1, offline, 50);
    assert!(matches!(b.entries[0].state.status, LiveRoomStatus::Offline));
    assert_eq!(b.entries[0].room.anchor_name, "Ann");
    assert_eq!(b.entries[0].room.last_checked, Some(50));
}

#[test]
fn board_fetched_details() {
    let mut b = RecordingBoard::new(vec![]);
    b.add_room("https://www.huya.com/77".to_string(), 3).unwrap();
    b.apply_fetched(3, live_info());
    assert_eq!(b.entries[0].room.anchor_name, "Ann");
    assert_eq!(b.entries[0].room.cached_cover_url.as_deref(), Some("c.jpg"));
    assert!(b.entries[0].state.last_error.is_none());
    b.apply_fetch_failure(3, "gone".to_string());
    assert_eq!(b.entries[0].room.anchor_name, "获取失败");
}

#[test]
fn board_keeps_one_room_per_id() {
    let b = RecordingBoard::new(vec![room(1, "u1"), room(2, "u2"), room(1, "u3")]);
    assert_eq!(b.entries.len(), 2);
    assert_eq!(b.entries[0].room.url, "u1");
    assert_eq!(b.entries[1].room.url, "u2");
}

#[test]
fn adding_under_an_id_in_use_is_refused() {
    let mut b = RecordingBoard::new(vec![room(1, "u1")]);
    assert_eq!(b.add_room("https://live.douyin.com/5".to_string(), 1), Err(AddRoomError::IdInUse));
    assert_eq!(b.entries.len(), 1);
}
