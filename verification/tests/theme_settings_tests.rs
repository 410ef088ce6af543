use gui_app::notification::{ConfirmDialog, ErrorPanel, Notification, NotificationContainer, NotificationType};
use gui_app::settings::{
    concurrency_buttons, cookie_from_form, cookie_preview, format_display_name, language_display_name, proxy_card_view, AdvancedSettingsData, ButtonStyle,
    ProxyMode, ProxyTestStatus, SettingsState, SettingsTab,
};
use gui_app::theme::manager::ThemeManager;
use gui_app::theme::presets::{forest_green, midnight, ocean_blue, violet};
use gui_app::theme::{AppTheme, CustomTheme, ResolvedTheme, ThemeColors};

#[test]
fn palettes() {
    let l = ThemeColors::light();
    let d = ThemeColors::dark();
    assert_eq!(l.primary, "#0f172a");
    assert_eq!(l.background, "#ffffff");
    assert_eq!(d.primary, "#f8fafc");
    assert_eq!(d.background, "#0f172a");
    assert_eq!(ThemeColors::default().border, l.border);
}

#[test]
fn hex_colours() {
    assert_eq!(ThemeColors::parse_hex_rgb("#0f172a"), Some((0x0f, 0x17, 0x2a)));
    assert_eq!(ThemeColors::parse_hex_rgb("ffFFff"), Some((255, 255, 255)));
    assert_eq!(ThemeColors::parse_hex_rgb("#fff"), None);
    assert_eq!(ThemeColors::parse_hex_rgb("#gg0000"), None);
    assert_eq!(ThemeColors::parse_hex_rgb("##123456"), Some((0x12, 0x34, 0x56)));
    assert_eq!(ThemeColors::parse_hex_rgb("+f+f+f"), None);
    assert_eq!(ThemeColors::parse_hex_rgb("#é0000"), None);
    assert_eq!(ThemeColors::parse_hex_rgb("ff00é0"), None);
    assert_eq!(ThemeColors::parse_hex_rgb("#1234567"), None);
}

#[test]
fn custom_theme_builder() {
    let t = CustomTheme::new("Mine").with_description("d").with_author("me").with_colors(ThemeColors::dark());
    assert_eq!(t.name, "Mine");
    assert_eq!(t.description.as_deref(), Some("d"));
    assert_eq!(t.author.as_deref(), Some("me"));
    assert_eq!(t.colors.primary, "#f8fafc");
    assert_eq!(CustomTheme::new("x").colors.primary, "#0f172a");
}

#[test]
fn presets_have_names() {
    let names: Vec<String> = vec![ocean_blue(), forest_green(), violet(), midnight()].into_iter().map(|t| t.name).collect();
    assert_eq!(names.len(), 4);
    assert!(names.iter().all(|n| !n.is_empty()));
}

#[test]
fn manager_follows_system_then_toggles() {
    let mut m = ThemeManager::new("/cfg".to_string(), true);
    assert_eq!(*m.current_theme(), AppTheme::System);
    assert_eq!(m.resolved_theme(), ResolvedTheme::Dark);
    assert_eq!(m.config_path(), "/cfg");
    m.toggle_theme();
    assert_eq!(*m.current_theme(), AppTheme::Light);
    assert_eq!(m.resolved_theme(), ResolvedTheme::Light);
    assert_eq!(m.colors().primary, "#0f172a");
    m.toggle_theme();
    assert_eq!(*m.current_theme(), AppTheme::Dark);
    assert_eq!(m.resolved_theme(), ResolvedTheme::Dark);
    assert_eq!(m.colors().primary, "#f8fafc");
    m.set_theme(AppTheme::System, false);
    assert_eq!(m.resolved_theme(), ResolvedTheme::Light);
}

#[test]
fn manager_custom_themes_add_get_remove() {
    let mut m = ThemeManager::new("/cfg".to_string(), false);
    assert!(m.get_custom_theme("Mine").is_none());
    m.add_custom_theme(CustomTheme::new("Mine").with_author("a"));
    m.add_custom_theme(CustomTheme::new("Other"));
    m.add_custom_theme(CustomTheme::new("Mine").with_author("b"));
    assert_eq!(m.custom_themes().len(), 2);
    assert_eq!(m.get_custom_theme("Mine").and_then(|t| t.author.clone()), Some("b".to_string()));
    let removed = m.remove_custom_theme("Mine");
    assert_eq!(removed.map(|t| t.name), Some("Mine".to_string()));
    assert!(m.get_custom_theme("Mine").is_none());
    assert!(m.remove_custom_theme("Mine").is_none());
    m.set_custom_themes(vec![("k".to_string(), CustomTheme::new("K"))]);
    assert_eq!(m.custom_themes().len(), 1);
    assert!(m.get_custom_theme("k").is_some());
}

#[test]
fn settings_tabs_and_concurrency() {
    assert_eq!(SettingsTab::Appearance.label().is_empty(), false);
    let mut s = SettingsState::new();
    assert_eq!(s.max_concurrent, 3);
    for _ in 0..20 {
        s.increment_concurrent();
    }
    assert_eq!(s.max_concurrent, 10);
    for _ in 0..20 {
        s.decrement_concurrent();
    }
    assert_eq!(s.max_concurrent, 1);
    s.increment_concurrent();
    s.decrement_concurrent();
    assert_eq!(s.max_concurrent, 1);
    s.max_concurrent = 5;
    s.increment_concurrent();
    s.decrement_concurrent();
    assert_eq!(s.max_concurrent, 5);
    assert_eq!(concurrency_buttons(1), (false, true));
    assert_eq!(concurrency_buttons(10), (true, false));
    assert_eq!(concurrency_buttons(4), (true, true));
    s.toggle_debug_mode(true);
    s.toggle_auto_check_updates(false);
    assert!(s.debug_mode && !s.auto_check_updates);
    assert_eq!(AdvancedSettingsData::default(), AdvancedSettingsData { auto_check_updates: true, debug_mode: false });
}

#[test]
fn proxy_card() {
    assert_eq!(ProxyMode::default(), ProxyMode::NoProxy);
    assert_eq!(ProxyTestStatus::default(), ProxyTestStatus::Idle);
    let v = proxy_card_view(ProxyMode::Custom, ProxyTestStatus::Failed);
    assert_eq!((v.none_button, v.system_button, v.custom_button), (ButtonStyle::Subtle, ButtonStyle::Subtle, ButtonStyle::Primary));
    assert_eq!(v.test_label, "连接失败");
    assert_eq!(v.test_button, ButtonStyle::Danger);
    assert!(v.address_field && v.failure_note && !v.success_note && !v.system_note);
    let v = proxy_card_view(ProxyMode::System, ProxyTestStatus::Testing);
    assert_eq!(v.test_label, "测试中...");
    assert_eq!(v.test_button, ButtonStyle::Subtle);
    assert!(v.system_note && !v.address_field);
    let v = proxy_card_view(ProxyMode::NoProxy, ProxyTestStatus::Idle);
    assert_eq!((v.test_label.as_str(), v.test_button), ("测试连接", ButtonStyle::Outline));
}

#[test]
fn cookies() {
    let c = cookie_from_form(" bilibili ", " SESSDATA=x ").unwrap();
    assert_eq!((c.platform.as_str(), c.cookie.as_str(), c.enabled), ("bilibili", "SESSDATA=x", true));
    assert!(cookie_from_form("  ", "x").is_none());
    assert!(cookie_from_form("p", "").is_none());
    assert_eq!(cookie_preview("short"), "short");
    let long = "a".repeat(60);
    assert_eq!(cookie_preview(&long), format!("{}...", "a".repeat(50)));
    assert_eq!(cookie_preview(&"b".repeat(50)), "b".repeat(50));
}

#[test]
fn notifications_queue() {
    let mut c: NotificationContainer<f32, u64> = NotificationContainer::new();
    assert_eq!(c.max_visible, 5);
    for i in 0..7u64 {
        c.push(Notification::info(&format!("n{}", i), i));
    }
    let titles: Vec<&str> = c.notifications.iter().map(|n| n.title.as_str()).collect();
    assert_eq!(titles, vec!["n2", "n3", "n4", "n5", "n6"]);
    let id = c.notifications[0].id.clone();
    c.dismiss(&id);
    assert_eq!(c.notifications.len(), 4);
    assert!(c.notifications.iter().all(|n| n.id != id));
    c.clear();
    assert!(c.notifications.is_empty());
}

#[test]
fn notification_kinds_and_expiry() {
    let n: Notification<f32, u64> = Notification::error("bad", 1).with_message("m").with_action("重试", "retry");
    assert_eq!(n.notification_type.icon(), "❌");
    assert_eq!(n.message.as_deref(), Some("m"));
    assert_eq!(n.actions.len(), 1);
    assert_eq!(n.actions[0].action_id, "retry");
    assert!(!n.id.is_empty());
    let p: Notification<f32, u64> = Notification::progress("dl", 0.1, 2);
    assert_eq!(p.duration, None);
    assert!(!p.is_expired(u128::MAX));
    let i: Notification<f32, u64> = Notification::info("i", 3).with_duration(10);
    assert!(!i.is_expired(10));
    assert!(i.is_expired(11));
    assert_eq!(Notification::<f32, u64>::success("s", 0).notification_type.icon(), "✅");
    assert_eq!(Notification::<f32, u64>::warning("w", 0).notification_type.icon(), "⚠️");
}

#[test]
fn notification_cleanup_and_progress() {
    let mut c: NotificationContainer<f32, u64> = NotificationContainer::new();
    c.push(Notification::info("a", 0).with_duration(5));
    c.push(Notification::progress("b", 0.0, 0));
    c.push(Notification::info("c", 0).with_duration(100));
    c.cleanup_expired(&vec![6, 1000, 50]);
    let titles: Vec<&str> = c.notifications.iter().map(|n| n.title.as_str()).collect();
    assert_eq!(titles, vec!["b", "c"]);
    let id = c.notifications[0].id.clone();
    c.update_progress(&id, 0.75);
    assert!(matches!(c.notifications[0].notification_type, NotificationType::Progress(p) if p == 0.75));
}

#[test]
fn dialogs() {
    let mut d = ConfirmDialog::new("删除?", "确定").with_confirm_label("是").with_cancel_label("否");
    assert!(!d.visible && !d.is_danger);
    d.show();
    assert!(d.visible);
    d.close();
    assert!(!d.visible);
    assert_eq!((d.confirm_label.as_str(), d.cancel_label.as_str()), ("是", "否"));
    assert!(ConfirmDialog::danger("x", "y").is_danger);
    let mut e = ErrorPanel::new("错误", "msg").with_details("trace");
    e.show();
    assert!(e.visible);
    assert_eq!(e.details.as_deref(), Some("trace"));
    e.close();
    assert!(!e.visible);
}

#[test]
fn display_names() {
    assert_eq!(format_display_name("best"), "最佳质量");
    assert_eq!(format_display_name("bestvideo+bestaudio"), "最佳视频+音频");
    assert_eq!(format_display_name("worst"), "最低质量");
    assert_eq!(format_display_name("22"), "22");
    assert_eq!(language_display_name("zh-TW"), "繁體中文");
    assert_eq!(language_display_name("ko"), "한국어");
    assert_eq!(language_display_name("fr"), "fr");
}
