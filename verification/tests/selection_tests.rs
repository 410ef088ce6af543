use gui_app::batch::{batch_item_view, BatchItem, BatchItemStatus, BatchPanel, BatchPanelState, DownloadTemplate};
use gui_app::tools::StatusTone;
use gui_app::playlist::{playlist_item_view, PlaylistInfo, PlaylistItem, PlaylistPanel, PlaylistPanelState, SelectionMode};
use gui_app::selection::IdSet;

#[test]
fn id_set_insert_remove_toggle() {
    let mut s = IdSet::new();
    assert!(!s.contains("a"));
    s.insert("a");
    s.insert("a");
    s.insert("b");
    assert!(s.contains("a") && s.contains("b"));
    s.remove("a");
    assert!(!s.contains("a") && s.contains("b"));
    s.toggle("c");
    assert!(s.contains("c"));
    s.toggle("c");
    assert!(!s.contains("c"));
    s.clear();
    assert!(!s.contains("b"));
}

#[test]
fn id_set_toggle_twice_restores() {
    let mut s = IdSet::of_strings(&vec!["x".to_string(), "y".to_string()]);
    for id in ["x", "z"] {
        let before_x = s.contains("x");
        let before_y = s.contains("y");
        let before_z = s.contains("z");
        s.toggle(id);
        s.toggle(id);
        assert_eq!((s.contains("x"), s.contains("y"), s.contains("z")), (before_x, before_y, before_z));
    }
}

#[test]
fn id_set_complement() {
    let s = IdSet::of_strings(&vec!["a".to_string()]);
    let all = vec!["a".to_string(), "b".to_string(), "c".to_string()];
    let c = s.complement_in(&all);
    assert!(!c.contains("a") && c.contains("b") && c.contains("c"));
}

#[test]
fn batch_new_has_four_categories() {
    let p = BatchPanel::new();
    assert_eq!(p.state, BatchPanelState::Idle);
    assert!(p.items.is_empty());
    let names: Vec<&str> = p.categories.iter().map(|c| c.name.as_str()).collect();
    assert_eq!(names, vec!["音乐", "视频", "教程", "其他"]);
    assert_eq!(p.categories[0].output_dir.as_deref(), Some("~/Downloads/Music"));
    assert_eq!(p.categories[3].output_dir, None);
}

#[test]
fn batch_parse_urls_from_text() {
    let mut p = BatchPanel::new();
    p.parse_urls_from_text("  https://a.test/1 \nnot a link\n\nhttp://b.test/2\nftp://c");
    let urls: Vec<&str> = p.items.iter().map(|i| i.url.as_str()).collect();
    assert_eq!(urls, vec!["https://a.test/1", "http://b.test/2"]);
    assert_eq!(p.state, BatchPanelState::Ready);
    assert!(p.items.iter().all(|i| matches!(i.status, BatchItemStatus::Pending)));
    assert_ne!(p.items[0].id, p.items[1].id);
    assert!(!p.items[0].id.is_empty());
}

#[test]
fn batch_parse_without_links_keeps_state() {
    let mut p = BatchPanel::new();
    p.parse_urls_from_text("nothing here");
    assert!(p.items.is_empty());
    assert_eq!(p.state, BatchPanelState::Idle);
}

#[test]
fn batch_add_urls_trims_and_skips_blank() {
    let mut p = BatchPanel::new();
    p.add_urls(vec![" u1 ".to_string(), "   ".to_string(), "u2".to_string()]);
    let urls: Vec<&str> = p.items.iter().map(|i| i.url.as_str()).collect();
    assert_eq!(urls, vec!["u1", "u2"]);
    assert_eq!(p.pending_count(), 2);
}

fn selected(p: &BatchPanel) -> Vec<String> {
    p.get_selected_items().into_iter().map(|i| i.id.clone()).collect()
}

#[test]
fn batch_selection_and_removal() {
    let mut p = BatchPanel::new();
    p.add_url_with_id("u1".to_string(), "i1".to_string());
    p.add_url_with_id("u2".to_string(), "i2".to_string());
    p.add_url_with_id("u3".to_string(), "i3".to_string());
    p.select_all();
    assert_eq!(selected(&p), vec!["i1", "i2", "i3"]);
    p.toggle_item("i2");
    assert_eq!(selected(&p), vec!["i1", "i3"]);
    p.toggle_item("i2");
    assert_eq!(selected(&p), vec!["i1", "i2", "i3"]);
    p.remove_item("i1");
    assert_eq!(p.items.len(), 2);
    assert!(p.items.iter().all(|i| i.id != "i1"));
    assert_eq!(selected(&p), vec!["i2", "i3"]);
    p.deselect_all();
    assert!(selected(&p).is_empty());
}

#[test]
fn batch_status_and_title_updates() {
    let mut p = BatchPanel::new();
    p.add_url_with_id("u1".to_string(), "i1".to_string());
    p.add_url_with_id("u2".to_string(), "i2".to_string());
    p.update_item_status("i2", BatchItemStatus::Completed);
    p.set_item_title("i1", "Title".to_string());
    p.update_item_status("missing", BatchItemStatus::Parsing);
    assert_eq!(p.items[1].status.label(), "已完成");
    assert_eq!(p.items[0].title.as_deref(), Some("Title"));
    assert_eq!(p.pending_count(), 1);
    p.update_item_status("i1", BatchItemStatus::Failed("x".to_string()));
    assert_eq!(p.items[0].status.label(), "失败");
    assert_eq!(p.pending_count(), 0);
    p.clear();
    assert!(p.items.is_empty());
    assert_eq!(p.state, BatchPanelState::Idle);
}

fn item(id: &str, title: &str, index: usize) -> PlaylistItem {
    PlaylistItem {
        id: id.to_string(),
        title: title.to_string(),
        duration: Some(60),
        index,
        thumbnail: None,
        uploader: None,
        url: format!("https://v.test/{}", id),
    }
}

fn playlist() -> PlaylistInfo {
    PlaylistInfo {
        id: "pl".to_string(),
        title: "List".to_string(),
        description: None,
        uploader: None,
        video_count: 3,
        thumbnail: None,
        entries: vec![item("a", "Rust Intro", 1), item("b", "Cooking", 2), item("c", "RUST advanced", 3)],
    }
}

fn chosen_ids(p: &PlaylistPanel) -> Vec<String> {
    p.get_selected_items().into_iter().map(|i| i.id).collect()
}

#[test]
fn playlist_choose_all_on_load() {
    let mut p = PlaylistPanel::new();
    assert!(matches!(p.state, PlaylistPanelState::Idle));
    assert!(chosen_ids(&p).is_empty());
    p.set_playlist(playlist());
    assert!(matches!(p.state, PlaylistPanelState::Ready));
    assert_eq!(chosen_ids(&p), vec!["a", "b", "c"]);
}

#[test]
fn playlist_invert_twice_restores() {
    let mut p = PlaylistPanel::new();
    p.set_playlist(playlist());
    p.toggle_item("b");
    assert_eq!(p.selection_mode, SelectionMode::Custom);
    assert_eq!(chosen_ids(&p), vec!["a", "c"]);
    p.invert_selection();
    assert_eq!(chosen_ids(&p), vec!["b"]);
    p.invert_selection();
    assert_eq!(chosen_ids(&p), vec!["a", "c"]);
}

#[test]
fn playlist_select_all_then_invert_is_empty() {
    let mut p = PlaylistPanel::new();
    p.set_playlist(playlist());
    p.deselect_all();
    assert!(chosen_ids(&p).is_empty());
    p.select_all();
    assert_eq!(p.selection_mode, SelectionMode::All);
    p.invert_selection();
    assert!(chosen_ids(&p).is_empty());
}

#[test]
fn playlist_search_ignores_case() {
    let mut p = PlaylistPanel::new();
    p.set_playlist(playlist());
    p.set_search("rust".to_string());
    let ids: Vec<&str> = p.filtered_entries().iter().map(|i| i.id.as_str()).collect();
    assert_eq!(ids, vec!["a", "c"]);
    p.set_search(String::new());
    assert_eq!(p.filtered_entries().len(), 3);
    p.set_search("zzz".to_string());
    assert!(p.filtered_entries().is_empty());
}

#[test]
fn playlist_loading_and_error_states() {
    let mut p = PlaylistPanel::new();
    p.set_loading();
    assert!(matches!(p.state, PlaylistPanelState::Loading));
    p.set_error("boom".to_string());
    assert!(matches!(p.state, PlaylistPanelState::Error(ref e) if e == "boom"));
    p.select_all();
    assert!(chosen_ids(&p).is_empty());
}

#[test]
fn batch_templates() {
    let p = BatchPanel::new();
    assert_eq!(p.templates.len(), 1);
    assert_eq!(p.current_template, 0);
    let t = DownloadTemplate::default();
    assert_eq!((t.name.as_str(), t.output_dir.as_str(), t.filename_template.as_str()), ("默认模板", "~/Downloads", "%(title)s.%(ext)s"));
    assert!(t.description.is_none());
}

#[test]
fn batch_panel_texts() {
    let mut p = BatchPanel::new();
    let v = p.view();
    assert_eq!(v.item_count_text, "0 个项目");
    assert!(v.empty && v.clear_disabled && v.download_all_disabled && v.all_selected);
    assert_eq!(v.download_selected_label, None);
    p.add_url_with_id("u1".to_string(), "i1".to_string());
    p.add_url_with_id("u2".to_string(), "i2".to_string());
    p.update_item_status("i2", BatchItemStatus::Completed);
    p.toggle_item("i1");
    let v = p.view();
    assert_eq!(v.item_count_text, "2 个项目");
    assert_eq!(v.pending_text, "待下载: 1");
    assert_eq!(v.selected_text, "已选: 1");
    assert_eq!(v.download_selected_label.as_deref(), Some("下载选中 (1)"));
    assert_eq!(v.download_all_label, "全部下载 (1)");
    assert!(!v.empty && !v.all_selected && !v.download_all_disabled);
    p.select_all();
    assert!(p.view().all_selected);
    assert_eq!(p.view().selected_text, "已选: 2");
}

#[test]
fn batch_item_rows() {
    let item = BatchItem {
        id: "i".to_string(),
        url: "https://x".to_string(),
        title: None,
        status: BatchItemStatus::Failed("e".to_string()),
        category: None,
    };
    let v = batch_item_view(&item, true);
    assert!(v.highlighted && !v.show_url);
    assert_eq!(v.title, "https://x");
    assert_eq!(v.tone, StatusTone::Danger);
    assert_eq!(v.status_label, "失败");
    let item = BatchItem { title: Some("T".to_string()), status: BatchItemStatus::Parsed, ..item };
    let v = batch_item_view(&item, false);
    assert!(!v.highlighted && v.show_url);
    assert_eq!((v.title.as_str(), v.tone), ("T", StatusTone::Success));
}

#[test]
fn id_set_counts_distinct_ids() {
    let mut s = IdSet::new();
    assert_eq!(s.len(), 0);
    s.insert("a");
    s.insert("b");
    s.insert("a");
    assert_eq!(s.len(), 2);
    s.remove("a");
    assert_eq!(s.len(), 1);
    let t = IdSet::of_strings(&vec!["x".to_string(), "x".to_string(), "y".to_string()]);
    assert_eq!(t.len(), 2);
}

#[test]
fn playlist_panel_texts() {
    use_playlist_view();
}

fn use_playlist_view() {
    let mut p = PlaylistPanel::new();
    let v = p.view();
    assert_eq!(v.video_count_text, None);
    assert_eq!(v.chosen_text, "已选 0/0");
    assert_eq!(v.select_all_label, "取消全选");
    assert!(v.download_disabled);
    p.set_playlist(playlist());
    p.toggle_item("b");
    let v = p.view();
    assert_eq!(v.video_count_text.as_deref(), Some("3 个视频"));
    assert_eq!(v.chosen_text, "已选 2/3");
    assert_eq!(v.select_all_label, "全选");
    assert_eq!(v.duration_text, "总时长: 2:00");
    assert_eq!(v.download_label, "下载 2 个视频");
    assert!(!v.download_disabled);
}

#[test]
fn playlist_rows() {
    let mut it = item("a", "Rust Intro", 4);
    it.uploader = Some("ann".to_string());
    let v = playlist_item_view(&it, true, false);
    assert!(v.highlighted && v.top_border);
    assert_eq!(v.index_text, "5");
    assert_eq!(v.title, "Rust Intro");
    assert_eq!(v.uploader.as_deref(), Some("ann"));
    assert_eq!(v.duration_text, "1:00");
    it.duration = None;
    let v = playlist_item_view(&it, false, true);
    assert!(!v.highlighted && !v.top_border);
    assert_eq!(v.duration_text, "未知");
}

fn looks_like_uuid_v4(s: &str) -> bool {
    let b: Vec<char> = s.chars().collect();
    if b.len() != 36 {
        return false;
    }
    for (i, c) in b.iter().enumerate() {
        let ok = if i == 8 || i == 13 || i == 18 || i == 23 {
            *c == '-'
        } else {
            c.is_ascii_digit() || ('a'..='f').contains(c)
        };
        if !ok {
            return false;
        }
    }
    b[14] == '4' && "89ab".contains(b[19])
}

#[test]
fn batch_add_url_gives_fresh_uuid_ids() {
    let mut p = BatchPanel::new();
    p.add_url("https://a".to_string());
    p.add_url("https://b".to_string());
    assert_eq!(p.items.len(), 2);
    assert!(looks_like_uuid_v4(&p.items[0].id));
    assert!(looks_like_uuid_v4(&p.items[1].id));
    assert_ne!(p.items[0].id, p.items[1].id);
    assert_eq!(p.items[1].url, "https://b");
}

#[test]
fn imported_addresses_get_uuid_ids() {
    let mut p = BatchPanel::new();
    p.parse_urls_from_text("https://a\nnot a link\n  http://b  ");
    assert_eq!(p.items.len(), 2);
    assert!(p.items.iter().all(|i| looks_like_uuid_v4(&i.id)));
    assert_eq!(p.items[1].url, "http://b");
}

#[test]
fn playlist_choice_keeps_state_and_search() {
    let mut p = PlaylistPanel::new();
    p.set_playlist(playlist());
    p.set_search("rust".to_string());
    p.toggle_item("b");
    p.invert_selection();
    p.select_all();
    p.deselect_all();
    assert!(matches!(p.state, PlaylistPanelState::Ready));
    assert_eq!(p.search_query, "rust");
    p.set_loading();
    assert_eq!(p.search_query, "rust");
}
