use gui_app::home::{download_outcome, DownloadOutcome};
use gui_app::task_store::{TaskRecord, TaskStore, TaskUpdate};
use gui_app::settings::ButtonStyle;
use gui_app::tasks::{
    filter_button_style, filter_keeps, folder_to_open, task_item_view, task_notice, TaskFilter, TaskList,
    TaskNotice, TaskRow, TaskState,
};
use gui_app::types::NotificationType;

fn row(id: u128, state: TaskState) -> TaskRow<f32> {
    TaskRow { id, url: format!("https://v.test/watch/{}", id), title: None, state, completed_at: None, data: 0.0 }
}

fn sample_list() -> TaskList<f32> {
    let mut l = TaskList::new();
    l.tasks.push(row(1, TaskState::Queued));
    l.tasks.push(row(2, TaskState::Downloading));
    l.tasks.push(row(3, TaskState::Completed));
    l.tasks.push(row(4, TaskState::Failed("x".to_string())));
    l.tasks.push(row(5, TaskState::Paused));
    l.tasks.push(row(6, TaskState::Cancelled));
    l.tasks.push(row(7, TaskState::Completed));
    l
}

#[test]
fn filter_labels_and_messages() {
    let labels: Vec<String> = TaskFilter::all().iter().map(|f| f.label()).collect();
    assert_eq!(labels, vec!["全部", "下载中", "已完成", "失败"]);
    assert_eq!(TaskFilter::Failed.empty_message(), "没有失败的任务");
    assert_eq!(TaskFilter::All.empty_message(), "暂无下载任务");
}

#[test]
fn filters_split_the_list() {
    let l = sample_list();
    assert_eq!(l.filtered_tasks(TaskFilter::All), vec![0, 1, 2, 3, 4, 5, 6]);
    assert_eq!(l.filtered_tasks(TaskFilter::Downloading), vec![0, 1, 4]);
    assert_eq!(l.filtered_tasks(TaskFilter::Completed), vec![2, 6]);
    assert_eq!(l.filtered_tasks(TaskFilter::Failed), vec![3, 5]);
    let total = l.filtered_tasks(TaskFilter::Downloading).len()
        + l.filtered_tasks(TaskFilter::Completed).len()
        + l.filtered_tasks(TaskFilter::Failed).len();
    assert_eq!(total, l.tasks.len());
}

#[test]
fn each_state_in_exactly_one_tab() {
    let states = [
        TaskState::Queued,
        TaskState::Downloading,
        TaskState::Paused,
        TaskState::Completed,
        TaskState::Failed("e".to_string()),
        TaskState::Cancelled,
    ];
    for s in states.iter() {
        assert!(filter_keeps(TaskFilter::All, s));
        let n = [TaskFilter::Downloading, TaskFilter::Completed, TaskFilter::Failed]
            .iter()
            .filter(|f| filter_keeps(**f, s))
            .count();
        assert_eq!(n, 1);
    }
}

#[test]
fn pause_resume_cancel_first_match() {
    let mut l = sample_list();
    l.pause_task(2);
    assert!(matches!(l.tasks[1].state, TaskState::Paused));
    l.resume_task(2);
    assert!(matches!(l.tasks[1].state, TaskState::Downloading));
    l.cancel_task(1, 99);
    assert!(matches!(l.tasks[0].state, TaskState::Cancelled));
    assert_eq!(l.tasks[0].completed_at, Some(99));
    l.pause_task(42);
    assert_eq!(l.tasks.len(), 7);
}

#[test]
fn clear_completed_and_delete() {
    let mut l = sample_list();
    assert!(l.has_completed());
    assert_eq!(l.clear_completed(), vec![3, 7]);
    assert!(!l.has_completed());
    assert_eq!(l.tasks.len(), 5);
    assert!(l.clear_completed().is_empty());
    l.delete_task(4);
    assert!(l.tasks.iter().all(|t| t.id != 4));
    assert_eq!(l.tasks.len(), 4);
}

#[test]
fn task_row_views() {
    let v = task_item_view(&TaskState::Downloading, &None, "https://v.test/a/b/clip");
    assert_eq!(v.icon, "⬇️");
    assert_eq!(v.rgb, 0x3b82f6);
    assert_eq!(v.status_text, "下载中");
    assert_eq!(v.title, "clip");
    assert!(v.show_progress && v.show_speed && v.pause_button && v.cancel_button);
    assert!(!v.resume_button && !v.open_folder_button && !v.delete_button);
    let v = task_item_view(&TaskState::Completed, &Some("T".to_string()), "u");
    assert_eq!(v.title, "T");
    assert_eq!(v.status_text, "已完成");
    assert!(v.open_folder_button && v.delete_button && !v.show_progress);
    let v = task_item_view(&TaskState::Paused, &None, "noslash");
    assert_eq!(v.title, "noslash");
    assert!(v.resume_button && v.cancel_button && !v.show_speed);
}

#[test]
fn task_notices() {
    let m = task_notice(TaskNotice::Started, "https://x");
    assert_eq!(m.title, "下载开始");
    assert_eq!(m.message, "开始下载: https://x");
    assert_eq!(m.notification_type, NotificationType::Info);
    let m = task_notice(TaskNotice::Paused, "7");
    assert_eq!(m.message, "任务 7 已暂停");
    assert_eq!(m.notification_type, NotificationType::Warning);
    assert_eq!(task_notice(TaskNotice::Resumed, "7").message, "任务 7 已恢复");
    assert_eq!(task_notice(TaskNotice::Cancelled, "7").title, "下载已取消");
}

#[test]
fn download_outcomes() {
    assert!(matches!(download_outcome(None), DownloadOutcome::Completed));
    assert!(matches!(download_outcome(Some("x 下载已暂停".to_string())), DownloadOutcome::Paused));
    assert!(matches!(download_outcome(Some("下载已取消".to_string())), DownloadOutcome::Cancelled));
    assert!(matches!(download_outcome(Some("boom".to_string())), DownloadOutcome::Failed(ref e) if e == "boom"));
}

fn record(id: u128) -> TaskRecord<f32> {
    TaskRecord {
        id,
        url: "u".to_string(),
        title: None,
        state: TaskState::Queued,
        progress: 0.0,
        downloaded_bytes: 0,
        total_bytes: None,
        speed: None,
        eta: None,
        output_path: None,
        started_at: None,
        completed_at: None,
    }
}

#[test]
fn store_insert_get_remove() {
    let mut s: TaskStore<f32> = TaskStore::new();
    assert!(!s.contains(1));
    s.insert(record(1));
    s.insert(record(2));
    assert!(s.contains(1));
    assert_eq!(s.get(2).map(|t| t.id), Some(2));
    let mut r = record(1);
    r.url = "other".to_string();
    s.insert(r);
    assert_eq!(s.get(1).map(|t| t.url.clone()), Some("other".to_string()));
    s.remove(1);
    assert!(!s.contains(1));
    assert!(s.get(1).is_none());
    assert!(s.contains(2));
}

#[test]
fn store_updates_touch_their_task_only() {
    let mut s: TaskStore<f32> = TaskStore::new();
    s.update_task(TaskUpdate::Created(record(1)), 0, 1.0);
    s.update_task(TaskUpdate::Created(record(2)), 0, 1.0);
    s.update_task(TaskUpdate::Progress(1, 0.5, 50, Some(100), Some(10), Some(5)), 0, 1.0);
    s.update_task(TaskUpdate::SpeedUpdate(1, 20), 0, 1.0);
    let t = s.get(1).unwrap();
    assert_eq!((t.progress, t.downloaded_bytes, t.total_bytes, t.speed, t.eta), (0.5, 50, Some(100), Some(20), Some(5)));
    assert_eq!(s.get(2).unwrap().downloaded_bytes, 0);
    s.update_task(TaskUpdate::Completed(1, "/o/f.mp4".to_string()), 77, 1.0);
    let t = s.get(1).unwrap();
    assert!(matches!(t.state, TaskState::Completed));
    assert_eq!(t.output_path.as_deref(), Some("/o/f.mp4"));
    assert_eq!(t.completed_at, Some(77));
    assert_eq!(t.progress, 1.0);
    s.update_task(TaskUpdate::Failed(2, "bad".to_string()), 78, 1.0);
    assert!(matches!(s.get(2).unwrap().state, TaskState::Failed(ref e) if e == "bad"));
    s.update_task(TaskUpdate::StateChanged(9, TaskState::Paused), 0, 1.0);
    assert!(!s.contains(9));
    s.update_task(TaskUpdate::StateChanged(2, TaskState::Paused), 0, 1.0);
    assert!(matches!(s.get(2).unwrap().state, TaskState::Paused));
}

#[test]
fn record_progress_start_finish() {
    let mut r = record(5);
    r.start(10);
    assert!(matches!(r.state, TaskState::Downloading));
    assert_eq!(r.started_at, Some(10));
    r.record_progress(0.25, 0, 25, 0);
    assert_eq!((r.speed, r.total_bytes, r.downloaded_bytes), (None, None, 25));
    r.record_progress(0.5, 9, 50, 100);
    assert_eq!((r.speed, r.total_bytes), (Some(9), Some(100)));
    r.finish(DownloadOutcome::Completed, Some("/f".to_string()), Some(123), 20, 1.0);
    assert!(matches!(r.state, TaskState::Completed));
    assert_eq!((r.total_bytes, r.downloaded_bytes, r.completed_at), (Some(123), 123, Some(20)));
    let mut q = record(6);
    q.finish(DownloadOutcome::Paused, None, None, 30, 1.0);
    assert!(matches!(q.state, TaskState::Paused));
    assert_eq!(q.completed_at, None);
    q.finish(DownloadOutcome::Failed("e".to_string()), None, None, 31, 1.0);
    assert!(matches!(q.state, TaskState::Failed(_)));
    assert_eq!(q.completed_at, Some(31));
}

#[test]
fn task_page_header_and_filters() {
    let mut l = sample_list();
    let h = l.header();
    assert_eq!(h.count_text, "共 7 个任务");
    assert!(!h.clear_disabled);
    l.clear_completed();
    assert!(l.header().clear_disabled);
    assert_eq!(l.header().count_text, "共 5 个任务");
    assert_eq!(filter_button_style(TaskFilter::Failed, TaskFilter::Failed), ButtonStyle::Primary);
    assert_eq!(filter_button_style(TaskFilter::All, TaskFilter::Failed), ButtonStyle::Subtle);
}

#[test]
fn folder_of_a_task() {
    assert_eq!(folder_to_open(&Some("/d/v/a.mp4".to_string())), Some("/d/v".to_string()));
    assert_eq!(folder_to_open(&Some("/".to_string())), None);
    assert_eq!(folder_to_open(&None), None);
}
