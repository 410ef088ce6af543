//! The task list: download tasks, the filters over them, the actions on a
//! task, and how a task is shown.
use vstd::prelude::*;
use crate::settings::ButtonStyle;
use crate::text::{
    chars_of, decimal, opt_view, owned, push_chars, push_str, rfind_char, rfind_char_chars, slice_range,
    string_of, u64_to_decimal,
};
use crate::types::{NotificationMessage, NotificationType};

verus! {

broadcast use vstd::string::group_string_axioms;

/// Where a download task stands.
#[derive(Debug, Clone)]
pub enum TaskState {
    Queued,
    Downloading,
    Paused,
    Completed,
    Failed(String),
    Cancelled,
}

/// The filters of the task list.
#[derive(Debug, Clone, Copy, PartialEq, Eq, Structural)]
pub enum TaskFilter {
    All,
    Downloading,
    Completed,
    Failed,
}

pub open spec fn filter_label(f: TaskFilter) -> Seq<char> {
    match f {
        TaskFilter::All => "全部"@,
        TaskFilter::Downloading => "下载中"@,
        TaskFilter::Completed => "已完成"@,
        TaskFilter::Failed => "失败"@,
    }
}

/// The text shown when a filter leaves no task.
pub open spec fn empty_text(f: TaskFilter) -> Seq<char> {
    match f {
        TaskFilter::All => "暂无下载任务"@,
        TaskFilter::Downloading => "没有正在下载的任务"@,
        TaskFilter::Completed => "没有已完成的任务"@,
        TaskFilter::Failed => "没有失败的任务"@,
    }
}

impl TaskFilter {
    pub fn label(&self) -> (r: String)
        ensures
            r@ == filter_label(*self),
    {
        match self {
            TaskFilter::All => owned("全部"),
            TaskFilter::Downloading => owned("下载中"),
            TaskFilter::Completed => owned("已完成"),
            TaskFilter::Failed => owned("失败"),
        }
    }

    /// The text shown when the filter leaves no task.
    pub fn empty_message(&self) -> (r: String)
        ensures
            r@ == empty_text(*self),
    {
        match self {
            TaskFilter::All => owned("暂无下载任务"),
            TaskFilter::Downloading => owned("没有正在下载的任务"),
            TaskFilter::Completed => owned("没有已完成的任务"),
            TaskFilter::Failed => owned("没有失败的任务"),
        }
    }

    /// The filters, in the order of the filter bar.
    pub fn all() -> (r: Vec<TaskFilter>)
        ensures
            r@ == seq![TaskFilter::All, TaskFilter::Downloading, TaskFilter::Completed, TaskFilter::Failed],
    {
        vec![TaskFilter::All, TaskFilter::Downloading, TaskFilter::Completed, TaskFilter::Failed]
    }
}

/// A task still under way: queued, downloading or paused.
pub open spec fn is_active(s: TaskState) -> bool {
    s is Queued || s is Downloading || s is Paused
}

/// The filter keeps a task in state `s`: all; those under way; the
/// completed; the failed and cancelled.
pub open spec fn keeps(f: TaskFilter, s: TaskState) -> bool {
    match f {
        TaskFilter::All => true,
        TaskFilter::Downloading => is_active(s),
        TaskFilter::Completed => s is Completed,
        TaskFilter::Failed => s is Failed || s is Cancelled,
    }
}

pub fn filter_keeps(f: TaskFilter, s: &TaskState) -> (b: bool)
    ensures
        b == keeps(f, *s),
{
    match f {
        TaskFilter::All => true,
        TaskFilter::Downloading => match s {
            TaskState::Downloading | TaskState::Paused | TaskState::Queued => true,
            _ => false,
        },
        TaskFilter::Completed => match s {
            TaskState::Completed => true,
            _ => false,
        },
        TaskFilter::Failed => match s {
            TaskState::Failed(_) | TaskState::Cancelled => true,
            _ => false,
        },
    }
}

/// A task of the list; `data` holds what only the display reads.
pub struct TaskRow<P> {
    pub id: u128,
    pub url: String,
    pub title: Option<String>,
    pub state: TaskState,
    /// When the task ended (seconds since the epoch)
    pub completed_at: Option<i64>,
    pub data: P,
}

/// The tasks shown on the task page.
pub struct TaskList<P> {
    pub tasks: Vec<TaskRow<P>>,
}

/// The positions of the tasks the filter keeps, in order.
pub open spec fn kept_positions<P>(s: Seq<TaskRow<P>>, f: TaskFilter) -> Seq<int>
    decreases s.len(),
{
    if s.len() == 0 {
        Seq::empty()
    } else if keeps(f, s.last().state) {
        kept_positions(s.drop_last(), f).push(s.len() - 1)
    } else {
        kept_positions(s.drop_last(), f)
    }
}

/// The tasks that remain once those with id `id` are removed.
pub open spec fn without_id<P>(s: Seq<TaskRow<P>>, id: u128) -> Seq<TaskRow<P>>
    decreases s.len(),
{
    if s.len() == 0 {
        Seq::empty()
    } else if s.last().id == id {
        without_id(s.drop_last(), id)
    } else {
        without_id(s.drop_last(), id).push(s.last())
    }
}

/// The tasks that are not completed.
pub open spec fn not_completed<P>(s: Seq<TaskRow<P>>) -> Seq<TaskRow<P>>
    decreases s.len(),
{
    if s.len() == 0 {
        Seq::empty()
    } else if s.last().state is Completed {
        not_completed(s.drop_last())
    } else {
        not_completed(s.drop_last()).push(s.last())
    }
}

/// The ids of the completed tasks, in order.
pub open spec fn completed_ids<P>(s: Seq<TaskRow<P>>) -> Seq<u128>
    decreases s.len(),
{
    if s.len() == 0 {
        Seq::empty()
    } else if s.last().state is Completed {
        completed_ids(s.drop_last()).push(s.last().id)
    } else {
        completed_ids(s.drop_last())
    }
}

/// The first position of a task with id `id`.
pub open spec fn first_with_id<P>(s: Seq<TaskRow<P>>, id: u128) -> Option<int>
    decreases s.len(),
{
    if s.len() == 0 {
        None
    } else if s[0].id == id {
        Some(0)
    } else {
        match first_with_id(s.drop_first(), id) {
            Some(i) => Some(i + 1),
            None => None,
        }
    }
}

/// The list with the state of the first task with id `id` set to `st` (and
/// its end time to `done`, where given); unchanged without such a task.
pub open spec fn with_state<P>(s: Seq<TaskRow<P>>, id: u128, st: TaskState, done: Option<i64>) -> Seq<
    TaskRow<P>,
> {
    match first_with_id(s, id) {
        Some(i) => s.update(
            i,
            TaskRow {
                state: st,
                completed_at: if done is Some { done } else { s[i].completed_at },
                ..s[i]
            },
        ),
        None => s,
    }
}

pub proof fn lemma_first_with_id<P>(s: Seq<TaskRow<P>>, id: u128)
    ensures
        match first_with_id(s, id) {
            Some(i) => 0 <= i < s.len() && s[i].id == id && forall|j: int| 0 <= j < i ==> s[j].id != id,
            None => forall|j: int| 0 <= j < s.len() ==> s[j].id != id,
        },
    decreases s.len(),
{
    if s.len() > 0 && s[0].id != id {
        lemma_first_with_id(s.drop_first(), id);
        match first_with_id(s.drop_first(), id) {
            Some(i) => {
                assert forall|j: int| 0 <= j < i + 1 implies s[j].id != id by {
                    if j > 0 {
                        assert(s[j] == s.drop_first()[j - 1]);
                    }
                }
            },
            None => {
                assert forall|j: int| 0 <= j < s.len() implies s[j].id != id by {
                    if j > 0 {
                        assert(s[j] == s.drop_first()[j - 1]);
                    }
                }
            },
        }
    }
}

pub proof fn lemma_first_with_id_at<P>(s: Seq<TaskRow<P>>, id: u128, i: int)
    requires
        0 <= i <= s.len(),
        forall|j: int| 0 <= j < i ==> s[j].id != id,
        i < s.len() ==> s[i].id == id,
    ensures
        first_with_id(s, id) == (if i < s.len() { Some(i) } else { None::<int> }),
    decreases i,
{
    if i > 0 {
        assert forall|j: int| 0 <= j < i - 1 implies s.drop_first()[j].id != id by {
            assert(s.drop_first()[j] == s[j + 1]);
        }
        lemma_first_with_id_at(s.drop_first(), id, i - 1);
    }
}

impl<P> TaskList<P> {
    /// An empty list.
    pub fn new() -> (l: Self)
        ensures
            l.tasks@.len() == 0,
    {
        TaskList { tasks: Vec::new() }
    }

    /// The positions of the tasks the filter keeps, in order.
    pub fn filtered_tasks(&self, filter: TaskFilter) -> (r: Vec<usize>)
        ensures
            r@.map_values(|i: usize| i as int) == kept_positions(self.tasks@, filter),
    {
        let mut r: Vec<usize> = Vec::new();
        let mut k: usize = 0;
        while k < self.tasks.len()
            invariant
                k <= self.tasks@.len(),
                r@.map_values(|i: usize| i as int) == kept_positions(self.tasks@.take(k as int), filter),
            decreases self.tasks@.len() - k,
        {
            let ghost s = self.tasks@;
            assert(s.take(k + 1).drop_last() =~= s.take(k as int));
            let ghost before = r@.map_values(|i: usize| i as int);
            if filter_keeps(filter, &self.tasks[k].state) {
                r.push(k);
                assert(r@.map_values(|i: usize| i as int) =~= before.push(k as int));
            }
            k = k + 1;
        }
        assert(self.tasks@.take(self.tasks@.len() as int) =~= self.tasks@);
        r
    }

    fn set_state(&mut self, id: u128, st: TaskState, done: Option<i64>)
        ensures
            final(self).tasks@ == with_state(old(self).tasks@, id, st, done),
    {
        let mut k: usize = 0;
        while k < self.tasks.len()
            invariant
                k <= self.tasks@.len(),
                self.tasks@ == old(self).tasks@,
                forall|j: int| 0 <= j < k ==> self.tasks@[j].id != id,
            decreases self.tasks@.len() - k,
        {
            if self.tasks[k].id == id {
                proof {
                    lemma_first_with_id_at(self.tasks@, id, k as int);
                }
                let ghost o = self.tasks@;
                let mut row = self.tasks.remove(k);
                row.state = st;
                if done.is_some() {
                    row.completed_at = done;
                }
                self.tasks.insert(k, row);
                assert(self.tasks@ =~= with_state(o, id, st, done));
                return;
            }
            k = k + 1;
        }
        proof {
            lemma_first_with_id_at(self.tasks@, id, k as int);
        }
    }

    /// Pauses the task with id `id`.
    pub fn pause_task(&mut self, id: u128)
        ensures
            final(self).tasks@ == with_state(old(self).tasks@, id, TaskState::Paused, None),
    {
        self.set_state(id, TaskState::Paused, None);
    }

    /// Resumes the task with id `id`.
    pub fn resume_task(&mut self, id: u128)
        ensures
            final(self).tasks@ == with_state(old(self).tasks@, id, TaskState::Downloading, None),
    {
        self.set_state(id, TaskState::Downloading, None);
    }

    /// Cancels the task with id `id`; it ended at `now`.
    pub fn cancel_task(&mut self, id: u128, now: i64)
        ensures
            final(self).tasks@ == with_state(old(self).tasks@, id, TaskState::Cancelled, Some(now)),
    {
        self.set_state(id, TaskState::Cancelled, Some(now));
    }

    /// Removes every task with id `id`.
    pub fn delete_task(&mut self, id: u128)
        ensures
            final(self).tasks@ == without_id(old(self).tasks@, id),
    {
        let ghost o = self.tasks@;
        let mut rest: Vec<TaskRow<P>> = Vec::new();
        std::mem::swap(&mut rest, &mut self.tasks);
        let mut kept: Vec<TaskRow<P>> = Vec::new();
        let ghost mut k: int = 0;
        assert(o.take(0) =~= Seq::<TaskRow<P>>::empty());
        while rest.len() > 0
            invariant
                0 <= k <= o.len(),
                rest@ == o.skip(k),
                kept@ == without_id(o.take(k), id),
            decreases rest@.len(),
        {
            let row = rest.remove(0);
            proof {
                assert(row == o[k]);
                assert(o.take(k + 1).drop_last() =~= o.take(k));
                assert(o.take(k + 1).last() == row);
            }
            if row.id != id {
                kept.push(row);
            }
            proof {
                k = k + 1;
                assert(rest@ =~= o.skip(k));
            }
        }
        assert(o.take(k) =~= o);
        self.tasks = kept;
    }

    /// Removes the completed tasks and returns their ids, in order.
    pub fn clear_completed(&mut self) -> (ids: Vec<u128>)
        ensures
            final(self).tasks@ == not_completed(old(self).tasks@),
            ids@ == completed_ids(old(self).tasks@),
    {
        let ghost o = self.tasks@;
        let mut rest: Vec<TaskRow<P>> = Vec::new();
        std::mem::swap(&mut rest, &mut self.tasks);
        let mut kept: Vec<TaskRow<P>> = Vec::new();
        let mut ids: Vec<u128> = Vec::new();
        let ghost mut k: int = 0;
        assert(o.take(0) =~= Seq::<TaskRow<P>>::empty());
        while rest.len() > 0
            invariant
                0 <= k <= o.len(),
                rest@ == o.skip(k),
                kept@ == not_completed(o.take(k)),
                ids@ == completed_ids(o.take(k)),
            decreases rest@.len(),
        {
            let row = rest.remove(0);
            proof {
                assert(row == o[k]);
                assert(o.take(k + 1).drop_last() =~= o.take(k));
                assert(o.take(k + 1).last() == row);
            }
            let done = match row.state {
                TaskState::Completed => true,
                _ => false,
            };
            if done {
                ids.push(row.id);
            } else {
                kept.push(row);
            }
            proof {
                k = k + 1;
                assert(rest@ =~= o.skip(k));
            }
        }
        assert(o.take(k) =~= o);
        self.tasks = kept;
        ids
    }

    /// Some task is completed (the "clear completed" button is offered).
    pub fn has_completed(&self) -> (b: bool)
        ensures
            b == exists|i: int| 0 <= i < self.tasks@.len() && #[trigger] self.tasks@[i].state is Completed,
    {
        let mut k: usize = 0;
        while k < self.tasks.len()
            invariant
                k <= self.tasks@.len(),
                forall|i: int| 0 <= i < k ==> !(#[trigger] self.tasks@[i].state is Completed),
            decreases self.tasks@.len() - k,
        {
            match self.tasks[k].state {
                TaskState::Completed => {
                    return true;
                },
                _ => {},
            }
            k = k + 1;
        }
        false
    }
}

/// The icon, colour (`0xRRGGBB`) and text of a task's state.
pub open spec fn state_badge(s: TaskState) -> (Seq<char>, u32, Seq<char>) {
    match s {
        TaskState::Queued => ("⏳"@, 0xfbbf24, "等待中"@),
        TaskState::Downloading => ("⬇️"@, 0x3b82f6, "下载中"@),
        TaskState::Paused => ("⏸️"@, 0xf59e0b, "已暂停"@),
        TaskState::Completed => ("✅"@, 0x22c55e, "已完成"@),
        TaskState::Failed(_) => ("❌"@, 0xef4444, "失败"@),
        TaskState::Cancelled => ("🚫"@, 0x6b7280, "已取消"@),
    }
}

/// The title of a task: its own, or the last `/`-separated part of its address.
pub open spec fn task_title(title: Option<Seq<char>>, url: Seq<char>) -> Seq<char> {
    match title {
        Some(t) => t,
        None => match rfind_char(url, '/') {
            Some(i) => url.skip(i + 1),
            None => url,
        },
    }
}

/// What the row of a task shows.
pub struct TaskItemView {
    pub icon: String,
    pub rgb: u32,
    pub status_text: String,
    pub title: String,
    /// The progress bar and percentage
    pub show_progress: bool,
    /// The speed
    pub show_speed: bool,
    pub pause_button: bool,
    pub resume_button: bool,
    pub cancel_button: bool,
    pub open_folder_button: bool,
    pub delete_button: bool,
}

/// What the row of a task with this state, title and address shows: the
/// state's badge; progress while under way; speed while downloading; pause
/// while downloading, resume while paused, cancel while under way, open
/// folder once completed, delete once no longer under way.
pub fn task_item_view(state: &TaskState, title: &Option<String>, url: &str) -> (v: TaskItemView)
    ensures
        v.icon@ == state_badge(*state).0,
        v.rgb == state_badge(*state).1,
        v.status_text@ == state_badge(*state).2,
        v.title@ == task_title(opt_view(*title), url@),
        v.show_progress == is_active(*state),
        v.show_speed == (*state is Downloading),
        v.pause_button == (*state is Downloading),
        v.resume_button == (*state is Paused),
        v.cancel_button == is_active(*state),
        v.open_folder_button == (*state is Completed),
        v.delete_button == !is_active(*state),
{
    let (icon, rgb, text): (String, u32, String) = match state {
        TaskState::Queued => (owned("⏳"), 0xfbbf24, owned("等待中")),
        TaskState::Downloading => (owned("⬇️"), 0x3b82f6, owned("下载中")),
        TaskState::Paused => (owned("⏸️"), 0xf59e0b, owned("已暂停")),
        TaskState::Completed => (owned("✅"), 0x22c55e, owned("已完成")),
        TaskState::Failed(_) => (owned("❌"), 0xef4444, owned("失败")),
        TaskState::Cancelled => (owned("🚫"), 0x6b7280, owned("已取消")),
    };
    let t = match title {
        Some(t) => t.clone(),
        None => {
            let v = chars_of(url);
            match rfind_char_chars(&v, '/') {
                Some(i) => {
                    proof {
                        crate::download::lemma_rfind_char_bound(v@, '/');
                    }
                    let n = v.len();
                    let w = slice_range(&v, i + 1, n);
                    assert(w@ =~= v@.skip(i + 1));
                    string_of(&w)
                },
                None => owned(url),
            }
        },
    };
    let downloading = match state {
        TaskState::Downloading => true,
        _ => false,
    };
    let paused = match state {
        TaskState::Paused => true,
        _ => false,
    };
    let completed = match state {
        TaskState::Completed => true,
        _ => false,
    };
    let active = match state {
        TaskState::Downloading | TaskState::Paused | TaskState::Queued => true,
        _ => false,
    };
    TaskItemView {
        icon,
        rgb,
        status_text: text,
        title: t,
        show_progress: active,
        show_speed: downloading,
        pause_button: downloading,
        resume_button: paused,
        cancel_button: active,
        open_folder_button: completed,
        delete_button: !active,
    }
}

/// What happened to a task, as the application announces it.
#[derive(Debug, Clone, Copy, PartialEq, Eq, Structural)]
pub enum TaskNotice {
    Started,
    Paused,
    Resumed,
    Cancelled,
}

/// The title, text and kind of the announcement of `n` about `subject`
/// (the address of a started download, the id of any other task).
pub open spec fn notice_text(n: TaskNotice, subject: Seq<char>) -> (Seq<char>, Seq<char>, NotificationType) {
    match n {
        TaskNotice::Started => ("下载开始"@, "开始下载: "@ + subject, NotificationType::Info),
        TaskNotice::Paused => ("下载已暂停"@, "任务 "@ + subject + " 已暂停"@, NotificationType::Warning),
        TaskNotice::Resumed => ("下载已恢复"@, "任务 "@ + subject + " 已恢复"@, NotificationType::Info),
        TaskNotice::Cancelled => ("下载已取消"@, "任务 "@ + subject + " 已取消"@, NotificationType::Warning),
    }
}

/// The announcement of `n` about `subject` (see `notice_text`).
pub fn task_notice(n: TaskNotice, subject: &str) -> (m: NotificationMessage)
    ensures
        m.title@ == notice_text(n, subject@).0,
        m.message@ == notice_text(n, subject@).1,
        m.notification_type == notice_text(n, subject@).2,
{
    match n {
        TaskNotice::Started => {
            let mut msg = owned("开始下载: ");
            push_str(&mut msg, subject);
            NotificationMessage { title: owned("下载开始"), message: msg, notification_type: NotificationType::Info }
        },
        TaskNotice::Paused => {
            let mut msg = owned("任务 ");
            push_str(&mut msg, subject);
            push_str(&mut msg, " 已暂停");
            NotificationMessage { title: owned("下载已暂停"), message: msg, notification_type: NotificationType::Warning }
        },
        TaskNotice::Resumed => {
            let mut msg = owned("任务 ");
            push_str(&mut msg, subject);
            push_str(&mut msg, " 已恢复");
            NotificationMessage { title: owned("下载已恢复"), message: msg, notification_type: NotificationType::Info }
        },
        TaskNotice::Cancelled => {
            let mut msg = owned("任务 ");
            push_str(&mut msg, subject);
            push_str(&mut msg, " 已取消");
            NotificationMessage { title: owned("下载已取消"), message: msg, notification_type: NotificationType::Warning }
        },
    }
}


/// What the header and the filter bar of the task page show.
pub struct TaskPageHeader {
    /// `共 {n} 个任务`
    pub count_text: String,
    /// The "clear completed" button is disabled
    pub clear_disabled: bool,
}

impl<P> TaskList<P> {
    /// What the header shows: the number of tasks, and whether there are
    /// completed tasks to clear.
    pub fn header(&self) -> (h: TaskPageHeader)
        ensures
            h.count_text@ == "共 "@ + decimal(self.tasks@.len()) + " 个任务"@,
            h.clear_disabled == !exists|i: int| 0 <= i < self.tasks@.len() && #[trigger] self.tasks@[i].state is Completed,
    {
        let mut count_text = owned("共 ");
        push_chars(&mut count_text, &u64_to_decimal(self.tasks.len() as u64));
        push_str(&mut count_text, " 个任务");
        TaskPageHeader { count_text, clear_disabled: !self.has_completed() }
    }
}

/// The look of a filter's button: the active filter stands out.
pub fn filter_button_style(filter: TaskFilter, active: TaskFilter) -> (s: ButtonStyle)
    ensures
        s == (if filter == active { ButtonStyle::Primary } else { ButtonStyle::Subtle }),
{
    if filter == active {
        ButtonStyle::Primary
    } else {
        ButtonStyle::Subtle
    }
}

/// The folder opened for a task: the one that holds its file, when it has
/// one and the path has a parent.
pub fn folder_to_open(output_path: &Option<String>) -> (r: Option<String>)
    ensures
        opt_view(r) == match output_path {
            Some(p) => crate::paths::std_path_parent(p@),
            None => None,
        },
{
    match output_path {
        Some(p) => crate::paths::path_parent(p.as_str()),
        None => None,
    }
}

} // verus!
