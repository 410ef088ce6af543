//! Notifications and dialogs: the kinds of notification, the queue of the
//! visible ones, and the confirmation and error dialogs.
use vstd::prelude::*;
use crate::text::owned;

verus! {

broadcast use vstd::string::group_string_axioms;

/// The kind of a notification; a progress notification carries its
/// progress, of type `P`.
#[derive(Debug, Clone)]
pub enum NotificationType<P> {
    Info,
    Success,
    Warning,
    Error,
    Progress(P),
}

pub open spec fn type_icon<P>(t: NotificationType<P>) -> Seq<char> {
    match t {
        NotificationType::Info => "ℹ️"@,
        NotificationType::Success => "✅"@,
        NotificationType::Warning => "⚠️"@,
        NotificationType::Error => "❌"@,
        NotificationType::Progress(_) => "⏳"@,
    }
}

impl<P> NotificationType<P> {
    pub fn icon(&self) -> (r: String)
        ensures
            r@ == type_icon(*self),
    {
        match self {
            NotificationType::Info => owned("ℹ️"),
            NotificationType::Success => owned("✅"),
            NotificationType::Warning => owned("⚠️"),
            NotificationType::Error => owned("❌"),
            NotificationType::Progress(_) => owned("⏳"),
        }
    }
}

/// A button of a notification.
#[derive(Debug, Clone)]
pub struct NotificationAction {
    pub label: String,
    pub action_id: String,
}

/// A notification; `created_at` is the instant it was made (of type `I`),
/// `duration` how long it stays, in nanoseconds (none: until dismissed).
pub struct Notification<P, I> {
    pub id: String,
    pub title: String,
    pub message: Option<String>,
    pub notification_type: NotificationType<P>,
    pub created_at: I,
    pub duration: Option<u128>,
    pub dismissible: bool,
    pub actions: Vec<NotificationAction>,
}

/// Nanoseconds in `s` seconds.
pub open spec fn secs(s: nat) -> u128 {
    (s * 1_000_000_000) as u128
}

/// A notification of kind `t` titled `title`, made at `at`, staying for
/// `duration`, with a fresh 36-character id and nothing else.
pub open spec fn fresh<P, I>(
    n: Notification<P, I>,
    title: Seq<char>,
    t: NotificationType<P>,
    at: I,
    duration: Option<u128>,
    dismissible: bool,
) -> bool {
    &&& crate::ids::is_uuid_v4_text(n.id@)
    &&& n.title@ == title
    &&& n.message is None
    &&& n.notification_type == t
    &&& n.created_at == at
    &&& n.duration == duration
    &&& n.dismissible == dismissible
    &&& n.actions@.len() == 0
}

impl<P, I> Notification<P, I> {
    fn make(
        title: &str,
        t: NotificationType<P>,
        at: I,
        duration: Option<u128>,
        dismissible: bool,
    ) -> (n: Self)
        ensures
            fresh(n, title@, t, at, duration, dismissible),
    {
        Notification {
            id: crate::ids::random_id(),
            title: owned(title),
            message: None,
            notification_type: t,
            created_at: at,
            duration,
            dismissible,
            actions: Vec::new(),
        }
    }

    /// Information, staying five seconds.
    pub fn info(title: &str, at: I) -> (n: Self)
        ensures
            fresh(n, title@, NotificationType::Info, at, Some(secs(5)), true),
    {
        Self::make(title, NotificationType::Info, at, Some(5_000_000_000), true)
    }

    /// Success, staying four seconds.
    pub fn success(title: &str, at: I) -> (n: Self)
        ensures
            fresh(n, title@, NotificationType::Success, at, Some(secs(4)), true),
    {
        Self::make(title, NotificationType::Success, at, Some(4_000_000_000), true)
    }

    /// A warning, staying six seconds.
    pub fn warning(title: &str, at: I) -> (n: Self)
        ensures
            fresh(n, title@, NotificationType::Warning, at, Some(secs(6)), true),
    {
        Self::make(title, NotificationType::Warning, at, Some(6_000_000_000), true)
    }

    /// An error, staying until dismissed.
    pub fn error(title: &str, at: I) -> (n: Self)
        ensures
            fresh(n, title@, NotificationType::Error, at, None, true),
    {
        Self::make(title, NotificationType::Error, at, None, true)
    }

    /// Progress, staying until removed, not dismissible.
    pub fn progress(title: &str, progress: P, at: I) -> (n: Self)
        ensures
            fresh(n, title@, NotificationType::Progress(progress), at, None, false),
    {
        Self::make(title, NotificationType::Progress(progress), at, None, false)
    }

    pub fn with_message(self, message: &str) -> (n: Self)
        ensures
            n.message matches Some(m) && m@ == message@,
            n.id == self.id,
            n.title == self.title,
            n.notification_type == self.notification_type,
            n.created_at == self.created_at,
            n.duration == self.duration,
            n.dismissible == self.dismissible,
            n.actions == self.actions,
    {
        let mut n = self;
        n.message = Some(owned(message));
        n
    }

    /// Stays for `duration` nanoseconds.
    pub fn with_duration(self, duration: u128) -> (n: Self)
        ensures
            n.duration == Some(duration),
            n.id == self.id,
            n.title == self.title,
            n.message == self.message,
            n.notification_type == self.notification_type,
            n.created_at == self.created_at,
            n.dismissible == self.dismissible,
            n.actions == self.actions,
    {
        let mut n = self;
        n.duration = Some(duration);
        n
    }

    /// Adds a button.
    pub fn with_action(self, label: &str, action_id: &str) -> (n: Self)
        ensures
            n.actions@.len() == self.actions@.len() + 1,
            n.actions@.drop_last() == self.actions@,
            n.actions@.last().label@ == label@,
            n.actions@.last().action_id@ == action_id@,
            n.id == self.id,
            n.title == self.title,
            n.message == self.message,
            n.notification_type == self.notification_type,
            n.created_at == self.created_at,
            n.duration == self.duration,
            n.dismissible == self.dismissible,
    {
        let mut n = self;
        n.actions.push(NotificationAction { label: owned(label), action_id: owned(action_id) });
        assert(n.actions@.drop_last() =~= self.actions@);
        n
    }

    /// Whether the notification has outstayed its time, `elapsed`
    /// nanoseconds after it was made; one without a time never expires.
    pub fn is_expired(&self, elapsed: u128) -> (b: bool)
        ensures
            b == (self.duration matches Some(d) && elapsed > d),
    {
        match self.duration {
            Some(d) => elapsed > d,
            None => false,
        }
    }

    /// Sets the progress shown.
    pub fn update_progress(&mut self, progress: P)
        ensures
            final(self).notification_type == NotificationType::Progress(progress),
            final(self).id == old(self).id,
            final(self).title == old(self).title,
            final(self).message == old(self).message,
            final(self).created_at == old(self).created_at,
            final(self).duration == old(self).duration,
            final(self).dismissible == old(self).dismissible,
            final(self).actions == old(self).actions,
    {
        self.notification_type = NotificationType::Progress(progress);
    }
}

/// The visible notifications, oldest first.
pub struct NotificationContainer<P, I> {
    pub notifications: Vec<Notification<P, I>>,
    pub max_visible: usize,
}

/// The last `n` items (all of them where there are fewer).
pub open spec fn newest<T>(s: Seq<T>, n: nat) -> Seq<T> {
    if s.len() <= n {
        s
    } else {
        s.skip(s.len() - n)
    }
}

/// The notifications without those with id `id`.
pub open spec fn without_notification<P, I>(s: Seq<Notification<P, I>>, id: Seq<char>) -> Seq<
    Notification<P, I>,
>
    decreases s.len(),
{
    if s.len() == 0 {
        Seq::empty()
    } else if s.last().id@ == id {
        without_notification(s.drop_last(), id)
    } else {
        without_notification(s.drop_last(), id).push(s.last())
    }
}

/// The notifications that have not expired, given how long ago each was made.
pub open spec fn unexpired<P, I>(s: Seq<Notification<P, I>>, elapsed: Seq<u128>) -> Seq<
    Notification<P, I>,
>
    decreases s.len(),
{
    if s.len() == 0 {
        Seq::empty()
    } else if s.last().duration matches Some(d) && elapsed[s.len() - 1] > d {
        unexpired(s.drop_last(), elapsed.take(s.len() - 1))
    } else {
        unexpired(s.drop_last(), elapsed.take(s.len() - 1)).push(s.last())
    }
}

impl<P, I> NotificationContainer<P, I> {
    /// No notification; at most five visible.
    pub fn new() -> (c: Self)
        ensures
            c.notifications@.len() == 0,
            c.max_visible == 5,
    {
        NotificationContainer { notifications: Vec::new(), max_visible: 5 }
    }

    /// Adds a notification, dropping the oldest beyond the visible number.
    pub fn push(&mut self, notification: Notification<P, I>)
        ensures
            final(self).notifications@ == newest(
                old(self).notifications@.push(notification),
                old(self).max_visible as nat,
            ),
            final(self).max_visible == old(self).max_visible,
    {
        let ghost all = self.notifications@.push(notification);
        self.notifications.push(notification);
        while self.notifications.len() > self.max_visible
            invariant
                self.max_visible == old(self).max_visible,
                self.notifications@.len() <= all.len(),
                self.notifications@ == all.skip(all.len() - self.notifications@.len()),
                newest(all, self.max_visible as nat) == newest(self.notifications@, self.max_visible as nat),
            decreases self.notifications@.len(),
        {
            let ghost before = self.notifications@;
            let _ = self.notifications.remove(0);
            assert(self.notifications@ =~= all.skip(all.len() - self.notifications@.len()));
            assert(newest(before, self.max_visible as nat) =~= newest(self.notifications@, self.max_visible as nat));
        }
    }

    /// Removes the notifications with id `id`.
    pub fn dismiss(&mut self, id: &str)
        ensures
            final(self).notifications@ == without_notification(old(self).notifications@, id@),
            final(self).max_visible == old(self).max_visible,
    {
        let ghost o = self.notifications@;
        let mut rest: Vec<Notification<P, I>> = Vec::new();
        std::mem::swap(&mut rest, &mut self.notifications);
        let mut kept: Vec<Notification<P, I>> = Vec::new();
        let ghost mut k: int = 0;
        assert(o.take(0) =~= Seq::<Notification<P, I>>::empty());
        while rest.len() > 0
            invariant
                0 <= k <= o.len(),
                rest@ == o.skip(k),
                kept@ == without_notification(o.take(k), id@),
            decreases rest@.len(),
        {
            let n = rest.remove(0);
            proof {
                assert(n == o[k]);
                assert(o.take(k + 1).drop_last() =~= o.take(k));
                assert(o.take(k + 1).last() == n);
            }
            if !crate::record::str_eq(n.id.as_str(), id) {
                kept.push(n);
            }
            proof {
                k = k + 1;
                assert(rest@ =~= o.skip(k));
            }
        }
        assert(o.take(k) =~= o);
        self.notifications = kept;
    }

    /// Removes the notifications that have expired; `elapsed[i]` is how
    /// long ago, in nanoseconds, the i-th was made.
    pub fn cleanup_expired(&mut self, elapsed: &Vec<u128>)
        requires
            elapsed@.len() == old(self).notifications@.len(),
        ensures
            final(self).notifications@ == unexpired(old(self).notifications@, elapsed@),
            final(self).max_visible == old(self).max_visible,
    {
        let ghost o = self.notifications@;
        let mut rest: Vec<Notification<P, I>> = Vec::new();
        std::mem::swap(&mut rest, &mut self.notifications);
        let mut kept: Vec<Notification<P, I>> = Vec::new();
        let mut k: usize = 0;
        let total = elapsed.len();
        assert(o.take(0) =~= Seq::<Notification<P, I>>::empty());
        while rest.len() > 0
            invariant
                0 <= k <= o.len(),
                total == o.len(),
                elapsed@.len() == o.len(),
                rest@ == o.skip(k as int),
                kept@ == unexpired(o.take(k as int), elapsed@.take(k as int)),
            decreases rest@.len(),
        {
            let n = rest.remove(0);
            proof {
                assert(n == o[k as int]);
                assert(o.take(k + 1).drop_last() =~= o.take(k as int));
                assert(o.take(k + 1).last() == n);
                assert(elapsed@.take(k + 1).take(k as int) =~= elapsed@.take(k as int));
                assert(elapsed@.take(k + 1)[k as int] == elapsed@[k as int]);
            }
            if !n.is_expired(elapsed[k]) {
                kept.push(n);
            }
            k = k + 1;
            assert(rest@ =~= o.skip(k as int));
        }
        assert(o.take(k as int) =~= o);
        assert(elapsed@.take(k as int) =~= elapsed@);
        self.notifications = kept;
    }

    /// Sets the progress of the first notification with id `id`.
    pub fn update_progress(&mut self, id: &str, progress: P)
        ensures
            final(self).max_visible == old(self).max_visible,
            final(self).notifications@.len() == old(self).notifications@.len(),
            forall|i: int| 0 <= i < old(self).notifications@.len() ==> {
                let o = old(self).notifications@[i];
                let n = #[trigger] final(self).notifications@[i];
                if o.id@ == id@ && (forall|j: int| 0 <= j < i ==> old(self).notifications@[j].id@ != id@) {
                    n.notification_type == NotificationType::Progress(progress) && n.id == o.id
                        && n.title == o.title && n.message == o.message && n.created_at == o.created_at
                        && n.duration == o.duration && n.dismissible == o.dismissible && n.actions == o.actions
                } else {
                    n == o
                }
            },
    {
        let mut k: usize = 0;
        while k < self.notifications.len()
            invariant
                k <= self.notifications@.len(),
                self.notifications@ == old(self).notifications@,
                self.max_visible == old(self).max_visible,
                forall|j: int| 0 <= j < k ==> self.notifications@[j].id@ != id@,
            decreases self.notifications@.len() - k,
        {
            if crate::record::str_eq(self.notifications[k].id.as_str(), id) {
                let mut n = self.notifications.remove(k);
                n.update_progress(progress);
                self.notifications.insert(k, n);
                return;
            }
            k = k + 1;
        }
    }

    /// Removes every notification.
    pub fn clear(&mut self)
        ensures
            final(self).notifications@.len() == 0,
            final(self).max_visible == old(self).max_visible,
    {
        self.notifications.clear();
    }
}

/// A dialog asking to confirm an action.
pub struct ConfirmDialog {
    pub visible: bool,
    pub title: String,
    pub message: String,
    pub confirm_label: String,
    pub cancel_label: String,
    /// The action destroys something
    pub is_danger: bool,
}

impl ConfirmDialog {
    /// Hidden, with the usual buttons.
    pub fn new(title: &str, message: &str) -> (d: Self)
        ensures
            !d.visible,
            d.title@ == title@,
            d.message@ == message@,
            d.confirm_label@ == "确定"@,
            d.cancel_label@ == "取消"@,
            !d.is_danger,
    {
        ConfirmDialog {
            visible: false,
            title: owned(title),
            message: owned(message),
            confirm_label: owned("确定"),
            cancel_label: owned("取消"),
            is_danger: false,
        }
    }

    /// Hidden, for an action that deletes.
    pub fn danger(title: &str, message: &str) -> (d: Self)
        ensures
            !d.visible,
            d.title@ == title@,
            d.message@ == message@,
            d.confirm_label@ == "确定删除"@,
            d.cancel_label@ == "取消"@,
            d.is_danger,
    {
        ConfirmDialog {
            visible: false,
            title: owned(title),
            message: owned(message),
            confirm_label: owned("确定删除"),
            cancel_label: owned("取消"),
            is_danger: true,
        }
    }

    pub fn show(&mut self)
        ensures
            final(self).visible,
            final(self).title == old(self).title,
            final(self).message == old(self).message,
            final(self).confirm_label == old(self).confirm_label,
            final(self).cancel_label == old(self).cancel_label,
            final(self).is_danger == old(self).is_danger,
    {
        self.visible = true;
    }

    pub fn close(&mut self)
        ensures
            !final(self).visible,
            final(self).title == old(self).title,
            final(self).message == old(self).message,
            final(self).confirm_label == old(self).confirm_label,
            final(self).cancel_label == old(self).cancel_label,
            final(self).is_danger == old(self).is_danger,
    {
        self.visible = false;
    }

    pub fn with_confirm_label(self, label: &str) -> (d: Self)
        ensures
            d.confirm_label@ == label@,
            d.visible == self.visible,
            d.title == self.title,
            d.message == self.message,
            d.cancel_label == self.cancel_label,
            d.is_danger == self.is_danger,
    {
        let mut d = self;
        d.confirm_label = owned(label);
        d
    }

    pub fn with_cancel_label(self, label: &str) -> (d: Self)
        ensures
            d.cancel_label@ == label@,
            d.visible == self.visible,
            d.title == self.title,
            d.message == self.message,
            d.confirm_label == self.confirm_label,
            d.is_danger == self.is_danger,
    {
        let mut d = self;
        d.cancel_label = owned(label);
        d
    }
}

/// A panel showing an error.
pub struct ErrorPanel {
    pub visible: bool,
    pub title: String,
    pub message: String,
    pub details: Option<String>,
}

impl ErrorPanel {
    /// Hidden, without details.
    pub fn new(title: &str, message: &str) -> (p: Self)
        ensures
            !p.visible,
            p.title@ == title@,
            p.message@ == message@,
            p.details is None,
    {
        ErrorPanel { visible: false, title: owned(title), message: owned(message), details: None }
    }

    pub fn show(&mut self)
        ensures
            final(self).visible,
            final(self).title == old(self).title,
            final(self).message == old(self).message,
            final(self).details == old(self).details,
    {
        self.visible = true;
    }

    pub fn close(&mut self)
        ensures
            !final(self).visible,
            final(self).title == old(self).title,
            final(self).message == old(self).message,
            final(self).details == old(self).details,
    {
        self.visible = false;
    }

    pub fn with_details(self, details: &str) -> (p: Self)
        ensures
            p.details matches Some(d) && d@ == details@,
            p.visible == self.visible,
            p.title == self.title,
            p.message == self.message,
    {
        let mut p = self;
        p.details = Some(owned(details));
        p
    }
}


/// What the notification list reports to the page that holds it.
#[derive(Debug, Clone)]
pub enum NotificationEvent {
    /// The notification with this id was closed
    Dismiss(String),
    /// The action (second) of the notification (first) was chosen
    Action(String, String),
}

} // verus!
