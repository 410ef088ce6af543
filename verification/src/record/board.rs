//! The watched rooms and their run-time state: adding and removing rooms,
//! applying what a status check found, and starting and stopping recordings.
use vstd::prelude::*;
use crate::text::{clone_opt, opt_view, owned};
use super::{infer_platform, platform_of_url, room_status_from, room_status_of, LiveRoomStatus, LiveStatus};

verus! {

broadcast use vstd::string::group_string_axioms;

/// A watched room, as the configuration keeps it.
pub struct MonitoredRoom {
    pub id: u128,
    pub url: String,
    pub platform: String,
    pub room_id: String,
    pub anchor_name: String,
    pub monitoring_enabled: bool,
    pub cached_title: Option<String>,
    pub cached_cover_url: Option<String>,
    /// When the room was last checked (seconds since the epoch)
    pub last_checked: Option<i64>,
    /// When the room was last seen live (seconds since the epoch)
    pub last_live_at: Option<i64>,
}

/// A recording in progress.
pub struct RecordingTask {
    pub output_path: String,
    /// Seconds recorded
    pub duration: u64,
    pub recorded_bytes: u64,
}

/// What the page knows of a room while it runs (not saved).
pub struct RoomState {
    pub status: LiveRoomStatus,
    pub is_recording: bool,
    pub current_task: Option<RecordingTask>,
    pub last_error: Option<String>,
    pub cover_url: Option<String>,
    pub title: Option<String>,
}

/// A room with its run-time state.
pub struct RoomEntry {
    pub room: MonitoredRoom,
    pub state: RoomState,
}

/// What a status check of a room found.
pub struct RoomInfo {
    pub status: LiveStatus,
    pub title: String,
    pub cover_url: Option<String>,
    pub anchor_name: String,
    pub room_id: String,
}

/// The rooms of the recording page, in the order they were added.
pub struct RecordingBoard {
    pub entries: Vec<RoomEntry>,
}

/// No two rooms share an id.
pub open spec fn ids_unique(s: Seq<RoomEntry>) -> bool {
    forall|i: int, j: int|
        0 <= i < j < s.len() ==> #[trigger] s[i].room.id != #[trigger] s[j].room.id
}

/// The room at position `i` has id `id`.
pub open spec fn id_at(s: Seq<RoomEntry>, id: u128, i: int) -> bool {
    0 <= i < s.len() && s[i].room.id == id
}

/// Some room has id `id`.
pub open spec fn has_id(s: Seq<RoomEntry>, id: u128) -> bool {
    exists|i: int| id_at(s, id, i)
}

/// `n` is `o` with the entry at `i` replaced by one for which `step` holds.
pub open spec fn changed_at(o: Seq<RoomEntry>, n: Seq<RoomEntry>, i: int) -> bool {
    &&& n.len() == o.len()
    &&& forall|j: int| 0 <= j < o.len() && j != i ==> n[j] == o[j]
    &&& n[i].room.id == o[i].room.id
}

/// The ids of the watched rooms, in order.
pub open spec fn watched_ids(s: Seq<RoomEntry>) -> Seq<u128>
    decreases s.len(),
{
    if s.len() == 0 {
        Seq::empty()
    } else if s.last().room.monitoring_enabled {
        watched_ids(s.drop_last()).push(s.last().room.id)
    } else {
        watched_ids(s.drop_last())
    }
}

/// The title a check reports: none when it is empty.
pub open spec fn reported_title(info: RoomInfo) -> Option<Seq<char>> {
    if info.title@.len() == 0 {
        None
    } else {
        Some(info.title@)
    }
}

/// `b` where `a` is absent.
pub open spec fn or_keep(a: Option<Seq<char>>, b: Option<Seq<char>>) -> Option<Seq<char>> {
    if a is Some {
        a
    } else {
        b
    }
}

/// The state a room starts with when the page opens: unknown status, no
/// recording, and the title and cover kept from the last check.
pub open spec fn initial_state(s: RoomState, r: MonitoredRoom) -> bool {
    &&& s.status is Unknown
    &&& !s.is_recording
    &&& s.current_task is None
    &&& s.last_error is None
    &&& opt_view(s.cover_url) == opt_view(r.cached_cover_url)
    &&& opt_view(s.title) == opt_view(r.cached_title)
}

/// The entry of a room just added at `url` with id `id`: platform from the
/// address, no room number yet, a placeholder name, watched, nothing
/// cached; status unknown and a note that its details are being fetched.
pub open spec fn added_entry(e: RoomEntry, url: Seq<char>, id: u128) -> bool {
    &&& e.room.id == id
    &&& e.room.url@ == url
    &&& e.room.platform@ == platform_of_url(url)
    &&& e.room.room_id@ == Seq::<char>::empty()
    &&& e.room.anchor_name@ == "获取中..."@
    &&& e.room.monitoring_enabled
    &&& e.room.cached_title is None
    &&& e.room.cached_cover_url is None
    &&& e.room.last_checked is None
    &&& e.room.last_live_at is None
    &&& e.state.status is Unknown
    &&& !e.state.is_recording
    &&& e.state.current_task is None
    &&& opt_view(e.state.last_error) == Some("正在获取直播间信息..."@)
    &&& e.state.cover_url is None
    &&& e.state.title is None
}

/// A newly added room after its details arrived: number, name, title and
/// cover taken from the check, and the status it reported.
pub open spec fn filled_in(o: RoomEntry, n: RoomEntry, info: RoomInfo) -> bool {
    &&& n.room.id == o.room.id
    &&& n.room.url == o.room.url
    &&& n.room.platform == o.room.platform
    &&& n.room.room_id@ == info.room_id@
    &&& n.room.anchor_name@ == info.anchor_name@
    &&& n.room.monitoring_enabled == o.room.monitoring_enabled
    &&& opt_view(n.room.cached_title) == reported_title(info)
    &&& opt_view(n.room.cached_cover_url) == opt_view(info.cover_url)
    &&& n.room.last_checked == o.room.last_checked
    &&& n.room.last_live_at == o.room.last_live_at
    &&& n.state.status == room_status_of(info.status)
    &&& n.state.is_recording == o.state.is_recording
    &&& n.state.current_task == o.state.current_task
    &&& n.state.last_error is None
    &&& opt_view(n.state.cover_url) == opt_view(info.cover_url)
    &&& opt_view(n.state.title) == reported_title(info)
}

/// A room whose details could not be fetched: marked as failed, with the
/// error as its status.
pub open spec fn fill_failed(o: RoomEntry, n: RoomEntry, message: Seq<char>) -> bool {
    &&& n.room.id == o.room.id
    &&& n.room.url == o.room.url
    &&& n.room.platform == o.room.platform
    &&& n.room.room_id == o.room.room_id
    &&& n.room.anchor_name@ == "获取失败"@
    &&& n.room.monitoring_enabled == o.room.monitoring_enabled
    &&& n.room.cached_title == o.room.cached_title
    &&& n.room.cached_cover_url == o.room.cached_cover_url
    &&& n.room.last_checked == o.room.last_checked
    &&& n.room.last_live_at == o.room.last_live_at
    &&& errored(o.state, n.state, message)
}

/// The state after a failed check: the error as status and as last error.
pub open spec fn errored(o: RoomState, n: RoomState, message: Seq<char>) -> bool {
    &&& n.status matches LiveRoomStatus::Error(m) && m@ == message
    &&& opt_view(n.last_error) == Some(message)
    &&& n.is_recording == o.is_recording
    &&& n.current_task == o.current_task
    &&& n.cover_url == o.cover_url
    &&& n.title == o.title
}

/// A room after a periodic check: the reported status, no error, the
/// title and cover where reported; checked now, the cache refreshed where
/// the check reported something, and seen live now when it is live.
pub open spec fn checked(o: RoomEntry, n: RoomEntry, info: RoomInfo, now: i64) -> bool {
    let live = info.status == LiveStatus::Live;
    &&& n.room.id == o.room.id
    &&& n.room.url == o.room.url
    &&& n.room.platform == o.room.platform
    &&& n.room.room_id == o.room.room_id
    &&& n.room.anchor_name == o.room.anchor_name
    &&& n.room.monitoring_enabled == o.room.monitoring_enabled
    &&& opt_view(n.room.cached_title) == or_keep(reported_title(info), opt_view(o.room.cached_title))
    &&& opt_view(n.room.cached_cover_url) == or_keep(
        opt_view(info.cover_url),
        opt_view(o.room.cached_cover_url),
    )
    &&& n.room.last_checked == Some(now)
    &&& n.room.last_live_at == (if live { Some(now) } else { o.room.last_live_at })
    &&& n.state.status == room_status_of(info.status)
    &&& n.state.is_recording == o.state.is_recording
    &&& n.state.current_task == o.state.current_task
    &&& n.state.last_error is None
    &&& opt_view(n.state.title) == or_keep(reported_title(info), opt_view(o.state.title))
    &&& opt_view(n.state.cover_url) == or_keep(opt_view(info.cover_url), opt_view(o.state.cover_url))
}

/// The configuration needs saving after a check: a new title or cover was
/// cached, or the room is live.
pub open spec fn check_needs_save(o: RoomEntry, info: RoomInfo) -> bool {
    ||| reported_title(info) is Some && opt_view(o.room.cached_title) != reported_title(info)
    ||| info.cover_url is Some && opt_view(o.room.cached_cover_url) != opt_view(info.cover_url)
    ||| info.status == LiveStatus::Live
}

/// A watched room that went live and is not recording starts recording.
pub open spec fn check_starts_recording(o: RoomEntry, info: RoomInfo) -> bool {
    info.status == LiveStatus::Live && o.room.monitoring_enabled && !o.state.is_recording
}

/// What a check asks the page to do next.
#[derive(Debug, Clone, Copy, PartialEq, Eq, Structural)]
pub struct CheckOutcome {
    pub need_save: bool,
    pub start_recording: bool,
}

/// Why a room was not added.
#[derive(Debug, Clone, Copy, PartialEq, Eq, Structural)]
pub enum AddRoomError {
    /// A room with the same address is already watched
    AlreadyWatched,
    /// A room with the same id is already on the board
    IdInUse,
}

/// Why a recording was not started.
#[derive(Debug, Clone, Copy, PartialEq, Eq, Structural)]
pub enum StartRefusal {
    NoSuchRoom,
    NotLive,
    AlreadyRecording,
}

/// Why a room was not removed.
#[derive(Debug, Clone, Copy, PartialEq, Eq, Structural)]
pub enum RemoveRefusal {
    /// The room is recording; the recording must be stopped first
    Recording,
}

/// What stopping a recording leaves to do.
pub struct StopPlan {
    /// The file that was being written
    pub output_path: Option<String>,
    /// Convert that file to MP4
    pub transcode: bool,
    /// The name of the room's anchor (empty when the room is unknown)
    pub anchor_name: String,
}

/// A room with the address `url` is already on the board.
pub open spec fn has_url(s: Seq<RoomEntry>, url: Seq<char>) -> bool {
    exists|i: int| 0 <= i < s.len() && #[trigger] s[i].room.url@ == url
}

/// `n` and `r` are what adding the room at `url` under `id` to `o` gives:
/// a refusal when the address is already watched, else `o` with the new
/// room at the end.
pub open spec fn room_added(
    o: Seq<RoomEntry>,
    n: Seq<RoomEntry>,
    url: Seq<char>,
    id: u128,
    r: Result<(), AddRoomError>,
) -> bool {
    if has_url(o, url) {
        r == Err::<(), AddRoomError>(AddRoomError::AlreadyWatched) && n == o
    } else if has_id(o, id) {
        r == Err::<(), AddRoomError>(AddRoomError::IdInUse) && n == o
    } else {
        &&& r is Ok
        &&& n.len() == o.len() + 1
        &&& n.drop_last() == o
        &&& added_entry(n.last(), url, id)
    }
}

/// `n` and `r` are what removing the room `id` from `o` gives: nothing to
/// remove without such a room, a refusal while it records, else `o`
/// without it.
pub open spec fn room_removed(o: Seq<RoomEntry>, n: Seq<RoomEntry>, id: u128, r: Result<bool, RemoveRefusal>) -> bool {
    &&& !has_id(o, id) ==> r == Ok::<bool, RemoveRefusal>(false) && n == o
    &&& forall|i: int| #[trigger] id_at(o, id, i) ==> if o[i].state.is_recording {
        r == Err::<bool, RemoveRefusal>(RemoveRefusal::Recording) && n == o
    } else {
        r == Ok::<bool, RemoveRefusal>(true) && n == o.remove(i)
    }
}

/// `n` is `o` with watching of the room `id` turned over and nothing else
/// changed (`o` itself without such a room).
pub open spec fn monitoring_toggled(o: Seq<RoomEntry>, n: Seq<RoomEntry>, id: u128) -> bool {
    &&& !has_id(o, id) ==> n == o
    &&& forall|i: int| #[trigger] id_at(o, id, i) ==> {
        let a = o[i];
        let b = n[i];
        &&& changed_at(o, n, i)
        &&& b.room.monitoring_enabled == !a.room.monitoring_enabled
        &&& b.room.url == a.room.url
        &&& b.room.platform == a.room.platform
        &&& b.room.room_id == a.room.room_id
        &&& b.room.anchor_name == a.room.anchor_name
        &&& b.room.cached_title == a.room.cached_title
        &&& b.room.cached_cover_url == a.room.cached_cover_url
        &&& b.room.last_checked == a.room.last_checked
        &&& b.room.last_live_at == a.room.last_live_at
        &&& b.state == a.state
    }
}

/// Why a recording of the room `e` cannot start now, if it cannot.
pub open spec fn refusal_of(e: RoomEntry) -> Option<StartRefusal> {
    if !(e.state.status is Live) {
        Some(StartRefusal::NotLive)
    } else if e.state.is_recording {
        Some(StartRefusal::AlreadyRecording)
    } else {
        None
    }
}

/// Why a recording of the room `id` of `s` cannot start now, if it cannot.
pub open spec fn start_refused(s: Seq<RoomEntry>, id: u128, r: Option<StartRefusal>) -> bool {
    &&& !has_id(s, id) ==> r == Some(StartRefusal::NoSuchRoom)
    &&& forall|i: int| #[trigger] id_at(s, id, i) ==> r == refusal_of(s[i])
}

/// `n` is `o` with the room `id` recording into `output_path`, with
/// nothing recorded yet, and nothing else changed.
pub open spec fn recording_marked(o: Seq<RoomEntry>, n: Seq<RoomEntry>, id: u128, output_path: String) -> bool {
    &&& !has_id(o, id) ==> n == o
    &&& forall|i: int| #[trigger] id_at(o, id, i) ==> {
        let a = o[i];
        let b = n[i];
        &&& changed_at(o, n, i)
        &&& b.room == a.room
        &&& b.state.status == a.state.status
        &&& b.state.is_recording
        &&& b.state.current_task matches Some(t) && t.output_path == output_path
            && t.duration == 0 && t.recorded_bytes == 0
        &&& b.state.last_error == a.state.last_error
        &&& b.state.cover_url == a.state.cover_url
        &&& b.state.title == a.state.title
    }
}

/// `n` and `plan` are what stopping the recording of the room `id` of `o`
/// gives: the room no longer records and has no task; the plan names the
/// file that was written and asks for conversion when `auto_transcode` is
/// on and there was a file.
pub open spec fn recording_stopped(
    o: Seq<RoomEntry>,
    n: Seq<RoomEntry>,
    id: u128,
    auto_transcode: bool,
    plan: StopPlan,
) -> bool {
    &&& !has_id(o, id) ==> n == o && plan.output_path is None && !plan.transcode
        && plan.anchor_name@.len() == 0
    &&& forall|i: int| #[trigger] id_at(o, id, i) ==> {
        let a = o[i];
        let b = n[i];
        &&& changed_at(o, n, i)
        &&& b.room == a.room
        &&& b.state.status == a.state.status
        &&& !b.state.is_recording
        &&& b.state.current_task is None
        &&& b.state.last_error == a.state.last_error
        &&& b.state.cover_url == a.state.cover_url
        &&& b.state.title == a.state.title
        &&& plan.output_path == (match a.state.current_task {
            Some(t) => Some(t.output_path),
            None => None,
        })
        &&& plan.transcode == (auto_transcode && a.state.current_task is Some)
        &&& plan.anchor_name == a.room.anchor_name
    }
}

pub proof fn lemma_remove_insert(s: Seq<RoomEntry>, i: int, e: RoomEntry)
    requires
        0 <= i < s.len(),
    ensures
        s.remove(i).insert(i, e) == s.update(i, e),
{
    assert(s.remove(i).insert(i, e) =~= s.update(i, e));
}

impl MonitoredRoom {
    /// A copy of the room.
    pub fn duplicate(&self) -> (r: Self)
        ensures
            r == *self,
    {
        MonitoredRoom {
            id: self.id,
            url: self.url.clone(),
            platform: self.platform.clone(),
            room_id: self.room_id.clone(),
            anchor_name: self.anchor_name.clone(),
            monitoring_enabled: self.monitoring_enabled,
            cached_title: clone_opt(&self.cached_title),
            cached_cover_url: clone_opt(&self.cached_cover_url),
            last_checked: self.last_checked,
            last_live_at: self.last_live_at,
        }
    }
}

fn opt_eq(a: &Option<String>, b: &Option<String>) -> (r: bool)
    ensures
        r == (opt_view(*a) == opt_view(*b)),
{
    match (a, b) {
        (Some(x), Some(y)) => {
            let r = *x == *y;
            if r {
                assert(opt_view(*a) == opt_view(*b));
            } else {
                assert(opt_view(*a) != opt_view(*b)) by {
                    assert(opt_view(*a)->0 != opt_view(*b)->0);
                }
            }
            r
        },
        (None, None) => true,
        _ => false,
    }
}

/// Some room of `s` has id `id`.
pub open spec fn room_id_in(s: Seq<MonitoredRoom>, id: u128) -> bool {
    exists|i: int| 0 <= i < s.len() && s[i].id == id
}

/// The rooms of `s` with each id kept once, at its first place.
pub open spec fn first_of_each_id(s: Seq<MonitoredRoom>) -> Seq<MonitoredRoom>
    decreases s.len(),
{
    if s.len() == 0 {
        Seq::empty()
    } else if exists|i: int| 0 <= i < s.len() - 1 && s[i].id == s.last().id {
        first_of_each_id(s.drop_last())
    } else {
        first_of_each_id(s.drop_last()).push(s.last())
    }
}

impl RecordingBoard {
    pub open spec fn wf(&self) -> bool {
        ids_unique(self.entries@)
    }

    /// The board for the rooms kept in the configuration, each with its
    /// starting state; a room whose id an earlier room already has is left
    /// out, since an id names one room.
    pub fn new(rooms: Vec<MonitoredRoom>) -> (b: Self)
        ensures
            b.wf(),
            b.entries@.len() == first_of_each_id(rooms@).len(),
            forall|i: int|
                0 <= i < b.entries@.len() ==> #[trigger] b.entries@[i].room == first_of_each_id(rooms@)[i]
                    && initial_state(b.entries@[i].state, first_of_each_id(rooms@)[i]),
    {
        let mut entries: Vec<RoomEntry> = Vec::new();
        let mut k: usize = 0;
        while k < rooms.len()
            invariant
                k <= rooms@.len(),
                ids_unique(entries@),
                entries@.len() == first_of_each_id(rooms@.take(k as int)).len(),
                forall|i: int|
                    0 <= i < entries@.len() ==> #[trigger] entries@[i].room == first_of_each_id(rooms@.take(k as int))[i]
                        && initial_state(entries@[i].state, first_of_each_id(rooms@.take(k as int))[i]),
                forall|x: u128| has_id(entries@, x) <==> room_id_in(rooms@.take(k as int), x),
            decreases rooms@.len() - k,
        {
            let ghost pre = rooms@.take(k as int);
            let ghost next = rooms@.take(k + 1);
            assert(next.drop_last() =~= pre);
            assert(next.last() == rooms@[k as int]);
            let id = rooms[k].id;
            let mut found = false;
            let mut j: usize = 0;
            while j < entries.len()
                invariant
                    j <= entries@.len(),
                    !found ==> forall|q: int| 0 <= q < j ==> entries@[q].room.id != id,
                    found ==> has_id(entries@, id),
                decreases entries@.len() - j,
            {
                if entries[j].room.id == id {
                    assert(id_at(entries@, id, j as int));
                    found = true;
                }
                j = j + 1;
            }
            proof {
                assert(room_id_in(pre, id) == exists|i: int| 0 <= i < next.len() - 1 && next[i].id == next.last().id) by {
                    if room_id_in(pre, id) {
                        let i = choose|i: int| 0 <= i < pre.len() && pre[i].id == id;
                        assert(next[i] == pre[i]);
                    }
                    if exists|i: int| 0 <= i < next.len() - 1 && next[i].id == next.last().id {
                        let i = choose|i: int| 0 <= i < next.len() - 1 && next[i].id == next.last().id;
                        assert(pre[i] == next[i]);
                    }
                }
                if !found {
                    assert(!has_id(entries@, id)) by {
                        if has_id(entries@, id) {
                            let q = choose|q: int| id_at(entries@, id, q);
                        }
                    }
                }
            }
            let ghost before = entries@;
            if !found {
                let room = rooms[k].duplicate();
                let state = RoomState {
                    status: LiveRoomStatus::Unknown,
                    is_recording: false,
                    current_task: None,
                    last_error: None,
                    cover_url: clone_opt(&room.cached_cover_url),
                    title: clone_opt(&room.cached_title),
                };
                entries.push(RoomEntry { room, state });
                proof {
                    assert(first_of_each_id(next) == first_of_each_id(pre).push(rooms@[k as int]));
                    assert forall|a: int, c: int|
                        0 <= a < c < entries@.len() implies #[trigger] entries@[a].room.id
                        != #[trigger] entries@[c].room.id by {
                        if c == before.len() {
                            assert(entries@[a] == before[a]);
                            assert(!id_at(before, id, a));
                        } else {
                            assert(entries@[a] == before[a]);
                            assert(entries@[c] == before[c]);
                        }
                    }
                    assert forall|i: int| 0 <= i < entries@.len() implies #[trigger] entries@[i].room
                        == first_of_each_id(next)[i] && initial_state(entries@[i].state, first_of_each_id(next)[i]) by {
                        if i < before.len() {
                            assert(entries@[i] == before[i]);
                        }
                    }
                    assert forall|x: u128| has_id(entries@, x) <==> room_id_in(next, x) by {
                        if has_id(entries@, x) {
                            let q = choose|q: int| id_at(entries@, x, q);
                            if q < before.len() {
                                assert(entries@[q] == before[q]);
                                assert(id_at(before, x, q));
                                assert(has_id(before, x));
                                assert(room_id_in(pre, x));
                                let i = choose|i: int| 0 <= i < pre.len() && pre[i].id == x;
                                assert(next[i] == pre[i]);
                            } else {
                                assert(next[k as int].id == x);
                            }
                        }
                        if room_id_in(next, x) {
                            let i = choose|i: int| 0 <= i < next.len() && next[i].id == x;
                            if i < pre.len() {
                                assert(pre[i] == next[i]);
                                assert(room_id_in(pre, x));
                                assert(has_id(before, x));
                                let q = choose|q: int| id_at(before, x, q);
                                assert(entries@[q] == before[q]);
                                assert(id_at(entries@, x, q));
                            } else {
                                assert(id_at(entries@, x, before.len() as int));
                            }
                        }
                    }
                }
            } else {
                proof {
                    assert(first_of_each_id(next) == first_of_each_id(pre));
                    assert forall|x: u128| has_id(entries@, x) <==> room_id_in(next, x) by {
                        if room_id_in(next, x) {
                            let i = choose|i: int| 0 <= i < next.len() && next[i].id == x;
                            if i < pre.len() {
                                assert(pre[i] == next[i]);
                                assert(room_id_in(pre, x));
                            }
                        }
                        if room_id_in(pre, x) {
                            let i = choose|i: int| 0 <= i < pre.len() && pre[i].id == x;
                            assert(next[i] == pre[i]);
                        }
                    }
                }
            }
            k = k + 1;
        }
        assert(rooms@.take(rooms@.len() as int) =~= rooms@);
        RecordingBoard { entries }
    }

    /// The position of the room with id `id`.
    pub fn position(&self, id: u128) -> (r: Option<usize>)
        ensures
            match r {
                Some(i) => id_at(self.entries@, id, i as int),
                None => !has_id(self.entries@, id),
            },
    {
        let mut k: usize = 0;
        while k < self.entries.len()
            invariant
                k <= self.entries@.len(),
                forall|j: int| 0 <= j < k ==> self.entries@[j].room.id != id,
            decreases self.entries@.len() - k,
        {
            if self.entries[k].room.id == id {
                return Some(k);
            }
            k = k + 1;
        }
        None
    }

    /// The ids of the watched rooms, in order: those a periodic check visits.
    pub fn rooms_to_check(&self) -> (r: Vec<u128>)
        ensures
            r@ == watched_ids(self.entries@),
    {
        let mut r: Vec<u128> = Vec::new();
        let mut k: usize = 0;
        while k < self.entries.len()
            invariant
                k <= self.entries@.len(),
                r@ == watched_ids(self.entries@.take(k as int)),
            decreases self.entries@.len() - k,
        {
            let ghost s = self.entries@;
            assert(s.take(k + 1).drop_last() =~= s.take(k as int));
            if self.entries[k].room.monitoring_enabled {
                r.push(self.entries[k].room.id);
            }
            k = k + 1;
        }
        assert(self.entries@.take(self.entries@.len() as int) =~= self.entries@);
        r
    }

    /// Adds the room at `url` under the fresh id `id`, unless a room with
    /// the same address is already watched, or the id is already in use.
    pub fn add_room(&mut self, url: String, id: u128) -> (r: Result<(), AddRoomError>)
        requires
            old(self).wf(),
        ensures
            final(self).wf(),
            room_added(old(self).entries@, final(self).entries@, url@, id, r),
    {
        let mut k: usize = 0;
        while k < self.entries.len()
            invariant
                k <= self.entries@.len(),
                self.entries@ == old(self).entries@,
                ids_unique(self.entries@),
                forall|j: int| 0 <= j < k ==> self.entries@[j].room.url@ != url@,
            decreases self.entries@.len() - k,
        {
            if self.entries[k].room.url == url {
                assert(self.entries@[k as int].room.url@ == url@);
                return Err(AddRoomError::AlreadyWatched);
            }
            k = k + 1;
        }
        if self.position(id).is_some() {
            return Err(AddRoomError::IdInUse);
        }
        let platform = infer_platform(url.as_str());
        let room = MonitoredRoom {
            id,
            url,
            platform,
            room_id: String::new(),
            anchor_name: owned("获取中..."),
            monitoring_enabled: true,
            cached_title: None,
            cached_cover_url: None,
            last_checked: None,
            last_live_at: None,
        };
        let state = RoomState {
            status: LiveRoomStatus::Unknown,
            is_recording: false,
            current_task: None,
            last_error: Some(owned("正在获取直播间信息...")),
            cover_url: None,
            title: None,
        };
        let ghost before = self.entries@;
        self.entries.push(RoomEntry { room, state });
        assert(self.entries@.drop_last() =~= before);
        assert forall|i: int, j: int|
            0 <= i < j < self.entries@.len() implies #[trigger] self.entries@[i].room.id
            != #[trigger] self.entries@[j].room.id by {
            if j == before.len() {
                assert(!id_at(before, id, i));
            } else {
                assert(self.entries@[i] == before[i]);
                assert(self.entries@[j] == before[j]);
            }
        }
        Ok(())
    }

    fn put_back(&mut self, i: usize, e: RoomEntry, Ghost(o): Ghost<Seq<RoomEntry>>)
        requires
            ids_unique(o),
            0 <= i < o.len(),
            old(self).entries@ == o.remove(i as int),
            e.room.id == o[i as int].room.id,
        ensures
            final(self).entries@ == o.update(i as int, e),
            final(self).wf(),
            changed_at(o, final(self).entries@, i as int),
    {
        self.entries.insert(i, e);
        proof {
            lemma_remove_insert(o, i as int, e);
            let n = o.update(i as int, e);
            assert forall|a: int, b: int| 0 <= a < b < n.len() implies #[trigger] n[a].room.id
                != #[trigger] n[b].room.id by {
                assert(n[a].room.id == o[a].room.id);
                assert(n[b].room.id == o[b].room.id);
            }
        }
    }

    /// Records the details fetched for a room just added (see `filled_in`).
    pub fn apply_fetched(&mut self, id: u128, info: RoomInfo)
        requires
            old(self).wf(),
        ensures
            final(self).wf(),
            !has_id(old(self).entries@, id) ==> final(self).entries@ == old(self).entries@,
            forall|i: int| id_at(old(self).entries@, id, i) ==> changed_at(old(self).entries@, final(self).entries@, i)
                && filled_in(old(self).entries@[i], final(self).entries@[i], info),
    {
        match self.position(id) {
            None => {},
            Some(i) => {
                let ghost o = self.entries@;
                let mut e = self.entries.remove(i);
                let title = if info.title.as_str().is_empty() { None } else { Some(info.title) };
                e.room.room_id = info.room_id;
                e.room.anchor_name = info.anchor_name;
                e.room.cached_title = clone_opt(&title);
                e.room.cached_cover_url = clone_opt(&info.cover_url);
                e.state.status = room_status_from(info.status);
                e.state.last_error = None;
                e.state.cover_url = info.cover_url;
                e.state.title = title;
                self.put_back(i, e, Ghost(o));
            },
        }
    }

    /// Records that the details of a room just added could not be fetched
    /// (see `fill_failed`).
    pub fn apply_fetch_failure(&mut self, id: u128, message: String)
        requires
            old(self).wf(),
        ensures
            final(self).wf(),
            !has_id(old(self).entries@, id) ==> final(self).entries@ == old(self).entries@,
            forall|i: int| id_at(old(self).entries@, id, i) ==> changed_at(old(self).entries@, final(self).entries@, i)
                && fill_failed(old(self).entries@[i], final(self).entries@[i], message@),
    {
        match self.position(id) {
            None => {},
            Some(i) => {
                let ghost o = self.entries@;
                let mut e = self.entries.remove(i);
                e.room.anchor_name = owned("获取失败");
                e.state.status = LiveRoomStatus::Error(message.clone());
                e.state.last_error = Some(message);
                self.put_back(i, e, Ghost(o));
            },
        }
    }

    /// Records that checking a room failed: the error becomes its status
    /// and its last error (see `errored`).
    pub fn apply_check_failure(&mut self, id: u128, message: String)
        requires
            old(self).wf(),
        ensures
            final(self).wf(),
            !has_id(old(self).entries@, id) ==> final(self).entries@ == old(self).entries@,
            forall|i: int| id_at(old(self).entries@, id, i) ==> changed_at(old(self).entries@, final(self).entries@, i)
                && final(self).entries@[i].room == old(self).entries@[i].room
                && errored(old(self).entries@[i].state, final(self).entries@[i].state, message@),
    {
        match self.position(id) {
            None => {},
            Some(i) => {
                let ghost o = self.entries@;
                let mut e = self.entries.remove(i);
                e.state.status = LiveRoomStatus::Error(message.clone());
                e.state.last_error = Some(message);
                self.put_back(i, e, Ghost(o));
            },
        }
    }

    /// Applies what a periodic check of a room found (see `checked`), and
    /// says whether the configuration needs saving and whether the room
    /// should start recording.
    pub fn apply_check(&mut self, id: u128, info: RoomInfo, now: i64) -> (r: CheckOutcome)
        requires
            old(self).wf(),
        ensures
            final(self).wf(),
            !has_id(old(self).entries@, id) ==> final(self).entries@ == old(self).entries@
                && !r.need_save && !r.start_recording,
            forall|i: int| id_at(old(self).entries@, id, i) ==> changed_at(old(self).entries@, final(self).entries@, i)
                && checked(old(self).entries@[i], final(self).entries@[i], info, now)
                && r.need_save == check_needs_save(old(self).entries@[i], info)
                && r.start_recording == check_starts_recording(old(self).entries@[i], info),
    {
        match self.position(id) {
            None => CheckOutcome { need_save: false, start_recording: false },
            Some(i) => {
                let ghost o = self.entries@;
                let mut e = self.entries.remove(i);
                let is_live = info.status == LiveStatus::Live;
                let title = if info.title.as_str().is_empty() { None } else { Some(info.title) };
                let mut need_save = false;
                e.state.status = room_status_from(info.status);
                e.state.last_error = None;
                if title.is_some() {
                    e.state.title = clone_opt(&title);
                }
                if info.cover_url.is_some() {
                    e.state.cover_url = clone_opt(&info.cover_url);
                }
                e.room.last_checked = Some(now);
                if title.is_some() && !opt_eq(&e.room.cached_title, &title) {
                    e.room.cached_title = title;
                    need_save = true;
                }
                if info.cover_url.is_some() && !opt_eq(&e.room.cached_cover_url, &info.cover_url) {
                    e.room.cached_cover_url = info.cover_url;
                    need_save = true;
                }
                if is_live {
                    e.room.last_live_at = Some(now);
                    need_save = true;
                }
                let start = is_live && e.room.monitoring_enabled && !e.state.is_recording;
                self.put_back(i, e, Ghost(o));
                CheckOutcome { need_save, start_recording: start }
            },
        }
    }

    /// Marks a room as being checked; false when there is no such room.
    pub fn begin_refresh(&mut self, id: u128) -> (found: bool)
        requires
            old(self).wf(),
        ensures
            final(self).wf(),
            found == has_id(old(self).entries@, id),
            !found ==> final(self).entries@ == old(self).entries@,
            forall|i: int| id_at(old(self).entries@, id, i) ==> changed_at(old(self).entries@, final(self).entries@, i)
                && final(self).entries@[i].room == old(self).entries@[i].room
                && final(self).entries@[i].state.status is Checking
                && final(self).entries@[i].state.is_recording == old(self).entries@[i].state.is_recording
                && final(self).entries@[i].state.current_task == old(self).entries@[i].state.current_task
                && final(self).entries@[i].state.last_error == old(self).entries@[i].state.last_error
                && final(self).entries@[i].state.cover_url == old(self).entries@[i].state.cover_url
                && final(self).entries@[i].state.title == old(self).entries@[i].state.title,
    {
        match self.position(id) {
            None => false,
            Some(i) => {
                let ghost o = self.entries@;
                let mut e = self.entries.remove(i);
                e.state.status = LiveRoomStatus::Checking;
                self.put_back(i, e, Ghost(o));
                true
            },
        }
    }

    /// Applies what a refresh of a room found: like a periodic check, but
    /// the title and cover shown are replaced outright, and a placeholder
    /// anchor name (`Unknown`, `Unknown-...`) is replaced by the reported one.
    /// Returns whether the configuration needs saving.
    pub fn apply_refresh(&mut self, id: u128, info: RoomInfo, now: i64) -> (need_save: bool)
        requires
            old(self).wf(),
        ensures
            final(self).wf(),
            !has_id(old(self).entries@, id) ==> final(self).entries@ == old(self).entries@ && !need_save,
            forall|i: int| id_at(old(self).entries@, id, i) ==> {
                let o = old(self).entries@[i];
                let n = final(self).entries@[i];
                let placeholder = o.room.anchor_name@ == "Unknown"@ || crate::text::starts_with(
                    o.room.anchor_name@,
                    "Unknown-"@,
                );
                &&& changed_at(old(self).entries@, final(self).entries@, i)
                &&& n.room.url == o.room.url
                &&& n.room.platform == o.room.platform
                &&& n.room.room_id == o.room.room_id
                &&& n.room.anchor_name@ == (if placeholder { info.anchor_name@ } else { o.room.anchor_name@ })
                &&& n.room.monitoring_enabled == o.room.monitoring_enabled
                &&& opt_view(n.room.cached_title) == or_keep(reported_title(info), opt_view(o.room.cached_title))
                &&& opt_view(n.room.cached_cover_url) == or_keep(opt_view(info.cover_url), opt_view(o.room.cached_cover_url))
                &&& n.room.last_checked == Some(now)
                &&& n.room.last_live_at == (if info.status == LiveStatus::Live { Some(now) } else { o.room.last_live_at })
                &&& n.state.status == room_status_of(info.status)
                &&& n.state.is_recording == o.state.is_recording
                &&& n.state.current_task == o.state.current_task
                &&& n.state.last_error is None
                &&& opt_view(n.state.title) == reported_title(info)
                &&& opt_view(n.state.cover_url) == opt_view(info.cover_url)
                &&& need_save == (placeholder || check_needs_save(o, info))
            },
    {
        match self.position(id) {
            None => false,
            Some(i) => {
                let ghost o = self.entries@;
                let mut e = self.entries.remove(i);
                let is_live = info.status == LiveStatus::Live;
                let title = if info.title.as_str().is_empty() { None } else { Some(info.title) };
                let mut need_save = false;
                e.state.status = room_status_from(info.status);
                e.state.last_error = None;
                e.state.cover_url = clone_opt(&info.cover_url);
                e.state.title = clone_opt(&title);
                e.room.last_checked = Some(now);
                let name = crate::text::chars_of(e.room.anchor_name.as_str());
                let prefix = crate::text::chars_of("Unknown-");
                if super::str_eq(e.room.anchor_name.as_str(), "Unknown")
                    || crate::text::starts_with_chars(&name, &prefix) {
                    e.room.anchor_name = info.anchor_name;
                    need_save = true;
                }
                if title.is_some() && !opt_eq(&e.room.cached_title, &title) {
                    e.room.cached_title = title;
                    need_save = true;
                }
                if info.cover_url.is_some() && !opt_eq(&e.room.cached_cover_url, &info.cover_url) {
                    e.room.cached_cover_url = info.cover_url;
                    need_save = true;
                }
                if is_live {
                    e.room.last_live_at = Some(now);
                    need_save = true;
                }
                self.put_back(i, e, Ghost(o));
                need_save
            },
        }
    }

    /// Why a recording of the room cannot start now, if it cannot: there
    /// is no such room, it is not live, or it is already recording.
    pub fn start_refusal(&self, id: u128) -> (r: Option<StartRefusal>)
        requires
            self.wf(),
        ensures
            start_refused(self.entries@, id, r),
    {
        match self.position(id) {
            None => Some(StartRefusal::NoSuchRoom),
            Some(i) => {
                let live = match &self.entries[i].state.status {
                    LiveRoomStatus::Live => true,
                    _ => false,
                };
                if !live {
                    Some(StartRefusal::NotLive)
                } else if self.entries[i].state.is_recording {
                    Some(StartRefusal::AlreadyRecording)
                } else {
                    None
                }
            },
        }
    }

    /// Marks a room as recording into `output_path`, with nothing recorded yet.
    pub fn mark_recording(&mut self, id: u128, output_path: String)
        requires
            old(self).wf(),
        ensures
            final(self).wf(),
            recording_marked(old(self).entries@, final(self).entries@, id, output_path),
    {
        match self.position(id) {
            None => {},
            Some(i) => {
                let ghost o = self.entries@;
                let mut e = self.entries.remove(i);
                e.state.is_recording = true;
                e.state.current_task = Some(RecordingTask { output_path, duration: 0, recorded_bytes: 0 });
                self.put_back(i, e, Ghost(o));
            },
        }
    }

    /// Records that a recording could not start or ended: not recording,
    /// no task, and the error, where there is one, as the last error.
    pub fn recording_failed(&mut self, id: u128, error: Option<String>)
        requires
            old(self).wf(),
        ensures
            final(self).wf(),
            !has_id(old(self).entries@, id) ==> final(self).entries@ == old(self).entries@,
            forall|i: int| id_at(old(self).entries@, id, i) ==> {
                let o = old(self).entries@[i];
                let n = final(self).entries@[i];
                &&& changed_at(old(self).entries@, final(self).entries@, i)
                &&& n.room == o.room
                &&& n.state.status == o.state.status
                &&& !n.state.is_recording
                &&& n.state.current_task is None
                &&& n.state.last_error == (if error is Some { error } else { o.state.last_error })
                &&& n.state.cover_url == o.state.cover_url
                &&& n.state.title == o.state.title
            },
    {
        match self.position(id) {
            None => {},
            Some(i) => {
                let ghost o = self.entries@;
                let mut e = self.entries.remove(i);
                e.state.is_recording = false;
                e.state.current_task = None;
                if error.is_some() {
                    e.state.last_error = error;
                }
                self.put_back(i, e, Ghost(o));
            },
        }
    }

    /// Records the progress of a recording: its length in seconds and its size.
    pub fn update_progress(&mut self, id: u128, duration: u64, size: u64)
        requires
            old(self).wf(),
        ensures
            final(self).wf(),
            !has_id(old(self).entries@, id) ==> final(self).entries@ == old(self).entries@,
            forall|i: int| id_at(old(self).entries@, id, i) ==> {
                let o = old(self).entries@[i];
                let n = final(self).entries@[i];
                &&& changed_at(old(self).entries@, final(self).entries@, i)
                &&& n.room == o.room
                &&& n.state.status == o.state.status
                &&& n.state.is_recording == o.state.is_recording
                &&& match o.state.current_task {
                    Some(t) => n.state.current_task matches Some(u) && u.output_path == t.output_path
                        && u.duration == duration && u.recorded_bytes == size,
                    None => n.state.current_task is None,
                }
                &&& n.state.last_error == o.state.last_error
                &&& n.state.cover_url == o.state.cover_url
                &&& n.state.title == o.state.title
            },
    {
        match self.position(id) {
            None => {},
            Some(i) => {
                let ghost o = self.entries@;
                let mut e = self.entries.remove(i);
                let task = e.state.current_task;
                e.state.current_task = match task {
                    Some(t) => Some(RecordingTask { output_path: t.output_path, duration, recorded_bytes: size }),
                    None => None,
                };
                self.put_back(i, e, Ghost(o));
            },
        }
    }

    /// Records that the progress of a recording stopped coming: it has ended.
    pub fn progress_ended(&mut self, id: u128)
        requires
            old(self).wf(),
        ensures
            final(self).wf(),
            !has_id(old(self).entries@, id) ==> final(self).entries@ == old(self).entries@,
            forall|i: int| id_at(old(self).entries@, id, i) ==> {
                let o = old(self).entries@[i];
                let n = final(self).entries@[i];
                &&& changed_at(old(self).entries@, final(self).entries@, i)
                &&& n.room == o.room
                &&& n.state.status == o.state.status
                &&& !n.state.is_recording
                &&& n.state.current_task == o.state.current_task
                &&& n.state.last_error == o.state.last_error
                &&& n.state.cover_url == o.state.cover_url
                &&& n.state.title == o.state.title
            },
    {
        match self.position(id) {
            None => {},
            Some(i) => {
                let ghost o = self.entries@;
                let mut e = self.entries.remove(i);
                e.state.is_recording = false;
                self.put_back(i, e, Ghost(o));
            },
        }
    }

    /// Whether the room is recording (false when there is no such room).
    pub fn is_recording(&self, id: u128) -> (b: bool)
        requires
            self.wf(),
        ensures
            b == exists|i: int| id_at(self.entries@, id, i) && self.entries@[i].state.is_recording,
    {
        match self.position(id) {
            None => false,
            Some(i) => self.entries[i].state.is_recording,
        }
    }

    /// Stops the recording of a room: it is no longer recording and has no
    /// task; the plan names the file that was written and whether it is to
    /// be converted (when conversion is on and there was a file).
    pub fn stop_recording(&mut self, id: u128, auto_transcode: bool) -> (plan: StopPlan)
        requires
            old(self).wf(),
        ensures
            final(self).wf(),
            recording_stopped(old(self).entries@, final(self).entries@, id, auto_transcode, plan),
    {
        match self.position(id) {
            None => StopPlan { output_path: None, transcode: false, anchor_name: String::new() },
            Some(i) => {
                let ghost o = self.entries@;
                let mut e = self.entries.remove(i);
                e.state.is_recording = false;
                let task = e.state.current_task;
                e.state.current_task = None;
                let output_path = match task {
                    Some(t) => Some(t.output_path),
                    None => None,
                };
                let transcode = auto_transcode && output_path.is_some();
                let anchor_name = e.room.anchor_name.clone();
                self.put_back(i, e, Ghost(o));
                StopPlan { output_path, transcode, anchor_name }
            },
        }
    }

    /// Removes a room, unless it is recording; returns whether a room was removed.
    pub fn remove_room(&mut self, id: u128) -> (r: Result<bool, RemoveRefusal>)
        requires
            old(self).wf(),
        ensures
            final(self).wf(),
            room_removed(old(self).entries@, final(self).entries@, id, r),
    {
        match self.position(id) {
            None => Ok(false),
            Some(i) => {
                if self.entries[i].state.is_recording {
                    return Err(RemoveRefusal::Recording);
                }
                let ghost o = self.entries@;
                let _ = self.entries.remove(i);
                proof {
                    let n = o.remove(i as int);
                    assert forall|a: int, b: int| 0 <= a < b < n.len() implies #[trigger] n[a].room.id
                        != #[trigger] n[b].room.id by {
                        let oa = if a < i { a } else { a + 1 };
                        let ob = if b < i { b } else { b + 1 };
                        assert(n[a] == o[oa]);
                        assert(n[b] == o[ob]);
                    }
                }
                Ok(true)
            },
        }
    }

    /// Turns watching of a room on or off; returns whether the room exists.
    pub fn toggle_monitoring(&mut self, id: u128) -> (found: bool)
        requires
            old(self).wf(),
        ensures
            final(self).wf(),
            found == has_id(old(self).entries@, id),
            monitoring_toggled(old(self).entries@, final(self).entries@, id),
    {
        match self.position(id) {
            None => false,
            Some(i) => {
                let ghost o = self.entries@;
                let mut e = self.entries.remove(i);
                e.room.monitoring_enabled = !e.room.monitoring_enabled;
                self.put_back(i, e, Ghost(o));
                true
            },
        }
    }

    /// The rooms as the configuration keeps them, in order.
    pub fn rooms(&self) -> (r: Vec<MonitoredRoom>)
        ensures
            r@.len() == self.entries@.len(),
            forall|i: int| 0 <= i < r@.len() ==> #[trigger] r@[i] == self.entries@[i].room,
    {
        let mut r: Vec<MonitoredRoom> = Vec::new();
        let mut k: usize = 0;
        while k < self.entries.len()
            invariant
                k <= self.entries@.len(),
                r@.len() == k,
                forall|i: int| 0 <= i < k ==> #[trigger] r@[i] == self.entries@[i].room,
            decreases self.entries@.len() - k,
        {
            r.push(self.entries[k].room.duplicate());
            k = k + 1;
        }
        r
    }
}

} // verus!
