//! A channel's video list: which videos are chosen, the texts of the list,
//! and the downloads started for the chosen ones.
use vstd::prelude::*;
use crate::text::{decimal, owned, push_chars, push_str, trim, trim_chars, chars_of, u64_to_decimal};

verus! {

broadcast use vstd::string::group_string_axioms;

/// A video of a channel.
#[derive(Debug, Clone)]
pub struct ChannelVideoEntry {
    pub url: String,
    pub title: String,
    /// Seconds
    pub duration: Option<u64>,
    pub thumbnail: Option<String>,
    pub selected: bool,
}

/// A channel and its videos.
#[derive(Debug, Clone)]
pub struct ChannelInfo {
    pub title: String,
    pub entries: Vec<ChannelVideoEntry>,
}

/// The entries with their choice set to `on`, otherwise unchanged.
pub open spec fn all_set(o: Seq<ChannelVideoEntry>, n: Seq<ChannelVideoEntry>, on: bool) -> bool {
    &&& n.len() == o.len()
    &&& forall|i: int| 0 <= i < o.len() ==> #[trigger] n[i] == (ChannelVideoEntry { selected: on, ..o[i] })
}

/// How many videos are chosen.
pub open spec fn chosen_count(s: Seq<ChannelVideoEntry>) -> nat
    decreases s.len(),
{
    if s.len() == 0 {
        0
    } else {
        chosen_count(s.drop_last()) + if s.last().selected { 1nat } else { 0nat }
    }
}

/// The addresses and titles of the chosen videos, in order.
pub open spec fn chosen_jobs(s: Seq<ChannelVideoEntry>) -> Seq<(Seq<char>, Seq<char>)>
    decreases s.len(),
{
    if s.len() == 0 {
        Seq::empty()
    } else if s.last().selected {
        chosen_jobs(s.drop_last()).push((s.last().url@, s.last().title@))
    } else {
        chosen_jobs(s.drop_last())
    }
}

pub proof fn lemma_chosen_count_le(s: Seq<ChannelVideoEntry>)
    ensures
        chosen_count(s) <= s.len(),
        chosen_jobs(s).len() == chosen_count(s),
    decreases s.len(),
{
    if s.len() > 0 {
        lemma_chosen_count_le(s.drop_last());
    }
}

/// A download to start: a video's address and title.
pub struct DownloadJob {
    pub url: String,
    pub title: String,
}

impl ChannelInfo {
    /// Chooses every video (done when a channel has been read).
    pub fn choose_all(&mut self, on: bool)
        ensures
            all_set(old(self).entries@, final(self).entries@, on),
            final(self).title == old(self).title,
    {
        let mut k: usize = 0;
        while k < self.entries.len()
            invariant
                k <= self.entries@.len(),
                self.entries@.len() == old(self).entries@.len(),
                self.title == old(self).title,
                forall|i: int| 0 <= i < k ==> #[trigger] self.entries@[i] == (ChannelVideoEntry {
                    selected: on,
                    ..old(self).entries@[i]
                }),
                forall|i: int| k <= i < self.entries@.len() ==> #[trigger] self.entries@[i] == old(self).entries@[i],
            decreases self.entries@.len() - k,
        {
            let mut e = self.entries.remove(k);
            e.selected = on;
            self.entries.insert(k, e);
            k = k + 1;
        }
    }

    /// Chooses the video at `index`, or unchooses it; nothing past the end.
    pub fn toggle_video(&mut self, index: usize)
        ensures
            final(self).title == old(self).title,
            index < old(self).entries@.len() ==> final(self).entries@ == old(self).entries@.update(
                index as int,
                (ChannelVideoEntry { selected: !old(self).entries@[index as int].selected, ..old(self).entries@[index as int] }),
            ),
            index >= old(self).entries@.len() ==> final(self).entries@ == old(self).entries@,
    {
        if index < self.entries.len() {
            let mut e = self.entries.remove(index);
            e.selected = !e.selected;
            self.entries.insert(index, e);
            assert(self.entries@ =~= old(self).entries@.update(
                index as int,
                (ChannelVideoEntry { selected: !old(self).entries@[index as int].selected, ..old(self).entries@[index as int] }),
            ));
        }
    }

    /// How many videos are chosen.
    pub fn selected_count(&self) -> (n: usize)
        ensures
            n == chosen_count(self.entries@),
    {
        let mut n: usize = 0;
        let mut k: usize = 0;
        while k < self.entries.len()
            invariant
                k <= self.entries@.len(),
                n == chosen_count(self.entries@.take(k as int)),
                n <= k,
            decreases self.entries@.len() - k,
        {
            assert(self.entries@.take(k + 1).drop_last() =~= self.entries@.take(k as int));
            if self.entries[k].selected {
                n = n + 1;
            }
            k = k + 1;
        }
        assert(self.entries@.take(self.entries@.len() as int) =~= self.entries@);
        n
    }

    /// The downloads for the chosen videos, in order; an error when none is chosen.
    pub fn download_jobs(&self) -> (r: Result<Vec<DownloadJob>, String>)
        ensures
            chosen_count(self.entries@) == 0 ==> (r matches Err(m) && m@ == "请至少选择一个视频"@),
            chosen_count(self.entries@) > 0 ==> (r matches Ok(v) && v@.map_values(
                |j: DownloadJob| (j.url@, j.title@),
            ) == chosen_jobs(self.entries@)),
    {
        let mut jobs: Vec<DownloadJob> = Vec::new();
        let mut k: usize = 0;
        while k < self.entries.len()
            invariant
                k <= self.entries@.len(),
                jobs@.map_values(|j: DownloadJob| (j.url@, j.title@)) == chosen_jobs(
                    self.entries@.take(k as int),
                ),
            decreases self.entries@.len() - k,
        {
            assert(self.entries@.take(k + 1).drop_last() =~= self.entries@.take(k as int));
            if self.entries[k].selected {
                let ghost before = jobs@.map_values(|j: DownloadJob| (j.url@, j.title@));
                let job = DownloadJob { url: self.entries[k].url.clone(), title: self.entries[k].title.clone() };
                jobs.push(job);
                assert(jobs@.map_values(|j: DownloadJob| (j.url@, j.title@)) =~= before.push(
                    (self.entries@[k as int].url@, self.entries@[k as int].title@),
                ));
            }
            k = k + 1;
        }
        assert(self.entries@.take(self.entries@.len() as int) =~= self.entries@);
        proof {
            lemma_chosen_count_le(self.entries@);
        }
        if jobs.len() == 0 {
            Err(owned("请至少选择一个视频"))
        } else {
            Ok(jobs)
        }
    }
}

/// Where the channel page stands: nothing asked yet, reading a channel,
/// the channel read, or the text of what went wrong.
#[derive(Debug, Clone)]
pub enum ChannelState {
    Idle,
    Parsing,
    Ready(ChannelInfo),
    Error(String),
}

impl Default for ChannelState {
    fn default() -> (s: Self)
        ensures
            s is Idle,
    {
        ChannelState::Idle
    }
}

/// The state that asking to read `url` leads to: the message for a blank
/// address, else reading.
pub fn parse_requested(url: &str) -> (s: ChannelState)
    ensures
        trim(url@).len() == 0 ==> (s matches ChannelState::Error(m) && m@ == "请输入频道链接"@),
        trim(url@).len() > 0 ==> s is Parsing,
{
    match check_channel_url(url) {
        Ok(()) => ChannelState::Parsing,
        Err(m) => ChannelState::Error(m),
    }
}

/// The state once reading the channel returned: the channel with every
/// video chosen, or the text of the error.
pub fn parse_returned(result: Result<ChannelInfo, String>) -> (s: ChannelState)
    ensures
        match result {
            Ok(info) => s matches ChannelState::Ready(r) && r.title == info.title
                && all_set(info.entries@, r.entries@, true),
            Err(e) => s matches ChannelState::Error(m) && m@ == e@,
        },
{
    match result {
        Ok(info) => ChannelState::Ready(channel_ready(info)),
        Err(e) => ChannelState::Error(e),
    }
}

/// A channel just read, with every video chosen.
pub fn channel_ready(info: ChannelInfo) -> (r: ChannelInfo)
    ensures
        all_set(info.entries@, r.entries@, true),
        r.title == info.title,
{
    let mut r = info;
    r.choose_all(true);
    r
}

/// The address typed in, if it is not blank; the message shown otherwise.
pub fn check_channel_url(url: &str) -> (r: Result<(), String>)
    ensures
        trim(url@).len() == 0 ==> (r matches Err(m) && m@ == "请输入频道链接"@),
        trim(url@).len() > 0 ==> r is Ok,
{
    let t = trim_chars(&chars_of(url));
    if t.len() == 0 {
        Err(owned("请输入频道链接"))
    } else {
        Ok(())
    }
}

/// What the header of the video list shows.
pub struct VideoListHeader {
    /// `共 {total} 个视频，已选择 {chosen}`
    pub summary: String,
    /// Every video is chosen (and there is one)
    pub all_selected: bool,
    /// `取消全选` when all are chosen, else `全选`
    pub select_all_label: String,
    /// `下载选中 ({chosen})`
    pub download_label: String,
    /// Nothing is chosen
    pub download_disabled: bool,
}

/// What the header of the video list shows for `chosen` of `total` videos.
pub fn video_list_header(chosen: usize, total: usize) -> (h: VideoListHeader)
    ensures
        h.summary@ == "共 "@ + decimal(total as nat) + " 个视频，已选择 "@ + decimal(chosen as nat),
        h.all_selected == (chosen == total && total > 0),
        h.select_all_label@ == (if chosen == total && total > 0 { "取消全选"@ } else { "全选"@ }),
        h.download_label@ == "下载选中 ("@ + decimal(chosen as nat) + ")"@,
        h.download_disabled == (chosen == 0),
{
    let mut summary = owned("共 ");
    push_chars(&mut summary, &u64_to_decimal(total as u64));
    push_str(&mut summary, " 个视频，已选择 ");
    push_chars(&mut summary, &u64_to_decimal(chosen as u64));
    let all = chosen == total && total > 0;
    let mut download = owned("下载选中 (");
    push_chars(&mut download, &u64_to_decimal(chosen as u64));
    push_str(&mut download, ")");
    VideoListHeader {
        summary,
        all_selected: all,
        select_all_label: if all { owned("取消全选") } else { owned("全选") },
        download_label: download,
        download_disabled: chosen == 0,
    }
}

/// The notice shown once downloads were started for `count` videos.
pub fn jobs_added_message(count: usize) -> (r: String)
    ensures
        r@ == "已添加 "@ + decimal(count as nat) + " 个下载任务"@,
{
    let mut s = owned("已添加 ");
    push_chars(&mut s, &u64_to_decimal(count as u64));
    push_str(&mut s, " 个下载任务");
    s
}

/// The position label of the video at `index`: `#{index + 1}`.
pub fn position_label(index: usize) -> (r: String)
    requires
        index < usize::MAX,
    ensures
        r@ == seq!['#'] + decimal((index + 1) as nat),
{
    let mut s = String::new();
    s.push('#');
    push_chars(&mut s, &u64_to_decimal((index + 1) as u64));
    s
}

} // verus!
