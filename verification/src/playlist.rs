//! A playlist: its videos, which of them are chosen, and the search over titles.
use vstd::prelude::*;
use crate::download::strings_of;
use crate::selection::IdSet;
use crate::home::{duration_text, format_duration};
use crate::text::{chars_of, clone_opt, contains, decimal, opt_view, owned, push_chars, push_str, u64_to_decimal};

verus! {

broadcast use vstd::string::group_string_axioms;

/// A video of a playlist.
#[derive(Debug, Clone)]
pub struct PlaylistItem {
    pub id: String,
    pub title: String,
    /// Seconds
    pub duration: Option<u64>,
    pub index: usize,
    pub thumbnail: Option<String>,
    pub uploader: Option<String>,
    pub url: String,
}

/// A playlist.
#[derive(Debug, Clone)]
pub struct PlaylistInfo {
    pub id: String,
    pub title: String,
    pub description: Option<String>,
    pub uploader: Option<String>,
    pub video_count: usize,
    pub thumbnail: Option<String>,
    pub entries: Vec<PlaylistItem>,
}

#[derive(Debug, Clone)]
pub enum PlaylistPanelState {
    Idle,
    Loading,
    Ready,
    Error(String),
}

/// How the chosen videos came about.
#[derive(Debug, Clone, Copy, PartialEq, Eq, Structural)]
pub enum SelectionMode {
    All,
    Custom,
    Range { start: usize, end: usize },
}

/// The playlist panel.
pub struct PlaylistPanel {
    pub state: PlaylistPanelState,
    pub playlist: Option<PlaylistInfo>,
    pub selected_ids: IdSet,
    pub selection_mode: SelectionMode,
    pub search_query: String,
}

/// What `str::to_lowercase` gives for a text.
pub uninterp spec fn std_to_lowercase(s: Seq<char>) -> Seq<char>;

/// `str::to_lowercase`: the text with every character in its Unicode
/// lowercase form. The contract names the result.
#[verifier::external_body]
fn to_lowercase(s: &str) -> (r: String)
    ensures
        r@ == std_to_lowercase(s@),
{
    s.to_lowercase()
}

/// The ids of the videos of a playlist.
pub open spec fn entry_ids(es: Seq<PlaylistItem>) -> Set<Seq<char>> {
    es.map_values(|e: PlaylistItem| e.id@).to_set()
}

/// The ids of the videos of the panel's playlist; none without one.
pub open spec fn all_ids(p: Option<PlaylistInfo>) -> Set<Seq<char>> {
    match p {
        Some(pl) => entry_ids(pl.entries@),
        None => Set::empty(),
    }
}

/// The videos whose title matches the search: all of them for an empty
/// search, else those whose lowercase title holds the lowercase search.
pub open spec fn matching(es: Seq<PlaylistItem>, query: Seq<char>) -> Seq<PlaylistItem>
    decreases es.len(),
{
    if es.len() == 0 {
        Seq::empty()
    } else if query.len() == 0 || contains(std_to_lowercase(es.last().title@), std_to_lowercase(query)) {
        matching(es.drop_last(), query).push(es.last())
    } else {
        matching(es.drop_last(), query)
    }
}

/// The videos whose id is chosen, in order.
pub open spec fn chosen(es: Seq<PlaylistItem>, sel: Set<Seq<char>>) -> Seq<PlaylistItem>
    decreases es.len(),
{
    if es.len() == 0 {
        Seq::empty()
    } else if sel.contains(es.last().id@) {
        chosen(es.drop_last(), sel).push(es.last())
    } else {
        chosen(es.drop_last(), sel)
    }
}

impl PlaylistItem {
    /// A copy of the item.
    pub fn duplicate(&self) -> (r: Self)
        ensures
            r == *self,
    {
        PlaylistItem {
            id: self.id.clone(),
            title: self.title.clone(),
            duration: self.duration,
            index: self.index,
            thumbnail: clone_opt(&self.thumbnail),
            uploader: clone_opt(&self.uploader),
            url: self.url.clone(),
        }
    }
}

fn ids_of(es: &Vec<PlaylistItem>) -> (r: Vec<String>)
    ensures
        strings_of(r@) == es@.map_values(|e: PlaylistItem| e.id@),
{
    let mut r: Vec<String> = Vec::new();
    let mut k: usize = 0;
    while k < es.len()
        invariant
            k <= es@.len(),
            strings_of(r@) == es@.map_values(|e: PlaylistItem| e.id@).take(k as int),
        decreases es@.len() - k,
    {
        let ghost before = strings_of(r@);
        let c = es[k].id.clone();
        assert(c@ == es@.map_values(|e: PlaylistItem| e.id@)[k as int]);
        r.push(c);
        assert(strings_of(r@) =~= before.push(c@));
        assert(strings_of(r@) =~= es@.map_values(|e: PlaylistItem| e.id@).take(k + 1));
        k = k + 1;
    }
    assert(es@.map_values(|e: PlaylistItem| e.id@).take(es@.len() as int) =~= es@.map_values(
        |e: PlaylistItem| e.id@,
    ));
    r
}

impl PlaylistPanel {
    /// No playlist, nothing chosen, everything mode, no search.
    pub fn new() -> (p: Self)
        ensures
            p.state is Idle,
            p.playlist is None,
            p.selected_ids@ == Set::<Seq<char>>::empty(),
            p.selection_mode == SelectionMode::All,
            p.search_query@.len() == 0,
    {
        PlaylistPanel {
            state: PlaylistPanelState::Idle,
            playlist: None,
            selected_ids: IdSet::new(),
            selection_mode: SelectionMode::All,
            search_query: String::new(),
        }
    }

    /// Shows a playlist with every video chosen.
    pub fn set_playlist(&mut self, playlist: PlaylistInfo)
        ensures
            final(self).playlist == Some(playlist),
            final(self).selected_ids@ == entry_ids(playlist.entries@),
            final(self).state is Ready,
            final(self).selection_mode == old(self).selection_mode,
            final(self).search_query == old(self).search_query,
    {
        let ids = ids_of(&playlist.entries);
        self.selected_ids = IdSet::of_strings(&ids);
        self.playlist = Some(playlist);
        self.state = PlaylistPanelState::Ready;
    }

    pub fn set_loading(&mut self)
        ensures
            final(self).state is Loading,
            final(self).playlist == old(self).playlist,
            final(self).selected_ids@ == old(self).selected_ids@,
            final(self).selection_mode == old(self).selection_mode,
            final(self).search_query == old(self).search_query,
    {
        self.state = PlaylistPanelState::Loading;
    }

    pub fn set_error(&mut self, error: String)
        ensures
            final(self).state == PlaylistPanelState::Error(error),
            final(self).playlist == old(self).playlist,
            final(self).selected_ids@ == old(self).selected_ids@,
            final(self).selection_mode == old(self).selection_mode,
            final(self).search_query == old(self).search_query,
    {
        self.state = PlaylistPanelState::Error(error);
    }

    /// Chooses the video `id`, or unchooses it when chosen; the choice is custom.
    pub fn toggle_item(&mut self, id: &str)
        ensures
            final(self).selected_ids@ == crate::selection::toggled(old(self).selected_ids@, id@),
            final(self).selection_mode == SelectionMode::Custom,
            final(self).playlist == old(self).playlist,
            final(self).state == old(self).state,
            final(self).search_query == old(self).search_query,
    {
        self.selected_ids.toggle(id);
        self.selection_mode = SelectionMode::Custom;
    }

    /// Chooses every video (the choice is unchanged without a playlist).
    pub fn select_all(&mut self)
        ensures
            final(self).selected_ids@ == (if old(self).playlist is Some {
                all_ids(old(self).playlist)
            } else {
                old(self).selected_ids@
            }),
            final(self).selection_mode == SelectionMode::All,
            final(self).playlist == old(self).playlist,
            final(self).state == old(self).state,
            final(self).search_query == old(self).search_query,
    {
        match &self.playlist {
            Some(pl) => {
                let ids = ids_of(&pl.entries);
                self.selected_ids = IdSet::of_strings(&ids);
            },
            None => {},
        }
        self.selection_mode = SelectionMode::All;
    }

    /// Chooses nothing.
    pub fn deselect_all(&mut self)
        ensures
            final(self).selected_ids@ == Set::<Seq<char>>::empty(),
            final(self).selection_mode == SelectionMode::Custom,
            final(self).playlist == old(self).playlist,
            final(self).state == old(self).state,
            final(self).search_query == old(self).search_query,
    {
        self.selected_ids.clear();
        self.selection_mode = SelectionMode::Custom;
    }

    /// Chooses exactly the videos that were not chosen (the choice is
    /// unchanged without a playlist).
    pub fn invert_selection(&mut self)
        ensures
            final(self).selected_ids@ == (if old(self).playlist is Some {
                all_ids(old(self).playlist).difference(old(self).selected_ids@)
            } else {
                old(self).selected_ids@
            }),
            final(self).selection_mode == SelectionMode::Custom,
            final(self).playlist == old(self).playlist,
            final(self).state == old(self).state,
            final(self).search_query == old(self).search_query,
    {
        match &self.playlist {
            Some(pl) => {
                let ids = ids_of(&pl.entries);
                let inverted = self.selected_ids.complement_in(&ids);
                self.selected_ids = inverted;
            },
            None => {},
        }
        self.selection_mode = SelectionMode::Custom;
    }

    pub fn set_search(&mut self, query: String)
        ensures
            final(self).search_query == query,
            final(self).playlist == old(self).playlist,
            final(self).selected_ids@ == old(self).selected_ids@,
            final(self).selection_mode == old(self).selection_mode,
            final(self).state == old(self).state,
    {
        self.search_query = query;
    }

    /// The videos that match the search, in order (none without a playlist).
    pub fn filtered_entries(&self) -> (r: Vec<&PlaylistItem>)
        ensures
            r@.len() == (match self.playlist {
                Some(pl) => matching(pl.entries@, self.search_query@).len(),
                None => 0,
            }),
            forall|i: int| 0 <= i < r@.len() ==> *#[trigger] r@[i] == (match self.playlist {
                Some(pl) => matching(pl.entries@, self.search_query@)[i],
                None => *r@[i],
            }),
    {
        let mut r: Vec<&PlaylistItem> = Vec::new();
        match &self.playlist {
            Some(pl) => {
                let empty = self.search_query.as_str().is_empty();
                let query = to_lowercase(self.search_query.as_str());
                let qv = chars_of(query.as_str());
                let mut k: usize = 0;
                while k < pl.entries.len()
                    invariant
                        k <= pl.entries@.len(),
                        self.playlist == Some(*pl),
                        empty == (self.search_query@.len() == 0),
                        qv@ == std_to_lowercase(self.search_query@),
                        r@.len() == matching(pl.entries@.take(k as int), self.search_query@).len(),
                        forall|i: int| 0 <= i < r@.len() ==> *#[trigger] r@[i] == matching(
                            pl.entries@.take(k as int),
                            self.search_query@,
                        )[i],
                    decreases pl.entries@.len() - k,
                {
                    assert(pl.entries@.take(k + 1).drop_last() =~= pl.entries@.take(k as int));
                    let keep = if empty {
                        true
                    } else {
                        let t = to_lowercase(pl.entries[k].title.as_str());
                        let tv = chars_of(t.as_str());
                        crate::text::contains_chars(&tv, &qv)
                    };
                    if keep {
                        r.push(&pl.entries[k]);
                    }
                    k = k + 1;
                }
                assert(pl.entries@.take(pl.entries@.len() as int) =~= pl.entries@);
            },
            None => {},
        }
        r
    }

    /// Copies of the chosen videos, in playlist order (none without a playlist).
    pub fn get_selected_items(&self) -> (r: Vec<PlaylistItem>)
        ensures
            r@ == (match self.playlist {
                Some(pl) => chosen(pl.entries@, self.selected_ids@),
                None => Seq::empty(),
            }),
    {
        let mut r: Vec<PlaylistItem> = Vec::new();
        match &self.playlist {
            Some(pl) => {
                let mut k: usize = 0;
                while k < pl.entries.len()
                    invariant
                        k <= pl.entries@.len(),
                        self.playlist == Some(*pl),
                        r@ == chosen(pl.entries@.take(k as int), self.selected_ids@),
                    decreases pl.entries@.len() - k,
                {
                    assert(pl.entries@.take(k + 1).drop_last() =~= pl.entries@.take(k as int));
                    if self.selected_ids.contains(pl.entries[k].id.as_str()) {
                        r.push(pl.entries[k].duplicate());
                    }
                    k = k + 1;
                }
                assert(pl.entries@.take(pl.entries@.len() as int) =~= pl.entries@);
            },
            None => {},
        }
        r
    }
}


/// The total length, in seconds, of the chosen videos (a video of unknown
/// length counts 0).
pub open spec fn chosen_duration(es: Seq<PlaylistItem>, sel: Set<Seq<char>>) -> nat
    decreases es.len(),
{
    if es.len() == 0 {
        0
    } else {
        chosen_duration(es.drop_last(), sel) + if sel.contains(es.last().id@) {
            match es.last().duration {
                Some(d) => d as nat,
                None => 0nat,
            }
        } else {
            0nat
        }
    }
}

/// What the header, the tool bar and the footer of the playlist show.
pub struct PlaylistPanelView {
    /// `{n} 个视频`, the count the playlist reports (none without a playlist)
    pub video_count_text: Option<String>,
    /// `取消全选` when every video is chosen, else `全选`
    pub select_all_label: String,
    /// `已选 {chosen}/{total}`
    pub chosen_text: String,
    /// `总时长: ` and the length of the chosen videos
    pub duration_text: String,
    /// `下载 {n} 个视频`
    pub download_label: String,
    pub download_disabled: bool,
}

/// What the row of a video shows.
pub struct PlaylistItemView {
    /// The row is highlighted as chosen
    pub highlighted: bool,
    /// A line separates the row from the one above
    pub top_border: bool,
    /// The position in the playlist, counted from 1
    pub index_text: String,
    pub title: String,
    pub uploader: Option<String>,
    pub duration_text: String,
}

/// What the row of `item` shows, chosen or not, first in the list or not.
pub fn playlist_item_view(item: &PlaylistItem, chosen: bool, first: bool) -> (v: PlaylistItemView)
    requires
        item.index < usize::MAX,
    ensures
        v.highlighted == chosen,
        v.top_border == !first,
        v.index_text@ == decimal((item.index + 1) as nat),
        v.title == item.title,
        opt_view(v.uploader) == opt_view(item.uploader),
        v.duration_text@ == duration_text(item.duration),
{
    let mut index_text = String::new();
    push_chars(&mut index_text, &u64_to_decimal((item.index + 1) as u64));
    proof {
        assert(index_text@ =~= decimal((item.index + 1) as nat));
    }
    PlaylistItemView {
        highlighted: chosen,
        top_border: !first,
        index_text,
        title: item.title.clone(),
        uploader: clone_opt(&item.uploader),
        duration_text: format_duration(item.duration),
    }
}

fn counted(prefix: &str, n: usize, suffix: &str) -> (r: String)
    ensures
        r@ == prefix@ + decimal(n as nat) + suffix@,
{
    let mut s = owned(prefix);
    push_chars(&mut s, &u64_to_decimal(n as u64));
    push_str(&mut s, suffix);
    s
}

/// The number of videos of the panel's playlist; none without one.
pub open spec fn entry_count(p: Option<PlaylistInfo>) -> nat {
    match p {
        Some(pl) => pl.entries@.len(),
        None => 0,
    }
}

/// The length of the chosen videos of the panel's playlist; none without one.
pub open spec fn panel_duration(p: Option<PlaylistInfo>, sel: Set<Seq<char>>) -> nat {
    match p {
        Some(pl) => chosen_duration(pl.entries@, sel),
        None => 0,
    }
}

impl PlaylistPanel {
    /// What the header, the tool bar and the footer show. The total length
    /// of the chosen videos must fit in `u64`.
    pub fn view(&self) -> (v: PlaylistPanelView)
        requires
            panel_duration(self.playlist, self.selected_ids@) <= u64::MAX,
        ensures
            match self.playlist {
                Some(pl) => opt_view(v.video_count_text) == Some(decimal(pl.video_count as nat) + " 个视频"@),
                None => v.video_count_text is None,
            },
            v.select_all_label@ == (if self.selected_ids@.len() == entry_count(self.playlist) {
                "取消全选"@
            } else {
                "全选"@
            }),
            v.chosen_text@ == "已选 "@ + decimal(self.selected_ids@.len()) + "/"@ + decimal(
                entry_count(self.playlist),
            ),
            v.duration_text@ == "总时长: "@ + duration_text(
                Some(panel_duration(self.playlist, self.selected_ids@) as u64),
            ),
            v.download_label@ == "下载 "@ + decimal(self.selected_ids@.len()) + " 个视频"@,
            v.download_disabled == (self.selected_ids@.len() == 0),
    {
        let chosen = self.selected_ids.len();
        let mut total: usize = 0;
        let mut secs: u64 = 0;
        let mut count_text: Option<String> = None;
        match &self.playlist {
            Some(pl) => {
                total = pl.entries.len();
                count_text = Some(counted("", pl.video_count, " 个视频"));
                let mut k: usize = 0;
                while k < pl.entries.len()
                    invariant
                        k <= pl.entries@.len(),
                        self.playlist == Some(*pl),
                        chosen_duration(pl.entries@, self.selected_ids@) <= u64::MAX,
                        secs == chosen_duration(pl.entries@.take(k as int), self.selected_ids@),
                    decreases pl.entries@.len() - k,
                {
                    assert(pl.entries@.take(k + 1).drop_last() =~= pl.entries@.take(k as int));
                    proof {
                        lemma_chosen_duration_prefix(pl.entries@, self.selected_ids@, k as int + 1);
                    }
                    if self.selected_ids.contains(pl.entries[k].id.as_str()) {
                        match pl.entries[k].duration {
                            Some(d) => {
                                secs = secs + d;
                            },
                            None => {},
                        }
                    }
                    k = k + 1;
                }
                assert(pl.entries@.take(pl.entries@.len() as int) =~= pl.entries@);
            },
            None => {},
        }
        let mut chosen_text = counted("已选 ", chosen, "/");
        push_chars(&mut chosen_text, &u64_to_decimal(total as u64));
        let mut duration = owned("总时长: ");
        let d = format_duration(Some(secs));
        push_str(&mut duration, d.as_str());
        proof {
            reveal_strlit("");
            if self.playlist is Some {
                assert(count_text->0@ =~= decimal(self.playlist->0.video_count as nat) + " 个视频"@);
            }
        }
        PlaylistPanelView {
            video_count_text: count_text,
            select_all_label: if chosen == total { owned("取消全选") } else { owned("全选") },
            chosen_text,
            duration_text: duration,
            download_label: counted("下载 ", chosen, " 个视频"),
            download_disabled: chosen == 0,
        }
    }
}

/// The length of a prefix of the chosen videos is at most that of all of them.
pub proof fn lemma_chosen_duration_prefix(es: Seq<PlaylistItem>, sel: Set<Seq<char>>, k: int)
    requires
        0 <= k <= es.len(),
    ensures
        chosen_duration(es.take(k), sel) <= chosen_duration(es, sel),
    decreases es.len() - k,
{
    if k < es.len() {
        lemma_chosen_duration_prefix(es.drop_last(), sel, k);
        assert(es.drop_last().take(k) =~= es.take(k));
    } else {
        assert(es.take(k) =~= es);
    }
}


/// What the playlist panel asks of the page that holds it.
#[derive(Debug, Clone)]
pub enum PlaylistPanelEvent {
    /// Download these videos
    StartDownload(Vec<PlaylistItem>),
    Cancel,
    /// The chosen videos are now these, by id
    SelectionChanged(Vec<String>),
}

} // verus!
