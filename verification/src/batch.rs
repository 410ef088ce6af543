//! The batch download list: addresses imported from text, their selection,
//! and where each stands.
use vstd::prelude::*;
use crate::download::strings_of;
use crate::selection::IdSet;
use crate::tools::StatusTone;
use crate::text::{
    decimal, opt_view, push_chars, push_str, u64_to_decimal, chars_of, lines_chars, lines_of, owned, seqs_of, starts_with, starts_with_chars, string_of, trim,
    trim_chars,
};

verus! {

broadcast use vstd::string::group_string_axioms;

/// Where an item of the batch stands.
#[derive(Debug, Clone)]
pub enum BatchItemStatus {
    Pending,
    Parsing,
    Parsed,
    Downloading,
    Completed,
    Failed(String),
}

pub open spec fn batch_status_label(s: BatchItemStatus) -> Seq<char> {
    match s {
        BatchItemStatus::Pending => "待处理"@,
        BatchItemStatus::Parsing => "解析中"@,
        BatchItemStatus::Parsed => "就绪"@,
        BatchItemStatus::Downloading => "下载中"@,
        BatchItemStatus::Completed => "已完成"@,
        BatchItemStatus::Failed(_) => "失败"@,
    }
}

impl BatchItemStatus {
    pub fn label(&self) -> (r: String)
        ensures
            r@ == batch_status_label(*self),
    {
        match self {
            BatchItemStatus::Pending => owned("待处理"),
            BatchItemStatus::Parsing => owned("解析中"),
            BatchItemStatus::Parsed => owned("就绪"),
            BatchItemStatus::Downloading => owned("下载中"),
            BatchItemStatus::Completed => owned("已完成"),
            BatchItemStatus::Failed(_) => owned("失败"),
        }
    }
}

/// An address of the batch.
#[derive(Debug, Clone)]
pub struct BatchItem {
    pub id: String,
    pub url: String,
    pub title: Option<String>,
    pub status: BatchItemStatus,
    pub category: Option<String>,
}

/// A download template: where the files of a batch go and how they are named.
#[derive(Debug, Clone)]
pub struct DownloadTemplate {
    pub name: String,
    pub description: Option<String>,
    pub output_dir: String,
    pub filename_template: String,
}

impl Default for DownloadTemplate {
    /// `默认模板`, without description, into `~/Downloads`, named `%(title)s.%(ext)s`.
    fn default() -> (t: Self)
        ensures
            t.name@ == "默认模板"@,
            t.description is None,
            t.output_dir@ == "~/Downloads"@,
            t.filename_template@ == "%(title)s.%(ext)s"@,
    {
        DownloadTemplate {
            name: owned("默认模板"),
            description: None,
            output_dir: owned("~/Downloads"),
            filename_template: owned("%(title)s.%(ext)s"),
        }
    }
}

/// A category that downloads can be filed under.
#[derive(Debug, Clone)]
pub struct Category {
    pub name: String,
    pub icon: String,
    pub output_dir: Option<String>,
    pub count: usize,
}

#[derive(Debug, Clone, Copy, PartialEq, Eq, Structural)]
pub enum BatchPanelState {
    Idle,
    Importing,
    Ready,
}

/// The batch list.
pub struct BatchPanel {
    pub state: BatchPanelState,
    pub items: Vec<BatchItem>,
    /// The ids of the selected items
    pub selected_ids: IdSet,
    pub templates: Vec<DownloadTemplate>,
    /// The position of the template in use
    pub current_template: usize,
    pub categories: Vec<Category>,
    pub import_text: String,
}

/// `n` keeps the templates, categories and imported text of `o`.
pub open spec fn same_setup(o: BatchPanel, n: BatchPanel) -> bool {
    &&& n.templates == o.templates
    &&& n.current_template == o.current_template
    &&& n.categories == o.categories
    &&& n.import_text == o.import_text
}

/// The ids of the items.
pub open spec fn item_ids(s: Seq<BatchItem>) -> Seq<Seq<char>> {
    s.map_values(|b: BatchItem| b.id@)
}

/// The items without those with id `id`.
pub open spec fn items_without(s: Seq<BatchItem>, id: Seq<char>) -> Seq<BatchItem>
    decreases s.len(),
{
    if s.len() == 0 {
        Seq::empty()
    } else if s.last().id@ == id {
        items_without(s.drop_last(), id)
    } else {
        items_without(s.drop_last(), id).push(s.last())
    }
}

/// An item waiting for download: pending or parsed.
pub open spec fn is_waiting(s: BatchItemStatus) -> bool {
    s is Pending || s is Parsed
}

pub open spec fn waiting_count(s: Seq<BatchItem>) -> nat
    decreases s.len(),
{
    if s.len() == 0 {
        0
    } else {
        waiting_count(s.drop_last()) + if is_waiting(s.last().status) { 1nat } else { 0nat }
    }
}

/// The items whose id is selected, in order.
pub open spec fn selected_items(s: Seq<BatchItem>, sel: Set<Seq<char>>) -> Seq<BatchItem>
    decreases s.len(),
{
    if s.len() == 0 {
        Seq::empty()
    } else if sel.contains(s.last().id@) {
        selected_items(s.drop_last(), sel).push(s.last())
    } else {
        selected_items(s.drop_last(), sel)
    }
}

/// The first item with id `id`.
pub open spec fn first_item(s: Seq<BatchItem>, id: Seq<char>) -> Option<int>
    decreases s.len(),
{
    if s.len() == 0 {
        None
    } else if s[0].id@ == id {
        Some(0)
    } else {
        match first_item(s.drop_first(), id) {
            Some(i) => Some(i + 1),
            None => None,
        }
    }
}

/// A line of imported text that is an address: trimmed, not empty, and
/// starting with `http://` or `https://`.
pub open spec fn is_address_line(l: Seq<char>) -> bool {
    let t = trim(l);
    t.len() > 0 && (starts_with(t, "http://"@) || starts_with(t, "https://"@))
}

/// The addresses in imported text, trimmed, in order.
pub open spec fn addresses_in(ls: Seq<Seq<char>>) -> Seq<Seq<char>>
    decreases ls.len(),
{
    if ls.len() == 0 {
        Seq::empty()
    } else if is_address_line(ls.last()) {
        addresses_in(ls.drop_last()).push(trim(ls.last()))
    } else {
        addresses_in(ls.drop_last())
    }
}

/// The non-blank addresses of a list, trimmed.
pub open spec fn nonblank_trimmed(us: Seq<Seq<char>>) -> Seq<Seq<char>>
    decreases us.len(),
{
    if us.len() == 0 {
        Seq::empty()
    } else if trim(us.last()).len() > 0 {
        nonblank_trimmed(us.drop_last()).push(trim(us.last()))
    } else {
        nonblank_trimmed(us.drop_last())
    }
}

/// `n` extends `o` by new pending items, each under a fresh version-4 UUID
/// and without title or category, for the addresses `urls` in order.
pub open spec fn appended(o: Seq<BatchItem>, n: Seq<BatchItem>, urls: Seq<Seq<char>>) -> bool {
    &&& n.len() == o.len() + urls.len()
    &&& n.take(o.len() as int) == o
    &&& forall|k: int| 0 <= k < urls.len() ==> {
        let it = #[trigger] n[o.len() + k];
        &&& it.url@ == urls[k]
        &&& crate::ids::is_uuid_v4_text(it.id@)
        &&& it.title is None
        &&& it.status is Pending
        &&& it.category is None
    }
}

pub proof fn lemma_trim_idempotent(s: Seq<char>)
    ensures
        trim(trim(s)) == trim(s),
{
    lemma_trim_start_idem(s);
    lemma_trim_end_idem(crate::text::trim_start(s));
    let t = crate::text::trim_start(s);
    let u = crate::text::trim_end(t);
    lemma_trim_end_keeps_start(t);
    assert(crate::text::trim_start(u) == u);
}

pub proof fn lemma_trim_start_idem(s: Seq<char>)
    ensures
        crate::text::trim_start(crate::text::trim_start(s)) == crate::text::trim_start(s),
        crate::text::trim_start(s).len() == 0 || !crate::text::is_ws(crate::text::trim_start(s)[0]),
    decreases s.len(),
{
    if s.len() > 0 && crate::text::is_ws(s[0]) {
        lemma_trim_start_idem(s.drop_first());
    }
}

pub proof fn lemma_trim_end_idem(s: Seq<char>)
    ensures
        crate::text::trim_end(crate::text::trim_end(s)) == crate::text::trim_end(s),
    decreases s.len(),
{
    if s.len() > 0 && crate::text::is_ws(s.last()) {
        lemma_trim_end_idem(s.drop_last());
    }
}

/// Trimming the end of a text that starts with no whitespace keeps that start.
pub proof fn lemma_trim_end_keeps_start(t: Seq<char>)
    requires
        t.len() == 0 || !crate::text::is_ws(t[0]),
    ensures
        crate::text::trim_start(crate::text::trim_end(t)) == crate::text::trim_end(t),
    decreases t.len(),
{
    if t.len() > 0 && crate::text::is_ws(t.last()) {
        if t.len() > 1 {
            assert(t.drop_last()[0] == t[0]);
        }
        lemma_trim_end_keeps_start(t.drop_last());
    } else {
        lemma_trim_end_idem(t);
    }
}

impl BatchPanel {
    /// The ids selected.
    pub open spec fn selected(&self) -> Set<Seq<char>> {
        self.selected_ids@
    }

    /// An empty list, idle, with the four stock categories.
    pub fn new() -> (p: Self)
        ensures
            p.state == BatchPanelState::Idle,
            p.items@.len() == 0,
            p.selected() == Set::<Seq<char>>::empty(),
            p.categories@.len() == 4,
            p.categories@[0].name@ == "音乐"@ && p.categories@[0].icon@ == "🎵"@,
            crate::text::opt_view(p.categories@[0].output_dir) == Some("~/Downloads/Music"@),
            p.categories@[1].name@ == "视频"@ && p.categories@[1].icon@ == "🎬"@,
            crate::text::opt_view(p.categories@[1].output_dir) == Some("~/Downloads/Videos"@),
            p.categories@[2].name@ == "教程"@ && p.categories@[2].icon@ == "📚"@,
            crate::text::opt_view(p.categories@[2].output_dir) == Some("~/Downloads/Tutorials"@),
            p.categories@[3].name@ == "其他"@ && p.categories@[3].icon@ == "📁"@,
            p.categories@[3].output_dir is None,
            forall|i: int| 0 <= i < 4 ==> #[trigger] p.categories@[i].count == 0,
            p.import_text@.len() == 0,
            p.templates@.len() == 1,
            p.templates@[0].name@ == "默认模板"@,
            p.templates@[0].description is None,
            p.templates@[0].output_dir@ == "~/Downloads"@,
            p.templates@[0].filename_template@ == "%(title)s.%(ext)s"@,
            p.current_template == 0,
    {
        let categories = vec![
            Category { name: owned("音乐"), icon: owned("🎵"), output_dir: Some(owned("~/Downloads/Music")), count: 0 },
            Category { name: owned("视频"), icon: owned("🎬"), output_dir: Some(owned("~/Downloads/Videos")), count: 0 },
            Category { name: owned("教程"), icon: owned("📚"), output_dir: Some(owned("~/Downloads/Tutorials")), count: 0 },
            Category { name: owned("其他"), icon: owned("📁"), output_dir: None, count: 0 },
        ];
        let p = BatchPanel {
            state: BatchPanelState::Idle,
            items: Vec::new(),
            selected_ids: IdSet::new(),
            templates: vec![DownloadTemplate::default()],
            current_template: 0,
            categories,
            import_text: String::new(),
        };
        p
    }

    /// Adds a pending item for `url` under the id `id`; the list is ready.
    pub fn add_url_with_id(&mut self, url: String, id: String)
        ensures
            final(self).items@ == old(self).items@.push(BatchItem {
                id,
                url,
                title: None,
                status: BatchItemStatus::Pending,
                category: None,
            }),
            final(self).state == BatchPanelState::Ready,
            final(self).selected_ids == old(self).selected_ids,
            same_setup(*old(self), *final(self)),
    {
        self.items.push(BatchItem { id, url, title: None, status: BatchItemStatus::Pending, category: None });
        self.state = BatchPanelState::Ready;
    }

    /// Adds a pending item for `url` under a fresh random id.
    pub fn add_url(&mut self, url: String)
        ensures
            final(self).items@.len() == old(self).items@.len() + 1,
            final(self).items@.drop_last() == old(self).items@,
            final(self).items@.last().url == url,
            crate::ids::is_uuid_v4_text(final(self).items@.last().id@),
            final(self).items@.last().title is None,
            final(self).items@.last().status is Pending,
            final(self).items@.last().category is None,
            final(self).state == BatchPanelState::Ready,
            final(self).selected_ids == old(self).selected_ids,
            same_setup(*old(self), *final(self)),
    {
        let id = crate::ids::random_id();
        self.add_url_with_id(url, id);
        assert(self.items@.drop_last() =~= old(self).items@);
    }

    /// Adds a pending item for each address that is not blank, trimmed;
    /// the list becomes ready when one is added.
    pub fn add_urls(&mut self, urls: Vec<String>)
        ensures
            appended(old(self).items@, final(self).items@, nonblank_trimmed(strings_of(urls@))),
            final(self).state == (if nonblank_trimmed(strings_of(urls@)).len() > 0 {
                BatchPanelState::Ready
            } else {
                old(self).state
            }),
            final(self).selected_ids == old(self).selected_ids,
            same_setup(*old(self), *final(self)),
    {
        let ghost o = self.items@;
        let ghost us = strings_of(urls@);
        let mut k: usize = 0;
        assert(us.take(0) =~= Seq::<Seq<char>>::empty());
        assert(self.items@.take(o.len() as int) =~= o);
        while k < urls.len()
            invariant
                k <= urls@.len(),
                us == strings_of(urls@),
                appended(o, self.items@, nonblank_trimmed(us.take(k as int))),
                self.state == (if nonblank_trimmed(us.take(k as int)).len() > 0 {
                    BatchPanelState::Ready
                } else {
                    old(self).state
                }),
                self.selected_ids == old(self).selected_ids,
                same_setup(*old(self), *self),
            decreases urls@.len() - k,
        {
            assert(us.take(k + 1).drop_last() =~= us.take(k as int));
            assert(us.take(k + 1).last() == urls@[k as int]@);
            let t = trim_chars(&chars_of(urls[k].as_str()));
            if t.len() > 0 {
                let ghost before = self.items@;
                let ghost prev = nonblank_trimmed(us.take(k as int));
                self.add_url(string_of(&t));
                proof {
                    let next = nonblank_trimmed(us.take(k + 1));
                    assert(next == prev.push(t@));
                    assert forall|m: int| 0 <= m < next.len() implies {
                        let it = #[trigger] self.items@[o.len() + m];
                        &&& it.url@ == next[m]
                        &&& crate::ids::is_uuid_v4_text(it.id@)
                        &&& it.title is None
                        &&& it.status is Pending
                        &&& it.category is None
                    } by {
                        if m < prev.len() {
                            assert(self.items@[o.len() + m] == before[o.len() + m]);
                        }
                    }
                    assert(self.items@.take(o.len() as int) =~= before.take(o.len() as int));
                }
            }
            k = k + 1;
        }
        assert(us.take(urls@.len() as int) =~= us);
    }

    /// Adds the addresses found in imported text: each line that, trimmed,
    /// starts with `http://` or `https://`.
    pub fn parse_urls_from_text(&mut self, text: &str)
        ensures
            appended(old(self).items@, final(self).items@, addresses_in(lines_of(text@))),
            final(self).state == (if addresses_in(lines_of(text@)).len() > 0 {
                BatchPanelState::Ready
            } else {
                old(self).state
            }),
            final(self).selected_ids == old(self).selected_ids,
            same_setup(*old(self), *final(self)),
    {
        let v = chars_of(text);
        let ls = lines_chars(&v);
        let ghost lv = lines_of(text@);
        let mut urls: Vec<String> = Vec::new();
        let mut k: usize = 0;
        let http = chars_of("http://");
        let https = chars_of("https://");
        assert(lv.take(0) =~= Seq::<Seq<char>>::empty());
        assert(strings_of(urls@) =~= Seq::<Seq<char>>::empty());
        while k < ls.len()
            invariant
                k <= ls@.len(),
                ls@.len() == lv.len(),
                lv == lines_of(text@),
                forall|m: int| 0 <= m < ls@.len() ==> #[trigger] ls@[m]@ == lv[m],
                http@ == "http://"@,
                https@ == "https://"@,
                strings_of(urls@) == addresses_in(lv.take(k as int)),
                forall|m: int| 0 <= m < urls@.len() ==> trim(#[trigger] strings_of(urls@)[m]).len() > 0
                    && trim(strings_of(urls@)[m]) == strings_of(urls@)[m],
            decreases ls@.len() - k,
        {
            assert(lv.take(k + 1).drop_last() =~= lv.take(k as int));
            assert(lv.take(k + 1).last() == ls@[k as int]@);
            let t = trim_chars(&ls[k]);
            if t.len() > 0 && (starts_with_chars(&t, &http) || starts_with_chars(&t, &https)) {
                let ghost before = strings_of(urls@);
                proof {
                    lemma_trim_idempotent(ls@[k as int]@);
                }
                urls.push(string_of(&t));
                assert(strings_of(urls@) =~= before.push(t@));
            }
            k = k + 1;
        }
        assert(lv.take(ls@.len() as int) =~= lv);
        proof {
            lemma_nonblank_trimmed_of_trimmed(strings_of(urls@));
        }
        self.add_urls(urls);
    }

    /// Selects the item with id `id`, or unselects it when it is selected.
    pub fn toggle_item(&mut self, id: &str)
        ensures
            final(self).selected() == crate::selection::toggled(old(self).selected(), id@),
            final(self).items == old(self).items,
            final(self).state == old(self).state,
            same_setup(*old(self), *final(self)),
    {
        self.selected_ids.toggle(id);
    }

    /// Selects every item.
    pub fn select_all(&mut self)
        ensures
            final(self).selected() == item_ids(old(self).items@).to_set(),
            final(self).items == old(self).items,
            final(self).state == old(self).state,
            same_setup(*old(self), *final(self)),
    {
        let mut ids: Vec<String> = Vec::new();
        let mut k: usize = 0;
        while k < self.items.len()
            invariant
                k <= self.items@.len(),
                strings_of(ids@) == item_ids(self.items@).take(k as int),
            decreases self.items@.len() - k,
        {
            let ghost before = strings_of(ids@);
            let c = self.items[k].id.clone();
            assert(c@ == item_ids(self.items@)[k as int]);
            ids.push(c);
            assert(strings_of(ids@) =~= before.push(c@));
            assert(strings_of(ids@) =~= item_ids(self.items@).take(k + 1));
            k = k + 1;
        }
        assert(item_ids(self.items@).take(self.items@.len() as int) =~= item_ids(self.items@));
        self.selected_ids = IdSet::of_strings(&ids);
    }

    /// Selects nothing.
    pub fn deselect_all(&mut self)
        ensures
            final(self).selected() == Set::<Seq<char>>::empty(),
            final(self).items == old(self).items,
            final(self).state == old(self).state,
            same_setup(*old(self), *final(self)),
    {
        self.selected_ids.clear();
    }

    /// Removes the items with id `id`, and unselects it.
    pub fn remove_item(&mut self, id: &str)
        ensures
            final(self).items@ == items_without(old(self).items@, id@),
            final(self).selected() == old(self).selected().remove(id@),
            final(self).state == old(self).state,
            same_setup(*old(self), *final(self)),
    {
        let ghost o = self.items@;
        let mut rest: Vec<BatchItem> = Vec::new();
        std::mem::swap(&mut rest, &mut self.items);
        let mut kept: Vec<BatchItem> = Vec::new();
        let ghost mut k: int = 0;
        assert(o.take(0) =~= Seq::<BatchItem>::empty());
        while rest.len() > 0
            invariant
                0 <= k <= o.len(),
                rest@ == o.skip(k),
                kept@ == items_without(o.take(k), id@),
            decreases rest@.len(),
        {
            let item = rest.remove(0);
            proof {
                assert(item == o[k]);
                assert(o.take(k + 1).drop_last() =~= o.take(k));
                assert(o.take(k + 1).last() == item);
            }
            if !crate::record::str_eq(item.id.as_str(), id) {
                kept.push(item);
            }
            proof {
                k = k + 1;
                assert(rest@ =~= o.skip(k));
            }
        }
        assert(o.take(k) =~= o);
        self.items = kept;
        self.selected_ids.remove(id);
    }

    /// Empties the list and the selection; the list is idle.
    pub fn clear(&mut self)
        ensures
            final(self).items@.len() == 0,
            final(self).selected() == Set::<Seq<char>>::empty(),
            final(self).state == BatchPanelState::Idle,
            same_setup(*old(self), *final(self)),
    {
        self.items.clear();
        self.selected_ids.clear();
        self.state = BatchPanelState::Idle;
    }

    /// Sets the status of the first item with id `id`.
    pub fn update_item_status(&mut self, id: &str, status: BatchItemStatus)
        ensures
            final(self).items@ == match first_item(old(self).items@, id@) {
                Some(i) => old(self).items@.update(i, (BatchItem { status, ..old(self).items@[i] })),
                None => old(self).items@,
            },
            final(self).selected_ids == old(self).selected_ids,
            final(self).state == old(self).state,
            same_setup(*old(self), *final(self)),
    {
        match self.position(id) {
            Some(i) => {
                let mut item = self.items.remove(i);
                item.status = status;
                self.items.insert(i, item);
                assert(self.items@ =~= old(self).items@.update(i as int, BatchItem { status, ..old(self).items@[i as int] }));
            },
            None => {},
        }
    }

    /// Sets the title of the first item with id `id`.
    pub fn set_item_title(&mut self, id: &str, title: String)
        ensures
            final(self).items@ == match first_item(old(self).items@, id@) {
                Some(i) => old(self).items@.update(i, (BatchItem { title: Some(title), ..old(self).items@[i] })),
                None => old(self).items@,
            },
            final(self).selected_ids == old(self).selected_ids,
            final(self).state == old(self).state,
            same_setup(*old(self), *final(self)),
    {
        match self.position(id) {
            Some(i) => {
                let mut item = self.items.remove(i);
                item.title = Some(title);
                self.items.insert(i, item);
                assert(self.items@ =~= old(self).items@.update(i as int, BatchItem { title: Some(title), ..old(self).items@[i as int] }));
            },
            None => {},
        }
    }

    fn position(&self, id: &str) -> (r: Option<usize>)
        ensures
            match r {
                Some(i) => first_item(self.items@, id@) == Some(i as int) && i < self.items@.len(),
                None => first_item(self.items@, id@) is None,
            },
    {
        let mut k: usize = 0;
        assert(self.items@.skip(0) =~= self.items@);
        while k < self.items.len()
            invariant
                k <= self.items@.len(),
                forall|m: int| 0 <= m < k ==> self.items@[m].id@ != id@,
            decreases self.items@.len() - k,
        {
            if crate::record::str_eq(self.items[k].id.as_str(), id) {
                proof {
                    lemma_first_item_at(self.items@, id@, k as int);
                }
                return Some(k);
            }
            k = k + 1;
        }
        proof {
            lemma_first_item_at(self.items@, id@, k as int);
        }
        None
    }

    /// How many items wait for download (pending or parsed).
    pub fn pending_count(&self) -> (n: usize)
        ensures
            n == waiting_count(self.items@),
    {
        let mut n: usize = 0;
        let mut k: usize = 0;
        while k < self.items.len()
            invariant
                k <= self.items@.len(),
                n == waiting_count(self.items@.take(k as int)),
                n <= k,
            decreases self.items@.len() - k,
        {
            assert(self.items@.take(k + 1).drop_last() =~= self.items@.take(k as int));
            let waiting = match self.items[k].status {
                BatchItemStatus::Pending | BatchItemStatus::Parsed => true,
                _ => false,
            };
            if waiting {
                n = n + 1;
            }
            k = k + 1;
        }
        assert(self.items@.take(self.items@.len() as int) =~= self.items@);
        n
    }

    /// The selected items, in order.
    pub fn get_selected_items(&self) -> (r: Vec<&BatchItem>)
        ensures
            r@.len() == selected_items(self.items@, self.selected()).len(),
            forall|i: int| 0 <= i < r@.len() ==> *#[trigger] r@[i] == selected_items(self.items@, self.selected())[i],
    {
        let mut r: Vec<&BatchItem> = Vec::new();
        let mut k: usize = 0;
        let ghost sel = self.selected();
        while k < self.items.len()
            invariant
                k <= self.items@.len(),
                sel == self.selected(),
                r@.len() == selected_items(self.items@.take(k as int), sel).len(),
                forall|i: int| 0 <= i < r@.len() ==> *#[trigger] r@[i] == selected_items(
                    self.items@.take(k as int),
                    sel,
                )[i],
            decreases self.items@.len() - k,
        {
            assert(self.items@.take(k + 1).drop_last() =~= self.items@.take(k as int));
            let found = self.selected_ids.contains(self.items[k].id.as_str());
            if found {
                r.push(&self.items[k]);
            }
            k = k + 1;
        }
        assert(self.items@.take(self.items@.len() as int) =~= self.items@);
        r
    }
}



pub proof fn lemma_first_item_at(s: Seq<BatchItem>, id: Seq<char>, i: int)
    requires
        0 <= i <= s.len(),
        forall|j: int| 0 <= j < i ==> s[j].id@ != id,
        i < s.len() ==> s[i].id@ == id,
    ensures
        first_item(s, id) == (if i < s.len() { Some(i) } else { None::<int> }),
    decreases i,
{
    if i > 0 {
        assert forall|j: int| 0 <= j < i - 1 implies s.drop_first()[j].id@ != id by {
            assert(s.drop_first()[j] == s[j + 1]);
        }
        lemma_first_item_at(s.drop_first(), id, i - 1);
    }
}

/// Addresses already trimmed and not blank pass through unchanged.
pub proof fn lemma_nonblank_trimmed_of_trimmed(us: Seq<Seq<char>>)
    requires
        forall|m: int| 0 <= m < us.len() ==> trim(#[trigger] us[m]).len() > 0 && trim(us[m]) == us[m],
    ensures
        nonblank_trimmed(us) == us,
    decreases us.len(),
{
    if us.len() > 0 {
        lemma_nonblank_trimmed_of_trimmed(us.drop_last());
        assert(us.drop_last().push(us.last()) =~= us);
    }
}


/// What the header, the tool bar and the footer of the batch list show.
pub struct BatchPanelView {
    /// `{n} 个项目`
    pub item_count_text: String,
    /// `待下载: {n}`
    pub pending_text: String,
    /// `已选: {n}`
    pub selected_text: String,
    /// The list is empty: the hint to paste or import addresses is shown
    pub empty: bool,
    /// The select-all box is ticked
    pub all_selected: bool,
    /// The button that empties the list is disabled
    pub clear_disabled: bool,
    /// `下载选中 ({n})`, offered while some item is selected
    pub download_selected_label: Option<String>,
    /// `全部下载 ({n})`
    pub download_all_label: String,
    pub download_all_disabled: bool,
}

/// What the row of an item shows.
pub struct BatchItemView {
    /// The row is highlighted as selected
    pub highlighted: bool,
    pub tone: StatusTone,
    pub status_label: String,
    /// The title, or the address while there is none
    pub title: String,
    /// The address is shown under the title
    pub show_url: bool,
}

/// The colour family of an item's status.
pub open spec fn batch_status_tone(s: BatchItemStatus) -> StatusTone {
    match s {
        BatchItemStatus::Pending => StatusTone::Muted,
        BatchItemStatus::Parsing => StatusTone::Primary,
        BatchItemStatus::Parsed => StatusTone::Success,
        BatchItemStatus::Downloading => StatusTone::Primary,
        BatchItemStatus::Completed => StatusTone::Success,
        BatchItemStatus::Failed(_) => StatusTone::Danger,
    }
}

/// What the row of `item` shows, selected or not.
pub fn batch_item_view(item: &BatchItem, selected: bool) -> (v: BatchItemView)
    ensures
        v.highlighted == selected,
        v.tone == batch_status_tone(item.status),
        v.status_label@ == batch_status_label(item.status),
        v.title@ == (match item.title {
            Some(t) => t@,
            None => item.url@,
        }),
        v.show_url == item.title is Some,
{
    let tone = match &item.status {
        BatchItemStatus::Pending => StatusTone::Muted,
        BatchItemStatus::Parsing => StatusTone::Primary,
        BatchItemStatus::Parsed => StatusTone::Success,
        BatchItemStatus::Downloading => StatusTone::Primary,
        BatchItemStatus::Completed => StatusTone::Success,
        BatchItemStatus::Failed(_) => StatusTone::Danger,
    };
    let title = match &item.title {
        Some(t) => t.clone(),
        None => item.url.clone(),
    };
    BatchItemView {
        highlighted: selected,
        tone,
        status_label: item.status.label(),
        title,
        show_url: item.title.is_some(),
    }
}

fn counted(prefix: &str, n: usize, suffix: &str) -> (r: String)
    ensures
        r@ == prefix@ + decimal(n as nat) + suffix@,
{
    let mut s = owned(prefix);
    push_chars(&mut s, &u64_to_decimal(n as u64));
    push_str(&mut s, suffix);
    s
}

impl BatchPanel {
    /// What the header, the tool bar and the footer show.
    pub fn view(&self) -> (v: BatchPanelView)
        ensures
            v.item_count_text@ == decimal(self.items@.len()) + " 个项目"@,
            v.pending_text@ == "待下载: "@ + decimal(waiting_count(self.items@)),
            v.selected_text@ == "已选: "@ + decimal(self.selected().len()),
            v.empty == (self.items@.len() == 0),
            v.all_selected == (self.selected().len() == self.items@.len()),
            v.clear_disabled == (self.items@.len() == 0),
            self.selected().len() > 0 ==> opt_view(v.download_selected_label) == Some(
                "下载选中 ("@ + decimal(self.selected().len()) + ")"@,
            ),
            self.selected().len() == 0 ==> v.download_selected_label is None,
            v.download_all_label@ == "全部下载 ("@ + decimal(waiting_count(self.items@)) + ")"@,
            v.download_all_disabled == (waiting_count(self.items@) == 0),
    {
        let total = self.items.len();
        let selected = self.selected_ids.len();
        let pending = self.pending_count();
        let count_text = counted("", total, " 个项目");
        let pending_text = counted("待下载: ", pending, "");
        let selected_text = counted("已选: ", selected, "");
        proof {
            reveal_strlit("");
            assert(count_text@ =~= decimal(total as nat) + " 个项目"@);
            assert(pending_text@ =~= "待下载: "@ + decimal(pending as nat));
            assert(selected_text@ =~= "已选: "@ + decimal(selected as nat));
        }
        BatchPanelView {
            item_count_text: count_text,
            pending_text,
            selected_text,
            empty: total == 0,
            all_selected: selected == total,
            clear_disabled: total == 0,
            download_selected_label: if selected > 0 {
                Some(counted("下载选中 (", selected, ")"))
            } else {
                None
            },
            download_all_label: counted("全部下载 (", pending, ")"),
            download_all_disabled: pending == 0,
        }
    }
}


/// What the batch list asks of the page that holds it.
#[derive(Debug, Clone)]
pub enum BatchPanelEvent {
    /// Download every waiting item
    StartAll,
    /// Download the items with these ids
    StartSelected(Vec<String>),
    Cancel,
    Clear,
    /// Remove the item with this id
    RemoveItem(String),
    /// Use the template with this name
    ApplyTemplate(String),
    /// File the item (first id) under the category (second)
    SetCategory(String, String),
}

} // verus!
