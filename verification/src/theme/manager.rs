//! The theme manager: the current setting, the palette it resolves to, and
//! the custom themes stored by key.
use vstd::prelude::*;
use crate::text::{chars_of, owned};
use super::{
    dark_palette, light_palette, palette, resolve, resolved_palette, AppTheme, CustomTheme,
    ResolvedTheme, ThemeColors,
};

verus! {

/// No key occurs twice among `entries`.
pub open spec fn unique_keys(entries: Seq<(String, CustomTheme)>) -> bool {
    forall|i: int, j: int|
        0 <= i < entries.len() && 0 <= j < entries.len() && i != j ==> entries[i].0@ != entries[j].0@
}

pub open spec fn has_key(entries: Seq<(String, CustomTheme)>, k: Seq<char>) -> bool {
    exists|i: int| 0 <= i < entries.len() && entries[i].0@ == k
}

pub open spec fn key_index(entries: Seq<(String, CustomTheme)>, k: Seq<char>) -> int {
    choose|i: int| 0 <= i < entries.len() && entries[i].0@ == k
}

/// The map from key to theme that `entries` hold.
pub open spec fn entries_map(entries: Seq<(String, CustomTheme)>) -> Map<Seq<char>, CustomTheme> {
    Map::new(|k: Seq<char>| has_key(entries, k), |k: Seq<char>| entries[key_index(entries, k)].1)
}

pub proof fn lemma_entry(entries: Seq<(String, CustomTheme)>, i: int)
    requires
        unique_keys(entries),
        0 <= i < entries.len(),
    ensures
        entries_map(entries).contains_key(entries[i].0@),
        entries_map(entries)[entries[i].0@] == entries[i].1,
{
    let k = entries[i].0@;
    assert(has_key(entries, k));
    let j = key_index(entries, k);
    assert(entries[j].0@ == k);
}

/// The theme setting, the palette it resolves to, and the custom themes.
pub struct ThemeManager {
    current_theme: AppTheme,
    resolved_theme: ResolvedTheme,
    custom_themes: Vec<(String, CustomTheme)>,
    config_path: String,
}

impl ThemeManager {
    pub closed spec fn wf(&self) -> bool {
        unique_keys(self.custom_themes@)
    }

    /// The custom themes, by key.
    pub closed spec fn themes(&self) -> Map<Seq<char>, CustomTheme> {
        entries_map(self.custom_themes@)
    }

    pub closed spec fn current(&self) -> AppTheme {
        self.current_theme
    }

    pub closed spec fn resolved(&self) -> ResolvedTheme {
        self.resolved_theme
    }

    pub closed spec fn path(&self) -> Seq<char> {
        self.config_path@
    }

    /// A manager that follows the operating system (in dark mode when
    /// `system_is_dark`), with no custom themes, that keeps its files under `config_path`.
    pub fn new(config_path: String, system_is_dark: bool) -> (m: Self)
        ensures
            m.wf(),
            m.current() == AppTheme::System,
            m.resolved() == resolve(AppTheme::System, system_is_dark),
            m.themes() == Map::<Seq<char>, CustomTheme>::empty(),
            m.path() == config_path@,
    {
        let m = ThemeManager {
            current_theme: AppTheme::System,
            resolved_theme: if system_is_dark { ResolvedTheme::Dark } else { ResolvedTheme::Light },
            custom_themes: Vec::new(),
            config_path,
        };
        assert(m.themes() =~= Map::<Seq<char>, CustomTheme>::empty());
        m
    }

    /// The directory the theme files are kept in.
    pub fn config_path(&self) -> (r: &String)
        ensures
            r@ == self.path(),
    {
        &self.config_path
    }

    /// The current theme setting.
    pub fn current_theme(&self) -> (r: &AppTheme)
        ensures
            *r == self.current(),
    {
        &self.current_theme
    }

    /// The palette the current setting resolves to.
    pub fn resolved_theme(&self) -> (r: ResolvedTheme)
        ensures
            r == self.resolved(),
    {
        self.resolved_theme
    }

    /// Makes `theme` the setting; a `System` setting resolves by `system_is_dark`.
    pub fn set_theme(&mut self, theme: AppTheme, system_is_dark: bool)
        ensures
            final(self).current() == theme,
            final(self).resolved() == resolve(theme, system_is_dark),
            final(self).themes() == old(self).themes(),
            final(self).wf() == old(self).wf(),
            final(self).path() == old(self).path(),
    {
        let resolved = match theme {
            AppTheme::Light => ResolvedTheme::Light,
            AppTheme::Dark => ResolvedTheme::Dark,
            AppTheme::System => if system_is_dark { ResolvedTheme::Dark } else { ResolvedTheme::Light },
            AppTheme::Custom(config) => match config.mode {
                super::ThemeMode::Dark => ResolvedTheme::Dark,
                super::ThemeMode::Light => ResolvedTheme::Light,
            },
        };
        self.current_theme = theme;
        self.resolved_theme = resolved;
    }

    /// Switches to the dark setting from a light palette and to the light setting from a dark one.
    pub fn toggle_theme(&mut self)
        ensures
            final(self).current() == toggled_theme(old(self).resolved()),
            final(self).resolved() != old(self).resolved(),
            final(self).themes() == old(self).themes(),
            final(self).wf() == old(self).wf(),
            final(self).path() == old(self).path(),
    {
        let new_theme = match self.resolved_theme {
            ResolvedTheme::Light => AppTheme::Dark,
            ResolvedTheme::Dark => AppTheme::Light,
        };
        self.set_theme(new_theme, false);
    }

    /// The palette in use.
    pub fn colors(&self) -> (c: ThemeColors)
        ensures
            palette(&c) == resolved_palette(self.resolved()),
    {
        match self.resolved_theme {
            ResolvedTheme::Light => ThemeColors::light(),
            ResolvedTheme::Dark => ThemeColors::dark(),
        }
    }

    /// The position of the entry with key `key`.
    fn find_key(&self, key: &[char]) -> (r: Option<usize>)
        requires
            self.wf(),
        ensures
            match r {
                Some(i) => i < self.custom_themes@.len() && self.custom_themes@[i as int].0@ == key@,
                None => !has_key(self.custom_themes@, key@),
            },
    {
        let mut i: usize = 0;
        while i < self.custom_themes.len()
            invariant
                i <= self.custom_themes@.len(),
                forall|j: int| 0 <= j < i ==> self.custom_themes@[j].0@ != key@,
            decreases self.custom_themes@.len() - i,
        {
            let k = chars_of(self.custom_themes[i].0.as_str());
            if crate::text::eq_chars(&k, key) {
                return Some(i);
            }
            i = i + 1;
        }
        None
    }

    /// Stores `theme` under its name, replacing a theme stored under that name.
    pub fn add_custom_theme(&mut self, theme: CustomTheme)
        requires
            old(self).wf(),
        ensures
            final(self).wf(),
            final(self).themes() == old(self).themes().insert(theme.name@, theme),
            final(self).current() == old(self).current(),
            final(self).resolved() == old(self).resolved(),
            final(self).path() == old(self).path(),
    {
        let key = owned(theme.name.as_str());
        self.insert_entry(key, theme);
    }

    /// Stores `theme` under `key`, replacing what was stored under it.
    fn insert_entry(&mut self, key: String, theme: CustomTheme)
        requires
            old(self).wf(),
        ensures
            final(self).wf(),
            final(self).themes() == old(self).themes().insert(key@, theme),
            final(self).current() == old(self).current(),
            final(self).resolved() == old(self).resolved(),
            final(self).path() == old(self).path(),
    {
        let kc = chars_of(key.as_str());
        let ghost before = self.custom_themes@;
        let ghost k = key@;
        match self.find_key(&kc) {
            Some(i) => {
                self.custom_themes.set(i, (key, theme));
                let ghost after = self.custom_themes@;
                assert(unique_keys(after)) by {
                    assert forall|a: int, b: int|
                        0 <= a < after.len() && 0 <= b < after.len() && a != b implies after[a].0@ != after[b].0@ by {
                        if a != i && b != i {
                            assert(after[a] == before[a] && after[b] == before[b]);
                        } else if a == i {
                            assert(after[b] == before[b]);
                            assert(before[i as int].0@ == k);
                        } else {
                            assert(after[a] == before[a]);
                            assert(before[i as int].0@ == k);
                        }
                    }
                }
                assert(entries_map(after) =~= entries_map(before).insert(k, theme)) by {
                    assert forall|q: Seq<char>| #[trigger] has_key(after, q) == (has_key(before, q) || q == k) by {
                        if has_key(before, q) {
                            let w = choose|w: int| 0 <= w < before.len() && before[w].0@ == q;
                            if w == i {
                                assert(after[i as int].0@ == q);
                            } else {
                                assert(after[w].0@ == q);
                            }
                        }
                        if q == k {
                            assert(after[i as int].0@ == q);
                        }
                        if has_key(after, q) {
                            let w = choose|w: int| 0 <= w < after.len() && after[w].0@ == q;
                            if w != i {
                                assert(before[w].0@ == q);
                            }
                        }
                    }
                    assert forall|q: Seq<char>| has_key(after, q) implies entries_map(after)[q] == entries_map(before).insert(k, theme)[q] by {
                        let w = choose|w: int| 0 <= w < after.len() && after[w].0@ == q;
                        lemma_entry(after, w);
                        if w != i {
                            assert(before[w] == after[w]);
                            lemma_entry(before, w);
                        }
                    }
                }
            },
            None => {
                self.custom_themes.push((key, theme));
                let ghost after = self.custom_themes@;
                let ghost n = before.len();
                assert(after[n as int].0@ == k);
                assert(unique_keys(after)) by {
                    assert forall|a: int, b: int|
                        0 <= a < after.len() && 0 <= b < after.len() && a != b implies after[a].0@ != after[b].0@ by {
                        if a < n && b < n {
                            assert(after[a] == before[a] && after[b] == before[b]);
                        } else if a == n {
                            assert(after[b] == before[b]);
                        } else {
                            assert(after[a] == before[a]);
                        }
                    }
                }
                assert(entries_map(after) =~= entries_map(before).insert(k, theme)) by {
                    assert forall|q: Seq<char>| #[trigger] has_key(after, q) == (has_key(before, q) || q == k) by {
                        if has_key(before, q) {
                            let w = choose|w: int| 0 <= w < before.len() && before[w].0@ == q;
                            assert(after[w].0@ == q);
                        }
                        if has_key(after, q) {
                            let w = choose|w: int| 0 <= w < after.len() && after[w].0@ == q;
                            if w < n {
                                assert(before[w].0@ == q);
                            }
                        }
                    }
                    assert forall|q: Seq<char>| has_key(after, q) implies entries_map(after)[q] == entries_map(before).insert(k, theme)[q] by {
                        let w = choose|w: int| 0 <= w < after.len() && after[w].0@ == q;
                        lemma_entry(after, w);
                        if w < n {
                            assert(before[w] == after[w]);
                            lemma_entry(before, w);
                        }
                    }
                }
            },
        }
    }

    /// Removes the theme stored under `name` and gives it back.
    pub fn remove_custom_theme(&mut self, name: &str) -> (r: Option<CustomTheme>)
        requires
            old(self).wf(),
        ensures
            final(self).wf(),
            final(self).themes() == old(self).themes().remove(name@),
            match r {
                Some(t) => old(self).themes().contains_key(name@) && t == old(self).themes()[name@],
                None => !old(self).themes().contains_key(name@),
            },
            final(self).current() == old(self).current(),
            final(self).resolved() == old(self).resolved(),
            final(self).path() == old(self).path(),
    {
        let kc = chars_of(name);
        let ghost before = self.custom_themes@;
        let ghost k = name@;
        match self.find_key(&kc) {
            Some(i) => {
                proof {
                    lemma_entry(before, i as int);
                }
                let (_, theme) = self.custom_themes.remove(i);
                let ghost after = self.custom_themes@;
                assert(unique_keys(after)) by {
                    assert forall|a: int, b: int|
                        0 <= a < after.len() && 0 <= b < after.len() && a != b implies after[a].0@ != after[b].0@ by {
                        let a2 = if a < i { a } else { a + 1 };
                        let b2 = if b < i { b } else { b + 1 };
                        assert(after[a] == before[a2] && after[b] == before[b2]);
                    }
                }
                assert(entries_map(after) =~= entries_map(before).remove(k)) by {
                    assert forall|q: Seq<char>| #[trigger] has_key(after, q) == (has_key(before, q) && q != k) by {
                        if has_key(after, q) {
                            let w = choose|w: int| 0 <= w < after.len() && after[w].0@ == q;
                            let w2 = if w < i { w } else { w + 1 };
                            assert(before[w2] == after[w]);
                            assert(w2 != i);
                        }
                        if has_key(before, q) && q != k {
                            let w = choose|w: int| 0 <= w < before.len() && before[w].0@ == q;
                            assert(w != i);
                            if w < i {
                                assert(after[w] == before[w]);
                            } else {
                                assert(after[w - 1] == before[w]);
                            }
                        }
                    }
                    assert forall|q: Seq<char>| has_key(after, q) implies entries_map(after)[q] == entries_map(before).remove(k)[q] by {
                        let w = choose|w: int| 0 <= w < after.len() && after[w].0@ == q;
                        let w2 = if w < i { w } else { w + 1 };
                        assert(before[w2] == after[w]);
                        lemma_entry(after, w);
                        lemma_entry(before, w2);
                    }
                }
                Some(theme)
            },
            None => {
                assert(entries_map(before).remove(k) =~= entries_map(before));
                None
            },
        }
    }

    /// The theme stored under `name`.
    pub fn get_custom_theme(&self, name: &str) -> (r: Option<&CustomTheme>)
        requires
            self.wf(),
        ensures
            match r {
                Some(t) => self.themes().contains_key(name@) && *t == self.themes()[name@],
                None => !self.themes().contains_key(name@),
            },
    {
        let kc = chars_of(name);
        match self.find_key(&kc) {
            Some(i) => {
                proof {
                    lemma_entry(self.custom_themes@, i as int);
                }
                Some(&self.custom_themes[i].1)
            },
            None => None,
        }
    }

    /// Every stored theme, once each.
    pub fn custom_themes(&self) -> (r: Vec<&CustomTheme>)
        requires
            self.wf(),
        ensures
            r@.len() == self.themes().dom().len(),
            forall|i: int| 0 <= i < r@.len() ==> is_stored(self.themes(), *#[trigger] r@[i]),
            forall|k: Seq<char>| #[trigger] self.themes().contains_key(k) ==> is_listed(r@, self.themes()[k]),
    {
        let mut r: Vec<&CustomTheme> = Vec::new();
        let mut i: usize = 0;
        let ghost es = self.custom_themes@;
        while i < self.custom_themes.len()
            invariant
                es == self.custom_themes@,
                unique_keys(es),
                i <= es.len(),
                r@.len() == i,
                forall|j: int| 0 <= j < i ==> *r@[j] == es[j].1,
            decreases es.len() - i,
        {
            r.push(&self.custom_themes[i].1);
            i = i + 1;
        }
        proof {
            assert forall|j: int| 0 <= j < r@.len() implies is_stored(self.themes(), *#[trigger] r@[j]) by {
                lemma_entry(es, j);
                assert(self.themes().contains_key(es[j].0@));
            }
            assert forall|k: Seq<char>| #[trigger] self.themes().contains_key(k) implies is_listed(r@, self.themes()[k]) by {
                let w = choose|w: int| 0 <= w < es.len() && es[w].0@ == k;
                lemma_entry(es, w);
                assert(*r@[w] == self.themes()[k]);
            }
            lemma_dom_len(es);
        }
        r
    }

    /// Replaces every custom theme by `entries`, key by key; a later entry
    /// wins over an earlier one with the same key.
    pub fn set_custom_themes(&mut self, entries: Vec<(String, CustomTheme)>)
        requires
            old(self).wf(),
        ensures
            final(self).wf(),
            final(self).themes() == entries_last_wins(entries@),
            final(self).current() == old(self).current(),
            final(self).resolved() == old(self).resolved(),
            final(self).path() == old(self).path(),
    {
        self.custom_themes = Vec::new();
        assert(self.themes() =~= Map::<Seq<char>, CustomTheme>::empty());
        let mut entries = entries;
        let ghost all = entries@;
        let mut done: usize = 0;
        let total = entries.len();
        assert(all.take(0) =~= Seq::<(String, CustomTheme)>::empty());
        assert(all.skip(0) =~= all);
        while entries.len() > 0
            invariant
                done <= all.len(),
                total == all.len(),
                entries@ == all.skip(done as int),
                self.wf(),
                self.themes() == entries_last_wins(all.take(done as int)),
                self.current() == old(self).current(),
                self.resolved() == old(self).resolved(),
                self.path() == old(self).path(),
            decreases entries@.len(),
        {
            let e = entries.remove(0);
            proof {
                assert(all.take(done + 1).drop_last() =~= all.take(done as int));
                assert(entries@ =~= all.skip(done + 1));
            }
            done = done + 1;
            self.insert_entry(e.0, e.1);
        }
        assert(all.take(all.len() as int) =~= all);
    }
}

/// The setting a toggle picks: dark from a light palette, light from a dark one.
pub open spec fn toggled_theme(r: ResolvedTheme) -> AppTheme {
    match r {
        ResolvedTheme::Light => AppTheme::Dark,
        ResolvedTheme::Dark => AppTheme::Light,
    }
}

/// `t` is stored under some key of `m`.
pub open spec fn is_stored(m: Map<Seq<char>, CustomTheme>, t: CustomTheme) -> bool {
    exists|k: Seq<char>| m.contains_key(k) && m[k] == t
}

/// `t` is one of the themes `r` refers to.
pub open spec fn is_listed(r: Seq<&CustomTheme>, t: CustomTheme) -> bool {
    exists|i: int| 0 <= i < r.len() && *r[i] == t
}

/// The map that inserting `entries` in order into an empty map gives.
pub open spec fn entries_last_wins(entries: Seq<(String, CustomTheme)>) -> Map<Seq<char>, CustomTheme>
    decreases entries.len(),
{
    if entries.len() == 0 {
        Map::empty()
    } else {
        entries_last_wins(entries.drop_last()).insert(entries.last().0@, entries.last().1)
    }
}

pub proof fn lemma_dom_len(es: Seq<(String, CustomTheme)>)
    requires
        unique_keys(es),
    ensures
        entries_map(es).dom().finite(),
        entries_map(es).dom().len() == es.len(),
    decreases es.len(),
{
    if es.len() == 0 {
        assert(entries_map(es).dom() =~= Set::<Seq<char>>::empty());
    } else {
        let init = es.drop_last();
        assert(unique_keys(init)) by {
            assert forall|a: int, b: int| 0 <= a < init.len() && 0 <= b < init.len() && a != b implies init[a].0@ != init[b].0@ by {
                assert(init[a] == es[a] && init[b] == es[b]);
            }
        }
        lemma_dom_len(init);
        let k = es.last().0@;
        assert(entries_map(es).dom() =~= entries_map(init).dom().insert(k)) by {
            assert forall|q: Seq<char>| entries_map(es).dom().contains(q) == entries_map(init).dom().insert(k).contains(q) by {
                if has_key(es, q) {
                    let w = choose|w: int| 0 <= w < es.len() && es[w].0@ == q;
                    if w < init.len() {
                        assert(init[w].0@ == q);
                    }
                }
                if has_key(init, q) {
                    let w = choose|w: int| 0 <= w < init.len() && init[w].0@ == q;
                    assert(es[w].0@ == q);
                }
                if q == k {
                    assert(es[es.len() - 1].0@ == q);
                }
            }
        }
        assert(!entries_map(init).dom().contains(k)) by {
            if has_key(init, k) {
                let w = choose|w: int| 0 <= w < init.len() && init[w].0@ == k;
                assert(es[w].0@ == k && es[es.len() - 1].0@ == k);
            }
        }
    }
}

/// A theme stored under its name can be read back unchanged.
pub proof fn law_add_then_get(before: Map<Seq<char>, CustomTheme>, theme: CustomTheme)
    ensures
        before.insert(theme.name@, theme).contains_key(theme.name@),
        before.insert(theme.name@, theme)[theme.name@] == theme,
{
}

/// A removed theme can no longer be read, and the other themes stay as
/// they were.
pub proof fn law_remove_then_get(before: Map<Seq<char>, CustomTheme>, name: Seq<char>, other: Seq<char>)
    requires
        other != name,
    ensures
        !before.remove(name).contains_key(name),
        before.remove(name).contains_key(other) == before.contains_key(other),
        before.contains_key(other) ==> before.remove(name)[other] == before[other],
{
}

} // verus!
