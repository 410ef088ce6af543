//! A set of item ids, as the selection of a list keeps it.
use vstd::prelude::*;
use crate::download::strings_of;
use crate::text::owned;

verus! {

broadcast use vstd::string::group_string_axioms;

/// `s` with `id` removed where it is there, added where it is not.
pub open spec fn toggled(s: Set<Seq<char>>, id: Seq<char>) -> Set<Seq<char>> {
    if s.contains(id) {
        s.remove(id)
    } else {
        s.insert(id)
    }
}

/// A set of ids.
pub struct IdSet {
    ids: Vec<String>,
}

impl View for IdSet {
    type V = Set<Seq<char>>;

    closed spec fn view(&self) -> Set<Seq<char>> {
        strings_of(self.ids@).to_set()
    }
}

impl IdSet {
    /// No id.
    pub fn new() -> (s: Self)
        ensures
            s@ == Set::<Seq<char>>::empty(),
    {
        let s = IdSet { ids: Vec::new() };
        assert(strings_of(s.ids@) =~= Seq::<Seq<char>>::empty());
        assert(strings_of(s.ids@).to_set() =~= Set::<Seq<char>>::empty());
        s
    }

    fn position(&self, id: &str) -> (r: Option<usize>)
        ensures
            match r {
                Some(k) => k < self.ids@.len() && strings_of(self.ids@)[k as int] == id@,
                None => !strings_of(self.ids@).contains(id@),
            },
    {
        let mut k: usize = 0;
        while k < self.ids.len()
            invariant
                k <= self.ids@.len(),
                forall|m: int| 0 <= m < k ==> strings_of(self.ids@)[m] != id@,
            decreases self.ids@.len() - k,
        {
            if crate::record::str_eq(self.ids[k].as_str(), id) {
                return Some(k);
            }
            k = k + 1;
        }
        None
    }

    /// Whether `id` is in the set.
    pub fn contains(&self, id: &str) -> (b: bool)
        ensures
            b == self@.contains(id@),
    {
        self.position(id).is_some()
    }

    /// How many ids are in the set.
    pub fn len(&self) -> (n: usize)
        ensures
            n == self@.len(),
    {
        let ghost t = strings_of(self.ids@);
        let mut n: usize = 0;
        let mut k: usize = 0;
        proof {
            assert(t.take(0).to_set() =~= Set::<Seq<char>>::empty());
            broadcast use vstd::set::axiom_set_empty_len;
        }
        while k < self.ids.len()
            invariant
                k <= self.ids@.len(),
                t == strings_of(self.ids@),
                n == t.take(k as int).to_set().len(),
                n <= k,
            decreases self.ids@.len() - k,
        {
            let mut seen = false;
            let mut j: usize = 0;
            while j < k
                invariant
                    j <= k,
                    k < self.ids@.len(),
                    t == strings_of(self.ids@),
                    seen == exists|m: int| 0 <= m < j && t[m] == t[k as int],
                decreases k - j,
            {
                let same = crate::record::str_eq(self.ids[j].as_str(), self.ids[k].as_str());
                assert(t[j as int] == self.ids@[j as int]@ && t[k as int] == self.ids@[k as int]@);
                if same {
                    seen = true;
                }
                assert(seen == exists|m: int| 0 <= m < j + 1 && t[m] == t[k as int]) by {
                    if same {
                        assert(t[j as int] == t[k as int]);
                    }
                }
                j = j + 1;
            }
            proof {
                let pre = t.take(k as int);
                assert(t.take(k + 1) =~= pre.push(t[k as int]));
                pre.lemma_push_to_set_commute(t[k as int]);
                vstd::seq_lib::seq_to_set_is_finite(pre);
                vstd::set::axiom_set_insert_len(pre.to_set(), t[k as int]);
                if seen {
                    let m = choose|m: int| 0 <= m < k && t[m] == t[k as int];
                    assert(pre[m] == t[k as int]);
                    assert(pre.to_set().contains(t[k as int]));
                } else {
                    assert(!pre.to_set().contains(t[k as int])) by {
                        if pre.to_set().contains(t[k as int]) {
                            let m = choose|m: int| 0 <= m < pre.len() && pre[m] == t[k as int];
                            assert(t[m] == t[k as int]);
                        }
                    }
                }
            }
            if !seen {
                n = n + 1;
            }
            k = k + 1;
        }
        assert(t.take(self.ids@.len() as int) =~= t);
        n
    }

    /// Adds `id`.
    pub fn insert(&mut self, id: &str)
        ensures
            final(self)@ == old(self)@.insert(id@),
    {
        match self.position(id) {
            Some(k) => {
                assert(strings_of(self.ids@).contains(id@)) by {
                    assert(strings_of(self.ids@)[k as int] == id@);
                }
                assert(self@.insert(id@) =~= self@);
            },
            None => {
                let ghost before = strings_of(self.ids@);
                self.ids.push(owned(id));
                proof {
                    assert(strings_of(self.ids@) =~= before.push(id@));
                    before.lemma_push_to_set_commute(id@);
                }
            },
        }
    }

    /// Removes `id`.
    pub fn remove(&mut self, id: &str)
        ensures
            final(self)@ == old(self)@.remove(id@),
    {
        let ghost o = strings_of(self.ids@);
        let mut kept: Vec<String> = Vec::new();
        let mut k: usize = 0;
        assert(o.take(0).to_set().remove(id@) =~= Set::<Seq<char>>::empty());
        assert(strings_of(kept@).to_set() =~= Set::<Seq<char>>::empty());
        while k < self.ids.len()
            invariant
                k <= self.ids@.len(),
                o == strings_of(self.ids@),
                strings_of(kept@).to_set() == o.take(k as int).to_set().remove(id@),
            decreases self.ids@.len() - k,
        {
            proof {
                assert(o.take(k + 1) =~= o.take(k as int).push(o[k as int]));
                o.take(k as int).lemma_push_to_set_commute(o[k as int]);
            }
            if !crate::record::str_eq(self.ids[k].as_str(), id) {
                let ghost before = strings_of(kept@);
                kept.push(self.ids[k].clone());
                proof {
                    assert(strings_of(kept@) =~= before.push(o[k as int]));
                    before.lemma_push_to_set_commute(o[k as int]);
                    assert(strings_of(kept@).to_set() =~= o.take(k + 1).to_set().remove(id@));
                }
            } else {
                assert(strings_of(kept@).to_set() =~= o.take(k + 1).to_set().remove(id@));
            }
            k = k + 1;
        }
        assert(o.take(self.ids@.len() as int) =~= o);
        self.ids = kept;
    }

    /// Adds `id` when absent, removes it when present.
    pub fn toggle(&mut self, id: &str)
        ensures
            final(self)@ == toggled(old(self)@, id@),
    {
        if self.contains(id) {
            self.remove(id);
        } else {
            self.insert(id);
        }
    }

    /// Removes every id.
    pub fn clear(&mut self)
        ensures
            final(self)@ == Set::<Seq<char>>::empty(),
    {
        self.ids.clear();
        assert(strings_of(self.ids@) =~= Seq::<Seq<char>>::empty());
        assert(strings_of(self.ids@).to_set() =~= Set::<Seq<char>>::empty());
    }

    /// The set of the texts of `ids`.
    pub fn of_strings(ids: &Vec<String>) -> (s: Self)
        ensures
            s@ == strings_of(ids@).to_set(),
    {
        let mut s = IdSet::new();
        let mut k: usize = 0;
        assert(strings_of(ids@).take(0).to_set() =~= Set::<Seq<char>>::empty());
        while k < ids.len()
            invariant
                k <= ids@.len(),
                s@ == strings_of(ids@).take(k as int).to_set(),
            decreases ids@.len() - k,
        {
            let ghost t = strings_of(ids@);
            proof {
                assert(t.take(k + 1) =~= t.take(k as int).push(t[k as int]));
                t.take(k as int).lemma_push_to_set_commute(t[k as int]);
            }
            s.insert(ids[k].as_str());
            k = k + 1;
        }
        assert(strings_of(ids@).take(ids@.len() as int) =~= strings_of(ids@));
        s
    }

    /// The ids of `all` that are not in the set.
    pub fn complement_in(&self, all: &Vec<String>) -> (s: Self)
        ensures
            s@ == strings_of(all@).to_set().difference(self@),
    {
        let mut s = IdSet::new();
        let mut k: usize = 0;
        let ghost t = strings_of(all@);
        assert(t.take(0).to_set().difference(self@) =~= Set::<Seq<char>>::empty());
        while k < all.len()
            invariant
                k <= all@.len(),
                t == strings_of(all@),
                s@ == t.take(k as int).to_set().difference(self@),
            decreases all@.len() - k,
        {
            proof {
                assert(t.take(k + 1) =~= t.take(k as int).push(t[k as int]));
                t.take(k as int).lemma_push_to_set_commute(t[k as int]);
            }
            if !self.contains(all[k].as_str()) {
                s.insert(all[k].as_str());
                assert(s@ =~= t.take(k + 1).to_set().difference(self@));
            } else {
                assert(s@ =~= t.take(k + 1).to_set().difference(self@));
            }
            k = k + 1;
        }
        assert(t.take(all@.len() as int) =~= t);
        s
    }
}

} // verus!
