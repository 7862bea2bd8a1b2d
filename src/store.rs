use vstd::prelude::*;

use crate::mode::DisplayMode;

verus! {

/// No two entries share an output identifier.
pub open spec fn keys_unique(s: Seq<(String, DisplayMode)>) -> bool {
    forall|i: int, j: int|
        0 <= i < s.len() && 0 <= j < s.len() && i != j ==> s[i].0@ != s[j].0@
}

/// Whether some entry is keyed by `k`.
pub open spec fn has_key(s: Seq<(String, DisplayMode)>, k: Seq<char>) -> bool {
    exists|i: int| 0 <= i < s.len() && s[i].0@ == k
}

/// The map that a list of entries with distinct keys stands for.
pub open spec fn map_of(s: Seq<(String, DisplayMode)>) -> Map<Seq<char>, DisplayMode> {
    Map::new(
        |k: Seq<char>| has_key(s, k),
        |k: Seq<char>| s[choose|i: int| 0 <= i < s.len() && s[i].0@ == k].1,
    )
}

/// The saved modes: output identifier to the mode it had before it was
/// switched off.
pub struct SavedModes {
    entries: Vec<(String, DisplayMode)>,
}

impl View for SavedModes {
    type V = Map<Seq<char>, DisplayMode>;

    closed spec fn view(&self) -> Map<Seq<char>, DisplayMode> {
        map_of(self.entries@)
    }
}

impl SavedModes {
    #[verifier::type_invariant]
    spec fn inv(self) -> bool {
        keys_unique(self.entries@)
    }

    /// The saved entries in the order in which they were first recorded.
    pub closed spec fn spec_entries(&self) -> Seq<(String, DisplayMode)> {
        self.entries@
    }

    pub fn new() -> (r: SavedModes)
        ensures
            r@ == Map::<Seq<char>, DisplayMode>::empty(),
            r.spec_entries().len() == 0,
    {
        let r = SavedModes { entries: Vec::new() };
        assert(r@ =~= Map::<Seq<char>, DisplayMode>::empty());
        r
    }

    pub fn is_empty(&self) -> (r: bool)
        ensures
            r == (self@ == Map::<Seq<char>, DisplayMode>::empty()),
    {
        if self.entries.len() == 0 {
            assert(self@ =~= Map::<Seq<char>, DisplayMode>::empty());
            true
        } else {
            assert(self@.contains_key(self.entries@[0].0@));
            false
        }
    }

    /// The entries, for writing the saved modes out; their keys are distinct.
    pub fn entries(&self) -> (r: &Vec<(String, DisplayMode)>)
        ensures
            r@ == self.spec_entries(),
            keys_unique(r@),
            map_of(r@) == self@,
    {
        proof {
            use_type_invariant(self);
        }
        &self.entries
    }

    /// The mode saved for `id`, if any.
    pub fn get(&self, id: &String) -> (r: Option<DisplayMode>)
        ensures
            r == (if self@.contains_key(id@) {
                Some(self@[id@])
            } else {
                None::<DisplayMode>
            }),
    {
        proof {
            use_type_invariant(self);
        }
        let mut i: usize = 0;
        while i < self.entries.len()
            invariant
                0 <= i <= self.entries@.len(),
                keys_unique(self.entries@),
                forall|j: int| 0 <= j < i ==> self.entries@[j].0@ != id@,
            decreases self.entries@.len() - i,
        {
            if self.entries[i].0 == *id {
                proof {
                    lemma_map_of_at(self.entries@, i as int);
                }
                return Some(self.entries[i].1);
            }
            i += 1;
        }
        None
    }

    /// Records `mode` for `id`, replacing what was saved for it before.
    pub fn insert(&mut self, id: String, mode: DisplayMode)
        ensures
            final(self)@ == old(self)@.insert(id@, mode),
    {
        proof {
            use_type_invariant(&*self);
        }
        let mut entries: Vec<(String, DisplayMode)> = Vec::new();
        std::mem::swap(&mut entries, &mut self.entries);
        let ghost old_entries = entries@;
        assert(map_of(old_entries) == old(self)@);
        let mut i: usize = 0;
        while i < entries.len()
            invariant
                0 <= i <= entries@.len(),
                entries@ == old_entries,
                map_of(old_entries) == old(self)@,
                keys_unique(old_entries),
                forall|j: int| 0 <= j < i ==> old_entries[j].0@ != id@,
            decreases entries@.len() - i,
        {
            if entries[i].0 == id {
                entries.set(i, (id, mode));
                proof {
                    lemma_map_of_update(old_entries, i as int, entries@[i as int]);
                }
                self.entries = entries;
                return;
            }
            i += 1;
        }
        let ghost k = id@;
        entries.push((id, mode));
        proof {
            assert(entries@.drop_last() =~= old_entries);
            lemma_map_of_push(old_entries, k, mode, entries@);
        }
        self.entries = entries;
    }

    /// Forgets every saved mode.
    pub fn clear(&mut self)
        ensures
            final(self)@ == Map::<Seq<char>, DisplayMode>::empty(),
    {
        self.entries = Vec::new();
        assert(self@ =~= Map::<Seq<char>, DisplayMode>::empty());
    }
}

proof fn lemma_map_of_at(s: Seq<(String, DisplayMode)>, i: int)
    requires
        keys_unique(s),
        0 <= i < s.len(),
    ensures
        map_of(s).contains_key(s[i].0@),
        map_of(s)[s[i].0@] == s[i].1,
{
    let k = s[i].0@;
    assert(has_key(s, k));
    let j = choose|j: int| 0 <= j < s.len() && s[j].0@ == k;
    assert(j == i);
}

proof fn lemma_map_of_update(s: Seq<(String, DisplayMode)>, i: int, e: (String, DisplayMode))
    requires
        keys_unique(s),
        0 <= i < s.len(),
        s[i].0@ == e.0@,
    ensures
        keys_unique(s.update(i, e)),
        map_of(s.update(i, e)) == map_of(s).insert(e.0@, e.1),
{
    let k = e.0@;
    let t = s.update(i, e);
    assert(keys_unique(t));
    lemma_map_of_at(t, i);
    assert forall|q: Seq<char>| #[trigger] has_key(t, q) == has_key(s, q) by {
        if has_key(s, q) {
            let j = choose|j: int| 0 <= j < s.len() && s[j].0@ == q;
            assert(t[j].0@ == q);
        }
        if has_key(t, q) {
            let j = choose|j: int| 0 <= j < t.len() && t[j].0@ == q;
            assert(s[j].0@ == q);
        }
    }
    assert forall|q: Seq<char>| q != k && #[trigger] has_key(s, q) implies map_of(t)[q] == map_of(s)[q] by {
        let j = choose|j: int| 0 <= j < s.len() && s[j].0@ == q;
        lemma_map_of_at(s, j);
        lemma_map_of_at(t, j);
    }
    assert(map_of(t) =~= map_of(s).insert(k, e.1));
}

proof fn lemma_map_of_push(s: Seq<(String, DisplayMode)>, k: Seq<char>, v: DisplayMode, t: Seq<(String, DisplayMode)>)
    requires
        keys_unique(s),
        forall|j: int| 0 <= j < s.len() ==> s[j].0@ != k,
        t.len() == s.len() + 1,
        t.drop_last() == s,
        t.last().0@ == k,
        t.last().1 == v,
    ensures
        keys_unique(t),
        map_of(t) == map_of(s).insert(k, v),
{
    assert forall|j: int| 0 <= j < s.len() implies t[j] == s[j] by {
        assert(t.drop_last()[j] == t[j]);
    }
    assert(keys_unique(t));
    lemma_map_of_at(t, s.len() as int);
    assert forall|q: Seq<char>| q != k implies #[trigger] has_key(t, q) == has_key(s, q) by {
        if has_key(t, q) {
            let j = choose|j: int| 0 <= j < t.len() && t[j].0@ == q;
            assert(s[j].0@ == q);
        }
        if has_key(s, q) {
            let j = choose|j: int| 0 <= j < s.len() && s[j].0@ == q;
            assert(t[j].0@ == q);
        }
    }
    assert forall|q: Seq<char>| q != k && #[trigger] has_key(s, q) implies map_of(t)[q] == map_of(s)[q] by {
        let j = choose|j: int| 0 <= j < s.len() && s[j].0@ == q;
        lemma_map_of_at(s, j);
        lemma_map_of_at(t, j);
    }
    assert(map_of(t) =~= map_of(s).insert(k, v));
}

} // verus!
