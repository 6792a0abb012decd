//! An association list from names to values in which each name occurs once.
use vstd::prelude::*;

verus! {

/// The views of `strings`, in order.
pub open spec fn views_of(strings: Seq<String>) -> Seq<Seq<char>> {
    Seq::new(strings.len(), |i: int| strings[i]@)
}

/// Values keyed by name; inserting under a name already present replaces its value.
pub struct NameMap<V> {
    entries: Vec<(String, V)>,
}

impl<V> View for NameMap<V> {
    type V = Map<Seq<char>, V>;

    closed spec fn view(&self) -> Map<Seq<char>, V> {
        Map::new(
            |k: Seq<char>| exists|i: int| 0 <= i < self.entries@.len() && #[trigger] self.entries@[i].0@ == k,
            |k: Seq<char>|
                self.entries@[choose|i: int| 0 <= i < self.entries@.len() && #[trigger] self.entries@[i].0@ == k].1,
        )
    }
}

impl<V> NameMap<V> {
    /// Each name is held by one entry only.
    pub closed spec fn wf(&self) -> bool {
        forall|i: int, j: int|
            0 <= i < self.entries@.len() && 0 <= j < self.entries@.len() && #[trigger] self.entries@[i].0@
                == #[trigger] self.entries@[j].0@ ==> i == j
    }

    /// The names in the order in which they were first inserted.
    pub closed spec fn names(&self) -> Seq<Seq<char>> {
        Seq::new(self.entries@.len(), |i: int| self.entries@[i].0@)
    }

    proof fn lemma_entry(&self, i: int)
        requires
            self.wf(),
            0 <= i < self.entries@.len(),
        ensures
            self@.contains_key(self.entries@[i].0@),
            self@[self.entries@[i].0@] == self.entries@[i].1,
    {
        let k = self.entries@[i].0@;
        assert(self.entries@[i].0@ == k);
        let j = choose|j: int| 0 <= j < self.entries@.len() && #[trigger] self.entries@[j].0@ == k;
        assert(self.entries@[j].0@ == self.entries@[i].0@);
    }

    pub fn new() -> (r: Self)
        ensures
            r.wf(),
            r@ == Map::<Seq<char>, V>::empty(),
            r.names() == Seq::<Seq<char>>::empty(),
    {
        let r = NameMap { entries: Vec::new() };
        assert(r@ =~= Map::<Seq<char>, V>::empty());
        assert(r.names() =~= Seq::<Seq<char>>::empty());
        r
    }

    fn find(&self, name: &String) -> (r: Option<usize>)
        requires
            self.wf(),
        ensures
            match r {
                Some(i) => i < self.entries@.len() && self.entries@[i as int].0@ == name@,
                None => forall|j: int| 0 <= j < self.entries@.len() ==> #[trigger] self.entries@[j].0@ != name@,
            },
    {
        let mut i: usize = 0;
        while i < self.entries.len()
            invariant
                i <= self.entries@.len(),
                forall|j: int| 0 <= j < i ==> #[trigger] self.entries@[j].0@ != name@,
            decreases self.entries@.len() - i,
        {
            if self.entries[i].0 == *name {
                return Some(i);
            }
            i += 1;
        }
        None
    }

    pub fn contains_key(&self, name: &String) -> (r: bool)
        requires
            self.wf(),
        ensures
            r == self@.contains_key(name@),
    {
        match self.find(name) {
            Some(i) => {
                proof { self.lemma_entry(i as int); }
                true
            },
            None => false,
        }
    }

    pub fn get(&self, name: &String) -> (r: Option<&V>)
        requires
            self.wf(),
        ensures
            match r {
                Some(v) => self@.contains_key(name@) && *v == self@[name@],
                None => !self@.contains_key(name@),
            },
    {
        match self.find(name) {
            Some(i) => {
                proof { self.lemma_entry(i as int); }
                Some(&self.entries[i].1)
            },
            None => None,
        }
    }

    pub fn insert(&mut self, name: String, value: V)
        requires
            old(self).wf(),
        ensures
            final(self).wf(),
            final(self)@ == old(self)@.insert(name@, value),
            old(self)@.contains_key(name@) ==> final(self).names() == old(self).names(),
            !old(self)@.contains_key(name@) ==> final(self).names() == old(self).names().push(name@),
    {
        let ghost old_self = *self;
        match self.find(&name) {
            Some(i) => {
                proof { old_self.lemma_entry(i as int); }
                self.entries.set(i, (name, value));
                assert(self.entries@[i as int].0@ == name@);
                assert forall|a: int, b: int|
                    0 <= a < self.entries@.len() && 0 <= b < self.entries@.len() && #[trigger] self.entries@[a].0@
                        == #[trigger] self.entries@[b].0@ implies a == b by {
                    assert(self.entries@[a].0@ == old_self.entries@[a].0@);
                    assert(self.entries@[b].0@ == old_self.entries@[b].0@);
                }
                assert forall|k: Seq<char>| #[trigger] self@.contains_key(k) == old_self@.insert(name@, value).contains_key(k) by {
                    if old_self@.insert(name@, value).contains_key(k) && k != name@ {
                        let j = choose|j: int| 0 <= j < old_self.entries@.len() && #[trigger] old_self.entries@[j].0@ == k;
                        assert(self.entries@[j].0@ == k);
                    }
                    if self@.contains_key(k) {
                        let j = choose|j: int| 0 <= j < self.entries@.len() && #[trigger] self.entries@[j].0@ == k;
                        assert(old_self.entries@[j].0@ == self.entries@[j].0@);
                    }
                }
                assert forall|k: Seq<char>| #[trigger] self@.contains_key(k) implies self@[k] == old_self@.insert(name@, value)[k] by {
                    let j = choose|j: int| 0 <= j < self.entries@.len() && #[trigger] self.entries@[j].0@ == k;
                    self.lemma_entry(j);
                    if k != name@ {
                        assert(old_self.entries@[j].0@ == k);
                        old_self.lemma_entry(j);
                    }
                }
                assert(self@ =~= old_self@.insert(name@, value));
                assert(self.names() =~= old_self.names());
            },
            None => {
                self.entries.push((name, value));
                let ghost n = old_self.entries@.len() as int;
                assert(self.entries@[n].0@ == name@);
                assert forall|k: Seq<char>| #[trigger] self@.contains_key(k) == old_self@.insert(name@, value).contains_key(k) by {
                    if old_self@.contains_key(k) {
                        let j = choose|j: int| 0 <= j < old_self.entries@.len() && #[trigger] old_self.entries@[j].0@ == k;
                        assert(self.entries@[j].0@ == k);
                    }
                    if self@.contains_key(k) && k != name@ {
                        let j = choose|j: int| 0 <= j < self.entries@.len() && #[trigger] self.entries@[j].0@ == k;
                        assert(old_self.entries@[j].0@ == self.entries@[j].0@);
                    }
                }
                assert forall|k: Seq<char>| #[trigger] self@.contains_key(k) implies self@[k] == old_self@.insert(name@, value)[k] by {
                    let j = choose|j: int| 0 <= j < self.entries@.len() && #[trigger] self.entries@[j].0@ == k;
                    self.lemma_entry(j);
                    if k != name@ {
                        assert(old_self.entries@[j].0@ == k);
                        old_self.lemma_entry(j);
                    }
                }
                assert(self@ =~= old_self@.insert(name@, value));
                assert(self.names() =~= old_self.names().push(name@));
            },
        }
    }

    /// Every name is a key, every key is among the names, and no name occurs twice.
    pub proof fn lemma_names_are_keys(&self)
        requires
            self.wf(),
        ensures
            forall|k: Seq<char>| #[trigger] self@.contains_key(k) <==> self.names().contains(k),
            self.names().no_duplicates(),
    {
        assert forall|k: Seq<char>| #[trigger] self@.contains_key(k) <==> self.names().contains(k) by {
            if self@.contains_key(k) {
                let j = choose|j: int| 0 <= j < self.entries@.len() && #[trigger] self.entries@[j].0@ == k;
                assert(self.names()[j] == k);
            }
            if self.names().contains(k) {
                let j = choose|j: int| 0 <= j < self.names().len() && self.names()[j] == k;
                assert(self.entries@[j].0@ == k);
            }
        }
        assert forall|i: int, j: int| 0 <= i < self.names().len() && 0 <= j < self.names().len() && i != j implies self.names()[i]
            != self.names()[j] by {
            assert(self.names()[i] == self.entries@[i].0@);
            assert(self.names()[j] == self.entries@[j].0@);
        }
    }

    /// The names, in the order in which they were first inserted.
    pub fn names_in_order(&self) -> (r: Vec<String>)
        ensures
            views_of(r@) == self.names(),
    {
        let mut r: Vec<String> = Vec::new();
        let mut i: usize = 0;
        while i < self.entries.len()
            invariant
                i <= self.entries@.len(),
                views_of(r@) == self.names().subrange(0, i as int),
            decreases self.entries@.len() - i,
        {
            let ghost before = r@;
            r.push(self.entries[i].0.clone());
            proof {
                assert(r@ == before.push(self.entries@[i as int].0));
                assert(self.names()[i as int] == self.entries@[i as int].0@);
                assert(views_of(before) == self.names().subrange(0, i as int));
                assert(views_of(before).len() == i);
                assert(before.len() == i);
                assert forall|j: int| 0 <= j < i implies #[trigger] r@[j]@ == self.names()[j] by {
                    assert(r@[j] == before[j]);
                    assert(views_of(before)[j] == before[j]@);
                }
                assert(views_of(r@) =~= self.names().subrange(0, i + 1));
            }
            i += 1;
        }
        proof {
            assert(self.names().subrange(0, self.entries@.len() as int) =~= self.names());
        }
        r
    }
}

} // verus!
