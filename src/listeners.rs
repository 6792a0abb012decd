//! Event listeners of every class, kept in registration order.
use vstd::prelude::*;

verus! {

/// One registration: `listener` listens for `event` on `scope` of the class `class_name`.
pub struct ListenerRecord {
    pub class_name: String,
    pub scope: Option<i32>,
    pub event: String,
    pub listener: u64,
}

impl ListenerRecord {
    pub open spec fn is_for(&self, class: Seq<char>, scope: Option<i32>, event: Seq<char>) -> bool {
        self.class_name@ == class && self.scope == scope && self.event@ == event
    }
}

/// The listeners among `records` for one class, scope and event, oldest first.
pub open spec fn listeners_in(records: Seq<ListenerRecord>, class: Seq<char>, scope: Option<i32>, event: Seq<char>) -> Seq<u64>
    decreases records.len(),
{
    if records.len() == 0 {
        Seq::empty()
    } else {
        let rest = listeners_in(records.drop_first(), class, scope, event);
        if records[0].is_for(class, scope, event) {
            seq![records[0].listener] + rest
        } else {
            rest
        }
    }
}

/// `q` without its first occurrence of `x` (unchanged where `x` does not occur).
pub open spec fn remove_first(q: Seq<u64>, x: u64) -> Seq<u64>
    decreases q.len(),
{
    if q.len() == 0 {
        q
    } else if q[0] == x {
        q.drop_first()
    } else {
        seq![q[0]] + remove_first(q.drop_first(), x)
    }
}

proof fn lemma_listeners_push(records: Seq<ListenerRecord>, r: ListenerRecord, class: Seq<char>, scope: Option<i32>, event: Seq<char>)
    ensures
        listeners_in(records.push(r), class, scope, event) == if r.is_for(class, scope, event) {
            listeners_in(records, class, scope, event).push(r.listener)
        } else {
            listeners_in(records, class, scope, event)
        },
    decreases records.len(),
{
    if records.len() == 0 {
        assert(records.push(r).drop_first() =~= Seq::<ListenerRecord>::empty());
        assert(records.push(r)[0] == r);
        assert(listeners_in(records.push(r).drop_first(), class, scope, event) == Seq::<u64>::empty());
        assert(listeners_in(records, class, scope, event) == Seq::<u64>::empty());
        assert(seq![r.listener] + Seq::<u64>::empty() =~= Seq::<u64>::empty().push(r.listener));
    } else {
        assert(records.push(r).drop_first() =~= records.drop_first().push(r));
        assert(records.push(r)[0] == records[0]);
        lemma_listeners_push(records.drop_first(), r, class, scope, event);
        let rest = listeners_in(records.drop_first(), class, scope, event);
        if r.is_for(class, scope, event) {
            assert(seq![records[0].listener] + rest.push(r.listener) =~= (seq![records[0].listener] + rest).push(r.listener));
        }
    }
}

proof fn lemma_listeners_remove(records: Seq<ListenerRecord>, i: int, class: Seq<char>, scope: Option<i32>, event: Seq<char>)
    requires
        0 <= i < records.len(),
        forall|j: int| 0 <= j < i ==> !(#[trigger] records[j].is_for(records[i].class_name@, records[i].scope, records[i].event@)
            && records[j].listener == records[i].listener),
    ensures
        listeners_in(records.remove(i), class, scope, event) == if records[i].is_for(class, scope, event) {
            remove_first(listeners_in(records, class, scope, event), records[i].listener)
        } else {
            listeners_in(records, class, scope, event)
        },
    decreases records.len(),
{
    if i == 0 {
        assert(records.remove(0) =~= records.drop_first());
    } else {
        let rest = records.drop_first();
        assert(records.remove(i).drop_first() =~= rest.remove(i - 1));
        assert(records.remove(i)[0] == records[0]);
        assert forall|j: int| 0 <= j < i - 1 implies !(#[trigger] rest[j].is_for(rest[i - 1].class_name@, rest[i - 1].scope, rest[i - 1].event@)
            && rest[j].listener == rest[i - 1].listener) by {
            assert(rest[j] == records[j + 1]);
        }
        lemma_listeners_remove(rest, i - 1, class, scope, event);
        if records[i].is_for(class, scope, event) && records[0].is_for(class, scope, event) {
            let q = listeners_in(records, class, scope, event);
            assert(q[0] == records[0].listener);
            assert(q.drop_first() =~= listeners_in(rest, class, scope, event));
        }
    }
}

proof fn lemma_remove_absent(records: Seq<ListenerRecord>, class: Seq<char>, scope: Option<i32>, event: Seq<char>, x: u64)
    requires
        forall|j: int| 0 <= j < records.len() ==> !(#[trigger] records[j].is_for(class, scope, event) && records[j].listener == x),
    ensures
        remove_first(listeners_in(records, class, scope, event), x) == listeners_in(records, class, scope, event),
    decreases records.len(),
{
    if records.len() > 0 {
        let rest = records.drop_first();
        assert forall|j: int| 0 <= j < rest.len() implies !(#[trigger] rest[j].is_for(class, scope, event) && rest[j].listener == x) by {
            assert(rest[j] == records[j + 1]);
        }
        lemma_remove_absent(rest, class, scope, event, x);
        if records[0].is_for(class, scope, event) {
            let q = listeners_in(records, class, scope, event);
            assert(q[0] == records[0].listener);
            assert(q.drop_first() =~= listeners_in(rest, class, scope, event));
        }
    }
}

/// Whether a registration of `rec_class` on `rec_scope` goes when the listeners of `class` are
/// dropped: all of them where `which` is `None`, else those of the one instance `which` names.
pub open spec fn is_dropped(rec_class: Seq<char>, rec_scope: Option<i32>, class: Seq<char>, which: Option<i32>) -> bool {
    rec_class == class && (which is None || rec_scope == which)
}

fn same_scope_exec(a: Option<i32>, b: Option<i32>) -> (r: bool)
    ensures
        r == (a == b),
{
    match (a, b) {
        (Some(x), Some(y)) => x == y,
        (None, None) => true,
        _ => false,
    }
}

/// All registrations, in the order in which they were made.
pub struct ListenerTable {
    records: Vec<ListenerRecord>,
}

impl ListenerTable {
    /// The listeners for `event` on `scope` of class `class`, in registration order.
    pub closed spec fn listeners(&self, class: Seq<char>, scope: Option<i32>, event: Seq<char>) -> Seq<u64> {
        listeners_in(self.records@, class, scope, event)
    }

    pub fn new() -> (r: Self)
        ensures
            forall|c: Seq<char>, s: Option<i32>, e: Seq<char>| #[trigger] r.listeners(c, s, e) == Seq::<u64>::empty(),
    {
        ListenerTable { records: Vec::new() }
    }

    /// Appends `listener` behind the listeners already registered for the same key.
    pub fn add(&mut self, class: &String, scope: Option<i32>, event: &String, listener: u64)
        ensures
            forall|c: Seq<char>, s: Option<i32>, e: Seq<char>| #[trigger] final(self).listeners(c, s, e) == if c == class@
                && s == scope && e == event@ {
                old(self).listeners(c, s, e).push(listener)
            } else {
                old(self).listeners(c, s, e)
            },
    {
        let r = ListenerRecord { class_name: class.clone(), scope, event: event.clone(), listener };
        let ghost old_records = self.records@;
        self.records.push(r);
        proof {
            assert forall|c: Seq<char>, s: Option<i32>, e: Seq<char>| #[trigger] self.listeners(c, s, e) == if c == class@
                && s == scope && e == event@ {
                listeners_in(old_records, c, s, e).push(listener)
            } else {
                listeners_in(old_records, c, s, e)
            } by {
                lemma_listeners_push(old_records, r, c, s, e);
            }
        }
    }

    /// Removes the oldest registration of `listener` for the key; nothing changes where there is none.
    pub fn remove(&mut self, class: &String, scope: Option<i32>, event: &String, listener: u64)
        ensures
            forall|c: Seq<char>, s: Option<i32>, e: Seq<char>| #[trigger] final(self).listeners(c, s, e) == if c == class@
                && s == scope && e == event@ {
                remove_first(old(self).listeners(c, s, e), listener)
            } else {
                old(self).listeners(c, s, e)
            },
    {
        let mut i: usize = 0;
        while i < self.records.len()
            invariant
                i <= self.records@.len(),
                self.records@ == old(self).records@,
                forall|j: int| 0 <= j < i ==> !(#[trigger] self.records@[j].is_for(class@, scope, event@)
                    && self.records@[j].listener == listener),
            decreases self.records@.len() - i,
        {
            let r = &self.records[i];
            if r.class_name == *class && same_scope_exec(r.scope, scope) && r.event == *event && r.listener == listener {
                let ghost old_records = self.records@;
                self.records.remove(i);
                proof {
                    assert forall|c: Seq<char>, s: Option<i32>, e: Seq<char>| #[trigger] self.listeners(c, s, e) == if c
                        == class@ && s == scope && e == event@ {
                        remove_first(listeners_in(old_records, c, s, e), listener)
                    } else {
                        listeners_in(old_records, c, s, e)
                    } by {
                        lemma_listeners_remove(old_records, i as int, c, s, e);
                    }
                }
                return;
            }
            i += 1;
        }
        proof {
            lemma_remove_absent(self.records@, class@, scope, event@, listener);
        }
    }

    /// The listeners for the key, in registration order.
    pub fn targets(&self, class: &String, scope: Option<i32>, event: &String) -> (r: Vec<u64>)
        ensures
            r@ == self.listeners(class@, scope, event@),
    {
        let mut r: Vec<u64> = Vec::new();
        let mut i: usize = 0;
        while i < self.records.len()
            invariant
                i <= self.records@.len(),
                r@ == listeners_in(self.records@.subrange(0, i as int), class@, scope, event@),
            decreases self.records@.len() - i,
        {
            let rec = &self.records[i];
            proof {
                assert(self.records@.subrange(0, i + 1) =~= self.records@.subrange(0, i as int).push(self.records@[i as int]));
                lemma_listeners_push(self.records@.subrange(0, i as int), self.records@[i as int], class@, scope, event@);
            }
            if rec.class_name == *class && same_scope_exec(rec.scope, scope) && rec.event == *event {
                r.push(rec.listener);
            }
            i += 1;
        }
        assert(self.records@.subrange(0, self.records@.len() as int) =~= self.records@);
        r
    }

    /// Drops the listeners of class `class`: of every scope where `which` is `None`, else of the
    /// instance `which` names. All other listeners stay, in their order.
    pub fn drop_listeners(&mut self, class: &String, which: Option<i32>)
        ensures
            forall|c: Seq<char>, s: Option<i32>, e: Seq<char>| #[trigger] final(self).listeners(c, s, e) == if is_dropped(
                c,
                s,
                class@,
                which,
            ) {
                Seq::<u64>::empty()
            } else {
                old(self).listeners(c, s, e)
            },
    {
        let mut kept: Vec<ListenerRecord> = Vec::new();
        let mut i: usize = 0;
        while i < self.records.len()
            invariant
                i <= self.records@.len(),
                self.records@ == old(self).records@,
                forall|c: Seq<char>, s: Option<i32>, e: Seq<char>| #[trigger] listeners_in(kept@, c, s, e) == if is_dropped(
                    c,
                    s,
                    class@,
                    which,
                ) {
                    Seq::<u64>::empty()
                } else {
                    listeners_in(self.records@.subrange(0, i as int), c, s, e)
                },
            decreases self.records@.len() - i,
        {
            let rec = &self.records[i];
            let goes = rec.class_name == *class && match which {
                None => true,
                Some(_) => same_scope_exec(rec.scope, which),
            };
            let ghost before = kept@;
            proof {
                assert(self.records@.subrange(0, i + 1) =~= self.records@.subrange(0, i as int).push(self.records@[i as int]));
            }
            if !goes {
                let copy = ListenerRecord {
                    class_name: rec.class_name.clone(),
                    scope: rec.scope,
                    event: rec.event.clone(),
                    listener: rec.listener,
                };
                kept.push(copy);
            }
            proof {
                assert forall|c: Seq<char>, s: Option<i32>, e: Seq<char>| #[trigger] listeners_in(kept@, c, s, e) == if is_dropped(
                    c,
                    s,
                    class@,
                    which,
                ) {
                    Seq::<u64>::empty()
                } else {
                    listeners_in(self.records@.subrange(0, i + 1), c, s, e)
                } by {
                    lemma_listeners_push(self.records@.subrange(0, i as int), self.records@[i as int], c, s, e);
                    if !goes {
                        lemma_listeners_push(before, kept@.last(), c, s, e);
                        assert(kept@ =~= before.push(kept@.last()));
                    }
                }
            }
            i += 1;
        }
        proof {
            assert(self.records@.subrange(0, self.records@.len() as int) =~= self.records@);
        }
        self.records = kept;
    }
}

} // verus!
