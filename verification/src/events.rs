//! Per-request event buffer and drain protocol.
//!
//! Decoded events are keyed by the caller-supplied request identifier. A
//! queue is created lazily on first use, `append` adds to its end, and
//! `drain` atomically hands the whole queue over and resets it: events
//! appended after a drain form the next batch, so a polling consumer sees
//! every event exactly once and in order. A cancellation set tells the
//! streaming ingestion which requests must stop consuming bytes; it is
//! checked, never cleared, and already-buffered events stay available to a
//! final drain.

use vstd::prelude::*;

verus! {

/// The view of one queue: each buffered event as its character sequence.
pub open spec fn queue_view(q: Seq<String>) -> Seq<Seq<char>> {
    q.map(|i: int, s: String| s@)
}

/// The mapping an association list denotes; a later entry would win, but
/// well-formed buffers keep keys unique.
pub open spec fn alist_view(s: Seq<(u64, Vec<String>)>) -> Map<u64, Seq<Seq<char>>>
    decreases s.len(),
{
    if s.len() == 0 {
        Map::empty()
    } else {
        alist_view(s.drop_last()).insert(s.last().0, queue_view(s.last().1@))
    }
}

/// The keys of an association list, in entry order.
pub open spec fn keys_of(s: Seq<(u64, Vec<String>)>) -> Seq<u64> {
    s.map(|i: int, p: (u64, Vec<String>)| p.0)
}

/// No request identifier owns two entries.
pub open spec fn unique_keys(s: Seq<(u64, Vec<String>)>) -> bool {
    forall|i: int, j: int| 0 <= i < j < s.len() ==> s[i].0 != s[j].0
}

/// The queue a request currently owns: empty if none was created yet.
pub open spec fn queue_or_empty(m: Map<u64, Seq<Seq<char>>>, id: u64) -> Seq<Seq<char>> {
    if m.dom().contains(id) {
        m[id]
    } else {
        Seq::empty()
    }
}

/// The mapping after one event is appended for `id`.
pub open spec fn append_event(m: Map<u64, Seq<Seq<char>>>, id: u64, e: Seq<char>) -> Map<
    u64,
    Seq<Seq<char>>,
> {
    m.insert(id, queue_or_empty(m, id).push(e))
}

/// The mapping after `id` is drained: its queue exists and is empty.
pub open spec fn drained(m: Map<u64, Seq<Seq<char>>>, id: u64) -> Map<u64, Seq<Seq<char>>> {
    m.insert(id, Seq::empty())
}

/// Mapping from request identifier to its pending decoded events, plus the
/// set of requests whose ingestion must halt.
pub struct EventBuffers {
    entries: Vec<(u64, Vec<String>)>,
    canceled: Vec<u64>,
}

impl EventBuffers {
    /// The pending events of every request.
    pub closed spec fn events(self) -> Map<u64, Seq<Seq<char>>> {
        alist_view(self.entries@)
    }

    /// The requests marked for cancellation.
    pub closed spec fn canceled_set(self) -> Set<u64> {
        self.canceled@.to_set()
    }

    pub closed spec fn wf(self) -> bool {
        unique_keys(self.entries@)
    }

    pub fn new() -> (b: EventBuffers)
        ensures
            b.wf(),
            b.events() == Map::<u64, Seq<Seq<char>>>::empty(),
            b.canceled_set() == Set::<u64>::empty(),
    {
        let b = EventBuffers { entries: Vec::new(), canceled: Vec::new() };
        proof {
            assert(b.canceled@.to_set() =~= Set::<u64>::empty());
        }
        b
    }

    /// Index of the entry owning `id`, if one exists.
    fn find_entry(&self, id: u64) -> (r: Option<usize>)
        ensures
            match r {
                Some(i) => i < self.entries@.len() && self.entries@[i as int].0 == id,
                None => forall|j: int| 0 <= j < self.entries@.len() ==> self.entries@[j].0 != id,
            },
    {
        let mut i: usize = 0;
        while i < self.entries.len()
            invariant
                i <= self.entries@.len(),
                forall|j: int| 0 <= j < i ==> self.entries@[j].0 != id,
            decreases self.entries@.len() - i,
        {
            if self.entries[i].0 == id {
                return Some(i);
            }
            i = i + 1;
        }
        None
    }

    /// Append one decoded event to the queue of `id`, creating the queue on
    /// first use. Queues only ever grow between drains, and no other
    /// request's queue is touched.
    pub fn append(&mut self, id: u64, event: String)
        requires
            old(self).wf(),
        ensures
            final(self).wf(),
            final(self).events() == append_event(old(self).events(), id, event@),
            final(self).canceled_set() == old(self).canceled_set(),
    {
        match self.find_entry(id) {
            Some(i) => {
                let ghost s0 = self.entries@;
                proof {
                    lemma_alist_view_at_index(s0, i as int);
                }
                let entry = vstd::std_specs::vec::vec_index_mut(&mut self.entries, i);
                entry.1.push(event);
                proof {
                    lemma_alist_view_update(s0, i as int, self.entries@[i as int]);
                    assert(queue_view(self.entries@[i as int].1@) =~= queue_or_empty(
                        alist_view(s0),
                        id,
                    ).push(event@));
                }
            },
            None => {
                let ghost s0 = self.entries@;
                proof {
                    lemma_alist_view_complete(s0, id);
                }
                let mut q: Vec<String> = Vec::new();
                q.push(event);
                self.entries.push((id, q));
                proof {
                    assert(self.entries@.drop_last() =~= s0);
                    assert(queue_view(q@) =~= queue_or_empty(alist_view(s0), id).push(event@));
                }
            },
        }
    }

    /// Atomically hand over the pending queue of `id` and reset it: the
    /// events come back in append order, and later appends start the next
    /// batch. Draining an unknown request creates its (empty) queue, as
    /// appending does.
    pub fn drain(&mut self, id: u64) -> (batch: Vec<String>)
        requires
            old(self).wf(),
        ensures
            final(self).wf(),
            queue_view(batch@) == queue_or_empty(old(self).events(), id),
            final(self).events() == drained(old(self).events(), id),
            final(self).canceled_set() == old(self).canceled_set(),
    {
        match self.find_entry(id) {
            Some(i) => {
                let ghost s0 = self.entries@;
                proof {
                    lemma_alist_view_at_index(s0, i as int);
                }
                let entry = vstd::std_specs::vec::vec_index_mut(&mut self.entries, i);
                let mut batch: Vec<String> = Vec::new();
                core::mem::swap(&mut entry.1, &mut batch);
                proof {
                    lemma_alist_view_update(s0, i as int, self.entries@[i as int]);
                    assert(queue_view(Seq::<String>::empty()) =~= Seq::<Seq<char>>::empty());
                }
                batch
            },
            None => {
                let ghost s0 = self.entries@;
                proof {
                    lemma_alist_view_complete(s0, id);
                }
                let q: Vec<String> = Vec::new();
                proof {
                    assert(queue_view(q@) =~= Seq::<Seq<char>>::empty());
                }
                self.entries.push((id, q));
                proof {
                    assert(self.entries@.drop_last() =~= s0);
                }
                Vec::new()
            },
        }
    }

    /// Whether ingestion for `id` must halt.
    pub fn is_canceled(&self, id: u64) -> (r: bool)
        ensures
            r == self.canceled_set().contains(id),
    {
        seq_contains_u64(&self.canceled, id)
    }

    /// Mark one request canceled. Its buffered events stay available.
    pub fn cancel(&mut self, id: u64)
        requires
            old(self).wf(),
        ensures
            final(self).wf(),
            final(self).events() == old(self).events(),
            final(self).canceled_set() == old(self).canceled_set().insert(id),
    {
        if !seq_contains_u64(&self.canceled, id) {
            let ghost c0 = self.canceled@;
            self.canceled.push(id);
            proof {
                assert(self.canceled@.to_set() =~= c0.to_set().insert(id)) by {
                    assert forall|x: u64| self.canceled@.contains(x) implies c0.contains(x) || x
                        == id by {
                        let w = choose|w: int|
                            0 <= w < self.canceled@.len() && self.canceled@[w] == x;
                        if w < c0.len() {
                            assert(c0[w] == x);
                        }
                    }
                    assert forall|x: u64| c0.contains(x) implies self.canceled@.contains(x) by {
                        let w = choose|w: int| 0 <= w < c0.len() && c0[w] == x;
                        assert(self.canceled@[w] == x);
                    }
                    assert(self.canceled@.contains(id)) by {
                        assert(self.canceled@[c0.len() as int] == id);
                    }
                }
            }
        } else {
            proof {
                assert(self.canceled@.to_set() =~= self.canceled@.to_set().insert(id));
            }
        }
    }

    /// Mark every request that currently owns a queue canceled: the stop
    /// command for all outstanding streamed completions at once.
    pub fn cancel_all(&mut self)
        requires
            old(self).wf(),
        ensures
            final(self).wf(),
            final(self).events() == old(self).events(),
            final(self).canceled_set() == old(self).canceled_set().union(
                old(self).events().dom(),
            ),
    {
        proof {
            lemma_alist_view_dom(self.entries@);
        }
        let n = self.entries.len();
        let mut i: usize = 0;
        while i < n
            invariant
                old(self).wf(),
                self.wf(),
                n == self.entries@.len(),
                i <= n,
                self.entries@ == old(self).entries@,
                self.events() == old(self).events(),
                self.canceled@.to_set() == old(self).canceled@.to_set().union(
                    keys_of(old(self).entries@).take(i as int).to_set(),
                ),
            decreases n - i,
        {
            let k = self.entries[i].0;
            let ghost cpre = self.canceled@;
            if !seq_contains_u64(&self.canceled, k) {
                self.canceled.push(k);
                proof {
                    assert(self.canceled@.to_set() =~= cpre.to_set().insert(k)) by {
                        assert forall|x: u64| self.canceled@.contains(x) implies cpre.contains(x)
                            || x == k by {
                            let w = choose|w: int|
                                0 <= w < self.canceled@.len() && self.canceled@[w] == x;
                            if w < cpre.len() {
                                assert(cpre[w] == x);
                            }
                        }
                        assert forall|x: u64| cpre.contains(x) implies self.canceled@.contains(
                            x,
                        ) by {
                            let w = choose|w: int| 0 <= w < cpre.len() && cpre[w] == x;
                            assert(self.canceled@[w] == x);
                        }
                        assert(self.canceled@.contains(k)) by {
                            assert(self.canceled@[cpre.len() as int] == k);
                        }
                    }
                }
            } else {
                proof {
                    assert(self.canceled@.to_set() =~= cpre.to_set().insert(k));
                }
            }
            proof {
                assert(keys_of(old(self).entries@)[i as int] == k);
                assert(keys_of(old(self).entries@).take(i as int).push(k) =~= keys_of(
                    old(self).entries@,
                ).take(i + 1));
                lemma_to_set_push(keys_of(old(self).entries@).take(i as int), k);
                assert(self.canceled@.to_set() =~= old(self).canceled@.to_set().union(
                    keys_of(old(self).entries@).take(i + 1).to_set(),
                ));
            }
            i = i + 1;
        }
        proof {
            assert(keys_of(old(self).entries@).take(n as int) =~= keys_of(old(self).entries@));
        }
    }
}

/// Whether `x` occurs in `v`.
fn seq_contains_u64(v: &Vec<u64>, x: u64) -> (r: bool)
    ensures
        r == v@.contains(x),
{
    let mut i: usize = 0;
    while i < v.len()
        invariant
            i <= v@.len(),
            forall|j: int| 0 <= j < i ==> v@[j] != x,
        decreases v@.len() - i,
    {
        if v[i] == x {
            return true;
        }
        i = i + 1;
    }
    false
}

proof fn lemma_to_set_push(s: Seq<u64>, x: u64)
    ensures
        s.push(x).to_set() == s.to_set().insert(x),
{
    assert(s.push(x).to_set() =~= s.to_set().insert(x)) by {
        assert forall|y: u64| s.push(x).contains(y) implies s.contains(y) || y == x by {
            let w = choose|w: int| 0 <= w < s.push(x).len() && s.push(x)[w] == y;
            if w < s.len() {
                assert(s[w] == y);
            }
        }
        assert forall|y: u64| s.contains(y) implies s.push(x).contains(y) by {
            let w = choose|w: int| 0 <= w < s.len() && s[w] == y;
            assert(s.push(x)[w] == y);
        }
        assert(s.push(x)[s.len() as int] == x);
    }
}

/// An entry's key is in the view's domain, mapped to that entry's queue.
proof fn lemma_alist_view_at_index(s: Seq<(u64, Vec<String>)>, i: int)
    requires
        unique_keys(s),
        0 <= i < s.len(),
    ensures
        alist_view(s).dom().contains(s[i].0),
        alist_view(s)[s[i].0] == queue_view(s[i].1@),
    decreases s.len(),
{
    if i < s.len() - 1 {
        lemma_alist_view_at_index(s.drop_last(), i);
    }
}

/// A key of no entry is outside the view's domain.
proof fn lemma_alist_view_complete(s: Seq<(u64, Vec<String>)>, id: u64)
    requires
        forall|j: int| 0 <= j < s.len() ==> s[j].0 != id,
    ensures
        !alist_view(s).dom().contains(id),
    decreases s.len(),
{
    if s.len() > 0 {
        lemma_alist_view_complete(s.drop_last(), id);
    }
}

/// Replacing the entry at `i`, key unchanged, replaces exactly that key's
/// queue in the view and keeps the keys unique.
proof fn lemma_alist_view_update(s: Seq<(u64, Vec<String>)>, i: int, e: (u64, Vec<String>))
    requires
        unique_keys(s),
        0 <= i < s.len(),
        e.0 == s[i].0,
    ensures
        unique_keys(s.update(i, e)),
        alist_view(s.update(i, e)) == alist_view(s).insert(e.0, queue_view(e.1@)),
    decreases s.len(),
{
    let s2 = s.update(i, e);
    if i == s.len() - 1 {
        assert(s2.drop_last() =~= s.drop_last());
        assert(alist_view(s2) =~= alist_view(s).insert(e.0, queue_view(e.1@)));
    } else {
        lemma_alist_view_update(s.drop_last(), i, e);
        assert(s2.drop_last() =~= s.drop_last().update(i, e));
        assert(s2.last() == s.last());
        assert(e.0 != s.last().0);
        assert(alist_view(s2) =~= alist_view(s).insert(e.0, queue_view(e.1@)));
    }
}

/// The view's domain is exactly the set of entry keys.
proof fn lemma_alist_view_dom(s: Seq<(u64, Vec<String>)>)
    ensures
        alist_view(s).dom() == keys_of(s).to_set(),
    decreases s.len(),
{
    if s.len() == 0 {
        assert(alist_view(s).dom() =~= keys_of(s).to_set());
    } else {
        lemma_alist_view_dom(s.drop_last());
        assert(keys_of(s.drop_last()) =~= keys_of(s).drop_last());
        lemma_to_set_push(keys_of(s).drop_last(), s.last().0);
        assert(keys_of(s).drop_last().push(s.last().0) =~= keys_of(s));
        assert(alist_view(s).dom() =~= keys_of(s).to_set());
    }
}

/// Drain is idempotent and lossless for a fresh request: two appended
/// events come back in order from one drain, and an immediately following
/// drain yields nothing.
pub proof fn lemma_drain_idempotent(
    m: Map<u64, Seq<Seq<char>>>,
    id: u64,
    e1: Seq<char>,
    e2: Seq<char>,
)
    requires
        queue_or_empty(m, id) == Seq::<Seq<char>>::empty(),
    ensures
        queue_or_empty(append_event(append_event(m, id, e1), id, e2), id) == seq![e1, e2],
        queue_or_empty(drained(append_event(append_event(m, id, e1), id, e2), id), id)
            == Seq::<Seq<char>>::empty(),
{
    assert(queue_or_empty(append_event(append_event(m, id, e1), id, e2), id) =~= seq![e1, e2]);
}

/// Drains batch without loss, duplication or reordering: one drain takes
/// exactly the queue so far, and events appended afterwards are exactly
/// what the next drain returns, in append order.
pub proof fn lemma_drain_batches(
    m: Map<u64, Seq<Seq<char>>>,
    id: u64,
    e2: Seq<char>,
    e3: Seq<char>,
)
    ensures
        queue_or_empty(append_event(append_event(drained(m, id), id, e2), id, e3), id) == seq![
            e2,
            e3,
        ],
{
    assert(queue_or_empty(append_event(append_event(drained(m, id), id, e2), id, e3), id)
        =~= seq![e2, e3]);
}

} // verus!
