//! What the test harness can observe of an emulated execution: the events a
//! contract deposited, the lines it printed, and per-account counters of
//! storage reads, writes and live cells.

use crate::bytemap::{
    bytes_equal, clone_bytes, keys_unique, lemma_keys_unique_push, lemma_keys_unique_remove,
    lemma_map_of_contains_key, lemma_map_of_get, lemma_map_of_push, lemma_map_of_remove, map_of,
};
use vstd::prelude::*;

verus! {

/// Record of an event happening during contract execution.
pub struct EmittedEvent {
    /// The topics attached to the event, each a fixed-width value.
    pub topics: Vec<Vec<u8>>,
    /// The payload of the event.
    pub data: Vec<u8>,
}

/// The mathematical content of an emitted event.
#[verifier::ext_equal]
pub ghost struct EventView {
    pub topics: Seq<Seq<u8>>,
    pub data: Seq<u8>,
}

impl View for EmittedEvent {
    type V = EventView;

    open spec fn view(&self) -> EventView {
        EventView { topics: self.topics.deep_view(), data: self.data@ }
    }
}

impl DeepView for EmittedEvent {
    type V = EventView;

    open spec fn deep_view(&self) -> EventView {
        self@
    }
}

/// Copies an event.
pub fn clone_event(e: &EmittedEvent) -> (r: EmittedEvent)
    ensures
        r@ == e@,
{
    let mut topics: Vec<Vec<u8>> = Vec::new();
    let mut i: usize = 0;
    while i < e.topics.len()
        invariant
            0 <= i <= e.topics@.len(),
            topics@.len() == i,
            forall|j: int| 0 <= j < i ==> topics@[j]@ == e.topics@[j]@,
        decreases e.topics@.len() - i,
    {
        let src = &e.topics[i];
        topics.push(clone_bytes(src));
        i += 1;
    }
    proof {
        assert(topics.deep_view() =~~= e.topics.deep_view());
    }
    EmittedEvent { topics, data: clone_bytes(&e.data) }
}

/// Saturating counters keyed by account identifier.
pub struct Counters {
    entries: Vec<(Vec<u8>, u64)>,
}

/// The count recorded for `k`, absent keys counting as zero.
pub open spec fn counter_at(m: Map<Seq<u8>, u64>, k: Seq<u8>) -> u64 {
    if m.contains_key(k) {
        m[k]
    } else {
        0
    }
}

/// `m` with the count for `k` one higher, saturating at the top.
pub open spec fn bump(m: Map<Seq<u8>, u64>, k: Seq<u8>) -> Map<Seq<u8>, u64> {
    m.insert(
        k,
        if counter_at(m, k) == u64::MAX {
            u64::MAX
        } else {
            (counter_at(m, k) + 1) as u64
        },
    )
}

/// `m` with the count for `k` one lower, saturating at zero.
pub open spec fn lower(m: Map<Seq<u8>, u64>, k: Seq<u8>) -> Map<Seq<u8>, u64> {
    m.insert(
        k,
        if counter_at(m, k) == 0 {
            0u64
        } else {
            (counter_at(m, k) - 1) as u64
        },
    )
}

impl View for Counters {
    type V = Map<Seq<u8>, u64>;

    closed spec fn view(&self) -> Map<Seq<u8>, u64> {
        map_of(self.entries_view())
    }
}

impl Counters {
    spec fn entries_view(&self) -> Seq<(Seq<u8>, u64)> {
        self.entries@.map_values(|p: (Vec<u8>, u64)| (p.0@, p.1))
    }

    /// At most one counter per account.
    pub closed spec fn wf(&self) -> bool {
        keys_unique(self.entries_view())
    }

    /// A fresh set of counters, all zero.
    pub fn new() -> (r: Self)
        ensures
            r.wf(),
            r@ == Map::<Seq<u8>, u64>::empty(),
    {
        let r = Counters { entries: Vec::new() };
        proof {
            assert(r.entries_view() =~= Seq::<(Seq<u8>, u64)>::empty());
        }
        r
    }

    /// The index of the counter for `k`, if any.
    fn index_of(&self, k: &[u8]) -> (r: Option<usize>)
        ensures
            (match r {
                Some(i) => i < self.entries_view().len() && self.entries_view()[i as int].0 == k@,
                None => forall|i: int|
                    0 <= i < self.entries_view().len() ==> self.entries_view()[i].0 != k@,
            }),
    {
        let mut i: usize = 0;
        while i < self.entries.len()
            invariant
                0 <= i <= self.entries@.len(),
                forall|j: int| 0 <= j < i ==> self.entries_view()[j].0 != k@,
            decreases self.entries@.len() - i,
        {
            let p = &self.entries[i];
            if bytes_equal(p.0.as_slice(), k) {
                return Some(i);
            }
            i += 1;
        }
        None
    }

    /// The count recorded for `k`.
    pub fn get(&self, k: &[u8]) -> (r: u64)
        requires
            self.wf(),
        ensures
            r == counter_at(self@, k@),
    {
        match self.index_of(k) {
            Some(i) => {
                proof {
                    lemma_map_of_get(self.entries_view(), i as int);
                }
                self.entries[i].1
            }
            None => {
                proof {
                    lemma_map_of_contains_key(self.entries_view(), k@);
                }
                0
            }
        }
    }

    /// Replaces the count for `k` by `c`.
    fn set(&mut self, k: &[u8], c: u64)
        requires
            old(self).wf(),
        ensures
            final(self).wf(),
            final(self)@ == old(self)@.insert(k@, c),
    {
        let ghost prior = self.entries_view();
        match self.index_of(k) {
            Some(i) => {
                proof {
                    lemma_map_of_get(prior, i as int);
                    lemma_map_of_remove(prior, i as int);
                    lemma_keys_unique_remove(prior, i as int);
                }
                let (key_vec, _) = self.entries.remove(i);
                proof {
                    assert(self.entries_view() =~= prior.remove(i as int));
                }
                self.entries.push((key_vec, c));
                proof {
                    let rem = prior.remove(i as int);
                    assert(self.entries_view() =~= rem.push((k@, c)));
                    lemma_map_of_push(rem, k@, c);
                    assert forall|j: int| 0 <= j < rem.len() implies rem[j].0 != k@ by {
                        let j0 = if j < i as int {
                            j
                        } else {
                            j + 1
                        };
                        assert(rem[j] == prior[j0]);
                    }
                    lemma_keys_unique_push(rem, k@, c);
                    assert(map_of(prior).remove(k@).insert(k@, c) =~= map_of(prior).insert(
                        k@,
                        c,
                    ));
                }
            }
            None => {
                proof {
                    lemma_map_of_contains_key(prior, k@);
                }
                let key_vec = vstd::slice::slice_to_vec(k);
                self.entries.push((key_vec, c));
                proof {
                    assert(self.entries_view() =~= prior.push((k@, c)));
                    lemma_map_of_push(prior, k@, c);
                    lemma_keys_unique_push(prior, k@, c);
                }
            }
        }
    }

    /// Counts one more for `k`, saturating at the top.
    pub fn inc(&mut self, k: &[u8])
        requires
            old(self).wf(),
        ensures
            final(self).wf(),
            final(self)@ == bump(old(self)@, k@),
    {
        let c = self.get(k);
        let c1 = if c == u64::MAX {
            u64::MAX
        } else {
            c + 1
        };
        self.set(k, c1);
    }

    /// Counts one less for `k`, saturating at zero.
    pub fn dec(&mut self, k: &[u8])
        requires
            old(self).wf(),
        ensures
            final(self).wf(),
            final(self)@ == lower(old(self)@, k@),
    {
        let c = self.get(k);
        let c1 = if c == 0 {
            0
        } else {
            c - 1
        };
        self.set(k, c1);
    }
}

/// Append-only logs of what an execution did, and per-account storage
/// counters, all readable by the test harness.
pub struct DebugInfo {
    /// Events deposited by the contract, in order of emission.
    pub emitted_events: Vec<EmittedEvent>,
    /// Lines printed by the contract, in order of printing.
    pub recorded_printlns: Vec<String>,
    /// Storage reads per account.
    pub count_reads: Counters,
    /// Storage writes per account.
    pub count_writes: Counters,
    /// Live storage cells per account.
    pub cells_per_account: Counters,
}

impl DebugInfo {
    pub open spec fn wf(&self) -> bool {
        self.count_reads.wf() && self.count_writes.wf() && self.cells_per_account.wf()
    }

    /// A fresh recorder: empty logs, all counters zero.
    pub fn new() -> (r: Self)
        ensures
            r.wf(),
            r.emitted_events@.len() == 0,
            r.recorded_printlns@.len() == 0,
            r.count_reads@ == Map::<Seq<u8>, u64>::empty(),
            r.count_writes@ == Map::<Seq<u8>, u64>::empty(),
            r.cells_per_account@ == Map::<Seq<u8>, u64>::empty(),
    {
        DebugInfo {
            emitted_events: Vec::new(),
            recorded_printlns: Vec::new(),
            count_reads: Counters::new(),
            count_writes: Counters::new(),
            cells_per_account: Counters::new(),
        }
    }

    /// Appends an event to the log.
    pub fn record_event(&mut self, event: EmittedEvent)
        ensures
            final(self).emitted_events.deep_view() == old(self).emitted_events.deep_view().push(
                event@,
            ),
            final(self).recorded_printlns == old(self).recorded_printlns,
            final(self).count_reads == old(self).count_reads,
            final(self).count_writes == old(self).count_writes,
            final(self).cells_per_account == old(self).cells_per_account,
    {
        let ghost prior = self.emitted_events.deep_view();
        let ghost ev = event@;
        self.emitted_events.push(event);
        proof {
            assert(self.emitted_events.deep_view() =~= prior.push(ev));
        }
    }

    /// Appends a printed line to the log.
    pub fn record_println(&mut self, text: String)
        ensures
            final(self).recorded_printlns@ == old(self).recorded_printlns@.push(text),
            final(self).emitted_events == old(self).emitted_events,
            final(self).count_reads == old(self).count_reads,
            final(self).count_writes == old(self).count_writes,
            final(self).cells_per_account == old(self).cells_per_account,
    {
        self.recorded_printlns.push(text);
    }

    /// A snapshot of the event log, in order of emission.
    pub fn get_emitted_events(&self) -> (r: Vec<EmittedEvent>)
        ensures
            r.deep_view() == self.emitted_events.deep_view(),
    {
        let mut r: Vec<EmittedEvent> = Vec::new();
        let mut i: usize = 0;
        while i < self.emitted_events.len()
            invariant
                0 <= i <= self.emitted_events@.len(),
                r@.len() == i,
                forall|j: int| 0 <= j < i ==> r@[j]@ == self.emitted_events@[j]@,
            decreases self.emitted_events@.len() - i,
        {
            let orig = &self.emitted_events[i];
            r.push(clone_event(orig));
            i += 1;
        }
        proof {
            assert(r.deep_view() =~~= self.emitted_events.deep_view());
        }
        r
    }

    /// A snapshot of the printed lines, in order of printing.
    pub fn get_recorded_printlns(&self) -> (r: Vec<String>)
        ensures
            r@ == self.recorded_printlns@,
    {
        let mut r: Vec<String> = Vec::new();
        let mut i: usize = 0;
        while i < self.recorded_printlns.len()
            invariant
                0 <= i <= self.recorded_printlns@.len(),
                r@.len() == i,
                forall|j: int| 0 <= j < i ==> r@[j] == self.recorded_printlns@[j],
            decreases self.recorded_printlns@.len() - i,
        {
            let line = &self.recorded_printlns[i];
            r.push(line.clone());
            i += 1;
        }
        proof {
            assert(r@ =~= self.recorded_printlns@);
        }
        r
    }

    /// Empties both logs; the counters keep counting.
    pub fn clear(&mut self)
        ensures
            final(self).emitted_events@.len() == 0,
            final(self).recorded_printlns@.len() == 0,
            final(self).count_reads == old(self).count_reads,
            final(self).count_writes == old(self).count_writes,
            final(self).cells_per_account == old(self).cells_per_account,
    {
        self.emitted_events.clear();
        self.recorded_printlns.clear();
    }

    /// Counts one more storage read for `account`.
    pub fn inc_reads(&mut self, account: &[u8])
        requires
            old(self).wf(),
        ensures
            final(self).wf(),
            final(self).count_reads@ == bump(old(self).count_reads@, account@),
            final(self).count_writes == old(self).count_writes,
            final(self).cells_per_account == old(self).cells_per_account,
            final(self).emitted_events == old(self).emitted_events,
            final(self).recorded_printlns == old(self).recorded_printlns,
    {
        self.count_reads.inc(account);
    }

    /// Counts one more storage write for `account`.
    pub fn inc_writes(&mut self, account: &[u8])
        requires
            old(self).wf(),
        ensures
            final(self).wf(),
            final(self).count_writes@ == bump(old(self).count_writes@, account@),
            final(self).count_reads == old(self).count_reads,
            final(self).cells_per_account == old(self).cells_per_account,
            final(self).emitted_events == old(self).emitted_events,
            final(self).recorded_printlns == old(self).recorded_printlns,
    {
        self.count_writes.inc(account);
    }

    /// Counts one more live storage cell for `account`.
    pub fn inc_cells_per_account(&mut self, account: &[u8])
        requires
            old(self).wf(),
        ensures
            final(self).wf(),
            final(self).cells_per_account@ == bump(old(self).cells_per_account@, account@),
            final(self).count_reads == old(self).count_reads,
            final(self).count_writes == old(self).count_writes,
            final(self).emitted_events == old(self).emitted_events,
            final(self).recorded_printlns == old(self).recorded_printlns,
    {
        self.cells_per_account.inc(account);
    }

    /// Counts one less live storage cell for `account`.
    pub fn dec_cells_per_account(&mut self, account: &[u8])
        requires
            old(self).wf(),
        ensures
            final(self).wf(),
            final(self).cells_per_account@ == lower(old(self).cells_per_account@, account@),
            final(self).count_reads == old(self).count_reads,
            final(self).count_writes == old(self).count_writes,
            final(self).emitted_events == old(self).emitted_events,
            final(self).recorded_printlns == old(self).recorded_printlns,
    {
        self.cells_per_account.dec(account);
    }

    /// How often the account read and wrote storage, in that order.
    pub fn get_contract_storage_rw(&self, account: &[u8]) -> (r: (u64, u64))
        requires
            self.wf(),
        ensures
            r.0 == counter_at(self.count_reads@, account@),
            r.1 == counter_at(self.count_writes@, account@),
    {
        (self.count_reads.get(account), self.count_writes.get(account))
    }
}

} // verus!
