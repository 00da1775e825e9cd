//! The shadow page tables the hardware walks, and the detector for a TLB
//! that caches invalid entries.
use vstd::prelude::*;
use std::collections::HashMap;
use crate::pte::ShadowRoot;

verus! {

broadcast use vstd::std_specs::hash::group_hash_axioms;

/// One table of page entries per paged shadow space; a page with no entry
/// reads as 0, the invalid entry.
pub struct ShadowPageTables {
    uva: HashMap<u64, u64>,
    kva: HashMap<u64, u64>,
    mva: HashMap<u64, u64>,
}

impl ShadowPageTables {
    pub closed spec fn table(&self, root: ShadowRoot) -> Map<u64, u64> {
        match root {
            ShadowRoot::UVA => self.uva@,
            ShadowRoot::KVA => self.kva@,
            ShadowRoot::MVA => self.mva@,
            ShadowRoot::MPA => Map::empty(),
        }
    }

    /// The entry the hardware sees for `page` under `root`.
    pub open spec fn entry(&self, root: ShadowRoot, page: u64) -> u64 {
        if self.table(root).contains_key(page) {
            self.table(root)[page]
        } else {
            0
        }
    }

    pub fn new() -> (r: ShadowPageTables)
        ensures
            forall|root: ShadowRoot, page: u64| r.entry(root, page) == 0,
    {
        ShadowPageTables { uva: HashMap::new(), kva: HashMap::new(), mva: HashMap::new() }
    }

    pub fn lookup(&self, root: ShadowRoot, page: u64) -> (r: u64)
        ensures
            r == self.entry(root, page),
    {
        let found = match root {
            ShadowRoot::UVA => self.uva.get(&page),
            ShadowRoot::KVA => self.kva.get(&page),
            ShadowRoot::MVA => self.mva.get(&page),
            ShadowRoot::MPA => None,
        };
        match found {
            Some(v) => *v,
            None => 0,
        }
    }

    /// Replaces the entry for `page` under `root`, returning the one it had.
    pub fn rmw_mapping(&mut self, root: ShadowRoot, page: u64, new_entry: u64) -> (prev: u64)
        requires
            root != ShadowRoot::MPA,
        ensures
            prev == old(self).entry(root, page),
            final(self).entry(root, page) == new_entry,
            forall|r: ShadowRoot, p: u64|
                !(r == root && p == page) ==> final(self).entry(r, p) == old(self).entry(r, p),
    {
        let found = match root {
            ShadowRoot::UVA => self.uva.insert(page, new_entry),
            ShadowRoot::KVA => self.kva.insert(page, new_entry),
            _ => self.mva.insert(page, new_entry),
        };
        match found {
            Some(v) => v,
            None => 0,
        }
    }
}

/// Whether the hardware TLB appears to cache invalid entries: counting
/// faults that rewrote an unchanged entry, or latched once ten came in a row.
#[derive(Clone, Copy, Debug, PartialEq, Eq, Structural)]
pub enum TlbStaleness {
    Counting(u64),
    Latched,
}

pub const STALE_FAULT_LIMIT: u64 = 10;

pub open spec fn stale_step(s: TlbStaleness, unchanged: bool) -> TlbStaleness {
    match s {
        TlbStaleness::Latched => TlbStaleness::Latched,
        TlbStaleness::Counting(n) => if !unchanged {
            TlbStaleness::Counting(1)
        } else if n + 1 == STALE_FAULT_LIMIT {
            TlbStaleness::Latched
        } else {
            TlbStaleness::Counting((n + 1) as u64)
        },
    }
}

/// The state after `k` faults in a row that each left the entry unchanged.
pub open spec fn stale_steps_unchanged(s: TlbStaleness, k: nat) -> TlbStaleness
    decreases k,
{
    if k == 0 {
        s
    } else {
        stale_step(stale_steps_unchanged(s, (k - 1) as nat), true)
    }
}

impl TlbStaleness {
    pub open spec fn wf(self) -> bool {
        match self {
            TlbStaleness::Counting(n) => n < STALE_FAULT_LIMIT,
            TlbStaleness::Latched => true,
        }
    }

    pub fn new() -> (r: TlbStaleness)
        ensures
            r == TlbStaleness::Counting(0),
    {
        TlbStaleness::Counting(0)
    }

    pub fn is_wf(&self) -> (r: bool)
        ensures
            r == self.wf(),
    {
        match self {
            TlbStaleness::Counting(n) => *n < STALE_FAULT_LIMIT,
            TlbStaleness::Latched => true,
        }
    }

    pub fn is_latched(&self) -> (r: bool)
        ensures
            r == (*self is Latched),
    {
        match self {
            TlbStaleness::Latched => true,
            TlbStaleness::Counting(_) => false,
        }
    }

    /// Records one installed shadow entry; `unchanged` tells whether it equals
    /// the entry it replaced. Returns whether the faulting address must be
    /// flushed from the TLB, which is so exactly when the state was latched.
    pub fn record(&mut self, unchanged: bool) -> (flush: bool)
        requires
            old(self).wf(),
        ensures
            flush == (*old(self) is Latched),
            *final(self) == stale_step(*old(self), unchanged),
            final(self).wf(),
    {
        match *self {
            TlbStaleness::Latched => true,
            TlbStaleness::Counting(n) => {
                if !unchanged {
                    *self = TlbStaleness::Counting(1);
                } else if n + 1 == STALE_FAULT_LIMIT {
                    *self = TlbStaleness::Latched;
                } else {
                    *self = TlbStaleness::Counting(n + 1);
                }
                false
            },
        }
    }
}

/// Faults that keep rewriting an unchanged entry count up one by one from
/// any unlatched count, and latch exactly when the count reaches ten.
pub proof fn lemma_unchanged_faults_count_up(n: u64, k: nat)
    requires
        n + k <= STALE_FAULT_LIMIT,
        n < STALE_FAULT_LIMIT,
    ensures
        n + k < STALE_FAULT_LIMIT ==> stale_steps_unchanged(TlbStaleness::Counting(n), k)
            == TlbStaleness::Counting((n + k) as u64),
        n + k == STALE_FAULT_LIMIT ==> stale_steps_unchanged(TlbStaleness::Counting(n), k)
            == TlbStaleness::Latched,
    decreases k,
{
    if k > 0 {
        lemma_unchanged_faults_count_up(n, (k - 1) as nat);
    }
}

/// Once latched, the detector stays latched whatever the faults do.
pub proof fn lemma_latched_is_absorbing(unchanged: bool, k: nat)
    ensures
        stale_step(TlbStaleness::Latched, unchanged) == TlbStaleness::Latched,
        stale_steps_unchanged(TlbStaleness::Latched, k) == TlbStaleness::Latched,
    decreases k,
{
    if k > 0 {
        lemma_latched_is_absorbing(unchanged, (k - 1) as nat);
    }
}

/// From a fresh detector: nine unchanged rewrites leave it counting at nine,
/// the tenth latches it, and from then on every fault flushes.
pub proof fn lemma_fresh_detector_latches_on_tenth()
    ensures
        stale_steps_unchanged(TlbStaleness::Counting(0), 9) == TlbStaleness::Counting(9),
        stale_steps_unchanged(TlbStaleness::Counting(0), 10) == TlbStaleness::Latched,
        forall|unchanged: bool|
            #![auto]
            stale_step(stale_steps_unchanged(TlbStaleness::Counting(0), 10), unchanged)
                == TlbStaleness::Latched,
{
    lemma_unchanged_faults_count_up(0, 9);
    lemma_unchanged_faults_count_up(0, 10);
}

} // verus!
