//! The handles a process's host state gives out for its streams and timers: issued
//! from a per-process counter, never reused, and dropped when closed.

use vstd::prelude::*;
use std::collections::HashMap;

verus! {

broadcast use vstd::std_specs::hash::group_hash_axioms;

/// A table of live items keyed by the handle each was issued under. Every live
/// handle is below the next one to be issued, so a new handle is always fresh.
pub struct HandleTable<T> {
    next: u64,
    entries: HashMap<u64, T>,
}

impl<T> HandleTable<T> {
    /// The handle the next `open` issues.
    pub closed spec fn next_handle(&self) -> u64 {
        self.next
    }

    /// The live items by handle.
    pub closed spec fn items(&self) -> Map<u64, T> {
        self.entries@
    }

    #[verifier::type_invariant]
    closed spec fn inv(&self) -> bool {
        forall|h: u64| #[trigger] self.entries@.contains_key(h) ==> h < self.next
    }

    /// Every live handle was issued before the next one, so the next is fresh.
    pub open spec fn issued_below(&self) -> bool {
        forall|h: u64| #[trigger] self.items().contains_key(h) ==> h < self.next_handle()
    }

    /// An empty table; the first handle issued is 0.
    pub fn new() -> (t: Self)
        ensures
            t.next_handle() == 0,
            t.items() == Map::<u64, T>::empty(),
            t.issued_below(),
    {
        HandleTable { next: 0, entries: HashMap::new() }
    }

    /// Keep `item` under a fresh handle — the counter's current value, which no live
    /// item holds — and advance the counter.
    pub fn open(&mut self, item: T) -> (h: u64)
        requires
            old(self).next_handle() < u64::MAX,
        ensures
            h == old(self).next_handle(),
            !old(self).items().contains_key(h),
            final(self).next_handle() == h + 1,
            final(self).items() == old(self).items().insert(h, item),
            final(self).issued_below(),
    {
        proof {
            use_type_invariant(&*self);
        }
        let h = self.next;
        let mut entries = HashMap::new();
        std::mem::swap(&mut entries, &mut self.entries);
        entries.insert(h, item);
        self.next = h + 1;
        self.entries = entries;
        h
    }

    /// The item under `h`, if it is live.
    pub fn get(&self, h: u64) -> (r: Option<&T>)
        ensures
            match r {
                Some(v) => self.items().contains_key(h) && *v == self.items()[h],
                None => !self.items().contains_key(h),
            },
    {
        self.entries.get(&h)
    }

    /// Remove and return the item under `h` (closing it), if it is live.
    pub fn take(&mut self, h: u64) -> (r: Option<T>)
        ensures
            final(self).next_handle() == old(self).next_handle(),
            final(self).items() == old(self).items().remove(h),
            match r {
                Some(v) => old(self).items().contains_key(h) && v == old(self).items()[h],
                None => !old(self).items().contains_key(h),
            },
            final(self).issued_below(),
    {
        proof {
            use_type_invariant(&*self);
        }
        let mut entries = HashMap::new();
        std::mem::swap(&mut entries, &mut self.entries);
        let r = entries.remove(&h);
        self.entries = entries;
        r
    }

    /// Put an item back under a handle this table issued (after reading from it).
    pub fn restore(&mut self, h: u64, item: T)
        requires
            h < old(self).next_handle(),
        ensures
            final(self).next_handle() == old(self).next_handle(),
            final(self).items() == old(self).items().insert(h, item),
            final(self).issued_below(),
    {
        proof {
            use_type_invariant(&*self);
        }
        let mut entries = HashMap::new();
        std::mem::swap(&mut entries, &mut self.entries);
        entries.insert(h, item);
        self.entries = entries;
    }
}

} // verus!
