//! The table of live instances. A handle is an index into this table,
//! never a pointer, and every handle given out is distinct from every live
//! one.

use vstd::prelude::*;

verus! {

pub open spec fn keys<T>(s: Seq<(u64, T)>) -> Seq<u64> {
    s.map_values(|e: (u64, T)| e.0)
}

/// No handle occurs twice.
pub open spec fn distinct_keys<T>(s: Seq<(u64, T)>) -> bool {
    forall|i: int, j: int| 0 <= i < j < s.len() ==> #[trigger] s[i].0 != #[trigger] s[j].0
}

/// The index of the entry under handle `h`.
pub open spec fn index_of<T>(s: Seq<(u64, T)>, h: u64) -> Option<int> {
    if exists|i: int| 0 <= i < s.len() && s[i].0 == h {
        Some(choose|i: int| 0 <= i < s.len() && s[i].0 == h)
    } else {
        None
    }
}

pub struct Handles<T> {
    entries: Vec<(u64, T)>,
    next: u64,
}

impl<T> Handles<T> {
    /// Every handle is below the next one, and none occurs twice.
    #[verifier::type_invariant]
    spec fn well_formed(self) -> bool {
        &&& 1 <= self.next
        &&& distinct_keys(self.entries@)
        &&& forall|i: int| 0 <= i < self.entries@.len() ==> #[trigger] self.entries@[i].0 < self.next
    }

    /// The live entries, in the order they were added.
    pub closed spec fn live(&self) -> Seq<(u64, T)> {
        self.entries@
    }

    /// The handle the next insert gives out: every handle given out so far
    /// is below it.
    pub closed spec fn issued(&self) -> u64 {
        self.next
    }

    pub fn new() -> (r: Handles<T>)
        ensures
            r.live().len() == 0,
            r.issued() == 1,
    {
        Handles { entries: Vec::new(), next: 1 }
    }

    /// Adds `value` under a fresh handle: the next one of the counter, so
    /// never one given out before and distinct from every live handle.
    /// `None` only once the counter has reached `u64::MAX`.
    pub fn insert(&mut self, value: T) -> (r: Option<u64>)
        ensures
            distinct_keys(final(self).live()),
            forall|i: int| 0 <= i < final(self).live().len() ==> #[trigger] final(self).live()[i].0 < final(self).issued(),
            (r is Some) <==> old(self).issued() < u64::MAX,
            match r {
                Some(h) => h == old(self).issued() && final(self).issued() == h + 1
                    && !keys(old(self).live()).contains(h) && final(self).live() == old(
                    self,
                ).live().push((h, value)),
                None => final(self).live() == old(self).live() && final(self).issued() == old(self).issued(),
            },
    {
        proof {
            use_type_invariant(&*self);
        }
        if self.next == u64::MAX {
            return None;
        }
        let h = self.next;
        self.next = h + 1;
        proof {
            if keys(self.entries@).contains(h) {
                let i = choose|i: int| 0 <= i < keys(self.entries@).len() && keys(self.entries@)[i] == h;
                assert(self.entries@[i].0 == h);
            }
        }
        let mut es: Vec<(u64, T)> = Vec::new();
        std::mem::swap(&mut es, &mut self.entries);
        es.push((h, value));
        self.entries = es;
        Some(h)
    }

    fn find(&self, h: u64) -> (r: Option<usize>)
        ensures
            match r {
                Some(i) => i < self.live().len() && self.live()[i as int].0 == h,
                None => index_of(self.live(), h) is None,
            },
    {
        let mut i: usize = 0;
        while i < self.entries.len()
            invariant
                i <= self.entries.len(),
                forall|j: int| 0 <= j < i ==> #[trigger] self.entries@[j].0 != h,
            decreases self.entries.len() - i,
        {
            if self.entries[i].0 == h {
                return Some(i);
            }
            i = i + 1;
        }
        None
    }

    /// The value under handle `h`, if it is live.
    pub fn get(&self, h: u64) -> (r: Option<&T>)
        ensures
            distinct_keys(self.live()),
            match r {
                Some(v) => exists|i: int| 0 <= i < self.live().len() && self.live()[i].0 == h && *v == self.live()[i].1,
                None => !keys(self.live()).contains(h),
            },
    {
        proof {
            use_type_invariant(self);
        }
        match self.find(h) {
            Some(i) => Some(&self.entries[i].1),
            None => {
                proof {
                    if keys(self.entries@).contains(h) {
                        let i = choose|i: int| 0 <= i < keys(self.entries@).len() && keys(self.entries@)[i] == h;
                        assert(self.entries@[i].0 == h);
                    }
                }
                None
            },
        }
    }

    /// Takes handle `h` out of the table, giving back its value; the table
    /// entry goes whatever becomes of the value.
    pub fn remove(&mut self, h: u64) -> (r: Option<T>)
        ensures
            distinct_keys(final(self).live()),
            final(self).issued() == old(self).issued(),
            forall|i: int| 0 <= i < final(self).live().len() ==> #[trigger] final(self).live()[i].0 < final(self).issued(),
            !keys(final(self).live()).contains(h),
            match r {
                Some(v) => exists|i: int|
                    0 <= i < old(self).live().len() && old(self).live()[i].0 == h && v == old(self).live()[i].1
                        && final(self).live() == old(self).live().remove(i),
                None => !keys(old(self).live()).contains(h) && final(self).live() == old(self).live(),
            },
    {
        proof {
            use_type_invariant(&*self);
        }
        let ghost before = self.entries@;
        match self.find(h) {
            Some(i) => {
                let mut es: Vec<(u64, T)> = Vec::new();
                std::mem::swap(&mut es, &mut self.entries);
                let (_, v) = es.remove(i);
                self.entries = es;
                proof {
                    assert(self.entries@ == before.remove(i as int));
                    if keys(self.entries@).contains(h) {
                        let j = choose|j: int| 0 <= j < keys(self.entries@).len() && keys(self.entries@)[j] == h;
                        if j < i {
                            assert(before[j].0 == h);
                        } else {
                            assert(before[j + 1].0 == h);
                        }
                    }
                }
                Some(v)
            },
            None => {
                proof {
                    if keys(self.entries@).contains(h) {
                        let j = choose|j: int| 0 <= j < keys(self.entries@).len() && keys(self.entries@)[j] == h;
                        assert(self.entries@[j].0 == h);
                    }
                }
                None
            },
        }
    }

    /// How many handles are live.
    pub fn len(&self) -> (r: usize)
        ensures
            r == self.live().len(),
    {
        self.entries.len()
    }
}

/// How many instances are live.
pub fn live_instances<T>(table: &Handles<T>) -> (r: usize)
    ensures
        r == table.live().len(),
{
    table.len()
}

/// The instance under `handle`, if it is live.
pub fn take_instance<T>(table: &Handles<T>, handle: u64) -> (r: Option<&T>)
    ensures
        match r {
            Some(v) => exists|i: int| 0 <= i < table.live().len() && table.live()[i].0 == handle && *v == table.live()[i].1,
            None => !keys(table.live()).contains(handle),
        },
{
    table.get(handle)
}


} // verus!
