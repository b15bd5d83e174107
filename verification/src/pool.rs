//! A bounded pool of ready instances, reused first-in first-out.
use vstd::prelude::*;
use std::collections::VecDeque;

verus! {

/// The free list after handing `inst` back to a pool of capacity `cap`: kept
/// at the back where there is room, dropped otherwise.
pub open spec fn released<T>(free: Seq<T>, cap: usize, inst: T) -> Seq<T> {
    if free.len() < cap {
        free.push(inst)
    } else {
        free
    }
}

/// Idle instances kept for reuse, never more than the capacity.
pub struct InstancePool<T> {
    capacity: usize,
    free: VecDeque<T>,
}

impl<T> InstancePool<T> {
    /// The idle instances, oldest first.
    pub closed spec fn free_list(&self) -> Seq<T> {
        self.free@
    }

    /// The most instances the pool keeps.
    pub closed spec fn capacity_spec(&self) -> usize {
        self.capacity
    }

    #[verifier::type_invariant]
    spec fn bounded(&self) -> bool {
        self.free@.len() <= self.capacity
    }

    /// An empty pool that keeps at most `capacity` instances.
    pub fn new(capacity: usize) -> (r: Self)
        ensures
            r.free_list().len() == 0,
            r.capacity_spec() == capacity,
    {
        InstancePool { capacity, free: VecDeque::new() }
    }

    /// The oldest idle instance, or a new one from `make` when none is idle.
    pub fn acquire<E, F: FnOnce() -> Result<T, E>>(&mut self, make: F) -> (r: Result<T, E>)
        requires
            old(self).free_list().len() == 0 ==> make.requires(()),
        ensures
            final(self).capacity_spec() == old(self).capacity_spec(),
            final(self).free_list().len() <= final(self).capacity_spec(),
            old(self).free_list().len() > 0 ==> r == Ok::<T, E>(old(self).free_list()[0])
                && final(self).free_list() == old(self).free_list().drop_first(),
            old(self).free_list().len() == 0 ==> make.ensures((), r) && final(self).free_list()
                == old(self).free_list(),
    {
        proof {
            use_type_invariant(&*self);
        }
        let mut free: VecDeque<T> = VecDeque::new();
        std::mem::swap(&mut free, &mut self.free);
        let next = free.pop_front();
        self.free = free;
        match next {
            Some(inst) => Ok(inst),
            None => make(),
        }
    }

    /// Hand an instance back: it is kept for reuse while the pool is below
    /// its capacity, and dropped otherwise.
    pub fn release(&mut self, inst: T)
        ensures
            final(self).capacity_spec() == old(self).capacity_spec(),
            final(self).free_list() == released(old(self).free_list(), old(self).capacity_spec(), inst),
            final(self).free_list().len() <= final(self).capacity_spec(),
    {
        proof {
            use_type_invariant(&*self);
        }
        if self.free.len() < self.capacity {
            let mut free: VecDeque<T> = VecDeque::new();
            std::mem::swap(&mut free, &mut self.free);
            free.push_back(inst);
            self.free = free;
        }
    }

    /// The most instances the pool keeps.
    pub fn capacity(&self) -> (r: usize)
        ensures
            r == self.capacity_spec(),
    {
        self.capacity
    }
}

/// An instance handed back to an empty pool with room is the next one
/// acquired.
pub proof fn law_release_then_acquire<T>(cap: usize, inst: T)
    requires
        cap > 0,
    ensures
        released(Seq::<T>::empty(), cap, inst).len() == 1,
        released(Seq::<T>::empty(), cap, inst)[0] == inst,
{
}

} // verus!
