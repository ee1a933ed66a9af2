//! A pool that owns resources and hands out integer handles for them.
//!
//! Handles come from the script layer as bare integers, so every lookup is
//! total: an unknown or stale handle resolves to `None`. Handles are issued in
//! increasing order and never issued twice, so a released handle can never
//! come to stand for a different resource.

use vstd::prelude::*;
use std::collections::HashMap;

verus! {

broadcast use vstd::std_specs::hash::group_hash_axioms;

/// The handle that a fresh pool issues first.
pub const FIRST_HANDLE: i32 = 1;

/// The handle at which a pool stops issuing. It is itself never issued.
pub const LAST_HANDLE: i32 = i32::MAX;

/// The mathematical model of a pool: the handle that will be issued next and
/// the resources that are live, by handle.
pub struct PoolView<T> {
    pub next: int,
    pub live: Map<i32, T>,
}

impl<T> PoolView<T> {
    /// Every live handle was issued before: it lies below `next`.
    pub open spec fn wf(self) -> bool {
        &&& FIRST_HANDLE <= self.next <= LAST_HANDLE
        &&& self.live.dom().finite()
        &&& forall|h: i32| #[trigger] self.live.contains_key(h) ==> FIRST_HANDLE <= h < self.next
    }

    /// The pool that has issued nothing yet.
    pub open spec fn empty() -> Self {
        PoolView { next: FIRST_HANDLE as int, live: Map::empty() }
    }

    /// No handle is left to issue.
    pub open spec fn exhausted(self) -> bool {
        self.next >= LAST_HANDLE
    }

    /// The pool after `item` was stored under the next handle.
    pub open spec fn allocate(self, item: T) -> Self {
        PoolView { next: self.next + 1, live: self.live.insert(self.next as i32, item) }
    }

    /// The pool after `handle` was given up. Handles are not recycled: `next`
    /// stays where it was.
    pub open spec fn release(self, handle: i32) -> Self {
        PoolView { next: self.next, live: self.live.remove(handle) }
    }

    /// The pool after every resource was given up.
    pub open spec fn cleared(self) -> Self {
        PoolView { next: self.next, live: Map::empty() }
    }
}

/// A handle that the pool issues is new. It stood for nothing before, it
/// resolves to the stored resource afterwards, and every other handle stands
/// for what it stood for.
pub proof fn lemma_allocate_fresh<T>(pool: PoolView<T>, item: T)
    requires
        pool.wf(),
        !pool.exhausted(),
    ensures
        pool.allocate(item).wf(),
        !pool.live.contains_key(pool.next as i32),
        pool.allocate(item).live.contains_key(pool.next as i32),
        pool.allocate(item).live[pool.next as i32] == item,
        forall|h: i32| #[trigger]
            pool.live.contains_key(h) ==> pool.allocate(item).live.contains_key(h)
                && pool.allocate(item).live[h] == pool.live[h],
{
}

/// Two resources that are allocated one after the other get different
/// handles, and both resolve afterwards.
pub proof fn lemma_allocate_twice<T>(pool: PoolView<T>, first: T, second: T)
    requires
        pool.wf(),
        !pool.exhausted(),
        !pool.allocate(first).exhausted(),
    ensures
        pool.next != pool.allocate(first).next,
        pool.allocate(first).allocate(second).live[pool.next as i32] == first,
        pool.allocate(first).allocate(second).live[pool.allocate(first).next as i32] == second,
{
}

/// A handle that was released resolves to nothing, and no later allocation
/// brings it back: the pool issues only handles from `next` on.
pub proof fn lemma_released_stays_dead<T>(pool: PoolView<T>, handle: i32, item: T)
    requires
        pool.wf(),
        pool.live.contains_key(handle),
        !pool.exhausted(),
    ensures
        pool.release(handle).wf(),
        !pool.release(handle).live.contains_key(handle),
        !pool.release(handle).allocate(item).live.contains_key(handle),
{
}

/// Owns resources of type `T` and identifies each by an `i32` handle.
pub struct Pool<T> {
    next: i32,
    active: HashMap<i32, T>,
}

impl<T> View for Pool<T> {
    type V = PoolView<T>;

    closed spec fn view(&self) -> PoolView<T> {
        PoolView { next: self.next as int, live: self.active@ }
    }
}

impl<T> Pool<T> {
    #[verifier::type_invariant]
    spec fn inv(self) -> bool {
        self@.wf()
    }

    /// An empty pool.
    pub fn new() -> (pool: Self)
        ensures
            pool@ == PoolView::<T>::empty(),
            pool@.wf(),
    {
        Pool { next: FIRST_HANDLE, active: HashMap::new() }
    }

    /// Takes ownership of `item` and returns its handle, which no live or
    /// earlier resource of this pool has. Returns `None`, and drops `item`,
    /// when the pool has no handle left to issue.
    pub fn allocate(&mut self, item: T) -> (handle: Option<i32>)
        ensures
            final(self)@.wf(),
            match handle {
                Some(h) => {
                    &&& !old(self)@.exhausted()
                    &&& h == old(self)@.next
                    &&& !old(self)@.live.contains_key(h)
                    &&& final(self)@ == old(self)@.allocate(item)
                },
                None => old(self)@.exhausted() && final(self)@ == old(self)@,
            },
    {
        proof {
            use_type_invariant(&*self);
        }
        if self.next >= LAST_HANDLE {
            return None;
        }
        let handle = self.next;
        self.next = handle + 1;
        let mut active = HashMap::new();
        std::mem::swap(&mut active, &mut self.active);
        active.insert(handle, item);
        self.active = active;
        Some(handle)
    }

    /// The resource that `handle` stands for, if it is live.
    pub fn resolve(&self, handle: i32) -> (item: Option<&T>)
        ensures
            self@.wf(),
            item == if self@.live.contains_key(handle) {
                Some(&self@.live[handle])
            } else {
                None
            },
    {
        proof {
            use_type_invariant(self);
        }
        self.active.get(&handle)
    }

    /// Whether `handle` stands for a live resource.
    pub fn contains(&self, handle: i32) -> (live: bool)
        ensures
            live == self@.live.contains_key(handle),
    {
        self.active.contains_key(&handle)
    }

    /// Gives up `handle` and returns the resource it stood for, if it was
    /// live. The handle is not issued again.
    pub fn release(&mut self, handle: i32) -> (item: Option<T>)
        ensures
            final(self)@.wf(),
            final(self)@ == old(self)@.release(handle),
            item == if old(self)@.live.contains_key(handle) {
                Some(old(self)@.live[handle])
            } else {
                None
            },
    {
        proof {
            use_type_invariant(&*self);
        }
        let mut active = HashMap::new();
        std::mem::swap(&mut active, &mut self.active);
        let item = active.remove(&handle);
        self.active = active;
        item
    }

    /// Gives up every resource. Handles issued so far stay used up.
    pub fn clear(&mut self)
        ensures
            final(self)@.wf(),
            final(self)@ == old(self)@.cleared(),
    {
        proof {
            use_type_invariant(&*self);
        }
        self.active = HashMap::new();
    }

    /// The number of live resources.
    pub fn len(&self) -> (n: usize)
        ensures
            n == self@.live.len(),
    {
        self.active.len()
    }
}

} // verus!
