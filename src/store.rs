use vstd::prelude::*;

use crate::name::Name;
use crate::name_map::NameMap;
use crate::wire::Wrapper;

verus! {

/// Why a store refused to take a payload.
#[derive(Clone, Copy, Debug, PartialEq, Eq, Structural)]
pub enum StoreError {
    /// Taking the payload would exceed the store's capacity.
    StorageLimitHit,
    /// A payload is already held under the name.
    AlreadyStored,
}

/// A content-addressed store: each name holds one payload with its size in
/// bytes, within a fixed capacity.
pub struct ContentStore {
    chunks: NameMap<(u64, Wrapper)>,
    used: u64,
    capacity: u64,
}

impl ContentStore {
    /// The payloads held, each with its size.
    pub closed spec fn chunks(&self) -> Map<Name, (u64, Wrapper)> {
        self.chunks@
    }

    /// Bytes taken by the payloads held.
    pub closed spec fn used(&self) -> nat {
        self.used as nat
    }

    /// The most bytes this store may hold.
    pub closed spec fn capacity(&self) -> nat {
        self.capacity as nat
    }

    pub closed spec fn wf(&self) -> bool {
        self.chunks.wf() && self.used <= self.capacity
    }

    /// An empty store that may hold `capacity` bytes.
    pub fn new(capacity: u64) -> (r: ContentStore)
        ensures
            r.wf(),
            r.chunks() == Map::<Name, (u64, Wrapper)>::empty(),
            r.used() == 0,
            r.capacity() == capacity,
    {
        ContentStore { chunks: NameMap::new(), used: 0, capacity }
    }

    /// Whether a payload is held under `name`.
    pub fn has_chunk(&self, name: &Name) -> (r: bool)
        requires
            self.wf(),
        ensures
            r == self.chunks().contains_key(*name),
    {
        self.chunks.contains(name)
    }

    /// The payload held under `name`, with its size, if any.
    pub fn get(&self, name: &Name) -> (r: Option<&(u64, Wrapper)>)
        requires
            self.wf(),
        ensures
            r is None <==> !self.chunks().contains_key(*name),
            r matches Some(c) ==> *c == self.chunks()[*name],
    {
        self.chunks.get(name)
    }

    /// Stores `wrapper` of `size` bytes under `name`. Refused, with no change,
    /// where a payload is already held under `name`, or else where it would
    /// exceed the capacity.
    pub fn put(&mut self, name: &Name, size: u64, wrapper: Wrapper) -> (r: Result<(), StoreError>)
        requires
            old(self).wf(),
        ensures
            final(self).wf(),
            final(self).capacity() == old(self).capacity(),
            (r == Err::<(), StoreError>(StoreError::AlreadyStored)) == old(self).chunks().contains_key(*name),
            (r == Err::<(), StoreError>(StoreError::StorageLimitHit)) == (!old(self).chunks().contains_key(*name)
                && old(self).used() + size > old(self).capacity()),
            r is Ok <==> !old(self).chunks().contains_key(*name) && old(self).used() + size <= old(self).capacity(),
            r is Ok ==> final(self).chunks() == old(self).chunks().insert(*name, (size, wrapper)),
            r is Ok ==> final(self).used() == old(self).used() + size,
            r is Err ==> final(self).chunks() == old(self).chunks() && final(self).used() == old(self).used(),
    {
        if self.chunks.contains(name) {
            return Err(StoreError::AlreadyStored);
        }
        if size > self.capacity - self.used {
            return Err(StoreError::StorageLimitHit);
        }
        self.chunks.insert_new(*name, (size, wrapper));
        self.used = self.used + size;
        Ok(())
    }
}

} // verus!
