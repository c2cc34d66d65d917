use vstd::prelude::*;

use crate::name::{sort_names, sorted_names, Name, PublicKey};
use crate::name_map::NameMap;

verus! {

/// A quota-tracked, deduplicating set of content addresses, each with an
/// optional sender key.
pub struct Mailbox {
    allowance: u64,
    used_space: u64,
    space_available: u64,
    entries: NameMap<Option<PublicKey>>,
}

impl Mailbox {
    /// The fixed number of bytes this mailbox may hold.
    pub closed spec fn allowance(&self) -> nat {
        self.allowance as nat
    }

    /// Bytes taken by the entries held.
    pub closed spec fn used_space(&self) -> nat {
        self.used_space as nat
    }

    /// Bytes still free.
    pub closed spec fn space_available(&self) -> nat {
        self.space_available as nat
    }

    /// The entries held, each with its sender key.
    pub closed spec fn contents(&self) -> Map<Name, Option<PublicKey>> {
        self.entries@
    }

    pub closed spec fn wf(&self) -> bool {
        &&& self.used_space as int + self.space_available as int == self.allowance as int
        &&& self.entries.wf()
    }

    /// Whether a put of `entry` charged at `size` bytes is accepted.
    pub open spec fn accepts(&self, size: u64, entry: Name) -> bool {
        size <= self.space_available() && !self.contents().contains_key(entry)
    }

    /// `post` is what `put` leaves of `pre`, returning `r`.
    pub open spec fn put_outcome(
        pre: Mailbox,
        size: u64,
        entry: Name,
        public_key: Option<PublicKey>,
        r: bool,
        post: Mailbox,
    ) -> bool {
        &&& post.wf()
        &&& r == pre.accepts(size, entry)
        &&& post.allowance() == pre.allowance()
        &&& r ==> post.contents() == pre.contents().insert(entry, public_key)
        &&& r ==> post.used_space() == pre.used_space() + size
        &&& r ==> post.space_available() == pre.space_available() - size
        &&& !r ==> post == pre
    }

    /// `post` is what `remove` leaves of `pre`, returning `r`.
    pub open spec fn remove_outcome(pre: Mailbox, size: u64, entry: Name, r: bool, post: Mailbox) -> bool {
        &&& post.wf()
        &&& r == (pre.contents().contains_key(entry) && size <= pre.used_space())
        &&& post.allowance() == pre.allowance()
        &&& r ==> post.contents() == pre.contents().remove(entry)
        &&& r ==> post.used_space() == pre.used_space() - size
        &&& r ==> post.space_available() == pre.space_available() + size
        &&& !r ==> post == pre
    }

    /// An empty mailbox with the whole allowance free.
    pub fn new(allowance: u64) -> (r: Mailbox)
        ensures
            r.wf(),
            r.allowance() == allowance,
            r.used_space() == 0,
            r.space_available() == allowance,
            r.contents() == Map::<Name, Option<PublicKey>>::empty(),
    {
        Mailbox { allowance, used_space: 0, space_available: allowance, entries: NameMap::new() }
    }

    /// The allowance in bytes.
    pub fn get_allowance(&self) -> (r: u64)
        ensures
            r == self.allowance(),
    {
        self.allowance
    }

    /// The bytes in use.
    pub fn get_used_space(&self) -> (r: u64)
        ensures
            r == self.used_space(),
    {
        self.used_space
    }

    /// The bytes still free.
    pub fn get_space_available(&self) -> (r: u64)
        ensures
            r == self.space_available(),
    {
        self.space_available
    }

    /// Whether `entry` is held.
    pub fn has(&self, entry: &Name) -> (r: bool)
        requires
            self.wf(),
        ensures
            r == self.contents().contains_key(*entry),
    {
        self.entries.contains(entry)
    }

    /// Takes `entry` in, charging `size` bytes to the quota. Refused, with no
    /// change, where `size` exceeds the space available or `entry` is held.
    pub fn put(&mut self, size: u64, entry: &Name, public_key: &Option<PublicKey>) -> (r: bool)
        requires
            old(self).wf(),
        ensures
            Self::put_outcome(*old(self), size, *entry, *public_key, r, *final(self)),
    {
        if size > self.space_available {
            return false;
        }
        if self.entries.contains(entry) {
            return false;
        }
        self.entries.insert_new(*entry, *public_key);
        self.used_space = self.used_space + size;
        self.space_available = self.space_available - size;
        true
    }

    /// Takes `entry` out, giving `size` bytes back to the quota. Refused, with
    /// no change, where `entry` is not held or fewer than `size` bytes are in use.
    pub fn remove(&mut self, size: u64, entry: &Name) -> (r: bool)
        requires
            old(self).wf(),
        ensures
            Self::remove_outcome(*old(self), size, *entry, r, *final(self)),
    {
        if !self.entries.contains(entry) || size > self.used_space {
            return false;
        }
        let _ = self.entries.take(entry);
        self.used_space = self.used_space - size;
        self.space_available = self.space_available + size;
        true
    }

    /// The content addresses held, each once, in byte-wise order.
    pub fn names(&self) -> (r: Vec<Name>)
        requires
            self.wf(),
        ensures
            r@.to_set() == self.contents().dom(),
            r@.no_duplicates(),
            sorted_names(r@),
    {
        let keys = self.entries.keys();
        sort_names(&keys)
    }

    /// Space in use and space available always add up to the allowance.
    pub proof fn lemma_quota_balance(m: Mailbox)
        requires
            m.wf(),
        ensures
            m.used_space() + m.space_available() == m.allowance(),
    {
    }

    /// Putting the same content address twice: the first put is accepted, the
    /// second is refused and leaves the mailbox as the first left it.
    pub proof fn lemma_duplicate_put_refused(
        m0: Mailbox,
        size1: u64,
        size2: u64,
        entry: Name,
        key1: Option<PublicKey>,
        key2: Option<PublicKey>,
        r1: bool,
        m1: Mailbox,
        r2: bool,
        m2: Mailbox,
    )
        requires
            m0.wf(),
            m0.accepts(size1, entry),
            Self::put_outcome(m0, size1, entry, key1, r1, m1),
            Self::put_outcome(m1, size2, entry, key2, r2, m2),
        ensures
            r1,
            !r2,
            m2 == m1,
    {
        assert(m1.contents().contains_key(entry));
    }

    /// A put charged at more than the space available is refused and leaves
    /// the quota as it was.
    pub proof fn lemma_oversized_put_refused(
        m0: Mailbox,
        size: u64,
        entry: Name,
        key: Option<PublicKey>,
        r: bool,
        m1: Mailbox,
    )
        requires
            m0.wf(),
            size > m0.space_available(),
            Self::put_outcome(m0, size, entry, key, r, m1),
        ensures
            !r,
            m1.used_space() == m0.used_space(),
            m1.space_available() == m0.space_available(),
            m1.contents() == m0.contents(),
    {
    }

    /// A remove of the same entry and size after an accepted put restores the
    /// quota and the entries exactly as they were before the put.
    pub proof fn lemma_remove_undoes_put(
        m0: Mailbox,
        size: u64,
        entry: Name,
        key: Option<PublicKey>,
        m1: Mailbox,
        r2: bool,
        m2: Mailbox,
    )
        requires
            m0.wf(),
            Self::put_outcome(m0, size, entry, key, true, m1),
            Self::remove_outcome(m1, size, entry, r2, m2),
        ensures
            r2,
            m2.allowance() == m0.allowance(),
            m2.used_space() == m0.used_space(),
            m2.space_available() == m0.space_available(),
            m2.contents() == m0.contents(),
    {
        assert(m1.contents().contains_key(entry));
        assert(m2.contents() =~= m0.contents());
    }
}

} // verus!
