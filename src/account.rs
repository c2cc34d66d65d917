use vstd::prelude::*;

use crate::mailbox::Mailbox;
use crate::name::{sorted_names, Name, PublicKey};
use crate::wire::Authority;

verus! {

/// Allowance in bytes of every account's inbox (128 MiB).
pub const MAX_INBOX_SIZE: u64 = 1 << 27;

/// Allowance in bytes of every account's outbox (128 MiB).
pub const MAX_OUTBOX_SIZE: u64 = 1 << 27;

/// One identity's state: its online client sessions, its inbox of headers and
/// its outbox of messages.
pub struct Account {
    clients: Vec<Authority>,
    inbox: Mailbox,
    outbox: Mailbox,
}

impl Account {
    /// The registered client sessions, in order of registration.
    pub closed spec fn clients(&self) -> Seq<Authority> {
        self.clients@
    }

    pub closed spec fn inbox(&self) -> Mailbox {
        self.inbox
    }

    pub closed spec fn outbox(&self) -> Mailbox {
        self.outbox
    }

    pub open spec fn wf(&self) -> bool {
        &&& self.inbox().wf()
        &&& self.outbox().wf()
        &&& self.clients().no_duplicates()
        &&& forall|i: int| 0 <= i < self.clients().len() ==> #[trigger] self.clients()[i] is Client
    }

    /// What a first request to an identity finds: no client and both mailboxes
    /// empty with their full allowance.
    pub open spec fn is_fresh(&self) -> bool {
        &&& self.wf()
        &&& self.clients().len() == 0
        &&& self.inbox().allowance() == MAX_INBOX_SIZE
        &&& self.inbox().used_space() == 0
        &&& self.inbox().space_available() == MAX_INBOX_SIZE
        &&& self.inbox().contents() == Map::<Name, Option<PublicKey>>::empty()
        &&& self.outbox().allowance() == MAX_OUTBOX_SIZE
        &&& self.outbox().used_space() == 0
        &&& self.outbox().space_available() == MAX_OUTBOX_SIZE
        &&& self.outbox().contents() == Map::<Name, Option<PublicKey>>::empty()
    }

    /// `post` is `pre` after a put of `entry` into its inbox returned `r`.
    pub open spec fn after_inbox_put(pre: Account, size: u64, entry: Name, r: bool, post: Account) -> bool {
        &&& post.wf()
        &&& Mailbox::put_outcome(pre.inbox(), size, entry, None, r, post.inbox())
        &&& post.outbox() == pre.outbox()
        &&& post.clients() == pre.clients()
    }

    /// `post` is `pre` after a put of `entry` into its outbox returned `r`.
    pub open spec fn after_outbox_put(pre: Account, size: u64, entry: Name, r: bool, post: Account) -> bool {
        &&& post.wf()
        &&& Mailbox::put_outcome(pre.outbox(), size, entry, None, r, post.outbox())
        &&& post.inbox() == pre.inbox()
        &&& post.clients() == pre.clients()
    }

    /// `post` holds what `pre` holds: the same clients, inbox, and outbox
    /// quota and entries.
    pub open spec fn same_holdings(pre: Account, post: Account) -> bool {
        &&& post.wf()
        &&& post.inbox() == pre.inbox()
        &&& post.clients() == pre.clients()
        &&& post.outbox().allowance() == pre.outbox().allowance()
        &&& post.outbox().used_space() == pre.outbox().used_space()
        &&& post.outbox().space_available() == pre.outbox().space_available()
        &&& post.outbox().contents() == pre.outbox().contents()
    }

    /// Puts `entry` into the outbox; see `Mailbox::put`.
    pub fn put_into_outbox(&mut self, size: u64, entry: &Name, public_key: &Option<PublicKey>) -> (r: bool)
        requires
            old(self).wf(),
        ensures
            final(self).wf(),
            Mailbox::put_outcome(old(self).outbox(), size, *entry, *public_key, r, final(self).outbox()),
            final(self).inbox() == old(self).inbox(),
            final(self).clients() == old(self).clients(),
    {
        self.outbox.put(size, entry, public_key)
    }

    /// Puts `entry` into the inbox; see `Mailbox::put`.
    pub fn put_into_inbox(&mut self, size: u64, entry: &Name, public_key: &Option<PublicKey>) -> (r: bool)
        requires
            old(self).wf(),
        ensures
            final(self).wf(),
            Mailbox::put_outcome(old(self).inbox(), size, *entry, *public_key, r, final(self).inbox()),
            final(self).outbox() == old(self).outbox(),
            final(self).clients() == old(self).clients(),
    {
        self.inbox.put(size, entry, public_key)
    }

    /// Removes `entry` from the outbox; see `Mailbox::remove`.
    pub fn remove_from_outbox(&mut self, size: u64, entry: &Name) -> (r: bool)
        requires
            old(self).wf(),
        ensures
            final(self).wf(),
            Mailbox::remove_outcome(old(self).outbox(), size, *entry, r, final(self).outbox()),
            final(self).inbox() == old(self).inbox(),
            final(self).clients() == old(self).clients(),
    {
        self.outbox.remove(size, entry)
    }

    /// Removes `entry` from the inbox; see `Mailbox::remove`.
    pub fn remove_from_inbox(&mut self, size: u64, entry: &Name) -> (r: bool)
        requires
            old(self).wf(),
        ensures
            final(self).wf(),
            Mailbox::remove_outcome(old(self).inbox(), size, *entry, r, final(self).inbox()),
            final(self).outbox() == old(self).outbox(),
            final(self).clients() == old(self).clients(),
    {
        self.inbox.remove(size, entry)
    }

    /// Whether the outbox holds `entry`.
    pub fn has_in_outbox(&self, entry: &Name) -> (r: bool)
        requires
            self.wf(),
        ensures
            r == self.outbox().contents().contains_key(*entry),
    {
        self.outbox.has(entry)
    }

    /// Whether `client` is among the registered sessions.
    pub fn is_registered(&self, client: &Authority) -> (r: bool)
        requires
            self.wf(),
        ensures
            r == self.clients().contains(*client),
    {
        let mut i: usize = 0;
        while i < self.clients.len()
            invariant
                i <= self.clients@.len(),
                forall|j: int| 0 <= j < i ==> self.clients@[j] != *client,
            decreases self.clients@.len() - i,
        {
            if self.clients[i].same(client) {
                assert(self.clients@[i as int] == *client);
                return true;
            }
            i = i + 1;
        }
        false
    }

    /// `post` is `pre` after `client` registered as online.
    pub open spec fn after_register(pre: Account, client: Authority, post: Account) -> bool {
        &&& post.wf()
        &&& post.inbox() == pre.inbox()
        &&& post.outbox() == pre.outbox()
        &&& post.clients() == if client is Client && !pre.clients().contains(client) {
            pre.clients().push(client)
        } else {
            pre.clients()
        }
    }

    /// Registers a client session as online. A session already registered,
    /// or an authority that is no client session, leaves the account as it is.
    pub fn register_online(&mut self, client: &Authority)
        requires
            old(self).wf(),
        ensures
            Self::after_register(*old(self), *client, *final(self)),
    {
        if client.is_client() && !self.is_registered(client) {
            self.clients.push(*client);
            proof {
                let s = self.clients@;
                assert forall|i: int, j: int| 0 <= i < s.len() && 0 <= j < s.len() && i != j implies s[i] != s[j] by {
                    if i == s.len() - 1 {
                        assert(s[j] == old(self).clients()[j]);
                    } else if j == s.len() - 1 {
                        assert(s[i] == old(self).clients()[i]);
                    } else {
                        assert(s[i] == old(self).clients()[i]);
                        assert(s[j] == old(self).clients()[j]);
                    }
                }
            }
        }
    }

    /// Registering the same client session twice: the second registration
    /// changes nothing, and the session stands in the list exactly once.
    pub proof fn lemma_register_twice(a0: Account, client: Authority, a1: Account, a2: Account)
        requires
            a0.wf(),
            client is Client,
            Self::after_register(a0, client, a1),
            Self::after_register(a1, client, a2),
        ensures
            a2.clients() == a1.clients(),
            a2.clients().contains(client),
            a2.clients().no_duplicates(),
    {
        if !a0.clients().contains(client) {
            assert(a1.clients()[a0.clients().len() as int] == client);
        }
    }

    /// The content addresses of the headers in the inbox, each once, in
    /// byte-wise order.
    pub fn received_headers(&self) -> (r: Vec<Name>)
        requires
            self.wf(),
        ensures
            r@.to_set() == self.inbox().contents().dom(),
            r@.no_duplicates(),
            sorted_names(r@),
    {
        self.inbox.names()
    }

    /// The inbox.
    pub fn inbox_mailbox(&self) -> (r: &Mailbox)
        ensures
            *r == self.inbox(),
    {
        &self.inbox
    }

    /// The outbox.
    pub fn outbox_mailbox(&self) -> (r: &Mailbox)
        ensures
            *r == self.outbox(),
    {
        &self.outbox
    }

    /// The registered client sessions.
    pub fn registered_clients(&self) -> (r: &Vec<Authority>)
        ensures
            r@ == self.clients(),
    {
        &self.clients
    }
}

impl Default for Account {
    fn default() -> (r: Account)
        ensures
            r.is_fresh(),
    {
        Account {
            clients: Vec::new(),
            inbox: Mailbox::new(MAX_INBOX_SIZE),
            outbox: Mailbox::new(MAX_OUTBOX_SIZE),
        }
    }
}

} // verus!
