use vstd::prelude::*;

use crate::account::Account;
use crate::mailbox::Mailbox;
use crate::name::{lemma_sorted_listing, sorted_listing, Name};
use crate::name_map::NameMap;
use crate::request::{outgoing_views, Outgoing, OutgoingView, RequestMessage, RequestView, Verb};
use crate::store::{ContentStore, StoreError};
use crate::wire::{header_views, Authority, Data, DataView, Header, HeaderView, Wrapper, WrapperView};

verus! {

/// Capacity in bytes of each of a manager's two content stores (1 GiB).
pub const DEFAULT_STORE_CAPACITY: u64 = 1 << 30;

/// Why a request failed as a whole.
#[derive(Clone, Copy, Debug, PartialEq, Eq, Structural)]
pub enum InternalError {
    /// The payload's content address is already stored.
    DataExists,
    /// The name of a header could not be computed.
    NoSuchAccount,
    /// The outbox store refused the full message.
    ChunkStore(StoreError),
    /// The verb and payload do not belong to this handler.
    UnexpectedRequest,
}

/// The mailbox manager: one account per identity, a store of headers for the
/// inboxes and a store of messages for the outboxes.
pub struct MpidManager {
    accounts: NameMap<Account>,
    chunk_store_inbox: ContentStore,
    chunk_store_outbox: ContentStore,
}

/// `a` is the account that a request to `n` works on: the one held, or a
/// fresh one where none is.
pub open spec fn found_account(accounts: Map<Name, Account>, n: Name, a: Account) -> bool {
    if accounts.contains_key(n) {
        a == accounts[n]
    } else {
        a.is_fresh()
    }
}

/// `post` is `pre` with `w` of `size` bytes stored under the new name `n`.
pub open spec fn stored_as(pre: ContentStore, post: ContentStore, n: Name, size: u64, w: WrapperView) -> bool {
    &&& post.wf()
    &&& post.capacity() == pre.capacity()
    &&& post.used() == pre.used() + size
    &&& post.chunks().dom() == pre.chunks().dom().insert(n)
    &&& post.chunks().remove(n) == pre.chunks().remove(n)
    &&& post.chunks()[n].0 == size
    &&& post.chunks()[n].1@ == w
}

/// `post` holds what `pre` holds.
pub open spec fn same_store(pre: ContentStore, post: ContentStore) -> bool {
    &&& post.wf()
    &&& post.chunks() == pre.chunks()
    &&& post.used() == pre.used()
    &&& post.capacity() == pre.capacity()
}

/// The fetch request that the Online resynchronisation sends for the header
/// stored under `k`, if the entry there is a header whose name is known.
pub open spec fn resync_request(store: Map<Name, (u64, Wrapper)>, k: Name, src: Authority, message_id: Name) -> Option<OutgoingView> {
    if store.contains_key(k) {
        match store[k].1@ {
            WrapperView::PutHeader(h) => match h.name {
                Some(hn) => Some(OutgoingView::Post {
                    src,
                    dst: Authority::ClientManager(h.sender),
                    data: DataView { name: hn, wrapper: WrapperView::GetMessage(h) },
                    message_id,
                }),
                None => None,
            },
            _ => None,
        }
    } else {
        None
    }
}

/// The fetch requests sent for the stored headers `names`, in that order.
pub open spec fn resync_requests(store: Map<Name, (u64, Wrapper)>, names: Seq<Name>, src: Authority, message_id: Name) -> Seq<OutgoingView>
    decreases names.len(),
{
    if names.len() == 0 {
        Seq::empty()
    } else {
        let prev = resync_requests(store, names.drop_last(), src, message_id);
        match resync_request(store, names.last(), src, message_id) {
            Some(o) => prev.push(o),
            None => prev,
        }
    }
}

/// The headers of the full messages stored under those of `names` that
/// `index` holds, in the order of `names`.
pub open spec fn headers_in(store: Map<Name, (u64, Wrapper)>, index: Set<Name>, names: Seq<Name>) -> Seq<HeaderView>
    decreases names.len(),
{
    if names.len() == 0 {
        Seq::empty()
    } else {
        let prev = headers_in(store, index, names.drop_last());
        let k = names.last();
        if index.contains(k) && store.contains_key(k) {
            match store[k].1@ {
                WrapperView::PutMessage(m) => prev.push(m.header),
                _ => prev,
            }
        } else {
            prev
        }
    }
}

/// The answer to a request for the full message that header `h` announces.
pub open spec fn get_message_reply(store: Map<Name, (u64, Wrapper)>, request: RequestView, h: HeaderView) -> OutgoingView {
    let failure = OutgoingView::PostFailure {
        src: request.dst,
        dst: request.src,
        request,
        message_id: request.message_id,
    };
    match h.name {
        None => failure,
        Some(hn) => if !store.contains_key(hn) {
            failure
        } else {
            match store[hn].1@ {
                WrapperView::PutMessage(m) => match m.name {
                    Some(mn) => if mn == hn && m.recipient == request.src.name_of() {
                        OutgoingView::Post {
                            src: request.dst,
                            dst: request.src,
                            data: DataView { name: mn, wrapper: store[hn].1@ },
                            message_id: request.message_id,
                        }
                    } else {
                        failure
                    },
                    None => failure,
                },
                _ => failure,
            }
        },
    }
}

/// The copies of `data` relayed to each of `clients`, in that order.
pub open spec fn relay_requests(clients: Seq<Authority>, src: Authority, data: DataView, message_id: Name) -> Seq<OutgoingView> {
    clients.map_values(|c: Authority| OutgoingView::Post { src, dst: c, data, message_id })
}

/// The response to an outbox query from `request.src`.
pub open spec fn outbox_response(request: RequestView, wrapper: WrapperView) -> OutgoingView {
    OutgoingView::Post {
        src: request.dst,
        dst: request.src,
        data: DataView { name: request.dst.name_of(), wrapper },
        message_id: request.message_id,
    }
}

impl MpidManager {
    pub closed spec fn accounts(&self) -> Map<Name, Account> {
        self.accounts@
    }

    pub closed spec fn inbox_store(&self) -> ContentStore {
        self.chunk_store_inbox
    }

    pub closed spec fn outbox_store(&self) -> ContentStore {
        self.chunk_store_outbox
    }

    pub open spec fn wf(&self) -> bool {
        &&& self.accounts_wf()
        &&& self.inbox_store().wf()
        &&& self.outbox_store().wf()
        &&& forall|n: Name| #[trigger] self.accounts().contains_key(n) ==> self.accounts()[n].wf()
    }

    pub closed spec fn accounts_wf(&self) -> bool {
        self.accounts.wf()
    }

    /// `post` differs from `pre` only in the account of `n`, which it holds.
    pub open spec fn only_account_changed(pre: MpidManager, post: MpidManager, n: Name) -> bool {
        &&& post.accounts().contains_key(n)
        &&& post.accounts().remove(n) == pre.accounts().remove(n)
    }

    /// A manager with no account and two empty stores.
    pub fn new() -> (r: MpidManager)
        ensures
            r.wf(),
            r.accounts() == Map::<Name, Account>::empty(),
            r.inbox_store().chunks() == Map::<Name, (u64, Wrapper)>::empty(),
            r.outbox_store().chunks() == Map::<Name, (u64, Wrapper)>::empty(),
            r.inbox_store().capacity() == DEFAULT_STORE_CAPACITY,
            r.outbox_store().capacity() == DEFAULT_STORE_CAPACITY,
    {
        Self::with_capacity(DEFAULT_STORE_CAPACITY, DEFAULT_STORE_CAPACITY)
    }

    /// A manager with no account and two empty stores of the given capacities.
    pub fn with_capacity(inbox_capacity: u64, outbox_capacity: u64) -> (r: MpidManager)
        ensures
            r.wf(),
            r.accounts() == Map::<Name, Account>::empty(),
            r.inbox_store().chunks() == Map::<Name, (u64, Wrapper)>::empty(),
            r.outbox_store().chunks() == Map::<Name, (u64, Wrapper)>::empty(),
            r.inbox_store().used() == 0,
            r.outbox_store().used() == 0,
            r.inbox_store().capacity() == inbox_capacity,
            r.outbox_store().capacity() == outbox_capacity,
    {
        MpidManager {
            accounts: NameMap::new(),
            chunk_store_inbox: ContentStore::new(inbox_capacity),
            chunk_store_outbox: ContentStore::new(outbox_capacity),
        }
    }

    /// The account of `n`, if one was created.
    pub fn account(&self, n: &Name) -> (r: Option<&Account>)
        requires
            self.wf(),
        ensures
            r is None <==> !self.accounts().contains_key(*n),
            r matches Some(a) ==> *a == self.accounts()[*n],
    {
        self.accounts.get(n)
    }

    /// The inbox store.
    pub fn inbox_chunks(&self) -> (r: &ContentStore)
        ensures
            *r == self.inbox_store(),
    {
        &self.chunk_store_inbox
    }

    /// The outbox store.
    pub fn outbox_chunks(&self) -> (r: &ContentStore)
        ensures
            *r == self.outbox_store(),
    {
        &self.chunk_store_outbox
    }

    /// Takes the account of `n` out, or a fresh one where none is held.
    fn take_account(&mut self, n: &Name) -> (a: Account)
        requires
            old(self).wf(),
        ensures
            final(self).wf(),
            a.wf(),
            found_account(old(self).accounts(), *n, a),
            final(self).accounts() == old(self).accounts().remove(*n),
            final(self).inbox_store() == old(self).inbox_store(),
            final(self).outbox_store() == old(self).outbox_store(),
    {
        let r = match self.accounts.take(n) {
            Some(a) => {
                assert(old(self).accounts().contains_key(*n));
                a
            },
            None => Account::default(),
        };
        assert forall|k: Name| #[trigger] self.accounts().contains_key(k) implies self.accounts()[k].wf() by {
            assert(old(self).accounts().contains_key(k));
        }
        r
    }

    /// Puts back the account of `n` taken out by `take_account`.
    fn restore_account(&mut self, n: &Name, a: Account)
        requires
            old(self).wf(),
            a.wf(),
            !old(self).accounts().contains_key(*n),
        ensures
            final(self).wf(),
            final(self).accounts() == old(self).accounts().insert(*n, a),
            final(self).inbox_store() == old(self).inbox_store(),
            final(self).outbox_store() == old(self).outbox_store(),
    {
        self.accounts.insert_new(*n, a);
    }

    /// Handles a Put request: a header into the inbox of the destination's
    /// account, or a full message into the outbox of its sender's account.
    pub fn handle_put(&mut self, request: &RequestMessage) -> (r: (Result<(), InternalError>, Vec<Outgoing>))
        requires
            old(self).wf(),
        ensures
            final(self).wf(),
            ({
                let pre = *old(self);
                let post = *final(self);
                let n = request.data.name;
                let size = request.payload_size;
                let sent = outgoing_views(r.1@);
                match request.data.wrapper {
                    Wrapper::PutHeader(_) if request.verb == Verb::Put => {
                        let owner = request.dst.name_of();
                        if pre.inbox_store().chunks().contains_key(n) {
                            &&& r.0 == Err::<(), InternalError>(InternalError::DataExists)
                            &&& post == pre
                            &&& sent.len() == 0
                        } else {
                            &&& r.0 is Ok
                            &&& sent.len() == 0
                            &&& Self::only_account_changed(pre, post, owner)
                            &&& post.outbox_store() == pre.outbox_store()
                            &&& exists|a: Account, accepted: bool|
                                {
                                    &&& found_account(pre.accounts(), owner, a)
                                    &&& Account::after_inbox_put(a, size, n, accepted, post.accounts()[owner])
                                    &&& if accepted && pre.inbox_store().used() + size <= pre.inbox_store().capacity() {
                                        stored_as(pre.inbox_store(), post.inbox_store(), n, size, request.data.wrapper@)
                                    } else {
                                        same_store(pre.inbox_store(), post.inbox_store())
                                    }
                                }
                        }
                    },
                    Wrapper::PutMessage(m) if request.verb == Verb::Put => {
                        let owner = m.header.sender;
                        let listed = pre.accounts().contains_key(owner) && pre.accounts()[owner].outbox().contents().contains_key(n);
                        if listed || pre.outbox_store().chunks().contains_key(n) {
                            &&& r.0 == Err::<(), InternalError>(InternalError::DataExists)
                            &&& post == pre
                            &&& sent.len() == 0
                        } else {
                            &&& Self::only_account_changed(pre, post, owner)
                            &&& post.inbox_store() == pre.inbox_store()
                            &&& exists|a: Account|
                                {
                                    &&& found_account(pre.accounts(), owner, a)
                                    &&& if !a.outbox().accepts(size, n) {
                                        &&& r.0 is Ok
                                        &&& sent.len() == 0
                                        &&& Account::after_outbox_put(a, size, n, false, post.accounts()[owner])
                                        &&& same_store(pre.outbox_store(), post.outbox_store())
                                    } else if pre.outbox_store().used() + size > pre.outbox_store().capacity() {
                                        &&& r.0 == Err::<(), InternalError>(InternalError::ChunkStore(StoreError::StorageLimitHit))
                                        &&& sent.len() == 0
                                        &&& Account::same_holdings(a, post.accounts()[owner])
                                        &&& same_store(pre.outbox_store(), post.outbox_store())
                                    } else {
                                        &&& Account::after_outbox_put(a, size, n, true, post.accounts()[owner])
                                        &&& stored_as(pre.outbox_store(), post.outbox_store(), n, size, request.data.wrapper@)
                                        &&& match m.header.name {
                                            None => {
                                                &&& r.0 == Err::<(), InternalError>(InternalError::NoSuchAccount)
                                                &&& sent.len() == 0
                                            },
                                            Some(hn) => {
                                                &&& r.0 is Ok
                                                &&& sent == seq![OutgoingView::Put {
                                                    src: request.dst,
                                                    dst: Authority::ClientManager(m.recipient),
                                                    data: DataView { name: hn, wrapper: WrapperView::PutHeader(m.header@) },
                                                    message_id: request.message_id,
                                                }]
                                            },
                                        }
                                    }
                                }
                        }
                    },
                    _ => {
                        &&& r.0 == Err::<(), InternalError>(InternalError::UnexpectedRequest)
                        &&& post == pre
                        &&& sent.len() == 0
                    },
                }
            }),
    {
        let mut sent: Vec<Outgoing> = Vec::new();
        if request.verb != Verb::Put {
            return (Err(InternalError::UnexpectedRequest), sent);
        }
        let n = request.data.name;
        let size = request.payload_size;
        match &request.data.wrapper {
            Wrapper::PutHeader(_) => {
                if self.chunk_store_inbox.has_chunk(&n) {
                    return (Err(InternalError::DataExists), sent);
                }
                let owner = request.dst.get_name();
                let mut a = self.take_account(&owner);
                let ghost a0 = a;
                let accepted = a.put_into_inbox(size, &n, &None);
                if accepted {
                    let _ = self.chunk_store_inbox.put(&n, size, request.data.wrapper.duplicate());
                }
                self.restore_account(&owner, a);
                proof {
                    assert(self.accounts().remove(owner) =~= old(self).accounts().remove(owner));
                    assert(found_account(old(self).accounts(), owner, a0));
                    assert(Account::after_inbox_put(a0, size, n, accepted, self.accounts()[owner]));
                    if accepted && old(self).inbox_store().used() + size <= old(self).inbox_store().capacity() {
                        assert(self.inbox_store().chunks().remove(n) =~= old(self).inbox_store().chunks().remove(n));
                        assert(stored_as(old(self).inbox_store(), self.inbox_store(), n, size, request.data.wrapper@));
                    } else {
                        assert(same_store(old(self).inbox_store(), self.inbox_store()));
                    }
                }
                (Ok(()), sent)
            },
            Wrapper::PutMessage(m) => {
                let owner = m.header.sender;
                let listed = match self.accounts.get(&owner) {
                    Some(acc) => {
                        assert(self.accounts().contains_key(owner));
                        acc.has_in_outbox(&n)
                    },
                    None => false,
                };
                if listed || self.chunk_store_outbox.has_chunk(&n) {
                    return (Err(InternalError::DataExists), sent);
                }
                let mut a = self.take_account(&owner);
                let ghost a0 = a;
                let accepted = a.put_into_outbox(size, &n, &None);
                let ghost a1 = a;
                let mut result: Result<(), InternalError> = Ok(());
                if accepted {
                    match self.chunk_store_outbox.put(&n, size, request.data.wrapper.duplicate()) {
                        Err(e) => {
                            let refunded = a.remove_from_outbox(size, &n);
                            proof {
                                Mailbox::lemma_remove_undoes_put(a0.outbox(), size, n, None, a1.outbox(), refunded, a.outbox());
                            }
                            result = Err(InternalError::ChunkStore(e));
                        },
                        Ok(()) => {
                            match m.header.name {
                                None => {
                                    result = Err(InternalError::NoSuchAccount);
                                },
                                Some(hn) => {
                                    sent.push(Outgoing::Put {
                                        src: request.dst,
                                        dst: Authority::ClientManager(m.recipient),
                                        data: Data { name: hn, wrapper: Wrapper::PutHeader(m.header.duplicate()) },
                                        message_id: request.message_id,
                                    });
                                },
                            }
                        },
                    }
                }
                self.restore_account(&owner, a);
                proof {
                    assert(self.accounts().remove(owner) =~= old(self).accounts().remove(owner));
                    assert(found_account(old(self).accounts(), owner, a0));
                    if accepted && old(self).outbox_store().used() + size <= old(self).outbox_store().capacity() {
                        assert(self.outbox_store().chunks().remove(n) =~= old(self).outbox_store().chunks().remove(n));
                        assert(stored_as(old(self).outbox_store(), self.outbox_store(), n, size, request.data.wrapper@));
                    }
                }
                (result, sent)
            },
            _ => (Err(InternalError::UnexpectedRequest), sent),
        }
    }

    /// Handles a Post request: a client coming online, a fetch of a full
    /// message, a relay of a message to online clients, or an outbox query.
    pub fn handle_post(&mut self, request: &RequestMessage) -> (r: (Result<(), InternalError>, Vec<Outgoing>))
        requires
            old(self).wf(),
        ensures
            final(self).wf(),
            ({
                let pre = *old(self);
                let post = *final(self);
                let owner = request.dst.name_of();
                let sent = outgoing_views(r.1@);
                let authorised = pre.accounts().contains_key(owner) && pre.accounts()[owner].clients().contains(
                    request.src,
                );
                if request.verb != Verb::Post {
                    &&& r.0 == Err::<(), InternalError>(InternalError::UnexpectedRequest)
                    &&& post == pre
                    &&& sent.len() == 0
                } else {
                    match request.data.wrapper@ {
                        WrapperView::Online => {
                            &&& r.0 is Ok
                            &&& Self::only_account_changed(pre, post, owner)
                            &&& post.inbox_store() == pre.inbox_store()
                            &&& post.outbox_store() == pre.outbox_store()
                            &&& exists|a: Account|
                                {
                                    &&& found_account(pre.accounts(), owner, a)
                                    &&& Account::after_register(a, request.src, post.accounts()[owner])
                                    &&& sent == resync_requests(
                                        pre.inbox_store().chunks(),
                                        sorted_listing(a.inbox().contents().dom()),
                                        request.dst,
                                        request.message_id,
                                    )
                                }
                        },
                        WrapperView::GetMessage(h) => {
                            &&& r.0 is Ok
                            &&& post == pre
                            &&& sent == seq![get_message_reply(pre.outbox_store().chunks(), request@, h)]
                        },
                        WrapperView::PutMessage(m) => {
                            &&& r.0 is Ok
                            &&& post == pre
                            &&& sent == if pre.accounts().contains_key(owner) && m.recipient == owner {
                                relay_requests(
                                    pre.accounts()[owner].clients(),
                                    request.dst,
                                    request.data@,
                                    request.message_id,
                                )
                            } else {
                                Seq::empty()
                            }
                        },
                        WrapperView::OutboxHas(names) => {
                            &&& r.0 is Ok
                            &&& post == pre
                            &&& sent == if authorised {
                                seq![outbox_response(request@, WrapperView::OutboxHasResponse(
                                    headers_in(pre.outbox_store().chunks(), pre.accounts()[owner].outbox().contents().dom(), names),
                                ))]
                            } else {
                                Seq::empty()
                            }
                        },
                        WrapperView::GetOutboxHeaders => {
                            &&& r.0 is Ok
                            &&& post == pre
                            &&& authorised ==> sent == seq![outbox_response(request@, WrapperView::GetOutboxHeadersResponse(
                                headers_in(
                                    pre.outbox_store().chunks(),
                                    pre.accounts()[owner].inbox().contents().dom(),
                                    sorted_listing(pre.accounts()[owner].inbox().contents().dom()),
                                ),
                            ))]
                            &&& !authorised ==> sent.len() == 0
                        },
                        _ => {
                            &&& r.0 == Err::<(), InternalError>(InternalError::UnexpectedRequest)
                            &&& post == pre
                            &&& sent.len() == 0
                        },
                    }
                }
            }),
    {
        if request.verb != Verb::Post {
            return (Err(InternalError::UnexpectedRequest), Vec::new());
        }
        let owner = request.dst.get_name();
        match &request.data.wrapper {
            Wrapper::Online => {
                let mut a = self.take_account(&owner);
                let ghost a0 = a;
                a.register_online(&request.src);
                let names = a.received_headers();
                self.restore_account(&owner, a);
                let sent = self.resync(&names, request.dst, request.message_id);
                proof {
                    assert(self.accounts().remove(owner) =~= old(self).accounts().remove(owner));
                    assert(found_account(old(self).accounts(), owner, a0));
                    assert(Account::after_register(a0, request.src, self.accounts()[owner]));
                    lemma_sorted_listing(names@, a0.inbox().contents().dom());
                }
                (Ok(()), sent)
            },
            Wrapper::GetMessage(h) => {
                let reply = self.get_message(request, h);
                let mut sent: Vec<Outgoing> = Vec::new();
                sent.push(reply);
                assert(outgoing_views(sent@) =~= seq![reply@]);
                (Ok(()), sent)
            },
            Wrapper::PutMessage(m) => {
                match self.accounts.get(&owner) {
                    Some(a) => {
                        if m.recipient.same(&owner) {
                            (Ok(()), Self::relay(request, a.registered_clients()))
                        } else {
                            let sent: Vec<Outgoing> = Vec::new();
                            assert(outgoing_views(sent@) =~= Seq::<OutgoingView>::empty());
                            (Ok(()), sent)
                        }
                    },
                    None => {
                        let sent: Vec<Outgoing> = Vec::new();
                        assert(outgoing_views(sent@) =~= Seq::<OutgoingView>::empty());
                        (Ok(()), sent)
                    },
                }
            },
            Wrapper::OutboxHas(names) => {
                let mut sent: Vec<Outgoing> = Vec::new();
                match self.accounts.get(&owner) {
                    Some(a) => {
                        if a.is_registered(&request.src) {
                            assert(old(self).accounts()[owner].wf());
                            let headers = self.collect_headers(a.outbox_mailbox(), names);
                            sent.push(Outgoing::Post {
                                src: request.dst,
                                dst: request.src,
                                data: Data { name: owner, wrapper: Wrapper::OutboxHasResponse(headers) },
                                message_id: request.message_id,
                            });
                        }
                    },
                    None => {},
                }
                (Ok(()), sent)
            },
            Wrapper::GetOutboxHeaders => {
                let mut sent: Vec<Outgoing> = Vec::new();
                match self.accounts.get(&owner) {
                    Some(a) => {
                        if a.is_registered(&request.src) {
                            assert(old(self).accounts()[owner].wf());
                            let names = a.received_headers();
                            proof {
                                lemma_sorted_listing(names@, a.inbox().contents().dom());
                            }
                            let headers = self.collect_headers(a.inbox_mailbox(), &names);
                            sent.push(Outgoing::Post {
                                src: request.dst,
                                dst: request.src,
                                data: Data { name: owner, wrapper: Wrapper::GetOutboxHeadersResponse(headers) },
                                message_id: request.message_id,
                            });
                            assert(outgoing_views(sent@) =~= seq![outbox_response(request@, WrapperView::GetOutboxHeadersResponse(
                                headers_in(self.outbox_store().chunks(), a.inbox().contents().dom(), names@),
                            ))]);
                        }
                    },
                    None => {},
                }
                (Ok(()), sent)
            },
            _ => (Err(InternalError::UnexpectedRequest), Vec::new()),
        }
    }

    /// The headers of the full messages stored under those of `names` that
    /// `index` holds.
    fn collect_headers(&self, index: &Mailbox, names: &Vec<Name>) -> (r: Vec<Header>)
        requires
            self.wf(),
            index.wf(),
        ensures
            header_views(r@) == headers_in(self.outbox_store().chunks(), index.contents().dom(), names@),
    {
        let ghost store = self.outbox_store().chunks();
        let ghost dom = index.contents().dom();
        let mut r: Vec<Header> = Vec::new();
        let mut i: usize = 0;
        while i < names.len()
            invariant
                self.wf(),
                index.wf(),
                store == self.outbox_store().chunks(),
                dom == index.contents().dom(),
                i <= names@.len(),
                header_views(r@) == headers_in(store, dom, names@.subrange(0, i as int)),
            decreases names@.len() - i,
        {
            let k = names[i];
            assert(names@.subrange(0, i + 1).drop_last() =~= names@.subrange(0, i as int));
            assert(names@.subrange(0, i + 1).last() == k);
            if index.has(&k) {
                match self.chunk_store_outbox.get(&k) {
                    Some(c) => match &c.1 {
                        Wrapper::PutMessage(m) => {
                            let ghost before = r@;
                            r.push(m.header.duplicate());
                            assert(header_views(r@) =~= header_views(before).push(m.header@));
                        },
                        _ => {},
                    },
                    None => {},
                }
            }
            i = i + 1;
        }
        assert(names@.subrange(0, names@.len() as int) =~= names@);
        r
    }

    /// The fetch requests for the headers stored under `names`.
    fn resync(&self, names: &Vec<Name>, src: Authority, message_id: Name) -> (r: Vec<Outgoing>)
        requires
            self.wf(),
        ensures
            outgoing_views(r@) == resync_requests(self.inbox_store().chunks(), names@, src, message_id),
    {
        let ghost store = self.inbox_store().chunks();
        let mut r: Vec<Outgoing> = Vec::new();
        let mut i: usize = 0;
        while i < names.len()
            invariant
                self.wf(),
                store == self.inbox_store().chunks(),
                i <= names@.len(),
                outgoing_views(r@) == resync_requests(store, names@.subrange(0, i as int), src, message_id),
            decreases names@.len() - i,
        {
            let k = names[i];
            assert(names@.subrange(0, i + 1).drop_last() =~= names@.subrange(0, i as int));
            assert(names@.subrange(0, i + 1).last() == k);
            match self.chunk_store_inbox.get(&k) {
                Some(c) => match &c.1 {
                    Wrapper::PutHeader(h) => match h.name {
                        Some(hn) => {
                            let ghost before = r@;
                            r.push(Outgoing::Post {
                                src,
                                dst: Authority::ClientManager(h.sender),
                                data: Data { name: hn, wrapper: Wrapper::GetMessage(h.duplicate()) },
                                message_id,
                            });
                            assert(outgoing_views(r@) =~= outgoing_views(before).push(r@.last()@));
                        },
                        None => {},
                    },
                    _ => {},
                },
                None => {},
            }
            i = i + 1;
        }
        assert(names@.subrange(0, names@.len() as int) =~= names@);
        r
    }

    /// The answer to a request for the full message that `h` announces.
    fn get_message(&self, request: &RequestMessage, h: &Header) -> (r: Outgoing)
        requires
            self.wf(),
        ensures
            r@ == get_message_reply(self.outbox_store().chunks(), request@, h@),
    {
        let failure = Outgoing::PostFailure {
            src: request.dst,
            dst: request.src,
            request: request.duplicate(),
            message_id: request.message_id,
        };
        let hn = match h.name {
            Some(hn) => hn,
            None => {
                return failure;
            },
        };
        match self.chunk_store_outbox.get(&hn) {
            Some(c) => match &c.1 {
                Wrapper::PutMessage(m) => match m.name {
                    Some(mn) => {
                        if mn.same(&hn) && m.recipient.same(&request.src.get_name()) {
                            Outgoing::Post {
                                src: request.dst,
                                dst: request.src,
                                data: Data { name: mn, wrapper: c.1.duplicate() },
                                message_id: request.message_id,
                            }
                        } else {
                            failure
                        }
                    },
                    None => failure,
                },
                _ => failure,
            },
            None => failure,
        }
    }

    /// Copies of `request`'s payload for each registered client of `clients`.
    fn relay(request: &RequestMessage, clients: &Vec<Authority>) -> (r: Vec<Outgoing>)
        ensures
            outgoing_views(r@) == relay_requests(clients@, request.dst, request.data@, request.message_id),
    {
        let mut r: Vec<Outgoing> = Vec::new();
        let mut i: usize = 0;
        while i < clients.len()
            invariant
                i <= clients@.len(),
                r@.len() == i,
                forall|j: int| 0 <= j < i ==> (#[trigger] r@[j])@ == (OutgoingView::Post {
                    src: request.dst,
                    dst: clients@[j],
                    data: request.data@,
                    message_id: request.message_id,
                }),
            decreases clients@.len() - i,
        {
            r.push(Outgoing::Post {
                src: request.dst,
                dst: clients[i],
                data: request.data.duplicate(),
                message_id: request.message_id,
            });
            i = i + 1;
        }
        assert(outgoing_views(r@) =~= relay_requests(clients@, request.dst, request.data@, request.message_id));
        r
    }
}

} // verus!
