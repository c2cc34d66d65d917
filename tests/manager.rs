use mpid_manager::account::{MAX_INBOX_SIZE, MAX_OUTBOX_SIZE};
use mpid_manager::manager::{InternalError, MpidManager};
use mpid_manager::name::{Name, PublicKey};
use mpid_manager::request::{Outgoing, RequestMessage, Verb};
use mpid_manager::store::StoreError;
use mpid_manager::wire::{Authority, Data, Header, Message, Wrapper};

fn name(b: u8) -> Name {
    Name([b; 64])
}

fn client(b: u8) -> Authority {
    Authority::Client { client_key: PublicKey([b; 32]), proxy_node_name: name(b) }
}

fn manager_of(b: u8) -> Authority {
    Authority::ClientManager(name(b))
}

fn header(sender: u8, address: Option<u8>) -> Header {
    Header { sender: name(sender), name: address.map(name), encoded: vec![1, 2, 3] }
}

fn message(sender: u8, recipient: u8, address: u8) -> Message {
    Message {
        header: header(sender, Some(address)),
        recipient: name(recipient),
        name: Some(name(address)),
        encoded: vec![9; 20],
    }
}

fn request(src: Authority, dst: Authority, verb: Verb, address: Name, wrapper: Wrapper, size: u64) -> RequestMessage {
    RequestMessage { src, dst, verb, data: Data { name: address, wrapper }, payload_size: size, message_id: name(77) }
}

fn put_message(m: Message, size: u64) -> RequestMessage {
    let sender = m.header.sender.0[0];
    let address = m.name.unwrap();
    request(client(sender), manager_of(sender), Verb::Put, address, Wrapper::PutMessage(m), size)
}

fn same_name(a: &Name, b: &Name) -> bool {
    a.0 == b.0
}

#[test]
fn put_message_into_fresh_outbox_stores_and_notifies() {
    let mut mgr = MpidManager::new();
    let (r, sent) = mgr.handle_put(&put_message(message(1, 2, 50), 100));
    assert_eq!(r, Ok(()));
    assert!(mgr.outbox_chunks().has_chunk(&name(50)));
    assert!(!mgr.inbox_chunks().has_chunk(&name(50)));
    let account = mgr.account(&name(1)).unwrap();
    assert!(account.has_in_outbox(&name(50)));
    assert_eq!(account.outbox_mailbox().get_used_space(), 100);
    assert_eq!(account.outbox_mailbox().get_space_available(), MAX_OUTBOX_SIZE - 100);
    assert_eq!(sent.len(), 1);
    match &sent[0] {
        Outgoing::Put { src, dst, data, message_id } => {
            assert!(src.same(&manager_of(1)));
            assert!(dst.same(&manager_of(2)));
            assert!(same_name(&data.name, &name(50)));
            assert!(same_name(message_id, &name(77)));
            match &data.wrapper {
                Wrapper::PutHeader(h) => {
                    assert!(same_name(&h.sender, &name(1)));
                    assert_eq!(h.encoded, vec![1, 2, 3]);
                }
                other => panic!("unexpected payload {:?}", other),
            }
        }
        other => panic!("unexpected request {:?}", other),
    }
}

#[test]
fn put_message_twice_fails_with_data_exists() {
    let mut mgr = MpidManager::new();
    let (r1, _) = mgr.handle_put(&put_message(message(1, 2, 50), 100));
    assert_eq!(r1, Ok(()));
    let used = mgr.outbox_chunks().get(&name(50)).unwrap().0;
    let (r2, sent) = mgr.handle_put(&put_message(message(1, 2, 50), 100));
    assert_eq!(r2, Err(InternalError::DataExists));
    assert!(sent.is_empty());
    assert_eq!(mgr.outbox_chunks().get(&name(50)).unwrap().0, used);
    assert_eq!(mgr.account(&name(1)).unwrap().outbox_mailbox().get_used_space(), 100);
}

#[test]
fn put_message_over_quota_is_dropped_silently() {
    let mut mgr = MpidManager::new();
    let (r, sent) = mgr.handle_put(&put_message(message(1, 2, 50), MAX_OUTBOX_SIZE + 1));
    assert_eq!(r, Ok(()));
    assert!(sent.is_empty());
    assert!(!mgr.outbox_chunks().has_chunk(&name(50)));
    assert_eq!(mgr.account(&name(1)).unwrap().outbox_mailbox().get_used_space(), 0);
}

#[test]
fn put_message_beyond_store_capacity_fails() {
    let mut mgr = MpidManager::with_capacity(1000, 10);
    let (r, sent) = mgr.handle_put(&put_message(message(1, 2, 50), 11));
    assert_eq!(r, Err(InternalError::ChunkStore(StoreError::StorageLimitHit)));
    assert!(sent.is_empty());
    assert!(!mgr.outbox_chunks().has_chunk(&name(50)));
    let account = mgr.account(&name(1)).unwrap();
    assert!(!account.has_in_outbox(&name(50)));
    assert_eq!(account.outbox_mailbox().get_used_space(), 0);
    assert_eq!(account.outbox_mailbox().get_space_available(), MAX_OUTBOX_SIZE);
}

#[test]
fn put_message_retried_after_full_store_fails_again_loudly() {
    let mut mgr = MpidManager::with_capacity(1000, 10);
    assert_eq!(mgr.handle_put(&put_message(message(1, 2, 50), 11)).0, Err(InternalError::ChunkStore(StoreError::StorageLimitHit)));
    assert_eq!(mgr.handle_put(&put_message(message(1, 2, 50), 11)).0, Err(InternalError::ChunkStore(StoreError::StorageLimitHit)));
    let (r, sent) = mgr.handle_put(&put_message(message(1, 2, 50), 10));
    assert_eq!(r, Ok(()));
    assert_eq!(sent.len(), 1);
    assert!(mgr.account(&name(1)).unwrap().has_in_outbox(&name(50)));
}

#[test]
fn put_message_listed_in_sender_outbox_fails_with_data_exists() {
    let mut mgr = MpidManager::new();
    let mut m = message(1, 2, 50);
    m.header.name = None;
    assert_eq!(mgr.handle_put(&put_message(m, 10)).0, Err(InternalError::NoSuchAccount));
    assert!(mgr.account(&name(1)).unwrap().has_in_outbox(&name(50)));
    let (r, sent) = mgr.handle_put(&put_message(message(1, 2, 50), 10));
    assert_eq!(r, Err(InternalError::DataExists));
    assert!(sent.is_empty());
    assert_eq!(mgr.account(&name(1)).unwrap().outbox_mailbox().get_used_space(), 10);
}

#[test]
fn put_message_with_unnamed_header_fails_after_storing() {
    let mut mgr = MpidManager::new();
    let mut m = message(1, 2, 50);
    m.header.name = None;
    let (r, sent) = mgr.handle_put(&put_message(m, 10));
    assert_eq!(r, Err(InternalError::NoSuchAccount));
    assert!(sent.is_empty());
    assert!(mgr.outbox_chunks().has_chunk(&name(50)));
}

#[test]
fn first_put_header_creates_default_account() {
    let mut mgr = MpidManager::new();
    assert!(mgr.account(&name(2)).is_none());
    let req = request(manager_of(1), manager_of(2), Verb::Put, name(60), Wrapper::PutHeader(header(1, Some(60))), 40);
    let (r, sent) = mgr.handle_put(&req);
    assert_eq!(r, Ok(()));
    assert!(sent.is_empty());
    let account = mgr.account(&name(2)).unwrap();
    assert_eq!(account.inbox_mailbox().get_allowance(), MAX_INBOX_SIZE);
    assert_eq!(account.outbox_mailbox().get_allowance(), MAX_OUTBOX_SIZE);
    assert_eq!(account.inbox_mailbox().get_used_space(), 40);
    assert_eq!(account.outbox_mailbox().get_space_available(), MAX_OUTBOX_SIZE);
    assert!(account.registered_clients().is_empty());
    assert!(mgr.inbox_chunks().has_chunk(&name(60)));
}

#[test]
fn put_header_already_stored_fails_with_data_exists() {
    let mut mgr = MpidManager::new();
    let req = request(manager_of(1), manager_of(2), Verb::Put, name(60), Wrapper::PutHeader(header(1, Some(60))), 40);
    assert_eq!(mgr.handle_put(&req).0, Ok(()));
    assert_eq!(mgr.handle_put(&req).0, Err(InternalError::DataExists));
    assert_eq!(mgr.account(&name(2)).unwrap().inbox_mailbox().get_used_space(), 40);
}

#[test]
fn put_with_wrong_verb_or_payload_is_refused() {
    let mut mgr = MpidManager::new();
    let wrong_verb = request(client(1), manager_of(1), Verb::Post, name(50), Wrapper::PutMessage(message(1, 2, 50)), 10);
    assert_eq!(mgr.handle_put(&wrong_verb).0, Err(InternalError::UnexpectedRequest));
    let wrong_payload = request(client(1), manager_of(1), Verb::Put, name(50), Wrapper::Online, 10);
    assert_eq!(mgr.handle_put(&wrong_payload).0, Err(InternalError::UnexpectedRequest));
    let wrong_post = request(client(1), manager_of(1), Verb::Get, name(50), Wrapper::Online, 10);
    assert_eq!(mgr.handle_post(&wrong_post).0, Err(InternalError::UnexpectedRequest));
    let response = request(client(1), manager_of(1), Verb::Post, name(50), Wrapper::DeleteHeader(name(5)), 10);
    assert_eq!(mgr.handle_post(&response).0, Err(InternalError::UnexpectedRequest));
    assert!(mgr.account(&name(1)).is_none());
}

fn stored_message_manager() -> MpidManager {
    let mut mgr = MpidManager::new();
    assert_eq!(mgr.handle_put(&put_message(message(1, 2, 50), 100)).0, Ok(()));
    mgr
}

#[test]
fn get_message_from_wrong_recipient_gets_failure() {
    let mut mgr = stored_message_manager();
    let req = request(manager_of(3), manager_of(1), Verb::Post, name(50), Wrapper::GetMessage(header(1, Some(50))), 10);
    let (r, sent) = mgr.handle_post(&req);
    assert_eq!(r, Ok(()));
    assert_eq!(sent.len(), 1);
    match &sent[0] {
        Outgoing::PostFailure { src, dst, request, .. } => {
            assert!(src.same(&manager_of(1)));
            assert!(dst.same(&manager_of(3)));
            assert!(request.src.same(&manager_of(3)));
        }
        other => panic!("unexpected request {:?}", other),
    }
}

#[test]
fn get_message_from_recipient_forwards_message() {
    let mut mgr = stored_message_manager();
    let req = request(manager_of(2), manager_of(1), Verb::Post, name(50), Wrapper::GetMessage(header(1, Some(50))), 10);
    let (r, sent) = mgr.handle_post(&req);
    assert_eq!(r, Ok(()));
    assert_eq!(sent.len(), 1);
    match &sent[0] {
        Outgoing::Post { src, dst, data, .. } => {
            assert!(src.same(&manager_of(1)));
            assert!(dst.same(&manager_of(2)));
            assert!(same_name(&data.name, &name(50)));
            match &data.wrapper {
                Wrapper::PutMessage(m) => assert_eq!(m.encoded, vec![9; 20]),
                other => panic!("unexpected payload {:?}", other),
            }
        }
        other => panic!("unexpected request {:?}", other),
    }
}

#[test]
fn get_message_not_stored_or_unnamed_gets_failure() {
    let mut mgr = stored_message_manager();
    let missing = request(manager_of(2), manager_of(1), Verb::Post, name(51), Wrapper::GetMessage(header(1, Some(51))), 10);
    let (_, sent) = mgr.handle_post(&missing);
    assert!(matches!(sent[0], Outgoing::PostFailure { .. }));
    let unnamed = request(manager_of(2), manager_of(1), Verb::Post, name(50), Wrapper::GetMessage(header(1, None)), 10);
    let (_, sent) = mgr.handle_post(&unnamed);
    assert!(matches!(sent[0], Outgoing::PostFailure { .. }));
}

#[test]
fn outbox_has_from_unregistered_client_gets_no_response() {
    let mut mgr = stored_message_manager();
    let req = request(client(9), manager_of(1), Verb::Post, name(1), Wrapper::OutboxHas(vec![name(50)]), 10);
    let (r, sent) = mgr.handle_post(&req);
    assert_eq!(r, Ok(()));
    assert!(sent.is_empty());
}

#[test]
fn outbox_has_from_registered_client_lists_present_headers() {
    let mut mgr = stored_message_manager();
    let online = request(client(1), manager_of(1), Verb::Post, name(1), Wrapper::Online, 10);
    assert_eq!(mgr.handle_post(&online).0, Ok(()));
    let req = request(client(1), manager_of(1), Verb::Post, name(1), Wrapper::OutboxHas(vec![name(50), name(51)]), 10);
    let (r, sent) = mgr.handle_post(&req);
    assert_eq!(r, Ok(()));
    assert_eq!(sent.len(), 1);
    match &sent[0] {
        Outgoing::Post { dst, data, .. } => {
            assert!(dst.same(&client(1)));
            assert!(same_name(&data.name, &name(1)));
            match &data.wrapper {
                Wrapper::OutboxHasResponse(headers) => {
                    assert_eq!(headers.len(), 1);
                    assert!(same_name(&headers[0].name.unwrap(), &name(50)));
                }
                other => panic!("unexpected payload {:?}", other),
            }
        }
        other => panic!("unexpected request {:?}", other),
    }
}

#[test]
fn get_outbox_headers_reads_inbox_names_against_outbox_store() {
    let mut mgr = stored_message_manager();
    let online = request(client(1), manager_of(1), Verb::Post, name(1), Wrapper::Online, 10);
    assert_eq!(mgr.handle_post(&online).0, Ok(()));
    let req = request(client(1), manager_of(1), Verb::Post, name(1), Wrapper::GetOutboxHeaders, 10);
    let (r, sent) = mgr.handle_post(&req);
    assert_eq!(r, Ok(()));
    assert_eq!(sent.len(), 1);
    match &sent[0] {
        Outgoing::Post { data, .. } => match &data.wrapper {
            Wrapper::GetOutboxHeadersResponse(headers) => assert!(headers.is_empty()),
            other => panic!("unexpected payload {:?}", other),
        },
        other => panic!("unexpected request {:?}", other),
    }
    let stranger = request(client(8), manager_of(1), Verb::Post, name(1), Wrapper::GetOutboxHeaders, 10);
    assert!(mgr.handle_post(&stranger).1.is_empty());
}

#[test]
fn online_twice_registers_client_once() {
    let mut mgr = MpidManager::new();
    let online = request(client(2), manager_of(2), Verb::Post, name(2), Wrapper::Online, 10);
    assert_eq!(mgr.handle_post(&online).0, Ok(()));
    assert_eq!(mgr.handle_post(&online).0, Ok(()));
    let account = mgr.account(&name(2)).unwrap();
    assert_eq!(account.registered_clients().len(), 1);
    assert!(account.is_registered(&client(2)));
}

#[test]
fn online_fetches_messages_for_stored_headers() {
    let mut mgr = MpidManager::new();
    let put = request(manager_of(1), manager_of(2), Verb::Put, name(60), Wrapper::PutHeader(header(1, Some(60))), 40);
    assert_eq!(mgr.handle_put(&put).0, Ok(()));
    let online = request(client(2), manager_of(2), Verb::Post, name(2), Wrapper::Online, 10);
    let (r, sent) = mgr.handle_post(&online);
    assert_eq!(r, Ok(()));
    assert_eq!(sent.len(), 1);
    match &sent[0] {
        Outgoing::Post { src, dst, data, .. } => {
            assert!(src.same(&manager_of(2)));
            assert!(dst.same(&manager_of(1)));
            assert!(same_name(&data.name, &name(60)));
            assert!(matches!(data.wrapper, Wrapper::GetMessage(_)));
        }
        other => panic!("unexpected request {:?}", other),
    }
}

#[test]
fn put_message_post_is_relayed_to_online_clients() {
    let mut mgr = MpidManager::new();
    let online = request(client(2), manager_of(2), Verb::Post, name(2), Wrapper::Online, 10);
    assert_eq!(mgr.handle_post(&online).0, Ok(()));
    let relay = request(manager_of(1), manager_of(2), Verb::Post, name(50), Wrapper::PutMessage(message(1, 2, 50)), 10);
    let (r, sent) = mgr.handle_post(&relay);
    assert_eq!(r, Ok(()));
    assert_eq!(sent.len(), 1);
    match &sent[0] {
        Outgoing::Post { dst, data, .. } => {
            assert!(dst.same(&client(2)));
            assert!(same_name(&data.name, &name(50)));
        }
        other => panic!("unexpected request {:?}", other),
    }
    let misaddressed = request(manager_of(1), manager_of(2), Verb::Post, name(50), Wrapper::PutMessage(message(1, 3, 50)), 10);
    assert!(mgr.handle_post(&misaddressed).1.is_empty());
    let no_account = request(manager_of(1), manager_of(4), Verb::Post, name(50), Wrapper::PutMessage(message(1, 4, 50)), 10);
    assert!(mgr.handle_post(&no_account).1.is_empty());
}
