use mpid_manager::name::Name;
use mpid_manager::store::{ContentStore, StoreError};
use mpid_manager::wire::Wrapper;

#[test]
fn store_put_then_get() {
    let mut s = ContentStore::new(100);
    assert_eq!(s.put(&Name([1; 64]), 40, Wrapper::Online), Ok(()));
    assert!(s.has_chunk(&Name([1; 64])));
    assert_eq!(s.get(&Name([1; 64])).unwrap().0, 40);
    assert!(s.get(&Name([2; 64])).is_none());
}

#[test]
fn store_refuses_a_name_already_held() {
    let mut s = ContentStore::new(100);
    assert_eq!(s.put(&Name([1; 64]), 40, Wrapper::Online), Ok(()));
    assert_eq!(s.put(&Name([1; 64]), 10, Wrapper::GetOutboxHeaders), Err(StoreError::AlreadyStored));
    assert_eq!(s.get(&Name([1; 64])).unwrap().0, 40);
    assert!(matches!(s.get(&Name([1; 64])).unwrap().1, Wrapper::Online));
}

#[test]
fn store_refuses_beyond_capacity() {
    let mut s = ContentStore::new(100);
    assert_eq!(s.put(&Name([1; 64]), 60, Wrapper::Online), Ok(()));
    assert_eq!(s.put(&Name([2; 64]), 41, Wrapper::Online), Err(StoreError::StorageLimitHit));
    assert!(!s.has_chunk(&Name([2; 64])));
    assert_eq!(s.put(&Name([2; 64]), 40, Wrapper::Online), Ok(()));
}
