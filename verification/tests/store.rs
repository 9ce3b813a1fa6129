use dropit::record::{AliasKind, UploadRecord};
use dropit::store::{InsertError, MetadataStore, ReserveError};

fn record(id: u64, short: &str, long: &str, origin: &str, size: u64, expires_at: u64) -> UploadRecord {
    UploadRecord {
        id,
        short_alias: short.to_string(),
        long_alias: long.to_string(),
        origin: origin.to_string(),
        size_bytes: size,
        created_at: 0,
        expires_at,
        downloads_remaining: None,
        admin_token: format!("token-{}", id),
    }
}

fn filled() -> MetadataStore {
    let mut s = MetadataStore::new();
    assert_eq!(s.insert(record(1, "aa", "alpha-one", "10.0.0.1", 100, 50)), Ok(()));
    assert_eq!(s.insert(record(2, "bb", "beta-two", "10.0.0.2", 200, 60)), Ok(()));
    assert_eq!(s.insert(record(3, "cc", "gamma-three", "10.0.0.1", 300, 70)), Ok(()));
    s
}

#[test]
fn new_store_is_empty() {
    let s = MetadataStore::new();
    assert_eq!(s.len(), 0);
    assert_eq!(s.sum_size_and_count(None, 0), (0, 0));
    assert!(s.list_expired(u64::MAX).is_empty());
}

#[test]
fn insert_refuses_a_duplicate_id() {
    let mut s = filled();
    assert_eq!(s.insert(record(2, "zz", "zeta", "x", 1, 1)), Err(InsertError::DuplicateId));
    assert_eq!(s.len(), 3);
}

#[test]
fn insert_refuses_a_taken_short_alias() {
    let mut s = filled();
    assert_eq!(s.insert(record(9, "bb", "zeta", "x", 1, 1)), Err(InsertError::ShortAliasTaken));
    assert_eq!(s.len(), 3);
}

#[test]
fn insert_refuses_a_taken_long_alias() {
    let mut s = filled();
    assert_eq!(s.insert(record(9, "zz", "gamma-three", "x", 1, 1)), Err(InsertError::LongAliasTaken));
    assert_eq!(s.len(), 3);
}

#[test]
fn short_and_long_aliases_are_separate_namespaces() {
    let mut s = filled();
    assert_eq!(s.insert(record(9, "alpha-one", "aa", "x", 1, 1)), Ok(()));
    assert_eq!(s.get_by_alias(AliasKind::Short, &"alpha-one".to_string()).unwrap().id, 9);
    assert_eq!(s.get_by_alias(AliasKind::Long, &"alpha-one".to_string()).unwrap().id, 1);
    assert_eq!(s.get_by_alias(AliasKind::Short, &"aa".to_string()).unwrap().id, 1);
    assert_eq!(s.get_by_alias(AliasKind::Long, &"aa".to_string()).unwrap().id, 9);
}

#[test]
fn lookups_find_the_row() {
    let s = filled();
    let r = s.get_by_id(2).unwrap();
    assert_eq!(r.short_alias, "bb");
    assert_eq!(r.long_alias, "beta-two");
    assert_eq!(r.origin, "10.0.0.2");
    assert_eq!(r.size_bytes, 200);
    assert_eq!(r.expires_at, 60);
    assert_eq!(r.admin_token, "token-2");
    assert!(s.get_by_id(4).is_none());
    assert_eq!(s.get_by_alias(AliasKind::Long, &"gamma-three".to_string()).unwrap().id, 3);
    assert!(s.get_by_alias(AliasKind::Short, &"gamma-three".to_string()).is_none());
    assert_eq!(s.position_of_id(3), Some(2));
    assert_eq!(s.position_of_alias(AliasKind::Short, &"aa".to_string()), Some(0));
    assert_eq!(s.row(1).id, 2);
    assert!(s.alias_in_use(AliasKind::Short, &"cc".to_string()));
    assert!(!s.alias_in_use(AliasKind::Long, &"cc".to_string()));
}

#[test]
fn delete_returns_the_row_once() {
    let mut s = filled();
    assert_eq!(s.delete(2).unwrap().id, 2);
    assert_eq!(s.len(), 2);
    assert!(s.get_by_id(2).is_none());
    assert!(s.get_by_alias(AliasKind::Short, &"bb".to_string()).is_none());
    assert!(s.get_by_alias(AliasKind::Long, &"beta-two".to_string()).is_none());
    assert!(s.delete(2).is_none());
    assert_eq!(s.len(), 2);
    assert_eq!(s.row(0).id, 1);
    assert_eq!(s.row(1).id, 3);
}

#[test]
fn downloads_are_updated_in_place() {
    let mut s = filled();
    assert!(s.update_downloads_remaining(3, Some(4)));
    assert_eq!(s.get_by_id(3).unwrap().downloads_remaining, Some(4));
    assert_eq!(s.get_by_id(1).unwrap().downloads_remaining, None);
    assert!(s.update_downloads_remaining(3, None));
    assert_eq!(s.get_by_id(3).unwrap().downloads_remaining, None);
    assert!(!s.update_downloads_remaining(7, Some(1)));
}

#[test]
fn reserve_alias_is_checked() {
    let mut s = filled();
    assert_eq!(s.reserve_alias(1, AliasKind::Short, "bb".to_string()), Err(ReserveError::AliasTaken));
    assert_eq!(s.reserve_alias(7, AliasKind::Short, "zz".to_string()), Err(ReserveError::NoSuchRecord));
    assert_eq!(s.reserve_alias(1, AliasKind::Short, "zz".to_string()), Ok(()));
    let r = s.get_by_id(1).unwrap();
    assert_eq!(r.short_alias, "zz");
    assert_eq!(r.long_alias, "alpha-one");
    assert!(!s.alias_in_use(AliasKind::Short, &"aa".to_string()));
    assert_eq!(s.reserve_alias(1, AliasKind::Long, "bb".to_string()), Ok(()));
    assert_eq!(s.get_by_id(1).unwrap().long_alias, "bb");
}

#[test]
fn sums_count_live_rows_only() {
    let mut s = filled();
    let one = "10.0.0.1".to_string();
    let two = "10.0.0.2".to_string();
    assert_eq!(s.sum_size_and_count(None, 0), (600, 3));
    assert_eq!(s.sum_size_and_count(Some(&one), 0), (400, 2));
    assert_eq!(s.sum_size_and_count(Some(&two), 0), (200, 1));
    assert_eq!(s.sum_size_and_count(Some(&"nobody".to_string()), 0), (0, 0));
    // the instant of expiry is already dead
    assert_eq!(s.sum_size_and_count(None, 49), (600, 3));
    assert_eq!(s.sum_size_and_count(None, 50), (500, 2));
    assert_eq!(s.sum_size_and_count(Some(&one), 50), (300, 1));
    assert_eq!(s.sum_size_and_count(None, 70), (0, 0));
    // an exhausted row counts no more, though it is still there
    assert!(s.update_downloads_remaining(3, Some(0)));
    assert_eq!(s.sum_size_and_count(Some(&one), 0), (100, 1));
    assert_eq!(s.len(), 3);
}

#[test]
fn sums_do_not_overflow() {
    let mut s = MetadataStore::new();
    assert_eq!(s.insert(record(1, "a", "a", "o", u64::MAX, 10)), Ok(()));
    assert_eq!(s.insert(record(2, "b", "b", "o", u64::MAX, 10)), Ok(()));
    assert_eq!(s.sum_size_and_count(None, 0), (2 * (u64::MAX as u128), 2));
}

#[test]
fn expired_rows_are_listed_in_order() {
    let s = filled();
    assert_eq!(s.list_expired(49), Vec::<u64>::new());
    assert_eq!(s.list_expired(50), vec![1]);
    assert_eq!(s.list_expired(65), vec![1, 2]);
    assert_eq!(s.list_expired(70), vec![1, 2, 3]);
}

#[test]
fn expiry_listing_and_usage_agree_on_liveness() {
    let s = filled();
    for now in [0u64, 49, 50, 51, 60, 69, 70, 71] {
        let expired = s.list_expired(now);
        let (_, live) = s.sum_size_and_count(None, now);
        assert_eq!(expired.len() + live, s.len());
        for id in expired {
            assert!(!s.get_by_id(id).unwrap().is_live(now));
        }
    }
}

#[test]
fn record_liveness() {
    let mut r = record(1, "a", "b", "o", 1, 100);
    assert!(r.is_live(99));
    assert!(!r.is_expired(99));
    assert!(r.is_expired(100));
    assert!(!r.is_live(100));
    r.downloads_remaining = Some(1);
    assert!(r.is_live(0));
    assert!(!r.is_exhausted());
    r.downloads_remaining = Some(0);
    assert!(r.is_exhausted());
    assert!(!r.is_live(0));
    assert_eq!(r.alias(AliasKind::Short), "a");
    assert_eq!(r.alias(AliasKind::Long), "b");
    assert!(r.authorizes(&"token-1".to_string()));
    assert!(!r.authorizes(&"token-2".to_string()));
    let c = r.clone();
    assert_eq!(c.id, 1);
    assert_eq!(c.short_alias, "a");
    assert_eq!(c.admin_token, "token-1");
    assert_eq!(c.downloads_remaining, Some(0));
}
