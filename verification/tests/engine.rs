use dropit::download::FetchOutcome;
use dropit::engine::Engine;
use dropit::error::Error;
use dropit::expiration::{Threshold, ThresholdTable};
use dropit::quota::{Admission, Ceilings, Rejection};
use dropit::record::{AliasKind, UploadRecord};
use dropit::store::MetadataStore;
use dropit::upload::UploadRequest;

const DAY: u64 = 24 * 60 * 60;

fn engine(ceilings: Ceilings) -> Engine {
    let table = ThresholdTable::new(vec![
        Threshold { max_size: 100_000, duration: 7 * DAY },
        Threshold { max_size: 5_000_000, duration: DAY },
    ])
    .unwrap();
    Engine::new(table, ceilings)
}

fn roomy() -> Ceilings {
    Ceilings { origin_size: 100_000_000, origin_count: 100, global_size: 1_000_000_000 }
}

fn request(id: u64, origin: &str, size: usize) -> UploadRequest {
    UploadRequest {
        id,
        origin: origin.to_string(),
        content: vec![7u8; size],
        downloads: None,
        admin_token: format!("token-{}", id),
        short_candidates: vec![format!("s{}", id)],
        long_candidates: vec![format!("long-{}", id)],
    }
}

fn text(s: &str) -> String {
    s.to_string()
}

#[test]
fn upload_gives_a_receipt_and_stores_the_file() {
    let mut e = engine(roomy());
    let receipt = e.upload(request(1, "10.0.0.1", 50_000), 1000).unwrap();
    assert_eq!(receipt.id, 1);
    assert_eq!(receipt.short_alias, "s1");
    assert_eq!(receipt.long_alias, "long-1");
    assert_eq!(receipt.expires_at, 1000 + 7 * DAY);
    assert_eq!(e.len(), 1);
    assert_eq!(e.now(), 1000);
    let r = e.lookup(AliasKind::Short, &text("s1"), 1000).unwrap();
    assert_eq!(r.id, 1);
    assert_eq!(r.origin, "10.0.0.1");
    assert_eq!(r.size_bytes, 50_000);
    assert_eq!(r.created_at, 1000);
    assert_eq!(r.expires_at, 1000 + 7 * DAY);
    assert_eq!(r.downloads_remaining, None);
    assert_eq!(r.admin_token, "token-1");
    let d = e.download(AliasKind::Long, &text("long-1"), 1001).unwrap();
    assert_eq!(d.content, vec![7u8; 50_000]);
    assert_eq!(d.status, FetchOutcome::ServedAndLive);
}

#[test]
fn upload_expiry_follows_the_size() {
    let mut e = engine(roomy());
    assert_eq!(e.upload(request(1, "a", 50_000), 10).unwrap().expires_at, 10 + 7 * DAY);
    assert_eq!(e.upload(request(2, "a", 1_000_000), 10).unwrap().expires_at, 10 + DAY);
    assert_eq!(
        e.upload(request(3, "a", 10_000_000), 10).err(),
        Some(Error::AdmissionRejected(Rejection::NoMatchingThreshold))
    );
    assert_eq!(e.len(), 2);
}

#[test]
fn origin_quota_frees_up_when_a_file_expires() {
    let mut e = engine(Ceilings { origin_size: 1_000_000, origin_count: 2, global_size: 1_000_000_000 });
    let first = e.upload(request(1, "10.0.0.1", 600_000), 0).unwrap();
    assert_eq!(first.expires_at, DAY);
    assert_eq!(
        e.upload(request(2, "10.0.0.1", 500_000), 1).err(),
        Some(Error::AdmissionRejected(Rejection::OriginQuotaExceeded))
    );
    assert_eq!(e.len(), 1);
    // the first file expires and is reclaimed
    assert_eq!(e.sweep(DAY), vec![1]);
    assert_eq!(e.len(), 0);
    let second = e.upload(request(2, "10.0.0.1", 500_000), DAY).unwrap();
    assert_eq!(second.id, 2);
    assert_eq!(e.usage(Some(&text("10.0.0.1")), DAY), (500_000, 1));
}

#[test]
fn expired_file_holds_no_quota_even_before_the_sweep() {
    let mut e = engine(Ceilings { origin_size: 1_000_000, origin_count: 2, global_size: 1_000_000_000 });
    e.upload(request(1, "10.0.0.1", 600_000), 0).unwrap();
    assert!(e.upload(request(2, "10.0.0.1", 500_000), DAY - 1).is_err());
    assert!(e.upload(request(2, "10.0.0.1", 500_000), DAY).is_ok());
    assert_eq!(e.len(), 2);
}

#[test]
fn rejections_name_the_first_limit_that_breaks() {
    let mut e = engine(Ceilings { origin_size: 1000, origin_count: 2, global_size: 1500 });
    assert!(e.upload(request(1, "a", 400), 0).is_ok());
    assert!(e.upload(request(2, "a", 400), 0).is_ok());
    // size and count would both break: size is named
    assert_eq!(
        e.upload(request(3, "a", 400), 0).err(),
        Some(Error::AdmissionRejected(Rejection::OriginQuotaExceeded))
    );
    assert_eq!(
        e.upload(request(3, "a", 100), 0).err(),
        Some(Error::AdmissionRejected(Rejection::OriginFileCountExceeded))
    );
    assert!(e.upload(request(3, "b", 700), 0).is_ok());
    assert_eq!(
        e.upload(request(4, "c", 1), 0).err(),
        Some(Error::AdmissionRejected(Rejection::GlobalQuotaExceeded))
    );
    assert_eq!(e.usage(None, 0), (1500, 3));
    assert_eq!(e.usage(Some(&text("a")), 0), (800, 2));
}

#[test]
fn usage_stays_within_the_ceilings() {
    let ceilings = Ceilings { origin_size: 1000, origin_count: 3, global_size: 2500 };
    let mut e = engine(ceilings);
    let origins = ["a", "b", "c"];
    let mut id = 0;
    for round in 0..20u64 {
        for (k, origin) in origins.iter().enumerate() {
            id += 1;
            let size = ((round as usize) * 37 + k * 101) % 700;
            let _ = e.upload(request(id, origin, size), round);
            for o in origins.iter() {
                let (bytes, count) = e.usage(Some(&text(o)), round);
                assert!(bytes <= ceilings.origin_size as u128);
                assert!(count <= ceilings.origin_count);
            }
            assert!(e.usage(None, round).0 <= ceilings.global_size as u128);
        }
    }
}

#[test]
fn exact_fit_is_admitted() {
    let mut e = engine(Ceilings { origin_size: 1000, origin_count: 1, global_size: 1000 });
    assert!(e.upload(request(1, "a", 1000), 0).is_ok());
    assert_eq!(e.usage(None, 0), (1000, 1));
}

#[test]
fn admission_decision_on_figures() {
    let c = Ceilings { origin_size: 1000, origin_count: 2, global_size: 3000 };
    assert_eq!(c.decide(0, 0, 0, 1000), Admission::Admitted);
    assert_eq!(c.decide(1, 0, 0, 1000), Admission::Rejected(Rejection::OriginQuotaExceeded));
    assert_eq!(c.decide(2000, 0, 0, 0), Admission::Rejected(Rejection::OriginQuotaExceeded));
    assert_eq!(c.decide(0, 2, 0, 0), Admission::Rejected(Rejection::OriginFileCountExceeded));
    assert_eq!(c.decide(0, 1, 2999, 2), Admission::Rejected(Rejection::GlobalQuotaExceeded));
    assert_eq!(c.decide(0, 1, 2999, 1), Admission::Admitted);
    assert_eq!(c.decide(u128::MAX, usize::MAX, u128::MAX, u64::MAX), Admission::Rejected(Rejection::OriginQuotaExceeded));
    let store = MetadataStore::new();
    assert_eq!(c.admission_for(&store, &text("a"), 1000, 0), Admission::Admitted);
    assert_eq!(
        c.admission_for(&store, &text("a"), 1001, 0),
        Admission::Rejected(Rejection::OriginQuotaExceeded)
    );
}

#[test]
fn upload_with_a_used_id_is_a_store_error() {
    let mut e = engine(roomy());
    assert!(e.upload(request(1, "a", 10), 0).is_ok());
    let mut again = request(1, "a", 10);
    again.short_candidates = vec![text("other")];
    again.long_candidates = vec![text("other-long")];
    assert_eq!(e.upload(again, 0).err(), Some(Error::StoreError));
    assert_eq!(e.len(), 1);
    assert_eq!(e.download(AliasKind::Short, &text("s1"), 0).unwrap().content, vec![7u8; 10]);
}

#[test]
fn upload_without_a_free_alias_is_refused() {
    let mut e = engine(roomy());
    assert!(e.upload(request(1, "a", 10), 0).is_ok());
    let mut r = request(2, "a", 10);
    r.short_candidates = vec![text("s1")];
    assert_eq!(e.upload(r, 0).err(), Some(Error::AliasGenerationExhausted));
    let mut r = request(2, "a", 10);
    r.long_candidates = vec![text("long-1")];
    assert_eq!(e.upload(r, 0).err(), Some(Error::AliasGenerationExhausted));
    let mut r = request(2, "a", 10);
    r.short_candidates = vec![text("s1"), text("s1"), text("s2")];
    r.long_candidates = vec![text("long-1"), text("s1")];
    let receipt = e.upload(r, 0).unwrap();
    assert_eq!(receipt.short_alias, "s2");
    assert_eq!(receipt.long_alias, "s1");
    assert_eq!(e.len(), 2);
}

#[test]
fn no_two_files_share_an_alias() {
    let mut e = engine(roomy());
    let pool: Vec<String> = (0..6).map(|k| format!("a{}", k)).collect();
    let mut shorts = Vec::new();
    let mut longs = Vec::new();
    for id in 0..8u64 {
        let mut r = request(id, "a", 1);
        r.short_candidates = pool.clone();
        r.long_candidates = pool.clone();
        match e.upload(r, 0) {
            Ok(receipt) => {
                assert!(!shorts.contains(&receipt.short_alias));
                assert!(!longs.contains(&receipt.long_alias));
                shorts.push(receipt.short_alias);
                longs.push(receipt.long_alias);
            }
            Err(err) => assert_eq!(err, Error::AliasGenerationExhausted),
        }
    }
    assert_eq!(shorts.len(), 6);
    assert_eq!(e.len(), 6);
}

#[test]
fn zero_download_limit_means_no_limit() {
    let mut e = engine(roomy());
    let mut r = request(1, "a", 10);
    r.downloads = Some(0);
    e.upload(r, 0).unwrap();
    assert_eq!(e.lookup(AliasKind::Short, &text("s1"), 0).unwrap().downloads_remaining, None);
    let mut r = request(2, "a", 10);
    r.downloads = Some(2);
    e.upload(r, 0).unwrap();
    assert_eq!(e.lookup(AliasKind::Short, &text("s2"), 0).unwrap().downloads_remaining, Some(2));
}

#[test]
fn single_download_file_is_served_once() {
    let mut e = engine(roomy());
    let mut r = request(1, "a", 10);
    r.downloads = Some(1);
    e.upload(r, 0).unwrap();
    let first = e.download(AliasKind::Short, &text("s1"), 1);
    let second = e.download(AliasKind::Short, &text("s1"), 1);
    assert_eq!(first.unwrap().status, FetchOutcome::ServedAndReclaimed);
    assert_eq!(second.err(), Some(Error::RecordNotFound));
    assert_eq!(e.len(), 0);
    assert_eq!(e.lookup(AliasKind::Long, &text("long-1"), 1).err(), Some(Error::RecordNotFound));
    assert_eq!(e.usage(None, 1), (0, 0));
}

#[test]
fn download_of_an_expired_file_is_not_found() {
    let mut e = engine(roomy());
    e.upload(request(1, "a", 10), 0).unwrap();
    assert!(e.download(AliasKind::Short, &text("s1"), 7 * DAY - 1).is_ok());
    assert_eq!(e.download(AliasKind::Short, &text("s1"), 7 * DAY).err(), Some(Error::RecordNotFound));
    assert_eq!(e.download(AliasKind::Short, &text("nope"), 0).err(), Some(Error::RecordNotFound));
}

#[test]
fn the_clock_never_runs_backwards() {
    let mut e = engine(roomy());
    e.upload(request(1, "a", 10), 0).unwrap();
    assert_eq!(e.download(AliasKind::Short, &text("s1"), 7 * DAY).err(), Some(Error::RecordNotFound));
    assert_eq!(e.now(), 7 * DAY);
    // an earlier time of day does not bring the file back
    assert_eq!(e.download(AliasKind::Short, &text("s1"), 5).err(), Some(Error::RecordNotFound));
    assert_eq!(e.lookup(AliasKind::Short, &text("s1"), 5).err(), Some(Error::RecordNotFound));
    assert_eq!(e.usage(None, 5), (0, 0));
    assert_eq!(e.now(), 7 * DAY);
    assert_eq!(e.upload(request(2, "a", 10), 5).unwrap().expires_at, 14 * DAY);
}

#[test]
fn engine_revoke_and_changes() {
    let mut e = engine(roomy());
    e.upload(request(1, "a", 10), 0).unwrap();
    e.upload(request(2, "a", 10), 0).unwrap();
    assert_eq!(e.revoke(AliasKind::Short, &text("s1"), &text("token-2"), 0), Err(Error::Unauthorized));
    assert_eq!(e.change_downloads(AliasKind::Short, &text("s1"), &text("token-1"), 2, 0), Ok(()));
    assert_eq!(e.lookup(AliasKind::Short, &text("s1"), 0).unwrap().downloads_remaining, Some(2));
    assert_eq!(
        e.change_downloads(AliasKind::Short, &text("s1"), &text("x"), 2, 0),
        Err(Error::Unauthorized)
    );
    assert_eq!(
        e.change_alias(AliasKind::Short, &text("s1"), &text("token-1"), AliasKind::Short, &vec![text("s2"), text("n1")], 0),
        Ok(text("n1"))
    );
    assert_eq!(e.lookup(AliasKind::Short, &text("s1"), 0).err(), Some(Error::RecordNotFound));
    assert_eq!(e.lookup(AliasKind::Short, &text("n1"), 0).unwrap().id, 1);
    assert_eq!(
        e.change_alias(AliasKind::Short, &text("n1"), &text("token-1"), AliasKind::Short, &vec![text("s2")], 0),
        Err(Error::AliasGenerationExhausted)
    );
    assert_eq!(e.revoke(AliasKind::Long, &text("long-1"), &text("token-1"), 0), Ok(()));
    assert_eq!(e.revoke(AliasKind::Long, &text("long-1"), &text("token-1"), 0), Err(Error::Unauthorized));
    assert_eq!(e.lookup(AliasKind::Short, &text("n1"), 0).err(), Some(Error::RecordNotFound));
    assert_eq!(e.len(), 1);
    assert_eq!(e.usage(None, 0), (10, 1));
}

#[test]
fn engine_sweep_keeps_the_living() {
    let mut e = engine(roomy());
    e.upload(request(1, "a", 10), 0).unwrap();
    e.upload(request(2, "a", 1_000_000), 0).unwrap();
    e.upload(request(3, "a", 20), 5).unwrap();
    assert_eq!(e.sweep(DAY - 1), Vec::<u64>::new());
    assert_eq!(e.sweep(DAY + 5), vec![2]);
    assert_eq!(e.len(), 2);
    assert_eq!(e.sweep(7 * DAY + 4), vec![1]);
    assert_eq!(e.sweep(7 * DAY + 5), vec![3]);
    assert_eq!(e.len(), 0);
}

#[test]
fn error_statuses_and_messages() {
    let quota = Error::AdmissionRejected(Rejection::OriginQuotaExceeded);
    let count = Error::AdmissionRejected(Rejection::OriginFileCountExceeded);
    let global = Error::AdmissionRejected(Rejection::GlobalQuotaExceeded);
    let large = Error::AdmissionRejected(Rejection::NoMatchingThreshold);
    assert_eq!(quota.status_code(), 403);
    assert_eq!(count.status_code(), 403);
    assert_eq!(global.status_code(), 403);
    assert_eq!(large.status_code(), 413);
    assert_eq!(Error::AliasGenerationExhausted.status_code(), 503);
    assert_eq!(Error::RecordNotFound.status_code(), 404);
    assert_eq!(Error::Unauthorized.status_code(), 401);
    assert_eq!(Error::StoreError.status_code(), 500);
    assert_eq!(Error::BlobStoreError.status_code(), 500);
    assert_eq!(Error::InternalConsistency.status_code(), 500);
    assert_eq!(quota.message(), "Upload rejected: the uploader's size quota is exceeded");
    assert_eq!(count.message(), "Upload rejected: the uploader's file count quota is exceeded");
    assert_eq!(global.message(), "Upload rejected: the global size quota is exceeded");
    assert_eq!(large.message(), "Upload rejected: the file is larger than any size threshold");
    assert_eq!(Error::AliasGenerationExhausted.message(), "Could not generate a free alias, try again");
    assert_eq!(Error::RecordNotFound.message(), "File not found");
    assert_eq!(Error::Unauthorized.message(), "Invalid alias or admin token");
    assert_eq!(Error::StoreError.message(), "Internal error");
    assert_eq!(Error::BlobStoreError.message(), "Internal error");
    assert_eq!(Error::InternalConsistency.message(), "Internal error");
}

fn kept(id: u64, origin: &str, size: u64, expires_at: u64) -> UploadRecord {
    UploadRecord {
        id,
        short_alias: format!("s{}", id),
        long_alias: format!("long-{}", id),
        origin: origin.to_string(),
        size_bytes: size,
        created_at: 5,
        expires_at,
        downloads_remaining: Some(2),
        admin_token: format!("token-{}", id),
    }
}

#[test]
fn restore_takes_a_kept_file_back_as_it_was() {
    let mut e = engine(roomy());
    assert_eq!(e.restore(kept(1, "a", 3, 1000), vec![1, 2, 3], 100), Ok(()));
    assert_eq!(e.len(), 1);
    assert_eq!(e.now(), 100);
    let r = e.lookup(AliasKind::Long, &text("long-1"), 100).unwrap();
    assert_eq!(r.created_at, 5);
    assert_eq!(r.expires_at, 1000);
    assert_eq!(r.downloads_remaining, Some(2));
    assert_eq!(r.admin_token, "token-1");
    assert_eq!(e.usage(Some(&text("a")), 100), (3, 1));
    let d = e.download(AliasKind::Short, &text("s1"), 100).unwrap();
    assert_eq!(d.content, vec![1, 2, 3]);
    assert_eq!(d.status, FetchOutcome::ServedAndLive);
    assert_eq!(e.download(AliasKind::Short, &text("s1"), 100).unwrap().reclaimed.is_some(), true);
    assert_eq!(e.len(), 0);
}

#[test]
fn restore_refuses_what_cannot_be_served() {
    let mut e = engine(Ceilings { origin_size: 10, origin_count: 1, global_size: 10 });
    // dead already
    assert_eq!(e.restore(kept(1, "a", 3, 100), vec![1, 2, 3], 100), Err(Error::RecordNotFound));
    let mut used_up = kept(1, "a", 3, 1000);
    used_up.downloads_remaining = Some(0);
    assert_eq!(e.restore(used_up, vec![1, 2, 3], 100), Err(Error::RecordNotFound));
    // the blob is not the one that the row describes
    assert_eq!(e.restore(kept(1, "a", 3, 1000), vec![1, 2], 100), Err(Error::BlobStoreError));
    // over the limits
    assert_eq!(
        e.restore(kept(1, "a", 11, 1000), vec![0; 11], 100),
        Err(Error::AdmissionRejected(Rejection::OriginQuotaExceeded))
    );
    assert_eq!(e.len(), 0);
    assert_eq!(e.restore(kept(1, "a", 3, 1000), vec![1, 2, 3], 100), Ok(()));
    assert_eq!(
        e.restore(kept(2, "a", 3, 1000), vec![1, 2, 3], 100),
        Err(Error::AdmissionRejected(Rejection::OriginFileCountExceeded))
    );
    // id or alias in use
    assert_eq!(e.restore(kept(1, "b", 3, 1000), vec![1, 2, 3], 100), Err(Error::StoreError));
    let mut same_alias = kept(2, "b", 3, 1000);
    same_alias.long_alias = text("long-1");
    assert_eq!(e.restore(same_alias, vec![1, 2, 3], 100), Err(Error::StoreError));
    assert_eq!(e.len(), 1);
    assert_eq!(e.usage(None, 100), (3, 1));
}
