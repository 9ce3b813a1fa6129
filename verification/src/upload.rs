//! The upload path: admission, retention, aliases, then the blob and the
//! row, in that order.
//!
//! Nothing is written before every test has passed, and the blob is written
//! before the row: an upload that stops half way leaves no row behind.

use crate::alias::{allocate, allocated, lemma_allocated_is_free, texts_of};
use crate::blob::BlobStore;
use crate::error::Error;
use crate::expiration::{duration_of, expiry_of, Threshold, ThresholdTable};
use crate::quota::{
    admission_of, law_admitted_upload_within_ceilings, law_within_ceilings_later, within_ceilings,
    Admission, Ceilings, Rejection,
};
use crate::record::{AliasKind, RecordView, UploadRecord};
use crate::store::{
    alias_taken, aliases_unique, has_id, insert_outcome, rows_wf, MetadataStore,
};
use vstd::prelude::*;

verus! {

/// What an uploader hands in.
#[derive(Debug)]
pub struct UploadRequest {
    /// The id that the file is to have.
    pub id: u64,
    /// The uploader's identity.
    pub origin: String,
    /// The file's bytes.
    pub content: Vec<u8>,
    /// How often the file may be fetched; `None` and zero ask for no limit.
    pub downloads: Option<u16>,
    /// The secret that will authorize changes to the file.
    pub admin_token: String,
    /// Candidates for the short alias, drawn by the caller.
    pub short_candidates: Vec<String>,
    /// Candidates for the long alias, drawn by the caller.
    pub long_candidates: Vec<String>,
}

/// A request as a mathematical value.
pub ghost struct RequestView {
    pub id: u64,
    pub origin: Seq<char>,
    pub content: Seq<u8>,
    pub downloads: Option<u16>,
    pub admin_token: Seq<char>,
    pub short_candidates: Seq<Seq<char>>,
    pub long_candidates: Seq<Seq<char>>,
}

impl View for UploadRequest {
    type V = RequestView;

    open spec fn view(&self) -> RequestView {
        RequestView {
            id: self.id,
            origin: self.origin@,
            content: self.content@,
            downloads: self.downloads,
            admin_token: self.admin_token@,
            short_candidates: texts_of(self.short_candidates@),
            long_candidates: texts_of(self.long_candidates@),
        }
    }
}

/// What the uploader gets back.
#[derive(Debug)]
pub struct Receipt {
    pub id: u64,
    pub short_alias: String,
    pub long_alias: String,
    pub expires_at: u64,
}

/// The allowance that a request stands for: a limit of zero is no limit.
pub open spec fn limit_of(requested: Option<u16>) -> Option<u16> {
    match requested {
        Some(n) => if n >= 1 {
            Some(n)
        } else {
            None
        },
        None => None,
    }
}

/// The row that an upload at `now` creates, or the reason why it creates
/// none. The tests come in a fixed order: usage limits, retention table,
/// id, short alias, long alias.
pub open spec fn planned_row(
    rows: Seq<RecordView>,
    rules: Seq<Threshold>,
    ceilings: Ceilings,
    request: RequestView,
    now: u64,
) -> Result<RecordView, Error> {
    let size = request.content.len() as u64;
    match admission_of(ceilings, rows, request.origin, size, now) {
        Admission::Rejected(reason) => Err(Error::AdmissionRejected(reason)),
        Admission::Admitted => match duration_of(rules, size) {
            None => Err(Error::AdmissionRejected(Rejection::NoMatchingThreshold)),
            Some(duration) => if has_id(rows, request.id) {
                Err(Error::StoreError)
            } else {
                match (
                    allocated(rows, AliasKind::Short, request.short_candidates),
                    allocated(rows, AliasKind::Long, request.long_candidates),
                ) {
                    (Some(short), Some(long)) => Ok(
                        RecordView {
                            id: request.id,
                            short_alias: short,
                            long_alias: long,
                            origin: request.origin,
                            size_bytes: size,
                            created_at: now,
                            expires_at: expiry_of(now, duration),
                            downloads_remaining: limit_of(request.downloads),
                            admin_token: request.admin_token,
                        },
                    ),
                    _ => Err(Error::AliasGenerationExhausted),
                }
            },
        },
    }
}

/// Takes in one file at `now`.
///
/// The upload is refused where the uploader's or the global usage would
/// pass its limit, where the file is larger than the retention table
/// allows, where the id is in use, and where no candidate alias is free.
/// Otherwise the blob is written, then the row, and the receipt names the
/// file's id, aliases and expiry.
pub fn upload(
    store: &mut MetadataStore,
    blobs: &mut BlobStore,
    thresholds: &ThresholdTable,
    ceilings: &Ceilings,
    request: UploadRequest,
    now: u64,
) -> (r: Result<Receipt, Error>)
    requires
        old(store).wf(),
    ensures
        final(store).wf(),
        match planned_row(old(store)@, thresholds@, *ceilings, request@, now) {
            Ok(row) => {
                &&& r matches Ok(receipt)
                &&& receipt.id == row.id
                &&& receipt.short_alias@ == row.short_alias
                &&& receipt.long_alias@ == row.long_alias
                &&& receipt.expires_at == row.expires_at
                &&& final(store)@ == old(store)@.push(row)
                &&& final(blobs)@ == old(blobs)@.insert(row.id, request@.content)
            },
            Err(e) => {
                &&& r matches Err(got)
                &&& got == e
                &&& final(store)@ == old(store)@
                &&& final(blobs)@ == old(blobs)@
            },
        },
{
    let size = request.content.len() as u64;
    match ceilings.admission_for(store, &request.origin, size, now) {
        Admission::Rejected(reason) => {
            return Err(Error::AdmissionRejected(reason));
        },
        Admission::Admitted => {},
    }
    let duration = match thresholds.duration_for(size) {
        Ok(duration) => duration,
        Err(_) => {
            return Err(Error::AdmissionRejected(Rejection::NoMatchingThreshold));
        },
    };
    if store.position_of_id(request.id).is_some() {
        return Err(Error::StoreError);
    }
    let short = match allocate(store, AliasKind::Short, &request.short_candidates) {
        Ok(short) => short,
        Err(_) => {
            return Err(Error::AliasGenerationExhausted);
        },
    };
    let long = match allocate(store, AliasKind::Long, &request.long_candidates) {
        Ok(long) => long,
        Err(_) => {
            return Err(Error::AliasGenerationExhausted);
        },
    };
    let expires_at = ThresholdTable::expiry(now, duration);
    let downloads = match request.downloads {
        Some(n) => if n >= 1 {
            Some(n)
        } else {
            None
        },
        None => None,
    };
    let receipt = Receipt {
        id: request.id,
        short_alias: short.clone(),
        long_alias: long.clone(),
        expires_at,
    };
    let record = UploadRecord {
        id: request.id,
        short_alias: short,
        long_alias: long,
        origin: request.origin,
        size_bytes: size,
        created_at: now,
        expires_at,
        downloads_remaining: downloads,
        admin_token: request.admin_token,
    };
    proof {
        lemma_allocated_is_free(store@, AliasKind::Short, texts_of(request.short_candidates@));
        lemma_allocated_is_free(store@, AliasKind::Long, texts_of(request.long_candidates@));
    }
    blobs.write(request.id, request.content);
    let inserted = store.insert(record);
    assert(inserted is Ok);
    Ok(receipt)
}

/// Whether a stored file can be taken back into the index at `now`, and if
/// not, why. A dead file is not taken back. The blob must be as long as the
/// row says. The file is held to the usage limits like an upload, and its
/// id and aliases must be free.
pub open spec fn restore_check(
    rows: Seq<RecordView>,
    ceilings: Ceilings,
    row: RecordView,
    content: Seq<u8>,
    now: u64,
) -> Result<(), Error> {
    if !row.is_live(now) {
        Err(Error::RecordNotFound)
    } else if content.len() != row.size_bytes {
        Err(Error::BlobStoreError)
    } else {
        match admission_of(ceilings, rows, row.origin, row.size_bytes, now) {
            Admission::Rejected(reason) => Err(Error::AdmissionRejected(reason)),
            Admission::Admitted => if insert_outcome(rows, row) is Err {
                Err(Error::StoreError)
            } else {
                Ok(())
            },
        }
    }
}

/// Takes a file that was stored before back into the index, with the row
/// and the blob as they were kept: this is how the index is built again
/// after a restart. Nothing is written unless every test has passed; then
/// the blob is written, and then the row.
pub fn restore(
    store: &mut MetadataStore,
    blobs: &mut BlobStore,
    ceilings: &Ceilings,
    record: UploadRecord,
    content: Vec<u8>,
    now: u64,
) -> (r: Result<(), Error>)
    requires
        old(store).wf(),
    ensures
        final(store).wf(),
        r == restore_check(old(store)@, *ceilings, record@, content@, now),
        final(store)@ == if r is Ok {
            old(store)@.push(record@)
        } else {
            old(store)@
        },
        final(blobs)@ == if r is Ok {
            old(blobs)@.insert(record.id, content@)
        } else {
            old(blobs)@
        },
{
    if !record.is_live(now) {
        return Err(Error::RecordNotFound);
    }
    if content.len() as u64 != record.size_bytes {
        return Err(Error::BlobStoreError);
    }
    match ceilings.admission_for(store, &record.origin, record.size_bytes, now) {
        Admission::Rejected(reason) => {
            return Err(Error::AdmissionRejected(reason));
        },
        Admission::Admitted => {},
    }
    if store.position_of_id(record.id).is_some() || store.alias_in_use(
        AliasKind::Short,
        &record.short_alias,
    ) || store.alias_in_use(AliasKind::Long, &record.long_alias) {
        return Err(Error::StoreError);
    }
    blobs.write(record.id, content);
    let inserted = store.insert(record);
    assert(inserted is Ok);
    Ok(())
}

/// The rows after an upload at `now`: with the new row where the upload
/// goes through, unchanged where it is refused.
pub open spec fn rows_after_upload(
    rows: Seq<RecordView>,
    rules: Seq<Threshold>,
    ceilings: Ceilings,
    request: RequestView,
    now: u64,
) -> Seq<RecordView> {
    match planned_row(rows, rules, ceilings, request, now) {
        Ok(row) => rows.push(row),
        Err(_) => rows,
    }
}

/// The rows after a sequence of uploads, each with its time, in turn.
pub open spec fn rows_after_uploads(
    rows: Seq<RecordView>,
    rules: Seq<Threshold>,
    ceilings: Ceilings,
    uploads: Seq<(RequestView, u64)>,
) -> Seq<RecordView>
    decreases uploads.len(),
{
    if uploads.len() == 0 {
        rows
    } else {
        rows_after_upload(
            rows_after_uploads(rows, rules, ceilings, uploads.drop_last()),
            rules,
            ceilings,
            uploads.last().0,
            uploads.last().1,
        )
    }
}

/// The times of the uploads never go back, and none is before `start`.
pub open spec fn times_in_order(uploads: Seq<(RequestView, u64)>, start: u64) -> bool {
    &&& forall|i: int| 0 <= i < uploads.len() ==> start <= (#[trigger] uploads[i]).1
    &&& forall|i: int, j: int|
        0 <= i <= j < uploads.len() ==> (#[trigger] uploads[i]).1 <= (#[trigger] uploads[j]).1
}

/// Whatever is uploaded, and in whatever order, usage stays within the
/// limits: after any sequence of uploads whose times never go back, the
/// usage of every uploader and of all together is within the limits at the
/// time of the last upload and at every time after it.
pub proof fn law_uploads_stay_within_ceilings(
    rows: Seq<RecordView>,
    rules: Seq<Threshold>,
    ceilings: Ceilings,
    uploads: Seq<(RequestView, u64)>,
    start: u64,
    later: u64,
)
    requires
        within_ceilings(rows, ceilings, start),
        times_in_order(uploads, start),
        forall|i: int| 0 <= i < uploads.len() ==> (#[trigger] uploads[i]).1 <= later,
        start <= later,
    ensures
        within_ceilings(rows_after_uploads(rows, rules, ceilings, uploads), ceilings, later),
    decreases uploads.len(),
{
    if uploads.len() == 0 {
        law_within_ceilings_later(rows, ceilings, start, later);
    } else {
        let front = uploads.drop_last();
        let (request, now) = uploads.last();
        assert forall|i: int| 0 <= i < front.len() implies #[trigger] front[i] == uploads[i] by {}
        assert(times_in_order(front, start)) by {
            assert forall|i: int, j: int| 0 <= i <= j < front.len() implies (#[trigger] front[i]).1
                <= (#[trigger] front[j]).1 by {
                assert(uploads[i].1 <= uploads[j].1);
            }
        }
        assert forall|i: int| 0 <= i < front.len() implies (#[trigger] front[i]).1 <= now by {
            assert(uploads[i].1 <= uploads[uploads.len() - 1].1);
        }
        assert(start <= uploads[uploads.len() - 1].1);
        law_uploads_stay_within_ceilings(rows, rules, ceilings, front, start, now);
        let before = rows_after_uploads(rows, rules, ceilings, front);
        if let Ok(row) = planned_row(before, rules, ceilings, request, now) {
            law_admitted_upload_within_ceilings(before, ceilings, row, now);
        }
        assert(uploads[uploads.len() - 1].1 <= later);
        law_within_ceilings_later(
            rows_after_uploads(rows, rules, ceilings, uploads),
            ceilings,
            now,
            later,
        );
    }
}

/// An upload that goes through keeps the index valid and within the usage
/// limits: the new file's id and aliases are its own alone, and where usage
/// was within the limits at `now`, it still is with the new file.
pub proof fn law_upload_keeps_index_valid(
    rows: Seq<RecordView>,
    rules: Seq<Threshold>,
    ceilings: Ceilings,
    request: RequestView,
    now: u64,
)
    requires
        rows_wf(rows),
        planned_row(rows, rules, ceilings, request, now) is Ok,
    ensures
        ({
            let row = planned_row(rows, rules, ceilings, request, now).unwrap();
            &&& !has_id(rows, row.id)
            &&& !alias_taken(rows, AliasKind::Short, row.short_alias)
            &&& !alias_taken(rows, AliasKind::Long, row.long_alias)
            &&& rows_wf(rows.push(row))
            &&& within_ceilings(rows, ceilings, now) ==> within_ceilings(
                rows.push(row),
                ceilings,
                now,
            )
        }),
{
    let row = planned_row(rows, rules, ceilings, request, now).unwrap();
    lemma_allocated_is_free(rows, AliasKind::Short, request.short_candidates);
    lemma_allocated_is_free(rows, AliasKind::Long, request.long_candidates);
    let after = rows.push(row);
    assert forall|j: int| 0 <= j < rows.len() implies #[trigger] after[j] == rows[j] by {}
    assert(aliases_unique(after, AliasKind::Short)) by {
        assert(row.alias(AliasKind::Short) == row.short_alias);
    }
    assert(aliases_unique(after, AliasKind::Long)) by {
        assert(row.alias(AliasKind::Long) == row.long_alias);
    }
    if within_ceilings(rows, ceilings, now) {
        law_admitted_upload_within_ceilings(rows, ceilings, row, now);
    }
}

} // verus!
