//! Reclamation: the one way in which a stored file leaves the system.
//!
//! The blob goes first and the row second, so that no row that can still be
//! served ever points at a blob that is gone.

use crate::blob::{BlobDelete, BlobStore};
use crate::lookup::{resolved, resolved_id};
use crate::record::{AliasKind, RecordView};
use crate::store::{
    alias_taken, has_id, id_index, lemma_remove_keeps_wf, rows_wf, without_id, MetadataStore,
};
use vstd::prelude::*;

verus! {

/// How a reclamation ended.
#[derive(Clone, Copy, Debug, PartialEq, Eq, Structural)]
pub enum ReclaimOutcome {
    /// Blob and row were there, and both are gone.
    Reclaimed,
    /// There is no row with the id; nothing was touched.
    NotFound,
    /// The row is gone, but its blob was missing already or could not be
    /// deleted.
    PartialFailure,
}

/// The outcome of a reclamation, from whether the row was there and from
/// what became of the blob. The row goes whatever became of the blob, and a
/// blob that did not go as it should makes the failure a partial one.
pub open spec fn outcome_of(row_found: bool, blob: BlobDelete) -> ReclaimOutcome {
    if !row_found {
        ReclaimOutcome::NotFound
    } else {
        match blob {
            BlobDelete::Deleted => ReclaimOutcome::Reclaimed,
            BlobDelete::Missing => ReclaimOutcome::PartialFailure,
            BlobDelete::Failed => ReclaimOutcome::PartialFailure,
        }
    }
}

/// The outcome of reclaiming `id` from these rows and blobs.
pub open spec fn reclaim_outcome(rows: Seq<RecordView>, blobs: Map<u64, Seq<u8>>, id: u64) -> ReclaimOutcome {
    outcome_of(
        has_id(rows, id),
        if blobs.contains_key(id) {
            BlobDelete::Deleted
        } else {
            BlobDelete::Missing
        },
    )
}

/// The rows after reclaiming `id`.
pub open spec fn rows_after_reclaim(rows: Seq<RecordView>, id: u64) -> Seq<RecordView> {
    without_id(rows, id)
}

/// The blobs after reclaiming `id`: an id without a row is left alone.
pub open spec fn blobs_after_reclaim(rows: Seq<RecordView>, blobs: Map<u64, Seq<u8>>, id: u64) -> Map<
    u64,
    Seq<u8>,
> {
    if has_id(rows, id) {
        blobs.remove(id)
    } else {
        blobs
    }
}

/// Every row has a blob and every blob has a row.
pub open spec fn stores_agree(rows: Seq<RecordView>, blobs: Map<u64, Seq<u8>>) -> bool {
    forall|id: u64| has_id(rows, id) <==> #[trigger] blobs.contains_key(id)
}

/// The outcome of a reclamation, from whether the row was there and from
/// what became of the blob.
pub fn outcome(row_found: bool, blob: BlobDelete) -> (r: ReclaimOutcome)
    ensures
        r == outcome_of(row_found, blob),
{
    if !row_found {
        ReclaimOutcome::NotFound
    } else {
        match blob {
            BlobDelete::Deleted => ReclaimOutcome::Reclaimed,
            BlobDelete::Missing => ReclaimOutcome::PartialFailure,
            BlobDelete::Failed => ReclaimOutcome::PartialFailure,
        }
    }
}

/// Removes the file `id` from both stores: first its blob, then its row.
/// Where no row has the id, nothing is touched. Where the blob is missing,
/// the row is removed all the same.
pub fn reclaim(store: &mut MetadataStore, blobs: &mut BlobStore, id: u64) -> (r: ReclaimOutcome)
    requires
        old(store).wf(),
    ensures
        final(store).wf(),
        r == reclaim_outcome(old(store)@, old(blobs)@, id),
        final(store)@ == rows_after_reclaim(old(store)@, id),
        final(blobs)@ == blobs_after_reclaim(old(store)@, old(blobs)@, id),
{
    if store.position_of_id(id).is_none() {
        return ReclaimOutcome::NotFound;
    }
    let blob = blobs.delete(id);
    let row = store.delete(id);
    outcome(row.is_some(), blob)
}

/// A reclaimed file is gone for good: its id and both of its aliases name
/// no row any more, so at no time does a lookup by any of them find a file,
/// and no blob is stored under its id.
pub proof fn law_reclaimed_is_gone(rows: Seq<RecordView>, blobs: Map<u64, Seq<u8>>, id: u64)
    requires
        rows_wf(rows),
        has_id(rows, id),
    ensures
        rows_wf(rows_after_reclaim(rows, id)),
        !has_id(rows_after_reclaim(rows, id), id),
        forall|now: u64| #[trigger] resolved_id(rows_after_reclaim(rows, id), id, now) is None,
        forall|now: u64| #[trigger]
            resolved(
                rows_after_reclaim(rows, id),
                AliasKind::Short,
                rows[id_index(rows, id)].short_alias,
                now,
            ) is None,
        forall|now: u64| #[trigger]
            resolved(
                rows_after_reclaim(rows, id),
                AliasKind::Long,
                rows[id_index(rows, id)].long_alias,
                now,
            ) is None,
        !alias_taken(
            rows_after_reclaim(rows, id),
            AliasKind::Short,
            rows[id_index(rows, id)].short_alias,
        ),
        !alias_taken(
            rows_after_reclaim(rows, id),
            AliasKind::Long,
            rows[id_index(rows, id)].long_alias,
        ),
        !blobs_after_reclaim(rows, blobs, id).contains_key(id),
{
    lemma_remove_keeps_wf(rows, id_index(rows, id));
}

/// Reclaiming twice is safe: after a first reclamation of a file, a second
/// one finds nothing and changes nothing.
pub proof fn law_reclaim_idempotent(rows: Seq<RecordView>, blobs: Map<u64, Seq<u8>>, id: u64)
    requires
        rows_wf(rows),
    ensures
        ({
            let rows1 = rows_after_reclaim(rows, id);
            let blobs1 = blobs_after_reclaim(rows, blobs, id);
            &&& reclaim_outcome(rows1, blobs1, id) == ReclaimOutcome::NotFound
            &&& rows_after_reclaim(rows1, id) == rows1
            &&& blobs_after_reclaim(rows1, blobs1, id) == blobs1
        }),
{
    if has_id(rows, id) {
        lemma_remove_keeps_wf(rows, id_index(rows, id));
    }
}

/// Reclamation keeps the two stores in agreement, and in agreeing stores it
/// never ends in a partial failure.
pub proof fn law_reclaim_keeps_agreement(rows: Seq<RecordView>, blobs: Map<u64, Seq<u8>>, id: u64)
    requires
        rows_wf(rows),
        stores_agree(rows, blobs),
    ensures
        stores_agree(rows_after_reclaim(rows, id), blobs_after_reclaim(rows, blobs, id)),
        reclaim_outcome(rows, blobs, id) == if has_id(rows, id) {
            ReclaimOutcome::Reclaimed
        } else {
            ReclaimOutcome::NotFound
        },
{
    if has_id(rows, id) {
        let i = id_index(rows, id);
        let after = rows.remove(i);
        lemma_remove_keeps_wf(rows, i);
        assert(blobs.contains_key(id));
        assert forall|other: u64| has_id(after, other) <==> #[trigger] blobs.remove(
            id,
        ).contains_key(other) by {
            if has_id(after, other) {
                let j = id_index(after, other);
                let j0 = if j < i { j } else { j + 1 };
                assert(rows[j0].id == other);
                assert(blobs.contains_key(other));
            }
            if other != id && blobs.contains_key(other) {
                assert(has_id(rows, other));
                let k = id_index(rows, other);
                let k1 = if k < i { k } else { k - 1 };
                assert(after[k1].id == other);
            }
        }
    }
}

} // verus!
