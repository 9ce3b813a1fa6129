//! The retention sweep: one pass that reclaims every file whose retention
//! is over.
//!
//! The sweep goes by the expiry alone. It does not look at download
//! allowances and it does not change any usage: an expired row held no
//! quota before the sweep either.

use crate::blob::BlobStore;
use crate::reclaim::{reclaim, ReclaimOutcome};
use crate::record::RecordView;
use crate::store::{expired_ids, lemma_id_index, live_count, live_size, rows_wf, MetadataStore};
use vstd::prelude::*;

verus! {

/// The rows whose retention is not over at `now`, in row order.
pub open spec fn unexpired(rows: Seq<RecordView>, now: u64) -> Seq<RecordView>
    decreases rows.len(),
{
    if rows.len() == 0 {
        Seq::empty()
    } else if rows.last().is_expired(now) {
        unexpired(rows.drop_last(), now)
    } else {
        unexpired(rows.drop_last(), now).push(rows.last())
    }
}

/// What a sweep at `now` reports: for each expired row, in row order, its
/// id and how its reclamation ended.
pub open spec fn sweep_outcomes(rows: Seq<RecordView>, blobs: Map<u64, Seq<u8>>, now: u64) -> Seq<
    (u64, ReclaimOutcome),
>
    decreases rows.len(),
{
    if rows.len() == 0 {
        Seq::empty()
    } else if rows.last().is_expired(now) {
        sweep_outcomes(rows.drop_last(), blobs, now).push(
            (
                rows.last().id,
                if blobs.contains_key(rows.last().id) {
                    ReclaimOutcome::Reclaimed
                } else {
                    ReclaimOutcome::PartialFailure
                },
            ),
        )
    } else {
        sweep_outcomes(rows.drop_last(), blobs, now)
    }
}

/// The blobs after a sweep at `now`: those of the expired rows are gone.
pub open spec fn blobs_after_sweep(rows: Seq<RecordView>, blobs: Map<u64, Seq<u8>>, now: u64) -> Map<
    u64,
    Seq<u8>,
> {
    blobs.remove_keys(expired_ids(rows, now).to_set())
}

/// An id is among the expired ids exactly if an expired row has it.
pub proof fn lemma_expired_ids(rows: Seq<RecordView>, now: u64, id: u64)
    ensures
        expired_ids(rows, now).contains(id) <==> exists|k: int|
            0 <= k < rows.len() && (#[trigger] rows[k]).id == id && rows[k].is_expired(now),
    decreases rows.len(),
{
    if rows.len() > 0 {
        let front = rows.drop_last();
        lemma_expired_ids(front, now, id);
        let ids = expired_ids(rows, now);
        let front_ids = expired_ids(front, now);
        if ids.contains(id) {
            let p = choose|p: int| 0 <= p < ids.len() && ids[p] == id;
            if rows.last().is_expired(now) && p == front_ids.len() {
                assert(rows[rows.len() - 1].id == id);
            } else {
                assert(front_ids[p] == id);
                assert(front_ids.contains(id));
                let k = choose|k: int|
                    0 <= k < front.len() && (#[trigger] front[k]).id == id && front[k].is_expired(
                        now,
                    );
                assert(rows[k] == front[k]);
            }
        }
        if exists|k: int|
            0 <= k < rows.len() && (#[trigger] rows[k]).id == id && rows[k].is_expired(now) {
            let k = choose|k: int|
                0 <= k < rows.len() && (#[trigger] rows[k]).id == id && rows[k].is_expired(now);
            if k == rows.len() - 1 {
                assert(ids[front_ids.len() as int] == id);
            } else {
                assert(front[k] == rows[k]);
                assert(front_ids.contains(id));
                let p = choose|p: int| 0 <= p < front_ids.len() && front_ids[p] == id;
                assert(ids[p] == id);
            }
        }
    }
}

/// Reclaims every file whose retention is over at `now`, blob first and row
/// second, in row order. A blob that is missing does not stop the sweep:
/// the row is removed, the outcome is reported, and the sweep goes on.
pub fn sweep(store: &mut MetadataStore, blobs: &mut BlobStore, now: u64) -> (report: Vec<
    (u64, ReclaimOutcome),
>)
    requires
        old(store).wf(),
    ensures
        final(store).wf(),
        final(store)@ == unexpired(old(store)@, now),
        final(blobs)@ == blobs_after_sweep(old(store)@, old(blobs)@, now),
        report@ == sweep_outcomes(old(store)@, old(blobs)@, now),
{
    let ghost rows0 = store@;
    let ghost blobs0 = blobs@;
    let ghost mut j: int = 0;
    let mut report: Vec<(u64, ReclaimOutcome)> = Vec::new();
    let mut i: usize = 0;
    proof {
        assert(store@.take(0) =~= unexpired(rows0.take(0), now));
        assert(store@.skip(0) =~= rows0.skip(0));
        assert(expired_ids(rows0.take(0), now).to_set() =~= Set::<u64>::empty());
        assert(blobs@ =~= blobs0.remove_keys(expired_ids(rows0.take(0), now).to_set()));
    }
    while i < store.len()
        invariant
            store.wf(),
            rows_wf(rows0),
            0 <= j <= rows0.len(),
            i <= store@.len(),
            store@.len() - i == rows0.len() - j,
            store@.take(i as int) == unexpired(rows0.take(j), now),
            store@.skip(i as int) == rows0.skip(j),
            blobs@ == blobs0.remove_keys(expired_ids(rows0.take(j), now).to_set()),
            report@ == sweep_outcomes(rows0.take(j), blobs0, now),
        decreases store@.len() - i,
    {
        let ghost before = store@;
        let ghost blobs_before = blobs@;
        let ghost done = expired_ids(rows0.take(j), now);
        proof {
            assert(before[i as int] == before.skip(i as int)[0]);
            assert(rows0[j] == rows0.skip(j)[0]);
            assert(rows0.take(j + 1).drop_last() =~= rows0.take(j));
            assert(rows0.take(j + 1).last() == rows0[j]);
        }
        let dead = store.row(i).is_expired(now);
        if dead {
            let id = store.row(i).id;
            proof {
                lemma_id_index(before, id, i as int);
                lemma_expired_ids(rows0.take(j), now, id);
                if done.contains(id) {
                    let k = choose|k: int|
                        0 <= k < rows0.take(j).len() && (#[trigger] rows0.take(j)[k]).id == id
                            && rows0.take(j)[k].is_expired(now);
                    assert(rows0[k].id == rows0[j].id);
                }
                assert(!done.to_set().contains(id));
                assert(blobs_before.contains_key(id) == blobs0.contains_key(id));
            }
            let outcome = reclaim(store, blobs, id);
            report.push((id, outcome));
            proof {
                assert(store@ == before.remove(i as int));
                assert(store@.take(i as int) =~= before.take(i as int));
                assert(store@.skip(i as int) =~= before.skip(i as int).skip(1));
                assert(rows0.skip(j + 1) =~= rows0.skip(j).skip(1));
                assert(expired_ids(rows0.take(j + 1), now) == done.push(id));
                assert(done.push(id).to_set() =~= done.to_set().insert(id)) by {
                    assert forall|x: u64|
                        done.push(id).to_set().contains(x) <==> done.to_set().insert(id).contains(
                            x,
                        ) by {
                        if done.push(id).contains(x) {
                            let p = choose|p: int| 0 <= p < done.push(id).len() && done.push(id)[p] == x;
                            if p < done.len() {
                                assert(done[p] == x);
                            }
                        }
                        if done.contains(x) {
                            let p = choose|p: int| 0 <= p < done.len() && done[p] == x;
                            assert(done.push(id)[p] == x);
                        }
                        if x == id {
                            assert(done.push(id)[done.len() as int] == id);
                        }
                    }
                }
                assert(blobs@ =~= blobs0.remove_keys(done.push(id).to_set()));
                j = j + 1;
            }
        } else {
            proof {
                assert(store@.take(i + 1) =~= store@.take(i as int).push(store@[i as int]));
                assert(store@.skip(i + 1) =~= store@.skip(i as int).skip(1));
                assert(rows0.skip(j + 1) =~= rows0.skip(j).skip(1));
                j = j + 1;
            }
            i += 1;
        }
    }
    proof {
        assert(store@.take(i as int) =~= store@);
        assert(rows0.take(j) =~= rows0);
    }
    report
}

/// After a sweep no row is expired, and every row that was not expired is
/// still there, unchanged and in its old order.
pub proof fn law_sweep_removes_the_expired(rows: Seq<RecordView>, now: u64)
    ensures
        forall|k: int|
            0 <= k < unexpired(rows, now).len() ==> !(#[trigger] unexpired(rows, now)[k]).is_expired(
                now,
            ),
        forall|k: int|
            0 <= k < rows.len() && !(#[trigger] rows[k]).is_expired(now) ==> unexpired(
                rows,
                now,
            ).contains(rows[k]),
        forall|k: int|
            0 <= k < unexpired(rows, now).len() ==> rows.contains(#[trigger] unexpired(rows, now)[k]),
        unexpired(rows, now).len() + expired_ids(rows, now).len() == rows.len(),
    decreases rows.len(),
{
    if rows.len() > 0 {
        let front = rows.drop_last();
        law_sweep_removes_the_expired(front, now);
        let kept = unexpired(rows, now);
        let kept_front = unexpired(front, now);
        assert forall|k: int| 0 <= k < rows.len() && !(#[trigger] rows[k]).is_expired(
            now,
        ) implies kept.contains(rows[k]) by {
            if k < rows.len() - 1 {
                assert(front[k] == rows[k]);
                assert(kept_front.contains(rows[k]));
                let p = choose|p: int| 0 <= p < kept_front.len() && kept_front[p] == rows[k];
                assert(kept[p] == rows[k]);
            } else {
                assert(kept[kept.len() - 1] == rows[k]);
            }
        }
        assert forall|k: int| 0 <= k < kept.len() implies rows.contains(#[trigger] kept[k]) by {
            if k < kept_front.len() {
                assert(kept[k] == kept_front[k]);
                assert(front.contains(kept_front[k]));
                let p = choose|p: int| 0 <= p < front.len() && front[p] == kept_front[k];
                assert(rows[p] == kept[k]);
            } else {
                assert(rows[rows.len() - 1] == kept[k]);
            }
        }
    }
}

/// A sweep changes no usage: the rows that it removes at `now` held no
/// quota at `now`. The selection of the sweep and the accounting of usage
/// go by the same liveness.
pub proof fn law_sweep_keeps_usage(rows: Seq<RecordView>, origin: Option<Seq<char>>, now: u64)
    ensures
        live_size(unexpired(rows, now), origin, now) == live_size(rows, origin, now),
        live_count(unexpired(rows, now), origin, now) == live_count(rows, origin, now),
    decreases rows.len(),
{
    if rows.len() > 0 {
        let front = rows.drop_last();
        law_sweep_keeps_usage(front, origin, now);
        if !rows.last().is_expired(now) {
            crate::quota::lemma_usage_push(unexpired(front, now), rows.last(), origin, now);
        }
    }
}

} // verus!
