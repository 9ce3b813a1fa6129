//! The engine: both stores and the configuration behind one value.
//!
//! The configuration is fixed when the engine is built. The engine keeps a
//! clock that never runs backwards: each call brings the time of day, and
//! the engine goes by the latest time that it has seen. A file that is dead
//! can therefore not come back to life, and at every instant that the clock
//! reaches the usage of every uploader, and of all of them together, is
//! within the limits.
//!
//! Every changing call takes the engine by `&mut`. That exclusive borrow is
//! the serialization point of all read-decide-change sequences: a caller
//! with several tasks keeps the engine behind one lock.

use crate::alias::texts_of;
use crate::blob::BlobStore;
use crate::download::{
    action_for, blobs_after_fetch, fetch_outcome, rows_after_fetch, serve, Download, FetchAction,
    FetchOutcome,
};
use crate::error::Error;
use crate::expiration::{rules_ordered, Threshold, ThresholdTable};
use crate::lookup::{resolve, resolved};
use crate::quota::{
    law_admitted_upload_within_ceilings, law_change_within_ceilings, law_removal_within_ceilings,
    law_within_ceilings_later, within_ceilings, Ceilings,
};
use crate::reclaim::{
    law_reclaim_keeps_agreement, rows_after_reclaim, stores_agree, ReclaimOutcome,
};
use crate::record::{AliasKind, RecordView, UploadRecord};
use crate::store::{
    expired_ids, has_id, id_index, lemma_id_index, live_count, live_size, rows_wf, with_alias_of,
    with_downloads_of, MetadataStore,
};
use crate::sweep::{
    blobs_after_sweep, law_sweep_keeps_usage, law_sweep_removes_the_expired, lemma_expired_ids,
    unexpired,
};
use crate::update::{
    alias_change, allowance_of, authorized, change_alias, change_downloads,
    lemma_authorized_has_id, revoke,
};
use crate::upload::{
    planned_row, restore, restore_check, upload, Receipt, UploadRequest,
};
use vstd::prelude::*;

verus! {

/// The later of two instants.
pub open spec fn later_of(a: u64, b: u64) -> u64 {
    if a >= b {
        a
    } else {
        b
    }
}

/// A new row with a new id, and its blob, keep the stores in agreement.
pub proof fn lemma_push_keeps_agreement(
    rows: Seq<RecordView>,
    blobs: Map<u64, Seq<u8>>,
    row: RecordView,
    content: Seq<u8>,
)
    requires
        stores_agree(rows, blobs),
    ensures
        stores_agree(rows.push(row), blobs.insert(row.id, content)),
{
    let after = rows.push(row);
    assert forall|id: u64| has_id(after, id) <==> #[trigger] blobs.insert(
        row.id,
        content,
    ).contains_key(id) by {
        if has_id(after, id) {
            let k = id_index(after, id);
            if k < rows.len() {
                assert(rows[k].id == id);
                assert(blobs.contains_key(id));
            }
        }
        if id == row.id {
            assert(after[rows.len() as int].id == id);
        } else if blobs.contains_key(id) {
            assert(has_id(rows, id));
            let k = id_index(rows, id);
            assert(after[k].id == id);
        }
    }
}

/// A row that changes, but keeps its id, keeps the stores in agreement.
pub proof fn lemma_change_keeps_agreement(
    rows: Seq<RecordView>,
    blobs: Map<u64, Seq<u8>>,
    i: int,
    row: RecordView,
)
    requires
        stores_agree(rows, blobs),
        0 <= i < rows.len(),
        row.id == rows[i].id,
    ensures
        stores_agree(rows.update(i, row), blobs),
{
    let after = rows.update(i, row);
    assert forall|id: u64| has_id(after, id) <==> #[trigger] blobs.contains_key(id) by {
        if has_id(after, id) {
            let k = id_index(after, id);
            assert(rows[k].id == id);
            assert(blobs.contains_key(id));
        }
        if blobs.contains_key(id) {
            assert(has_id(rows, id));
            let k = id_index(rows, id);
            assert(after[k].id == id);
        }
    }
}

/// A sweep keeps the stores in agreement, and in agreeing stores every
/// expired file is reclaimed in full.
pub proof fn lemma_sweep_keeps_agreement(rows: Seq<RecordView>, blobs: Map<u64, Seq<u8>>, now: u64)
    requires
        rows_wf(rows),
        stores_agree(rows, blobs),
    ensures
        stores_agree(unexpired(rows, now), blobs_after_sweep(rows, blobs, now)),
{
    let kept = unexpired(rows, now);
    let left = blobs_after_sweep(rows, blobs, now);
    law_sweep_removes_the_expired(rows, now);
    assert forall|id: u64| has_id(kept, id) <==> #[trigger] left.contains_key(id) by {
        lemma_expired_ids(rows, now, id);
        if has_id(kept, id) {
            let k = id_index(kept, id);
            assert(rows.contains(kept[k]));
            let p = choose|p: int| 0 <= p < rows.len() && rows[p] == kept[k];
            assert(rows[p].id == id);
            assert(has_id(rows, id));
            assert(blobs.contains_key(id));
            if expired_ids(rows, now).contains(id) {
                let q = choose|q: int|
                    0 <= q < rows.len() && (#[trigger] rows[q]).id == id && rows[q].is_expired(now);
                assert(rows[q].id == rows[p].id);
            }
        }
        if left.contains_key(id) {
            assert(has_id(rows, id));
            let p = id_index(rows, id);
            assert(!rows[p].is_expired(now));
            assert(kept.contains(rows[p]));
            let k = choose|k: int| 0 <= k < kept.len() && kept[k] == rows[p];
            assert(kept[k].id == id);
        }
    }
}

/// A sweep keeps usage within the limits.
pub proof fn lemma_sweep_within_ceilings(rows: Seq<RecordView>, ceilings: Ceilings, now: u64)
    requires
        within_ceilings(rows, ceilings, now),
    ensures
        within_ceilings(unexpired(rows, now), ceilings, now),
{
    let kept = unexpired(rows, now);
    law_sweep_keeps_usage(rows, None, now);
    assert forall|origin: Seq<char>| #[trigger]
        live_size(kept, Some(origin), now) <= ceilings.origin_size by {
        law_sweep_keeps_usage(rows, Some(origin), now);
        assert(live_size(rows, Some(origin), now) <= ceilings.origin_size);
    }
    assert forall|origin: Seq<char>| #[trigger]
        live_count(kept, Some(origin), now) <= ceilings.origin_count by {
        law_sweep_keeps_usage(rows, Some(origin), now);
        assert(live_count(rows, Some(origin), now) <= ceilings.origin_count);
    }
}

/// The accounting of a fetch of a live file keeps usage within the limits
/// and the stores in agreement.
pub proof fn lemma_fetch_keeps_invariants(
    rows: Seq<RecordView>,
    blobs: Map<u64, Seq<u8>>,
    ceilings: Ceilings,
    id: u64,
    now: u64,
)
    requires
        rows_wf(rows),
        stores_agree(rows, blobs),
        within_ceilings(rows, ceilings, now),
        has_id(rows, id),
        rows[id_index(rows, id)].is_live(now),
    ensures
        stores_agree(rows_after_fetch(rows, id), blobs_after_fetch(rows, blobs, id)),
        within_ceilings(rows_after_fetch(rows, id), ceilings, now),
{
    let i = id_index(rows, id);
    match action_for(rows[i].downloads_remaining) {
        FetchAction::Keep => {},
        FetchAction::Decrement(left) => {
            let row = rows[i].with_downloads(Some(left));
            lemma_change_keeps_agreement(rows, blobs, i, row);
            law_change_within_ceilings(rows, ceilings, i, row, now);
        },
        FetchAction::Reclaim => {
            law_reclaim_keeps_agreement(rows, blobs, id);
            law_removal_within_ceilings(rows, ceilings, i, now);
        },
        FetchAction::Refuse => {},
    }
}

/// The engine.
pub struct Engine {
    store: MetadataStore,
    blobs: BlobStore,
    thresholds: ThresholdTable,
    ceilings: Ceilings,
    clock: u64,
}

impl Engine {
    /// The rows of the metadata index.
    pub closed spec fn rows(&self) -> Seq<RecordView> {
        self.store@
    }

    /// The blobs, by id.
    pub closed spec fn blobs(&self) -> Map<u64, Seq<u8>> {
        self.blobs@
    }

    /// The rules of the retention table.
    pub closed spec fn rules(&self) -> Seq<Threshold> {
        self.thresholds@
    }

    /// The usage limits.
    pub closed spec fn ceilings(&self) -> Ceilings {
        self.ceilings
    }

    /// The latest time that the engine has seen.
    pub closed spec fn clock(&self) -> u64 {
        self.clock
    }

    /// The engine's invariant: the retention table is ordered, ids and
    /// aliases are unique, a row exists exactly if its blob exists, and
    /// usage at the engine's clock is within the limits.
    pub open spec fn wf(&self) -> bool {
        &&& rules_ordered(self.rules())
        &&& rows_wf(self.rows())
        &&& stores_agree(self.rows(), self.blobs())
        &&& within_ceilings(self.rows(), self.ceilings(), self.clock())
    }

    /// The configuration is that of `before`, and the clock stands at the
    /// later of `before`'s clock and `now`.
    pub open spec fn follows(&self, before: &Engine, now: u64) -> bool {
        &&& self.rules() == before.rules()
        &&& self.ceilings() == before.ceilings()
        &&& self.clock() == later_of(before.clock(), now)
    }

    /// An engine without files, with its clock at zero.
    pub fn new(thresholds: ThresholdTable, ceilings: Ceilings) -> (e: Engine)
        requires
            thresholds.wf(),
        ensures
            e.wf(),
            e.rows() == Seq::<RecordView>::empty(),
            e.blobs() == Map::<u64, Seq<u8>>::empty(),
            e.rules() == thresholds@,
            e.ceilings() == ceilings,
            e.clock() == 0,
    {
        Engine { store: MetadataStore::new(), blobs: BlobStore::new(), thresholds, ceilings, clock: 0 }
    }

    /// The latest time that the engine has seen.
    pub fn now(&self) -> (t: u64)
        ensures
            t == self.clock(),
    {
        self.clock
    }

    /// The number of rows, dead ones included.
    pub fn len(&self) -> (n: usize)
        ensures
            n == self.rows().len(),
    {
        self.store.len()
    }

    /// Moves the clock to `now` unless it is ahead already, and returns the
    /// time that it shows.
    fn advance(&mut self, now: u64) -> (t: u64)
        requires
            old(self).wf(),
        ensures
            final(self).wf(),
            final(self).follows(old(self), now),
            final(self).rows() == old(self).rows(),
            final(self).blobs() == old(self).blobs(),
            t == final(self).clock(),
    {
        if now > self.clock {
            proof {
                law_within_ceilings_later(self.rows(), self.ceilings(), self.clock, now);
            }
            self.clock = now;
        }
        self.clock
    }

    /// Bytes and number of the live files of `origin`, or of everyone where
    /// no origin is given, at the later of `now` and the engine's clock.
    pub fn usage(&self, origin: Option<&String>, now: u64) -> (r: (u128, usize))
        ensures
            r.0 == live_size(
                self.rows(),
                match origin {
                    Some(o) => Some(o@),
                    None => None,
                },
                later_of(self.clock(), now),
            ),
            r.1 == live_count(
                self.rows(),
                match origin {
                    Some(o) => Some(o@),
                    None => None,
                },
                later_of(self.clock(), now),
            ),
    {
        let t = if now > self.clock {
            now
        } else {
            self.clock
        };
        self.store.sum_size_and_count(origin, t)
    }

    /// The live file that has this alias, at the later of `now` and the
    /// engine's clock.
    pub fn lookup(&self, kind: AliasKind, alias: &String, now: u64) -> (r: Result<
        UploadRecord,
        Error,
    >)
        requires
            self.wf(),
        ensures
            match r {
                Ok(record) => resolved(self.rows(), kind, alias@, later_of(self.clock(), now))
                    == Some(record@),
                Err(e) => e == Error::RecordNotFound && resolved(
                    self.rows(),
                    kind,
                    alias@,
                    later_of(self.clock(), now),
                ) is None,
            },
    {
        let t = if now > self.clock {
            now
        } else {
            self.clock
        };
        resolve(&self.store, kind, alias, t)
    }

    /// Takes in one file. See [`upload`].
    pub fn upload(&mut self, request: UploadRequest, now: u64) -> (r: Result<Receipt, Error>)
        requires
            old(self).wf(),
        ensures
            final(self).wf(),
            final(self).follows(old(self), now),
            match planned_row(
                old(self).rows(),
                old(self).rules(),
                old(self).ceilings(),
                request@,
                later_of(old(self).clock(), now),
            ) {
                Ok(row) => {
                    &&& r matches Ok(receipt)
                    &&& receipt.id == row.id
                    &&& receipt.short_alias@ == row.short_alias
                    &&& receipt.long_alias@ == row.long_alias
                    &&& receipt.expires_at == row.expires_at
                    &&& final(self).rows() == old(self).rows().push(row)
                    &&& final(self).blobs() == old(self).blobs().insert(row.id, request@.content)
                },
                Err(e) => {
                    &&& r matches Err(got)
                    &&& got == e
                    &&& final(self).rows() == old(self).rows()
                    &&& final(self).blobs() == old(self).blobs()
                },
            },
    {
        let t = self.advance(now);
        let ghost rows = self.rows();
        let ghost blobs = self.blobs();
        let ghost plan = planned_row(rows, self.rules(), self.ceilings(), request@, t);
        proof {
            if let Ok(row) = plan {
                law_admitted_upload_within_ceilings(rows, self.ceilings(), row, t);
                lemma_push_keeps_agreement(rows, blobs, row, request@.content);
            }
        }
        upload(&mut self.store, &mut self.blobs, &self.thresholds, &self.ceilings, request, t)
    }

    /// Takes a file that was stored before back in, with its row and its
    /// blob as they were kept. See [`restore`].
    pub fn restore(&mut self, record: UploadRecord, content: Vec<u8>, now: u64) -> (r: Result<
        (),
        Error,
    >)
        requires
            old(self).wf(),
        ensures
            final(self).wf(),
            final(self).follows(old(self), now),
            r == restore_check(
                old(self).rows(),
                old(self).ceilings(),
                record@,
                content@,
                later_of(old(self).clock(), now),
            ),
            final(self).rows() == if r is Ok {
                old(self).rows().push(record@)
            } else {
                old(self).rows()
            },
            final(self).blobs() == if r is Ok {
                old(self).blobs().insert(record.id, content@)
            } else {
                old(self).blobs()
            },
    {
        let t = self.advance(now);
        proof {
            let rows = self.rows();
            if restore_check(rows, self.ceilings(), record@, content@, t) is Ok {
                law_admitted_upload_within_ceilings(rows, self.ceilings(), record@, t);
                lemma_push_keeps_agreement(rows, self.blobs(), record@, content@);
            }
        }
        restore(&mut self.store, &mut self.blobs, &self.ceilings, record, content, t)
    }

    /// Hands out the live file that has this alias and accounts for the
    /// fetch. The fetch that uses up the allowance reclaims the file.
    pub fn download(&mut self, kind: AliasKind, alias: &String, now: u64) -> (r: Result<
        Download,
        Error,
    >)
        requires
            old(self).wf(),
        ensures
            final(self).wf(),
            final(self).follows(old(self), now),
            match resolved(old(self).rows(), kind, alias@, later_of(old(self).clock(), now)) {
                None => {
                    &&& r matches Err(e)
                    &&& e == Error::RecordNotFound
                    &&& final(self).rows() == old(self).rows()
                    &&& final(self).blobs() == old(self).blobs()
                },
                Some(row) => {
                    &&& r matches Ok(download)
                    &&& download.id == row.id
                    &&& old(self).blobs().contains_key(row.id)
                    &&& download.content@ == old(self).blobs()[row.id]
                    &&& download.status == fetch_outcome(old(self).rows(), row.id)
                    &&& download.status != FetchOutcome::AlreadyDead
                    &&& download.reclaimed == (if download.status
                        == FetchOutcome::ServedAndReclaimed {
                        Some(ReclaimOutcome::Reclaimed)
                    } else {
                        None
                    })
                    &&& final(self).rows() == rows_after_fetch(old(self).rows(), row.id)
                    &&& final(self).blobs() == blobs_after_fetch(
                        old(self).rows(),
                        old(self).blobs(),
                        row.id,
                    )
                },
            },
    {
        let t = self.advance(now);
        proof {
            let rows = self.rows();
            if let Some(row) = resolved(rows, kind, alias@, t) {
                lemma_id_index(rows, row.id, crate::store::alias_index(rows, kind, alias@));
                lemma_fetch_keeps_invariants(rows, self.blobs(), self.ceilings(), row.id, t);
            }
        }
        serve(&mut self.store, &mut self.blobs, kind, alias, t)
    }

    /// Revokes the file that the alias and the token open.
    pub fn revoke(&mut self, kind: AliasKind, alias: &String, token: &String, now: u64) -> (r:
        Result<(), Error>)
        requires
            old(self).wf(),
        ensures
            final(self).wf(),
            final(self).follows(old(self), now),
            match authorized(
                old(self).rows(),
                kind,
                alias@,
                token@,
                later_of(old(self).clock(), now),
            ) {
                Some(id) => {
                    &&& r == Ok::<(), Error>(())
                    &&& final(self).rows() == rows_after_reclaim(old(self).rows(), id)
                    &&& final(self).blobs() == old(self).blobs().remove(id)
                    &&& !has_id(final(self).rows(), id)
                },
                None => {
                    &&& r == Err::<(), Error>(Error::Unauthorized)
                    &&& final(self).rows() == old(self).rows()
                    &&& final(self).blobs() == old(self).blobs()
                },
            },
    {
        let t = self.advance(now);
        proof {
            let rows = self.rows();
            if let Some(id) = authorized(rows, kind, alias@, token@, t) {
                lemma_authorized_has_id(rows, kind, alias@, token@, t);
                law_reclaim_keeps_agreement(rows, self.blobs(), id);
                law_removal_within_ceilings(rows, self.ceilings(), id_index(rows, id), t);
                crate::store::lemma_remove_keeps_wf(rows, id_index(rows, id));
            }
        }
        match revoke(&mut self.store, &mut self.blobs, kind, alias, token, t) {
            Ok(_) => Ok(()),
            Err(e) => Err(e),
        }
    }

    /// Sets the download allowance of the file that the alias and the token
    /// open. A count of zero lifts the limit.
    pub fn change_downloads(
        &mut self,
        kind: AliasKind,
        alias: &String,
        token: &String,
        count: u16,
        now: u64,
    ) -> (r: Result<(), Error>)
        requires
            old(self).wf(),
        ensures
            final(self).wf(),
            final(self).follows(old(self), now),
            final(self).blobs() == old(self).blobs(),
            match authorized(
                old(self).rows(),
                kind,
                alias@,
                token@,
                later_of(old(self).clock(), now),
            ) {
                Some(id) => {
                    &&& r == Ok::<(), Error>(())
                    &&& final(self).rows() == with_downloads_of(
                        old(self).rows(),
                        id,
                        allowance_of(count),
                    )
                },
                None => {
                    &&& r == Err::<(), Error>(Error::Unauthorized)
                    &&& final(self).rows() == old(self).rows()
                },
            },
    {
        let t = self.advance(now);
        proof {
            let rows = self.rows();
            if let Some(id) = authorized(rows, kind, alias@, token@, t) {
                lemma_authorized_has_id(rows, kind, alias@, token@, t);
                let i = id_index(rows, id);
                let row = rows[i].with_downloads(allowance_of(count));
                lemma_change_keeps_agreement(rows, self.blobs(), i, row);
                law_change_within_ceilings(rows, self.ceilings(), i, row, t);
            }
        }
        change_downloads(&mut self.store, kind, alias, token, count, t)
    }

    /// Replaces the alias of kind `which` of the file that the alias and
    /// the token open by the first candidate that is free.
    pub fn change_alias(
        &mut self,
        kind: AliasKind,
        alias: &String,
        token: &String,
        which: AliasKind,
        candidates: &Vec<String>,
        now: u64,
    ) -> (r: Result<String, Error>)
        requires
            old(self).wf(),
        ensures
            final(self).wf(),
            final(self).follows(old(self), now),
            final(self).blobs() == old(self).blobs(),
            match alias_change(
                old(self).rows(),
                kind,
                alias@,
                token@,
                which,
                texts_of(candidates@),
                later_of(old(self).clock(), now),
            ) {
                Ok(fresh) => {
                    &&& r matches Ok(given)
                    &&& given@ == fresh
                    &&& final(self).rows() == with_alias_of(
                        old(self).rows(),
                        authorized(
                            old(self).rows(),
                            kind,
                            alias@,
                            token@,
                            later_of(old(self).clock(), now),
                        ).unwrap(),
                        which,
                        fresh,
                    )
                },
                Err(e) => {
                    &&& r matches Err(got)
                    &&& got == e
                    &&& final(self).rows() == old(self).rows()
                },
            },
    {
        let t = self.advance(now);
        proof {
            let rows = self.rows();
            if let Ok(fresh) = alias_change(rows, kind, alias@, token@, which, texts_of(candidates@), t) {
                lemma_authorized_has_id(rows, kind, alias@, token@, t);
                let id = authorized(rows, kind, alias@, token@, t).unwrap();
                let i = id_index(rows, id);
                let row = rows[i].with_alias(which, fresh);
                lemma_change_keeps_agreement(rows, self.blobs(), i, row);
                law_change_within_ceilings(rows, self.ceilings(), i, row, t);
            }
        }
        change_alias(&mut self.store, kind, alias, token, which, candidates, t)
    }

    /// Reclaims every file whose retention is over, and returns their ids
    /// in row order.
    pub fn sweep(&mut self, now: u64) -> (ids: Vec<u64>)
        requires
            old(self).wf(),
        ensures
            final(self).wf(),
            final(self).follows(old(self), now),
            ids@ == expired_ids(old(self).rows(), later_of(old(self).clock(), now)),
            final(self).rows() == unexpired(old(self).rows(), later_of(old(self).clock(), now)),
            final(self).blobs() == blobs_after_sweep(
                old(self).rows(),
                old(self).blobs(),
                later_of(old(self).clock(), now),
            ),
    {
        let t = self.advance(now);
        proof {
            lemma_sweep_keeps_agreement(self.rows(), self.blobs(), t);
            lemma_sweep_within_ceilings(self.rows(), self.ceilings(), t);
        }
        let ids = self.store.list_expired(t);
        crate::sweep::sweep(&mut self.store, &mut self.blobs, t);
        ids
    }
}

} // verus!
