//! Download accounting: one fetch uses up one unit of a file's allowance,
//! and the fetch that uses up the last unit removes the file.

use crate::blob::BlobStore;
use crate::error::Error;
use crate::lookup::{resolve, resolved};
use crate::parse::{find, lemma_first_position};
use crate::reclaim::{
    blobs_after_reclaim, reclaim, reclaim_outcome, rows_after_reclaim, ReclaimOutcome,
};
use crate::record::{AliasKind, RecordView};
use crate::store::{
    alias_index, has_id, id_index, lemma_downloads_keep_wf, lemma_id_index, lemma_remove_keeps_wf,
    rows_wf, with_downloads_of, without_id, MetadataStore,
};
use vstd::prelude::*;

verus! {

/// What the accounting of one fetch found and did.
#[derive(Clone, Copy, Debug, PartialEq, Eq, Structural)]
pub enum FetchOutcome {
    /// The fetch is accounted for and the file stays.
    ServedAndLive,
    /// The fetch used up the allowance; blob and row are gone.
    ServedAndReclaimed,
    /// The file has no allowance left, or is gone already. Nothing was
    /// touched. Of a file that was served just before, this is a defect of
    /// the caller's liveness test.
    AlreadyDead,
}

impl FetchOutcome {
    /// The error that the outcome stands for: a fetch of a file that was
    /// dead before is a state that the rules exclude.
    pub fn error(&self) -> (e: Option<Error>)
        ensures
            e == if *self == FetchOutcome::AlreadyDead {
                Some(Error::InternalConsistency)
            } else {
                None
            },
    {
        match self {
            FetchOutcome::AlreadyDead => Some(Error::InternalConsistency),
            _ => None,
        }
    }
}

/// What the accounting of one fetch is to do with a file.
#[derive(Clone, Copy, Debug, PartialEq, Eq, Structural)]
pub enum FetchAction {
    /// The allowance is unlimited: leave the row as it is.
    Keep,
    /// Set the allowance to this value, one less than it was.
    Decrement(u16),
    /// This fetch uses up the allowance: reclaim the file.
    Reclaim,
    /// The allowance was used up before: touch nothing.
    Refuse,
}

/// The action that an allowance calls for.
pub open spec fn action_for(remaining: Option<u16>) -> FetchAction {
    match remaining {
        None => FetchAction::Keep,
        Some(n) => if n == 0 {
            FetchAction::Refuse
        } else if n == 1 {
            FetchAction::Reclaim
        } else {
            FetchAction::Decrement((n - 1) as u16)
        },
    }
}

/// What the accounting of one fetch of `id` returns on these rows.
pub open spec fn fetch_outcome(rows: Seq<RecordView>, id: u64) -> FetchOutcome {
    if !has_id(rows, id) {
        FetchOutcome::AlreadyDead
    } else {
        match action_for(rows[id_index(rows, id)].downloads_remaining) {
            FetchAction::Keep => FetchOutcome::ServedAndLive,
            FetchAction::Decrement(_) => FetchOutcome::ServedAndLive,
            FetchAction::Reclaim => FetchOutcome::ServedAndReclaimed,
            FetchAction::Refuse => FetchOutcome::AlreadyDead,
        }
    }
}

/// The rows after the accounting of one fetch of `id`.
pub open spec fn rows_after_fetch(rows: Seq<RecordView>, id: u64) -> Seq<RecordView> {
    if !has_id(rows, id) {
        rows
    } else {
        match action_for(rows[id_index(rows, id)].downloads_remaining) {
            FetchAction::Keep => rows,
            FetchAction::Decrement(left) => with_downloads_of(rows, id, Some(left)),
            FetchAction::Reclaim => rows_after_reclaim(rows, id),
            FetchAction::Refuse => rows,
        }
    }
}

/// The blobs after the accounting of one fetch of `id`.
pub open spec fn blobs_after_fetch(rows: Seq<RecordView>, blobs: Map<u64, Seq<u8>>, id: u64) -> Map<
    u64,
    Seq<u8>,
> {
    if fetch_outcome(rows, id) == FetchOutcome::ServedAndReclaimed {
        blobs_after_reclaim(rows, blobs, id)
    } else {
        blobs
    }
}

/// How the reclamation ended that the accounting of one fetch of `id` set
/// off; `None` where the fetch set none off.
pub open spec fn reclaim_of_fetch(rows: Seq<RecordView>, blobs: Map<u64, Seq<u8>>, id: u64) -> Option<
    ReclaimOutcome,
> {
    if fetch_outcome(rows, id) == FetchOutcome::ServedAndReclaimed {
        Some(reclaim_outcome(rows, blobs, id))
    } else {
        None
    }
}

/// The rows after `count` fetches of `id`, each accounted for in turn.
pub open spec fn rows_after_fetches(rows: Seq<RecordView>, id: u64, count: nat) -> Seq<RecordView>
    decreases count,
{
    if count == 0 {
        rows
    } else {
        rows_after_fetch(rows_after_fetches(rows, id, (count - 1) as nat), id)
    }
}

/// The action that an allowance calls for.
pub fn fetch_action(remaining: Option<u16>) -> (a: FetchAction)
    ensures
        a == action_for(remaining),
{
    match remaining {
        None => FetchAction::Keep,
        Some(n) => if n == 0 {
            FetchAction::Refuse
        } else if n == 1 {
            FetchAction::Reclaim
        } else {
            FetchAction::Decrement(n - 1)
        },
    }
}

/// Accounts for one fetch of the file `id`, after its blob was handed out.
///
/// An unlimited file is left as it is. An allowance above one goes down by
/// one. An allowance of one means that this was the last fetch: the file is
/// reclaimed. An allowance of zero, or no row at all, means that the file
/// was dead before: nothing is touched, and nothing is deleted twice.
///
/// Reading, deciding and changing happen under one exclusive borrow of both
/// stores, so no two fetches can both see the last unit.
pub fn account_fetch(store: &mut MetadataStore, blobs: &mut BlobStore, id: u64) -> (r: FetchOutcome)
    requires
        old(store).wf(),
    ensures
        final(store).wf(),
        r == fetch_outcome(old(store)@, id),
        final(store)@ == rows_after_fetch(old(store)@, id),
        final(blobs)@ == blobs_after_fetch(old(store)@, old(blobs)@, id),
{
    account_fetch_reporting(store, blobs, id).0
}

/// Accounts for one fetch of the file `id`, as `account_fetch` does, and
/// reports beside the outcome how the reclamation ended, where this fetch
/// set one off. A last fetch whose blob was missing already is served and
/// reclaimed all the same: the row is removed, and the report says
/// `PartialFailure`.
pub fn account_fetch_reporting(store: &mut MetadataStore, blobs: &mut BlobStore, id: u64) -> (r: (
    FetchOutcome,
    Option<ReclaimOutcome>,
))
    requires
        old(store).wf(),
    ensures
        final(store).wf(),
        r.0 == fetch_outcome(old(store)@, id),
        r.1 == reclaim_of_fetch(old(store)@, old(blobs)@, id),
        r.1 != Some(ReclaimOutcome::NotFound),
        final(store)@ == rows_after_fetch(old(store)@, id),
        final(blobs)@ == blobs_after_fetch(old(store)@, old(blobs)@, id),
{
    let remaining = match store.position_of_id(id) {
        Some(i) => store.row(i).downloads_remaining,
        None => {
            return (FetchOutcome::AlreadyDead, None);
        },
    };
    match fetch_action(remaining) {
        FetchAction::Keep => (FetchOutcome::ServedAndLive, None),
        FetchAction::Decrement(left) => {
            store.update_downloads_remaining(id, Some(left));
            (FetchOutcome::ServedAndLive, None)
        },
        FetchAction::Reclaim => {
            let reclaimed = reclaim(store, blobs, id);
            (FetchOutcome::ServedAndReclaimed, Some(reclaimed))
        },
        FetchAction::Refuse => (FetchOutcome::AlreadyDead, None),
    }
}

/// What a download asks for.
#[derive(Clone, Copy, Debug, PartialEq, Eq, Structural)]
pub enum DownloadKind {
    /// One file, named by its alias.
    File,
    /// Several files in one archive, their aliases joined by `+`.
    Archive,
}

/// What the alias part of a download asks for: an archive exactly if it
/// holds a `+`.
pub open spec fn kind_of(alias: Seq<char>) -> DownloadKind {
    if alias.contains('+') {
        DownloadKind::Archive
    } else {
        DownloadKind::File
    }
}

/// What the alias part of a download asks for.
pub fn download_kind(alias: &str) -> (k: DownloadKind)
    ensures
        k == kind_of(alias@),
{
    proof {
        lemma_first_position(alias@, '+');
    }
    match find(alias, '+') {
        Some(i) => {
            assert(alias@[i as int] == '+');
            DownloadKind::Archive
        },
        None => DownloadKind::File,
    }
}

/// A file that was handed out.
#[derive(Debug)]
pub struct Download {
    /// The file's id.
    pub id: u64,
    /// The file's bytes.
    pub content: Vec<u8>,
    /// What the accounting of this fetch did.
    pub status: FetchOutcome,
    /// How the reclamation ended, where this fetch set one off.
    pub reclaimed: Option<ReclaimOutcome>,
}

/// A copy of the bytes.
pub fn copy_of(bytes: &Vec<u8>) -> (r: Vec<u8>)
    ensures
        r@ == bytes@,
{
    let mut r: Vec<u8> = Vec::with_capacity(bytes.len());
    let mut i: usize = 0;
    while i < bytes.len()
        invariant
            i <= bytes.len(),
            r@ == bytes@.take(i as int),
        decreases bytes.len() - i,
    {
        r.push(bytes[i]);
        assert(bytes@.take(i + 1) =~= bytes@.take(i as int).push(bytes@[i as int]));
        i += 1;
    }
    assert(bytes@.take(i as int) =~= bytes@);
    r
}

/// Hands out the live file that has this alias, and accounts for the
/// fetch.
///
/// An alias that no live file has gives `RecordNotFound`, and nothing is
/// touched. A live row whose blob is missing is treated the same, and the
/// dangling row is removed on the way.
pub fn serve(
    store: &mut MetadataStore,
    blobs: &mut BlobStore,
    kind: AliasKind,
    alias: &String,
    now: u64,
) -> (r: Result<Download, Error>)
    requires
        old(store).wf(),
    ensures
        final(store).wf(),
        match resolved(old(store)@, kind, alias@, now) {
            None => {
                &&& r matches Err(e)
                &&& e == Error::RecordNotFound
                &&& final(store)@ == old(store)@
                &&& final(blobs)@ == old(blobs)@
            },
            Some(row) => if old(blobs)@.contains_key(row.id) {
                &&& r matches Ok(download)
                &&& download.id == row.id
                &&& download.content@ == old(blobs)@[row.id]
                &&& download.status == fetch_outcome(old(store)@, row.id)
                &&& download.status != FetchOutcome::AlreadyDead
                &&& download.reclaimed == reclaim_of_fetch(old(store)@, old(blobs)@, row.id)
                &&& download.reclaimed != Some(ReclaimOutcome::PartialFailure)
                &&& final(store)@ == rows_after_fetch(old(store)@, row.id)
                &&& final(blobs)@ == blobs_after_fetch(old(store)@, old(blobs)@, row.id)
            } else {
                &&& r matches Err(e)
                &&& e == Error::RecordNotFound
                &&& final(store)@ == without_id(old(store)@, row.id)
                &&& final(blobs)@ == old(blobs)@
            },
        },
{
    let id = match resolve(store, kind, alias, now) {
        Ok(record) => record.id,
        Err(e) => {
            return Err(e);
        },
    };
    proof {
        lemma_id_index(store@, id, alias_index(store@, kind, alias@));
    }
    let content = match blobs.read(id) {
        Some(bytes) => copy_of(bytes),
        None => {
            store.delete(id);
            return Err(Error::RecordNotFound);
        },
    };
    let (status, reclaimed) = account_fetch_reporting(store, blobs, id);
    Ok(Download { id, content, status, reclaimed })
}

/// While units are left, each fetch takes exactly one: after `count`
/// fetches of a file with an allowance of `allowance`, `count` below it,
/// the file is still there, with `allowance - count` units.
pub proof fn lemma_fetches_count_down(rows: Seq<RecordView>, id: u64, allowance: u16, count: nat)
    requires
        rows_wf(rows),
        has_id(rows, id),
        rows[id_index(rows, id)].downloads_remaining == Some(allowance),
        count < allowance,
    ensures
        rows_wf(rows_after_fetches(rows, id, count)),
        has_id(rows_after_fetches(rows, id, count), id),
        rows_after_fetches(rows, id, count)[id_index(
            rows_after_fetches(rows, id, count),
            id,
        )].downloads_remaining == Some((allowance - count) as u16),
    decreases count,
{
    if count > 0 {
        lemma_fetches_count_down(rows, id, allowance, (count - 1) as nat);
        let before = rows_after_fetches(rows, id, (count - 1) as nat);
        let i = id_index(before, id);
        let left = (allowance - count) as u16;
        assert(action_for(before[i].downloads_remaining) == FetchAction::Decrement(left));
        let after = before.update(i, before[i].with_downloads(Some(left)));
        assert(rows_after_fetches(rows, id, count) == after);
        lemma_downloads_keep_wf(before, i, Some(left));
        lemma_id_index(after, id, i);
    }
}

/// A file with an allowance of `allowance`, at least one, is served exactly
/// that many times. Each fetch but the last leaves it live, the last one
/// reclaims it, and every fetch after that finds it dead: it is reclaimed
/// once, and never served again.
pub proof fn law_allowance_is_exact(rows: Seq<RecordView>, id: u64, allowance: u16, count: nat)
    requires
        rows_wf(rows),
        has_id(rows, id),
        rows[id_index(rows, id)].downloads_remaining == Some(allowance),
        allowance >= 1,
    ensures
        fetch_outcome(rows_after_fetches(rows, id, count), id) == if count + 1 < allowance {
            FetchOutcome::ServedAndLive
        } else if count + 1 == allowance {
            FetchOutcome::ServedAndReclaimed
        } else {
            FetchOutcome::AlreadyDead
        },
        count >= allowance ==> !has_id(rows_after_fetches(rows, id, count), id),
    decreases count,
{
    if count < allowance {
        lemma_fetches_count_down(rows, id, allowance, count);
    } else {
        law_allowance_is_exact(rows, id, allowance, (count - 1) as nat);
        let before = rows_after_fetches(rows, id, (count - 1) as nat);
        if count == allowance {
            lemma_fetches_count_down(rows, id, allowance, (count - 1) as nat);
            lemma_remove_keeps_wf(before, id_index(before, id));
        }
    }
}

} // verus!
