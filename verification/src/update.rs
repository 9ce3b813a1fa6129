//! Changes that a file's owner may ask for: revoking the file, setting its
//! download allowance, replacing one of its aliases.
//!
//! Each change needs an alias of a live file together with that file's
//! admin token. A wrong token and an unknown alias are refused alike, so a
//! refusal does not tell whether the file exists.

use crate::alias::{allocate, allocated, lemma_allocated_is_free, texts_of};
use crate::blob::BlobStore;
use crate::error::Error;
use crate::lookup::resolved;
use crate::reclaim::{
    blobs_after_reclaim, reclaim, reclaim_outcome, rows_after_reclaim, ReclaimOutcome,
};
use crate::record::{AliasKind, RecordView};
use crate::store::{
    lemma_id_index, rows_wf, with_alias_of, with_downloads_of, MetadataStore,
};
use vstd::prelude::*;

verus! {

/// The id of the file that the alias and the token open at `now`: the live
/// row that has the alias, if the token is its own.
pub open spec fn authorized(
    rows: Seq<RecordView>,
    kind: AliasKind,
    alias: Seq<char>,
    token: Seq<char>,
    now: u64,
) -> Option<u64> {
    match resolved(rows, kind, alias, now) {
        Some(row) => if row.admin_token == token {
            Some(row.id)
        } else {
            None
        },
        None => None,
    }
}

/// The allowance that a requested count stands for: a count of zero asks
/// for no limit.
pub open spec fn allowance_of(count: u16) -> Option<u16> {
    if count >= 1 {
        Some(count)
    } else {
        None
    }
}

/// The allowance that a requested count stands for.
pub fn allowance(count: u16) -> (a: Option<u16>)
    ensures
        a == allowance_of(count),
{
    if count >= 1 {
        Some(count)
    } else {
        None
    }
}

/// The id of the live file that has this alias, if `token` is its admin
/// token.
pub fn authorize(
    store: &MetadataStore,
    kind: AliasKind,
    alias: &String,
    token: &String,
    now: u64,
) -> (r: Result<u64, Error>)
    requires
        store.wf(),
    ensures
        match r {
            Ok(id) => authorized(store@, kind, alias@, token@, now) == Some(id),
            Err(e) => e == Error::Unauthorized && authorized(store@, kind, alias@, token@, now)
                is None,
        },
{
    match store.position_of_alias(kind, alias) {
        Some(i) => {
            let row = store.row(i);
            if row.is_live(now) && row.authorizes(token) {
                Ok(row.id)
            } else {
                Err(Error::Unauthorized)
            }
        },
        None => Err(Error::Unauthorized),
    }
}

/// An authorized id is the id of a row.
pub proof fn lemma_authorized_has_id(
    rows: Seq<RecordView>,
    kind: AliasKind,
    alias: Seq<char>,
    token: Seq<char>,
    now: u64,
)
    requires
        rows_wf(rows),
        authorized(rows, kind, alias, token, now) is Some,
    ensures
        crate::store::has_id(rows, authorized(rows, kind, alias, token, now).unwrap()),
        crate::store::id_index(rows, authorized(rows, kind, alias, token, now).unwrap())
            == crate::store::alias_index(rows, kind, alias),
        rows[crate::store::alias_index(rows, kind, alias)].is_live(now),
{
    let i = crate::store::alias_index(rows, kind, alias);
    lemma_id_index(rows, rows[i].id, i);
}

/// Revokes the file that the alias and the token open: reclaims it.
pub fn revoke(
    store: &mut MetadataStore,
    blobs: &mut BlobStore,
    kind: AliasKind,
    alias: &String,
    token: &String,
    now: u64,
) -> (r: Result<ReclaimOutcome, Error>)
    requires
        old(store).wf(),
    ensures
        final(store).wf(),
        match authorized(old(store)@, kind, alias@, token@, now) {
            Some(id) => {
                &&& r == Ok::<ReclaimOutcome, Error>(reclaim_outcome(old(store)@, old(blobs)@, id))
                &&& r != Ok::<ReclaimOutcome, Error>(ReclaimOutcome::NotFound)
                &&& final(store)@ == rows_after_reclaim(old(store)@, id)
                &&& final(blobs)@ == blobs_after_reclaim(old(store)@, old(blobs)@, id)
            },
            None => {
                &&& r == Err::<ReclaimOutcome, Error>(Error::Unauthorized)
                &&& final(store)@ == old(store)@
                &&& final(blobs)@ == old(blobs)@
            },
        },
{
    match authorize(store, kind, alias, token, now) {
        Ok(id) => {
            proof {
                lemma_authorized_has_id(store@, kind, alias@, token@, now);
            }
            Ok(reclaim(store, blobs, id))
        },
        Err(e) => Err(e),
    }
}

/// Sets the download allowance of the file that the alias and the token
/// open. A count of zero lifts the limit.
pub fn change_downloads(
    store: &mut MetadataStore,
    kind: AliasKind,
    alias: &String,
    token: &String,
    count: u16,
    now: u64,
) -> (r: Result<(), Error>)
    requires
        old(store).wf(),
    ensures
        final(store).wf(),
        match authorized(old(store)@, kind, alias@, token@, now) {
            Some(id) => {
                &&& r == Ok::<(), Error>(())
                &&& final(store)@ == with_downloads_of(old(store)@, id, allowance_of(count))
            },
            None => {
                &&& r == Err::<(), Error>(Error::Unauthorized)
                &&& final(store)@ == old(store)@
            },
        },
{
    match authorize(store, kind, alias, token, now) {
        Ok(id) => {
            store.update_downloads_remaining(id, allowance(count));
            Ok(())
        },
        Err(e) => Err(e),
    }
}

/// What a change of alias comes to: the new alias, or the error.
pub open spec fn alias_change(
    rows: Seq<RecordView>,
    kind: AliasKind,
    alias: Seq<char>,
    token: Seq<char>,
    which: AliasKind,
    candidates: Seq<Seq<char>>,
    now: u64,
) -> Result<Seq<char>, Error> {
    if authorized(rows, kind, alias, token, now) is None {
        Err(Error::Unauthorized)
    } else {
        match allocated(rows, which, candidates) {
            Some(fresh) => Ok(fresh),
            None => Err(Error::AliasGenerationExhausted),
        }
    }
}

/// Replaces the alias of kind `which` of the file that the alias and the
/// token open by the first candidate that is free. The file keeps its other
/// alias and everything else.
pub fn change_alias(
    store: &mut MetadataStore,
    kind: AliasKind,
    alias: &String,
    token: &String,
    which: AliasKind,
    candidates: &Vec<String>,
    now: u64,
) -> (r: Result<String, Error>)
    requires
        old(store).wf(),
    ensures
        final(store).wf(),
        match alias_change(old(store)@, kind, alias@, token@, which, texts_of(candidates@), now) {
            Ok(fresh) => {
                &&& r matches Ok(given)
                &&& given@ == fresh
                &&& final(store)@ == with_alias_of(
                    old(store)@,
                    authorized(old(store)@, kind, alias@, token@, now).unwrap(),
                    which,
                    fresh,
                )
            },
            Err(e) => {
                &&& r matches Err(got)
                &&& got == e
                &&& final(store)@ == old(store)@
            },
        },
{
    let id = match authorize(store, kind, alias, token, now) {
        Ok(id) => id,
        Err(e) => {
            return Err(e);
        },
    };
    let fresh = match allocate(store, which, candidates) {
        Ok(fresh) => fresh,
        Err(_) => {
            return Err(Error::AliasGenerationExhausted);
        },
    };
    proof {
        lemma_authorized_has_id(store@, kind, alias@, token@, now);
        lemma_allocated_is_free(store@, which, texts_of(candidates@));
    }
    let given = fresh.clone();
    let reserved = store.reserve_alias(id, which, fresh);
    assert(reserved is Ok);
    Ok(given)
}

} // verus!
