//! Resolution: from an alias or an id to the file, if it may be served.
//!
//! A dead file resolves exactly as one that never existed.

use crate::error::Error;
use crate::record::{AliasKind, RecordView, UploadRecord};
use crate::store::{alias_index, alias_taken, has_id, id_index, MetadataStore};
use vstd::prelude::*;

verus! {

/// The row that an alias of the given kind resolves to at `now`: the row
/// that has the alias, if it is live.
pub open spec fn resolved(rows: Seq<RecordView>, kind: AliasKind, alias: Seq<char>, now: u64) -> Option<
    RecordView,
> {
    if alias_taken(rows, kind, alias) && rows[alias_index(rows, kind, alias)].is_live(now) {
        Some(rows[alias_index(rows, kind, alias)])
    } else {
        None
    }
}

/// The row that an id resolves to at `now`: the row that has the id, if it
/// is live.
pub open spec fn resolved_id(rows: Seq<RecordView>, id: u64, now: u64) -> Option<RecordView> {
    if has_id(rows, id) && rows[id_index(rows, id)].is_live(now) {
        Some(rows[id_index(rows, id)])
    } else {
        None
    }
}

/// The live file that has this alias of this kind.
pub fn resolve(store: &MetadataStore, kind: AliasKind, alias: &String, now: u64) -> (r: Result<
    UploadRecord,
    Error,
>)
    requires
        store.wf(),
    ensures
        match r {
            Ok(record) => resolved(store@, kind, alias@, now) == Some(record@),
            Err(e) => e == Error::RecordNotFound && resolved(store@, kind, alias@, now) is None,
        },
{
    match store.position_of_alias(kind, alias) {
        Some(i) => {
            let row = store.row(i);
            if row.is_live(now) {
                Ok(row.clone())
            } else {
                Err(Error::RecordNotFound)
            }
        },
        None => Err(Error::RecordNotFound),
    }
}

/// The live file that has this id.
pub fn resolve_id(store: &MetadataStore, id: u64, now: u64) -> (r: Result<UploadRecord, Error>)
    requires
        store.wf(),
    ensures
        match r {
            Ok(record) => resolved_id(store@, id, now) == Some(record@),
            Err(e) => e == Error::RecordNotFound && resolved_id(store@, id, now) is None,
        },
{
    match store.position_of_id(id) {
        Some(i) => {
            let row = store.row(i);
            if row.is_live(now) {
                Ok(row.clone())
            } else {
                Err(Error::RecordNotFound)
            }
        },
        None => Err(Error::RecordNotFound),
    }
}

} // verus!
