//! Admission: whether an uploader may store one more file of a given size.
//!
//! Usage is computed from the rows that are live at the moment of the
//! question; no running counter is kept, so nothing can drift when rows
//! expire. A row that is dead but not yet removed holds no quota.

use crate::record::RecordView;
use crate::store::{counts_towards, live_count, live_size, MetadataStore};
use vstd::prelude::*;

verus! {

/// The limits that usage is held to.
#[derive(Clone, Copy, Debug, PartialEq, Eq, Structural)]
pub struct Ceilings {
    /// Most bytes that one origin may hold.
    pub origin_size: u64,
    /// Most files that one origin may hold.
    pub origin_count: usize,
    /// Most bytes that all origins together may hold.
    pub global_size: u64,
}

/// Why an upload is refused.
#[derive(Clone, Copy, Debug, PartialEq, Eq, Structural)]
pub enum Rejection {
    /// The origin would hold more bytes than one origin may.
    OriginQuotaExceeded,
    /// The origin would hold more files than one origin may.
    OriginFileCountExceeded,
    /// All origins together would hold more bytes than they may.
    GlobalQuotaExceeded,
    /// The file is larger than the retention table allows.
    NoMatchingThreshold,
}

/// The answer to an admission question.
#[derive(Clone, Copy, Debug, PartialEq, Eq, Structural)]
pub enum Admission {
    Admitted,
    Rejected(Rejection),
}

/// The admission rule. The three limits are tested in a fixed order, and
/// the first one that the upload would break names the reason.
pub open spec fn admission(
    ceilings: Ceilings,
    origin_size: int,
    origin_count: int,
    global_size: int,
    size: u64,
) -> Admission {
    if origin_size + size > ceilings.origin_size {
        Admission::Rejected(Rejection::OriginQuotaExceeded)
    } else if origin_count + 1 > ceilings.origin_count {
        Admission::Rejected(Rejection::OriginFileCountExceeded)
    } else if global_size + size > ceilings.global_size {
        Admission::Rejected(Rejection::GlobalQuotaExceeded)
    } else {
        Admission::Admitted
    }
}

/// The admission rule applied to the usage that the rows show at `now`.
pub open spec fn admission_of(
    ceilings: Ceilings,
    rows: Seq<RecordView>,
    origin: Seq<char>,
    size: u64,
    now: u64,
) -> Admission {
    admission(
        ceilings,
        live_size(rows, Some(origin), now),
        live_count(rows, Some(origin), now),
        live_size(rows, None, now),
        size,
    )
}

/// At `now` every origin, and all origins together, are within the limits.
pub open spec fn within_ceilings(rows: Seq<RecordView>, ceilings: Ceilings, now: u64) -> bool {
    &&& live_size(rows, None, now) <= ceilings.global_size
    &&& forall|origin: Seq<char>| #[trigger]
        live_size(rows, Some(origin), now) <= ceilings.origin_size
    &&& forall|origin: Seq<char>| #[trigger]
        live_count(rows, Some(origin), now) <= ceilings.origin_count
}

/// What one row adds to the bytes of `origin` at `now`.
pub open spec fn size_share(row: RecordView, origin: Option<Seq<char>>, now: u64) -> int {
    if counts_towards(row, origin, now) {
        row.size_bytes as int
    } else {
        0
    }
}

/// What one row adds to the file count of `origin` at `now`.
pub open spec fn count_share(row: RecordView, origin: Option<Seq<char>>, now: u64) -> int {
    if counts_towards(row, origin, now) {
        1
    } else {
        0
    }
}

impl Ceilings {
    /// The admission rule on given usage figures.
    pub fn decide(&self, origin_size: u128, origin_count: usize, global_size: u128, size: u64) -> (a:
        Admission)
        ensures
            a == admission(*self, origin_size as int, origin_count as int, global_size as int, size),
    {
        if origin_size > self.origin_size as u128 || size as u128 > self.origin_size as u128
            - origin_size {
            Admission::Rejected(Rejection::OriginQuotaExceeded)
        } else if origin_count >= self.origin_count {
            Admission::Rejected(Rejection::OriginFileCountExceeded)
        } else if global_size > self.global_size as u128 || size as u128 > self.global_size as u128
            - global_size {
            Admission::Rejected(Rejection::GlobalQuotaExceeded)
        } else {
            Admission::Admitted
        }
    }

    /// Whether `origin` may upload `size` more bytes as one more file at
    /// `now`, judged by the rows that are live at `now`.
    pub fn admission_for(&self, store: &MetadataStore, origin: &String, size: u64, now: u64) -> (a:
        Admission)
        ensures
            a == admission_of(*self, store@, origin@, size, now),
    {
        let own = store.sum_size_and_count(Some(origin), now);
        let all = store.sum_size_and_count(None, now);
        self.decide(own.0, own.1, all.0, size)
    }
}

/// A new row adds its share to the usage.
pub proof fn lemma_usage_push(
    rows: Seq<RecordView>,
    row: RecordView,
    origin: Option<Seq<char>>,
    now: u64,
)
    ensures
        live_size(rows.push(row), origin, now) == live_size(rows, origin, now) + size_share(
            row,
            origin,
            now,
        ),
        live_count(rows.push(row), origin, now) == live_count(rows, origin, now) + count_share(
            row,
            origin,
            now,
        ),
{
    assert(rows.push(row).drop_last() =~= rows);
}

/// A removed row takes its share out of the usage.
pub proof fn lemma_usage_remove(
    rows: Seq<RecordView>,
    i: int,
    origin: Option<Seq<char>>,
    now: u64,
)
    requires
        0 <= i < rows.len(),
    ensures
        live_size(rows.remove(i), origin, now) == live_size(rows, origin, now) - size_share(
            rows[i],
            origin,
            now,
        ),
        live_count(rows.remove(i), origin, now) == live_count(rows, origin, now) - count_share(
            rows[i],
            origin,
            now,
        ),
    decreases rows.len(),
{
    if i == rows.len() - 1 {
        assert(rows.remove(i) =~= rows.drop_last());
    } else {
        lemma_usage_remove(rows.drop_last(), i, origin, now);
        assert(rows.remove(i).drop_last() =~= rows.drop_last().remove(i));
        assert(rows.remove(i).last() == rows.last());
        assert(rows.drop_last()[i] == rows[i]);
    }
}

/// A changed row changes the usage by the difference of its shares.
pub proof fn lemma_usage_update(
    rows: Seq<RecordView>,
    i: int,
    row: RecordView,
    origin: Option<Seq<char>>,
    now: u64,
)
    requires
        0 <= i < rows.len(),
    ensures
        live_size(rows.update(i, row), origin, now) == live_size(rows, origin, now) - size_share(
            rows[i],
            origin,
            now,
        ) + size_share(row, origin, now),
        live_count(rows.update(i, row), origin, now) == live_count(rows, origin, now)
            - count_share(rows[i], origin, now) + count_share(row, origin, now),
    decreases rows.len(),
{
    if i == rows.len() - 1 {
        assert(rows.update(i, row).drop_last() =~= rows.drop_last());
    } else {
        lemma_usage_update(rows.drop_last(), i, row, origin, now);
        assert(rows.update(i, row).drop_last() =~= rows.drop_last().update(i, row));
        assert(rows.update(i, row).last() == rows.last());
        assert(rows.drop_last()[i] == rows[i]);
    }
}

/// Usage only goes down as time passes: a row that is dead stays dead.
pub proof fn lemma_usage_later(
    rows: Seq<RecordView>,
    origin: Option<Seq<char>>,
    now: u64,
    later: u64,
)
    requires
        now <= later,
    ensures
        live_size(rows, origin, later) <= live_size(rows, origin, now),
        live_count(rows, origin, later) <= live_count(rows, origin, now),
    decreases rows.len(),
{
    if rows.len() > 0 {
        lemma_usage_later(rows.drop_last(), origin, now, later);
    }
}

/// An index without rows is within any limits.
pub proof fn law_empty_within_ceilings(ceilings: Ceilings, now: u64)
    ensures
        within_ceilings(Seq::<RecordView>::empty(), ceilings, now),
{
}

/// Admission keeps usage within the limits: where the rows are within the
/// limits at `now` and an upload of `row.size_bytes` bytes by `row.origin`
/// is admitted at `now`, the rows with the new row are within the limits.
pub proof fn law_admitted_upload_within_ceilings(
    rows: Seq<RecordView>,
    ceilings: Ceilings,
    row: RecordView,
    now: u64,
)
    requires
        within_ceilings(rows, ceilings, now),
        admission_of(ceilings, rows, row.origin, row.size_bytes, now) == Admission::Admitted,
    ensures
        within_ceilings(rows.push(row), ceilings, now),
{
    let after = rows.push(row);
    lemma_usage_push(rows, row, None, now);
    assert forall|origin: Seq<char>| #[trigger]
        live_size(after, Some(origin), now) <= ceilings.origin_size by {
        lemma_usage_push(rows, row, Some(origin), now);
        assert(live_size(rows, Some(origin), now) <= ceilings.origin_size);
    }
    assert forall|origin: Seq<char>| #[trigger]
        live_count(after, Some(origin), now) <= ceilings.origin_count by {
        lemma_usage_push(rows, row, Some(origin), now);
        assert(live_count(rows, Some(origin), now) <= ceilings.origin_count);
    }
}

/// Usage that is within the limits stays within them as time passes.
pub proof fn law_within_ceilings_later(
    rows: Seq<RecordView>,
    ceilings: Ceilings,
    now: u64,
    later: u64,
)
    requires
        within_ceilings(rows, ceilings, now),
        now <= later,
    ensures
        within_ceilings(rows, ceilings, later),
{
    lemma_usage_later(rows, None, now, later);
    assert forall|origin: Seq<char>| #[trigger]
        live_size(rows, Some(origin), later) <= ceilings.origin_size by {
        lemma_usage_later(rows, Some(origin), now, later);
        assert(live_size(rows, Some(origin), now) <= ceilings.origin_size);
    }
    assert forall|origin: Seq<char>| #[trigger]
        live_count(rows, Some(origin), later) <= ceilings.origin_count by {
        lemma_usage_later(rows, Some(origin), now, later);
        assert(live_count(rows, Some(origin), now) <= ceilings.origin_count);
    }
}

/// Removing a row keeps usage within the limits.
pub proof fn law_removal_within_ceilings(
    rows: Seq<RecordView>,
    ceilings: Ceilings,
    i: int,
    now: u64,
)
    requires
        within_ceilings(rows, ceilings, now),
        0 <= i < rows.len(),
    ensures
        within_ceilings(rows.remove(i), ceilings, now),
{
    let after = rows.remove(i);
    lemma_usage_remove(rows, i, None, now);
    assert forall|origin: Seq<char>| #[trigger]
        live_size(after, Some(origin), now) <= ceilings.origin_size by {
        lemma_usage_remove(rows, i, Some(origin), now);
        assert(live_size(rows, Some(origin), now) <= ceilings.origin_size);
    }
    assert forall|origin: Seq<char>| #[trigger]
        live_count(after, Some(origin), now) <= ceilings.origin_count by {
        lemma_usage_remove(rows, i, Some(origin), now);
        assert(live_count(rows, Some(origin), now) <= ceilings.origin_count);
    }
}

/// Changing a live row's download allowance or aliases keeps usage within
/// the limits: a row that is only changed so, and that was live, adds no
/// more than it did.
pub proof fn law_change_within_ceilings(
    rows: Seq<RecordView>,
    ceilings: Ceilings,
    i: int,
    row: RecordView,
    now: u64,
)
    requires
        within_ceilings(rows, ceilings, now),
        0 <= i < rows.len(),
        rows[i].is_live(now),
        row.origin == rows[i].origin,
        row.size_bytes == rows[i].size_bytes,
    ensures
        within_ceilings(rows.update(i, row), ceilings, now),
{
    let after = rows.update(i, row);
    lemma_usage_update(rows, i, row, None, now);
    assert forall|origin: Seq<char>| #[trigger]
        live_size(after, Some(origin), now) <= ceilings.origin_size by {
        lemma_usage_update(rows, i, row, Some(origin), now);
        assert(live_size(rows, Some(origin), now) <= ceilings.origin_size);
    }
    assert forall|origin: Seq<char>| #[trigger]
        live_count(after, Some(origin), now) <= ceilings.origin_count by {
        lemma_usage_update(rows, i, row, Some(origin), now);
        assert(live_count(rows, Some(origin), now) <= ceilings.origin_count);
    }
}

} // verus!
