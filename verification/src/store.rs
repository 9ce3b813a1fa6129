//! The metadata index: one row per stored file, kept in insertion order.
//!
//! Ids are unique among the rows, and so are the aliases of each kind. Every
//! change goes through a method that keeps it so.

use crate::record::{AliasKind, RecordView, UploadRecord};
use vstd::prelude::*;

verus! {

/// Some row has this id.
pub open spec fn has_id(rows: Seq<RecordView>, id: u64) -> bool {
    exists|i: int| 0 <= i < rows.len() && (#[trigger] rows[i]).id == id
}

/// The position of a row with this id, where there is one.
pub open spec fn id_index(rows: Seq<RecordView>, id: u64) -> int {
    choose|i: int| 0 <= i < rows.len() && (#[trigger] rows[i]).id == id
}

/// Some row has this alias of this kind.
pub open spec fn alias_taken(rows: Seq<RecordView>, kind: AliasKind, alias: Seq<char>) -> bool {
    exists|i: int| 0 <= i < rows.len() && (#[trigger] rows[i]).alias(kind) == alias
}

/// The position of a row with this alias of this kind, where there is one.
pub open spec fn alias_index(rows: Seq<RecordView>, kind: AliasKind, alias: Seq<char>) -> int {
    choose|i: int| 0 <= i < rows.len() && (#[trigger] rows[i]).alias(kind) == alias
}

/// No two rows share an id.
pub open spec fn ids_unique(rows: Seq<RecordView>) -> bool {
    forall|i: int, j: int|
        0 <= i < rows.len() && 0 <= j < rows.len() && (#[trigger] rows[i]).id == (
        #[trigger] rows[j]).id ==> i == j
}

/// No two rows share an alias of this kind.
pub open spec fn aliases_unique(rows: Seq<RecordView>, kind: AliasKind) -> bool {
    forall|i: int, j: int|
        0 <= i < rows.len() && 0 <= j < rows.len() && (#[trigger] rows[i]).alias(kind) == (
        #[trigger] rows[j]).alias(kind) ==> i == j
}

/// The rows form a valid index.
pub open spec fn rows_wf(rows: Seq<RecordView>) -> bool {
    &&& ids_unique(rows)
    &&& aliases_unique(rows, AliasKind::Short)
    &&& aliases_unique(rows, AliasKind::Long)
}

/// The rows without the one that has this id; all of them where none has.
pub open spec fn without_id(rows: Seq<RecordView>, id: u64) -> Seq<RecordView> {
    if has_id(rows, id) {
        rows.remove(id_index(rows, id))
    } else {
        rows
    }
}

/// The ids of the rows whose retention is over at `now`, in row order.
pub open spec fn expired_ids(rows: Seq<RecordView>, now: u64) -> Seq<u64>
    decreases rows.len(),
{
    if rows.len() == 0 {
        Seq::empty()
    } else if rows.last().is_expired(now) {
        expired_ids(rows.drop_last(), now).push(rows.last().id)
    } else {
        expired_ids(rows.drop_last(), now)
    }
}

/// Whether a row counts towards the usage of `origin` at `now`: it is live,
/// and is the origin's own where an origin is given.
pub open spec fn counts_towards(row: RecordView, origin: Option<Seq<char>>, now: u64) -> bool {
    row.is_live(now) && (origin matches Some(o) ==> row.origin == o)
}

/// Bytes held at `now` by the live rows of `origin`, or of everyone where
/// no origin is given.
pub open spec fn live_size(rows: Seq<RecordView>, origin: Option<Seq<char>>, now: u64) -> int
    decreases rows.len(),
{
    if rows.len() == 0 {
        0
    } else {
        live_size(rows.drop_last(), origin, now) + if counts_towards(rows.last(), origin, now) {
            rows.last().size_bytes as int
        } else {
            0
        }
    }
}

/// Number of live rows at `now` of `origin`, or of everyone where no origin
/// is given.
pub open spec fn live_count(rows: Seq<RecordView>, origin: Option<Seq<char>>, now: u64) -> int
    decreases rows.len(),
{
    if rows.len() == 0 {
        0
    } else {
        live_count(rows.drop_last(), origin, now) + if counts_towards(rows.last(), origin, now) {
            1int
        } else {
            0
        }
    }
}

/// The views of the rows, in order.
pub open spec fn views_of(rows: Seq<UploadRecord>) -> Seq<RecordView> {
    Seq::new(rows.len(), |i: int| rows[i]@)
}

/// With unique ids, a row that has the id is the one `id_index` names.
pub proof fn lemma_id_index(rows: Seq<RecordView>, id: u64, i: int)
    requires
        ids_unique(rows),
        0 <= i < rows.len(),
        rows[i].id == id,
    ensures
        has_id(rows, id),
        id_index(rows, id) == i,
{
}

/// With unique aliases, a row that has the alias is the one `alias_index`
/// names.
pub proof fn lemma_alias_index(rows: Seq<RecordView>, kind: AliasKind, alias: Seq<char>, i: int)
    requires
        aliases_unique(rows, kind),
        0 <= i < rows.len(),
        rows[i].alias(kind) == alias,
    ensures
        alias_taken(rows, kind, alias),
        alias_index(rows, kind, alias) == i,
{
}

/// Removing a row keeps the index valid, and takes the row's id and aliases
/// out of it.
pub proof fn lemma_remove_keeps_wf(rows: Seq<RecordView>, i: int)
    requires
        rows_wf(rows),
        0 <= i < rows.len(),
    ensures
        rows_wf(rows.remove(i)),
        !has_id(rows.remove(i), rows[i].id),
        !alias_taken(rows.remove(i), AliasKind::Short, rows[i].short_alias),
        !alias_taken(rows.remove(i), AliasKind::Long, rows[i].long_alias),
{
    let after = rows.remove(i);
    assert forall|j: int| 0 <= j < after.len() implies #[trigger] after[j] == rows[if j < i {
        j
    } else {
        j + 1
    }] by {}
    assert(ids_unique(after)) by {
        assert forall|a: int, b: int|
            0 <= a < after.len() && 0 <= b < after.len() && (#[trigger] after[a]).id == (
            #[trigger] after[b]).id implies a == b by {
            let a0 = if a < i { a } else { a + 1 };
            let b0 = if b < i { b } else { b + 1 };
            assert(rows[a0].id == rows[b0].id);
        }
    }
    assert(aliases_unique(after, AliasKind::Short)) by {
        assert forall|a: int, b: int|
            0 <= a < after.len() && 0 <= b < after.len() && (#[trigger] after[a]).alias(
                AliasKind::Short,
            ) == (#[trigger] after[b]).alias(AliasKind::Short) implies a == b by {
            let a0 = if a < i { a } else { a + 1 };
            let b0 = if b < i { b } else { b + 1 };
            assert(rows[a0].alias(AliasKind::Short) == rows[b0].alias(AliasKind::Short));
        }
    }
    assert(aliases_unique(after, AliasKind::Long)) by {
        assert forall|a: int, b: int|
            0 <= a < after.len() && 0 <= b < after.len() && (#[trigger] after[a]).alias(
                AliasKind::Long,
            ) == (#[trigger] after[b]).alias(AliasKind::Long) implies a == b by {
            let a0 = if a < i { a } else { a + 1 };
            let b0 = if b < i { b } else { b + 1 };
            assert(rows[a0].alias(AliasKind::Long) == rows[b0].alias(AliasKind::Long));
        }
    }
    assert(!has_id(after, rows[i].id)) by {
        if has_id(after, rows[i].id) {
            let j = id_index(after, rows[i].id);
            let j0 = if j < i { j } else { j + 1 };
            assert(rows[j0].id == rows[i].id);
        }
    }
    assert(!alias_taken(after, AliasKind::Short, rows[i].short_alias)) by {
        if alias_taken(after, AliasKind::Short, rows[i].short_alias) {
            let j = alias_index(after, AliasKind::Short, rows[i].short_alias);
            let j0 = if j < i { j } else { j + 1 };
            assert(rows[j0].alias(AliasKind::Short) == rows[i].alias(AliasKind::Short));
        }
    }
    assert(!alias_taken(after, AliasKind::Long, rows[i].long_alias)) by {
        if alias_taken(after, AliasKind::Long, rows[i].long_alias) {
            let j = alias_index(after, AliasKind::Long, rows[i].long_alias);
            let j0 = if j < i { j } else { j + 1 };
            assert(rows[j0].alias(AliasKind::Long) == rows[i].alias(AliasKind::Long));
        }
    }
}

/// The rows, with the download allowance of the one that has this id set
/// to `downloads`; unchanged where none has.
pub open spec fn with_downloads_of(rows: Seq<RecordView>, id: u64, downloads: Option<u16>) -> Seq<
    RecordView,
> {
    if has_id(rows, id) {
        let i = id_index(rows, id);
        rows.update(i, rows[i].with_downloads(downloads))
    } else {
        rows
    }
}

/// Why an alias cannot be given to a row.
#[derive(Clone, Copy, Debug, PartialEq, Eq, Structural)]
pub enum ReserveError {
    /// No row has the id.
    NoSuchRecord,
    /// A row already has this alias of this kind.
    AliasTaken,
}

/// The outcome that uniqueness dictates for giving `alias` to the row with
/// this id.
pub open spec fn reserve_outcome(
    rows: Seq<RecordView>,
    id: u64,
    kind: AliasKind,
    alias: Seq<char>,
) -> Result<(), ReserveError> {
    if !has_id(rows, id) {
        Err(ReserveError::NoSuchRecord)
    } else if alias_taken(rows, kind, alias) {
        Err(ReserveError::AliasTaken)
    } else {
        Ok(())
    }
}

/// The rows, with the alias of the one that has this id replaced.
pub open spec fn with_alias_of(
    rows: Seq<RecordView>,
    id: u64,
    kind: AliasKind,
    alias: Seq<char>,
) -> Seq<RecordView> {
    let i = id_index(rows, id);
    rows.update(i, rows[i].with_alias(kind, alias))
}

/// Changing a row's download allowance keeps the index valid.
pub proof fn lemma_downloads_keep_wf(rows: Seq<RecordView>, i: int, downloads: Option<u16>)
    requires
        rows_wf(rows),
        0 <= i < rows.len(),
    ensures
        rows_wf(rows.update(i, rows[i].with_downloads(downloads))),
{
    let after = rows.update(i, rows[i].with_downloads(downloads));
    assert forall|j: int| 0 <= j < after.len() implies (#[trigger] after[j]).id == rows[j].id
        && after[j].alias(AliasKind::Short) == rows[j].alias(AliasKind::Short) && after[j].alias(
        AliasKind::Long,
    ) == rows[j].alias(AliasKind::Long) by {}
}

/// Giving a row an alias that no row has keeps the index valid.
pub proof fn lemma_alias_keeps_wf(rows: Seq<RecordView>, i: int, kind: AliasKind, alias: Seq<char>)
    requires
        rows_wf(rows),
        0 <= i < rows.len(),
        !alias_taken(rows, kind, alias),
    ensures
        rows_wf(rows.update(i, rows[i].with_alias(kind, alias))),
{
    let after = rows.update(i, rows[i].with_alias(kind, alias));
    let other = match kind {
        AliasKind::Short => AliasKind::Long,
        AliasKind::Long => AliasKind::Short,
    };
    assert forall|j: int| 0 <= j < after.len() implies (#[trigger] after[j]).id == rows[j].id
        && after[j].alias(other) == rows[j].alias(other) && (j != i ==> after[j].alias(kind)
        == rows[j].alias(kind)) && (j == i ==> after[j].alias(kind) == alias) by {}
    assert(aliases_unique(after, other));
    assert(aliases_unique(after, kind)) by {
        assert forall|a: int, b: int|
            0 <= a < after.len() && 0 <= b < after.len() && (#[trigger] after[a]).alias(kind) == (
            #[trigger] after[b]).alias(kind) implies a == b by {
            if a == i && b != i {
                assert(rows[b].alias(kind) == alias);
            }
            if b == i && a != i {
                assert(rows[a].alias(kind) == alias);
            }
        }
    }
}

/// Why a row cannot be inserted.
#[derive(Clone, Copy, Debug, PartialEq, Eq, Structural)]
pub enum InsertError {
    /// A row with this id is already there.
    DuplicateId,
    /// A row with this short alias is already there.
    ShortAliasTaken,
    /// A row with this long alias is already there.
    LongAliasTaken,
}

/// The outcome that uniqueness dictates for the insertion of `row`.
pub open spec fn insert_outcome(rows: Seq<RecordView>, row: RecordView) -> Result<(), InsertError> {
    if has_id(rows, row.id) {
        Err(InsertError::DuplicateId)
    } else if alias_taken(rows, AliasKind::Short, row.short_alias) {
        Err(InsertError::ShortAliasTaken)
    } else if alias_taken(rows, AliasKind::Long, row.long_alias) {
        Err(InsertError::LongAliasTaken)
    } else {
        Ok(())
    }
}

/// The metadata index.
pub struct MetadataStore {
    rows: Vec<UploadRecord>,
}

impl View for MetadataStore {
    type V = Seq<RecordView>;

    closed spec fn view(&self) -> Seq<RecordView> {
        views_of(self.rows@)
    }
}

impl MetadataStore {
    /// Ids and aliases are unique.
    pub open spec fn wf(&self) -> bool {
        rows_wf(self@)
    }

    /// An index without rows.
    pub fn new() -> (s: MetadataStore)
        ensures
            s@ == Seq::<RecordView>::empty(),
            s.wf(),
    {
        let s = MetadataStore { rows: Vec::new() };
        assert(s@ =~= Seq::<RecordView>::empty());
        s
    }

    /// The number of rows.
    pub fn len(&self) -> (n: usize)
        ensures
            n == self@.len(),
    {
        self.rows.len()
    }

    /// The position of the row with this id.
    pub fn position_of_id(&self, id: u64) -> (r: Option<usize>)
        requires
            self.wf(),
        ensures
            match r {
                Some(i) => i < self@.len() && self@[i as int].id == id && has_id(self@, id)
                    && id_index(self@, id) == i,
                None => !has_id(self@, id),
            },
    {
        let mut i: usize = 0;
        while i < self.rows.len()
            invariant
                self.wf(),
                i <= self.rows.len(),
                forall|j: int| 0 <= j < i ==> (#[trigger] self@[j]).id != id,
            decreases self.rows.len() - i,
        {
            if self.rows[i].id == id {
                proof {
                    lemma_id_index(self@, id, i as int);
                }
                return Some(i);
            }
            i += 1;
        }
        None
    }

    /// The position of the row with this alias of this kind.
    pub fn position_of_alias(&self, kind: AliasKind, alias: &String) -> (r: Option<usize>)
        requires
            self.wf(),
        ensures
            match r {
                Some(i) => i < self@.len() && self@[i as int].alias(kind) == alias@ && alias_taken(
                    self@,
                    kind,
                    alias@,
                ) && alias_index(self@, kind, alias@) == i,
                None => !alias_taken(self@, kind, alias@),
            },
    {
        let mut i: usize = 0;
        while i < self.rows.len()
            invariant
                self.wf(),
                i <= self.rows.len(),
                forall|j: int| 0 <= j < i ==> (#[trigger] self@[j]).alias(kind) != alias@,
            decreases self.rows.len() - i,
        {
            if *self.rows[i].alias(kind) == *alias {
                proof {
                    assert(aliases_unique(self@, kind)) by {
                        match kind {
                            AliasKind::Short => {},
                            AliasKind::Long => {},
                        }
                    }
                    lemma_alias_index(self@, kind, alias@, i as int);
                }
                return Some(i);
            }
            i += 1;
        }
        None
    }

    /// The row at a position.
    pub fn row(&self, i: usize) -> (r: &UploadRecord)
        requires
            i < self@.len(),
        ensures
            r@ == self@[i as int],
    {
        &self.rows[i]
    }

    /// Whether some row has this alias of this kind.
    pub fn alias_in_use(&self, kind: AliasKind, alias: &String) -> (b: bool)
        requires
            self.wf(),
        ensures
            b == alias_taken(self@, kind, alias@),
    {
        self.position_of_alias(kind, alias).is_some()
    }

    /// Adds a row at the end, unless its id or one of its aliases is in
    /// use: the check and the insertion are one step.
    pub fn insert(&mut self, record: UploadRecord) -> (r: Result<(), InsertError>)
        requires
            old(self).wf(),
        ensures
            final(self).wf(),
            r == insert_outcome(old(self)@, record@),
            final(self)@ == if r is Ok {
                old(self)@.push(record@)
            } else {
                old(self)@
            },
    {
        if self.position_of_id(record.id).is_some() {
            return Err(InsertError::DuplicateId);
        }
        if self.alias_in_use(AliasKind::Short, &record.short_alias) {
            return Err(InsertError::ShortAliasTaken);
        }
        if self.alias_in_use(AliasKind::Long, &record.long_alias) {
            return Err(InsertError::LongAliasTaken);
        }
        let ghost before = self@;
        let ghost row = record@;
        self.rows.push(record);
        proof {
            assert(self@ =~= before.push(row));
            let after = self@;
            assert forall|j: int| 0 <= j < before.len() implies #[trigger] after[j] == before[j] by {}
            assert(ids_unique(after));
            assert(aliases_unique(after, AliasKind::Short)) by {
                assert(row.alias(AliasKind::Short) == row.short_alias);
            }
            assert(aliases_unique(after, AliasKind::Long)) by {
                assert(row.alias(AliasKind::Long) == row.long_alias);
            }
        }
        Ok(())
    }

    /// A copy of the row with this id.
    pub fn get_by_id(&self, id: u64) -> (r: Option<UploadRecord>)
        requires
            self.wf(),
        ensures
            match r {
                Some(record) => has_id(self@, id) && record@ == self@[id_index(self@, id)],
                None => !has_id(self@, id),
            },
    {
        match self.position_of_id(id) {
            Some(i) => Some(self.rows[i].clone()),
            None => None,
        }
    }

    /// A copy of the row with this alias of this kind.
    pub fn get_by_alias(&self, kind: AliasKind, alias: &String) -> (r: Option<UploadRecord>)
        requires
            self.wf(),
        ensures
            match r {
                Some(record) => alias_taken(self@, kind, alias@) && record@ == self@[alias_index(
                    self@,
                    kind,
                    alias@,
                )],
                None => !alias_taken(self@, kind, alias@),
            },
    {
        match self.position_of_alias(kind, alias) {
            Some(i) => Some(self.rows[i].clone()),
            None => None,
        }
    }

    /// Removes the row with this id and returns it; `None`, and no change,
    /// where there is none.
    pub fn delete(&mut self, id: u64) -> (r: Option<UploadRecord>)
        requires
            old(self).wf(),
        ensures
            final(self).wf(),
            final(self)@ == without_id(old(self)@, id),
            !has_id(final(self)@, id),
            match r {
                Some(record) => has_id(old(self)@, id) && record@ == old(self)@[id_index(
                    old(self)@,
                    id,
                )],
                None => !has_id(old(self)@, id),
            },
    {
        match self.position_of_id(id) {
            Some(i) => {
                let ghost before = self@;
                let record = self.rows.remove(i);
                proof {
                    assert(self@ =~= before.remove(i as int));
                    lemma_remove_keeps_wf(before, i as int);
                }
                Some(record)
            },
            None => None,
        }
    }
    /// Sets the download allowance of the row with this id. Returns whether
    /// there is such a row.
    pub fn update_downloads_remaining(&mut self, id: u64, downloads: Option<u16>) -> (found: bool)
        requires
            old(self).wf(),
        ensures
            final(self).wf(),
            found == has_id(old(self)@, id),
            final(self)@ == with_downloads_of(old(self)@, id, downloads),
    {
        match self.position_of_id(id) {
            Some(i) => {
                let ghost before = self@;
                self.rows[i].downloads_remaining = downloads;
                proof {
                    assert(self@ =~= before.update(
                        i as int,
                        before[i as int].with_downloads(downloads),
                    ));
                    lemma_downloads_keep_wf(before, i as int, downloads);
                }
                true
            },
            None => false,
        }
    }

    /// Gives the row with this id a new alias of this kind, unless a row
    /// already has it: the check and the change are one step.
    pub fn reserve_alias(&mut self, id: u64, kind: AliasKind, alias: String) -> (r: Result<
        (),
        ReserveError,
    >)
        requires
            old(self).wf(),
        ensures
            final(self).wf(),
            r == reserve_outcome(old(self)@, id, kind, alias@),
            final(self)@ == if r is Ok {
                with_alias_of(old(self)@, id, kind, alias@)
            } else {
                old(self)@
            },
    {
        match self.position_of_id(id) {
            Some(i) => {
                if self.alias_in_use(kind, &alias) {
                    return Err(ReserveError::AliasTaken);
                }
                let ghost before = self@;
                let ghost text = alias@;
                match kind {
                    AliasKind::Short => {
                        self.rows[i].short_alias = alias;
                    },
                    AliasKind::Long => {
                        self.rows[i].long_alias = alias;
                    },
                }
                proof {
                    assert(self@ =~= before.update(
                        i as int,
                        before[i as int].with_alias(kind, text),
                    ));
                    lemma_alias_keeps_wf(before, i as int, kind, text);
                }
                Ok(())
            },
            None => Err(ReserveError::NoSuchRecord),
        }
    }
    /// Bytes and number of the rows that are live at `now`: those of
    /// `origin`, or of everyone where no origin is given. Computed from the
    /// rows each time; nothing is cached.
    pub fn sum_size_and_count(&self, origin: Option<&String>, now: u64) -> (r: (u128, usize))
        ensures
            r.0 == live_size(
                self@,
                match origin {
                    Some(o) => Some(o@),
                    None => None,
                },
                now,
            ),
            r.1 == live_count(
                self@,
                match origin {
                    Some(o) => Some(o@),
                    None => None,
                },
                now,
            ),
    {
        let ghost whose: Option<Seq<char>> = match origin {
            Some(o) => Some(o@),
            None => None,
        };
        let mut size: u128 = 0;
        let mut count: usize = 0;
        let mut i: usize = 0;
        while i < self.rows.len()
            invariant
                i <= self.rows.len(),
                whose == (match origin {
                    Some(o) => Some(o@),
                    None => None,
                }),
                size == live_size(self@.take(i as int), whose, now),
                count == live_count(self@.take(i as int), whose, now),
                size <= i * u64::MAX,
                count <= i,
            decreases self.rows.len() - i,
        {
            let row = &self.rows[i];
            let of_origin = match origin {
                Some(o) => row.origin == *o,
                None => true,
            };
            proof {
                assert(self@.take(i + 1).drop_last() =~= self@.take(i as int));
                assert(self@.take(i + 1).last() == row@);
                assert((i + 1) * u64::MAX == i * u64::MAX + u64::MAX) by (nonlinear_arith);
                assert(i * u64::MAX <= usize::MAX * u64::MAX) by (nonlinear_arith)
                    requires
                        i <= usize::MAX,
                ;
                assert(usize::MAX * u64::MAX <= u64::MAX * u64::MAX) by (nonlinear_arith)
                    requires
                        usize::MAX <= u64::MAX,
                ;
                assert(u64::MAX * u64::MAX + u64::MAX <= u128::MAX);
            }
            if row.is_live(now) && of_origin {
                size = size + row.size_bytes as u128;
                count = count + 1;
            }
            i += 1;
        }
        proof {
            assert(self@.take(i as int) =~= self@);
        }
        (size, count)
    }

    /// The ids of the rows whose retention is over at `now`, in row order.
    pub fn list_expired(&self, now: u64) -> (ids: Vec<u64>)
        ensures
            ids@ == expired_ids(self@, now),
    {
        let mut ids: Vec<u64> = Vec::new();
        let mut i: usize = 0;
        while i < self.rows.len()
            invariant
                i <= self.rows.len(),
                ids@ == expired_ids(self@.take(i as int), now),
            decreases self.rows.len() - i,
        {
            proof {
                assert(self@.take(i + 1).drop_last() =~= self@.take(i as int));
                assert(self@.take(i + 1).last() == self.rows@[i as int]@);
            }
            if self.rows[i].is_expired(now) {
                ids.push(self.rows[i].id);
            }
            i += 1;
        }
        proof {
            assert(self@.take(i as int) =~= self@);
        }
        ids
    }
}

} // verus!
