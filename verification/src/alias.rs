//! Alias allocation: a fresh alias for a file, out of candidates that the
//! caller has drawn at random.
//!
//! Each candidate costs one attempt, and only the first `MAX_ATTEMPTS`
//! candidates are tried. The allocator only ever proposes an alias that no row
//! of the index has at that moment; the index then takes it in one checked
//! step (`MetadataStore::insert`, `MetadataStore::reserve_alias`). Both take
//! the index by exclusive borrow, so no other allocation can come between.

use crate::parse::{find, lemma_first_position};
use crate::record::{AliasKind, RecordView};
use crate::store::{
    alias_taken, has_id, id_index, lemma_alias_keeps_wf, rows_wf, with_alias_of, MetadataStore,
};
use vstd::prelude::*;

verus! {

/// The most candidates that one allocation tries.
pub const MAX_ATTEMPTS: usize = 20;

/// Every candidate that was tried was in use: no alias could be allocated.
#[derive(Clone, Copy, Debug, PartialEq, Eq, Structural)]
pub struct AliasGenerationExhausted;

/// The candidates as sequences of characters.
pub open spec fn texts_of(candidates: Seq<String>) -> Seq<Seq<char>> {
    Seq::new(candidates.len(), |i: int| candidates[i]@)
}

/// Position of the first candidate that no row has as an alias of this
/// kind, or the number of candidates when all are in use.
pub open spec fn first_free(rows: Seq<RecordView>, kind: AliasKind, candidates: Seq<Seq<char>>) -> int
    decreases candidates.len(),
{
    if candidates.len() == 0 {
        0
    } else if !alias_taken(rows, kind, candidates[0]) {
        0
    } else {
        1 + first_free(rows, kind, candidates.drop_first())
    }
}

/// The candidates that an allocation tries: the first `MAX_ATTEMPTS`, or
/// all of them where there are fewer.
pub open spec fn attempted(candidates: Seq<Seq<char>>) -> Seq<Seq<char>> {
    if candidates.len() <= MAX_ATTEMPTS {
        candidates
    } else {
        candidates.take(MAX_ATTEMPTS as int)
    }
}

/// The alias that allocation yields: the first of the candidates tried
/// that is free.
pub open spec fn allocated(rows: Seq<RecordView>, kind: AliasKind, candidates: Seq<Seq<char>>) -> Option<
    Seq<char>,
> {
    let tried = attempted(candidates);
    let k = first_free(rows, kind, tried);
    if k < tried.len() {
        Some(tried[k])
    } else {
        None
    }
}

/// The namespace that an alias belongs to, by its shape: long aliases are
/// hyphenated, short ones are not.
pub open spec fn kind_of_text(alias: Seq<char>) -> AliasKind {
    if alias.contains('-') {
        AliasKind::Long
    } else {
        AliasKind::Short
    }
}

/// An alias that is allocated is free.
pub proof fn lemma_allocated_is_free(
    rows: Seq<RecordView>,
    kind: AliasKind,
    candidates: Seq<Seq<char>>,
)
    ensures
        allocated(rows, kind, candidates) matches Some(alias) ==> !alias_taken(rows, kind, alias),
{
    lemma_first_free(rows, kind, attempted(candidates));
}

/// `first_free` is the least position of a free candidate.
pub proof fn lemma_first_free(rows: Seq<RecordView>, kind: AliasKind, candidates: Seq<Seq<char>>)
    ensures
        0 <= first_free(rows, kind, candidates) <= candidates.len(),
        forall|j: int|
            0 <= j < first_free(rows, kind, candidates) ==> alias_taken(
                rows,
                kind,
                #[trigger] candidates[j],
            ),
        first_free(rows, kind, candidates) < candidates.len() ==> !alias_taken(
            rows,
            kind,
            candidates[first_free(rows, kind, candidates)],
        ),
    decreases candidates.len(),
{
    if candidates.len() > 0 && alias_taken(rows, kind, candidates[0]) {
        let rest = candidates.drop_first();
        lemma_first_free(rows, kind, rest);
        assert forall|j: int| 0 <= j < first_free(rows, kind, candidates) implies alias_taken(
            rows,
            kind,
            #[trigger] candidates[j],
        ) by {
            if j > 0 {
                assert(candidates[j] == rest[j - 1]);
            }
        }
        let k = first_free(rows, kind, rest);
        if k < rest.len() {
            assert(candidates[k + 1] == rest[k]);
        }
    }
}

/// A free candidate with only used ones before it is the one that
/// `first_free` names.
pub proof fn lemma_first_free_is(
    rows: Seq<RecordView>,
    kind: AliasKind,
    candidates: Seq<Seq<char>>,
    k: int,
)
    requires
        0 <= k <= candidates.len(),
        forall|j: int| 0 <= j < k ==> alias_taken(rows, kind, #[trigger] candidates[j]),
        k < candidates.len() ==> !alias_taken(rows, kind, candidates[k]),
    ensures
        first_free(rows, kind, candidates) == k,
{
    lemma_first_free(rows, kind, candidates);
    let f = first_free(rows, kind, candidates);
    if f < k {
        assert(alias_taken(rows, kind, candidates[f]));
    } else if k < f {
        assert(alias_taken(rows, kind, candidates[k]));
    }
}

/// The characters of a short alias: letters and digits.
pub open spec fn short_alphabet() -> Seq<char> {
    "abcdefghijklmnopqrstuvwxyzABCDEFGHIJKLMNOPQRSTUVWXYZ0123456789"@
}

/// The characters of the words of a long alias: small letters.
pub open spec fn long_alphabet() -> Seq<char> {
    "abcdefghijklmnopqrstuvwxyz"@
}

/// The first `length` digits of `seed` in the number system whose digits
/// are the characters of `alphabet`, lowest digit first.
pub open spec fn spelled(seed: nat, alphabet: Seq<char>, length: nat) -> Seq<char>
    decreases length,
{
    if length == 0 {
        Seq::empty()
    } else {
        seq![alphabet[(seed % alphabet.len()) as int]] + spelled(
            seed / alphabet.len(),
            alphabet,
            (length - 1) as nat,
        )
    }
}

/// The candidate alias that a seed stands for. A short alias has six
/// characters out of sixty-two. A long alias has three words of four small
/// letters each, joined by hyphens.
pub open spec fn candidate_of(kind: AliasKind, seed: u64) -> Seq<char> {
    match kind {
        AliasKind::Short => spelled(seed as nat, short_alphabet(), 6),
        AliasKind::Long => {
            let letters = spelled(seed as nat, long_alphabet(), 12);
            letters.subrange(0, 4) + seq!['-'] + letters.subrange(4, 8) + seq!['-']
                + letters.subrange(8, 12)
        },
    }
}

/// A spelling has the length asked for, and is made of characters of the
/// alphabet.
pub proof fn lemma_spelled(seed: nat, alphabet: Seq<char>, length: nat)
    requires
        alphabet.len() > 0,
    ensures
        spelled(seed, alphabet, length).len() == length,
        forall|i: int|
            0 <= i < length ==> alphabet.contains(#[trigger] spelled(seed, alphabet, length)[i]),
    decreases length,
{
    if length > 0 {
        let rest = spelled(seed / alphabet.len(), alphabet, (length - 1) as nat);
        lemma_spelled(seed / alphabet.len(), alphabet, (length - 1) as nat);
        let all = spelled(seed, alphabet, length);
        assert forall|i: int| 0 <= i < length implies alphabet.contains(#[trigger] all[i]) by {
            if i == 0 {
                assert(alphabet[(seed % alphabet.len()) as int] == all[0]);
            } else {
                assert(all[i] == rest[i - 1]);
            }
        }
    }
}

/// Spells the first `length` digits of `seed` with the characters of
/// `alphabet`, lowest digit first.
fn spell(seed: u64, alphabet: &str, length: usize) -> (r: String)
    requires
        alphabet.is_ascii(),
        0 < alphabet@.len() <= u64::MAX,
    ensures
        r@ == spelled(seed as nat, alphabet@, length as nat),
{
    let base = alphabet.unicode_len();
    let mut r = String::new();
    let mut rest = seed;
    let mut i: usize = 0;
    while i < length
        invariant
            alphabet.is_ascii(),
            base == alphabet@.len(),
            0 < base <= u64::MAX,
            i <= length,
            spelled(seed as nat, alphabet@, length as nat) == r@ + spelled(
                rest as nat,
                alphabet@,
                (length - i) as nat,
            ),
        decreases length - i,
    {
        let digit = (rest % base as u64) as usize;
        let letter = alphabet.substring_ascii(digit, digit + 1);
        proof {
            assert(letter@ =~= seq![alphabet@[digit as int]]);
            let tail = spelled((rest / base as u64) as nat, alphabet@, (length - i - 1) as nat);
            assert(r@ + (letter@ + tail) =~= (r@ + letter@) + tail);
        }
        r.append(letter);
        rest = rest / base as u64;
        i += 1;
    }
    assert(r@ + Seq::<char>::empty() =~= r@);
    r
}

/// The candidate alias of the given kind that a seed stands for. The
/// caller draws the seed at random; the shape of the alias is fixed here.
pub fn candidate(kind: AliasKind, seed: u64) -> (r: String)
    ensures
        r@ == candidate_of(kind, seed),
{
    match kind {
        AliasKind::Short => {
            proof {
                reveal_strlit("abcdefghijklmnopqrstuvwxyzABCDEFGHIJKLMNOPQRSTUVWXYZ0123456789");
            }
            spell(seed, "abcdefghijklmnopqrstuvwxyzABCDEFGHIJKLMNOPQRSTUVWXYZ0123456789", 6)
        },
        AliasKind::Long => {
            proof {
                reveal_strlit("abcdefghijklmnopqrstuvwxyz");
                reveal_strlit("-");
                lemma_spelled(seed as nat, long_alphabet(), 12);
            }
            let letters = spell(seed, "abcdefghijklmnopqrstuvwxyz", 12);
            assert(letters.is_ascii()) by {
                assert forall|i: int| 0 <= i < letters@.len() implies (#[trigger] letters@[i] as u32)
                    < 128 by {
                    assert(long_alphabet().contains(letters@[i]));
                    let k = choose|k: int|
                        0 <= k < long_alphabet().len() && long_alphabet()[k] == letters@[i];
                    assert(long_alphabet()[k] == letters@[i]);
                }
            }
            let mut r = String::new();
            r.append(letters.as_str().substring_ascii(0, 4));
            r.append("-");
            r.append(letters.as_str().substring_ascii(4, 8));
            r.append("-");
            r.append(letters.as_str().substring_ascii(8, 12));
            assert(r@ =~= candidate_of(kind, seed));
            r
        },
    }
}

/// The namespace that an alias belongs to, by its shape.
pub fn alias_kind(alias: &str) -> (kind: AliasKind)
    ensures
        kind == kind_of_text(alias@),
{
    proof {
        lemma_first_position(alias@, '-');
    }
    match find(alias, '-') {
        Some(i) => {
            assert(alias@[i as int] == '-');
            AliasKind::Long
        },
        None => AliasKind::Short,
    }
}

/// A long candidate is recognised as long by its shape.
pub proof fn law_long_candidate_is_long(seed: u64)
    ensures
        kind_of_text(candidate_of(AliasKind::Long, seed)) == AliasKind::Long,
{
    reveal_strlit("abcdefghijklmnopqrstuvwxyz");
    lemma_spelled(seed as nat, long_alphabet(), 12);
    assert(candidate_of(AliasKind::Long, seed)[4] == '-');
}

/// Proposes an alias of the given kind: the first candidate that no row
/// has, among the first `MAX_ATTEMPTS`. Fails when every candidate tried is
/// in use, or when there is none.
pub fn allocate(store: &MetadataStore, kind: AliasKind, candidates: &Vec<String>) -> (r: Result<
    String,
    AliasGenerationExhausted,
>)
    requires
        store.wf(),
    ensures
        match r {
            Ok(alias) => allocated(store@, kind, texts_of(candidates@)) == Some(alias@),
            Err(_) => allocated(store@, kind, texts_of(candidates@)) is None,
        },
{
    let ghost tried = attempted(texts_of(candidates@));
    let attempts = if candidates.len() <= MAX_ATTEMPTS {
        candidates.len()
    } else {
        MAX_ATTEMPTS
    };
    let mut i: usize = 0;
    while i < attempts
        invariant
            store.wf(),
            tried == attempted(texts_of(candidates@)),
            attempts == tried.len(),
            attempts <= candidates.len(),
            i <= attempts,
            forall|j: int| 0 <= j < i ==> alias_taken(store@, kind, #[trigger] tried[j]),
        decreases attempts - i,
    {
        assert(tried[i as int] == candidates@[i as int]@);
        if !store.alias_in_use(kind, &candidates[i]) {
            proof {
                lemma_first_free_is(store@, kind, tried, i as int);
            }
            return Ok(candidates[i].clone());
        }
        i += 1;
    }
    proof {
        lemma_first_free_is(store@, kind, tried, i as int);
    }
    Err(AliasGenerationExhausted)
}

/// An allocated alias is never one that a row already has, so giving it to
/// a row leaves the aliases of each kind unique.
pub proof fn law_allocation_keeps_aliases_unique(
    rows: Seq<RecordView>,
    kind: AliasKind,
    candidates: Seq<Seq<char>>,
    id: u64,
)
    requires
        rows_wf(rows),
        has_id(rows, id),
        allocated(rows, kind, candidates) is Some,
    ensures
        !alias_taken(rows, kind, allocated(rows, kind, candidates).unwrap()),
        rows_wf(with_alias_of(rows, id, kind, allocated(rows, kind, candidates).unwrap())),
{
    lemma_allocated_is_free(rows, kind, candidates);
    lemma_alias_keeps_wf(
        rows,
        id_index(rows, id),
        kind,
        allocated(rows, kind, candidates).unwrap(),
    );
}

} // verus!
