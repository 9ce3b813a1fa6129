//! Retention: how long an upload is kept, as a function of its size.

use vstd::prelude::*;

verus! {

/// One rule of the retention table: uploads of at most `max_size` bytes are
/// kept for `duration` seconds.
#[derive(Clone, Copy, Debug, PartialEq, Eq, Structural)]
pub struct Threshold {
    pub max_size: u64,
    pub duration: u64,
}

/// Why a list of rules is not a retention table.
#[derive(Clone, Copy, Debug, PartialEq, Eq, Structural)]
pub enum ThresholdError {
    /// The rule at this position has a size ceiling that is not above its
    /// predecessor's.
    SizeNotIncreasing(usize),
    /// The rule at this position keeps files longer than its predecessor.
    DurationIncreasing(usize),
}

/// No rule covers the size: the upload is larger than the table allows.
#[derive(Clone, Copy, Debug, PartialEq, Eq, Structural)]
pub struct NoMatchingThreshold;

/// The rules are ordered: size ceilings strictly increase, durations never
/// increase.
pub open spec fn rules_ordered(rules: Seq<Threshold>) -> bool {
    forall|i: int, j: int|
        0 <= i < j < rules.len() ==> {
            &&& (#[trigger] rules[i]).max_size < (#[trigger] rules[j]).max_size
            &&& rules[i].duration >= rules[j].duration
        }
}

/// What is wrong with the order of the rules: the first rule, from the
/// front, that does not follow its predecessor, and in which respect. The
/// size ceiling is looked at before the duration.
pub open spec fn order_check(rules: Seq<Threshold>) -> Option<ThresholdError>
    decreases rules.len(),
{
    if rules.len() <= 1 {
        None
    } else {
        match order_check(rules.drop_last()) {
            Some(e) => Some(e),
            None => {
                let k = rules.len() - 1;
                if rules[k - 1].max_size >= rules[k].max_size {
                    Some(ThresholdError::SizeNotIncreasing(k as usize))
                } else if rules[k - 1].duration < rules[k].duration {
                    Some(ThresholdError::DurationIncreasing(k as usize))
                } else {
                    None
                }
            },
        }
    }
}

/// Rules pass the order check exactly if they are ordered.
pub proof fn lemma_order_check(rules: Seq<Threshold>)
    ensures
        order_check(rules) is None <==> rules_ordered(rules),
    decreases rules.len(),
{
    if rules.len() > 1 {
        let front = rules.drop_last();
        let k = rules.len() - 1;
        lemma_order_check(front);
        assert forall|i: int| 0 <= i < front.len() implies #[trigger] front[i] == rules[i] by {}
        if order_check(rules) is None {
            assert(rules_ordered(front));
            assert forall|i: int, j: int| 0 <= i < j < rules.len() implies {
                &&& (#[trigger] rules[i]).max_size < (#[trigger] rules[j]).max_size
                &&& rules[i].duration >= rules[j].duration
            } by {
                if j < k {
                    assert(front[i] == rules[i] && front[j] == rules[j]);
                } else if i < k - 1 {
                    assert(front[i] == rules[i] && front[k - 1] == rules[k - 1]);
                }
            }
        }
        if rules_ordered(rules) {
            assert(rules_ordered(front)) by {
                assert forall|i: int, j: int| 0 <= i < j < front.len() implies {
                    &&& (#[trigger] front[i]).max_size < (#[trigger] front[j]).max_size
                    &&& front[i].duration >= front[j].duration
                } by {
                    assert(front[i] == rules[i] && front[j] == rules[j]);
                }
            }
            assert(rules[k - 1].max_size < rules[k].max_size);
        }
    }
}

/// Position of the first rule whose ceiling is at least `size`, or the
/// number of rules when there is none.
pub open spec fn first_covering(rules: Seq<Threshold>, size: u64) -> int
    decreases rules.len(),
{
    if rules.len() == 0 {
        0
    } else if rules[0].max_size >= size {
        0
    } else {
        1 + first_covering(rules.drop_first(), size)
    }
}

/// The duration that the table gives to an upload of `size` bytes: that of
/// the first rule whose ceiling is at least `size`.
pub open spec fn duration_of(rules: Seq<Threshold>, size: u64) -> Option<u64> {
    let k = first_covering(rules, size);
    if k < rules.len() {
        Some(rules[k].duration)
    } else {
        None
    }
}

/// The instant at which a file made at `created_at` and kept for `duration`
/// seconds expires. The sum stops at the largest representable instant.
pub open spec fn expiry_of(created_at: u64, duration: u64) -> u64 {
    if created_at + duration <= u64::MAX {
        (created_at + duration) as u64
    } else {
        u64::MAX
    }
}

/// `first_covering` is the least position with a large enough ceiling.
pub proof fn lemma_first_covering(rules: Seq<Threshold>, size: u64)
    ensures
        0 <= first_covering(rules, size) <= rules.len(),
        forall|j: int|
            0 <= j < first_covering(rules, size) ==> (#[trigger] rules[j]).max_size < size,
        first_covering(rules, size) < rules.len() ==> rules[first_covering(
            rules,
            size,
        )].max_size >= size,
    decreases rules.len(),
{
    if rules.len() > 0 && rules[0].max_size < size {
        let rest = rules.drop_first();
        lemma_first_covering(rest, size);
        assert forall|j: int| 0 <= j < first_covering(rules, size) implies (#[trigger] rules[j]).max_size
            < size by {
            if j > 0 {
                assert(rules[j] == rest[j - 1]);
            }
        }
        let k = first_covering(rest, size);
        if k < rest.len() {
            assert(rules[k + 1] == rest[k]);
        }
    }
}

/// A position whose ceiling is large enough, with only smaller ceilings
/// before it, is the one that `first_covering` names.
pub proof fn lemma_first_covering_is(rules: Seq<Threshold>, size: u64, k: int)
    requires
        0 <= k <= rules.len(),
        forall|j: int| 0 <= j < k ==> (#[trigger] rules[j]).max_size < size,
        k < rules.len() ==> rules[k].max_size >= size,
    ensures
        first_covering(rules, size) == k,
{
    lemma_first_covering(rules, size);
    let f = first_covering(rules, size);
    if f < k {
        assert(rules[f].max_size < size);
    } else if k < f {
        assert(rules[k].max_size < size);
    }
}

/// A fault among the first `n` rules is the fault of the whole list.
pub proof fn lemma_order_check_prefix(rules: Seq<Threshold>, n: int)
    requires
        0 <= n <= rules.len(),
        order_check(rules.take(n)) is Some,
    ensures
        order_check(rules) == order_check(rules.take(n)),
    decreases rules.len() - n,
{
    if n < rules.len() {
        assert(rules.take(n + 1).drop_last() =~= rules.take(n));
        lemma_order_check_prefix(rules, n + 1);
    } else {
        assert(rules.take(n) =~= rules);
    }
}

/// The retention table: an ordered list of rules, fixed once built.
pub struct ThresholdTable {
    rules: Vec<Threshold>,
}

impl View for ThresholdTable {
    type V = Seq<Threshold>;

    closed spec fn view(&self) -> Seq<Threshold> {
        self.rules@
    }
}

impl ThresholdTable {
    /// The table's rules are ordered.
    pub open spec fn wf(&self) -> bool {
        rules_ordered(self@)
    }

    /// Builds the table from `rules`, or says which rule is out of order:
    /// the first one, from the front, that does not follow its predecessor.
    pub fn new(rules: Vec<Threshold>) -> (r: Result<ThresholdTable, ThresholdError>)
        ensures
            match r {
                Ok(table) => order_check(rules@) is None && table@ == rules@ && table.wf(),
                Err(e) => order_check(rules@) == Some(e),
            },
    {
        if rules.len() <= 1 {
            proof {
                lemma_order_check(rules@);
            }
            return Ok(ThresholdTable { rules });
        }
        let mut i: usize = 1;
        while i < rules.len()
            invariant
                1 <= i <= rules.len(),
                order_check(rules@.take(i as int)) is None,
            decreases rules.len() - i,
        {
            proof {
                assert(rules@.take(i + 1).drop_last() =~= rules@.take(i as int));
            }
            if rules[i - 1].max_size >= rules[i].max_size {
                proof {
                    lemma_order_check_prefix(rules@, i + 1);
                }
                return Err(ThresholdError::SizeNotIncreasing(i));
            }
            if rules[i - 1].duration < rules[i].duration {
                proof {
                    lemma_order_check_prefix(rules@, i + 1);
                }
                return Err(ThresholdError::DurationIncreasing(i));
            }
            i += 1;
        }
        proof {
            assert(rules@.take(i as int) =~= rules@);
            lemma_order_check(rules@);
        }
        Ok(ThresholdTable { rules })
    }

    /// The number of rules.
    pub fn len(&self) -> (n: usize)
        ensures
            n == self@.len(),
    {
        self.rules.len()
    }

    /// The rule at position `i`, if there is one.
    pub fn rule(&self, i: usize) -> (r: Option<Threshold>)
        ensures
            r == if i < self@.len() {
                Some(self@[i as int])
            } else {
                None
            },
    {
        if i < self.rules.len() {
            Some(self.rules[i])
        } else {
            None
        }
    }

    /// The retention of an upload of `size` bytes: the duration of the first
    /// rule whose ceiling is at least `size`. A size above every ceiling has
    /// no retention, and the upload is to be refused.
    pub fn duration_for(&self, size: u64) -> (r: Result<u64, NoMatchingThreshold>)
        ensures
            match r {
                Ok(d) => duration_of(self@, size) == Some(d),
                Err(_) => duration_of(self@, size) is None,
            },
    {
        let mut i: usize = 0;
        while i < self.rules.len()
            invariant
                i <= self.rules.len(),
                forall|j: int| 0 <= j < i ==> (#[trigger] self.rules@[j]).max_size < size,
            decreases self.rules.len() - i,
        {
            if self.rules[i].max_size >= size {
                proof {
                    lemma_first_covering_is(self@, size, i as int);
                }
                return Ok(self.rules[i].duration);
            }
            i += 1;
        }
        proof {
            lemma_first_covering_is(self@, size, i as int);
        }
        Err(NoMatchingThreshold)
    }

    /// When an upload made at `created_at` and kept for `duration` seconds
    /// expires.
    pub fn expiry(created_at: u64, duration: u64) -> (t: u64)
        ensures
            t == expiry_of(created_at, duration),
    {
        created_at.saturating_add(duration)
    }
}

/// A smaller upload is kept at least as long as a larger one, and is
/// covered whenever the larger one is.
pub proof fn law_duration_monotonic(rules: Seq<Threshold>, small: u64, large: u64)
    requires
        rules_ordered(rules),
        small <= large,
    ensures
        duration_of(rules, large) matches Some(dl) ==> (duration_of(rules, small) matches Some(ds)
            && ds >= dl),
{
    lemma_first_covering(rules, small);
    lemma_first_covering(rules, large);
    let ks = first_covering(rules, small);
    let kl = first_covering(rules, large);
    if kl < rules.len() {
        if ks > kl {
            assert(rules[kl].max_size < small);
        }
        if ks < kl {
            assert(rules[ks].duration >= rules[kl].duration);
        }
    }
}

/// At a boundary the rule itself applies, not the next one: an upload of
/// exactly a rule's ceiling gets that rule's duration, and one byte more
/// gets the next rule's, if there is one.
pub proof fn law_duration_at_boundary(rules: Seq<Threshold>, k: int)
    requires
        rules_ordered(rules),
        0 <= k < rules.len(),
    ensures
        duration_of(rules, rules[k].max_size) == Some(rules[k].duration),
        rules[k].max_size < u64::MAX ==> duration_of(rules, (rules[k].max_size + 1) as u64) == (if k
            + 1 < rules.len() {
            Some(rules[k + 1].duration)
        } else {
            None
        }),
{
    let size = rules[k].max_size;
    assert forall|j: int| 0 <= j < k implies (#[trigger] rules[j]).max_size < size by {}
    lemma_first_covering_is(rules, size, k);
    if size < u64::MAX {
        let next = (size + 1) as u64;
        assert forall|j: int| 0 <= j < k + 1 implies (#[trigger] rules[j]).max_size < next by {
            if j < k {
                assert(rules[j].max_size < rules[k].max_size);
            }
        }
        if k + 1 < rules.len() {
            assert(rules[k].max_size < rules[k + 1].max_size);
        }
        lemma_first_covering_is(rules, next, k + 1);
    }
}

} // verus!
