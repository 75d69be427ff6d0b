//! The demo fixture's `sum`: the total of every element.

use vstd::prelude::*;

verus! {

pub open spec fn seq_sum(s: Seq<i64>) -> int
    decreases s.len(),
{
    if s.len() == 0 { 0 } else { seq_sum(s.drop_last()) + s.last() }
}

/// Every running total fits in an `i64`, as the additions of `sum` require.
pub open spec fn sums_fit(s: Seq<i64>) -> bool {
    forall|k: int| 0 <= k <= s.len() ==> i64::MIN <= #[trigger] seq_sum(s.subrange(0, k)) <= i64::MAX
}

pub fn sum(values: &[i64]) -> (total: i64)
    requires
        sums_fit(values@),
    ensures
        total == seq_sum(values@),
{
    let mut total: i64 = 0;
    let mut i: usize = 0;
    assert(values@.subrange(0, 0) =~= Seq::<i64>::empty());
    while i < values.len()
        invariant
            i <= values@.len(),
            sums_fit(values@),
            total == seq_sum(values@.subrange(0, i as int)),
        decreases values@.len() - i,
    {
        assert(values@.subrange(0, i + 1).drop_last() =~= values@.subrange(0, i as int));
        assert(seq_sum(values@.subrange(0, i + 1)) == total + values@[i as int]);
        total = total + values[i];
        i = i + 1;
    }
    assert(values@.subrange(0, values@.len() as int) =~= values@);
    total
}

} // verus!
