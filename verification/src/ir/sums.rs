//! Sums of sequences of integers, for the size estimates of the representations.
use vstd::prelude::*;

verus! {

/// The sum of the sequence.
pub open spec fn sum_of(s: Seq<int>) -> int
    decreases s.len(),
{
    if s.len() == 0 {
        0
    } else {
        sum_of(s.drop_last()) + s.last()
    }
}

/// No term is negative.
pub open spec fn all_nonneg(s: Seq<int>) -> bool {
    forall|i: int| 0 <= i < s.len() ==> #[trigger] s[i] >= 0
}

/// Summing one more term of a sequence of non-negative terms adds that term and
/// stays within the whole sum.
pub proof fn lemma_sum_step(s: Seq<int>, k: int)
    requires
        0 <= k < s.len(),
        all_nonneg(s),
    ensures
        sum_of(s.take(k + 1)) == sum_of(s.take(k)) + s[k],
        sum_of(s.take(k + 1)) <= sum_of(s),
        sum_of(s.take(k)) >= 0,
{
    assert(s.take(k + 1).drop_last() =~= s.take(k));
    lemma_sum_prefix_le(s, k + 1);
    assert forall|i: int| 0 <= i < s.take(k).len() implies #[trigger] s.take(k)[i] >= 0 by {
        assert(s.take(k)[i] == s[i]);
    }
    lemma_sum_nonneg(s.take(k));
}

/// A prefix of non-negative terms sums to no more than the whole.
pub proof fn lemma_sum_prefix_le(s: Seq<int>, k: int)
    requires
        0 <= k <= s.len(),
        all_nonneg(s),
    ensures
        sum_of(s.take(k)) <= sum_of(s),
    decreases s.len() - k,
{
    if k < s.len() {
        lemma_sum_prefix_le(s, k + 1);
        assert(s.take(k + 1).drop_last() =~= s.take(k));
    } else {
        assert(s.take(k) =~= s);
    }
}

/// Non-negative terms have a non-negative sum.
pub proof fn lemma_sum_nonneg(s: Seq<int>)
    requires
        all_nonneg(s),
    ensures
        sum_of(s) >= 0,
    decreases s.len(),
{
    if s.len() > 0 {
        assert(all_nonneg(s.drop_last())) by {
            assert forall|i: int| 0 <= i < s.drop_last().len() implies #[trigger] s.drop_last()[i] >= 0 by {
                assert(s.drop_last()[i] == s[i]);
            }
        }
        lemma_sum_nonneg(s.drop_last());
    }
}

/// The whole sum is reached once every term is summed.
pub proof fn lemma_sum_all(s: Seq<int>)
    ensures
        s.take(s.len() as int) == s,
{
    assert(s.take(s.len() as int) =~= s);
}

} // verus!
