//! The trimmed moving average that turns raw duties into the commanded duty.

use crate::fan_config::SCALE;
use vstd::prelude::*;
use vstd::relations::{sorted_by, total_ordering};
use vstd::seq_lib::{commutative_foldl, lemma_fold_left_permutation, lemma_sorted_unique};

verus! {

/// The order in which raw duties are arranged before trimming.
pub open spec fn at_most() -> spec_fn(i32, i32) -> bool {
    |a: i32, b: i32| a <= b
}

/// The values arranged in ascending order.
pub open spec fn ascending(values: Seq<i32>) -> Seq<i32> {
    values.sort_by(at_most())
}

/// How many entries are dropped from each end of `n` sorted values: none for
/// up to two values, otherwise a fifth of them, rounded down, and at least one.
pub open spec fn trim_count(n: int) -> int {
    if n <= 2 {
        0
    } else if n / 5 >= 1 {
        n / 5
    } else {
        1
    }
}

/// The values that enter the mean: the ascending arrangement without its
/// `trim_count` lowest and `trim_count` highest entries.
pub open spec fn kept(values: Seq<i32>) -> Seq<i32> {
    let sorted = ascending(values);
    let cut = trim_count(sorted.len() as int);
    sorted.subrange(cut, sorted.len() - cut)
}

/// The sum of the values.
pub open spec fn sum_of(values: Seq<i32>) -> int {
    values.fold_left(0int, |acc: int, v: i32| acc + v)
}

/// The whole percent of duty for a mean of `total / count` thousandths of a
/// percent: the fraction is dropped and the result is held within 0 and 100.
pub open spec fn duty_of_mean(total: int, count: int) -> int {
    if total <= 0 || count <= 0 {
        0
    } else if (total / count) / (SCALE as int) >= 100 {
        100
    } else {
        (total / count) / (SCALE as int)
    }
}

/// The duty reported for a history of raw duties; 0 for an empty history.
pub open spec fn smoothed_duty(values: Seq<i32>) -> int {
    duty_of_mean(sum_of(kept(values)), kept(values).len() as int)
}

/// `ascending` returns a sorted rearrangement of its argument.
pub proof fn lemma_ascending(values: Seq<i32>)
    ensures
        ascending(values).len() == values.len(),
        ascending(values).to_multiset() == values.to_multiset(),
        forall|i: int, j: int|
            0 <= i <= j < values.len() ==> ascending(values)[i] <= ascending(values)[j],
{
    broadcast use vstd::seq_lib::group_to_multiset_ensures;

    lemma_at_most_total();
    values.lemma_sort_by_ensures(at_most());
    let sorted = ascending(values);
    assert(sorted.to_multiset().len() == values.to_multiset().len());
    assert forall|i: int, j: int| 0 <= i <= j < values.len() implies sorted[i] <= sorted[j] by {
        if i < j {
            assert(at_most()(sorted[i], sorted[j]));
        }
    }
}

proof fn lemma_at_most_total()
    ensures
        total_ordering(at_most()),
{
    let r = at_most();
    assert(vstd::relations::reflexive(r));
    assert(vstd::relations::antisymmetric(r));
    assert(vstd::relations::transitive(r));
    assert(vstd::relations::strongly_connected(r));
}

/// The sum of the values does not depend on their order.
pub proof fn lemma_sum_of_rearranged(a: Seq<i32>, b: Seq<i32>)
    requires
        a.to_multiset() == b.to_multiset(),
    ensures
        sum_of(a) == sum_of(b),
{
    let f = |acc: int, v: i32| acc + v;
    assert(commutative_foldl(f));
    lemma_fold_left_permutation(a, b, f, 0int);
}

proof fn lemma_sum_of_push(values: Seq<i32>, v: i32)
    ensures
        sum_of(values.push(v)) == sum_of(values) + v,
{
    assert(values.push(v).drop_last() =~= values);
}

proof fn lemma_sum_of_bounds(values: Seq<i32>)
    ensures
        -0x8000_0000 * values.len() <= sum_of(values) <= 0x7fff_ffff * values.len(),
    decreases values.len(),
{
    if values.len() > 0 {
        lemma_sum_of_bounds(values.drop_last());
    }
}

/// With at most two values nothing is trimmed: the reported duty is the
/// plain mean of all values.
pub proof fn lemma_short_history_plain_mean(values: Seq<i32>)
    requires
        values.len() <= 2,
    ensures
        smoothed_duty(values) == duty_of_mean(sum_of(values), values.len() as int),
{
    lemma_ascending(values);
    let sorted = ascending(values);
    assert(kept(values) =~= sorted);
    lemma_sum_of_rearranged(sorted, values);
}

/// With more than two values, exactly `max(1, n / 5)` of the lowest and as
/// many of the highest entries stay out of the mean: every dropped low entry
/// is at most every kept one, every dropped high entry is at least every kept
/// one, and the kept and dropped entries together are the history.
pub proof fn lemma_trim_drops_extremes(values: Seq<i32>)
    requires
        values.len() > 2,
    ensures
        ({
            let n = values.len() as int;
            let cut = if n / 5 >= 1 { n / 5 } else { 1 };
            let sorted = ascending(values);
            let low = sorted.subrange(0, cut);
            let high = sorted.subrange(n - cut, n);
            &&& kept(values).len() == n - 2 * cut
            &&& kept(values).len() >= 1
            &&& (low + kept(values) + high).to_multiset() == values.to_multiset()
            &&& forall|i: int, j: int|
                0 <= i < cut && 0 <= j < n - 2 * cut ==> low[i] <= kept(values)[j]
            &&& forall|i: int, j: int|
                0 <= i < cut && 0 <= j < n - 2 * cut ==> kept(values)[j] <= high[i]
            &&& smoothed_duty(values) == duty_of_mean(sum_of(kept(values)), n - 2 * cut)
        }),
{
    lemma_ascending(values);
    let n = values.len() as int;
    let cut = if n / 5 >= 1 { n / 5 } else { 1 };
    let sorted = ascending(values);
    let low = sorted.subrange(0, cut);
    let high = sorted.subrange(n - cut, n);
    assert(low + kept(values) + high =~= sorted);
}

/// Returns the values in ascending order.
pub fn sorted_copy(values: &Vec<i32>) -> (sorted: Vec<i32>)
    ensures
        sorted@ == ascending(values@),
{
    broadcast use vstd::seq_lib::group_to_multiset_ensures;

    let mut sorted: Vec<i32> = Vec::new();
    let mut i: usize = 0;
    assert(values@.take(0) =~= Seq::<i32>::empty());
    while i < values.len()
        invariant
            i <= values.len(),
            sorted@.len() == i,
            sorted@.to_multiset() == values@.take(i as int).to_multiset(),
            forall|a: int, b: int| 0 <= a <= b < sorted@.len() ==> sorted@[a] <= sorted@[b],
        decreases values.len() - i,
    {
        let v = values[i];
        let mut pos: usize = 0;
        while pos < sorted.len() && sorted[pos] <= v
            invariant
                pos <= sorted@.len(),
                forall|a: int| 0 <= a < pos ==> sorted@[a] <= v,
            decreases sorted@.len() - pos,
        {
            pos += 1;
        }
        let ghost before = sorted@;
        sorted.insert(pos, v);
        proof {
            assert(sorted@ == before.insert(pos as int, v));
            vstd::seq_lib::to_multiset_insert(before, pos as int, v);
            vstd::seq_lib::to_multiset_build(values@.take(i as int), v);
            assert(values@.take(i + 1) =~= values@.take(i as int).push(v));
            assert(sorted@.to_multiset() == values@.take(i + 1).to_multiset());
            assert forall|a: int, b: int| 0 <= a <= b < sorted@.len() implies sorted@[a]
                <= sorted@[b] by {
                if a < pos && b > pos {
                    assert(sorted@[b] == before[b - 1]);
                } else if a > pos {
                    assert(sorted@[a] == before[a - 1]);
                    assert(sorted@[b] == before[b - 1]);
                }
            }
        }
        i += 1;
    }
    proof {
        assert(values@.take(values@.len() as int) =~= values@);
        lemma_at_most_total();
        values@.lemma_sort_by_ensures(at_most());
        assert(sorted_by(sorted@, at_most()));
        lemma_sorted_unique(sorted@, ascending(values@), at_most());
    }
    sorted
}

/// Computes how many of `n` sorted values are dropped from each end.
pub fn trim(n: usize) -> (cut: usize)
    ensures
        cut == trim_count(n as int),
        2 * cut <= n,
        n > 0 ==> 2 * cut < n,
{
    if n <= 2 {
        0
    } else if n / 5 >= 1 {
        n / 5
    } else {
        1
    }
}

/// Computes the reported duty, in whole percent, of a history of raw duties.
pub fn trimmed_mean_duty(values: &Vec<i32>) -> (duty: u8)
    ensures
        duty == smoothed_duty(values@),
        duty <= 100,
{
    let sorted = sorted_copy(values);
    let n = sorted.len();
    proof {
        lemma_ascending(values@);
    }
    let cut = trim(n);
    let end: usize = n - cut;
    let ghost middle = sorted@.subrange(cut as int, end as int);
    let mut total: i128 = 0;
    let mut i: usize = cut;
    assert(middle.take(0) =~= Seq::<i32>::empty());
    while i < end
        invariant
            cut <= i <= end <= sorted@.len(),
            middle == sorted@.subrange(cut as int, end as int),
            total == sum_of(middle.take(i - cut)),
        decreases end - i,
    {
        proof {
            lemma_sum_of_bounds(middle.take(i - cut));
            lemma_sum_of_push(middle.take(i - cut), sorted@[i as int]);
            assert(middle.take(i - cut + 1) =~= middle.take(i - cut).push(sorted@[i as int]));
        }
        total = total + sorted[i] as i128;
        i += 1;
    }
    proof {
        assert(middle.take(end - cut) =~= middle);
        assert(middle == kept(values@));
        lemma_sum_of_bounds(middle);
    }
    if total <= 0 || end <= cut {
        return 0;
    }
    let count: u128 = (end - cut) as u128;
    let mean: u128 = total as u128 / count;
    let percent: u128 = mean / (SCALE as u128);
    if percent >= 100 {
        100
    } else {
        percent as u8
    }
}

} // verus!
