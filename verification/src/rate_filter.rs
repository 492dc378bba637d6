//! The median filter that dollar rates pass through.

use vstd::prelude::*;

verus! {

/// A median filter over the last few values that it was given.
#[verifier::external_type_specification]
#[verifier::external_body]
#[verifier::reject_recursive_types(T)]
pub struct ExFilter<T>(median::Filter<T>);

/// How many values a filter looks back on.
pub uninterp spec fn filter_width(filter: median::Filter<u128>) -> nat;

/// The values that a filter holds, the oldest first.
pub uninterp spec fn filter_window(filter: median::Filter<u128>) -> Seq<u128>;

/// The last `n` of some values, or all of them where there are fewer.
pub open spec fn last_of(values: Seq<u128>, n: nat) -> Seq<u128> {
    if values.len() <= n {
        values
    } else {
        values.skip(values.len() - n)
    }
}

/// The order of dollar rates.
pub open spec fn at_most() -> spec_fn(u128, u128) -> bool {
    |a: u128, b: u128| a <= b
}

/// The median of some values: the middle one when they are sorted, the lower one of the two where
/// their number is even.
pub open spec fn lower_median(values: Seq<u128>) -> u128 {
    values.sort_by(at_most())[(values.len() - 1) / 2]
}

/// Calls `median::Filter::new`, which makes a filter of a given width that holds nothing. It
/// allocates the whole window, of 48 bytes a slot.
#[verifier::external_body]
pub(crate) fn filter_new(width: usize) -> (filter: median::Filter<u128>)
    requires
        width * 48 <= isize::MAX,
    ensures
        filter_width(filter) == width,
        filter_window(filter) == Seq::<u128>::empty(),
{
    median::Filter::new(width)
}

/// Calls `median::Filter::consume`: the value enters the window, the oldest one leaves where the
/// window was full, and the median of what is then in the window is returned. A filter of width
/// zero would panic.
#[verifier::external_body]
pub(crate) fn filter_consume(filter: &mut median::Filter<u128>, value: u128) -> (median: u128)
    requires
        filter_width(*old(filter)) > 0,
    ensures
        filter_width(*final(filter)) == filter_width(*old(filter)),
        filter_window(*final(filter)) == last_of(
            filter_window(*old(filter)).push(value),
            filter_width(*old(filter)),
        ),
        median == lower_median(filter_window(*final(filter))),
{
    filter.consume(value)
}

/// What a filter of width `n` says after it was given `values`, where `current` stands until it
/// is given any.
pub open spec fn filtered(current: u128, values: Seq<u128>, n: nat) -> u128 {
    if values.len() == 0 {
        current
    } else {
        lower_median(last_of(values, n))
    }
}

/// Looking back on values one at a time is looking back on all of them.
pub proof fn lemma_last_of_push(values: Seq<u128>, value: u128, n: nat)
    requires
        n > 0,
    ensures
        last_of(last_of(values, n).push(value), n) == last_of(values.push(value), n),
{
    assert(last_of(last_of(values, n).push(value), n) =~= last_of(values.push(value), n));
}

proof fn lemma_order_is_total()
    ensures
        vstd::relations::total_ordering(at_most()),
{
}

/// The median of some values is one of them.
pub proof fn law_median_is_a_given_value(values: Seq<u128>)
    requires
        values.len() > 0,
    ensures
        values.contains(lower_median(values)),
{
    lemma_order_is_total();
    let sorted = values.sort_by(at_most());
    values.lemma_sort_by_ensures(at_most());
    values.to_multiset_ensures();
    sorted.to_multiset_ensures();
    assert(sorted.len() == values.len());
    assert(sorted.contains(sorted[(values.len() - 1) / 2]));
}

/// The median does not depend on the order of the values.
pub proof fn law_median_ignores_order(a: Seq<u128>, b: Seq<u128>)
    requires
        a.to_multiset() == b.to_multiset(),
    ensures
        lower_median(a) == lower_median(b),
{
    lemma_order_is_total();
    a.lemma_sort_by_ensures(at_most());
    b.lemma_sort_by_ensures(at_most());
    a.to_multiset_ensures();
    b.to_multiset_ensures();
    vstd::seq_lib::lemma_sorted_unique(a.sort_by(at_most()), b.sort_by(at_most()), at_most());
}

/// How many of some values lie between two bounds.
pub open spec fn count_between(values: Seq<u128>, low: u128, high: u128) -> nat {
    values.filter(|v: u128| low <= v <= high).len()
}

/// Counting is done value by value.
proof fn lemma_count_remove(values: Seq<u128>, i: int, low: u128, high: u128)
    requires
        0 <= i < values.len(),
    ensures
        count_between(values, low, high) == count_between(values.remove(i), low, high) + (if low
            <= values[i] <= high {
            1nat
        } else {
            0nat
        }),
{
    let test = |v: u128| low <= v <= high;
    let (before, after) = (values.take(i), values.skip(i + 1));
    assert(values =~= before.push(values[i]) + after);
    assert(values.remove(i) =~= before + after);
    Seq::filter_distributes_over_add(before.push(values[i]), after, test);
    Seq::filter_distributes_over_add(before, after, test);
    before.lemma_filter_push(values[i], test);
}

/// Counting does not depend on the order of the values.
proof fn lemma_count_ignores_order(a: Seq<u128>, b: Seq<u128>, low: u128, high: u128)
    requires
        a.to_multiset() == b.to_multiset(),
    ensures
        count_between(a, low, high) == count_between(b, low, high),
    decreases a.len(),
{
    broadcast use vstd::multiset::group_multiset_axioms;

    a.to_multiset_ensures();
    b.to_multiset_ensures();
    assert(a.len() == a.to_multiset().len());
    assert(b.len() == b.to_multiset().len());
    if a.len() > 0 {
        let last = a.len() - 1;
        assert(a.to_multiset().contains(a[last]));
        assert(b.contains(a[last]));
        let i = choose|i: int| 0 <= i < b.len() && b[i] == a[last];
        lemma_count_remove(a, last, low, high);
        lemma_count_remove(b, i, low, high);
        lemma_count_ignores_order(a.remove(last), b.remove(i), low, high);
    } else {
        assert(a =~= b);
    }
}

/// Where no value of a part lies between the bounds, the others are all that is counted.
proof fn lemma_count_outside(before: Seq<u128>, after: Seq<u128>, low: u128, high: u128)
    requires
        forall|i: int| 0 <= i < after.len() ==> !(low <= #[trigger] after[i] <= high),
    ensures
        count_between(before + after, low, high) <= before.len(),
        count_between(after + before, low, high) <= before.len(),
{
    let test = |v: u128| low <= v <= high;
    Seq::filter_distributes_over_add(before, after, test);
    Seq::filter_distributes_over_add(after, before, test);
    before.lemma_filter_len(test);
    if after.filter(test).len() > 0 {
        let x = after.filter(test)[0];
        assert(after.filter(test).contains(x));
        after.lemma_filter_contains_rev(test, x);
        after.lemma_filter_pred(test, 0);
    }
}

/// Where more than half of the values lie between two bounds, so does the median: a minority of
/// authorities cannot move the dollar rate out of the range that the others report.
pub proof fn law_majority_bounds_the_median(values: Seq<u128>, low: u128, high: u128)
    requires
        2 * count_between(values, low, high) > values.len(),
    ensures
        low <= lower_median(values) <= high,
{
    lemma_order_is_total();
    let sorted = values.sort_by(at_most());
    values.lemma_sort_by_ensures(at_most());
    values.to_multiset_ensures();
    sorted.to_multiset_ensures();
    lemma_count_ignores_order(values, sorted, low, high);
    values.lemma_filter_len(|v: u128| low <= v <= high);
    let k = (values.len() - 1) / 2;
    assert(0 <= k < sorted.len());
    assert forall|i: int, j: int| 0 <= i <= j < sorted.len() implies sorted[i] <= sorted[j] by {
        if i < j {
            assert(at_most()(sorted[i], sorted[j]));
        }
    }
    if sorted[k] > high {
        assert(sorted =~= sorted.take(k) + sorted.skip(k));
        lemma_count_outside(sorted.take(k), sorted.skip(k), low, high);
    }
    if sorted[k] < low {
        assert(sorted =~= sorted.take(k + 1) + sorted.skip(k + 1));
        lemma_count_outside(sorted.skip(k + 1), sorted.take(k + 1), low, high);
    }
}

/// The median splits the values: fewer than half of them are smaller, and at least half are no
/// larger.
pub proof fn law_the_median_splits_the_values(values: Seq<u128>)
    requires
        values.len() > 0,
    ensures
        2 * count_between(values, 0, lower_median(values)) >= values.len(),
        lower_median(values) > 0 ==> 2 * count_between(
            values,
            0,
            (lower_median(values) - 1) as u128,
        ) < values.len(),
{
    lemma_order_is_total();
    let sorted = values.sort_by(at_most());
    values.lemma_sort_by_ensures(at_most());
    values.to_multiset_ensures();
    sorted.to_multiset_ensures();
    let m = lower_median(values);
    let k = (values.len() - 1) / 2;
    assert(sorted.len() == values.len());
    assert(sorted[k] == m);
    assert forall|i: int, j: int| 0 <= i <= j < sorted.len() implies sorted[i] <= sorted[j] by {
        if i < j {
            assert(at_most()(sorted[i], sorted[j]));
        }
    }
    lemma_count_ignores_order(values, sorted, 0, m);
    let (low, high) = (sorted.take(k + 1), sorted.skip(k + 1));
    assert(sorted =~= low + high);
    Seq::filter_distributes_over_add(low, high, |v: u128| 0 <= v <= m);
    lemma_count_all(low, 0, m);
    if m > 0 {
        let below = (m - 1) as u128;
        lemma_count_ignores_order(values, sorted, 0, below);
        assert(sorted =~= sorted.take(k) + sorted.skip(k));
        lemma_count_outside(sorted.take(k), sorted.skip(k), 0, below);
    }
}

/// Where all values lie between the bounds, all are counted.
proof fn lemma_count_all(values: Seq<u128>, low: u128, high: u128)
    requires
        forall|i: int| 0 <= i < values.len() ==> low <= #[trigger] values[i] <= high,
    ensures
        count_between(values, low, high) == values.len(),
    decreases values.len(),
{
    let test = |v: u128| low <= v <= high;
    if values.len() > 0 {
        let rest = values.drop_last();
        assert(values =~= rest.push(values.last()));
        lemma_count_all(rest, low, high);
        rest.lemma_filter_push(values.last(), test);
    } else {
        values.lemma_filter_len(test);
    }
}

/// Looking back on `n` values keeps the last ones, and as many as there are up to `n`.
pub proof fn law_the_last_values_are_looked_back_on(values: Seq<u128>, n: nat, i: int)
    requires
        0 <= i < last_of(values, n).len(),
    ensures
        values.len() <= n ==> last_of(values, n).len() == values.len(),
        values.len() > n ==> last_of(values, n).len() == n,
        last_of(values, n)[last_of(values, n).len() - 1 - i] == values[values.len() - 1 - i],
{
}

} // verus!
