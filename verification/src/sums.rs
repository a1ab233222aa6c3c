//! Sums taken in a fixed order.
//!
//! The addition of the scalar type need not be associative, so the order in
//! which a sum is taken is part of its value. Every sum here starts at a given
//! value and adds the items first to last.

use vstd::prelude::*;

verus! {

/// `running` holds the partial sums of `items`: it starts at `zero`, and each
/// further entry is what `plus` returned for the entry before it and the next
/// item.
pub open spec fn running_sums<T, A: Fn(T, T) -> T>(
    plus: A,
    zero: T,
    items: Seq<T>,
    running: Seq<T>,
) -> bool {
    &&& running.len() == items.len() + 1
    &&& running[0] == zero
    &&& forall|k: int|
        #![trigger items[k]]
        0 <= k < items.len() ==> call_ensures(plus, (running[k], items[k]), running[k + 1])
}

/// `total` is what comes of adding the items to `zero` one by one, first to
/// last, with `plus`.
pub open spec fn summed_in_order<T, A: Fn(T, T) -> T>(
    plus: A,
    zero: T,
    items: Seq<T>,
    total: T,
) -> bool {
    exists|running: Seq<T>| #[trigger]
        running_sums(plus, zero, items, running) && running.last() == total
}

/// `plus` is a function of its operands: the same two give the same sum.
pub open spec fn plus_is_function<T, A: Fn(T, T) -> T>(plus: A) -> bool {
    forall|a: T, b: T, x: T, y: T|
        #![trigger call_ensures(plus, (a, b), x), call_ensures(plus, (a, b), y)]
        call_ensures(plus, (a, b), x) && call_ensures(plus, (a, b), y) ==> x == y
}

/// Adds the items to `zero` one by one with `plus`, in index order.
pub fn sum_in_order<T: Copy, A: Fn(T, T) -> T>(items: &Vec<T>, zero: T, plus: &A) -> (total: T)
    requires
        forall|a: T, b: T| call_requires(*plus, (a, b)),
    ensures
        summed_in_order(*plus, zero, items@, total),
{
    let mut total: T = zero;
    let mut i: usize = 0;
    let ghost mut running: Seq<T> = seq![zero];
    while i < items.len()
        invariant
            i <= items@.len(),
            forall|a: T, b: T| call_requires(*plus, (a, b)),
            running_sums(*plus, zero, items@.take(i as int), running),
            running.last() == total,
        decreases items@.len() - i,
    {
        total = plus(total, items[i]);
        proof {
            let grown = running.push(total);
            assert forall|k: int|
                #![trigger items@.take(i + 1)[k]]
                0 <= k < i + 1 implies call_ensures(
                *plus,
                (grown[k], items@.take(i + 1)[k]),
                grown[k + 1],
            ) by {
                if k < i {
                    assert(items@.take(i as int)[k] == items@[k]);
                }
            }
            running = grown;
        }
        i += 1;
    }
    assert(items@.take(i as int) =~= items@);
    total
}

/// Summing the same items from the same start, in order, with an addition
/// that is a function, gives the same total.
pub proof fn lemma_sums_agree<T, A: Fn(T, T) -> T>(
    plus: A,
    zero: T,
    items: Seq<T>,
    first: T,
    second: T,
)
    requires
        plus_is_function(plus),
        summed_in_order(plus, zero, items, first),
        summed_in_order(plus, zero, items, second),
    ensures
        first == second,
{
    let a = choose|running: Seq<T>| #[trigger]
        running_sums(plus, zero, items, running) && running.last() == first;
    let b = choose|running: Seq<T>| #[trigger]
        running_sums(plus, zero, items, running) && running.last() == second;
    lemma_running_sums_agree(plus, zero, items, a, b, items.len() as int);
}

/// Two sequences of partial sums of the same items agree up to any position.
proof fn lemma_running_sums_agree<T, A: Fn(T, T) -> T>(
    plus: A,
    zero: T,
    items: Seq<T>,
    a: Seq<T>,
    b: Seq<T>,
    upto: int,
)
    requires
        plus_is_function(plus),
        running_sums(plus, zero, items, a),
        running_sums(plus, zero, items, b),
        0 <= upto <= items.len(),
    ensures
        a[upto] == b[upto],
    decreases upto,
{
    if upto > 0 {
        lemma_running_sums_agree(plus, zero, items, a, b, upto - 1);
        let k = upto - 1;
        assert(call_ensures(plus, (a[k], items[k]), a[k + 1]));
        assert(call_ensures(plus, (b[k], items[k]), b[k + 1]));
    }
}

/// An ordered sum has every property that its start has, that each item has
/// and that the addition hands on from its operands to the sum: so is a sum
/// of squares, started at zero, never negative.
pub proof fn lemma_sum_keeps<T, A: Fn(T, T) -> T>(
    plus: A,
    zero: T,
    items: Seq<T>,
    total: T,
    keeps: spec_fn(T) -> bool,
)
    requires
        summed_in_order(plus, zero, items, total),
        keeps(zero),
        forall|i: int| 0 <= i < items.len() ==> keeps(#[trigger] items[i]),
        forall|a: T, b: T, c: T|
            keeps(a) && keeps(b) && #[trigger] call_ensures(plus, (a, b), c) ==> keeps(c),
    ensures
        keeps(total),
{
    let running = choose|running: Seq<T>| #[trigger]
        running_sums(plus, zero, items, running) && running.last() == total;
    lemma_running_sums_keep(plus, zero, items, running, keeps, items.len() as int);
}

/// Every partial sum has the property that the start and the items have and
/// the addition hands on.
proof fn lemma_running_sums_keep<T, A: Fn(T, T) -> T>(
    plus: A,
    zero: T,
    items: Seq<T>,
    running: Seq<T>,
    keeps: spec_fn(T) -> bool,
    upto: int,
)
    requires
        running_sums(plus, zero, items, running),
        keeps(zero),
        forall|i: int| 0 <= i < items.len() ==> keeps(#[trigger] items[i]),
        forall|a: T, b: T, c: T|
            keeps(a) && keeps(b) && #[trigger] call_ensures(plus, (a, b), c) ==> keeps(c),
        0 <= upto <= items.len(),
    ensures
        keeps(running[upto]),
    decreases upto,
{
    if upto > 0 {
        lemma_running_sums_keep(plus, zero, items, running, keeps, upto - 1);
        let k = upto - 1;
        assert(keeps(items[k]));
        assert(call_ensures(plus, (running[k], items[k]), running[k + 1]));
    }
}

/// Where a sum can only be zero if both operands are, an ordered sum from
/// zero is zero only if every item is: so is a sum of squares zero only if
/// every square is.
pub proof fn lemma_zero_sum_has_zero_items<T, A: Fn(T, T) -> T>(
    plus: A,
    zero: T,
    items: Seq<T>,
    total: T,
    keeps: spec_fn(T) -> bool,
    is_zero: spec_fn(T) -> bool,
)
    requires
        summed_in_order(plus, zero, items, total),
        keeps(zero),
        forall|i: int| 0 <= i < items.len() ==> keeps(#[trigger] items[i]),
        forall|a: T, b: T, c: T|
            keeps(a) && keeps(b) && #[trigger] call_ensures(plus, (a, b), c) ==> keeps(c) && (
            is_zero(c) ==> is_zero(a) && is_zero(b)),
        is_zero(total),
    ensures
        forall|i: int| 0 <= i < items.len() ==> is_zero(#[trigger] items[i]),
{
    let running = choose|running: Seq<T>| #[trigger]
        running_sums(plus, zero, items, running) && running.last() == total;
    assert forall|i: int| 0 <= i < items.len() implies is_zero(#[trigger] items[i]) by {
        lemma_zero_runs_back(plus, zero, items, running, keeps, is_zero, i);
        lemma_running_sums_keep(plus, zero, items, running, keeps, i);
        assert(call_ensures(plus, (running[i], items[i]), running[i + 1]));
    }
}

/// If the last partial sum is zero, so is every partial sum from `from` on.
proof fn lemma_zero_runs_back<T, A: Fn(T, T) -> T>(
    plus: A,
    zero: T,
    items: Seq<T>,
    running: Seq<T>,
    keeps: spec_fn(T) -> bool,
    is_zero: spec_fn(T) -> bool,
    from: int,
)
    requires
        running_sums(plus, zero, items, running),
        keeps(zero),
        forall|i: int| 0 <= i < items.len() ==> keeps(#[trigger] items[i]),
        forall|a: T, b: T, c: T|
            keeps(a) && keeps(b) && #[trigger] call_ensures(plus, (a, b), c) ==> keeps(c) && (
            is_zero(c) ==> is_zero(a) && is_zero(b)),
        is_zero(running.last()),
        0 <= from < items.len(),
    ensures
        is_zero(running[from + 1]),
    decreases items.len() - from,
{
    if from + 1 < items.len() {
        lemma_zero_runs_back(plus, zero, items, running, keeps, is_zero, from + 1);
        let k = from + 1;
        lemma_running_sums_keep(plus, zero, items, running, keeps, k);
        assert(keeps(items[k]));
        assert(call_ensures(plus, (running[k], items[k]), running[k + 1]));
    }
}

} // verus!
