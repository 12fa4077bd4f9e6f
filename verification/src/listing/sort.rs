//! A stable sort that can be stopped between bounded units of work.
use vstd::prelude::*;
use vstd::set_lib::*;

verus! {

/// `slice::swap` exchanges two elements. It panics on an index that is out of
/// bounds.
#[verifier::external_body]
fn swap_elements<T>(values: &mut Vec<T>, a: usize, b: usize)
    requires
        a < old(values)@.len(),
        b < old(values)@.len(),
    ensures
        final(values)@ == old(values)@.update(a as int, old(values)@[b as int]).update(
            b as int,
            old(values)@[a as int],
        ),
{
    values.swap(a, b)
}

/// `Vec::try_reserve_exact` asks for room for more elements. Whether the
/// allocator gives it is open; the elements stay as they are.
#[verifier::external_body]
pub(crate) fn try_reserve_exact<T>(values: &mut Vec<T>, additional: usize) -> (reserved: bool)
    ensures
        final(values)@ == old(values)@,
{
    values.try_reserve_exact(additional).is_ok()
}

/// Where one value stands in relation to another.
#[derive(Clone, Copy, Debug, Eq, PartialEq, Structural)]
pub enum Order {
    Before,
    Same,
    After,
}

impl Order {
    pub open spec fn reversed(self) -> Order {
        match self {
            Order::Before => Order::After,
            Order::Same => Order::Same,
            Order::After => Order::Before,
        }
    }

    pub fn reverse(self) -> (order: Order)
        ensures
            order == self.reversed(),
    {
        match self {
            Order::Before => Order::After,
            Order::Same => Order::Same,
            Order::After => Order::Before,
        }
    }

    /// This order, or the next one where this one does not tell.
    pub open spec fn or_else(self, next: Order) -> Order {
        match self {
            Order::Same => next,
            _ => self,
        }
    }
}

/// Why a sort did not finish.
#[derive(Clone, Copy, Debug, Eq, PartialEq, Structural)]
pub enum InterruptibleSortFailure {
    Interrupted,
    Allocation,
}

/// How much work is done between two questions whether to go on.
pub const INTERRUPT_CHECK_INTERVAL: usize = 256;

/// An order does not put the value at one position after the value at another.
pub open spec fn not_after<T>(
    order: spec_fn(T, T) -> Order,
    values: Seq<T>,
    left: int,
    right: int,
) -> bool {
    order(values[left], values[right]) != Order::After
}

/// Of each two of the values one is not after the other, and what is not after a
/// value is not after what follows that value either.
pub open spec fn is_consistent<T>(order: spec_fn(T, T) -> Order, values: Seq<T>) -> bool {
    &&& forall|i: int, j: int|
        0 <= i < values.len() && 0 <= j < values.len() ==> #[trigger] not_after(
            order,
            values,
            i,
            j,
        ) || not_after(order, values, j, i)
    &&& forall|i: int, j: int, k: int|
        0 <= i < values.len() && 0 <= j < values.len() && 0 <= k < values.len()
            && #[trigger] not_after(order, values, i, j) && #[trigger] not_after(
            order,
            values,
            j,
            k,
        ) ==> not_after(order, values, i, k)
}

/// A comparison answers with what an order says, and the order is consistent on
/// the values.
pub open spec fn ranks_by<T, F: Fn(&T, &T) -> Order>(
    compare: F,
    values: Seq<T>,
    order: spec_fn(T, T) -> Order,
) -> bool {
    &&& forall|left: T, right: T, answer: Order| #[trigger]
        call_ensures(compare, (&left, &right), answer) ==> answer == order(left, right)
    &&& is_consistent(order, values)
}

/// A stable sort puts the value at one position before the value at another: it
/// is not after it and, where neither is, it came first.
pub open spec fn goes_first<T>(
    order: spec_fn(T, T) -> Order,
    values: Seq<T>,
    left: int,
    right: int,
) -> bool {
    not_after(order, values, left, right) && (not_after(order, values, right, left) ==> left
        < right)
}

/// Each of the positions below a length, once.
pub open spec fn is_placement(places: Seq<int>, length: nat) -> bool {
    &&& places.len() == length
    &&& forall|i: int| 0 <= i < length ==> 0 <= #[trigger] places[i] < length
    &&& forall|i: int, j: int| 0 <= i < j < length ==> #[trigger] places[i] != #[trigger] places[j]
}

/// The values in another order: at each place, the one that stood at the position
/// that the placement names.
pub open spec fn rearranged<T>(before: Seq<T>, after: Seq<T>, places: Seq<int>) -> bool {
    &&& is_placement(places, before.len())
    &&& after == Seq::new(before.len(), |i: int| before[places[i]])
}

/// The placement of a stable sort.
pub open spec fn sorts_stably<T>(
    order: spec_fn(T, T) -> Order,
    values: Seq<T>,
    places: Seq<int>,
) -> bool {
    forall|i: int, j: int|
        0 <= i < j < values.len() ==> goes_first(
            order,
            values,
            #[trigger] places[i],
            #[trigger] places[j],
        )
}

spec fn in_run(position: int, run: int, width: int) -> bool {
    run * width <= position < (run + 1) * width
}

proof fn lemma_runs_are_disjoint(position: int, left: int, right: int, width: int)
    requires
        width > 0,
        in_run(position, left, width),
        in_run(position, right, width),
    ensures
        left == right,
{
    assert(left == right) by (nonlinear_arith)
        requires
            width > 0,
            left * width <= position < (left + 1) * width,
            right * width <= position < (right + 1) * width,
    ;
}

/// Part of a list of positions is sorted.
spec fn sorted_between<T>(
    order: spec_fn(T, T) -> Order,
    values: Seq<T>,
    list: Seq<usize>,
    from: int,
    to: int,
) -> bool {
    forall|i: int, j: int|
        from <= i < j < to ==> goes_first(
            order,
            values,
            #[trigger] list[i] as int,
            #[trigger] list[j] as int,
        )
}

/// Part of one list goes before part of another.
spec fn goes_before<T>(
    order: spec_fn(T, T) -> Order,
    values: Seq<T>,
    first: Seq<usize>,
    first_part: (int, int),
    second: Seq<usize>,
    second_part: (int, int),
) -> bool {
    forall|i: int, k: int|
        first_part.0 <= i < first_part.1 && second_part.0 <= k < second_part.1 ==> goes_first(
            order,
            values,
            #[trigger] first[i] as int,
            #[trigger] second[k] as int,
        )
}

/// The runs of a width are sorted, as far as a length.
spec fn runs_are_sorted<T>(
    order: spec_fn(T, T) -> Order,
    values: Seq<T>,
    current: Seq<usize>,
    length: int,
    width: int,
) -> bool {
    forall|i: int, j: int, run: int|
        0 <= i < j < length && 0 <= run && #[trigger] in_run(i, run, width) && #[trigger] in_run(
            j,
            run,
            width,
        ) ==> goes_first(order, values, current[i] as int, current[j] as int)
}

/// Positions in runs of a width: each run holds its own positions and is sorted
/// by every order that the comparison ranks by.
spec fn has_runs<T, F: Fn(&T, &T) -> Order>(
    compare: F,
    values: Seq<T>,
    current: Seq<usize>,
    length: int,
    width: int,
) -> bool {
    &&& current.len() >= length
    &&& forall|i: int, run: int|
        0 <= i < length && 0 <= run && #[trigger] in_run(i, run, width) ==> in_run(
            current[i] as int,
            run,
            width,
        ) && current[i] < values.len()
    &&& forall|i: int, j: int|
        0 <= i < j < length ==> #[trigger] current[i] != #[trigger] current[j]
    &&& forall|order: spec_fn(T, T) -> Order| #[trigger]
        ranks_by(compare, values, order) ==> runs_are_sorted(order, values, current, length, width)
}

/// Counts one unit of work and asks now and then whether to go on.
fn count_work<A: Fn() -> bool>(work: usize, active: &A) -> (counted: Result<
    usize,
    InterruptibleSortFailure,
>)
    requires
        work < INTERRUPT_CHECK_INTERVAL,
        call_requires(*active, ()),
    ensures
        if work + 1 < INTERRUPT_CHECK_INTERVAL {
            counted == Ok::<usize, InterruptibleSortFailure>((work + 1) as usize)
        } else {
            match counted {
                Ok(counted) => counted == 0 && call_ensures(*active, (), true),
                Err(failure) => failure == InterruptibleSortFailure::Interrupted && call_ensures(
                    *active,
                    (),
                    false,
                ),
            }
        },
{
    let work = work + 1;
    if work >= INTERRUPT_CHECK_INTERVAL {
        if !active() {
            return Err(InterruptibleSortFailure::Interrupted);
        }
        return Ok(0);
    }
    Ok(work)
}

/// Merges two neighbouring sorted runs into one.
#[verifier::rlimit(60)]
fn merge_runs<T, F: Fn(&T, &T) -> Order, A: Fn() -> bool>(
    values: &Vec<T>,
    current: &Vec<usize>,
    next: Vec<usize>,
    bounds: (usize, usize, usize),
    work: usize,
    compare: &F,
    active: &A,
) -> (merged: Result<(Vec<usize>, usize), InterruptibleSortFailure>)
    requires
        bounds.0 <= bounds.1 <= bounds.2 <= values@.len(),
        current@.len() == values@.len(),
        next@.len() == bounds.0,
        work < INTERRUPT_CHECK_INTERVAL,
        call_requires(*active, ()),
        forall|a: T, b: T| #[trigger] call_requires(*compare, (&a, &b)),
        forall|i: int| bounds.0 <= i < bounds.1 ==> bounds.0 <= #[trigger] current@[i] < bounds.1,
        forall|i: int| bounds.1 <= i < bounds.2 ==> bounds.1 <= #[trigger] current@[i] < bounds.2,
        forall|i: int, j: int|
            bounds.0 <= i < j < bounds.2 ==> #[trigger] current@[i] != #[trigger] current@[j],
        forall|order: spec_fn(T, T) -> Order| #[trigger]
            ranks_by(*compare, values@, order) ==> sorted_between(
                order,
                values@,
                current@,
                bounds.0 as int,
                bounds.1 as int,
            ) && sorted_between(order, values@, current@, bounds.1 as int, bounds.2 as int),
    ensures
        merged matches Ok((merged, work)) ==> {
            &&& work < INTERRUPT_CHECK_INTERVAL
            &&& merged@.len() == bounds.2
            &&& forall|i: int| 0 <= i < bounds.0 ==> #[trigger] merged@[i] == next@[i]
            &&& forall|i: int|
                bounds.0 <= i < bounds.2 ==> bounds.0 <= #[trigger] merged@[i] < bounds.2
            &&& forall|i: int, j: int|
                bounds.0 <= i < j < bounds.2 ==> #[trigger] merged@[i] != #[trigger] merged@[j]
            &&& forall|order: spec_fn(T, T) -> Order| #[trigger]
                ranks_by(*compare, values@, order) ==> sorted_between(
                    order,
                    values@,
                    merged@,
                    bounds.0 as int,
                    bounds.2 as int,
                )
        },
        merged matches Err(failure) ==> failure == InterruptibleSortFailure::Interrupted
            && call_ensures(*active, (), false),
{
    let (start, middle, end) = bounds;
    let mut merged: Vec<usize> = next;
    let mut work: usize = work;
    let mut left: usize = start;
    let mut right: usize = middle;
    while left < middle || right < end
        invariant
            start <= left <= middle <= right <= end <= values@.len(),
            current@.len() == values@.len(),
            next@.len() == start,
            merged@.len() == left + right - middle,
            work < INTERRUPT_CHECK_INTERVAL,
            call_requires(*active, ()),
            forall|a: T, b: T| #[trigger] call_requires(*compare, (&a, &b)),
            forall|i: int| start <= i < middle ==> start <= #[trigger] current@[i] < middle,
            forall|i: int| middle <= i < end ==> middle <= #[trigger] current@[i] < end,
            forall|i: int, j: int|
                start <= i < j < end ==> #[trigger] current@[i] != #[trigger] current@[j],
            forall|order: spec_fn(T, T) -> Order| #[trigger]
                ranks_by(*compare, values@, order) ==> sorted_between(
                    order,
                    values@,
                    current@,
                    start as int,
                    middle as int,
                ) && sorted_between(order, values@, current@, middle as int, end as int),
            forall|i: int| 0 <= i < start ==> #[trigger] merged@[i] == next@[i],
            forall|i: int| start <= i < merged@.len() ==> start <= #[trigger] merged@[i] < end,
            forall|i: int, j: int|
                start <= i < j < merged@.len() ==> #[trigger] merged@[i] != #[trigger] merged@[j],
            forall|i: int, k: int|
                start <= i < merged@.len() && (left <= k < middle || right <= k < end)
                    ==> #[trigger] merged@[i] != #[trigger] current@[k],
            forall|order: spec_fn(T, T) -> Order| #[trigger]
                ranks_by(*compare, values@, order) ==> {
                    let done = (start as int, merged@.len() as int);
                    &&& sorted_between(order, values@, merged@, done.0, done.1)
                    &&& goes_before(
                        order,
                        values@,
                        merged@,
                        done,
                        current@,
                        (left as int, middle as int),
                    )
                    &&& goes_before(
                        order,
                        values@,
                        merged@,
                        done,
                        current@,
                        (right as int, end as int),
                    )
                },
        decreases (middle - left) + (end - right),
    {
        work = match count_work(work, active) {
            Ok(work) => work,
            Err(failure) => return Err(failure),
        };
        let take_left = if right == end {
            true
        } else if left < middle {
            let order = compare(&values[current[left]], &values[current[right]]);
            order != Order::After
        } else {
            false
        };
        let ghost before = merged@;
        let ghost (l, r) = (left as int, right as int);
        if take_left {
            merged.push(current[left]);
            left += 1;
            proof {
                let a = current@[l] as int;
                assert forall|order: spec_fn(T, T) -> Order| #[trigger]
                    ranks_by(*compare, values@, order) implies ({
                    let done = (start as int, merged@.len() as int);
                    &&& sorted_between(order, values@, merged@, done.0, done.1)
                    &&& goes_before(
                        order,
                        values@,
                        merged@,
                        done,
                        current@,
                        (left as int, middle as int),
                    )
                    &&& goes_before(
                        order,
                        values@,
                        merged@,
                        done,
                        current@,
                        (right as int, end as int),
                    )
                }) by {
                    assert forall|k: int| l < k < middle || r <= k < end implies #[trigger] goes_first(
                        order,
                        values@,
                        a,
                        current@[k] as int,
                    ) by {
                        if r <= k {
                            let b = current@[r] as int;
                            let c = current@[k] as int;
                            assert(not_after(order, values@, a, b));
                            assert(k == r || goes_first(order, values@, b, c));
                            assert(not_after(order, values@, a, c));
                        }
                    }
                }
            }
        } else {
            merged.push(current[right]);
            right += 1;
            proof {
                let b = current@[r] as int;
                assert forall|order: spec_fn(T, T) -> Order| #[trigger]
                    ranks_by(*compare, values@, order) implies ({
                    let done = (start as int, merged@.len() as int);
                    &&& sorted_between(order, values@, merged@, done.0, done.1)
                    &&& goes_before(
                        order,
                        values@,
                        merged@,
                        done,
                        current@,
                        (left as int, middle as int),
                    )
                    &&& goes_before(
                        order,
                        values@,
                        merged@,
                        done,
                        current@,
                        (right as int, end as int),
                    )
                }) by {
                    assert forall|k: int| l <= k < middle || r < k < end implies #[trigger] goes_first(
                        order,
                        values@,
                        b,
                        current@[k] as int,
                    ) by {
                        if k < middle {
                            let a = current@[l] as int;
                            let c = current@[k] as int;
                            assert(!not_after(order, values@, a, b));
                            assert(not_after(order, values@, b, a));
                            if k > l {
                                assert(goes_first(order, values@, a, c));
                                assert(not_after(order, values@, b, c));
                                if not_after(order, values@, c, b) {
                                    assert(not_after(order, values@, a, b));
                                }
                            }
                        }
                    }
                }
            }
        }
    }
    Ok((merged, work))
}

/// Merges the runs of a width two by two.
#[verifier::rlimit(60)]
fn merge_pass<T, F: Fn(&T, &T) -> Order, A: Fn() -> bool>(
    values: &Vec<T>,
    current: &Vec<usize>,
    next: Vec<usize>,
    width: usize,
    work: usize,
    compare: &F,
    active: &A,
) -> (merged: Result<(Vec<usize>, usize), InterruptibleSortFailure>)
    requires
        0 < width < values@.len(),
        current@.len() == values@.len(),
        next@.len() == 0,
        work < INTERRUPT_CHECK_INTERVAL,
        call_requires(*active, ()),
        forall|a: T, b: T| #[trigger] call_requires(*compare, (&a, &b)),
        has_runs(*compare, values@, current@, values@.len() as int, width as int),
    ensures
        merged matches Ok((merged, work)) ==> {
            &&& work < INTERRUPT_CHECK_INTERVAL
            &&& merged@.len() == values@.len()
            &&& has_runs(*compare, values@, merged@, values@.len() as int, 2 * width as int)
        },
        merged matches Err(failure) ==> failure == InterruptibleSortFailure::Interrupted
            && call_ensures(*active, (), false),
{
    let len = values.len();
    let mut merged: Vec<usize> = next;
    let mut work: usize = work;
    let mut start: usize = 0;
    let ghost mut run: int = 0;
    while start < len
        invariant
            0 < width < len,
            len == values@.len(),
            current@.len() == len,
            start <= len,
            0 <= run,
            start == run * (2 * width) || start == len,
            merged@.len() == start,
            work < INTERRUPT_CHECK_INTERVAL,
            call_requires(*active, ()),
            forall|a: T, b: T| #[trigger] call_requires(*compare, (&a, &b)),
            has_runs(*compare, values@, current@, len as int, width as int),
            has_runs(*compare, values@, merged@, start as int, 2 * width as int),
            forall|i: int| 0 <= i < start ==> #[trigger] merged@[i] < start,
        decreases len - start,
    {
        let middle = if width < len - start {
            start + width
        } else {
            len
        };
        let end = if width < len - middle {
            middle + width
        } else {
            len
        };
        let ghost before = merged@;
        proof {
            let w = width as int;
            assert((2 * run) * w == start && (2 * run + 1) * w == start + w && (2 * run + 2) * w
                == start + 2 * w && (run + 1) * (2 * w) == start + 2 * w) by (nonlinear_arith)
                requires
                    start == run * (2 * w),
            ;
            assert forall|i: int| start <= i < middle implies start <= #[trigger] current@[i]
                < middle by {
                assert(in_run(i, 2 * run, w));
            }
            assert forall|i: int| middle <= i < end implies middle <= #[trigger] current@[i]
                < end by {
                assert(in_run(i, 2 * run + 1, w));
            }
            assert forall|order: spec_fn(T, T) -> Order| #[trigger]
                ranks_by(*compare, values@, order) implies sorted_between(
                order,
                values@,
                current@,
                start as int,
                middle as int,
            ) && sorted_between(order, values@, current@, middle as int, end as int) by {
                assert forall|i: int, j: int|
                    (start <= i < j < middle || middle <= i < j < end) implies goes_first(
                    order,
                    values@,
                    #[trigger] current@[i] as int,
                    #[trigger] current@[j] as int,
                ) by {
                    if j < middle {
                        assert(in_run(i, 2 * run, w) && in_run(j, 2 * run, w));
                    } else {
                        assert(in_run(i, 2 * run + 1, w) && in_run(j, 2 * run + 1, w));
                    }
                }
            }
        }
        match merge_runs(values, current, merged, (start, middle, end), work, compare, active) {
            Ok((longer, counted)) => {
                merged = longer;
                work = counted;
            },
            Err(failure) => return Err(failure),
        }
        proof {
            let w = width as int;
            assert(forall|i: int| 0 <= i < start ==> #[trigger] merged@[i] == before[i]);
            assert forall|i: int, other: int|
                0 <= i < end && 0 <= other && #[trigger] in_run(i, other, 2 * w) implies in_run(
                merged@[i] as int,
                other,
                2 * w,
            ) && merged@[i] < values@.len() by {
                if start <= i {
                    assert(in_run(i, run, 2 * w));
                    lemma_runs_are_disjoint(i, run, other, 2 * w);
                } else {
                    assert(merged@[i] == before[i]);
                }
            }
            assert forall|i: int, j: int| 0 <= i < j < end implies #[trigger] merged@[i]
                != #[trigger] merged@[j] by {
                if i < start {
                    assert(merged@[i] == before[i]);
                    if j < start {
                        assert(merged@[j] == before[j]);
                    }
                }
            }
            assert forall|order: spec_fn(T, T) -> Order| #[trigger]
                ranks_by(*compare, values@, order) implies runs_are_sorted(
                order,
                values@,
                merged@,
                end as int,
                2 * w,
            ) by {
                assert forall|i: int, j: int, other: int|
                    0 <= i < j < end && 0 <= other && #[trigger] in_run(i, other, 2 * w)
                        && #[trigger] in_run(j, other, 2 * w) implies goes_first(
                    order,
                    values@,
                    merged@[i] as int,
                    merged@[j] as int,
                ) by {
                    if start <= j {
                        assert(in_run(j, run, 2 * w));
                        lemma_runs_are_disjoint(j, run, other, 2 * w);
                    } else {
                        assert(merged@[i] == before[i] && merged@[j] == before[j]);
                    }
                }
            }
            run = run + 1;
        }
        start = end;
    }
    Ok((merged, work))
}

/// Positions in their order.
pub open spec fn are_in_order(positions: Seq<usize>, length: nat) -> bool {
    positions.len() == length && forall|i: int|
        0 <= i < length ==> #[trigger] positions[i] == i
}

/// Lists the positions of so many values in a list that is empty so far.
fn list_positions<A: Fn() -> bool>(empty: Vec<usize>, len: usize, active: &A) -> (listed: Result<
    (Vec<usize>, usize),
    InterruptibleSortFailure,
>)
    requires
        empty@.len() == 0,
        call_requires(*active, ()),
    ensures
        listed matches Ok((positions, work)) ==> are_in_order(positions@, len as nat) && work
            < INTERRUPT_CHECK_INTERVAL,
        listed matches Err(failure) ==> failure == InterruptibleSortFailure::Interrupted
            && call_ensures(*active, (), false),
{
    let mut positions: Vec<usize> = empty;
    let mut work: usize = 0;
    let mut index: usize = 0;
    while index < len
        invariant
            index <= len,
            are_in_order(positions@, index as nat),
            work < INTERRUPT_CHECK_INTERVAL,
            call_requires(*active, ()),
        decreases len - index,
    {
        work = match count_work(work, active) {
            Ok(work) => work,
            Err(failure) => return Err(failure),
        };
        positions.push(index);
        index += 1;
    }
    Ok((positions, work))
}

/// The positions of the values in sorted order.
#[verifier::rlimit(60)]
fn sorted_positions<T, F: Fn(&T, &T) -> Order, A: Fn() -> bool>(
    values: &Vec<T>,
    positions: Vec<usize>,
    scratch: Vec<usize>,
    work: usize,
    compare: &F,
    active: &A,
) -> (sorted: Result<(Vec<usize>, Vec<usize>, usize), InterruptibleSortFailure>)
    requires
        are_in_order(positions@, values@.len()),
        work < INTERRUPT_CHECK_INTERVAL,
        call_requires(*active, ()),
        forall|a: T, b: T| #[trigger] call_requires(*compare, (&a, &b)),
    ensures
        sorted matches Ok((current, next, work)) ==> {
            let places = Seq::new(current@.len(), |i: int| current@[i] as int);
            &&& work < INTERRUPT_CHECK_INTERVAL
            &&& is_placement(places, values@.len())
            &&& forall|order: spec_fn(T, T) -> Order| #[trigger]
                ranks_by(*compare, values@, order) ==> sorts_stably(order, values@, places)
        },
        sorted matches Err(failure) ==> failure == InterruptibleSortFailure::Interrupted
            && call_ensures(*active, (), false),
{
    let len = values.len();
    let mut current: Vec<usize> = positions;
    let mut next: Vec<usize> = scratch;
    let mut work: usize = work;
    let mut width: usize = 1;
    let ghost mut wide: int = 1;
    while width < len
        invariant
            len == values@.len(),
            current@.len() == len,
            0 < width <= wide,
            width == wide || width == len,
            work < INTERRUPT_CHECK_INTERVAL,
            call_requires(*active, ()),
            forall|a: T, b: T| #[trigger] call_requires(*compare, (&a, &b)),
            has_runs(*compare, values@, current@, len as int, wide),
        decreases len - width,
    {
        next.clear();
        match merge_pass(values, &current, next, width, work, compare, active) {
            Ok((merged, counted)) => {
                next = current;
                current = merged;
                work = counted;
            },
            Err(failure) => return Err(failure),
        }
        width = if width > len / 2 {
            len
        } else {
            2 * width
        };
        proof {
            wide = 2 * wide;
        }
    }
    proof {
        assert forall|i: int| 0 <= i < len implies 0 <= #[trigger] current@[i] < len by {
            assert(in_run(i, 0, wide));
        }
        let places = Seq::new(current@.len(), |i: int| current@[i] as int);
        assert forall|order: spec_fn(T, T) -> Order| #[trigger]
            ranks_by(*compare, values@, order) implies sorts_stably(order, values@, places) by {
            assert forall|i: int, j: int| 0 <= i < j < len implies goes_first(
                order,
                values@,
                #[trigger] places[i],
                #[trigger] places[j],
            ) by {
                assert(in_run(i, 0, wide) && in_run(j, 0, wide));
            }
        }
    }
    Ok((current, next, work))
}

/// A placement leaves no position out.
proof fn lemma_placements_reach_all(places: Seq<int>, length: nat, position: int)
    requires
        is_placement(places, length),
        0 <= position < length,
    ensures
        exists|i: int| 0 <= i < length && #[trigger] places[i] == position,
{
    assert(places.no_duplicates());
    places.unique_seq_to_set();
    lemma_int_range(0, length as int);
    let all = set_int_range(0, length as int);
    assert(places.to_set().subset_of(all)) by {
        assert forall|x: int| places.to_set().contains(x) implies all.contains(x) by {
            let i = choose|i: int| 0 <= i < places.len() && places[i] == x;
            assert(0 <= places[i] < length);
        }
    }
    lemma_subset_equality(places.to_set(), all);
    assert(places.to_set().contains(position));
    let i = choose|i: int| 0 <= i < places.len() && places[i] == position;
    assert(places[i] == position);
}

/// The positions whose values have arrived.
spec fn settled(next: Seq<usize>) -> Set<int> {
    Set::new(|i: int| 0 <= i < next.len() && next[i] == i)
}

proof fn lemma_settled_is_finite(next: Seq<usize>)
    ensures
        settled(next).finite(),
        settled(next).len() <= next.len(),
{
    lemma_int_range(0, next.len() as int);
    assert(settled(next).subset_of(set_int_range(0, next.len() as int)));
    lemma_len_subset(settled(next), set_int_range(0, next.len() as int));
    lemma_set_subset_finite(set_int_range(0, next.len() as int), settled(next));
}

/// Where the value at each position came from, once the sorted order is known
/// and the values are on their way.
spec fn origins(current: Seq<usize>, next: Seq<usize>) -> Seq<int> {
    Seq::new(next.len(), |i: int| current[next[i] as int] as int)
}

/// Turns the positions of the sorted order into the places to move to.
fn invert_positions<A: Fn() -> bool>(
    current: &Vec<usize>,
    next: Vec<usize>,
    work: usize,
    active: &A,
) -> (inverted: Result<(Vec<usize>, usize), InterruptibleSortFailure>)
    requires
        is_placement(Seq::new(current@.len(), |i: int| current@[i] as int), current@.len()),
        work < INTERRUPT_CHECK_INTERVAL,
        call_requires(*active, ()),
    ensures
        inverted matches Ok((inverted, work)) ==> {
            &&& work < INTERRUPT_CHECK_INTERVAL
            &&& inverted@.len() == current@.len()
            &&& forall|i: int|
                0 <= i < current@.len() ==> #[trigger] inverted@[i] < current@.len()
                    && current@[inverted@[i] as int] == i
        },
        inverted matches Err(failure) ==> failure == InterruptibleSortFailure::Interrupted
            && call_ensures(*active, (), false),
{
    let len = current.len();
    let ghost places = Seq::new(current@.len(), |i: int| current@[i] as int);
    let mut work: usize = work;
    let mut inverted: Vec<usize> = next;
    inverted.clear();
    inverted.resize(len, 0);
    let mut place: usize = 0;
    while place < len
        invariant
            len == current@.len(),
            places == Seq::new(current@.len(), |i: int| current@[i] as int),
            is_placement(places, len as nat),
            place <= len,
            inverted@.len() == len,
            work < INTERRUPT_CHECK_INTERVAL,
            call_requires(*active, ()),
            forall|i: int| 0 <= i < place ==> inverted@[#[trigger] current@[i] as int] == i,
        decreases len - place,
    {
        work = match count_work(work, active) {
            Ok(work) => work,
            Err(failure) => return Err(failure),
        };
        let old_position = current[place];
        assert(places[place as int] == old_position);
        assert forall|i: int| 0 <= i < place implies #[trigger] current@[i] != old_position by {
            assert(places[i] != places[place as int]);
        }
        assert forall|i: int| 0 <= i < place implies #[trigger] current@[i] < len by {
            assert(places[i] < len);
        }
        inverted.set(old_position, place);
        place += 1;
    }
    assert forall|i: int| 0 <= i < len implies #[trigger] inverted@[i] < len
        && current@[inverted@[i] as int] == i by {
        lemma_placements_reach_all(places, len as nat, i);
        let from = choose|from: int| 0 <= from < len && places[from] == i;
        assert(current@[from] == i);
    }
    Ok((inverted, work))
}

/// What is known while values move to their places.
spec fn is_on_the_way<T>(
    values: Seq<T>,
    start: Seq<T>,
    current: Seq<usize>,
    next: Seq<usize>,
) -> bool {
    &&& current.len() == start.len()
    &&& values.len() == start.len()
    &&& next.len() == start.len()
    &&& is_placement(Seq::new(current.len(), |i: int| current[i] as int), start.len())
    &&& forall|i: int| 0 <= i < next.len() ==> #[trigger] next[i] < next.len()
    &&& forall|i: int, j: int| 0 <= i < j < next.len() ==> #[trigger] next[i] != #[trigger] next[j]
    &&& forall|i: int|
        0 <= i < next.len() ==> #[trigger] values[i] == start[current[next[i] as int] as int]
}

proof fn lemma_values_on_the_way<T>(
    values: Seq<T>,
    start: Seq<T>,
    current: Seq<usize>,
    next: Seq<usize>,
)
    requires
        is_on_the_way(values, start, current, next),
    ensures
        rearranged(start, values, origins(current, next)),
{
    let places = Seq::new(current.len(), |i: int| current[i] as int);
    let from = origins(current, next);
    assert forall|i: int| 0 <= i < start.len() implies 0 <= #[trigger] from[i] < start.len() by {
        assert(0 <= places[next[i] as int] < start.len());
    }
    assert forall|i: int, j: int| 0 <= i < j < start.len() implies #[trigger] from[i]
        != #[trigger] from[j] by {
        assert(next[i] != next[j]);
        assert(places[next[i] as int] != places[next[j] as int]);
    }
    assert(values =~= Seq::new(start.len(), |i: int| start[from[i]]));
}

/// Sorts values in place, stably, whose positions are listed, and asks now and then
/// whether to go on. The merges use the second list. The answers alone decide whether the
/// sort comes to its end.
#[verifier::rlimit(60)]
pub fn sort_listed<T, F: Fn(&T, &T) -> Order, A: Fn() -> bool>(
    values: &mut Vec<T>,
    positions: Vec<usize>,
    scratch: Vec<usize>,
    work: usize,
    compare: &F,
    active: &A,
) -> (result: Result<(), InterruptibleSortFailure>)
    requires
        are_in_order(positions@, old(values)@.len()),
        work < INTERRUPT_CHECK_INTERVAL,
        call_requires(*active, ()),
        forall|a: T, b: T| #[trigger] call_requires(*compare, (&a, &b)),
    ensures
        exists|places: Seq<int>| #[trigger]
            rearranged(old(values)@, final(values)@, places) && (result is Ok ==> forall|
                order: spec_fn(T, T) -> Order,
            | #[trigger]
                ranks_by(*compare, old(values)@, order) ==> sorts_stably(
                    order,
                    old(values)@,
                    places,
                )),
        result matches Err(failure) ==> failure == InterruptibleSortFailure::Interrupted
            && call_ensures(*active, (), false),
        result is Ok ==> call_ensures(*active, (), true),
{
    let ghost start = values@;
    proof {
        lemma_unmoved_values(start);
    }
    let len = values.len();
    let (current, next, mut work) = match sorted_positions(
        values,
        positions,
        scratch,
        work,
        compare,
        active,
    ) {
        Ok(sorted) => sorted,
        Err(failure) => return Err(failure),
    };
    let ghost places = Seq::new(current@.len(), |i: int| current@[i] as int);
    let mut next: Vec<usize> = match invert_positions(&current, next, work, active) {
        Ok((inverted, counted)) => {
            work = counted;
            inverted
        },
        Err(failure) => return Err(failure),
    };
    proof {
        assert forall|i: int, j: int| 0 <= i < j < len implies #[trigger] next@[i]
            != #[trigger] next@[j] by {
            assert(current@[next@[i] as int] == i && current@[next@[j] as int] == j);
        }
        assert(is_on_the_way(values@, start, current@, next@));
    }
    let mut position: usize = 0;
    while position < len
        invariant
            len == start.len(),
            position <= len,
            work < INTERRUPT_CHECK_INTERVAL,
            call_requires(*active, ()),
            start == old(values)@,
            is_on_the_way(values@, start, current@, next@),
            forall|i: int| 0 <= i < position ==> #[trigger] next@[i] == i,
        decreases len - position,
    {
        while next[position] != position
            invariant
                len == start.len(),
                position < len,
                work < INTERRUPT_CHECK_INTERVAL,
                call_requires(*active, ()),
                start == old(values)@,
                is_on_the_way(values@, start, current@, next@),
                forall|i: int| 0 <= i < position ==> #[trigger] next@[i] == i,
            decreases len - settled(next@).len(),
        {
            match count_work(work, active) {
                Ok(counted) => {
                    work = counted;
                },
                Err(failure) => {
                    proof {
                        lemma_values_on_the_way(values@, start, current@, next@);
                    }
                    return Err(failure);
                },
            }
            let destination = next[position];
            let ghost before = next@;
            swap_elements(values, position, destination);
            swap_elements(&mut next, position, destination);
            proof {
                lemma_settled_is_finite(before);
                lemma_settled_is_finite(next@);
                assert(before[destination as int] != destination);
                assert(settled(before).insert(destination as int).subset_of(settled(next@)));
                lemma_len_subset(settled(before).insert(destination as int), settled(next@));
            }
        }
        position += 1;
    }
    proof {
        lemma_values_on_the_way(values@, start, current@, next@);
        assert(origins(current@, next@) =~= places);
    }
    if !active() {
        return Err(InterruptibleSortFailure::Interrupted);
    }
    Ok(())
}

proof fn lemma_unmoved_values<T>(values: Seq<T>)
    ensures
        rearranged(values, values, Seq::new(values.len(), |i: int| i)),
{
    let stay = Seq::new(values.len(), |i: int| i);
    assert(values =~= Seq::new(values.len(), |i: int| values[stay[i]]));
}

/// Sorts values in place, stably, and asks now and then whether to go on. What
/// it leaves behind is always the same values in some order, and the same list
/// where the first answer is not to go on.
///
/// Whether the allocator has room for two lists of positions is open.
pub fn stable_sort_by_interruptible<T, F: Fn(&T, &T) -> Order, A: Fn() -> bool>(
    values: &mut Vec<T>,
    compare: F,
    active: A,
) -> (result: Result<(), InterruptibleSortFailure>)
    requires
        call_requires(active, ()),
        forall|a: T, b: T| #[trigger] call_requires(compare, (&a, &b)),
    ensures
        exists|places: Seq<int>| #[trigger]
            rearranged(old(values)@, final(values)@, places) && (result is Ok ==> forall|
                order: spec_fn(T, T) -> Order,
            | #[trigger]
                ranks_by(compare, old(values)@, order) ==> sorts_stably(
                    order,
                    old(values)@,
                    places,
                )),
        result == Err::<(), InterruptibleSortFailure>(InterruptibleSortFailure::Interrupted)
            ==> call_ensures(active, (), false),
        result == Err::<(), InterruptibleSortFailure>(InterruptibleSortFailure::Allocation)
            ==> old(values)@.len() >= 2 && final(values)@ == old(values)@ && call_ensures(
            active,
            (),
            true,
        ),
        result is Ok ==> call_ensures(active, (), true),
        final(values)@ == old(values)@ || call_ensures(active, (), true),
{
    proof {
        lemma_unmoved_values(values@);
    }
    if !active() {
        return Err(InterruptibleSortFailure::Interrupted);
    }
    let len = values.len();
    if len < 2 {
        return Ok(());
    }
    let mut positions: Vec<usize> = Vec::new();
    if !try_reserve_exact(&mut positions, len) {
        return Err(InterruptibleSortFailure::Allocation);
    }
    let (positions, work) = match list_positions(positions, len, &active) {
        Ok(listed) => listed,
        Err(failure) => return Err(failure),
    };
    let mut scratch: Vec<usize> = Vec::new();
    if !try_reserve_exact(&mut scratch, len) {
        return Err(InterruptibleSortFailure::Allocation);
    }
    sort_listed(values, positions, scratch, work, &compare, &active)
}

/// A stable sort puts nothing behind what it is before, keeps what it cannot tell apart
/// in the order that it had, and neither drops nor repeats a value.
pub proof fn law_stable_sorts_keep_and_order<T>(
    order: spec_fn(T, T) -> Order,
    before: Seq<T>,
    after: Seq<T>,
    places: Seq<int>,
    first: int,
    second: int,
)
    requires
        rearranged(before, after, places),
        sorts_stably(order, before, places),
        0 <= first < second < after.len(),
    ensures
        after.len() == before.len(),
        order(after[first], after[second]) != Order::After,
        order(after[second], after[first]) != Order::After ==> places[first] < places[second],
        after[first] == before[places[first]],
        after[second] == before[places[second]],
        places[first] != places[second],
        0 <= places[first] < before.len(),
        0 <= places[second] < before.len(),
{
    assert(goes_first(order, before, places[first], places[second]));
}

/// An order turned round puts first what was last, and turned round twice it is the
/// same again. Where a first criterion says nothing the next one decides, and only
/// there.
pub proof fn law_orders_turn_round(first: Order, next: Order)
    ensures
        first.reversed().reversed() == first,
        first == Order::Before <==> first.reversed() == Order::After,
        first == Order::Same ==> first.or_else(next) == next,
        first != Order::Same ==> first.or_else(next) == first,
{
}

} // verus!
