//! What listings may hold in memory.
use crate::listing::items;
use crate::listing::items::{PathItem, PathItemView};
use crate::listing::problems::{ListingError, ListingErrorView, ListingProblem};
use crate::listing::sort::try_reserve_exact;
use crate::paths::LexicalPath;
use vstd::prelude::*;
use vstd::layout;
use vstd::string::*;
use vstd::utf8::*;

verus! {

/// A number, or the largest one where it is larger.
pub open spec fn capped(number: int) -> usize {
    if number > usize::MAX {
        usize::MAX
    } else {
        number as usize
    }
}

/// The product of two numbers, or the largest number where it is larger.
pub fn saturating_product(left: usize, right: usize) -> (product: usize)
    ensures
        product == capped(left * right),
{
    match left.checked_mul(right) {
        Some(product) => product,
        None => usize::MAX,
    }
}

/// `Vec::capacity`: how many elements fit without another allocation, which is no
/// fewer than there are. How many more is up to the allocator.
#[verifier::external_body]
pub(crate) fn vec_capacity<T>(values: &Vec<T>) -> (capacity: usize)
    ensures
        capacity >= values@.len(),
{
    values.capacity()
}

/// `Vec::shrink_to_fit` gives memory back, as far as the allocator takes it. The
/// elements stay as they are.
#[verifier::external_body]
fn shrink_to_fit<T>(values: &mut Vec<T>)
    ensures
        final(values)@ == old(values)@,
{
    values.shrink_to_fit()
}

/// `String::capacity`: how many bytes fit without another allocation, which is no
/// fewer than there are. How many more is up to the allocator.
#[verifier::external_body]
fn string_capacity(text: &String) -> (capacity: usize)
    ensures
        capacity >= encode_utf8(text@).len(),
{
    text.capacity()
}

/// What a list takes: itself, room for its elements, and what they hold.
pub open spec fn collection_bytes(capacity: int, item_size: int, heap_bytes: int) -> usize {
    capped(layout::size_of::<Vec<()>>() + capacity * item_size + heap_bytes)
}

pub fn collection_allocation_bytes(capacity: usize, item_size: usize, heap_bytes: usize) -> (bytes:
    usize)
    ensures
        bytes == collection_bytes(capacity as int, item_size as int, heap_bytes as int),
{
    let header = core::mem::size_of::<Vec<()>>();
    let elements = saturating_product(capacity, item_size);
    assert(capacity * item_size >= 0) by (nonlinear_arith);
    header.saturating_add(elements).saturating_add(heap_bytes)
}

/// Adds the room that the names of an entry have to what others take.
pub fn add_name_capacities(total: usize, name_capacity: usize, sort_name_capacity: usize) -> (bytes:
    usize)
    ensures
        bytes == capped(total + name_capacity + sort_name_capacity),
{
    total.saturating_add(name_capacity.saturating_add(sort_name_capacity))
}

/// Adds what the names of an entry take to what others take. How much they take beyond
/// their bytes is up to the allocator.
pub fn add_path_item_heap_bytes(total: usize, item: &PathItem) -> (bytes: usize)
    ensures
        bytes >= capped(total + entry_name_bytes(item@)),
{
    add_name_capacities(total, string_capacity(&item.name), string_capacity(&item.sort_name))
}

/// What the names of an entry take.
pub fn path_item_heap_bytes(item: &PathItem) -> (bytes: usize)
    ensures
        bytes >= capped(entry_name_bytes(item@) as int),
{
    add_path_item_heap_bytes(0, item)
}

/// Why a list cannot grow by one element.
#[derive(Clone, Copy, Debug, Eq, PartialEq, Structural)]
pub enum BoundedReserveError {
    Budget,
    Allocation,
}

/// What to do before one element is added to a list.
#[derive(Clone, Copy, Debug, Eq, PartialEq, Structural)]
pub enum Growth {
    /// There is room.
    Enough,
    /// Ask for room for more elements; the list may then have room for no more
    /// elements than the limit.
    Reserve { additional: usize, limit: usize },
    /// There is no room, and the budget has none either.
    OverBudget,
}

/// How many elements a new allocation may hold, while the old one is still there.
pub open spec fn largest_capacity(
    capacity: int,
    item_bytes: int,
    non_vector_bytes: int,
    maximum_bytes: int,
) -> int {
    let left = maximum_bytes - non_vector_bytes - capacity * item_bytes;
    if left < 0 {
        0
    } else {
        left / item_bytes
    }
}

pub open spec fn growth(
    length: int,
    capacity: int,
    item_bytes: int,
    non_vector_bytes: int,
    maximum_bytes: int,
) -> Growth {
    let limit = largest_capacity(capacity, item_bytes, non_vector_bytes, maximum_bytes);
    let preferred = if capacity == 0 {
        if length + 1 > 4 {
            length + 1
        } else {
            4
        }
    } else if 2 * capacity > length + 1 {
        2 * capacity
    } else {
        length + 1
    };
    if length < capacity || item_bytes == 0 {
        Growth::Enough
    } else if limit < length + 1 {
        Growth::OverBudget
    } else {
        Growth::Reserve {
            additional: ((if preferred < limit {
                preferred
            } else {
                limit
            }) - length) as usize,
            limit: limit as usize,
        }
    }
}

/// Plans the growth of a list by one element. A list grows to twice its size,
/// as far as the budget has room for the old and the new allocation at once.
pub fn plan_growth(
    length: usize,
    capacity: usize,
    item_bytes: usize,
    non_vector_bytes: usize,
    maximum_bytes: usize,
) -> (plan: Growth)
    requires
        length <= capacity,
    ensures
        plan == growth(
            length as int,
            capacity as int,
            item_bytes as int,
            non_vector_bytes as int,
            maximum_bytes as int,
        ),
{
    if length < capacity || item_bytes == 0 {
        return Growth::Enough;
    }
    assert(capacity * item_bytes >= 0) by (nonlinear_arith);
    let old_allocation = saturating_product(capacity, item_bytes);
    let used = non_vector_bytes.saturating_add(old_allocation);
    let available = maximum_bytes.saturating_sub(used);
    let limit = available / item_bytes;
    proof {
        let left = maximum_bytes - non_vector_bytes - capacity * item_bytes;
        if left < 0 {
            assert(available == 0);
            assert(limit == 0) by (nonlinear_arith)
                requires
                    limit == available / item_bytes,
                    available == 0,
                    item_bytes > 0,
            ;
        }
        assert(limit == largest_capacity(
            capacity as int,
            item_bytes as int,
            non_vector_bytes as int,
            maximum_bytes as int,
        ));
    }
    if limit <= length {
        return Growth::OverBudget;
    }
    let required = length + 1;
    let preferred = if capacity == 0 {
        if required > 4 {
            required
        } else {
            4
        }
    } else if capacity.saturating_add(capacity) > required {
        capacity.saturating_add(capacity)
    } else {
        required
    };
    let requested = if preferred < limit {
        preferred
    } else {
        limit
    };
    Growth::Reserve { additional: requested - length, limit }
}

/// A planned growth makes room for the element, and its limit keeps the old and
/// the new allocation within the budget at once. It doubles the list wherever
/// the budget has room for that.
pub proof fn law_growth_fits_the_budget(
    length: int,
    capacity: int,
    item_bytes: int,
    non_vector_bytes: int,
    maximum_bytes: int,
)
    requires
        0 <= length <= capacity,
        0 < item_bytes,
        0 <= non_vector_bytes,
        0 <= maximum_bytes <= usize::MAX,
    ensures
        growth(
            length,
            capacity,
            item_bytes,
            non_vector_bytes,
            maximum_bytes,
        ) matches Growth::Reserve { additional, limit } ==> {
            &&& additional >= 1
            &&& length + additional <= limit
            &&& non_vector_bytes + capacity * item_bytes + limit * item_bytes <= maximum_bytes
            &&& 2 * capacity <= limit ==> length + additional >= 2 * capacity
        },
{
    let limit = largest_capacity(capacity, item_bytes, non_vector_bytes, maximum_bytes);
    let left = maximum_bytes - non_vector_bytes - capacity * item_bytes;
    assert(capacity * item_bytes >= 0) by (nonlinear_arith)
        requires
            capacity >= 0,
            item_bytes > 0,
    ;
    if left >= 0 {
        assert((left / item_bytes) * item_bytes <= left && 0 <= left / item_bytes <= left)
            by (nonlinear_arith)
            requires
                left >= 0,
                item_bytes > 0,
        ;
    }
}

/// What comes of asking for room, by whether there was any to be had and how many
/// elements fit then.
pub open spec fn reservation(reserved: bool, capacity: int, limit: int) -> Result<
    (),
    BoundedReserveError,
> {
    if !reserved {
        Err(BoundedReserveError::Allocation)
    } else if capacity > limit {
        Err(BoundedReserveError::Budget)
    } else {
        Ok(())
    }
}

/// Judges what asking for room has come to. An allocator that gives more than the
/// budget has room for counts as a budget that has none.
pub fn judge_reservation(reserved: bool, capacity: usize, limit: usize) -> (result: Result<
    (),
    BoundedReserveError,
>)
    ensures
        result == reservation(reserved, capacity as int, limit as int),
{
    if !reserved {
        return Err(BoundedReserveError::Allocation);
    }
    if capacity > limit {
        return Err(BoundedReserveError::Budget);
    }
    Ok(())
}

/// Makes room for one more element within a budget. What capacity the list had
/// and gets is up to the allocator. Only a list that is full can be refused: for want
/// of memory where the budget has room for its growth, and else on account of the
/// budget.
pub fn try_reserve_bounded_vec_slot<T>(
    values: &mut Vec<T>,
    non_vector_bytes: usize,
    maximum_bytes: usize,
) -> (result: Result<(), BoundedReserveError>)
    ensures
        final(values)@ == old(values)@,
        layout::size_of::<T>() == 0 ==> result is Ok,
        result matches Err(error) ==> match growth(
            old(values)@.len() as int,
            old(values)@.len() as int,
            layout::size_of::<T>() as int,
            non_vector_bytes as int,
            maximum_bytes as int,
        ) {
            Growth::Enough => false,
            Growth::OverBudget => error == BoundedReserveError::Budget,
            Growth::Reserve { limit, .. } => exists|reserved: bool, capacity: usize|
                capacity >= old(values)@.len() && #[trigger] reservation(
                    reserved,
                    capacity as int,
                    limit as int,
                ) == Err::<(), BoundedReserveError>(error),
        },
{
    let item_bytes = core::mem::size_of::<T>();
    let capacity = vec_capacity(values);
    match plan_growth(values.len(), capacity, item_bytes, non_vector_bytes, maximum_bytes) {
        Growth::Enough => Ok(()),
        Growth::OverBudget => Err(BoundedReserveError::Budget),
        Growth::Reserve { additional, limit } => {
            let reserved = try_reserve_exact(values, additional);
            judge_reservation(reserved, vec_capacity(values), limit)
        },
    }
}

/// What a list of entries takes while it is sorted: itself, and two lists of
/// positions.
pub open spec fn sorting_bytes(length: int, capacity: int, heap_bytes: int) -> int {
    layout::size_of::<Vec<()>>() + capacity * layout::size_of::<PathItem>() + heap_bytes + length
        * layout::size_of::<usize>() * 2
}

/// Whether sorting a list stays within a budget.
pub fn sorting_fits(length: usize, capacity: usize, heap_bytes: usize, max_bytes: usize) -> (fits:
    bool)
    ensures
        fits == (capped(sorting_bytes(length as int, capacity as int, heap_bytes as int))
            <= max_bytes),
{
    let retained = collection_allocation_bytes(
        capacity,
        core::mem::size_of::<PathItem>(),
        heap_bytes,
    );
    let once = saturating_product(length, core::mem::size_of::<usize>());
    let scratch = saturating_product(once, 2);
    assert(capacity * layout::size_of::<PathItem>() >= 0 && length * layout::size_of::<usize>()
        >= 0) by (nonlinear_arith);
    retained.saturating_add(scratch) <= max_bytes
}

/// The bytes of the names of an entry.
pub open spec fn entry_name_bytes(item: PathItemView) -> nat {
    encode_utf8(item.name).len() + encode_utf8(item.sort_name).len()
}

/// The bytes of the names of all entries.
pub open spec fn name_bytes(paths: Seq<PathItemView>) -> nat
    decreases paths.len(),
{
    if paths.len() == 0 {
        0
    } else {
        name_bytes(paths.drop_last()) + entry_name_bytes(paths.last())
    }
}

/// What a list of entries takes at least: itself, the entries and the bytes of
/// their names.
pub open spec fn listing_bytes(paths: Seq<PathItemView>) -> usize {
    collection_bytes(
        paths.len() as int,
        layout::size_of::<PathItem>() as int,
        name_bytes(paths) as int,
    )
}

/// What a list of entries takes at least while it is sorted.
pub open spec fn least_sorting_bytes(paths: Seq<PathItemView>) -> usize {
    capped(sorting_bytes(paths.len() as int, paths.len() as int, name_bytes(paths) as int))
}

/// What the names of all entries take, which is no less than their bytes. How much
/// more is up to the allocator.
fn heap_bytes_of(paths: &Vec<PathItem>) -> (bytes: usize)
    ensures
        bytes >= capped(name_bytes(items::item_list(paths@)) as int),
        paths@.len() == 0 ==> bytes == 0,
{
    let ghost all = items::item_list(paths@);
    let mut bytes: usize = 0;
    let mut index: usize = 0;
    while index < paths.len()
        invariant
            all == items::item_list(paths@),
            index <= paths@.len(),
            bytes >= capped(name_bytes(all.subrange(0, index as int)) as int),
            index == 0 ==> bytes == 0,
        decreases paths@.len() - index,
    {
        assert(all.subrange(0, index + 1).drop_last() =~= all.subrange(0, index as int));
        bytes = add_path_item_heap_bytes(bytes, &paths[index]);
        index += 1;
    }
    assert(all.subrange(0, index as int) =~= all);
    bytes
}

/// Refuses to sort a list that would not stay within its budget. What the names
/// take beyond their bytes is up to the allocator.
pub fn ensure_path_sort_budget(
    paths: &Vec<PathItem>,
    path_capacity: usize,
    max_bytes: usize,
    operation: &'static str,
    path: &LexicalPath,
    root: &LexicalPath,
) -> (result: Result<(), ListingError>)
    ensures
        result is Ok ==> capped(
            sorting_bytes(
                paths@.len() as int,
                path_capacity as int,
                name_bytes(items::item_list(paths@)) as int,
            ),
        ) <= max_bytes,
        path_capacity >= paths@.len() && least_sorting_bytes(items::item_list(paths@)) > max_bytes
            ==> result is Err,
        paths@.len() == 0 ==> (result is Ok <==> capped(sorting_bytes(0, path_capacity as int, 0))
            <= max_bytes),
        result matches Err(error) ==> error@ == ListingErrorView::at(
            operation@,
            path@,
            root@,
            "sort_memory_budget"@,
            ListingProblem::DirectorySortLimit,
        ) && max_bytes < usize::MAX,
{
    let heap_bytes = heap_bytes_of(paths);
    assert(path_capacity >= paths@.len() ==> path_capacity * layout::size_of::<PathItem>()
        >= paths@.len() * layout::size_of::<PathItem>()) by (nonlinear_arith);
    if !sorting_fits(paths.len(), path_capacity, heap_bytes, max_bytes) {
        return Err(
            ListingError::limit(
                operation,
                path,
                root,
                "sort_memory_budget",
                ListingProblem::DirectorySortLimit,
            ),
        );
    }
    Ok(())
}

/// Spare elements below this number are never given back.
pub const MINIMUM_SPARE_ITEMS: usize = 1024;

/// Whether a list has so much spare room that it is worth giving back.
pub open spec fn is_wasteful(length: int, capacity: int) -> bool {
    capacity - length >= MINIMUM_SPARE_ITEMS && capacity > length + length / 4
}

pub fn wastes_memory(length: usize, capacity: usize) -> (wasteful: bool)
    ensures
        wasteful == is_wasteful(length as int, capacity as int),
{
    let spare = capacity.saturating_sub(length);
    spare >= MINIMUM_SPARE_ITEMS && capacity > length.saturating_add(length / 4)
}

/// Gives spare memory of a list back where there is much of it.
pub fn shrink_paths_if_wasteful(paths: &mut Vec<PathItem>)
    ensures
        final(paths)@ == old(paths)@,
{
    if wastes_memory(paths.len(), vec_capacity(paths)) {
        shrink_to_fit(paths);
    }
}

/// A list grows exactly where it is full, and is refused growth exactly where the budget
/// does not have room for the old elements and for one more element beside them.
pub proof fn law_full_lists_grow_within_the_budget(
    length: int,
    capacity: int,
    item_bytes: int,
    non_vector_bytes: int,
    maximum_bytes: int,
)
    requires
        0 <= length <= capacity,
        0 < item_bytes,
        0 <= non_vector_bytes,
        0 <= maximum_bytes <= usize::MAX,
    ensures
        growth(length, capacity, item_bytes, non_vector_bytes, maximum_bytes) == Growth::Enough
            <==> length < capacity,
        growth(length, capacity, item_bytes, non_vector_bytes, maximum_bytes) == Growth::OverBudget
            <==> length == capacity && non_vector_bytes + capacity * item_bytes + (length + 1)
            * item_bytes > maximum_bytes,
{
    let left = maximum_bytes - non_vector_bytes - capacity * item_bytes;
    assert(capacity * item_bytes >= 0 && (length + 1) * item_bytes > 0) by (nonlinear_arith)
        requires
            capacity >= 0,
            length >= 0,
            item_bytes > 0,
    ;
    if left >= 0 {
        assert((left / item_bytes < length + 1) <==> (left < (length + 1) * item_bytes))
            by (nonlinear_arith)
            requires
                left >= 0,
                item_bytes > 0,
                length >= 0,
        ;
    }
}

/// Numbers are capped at the largest one and are otherwise themselves.
pub proof fn law_numbers_are_capped(number: int)
    ensures
        0 <= number <= usize::MAX ==> capped(number) == number,
        number > usize::MAX ==> capped(number) == usize::MAX,
{
}

/// Room that was asked for is taken only where it was to be had and stays within the
/// limit.
pub proof fn law_reservations_stay_within_the_limit(reserved: bool, capacity: int, limit: int)
    ensures
        reservation(reserved, capacity, limit) is Ok <==> reserved && capacity <= limit,
        !reserved ==> reservation(reserved, capacity, limit) == Err::<(), BoundedReserveError>(
            BoundedReserveError::Allocation,
        ),
        reserved && capacity > limit ==> reservation(reserved, capacity, limit) == Err::<
            (),
            BoundedReserveError,
        >(BoundedReserveError::Budget),
{
}

/// Memory is given back where at least 1024 elements are spare and they are more than a
/// quarter of those in use.
pub proof fn law_much_spare_room_is_given_back(length: int, spare: int)
    requires
        0 <= length,
        0 <= spare,
    ensures
        is_wasteful(length, length + spare) <==> spare >= 1024 && spare > length / 4,
{
}

/// The bytes of the names of two lists add up, and those of one entry are those of its
/// names.
pub proof fn law_name_bytes_add_up(left: Seq<PathItemView>, right: Seq<PathItemView>)
    ensures
        name_bytes(left + right) == name_bytes(left) + name_bytes(right),
        left.len() == 1 ==> name_bytes(left) == encode_utf8(left[0].name).len() + encode_utf8(
            left[0].sort_name,
        ).len(),
        left.len() == 0 ==> name_bytes(left) == 0,
    decreases right.len(),
{
    if left.len() == 1 {
        assert(name_bytes(left.drop_last()) == 0);
    }
    if right.len() == 0 {
        assert(left + right =~= left);
    } else {
        assert((left + right).drop_last() =~= left + right.drop_last());
        law_name_bytes_add_up(left, right.drop_last());
    }
}

} // verus!
