//! The entries of a listing and their order.
use crate::listing::problems::{ListingError, ListingErrorView, ListingProblem};
use crate::listing::sort;
use crate::listing::sort::{stable_sort_by_interruptible, InterruptibleSortFailure, Order};
use crate::paths;
use crate::paths::{name_precedes, LexicalPath};
use crate::revision::TargetRevision;
use crate::text;
use crate::text::str_eq;
use vstd::prelude::*;
use vstd::string::*;
use vstd::utf8::*;

verus! {

/// What `str::to_lowercase` makes of a text.
pub uninterp spec fn lowercase(text: Seq<char>) -> Seq<char>;

/// `str::to_lowercase`: the text in lower case, by the rules of Unicode.
#[verifier::external_body]
pub(crate) fn lowercase_text(text: &str) -> (lowered: String)
    ensures
        lowered@ == lowercase(text@),
{
    text.to_lowercase()
}

/// Where `alphanumeric_sort::compare_str` puts one text in relation to another:
/// below zero before it, above zero after it.
pub uninterp spec fn natural_rank(left: Seq<char>, right: Seq<char>) -> int;

/// `alphanumeric_sort::compare_str`: where one text stands in relation to another
/// when digits are compared by the numbers that they write.
#[verifier::external_body]
fn natural_comparison(left: &str, right: &str) -> (rank: i8)
    ensures
        rank == natural_rank(left@, right@),
{
    match alphanumeric_sort::compare_str(left, right) {
        std::cmp::Ordering::Less => -1,
        std::cmp::Ordering::Equal => 0,
        std::cmp::Ordering::Greater => 1,
    }
}

/// A text holds another.
pub open spec fn holds<T>(text: Seq<T>, wanted: Seq<T>) -> bool {
    exists|start: int|
        0 <= start <= text.len() - wanted.len() && #[trigger] text.subrange(
            start,
            start + wanted.len(),
        ) == wanted
}

/// A character in lower case, if it is an ASCII letter.
pub open spec fn ascii_lower(character: char) -> char {
    if 'A' <= character <= 'Z' {
        ((character as u8) + 32) as u8 as char
    } else {
        character
    }
}

pub open spec fn ascii_lowered(text: Seq<char>) -> Seq<char> {
    text.map_values(|character: char| ascii_lower(character))
}

/// A name matches a query that is in lower case already. ASCII is matched
/// without regard to the case of letters; other names are lowered first.
pub open spec fn matches_folded(value: Seq<char>, query: Seq<char>) -> bool {
    if is_ascii_chars(value) && is_ascii_chars(query) {
        holds(ascii_lowered(value), ascii_lowered(query))
    } else {
        holds(lowercase(value), query)
    }
}

fn lower_byte(byte: u8) -> (lowered: u8)
    ensures
        lowered == (if 65 <= byte <= 90 {
            (byte + 32) as u8
        } else {
            byte
        }),
{
    if 65 <= byte && byte <= 90 {
        byte + 32
    } else {
        byte
    }
}

fn window_matches(value: &[u8], query: &[u8], start: usize) -> (found: bool)
    requires
        start + query@.len() <= value@.len(),
    ensures
        found == forall|i: int|
            0 <= i < query@.len() ==> ascii_lower(#[trigger] query@[i] as char) == ascii_lower(
                value@[start + i] as char,
            ),
{
    let length: usize = value.len();
    let mut index: usize = 0;
    while index < query.len()
        invariant
            index <= query@.len(),
            length == value@.len(),
            start + query@.len() <= value@.len(),
            forall|i: int|
                0 <= i < index ==> ascii_lower(#[trigger] query@[i] as char) == ascii_lower(
                    value@[start + i] as char,
                ),
        decreases query@.len() - index,
    {
        let wanted = lower_byte(query[index]);
        let present = lower_byte(value[start + index]);
        if wanted != present {
            assert(ascii_lower(query@[index as int] as char) != ascii_lower(
                value@[start + index] as char,
            ));
            return false;
        }
        index += 1;
    }
    true
}

fn chars_of(text: &str) -> (characters: Vec<char>)
    ensures
        characters@ == text@,
{
    let mut characters: Vec<char> = Vec::new();
    for character in it: text.chars()
        invariant
            it.seq() == text@,
            characters@ == text@.subrange(0, it.index() as int),
    {
        characters.push(character);
        assert(characters@ =~= text@.subrange(0, it.index() + 1));
    }
    assert(text@.subrange(0, text@.len() as int) =~= text@);
    characters
}

/// Tells whether a text holds another.
fn text_holds(text: &str, wanted: &str) -> (found: bool)
    ensures
        found == holds(text@, wanted@),
{
    let letters = chars_of(text);
    let sought = chars_of(wanted);
    if sought.len() > letters.len() {
        return false;
    }
    let length: usize = letters.len();
    let last = length - sought.len();
    let mut start: usize = 0;
    loop
        invariant
            letters@ == text@,
            sought@ == wanted@,
            length == letters@.len(),
            sought@.len() <= letters@.len(),
            last == letters@.len() - sought@.len(),
            start <= last,
            forall|i: int|
                0 <= i < start ==> #[trigger] letters@.subrange(i, i + sought@.len()) != sought@,
        decreases last - start,
    {
        let mut index: usize = 0;
        while index < sought.len() && letters[start + index] == sought[index]
            invariant
                index <= sought@.len(),
                length == letters@.len(),
                sought@.len() <= letters@.len(),
                start <= last,
                last == letters@.len() - sought@.len(),
                forall|i: int| 0 <= i < index ==> letters@[start + i] == #[trigger] sought@[i],
            decreases sought@.len() - index,
        {
            index += 1;
        }
        let ghost window = letters@.subrange(start as int, start + sought@.len());
        if index == sought.len() {
            assert(window =~= sought@);
            return true;
        }
        assert(window[index as int] != sought@[index as int]);
        if start == last {
            return false;
        }
        start += 1;
    }
}

/// Tells whether a name matches a query that is in lower case already.
pub fn case_folded_contains(value: &str, folded_query: &str) -> (found: bool)
    ensures
        found == matches_folded(value@, folded_query@),
{
    broadcast use is_ascii_spec_bytes;

    if !(value.is_ascii() && folded_query.is_ascii()) {
        return text_holds(lowercase_text(value).as_str(), folded_query);
    }
    let text = value.as_bytes();
    let query = folded_query.as_bytes();
    let ghost lowered = ascii_lowered(value@);
    let ghost wanted = ascii_lowered(folded_query@);
    if query.len() > text.len() {
        return false;
    }
    let last = text.len() - query.len();
    let mut start: usize = 0;
    loop
        invariant
            is_ascii_chars(value@),
            is_ascii_chars(folded_query@),
            text@ == Seq::new(value@.len(), |i: int| value@[i] as u8),
            query@ == Seq::new(folded_query@.len(), |i: int| folded_query@[i] as u8),
            lowered == ascii_lowered(value@),
            wanted == ascii_lowered(folded_query@),
            query@.len() <= text@.len(),
            last == text@.len() - query@.len(),
            start <= last,
            forall|i: int|
                0 <= i < start ==> #[trigger] lowered.subrange(i, i + wanted.len()) != wanted,
        decreases last - start,
    {
        let found = window_matches(text, query, start);
        proof {
            let window = lowered.subrange(start as int, start + wanted.len());
            is_ascii_chars_nat_bound(value@);
            is_ascii_chars_nat_bound(folded_query@);
            assert forall|i: int| 0 <= i < query@.len() implies (ascii_lower(
                #[trigger] query@[i] as char,
            ) == ascii_lower(text@[start + i] as char)) == (wanted[i] == window[i]) by {
                assert(query@[i] as char == folded_query@[i]);
                assert(text@[start + i] as char == value@[start + i]);
            }
            if found {
                assert forall|i: int| 0 <= i < wanted.len() implies window[i] == wanted[i] by {
                    assert(ascii_lower(query@[i] as char) == ascii_lower(
                        text@[start + i] as char,
                    ));
                }
                assert(window =~= wanted);
            } else {
                let i = choose|i: int|
                    0 <= i < query@.len() && ascii_lower(#[trigger] query@[i] as char)
                        != ascii_lower(text@[start + i] as char);
                assert(window[i] != wanted[i]);
            }
        }
        if found {
            return true;
        }
        if start == last {
            return false;
        }
        start += 1;
    }
}

/// What an entry is, and whether it is reached through a symbolic link.
#[derive(Clone, Copy, Debug, Eq, PartialEq, Structural)]
pub enum PathType {
    Dir,
    SymlinkDir,
    File,
    SymlinkFile,
}

impl PathType {
    /// Directories come before everything else.
    pub open spec fn is_folder(self) -> bool {
        self == PathType::Dir || self == PathType::SymlinkDir
    }

    pub open spec fn order_to(self, other: PathType) -> Order {
        if self.is_folder() == other.is_folder() {
            Order::Same
        } else if self.is_folder() {
            Order::Before
        } else {
            Order::After
        }
    }

    fn rank(self, other: PathType) -> (order: Order)
        ensures
            order == self.order_to(other),
    {
        let left = match self {
            PathType::Dir | PathType::SymlinkDir => true,
            _ => false,
        };
        let right = match other {
            PathType::Dir | PathType::SymlinkDir => true,
            _ => false,
        };
        if left == right {
            Order::Same
        } else if left {
            Order::Before
        } else {
            Order::After
        }
    }
}

/// One entry of a listing.
pub struct PathItem {
    pub path_type: PathType,
    pub sort_name: String,
    pub name: String,
    pub mtime: u64,
    pub size: u64,
    pub revision: TargetRevision,
}

#[verifier::ext_equal]
pub struct PathItemView {
    pub path_type: PathType,
    pub sort_name: Seq<char>,
    pub name: Seq<char>,
    pub mtime: u64,
    pub size: u64,
    pub revision: TargetRevision,
}

pub open spec fn item_list(items: Seq<PathItem>) -> Seq<PathItemView> {
    Seq::new(items.len(), |i: int| items[i]@)
}

/// The order of two numbers.
pub open spec fn number_order(left: u64, right: u64) -> Order {
    if left < right {
        Order::Before
    } else if left == right {
        Order::Same
    } else {
        Order::After
    }
}

fn rank_numbers(left: u64, right: u64) -> (order: Order)
    ensures
        order == number_order(left, right),
{
    if left < right {
        Order::Before
    } else if left == right {
        Order::Same
    } else {
        Order::After
    }
}

/// The order of two texts by the bytes of their encodings.
pub open spec fn byte_order(left: Seq<char>, right: Seq<char>) -> Order {
    if left == right {
        Order::Same
    } else if paths::name_less(encode_utf8(left), encode_utf8(right)) {
        Order::Before
    } else {
        Order::After
    }
}

/// The natural order of two texts.
pub open spec fn natural_order(left: Seq<char>, right: Seq<char>) -> Order {
    let rank = natural_rank(left, right);
    if rank < 0 {
        Order::Before
    } else if rank == 0 {
        Order::Same
    } else {
        Order::After
    }
}

/// A criterion that entries are sorted by.
pub open spec fn key_order(left: PathItemView, right: PathItemView, key: Seq<char>) -> Order {
    if key == "mtime"@ {
        number_order(left.mtime, right.mtime)
    } else if key == "size"@ {
        number_order(left.size, right.size)
    } else {
        Order::Same
    }
}

impl PathItemView {
    pub open spec fn name_order(self, other: PathItemView) -> Order {
        self.path_type.order_to(other.path_type).or_else(
            natural_order(self.sort_name, other.sort_name),
        ).or_else(byte_order(self.name, other.name))
    }

    /// The order of two entries: directories first, then the criterion, then the
    /// names.
    pub open spec fn order_by(self, other: PathItemView, key: Seq<char>) -> Order {
        self.path_type.order_to(other.path_type).or_else(key_order(self, other, key)).or_else(
            self.name_order(other),
        )
    }
}

/// The order that a request asks for.
pub open spec fn item_order(
    left: PathItemView,
    right: PathItemView,
    key: Seq<char>,
    direction: Seq<char>,
) -> Order {
    if direction == "desc"@ {
        left.order_by(right, key).reversed()
    } else {
        left.order_by(right, key)
    }
}

impl PathItem {
    pub open spec fn view(self) -> PathItemView {
        PathItemView {
            path_type: self.path_type,
            sort_name: self.sort_name@,
            name: self.name@,
            mtime: self.mtime,
            size: self.size,
            revision: self.revision,
        }
    }

    pub fn sort_by_name(&self, other: &PathItem) -> (order: Order)
        ensures
            order == self@.name_order(other@),
    {
        let kinds = self.path_type.rank(other.path_type);
        if kinds != Order::Same {
            return kinds;
        }
        let rank = natural_comparison(self.sort_name.as_str(), other.sort_name.as_str());
        if rank < 0 {
            Order::Before
        } else if rank > 0 {
            Order::After
        } else if str_eq(self.name.as_str(), other.name.as_str()) {
            Order::Same
        } else if name_precedes(self.name.as_str().as_bytes(), other.name.as_str().as_bytes()) {
            Order::Before
        } else {
            Order::After
        }
    }

    pub fn sort_by_mtime(&self, other: &PathItem) -> (order: Order)
        ensures
            order == self@.order_by(other@, "mtime"@),
    {
        proof {
            reveal_strlit("mtime");
            reveal_strlit("size");
        }
        let kinds = self.path_type.rank(other.path_type);
        if kinds != Order::Same {
            return kinds;
        }
        let times = rank_numbers(self.mtime, other.mtime);
        if times != Order::Same {
            return times;
        }
        self.sort_by_name(other)
    }

    pub fn sort_by_size(&self, other: &PathItem) -> (order: Order)
        ensures
            order == self@.order_by(other@, "size"@),
    {
        proof {
            reveal_strlit("mtime");
            reveal_strlit("size");
            assert("mtime"@.len() != "size"@.len());
        }
        let kinds = self.path_type.rank(other.path_type);
        if kinds != Order::Same {
            return kinds;
        }
        let sizes = rank_numbers(self.size, other.size);
        if sizes != Order::Same {
            return sizes;
        }
        self.sort_by_name(other)
    }
}

/// Compares two entries by the order that a request asks for.
pub fn compare_path_items(left: &PathItem, right: &PathItem, sort: &str, order: &str) -> (result:
    Order)
    ensures
        result == item_order(left@, right@, sort@, order@),
{
    let ascending = if str_eq(sort, "mtime") {
        left.sort_by_mtime(right)
    } else if str_eq(sort, "size") {
        left.sort_by_size(right)
    } else {
        left.sort_by_name(right)
    };
    if str_eq(order, "desc") {
        ascending.reverse()
    } else {
        ascending
    }
}

/// The order of entries that a request asks for, as a function of two entries.
pub open spec fn requested_order(key: Seq<char>, direction: Seq<char>) -> spec_fn(
    PathItem,
    PathItem,
) -> Order {
    |left: PathItem, right: PathItem| item_order(left@, right@, key, direction)
}

/// Work that was allowed to go on when it asked.
pub open spec fn went_on<S: Fn() -> bool, E: Fn() -> bool>(stopping: S, expired: E) -> bool {
    call_ensures(stopping, (), false) && call_ensures(expired, (), false)
}

/// Work that was told to end when it asked: the server stops, or it does not and
/// the time is up.
pub open spec fn was_ended<S: Fn() -> bool, E: Fn() -> bool>(stopping: S, expired: E) -> bool {
    ||| call_ensures(stopping, (), true)
    ||| call_ensures(stopping, (), false) && call_ensures(expired, (), true)
}

/// Why a list of entries was not sorted, by what the answers were to whether the
/// work may go on.
pub open spec fn is_interruption<S: Fn() -> bool, E: Fn() -> bool>(
    error: ListingErrorView,
    length: nat,
    stopping: S,
    expired: E,
    operation: Seq<char>,
    path: Seq<Seq<u8>>,
    root: Seq<Seq<u8>>,
) -> bool {
    ||| error == ListingErrorView::cancelled(operation, path, root) && call_ensures(
        stopping,
        (),
        true,
    )
    ||| error == ListingErrorView::timeout(operation, path, root) && call_ensures(
        stopping,
        (),
        false,
    ) && was_ended(stopping, expired)
    ||| error == ListingErrorView::at(
        operation,
        path,
        root,
        "sort_allocation_failed"@,
        ListingProblem::DirectorySortLimit,
    ) && length >= 2 && went_on(stopping, expired)
}

/// Sorts entries as a request asks, unless the server stops or the time is up.
/// The sort is stable wherever the natural order of the names is one. A list that
/// is stopped at the first check stays as it is.
///
/// Whether the allocator has room for the positions of two entries or more is open.
#[allow(clippy::too_many_arguments)]
pub fn sort_path_items_interruptibly<S: Copy + Fn() -> bool, E: Copy + Fn() -> bool>(
    paths: &mut Vec<PathItem>,
    sort: &str,
    order: &str,
    stopping: S,
    expired: E,
    operation: &'static str,
    path: &LexicalPath,
    root: &LexicalPath,
) -> (result: Result<(), ListingError>)
    requires
        call_requires(stopping, ()),
        call_requires(expired, ()),
    ensures
        exists|places: Seq<int>| #[trigger]
            sort::rearranged(old(paths)@, final(paths)@, places) && (result is Ok
                && sort::is_consistent(requested_order(sort@, order@), old(paths)@)
                ==> sort::sorts_stably(requested_order(sort@, order@), old(paths)@, places)),
        result is Ok ==> went_on(stopping, expired),
        result matches Err(error) ==> is_interruption(
            error@,
            old(paths)@.len(),
            stopping,
            expired,
            operation@,
            path@,
            root@,
        ),
        final(paths)@ == old(paths)@ || went_on(stopping, expired),
        !went_on(stopping, expired) ==> result is Err,
        old(paths)@.len() < 2 && !was_ended(stopping, expired) ==> result is Ok,
{
    let compare = |left: &PathItem, right: &PathItem| -> (result: Order)
        ensures
            result == item_order(left@, right@, sort@, order@),
        { compare_path_items(left, right, sort, order) };
    let active = || -> (going: bool)
        ensures
            going ==> went_on(stopping, expired),
            !going ==> was_ended(stopping, expired),
        { !stopping() && !expired() };
    let ghost before = paths@;
    let sorted = stable_sort_by_interruptible(paths, compare, active);
    proof {
        let wanted = requested_order(sort@, order@);
        if sort::is_consistent(wanted, before) {
            assert(sort::ranks_by(compare, before, wanted));
        }
    }
    match sorted {
        Ok(()) => Ok(()),
        Err(InterruptibleSortFailure::Interrupted) => {
            if stopping() {
                Err(ListingError::cancelled(operation, path, root))
            } else {
                Err(ListingError::timeout(operation, path, root))
            }
        },
        Err(InterruptibleSortFailure::Allocation) => Err(
            ListingError::limit(
                operation,
                path,
                root,
                "sort_allocation_failed",
                ListingProblem::DirectorySortLimit,
            ),
        ),
    }
}

/// What an order says of three values fits together: no order of the three is
/// ruled out by two of its steps and claimed by the third.
spec fn fits_together(first: Order, second: Order, across: Order) -> bool {
    let step = |left: Order, right: Order, both: Order|
        left != Order::After && right != Order::After ==> both != Order::After;
    &&& step(first, second, across)
    &&& step(across, second.reversed(), first)
    &&& step(first.reversed(), across, second)
    &&& step(second, across.reversed(), first.reversed())
    &&& step(across.reversed(), first, second.reversed())
    &&& step(second.reversed(), first.reversed(), across.reversed())
}

proof fn lemma_orders_combine(
    first: (Order, Order),
    second: (Order, Order),
    across: (Order, Order),
)
    requires
        fits_together(first.0, second.0, across.0),
        fits_together(first.1, second.1, across.1),
    ensures
        fits_together(
            first.0.or_else(first.1),
            second.0.or_else(second.1),
            across.0.or_else(across.1),
        ),
{
}

/// The natural order puts each two names of a list one before the other, and
/// says nothing else of them from the other side.
pub open spec fn names_are_ranked(items: Seq<PathItem>) -> bool {
    &&& forall|i: int, j: int|
        0 <= i < items.len() && 0 <= j < items.len() ==> #[trigger] natural_order(
            items[i]@.sort_name,
            items[j]@.sort_name,
        ) == natural_order(items[j]@.sort_name, items[i]@.sort_name).reversed()
    &&& forall|i: int, j: int, k: int|
        0 <= i < items.len() && 0 <= j < items.len() && 0 <= k < items.len()
            && #[trigger] natural_order(items[i]@.sort_name, items[j]@.sort_name) != Order::After
            && #[trigger] natural_order(items[j]@.sort_name, items[k]@.sort_name) != Order::After
            ==> natural_order(items[i]@.sort_name, items[k]@.sort_name) != Order::After
}

proof fn lemma_byte_order_fits(a: Seq<char>, b: Seq<char>, c: Seq<char>)
    ensures
        byte_order(b, a) == byte_order(a, b).reversed(),
        fits_together(byte_order(a, b), byte_order(b, c), byte_order(a, c)),
{
    let (x, y, z) = (encode_utf8(a), encode_utf8(b), encode_utf8(c));
    if x == y {
        text::lemma_encoding_is_injective(a, b);
    }
    if y == z {
        text::lemma_encoding_is_injective(b, c);
    }
    if x == z {
        text::lemma_encoding_is_injective(a, c);
    }
    paths::lemma_name_order_is_total(x, y);
    paths::lemma_name_order_is_total(y, z);
    paths::lemma_name_order_is_total(x, z);
    lemma_chain(x, y, z);
    lemma_chain(x, z, y);
    lemma_chain(y, x, z);
    lemma_chain(y, z, x);
    lemma_chain(z, x, y);
    lemma_chain(z, y, x);
}

proof fn lemma_chain(low: Seq<u8>, middle: Seq<u8>, high: Seq<u8>)
    ensures
        paths::name_less(low, middle) && paths::name_less(middle, high) ==> paths::name_less(
            low,
            high,
        ),
{
    if paths::name_less(low, middle) && paths::name_less(middle, high) {
        paths::lemma_name_order_is_transitive(low, middle, high);
    }
}

proof fn lemma_item_orders_fit(items: Seq<PathItem>, i: int, j: int, k: int, key: Seq<char>)
    requires
        names_are_ranked(items),
        0 <= i < items.len(),
        0 <= j < items.len(),
        0 <= k < items.len(),
    ensures
        items[j]@.order_by(items[i]@, key) == items[i]@.order_by(items[j]@, key).reversed(),
        fits_together(
            items[i]@.order_by(items[j]@, key),
            items[j]@.order_by(items[k]@, key),
            items[i]@.order_by(items[k]@, key),
        ),
{
    let (a, b, c) = (items[i]@, items[j]@, items[k]@);
    lemma_byte_order_fits(a.name, b.name, c.name);
    let natural = (
        natural_order(a.sort_name, b.sort_name),
        natural_order(b.sort_name, c.sort_name),
        natural_order(a.sort_name, c.sort_name),
    );
    assert(natural_order(b.sort_name, a.sort_name) == natural.0.reversed());
    assert(natural_order(c.sort_name, b.sort_name) == natural.1.reversed());
    assert(natural_order(c.sort_name, a.sort_name) == natural.2.reversed());
    assert(fits_together(natural.0, natural.1, natural.2));
    let kinds = (
        a.path_type.order_to(b.path_type),
        b.path_type.order_to(c.path_type),
        a.path_type.order_to(c.path_type),
    );
    let bytes = (byte_order(a.name, b.name), byte_order(b.name, c.name), byte_order(a.name, c.name));
    let keys = (key_order(a, b, key), key_order(b, c, key), key_order(a, c, key));
    assert(fits_together(kinds.0, kinds.1, kinds.2));
    assert(fits_together(keys.0, keys.1, keys.2));
    lemma_orders_combine((kinds.0, natural.0), (kinds.1, natural.1), (kinds.2, natural.2));
    lemma_orders_combine(
        (kinds.0.or_else(natural.0), bytes.0),
        (kinds.1.or_else(natural.1), bytes.1),
        (kinds.2.or_else(natural.2), bytes.2),
    );
    lemma_orders_combine((kinds.0, keys.0), (kinds.1, keys.1), (kinds.2, keys.2));
    lemma_orders_combine(
        (kinds.0.or_else(keys.0), a.name_order(b)),
        (kinds.1.or_else(keys.1), b.name_order(c)),
        (kinds.2.or_else(keys.2), a.name_order(c)),
    );
}

/// Wherever the natural order ranks the names of a listing, every order that a
/// request can ask for is consistent, so that the listing is sorted, and stably.
pub proof fn law_requested_orders_are_consistent(
    items: Seq<PathItem>,
    key: Seq<char>,
    direction: Seq<char>,
)
    requires
        names_are_ranked(items),
    ensures
        sort::is_consistent(requested_order(key, direction), items),
{
    let order = requested_order(key, direction);
    assert forall|i: int, j: int|
        0 <= i < items.len() && 0 <= j < items.len() implies #[trigger] sort::not_after(
        order,
        items,
        i,
        j,
    ) || sort::not_after(order, items, j, i) by {
        lemma_item_orders_fit(items, i, j, j, key);
    }
    assert forall|i: int, j: int, k: int|
        0 <= i < items.len() && 0 <= j < items.len() && 0 <= k < items.len()
            && #[trigger] sort::not_after(order, items, i, j) && #[trigger] sort::not_after(
            order,
            items,
            j,
            k,
        ) implies sort::not_after(order, items, i, k) by {
        lemma_item_orders_fit(items, i, j, k, key);
    }
}

/// Where entries are not listed in reverse, no other entry stands before a
/// directory.
pub proof fn law_directories_come_first(
    left: PathItemView,
    right: PathItemView,
    key: Seq<char>,
    direction: Seq<char>,
)
    requires
        direction != "desc"@,
        left.path_type.is_folder(),
        !right.path_type.is_folder(),
    ensures
        item_order(left, right, key, direction) == Order::Before,
        item_order(right, left, key, direction) == Order::After,
{
}

/// A query matches a name wherever it stands in it, at the start, in the middle or at
/// the end. Where the name or the query is not ASCII, the name is in lower case for
/// that; and a name is matched only where the query stands in it.
pub proof fn law_queries_match_anywhere(name: Seq<char>, query: Seq<char>)
    requires
        !is_ascii_chars(name) || !is_ascii_chars(query),
    ensures
        matches_folded(name, query) <==> exists|before: Seq<char>, after: Seq<char>|
            lowercase(name) == #[trigger] (before + query + after),
{
    lemma_held_texts_have_sides(lowercase(name), query);
}

/// ASCII names are matched by ASCII queries wherever the letters of the query stand in
/// the name, in either case.
pub proof fn law_ascii_queries_match_in_either_case(
    before: Seq<char>,
    found: Seq<char>,
    after: Seq<char>,
    query: Seq<char>,
)
    requires
        is_ascii_chars(before + found + after),
        is_ascii_chars(query),
        found.len() == query.len(),
        forall|i: int|
            0 <= i < query.len() ==> (#[trigger] found[i] == query[i] || ('A' <= found[i] <= 'Z'
                && query[i] as int == found[i] as int + 32) || ('A' <= query[i] <= 'Z'
                && found[i] as int == query[i] as int + 32)),
    ensures
        matches_folded(before + found + after, query),
{
    let name = before + found + after;
    let start = before.len() as int;
    let lowered = ascii_lowered(name);
    let wanted = ascii_lowered(query);
    let window = lowered.subrange(start, start + wanted.len());
    assert forall|i: int| 0 <= i < wanted.len() implies window[i] == wanted[i] by {
        assert(name[start + i] == found[i]);
    }
    assert(window =~= wanted);
}

/// An ASCII query matches an ASCII name only where its letters stand in it.
pub proof fn law_ascii_matches_are_found(name: Seq<char>, query: Seq<char>)
    requires
        is_ascii_chars(name),
        is_ascii_chars(query),
        matches_folded(name, query),
    ensures
        exists|start: int| 0 <= start <= name.len() - query.len() && #[trigger] stands_at(
            name,
            query,
            start,
        ),
{
    let lowered = ascii_lowered(name);
    let wanted = ascii_lowered(query);
    let start = choose|start: int|
        0 <= start <= lowered.len() - wanted.len() && #[trigger] lowered.subrange(
            start,
            start + wanted.len(),
        ) == wanted;
    let window = lowered.subrange(start, start + wanted.len());
    assert forall|i: int| 0 <= i < query.len() implies is_letter_of(
        name[start + i],
        #[trigger] query[i],
    ) by {
        assert(window[i] == wanted[i]);
    }
    assert(stands_at(name, query, start));
}

/// Two characters are the same, or the same ASCII letter.
pub open spec fn is_letter_of(left: char, right: char) -> bool {
    ||| left == right
    ||| 'A' <= left <= 'Z' && right as int == left as int + 32
    ||| 'A' <= right <= 'Z' && left as int == right as int + 32
}

/// The letters of a query stand in a name, from a place on.
pub open spec fn stands_at(name: Seq<char>, query: Seq<char>, start: int) -> bool {
    forall|i: int| 0 <= i < query.len() ==> is_letter_of(name[start + i], #[trigger] query[i])
}

proof fn lemma_held_texts_have_sides<T>(text: Seq<T>, wanted: Seq<T>)
    ensures
        holds(text, wanted) <==> exists|before: Seq<T>, after: Seq<T>|
            text == #[trigger] (before + wanted + after),
{
    if holds(text, wanted) {
        let start = choose|start: int|
            0 <= start <= text.len() - wanted.len() && #[trigger] text.subrange(
                start,
                start + wanted.len(),
            ) == wanted;
        let before = text.subrange(0, start);
        let after = text.subrange(start + wanted.len(), text.len() as int);
        assert(text =~= before + wanted + after);
    }
    if exists|before: Seq<T>, after: Seq<T>| text == #[trigger] (before + wanted + after) {
        let (before, after) = choose|before: Seq<T>, after: Seq<T>|
            text == #[trigger] (before + wanted + after);
        let start = before.len() as int;
        assert((before + wanted + after).subrange(start, start + wanted.len()) =~= wanted);
    }
}

/// The query that is empty matches every name.
pub proof fn law_empty_queries_match_all(name: Seq<char>)
    ensures
        matches_folded(name, Seq::<char>::empty()),
{
    let lowered = if is_ascii_chars(name) {
        ascii_lowered(name)
    } else {
        lowercase(name)
    };
    assert(ascii_lowered(Seq::<char>::empty()) =~= Seq::empty());
    let nothing = Seq::<char>::empty();
    assert(lowered.subrange(0, 0 + nothing.len() as int) =~= nothing);
    assert(holds(lowered, nothing));
}

/// Of two entries of the same kind the smaller comes first by size and the older comes
/// first by time, and in descending order the larger and the newer do.
pub proof fn law_smaller_and_older_come_first(
    left: PathItemView,
    right: PathItemView,
    direction: Seq<char>,
)
    requires
        left.path_type.is_folder() == right.path_type.is_folder(),
    ensures
        left.size < right.size && direction != "desc"@ ==> item_order(
            left,
            right,
            "size"@,
            direction,
        ) == Order::Before && item_order(right, left, "size"@, direction) == Order::After,
        left.size < right.size ==> item_order(left, right, "size"@, "desc"@) == Order::After
            && item_order(right, left, "size"@, "desc"@) == Order::Before,
        left.mtime < right.mtime && direction != "desc"@ ==> item_order(
            left,
            right,
            "mtime"@,
            direction,
        ) == Order::Before && item_order(right, left, "mtime"@, direction) == Order::After,
        left.mtime < right.mtime ==> item_order(left, right, "mtime"@, "desc"@) == Order::After
            && item_order(right, left, "mtime"@, "desc"@) == Order::Before,
{
    reveal_strlit("mtime");
    reveal_strlit("size");
    assert("mtime"@.len() != "size"@.len());
}

/// Of two entries of the same kind the one whose name is first in the natural order
/// comes first, and in descending order last. Names of the same rank are ordered by
/// their bytes. Sizes and times count only where they are asked for, and otherwise
/// equal ones leave the order to the names.
pub proof fn law_names_decide_the_rest(
    left: PathItemView,
    right: PathItemView,
    key: Seq<char>,
    direction: Seq<char>,
)
    requires
        left.path_type.is_folder() == right.path_type.is_folder(),
        key == "size"@ ==> left.size == right.size,
        key == "mtime"@ ==> left.mtime == right.mtime,
    ensures
        ({
            let ranked = natural_rank(left.sort_name, right.sort_name);
            let first = ranked < 0 || (ranked == 0 && left.name != right.name && paths::name_less(
                encode_utf8(left.name),
                encode_utf8(right.name),
            ));
            let same = ranked == 0 && left.name == right.name;
            item_order(left, right, key, direction) == (if same {
                Order::Same
            } else if first == (direction != "desc"@) {
                Order::Before
            } else {
                Order::After
            })
        }),
{
    reveal_strlit("mtime");
    reveal_strlit("size");
    assert("mtime"@.len() != "size"@.len());
}

/// The descending order of two entries is the ascending one turned round, directories
/// and all.
pub proof fn law_descending_turns_round(
    left: PathItemView,
    right: PathItemView,
    key: Seq<char>,
    direction: Seq<char>,
)
    requires
        direction != "desc"@,
    ensures
        item_order(left, right, key, direction) == Order::Before <==> item_order(
            left,
            right,
            key,
            "desc"@,
        ) == Order::After,
        item_order(left, right, key, direction) == Order::After <==> item_order(
            left,
            right,
            key,
            "desc"@,
        ) == Order::Before,
        left.path_type.is_folder() && !right.path_type.is_folder() ==> item_order(
            left,
            right,
            key,
            "desc"@,
        ) == Order::After,
{
}

/// Directories are those entries that are one or lead to one.
pub proof fn law_links_count_as_what_they_lead_to(kind: PathType)
    ensures
        kind.is_folder() <==> (kind == PathType::Dir || kind == PathType::SymlinkDir),
        !kind.is_folder() <==> (kind == PathType::File || kind == PathType::SymlinkFile),
{
}

/// Along a listing that is sorted by size the sizes of files never decrease, and along
/// a descending one they never increase; and the same of the times where it is sorted
/// by them. Directories stand before files, or behind them where it is descending.
pub proof fn law_sorted_listings_are_in_order(
    before: Seq<PathItem>,
    after: Seq<PathItem>,
    places: Seq<int>,
    key: Seq<char>,
    direction: Seq<char>,
    first: int,
    second: int,
)
    requires
        sort::rearranged(before, after, places),
        sort::sorts_stably(requested_order(key, direction), before, places),
        0 <= first < second < after.len(),
    ensures
        after.len() == before.len(),
        direction != "desc"@ ==> !(after[second]@.path_type.is_folder()
            && !after[first]@.path_type.is_folder()),
        direction == "desc"@ ==> !(after[first]@.path_type.is_folder()
            && !after[second]@.path_type.is_folder()),
        after[first]@.path_type.is_folder() == after[second]@.path_type.is_folder() ==> {
            &&& key == "size"@ && direction != "desc"@ ==> after[first].size <= after[second].size
            &&& key == "size"@ && direction == "desc"@ ==> after[first].size >= after[second].size
            &&& key == "mtime"@ && direction != "desc"@ ==> after[first].mtime
                <= after[second].mtime
            &&& key == "mtime"@ && direction == "desc"@ ==> after[first].mtime
                >= after[second].mtime
        },
{
    let left = after[first]@;
    let right = after[second]@;
    assert(sort::goes_first(requested_order(key, direction), before, places[first], places[second]));
    assert(item_order(left, right, key, direction) != Order::After);
    if left.path_type.is_folder() == right.path_type.is_folder() {
        law_smaller_and_older_come_first(right, left, direction);
        law_smaller_and_older_come_first(left, right, direction);
    }
}

} // verus!
