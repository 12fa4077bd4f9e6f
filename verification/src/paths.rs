//! Lexical paths: lists of names, compared name by name.
use crate::text;
use crate::text::{bytes_eq, copy_bytes};
use vstd::prelude::*;

verus! {

/// A path as the list of its names. It says nothing of what the names resolve
/// to in a filesystem.
pub struct LexicalPath {
    pub names: Vec<Vec<u8>>,
}

/// The byte strings of a list of names.
pub open spec fn name_list(names: Seq<Vec<u8>>) -> Seq<Seq<u8>> {
    Seq::new(names.len(), |i: int| names[i]@)
}

/// Names written one after the other with a separator between them.
pub open spec fn joined<T>(names: Seq<Seq<T>>, separator: T) -> Seq<T>
    decreases names.len(),
{
    if names.len() == 0 {
        Seq::empty()
    } else if names.len() == 1 {
        names[0]
    } else {
        joined(names.drop_last(), separator) + seq![separator] + names.last()
    }
}

impl LexicalPath {
    pub open spec fn view(self) -> Seq<Seq<u8>> {
        name_list(self.names@)
    }

    /// The path without names.
    pub fn new() -> (path: LexicalPath)
        ensures
            path@ == Seq::<Seq<u8>>::empty(),
    {
        let path = LexicalPath { names: Vec::new() };
        assert(path@ =~= Seq::<Seq<u8>>::empty());
        path
    }

    pub fn len(&self) -> (length: usize)
        ensures
            length == self@.len(),
    {
        self.names.len()
    }

    /// Appends a name.
    pub fn push(&mut self, name: &[u8])
        ensures
            final(self)@ == old(self)@.push(name@),
    {
        self.names.push(copy_bytes(name));
        assert(self@ =~= old(self)@.push(name@));
    }

    /// The first names of the path.
    pub fn prefix(&self, length: usize) -> (path: LexicalPath)
        requires
            length <= self@.len(),
        ensures
            path@ == self@.subrange(0, length as int),
    {
        let mut path = LexicalPath::new();
        let mut index: usize = 0;
        while index < length
            invariant
                index <= length <= self@.len(),
                path@ == self@.subrange(0, index as int),
            decreases length - index,
        {
            path.push(self.names[index].as_slice());
            index += 1;
            assert(path@ =~= self@.subrange(0, index as int));
        }
        path
    }

    /// A copy of the path.
    pub fn copy(&self) -> (path: LexicalPath)
        ensures
            path@ == self@,
    {
        let path = self.prefix(self.names.len());
        assert(path@ =~= self@);
        path
    }

    /// The path of a child.
    pub fn child(&self, name: &[u8]) -> (path: LexicalPath)
        ensures
            path@ == self@.push(name@),
    {
        let mut path = self.copy();
        path.push(name);
        path
    }

    /// The path without its last name.
    pub fn parent(&self) -> (path: Option<LexicalPath>)
        ensures
            path is Some <==> self@.len() > 0,
            path matches Some(path) ==> path@ == self@.drop_last(),
    {
        if self.names.len() == 0 {
            return None;
        }
        let path = self.prefix(self.names.len() - 1);
        assert(path@ =~= self@.drop_last());
        Some(path)
    }

    /// The last name.
    pub fn file_name(&self) -> (name: Option<&Vec<u8>>)
        ensures
            name is Some <==> self@.len() > 0,
            name matches Some(name) ==> name@ == self@.last(),
    {
        if self.names.len() == 0 {
            return None;
        }
        Some(&self.names[self.names.len() - 1])
    }

    /// Whether the names of `prefix` are the first names of the path.
    pub fn starts_with(&self, prefix: &LexicalPath) -> (result: bool)
        ensures
            result == text::has_prefix(self@, prefix@),
    {
        if prefix.names.len() > self.names.len() {
            return false;
        }
        let mut index: usize = 0;
        while index < prefix.names.len()
            invariant
                index <= prefix@.len() <= self@.len(),
                prefix@.len() == prefix.names@.len(),
                self@.len() == self.names@.len(),
                forall|i: int| 0 <= i < index ==> self@[i] == prefix@[i],
            decreases prefix@.len() - index,
        {
            if !bytes_eq(self.names[index].as_slice(), prefix.names[index].as_slice()) {
                assert(self@[index as int] != prefix@[index as int]);
                assert(self@.subrange(0, prefix@.len() as int)[index as int] == self@[index as int]);
                return false;
            }
            index += 1;
        }
        assert(self@.subrange(0, prefix@.len() as int) =~= prefix@);
        true
    }

    /// Whether both paths have the same names.
    pub fn equals(&self, other: &LexicalPath) -> (result: bool)
        ensures
            result == (self@ == other@),
    {
        if self.names.len() != other.names.len() {
            return false;
        }
        let result = self.starts_with(other);
        assert(self@.subrange(0, other@.len() as int) =~= self@);
        result
    }

    /// The names after the first ones.
    pub fn suffix(&self, start: usize) -> (path: LexicalPath)
        requires
            start <= self@.len(),
        ensures
            path@ == self@.subrange(start as int, self@.len() as int),
    {
        let mut path = LexicalPath::new();
        let mut index: usize = start;
        while index < self.names.len()
            invariant
                start <= index <= self@.len(),
                self@.len() == self.names@.len(),
                path@ == self@.subrange(start as int, index as int),
            decreases self@.len() - index,
        {
            path.push(self.names[index].as_slice());
            index += 1;
            assert(path@ =~= self@.subrange(start as int, index as int));
        }
        path
    }

    /// The names written one after the other with slashes between them.
    pub fn to_bytes(&self) -> (bytes: Vec<u8>)
        ensures
            bytes@ == joined(self@, 47u8),
    {
        let mut bytes: Vec<u8> = Vec::new();
        let mut index: usize = 0;
        while index < self.names.len()
            invariant
                index <= self@.len(),
                self@.len() == self.names@.len(),
                bytes@ == joined(self@.subrange(0, index as int), 47u8),
            decreases self@.len() - index,
        {
            let ghost longer = self@.subrange(0, index + 1);
            assert(longer.drop_last() =~= self@.subrange(0, index as int));
            if index > 0 {
                bytes.push(47);
            }
            bytes.extend_from_slice(self.names[index].as_slice());
            index += 1;
            assert(bytes@ =~= joined(longer, 47u8));
        }
        assert(self@.subrange(0, self@.len() as int) =~= self@);
        bytes
    }
}

/// The byte order of two names.
pub open spec fn name_less(left: Seq<u8>, right: Seq<u8>) -> bool
    decreases left.len(),
{
    if right.len() == 0 {
        false
    } else if left.len() == 0 {
        true
    } else if left[0] != right[0] {
        left[0] < right[0]
    } else {
        name_less(left.drop_first(), right.drop_first())
    }
}

/// The order of two paths, name by name.
pub open spec fn path_less(left: Seq<Seq<u8>>, right: Seq<Seq<u8>>) -> bool
    decreases left.len(),
{
    if right.len() == 0 {
        false
    } else if left.len() == 0 {
        true
    } else if left[0] != right[0] {
        name_less(left[0], right[0])
    } else {
        path_less(left.drop_first(), right.drop_first())
    }
}

pub proof fn lemma_name_order_is_total(left: Seq<u8>, right: Seq<u8>)
    ensures
        left != right ==> name_less(left, right) || name_less(right, left),
        !(name_less(left, right) && name_less(right, left)),
        left == right ==> !name_less(left, right),
    decreases left.len(),
{
    if left.len() > 0 && right.len() > 0 {
        lemma_name_order_is_total(left.drop_first(), right.drop_first());
        assert(left =~= seq![left[0]] + left.drop_first());
        assert(right =~= seq![right[0]] + right.drop_first());
    } else if left.len() == 0 && right.len() == 0 {
        assert(left =~= right);
    }
}

pub proof fn lemma_name_order_is_transitive(low: Seq<u8>, middle: Seq<u8>, high: Seq<u8>)
    requires
        name_less(low, middle),
        name_less(middle, high),
    ensures
        name_less(low, high),
    decreases low.len(),
{
    if low.len() > 0 && low[0] == middle[0] && middle[0] == high[0] {
        lemma_name_order_is_transitive(low.drop_first(), middle.drop_first(), high.drop_first());
    }
}

pub proof fn lemma_path_order_is_total(left: Seq<Seq<u8>>, right: Seq<Seq<u8>>)
    ensures
        left != right ==> path_less(left, right) || path_less(right, left),
        !(path_less(left, right) && path_less(right, left)),
        left == right ==> !path_less(left, right),
    decreases left.len(),
{
    if left.len() > 0 && right.len() > 0 {
        lemma_name_order_is_total(left[0], right[0]);
        lemma_path_order_is_total(left.drop_first(), right.drop_first());
        assert(left =~= seq![left[0]] + left.drop_first());
        assert(right =~= seq![right[0]] + right.drop_first());
    } else if left.len() == 0 && right.len() == 0 {
        assert(left =~= right);
    }
}

pub proof fn lemma_path_order_is_transitive(
    low: Seq<Seq<u8>>,
    middle: Seq<Seq<u8>>,
    high: Seq<Seq<u8>>,
)
    requires
        path_less(low, middle),
        path_less(middle, high),
    ensures
        path_less(low, high),
    decreases low.len(),
{
    if low.len() > 0 {
        if low[0] == middle[0] && middle[0] == high[0] {
            lemma_path_order_is_transitive(
                low.drop_first(),
                middle.drop_first(),
                high.drop_first(),
            );
        } else if low[0] != middle[0] && middle[0] != high[0] {
            lemma_name_order_is_transitive(low[0], middle[0], high[0]);
            lemma_name_order_is_total(low[0], high[0]);
        }
    }
}

/// Whether one name comes before another.
pub fn name_precedes(left: &[u8], right: &[u8]) -> (result: bool)
    ensures
        result == name_less(left@, right@),
{
    let mut index: usize = 0;
    assert(left@.subrange(0, left@.len() as int) =~= left@);
    assert(right@.subrange(0, right@.len() as int) =~= right@);
    while index < left.len() && index < right.len()
        invariant
            index <= left@.len(),
            index <= right@.len(),
            name_less(left@, right@) == name_less(
                left@.subrange(index as int, left@.len() as int),
                right@.subrange(index as int, right@.len() as int),
            ),
        decreases left@.len() - index,
    {
        let ghost left_rest = left@.subrange(index as int, left@.len() as int);
        let ghost right_rest = right@.subrange(index as int, right@.len() as int);
        assert(left_rest[0] == left@[index as int] && right_rest[0] == right@[index as int]);
        if left[index] != right[index] {
            return left[index] < right[index];
        }
        assert(left_rest.drop_first() =~= left@.subrange(index + 1, left@.len() as int));
        assert(right_rest.drop_first() =~= right@.subrange(index + 1, right@.len() as int));
        index += 1;
    }
    index < right.len()
}

impl LexicalPath {
    /// Whether the path comes before another.
    pub fn precedes(&self, other: &LexicalPath) -> (result: bool)
        ensures
            result == path_less(self@, other@),
    {
        let mut index: usize = 0;
        assert(self@.subrange(0, self@.len() as int) =~= self@);
        assert(other@.subrange(0, other@.len() as int) =~= other@);
        while index < self.names.len() && index < other.names.len()
            invariant
                index <= self@.len(),
                index <= other@.len(),
                self@.len() == self.names@.len(),
                other@.len() == other.names@.len(),
                path_less(self@, other@) == path_less(
                    self@.subrange(index as int, self@.len() as int),
                    other@.subrange(index as int, other@.len() as int),
                ),
            decreases self@.len() - index,
        {
            let ghost left_rest = self@.subrange(index as int, self@.len() as int);
            let ghost right_rest = other@.subrange(index as int, other@.len() as int);
            assert(left_rest[0] == self@[index as int] && right_rest[0] == other@[index as int]);
            if !bytes_eq(self.names[index].as_slice(), other.names[index].as_slice()) {
                return name_precedes(self.names[index].as_slice(), other.names[index].as_slice());
            }
            assert(left_rest.drop_first() =~= self@.subrange(index + 1, self@.len() as int));
            assert(right_rest.drop_first() =~= other@.subrange(index + 1, other@.len() as int));
            index += 1;
        }
        index < other.names.len()
    }
}

/// The names of each path of a list.
pub open spec fn path_list(paths: Seq<LexicalPath>) -> Seq<Seq<Seq<u8>>> {
    Seq::new(paths.len(), |i: int| paths[i]@)
}

/// Every path comes before the ones after it; in particular none occurs twice.
pub open spec fn strictly_sorted(paths: Seq<Seq<Seq<u8>>>) -> bool {
    forall|i: int, j: int|
        0 <= i < j < paths.len() ==> path_less(#[trigger] paths[i], #[trigger] paths[j])
}

/// A list in order holds no path twice.
pub proof fn lemma_sorted_paths_are_distinct(paths: Seq<Seq<Seq<u8>>>)
    requires
        strictly_sorted(paths),
    ensures
        paths.no_duplicates(),
{
    assert forall|i: int, j: int|
        0 <= i < paths.len() && 0 <= j < paths.len() && i != j implies paths[i] != paths[j] by {
        lemma_path_order_is_total(paths[i], paths[j]);
        if i < j {
            assert(path_less(paths[i], paths[j]));
        } else {
            assert(path_less(paths[j], paths[i]));
        }
    }
}

/// The paths of a list in order, each once.
pub fn sorted_paths(paths: &Vec<LexicalPath>) -> (sorted: Vec<LexicalPath>)
    ensures
        strictly_sorted(path_list(sorted@)),
        forall|path: Seq<Seq<u8>>| #[trigger]
            path_list(sorted@).contains(path) <==> path_list(paths@).contains(path),
{
    let mut sorted: Vec<LexicalPath> = Vec::new();
    let mut index: usize = 0;
    while index < paths.len()
        invariant
            index <= paths@.len(),
            strictly_sorted(path_list(sorted@)),
            forall|path: Seq<Seq<u8>>| #[trigger]
                path_list(sorted@).contains(path) <==> path_list(
                    paths@.subrange(0, index as int),
                ).contains(path),
        decreases paths@.len() - index,
    {
        insert_sorted(&mut sorted, &paths[index]);
        proof {
            let read = path_list(paths@.subrange(0, index as int));
            let longer = path_list(paths@.subrange(0, index + 1));
            assert(longer =~= read.push(paths@[index as int]@));
            assert forall|path: Seq<Seq<u8>>| #[trigger] longer.contains(path) <==> read.contains(
                path,
            ) || path == paths@[index as int]@ by {
                if read.contains(path) {
                    let i = choose|i: int| 0 <= i < read.len() && read[i] == path;
                    assert(longer[i] == path);
                }
                if path == paths@[index as int]@ {
                    assert(longer[index as int] == path);
                }
                if longer.contains(path) {
                    let i = choose|i: int| 0 <= i < longer.len() && longer[i] == path;
                    if i < read.len() {
                        assert(read[i] == path);
                    }
                }
            }
        }
        index += 1;
    }
    assert(paths@.subrange(0, paths@.len() as int) =~= paths@);
    sorted
}

fn insert_sorted(sorted: &mut Vec<LexicalPath>, path: &LexicalPath)
    requires
        strictly_sorted(path_list(old(sorted)@)),
    ensures
        strictly_sorted(path_list(final(sorted)@)),
        forall|other: Seq<Seq<u8>>| #[trigger]
            path_list(final(sorted)@).contains(other) <==> path_list(old(sorted)@).contains(other)
                || other == path@,
{
    let ghost before = path_list(sorted@);
    let mut place: usize = 0;
    while place < sorted.len() && sorted[place].precedes(path)
        invariant
            place <= sorted@.len(),
            before == path_list(sorted@),
            forall|i: int| 0 <= i < place ==> path_less(#[trigger] before[i], path@),
        decreases sorted@.len() - place,
    {
        assert(before[place as int] == sorted@[place as int]@);
        place += 1;
    }
    if place < sorted.len() && sorted[place].equals(path) {
        proof {
            assert(before[place as int] == path@);
        }
        return ;
    }
    sorted.insert(place, path.copy());
    proof {
        let after = path_list(sorted@);
        assert(after =~= before.insert(place as int, path@));
        assert forall|i: int, j: int| 0 <= i < j < after.len() implies path_less(
            #[trigger] after[i],
            #[trigger] after[j],
        ) by {
            if place < before.len() {
                lemma_path_order_is_total(before[place as int], path@);
            }
            if i == place {
                if j - 1 > place {
                    lemma_path_order_is_transitive(path@, before[place as int], before[j - 1]);
                }
            } else if j == place {
            } else {
                let a = if i < place {
                    i
                } else {
                    i - 1
                };
                let b = if j < place {
                    j
                } else {
                    j - 1
                };
                assert(after[i] == before[a] && after[j] == before[b]);
            }
        }
        assert forall|other: Seq<Seq<u8>>| #[trigger] after.contains(other) <==> before.contains(
            other,
        ) || other == path@ by {
            if before.contains(other) {
                let i = choose|i: int| 0 <= i < before.len() && before[i] == other;
                if i < place {
                    assert(after[i] == other);
                } else {
                    assert(after[i + 1] == other);
                }
            }
            if other == path@ {
                assert(after[place as int] == other);
            }
            if after.contains(other) {
                let i = choose|i: int| 0 <= i < after.len() && after[i] == other;
                if i < place {
                    assert(before[i] == other);
                } else if i > place {
                    assert(before[i - 1] == other);
                }
            }
        }
    }
}

/// Names are ordered by the first byte in which they differ, and a name comes before
/// those that it is the start of.
pub proof fn law_names_are_ordered_by_bytes(
    common: Seq<u8>,
    left: Seq<u8>,
    right: Seq<u8>,
)
    requires
        left.len() > 0 && right.len() > 0 ==> left[0] != right[0],
    ensures
        name_less(common + left, common + right) <==> (right.len() > 0 && (left.len() == 0
            || left[0] < right[0])),
    decreases common.len(),
{
    if common.len() == 0 {
        assert(common + left =~= left);
        assert(common + right =~= right);
    } else {
        let rest = common.drop_first();
        law_names_are_ordered_by_bytes(rest, left, right);
        assert((common + left).drop_first() =~= rest + left);
        assert((common + right).drop_first() =~= rest + right);
    }
}

/// Paths are ordered by the first name in which they differ, and a path comes before
/// those below it.
pub proof fn law_paths_are_ordered_by_names(
    common: Seq<Seq<u8>>,
    left: Seq<Seq<u8>>,
    right: Seq<Seq<u8>>,
)
    requires
        left.len() > 0 && right.len() > 0 ==> left[0] != right[0],
    ensures
        path_less(common + left, common + right) <==> (right.len() > 0 && (left.len() == 0
            || name_less(left[0], right[0]))),
    decreases common.len(),
{
    if common.len() == 0 {
        assert(common + left =~= left);
        assert(common + right =~= right);
    } else {
        let rest = common.drop_first();
        law_paths_are_ordered_by_names(rest, left, right);
        assert((common + left).drop_first() =~= rest + left);
        assert((common + right).drop_first() =~= rest + right);
    }
}

/// Names are joined with one separator between each two of them, and none before the
/// first or behind the last.
pub proof fn law_names_are_joined<T>(names: Seq<Seq<T>>, last: Seq<T>, separator: T)
    ensures
        joined(Seq::<Seq<T>>::empty(), separator) == Seq::<T>::empty(),
        joined(seq![last], separator) == last,
        names.len() > 0 ==> joined(names.push(last), separator) == joined(names, separator) + seq![
            separator,
        ] + last,
{
    assert(names.push(last).drop_last() =~= names);
}

} // verus!
