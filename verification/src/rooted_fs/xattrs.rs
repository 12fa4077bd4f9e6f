//! Extended attributes of files that are replaced, and putting them back.
use crate::io_error::{IoErrorKind, IoFailure};
use crate::listing::budget;
use crate::listing::budget::{saturating_product, vec_capacity};
use crate::listing::sort::try_reserve_exact;
use crate::steps;
use crate::steps::{must_succeed, Check, Step};
use crate::text;
use crate::text::{bytes_eq, copy_bytes};
use vstd::layout;
use vstd::prelude::*;
use vstd::string::*;
use vstd::utf8::*;

verus! {

/// The most bytes that the names of all attributes may take.
pub const XATTR_LIST_LIMIT: usize = 65536;

/// The most bytes that the value of one attribute may take.
pub const XATTR_VALUE_LIMIT: usize = 65536;

/// The most bytes that all attributes may take.
pub const XATTR_TOTAL_LIMIT: usize = 1048576;

/// The most attributes that a file may have.
pub const XATTR_COUNT_LIMIT: usize = 1024;

/// One attribute: its name, without the zero that ends it, and its value.
pub struct Xattr {
    pub name: Vec<u8>,
    pub value: Vec<u8>,
}

pub open spec fn attribute_pairs(attributes: Seq<Xattr>) -> Seq<(Seq<u8>, Seq<u8>)> {
    attributes.map_values(|attribute: Xattr| (attribute.name@, attribute.value@))
}

/// How many zeros bytes hold.
pub open spec fn zeros(bytes: Seq<u8>) -> nat
    decreases bytes.len(),
{
    if bytes.len() == 0 {
        0
    } else if bytes.last() == 0 {
        zeros(bytes.drop_last()) + 1
    } else {
        zeros(bytes.drop_last())
    }
}

fn count_zeros(bytes: &Vec<u8>) -> (count: usize)
    ensures
        count == zeros(bytes@),
{
    let mut count: usize = 0;
    let mut index: usize = 0;
    while index < bytes.len()
        invariant
            index <= bytes@.len(),
            count == zeros(bytes@.subrange(0, index as int)),
            count <= index,
        decreases bytes@.len() - index,
    {
        let ghost longer = bytes@.subrange(0, index + 1);
        assert(longer.drop_last() =~= bytes@.subrange(0, index as int));
        assert(longer.last() == bytes@[index as int]);
        if bytes[index] == 0 {
            count += 1;
        }
        index += 1;
    }
    assert(bytes@.subrange(0, index as int) =~= bytes@);
    count
}

/// Where the name that starts at a place ends: at its zero, or at the end.
pub open spec fn name_end(bytes: Seq<u8>, place: int) -> int
    decreases bytes.len() - place,
{
    if place < 0 || place >= bytes.len() || bytes[place] == 0 {
        place
    } else {
        name_end(bytes, place + 1)
    }
}

/// The names of attributes as a file lists them: each ended by a zero.
pub open spec fn listing_of(attributes: Seq<(Seq<u8>, Seq<u8>)>) -> Seq<u8>
    decreases attributes.len(),
{
    if attributes.len() == 0 {
        Seq::empty()
    } else {
        listing_of(attributes.drop_last()) + attributes.last().0.push(0u8)
    }
}

/// What a list takes that has room for so many attributes.
pub open spec fn attribute_list_bytes(room: usize) -> usize {
    budget::capped(room * layout::size_of::<(Box<[u8]>, Vec<u8>)>())
}

pub fn index_bytes(room: usize) -> (bytes: usize)
    ensures
        bytes == attribute_list_bytes(room),
{
    saturating_product(room, core::mem::size_of::<(Box<[u8]>, Vec<u8>)>())
}

/// Reads the attributes of a file one by one, within bounds.
pub struct XattrReader {
    names: Vec<u8>,
    place: usize,
    total: usize,
    attributes: Vec<Xattr>,
}

/// What a reader of attributes needs next.
pub enum XattrStep {
    /// The length of the value of this attribute.
    Measure(Vec<u8>),
    Complete,
    /// A name has no end.
    Failed(IoFailure),
}

pub open spec fn invalid_data() -> IoFailure {
    IoFailure { kind: IoErrorKind::InvalidData, number: None }
}

impl XattrReader {
    /// The names of the attributes, each ended by a zero.
    pub closed spec fn listed(self) -> Seq<u8> {
        self.names@
    }

    pub closed spec fn at(self) -> int {
        self.place as int
    }

    /// How many bytes have been set aside.
    pub closed spec fn used(self) -> nat {
        self.total as nat
    }

    pub closed spec fn read(self) -> Seq<Xattr> {
        self.attributes@
    }

    /// The attributes that were read are the listed ones up to the place that was
    /// reached.
    pub open spec fn is_valid(self) -> bool {
        &&& 0 <= self.at() <= self.listed().len()
        &&& listing_of(attribute_pairs(self.read())) == self.listed().subrange(0, self.at())
    }

    /// Starts with the names of the attributes, an empty list for them, and the bytes
    /// that this list takes.
    fn start_in(names: Vec<u8>, attributes: Vec<Xattr>, index_bytes: usize) -> (reader: XattrReader)
        requires
            attributes@.len() == 0,
        ensures
            reader.is_started(names@, index_bytes),
    {
        let reader = XattrReader { names, place: 0, total: index_bytes, attributes };
        assert(listing_of(attribute_pairs(reader.read())) =~= names@.subrange(0, 0));
        reader
    }

    /// A reader that has read nothing yet.
    pub open spec fn is_started(self, names: Seq<u8>, index_bytes: usize) -> bool {
        &&& self.is_valid()
        &&& self.listed() == names
        &&& self.at() == 0
        &&& self.used() == index_bytes
        &&& self.read().len() == 0
    }

    /// Starts with the names of the attributes, and the bytes that the list of them
    /// takes.
    pub fn start(names: Vec<u8>, index_bytes: usize) -> (reader: Result<XattrReader, IoFailure>)
        ensures
            match reader {
                Ok(reader) => zeros(names@) <= XATTR_COUNT_LIMIT && reader.is_started(
                    names@,
                    index_bytes,
                ),
                Err(failure) => zeros(names@) > XATTR_COUNT_LIMIT && failure == invalid_data(),
            },
    {
        if count_zeros(&names) > XATTR_COUNT_LIMIT {
            return Err(IoFailure::of_kind(IoErrorKind::InvalidData));
        }
        Ok(XattrReader::start_in(names, Vec::new(), index_bytes))
    }

    /// Starts with the names of the attributes, and sets room aside for the list of
    /// them. Whether the allocator has that room, and whether it gives more, is open.
    pub fn start_with_room(names: Vec<u8>) -> (reader: Result<XattrReader, IoFailure>)
        ensures
            match reader {
                Ok(reader) => zeros(names@) <= XATTR_COUNT_LIMIT && exists|room: usize|
                    room >= zeros(names@) && reader.is_started(
                        names@,
                        #[trigger] attribute_list_bytes(room),
                    ),
                Err(failure) => failure == (if zeros(names@) > XATTR_COUNT_LIMIT {
                    invalid_data()
                } else {
                    IoFailure { kind: IoErrorKind::OutOfMemory, number: None }
                }),
            },
    {
        let count = count_zeros(&names);
        if count > XATTR_COUNT_LIMIT {
            return Err(IoFailure::of_kind(IoErrorKind::InvalidData));
        }
        let mut attributes: Vec<Xattr> = Vec::new();
        if !try_reserve_exact(&mut attributes, count) {
            return Err(IoFailure::of_kind(IoErrorKind::OutOfMemory));
        }
        // Never less than what was asked for.
        let given = vec_capacity(&attributes);
        let room: usize = if given > count {
            given
        } else {
            count
        };
        Ok(XattrReader::start_in(names, attributes, index_bytes(room)))
    }

    fn find_end(&self) -> (end: usize)
        requires
            self.is_valid(),
        ensures
            end == name_end(self.listed(), self.at()),
            self.at() <= end <= self.listed().len(),
            end < self.listed().len() ==> self.listed()[end as int] == 0,
    {
        let mut end: usize = self.place;
        while end < self.names.len() && self.names[end] != 0
            invariant
                self.place <= end <= self.names@.len(),
                name_end(self.names@, self.place as int) == name_end(self.names@, end as int),
            decreases self.names@.len() - end,
        {
            end += 1;
        }
        end
    }

    /// What is needed next.
    pub fn next(&self) -> (step: XattrStep)
        requires
            self.is_valid(),
        ensures
            ({
                let end = name_end(self.listed(), self.at());
                match step {
                    XattrStep::Complete => self.at() == self.listed().len(),
                    XattrStep::Failed(failure) => self.at() < self.listed().len() && end
                        == self.listed().len() && failure == invalid_data(),
                    XattrStep::Measure(name) => self.at() <= end < self.listed().len() && name@
                        == self.listed().subrange(self.at(), end),
                }
            }),
    {
        if self.place == self.names.len() {
            return XattrStep::Complete;
        }
        let end = self.find_end();
        if end == self.names.len() {
            return XattrStep::Failed(IoFailure::of_kind(IoErrorKind::InvalidData));
        }
        XattrStep::Measure(self.name_to(end))
    }

    /// The name that is next and ends here.
    fn name_to(&self, end: usize) -> (name: Vec<u8>)
        requires
            self.at() <= end <= self.listed().len(),
        ensures
            name@ == self.listed().subrange(self.at(), end as int),
    {
        let mut name: Vec<u8> = Vec::new();
        let mut index: usize = self.place;
        while index < end
            invariant
                self.place <= index <= end,
                end <= self.names@.len(),
                name@ == self.names@.subrange(self.place as int, index as int),
            decreases end - index,
        {
            name.push(self.names[index]);
            assert(name@ =~= self.names@.subrange(self.place as int, index + 1));
            index += 1;
        }
        name
    }

    /// Sets aside the bytes of the attribute that is next: its name with the zero,
    /// and its value.
    pub fn reserve(&mut self, value_length: usize) -> (result: Result<(), IoFailure>)
        requires
            old(self).is_valid(),
            name_end(old(self).listed(), old(self).at()) < old(self).listed().len(),
        ensures
            final(self).is_valid(),
            final(self).listed() == old(self).listed(),
            final(self).at() == old(self).at(),
            final(self).read() == old(self).read(),
            ({
                let needed = old(self).used() + (name_end(old(self).listed(), old(self).at())
                    - old(self).at() + 1) + value_length;
                match result {
                    Ok(_) => value_length <= XATTR_VALUE_LIMIT && needed <= XATTR_TOTAL_LIMIT
                        && final(self).used() == needed,
                    Err(failure) => (value_length > XATTR_VALUE_LIMIT || needed
                        > XATTR_TOTAL_LIMIT) && failure == invalid_data() && final(self).used()
                        == old(self).used(),
                }
            }),
    {
        if value_length > XATTR_VALUE_LIMIT {
            return Err(IoFailure::of_kind(IoErrorKind::InvalidData));
        }
        let end = self.find_end();
        let name_bytes: usize = end - self.place;
        if name_bytes >= XATTR_TOTAL_LIMIT || self.total > XATTR_TOTAL_LIMIT {
            return Err(IoFailure::of_kind(IoErrorKind::InvalidData));
        }
        let needed: usize = self.total + name_bytes + 1 + value_length;
        if needed > XATTR_TOTAL_LIMIT {
            return Err(IoFailure::of_kind(IoErrorKind::InvalidData));
        }
        self.total = needed;
        Ok(())
    }

    /// Takes the value of the attribute that is next, under its listed name.
    pub fn take(&mut self, value: Vec<u8>)
        requires
            old(self).is_valid(),
            name_end(old(self).listed(), old(self).at()) < old(self).listed().len(),
        ensures
            final(self).is_valid(),
            final(self).listed() == old(self).listed(),
            final(self).at() == name_end(old(self).listed(), old(self).at()) + 1,
            final(self).used() == old(self).used(),
            attribute_pairs(final(self).read()) == attribute_pairs(old(self).read()).push(
                (
                    old(self).listed().subrange(
                        old(self).at(),
                        name_end(old(self).listed(), old(self).at()),
                    ),
                    value@,
                ),
            ),
    {
        let end = self.find_end();
        let length = self.names.len();
        assert(end < length);
        let name = self.name_to(end);
        self.place = end + 1;
        self.attributes.push(Xattr { name, value });
        proof {
            let pairs = attribute_pairs(old(self).attributes@);
            let added = pairs.push((name@, value@));
            assert(added.drop_last() =~= pairs);
            assert(self.names@.subrange(0, end + 1) =~= self.names@.subrange(
                0,
                old(self).place as int,
            ) + name@.push(0u8));
        }
        assert(attribute_pairs(self.attributes@) =~= attribute_pairs(old(self).attributes@).push(
            (name@, value@),
        ));
    }

    pub fn into_attributes(self) -> (attributes: Vec<Xattr>)
        ensures
            attributes@ == self.read(),
    {
        self.attributes
    }
}

/// A reader that has come to its end has read every attribute that the file lists,
/// once and in that order.
pub proof fn law_complete_readers_have_read_all(reader: XattrReader)
    requires
        reader.is_valid(),
        reader.at() == reader.listed().len(),
    ensures
        listing_of(attribute_pairs(reader.read())) == reader.listed(),
{
    assert(reader.listed().subrange(0, reader.at()) =~= reader.listed());
}

pub open spec fn is_privileged(name: Seq<u8>) -> bool {
    text::has_prefix(
        name,
        seq![115u8, 101u8, 99u8, 117u8, 114u8, 105u8, 116u8, 121u8, 46u8],
    ) || text::has_prefix(name, seq![116u8, 114u8, 117u8, 115u8, 116u8, 101u8, 100u8, 46u8])
}

fn starts_with(name: &[u8], prefix: &[u8]) -> (result: bool)
    ensures
        result == text::has_prefix(name@, prefix@),
{
    if name.len() < prefix.len() {
        return false;
    }
    let mut index: usize = 0;
    while index < prefix.len()
        invariant
            index <= prefix@.len() <= name@.len(),
            forall|i: int| 0 <= i < index ==> name@[i] == prefix@[i],
        decreases prefix@.len() - index,
    {
        if name[index] != prefix[index] {
            assert(name@.subrange(0, prefix@.len() as int)[index as int] != prefix@[index as int]);
            return false;
        }
        index += 1;
    }
    assert(name@.subrange(0, prefix@.len() as int) =~= prefix@);
    true
}

/// The name of an attribute that only a privileged process may set, such as
/// `security.capability`: all that start with `security.` or `trusted.`.
pub fn is_privileged_xattr(name: &[u8]) -> (privileged: bool)
    ensures
        privileged == is_privileged(name@),
{
    let security: [u8; 9] = [115, 101, 99, 117, 114, 105, 116, 121, 46];
    let trusted: [u8; 8] = [116, 114, 117, 115, 116, 101, 100, 46];
    assert(security@ =~= seq![115u8, 101u8, 99u8, 117u8, 114u8, 105u8, 116u8, 121u8, 46u8]);
    assert(trusted@ =~= seq![116u8, 114u8, 117u8, 115u8, 116u8, 101u8, 100u8, 46u8]);
    starts_with(name, &security) || starts_with(name, &trusted)
}

/// The bytes of `system.posix_acl_access`.
pub open spec fn access_acl_name() -> Seq<u8> {
    seq![
        115u8,
        121u8,
        115u8,
        116u8,
        101u8,
        109u8,
        46u8,
        112u8,
        111u8,
        115u8,
        105u8,
        120u8,
        95u8,
        97u8,
        99u8,
        108u8,
        95u8,
        97u8,
        99u8,
        99u8,
        101u8,
        115u8,
        115u8,
    ]
}

/// The name of the attribute that holds the access list of a file.
pub fn is_posix_access_acl(name: &[u8]) -> (result: bool)
    ensures
        result == (name@ == access_acl_name()),
{
    let wanted: [u8; 23] = [
        115,
        121,
        115,
        116,
        101,
        109,
        46,
        112,
        111,
        115,
        105,
        120,
        95,
        97,
        99,
        108,
        95,
        97,
        99,
        99,
        101,
        115,
        115,
    ];
    assert(wanted@ =~= access_acl_name());
    bytes_eq(name, &wanted)
}

/// The metadata of a file that is carried over to the one that replaces it.
pub struct PreservedFileMetadata {
    pub uid: u32,
    pub gid: u32,
    pub mode: u32,
    pub xattrs: Vec<Xattr>,
}

/// The owner that the new file has to be given, unless it has it already.
pub fn owner_change(uid: u32, gid: u32, metadata: &PreservedFileMetadata) -> (owner: Option<
    (u32, u32),
>)
    ensures
        owner == (if uid != metadata.uid || gid != metadata.gid {
            Some((metadata.uid, metadata.gid))
        } else {
            None
        }),
{
    if uid != metadata.uid || gid != metadata.gid {
        Some((metadata.uid, metadata.gid))
    } else {
        None
    }
}

/// The mode that the new file is given last of all.
pub fn final_mode(metadata: &PreservedFileMetadata) -> (mode: u32)
    ensures
        mode == metadata.mode & 0o7777,
        mode <= 0o7777,
{
    let mode = metadata.mode;
    assert(mode & 0o7777 <= 0o7777) by (bit_vector);
    mode & 0o7777
}

/// One step of putting attributes back.
pub enum RestoreAction {
    Remove(Vec<u8>),
    /// Set the attribute at this place of the preserved ones.
    Put(usize),
}

#[verifier::ext_equal]
pub enum RestoreView {
    Remove(Seq<u8>),
    Put(int),
}

pub open spec fn action_list(actions: Seq<RestoreAction>) -> Seq<RestoreView> {
    actions.map_values(
        |action: RestoreAction|
            match action {
                RestoreAction::Remove(name) => RestoreView::Remove(name@),
                RestoreAction::Put(place) => RestoreView::Put(place as int),
            },
    )
}

/// The name is among those of some attributes.
pub open spec fn is_named(attributes: Seq<(Seq<u8>, Seq<u8>)>, name: Seq<u8>) -> bool {
    exists|i: int| 0 <= i < attributes.len() && (#[trigger] attributes[i]).0 == name
}

/// The removals of all attributes of the new file that the old one did not have.
pub open spec fn removals(
    current: Seq<(Seq<u8>, Seq<u8>)>,
    preserved: Seq<(Seq<u8>, Seq<u8>)>,
) -> Seq<RestoreView>
    decreases current.len(),
{
    if current.len() == 0 {
        Seq::empty()
    } else {
        let before = removals(current.drop_last(), preserved);
        if is_named(preserved, current.last().0) {
            before
        } else {
            before.push(RestoreView::Remove(current.last().0))
        }
    }
}

/// All attributes but the access list, in their order.
pub open spec fn ordinary_sets(preserved: Seq<(Seq<u8>, Seq<u8>)>) -> Seq<RestoreView>
    decreases preserved.len(),
{
    if preserved.len() == 0 {
        Seq::empty()
    } else {
        let before = ordinary_sets(preserved.drop_last());
        if preserved.last().0 == access_acl_name() {
            before
        } else {
            before.push(RestoreView::Put(preserved.len() - 1))
        }
    }
}

/// The place of the first access list, or the number of attributes.
pub open spec fn acl_place(preserved: Seq<(Seq<u8>, Seq<u8>)>) -> int
    decreases preserved.len(),
{
    if preserved.len() == 0 || preserved[0].0 == access_acl_name() {
        0
    } else {
        1 + acl_place(preserved.subrange(1, preserved.len() as int))
    }
}

/// The access list is set after everything else: it may take away the right to set
/// anything more.
pub open spec fn acl_sets(preserved: Seq<(Seq<u8>, Seq<u8>)>) -> Seq<RestoreView> {
    if acl_place(preserved) < preserved.len() {
        seq![RestoreView::Put(acl_place(preserved))]
    } else {
        Seq::empty()
    }
}

/// All that is done to give a new file the attributes of the one that it replaces.
pub open spec fn restoration(
    current: Seq<(Seq<u8>, Seq<u8>)>,
    preserved: Seq<(Seq<u8>, Seq<u8>)>,
) -> Seq<RestoreView> {
    removals(current, preserved) + ordinary_sets(preserved) + acl_sets(preserved)
}

fn has_attribute(attributes: &Vec<Xattr>, name: &[u8]) -> (found: bool)
    ensures
        found == is_named(attribute_pairs(attributes@), name@),
{
    let ghost pairs = attribute_pairs(attributes@);
    let mut index: usize = 0;
    while index < attributes.len()
        invariant
            pairs == attribute_pairs(attributes@),
            index <= attributes@.len(),
            forall|i: int| 0 <= i < index ==> (#[trigger] pairs[i]).0 != name@,
        decreases attributes@.len() - index,
    {
        assert(pairs[index as int].0 == attributes@[index as int].name@);
        if bytes_eq(attributes[index].name.as_slice(), name) {
            return true;
        }
        index += 1;
    }
    false
}

proof fn lemma_acl_place(preserved: Seq<(Seq<u8>, Seq<u8>)>, place: int)
    requires
        0 <= place <= preserved.len(),
        forall|i: int| 0 <= i < place ==> (#[trigger] preserved[i]).0 != access_acl_name(),
        place < preserved.len() ==> preserved[place].0 == access_acl_name(),
    ensures
        acl_place(preserved) == place,
    decreases preserved.len(),
{
    if place > 0 {
        let rest = preserved.subrange(1, preserved.len() as int);
        assert(preserved[0].0 != access_acl_name());
        assert forall|i: int| 0 <= i < place - 1 implies (#[trigger] rest[i]).0
            != access_acl_name() by {
            assert(rest[i] == preserved[i + 1]);
        }
        lemma_acl_place(rest, place - 1);
    }
}

fn find_acl(preserved: &Vec<Xattr>) -> (place: usize)
    ensures
        place == acl_place(attribute_pairs(preserved@)),
        place <= preserved@.len(),
{
    let ghost pairs = attribute_pairs(preserved@);
    let mut index: usize = 0;
    while index < preserved.len()
        invariant
            pairs == attribute_pairs(preserved@),
            index <= preserved@.len(),
            forall|i: int| 0 <= i < index ==> (#[trigger] pairs[i]).0 != access_acl_name(),
        decreases preserved@.len() - index,
    {
        assert(pairs[index as int].0 == preserved@[index as int].name@);
        if is_posix_access_acl(preserved[index].name.as_slice()) {
            proof {
                lemma_acl_place(pairs, index as int);
            }
            return index;
        }
        index += 1;
    }
    proof {
        lemma_acl_place(pairs, pairs.len() as int);
    }
    index
}

/// Plans how a new file is given the attributes of the one that it replaces, from
/// those that it has and those that were preserved.
pub fn attribute_plan(current: &Vec<Xattr>, preserved: &Vec<Xattr>) -> (plan: Vec<RestoreAction>)
    ensures
        action_list(plan@) == restoration(
            attribute_pairs(current@),
            attribute_pairs(preserved@),
        ),
{
    let ghost had = attribute_pairs(current@);
    let ghost kept = attribute_pairs(preserved@);
    let mut plan: Vec<RestoreAction> = Vec::new();
    let mut index: usize = 0;
    assert(action_list(plan@) =~= removals(had.subrange(0, 0), kept));
    while index < current.len()
        invariant
            had == attribute_pairs(current@),
            kept == attribute_pairs(preserved@),
            index <= current@.len(),
            action_list(plan@) == removals(had.subrange(0, index as int), kept),
        decreases current@.len() - index,
    {
        let ghost longer = had.subrange(0, index + 1);
        let ghost before = action_list(plan@);
        assert(longer.drop_last() =~= had.subrange(0, index as int));
        assert(longer.last().0 == current@[index as int].name@);
        if !has_attribute(preserved, current[index].name.as_slice()) {
            let name = copy_bytes(current[index].name.as_slice());
            plan.push(RestoreAction::Remove(name));
            assert(action_list(plan@) =~= before.push(RestoreView::Remove(longer.last().0)));
        }
        index += 1;
    }
    assert(had.subrange(0, index as int) =~= had);
    let ghost removed = action_list(plan@);
    let mut place: usize = 0;
    assert(removed + ordinary_sets(kept.subrange(0, 0)) =~= removed);
    while place < preserved.len()
        invariant
            had == attribute_pairs(current@),
            kept == attribute_pairs(preserved@),
            removed == removals(had, kept),
            place <= preserved@.len(),
            action_list(plan@) == removed + ordinary_sets(kept.subrange(0, place as int)),
        decreases preserved@.len() - place,
    {
        let ghost longer = kept.subrange(0, place + 1);
        let ghost before = action_list(plan@);
        assert(longer.drop_last() =~= kept.subrange(0, place as int));
        assert(longer.last().0 == preserved@[place as int].name@);
        if !is_posix_access_acl(preserved[place].name.as_slice()) {
            plan.push(RestoreAction::Put(place));
            assert(action_list(plan@) =~= before.push(RestoreView::Put(place as int)));
        }
        assert(action_list(plan@) =~= removed + ordinary_sets(longer));
        place += 1;
    }
    assert(kept.subrange(0, place as int) =~= kept);
    let acl = find_acl(preserved);
    let ghost before = action_list(plan@);
    if acl < preserved.len() {
        plan.push(RestoreAction::Put(acl));
        assert(action_list(plan@) =~= before.push(RestoreView::Put(acl as int)));
    }
    assert(action_list(plan@) =~= restoration(had, kept));
    plan
}

/// Nothing is set after the access list.
pub proof fn law_access_lists_come_last(
    current: Seq<(Seq<u8>, Seq<u8>)>,
    preserved: Seq<(Seq<u8>, Seq<u8>)>,
    step: int,
)
    requires
        0 <= step < restoration(current, preserved).len(),
        restoration(current, preserved)[step] matches RestoreView::Put(place) && 0 <= place
            < preserved.len() && preserved[place].0 == access_acl_name(),
    ensures
        step == restoration(current, preserved).len() - 1,
{
    let before = removals(current, preserved);
    let sets = ordinary_sets(preserved);
    lemma_removals_set_nothing(current, preserved);
    lemma_ordinary_sets(preserved);
    if step < before.len() {
        assert(restoration(current, preserved)[step] == before[step]);
    } else if step < before.len() + sets.len() {
        assert(restoration(current, preserved)[step] == sets[step - before.len()]);
    }
}

proof fn lemma_removals_set_nothing(
    current: Seq<(Seq<u8>, Seq<u8>)>,
    preserved: Seq<(Seq<u8>, Seq<u8>)>,
)
    ensures
        forall|i: int|
            0 <= i < removals(current, preserved).len() ==> #[trigger] removals(
                current,
                preserved,
            )[i] is Remove,
    decreases current.len(),
{
    if current.len() > 0 {
        lemma_removals_set_nothing(current.drop_last(), preserved);
    }
}

proof fn lemma_ordinary_sets(preserved: Seq<(Seq<u8>, Seq<u8>)>)
    ensures
        forall|i: int|
            0 <= i < ordinary_sets(preserved).len() ==> (#[trigger] ordinary_sets(
                preserved,
            )[i] matches RestoreView::Put(place) && 0 <= place < preserved.len()
                && preserved[place].0 != access_acl_name()),
    decreases preserved.len(),
{
    if preserved.len() > 0 {
        lemma_ordinary_sets(preserved.drop_last());
        let before = ordinary_sets(preserved.drop_last());
        assert forall|i: int| 0 <= i < ordinary_sets(preserved).len() implies (
        #[trigger] ordinary_sets(preserved)[i] matches RestoreView::Put(place) && 0 <= place
            < preserved.len() && preserved[place].0 != access_acl_name()) by {
            if i < before.len() {
                assert(ordinary_sets(preserved)[i] == before[i]);
                let place = before[i]->Put_0;
                assert(preserved.drop_last()[place] == preserved[place]);
            }
        }
    }
}

/// The attributes that a file has, by their names.
pub open spec fn attribute_map(attributes: Seq<(Seq<u8>, Seq<u8>)>) -> Map<Seq<u8>, Seq<u8>>
    decreases attributes.len(),
{
    if attributes.len() == 0 {
        Map::empty()
    } else {
        attribute_map(attributes.drop_last()).insert(attributes.last().0, attributes.last().1)
    }
}

/// No two of the attributes have the same name, which holds of those of one file.
pub open spec fn names_are_unique(attributes: Seq<(Seq<u8>, Seq<u8>)>) -> bool {
    forall|i: int, j: int|
        0 <= i < j < attributes.len() ==> (#[trigger] attributes[i]).0 != (
        #[trigger] attributes[j]).0
}

/// What a file has after some steps of a restoration.
pub open spec fn carried_out(
    file: Map<Seq<u8>, Seq<u8>>,
    steps: Seq<RestoreView>,
    preserved: Seq<(Seq<u8>, Seq<u8>)>,
) -> Map<Seq<u8>, Seq<u8>>
    decreases steps.len(),
{
    if steps.len() == 0 {
        file
    } else {
        let before = carried_out(file, steps.drop_last(), preserved);
        match steps.last() {
            RestoreView::Remove(name) => before.remove(name),
            RestoreView::Put(place) => before.insert(preserved[place].0, preserved[place].1),
        }
    }
}

proof fn lemma_steps_join(
    file: Map<Seq<u8>, Seq<u8>>,
    first: Seq<RestoreView>,
    second: Seq<RestoreView>,
    preserved: Seq<(Seq<u8>, Seq<u8>)>,
)
    ensures
        carried_out(file, first + second, preserved) == carried_out(
            carried_out(file, first, preserved),
            second,
            preserved,
        ),
    decreases second.len(),
{
    if second.len() == 0 {
        assert(first + second =~= first);
    } else {
        assert((first + second).drop_last() =~= first + second.drop_last());
        lemma_steps_join(file, first, second.drop_last(), preserved);
    }
}

proof fn lemma_map_holds_the_named(attributes: Seq<(Seq<u8>, Seq<u8>)>, name: Seq<u8>)
    ensures
        attribute_map(attributes).contains_key(name) <==> is_named(attributes, name),
    decreases attributes.len(),
{
    if attributes.len() > 0 {
        let earlier = attributes.drop_last();
        lemma_map_holds_the_named(earlier, name);
        if is_named(earlier, name) {
            let i = choose|i: int| 0 <= i < earlier.len() && (#[trigger] earlier[i]).0 == name;
            assert(attributes[i].0 == name);
        }
        if is_named(attributes, name) && attributes.last().0 != name {
            let i = choose|i: int|
                0 <= i < attributes.len() && (#[trigger] attributes[i]).0 == name;
            assert(earlier[i].0 == name);
        }
        if attributes.last().0 == name {
            assert(attributes[attributes.len() - 1].0 == name);
        }
    }
}

proof fn lemma_map_has_the_values(attributes: Seq<(Seq<u8>, Seq<u8>)>, place: int)
    requires
        names_are_unique(attributes),
        0 <= place < attributes.len(),
    ensures
        attribute_map(attributes).contains_key(attributes[place].0),
        attribute_map(attributes)[attributes[place].0] == attributes[place].1,
    decreases attributes.len(),
{
    if place < attributes.len() - 1 {
        let earlier = attributes.drop_last();
        assert forall|i: int, j: int| 0 <= i < j < earlier.len() implies (
        #[trigger] earlier[i]).0 != (#[trigger] earlier[j]).0 by {
            assert(attributes[i].0 != attributes[j].0);
        }
        lemma_map_has_the_values(earlier, place);
        assert(attributes[place].0 != attributes[attributes.len() - 1].0);
    }
}

/// The removals leave those of the attributes that the replaced file had as well.
proof fn lemma_removals_leave_the_named(
    file: Map<Seq<u8>, Seq<u8>>,
    current: Seq<(Seq<u8>, Seq<u8>)>,
    preserved: Seq<(Seq<u8>, Seq<u8>)>,
    name: Seq<u8>,
)
    ensures
        carried_out(file, removals(current, preserved), preserved).contains_key(name) <==> (
        file.contains_key(name) && (is_named(current, name) ==> is_named(preserved, name))),
    decreases current.len(),
{
    if current.len() > 0 {
        let earlier = current.drop_last();
        let before = removals(earlier, preserved);
        lemma_removals_leave_the_named(file, earlier, preserved, name);
        if !is_named(preserved, current.last().0) {
            assert(removals(current, preserved).drop_last() =~= before);
        }
        if is_named(earlier, name) {
            let i = choose|i: int| 0 <= i < earlier.len() && (#[trigger] earlier[i]).0 == name;
            assert(current[i].0 == name);
        }
        if is_named(current, name) && current.last().0 != name {
            let i = choose|i: int| 0 <= i < current.len() && (#[trigger] current[i]).0 == name;
            assert(earlier[i].0 == name);
        }
        if current.last().0 == name {
            assert(current[current.len() - 1].0 == name);
        }
    }
}

/// The ordinary attributes are set to what the replaced file had, and no others are
/// touched.
proof fn lemma_sets_put_the_ordinary(
    file: Map<Seq<u8>, Seq<u8>>,
    part: Seq<(Seq<u8>, Seq<u8>)>,
    preserved: Seq<(Seq<u8>, Seq<u8>)>,
    name: Seq<u8>,
)
    requires
        names_are_unique(preserved),
        part.len() <= preserved.len(),
        part == preserved.subrange(0, part.len() as int),
    ensures
        ({
            let after = carried_out(file, ordinary_sets(part), preserved);
            if is_named(part, name) && name != access_acl_name() {
                after.contains_key(name) && after[name] == attribute_map(preserved)[name]
            } else {
                after.contains_key(name) == file.contains_key(name) && after[name] == file[name]
            }
        }),
    decreases part.len(),
{
    if part.len() > 0 {
        let earlier = part.drop_last();
        let place = part.len() - 1;
        assert(earlier =~= preserved.subrange(0, place));
        lemma_sets_put_the_ordinary(file, earlier, preserved, name);
        assert(part[place] == preserved[place]);
        lemma_map_has_the_values(preserved, place);
        if part.last().0 != access_acl_name() {
            assert(ordinary_sets(part).drop_last() =~= ordinary_sets(earlier));
        }
        if is_named(earlier, name) {
            let i = choose|i: int| 0 <= i < earlier.len() && (#[trigger] earlier[i]).0 == name;
            assert(part[i].0 == name);
        }
        if is_named(part, name) && part.last().0 != name {
            let i = choose|i: int| 0 <= i < part.len() && (#[trigger] part[i]).0 == name;
            assert(earlier[i].0 == name);
        }
    }
}

proof fn lemma_acl_is_at_its_place(preserved: Seq<(Seq<u8>, Seq<u8>)>)
    ensures
        0 <= acl_place(preserved) <= preserved.len(),
        acl_place(preserved) < preserved.len() ==> preserved[acl_place(preserved)].0
            == access_acl_name(),
        acl_place(preserved) < preserved.len() <==> is_named(preserved, access_acl_name()),
    decreases preserved.len(),
{
    if preserved.len() > 0 && preserved[0].0 != access_acl_name() {
        let rest = preserved.subrange(1, preserved.len() as int);
        lemma_acl_is_at_its_place(rest);
        if is_named(rest, access_acl_name()) {
            let i = choose|i: int|
                0 <= i < rest.len() && (#[trigger] rest[i]).0 == access_acl_name();
            assert(preserved[i + 1].0 == access_acl_name());
        }
        if is_named(preserved, access_acl_name()) {
            let i = choose|i: int|
                0 <= i < preserved.len() && (#[trigger] preserved[i]).0 == access_acl_name();
            assert(rest[i - 1].0 == access_acl_name());
        }
    }
}

/// A file that is given the attributes of the one that it replaces ends up with
/// exactly those, whatever it had before.
pub proof fn law_restorations_are_exact(
    current: Seq<(Seq<u8>, Seq<u8>)>,
    preserved: Seq<(Seq<u8>, Seq<u8>)>,
)
    requires
        names_are_unique(preserved),
    ensures
        carried_out(attribute_map(current), restoration(current, preserved), preserved)
            == attribute_map(preserved),
{
    let file = attribute_map(current);
    let cleared = carried_out(file, removals(current, preserved), preserved);
    let ordinary = carried_out(cleared, ordinary_sets(preserved), preserved);
    let last = carried_out(ordinary, acl_sets(preserved), preserved);
    lemma_steps_join(file, removals(current, preserved), ordinary_sets(preserved), preserved);
    lemma_steps_join(
        file,
        removals(current, preserved) + ordinary_sets(preserved),
        acl_sets(preserved),
        preserved,
    );
    assert(carried_out(file, restoration(current, preserved), preserved) == last);
    lemma_acl_is_at_its_place(preserved);
    let place = acl_place(preserved);
    if place < preserved.len() {
        lemma_map_has_the_values(preserved, place);
        let steps = acl_sets(preserved);
        assert(steps.drop_last() =~= Seq::empty());
        assert(steps.last() == RestoreView::Put(place));
        assert(carried_out(ordinary, steps.drop_last(), preserved) == ordinary);
    }
    assert(preserved =~= preserved.subrange(0, preserved.len() as int));
    assert forall|name: Seq<u8>| #[trigger]
        last.contains_key(name) == attribute_map(preserved).contains_key(name) && (
        attribute_map(preserved).contains_key(name) ==> last[name] == attribute_map(
            preserved,
        )[name]) by {
        lemma_map_holds_the_named(current, name);
        lemma_map_holds_the_named(preserved, name);
        lemma_removals_leave_the_named(file, current, preserved, name);
        lemma_sets_put_the_ordinary(cleared, preserved, preserved, name);
    }
    assert(last =~= attribute_map(preserved));
}

/// What giving a file its preserved metadata looks at or does next.
#[derive(Clone, Copy, Debug, Eq, PartialEq, Structural)]
pub enum ApplyProbe {
    /// The owner and the group of the file.
    Stat,
    ChangeOwner { uid: u32, gid: u32 },
    /// The attributes that the file has.
    ReadAttributes,
    /// Carry out the plan for the attributes, up to the first failure.
    Restore,
    ChangeMode(u32),
}

/// What has been seen of the file.
#[derive(Clone, Copy)]
pub struct ApplySeen {
    pub owner: Option<Result<(u32, u32), IoFailure>>,
    pub changed: Option<Result<(), IoFailure>>,
    pub attributes: Option<Result<(), IoFailure>>,
    pub restored: Option<Result<(), IoFailure>>,
    pub mode: Option<Result<(), IoFailure>>,
}

impl ApplySeen {
    pub fn new() -> (seen: ApplySeen)
        ensures
            seen == (ApplySeen {
                owner: None,
                changed: None,
                attributes: None,
                restored: None,
                mode: None,
            }),
    {
        ApplySeen { owner: None, changed: None, attributes: None, restored: None, mode: None }
    }
}

pub type ApplyStep = Step<ApplyProbe, Result<(), IoFailure>>;

pub type ApplyCheck = Check<ApplyProbe, Result<(), IoFailure>>;

/// The file has the owner that it is to have, or is given it.
pub open spec fn owner_is_right(metadata: PreservedFileMetadata, seen: ApplySeen) -> ApplyCheck {
    let (uid, gid) = seen.owner->0->Ok_0;
    steps::succeeded(seen.owner, ApplyProbe::Stat).followed_by(
        if uid != metadata.uid || gid != metadata.gid {
            steps::succeeded(
                seen.changed,
                ApplyProbe::ChangeOwner { uid: metadata.uid, gid: metadata.gid },
            )
        } else {
            Check::Pass
        },
    )
}

/// The steps of giving a file its metadata, in order. The mode comes last, as it may
/// take away the right to set attributes.
pub open spec fn apply_checks(metadata: PreservedFileMetadata, seen: ApplySeen) -> ApplyCheck {
    owner_is_right(metadata, seen).followed_by(
        steps::succeeded(seen.attributes, ApplyProbe::ReadAttributes),
    ).followed_by(steps::succeeded(seen.restored, ApplyProbe::Restore)).followed_by(
        steps::succeeded(seen.mode, ApplyProbe::ChangeMode(metadata.mode & 0o7777)),
    )
}

/// Decides how a file is given the metadata of the one that it replaces.
pub fn apply_file_metadata(metadata: &PreservedFileMetadata, seen: &ApplySeen) -> (step: ApplyStep)
    ensures
        step == apply_checks(*metadata, *seen).otherwise(Ok(())),
{
    let (uid, gid) = match must_succeed(&seen.owner, ApplyProbe::Stat) {
        Ok(owner) => owner,
        Err(step) => return step,
    };
    if let Some((uid, gid)) = owner_change(uid, gid, metadata) {
        if let Err(step) = must_succeed(&seen.changed, ApplyProbe::ChangeOwner { uid, gid }) {
            return step;
        }
    }
    if let Err(step) = must_succeed(&seen.attributes, ApplyProbe::ReadAttributes) {
        return step;
    }
    if let Err(step) = must_succeed(&seen.restored, ApplyProbe::Restore) {
        return step;
    }
    if let Err(step) = must_succeed(&seen.mode, ApplyProbe::ChangeMode(final_mode(metadata))) {
        return step;
    }
    Step::Done(Ok(()))
}

/// The mode of a file is changed only once its attributes are in place, and a file is
/// reported as done only where it has its owner, its attributes and its mode.
pub proof fn law_modes_come_last(metadata: PreservedFileMetadata, seen: ApplySeen, mode: u32)
    ensures
        apply_checks(metadata, seen).otherwise(Ok(())) == ApplyStep::Ask(
            ApplyProbe::ChangeMode(mode),
        ) ==> (seen.restored matches Some(Ok(_))) && mode == metadata.mode & 0o7777,
        apply_checks(metadata, seen).otherwise(Ok(())) == ApplyStep::Done(Ok(())) ==> (
        seen.restored matches Some(Ok(_))) && (seen.mode matches Some(Ok(_))) && (
        seen.owner matches Some(Ok(owner)) && (owner == (metadata.uid, metadata.gid) || (
        seen.changed matches Some(Ok(_))))),
{
}

/// The steps of giving a file its metadata are all that is needed: where each succeeds,
/// the file is done, and its owner is left alone where it is the right one.
pub proof fn law_metadata_is_given(metadata: PreservedFileMetadata, seen: ApplySeen, owner: (u32, u32))
    requires
        seen.owner == Some(Ok::<(u32, u32), IoFailure>(owner)),
        seen.attributes == Some(Ok::<(), IoFailure>(())),
        seen.restored == Some(Ok::<(), IoFailure>(())),
        seen.mode == Some(Ok::<(), IoFailure>(())),
    ensures
        owner.0 == metadata.uid && owner.1 == metadata.gid ==> apply_checks(
            metadata,
            seen,
        ).otherwise(Ok(())) == ApplyStep::Done(Ok(())),
        (owner.0 != metadata.uid || owner.1 != metadata.gid) && seen.changed is None
            ==> apply_checks(metadata, seen) == ApplyCheck::Ask(
            ApplyProbe::ChangeOwner { uid: metadata.uid, gid: metadata.gid },
        ),
        seen.changed == Some(Ok::<(), IoFailure>(())) ==> apply_checks(metadata, seen).otherwise(
            Ok(()),
        ) == ApplyStep::Done(Ok(())),
{
}

/// A file that is not done met the failure that is told, and nothing is done twice.
pub proof fn law_ungiven_metadata_met_the_failure(metadata: PreservedFileMetadata, seen: ApplySeen)
    ensures
        apply_checks(metadata, seen) matches ApplyCheck::Stop(ended) ==> (ended matches Err(failure)
            && (seen.owner == Some(Err::<(u32, u32), IoFailure>(failure)) || seen.changed == Some(
            Err::<(), IoFailure>(failure),
        ) || seen.attributes == Some(Err::<(), IoFailure>(failure)) || seen.restored == Some(
            Err::<(), IoFailure>(failure),
        ) || seen.mode == Some(Err::<(), IoFailure>(failure)))),
        apply_checks(metadata, seen) matches ApplyCheck::Ask(probe) ==> match probe {
            ApplyProbe::Stat => seen.owner is None,
            ApplyProbe::ChangeOwner { uid, gid } => seen.changed is None && uid == metadata.uid
                && gid == metadata.gid,
            ApplyProbe::ReadAttributes => seen.attributes is None,
            ApplyProbe::Restore => seen.restored is None && (seen.attributes matches Some(Ok(_))),
            ApplyProbe::ChangeMode(mode) => seen.mode is None && mode == metadata.mode & 0o7777,
        },
{
}

/// An attribute is privileged just where its name goes on behind `security.` or
/// `trusted.`.
pub proof fn law_privileged_names(name: Seq<u8>)
    ensures
        is_privileged(name) <==> (exists|rest: Seq<u8>|
            name == #[trigger] (encode_utf8("security."@) + rest)) || (exists|rest: Seq<u8>|
            name == #[trigger] (encode_utf8("trusted."@) + rest)),
        access_acl_name() == encode_utf8("system.posix_acl_access"@),
{
    reveal_strlit("security.");
    reveal_strlit("trusted.");
    reveal_strlit("system.posix_acl_access");
    is_ascii_chars_encode_utf8("security."@);
    is_ascii_chars_encode_utf8("trusted."@);
    is_ascii_chars_encode_utf8("system.posix_acl_access"@);
    assert(encode_utf8("security."@) =~= seq![
        115u8,
        101u8,
        99u8,
        117u8,
        114u8,
        105u8,
        116u8,
        121u8,
        46u8,
    ]);
    assert(encode_utf8("trusted."@) =~= seq![
        116u8,
        114u8,
        117u8,
        115u8,
        116u8,
        101u8,
        100u8,
        46u8,
    ]);
    assert(encode_utf8("system.posix_acl_access"@) =~= access_acl_name());
    text::law_affixes_are_parts(name, encode_utf8("security."@));
    text::law_affixes_are_parts(name, encode_utf8("trusted."@));
}

/// A name of an attribute ends at the first zero behind its start, or at the end.
pub proof fn law_names_end_at_the_first_zero(bytes: Seq<u8>, place: int)
    requires
        0 <= place <= bytes.len(),
    ensures
        place <= name_end(bytes, place) <= bytes.len(),
        name_end(bytes, place) < bytes.len() ==> bytes[name_end(bytes, place)] == 0,
        forall|i: int| place <= i < name_end(bytes, place) ==> #[trigger] bytes[i] != 0,
    decreases bytes.len() - place,
{
    if place < bytes.len() && bytes[place] != 0 {
        law_names_end_at_the_first_zero(bytes, place + 1);
    }
}

/// Zeros are counted one by one.
pub proof fn law_zeros_are_counted(front: Seq<u8>, back: Seq<u8>, byte: u8)
    ensures
        zeros(Seq::<u8>::empty()) == 0,
        zeros(seq![byte]) == (if byte == 0 {
            1nat
        } else {
            0
        }),
        zeros(front + back) == zeros(front) + zeros(back),
    decreases back.len(),
{
    assert(seq![byte].drop_last() =~= Seq::<u8>::empty());
    if back.len() == 0 {
        assert(front + back =~= front);
    } else {
        assert((front + back).drop_last() =~= front + back.drop_last());
        law_zeros_are_counted(front, back.drop_last(), byte);
    }
}

/// Attributes are listed by their names in their order, each ended by a zero.
pub proof fn law_attributes_are_listed_by_name(
    attributes: Seq<(Seq<u8>, Seq<u8>)>,
    added: (Seq<u8>, Seq<u8>),
)
    ensures
        listing_of(Seq::<(Seq<u8>, Seq<u8>)>::empty()) == Seq::<u8>::empty(),
        listing_of(attributes.push(added)) == listing_of(attributes) + added.0.push(0u8),
{
    assert(attributes.push(added).drop_last() =~= attributes);
}

} // verus!
