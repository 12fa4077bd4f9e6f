//! Reading header fields.
use crate::listing::items;
use vstd::prelude::*;
use vstd::string::*;
use vstd::utf8::*;

verus! {

/// The type and subtype that the `mime` crate reads from a media type, or nothing
/// where it does not parse.
pub uninterp spec fn parsed_essence(value: Seq<char>) -> Option<Seq<char>>;

/// `str::parse::<mime::Mime>` and `Mime::essence_str`: parses a media type with
/// all of its parameters, and gives its type and subtype.
#[verifier::external_body]
fn media_type_essence(value: &str) -> (essence: Option<String>)
    ensures
        match essence {
            Some(essence) => parsed_essence(value@) == Some(essence@),
            None => parsed_essence(value@) is None,
        },
{
    value.parse::<mime_guess::mime::Mime>().ok().map(|parsed| parsed.essence_str().to_string())
}

/// A byte that can be part of a field value.
pub open spec fn is_field_byte(byte: u8) -> bool {
    byte == 9 || (byte >= 32 && byte != 127)
}

/// A byte of a field value that is text.
pub open spec fn is_visible_byte(byte: u8) -> bool {
    byte == 9 || 32 <= byte < 127
}

/// The text of a field value all of whose bytes are visible ASCII or tabs.
pub open spec fn visible_text(bytes: Seq<u8>) -> Option<Seq<char>> {
    if forall|i: int| 0 <= i < bytes.len() ==> is_visible_byte(#[trigger] bytes[i]) {
        Some(Seq::new(bytes.len(), |i: int| bytes[i] as char))
    } else {
        None
    }
}

/// The value of one field of a request.
pub struct FieldValue {
    bytes: Vec<u8>,
}

impl FieldValue {
    pub closed spec fn view(self) -> Seq<u8> {
        self.bytes@
    }

    #[verifier::type_invariant]
    spec fn holds_field_bytes(self) -> bool {
        forall|i: int| 0 <= i < self.bytes@.len() ==> is_field_byte(#[trigger] self.bytes@[i])
    }

    /// Accepts the bytes of a field value.
    pub fn new(bytes: Vec<u8>) -> (value: Option<FieldValue>)
        ensures
            value is Some <==> (forall|i: int|
                0 <= i < bytes@.len() ==> is_field_byte(#[trigger] bytes@[i])),
            value matches Some(value) ==> value@ == bytes@,
    {
        let mut index: usize = 0;
        while index < bytes.len()
            invariant
                index <= bytes@.len(),
                forall|i: int| 0 <= i < index ==> is_field_byte(#[trigger] bytes@[i]),
            decreases bytes@.len() - index,
        {
            let byte = bytes[index];
            if byte != 9 && (byte < 32 || byte == 127) {
                assert(!is_field_byte(bytes@[index as int]));
                return None;
            }
            index += 1;
        }
        Some(FieldValue { bytes })
    }

    pub fn as_bytes(&self) -> (bytes: &Vec<u8>)
        ensures
            bytes@ == self@,
            forall|i: int| 0 <= i < bytes@.len() ==> is_field_byte(#[trigger] bytes@[i]),
    {
        proof {
            use_type_invariant(self);
        }
        &self.bytes
    }

    /// The value as text, where all of it is visible.
    pub fn to_text(&self) -> (text: Option<String>)
        ensures
            match text {
                Some(text) => visible_text(self@) == Some(text@),
                None => visible_text(self@) is None,
            },
    {
        let mut text = String::new();
        let mut index: usize = 0;
        while index < self.bytes.len()
            invariant
                index <= self.bytes@.len(),
                self.bytes@ == self@,
                text@ == Seq::new(index as nat, |i: int| self@[i] as char),
                forall|i: int| 0 <= i < index ==> is_visible_byte(#[trigger] self@[i]),
            decreases self.bytes@.len() - index,
        {
            let byte = self.bytes[index];
            if byte != 9 && (byte < 32 || byte >= 127) {
                assert(!is_visible_byte(self@[index as int]));
                return None;
            }
            text.push(byte as char);
            assert(text@ =~= Seq::new((index + 1) as nat, |i: int| self@[i] as char));
            index += 1;
        }
        Some(text)
    }
}

/// The bytes of each value of a list.
pub open spec fn value_bytes(values: Seq<FieldValue>) -> Seq<Seq<u8>> {
    values.map_values(|value: FieldValue| value@)
}

/// Two texts differ in nothing but the case of ASCII letters.
pub open spec fn equal_but_case(left: Seq<char>, right: Seq<char>) -> bool {
    items::ascii_lowered(left) == items::ascii_lowered(right)
}

fn lower_character(character: char) -> (lowered: char)
    ensures
        lowered == items::ascii_lower(character),
{
    if 'A' <= character && character <= 'Z' {
        ((character as u8) + 32) as char
    } else {
        character
    }
}

fn lowered_text(value: &str) -> (lowered: Vec<char>)
    ensures
        lowered@ == items::ascii_lowered(value@),
{
    let mut lowered: Vec<char> = Vec::new();
    for character in it: value.chars()
        invariant
            it.seq() == value@,
            lowered@ == items::ascii_lowered(value@).subrange(0, it.index() as int),
    {
        lowered.push(lower_character(character));
        assert(lowered@ =~= items::ascii_lowered(value@).subrange(0, it.index() + 1));
    }
    assert(items::ascii_lowered(value@).subrange(0, value@.len() as int) =~= items::ascii_lowered(
        value@,
    ));
    lowered
}

/// Compares two texts without regard to the case of ASCII letters.
pub fn eq_ignore_ascii_case(left: &str, right: &str) -> (equal: bool)
    ensures
        equal == equal_but_case(left@, right@),
{
    let first = lowered_text(left);
    let second = lowered_text(right);
    if first.len() != second.len() {
        return false;
    }
    let mut index: usize = 0;
    while index < first.len()
        invariant
            first@ == items::ascii_lowered(left@),
            second@ == items::ascii_lowered(right@),
            first@.len() == second@.len(),
            index <= first@.len(),
            forall|i: int| 0 <= i < index ==> first@[i] == second@[i],
        decreases first@.len() - index,
    {
        if first[index] != second[index] {
            return false;
        }
        index += 1;
    }
    assert(first@ =~= second@);
    true
}

/// The essence of a media type is the expected one.
pub open spec fn essence_matches(essence: Option<Seq<char>>, expected: Seq<char>) -> bool {
    essence matches Some(essence) && equal_but_case(essence, expected)
}

/// Compares the essence of a media type, if it parsed, with the expected one.
pub fn is_essence(essence: &Option<String>, expected: &str) -> (matching: bool)
    ensures
        matching == (match *essence {
            Some(essence) => essence_matches(Some(essence@), expected@),
            None => false,
        }),
{
    match essence {
        Some(essence) => eq_ignore_ascii_case(essence.as_str(), expected),
        None => false,
    }
}

/// Matches a request that has exactly one content type, which parses as a whole
/// and has the expected essence. A field value that is not text is `None`.
pub fn request_content_type_is(values: &Vec<Option<String>>, expected: &str) -> (matching: bool)
    ensures
        matching == (values@.len() == 1 && values@[0] is Some && essence_matches(
            parsed_essence(values@[0]->0@),
            expected@,
        )),
{
    if values.len() != 1 {
        return false;
    }
    match &values[0] {
        Some(value) => is_essence(&media_type_essence(value.as_str()), expected),
        None => false,
    }
}

/// Field values of visible ASCII are read as the text that they are, and no other
/// value is read as text.
pub proof fn law_visible_values_are_text(bytes: Seq<u8>)
    ensures
        visible_text(bytes) is Some <==> forall|i: int|
            0 <= i < bytes.len() ==> (#[trigger] bytes[i] == 9 || 32 <= bytes[i] <= 126),
        visible_text(bytes) matches Some(text) ==> text.len() == bytes.len() && forall|i: int|
            0 <= i < bytes.len() ==> #[trigger] text[i] as int == bytes[i] as int,
{
    if visible_text(bytes) is Some {
        assert forall|i: int| 0 <= i < bytes.len() implies (#[trigger] bytes[i] == 9 || 32
            <= bytes[i] <= 126) by {
            assert(is_visible_byte(bytes[i]));
        }
    }
}

/// Texts are compared character by character, with each ASCII letter the same in either
/// case, and nothing else taken for something other than it is.
pub proof fn law_case_is_ignored_in_ascii(left: Seq<char>, right: Seq<char>)
    ensures
        left == right ==> equal_but_case(left, right),
        equal_but_case(left, right) ==> left.len() == right.len(),
        equal_but_case(left, right) ==> equal_but_case(right, left),
        forall|i: int|
            equal_but_case(left, right) && 0 <= i < left.len() && #[trigger] left[i] != right[i]
                ==> ('A' <= left[i] <= 'Z' && right[i] as int == left[i] as int + 32) || ('A'
                <= right[i] <= 'Z' && left[i] as int == right[i] as int + 32),
        left.len() == right.len() && (forall|i: int|
            0 <= i < left.len() ==> (#[trigger] left[i] == right[i] || ('A' <= left[i] <= 'Z'
                && right[i] as int == left[i] as int + 32) || ('A' <= right[i] <= 'Z'
                && left[i] as int == right[i] as int + 32))) ==> equal_but_case(left, right),
{
    let (a, b) = (items::ascii_lowered(left), items::ascii_lowered(right));
    assert(a.len() == left.len() && b.len() == right.len());
    assert forall|i: int| 0 <= i < left.len() implies a[i] == #[trigger] items::ascii_lower(
        left[i],
    ) by {}
    assert forall|i: int| 0 <= i < right.len() implies b[i] == #[trigger] items::ascii_lower(
        right[i],
    ) by {}
    if equal_but_case(left, right) {
        assert forall|i: int| 0 <= i < left.len() && #[trigger] left[i] != right[i] implies ('A'
            <= left[i] <= 'Z' && right[i] as int == left[i] as int + 32) || ('A' <= right[i] <= 'Z'
            && left[i] as int == right[i] as int + 32) by {
            assert(a[i] == b[i]);
        }
    }
    if left.len() == right.len() && (forall|i: int|
        0 <= i < left.len() ==> (#[trigger] left[i] == right[i] || ('A' <= left[i] <= 'Z'
            && right[i] as int == left[i] as int + 32) || ('A' <= right[i] <= 'Z' && left[i] as int
            == right[i] as int + 32))) {
        assert forall|i: int| 0 <= i < a.len() implies a[i] == b[i] by {
            assert(left[i] == left[i]);
        }
        assert(a =~= b);
    }
}

/// A media type that does not parse is none that is expected.
pub proof fn law_expected_types_have_parsed(essence: Option<Seq<char>>, expected: Seq<char>)
    ensures
        essence is None ==> !essence_matches(essence, expected),
        essence == Some(expected) ==> essence_matches(essence, expected),
        essence_matches(essence, expected) ==> essence->0.len() == expected.len(),
{
    if let Some(essence) = essence {
        law_case_is_ignored_in_ascii(essence, expected);
    }
}

/// A field value holds tabs, and all bytes but the other control characters.
pub proof fn law_field_bytes(byte: u8)
    ensures
        is_field_byte(9),
        !is_field_byte(127),
        byte < 32 && byte != 9 ==> !is_field_byte(byte),
        byte >= 32 && byte != 127 ==> is_field_byte(byte),
{
}

} // verus!
