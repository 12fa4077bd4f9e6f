//! Text and byte primitives that the rest of the library is written with.
use crate::identifiers;
use crate::paths;
use vstd::prelude::*;
use vstd::string::*;
use vstd::utf8::*;

verus! {

/// `String::push` appends one character.
pub assume_specification[ std::string::String::push ](string: &mut String, character: char)
    ensures
        final(string)@ == old(string)@.push(character),
;

/// Equality of two byte strings.
pub fn bytes_eq(left: &[u8], right: &[u8]) -> (equal: bool)
    ensures
        equal == (left@ == right@),
{
    if left.len() != right.len() {
        return false;
    }
    let mut index: usize = 0;
    while index < left.len()
        invariant
            left@.len() == right@.len(),
            index <= left@.len(),
            forall|i: int| 0 <= i < index ==> left@[i] == right@[i],
        decreases left@.len() - index,
    {
        if left[index] != right[index] {
            return false;
        }
        index += 1;
    }
    assert(left@ =~= right@);
    true
}

/// Two texts with the same UTF-8 encoding are the same text.
pub proof fn lemma_encoding_is_injective(left: Seq<char>, right: Seq<char>)
    requires
        encode_utf8(left) == encode_utf8(right),
    ensures
        left == right,
{
    encode_utf8_decode_utf8(left);
    encode_utf8_decode_utf8(right);
}

/// Equality of two texts.
pub fn str_eq(left: &str, right: &str) -> (equal: bool)
    ensures
        equal == (left@ == right@),
{
    let equal = bytes_eq(left.as_bytes(), right.as_bytes());
    proof {
        if equal {
            lemma_encoding_is_injective(left@, right@);
        }
    }
    equal
}

pub open spec fn has_prefix<T>(text: Seq<T>, prefix: Seq<T>) -> bool {
    text.len() >= prefix.len() && text.subrange(0, prefix.len() as int) == prefix
}

pub open spec fn has_suffix<T>(text: Seq<T>, suffix: Seq<T>) -> bool {
    text.len() >= suffix.len() && text.subrange(text.len() - suffix.len(), text.len() as int)
        == suffix
}

/// The text after `prefix`, if the text starts with it.
pub fn strip_prefix<'a>(text: &'a str, prefix: &str) -> (rest: Option<&'a str>)
    ensures
        rest is Some <==> has_prefix(text@, prefix@),
        rest matches Some(rest) ==> text@ == prefix@ + rest@,
{
    let length = text.unicode_len();
    let skipped = prefix.unicode_len();
    if skipped > length || !str_eq(text.substring_char(0, skipped), prefix) {
        return None;
    }
    let rest = text.substring_char(skipped, length);
    assert(text@ =~= prefix@ + rest@);
    Some(rest)
}

/// The text before `suffix`, if the text ends with it.
pub fn strip_suffix<'a>(text: &'a str, suffix: &str) -> (rest: Option<&'a str>)
    ensures
        rest is Some <==> has_suffix(text@, suffix@),
        rest matches Some(rest) ==> text@ == rest@ + suffix@,
{
    let length = text.unicode_len();
    let dropped = suffix.unicode_len();
    if dropped > length || !str_eq(text.substring_char(length - dropped, length), suffix) {
        return None;
    }
    let rest = text.substring_char(0, length - dropped);
    assert(text@ =~= rest@ + suffix@);
    Some(rest)
}

/// Whether the text holds the character.
pub fn contains_char(text: &str, wanted: char) -> (found: bool)
    ensures
        found == text@.contains(wanted),
{
    let mut found = false;
    for character in characters: text.chars()
        invariant
            characters.seq() == text@,
            found <==> exists|i: int| 0 <= i < characters.index() && text@[i] == wanted,
    {
        if character == wanted {
            assert(text@[characters.index()] == wanted);
            found = true;
        }
    }
    found
}

/// The concatenation of two texts.
pub fn concat(left: &str, right: &str) -> (joined: String)
    ensures
        joined@ == left@ + right@,
{
    let mut joined = String::from_str(left);
    joined.append(right);
    joined
}

/// A copy of a byte string.
pub fn copy_bytes(bytes: &[u8]) -> (copy: Vec<u8>)
    ensures
        copy@ == bytes@,
{
    let mut copy: Vec<u8> = Vec::new();
    let mut index: usize = 0;
    while index < bytes.len()
        invariant
            index <= bytes@.len(),
            copy@ == bytes@.subrange(0, index as int),
        decreases bytes@.len() - index,
    {
        copy.push(bytes[index]);
        index += 1;
        assert(copy@ =~= bytes@.subrange(0, index as int));
    }
    assert(bytes@.subrange(0, bytes@.len() as int) =~= bytes@);
    copy
}

/// The pieces between the separators of a text, in order. A text without a
/// separator is one piece.
pub open spec fn split_pieces<T>(text: Seq<T>, separator: T) -> Seq<Seq<T>>
    decreases text.len(),
{
    if text.len() == 0 {
        seq![Seq::<T>::empty()]
    } else {
        let pieces = split_pieces(text.drop_last(), separator);
        if text.last() == separator {
            pieces.push(Seq::empty())
        } else {
            pieces.update(pieces.len() - 1, pieces.last().push(text.last()))
        }
    }
}

pub proof fn lemma_split_has_a_piece<T>(text: Seq<T>, separator: T)
    ensures
        split_pieces(text, separator).len() >= 1,
    decreases text.len(),
{
    if text.len() > 0 {
        lemma_split_has_a_piece(text.drop_last(), separator);
    }
}

/// The views of a list of texts.
pub open spec fn texts(list: Seq<String>) -> Seq<Seq<char>> {
    Seq::new(list.len(), |i: int| list[i]@)
}

/// Splits a text at every separator.
pub fn split_text(text: &str, separator: char) -> (pieces: Vec<String>)
    ensures
        texts(pieces@) == split_pieces(text@, separator),
{
    let mut pieces: Vec<String> = Vec::new();
    let mut piece = String::new();
    for character in characters: text.chars()
        invariant
            characters.seq() == text@,
            texts(pieces@).push(piece@) == split_pieces(
                text@.subrange(0, characters.index() as int),
                separator,
            ),
    {
        let ghost read = text@.subrange(0, characters.index() as int);
        let ghost longer = text@.subrange(0, characters.index() + 1);
        let ghost before = texts(pieces@);
        assert(longer.drop_last() =~= read);
        assert(longer.last() == character);
        if character == separator {
            pieces.push(piece);
            piece = String::new();
            assert(texts(pieces@) =~= before.push(texts(pieces@).last()));
        } else {
            let ghost shorter = piece@;
            piece.push(character);
            assert(before.push(piece@) =~= before.push(shorter).update(
                before.len() as int,
                shorter.push(character),
            ));
        }
    }
    assert(text@.subrange(0, text@.len() as int) =~= text@);
    let ghost before = texts(pieces@);
    pieces.push(piece);
    assert(texts(pieces@) =~= before.push(texts(pieces@).last()));
    pieces
}

pub proof fn lemma_split_keeps_earlier<T>(text: Seq<T>, tail: Seq<T>, separator: T)
    requires
        !tail.contains(separator),
    ensures
        ({
            let pieces = split_pieces(text, separator);
            split_pieces(text + tail, separator) == pieces.update(
                pieces.len() - 1,
                pieces.last() + tail,
            )
        }),
    decreases tail.len(),
{
    let pieces = split_pieces(text, separator);
    lemma_split_has_a_piece(text, separator);
    if tail.len() == 0 {
        assert(text + tail =~= text);
        assert(pieces.last() + tail =~= pieces.last());
        assert(pieces.update(pieces.len() - 1, pieces.last() + tail) =~= pieces);
    } else {
        let shorter = tail.drop_last();
        assert forall|i: int| 0 <= i < shorter.len() implies shorter[i] != separator by {
            assert(tail[i] == shorter[i]);
        }
        lemma_split_keeps_earlier(text, shorter, separator);
        let whole = text + tail;
        assert(whole.drop_last() =~= text + shorter);
        assert(tail.last() == tail[tail.len() - 1]);
        let partial = pieces.update(pieces.len() - 1, pieces.last() + shorter);
        assert(partial.last() == pieces.last() + shorter);
        assert((pieces.last() + shorter).push(tail.last()) =~= pieces.last() + tail);
        assert(split_pieces(whole, separator) =~= pieces.update(
            pieces.len() - 1,
            pieces.last() + tail,
        ));
    }
}

/// Splitting undoes joining where no piece holds the separator.
pub proof fn lemma_split_of_joined<T>(pieces: Seq<Seq<T>>, separator: T)
    requires
        pieces.len() > 0,
        forall|i: int| 0 <= i < pieces.len() ==> !(#[trigger] pieces[i]).contains(separator),
    ensures
        split_pieces(paths::joined(pieces, separator), separator) == pieces,
    decreases pieces.len(),
{
    if pieces.len() == 1 {
        lemma_split_keeps_earlier(Seq::empty(), pieces[0], separator);
        assert(Seq::<T>::empty() + pieces[0] =~= pieces[0]);
        assert(split_pieces(pieces[0], separator) =~= pieces);
    } else {
        let front = pieces.drop_last();
        assert forall|i: int| 0 <= i < front.len() implies !(#[trigger] front[i]).contains(
            separator,
        ) by {
            assert(front[i] == pieces[i]);
        }
        lemma_split_of_joined(front, separator);
        let head = paths::joined(front, separator) + seq![separator];
        assert(head.drop_last() =~= paths::joined(front, separator));
        assert(split_pieces(head, separator) =~= front.push(Seq::empty()));
        lemma_split_keeps_earlier(head, pieces.last(), separator);
        assert(Seq::<T>::empty() + pieces.last() =~= pieces.last());
        assert(split_pieces(head + pieces.last(), separator) =~= pieces);
    }
}

/// The pieces of a split text do not hold the separator.
pub proof fn lemma_pieces_lack_the_separator<T>(text: Seq<T>, separator: T)
    ensures
        forall|i: int|
            0 <= i < split_pieces(text, separator).len() ==> !(#[trigger] split_pieces(
                text,
                separator,
            )[i]).contains(separator),
    decreases text.len(),
{
    if text.len() == 0 {
        assert(!split_pieces(text, separator)[0].contains(separator));
    } else {
        lemma_split_has_a_piece(text.drop_last(), separator);
        lemma_pieces_lack_the_separator(text.drop_last(), separator);
        let before = split_pieces(text.drop_last(), separator);
        let pieces = split_pieces(text, separator);
        assert forall|i: int| 0 <= i < pieces.len() implies !(#[trigger] pieces[i]).contains(
            separator,
        ) by {
            if text.last() == separator {
                if i < before.len() {
                    assert(pieces[i] == before[i]);
                }
            } else if i == before.len() - 1 {
                assert(!before[i].contains(separator));
                assert forall|k: int| 0 <= k < pieces[i].len() implies pieces[i][k]
                    != separator by {
                    if k < before[i].len() {
                        assert(before[i][k] == pieces[i][k]);
                    }
                }
            } else {
                assert(pieces[i] == before[i]);
            }
        }
    }
}

/// A text without its leading copies of a character.
pub open spec fn without_leading(text: Seq<char>, dropped: char) -> Seq<char>
    decreases text.len(),
{
    if text.len() > 0 && text[0] == dropped {
        without_leading(text.drop_first(), dropped)
    } else {
        text
    }
}

/// Drops the leading copies of a character.
pub fn trim_leading(text: &str, dropped: char) -> (rest: String)
    ensures
        rest@ == without_leading(text@, dropped),
{
    let mut rest = String::new();
    let mut leading = true;
    assert(text@.subrange(0, text@.len() as int) =~= text@);
    for character in characters: text.chars()
        invariant
            characters.seq() == text@,
            leading ==> rest@.len() == 0 && without_leading(text@, dropped) == without_leading(
                text@.subrange(characters.index() as int, text@.len() as int),
                dropped,
            ),
            !leading ==> rest@ + text@.subrange(characters.index() as int, text@.len() as int)
                == without_leading(text@, dropped),
    {
        let ghost remaining = text@.subrange(characters.index() as int, text@.len() as int);
        assert(remaining.drop_first() =~= text@.subrange(
            characters.index() + 1,
            text@.len() as int,
        ));
        if leading && character == dropped {
            assert(remaining[0] == dropped);
        } else {
            assert(remaining =~= seq![character] + remaining.drop_first());
            rest.push(character);
            leading = false;
            assert(rest@ + remaining.drop_first() =~= without_leading(text@, dropped));
        }
    }
    assert(text@.subrange(text@.len() as int, text@.len() as int) =~= Seq::empty());
    assert(rest@ + Seq::empty() =~= rest@);
    rest
}

/// Splits a byte string at every separator.
pub fn split_bytes(bytes: &[u8], separator: u8) -> (pieces: Vec<Vec<u8>>)
    ensures
        paths::name_list(pieces@) == split_pieces(bytes@, separator),
{
    let mut pieces: Vec<Vec<u8>> = Vec::new();
    let mut piece: Vec<u8> = Vec::new();
    let mut index: usize = 0;
    assert(bytes@.subrange(0, 0) =~= Seq::empty());
    assert(paths::name_list(pieces@).push(piece@) =~= split_pieces(
        bytes@.subrange(0, 0),
        separator,
    ));
    while index < bytes.len()
        invariant
            index <= bytes@.len(),
            paths::name_list(pieces@).push(piece@) == split_pieces(
                bytes@.subrange(0, index as int),
                separator,
            ),
        decreases bytes@.len() - index,
    {
        let ghost longer = bytes@.subrange(0, index + 1);
        let ghost before = paths::name_list(pieces@);
        assert(longer.drop_last() =~= bytes@.subrange(0, index as int));
        assert(longer.last() == bytes@[index as int]);
        let byte = bytes[index];
        if byte == separator {
            pieces.push(piece);
            piece = Vec::new();
            assert(paths::name_list(pieces@) =~= before.push(paths::name_list(pieces@).last()));
            assert(piece@ =~= Seq::empty());
        } else {
            let ghost shorter = piece@;
            piece.push(byte);
            assert(before.push(piece@) =~= before.push(shorter).update(
                before.len() as int,
                shorter.push(byte),
            ));
        }
        index += 1;
    }
    assert(bytes@.subrange(0, bytes@.len() as int) =~= bytes@);
    let ghost before = paths::name_list(pieces@);
    pieces.push(piece);
    assert(paths::name_list(pieces@) =~= before.push(paths::name_list(pieces@).last()));
    pieces
}

/// The decimal digit of a number below ten.
pub open spec fn decimal_digit(number: nat) -> char {
    (('0' as nat) + number) as char
}

/// The decimal notation of a number, without leading zeros.
pub open spec fn decimal(number: nat) -> Seq<char>
    decreases number,
{
    if number < 10 {
        seq![decimal_digit(number)]
    } else {
        decimal(number / 10).push(decimal_digit(number % 10))
    }
}

/// The decimal notation of a number.
pub fn decimal_text(number: u64) -> (text: String)
    ensures
        text@ == decimal(number as nat),
    decreases number,
{
    let last: u8 = (number % 10) as u8;
    let digit: char = (48u8 + last) as char;
    let mut text = if number < 10 {
        String::new()
    } else {
        decimal_text(number / 10)
    };
    text.push(digit);
    proof {
        if number < 10 {
            assert(text@ =~= seq![decimal_digit(number as nat)]);
        }
    }
    text
}

pub open spec fn is_digit(character: char) -> bool {
    '0' <= character <= '9'
}

/// The number that digits write.
pub open spec fn digits_value(digits: Seq<char>) -> nat
    decreases digits.len(),
{
    if digits.len() == 0 {
        0
    } else {
        10 * digits_value(digits.drop_last()) + ((digits.last() as nat - '0' as nat) as nat)
    }
}

/// A text without the plus sign that it may start with.
pub open spec fn unsigned(text: Seq<char>) -> Seq<char> {
    if text.len() > 0 && text[0] == '+' {
        text.subrange(1, text.len() as int)
    } else {
        text
    }
}

/// The number that a text writes: digits, with a plus sign before them or not. A
/// text that writes none, or one that is too large, has no number.
pub open spec fn written_number(text: Seq<char>) -> Option<nat> {
    let digits = unsigned(text);
    if digits.len() > 0 && (forall|i: int| 0 <= i < digits.len() ==> is_digit(#[trigger] digits[i]))
        && digits_value(digits) <= usize::MAX {
        Some(digits_value(digits))
    } else {
        None
    }
}

proof fn lemma_longer_numbers_are_larger(digits: Seq<char>, length: int)
    requires
        0 <= length <= digits.len(),
    ensures
        digits_value(digits.subrange(0, length)) <= digits_value(digits),
    decreases digits.len() - length,
{
    if length < digits.len() {
        let longer = digits.subrange(0, length + 1);
        assert(longer.drop_last() =~= digits.subrange(0, length));
        lemma_longer_numbers_are_larger(digits, length + 1);
    } else {
        assert(digits.subrange(0, length) =~= digits);
    }
}

/// Reads a number.
pub fn parse_number(text: &str) -> (number: Option<usize>)
    ensures
        match number {
            Some(number) => written_number(text@) == Some(number as nat),
            None => written_number(text@) is None,
        },
{
    let mut value: usize = 0;
    let mut signed = false;
    let mut empty = true;
    let ghost all = text@;
    let ghost digits = unsigned(all);
    for character in it: text.chars()
        invariant
            it.seq() == all,
            all == text@,
            digits == unsigned(all),
            signed == (it.index() > 0 && all[0] == '+'),
            empty == (it.index() == (if signed {
                1int
            } else {
                0int
            })),
            ({
                let read = it.index() - (if signed {
                    1int
                } else {
                    0int
                });
                &&& 0 <= read <= digits.len()
                &&& value == digits_value(digits.subrange(0, read))
                &&& forall|i: int| 0 <= i < read ==> is_digit(#[trigger] digits[i])
            }),
    {
        let ghost index = it.index() as int;
        if empty && !signed && character == '+' {
            signed = true;
            assert(digits.subrange(0, 0) =~= Seq::empty());
        } else {
            let ghost read = index - (if signed {
                1int
            } else {
                0int
            });
            assert(digits[read] == character);
            if character < '0' || character > '9' {
                assert(!is_digit(digits[read]));
                return None;
            }
            let digit = (character as u8 - 48u8) as usize;
            let ghost longer = digits.subrange(0, read + 1);
            proof {
                assert(longer.drop_last() =~= digits.subrange(0, read));
                assert(longer.last() == character);
                lemma_longer_numbers_are_larger(digits, read + 1);
            }
            value = match value.checked_mul(10) {
                Some(tens) => match tens.checked_add(digit) {
                    Some(value) => value,
                    None => return None,
                },
                None => return None,
            };
            empty = false;
        }
    }
    if empty {
        return None;
    }
    assert(digits.subrange(0, digits.len() as int) =~= digits);
    Some(value)
}

/// Digits alone write this number.
pub open spec fn written_digits(text: Seq<char>) -> Option<nat> {
    if text.len() > 0 && (forall|i: int| 0 <= i < text.len() ==> is_digit(#[trigger] text[i]))
        && digits_value(text) <= u64::MAX {
        Some(digits_value(text))
    } else {
        None
    }
}

/// Reads a number that is written in digits alone.
pub fn parse_digits(text: &str) -> (number: Option<u64>)
    ensures
        match number {
            Some(number) => written_digits(text@) == Some(number as nat),
            None => written_digits(text@) is None,
        },
{
    let mut value: u64 = 0;
    let mut empty = true;
    for character in it: text.chars()
        invariant
            it.seq() == text@,
            empty == (it.index() == 0),
            value == digits_value(text@.subrange(0, it.index() as int)),
            forall|i: int| 0 <= i < it.index() ==> is_digit(#[trigger] text@[i]),
    {
        let ghost read = it.index() as int;
        assert(text@[read] == character);
        if character < '0' || character > '9' {
            assert(!is_digit(text@[read]));
            return None;
        }
        let digit = (character as u8 - 48u8) as u64;
        let ghost longer = text@.subrange(0, read + 1);
        proof {
            assert(longer.drop_last() =~= text@.subrange(0, read));
            assert(longer.last() == character);
            lemma_longer_numbers_are_larger(text@, read + 1);
        }
        value = match value.checked_mul(10) {
            Some(tens) => match tens.checked_add(digit) {
                Some(value) => value,
                None => return None,
            },
            None => return None,
        };
        empty = false;
    }
    if empty {
        return None;
    }
    assert(text@.subrange(0, text@.len() as int) =~= text@);
    Some(value)
}

/// How many characters stand before the first separator, or before the end.
pub open spec fn first_place(text: Seq<char>, separator: char) -> nat
    decreases text.len(),
{
    if text.len() == 0 || text[0] == separator {
        0
    } else {
        1 + first_place(text.subrange(1, text.len() as int), separator)
    }
}

/// What stands before and after the first separator.
pub open spec fn divided(text: Seq<char>, separator: char) -> Option<(Seq<char>, Seq<char>)> {
    let place = first_place(text, separator) as int;
    if place < text.len() {
        Some((text.subrange(0, place), text.subrange(place + 1, text.len() as int)))
    } else {
        None
    }
}

/// The first place holds the separator, and none before it does.
pub proof fn lemma_first_place(text: Seq<char>, separator: char)
    ensures
        first_place(text, separator) <= text.len(),
        first_place(text, separator) < text.len() ==> text[first_place(text, separator) as int]
            == separator,
        forall|i: int| 0 <= i < first_place(text, separator) ==> text[i] != separator,
    decreases text.len(),
{
    if text.len() > 0 && text[0] != separator {
        let rest = text.subrange(1, text.len() as int);
        lemma_first_place(rest, separator);
        assert forall|i: int| 0 <= i < first_place(text, separator) implies text[i]
            != separator by {
            if i > 0 {
                assert(text[i] == rest[i - 1]);
            }
        }
    }
}

/// Divides a text at its first separator.
pub fn split_once(text: &str, separator: char) -> (parts: Option<(String, String)>)
    ensures
        match parts {
            Some((before, after)) => divided(text@, separator) == Some((before@, after@)),
            None => divided(text@, separator) is None,
        },
{
    let mut before = String::new();
    let mut after = String::new();
    let mut found = false;
    let ghost all = text@;
    let ghost place = first_place(all, separator) as int;
    proof {
        lemma_first_place(all, separator);
    }
    for character in it: text.chars()
        invariant
            it.seq() == all,
            all == text@,
            place == first_place(all, separator),
            place <= all.len(),
            place < all.len() ==> all[place] == separator,
            forall|i: int| 0 <= i < place ==> all[i] != separator,
            found == (it.index() > place),
            !found ==> before@ == all.subrange(0, it.index() as int) && after@ == Seq::<
                char,
            >::empty(),
            found ==> before@ == all.subrange(0, place) && after@ == all.subrange(
                place + 1,
                it.index() as int,
            ),
    {
        let ghost index = it.index() as int;
        assert(all[index] == character);
        if found {
            after.push(character);
            assert(after@ =~= all.subrange(place + 1, index + 1));
        } else if character == separator {
            found = true;
            assert(after@ =~= all.subrange(place + 1, index + 1));
        } else {
            before.push(character);
            assert(before@ =~= all.subrange(0, index + 1));
        }
    }
    if found {
        Some((before, after))
    } else {
        None
    }
}

pub open spec fn is_blank(character: char) -> bool {
    character == ' ' || character == '\t'
}

/// A text without the blanks that it starts with.
pub open spec fn trimmed_start(text: Seq<char>) -> Seq<char>
    decreases text.len(),
{
    if text.len() > 0 && is_blank(text[0]) {
        trimmed_start(text.subrange(1, text.len() as int))
    } else {
        text
    }
}

/// A text without the blanks that it ends with.
pub open spec fn trimmed_end(text: Seq<char>) -> Seq<char>
    decreases text.len(),
{
    if text.len() > 0 && is_blank(text.last()) {
        trimmed_end(text.drop_last())
    } else {
        text
    }
}

/// A text without the blanks around it.
pub open spec fn trimmed(text: Seq<char>) -> Seq<char> {
    trimmed_end(trimmed_start(text))
}

proof fn lemma_end_keeps_a_mark(text: Seq<char>, tail: Seq<char>)
    requires
        forall|i: int| 0 <= i < tail.len() ==> is_blank(#[trigger] tail[i]),
    ensures
        trimmed_end(text + tail) == trimmed_end(text),
    decreases tail.len(),
{
    if tail.len() > 0 {
        assert((text + tail).drop_last() =~= text + tail.drop_last());
        assert((text + tail).last() == tail.last());
        lemma_end_keeps_a_mark(text, tail.drop_last());
    } else {
        assert(text + tail =~= text);
    }
}

/// Drops the blanks around a text.
pub fn trim_blanks(text: &str) -> (rest: String)
    ensures
        rest@ == trimmed(text@),
{
    let mut kept = String::new();
    let mut blanks = String::new();
    let mut started = false;
    let ghost all = text@;
    assert(all.subrange(0, all.len() as int) =~= all);
    for character in it: text.chars()
        invariant
            it.seq() == all,
            all == text@,
            !started ==> kept@.len() == 0 && blanks@.len() == 0 && trimmed_start(all)
                == trimmed_start(all.subrange(it.index() as int, all.len() as int)),
            started ==> trimmed_start(all) == kept@ + blanks@ + all.subrange(
                it.index() as int,
                all.len() as int,
            ) && kept@.len() > 0 && !is_blank(kept@.last()),
            forall|i: int| 0 <= i < blanks@.len() ==> is_blank(#[trigger] blanks@[i]),
    {
        let ghost index = it.index() as int;
        let ghost left = all.subrange(index, all.len() as int);
        let ghost rest = all.subrange(index + 1, all.len() as int);
        assert(left[0] == character);
        assert(left.subrange(1, left.len() as int) =~= rest);
        assert(left =~= seq![character] + rest);
        if character == ' ' || character == '\t' {
            if started {
                blanks.push(character);
                assert(trimmed_start(all) =~= kept@ + blanks@ + rest);
            }
        } else {
            let ghost before = kept@;
            let ghost between = blanks@;
            kept.append(blanks.as_str());
            kept.push(character);
            blanks = String::new();
            started = true;
            assert(kept@ + blanks@ + rest =~= before + between + left);
            assert(trimmed_start(all) =~= kept@ + blanks@ + rest);
        }
    }
    proof {
        assert(all.subrange(all.len() as int, all.len() as int) =~= Seq::empty());
        if started {
            assert(trimmed_start(all) =~= kept@ + blanks@);
            lemma_end_keeps_a_mark(kept@, blanks@);
        } else {
            assert(kept@ =~= Seq::empty());
        }
    }
    kept
}

/// A text with another one in the place of each occurrence, from the front on and
/// without overlap.
pub open spec fn replaced(text: Seq<char>, from: Seq<char>, to: Seq<char>) -> Seq<char>
    decreases text.len(),
{
    if from.len() == 0 || text.len() == 0 {
        text
    } else if has_prefix(text, from) {
        to + replaced(text.subrange(from.len() as int, text.len() as int), from, to)
    } else {
        seq![text[0]] + replaced(text.subrange(1, text.len() as int), from, to)
    }
}

fn characters(text: &str) -> (list: Vec<char>)
    ensures
        list@ == text@,
{
    let mut list: Vec<char> = Vec::new();
    for character in it: text.chars()
        invariant
            it.seq() == text@,
            list@ == text@.subrange(0, it.index() as int),
    {
        list.push(character);
        assert(list@ =~= text@.subrange(0, it.index() + 1));
    }
    assert(text@.subrange(0, text@.len() as int) =~= text@);
    list
}

fn occurs_at(text: &Vec<char>, place: usize, wanted: &Vec<char>) -> (occurs: bool)
    requires
        place <= text@.len(),
    ensures
        occurs == has_prefix(text@.subrange(place as int, text@.len() as int), wanted@),
{
    let length = text.len();
    if length - place < wanted.len() {
        return false;
    }
    let ghost rest = text@.subrange(place as int, text@.len() as int);
    let mut index: usize = 0;
    while index < wanted.len()
        invariant
            place <= length,
            length == text@.len(),
            wanted@.len() <= length - place,
            rest == text@.subrange(place as int, text@.len() as int),
            index <= wanted@.len(),
            forall|i: int| 0 <= i < index ==> rest[i] == wanted@[i],
        decreases wanted@.len() - index,
    {
        if text[place + index] != wanted[index] {
            assert(rest[index as int] != wanted@[index as int]);
            assert(rest.subrange(0, wanted@.len() as int)[index as int] != wanted@[index as int]);
            return false;
        }
        index += 1;
    }
    assert(rest.subrange(0, wanted@.len() as int) =~= wanted@);
    true
}

/// Puts another text in the place of each occurrence.
pub fn replace_text(text: &str, from: &str, to: &str) -> (result: String)
    requires
        from@.len() > 0,
    ensures
        result@ == replaced(text@, from@, to@),
{
    let list = characters(text);
    let wanted = characters(from);
    let mut result = String::new();
    let mut index: usize = 0;
    assert(list@.subrange(0, list@.len() as int) =~= list@);
    while index < list.len()
        invariant
            list@ == text@,
            wanted@ == from@,
            wanted@.len() > 0,
            index <= list@.len(),
            result@ + replaced(list@.subrange(index as int, list@.len() as int), from@, to@)
                == replaced(text@, from@, to@),
        decreases list@.len() - index,
    {
        let ghost rest = list@.subrange(index as int, list@.len() as int);
        let ghost before = result@;
        if occurs_at(&list, index, &wanted) {
            result.append(to);
            index += wanted.len();
            let ghost left = list@.subrange(index as int, list@.len() as int);
            assert(rest.subrange(wanted@.len() as int, rest.len() as int) =~= left);
            assert(result@ + replaced(left, from@, to@) =~= before + replaced(rest, from@, to@));
        } else {
            result.push(list[index]);
            index += 1;
            let ghost left = list@.subrange(index as int, list@.len() as int);
            assert(rest.subrange(1, rest.len() as int) =~= left);
            assert(result@ + replaced(left, from@, to@) =~= before + replaced(rest, from@, to@));
        }
    }
    assert(list@.subrange(index as int, list@.len() as int) =~= Seq::empty());
    assert(result@ + replaced(Seq::empty(), from@, to@) =~= result@);
    result
}

/// `std::str::from_utf8`: the text of a byte string that is valid UTF-8.
#[verifier::external_body]
pub(crate) fn utf8_text(bytes: &[u8]) -> (decoded: Option<String>)
    ensures
        decoded is Some <==> valid_utf8(bytes@),
        decoded matches Some(decoded) ==> decoded@ == decode_utf8(bytes@),
{
    std::str::from_utf8(bytes).ok().map(String::from)
}

/// What `String::from_utf8_lossy` reads from a byte string.
pub uninterp spec fn lossy_utf8(bytes: Seq<u8>) -> Seq<char>;

/// `String::from_utf8_lossy`: the text of a byte string, with replacement
/// characters where it is not valid UTF-8.
#[verifier::external_body]
pub(crate) fn lossy_text(bytes: &[u8]) -> (decoded: String)
    ensures
        decoded@ == lossy_utf8(bytes@),
        valid_utf8(bytes@) ==> decoded@ == decode_utf8(bytes@),
{
    String::from_utf8_lossy(bytes).into_owned()
}

/// The lowercase hexadecimal notation of a byte string, two digits per byte.
pub open spec fn hex(bytes: Seq<u8>) -> Seq<char> {
    Seq::new(
        2 * bytes.len(),
        |i: int|
            identifiers::hex_digit(
                if i % 2 == 0 {
                    bytes[i / 2] as int / 16
                } else {
                    bytes[i / 2] as int % 16
                },
            ),
    )
}

/// Byte strings with the same hexadecimal notation are the same.
pub proof fn lemma_hex_is_injective(left: Seq<u8>, right: Seq<u8>)
    requires
        hex(left) == hex(right),
    ensures
        left == right,
{
    assert(hex(left).len() == 2 * left.len());
    assert(hex(right).len() == 2 * right.len());
    assert forall|i: int| 0 <= i < left.len() implies left[i] == right[i] by {
        assert((2 * i) / 2 == i && (2 * i) % 2 == 0);
        assert((2 * i + 1) / 2 == i && (2 * i + 1) % 2 == 1);
        assert(hex(left)[2 * i] == identifiers::hex_digit(left[i] as int / 16));
        assert(hex(right)[2 * i] == identifiers::hex_digit(right[i] as int / 16));
        assert(hex(left)[2 * i + 1] == identifiers::hex_digit(left[i] as int % 16));
        assert(hex(right)[2 * i + 1] == identifiers::hex_digit(right[i] as int % 16));
        identifiers::lemma_hex_digit_is_injective(left[i] as int / 16, right[i] as int / 16);
        identifiers::lemma_hex_digit_is_injective(left[i] as int % 16, right[i] as int % 16);
    }
    assert(left =~= right);
}

fn hex_character(number: u8) -> (digit: char)
    requires
        number < 16,
    ensures
        digit == identifiers::hex_digit(number as int),
{
    if number < 10 {
        (48u8 + number) as char
    } else {
        (87u8 + number) as char
    }
}

/// The lowercase hexadecimal notation of a byte string.
pub fn encode_hex(bytes: &[u8]) -> (encoded: String)
    ensures
        encoded@ == hex(bytes@),
{
    let mut encoded = String::new();
    let mut index: usize = 0;
    while index < bytes.len()
        invariant
            index <= bytes@.len(),
            encoded@ == hex(bytes@.subrange(0, index as int)),
        decreases bytes@.len() - index,
    {
        let ghost longer = bytes@.subrange(0, index + 1);
        encoded.push(hex_character(bytes[index] / 16));
        encoded.push(hex_character(bytes[index] % 16));
        index += 1;
        assert(encoded@ =~= hex(longer));
    }
    assert(bytes@.subrange(0, bytes@.len() as int) =~= bytes@);
    encoded
}

/// A text starts with another exactly where it is that text and something behind it,
/// and ends with another exactly where it is something and that text.
pub proof fn law_affixes_are_parts<T>(text: Seq<T>, affix: Seq<T>)
    ensures
        has_prefix(text, affix) <==> exists|rest: Seq<T>| text == #[trigger] (affix + rest),
        has_suffix(text, affix) <==> exists|rest: Seq<T>| text == #[trigger] (rest + affix),
{
    if has_prefix(text, affix) {
        assert(text =~= affix + text.subrange(affix.len() as int, text.len() as int));
    }
    if exists|rest: Seq<T>| text == #[trigger] (affix + rest) {
        let rest = choose|rest: Seq<T>| text == #[trigger] (affix + rest);
        assert((affix + rest).subrange(0, affix.len() as int) =~= affix);
    }
    if has_suffix(text, affix) {
        assert(text =~= text.subrange(0, text.len() - affix.len()) + affix);
    }
    if exists|rest: Seq<T>| text == #[trigger] (rest + affix) {
        let rest = choose|rest: Seq<T>| text == #[trigger] (rest + affix);
        assert((rest + affix).subrange(rest.len() as int, text.len() as int) =~= affix);
    }
}

/// Splitting a text loses nothing: its pieces, with the separator between them, are the
/// text again, and no piece holds the separator.
pub proof fn law_joining_undoes_splitting<T>(text: Seq<T>, separator: T)
    ensures
        split_pieces(text, separator).len() >= 1,
        paths::joined(split_pieces(text, separator), separator) == text,
        forall|i: int|
            0 <= i < split_pieces(text, separator).len() ==> !(#[trigger] split_pieces(
                text,
                separator,
            )[i]).contains(separator),
    decreases text.len(),
{
    lemma_pieces_lack_the_separator(text, separator);
    lemma_split_has_a_piece(text, separator);
    if text.len() > 0 {
        let front = text.drop_last();
        let before = split_pieces(front, separator);
        let pieces = split_pieces(text, separator);
        law_joining_undoes_splitting(front, separator);
        assert(text =~= front + seq![text.last()]);
        if text.last() == separator {
            assert(pieces.drop_last() =~= before);
            assert(paths::joined(pieces, separator) =~= text);
        } else if pieces.len() == 1 {
            assert(paths::joined(pieces, separator) =~= text);
        } else {
            assert(pieces.drop_last() =~= before.drop_last());
            assert(paths::joined(pieces, separator) =~= text);
        }
    }
}

proof fn lemma_decimals_are_digits(number: nat)
    ensures
        decimal(number).len() > 0,
        forall|i: int| 0 <= i < decimal(number).len() ==> is_digit(#[trigger] decimal(number)[i]),
        digits_value(decimal(number)) == number,
        number > 0 ==> decimal(number)[0] != '0',
    decreases number,
{
    if number >= 10 {
        lemma_decimals_are_digits(number / 10);
        assert(decimal(number).drop_last() =~= decimal(number / 10));
        assert(decimal(number)[0] == decimal(number / 10)[0]);
    } else {
        assert(decimal(number).drop_last() =~= Seq::empty());
        assert(digits_value(decimal(number).drop_last()) == 0);
    }
}

/// A number is written in digits, without zeros before them, one digit for each power
/// of ten; and reading it back gives the number.
pub proof fn law_decimals_read_back(number: nat, digit: nat)
    requires
        digit < 10,
    ensures
        decimal(digit) == seq![('0' as nat + digit) as char],
        number > 0 ==> decimal(10 * number + digit) == decimal(number) + decimal(digit),
        number > 0 ==> decimal(number)[0] != '0',
        number <= u64::MAX ==> written_digits(decimal(number)) == Some(number),
        number <= usize::MAX ==> written_number(decimal(number)) == Some(number),
        number <= usize::MAX ==> written_number(seq!['+'] + decimal(number)) == Some(number),
{
    lemma_decimals_are_digits(number);
    if number > 0 {
        assert(10 * number + digit >= 10);
        assert((10 * number + digit) / 10 == number);
        assert((10 * number + digit) % 10 == digit);
        assert(decimal(10 * number + digit) =~= decimal(number) + decimal(digit));
    }
    let signed = seq!['+'] + decimal(number);
    assert(is_digit(decimal(number)[0]));
    assert(signed.subrange(1, signed.len() as int) =~= decimal(number));
}

/// What is read as a number holds nothing but digits, so that no other text writes one.
pub proof fn law_numbers_are_digits(text: Seq<char>, place: int)
    requires
        0 <= place < text.len(),
        !('0' <= text[place] <= '9'),
    ensures
        written_digits(text) is None,
        place > 0 || text[0] != '+' ==> written_number(text) is None,
{
    if text[0] == '+' && place > 0 {
        assert(unsigned(text)[place - 1] == text[place]);
    }
}

/// Two numbers are the same where they are written alike.
pub proof fn law_decimals_are_unique(left: nat, right: nat)
    requires
        decimal(left) == decimal(right),
    ensures
        left == right,
{
    lemma_decimals_are_digits(left);
    lemma_decimals_are_digits(right);
}

/// A text is divided at the first separator: before it there is none, behind it there
/// may be more.
pub proof fn law_texts_divide_at_the_first(before: Seq<char>, after: Seq<char>, separator: char)
    requires
        !before.contains(separator),
    ensures
        divided(before + seq![separator] + after, separator) == Some((before, after)),
        divided(before, separator) is None,
{
    let text = before + seq![separator] + after;
    lemma_first_place(text, separator);
    lemma_first_place(before, separator);
    let place = first_place(text, separator) as int;
    assert(text[before.len() as int] == separator);
    if place < before.len() {
        assert(text[place] == before[place]);
        assert(before.contains(separator));
    }
    assert(place == before.len());
    assert(text.subrange(0, place) =~= before);
    assert(text.subrange(place + 1, text.len() as int) =~= after);
    let other = first_place(before, separator) as int;
    if other < before.len() {
        assert(before[other] == separator);
        assert(before.contains(separator));
    }
}

proof fn lemma_starts_are_trimmed(blanks: Seq<char>, text: Seq<char>)
    requires
        forall|i: int| 0 <= i < blanks.len() ==> is_blank(#[trigger] blanks[i]),
    ensures
        trimmed_start(blanks + text) == trimmed_start(text),
    decreases blanks.len(),
{
    if blanks.len() > 0 {
        assert(is_blank(blanks[0]));
        assert((blanks + text).subrange(1, (blanks + text).len() as int) =~= blanks.subrange(
            1,
            blanks.len() as int,
        ) + text);
        lemma_starts_are_trimmed(blanks.subrange(1, blanks.len() as int), text);
    } else {
        assert(blanks + text =~= text);
    }
}

/// The blanks around a text are dropped, and nothing else: spaces and tabs before its
/// first and behind its last other character.
pub proof fn law_blanks_are_trimmed(before: Seq<char>, text: Seq<char>, after: Seq<char>)
    requires
        forall|i: int|
            0 <= i < before.len() ==> (#[trigger] before[i] == ' ' || before[i] == '\t'),
        forall|i: int| 0 <= i < after.len() ==> (#[trigger] after[i] == ' ' || after[i] == '\t'),
        text.len() > 0 ==> text[0] != ' ' && text[0] != '\t' && text.last() != ' ' && text.last()
            != '\t',
    ensures
        trimmed(before + text + after) == text,
{
    assert forall|i: int| 0 <= i < before.len() implies is_blank(#[trigger] before[i]) by {
        assert(before[i] == ' ' || before[i] == '\t');
    }
    assert forall|i: int| 0 <= i < after.len() implies is_blank(#[trigger] after[i]) by {
        assert(after[i] == ' ' || after[i] == '\t');
    }
    assert(before + text + after =~= before + (text + after));
    lemma_starts_are_trimmed(before, text + after);
    if text.len() > 0 {
        assert((text + after)[0] == text[0]);
        lemma_end_keeps_a_mark(text, after);
    } else {
        assert(text + after =~= after + text);
        lemma_starts_are_trimmed(after, text);
        assert(trimmed(before + text + after) =~= text);
    }
}

/// Where a text is sought and replaced, what stands before its first occurrence stays,
/// the other text takes its place, and the search goes on behind it. A text in which it
/// does not occur stays as it is.
pub proof fn law_occurrences_are_replaced(
    before: Seq<char>,
    after: Seq<char>,
    from: Seq<char>,
    to: Seq<char>,
)
    requires
        from.len() > 0,
        forall|start: int|
            0 <= start < before.len() ==> !has_prefix(
                #[trigger] (before + from + after).subrange(
                    start,
                    (before + from + after).len() as int,
                ),
                from,
            ),
    ensures
        replaced(before + from + after, from, to) == before + to + replaced(after, from, to),
    decreases before.len(),
{
    let text = before + from + after;
    if before.len() == 0 {
        assert(text.subrange(0, from.len() as int) =~= from);
        assert(text.subrange(from.len() as int, text.len() as int) =~= after);
        assert(before + to + replaced(after, from, to) =~= to + replaced(after, from, to));
    } else {
        assert(text.subrange(0, text.len() as int) =~= text);
        assert(!has_prefix(text.subrange(0, text.len() as int), from));
        let shorter = before.subrange(1, before.len() as int);
        let rest = shorter + from + after;
        assert(text.subrange(1, text.len() as int) =~= rest);
        assert forall|start: int| 0 <= start < shorter.len() implies !has_prefix(
            #[trigger] rest.subrange(start, rest.len() as int),
            from,
        ) by {
            assert(rest.subrange(start, rest.len() as int) =~= text.subrange(
                start + 1,
                text.len() as int,
            ));
        }
        law_occurrences_are_replaced(shorter, after, from, to);
        assert(seq![text[0]] + (shorter + to + replaced(after, from, to)) =~= before + to
            + replaced(after, from, to));
    }
}

/// A text in which another does not occur has nothing replaced.
pub proof fn law_other_texts_stay(text: Seq<char>, from: Seq<char>, to: Seq<char>)
    requires
        forall|start: int|
            0 <= start < text.len() ==> !has_prefix(
                #[trigger] text.subrange(start, text.len() as int),
                from,
            ),
    ensures
        replaced(text, from, to) == text,
    decreases text.len(),
{
    if text.len() > 0 {
        assert(text.subrange(0, text.len() as int) =~= text);
        assert(!has_prefix(text.subrange(0, text.len() as int), from));
        let rest = text.subrange(1, text.len() as int);
        assert forall|start: int| 0 <= start < rest.len() implies !has_prefix(
            #[trigger] rest.subrange(start, rest.len() as int),
            from,
        ) by {
            assert(rest.subrange(start, rest.len() as int) =~= text.subrange(
                start + 1,
                text.len() as int,
            ));
        }
        law_other_texts_stay(rest, from, to);
        assert(seq![text[0]] + rest =~= text);
    }
}

/// The copies of a character that a text starts with are dropped, all of them and
/// nothing else.
pub proof fn law_leading_copies_are_dropped(count: nat, text: Seq<char>, dropped: char)
    requires
        text.len() > 0 ==> text[0] != dropped,
    ensures
        without_leading(Seq::new(count, |i: int| dropped) + text, dropped) == text,
    decreases count,
{
    let copies = Seq::new(count, |i: int| dropped);
    if count > 0 {
        let fewer = Seq::new((count - 1) as nat, |i: int| dropped);
        assert((copies + text).drop_first() =~= fewer + text);
        law_leading_copies_are_dropped((count - 1) as nat, text, dropped);
    } else {
        assert(copies + text =~= text);
    }
}

/// Each byte is written with two hexadecimal digits, in the order of the bytes.
pub proof fn law_bytes_are_written_in_two_digits(left: Seq<u8>, right: Seq<u8>, byte: u8)
    ensures
        hex(left + right) == hex(left) + hex(right),
        hex(left).len() == 2 * left.len(),
        hex(seq![byte]) == seq![
            identifiers::hex_digit(byte as int / 16),
            identifiers::hex_digit(byte as int % 16),
        ],
{
    assert(hex(left + right) =~= hex(left) + hex(right));
    assert(hex(seq![byte]) =~= seq![
        identifiers::hex_digit(byte as int / 16),
        identifiers::hex_digit(byte as int % 16),
    ]);
}

/// Another text does not occur in a text.
pub open spec fn lacks(text: Seq<char>, wanted: Seq<char>) -> bool {
    forall|start: int|
        0 <= start < text.len() ==> !has_prefix(
            #[trigger] text.subrange(start, text.len() as int),
            wanted,
        )
}

/// In a text of three parts, the middle one does not occur before its place.
pub open spec fn is_first_between(before: Seq<char>, wanted: Seq<char>, after: Seq<char>) -> bool {
    forall|start: int|
        0 <= start < before.len() ==> !has_prefix(
            #[trigger] (before + wanted + after).subrange(
                start,
                (before + wanted + after).len() as int,
            ),
            wanted,
        )
}

/// A text that occurs once is replaced, and nothing else changes.
pub proof fn law_single_occurrences_are_replaced(
    before: Seq<char>,
    from: Seq<char>,
    after: Seq<char>,
    to: Seq<char>,
)
    requires
        from.len() > 0,
        is_first_between(before, from, after),
        lacks(after, from),
    ensures
        replaced(before + from + after, from, to) == before + to + after,
{
    law_occurrences_are_replaced(before, after, from, to);
    law_other_texts_stay(after, from, to);
}

} // verus!
